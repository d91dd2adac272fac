//! The client registry: a process-wide map from device ID to the
//! session handle registered under it.  Point operations only;
//! insertion is last-writer-wins, lookup never blocks removal, and
//! removal is idempotent.  Only well-formed device IDs ever key the
//! registry, in their numeric form.

use crate::device_id::{device_id_index, spec_id_index, valid_device_id, DEVICE_ID_SPACE};
use std::collections::HashMap;
use vstd::prelude::*;

verus! {

broadcast use vstd::std_specs::hash::group_hash_axioms;

/// The registry of online clients, keyed by the numeric form of their
/// device IDs.  `V` is the session handle the surrounding process
/// registers.
pub struct ClientManager<V> {
    clients: HashMap<u64, V>,
}

impl<V> ClientManager<V> {
    /// The registry as a map from numeric device ID to handle.
    pub closed spec fn spec_clients(&self) -> Map<u64, V> {
        self.clients@
    }

    /// Whether a handle is registered under the given device ID.
    pub open spec fn spec_contains(&self, device_id: Seq<char>) -> bool {
        valid_device_id(device_id) && self.spec_clients().contains_key(
            spec_id_index(device_id) as u64,
        )
    }

    /// Every key is the numeric form of some device ID.
    pub open spec fn wf(&self) -> bool {
        forall|k: u64| self.spec_clients().contains_key(k) ==> k < DEVICE_ID_SPACE
    }

    /// An empty registry.
    pub fn new() -> (r: ClientManager<V>)
        ensures
            r.spec_clients() == Map::<u64, V>::empty(),
            r.wf(),
    {
        ClientManager { clients: HashMap::new() }
    }

    /// Registers a handle under a device ID, last writer wins.  A
    /// malformed device ID registers nothing: every ID ever placed in
    /// the registry is drawn from the restricted 8-character alphabet.
    pub fn add(&mut self, device_id: &str, client: V) -> (r: bool)
        ensures
            valid_device_id(device_id@) ==> r && final(self).spec_clients() == old(
                self,
            ).spec_clients().insert(spec_id_index(device_id@) as u64, client),
            !valid_device_id(device_id@) ==> !r && final(self).spec_clients() == old(
                self,
            ).spec_clients(),
            old(self).wf() ==> final(self).wf(),
    {
        match device_id_index(device_id) {
            Some(k) => {
                self.clients.insert(k, client);
                true
            },
            None => false,
        }
    }

    /// The handle registered under a device ID, if any.
    pub fn find(&self, device_id: &str) -> (r: Option<&V>)
        ensures
            match r {
                Some(v) => self.spec_contains(device_id@) && *v == self.spec_clients().index(
                    spec_id_index(device_id@) as u64,
                ),
                None => !self.spec_contains(device_id@),
            },
    {
        match device_id_index(device_id) {
            Some(k) => self.clients.get(&k),
            None => None,
        }
    }

    /// Whether a handle is registered under a device ID.
    pub fn contains(&self, device_id: &str) -> (r: bool)
        ensures
            r == self.spec_contains(device_id@),
    {
        match device_id_index(device_id) {
            Some(k) => self.clients.contains_key(&k),
            None => false,
        }
    }

    /// Removes and returns the handle registered under a device ID.
    /// Removal is idempotent: with nothing registered it returns
    /// nothing and changes nothing.
    pub fn remove(&mut self, device_id: &str) -> (r: Option<V>)
        ensures
            match r {
                Some(v) => old(self).spec_contains(device_id@) && v == old(
                    self,
                ).spec_clients().index(spec_id_index(device_id@) as u64),
                None => !old(self).spec_contains(device_id@),
            },
            valid_device_id(device_id@) ==> final(self).spec_clients() == old(
                self,
            ).spec_clients().remove(spec_id_index(device_id@) as u64),
            !valid_device_id(device_id@) ==> final(self).spec_clients() == old(
                self,
            ).spec_clients(),
            old(self).wf() ==> final(self).wf(),
    {
        match device_id_index(device_id) {
            Some(k) => self.clients.remove(&k),
            None => None,
        }
    }
}

/// Two consecutive removes of the same device ID yield the same
/// registry state as one: removing an absent key changes nothing.
pub proof fn lemma_remove_idempotent<V>(m: Map<u64, V>, k: u64)
    ensures
        m.remove(k).remove(k) == m.remove(k),
{
    assert(m.remove(k).remove(k) =~= m.remove(k));
}

/// A registered session has exactly one registry entry: registration
/// keys the session's handle under its device ID and touches no other
/// entry, and the removal owed on the session's termination erases
/// exactly that entry.
pub proof fn lemma_registry_single_entry<V>(m: Map<u64, V>, k: u64, v: V)
    ensures
        m.insert(k, v)[k] == v,
        forall|k2: u64| k2 != k ==> (m.insert(k, v).contains_key(k2) <==> m.contains_key(k2)),
        forall|k2: u64|
            k2 != k && m.insert(k, v).contains_key(k2) ==> m.insert(k, v)[k2] == m[k2],
        !m.insert(k, v).remove(k).contains_key(k),
        forall|k2: u64|
            k2 != k ==> (m.insert(k, v).remove(k).contains_key(k2) <==> m.contains_key(k2)),
{
}

} // verus!
