//! The device directory store: `device_id → expiry` with create-only
//! and update-only writes and a 90-day time-to-live.  [`Store`] is the
//! store's contract; [`MemoryStore`] implements it in memory and is
//! what [`new_store`] hands out.  A store backed by an external
//! key-value service implements the same trait outside this crate;
//! only this contract is relied on.

use crate::device_id::{device_id_index, spec_id_index, valid_device_id};
use std::collections::HashMap;
use vstd::prelude::*;
use vstd::string::StringExecFns;

verus! {

broadcast use vstd::std_specs::hash::group_hash_axioms;

/// Directory time-to-live: 90 days, in seconds.
pub const DEVICE_ID_TTL_SECONDS: u32 = 90 * 24 * 60 * 60;

/// The expiry written by a successful allocation or renewal at `now`:
/// 90 days ahead, saturating at the largest representable time.
pub open spec fn spec_expire_at(now: u32) -> u32 {
    if now + DEVICE_ID_TTL_SECONDS <= u32::MAX {
        (now + DEVICE_ID_TTL_SECONDS) as u32
    } else {
        u32::MAX
    }
}

/// The expiry written by a successful allocation or renewal at `now`.
pub fn expire_at(now: u32) -> (r: u32)
    ensures
        r == spec_expire_at(now),
{
    if now <= u32::MAX - DEVICE_ID_TTL_SECONDS {
        now + DEVICE_ID_TTL_SECONDS
    } else {
        u32::MAX
    }
}

/// The key under which a device ID lives in the external store.
pub fn store_key(device_id: &str) -> (r: String)
    ensures
        r@ == "device_id:"@ + device_id@,
{
    let mut key = String::from_str("device_id:");
    key.append(device_id);
    key
}

/// The store could not be reached or did not answer in time.
#[derive(Debug, PartialEq, Eq, Clone, Copy)]
pub enum StoreError {
    Unavailable,
}

/// Clamps a wall-clock timestamp in seconds to the directory's 32-bit
/// range.
pub fn clamp_timestamp(ts: i64) -> (r: u32)
    ensures
        ts < 0 ==> r == 0,
        0 <= ts <= u32::MAX ==> r == ts,
        ts > u32::MAX ==> r == u32::MAX,
{
    if ts < 0 {
        0
    } else if ts > u32::MAX as i64 {
        u32::MAX
    } else {
        ts as u32
    }
}

/// Relies on `chrono::Utc::now` and `DateTime::timestamp`: the current
/// wall-clock time in seconds since the Unix epoch, nonnegative on any
/// system whose clock is at or after the epoch.
#[verifier::external_body]
pub fn utc_now_timestamp() -> (r: i64)
    ensures
        r >= 0,
{
    chrono::Utc::now().timestamp()
}

/// The directory store's contract.  Entries map the numeric form of a
/// device ID to its expiry.  An unreachable store answers `Err` and
/// changes nothing; only well-formed device IDs ever enter the
/// directory.
pub trait Store: Sized {
    /// The directory's entries: numeric device ID to expiry.  A store
    /// that does not say otherwise models no entries.
    open spec fn spec_entries(&self) -> Map<u64, u32> {
        Map::empty()
    }

    /// Update-only write (renewal): succeeds with the new expiry
    /// exactly when the ID is a well-formed device ID that is present,
    /// and then refreshes its expiry to 90 days from `now`.
    fn device_id_renew(&mut self, device_id: &str, now: u32) -> (r: Result<
        Option<u32>,
        StoreError,
    >)
        ensures
            match r {
                Ok(Some(e)) => valid_device_id(device_id@) && old(self).spec_entries().contains_key(
                    spec_id_index(device_id@) as u64,
                ) && e == spec_expire_at(now) && final(self).spec_entries() == old(self).spec_entries().insert(spec_id_index(device_id@) as u64, e),
                Ok(None) => !(valid_device_id(device_id@) && old(self).spec_entries().contains_key(spec_id_index(device_id@) as u64)) && final(self).spec_entries() == old(self).spec_entries(),
                Err(_) => final(self).spec_entries() == old(self).spec_entries(),
            },
    ;

    /// Create-only write (allocation): succeeds with the expiry
    /// exactly when the ID is absent, and then creates it with an
    /// expiry 90 days from `now`.
    fn set_device_id(&mut self, device_id: &str, now: u32) -> (r: Result<Option<u32>, StoreError>)
        requires
            valid_device_id(device_id@),
        ensures
            match r {
                Ok(Some(e)) => !old(self).spec_entries().contains_key(
                    spec_id_index(device_id@) as u64,
                ) && e == spec_expire_at(now) && final(self).spec_entries() == old(self).spec_entries().insert(spec_id_index(device_id@) as u64, e),
                Ok(None) => old(self).spec_entries().contains_key(
                    spec_id_index(device_id@) as u64,
                ) && final(self).spec_entries() == old(self).spec_entries(),
                Err(_) => final(self).spec_entries() == old(self).spec_entries(),
            },
    ;
}

/// An in-memory directory store.  It can be told to fail its next few
/// calls, to exercise callers' handling of an unreachable store.
pub struct MemoryStore {
    entries: HashMap<u64, u32>,
    forced_errors: u32,
}

impl MemoryStore {
    /// The number of upcoming calls that will fail.
    pub closed spec fn spec_forced_errors(&self) -> u32 {
        self.forced_errors
    }

    /// An empty store.
    pub fn new() -> (r: MemoryStore)
        ensures
            r.spec_entries() == Map::<u64, u32>::empty(),
            r.spec_forced_errors() == 0,
    {
        MemoryStore { entries: HashMap::new(), forced_errors: 0 }
    }

    /// Makes the next `n` calls fail as if the store were unreachable.
    pub fn fail_next(&mut self, n: u32)
        ensures
            final(self).spec_entries() == old(self).spec_entries(),
            final(self).spec_forced_errors() == n,
    {
        self.forced_errors = n;
    }
}

impl Store for MemoryStore {
    closed spec fn spec_entries(&self) -> Map<u64, u32> {
        self.entries@
    }

    fn device_id_renew(&mut self, device_id: &str, now: u32) -> (r: Result<
        Option<u32>,
        StoreError,
    >) {
        if self.forced_errors > 0 {
            self.forced_errors = self.forced_errors - 1;
            return Err(StoreError::Unavailable);
        }
        let key: u64 = match device_id_index(device_id) {
            Some(k) => k,
            None => {
                return Ok(None);
            },
        };
        if self.entries.contains_key(&key) {
            let e = expire_at(now);
            self.entries.insert(key, e);
            Ok(Some(e))
        } else {
            Ok(None)
        }
    }

    fn set_device_id(&mut self, device_id: &str, now: u32) -> (r: Result<Option<u32>, StoreError>) {
        if self.forced_errors > 0 {
            self.forced_errors = self.forced_errors - 1;
            return Err(StoreError::Unavailable);
        }
        let key: u64 = match device_id_index(device_id) {
            Some(k) => k,
            None => {
                return Ok(None);
            },
        };
        if self.entries.contains_key(&key) {
            Ok(None)
        } else {
            let e = expire_at(now);
            self.entries.insert(key, e);
            Ok(Some(e))
        }
    }
}

/// A fresh in-memory directory store.
pub fn new_store() -> (r: MemoryStore)
    ensures
        r.spec_entries() == Map::<u64, u32>::empty(),
        r.spec_forced_errors() == 0,
{
    MemoryStore::new()
}

} // verus!
