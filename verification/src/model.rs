//! The stats endpoint's data model: the traffic counter snapshot and
//! the live relay pair descriptors, capped at ten.

use vstd::prelude::*;

verus! {

/// How many relay pair descriptors a snapshot may carry.
pub const CLIENTS_SNAPSHOT_CAPACITY: usize = 10;

/// What the stats endpoint publishes.
#[derive(Debug, PartialEq, Eq)]
pub struct StatResponse {
    pub bytes_transferred: u64,
    pub client_snapshot: Vec<StreamingClientStat>,
}

/// One live relay pair: who is connected to whom, from where, and
/// since when.
#[derive(Debug, PartialEq, Eq)]
pub struct StreamingClientStat {
    pub active_device_id: i64,
    pub active_addr: String,
    pub passive_device_id: i64,
    pub passive_addr: String,
    pub timestamp: i64,
}

impl StreamingClientStat {
    /// A field-for-field copy.
    pub fn duplicate(&self) -> (r: StreamingClientStat)
        ensures
            r == *self,
    {
        StreamingClientStat {
            active_device_id: self.active_device_id,
            active_addr: self.active_addr.clone(),
            passive_device_id: self.passive_device_id,
            passive_addr: self.passive_addr.clone(),
            timestamp: self.timestamp,
        }
    }
}

} // verus!
