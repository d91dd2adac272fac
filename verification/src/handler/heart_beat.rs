//! Heartbeat request and reply carried on a control connection.

use vstd::prelude::*;

verus! {

/// A client's keep-alive probe.
#[derive(Debug, PartialEq, Eq, Clone)]
pub struct HeartBeatReq {
    pub time_stamp: u32,
}

/// The server's answer: its own clock, in Unix seconds.
#[derive(Debug, PartialEq, Eq, Clone)]
pub struct HeartBeatResp {
    pub time_stamp: u32,
}

impl HeartBeatReq {
    /// Answers a heartbeat with the server's current time.
    pub fn handle(&self, now: u32) -> (r: HeartBeatResp)
        ensures
            r.time_stamp == now,
    {
        HeartBeatResp { time_stamp: now }
    }
}

} // verus!
