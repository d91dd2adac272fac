//! Typed requests of the session layer's request/reply protocol.

use vstd::prelude::*;

verus! {

/// A request a session can address to the server or to a peer session.
#[derive(Debug, PartialEq, Eq, Clone)]
pub enum RequestMessage {
    HeartBeatRequest(HeartBeatRequest),
    RegisterIdRequest(RegisterRequest),
}

/// A keep-alive probe.
#[derive(Debug, PartialEq, Eq, Clone)]
pub struct HeartBeatRequest {
    pub time_stamp: u32,
}

/// A registration: renew the carried device ID, or allocate a fresh
/// one when none is carried.
#[derive(Debug, PartialEq, Eq, Clone)]
pub struct RegisterRequest {
    pub device_id: Option<String>,
}

} // verus!
