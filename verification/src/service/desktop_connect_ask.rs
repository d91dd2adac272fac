//! The ask side of connection negotiation: the server forwards an
//! offerer's intent to the asked device, which answers whether it
//! agrees and, if so, with its password-authentication public key.

use vstd::prelude::*;

verus! {

/// Forwarded to the asked device: who wants to connect.
#[derive(Debug, PartialEq, Eq, Clone)]
pub struct DesktopConnectAskReq {
    pub offer_device_id: String,
}

/// The asked device's answer.
#[derive(Debug, PartialEq, Eq, Clone)]
pub struct DesktopConnectAskResp {
    pub agree: bool,
    pub password_auth_public_key_n: Vec<u8>,
    pub password_auth_public_key_e: Vec<u8>,
}

} // verus!
