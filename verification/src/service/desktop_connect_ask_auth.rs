//! The ask side of password authentication: the server forwards the
//! offerer's encrypted secret to the asked device for checking.

use vstd::prelude::*;

verus! {

/// Forwarded to the asked device: the offerer's encrypted secret.
#[derive(Debug, PartialEq, Eq, Clone)]
pub struct DesktopConnectAskAuthReq {
    pub offer_device_id: String,
    pub secret_message: Vec<u8>,
}

/// The asked device's answer on the secret: whether it checked out.
#[derive(Debug, PartialEq, Eq, Clone)]
pub struct DesktopConnectAskAuthResp {
    pub password_correct: bool,
}

} // verus!
