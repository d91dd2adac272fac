//! Errors a session-layer request can end in.

use vstd::prelude::*;

verus! {

/// Why a request failed.
#[derive(Debug, PartialEq, Eq, Clone, Copy)]
pub enum ReplyError {
    /// The server could not serve the request.
    Internal,
    /// No reply arrived within the caller's deadline.
    Timeout,
    /// The addressed device is not registered.
    DeviceNotFound,
    /// The reply's variant does not pair with the request's.
    CastFailed,
    /// The session already holds a device ID.
    RepeatedRequest,
}

} // verus!
