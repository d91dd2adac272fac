//! Packet proxying: resolving the session a packet must be forwarded
//! to.  The packet itself passes through verbatim.

use crate::component::online::ClientManager;
use crate::device_id::spec_id_index;
use crate::service::message::reply_error::ReplyError;
use vstd::prelude::*;

verus! {

/// The session handle a packet addressed to `to_device_id` must be
/// forwarded to, or `DeviceNotFound` when no session is registered
/// under that ID.
pub fn proxy<'a, V>(client_manager: &'a ClientManager<V>, to_device_id: &str) -> (r: Result<
    &'a V,
    ReplyError,
>)
    ensures
        match r {
            Ok(v) => client_manager.spec_contains(to_device_id@) && *v
                == client_manager.spec_clients().index(spec_id_index(to_device_id@) as u64),
            Err(e) => e == ReplyError::DeviceNotFound && !client_manager.spec_contains(
                to_device_id@,
            ),
        },
{
    match client_manager.find(to_device_id) {
        Some(v) => Ok(v),
        None => Err(ReplyError::DeviceNotFound),
    }
}

} // verus!
