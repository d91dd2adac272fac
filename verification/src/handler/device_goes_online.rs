//! Registration request and reply: a device announces itself, either
//! renewing a device ID it already holds or asking for a fresh one.

use crate::component::online::ClientManager;
use crate::component::store::Store;
use crate::device_id::{spec_id_index, valid_device_id, DeviceIdGenerator};
use crate::network::message::{Message, MessageError};
use crate::service::device::{register_id, spec_registered};
use crate::service::message::reply::RegisterIdReply;
use crate::service::message::reply_error::ReplyError;
use crate::service::message::request::RegisterRequest;
use crate::session::session::{spec_session_eq, Session};
use vstd::prelude::*;

verus! {

/// A device coming online.  `device_id` carries the ID to renew, or
/// nothing to ask for a fresh allocation.
#[derive(Debug, PartialEq, Eq, Clone)]
pub struct DeviceGoesOnlineReq {
    pub device_id: Option<String>,
}

/// A successful registration: the device's ID and when its directory
/// entry expires, in Unix seconds.
#[derive(Debug, PartialEq, Eq, Clone)]
pub struct DeviceGoesOnlineResp {
    pub device_id: String,
    pub device_id_expire_time_stamp: u32,
}

impl DeviceGoesOnlineReq {
    /// Registers the session, renewing the carried device ID or
    /// allocating a fresh one, and wraps the outcome as a message:
    /// success carries the ID and its expiry, and a renewal the
    /// directory knows keeps the carried ID; an unreachable store is
    /// `InternalError`; a session that already holds an ID is
    /// `RepeatedRequest`.
    pub fn handle<S: Store, V>(
        &self,
        store: &mut S,
        client_manager: &mut ClientManager<V>,
        session: &mut Session,
        handle: V,
        now: u32,
        generator: &mut DeviceIdGenerator,
    ) -> (r: Result<Message, MessageError>)
        ensures
            match r {
                Ok(m) => (m matches Message::DeviceGoesOnlineResp(resp) && spec_registered(
                    *old(store),
                    *final(store),
                    *old(client_manager),
                    *final(client_manager),
                    *old(session),
                    *final(session),
                    handle,
                    (RegisterIdReply {
                        device_id: resp.device_id,
                        expire_at: resp.device_id_expire_time_stamp,
                    }),
                    now,
                )),
                Err(MessageError::InternalError) => final(client_manager).spec_clients() == old(client_manager).spec_clients() && spec_session_eq(*final(session), *old(session)) && final(store).spec_entries() == old(store).spec_entries(),
                Err(MessageError::RepeatedRequest) => old(session).spec_device_id() is Some
                    && spec_session_eq(*final(session), *old(session)) && final(client_manager).spec_clients() == old(client_manager).spec_clients(),
                Err(_) => false,
            },
            ({
                match r {
                    Ok(m) => match m {
                        Message::DeviceGoesOnlineResp(resp) => match self.device_id {
                            Some(d) => (valid_device_id(d@) && old(store).spec_entries().contains_key(
                                spec_id_index(d@) as u64,
                            )) ==> resp.device_id@ == d@,
                            None => true,
                        },
                        _ => true,
                    },
                    Err(_) => true,
                }
            }),
    {
        let req = RegisterRequest {
            device_id: match &self.device_id {
                Some(s) => Some(s.clone()),
                None => None,
            },
        };
        match register_id(store, client_manager, session, handle, &req, now, generator) {
            Ok(reply) => Ok(
                Message::DeviceGoesOnlineResp(
                    DeviceGoesOnlineResp {
                        device_id: reply.device_id,
                        device_id_expire_time_stamp: reply.expire_at,
                    },
                ),
            ),
            Err(ReplyError::Internal) => Err(MessageError::InternalError),
            Err(ReplyError::RepeatedRequest) => Err(MessageError::RepeatedRequest),
            Err(_) => {
                proof {
                    assert(false);
                }
                Err(MessageError::InternalError)
            },
        }
    }
}

} // verus!
