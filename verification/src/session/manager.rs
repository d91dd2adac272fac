//! The session manager: owns the registered sessions, keyed by the
//! numeric form of their device IDs, and runs the typed request/reply
//! exchange against a chosen session.

use crate::device_id::{device_id_index, spec_id_index, valid_device_id};
use crate::network::packet::RequestPacket;
use crate::service::message::reply::ReplyMessage;
use crate::service::message::request::RequestMessage;
use crate::session::session::Session;
use std::collections::HashMap;
use vstd::prelude::*;

verus! {

broadcast use vstd::std_specs::hash::group_hash_axioms;

/// Why a managed request failed.
#[derive(Debug, PartialEq, Eq, Clone, Copy)]
pub enum ManagerError {
    /// No session is registered under the addressed device ID.
    SessionNotFound,
    /// A request must carry a positive timeout.
    RequestMustHasNoneZeroTimeoutDuration,
    /// No reply arrived within the timeout.
    Timeout,
    /// The reply's variant does not pair with the request's.
    CastFailed,
}

/// The registered sessions, keyed by the numeric form of their device
/// IDs.
pub struct Manager {
    sessions: HashMap<u64, Session>,
}

impl Manager {
    /// The sessions, as a map from numeric device ID to session.
    pub closed spec fn spec_sessions(&self) -> Map<u64, Session> {
        self.sessions@
    }

    /// Whether a session is registered under the given device ID.
    pub open spec fn spec_has_session(&self, device_id: Seq<char>) -> bool {
        valid_device_id(device_id) && self.spec_sessions().contains_key(
            spec_id_index(device_id) as u64,
        )
    }

    /// An empty manager.
    pub fn new() -> (r: Manager)
        ensures
            r.spec_sessions() == Map::<u64, Session>::empty(),
    {
        Manager { sessions: HashMap::new() }
    }

    /// Registers a session under its device ID, last writer wins.
    /// Fails without registering when the session holds no device ID
    /// or a malformed one.
    pub fn add(&mut self, session: Session) -> (r: bool)
        ensures
            ({
                match session.spec_device_id() {
                    Some(id) => if valid_device_id(id) {
                        r && final(self).spec_sessions() == old(self).spec_sessions().insert(
                            spec_id_index(id) as u64,
                            session,
                        )
                    } else {
                        !r && final(self).spec_sessions() == old(self).spec_sessions()
                    },
                    None => !r && final(self).spec_sessions() == old(self).spec_sessions(),
                }
            }),
    {
        let key: u64 = match session.device_id() {
            Some(id) => match device_id_index(id.as_str()) {
                Some(k) => k,
                None => {
                    return false;
                },
            },
            None => {
                return false;
            },
        };
        self.sessions.insert(key, session);
        true
    }

    /// Whether a session is registered under the given device ID.
    pub fn exist(&self, device_id: &str) -> (r: bool)
        ensures
            r == self.spec_has_session(device_id@),
    {
        match device_id_index(device_id) {
            Some(k) => self.sessions.contains_key(&k),
            None => false,
        }
    }

    /// Starts a typed request against the session registered under
    /// `to_device_id`: opens a pending call there and hands back the
    /// request packet to deliver.  The timeout must be positive; with
    /// no such session the request fails.
    pub fn request_begin(
        &mut self,
        to_device_id: &str,
        request: RequestMessage,
        timeout_ms: u64,
    ) -> (r: Result<RequestPacket, ManagerError>)
        ensures
            match r {
                Ok(packet) => ({
                    &&& timeout_ms > 0
                    &&& old(self).spec_has_session(to_device_id@)
                    &&& packet.call_id != 0
                    &&& packet.request_message == request
                    &&& ({
                        let key = spec_id_index(to_device_id@) as u64;
                        let pre = old(self).spec_sessions()[key];
                        let post = final(self).spec_sessions()[key];
                        &&& final(self).spec_sessions() == old(self).spec_sessions().insert(
                            key,
                            post,
                        )
                        &&& post.spec_pending() == pre.spec_pending().insert(packet.call_id)
                        &&& post.spec_device_id() == pre.spec_device_id()
                        &&& post.spec_queue() == pre.spec_queue()
                        &&& post.spec_closed() == pre.spec_closed()
                    })
                }),
                Err(ManagerError::RequestMustHasNoneZeroTimeoutDuration) => timeout_ms == 0
                    && final(self).spec_sessions() == old(self).spec_sessions(),
                Err(ManagerError::SessionNotFound) => timeout_ms > 0 && !old(
                    self,
                ).spec_has_session(to_device_id@) && final(self).spec_sessions() == old(
                    self,
                ).spec_sessions(),
                Err(_) => false,
            },
    {
        if timeout_ms == 0 {
            return Err(ManagerError::RequestMustHasNoneZeroTimeoutDuration);
        }
        let key: u64 = match device_id_index(to_device_id) {
            Some(k) => k,
            None => {
                return Err(ManagerError::SessionNotFound);
            },
        };
        let mut session = match self.sessions.remove(&key) {
            Some(s) => s,
            None => {
                return Err(ManagerError::SessionNotFound);
            },
        };
        let call_id = session.open_call();
        self.sessions.insert(key, session);
        proof {
            assert(final(self).spec_sessions() =~= old(self).spec_sessions().insert(
                key,
                final(self).spec_sessions()[key],
            ));
        }
        Ok(RequestPacket { call_id, request_message: request })
    }

    /// Finishes a typed request from what came back: no reply within
    /// the timeout is `Timeout`, a reply whose variant does not pair
    /// with the request's is `CastFailed`, and a pairing reply is the
    /// result.
    pub fn request_finish(request: &RequestMessage, outcome: Option<ReplyMessage>) -> (r: Result<
        ReplyMessage,
        ManagerError,
    >)
        ensures
            match r {
                Ok(reply) => outcome == Some(reply) && reply.spec_answers(request),
                Err(ManagerError::Timeout) => outcome is None,
                Err(ManagerError::CastFailed) => (outcome matches Some(rep)
                    && !rep.spec_answers(request)),
                Err(_) => false,
            },
    {
        match outcome {
            None => Err(ManagerError::Timeout),
            Some(reply) => {
                if reply.answers(request) {
                    Ok(reply)
                } else {
                    Err(ManagerError::CastFailed)
                }
            },
        }
    }

    /// Drops the pending slot of a call that timed out, on the session
    /// it was opened against.  Returns whether the slot was present.
    pub fn expire_call(&mut self, to_device_id: &str, call_id: u8) -> (r: bool)
        ensures
            ({
                if old(self).spec_has_session(to_device_id@) {
                    let key = spec_id_index(to_device_id@) as u64;
                    let pre = old(self).spec_sessions()[key];
                    let post = final(self).spec_sessions()[key];
                    &&& r == pre.spec_pending().contains(call_id)
                    &&& final(self).spec_sessions() == old(self).spec_sessions().insert(key, post)
                    &&& post.spec_pending() == pre.spec_pending().remove(call_id)
                    &&& post.spec_device_id() == pre.spec_device_id()
                    &&& post.spec_queue() == pre.spec_queue()
                    &&& post.spec_closed() == pre.spec_closed()
                    &&& post.spec_counter() == pre.spec_counter()
                } else {
                    !r && final(self).spec_sessions() == old(self).spec_sessions()
                }
            }),
    {
        let key: u64 = match device_id_index(to_device_id) {
            Some(k) => k,
            None => {
                return false;
            },
        };
        let mut session = match self.sessions.remove(&key) {
            Some(s) => s,
            None => {
                return false;
            },
        };
        let was_pending = session.reply(call_id);
        self.sessions.insert(key, session);
        proof {
            assert(final(self).spec_sessions() =~= old(self).spec_sessions().insert(
                key,
                final(self).spec_sessions()[key],
            ));
        }
        was_pending
    }
}

} // verus!
