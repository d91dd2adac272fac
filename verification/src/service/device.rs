//! The device service: heartbeat and registration.  Registration
//! renews a device ID the client already holds, or allocates a fresh
//! one against the directory store, publishes the session in the
//! client registry, and reports the entry's expiry.

use crate::component::online::ClientManager;
use crate::component::store::{spec_expire_at, Store, StoreError};
use crate::device_id::{spec_id_index, valid_device_id, DeviceIdGenerator};
use crate::service::message::reply::{HeartBeatReply, RegisterIdReply};
use crate::service::message::reply_error::ReplyError;
use crate::service::message::request::{HeartBeatRequest, RegisterRequest};
use crate::session::session::{spec_session_eq, Session};
use vstd::prelude::*;

verus! {

/// How many consecutive store failures registration tolerates before
/// giving up.
pub const MAX_REGISTER_STORE_FAILURES: u32 = 10;

/// Answers a heartbeat with the server's current time.
pub fn heart_beat(req: &HeartBeatRequest, now: u32) -> (r: HeartBeatReply)
    ensures
        r.time_stamp == now,
{
    HeartBeatReply { time_stamp: now }
}

/// What a successful registration guarantees: a well-formed device ID
/// whose directory entry expires 90 days from `now`, the session
/// holding that ID, and the registry mapping it to the given handle.
pub open spec fn spec_registered<S: Store, V>(
    store_pre: S,
    store_post: S,
    cm_pre: ClientManager<V>,
    cm_post: ClientManager<V>,
    session_pre: Session,
    session_post: Session,
    handle: V,
    reply: RegisterIdReply,
    now: u32,
) -> bool {
    &&& valid_device_id(reply.device_id@)
    &&& reply.expire_at == spec_expire_at(now)
    &&& session_pre.spec_device_id() is None
    &&& session_post.spec_device_id() == Some(reply.device_id@)
    &&& cm_post.spec_clients() == cm_pre.spec_clients().insert(
        spec_id_index(reply.device_id@) as u64,
        handle,
    )
    &&& store_post.spec_entries().contains_key(spec_id_index(reply.device_id@) as u64)
    &&& store_post.spec_entries()[spec_id_index(reply.device_id@) as u64] == reply.expire_at
}

/// What one allocation attempt decided.
#[derive(Debug, PartialEq, Eq, Clone, Copy)]
pub enum AllocationStep {
    /// The store granted the candidate ID, with this expiry.
    Granted(u32),
    /// The candidate was already taken: try a fresh one.  Collisions
    /// never count toward the failure threshold.
    Retry,
    /// The store failed: try again, with the failure counted.
    RetryAfterFailure(u32),
    /// The store has now failed ten times in this registration:
    /// give up with `Internal`.
    GiveUp,
}

/// The allocation retry policy, one store answer at a time: a granted
/// candidate registers with the store's expiry; a taken candidate is
/// retried without touching the failure count; a store failure is
/// retried with the count raised, until the tenth failure gives up.
pub fn allocation_step(outcome: Result<Option<u32>, StoreError>, failure_counter: u32) -> (r:
    AllocationStep)
    requires
        failure_counter < MAX_REGISTER_STORE_FAILURES,
    ensures
        match r {
            AllocationStep::Granted(e) => outcome == Ok::<Option<u32>, StoreError>(Some(e)),
            AllocationStep::Retry => outcome == Ok::<Option<u32>, StoreError>(None),
            AllocationStep::RetryAfterFailure(n) => (outcome matches Err(_)) && n
                == failure_counter + 1 && n < MAX_REGISTER_STORE_FAILURES,
            AllocationStep::GiveUp => (outcome matches Err(_)) && failure_counter + 1
                == MAX_REGISTER_STORE_FAILURES,
        },
{
    match outcome {
        Ok(Some(e)) => AllocationStep::Granted(e),
        Ok(None) => AllocationStep::Retry,
        Err(_) => {
            let n = failure_counter + 1;
            if n >= MAX_REGISTER_STORE_FAILURES {
                AllocationStep::GiveUp
            } else {
                AllocationStep::RetryAfterFailure(n)
            }
        },
    }
}

/// Registers a session.  A carried device ID is renewed; with none, or
/// with one the directory does not know, a fresh ID is allocated,
/// retrying on collisions and giving up with `Internal` after ten
/// store failures, as [`allocation_step`] decides.  On success the
/// session holds the ID and the registry maps it to `handle`; a
/// renewal that the directory knows keeps the carried ID; a session
/// that already holds an ID fails with `RepeatedRequest`; on failure
/// the registry is untouched.
pub fn register_id<S: Store, V>(
    store: &mut S,
    client_manager: &mut ClientManager<V>,
    session: &mut Session,
    handle: V,
    req: &RegisterRequest,
    now: u32,
    generator: &mut DeviceIdGenerator,
) -> (r: Result<RegisterIdReply, ReplyError>)
    ensures
        match r {
            Ok(reply) => spec_registered(
                *old(store),
                *final(store),
                *old(client_manager),
                *final(client_manager),
                *old(session),
                *final(session),
                handle,
                reply,
                now,
            ),
            Err(ReplyError::Internal) => final(client_manager).spec_clients() == old(client_manager).spec_clients() && spec_session_eq(*final(session), *old(session)) && final(store).spec_entries() == old(store).spec_entries(),
            Err(ReplyError::RepeatedRequest) => old(session).spec_device_id() is Some && spec_session_eq(*final(session), *old(session)) && final(client_manager).spec_clients() == old(client_manager).spec_clients() && (final(store).spec_entries() == old(store).spec_entries() || (
            exists|k: u64|
                final(store).spec_entries() == old(store).spec_entries().insert(
                    k,
                    spec_expire_at(now),
                ))),
            Err(_) => false,
        },
        ({
            match r {
                Ok(reply) => match req.device_id {
                    Some(d) => (valid_device_id(d@) && old(store).spec_entries().contains_key(
                        spec_id_index(d@) as u64,
                    )) ==> reply.device_id@ == d@,
                    None => true,
                },
                Err(_) => true,
            }
        }),
{
    if let Some(device_id) = &req.device_id {
        match store.device_id_renew(device_id.as_str(), now) {
            Ok(Some(expire_at)) => {
                match session.set_device_id(device_id.clone()) {
                    Ok(()) => {
                        client_manager.add(device_id.as_str(), handle);
                        return Ok(
                            RegisterIdReply { device_id: device_id.clone(), expire_at },
                        );
                    },
                    Err(_) => {
                        proof {
                            let k0 = spec_id_index(device_id@) as u64;
                            assert(store.spec_entries() == old(store).spec_entries().insert(
                                k0,
                                spec_expire_at(now),
                            ));
                        }
                        return Err(ReplyError::RepeatedRequest);
                    },
                }
            },
            Err(_) => {
                return Err(ReplyError::Internal);
            },
            Ok(None) => {},
        }
    }
    let mut failure_counter: u32 = 0;
    let mut attempts_left: u64 = u64::MAX;
    let mut allocated: Option<(String, u32)> = None;
    loop
        invariant_except_break
            allocated is None,
            failure_counter < MAX_REGISTER_STORE_FAILURES,
            store.spec_entries() == old(store).spec_entries(),
            *session == *old(session),
            client_manager.spec_clients() == old(client_manager).spec_clients(),
        ensures
            (allocated matches Some((id, e)) && valid_device_id(id@) && e == spec_expire_at(now)
                && store.spec_entries() == old(store).spec_entries().insert(
                spec_id_index(id@) as u64,
                spec_expire_at(now),
            )),
            *session == *old(session),
            client_manager.spec_clients() == old(client_manager).spec_clients(),
        decreases attempts_left,
    {
        if attempts_left == 0 {
            return Err(ReplyError::Internal);
        }
        attempts_left = attempts_left - 1;
        let candidate = generator.next_device_id();
        let outcome = store.set_device_id(candidate.as_str(), now);
        match allocation_step(outcome, failure_counter) {
            AllocationStep::Granted(e) => {
                allocated = Some((candidate, e));
                break;
            },
            AllocationStep::Retry => {},
            AllocationStep::RetryAfterFailure(n) => {
                failure_counter = n;
            },
            AllocationStep::GiveUp => {
                return Err(ReplyError::Internal);
            },
        }
    }
    let (new_id, expire_at): (String, u32) = match allocated {
        Some(p) => p,
        None => {
            proof {
                assert(false);
            }
            return Err(ReplyError::Internal);
        },
    };
    match session.set_device_id(new_id.clone()) {
        Ok(()) => {
            client_manager.add(new_id.as_str(), handle);
            Ok(RegisterIdReply { device_id: new_id, expire_at })
        },
        Err(_) => {
            proof {
                let k0 = spec_id_index(new_id@) as u64;
                assert(store.spec_entries() == old(store).spec_entries().insert(
                    k0,
                    spec_expire_at(now),
                ));
            }
            Err(ReplyError::RepeatedRequest)
        },
    }
}

} // verus!
