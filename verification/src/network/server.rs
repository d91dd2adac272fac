//! The control server's per-connection decisions: classifying read
//! errors, parsing registration tokens, the handshake that publishes a
//! session in the registry, dispatching client-to-server messages, and
//! the registry cleanup owed on any loop exit.

use crate::component::online::ClientManager;
use crate::device_id::{spec_id_index, valid_device_id};
use crate::network::message::MessageError;
use crate::service::device::heart_beat;
use crate::service::message::reply::HeartBeatReply;
use crate::service::message::request::HeartBeatRequest;
use crate::session::session::{spec_session_eq, Session};
use vstd::prelude::*;

verus! {

/// The kind of a failed frame read.
#[derive(Debug, PartialEq, Eq, Clone, Copy)]
pub enum ReadErrorKind {
    UnexpectedEof,
    ConnectionReset,
    Other,
}

/// What the receive loop does after a failed read.
#[derive(Debug, PartialEq, Eq, Clone, Copy)]
pub enum LoopAction {
    /// Shut the session down gracefully.
    Exit,
    /// Drop the frame and keep the session alive.
    Continue,
}

/// A failed read ends the session exactly when the peer is gone: end
/// of file or a connection reset.  Any other read error drops the
/// frame and keeps the session alive.
pub fn read_error_action(kind: ReadErrorKind) -> (r: LoopAction)
    ensures
        r == LoopAction::Exit <==> (kind == ReadErrorKind::UnexpectedEof || kind
            == ReadErrorKind::ConnectionReset),
{
    match kind {
        ReadErrorKind::UnexpectedEof => LoopAction::Exit,
        ReadErrorKind::ConnectionReset => LoopAction::Exit,
        ReadErrorKind::Other => LoopAction::Continue,
    }
}

/// Dots in `s` from position `i` on.
pub open spec fn spec_count_dots_from(s: Seq<char>, i: int) -> int
    decreases s.len() - i,
{
    if i < 0 || i >= s.len() {
        0
    } else {
        (if s[i] == '.' {
            1int
        } else {
            0int
        }) + spec_count_dots_from(s, i + 1)
    }
}

/// Position of the first dot at or after `i`, or the length when
/// there is none.
pub open spec fn spec_first_dot_from(s: Seq<char>, i: int) -> int
    decreases s.len() - i,
{
    if i < 0 || i >= s.len() {
        s.len() as int
    } else if s[i] == '.' {
        i
    } else {
        spec_first_dot_from(s, i + 1)
    }
}

/// The device ID at the front of a registration token.  A token is
/// three dot-separated parts; the first must be a well-formed device
/// ID.  Anything else is rejected.
pub fn parse_register_token(token: &str) -> (r: Option<String>)
    ensures
        match r {
            Some(id) => spec_count_dots_from(token@, 0) == 2 && id@ == token@.subrange(
                0,
                spec_first_dot_from(token@, 0),
            ) && valid_device_id(id@),
            None => !(spec_count_dots_from(token@, 0) == 2 && valid_device_id(
                token@.subrange(0, spec_first_dot_from(token@, 0)),
            )),
        },
{
    let len = token.unicode_len();
    let mut dots: usize = 0;
    let mut first: usize = len;
    let mut i: usize = 0;
    while i < len
        invariant
            0 <= i <= len == token@.len(),
            dots <= i,
            spec_count_dots_from(token@, 0) == dots + spec_count_dots_from(token@, i as int),
            dots > 0 <==> first < i,
            first < i ==> spec_first_dot_from(token@, 0) == first,
            first >= i ==> first == len && spec_first_dot_from(token@, 0) == spec_first_dot_from(
                token@,
                i as int,
            ),
        decreases len - i,
    {
        let c = token.get_char(i);
        if c == '.' {
            dots = dots + 1;
            if first == len {
                first = i;
            }
        }
        i += 1;
    }
    if dots != 2 {
        return None;
    }
    let id_str = token.substring_char(0, first);
    if crate::device_id::is_valid_device_id(id_str) {
        Some(id_str.to_owned())
    } else {
        None
    }
}

/// A handshake's outcome.
#[derive(Debug, PartialEq, Eq, Clone, Copy)]
pub enum HandshakeStatus {
    /// The session is now registered under the token's device ID.
    Accepted,
    /// Another session is already registered under that device ID.
    Repeated,
}

/// A client's handshake: its registration token.
#[derive(Debug, PartialEq, Eq, Clone)]
pub struct HandshakeRequest {
    pub token: String,
}

/// The server's answer to a handshake.
#[derive(Debug, PartialEq, Eq, Clone)]
pub struct HandshakeReply {
    pub status: HandshakeStatus,
}

/// A message a client addresses to the server itself.
#[derive(Debug, PartialEq, Eq, Clone)]
pub enum ClientToServerMessage {
    HeartBeatRequest(HeartBeatRequest),
    HandshakeRequest(HandshakeRequest),
}

/// The server's answer to a client-to-server message.
#[derive(Debug, PartialEq, Eq, Clone)]
pub enum ServerToClientMessage {
    Error,
    HeartBeatReply(HeartBeatReply),
    HandshakeReply(HandshakeReply),
}

/// Registers a session from its handshake token: assigns the token's
/// device ID to the session and publishes it in the registry, unless
/// another session already holds that ID.  A malformed token is
/// `InvalidArguments`; a session that already holds an ID is
/// `RepeatedRequest`.
pub fn handshake<V>(
    session: &mut Session,
    client_manager: &mut ClientManager<V>,
    handle: V,
    req: &HandshakeRequest,
) -> (r: Result<HandshakeReply, MessageError>)
    ensures
        ({
            let id = req.token@.subrange(0, spec_first_dot_from(req.token@, 0));
            match r {
                Ok(rep) => spec_count_dots_from(req.token@, 0) == 2 && valid_device_id(id) && old(session).spec_device_id() is None && final(session).spec_device_id() == Some(id) && match rep.status {
                    HandshakeStatus::Accepted => !old(client_manager).spec_contains(id) && final(client_manager).spec_clients() == old(client_manager).spec_clients().insert(
                        spec_id_index(id) as u64,
                        handle,
                    ),
                    HandshakeStatus::Repeated => old(client_manager).spec_contains(id) && final(client_manager).spec_clients() == old(client_manager).spec_clients(),
                },
                Err(MessageError::InvalidArguments) => !(spec_count_dots_from(req.token@, 0) == 2
                    && valid_device_id(id)) && spec_session_eq(*final(session), *old(session))
                    && final(client_manager).spec_clients() == old(client_manager).spec_clients(),
                Err(MessageError::RepeatedRequest) => spec_count_dots_from(req.token@, 0) == 2
                    && valid_device_id(id) && old(session).spec_device_id() is Some
                    && spec_session_eq(*final(session), *old(session)) && final(client_manager).spec_clients() == old(client_manager).spec_clients(),
                Err(_) => false,
            }
        }),
{
    let device_id = match parse_register_token(req.token.as_str()) {
        Some(id) => id,
        None => {
            return Err(MessageError::InvalidArguments);
        },
    };
    let id_copy = device_id.clone();
    match session.set_device_id(device_id) {
        Ok(()) => {},
        Err(_) => {
            return Err(MessageError::RepeatedRequest);
        },
    }
    if client_manager.contains(id_copy.as_str()) {
        return Ok(HandshakeReply { status: HandshakeStatus::Repeated });
    }
    client_manager.add(id_copy.as_str(), handle);
    Ok(HandshakeReply { status: HandshakeStatus::Accepted })
}

/// Dispatches one client-to-server message and produces the reply the
/// server sends back under the same call ID: a heartbeat is answered
/// with the server clock; a handshake registers the session, a failed
/// one is answered with `Error`.
pub fn handle_client_to_server_message<V>(
    session: &mut Session,
    client_manager: &mut ClientManager<V>,
    handle: V,
    call_id: u16,
    message: &ClientToServerMessage,
    now: u32,
) -> (r: ServerToClientMessage)
    ensures
        match message {
            ClientToServerMessage::HeartBeatRequest(q) => r == ServerToClientMessage::HeartBeatReply(
                HeartBeatReply { time_stamp: now },
            ) && spec_session_eq(*final(session), *old(session)) && final(client_manager).spec_clients() == old(client_manager).spec_clients(),
            ClientToServerMessage::HandshakeRequest(q) => ({
                let id = q.token@.subrange(0, spec_first_dot_from(q.token@, 0));
                match r {
                    ServerToClientMessage::HandshakeReply(rep) => spec_count_dots_from(q.token@, 0)
                        == 2 && valid_device_id(id) && old(session).spec_device_id() is None
                        && final(session).spec_device_id() == Some(id) && match rep.status {
                        HandshakeStatus::Accepted => !old(client_manager).spec_contains(id)
                            && final(client_manager).spec_clients() == old(client_manager).spec_clients().insert(spec_id_index(id) as u64, handle),
                        HandshakeStatus::Repeated => old(client_manager).spec_contains(id)
                            && final(client_manager).spec_clients() == old(client_manager).spec_clients(),
                    },
                    ServerToClientMessage::Error => (!(spec_count_dots_from(q.token@, 0) == 2
                        && valid_device_id(id)) || old(session).spec_device_id() is Some) && final(client_manager).spec_clients() == old(client_manager).spec_clients() && spec_session_eq(
                        *final(session),
                        *old(session),
                    ),
                    _ => false,
                }
            }),
        },
{
    match message {
        ClientToServerMessage::HeartBeatRequest(q) => {
            let reply = heart_beat(q, now);
            ServerToClientMessage::HeartBeatReply(reply)
        },
        ClientToServerMessage::HandshakeRequest(q) => {
            match handshake(session, client_manager, handle, q) {
                Ok(rep) => ServerToClientMessage::HandshakeReply(rep),
                Err(_) => ServerToClientMessage::Error,
            }
        },
    }
}

/// The registry cleanup owed on any loop exit: when the session holds
/// a device ID, whatever is registered under it is removed and handed
/// back.  Safe to run more than once.
pub fn on_session_exit<V>(client_manager: &mut ClientManager<V>, session: &Session) -> (r: Option<
    V,
>)
    ensures
        match session.spec_device_id() {
            Some(id) => if valid_device_id(id) {
                final(client_manager).spec_clients() == old(client_manager).spec_clients().remove(
                    spec_id_index(id) as u64,
                ) && match r {
                    Some(v) => old(client_manager).spec_contains(id) && v == old(
                        client_manager,
                    ).spec_clients().index(spec_id_index(id) as u64),
                    None => !old(client_manager).spec_contains(id),
                }
            } else {
                final(client_manager).spec_clients() == old(client_manager).spec_clients()
                    && r is None
            },
            None => final(client_manager).spec_clients() == old(client_manager).spec_clients()
                && r is None,
        },
{
    match session.device_id() {
        Some(id) => {
            let id_copy = id.clone();
            client_manager.remove(id_copy.as_str())
        },
        None => None,
    }
}

} // verus!
