//! Per-connection session state: the at-most-once device ID, the
//! monotonic call-ID counter that skips 0, the pending-call table, the
//! bounded outbound frame queue, and the idempotent shutdown flag.
//! The send and receive loops around a socket drive this state machine
//! and perform the I/O it decides on.

use crate::network::message::{Message, MessageError};
use crate::network::packet::{
    decode_packet, encode_packet, spec_packet_bytes, spec_parse_packet, ControlPacket,
    ControlPacketView,
};
use crate::service::message::reply_error::ReplyError;
use std::collections::HashSet;
use vstd::prelude::*;

verus! {

broadcast use vstd::std_specs::hash::group_hash_axioms;

/// Depth of the outbound frame queue.
pub const OUTBOUND_QUEUE_DEPTH: usize = 32;

/// Why a frame could not be queued for sending.
#[derive(Debug, PartialEq, Eq, Clone, Copy)]
pub enum SendError {
    /// The session has shut down: all future sends fail.
    Closed,
    /// The outbound queue is at its bounded depth.
    QueueFull,
}

/// What the receive loop should do with one inbound frame.
#[derive(Debug, PartialEq, Eq)]
pub enum RouteAction {
    /// A reply matched a pending call: hand the outcome to its waiter.
    DeliverReply { call_id: u8, outcome: Result<Message, MessageError> },
    /// A reply with no pending call: drop it silently.
    DropLateReply { call_id: u8 },
    /// A request: run the dispatcher on it.
    Dispatch { call_id: u8, message: Message },
    /// A client-to-client blob: forward it to the target session.
    Forward {
        call_id: u8,
        from_device_id: String,
        to_device_id: String,
        is_secure: bool,
        payload: Vec<u8>,
    },
    /// The frame did not decode: drop it and keep the session alive.
    DropFrame,
}

/// Per-connection session state.
pub struct Session {
    device_id: Option<String>,
    call_id_counter: u8,
    pending_calls: HashSet<u8>,
    outbound: Vec<Vec<u8>>,
    shutdown: bool,
}

impl Session {
    /// The session's device ID, once assigned.
    pub closed spec fn spec_device_id(&self) -> Option<Seq<char>> {
        match self.device_id {
            Some(ref s) => Some(s@),
            None => None,
        }
    }

    /// The call IDs with a pending reply slot.
    pub closed spec fn spec_pending(&self) -> Set<u8> {
        self.pending_calls@
    }

    /// The queued outbound frame payloads, in send order.
    pub closed spec fn spec_queue(&self) -> Seq<Seq<u8>> {
        Seq::new(self.outbound@.len(), |i: int| self.outbound@[i]@)
    }

    /// Whether the session has shut down.
    pub closed spec fn spec_closed(&self) -> bool {
        self.shutdown
    }

    /// The last issued call ID.
    pub closed spec fn spec_counter(&self) -> u8 {
        self.call_id_counter
    }

    /// A fresh, anonymous, open session with nothing queued.
    pub fn new() -> (r: Session)
        ensures
            r.spec_device_id() is None,
            r.spec_pending() == Set::<u8>::empty(),
            r.spec_queue() == Seq::<Seq<u8>>::empty(),
            !r.spec_closed(),
            r.spec_counter() == 0,
    {
        let r = Session {
            device_id: None,
            call_id_counter: 0,
            pending_calls: HashSet::new(),
            outbound: Vec::new(),
            shutdown: false,
        };
        proof {
            assert(r.spec_queue() =~= Seq::<Seq<u8>>::empty());
        }
        r
    }

    /// The session's device ID.
    pub fn device_id(&self) -> (r: Option<&String>)
        ensures
            match r {
                Some(s) => self.spec_device_id() == Some(s@),
                None => self.spec_device_id() is None,
            },
    {
        self.device_id.as_ref()
    }

    /// Assigns the device ID, at most once: a second assignment fails
    /// with `RepeatedRequest` and changes nothing.
    pub fn set_device_id(&mut self, device_id: String) -> (r: Result<(), ReplyError>)
        ensures
            match r {
                Ok(()) => old(self).spec_device_id() is None && final(self).spec_device_id()
                    == Some(device_id@),
                Err(e) => e == ReplyError::RepeatedRequest && old(self).spec_device_id() is Some
                    && final(self).spec_device_id() == old(self).spec_device_id(),
            },
            final(self).spec_pending() == old(self).spec_pending(),
            final(self).spec_queue() == old(self).spec_queue(),
            final(self).spec_closed() == old(self).spec_closed(),
            final(self).spec_counter() == old(self).spec_counter(),
    {
        if self.device_id.is_some() {
            return Err(ReplyError::RepeatedRequest);
        }
        self.device_id = Some(device_id);
        Ok(())
    }

    /// The next call ID: monotonically incremented modulo 256,
    /// skipping 0, so a correlated call never uses call ID 0.
    pub fn next_call_id(&mut self) -> (r: u8)
        ensures
            r != 0,
            final(self).spec_counter() == r,
            r == if old(self).spec_counter() == 255 {
                1u8
            } else {
                (old(self).spec_counter() + 1) as u8
            },
            final(self).spec_device_id() == old(self).spec_device_id(),
            final(self).spec_pending() == old(self).spec_pending(),
            final(self).spec_queue() == old(self).spec_queue(),
            final(self).spec_closed() == old(self).spec_closed(),
    {
        let next: u8 = if self.call_id_counter == 255 {
            1
        } else {
            self.call_id_counter + 1
        };
        self.call_id_counter = next;
        next
    }

    /// Queues one frame payload for the send loop.  Fails without
    /// queueing when the session is shut down or the queue is at its
    /// bounded depth.
    pub fn enqueue(&mut self, frame: Vec<u8>) -> (r: Result<(), SendError>)
        ensures
            match r {
                Ok(()) => !old(self).spec_closed() && old(self).spec_queue().len()
                    < OUTBOUND_QUEUE_DEPTH && final(self).spec_queue() == old(
                    self,
                ).spec_queue().push(frame@),
                Err(SendError::Closed) => old(self).spec_closed() && final(self).spec_queue()
                    == old(self).spec_queue(),
                Err(SendError::QueueFull) => !old(self).spec_closed() && old(
                    self,
                ).spec_queue().len() >= OUTBOUND_QUEUE_DEPTH && final(self).spec_queue() == old(
                    self,
                ).spec_queue(),
            },
            final(self).spec_device_id() == old(self).spec_device_id(),
            final(self).spec_pending() == old(self).spec_pending(),
            final(self).spec_closed() == old(self).spec_closed(),
            final(self).spec_counter() == old(self).spec_counter(),
    {
        if self.shutdown {
            return Err(SendError::Closed);
        }
        if self.outbound.len() >= OUTBOUND_QUEUE_DEPTH {
            return Err(SendError::QueueFull);
        }
        self.outbound.push(frame);
        proof {
            assert(self.spec_queue() =~= old(self).spec_queue().push(frame@));
        }
        Ok(())
    }

    /// Hands the send loop the next frame payload, in the order
    /// enqueued.
    pub fn take_outbound(&mut self) -> (r: Option<Vec<u8>>)
        ensures
            match r {
                Some(f) => old(self).spec_queue().len() > 0 && f@ == old(self).spec_queue()[0]
                    && final(self).spec_queue() == old(self).spec_queue().drop_first(),
                None => old(self).spec_queue().len() == 0 && final(self).spec_queue() == old(
                    self,
                ).spec_queue(),
            },
            final(self).spec_device_id() == old(self).spec_device_id(),
            final(self).spec_pending() == old(self).spec_pending(),
            final(self).spec_closed() == old(self).spec_closed(),
            final(self).spec_counter() == old(self).spec_counter(),
    {
        if self.outbound.len() == 0 {
            return None;
        }
        let f = self.outbound.remove(0);
        proof {
            assert(self.spec_queue() =~= old(self).spec_queue().drop_first());
        }
        Some(f)
    }

    /// Opens a pending-call slot under a fresh, non-zero call ID.
    pub fn open_call(&mut self) -> (r: u8)
        ensures
            r != 0,
            final(self).spec_pending() == old(self).spec_pending().insert(r),
            final(self).spec_counter() == r,
            final(self).spec_device_id() == old(self).spec_device_id(),
            final(self).spec_queue() == old(self).spec_queue(),
            final(self).spec_closed() == old(self).spec_closed(),
    {
        let id = self.next_call_id();
        self.pending_calls.insert(id);
        id
    }

    /// Resolves the pending-call slot for `reply_id`: the first of a
    /// matching reply, the timeout, or shutdown wins, and afterwards
    /// the slot is gone.  Returns whether the slot was present.
    pub fn reply(&mut self, reply_id: u8) -> (r: bool)
        ensures
            r == old(self).spec_pending().contains(reply_id),
            final(self).spec_pending() == old(self).spec_pending().remove(reply_id),
            final(self).spec_device_id() == old(self).spec_device_id(),
            final(self).spec_queue() == old(self).spec_queue(),
            final(self).spec_closed() == old(self).spec_closed(),
            final(self).spec_counter() == old(self).spec_counter(),
    {
        self.pending_calls.remove(&reply_id)
    }

    /// Starts a correlated call: queues a request frame under a fresh
    /// non-zero call ID and opens its pending slot.  When the frame
    /// cannot be queued, nothing changes and the caller sees why.
    pub fn call_begin(&mut self, msg: Message) -> (r: Result<u8, SendError>)
        ensures
            match r {
                Ok(id) => id != 0 && !old(self).spec_closed() && final(self).spec_pending() == old(
                    self,
                ).spec_pending().insert(id) && final(self).spec_queue() == old(
                    self,
                ).spec_queue().push(
                    spec_packet_bytes(ControlPacketView::Request(id, msg@)),
                ),
                Err(SendError::Closed) => old(self).spec_closed() && *final(self) == *old(self),
                Err(SendError::QueueFull) => !old(self).spec_closed() && old(
                    self,
                ).spec_queue().len() >= OUTBOUND_QUEUE_DEPTH && *final(self) == *old(self),
            },
    {
        if self.shutdown {
            return Err(SendError::Closed);
        }
        if self.outbound.len() >= OUTBOUND_QUEUE_DEPTH {
            return Err(SendError::QueueFull);
        }
        let id = self.open_call();
        let pkt = ControlPacket::Request(id, msg);
        let frame = encode_packet(&pkt);
        match self.enqueue(frame) {
            Ok(()) => Ok(id),
            Err(_) => {
                proof {
                    assert(false);
                }
                Err(SendError::QueueFull)
            },
        }
    }

    /// Queues a fire-and-forget message under call ID 0.
    pub fn send(&mut self, msg: Message) -> (r: Result<(), SendError>)
        ensures
            match r {
                Ok(()) => !old(self).spec_closed() && final(self).spec_queue() == old(
                    self,
                ).spec_queue().push(spec_packet_bytes(ControlPacketView::Request(0, msg@))),
                Err(SendError::Closed) => old(self).spec_closed() && final(self).spec_queue()
                    == old(self).spec_queue(),
                Err(SendError::QueueFull) => !old(self).spec_closed() && old(
                    self,
                ).spec_queue().len() >= OUTBOUND_QUEUE_DEPTH && final(self).spec_queue() == old(
                    self,
                ).spec_queue(),
            },
            final(self).spec_device_id() == old(self).spec_device_id(),
            final(self).spec_pending() == old(self).spec_pending(),
            final(self).spec_closed() == old(self).spec_closed(),
            final(self).spec_counter() == old(self).spec_counter(),
    {
        let pkt = ControlPacket::Request(0, msg);
        let frame = encode_packet(&pkt);
        self.enqueue(frame)
    }

    /// Queues the answer to a peer's in-flight request, under the
    /// peer's call ID.
    pub fn send_reply(&mut self, call_id: u8, outcome: Result<Message, MessageError>) -> (r:
        Result<(), SendError>)
        ensures
            match r {
                Ok(()) => !old(self).spec_closed() && final(self).spec_queue() == old(
                    self,
                ).spec_queue().push(
                    spec_packet_bytes(
                        ControlPacketView::Reply(
                            call_id,
                            match outcome {
                                Ok(m) => Ok(m@),
                                Err(e) => Err(e),
                            },
                        ),
                    ),
                ),
                Err(SendError::Closed) => old(self).spec_closed() && final(self).spec_queue()
                    == old(self).spec_queue(),
                Err(SendError::QueueFull) => !old(self).spec_closed() && old(
                    self,
                ).spec_queue().len() >= OUTBOUND_QUEUE_DEPTH && final(self).spec_queue() == old(
                    self,
                ).spec_queue(),
            },
            final(self).spec_device_id() == old(self).spec_device_id(),
            final(self).spec_pending() == old(self).spec_pending(),
            final(self).spec_closed() == old(self).spec_closed(),
            final(self).spec_counter() == old(self).spec_counter(),
    {
        let pkt = ControlPacket::Reply(call_id, outcome);
        let frame = encode_packet(&pkt);
        self.enqueue(frame)
    }

    /// Shuts the session down: idempotent and fatal.  Every pending
    /// call resolves (the waiters see `Internal`), the queue is
    /// dropped, and all future sends fail.
    pub fn shutdown(&mut self)
        ensures
            spec_shutdown_state(*old(self), *final(self)),
    {
        self.shutdown = true;
        self.pending_calls.clear();
        self.outbound.clear();
        proof {
            assert(self.spec_queue() =~= Seq::<Seq<u8>>::empty());
        }
    }

    /// Routes one inbound frame payload, as the source loop does: a
    /// reply resolves its pending call or is dropped late; a request
    /// is handed to the dispatcher; a client-to-client blob is handed
    /// on for forwarding; a frame that does not decode is dropped and
    /// the session stays alive.
    pub fn route_inbound(&mut self, payload: &Vec<u8>) -> (r: RouteAction)
        ensures
            final(self).spec_device_id() == old(self).spec_device_id(),
            final(self).spec_queue() == old(self).spec_queue(),
            final(self).spec_closed() == old(self).spec_closed(),
            final(self).spec_counter() == old(self).spec_counter(),
            match r {
                RouteAction::DeliverReply { call_id, outcome } => ({
                    &&& spec_parse_packet(payload@, 0) matches Some(
                        (ControlPacketView::Reply(c, o), end),
                    ) && c == call_id && end == payload@.len() && (match outcome {
                        Ok(m) => o == Ok::<_, MessageError>(m@),
                        Err(e) => o == Err::<crate::network::message::MessageView, _>(e),
                    })
                    &&& old(self).spec_pending().contains(call_id)
                    &&& final(self).spec_pending() == old(self).spec_pending().remove(call_id)
                }),
                RouteAction::DropLateReply { call_id } => ({
                    &&& spec_parse_packet(payload@, 0) matches Some(
                        (ControlPacketView::Reply(c, _), end),
                    ) && c == call_id && end == payload@.len()
                    &&& !old(self).spec_pending().contains(call_id)
                    &&& final(self).spec_pending() == old(self).spec_pending()
                }),
                RouteAction::Dispatch { call_id, message } => ({
                    &&& spec_parse_packet(payload@, 0) matches Some(
                        (ControlPacketView::Request(c, m), end),
                    ) && c == call_id && m == message@ && end == payload@.len()
                    &&& final(self).spec_pending() == old(self).spec_pending()
                }),
                RouteAction::Forward { call_id, from_device_id, to_device_id, is_secure, payload: blob } => ({
                    &&& spec_parse_packet(payload@, 0) matches Some(
                        (ControlPacketView::ClientToClient(c, f, t, sec, b), end),
                    ) && c == call_id && f == from_device_id@ && t == to_device_id@ && sec
                        == is_secure && b == blob@ && end == payload@.len()
                    &&& final(self).spec_pending() == old(self).spec_pending()
                }),
                RouteAction::DropFrame => ({
                    &&& (match spec_parse_packet(payload@, 0) {
                        Some((_, end)) => end != payload@.len(),
                        None => true,
                    })
                    &&& final(self).spec_pending() == old(self).spec_pending()
                }),
            },
    {
        match decode_packet(payload) {
            Some(ControlPacket::Request(call_id, message)) => RouteAction::Dispatch {
                call_id,
                message,
            },
            Some(ControlPacket::Reply(call_id, outcome)) => {
                if self.reply(call_id) {
                    RouteAction::DeliverReply { call_id, outcome }
                } else {
                    proof {
                        assert(self.spec_pending() =~= old(self).spec_pending());
                    }
                    RouteAction::DropLateReply { call_id }
                }
            },
            Some(
                ControlPacket::ClientToClient {
                    call_id,
                    from_device_id,
                    to_device_id,
                    is_secure,
                    payload: blob,
                },
            ) => RouteAction::Forward {
                call_id,
                from_device_id,
                to_device_id,
                is_secure,
                payload: blob,
            },
            None => RouteAction::DropFrame,
        }
    }
}

/// Whether two session states are observably equal: same device ID,
/// pending calls, queued frames, shutdown flag and call-ID counter.
pub open spec fn spec_session_eq(a: Session, b: Session) -> bool {
    &&& a.spec_device_id() == b.spec_device_id()
    &&& a.spec_pending() == b.spec_pending()
    &&& a.spec_queue() == b.spec_queue()
    &&& a.spec_closed() == b.spec_closed()
    &&& a.spec_counter() == b.spec_counter()
}

/// How a shutdown leaves a session, whatever it held before: closed,
/// no pending calls, nothing queued, the identity kept.
pub open spec fn spec_shutdown_state(pre: Session, post: Session) -> bool {
    &&& post.spec_closed()
    &&& post.spec_pending() == Set::<u8>::empty()
    &&& post.spec_queue() == Seq::<Seq<u8>>::empty()
    &&& post.spec_device_id() == pre.spec_device_id()
    &&& post.spec_counter() == pre.spec_counter()
}

/// Two consecutive shutdowns have the same observable effect as one:
/// the state after the second is observably the state after the first.
pub proof fn lemma_shutdown_idempotent(s0: Session, s1: Session, s2: Session)
    requires
        spec_shutdown_state(s0, s1),
        spec_shutdown_state(s1, s2),
    ensures
        s2.spec_closed() == s1.spec_closed(),
        s2.spec_pending() == s1.spec_pending(),
        s2.spec_queue() == s1.spec_queue(),
        s2.spec_device_id() == s1.spec_device_id(),
        s2.spec_counter() == s1.spec_counter(),
{
}

/// Whether a step resolves the pending call `call_id`: a matching
/// reply or the timeout removes its slot, and shutdown resolves every
/// pending call at once.
pub open spec fn spec_call_resolution(pre: Session, post: Session, call_id: u8) -> bool {
    post.spec_pending() == pre.spec_pending().remove(call_id) || spec_shutdown_state(pre, post)
}

/// Exactly one of a matching reply, the timeout, or shutdown
/// terminates a call: the first such step removes the pending slot,
/// and a second step of any of the three kinds finds no slot, so no
/// call ever sees two outcomes.
pub proof fn lemma_call_resolved_once(s0: Session, s1: Session, s2: Session, call_id: u8)
    requires
        s0.spec_pending().contains(call_id),
        spec_call_resolution(s0, s1, call_id),
        spec_call_resolution(s1, s2, call_id),
    ensures
        !s1.spec_pending().contains(call_id),
        !s2.spec_pending().contains(call_id),
{
}

} // verus!
