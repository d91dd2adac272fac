//! Packets.  On the wire, a control connection carries a
//! [`ControlPacket`]: a request with a correlation ID, a reply with
//! the same ID, or an opaque client-to-client blob with routing
//! metadata.  The session layer's typed envelope ([`Packet`]) pairs a
//! request or reply with its call ID.

use crate::network::message::{
    read_error, read_message, spec_error_bytes, spec_error_tag, spec_message_bytes,
    spec_message_view_bounded,
    spec_parse_error, spec_parse_message, write_error, write_message, Message, MessageError,
    MessageView,
};
use crate::serializer::{
    read_bool, read_bytes_field, read_string, read_u8, spec_bool_bytes, spec_bytes_field,
    spec_parse_bool, spec_parse_bytes, spec_parse_string, spec_parse_u8, spec_string_bytes,
    spec_u8_bytes, write_bool, write_bytes_field, write_string, write_u8,
};
use crate::service::message::reply::ReplyMessage;
use crate::service::message::request::RequestMessage;
use vstd::prelude::*;

verus! {

/// A typed request with its correlation ID.
#[derive(Debug, PartialEq, Eq, Clone)]
pub struct RequestPacket {
    pub call_id: u8,
    pub request_message: RequestMessage,
}

/// A typed reply with the correlation ID of the request it answers.
#[derive(Debug, PartialEq, Eq, Clone)]
pub struct ReplyPacket {
    pub call_id: u8,
    pub reply_message: ReplyMessage,
}

/// The session layer's envelope: a request, a reply, or neither.
#[derive(Debug, PartialEq, Eq, Clone)]
pub struct Packet {
    pub request_packet: Option<RequestPacket>,
    pub reply_packet: Option<ReplyPacket>,
}

/// What a control connection carries on the wire.  `call_id` 0 on a
/// request means no reply is expected.
#[derive(Debug, PartialEq, Eq)]
pub enum ControlPacket {
    /// A request addressed to the server.
    Request(u8, Message),
    /// The answer to the in-flight request with the same call ID.
    Reply(u8, Result<Message, MessageError>),
    /// An opaque blob to forward verbatim to another device's session.
    ClientToClient {
        call_id: u8,
        from_device_id: String,
        to_device_id: String,
        is_secure: bool,
        payload: Vec<u8>,
    },
}

/// The mathematical shape of a [`ControlPacket`].
pub enum ControlPacketView {
    Request(u8, MessageView),
    Reply(u8, Result<MessageView, MessageError>),
    ClientToClient(u8, Seq<char>, Seq<char>, bool, Seq<u8>),
}

impl View for ControlPacket {
    type V = ControlPacketView;

    open spec fn view(&self) -> ControlPacketView {
        match self {
            ControlPacket::Request(c, m) => ControlPacketView::Request(*c, m@),
            ControlPacket::Reply(c, r) => ControlPacketView::Reply(
                *c,
                match r {
                    Ok(m) => Ok(m@),
                    Err(e) => Err(*e),
                },
            ),
            ControlPacket::ClientToClient { call_id, from_device_id, to_device_id, is_secure, payload } => ControlPacketView::ClientToClient(
                *call_id,
                from_device_id@,
                to_device_id@,
                *is_secure,
                payload@,
            ),
        }
    }
}

/// Encoding of a control packet.
pub open spec fn spec_packet_bytes(p: ControlPacketView) -> Seq<u8> {
    match p {
        ControlPacketView::Request(c, m) => seq![0u8] + spec_u8_bytes(c) + spec_message_bytes(m),
        ControlPacketView::Reply(c, r) => seq![1u8] + spec_u8_bytes(c) + (match r {
            Ok(m) => seq![0u8] + spec_message_bytes(m),
            Err(e) => seq![1u8] + spec_error_bytes(e),
        }),
        ControlPacketView::ClientToClient(c, from, to, sec, payload) => seq![2u8] + spec_u8_bytes(c)
            + spec_string_bytes(from) + spec_string_bytes(to) + spec_bool_bytes(sec)
            + spec_bytes_field(payload),
    }
}

/// Parses a control packet at `pos`.
pub open spec fn spec_parse_packet(s: Seq<u8>, pos: int) -> Option<(ControlPacketView, int)> {
    if !(0 <= pos < s.len()) {
        None
    } else {
        let t = s[pos];
        let p = pos + 1;
        if t == 0 {
            match spec_parse_u8(s, p) {
                Some((c, p2)) => match spec_parse_message(s, p2) {
                    Some((m, end)) => Some((ControlPacketView::Request(c, m), end)),
                    None => None,
                },
                None => None,
            }
        } else if t == 1 {
            match spec_parse_u8(s, p) {
                Some((c, p2)) => if p2 < s.len() {
                    if s[p2] == 0 {
                        match spec_parse_message(s, p2 + 1) {
                            Some((m, end)) => Some((ControlPacketView::Reply(c, Ok(m)), end)),
                            None => None,
                        }
                    } else if s[p2] == 1 {
                        match spec_parse_error(s, p2 + 1) {
                            Some((e, end)) => Some((ControlPacketView::Reply(c, Err(e)), end)),
                            None => None,
                        }
                    } else {
                        None
                    }
                } else {
                    None
                },
                None => None,
            }
        } else if t == 2 {
            match spec_parse_u8(s, p) {
                Some((c, p2)) => match spec_parse_string(s, p2) {
                    Some((from, p3)) => match spec_parse_string(s, p3) {
                        Some((to, p4)) => match spec_parse_bool(s, p4) {
                            Some((sec, p5)) => match spec_parse_bytes(s, p5) {
                                Some((payload, end)) => Some(
                                    (
                                        ControlPacketView::ClientToClient(
                                            c,
                                            from,
                                            to,
                                            sec,
                                            payload,
                                        ),
                                        end,
                                    ),
                                ),
                                None => None,
                            },
                            None => None,
                        },
                        None => None,
                    },
                    None => None,
                },
                None => None,
            }
        } else {
            None
        }
    }
}

/// Encodes a control packet as one frame payload.
pub fn encode_packet(p: &ControlPacket) -> (r: Vec<u8>)
    ensures
        r@ == spec_packet_bytes(p@),
{
    let mut out: Vec<u8> = Vec::new();
    match p {
        ControlPacket::Request(c, m) => {
            write_u8(&mut out, 0);
            write_u8(&mut out, *c);
            write_message(&mut out, m);
        },
        ControlPacket::Reply(c, r) => {
            write_u8(&mut out, 1);
            write_u8(&mut out, *c);
            match r {
                Ok(m) => {
                    write_u8(&mut out, 0);
                    write_message(&mut out, m);
                },
                Err(e) => {
                    write_u8(&mut out, 1);
                    write_error(&mut out, e);
                },
            }
        },
        ControlPacket::ClientToClient { call_id, from_device_id, to_device_id, is_secure, payload } => {
            write_u8(&mut out, 2);
            write_u8(&mut out, *call_id);
            write_string(&mut out, from_device_id.as_str());
            write_string(&mut out, to_device_id.as_str());
            write_bool(&mut out, *is_secure);
            write_bytes_field(&mut out, payload);
        },
    }
    proof {
        assert(out@ =~= spec_packet_bytes(p@));
    }
    out
}

/// Decodes one frame payload into a control packet.  The whole payload
/// must be consumed: trailing bytes are an error.
pub fn decode_packet(buf: &Vec<u8>) -> (r: Option<ControlPacket>)
    ensures
        match r {
            Some(p) => spec_parse_packet(buf@, 0) == Some((p@, buf@.len() as int)),
            None => match spec_parse_packet(buf@, 0) {
                Some((_, end)) => end != buf@.len(),
                None => true,
            },
        },
{
    if buf.len() == 0 {
        return None;
    }
    let t = buf[0];
    let result: Option<(ControlPacket, usize)> = if t == 0 {
        match read_u8(buf, 1) {
            Some((c, p2)) => match read_message(buf, p2) {
                Some((m, end)) => Some((ControlPacket::Request(c, m), end)),
                None => None,
            },
            None => None,
        }
    } else if t == 1 {
        match read_u8(buf, 1) {
            Some((c, p2)) => {
                if p2 < buf.len() {
                    let k = buf[p2];
                    if k == 0 {
                        match read_message(buf, p2 + 1) {
                            Some((m, end)) => Some((ControlPacket::Reply(c, Ok(m)), end)),
                            None => None,
                        }
                    } else if k == 1 {
                        match read_error(buf, p2 + 1) {
                            Some((e, end)) => Some((ControlPacket::Reply(c, Err(e)), end)),
                            None => None,
                        }
                    } else {
                        None
                    }
                } else {
                    None
                }
            },
            None => None,
        }
    } else if t == 2 {
        match read_u8(buf, 1) {
            Some((c, p2)) => {
                let (from, p3) = match read_string(buf, p2) {
                    Some(r) => r,
                    None => {
                        return None;
                    },
                };
                let (to, p4) = match read_string(buf, p3) {
                    Some(r) => r,
                    None => {
                        return None;
                    },
                };
                let (sec, p5) = match read_bool(buf, p4) {
                    Some(r) => r,
                    None => {
                        return None;
                    },
                };
                match read_bytes_field(buf, p5) {
                    Some((payload, end)) => Some(
                        (
                            ControlPacket::ClientToClient {
                                call_id: c,
                                from_device_id: from,
                                to_device_id: to,
                                is_secure: sec,
                                payload,
                            },
                            end,
                        ),
                    ),
                    None => None,
                }
            },
            None => None,
        }
    } else {
        None
    };
    match result {
        Some((p, end)) => {
            if end == buf.len() {
                Some(p)
            } else {
                None
            }
        },
        None => None,
    }
}

/// Whether a control packet's fields fit the wire format's length
/// fields: a machine limit every packet held in memory meets.
pub open spec fn spec_packet_view_bounded(p: ControlPacketView) -> bool {
    match p {
        ControlPacketView::Request(_, m) => spec_message_view_bounded(m),
        ControlPacketView::Reply(_, r) => match r {
            Ok(m) => spec_message_view_bounded(m),
            Err(_) => true,
        },
        ControlPacketView::ClientToClient(_, from, to, _, payload) => vstd::utf8::encode_utf8(
            from,
        ).len() <= u64::MAX && vstd::utf8::encode_utf8(to).len() <= u64::MAX && payload.len()
            <= u64::MAX,
    }
}

/// Serialize then deserialize of any packet — and so of any message
/// variant it carries — yields an equal value and consumes the whole
/// encoding.
pub proof fn lemma_packet_wire_roundtrip(p: ControlPacketView)
    requires
        spec_packet_view_bounded(p),
    ensures
        spec_parse_packet(spec_packet_bytes(p), 0) == Some(
            (p, spec_packet_bytes(p).len() as int),
        ),
{
    let s = spec_packet_bytes(p);
    match p {
        ControlPacketView::Request(c, m) => {
            let mb = spec_message_bytes(m);
            assert(s.subrange(2, 2 + mb.len() as int) =~= mb);
            crate::network::message::lemma_parse_message_roundtrip(s, 2, m);
        },
        ControlPacketView::Reply(c, r) => {
            match r {
                Ok(m) => {
                    let mb = spec_message_bytes(m);
                    assert(s.subrange(3, 3 + mb.len() as int) =~= mb);
                    crate::network::message::lemma_parse_message_roundtrip(s, 3, m);
                },
                Err(e) => {
                    assert(s.subrange(3, 4) =~= spec_error_bytes(e));
                    assert(s[3] == spec_error_tag(e)) by {
                        assert(s.subrange(3, 4)[0] == s[3]);
                    }
                },
            }
        },
        ControlPacketView::ClientToClient(c, from, to, sec, payload) => {
            let b1 = spec_string_bytes(from);
            let b2 = spec_string_bytes(to);
            let b3 = spec_bool_bytes(sec);
            let b4 = spec_bytes_field(payload);
            assert(s.subrange(2, 2 + b1.len() as int) =~= b1);
            crate::serializer::lemma_parse_string_roundtrip(s, 2, from);
            assert(s.subrange(2 + b1.len() as int, 2 + b1.len() as int + b2.len() as int)
                =~= b2);
            crate::serializer::lemma_parse_string_roundtrip(s, 2 + b1.len() as int, to);
            let p4 = 2 + b1.len() as int + b2.len() as int;
            assert(s.subrange(p4, p4 + 1) =~= b3);
            let p5 = p4 + 1;
            assert(s.subrange(p5, p5 + b4.len() as int) =~= b4);
            crate::serializer::lemma_parse_bytes_roundtrip(s, p5, payload);
        },
    }
}

} // verus!
