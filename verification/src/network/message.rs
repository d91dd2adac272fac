//! The closed set of control-connection messages and its wire
//! encoding: one tag byte per variant, then the variant's fields in
//! order, using the primitives of [`crate::serializer`].

use crate::handler::device_goes_online::{DeviceGoesOnlineReq, DeviceGoesOnlineResp};
use crate::handler::heart_beat::{HeartBeatReq, HeartBeatResp};
use crate::serializer::{
    read_bool, read_bytes_field, read_opt_string, read_string, read_u32, spec_bool_bytes,
    spec_bytes_field, spec_opt_string_bytes, spec_parse_bool, spec_parse_bytes,
    spec_parse_opt_string, spec_parse_string, spec_parse_u32, spec_string_bytes, spec_u32_bytes,
    write_bool, write_bytes_field, write_opt_string, write_string, write_u32, write_u8,
};
use crate::service::desktop_connect_ask::{DesktopConnectAskReq, DesktopConnectAskResp};
use crate::service::desktop_connect_ask_auth::{
    DesktopConnectAskAuthReq, DesktopConnectAskAuthResp,
};
use crate::service::desktop_connect_offer::{DesktopConnectOfferReq, DesktopConnectOfferResp};
use crate::service::desktop_connect_offer_auth::{
    DesktopConnectOfferAuthReq, DesktopConnectOfferAuthResp,
};
use vstd::prelude::*;

verus! {

/// A control-connection message.  Request and reply variants pair by
/// name; `Error` carries a failure code in place of a reply.
#[derive(Debug, PartialEq, Eq, Clone)]
pub enum Message {
    NoMessage,
    Error(MessageError),
    DeviceGoesOnlineReq(DeviceGoesOnlineReq),
    DeviceGoesOnlineResp(DeviceGoesOnlineResp),
    HeartBeatReq(HeartBeatReq),
    HeartBeatResp(HeartBeatResp),
    DesktopConnectOfferReq(DesktopConnectOfferReq),
    DesktopConnectOfferResp(DesktopConnectOfferResp),
    DesktopConnectAskReq(DesktopConnectAskReq),
    DesktopConnectAskResp(DesktopConnectAskResp),
    DesktopConnectOfferAuthReq(DesktopConnectOfferAuthReq),
    DesktopConnectOfferAuthResp(DesktopConnectOfferAuthResp),
    DesktopConnectAskAuthReq(DesktopConnectAskAuthReq),
    DesktopConnectAskAuthResp(DesktopConnectAskAuthResp),
}

/// A failure code delivered in place of a reply.
#[derive(Debug, PartialEq, Eq, Clone, Copy)]
pub enum MessageError {
    InternalError,
    CallTimeout,
    InvalidArguments,
    MismatchedResponseMessage,
    RemoteClientOfflineOrNotExist,
    RepeatedRequest,
    DeviceNotFound,
}

/// The mathematical shape of a [`Message`]: the same variants over
/// character and byte sequences.
pub enum MessageView {
    NoMessage,
    Error(MessageError),
    DeviceGoesOnlineReq(Option<Seq<char>>),
    DeviceGoesOnlineResp(Seq<char>, u32),
    HeartBeatReq(u32),
    HeartBeatResp(u32),
    DesktopConnectOfferReq(Seq<char>, Seq<char>),
    DesktopConnectOfferResp(bool, Seq<u8>, Seq<u8>),
    DesktopConnectAskReq(Seq<char>),
    DesktopConnectAskResp(bool, Seq<u8>, Seq<u8>),
    DesktopConnectOfferAuthReq(Seq<char>, Seq<char>, Seq<u8>),
    DesktopConnectOfferAuthResp(bool),
    DesktopConnectAskAuthReq(Seq<char>, Seq<u8>),
    DesktopConnectAskAuthResp(bool),
}

impl View for Message {
    type V = MessageView;

    open spec fn view(&self) -> MessageView {
        match self {
            Message::NoMessage => MessageView::NoMessage,
            Message::Error(e) => MessageView::Error(*e),
            Message::DeviceGoesOnlineReq(m) => MessageView::DeviceGoesOnlineReq(
                match &m.device_id {
                    Some(s) => Some(s@),
                    None => None,
                },
            ),
            Message::DeviceGoesOnlineResp(m) => MessageView::DeviceGoesOnlineResp(
                m.device_id@,
                m.device_id_expire_time_stamp,
            ),
            Message::HeartBeatReq(m) => MessageView::HeartBeatReq(m.time_stamp),
            Message::HeartBeatResp(m) => MessageView::HeartBeatResp(m.time_stamp),
            Message::DesktopConnectOfferReq(m) => MessageView::DesktopConnectOfferReq(
                m.offer_device_id@,
                m.ask_device_id@,
            ),
            Message::DesktopConnectOfferResp(m) => MessageView::DesktopConnectOfferResp(
                m.agree,
                m.password_auth_public_key_n@,
                m.password_auth_public_key_e@,
            ),
            Message::DesktopConnectAskReq(m) => MessageView::DesktopConnectAskReq(
                m.offer_device_id@,
            ),
            Message::DesktopConnectAskResp(m) => MessageView::DesktopConnectAskResp(
                m.agree,
                m.password_auth_public_key_n@,
                m.password_auth_public_key_e@,
            ),
            Message::DesktopConnectOfferAuthReq(m) => MessageView::DesktopConnectOfferAuthReq(
                m.offer_device_id@,
                m.ask_device_id@,
                m.secret_message@,
            ),
            Message::DesktopConnectOfferAuthResp(m) => MessageView::DesktopConnectOfferAuthResp(
                m.password_correct,
            ),
            Message::DesktopConnectAskAuthReq(m) => MessageView::DesktopConnectAskAuthReq(
                m.offer_device_id@,
                m.secret_message@,
            ),
            Message::DesktopConnectAskAuthResp(m) => MessageView::DesktopConnectAskAuthResp(
                m.password_correct,
            ),
        }
    }
}

/// Wire tag of an error value.
pub open spec fn spec_error_tag(e: MessageError) -> u8 {
    match e {
        MessageError::InternalError => 0,
        MessageError::CallTimeout => 1,
        MessageError::InvalidArguments => 2,
        MessageError::MismatchedResponseMessage => 3,
        MessageError::RemoteClientOfflineOrNotExist => 4,
        MessageError::RepeatedRequest => 5,
        MessageError::DeviceNotFound => 6,
    }
}

/// Encoding of an error value: its tag byte.
pub open spec fn spec_error_bytes(e: MessageError) -> Seq<u8> {
    seq![spec_error_tag(e)]
}

/// Parses an error value; unknown tags are rejected.
pub open spec fn spec_parse_error(s: Seq<u8>, pos: int) -> Option<(MessageError, int)> {
    if !(0 <= pos < s.len()) {
        None
    } else {
        let t = s[pos];
        if t == 0 {
            Some((MessageError::InternalError, pos + 1))
        } else if t == 1 {
            Some((MessageError::CallTimeout, pos + 1))
        } else if t == 2 {
            Some((MessageError::InvalidArguments, pos + 1))
        } else if t == 3 {
            Some((MessageError::MismatchedResponseMessage, pos + 1))
        } else if t == 4 {
            Some((MessageError::RemoteClientOfflineOrNotExist, pos + 1))
        } else if t == 5 {
            Some((MessageError::RepeatedRequest, pos + 1))
        } else if t == 6 {
            Some((MessageError::DeviceNotFound, pos + 1))
        } else {
            None
        }
    }
}

/// Appends the encoding of an error value.
pub fn write_error(out: &mut Vec<u8>, e: &MessageError)
    ensures
        final(out)@ == old(out)@ + spec_error_bytes(*e),
{
    let t: u8 = match e {
        MessageError::InternalError => 0,
        MessageError::CallTimeout => 1,
        MessageError::InvalidArguments => 2,
        MessageError::MismatchedResponseMessage => 3,
        MessageError::RemoteClientOfflineOrNotExist => 4,
        MessageError::RepeatedRequest => 5,
        MessageError::DeviceNotFound => 6,
    };
    write_u8(out, t);
    proof {
        assert(out@ =~= old(out)@ + spec_error_bytes(*e));
    }
}

/// Reads an error value, exactly as [`spec_parse_error`].
pub fn read_error(buf: &Vec<u8>, pos: usize) -> (r: Option<(MessageError, usize)>)
    ensures
        match r {
            Some((e, end)) => spec_parse_error(buf@, pos as int) == Some((e, end as int)),
            None => spec_parse_error(buf@, pos as int) is None,
        },
{
    if pos >= buf.len() {
        return None;
    }
    let t = buf[pos];
    if t == 0 {
        Some((MessageError::InternalError, pos + 1))
    } else if t == 1 {
        Some((MessageError::CallTimeout, pos + 1))
    } else if t == 2 {
        Some((MessageError::InvalidArguments, pos + 1))
    } else if t == 3 {
        Some((MessageError::MismatchedResponseMessage, pos + 1))
    } else if t == 4 {
        Some((MessageError::RemoteClientOfflineOrNotExist, pos + 1))
    } else if t == 5 {
        Some((MessageError::RepeatedRequest, pos + 1))
    } else if t == 6 {
        Some((MessageError::DeviceNotFound, pos + 1))
    } else {
        None
    }
}

/// Encoding of a message: its tag byte, then its fields in order.
pub open spec fn spec_message_bytes(m: MessageView) -> Seq<u8> {
    match m {
        MessageView::NoMessage => seq![0u8],
        MessageView::Error(e) => seq![1u8] + spec_error_bytes(e),
        MessageView::DeviceGoesOnlineReq(os) => seq![2u8] + spec_opt_string_bytes(os),
        MessageView::DeviceGoesOnlineResp(id, exp) => seq![3u8] + spec_string_bytes(id)
            + spec_u32_bytes(exp),
        MessageView::HeartBeatReq(ts) => seq![4u8] + spec_u32_bytes(ts),
        MessageView::HeartBeatResp(ts) => seq![5u8] + spec_u32_bytes(ts),
        MessageView::DesktopConnectOfferReq(o, a) => seq![6u8] + spec_string_bytes(o)
            + spec_string_bytes(a),
        MessageView::DesktopConnectOfferResp(agree, n, e) => seq![7u8] + spec_bool_bytes(agree)
            + spec_bytes_field(n) + spec_bytes_field(e),
        MessageView::DesktopConnectAskReq(o) => seq![8u8] + spec_string_bytes(o),
        MessageView::DesktopConnectAskResp(agree, n, e) => seq![9u8] + spec_bool_bytes(agree)
            + spec_bytes_field(n) + spec_bytes_field(e),
        MessageView::DesktopConnectOfferAuthReq(o, a, sec) => seq![10u8] + spec_string_bytes(o)
            + spec_string_bytes(a) + spec_bytes_field(sec),
        MessageView::DesktopConnectOfferAuthResp(ok) => seq![11u8] + spec_bool_bytes(ok),
        MessageView::DesktopConnectAskAuthReq(o, sec) => seq![12u8] + spec_string_bytes(o)
            + spec_bytes_field(sec),
        MessageView::DesktopConnectAskAuthResp(ok) => seq![13u8] + spec_bool_bytes(ok),
    }
}

/// Parses a message at `pos`; unknown tags and malformed fields are
/// rejected.
pub open spec fn spec_parse_message(s: Seq<u8>, pos: int) -> Option<(MessageView, int)> {
    if !(0 <= pos < s.len()) {
        None
    } else {
        let t = s[pos];
        let p = pos + 1;
        if t == 0 {
            Some((MessageView::NoMessage, p))
        } else if t == 1 {
            match spec_parse_error(s, p) {
                Some((e, end)) => Some((MessageView::Error(e), end)),
                None => None,
            }
        } else if t == 2 {
            match spec_parse_opt_string(s, p) {
                Some((os, end)) => Some((MessageView::DeviceGoesOnlineReq(os), end)),
                None => None,
            }
        } else if t == 3 {
            match spec_parse_string(s, p) {
                Some((id, p2)) => match spec_parse_u32(s, p2) {
                    Some((exp, end)) => Some((MessageView::DeviceGoesOnlineResp(id, exp), end)),
                    None => None,
                },
                None => None,
            }
        } else if t == 4 {
            match spec_parse_u32(s, p) {
                Some((ts, end)) => Some((MessageView::HeartBeatReq(ts), end)),
                None => None,
            }
        } else if t == 5 {
            match spec_parse_u32(s, p) {
                Some((ts, end)) => Some((MessageView::HeartBeatResp(ts), end)),
                None => None,
            }
        } else if t == 6 {
            match spec_parse_string(s, p) {
                Some((o, p2)) => match spec_parse_string(s, p2) {
                    Some((a, end)) => Some((MessageView::DesktopConnectOfferReq(o, a), end)),
                    None => None,
                },
                None => None,
            }
        } else if t == 7 {
            match spec_parse_bool(s, p) {
                Some((agree, p2)) => match spec_parse_bytes(s, p2) {
                    Some((n, p3)) => match spec_parse_bytes(s, p3) {
                        Some((e, end)) => Some(
                            (MessageView::DesktopConnectOfferResp(agree, n, e), end),
                        ),
                        None => None,
                    },
                    None => None,
                },
                None => None,
            }
        } else if t == 8 {
            match spec_parse_string(s, p) {
                Some((o, end)) => Some((MessageView::DesktopConnectAskReq(o), end)),
                None => None,
            }
        } else if t == 9 {
            match spec_parse_bool(s, p) {
                Some((agree, p2)) => match spec_parse_bytes(s, p2) {
                    Some((n, p3)) => match spec_parse_bytes(s, p3) {
                        Some((e, end)) => Some(
                            (MessageView::DesktopConnectAskResp(agree, n, e), end),
                        ),
                        None => None,
                    },
                    None => None,
                },
                None => None,
            }
        } else if t == 10 {
            match spec_parse_string(s, p) {
                Some((o, p2)) => match spec_parse_string(s, p2) {
                    Some((a, p3)) => match spec_parse_bytes(s, p3) {
                        Some((sec, end)) => Some(
                            (MessageView::DesktopConnectOfferAuthReq(o, a, sec), end),
                        ),
                        None => None,
                    },
                    None => None,
                },
                None => None,
            }
        } else if t == 11 {
            match spec_parse_bool(s, p) {
                Some((ok, end)) => Some((MessageView::DesktopConnectOfferAuthResp(ok), end)),
                None => None,
            }
        } else if t == 12 {
            match spec_parse_string(s, p) {
                Some((o, p2)) => match spec_parse_bytes(s, p2) {
                    Some((sec, end)) => Some((MessageView::DesktopConnectAskAuthReq(o, sec), end)),
                    None => None,
                },
                None => None,
            }
        } else if t == 13 {
            match spec_parse_bool(s, p) {
                Some((ok, end)) => Some((MessageView::DesktopConnectAskAuthResp(ok), end)),
                None => None,
            }
        } else {
            None
        }
    }
}

/// Whether a message's fields fit the wire format's length fields:
/// a machine limit every message held in memory meets.
pub open spec fn spec_message_view_bounded(m: MessageView) -> bool {
    match m {
        MessageView::NoMessage => true,
        MessageView::Error(_) => true,
        MessageView::DeviceGoesOnlineReq(os) => match os {
            Some(cs) => vstd::utf8::encode_utf8(cs).len() <= u64::MAX,
            None => true,
        },
        MessageView::DeviceGoesOnlineResp(id, _) => vstd::utf8::encode_utf8(id).len() <= u64::MAX,
        MessageView::HeartBeatReq(_) => true,
        MessageView::HeartBeatResp(_) => true,
        MessageView::DesktopConnectOfferReq(o, a) => vstd::utf8::encode_utf8(o).len() <= u64::MAX
            && vstd::utf8::encode_utf8(a).len() <= u64::MAX,
        MessageView::DesktopConnectOfferResp(_, n, e) => n.len() <= u64::MAX && e.len()
            <= u64::MAX,
        MessageView::DesktopConnectAskReq(o) => vstd::utf8::encode_utf8(o).len() <= u64::MAX,
        MessageView::DesktopConnectAskResp(_, n, e) => n.len() <= u64::MAX && e.len() <= u64::MAX,
        MessageView::DesktopConnectOfferAuthReq(o, a, sec) => vstd::utf8::encode_utf8(o).len()
            <= u64::MAX && vstd::utf8::encode_utf8(a).len() <= u64::MAX && sec.len() <= u64::MAX,
        MessageView::DesktopConnectOfferAuthResp(_) => true,
        MessageView::DesktopConnectAskAuthReq(o, sec) => vstd::utf8::encode_utf8(o).len()
            <= u64::MAX && sec.len() <= u64::MAX,
        MessageView::DesktopConnectAskAuthResp(_) => true,
    }
}

/// Parsing an encoded message embedded at `pos` yields an equal
/// message and consumes the whole encoding.
#[verifier::rlimit(60)]
pub proof fn lemma_parse_message_roundtrip(s: Seq<u8>, pos: int, m: MessageView)
    requires
        spec_message_view_bounded(m),
        0 <= pos,
        pos + spec_message_bytes(m).len() <= s.len(),
        s.subrange(pos, pos + spec_message_bytes(m).len() as int) == spec_message_bytes(m),
    ensures
        spec_parse_message(s, pos) == Some((m, pos + spec_message_bytes(m).len() as int)),
{
    let w = spec_message_bytes(m);
    assert(s[pos] == w[0]) by {
        assert(s.subrange(pos, pos + w.len() as int)[0] == s[pos]);
    }
    match m {
        MessageView::NoMessage => {},
        MessageView::Error(e) => {
            let b = spec_error_bytes(e);
            assert(w.subrange(1, 1 + b.len() as int) =~= b);
            crate::serializer::lemma_sub_embed(s, pos, w, 1, b);
            assert(s.subrange(pos + 1, pos + 2)[0] == s[pos + 1]);
        },
        MessageView::DeviceGoesOnlineReq(os) => {
            let b = spec_opt_string_bytes(os);
            assert(w.subrange(1, 1 + b.len() as int) =~= b);
            crate::serializer::lemma_sub_embed(s, pos, w, 1, b);
            crate::serializer::lemma_parse_opt_string_roundtrip(s, pos + 1, os);
        },
        MessageView::DeviceGoesOnlineResp(id, exp) => {
            let b1 = spec_string_bytes(id);
            let b2 = spec_u32_bytes(exp);
            assert(w.subrange(1, 1 + b1.len() as int) =~= b1);
            crate::serializer::lemma_sub_embed(s, pos, w, 1, b1);
            crate::serializer::lemma_parse_string_roundtrip(s, pos + 1, id);
            assert(w.subrange(1 + b1.len() as int, 1 + b1.len() as int + b2.len() as int) =~= b2);
            crate::serializer::lemma_sub_embed(s, pos, w, 1 + b1.len() as int, b2);
            crate::serializer::lemma_parse_u32_roundtrip(s, pos + 1 + b1.len() as int, exp);
        },
        MessageView::HeartBeatReq(ts) => {
            let b = spec_u32_bytes(ts);
            assert(w.subrange(1, 1 + b.len() as int) =~= b);
            crate::serializer::lemma_sub_embed(s, pos, w, 1, b);
            crate::serializer::lemma_parse_u32_roundtrip(s, pos + 1, ts);
        },
        MessageView::HeartBeatResp(ts) => {
            let b = spec_u32_bytes(ts);
            assert(w.subrange(1, 1 + b.len() as int) =~= b);
            crate::serializer::lemma_sub_embed(s, pos, w, 1, b);
            crate::serializer::lemma_parse_u32_roundtrip(s, pos + 1, ts);
        },
        MessageView::DesktopConnectOfferReq(o, a) => {
            let b1 = spec_string_bytes(o);
            let b2 = spec_string_bytes(a);
            assert(w.subrange(1, 1 + b1.len() as int) =~= b1);
            crate::serializer::lemma_sub_embed(s, pos, w, 1, b1);
            crate::serializer::lemma_parse_string_roundtrip(s, pos + 1, o);
            assert(w.subrange(1 + b1.len() as int, 1 + b1.len() as int + b2.len() as int) =~= b2);
            crate::serializer::lemma_sub_embed(s, pos, w, 1 + b1.len() as int, b2);
            crate::serializer::lemma_parse_string_roundtrip(s, pos + 1 + b1.len() as int, a);
        },
        MessageView::DesktopConnectOfferResp(agree, n, e) => {
            lemma_roundtrip_bool_bytes_bytes(s, pos, w, agree, n, e);
        },
        MessageView::DesktopConnectAskReq(o) => {
            let b = spec_string_bytes(o);
            assert(w.subrange(1, 1 + b.len() as int) =~= b);
            crate::serializer::lemma_sub_embed(s, pos, w, 1, b);
            crate::serializer::lemma_parse_string_roundtrip(s, pos + 1, o);
        },
        MessageView::DesktopConnectAskResp(agree, n, e) => {
            lemma_roundtrip_bool_bytes_bytes(s, pos, w, agree, n, e);
        },
        MessageView::DesktopConnectOfferAuthReq(o, a, sec) => {
            let b1 = spec_string_bytes(o);
            let b2 = spec_string_bytes(a);
            let b3 = spec_bytes_field(sec);
            assert(w.subrange(1, 1 + b1.len() as int) =~= b1);
            crate::serializer::lemma_sub_embed(s, pos, w, 1, b1);
            crate::serializer::lemma_parse_string_roundtrip(s, pos + 1, o);
            assert(w.subrange(1 + b1.len() as int, 1 + b1.len() as int + b2.len() as int) =~= b2);
            crate::serializer::lemma_sub_embed(s, pos, w, 1 + b1.len() as int, b2);
            crate::serializer::lemma_parse_string_roundtrip(s, pos + 1 + b1.len() as int, a);
            let off3 = 1 + b1.len() as int + b2.len() as int;
            assert(w.subrange(off3, off3 + b3.len() as int) =~= b3);
            crate::serializer::lemma_sub_embed(s, pos, w, off3, b3);
            crate::serializer::lemma_parse_bytes_roundtrip(s, pos + off3, sec);
        },
        MessageView::DesktopConnectOfferAuthResp(ok) => {
            let b = spec_bool_bytes(ok);
            assert(w.subrange(1, 1 + b.len() as int) =~= b);
            crate::serializer::lemma_sub_embed(s, pos, w, 1, b);
            assert(s.subrange(pos + 1, pos + 2)[0] == s[pos + 1]);
        },
        MessageView::DesktopConnectAskAuthReq(o, sec) => {
            let b1 = spec_string_bytes(o);
            let b2 = spec_bytes_field(sec);
            assert(w.subrange(1, 1 + b1.len() as int) =~= b1);
            crate::serializer::lemma_sub_embed(s, pos, w, 1, b1);
            crate::serializer::lemma_parse_string_roundtrip(s, pos + 1, o);
            assert(w.subrange(1 + b1.len() as int, 1 + b1.len() as int + b2.len() as int) =~= b2);
            crate::serializer::lemma_sub_embed(s, pos, w, 1 + b1.len() as int, b2);
            crate::serializer::lemma_parse_bytes_roundtrip(s, pos + 1 + b1.len() as int, sec);
        },
        MessageView::DesktopConnectAskAuthResp(ok) => {
            let b = spec_bool_bytes(ok);
            assert(w.subrange(1, 1 + b.len() as int) =~= b);
            crate::serializer::lemma_sub_embed(s, pos, w, 1, b);
            assert(s.subrange(pos + 1, pos + 2)[0] == s[pos + 1]);
        },
    }
}

proof fn lemma_roundtrip_bool_bytes_bytes(
    s: Seq<u8>,
    pos: int,
    w: Seq<u8>,
    agree: bool,
    n: Seq<u8>,
    e: Seq<u8>,
)
    requires
        n.len() <= u64::MAX,
        e.len() <= u64::MAX,
        0 <= pos,
        pos + w.len() <= s.len(),
        s.subrange(pos, pos + w.len() as int) == w,
        w == seq![w[0]] + spec_bool_bytes(agree) + spec_bytes_field(n) + spec_bytes_field(e),
    ensures
        spec_parse_bool(s, pos + 1) == Some((agree, pos + 2)),
        spec_parse_bytes(s, pos + 2) == Some((n, pos + 2 + spec_bytes_field(n).len() as int)),
        spec_parse_bytes(s, pos + 2 + spec_bytes_field(n).len() as int) == Some(
            (e, pos + w.len() as int),
        ),
{
    let b1 = spec_bool_bytes(agree);
    let b2 = spec_bytes_field(n);
    let b3 = spec_bytes_field(e);
    assert(w.subrange(1, 2) =~= b1);
    crate::serializer::lemma_sub_embed(s, pos, w, 1, b1);
    assert(s.subrange(pos + 1, pos + 2)[0] == s[pos + 1]);
    assert(w.subrange(2, 2 + b2.len() as int) =~= b2);
    crate::serializer::lemma_sub_embed(s, pos, w, 2, b2);
    crate::serializer::lemma_parse_bytes_roundtrip(s, pos + 2, n);
    assert(w.subrange(2 + b2.len() as int, 2 + b2.len() as int + b3.len() as int) =~= b3);
    crate::serializer::lemma_sub_embed(s, pos, w, 2 + b2.len() as int, b3);
    crate::serializer::lemma_parse_bytes_roundtrip(s, pos + 2 + b2.len() as int, e);
}

/// Appends the encoding of a message.
pub fn write_message(out: &mut Vec<u8>, m: &Message)
    ensures
        final(out)@ == old(out)@ + spec_message_bytes(m@),
{
    match m {
        Message::NoMessage => {
            write_u8(out, 0);
        },
        Message::Error(e) => {
            write_u8(out, 1);
            write_error(out, e);
        },
        Message::DeviceGoesOnlineReq(q) => {
            write_u8(out, 2);
            write_opt_string(out, &q.device_id);
        },
        Message::DeviceGoesOnlineResp(q) => {
            write_u8(out, 3);
            write_string(out, q.device_id.as_str());
            write_u32(out, q.device_id_expire_time_stamp);
        },
        Message::HeartBeatReq(q) => {
            write_u8(out, 4);
            write_u32(out, q.time_stamp);
        },
        Message::HeartBeatResp(q) => {
            write_u8(out, 5);
            write_u32(out, q.time_stamp);
        },
        Message::DesktopConnectOfferReq(q) => {
            write_u8(out, 6);
            write_string(out, q.offer_device_id.as_str());
            write_string(out, q.ask_device_id.as_str());
        },
        Message::DesktopConnectOfferResp(q) => {
            write_u8(out, 7);
            write_bool(out, q.agree);
            write_bytes_field(out, &q.password_auth_public_key_n);
            write_bytes_field(out, &q.password_auth_public_key_e);
        },
        Message::DesktopConnectAskReq(q) => {
            write_u8(out, 8);
            write_string(out, q.offer_device_id.as_str());
        },
        Message::DesktopConnectAskResp(q) => {
            write_u8(out, 9);
            write_bool(out, q.agree);
            write_bytes_field(out, &q.password_auth_public_key_n);
            write_bytes_field(out, &q.password_auth_public_key_e);
        },
        Message::DesktopConnectOfferAuthReq(q) => {
            write_u8(out, 10);
            write_string(out, q.offer_device_id.as_str());
            write_string(out, q.ask_device_id.as_str());
            write_bytes_field(out, &q.secret_message);
        },
        Message::DesktopConnectOfferAuthResp(q) => {
            write_u8(out, 11);
            write_bool(out, q.password_correct);
        },
        Message::DesktopConnectAskAuthReq(q) => {
            write_u8(out, 12);
            write_string(out, q.offer_device_id.as_str());
            write_bytes_field(out, &q.secret_message);
        },
        Message::DesktopConnectAskAuthResp(q) => {
            write_u8(out, 13);
            write_bool(out, q.password_correct);
        },
    }
    proof {
        assert(out@ =~= old(out)@ + spec_message_bytes(m@));
    }
}

/// Reads a message, exactly as [`spec_parse_message`].
pub fn read_message(buf: &Vec<u8>, pos: usize) -> (r: Option<(Message, usize)>)
    ensures
        match r {
            Some((m, end)) => spec_parse_message(buf@, pos as int) == Some((m@, end as int)),
            None => spec_parse_message(buf@, pos as int) is None,
        },
{
    if pos >= buf.len() {
        return None;
    }
    let t = buf[pos];
    let p = pos + 1;
    if t == 0 {
        Some((Message::NoMessage, p))
    } else if t == 1 {
        match read_error(buf, p) {
            Some((e, end)) => Some((Message::Error(e), end)),
            None => None,
        }
    } else if t == 2 {
        match read_opt_string(buf, p) {
            Some((os, end)) => Some(
                (Message::DeviceGoesOnlineReq(DeviceGoesOnlineReq { device_id: os }), end),
            ),
            None => None,
        }
    } else if t == 3 {
        let (id, p2) = match read_string(buf, p) {
            Some(r) => r,
            None => {
                return None;
            },
        };
        match read_u32(buf, p2) {
            Some((exp, end)) => Some(
                (
                    Message::DeviceGoesOnlineResp(
                        DeviceGoesOnlineResp {
                            device_id: id,
                            device_id_expire_time_stamp: exp,
                        },
                    ),
                    end,
                ),
            ),
            None => None,
        }
    } else if t == 4 {
        match read_u32(buf, p) {
            Some((ts, end)) => Some((Message::HeartBeatReq(HeartBeatReq { time_stamp: ts }), end)),
            None => None,
        }
    } else if t == 5 {
        match read_u32(buf, p) {
            Some((ts, end)) => Some(
                (Message::HeartBeatResp(HeartBeatResp { time_stamp: ts }), end),
            ),
            None => None,
        }
    } else if t == 6 {
        let (o, p2) = match read_string(buf, p) {
            Some(r) => r,
            None => {
                return None;
            },
        };
        match read_string(buf, p2) {
            Some((a, end)) => Some(
                (
                    Message::DesktopConnectOfferReq(
                        DesktopConnectOfferReq { offer_device_id: o, ask_device_id: a },
                    ),
                    end,
                ),
            ),
            None => None,
        }
    } else if t == 7 {
        let (agree, p2) = match read_bool(buf, p) {
            Some(r) => r,
            None => {
                return None;
            },
        };
        let (n, p3) = match read_bytes_field(buf, p2) {
            Some(r) => r,
            None => {
                return None;
            },
        };
        match read_bytes_field(buf, p3) {
            Some((e, end)) => Some(
                (
                    Message::DesktopConnectOfferResp(
                        DesktopConnectOfferResp {
                            agree,
                            password_auth_public_key_n: n,
                            password_auth_public_key_e: e,
                        },
                    ),
                    end,
                ),
            ),
            None => None,
        }
    } else if t == 8 {
        match read_string(buf, p) {
            Some((o, end)) => Some(
                (Message::DesktopConnectAskReq(DesktopConnectAskReq { offer_device_id: o }), end),
            ),
            None => None,
        }
    } else if t == 9 {
        let (agree, p2) = match read_bool(buf, p) {
            Some(r) => r,
            None => {
                return None;
            },
        };
        let (n, p3) = match read_bytes_field(buf, p2) {
            Some(r) => r,
            None => {
                return None;
            },
        };
        match read_bytes_field(buf, p3) {
            Some((e, end)) => Some(
                (
                    Message::DesktopConnectAskResp(
                        DesktopConnectAskResp {
                            agree,
                            password_auth_public_key_n: n,
                            password_auth_public_key_e: e,
                        },
                    ),
                    end,
                ),
            ),
            None => None,
        }
    } else if t == 10 {
        let (o, p2) = match read_string(buf, p) {
            Some(r) => r,
            None => {
                return None;
            },
        };
        let (a, p3) = match read_string(buf, p2) {
            Some(r) => r,
            None => {
                return None;
            },
        };
        match read_bytes_field(buf, p3) {
            Some((sec, end)) => Some(
                (
                    Message::DesktopConnectOfferAuthReq(
                        DesktopConnectOfferAuthReq {
                            offer_device_id: o,
                            ask_device_id: a,
                            secret_message: sec,
                        },
                    ),
                    end,
                ),
            ),
            None => None,
        }
    } else if t == 11 {
        match read_bool(buf, p) {
            Some((ok, end)) => Some(
                (
                    Message::DesktopConnectOfferAuthResp(
                        DesktopConnectOfferAuthResp { password_correct: ok },
                    ),
                    end,
                ),
            ),
            None => None,
        }
    } else if t == 12 {
        let (o, p2) = match read_string(buf, p) {
            Some(r) => r,
            None => {
                return None;
            },
        };
        match read_bytes_field(buf, p2) {
            Some((sec, end)) => Some(
                (
                    Message::DesktopConnectAskAuthReq(
                        DesktopConnectAskAuthReq { offer_device_id: o, secret_message: sec },
                    ),
                    end,
                ),
            ),
            None => None,
        }
    } else if t == 13 {
        match read_bool(buf, p) {
            Some((ok, end)) => Some(
                (
                    Message::DesktopConnectAskAuthResp(
                        DesktopConnectAskAuthResp { password_correct: ok },
                    ),
                    end,
                ),
            ),
            None => None,
        }
    } else {
        None
    }
}

/// What the dispatcher decided for one request.
#[derive(Debug, PartialEq, Eq)]
pub enum DispatchOutcome {
    /// Answer the caller with this message.
    Reply(Message),
    /// The message asks for no reply.
    NoReply,
    /// Forward `request` to the session registered under
    /// `ask_device_id`, with a 10-second deadline, and map what comes
    /// back with [`finish_peer_call`] under the same kind.
    CallPeer { ask_device_id: String, request: Message, kind: ProxyKind },
}

/// Which proxied exchange a peer call belongs to.
#[derive(Debug, PartialEq, Eq, Clone, Copy)]
pub enum ProxyKind {
    Offer,
    OfferAuth,
}

/// Maps what came back from a proxied peer call to the reply owed to
/// the offerer, by the kind of exchange.
pub fn finish_peer_call(kind: ProxyKind, outcome: Result<Message, MessageError>) -> (r: Result<
    Message,
    MessageError,
>)
    ensures
        match kind {
            ProxyKind::Offer => match outcome {
                Ok(m) => match m {
                    Message::DesktopConnectAskResp(a) => (r matches Ok(out)
                        && out@ == MessageView::DesktopConnectOfferResp(
                        a.agree,
                        a.password_auth_public_key_n@,
                        a.password_auth_public_key_e@,
                    )),
                    _ => r == Err::<Message, MessageError>(
                        MessageError::MismatchedResponseMessage,
                    ),
                },
                Err(e) => r == Err::<Message, MessageError>(e),
            },
            ProxyKind::OfferAuth => match outcome {
                Ok(m) => match m {
                    Message::DesktopConnectAskAuthResp(a) => (r matches Ok(out)
                        && out@ == MessageView::DesktopConnectOfferAuthResp(a.password_correct)),
                    _ => r == Err::<Message, MessageError>(
                        MessageError::MismatchedResponseMessage,
                    ),
                },
                Err(e) => r == Err::<Message, MessageError>(e),
            },
        },
{
    match kind {
        ProxyKind::Offer => crate::service::desktop_connect_offer::DesktopConnectOfferReq::finish(
            outcome,
        ),
        ProxyKind::OfferAuth => crate::service::desktop_connect_offer_auth::DesktopConnectOfferAuthReq::finish(
            outcome,
        ),
    }
}

impl Message {
    /// The dispatcher: resolves one inbound request to its handler.
    /// Heartbeats are answered with the server clock; registration
    /// runs against the store and publishes the session under
    /// `handle`; connection offers and their authentication are
    /// proxied to the asked device's session; everything else asks
    /// for no reply.
    pub fn handle<S: crate::component::store::Store, V>(
        self,
        store: &mut S,
        client_manager: &mut crate::component::online::ClientManager<V>,
        session: &mut crate::session::session::Session,
        handle: V,
        now: u32,
        generator: &mut crate::device_id::DeviceIdGenerator,
    ) -> (r: Result<DispatchOutcome, MessageError>)
        ensures
            match self {
                Message::HeartBeatReq(q) => r == Ok::<DispatchOutcome, MessageError>(
                    DispatchOutcome::Reply(
                        Message::HeartBeatResp(
                            crate::handler::heart_beat::HeartBeatResp { time_stamp: now },
                        ),
                    ),
                ) && spec_dispatch_unchanged(
                    *old(store),
                    *final(store),
                    *old(client_manager),
                    *final(client_manager),
                    *old(session),
                    *final(session),
                ),
                Message::DeviceGoesOnlineReq(q) => match r {
                    Ok(out) => (out matches DispatchOutcome::Reply(m) && (
                    m matches Message::DeviceGoesOnlineResp(resp)
                        && crate::service::device::spec_registered(
                        *old(store),
                        *final(store),
                        *old(client_manager),
                        *final(client_manager),
                        *old(session),
                        *final(session),
                        handle,
                        (crate::service::message::reply::RegisterIdReply {
                            device_id: resp.device_id,
                            expire_at: resp.device_id_expire_time_stamp,
                        }),
                        now,
                    ) && (match q.device_id {
                        Some(d) => (crate::device_id::valid_device_id(d@) && old(
                            store,
                        ).spec_entries().contains_key(
                            crate::device_id::spec_id_index(d@) as u64,
                        )) ==> resp.device_id@ == d@,
                        None => true,
                    }))),
                    Err(MessageError::InternalError) => final(client_manager).spec_clients()
                        == old(client_manager).spec_clients()
                        && crate::session::session::spec_session_eq(
                        *final(session),
                        *old(session),
                    ),
                    Err(MessageError::RepeatedRequest) => old(session).spec_device_id() is Some
                        && final(client_manager).spec_clients() == old(
                        client_manager,
                    ).spec_clients() && crate::session::session::spec_session_eq(
                        *final(session),
                        *old(session),
                    ),
                    Err(_) => false,
                },
                Message::DesktopConnectOfferReq(q) => (match r {
                    Ok(out) => (out matches DispatchOutcome::CallPeer {
                        ask_device_id,
                        request,
                        kind,
                    } && old(client_manager).spec_contains(q.ask_device_id@) && ask_device_id@
                        == q.ask_device_id@ && kind == ProxyKind::Offer && (
                    request matches Message::DesktopConnectAskReq(a) && a.offer_device_id@
                        == q.offer_device_id@)),
                    Err(e) => e == MessageError::RemoteClientOfflineOrNotExist
                        && !old(client_manager).spec_contains(q.ask_device_id@),
                }) && spec_dispatch_unchanged(
                    *old(store),
                    *final(store),
                    *old(client_manager),
                    *final(client_manager),
                    *old(session),
                    *final(session),
                ),
                Message::DesktopConnectOfferAuthReq(q) => (match r {
                    Ok(out) => (out matches DispatchOutcome::CallPeer {
                        ask_device_id,
                        request,
                        kind,
                    } && old(client_manager).spec_contains(q.ask_device_id@) && ask_device_id@
                        == q.ask_device_id@ && kind == ProxyKind::OfferAuth && (
                    request matches Message::DesktopConnectAskAuthReq(a) && a.offer_device_id@
                        == q.offer_device_id@ && a.secret_message@ == q.secret_message@)),
                    Err(e) => e == MessageError::RemoteClientOfflineOrNotExist
                        && !old(client_manager).spec_contains(q.ask_device_id@),
                }) && spec_dispatch_unchanged(
                    *old(store),
                    *final(store),
                    *old(client_manager),
                    *final(client_manager),
                    *old(session),
                    *final(session),
                ),
                _ => r == Ok::<DispatchOutcome, MessageError>(DispatchOutcome::NoReply)
                    && spec_dispatch_unchanged(
                    *old(store),
                    *final(store),
                    *old(client_manager),
                    *final(client_manager),
                    *old(session),
                    *final(session),
                ),
            },
    {
        match self {
            Message::HeartBeatReq(q) => Ok(
                DispatchOutcome::Reply(Message::HeartBeatResp(q.handle(now))),
            ),
            Message::DeviceGoesOnlineReq(q) => {
                match q.handle(store, client_manager, session, handle, now, generator) {
                    Ok(m) => Ok(DispatchOutcome::Reply(m)),
                    Err(e) => Err(e),
                }
            },
            Message::DesktopConnectOfferReq(q) => {
                match q.begin(client_manager) {
                    Ok(ask) => Ok(
                        DispatchOutcome::CallPeer {
                            ask_device_id: q.ask_device_id,
                            request: Message::DesktopConnectAskReq(ask),
                            kind: ProxyKind::Offer,
                        },
                    ),
                    Err(e) => Err(e),
                }
            },
            Message::DesktopConnectOfferAuthReq(q) => {
                match q.begin(client_manager) {
                    Ok(ask) => Ok(
                        DispatchOutcome::CallPeer {
                            ask_device_id: q.ask_device_id,
                            request: Message::DesktopConnectAskAuthReq(ask),
                            kind: ProxyKind::OfferAuth,
                        },
                    ),
                    Err(e) => Err(e),
                }
            },
            _ => Ok(DispatchOutcome::NoReply),
        }
    }
}

/// Nothing observable changed across a dispatch.
pub open spec fn spec_dispatch_unchanged<S: crate::component::store::Store, V>(
    store_pre: S,
    store_post: S,
    cm_pre: crate::component::online::ClientManager<V>,
    cm_post: crate::component::online::ClientManager<V>,
    session_pre: crate::session::session::Session,
    session_post: crate::session::session::Session,
) -> bool {
    &&& store_post.spec_entries() == store_pre.spec_entries()
    &&& cm_post.spec_clients() == cm_pre.spec_clients()
    &&& crate::session::session::spec_session_eq(session_post, session_pre)
}

} // verus!
