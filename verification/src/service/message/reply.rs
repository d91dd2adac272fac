//! Typed replies of the session layer's request/reply protocol.  Each
//! reply variant pairs with the request variant of the same name.

use vstd::prelude::*;

verus! {

/// A reply to a [`super::request::RequestMessage`].
#[derive(Debug, PartialEq, Eq, Clone)]
pub enum ReplyMessage {
    HeartBeatReply(HeartBeatReply),
    RegisterIdReply(RegisterIdReply),
}

/// The server's clock, in Unix seconds.
#[derive(Debug, PartialEq, Eq, Clone)]
pub struct HeartBeatReply {
    pub time_stamp: u32,
}

/// A granted registration: the device's ID and the directory entry's
/// expiry, in Unix seconds.
#[derive(Debug, PartialEq, Eq, Clone)]
pub struct RegisterIdReply {
    pub device_id: String,
    pub expire_at: u32,
}

impl ReplyMessage {
    /// Whether this reply answers the given request: the variants must
    /// pair by name.
    pub open spec fn spec_answers(&self, req: &super::request::RequestMessage) -> bool {
        match (req, self) {
            (
                super::request::RequestMessage::HeartBeatRequest(_),
                ReplyMessage::HeartBeatReply(_),
            ) => true,
            (
                super::request::RequestMessage::RegisterIdRequest(_),
                ReplyMessage::RegisterIdReply(_),
            ) => true,
            _ => false,
        }
    }

    /// Whether this reply answers the given request.
    pub fn answers(&self, req: &super::request::RequestMessage) -> (r: bool)
        ensures
            r == self.spec_answers(req),
    {
        match (req, self) {
            (
                super::request::RequestMessage::HeartBeatRequest(_),
                ReplyMessage::HeartBeatReply(_),
            ) => true,
            (
                super::request::RequestMessage::RegisterIdRequest(_),
                ReplyMessage::RegisterIdReply(_),
            ) => true,
            _ => false,
        }
    }
}

} // verus!
