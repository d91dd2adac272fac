//! The offer side of connection negotiation: a device asks the server
//! to sound out a peer, and receives the peer's answer.  The server
//! proxies: it forwards the offer as an ask-request to the peer's
//! session and maps the peer's reply back.

use crate::component::online::ClientManager;
use crate::network::message::{Message, MessageError, MessageView};
use crate::service::desktop_connect_ask::DesktopConnectAskReq;
use vstd::prelude::*;

verus! {

/// A device's wish to connect to a peer.
#[derive(Debug, PartialEq, Eq, Clone)]
pub struct DesktopConnectOfferReq {
    pub offer_device_id: String,
    pub ask_device_id: String,
}

/// The peer's answer, relayed back to the offerer.
#[derive(Debug, PartialEq, Eq, Clone)]
pub struct DesktopConnectOfferResp {
    pub agree: bool,
    pub password_auth_public_key_n: Vec<u8>,
    pub password_auth_public_key_e: Vec<u8>,
}

impl DesktopConnectOfferReq {
    /// First half of offer proxying: the request to forward to the
    /// asked device, or `RemoteClientOfflineOrNotExist` when no
    /// session is registered under it.
    pub fn begin<V>(&self, client_manager: &ClientManager<V>) -> (r: Result<
        DesktopConnectAskReq,
        MessageError,
    >)
        ensures
            match r {
                Ok(ask) => client_manager.spec_contains(self.ask_device_id@)
                    && ask.offer_device_id@ == self.offer_device_id@,
                Err(e) => e == MessageError::RemoteClientOfflineOrNotExist && !client_manager.spec_contains(self.ask_device_id@),
            },
    {
        if client_manager.contains(self.ask_device_id.as_str()) {
            Ok(DesktopConnectAskReq { offer_device_id: self.offer_device_id.clone() })
        } else {
            Err(MessageError::RemoteClientOfflineOrNotExist)
        }
    }

    /// Second half of offer proxying: maps what came back from the
    /// asked device.  A call error passes through; a reply of any
    /// variant but the ask-reply is `MismatchedResponseMessage`; the
    /// ask-reply's fields become the offer-reply's.
    pub fn finish(outcome: Result<Message, MessageError>) -> (r: Result<Message, MessageError>)
        ensures
            match outcome {
                Ok(m) => match m {
                    Message::DesktopConnectAskResp(a) => (r matches Ok(out)
                        && out@ == MessageView::DesktopConnectOfferResp(
                        a.agree,
                        a.password_auth_public_key_n@,
                        a.password_auth_public_key_e@,
                    )),
                    _ => r == Err::<Message, MessageError>(
                        MessageError::MismatchedResponseMessage,
                    ),
                },
                Err(e) => r == Err::<Message, MessageError>(e),
            },
    {
        match outcome {
            Ok(Message::DesktopConnectAskResp(a)) => Ok(
                Message::DesktopConnectOfferResp(
                    DesktopConnectOfferResp {
                        agree: a.agree,
                        password_auth_public_key_n: a.password_auth_public_key_n,
                        password_auth_public_key_e: a.password_auth_public_key_e,
                    },
                ),
            ),
            Ok(_) => Err(MessageError::MismatchedResponseMessage),
            Err(e) => Err(e),
        }
    }
}

} // verus!
