//! The offer side of password authentication: the offerer submits an
//! encrypted secret for the peer to check.  The server proxies: it
//! forwards the secret as an ask-auth request to the peer's session
//! and maps the peer's answer back.

use crate::component::online::ClientManager;
use crate::network::message::{Message, MessageError, MessageView};
use crate::service::desktop_connect_ask_auth::DesktopConnectAskAuthReq;
use vstd::prelude::*;

verus! {

/// The offerer's encrypted secret, addressed to a peer.
#[derive(Debug, PartialEq, Eq, Clone)]
pub struct DesktopConnectOfferAuthReq {
    pub offer_device_id: String,
    pub ask_device_id: String,
    pub secret_message: Vec<u8>,
}

/// The peer's answer, relayed back to the offerer.
#[derive(Debug, PartialEq, Eq, Clone)]
pub struct DesktopConnectOfferAuthResp {
    pub password_correct: bool,
}

/// Copies a byte vector.
pub fn clone_bytes(v: &Vec<u8>) -> (r: Vec<u8>)
    ensures
        r@ == v@,
{
    let mut r: Vec<u8> = Vec::new();
    let mut i: usize = 0;
    while i < v.len()
        invariant
            0 <= i <= v@.len(),
            r@ == v@.subrange(0, i as int),
        decreases v@.len() - i,
    {
        r.push(v[i]);
        proof {
            assert(r@ =~= v@.subrange(0, i + 1));
        }
        i += 1;
    }
    proof {
        assert(r@ =~= v@);
    }
    r
}

impl DesktopConnectOfferAuthReq {
    /// First half of auth proxying: the request to forward to the
    /// asked device, or `RemoteClientOfflineOrNotExist` when no
    /// session is registered under it.
    pub fn begin<V>(&self, client_manager: &ClientManager<V>) -> (r: Result<
        DesktopConnectAskAuthReq,
        MessageError,
    >)
        ensures
            match r {
                Ok(ask) => client_manager.spec_contains(self.ask_device_id@)
                    && ask.offer_device_id@ == self.offer_device_id@ && ask.secret_message@
                    == self.secret_message@,
                Err(e) => e == MessageError::RemoteClientOfflineOrNotExist && !client_manager.spec_contains(self.ask_device_id@),
            },
    {
        if client_manager.contains(self.ask_device_id.as_str()) {
            Ok(
                DesktopConnectAskAuthReq {
                    offer_device_id: self.offer_device_id.clone(),
                    secret_message: clone_bytes(&self.secret_message),
                },
            )
        } else {
            Err(MessageError::RemoteClientOfflineOrNotExist)
        }
    }

    /// Second half of auth proxying: maps what came back from the
    /// asked device.  A call error passes through; a reply of any
    /// variant but the ask-auth reply is `MismatchedResponseMessage`;
    /// the peer's answer becomes the offerer's reply.
    pub fn finish(outcome: Result<Message, MessageError>) -> (r: Result<Message, MessageError>)
        ensures
            match outcome {
                Ok(m) => match m {
                    Message::DesktopConnectAskAuthResp(a) => (r matches Ok(out)
                        && out@ == MessageView::DesktopConnectOfferAuthResp(a.password_correct)),
                    _ => r == Err::<Message, MessageError>(
                        MessageError::MismatchedResponseMessage,
                    ),
                },
                Err(e) => r == Err::<Message, MessageError>(e),
            },
    {
        match outcome {
            Ok(Message::DesktopConnectAskAuthResp(a)) => Ok(
                Message::DesktopConnectOfferAuthResp(
                    DesktopConnectOfferAuthResp { password_correct: a.password_correct },
                ),
            ),
            Ok(_) => Err(MessageError::MismatchedResponseMessage),
            Err(e) => Err(e),
        }
    }
}

} // verus!
