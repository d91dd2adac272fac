use signal_relay::network::proto::msg_login::{
    BytesReader, BytesWriter, DeviceIDDistributionReq, DeviceIDDistributionResp,
};
use signal_relay::service::message::reply::{HeartBeatReply, RegisterIdReply, ReplyMessage};
use signal_relay::service::message::request::{HeartBeatRequest, RegisterRequest, RequestMessage};
use signal_relay::session::manager::{Manager, ManagerError};
use signal_relay::session::session::Session;

fn registered_session(id: &str) -> Session {
    let mut s = Session::new();
    s.set_device_id(id.to_string()).unwrap();
    s
}

#[test]
fn request_needs_a_positive_timeout() {
    let mut m = Manager::new();
    let r = m.request_begin(
        "AB23CD45",
        RequestMessage::HeartBeatRequest(HeartBeatRequest { time_stamp: 1 }),
        0,
    );
    assert_eq!(r, Err(ManagerError::RequestMustHasNoneZeroTimeoutDuration));
}

#[test]
fn request_to_an_unknown_session_is_not_found() {
    let mut m = Manager::new();
    let r = m.request_begin(
        "AB23CD45",
        RequestMessage::HeartBeatRequest(HeartBeatRequest { time_stamp: 1 }),
        10_000,
    );
    assert_eq!(r, Err(ManagerError::SessionNotFound));
}

#[test]
fn request_opens_a_correlated_call() {
    let mut m = Manager::new();
    assert!(m.add(registered_session("AB23CD45")));
    assert!(m.exist("AB23CD45"));
    assert!(!m.exist("ZZZZZZZZ"));
    let packet = m
        .request_begin(
            "AB23CD45",
            RequestMessage::HeartBeatRequest(HeartBeatRequest { time_stamp: 1 }),
            10_000,
        )
        .unwrap();
    assert_ne!(packet.call_id, 0);
    // The pending slot can be dropped once, on timeout.
    assert!(m.expire_call("AB23CD45", packet.call_id));
    assert!(!m.expire_call("AB23CD45", packet.call_id));
}

#[test]
fn anonymous_sessions_cannot_be_added() {
    let mut m = Manager::new();
    assert!(!m.add(Session::new()));
}

#[test]
fn reply_variants_must_pair_with_the_request() {
    let hb = RequestMessage::HeartBeatRequest(HeartBeatRequest { time_stamp: 1 });
    let reg = RequestMessage::RegisterIdRequest(RegisterRequest { device_id: None });

    let r = Manager::request_finish(
        &hb,
        Some(ReplyMessage::HeartBeatReply(HeartBeatReply { time_stamp: 2 })),
    );
    assert_eq!(r, Ok(ReplyMessage::HeartBeatReply(HeartBeatReply { time_stamp: 2 })));

    let wrong = Manager::request_finish(
        &reg,
        Some(ReplyMessage::HeartBeatReply(HeartBeatReply { time_stamp: 2 })),
    );
    assert_eq!(wrong, Err(ManagerError::CastFailed));

    let timeout = Manager::request_finish(
        &reg,
        None::<ReplyMessage>,
    );
    assert_eq!(timeout, Err(ManagerError::Timeout));

    let ok = Manager::request_finish(
        &reg,
        Some(ReplyMessage::RegisterIdReply(RegisterIdReply {
            device_id: "AB23CD45".to_string(),
            expire_at: 1,
        })),
    );
    assert!(ok.is_ok());
}

#[test]
fn proto_messages_roundtrip_through_their_codec() {
    let req = DeviceIDDistributionReq { offer_device_id: "AB23CD45".to_string() };
    assert_eq!(req.opcode(), 1);
    let mut w = BytesWriter::new();
    req.encode(&mut w);
    let mut back = DeviceIDDistributionReq { offer_device_id: String::new() };
    back.decode(w.buf).unwrap();
    assert_eq!(back, req);

    let resp = DeviceIDDistributionResp { agree: true };
    assert_eq!(resp.opcode(), 2);
    let mut w2 = BytesWriter::new();
    resp.encode(&mut w2);
    let mut back2 = DeviceIDDistributionResp { agree: false };
    back2.decode(w2.buf).unwrap();
    assert_eq!(back2, resp);

    let mut reader = BytesReader::new(vec![250, 250]);
    assert!(reader.read_bool().is_none());
}
