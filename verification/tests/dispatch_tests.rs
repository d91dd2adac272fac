use signal_relay::component::online::ClientManager;
use signal_relay::component::store::new_store;
use signal_relay::device_id::DeviceIdGenerator;
use signal_relay::handler::device_goes_online::DeviceGoesOnlineReq;
use signal_relay::handler::heart_beat::{HeartBeatReq, HeartBeatResp};
use signal_relay::network::message::{
    finish_peer_call, DispatchOutcome, Message, MessageError, ProxyKind,
};
use signal_relay::network::packet::{decode_packet, encode_packet, ControlPacket};
use signal_relay::network::server::{
    handle_client_to_server_message, handshake, parse_register_token, read_error_action,
    ClientToServerMessage, HandshakeRequest, HandshakeStatus, LoopAction, ReadErrorKind,
    ServerToClientMessage,
};
use signal_relay::service::desktop_connect_ask::DesktopConnectAskResp;
use signal_relay::service::desktop_connect_offer::{
    DesktopConnectOfferReq, DesktopConnectOfferResp,
};
use signal_relay::service::message::reply::HeartBeatReply;
use signal_relay::service::message::request::HeartBeatRequest;
use signal_relay::session::session::{RouteAction, Session};

const NOW: u32 = 1_700_000_777;

#[test]
fn heartbeat_request_is_answered_under_the_same_call_id() {
    // The client sends Request(7, HeartBeatReq { ts }); the server
    // replies Reply(7, Ok(HeartBeatResp { server now })).
    let mut store = new_store();
    let mut cm: ClientManager<u32> = ClientManager::new();
    let mut session = Session::new();
    let mut gen = DeviceIdGenerator::new(1);

    let frame = encode_packet(&ControlPacket::Request(
        7,
        Message::HeartBeatReq(HeartBeatReq { time_stamp: 1_700_000_000 }),
    ));
    let (call_id, message) = match session.route_inbound(&frame) {
        RouteAction::Dispatch { call_id, message } => (call_id, message),
        other => panic!("expected dispatch, got {:?}", other),
    };
    assert_eq!(call_id, 7);
    let outcome = message
        .handle(&mut store, &mut cm, &mut session, 1u32, NOW, &mut gen)
        .unwrap();
    let reply = match outcome {
        DispatchOutcome::Reply(m) => m,
        other => panic!("expected a reply, got {:?}", other),
    };
    session.send_reply(call_id, Ok(reply)).unwrap();
    let out = session.take_outbound().unwrap();
    assert_eq!(
        decode_packet(&out),
        Some(ControlPacket::Reply(
            7,
            Ok(Message::HeartBeatResp(HeartBeatResp { time_stamp: NOW }))
        ))
    );
}

#[test]
fn offer_to_offline_peer_is_refused() {
    let mut store = new_store();
    let mut cm: ClientManager<u32> = ClientManager::new();
    let mut session = Session::new();
    let mut gen = DeviceIdGenerator::new(1);
    let msg = Message::DesktopConnectOfferReq(DesktopConnectOfferReq {
        offer_device_id: "AAAAAAAA".to_string(),
        ask_device_id: "ZZZZZZZZ".to_string(),
    });
    let r = msg.handle(&mut store, &mut cm, &mut session, 1u32, NOW, &mut gen);
    assert_eq!(r, Err(MessageError::RemoteClientOfflineOrNotExist));
}

#[test]
fn offer_to_online_peer_maps_the_agreeing_reply() {
    let mut store = new_store();
    let mut cm: ClientManager<u32> = ClientManager::new();
    let mut session = Session::new();
    let mut gen = DeviceIdGenerator::new(1);
    cm.add("BBBBBBBB", 2);

    let msg = Message::DesktopConnectOfferReq(DesktopConnectOfferReq {
        offer_device_id: "AAAAAAAA".to_string(),
        ask_device_id: "BBBBBBBB".to_string(),
    });
    let outcome = msg
        .handle(&mut store, &mut cm, &mut session, 1u32, NOW, &mut gen)
        .unwrap();
    let (ask_device_id, request, kind) = match outcome {
        DispatchOutcome::CallPeer { ask_device_id, request, kind } => {
            (ask_device_id, request, kind)
        }
        other => panic!("expected a peer call, got {:?}", other),
    };
    assert_eq!(ask_device_id, "BBBBBBBB");
    assert_eq!(kind, ProxyKind::Offer);
    match request {
        Message::DesktopConnectAskReq(a) => assert_eq!(a.offer_device_id, "AAAAAAAA"),
        other => panic!("expected an ask request, got {:?}", other),
    }

    // The peer agrees with its public key.
    let peer_reply = Message::DesktopConnectAskResp(DesktopConnectAskResp {
        agree: true,
        password_auth_public_key_n: vec![0x01],
        password_auth_public_key_e: vec![0x01, 0x00, 0x01],
    });
    let mapped = finish_peer_call(kind, Ok(peer_reply)).unwrap();
    assert_eq!(
        mapped,
        Message::DesktopConnectOfferResp(DesktopConnectOfferResp {
            agree: true,
            password_auth_public_key_n: vec![0x01],
            password_auth_public_key_e: vec![0x01, 0x00, 0x01],
        })
    );
}

#[test]
fn mismatched_peer_reply_and_timeout_are_surfaced() {
    let mismatch = finish_peer_call(
        ProxyKind::Offer,
        Ok(Message::HeartBeatResp(HeartBeatResp { time_stamp: 1 })),
    );
    assert_eq!(mismatch, Err(MessageError::MismatchedResponseMessage));
    let timeout = finish_peer_call(ProxyKind::Offer, Err(MessageError::CallTimeout));
    assert_eq!(timeout, Err(MessageError::CallTimeout));
}

#[test]
fn unhandled_messages_produce_no_reply() {
    let mut store = new_store();
    let mut cm: ClientManager<u32> = ClientManager::new();
    let mut session = Session::new();
    let mut gen = DeviceIdGenerator::new(1);
    let r = Message::NoMessage
        .handle(&mut store, &mut cm, &mut session, 1u32, NOW, &mut gen)
        .unwrap();
    assert_eq!(r, DispatchOutcome::NoReply);
}

#[test]
fn register_token_parsing() {
    assert_eq!(parse_register_token("AB23CD45.x.y"), Some("AB23CD45".to_string()));
    assert_eq!(parse_register_token("AB23CD45.x"), None);
    assert_eq!(parse_register_token("AB23CD45.x.y.z"), None);
    assert_eq!(parse_register_token("bogus.x.y"), None);
    assert_eq!(parse_register_token(""), None);
}

#[test]
fn handshake_registers_then_repeats() {
    let mut cm: ClientManager<u32> = ClientManager::new();
    let mut s1 = Session::new();
    let req = HandshakeRequest { token: "AB23CD45.sig.n".to_string() };
    let rep = handshake(&mut s1, &mut cm, 1, &req).unwrap();
    assert_eq!(rep.status, HandshakeStatus::Accepted);
    assert_eq!(cm.find("AB23CD45"), Some(&1));

    let mut s2 = Session::new();
    let rep2 = handshake(&mut s2, &mut cm, 2, &req).unwrap();
    assert_eq!(rep2.status, HandshakeStatus::Repeated);
    assert_eq!(cm.find("AB23CD45"), Some(&1));
}

#[test]
fn client_to_server_dispatch() {
    let mut cm: ClientManager<u32> = ClientManager::new();
    let mut session = Session::new();
    let r = handle_client_to_server_message(
        &mut session,
        &mut cm,
        1,
        4,
        &ClientToServerMessage::HeartBeatRequest(HeartBeatRequest { time_stamp: 9 }),
        NOW,
    );
    assert_eq!(r, ServerToClientMessage::HeartBeatReply(HeartBeatReply { time_stamp: NOW }));

    let bad = handle_client_to_server_message(
        &mut session,
        &mut cm,
        1,
        5,
        &ClientToServerMessage::HandshakeRequest(HandshakeRequest { token: "nodots".to_string() }),
        NOW,
    );
    assert_eq!(bad, ServerToClientMessage::Error);
}

#[test]
fn only_eof_and_reset_end_the_receive_loop() {
    assert_eq!(read_error_action(ReadErrorKind::UnexpectedEof), LoopAction::Exit);
    assert_eq!(read_error_action(ReadErrorKind::ConnectionReset), LoopAction::Exit);
    assert_eq!(read_error_action(ReadErrorKind::Other), LoopAction::Continue);
}

#[test]
fn registration_with_a_fresh_id_over_the_wire() {
    // The client sends Request(1, DeviceGoesOnlineReq { None }); the
    // server replies Reply(1, Ok(DeviceGoesOnlineResp { 8-char id,
    // now + 90 days })).  Repeating the request on the same session
    // yields Err(RepeatedRequest).
    let mut store = new_store();
    let mut cm: ClientManager<u32> = ClientManager::new();
    let mut session = Session::new();
    let mut gen = DeviceIdGenerator::new(77);

    let frame = encode_packet(&ControlPacket::Request(
        1,
        Message::DeviceGoesOnlineReq(DeviceGoesOnlineReq { device_id: None }),
    ));
    let (call_id, message) = match session.route_inbound(&frame) {
        RouteAction::Dispatch { call_id, message } => (call_id, message),
        other => panic!("expected dispatch, got {:?}", other),
    };
    let reply = match message
        .handle(&mut store, &mut cm, &mut session, 3u32, NOW, &mut gen)
        .map(|out| match out {
            DispatchOutcome::Reply(m) => m,
            other => panic!("expected a reply, got {:?}", other),
        }) {
        Ok(m) => m,
        Err(e) => panic!("registration failed: {:?}", e),
    };
    let device_id = match &reply {
        Message::DeviceGoesOnlineResp(resp) => {
            assert_eq!(resp.device_id.len(), 8);
            assert_eq!(resp.device_id_expire_time_stamp, NOW + 7_776_000);
            resp.device_id.clone()
        }
        other => panic!("expected a registration reply, got {:?}", other),
    };
    assert_eq!(cm.find(&device_id), Some(&3));
    session.send_reply(call_id, Ok(reply)).unwrap();
    let out = session.take_outbound().unwrap();
    match decode_packet(&out) {
        Some(ControlPacket::Reply(1, Ok(Message::DeviceGoesOnlineResp(_)))) => {}
        other => panic!("expected the registration reply packet, got {:?}", other),
    }

    // The same request again on the same session.
    let again = Message::DeviceGoesOnlineReq(DeviceGoesOnlineReq { device_id: None })
        .handle(&mut store, &mut cm, &mut session, 3u32, NOW, &mut gen);
    assert_eq!(again, Err(MessageError::RepeatedRequest));
}
