use signal_relay::handler::heart_beat::{HeartBeatReq, HeartBeatResp};
use signal_relay::network::message::{Message, MessageError};
use signal_relay::network::packet::{encode_packet, ControlPacket};
use signal_relay::session::session::{RouteAction, SendError, Session, OUTBOUND_QUEUE_DEPTH};

#[test]
fn call_ids_skip_zero_and_wrap() {
    let mut s = Session::new();
    let mut last: u8 = 0;
    for _ in 0..600 {
        let id = s.next_call_id();
        assert_ne!(id, 0);
        if last == 255 {
            assert_eq!(id, 1);
        } else {
            assert_eq!(id, last + 1);
        }
        last = id;
    }
}

#[test]
fn reply_resolves_a_call_exactly_once() {
    let mut s = Session::new();
    let msg = Message::HeartBeatReq(HeartBeatReq { time_stamp: 1 });
    let call_id = s.call_begin(msg).unwrap();
    assert_ne!(call_id, 0);
    let reply_frame = encode_packet(&ControlPacket::Reply(
        call_id,
        Ok(Message::HeartBeatResp(HeartBeatResp { time_stamp: 2 })),
    ));
    match s.route_inbound(&reply_frame) {
        RouteAction::DeliverReply { call_id: c, outcome } => {
            assert_eq!(c, call_id);
            assert_eq!(outcome, Ok(Message::HeartBeatResp(HeartBeatResp { time_stamp: 2 })));
        }
        other => panic!("expected delivery, got {:?}", other),
    }
    // A second resolution of the same call ID finds no slot: the late
    // reply is dropped silently.
    match s.route_inbound(&reply_frame) {
        RouteAction::DropLateReply { call_id: c } => assert_eq!(c, call_id),
        other => panic!("expected a dropped late reply, got {:?}", other),
    }
}

#[test]
fn timeout_drops_the_pending_slot() {
    let mut s = Session::new();
    let call_id = s.call_begin(Message::NoMessage).unwrap();
    assert!(s.reply(call_id));
    assert!(!s.reply(call_id));
}

#[test]
fn requests_are_dispatched_and_bad_frames_dropped() {
    let mut s = Session::new();
    let frame = encode_packet(&ControlPacket::Request(
        7,
        Message::HeartBeatReq(HeartBeatReq { time_stamp: 1700000000 }),
    ));
    match s.route_inbound(&frame) {
        RouteAction::Dispatch { call_id, message } => {
            assert_eq!(call_id, 7);
            assert_eq!(message, Message::HeartBeatReq(HeartBeatReq { time_stamp: 1700000000 }));
        }
        other => panic!("expected dispatch, got {:?}", other),
    }
    assert_eq!(s.route_inbound(&vec![250, 250, 250]), RouteAction::DropFrame);
}

#[test]
fn client_to_client_frames_are_forwarded() {
    let mut s = Session::new();
    let frame = encode_packet(&ControlPacket::ClientToClient {
        call_id: 9,
        from_device_id: "AAAAAAAA".to_string(),
        to_device_id: "BBBBBBBB".to_string(),
        is_secure: false,
        payload: vec![42],
    });
    match s.route_inbound(&frame) {
        RouteAction::Forward { call_id, from_device_id, to_device_id, is_secure, payload } => {
            assert_eq!(call_id, 9);
            assert_eq!(from_device_id, "AAAAAAAA");
            assert_eq!(to_device_id, "BBBBBBBB");
            assert!(!is_secure);
            assert_eq!(payload, vec![42]);
        }
        other => panic!("expected forwarding, got {:?}", other),
    }
}

#[test]
fn outbound_queue_is_bounded_and_ordered() {
    let mut s = Session::new();
    for i in 0..OUTBOUND_QUEUE_DEPTH {
        s.enqueue(vec![i as u8]).unwrap();
    }
    assert_eq!(s.enqueue(vec![99]), Err(SendError::QueueFull));
    for i in 0..OUTBOUND_QUEUE_DEPTH {
        assert_eq!(s.take_outbound(), Some(vec![i as u8]));
    }
    assert_eq!(s.take_outbound(), None);
}

#[test]
fn two_shutdowns_behave_as_one() {
    let mut s = Session::new();
    s.set_device_id("AB23CD45".to_string()).unwrap();
    let call_id = s.call_begin(Message::NoMessage).unwrap();
    s.shutdown();
    // Observations after the first shutdown.
    assert_eq!(s.take_outbound(), None);
    assert!(!s.reply(call_id));
    assert_eq!(s.send(Message::NoMessage), Err(SendError::Closed));
    assert_eq!(s.device_id().map(|d| d.clone()), Some("AB23CD45".to_string()));
    // The second shutdown changes nothing observable.
    s.shutdown();
    assert_eq!(s.take_outbound(), None);
    assert!(!s.reply(call_id));
    assert_eq!(s.send(Message::NoMessage), Err(SendError::Closed));
    assert_eq!(s.device_id().map(|d| d.clone()), Some("AB23CD45".to_string()));
}

#[test]
fn device_id_is_assigned_at_most_once() {
    let mut s = Session::new();
    assert!(s.device_id().is_none());
    s.set_device_id("AB23CD45".to_string()).unwrap();
    let r = s.set_device_id("ZZZZZZZZ".to_string());
    assert!(r.is_err());
    assert_eq!(s.device_id().map(|d| d.clone()), Some("AB23CD45".to_string()));
}

#[test]
fn sends_fail_with_internal_style_errors_after_shutdown() {
    let mut s = Session::new();
    s.shutdown();
    assert_eq!(s.call_begin(Message::NoMessage), Err(SendError::Closed));
    assert_eq!(
        s.send_reply(1, Err(MessageError::InternalError)),
        Err(SendError::Closed)
    );
}
