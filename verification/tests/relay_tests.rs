use signal_relay::accountant::TrafficAccountant;
use signal_relay::network::client::{
    build_stat_response, decode_handshake_request, decode_handshake_response,
    encode_handshake_request, encode_handshake_response, handshake_deadline_exceeded,
    pair_handshake_replies, serve, EndPointHandshakeRequest, EndPointHandshakeResponse,
    RelayAction, StreamingClients, WaitingClients, HANDSHAKE_READ_TIMEOUT_MS, RELAY_WAIT_TTL_MS,
};
use signal_relay::model::StreamingClientStat;

fn stat(active: i64, passive: i64) -> StreamingClientStat {
    StreamingClientStat {
        active_device_id: active,
        active_addr: "198.51.100.7".to_string(),
        passive_device_id: passive,
        passive_addr: "203.0.113.9".to_string(),
        timestamp: 1_700_000_000,
    }
}

#[test]
fn relay_pairs_two_endpoints_with_matching_credentials() {
    let mut waiting = WaitingClients::new();
    let x = EndPointHandshakeRequest { visit_credentials: b"abcd".to_vec(), device_id: 100 };
    let y = EndPointHandshakeRequest { visit_credentials: b"abcd".to_vec(), device_id: 200 };

    let first = waiting.on_endpoint_handshake(&x, 1, 0);
    assert_eq!(first, RelayAction::Wait);

    let second = waiting.on_endpoint_handshake(&y, 2, 5);
    match second {
        RelayAction::Pair { active_device_id, active_stream, passive_device_id, passive_stream } => {
            assert_eq!(active_device_id, 200);
            assert_eq!(active_stream, 2);
            assert_eq!(passive_device_id, 100);
            assert_eq!(passive_stream, 1);
            // Each side learns the other's device ID.
            let (to_active, to_passive) = pair_handshake_replies(active_device_id, passive_device_id);
            assert_eq!(to_active, EndPointHandshakeResponse { remote_device_id: 100 });
            assert_eq!(to_passive, EndPointHandshakeResponse { remote_device_id: 200 });
        }
        other => panic!("expected a pair, got {:?}", other),
    }
    // The slot is consumed.
    assert!(waiting.take_waiting(&b"abcd".to_vec()).is_none());
}

#[test]
fn different_credentials_do_not_pair() {
    let mut waiting = WaitingClients::new();
    let x = EndPointHandshakeRequest { visit_credentials: b"abcd".to_vec(), device_id: 100 };
    let y = EndPointHandshakeRequest { visit_credentials: b"wxyz".to_vec(), device_id: 200 };
    assert_eq!(waiting.on_endpoint_handshake(&x, 1, 0), RelayAction::Wait);
    assert_eq!(waiting.on_endpoint_handshake(&y, 2, 0), RelayAction::Wait);
    assert!(waiting.take_waiting(&b"abcd".to_vec()).is_some());
    assert!(waiting.take_waiting(&b"wxyz".to_vec()).is_some());
}

#[test]
fn unmatched_wait_slot_expires_after_two_minutes() {
    let mut waiting = WaitingClients::new();
    let x = EndPointHandshakeRequest { visit_credentials: b"xyz".to_vec(), device_id: 7 };
    assert_eq!(waiting.on_endpoint_handshake(&x, 1, 1_000), RelayAction::Wait);

    // Just before the deadline the slot is still there.
    waiting.expire_due(1_000 + RELAY_WAIT_TTL_MS - 1);
    let slot = waiting.take_waiting(&b"xyz".to_vec()).expect("slot still waiting");
    waiting.on_endpoint_handshake(&x, 1, 1_000);

    // At the deadline it is gone.
    waiting.expire_due(1_000 + RELAY_WAIT_TTL_MS);
    assert!(waiting.take_waiting(&b"xyz".to_vec()).is_none());
    assert_eq!(slot.device_id, 7);
}

#[test]
fn relay_serve_decodes_and_decides() {
    let mut waiting = WaitingClients::new();
    let req = EndPointHandshakeRequest { visit_credentials: b"abcd".to_vec(), device_id: 1 };
    let frame = encode_handshake_request(&req);
    match serve(&mut waiting, &frame, 10, 0) {
        Some((decoded, action)) => {
            assert_eq!(decoded, req);
            assert_eq!(action, RelayAction::Wait);
        }
        None => panic!("expected a decision"),
    }
    // A payload that is not a handshake closes the connection.
    assert!(serve(&mut waiting, &vec![250, 1, 2], 11, 0).is_none());
}

#[test]
fn handshake_messages_roundtrip() {
    let req = EndPointHandshakeRequest { visit_credentials: b"abcd".to_vec(), device_id: -42 };
    let bytes = encode_handshake_request(&req);
    assert_eq!(decode_handshake_request(&bytes), Some(req));

    let resp = EndPointHandshakeResponse { remote_device_id: 200 };
    let bytes = encode_handshake_response(&resp);
    assert_eq!(decode_handshake_response(&bytes), Some(resp));
}

#[test]
fn handshake_read_deadline_is_ten_seconds() {
    assert_eq!(HANDSHAKE_READ_TIMEOUT_MS, 10_000);
    assert!(!handshake_deadline_exceeded(5_000, 14_999));
    assert!(handshake_deadline_exceeded(5_000, 15_000));
    assert!(handshake_deadline_exceeded(0, 1_000_000));
}

#[test]
fn snapshot_is_capped_at_ten_pairs() {
    let mut streaming = StreamingClients::new();
    for i in 0..12i64 {
        streaming.insert(stat(100 + i, 200 + i));
    }
    let resp = build_stat_response(777, &streaming);
    assert_eq!(resp.bytes_transferred, 777);
    assert_eq!(resp.client_snapshot.len(), 10);
}

#[test]
fn live_pairs_appear_and_disappear_in_the_snapshot() {
    let mut streaming = StreamingClients::new();
    streaming.insert(stat(100, 200));
    let resp = build_stat_response(0, &streaming);
    assert_eq!(resp.client_snapshot.len(), 1);
    assert_eq!(resp.client_snapshot[0].active_device_id, 100);
    assert_eq!(resp.client_snapshot[0].passive_device_id, 200);

    streaming.remove(100, 200);
    let resp = build_stat_response(0, &streaming);
    assert_eq!(resp.client_snapshot.len(), 0);
    // Removing again changes nothing.
    streaming.remove(100, 200);
    assert_eq!(build_stat_response(0, &streaming).client_snapshot.len(), 0);
}

#[test]
fn traffic_counter_is_monotone_and_resets_daily() {
    let mut acc = TrafficAccountant::new();
    acc.on_sample(100);
    acc.on_sample(23);
    acc.on_snapshot_tick();
    assert_eq!(acc.snapshot(), 123);
    acc.on_sample(u64::MAX);
    acc.on_snapshot_tick();
    assert_eq!(acc.snapshot(), u64::MAX);
    acc.on_daily_tick();
    acc.on_snapshot_tick();
    assert_eq!(acc.snapshot(), 0);
}

#[test]
fn slot_expiry_is_scoped_to_its_own_insertion() {
    let mut waiting = WaitingClients::new();
    let x = EndPointHandshakeRequest { visit_credentials: b"abcd".to_vec(), device_id: 1 };
    assert_eq!(waiting.on_endpoint_handshake(&x, 10, 0), RelayAction::Wait);

    // A timer for an earlier, already matched insertion under the same
    // credentials leaves the live slot alone.
    assert!(!waiting.expire_slot(&b"abcd".to_vec(), 9));
    assert!(waiting.take_waiting(&b"abcd".to_vec()).is_some());

    // The slot's own timer removes it.
    assert_eq!(waiting.on_endpoint_handshake(&x, 11, 0), RelayAction::Wait);
    assert!(waiting.expire_slot(&b"abcd".to_vec(), 11));
    assert!(waiting.take_waiting(&b"abcd".to_vec()).is_none());
}

#[test]
fn recording_a_pair_keeps_every_other_pair() {
    let mut streaming = StreamingClients::new();
    streaming.insert(stat(1, 2));
    streaming.insert(stat(3, 4));
    // Re-recording the first pair replaces it and leaves the second.
    streaming.insert(stat(1, 2));
    let resp = build_stat_response(0, &streaming);
    assert_eq!(resp.client_snapshot.len(), 2);
    assert!(resp
        .client_snapshot
        .iter()
        .any(|s| s.active_device_id == 3 && s.passive_device_id == 4));
    assert!(resp
        .client_snapshot
        .iter()
        .any(|s| s.active_device_id == 1 && s.passive_device_id == 2));
}
