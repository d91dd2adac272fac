use signal_relay::component::online::ClientManager;
use signal_relay::component::store::{
    clamp_timestamp, expire_at, new_store, Store, StoreError, DEVICE_ID_TTL_SECONDS,
};
use signal_relay::device_id::DeviceIdGenerator;
use signal_relay::network::server::on_session_exit;
use signal_relay::service::device::{
    allocation_step, heart_beat, register_id, AllocationStep, MAX_REGISTER_STORE_FAILURES,
};
use signal_relay::service::message::reply_error::ReplyError;
use signal_relay::service::message::request::{HeartBeatRequest, RegisterRequest};
use signal_relay::session::session::Session;

const NOW: u32 = 1_700_000_000;

#[test]
fn ttl_is_ninety_days() {
    assert_eq!(DEVICE_ID_TTL_SECONDS, 7_776_000);
    assert_eq!(expire_at(NOW), 1_707_776_000);
    assert_eq!(expire_at(u32::MAX), u32::MAX);
}

#[test]
fn clamping_timestamps() {
    assert_eq!(clamp_timestamp(-5), 0);
    assert_eq!(clamp_timestamp(1_700_000_000), 1_700_000_000);
    assert_eq!(clamp_timestamp(i64::MAX), u32::MAX);
}

#[test]
fn heartbeat_reports_the_server_clock() {
    let reply = heart_beat(&HeartBeatRequest { time_stamp: 123 }, NOW);
    assert_eq!(reply.time_stamp, NOW);
}

#[test]
fn allocation_succeeds_on_first_try_when_the_store_is_empty() {
    let mut store = new_store();
    let mut cm: ClientManager<u32> = ClientManager::new();
    let mut session = Session::new();
    let mut gen = DeviceIdGenerator::new(1);
    let req = RegisterRequest { device_id: None };
    let reply = register_id(&mut store, &mut cm, &mut session, 5, &req, NOW, &mut gen).unwrap();
    assert_eq!(reply.device_id.len(), 8);
    assert_eq!(reply.expire_at, NOW + DEVICE_ID_TTL_SECONDS);
    assert_eq!(cm.find(&reply.device_id), Some(&5));
    assert_eq!(session.device_id(), Some(&reply.device_id));
}

#[test]
fn allocation_retries_past_taken_ids() {
    // Learn which IDs the generator will propose, then occupy the
    // first two so the third try wins.
    let mut probe = DeviceIdGenerator::new(9);
    let first = probe.next_device_id();
    let second = probe.next_device_id();
    let third = probe.next_device_id();

    let mut store = new_store();
    let mut session0 = Session::new();
    let mut cm: ClientManager<u32> = ClientManager::new();
    store.set_device_id(&first, NOW).unwrap().unwrap();
    store.set_device_id(&second, NOW).unwrap().unwrap();

    let mut gen = DeviceIdGenerator::new(9);
    let req = RegisterRequest { device_id: None };
    let reply =
        register_id(&mut store, &mut cm, &mut session0, 1, &req, NOW, &mut gen).unwrap();
    assert_eq!(reply.device_id, third);
}

#[test]
fn registration_fails_internal_after_ten_store_errors() {
    let mut store = new_store();
    store.fail_next(MAX_REGISTER_STORE_FAILURES);
    let mut cm: ClientManager<u32> = ClientManager::new();
    let mut session = Session::new();
    let mut gen = DeviceIdGenerator::new(2);
    let req = RegisterRequest { device_id: None };
    let r = register_id(&mut store, &mut cm, &mut session, 1, &req, NOW, &mut gen);
    assert_eq!(r, Err(ReplyError::Internal));
    assert!(session.device_id().is_none());
}

#[test]
fn registration_survives_nine_store_errors() {
    let mut store = new_store();
    store.fail_next(MAX_REGISTER_STORE_FAILURES - 1);
    let mut cm: ClientManager<u32> = ClientManager::new();
    let mut session = Session::new();
    let mut gen = DeviceIdGenerator::new(3);
    let req = RegisterRequest { device_id: None };
    assert!(register_id(&mut store, &mut cm, &mut session, 1, &req, NOW, &mut gen).is_ok());
}

#[test]
fn renewal_keeps_the_carried_id() {
    let mut store = new_store();
    store.set_device_id("AB23CD45", NOW - 100).unwrap().unwrap();
    let mut cm: ClientManager<u32> = ClientManager::new();
    let mut session = Session::new();
    let mut gen = DeviceIdGenerator::new(4);
    let req = RegisterRequest { device_id: Some("AB23CD45".to_string()) };
    let reply = register_id(&mut store, &mut cm, &mut session, 8, &req, NOW, &mut gen).unwrap();
    assert_eq!(reply.device_id, "AB23CD45");
    assert_eq!(reply.expire_at, NOW + DEVICE_ID_TTL_SECONDS);
    assert_eq!(cm.find("AB23CD45"), Some(&8));
}

#[test]
fn unknown_carried_id_falls_through_to_allocation() {
    let mut store = new_store();
    let mut cm: ClientManager<u32> = ClientManager::new();
    let mut session = Session::new();
    let mut gen = DeviceIdGenerator::new(5);
    let req = RegisterRequest { device_id: Some("AB23CD45".to_string()) };
    let reply = register_id(&mut store, &mut cm, &mut session, 1, &req, NOW, &mut gen).unwrap();
    assert_ne!(reply.device_id, "AB23CD45");
}

#[test]
fn repeating_registration_on_one_session_is_repeated_request() {
    let mut store = new_store();
    let mut cm: ClientManager<u32> = ClientManager::new();
    let mut session = Session::new();
    let mut gen = DeviceIdGenerator::new(6);
    let req = RegisterRequest { device_id: None };
    register_id(&mut store, &mut cm, &mut session, 1, &req, NOW, &mut gen).unwrap();
    let r = register_id(&mut store, &mut cm, &mut session, 1, &req, NOW, &mut gen);
    assert_eq!(r, Err(ReplyError::RepeatedRequest));
}

#[test]
fn wall_clock_is_after_the_epoch() {
    let ts = signal_relay::component::store::utc_now_timestamp();
    assert!(ts >= 0);
    assert!(clamp_timestamp(ts) as i64 <= ts);
}

#[test]
fn store_keys_carry_the_device_id_prefix() {
    assert_eq!(signal_relay::component::store::store_key("AB23CD45"), "device_id:AB23CD45");
}

#[test]
fn allocation_policy_step_by_step() {
    // A granted candidate registers with the store's expiry.
    assert_eq!(allocation_step(Ok(Some(42)), 0), AllocationStep::Granted(42));
    // A collision retries and never touches the failure count.
    assert_eq!(allocation_step(Ok(None), 0), AllocationStep::Retry);
    assert_eq!(allocation_step(Ok(None), 9), AllocationStep::Retry);
    // A store failure counts, up to the tenth, which gives up.
    assert_eq!(
        allocation_step(Err(StoreError::Unavailable), 0),
        AllocationStep::RetryAfterFailure(1)
    );
    assert_eq!(
        allocation_step(Err(StoreError::Unavailable), 8),
        AllocationStep::RetryAfterFailure(9)
    );
    assert_eq!(
        allocation_step(Err(StoreError::Unavailable), MAX_REGISTER_STORE_FAILURES - 1),
        AllocationStep::GiveUp
    );
}

#[test]
fn session_exit_removes_and_returns_the_registered_handle() {
    let mut cm: ClientManager<u32> = ClientManager::new();
    cm.add("AB23CD45", 7);
    let mut session = Session::new();
    session.set_device_id("AB23CD45".to_string()).unwrap();
    assert_eq!(on_session_exit(&mut cm, &session), Some(7));
    assert_eq!(cm.find("AB23CD45"), None);
    // Running the cleanup again finds nothing and changes nothing.
    assert_eq!(on_session_exit(&mut cm, &session), None);
    // An anonymous session owes no cleanup.
    let anon = Session::new();
    assert_eq!(on_session_exit(&mut cm, &anon), None);
}
