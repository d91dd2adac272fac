use signal_relay::component::online::ClientManager;
use signal_relay::service::message::reply_error::ReplyError;
use signal_relay::service::proxy::proxy;

#[test]
fn add_find_remove() {
    let mut cm: ClientManager<u32> = ClientManager::new();
    assert!(cm.add("AB23CD45", 7));
    assert_eq!(cm.find("AB23CD45"), Some(&7));
    assert!(cm.contains("AB23CD45"));
    assert_eq!(cm.remove("AB23CD45"), Some(7));
    assert_eq!(cm.find("AB23CD45"), None);
}

#[test]
fn insertion_is_last_writer_wins() {
    let mut cm: ClientManager<u32> = ClientManager::new();
    assert!(cm.add("AB23CD45", 1));
    assert!(cm.add("AB23CD45", 2));
    assert_eq!(cm.find("AB23CD45"), Some(&2));
}

#[test]
fn two_removes_yield_the_same_state() {
    let mut cm: ClientManager<u32> = ClientManager::new();
    cm.add("AB23CD45", 1);
    cm.add("ZZZZZZZZ", 2);
    assert_eq!(cm.remove("AB23CD45"), Some(1));
    assert_eq!(cm.remove("AB23CD45"), None);
    // The rest of the registry is untouched either way.
    assert_eq!(cm.find("ZZZZZZZZ"), Some(&2));
    assert_eq!(cm.find("AB23CD45"), None);
}

#[test]
fn malformed_device_ids_never_enter_the_registry() {
    let mut cm: ClientManager<u32> = ClientManager::new();
    assert!(!cm.add("O0IL0IL0", 1));
    assert!(!cm.add("short", 2));
    assert!(!cm.add("", 3));
    assert_eq!(cm.find("O0IL0IL0"), None);
    assert_eq!(cm.remove("O0IL0IL0"), None);
}

#[test]
fn proxy_resolves_the_target_session() {
    let mut cm: ClientManager<u32> = ClientManager::new();
    cm.add("BBBBBBBB", 11);
    assert_eq!(proxy(&cm, "BBBBBBBB"), Ok(&11));
    assert_eq!(proxy(&cm, "ZZZZZZZZ"), Err(ReplyError::DeviceNotFound));
}
