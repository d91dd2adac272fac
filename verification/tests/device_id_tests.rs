use signal_relay::device_id::{
    device_id_index, index_device_id, is_valid_device_id, DeviceIdGenerator, DEVICE_ID_SPACE,
};

#[test]
fn valid_ids_match_restricted_alphabet() {
    assert!(is_valid_device_id("22222222"));
    assert!(is_valid_device_id("ZZZZZZZZ"));
    assert!(is_valid_device_id("AB23CD45"));
    assert!(is_valid_device_id("HJKMNPQR"));
}

#[test]
fn ambiguous_glyphs_are_rejected() {
    assert!(!is_valid_device_id("O2222222"));
    assert!(!is_valid_device_id("I2222222"));
    assert!(!is_valid_device_id("L2222222"));
    assert!(!is_valid_device_id("02222222"));
    assert!(!is_valid_device_id("12222222"));
    assert!(!is_valid_device_id("a2222222"));
}

#[test]
fn wrong_length_is_rejected() {
    assert!(!is_valid_device_id(""));
    assert!(!is_valid_device_id("2222222"));
    assert!(!is_valid_device_id("222222222"));
}

#[test]
fn index_roundtrip_samples() {
    for &n in &[0u64, 1, 30, 31, 32, 961, 852891037440, DEVICE_ID_SPACE - 1] {
        let id = index_device_id(n);
        assert!(is_valid_device_id(&id));
        assert_eq!(device_id_index(&id), Some(n));
    }
}

#[test]
fn known_index_values() {
    assert_eq!(index_device_id(0), "22222222");
    assert_eq!(index_device_id(30), "2222222Z");
    assert_eq!(index_device_id(31), "22222232");
    assert_eq!(device_id_index("22222223"), Some(1));
    assert_eq!(device_id_index("INVALID!"), None);
}

#[test]
fn generator_produces_valid_ids() {
    let mut gen = DeviceIdGenerator::new(42);
    for _ in 0..50 {
        let id = gen.next_device_id();
        assert!(is_valid_device_id(&id));
    }
}

#[test]
fn generator_is_deterministic_per_seed() {
    let mut a = DeviceIdGenerator::new(7);
    let mut b = DeviceIdGenerator::new(7);
    assert_eq!(a.next_device_id(), b.next_device_id());
    assert_eq!(a.next_device_id(), b.next_device_id());
}
