use signal_relay::codec::{
    decode_frame, encode_frame, FrameDecode, MAX_CONTROL_FRAME_LEN, MAX_RELAY_FRAME_LEN,
};

#[test]
fn small_frame_roundtrip() {
    let payload = vec![1u8, 2, 3, 4, 5];
    let frame = encode_frame(&payload, MAX_CONTROL_FRAME_LEN).unwrap();
    assert_eq!(frame[0..4], [5, 0, 0, 0]);
    match decode_frame(&frame, MAX_CONTROL_FRAME_LEN) {
        FrameDecode::Frame { payload: p, consumed } => {
            assert_eq!(p, payload);
            assert_eq!(consumed, 9);
        }
        other => panic!("expected a frame, got {:?}", other),
    }
}

#[test]
fn frame_at_exactly_the_control_cap_is_accepted() {
    let payload = vec![0xABu8; MAX_CONTROL_FRAME_LEN as usize];
    let frame = encode_frame(&payload, MAX_CONTROL_FRAME_LEN).unwrap();
    match decode_frame(&frame, MAX_CONTROL_FRAME_LEN) {
        FrameDecode::Frame { payload: p, consumed } => {
            assert_eq!(p.len(), MAX_CONTROL_FRAME_LEN as usize);
            assert_eq!(consumed, 4 + MAX_CONTROL_FRAME_LEN as usize);
        }
        other => panic!("expected a frame, got {:?}", other),
    }
}

#[test]
fn frame_over_the_control_cap_is_fatal() {
    let over = MAX_CONTROL_FRAME_LEN as usize + 1;
    let payload = vec![0u8; over];
    assert!(encode_frame(&payload, MAX_CONTROL_FRAME_LEN).is_err());
    // A length prefix one over the cap is rejected before the payload
    // even arrives.
    let n = MAX_CONTROL_FRAME_LEN + 1;
    let header = vec![
        (n % 256) as u8,
        ((n / 256) % 256) as u8,
        ((n / 65536) % 256) as u8,
        ((n / 16777216) % 256) as u8,
    ];
    assert_eq!(decode_frame(&header, MAX_CONTROL_FRAME_LEN), FrameDecode::Oversized);
}

#[test]
fn relay_cap_boundary() {
    let n = MAX_RELAY_FRAME_LEN;
    let header = vec![
        (n % 256) as u8,
        ((n / 256) % 256) as u8,
        ((n / 65536) % 256) as u8,
        ((n / 16777216) % 256) as u8,
    ];
    // At exactly the cap the frame is merely incomplete, not fatal.
    assert_eq!(decode_frame(&header, MAX_RELAY_FRAME_LEN), FrameDecode::NeedMoreData);
    let m = MAX_RELAY_FRAME_LEN + 1;
    let header2 = vec![
        (m % 256) as u8,
        ((m / 256) % 256) as u8,
        ((m / 65536) % 256) as u8,
        ((m / 16777216) % 256) as u8,
    ];
    assert_eq!(decode_frame(&header2, MAX_RELAY_FRAME_LEN), FrameDecode::Oversized);
}

#[test]
fn short_buffer_needs_more_data() {
    assert_eq!(decode_frame(&vec![], MAX_CONTROL_FRAME_LEN), FrameDecode::NeedMoreData);
    assert_eq!(decode_frame(&vec![9, 0, 0], MAX_CONTROL_FRAME_LEN), FrameDecode::NeedMoreData);
    assert_eq!(
        decode_frame(&vec![9, 0, 0, 0, 1, 2], MAX_CONTROL_FRAME_LEN),
        FrameDecode::NeedMoreData
    );
}
