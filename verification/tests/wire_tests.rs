use signal_relay::handler::device_goes_online::{DeviceGoesOnlineReq, DeviceGoesOnlineResp};
use signal_relay::handler::heart_beat::{HeartBeatReq, HeartBeatResp};
use signal_relay::network::message::{read_message, write_message, Message, MessageError};
use signal_relay::network::packet::{decode_packet, encode_packet, ControlPacket};
use signal_relay::service::desktop_connect_ask::{DesktopConnectAskReq, DesktopConnectAskResp};
use signal_relay::service::desktop_connect_ask_auth::{
    DesktopConnectAskAuthReq, DesktopConnectAskAuthResp,
};
use signal_relay::service::desktop_connect_offer::{
    DesktopConnectOfferReq, DesktopConnectOfferResp,
};
use signal_relay::service::desktop_connect_offer_auth::{
    DesktopConnectOfferAuthReq, DesktopConnectOfferAuthResp,
};

fn all_message_variants() -> Vec<Message> {
    vec![
        Message::NoMessage,
        Message::Error(MessageError::InternalError),
        Message::Error(MessageError::CallTimeout),
        Message::Error(MessageError::InvalidArguments),
        Message::Error(MessageError::MismatchedResponseMessage),
        Message::Error(MessageError::RemoteClientOfflineOrNotExist),
        Message::Error(MessageError::RepeatedRequest),
        Message::Error(MessageError::DeviceNotFound),
        Message::DeviceGoesOnlineReq(DeviceGoesOnlineReq { device_id: None }),
        Message::DeviceGoesOnlineReq(DeviceGoesOnlineReq {
            device_id: Some("AB23CD45".to_string()),
        }),
        Message::DeviceGoesOnlineResp(DeviceGoesOnlineResp {
            device_id: "ZZZZZZZZ".to_string(),
            device_id_expire_time_stamp: 1707776000,
        }),
        Message::HeartBeatReq(HeartBeatReq { time_stamp: 1700000000 }),
        Message::HeartBeatResp(HeartBeatResp { time_stamp: 1700000123 }),
        Message::DesktopConnectOfferReq(DesktopConnectOfferReq {
            offer_device_id: "AAAAAAAA".to_string(),
            ask_device_id: "BBBBBBBB".to_string(),
        }),
        Message::DesktopConnectOfferResp(DesktopConnectOfferResp {
            agree: true,
            password_auth_public_key_n: vec![0x01],
            password_auth_public_key_e: vec![0x01, 0x00, 0x01],
        }),
        Message::DesktopConnectAskReq(DesktopConnectAskReq {
            offer_device_id: "AAAAAAAA".to_string(),
        }),
        Message::DesktopConnectAskResp(DesktopConnectAskResp {
            agree: false,
            password_auth_public_key_n: vec![],
            password_auth_public_key_e: vec![255, 254],
        }),
        Message::DesktopConnectOfferAuthReq(DesktopConnectOfferAuthReq {
            offer_device_id: "AAAAAAAA".to_string(),
            ask_device_id: "BBBBBBBB".to_string(),
            secret_message: vec![9, 8, 7],
        }),
        Message::DesktopConnectOfferAuthResp(DesktopConnectOfferAuthResp {
            password_correct: true,
        }),
        Message::DesktopConnectAskAuthReq(DesktopConnectAskAuthReq {
            offer_device_id: "AAAAAAAA".to_string(),
            secret_message: vec![],
        }),
        Message::DesktopConnectAskAuthResp(DesktopConnectAskAuthResp {
            password_correct: false,
        }),
    ]
}

#[test]
fn every_message_variant_roundtrips() {
    for m in all_message_variants() {
        let mut buf: Vec<u8> = Vec::new();
        write_message(&mut buf, &m);
        let (back, end) = read_message(&buf, 0).expect("decode");
        assert_eq!(back, m);
        assert_eq!(end, buf.len());
    }
}

#[test]
fn every_packet_variant_roundtrips() {
    let packets = vec![
        ControlPacket::Request(7, Message::HeartBeatReq(HeartBeatReq { time_stamp: 1700000000 })),
        ControlPacket::Request(0, Message::NoMessage),
        ControlPacket::Reply(
            7,
            Ok(Message::HeartBeatResp(HeartBeatResp { time_stamp: 1700000001 })),
        ),
        ControlPacket::Reply(5, Err(MessageError::RemoteClientOfflineOrNotExist)),
        ControlPacket::ClientToClient {
            call_id: 3,
            from_device_id: "AAAAAAAA".to_string(),
            to_device_id: "BBBBBBBB".to_string(),
            is_secure: true,
            payload: vec![1, 2, 3, 4],
        },
    ];
    for p in packets {
        let bytes = encode_packet(&p);
        let back = decode_packet(&bytes).expect("decode");
        assert_eq!(back, p);
    }
}

#[test]
fn unicode_strings_roundtrip() {
    let m = Message::DesktopConnectAskReq(DesktopConnectAskReq {
        offer_device_id: "héllo wörld ✓".to_string(),
    });
    let mut buf: Vec<u8> = Vec::new();
    write_message(&mut buf, &m);
    let (back, _) = read_message(&buf, 0).expect("decode");
    assert_eq!(back, m);
}

#[test]
fn trailing_bytes_are_rejected() {
    let p = ControlPacket::Request(1, Message::NoMessage);
    let mut bytes = encode_packet(&p);
    bytes.push(0);
    assert!(decode_packet(&bytes).is_none());
}

#[test]
fn unknown_tags_are_rejected() {
    assert!(decode_packet(&vec![9, 1, 0]).is_none());
    assert!(read_message(&vec![200], 0).is_none());
    assert!(decode_packet(&vec![]).is_none());
}

#[test]
fn invalid_utf8_in_a_string_field_is_rejected() {
    // Tag 8 is an ask request: a string field follows.  A two-byte
    // blob holding 0xFF 0xFE is not valid UTF-8.
    let bytes = vec![8u8, 2, 0xFF, 0xFE];
    assert!(read_message(&bytes, 0).is_none());
    // The same bytes as a valid ASCII string decode fine.
    let ok = vec![8u8, 2, b'h', b'i'];
    match read_message(&ok, 0) {
        Some((Message::DesktopConnectAskReq(a), 4)) => assert_eq!(a.offer_device_id, "hi"),
        other => panic!("expected an ask request, got {:?}", other),
    }
}
