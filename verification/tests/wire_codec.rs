//! The binary wire codec: exact bytes for each message, round trips, and
//! rejection of malformed frames.

use bonfire::proto::EventMessage;
use bonfire::proto::GatewayClientEvent;
use bonfire::proto::GatewayHandshake;
use bonfire::proto::GatewayIdentify;
use bonfire::proto::GatewayServerEvent;
use bonfire::wire::decode_client_event;
use bonfire::wire::decode_handshake;
use bonfire::wire::decode_identify;
use bonfire::wire::decode_server_event;
use bonfire::wire::encode_client_event;
use bonfire::wire::encode_handshake;
use bonfire::wire::encode_identify;
use bonfire::wire::encode_server_event;
use bonfire::wire::push_varint;
use bonfire::wire::take_varint;

#[test]
fn varint_exact_bytes_and_round_trip() {
    let mut out = Vec::new();
    push_varint(&mut out, 0);
    push_varint(&mut out, 1);
    push_varint(&mut out, 127);
    push_varint(&mut out, 128);
    push_varint(&mut out, 300);
    assert_eq!(out, vec![0, 1, 127, 0x80, 0x01, 0xAC, 0x02]);

    assert_eq!(take_varint(&out, 0), Some((0, 1)));
    assert_eq!(take_varint(&out, 3), Some((128, 5)));
    assert_eq!(take_varint(&out, 5), Some((300, 7)));

    let mut big = Vec::new();
    push_varint(&mut big, u64::MAX);
    assert_eq!(take_varint(&big, 0), Some((u64::MAX, big.len())));
}

#[test]
fn varint_rejects_truncated_and_non_minimal() {
    assert_eq!(take_varint(&vec![], 0), None);
    assert_eq!(take_varint(&vec![0x80], 0), None, "truncated");
    assert_eq!(take_varint(&vec![0x80, 0x00], 0), None, "non-minimal");
}

#[test]
fn identify_exact_bytes() {
    let m = GatewayIdentify {
        token: "a".to_string(),
        client_agent: "b".to_string(),
        capabilities: 5,
    };
    let bytes = encode_identify(&m);
    assert_eq!(bytes, vec![0x0A, 1, b'a', 0x12, 1, b'b', 0x18, 5]);
}

#[test]
fn identify_round_trip() {
    let m = GatewayIdentify {
        token: "SECRET-REDACTED".to_string(),
        client_agent: "verus test client \u{263a}".to_string(),
        capabilities: 300,
    };
    let bytes = encode_identify(&m);
    let back = decode_identify(&bytes).expect("the canonical encoding decodes");
    assert_eq!(back.token, m.token);
    assert_eq!(back.client_agent, m.client_agent);
    assert_eq!(back.capabilities, m.capabilities);
}

#[test]
fn identify_rejects_malformed() {
    assert!(decode_identify(&vec![]).is_none());
    assert!(decode_identify(&vec![0x0A]).is_none(), "truncated field");
    assert!(decode_identify(&vec![0x12, 1, b'b']).is_none(), "wrong leading tag");
    let m = GatewayIdentify {
        token: "t".to_string(),
        client_agent: "c".to_string(),
        capabilities: 1,
    };
    let mut bytes = encode_identify(&m);
    bytes.push(0);
    assert!(decode_identify(&bytes).is_none(), "trailing garbage");
    let bytes = encode_identify(&m);
    assert!(decode_identify(&bytes[..bytes.len() - 1].to_vec()).is_none(), "truncated frame");
    // An invalid UTF-8 token payload: tag, length 1, byte 0xFF.
    assert!(decode_identify(&vec![0x0A, 1, 0xFF, 0x12, 0, 0x18, 0]).is_none());
}

#[test]
fn handshake_round_trip() {
    let m = GatewayHandshake { version: "0.0.0".to_string() };
    let bytes = encode_handshake(&m);
    assert_eq!(bytes, vec![0x0A, 5, b'0', b'.', b'0', b'.', b'0']);
    let back = decode_handshake(&bytes).expect("decodes");
    assert_eq!(back.version, "0.0.0");
    assert!(decode_handshake(&vec![0x0A]).is_none());
}

#[test]
fn server_event_round_trip() {
    let m = GatewayServerEvent::MessageCreated(EventMessage {
        channel: 3,
        author: 42,
        timestamp_ms: 1000,
        content: "hello <@7>".to_string(),
    });
    let bytes = encode_server_event(&m);
    match decode_server_event(&bytes).expect("decodes") {
        GatewayServerEvent::MessageCreated(em) => {
            assert_eq!(em.channel, 3);
            assert_eq!(em.author, 42);
            assert_eq!(em.timestamp_ms, 1000);
            assert_eq!(em.content, "hello <@7>");
        }
        _ => panic!("the discriminator distinguishes created from edited"),
    }

    let edited = GatewayServerEvent::MessageEdited(EventMessage {
        channel: 1,
        author: 2,
        timestamp_ms: 3,
        content: String::new(),
    });
    let bytes = encode_server_event(&edited);
    assert!(matches!(
        decode_server_event(&bytes),
        Some(GatewayServerEvent::MessageEdited(_))
    ));
    assert!(decode_server_event(&vec![9, 9, 9]).is_none());
}

#[test]
fn client_event_round_trip() {
    let m = GatewayClientEvent::CreateMessage { channel: 7, content: "hi".to_string() };
    let bytes = encode_client_event(&m);
    match decode_client_event(&bytes).expect("decodes") {
        GatewayClientEvent::CreateMessage { channel, content } => {
            assert_eq!(channel, 7);
            assert_eq!(content, "hi");
        }
        _ => panic!("wrong variant"),
    }

    let m = GatewayClientEvent::EditMessage {
        channel: 7,
        timestamp_ms: 99,
        content: "fixed".to_string(),
    };
    let bytes = encode_client_event(&m);
    match decode_client_event(&bytes).expect("decodes") {
        GatewayClientEvent::EditMessage { channel, timestamp_ms, content } => {
            assert_eq!(channel, 7);
            assert_eq!(timestamp_ms, 99);
            assert_eq!(content, "fixed");
        }
        _ => panic!("wrong variant"),
    }
    assert!(decode_client_event(&vec![]).is_none());
    assert!(decode_client_event(&vec![0x1A, 0]).is_none(), "unknown variant tag");
}
