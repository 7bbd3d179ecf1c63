use airic_mesh::app_message::{decode_received_message, recover_first_contact_message, ApplicationMessage};
use airic_mesh::errors::MeshError;
use airic_mesh::frame::{decode_frame, encode_frame};
use airic_mesh::invitation::{encode_invitation, parse_invitation};
use airic_mesh::use_cases::select_one_time_key;

#[test]
fn encode_invitation_exact_text() {
    let text = encode_invitation(5, "ikey", "otkey");
    assert_eq!(
        text,
        "{\"device_id\":\"00000000000000000000000000000005\",\"identity_key\":\"ikey\",\"one_time_key\":\"otkey\"}"
    );
}

#[test]
fn invitation_round_trip() {
    let id: u128 = 0x0123456789abcdef0123456789abcdef;
    let text = encode_invitation(id, "aGVsbG8", "d29ybGQ=");
    let inv = parse_invitation(&text).expect("a written invitation must read back");
    assert_eq!(inv.device_id, id);
    assert_eq!(inv.identity_key, "aGVsbG8");
    assert_eq!(inv.one_time_key, "d29ybGQ=");
}

#[test]
fn invitation_missing_field_rejected() {
    // no one_time_key field at all
    let text = "{\"device_id\":\"00000000000000000000000000000005\",\"identity_key\":\"ikey\"}";
    assert!(parse_invitation(text).is_none());
    // device id is not 32 hex digits
    let text2 = "{\"device_id\":\"zz\",\"identity_key\":\"a\",\"one_time_key\":\"b\"}";
    assert!(parse_invitation(text2).is_none());
    // empty text
    assert!(parse_invitation("").is_none());
    // upper-case hex digits are not the canonical form
    let text3 = encode_invitation(10, "a", "b").replace("0000000000000000000000000000000a", "0000000000000000000000000000000A");
    assert!(parse_invitation(&text3).is_none());
}

#[test]
fn frame_exact_text() {
    assert_eq!(encode_frame(0x12, "hello"), "0000000000000012hello");
    assert_eq!(encode_frame(0, ""), "0000000000000000");
}

#[test]
fn frame_round_trip() {
    let text = encode_frame(1718000000123, "{\"type\":\"greeting\"}");
    let (ts, payload) = decode_frame(&text).expect("a written frame must read back");
    assert_eq!(ts, 1718000000123);
    assert_eq!(payload, "{\"type\":\"greeting\"}");
}

#[test]
fn frame_rejects_short_or_bad_text() {
    assert!(decode_frame("").is_none());
    assert!(decode_frame("0123").is_none());
    assert!(decode_frame("xxxxxxxxxxxxxxxxpayload").is_none());
}

#[test]
fn application_message_frame_round_trip() {
    let m = ApplicationMessage { payload: "{\"a\":1}".to_string(), timestamp: 42 };
    let frame = m.to_frame();
    let back = ApplicationMessage::from_frame(&frame).expect("frame must read back");
    assert_eq!(back.payload, "{\"a\":1}");
    assert_eq!(back.timestamp, 42);
    // the empty handshake plaintext is no frame
    assert!(ApplicationMessage::from_frame("").is_none());
}

#[test]
fn received_message_decoding_and_first_contact_recovery() {
    // a decrypted frame reads back exactly
    let frame = encode_frame(99, "\"hi\"");
    let m = decode_received_message(&frame).expect("a frame decodes");
    assert_eq!(m.timestamp, 99);
    assert_eq!(m.payload, "\"hi\"");
    // a plaintext that is no frame is a serialization failure
    assert!(matches!(decode_received_message(""), Err(MeshError::Serialization)));

    // first contact: a frame is taken as is, anything else becomes the
    // null-payload placeholder with the fallback time
    let got = recover_first_contact_message(&frame, 5);
    assert_eq!(got.timestamp, 99);
    assert_eq!(got.payload, "\"hi\"");
    let fallback = recover_first_contact_message("", 5);
    assert_eq!(fallback.payload, "null");
    assert_eq!(fallback.timestamp, 5);
}

#[test]
fn one_time_key_selection() {
    let keys = vec!["first".to_string(), "second".to_string()];
    let picked = select_one_time_key(&keys).expect("a non-empty batch yields a key");
    assert_eq!(picked, "first");
    let empty: Vec<String> = vec![];
    assert!(matches!(select_one_time_key(&empty), Err(MeshError::Cryptography)));
}
