use mcdebug_launcher::rcon::{body_length, body_length_of, decode_body, encode_packet, i32_le_bytes, is_rejected, TYPE_COMMAND};

#[test]
fn test_packet_length_math() {
    let payload = "stop";
    let expected = body_length(payload.len());
    assert_eq!(expected, 14);
}

#[test]
fn test_auth_reject_detection() {
    let id: i32 = -1;
    assert_eq!(i32_le_bytes(id), [0xFFu8, 0xFF, 0xFF, 0xFF]);
    assert!(is_rejected(id));
    assert!(!is_rejected(7));
}

#[test]
fn packet_roundtrip() {
    let p = encode_packet(7, TYPE_COMMAND, b"list");
    assert_eq!(p.len(), 18);
    assert_eq!(&p[..4], &[14, 0, 0, 0]);
    assert_eq!(body_length_of(&p[..4]), Some(14));
    let (id, t, payload) = decode_body(&p[4..]);
    assert_eq!((id, t, payload.as_slice()), (7, TYPE_COMMAND, &b"list"[..]));
    assert_eq!(body_length_of(&[9, 0, 0, 0]), None);
    assert_eq!(body_length_of(&[0xff, 0xff, 0xff, 0xff]), None);
}
