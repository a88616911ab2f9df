use pty_session::codec::codec_round_trip;
use pty_session::codec::decode_chunk;
use pty_session::codec::encode_chunk;

#[test]
fn encode_exact_values() {
    assert_eq!(encode_chunk(b"hi"), "aGk=");
    assert_eq!(encode_chunk(b"Man"), "TWFu");
    assert_eq!(encode_chunk(b""), "");
}

#[test]
fn encode_is_not_identity() {
    assert_ne!(encode_chunk(b"hi"), "hi");
    assert_ne!(encode_chunk(b"abcd"), "abcd");
}

#[test]
fn round_trip_text() {
    let bytes = b"echo hi\r\nhi\r\n".to_vec();
    let encoded = encode_chunk(&bytes);
    assert_eq!(decode_chunk(&encoded), Some(bytes));
}

#[test]
fn round_trip_empty() {
    let encoded = encode_chunk(b"");
    assert_eq!(decode_chunk(&encoded), Some(Vec::new()));
}

#[test]
fn round_trip_binary() {
    let bytes = vec![0u8, 255, 254, 10, 13, 27, 128, 7];
    let encoded = encode_chunk(&bytes);
    assert!(encoded.is_ascii());
    assert_eq!(decode_chunk(&encoded), Some(bytes));
}

#[test]
fn round_trip_function() {
    let bytes = vec![0x1b, b'[', b'3', b'1', b'm', 0xC3, 0x28];
    assert_eq!(codec_round_trip(&bytes), bytes);
}

#[test]
fn decode_rejects_garbage() {
    assert_eq!(decode_chunk("!!!"), None);
    assert_eq!(decode_chunk("aGk"), None);
}
