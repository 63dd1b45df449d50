//! The wire framing of byte payloads: exact bytes, round trips, and
//! agreement with the serializer the library delegates to.

use wasmworker::convert::{from_bytes, to_bytes, try_from_bytes};

#[test]
fn encodes_empty_payload_as_zero_length_varint() {
    let encoded = to_bytes(&vec![]);
    assert_eq!(encoded, vec![0u8]);
}

#[test]
fn encodes_short_payload_as_length_then_bytes() {
    let encoded = to_bytes(&vec![8, 1, 5, 0, 4]);
    assert_eq!(encoded, vec![5u8, 8, 1, 5, 0, 4]);
}

#[test]
fn encodes_len_127_with_one_varint_byte() {
    let payload = vec![7u8; 127];
    let encoded = to_bytes(&payload);
    assert_eq!(encoded[0], 127);
    assert_eq!(&encoded[1..], &payload[..]);
}

#[test]
fn encodes_len_128_with_two_varint_bytes() {
    let payload = vec![9u8; 128];
    let encoded = to_bytes(&payload);
    assert_eq!(encoded[0], 0x80);
    assert_eq!(encoded[1], 0x01);
    assert_eq!(&encoded[2..], &payload[..]);
}

#[test]
fn agrees_with_postcard_on_byte_vectors() {
    for payload in [vec![], vec![1u8], vec![8, 1, 5, 0, 4], vec![3u8; 300]] {
        let ours = to_bytes(&payload);
        let theirs = postcard::to_allocvec(&payload).unwrap();
        assert_eq!(ours, theirs);
    }
}

#[test]
fn round_trips_payloads() {
    for payload in [vec![], vec![0u8], vec![8, 1, 5, 0, 4], vec![0xffu8; 200]] {
        let encoded = to_bytes(&payload);
        let decoded = from_bytes(&encoded);
        assert_eq!(decoded, payload);
    }
}

#[test]
fn checked_decoder_accepts_exactly_the_valid_encodings() {
    // A valid encoding decodes to its payload.
    let encoded = to_bytes(&vec![8, 1, 5, 0, 4]);
    assert_eq!(try_from_bytes(&encoded), Some(vec![8, 1, 5, 0, 4]));
    assert_eq!(try_from_bytes(&[0u8]), Some(vec![]));

    // A truncated frame encodes nothing.
    assert_eq!(try_from_bytes(&[5u8, 8, 1]), None);
    // An empty input encodes nothing (even the empty payload takes one byte).
    assert_eq!(try_from_bytes(&[]), None);
    // Trailing bytes after a complete frame are rejected too.
    assert_eq!(try_from_bytes(&[1u8, 7, 7]), None);
    // An unterminated varint encodes nothing.
    assert_eq!(try_from_bytes(&[0x80u8]), None);
}
