use swb::console::{
    console_handshake, console_payload, parse_envelope, read_message_size, ConsoleError,
    READ_TIMEOUT_SECS,
};

/// An envelope `{type: 2, payload: {data: [1, 2, 3], nick: null}}`.
fn replay_message() -> Vec<u8> {
    let mut b: Vec<u8> = vec![0x7B];
    b.extend_from_slice(&[0x69, 0x04, 0x74, 0x79, 0x70, 0x65]); // "type"
    b.extend_from_slice(&[0x69, 0x02]); // 2
    b.extend_from_slice(&[0x69, 0x07, 0x70, 0x61, 0x79, 0x6C, 0x6F, 0x61, 0x64]); // "payload"
    b.push(0x7B);
    b.extend_from_slice(&[0x69, 0x04, 0x64, 0x61, 0x74, 0x61]); // "data"
    b.extend_from_slice(&[0x5B, 0x24, 0x55, 0x23, 0x69, 0x03, 1, 2, 3]); // [$U# 3 bytes]
    b.extend_from_slice(&[0x69, 0x04, 0x6E, 0x69, 0x63, 0x6B]); // "nick"
    b.push(0x5A); // null
    b.push(0x7D);
    b.push(0x7D);
    b
}

#[test]
fn console_constants() {
    assert_eq!(READ_TIMEOUT_SECS, 5);
}

#[test]
fn handshake_is_the_fixed_83_bytes() {
    let h = console_handshake();
    assert_eq!(h.len(), 83);
    assert_eq!(&h[0..4], &[0x00, 0x00, 0x00, 0x4F]);
    assert_eq!(h[4], 0x7B);
    assert_eq!(&h[7..11], b"type");
    assert_eq!(h[82], 0x7D);
}

#[test]
fn message_size_is_big_endian() {
    assert_eq!(read_message_size(&[0x00, 0x00, 0x00, 0x4F]), 79);
    assert_eq!(read_message_size(&[0x01, 0x02, 0x03, 0x04]), 0x01020304);
}

#[test]
fn handshake_body_parses_as_an_envelope_without_data() {
    // past its length prefix, the handshake is itself an envelope: type 1,
    // payload without a data field
    let h = console_handshake();
    let body = h[4..].to_vec();
    let (ty, payload) = parse_envelope(&body).unwrap();
    assert_eq!(ty, 1);
    assert_eq!(payload, Some(None));
    assert_eq!(console_payload(&body), Ok(None));
}

#[test]
fn replay_data_is_extracted() {
    let msg = replay_message();
    let (ty, payload) = parse_envelope(&msg).unwrap();
    assert_eq!(ty, 2);
    assert_eq!(payload, Some(Some(vec![1, 2, 3])));
    assert_eq!(console_payload(&msg), Ok(Some(vec![1, 2, 3])));
}

#[test]
fn plain_data_array_is_accepted() {
    let mut b: Vec<u8> = vec![0x7B];
    b.extend_from_slice(&[0x69, 0x04, 0x74, 0x79, 0x70, 0x65, 0x69, 0x02]);
    b.extend_from_slice(&[0x69, 0x07, 0x70, 0x61, 0x79, 0x6C, 0x6F, 0x61, 0x64, 0x7B]);
    b.extend_from_slice(&[0x69, 0x04, 0x64, 0x61, 0x74, 0x61]);
    b.extend_from_slice(&[0x5B, 0x69, 0x05, 0x69, 0x06, 0x5D]); // [5, 6]
    b.extend_from_slice(&[0x7D, 0x7D]);
    assert_eq!(console_payload(&b), Ok(Some(vec![5, 6])));
}

#[test]
fn empty_data_yields_nothing() {
    let mut b: Vec<u8> = vec![0x7B];
    b.extend_from_slice(&[0x69, 0x04, 0x74, 0x79, 0x70, 0x65, 0x69, 0x03]);
    b.extend_from_slice(&[0x69, 0x07, 0x70, 0x61, 0x79, 0x6C, 0x6F, 0x61, 0x64, 0x7B]);
    b.extend_from_slice(&[0x69, 0x04, 0x64, 0x61, 0x74, 0x61]);
    b.extend_from_slice(&[0x5B, 0x24, 0x55, 0x23, 0x69, 0x00]); // zero bytes
    b.extend_from_slice(&[0x7D, 0x7D]);
    assert_eq!(console_payload(&b), Ok(None));
}

#[test]
fn missing_payload_yields_nothing() {
    // {type: 3}: a keep-alive without payload
    let b: Vec<u8> = vec![0x7B, 0x69, 0x04, 0x74, 0x79, 0x70, 0x65, 0x69, 0x03, 0x7D];
    let (ty, payload) = parse_envelope(&b).unwrap();
    assert_eq!(ty, 3);
    assert_eq!(payload, None);
    assert_eq!(console_payload(&b), Ok(None));
}

#[test]
fn garbage_is_a_decode_error() {
    assert_eq!(console_payload(&vec![1, 2, 3]), Err(ConsoleError::DecodeError));
    assert_eq!(console_payload(&Vec::new()), Err(ConsoleError::DecodeError));
    // an envelope without a type field is rejected
    let b: Vec<u8> = vec![0x7B, 0x7D];
    assert_eq!(console_payload(&b), Err(ConsoleError::DecodeError));
    // truncated mid-key
    let b: Vec<u8> = vec![0x7B, 0x69, 0x04, 0x74, 0x79];
    assert_eq!(console_payload(&b), Err(ConsoleError::DecodeError));
}

#[test]
fn big_endian_lengths_in_envelopes() {
    // a string field with an int16 length, skipped correctly
    let mut b: Vec<u8> = vec![0x7B];
    b.extend_from_slice(&[0x69, 0x04, 0x74, 0x79, 0x70, 0x65, 0x69, 0x01]);
    b.extend_from_slice(&[0x69, 0x04, 0x6E, 0x69, 0x63, 0x6B]); // "nick"
    b.extend_from_slice(&[0x53, 0x49, 0x00, 0x02, 0x41, 0x42]); // S, int16 len 2, "AB"
    b.push(0x7D);
    let (ty, payload) = parse_envelope(&b).unwrap();
    assert_eq!(ty, 1);
    assert_eq!(payload, None);
}
