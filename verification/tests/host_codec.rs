use module_runtime::host::{maxval_decodable, maxval_decode, maxval_encode, HostError};

#[test]
fn encode_plain_bytes() {
    let mut out = [0u8; 8];
    assert_eq!(maxval_encode(&[1, 2, 3], &mut out, 254), Ok(4));
    assert_eq!(out, [1, 2, 3, 0xff, 0, 0, 0, 0]);
}

#[test]
fn encode_escapes_high_bytes() {
    let mut out = [0u8; 8];
    assert_eq!(maxval_encode(&[253, 254, 255], &mut out, 254), Ok(6));
    assert_eq!(out, [253, 254, 0, 254, 1, 0xff, 0, 0]);
}

#[test]
fn encode_nothing() {
    let mut out = [7u8; 4];
    assert_eq!(maxval_encode(&[], &mut out, 254), Err(HostError::NoData));
    assert_eq!(out, [7; 4]);
}

#[test]
fn encode_needs_two_bytes_of_room_for_each_byte() {
    let mut out = [0u8; 3];
    assert_eq!(maxval_encode(&[1, 2], &mut out, 254), Ok(3));
    assert_eq!(out, [1, 2, 0xff]);
    let mut out = [0u8; 3];
    assert_eq!(maxval_encode(&[1, 2, 3], &mut out, 254), Err(HostError::DataTooLong));
    assert_eq!(out, [1, 2, 0]);
}

#[test]
fn encode_without_room_for_the_terminator() {
    let mut out = [0u8; 2];
    assert_eq!(maxval_encode(&[255], &mut out, 254), Err(HostError::DataTooLong));
    assert_eq!(out, [254, 1]);
}

#[test]
fn encode_into_one_byte() {
    let mut out = [9u8; 1];
    assert_eq!(maxval_encode(&[1], &mut out, 254), Err(HostError::DataTooLong));
    assert_eq!(out, [9]);
}

#[test]
fn decode_plain_bytes() {
    let mut out = [0u8; 8];
    assert_eq!(maxval_decode(&[1, 2, 3, 0xff], &mut out, 254), Ok(3));
    assert_eq!(out, [1, 2, 3, 0xff, 0, 0, 0, 0]);
}

#[test]
fn decode_escaped_bytes() {
    let mut out = [0u8; 8];
    assert_eq!(maxval_decode(&[253, 254, 0, 254, 1, 0xff], &mut out, 254), Ok(3));
    assert_eq!(out, [253, 254, 255, 0xff, 0, 0, 0, 0]);
}

#[test]
fn decode_nothing() {
    let mut out = [7u8; 4];
    assert_eq!(maxval_decode(&[], &mut out, 254), Err(HostError::NoData));
    assert_eq!(out, [7; 4]);
}

#[test]
fn decode_into_short_buffer() {
    let mut out = [0u8; 2];
    assert_eq!(maxval_decode(&[1, 2, 3, 0xff], &mut out, 254), Err(HostError::DataTooLong));
    assert_eq!(out, [1, 2]);
}

#[test]
fn decode_fills_the_buffer_exactly() {
    let mut out = [0u8; 4];
    assert_eq!(maxval_decode(&[1, 2, 3, 0xff], &mut out, 254), Ok(3));
    assert_eq!(out, [1, 2, 3, 0xff]);
}

#[test]
fn codec_round_trip() {
    let message: Vec<u8> = (0..=255u8).step_by(5).chain([254, 255, 0, 253]).collect();
    let mut wire = [0u8; 128];
    let n = maxval_encode(&message, &mut wire, 254).unwrap();
    assert!(wire[..n - 1].iter().all(|b| *b <= 254));
    assert_eq!(wire[n - 1], 0xff);
    let mut back = [0u8; 128];
    let m = maxval_decode(&wire[..n], &mut back, 254).unwrap();
    assert_eq!(&back[..m], message.as_slice());
}

#[test]
fn decodable_messages() {
    assert!(maxval_decodable(&[], 4, 254));
    assert!(maxval_decodable(&[1, 2, 0xff], 4, 254));
    assert!(maxval_decodable(&[254, 1, 0xff], 4, 254));
    assert!(maxval_decodable(&[1, 2, 3], 0, 254));
}

#[test]
fn messages_that_cannot_be_decoded() {
    assert!(!maxval_decodable(&[254, 2, 0xff], 4, 254));
    assert!(!maxval_decodable(&[254], 4, 254));
    assert!(!maxval_decodable(&[254, 254], 4, 254));
    assert!(maxval_decodable(&[1, 254, 2], 1, 254));
    assert!(!maxval_decodable(&[1, 254, 2], 2, 254));
}
