use bytes::BytesMut;
use wire_frame::{
    decode_frame, decode_header, encode_frame, encode_header, FrameError, COMPRESSION_BIT,
    COMPRESSION_LIMIT, LEN_SIZE, MAX_FRAME,
};

fn header_of(buf: &[u8]) -> usize {
    u32::from_be_bytes([buf[0], buf[1], buf[2], buf[3]]) as usize
}

#[test]
fn unpack_header_values() {
    assert_eq!(decode_header(0x8000_0005), (5, true));
    assert_eq!(decode_header(0x0000_0005), (5, false));
    assert_eq!(decode_header(0), (0, false));
    assert_eq!(decode_header(0xFFFF_FFFF), (0x7FFF_FFFF, true));
}

#[test]
fn pack_header_sets_flag_and_keeps_length() {
    let h = encode_header(2000, true);
    assert!(h & 0x8000_0000 != 0);
    assert_eq!(h & 0x7FFF_FFFF, 2000);
    assert_eq!(h, 0x8000_07D0);
    assert_eq!(encode_header(2000, false), 2000);
}

#[test]
fn header_round_trip_samples() {
    for &len in &[0usize, 1, 1436, 1437, 65_535, 0x7FFF_FFFF] {
        for &c in &[false, true] {
            assert_eq!(decode_header(encode_header(len, c)), (len, c));
        }
    }
}

#[test]
fn small_message_is_framed_raw() {
    let msg = [0xAAu8; 10];
    let mut buf = BytesMut::new();
    assert_eq!(encode_frame(&msg, &mut buf), Ok(()));
    let mut expected = vec![0x00, 0x00, 0x00, 0x0A];
    expected.extend_from_slice(&[0xAA; 10]);
    assert_eq!(&buf[..], &expected[..]);
    assert_eq!(decode_frame(&mut buf), Ok(msg.to_vec()));
    assert!(buf.is_empty());
}

#[test]
fn compressible_message_is_framed_compressed() {
    let msg = vec![0u8; 2000];
    let mut buf = BytesMut::new();
    assert_eq!(encode_frame(&msg, &mut buf), Ok(()));
    let header = header_of(&buf);
    assert!(header & COMPRESSION_BIT != 0);
    let len = header & !COMPRESSION_BIT;
    assert!(len < 2000);
    assert_eq!(buf.len(), LEN_SIZE + len);
    assert_ne!(&buf[LEN_SIZE..], &msg[..]);
    assert_eq!(decode_frame(&mut buf), Ok(msg));
    assert!(buf.is_empty());
}

#[test]
fn compression_starts_above_the_limit() {
    let at_limit: Vec<u8> = (0..COMPRESSION_LIMIT).map(|i| (i % 251) as u8).collect();
    let mut buf = BytesMut::new();
    encode_frame(&at_limit, &mut buf).unwrap();
    assert_eq!(header_of(&buf), COMPRESSION_LIMIT);
    assert_eq!(decode_frame(&mut buf), Ok(at_limit));

    let above: Vec<u8> = (0..COMPRESSION_LIMIT + 1).map(|i| (i % 251) as u8).collect();
    let mut buf = BytesMut::new();
    encode_frame(&above, &mut buf).unwrap();
    assert!(header_of(&buf) & COMPRESSION_BIT != 0);
    assert_eq!(decode_frame(&mut buf), Ok(above));
    assert!(buf.is_empty());
}

#[test]
fn empty_message_round_trips() {
    let mut buf = BytesMut::new();
    encode_frame(&[], &mut buf).unwrap();
    assert_eq!(&buf[..], &[0, 0, 0, 0]);
    assert_eq!(decode_frame(&mut buf), Ok(Vec::new()));
}

#[test]
fn oversized_message_is_refused_without_writing() {
    let msg = vec![0u8; MAX_FRAME + 1];
    let mut buf = BytesMut::from(&[1u8, 2, 3][..]);
    assert_eq!(encode_frame(&msg, &mut buf), Err(FrameError::FrameTooLarge));
    assert_eq!(&buf[..], &[1, 2, 3]);
}

#[test]
fn truncated_payload_is_refused() {
    let mut buf = BytesMut::from(&[0u8, 0, 0, 10, 1, 2, 3, 4, 5][..]);
    assert_eq!(decode_frame(&mut buf), Err(FrameError::TruncatedInput));
    assert_eq!(buf.len(), 9);

    let mut buf = BytesMut::from(&[0x80u8, 0, 0, 3, 1][..]);
    assert_eq!(decode_frame(&mut buf), Err(FrameError::TruncatedInput));
}

#[test]
fn short_header_is_refused() {
    let mut buf = BytesMut::from(&[0u8, 0, 1][..]);
    assert_eq!(decode_frame(&mut buf), Err(FrameError::TruncatedInput));
    let mut buf = BytesMut::new();
    assert_eq!(decode_frame(&mut buf), Err(FrameError::TruncatedInput));
}

#[test]
fn corrupt_compressed_payload_is_refused() {
    let mut buf = BytesMut::from(&[0x80u8, 0, 0, 4, 1, 2, 3, 4][..]);
    assert_eq!(decode_frame(&mut buf), Err(FrameError::DecompressionFailure));
    assert_eq!(buf.len(), 8);
}

#[test]
fn frames_decode_in_order_and_leave_the_rest() {
    let first = vec![7u8; 3];
    let second = vec![9u8; 5000];
    let mut buf = BytesMut::new();
    encode_frame(&first, &mut buf).unwrap();
    encode_frame(&second, &mut buf).unwrap();
    buf.extend_from_slice(&[0, 0]);
    assert_eq!(decode_frame(&mut buf), Ok(first));
    assert_eq!(decode_frame(&mut buf), Ok(second));
    assert_eq!(&buf[..], &[0, 0]);
}

#[test]
fn encoding_appends_to_existing_bytes() {
    let mut buf = BytesMut::from(&[5u8, 6][..]);
    encode_frame(&[1, 2], &mut buf).unwrap();
    assert_eq!(&buf[..], &[5, 6, 0, 0, 0, 2, 1, 2]);
}
