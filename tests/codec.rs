use rocketmq_client::codec::{check, encode_frame, parse, put_u32, read_i32, Error};
use rocketmq_client::error::ClientError;
use rocketmq_client::frame::{Frame, OpaqueSequence};

#[test]
fn encode_lays_out_lengths_header_and_body() {
    let bytes = encode_frame(b"{}", b"xyz").unwrap();
    assert_eq!(bytes, vec![0, 0, 0, 9, 0, 0, 0, 2, b'{', b'}', b'x', b'y', b'z']);
}

#[test]
fn frame_encode_appends_body_after_header() {
    let mut seq = OpaqueSequence::new();
    let mut frame = Frame::new(&mut seq);
    frame.body = b"Test Body".to_vec();
    let bytes = frame.encode(b"{\"code\":10}").unwrap();
    assert_eq!(&bytes[0..4], &[0, 0, 0, 24]);
    assert_eq!(&bytes[4..8], &[0, 0, 0, 11]);
    assert_eq!(&bytes[8..19], b"{\"code\":10}");
    assert_eq!(&bytes[19..], b"Test Body");
}

#[test]
fn round_trip_of_header_and_body() {
    let header = b"{\"code\":1,\"language\":\"JAVA\"}".to_vec();
    let body = vec![0u8, 255, 7, 1];
    let bytes = encode_frame(&header, &body).unwrap();
    assert_eq!(check(&bytes).unwrap(), bytes.len());
    let raw = parse(&bytes).unwrap();
    assert_eq!(raw.header, header);
    assert_eq!(raw.body, body);
}

#[test]
fn round_trip_with_empty_body() {
    let bytes = encode_frame(b"{}", b"").unwrap();
    let raw = parse(&bytes).unwrap();
    assert_eq!(raw.header, b"{}".to_vec());
    assert!(raw.body.is_empty());
}

#[test]
fn check_reports_incomplete() {
    assert!(matches!(check(&[]), Err(Error::Incomplete)));
    assert!(matches!(check(&[0, 0, 0]), Err(Error::Incomplete)));
    assert!(matches!(check(&[0, 0, 0, 9, 0, 0, 0, 2, b'{']), Err(Error::Incomplete)));
}

#[test]
fn check_rejects_short_or_negative_length() {
    assert!(matches!(
        check(&[0, 0, 0, 2, 0, 0]),
        Err(Error::Other(ClientError::InvalidFrame(_)))
    ));
    assert!(matches!(
        check(&[0xff, 0xff, 0xff, 0xff, 0, 0, 0, 0]),
        Err(Error::Other(ClientError::InvalidFrame(_)))
    ));
}

#[test]
fn check_counts_only_the_first_frame() {
    let mut bytes = encode_frame(b"{}", b"a").unwrap();
    let first = bytes.len();
    bytes.extend_from_slice(&[0, 0]);
    assert_eq!(check(&bytes).unwrap(), first);
}

#[test]
fn parse_rejects_header_longer_than_frame() {
    let bytes = [0, 0, 0, 6, 0, 0, 0, 3, b'a', b'b'];
    assert!(matches!(parse(&bytes), Err(ClientError::InvalidFrame(_))));
    let negative = [0, 0, 0, 6, 0xff, 0xff, 0xff, 0xff, b'a', b'b'];
    assert!(matches!(parse(&negative), Err(ClientError::InvalidFrame(_))));
}

#[test]
fn parse_rejects_incomplete_frame() {
    assert!(matches!(parse(&[0, 0, 0, 9, 0, 0, 0, 2]), Err(ClientError::InvalidFrame(_))));
}

#[test]
fn big_endian_integers() {
    let mut out = Vec::new();
    put_u32(&mut out, 0x0102_0304);
    assert_eq!(out, vec![1, 2, 3, 4]);
    assert_eq!(read_i32(&[9, 0x80, 0, 0, 1], 1), i32::MIN + 1);
    assert_eq!(read_i32(&[0, 0, 1, 0], 0), 256);
}
