use rocketmq_client::codec::encode_frame;
use rocketmq_client::error::ClientError;
use rocketmq_client::frame::{Frame, Language, OpaqueSequence, RequestCode};
use rocketmq_client::stream::ReceiveBuffer;

#[test]
fn whole_frame_at_once() {
    let bytes = encode_frame(b"{\"code\":0}", b"body").unwrap();
    let mut buffer = ReceiveBuffer::new();
    assert_eq!(buffer.feed(&bytes).unwrap(), true);
    let raw = buffer.parse_frame().unwrap().unwrap();
    assert_eq!(raw.header, b"{\"code\":0}".to_vec());
    assert_eq!(raw.body, b"body".to_vec());
    assert!(buffer.is_empty());
    assert!(buffer.parse_frame().unwrap().is_none());
}

#[test]
fn partial_delivery_gives_the_same_frame() {
    let bytes = encode_frame(b"{\"code\":105}", b"payload").unwrap();
    for cut_a in 0..bytes.len() {
        for cut_b in cut_a..bytes.len() {
            let mut buffer = ReceiveBuffer::new();
            for chunk in [&bytes[..cut_a], &bytes[cut_a..cut_b], &bytes[cut_b..]] {
                assert!(buffer.parse_frame().unwrap().is_none());
                if !chunk.is_empty() {
                    assert_eq!(buffer.feed(chunk).unwrap(), true);
                }
            }
            let raw = buffer.parse_frame().unwrap().unwrap();
            assert_eq!(raw.header, b"{\"code\":105}".to_vec());
            assert_eq!(raw.body, b"payload".to_vec());
            assert!(buffer.is_empty());
        }
    }
}

#[test]
fn bytes_after_a_frame_stay_for_the_next_call() {
    let mut bytes = encode_frame(b"{\"opaque\":1}", b"").unwrap();
    let second = encode_frame(b"{\"opaque\":2}", b"x").unwrap();
    bytes.extend_from_slice(&second);
    let mut buffer = ReceiveBuffer::new();
    buffer.feed(&bytes).unwrap();
    let first = buffer.parse_frame().unwrap().unwrap();
    assert_eq!(first.header, b"{\"opaque\":1}".to_vec());
    let next = buffer.parse_frame().unwrap().unwrap();
    assert_eq!(next.header, b"{\"opaque\":2}".to_vec());
    assert_eq!(next.body, b"x".to_vec());
    assert!(buffer.parse_frame().unwrap().is_none());
}

#[test]
fn end_of_stream_with_empty_buffer_is_clean() {
    let mut buffer = ReceiveBuffer::new();
    assert_eq!(buffer.feed(&[]).unwrap(), false);
}

#[test]
fn end_of_stream_with_partial_frame_is_reset() {
    let bytes = encode_frame(b"{}", b"abc").unwrap();
    let mut buffer = ReceiveBuffer::new();
    buffer.feed(&bytes[..5]).unwrap();
    assert!(buffer.parse_frame().unwrap().is_none());
    assert!(matches!(buffer.feed(&[]), Err(ClientError::ConnectionReset)));
    assert!(!buffer.is_empty());
}

#[test]
fn malformed_frame_is_an_error_and_keeps_the_bytes() {
    let mut buffer = ReceiveBuffer::new();
    buffer.feed(&[0, 0, 0, 1, 9]).unwrap();
    assert!(matches!(buffer.parse_frame(), Err(ClientError::InvalidFrame(_))));
    assert!(matches!(buffer.parse_frame(), Err(ClientError::InvalidFrame(_))));
}

#[test]
fn route_request_example() {
    let mut seq = OpaqueSequence::new();
    let mut frame = Frame::new(&mut seq);
    frame.code = RequestCode::GetRouteInfoByTopic.code();
    frame.language = Language::CPP;
    frame.put_ext_field("topic", "T1");
    let header = format!(
        "{{\"code\":{},\"language\":\"{}\",\"version\":0,\"opaque\":{},\"flag\":0,\"extFields\":{{\"topic\":\"{}\"}}}}",
        frame.code,
        frame.language.name(),
        frame.opaque,
        frame.ext_fields.get("topic").unwrap()
    );
    let bytes = frame.encode(header.as_bytes()).unwrap();
    let total = i32::from_be_bytes([bytes[0], bytes[1], bytes[2], bytes[3]]);
    assert_eq!(total as usize, 4 + header.len() + 0);

    let mut buffer = ReceiveBuffer::new();
    buffer.feed(&bytes).unwrap();
    let raw = buffer.parse_frame().unwrap().unwrap();
    let value: serde_json::Value = serde_json::from_slice(&raw.header).unwrap();
    assert_eq!(value.get("code").and_then(|v| v.as_i64()), Some(105));
    assert_eq!(
        value.get("extFields").and_then(|v| v.get("topic")).and_then(|v| v.as_str()),
        Some("T1")
    );
    assert!(raw.body.is_empty());
}
