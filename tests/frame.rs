use rocketmq_client::ext_fields::ExtFields;
use rocketmq_client::frame::{Frame, Language, OpaqueSequence, RequestCode, Type};
use rocketmq_client::protocol::GetRouteInfoRequestHeader;

#[test]
fn test_new() {
    let mut seq = OpaqueSequence::new();
    let frame_0 = Frame::new(&mut seq);
    let frame_1 = Frame::new(&mut seq);
    assert_eq!(frame_0.opaque < frame_1.opaque, true);
}

#[test]
fn opaque_sequence_starts_at_zero_and_counts_up() {
    let mut seq = OpaqueSequence::new();
    let ids: Vec<i32> = (0..5).map(|_| Frame::new(&mut seq).opaque).collect();
    assert_eq!(ids, vec![0, 1, 2, 3, 4]);
    assert_eq!(seq.next_opaque(), 5);
}

#[test]
fn test_type() {
    let mut seq = OpaqueSequence::new();
    let mut frame = Frame::new(&mut seq);
    assert_eq!(frame.frame_type(), Type::Request);

    frame.mark_response_type();
    assert_eq!(frame.frame_type(), Type::Response);
}

#[test]
fn mark_response_type_is_idempotent() {
    let mut seq = OpaqueSequence::new();
    let mut frame = Frame::new(&mut seq);
    frame.flag = 6;
    frame.mark_response_type();
    assert_eq!(frame.flag, 7);
    frame.mark_response_type();
    assert_eq!(frame.flag, 7);
    assert_eq!(frame.frame_type(), Type::Response);
}

#[test]
fn frame_type_reads_bit_zero_only() {
    let mut seq = OpaqueSequence::new();
    let mut frame = Frame::new(&mut seq);
    frame.flag = 2;
    assert_eq!(frame.frame_type(), Type::Request);
    frame.flag = -1;
    assert_eq!(frame.frame_type(), Type::Response);
}

#[test]
fn test_add_ext_headers() {
    let header = GetRouteInfoRequestHeader::new("Test");
    let mut seq = OpaqueSequence::new();
    let mut frame = Frame::new(&mut seq);
    frame.add_ext_headers(header.into());
    assert_eq!(frame.ext_fields.len(), 1);
}

#[test]
fn add_ext_headers_prefers_new_values() {
    let mut seq = OpaqueSequence::new();
    let mut frame = Frame::new(&mut seq);
    frame.put_ext_field("topic", "old");
    frame.put_ext_field("keep", "k");
    let mut header = ExtFields::new();
    header.insert("topic".to_string(), "new".to_string());
    header.insert("extra".to_string(), "e".to_string());
    frame.add_ext_headers(header);
    assert_eq!(frame.ext_fields.len(), 3);
    assert_eq!(frame.ext_fields.get("topic"), Some(&"new".to_string()));
    assert_eq!(frame.ext_fields.get("keep"), Some(&"k".to_string()));
    assert_eq!(frame.ext_fields.get("extra"), Some(&"e".to_string()));
}

#[test]
fn put_ext_field_replaces_value() {
    let mut seq = OpaqueSequence::new();
    let mut frame = Frame::new(&mut seq);
    frame.put_ext_field("topic", "T1");
    frame.put_ext_field("topic", "T2");
    assert_eq!(frame.ext_fields.len(), 1);
    assert_eq!(frame.ext_fields.get("topic"), Some(&"T2".to_string()));
    assert_eq!(frame.ext_fields.get("missing"), None);
}

#[test]
fn new_frame_defaults() {
    let mut seq = OpaqueSequence::new();
    let frame = Frame::new(&mut seq);
    assert_eq!(frame.code, 0);
    assert_eq!(frame.language, Language::RUST);
    assert_eq!(frame.version, 0);
    assert_eq!(frame.flag, 0);
    assert_eq!(frame.remark(), "");
    assert!(frame.ext_fields.is_empty());
    assert!(frame.body().is_empty());
}

#[test]
fn language_names_and_request_codes() {
    assert_eq!(Language::JAVA.name(), "JAVA");
    assert_eq!(Language::CPP.name(), "CPP");
    assert_eq!(Language::RUST.name(), "RUST");
    assert_eq!(Language::default(), Language::RUST);
    assert_eq!(RequestCode::GetRouteInfoByTopic.code(), 105);
    assert_eq!(RequestCode::SendMessage.code(), 10);
}

#[test]
fn body_and_remark_getters_copy_fields() {
    let mut seq = OpaqueSequence::new();
    let mut frame = Frame::new(&mut seq);
    frame.body = b"Test Body".to_vec();
    frame.remark = "note".to_string();
    assert_eq!(frame.body(), b"Test Body".to_vec());
    assert_eq!(frame.remark(), "note");
}

#[test]
fn ext_fields_pairs_list_each_key_once() {
    let mut fields = ExtFields::new();
    fields.insert("a".to_string(), "1".to_string());
    fields.insert("b".to_string(), "2".to_string());
    fields.insert("a".to_string(), "3".to_string());
    let mut pairs = fields.pairs().clone();
    pairs.sort();
    assert_eq!(
        pairs,
        vec![("a".to_string(), "3".to_string()), ("b".to_string(), "2".to_string())]
    );
}
