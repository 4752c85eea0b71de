use chat_backend::frames::{outbound_frame, parse_inbound};
use chat_backend::route_handlers::rooms::MessagePayload;

fn text(content: &str) -> String {
    content.to_string()
}

#[test]
fn inbound_frame_is_an_object_with_text_content() {
    assert_eq!(parse_inbound(r#"{"content":"hi"}"#), Some(text("hi")));
    assert_eq!(parse_inbound(r#" { "content" : "hi there" , "extra": 1 } "#), Some(text("hi there")));
    assert_eq!(parse_inbound(r#"{"content":""}"#), Some(text("")));
    assert_eq!(parse_inbound(r#"{"content":"a\"b\n"}"#), Some(text("a\"b\n")));
}

#[test]
fn malformed_inbound_frames_have_no_content() {
    assert_eq!(parse_inbound(""), None);
    assert_eq!(parse_inbound("hi"), None);
    assert_eq!(parse_inbound(r#""content""#), None);
    assert_eq!(parse_inbound(r#"["content"]"#), None);
    assert_eq!(parse_inbound(r#"{"content":5}"#), None);
    assert_eq!(parse_inbound(r#"{"content":null}"#), None);
    assert_eq!(parse_inbound(r#"{"Content":"hi"}"#), None);
    assert_eq!(parse_inbound(r#"{"content":"hi""#), None);
    assert_eq!(parse_inbound("content"), None);
}

#[test]
fn outbound_frame_is_exact() {
    assert_eq!(
        outbound_frame("00000000-0000-0000-0000-000000000001", Some("alice"), "hi", 0),
        Some(text(
            r#"{"senderId":"00000000-0000-0000-0000-000000000001","username":"alice","content":"hi","createdAt":"1970-01-01T00:00:00Z"}"#
        ))
    );
    assert_eq!(
        outbound_frame("s", None, "a \"quoted\" word", 1_546_300_800),
        Some(text(
            r#"{"senderId":"s","content":"a \"quoted\" word","createdAt":"2019-01-01T00:00:00Z"}"#
        ))
    );
}

#[test]
fn outbound_frame_needs_a_presentable_time() {
    assert_eq!(outbound_frame("s", Some("n"), "c", i64::MAX), None);
    assert_eq!(outbound_frame("s", None, "c", 253_402_300_800), None);
}

#[test]
fn payload_renders_as_its_frame() {
    let payload =
        MessagePayload { sender_id: text("me"), username: text("alice"), content: text("hi") };
    assert_eq!(
        payload.frame(60),
        Some(text(
            r#"{"senderId":"me","username":"alice","content":"hi","createdAt":"1970-01-01T00:01:00Z"}"#
        ))
    );
    assert_eq!(payload.frame(60), outbound_frame("me", Some("alice"), "hi", 60));
    assert_eq!(payload.frame(i64::MIN), None);
}

#[test]
fn outbound_frame_reads_back_as_json() {
    let frame = outbound_frame("me", Some("alice"), "hi", 60).unwrap();
    let value: serde_json::Value = serde_json::from_str(&frame).unwrap();
    assert_eq!(value["senderId"], "me");
    assert_eq!(value["username"], "alice");
    assert_eq!(value["content"], "hi");
    assert_eq!(value["createdAt"], "1970-01-01T00:01:00Z");
    assert_eq!(parse_inbound(&frame), Some(text("hi")));
}
