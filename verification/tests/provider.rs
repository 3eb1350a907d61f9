use tau_runtime_core::message::{Address, Message, MessagePayload};
use tau_runtime_core::provider::{
    agent_messages_to_provider_messages, content_to_value, flatten_content_to_string,
    tool_result_payload, value_to_preview_string, ContentBlock, ProviderMessage, ToolContent,
};

fn msg(id: &str, sender: Address, recipient: Address, payload: MessagePayload) -> Message {
    Message { id: id.into(), timestamp_millis: 0, sender, recipient, payload }
}

fn text_of(c: &[ContentBlock]) -> &str {
    match c {
        [ContentBlock::Text(t)] => t.as_str(),
        _ => panic!("expected one text block"),
    }
}

#[test]
fn preview_of_string_is_its_text() {
    assert_eq!(value_to_preview_string("\"hello\""), "hello");
    assert_eq!(value_to_preview_string("\"a\\nb\""), "a\nb");
}

#[test]
fn preview_of_other_values_is_their_json() {
    assert_eq!(value_to_preview_string("null"), "null");
    assert_eq!(value_to_preview_string("true"), "true");
    assert_eq!(value_to_preview_string("42"), "42");
    assert_eq!(value_to_preview_string("{\"a\":1}"), "{\"a\":1}");
}

#[test]
fn flatten_joins_text_and_json_lines() {
    let blocks = vec![
        ToolContent::Text { text: "first".into() },
        ToolContent::Other { kind: "image".into() },
        ToolContent::Json { data: "\"second\"".into() },
        ToolContent::Json { data: "[1,2]".into() },
    ];
    assert_eq!(flatten_content_to_string(&blocks), "first\nsecond\n[1,2]");
    assert_eq!(flatten_content_to_string(&[]), "");
    let leading_empty = vec![
        ToolContent::Text { text: "".into() },
        ToolContent::Text { text: "x".into() },
    ];
    assert_eq!(flatten_content_to_string(&leading_empty), "x");
}

#[test]
fn content_to_value_lone_json_block_is_the_value() {
    let blocks = vec![ToolContent::Json { data: "{\"ok\":true}".into() }];
    assert_eq!(content_to_value(&blocks), "{\"ok\":true}");
}

#[test]
fn content_to_value_wraps_other_outputs() {
    let blocks = vec![
        ToolContent::Text { text: "say \"hi\"".into() },
        ToolContent::Json { data: "1".into() },
        ToolContent::Other { kind: "image".into() },
    ];
    let v = content_to_value(&blocks);
    assert_eq!(v, "{\"content\":[\"say \\\"hi\\\"\",1,null]}");
    let parsed: serde_json::Value = serde_json::from_str(&v).unwrap();
    assert_eq!(parsed["content"][0], "say \"hi\"");
    assert_eq!(content_to_value(&[]), "{\"content\":[]}");
    let text_only = vec![ToolContent::Text { text: "t".into() }];
    assert_eq!(content_to_value(&text_only), "{\"content\":[\"t\"]}");
}

#[test]
fn tool_result_payload_by_outcome() {
    let blocks = vec![ToolContent::Text { text: "boom".into() }];
    match tool_result_payload(true, &blocks, "tool_runtime_error") {
        MessagePayload::ToolError { kind, message, details } => {
            assert_eq!(kind, "tool_runtime_error");
            assert_eq!(message, "boom");
            assert!(details.is_none());
        }
        other => panic!("unexpected {other:?}"),
    }
    match tool_result_payload(false, &blocks, "tool_runtime_error") {
        MessagePayload::ToolResult { body } => assert_eq!(body, "{\"content\":[\"boom\"]}"),
        other => panic!("unexpected {other:?}"),
    }
}

#[test]
fn projection_maps_each_kind_of_message() {
    let history = vec![
        msg("s", Address::System, Address::Agent(1), MessagePayload::Text { content: "sys".into() }),
        msg("u", Address::User, Address::Agent(1), MessagePayload::Text { content: "hi".into() }),
        msg("a", Address::Agent(1), Address::User, MessagePayload::Text { content: "hello".into() }),
        msg(
            "c",
            Address::Agent(1),
            Address::Tool("echo".into()),
            MessagePayload::ToolCall { args: "{\"x\":1}".into() },
        ),
        msg(
            "r",
            Address::Tool("echo".into()),
            Address::Agent(1),
            MessagePayload::ToolResult { body: "\"done\"".into() },
        ),
        msg(
            "e",
            Address::Tool("echo".into()),
            Address::Agent(1),
            MessagePayload::ToolError { kind: "k".into(), message: "bad".into(), details: None },
        ),
        msg("l", Address::Agent(1), Address::User, MessagePayload::Lifecycle("{}".into())),
    ];
    let out = agent_messages_to_provider_messages(&history);
    assert_eq!(out.len(), 5);
    match &out[0] {
        ProviderMessage::User { content } => assert_eq!(text_of(content), "hi"),
        other => panic!("unexpected {other:?}"),
    }
    match &out[1] {
        ProviderMessage::Assistant { content } => assert_eq!(text_of(content), "hello"),
        other => panic!("unexpected {other:?}"),
    }
    match &out[2] {
        ProviderMessage::Assistant { content } => match content.as_slice() {
            [ContentBlock::ToolUse(u)] => {
                assert_eq!(u.id, "toolu_c");
                assert_eq!(u.name, "echo");
                assert_eq!(u.input, "{\"x\":1}");
            }
            other => panic!("unexpected {other:?}"),
        },
        other => panic!("unexpected {other:?}"),
    }
    match &out[3] {
        ProviderMessage::ToolResult { tool_use_id, content, is_error } => {
            assert_eq!(tool_use_id, "toolu_r");
            assert_eq!(text_of(content), "done");
            assert!(!is_error);
        }
        other => panic!("unexpected {other:?}"),
    }
    match &out[4] {
        ProviderMessage::ToolResult { tool_use_id, content, is_error } => {
            assert_eq!(tool_use_id, "toolu_e");
            assert_eq!(text_of(content), "bad");
            assert!(is_error);
        }
        other => panic!("unexpected {other:?}"),
    }
}

#[test]
fn tool_call_to_non_tool_recipient_has_empty_name() {
    let history = vec![msg(
        "c",
        Address::Agent(1),
        Address::User,
        MessagePayload::ToolCall { args: "{}".into() },
    )];
    let out = agent_messages_to_provider_messages(&history);
    match &out[0] {
        ProviderMessage::Assistant { content } => match content.as_slice() {
            [ContentBlock::ToolUse(u)] => assert_eq!(u.name, ""),
            other => panic!("unexpected {other:?}"),
        },
        other => panic!("unexpected {other:?}"),
    }
}

#[test]
fn text_blocks_are_escaped_as_serde_json_writes_them() {
    let blocks = vec![ToolContent::Text { text: "a\"b\\c\nd\te\u{1}f\u{8}é".into() }];
    assert_eq!(content_to_value(&blocks), "{\"content\":[\"a\\\"b\\\\c\\nd\\te\\u0001f\\bé\"]}");
}
