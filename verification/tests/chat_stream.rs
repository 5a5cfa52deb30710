//! Translation of a Responses API event stream into Chat Completions chunks.

use codex_chat_compat::chat_stream::{ChatStreamState, ChunkKind, Frame, StreamEvent, StreamOutput, StreamResponse};
use codex_chat_compat::json::{JsonNumber, JsonValue};
use codex_chat_compat::protocol::TokenUsage;

fn member<'a>(value: &'a JsonValue, key: &str) -> Option<&'a JsonValue> {
    match value {
        JsonValue::Object(members) => members.iter().find(|(k, _)| k == key).map(|(_, v)| v),
        _ => None,
    }
}

fn jstr(s: &str) -> JsonValue {
    JsonValue::Str(s.to_string())
}

fn event(kind: &str) -> StreamEvent {
    StreamEvent { kind: kind.to_string(), response: None, delta: None, item_id: None, call_id: None }
}

fn body(out: &StreamOutput) -> &JsonValue {
    match out {
        StreamOutput::Chunk { body, .. } => body,
        StreamOutput::Done => panic!("expected a chunk"),
    }
}

fn kind(out: &StreamOutput) -> Option<ChunkKind> {
    match out {
        StreamOutput::Chunk { kind, .. } => Some(*kind),
        StreamOutput::Done => None,
    }
}

fn first_choice(out: &StreamOutput) -> &JsonValue {
    match member(body(out), "choices") {
        Some(JsonValue::Array(items)) => &items[0],
        other => panic!("no choices: {other:?}"),
    }
}

#[test]
fn created_event_sends_role_with_response_id() {
    let mut st = ChatStreamState::with_created("gpt-4".to_string(), 1700000000);
    let mut ev = event("response.created");
    ev.response = Some(StreamResponse { id: Some("resp_1".to_string()), end_turn: None, usage: None });
    let out = st.convert_event(&ev);
    assert_eq!(out.len(), 1);
    assert_eq!(kind(&out[0]), Some(ChunkKind::Role));
    assert_eq!(member(body(&out[0]), "id"), Some(&jstr("chatcmpl-resp_1")));
    assert_eq!(member(body(&out[0]), "object"), Some(&jstr("chat.completion.chunk")));
    assert_eq!(member(body(&out[0]), "created"), Some(&JsonValue::Number(JsonNumber::Unsigned(1700000000))));
    assert_eq!(member(body(&out[0]), "model"), Some(&jstr("gpt-4")));
    let delta = member(first_choice(&out[0]), "delta").unwrap();
    assert_eq!(member(delta, "role"), Some(&jstr("assistant")));
    assert_eq!(member(first_choice(&out[0]), "finish_reason"), Some(&JsonValue::Null));
    assert!(st.first_delta_sent);
}

#[test]
fn text_delta_sends_role_first_once() {
    let mut st = ChatStreamState::with_created("m".to_string(), 1);
    let mut ev = event("response.output_text.delta");
    ev.delta = Some("Hi".to_string());
    let out = st.convert_event(&ev);
    assert_eq!(out.iter().map(kind).collect::<Vec<_>>(), vec![Some(ChunkKind::Role), Some(ChunkKind::Content)]);
    assert_eq!(member(body(&out[0]), "id"), Some(&jstr("chatcmpl-unknown")));
    let delta = member(first_choice(&out[1]), "delta").unwrap();
    assert_eq!(member(delta, "content"), Some(&jstr("Hi")));
    let out = st.convert_event(&ev);
    assert_eq!(out.iter().map(kind).collect::<Vec<_>>(), vec![Some(ChunkKind::Content)]);
}

#[test]
fn tool_call_delta_uses_call_or_item_id() {
    let mut st = ChatStreamState::with_created("m".to_string(), 1);
    let mut ev = event("response.custom_tool_call_input.delta");
    ev.item_id = Some("item_9".to_string());
    ev.delta = Some("{\"a\":".to_string());
    let out = st.convert_event(&ev);
    assert_eq!(out.len(), 1);
    let delta = member(first_choice(&out[0]), "delta").unwrap();
    let calls = match member(delta, "tool_calls") {
        Some(JsonValue::Array(calls)) => calls,
        other => panic!("no tool calls: {other:?}"),
    };
    assert_eq!(member(&calls[0], "id"), Some(&jstr("item_9")));
    assert_eq!(member(&calls[0], "type"), Some(&jstr("function")));
    let function = member(&calls[0], "function").unwrap();
    assert_eq!(member(function, "arguments"), Some(&jstr("{\"a\":")));
    let mut ev = event("response.custom_tool_call_input.delta");
    ev.call_id = Some("call_1".to_string());
    ev.item_id = Some("item_9".to_string());
    let out = st.convert_event(&ev);
    let delta = member(first_choice(&out[0]), "delta").unwrap();
    if let Some(JsonValue::Array(calls)) = member(delta, "tool_calls") {
        assert_eq!(member(&calls[0], "id"), Some(&jstr("call_1")));
        let function = member(&calls[0], "function").unwrap();
        assert_eq!(member(function, "arguments"), Some(&jstr("")));
    } else {
        panic!("no tool calls");
    }
    let out = st.convert_event(&event("response.custom_tool_call_input.delta"));
    let delta = member(first_choice(&out[0]), "delta").unwrap();
    if let Some(JsonValue::Array(calls)) = member(delta, "tool_calls") {
        assert_eq!(member(&calls[0], "id"), Some(&jstr("unknown")));
    } else {
        panic!("no tool calls");
    }
}

#[test]
fn completed_event_finishes_with_usage_and_done() {
    let mut st = ChatStreamState::with_created("m".to_string(), 1);
    let mut ev = event("response.completed");
    ev.response = Some(StreamResponse {
        id: Some("r".to_string()),
        end_turn: Some(false),
        usage: Some(TokenUsage {
            input_tokens: 10,
            cached_input_tokens: 0,
            output_tokens: 5,
            reasoning_output_tokens: 0,
            total_tokens: 15,
        }),
    });
    let out = st.convert_event(&ev);
    assert_eq!(out.len(), 3);
    assert_eq!(kind(&out[0]), Some(ChunkKind::Finish));
    assert_eq!(member(first_choice(&out[0]), "finish_reason"), Some(&jstr("length")));
    assert_eq!(member(body(&out[0]), "id"), Some(&jstr("chatcmpl-r")));
    assert_eq!(kind(&out[1]), Some(ChunkKind::Usage));
    let usage = member(body(&out[1]), "usage").unwrap();
    assert_eq!(member(usage, "prompt_tokens"), Some(&JsonValue::Number(JsonNumber::Signed(10))));
    assert_eq!(member(usage, "completion_tokens"), Some(&JsonValue::Number(JsonNumber::Signed(5))));
    assert_eq!(member(usage, "total_tokens"), Some(&JsonValue::Number(JsonNumber::Signed(15))));
    assert_eq!(out[2], StreamOutput::Done);
    assert!(st.completed_sent);
}

#[test]
fn completed_without_end_turn_stops() {
    let mut st = ChatStreamState::with_created("m".to_string(), 1);
    let mut ev = event("response.completed");
    ev.response = Some(StreamResponse { id: None, end_turn: None, usage: None });
    let out = st.convert_event(&ev);
    assert_eq!(out.len(), 2);
    assert_eq!(member(first_choice(&out[0]), "finish_reason"), Some(&jstr("stop")));
    assert_eq!(out[1], StreamOutput::Done);
    // A completion without a response sends nothing.
    let mut st = ChatStreamState::with_created("m".to_string(), 1);
    assert!(st.convert_event(&event("response.completed")).is_empty());
    assert!(!st.completed_sent);
}

#[test]
fn other_events_are_ignored() {
    let mut st = ChatStreamState::with_created("m".to_string(), 1);
    assert!(st.convert_event(&event("response.in_progress")).is_empty());
    assert!(!st.first_delta_sent);
}

#[test]
fn sse_events_are_framed_by_blank_lines() {
    let mut st = ChatStreamState::with_created("m".to_string(), 1);
    st.push_text("event: x\n");
    st.push_text("data: {\"a\":1}\n");
    assert_eq!(st.parse_sse_event(), None);
    assert_eq!(st.buffer, "event: x\ndata: {\"a\":1}\n");
    st.push_text("\n");
    st.push_text("data: second\n");
    assert_eq!(st.parse_sse_event(), Some("{\"a\":1}".to_string()));
    assert_eq!(st.buffer, "data: second\n");
    st.push_text("\r\n");
    assert_eq!(st.parse_sse_event(), Some("second".to_string()));
    assert_eq!(st.buffer, "");
}

#[test]
fn last_data_line_wins_and_empty_events_are_skipped() {
    let mut st = ChatStreamState::with_created("m".to_string(), 1);
    st.push_text("\n\ndata: one\ndata: two\n\n");
    assert_eq!(st.parse_sse_event(), Some("two".to_string()));
}

#[test]
fn frames_are_written_until_done() {
    let mut st = ChatStreamState::with_created("m".to_string(), 1);
    let mut out = String::new();
    let stop = st.write_frames(&mut out, &vec![Frame::Chunk("{}".to_string())]);
    assert!(!stop);
    assert_eq!(out, "data: {}\n\n");
    let stop = st.write_frames(
        &mut out,
        &vec![Frame::Chunk("{\"x\":1}".to_string()), Frame::Done, Frame::Chunk("late".to_string())],
    );
    assert!(stop);
    assert!(st.completed_sent);
    assert_eq!(out, "data: {}\n\ndata: {\"x\":1}\n\ndata: [DONE]\n\n");
}

#[test]
fn frames_pause_after_four_kilobytes() {
    let mut st = ChatStreamState::with_created("m".to_string(), 1);
    let mut out = String::new();
    let big = "a".repeat(4090);
    assert!(st.write_frames(&mut out, &vec![Frame::Chunk(big)]));
    assert!(!st.completed_sent);
    let mut st = ChatStreamState::with_created("m".to_string(), 1);
    let mut out = String::new();
    assert!(!st.write_frames(&mut out, &vec![Frame::Chunk("a".repeat(4088))]));
    assert_eq!(out.len(), 4096);
}

#[test]
fn finish_reports_missing_done_once() {
    let mut st = ChatStreamState::with_created("m".to_string(), 1);
    assert!(st.finish());
    assert!(!st.finish());
}

#[test]
fn new_stream_is_stamped_now() {
    let before = std::time::SystemTime::now().duration_since(std::time::UNIX_EPOCH).unwrap().as_secs();
    let st = ChatStreamState::new("m".to_string());
    assert!(st.created >= before);
    assert_eq!(st.response_id, None);
}
