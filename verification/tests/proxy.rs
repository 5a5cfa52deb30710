//! The proxy's routing and forwarding rules.

use codex_chat_compat::chat_to_responses::ConversionError;
use codex_chat_compat::chat_types::FinishReason;
use codex_chat_compat::json::JsonValue;
use codex_chat_compat::protocol::{ContentItem, ResponseItem};
use codex_chat_compat::proxy::{
    chat_response_from_upstream, conversion_failure_body, error_body, forbidden_body, forwards_request_header,
    forwards_response_header, is_shutdown_request, passes_upstream_error, refusal_status, route_request,
    upstream_host_header, ProxyRoute, Refusal, UpstreamResponse,
};

fn error_json(message: &str) -> JsonValue {
    JsonValue::Object(vec![("error".to_string(), JsonValue::Str(message.to_string()))])
}

#[test]
fn routes() {
    assert_eq!(route_request("POST", "/v1/responses"), ProxyRoute::Responses);
    assert_eq!(route_request("POST", "/v1/chat/completions"), ProxyRoute::ChatCompletions);
    assert_eq!(route_request("GET", "/v1/responses"), ProxyRoute::Forbidden);
    assert_eq!(route_request("POST", "/v1/other"), ProxyRoute::Forbidden);
    assert_eq!(route_request("post", "/v1/responses"), ProxyRoute::Forbidden);
}

#[test]
fn shutdown_only_when_enabled() {
    assert!(is_shutdown_request(true, "GET", "/shutdown"));
    assert!(!is_shutdown_request(false, "GET", "/shutdown"));
    assert!(!is_shutdown_request(true, "POST", "/shutdown"));
}

#[test]
fn request_headers_drop_credentials_and_host() {
    assert!(!forwards_request_header("Authorization"));
    assert!(!forwards_request_header("HOST"));
    assert!(forwards_request_header("content-type"));
    assert!(forwards_request_header("x-request-id"));
}

#[test]
fn response_headers_drop_hop_by_hop() {
    for name in ["content-length", "transfer-encoding", "connection", "trailer", "upgrade"] {
        assert!(!forwards_response_header(name));
    }
    assert!(forwards_response_header("content-type"));
}

#[test]
fn host_header_from_url_parts() {
    assert_eq!(upstream_host_header(Some("api.example.com"), None), Some("api.example.com".to_string()));
    assert_eq!(upstream_host_header(Some("127.0.0.1"), Some(8080)), Some("127.0.0.1:8080".to_string()));
    assert_eq!(upstream_host_header(None, Some(80)), None);
}

#[test]
fn error_bodies() {
    assert_eq!(error_body("invalid JSON: x".to_string()), error_json("invalid JSON: x"));
    assert_eq!(forbidden_body(), error_json("forbidden: route not supported"));
    assert_eq!(
        conversion_failure_body(&ConversionError::MissingToolCallId),
        error_json("conversion failed: tool message missing tool_call_id")
    );
    assert_eq!(
        conversion_failure_body(&ConversionError::InvalidRole("bot".to_string())),
        error_json("conversion failed: invalid role: bot")
    );
}

#[test]
fn upstream_errors_pass_through() {
    assert!(passes_upstream_error(400));
    assert!(passes_upstream_error(429));
    assert!(passes_upstream_error(599));
    assert!(!passes_upstream_error(200));
    assert!(!passes_upstream_error(399));
    assert!(!passes_upstream_error(600));
}

#[test]
fn non_streaming_response_defaults() {
    let resp = UpstreamResponse {
        id: "r1".to_string(),
        model: None,
        created_at: Some(42),
        output: vec![ResponseItem::Message {
            id: None,
            role: "assistant".to_string(),
            content: vec![ContentItem::OutputText { text: "hi".to_string() }],
            phase: None,
        }],
        status: None,
        usage: None,
    };
    let chat = chat_response_from_upstream(&resp, "gpt");
    assert_eq!(chat.id, "chatcmpl-r1");
    assert_eq!(chat.created, 42);
    assert_eq!(chat.model, "gpt");
    assert_eq!(chat.choices[0].finish_reason, FinishReason::Stop);
    assert_eq!(chat.choices[0].message.content, Some("hi".to_string()));
    let incomplete = UpstreamResponse { status: Some("incomplete".to_string()), created_at: None, ..resp };
    let chat = chat_response_from_upstream(&incomplete, "gpt");
    assert_eq!(chat.choices[0].finish_reason, FinishReason::Length);
    assert!(chat.created > 0);
}

#[test]
fn refusals_answer_the_documented_statuses() {
    assert_eq!(refusal_status(Refusal::UnsupportedRoute), 403);
    assert_eq!(refusal_status(Refusal::InvalidJson), 400);
    assert_eq!(refusal_status(Refusal::ConversionFailed), 400);
}
