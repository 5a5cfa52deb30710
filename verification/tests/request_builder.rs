//! Building Chat Completions requests and the streaming client.

use codex_chat_compat::chat_to_responses::function_choice_from_literal;
use codex_chat_compat::endpoint::{with_event_stream_accept, ChatClient};
use codex_chat_compat::json::JsonValue;
use codex_chat_compat::protocol::{
    ContentItem, FunctionCallOutputBody, FunctionCallOutputContentItem, FunctionCallOutputPayload,
    ReasoningItemContent, ResponseItem,
};
use codex_chat_compat::request_builder::{
    arguments_json_value, ChatRequestBuilder, Provider, SessionSource, SubAgentSource,
};

fn jstr(s: &str) -> JsonValue {
    JsonValue::Str(s.to_string())
}

fn obj(members: Vec<(&str, JsonValue)>) -> JsonValue {
    JsonValue::Object(members.into_iter().map(|(k, v)| (k.to_string(), v)).collect())
}

fn member<'a>(value: &'a JsonValue, key: &str) -> Option<&'a JsonValue> {
    match value {
        JsonValue::Object(members) => members.iter().find(|(k, _)| k == key).map(|(_, v)| v),
        _ => None,
    }
}

fn provider() -> Provider {
    Provider { name: "p".to_string(), base_url: "http://localhost".to_string(), stream_idle_timeout_ms: 1000 }
}

fn messages(body: &JsonValue) -> &Vec<JsonValue> {
    match member(body, "messages") {
        Some(JsonValue::Array(items)) => items,
        other => panic!("no messages: {other:?}"),
    }
}

#[test]
fn body_holds_model_messages_and_stream() {
    let input = vec![
        ResponseItem::Message {
            id: None,
            role: "user".to_string(),
            content: vec![
                ContentItem::InputText { text: "a".to_string() },
                ContentItem::InputImage { image_url: "u".to_string(), detail: None },
                ContentItem::InputText { text: "b".to_string() },
            ],
            phase: None,
        },
        ResponseItem::Message {
            id: None,
            role: "developer".to_string(),
            content: vec![ContentItem::InputText { text: "c".to_string() }],
            phase: None,
        },
        ResponseItem::Message {
            id: None,
            role: "assistant".to_string(),
            content: vec![ContentItem::OutputText { text: "ignored".to_string() }],
            phase: None,
        },
    ];
    let req = ChatRequestBuilder::new("gpt", "be nice", &input, &[]).build(&provider()).unwrap();
    assert_eq!(member(&req.body, "model"), Some(&jstr("gpt")));
    assert_eq!(member(&req.body, "stream"), Some(&JsonValue::Bool(true)));
    assert_eq!(member(&req.body, "tools"), None);
    assert_eq!(
        *messages(&req.body),
        vec![
            obj(vec![("role", jstr("system")), ("content", jstr("be nice"))]),
            obj(vec![("role", jstr("user")), ("content", jstr("a\nb"))]),
            obj(vec![("role", jstr("user")), ("content", jstr("c"))]),
        ]
    );
    assert!(req.headers.is_empty());
}

#[test]
fn function_calls_outputs_and_reasoning() {
    let input = vec![
        ResponseItem::FunctionCall {
            id: None,
            name: "f".to_string(),
            namespace: None,
            arguments: "{\"x\":1}".to_string(),
            call_id: "c1".to_string(),
        },
        ResponseItem::FunctionCall {
            id: None,
            name: "g".to_string(),
            namespace: None,
            arguments: "not json".to_string(),
            call_id: "c2".to_string(),
        },
        ResponseItem::FunctionCallOutput {
            call_id: "c1".to_string(),
            output: FunctionCallOutputPayload {
                body: FunctionCallOutputBody::ContentItems(vec![
                    FunctionCallOutputContentItem::InputText { text: "t".to_string() },
                    FunctionCallOutputContentItem::InputImage { image_url: "img".to_string(), detail: None },
                    FunctionCallOutputContentItem::EncryptedContent { encrypted_content: "e".to_string() },
                ]),
                success: None,
            },
        },
        ResponseItem::Reasoning {
            id: "r".to_string(),
            summary: vec![],
            content: Some(vec![ReasoningItemContent::ReasoningText { text: "hmm".to_string() }]),
        },
    ];
    let req = ChatRequestBuilder::new("gpt", "", &input, &[]).build(&provider()).unwrap();
    let ms = messages(&req.body);
    assert_eq!(ms.len(), 4);
    fn call(m: &JsonValue) -> &JsonValue {
        match member(m, "tool_calls") {
            Some(JsonValue::Array(calls)) => &calls[0],
            other => panic!("no calls: {other:?}"),
        }
    }
    let f = member(call(&ms[0]), "function").unwrap();
    assert_eq!(member(f, "arguments"), Some(&JsonValue::Raw("{\"x\":1}".to_string())));
    let g = member(call(&ms[1]), "function").unwrap();
    assert_eq!(member(g, "arguments"), Some(&obj(vec![("_raw", jstr("not json"))])));
    assert_eq!(
        ms[2],
        obj(vec![("role", jstr("tool")), ("tool_call_id", jstr("c1")), ("content", jstr("t\nimg"))])
    );
    assert_eq!(ms[3], obj(vec![("role", jstr("system")), ("content", jstr("Thinking: hmm"))]));
}

#[test]
fn tools_are_wrapped_as_functions() {
    let tools = vec![obj(vec![("name", jstr("f"))]), jstr("odd")];
    let req = ChatRequestBuilder::new("gpt", "", &[], &tools).build(&provider()).unwrap();
    assert_eq!(
        member(&req.body, "tools"),
        Some(&JsonValue::Array(vec![
            obj(vec![("type", jstr("function")), ("function", obj(vec![("name", jstr("f"))]))]),
            obj(vec![("type", jstr("function")), ("function", obj(vec![]))]),
        ]))
    );
}

#[test]
fn subagent_header() {
    let req = ChatRequestBuilder::new("gpt", "", &[], &[])
        .conversation_id(Some("conv".to_string()))
        .session_source(Some(SessionSource::SubAgent(SubAgentSource::Review)))
        .build(&provider())
        .unwrap();
    assert_eq!(req.headers, vec![("x-subagent".to_string(), "review".to_string())]);
    let req = ChatRequestBuilder::new("gpt", "", &[], &[])
        .session_source(Some(SessionSource::SubAgent(SubAgentSource::Other("bad\nvalue".to_string()))))
        .build(&provider())
        .unwrap();
    assert!(req.headers.is_empty());
    let req = ChatRequestBuilder::new("gpt", "", &[], &[])
        .session_source(Some(SessionSource::Cli))
        .build(&provider())
        .unwrap();
    assert!(req.headers.is_empty());
}

#[test]
fn arguments_given_parse_result() {
    assert_eq!(arguments_json_value(&"{}".to_string(), true), JsonValue::Raw("{}".to_string()));
    assert_eq!(arguments_json_value(&"{}".to_string(), false), obj(vec![("_raw", jstr("{}"))]));
}

#[test]
fn function_choice_text() {
    assert_eq!(function_choice_from_literal("\"f\""), "{\"name\":\"f\",\"type\":\"function\"}");
}

#[test]
fn client_holds_what_it_was_given() {
    let client: ChatClient<u8, &str, u16, u32> = ChatClient::new(7, provider(), "token");
    assert_eq!(*client.transport(), 7);
    assert_eq!(*client.auth(), "token");
    assert_eq!(*client.request_telemetry(), None);
    let client = client.with_telemetry(Some(1), Some(2));
    assert_eq!(*client.request_telemetry(), Some(1));
    assert_eq!(*client.sse_telemetry(), Some(2));
    assert_eq!(client.provider().name, "p");
    assert_eq!(ChatClient::<u8, &str, u16, u32>::path(), "chat/completions");
    let req = client
        .prompt_request("gpt", "sys", &[], &[], None, Some(SessionSource::SubAgent(SubAgentSource::Compact)))
        .unwrap();
    assert_eq!(req.headers, vec![("x-subagent".to_string(), "compact".to_string())]);
}

#[test]
fn event_stream_accept_replaces_accept() {
    let headers = vec![
        ("Accept".to_string(), "application/json".to_string()),
        ("x-subagent".to_string(), "review".to_string()),
    ];
    assert_eq!(
        with_event_stream_accept(headers),
        vec![
            ("x-subagent".to_string(), "review".to_string()),
            ("accept".to_string(), "text/event-stream".to_string()),
        ]
    );
}

#[test]
fn responses_shaped_tool_loses_its_type_inside_function() {
    let params = || {
        obj(vec![
            ("type", jstr("object")),
            ("properties", obj(vec![("order_id", obj(vec![("type", jstr("string"))]))])),
        ])
    };
    let tools = vec![obj(vec![
        ("type", jstr("function")),
        ("name", jstr("lookup_order")),
        ("description", jstr("Look up an order")),
        ("parameters", params()),
    ])];
    let req = ChatRequestBuilder::new("qwen-plus", "", &[], &tools).build(&provider()).unwrap();
    assert_eq!(
        member(&req.body, "tools"),
        Some(&JsonValue::Array(vec![obj(vec![
            ("type", jstr("function")),
            (
                "function",
                obj(vec![
                    ("name", jstr("lookup_order")),
                    ("description", jstr("Look up an order")),
                    ("parameters", params()),
                ])
            ),
        ])]))
    );
}

#[test]
fn conversation_id_does_not_change_the_request() {
    let a = ChatRequestBuilder::new("gpt", "be brief", &[], &[])
        .conversation_id(Some("c1".to_string()))
        .session_source(Some(SessionSource::SubAgent(SubAgentSource::Compact)))
        .build(&provider())
        .unwrap();
    let b = ChatRequestBuilder::new("gpt", "be brief", &[], &[])
        .session_source(Some(SessionSource::SubAgent(SubAgentSource::Compact)))
        .build(&provider())
        .unwrap();
    assert_eq!(a.body, b.body);
    assert_eq!(a.headers, b.headers);
}
