//! Tool calls through both conversions.

use codex_chat_compat::chat_to_responses::convert_chat_to_responses;
use codex_chat_compat::chat_types::{
    ChatCompletionRequest, ChatFunctionCall, ChatMessage, ChatMessageRole, ChatToolCall, ChatToolType, FinishReason,
};
use codex_chat_compat::protocol::ResponseItem;
use codex_chat_compat::responses_to_chat::convert_responses_to_chat;

fn call(id: &str, name: &str, args: &str) -> ChatToolCall {
    ChatToolCall {
        id: id.to_string(),
        tool_type: ChatToolType::Function,
        function: ChatFunctionCall { name: name.to_string(), arguments: args.to_string() },
    }
}

fn message(role: ChatMessageRole, content: Option<&str>, tool_calls: Option<Vec<ChatToolCall>>) -> ChatMessage {
    ChatMessage { role, content: content.map(str::to_string), tool_calls, tool_call_id: None, name: None }
}

#[test]
fn tool_calls_survive_both_conversions() {
    let chat = ChatCompletionRequest {
        model: "gpt-4".to_string(),
        messages: vec![
            message(ChatMessageRole::System, Some("sys"), None),
            message(ChatMessageRole::User, Some("hi"), None),
            message(
                ChatMessageRole::Assistant,
                Some("calling"),
                Some(vec![call("c1", "f", "{\"a\":1}"), call("c2", "g", "{}")]),
            ),
            message(ChatMessageRole::Assistant, None, Some(vec![call("c3", "h", "[]")])),
        ],
        stream: None,
        max_tokens: None,
        max_completion_tokens: None,
        tools: None,
        tool_choice: None,
        stop: None,
    };
    let request = convert_chat_to_responses(&chat).unwrap();
    assert!(request.input.iter().all(|item| !matches!(item, ResponseItem::Message { role, .. } if role == "system")));
    let response = convert_responses_to_chat("r", "gpt-4", 1, &request.input, "completed", None);
    let calls = response.choices[0].message.tool_calls.as_ref().unwrap();
    assert_eq!(calls, &vec![call("c1", "f", "{\"a\":1}"), call("c2", "g", "{}"), call("c3", "h", "[]")]);
    assert_eq!(response.choices[0].finish_reason, FinishReason::ToolCalls);
}
