//! Conversion from a Responses API response to a Chat Completions response.
//!
//! - `id` gains the prefix `chatcmpl-` unless it already has it.
//! - `created` is the given timestamp, or the current time when it is 0.
//! - The single choice holds an assistant message whose content is the
//!   concatenation of all output texts and whose tool calls are the function
//!   calls of the output, in order (`None` when there are none).
//! - `finish_reason` is `tool_calls` when there are tool calls, `length` for
//!   the status `incomplete`, and `stop` otherwise.
//! - Token usage maps input, output and total tokens.

use vstd::prelude::*;
use vstd::string::*;
use crate::chat_types::{
    ChatChoice, ChatChoiceV, ChatCompletionResponse, ChatCompletionResponseV, ChatFunctionCall,
    ChatFunctionCallV, ChatMessage, ChatMessageRole, ChatMessageV, ChatToolCall, ChatToolCallV,
    ChatToolType, ChatUsage, ChatUsageV, FinishReason,
};
use crate::chat_to_responses::{function_call_item, input_items, message_items};
use crate::clock::unix_now_secs;
use crate::protocol::{ContentItem, ContentItemV, ResponseItem, ResponseItemV, TokenUsage};
use crate::text::{has_prefix, starts_with, str_eq};

verus! {

// ---------------------------------------------------------------------------
// Specification
// ---------------------------------------------------------------------------

/// The chat completion id for a response id.
pub open spec fn chat_id_text(id: Seq<char>) -> Seq<char> {
    if has_prefix(id, "chatcmpl-"@) {
        id
    } else {
        "chatcmpl-"@ + id
    }
}

/// The concatenated output texts of a message's content.
pub open spec fn content_output_text(content: Seq<ContentItemV>) -> Seq<char>
    decreases content.len(),
{
    if content.len() == 0 {
        Seq::empty()
    } else {
        content_output_text(content.drop_last()) + match content.last() {
            ContentItemV::OutputText { text } => text,
            _ => Seq::empty(),
        }
    }
}

/// The concatenated output texts of all message items.
pub open spec fn output_text(items: Seq<ResponseItemV>) -> Seq<char>
    decreases items.len(),
{
    if items.len() == 0 {
        Seq::empty()
    } else {
        output_text(items.drop_last()) + match items.last() {
            ResponseItemV::Message { content, .. } => content_output_text(content),
            _ => Seq::empty(),
        }
    }
}

/// The chat tool call for a function-call item.
pub open spec fn tool_call_of(name: Seq<char>, arguments: Seq<char>, call_id: Seq<char>) -> ChatToolCallV {
    ChatToolCallV {
        id: call_id,
        tool_type: ChatToolType::Function,
        function: ChatFunctionCallV { name: name, arguments: arguments },
    }
}

/// The tool calls of all function-call items, in order.
pub open spec fn output_tool_calls(items: Seq<ResponseItemV>) -> Seq<ChatToolCallV>
    decreases items.len(),
{
    if items.len() == 0 {
        Seq::empty()
    } else {
        output_tool_calls(items.drop_last()) + match items.last() {
            ResponseItemV::FunctionCall { name, arguments, call_id, .. } => seq![
                tool_call_of(name, arguments, call_id),
            ],
            _ => Seq::empty(),
        }
    }
}

/// The finish reason for a response status.
pub open spec fn status_finish_reason(status: Seq<char>) -> FinishReason {
    if status == "incomplete"@ {
        FinishReason::Length
    } else {
        FinishReason::Stop
    }
}

/// The chat usage for token usage.
pub open spec fn chat_usage_of(u: TokenUsage) -> ChatUsageV {
    ChatUsageV {
        prompt_tokens: u.input_tokens as u32,
        completion_tokens: u.output_tokens as u32,
        total_tokens: u.total_tokens as u32,
        prompt_tokens_details: None,
        completion_tokens_details: None,
    }
}

/// The chat response for a response with the given parts, created at `created`.
pub open spec fn converted_response(
    id: Seq<char>,
    model: Seq<char>,
    created: u64,
    output: Seq<ResponseItemV>,
    status: Seq<char>,
    usage: Option<TokenUsage>,
) -> ChatCompletionResponseV {
    let calls = output_tool_calls(output);
    ChatCompletionResponseV {
        id: chat_id_text(id),
        object: "chat.completion"@,
        created: created,
        model: model,
        choices: seq![
            ChatChoiceV {
                index: 0,
                message: ChatMessageV {
                    role: ChatMessageRole::Assistant,
                    content: Some(output_text(output)),
                    tool_calls: if calls.len() == 0 {
                        None
                    } else {
                        Some(calls)
                    },
                    tool_call_id: None,
                    name: None,
                },
                finish_reason: if calls.len() > 0 {
                    FinishReason::ToolCalls
                } else {
                    status_finish_reason(status)
                },
                logprobs: None,
            },
        ],
        usage: match usage {
            Some(u) => Some(chat_usage_of(u)),
            None => None,
        },
        service_tier: None,
        system_fingerprint: None,
    }
}

// ---------------------------------------------------------------------------
// Implementation
// ---------------------------------------------------------------------------

/// Concatenates the output texts of the message items of `output`.
fn extract_text_content(output: &[ResponseItem]) -> (res: String)
    ensures
        res@ == output_text(output.deep_view()),
{
    let mut text = String::new();
    let ghost items = output.deep_view();
    let n = output.len();
    for i in 0..n
        invariant
            n == output@.len(),
            items == output.deep_view(),
            text@ == output_text(items.take(i as int)),
    {
        proof {
            assert(items.take(i + 1).drop_last() =~= items.take(i as int));
            assert(items[i as int] == output@[i as int].deep_view());
        }
        let ghost start = text@;
        if let ResponseItem::Message { content, .. } = &output[i] {
            let ghost cs = content.deep_view();
            let m = content.len();
            for j in 0..m
                invariant
                    m == content@.len(),
                    cs == content.deep_view(),
                    text@ == start + content_output_text(cs.take(j as int)),
            {
                proof {
                    assert(cs.take(j + 1).drop_last() =~= cs.take(j as int));
                    assert(cs[j as int] == content@[j as int].deep_view());
                }
                if let ContentItem::OutputText { text: t } = &content[j] {
                    if !t.as_str().is_empty() {
                        text.append(t.as_str());
                    }
                    assert(text@ =~= start + content_output_text(cs.take(j + 1)));
                } else {
                    assert(text@ =~= start + content_output_text(cs.take(j + 1)));
                }
            }
            assert(cs.take(m as int) =~= cs);
            assert(text@ =~= output_text(items.take(i + 1)));
        } else {
            assert(text@ =~= output_text(items.take(i + 1)));
        }
    }
    assert(items.take(n as int) =~= items);
    text
}

/// Converts the function-call items of `output` to chat tool calls.
fn extract_tool_calls(output: &[ResponseItem]) -> (res: Vec<ChatToolCall>)
    ensures
        res.deep_view() == output_tool_calls(output.deep_view()),
{
    let mut calls: Vec<ChatToolCall> = Vec::new();
    let ghost items = output.deep_view();
    let n = output.len();
    for i in 0..n
        invariant
            n == output@.len(),
            items == output.deep_view(),
            calls.deep_view() == output_tool_calls(items.take(i as int)),
    {
        proof {
            assert(items.take(i + 1).drop_last() =~= items.take(i as int));
            assert(items[i as int] == output@[i as int].deep_view());
        }
        let ghost before = calls.deep_view();
        if let ResponseItem::FunctionCall { name, arguments, call_id, .. } = &output[i] {
            let call = ChatToolCall {
                id: call_id.clone(),
                tool_type: ChatToolType::Function,
                function: ChatFunctionCall { name: name.clone(), arguments: arguments.clone() },
            };
            calls.push(call);
            assert(calls.deep_view() =~= before.push(tool_call_of(name@, arguments@, call_id@)));
        }
        assert(calls.deep_view() =~= output_tool_calls(items.take(i + 1)));
    }
    assert(items.take(n as int) =~= items);
    calls
}

/// Maps a Responses API status to a Chat Completions finish reason.
pub fn map_status_to_finish_reason(status: &str) -> (res: FinishReason)
    ensures
        res == status_finish_reason(status@),
{
    if str_eq(status, "completed") {
        assert(status@ != "incomplete"@) by {
            reveal_strlit("completed");
            reveal_strlit("incomplete");
            assert("completed"@.len() == 9);
            assert("incomplete"@.len() == 10);
        }
        FinishReason::Stop
    } else if str_eq(status, "incomplete") {
        FinishReason::Length
    } else {
        FinishReason::Stop
    }
}

/// Maps token usage to chat usage; each count is truncated to 32 bits.
fn map_token_usage(usage: &TokenUsage) -> (res: ChatUsage)
    ensures
        res.deep_view() == chat_usage_of(*usage),
{
    ChatUsage {
        prompt_tokens: usage.input_tokens as u32,
        completion_tokens: usage.output_tokens as u32,
        total_tokens: usage.total_tokens as u32,
        prompt_tokens_details: None,
        completion_tokens_details: None,
    }
}

/// Converts a Responses API response to a Chat Completions response whose
/// `created` is `created_at` when that is positive and `now` otherwise.
pub fn convert_responses_to_chat_at(
    id: &str,
    model: &str,
    created_at: u64,
    now: u64,
    output: &[ResponseItem],
    status: &str,
    usage: Option<&TokenUsage>,
) -> (res: ChatCompletionResponse)
    ensures
        res.deep_view() == converted_response(
            id@,
            model@,
            if created_at > 0 {
                created_at
            } else {
                now
            },
            output.deep_view(),
            status@,
            match usage {
                Some(u) => Some(*u),
                None => None,
            },
        ),
{
    let chat_id = if starts_with(id, "chatcmpl-") {
        String::from_str(id)
    } else {
        let mut s = String::from_str("chatcmpl-");
        s.append(id);
        s
    };
    let created = if created_at > 0 {
        created_at
    } else {
        now
    };
    let content = extract_text_content(output);
    let tool_calls = extract_tool_calls(output);
    let finish_reason = if tool_calls.len() > 0 {
        FinishReason::ToolCalls
    } else {
        map_status_to_finish_reason(status)
    };
    let chat_usage = match usage {
        Some(u) => Some(map_token_usage(u)),
        None => None,
    };
    let tool_calls_opt = if tool_calls.len() == 0 {
        None
    } else {
        Some(tool_calls)
    };
    let message = ChatMessage {
        role: ChatMessageRole::Assistant,
        content: Some(content),
        tool_calls: tool_calls_opt,
        tool_call_id: None,
        name: None,
    };
    let choice = ChatChoice { index: 0, message, finish_reason, logprobs: None };
    let choices = vec![choice];
    let res = ChatCompletionResponse {
        id: chat_id,
        object: String::from_str("chat.completion"),
        created,
        model: String::from_str(model),
        choices,
        usage: chat_usage,
        service_tier: None,
        system_fingerprint: None,
    };
    assert(res.choices.deep_view() =~= seq![choice.deep_view()]);
    res
}

/// Converts a Responses API response to a Chat Completions response.
///
/// When `created_at` is 0 the current time is used; every other member of
/// the result is determined by the arguments, as `converted_response` states.
pub fn convert_responses_to_chat(
    id: &str,
    model: &str,
    created_at: u64,
    output: &[ResponseItem],
    status: &str,
    usage: Option<&TokenUsage>,
) -> (res: ChatCompletionResponse)
    ensures
        created_at > 0 ==> res.created == created_at,
        res.deep_view() == converted_response(
            id@,
            model@,
            res.created,
            output.deep_view(),
            status@,
            match usage {
                Some(u) => Some(*u),
                None => None,
            },
        ),
{
    let now = if created_at > 0 {
        created_at
    } else {
        unix_now_secs()
    };
    convert_responses_to_chat_at(id, model, created_at, now, output, status, usage)
}

// ---------------------------------------------------------------------------
// Laws
// ---------------------------------------------------------------------------

/// The tool calls of all assistant messages of a chat conversation, in
/// order.
pub open spec fn conversation_tool_calls(ms: Seq<ChatMessageV>) -> Seq<ChatToolCallV>
    decreases ms.len(),
{
    if ms.len() == 0 {
        Seq::empty()
    } else {
        conversation_tool_calls(ms.drop_last()) + match ms.last().role {
            ChatMessageRole::Assistant => match ms.last().tool_calls {
                Some(tcs) => tcs,
                None => Seq::empty(),
            },
            _ => Seq::empty(),
        }
    }
}

/// The tool calls of concatenated items are those of each part in turn.
pub proof fn lemma_output_tool_calls_concat(a: Seq<ResponseItemV>, b: Seq<ResponseItemV>)
    ensures
        output_tool_calls(a + b) == output_tool_calls(a) + output_tool_calls(b),
    decreases b.len(),
{
    if b.len() == 0 {
        assert(a + b =~= a);
        assert(output_tool_calls(b) =~= Seq::empty());
    } else {
        lemma_output_tool_calls_concat(a, b.drop_last());
        assert((a + b).drop_last() =~= a + b.drop_last());
        assert((a + b).last() == b.last());
    }
}

/// Function-call items made from tool calls give back those tool calls.
pub proof fn lemma_function_call_items_round_trip(tcs: Seq<ChatToolCallV>)
    ensures
        output_tool_calls(tcs.map_values(|tc: ChatToolCallV| function_call_item(tc))) == tcs,
    decreases tcs.len(),
{
    let items = tcs.map_values(|tc: ChatToolCallV| function_call_item(tc));
    if tcs.len() > 0 {
        lemma_function_call_items_round_trip(tcs.drop_last());
        assert(items.drop_last() =~= tcs.drop_last().map_values(|tc: ChatToolCallV| function_call_item(tc)));
        let last = tcs.last();
        assert(last.tool_type == ChatToolType::Function);
        assert(tool_call_of(last.function.name, last.function.arguments, last.id) == last);
        assert(output_tool_calls(items) =~= tcs);
    } else {
        assert(items.len() == 0);
    }
}

/// The tool calls that the items of one chat message carry.
proof fn lemma_message_tool_calls(m: ChatMessageV)
    ensures
        output_tool_calls(message_items(m)) == match m.role {
            ChatMessageRole::Assistant => match m.tool_calls {
                Some(tcs) => tcs,
                None => Seq::empty(),
            },
            _ => Seq::<ChatToolCallV>::empty(),
        },
{
    let text_items = crate::chat_to_responses::assistant_text_items(m.content);
    assert(output_tool_calls(Seq::<ResponseItemV>::empty()) =~= Seq::empty());
    assert(output_tool_calls(text_items) =~= Seq::empty()) by {
        if text_items.len() > 0 {
            assert(text_items.drop_last() =~= Seq::<ResponseItemV>::empty());
            assert(text_items.last() is Message);
        }
    }
    match m.role {
        ChatMessageRole::Assistant => {
            if let Some(tcs) = m.tool_calls {
                lemma_function_call_items_round_trip(tcs);
                lemma_output_tool_calls_concat(tcs.map_values(|tc: ChatToolCallV| function_call_item(tc)), text_items);
                assert(output_tool_calls(message_items(m)) =~= tcs);
            }
        },
        ChatMessageRole::User => {
            assert(message_items(m).drop_last() =~= Seq::<ResponseItemV>::empty());
        },
        ChatMessageRole::Tool => {
            assert(message_items(m).drop_last() =~= Seq::<ResponseItemV>::empty());
        },
        ChatMessageRole::System => {},
    }
}

/// Tool calls survive the round trip: the function-call items that a chat
/// conversation's assistant messages become are read back, by the conversion
/// to a chat response, as the same tool calls (id, name and arguments), in
/// the same order.
pub proof fn law_tool_calls_round_trip(ms: Seq<ChatMessageV>)
    ensures
        output_tool_calls(input_items(ms)) == conversation_tool_calls(ms),
    decreases ms.len(),
{
    if ms.len() > 0 {
        law_tool_calls_round_trip(ms.drop_last());
        lemma_output_tool_calls_concat(input_items(ms.drop_last()), message_items(ms.last()));
        lemma_message_tool_calls(ms.last());
    }
}

/// The finish reason is `tool_calls` exactly when the response carries tool
/// calls, and the tool calls are present exactly when the output holds a
/// function call.
pub proof fn law_tool_calls_finish_reason(
    id: Seq<char>,
    model: Seq<char>,
    created: u64,
    output: Seq<ResponseItemV>,
    status: Seq<char>,
    usage: Option<TokenUsage>,
)
    ensures
        ({
            let r = converted_response(id, model, created, output, status, usage);
            &&& (r.choices[0].finish_reason == FinishReason::ToolCalls <==> r.choices[0].message.tool_calls is Some)
            &&& (r.choices[0].message.tool_calls is Some <==> output_tool_calls(output).len() > 0)
        }),
{
}

} // verus!
