//! Conversion from a Chat Completions request to a Responses API request.
//!
//! - System messages become `instructions`, joined with a blank line.
//! - User messages become user `Message` items (absent content is empty text).
//! - Assistant messages become one `FunctionCall` item per tool call, followed
//!   by an assistant `Message` item when the content is non-empty.
//! - Tool messages become `FunctionCallOutput` items; one without a
//!   `tool_call_id` makes the whole conversion fail.
//! - `model` and `stream` pass through; tools become JSON function
//!   descriptions; `tool_choice` becomes its string form.

use vstd::prelude::*;
use vstd::string::*;
use crate::chat_types::{
    ChatCompletionRequest, ChatMessage, ChatMessageRole, ChatMessageV, ChatTool, ChatToolCallV,
    ChatToolChoice, ChatToolChoiceV, ChatToolV,
};
use crate::json::{json_quote, json_string_literal, json_view, JsonV, JsonValue};
use crate::protocol::{
    ContentItem, ContentItemV, FunctionCallOutputBodyV, FunctionCallOutputPayload,
    FunctionCallOutputPayloadV, ResponseItem, ResponseItemV, ResponsesApiRequest,
    ResponsesApiRequestV,
};
use crate::text::{join_seqs, join_strings};

verus! {

/// Errors that can occur during the conversion.
#[derive(Debug, PartialEq)]
pub enum ConversionError {
    /// Invalid message role encountered.
    InvalidRole(String),
    /// Tool message is missing `tool_call_id`.
    MissingToolCallId,
    /// Unsupported tool type.
    UnsupportedToolType(String),
}

impl ConversionError {
    /// The human-readable description of the error.
    pub open spec fn message_text(&self) -> Seq<char> {
        match self {
            ConversionError::InvalidRole(r) => "invalid role: "@ + r@,
            ConversionError::MissingToolCallId => "tool message missing tool_call_id"@,
            ConversionError::UnsupportedToolType(t) => "unsupported tool type: "@ + t@,
        }
    }

    /// The human-readable description of the error.
    pub fn message(&self) -> (res: String)
        ensures
            res@ == self.message_text(),
    {
        match self {
            ConversionError::InvalidRole(r) => {
                let mut s = String::from_str("invalid role: ");
                s.append(r.as_str());
                s
            },
            ConversionError::MissingToolCallId => String::from_str("tool message missing tool_call_id"),
            ConversionError::UnsupportedToolType(t) => {
                let mut s = String::from_str("unsupported tool type: ");
                s.append(t.as_str());
                s
            },
        }
    }
}

// ---------------------------------------------------------------------------
// Specification
// ---------------------------------------------------------------------------

pub open spec fn content_or_empty(c: Option<Seq<char>>) -> Seq<char> {
    match c {
        Some(t) => t,
        None => Seq::empty(),
    }
}

/// A message item with role `role` holding one input-text part.
pub open spec fn text_message_item(role: Seq<char>, text: Seq<char>) -> ResponseItemV {
    ResponseItemV::Message {
        id: None,
        role: role,
        content: seq![ContentItemV::InputText { text: text }],
        phase: None,
    }
}

/// The function-call item for one assistant tool call.
pub open spec fn function_call_item(tc: ChatToolCallV) -> ResponseItemV {
    ResponseItemV::FunctionCall {
        id: None,
        name: tc.function.name,
        namespace: None,
        arguments: tc.function.arguments,
        call_id: tc.id,
    }
}

/// The assistant message item for `content`, present only for non-empty text.
pub open spec fn assistant_text_items(content: Option<Seq<char>>) -> Seq<ResponseItemV> {
    if content_or_empty(content).len() > 0 {
        seq![text_message_item("assistant"@, content_or_empty(content))]
    } else {
        Seq::empty()
    }
}

/// The items that one chat message contributes to `input`.
pub open spec fn message_items(m: ChatMessageV) -> Seq<ResponseItemV> {
    match m.role {
        ChatMessageRole::System => Seq::empty(),
        ChatMessageRole::User => seq![text_message_item("user"@, content_or_empty(m.content))],
        ChatMessageRole::Assistant => match m.tool_calls {
            Some(tcs) => tcs.map_values(|tc: ChatToolCallV| function_call_item(tc))
                + assistant_text_items(m.content),
            None => assistant_text_items(m.content),
        },
        ChatMessageRole::Tool => seq![
            ResponseItemV::FunctionCallOutput {
                call_id: content_or_empty(m.tool_call_id),
                output: FunctionCallOutputPayloadV {
                    body: FunctionCallOutputBodyV::Text(content_or_empty(m.content)),
                    success: None,
                },
            },
        ],
    }
}

/// The `input` items of a conversation, in message order.
pub open spec fn input_items(ms: Seq<ChatMessageV>) -> Seq<ResponseItemV>
    decreases ms.len(),
{
    if ms.len() == 0 {
        Seq::empty()
    } else {
        input_items(ms.drop_last()) + message_items(ms.last())
    }
}

/// The contents of the system messages that have content, in order.
pub open spec fn system_contents(ms: Seq<ChatMessageV>) -> Seq<Seq<char>>
    decreases ms.len(),
{
    if ms.len() == 0 {
        Seq::empty()
    } else {
        let m = ms.last();
        system_contents(ms.drop_last()) + if m.role == ChatMessageRole::System && m.content is Some {
            seq![m.content->0]
        } else {
            Seq::empty()
        }
    }
}

/// Some tool message has no `tool_call_id`.
pub open spec fn lacks_tool_call_id(ms: Seq<ChatMessageV>) -> bool {
    exists|i: int| 0 <= i < ms.len() && (#[trigger] ms[i]).role == ChatMessageRole::Tool && ms[i].tool_call_id is None
}

pub open spec fn opt_text_json(t: Option<Seq<char>>) -> JsonV {
    match t {
        Some(s) => JsonV::Str(s),
        None => JsonV::Null,
    }
}

/// The Responses API function description of a chat tool.
pub open spec fn tool_json(t: ChatToolV) -> JsonV {
    JsonV::Object(
        seq![
            ("type"@, JsonV::Str("function"@)),
            ("name"@, JsonV::Str(t.function.name)),
            ("description"@, opt_text_json(t.function.description)),
            ("parameters"@, match t.function.parameters {
                Some(p) => p,
                None => JsonV::Null,
            }),
        ],
    )
}

/// The JSON text `{"name":<name>,"type":"function"}` naming a function.
pub open spec fn function_choice_text(name: Seq<char>) -> Seq<char> {
    function_choice_from_literal_text(json_string_literal(name))
}

/// A function tool choice around the JSON string literal of its name.
pub open spec fn function_choice_from_literal_text(quoted_name: Seq<char>) -> Seq<char> {
    "{\"name\":"@ + quoted_name + ",\"type\":\"function\"}"@
}

/// The string form of a tool choice.
pub open spec fn tool_choice_text(c: Option<ChatToolChoiceV>) -> Seq<char> {
    match c {
        None => "auto"@,
        Some(ChatToolChoiceV::Auto) => "auto"@,
        Some(ChatToolChoiceV::NoTool) => "none"@,
        Some(ChatToolChoiceV::Required { name }) => function_choice_text(name),
        Some(ChatToolChoiceV::Specific { name, .. }) => function_choice_text(name),
    }
}

pub open spec fn converted_tools(tools: Option<Seq<ChatToolV>>) -> Seq<JsonV> {
    match tools {
        Some(ts) => ts.map_values(|t: ChatToolV| tool_json(t)),
        None => Seq::empty(),
    }
}

/// The Responses API request that a (valid) chat request converts to.
pub open spec fn converted_request(chat: ChatCompletionRequest) -> ResponsesApiRequestV {
    let ms = chat.messages.deep_view();
    ResponsesApiRequestV {
        model: chat.model@,
        instructions: join_seqs(system_contents(ms), "\n\n"@),
        input: input_items(ms),
        tools: converted_tools(chat.tools.deep_view()),
        tool_choice: tool_choice_text(chat.tool_choice.deep_view()),
        parallel_tool_calls: true,
        reasoning: None,
        store: false,
        stream: match chat.stream {
            Some(b) => b,
            None => false,
        },
        included: Seq::empty(),
        service_tier: None,
        prompt_cache_key: None,
        text: None,
        client_metadata: None,
    }
}

// ---------------------------------------------------------------------------
// Implementation
// ---------------------------------------------------------------------------

fn clone_content(c: &Option<String>) -> (res: String)
    ensures
        res@ == content_or_empty(c.deep_view()),
{
    match c {
        Some(s) => s.clone(),
        None => String::new(),
    }
}

fn text_message(role: &str, text: String) -> (res: ResponseItem)
    ensures
        res.deep_view() == text_message_item(role@, text@),
{
    let content = vec![ContentItem::InputText { text }];
    let res = ResponseItem::Message { id: None, role: String::from_str(role), content, phase: None };
    assert(res.deep_view() == text_message_item(role@, text@)) by {
        if let ResponseItemV::Message { content: c, .. } = res.deep_view() {
            assert(c =~= seq![ContentItemV::InputText { text: text@ }]);
        }
    }
    res
}

fn push_assistant_text(content: &Option<String>, input: &mut Vec<ResponseItem>)
    ensures
        final(input).deep_view() == old(input).deep_view() + assistant_text_items(content.deep_view()),
{
    let text = clone_content(content);
    if !text.as_str().is_empty() {
        let item = text_message("assistant", text);
        input.push(item);
        assert(final(input).deep_view() =~= old(input).deep_view() + seq![item.deep_view()]);
    } else {
        assert(final(input).deep_view() =~= old(input).deep_view());
    }
}

/// Appends the items of a message that is not an untagged tool message.
fn push_message_items(msg: &ChatMessage, input: &mut Vec<ResponseItem>)
    requires
        !(msg.role == ChatMessageRole::Tool && msg.tool_call_id is None),
    ensures
        final(input).deep_view() == old(input).deep_view() + message_items(msg.deep_view()),
{
    let ghost m = msg.deep_view();
    match msg.role {
        ChatMessageRole::System => {
            assert(final(input).deep_view() =~= old(input).deep_view());
        },
        ChatMessageRole::User => {
            let item = text_message("user", clone_content(&msg.content));
            input.push(item);
            assert(final(input).deep_view() =~= old(input).deep_view() + seq![item.deep_view()]);
        },
        ChatMessageRole::Assistant => {
            match &msg.tool_calls {
                Some(tool_calls) => {
                    let ghost tcs = tool_calls.deep_view();
                    let ghost start = input.deep_view();
                    let n = tool_calls.len();
                    for j in 0..n
                        invariant
                            n == tool_calls@.len(),
                            tcs == tool_calls.deep_view(),
                            input.deep_view() == start + tcs.take(j as int).map_values(
                                |tc: ChatToolCallV| function_call_item(tc),
                            ),
                    {
                        let tc = &tool_calls[j];
                        let item = ResponseItem::FunctionCall {
                            id: None,
                            name: tc.function.name.clone(),
                            namespace: None,
                            arguments: tc.function.arguments.clone(),
                            call_id: tc.id.clone(),
                        };
                        let ghost before = input.deep_view();
                        input.push(item);
                        assert(tcs[j as int] == tc.deep_view());
                        assert(input.deep_view() =~= before.push(function_call_item(tcs[j as int])));
                        assert(tcs.take(j + 1).map_values(|tc: ChatToolCallV| function_call_item(tc))
                            =~= tcs.take(j as int).map_values(|tc: ChatToolCallV| function_call_item(tc))
                            + seq![function_call_item(tcs[j as int])]);
                        assert(input.deep_view() =~= start + tcs.take(j + 1).map_values(
                            |tc: ChatToolCallV| function_call_item(tc),
                        ));
                    }
                    assert(tcs.take(n as int) =~= tcs);
                    push_assistant_text(&msg.content, input);
                    assert(final(input).deep_view() =~= old(input).deep_view() + message_items(m));
                },
                None => {
                    push_assistant_text(&msg.content, input);
                },
            }
        },
        ChatMessageRole::Tool => {
            let call_id = match &msg.tool_call_id {
                Some(id) => id.clone(),
                None => String::new(),
            };
            let output = FunctionCallOutputPayload::from_text(clone_content(&msg.content));
            let item = ResponseItem::FunctionCallOutput { call_id, output };
            input.push(item);
            assert(final(input).deep_view() =~= old(input).deep_view() + seq![item.deep_view()]);
        },
    }
}

/// Converts a chat tool to the JSON function description of the Responses API.
fn convert_chat_tool_to_json(tool: &ChatTool) -> (res: JsonValue)
    ensures
        res.deep_view() == tool_json(tool.deep_view()),
{
    let description = match &tool.function.description {
        Some(d) => JsonValue::Str(d.clone()),
        None => JsonValue::Null,
    };
    let parameters = match &tool.function.parameters {
        Some(p) => p.duplicate(),
        None => JsonValue::Null,
    };
    let mut members: Vec<(String, JsonValue)> = Vec::new();
    members.push((String::from_str("type"), JsonValue::Str(String::from_str("function"))));
    members.push((String::from_str("name"), JsonValue::Str(tool.function.name.clone())));
    members.push((String::from_str("description"), description));
    members.push((String::from_str("parameters"), parameters));
    let res = JsonValue::Object(members);
    assert(res.deep_view() == tool_json(tool.deep_view())) by {
        let t = tool.deep_view();
        assert(members@[0].0@ == "type"@);
        assert(json_view(members@[0].1) == JsonV::Str("function"@));
        assert(json_view(members@[1].1) == JsonV::Str(t.function.name));
        assert(json_view(members@[2].1) == opt_text_json(t.function.description));
        if let JsonV::Object(ms) = res.deep_view() {
            if let JsonV::Object(expected) = tool_json(t) {
                assert(ms.len() == expected.len());
                assert(ms[0] == expected[0]);
                assert(ms[1] == expected[1]);
                assert(ms[2] == expected[2]);
                assert(ms[3] == expected[3]);
                assert(ms =~= expected);
            }
        }
    }
    res
}

fn function_choice_string(name: &str) -> (res: String)
    ensures
        res@ == function_choice_text(name@),
{
    let quoted = json_quote(name);
    function_choice_from_literal(quoted.as_str())
}

/// The string form of a function tool choice, given the JSON string literal
/// of the function's name: `{"name":<literal>,"type":"function"}`.
pub fn function_choice_from_literal(quoted_name: &str) -> (res: String)
    ensures
        res@ == function_choice_from_literal_text(quoted_name@),
{
    let mut s = String::from_str("{\"name\":");
    s.append(quoted_name);
    s.append(",\"type\":\"function\"}");
    s
}

/// Converts a tool choice to its string form.
fn convert_tool_choice_to_string(tool_choice: &Option<ChatToolChoice>) -> (res: String)
    ensures
        res@ == tool_choice_text(tool_choice.deep_view()),
{
    match tool_choice {
        None => String::from_str("auto"),
        Some(ChatToolChoice::Auto) => String::from_str("auto"),
        Some(ChatToolChoice::NoTool) => String::from_str("none"),
        Some(ChatToolChoice::Required(func)) => function_choice_string(func.function.name.as_str()),
        Some(ChatToolChoice::Specific { tool_type: _, function }) => function_choice_string(
            function.name.as_str(),
        ),
    }
}

/// Converts a Chat Completions request to a Responses API request.
///
/// Fails with `MissingToolCallId` exactly when some tool message has no
/// `tool_call_id`; otherwise returns the request described by
/// `converted_request`.
pub fn convert_chat_to_responses(chat: &ChatCompletionRequest) -> (res: Result<
    ResponsesApiRequest,
    ConversionError,
>)
    ensures
        lacks_tool_call_id(chat.messages.deep_view()) <==> res is Err,
        res matches Err(e) ==> e == ConversionError::MissingToolCallId,
        res matches Ok(req) ==> req.deep_view() == converted_request(*chat),
{
    let mut input: Vec<ResponseItem> = Vec::new();
    let mut system_messages: Vec<String> = Vec::new();
    let ghost ms = chat.messages.deep_view();
    let n = chat.messages.len();
    for i in 0..n
        invariant
            n == chat.messages@.len(),
            ms == chat.messages.deep_view(),
            input.deep_view() == input_items(ms.take(i as int)),
            system_messages.deep_view() == system_contents(ms.take(i as int)),
            forall|j: int|
                0 <= j < i ==> !((#[trigger] ms[j]).role == ChatMessageRole::Tool
                    && ms[j].tool_call_id is None),
    {
        let msg = &chat.messages[i];
        proof {
            assert(ms.take(i + 1).drop_last() =~= ms.take(i as int));
            assert(ms.take(i + 1).last() == ms[i as int]);
            assert(ms[i as int] == msg.deep_view());
        }
        if msg.role == ChatMessageRole::Tool && msg.tool_call_id.is_none() {
            assert(ms[i as int].role == ChatMessageRole::Tool && ms[i as int].tool_call_id is None);
            return Err(ConversionError::MissingToolCallId);
        }
        if msg.role == ChatMessageRole::System {
            if let Some(content) = &msg.content {
                let ghost before = system_messages.deep_view();
                system_messages.push(content.clone());
                assert(system_messages.deep_view() =~= before + seq![content@]);
            } else {
                assert(system_contents(ms.take(i + 1)) =~= system_contents(ms.take(i as int)));
            }
        } else {
            assert(system_contents(ms.take(i + 1)) =~= system_contents(ms.take(i as int)));
        }
        push_message_items(msg, &mut input);
    }
    proof {
        assert(ms.take(n as int) =~= ms);
    }
    let instructions = join_strings(&system_messages, "\n\n");
    let mut tools: Vec<JsonValue> = Vec::new();
    if let Some(chat_tools) = &chat.tools {
        let ghost ts = chat_tools.deep_view();
        let m = chat_tools.len();
        for k in 0..m
            invariant
                m == chat_tools@.len(),
                ts == chat_tools.deep_view(),
                tools.deep_view() == ts.take(k as int).map_values(|t: ChatToolV| tool_json(t)),
        {
            let j = convert_chat_tool_to_json(&chat_tools[k]);
            let ghost before = tools.deep_view();
            tools.push(j);
            assert(ts[k as int] == chat_tools@[k as int].deep_view());
            assert(tools.deep_view() =~= before.push(tool_json(ts[k as int])));
            assert(tools.deep_view() =~= ts.take(k + 1).map_values(|t: ChatToolV| tool_json(t)));
        }
        assert(ts.take(m as int) =~= ts);
    }
    assert(tools.deep_view() =~= converted_tools(chat.tools.deep_view()));
    let tool_choice = convert_tool_choice_to_string(&chat.tool_choice);
    let stream = match chat.stream {
        Some(b) => b,
        None => false,
    };
    let included: Vec<String> = Vec::new();
    let req = ResponsesApiRequest {
        model: chat.model.clone(),
        instructions,
        input,
        tools,
        tool_choice,
        parallel_tool_calls: true,
        reasoning: None,
        store: false,
        stream,
        included,
        service_tier: None,
        prompt_cache_key: None,
        text: None,
        client_metadata: None,
    };
    assert(req.included.deep_view() =~= Seq::<Seq<char>>::empty());
    Ok(req)
}

// ---------------------------------------------------------------------------
// Laws
// ---------------------------------------------------------------------------

/// An input item that is no system message.
pub open spec fn is_not_system_item(item: ResponseItemV) -> bool {
    item matches ResponseItemV::Message { role, .. } ==> role != "system"@
}

/// System messages reach only the instructions: no item of a converted
/// conversation is a system message.
pub proof fn law_no_system_items(ms: Seq<ChatMessageV>)
    ensures
        forall|i: int| 0 <= i < input_items(ms).len() ==> is_not_system_item(#[trigger] input_items(ms)[i]),
    decreases ms.len(),
{
    if ms.len() > 0 {
        law_no_system_items(ms.drop_last());
        let head = input_items(ms.drop_last());
        let tail = message_items(ms.last());
        reveal_strlit("system");
        reveal_strlit("user");
        reveal_strlit("assistant");
        assert("user"@ != "system"@ && "assistant"@ != "system"@) by {
            assert("user"@.len() != "system"@.len());
            assert("assistant"@.len() != "system"@.len());
        }
        assert forall|i: int| 0 <= i < tail.len() implies is_not_system_item(#[trigger] tail[i]) by {
            let m = ms.last();
            let text_items = assistant_text_items(m.content);
            if m.role == ChatMessageRole::Assistant {
                match m.tool_calls {
                    Some(tcs) => {
                        let calls = tcs.map_values(|tc: ChatToolCallV| function_call_item(tc));
                        if i < tcs.len() {
                            assert(tail[i] == calls[i]);
                        } else {
                            assert(tail[i] == text_items[i - tcs.len()]);
                        }
                    },
                    None => {},
                }
            }
        }
        assert forall|i: int| 0 <= i < input_items(ms).len() implies is_not_system_item(
            #[trigger] input_items(ms)[i],
        ) by {
            if i < head.len() {
                assert(input_items(ms)[i] == head[i]);
            } else {
                assert(input_items(ms)[i] == tail[i - head.len()]);
            }
        }
    }
}

/// Law: the converted request streams exactly when the chat request asks
/// for streaming; a chat request that does not say is not streamed.
pub proof fn law_stream_only_when_asked(chat: ChatCompletionRequest)
    ensures
        converted_request(chat).stream <==> chat.stream == Some(true),
        chat.stream is None ==> !converted_request(chat).stream,
{
}

} // verus!
