//! Assembly of a Chat Completions streaming request from a Responses API
//! prompt: instructions, conversation items and tools.

use vstd::prelude::*;
use vstd::string::*;
use crate::json::{
    array1, is_json_text, json_view, lemma_array_view, lemma_first_member_skip, lemma_object_view, member_value,
    object1, object2, object3,
    parses_as_json, text_value, JsonV, JsonValue,
};
use crate::protocol::{
    ContentItem, ContentItemV, FunctionCallOutputBody, FunctionCallOutputBodyV,
    FunctionCallOutputContentItem, FunctionCallOutputContentItemV, FunctionCallOutputPayloadV, ReasoningItemContent,
    ReasoningItemContentV, ResponseItem, ResponseItemV,
};
use crate::text::{join_seqs, join_strings, str_eq};

verus! {

/// The sub-agent that started a session.
#[derive(Debug, Clone, PartialEq)]
pub enum SubAgentSource {
    Review,
    Compact,
    ThreadSpawn,
    Other(String),
}

/// Where a session came from.
#[derive(Debug, Clone, PartialEq)]
pub enum SessionSource {
    Cli,
    VSCode,
    Exec,
    Mcp,
    SubAgent(SubAgentSource),
    Unknown,
}

/// The model provider a request is built for.
#[derive(Debug, Clone, PartialEq)]
pub struct Provider {
    pub name: String,
    pub base_url: String,
    /// How long a stream may stay silent, in milliseconds.
    pub stream_idle_timeout_ms: u64,
}

/// Assembled request body plus headers for Chat Completions streaming calls.
#[derive(Debug, PartialEq)]
pub struct ChatRequest {
    pub body: JsonValue,
    /// Extra headers as (name, value) pairs.
    pub headers: Vec<(String, String)>,
}

/// Errors of the API client.
#[derive(Debug, PartialEq)]
pub enum ApiError {
    /// The request stream could not be set up.
    Stream(String),
}

/// Builder of a [`ChatRequest`].
pub struct ChatRequestBuilder<'a> {
    model: &'a str,
    instructions: &'a str,
    input: &'a [ResponseItem],
    tools: &'a [JsonValue],
    conversation_id: Option<String>,
    session_source: Option<SessionSource>,
}

// ---------------------------------------------------------------------------
// Specification
// ---------------------------------------------------------------------------

pub open spec fn chat_role_text(role: Seq<char>) -> Seq<char> {
    if role == "user"@ || role == "assistant"@ || role == "system"@ {
        role
    } else {
        "user"@
    }
}

/// The input texts of a message's content, in order.
pub open spec fn input_texts(content: Seq<ContentItemV>) -> Seq<Seq<char>>
    decreases content.len(),
{
    if content.len() == 0 {
        Seq::empty()
    } else {
        input_texts(content.drop_last()) + match content.last() {
            ContentItemV::InputText { text } => seq![text],
            _ => Seq::empty(),
        }
    }
}

/// The texts of function-call output content: input texts and image URLs.
pub open spec fn output_content_texts(items: Seq<FunctionCallOutputContentItemV>) -> Seq<Seq<char>>
    decreases items.len(),
{
    if items.len() == 0 {
        Seq::empty()
    } else {
        output_content_texts(items.drop_last()) + match items.last() {
            FunctionCallOutputContentItemV::InputText { text } => seq![text],
            FunctionCallOutputContentItemV::InputImage { image_url, .. } => seq![image_url],
            FunctionCallOutputContentItemV::EncryptedContent { .. } => Seq::empty(),
        }
    }
}

pub open spec fn output_body_text(body: FunctionCallOutputBodyV) -> Seq<char> {
    match body {
        FunctionCallOutputBodyV::Text(t) => t,
        FunctionCallOutputBodyV::ContentItems(items) => join_seqs(output_content_texts(items), "\n"@),
    }
}

pub open spec fn role_content_json(role: Seq<char>, content: Seq<char>) -> JsonV {
    JsonV::Object(seq![("role"@, JsonV::Str(role)), ("content"@, JsonV::Str(content))])
}

/// Arguments that parse as JSON are sent as that JSON value; others are
/// wrapped as `{"_raw": arguments}`.
pub open spec fn arguments_json(args: Seq<char>) -> JsonV {
    arguments_json_given(args, is_json_text(args))
}

/// The arguments as sent, given whether they parse as JSON.
pub open spec fn arguments_json_given(args: Seq<char>, parses: bool) -> JsonV {
    if parses {
        JsonV::Raw(args)
    } else {
        JsonV::Object(seq![("_raw"@, JsonV::Str(args))])
    }
}

pub open spec fn function_call_message(call_id: Seq<char>, name: Seq<char>, args: Seq<char>) -> JsonV {
    JsonV::Object(
        seq![
            ("role"@, JsonV::Str("assistant"@)),
            ("tool_calls"@, JsonV::Array(
                seq![
                    JsonV::Object(
                        seq![
                            ("id"@, JsonV::Str(call_id)),
                            ("type"@, JsonV::Str("function"@)),
                            ("function"@, JsonV::Object(
                                seq![("name"@, JsonV::Str(name)), ("arguments"@, arguments_json(args))],
                            )),
                        ],
                    ),
                ],
            )),
        ],
    )
}

pub open spec fn tool_output_message(call_id: Seq<char>, text: Seq<char>) -> JsonV {
    JsonV::Object(
        seq![
            ("role"@, JsonV::Str("tool"@)),
            ("tool_call_id"@, JsonV::Str(call_id)),
            ("content"@, JsonV::Str(text)),
        ],
    )
}

pub open spec fn reasoning_text(c: ReasoningItemContentV) -> Seq<char> {
    match c {
        ReasoningItemContentV::ReasoningText { text } => text,
        ReasoningItemContentV::Text { text } => text,
    }
}

pub open spec fn thinking_message(c: ReasoningItemContentV) -> JsonV {
    role_content_json("system"@, "Thinking: "@ + reasoning_text(c))
}

/// The chat messages that one conversation item becomes.
pub open spec fn item_messages(item: ResponseItemV) -> Seq<JsonV> {
    match item {
        ResponseItemV::Message { role, content, .. } => {
            let text = join_seqs(input_texts(content), "\n"@);
            if text.len() > 0 {
                seq![role_content_json(chat_role_text(role), text)]
            } else {
                Seq::empty()
            }
        },
        ResponseItemV::FunctionCall { call_id, name, arguments, .. } => seq![
            function_call_message(call_id, name, arguments),
        ],
        ResponseItemV::FunctionCallOutput { call_id, output } => seq![
            tool_output_message(call_id, output_body_text(output.body)),
        ],
        ResponseItemV::Reasoning { content, .. } => match content {
            Some(cs) => cs.map_values(|c: ReasoningItemContentV| thinking_message(c)),
            None => Seq::empty(),
        },
        ResponseItemV::Other => Seq::empty(),
    }
}

pub open spec fn items_messages(items: Seq<ResponseItemV>) -> Seq<JsonV>
    decreases items.len(),
{
    if items.len() == 0 {
        Seq::empty()
    } else {
        items_messages(items.drop_last()) + item_messages(items.last())
    }
}

/// All chat messages: the instructions as a system message (when non-empty),
/// then the messages of the conversation items in order.
pub open spec fn chat_messages(instructions: Seq<char>, items: Seq<ResponseItemV>) -> Seq<JsonV> {
    (if instructions.len() > 0 {
        seq![role_content_json("system"@, instructions)]
    } else {
        Seq::empty()
    }) + items_messages(items)
}

/// The members of an object other than those named `type`, in their order.
pub open spec fn members_without_type(ms: Seq<(Seq<char>, JsonV)>) -> Seq<(Seq<char>, JsonV)>
    decreases ms.len(),
{
    if ms.len() == 0 {
        Seq::empty()
    } else {
        let rest = members_without_type(ms.drop_last());
        if ms.last().0 == "type"@ {
            rest
        } else {
            rest.push(ms.last())
        }
    }
}

/// A tool as Chat Completions expects it: a function tool whose `function` is
/// the Responses-shaped tool object without its `type` members (an empty
/// object where the tool is no object).
pub open spec fn chat_tool_json(t: JsonV) -> JsonV {
    JsonV::Object(seq![("type"@, JsonV::Str("function"@)), ("function"@, chat_function_json(t))])
}

/// The `function` member of a Chat Completions tool made from `t`.
pub open spec fn chat_function_json(t: JsonV) -> JsonV {
    match t {
        JsonV::Object(ms) => JsonV::Object(members_without_type(ms)),
        _ => JsonV::Object(Seq::empty()),
    }
}

/// The request body.
pub open spec fn chat_body(model: Seq<char>, instructions: Seq<char>, items: Seq<ResponseItemV>, tools: Seq<JsonV>) -> JsonV {
    JsonV::Object(
        seq![
            ("model"@, JsonV::Str(model)),
            ("messages"@, JsonV::Array(chat_messages(instructions, items))),
            ("stream"@, JsonV::Bool(true)),
        ] + if tools.len() > 0 {
            seq![("tools"@, JsonV::Array(tools.map_values(|t: JsonV| chat_tool_json(t))))]
        } else {
            Seq::empty()
        },
    )
}

/// The `x-subagent` header value for a session source.
pub open spec fn subagent_label(source: Option<SessionSource>) -> Option<Seq<char>> {
    match source {
        Some(SessionSource::SubAgent(sub)) => match sub {
            SubAgentSource::Review => Some("review"@),
            SubAgentSource::Compact => Some("compact"@),
            SubAgentSource::ThreadSpawn => Some("collab_spawn"@),
            SubAgentSource::Other(label) => Some(label@),
        },
        _ => None,
    }
}

/// A text that `HeaderValue::from_str` accepts: no control character but the
/// tab, and no DEL.
pub open spec fn is_header_value_text(text: Seq<char>) -> bool {
    forall|i: int| 0 <= i < text.len() ==> (#[trigger] text[i] == '\t' || (text[i] >= ' ' && text[i] != '\x7f'))
}

/// The extra headers of a request from a session of the given source: the
/// `x-subagent` header for a sub-agent session, where its label is a valid
/// header value.
pub open spec fn request_headers(source: Option<SessionSource>) -> Seq<(Seq<char>, Seq<char>)> {
    match subagent_label(source) {
        Some(v) => if is_header_value_text(v) {
            seq![("x-subagent"@, v)]
        } else {
            Seq::empty()
        },
        None => Seq::empty(),
    }
}

// ---------------------------------------------------------------------------
// Implementation
// ---------------------------------------------------------------------------

/// Whether `HeaderValue::from_str` accepts the text.
fn is_header_value(text: &str) -> (res: bool)
    ensures
        res == is_header_value_text(text@),
{
    let n = text.unicode_len();
    let mut i: usize = 0;
    while i < n
        invariant
            n == text@.len(),
            i <= n,
            forall|j: int| 0 <= j < i ==> (#[trigger] text@[j] == '\t' || (text@[j] >= ' ' && text@[j] != '\x7f')),
        decreases n - i,
    {
        let c = text.get_char(i);
        if !(c == '\t' || (c >= ' ' && c != '\x7f')) {
            return false;
        }
        i = i + 1;
    }
    true
}

fn role_content(role: &str, content: String) -> (res: JsonValue)
    ensures
        json_view(res) == role_content_json(role@, content@),
{
    object2("role", text_value(role), "content", JsonValue::Str(content))
}

fn message_role(role: &str) -> (res: &'static str)
    ensures
        res@ == chat_role_text(role@),
{
    if str_eq(role, "user") {
        "user"
    } else if str_eq(role, "assistant") {
        "assistant"
    } else if str_eq(role, "system") {
        "system"
    } else {
        "user"
    }
}

fn message_text(content: &Vec<ContentItem>) -> (res: String)
    ensures
        res@ == join_seqs(input_texts(content.deep_view()), "\n"@),
{
    let mut parts: Vec<String> = Vec::new();
    let ghost cs = content.deep_view();
    let n = content.len();
    for i in 0..n
        invariant
            n == content@.len(),
            cs == content.deep_view(),
            parts.deep_view() == input_texts(cs.take(i as int)),
    {
        proof {
            assert(cs.take(i + 1).drop_last() =~= cs.take(i as int));
            assert(cs[i as int] == content@[i as int].deep_view());
        }
        let ghost before = parts.deep_view();
        if let ContentItem::InputText { text } = &content[i] {
            parts.push(text.clone());
            assert(parts.deep_view() =~= before.push(text@));
        }
        assert(parts.deep_view() =~= input_texts(cs.take(i + 1)));
    }
    assert(cs.take(n as int) =~= cs);
    join_strings(&parts, "\n")
}

fn arguments_value(arguments: &String) -> (res: JsonValue)
    ensures
        json_view(res) == arguments_json(arguments@),
{
    let parses = parses_as_json(arguments.as_str());
    arguments_json_value(arguments, parses)
}

/// The arguments of a function call as sent, given whether they parse as
/// JSON: the JSON text itself where they do, `{"_raw": arguments}` otherwise.
pub fn arguments_json_value(arguments: &String, parses: bool) -> (res: JsonValue)
    ensures
        json_view(res) == arguments_json_given(arguments@, parses),
{
    if parses {
        JsonValue::Raw(arguments.clone())
    } else {
        object1("_raw", JsonValue::Str(arguments.clone()))
    }
}

fn function_call_value(call_id: &String, name: &String, arguments: &String) -> (res: JsonValue)
    ensures
        json_view(res) == function_call_message(call_id@, name@, arguments@),
{
    let function = object2("name", JsonValue::Str(name.clone()), "arguments", arguments_value(arguments));
    let call = object3(
        "id",
        JsonValue::Str(call_id.clone()),
        "type",
        text_value("function"),
        "function",
        function,
    );
    object2("role", text_value("assistant"), "tool_calls", array1(call))
}

fn output_text(body: &FunctionCallOutputBody) -> (res: String)
    ensures
        res@ == output_body_text(body.deep_view()),
{
    match body {
        FunctionCallOutputBody::Text(t) => t.clone(),
        FunctionCallOutputBody::ContentItems(items) => {
            let mut parts: Vec<String> = Vec::new();
            let ghost cs = items.deep_view();
            let n = items.len();
            for i in 0..n
                invariant
                    n == items@.len(),
                    cs == items.deep_view(),
                    parts.deep_view() == output_content_texts(cs.take(i as int)),
            {
                proof {
                    assert(cs.take(i + 1).drop_last() =~= cs.take(i as int));
                    assert(cs[i as int] == items@[i as int].deep_view());
                }
                let ghost before = parts.deep_view();
                match &items[i] {
                    FunctionCallOutputContentItem::InputText { text } => {
                        parts.push(text.clone());
                        assert(parts.deep_view() =~= before.push(text@));
                    },
                    FunctionCallOutputContentItem::InputImage { image_url, .. } => {
                        parts.push(image_url.clone());
                        assert(parts.deep_view() =~= before.push(image_url@));
                    },
                    FunctionCallOutputContentItem::EncryptedContent { .. } => {},
                }
                assert(parts.deep_view() =~= output_content_texts(cs.take(i + 1)));
            }
            assert(cs.take(n as int) =~= cs);
            join_strings(&parts, "\n")
        },
    }
}

/// Appends the chat messages of one conversation item.
fn push_item_messages(item: &ResponseItem, messages: &mut Vec<JsonValue>)
    ensures
        final(messages)@.map_values(|x: JsonValue| json_view(x)) == old(messages)@.map_values(
            |x: JsonValue| json_view(x),
        ) + item_messages(item.deep_view()),
{
    let ghost start = messages@.map_values(|x: JsonValue| json_view(x));
    match item {
        ResponseItem::Message { role, content, .. } => {
            let text = message_text(content);
            if text.unicode_len() > 0 {
                let m = role_content(message_role(role.as_str()), text);
                messages.push(m);
                assert(messages@.map_values(|x: JsonValue| json_view(x)) =~= start.push(json_view(m)));
            } else {
                assert(messages@.map_values(|x: JsonValue| json_view(x)) =~= start);
            }
        },
        ResponseItem::FunctionCall { call_id, name, arguments, .. } => {
            let m = function_call_value(call_id, name, arguments);
            messages.push(m);
            assert(messages@.map_values(|x: JsonValue| json_view(x)) =~= start.push(json_view(m)));
        },
        ResponseItem::FunctionCallOutput { call_id, output } => {
            let text = output_text(&output.body);
            let m = object3(
                "role",
                text_value("tool"),
                "tool_call_id",
                JsonValue::Str(call_id.clone()),
                "content",
                JsonValue::Str(text),
            );
            messages.push(m);
            assert(messages@.map_values(|x: JsonValue| json_view(x)) =~= start.push(json_view(m)));
        },
        ResponseItem::Reasoning { content, .. } => {
            if let Some(contents) = content {
                let ghost cs = contents.deep_view();
                let n = contents.len();
                for i in 0..n
                    invariant
                        n == contents@.len(),
                        cs == contents.deep_view(),
                        messages@.map_values(|x: JsonValue| json_view(x)) == start + cs.take(
                            i as int,
                        ).map_values(|c: ReasoningItemContentV| thinking_message(c)),
                {
                    let text = match &contents[i] {
                        ReasoningItemContent::ReasoningText { text } => text,
                        ReasoningItemContent::Text { text } => text,
                    };
                    let mut thinking = String::from_str("Thinking: ");
                    thinking.append(text.as_str());
                    let m = role_content("system", thinking);
                    let ghost before = messages@.map_values(|x: JsonValue| json_view(x));
                    messages.push(m);
                    proof {
                        assert(cs[i as int] == contents@[i as int].deep_view());
                        assert(messages@.map_values(|x: JsonValue| json_view(x)) =~= before.push(json_view(m)));
                        assert(cs.take(i + 1).map_values(|c: ReasoningItemContentV| thinking_message(c))
                            =~= cs.take(i as int).map_values(|c: ReasoningItemContentV| thinking_message(c)).push(
                            thinking_message(cs[i as int])));
                    }
                }
                assert(cs.take(n as int) =~= cs);
            } else {
                assert(messages@.map_values(|x: JsonValue| json_view(x)) =~= start);
            }
        },
        ResponseItem::Other => {
            assert(messages@.map_values(|x: JsonValue| json_view(x)) =~= start);
        },
    }
}

fn chat_tool_value(tool: &JsonValue) -> (res: JsonValue)
    ensures
        json_view(res) == chat_tool_json(json_view(*tool)),
{
    let function = match tool {
        JsonValue::Object(ms) => {
            let ghost mv = ms@.map_values(|m: (String, JsonValue)| (m.0@, json_view(m.1)));
            proof {
                lemma_object_view(*ms);
            }
            let mut kept: Vec<(String, JsonValue)> = Vec::new();
            let n = ms.len();
            for i in 0..n
                invariant
                    n == ms@.len(),
                    mv == ms@.map_values(|m: (String, JsonValue)| (m.0@, json_view(m.1))),
                    kept@.map_values(|m: (String, JsonValue)| (m.0@, json_view(m.1)))
                        == members_without_type(mv.take(i as int)),
            {
                let ghost before = kept@.map_values(|m: (String, JsonValue)| (m.0@, json_view(m.1)));
                proof {
                    assert(mv.take(i + 1).drop_last() =~= mv.take(i as int));
                    reveal_strlit("type");
                }
                if !str_eq(ms[i].0.as_str(), "type") {
                    let member = (ms[i].0.clone(), ms[i].1.duplicate());
                    kept.push(member);
                    proof {
                        assert(kept@.map_values(|m: (String, JsonValue)| (m.0@, json_view(m.1)))
                            =~= before.push(mv[i as int]));
                    }
                }
            }
            proof {
                assert(mv.take(n as int) =~= mv);
                lemma_object_view(kept);
                assert(json_view(*tool) == JsonV::Object(mv));
            }
            let f = JsonValue::Object(kept);
            assert(json_view(f) == JsonV::Object(members_without_type(mv)));
            f
        },
        _ => {
            assert(json_view(*tool) !is Object);
            let empty: Vec<(String, JsonValue)> = Vec::new();
            proof {
                lemma_object_view(empty);
                assert(empty@.map_values(|m: (String, JsonValue)| (m.0@, json_view(m.1))) =~= Seq::empty());
            }
            JsonValue::Object(empty)
        },
    };
    assert(json_view(function) == chat_function_json(json_view(*tool)));
    let ty = text_value("function");
    let res = object2("type", ty, "function", function);
    res
}

impl<'a> ChatRequestBuilder<'a> {
    pub closed spec fn spec_model(&self) -> Seq<char> {
        self.model@
    }

    pub closed spec fn spec_instructions(&self) -> Seq<char> {
        self.instructions@
    }

    pub closed spec fn spec_input(&self) -> Seq<ResponseItemV> {
        self.input.deep_view()
    }

    pub closed spec fn spec_tools(&self) -> Seq<JsonV> {
        self.tools.deep_view()
    }

    pub closed spec fn spec_conversation_id(&self) -> Option<Seq<char>> {
        self.conversation_id.deep_view()
    }

    pub closed spec fn spec_session_source(&self) -> Option<SessionSource> {
        self.session_source
    }

    /// A builder for the given prompt, with no conversation id or session source.
    pub fn new(
        model: &'a str,
        instructions: &'a str,
        input: &'a [ResponseItem],
        tools: &'a [JsonValue],
    ) -> (res: Self)
        ensures
            res.spec_model() == model@,
            res.spec_instructions() == instructions@,
            res.spec_input() == input.deep_view(),
            res.spec_tools() == tools.deep_view(),
            res.spec_conversation_id() is None,
            res.spec_session_source() is None,
    {
        Self { model, instructions, input, tools, conversation_id: None, session_source: None }
    }

    /// Sets the conversation id.
    pub fn conversation_id(self, id: Option<String>) -> (res: Self)
        ensures
            res.spec_conversation_id() == id.deep_view(),
            res.spec_model() == self.spec_model(),
            res.spec_instructions() == self.spec_instructions(),
            res.spec_input() == self.spec_input(),
            res.spec_tools() == self.spec_tools(),
            res.spec_session_source() == self.spec_session_source(),
    {
        Self { conversation_id: id, ..self }
    }

    /// Sets the session source.
    pub fn session_source(self, source: Option<SessionSource>) -> (res: Self)
        ensures
            res.spec_session_source() == source,
            res.spec_model() == self.spec_model(),
            res.spec_instructions() == self.spec_instructions(),
            res.spec_input() == self.spec_input(),
            res.spec_tools() == self.spec_tools(),
            res.spec_conversation_id() == self.spec_conversation_id(),
    {
        Self { session_source: source, ..self }
    }

    /// Builds the streaming request: the body described by `chat_body` and
    /// the headers described by `request_headers`.
    pub fn build(self, _provider: &Provider) -> (res: Result<ChatRequest, ApiError>)
        ensures
            res matches Ok(req) && json_view(req.body) == chat_body(
                self.spec_model(),
                self.spec_instructions(),
                self.spec_input(),
                self.spec_tools(),
            ) && req.headers.deep_view() == request_headers(self.spec_session_source()),
    {
        let mut messages: Vec<JsonValue> = Vec::new();
        if self.instructions.unicode_len() > 0 {
            let m = role_content("system", String::from_str(self.instructions));
            messages.push(m);
        }
        let ghost items = self.input.deep_view();
        let ghost head = messages@.map_values(|x: JsonValue| json_view(x));
        assert(head =~= chat_messages(self.instructions@, Seq::empty()));
        let n = self.input.len();
        for i in 0..n
            invariant
                n == self.input@.len(),
                items == self.input.deep_view(),
                head == chat_messages(self.instructions@, Seq::empty()),
                messages@.map_values(|x: JsonValue| json_view(x)) == head + items_messages(
                    items.take(i as int),
                ),
        {
            proof {
                assert(items.take(i + 1).drop_last() =~= items.take(i as int));
                assert(items[i as int] == self.input@[i as int].deep_view());
            }
            push_item_messages(&self.input[i], &mut messages);
            assert(messages@.map_values(|x: JsonValue| json_view(x)) =~= head + items_messages(
                items.take(i + 1),
            ));
        }
        proof {
            assert(items.take(n as int) =~= items);
            lemma_array_view(messages);
            assert(chat_messages(self.instructions@, items) =~= head + items_messages(items));
        }
        let ghost msgs_view = json_view(JsonValue::Array(messages));
        let mut members: Vec<(String, JsonValue)> = Vec::new();
        members.push((String::from_str("model"), text_value(self.model)));
        members.push((String::from_str("messages"), JsonValue::Array(messages)));
        members.push((String::from_str("stream"), JsonValue::Bool(true)));
        let ghost first3 = members@.map_values(|m: (String, JsonValue)| (m.0@, json_view(m.1)));
        assert(first3 =~= seq![
            ("model"@, JsonV::Str(self.model@)),
            ("messages"@, JsonV::Array(chat_messages(self.instructions@, items))),
            ("stream"@, JsonV::Bool(true)),
        ]);
        let ghost ts = self.tools.deep_view();
        if self.tools.len() > 0 {
            let mut chat_tools: Vec<JsonValue> = Vec::new();
            let m = self.tools.len();
            for k in 0..m
                invariant
                    m == self.tools@.len(),
                    ts == self.tools.deep_view(),
                    chat_tools@.map_values(|x: JsonValue| json_view(x)) == ts.take(k as int).map_values(
                        |t: JsonV| chat_tool_json(t),
                    ),
            {
                let t = chat_tool_value(&self.tools[k]);
                let ghost before = chat_tools@.map_values(|x: JsonValue| json_view(x));
                chat_tools.push(t);
                proof {
                    assert(ts[k as int] == json_view(self.tools@[k as int]));
                    assert(chat_tools@.map_values(|x: JsonValue| json_view(x)) =~= before.push(json_view(t)));
                    assert(ts.take(k + 1).map_values(|t: JsonV| chat_tool_json(t)) =~= ts.take(
                        k as int,
                    ).map_values(|t: JsonV| chat_tool_json(t)).push(chat_tool_json(ts[k as int])));
                }
            }
            proof {
                assert(ts.take(m as int) =~= ts);
                lemma_array_view(chat_tools);
            }
            members.push((String::from_str("tools"), JsonValue::Array(chat_tools)));
        }
        proof {
            lemma_object_view(members);
        }
        let body = JsonValue::Object(members);
        assert(json_view(body) == chat_body(self.model@, self.instructions@, items, ts)) by {
            if let JsonV::Object(ms) = json_view(body) {
                if let JsonV::Object(expected) = chat_body(self.model@, self.instructions@, items, ts) {
                    assert(ms =~= expected);
                }
            }
        }
        let mut headers: Vec<(String, String)> = Vec::new();
        if let Some(source) = &self.session_source {
            if let Some(value) = subagent_header(source) {
                if is_header_value(value.as_str()) {
                    headers.push((String::from_str("x-subagent"), value));
                }
            }
        }
        assert(headers.deep_view() =~= request_headers(self.session_source));
        Ok(ChatRequest { body, headers })
    }
}

/// The `x-subagent` header value for a session started by a sub-agent.
fn subagent_header(source: &SessionSource) -> (res: Option<String>)
    ensures
        res.deep_view() == subagent_label(Some(*source)),
{
    match source {
        SessionSource::SubAgent(sub) => match sub {
            SubAgentSource::Review => Some(String::from_str("review")),
            SubAgentSource::Compact => Some(String::from_str("compact")),
            SubAgentSource::ThreadSpawn => Some(String::from_str("collab_spawn")),
            SubAgentSource::Other(label) => Some(label.clone()),
        },
        _ => None,
    }
}

/// The request that `build` gives depends on the model, instructions,
/// input, tools and session source alone: neither the conversation id nor
/// the provider changes its body or headers.
pub proof fn law_build_ignores_conversation_id(
    b1: ChatRequestBuilder,
    b2: ChatRequestBuilder,
    r1: ChatRequest,
    r2: ChatRequest,
)
    requires
        b1.spec_model() == b2.spec_model(),
        b1.spec_instructions() == b2.spec_instructions(),
        b1.spec_input() == b2.spec_input(),
        b1.spec_tools() == b2.spec_tools(),
        b1.spec_session_source() == b2.spec_session_source(),
        json_view(r1.body) == chat_body(b1.spec_model(), b1.spec_instructions(), b1.spec_input(), b1.spec_tools()),
        r1.headers.deep_view() == request_headers(b1.spec_session_source()),
        json_view(r2.body) == chat_body(b2.spec_model(), b2.spec_instructions(), b2.spec_input(), b2.spec_tools()),
        r2.headers.deep_view() == request_headers(b2.spec_session_source()),
    ensures
        json_view(r1.body) == json_view(r2.body),
        r1.headers.deep_view() == r2.headers.deep_view(),
{
}

/// Law: a function-call output whose body is plain text is sent as one tool
/// message answering the call, with that text, unchanged, as its content.
pub proof fn law_text_output_sent_unchanged(
    model: Seq<char>,
    tools: Seq<JsonV>,
    call_id: Seq<char>,
    text: Seq<char>,
    success: Option<bool>,
)
    ensures
        ({
            let item = ResponseItemV::FunctionCallOutput {
                call_id,
                output: FunctionCallOutputPayloadV { body: FunctionCallOutputBodyV::Text(text), success },
            };
            let messages = member_value(chat_body(model, Seq::empty(), seq![item], tools), "messages"@);
            &&& messages is Some
            &&& messages->0 is Array
            &&& messages->0->Array_0.len() == 1
            &&& member_value(messages->0->Array_0[0], "role"@) == Some(JsonV::Str("tool"@))
            &&& member_value(messages->0->Array_0[0], "tool_call_id"@) == Some(JsonV::Str(call_id))
            &&& member_value(messages->0->Array_0[0], "content"@) == Some(JsonV::Str(text))
        }),
{
    reveal_strlit("model");
    reveal_strlit("messages");
    reveal_strlit("role");
    reveal_strlit("tool_call_id");
    reveal_strlit("content");
    assert("model"@.len() == 5);
    assert("messages"@.len() == 8);
    assert("role"@.len() == 4);
    assert("tool_call_id"@.len() == 12);
    assert("content"@.len() == 7);
    let item = ResponseItemV::FunctionCallOutput {
        call_id,
        output: FunctionCallOutputPayloadV { body: FunctionCallOutputBodyV::Text(text), success },
    };
    let items = seq![item];
    assert(items.drop_last() =~= Seq::<ResponseItemV>::empty());
    let m = tool_output_message(call_id, text);
    assert(items.last() == item);
    assert(items_messages(Seq::<ResponseItemV>::empty()) == Seq::<JsonV>::empty());
    assert(item_messages(item) == seq![m]);
    assert(items_messages(items) == items_messages(items.drop_last()) + item_messages(items.last()));
    assert(items_messages(items) =~= seq![m]);
    assert(chat_messages(Seq::empty(), items) =~= seq![m]);
    let body = chat_body(model, Seq::empty(), items, tools);
    let head = seq![
        ("model"@, JsonV::Str(model)),
        ("messages"@, JsonV::Array(seq![m])),
        ("stream"@, JsonV::Bool(true)),
    ];
    let tail = if tools.len() > 0 {
        seq![("tools"@, JsonV::Array(tools.map_values(|t: JsonV| chat_tool_json(t))))]
    } else {
        Seq::empty()
    };
    let ms = head + tail;
    assert(body == JsonV::Object(ms));
    assert(ms[0] == head[0] && ms[1] == head[1]);
    lemma_first_member_skip(ms, "messages"@);
    assert(ms.drop_first()[0] == ms[1]);
    if let JsonV::Object(mm) = m {
        lemma_first_member_skip(mm, "tool_call_id"@);
        lemma_first_member_skip(mm, "content"@);
        lemma_first_member_skip(mm.drop_first(), "content"@);
        assert(mm.drop_first()[0] == mm[1]);
        assert(mm.drop_first().drop_first()[0] == mm[2]);
    }
}

} // verus!
