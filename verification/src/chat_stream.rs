//! Translation of a Responses API server-sent event stream into a Chat
//! Completions chunk stream.
//!
//! The upstream text is fed in line by line; each complete event (terminated
//! by an empty line) yields the payload of its last `data: ` line. The
//! caller parses that payload into a [`StreamEvent`], and [`ChatStreamState::convert_event`]
//! turns it into the chunks to send: a role chunk before the first content,
//! content and tool-call deltas, and on completion a finish chunk, an optional
//! usage chunk and the final `[DONE]` marker.

use vstd::prelude::*;
use vstd::string::*;
use crate::clock::unix_now_secs;
use crate::json::{
    array_item, json_view, lemma_array_view, lemma_first_member_skip, member_value, lemma_object_view, object1, text_value, JsonNumber, JsonNumberV, JsonV, JsonValue,
};
use crate::protocol::TokenUsage;
use crate::text::{has_prefix, starts_with, str_eq, utf8_len_exceeds, utf8_width_of};

verus! {

// ---------------------------------------------------------------------------
// Event framing
// ---------------------------------------------------------------------------

/// Index of the first `'\n'` in `s`, or `s.len()` when there is none.
pub open spec fn newline_index(s: Seq<char>) -> int
    decreases s.len(),
{
    if s.len() == 0 {
        0
    } else if s[0] == '\n' {
        0
    } else {
        1 + newline_index(s.drop_first())
    }
}

/// The first line of `s`: up to the first `'\n'`, without a `'\r'` just
/// before it.
pub open spec fn first_line(s: Seq<char>) -> Seq<char> {
    let e = newline_index(s);
    if e < s.len() && e > 0 && s[e - 1] == '\r' {
        s.subrange(0, e - 1)
    } else {
        s.subrange(0, e)
    }
}

/// What follows the first line and its terminator.
pub open spec fn after_first_line(s: Seq<char>) -> Seq<char> {
    let e = newline_index(s);
    if e < s.len() {
        s.skip(e + 1)
    } else {
        Seq::empty()
    }
}

/// Scans the lines of `s` for the end of an event, `data` being the payload
/// of the last `data: ` line seen so far. An empty line ends the event when a
/// payload has been seen; the result is the payload and the text after that
/// empty line.
pub open spec fn next_event(s: Seq<char>, data: Seq<char>) -> Option<(Seq<char>, Seq<char>)>
    decreases s.len(),
{
    if s.len() == 0 {
        None
    } else {
        let line = first_line(s);
        let rest = after_first_line(s);
        proof {
            lemma_after_first_line_shorter(s);
        }
        if line.len() == 0 {
            if data.len() > 0 {
                Some((data, rest))
            } else {
                next_event(rest, data)
            }
        } else {
            next_event(
                rest,
                if has_prefix(line, "data: "@) {
                    line.skip(6)
                } else {
                    data
                },
            )
        }
    }
}

pub proof fn lemma_newline_index_bounds(s: Seq<char>)
    ensures
        0 <= newline_index(s) <= s.len(),
        newline_index(s) < s.len() ==> s[newline_index(s)] == '\n',
        forall|k: int| 0 <= k < newline_index(s) ==> s[k] != '\n',
    decreases s.len(),
{
    if s.len() > 0 && s[0] != '\n' {
        lemma_newline_index_bounds(s.drop_first());
        assert forall|k: int| 0 <= k < newline_index(s) implies s[k] != '\n' by {
            if k > 0 {
                assert(s[k] == s.drop_first()[k - 1]);
            }
        }
    }
}

pub proof fn lemma_after_first_line_shorter(s: Seq<char>)
    requires
        s.len() > 0,
    ensures
        after_first_line(s).len() < s.len(),
{
    lemma_newline_index_bounds(s);
}

/// `newline_index` is determined by the first position holding `'\n'`.
pub proof fn lemma_newline_index_at(s: Seq<char>, e: int)
    requires
        0 <= e <= s.len(),
        e < s.len() ==> s[e] == '\n',
        forall|k: int| 0 <= k < e ==> s[k] != '\n',
    ensures
        newline_index(s) == e,
    decreases s.len(),
{
    if e > 0 {
        assert(s[0] != '\n');
        let t = s.drop_first();
        assert forall|k: int| 0 <= k < e - 1 implies t[k] != '\n' by {
            assert(t[k] == s[k + 1]);
        }
        if e - 1 < t.len() {
            assert(t[e - 1] == s[e]);
        }
        lemma_newline_index_at(t, e - 1);
    }
}

// ---------------------------------------------------------------------------
// Events and chunks
// ---------------------------------------------------------------------------

/// The members of a completed (or created) response that the translation reads.
#[derive(Debug, PartialEq)]
pub struct StreamResponse {
    /// The response id, when it is a string.
    pub id: Option<String>,
    /// `end_turn`, when it is a boolean.
    pub end_turn: Option<bool>,
    /// The token usage, when present and well-formed.
    pub usage: Option<TokenUsage>,
}

/// One Responses API stream event.
#[derive(Debug, PartialEq)]
pub struct StreamEvent {
    pub kind: String,
    pub response: Option<StreamResponse>,
    pub delta: Option<String>,
    pub item_id: Option<String>,
    pub call_id: Option<String>,
}

/// What a chunk carries.
#[derive(Debug, Clone, Copy, PartialEq, Eq, Structural)]
pub enum ChunkKind {
    /// The assistant role, opening the message.
    Role,
    /// A piece of message text.
    Content,
    /// A piece of tool-call arguments.
    ToolCall,
    /// The finish reason.
    Finish,
    /// Token usage.
    Usage,
}

/// One item of the translated stream.
#[derive(Debug, PartialEq)]
pub enum StreamOutput {
    /// A chunk, as the JSON object to send.
    Chunk { kind: ChunkKind, body: JsonValue },
    /// The final `[DONE]` marker.
    Done,
}

pub struct StreamResponseV {
    pub id: Option<Seq<char>>,
    pub end_turn: Option<bool>,
    pub usage: Option<TokenUsage>,
}

pub struct StreamEventV {
    pub kind: Seq<char>,
    pub response: Option<StreamResponseV>,
    pub delta: Option<Seq<char>>,
    pub item_id: Option<Seq<char>>,
    pub call_id: Option<Seq<char>>,
}

pub enum StreamOutputV {
    Chunk { kind: ChunkKind, body: JsonV },
    Done,
}

impl DeepView for StreamResponse {
    type V = StreamResponseV;

    open spec fn deep_view(&self) -> StreamResponseV {
        StreamResponseV { id: self.id.deep_view(), end_turn: self.end_turn, usage: self.usage }
    }
}

impl DeepView for StreamEvent {
    type V = StreamEventV;

    open spec fn deep_view(&self) -> StreamEventV {
        StreamEventV {
            kind: self.kind@,
            response: self.response.deep_view(),
            delta: self.delta.deep_view(),
            item_id: self.item_id.deep_view(),
            call_id: self.call_id.deep_view(),
        }
    }
}

impl DeepView for StreamOutput {
    type V = StreamOutputV;

    open spec fn deep_view(&self) -> StreamOutputV {
        match self {
            StreamOutput::Chunk { kind, body } => StreamOutputV::Chunk { kind: *kind, body: json_view(*body) },
            StreamOutput::Done => StreamOutputV::Done,
        }
    }
}

pub open spec fn unsigned_json(n: u64) -> JsonV {
    JsonV::Number(JsonNumberV::Unsigned(n))
}

pub open spec fn signed_json(n: i64) -> JsonV {
    JsonV::Number(JsonNumberV::Signed(n))
}

/// A chunk object with one choice holding `delta` and `finish_reason`.
pub open spec fn chunk_json(id: Seq<char>, created: u64, model: Seq<char>, delta: JsonV, finish: JsonV) -> JsonV {
    JsonV::Object(
        seq![
            ("id"@, JsonV::Str(id)),
            ("object"@, JsonV::Str("chat.completion.chunk"@)),
            ("created"@, unsigned_json(created)),
            ("model"@, JsonV::Str(model)),
            ("choices"@, JsonV::Array(
                seq![
                    JsonV::Object(
                        seq![
                            ("index"@, unsigned_json(0)),
                            ("delta"@, delta),
                            ("finish_reason"@, finish),
                        ],
                    ),
                ],
            )),
        ],
    )
}

/// A usage chunk: an empty delta, no finish reason, and the token counts.
pub open spec fn usage_chunk_json(id: Seq<char>, created: u64, model: Seq<char>, u: TokenUsage) -> JsonV {
    match chunk_json(id, created, model, JsonV::Object(Seq::empty()), JsonV::Null) {
        JsonV::Object(members) => JsonV::Object(
            members.push(
                ("usage"@, JsonV::Object(
                    seq![
                        ("prompt_tokens"@, signed_json(u.input_tokens)),
                        ("completion_tokens"@, signed_json(u.output_tokens)),
                        ("total_tokens"@, signed_json(u.total_tokens)),
                    ],
                )),
            ),
        ),
        _ => JsonV::Null,
    }
}

pub open spec fn role_delta() -> JsonV {
    JsonV::Object(seq![("role"@, JsonV::Str("assistant"@))])
}

pub open spec fn content_delta(text: Seq<char>) -> JsonV {
    JsonV::Object(seq![("content"@, JsonV::Str(text))])
}

pub open spec fn tool_call_delta(call_id: Seq<char>, arguments: Seq<char>) -> JsonV {
    JsonV::Object(
        seq![
            ("tool_calls"@, JsonV::Array(
                seq![
                    JsonV::Object(
                        seq![
                            ("index"@, unsigned_json(0)),
                            ("id"@, JsonV::Str(call_id)),
                            ("type"@, JsonV::Str("function"@)),
                            ("function"@, JsonV::Object(seq![("arguments"@, JsonV::Str(arguments))])),
                        ],
                    ),
                ],
            )),
        ],
    )
}

// ---------------------------------------------------------------------------
// State
// ---------------------------------------------------------------------------

/// The state of one translated stream.
#[derive(Debug, PartialEq)]
pub struct ChatStreamState {
    pub model: String,
    pub response_id: Option<String>,
    pub created: u64,
    pub first_delta_sent: bool,
    pub completed_sent: bool,
    pub buffer: String,
}

pub struct ChatStreamStateV {
    pub model: Seq<char>,
    pub response_id: Option<Seq<char>>,
    pub created: u64,
    pub first_delta_sent: bool,
    pub completed_sent: bool,
    pub buffer: Seq<char>,
}

impl DeepView for ChatStreamState {
    type V = ChatStreamStateV;

    open spec fn deep_view(&self) -> ChatStreamStateV {
        ChatStreamStateV {
            model: self.model@,
            response_id: self.response_id.deep_view(),
            created: self.created,
            first_delta_sent: self.first_delta_sent,
            completed_sent: self.completed_sent,
            buffer: self.buffer@,
        }
    }
}

/// The chunk id in effect.
pub open spec fn current_id(st: ChatStreamStateV) -> Seq<char> {
    match st.response_id {
        Some(id) => id,
        None => "chatcmpl-unknown"@,
    }
}

/// `st` after adopting the id of `resp`, if it carries one.
pub open spec fn adopt_id(st: ChatStreamStateV, resp: Option<StreamResponseV>) -> ChatStreamStateV {
    match resp {
        Some(r) => match r.id {
            Some(id) => ChatStreamStateV { response_id: Some("chatcmpl-"@ + id), ..st },
            None => st,
        },
        None => st,
    }
}

pub open spec fn chunk_of(st: ChatStreamStateV, kind: ChunkKind, delta: JsonV, finish: JsonV) -> StreamOutputV {
    StreamOutputV::Chunk { kind, body: chunk_json(current_id(st), st.created, st.model, delta, finish) }
}

pub open spec fn finish_reason_text(end_turn: Option<bool>) -> Seq<char> {
    match end_turn {
        Some(false) => "length"@,
        _ => "stop"@,
    }
}

/// The state after one event, and what it sends.
pub open spec fn stream_step(st: ChatStreamStateV, ev: StreamEventV) -> (ChatStreamStateV, Seq<StreamOutputV>) {
    if ev.kind == "response.created"@ {
        let s1 = adopt_id(st, ev.response);
        (
            ChatStreamStateV { first_delta_sent: true, ..s1 },
            seq![chunk_of(s1, ChunkKind::Role, role_delta(), JsonV::Null)],
        )
    } else if ev.kind == "response.output_text.delta"@ {
        let role_part = if !st.first_delta_sent {
            seq![chunk_of(st, ChunkKind::Role, role_delta(), JsonV::Null)]
        } else {
            Seq::empty()
        };
        let content_part = match ev.delta {
            Some(d) => seq![chunk_of(st, ChunkKind::Content, content_delta(d), JsonV::Null)],
            None => Seq::empty(),
        };
        (ChatStreamStateV { first_delta_sent: true, ..st }, role_part + content_part)
    } else if ev.kind == "response.custom_tool_call_input.delta"@ {
        let call_id = match ev.call_id {
            Some(c) => c,
            None => match ev.item_id {
                Some(i) => i,
                None => "unknown"@,
            },
        };
        let args = match ev.delta {
            Some(d) => d,
            None => Seq::empty(),
        };
        (st, seq![chunk_of(st, ChunkKind::ToolCall, tool_call_delta(call_id, args), JsonV::Null)])
    } else if ev.kind == "response.completed"@ {
        match ev.response {
            Some(r) => {
                let s1 = adopt_id(st, ev.response);
                let finish = chunk_of(
                    s1,
                    ChunkKind::Finish,
                    JsonV::Object(Seq::empty()),
                    JsonV::Str(finish_reason_text(r.end_turn)),
                );
                let usage_part = match r.usage {
                    Some(u) => seq![
                        StreamOutputV::Chunk {
                            kind: ChunkKind::Usage,
                            body: usage_chunk_json(current_id(s1), s1.created, s1.model, u),
                        },
                    ],
                    None => Seq::empty(),
                };
                (
                    ChatStreamStateV { completed_sent: true, ..s1 },
                    seq![finish] + usage_part + seq![StreamOutputV::Done],
                )
            },
            None => (st, Seq::empty()),
        }
    } else {
        (st, Seq::empty())
    }
}

/// The state after a sequence of events, and everything sent.
pub open spec fn stream_run(st: ChatStreamStateV, evs: Seq<StreamEventV>) -> (ChatStreamStateV, Seq<StreamOutputV>)
    decreases evs.len(),
{
    if evs.len() == 0 {
        (st, Seq::empty())
    } else {
        let (s1, o1) = stream_run(st, evs.drop_last());
        let (s2, o2) = stream_step(s1, evs.last());
        (s2, o1 + o2)
    }
}

pub open spec fn is_kind(o: StreamOutputV, k: ChunkKind) -> bool {
    match o {
        StreamOutputV::Chunk { kind, .. } => kind == k,
        StreamOutputV::Done => false,
    }
}

pub open spec fn role_precedes_content(outs: Seq<StreamOutputV>) -> bool {
    forall|i: int|
        0 <= i < outs.len() && #[trigger] is_kind(outs[i], ChunkKind::Content) ==> exists|j: int|
            0 <= j < i && #[trigger] is_kind(outs[j], ChunkKind::Role)
}

proof fn lemma_run_role_first(st: ChatStreamStateV, evs: Seq<StreamEventV>)
    requires
        !st.first_delta_sent,
    ensures
        role_precedes_content(stream_run(st, evs).1),
        stream_run(st, evs).0.first_delta_sent ==> exists|j: int|
            0 <= j < stream_run(st, evs).1.len() && #[trigger] is_kind(stream_run(st, evs).1[j], ChunkKind::Role),
    decreases evs.len(),
{
    if evs.len() > 0 {
        lemma_run_role_first(st, evs.drop_last());
        let (s1, o1) = stream_run(st, evs.drop_last());
        let (s2, o2) = stream_step(s1, evs.last());
        let outs = o1 + o2;
        assert(stream_run(st, evs) == (s2, outs));
        let ev = evs.last();
        if s1.first_delta_sent {
            let j0 = choose|j: int| 0 <= j < o1.len() && #[trigger] is_kind(o1[j], ChunkKind::Role);
            assert(is_kind(outs[j0], ChunkKind::Role));
        }
        assert forall|i: int|
            0 <= i < outs.len() && #[trigger] is_kind(outs[i], ChunkKind::Content) implies exists|j: int|
                0 <= j < i && #[trigger] is_kind(outs[j], ChunkKind::Role) by {
            if i < o1.len() {
                assert(is_kind(o1[i], ChunkKind::Content));
                let j = choose|j: int| 0 <= j < i && #[trigger] is_kind(o1[j], ChunkKind::Role);
                assert(is_kind(outs[j], ChunkKind::Role));
            } else {
                // a content chunk is sent only for an output-text delta
                assert(ev.kind == "response.output_text.delta"@ || !is_kind(o2[i - o1.len()], ChunkKind::Content));
                if !s1.first_delta_sent {
                    assert(is_kind(o2[0], ChunkKind::Role));
                    assert(is_kind(outs[o1.len() as int], ChunkKind::Role));
                    assert(i > o1.len());
                } else {
                    let j0 = choose|j: int| 0 <= j < o1.len() && #[trigger] is_kind(o1[j], ChunkKind::Role);
                    assert(is_kind(outs[j0], ChunkKind::Role));
                }
            }
        }
        if s2.first_delta_sent && !s1.first_delta_sent {
            assert(ev.kind == "response.created"@ || ev.kind == "response.output_text.delta"@);
            assert(is_kind(o2[0], ChunkKind::Role));
            assert(is_kind(outs[o1.len() as int], ChunkKind::Role));
        }
    }
}

/// Law: in a stream that has not yet sent the assistant role, every content
/// chunk that the translation sends comes after a role chunk, whatever the
/// upstream events are.
pub proof fn law_role_precedes_content(st: ChatStreamStateV, evs: Seq<StreamEventV>)
    requires
        !st.first_delta_sent,
    ensures
        role_precedes_content(stream_run(st, evs).1),
{
    lemma_run_role_first(st, evs);
}

proof fn lemma_event_kinds_distinct()
    ensures
        "response.created"@ != "response.completed"@,
        "response.output_text.delta"@ != "response.completed"@,
        "response.custom_tool_call_input.delta"@ != "response.completed"@,
        "response.created"@ != "response.output_text.delta"@,
{
    reveal_strlit("response.created");
    reveal_strlit("response.completed");
    reveal_strlit("response.output_text.delta");
    reveal_strlit("response.custom_tool_call_input.delta");
    assert("response.created"@.len() == 16);
    assert("response.completed"@.len() == 18);
    assert("response.output_text.delta"@.len() == 26);
    assert("response.custom_tool_call_input.delta"@.len() == 37);
}

/// The finish reason of a chunk's one choice.
pub open spec fn chunk_finish_reason(body: JsonV) -> Option<JsonV> {
    match member_value(body, "choices"@) {
        Some(choices) => match array_item(choices, 0) {
            Some(choice) => member_value(choice, "finish_reason"@),
            None => None,
        },
        None => None,
    }
}

/// Law: a completed response first sends a finish chunk whose finish reason
/// is `length` where the response says the turn did not end, and `stop`
/// where it says the turn ended or says nothing; the stream then ends with
/// `[DONE]`.
pub proof fn law_finish_reason_follows_end_turn(st: ChatStreamStateV, ev: StreamEventV)
    requires
        ev.kind == "response.completed"@,
        ev.response is Some,
    ensures
        ({
            let outs = stream_step(st, ev).1;
            &&& outs.len() >= 2
            &&& outs.last() == StreamOutputV::Done
            &&& outs[0] is Chunk
            &&& outs[0]->kind == ChunkKind::Finish
            &&& chunk_finish_reason(outs[0]->body) == Some(
                JsonV::Str(
                    if ev.response->0.end_turn == Some(false) {
                        "length"@
                    } else {
                        "stop"@
                    },
                ),
            )
        }),
{
    reveal_strlit("response.completed");
    reveal_strlit("response.created");
    reveal_strlit("response.output_text.delta");
    reveal_strlit("response.custom_tool_call_input.delta");
    reveal_strlit("choices");
    reveal_strlit("finish_reason");
    reveal_strlit("id");
    reveal_strlit("object");
    reveal_strlit("created");
    reveal_strlit("model");
    reveal_strlit("index");
    reveal_strlit("delta");
    assert("response.completed"@.len() == 18);
    assert("response.created"@.len() == 16);
    assert("response.output_text.delta"@.len() == 26);
    assert("response.custom_tool_call_input.delta"@.len() == 37);
    assert("choices"@.len() == 7);
    assert("finish_reason"@.len() == 13);
    assert("id"@.len() == 2);
    assert("object"@.len() == 6);
    assert("created"@[1] != "choices"@[1]);
    assert("model"@.len() == 5);
    assert("index"@.len() == 5);
    assert("delta"@.len() == 5);
    let outs = stream_step(st, ev).1;
    let r = ev.response->0;
    let s1 = adopt_id(st, ev.response);
    let reason = JsonV::Str(finish_reason_text(r.end_turn));
    let choice_ms = seq![
        ("index"@, unsigned_json(0)),
        ("delta"@, JsonV::Object(Seq::empty())),
        ("finish_reason"@, reason),
    ];
    let ms = seq![
        ("id"@, JsonV::Str(current_id(s1))),
        ("object"@, JsonV::Str("chat.completion.chunk"@)),
        ("created"@, unsigned_json(s1.created)),
        ("model"@, JsonV::Str(s1.model)),
        ("choices"@, JsonV::Array(seq![JsonV::Object(choice_ms)])),
    ];
    let body = JsonV::Object(ms);
    assert(body == chunk_json(current_id(s1), s1.created, s1.model, JsonV::Object(Seq::empty()), reason));
    let finish = StreamOutputV::Chunk { kind: ChunkKind::Finish, body };
    let usage_part = match r.usage {
        Some(u) => seq![
            StreamOutputV::Chunk {
                kind: ChunkKind::Usage,
                body: usage_chunk_json(current_id(s1), s1.created, s1.model, u),
            },
        ],
        None => Seq::<StreamOutputV>::empty(),
    };
    assert(outs == seq![finish] + usage_part + seq![StreamOutputV::Done]);
    assert(outs[0] == finish);
    lemma_first_member_skip(ms, "choices"@);
    assert(ms.drop_first() =~= ms.subrange(1, 5));
    lemma_first_member_skip(ms.subrange(1, 5), "choices"@);
    assert(ms.subrange(1, 5).drop_first() =~= ms.subrange(2, 5));
    lemma_first_member_skip(ms.subrange(2, 5), "choices"@);
    assert(ms.subrange(2, 5).drop_first() =~= ms.subrange(3, 5));
    lemma_first_member_skip(ms.subrange(3, 5), "choices"@);
    assert(ms.subrange(3, 5).drop_first() =~= ms.subrange(4, 5));
    assert(member_value(body, "choices"@) == Some(JsonV::Array(seq![JsonV::Object(choice_ms)])));
    lemma_first_member_skip(choice_ms, "finish_reason"@);
    assert(choice_ms.drop_first() =~= choice_ms.subrange(1, 3));
    lemma_first_member_skip(choice_ms.subrange(1, 3), "finish_reason"@);
    assert(choice_ms.subrange(1, 3).drop_first() =~= choice_ms.subrange(2, 3));
    assert(member_value(JsonV::Object(choice_ms), "finish_reason"@) == Some(reason));
}

/// The `content` of a chunk's one choice's delta.
pub open spec fn chunk_delta_content(body: JsonV) -> Option<JsonV> {
    match member_value(body, "choices"@) {
        Some(choices) => match array_item(choices, 0) {
            Some(choice) => match member_value(choice, "delta"@) {
                Some(delta) => member_value(delta, "content"@),
                None => None,
            },
            None => None,
        },
        None => None,
    }
}

/// Law: a text delta is sent as one content chunk carrying exactly that
/// text, after an opening role chunk where none was sent before.
pub proof fn law_text_delta_sent_unchanged(st: ChatStreamStateV, ev: StreamEventV, text: Seq<char>)
    requires
        ev.kind == "response.output_text.delta"@,
        ev.delta == Some(text),
    ensures
        ({
            let outs = stream_step(st, ev).1;
            &&& outs.len() == if st.first_delta_sent { 1int } else { 2int }
            &&& outs.last() is Chunk
            &&& outs.last()->kind == ChunkKind::Content
            &&& chunk_delta_content(outs.last()->body) == Some(JsonV::Str(text))
            &&& !st.first_delta_sent ==> (outs[0] is Chunk && outs[0]->kind == ChunkKind::Role)
        }),
{
    reveal_strlit("response.created");
    reveal_strlit("response.output_text.delta");
    reveal_strlit("choices");
    reveal_strlit("delta");
    reveal_strlit("content");
    reveal_strlit("id");
    reveal_strlit("object");
    reveal_strlit("created");
    reveal_strlit("model");
    reveal_strlit("index");
    assert("response.created"@.len() == 16);
    assert("response.output_text.delta"@.len() == 26);
    assert("choices"@.len() == 7);
    assert("delta"@.len() == 5);
    assert("content"@.len() == 7);
    assert("id"@.len() == 2);
    assert("object"@.len() == 6);
    assert("created"@[1] != "choices"@[1]);
    assert("model"@.len() == 5);
    assert("index"@[0] != "delta"@[0]);
    let outs = stream_step(st, ev).1;
    let d = content_delta(text);
    let choice_ms = seq![("index"@, unsigned_json(0)), ("delta"@, d), ("finish_reason"@, JsonV::Null)];
    let ms = seq![
        ("id"@, JsonV::Str(current_id(st))),
        ("object"@, JsonV::Str("chat.completion.chunk"@)),
        ("created"@, unsigned_json(st.created)),
        ("model"@, JsonV::Str(st.model)),
        ("choices"@, JsonV::Array(seq![JsonV::Object(choice_ms)])),
    ];
    let body = JsonV::Object(ms);
    assert(body == chunk_json(current_id(st), st.created, st.model, d, JsonV::Null));
    let content = StreamOutputV::Chunk { kind: ChunkKind::Content, body };
    let role_part = if !st.first_delta_sent {
        seq![chunk_of(st, ChunkKind::Role, role_delta(), JsonV::Null)]
    } else {
        Seq::<StreamOutputV>::empty()
    };
    assert(outs == role_part + seq![content]);
    assert(outs.last() == content);
    lemma_first_member_skip(ms, "choices"@);
    assert(ms.drop_first() =~= ms.subrange(1, 5));
    lemma_first_member_skip(ms.subrange(1, 5), "choices"@);
    assert(ms.subrange(1, 5).drop_first() =~= ms.subrange(2, 5));
    lemma_first_member_skip(ms.subrange(2, 5), "choices"@);
    assert(ms.subrange(2, 5).drop_first() =~= ms.subrange(3, 5));
    lemma_first_member_skip(ms.subrange(3, 5), "choices"@);
    assert(ms.subrange(3, 5).drop_first() =~= ms.subrange(4, 5));
    assert(member_value(body, "choices"@) == Some(JsonV::Array(seq![JsonV::Object(choice_ms)])));
    lemma_first_member_skip(choice_ms, "delta"@);
    assert(choice_ms.drop_first() =~= choice_ms.subrange(1, 3));
    assert(member_value(JsonV::Object(choice_ms), "delta"@) == Some(d));
    assert(member_value(d, "content"@) == Some(JsonV::Str(text)));
}

/// Law: the `[DONE]` marker is sent exactly for a completion event that
/// carries a response; it is then the last item sent for that event, and the
/// stream counts as completed.
pub proof fn law_done_ends_completion(st: ChatStreamStateV, ev: StreamEventV)
    ensures
        ({
            let (s, outs) = stream_step(st, ev);
            &&& (exists|i: int| 0 <= i < outs.len() && outs[i] == StreamOutputV::Done) <==> (ev.kind
                == "response.completed"@ && ev.response is Some)
            &&& (ev.kind == "response.completed"@ && ev.response is Some) ==> outs.last() == StreamOutputV::Done
                && s.completed_sent
                && forall|i: int| 0 <= i < outs.len() - 1 ==> outs[i] != StreamOutputV::Done
        }),
{
    lemma_event_kinds_distinct();
    let (s, outs) = stream_step(st, ev);
    if ev.kind == "response.completed"@ && ev.response is Some {
        assert(outs[outs.len() - 1] == StreamOutputV::Done);
    } else {
        assert forall|i: int| 0 <= i < outs.len() implies outs[i] != StreamOutputV::Done by {
            assert(outs[i] is Chunk);
        }
    }
}

// ---------------------------------------------------------------------------
// Implementation
// ---------------------------------------------------------------------------

pub open spec fn members_view(members: Seq<(String, JsonValue)>) -> Seq<(Seq<char>, JsonV)> {
    members.map_values(|m: (String, JsonValue)| (m.0@, json_view(m.1)))
}

/// The members of a chunk object.
fn chunk_members(id: &str, created: u64, model: &str, delta: JsonValue, finish: JsonValue) -> (res: Vec<
    (String, JsonValue),
>)
    ensures
        JsonV::Object(members_view(res@)) == chunk_json(id@, created, model@, json_view(delta), json_view(finish)),
{
    let ghost dv = json_view(delta);
    let ghost fv = json_view(finish);
    let mut choice: Vec<(String, JsonValue)> = Vec::new();
    choice.push((String::from_str("index"), JsonValue::Number(JsonNumber::Unsigned(0))));
    choice.push((String::from_str("delta"), delta));
    choice.push((String::from_str("finish_reason"), finish));
    proof {
        lemma_object_view(choice);
        assert(members_view(choice@) =~= seq![("index"@, unsigned_json(0)), ("delta"@, dv), ("finish_reason"@, fv)]);
    }
    let choice_obj = JsonValue::Object(choice);
    let ghost cv = json_view(choice_obj);
    let mut choices: Vec<JsonValue> = Vec::new();
    choices.push(choice_obj);
    proof {
        lemma_array_view(choices);
        assert(choices@.map_values(|x: JsonValue| json_view(x)) =~= seq![cv]);
    }
    let choices_arr = JsonValue::Array(choices);
    let ghost av = json_view(choices_arr);
    let mut members: Vec<(String, JsonValue)> = Vec::new();
    members.push((String::from_str("id"), text_value(id)));
    members.push((String::from_str("object"), text_value("chat.completion.chunk")));
    members.push((String::from_str("created"), JsonValue::Number(JsonNumber::Unsigned(created))));
    members.push((String::from_str("model"), text_value(model)));
    members.push((String::from_str("choices"), choices_arr));
    assert(members_view(members@) =~= seq![
        ("id"@, JsonV::Str(id@)),
        ("object"@, JsonV::Str("chat.completion.chunk"@)),
        ("created"@, unsigned_json(created)),
        ("model"@, JsonV::Str(model@)),
        ("choices"@, av),
    ]);
    members
}

fn make_chunk(id: &str, created: u64, model: &str, delta: JsonValue, finish: JsonValue) -> (res: JsonValue)
    ensures
        json_view(res) == chunk_json(id@, created, model@, json_view(delta), json_view(finish)),
{
    let members = chunk_members(id, created, model, delta, finish);
    proof {
        lemma_object_view(members);
    }
    JsonValue::Object(members)
}

fn make_usage_chunk(id: &str, created: u64, model: &str, u: &TokenUsage) -> (res: JsonValue)
    ensures
        json_view(res) == usage_chunk_json(id@, created, model@, *u),
{
    let empty: Vec<(String, JsonValue)> = Vec::new();
    proof {
        lemma_object_view(empty);
        assert(members_view(empty@) =~= Seq::empty());
    }
    let mut members = chunk_members(id, created, model, JsonValue::Object(empty), JsonValue::Null);
    let ghost before = members_view(members@);
    let mut counts: Vec<(String, JsonValue)> = Vec::new();
    counts.push((String::from_str("prompt_tokens"), JsonValue::Number(JsonNumber::Signed(u.input_tokens))));
    counts.push((String::from_str("completion_tokens"), JsonValue::Number(JsonNumber::Signed(u.output_tokens))));
    counts.push((String::from_str("total_tokens"), JsonValue::Number(JsonNumber::Signed(u.total_tokens))));
    proof {
        lemma_object_view(counts);
        assert(members_view(counts@) =~= seq![
            ("prompt_tokens"@, signed_json(u.input_tokens)),
            ("completion_tokens"@, signed_json(u.output_tokens)),
            ("total_tokens"@, signed_json(u.total_tokens)),
        ]);
    }
    let counts_obj = JsonValue::Object(counts);
    let ghost uv = json_view(counts_obj);
    members.push((String::from_str("usage"), counts_obj));
    proof {
        lemma_object_view(members);
        assert(members_view(members@) =~= before.push(("usage"@, uv)));
    }
    JsonValue::Object(members)
}

impl ChatStreamState {
    /// A fresh stream for `model`, stamped with creation time `created`.
    pub fn with_created(model: String, created: u64) -> (res: ChatStreamState)
        ensures
            res.deep_view() == (ChatStreamStateV {
                model: model@,
                response_id: None,
                created,
                first_delta_sent: false,
                completed_sent: false,
                buffer: Seq::empty(),
            }),
    {
        ChatStreamState {
            model,
            response_id: None,
            created,
            first_delta_sent: false,
            completed_sent: false,
            buffer: String::new(),
        }
    }

    /// A fresh stream for `model`, stamped with the current time.
    pub fn new(model: String) -> (res: ChatStreamState)
        ensures
            res.deep_view() == (ChatStreamStateV {
                model: model@,
                response_id: None,
                created: res.created,
                first_delta_sent: false,
                completed_sent: false,
                buffer: Seq::empty(),
            }),
    {
        let now = unix_now_secs();
        ChatStreamState::with_created(model, now)
    }

    fn current_id_string(&self) -> (res: String)
        ensures
            res@ == current_id(self.deep_view()),
    {
        match &self.response_id {
            Some(id) => id.clone(),
            None => String::from_str("chatcmpl-unknown"),
        }
    }

    fn adopt_response_id(&mut self, resp: &Option<StreamResponse>)
        ensures
            final(self).deep_view() == adopt_id(old(self).deep_view(), resp.deep_view()),
    {
        if let Some(r) = resp {
            if let Some(id) = &r.id {
                let mut s = String::from_str("chatcmpl-");
                s.append(id.as_str());
                self.response_id = Some(s);
            }
        }
    }

    fn chunk(&self, kind: ChunkKind, delta: JsonValue, finish: JsonValue) -> (res: StreamOutput)
        ensures
            res.deep_view() == chunk_of(self.deep_view(), kind, json_view(delta), json_view(finish)),
    {
        let id = self.current_id_string();
        let body = make_chunk(id.as_str(), self.created, self.model.as_str(), delta, finish);
        StreamOutput::Chunk { kind, body }
    }

    /// Translates one upstream event; returns the items to send.
    pub fn convert_event(&mut self, ev: &StreamEvent) -> (res: Vec<StreamOutput>)
        ensures
            (final(self).deep_view(), res.deep_view()) == stream_step(old(self).deep_view(), ev.deep_view()),
    {
        let mut out: Vec<StreamOutput> = Vec::new();
        let kind = ev.kind.as_str();
        if str_eq(kind, "response.created") {
            self.adopt_response_id(&ev.response);
            let c = self.chunk(ChunkKind::Role, object1("role", text_value("assistant")), JsonValue::Null);
            out.push(c);
            self.first_delta_sent = true;
            assert(out.deep_view() =~= stream_step(old(self).deep_view(), ev.deep_view()).1);
        } else if str_eq(kind, "response.output_text.delta") {
            if !self.first_delta_sent {
                let c = self.chunk(ChunkKind::Role, object1("role", text_value("assistant")), JsonValue::Null);
                out.push(c);
            }
            let ghost after_role = out.deep_view();
            if let Some(d) = &ev.delta {
                let c = self.chunk(ChunkKind::Content, object1("content", JsonValue::Str(d.clone())), JsonValue::Null);
                out.push(c);
                assert(out.deep_view() =~= after_role.push(c.deep_view()));
            }
            self.first_delta_sent = true;
            assert(out.deep_view() =~= stream_step(old(self).deep_view(), ev.deep_view()).1);
        } else if str_eq(kind, "response.custom_tool_call_input.delta") {
            let call_id = match &ev.call_id {
                Some(c) => c.clone(),
                None => match &ev.item_id {
                    Some(i) => i.clone(),
                    None => String::from_str("unknown"),
                },
            };
            let args = match &ev.delta {
                Some(d) => d.clone(),
                None => String::new(),
            };
            let delta = self.tool_call_delta_value(call_id, args);
            let c = self.chunk(ChunkKind::ToolCall, delta, JsonValue::Null);
            out.push(c);
            assert(out.deep_view() =~= stream_step(old(self).deep_view(), ev.deep_view()).1);
        } else if str_eq(kind, "response.completed") {
            if let Some(r) = &ev.response {
                self.adopt_response_id(&ev.response);
                let reason = match r.end_turn {
                    Some(false) => String::from_str("length"),
                    _ => String::from_str("stop"),
                };
                let empty: Vec<(String, JsonValue)> = Vec::new();
                proof {
                    lemma_object_view(empty);
                    assert(members_view(empty@) =~= Seq::empty());
                }
                let c = self.chunk(ChunkKind::Finish, JsonValue::Object(empty), JsonValue::Str(reason));
                out.push(c);
                if let Some(u) = &r.usage {
                    let id = self.current_id_string();
                    let body = make_usage_chunk(id.as_str(), self.created, self.model.as_str(), u);
                    out.push(StreamOutput::Chunk { kind: ChunkKind::Usage, body });
                }
                out.push(StreamOutput::Done);
                self.completed_sent = true;
                assert(out.deep_view() =~= stream_step(old(self).deep_view(), ev.deep_view()).1);
            } else {
                assert(out.deep_view() =~= Seq::<StreamOutputV>::empty());
            }
        } else {
            assert(out.deep_view() =~= Seq::<StreamOutputV>::empty());
        }
        out
    }

    /// Appends upstream text to the pending buffer.
    pub fn push_text(&mut self, text: &str)
        ensures
            final(self).deep_view() == (ChatStreamStateV {
                buffer: old(self).buffer@ + text@,
                ..old(self).deep_view()
            }),
    {
        self.buffer.append(text);
    }

    /// Takes the next complete event out of the buffer: its payload, with the
    /// buffer keeping only the text after the event. The buffer is left as it
    /// is when no event is complete yet.
    pub fn parse_sse_event(&mut self) -> (res: Option<String>)
        ensures
            match next_event(old(self).buffer@, Seq::empty()) {
                Some((data, rest)) => res.deep_view() == Some(data) && final(self).deep_view() == (
                ChatStreamStateV { buffer: rest, ..old(self).deep_view() }),
                None => res is None && final(self).deep_view() == old(self).deep_view(),
            },
    {
        let ghost b = self.buffer@;
        let n = self.buffer.unicode_len();
        let mut p: usize = 0;
        let mut data = String::new();
        assert(b.skip(0) =~= b);
        loop
            invariant
                p <= n,
                n == b.len(),
                b == self.buffer@,
                self.deep_view() == old(self).deep_view(),
                next_event(b.skip(p as int), data@) == next_event(b, Seq::empty()),
            decreases n - p,
        {
            if p == n {
                assert(b.skip(p as int).len() == 0);
                return None;
            }
            let ghost t = b.skip(p as int);
            let mut e = p;
            while e < n && self.buffer.as_str().get_char(e) != '\n'
                invariant
                    p <= e <= n,
                    n == b.len(),
                    b == self.buffer@,
                    forall|k: int| p <= k < e ==> b[k] != '\n',
                decreases n - e,
            {
                e = e + 1;
            }
            proof {
                assert forall|k: int| 0 <= k < e - p implies t[k] != '\n' by {
                    assert(t[k] == b[p + k]);
                }
                if e < n {
                    assert(t[e - p] == b[e as int]);
                }
                lemma_newline_index_at(t, e - p);
            }
            let mut line_end = e;
            if e < n && e > p && self.buffer.as_str().get_char(e - 1) == '\r' {
                line_end = e - 1;
            }
            let next_p = if e < n {
                e + 1
            } else {
                n
            };
            let line = self.buffer.as_str().substring_char(p, line_end);
            proof {
                assert(line@ =~= first_line(t));
                if e < n {
                    assert(after_first_line(t) =~= b.skip(next_p as int));
                } else {
                    assert(after_first_line(t) =~= b.skip(next_p as int));
                }
                assert(t.len() > 0);
            }
            if line.unicode_len() == 0 {
                if data.unicode_len() > 0 {
                    let rest = String::from_str(self.buffer.as_str().substring_char(next_p, n));
                    assert(rest@ =~= b.skip(next_p as int));
                    self.buffer = rest;
                    return Some(data);
                }
            } else if starts_with(line, "data: ") {
                proof {
                    reveal_strlit("data: ");
                    assert("data: "@.len() == 6);
                }
                let payload = line.substring_char(6, line.unicode_len());
                data = String::from_str(payload);
                assert(data@ =~= line@.skip(6));
            }
            p = next_p;
        }
    }

    /// At the end of the upstream text: whether the final `[DONE]` marker
    /// still has to be sent. Either way the stream counts as completed
    /// afterwards.
    pub fn finish(&mut self) -> (res: bool)
        ensures
            res == !old(self).completed_sent,
            final(self).deep_view() == (ChatStreamStateV { completed_sent: true, ..old(self).deep_view() }),
    {
        if self.completed_sent {
            false
        } else {
            self.completed_sent = true;
            true
        }
    }

    fn tool_call_delta_value(&self, call_id: String, args: String) -> (res: JsonValue)
        ensures
            json_view(res) == tool_call_delta(call_id@, args@),
    {
        let ghost cid = call_id@;
        let ghost a = args@;
        let function = object1("arguments", JsonValue::Str(args));
        let ghost fv = json_view(function);
        let mut call: Vec<(String, JsonValue)> = Vec::new();
        call.push((String::from_str("index"), JsonValue::Number(JsonNumber::Unsigned(0))));
        call.push((String::from_str("id"), JsonValue::Str(call_id)));
        call.push((String::from_str("type"), text_value("function")));
        call.push((String::from_str("function"), function));
        proof {
            lemma_object_view(call);
            assert(members_view(call@) =~= seq![
                ("index"@, unsigned_json(0)),
                ("id"@, JsonV::Str(cid)),
                ("type"@, JsonV::Str("function"@)),
                ("function"@, fv),
            ]);
        }
        let call_obj = JsonValue::Object(call);
        let ghost cv = json_view(call_obj);
        let mut calls: Vec<JsonValue> = Vec::new();
        calls.push(call_obj);
        proof {
            lemma_array_view(calls);
            assert(calls@.map_values(|x: JsonValue| json_view(x)) =~= seq![cv]);
        }
        object1("tool_calls", JsonValue::Array(calls))
    }
}

// ---------------------------------------------------------------------------
// Framing
// ---------------------------------------------------------------------------

/// One frame of the translated stream: a chunk's JSON text, or the end
/// marker.
#[derive(Debug, Clone, PartialEq)]
pub enum Frame {
    Chunk(String),
    Done,
}

impl DeepView for Frame {
    /// The chunk's text, or `None` for the end marker.
    type V = Option<Seq<char>>;

    open spec fn deep_view(&self) -> Option<Seq<char>> {
        match self {
            Frame::Chunk(t) => Some(t@),
            Frame::Done => None,
        }
    }
}

/// A frame as a server-sent event.
pub open spec fn frame_text(f: Option<Seq<char>>) -> Seq<char> {
    match f {
        Some(t) => "data: "@ + t + "\n\n"@,
        None => "data: [DONE]\n\n"@,
    }
}

pub open spec fn contains_done(frames: Seq<Option<Seq<char>>>) -> bool {
    exists|i: int| 0 <= i < frames.len() && #[trigger] frames[i] is None
}

/// The events written for frames: each frame in turn, up to and including
/// the first end marker.
pub open spec fn frames_text(frames: Seq<Option<Seq<char>>>) -> Seq<char>
    decreases frames.len(),
{
    if frames.len() == 0 {
        Seq::empty()
    } else if contains_done(frames.drop_last()) {
        frames_text(frames.drop_last())
    } else {
        frames_text(frames.drop_last()) + frame_text(frames.last())
    }
}

/// The number of bytes of output after which reading pauses.
pub open spec fn output_pause_bytes() -> nat {
    4096
}

impl ChatStreamState {
    /// Writes frames as server-sent events to `out`, stopping at the end
    /// marker, after which the stream is completed. Tells whether reading
    /// pauses: once the stream is completed, or once `out` holds more than
    /// 4096 bytes.
    pub fn write_frames(&mut self, out: &mut String, frames: &Vec<Frame>) -> (stop: bool)
        ensures
            final(out)@ == old(out)@ + frames_text(frames.deep_view()),
            final(self).deep_view() == (ChatStreamStateV {
                completed_sent: old(self).completed_sent || contains_done(frames.deep_view()),
                ..old(self).deep_view()
            }),
            stop == (final(self).completed_sent || utf8_width_of(final(out)@) > output_pause_bytes()),
    {
        let ghost fv = frames.deep_view();
        let ghost start = out@;
        let n = frames.len();
        let mut done = false;
        proof {
            reveal_strlit("data: ");
            reveal_strlit("\n\n");
            reveal_strlit("data: [DONE]\n\n");
        }
        for i in 0..n
            invariant
                n == frames@.len(),
                fv == frames.deep_view(),
                out@ == start + frames_text(fv.take(i as int)),
                done == contains_done(fv.take(i as int)),
                self.deep_view() == old(self).deep_view(),
        {
            proof {
                assert(fv.take(i + 1).drop_last() =~= fv.take(i as int));
                assert(fv[i as int] == frames@[i as int].deep_view());
            }
            let ghost before = out@;
            if !done {
                match &frames[i] {
                    Frame::Chunk(t) => {
                        out.append("data: ");
                        out.append(t.as_str());
                        out.append("\n\n");
                        assert(out@ =~= before + frame_text(fv[i as int]));
                    },
                    Frame::Done => {
                        out.append("data: [DONE]\n\n");
                        done = true;
                        assert(fv.take(i + 1)[i as int] is None);
                    },
                }
            }
            proof {
                if contains_done(fv.take(i as int)) {
                    let j = choose|j: int| 0 <= j < fv.take(i as int).len() && #[trigger] fv.take(i as int)[j] is None;
                    assert(fv.take(i + 1)[j] is None);
                }
                if !contains_done(fv.take(i as int)) && fv[i as int] is Some {
                    assert forall|j: int| 0 <= j < fv.take(i + 1).len() implies !(#[trigger] fv.take(i + 1)[j] is None) by {
                        if j < i {
                            assert(fv.take(i + 1)[j] == fv.take(i as int)[j]);
                        }
                    }
                }
            }
        }
        assert(fv.take(n as int) =~= fv);
        if done {
            self.completed_sent = true;
        }
        self.completed_sent || utf8_len_exceeds(out.as_str(), 4096)
    }
}

} // verus!
