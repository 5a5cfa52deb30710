//! The decisions behind the human-readable output of a non-interactive run:
//! message prefixes, which notification prints what, how the final message
//! reaches the user, and the statistics at the end.
//!
//! The library describes output as lines of styled pieces; writing them to
//! the terminal, with or without colours, is left to the caller.

use vstd::prelude::*;
use vstd::string::*;
use crate::retry::Duration;
use crate::text::{
    char_width, concat_str, decimal_text, digit_char, i64_to_decimal, join_seqs, join_strings, push_char,
    push_decimal, signed_decimal_text, utf8_width, utf8_width_of,
};

verus! {

// ---------------------------------------------------------------------------
// Styled output
// ---------------------------------------------------------------------------

/// One of the processor's text styles.
#[derive(Debug, Clone, Copy, PartialEq, Eq, Structural)]
pub enum Tone {
    Bold,
    Cyan,
    Dimmed,
    Green,
    Italic,
    Magenta,
    Red,
    Yellow,
}

/// A piece of text and the styles applied to it, in order.
#[derive(Debug, Clone, PartialEq)]
pub struct Piece {
    pub text: String,
    pub tones: Vec<Tone>,
}

/// What the processor writes to standard error.
#[derive(Debug, Clone, PartialEq)]
pub enum Output {
    /// A line: the pieces, then a newline.
    Line(Vec<Piece>),
    /// The pieces without a newline, flushed at once.
    Partial(Vec<Piece>),
}

pub struct PieceV {
    pub text: Seq<char>,
    pub tones: Seq<Tone>,
}

pub enum OutputV {
    Line(Seq<PieceV>),
    Partial(Seq<PieceV>),
}

impl DeepView for Piece {
    type V = PieceV;

    open spec fn deep_view(&self) -> PieceV {
        PieceV { text: self.text@, tones: self.tones@ }
    }
}

impl DeepView for Output {
    type V = OutputV;

    open spec fn deep_view(&self) -> OutputV {
        match self {
            Output::Line(ps) => OutputV::Line(ps.deep_view()),
            Output::Partial(ps) => OutputV::Partial(ps.deep_view()),
        }
    }
}

pub open spec fn plain_v(text: Seq<char>) -> PieceV {
    PieceV { text, tones: Seq::empty() }
}

pub open spec fn toned_v(text: Seq<char>, tone: Tone) -> PieceV {
    PieceV { text, tones: seq![tone] }
}

/// An unstyled piece.
pub fn plain(text: String) -> (res: Piece)
    ensures
        res.deep_view() == plain_v(text@),
{
    Piece { text, tones: Vec::new() }
}

/// A piece in one style.
pub fn toned(text: String, tone: Tone) -> (res: Piece)
    ensures
        res.deep_view() == toned_v(text@, tone),
{
    let mut tones = Vec::new();
    tones.push(tone);
    Piece { text, tones }
}

fn line1(a: Piece) -> (res: Output)
    ensures
        res.deep_view() == OutputV::Line(seq![a.deep_view()]),
{
    let mut ps = Vec::new();
    ps.push(a);
    proof {
        assert(ps.deep_view() =~= seq![a.deep_view()]);
    }
    Output::Line(ps)
}

fn line2(a: Piece, b: Piece) -> (res: Output)
    ensures
        res.deep_view() == OutputV::Line(seq![a.deep_view(), b.deep_view()]),
{
    let mut ps = Vec::new();
    ps.push(a);
    ps.push(b);
    proof {
        assert(ps.deep_view() =~= seq![a.deep_view(), b.deep_view()]);
    }
    Output::Line(ps)
}

fn line3(a: Piece, b: Piece, c: Piece) -> (res: Output)
    ensures
        res.deep_view() == OutputV::Line(seq![a.deep_view(), b.deep_view(), c.deep_view()]),
{
    let mut ps = Vec::new();
    ps.push(a);
    ps.push(b);
    ps.push(c);
    proof {
        assert(ps.deep_view() =~= seq![a.deep_view(), b.deep_view(), c.deep_view()]);
    }
    Output::Line(ps)
}

fn line4(a: Piece, b: Piece, c: Piece, d: Piece) -> (res: Output)
    ensures
        res.deep_view() == OutputV::Line(seq![a.deep_view(), b.deep_view(), c.deep_view(), d.deep_view()]),
{
    let mut ps = Vec::new();
    ps.push(a);
    ps.push(b);
    ps.push(c);
    ps.push(d);
    proof {
        assert(ps.deep_view() =~= seq![a.deep_view(), b.deep_view(), c.deep_view(), d.deep_view()]);
    }
    Output::Line(ps)
}

fn line5(a: Piece, b: Piece, c: Piece, d: Piece, e: Piece) -> (res: Output)
    ensures
        res.deep_view() == OutputV::Line(
            seq![a.deep_view(), b.deep_view(), c.deep_view(), d.deep_view(), e.deep_view()],
        ),
{
    let mut ps = Vec::new();
    ps.push(a);
    ps.push(b);
    ps.push(c);
    ps.push(d);
    ps.push(e);
    proof {
        assert(ps.deep_view() =~= seq![a.deep_view(), b.deep_view(), c.deep_view(), d.deep_view(), e.deep_view()]);
    }
    Output::Line(ps)
}

/// A piece of literal text, unstyled.
fn text_piece(text: &str) -> (res: Piece)
    ensures
        res.deep_view() == plain_v(text@),
{
    plain(String::from_str(text))
}

// ---------------------------------------------------------------------------
// Message prefixes
// ---------------------------------------------------------------------------

/// Whether a tool call is starting or done.
#[derive(Debug, Clone, Copy, PartialEq, Eq, Structural)]
pub enum MsgPhase {
    /// The call started.
    Req,
    /// The call completed.
    Resp,
}

/// The kind of a message, which decides its label and style.
#[derive(Debug, Clone, Copy, PartialEq, Eq, Structural)]
pub enum MsgType {
    User,
    Assistant,
    Exec,
    Mcp,
    Collab,
    WebSearch,
    FileChange,
    Error,
    Stats,
    Info,
    Reasoning,
    Warning,
}

pub open spec fn phase_suffix(phase: MsgPhase) -> Seq<char> {
    match phase {
        MsgPhase::Req => "(req)"@,
        MsgPhase::Resp => "(resp)"@,
    }
}

pub open spec fn base_label_text(t: MsgType) -> Seq<char> {
    match t {
        MsgType::User => "user"@,
        MsgType::Assistant => "assistant"@,
        MsgType::Exec => "exec"@,
        MsgType::Mcp => "mcp"@,
        MsgType::Collab => "collab"@,
        MsgType::WebSearch => "web_search"@,
        MsgType::FileChange => "file_change"@,
        MsgType::Error => "ERROR"@,
        MsgType::Stats => "STATS"@,
        MsgType::Info => "info"@,
        MsgType::Reasoning => "thinking"@,
        MsgType::Warning => "warning"@,
    }
}

/// The label of a message: its base label, followed by the phase's suffix
/// when it has a phase.
pub open spec fn label_text(t: MsgType, phase: Option<MsgPhase>) -> Seq<char> {
    match phase {
        Some(p) => base_label_text(t) + phase_suffix(p),
        None => base_label_text(t),
    }
}

/// The style of a message's prefix.
pub open spec fn msg_tone(t: MsgType) -> Tone {
    match t {
        MsgType::User => Tone::Cyan,
        MsgType::Assistant => Tone::Green,
        MsgType::Exec => Tone::Yellow,
        MsgType::Mcp => Tone::Cyan,
        MsgType::Collab => Tone::Yellow,
        MsgType::WebSearch => Tone::Cyan,
        MsgType::FileChange => Tone::Dimmed,
        MsgType::Error => Tone::Red,
        MsgType::Stats => Tone::Magenta,
        MsgType::Info => Tone::Dimmed,
        MsgType::Reasoning => Tone::Dimmed,
        MsgType::Warning => Tone::Yellow,
    }
}

/// Errors, statistics and completed calls are set in bold.
pub open spec fn is_bold_spec(t: MsgType, phase: Option<MsgPhase>) -> bool {
    t is Error || t is Stats || phase == Some(MsgPhase::Resp)
}

impl MsgPhase {
    pub fn suffix(&self) -> (res: &'static str)
        ensures
            res@ == phase_suffix(*self),
    {
        match self {
            MsgPhase::Req => "(req)",
            MsgPhase::Resp => "(resp)",
        }
    }
}

impl MsgType {
    pub fn base_label(&self) -> (res: &'static str)
        ensures
            res@ == base_label_text(*self),
    {
        match self {
            MsgType::User => "user",
            MsgType::Assistant => "assistant",
            MsgType::Exec => "exec",
            MsgType::Mcp => "mcp",
            MsgType::Collab => "collab",
            MsgType::WebSearch => "web_search",
            MsgType::FileChange => "file_change",
            MsgType::Error => "ERROR",
            MsgType::Stats => "STATS",
            MsgType::Info => "info",
            MsgType::Reasoning => "thinking",
            MsgType::Warning => "warning",
        }
    }

    pub fn label(&self, phase: Option<&MsgPhase>) -> (res: String)
        ensures
            res@ == label_text(
                *self,
                match phase {
                    Some(p) => Some(*p),
                    None => None,
                },
            ),
    {
        match phase {
            Some(p) => concat_str(self.base_label(), p.suffix()),
            None => String::from_str(self.base_label()),
        }
    }

    pub fn style(&self) -> (res: Tone)
        ensures
            res == msg_tone(*self),
    {
        match self {
            MsgType::User => Tone::Cyan,
            MsgType::Assistant => Tone::Green,
            MsgType::Exec => Tone::Yellow,
            MsgType::Mcp => Tone::Cyan,
            MsgType::Collab => Tone::Yellow,
            MsgType::WebSearch => Tone::Cyan,
            MsgType::FileChange => Tone::Dimmed,
            MsgType::Error => Tone::Red,
            MsgType::Stats => Tone::Magenta,
            MsgType::Info => Tone::Dimmed,
            MsgType::Reasoning => Tone::Dimmed,
            MsgType::Warning => Tone::Yellow,
        }
    }

    pub fn is_bold(&self, phase: Option<&MsgPhase>) -> (res: bool)
        ensures
            res == is_bold_spec(
                *self,
                match phase {
                    Some(p) => Some(*p),
                    None => None,
                },
            ),
    {
        matches!(self, MsgType::Error | MsgType::Stats) || matches!(phase, Some(MsgPhase::Resp))
    }
}

/// Two decimal digits of `n`, below one hundred.
pub open spec fn two_digits(n: nat) -> Seq<char> {
    seq![(48 + n / 10) as char, (48 + n % 10) as char]
}

/// The time of day `secs` seconds after the Unix epoch, as `HH:MM:SS` (UTC).
pub open spec fn timestamp_text(secs: nat) -> Seq<char> {
    two_digits((secs / 3600) % 24) + ":"@ + two_digits((secs / 60) % 60) + ":"@ + two_digits(secs % 60)
}

fn push_two_digits(out: &mut String, n: u64)
    requires
        n < 100,
    ensures
        final(out)@ == old(out)@ + two_digits(n as nat),
{
    let tens = ((n / 10) as u8 + 48) as char;
    let ones = ((n % 10) as u8 + 48) as char;
    push_char(out, tens);
    push_char(out, ones);
}

/// The time of day `secs` seconds after the Unix epoch, as `HH:MM:SS`.
pub fn format_timestamp_at(secs: u64) -> (res: String)
    ensures
        res@ == timestamp_text(secs as nat),
{
    let hh = (secs / 3600) % 24;
    let mm = (secs / 60) % 60;
    let ss = secs % 60;
    let mut out = String::new();
    push_two_digits(&mut out, hh);
    push_char(&mut out, ':');
    push_two_digits(&mut out, mm);
    push_char(&mut out, ':');
    push_two_digits(&mut out, ss);
    proof {
        reveal_strlit(":");
    }
    out
}

/// The time of day now, as `HH:MM:SS`; midnight when the clock reads before
/// the Unix epoch.
pub fn format_timestamp() -> (res: String)
    ensures
        exists|secs: nat| res@ == timestamp_text(secs),
{
    format_timestamp_at(crate::clock::unix_now_secs())
}

/// Whether the first `k` characters of `s` take exactly eight bytes.
pub open spec fn is_eight_byte_prefix(s: Seq<char>, k: int) -> bool {
    0 <= k <= s.len() && utf8_width_of(s.take(k)) == 8
}

/// The short form of an id: its first eight bytes, when it is longer.
pub open spec fn short_hash_text(id: Seq<char>) -> Seq<char> {
    if utf8_width_of(id) > 8 {
        id.take(choose|k: int| is_eight_byte_prefix(id, k))
    } else {
        id
    }
}

/// An id that can be cut after eight bytes: one of at most eight bytes, or
/// one whose eighth byte ends a character.
pub open spec fn is_short_hashable(id: Seq<char>) -> bool {
    utf8_width_of(id) <= 8 || exists|k: int| is_eight_byte_prefix(id, k)
}

/// A longer prefix takes more bytes.
proof fn lemma_width_grows(s: Seq<char>, i: int, j: int)
    requires
        0 <= i < j <= s.len(),
    ensures
        utf8_width_of(s.take(i)) < utf8_width_of(s.take(j)),
    decreases j - i,
{
    assert(s.take(j).drop_last() =~= s.take(j - 1));
    if i < j - 1 {
        lemma_width_grows(s, i, j - 1);
    }
}

/// Taking one more character adds its width.
proof fn lemma_width_step(s: Seq<char>, i: int)
    requires
        0 <= i < s.len(),
    ensures
        utf8_width_of(s.take(i + 1)) == utf8_width_of(s.take(i)) + utf8_width(s[i]),
{
    assert(s.take(i + 1).drop_last() =~= s.take(i));
}

/// The short form of an id: its first eight bytes, when it is longer.
pub fn short_hash(id: &str) -> (res: String)
    requires
        is_short_hashable(id@),
    ensures
        res@ == short_hash_text(id@),
{
    let n = id.unicode_len();
    let mut width: usize = 0;
    let mut i: usize = 0;
    while i < n && width + char_width(id.get_char(i)) <= 8
        invariant
            n == id@.len(),
            i <= n,
            width == utf8_width_of(id@.take(i as int)),
            width <= 8,
        decreases n - i,
    {
        proof {
            lemma_width_step(id@, i as int);
        }
        width = width + char_width(id.get_char(i));
        i = i + 1;
    }
    if i == n {
        assert(id@.take(n as int) =~= id@);
        String::from_str(id)
    } else {
        proof {
            lemma_width_step(id@, i as int);
            // Every longer prefix is wider than eight bytes.
            assert forall|k: int| i < k <= n implies utf8_width_of(#[trigger] id@.take(k)) > 8 by {
                if i + 1 < k {
                    lemma_width_grows(id@, i + 1, k);
                }
            }
            assert(id@.take(n as int) =~= id@);
            assert(utf8_width_of(id@) > 8);
            let k = choose|k: int| is_eight_byte_prefix(id@, k);
            if k < i {
                lemma_width_grows(id@, k, i as int);
            }
            assert(k == i);
        }
        String::from_str(id.substring_char(0, i))
    }
}

/// The prefix of a message: its label, the short form of its id in
/// parentheses when it has one, and the time of day in brackets, in the
/// message's style and in bold where `is_bold_spec` says so.
pub open spec fn prefix_v(t: MsgType, phase: Option<MsgPhase>, id: Option<Seq<char>>, now_secs: nat) -> PieceV {
    PieceV {
        text: label_text(t, phase) + match id {
            Some(i) => " ("@ + short_hash_text(i) + ")"@,
            None => Seq::empty(),
        } + " ["@ + timestamp_text(now_secs) + "]"@,
        tones: if is_bold_spec(t, phase) {
            seq![msg_tone(t), Tone::Bold]
        } else {
            seq![msg_tone(t)]
        },
    }
}

/// The prefix of a message, at the time `now_secs` seconds after the Unix
/// epoch.
pub fn format_msg_prefix(t: MsgType, phase: Option<MsgPhase>, id: Option<&str>, now_secs: u64) -> (res: Piece)
    requires
        id matches Some(i) ==> is_short_hashable(i@),
    ensures
        res.deep_view() == prefix_v(
            t,
            phase,
            match id {
                Some(i) => Some(i@),
                None => None,
            },
            now_secs as nat,
        ),
{
    let mut text = t.label(phase.as_ref());
    match id {
        Some(i) => {
            text.append(" (");
            let h = short_hash(i);
            text.append(h.as_str());
            text.append(")");
        },
        None => {},
    }
    text.append(" [");
    let ts = format_timestamp_at(now_secs);
    text.append(ts.as_str());
    text.append("]");
    let mut tones = Vec::new();
    tones.push(t.style());
    if t.is_bold(phase.as_ref()) {
        tones.push(Tone::Bold);
    }
    proof {
        assert(tones@ =~= (if is_bold_spec(t, phase) {
            seq![msg_tone(t), Tone::Bold]
        } else {
            seq![msg_tone(t)]
        }));
        let v = prefix_v(t, phase, match id { Some(i) => Some(i@), None => None }, now_secs as nat);
        assert(text@ =~= v.text);
    }
    Piece { text, tones }
}

// ---------------------------------------------------------------------------
// Reasoning and final messages
// ---------------------------------------------------------------------------

/// The reasoning shown for an item: the raw content where it is wanted and
/// present, the summary otherwise, one entry per line; nothing when that is
/// empty.
pub open spec fn reasoning_text_spec(summary: Seq<Seq<char>>, content: Seq<Seq<char>>, show_raw: bool) -> Option<Seq<char>> {
    let entries = if show_raw && content.len() > 0 { content } else { summary };
    if entries.len() == 0 {
        None
    } else {
        Some(join_seqs(entries, "\n"@))
    }
}

pub fn reasoning_text(summary: &Vec<String>, content: &Vec<String>, show_raw_agent_reasoning: bool) -> (res: Option<String>)
    ensures
        res.deep_view() == reasoning_text_spec(summary.deep_view(), content.deep_view(), show_raw_agent_reasoning),
{
    let entries = if show_raw_agent_reasoning && content.len() > 0 { content } else { summary };
    if entries.len() == 0 {
        None
    } else {
        Some(join_strings(entries, "\n"))
    }
}

/// A character that `str::trim` removes: one with the Unicode `White_Space`
/// property.
pub open spec fn is_unicode_whitespace(c: char) -> bool {
    ('\u{9}' <= c <= '\u{d}') || c == ' ' || c == '\u{85}' || c == '\u{a0}' || c == '\u{1680}' || ('\u{2000}'
        <= c <= '\u{200a}') || c == '\u{2028}' || c == '\u{2029}' || c == '\u{202f}' || c == '\u{205f}' || c
        == '\u{3000}'
}

/// A text that is empty once trimmed.
pub open spec fn is_blank_text(s: Seq<char>) -> bool {
    forall|i: int| 0 <= i < s.len() ==> is_unicode_whitespace(#[trigger] s[i])
}

/// Whether the text is empty once trimmed.
pub fn is_blank(text: &str) -> (res: bool)
    ensures
        res == is_blank_text(text@),
{
    let n = text.unicode_len();
    let mut i: usize = 0;
    while i < n
        invariant
            n == text@.len(),
            i <= n,
            forall|j: int| 0 <= j < i ==> is_unicode_whitespace(#[trigger] text@[j]),
        decreases n - i,
    {
        let c = text.get_char(i);
        if !(('\u{9}' <= c && c <= '\u{d}') || c == ' ' || c == '\u{85}' || c == '\u{a0}' || c == '\u{1680}'
            || ('\u{2000}' <= c && c <= '\u{200a}') || c == '\u{2028}' || c == '\u{2029}' || c == '\u{202f}'
            || c == '\u{205f}' || c == '\u{3000}') {
            return false;
        }
        i = i + 1;
    }
    true
}

/// How the notifications and items this output reads are modelled.
#[derive(Debug, Clone, Copy, PartialEq, Eq, Structural)]
pub enum CommandExecutionStatus {
    InProgress,
    Completed,
    Failed,
    Declined,
}

#[derive(Debug, Clone, Copy, PartialEq, Eq, Structural)]
pub enum PatchApplyStatus {
    InProgress,
    Completed,
    Failed,
    Declined,
}

#[derive(Debug, Clone, Copy, PartialEq, Eq, Structural)]
pub enum McpToolCallStatus {
    InProgress,
    Completed,
    Failed,
}

#[derive(Debug, Clone, Copy, PartialEq, Eq, Structural)]
pub enum TurnStatus {
    Completed,
    Interrupted,
    Failed,
    InProgress,
}

#[derive(Debug, Clone, Copy, PartialEq, Eq, Structural)]
pub enum TurnPlanStepStatus {
    Pending,
    InProgress,
    Completed,
}

/// An item of a thread, with what this output reads of it.
#[derive(Debug, Clone, PartialEq)]
pub enum ThreadItem {
    AgentMessage { id: String, text: String },
    Plan { id: String, text: String },
    Reasoning { id: String, summary: Vec<String>, content: Vec<String> },
    CommandExecution {
        id: String,
        command: String,
        cwd: String,
        status: CommandExecutionStatus,
        aggregated_output: Option<String>,
        exit_code: Option<i32>,
        duration_ms: Option<i64>,
    },
    /// A file change, with the paths it touches.
    FileChange { id: String, changes: Vec<String>, status: PatchApplyStatus },
    /// A tool call on an MCP server; `error` is the error's message.
    McpToolCall { id: String, server: String, tool: String, status: McpToolCallStatus, error: Option<String> },
    /// A call of a collaboration tool; `tool` is the tool as debug output
    /// shows it.
    CollabAgentToolCall { id: String, tool: String },
    WebSearch { id: String, query: String },
    ContextCompaction { id: String },
    /// Any item this output does not show.
    Other,
}

/// The text of the last agent message among the items, or else of the last
/// plan.
pub open spec fn last_agent_message(items: Seq<ThreadItem>) -> Option<Seq<char>>
    decreases items.len(),
{
    if items.len() == 0 {
        None
    } else {
        match items.last() {
            ThreadItem::AgentMessage { text, .. } => Some(text@),
            _ => last_agent_message(items.drop_last()),
        }
    }
}

pub open spec fn last_plan(items: Seq<ThreadItem>) -> Option<Seq<char>>
    decreases items.len(),
{
    if items.len() == 0 {
        None
    } else {
        match items.last() {
            ThreadItem::Plan { text, .. } => Some(text@),
            _ => last_plan(items.drop_last()),
        }
    }
}

/// The final message of a turn: the last agent message, or else the last
/// plan.
pub open spec fn final_message_spec(items: Seq<ThreadItem>) -> Option<Seq<char>> {
    match last_agent_message(items) {
        Some(t) => Some(t),
        None => last_plan(items),
    }
}

pub fn final_message_from_turn_items(items: &[ThreadItem]) -> (res: Option<String>)
    ensures
        res.deep_view() == final_message_spec(items@),
{
    let n = items.len();
    let mut i = n;
    assert(items@.take(n as int) =~= items@);
    while i > 0
        invariant
            i <= n == items@.len(),
            last_agent_message(items@) == last_agent_message(items@.take(i as int)),
        decreases i,
    {
        assert(items@.take(i as int).drop_last() =~= items@.take(i - 1));
        if let ThreadItem::AgentMessage { text, .. } = &items[i - 1] {
            return Some(text.clone());
        }
        i = i - 1;
    }
    assert(items@.take(n as int) =~= items@);
    let mut i = n;
    while i > 0
        invariant
            i <= n == items@.len(),
            last_agent_message(items@) is None,
            last_plan(items@) == last_plan(items@.take(i as int)),
        decreases i,
    {
        assert(items@.take(i as int).drop_last() =~= items@.take(i - 1));
        if let ThreadItem::Plan { text, .. } = &items[i - 1] {
            return Some(text.clone());
        }
        i = i - 1;
    }
    None
}

/// Whether the final message goes to standard output: there is one, and not
/// both streams are terminals.
pub open spec fn prints_final_to_stdout(has_message: bool, stdout_is_terminal: bool, stderr_is_terminal: bool) -> bool {
    has_message && !(stdout_is_terminal && stderr_is_terminal)
}

/// Whether the final message goes to the terminal: there is one, it was not
/// shown yet, and both streams are terminals.
pub open spec fn prints_final_to_tty(
    has_message: bool,
    rendered: bool,
    stdout_is_terminal: bool,
    stderr_is_terminal: bool,
) -> bool {
    has_message && !rendered && stdout_is_terminal && stderr_is_terminal
}

pub fn should_print_final_message_to_stdout(
    final_message: Option<&str>,
    stdout_is_terminal: bool,
    stderr_is_terminal: bool,
) -> (res: bool)
    ensures
        res == prints_final_to_stdout(final_message is Some, stdout_is_terminal, stderr_is_terminal),
{
    final_message.is_some() && !(stdout_is_terminal && stderr_is_terminal)
}

pub fn should_print_final_message_to_tty(
    final_message: Option<&str>,
    final_message_rendered: bool,
    stdout_is_terminal: bool,
    stderr_is_terminal: bool,
) -> (res: bool)
    ensures
        res == prints_final_to_tty(final_message is Some, final_message_rendered, stdout_is_terminal, stderr_is_terminal),
{
    final_message.is_some() && !final_message_rendered && stdout_is_terminal && stderr_is_terminal
}

/// The final message is never printed twice: not both to standard output and
/// to the terminal.
pub proof fn law_final_message_printed_once(
    has_message: bool,
    rendered: bool,
    stdout_is_terminal: bool,
    stderr_is_terminal: bool,
)
    ensures
        !(prints_final_to_stdout(has_message, stdout_is_terminal, stderr_is_terminal) && prints_final_to_tty(
            has_message,
            rendered,
            stdout_is_terminal,
            stderr_is_terminal,
        )),
{
}

/// Without a final message nothing is printed at the end.
pub proof fn law_no_message_nothing_printed(rendered: bool, stdout_is_terminal: bool, stderr_is_terminal: bool)
    ensures
        !prints_final_to_stdout(false, stdout_is_terminal, stderr_is_terminal),
        !prints_final_to_tty(false, rendered, stdout_is_terminal, stderr_is_terminal),
{
}

// ---------------------------------------------------------------------------
// Notifications and the processor's state
// ---------------------------------------------------------------------------

/// Token counts of a thread so far.
#[derive(Debug, Clone, Copy, PartialEq, Eq, Structural)]
pub struct TokenTotals {
    pub total_tokens: i64,
    pub input_tokens: i64,
    pub cached_input_tokens: i64,
    pub output_tokens: i64,
    pub reasoning_output_tokens: i64,
}

/// A step of a turn's plan.
#[derive(Debug, Clone, PartialEq)]
pub struct PlanStep {
    pub step: String,
    pub status: TurnPlanStepStatus,
}

/// A notification from the server, with what this output reads of it. Texts
/// that the server sends as structured values (an error, a hook's event name
/// and status) are held as their printed form.
#[derive(Debug, Clone, PartialEq)]
pub enum ServerNotification {
    ConfigWarning { summary: String, details: Option<String> },
    Warning { message: String },
    Error { error: String },
    DeprecationNotice { summary: String, details: Option<String> },
    HookStarted { event_name: String },
    HookCompleted { event_name: String, status: String },
    ItemStarted { item: ThreadItem },
    ItemCompleted { item: ThreadItem },
    ModelRerouted { from_model: String, to_model: String },
    ModelVerification,
    ThreadTokenUsageUpdated { total: TokenTotals },
    TurnStarted,
    TurnCompleted { status: TurnStatus, items: Vec<ThreadItem>, error: Option<String> },
    TurnDiffUpdated { diff: String },
    TurnPlanUpdated { explanation: Option<String>, plan: Vec<PlanStep> },
    ReasoningSummaryTextDelta { item_id: String, delta: String },
    ReasoningTextDelta { item_id: String, delta: String },
    ReasoningSummaryPartAdded,
    /// Any notification this output does not show.
    Other,
}

/// Whether the run goes on after a notification.
#[derive(Debug, Clone, Copy, PartialEq, Eq, Structural)]
pub enum CodexStatus {
    Running,
    InitiateShutdown,
    Shutdown,
}

/// What the human-readable output remembers between notifications.
#[derive(Debug, Clone, PartialEq)]
pub struct HumanOutputState {
    pub show_agent_reasoning: bool,
    pub show_raw_agent_reasoning: bool,
    pub final_message: Option<String>,
    pub final_message_rendered: bool,
    pub emit_final_message_on_shutdown: bool,
    pub last_total_token_usage: Option<TokenTotals>,
    /// When the current turn started, as a span since the Unix epoch.
    pub turn_start_time: Option<Duration>,
    /// The reasoning item whose deltas are being shown.
    pub current_reasoning_item_id: Option<String>,
    pub command_exec_count: u64,
    pub mcp_tool_call_count: u64,
    pub collab_tool_call_count: u64,
    pub file_change_count: u64,
    pub web_search_count: u64,
}

pub struct HumanOutputStateV {
    pub show_agent_reasoning: bool,
    pub show_raw_agent_reasoning: bool,
    pub final_message: Option<Seq<char>>,
    pub final_message_rendered: bool,
    pub emit_final_message_on_shutdown: bool,
    pub last_total_token_usage: Option<TokenTotals>,
    pub turn_start_time: Option<int>,
    pub current_reasoning_item_id: Option<Seq<char>>,
    pub command_exec_count: u64,
    pub mcp_tool_call_count: u64,
    pub collab_tool_call_count: u64,
    pub file_change_count: u64,
    pub web_search_count: u64,
}

impl DeepView for HumanOutputState {
    type V = HumanOutputStateV;

    open spec fn deep_view(&self) -> HumanOutputStateV {
        HumanOutputStateV {
            show_agent_reasoning: self.show_agent_reasoning,
            show_raw_agent_reasoning: self.show_raw_agent_reasoning,
            final_message: self.final_message.deep_view(),
            final_message_rendered: self.final_message_rendered,
            emit_final_message_on_shutdown: self.emit_final_message_on_shutdown,
            last_total_token_usage: self.last_total_token_usage,
            turn_start_time: match self.turn_start_time {
                Some(d) => Some(d@),
                None => None,
            },
            current_reasoning_item_id: self.current_reasoning_item_id.deep_view(),
            command_exec_count: self.command_exec_count,
            mcp_tool_call_count: self.mcp_tool_call_count,
            collab_tool_call_count: self.collab_tool_call_count,
            file_change_count: self.file_change_count,
            web_search_count: self.web_search_count,
        }
    }
}

impl HumanOutputState {
    /// A fresh state: no message, no usage, no turn, all counts zero.
    pub fn new(show_agent_reasoning: bool, show_raw_agent_reasoning: bool) -> (res: Self)
        ensures
            res.deep_view() == (HumanOutputStateV {
                show_agent_reasoning,
                show_raw_agent_reasoning,
                final_message: None,
                final_message_rendered: false,
                emit_final_message_on_shutdown: false,
                last_total_token_usage: None,
                turn_start_time: None,
                current_reasoning_item_id: None,
                command_exec_count: 0,
                mcp_tool_call_count: 0,
                collab_tool_call_count: 0,
                file_change_count: 0,
                web_search_count: 0,
            }),
    {
        HumanOutputState {
            show_agent_reasoning,
            show_raw_agent_reasoning,
            final_message: None,
            final_message_rendered: false,
            emit_final_message_on_shutdown: false,
            last_total_token_usage: None,
            turn_start_time: None,
            current_reasoning_item_id: None,
            command_exec_count: 0,
            mcp_tool_call_count: 0,
            collab_tool_call_count: 0,
            file_change_count: 0,
            web_search_count: 0,
        }
    }
}

// ---------------------------------------------------------------------------
// Items
// ---------------------------------------------------------------------------

pub open spec fn some_id(id: String) -> Option<Seq<char>> {
    Some(id@)
}

/// What starting an item prints.
pub open spec fn item_started_output(item: ThreadItem, now_secs: nat) -> Seq<OutputV> {
    match item {
        ThreadItem::CommandExecution { command, cwd, .. } => seq![
            OutputV::Line(seq![PieceV { text: "exec"@, tones: seq![Tone::Italic, Tone::Magenta] }]),
            OutputV::Line(seq![toned_v(command@, Tone::Bold), plain_v(" in "@ + cwd@)]),
        ],
        ThreadItem::McpToolCall { server, tool, id, .. } => seq![
            OutputV::Line(
                seq![
                    prefix_v(MsgType::Mcp, Some(MsgPhase::Req), some_id(id), now_secs),
                    plain_v(" "@),
                    toned_v(server@ + "/"@ + tool@, Tone::Cyan),
                    plain_v(" "@),
                    toned_v("started"@, Tone::Dimmed),
                ],
            ),
        ],
        ThreadItem::WebSearch { query, id } => seq![
            OutputV::Line(
                seq![
                    prefix_v(MsgType::WebSearch, Some(MsgPhase::Req), some_id(id), now_secs),
                    plain_v(" "@ + query@),
                ],
            ),
        ],
        ThreadItem::FileChange { id, .. } => seq![
            OutputV::Line(seq![prefix_v(MsgType::FileChange, Some(MsgPhase::Req), some_id(id), now_secs)]),
        ],
        ThreadItem::CollabAgentToolCall { id, tool } => seq![
            OutputV::Line(
                seq![
                    prefix_v(MsgType::Collab, Some(MsgPhase::Req), some_id(id), now_secs),
                    plain_v(" "@ + tool@),
                ],
            ),
        ],
        _ => Seq::empty(),
    }
}

/// The ids that starting an item puts in a prefix can be shortened.
pub open spec fn item_started_ids_ok(item: ThreadItem) -> bool {
    match item {
        ThreadItem::McpToolCall { id, .. } => is_short_hashable(id@),
        ThreadItem::WebSearch { id, .. } => is_short_hashable(id@),
        ThreadItem::FileChange { id, .. } => is_short_hashable(id@),
        ThreadItem::CollabAgentToolCall { id, .. } => is_short_hashable(id@),
        _ => true,
    }
}

fn text_of(s: &str) -> (res: String)
    ensures
        res@ == s@,
{
    String::from_str(s)
}

fn cat(a: &str, b: &str) -> (res: String)
    ensures
        res@ == a@ + b@,
{
    concat_str(a, b)
}

fn cat3(a: &str, b: &str, c: &str) -> (res: String)
    ensures
        res@ == a@ + b@ + c@,
{
    let mut s = concat_str(a, b);
    s.append(c);
    s
}

/// Prints what starting an item shows.
pub fn render_item_started(item: &ThreadItem, now_secs: u64) -> (res: Vec<Output>)
    requires
        item_started_ids_ok(*item),
    ensures
        res.deep_view() == item_started_output(*item, now_secs as nat),
{
    let mut out: Vec<Output> = Vec::new();
    match item {
        ThreadItem::CommandExecution { command, cwd, .. } => {
            let mut tones = Vec::new();
            tones.push(Tone::Italic);
            tones.push(Tone::Magenta);
            assert(tones@ =~= seq![Tone::Italic, Tone::Magenta]);
            out.push(line1(Piece { text: text_of("exec"), tones }));
            out.push(line2(toned(command.clone(), Tone::Bold), plain(cat(" in ", cwd.as_str()))));
        },
        ThreadItem::McpToolCall { server, tool, id, .. } => {
            out.push(
                line5(
                    format_msg_prefix(MsgType::Mcp, Some(MsgPhase::Req), Some(id.as_str()), now_secs),
                    text_piece(" "),
                    toned(cat3(server.as_str(), "/", tool.as_str()), Tone::Cyan),
                    text_piece(" "),
                    toned(text_of("started"), Tone::Dimmed),
                ),
            );
        },
        ThreadItem::WebSearch { query, id } => {
            out.push(
                line2(
                    format_msg_prefix(MsgType::WebSearch, Some(MsgPhase::Req), Some(id.as_str()), now_secs),
                    plain(cat(" ", query.as_str())),
                ),
            );
        },
        ThreadItem::FileChange { id, .. } => {
            out.push(line1(format_msg_prefix(MsgType::FileChange, Some(MsgPhase::Req), Some(id.as_str()), now_secs)));
        },
        ThreadItem::CollabAgentToolCall { id, tool } => {
            out.push(
                line2(
                    format_msg_prefix(MsgType::Collab, Some(MsgPhase::Req), Some(id.as_str()), now_secs),
                    plain(cat(" ", tool.as_str())),
                ),
            );
        },
        _ => {},
    }
    assert(out.deep_view() =~= item_started_output(*item, now_secs as nat));
    out
}

/// ` in {ms}ms` for a known duration.
pub open spec fn duration_suffix(duration_ms: Option<i64>) -> Seq<char> {
    match duration_ms {
        Some(ms) => " in "@ + signed_decimal_text(ms as int) + "ms"@,
        None => Seq::empty(),
    }
}

/// How a finished command is described; a failed command without an exit
/// code counts as having exited with 1.
pub open spec fn command_status_label(
    status: CommandExecutionStatus,
    exit_code: Option<i32>,
    duration_ms: Option<i64>,
) -> Seq<char> {
    let suffix = duration_suffix(duration_ms);
    match status {
        CommandExecutionStatus::Completed => " succeeded"@ + suffix,
        CommandExecutionStatus::Failed => " exited "@ + signed_decimal_text(
            match exit_code {
                Some(c) => c as int,
                None => 1,
            },
        ) + suffix,
        CommandExecutionStatus::Declined => " declined"@ + suffix,
        CommandExecutionStatus::InProgress => " in progress"@ + suffix,
    }
}

pub open spec fn patch_status_text(status: PatchApplyStatus) -> Seq<char> {
    match status {
        PatchApplyStatus::Completed => "completed"@,
        PatchApplyStatus::Failed => "failed"@,
        PatchApplyStatus::Declined => "declined"@,
        PatchApplyStatus::InProgress => "in_progress"@,
    }
}

pub open spec fn mcp_status_piece(status: McpToolCallStatus) -> PieceV {
    match status {
        McpToolCallStatus::Completed => toned_v("completed"@, Tone::Green),
        McpToolCallStatus::Failed => toned_v("failed"@, Tone::Red),
        McpToolCallStatus::InProgress => toned_v("in_progress"@, Tone::Dimmed),
    }
}

/// The reasoning a completed reasoning item shows: none unless reasoning is
/// shown and its text is not blank.
pub open spec fn reasoning_shown(s: HumanOutputStateV, summary: Seq<Seq<char>>, content: Seq<Seq<char>>) -> Option<Seq<char>> {
    if s.show_agent_reasoning {
        match reasoning_text_spec(summary, content, s.show_raw_agent_reasoning) {
            Some(t) => if is_blank_text(t) {
                None
            } else {
                Some(t)
            },
            None => None,
        }
    } else {
        None
    }
}

/// What completing an item prints.
pub open spec fn item_completed_output(s: HumanOutputStateV, item: ThreadItem, now_secs: nat) -> Seq<OutputV> {
    match item {
        ThreadItem::AgentMessage { text, id } => seq![
            OutputV::Line(seq![prefix_v(MsgType::Assistant, None, some_id(id), now_secs)]),
            OutputV::Line(seq![plain_v(text@)]),
        ],
        ThreadItem::Reasoning { summary, content, id } => match reasoning_shown(
            s,
            summary.deep_view(),
            content.deep_view(),
        ) {
            Some(t) => seq![
                OutputV::Line(seq![prefix_v(MsgType::Reasoning, None, some_id(id), now_secs)]),
                OutputV::Line(seq![plain_v(t)]),
            ],
            None => Seq::empty(),
        },
        ThreadItem::CommandExecution { status, aggregated_output, exit_code, duration_ms, id, .. } => seq![
            OutputV::Line(
                seq![
                    prefix_v(MsgType::Exec, Some(MsgPhase::Resp), some_id(id), now_secs),
                    plain_v(": "@),
                    toned_v(command_status_label(status, exit_code, duration_ms), Tone::Green),
                ],
            ),
        ] + match aggregated_output {
            Some(o) => if is_blank_text(o@) {
                Seq::empty()
            } else {
                seq![OutputV::Line(seq![plain_v(o@)])]
            },
            None => Seq::empty(),
        },
        ThreadItem::FileChange { changes, status, id } => seq![
            OutputV::Line(
                seq![
                    prefix_v(MsgType::FileChange, Some(MsgPhase::Resp), some_id(id), now_secs),
                    plain_v(" "@ + patch_status_text(status)),
                ],
            ),
        ] + changes@.map_values(|c: String| OutputV::Line(seq![toned_v(c@, Tone::Dimmed)])),
        ThreadItem::McpToolCall { server, tool, status, error, id } => seq![
            OutputV::Line(
                seq![
                    prefix_v(MsgType::Mcp, Some(MsgPhase::Resp), some_id(id), now_secs),
                    plain_v(" "@),
                    toned_v(server@ + "/"@ + tool@, Tone::Cyan),
                    plain_v(" ("@),
                    mcp_status_piece(status),
                    plain_v(")"@),
                ],
            ),
        ] + match error {
            Some(e) => seq![OutputV::Line(seq![toned_v(e@, Tone::Red)])],
            None => Seq::empty(),
        },
        ThreadItem::WebSearch { query, id } => seq![
            OutputV::Line(
                seq![
                    prefix_v(MsgType::WebSearch, Some(MsgPhase::Resp), some_id(id), now_secs),
                    plain_v(" "@ + query@),
                ],
            ),
        ],
        ThreadItem::ContextCompaction { id } => seq![
            OutputV::Line(seq![prefix_v(MsgType::Info, None, some_id(id), now_secs)]),
            OutputV::Line(seq![toned_v("context compacted"@, Tone::Dimmed)]),
        ],
        _ => Seq::empty(),
    }
}

/// What completing an item changes: an agent message becomes the final
/// message, shown already; commands, file changes, MCP calls and web
/// searches are counted.
pub open spec fn item_completed_state(s: HumanOutputStateV, item: ThreadItem) -> HumanOutputStateV {
    match item {
        ThreadItem::AgentMessage { text, .. } => HumanOutputStateV {
            final_message: Some(text@),
            final_message_rendered: true,
            ..s
        },
        ThreadItem::CommandExecution { .. } => HumanOutputStateV {
            command_exec_count: (s.command_exec_count + 1) as u64,
            ..s
        },
        ThreadItem::FileChange { .. } => HumanOutputStateV { file_change_count: (s.file_change_count + 1) as u64, ..s },
        ThreadItem::McpToolCall { .. } => HumanOutputStateV {
            mcp_tool_call_count: (s.mcp_tool_call_count + 1) as u64,
            ..s
        },
        ThreadItem::WebSearch { .. } => HumanOutputStateV { web_search_count: (s.web_search_count + 1) as u64, ..s },
        _ => s,
    }
}

/// The ids that completing an item puts in a prefix can be shortened.
pub open spec fn item_completed_ids_ok(s: HumanOutputStateV, item: ThreadItem) -> bool {
    match item {
        ThreadItem::AgentMessage { id, .. } => is_short_hashable(id@),
        ThreadItem::Reasoning { summary, content, id } => reasoning_shown(
            s,
            summary.deep_view(),
            content.deep_view(),
        ) is Some ==> is_short_hashable(id@),
        ThreadItem::CommandExecution { id, .. } => is_short_hashable(id@),
        ThreadItem::FileChange { id, .. } => is_short_hashable(id@),
        ThreadItem::McpToolCall { id, .. } => is_short_hashable(id@),
        ThreadItem::WebSearch { id, .. } => is_short_hashable(id@),
        ThreadItem::ContextCompaction { id } => is_short_hashable(id@),
        _ => true,
    }
}

/// The counter that completing the item raises, if any, is below its
/// largest value.
pub open spec fn item_count_below_max(s: HumanOutputStateV, item: ThreadItem) -> bool {
    match item {
        ThreadItem::CommandExecution { .. } => s.command_exec_count < u64::MAX,
        ThreadItem::FileChange { .. } => s.file_change_count < u64::MAX,
        ThreadItem::McpToolCall { .. } => s.mcp_tool_call_count < u64::MAX,
        ThreadItem::WebSearch { .. } => s.web_search_count < u64::MAX,
        _ => true,
    }
}

/// The counter that the notification raises, if any, is below its largest
/// value: only a completed item raises one.
pub open spec fn notification_count_below_max(s: HumanOutputStateV, n: ServerNotification) -> bool {
    match n {
        ServerNotification::ItemCompleted { item } => item_count_below_max(s, item),
        _ => true,
    }
}

fn command_label(status: CommandExecutionStatus, exit_code: Option<i32>, duration_ms: Option<i64>) -> (res: String)
    ensures
        res@ == command_status_label(status, exit_code, duration_ms),
{
    let suffix = match duration_ms {
        Some(ms) => {
            let digits = i64_to_decimal(ms);
            cat3(" in ", digits.as_str(), "ms")
        },
        None => String::new(),
    };
    match status {
        CommandExecutionStatus::Completed => cat(" succeeded", suffix.as_str()),
        CommandExecutionStatus::Failed => {
            let code: i64 = match exit_code {
                Some(c) => c as i64,
                None => 1,
            };
            let digits = i64_to_decimal(code);
            cat3(" exited ", digits.as_str(), suffix.as_str())
        },
        CommandExecutionStatus::Declined => cat(" declined", suffix.as_str()),
        CommandExecutionStatus::InProgress => cat(" in progress", suffix.as_str()),
    }
}

fn patch_status(status: PatchApplyStatus) -> (res: &'static str)
    ensures
        res@ == patch_status_text(status),
{
    match status {
        PatchApplyStatus::Completed => "completed",
        PatchApplyStatus::Failed => "failed",
        PatchApplyStatus::Declined => "declined",
        PatchApplyStatus::InProgress => "in_progress",
    }
}

fn mcp_status(status: McpToolCallStatus) -> (res: Piece)
    ensures
        res.deep_view() == mcp_status_piece(status),
{
    match status {
        McpToolCallStatus::Completed => toned(text_of("completed"), Tone::Green),
        McpToolCallStatus::Failed => toned(text_of("failed"), Tone::Red),
        McpToolCallStatus::InProgress => toned(text_of("in_progress"), Tone::Dimmed),
    }
}

/// One dimmed line per changed path.
fn change_lines(changes: &Vec<String>) -> (res: Vec<Output>)
    ensures
        res.deep_view() == changes@.map_values(|c: String| OutputV::Line(seq![toned_v(c@, Tone::Dimmed)])),
{
    let mut out: Vec<Output> = Vec::new();
    let n = changes.len();
    for i in 0..n
        invariant
            n == changes@.len(),
            out.deep_view() == changes@.take(i as int).map_values(
                |c: String| OutputV::Line(seq![toned_v(c@, Tone::Dimmed)]),
            ),
    {
        out.push(line1(toned(changes[i].clone(), Tone::Dimmed)));
        assert(changes@.take(i + 1).map_values(|c: String| OutputV::Line(seq![toned_v(c@, Tone::Dimmed)]))
            =~= changes@.take(i as int).map_values(|c: String| OutputV::Line(seq![toned_v(c@, Tone::Dimmed)])).push(
            OutputV::Line(seq![toned_v(changes@[i as int]@, Tone::Dimmed)]),
        ));
        assert(out.deep_view() =~= changes@.take(i + 1).map_values(
            |c: String| OutputV::Line(seq![toned_v(c@, Tone::Dimmed)]),
        ));
    }
    assert(changes@.take(n as int) =~= changes@);
    out
}

impl HumanOutputState {
    /// Prints what completing an item shows, and records it.
    pub fn render_item_completed(&mut self, item: ThreadItem, now_secs: u64) -> (res: Vec<Output>)
        requires
            item_count_below_max(old(self).deep_view(), item),
            item_completed_ids_ok(old(self).deep_view(), item),
        ensures
            res.deep_view() == item_completed_output(old(self).deep_view(), item, now_secs as nat),
            final(self).deep_view() == item_completed_state(old(self).deep_view(), item),
    {
        let ghost item0 = item;
        let mut out: Vec<Output> = Vec::new();
        match item {
            ThreadItem::AgentMessage { text, id } => {
                out.push(line1(format_msg_prefix(MsgType::Assistant, None, Some(id.as_str()), now_secs)));
                out.push(line1(plain(text.clone())));
                self.final_message = Some(text);
                self.final_message_rendered = true;
            },
            ThreadItem::Reasoning { summary, content, id } => {
                if self.show_agent_reasoning {
                    if let Some(text) = reasoning_text(&summary, &content, self.show_raw_agent_reasoning) {
                        if !is_blank(text.as_str()) {
                            out.push(line1(format_msg_prefix(MsgType::Reasoning, None, Some(id.as_str()), now_secs)));
                            out.push(line1(plain(text)));
                        }
                    }
                }
            },
            ThreadItem::CommandExecution { status, aggregated_output, exit_code, duration_ms, id, .. } => {
                self.command_exec_count = self.command_exec_count + 1;
                let label = command_label(status, exit_code, duration_ms);
                out.push(
                    line3(
                        format_msg_prefix(MsgType::Exec, Some(MsgPhase::Resp), Some(id.as_str()), now_secs),
                        text_piece(": "),
                        toned(label, Tone::Green),
                    ),
                );
                if let Some(output) = aggregated_output {
                    if !is_blank(output.as_str()) {
                        out.push(line1(plain(output)));
                    }
                }
            },
            ThreadItem::FileChange { changes, status, id } => {
                self.file_change_count = self.file_change_count + 1;
                out.push(
                    line2(
                        format_msg_prefix(MsgType::FileChange, Some(MsgPhase::Resp), Some(id.as_str()), now_secs),
                        plain(cat(" ", patch_status(status))),
                    ),
                );
                let mut lines = change_lines(&changes);
                let ghost head = out.deep_view();
                out.append(&mut lines);
                assert(out.deep_view() =~= head + changes@.map_values(
                    |c: String| OutputV::Line(seq![toned_v(c@, Tone::Dimmed)]),
                ));
            },
            ThreadItem::McpToolCall { server, tool, status, error, id } => {
                self.mcp_tool_call_count = self.mcp_tool_call_count + 1;
                let head = format_msg_prefix(MsgType::Mcp, Some(MsgPhase::Resp), Some(id.as_str()), now_secs);
                let name = toned(cat3(server.as_str(), "/", tool.as_str()), Tone::Cyan);
                let mut pieces: Vec<Piece> = Vec::new();
                let ghost expected = seq![
                    head.deep_view(),
                    plain_v(" "@),
                    name.deep_view(),
                    plain_v(" ("@),
                    mcp_status_piece(status),
                    plain_v(")"@),
                ];
                pieces.push(head);
                pieces.push(text_piece(" "));
                pieces.push(name);
                pieces.push(text_piece(" ("));
                pieces.push(mcp_status(status));
                pieces.push(text_piece(")"));
                assert(pieces.deep_view() =~= expected);
                out.push(Output::Line(pieces));
                if let Some(e) = error {
                    out.push(line1(toned(e, Tone::Red)));
                }
            },
            ThreadItem::WebSearch { query, id } => {
                self.web_search_count = self.web_search_count + 1;
                out.push(
                    line2(
                        format_msg_prefix(MsgType::WebSearch, Some(MsgPhase::Resp), Some(id.as_str()), now_secs),
                        plain(cat(" ", query.as_str())),
                    ),
                );
            },
            ThreadItem::ContextCompaction { id } => {
                out.push(line1(format_msg_prefix(MsgType::Info, None, Some(id.as_str()), now_secs)));
                out.push(line1(toned(text_of("context compacted"), Tone::Dimmed)));
            },
            _ => {},
        }
        assert(out.deep_view() =~= item_completed_output(old(self).deep_view(), item0, now_secs as nat));
        out
    }
}

// ---------------------------------------------------------------------------
// Notifications
// ---------------------------------------------------------------------------

/// A warning line: the warning prefix, then the text.
pub open spec fn warning_line(text: Seq<char>, now_secs: nat) -> OutputV {
    OutputV::Line(seq![prefix_v(MsgType::Warning, None, None, now_secs), plain_v(" "@ + text)])
}

/// An error line: the error prefix, then the text.
pub open spec fn error_line(text: Seq<char>, now_secs: nat) -> OutputV {
    OutputV::Line(seq![prefix_v(MsgType::Error, None, None, now_secs), plain_v(" "@ + text)])
}

/// An information header line.
pub open spec fn info_line(now_secs: nat) -> OutputV {
    OutputV::Line(seq![prefix_v(MsgType::Info, None, None, now_secs)])
}

/// The line of a step of a plan: a tick for a completed step, an arrow for
/// the step in progress, a dimmed bullet and text for a pending one.
pub open spec fn plan_step_line(step: PlanStep) -> OutputV {
    match step.status {
        TurnPlanStepStatus::Completed => OutputV::Line(
            seq![plain_v("  "@), toned_v("✓"@, Tone::Green), plain_v(" "@ + step.step@)],
        ),
        TurnPlanStepStatus::InProgress => OutputV::Line(
            seq![plain_v("  "@), toned_v("→"@, Tone::Cyan), plain_v(" "@ + step.step@)],
        ),
        TurnPlanStepStatus::Pending => OutputV::Line(
            seq![plain_v("  "@), toned_v("•"@, Tone::Dimmed), plain_v(" "@), toned_v(step.step@, Tone::Dimmed)],
        ),
    }
}

/// A reasoning delta: a reasoning header where the delta starts another
/// item than the one being shown, then the delta itself, without a newline.
pub open spec fn delta_output(s: HumanOutputStateV, item_id: Seq<char>, delta: Seq<char>, now_secs: nat) -> Seq<OutputV> {
    (if s.current_reasoning_item_id != Some(item_id) {
        seq![OutputV::Line(seq![prefix_v(MsgType::Reasoning, None, Some(item_id), now_secs)])]
    } else {
        Seq::empty()
    }) + seq![OutputV::Partial(seq![plain_v(delta)])]
}

/// Whether a reasoning summary delta is shown.
pub open spec fn shows_summary_delta(s: HumanOutputStateV, delta: Seq<char>) -> bool {
    s.show_agent_reasoning && delta.len() > 0
}

/// Whether a raw reasoning delta is shown.
pub open spec fn shows_raw_delta(s: HumanOutputStateV, delta: Seq<char>) -> bool {
    s.show_agent_reasoning && s.show_raw_agent_reasoning && delta.len() > 0
}

/// What a notification prints.
pub open spec fn notification_output(s: HumanOutputStateV, n: ServerNotification, now_secs: nat) -> Seq<OutputV> {
    match n {
        ServerNotification::ConfigWarning { summary, details } => seq![
            warning_line(
                summary@ + match details {
                    Some(d) => " ("@ + d@ + ")"@,
                    None => Seq::empty(),
                },
                now_secs,
            ),
        ],
        ServerNotification::Warning { message } => seq![warning_line(message@, now_secs)],
        ServerNotification::Error { error } => seq![error_line(error@, now_secs)],
        ServerNotification::DeprecationNotice { summary, details } => seq![warning_line(summary@, now_secs)]
            + match details {
            Some(d) => seq![OutputV::Line(seq![toned_v(d@, Tone::Dimmed)])],
            None => Seq::empty(),
        },
        ServerNotification::HookStarted { event_name } => seq![
            info_line(now_secs),
            OutputV::Line(seq![toned_v("hook:"@, Tone::Bold), plain_v(" "@), toned_v(event_name@, Tone::Dimmed)]),
        ],
        ServerNotification::HookCompleted { event_name, status } => seq![
            info_line(now_secs),
            OutputV::Line(
                seq![
                    toned_v("hook:"@, Tone::Bold),
                    plain_v(" "@),
                    toned_v(event_name@, Tone::Dimmed),
                    plain_v(" "@ + status@),
                ],
            ),
        ],
        ServerNotification::ItemStarted { item } => item_started_output(item, now_secs),
        ServerNotification::ItemCompleted { item } => item_completed_output(s, item, now_secs),
        ServerNotification::ModelRerouted { from_model, to_model } => seq![
            warning_line(from_model@ + " -> "@ + to_model@, now_secs),
        ],
        ServerNotification::TurnCompleted { status, error, .. } => match status {
            TurnStatus::Failed => match error {
                Some(e) => seq![error_line(e@, now_secs)],
                None => Seq::empty(),
            },
            TurnStatus::Interrupted => seq![
                info_line(now_secs),
                OutputV::Line(seq![toned_v("turn interrupted"@, Tone::Dimmed)]),
            ],
            _ => Seq::empty(),
        },
        ServerNotification::TurnDiffUpdated { diff } => if is_blank_text(diff@) {
            Seq::empty()
        } else {
            seq![OutputV::Line(seq![plain_v(diff@)])]
        },
        ServerNotification::TurnPlanUpdated { explanation, plan } => (match explanation {
            Some(e) => seq![OutputV::Line(seq![toned_v(e@, Tone::Italic)])],
            None => Seq::empty(),
        }) + plan@.map_values(|step: PlanStep| plan_step_line(step)),
        ServerNotification::ReasoningSummaryTextDelta { item_id, delta } => if shows_summary_delta(s, delta@) {
            delta_output(s, item_id@, delta@, now_secs)
        } else {
            Seq::empty()
        },
        ServerNotification::ReasoningTextDelta { item_id, delta } => if shows_raw_delta(s, delta@) {
            delta_output(s, item_id@, delta@, now_secs)
        } else {
            Seq::empty()
        },
        ServerNotification::ReasoningSummaryPartAdded => if s.show_agent_reasoning {
            seq![OutputV::Line(Seq::empty())]
        } else {
            Seq::empty()
        },
        _ => Seq::empty(),
    }
}

/// A finished turn asks to shut down; everything else keeps the run going.
pub open spec fn notification_status(n: ServerNotification) -> CodexStatus {
    match n {
        ServerNotification::TurnCompleted { status, .. } => if status is InProgress {
            CodexStatus::Running
        } else {
            CodexStatus::InitiateShutdown
        },
        _ => CodexStatus::Running,
    }
}

/// What a completed turn leaves: the turn's final message, marked as shown
/// only where it is the message already shown, and a request to print it at
/// shutdown.
pub open spec fn completed_turn_state(s: HumanOutputStateV, items: Seq<ThreadItem>) -> HumanOutputStateV {
    let rendered_message = if s.final_message_rendered {
        s.final_message
    } else {
        None
    };
    match final_message_spec(items) {
        Some(m) => HumanOutputStateV {
            final_message_rendered: rendered_message == Some(m),
            final_message: Some(m),
            emit_final_message_on_shutdown: true,
            ..s
        },
        None => HumanOutputStateV { emit_final_message_on_shutdown: true, ..s },
    }
}

/// A failed or interrupted turn leaves no final message.
pub open spec fn aborted_turn_state(s: HumanOutputStateV) -> HumanOutputStateV {
    HumanOutputStateV {
        final_message: None,
        final_message_rendered: false,
        emit_final_message_on_shutdown: false,
        ..s
    }
}

/// What a notification changes, at the time `now` (a span since the Unix
/// epoch).
pub open spec fn notification_state(s: HumanOutputStateV, n: ServerNotification, now: int) -> HumanOutputStateV {
    match n {
        ServerNotification::ItemCompleted { item } => item_completed_state(s, item),
        ServerNotification::ThreadTokenUsageUpdated { total } => HumanOutputStateV {
            last_total_token_usage: Some(total),
            ..s
        },
        ServerNotification::TurnStarted => HumanOutputStateV { turn_start_time: Some(now), ..s },
        ServerNotification::TurnCompleted { status, items, .. } => match status {
            TurnStatus::Completed => completed_turn_state(s, items@),
            TurnStatus::Failed | TurnStatus::Interrupted => aborted_turn_state(s),
            TurnStatus::InProgress => s,
        },
        ServerNotification::ReasoningSummaryTextDelta { item_id, delta } => if shows_summary_delta(s, delta@) {
            HumanOutputStateV { current_reasoning_item_id: Some(item_id@), ..s }
        } else {
            s
        },
        ServerNotification::ReasoningTextDelta { item_id, delta } => if shows_raw_delta(s, delta@) {
            HumanOutputStateV { current_reasoning_item_id: Some(item_id@), ..s }
        } else {
            s
        },
        ServerNotification::ReasoningSummaryPartAdded => if s.show_agent_reasoning {
            HumanOutputStateV { current_reasoning_item_id: None, ..s }
        } else {
            s
        },
        _ => s,
    }
}

/// The ids that a notification puts in a prefix can be shortened.
pub open spec fn notification_ids_ok(s: HumanOutputStateV, n: ServerNotification) -> bool {
    match n {
        ServerNotification::ItemStarted { item } => item_started_ids_ok(item),
        ServerNotification::ItemCompleted { item } => item_completed_ids_ok(s, item),
        ServerNotification::ReasoningSummaryTextDelta { item_id, delta } => shows_summary_delta(s, delta@)
            ==> is_short_hashable(item_id@),
        ServerNotification::ReasoningTextDelta { item_id, delta } => shows_raw_delta(s, delta@) ==> is_short_hashable(
            item_id@,
        ),
        _ => true,
    }
}

fn warning_output(text: String, now_secs: u64) -> (res: Output)
    ensures
        res.deep_view() == warning_line(text@, now_secs as nat),
{
    line2(format_msg_prefix(MsgType::Warning, None, None, now_secs), plain(cat(" ", text.as_str())))
}

fn error_output(text: String, now_secs: u64) -> (res: Output)
    ensures
        res.deep_view() == error_line(text@, now_secs as nat),
{
    line2(format_msg_prefix(MsgType::Error, None, None, now_secs), plain(cat(" ", text.as_str())))
}

fn info_output(now_secs: u64) -> (res: Output)
    ensures
        res.deep_view() == info_line(now_secs as nat),
{
    line1(format_msg_prefix(MsgType::Info, None, None, now_secs))
}

fn plan_step_output(step: &PlanStep) -> (res: Output)
    ensures
        res.deep_view() == plan_step_line(*step),
{
    match step.status {
        TurnPlanStepStatus::Completed => line3(
            text_piece("  "),
            toned(text_of("✓"), Tone::Green),
            plain(cat(" ", step.step.as_str())),
        ),
        TurnPlanStepStatus::InProgress => line3(
            text_piece("  "),
            toned(text_of("→"), Tone::Cyan),
            plain(cat(" ", step.step.as_str())),
        ),
        TurnPlanStepStatus::Pending => line4(
            text_piece("  "),
            toned(text_of("•"), Tone::Dimmed),
            text_piece(" "),
            toned(step.step.clone(), Tone::Dimmed),
        ),
    }
}

fn plan_output(explanation: Option<String>, plan: &Vec<PlanStep>) -> (res: Vec<Output>)
    ensures
        res.deep_view() == (match explanation {
            Some(e) => seq![OutputV::Line(seq![toned_v(e@, Tone::Italic)])],
            None => Seq::empty(),
        }) + plan@.map_values(|step: PlanStep| plan_step_line(step)),
{
    let mut out: Vec<Output> = Vec::new();
    if let Some(e) = explanation {
        out.push(line1(toned(e, Tone::Italic)));
    }
    let ghost head = out.deep_view();
    let n = plan.len();
    for i in 0..n
        invariant
            n == plan@.len(),
            out.deep_view() == head + plan@.take(i as int).map_values(|step: PlanStep| plan_step_line(step)),
    {
        let ghost before = out.deep_view();
        let line = plan_step_output(&plan[i]);
        out.push(line);
        assert(out.deep_view() =~= before.push(line.deep_view()));
        assert(plan@.take(i + 1).map_values(|step: PlanStep| plan_step_line(step)) =~= plan@.take(
            i as int,
        ).map_values(|step: PlanStep| plan_step_line(step)).push(plan_step_line(plan@[i as int])));
        assert(out.deep_view() =~= head + plan@.take(i + 1).map_values(|step: PlanStep| plan_step_line(step)));
    }
    assert(plan@.take(n as int) =~= plan@);
    out
}

/// Equality of optional texts.
fn same_id(current: &Option<String>, id: &str) -> (res: bool)
    ensures
        res == (current.deep_view() == Some(id@)),
{
    match current {
        Some(c) => crate::text::str_eq(c.as_str(), id),
        None => false,
    }
}

impl HumanOutputState {
    /// Prints a warning.
    pub fn process_warning(&self, message: String, now_secs: u64) -> (res: (Vec<Output>, CodexStatus))
        ensures
            res.0.deep_view() == seq![warning_line(message@, now_secs as nat)],
            res.1 == CodexStatus::Running,
    {
        let mut out = Vec::new();
        out.push(warning_output(message, now_secs));
        assert(out.deep_view() =~= seq![warning_line(message@, now_secs as nat)]);
        (out, CodexStatus::Running)
    }

    /// Shows a reasoning delta that is to be shown.
    fn show_delta(&mut self, item_id: String, delta: String, now_secs: u64) -> (res: Vec<Output>)
        requires
            is_short_hashable(item_id@),
        ensures
            res.deep_view() == delta_output(old(self).deep_view(), item_id@, delta@, now_secs as nat),
            final(self).deep_view() == (HumanOutputStateV {
                current_reasoning_item_id: Some(item_id@),
                ..old(self).deep_view()
            }),
    {
        let mut out: Vec<Output> = Vec::new();
        if !same_id(&self.current_reasoning_item_id, item_id.as_str()) {
            out.push(line1(format_msg_prefix(MsgType::Reasoning, None, Some(item_id.as_str()), now_secs)));
        }
        let mut pieces = Vec::new();
        pieces.push(plain(delta));
        assert(pieces.deep_view() =~= seq![plain_v(delta@)]);
        out.push(Output::Partial(pieces));
        self.current_reasoning_item_id = Some(item_id);
        assert(out.deep_view() =~= delta_output(old(self).deep_view(), item_id@, delta@, now_secs as nat));
        out
    }

    /// Records a completed turn.
    fn complete_turn(&mut self, items: &Vec<ThreadItem>)
        ensures
            final(self).deep_view() == completed_turn_state(old(self).deep_view(), items@),
    {
        let rendered_message = if self.final_message_rendered {
            self.final_message.clone()
        } else {
            None
        };
        assert(rendered_message.deep_view() == (if old(self).final_message_rendered {
            old(self).deep_view().final_message
        } else {
            None
        }));
        if let Some(final_message) = final_message_from_turn_items(items.as_slice()) {
            self.final_message_rendered = match &rendered_message {
                Some(r) => crate::text::str_eq(r.as_str(), final_message.as_str()),
                None => false,
            };
            self.final_message = Some(final_message);
        }
        self.emit_final_message_on_shutdown = true;
    }

    /// Prints what a notification shows and records what it changes, at the
    /// time `now` (a span since the Unix epoch); tells whether the run goes
    /// on.
    pub fn process_server_notification(&mut self, notification: ServerNotification, now: Duration) -> (res: (
        Vec<Output>,
        CodexStatus,
    ))
        requires
            notification_count_below_max(old(self).deep_view(), notification),
            notification_ids_ok(old(self).deep_view(), notification),
        ensures
            res.0.deep_view() == notification_output(old(self).deep_view(), notification, (now@ / 1_000_000_000) as nat),
            res.1 == notification_status(notification),
            final(self).deep_view() == notification_state(old(self).deep_view(), notification, now@),
    {
        let ghost n0 = notification;
        let now_secs = now.as_secs();
        let mut out: Vec<Output> = Vec::new();
        let mut status = CodexStatus::Running;
        match notification {
            ServerNotification::ConfigWarning { summary, details } => {
                let text = match details {
                    Some(d) => {
                        let t = cat3(summary.as_str(), cat(" (", d.as_str()).as_str(), ")");
                        assert(t@ =~= summary@ + (" ("@ + d@ + ")"@));
                        t
                    },
                    None => {
                        assert(summary@ =~= summary@ + Seq::<char>::empty());
                        summary
                    },
                };
                out.push(warning_output(text, now_secs));
            },
            ServerNotification::Warning { message } => {
                out.push(warning_output(message, now_secs));
            },
            ServerNotification::Error { error } => {
                out.push(error_output(error, now_secs));
            },
            ServerNotification::DeprecationNotice { summary, details } => {
                out.push(warning_output(summary, now_secs));
                if let Some(d) = details {
                    out.push(line1(toned(d, Tone::Dimmed)));
                }
            },
            ServerNotification::HookStarted { event_name } => {
                out.push(info_output(now_secs));
                out.push(line3(toned(text_of("hook:"), Tone::Bold), text_piece(" "), toned(event_name, Tone::Dimmed)));
            },
            ServerNotification::HookCompleted { event_name, status: hook_status } => {
                out.push(info_output(now_secs));
                out.push(
                    line4(
                        toned(text_of("hook:"), Tone::Bold),
                        text_piece(" "),
                        toned(event_name, Tone::Dimmed),
                        plain(cat(" ", hook_status.as_str())),
                    ),
                );
            },
            ServerNotification::ItemStarted { item } => {
                out = render_item_started(&item, now_secs);
            },
            ServerNotification::ItemCompleted { item } => {
                out = self.render_item_completed(item, now_secs);
            },
            ServerNotification::ModelRerouted { from_model, to_model } => {
                out.push(warning_output(cat3(from_model.as_str(), " -> ", to_model.as_str()), now_secs));
            },
            ServerNotification::ThreadTokenUsageUpdated { total } => {
                self.last_total_token_usage = Some(total);
            },
            ServerNotification::TurnStarted => {
                self.turn_start_time = Some(now);
            },
            ServerNotification::TurnCompleted { status: turn_status, items, error } => {
                match turn_status {
                    TurnStatus::Completed => {
                        self.complete_turn(&items);
                        status = CodexStatus::InitiateShutdown;
                    },
                    TurnStatus::Failed => {
                        self.final_message = None;
                        self.final_message_rendered = false;
                        self.emit_final_message_on_shutdown = false;
                        if let Some(e) = error {
                            out.push(error_output(e, now_secs));
                        }
                        status = CodexStatus::InitiateShutdown;
                    },
                    TurnStatus::Interrupted => {
                        self.final_message = None;
                        self.final_message_rendered = false;
                        self.emit_final_message_on_shutdown = false;
                        out.push(info_output(now_secs));
                        out.push(line1(toned(text_of("turn interrupted"), Tone::Dimmed)));
                        status = CodexStatus::InitiateShutdown;
                    },
                    TurnStatus::InProgress => {},
                }
            },
            ServerNotification::TurnDiffUpdated { diff } => {
                if !is_blank(diff.as_str()) {
                    out.push(line1(plain(diff)));
                }
            },
            ServerNotification::TurnPlanUpdated { explanation, plan } => {
                out = plan_output(explanation, &plan);
            },
            ServerNotification::ReasoningSummaryTextDelta { item_id, delta } => {
                if self.show_agent_reasoning && delta.unicode_len() > 0 {
                    out = self.show_delta(item_id, delta, now_secs);
                }
            },
            ServerNotification::ReasoningTextDelta { item_id, delta } => {
                if self.show_agent_reasoning && self.show_raw_agent_reasoning && delta.unicode_len() > 0 {
                    out = self.show_delta(item_id, delta, now_secs);
                }
            },
            ServerNotification::ReasoningSummaryPartAdded => {
                if self.show_agent_reasoning {
                    let empty: Vec<Piece> = Vec::new();
                    assert(empty.deep_view() =~= Seq::<PieceV>::empty());
                    out.push(Output::Line(empty));
                    self.current_reasoning_item_id = None;
                }
            },
            _ => {},
        }
        assert(out.deep_view() =~= notification_output(old(self).deep_view(), n0, now_secs as nat));
        (out, status)
    }
}

// ---------------------------------------------------------------------------
// The end of a run
// ---------------------------------------------------------------------------

/// The three decimal digits of `n`, below one thousand, with leading zeros.
pub open spec fn three_digits(n: nat) -> Seq<char> {
    seq![digit_char(n / 100), digit_char((n / 10) % 10), digit_char(n % 10)]
}

/// The decimal digits of `n` in groups of three, separated by commas.
pub open spec fn grouped_text(n: nat) -> Seq<char>
    decreases n,
{
    if n < 1000 {
        decimal_text(n)
    } else {
        grouped_text(n / 1000) + ","@ + three_digits(n % 1000)
    }
}

/// A count with its thousands separated by commas, and a leading `-` when
/// negative.
pub open spec fn grouped_signed_text(n: int) -> Seq<char> {
    if n < 0 {
        "-"@ + grouped_text((-n) as nat)
    } else {
        grouped_text(n as nat)
    }
}

fn push_grouped(out: &mut String, n: u64)
    ensures
        final(out)@ == old(out)@ + grouped_text(n as nat),
    decreases n,
{
    if n < 1000 {
        push_decimal(out, n);
    } else {
        push_grouped(out, n / 1000);
        push_char(out, ',');
        let r = n % 1000;
        push_char(out, ((r / 100) as u8 + 48) as char);
        push_char(out, (((r / 10) % 10) as u8 + 48) as char);
        push_char(out, ((r % 10) as u8 + 48) as char);
        proof {
            reveal_strlit(",");
        }
        assert(final(out)@ =~= old(out)@ + grouped_text(n as nat));
    }
}

/// A count with its thousands separated by commas, as English writes it.
pub fn format_with_separators(n: i64) -> (res: String)
    ensures
        res@ == grouped_signed_text(n as int),
{
    let mut out = String::new();
    if n < 0 {
        push_char(&mut out, '-');
        let m: u64 = if n == i64::MIN {
            9223372036854775808u64
        } else {
            (-n) as u64
        };
        push_grouped(&mut out, m);
        proof {
            reveal_strlit("-");
        }
    } else {
        push_grouped(&mut out, n as u64);
    }
    out
}

/// The statistics line of the tool calls.
pub open spec fn tool_calls_text(s: HumanOutputStateV) -> Seq<char> {
    "  tool calls:    "@ + decimal_text(
        (s.command_exec_count + s.mcp_tool_call_count + s.collab_tool_call_count + s.web_search_count) as nat,
    ) + " (shell: "@ + decimal_text(s.command_exec_count as nat) + ", mcp: "@ + decimal_text(
        s.mcp_tool_call_count as nat,
    ) + ", collab: "@ + decimal_text(s.collab_tool_call_count as nat) + ", web_search: "@ + decimal_text(
        s.web_search_count as nat,
    ) + ")"@
}

/// The statistics line of the tokens.
pub open spec fn tokens_text(t: TokenTotals) -> Seq<char> {
    "  tokens used:   "@ + grouped_signed_text(t.total_tokens as int) + " (input: "@ + grouped_signed_text(
        t.input_tokens as int,
    ) + ", cached: "@ + grouped_signed_text(t.cached_input_tokens as int) + ", output: "@
        + grouped_signed_text(t.output_tokens as int) + ", reasoning: "@ + grouped_signed_text(
        t.reasoning_output_tokens as int,
    ) + ")"@
}

/// The statistics printed at the end of a run, but for the lines that need
/// the wall clock (the duration, after the header, and the throughput, at
/// the end): the header, the tool calls, the file changes and, where known,
/// the tokens used.
pub open spec fn stats_output(s: HumanOutputStateV, now_secs: nat) -> Seq<OutputV> {
    seq![
        OutputV::Line(seq![prefix_v(MsgType::Stats, None, None, now_secs)]),
        OutputV::Line(seq![plain_v(tool_calls_text(s))]),
        OutputV::Line(seq![plain_v("  file changes:  "@ + decimal_text(s.file_change_count as nat))]),
    ] + match s.last_total_token_usage {
        Some(t) => seq![OutputV::Line(seq![plain_v(tokens_text(t))])],
        None => Seq::empty(),
    }
}

/// Whether the tool calls can be added up.
pub open spec fn tool_calls_countable(s: HumanOutputStateV) -> bool {
    s.command_exec_count + s.mcp_tool_call_count + s.collab_tool_call_count + s.web_search_count <= u64::MAX
}

/// Where the final message goes at the end of a run.
#[derive(Debug, Clone, PartialEq)]
pub enum FinalMessageTarget {
    Stdout(String),
    Stderr(String),
    Nowhere,
}

/// Where the final message goes: to standard output where
/// `prints_final_to_stdout` says so, else to the terminal where
/// `prints_final_to_tty` says so; only a message to print at shutdown counts.
pub open spec fn final_message_target(s: HumanOutputStateV, stdout_is_terminal: bool, stderr_is_terminal: bool) -> Option<(bool, Seq<char>)> {
    let message = if s.emit_final_message_on_shutdown { s.final_message } else { None };
    match message {
        Some(m) => if prints_final_to_stdout(true, stdout_is_terminal, stderr_is_terminal) {
            Some((true, m))
        } else if prints_final_to_tty(true, s.final_message_rendered, stdout_is_terminal, stderr_is_terminal) {
            Some((false, m))
        } else {
            None
        },
        None => None,
    }
}

impl HumanOutputState {
    /// The message to write to the last-message file at shutdown: the final
    /// message (or none) once a turn completed; nothing to write otherwise.
    pub fn last_message_to_write(&self) -> (res: Option<Option<String>>)
        ensures
            match res {
                Some(m) => self.emit_final_message_on_shutdown && m.deep_view() == self.deep_view().final_message,
                None => !self.emit_final_message_on_shutdown,
            },
    {
        if self.emit_final_message_on_shutdown {
            Some(self.final_message.clone())
        } else {
            None
        }
    }

    /// The statistics lines at the end of a run, at `now_secs` seconds after
    /// the Unix epoch.
    pub fn stats_lines(&self, now_secs: u64) -> (res: Vec<Output>)
        requires
            tool_calls_countable(self.deep_view()),
        ensures
            res.deep_view() == stats_output(self.deep_view(), now_secs as nat),
    {
        let mut out: Vec<Output> = Vec::new();
        out.push(line1(format_msg_prefix(MsgType::Stats, None, None, now_secs)));
        let total = self.command_exec_count + self.mcp_tool_call_count + self.collab_tool_call_count
            + self.web_search_count;
        let mut t = String::from_str("  tool calls:    ");
        push_decimal(&mut t, total);
        t.append(" (shell: ");
        push_decimal(&mut t, self.command_exec_count);
        t.append(", mcp: ");
        push_decimal(&mut t, self.mcp_tool_call_count);
        t.append(", collab: ");
        push_decimal(&mut t, self.collab_tool_call_count);
        t.append(", web_search: ");
        push_decimal(&mut t, self.web_search_count);
        t.append(")");
        assert(t@ =~= tool_calls_text(self.deep_view()));
        out.push(line1(plain(t)));
        let mut f = String::from_str("  file changes:  ");
        push_decimal(&mut f, self.file_change_count);
        out.push(line1(plain(f)));
        if let Some(usage) = &self.last_total_token_usage {
            let mut k = String::from_str("  tokens used:   ");
            k.append(format_with_separators(usage.total_tokens).as_str());
            k.append(" (input: ");
            k.append(format_with_separators(usage.input_tokens).as_str());
            k.append(", cached: ");
            k.append(format_with_separators(usage.cached_input_tokens).as_str());
            k.append(", output: ");
            k.append(format_with_separators(usage.output_tokens).as_str());
            k.append(", reasoning: ");
            k.append(format_with_separators(usage.reasoning_output_tokens).as_str());
            k.append(")");
            assert(k@ =~= tokens_text(*usage));
            out.push(line1(plain(k)));
        }
        assert(out.deep_view() =~= stats_output(self.deep_view(), now_secs as nat));
        out
    }

    /// Where the final message goes at the end of a run.
    pub fn final_message_target(&self, stdout_is_terminal: bool, stderr_is_terminal: bool) -> (res: FinalMessageTarget)
        ensures
            match res {
                FinalMessageTarget::Stdout(m) => final_message_target(
                    self.deep_view(),
                    stdout_is_terminal,
                    stderr_is_terminal,
                ) == Some((true, m@)),
                FinalMessageTarget::Stderr(m) => final_message_target(
                    self.deep_view(),
                    stdout_is_terminal,
                    stderr_is_terminal,
                ) == Some((false, m@)),
                FinalMessageTarget::Nowhere => final_message_target(
                    self.deep_view(),
                    stdout_is_terminal,
                    stderr_is_terminal,
                ) is None,
            },
    {
        let message: Option<&str> = if self.emit_final_message_on_shutdown {
            match &self.final_message {
                Some(m) => Some(m.as_str()),
                None => None,
            }
        } else {
            None
        };
        if should_print_final_message_to_stdout(message, stdout_is_terminal, stderr_is_terminal) {
            if let Some(m) = &self.final_message {
                return FinalMessageTarget::Stdout(m.clone());
            }
        } else if should_print_final_message_to_tty(
            message,
            self.final_message_rendered,
            stdout_is_terminal,
            stderr_is_terminal,
        ) {
            if let Some(m) = &self.final_message {
                return FinalMessageTarget::Stderr(m.clone());
            }
        }
        FinalMessageTarget::Nowhere
    }
}

// ---------------------------------------------------------------------------
// The configuration summary
// ---------------------------------------------------------------------------

/// The entries of the configuration summary: working directory, model,
/// provider, approval policy and sandbox; the reasoning effort and summaries
/// (`none` where unset) for the Responses API only; then the session id.
pub open spec fn config_entries_spec(
    workdir: Seq<char>,
    model: Seq<char>,
    provider: Seq<char>,
    approval: Seq<char>,
    sandbox: Seq<char>,
    uses_responses_api: bool,
    reasoning_effort: Option<Seq<char>>,
    reasoning_summary: Option<Seq<char>>,
    session_id: Seq<char>,
) -> Seq<(Seq<char>, Seq<char>)> {
    seq![
        ("workdir"@, workdir),
        ("model"@, model),
        ("provider"@, provider),
        ("approval"@, approval),
        ("sandbox"@, sandbox),
    ] + (if uses_responses_api {
        seq![
            ("reasoning effort"@, match reasoning_effort {
                Some(e) => e,
                None => "none"@,
            }),
            ("reasoning summaries"@, match reasoning_summary {
                Some(e) => e,
                None => "none"@,
            }),
        ]
    } else {
        Seq::empty()
    }) + seq![("session id"@, session_id)]
}

pub fn config_summary_entries(
    workdir: String,
    model: String,
    provider: String,
    approval: String,
    sandbox: String,
    uses_responses_api: bool,
    reasoning_effort: Option<String>,
    reasoning_summary: Option<String>,
    session_id: String,
) -> (res: Vec<(String, String)>)
    ensures
        res.deep_view() == config_entries_spec(
            workdir@,
            model@,
            provider@,
            approval@,
            sandbox@,
            uses_responses_api,
            reasoning_effort.deep_view(),
            reasoning_summary.deep_view(),
            session_id@,
        ),
{
    let ghost expected = config_entries_spec(
        workdir@,
        model@,
        provider@,
        approval@,
        sandbox@,
        uses_responses_api,
        reasoning_effort.deep_view(),
        reasoning_summary.deep_view(),
        session_id@,
    );
    let mut entries: Vec<(String, String)> = Vec::new();
    entries.push((text_of("workdir"), workdir));
    entries.push((text_of("model"), model));
    entries.push((text_of("provider"), provider));
    entries.push((text_of("approval"), approval));
    entries.push((text_of("sandbox"), sandbox));
    if uses_responses_api {
        let effort = match reasoning_effort {
            Some(e) => e,
            None => text_of("none"),
        };
        let summary = match reasoning_summary {
            Some(e) => e,
            None => text_of("none"),
        };
        entries.push((text_of("reasoning effort"), effort));
        entries.push((text_of("reasoning summaries"), summary));
    }
    entries.push((text_of("session id"), session_id));
    assert(entries.deep_view() =~= expected);
    entries
}

/// What the configuration summary prints: the version banner and a rule,
/// one line per entry with its key in bold, a rule, the user prefix and the
/// prompt.
pub open spec fn config_summary_output(
    version: Seq<char>,
    entries: Seq<(Seq<char>, Seq<char>)>,
    prompt: Seq<char>,
    now_secs: nat,
) -> Seq<OutputV> {
    seq![
        OutputV::Line(seq![plain_v("OpenAI Codex v"@ + version)]),
        OutputV::Line(seq![plain_v("--------"@)]),
    ] + entries.map_values(
        |e: (Seq<char>, Seq<char>)| OutputV::Line(seq![toned_v(e.0 + ":"@, Tone::Bold), plain_v(" "@ + e.1)]),
    ) + seq![
        OutputV::Line(seq![plain_v("--------"@)]),
        OutputV::Line(seq![prefix_v(MsgType::User, None, None, now_secs)]),
        OutputV::Line(seq![plain_v(prompt)]),
    ]
}

pub fn print_config_summary(
    version: &str,
    entries: &Vec<(String, String)>,
    prompt: &str,
    now_secs: u64,
) -> (res: Vec<Output>)
    ensures
        res.deep_view() == config_summary_output(version@, entries.deep_view(), prompt@, now_secs as nat),
{
    let ghost ev = entries.deep_view();
    let mut out: Vec<Output> = Vec::new();
    out.push(line1(plain(cat("OpenAI Codex v", version))));
    out.push(line1(text_piece("--------")));
    let ghost head = out.deep_view();
    let n = entries.len();
    for i in 0..n
        invariant
            n == entries@.len(),
            ev == entries.deep_view(),
            out.deep_view() == head + ev.take(i as int).map_values(
                |e: (Seq<char>, Seq<char>)| OutputV::Line(seq![toned_v(e.0 + ":"@, Tone::Bold), plain_v(" "@ + e.1)]),
            ),
    {
        let ghost before = out.deep_view();
        let line = line2(toned(cat(entries[i].0.as_str(), ":"), Tone::Bold), plain(cat(" ", entries[i].1.as_str())));
        out.push(line);
        proof {
            assert(ev[i as int] == entries@[i as int].deep_view());
            assert(out.deep_view() =~= before.push(line.deep_view()));
            assert(ev.take(i + 1).map_values(
                |e: (Seq<char>, Seq<char>)| OutputV::Line(seq![toned_v(e.0 + ":"@, Tone::Bold), plain_v(" "@ + e.1)]),
            ) =~= ev.take(i as int).map_values(
                |e: (Seq<char>, Seq<char>)| OutputV::Line(seq![toned_v(e.0 + ":"@, Tone::Bold), plain_v(" "@ + e.1)]),
            ).push(OutputV::Line(seq![toned_v(ev[i as int].0 + ":"@, Tone::Bold), plain_v(" "@ + ev[i as int].1)])));
        }
    }
    assert(ev.take(n as int) =~= ev);
    let ghost mid = out.deep_view();
    let rule = line1(text_piece("--------"));
    let user = line1(format_msg_prefix(MsgType::User, None, None, now_secs));
    let prompt_line = line1(plain(text_of(prompt)));
    let ghost tail = seq![rule.deep_view(), user.deep_view(), prompt_line.deep_view()];
    out.push(rule);
    out.push(user);
    out.push(prompt_line);
    assert(out.deep_view() =~= mid + tail);
    assert(out.deep_view() =~= config_summary_output(version@, ev, prompt@, now_secs as nat));
    out
}

/// A wall-clock duration of `ms` whole milliseconds in the largest unit
/// that keeps the leading value non-zero: `850ms`, `2.005s`, `3m 7s`,
/// `1h 2m 3s`.
pub open spec fn duration_millis_text(ms: nat) -> Seq<char> {
    let secs = ms / 1000;
    let minutes = secs / 60;
    if ms < 1000 {
        decimal_text(ms) + "ms"@
    } else if secs < 60 {
        decimal_text(secs) + "."@ + seq![
            digit_char((ms % 1000) / 100),
            digit_char((ms % 100) / 10),
            digit_char(ms % 10),
        ] + "s"@
    } else if minutes < 60 {
        decimal_text(minutes) + "m "@ + decimal_text(secs % 60) + "s"@
    } else {
        decimal_text(minutes / 60) + "h "@ + decimal_text(minutes % 60) + "m "@ + decimal_text(secs % 60) + "s"@
    }
}

/// `duration_millis_text`, computed.
pub fn format_duration_millis(ms: u64) -> (res: String)
    ensures
        res@ == duration_millis_text(ms as nat),
{
    proof {
        reveal_strlit("ms");
        reveal_strlit(".");
        reveal_strlit("s");
        reveal_strlit("m ");
        reveal_strlit("h ");
    }
    let mut out = String::new();
    let secs = ms / 1000;
    let minutes = secs / 60;
    if ms < 1000 {
        push_decimal(&mut out, ms);
        out.append("ms");
    } else if secs < 60 {
        push_decimal(&mut out, secs);
        out.append(".");
        let frac = ms % 1000;
        push_char(&mut out, digit_of(frac / 100));
        push_char(&mut out, digit_of((frac % 100) / 10));
        push_char(&mut out, digit_of(frac % 10));
        proof {
            assert((ms % 1000) % 100 == ms % 100) by (nonlinear_arith);
            assert((ms % 1000) % 10 == ms % 10) by (nonlinear_arith);
        }
        out.append("s");
    } else if minutes < 60 {
        push_decimal(&mut out, minutes);
        out.append("m ");
        push_decimal(&mut out, secs % 60);
        out.append("s");
    } else {
        push_decimal(&mut out, minutes / 60);
        out.append("h ");
        push_decimal(&mut out, minutes % 60);
        out.append("m ");
        push_decimal(&mut out, secs % 60);
        out.append("s");
    }
    assert(out@ =~= duration_millis_text(ms as nat));
    out
}

/// The character of a decimal digit.
fn digit_of(d: u64) -> (c: char)
    requires
        d < 10,
    ensures
        c == digit_char(d as nat),
{
    ((d + 48) as u8) as char
}

// ---------------------------------------------------------------------------
// Laws
// ---------------------------------------------------------------------------

/// No notification lowers a counter.
pub proof fn law_counts_never_decrease(s: HumanOutputStateV, n: ServerNotification, now: int)
    requires
        notification_count_below_max(s, n),
    ensures
        ({
            let t = notification_state(s, n, now);
            &&& s.command_exec_count <= t.command_exec_count
            &&& s.mcp_tool_call_count <= t.mcp_tool_call_count
            &&& s.collab_tool_call_count <= t.collab_tool_call_count
            &&& s.file_change_count <= t.file_change_count
            &&& s.web_search_count <= t.web_search_count
        }),
{
}

/// Every notification but a finished turn keeps the run going; a finished
/// turn (completed, failed or interrupted) asks to shut down.
pub proof fn law_only_finished_turns_shut_down(n: ServerNotification)
    ensures
        notification_status(n) == CodexStatus::InitiateShutdown <==> (n matches ServerNotification::TurnCompleted {
            status,
            ..
        } && !(status is InProgress)),
        notification_status(n) != CodexStatus::Shutdown,
{
}

/// After a completed turn the final message is printed at shutdown; after a
/// failed or interrupted one there is none.
pub proof fn law_turn_outcome_final_message(s: HumanOutputStateV, n: ServerNotification, now: int)
    requires
        n is TurnCompleted,
    ensures
        ({
            let t = notification_state(s, n, now);
            match n {
                ServerNotification::TurnCompleted { status, .. } => match status {
                    TurnStatus::Completed => t.emit_final_message_on_shutdown,
                    TurnStatus::Failed | TurnStatus::Interrupted => !t.emit_final_message_on_shutdown
                        && t.final_message is None && !t.final_message_rendered,
                    TurnStatus::InProgress => t == s,
                },
                _ => true,
            }
        }),
{
}

/// A completed agent message is the final message, already shown; the turn
/// that ends with it does not show it again.
pub proof fn law_agent_message_not_repeated(
    s: HumanOutputStateV,
    item: ThreadItem,
    turn_items: Seq<ThreadItem>,
    stdout_is_terminal: bool,
    stderr_is_terminal: bool,
)
    requires
        item matches ThreadItem::AgentMessage { text, .. } && final_message_spec(turn_items) == Some(text@),
    ensures
        ({
            let after_item = item_completed_state(s, item);
            let after_turn = completed_turn_state(after_item, turn_items);
            &&& after_turn.final_message_rendered
            &&& final_message_target(after_turn, stdout_is_terminal, stderr_is_terminal) matches Some((to_stdout, _))
                ==> to_stdout
        }),
{
}

// ---------------------------------------------------------------------------
// Checks before processing
// ---------------------------------------------------------------------------

/// Whether an id can be cut after eight bytes.
pub fn is_short_hashable_exec(id: &str) -> (res: bool)
    ensures
        res == is_short_hashable(id@),
{
    let n = id.unicode_len();
    let mut width: usize = 0;
    let mut i: usize = 0;
    while i < n && width + char_width(id.get_char(i)) <= 8
        invariant
            n == id@.len(),
            i <= n,
            width == utf8_width_of(id@.take(i as int)),
            width <= 8,
        decreases n - i,
    {
        proof {
            lemma_width_step(id@, i as int);
        }
        width = width + char_width(id.get_char(i));
        i = i + 1;
    }
    if i == n {
        assert(id@.take(n as int) =~= id@);
        return true;
    }
    proof {
        lemma_width_step(id@, i as int);
        assert forall|k: int| i < k <= n implies utf8_width_of(#[trigger] id@.take(k)) > 8 by {
            if i + 1 < k {
                lemma_width_grows(id@, i + 1, k);
            }
        }
        assert(id@.take(n as int) =~= id@);
        assert(utf8_width_of(id@) > 8);
        if width < 8 {
            assert forall|k: int| !is_eight_byte_prefix(id@, k) by {
                if 0 <= k < i {
                    lemma_width_grows(id@, k, i as int);
                }
            }
        } else {
            assert(is_eight_byte_prefix(id@, i as int));
        }
    }
    width == 8
}

impl HumanOutputState {
    /// Whether `render_item_completed` may take the item in this state.
    fn can_complete_item(&self, item: &ThreadItem) -> (res: bool)
        ensures
            res == item_completed_ids_ok(self.deep_view(), *item),
    {
        match item {
            ThreadItem::AgentMessage { id, .. } => is_short_hashable_exec(id.as_str()),
            ThreadItem::Reasoning { summary, content, id } => {
                let shown = if self.show_agent_reasoning {
                    match reasoning_text(summary, content, self.show_raw_agent_reasoning) {
                        Some(text) => !is_blank(text.as_str()),
                        None => false,
                    }
                } else {
                    false
                };
                !shown || is_short_hashable_exec(id.as_str())
            },
            ThreadItem::CommandExecution { id, .. } => is_short_hashable_exec(id.as_str()),
            ThreadItem::FileChange { id, .. } => is_short_hashable_exec(id.as_str()),
            ThreadItem::McpToolCall { id, .. } => is_short_hashable_exec(id.as_str()),
            ThreadItem::WebSearch { id, .. } => is_short_hashable_exec(id.as_str()),
            ThreadItem::ContextCompaction { id } => is_short_hashable_exec(id.as_str()),
            _ => true,
        }
    }

    /// Whether `process_server_notification` may take the notification in
    /// this state: the counter it raises, if any, is below its largest value,
    /// and every id that goes into a prefix can be cut after eight bytes.
    pub fn can_process(&self, notification: &ServerNotification) -> (res: bool)
        ensures
            res == (notification_count_below_max(self.deep_view(), *notification) && notification_ids_ok(
                self.deep_view(),
                *notification,
            )),
    {
        let counts = match notification {
            ServerNotification::ItemCompleted { item } => match item {
                ThreadItem::CommandExecution { .. } => self.command_exec_count < u64::MAX,
                ThreadItem::FileChange { .. } => self.file_change_count < u64::MAX,
                ThreadItem::McpToolCall { .. } => self.mcp_tool_call_count < u64::MAX,
                ThreadItem::WebSearch { .. } => self.web_search_count < u64::MAX,
                _ => true,
            },
            _ => true,
        };
        let ids = match notification {
            ServerNotification::ItemStarted { item } => match item {
                ThreadItem::McpToolCall { id, .. } => is_short_hashable_exec(id.as_str()),
                ThreadItem::WebSearch { id, .. } => is_short_hashable_exec(id.as_str()),
                ThreadItem::FileChange { id, .. } => is_short_hashable_exec(id.as_str()),
                ThreadItem::CollabAgentToolCall { id, .. } => is_short_hashable_exec(id.as_str()),
                _ => true,
            },
            ServerNotification::ItemCompleted { item } => self.can_complete_item(item),
            ServerNotification::ReasoningSummaryTextDelta { item_id, delta } => {
                !(self.show_agent_reasoning && delta.unicode_len() > 0) || is_short_hashable_exec(item_id.as_str())
            },
            ServerNotification::ReasoningTextDelta { item_id, delta } => {
                !(self.show_agent_reasoning && self.show_raw_agent_reasoning && delta.unicode_len() > 0)
                    || is_short_hashable_exec(item_id.as_str())
            },
            _ => true,
        };
        counts && ids
    }

    /// Whether the tool calls can be added up for the statistics.
    pub fn can_count_tool_calls(&self) -> (res: bool)
        ensures
            res == tool_calls_countable(self.deep_view()),
    {
        self.command_exec_count as u128 + self.mcp_tool_call_count as u128 + self.collab_tool_call_count as u128
            + self.web_search_count as u128 <= u64::MAX as u128
    }
}

/// Law: completing a command reports its outcome after the prefix: a
/// completed command as ` succeeded`, a failed one as ` exited` with its exit
/// code (1 where none is known), a declined one as ` declined`, one still
/// running as ` in progress`, each followed by ` in <ms>ms` where the
/// duration is known.
pub proof fn law_command_outcome_reported(s: HumanOutputStateV, item: ThreadItem, now_secs: nat)
    requires
        item is CommandExecution,
    ensures
        item matches ThreadItem::CommandExecution { status, exit_code, duration_ms, .. } ==> ({
            let suffix = match duration_ms {
                Some(ms) => " in "@ + signed_decimal_text(ms as int) + "ms"@,
                None => Seq::empty(),
            };
            let out = item_completed_output(s, item, now_secs);
            &&& out.len() >= 1
            &&& out[0] matches OutputV::Line(pieces) && pieces.len() == 3 && pieces[2].text == match status {
                CommandExecutionStatus::Completed => (" succeeded"@ + suffix),
                CommandExecutionStatus::Failed => " exited "@ + signed_decimal_text(
                    match exit_code {
                        Some(c) => c as int,
                        None => 1,
                    },
                ) + suffix,
                CommandExecutionStatus::Declined => " declined"@ + suffix,
                CommandExecutionStatus::InProgress => " in progress"@ + suffix,
            }
        }),
{
}

/// Law: the tool-call statistics line gives the total of the tool calls
/// (commands, MCP calls, collaboration calls and web searches) and then each
/// of the four counts it adds up.
pub proof fn law_tool_call_total_is_sum(s: HumanOutputStateV, now_secs: nat)
    ensures
        stats_output(s, now_secs).len() >= 3,
        stats_output(s, now_secs)[1] == OutputV::Line(
            seq![
                plain_v(
                    "  tool calls:    "@ + decimal_text(
                        s.command_exec_count as nat + s.mcp_tool_call_count as nat + s.collab_tool_call_count as nat
                            + s.web_search_count as nat,
                    ) + " (shell: "@ + decimal_text(s.command_exec_count as nat) + ", mcp: "@ + decimal_text(
                        s.mcp_tool_call_count as nat,
                    ) + ", collab: "@ + decimal_text(s.collab_tool_call_count as nat) + ", web_search: "@
                        + decimal_text(s.web_search_count as nat) + ")"@,
                ),
            ],
        ),
{
}

} // verus!
