//! The human-readable output of a non-interactive run.

use codex_chat_compat::human_output::{
    config_summary_entries, final_message_from_turn_items, format_msg_prefix, format_timestamp,
    format_duration_millis, format_timestamp_at, format_with_separators, print_config_summary, reasoning_text,
    should_print_final_message_to_stdout, should_print_final_message_to_tty, short_hash, CodexStatus,
    CommandExecutionStatus, FinalMessageTarget, HumanOutputState, McpToolCallStatus, MsgPhase, MsgType,
    Output, PatchApplyStatus, Piece, PlanStep, ServerNotification, ThreadItem, TokenTotals, Tone,
    TurnPlanStepStatus, TurnStatus,
};
use codex_chat_compat::retry::Duration;

// 1970-01-02 03:04:05 UTC
const NOW: u64 = 86400 + 3 * 3600 + 4 * 60 + 5;

fn text_of(out: &Output) -> String {
    let pieces = match out {
        Output::Line(ps) => ps,
        Output::Partial(ps) => ps,
    };
    pieces.iter().map(|p| p.text.as_str()).collect::<Vec<_>>().join("")
}

fn texts(outs: &[Output]) -> Vec<String> {
    outs.iter().map(text_of).collect()
}

fn state() -> HumanOutputState {
    HumanOutputState::new(true, false)
}

fn now() -> Duration {
    Duration::from_secs(NOW)
}

#[test]
fn labels_and_phases() {
    assert_eq!(MsgPhase::Req.suffix(), "(req)");
    assert_eq!(MsgPhase::Resp.suffix(), "(resp)");
    assert_eq!(MsgType::Reasoning.base_label(), "thinking");
    assert_eq!(MsgType::Error.base_label(), "ERROR");
    assert_eq!(MsgType::WebSearch.label(Some(&MsgPhase::Req)), "web_search(req)");
    assert_eq!(MsgType::User.label(None), "user");
    assert!(MsgType::Error.is_bold(None));
    assert!(MsgType::Stats.is_bold(None));
    assert!(MsgType::Exec.is_bold(Some(&MsgPhase::Resp)));
    assert!(!MsgType::Exec.is_bold(Some(&MsgPhase::Req)));
    assert!(!MsgType::Assistant.is_bold(None));
    assert_eq!(MsgType::Assistant.style(), Tone::Green);
    assert_eq!(MsgType::FileChange.style(), Tone::Dimmed);
}

#[test]
fn timestamps() {
    assert_eq!(format_timestamp_at(NOW), "03:04:05");
    assert_eq!(format_timestamp_at(0), "00:00:00");
    assert_eq!(format_timestamp_at(86399), "23:59:59");
    assert_eq!(format_timestamp().len(), 8);
}

#[test]
fn short_hashes() {
    assert_eq!(short_hash("abcdef0123456789"), "abcdef01");
    assert_eq!(short_hash("abc"), "abc");
    assert_eq!(short_hash("abcdefgh"), "abcdefgh");
    assert_eq!(short_hash("ééééé"), "éééé");
}

#[test]
fn prefixes() {
    let p = format_msg_prefix(MsgType::Exec, Some(MsgPhase::Resp), Some("item_0123456789"), NOW);
    assert_eq!(p, Piece { text: "exec(resp) (item_012) [03:04:05]".to_string(), tones: vec![Tone::Yellow, Tone::Bold] });
    let p = format_msg_prefix(MsgType::Warning, None, None, NOW);
    assert_eq!(p, Piece { text: "warning [03:04:05]".to_string(), tones: vec![Tone::Yellow] });
}

#[test]
fn reasoning_entries() {
    let summary = vec!["a".to_string(), "b".to_string()];
    let content = vec!["raw".to_string()];
    assert_eq!(reasoning_text(&summary, &content, false), Some("a\nb".to_string()));
    assert_eq!(reasoning_text(&summary, &content, true), Some("raw".to_string()));
    assert_eq!(reasoning_text(&summary, &vec![], true), Some("a\nb".to_string()));
    assert_eq!(reasoning_text(&vec![], &vec![], true), None);
}

#[test]
fn final_message_choice() {
    let items = vec![
        ThreadItem::Plan { id: "p".to_string(), text: "plan".to_string() },
        ThreadItem::AgentMessage { id: "a1".to_string(), text: "first".to_string() },
        ThreadItem::AgentMessage { id: "a2".to_string(), text: "second".to_string() },
        ThreadItem::Other,
    ];
    assert_eq!(final_message_from_turn_items(&items), Some("second".to_string()));
    let plans = vec![ThreadItem::Plan { id: "p".to_string(), text: "plan".to_string() }, ThreadItem::Other];
    assert_eq!(final_message_from_turn_items(&plans), Some("plan".to_string()));
    assert_eq!(final_message_from_turn_items(&[]), None);
}

#[test]
fn final_message_destinations() {
    assert!(should_print_final_message_to_stdout(Some("m"), false, true));
    assert!(should_print_final_message_to_stdout(Some("m"), true, false));
    assert!(!should_print_final_message_to_stdout(Some("m"), true, true));
    assert!(!should_print_final_message_to_stdout(None, false, false));
    assert!(should_print_final_message_to_tty(Some("m"), false, true, true));
    assert!(!should_print_final_message_to_tty(Some("m"), true, true, true));
    assert!(!should_print_final_message_to_tty(Some("m"), false, false, true));
    assert!(!should_print_final_message_to_tty(None, false, true, true));
    // Never both at once.
    for out in [false, true] {
        for err in [false, true] {
            for rendered in [false, true] {
                assert!(
                    !(should_print_final_message_to_stdout(Some("m"), out, err)
                        && should_print_final_message_to_tty(Some("m"), rendered, out, err))
                );
            }
        }
    }
}

#[test]
fn warnings_and_errors() {
    let mut s = state();
    let (out, status) = s.process_server_notification(
        ServerNotification::ConfigWarning { summary: "bad".to_string(), details: Some("line 3".to_string()) },
        now(),
    );
    assert_eq!(status, CodexStatus::Running);
    assert_eq!(texts(&out), vec!["warning [03:04:05] bad (line 3)".to_string()]);
    let (out, _) = s.process_server_notification(ServerNotification::Error { error: "boom".to_string() }, now());
    assert_eq!(texts(&out), vec!["ERROR [03:04:05] boom".to_string()]);
    let (out, status) = s.process_warning("careful".to_string(), NOW);
    assert_eq!(status, CodexStatus::Running);
    assert_eq!(texts(&out), vec!["warning [03:04:05] careful".to_string()]);
    let (out, _) = s.process_server_notification(
        ServerNotification::ModelRerouted { from_model: "a".to_string(), to_model: "b".to_string() },
        now(),
    );
    assert_eq!(texts(&out), vec!["warning [03:04:05] a -> b".to_string()]);
}

#[test]
fn command_execution_lifecycle() {
    let mut s = state();
    let item = ThreadItem::CommandExecution {
        id: "cmd_123456789".to_string(),
        command: "ls".to_string(),
        cwd: "/tmp".to_string(),
        status: CommandExecutionStatus::Failed,
        aggregated_output: Some("oops\n".to_string()),
        exit_code: Some(2),
        duration_ms: Some(15),
    };
    let (out, _) = s.process_server_notification(ServerNotification::ItemStarted { item: item.clone() }, now());
    assert_eq!(texts(&out), vec!["exec".to_string(), "ls in /tmp".to_string()]);
    let (out, _) = s.process_server_notification(ServerNotification::ItemCompleted { item }, now());
    assert_eq!(
        texts(&out),
        vec!["exec(resp) (cmd_1234) [03:04:05]:  exited 2 in 15ms".to_string(), "oops\n".to_string()]
    );
    assert_eq!(s.command_exec_count, 1);
}

#[test]
fn command_without_exit_code_exits_one() {
    let mut s = state();
    let item = ThreadItem::CommandExecution {
        id: "c".to_string(),
        command: "x".to_string(),
        cwd: "/".to_string(),
        status: CommandExecutionStatus::Failed,
        aggregated_output: Some("  \n".to_string()),
        exit_code: None,
        duration_ms: None,
    };
    let (out, _) = s.process_server_notification(ServerNotification::ItemCompleted { item }, now());
    assert_eq!(texts(&out), vec!["exec(resp) (c) [03:04:05]:  exited 1".to_string()]);
}

#[test]
fn other_items_counted_and_shown() {
    let mut s = state();
    let (out, _) = s.process_server_notification(
        ServerNotification::ItemCompleted {
            item: ThreadItem::FileChange {
                id: "f".to_string(),
                changes: vec!["a.rs".to_string(), "b.rs".to_string()],
                status: PatchApplyStatus::Completed,
            },
        },
        now(),
    );
    assert_eq!(texts(&out), vec!["file_change(resp) (f) [03:04:05] completed", "a.rs", "b.rs"]);
    let (out, _) = s.process_server_notification(
        ServerNotification::ItemCompleted {
            item: ThreadItem::McpToolCall {
                id: "m".to_string(),
                server: "srv".to_string(),
                tool: "t".to_string(),
                status: McpToolCallStatus::Failed,
                error: Some("denied".to_string()),
            },
        },
        now(),
    );
    assert_eq!(texts(&out), vec!["mcp(resp) (m) [03:04:05] srv/t (failed)", "denied"]);
    let (out, _) = s.process_server_notification(
        ServerNotification::ItemCompleted { item: ThreadItem::WebSearch { id: "w".to_string(), query: "q".to_string() } },
        now(),
    );
    assert_eq!(texts(&out), vec!["web_search(resp) (w) [03:04:05] q"]);
    let (out, _) = s.process_server_notification(
        ServerNotification::ItemCompleted { item: ThreadItem::CollabAgentToolCall { id: "c".to_string(), tool: "Spawn".to_string() } },
        now(),
    );
    assert!(out.is_empty());
    assert_eq!(
        (s.file_change_count, s.mcp_tool_call_count, s.web_search_count, s.collab_tool_call_count),
        (1, 1, 1, 0)
    );
}

#[test]
fn agent_message_becomes_final() {
    let mut s = state();
    let (out, _) = s.process_server_notification(
        ServerNotification::ItemCompleted { item: ThreadItem::AgentMessage { id: "a".to_string(), text: "done".to_string() } },
        now(),
    );
    assert_eq!(texts(&out), vec!["assistant (a) [03:04:05]", "done"]);
    assert_eq!(s.final_message, Some("done".to_string()));
    assert!(s.final_message_rendered);
    let (out, status) = s.process_server_notification(
        ServerNotification::TurnCompleted {
            status: TurnStatus::Completed,
            items: vec![ThreadItem::AgentMessage { id: "a".to_string(), text: "done".to_string() }],
            error: None,
        },
        now(),
    );
    assert!(out.is_empty());
    assert_eq!(status, CodexStatus::InitiateShutdown);
    assert!(s.final_message_rendered);
    assert!(s.emit_final_message_on_shutdown);
    assert_eq!(s.final_message_target(true, true), FinalMessageTarget::Nowhere);
    assert_eq!(s.final_message_target(false, true), FinalMessageTarget::Stdout("done".to_string()));
    assert_eq!(s.last_message_to_write(), Some(Some("done".to_string())));
}

#[test]
fn new_final_message_is_not_rendered() {
    let mut s = state();
    s.process_server_notification(
        ServerNotification::ItemCompleted { item: ThreadItem::AgentMessage { id: "a".to_string(), text: "old".to_string() } },
        now(),
    );
    s.process_server_notification(
        ServerNotification::TurnCompleted {
            status: TurnStatus::Completed,
            items: vec![ThreadItem::Plan { id: "p".to_string(), text: "plan".to_string() }],
            error: None,
        },
        now(),
    );
    assert_eq!(s.final_message, Some("plan".to_string()));
    assert!(!s.final_message_rendered);
    assert_eq!(s.final_message_target(true, true), FinalMessageTarget::Stderr("plan".to_string()));
}

#[test]
fn failed_and_interrupted_turns() {
    let mut s = state();
    s.process_server_notification(
        ServerNotification::ItemCompleted { item: ThreadItem::AgentMessage { id: "a".to_string(), text: "x".to_string() } },
        now(),
    );
    let (out, status) = s.process_server_notification(
        ServerNotification::TurnCompleted { status: TurnStatus::Failed, items: vec![], error: Some("bad".to_string()) },
        now(),
    );
    assert_eq!(status, CodexStatus::InitiateShutdown);
    assert_eq!(texts(&out), vec!["ERROR [03:04:05] bad"]);
    assert_eq!(s.final_message, None);
    assert!(!s.emit_final_message_on_shutdown);
    assert_eq!(s.last_message_to_write(), None);
    let (out, status) = s.process_server_notification(
        ServerNotification::TurnCompleted { status: TurnStatus::Interrupted, items: vec![], error: None },
        now(),
    );
    assert_eq!(status, CodexStatus::InitiateShutdown);
    assert_eq!(texts(&out), vec!["info [03:04:05]", "turn interrupted"]);
    let (_, status) = s.process_server_notification(
        ServerNotification::TurnCompleted { status: TurnStatus::InProgress, items: vec![], error: None },
        now(),
    );
    assert_eq!(status, CodexStatus::Running);
}

#[test]
fn reasoning_deltas() {
    let mut s = HumanOutputState::new(true, true);
    let (out, _) = s.process_server_notification(
        ServerNotification::ReasoningSummaryTextDelta { item_id: "r1".to_string(), delta: "Hel".to_string() },
        now(),
    );
    assert_eq!(texts(&out), vec!["thinking (r1) [03:04:05]", "Hel"]);
    assert!(matches!(out[1], Output::Partial(_)));
    let (out, _) = s.process_server_notification(
        ServerNotification::ReasoningTextDelta { item_id: "r1".to_string(), delta: "lo".to_string() },
        now(),
    );
    assert_eq!(texts(&out), vec!["lo"]);
    let (out, _) = s.process_server_notification(ServerNotification::ReasoningSummaryPartAdded, now());
    assert_eq!(texts(&out), vec![""]);
    assert_eq!(s.current_reasoning_item_id, None);
    let (out, _) = s.process_server_notification(
        ServerNotification::ReasoningSummaryTextDelta { item_id: "r1".to_string(), delta: "".to_string() },
        now(),
    );
    assert!(out.is_empty());
    let mut hidden = HumanOutputState::new(false, true);
    let (out, _) = hidden.process_server_notification(
        ServerNotification::ReasoningSummaryTextDelta { item_id: "r1".to_string(), delta: "x".to_string() },
        now(),
    );
    assert!(out.is_empty());
}

#[test]
fn plans_diffs_hooks() {
    let mut s = state();
    let (out, _) = s.process_server_notification(
        ServerNotification::TurnPlanUpdated {
            explanation: Some("why".to_string()),
            plan: vec![
                PlanStep { step: "one".to_string(), status: TurnPlanStepStatus::Completed },
                PlanStep { step: "two".to_string(), status: TurnPlanStepStatus::InProgress },
                PlanStep { step: "three".to_string(), status: TurnPlanStepStatus::Pending },
            ],
        },
        now(),
    );
    assert_eq!(texts(&out), vec!["why", "  ✓ one", "  → two", "  • three"]);
    let (out, _) = s.process_server_notification(ServerNotification::TurnDiffUpdated { diff: " \n\t".to_string() }, now());
    assert!(out.is_empty());
    let (out, _) = s.process_server_notification(ServerNotification::TurnDiffUpdated { diff: "+a".to_string() }, now());
    assert_eq!(texts(&out), vec!["+a"]);
    let (out, _) = s.process_server_notification(
        ServerNotification::HookCompleted { event_name: "Stop".to_string(), status: "Completed".to_string() },
        now(),
    );
    assert_eq!(texts(&out), vec!["info [03:04:05]", "hook: Stop Completed"]);
}

#[test]
fn usage_and_turn_start_recorded() {
    let mut s = state();
    let totals = TokenTotals {
        total_tokens: 1234567,
        input_tokens: 1000,
        cached_input_tokens: 10,
        output_tokens: 999,
        reasoning_output_tokens: 0,
    };
    s.process_server_notification(ServerNotification::ThreadTokenUsageUpdated { total: totals }, now());
    s.process_server_notification(ServerNotification::TurnStarted, now());
    assert_eq!(s.last_total_token_usage, Some(totals));
    assert_eq!(s.turn_start_time, Some(now()));
    let lines = texts(&s.stats_lines(NOW));
    assert_eq!(
        lines,
        vec![
            "STATS [03:04:05]",
            "  tool calls:    0 (shell: 0, mcp: 0, collab: 0, web_search: 0)",
            "  file changes:  0",
            "  tokens used:   1,234,567 (input: 1,000, cached: 10, output: 999, reasoning: 0)",
        ]
    );
}

#[test]
fn separators() {
    assert_eq!(format_with_separators(0), "0");
    assert_eq!(format_with_separators(999), "999");
    assert_eq!(format_with_separators(1000), "1,000");
    assert_eq!(format_with_separators(1000005), "1,000,005");
    assert_eq!(format_with_separators(-1234), "-1,234");
    assert_eq!(format_with_separators(i64::MIN), "-9,223,372,036,854,775,808");
}

#[test]
fn config_summary() {
    let entries = config_summary_entries(
        "/work".to_string(),
        "gpt".to_string(),
        "openai".to_string(),
        "never".to_string(),
        "read-only".to_string(),
        true,
        None,
        Some("auto".to_string()),
        "s-1".to_string(),
    );
    let keys: Vec<&str> = entries.iter().map(|(k, _)| k.as_str()).collect();
    assert_eq!(
        keys,
        vec!["workdir", "model", "provider", "approval", "sandbox", "reasoning effort", "reasoning summaries", "session id"]
    );
    assert_eq!(entries[5].1, "none");
    assert_eq!(entries[6].1, "auto");
    let chat_only = config_summary_entries(
        "/w".to_string(),
        "m".to_string(),
        "p".to_string(),
        "a".to_string(),
        "s".to_string(),
        false,
        Some("high".to_string()),
        None,
        "id".to_string(),
    );
    assert_eq!(chat_only.len(), 6);
    let out = print_config_summary("1.2.3", &chat_only, "hello", NOW);
    let t = texts(&out);
    assert_eq!(t[0], "OpenAI Codex v1.2.3");
    assert_eq!(t[1], "--------");
    assert_eq!(t[2], "workdir: /w");
    assert_eq!(t[8], "--------");
    assert_eq!(t[9], "user [03:04:05]");
    assert_eq!(t[10], "hello");
}

#[test]
fn durations_in_the_largest_unit() {
    assert_eq!(format_duration_millis(0), "0ms");
    assert_eq!(format_duration_millis(850), "850ms");
    assert_eq!(format_duration_millis(2005), "2.005s");
    assert_eq!(format_duration_millis(59_999), "59.999s");
    assert_eq!(format_duration_millis(187_000), "3m 7s");
    assert_eq!(format_duration_millis(3_723_000), "1h 2m 3s");
}
