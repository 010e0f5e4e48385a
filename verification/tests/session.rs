use belt_cli::claw::session::build_prompt_with_history;
use belt_cli::claw::session::build_system_prompt;
use belt_cli::claw::session::collect_status;
use belt_cli::claw::session::collect_workspace_stats;
use belt_cli::claw::session::open_session;
use belt_cli::claw::session::reason_display_label;
use belt_cli::claw::session::reason_priority;
use belt_cli::claw::session::write_hitl_list;
use belt_cli::claw::session::write_session_usage;
use belt_cli::claw::session::write_status_banner;
use belt_cli::claw::session::write_token_usage;
use belt_cli::claw::session::write_workspace_stats_banner;
use belt_cli::claw::session::AgentReply;
use belt_cli::claw::session::HitlItemSummary;
use belt_cli::claw::session::MessageRole;
use belt_cli::claw::session::RecentEvent;
use belt_cli::claw::session::Session;
use belt_cli::claw::session::SessionMessage;
use belt_cli::claw::session::SessionStep;
use belt_cli::claw::session::SessionTokenUsage;
use belt_cli::claw::session::StatusSummary;
use belt_cli::claw::session::TokenUsage;
use belt_cli::claw::session::WorkspaceStats;
use belt_cli::claw::session::PROMPT;
use belt_cli::queue::QueueItem;
use belt_cli::queue::QueuePhase;
use belt_cli::specs::Spec;
use belt_cli::specs::SpecState;
use belt_cli::status::PhaseCount;

/// An agent that answers from a script: the exit codes of its first calls, then
/// success, and the token usages of its first calls.
struct Agent {
    codes: Vec<i32>,
    usages: Vec<TokenUsage>,
    calls: Vec<String>,
}

impl Agent {
    fn new(codes: &[i32], usages: &[(u64, u64)]) -> Agent {
        Agent {
            codes: codes.to_vec(),
            usages: usages
                .iter()
                .map(|(i, o)| TokenUsage { input_tokens: *i, output_tokens: *o })
                .collect(),
            calls: Vec::new(),
        }
    }

    fn invoke(&mut self, prompt: &str) -> AgentReply {
        let n = self.calls.len();
        self.calls.push(prompt.to_string());
        let exit_code = self.codes.get(n).copied().unwrap_or(0);
        AgentReply {
            success: exit_code == 0,
            exit_code,
            stdout: format!("mock response for: {prompt}"),
            stderr: String::new(),
            token_usage: self.usages.get(n).copied(),
        }
    }
}

/// Runs a session on an input and returns what was printed.
fn run(
    workspace: Option<&str>,
    agent: Option<&mut Agent>,
    input: &str,
    status: Option<StatusSummary>,
    stats: Option<WorkspaceStats>,
) -> String {
    let mut agent = agent;
    let mut session = Session::new(workspace.map(|w| w.to_string()), agent.is_some());
    let mut out = open_session("/b/claw-workspace", &session, &status, &stats);
    let mut lines = input.lines();
    loop {
        out.push_str(PROMPT);
        match session.read_line(lines.next()) {
            SessionStep::Wait => {}
            SessionStep::Say(text) => out.push_str(&text),
            SessionStep::End(text) => {
                out.push_str(&text);
                return out;
            }
            SessionStep::Fetch { command, .. } => {
                out.push_str(&session.answer_command(&command, &Err("unknown".to_string())));
            }
            SessionStep::Ask { input, prompt, system_prompt } => {
                assert!(system_prompt.contains("Belt Claw"));
                let reply = match &mut agent {
                    Some(a) => a.invoke(&prompt),
                    None => panic!("no agent to ask"),
                };
                out.push_str(&session.take_reply(input, &reply));
            }
        }
    }
}

fn quick(input: &str) -> String {
    run(Some("test-ws"), None, input, None, None)
}

fn count(phase: &str, count: u32) -> PhaseCount {
    PhaseCount { phase: phase.to_string(), count }
}

fn event(id: &str, from: &str, to: &str, time: &str) -> RecentEvent {
    RecentEvent {
        item_id: id.to_string(),
        from_state: from.to_string(),
        to_state: to.to_string(),
        timestamp: time.to_string(),
    }
}

fn hitl(id: &str, workspace: &str, reason: &str, title: Option<&str>) -> HitlItemSummary {
    HitlItemSummary {
        work_id: id.to_string(),
        workspace: workspace.to_string(),
        reason: reason.to_string(),
        title: title.map(|t| t.to_string()),
    }
}

fn item(id: &str, workspace: &str, phase: QueuePhase) -> QueueItem {
    QueueItem {
        work_id: id.to_string(),
        source_id: "s1".to_string(),
        workspace_id: workspace.to_string(),
        state: "analyze".to_string(),
        phase,
        title: None,
        created_at: String::new(),
        updated_at: String::new(),
        hitl_created_at: None,
        hitl_reason: None,
        hitl_reason_name: None,
        hitl_respondent: None,
        hitl_notes: None,
        hitl_timeout_at: None,
        hitl_terminal_action: None,
        replan_count: 0,
    }
}

fn spec(id: &str, workspace: &str, status: SpecState) -> Spec {
    Spec {
        id: id.to_string(),
        workspace_id: workspace.to_string(),
        name: "Spec".to_string(),
        content: "content".to_string(),
        status,
        priority: None,
        labels: None,
        depends_on: None,
        entry_point: None,
        decomposed_issues: None,
        created_at: String::new(),
        updated_at: String::new(),
    }
}

#[test]
fn session_quit_on_slash_quit() {
    let out = quick("/quit\n");
    assert!(out.contains("Goodbye."));
}

#[test]
fn nothing_follows_a_quit() {
    assert_eq!(PROMPT, "claw> ");
    let session = |input: &str| {
        let mut agent = Agent::new(&[0, 1], &[(100, 50)]);
        let out = run(Some("test-ws"), Some(&mut agent), input, None, None);
        (out, agent.calls)
    };
    let first = "hello\n\n/help\nfails\n";
    let (out, calls) = session(&format!("{first}/quit\n"));
    assert_eq!(calls.len(), 2);
    assert!(out.ends_with("Goodbye.\n"));
    for rest in ["again\n", "/quit\nmore\n", "/spec 1\n\n"] {
        assert_eq!(session(&format!("{first}/quit\n{rest}")), (out.clone(), calls.clone()));
        assert_eq!(session(&format!("{first} /quit now \n{rest}")), (out.clone(), calls.clone()));
    }
    assert_ne!(session(&format!("{first}again\n/quit\n")).1, calls);
}

#[test]
fn session_quit_on_eof() {
    let out = quick("");
    assert!(out.contains("Belt Claw interactive session"));
    assert!(out.ends_with("claw> \n"));
}

#[test]
fn session_dispatches_help() {
    let out = quick("/help\n/quit\n");
    assert!(out.contains("/auto"));
    assert!(out.contains("/spec"));
    assert!(out.contains("/claw"));
}

#[test]
fn session_echoes_freeform_text_without_runtime() {
    let out = quick("hello world\n/quit\n");
    assert!(out.contains(">> hello world"));
}

#[test]
fn session_forwards_freeform_to_runtime() {
    let mut agent = Agent::new(&[], &[]);
    let out = run(Some("test-ws"), Some(&mut agent), "hello agent\n/quit\n", None, None);
    // Should NOT echo with ">>" prefix when runtime is configured.
    assert!(!out.contains(">> hello agent"));
    // Should contain mock response.
    assert!(out.contains("mock response for:"));
    // Verify the runtime received the prompt.
    assert_eq!(agent.calls.len(), 1);
    assert!(agent.calls[0].contains("hello agent"));
}

#[test]
fn session_tracks_token_usage() {
    let mut agent = Agent::new(&[], &[(100, 50)]);
    let out = run(Some("test-ws"), Some(&mut agent), "test prompt\n/quit\n", None, None);
    // Per-invocation token usage.
    assert!(out.contains("[tokens: in=100, out=50]"));
    // Session summary on quit.
    assert!(out.contains("Session totals: 1 invocations"));
    assert!(out.contains("100 input tokens"));
    assert!(out.contains("50 output tokens"));
}

#[test]
fn session_accumulates_token_usage_across_invocations() {
    let mut agent = Agent::new(&[], &[(100, 50), (200, 75)]);
    let out = run(Some("test-ws"), Some(&mut agent), "first\nsecond\n/quit\n", None, None);
    // Session summary shows accumulated totals.
    assert!(out.contains("2 invocations"));
    assert!(out.contains("300 input tokens"));
    assert!(out.contains("125 output tokens"));
}

#[test]
fn session_displays_error_on_runtime_failure() {
    let mut agent = Agent::new(&[1], &[]);
    let out = run(Some("test-ws"), Some(&mut agent), "fail this\n/quit\n", None, None);
    assert!(out.contains("[error] Agent invocation failed"));
}

#[test]
fn session_maintains_history() {
    let mut agent = Agent::new(&[], &[]);
    run(Some("test-ws"), Some(&mut agent), "first message\nsecond message\n/quit\n", None, None);
    // The second call should include conversation history in the prompt.
    assert_eq!(agent.calls.len(), 2);
    // First call has no history context.
    assert!(!agent.calls[0].contains("conversation_history"));
    // Second call should include history context.
    assert!(agent.calls[1].contains("conversation_history"));
    assert!(agent.calls[1].contains("first message"));
}

#[test]
fn session_shows_llm_connected_message() {
    let mut agent = Agent::new(&[], &[]);
    let out = run(Some("test-ws"), Some(&mut agent), "/quit\n", None, None);
    assert!(out.contains("LLM agent connected"));
}

#[test]
fn session_no_llm_message_without_runtime() {
    let out = quick("/quit\n");
    assert!(!out.contains("LLM agent connected"));
}

#[test]
fn session_shows_workspace_context() {
    let out = quick("/quit\n");
    assert!(out.contains("Context: test-ws"));
}

#[test]
fn session_displays_status_banner() {
    let summary = StatusSummary {
        total_items: 12,
        phase_counts: vec![
            count("pending", 5),
            count("running", 3),
            count("hitl", 2),
            count("done", 2),
        ],
        hitl_pending: 2,
        recent_events: vec![event("item-1", "running", "hitl", "2026-03-24T10:00:00Z")],
        hitl_items: vec![],
    };
    let out = run(Some("test-ws"), None, "/quit\n", Some(summary), None);
    assert!(out.contains("System Status"));
    assert!(out.contains("Queue: 12 items"));
    assert!(out.contains("pending=5"));
    assert!(out.contains("hitl=2"));
    assert!(out.contains("HITL pending: 2"));
    assert!(out.contains("item-1"));
    assert!(out.contains("running -> hitl"));
}

#[test]
fn session_no_banner_when_status_is_none() {
    let out = quick("/quit\n");
    assert!(!out.contains("System Status"));
}

#[test]
fn status_banner_omits_hitl_line_when_zero() {
    let summary = StatusSummary {
        total_items: 3,
        phase_counts: vec![count("pending", 3)],
        hitl_pending: 0,
        recent_events: vec![],
        hitl_items: vec![],
    };
    let out = write_status_banner(&summary);
    assert!(out.contains("Queue: 3 items"));
    assert!(!out.contains("HITL pending"));
    assert_eq!(
        out,
        "--- System Status ---\nQueue: 3 items\n  Phases: pending=3\n---------------------\n"
    );
}

#[test]
fn collect_status_from_empty_db() {
    let summary = collect_status(Some(vec![]), Some(vec![]), &vec![]).unwrap();
    assert_eq!(summary.total_items, 0);
    assert!(summary.phase_counts.is_empty());
    assert_eq!(summary.hitl_pending, 0);
    assert!(summary.recent_events.is_empty());
    assert!(summary.hitl_items.is_empty());
}

#[test]
fn status_keeps_the_first_five_events() {
    let events: Vec<RecentEvent> =
        (0..7).map(|t| event("w", "a", "b", &format!("{t}"))).collect();
    let times = |n: usize| -> Vec<String> {
        let summary =
            collect_status(Some(vec![]), Some(events[..n].to_vec()), &vec![]).unwrap();
        summary.recent_events.into_iter().map(|e| e.timestamp).collect()
    };
    assert_eq!(times(7), ["0", "1", "2", "3", "4"]);
    assert_eq!(times(5).len(), 5);
    assert_eq!(times(2), ["0", "1"]);
}

#[test]
fn collect_status_from_populated_db() {
    let counts = vec![count("hitl", 1), count("pending", 1)];
    let mut item2 = item("w2", "ws1", QueuePhase::Hitl);
    item2.hitl_reason_name = Some("evaluate_failure".to_string());
    let summary = collect_status(Some(counts), Some(vec![]), &vec![item2]).unwrap();
    assert_eq!(summary.total_items, 2);
    assert_eq!(summary.hitl_pending, 1);
    assert_eq!(summary.hitl_items.len(), 1);
    assert_eq!(summary.hitl_items[0].work_id, "w2");
    assert_eq!(summary.hitl_items[0].reason, "evaluate_failure");
}

#[test]
fn collect_status_hitl_items_empty_when_no_hitl() {
    let summary = collect_status(Some(vec![count("pending", 1)]), Some(vec![]), &vec![]).unwrap();
    assert!(summary.hitl_items.is_empty());
}

#[test]
fn collect_status_needs_counts_and_events() {
    assert!(collect_status(None, Some(vec![]), &vec![]).is_none());
    assert!(collect_status(Some(vec![]), None, &vec![]).is_none());
}

#[test]
fn claw_entry_displays_hitl_list_grouped_by_reason() {
    let summary = StatusSummary {
        total_items: 5,
        phase_counts: vec![count("pending", 2), count("hitl", 3)],
        hitl_pending: 3,
        recent_events: vec![],
        hitl_items: vec![
            hitl("w1:impl", "ws-a", "evaluate_failure", Some("Spec conflict item")),
            hitl("w2:impl", "ws-a", "retry_max_exceeded", Some("Retry exceeded item")),
            hitl("w3:impl", "ws-b", "other", None),
        ],
    };
    let out = run(Some("test-ws"), None, "/quit\n", Some(summary), None);

    // Verify HITL list is displayed.
    assert!(out.contains("HITL Items (3 awaiting review)"));
    // Verify grouping labels appear.
    assert!(out.contains("Spec Conflict (evaluate_failure)"));
    assert!(out.contains("Failure (retry_max_exceeded)"));
    assert!(out.contains("Other"));
    // Verify items are listed.
    assert!(out.contains("w1:impl"));
    assert!(out.contains("w2:impl"));
    assert!(out.contains("w3:impl"));
}

#[test]
fn claw_entry_no_hitl_list_when_empty() {
    let summary = StatusSummary {
        total_items: 2,
        phase_counts: vec![count("pending", 2)],
        hitl_pending: 0,
        recent_events: vec![],
        hitl_items: vec![],
    };
    let out = run(Some("test-ws"), None, "/quit\n", Some(summary), None);
    assert!(!out.contains("HITL Items"));
}

#[test]
fn collect_status_from_db_multiple_phases() {
    let counts = vec![count("done", 1), count("pending", 2), count("running", 1)];
    let summary = collect_status(Some(counts), Some(vec![]), &vec![]).unwrap();
    assert_eq!(summary.total_items, 4);
    assert_eq!(summary.hitl_pending, 0);
    assert!(summary.hitl_items.is_empty());
    // Verify all phases are represented.
    let phase_names: Vec<&str> = summary.phase_counts.iter().map(|p| p.phase.as_str()).collect();
    assert!(phase_names.contains(&"pending"));
    assert!(phase_names.contains(&"running"));
    assert!(phase_names.contains(&"done"));
    // Check counts.
    let pending_count = summary.phase_counts.iter().find(|p| p.phase == "pending").map(|p| p.count);
    assert_eq!(pending_count, Some(2));
}

#[test]
fn collect_status_hitl_item_has_correct_reason_and_title() {
    let mut entry = item("w-hitl", "ws-test", QueuePhase::Hitl);
    entry.title = Some("My HITL task".to_string());
    entry.hitl_reason_name = Some("timeout".to_string());
    let summary = collect_status(Some(vec![count("hitl", 1)]), Some(vec![]), &vec![entry]).unwrap();
    assert_eq!(summary.hitl_items.len(), 1);
    assert_eq!(summary.hitl_items[0].work_id, "w-hitl");
    assert_eq!(summary.hitl_items[0].workspace, "ws-test");
    assert_eq!(summary.hitl_items[0].reason, "timeout");
    assert_eq!(summary.hitl_items[0].title.as_deref(), Some("My HITL task"));
}

#[test]
fn collect_status_reason_defaults_to_other() {
    let entry = item("w", "ws", QueuePhase::Hitl);
    let summary = collect_status(Some(vec![]), Some(vec![]), &vec![entry]).unwrap();
    assert_eq!(summary.hitl_items[0].reason, "other");
}

#[test]
fn status_banner_empty_phases_omits_phases_line() {
    let out = write_status_banner(&StatusSummary::default());
    assert!(out.contains("Queue: 0 items"));
    assert!(!out.contains("Phases:"));
}

#[test]
fn status_banner_omits_recent_events_section_when_empty() {
    let summary = StatusSummary {
        total_items: 1,
        phase_counts: vec![count("pending", 1)],
        hitl_pending: 0,
        recent_events: vec![],
        hitl_items: vec![],
    };
    let out = write_status_banner(&summary);
    assert!(!out.contains("Recent events:"));
}

#[test]
fn status_banner_shows_multiple_events() {
    let summary = StatusSummary {
        total_items: 2,
        phase_counts: vec![count("done", 2)],
        hitl_pending: 0,
        recent_events: vec![
            event("ev-1", "pending", "running", "2026-03-24T09:00:00Z"),
            event("ev-2", "running", "done", "2026-03-24T10:00:00Z"),
        ],
        hitl_items: vec![],
    };
    let out = write_status_banner(&summary);
    assert!(out.contains("Recent events:"));
    assert!(out.contains("ev-1"));
    assert!(out.contains("ev-2"));
    assert!(out.contains("pending -> running"));
    assert!(out.contains("running -> done"));
    assert!(out.contains("    ev-1 : pending -> running (2026-03-24T09:00:00Z)\n"));
}

#[test]
fn session_dispatches_auto_command() {
    let out = quick("/auto run task\n/quit\n");
    assert!(out.contains("[auto]"));
    assert!(out.contains("run task"));
}

#[test]
fn session_dispatches_spec_command() {
    let out = quick("/spec issue-42\n/quit\n");
    assert!(out.contains("[spec]"));
    assert!(out.contains("issue-42"));
}

#[test]
fn session_dispatches_claw_command() {
    let out = quick("/claw status\n/quit\n");
    assert!(out.contains("[claw]"));
    assert!(out.contains("test-ws"));
}

#[test]
fn session_dispatches_unknown_command() {
    let out = quick("/unknown\n/quit\n");
    assert!(out.contains("Unknown command"));
}

#[test]
fn session_exit_alias_works() {
    let out = quick("/exit\n");
    assert!(out.contains("Goodbye."));
}

#[test]
fn session_skips_empty_lines() {
    let out = quick("\n\n\nhello\n/quit\n");
    // Empty lines should be skipped, only the freeform text echoed.
    assert!(out.contains(">> hello"));
    assert!(out.contains("Goodbye."));
    assert!(out.contains("claw> claw> claw> claw> >> hello\n"));
}

#[test]
fn session_multiple_commands_in_sequence() {
    let out = quick("/help\n/auto\n/spec\n/quit\n");
    assert!(out.contains("/auto"));
    assert!(out.contains("[auto]"));
    assert!(out.contains("[spec]"));
    assert!(out.contains("Goodbye."));
}

#[test]
fn session_no_workspace_context_omits_context_line() {
    let out = run(None, None, "/quit\n", None, None);
    assert!(!out.contains("Context:"));
}

#[test]
fn reason_priority_ordering() {
    assert!(reason_priority("evaluate_failure") < reason_priority("retry_max_exceeded"));
    assert!(reason_priority("evaluate_failure") < reason_priority("timeout"));
    assert_eq!(reason_priority("retry_max_exceeded"), reason_priority("timeout"));
    assert!(reason_priority("timeout") < reason_priority("manual_escalation"));
    assert!(reason_priority("timeout") < reason_priority("other"));
}

#[test]
fn reason_display_labels_are_correct() {
    assert_eq!(reason_display_label("evaluate_failure"), "Spec Conflict (evaluate_failure)");
    assert_eq!(reason_display_label("retry_max_exceeded"), "Failure (retry_max_exceeded)");
    assert_eq!(reason_display_label("timeout"), "Failure (timeout)");
    assert_eq!(reason_display_label("manual_escalation"), "Other (manual_escalation)");
    assert_eq!(reason_display_label("something_else"), "Other");
}

#[test]
fn hitl_list_shows_title_dash_when_none() {
    let items = vec![hitl("w-no-title", "ws", "other", None)];
    let out = write_hitl_list(&items);
    assert!(out.contains("w-no-title"));
    assert!(out.contains("-"));
    assert_eq!(
        out,
        format!(
            "\n--- HITL Items (1 awaiting review) ---\n  [Other]\n    {:<40} {:<16} -\n---------------------------------------\n",
            "w-no-title", "ws"
        )
    );
}

#[test]
fn hitl_list_priority_order_spec_conflict_first() {
    let items = vec![
        hitl("other-item", "ws", "other", None),
        hitl("failure-item", "ws", "timeout", None),
        hitl("spec-item", "ws", "evaluate_failure", None),
    ];
    let out = write_hitl_list(&items);

    // Spec Conflict should appear before Failure, which should appear before Other.
    let spec_pos = out.find("Spec Conflict").unwrap();
    let failure_pos = out.find("Failure (timeout)").unwrap();
    let other_pos = out.find("Other").unwrap();
    assert!(spec_pos < failure_pos, "spec-conflict should appear before failure");
    assert!(failure_pos < other_pos, "failure should appear before other");
}

#[test]
fn hitl_groups_of_one_priority_go_by_name() {
    let items = vec![
        hitl("a", "ws", "timeout", None),
        hitl("b", "ws", "zebra", None),
        hitl("c", "ws", "retry_max_exceeded", None),
        hitl("d", "ws", "timeout", None),
        hitl("e", "ws", "apple", None),
    ];
    let out = write_hitl_list(&items);
    let order: Vec<usize> =
        ["    c", "    a", "    d", "    e", "    b"].iter().map(|s| out.find(s).unwrap()).collect();
    assert!(order.windows(2).all(|w| w[0] < w[1]));
    assert_eq!(out.matches("  [Failure (timeout)]").count(), 1);
}

#[test]
fn workspace_stats_banner_displays_all_counts() {
    let stats = WorkspaceStats {
        workspace_name: "my-project".to_string(),
        active_spec_count: 3,
        completing_count: 1,
        completed_count: 5,
        pending_items_count: 4,
        running_items_count: 2,
        recent_hitl_events: vec![],
    };
    assert_eq!(
        write_workspace_stats_banner(&stats),
        "--- Workspace: my-project ---\nSpecs: active=3, completing=1, completed=5\nItems: pending=4, running=2\n---------------------\n"
    );
}

#[test]
fn workspace_stats_banner_shows_hitl_events() {
    let stats = WorkspaceStats {
        workspace_name: "ws".to_string(),
        active_spec_count: 0,
        completing_count: 0,
        completed_count: 0,
        pending_items_count: 0,
        running_items_count: 0,
        recent_hitl_events: vec![event("hitl-item", "running", "hitl", "2026-03-25T12:00:00Z")],
    };
    let out = write_workspace_stats_banner(&stats);
    assert!(out.contains("Recent HITL events"));
    assert!(out.contains("hitl-item"));
    assert!(out.contains("running -> hitl"));
}

#[test]
fn workspace_stats_banner_omits_hitl_when_empty() {
    let stats = WorkspaceStats {
        workspace_name: "ws".to_string(),
        recent_hitl_events: vec![],
        ..WorkspaceStats::default()
    };
    let out = write_workspace_stats_banner(&stats);
    assert!(!out.contains("Recent HITL events"));
}

#[test]
fn session_displays_workspace_stats() {
    let stats = WorkspaceStats {
        workspace_name: "test-ws".to_string(),
        active_spec_count: 2,
        completing_count: 0,
        completed_count: 1,
        pending_items_count: 3,
        running_items_count: 1,
        recent_hitl_events: vec![],
    };
    let out = run(Some("test-ws"), None, "/quit\n", None, Some(stats));
    assert!(out.contains("Workspace: test-ws ---"));
    assert!(out.contains("active=2"));
    assert!(out.contains("pending=3"));
}

#[test]
fn session_no_workspace_stats_when_none() {
    let out = quick("/quit\n");
    assert!(!out.contains("Specs:"));
    assert!(!out.contains("Items:"));
}

#[test]
fn collect_workspace_stats_from_empty_db() {
    let stats =
        collect_workspace_stats(Some("ws1"), &Some(vec![]), &Some(vec![]), &Some(vec![])).unwrap();
    assert_eq!(stats.workspace_name, "ws1");
    assert_eq!(stats.active_spec_count, 0);
    assert_eq!(stats.completing_count, 0);
    assert_eq!(stats.completed_count, 0);
    assert_eq!(stats.pending_items_count, 0);
    assert_eq!(stats.running_items_count, 0);
    assert!(stats.recent_hitl_events.is_empty());
}

#[test]
fn collect_workspace_stats_from_populated_db() {
    let specs = vec![
        spec("sp1", "ws1", SpecState::Active),
        spec("sp2", "ws1", SpecState::Completing),
    ];
    let items = vec![
        item("w1", "ws1", QueuePhase::Pending),
        item("w2", "ws1", QueuePhase::Running),
    ];
    let stats =
        collect_workspace_stats(Some("ws1"), &Some(specs), &Some(items), &Some(vec![])).unwrap();
    assert_eq!(stats.active_spec_count, 1);
    assert_eq!(stats.completing_count, 1);
    assert_eq!(stats.completed_count, 0);
    assert_eq!(stats.pending_items_count, 1);
    assert_eq!(stats.running_items_count, 1);
}

#[test]
fn collect_workspace_stats_filters_by_workspace() {
    let of = |ws: &str| {
        let specs =
            vec![spec("sp1", "ws1", SpecState::Active), spec("sp2", "ws2", SpecState::Active)];
        let items = vec![item("w1", "ws2", QueuePhase::Pending)];
        collect_workspace_stats(Some(ws), &Some(specs), &Some(items), &None).unwrap()
    };
    // Stats for ws1 should not include ws2 data.
    let stats = of("ws1");
    assert_eq!(stats.active_spec_count, 1);
    assert_eq!(stats.pending_items_count, 0);

    // Stats for ws2 should not include ws1 data.
    let stats2 = of("ws2");
    assert_eq!(stats2.active_spec_count, 1);
    assert_eq!(stats2.pending_items_count, 1);
}

#[test]
fn workspace_stats_show_the_first_five_hitl_events() {
    let items = vec![item("h", "w", QueuePhase::Hitl), item("p", "w", QueuePhase::Pending)];
    let mut events = vec![event("p", "running", "hitl", "0"), event("h", "hitl", "done", "1")];
    for t in 2..9 {
        events.push(event("h", "running", "hitl", &format!("{t}")));
    }
    let stats =
        collect_workspace_stats(Some("w"), &Some(vec![]), &Some(items), &Some(events)).unwrap();
    let times: Vec<&str> = stats.recent_hitl_events.iter().map(|e| e.timestamp.as_str()).collect();
    assert_eq!(times, vec!["2", "3", "4", "5", "6"]);
}

#[test]
fn workspace_stats_count_the_workspace_alone() {
    let specs = vec![
        spec("sp1", "w", SpecState::Completed),
        spec("sp2", "w", SpecState::Completing),
    ];
    let items = vec![item("a", "w", QueuePhase::Running), item("b", "w", QueuePhase::Pending)];
    let counts = |specs: Vec<Spec>, items: Vec<QueueItem>| {
        let s = collect_workspace_stats(Some("w"), &Some(specs), &Some(items), &None).unwrap();
        (
            s.workspace_name,
            s.active_spec_count,
            s.completing_count,
            s.completed_count,
            s.pending_items_count,
            s.running_items_count,
        )
    };
    let own = counts(specs.clone(), items.clone());
    assert_eq!(own, ("w".to_string(), 0, 1, 1, 1, 1));
    let mut more_specs = specs;
    more_specs.insert(1, spec("sp3", "x", SpecState::Active));
    more_specs.push(spec("sp4", "ww", SpecState::Completed));
    let mut more_items = items;
    more_items.insert(0, item("c", "x", QueuePhase::Running));
    more_items.push(item("d", "", QueuePhase::Hitl));
    assert_eq!(counts(more_specs, more_items), own);
}

#[test]
fn workspace_stats_need_what_they_read() {
    let none: Option<Vec<RecentEvent>> = None;
    assert!(collect_workspace_stats(None, &Some(vec![]), &Some(vec![]), &none).is_none());
    assert!(collect_workspace_stats(Some("w"), &None, &Some(vec![]), &none).is_none());
    assert!(collect_workspace_stats(Some("w"), &Some(vec![]), &None, &none).is_none());
    let waiting = Some(vec![item("h", "w", QueuePhase::Hitl)]);
    assert!(collect_workspace_stats(Some("w"), &Some(vec![]), &waiting, &none).is_none());
    assert!(collect_workspace_stats(Some("w"), &Some(vec![]), &Some(vec![]), &none).is_some());
}

fn message(role: MessageRole, content: &str) -> SessionMessage {
    SessionMessage { role, content: content.to_string() }
}

#[test]
fn build_prompt_with_empty_history() {
    let prompt = build_prompt_with_history("hello", &vec![]);
    assert_eq!(prompt, "hello");
}

#[test]
fn build_prompt_includes_history() {
    let history =
        vec![message(MessageRole::User, "first"), message(MessageRole::Assistant, "response")];
    let prompt = build_prompt_with_history("second", &history);
    assert!(prompt.contains("conversation_history"));
    assert!(prompt.contains("[user]: first"));
    assert!(prompt.contains("[assistant]: response"));
    assert!(prompt.contains("second"));
    assert_eq!(
        prompt,
        "<conversation_history>\n[user]: first\n[assistant]: response\n</conversation_history>\n\nsecond"
    );
}

#[test]
fn session_token_usage_accumulation() {
    let mut usage = SessionTokenUsage::default();
    usage.accumulate(&TokenUsage { input_tokens: 100, output_tokens: 50 });
    usage.accumulate(&TokenUsage { input_tokens: 200, output_tokens: 75 });
    assert_eq!(usage.total_input_tokens, 300);
    assert_eq!(usage.total_output_tokens, 125);
    assert_eq!(usage.invocation_count, 2);
    assert_eq!(
        write_session_usage(&usage),
        "Session totals: 2 invocations, 300 input tokens, 125 output tokens\n"
    );
    assert_eq!(
        write_token_usage(&TokenUsage { input_tokens: 1, output_tokens: 2 }),
        "  [tokens: in=1, out=2]\n"
    );
}

#[test]
fn build_system_prompt_includes_workspace() {
    let prompt = build_system_prompt(&Some("my-ws".to_string()), &vec![]);
    assert!(prompt.contains("my-ws"));
    assert!(prompt.contains("Belt Claw"));
}

#[test]
fn build_system_prompt_without_workspace() {
    let prompt = build_system_prompt(&None, &vec![]);
    assert!(prompt.contains("Belt Claw"));
    assert!(!prompt.contains("Current workspace"));
}

#[test]
fn session_runtime_multi_turn_conversation() {
    let mut agent = Agent::new(&[], &[]);
    run(Some("test-ws"), Some(&mut agent), "alpha\nbeta\ngamma\n/quit\n", None, None);

    let calls = &agent.calls;
    assert_eq!(calls.len(), 3);

    // First call: no history.
    assert!(!calls[0].contains("conversation_history"));
    assert!(calls[0].contains("alpha"));

    // Second call: history contains first exchange.
    assert!(calls[1].contains("conversation_history"));
    assert!(calls[1].contains("[user]: alpha"));
    assert!(calls[1].contains("[assistant]:"));
    assert!(calls[1].contains("beta"));

    // Third call: history contains both previous exchanges.
    assert!(calls[2].contains("[user]: alpha"));
    assert!(calls[2].contains("[user]: beta"));
    assert!(calls[2].contains("gamma"));
}

#[test]
fn session_history_not_updated_on_runtime_failure() {
    // First call fails, second succeeds.
    let mut agent = Agent::new(&[1], &[]);
    run(Some("test-ws"), Some(&mut agent), "bad input\ngood input\n/quit\n", None, None);

    let calls = &agent.calls;
    assert_eq!(calls.len(), 2);

    // Second call should have history with the failed user message but
    // no assistant response from the failed invocation.
    assert!(calls[1].contains("conversation_history"));
    assert!(calls[1].contains("[user]: bad input"));
    let history_section = calls[1].split("</conversation_history>").next().unwrap_or("");
    assert!(
        !history_section.contains("[assistant]:"),
        "Failed invocation should not produce assistant history entry"
    );
}

#[test]
fn build_prompt_truncates_history_to_last_10_messages() {
    let mut history = Vec::new();
    for i in 0..14 {
        let role = if i % 2 == 0 { MessageRole::User } else { MessageRole::Assistant };
        history.push(message(role, &format!("message-{i}")));
    }
    let prompt = build_prompt_with_history("current", &history);

    // Messages 0..3 (indices 0,1,2,3) should be excluded.
    assert!(!prompt.contains("message-0"), "message-0 should be truncated");
    assert!(!prompt.contains("message-3"), "message-3 should be truncated");

    // Messages 4..13 should be included (last 10).
    assert!(prompt.contains("message-4"));
    assert!(prompt.contains("message-13"));

    // Current input should be present after history.
    assert!(prompt.contains("current"));
}

#[test]
fn build_system_prompt_mentions_history_count() {
    let history = vec![
        message(MessageRole::User, "hi"),
        message(MessageRole::Assistant, "hello"),
        message(MessageRole::User, "how"),
    ];
    let prompt = build_system_prompt(&Some("ws".to_string()), &history);
    assert!(prompt.contains("3 previous messages"));
    assert_eq!(
        prompt,
        "You are the Belt Claw interactive assistant.\nCurrent workspace: ws\nConversation history has 3 previous messages."
    );
}

#[test]
fn build_system_prompt_no_history_mention_when_empty() {
    let prompt = build_system_prompt(&Some("ws".to_string()), &vec![]);
    assert!(!prompt.contains("previous messages"));
}

#[test]
fn session_token_usage_not_shown_when_runtime_reports_none() {
    let mut agent = Agent::new(&[], &[]);
    let out = run(Some("test-ws"), Some(&mut agent), "hello\n/quit\n", None, None);
    // No per-invocation token line.
    assert!(!out.contains("[tokens:"));
    // No session summary since no token usage was accumulated.
    assert!(!out.contains("Session totals:"));
}

#[test]
fn session_token_accumulation_across_three_invocations() {
    let mut agent = Agent::new(&[], &[(10, 5), (20, 15), (30, 25)]);
    let out = run(Some("test-ws"), Some(&mut agent), "a\nb\nc\n/quit\n", None, None);
    // Session summary on quit.
    assert!(out.contains("3 invocations"));
    assert!(out.contains("60 input tokens"));
    assert!(out.contains("45 output tokens"));
}

#[test]
fn session_token_usage_default_is_zero() {
    let usage = SessionTokenUsage::default();
    assert_eq!(usage.total_input_tokens, 0);
    assert_eq!(usage.total_output_tokens, 0);
    assert_eq!(usage.invocation_count, 0);
}

#[test]
fn session_token_usage_single_accumulation() {
    let mut usage = SessionTokenUsage::default();
    usage.accumulate(&TokenUsage { input_tokens: 42, output_tokens: 17 });
    assert_eq!(usage.total_input_tokens, 42);
    assert_eq!(usage.total_output_tokens, 17);
    assert_eq!(usage.invocation_count, 1);
}

#[test]
fn session_runtime_receives_system_prompt_with_workspace() {
    let session = Session::new(Some("test-ws".to_string()), true);
    match session.read_line(Some("test\n")) {
        SessionStep::Ask { system_prompt, .. } => {
            assert!(system_prompt.contains("test-ws"));
            assert!(system_prompt.contains("Belt Claw"));
        }
        _ => panic!("expected the agent to be asked"),
    }
}

#[test]
fn session_runtime_error_shows_stderr() {
    let mut agent = Agent::new(&[1], &[]);
    let out = run(Some("test-ws"), Some(&mut agent), "trigger error\n/quit\n", None, None);
    assert!(out.contains("[error] Agent invocation failed (exit code 1)"));
    let mut session = Session::new(None, true);
    let reply = AgentReply {
        success: false,
        exit_code: 2,
        stdout: "ignored".to_string(),
        stderr: " it broke \n".to_string(),
        token_usage: None,
    };
    assert_eq!(
        session.take_reply("x".to_string(), &reply),
        "[error] Agent invocation failed (exit code 2)\n[error] it broke\n"
    );
    assert_eq!(session.history.len(), 1);
}

#[test]
fn session_mixed_slash_and_freeform_with_runtime() {
    let mut agent = Agent::new(&[], &[]);
    let input = "hello\n/help\nworld\n/auto task\n/quit\n";
    let out = run(Some("test-ws"), Some(&mut agent), input, None, None);

    // Only 2 runtime calls (hello, world). Slash commands are not forwarded.
    assert_eq!(agent.calls.len(), 2);
    assert!(agent.calls[0].contains("hello"));
    assert!(agent.calls[1].contains("world"));

    // Slash command output should also be present.
    assert!(out.contains("/auto"));
    assert!(out.contains("[auto]"));
}

#[test]
fn session_no_session_summary_when_no_invocations() {
    let mut agent = Agent::new(&[], &[]);
    let out = run(Some("test-ws"), Some(&mut agent), "/quit\n", None, None);
    assert!(!out.contains("Session totals:"));
}

#[test]
fn reply_is_trimmed_and_recorded() {
    let mut session = Session::new(None, true);
    let reply = AgentReply {
        success: true,
        exit_code: 0,
        stdout: " fine \n".to_string(),
        stderr: String::new(),
        token_usage: Some(TokenUsage { input_tokens: 3, output_tokens: 4 }),
    };
    assert_eq!(session.take_reply("q".to_string(), &reply), "fine\n  [tokens: in=3, out=4]\n");
    assert_eq!(session.history[0].content, "q");
    assert_eq!(session.history[1].content, "fine");
    assert_eq!(session.history[1].role, MessageRole::Assistant);
}
