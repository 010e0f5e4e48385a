use belt_cli::numbers::fmt_num;
use belt_cli::numbers::render_progress_bar;
use belt_cli::queue::QueueItem;
use belt_cli::queue::QueuePhase;
use belt_cli::queue::TransitionEvent;
use belt_cli::status::gather_spec_status;
use belt_cli::status::gather_status;
use belt_cli::status::render::box_content_width;
use belt_cli::status::render::cmd_status;
use belt_cli::status::render::print_rich_runtime;
use belt_cli::status::render::print_rich_spec_status;
use belt_cli::status::render::print_rich_status;
use belt_cli::status::render::print_spec_status;
use belt_cli::status::render::print_status;
use belt_cli::status::render::print_text_spec_status;
use belt_cli::status::render::print_text_status;
use belt_cli::status::render::to_crossterm_color;
use belt_cli::status::render::Rendered;
use belt_cli::status::render::MAX_BOX_WIDTH;
use belt_cli::status::render::MIN_BOX_WIDTH;
use belt_cli::status::EventSummary;
use belt_cli::status::ItemSummary;
use belt_cli::status::ModelStats;
use belt_cli::status::ModelTokenSummary;
use belt_cli::status::PhaseCount;
use belt_cli::status::QueueSnapshot;
use belt_cli::status::RuntimeStats;
use belt_cli::status::SpecStatus;
use belt_cli::status::SystemStatus;
use belt_cli::status::TokenUsageRow;
use belt_cli::status::TokenUsageSummary;
use belt_cli::status::WorkspaceItems;
use belt_cli::status::WorkspaceRow;
use belt_cli::status::WorkspaceSummary;
use belt_cli::style::Color;
use belt_cli::style::Page;

// ---- test helpers ----

const PHASES: [(QueuePhase, &str); 8] = [
    (QueuePhase::Pending, "pending"),
    (QueuePhase::Ready, "ready"),
    (QueuePhase::Running, "running"),
    (QueuePhase::Completed, "completed"),
    (QueuePhase::Done, "done"),
    (QueuePhase::Hitl, "hitl"),
    (QueuePhase::Failed, "failed"),
    (QueuePhase::Skipped, "skipped"),
];

/// A queue database in memory.
struct Db {
    items: Vec<QueueItem>,
    events: Vec<TransitionEvent>,
    workspaces: Vec<(String, String)>,
    usage: Vec<(String, TokenUsageRow)>,
}

fn test_db() -> Db {
    Db { items: Vec::new(), events: Vec::new(), workspaces: Vec::new(), usage: Vec::new() }
}

impl Db {
    fn insert_item(&mut self, item: &QueueItem) {
        self.items.push(item.clone());
    }

    fn add_workspace(&mut self, name: &str, config_path: &str) {
        self.workspaces.push((name.to_string(), config_path.to_string()));
    }

    fn list_items(&self, phase: Option<QueuePhase>, workspace: Option<&str>) -> Vec<QueueItem> {
        self.items
            .iter()
            .filter(|i| phase.is_none_or(|p| i.phase == p))
            .filter(|i| workspace.is_none_or(|w| i.workspace_id == w))
            .cloned()
            .collect()
    }

    fn gather_status(&self) -> SystemStatus {
        let mut phase_counts = Vec::new();
        for (phase, name) in PHASES {
            let count = self.list_items(Some(phase), None).len() as u32;
            if count > 0 {
                phase_counts.push(PhaseCount { phase: name.to_string(), count });
            }
        }
        gather_status(QueueSnapshot {
            phase_counts,
            running: self.list_items(Some(QueuePhase::Running), None),
            events: self.events.clone(),
            runtime_stats: None,
            workspaces: self
                .workspaces
                .iter()
                .map(|(name, _)| WorkspaceItems {
                    name: name.clone(),
                    items: self.list_items(None, Some(name)),
                })
                .collect(),
            failed: self.list_items(Some(QueuePhase::Failed), None),
            hitl: self.list_items(Some(QueuePhase::Hitl), None),
        })
    }

    fn gather_spec_status(&self, workspace: &str) -> Result<SpecStatus, String> {
        let found = self
            .workspaces
            .iter()
            .find(|(name, _)| name == workspace)
            .map(|(name, path)| WorkspaceRow {
                name: name.clone(),
                config_path: path.clone(),
                created_at: String::new(),
            })
            .ok_or(format!("workspace not found: {workspace}"));
        let rows = self
            .usage
            .iter()
            .filter(|(w, _)| w == workspace)
            .map(|(_, r)| TokenUsageRow {
                model: r.model.clone(),
                input_tokens: r.input_tokens,
                output_tokens: r.output_tokens,
            })
            .collect();
        gather_spec_status(found, &self.list_items(None, Some(workspace)), &Some(rows))
    }
}

fn make_item(work_id: &str, source_id: &str, workspace_id: &str, phase: QueuePhase) -> QueueItem {
    QueueItem {
        work_id: work_id.to_string(),
        source_id: source_id.to_string(),
        workspace_id: workspace_id.to_string(),
        state: "implement".to_string(),
        phase,
        title: None,
        created_at: "2026-03-25T00:00:00Z".to_string(),
        updated_at: "2026-03-25T00:00:00Z".to_string(),
        hitl_created_at: None,
        hitl_reason: None,
        hitl_reason_name: None,
        hitl_respondent: None,
        hitl_notes: None,
        hitl_timeout_at: None,
        hitl_terminal_action: None,
        replan_count: 0,
    }
}

fn make_event(work_id: &str) -> TransitionEvent {
    TransitionEvent {
        work_id: work_id.to_string(),
        event_type: "phase_enter".to_string(),
        phase: Some("running".to_string()),
        from_phase: Some("pending".to_string()),
        detail: None,
        created_at: "2026-03-25T00:00:00Z".to_string(),
    }
}

/// `RuntimeStats` with predictable fields for assertions.
fn sample_stats() -> RuntimeStats {
    RuntimeStats {
        total_tokens_input: 1_000,
        total_tokens_output: 500,
        total_tokens: 1_500,
        executions: 7,
        avg_duration: Some("250".to_string()),
        by_model: Vec::new(),
    }
}

fn percent(count: u32, total: u32) -> u32 {
    (count as f64 / total.max(1) as f64 * 100.0) as u32
}

fn percents(counts: &Vec<PhaseCount>, total: u32) -> Vec<u32> {
    counts.iter().map(|pc| percent(pc.count, total)).collect()
}

fn page_text(page: &Page) -> String {
    page.spans.iter().map(|s| s.text.as_str()).collect()
}

fn rich_status(status: &SystemStatus, daemon_running: Option<bool>) -> String {
    let pct = percents(&status.phase_counts, status.total_items);
    page_text(&print_rich_status(status, &pct, daemon_running, 80))
}

fn rich_spec_status(status: &SpecStatus) -> String {
    let pct = percents(&status.phase_counts, status.item_count);
    let finished: u32 = status
        .phase_counts
        .iter()
        .filter(|pc| matches!(pc.phase.as_str(), "done" | "completed" | "skipped"))
        .map(|pc| pc.count)
        .sum();
    let overall = percent(finished, status.item_count);
    page_text(&print_rich_spec_status(status, &pct, overall, 80))
}

fn render(status: &SystemStatus, format: &str) -> Rendered {
    let pct = percents(&status.phase_counts, status.total_items);
    print_status(status, format, &pct, None, 80)
}

fn render_spec(status: &SpecStatus, format: &str) -> Rendered {
    let pct = percents(&status.phase_counts, status.item_count);
    print_spec_status(status, format, &pct, 60, 80)
}

fn phase(phase: &str, count: u32) -> PhaseCount {
    PhaseCount { phase: phase.to_string(), count }
}

fn count_of(counts: &Vec<PhaseCount>, name: &str) -> Option<u32> {
    counts.iter().find(|pc| pc.phase == name).map(|pc| pc.count)
}

// ---- status output ----

struct StatusOutput<'a> {
    status: &'a str,
}

#[test]
fn status_output_always_reports_ok() {
    // The status field must always be the literal string "ok".
    let output = StatusOutput { status: "ok" };
    assert_eq!(output.status, "ok");
}

// ---- gather_status ----

#[test]
fn gather_status_empty_db_returns_zero_totals() {
    let db = test_db();
    let status = db.gather_status();

    assert_eq!(status.total_items, 0);
    assert_eq!(status.hitl_count, 0);
    assert!(status.phase_counts.is_empty());
    assert!(status.running_items.is_empty());
    assert!(status.recent_events.is_empty());
    assert!(status.workspace_summary.is_empty());
    assert!(status.error_items.is_empty());
    assert!(status.hitl_items.is_empty());
}

#[test]
fn gather_status_counts_items_across_phases() {
    let mut db = test_db();
    db.insert_item(&make_item("w1:implement", "w1", "ws-a", QueuePhase::Pending));
    db.insert_item(&make_item("w2:implement", "w2", "ws-a", QueuePhase::Running));
    db.insert_item(&make_item("w3:implement", "w3", "ws-b", QueuePhase::Running));
    db.insert_item(&make_item("w4:implement", "w4", "ws-a", QueuePhase::Done));

    let status = db.gather_status();

    assert_eq!(status.total_items, 4);
    assert_eq!(count_of(&status.phase_counts, "pending"), Some(1));
    assert_eq!(count_of(&status.phase_counts, "running"), Some(2));
    assert_eq!(count_of(&status.phase_counts, "done"), Some(1));
}

#[test]
fn gather_status_running_items_populated() {
    let mut db = test_db();
    db.insert_item(&make_item("run1:implement", "run1", "ws-x", QueuePhase::Running));
    db.insert_item(&make_item("pend1:implement", "pend1", "ws-x", QueuePhase::Pending));

    let status = db.gather_status();

    assert_eq!(status.running_items.len(), 1);
    assert_eq!(status.running_items[0].work_id, "run1:implement");
    assert_eq!(status.running_items[0].workspace, "ws-x");
    assert_eq!(status.running_items[0].phase, "running");
}

#[test]
fn gather_status_recent_events_populated() {
    let mut db = test_db();
    db.events.push(make_event("w1:implement"));

    let status = db.gather_status();

    assert_eq!(status.recent_events.len(), 1);
    assert_eq!(status.recent_events[0].item_id, "w1:implement");
    assert_eq!(status.recent_events[0].from_state, "pending");
    assert_eq!(status.recent_events[0].to_state, "running");
    assert_eq!(status.recent_events[0].event_type, "phase_enter");
}

#[test]
fn gather_status_recent_events_capped_at_ten() {
    let mut db = test_db();
    for i in 0..15u32 {
        db.events.push(make_event(&format!("w{i}:implement")));
    }

    let status = db.gather_status();

    assert!(
        status.recent_events.len() <= 10,
        "expected at most 10 events, got {}",
        status.recent_events.len()
    );
    assert_eq!(status.recent_events[9].item_id, "w9:implement");
}

#[test]
fn missing_event_phases_are_empty() {
    let mut db = test_db();
    let mut event = make_event("w1");
    event.phase = None;
    event.from_phase = None;
    db.events.push(event);
    let status = db.gather_status();
    assert_eq!(status.recent_events[0].from_state, "");
    assert_eq!(status.recent_events[0].to_state, "");
}

#[test]
fn gather_status_hitl_count_populated() {
    let mut db = test_db();
    db.insert_item(&make_item("w1:implement", "w1", "ws-a", QueuePhase::Pending));
    db.insert_item(&make_item("w2:implement", "w2", "ws-a", QueuePhase::Hitl));
    db.insert_item(&make_item("w3:implement", "w3", "ws-b", QueuePhase::Hitl));

    let status = db.gather_status();

    assert_eq!(status.total_items, 3);
    assert_eq!(status.hitl_count, 2);
}

#[test]
fn gather_status_error_and_hitl_items_populated() {
    let mut db = test_db();
    db.add_workspace("ws-a", "/a.yaml");
    db.insert_item(&make_item("f1:implement", "f1", "ws-a", QueuePhase::Failed));
    db.insert_item(&make_item("h1:implement", "h1", "ws-a", QueuePhase::Hitl));
    db.insert_item(&make_item("p1:implement", "p1", "ws-a", QueuePhase::Pending));

    let status = db.gather_status();

    assert_eq!(status.error_items.len(), 1);
    assert_eq!(status.error_items[0].work_id, "f1:implement");
    assert_eq!(status.hitl_items.len(), 1);
    assert_eq!(status.hitl_items[0].work_id, "h1:implement");
    assert_eq!(status.workspace_summary.len(), 1);
    assert_eq!(status.workspace_summary[0].workspace, "ws-a");
    assert_eq!(status.workspace_summary[0].total, 3);
}

#[test]
fn gather_status_hitl_count_zero_when_none() {
    let mut db = test_db();
    db.insert_item(&make_item("w1:implement", "w1", "ws-a", QueuePhase::Pending));
    db.insert_item(&make_item("w2:implement", "w2", "ws-a", QueuePhase::Running));

    let status = db.gather_status();

    assert_eq!(status.hitl_count, 0);
}

// ---- gather_spec_status ----

#[test]
fn gather_spec_status_workspace_not_found_returns_error() {
    let db = test_db();
    let result = db.gather_spec_status("no-such-workspace");
    assert!(result.is_err());
    assert_eq!(result.unwrap_err(), "workspace not found: no-such-workspace");
}

#[test]
fn gather_spec_status_empty_workspace() {
    let mut db = test_db();
    db.add_workspace("ws-empty", "/path/to/workspace.yaml");

    let spec_status = db.gather_spec_status("ws-empty").unwrap();

    assert_eq!(spec_status.workspace, "ws-empty");
    assert_eq!(spec_status.config_path, "/path/to/workspace.yaml");
    assert_eq!(spec_status.item_count, 0);
    assert!(spec_status.phase_counts.is_empty());
}

#[test]
fn gather_spec_status_counts_items_in_workspace() {
    let mut db = test_db();
    db.add_workspace("ws-main", "/path/to/ws.yaml");
    db.add_workspace("ws-other", "/other/ws.yaml");
    db.insert_item(&make_item("a1:implement", "a1", "ws-main", QueuePhase::Pending));
    db.insert_item(&make_item("a2:implement", "a2", "ws-main", QueuePhase::Running));
    db.insert_item(&make_item("a3:implement", "a3", "ws-main", QueuePhase::Done));
    db.insert_item(&make_item("b1:implement", "b1", "ws-other", QueuePhase::Pending));

    let spec_status = db.gather_spec_status("ws-main").unwrap();

    assert_eq!(spec_status.item_count, 3);
    assert_eq!(count_of(&spec_status.phase_counts, "pending"), Some(1));
    assert_eq!(count_of(&spec_status.phase_counts, "running"), Some(1));
    assert_eq!(count_of(&spec_status.phase_counts, "done"), Some(1));
}

#[test]
fn gather_spec_status_phase_counts_sorted_alphabetically() {
    let mut db = test_db();
    db.add_workspace("ws-sort", "/sort/ws.yaml");
    db.insert_item(&make_item("s1:impl", "s1", "ws-sort", QueuePhase::Running));
    db.insert_item(&make_item("s2:impl", "s2", "ws-sort", QueuePhase::Done));
    db.insert_item(&make_item("s3:impl", "s3", "ws-sort", QueuePhase::Failed));

    let spec_status = db.gather_spec_status("ws-sort").unwrap();

    let phases: Vec<&str> =
        spec_status.phase_counts.iter().map(|pc| pc.phase.as_str()).collect();
    let mut sorted = phases.clone();
    sorted.sort_unstable();
    assert_eq!(phases, sorted, "phase_counts must be sorted alphabetically");
}

#[test]
fn gather_spec_status_excludes_other_workspace_items() {
    let mut db = test_db();
    db.add_workspace("ws-a", "/a.yaml");
    db.add_workspace("ws-b", "/b.yaml");
    db.insert_item(&make_item("ia:impl", "ia", "ws-a", QueuePhase::Pending));
    db.insert_item(&make_item("ib:impl", "ib", "ws-b", QueuePhase::Running));

    let spec_status = db.gather_spec_status("ws-a").unwrap();

    assert_eq!(spec_status.item_count, 1);
    assert_eq!(spec_status.phase_counts.len(), 1);
    assert_eq!(spec_status.phase_counts[0].phase, "pending");
}

#[test]
fn gather_spec_status_no_token_usage_returns_none() {
    let mut db = test_db();
    db.add_workspace("ws-empty", "/e.yaml");

    let spec_status = db.gather_spec_status("ws-empty").unwrap();
    assert!(spec_status.token_usage.is_none());
}

#[test]
fn gather_spec_status_with_token_usage() {
    let mut db = test_db();
    db.add_workspace("ws-tok", "/tok.yaml");
    for model in ["sonnet", "haiku"] {
        let row =
            TokenUsageRow { model: model.to_string(), input_tokens: 1_000, output_tokens: 500 };
        db.usage.push(("ws-tok".to_string(), row));
    }

    let spec_status = db.gather_spec_status("ws-tok").unwrap();
    let tu = spec_status.token_usage.as_ref().unwrap();

    assert_eq!(tu.total_input, 2_000);
    assert_eq!(tu.total_output, 1_000);
    assert_eq!(tu.total_tokens, 3_000);
    assert_eq!(tu.executions, 2);
    assert_eq!(tu.by_model.len(), 2);
    // by_model should be sorted by total_tokens descending (equal here)
    for m in &tu.by_model {
        assert_eq!(m.total_tokens, 1_500);
        assert_eq!(m.executions, 1);
    }
}

#[test]
fn usage_of_one_model_is_added_up() {
    let mut db = test_db();
    db.add_workspace("ws", "/w.yaml");
    for (model, input) in [("haiku", 10), ("sonnet", 100), ("haiku", 20)] {
        let row = TokenUsageRow { model: model.to_string(), input_tokens: input, output_tokens: 1 };
        db.usage.push(("ws".to_string(), row));
    }
    let status = db.gather_spec_status("ws").unwrap();
    let tu = status.token_usage.unwrap();
    assert_eq!(tu.executions, 3);
    let rows: Vec<(&str, u64, u64, u64, u64)> = tu
        .by_model
        .iter()
        .map(|m| {
            (m.model.as_str(), m.input_tokens, m.output_tokens, m.total_tokens, m.executions)
        })
        .collect();
    assert_eq!(rows, vec![("sonnet", 100, 1, 101, 1), ("haiku", 30, 2, 32, 2)]);
}

#[test]
fn unreadable_usage_is_no_usage() {
    let row = WorkspaceRow {
        name: "ws".to_string(),
        config_path: "/w.yaml".to_string(),
        created_at: String::new(),
    };
    let status = gather_spec_status(Ok(row), &Vec::new(), &None).unwrap();
    assert!(status.token_usage.is_none());
}

// ---- rich format helpers ----

#[test]
fn to_crossterm_color_maps_known_phases() {
    assert_eq!(to_crossterm_color(Color::Gray), Color::Gray);
    assert_eq!(to_crossterm_color(Color::Red), Color::Red);
    assert_eq!(to_crossterm_color(Color::Green), Color::Green);
    assert_eq!(to_crossterm_color(Color::Yellow), Color::Yellow);
}

#[test]
fn to_crossterm_color_unknown_falls_back_to_white() {
    assert_eq!(to_crossterm_color(Color::Magenta), Color::White);
}

#[test]
fn print_status_rich_does_not_panic() {
    let status = SystemStatus {
        total_items: 5,
        hitl_count: 0,
        phase_counts: vec![phase("pending", 2), phase("running", 1), phase("done", 2)],
        running_items: vec![ItemSummary {
            work_id: "w1:impl".to_string(),
            workspace: "ws-a".to_string(),
            state: "running".to_string(),
            phase: "running".to_string(),
            updated_at: "2026-03-25T00:00:00Z".to_string(),
        }],
        recent_events: vec![EventSummary {
            item_id: "w1:impl".to_string(),
            from_state: "pending".to_string(),
            to_state: "running".to_string(),
            event_type: "phase_change".to_string(),
            timestamp: "2026-03-25T00:00:00Z".to_string(),
        }],
        runtime_stats: None,
        workspace_summary: vec![],
        error_items: vec![],
        hitl_items: vec![],
    };
    let text = rich_status(&status, None);
    assert!(text.contains("  Running Items\n    ● w1:impl (ws-a)\n"));
    assert!(text.contains("    pending → running  w1:impl [phase_change]\n"));
    // A terminal of 80 columns leaves 74 for the box and 42 for a bar.
    assert!(text.contains(&format!(
        "  │ {:<14} │ {:<8} │ [{}{}] {:>3}%\n",
        "pending",
        2,
        "#".repeat(16),
        ".".repeat(26),
        40
    )));
}

// ---- print_rich_spec_status output ----

fn model_row(model: &str, input: u64, output: u64, executions: u64) -> ModelTokenSummary {
    ModelTokenSummary {
        model: model.to_string(),
        input_tokens: input,
        output_tokens: output,
        total_tokens: input + output,
        executions,
    }
}

#[test]
fn print_spec_status_rich_does_not_panic() {
    let status = SpecStatus {
        workspace: "test-ws".to_string(),
        config_path: "/test.yaml".to_string(),
        item_count: 5,
        phase_counts: vec![phase("done", 3), phase("running", 2)],
        token_usage: Some(TokenUsageSummary {
            total_input: 10_000,
            total_output: 5_000,
            total_tokens: 15_000,
            executions: 10,
            by_model: vec![model_row("sonnet", 10_000, 5_000, 10)],
        }),
    };
    assert!(matches!(render_spec(&status, "rich"), Rendered::Rich(_)));
    let text = rich_spec_status(&status);
    assert!(text.contains("  Total:  15,000 (in: 10,000 / out: 5,000)\n"));
    assert!(text.contains(&format!(
        "  Overall: 3/5 [{}{}] {:>3}%\n",
        "#".repeat(31),
        ".".repeat(21),
        60
    )));
}

#[test]
fn print_spec_status_rich_no_token_usage() {
    let status = SpecStatus {
        workspace: "ws".to_string(),
        config_path: "/ws.yaml".to_string(),
        item_count: 0,
        phase_counts: vec![],
        token_usage: None,
    };
    assert!(matches!(render_spec(&status, "rich"), Rendered::Rich(_)));
    assert!(!rich_spec_status(&status).contains("Token Usage"));
}

#[test]
fn print_spec_status_rich_multi_model_aggregation() {
    let status = SpecStatus {
        workspace: "ws-multi".to_string(),
        config_path: "/multi.yaml".to_string(),
        item_count: 3,
        phase_counts: vec![phase("running", 3)],
        token_usage: Some(TokenUsageSummary {
            total_input: 15_000,
            total_output: 7_500,
            total_tokens: 22_500,
            executions: 20,
            by_model: vec![
                model_row("sonnet", 10_000, 5_000, 12),
                model_row("haiku", 5_000, 2_500, 8),
            ],
        }),
    };
    assert!(matches!(render_spec(&status, "rich"), Rendered::Rich(_)));
    // Exercises the aggregation totals row.
    let text = rich_spec_status(&status);
    assert!(text.ends_with(&format!(
        "  Total {:>10} {:>10} {:>10} {:>5}\n",
        "15,000", "7,500", "22,500", 20
    )));
}

// ---- render_progress_bar ----

#[test]
fn render_progress_bar_zero_percent() {
    let bar = render_progress_bar(0, 10);
    assert_eq!(bar, "[..........]");
}

#[test]
fn render_progress_bar_fifty_percent() {
    let bar = render_progress_bar(50, 10);
    assert_eq!(bar, "[#####.....]");
}

#[test]
fn render_progress_bar_hundred_percent() {
    let bar = render_progress_bar(100, 10);
    assert_eq!(bar, "[##########]");
}

#[test]
fn render_progress_bar_over_hundred_clamped() {
    let bar = render_progress_bar(150, 10);
    assert_eq!(bar, "[##########]");
}

// ---- fmt_num ----

#[test]
fn fmt_num_small() {
    assert_eq!(fmt_num(0), "0");
    assert_eq!(fmt_num(999), "999");
}

#[test]
fn fmt_num_thousands() {
    assert_eq!(fmt_num(1_000), "1,000");
    assert_eq!(fmt_num(1_234_567), "1,234,567");
}

#[test]
fn print_status_rich_format_dispatches_correctly() {
    let status = empty_system_status();
    assert!(matches!(render(&status, "rich"), Rendered::Rich(_)));
}

// ---- formatter test helpers ----

fn sample_system_status() -> SystemStatus {
    SystemStatus {
        total_items: 3,
        hitl_count: 0,
        phase_counts: vec![phase("pending", 1), phase("running", 2)],
        running_items: vec![ItemSummary {
            work_id: "w1:implement".to_string(),
            workspace: "ws-a".to_string(),
            state: "active".to_string(),
            phase: "running".to_string(),
            updated_at: "2026-01-01T00:00:00Z".to_string(),
        }],
        recent_events: vec![EventSummary {
            item_id: "w1:implement".to_string(),
            from_state: "pending".to_string(),
            to_state: "running".to_string(),
            event_type: "phase_change".to_string(),
            timestamp: "2026-01-01T00:00:00Z".to_string(),
        }],
        runtime_stats: Some(sample_stats()),
        workspace_summary: vec![WorkspaceSummary {
            workspace: "ws-a".to_string(),
            total: 3,
            phase_counts: vec![phase("pending", 1), phase("running", 2)],
        }],
        error_items: vec![],
        hitl_items: vec![],
    }
}

fn empty_system_status() -> SystemStatus {
    SystemStatus {
        total_items: 0,
        hitl_count: 0,
        phase_counts: vec![],
        running_items: vec![],
        recent_events: vec![],
        runtime_stats: None,
        workspace_summary: vec![],
        error_items: vec![],
        hitl_items: vec![],
    }
}

fn sample_spec_status() -> SpecStatus {
    SpecStatus {
        workspace: "ws-test".to_string(),
        config_path: "/path/to/config.yaml".to_string(),
        item_count: 5,
        phase_counts: vec![phase("done", 3), phase("pending", 2)],
        token_usage: None,
    }
}

fn empty_spec_status() -> SpecStatus {
    SpecStatus {
        workspace: "ws-empty".to_string(),
        config_path: "/empty/config.yaml".to_string(),
        item_count: 0,
        phase_counts: vec![],
        token_usage: None,
    }
}

// ---- print_status (format dispatcher) ----

#[test]
fn print_status_json_format_returns_ok() {
    assert!(matches!(render(&sample_system_status(), "json"), Rendered::Json));
}

#[test]
fn print_status_text_format_returns_ok() {
    assert!(matches!(render(&sample_system_status(), "text"), Rendered::Text(_)));
}

#[test]
fn print_status_rich_format_returns_ok() {
    let Rendered::Rich(page) = render(&sample_system_status(), "rich") else {
        panic!("expected styled text");
    };
    // The runtime statistics follow the status.
    assert!(page_text(&page).contains("  Runtime Stats (last 24h)\n"));
}

#[test]
fn print_status_unknown_format_falls_back_to_text() {
    // Unknown format should not error — falls back to text.
    assert!(matches!(render(&sample_system_status(), "unknown"), Rendered::Text(_)));
}

// ---- print_spec_status (format dispatcher) ----

#[test]
fn print_spec_status_json_format_returns_ok() {
    assert!(matches!(render_spec(&sample_spec_status(), "json"), Rendered::Json));
}

#[test]
fn print_spec_status_text_format_returns_ok() {
    assert!(matches!(render_spec(&sample_spec_status(), "text"), Rendered::Text(_)));
}

#[test]
fn print_spec_status_rich_format_returns_ok() {
    assert!(matches!(render_spec(&sample_spec_status(), "rich"), Rendered::Rich(_)));
}

#[test]
fn print_spec_status_unknown_format_falls_back_to_text() {
    assert!(matches!(render_spec(&sample_spec_status(), "unknown"), Rendered::Text(_)));
}

// ---- print_text_status ----

#[test]
fn print_text_status_with_data_does_not_panic() {
    assert_eq!(
        print_text_status(&sample_system_status()),
        "Belt System Status\n==================\nTotal items: 3\nHITL: 0\n\nPhase breakdown:\n  pending      1\n  running      2\n\nRunning items:\n  w1:implement (ws-a/active)\n\nRecent transitions:\n  pending -> running [phase_change] w1:implement (2026-01-01T00:00:00Z)\n\n  Tokens (24h): 1500 total, 7 executions\n"
    );
}

#[test]
fn print_text_status_empty_does_not_panic() {
    assert_eq!(
        print_text_status(&empty_system_status()),
        "Belt System Status\n==================\nTotal items: 0\nHITL: 0\n\nNo items currently running.\n\n"
    );
}

#[test]
fn text_status_warns_of_waiting_items() {
    let mut status = empty_system_status();
    status.hitl_count = 2;
    let text = print_text_status(&status);
    assert!(text.contains("\u{1b}[31mHITL: 2\u{1b}[0m\n"));
    assert!(text.ends_with(
        "\n\u{1b}[33m\u{26a0}\u{fe0f} 2 items require human intervention. Run 'belt claw' to review.\u{1b}[0m\n"
    ));
}

// ---- print_rich_status ----

#[test]
fn print_rich_status_with_data_does_not_panic() {
    let text = rich_status(&sample_system_status(), None);
    assert!(text.contains("│ ws-a           │ 3     │ pending:1, running:2\n"));
}

#[test]
fn print_rich_status_empty_does_not_panic() {
    let text = rich_status(&empty_system_status(), None);
    let line = "─".repeat(74);
    assert_eq!(
        text,
        format!(
            "┌{line}┐\n│ {:^72} │\n├{line}┤\n│ Total items: 0{:58} │\n└{line}┘\n",
            "Belt System Status", ""
        )
    );
}

#[test]
fn print_rich_status_with_errors_and_hitl_does_not_panic() {
    let item = |id: &str, phase: &str, time: &str| ItemSummary {
        work_id: id.to_string(),
        workspace: "ws-err".to_string(),
        state: phase.to_string(),
        phase: phase.to_string(),
        updated_at: time.to_string(),
    };
    let counts = || vec![phase("failed", 2), phase("hitl", 1), phase("running", 1)];
    let status = SystemStatus {
        total_items: 4,
        hitl_count: 1,
        phase_counts: counts(),
        running_items: vec![],
        recent_events: vec![],
        runtime_stats: None,
        workspace_summary: vec![WorkspaceSummary {
            workspace: "ws-err".to_string(),
            total: 4,
            phase_counts: counts(),
        }],
        error_items: vec![
            item("err1:impl", "failed", "2026-03-25T10:00:00Z"),
            item("err2:impl", "failed", "2026-03-25T11:00:00Z"),
        ],
        hitl_items: vec![item("hitl1:impl", "hitl", "2026-03-25T12:00:00Z")],
    };
    // Exercises workspace summary, error items, and HITL items branches.
    let text = rich_status(&status, None);
    assert!(text.contains("  Recent Errors (2 items)\n    ✖ err1:impl (ws-err) 2026-03-25T10:00:00Z\n"));
    assert!(text.contains("  HITL Pending (1 items)\n    ⚠ hitl1:impl (ws-err) 2026-03-25T12:00:00Z\n"));
    assert!(text.ends_with("\n  1 items require human intervention. Run 'belt claw' to review.\n"));
}

#[test]
fn long_phase_lists_are_cut() {
    let mut status = empty_system_status();
    status.workspace_summary = vec![WorkspaceSummary {
        workspace: "ws".to_string(),
        total: 6,
        phase_counts: vec![
            phase("completed", 1),
            phase("done", 1),
            phase("failed", 1),
            phase("pending", 1),
            phase("running", 1),
            phase("skipped", 1),
        ],
    }];
    // 74 columns leave 48 for the phases; the last one holds the ellipsis.
    let text = rich_status(&status, None);
    assert!(text.contains("│ completed:1, done:1, failed:1, pending:1, runni…\n"));
}

#[test]
fn print_rich_status_with_daemon_running_does_not_panic() {
    let text = rich_status(&sample_system_status(), Some(true));
    assert!(text.contains("│ Daemon: ● running"));
}

#[test]
fn print_rich_status_with_daemon_stopped_does_not_panic() {
    let text = rich_status(&empty_system_status(), Some(false));
    assert!(text.contains("│ Daemon: ○ stopped"));
}

#[test]
fn text_format_says_whether_the_daemon_runs() {
    assert_eq!(cmd_status("text", true), "Daemon: running\n");
    assert_eq!(cmd_status("text", false), "Daemon: stopped\n");
    assert_eq!(cmd_status("json", true), "");
    assert_eq!(cmd_status("rich", true), "");
}

// ---- terminal width helpers ----

#[test]
fn box_content_width_within_bounds() {
    for columns in [0, 5, 44, 45, 80, 106, 107, 500, usize::MAX] {
        let w = box_content_width(columns);
        assert!(w >= MIN_BOX_WIDTH, "box width {w} below minimum {}", MIN_BOX_WIDTH);
        assert!(w <= MAX_BOX_WIDTH, "box width {w} above maximum {}", MAX_BOX_WIDTH);
    }
    assert_eq!(box_content_width(80), 74);
}

// ---- print_rich_runtime ----

#[test]
fn print_rich_runtime_does_not_panic() {
    let text = page_text(&print_rich_runtime(&sample_stats(), 80));
    assert_eq!(
        text,
        format!(
            "\n  Runtime Stats (last 24h)\n  {}\n  Total tokens:  1,500 (in: 1,000 / out: 500)\n  Executions:    7\n  Avg duration:  250ms\n\n",
            "─".repeat(60)
        )
    );
}

#[test]
fn print_rich_runtime_with_models_does_not_panic() {
    let mut stats = sample_stats();
    stats.by_model = vec![
        ModelStats {
            model: "haiku".to_string(),
            input_tokens: 200,
            output_tokens: 100,
            total_tokens: 300,
            executions: 2,
            avg_duration: None,
        },
        ModelStats {
            model: "sonnet".to_string(),
            input_tokens: 800,
            output_tokens: 400,
            total_tokens: 1_200,
            executions: 5,
            avg_duration: Some("150".to_string()),
        },
    ];
    let text = page_text(&print_rich_runtime(&stats, 80));
    let rows = format!(
        "  sonnet {:>10} {:>10} {:>10} {:>6} {:>10}\n  haiku {:>10} {:>10} {:>10} {:>6} {:>10}\n",
        "800", "400", "1,200", 5, "150", "200", "100", "300", 2, "-"
    );
    assert!(text.contains(&rows));
}

// ---- print_text_spec_status ----

#[test]
fn print_text_spec_status_with_data_does_not_panic() {
    assert_eq!(
        print_text_spec_status(&sample_spec_status()),
        "Workspace: ws-test\nConfig:    /path/to/config.yaml\nItems:     5\n\nPhase breakdown:\n  done         3\n  pending      2\n"
    );
}

#[test]
fn print_text_spec_status_empty_does_not_panic() {
    let text = print_text_spec_status(&empty_spec_status());
    assert!(text.ends_with("No items in this workspace.\n"));
}

// ---- print_rich_spec_status ----

#[test]
fn print_rich_spec_status_with_data_does_not_panic() {
    let text = rich_spec_status(&sample_spec_status());
    assert!(text.contains("│ Workspace: ws-test"));
}

#[test]
fn print_rich_spec_status_empty_does_not_panic() {
    let text = rich_spec_status(&empty_spec_status());
    let line = "─".repeat(74);
    assert_eq!(
        text,
        format!(
            "┌{line}┐\n│ Workspace: {:<61} │\n│ Config:    {:<61} │\n│ Items:     {:<61} │\n└{line}┘\n",
            "ws-empty", "/empty/config.yaml", 0
        )
    );
}

// ---- WorkspaceSummary ----

#[test]
fn workspace_summary_empty_phase_counts() {
    let ws =
        WorkspaceSummary { workspace: "empty-ws".to_string(), total: 0, phase_counts: vec![] };
    assert_eq!(ws.workspace, "empty-ws");
    assert_eq!(ws.total, 0);
    assert!(ws.phase_counts.is_empty());
}

// ---- per-workspace phase breakdown (gather_status) ----

#[test]
fn gather_status_workspace_summary_multiple_workspaces() {
    let mut db = test_db();
    db.add_workspace("ws-alpha", "/alpha.yaml");
    db.add_workspace("ws-beta", "/beta.yaml");

    // ws-alpha: 2 pending, 1 running
    db.insert_item(&make_item("a1:implement", "a1", "ws-alpha", QueuePhase::Pending));
    db.insert_item(&make_item("a2:implement", "a2", "ws-alpha", QueuePhase::Pending));
    db.insert_item(&make_item("a3:implement", "a3", "ws-alpha", QueuePhase::Running));
    // ws-beta: 1 done, 1 failed
    db.insert_item(&make_item("b1:implement", "b1", "ws-beta", QueuePhase::Done));
    db.insert_item(&make_item("b2:implement", "b2", "ws-beta", QueuePhase::Failed));

    let status = db.gather_status();

    assert_eq!(status.workspace_summary.len(), 2);

    let alpha = status
        .workspace_summary
        .iter()
        .find(|ws| ws.workspace == "ws-alpha")
        .expect("ws-alpha should be present");
    assert_eq!(alpha.total, 3);
    assert_eq!(count_of(&alpha.phase_counts, "pending"), Some(2));
    assert_eq!(count_of(&alpha.phase_counts, "running"), Some(1));

    let beta = status
        .workspace_summary
        .iter()
        .find(|ws| ws.workspace == "ws-beta")
        .expect("ws-beta should be present");
    assert_eq!(beta.total, 2);
    assert_eq!(count_of(&beta.phase_counts, "done"), Some(1));
    assert_eq!(count_of(&beta.phase_counts, "failed"), Some(1));
}

#[test]
fn gather_status_workspace_summary_skips_empty_workspaces() {
    let mut db = test_db();
    db.add_workspace("ws-active", "/active.yaml");
    db.add_workspace("ws-empty", "/empty.yaml");
    db.insert_item(&make_item("x1:implement", "x1", "ws-active", QueuePhase::Pending));

    let status = db.gather_status();

    assert_eq!(status.workspace_summary.len(), 1);
    assert_eq!(status.workspace_summary[0].workspace, "ws-active");
}

#[test]
fn gather_status_workspace_summary_phase_counts_sorted() {
    let mut db = test_db();
    db.add_workspace("ws-sort", "/sort.yaml");

    // Insert items in phases that would be out of alphabetical order
    db.insert_item(&make_item("s1:impl", "s1", "ws-sort", QueuePhase::Running));
    db.insert_item(&make_item("s2:impl", "s2", "ws-sort", QueuePhase::Done));
    db.insert_item(&make_item("s3:impl", "s3", "ws-sort", QueuePhase::Failed));
    db.insert_item(&make_item("s4:impl", "s4", "ws-sort", QueuePhase::Pending));

    let status = db.gather_status();

    assert_eq!(status.workspace_summary.len(), 1);
    let ws = &status.workspace_summary[0];
    let phases: Vec<&str> = ws.phase_counts.iter().map(|pc| pc.phase.as_str()).collect();
    let mut sorted = phases.clone();
    sorted.sort_unstable();
    assert_eq!(phases, sorted, "workspace phase_counts must be sorted alphabetically");
}

// ---- error_items detail verification ----

#[test]
fn gather_status_error_items_fields_verified() {
    let mut db = test_db();
    db.add_workspace("ws-err", "/err.yaml");
    db.insert_item(&make_item("fail1:implement", "fail1", "ws-err", QueuePhase::Failed));
    db.insert_item(&make_item("fail2:implement", "fail2", "ws-err", QueuePhase::Failed));
    db.insert_item(&make_item("ok1:implement", "ok1", "ws-err", QueuePhase::Done));

    let status = db.gather_status();

    assert_eq!(status.error_items.len(), 2);
    for item in &status.error_items {
        assert_eq!(item.phase, "failed");
        assert_eq!(item.workspace, "ws-err");
        assert!(item.work_id.starts_with("fail"), "unexpected work_id: {}", item.work_id);
        assert!(!item.updated_at.is_empty());
    }
}

#[test]
fn gather_status_error_items_empty_when_no_failures() {
    let mut db = test_db();
    db.add_workspace("ws-ok", "/ok.yaml");
    db.insert_item(&make_item("p1:implement", "p1", "ws-ok", QueuePhase::Pending));
    db.insert_item(&make_item("d1:implement", "d1", "ws-ok", QueuePhase::Done));

    let status = db.gather_status();

    assert!(status.error_items.is_empty());
}

#[test]
fn gather_status_error_items_across_workspaces() {
    let mut db = test_db();
    db.add_workspace("ws-a", "/a.yaml");
    db.add_workspace("ws-b", "/b.yaml");
    db.insert_item(&make_item("fa:implement", "fa", "ws-a", QueuePhase::Failed));
    db.insert_item(&make_item("fb:implement", "fb", "ws-b", QueuePhase::Failed));

    let status = db.gather_status();

    assert_eq!(status.error_items.len(), 2);
    let workspaces: Vec<&str> = status.error_items.iter().map(|i| i.workspace.as_str()).collect();
    assert!(workspaces.contains(&"ws-a"));
    assert!(workspaces.contains(&"ws-b"));
}

// ---- hitl_items detail verification ----

#[test]
fn gather_status_hitl_items_fields_verified() {
    let mut db = test_db();
    db.add_workspace("ws-hitl", "/hitl.yaml");
    db.insert_item(&make_item("hitl1:implement", "hitl1", "ws-hitl", QueuePhase::Hitl));
    db.insert_item(&make_item("hitl2:implement", "hitl2", "ws-hitl", QueuePhase::Hitl));
    db.insert_item(&make_item("ok1:implement", "ok1", "ws-hitl", QueuePhase::Running));

    let status = db.gather_status();

    assert_eq!(status.hitl_items.len(), 2);
    assert_eq!(status.hitl_count, 2);
    for item in &status.hitl_items {
        assert_eq!(item.phase, "hitl");
        assert_eq!(item.workspace, "ws-hitl");
        assert!(item.work_id.starts_with("hitl"), "unexpected work_id: {}", item.work_id);
        assert!(!item.updated_at.is_empty());
    }
}

#[test]
fn gather_status_hitl_items_empty_when_no_hitl() {
    let mut db = test_db();
    db.add_workspace("ws-clean", "/clean.yaml");
    db.insert_item(&make_item("r1:implement", "r1", "ws-clean", QueuePhase::Running));
    db.insert_item(&make_item("d1:implement", "d1", "ws-clean", QueuePhase::Done));

    let status = db.gather_status();

    assert!(status.hitl_items.is_empty());
    assert_eq!(status.hitl_count, 0);
}

#[test]
fn gather_status_hitl_items_across_workspaces() {
    let mut db = test_db();
    db.add_workspace("ws-a", "/a.yaml");
    db.add_workspace("ws-b", "/b.yaml");
    db.insert_item(&make_item("ha:implement", "ha", "ws-a", QueuePhase::Hitl));
    db.insert_item(&make_item("hb:implement", "hb", "ws-b", QueuePhase::Hitl));

    let status = db.gather_status();

    assert_eq!(status.hitl_items.len(), 2);
    assert_eq!(status.hitl_count, 2);
    let workspaces: Vec<&str> = status.hitl_items.iter().map(|i| i.workspace.as_str()).collect();
    assert!(workspaces.contains(&"ws-a"));
    assert!(workspaces.contains(&"ws-b"));
}

// ---- combined error + hitl + workspace breakdown ----

#[test]
fn gather_status_mixed_error_hitl_workspace_breakdown() {
    let mut db = test_db();
    db.add_workspace("ws-mix", "/mix.yaml");
    db.insert_item(&make_item("p1:implement", "p1", "ws-mix", QueuePhase::Pending));
    db.insert_item(&make_item("r1:implement", "r1", "ws-mix", QueuePhase::Running));
    db.insert_item(&make_item("f1:implement", "f1", "ws-mix", QueuePhase::Failed));
    db.insert_item(&make_item("h1:implement", "h1", "ws-mix", QueuePhase::Hitl));
    db.insert_item(&make_item("d1:implement", "d1", "ws-mix", QueuePhase::Done));

    let status = db.gather_status();

    assert_eq!(status.total_items, 5);
    assert_eq!(status.error_items.len(), 1);
    assert_eq!(status.error_items[0].work_id, "f1:implement");
    assert_eq!(status.hitl_items.len(), 1);
    assert_eq!(status.hitl_items[0].work_id, "h1:implement");
    assert_eq!(status.hitl_count, 1);

    // Workspace summary should contain all 5 items
    assert_eq!(status.workspace_summary.len(), 1);
    let ws = &status.workspace_summary[0];
    assert_eq!(ws.workspace, "ws-mix");
    assert_eq!(ws.total, 5);
    for name in ["pending", "running", "failed", "hitl", "done"] {
        assert_eq!(count_of(&ws.phase_counts, name), Some(1));
    }
}
