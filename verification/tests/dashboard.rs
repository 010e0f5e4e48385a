use belt_cli::dashboard::items::collect_recent_items;
use belt_cli::dashboard::items::render_board_column;
use belt_cli::dashboard::items::render_per_workspace_tab;
use belt_cli::dashboard::items::render_phase_summary;
use belt_cli::dashboard::items::render_recent_items_stateful;
use belt_cli::dashboard::items::render_tab_bar;
use belt_cli::dashboard::items::truncate_str;
use belt_cli::dashboard::keys::DashboardData;
use belt_cli::dashboard::keys::Key;
use belt_cli::dashboard::layout::centered_rect;
use belt_cli::dashboard::layout::popup_shares;
use belt_cli::dashboard::layout::Area;
use belt_cli::dashboard::overlay::build_detail_lines;
use belt_cli::dashboard::overlay::format_transition_time;
use belt_cli::dashboard::overlay::render_help_overlay;
use belt_cli::dashboard::overlay::render_item_detail_overlay;
use belt_cli::dashboard::overlay::StateChange;
use belt_cli::dashboard::palette::phase_color;
use belt_cli::dashboard::palette::spec_status_color;
use belt_cli::dashboard::panel::LinesPanel;
use belt_cli::dashboard::panel::TablePanel;
use belt_cli::dashboard::runtime::render_runtime_panel;
use belt_cli::dashboard::runtime::render_runtime_panel_tui;
use belt_cli::dashboard::scripts::Rate;
use belt_cli::dashboard::scripts::RateBand;
use belt_cli::dashboard::scripts::ScriptRun;
use belt_cli::dashboard::scripts::ScriptStats;
use belt_cli::dashboard::sources::collect_datasource_status;
use belt_cli::dashboard::sources::render_datasource_tab;
use belt_cli::dashboard::sources::DataSourceConnectionStatus;
use belt_cli::dashboard::sources::DataSourceStatusEntry;
use belt_cli::dashboard::sources::SourceInfo;
use belt_cli::dashboard::sources::WorkspaceSources;
use belt_cli::dashboard::spec_tab::count_spec_statuses;
use belt_cli::dashboard::spec_tab::render_spec_tab;
use belt_cli::dashboard::spec_tab::render_workspace_spec_progress;
use belt_cli::dashboard::state::ActivePanel;
use belt_cli::dashboard::state::DashboardState;
use belt_cli::dashboard::state::DashboardTab;
use belt_cli::dashboard::state::TabState;
use belt_cli::dashboard::state::BOARD_COLUMNS;
use belt_cli::dashboard::tabs::items_in_phase;
use belt_cli::dashboard::tabs::render_board_tab;
use belt_cli::dashboard::tabs::render_dashboard_tab;
use belt_cli::dashboard::tabs::render_scripts_tab;
use belt_cli::numbers::format_number;
use belt_cli::queue::QueueItem;
use belt_cli::queue::QueuePhase;
use belt_cli::specs::Spec;
use belt_cli::specs::SpecState;
use belt_cli::status::render::order_models;
use belt_cli::status::ModelStats;
use belt_cli::status::PhaseCount;
use belt_cli::status::RuntimeStats;
use belt_cli::status::WorkspaceRow;
use belt_cli::style::Color;
use belt_cli::style::Page;

fn make_item_with_phase(work_id: &str, phase: QueuePhase, updated_at: &str) -> QueueItem {
    QueueItem {
        work_id: work_id.to_string(),
        source_id: "src".to_string(),
        workspace_id: "ws".to_string(),
        state: "s".to_string(),
        phase,
        title: None,
        created_at: String::new(),
        updated_at: updated_at.to_string(),
        hitl_created_at: None,
        hitl_reason: None,
        hitl_reason_name: None,
        hitl_respondent: None,
        hitl_notes: None,
        hitl_timeout_at: None,
        hitl_terminal_action: None,
        replan_count: 0,
    }
}

fn make_spec(id: &str, status: SpecState) -> Spec {
    Spec {
        id: id.to_string(),
        workspace_id: "ws".to_string(),
        name: "n1".to_string(),
        content: "c".to_string(),
        status,
        priority: None,
        labels: None,
        depends_on: None,
        entry_point: None,
        decomposed_issues: None,
        created_at: String::new(),
        updated_at: "u".to_string(),
    }
}

fn page_text(page: &Page) -> String {
    page.spans.iter().map(|s| s.text.as_str()).collect()
}

fn panel_text(panel: &LinesPanel) -> String {
    let lines: Vec<String> = panel.lines.iter().map(page_text).collect();
    format!("{}|{}", panel.title, lines.join("/"))
}

fn row_texts(table: &TablePanel) -> Vec<String> {
    table
        .rows
        .iter()
        .map(|r| {
            let cells: Vec<&str> = r.cells.spans.iter().map(|s| s.text.as_str()).collect();
            cells.join("|")
        })
        .collect()
}

/// Collects the recent items of a queue.
fn recent_of(items: Vec<QueueItem>) -> Vec<QueueItem> {
    let pick = |p: QueuePhase| items_in_phase(items.clone(), p);
    collect_recent_items(pick(QueuePhase::Done), pick(QueuePhase::Failed), pick(QueuePhase::Completed))
}

fn model(name: &str, input: u64, output: u64, runs: u64, avg: Option<&str>) -> ModelStats {
    ModelStats {
        model: name.to_string(),
        input_tokens: input,
        output_tokens: output,
        total_tokens: input + output,
        executions: runs,
        avg_duration: avg.map(|a| a.to_string()),
    }
}

#[test]
fn format_number_small() {
    assert_eq!(format_number(0), "0");
    assert_eq!(format_number(999), "999");
}

#[test]
fn format_number_thousands() {
    assert_eq!(format_number(1_000), "1,000");
    assert_eq!(format_number(1_234_567), "1,234,567");
}

#[test]
fn format_number_millions() {
    assert_eq!(format_number(10_000_000), "10,000,000");
}

#[test]
fn format_number_exact_boundary_1000() {
    // 1_000 is the first value that requires a comma separator.
    assert_eq!(format_number(1_000), "1,000");
}

#[test]
fn format_number_just_below_boundary() {
    assert_eq!(format_number(999), "999");
}

#[test]
fn format_number_exactly_10000() {
    assert_eq!(format_number(10_000), "10,000");
}

#[test]
fn format_number_exactly_100000() {
    assert_eq!(format_number(100_000), "100,000");
}

#[test]
fn format_number_u64_large_value() {
    assert_eq!(format_number(1_000_000_000), "1,000,000,000");
}

#[test]
fn phase_color_pending() {
    assert_eq!(phase_color("pending"), Color::Gray);
}

#[test]
fn phase_color_ready() {
    assert_eq!(phase_color("ready"), Color::Blue);
}

#[test]
fn phase_color_running() {
    assert_eq!(phase_color("running"), Color::Green);
}

#[test]
fn phase_color_completed() {
    assert_eq!(phase_color("completed"), Color::Cyan);
}

#[test]
fn phase_color_done() {
    assert_eq!(phase_color("done"), Color::White);
}

#[test]
fn phase_color_hitl() {
    assert_eq!(phase_color("hitl"), Color::Yellow);
}

#[test]
fn phase_color_failed() {
    assert_eq!(phase_color("failed"), Color::Red);
}

#[test]
fn phase_color_skipped() {
    assert_eq!(phase_color("skipped"), Color::DarkGray);
}

#[test]
fn phase_color_unknown_returns_white() {
    assert_eq!(phase_color("unknown"), Color::White);
    assert_eq!(phase_color(""), Color::White);
    assert_eq!(phase_color("PENDING"), Color::White);
}

#[test]
fn format_transition_time_rfc3339_utc() {
    assert_eq!(
        format_transition_time("2026-03-25T10:05:00Z"),
        "2026-03-25 10:05:00"
    );
}

#[test]
fn format_transition_time_rfc3339_offset() {
    assert_eq!(
        format_transition_time("2026-03-25T10:05:00+09:00"),
        "2026-03-25 10:05:00"
    );
}

#[test]
fn format_transition_time_no_t_separator() {
    let ts = "2026-03-25 10:05:00";
    assert_eq!(format_transition_time(ts), ts);
}

#[test]
fn active_panel_default_is_running() {
    let state = DashboardState::new();
    let ts = state.current_tab_state();
    assert_eq!(ts.active_panel, Some(ActivePanel::Running));
    assert_eq!(ts.selected_index, 0);
    assert!(state.overlay_item.is_none());
}

#[test]
fn dashboard_state_defaults() {
    let state = DashboardState::new();
    assert_eq!(state.active_tab, DashboardTab::Dashboard);
    assert!(!state.show_help);
    assert_eq!(state.selected_workspace, 0);
    assert_eq!(state.board_selected_col, 0);
    assert_eq!(state.board_selected_row, 0);
}

#[test]
fn tab_cycle_forward() {
    assert_eq!(DashboardTab::Dashboard.next(), DashboardTab::PerWorkspace);
    assert_eq!(DashboardTab::PerWorkspace.next(), DashboardTab::Spec);
    assert_eq!(DashboardTab::Spec.next(), DashboardTab::Board);
    assert_eq!(DashboardTab::Board.next(), DashboardTab::DataSource);
    assert_eq!(DashboardTab::DataSource.next(), DashboardTab::Scripts);
    assert_eq!(DashboardTab::Scripts.next(), DashboardTab::Dashboard);
}

#[test]
fn tab_cycle_backward() {
    assert_eq!(DashboardTab::Dashboard.prev(), DashboardTab::Scripts);
    assert_eq!(DashboardTab::Scripts.prev(), DashboardTab::DataSource);
    assert_eq!(DashboardTab::DataSource.prev(), DashboardTab::Board);
    assert_eq!(DashboardTab::Board.prev(), DashboardTab::Spec);
    assert_eq!(DashboardTab::Spec.prev(), DashboardTab::PerWorkspace);
    assert_eq!(DashboardTab::PerWorkspace.prev(), DashboardTab::Dashboard);
}

#[test]
fn board_columns_count_is_seven() {
    assert_eq!(BOARD_COLUMNS.len(), 7);
}

#[test]
fn board_columns_match_expected_phases() {
    let expected = [
        QueuePhase::Pending,
        QueuePhase::Ready,
        QueuePhase::Running,
        QueuePhase::Completed,
        QueuePhase::Done,
        QueuePhase::Hitl,
        QueuePhase::Failed,
    ];
    assert_eq!(BOARD_COLUMNS, expected);
}

#[test]
fn tab_state_preserved_across_switches() {
    let mut state = DashboardState::new();
    // Modify Dashboard tab state.
    state.current_tab_state_mut().selected_index = 5;
    // Switch to Board tab.
    state.active_tab = DashboardTab::Board;
    assert_eq!(state.current_tab_state().selected_index, 0);
    // Switch back to Dashboard.
    state.active_tab = DashboardTab::Dashboard;
    assert_eq!(state.current_tab_state().selected_index, 5);
}

#[test]
fn spec_status_color_known_statuses() {
    assert_eq!(spec_status_color("draft"), Color::Gray);
    assert_eq!(spec_status_color("active"), Color::Blue);
    assert_eq!(spec_status_color("paused"), Color::Yellow);
    assert_eq!(spec_status_color("completing"), Color::Cyan);
    assert_eq!(spec_status_color("completed"), Color::Green);
    assert_eq!(spec_status_color("archived"), Color::DarkGray);
}

#[test]
fn spec_status_color_unknown_returns_white() {
    assert_eq!(spec_status_color("unknown"), Color::White);
    assert_eq!(spec_status_color(""), Color::White);
}

#[test]
fn dashboard_tab_equality() {
    assert_eq!(DashboardTab::Dashboard, DashboardTab::Dashboard);
    assert_ne!(DashboardTab::Dashboard, DashboardTab::Spec);
    assert_ne!(DashboardTab::Spec, DashboardTab::PerWorkspace);
    assert_ne!(DashboardTab::Board, DashboardTab::Dashboard);
}

#[test]
fn truncate_str_short_string() {
    assert_eq!(truncate_str("hello", 10), "hello");
}

#[test]
fn truncate_str_exact_length() {
    assert_eq!(truncate_str("hello", 5), "hello");
}

#[test]
fn truncate_str_long_string() {
    assert_eq!(truncate_str("hello world", 7), "hello..");
}

#[test]
fn truncate_str_very_small_max() {
    assert_eq!(truncate_str("hello", 3), "hel");
}

#[test]
fn tab_next_full_cycle_returns_to_start() {
    let start = DashboardTab::Dashboard;
    let result = start.next().next().next().next().next().next();
    assert_eq!(result, start);
}

#[test]
fn tab_prev_full_cycle_returns_to_start() {
    let start = DashboardTab::Dashboard;
    let result = start.prev().prev().prev().prev().prev().prev();
    assert_eq!(result, start);
}

#[test]
fn tab_next_full_cycle_from_each_variant() {
    for tab in [
        DashboardTab::Dashboard,
        DashboardTab::PerWorkspace,
        DashboardTab::Spec,
        DashboardTab::Board,
        DashboardTab::DataSource,
        DashboardTab::Scripts,
    ] {
        assert_eq!(tab.next().next().next().next().next().next(), tab);
    }
}

#[test]
fn tab_prev_full_cycle_from_each_variant() {
    for tab in [
        DashboardTab::Dashboard,
        DashboardTab::PerWorkspace,
        DashboardTab::Spec,
        DashboardTab::Board,
        DashboardTab::DataSource,
        DashboardTab::Scripts,
    ] {
        assert_eq!(tab.prev().prev().prev().prev().prev().prev(), tab);
    }
}

#[test]
fn tab_next_then_prev_is_identity() {
    for tab in [
        DashboardTab::Dashboard,
        DashboardTab::PerWorkspace,
        DashboardTab::Spec,
        DashboardTab::Board,
        DashboardTab::DataSource,
        DashboardTab::Scripts,
    ] {
        assert_eq!(tab.next().prev(), tab);
    }
}

#[test]
fn tab_prev_then_next_is_identity() {
    for tab in [
        DashboardTab::Dashboard,
        DashboardTab::PerWorkspace,
        DashboardTab::Spec,
        DashboardTab::Board,
        DashboardTab::DataSource,
        DashboardTab::Scripts,
    ] {
        assert_eq!(tab.prev().next(), tab);
    }
}

#[test]
fn tab_key_maps_correctly_for_all_tabs() {
    let mut state = DashboardState::new();

    state.active_tab = DashboardTab::Dashboard;
    assert_eq!(state.tab_key(), 0);

    state.active_tab = DashboardTab::PerWorkspace;
    assert_eq!(state.tab_key(), 1);

    state.active_tab = DashboardTab::Spec;
    assert_eq!(state.tab_key(), 2);

    state.active_tab = DashboardTab::Board;
    assert_eq!(state.tab_key(), 3);

    state.active_tab = DashboardTab::DataSource;
    assert_eq!(state.tab_key(), 4);

    state.active_tab = DashboardTab::Scripts;
    assert_eq!(state.tab_key(), 5);
}

#[test]
fn board_state_initial_selection() {
    let state = DashboardState::new();
    assert_eq!(state.board_selected_col, 0);
    assert_eq!(state.board_selected_row, 0);
}

#[test]
fn board_selected_col_within_board_columns_range() {
    let mut state = DashboardState::new();
    // Simulate navigating columns within the valid range.
    for col in 0..BOARD_COLUMNS.len() {
        state.board_selected_col = col;
        assert!(state.board_selected_col < BOARD_COLUMNS.len());
    }
}

#[test]
fn board_state_preserves_selection_across_tab_switch() {
    let mut state = DashboardState::new();
    state.active_tab = DashboardTab::Board;
    state.board_selected_col = 3;
    state.board_selected_row = 2;

    // Switch away and back.
    state.active_tab = DashboardTab::Dashboard;
    state.active_tab = DashboardTab::Board;

    // Board col/row are stored on DashboardState directly, so they persist.
    assert_eq!(state.board_selected_col, 3);
    assert_eq!(state.board_selected_row, 2);
}

#[test]
fn tab_states_initialized_for_all_tabs() {
    let state = DashboardState::new();
    // All five tab states (keys 0..=4) should exist.
    for key in 0..=4u8 {
        assert!(
            state.tab_states.contains_key(&key),
            "tab_states should contain key {key}"
        );
    }
}

#[test]
fn tab_state_default_has_zero_selected_index() {
    let ts = TabState::default();
    assert_eq!(ts.selected_index, 0);
    assert_eq!(ts.active_panel, None);
}

#[test]
fn dashboard_tab_state_has_running_panel() {
    let state = DashboardState::new();
    let dashboard_state = state.tab_states.get(&0).unwrap();
    assert_eq!(dashboard_state.active_panel, Some(ActivePanel::Running));
}

#[test]
fn non_dashboard_tab_states_have_no_active_panel() {
    let state = DashboardState::new();
    for key in 1..=4u8 {
        let ts = state.tab_states.get(&key).unwrap();
        assert_eq!(
            ts.active_panel, None,
            "tab {key} should have no active_panel"
        );
    }
}

#[test]
fn current_tab_state_mut_modifies_correct_tab() {
    let mut state = DashboardState::new();

    // Modify PerWorkspace tab state.
    state.active_tab = DashboardTab::PerWorkspace;
    state.current_tab_state_mut().selected_index = 10;

    // Modify Spec tab state.
    state.active_tab = DashboardTab::Spec;
    state.current_tab_state_mut().selected_index = 20;

    // Verify each tab has its own state.
    state.active_tab = DashboardTab::PerWorkspace;
    assert_eq!(state.current_tab_state().selected_index, 10);

    state.active_tab = DashboardTab::Spec;
    assert_eq!(state.current_tab_state().selected_index, 20);

    // Dashboard tab should still be at 0.
    state.active_tab = DashboardTab::Dashboard;
    assert_eq!(state.current_tab_state().selected_index, 0);
}

#[test]
fn overlay_and_help_are_independent_of_tab() {
    let mut state = DashboardState::new();
    state.active_tab = DashboardTab::Board;
    state.overlay_item = Some("w-123".to_string());
    state.show_help = true;

    // Switch tab -- overlay and help state should persist.
    state.active_tab = DashboardTab::Dashboard;
    assert_eq!(state.overlay_item, Some("w-123".to_string()));
    assert!(state.show_help);
}

#[test]
fn datasource_connection_status_labels() {
    assert_eq!(DataSourceConnectionStatus::Connected.label(), "Connected");
    assert_eq!(
        DataSourceConnectionStatus::Disconnected.label(),
        "Disconnected"
    );
    assert_eq!(DataSourceConnectionStatus::Error.label(), "Error");
}

#[test]
fn datasource_connection_status_colors() {
    assert_eq!(DataSourceConnectionStatus::Connected.color(), Color::Green);
    assert_eq!(
        DataSourceConnectionStatus::Disconnected.color(),
        Color::DarkGray
    );
    assert_eq!(DataSourceConnectionStatus::Error.color(), Color::Red);
}

#[test]
fn datasource_connection_status_indicators() {
    assert_eq!(DataSourceConnectionStatus::Connected.indicator(), "●");
    assert_eq!(DataSourceConnectionStatus::Disconnected.indicator(), "○");
    assert_eq!(DataSourceConnectionStatus::Error.indicator(), "✗");
}

#[test]
fn datasource_tab_key_is_four() {
    let mut state = DashboardState::new();
    state.active_tab = DashboardTab::DataSource;
    assert_eq!(state.tab_key(), 4);
}

#[test]
fn datasource_tab_state_preserved() {
    let mut state = DashboardState::new();
    state.active_tab = DashboardTab::DataSource;
    state.current_tab_state_mut().selected_index = 7;
    state.active_tab = DashboardTab::Dashboard;
    state.active_tab = DashboardTab::DataSource;
    assert_eq!(state.current_tab_state().selected_index, 7);
}

#[test]
fn datasource_status_entry_fields() {
    let entry = DataSourceStatusEntry {
        workspace: "my-ws".to_string(),
        source_name: "github".to_string(),
        url: "https://github.com/org/repo".to_string(),
        state_count: 3,
        scan_interval_secs: 300,
        status: DataSourceConnectionStatus::Connected,
        active_item_count: 5,
    };
    assert_eq!(entry.workspace, "my-ws");
    assert_eq!(entry.source_name, "github");
    assert_eq!(entry.state_count, 3);
    assert_eq!(entry.scan_interval_secs, 300);
    assert_eq!(entry.active_item_count, 5);
    assert_eq!(entry.status, DataSourceConnectionStatus::Connected);
}

#[test]
fn datasource_tab_equality() {
    assert_eq!(DashboardTab::DataSource, DashboardTab::DataSource);
    assert_ne!(DashboardTab::DataSource, DashboardTab::Dashboard);
    assert_ne!(DashboardTab::DataSource, DashboardTab::Board);
}

#[test]
fn scripts_tab_in_tab_cycle() {
    // Verify Scripts tab is reachable via next/prev cycling.
    assert_eq!(DashboardTab::DataSource.next(), DashboardTab::Scripts);
    assert_eq!(DashboardTab::Scripts.next(), DashboardTab::Dashboard);
    assert_eq!(DashboardTab::Dashboard.prev(), DashboardTab::Scripts);
    assert_eq!(DashboardTab::Scripts.prev(), DashboardTab::DataSource);
}

#[test]
fn scripts_tab_key_is_five() {
    let mut state = DashboardState::new();
    state.active_tab = DashboardTab::Scripts;
    assert_eq!(state.tab_key(), 5);
}

#[test]
fn format_transition_time_cuts_a_negative_offset() {
    assert_eq!(format_transition_time("2026-03-25T10:05:00-05:00"), "2026-03-25 10:05:00");
}

#[test]
fn render_runtime_panel_does_not_panic_with_empty_stats() {
    let stats = RuntimeStats {
        total_tokens_input: 0,
        total_tokens_output: 0,
        total_tokens: 0,
        executions: 0,
        avg_duration: None,
        by_model: Vec::new(),
    };
    assert_eq!(
        render_runtime_panel(&stats),
        "=== Runtime Stats (last 24h) ===\n\n  Total tokens:  0 (in: 0 / out: 0)\n  Executions:    0\n  Avg duration:  -\n\n"
    );
}

#[test]
fn render_runtime_panel_does_not_panic_with_avg_duration() {
    let stats = RuntimeStats {
        total_tokens_input: 500,
        total_tokens_output: 300,
        total_tokens: 800,
        executions: 5,
        avg_duration: Some("123".to_string()),
        by_model: Vec::new(),
    };
    let text = render_runtime_panel(&stats);
    assert!(text.contains("  Total tokens:  800 (in: 500 / out: 300)\n"));
    assert!(text.contains("  Avg duration:  123ms\n"));
}

#[test]
fn render_runtime_panel_does_not_panic_with_multiple_models() {
    let stats = RuntimeStats {
        total_tokens_input: 1_200,
        total_tokens_output: 600,
        total_tokens: 1_800,
        executions: 4,
        avg_duration: Some("175".to_string()),
        by_model: vec![
            model("helper-haiku", 200, 100, 1, None),
            model("helper-sonnet", 1_000, 500, 3, Some("200")),
        ],
    };
    let text = render_runtime_panel(&stats);
    let expected = format!(
        "\n  {:<20} {:>10} {:>10} {:>10} {:>6} {:>10}\n  {}\n  {:<20} {:>10} {:>10} {:>10} {:>6} {:>10}\n  {:<20} {:>10} {:>10} {:>10} {:>6} {:>10}\n\n",
        "Model", "Input", "Output", "Total", "Runs", "Avg ms",
        "-".repeat(70),
        "helper-sonnet", "1,000", "500", "1,500", 3, "200",
        "helper-haiku", "200", "100", "300", 1, "-"
    );
    assert!(text.ends_with(&expected));
    let table = render_runtime_panel_tui(&Some(stats));
    assert_eq!(
        row_texts(&table),
        vec![
            "(all)|1,200|600|1,800|4|175".to_string(),
            "helper-sonnet|1,000|500|1,500|3|200".to_string(),
            "helper-haiku|200|100|300|1|-".to_string(),
        ]
    );
    assert!(table.rows[0].style.bold);
    assert!(render_runtime_panel_tui(&None).rows.is_empty());
}

#[test]
fn model_stats_sorted_by_total_tokens_descending() {
    let models = vec![
        model("small-model", 10, 10, 1, None),
        model("large-model", 5_000, 3_000, 10, Some("500")),
    ];
    let order = order_models(&models);
    assert_eq!(models[order[0]].model, "large-model");
    assert_eq!(models[order[1]].model, "small-model");
}

#[test]
fn centered_rect_produces_inner_area() {
    let area = Area { x: 0, y: 0, width: 100, height: 50 };
    let result = centered_rect(60, 70, area);
    // The popup should be smaller than the full area.
    assert!(result.width <= 60);
    assert!(result.height <= 35);
    assert!(result.x > 0);
    assert!(result.y > 0);
}

#[test]
fn overlays_take_their_percentages() {
    let edge = |start: u16, len: u16, percent: u16| -> u16 {
        let available = len.min(u16::MAX - start) as u64;
        ((100 * start as u64 + available * percent as u64 + 50) / 100) as u16
    };
    let sizes = [0u16, 1, 2, 3, 5, 7, 24, 33, 50, 80, 99, 100, 211, 1000, 32_767, u16::MAX];
    for start in [0u16, 1, 9, 77, 60_000, u16::MAX] {
        for len in sizes {
            for percent in [0u16, 1, 2, 33, 49, 50, 51, 60, 70, 75, 99, 100] {
                let before = (100 - percent) / 2;
                let area = Area { x: start, y: 3, width: len, height: 40 };
                let r = centered_rect(percent, 100, area);
                assert_eq!(r.x, edge(start, len, before));
                assert_eq!(r.width, edge(start, len, before + percent) - r.x);
                assert_eq!((r.y, r.height), (3, 40));
                let area = Area { x: 5, y: start, width: 60, height: len };
                let r = centered_rect(100, percent, area);
                assert_eq!(r.y, edge(start, len, before));
                assert_eq!(r.height, edge(start, len, before + percent) - r.y);
                assert_eq!((r.x, r.width), (5, 60));
            }
        }
    }
}

#[test]
fn overlays_lie_within_the_area() {
    let area = Area { x: 10, y: 20, width: 100, height: 50 };
    let r = centered_rect(60, 70, area);
    assert_eq!(r, Area { x: 30, y: 28, width: 60, height: 35 });
}

#[test]
fn popup_shares_halve_the_rest() {
    assert_eq!(popup_shares(60), (20, 60, 20));
    assert_eq!(popup_shares(33), (33, 33, 33));
    assert_eq!(popup_shares(100), (0, 100, 0));
}

#[test]
fn build_detail_lines_with_item_and_no_transitions() {
    let item = make_item_with_phase("w1", QueuePhase::Pending, "u");
    let lines = build_detail_lines("w1", &Some(item), &Vec::new());
    // Should contain ID, Status, State, Workspace, Created, Updated lines,
    // plus the timeline header and "(no transitions recorded)" and close hint.
    assert!(lines.len() >= 9);
    // Check the "no transitions" message is present.
    let text: String = lines.iter().map(page_text).collect();
    assert!(text.contains("no transitions recorded"));
}

#[test]
fn build_detail_lines_with_transitions() {
    let item = make_item_with_phase("w1", QueuePhase::Running, "u");
    let change = |from: &str, to: &str, time: &str| StateChange {
        from_state: from.to_string(),
        to_state: to.to_string(),
        timestamp: time.to_string(),
    };
    let transitions = vec![
        change("pending", "ready", "2026-03-25T10:00:00Z"),
        change("ready", "running", "2026-03-25T10:05:00Z"),
    ];
    let lines = build_detail_lines("w1", &Some(item), &transitions);
    let text: String = lines.iter().map(page_text).collect();
    assert!(text.contains("pending"));
    assert!(text.contains("ready"));
    assert!(text.contains("running"));
    assert!(text.contains("10:00:00"));
    assert!(text.contains("10:05:00"));
    let line = &lines[lines.len() - 4];
    assert_eq!(page_text(line), "  pending -> ready  2026-03-25 10:00:00");
    assert_eq!(line.spans[1].style.fg, Some(Color::Gray));
    assert_eq!(line.spans[3].style.fg, Some(Color::Blue));
}

#[test]
fn build_detail_lines_item_not_found() {
    let lines = build_detail_lines("missing-id", &None, &Vec::new());
    let text: String = lines.iter().map(page_text).collect();
    assert!(text.contains("missing-id"));
    assert!(text.contains("item not found"));
}

#[test]
fn build_detail_lines_shows_the_title() {
    let mut item = make_item_with_phase("w1", QueuePhase::Done, "u");
    item.title = Some("A title".to_string());
    let lines = build_detail_lines("w1", &Some(item), &Vec::new());
    assert_eq!(page_text(&lines[6]), "Title: A title");
}

#[test]
fn render_item_detail_overlay_no_panic_item_exists() {
    let item = make_item_with_phase("w1", QueuePhase::Pending, "u");
    let text = panel_text(&render_item_detail_overlay("w1", &Some(item), &Vec::new()));
    assert!(text.contains("Item Details"));
    assert!(text.contains("w1"));
}

#[test]
fn render_item_detail_overlay_no_panic_item_missing() {
    let text = panel_text(&render_item_detail_overlay("nonexistent", &None, &Vec::new()));
    assert!(text.contains("item not found"));
}

#[test]
fn render_item_detail_overlay_no_panic_zero_size_frame() {
    // A very small screen should not cause a panic.
    let area = centered_rect(60, 70, Area { x: 0, y: 0, width: 5, height: 5 });
    assert!(area.width <= 5 && area.height <= 5);
    let none = centered_rect(60, 70, Area { x: 0, y: 0, width: 0, height: 0 });
    assert_eq!((none.width, none.height), (0, 0));
}

#[test]
fn collect_recent_items_empty_db() {
    let items = recent_of(Vec::new());
    assert!(items.is_empty());
}

#[test]
fn collect_recent_items_only_collects_done_failed_completed() {
    let recent = recent_of(vec![
        make_item_with_phase("w-pending", QueuePhase::Pending, "2026-03-25T01:00:00Z"),
        make_item_with_phase("w-running", QueuePhase::Running, "2026-03-25T02:00:00Z"),
        make_item_with_phase("w-done", QueuePhase::Done, "2026-03-25T03:00:00Z"),
        make_item_with_phase("w-failed", QueuePhase::Failed, "2026-03-25T04:00:00Z"),
        make_item_with_phase("w-completed", QueuePhase::Completed, "2026-03-25T05:00:00Z"),
        make_item_with_phase("w-ready", QueuePhase::Ready, "2026-03-25T06:00:00Z"),
    ]);

    // Only Done, Failed, Completed should be collected.
    assert_eq!(recent.len(), 3);
    let ids: Vec<&str> = recent.iter().map(|i| i.work_id.as_str()).collect();
    assert!(ids.contains(&"w-done"));
    assert!(ids.contains(&"w-failed"));
    assert!(ids.contains(&"w-completed"));
    assert!(!ids.contains(&"w-pending"));
    assert!(!ids.contains(&"w-running"));
    assert!(!ids.contains(&"w-ready"));
}

#[test]
fn collect_recent_items_sorted_by_updated_at_descending() {
    let recent = recent_of(vec![
        make_item_with_phase("w-old", QueuePhase::Done, "2026-03-25T01:00:00Z"),
        make_item_with_phase("w-mid", QueuePhase::Failed, "2026-03-25T05:00:00Z"),
        make_item_with_phase("w-new", QueuePhase::Completed, "2026-03-25T10:00:00Z"),
    ]);
    assert_eq!(recent.len(), 3);
    assert_eq!(recent[0].work_id, "w-new");
    assert_eq!(recent[1].work_id, "w-mid");
    assert_eq!(recent[2].work_id, "w-old");
}

#[test]
fn collect_recent_items_truncates_to_8() {
    // 12 Done items.
    let items = (0..12)
        .map(|i| {
            make_item_with_phase(
                &format!("w-{i}"),
                QueuePhase::Done,
                &format!("2026-03-25T{:02}:00:00Z", i),
            )
        })
        .collect();
    let recent = recent_of(items);
    assert_eq!(recent.len(), 8);
    // The most recent (highest hour) should come first.
    assert_eq!(recent[0].work_id, "w-11");
    assert_eq!(recent[7].work_id, "w-4");
}

#[test]
fn items_in_phase_keep_their_order() {
    let items = vec![
        make_item_with_phase("a", QueuePhase::Running, "1"),
        make_item_with_phase("b", QueuePhase::Done, "1"),
        make_item_with_phase("c", QueuePhase::Running, "0"),
    ];
    let ids: Vec<String> =
        items_in_phase(items, QueuePhase::Running).into_iter().map(|i| i.work_id).collect();
    assert_eq!(ids, vec!["a".to_string(), "c".to_string()]);
}

#[test]
fn count_spec_statuses_empty() {
    let counts = count_spec_statuses(&Vec::new());
    assert_eq!(counts.draft, 0);
    assert_eq!(counts.active, 0);
    assert_eq!(counts.paused, 0);
    assert_eq!(counts.completing, 0);
    assert_eq!(counts.completed, 0);
}

#[test]
fn count_spec_statuses_mixed() {
    let specs = vec![
        make_spec("s1", SpecState::Draft),
        make_spec("s2", SpecState::Active),
        make_spec("s3", SpecState::Completed),
        make_spec("s4", SpecState::Completed),
    ];
    let counts = count_spec_statuses(&specs);
    assert_eq!(counts.draft, 1);
    assert_eq!(counts.active, 1);
    assert_eq!(counts.completed, 2);
    assert_eq!(counts.paused, 0);
    assert_eq!(counts.completing, 0);
}

#[test]
fn spec_tab_shows_progress() {
    let specs = vec![
        make_spec("s1", SpecState::Draft),
        make_spec("s2", SpecState::Completed),
        make_spec("s3", SpecState::Archived),
    ];
    let (panel, table) = render_spec_tab(&specs, "33", 1);
    assert_eq!(
        panel_text(&panel),
        format!(
            " Spec Progress |Total: 3  draft: 1  active: 0  paused: 0  completing: 0  completed: 1  Progress: 33%//  [{}{}]",
            "#".repeat(10),
            "-".repeat(20)
        )
    );
    assert_eq!(
        row_texts(&table),
        vec![
            "n1|ws|draft|u".to_string(),
            "n1|ws|completed|u".to_string(),
            "n1|ws|archived|u".to_string()
        ]
    );
    assert!(table.rows[1].style.bold && !table.rows[0].style.bold);
    let line = render_workspace_spec_progress(&specs, "33");
    assert_eq!(
        panel_text(&line),
        " Spec Progress |3 specs  active:0 done:1  [#####----------] 33%"
    );
    let none = render_workspace_spec_progress(&Vec::new(), "0");
    assert!(panel_text(&none).contains("[---------------] 0%"));
}

#[test]
fn collect_datasource_status_empty_workspaces() {
    let entries = collect_datasource_status(&Vec::new(), &Vec::new());
    assert!(entries.is_empty());
}

#[test]
fn collect_datasource_status_error_on_missing_config() {
    let workspaces = vec![WorkspaceSources {
        name: "test-ws".to_string(),
        config_path: "/nonexistent/path.yml".to_string(),
        sources: None,
    }];
    let entries = collect_datasource_status(&workspaces, &Vec::new());
    assert_eq!(entries.len(), 1);
    assert_eq!(entries[0].status, DataSourceConnectionStatus::Error);
    assert_eq!(entries[0].workspace, "test-ws");
    assert_eq!(entries[0].url, "/nonexistent/path.yml");
    assert_eq!(entries[0].source_name, "(unknown)");
}

#[test]
fn sources_are_connected_while_items_are_active() {
    let source = |name: &str, secs: u64| SourceInfo {
        name: name.to_string(),
        url: "https://github.com/o/r".to_string(),
        state_count: 2,
        scan_interval_secs: secs,
    };
    let workspaces = vec![
        WorkspaceSources {
            name: "ws".to_string(),
            config_path: "c".to_string(),
            sources: Some(vec![source("github", 300), source("jira", 59)]),
        },
        WorkspaceSources {
            name: "idle".to_string(),
            config_path: "c".to_string(),
            sources: Some(vec![source("github", 60)]),
        },
    ];
    let from = |id: &str, phase: QueuePhase, source_id: &str| {
        let mut item = make_item_with_phase(id, phase, "1");
        item.source_id = source_id.to_string();
        item
    };
    let items = vec![
        from("a", QueuePhase::Running, "github:o/r#1"),
        from("b", QueuePhase::Done, "github:o/r#2"),
        from("c", QueuePhase::Skipped, "github:o/r#3"),
        from("d", QueuePhase::Failed, "jira:1"),
        from("e", QueuePhase::Pending, "jirafeau:1"),
    ];
    let entries = collect_datasource_status(&workspaces, &items);
    assert_eq!(entries.len(), 3);
    assert_eq!(entries[0].active_item_count, 2);
    assert_eq!(entries[0].status, DataSourceConnectionStatus::Connected);
    assert_eq!(entries[1].active_item_count, 0);
    assert_eq!(entries[1].status, DataSourceConnectionStatus::Disconnected);
    assert_eq!(entries[2].status, DataSourceConnectionStatus::Disconnected);
    let (summary, table) = render_datasource_tab(&entries, 2);
    assert_eq!(
        panel_text(&summary),
        " DataSource Status Summary | 1 Connected   2 Disconnected   0 Error "
    );
    assert_eq!(table.title, " DataSource (3) ");
    assert_eq!(
        row_texts(&table),
        vec![
            "● Connected|ws|github|https://github.com/o/r|2|5m|2".to_string(),
            "○ Disconnected|ws|jira|https://github.com/o/r|2|59s|0".to_string(),
            "○ Disconnected|idle|github|https://github.com/o/r|2|1m|0".to_string(),
        ]
    );
    assert!(table.rows[2].style.bold);
}

fn script_rate(text: &str, band: RateBand) -> Rate {
    Rate { text: text.to_string(), band }
}

#[test]
fn render_scripts_tab_no_panic_empty_db() {
    let panels =
        render_scripts_tab(&Vec::new(), &script_rate("0.0", RateBand::Poor), &Vec::new(), 0);
    assert!(panels.summary.title.contains("Scripts Execution Summary"));
    assert!(panels.stats.title.contains("Per-Script Statistics"));
    assert!(panels.recent.title.contains("Recent Executions"));
    assert_eq!(
        panel_text(&panels.summary),
        " Scripts Execution Summary |Total Runs: 0  Success: 0  Failed: 0  Rate: 0.0%//Scripts: 0"
    );
}

#[test]
fn render_scripts_tab_no_panic_with_data() {
    let stats = vec![ScriptStats {
        state: "analyze".to_string(),
        total_runs: 2,
        success_count: 1,
        fail_count: 1,
        rate: script_rate("50.0", RateBand::Poor),
        avg_duration: None,
    }];
    let run = |id: &str, status: &str, time: &str| ScriptRun {
        state: "analyze".to_string(),
        work_id: id.to_string(),
        status: status.to_string(),
        attempt: 1,
        created_at: time.to_string(),
    };
    let recent = vec![
        run("w2", "failed", "2026-03-25T11:00:00Z"),
        run("w1", "success", "2026-03-25T10:00:00Z"),
    ];
    let panels = render_scripts_tab(&stats, &script_rate("50.0", RateBand::Poor), &recent, 0);
    assert!(panel_text(&panels.summary).contains("Total Runs: 2"));
    assert_eq!(row_texts(&panels.stats), vec!["analyze|2|1|1|50.0%|-".to_string()]);
    assert_eq!(
        row_texts(&panels.recent),
        vec![
            "analyze|w2|failed|1|2026-03-25 11:00:00".to_string(),
            "analyze|w1|success|1|2026-03-25 10:00:00".to_string(),
        ]
    );
    assert_eq!(panels.recent.rows[0].cells.spans[2].style.fg, Some(Color::Red));
    assert_eq!(panels.recent.rows[1].cells.spans[2].style.fg, Some(Color::Green));
    assert_eq!(RateBand::Good.color(), Color::Green);
    assert_eq!(RateBand::Fair.color(), Color::Yellow);
}

#[test]
fn help_lists_the_keys() {
    let panel = render_help_overlay();
    assert_eq!(panel.title, " Help ");
    assert_eq!(panel.lines.len(), 20);
    assert_eq!(page_text(&panel.lines[0]), "Key Bindings");
    assert_eq!(page_text(&panel.lines[17]), "  q/Esc   Quit / close overlay");
}

#[test]
fn tab_bar_names_every_tab() {
    let text = panel_text(&render_tab_bar(DashboardTab::Spec));
    for tab in ["Dashboard", "Spec", "Board", "DataSource", "Scripts"] {
        assert!(text.contains(tab));
    }
}

#[test]
fn board_marks_the_selected_card() {
    let items = vec![
        make_item_with_phase("first-item", QueuePhase::Ready, "1"),
        make_item_with_phase("second-item-with-long-name", QueuePhase::Ready, "1"),
    ];
    let column = render_board_column(&items, 1, Some(1), 16);
    assert_eq!(panel_text(&column), " ready (2) |  first-item/> second-ite..");
    assert_eq!(column.border, Color::Blue);
    let mut state = DashboardState::new();
    state.board_selected_col = 1;
    let board = render_board_tab(&items, &vec![16; 7], &state);
    assert_eq!(board.len(), 7);
    assert_eq!(panel_text(&board[0]), " pending (0) |  (empty)");
    assert_eq!(board[0].border, Color::DarkGray);
    assert_eq!(panel_text(&board[1]), " ready (2) |> first-item/  second-ite..");
}

#[test]
fn dashboard_tab_marks_the_panel_with_the_focus() {
    let running = vec![make_item_with_phase("r", QueuePhase::Running, "1")];
    let recent = vec![make_item_with_phase("d", QueuePhase::Done, "2")];
    let counts = vec![
        PhaseCount { phase: "running".to_string(), count: 1 },
        PhaseCount { phase: "done".to_string(), count: 1 },
    ];
    let mut state = DashboardState::new();
    let panels = render_dashboard_tab(&counts, &running, &recent, &None, &state);
    assert_eq!(panels.running.border, Color::Green);
    assert_eq!(panels.recent.border, Color::DarkGray);
    assert!(panels.running.rows[0].style.bold);
    assert_eq!(row_texts(&panels.running), vec!["r|ws|s|1".to_string()]);
    assert_eq!(row_texts(&panels.recent), vec!["d|done|ws|2".to_string()]);
    state.current_tab_state_mut().active_panel = Some(ActivePanel::Recent);
    let panels = render_dashboard_tab(&counts, &running, &recent, &None, &state);
    assert_eq!(panels.running.border, Color::DarkGray);
    assert_eq!(panels.recent.border, Color::Magenta);
    let summary = render_phase_summary(&counts);
    assert!(panel_text(&summary).contains("running"));
    assert_eq!(render_recent_items_stateful(&recent, false, 0).rows.len(), 1);
}

#[test]
fn per_workspace_tab_needs_a_workspace() {
    let (bar, body) = render_per_workspace_tab(&Vec::new(), 0, &Vec::new(), 0);
    assert!(panel_text(&bar).contains("(no workspaces registered)"));
    assert!(body.is_none());
    let row = WorkspaceRow {
        name: "ws".to_string(),
        config_path: String::new(),
        created_at: String::new(),
    };
    let items = vec![make_item_with_phase("a", QueuePhase::Ready, "1")];
    let (_, body) = render_per_workspace_tab(&vec![row], 0, &items, 0);
    let body = body.unwrap();
    assert_eq!(body.items.title, " Items [ws] ");
    assert_eq!(row_texts(&body.items), vec!["a|ready|s|1".to_string()]);
}

fn data(all: Vec<QueueItem>, recent: Vec<QueueItem>) -> DashboardData {
    DashboardData {
        all_items: all,
        recent_items: recent,
        workspaces: Vec::new(),
        workspace_items: Vec::new(),
        spec_count: 2,
        source_count: 0,
        script_count: 0,
    }
}

#[test]
fn keys_move_and_quit() {
    let running = vec![
        make_item_with_phase("a", QueuePhase::Running, "1"),
        make_item_with_phase("b", QueuePhase::Running, "1"),
    ];
    let d = data(running, Vec::new());
    let mut state = DashboardState::new();
    assert!(!state.run_loop(&d, Some(Key::Down)));
    assert_eq!(state.current_tab_state().selected_index, 1);
    assert!(!state.run_loop(&d, Some(Key::Down)));
    assert_eq!(state.current_tab_state().selected_index, 1);
    assert!(!state.run_loop(&d, Some(Key::Enter)));
    assert_eq!(state.overlay_item.as_deref(), Some("b"));
    // The overlay takes the keys; closing it does not quit.
    assert!(!state.run_loop(&d, Some(Key::Char('d'))));
    assert!(!state.run_loop(&d, Some(Key::Char('q'))));
    assert!(state.overlay_item.is_none());
    assert!(!state.run_loop(&d, Some(Key::Char('h'))));
    assert!(state.show_help);
    assert!(!state.run_loop(&d, Some(Key::Char('z'))));
    assert!(!state.show_help);
    assert!(!state.run_loop(&d, Some(Key::Char('3'))));
    assert_eq!(state.active_tab, DashboardTab::Spec);
    assert!(!state.run_loop(&d, Some(Key::Tab)));
    assert_eq!(state.active_tab, DashboardTab::Board);
    assert!(!state.run_loop(&d, Some(Key::BackTab)));
    assert_eq!(state.active_tab, DashboardTab::Spec);
    assert!(!state.run_loop(&d, None));
    assert!(state.run_loop(&d, Some(Key::Esc)));
}

#[test]
fn selections_are_kept_in_range() {
    let mut state = DashboardState::new();
    state.current_tab_state_mut().selected_index = 9;
    state.selected_workspace = 4;
    state.board_selected_col = 9;
    state.board_selected_row = 3;
    let d = data(vec![make_item_with_phase("a", QueuePhase::Running, "1")], Vec::new());
    state.run_loop(&d, None);
    assert_eq!(state.current_tab_state().selected_index, 0);
    assert_eq!(state.selected_workspace, 0);
    assert_eq!(state.board_selected_col, 0);
    assert_eq!(state.board_selected_row, 0);
}
