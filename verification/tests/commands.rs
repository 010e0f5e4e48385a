use belt_cli::agent::Action;
use belt_cli::cron::cmd_cron_add;
use belt_cli::cron::cmd_cron_list;
use belt_cli::cron::cmd_cron_pause;
use belt_cli::cron::cmd_cron_remove;
use belt_cli::cron::cmd_cron_resume;
use belt_cli::cron::cmd_cron_run;
use belt_cli::cron::cmd_cron_trigger;
use belt_cli::cron::cmd_cron_update;
use belt_cli::cron::cron_run_start;
use belt_cli::cron::cron_update_fault;
use belt_cli::cron::notify_daemon_cron_sync;
use belt_cli::cron::validate_cron_expression;
use belt_cli::cron::CronJob;
use belt_cli::daemon::belt_home;
use belt_cli::daemon::cmd_restart;
use belt_cli::daemon::cmd_stop;
use belt_cli::daemon::read_pid;
use belt_cli::daemon::restart_message;
use belt_cli::daemon::signal_daemon;
use belt_cli::daemon::start_daemon;
use belt_cli::daemon::RestartStage;
use belt_cli::daemon::RestartStep;
use belt_cli::daemon::SourceConfig;
use belt_cli::decompose::decomposes;
use belt_cli::decompose::build_refine_prompt;
use belt_cli::decompose::check_sections;
use belt_cli::decompose::child_link_id;
use belt_cli::decompose::confirm_decomposition;
use belt_cli::decompose::conflict_item;
use belt_cli::decompose::create_child_issue;
use belt_cli::decompose::create_github_issue;
use belt_cli::decompose::created_issue;
use belt_cli::decompose::created_messages;
use belt_cli::decompose::decomposed_body;
use belt_cli::decompose::finish_decomposition;
use belt_cli::decompose::link_id;
use belt_cli::decompose::parent_body;
use belt_cli::decompose::parent_link_id;
use belt_cli::decompose::plan_conflicts;
use belt_cli::decompose::refine_criteria_with_llm;
use belt_cli::decompose::spec_id;
use belt_cli::decompose::strip_fence;
use belt_cli::decompose::update_github_issue_body;
use belt_cli::decompose::update_warning;
use belt_cli::decompose::ConflictAction;
use belt_cli::decompose::Resolution;
use belt_cli::hitl::action_prompt;
use belt_cli::hitl::chosen_action;
use belt_cli::hitl::cmd_hitl_list;
use belt_cli::hitl::cmd_hitl_show;
use belt_cli::hitl::cmd_hitl_timeout;
use belt_cli::hitl::list_timeouts;
use belt_cli::hitl::recommended_action;
use belt_cli::hitl::respond;
use belt_cli::hitl::typed_notes;
use belt_cli::hitl::HitlShow;
use belt_cli::hitl::FIRST_SECOND;
use belt_cli::hitl::LAST_SECOND;
use belt_cli::links::extract_issue_number;
use belt_cli::links::link_check;
use belt_cli::links::link_command;
use belt_cli::links::parse_github_issue_ref;
use belt_cli::links::verify_link_target;
use belt_cli::links::LinkCheck;
use belt_cli::process::CommandOutput;
use belt_cli::queue::HitlReason;
use belt_cli::queue::HitlRespondAction;
use belt_cli::queue::QueueItem;
use belt_cli::queue::QueuePhase;
use belt_cli::queue_commands::check_retry;
use belt_cli::queue_commands::cmd_queue_dependency_add;
use belt_cli::queue_commands::cmd_queue_dependency_remove;
use belt_cli::queue_commands::cmd_queue_done;
use belt_cli::queue_commands::cmd_queue_hitl;
use belt_cli::queue_commands::cmd_queue_list;
use belt_cli::queue_commands::cmd_queue_retry_script;
use belt_cli::queue_commands::cmd_queue_show;
use belt_cli::queue_commands::cmd_queue_skip;
use belt_cli::queue_commands::on_done_actions;
use belt_cli::queue_commands::start_retry;
use belt_cli::queue_commands::DoneActions;
use belt_cli::queue_commands::RetryStep;
use belt_cli::queue_commands::ScriptsEnd;
use belt_cli::queue_commands::SourceDone;
use belt_cli::specs::complete_spec;
use belt_cli::specs::list_specs;
use belt_cli::specs::pause_spec;
use belt_cli::specs::remove_spec;
use belt_cli::specs::resume_spec;
use belt_cli::specs::show_spec;
use belt_cli::specs::update_spec;
use belt_cli::specs::verify_report;
use belt_cli::specs::LinkResult;
use belt_cli::specs::Spec;
use belt_cli::specs::SpecState;
use belt_cli::specs::SpecUpdate;
use belt_cli::status::WorkspaceRow;
use belt_cli::workspace::add_message;
use belt_cli::workspace::list_workspaces;
use belt_cli::workspace::missing_config;
use belt_cli::workspace::missing_field;
use belt_cli::workspace::remove_workspace;
use belt_cli::workspace::show_config;
use belt_cli::workspace::show_context;
use belt_cli::workspace::show_workspace;
use belt_cli::workspace::static_context;
use belt_cli::workspace::update_message;
use belt_cli::workspace::ClawConfig;
use belt_cli::workspace::ConfigView;
use belt_cli::workspace::Onboarding;

fn item(work_id: &str, phase: QueuePhase) -> QueueItem {
    QueueItem {
        work_id: work_id.to_string(),
        source_id: "source-1".to_string(),
        workspace_id: "ws-test".to_string(),
        state: "implement".to_string(),
        phase,
        title: None,
        created_at: "2026-01-01".to_string(),
        updated_at: "2026-01-02".to_string(),
        hitl_created_at: None,
        hitl_reason: None,
        hitl_reason_name: None,
        hitl_respondent: None,
        hitl_notes: None,
        hitl_timeout_at: None,
        hitl_terminal_action: None,
        replan_count: 0,
    }
}

/// A queue item in HITL phase for testing.
fn hitl_item(work_id: &str) -> QueueItem {
    let mut it = item(work_id, QueuePhase::Hitl);
    it.hitl_created_at = Some("2026-01-03".to_string());
    it.hitl_reason = Some(HitlReason::EvaluateFailure);
    it.hitl_reason_name = Some("evaluate_failure".to_string());
    it
}

fn output(success: bool, stdout: &str, stderr: &str) -> CommandOutput {
    CommandOutput {
        success,
        status: "exit status: 1".to_string(),
        exit_code: if success { 0 } else { 1 },
        stdout: stdout.to_string(),
        stderr: stderr.to_string(),
    }
}

fn strings(parts: &[&str]) -> Vec<String> {
    parts.iter().map(|p| p.to_string()).collect()
}

// ---- links ----

#[test]
fn parse_github_issue_ref_valid() {
    let result = parse_github_issue_ref("owner/repo#123");
    assert_eq!(result, Some(("owner/repo".to_string(), "123".to_string())));
}

#[test]
fn parse_github_issue_ref_url_not_matched() {
    // Full URLs are not issue refs.
    assert_eq!(parse_github_issue_ref("https://github.com/owner/repo/issues/1"), None);
}

#[test]
fn parse_github_issue_ref_no_hash() {
    assert_eq!(parse_github_issue_ref("owner/repo"), None);
}

#[test]
fn parse_github_issue_ref_no_number() {
    assert_eq!(parse_github_issue_ref("owner/repo#abc"), None);
}

#[test]
fn parse_github_issue_ref_no_slash() {
    assert_eq!(parse_github_issue_ref("repo#123"), None);
}

#[test]
fn parse_github_issue_ref_leading_slash() {
    assert_eq!(parse_github_issue_ref("/repo#123"), None);
}

#[test]
fn parse_github_issue_ref_trailing_slash() {
    assert_eq!(parse_github_issue_ref("owner/#123"), None);
}

#[test]
fn parse_github_issue_ref_empty_number() {
    assert_eq!(parse_github_issue_ref("owner/repo#"), None);
}

#[test]
fn issue_refs_split_at_the_first_hash() {
    assert_eq!(parse_github_issue_ref("owner/repo#1#2"), None);
    assert_eq!(parse_github_issue_ref("a/b/c#1"), None);
}

#[test]
fn extract_issue_number_from_url() {
    assert_eq!(
        extract_issue_number("https://github.com/owner/repo/issues/42"),
        Some("42".to_string())
    );
}

#[test]
fn extract_issue_number_no_number() {
    assert_eq!(extract_issue_number("https://github.com/owner/repo/issues/"), None);
}

#[test]
fn extract_issue_number_non_numeric() {
    assert_eq!(extract_issue_number("https://github.com/owner/repo/issues/abc"), None);
}

#[test]
fn parent_and_child_issues_have_numbers() {
    let number = |n: &str| extract_issue_number(&format!("https://github.com/owner/repo/issues/{n}"));
    assert_eq!(number("42"), Some("42".to_string()));
    assert_eq!(number("43"), Some("43".to_string()));
    assert_eq!(number("44"), Some("44".to_string()));
}

#[test]
fn links_are_checked_by_their_kind() {
    assert!(matches!(link_check("o/r#7"), LinkCheck::Issue { .. }));
    assert!(matches!(link_check("https://x.y"), LinkCheck::Url));
    assert!(matches!(link_check("ftp://x.y"), LinkCheck::Unsupported));
    let gh = link_command("o/r#7").unwrap();
    assert_eq!(gh.program, "gh");
    assert_eq!(gh.args, ["issue", "view", "7", "--repo", "o/r", "--json", "state"]);
    let curl = link_command("https://x.y").unwrap();
    assert_eq!(curl.program, "curl");
    assert_eq!(curl.args[..2], ["--head", "--silent"]);
    assert_eq!(curl.args[5..], ["%{http_code}", "--max-time", "10", "--location", "https://x.y"]);
    assert!(link_command("ftp://x.y").is_none());
    assert_eq!(
        verify_link_target("o/r#7", &Ok(output(true, " OPEN\n", ""))),
        (true, "issue exists: OPEN".to_string())
    );
    assert_eq!(
        verify_link_target("o/r#7", &Ok(output(false, "", "no such issue\n"))),
        (false, "gh issue view failed: no such issue".to_string())
    );
    assert_eq!(
        verify_link_target("o/r#7", &Err("not found".to_string())),
        (false, "could not run gh: not found".to_string())
    );
    assert_eq!(
        verify_link_target("https://x.y", &Ok(output(true, "200", ""))),
        (true, "HTTP 200".to_string())
    );
    assert_eq!(
        verify_link_target("https://x.y", &Ok(output(true, "404", ""))),
        (false, "HTTP 404".to_string())
    );
    assert_eq!(
        verify_link_target("http://x.y", &Ok(output(true, "what", ""))),
        (false, "HTTP what".to_string())
    );
    assert_eq!(
        verify_link_target("http://x.y", &Ok(output(false, "", " timed out "))),
        (false, "curl failed: timed out".to_string())
    );
    assert_eq!(
        verify_link_target("http://x.y", &Err("gone".to_string())),
        (false, "could not run curl: gone".to_string())
    );
    assert_eq!(
        verify_link_target("ftp://x.y", &Err(String::new())),
        (false, "unsupported target format: ftp://x.y".to_string())
    );
}

// ---- HITL ----

#[test]
fn recommended_action_evaluate_failure() {
    let (action, _) = recommended_action(Some(&HitlReason::EvaluateFailure));
    assert_eq!(action, "retry");
}

#[test]
fn recommended_action_retry_max_exceeded() {
    let (action, _) = recommended_action(Some(&HitlReason::RetryMaxExceeded));
    assert_eq!(action, "skip");
}

#[test]
fn recommended_action_timeout() {
    let (action, _) = recommended_action(Some(&HitlReason::Timeout));
    assert_eq!(action, "retry");
}

#[test]
fn recommended_action_manual_escalation() {
    let (action, _) = recommended_action(Some(&HitlReason::ManualEscalation));
    assert_eq!(action, "done");
}

#[test]
fn recommended_action_spec_conflict() {
    let (action, _) = recommended_action(Some(&HitlReason::SpecConflict));
    assert_eq!(action, "replan");
}

#[test]
fn recommended_action_spec_completion_review() {
    let (action, _) = recommended_action(Some(&HitlReason::SpecCompletionReview));
    assert_eq!(action, "done");
}

#[test]
fn recommended_action_spec_modification_proposed() {
    let (action, _) = recommended_action(Some(&HitlReason::SpecModificationProposed));
    assert_eq!(action, "done");
}

#[test]
fn recommended_action_none_reason() {
    let (action, _) = recommended_action(None);
    assert_eq!(action, "skip");
}

#[test]
fn hitl_respond_valid_action_done() {
    let it = hitl_item("hitl-1");
    let out = respond("hitl-1", &it, HitlRespondAction::Done, &None, "now").unwrap();
    assert!(out.message.contains("done"), "stdout should mention action: {}", out.message);
    assert_eq!(out.message, "Item 'hitl-1' transitioned from hitl to done (action: done).\n");

    // Verify phase changed to Done.
    assert_eq!(out.phase, QueuePhase::Done);
}

#[test]
fn hitl_respond_valid_action_retry() {
    let it = hitl_item("hitl-2");
    let out = respond("hitl-2", &it, HitlRespondAction::Retry, &None, "now").unwrap();
    assert_eq!(out.phase, QueuePhase::Pending);
}

#[test]
fn hitl_respond_valid_action_skip() {
    let it = hitl_item("hitl-3");
    let out = respond("hitl-3", &it, HitlRespondAction::Skip, &None, "now").unwrap();
    assert_eq!(out.phase, QueuePhase::Skipped);
}

#[test]
fn hitl_respond_non_hitl_item_rejected() {
    // Responding to an item that is NOT in HITL phase should fail.
    let it = item("hitl-5", QueuePhase::Pending);
    let error = respond("hitl-5", &it, HitlRespondAction::Done, &None, "now").unwrap_err();
    assert!(
        error.contains("not 'hitl'") || error.contains("pending"),
        "stderr should mention phase mismatch: {error}"
    );
    assert_eq!(error, "item 'hitl-5' is in phase 'pending', not 'hitl'");
}

#[test]
fn replanning_asks_for_a_review() {
    let mut it = hitl_item("w1");
    it.hitl_notes = Some("it broke".to_string());
    it.replan_count = 2;
    let out = respond("w1", &it, HitlRespondAction::Replan, &None, "t0").unwrap();
    assert_eq!(out.phase, QueuePhase::Pending);
    assert_eq!(
        out.message,
        "Item 'w1' rolled back to pending (replan 3/3). Created HITL item 'w1:replan-3' for spec modification review.\n"
    );
    let new = out.created.unwrap();
    assert_eq!(new.work_id, "w1:replan-3");
    assert_eq!(new.source_id, "source-1");
    assert_eq!(new.phase, QueuePhase::Hitl);
    assert_eq!(new.hitl_created_at, "t0");
    assert_eq!(new.hitl_reason, HitlReason::SpecModificationProposed);
    assert_eq!(new.hitl_notes, "Claw replan delegation (attempt 3): it broke");
    assert_eq!(new.title, "spec-modification-proposed (replan #3)");
    assert_eq!(new.replan_count, 3);
    let typed = Some("see the log".to_string());
    let out = respond("w1", &it, HitlRespondAction::Replan, &typed, "t0").unwrap();
    assert_eq!(out.created.unwrap().hitl_notes, "see the log");
}

#[test]
fn replanning_is_limited() {
    let mut it = hitl_item("w1");
    it.replan_count = 3;
    let out = respond("w1", &it, HitlRespondAction::Replan, &None, "t0").unwrap();
    assert_eq!(out.phase, QueuePhase::Failed);
    assert!(out.created.is_none());
    assert_eq!(
        out.message,
        "Item 'w1' replan limit exceeded (4/3), transitioned to failed.\n"
    );
    // Only a new plan is counted.
    it.replan_count = u32::MAX;
    let out = respond("w1", &it, HitlRespondAction::Done, &None, "t0").unwrap();
    assert_eq!(out.phase, QueuePhase::Done);
    it.phase = QueuePhase::Running;
    assert!(respond("w1", &it, HitlRespondAction::Replan, &None, "t0").is_err());
}

#[test]
fn typed_notes_are_recorded() {
    let it = hitl_item("w1");
    let notes = typed_notes("  fine \n");
    assert_eq!(notes, Some("fine".to_string()));
    assert_eq!(typed_notes(" \n"), None);
    let out = respond("w1", &it, HitlRespondAction::Done, &notes, "t0").unwrap();
    assert_eq!(
        out.message,
        "Notes recorded: fine\nItem 'w1' transitioned from hitl to done (action: done).\n"
    );
}

#[test]
fn the_recommended_action_is_the_default() {
    let it = hitl_item("w1");
    assert_eq!(
        action_prompt(&it),
        "\nAvailable actions: done, retry, skip, replan\nEnter action [retry]: "
    );
    assert_eq!(chosen_action(&it, "\n"), "retry");
    assert_eq!(chosen_action(&it, " skip \n"), "skip");
}

#[test]
fn hitl_details_end_with_the_recommendation() {
    let it = hitl_item("w1");
    match cmd_hitl_show("w1", &it, "text").unwrap() {
        HitlShow::Text(t) => assert_eq!(
            t,
            "Work ID:      w1\nSource ID:    source-1\nWorkspace:    ws-test\nState:        implement\nPhase:        hitl\nCreated:      2026-01-01\nUpdated:      2026-01-02\nHITL Since:   2026-01-03\nHITL Reason:  evaluate_failure\n\nRecommended:  retry\n              Evaluation failed; a retry may succeed after transient issues are resolved.\n"
        ),
        HitlShow::Json { .. } => panic!("expected text"),
    }
    match cmd_hitl_show("w1", &it, "json").unwrap() {
        HitlShow::Json { action, .. } => assert_eq!(action, "retry"),
        HitlShow::Text(_) => panic!("expected JSON"),
    }
    let other = item("w1", QueuePhase::Done);
    assert_eq!(
        cmd_hitl_show("w1", &other, "text").unwrap_err(),
        "item 'w1' is in phase 'done', not 'hitl'"
    );
}

#[test]
fn hitl_table_lists_reasons() {
    assert_eq!(
        cmd_hitl_list(&Vec::new(), "text"),
        Some("No items awaiting human review.\n".to_string())
    );
    assert!(cmd_hitl_list(&Vec::new(), "json").is_none());
    let table = cmd_hitl_list(&vec![hitl_item("w1")], "text").unwrap();
    assert_eq!(
        table,
        format!(
            "{:<40} {:<20} {:<12} {:<24} TITLE\n{}\n{:<40} {:<20} {:<12} {:<24} -\n\n1 item(s) awaiting review.\n",
            "WORK_ID", "WORKSPACE", "STATE", "REASON", "-".repeat(104), "w1", "ws-test",
            "implement", "evaluate_failure"
        )
    );
}

#[test]
fn hitl_timeout_set_valid_escalation_action() {
    let action = Some("skip".to_string());
    let set = cmd_hitl_timeout("hitl-t1", QueuePhase::Hitl, 3600, &action, 0, 0)
        .expect("the moment can be represented")
        .expect("the action is valid");
    assert!(set.message.contains("skip"), "stdout should mention action: {}", set.message);
    assert_eq!(set.timeout_at, "1970-01-01T01:00:00+00:00");
    assert_eq!(
        set.message,
        "Timeout set for item 'hitl-t1':\n  expires at: 1970-01-01T01:00:00+00:00\n  duration:   3600 seconds\n  action:     skip\n"
    );
}

#[test]
fn hitl_timeout_set_invalid_escalation_action() {
    // Invalid escalation action strings should be rejected.
    let action = Some("not_a_real_action".to_string());
    let error = cmd_hitl_timeout("hitl-t2", QueuePhase::Hitl, 3600, &action, 0, 0)
        .unwrap()
        .unwrap_err();
    assert!(
        error.contains("invalid escalation action") || error.contains("not_a_real_action"),
        "stderr should mention invalid action: {error}"
    );
}

#[test]
fn timeouts_need_a_waiting_item_and_a_moment() {
    let error = cmd_hitl_timeout("w1", QueuePhase::Done, 1, &None, 0, 0).unwrap().unwrap_err();
    assert_eq!(error, "item 'w1' is in phase 'done', expected 'hitl'");
    assert!(cmd_hitl_timeout("w1", QueuePhase::Hitl, i64::MAX as u64, &None, 0, 0).is_none());
    let set = cmd_hitl_timeout("w1", QueuePhase::Hitl, 1, &None, 86_399, 500_000_000)
        .unwrap()
        .unwrap();
    assert_eq!(set.timeout_at, "1970-01-02T00:00:00.500+00:00");
    assert!(set.message.ends_with("  action:     skip (default)\n"));
}

#[test]
fn timeouts_end_within_the_range_of_dates() {
    let at = |secs: i64, duration: u64| {
        cmd_hitl_timeout("w1", QueuePhase::Hitl, duration, &None, secs, 7)
            .map(|set| set.unwrap().timeout_at)
    };
    assert_eq!(at(LAST_SECOND - 1, 1).unwrap(), "+262142-12-31T23:59:59.000000007+00:00");
    assert_eq!(at(LAST_SECOND, 1), None);
    assert_eq!(at(LAST_SECOND + 1, 0), None);
    assert_eq!(at(FIRST_SECOND, 0).unwrap(), "-262143-01-01T00:00:00.000000007+00:00");
    assert_eq!(at(FIRST_SECOND - 1, 1), None);
    assert_eq!(at(FIRST_SECOND, (LAST_SECOND - FIRST_SECOND) as u64), at(LAST_SECOND, 0));
    assert_eq!(at(60, u64::MAX), None);
    assert_eq!(at(60, i64::MAX as u64 + 1), None);
    assert_eq!(at(FIRST_SECOND, u64::MAX), None);
    assert_eq!(at(i64::MAX, 1), None);
    assert_eq!(at(i64::MIN, 1), None);
}

#[test]
fn timeouts_are_listed() {
    assert_eq!(list_timeouts(&Vec::new()), "No HITL items with active timeouts.\n");
    let mut it = hitl_item(&"w".repeat(41));
    it.hitl_timeout_at = Some("t1".to_string());
    let table = list_timeouts(&vec![it]);
    let name = format!("{}...", "w".repeat(37));
    assert!(table.ends_with(&format!(
        "{:<40} {:<28} {:<10} {:<20}\n\n1 item(s) with timeout\n",
        name, "t1", "skip", "ws-test"
    )));
}

// ---- queue ----

#[test]
fn scripts_come_from_the_first_source_with_the_state() {
    let state = |name: &str, commands: &[&str]| DoneActions {
        state: name.to_string(),
        actions: commands.iter().map(|c| Action::Script { command: c.to_string() }).collect(),
    };
    let sources = vec![
        SourceDone { states: vec![state("review", &["r"])] },
        SourceDone { states: vec![state("implement", &["a", "b"]), state("done", &[])] },
        SourceDone { states: vec![state("implement", &["c"])] },
    ];
    let found = on_done_actions(&sources, "implement").unwrap();
    assert_eq!(found.len(), 2);
    assert!(matches!(&found[1], Action::Script { command } if command == "b"));
    assert_eq!(on_done_actions(&sources, "done").unwrap().len(), 0);
    assert!(on_done_actions(&sources, "impl").is_none());
}

#[test]
fn queue_table_cuts_long_ids() {
    assert_eq!(
        cmd_queue_list(&Vec::new(), "text"),
        Some("No queue items found.\n".to_string())
    );
    assert!(cmd_queue_list(&Vec::new(), "json").is_none());
    // Forty characters stay, however many bytes they take.
    let exact = "é".repeat(40);
    let long = "x".repeat(50);
    let items = vec![item(&exact, QueuePhase::Ready), item(&long, QueuePhase::Done)];
    let table = cmd_queue_list(&items, "text").unwrap();
    assert_eq!(
        table,
        format!(
            "{:<40} {:<12} {:<10} {:<20}\n{} {:<12} {:<10} {:<20}\n{}... {:<12} {:<10} {:<20}\n\n2 item(s)\n",
            "WORK_ID", "PHASE", "STATE", "UPDATED", exact, "ready", "implement", "2026-01-02",
            "x".repeat(37), "done", "implement", "2026-01-02"
        )
    );
}

#[test]
fn queue_items_are_shown() {
    let mut it = item("w1", QueuePhase::Ready);
    it.title = Some("T".to_string());
    assert_eq!(
        cmd_queue_show(&it, "text").unwrap(),
        "Work ID:      w1\nSource ID:    source-1\nWorkspace:    ws-test\nState:        implement\nPhase:        ready\nTitle:        T\nCreated:      2026-01-01\nUpdated:      2026-01-02\n"
    );
    assert!(cmd_queue_show(&it, "json").is_none());
}

#[test]
fn queue_items_change_phase() {
    let done = cmd_queue_done("w");
    assert_eq!((done.phase, done.message.as_str()), (QueuePhase::Done, "Marked w as done.\n"));
    let skip = cmd_queue_skip("w");
    assert_eq!((skip.phase, skip.message.as_str()), (QueuePhase::Skipped, "Skipped w.\n"));
    let hitl = cmd_queue_hitl("w", &None);
    assert_eq!((hitl.phase, hitl.message.as_str()), (QueuePhase::Hitl, "Marked w as HITL.\n"));
    let hitl = cmd_queue_hitl("w", &Some("why".to_string()));
    assert_eq!(hitl.message, "Marked w as HITL (reason: why).\n");
    assert_eq!(cmd_queue_dependency_add("a", "b"), "Added dependency: a depends on b.\n");
    assert_eq!(
        cmd_queue_dependency_remove("a", "b"),
        "Removed dependency: a no longer depends on b.\n"
    );
}

#[test]
fn scripts_are_retried_for_failed_items_alone() {
    let failed = item("w", QueuePhase::Failed);
    let running = item("w", QueuePhase::Running);
    assert_eq!(
        check_retry("w", &running).unwrap_err(),
        "item 'w' is in phase 'running', not 'failed'"
    );
    assert!(check_retry("w", &failed).is_ok());
    assert_eq!(
        start_retry("w", &failed, None).unwrap_err(),
        "no state config found for state 'implement' in workspace 'ws-test'"
    );
    match start_retry("w", &failed, Some(0)).unwrap() {
        RetryStep::MarkDone { message } => assert_eq!(
            message,
            "No on_done scripts configured for state 'implement'. Transitioning to done.\nItem 'w' transitioned from failed to done.\n"
        ),
        RetryStep::RunScripts { .. } => panic!("nothing to run"),
    }
    match start_retry("w", &failed, Some(2)).unwrap() {
        RetryStep::RunScripts { message } => {
            assert_eq!(message, "Re-running on_done scripts for 'w'...\n")
        }
        RetryStep::MarkDone { .. } => panic!("two scripts to run"),
    }
}

#[test]
fn retried_scripts_decide_the_phase() {
    let end = cmd_queue_retry_script("w", &ScriptsEnd::TimedOut { secs: 9 });
    assert!(!end.done);
    assert_eq!(end.message, "Script execution timed out after 9s. Item remains failed.\n");
    let end = cmd_queue_retry_script("w", &ScriptsEnd::Ended { success: true, exit_code: 0 });
    assert!(end.done);
    assert_eq!(
        end.message,
        "on_done scripts succeeded. Item 'w' transitioned from failed to done.\n"
    );
    let end = cmd_queue_retry_script("w", &ScriptsEnd::Ended { success: false, exit_code: -2 });
    assert!(!end.done);
    assert_eq!(
        end.message,
        "on_done scripts failed (exit code -2). Item 'w' remains in failed phase.\n"
    );
    let end = cmd_queue_retry_script("w", &ScriptsEnd::NoResult);
    assert!(end.done);
    assert_eq!(end.message, "Item 'w' transitioned from failed to done.\n");
}

// ---- cron ----

#[test]
fn cron_expressions_have_five_fields() {
    assert!(validate_cron_expression("0 * * * *").is_ok());
    assert!(validate_cron_expression(" */5  1-3 1,2\t* * ").is_ok());
    assert_eq!(
        validate_cron_expression("* * *").unwrap_err(),
        "invalid cron expression: expected 5 fields (minute hour day month weekday), got 3"
    );
    assert_eq!(
        validate_cron_expression("").unwrap_err(),
        "invalid cron expression: expected 5 fields (minute hour day month weekday), got 0"
    );
    assert_eq!(
        validate_cron_expression("0 x * y *").unwrap_err(),
        "invalid cron expression: hour field 'x' contains invalid characters"
    );
    assert_eq!(
        validate_cron_expression("0 0 * * MON").unwrap_err(),
        "invalid cron expression: weekday field 'MON' contains invalid characters"
    );
}

#[test]
fn cron_jobs_need_a_script() {
    assert_eq!(
        cmd_cron_add("j", "0 * * * *", "/s.sh", true).unwrap(),
        "Cron job 'j' added.\n"
    );
    assert_eq!(
        cmd_cron_add("j", "0 * * * *", "/s.sh", false).unwrap_err(),
        "script not found: /s.sh"
    );
    assert!(cmd_cron_add("j", "0 *", "/s.sh", false).unwrap_err().contains("got 2"));
    assert_eq!(
        cron_run_start("j", "/s.sh", true).unwrap(),
        "Running cron job 'j' (script: /s.sh)...\n"
    );
    assert_eq!(cron_run_start("j", "/s.sh", false).unwrap_err(), "script not found: /s.sh");
}

#[test]
fn cron_jobs_are_updated_in_part() {
    let some = |t: &str| Some(t.to_string());
    assert_eq!(
        cron_update_fault(&None, &None).unwrap(),
        "at least one of --schedule or --script must be provided"
    );
    assert!(cron_update_fault(&some("x"), &None).is_none());
    let up = cmd_cron_update("j", &some("0 * * * *"), &some("/s.sh"), false);
    assert!(up.set_schedule && !up.set_script);
    assert_eq!(up.outcome.unwrap_err(), "script not found: /s.sh");
    let up = cmd_cron_update("j", &some("bad"), &some("/s.sh"), true);
    assert!(!up.set_schedule && !up.set_script);
    assert!(up.outcome.is_err());
    let up = cmd_cron_update("j", &None, &some("/s.sh"), true);
    assert!(!up.set_schedule && up.set_script);
    assert_eq!(up.outcome.unwrap(), "Cron job 'j' updated.\n");
}

#[test]
fn cron_jobs_are_listed() {
    assert_eq!(
        cmd_cron_list(&Vec::new(), "text"),
        Some("No cron jobs registered.\n".to_string())
    );
    assert!(cmd_cron_list(&Vec::new(), "json").is_none());
    let job = CronJob {
        name: "a-job-with-a-long-name".to_string(),
        schedule: "0 * * * *".to_string(),
        script: "/s.sh".to_string(),
        workspace: None,
        enabled: true,
        last_run_at: None,
    };
    assert_eq!(
        cmd_cron_list(&vec![job], "text").unwrap(),
        format!(
            "{:<20} {:<16} {:<10} {:<12} {:<24}\n{:<20} {:<16} {:<10} {:<12} {:<24}\n\n1 job(s)\n",
            "NAME", "SCHEDULE", "ENABLED", "WORKSPACE", "LAST_RUN", "a-job-with-a-long...",
            "0 * * * *", "yes", "-", "never"
        )
    );
}

#[test]
fn cron_jobs_are_switched() {
    assert_eq!(cmd_cron_pause("j"), (false, "Cron job 'j' paused.\n".to_string()));
    assert_eq!(cmd_cron_resume("j"), (true, "Cron job 'j' resumed.\n".to_string()));
    assert_eq!(cmd_cron_remove("j"), "Cron job 'j' removed.\n");
    assert_eq!(
        cmd_cron_run("j", &output(true, "", "")).unwrap(),
        "Cron job 'j' completed successfully.\n"
    );
    assert_eq!(
        cmd_cron_run("j", &output(false, "", "")).unwrap_err(),
        "cron job 'j' failed with exit code 1"
    );
    assert_eq!(notify_daemon_cron_sync(&Ok(())), "Daemon notified to sync cron jobs.\n");
    assert_eq!(notify_daemon_cron_sync(&Err("none".to_string())), "");
}

#[test]
fn cron_trigger_says_whether_the_daemon_knows() {
    assert_eq!(
        cmd_cron_trigger("test-job", &Ok(())),
        "Trigger persisted for cron job 'test-job' (last_run_at reset).\nDaemon notified (SIGUSR1). The job will execute shortly.\n"
    );
    assert_eq!(
        cmd_cron_trigger("test-job", &Err("no daemon".to_string())),
        "Trigger persisted for cron job 'test-job' (last_run_at reset).\nCould not signal daemon: no daemon\nThe job will execute on the next daemon tick.\n"
    );
}

// ---- daemon ----

#[test]
fn belt_home_comes_from_the_environment_first() {
    let some = |t: &str| Some(t.to_string());
    assert_eq!(belt_home(&some("/b"), &some("/h")).unwrap(), "/b");
    assert_eq!(belt_home(&None, &some("/h")).unwrap(), "/h/.belt");
    assert_eq!(belt_home(&None, &None).unwrap_err(), "could not determine home directory");
}

#[test]
fn pids_are_numbers() {
    assert_eq!(read_pid(" 123\n"), Some(123));
    assert_eq!(read_pid("+7"), Some(7));
    assert_eq!(read_pid("4294967295"), Some(u32::MAX));
    assert_eq!(read_pid("4294967296"), None);
    assert_eq!(read_pid("12a"), None);
    assert_eq!(read_pid(""), None);
    assert_eq!(read_pid("-1"), None);
}

#[test]
fn signals_are_reported() {
    assert_eq!(cmd_stop(7, true).unwrap(), "Sent stop signal to daemon (PID 7).\n");
    assert_eq!(
        cmd_stop(7, false).unwrap_err(),
        "Failed to send signal to PID 7. Process may not exist."
    );
    assert!(signal_daemon(7, true).is_ok());
    assert_eq!(signal_daemon(7, false).unwrap_err(), "failed to send SIGUSR1 to PID 7");
}

#[test]
fn restarting_stops_first() {
    let (stage, step) = cmd_restart(RestartStage::Begin, true, 0);
    assert!(matches!(step, RestartStep::SendStop));
    let (stage, step) = cmd_restart(stage, true, 250);
    assert!(matches!(step, RestartStep::Wait));
    let (_, step) = cmd_restart(stage, false, 500);
    match step {
        RestartStep::Start { message } => assert_eq!(message, "Daemon stopped.\n"),
        _ => panic!("expected the start"),
    }
}

#[test]
fn restarting_gives_up_after_half_a_minute() {
    let (stage, _) = cmd_restart(RestartStage::Begin, true, 0);
    let (stage, step) = cmd_restart(stage, true, 29_999);
    assert!(matches!(step, RestartStep::Wait));
    let (_, step) = cmd_restart(stage, true, 30_000);
    match step {
        RestartStep::GiveUp { error } => {
            assert_eq!(error, "daemon did not stop within 30 seconds -- aborting restart")
        }
        _ => panic!("expected the end"),
    }
}

#[test]
fn restarting_without_a_daemon_starts_one() {
    let (_, step) = cmd_restart(RestartStage::Begin, false, 0);
    match step {
        RestartStep::Start { message } => {
            assert_eq!(message, "No running daemon found -- skipping stop phase.\n")
        }
        _ => panic!("expected the start"),
    }
    assert_eq!(restart_message(Some(3)), "Daemon restarted in background (PID 3).\n");
    assert_eq!(restart_message(None), "Starting daemon...\n");
}

#[test]
fn github_sources_are_watched() {
    let source = |name: &str, url: &str| SourceConfig {
        name: name.to_string(),
        url: url.to_string(),
        scan_interval_secs: 60,
    };
    let urls = start_daemon(&vec![
        source("github", "https://git.example/a"),
        source("jira", "https://jira.example"),
        source("other", "https://github.com/o/r"),
    ]);
    assert_eq!(urls, strings(&["https://git.example/a", "https://github.com/o/r"]));
}

// ---- specs ----

fn spec(status: SpecState) -> Spec {
    Spec {
        id: "s1".to_string(),
        workspace_id: "ws".to_string(),
        name: "n".to_string(),
        content: "c".to_string(),
        status,
        priority: None,
        labels: None,
        depends_on: None,
        entry_point: None,
        decomposed_issues: None,
        created_at: "t0".to_string(),
        updated_at: "t1".to_string(),
    }
}

#[test]
fn specs_are_listed_and_shown() {
    assert_eq!(list_specs(&Vec::new()), "no specs found\n");
    assert_eq!(list_specs(&vec![spec(SpecState::Draft)]), "s1\tn\tdraft\tws\n");
    let mut s = spec(SpecState::Active);
    s.priority = Some(-1);
    s.labels = Some("l".to_string());
    assert_eq!(
        show_spec(&s),
        "ID:          s1\nName:        n\nStatus:      active\nWorkspace:   ws\nContent:     c\nPriority:    -1\nLabels:      l\nCreated At:  t0\nUpdated At:  t1\n"
    );
}

#[test]
fn spec_updates_keep_the_rest() {
    let mut s = spec(SpecState::Active);
    s.labels = Some("l".to_string());
    let new = update_spec(
        s,
        SpecUpdate {
            name: Some("m".to_string()),
            content: None,
            priority: Some(4),
            labels: None,
            depends_on: None,
            entry_point: None,
        },
    );
    assert_eq!(new.name, "m");
    assert_eq!(new.content, "c");
    assert_eq!(new.priority, Some(4));
    assert_eq!(new.labels, Some("l".to_string()));
}

#[test]
fn specs_move_through_their_states() {
    let change = pause_spec("s1", SpecState::Active, true).unwrap();
    assert_eq!((change.status, change.message.as_str()), (SpecState::Paused, "spec paused: s1\n"));
    assert_eq!(
        pause_spec("s1", SpecState::Draft, false).unwrap_err(),
        "cannot pause spec in status 'draft': only active specs can be paused"
    );
    assert_eq!(
        resume_spec("s1", SpecState::Archived, true).unwrap().message,
        "spec restored from archive: s1\n"
    );
    assert_eq!(
        resume_spec("s1", SpecState::Draft, true).unwrap().message,
        "spec activated: s1\n"
    );
    assert_eq!(
        resume_spec("s1", SpecState::Completed, false).unwrap_err(),
        "cannot resume spec in status 'completed': only draft, paused, or archived specs can be activated"
    );
    let change = complete_spec("s1", SpecState::Active, true).unwrap();
    assert_eq!(change.status, SpecState::Completing);
    assert_eq!(change.message, "spec entering completion flow: s1\n");
    let change = complete_spec("s1", SpecState::Completing, true).unwrap();
    assert_eq!(change.status, SpecState::Completed);
    assert_eq!(change.message, "spec completed: s1\n");
    assert_eq!(
        complete_spec("s1", SpecState::Draft, true).unwrap_err(),
        "cannot complete spec in status 'draft': only active or completing specs can advance toward completion"
    );
    assert_eq!(
        complete_spec("s1", SpecState::Active, false).unwrap_err(),
        "invalid transition: active -> completing"
    );
    assert_eq!(remove_spec("s1", SpecState::Paused).unwrap().message, "spec archived: s1\n");
    assert_eq!(
        remove_spec("s1", SpecState::Completed).unwrap_err(),
        "cannot archive spec in status 'completed': completed specs cannot be archived"
    );
    assert_eq!(remove_spec("s1", SpecState::Archived).unwrap_err(), "spec is already archived");
}

#[test]
fn link_reports_count_what_is_reachable() {
    assert_eq!(verify_report("s1", &Vec::new()), "no links found for spec s1\n");
    let link = |target: &str, valid: bool, detail: &str| LinkResult {
        target: target.to_string(),
        valid,
        detail: detail.to_string(),
    };
    assert_eq!(
        verify_report("s1", &vec![link("a", true, "HTTP 200"), link("b", false, "HTTP 404")]),
        "[OK] a - HTTP 200\n[FAIL] b - HTTP 404\n\n1/2 links verified successfully\n"
    );
}

// ---- decomposition ----

#[test]
fn decompose_workflow_parent_body_update_format() {
    let spec_content = "## Overview\nFeature spec.\n\n## Acceptance Criteria\n- A\n- B";
    let child_urls = vec![
        "https://github.com/owner/repo/issues/501".to_string(),
        "https://github.com/owner/repo/issues/502".to_string(),
    ];

    let updated_body = decomposed_body(spec_content, &child_urls);

    assert!(updated_body.contains("## Sub-issues"));
    assert!(updated_body.contains("- [ ] AC1: https://github.com/owner/repo/issues/501"));
    assert!(updated_body.contains("- [ ] AC2: https://github.com/owner/repo/issues/502"));
    // Original content is preserved.
    assert!(updated_body.starts_with("## Overview"));
}

#[test]
fn decomposition_records_the_issue_numbers() {
    let urls = strings(&["https://g/o/r/issues/101", "https://g/o/r/pulls/x", "https://g/102"]);
    let end = finish_decomposition("s1", "body", &Some("100".to_string()), &urls);
    assert_eq!(end.issues, Some("101,102".to_string()));
    assert_eq!(end.message, "spec s1 decomposed into 2 issues, status -> active\n");
    let (number, body) = end.parent_update.unwrap();
    assert_eq!(number, "100");
    assert_eq!(
        body,
        "body\n\n## Sub-issues\n- [ ] AC1: https://g/o/r/issues/101\n- [ ] AC2: https://g/o/r/pulls/x\n- [ ] AC3: https://g/102"
    );
    let end = finish_decomposition("s1", "body", &None, &Vec::new());
    assert!(end.issues.is_none() && end.parent_update.is_none());
    assert_eq!(end.message, "");
}

#[test]
fn parent_bodies_announce_child_issues() {
    assert_eq!(parent_body("c", true, 2), "c\n\n## Sub-issues\n_Creating child issues..._");
    assert_eq!(parent_body("c", true, 0), "c");
    assert_eq!(parent_body("c", false, 2), "c");
    let url = Some("https://github.com/o/r/issues/1".to_string());
    assert!(decomposes(&url, true, 1));
    assert!(!decomposes(&url, false, 1));
    assert!(!decomposes(&url, true, 0));
    assert!(!decomposes(&None, true, 1));
}

#[test]
fn sections_are_checked_unless_skipped() {
    let missing = Some(strings(&["Overview", "Notes"]));
    assert_eq!(
        check_sections(false, &missing).unwrap_err(),
        "spec content is missing required sections: Overview, Notes. Use --skip-validation to bypass this check."
    );
    assert!(check_sections(true, &missing).is_ok());
    assert!(check_sections(false, &None).is_ok());
}

#[test]
fn conflicts_become_dependencies_or_reviews() {
    let plan = plan_conflicts(&vec![
        Resolution {
            existing_spec_name: "Old".to_string(),
            path: "src/a".to_string(),
            action: ConflictAction::AutoDependency { spec_id: "spec-1".to_string() },
        },
        Resolution {
            existing_spec_name: "Other".to_string(),
            path: "src/b.rs".to_string(),
            action: ConflictAction::Hitl { reason: "same file".to_string() },
        },
    ]);
    assert_eq!(
        plan.messages,
        "info: auto-registering dependency on spec 'Old' (spec-1) due to module overlap at 'src/a'\nwarning: HITL required - same file\n"
    );
    assert_eq!(plan.dependencies, strings(&["spec-1"]));
    assert!(plan.needs_human);
    let none = plan_conflicts(&Vec::new());
    assert!(!none.needs_human && none.messages.is_empty());
    let (notice, created) = created_messages("s1", false);
    assert_eq!((notice.as_str(), created.as_str()), ("", "spec created: s1\n"));
    let it = conflict_item("s1", "ws", "N", "[]", "t0");
    assert_eq!(it.work_id, "spec-conflict:s1:review");
    assert_eq!(it.hitl_notes, "spec-conflict-detected: []");
    assert_eq!(it.title, "Spec conflict detected for 'N'");
    assert_eq!(
        it.message,
        "hitl item created: spec-conflict:s1:review (reason: spec-conflict-detected)\n"
    );
}

#[test]
fn issues_are_created_with_labels() {
    assert_eq!(
        create_github_issue("T", "B"),
        strings(&["issue", "create", "--title", "T", "--body", "B", "--label", "autopilot:ready"])
    );
    assert_eq!(
        create_child_issue("T", "B")[6..],
        strings(&["--label", "autopilot:ready", "--label", "autopilot:trigger"])
    );
    assert_eq!(
        update_github_issue_body("7", "B"),
        strings(&["issue", "edit", "7", "--body", "B"])
    );
    let made = created_issue(&Ok(output(true, " https://g/1\n", "")));
    assert_eq!(made.url, Some("https://g/1".to_string()));
    assert_eq!(made.message, "GitHub issue created: https://g/1\n");
    let failed = created_issue(&Ok(output(false, "", "denied\n")));
    assert_eq!(failed.url, None);
    assert_eq!(failed.message, "warning: failed to create GitHub issue: denied\n");
    let none = created_issue(&Err("no gh".to_string()));
    assert_eq!(none.message, "warning: could not run `gh` CLI: no gh\n");
    assert_eq!(update_warning(&Ok(output(true, "", ""))), "");
    assert_eq!(
        update_warning(&Ok(output(false, "", "x"))),
        "warning: failed to update parent issue body: x\n"
    );
    assert_eq!(
        update_warning(&Err("x".to_string())),
        "warning: could not run `gh` for issue update: x\n"
    );
}

#[test]
fn identifiers_hold_the_time() {
    assert_eq!(spec_id(17), "spec-17");
    assert_eq!(link_id(-3), "link--3");
    assert_eq!(parent_link_id("s1"), "link-s1-parent");
    assert_eq!(child_link_id("s1", 5), "link-s1-5");
}

#[test]
fn yes_is_the_default_answer() {
    let answer = |t: &str| confirm_decomposition(&Some(t.to_string()));
    assert!(answer("\n"));
    assert!(answer(" Y \n"));
    assert!(answer("YES"));
    assert!(!answer("no\n"));
    assert!(!answer("yep"));
    assert!(!confirm_decomposition(&None));
}

#[test]
fn refine_prompt_numbers_the_criteria() {
    let prompt = build_refine_prompt(&strings(&["first", "second"]), "N", &"c".repeat(2500));
    assert!(prompt.contains("Spec: N\n\n"));
    assert!(prompt.contains(&format!("(abbreviated):\n{}\n\n", "c".repeat(2000))));
    assert!(prompt.contains("Acceptance criteria:\n1. first\n2. second\n\n"));
}

#[test]
fn fences_are_stripped() {
    assert_eq!(strip_fence(" ```json\n[1]\n``` \n"), "[1]");
    assert_eq!(strip_fence("```\n[1]\n```"), "[1]");
    assert_eq!(strip_fence("[1]"), "[1]");
    // A fence that is not closed stays.
    assert_eq!(strip_fence("```json\n[1]"), "```json\n[1]");
}

#[test]
fn refined_criteria_must_match_in_number() {
    let reply = "```json\n[\"a\\n\", \"b\"]\n```";
    let refined = refine_criteria_with_llm(2, true, reply);
    assert_eq!(refined.criteria, Some(strings(&["a\n", "b"])));
    assert_eq!(refined.message, "info: LLM refined 2 criteria\n");
    let refined = refine_criteria_with_llm(3, true, reply);
    assert!(refined.criteria.is_none());
    assert_eq!(refined.message, "info: LLM returned mismatched count, using raw criteria\n");
    let refined = refine_criteria_with_llm(2, true, "sorry");
    assert!(refined.criteria.is_none());
    assert!(refined.message.starts_with("info: could not parse LLM output ("));
    assert!(refined.message.ends_with("), using raw criteria\n"));
    let refined = refine_criteria_with_llm(2, false, reply);
    assert!(refined.criteria.is_none());
    assert_eq!(refined.message, "info: LLM refinement unavailable, using raw criteria\n");
}

// ---- workspaces ----

fn row(name: &str) -> WorkspaceRow {
    WorkspaceRow {
        name: name.to_string(),
        config_path: "/c.yaml".to_string(),
        created_at: "t0".to_string(),
    }
}

#[test]
fn workspaces_are_listed() {
    assert_eq!(list_workspaces(&Vec::new()), "No workspaces registered.\n");
    assert_eq!(
        list_workspaces(&vec![row("w")]),
        format!(
            "{:<20} {:<50} CREATED\n{:<20} {:<50} t0\n",
            "NAME", "CONFIG", "w", "/c.yaml"
        )
    );
}

#[test]
fn workspaces_show_their_own_jobs() {
    let job = |name: &str, workspace: Option<&str>, enabled: bool| CronJob {
        name: name.to_string(),
        schedule: "* * * * *".to_string(),
        script: "/s".to_string(),
        workspace: workspace.map(|w| w.to_string()),
        enabled,
        last_run_at: None,
    };
    let jobs = vec![job("a", Some("w"), true), job("b", None, true), job("c", Some("w"), false)];
    assert_eq!(
        show_workspace(&row("w"), "w", &jobs),
        "Name:       w\nConfig:     /c.yaml\nCreated at: t0\n\nCron jobs:\n  a [* * * * *] (enabled)\n  c [* * * * *] (disabled)\n"
    );
    assert_eq!(
        show_workspace(&row("v"), "v", &jobs),
        "Name:       v\nConfig:     /c.yaml\nCreated at: t0\n"
    );
}

#[test]
fn workspaces_report_changes() {
    let o = Onboarding {
        workspace_name: "w".to_string(),
        created: true,
        config_path: "/c".to_string(),
        source_count: 1,
        cron_jobs_seeded: 2,
        claw_dir: "/claw".to_string(),
    };
    assert_eq!(
        add_message(&o),
        "Workspace 'w' registered successfully.\n  Config: /c\n  Sources: 1\n  Cron jobs seeded: 2\n  Claw dir: /claw\n"
    );
    assert_eq!(
        update_message("w", &Some("/c".to_string())),
        "Workspace 'w' updated.\n  Config: /c\n"
    );
    assert_eq!(
        update_message("w", &None),
        "No update options provided. Use --config to update the config path.\n"
    );
    assert_eq!(
        missing_config("/c", "w"),
        "Config file not found: /c. Use 'belt workspace update w --config <path>' to fix."
    );
}

#[test]
fn workspaces_with_active_items_are_kept() {
    let items = vec![
        item("a", QueuePhase::Done),
        item("b", QueuePhase::Skipped),
        item("c", QueuePhase::Failed),
    ];
    assert_eq!(
        remove_workspace("w", &items, false).unwrap_err(),
        "Warning: workspace 'w' has 1 active item(s).\nUse --force to remove anyway.\n"
    );
    assert_eq!(
        remove_workspace("w", &items, true).unwrap(),
        "Workspace 'w' removed.\n  Note: 1 active item(s) remain in the queue.\n"
    );
    assert_eq!(
        remove_workspace("w", &items[..2].to_vec(), false).unwrap(),
        "Workspace 'w' removed.\n"
    );
}

#[test]
fn configurations_are_shown() {
    let mut view = ConfigView {
        name: "w".to_string(),
        concurrency: 3,
        default_runtime: "helper".to_string(),
        sources: vec![SourceConfig {
            name: "github".to_string(),
            url: "https://g".to_string(),
            scan_interval_secs: 60,
        }],
        claw: Some(ClawConfig {
            auto_approve: false,
            hitl_policy: Some("hp".to_string()),
            classify_policy: None,
            enabled_commands: strings(&["a", "b"]),
        }),
    };
    assert_eq!(
        show_config(&view),
        "Name:        w\nConcurrency: 3\nRuntime:     helper\n\nSources:\n  github:\n    URL:           https://g\n    Scan interval: 60s\n\nClaw config:\n  Auto-approve: false\n  HITL policy:  hp\n  Commands:     a, b\n"
    );
    view.sources = Vec::new();
    view.claw = None;
    assert_eq!(show_config(&view), "Name:        w\nConcurrency: 3\nRuntime:     helper\n");
}

#[test]
fn contexts_fall_back_to_the_queue() {
    let mut context = static_context(&item("ctx-1", QueuePhase::Pending), 2);
    assert_eq!(
        show_context(&context),
        "work_id:   ctx-1\nworkspace: ws-test\nphase:     pending\nstate:     implement\nsource_id: source-1\nsource:    unknown \nhistory:   2 entries\n"
    );
    context.issue = Some((4, "Bug".to_string()));
    context.pr = Some(5);
    context.history_len = 0;
    assert!(show_context(&context).ends_with("issue:     #4 Bug\npr:        #5\n"));
    assert_eq!(missing_field("a.b"), "field 'a.b' not found in context");
}
