use belt_cli::claw::slash::extract_sections;
use belt_cli::claw::slash::fetch_spec_json;
use belt_cli::claw::slash::format_spec_output;
use belt_cli::claw::slash::judge_spec_json;
use belt_cli::claw::slash::resolve_spec_id;
use belt_cli::claw::slash::show_spec_args;
use belt_cli::claw::slash::spec_content;
use belt_cli::claw::slash::spec_request;
use belt_cli::claw::slash::FetchedSpec;
use belt_cli::claw::slash::JsonValue;
use belt_cli::claw::slash::Member;
use belt_cli::claw::slash::SlashCommand;
use belt_cli::claw::slash::SlashDispatcher;
use belt_cli::process::CommandOutput;

fn nothing() -> Result<FetchedSpec, String> {
    Err(String::new())
}

fn text(key: &str, value: &str) -> Member {
    Member { key: key.to_string(), value: JsonValue::Text(value.to_string()) }
}

fn ran(success: bool, stdout: &str, stderr: &str) -> Result<CommandOutput, String> {
    Ok(CommandOutput {
        success,
        status: "exit status: 1".to_string(),
        exit_code: if success { 0 } else { 1 },
        stdout: stdout.to_string(),
        stderr: stderr.to_string(),
    })
}

#[test]
fn parse_auto() {
    let cmd = SlashCommand::parse("/auto fix the bug").unwrap();
    assert_eq!(cmd, SlashCommand::Auto { args: "fix the bug".to_string() });
}

#[test]
fn parse_spec_no_args() {
    let cmd = SlashCommand::parse("/spec").unwrap();
    assert_eq!(cmd, SlashCommand::Spec { args: String::new() });
}

#[test]
fn parse_claw() {
    let cmd = SlashCommand::parse("/claw status").unwrap();
    assert_eq!(cmd, SlashCommand::Claw { args: "status".to_string() });
}

#[test]
fn parse_help() {
    let cmd = SlashCommand::parse("/help").unwrap();
    assert_eq!(cmd, SlashCommand::Help);
}

#[test]
fn parse_quit_and_exit() {
    assert_eq!(SlashCommand::parse("/quit").unwrap(), SlashCommand::Quit);
    assert_eq!(SlashCommand::parse("/exit").unwrap(), SlashCommand::Quit);
}

#[test]
fn parse_unknown() {
    let cmd = SlashCommand::parse("/foo bar").unwrap();
    assert_eq!(
        cmd,
        SlashCommand::Unknown { name: "/foo".to_string(), args: "bar".to_string() }
    );
}

#[test]
fn parse_non_slash_returns_none() {
    assert!(SlashCommand::parse("hello world").is_none());
    assert!(SlashCommand::parse("").is_none());
}

#[test]
fn parse_trims_line_and_arguments() {
    let cmd = SlashCommand::parse("  /auto\t  a  b \n").unwrap();
    assert_eq!(cmd, SlashCommand::Auto { args: "a  b".to_string() });
    let cmd = SlashCommand::parse("/help me").unwrap();
    assert_eq!(cmd, SlashCommand::Help);
}

#[test]
fn dispatch_auto_with_workspace() {
    let d = SlashDispatcher::new(Some("my-ws".to_string()));
    let resp = d.dispatch(&SlashCommand::Auto { args: String::new() }, &nothing());
    assert!(resp.contains("my-ws"));
    assert!(resp.contains("[auto]"));
}

#[test]
fn dispatch_auto_without_workspace() {
    let d = SlashDispatcher::new(None);
    let resp = d.dispatch(&SlashCommand::Auto { args: "x".to_string() }, &nothing());
    assert_eq!(resp, "[auto] Processing: x (workspace: (no workspace selected))");
}

#[test]
fn dispatch_spec_empty_shows_usage() {
    let d = SlashDispatcher::new(None);
    let cmd = SlashCommand::Spec { args: String::new() };
    assert_eq!(spec_request(&cmd), None);
    let resp = d.dispatch(&cmd, &nothing());
    assert!(resp.contains("Usage"));
}

#[test]
fn dispatch_spec_reports_the_error() {
    let d = SlashDispatcher::new(None);
    let cmd = SlashCommand::Spec { args: "#7".to_string() };
    assert_eq!(spec_request(&cmd), Some("spec-issue-7".to_string()));
    let resp = d.dispatch(&cmd, &Err("not there".to_string()));
    assert_eq!(resp, "[spec] Error fetching spec-issue-7: not there");
}

#[test]
fn dispatch_claw_subcommands() {
    let d = SlashDispatcher::new(Some("w".to_string()));
    let claw = |args: &str| d.dispatch(&SlashCommand::Claw { args: args.to_string() }, &nothing());
    assert_eq!(claw(""), "[claw] Claw session active. Workspace: w");
    assert_eq!(claw("status"), "[claw] Claw session active. Workspace: w");
    assert_eq!(claw("init"), "[claw] Re-initializing claw workspace...");
    assert_eq!(claw("rules"), "[claw] Listing policy rules...");
    assert_eq!(claw("x"), "[claw] Unknown subcommand: x. Try: status, init, rules");
}

#[test]
fn resolve_spec_id_bare_number() {
    assert_eq!(resolve_spec_id("42"), "spec-issue-42");
}

#[test]
fn resolve_spec_id_hash_number() {
    assert_eq!(resolve_spec_id("#7"), "spec-issue-7");
}

#[test]
fn resolve_spec_id_already_spec_id() {
    assert_eq!(resolve_spec_id("spec-1234"), "spec-1234");
}

#[test]
fn resolve_spec_id_custom_string() {
    assert_eq!(resolve_spec_id("my-spec"), "my-spec");
}

#[test]
fn resolve_spec_id_leaves_names_as_they_are() {
    assert_eq!(resolve_spec_id("#my-spec"), "#my-spec");
    assert_eq!(resolve_spec_id("##7"), "spec-issue-7");
    assert_eq!(resolve_spec_id("#"), "");
    assert_eq!(resolve_spec_id("4#2"), "4#2");
}

#[test]
fn extract_sections_basic() {
    let content = "## Overview\nSome overview text.\n\n## Requirements\nReq details.\n";
    let sections = extract_sections(content);
    assert_eq!(sections.len(), 2);
    assert_eq!(sections[0].heading, "Overview");
    assert_eq!(sections[0].preview, "Some overview text.");
    assert_eq!(sections[1].heading, "Requirements");
    assert_eq!(sections[1].preview, "Req details.");
}

#[test]
fn extract_sections_long_preview_truncated() {
    let long_line = "A".repeat(80);
    let content = format!("## Heading\n{long_line}\n");
    let sections = extract_sections(&content);
    assert_eq!(sections.len(), 1);
    assert!(sections[0].preview.ends_with("..."));
    assert!(sections[0].preview.len() <= 63);
    assert_eq!(sections[0].preview, format!("{}...", "A".repeat(57)));
}

#[test]
fn extract_sections_counts_characters() {
    let line = "글".repeat(60);
    let sections = extract_sections(&format!("## H\n{line}\n"));
    assert_eq!(sections[0].preview, line);
}

#[test]
fn extract_sections_empty_content() {
    let sections = extract_sections("");
    assert!(sections.is_empty());
}

#[test]
fn extract_sections_without_preview() {
    let sections = extract_sections("# T\n## A\n\n### sub\ntext\n## B\n");
    assert_eq!(sections.len(), 2);
    assert_eq!((sections[0].heading.as_str(), sections[0].preview.as_str()), ("A", ""));
    assert_eq!((sections[1].heading.as_str(), sections[1].preview.as_str()), ("B", ""));
}

#[test]
fn every_heading_has_a_section() {
    let found = |content: &str| -> Vec<(String, String)> {
        extract_sections(content).into_iter().map(|s| (s.heading, s.preview)).collect()
    };
    let pair = |h: &str, p: &str| (h.to_string(), p.to_string());
    assert_eq!(found("## A\n## B\nText\n"), [pair("A", ""), pair("B", "Text")]);
    assert_eq!(found("## A\n\n## B\n## C"), [pair("A", ""), pair("B", ""), pair("C", "")]);
    assert_eq!(found("## A\n# T\n## B\nx\ny"), [pair("A", ""), pair("B", "x")]);
    let spec = vec![text("content", "## A\n## B\nText\n")];
    assert!(format_spec_output(&spec, &Vec::new()).ends_with("Sections:\n  - A\n  - B  (Text)"));
}

#[test]
fn format_spec_output_basic() {
    let spec = vec![
        text("id", "spec-123"),
        text("name", "Auth Module"),
        text("status", "Draft"),
        text("workspace_id", "ws-1"),
        text(
            "content",
            "## Overview\nAuth overview.\n\n## Acceptance Criteria\n- Login works\n- Logout works\n",
        ),
    ];
    let criteria = vec!["Login works".to_string(), "Logout works".to_string()];
    let output = format_spec_output(&spec, &criteria);
    assert!(output.contains("[spec] Auth Module (spec-123)"));
    assert!(output.contains("Status: Draft"));
    assert!(output.contains("Sections:"));
    assert!(output.contains("Overview"));
    assert!(output.contains("Acceptance Criteria"));
    assert!(output.contains("1. Login works"));
    assert!(output.contains("2. Logout works"));
    assert_eq!(
        output,
        "[spec] Auth Module (spec-123)\nStatus: Draft  |  Workspace: ws-1\n\nSections:\n  - Overview  (Auth overview.)\n  - Acceptance Criteria  (- Login works)\n\nAcceptance Criteria:\n  1. Login works\n  2. Logout works"
    );
}

#[test]
fn format_spec_output_no_content() {
    let spec = vec![
        text("id", "spec-0"),
        text("name", "Empty"),
        text("status", "Draft"),
        text("workspace_id", "ws-1"),
        text("content", ""),
    ];
    let output = format_spec_output(&spec, &Vec::new());
    assert!(output.contains("[spec] Empty"));
    assert!(!output.contains("Sections:"));
    assert!(!output.contains("Acceptance Criteria:"));
}

#[test]
fn format_spec_output_shows_what_is_known() {
    let spec = vec![
        Member { key: "priority".to_string(), value: JsonValue::Number(Some(-2)) },
        text("labels", "a,b"),
        text("depends_on", "spec-1"),
        text("entry_point", "src/"),
        text("decomposed_issues", "1,2"),
        Member { key: "id".to_string(), value: JsonValue::Null },
    ];
    assert_eq!(
        format_spec_output(&spec, &Vec::new()),
        "[spec] ? (?)\nStatus: ?  |  Workspace: ?\nPriority: -2\nLabels: a,b\nDepends On: spec-1\nEntry Point: src/\nDecomposed Issues: 1,2"
    );
}

#[test]
fn fetch_spec_json_reads_the_members() {
    let json = "  {\"id\": \"spec-1\", \"priority\": 3, \"labels\": null, \"name\": \"N\"}\n";
    let members = fetch_spec_json(&ran(true, json, "")).unwrap();
    let find = |key: &str| members.iter().find(|m| m.key == key).map(|m| m.value.clone());
    assert_eq!(find("id"), Some(JsonValue::Text("spec-1".to_string())));
    assert_eq!(find("priority"), Some(JsonValue::Number(Some(3))));
    assert_eq!(find("labels"), Some(JsonValue::Null));
    assert_eq!(find("nope"), None);
    let shown = format_spec_output(&members, &Vec::new());
    assert!(shown.starts_with("[spec] N (spec-1)\n"));
    assert!(shown.contains("Priority: 3"));
    assert!(!shown.contains("Labels"));
    assert_eq!(fetch_spec_json(&ran(true, "[1]", "")).unwrap(), Vec::new());
    let json = "{\"a\": true, \"b\": 1.5, \"c\": [1], \"d\": {\"id\": \"x\"}, \"e\": 18446744073709551615}";
    let members = fetch_spec_json(&ran(true, json, "")).unwrap();
    let find = |key: &str| members.iter().find(|m| m.key == key).map(|m| m.value.clone());
    assert_eq!(find("a"), Some(JsonValue::Bool(true)));
    assert_eq!(find("b"), Some(JsonValue::Number(None)));
    assert_eq!(find("c"), Some(JsonValue::List));
    assert_eq!(find("d"), Some(JsonValue::Object));
    assert_eq!(find("e"), Some(JsonValue::Number(None)));
    assert_eq!(find("id"), None);
}

#[test]
fn a_spec_is_shown_and_read() {
    assert_eq!(show_spec_args("spec-1"), ["spec", "show", "spec-1", "--json"]);
    assert_eq!(spec_content(&vec![text("content", "## A")]), "## A");
    assert_eq!(spec_content(&vec![Member { key: "content".to_string(), value: JsonValue::Null }]), "");
    assert_eq!(spec_content(&Vec::new()), "");
}

#[test]
fn what_was_read_of_a_spec_is_judged() {
    assert_eq!(judge_spec_json(Ok(None)), Ok(Vec::new()));
    let members = vec![text("id", "spec-1")];
    assert_eq!(judge_spec_json(Ok(Some(members.clone()))), Ok(members));
    assert_eq!(
        judge_spec_json(Err("EOF".to_string())),
        Err("failed to parse spec JSON: EOF".to_string())
    );
}

#[test]
fn fetch_spec_json_reports_errors() {
    assert_eq!(
        fetch_spec_json(&Err("no such file".to_string())).unwrap_err(),
        "failed to invoke belt spec show: no such file"
    );
    assert_eq!(
        fetch_spec_json(&ran(false, "", " spec not found \n")).unwrap_err(),
        "spec not found"
    );
    assert_eq!(
        fetch_spec_json(&ran(false, "", " \n")).unwrap_err(),
        "belt spec show exited with exit status: 1"
    );
    let e = fetch_spec_json(&ran(true, "not json", "")).unwrap_err();
    assert!(e.starts_with("failed to parse spec JSON: "));
    assert!(e.len() > "failed to parse spec JSON: ".len());
}

#[test]
fn dispatch_help_lists_commands() {
    let d = SlashDispatcher::new(None);
    let resp = d.dispatch(&SlashCommand::Help, &nothing());
    assert!(resp.contains("/auto"));
    assert!(resp.contains("/spec"));
    assert!(resp.contains("/claw"));
    assert!(resp.contains("/quit"));
}

#[test]
fn dispatch_unknown() {
    let d = SlashDispatcher::new(None);
    let resp = d.dispatch(
        &SlashCommand::Unknown { name: "/nope".to_string(), args: String::new() },
        &nothing(),
    );
    assert!(resp.contains("Unknown command"));
}
