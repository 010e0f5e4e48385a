use std::collections::BTreeMap;

use belt_cli::assistant::Assistant;
use belt_cli::bootstrap::build_llm_prompt;
use belt_cli::bootstrap::build_system_prompt;
use belt_cli::bootstrap::create_bootstrap_pr;
use belt_cli::bootstrap::default_coding_md;
use belt_cli::bootstrap::default_commit_md;
use belt_cli::bootstrap::default_files;
use belt_cli::bootstrap::default_project_md;
use belt_cli::bootstrap::default_testing_md;
use belt_cli::bootstrap::parse_llm_response;
use belt_cli::bootstrap::planned_files;
use belt_cli::bootstrap::project_info;
use belt_cli::bootstrap::prompt_user_review;
use belt_cli::bootstrap::result_message;
use belt_cli::bootstrap::rule_paths;
use belt_cli::bootstrap::rules_dir;
use belt_cli::bootstrap::run;
use belt_cli::bootstrap::run_in_dir;
use belt_cli::bootstrap::run_with_llm;
use belt_cli::bootstrap::run_with_llm_interactive;
use belt_cli::bootstrap::wants_pr;
use belt_cli::bootstrap::write_review;
use belt_cli::bootstrap::BootstrapResult;
use belt_cli::bootstrap::ModelReply;
use belt_cli::bootstrap::PrStep;
use belt_cli::bootstrap::ProjectInfo;
use belt_cli::bootstrap::ReviewDecision;
use belt_cli::bootstrap::RuleFile;
use belt_cli::files::NewFile;
use belt_cli::process::CommandOutput;

fn helper() -> Assistant {
    Assistant::new("helper")
}

/// A file system in memory.
struct Disk {
    files: BTreeMap<String, String>,
}

impl Disk {
    fn new() -> Disk {
        Disk { files: BTreeMap::new() }
    }

    fn present(&self, files: &Vec<RuleFile>) -> Vec<bool> {
        rule_paths(&rules_dir("/w", &helper()), files).iter().map(|p| self.files.contains_key(p)).collect()
    }

    fn apply(&mut self, result: &BootstrapResult) {
        for f in &result.written {
            self.files.insert(f.path.clone(), f.content.clone());
        }
    }

    fn run(&mut self, force: bool) -> BootstrapResult {
        let result = run("/w", force, &self.present(&default_files()), &helper());
        self.apply(&result);
        result
    }

    fn run_with_llm(&mut self, force: bool, reply: &ModelReply) -> BootstrapResult {
        let result = run_with_llm("/w", force, reply, &self.present(&planned_files(reply)), &helper());
        self.apply(&result);
        result
    }

    fn review(&mut self, reply: &ModelReply, decision: ReviewDecision) -> BootstrapResult {
        let exists = self.present(&planned_files(reply));
        let result = run_with_llm_interactive("/w", false, reply, decision, &exists, &helper());
        self.apply(&result);
        result
    }

    fn rule(&self, name: &str) -> &str {
        &self.files[&format!("/w/.helper/rules/{name}")]
    }
}

fn reply(stdout: &str) -> ModelReply {
    ModelReply { success: true, stdout: stdout.to_string() }
}

fn failing() -> ModelReply {
    ModelReply { success: false, stdout: String::new() }
}

#[test]
fn bootstrap_creates_rules_directory_and_files() {
    let mut disk = Disk::new();
    let result = disk.run(false);

    assert_eq!(result.rules_dir, "/w/.helper/rules");
    assert_eq!(disk.rule("project.md"), default_project_md());
    assert_eq!(disk.rule("coding.md"), default_coding_md());
    assert_eq!(disk.rule("commit.md"), default_commit_md());
    assert_eq!(disk.rule("testing.md"), default_testing_md());
    assert_eq!(result.written.len(), 4);
    assert!(result.skipped.is_empty());
    assert!(!result.llm_generated);
}

#[test]
fn bootstrap_preserves_existing_files() {
    let mut disk = Disk::new();
    disk.run(false);

    // Modify one file.
    let custom = "# Custom project rules";
    disk.files.insert("/w/.helper/rules/project.md".to_string(), custom.to_string());

    // Re-run without force.
    let result = disk.run(false);
    assert_eq!(result.skipped.len(), 4);
    assert!(result.written.is_empty());
    assert_eq!(disk.rule("project.md"), custom);
}

#[test]
fn bootstrap_force_overwrites_existing_files() {
    let mut disk = Disk::new();
    disk.run(false);

    // Modify one file.
    disk.files.insert("/w/.helper/rules/project.md".to_string(), "# Custom".to_string());

    // Re-run with force.
    let result = disk.run(true);
    assert_eq!(result.written.len(), 4);
    assert!(result.skipped.is_empty());
    assert_eq!(disk.rule("project.md"), default_project_md());
}

#[test]
fn bootstrap_is_idempotent() {
    let mut disk = Disk::new();
    let r1 = disk.run(false);
    let r2 = disk.run(false);
    assert_eq!(r1.rules_dir, r2.rules_dir);
    // Second run should skip all files.
    assert_eq!(r2.skipped.len(), 4);
}

#[test]
fn bootstrap_in_a_given_directory() {
    let result = run_in_dir("/rules", false, &vec![true, false, true, false]);
    let written: Vec<&str> = result.written.iter().map(|f| f.path.as_str()).collect();
    assert_eq!(written, vec!["/rules/coding.md", "/rules/testing.md"]);
    assert_eq!(
        result.skipped,
        vec!["/rules/project.md".to_string(), "/rules/commit.md".to_string()]
    );
}

#[test]
fn bootstrap_default_templates_are_not_empty() {
    assert!(!default_project_md().is_empty());
    assert!(!default_coding_md().is_empty());
    assert!(!default_commit_md().is_empty());
    assert!(!default_testing_md().is_empty());
}

#[test]
fn parse_response_with_all_delimiters() {
    let response = "\
--- FILE: project.md ---
# My Project Rules
- Rust project

--- FILE: coding.md ---
# Coding Guide
- Use cargo fmt

--- FILE: commit.md ---
# Commit Rules
- Conventional commits

--- FILE: testing.md ---
# Test Rules
- cargo test";

    let files = parse_llm_response(response);
    assert_eq!(files.len(), 4);
    assert_eq!(files[0].name, "project.md");
    assert!(files[0].content.contains("My Project Rules"));
    assert_eq!(files[1].name, "coding.md");
    assert!(files[1].content.contains("cargo fmt"));
    assert_eq!(files[2].name, "commit.md");
    assert!(files[2].content.contains("Conventional commits"));
    assert_eq!(files[3].name, "testing.md");
    assert!(files[3].content.contains("cargo test"));
    assert_eq!(files[1].content, "# Coding Guide\n- Use cargo fmt");
}

#[test]
fn parse_response_fills_missing_files_with_defaults() {
    let response = "\
--- FILE: project.md ---
# Custom Project
- Custom content";

    let files = parse_llm_response(response);
    assert_eq!(files.len(), 4);
    assert_eq!(files[0].name, "project.md");
    assert!(files[0].content.contains("Custom Project"));
    // Missing files should use defaults.
    assert_eq!(files[1].name, "coding.md");
    assert_eq!(files[1].content, default_coding_md());
    assert_eq!(files[2].name, "commit.md");
    assert_eq!(files[2].content, default_commit_md());
    assert_eq!(files[3].name, "testing.md");
    assert_eq!(files[3].content, default_testing_md());
}

#[test]
fn parse_response_no_delimiters_assigns_to_project() {
    let response = "# Some freeform content\n- bullet point";
    let files = parse_llm_response(response);
    assert_eq!(files.len(), 4);
    assert_eq!(files[0].name, "project.md");
    assert!(files[0].content.contains("Some freeform content"));
}

#[test]
fn parse_response_empty_input() {
    let files = parse_llm_response("");
    // All four defaults should be present.
    assert_eq!(files.len(), 4);
    assert_eq!(files[0].name, "project.md");
    assert_eq!(files[0].content, default_project_md());
}

#[test]
fn parse_response_preserves_order() {
    // Even if the LLM produces files in a different order, output is normalized.
    let response = "\
--- FILE: testing.md ---
# Tests first

--- FILE: project.md ---
# Project second";

    let files = parse_llm_response(response);
    assert_eq!(files[0].name, "project.md");
    assert_eq!(files[1].name, "coding.md"); // default
    assert_eq!(files[2].name, "commit.md"); // default
    assert_eq!(files[3].name, "testing.md");
}

#[test]
fn parse_response_keeps_extra_files_at_the_end() {
    let response = "\
--- FILE: extra.md ---
more
--- FILE: coding.md ---
first
--- FILE: coding.md ---
second
--- FILE: empty.md ---
--- FILE: last.md ---
";
    let files = parse_llm_response(response);
    let names: Vec<&str> = files.iter().map(|f| f.name.as_str()).collect();
    assert_eq!(
        names,
        vec![
            "project.md",
            "coding.md",
            "commit.md",
            "testing.md",
            "extra.md",
            "coding.md",
            "empty.md"
        ]
    );
    assert_eq!(files[1].content, "first");
    assert_eq!(files[5].content, "second");
    assert_eq!(files[6].content, "");
}

#[test]
fn duplicate_files_are_written_once_without_force() {
    let text = "--- FILE: coding.md ---\nfirst\n--- FILE: coding.md ---\nsecond";
    let mut disk = Disk::new();
    let result = disk.run_with_llm(false, &reply(text));
    assert_eq!(disk.rule("coding.md"), "first");
    assert_eq!(result.written.len(), 4);
    assert_eq!(result.skipped, vec!["/w/.helper/rules/coding.md".to_string()]);
    disk.run_with_llm(true, &reply(text));
    assert_eq!(disk.rule("coding.md"), "second");
}

#[test]
fn overlapping_marks_delimit_nothing() {
    let names = |files: &[RuleFile]| -> Vec<String> {
        files.iter().map(|f| f.name.clone()).collect()
    };
    let files = parse_llm_response("--- FILE: ---");
    assert_eq!(names(&files), ["project.md", "coding.md", "commit.md", "testing.md"]);
    assert_eq!(files[0].content, "--- FILE: ---");
    assert_eq!(files[1].content, default_coding_md());

    // Within a file such a line is a part of it.
    let files = parse_llm_response("--- FILE: coding.md ---\na\n  --- FILE: ---\nb");
    assert_eq!(files[0].content, default_project_md());
    assert_eq!(files[1].content, "a\n  --- FILE: ---\nb");

    // Marks that touch name a file without a name.
    let files = parse_llm_response("--- FILE:  ---\ntext");
    assert_eq!(files[4].name, "");
    assert_eq!(files[4].content, "text");
}

#[test]
fn a_delimiter_alone_leaves_the_templates() {
    let files = parse_llm_response("--- FILE: coding.md ---");
    assert_eq!(files.len(), 4);
    assert_eq!(files[0].content, default_project_md());
    assert_eq!(files[1].content, default_coding_md());
}

#[test]
fn build_prompt_includes_project_info() {
    let info = ProjectInfo {
        name: "MyApp".to_string(),
        language: "Rust".to_string(),
        framework: "axum".to_string(),
        description: "A web service".to_string(),
    };
    let prompt = build_llm_prompt(&info);
    assert!(prompt.contains("MyApp"));
    assert!(prompt.contains("Rust"));
    assert!(prompt.contains("axum"));
    assert!(prompt.contains("A web service"));
    assert!(prompt.contains("project.md"));
    assert!(prompt.contains("coding.md"));
    assert!(prompt.contains("commit.md"));
    assert!(prompt.contains("testing.md"));
    assert!(prompt.contains(
        "- Project name: MyApp\n- Language: Rust\n- Framework: axum\n- Description: A web service\n\nGenerate four"
    ));
    assert!(build_system_prompt().starts_with("You are a software engineering conventions expert. "));
}

#[test]
fn project_info_has_defaults() {
    let info = project_info(&None, &None, &None, &None, &None);
    assert_eq!(info.name, "project");
    assert_eq!(info.language, "unknown");
    assert_eq!(info.framework, "");
    assert_eq!(info.description, "");
    let dir = Some("repo".to_string());
    assert_eq!(project_info(&None, &dir, &None, &None, &None).name, "repo");
    assert_eq!(project_info(&Some("x".to_string()), &dir, &None, &None, &None).name, "x");
}

const LLM_RESPONSE: &str = "\
--- FILE: project.md ---
# LLM Project Rules
- Generated by LLM

--- FILE: coding.md ---
# LLM Coding Guide
- LLM suggestions

--- FILE: commit.md ---
# LLM Commit Convention
- LLM format

--- FILE: testing.md ---
# LLM Testing Rules
- LLM test approach";

#[test]
fn llm_bootstrap_writes_generated_files() {
    let mut disk = Disk::new();
    let result = disk.run_with_llm(false, &reply(LLM_RESPONSE));

    assert!(result.llm_generated);
    assert_eq!(result.written.len(), 4);
    assert!(result.skipped.is_empty());
    assert!(disk.rule("project.md").contains("LLM Project Rules"));
}

#[test]
fn llm_bootstrap_falls_back_on_failure() {
    let mut disk = Disk::new();
    let result = disk.run_with_llm(false, &failing());

    // Should fall back to static templates.
    assert!(!result.llm_generated);
    assert_eq!(result.written.len(), 4);
    assert_eq!(disk.rule("project.md"), default_project_md());
}

#[test]
fn llm_bootstrap_prompt_contains_project_info() {
    let info = ProjectInfo {
        name: "belt".to_string(),
        language: "Rust".to_string(),
        framework: "tokio".to_string(),
        description: "CI automation".to_string(),
    };
    let prompt = build_llm_prompt(&info);
    assert!(prompt.contains("belt"));
    assert!(prompt.contains("Rust"));
    assert!(prompt.contains("tokio"));
    assert!(prompt.contains("CI automation"));

    // An empty reply leaves the static templates.
    let mut disk = Disk::new();
    let result = disk.run_with_llm(false, &reply(""));
    assert!(!result.llm_generated);
    assert_eq!(result.written.len(), 4);
}

#[test]
fn llm_bootstrap_falls_back_on_blank_output() {
    let mut disk = Disk::new();
    let result = disk.run_with_llm(false, &reply(" \n "));
    assert!(!result.llm_generated);
    assert_eq!(disk.rule("testing.md"), default_testing_md());
}

#[test]
fn llm_bootstrap_respects_force_flag() {
    let mut disk = Disk::new();

    // First run with static templates.
    disk.run(false);

    // Second run with LLM and force.
    let text = "\
--- FILE: project.md ---
# Overwritten by LLM

--- FILE: coding.md ---
# LLM Coding

--- FILE: commit.md ---
# LLM Commit

--- FILE: testing.md ---
# LLM Testing";
    let result = disk.run_with_llm(true, &reply(text));

    assert!(result.llm_generated);
    assert_eq!(result.written.len(), 4);
    assert!(result.skipped.is_empty());
    assert!(disk.rule("project.md").contains("Overwritten by LLM"));
}

#[test]
fn llm_bootstrap_preserves_existing_without_force() {
    let mut disk = Disk::new();

    // First run with static templates.
    disk.run(false);

    let result = disk.run_with_llm(false, &reply(LLM_RESPONSE));

    assert!(result.llm_generated);
    assert_eq!(result.skipped.len(), 4);
    assert!(result.written.is_empty());

    // Content should still be the original static template.
    assert_eq!(disk.rule("project.md"), default_project_md());
}

#[test]
fn interactive_bootstrap_approved_writes_files() {
    let mut disk = Disk::new();
    let text = "\
--- FILE: project.md ---
# Interactive Project Rules
- Approved by user

--- FILE: coding.md ---
# Interactive Coding Guide

--- FILE: commit.md ---
# Interactive Commit Rules

--- FILE: testing.md ---
# Interactive Testing Rules";
    let result = disk.review(&reply(text), ReviewDecision::Approved);

    assert!(result.llm_generated);
    assert_eq!(result.written.len(), 4);
    assert!(result.pr_url.is_none());
    assert!(disk.rule("project.md").contains("Interactive Project Rules"));
}

#[test]
fn interactive_bootstrap_rejected_writes_nothing() {
    let mut disk = Disk::new();
    let result = disk.review(&reply(LLM_RESPONSE), ReviewDecision::Rejected);

    assert!(result.llm_generated);
    assert!(result.written.is_empty());
    assert!(result.skipped.is_empty());
    assert!(result.pr_url.is_none());

    // No files should have been created.
    assert!(disk.files.is_empty());
}

#[test]
fn interactive_bootstrap_falls_back_on_llm_failure() {
    let mut disk = Disk::new();
    let result = disk.review(&failing(), ReviewDecision::Rejected);

    // Should fall back to static templates, whatever the decision.
    assert!(!result.llm_generated);
    assert_eq!(result.written.len(), 4);
}

#[test]
fn interactive_bootstrap_confirm_receives_generated_files() {
    let text = "\
--- FILE: project.md ---
# Verify Content

--- FILE: coding.md ---
# Coding Content

--- FILE: commit.md ---
# Commit Content

--- FILE: testing.md ---
# Testing Content";
    let files = planned_files(&reply(text));
    assert_eq!(files.len(), 4);
    assert_eq!(files[0].name, "project.md");
    assert!(files[0].content.contains("Verify Content"));
}

#[test]
fn review_decision_equality() {
    assert_eq!(ReviewDecision::Approved, ReviewDecision::Approved);
    assert_eq!(ReviewDecision::Rejected, ReviewDecision::Rejected);
    assert_ne!(ReviewDecision::Approved, ReviewDecision::Rejected);
}

#[test]
fn bootstrap_result_has_pr_url_field() {
    let result = BootstrapResult {
        rules_dir: "/tmp/test".to_string(),
        written: Vec::new(),
        skipped: Vec::new(),
        llm_generated: false,
        pr_url: Some("https://github.com/test/pr/1".to_string()),
    };
    assert_eq!(result.pr_url.as_deref(), Some("https://github.com/test/pr/1"));
}

#[test]
fn review_accepts_yes_and_nothing() {
    assert_eq!(prompt_user_review(Some("")), ReviewDecision::Approved);
    assert_eq!(prompt_user_review(Some(" Y \n")), ReviewDecision::Approved);
    assert_eq!(prompt_user_review(Some("YES")), ReviewDecision::Approved);
    assert_eq!(prompt_user_review(Some("no")), ReviewDecision::Rejected);
    assert_eq!(prompt_user_review(None), ReviewDecision::Rejected);
}

#[test]
fn review_shows_twenty_lines() {
    let content: Vec<String> = (1..=23).map(|i| format!("line {i}")).collect();
    let files = vec![
        RuleFile { name: "a.md".to_string(), content: content.join("\n") },
        RuleFile { name: "b.md".to_string(), content: "one".to_string() },
    ];
    let shown: Vec<String> = (1..=20).map(|i| format!("  line {i}\n")).collect();
    let expected = format!(
        "\n--- Generated Convention Files ---\n\n=== a.md ===\n{}  ... (3 more lines)\n\n=== b.md ===\n  one\n\nAccept these conventions? [Y/n] ",
        shown.concat()
    );
    assert_eq!(write_review(&files), expected);
}

#[test]
fn bootstrap_result_is_told() {
    let result = BootstrapResult {
        rules_dir: "/r".to_string(),
        written: vec![NewFile { path: "/r/a".to_string(), content: String::new() }],
        skipped: vec!["/r/b".to_string()],
        llm_generated: true,
        pr_url: None,
    };
    assert_eq!(
        result_message(&result),
        "  created: /r/a\n  skipped: /r/b\n  (generated by LLM)\n"
    );
    assert!(wants_pr(true, &result));
    assert!(!wants_pr(false, &result));
    let fallback = BootstrapResult { llm_generated: false, ..result };
    assert!(!wants_pr(true, &fallback));
    let nothing = BootstrapResult { llm_generated: true, written: Vec::new(), ..fallback };
    assert!(!wants_pr(true, &nothing));
}

fn output(success: bool, stdout: &str, stderr: &str) -> Option<CommandOutput> {
    Some(CommandOutput {
        success,
        status: String::new(),
        exit_code: 0,
        stdout: stdout.to_string(),
        stderr: stderr.to_string(),
    })
}

#[test]
fn pull_request_takes_five_commands() {
    let mut last = None;
    let mut lines = Vec::new();
    for n in 0..5 {
        match create_bootstrap_pr(42, n, &last, &helper()) {
            PrStep::Run { program, args } => lines.push(format!("{program} {}", args.join(" "))),
            _ => panic!("expected a command"),
        }
        last = output(true, " https://github.com/o/r/pull/7 \n", "");
    }
    assert_eq!(lines[0], "git checkout -b bootstrap/42");
    assert_eq!(lines[1], "git add .helper/rules/");
    assert!(lines[2].starts_with("git commit -m chore(bootstrap): generate conventions\n\n"));
    assert_eq!(lines[3], "git push -u origin bootstrap/42");
    assert!(lines[4].starts_with("gh pr create --title chore: add convention.yaml --body "));
    match create_bootstrap_pr(42, 5, &last, &helper()) {
        PrStep::Done(url) => assert_eq!(url, "https://github.com/o/r/pull/7"),
        _ => panic!("expected the URL"),
    }
}

#[test]
fn pull_request_stops_at_a_failure() {
    match create_bootstrap_pr(1, 2, &output(false, "", " nothing to add\n"), &helper()) {
        PrStep::Failed(e) => assert_eq!(e, "git add .helper/rules/ failed: nothing to add"),
        _ => panic!("expected a failure"),
    }
    match create_bootstrap_pr(1, 5, &output(false, "", "no token"), &helper()) {
        PrStep::Failed(e) => assert_eq!(e, "gh pr create failed: no token"),
        _ => panic!("expected a failure"),
    }
}
