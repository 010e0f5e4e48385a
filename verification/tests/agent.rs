use belt_cli::assistant::Assistant;
use belt_cli::agent::agent_outcome;
use belt_cli::agent::agent_step;
use belt_cli::agent::build_agent_prompt;
use belt_cli::agent::build_claw_rules_prompt;
use belt_cli::agent::build_registry;
use belt_cli::agent::collect_actions;
use belt_cli::agent::config_fault;
use belt_cli::agent::load_rules_from_dir;
use belt_cli::agent::print_plan;
use belt_cli::agent::required_workspace;
use belt_cli::agent::resolve_rules_dir;
use belt_cli::agent::rule_files;
use belt_cli::agent::rules_candidates;
use belt_cli::agent::Action;
use belt_cli::agent::ActionResult;
use belt_cli::agent::AgentConfig;
use belt_cli::agent::AgentStep;
use belt_cli::agent::DirEntry;
use belt_cli::agent::HandlerConfig;
use belt_cli::agent::RuntimeInstance;
use belt_cli::agent::SourceStates;
use belt_cli::agent::StateConfig;

fn helper() -> Assistant {
    Assistant::new("helper")
}

/// A configuration without any sources.
fn empty_workspace() -> AgentConfig {
    AgentConfig {
        name: "test-ws".to_string(),
        sources: Vec::new(),
        default_runtime: "helper".to_string(),
        runtimes: Vec::new(),
        rules_path: None,
        max_conversation_turns: None,
    }
}

/// A configuration with one source that has two states, with one and two
/// handlers.
fn workspace_with_handlers() -> AgentConfig {
    let analyze = StateConfig {
        handlers: vec![HandlerConfig::Prompt {
            prompt: "analyze the issue".to_string(),
            runtime: None,
            model: None,
        }],
    };
    let implement = StateConfig {
        handlers: vec![
            HandlerConfig::Prompt {
                prompt: "implement the feature".to_string(),
                runtime: Some("helper".to_string()),
                model: Some("sonnet".to_string()),
            },
            HandlerConfig::Script { script: "cargo test".to_string() },
        ],
    };
    let mut config = empty_workspace();
    config.name = "my-workspace".to_string();
    config.sources = vec![SourceStates { states: vec![analyze, implement] }];
    config
}

fn file(name: &str) -> DirEntry {
    DirEntry { name: name.to_string(), is_file: true }
}

fn load(dir: &str, entries: &[(&str, &str)]) -> Result<Option<String>, String> {
    let listing: Vec<DirEntry> = entries.iter().map(|(n, _)| file(n)).collect();
    let names = rule_files(&listing);
    let contents: Vec<Option<String>> = names
        .iter()
        .map(|n| entries.iter().find(|(m, _)| m == n).map(|(_, c)| c.to_string()))
        .collect();
    load_rules_from_dir(dir, &names, &contents)
}

#[test]
fn collect_actions_with_prompt_override_returns_single_action() {
    let config = workspace_with_handlers();
    let actions = collect_actions(&config, Some("do something"));
    assert_eq!(actions.len(), 1);
    assert!(actions[0].is_prompt());
    match &actions[0] {
        Action::Prompt { text, runtime, model } => {
            assert_eq!(text, "do something");
            assert!(runtime.is_none());
            assert!(model.is_none());
        }
        _ => panic!("expected Prompt action"),
    }
}

#[test]
fn collect_actions_without_override_collects_all_handlers() {
    let config = workspace_with_handlers();
    // 3 handlers across two states: 1 (analyze) + 2 (implement)
    let actions = collect_actions(&config, None);
    assert_eq!(actions.len(), 3);
}

#[test]
fn collect_actions_empty_sources_returns_empty() {
    let config = empty_workspace();
    let actions = collect_actions(&config, None);
    assert!(actions.is_empty());
}

#[test]
fn collect_actions_empty_sources_with_override_returns_one() {
    let config = empty_workspace();
    let actions = collect_actions(&config, Some("override prompt"));
    assert_eq!(actions.len(), 1);
    assert!(actions[0].is_prompt());
}

#[test]
fn collect_actions_handler_types_preserved() {
    let config = workspace_with_handlers();
    let actions = collect_actions(&config, None);

    let prompt_count = actions.iter().filter(|a| a.is_prompt()).count();
    let script_count = actions.iter().filter(|a| a.is_script()).count();
    assert_eq!(prompt_count, 2);
    assert_eq!(script_count, 1);
}

#[test]
fn build_registry_uses_config_default_runtime() {
    let mut config = empty_workspace();
    config.default_runtime = "helper".to_string();
    let registry = build_registry(&config, &helper());
    assert_eq!(registry.default_name, "helper");
}

#[test]
fn build_registry_uses_model_from_config() {
    let mut config = empty_workspace();
    config.runtimes = vec![
        RuntimeInstance { name: "gemini".to_string(), model: Some("pro".to_string()) },
        RuntimeInstance { name: "helper".to_string(), model: Some("helper-sonnet-4".to_string()) },
    ];
    let registry = build_registry(&config, &helper());
    assert_eq!(registry.default_name, "helper");
    assert_eq!(registry.assistant_model.as_deref(), Some("helper-sonnet-4"));
}

#[test]
fn build_registry_without_claude_entry_still_succeeds() {
    // No "helper" key in runtimes: the model is unset.
    let config = empty_workspace();
    let registry = build_registry(&config, &helper());
    assert_eq!(registry.default_name, "helper");
    assert!(registry.assistant_model.is_none());
}

#[test]
fn load_workspace_config_missing_file_returns_error() {
    let msg = config_fault("/nonexistent/path/workspace.yaml", false);
    assert!(msg.contains("failed to read workspace config"));
    assert_eq!(msg, "failed to read workspace config: /nonexistent/path/workspace.yaml");
}

#[test]
fn load_workspace_config_invalid_yaml_returns_error() {
    let msg = config_fault("workspace.yaml", true);
    assert!(msg.contains("failed to parse workspace config"));
}

#[test]
fn load_rules_from_dir_empty_directory_returns_none() {
    let result = load("/rules", &[]).unwrap();
    assert!(result.is_none());
}

#[test]
fn load_rules_from_dir_loads_md_files_sorted() {
    let result = load(
        "/rules",
        &[
            ("b-policy.md", "Rule B content"),
            ("a-policy.md", "Rule A content"),
            ("notes.txt", "ignored"),
        ],
    )
    .unwrap()
    .unwrap();
    // a-policy.md should come before b-policy.md (sorted).
    assert!(result.contains("Rule A content"));
    assert!(result.contains("Rule B content"));
    assert!(!result.contains("ignored"));

    // Verify ordering: A before B.
    let a_pos = result.find("a-policy.md").unwrap();
    let b_pos = result.find("b-policy.md").unwrap();
    assert!(a_pos < b_pos);
}

#[test]
fn load_rules_from_dir_includes_file_headers() {
    let result = load("/rules", &[("hitl-policy.md", "HITL rules here")]).unwrap().unwrap();
    assert!(result.contains("# Rule: hitl-policy.md"));
    assert!(result.contains("HITL rules here"));
    assert_eq!(result, "# Rule: hitl-policy.md\n\nHITL rules here");
}

#[test]
fn load_rules_from_dir_only_non_md_files_returns_none() {
    let result = load("/rules", &[("readme.txt", "text file"), ("config.yaml", "yaml: true")]);
    assert!(result.unwrap().is_none());
}

#[test]
fn load_rules_from_dir_multiple_files_separated_by_divider() {
    let result = load("/rules", &[("01-first.md", "First rule"), ("02-second.md", "Second rule")])
        .unwrap()
        .unwrap();
    // Files are joined with "---" separator.
    assert!(result.contains("---"));
    // Verify the exact separator format.
    assert!(result.contains("\n\n---\n\n"));
}

#[test]
fn load_rules_from_dir_single_file_has_no_separator() {
    let result = load("/rules", &[("only-rule.md", "Single rule")]).unwrap().unwrap();
    assert!(!result.contains("---"));
    assert!(result.contains("# Rule: only-rule.md"));
    assert!(result.contains("Single rule"));
}

#[test]
fn unreadable_rule_file_is_named() {
    let names = vec!["a.md".to_string(), "b.md".to_string()];
    let contents = vec![Some("x".to_string()), None];
    let e = load_rules_from_dir("/rules", &names, &contents).unwrap_err();
    assert_eq!(e, "failed to read rule file: /rules/b.md");
}

#[test]
fn rule_files_are_markdown_files_alone() {
    let entries = vec![
        file("z.md"),
        file(".md"),
        file("a.MD"),
        DirEntry { name: "dir.md".to_string(), is_file: false },
        file("m.md"),
    ];
    assert_eq!(rule_files(&entries), vec!["m.md".to_string(), "z.md".to_string()]);
}

#[test]
fn resolve_rules_dir_explicit_path_takes_priority() {
    let mut config = empty_workspace();
    config.rules_path = Some("/tmp/custom-rules".to_string());
    let candidates = rules_candidates(&config, &None, &helper());
    let resolved = resolve_rules_dir(&candidates, &vec![true]);
    assert_eq!(resolved, Some("/tmp/custom-rules".to_string()));
}

#[test]
fn resolve_rules_dir_returns_none_when_no_dirs_exist() {
    let config = empty_workspace();
    let candidates = rules_candidates(&config, &None, &helper());
    assert!(candidates.is_empty());
    assert_eq!(resolve_rules_dir(&candidates, &Vec::new()), None);
}

#[test]
fn resolve_rules_dir_skips_nonexistent_explicit_path() {
    let mut config = empty_workspace();
    config.rules_path = Some("/nonexistent/rules/dir".to_string());
    let candidates = rules_candidates(&config, &Some("/h/.belt".to_string()), &helper());
    let resolved = resolve_rules_dir(&candidates, &vec![false, false, true]);
    assert_eq!(resolved, Some("/h/.belt/claw-workspace/.helper/rules".to_string()));
}

#[test]
fn resolve_rules_dir_falls_back_to_per_workspace_claw_dir() {
    let config = empty_workspace();
    let candidates = rules_candidates(&config, &Some("/h".to_string()), &helper());
    let resolved = resolve_rules_dir(&candidates, &vec![true, false]);
    assert_eq!(resolved, Some("/h/workspaces/test-ws/claw/system".to_string()));
}

#[test]
fn resolve_rules_dir_falls_back_to_global_claw_workspace() {
    let config = empty_workspace();
    let candidates = rules_candidates(&config, &Some("/h".to_string()), &helper());
    let resolved = resolve_rules_dir(&candidates, &vec![false, true]);
    assert_eq!(resolved, Some("/h/claw-workspace/.helper/rules".to_string()));
}

#[test]
fn resolve_rules_dir_per_workspace_takes_priority_over_global() {
    let config = empty_workspace();
    let candidates = rules_candidates(&config, &Some("/h".to_string()), &helper());
    let resolved = resolve_rules_dir(&candidates, &vec![true, true]);
    // Per-workspace should win over global.
    assert_eq!(resolved, Some("/h/workspaces/test-ws/claw/system".to_string()));
}

#[test]
fn resolve_rules_dir_explicit_path_takes_priority_over_belt_home() {
    let mut config = empty_workspace();
    config.rules_path = Some("/tmp/explicit-rules".to_string());
    let candidates = rules_candidates(&config, &Some("/h".to_string()), &helper());
    let resolved = resolve_rules_dir(&candidates, &vec![true, true, false]);
    assert_eq!(resolved, Some("/tmp/explicit-rules".to_string()));
}

#[test]
fn workspace_rules_injected_into_action_env() {
    let prompt = load("/rules", &[("policy.md", "Always be safe")]).unwrap().unwrap();
    assert!(prompt.contains("Always be safe"));
    assert!(prompt.contains("# Rule: policy.md"));
}

#[test]
fn workspace_rules_with_multiple_files_injected_as_single_prompt() {
    let prompt =
        load("/rules", &[("01-safety.md", "Safety first"), ("02-style.md", "Use Rust idioms")])
            .unwrap()
            .unwrap();
    // Both rules should be in the single system prompt.
    assert!(prompt.contains("Safety first"));
    assert!(prompt.contains("Use Rust idioms"));
    // Proper ordering.
    assert!(prompt.find("Safety first").unwrap() < prompt.find("Use Rust idioms").unwrap());
}

#[test]
fn build_claw_rules_prompt_uses_default_turn_limit() {
    let prompt = build_claw_rules_prompt(None);
    assert!(prompt.contains("Maximum conversation turns per session: 10"));
}

#[test]
fn build_claw_rules_prompt_uses_custom_turn_limit() {
    let prompt = build_claw_rules_prompt(Some(25));
    assert!(prompt.contains("Maximum conversation turns per session: 25"));
    assert!(!prompt.contains("session: 10"));
}

#[test]
fn build_claw_rules_prompt_contains_response_format_section() {
    let prompt = build_claw_rules_prompt(None);
    assert!(prompt.contains("## Response Format"));
    assert!(prompt.contains("JSON"));
    assert!(prompt.contains("Markdown"));
}

#[test]
fn build_claw_rules_prompt_contains_error_handling_section() {
    let prompt = build_claw_rules_prompt(None);
    assert!(prompt.contains("## Error Handling"));
    assert!(prompt.contains("retry up to 3 times"));
    assert!(prompt.contains("exponential backoff"));
}

#[test]
fn build_claw_rules_prompt_contains_all_sections() {
    let prompt = build_claw_rules_prompt(None);
    assert!(prompt.contains("# Claw Agent Rules"));
    assert!(prompt.contains("## Conversation Turn Limit"));
    assert!(prompt.contains("## Response Format"));
    assert!(prompt.contains("## Error Handling"));
}

#[test]
fn claw_rules_injected_without_file_rules() {
    let config = empty_workspace();
    let prompt = build_agent_prompt(config.max_conversation_turns, &None);
    assert!(prompt.contains("# Claw Agent Rules"));
    assert!(prompt.contains("Maximum conversation turns per session: 10"));
    assert_eq!(prompt, build_claw_rules_prompt(None));
}

#[test]
fn claw_rules_combined_with_file_rules() {
    let file_rules = load("/rules", &[("custom.md", "Custom workspace rule")]).unwrap();
    let system_prompt = build_agent_prompt(Some(5), &file_rules);

    // Claw rules come first.
    assert!(system_prompt.contains("# Claw Agent Rules"));
    assert!(system_prompt.contains("Maximum conversation turns per session: 5"));
    // File rules follow after separator.
    assert!(system_prompt.contains("---"));
    assert!(system_prompt.contains("Custom workspace rule"));
    // Verify ordering: claw rules before file rules.
    let claw_pos = system_prompt.find("# Claw Agent Rules").unwrap();
    let file_pos = system_prompt.find("Custom workspace rule").unwrap();
    assert!(claw_pos < file_pos);
}

#[test]
fn claw_config_max_turns_defaults_to_none() {
    let config = empty_workspace();
    assert!(config.max_conversation_turns.is_none());
    // Which results in the default of 10.
    let prompt = build_claw_rules_prompt(config.max_conversation_turns);
    assert!(prompt.contains("session: 10"));
}

#[test]
fn plan_lists_every_action() {
    let mut config = workspace_with_handlers();
    config.default_runtime = "gemini".to_string();
    let mut actions = collect_actions(&config, None);
    actions.push(Action::Script { command: "x".repeat(81) });
    let text = print_plan(&config, &actions, &None);
    let expected = format!(
        "Plan for workspace: my-workspace\nDefault runtime: gemini\nRules directory: (none)\nActions (4):\n  1. [prompt] runtime=gemini model=default\n     analyze the issue\n  2. [prompt] runtime=helper model=sonnet\n     implement the feature\n  3. [script] cargo test\n  4. [script] {}...\n",
        "x".repeat(77)
    );
    assert_eq!(text, expected);
    let with_dir = print_plan(&config, &actions, &Some("/r".to_string()));
    assert!(with_dir.contains("Rules directory: /r\n"));
}

#[test]
fn agent_needs_a_workspace_and_actions() {
    assert_eq!(required_workspace(None).unwrap_err(), "--workspace is required");
    assert_eq!(required_workspace(Some("w.yaml".to_string())).unwrap(), "w.yaml");
    assert_eq!(
        agent_step(&Vec::new(), true).unwrap_err(),
        "no actions found in workspace config"
    );
    let actions = collect_actions(&empty_workspace(), Some("go"));
    assert_eq!(agent_step(&actions, true).unwrap(), AgentStep::ShowPlan);
    assert_eq!(agent_step(&actions, false).unwrap(), AgentStep::Execute);
}

#[test]
fn agent_exits_like_its_last_action() {
    let result =
        ActionResult { exit_code: 3, stdout: String::new(), stderr: "bad".to_string() };
    assert_eq!(agent_outcome(&Some(result)).unwrap(), 3);
    assert_eq!(agent_outcome(&None).unwrap_err(), "no actions were executed");
}
