use std::collections::BTreeMap;

use belt_cli::assistant::Assistant;
use belt_cli::agent::DirEntry;
use belt_cli::claw::default_auto_approve_policy;
use belt_cli::claw::default_claude_md;
use belt_cli::claw::default_classify_policy;
use belt_cli::claw::default_hitl_policy;
use belt_cli::claw::editor_command;
use belt_cli::claw::editor_fault;
use belt_cli::claw::plugin::agent_command_md;
use belt_cli::claw::plugin::collect_cli_context;
use belt_cli::claw::plugin::context_command;
use belt_cli::claw::plugin::default_install_dir;
use belt_cli::claw::plugin::install_plugin;
use belt_cli::claw::plugin::installed_message;
use belt_cli::claw::plugin::plugin_json;
use belt_cli::claw::workspace_template;
use belt_cli::claw::ClawWorkspace;
use belt_cli::claw::RuleEdit;
use belt_cli::process::CommandOutput;

fn helper() -> Assistant {
    Assistant::new("helper")
}

/// A file system in memory.
struct Disk {
    dirs: Vec<String>,
    files: BTreeMap<String, String>,
}

impl Disk {
    fn new() -> Disk {
        Disk { dirs: Vec::new(), files: BTreeMap::new() }
    }

    fn init(&mut self, force: bool) -> ClawWorkspace {
        let exists: Vec<bool> = workspace_template("/b/claw-workspace", &helper())
            .iter()
            .map(|f| self.files.contains_key(&f.path))
            .collect();
        let (ws, plan) = if force {
            ClawWorkspace::init_with_options("/b", true, &exists, &helper())
        } else {
            ClawWorkspace::init("/b", &exists, &helper())
        };
        self.dirs.extend(plan.dirs);
        for f in plan.files {
            self.files.insert(f.path, f.content);
        }
        ws
    }

    fn entries(&self, dir: &str) -> Option<Vec<DirEntry>> {
        let prefix = format!("{dir}/");
        Some(
            self.files
                .keys()
                .rev()
                .filter_map(|p| p.strip_prefix(&prefix))
                .map(|n| DirEntry { name: n.to_string(), is_file: true })
                .collect(),
        )
    }
}

const RULES: &str = "/b/claw-workspace/.helper/rules";

fn created(disk: &Disk, ws: &ClawWorkspace) {
    assert_eq!(ws.path, "/b/claw-workspace");
    assert!(disk.files.contains_key("/b/claw-workspace/HELPER.md"));
    assert!(disk.files.contains_key("/b/claw-workspace/.helper/rules/classify-policy.md"));
    assert!(disk.files.contains_key("/b/claw-workspace/.helper/rules/hitl-policy.md"));
    assert!(disk.files.contains_key("/b/claw-workspace/.helper/rules/auto-approve-policy.md"));
}

#[test]
fn mod_init_creates_workspace_structure() {
    let mut disk = Disk::new();
    let ws = disk.init(false);
    created(&disk, &ws);
    assert_eq!(disk.files.len(), 4);
}

#[test]
fn claw_init_creates_workspace_structure() {
    let mut disk = Disk::new();
    let ws = disk.init(true);
    created(&disk, &ws);
}

#[test]
fn init_creates_commands_and_skills_dirs() {
    let mut disk = Disk::new();
    disk.init(false);
    assert_eq!(
        disk.dirs,
        vec![
            "/b/claw-workspace/.helper/rules".to_string(),
            "/b/claw-workspace/commands".to_string(),
            "/b/claw-workspace/skills/gap-detect".to_string(),
            "/b/claw-workspace/skills/prioritize".to_string(),
        ]
    );
}

#[test]
fn init_preserves_existing_files() {
    let mut disk = Disk::new();
    disk.init(false);

    // Modify HELPER.md after initial init.
    let custom_content = "# Custom content";
    disk.files.insert("/b/claw-workspace/HELPER.md".to_string(), custom_content.to_string());

    // Re-init without force: the custom file stays.
    disk.init(false);
    assert_eq!(disk.files["/b/claw-workspace/HELPER.md"], custom_content);
}

#[test]
fn init_force_overwrites_existing_files() {
    let mut disk = Disk::new();
    disk.init(false);

    // Modify HELPER.md after initial init.
    disk.files.insert("/b/claw-workspace/HELPER.md".to_string(), "# Custom content".to_string());

    // Re-init with force: it is overwritten.
    disk.init(true);
    assert_eq!(disk.files["/b/claw-workspace/HELPER.md"], default_claude_md());
}

#[test]
fn mod_init_is_idempotent() {
    let mut disk = Disk::new();
    let ws1 = disk.init(false);
    let files = disk.files.clone();
    let ws2 = disk.init(false);
    assert_eq!(ws1.path, ws2.path);
    assert_eq!(files, disk.files);
}

#[test]
fn claw_init_is_idempotent() {
    let mut disk = Disk::new();
    let ws1 = disk.init(true);
    let ws2 = disk.init(true);
    assert_eq!(ws1.path, ws2.path);
}

#[test]
fn mod_default_templates_are_not_empty() {
    assert!(!default_claude_md().is_empty());
    assert!(!default_classify_policy().is_empty());
    assert!(!default_hitl_policy().is_empty());
    assert!(!default_auto_approve_policy().is_empty());
}

#[test]
fn claw_default_templates_are_not_empty() {
    assert!(!default_claude_md().is_empty());
    assert!(!default_classify_policy().is_empty());
    assert!(!default_hitl_policy().is_empty());
    assert!(!default_auto_approve_policy().is_empty());
}

#[test]
fn mod_list_rules_returns_policy_files() {
    let mut disk = Disk::new();
    let ws = disk.init(false);
    let rules = ws.list_rules(&disk.entries(RULES), &helper()).unwrap();
    assert_eq!(
        rules,
        vec![
            "/b/claw-workspace/.helper/rules/auto-approve-policy.md".to_string(),
            "/b/claw-workspace/.helper/rules/classify-policy.md".to_string(),
            "/b/claw-workspace/.helper/rules/hitl-policy.md".to_string(),
        ]
    );
}

#[test]
fn claw_list_rules_returns_policy_files() {
    let mut disk = Disk::new();
    let ws = disk.init(true);
    let rules = ws.list_rules(&disk.entries(RULES), &helper()).unwrap();
    let filenames: Vec<&str> = rules.iter().filter_map(|p| p.rsplit('/').next()).collect();
    assert!(filenames.contains(&"classify-policy.md"));
    assert!(filenames.contains(&"hitl-policy.md"));
    assert!(filenames.contains(&"auto-approve-policy.md"));
    assert_eq!(filenames.len(), 3);
}

#[test]
fn mod_list_rules_fails_without_init() {
    let ws = ClawWorkspace { path: "/nonexistent/path".to_string() };
    assert!(ws.list_rules(&None, &helper()).is_err());
}

#[test]
fn claw_list_rules_fails_without_init() {
    let ws = ClawWorkspace { path: "/nonexistent/path".to_string() };
    assert_eq!(
        ws.list_rules(&None, &helper()).unwrap_err(),
        "rules directory not found: /nonexistent/path/.helper/rules"
    );
}

#[test]
fn edit_rule_none_lists_rules() {
    let mut disk = Disk::new();
    let ws = disk.init(false);
    match ws.edit_rule(None, &disk.entries(RULES), false, &helper()).unwrap() {
        RuleEdit::Show(text) => assert_eq!(
            text,
            "Available rules:\n  auto-approve-policy\n  classify-policy\n  hitl-policy\n"
        ),
        _ => panic!("expected a list"),
    }
}

#[test]
fn edit_rule_missing_file_errors() {
    let mut disk = Disk::new();
    let ws = disk.init(false);
    let result = ws.edit_rule(Some("nonexistent"), &disk.entries(RULES), false, &helper());
    assert_eq!(
        result.unwrap_err(),
        "rule file not found: /b/claw-workspace/.helper/rules/nonexistent.md"
    );
}

#[test]
fn edit_rule_opens_the_file() {
    let mut disk = Disk::new();
    let ws = disk.init(false);
    match ws.edit_rule(Some("hitl-policy"), &disk.entries(RULES), true, &helper()).unwrap() {
        RuleEdit::Open(path) => {
            assert_eq!(path, "/b/claw-workspace/.helper/rules/hitl-policy.md")
        }
        _ => panic!("expected a file"),
    }
    assert!(ws.edit_rule(Some("hitl-policy"), &None, true, &helper()).is_err());
}

#[test]
fn rule_names_lose_their_extension_alone() {
    let ws = ClawWorkspace { path: "/w".to_string() };
    let names = ["a.b.md", ".hidden", "plain", "dir.md"];
    let entries = names
        .iter()
        .map(|n| DirEntry { name: n.to_string(), is_file: *n != "dir.md" })
        .collect();
    match ws.edit_rule(None, &Some(entries), false, &helper()).unwrap() {
        RuleEdit::Show(text) => assert_eq!(text, "Available rules:\n  .hidden\n  a.b\n  plain\n"),
        _ => panic!("expected a list"),
    }
}

#[test]
fn editor_falls_back_to_vi() {
    assert_eq!(editor_command(&None), "vi");
    assert_eq!(editor_command(&Some("nano".to_string())), "nano");
    assert_eq!(editor_fault(true, "exit status: 0"), None);
    assert_eq!(
        editor_fault(false, "exit status: 1"),
        Some("editor exited with status: exit status: 1".to_string())
    );
}

#[test]
fn plugin_json_is_valid_json() {
    let parsed: serde_json::Value = serde_json::from_str(plugin_json()).unwrap();
    assert_eq!(parsed["name"], "belt-agent");
    assert_eq!(parsed["version"], "0.1.0");
    assert!(parsed["commands"].is_array());
    assert_eq!(parsed["commands"][0], "./commands/agent.md");
}

#[test]
fn agent_command_md_has_frontmatter() {
    let content = agent_command_md();
    assert!(content.starts_with("---\n"));
    assert!(content.contains("description:"));
    assert!(content.contains("argument-hint:"));
    assert!(content.contains("allowed-tools:"));
    assert!(content.contains("Bash"));
}

#[test]
fn agent_command_md_has_context_collection_instructions() {
    let content = agent_command_md();
    assert!(content.contains("belt status --format json"));
    assert!(content.contains("belt hitl list --format json"));
    assert!(content.contains("belt queue list --format json"));
}

#[test]
fn install_plugin_creates_structure() {
    let plan = install_plugin("/c", &helper());
    assert_eq!(plan.plugin_dir, "/c/belt-agent");
    assert_eq!(
        plan.dirs,
        vec!["/c/belt-agent/.helper-plugin".to_string(), "/c/belt-agent/commands".to_string()]
    );
    assert_eq!(plan.files[0].path, "/c/belt-agent/.helper-plugin/plugin.json");
    assert_eq!(plan.files[1].path, "/c/belt-agent/commands/agent.md");

    // Verify plugin.json content.
    let parsed: serde_json::Value = serde_json::from_str(&plan.files[0].content).unwrap();
    assert_eq!(parsed["name"], "belt-agent");

    // Verify agent.md has frontmatter.
    assert!(plan.files[1].content.starts_with("---\n"));
}

#[test]
fn install_plugin_is_idempotent() {
    let mut disk: BTreeMap<String, String> = BTreeMap::new();
    let mut install = || {
        let plan = install_plugin("/c", &helper());
        for f in plan.files {
            disk.insert(f.path, f.content);
        }
        (plan.plugin_dir, disk.clone())
    };
    let (path1, files1) = install();
    let (path2, files2) = install();
    assert_eq!(path1, path2);

    // Both files still exist and are valid.
    assert!(files2.contains_key(&format!("{path2}/.helper-plugin/plugin.json")));
    assert!(files2.contains_key(&format!("{path2}/commands/agent.md")));
    assert_eq!(files2.len(), 2);
    assert_eq!(files1, files2);
}

#[test]
fn default_install_dir_ends_with_commands() {
    let dir = default_install_dir(&Some("/home/u".to_string()), &helper()).unwrap();
    assert!(dir.ends_with("commands"));
    assert_eq!(dir, "/home/u/.helper/commands");
    assert_eq!(default_install_dir(&None, &helper()).unwrap_err(), "could not determine home directory");
}

#[test]
fn plugin_installation_is_told() {
    assert_eq!(
        installed_message("/c/belt-agent", &helper()),
        "Installed /claw slash command plugin to: /c/belt-agent\nRestart Helper Code to activate the /claw command.\n"
    );
}

fn output(success: bool, stdout: &str) -> Option<CommandOutput> {
    Some(CommandOutput {
        success,
        status: String::new(),
        exit_code: 0,
        stdout: stdout.to_string(),
        stderr: String::new(),
    })
}

#[test]
fn collect_cli_context_returns_fallback_when_belt_unavailable() {
    let context = collect_cli_context(&vec![None, None, None]);
    assert!(!context.is_empty());
    assert_eq!(
        context,
        "No belt context available (belt CLI not found or database unavailable)."
    );
}

#[test]
fn collect_cli_context_leaves_out_what_failed() {
    let context = collect_cli_context(&vec![output(true, " {}\n"), output(false, "x"), output(true, "[]")]);
    assert_eq!(
        context,
        "# Belt System Context\n\n## System Status\n```json\n{}\n```\n\n## Queue Items\n```json\n[]\n```"
    );
    assert_eq!(context_command(0).join(" "), "status --format json");
    assert_eq!(context_command(1).join(" "), "hitl list --format json");
    assert_eq!(context_command(2).join(" "), "queue list --format json");
}
