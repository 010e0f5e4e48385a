//! The `/agent` slash command plugin, and the context that it collects.

use vstd::prelude::*;

use crate::assistant::plugin_part;
use crate::assistant::product;
use crate::assistant::settings_dir;
use crate::assistant::Assistant;
use crate::files::file_views;
use crate::files::new_file;
use crate::files::FileView;
use crate::files::NewFile;
use crate::paths::path_in;
use crate::paths::under;
use crate::pieces::group_holds;
use crate::pieces::holds;
use crate::process::CommandOutput;
use crate::scan::join;
use crate::scan::joined;
use crate::scan::law_a_joined_text_holds_its_parts;
use crate::scan::trim;
use crate::scan::trimmed;
use crate::text::cat2;
use crate::text::cat5;
use crate::text::texts;

verus! {

/// The description of the plugin.
pub const PLUGIN_JSON: &'static str = r#"{
  "author": {
    "name": "belt"
  },
  "commands": [
    "./commands/agent.md"
  ],
  "description": "Belt agent natural language interface for conveyor belt management",
  "name": "belt-agent",
  "version": "0.1.0"
}
"#;

/// The definition of the `/agent` slash command.
pub const AGENT_COMMAND_MD: &'static str = r#"---
description: Belt agent natural language interface for autonomous development management
argument-hint: "[natural language instruction]"
allowed-tools: ["Bash", "Read", "Glob", "Grep"]
---

# /agent - Belt Natural Language Agent

Manages the belt conveyor system through natural language instructions.
Collects system context automatically and delegates tasks to the belt agent.

## Auto Context Collection

Before processing the user's request, ALWAYS collect current system context
by running these commands in parallel:

```bash
belt status --format json
belt hitl list --format json
belt queue list --format json
```

Parse the JSON output to understand:
- Overall system health and item counts by phase
- HITL items awaiting human review (highest priority)
- Queue items and their current states

## Processing User Input

After collecting context, process the user's natural language input:

1. **Direct belt commands**: If the user asks to perform a specific belt operation
   (e.g., "mark item X as done", "show queue", "approve HITL item Y"), translate
   to the appropriate belt CLI command and execute via Bash.

2. **Status queries**: If the user asks about system state, use the collected
   context to answer directly.

3. **Complex tasks**: For multi-step operations or analysis requests, break down
   into individual belt CLI calls and execute sequentially.

4. **Agent session management**: For workspace management tasks, use
   `belt agent init`, `belt agent rules`, or `belt agent session` as appropriate.

## Available Belt Commands

### System Status
- `belt status` -- Show overall system status
- `belt status --format json` -- Machine-readable status

### Queue Management
- `belt queue list` -- List all queue items
- `belt queue list --phase <phase>` -- Filter by phase
- `belt queue show <work_id>` -- Show item details
- `belt queue done <work_id>` -- Mark item as completed
- `belt queue skip <work_id>` -- Skip an item

### HITL (Human-in-the-Loop)
- `belt hitl list` -- List HITL items
- `belt hitl show <item_id>` -- Show HITL item details
- `belt hitl respond <item_id> --action <done|retry|skip|replan>` -- Respond

### Agent Workspace
- `belt agent init` -- Initialize agent workspace
- `belt agent rules` -- List policy rules
- `belt agent session` -- Run LLM agent session

## Response Format

Always structure responses as:
1. **Context Summary**: Brief summary of current system state (from auto-collected data)
2. **Action Taken**: What commands were executed and their results
3. **Recommendations**: Any suggested next steps based on the current state

## Important

- ALWAYS collect context first before responding
- For destructive operations (done, skip, replan), confirm with the user first
- When in doubt, escalate to HITL (safe default)
- Use `--format json` for programmatic parsing of belt command output
"#;

/// The content of `plugin.json`.
pub fn plugin_json() -> (r: &'static str)
    ensures
        r@ == PLUGIN_JSON@,
{
    PLUGIN_JSON
}

/// The markdown of the `/agent` slash command.
///
/// The command collects the system context of the belt, and forwards natural
/// language input to the agent session.
pub fn agent_command_md() -> (r: &'static str)
    ensures
        r@ == AGENT_COMMAND_MD@,
{
    AGENT_COMMAND_MD
}

/// The directories and files of a plugin.
#[derive(Debug)]
pub struct PluginPlan {
    pub plugin_dir: String,
    pub dirs: Vec<String>,
    pub files: Vec<NewFile>,
}

/// Installs the `/agent` slash command plugin.
///
/// Plans the plugin structure under `install_dir`:
/// ```text
/// {install_dir}/belt-agent/
/// ├── .{assistant}-plugin/
/// │   └── plugin.json
/// └── commands/
///     └── agent.md
/// ```
pub fn install_plugin(install_dir: &str, assistant: &Assistant) -> (r: PluginPlan)
    ensures
        r.plugin_dir@ == path_in(install_dir@, "belt-agent"@),
        texts(r.dirs@) == seq![
            path_in(path_in(install_dir@, "belt-agent"@), plugin_part(assistant.name@)),
            path_in(path_in(install_dir@, "belt-agent"@), "commands"@),
        ],
        file_views(r.files@) == seq![
            FileView {
                path: path_in(
                    path_in(path_in(install_dir@, "belt-agent"@), plugin_part(assistant.name@)),
                    "plugin.json"@,
                ),
                content: PLUGIN_JSON@,
            },
            FileView {
                path: path_in(
                    path_in(path_in(install_dir@, "belt-agent"@), "commands"@),
                    "agent.md"@,
                ),
                content: AGENT_COMMAND_MD@,
            },
        ],
{
    let plugin_dir = under(install_dir, "belt-agent");
    let part = assistant.plugin_part();
    let settings = under(plugin_dir.as_str(), part.as_str());
    let commands = under(plugin_dir.as_str(), "commands");
    let mut files: Vec<NewFile> = Vec::new();
    files.push(new_file(under(settings.as_str(), "plugin.json"), plugin_json()));
    files.push(new_file(under(commands.as_str(), "agent.md"), agent_command_md()));
    let mut dirs: Vec<String> = Vec::new();
    dirs.push(settings);
    dirs.push(commands);
    proof {
        assert(texts(dirs@) =~= seq![
            path_in(path_in(install_dir@, "belt-agent"@), plugin_part(assistant.name@)),
            path_in(path_in(install_dir@, "belt-agent"@), "commands"@),
        ]);
        assert(file_views(files@) =~= seq![
            FileView {
                path: path_in(
                    path_in(path_in(install_dir@, "belt-agent"@), plugin_part(assistant.name@)),
                    "plugin.json"@,
                ),
                content: PLUGIN_JSON@,
            },
            FileView {
                path: path_in(
                    path_in(path_in(install_dir@, "belt-agent"@), "commands"@),
                    "agent.md"@,
                ),
                content: AGENT_COMMAND_MD@,
            },
        ]);
    }
    PluginPlan { plugin_dir, dirs, files }
}

/// The default plugin installation directory: that of the assistant's commands
/// below the home directory.
pub fn default_install_dir(home: &Option<String>, assistant: &Assistant) -> (r: Result<String, String>)
    ensures
        home matches Some(h) ==> r is Ok && r->Ok_0@ == path_in(
            path_in(h@, settings_dir(assistant.name@)),
            "commands"@,
        ),
        home is None ==> r is Err && r->Err_0@ == "could not determine home directory"@,
{
    match home {
        Some(h) => {
            let dir = assistant.settings_dir();
            let settings = under(h.as_str(), dir.as_str());
            Ok(under(settings.as_str(), "commands"))
        },
        None => Err("could not determine home directory".to_string()),
    }
}

/// What is told of an installation.
pub fn installed_message(plugin_dir: &str, assistant: &Assistant) -> (r: String)
    ensures
        r@ == "Installed /claw slash command plugin to: "@ + plugin_dir@
            + "\nRestart "@ + product(assistant.name@) + " to activate the /claw command.\n"@,
{
    let product = assistant.product();
    crate::text::cat5(
        "Installed /claw slash command plugin to: ",
        plugin_dir,
        "\nRestart ",
        product.as_str(),
        " to activate the /claw command.\n",
    )
}

// ---------------------------------------------------------------------------
// Context
// ---------------------------------------------------------------------------

/// The arguments of the commands whose output makes up the context.
pub open spec fn context_arguments() -> Seq<Seq<Seq<char>>> {
    seq![
        seq!["status"@, "--format"@, "json"@],
        seq!["hitl"@, "list"@, "--format"@, "json"@],
        seq!["queue"@, "list"@, "--format"@, "json"@],
    ]
}

/// The titles of the parts of the context.
pub open spec fn context_label(i: int) -> Seq<char> {
    if i == 0 {
        "System Status"@
    } else if i == 1 {
        "HITL Items"@
    } else {
        "Queue Items"@
    }
}

/// The arguments of the command for part `i` of the context.
pub fn context_command(i: usize) -> (r: Vec<String>)
    requires
        i < 3,
    ensures
        texts(r@) == context_arguments()[i as int],
{
    let mut args: Vec<String> = Vec::new();
    if i == 0 {
        args.push("status".to_string());
    } else if i == 1 {
        args.push("hitl".to_string());
        args.push("list".to_string());
    } else {
        args.push("queue".to_string());
        args.push("list".to_string());
    }
    args.push("--format".to_string());
    args.push("json".to_string());
    proof {
        assert(texts(args@) =~= context_arguments()[i as int]);
    }
    args
}

/// What a command of the belt printed, without white space around it, if it
/// succeeded.
pub open spec fn command_text(run: Option<CommandOutput>) -> Option<Seq<char>> {
    match run {
        Some(output) => if output.success {
            Some(trim(output.stdout@))
        } else {
            None
        },
        None => None,
    }
}

/// What a command of the belt printed, if it ran and succeeded.
pub fn run_belt_cmd(run: &Option<CommandOutput>) -> (r: Option<String>)
    ensures
        crate::text::opt_text(r) == command_text(*run),
{
    match run {
        Some(output) => if output.success {
            Some(trimmed(output.stdout.as_str()))
        } else {
            None
        },
        None => None,
    }
}

/// One part of the context.
pub open spec fn section(label: Seq<char>, text: Seq<char>) -> Seq<char> {
    "## "@ + label + "\n```json\n"@ + text + "\n```"@
}

/// The first `n` parts of the context, without those whose command failed.
pub open spec fn sections(runs: Seq<Option<CommandOutput>>, n: nat) -> Seq<Seq<char>>
    decreases n,
{
    if n == 0 {
        seq![]
    } else {
        match command_text(runs[n - 1]) {
            Some(text) => sections(runs, (n - 1) as nat).push(section(context_label(n - 1), text)),
            None => sections(runs, (n - 1) as nat),
        }
    }
}

/// The context, or a note that there is none.
pub open spec fn context_text(runs: Seq<Option<CommandOutput>>) -> Seq<char> {
    let parts = sections(runs, 3);
    if parts.len() == 0 {
        "No belt context available (belt CLI not found or database unavailable)."@
    } else {
        "# Belt System Context\n\n"@ + join(parts, "\n\n"@)
    }
}

/// Formats the context from the outputs of the three context commands: status,
/// HITL items, and queue list. A command that failed is left out.
pub fn collect_cli_context(runs: &Vec<Option<CommandOutput>>) -> (r: String)
    requires
        runs.len() == 3,
    ensures
        r@ == context_text(runs@),
{
    let mut parts: Vec<String> = Vec::new();
    let mut i: usize = 0;
    proof {
        assert(texts(parts@) =~= sections(runs@, 0));
    }
    while i < 3
        invariant
            i <= 3,
            runs.len() == 3,
            texts(parts@) == sections(runs@, i as nat),
        decreases 3 - i,
    {
        let ghost before = parts@;
        let label = if i == 0 {
            "System Status"
        } else if i == 1 {
            "HITL Items"
        } else {
            "Queue Items"
        };
        match run_belt_cmd(&runs[i]) {
            Some(out) => {
                let part = cat5("## ", label, "\n```json\n", out.as_str(), "\n```");
                parts.push(part);
                proof {
                    assert(texts(parts@) =~= texts(before).push(part@));
                }
            },
            None => {},
        }
        i = i + 1;
    }
    if parts.len() == 0 {
        "No belt context available (belt CLI not found or database unavailable).".to_string()
    } else {
        let body = joined(&parts, "\n\n");
        cat2("# Belt System Context\n\n", body.as_str())
    }
}

// ---------------------------------------------------------------------------
// Laws
// ---------------------------------------------------------------------------

/// What a command printed counts only where it succeeded, without the blanks
/// around it.
pub proof fn law_only_good_commands_count(output: CommandOutput)
    ensures
        command_text(None) is None,
        !output.success ==> command_text(Some(output)) is None,
        output.success ==> command_text(Some(output)) == Some(trim(output.stdout@)),
{
}

proof fn lemma_section_is_there(runs: Seq<Option<CommandOutput>>, n: nat, i: int)
    requires
        0 <= i < n <= runs.len(),
        runs[i] matches Some(output) && output.success,
    ensures
        sections(runs, n).contains(section(context_label(i), trim(runs[i].unwrap().stdout@))),
    decreases n,
{
    let part = section(context_label(i), trim(runs[i].unwrap().stdout@));
    if i < n - 1 {
        lemma_section_is_there(runs, (n - 1) as nat, i);
        let before = sections(runs, (n - 1) as nat);
        let k = choose|k: int| 0 <= k < before.len() && before[k] == part;
        assert(sections(runs, n)[k] == part);
    } else {
        let all = sections(runs, n);
        assert(all[all.len() - 1] == part);
    }
}

/// What every good command printed is part of the context, whole and under its
/// label.
pub proof fn law_every_good_command_is_in_the_context(runs: Seq<Option<CommandOutput>>, i: int)
    requires
        runs.len() == 3,
        0 <= i < 3,
        runs[i] matches Some(output) && output.success,
    ensures
        holds(
            context_text(runs),
            "## "@ + context_label(i) + "\n```json\n"@ + trim(runs[i].unwrap().stdout@) + "\n```"@,
        ),
{
    broadcast use group_holds;

    let part = section(context_label(i), trim(runs[i].unwrap().stdout@));
    lemma_section_is_there(runs, 3, i);
    let all = sections(runs, 3);
    let k = choose|k: int| 0 <= k < all.len() && all[k] == part;
    law_a_joined_text_holds_its_parts(all, "\n\n"@, k);
}

/// Where no command succeeded, the context says so.
pub proof fn law_no_context_is_told(runs: Seq<Option<CommandOutput>>)
    requires
        runs.len() == 3,
        forall|i: int| 0 <= i < 3 ==> command_text(#[trigger] runs[i]) is None,
    ensures
        context_text(runs)
            == "No belt context available (belt CLI not found or database unavailable)."@,
{
    assert(command_text(runs[0]) is None);
    assert(command_text(runs[1]) is None);
    assert(command_text(runs[2]) is None);
    assert(sections(runs, 0).len() == 0);
    assert(sections(runs, 1).len() == 0);
    assert(sections(runs, 2).len() == 0);
    assert(sections(runs, 3).len() == 0);
}

/// The three labels differ.
pub proof fn law_context_labels_differ()
    ensures
        context_label(0) != context_label(1),
        context_label(0) != context_label(2),
        context_label(1) != context_label(2),
{
    reveal_strlit("System Status");
    reveal_strlit("HITL Items");
    reveal_strlit("Queue Items");
    assert(context_label(0)[0] == 'S');
    assert(context_label(1)[0] == 'H');
    assert(context_label(2)[0] == 'Q');
}

/// The three commands ask for the status, the items that wait for a human and the
/// queue, each as JSON.
pub proof fn law_context_is_asked_for_as_json(i: int)
    requires
        0 <= i < 3,
    ensures
        context_arguments().len() == 3,
        context_arguments()[i].last() == "json"@,
        context_arguments()[i][context_arguments()[i].len() - 2] == "--format"@,
        context_arguments()[0][0] == "status"@,
        context_arguments()[1][0] == "hitl"@,
        context_arguments()[1][1] == "list"@,
        context_arguments()[2][0] == "queue"@,
        context_arguments()[2][1] == "list"@,
{
}

} // verus!
