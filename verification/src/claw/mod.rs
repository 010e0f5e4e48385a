//! The workspace of the interactive agent: its files and its rules.

use vstd::prelude::*;

use crate::assistant::guide_part;
use crate::assistant::rules_part;
use crate::assistant::Assistant;
use crate::agent::sorted_names;
use crate::agent::sorts;
use crate::agent::DirEntry;
use crate::files::choose_files;
use crate::files::chosen;
use crate::files::distinct_paths;
use crate::files::file_views;
use crate::files::new_file;
use crate::files::FileView;
use crate::files::NewFile;
use crate::paths::path_in;
use crate::paths::under;
use crate::pieces::group_holds;
use crate::pieces::holds;
use crate::text::cat2;
use crate::text::cat3;
use crate::text::chars_of;
use crate::text::string_of;
use crate::text::texts;

pub mod plugin;
pub mod session;
pub mod slash;

verus! {

// ---------------------------------------------------------------------------
// Templates
// ---------------------------------------------------------------------------

/// The guide to the commands of the belt.
pub const GUIDE_MD: &'static str = r#"# Belt Claw Workspace

## Available Belt Commands

### System Status
- `belt status` — Show overall system status
- `belt status --format json` — Machine-readable status output

### Queue Management
- `belt queue list` — List all queue items
- `belt queue list --phase <phase>` — Filter items by phase
- `belt queue list --workspace <name>` — Filter items by workspace
- `belt queue show <work_id>` — Show details for a specific item
- `belt queue done <work_id>` — Mark an item as completed
- `belt queue hitl <work_id> --reason "<reason>"` — Escalate to human-in-the-loop
- `belt queue skip <work_id>` — Skip an item

### Workspace Management
- `belt workspace list` — List registered workspaces
- `belt workspace show <name>` — Show workspace details
- `belt workspace add --config <path>` — Register a new workspace

### Context
- `belt context <work_id>` — Retrieve item context
- `belt context <work_id> --json` — Retrieve context as JSON

## Workflow
1. Check system status with `belt status`
2. Review queue items with `belt queue list`
3. For each item, retrieve context and apply classification rules
4. Items that pass auto-approve policy proceed automatically
5. Items matching HITL policy are escalated for human review
"#;

/// The policy by which queue items are classified.
pub const CLASSIFY_POLICY: &'static str = r#"# Classification Policy

## Purpose
Classify incoming queue items into categories for routing.

## Default Rules
- Items with unknown data sources → HITL
- Items matching a registered workspace pattern → auto-route
- Items with missing required fields → reject

## Categories
- **auto**: Can be processed without human intervention
- **hitl**: Requires human review before proceeding
- **reject**: Invalid or incomplete items
"#;

/// The policy by which queue items are handed to a human.
pub const HITL_POLICY: &'static str = r#"# Human-in-the-Loop (HITL) Policy

## Purpose
Define when items require human review.

## Default Triggers
- Classification confidence below threshold
- Destructive operations (delete, overwrite)
- Items touching sensitive paths or data
- First-time patterns not seen before

## Escalation
- When in doubt, escalate to HITL (safe default)
- Provide context and reasoning with escalation
- Include suggested action for the human
"#;

/// The policy by which queue items proceed by themselves.
pub const AUTO_APPROVE_POLICY: &'static str = r#"# Auto-Approve Policy

## Purpose
Define conditions under which items can proceed without human review.

## Default Conditions
- Item matches a known, previously-approved pattern
- All required fields are present and valid
- No destructive operations involved
- Data source is registered and trusted

## Safeguards
- Auto-approved items are still logged for audit
- Repeated failures from auto-approved patterns trigger re-evaluation
- Rate limits apply to prevent runaway automation
"#;

/// Returns the default content of the assistant's guide, the belt CLI usage guide.
pub fn default_claude_md() -> (r: &'static str)
    ensures
        r@ == GUIDE_MD@,
{
    GUIDE_MD
}

/// Returns the default classify policy template.
pub fn default_classify_policy() -> (r: &'static str)
    ensures
        r@ == CLASSIFY_POLICY@,
{
    CLASSIFY_POLICY
}

/// Returns the default HITL policy template.
pub fn default_hitl_policy() -> (r: &'static str)
    ensures
        r@ == HITL_POLICY@,
{
    HITL_POLICY
}

/// Returns the default auto-approve policy template.
pub fn default_auto_approve_policy() -> (r: &'static str)
    ensures
        r@ == AUTO_APPROVE_POLICY@,
{
    AUTO_APPROVE_POLICY
}

// ---------------------------------------------------------------------------
// The workspace
// ---------------------------------------------------------------------------

/// A Claw workspace directory.
#[derive(Debug, Clone)]
pub struct ClawWorkspace {
    /// Root path of the Claw workspace.
    pub path: String,
}

/// The directories and files that make up a workspace.
#[derive(Debug)]
pub struct InitPlan {
    pub dirs: Vec<String>,
    pub files: Vec<NewFile>,
}

/// The directory of the workspace under the home directory of the belt.
pub open spec fn workspace_dir(belt_home: Seq<char>) -> Seq<char> {
    path_in(belt_home, "claw-workspace"@)
}

/// The directory of the rules of a workspace.
pub open spec fn rules_dir(workspace: Seq<char>, assistant: Seq<char>) -> Seq<char> {
    path_in(workspace, rules_part(assistant))
}

/// The directories of a workspace.
pub open spec fn workspace_dirs(workspace: Seq<char>, assistant: Seq<char>) -> Seq<Seq<char>> {
    seq![
        rules_dir(workspace, assistant),
        path_in(workspace, "commands"@),
        path_in(path_in(workspace, "skills"@), "gap-detect"@),
        path_in(path_in(workspace, "skills"@), "prioritize"@),
    ]
}

/// The files of a workspace.
pub open spec fn workspace_files(workspace: Seq<char>, assistant: Seq<char>) -> Seq<FileView> {
    seq![
        FileView { path: path_in(workspace, guide_part(assistant)), content: GUIDE_MD@ },
        FileView {
            path: path_in(rules_dir(workspace, assistant), "classify-policy.md"@),
            content: CLASSIFY_POLICY@,
        },
        FileView {
            path: path_in(rules_dir(workspace, assistant), "hitl-policy.md"@),
            content: HITL_POLICY@,
        },
        FileView {
            path: path_in(rules_dir(workspace, assistant), "auto-approve-policy.md"@),
            content: AUTO_APPROVE_POLICY@,
        },
    ]
}

/// The files that make up a workspace in the given directory.
pub fn workspace_template(workspace: &str, assistant: &Assistant) -> (r: Vec<NewFile>)
    ensures
        file_views(r@) == workspace_files(workspace@, assistant.name@),
        r.len() == 4,
{
    let part = assistant.rules_part();
    let rules = under(workspace, part.as_str());
    let guide = assistant.guide_part();
    let mut files: Vec<NewFile> = Vec::new();
    files.push(new_file(under(workspace, guide.as_str()), default_claude_md()));
    files.push(new_file(under(rules.as_str(), "classify-policy.md"), default_classify_policy()));
    files.push(new_file(under(rules.as_str(), "hitl-policy.md"), default_hitl_policy()));
    files.push(
        new_file(under(rules.as_str(), "auto-approve-policy.md"), default_auto_approve_policy()),
    );
    proof {
        assert(file_views(files@) =~= workspace_files(workspace@, assistant.name@));
    }
    files
}

impl ClawWorkspace {
    /// Initializes a new Claw workspace under `belt_home`.
    ///
    /// Plans the directory structure:
    /// ```text
    /// {belt_home}/claw-workspace/
    /// ├── {ASSISTANT}.md
    /// ├── commands/
    /// ├── skills/
    /// │   ├── gap-detect/
    /// │   └── prioritize/
    /// └── .{assistant}/rules/
    ///     ├── classify-policy.md
    ///     ├── hitl-policy.md
    ///     └── auto-approve-policy.md
    /// ```
    ///
    /// `exists` says of each of the four files whether it exists. Existing files
    /// are preserved.
    pub fn init(belt_home: &str, exists: &Vec<bool>, assistant: &Assistant) -> (r: (
        ClawWorkspace,
        InitPlan,
    ))
        requires
            exists.len() == 4,
        ensures
            r.0.path@ == workspace_dir(belt_home@),
            texts(r.1.dirs@) == workspace_dirs(workspace_dir(belt_home@), assistant.name@),
            file_views(r.1.files@) == chosen(
                workspace_files(workspace_dir(belt_home@), assistant.name@),
                exists@,
                false,
                4,
            ),
    {
        Self::init_with_options(belt_home, false, exists, assistant)
    }

    /// Initializes with an explicit flag to overwrite existing files.
    pub fn init_with_options(
        belt_home: &str,
        force: bool,
        exists: &Vec<bool>,
        assistant: &Assistant,
    ) -> (r: (ClawWorkspace, InitPlan))
        requires
            exists.len() == 4,
        ensures
            r.0.path@ == workspace_dir(belt_home@),
            texts(r.1.dirs@) == workspace_dirs(workspace_dir(belt_home@), assistant.name@),
            file_views(r.1.files@) == chosen(
                workspace_files(workspace_dir(belt_home@), assistant.name@),
                exists@,
                force,
                4,
            ),
    {
        let workspace = under(belt_home, "claw-workspace");
        let skills = under(workspace.as_str(), "skills");
        let mut dirs: Vec<String> = Vec::new();
        let part = assistant.rules_part();
        dirs.push(under(workspace.as_str(), part.as_str()));
        dirs.push(under(workspace.as_str(), "commands"));
        dirs.push(under(skills.as_str(), "gap-detect"));
        dirs.push(under(skills.as_str(), "prioritize"));
        proof {
            assert(texts(dirs@) =~= workspace_dirs(workspace@, assistant.name@));
        }
        let template = workspace_template(workspace.as_str(), assistant);
        let (files, _) = choose_files(&template, exists, force);
        (ClawWorkspace { path: workspace }, InitPlan { dirs, files })
    }

    /// Decides how a rule file is edited.
    ///
    /// `entries` are the entries of the directory of the rules, or `None` where
    /// it does not exist; `file_exists` says whether the rule file exists. Without
    /// a rule the available ones are listed.
    pub fn edit_rule(
        &self,
        rule: Option<&str>,
        entries: &Option<Vec<DirEntry>>,
        file_exists: bool,
        assistant: &Assistant,
    ) -> (r: Result<RuleEdit, String>)
        ensures
            entries is None ==> r is Err && r->Err_0@ == no_rules_text(self.path@, assistant.name@),
            entries is Some && rule is Some && !file_exists ==> r is Err && r->Err_0@
                == "rule file not found: "@ + rule_path(self.path@, rule.unwrap()@, assistant.name@),
            entries is Some && rule is Some && file_exists ==> r is Ok && (r->Ok_0 matches
                RuleEdit::Open(path) && path@ == rule_path(self.path@, rule.unwrap()@, assistant.name@)),
            entries is Some && rule is None ==> r is Ok && (r->Ok_0 matches RuleEdit::Show(text)
                && exists|names: Seq<Seq<char>>| #[trigger]
                sorts(names, names_in(entries.unwrap()@)) && text@ == rule_list(
                names,
                names.len(),
            )),
    {
        let part = assistant.rules_part();
        let dir = under(self.path.as_str(), part.as_str());
        match entries {
            None => Err(cat2("rules directory not found: ", dir.as_str())),
            Some(list) => match rule {
                Some(name) => {
                    let file = cat2(name, ".md");
                    let path = under(dir.as_str(), file.as_str());
                    if file_exists {
                        Ok(RuleEdit::Open(path))
                    } else {
                        Err(cat2("rule file not found: ", path.as_str()))
                    }
                },
                None => {
                    let names = sorted_names(&file_names(list));
                    let text = write_rule_list(&names);
                    proof {
                        let shown = texts(names@);
                        assert(sorts(shown, names_in(list@)) && text@ == rule_list(
                            shown,
                            shown.len(),
                        ));
                    }
                    Ok(RuleEdit::Show(text))
                },
            },
        }
    }

    /// Lists the policy rule files in the workspace, sorted.
    ///
    /// `entries` are the entries of the directory of the rules, or `None` where
    /// it does not exist.
    pub fn list_rules(&self, entries: &Option<Vec<DirEntry>>, assistant: &Assistant) -> (r: Result<
        Vec<String>,
        String,
    >)
        ensures
            entries is None ==> r is Err && r->Err_0@ == no_rules_text(self.path@, assistant.name@),
            entries is Some ==> r is Ok && exists|names: Seq<Seq<char>>| #[trigger]
                sorts(names, names_in(entries.unwrap()@)) && texts(r->Ok_0@) == paths_under(
                    rules_dir(self.path@, assistant.name@),
                    names,
                ),
    {
        let part = assistant.rules_part();
        let dir = under(self.path.as_str(), part.as_str());
        match entries {
            None => Err(cat2("rules directory not found: ", dir.as_str())),
            Some(list) => {
                let names = sorted_names(&file_names(list));
                let mut out: Vec<String> = Vec::new();
                let mut i: usize = 0;
                while i < names.len()
                    invariant
                        i <= names.len(),
                        out.len() == i,
                        forall|k: int|
                            0 <= k < i ==> #[trigger] out@[k]@ == path_in(dir@, names@[k]@),
                    decreases names.len() - i,
                {
                    out.push(under(dir.as_str(), names[i].as_str()));
                    i = i + 1;
                }
                proof {
                    let shown = texts(names@);
                    assert(texts(out@) =~= paths_under(dir@, shown));
                    assert(sorts(shown, names_in(list@)) && texts(out@) == paths_under(
                        rules_dir(self.path@, assistant.name@),
                        shown,
                    ));
                }
                Ok(out)
            },
        }
    }
}

/// The four files of a workspace have different paths.
pub proof fn law_workspace_files_differ(workspace: Seq<char>, assistant: Seq<char>)
    ensures
        distinct_paths(workspace_files(workspace, assistant)),
{
    reveal_strlit(".md");
    reveal_strlit(".");
    reveal_strlit("/rules");
    reveal_strlit("classify-policy.md");
    reveal_strlit("hitl-policy.md");
    reveal_strlit("auto-approve-policy.md");
    reveal_strlit("/");
    let rules = rules_dir(workspace, assistant);
    let a = path_in(workspace, guide_part(assistant));
    let b = path_in(rules, "classify-policy.md"@);
    let c = path_in(rules, "hitl-policy.md"@);
    let d = path_in(rules, "auto-approve-policy.md"@);
    assert(b.len() > a.len());
    assert(c.len() > a.len());
    assert(d.len() > a.len());
    assert(b.len() != c.len());
    assert(d.len() > b.len());
}

/// How a rule is edited: a file is opened, or the list of rules is shown.
#[derive(Debug, Clone)]
pub enum RuleEdit {
    Open(String),
    Show(String),
}

/// There is no directory of rules.
pub open spec fn no_rules_text(workspace: Seq<char>, assistant: Seq<char>) -> Seq<char> {
    "rules directory not found: "@ + rules_dir(workspace, assistant)
}

/// The path of the file of a rule.
pub open spec fn rule_path(workspace: Seq<char>, rule: Seq<char>, assistant: Seq<char>) -> Seq<char> {
    path_in(rules_dir(workspace, assistant), rule + ".md"@)
}

/// The names of the files among the entries, in their order.
pub open spec fn names_in(entries: Seq<DirEntry>) -> Seq<Seq<char>>
    decreases entries.len(),
{
    if entries.len() == 0 {
        seq![]
    } else if entries.last().is_file {
        names_in(entries.drop_last()).push(entries.last().name@)
    } else {
        names_in(entries.drop_last())
    }
}

/// The paths of entries of a directory.
pub open spec fn paths_under(dir: Seq<char>, names: Seq<Seq<char>>) -> Seq<Seq<char>> {
    Seq::new(names.len(), |i: int| path_in(dir, names[i]))
}

fn file_names(entries: &Vec<DirEntry>) -> (r: Vec<String>)
    ensures
        texts(r@) == names_in(entries@),
{
    let mut names: Vec<String> = Vec::new();
    let mut i: usize = 0;
    proof {
        assert(texts(names@) =~= names_in(entries@.take(0)));
    }
    while i < entries.len()
        invariant
            i <= entries.len(),
            texts(names@) == names_in(entries@.take(i as int)),
        decreases entries.len() - i,
    {
        let ghost before = names@;
        proof {
            assert(entries@.take(i + 1).drop_last() =~= entries@.take(i as int));
        }
        if entries[i].is_file {
            names.push(entries[i].name.clone());
            proof {
                assert(texts(names@) =~= texts(before).push(entries@[i as int].name@));
            }
        }
        i = i + 1;
    }
    proof {
        assert(entries@.take(entries@.len() as int) =~= entries@);
    }
    names
}

/// The position of the last dot, or 0.
pub open spec fn last_dot(name: Seq<char>) -> nat
    decreases name.len(),
{
    if name.len() == 0 {
        0
    } else if name.last() == '.' {
        (name.len() - 1) as nat
    } else {
        last_dot(name.drop_last())
    }
}

/// The name of a file without its extension; a dot at the beginning starts none.
pub open spec fn file_stem(name: Seq<char>) -> Seq<char> {
    if last_dot(name) == 0 {
        name
    } else {
        name.take(last_dot(name) as int)
    }
}

fn stem_of(name: &str) -> (r: String)
    ensures
        r@ == file_stem(name@),
{
    let cs = chars_of(name);
    let mut n: usize = cs.len();
    proof {
        assert(name@.take(n as int) =~= name@);
    }
    while n > 0 && cs[n - 1] != '.'
        invariant
            n <= cs.len(),
            cs@ == name@,
            last_dot(name@) == last_dot(name@.take(n as int)),
        decreases n,
    {
        proof {
            assert(name@.take(n as int).drop_last() =~= name@.take(n - 1));
        }
        n = n - 1;
    }
    if n <= 1 {
        name.to_owned()
    } else {
        proof {
            assert(name@.subrange(0, n - 1) =~= name@.take(n - 1));
        }
        string_of(&cs, 0, n - 1)
    }
}

/// The first `n` rules, without their extensions.
pub open spec fn rule_lines(names: Seq<Seq<char>>, n: nat) -> Seq<char>
    decreases n,
{
    if n == 0 {
        seq![]
    } else {
        rule_lines(names, (n - 1) as nat) + ("  "@ + file_stem(names[n - 1]) + "\n"@)
    }
}

/// The list of the available rules.
pub open spec fn rule_list(names: Seq<Seq<char>>, n: nat) -> Seq<char> {
    "Available rules:\n"@ + rule_lines(names, n)
}

fn write_rule_list(names: &Vec<String>) -> (r: String)
    ensures
        r@ == rule_list(texts(names@), names.len() as nat),
{
    let mut rows = String::new();
    let mut i: usize = 0;
    while i < names.len()
        invariant
            i <= names.len(),
            rows@ == rule_lines(texts(names@), i as nat),
        decreases names.len() - i,
    {
        let stem = stem_of(names[i].as_str());
        let row = cat3("  ", stem.as_str(), "\n");
        rows.append(row.as_str());
        i = i + 1;
    }
    cat2("Available rules:\n", rows.as_str())
}

/// The command that opens a file: the configured editor, or `vi`.
pub fn editor_command(editor: &Option<String>) -> (r: String)
    ensures
        r@ == crate::text::text_or(*editor, "vi"@),
{
    crate::text::unwrap_text(editor, "vi")
}

/// What is told of an editor that failed.
pub fn editor_fault(success: bool, status: &str) -> (r: Option<String>)
    ensures
        r is None <==> success,
        r matches Some(e) ==> e@ == "editor exited with status: "@ + status@,
{
    if success {
        None
    } else {
        Some(cat2("editor exited with status: ", status))
    }
}

// ---------------------------------------------------------------------------
// Laws on rules
// ---------------------------------------------------------------------------

/// The files of a directory are taken in turn, and directories are left out.
pub proof fn law_files_are_taken_in_turn(a: Seq<DirEntry>, b: Seq<DirEntry>, e: DirEntry)
    ensures
        names_in(a + b) == names_in(a) + names_in(b),
        e.is_file ==> names_in(seq![e]) == seq![e.name@],
        !e.is_file ==> names_in(seq![e]).len() == 0,
    decreases b.len(),
{
    assert(seq![e].drop_last() =~= seq![]);
    assert(names_in(seq![e].drop_last()).len() == 0);
    if e.is_file {
        assert(names_in(seq![e]) =~= seq![e.name@]);
    }
    if b.len() == 0 {
        assert(a + b =~= a);
        assert(names_in(a) + names_in(b) =~= names_in(a));
    } else {
        law_files_are_taken_in_turn(a, b.drop_last(), e);
        assert((a + b).drop_last() =~= a + b.drop_last());
        assert(names_in(a + b) =~= names_in(a) + names_in(b));
    }
}

/// A rule is named without the last ending of its file.
pub proof fn law_rules_are_named_without_their_ending(stem: Seq<char>, ending: Seq<char>)
    requires
        stem.len() > 0,
        forall|i: int| 0 <= i < ending.len() ==> ending[i] != '.',
    ensures
        file_stem(stem + seq!['.'] + ending) == stem,
{
    let name = stem + seq!['.'] + ending;
    lemma_last_dot(stem, ending);
    assert(name.take(stem.len() as int) =~= stem);
}

proof fn lemma_last_dot(stem: Seq<char>, ending: Seq<char>)
    requires
        forall|i: int| 0 <= i < ending.len() ==> ending[i] != '.',
    ensures
        last_dot(stem + seq!['.'] + ending) == stem.len(),
    decreases ending.len(),
{
    let name = stem + seq!['.'] + ending;
    if ending.len() > 0 {
        assert(name.last() == ending.last());
        lemma_last_dot(stem, ending.drop_last());
        assert(name.drop_last() =~= stem + seq!['.'] + ending.drop_last());
    }
}

/// A name without an ending is kept.
pub proof fn law_names_without_an_ending_are_kept(name: Seq<char>)
    requires
        forall|i: int| 0 <= i < name.len() ==> name[i] != '.',
    ensures
        file_stem(name) == name,
{
    lemma_no_dot(name);
}

proof fn lemma_no_dot(name: Seq<char>)
    requires
        forall|i: int| 0 <= i < name.len() ==> name[i] != '.',
    ensures
        last_dot(name) == 0,
    decreases name.len(),
{
    if name.len() > 0 {
        assert(name.last() != '.');
        lemma_no_dot(name.drop_last());
    }
}

/// Every rule is listed by its name, on a line of its own.
pub proof fn law_every_rule_is_listed(names: Seq<Seq<char>>, n: nat, i: int)
    requires
        0 <= i < n <= names.len(),
    ensures
        holds(rule_list(names, n), "  "@ + file_stem(names[i]) + "\n"@),
{
    broadcast use group_holds;

    lemma_rule_lines_hold(names, n, i);
}

proof fn lemma_rule_lines_hold(names: Seq<Seq<char>>, n: nat, i: int)
    requires
        0 <= i < n <= names.len(),
    ensures
        holds(rule_lines(names, n), "  "@ + file_stem(names[i]) + "\n"@),
    decreases n,
{
    broadcast use group_holds;

    if i < n - 1 {
        lemma_rule_lines_hold(names, (n - 1) as nat, i);
    }
}

/// A rule is edited in the file that is listed under its name.
pub proof fn law_rules_are_edited_where_they_are_listed(
    workspace: Seq<char>,
    rule: Seq<char>,
    assistant: Seq<char>,
)
    requires
        rule.len() > 0,
    ensures
        rule_path(workspace, rule, assistant) == path_in(
            rules_dir(workspace, assistant),
            rule + seq!['.'] + seq!['m', 'd'],
        ),
        file_stem(rule + seq!['.'] + seq!['m', 'd']) == rule,
{
    reveal_strlit(".md");
    assert(rule + ".md"@ =~= rule + seq!['.'] + seq!['m', 'd']);
    law_rules_are_named_without_their_ending(rule, seq!['m', 'd']);
}

/// The directory that holds the rules is one of those that are made.
pub proof fn law_the_rules_have_a_directory(workspace: Seq<char>, assistant: Seq<char>, belt_home: Seq<char>)
    ensures
        workspace_dirs(workspace, assistant).contains(rules_dir(workspace, assistant)),
        workspace_dirs(workspace, assistant).contains(path_in(workspace, "commands"@)),
        workspace_dirs(workspace, assistant).len() == 4,
        workspace_dir(belt_home) == path_in(belt_home, "claw-workspace"@),
        holds(no_rules_text(workspace, assistant), rules_dir(workspace, assistant)),
{
    broadcast use group_holds;

    assert(workspace_dirs(workspace, assistant)[0] == rules_dir(workspace, assistant));
    assert(workspace_dirs(workspace, assistant)[1] == path_in(workspace, "commands"@));
}

/// Paths stand in their directory, in the order of their names.
pub proof fn law_paths_keep_the_order_of_names(dir: Seq<char>, names: Seq<Seq<char>>, i: int)
    requires
        0 <= i < names.len(),
    ensures
        paths_under(dir, names).len() == names.len(),
        paths_under(dir, names)[i] == path_in(dir, names[i]),
{
}

} // verus!
