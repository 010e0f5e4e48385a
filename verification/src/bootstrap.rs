//! The bootstrap command: rule files for a workspace, from templates or from a
//! language model.
//!
//! A set of opinionated rule files (project, coding, commit, testing) goes to
//! directory of rules of a workspace. Existing files are preserved unless they are
//! to be overwritten.

use vstd::prelude::*;

use crate::assistant::rules_part;
use crate::assistant::Assistant;
use crate::auto::law_every_path_has_its_line;
use crate::auto::path_lines;
use crate::auto::write_path_lines;
use crate::decompose::is_yes;
use crate::decompose::means_yes;
use crate::files::choose_files;
use crate::files::chosen;
use crate::files::distinct_paths;
use crate::files::file_paths;
use crate::files::file_views;
use crate::files::kept;
use crate::files::new_file;
use crate::files::paths_of;
use crate::files::FileView;
use crate::files::NewFile;
use crate::paths::path_in;
use crate::paths::under;
use crate::pieces::group_holds;
use crate::pieces::holds;
use crate::pieces::lemma_holds_through;
use crate::process::CommandOutput;
use crate::scan::all_white;
use crate::scan::begins;
use crate::scan::ends;
use crate::scan::has_prefix;
use crate::scan::has_suffix;
use crate::scan::is_white;
use crate::scan::join;
use crate::scan::joined;
use crate::scan::law_a_joined_text_holds_its_parts;
use crate::scan::law_lines_end_at_line_feeds;
use crate::scan::law_trimmed_text_stays;
use crate::scan::law_trimming_takes_blanks_alone;
use crate::scan::lines;
use crate::scan::lines_of;
use crate::scan::trim;
use crate::scan::trimmed;
use crate::text::cat2;
use crate::text::cat3;
use crate::text::cat4;
use crate::text::chars_of;
use crate::text::dec;
use crate::text::dec_u64;
use crate::text::dec_usize;
use crate::text::string_of;
use crate::text::text_eq;
use crate::text::text_or;
use crate::text::texts;
use crate::text::unwrap_text;

verus! {

// ---------------------------------------------------------------------------
// Templates
// ---------------------------------------------------------------------------

/// The template of the project rules.
pub const PROJECT_MD: &'static str = r#"# Project Rules

## Language & Stack
<!-- Describe the primary language, framework, and key libraries -->
- Language: (e.g., Rust, TypeScript, Go)
- Framework: (e.g., tokio, Next.js, Gin)
- Database: (e.g., SQLite, PostgreSQL)

## Architecture
<!-- Describe the high-level architecture and module boundaries -->
- Module layout and dependency direction
- Key abstractions and interfaces

## Dependencies
- Prefer existing dependencies over adding new ones
- Justify new dependency additions
- Enable only necessary feature flags
"#;

/// The template of the coding style guide.
pub const CODING_MD: &'static str = r#"# Coding Style Guide

## Formatting
- Use the project formatter (e.g., `cargo fmt`, `prettier`, `gofmt`)
- Linter must pass with zero warnings

## Naming
- Use descriptive, intention-revealing names
- Follow language idioms (snake_case for Rust, camelCase for JS/TS)

## Error Handling
- Handle errors explicitly; do not silently ignore them
- Use typed errors in library code, anyhow/eyre in application code
- Provide context when propagating errors

## Documentation
- Public APIs must have doc comments
- Complex logic should have inline comments explaining "why"
- Keep comments up to date with code changes

## SOLID Principles
- Single Responsibility: one module, one reason to change
- Open/Closed: extend via traits/interfaces, not modification
- Dependency Inversion: depend on abstractions, not concretions
"#;

/// The template of the commit convention.
pub const COMMIT_MD: &'static str = r#"# Commit Convention

## Format
Use Conventional Commits:

```
<type>(scope): <short summary>

<optional body>

<optional footer>
```

## Types
- `feat`: A new feature
- `fix`: A bug fix
- `refactor`: Code restructuring without behavior change
- `docs`: Documentation only
- `test`: Adding or updating tests
- `chore`: Build, CI, or tooling changes
- `ci`: CI/CD pipeline changes

## Rules
- Summary line: imperative mood, lowercase, no period, max 72 chars
- Body: explain "what" and "why", not "how"
- Reference issues with `Closes #N` or `Refs #N`
"#;

/// The template of the testing rules.
pub const TESTING_MD: &'static str = r#"# Testing Rules

## Unit Tests
- Place unit tests in the same file under `#[cfg(test)] mod tests` (Rust)
  or co-located `*.test.ts` / `*_test.go` files
- Test one behavior per test function
- Use descriptive test names that explain the scenario

## Integration Tests
- Place in a dedicated `tests/` directory
- Test cross-module interactions and external boundaries
- Use fixtures or factories for test data setup

## Test Quality
- Tests must be deterministic (no flaky tests)
- Mock external dependencies (DB, API, filesystem)
- Prefer black-box testing over white-box testing
- Aim for high coverage on business logic; skip trivial getters/setters

## Running Tests
- All tests must pass before committing
- CI runs the full test suite on every PR
"#;

/// Returns the default project rules template.
pub fn default_project_md() -> (r: &'static str)
    ensures
        r@ == PROJECT_MD@,
{
    PROJECT_MD
}

/// Returns the default coding style guide template.
pub fn default_coding_md() -> (r: &'static str)
    ensures
        r@ == CODING_MD@,
{
    CODING_MD
}

/// Returns the default commit convention template.
pub fn default_commit_md() -> (r: &'static str)
    ensures
        r@ == COMMIT_MD@,
{
    COMMIT_MD
}

/// Returns the default testing rules template.
pub fn default_testing_md() -> (r: &'static str)
    ensures
        r@ == TESTING_MD@,
{
    TESTING_MD
}

/// The name of rule file `k`.
pub open spec fn rule_name(k: int) -> Seq<char> {
    if k == 0 {
        "project.md"@
    } else if k == 1 {
        "coding.md"@
    } else if k == 2 {
        "commit.md"@
    } else {
        "testing.md"@
    }
}

/// The template of rule file `k`.
pub open spec fn rule_template(k: int) -> Seq<char> {
    if k == 0 {
        PROJECT_MD@
    } else if k == 1 {
        CODING_MD@
    } else if k == 2 {
        COMMIT_MD@
    } else {
        TESTING_MD@
    }
}

fn name_of_rule(k: usize) -> (r: &'static str)
    ensures
        r@ == rule_name(k as int),
{
    if k == 0 {
        "project.md"
    } else if k == 1 {
        "coding.md"
    } else if k == 2 {
        "commit.md"
    } else {
        "testing.md"
    }
}

fn template_of_rule(k: usize) -> (r: &'static str)
    ensures
        r@ == rule_template(k as int),
{
    if k == 0 {
        default_project_md()
    } else if k == 1 {
        default_coding_md()
    } else if k == 2 {
        default_commit_md()
    } else {
        default_testing_md()
    }
}

// ---------------------------------------------------------------------------
// Files by name
// ---------------------------------------------------------------------------

/// A file of the rules: its name and what it holds.
#[derive(Debug, Clone, PartialEq, Eq)]
pub struct RuleFile {
    pub name: String,
    pub content: String,
}

/// The contents of a list of files, by name.
pub open spec fn rule_views(v: Seq<RuleFile>) -> Seq<(Seq<char>, Seq<char>)> {
    Seq::new(v.len(), |i: int| (v[i].name@, v[i].content@))
}

/// Files of the rules under a directory.
pub open spec fn placed(dir: Seq<char>, v: Seq<(Seq<char>, Seq<char>)>) -> Seq<FileView> {
    Seq::new(v.len(), |i: int| FileView { path: path_in(dir, v[i].0), content: v[i].1 })
}

/// The four files of the templates, by name.
pub open spec fn default_rules() -> Seq<(Seq<char>, Seq<char>)> {
    Seq::new(4, |k: int| (rule_name(k), rule_template(k)))
}

fn place_files(dir: &str, v: &Vec<RuleFile>) -> (r: Vec<NewFile>)
    ensures
        file_views(r@) == placed(dir@, rule_views(v@)),
{
    let mut out: Vec<NewFile> = Vec::new();
    let mut i: usize = 0;
    while i < v.len()
        invariant
            i <= v.len(),
            out.len() == i,
            forall|k: int|
                0 <= k < i ==> #[trigger] out@[k]@ == placed(dir@, rule_views(v@))[k],
        decreases v.len() - i,
    {
        out.push(new_file(under(dir, v[i].name.as_str()), v[i].content.as_str()));
        i = i + 1;
    }
    proof {
        assert(file_views(out@) =~= placed(dir@, rule_views(v@)));
    }
    out
}

/// The files of the templates, by name.
pub fn default_files() -> (r: Vec<RuleFile>)
    ensures
        rule_views(r@) == default_rules(),
{
    let mut out: Vec<RuleFile> = Vec::new();
    let mut k: usize = 0;
    while k < 4
        invariant
            k <= 4,
            out.len() == k,
            forall|i: int|
                0 <= i < k ==> (#[trigger] out@[i]).name@ == rule_name(i) && out@[i].content@
                    == rule_template(i),
        decreases 4 - k,
    {
        out.push(
            RuleFile {
                name: name_of_rule(k).to_owned(),
                content: template_of_rule(k).to_owned(),
            },
        );
        k = k + 1;
    }
    proof {
        assert(rule_views(out@) =~= default_rules());
    }
    out
}

/// The paths of files under a directory.
pub fn rule_paths(rules_dir: &str, files: &Vec<RuleFile>) -> (r: Vec<String>)
    ensures
        texts(r@) == file_paths(placed(rules_dir@, rule_views(files@))),
{
    let all = place_files(rules_dir, files);
    paths_of(&all)
}

// ---------------------------------------------------------------------------
// Running
// ---------------------------------------------------------------------------

/// Result of a bootstrap operation.
#[derive(Debug)]
pub struct BootstrapResult {
    /// The directory of rules that is created or updated.
    pub rules_dir: String,
    /// Files to be written.
    pub written: Vec<NewFile>,
    /// Files that are skipped (they already exist).
    pub skipped: Vec<String>,
    /// Whether LLM-based generation was used.
    pub llm_generated: bool,
    /// URL of the created pull request, if any.
    pub pr_url: Option<String>,
}

/// The directory of the rules of a workspace.
pub open spec fn rules_dir_of(workspace_root: Seq<char>, assistant: Seq<char>) -> Seq<char> {
    path_in(workspace_root, rules_part(assistant))
}

/// The result of writing `files` under `dir`.
pub open spec fn writes(
    r: BootstrapResult,
    dir: Seq<char>,
    files: Seq<(Seq<char>, Seq<char>)>,
    exists: Seq<bool>,
    force: bool,
    llm: bool,
) -> bool {
    &&& r.rules_dir@ == dir
    &&& file_views(r.written@) == chosen(placed(dir, files), exists, force, files.len())
    &&& texts(r.skipped@) == kept(placed(dir, files), exists, force, files.len())
    &&& r.llm_generated == llm
    &&& r.pr_url is None
}

fn write_files(dir: &str, files: &Vec<RuleFile>, force: bool, exists: &Vec<bool>, llm: bool) -> (r:
    BootstrapResult)
    requires
        exists.len() == files.len(),
    ensures
        writes(r, dir@, rule_views(files@), exists@, force, llm),
{
    let all = place_files(dir, files);
    proof {
        assert(file_views(all@).len() == files.len());
    }
    let (written, skipped) = choose_files(&all, exists, force);
    BootstrapResult {
        rules_dir: dir.to_owned(),
        written,
        skipped,
        llm_generated: llm,
        pr_url: None,
    }
}

/// The directory of the rules of a workspace.
pub fn rules_dir(workspace_root: &str, assistant: &Assistant) -> (r: String)
    ensures
        r@ == rules_dir_of(workspace_root@, assistant.name@),
{
    let rules = assistant.rules_part();
    under(workspace_root, rules.as_str())
}

/// Runs the bootstrap process for the given workspace root directory.
///
/// Plans the default rule files in the directory of rules. `exists` says of each
/// of the four whether it exists. Existing files are preserved unless `force` is
/// `true`.
pub fn run(workspace_root: &str, force: bool, exists: &Vec<bool>, assistant: &Assistant) -> (r:
    BootstrapResult)
    requires
        exists.len() == 4,
    ensures
        writes(r, rules_dir_of(workspace_root@, assistant.name@), default_rules(), exists@, force, false),
{
    let dir = rules_dir(workspace_root, assistant);
    run_in_dir(dir.as_str(), force, exists)
}

/// Runs the bootstrap process with rule files directly in `rules_dir`.
///
/// `exists` says of each of the four files whether it exists. Existing files are
/// preserved unless `force` is `true`.
pub fn run_in_dir(rules_dir: &str, force: bool, exists: &Vec<bool>) -> (r: BootstrapResult)
    requires
        exists.len() == 4,
    ensures
        writes(r, rules_dir@, default_rules(), exists@, force, false),
{
    let files = default_files();
    proof {
        assert(rule_views(files@).len() == 4);
    }
    write_files(rules_dir, &files, force, exists, false)
}

/// The four rule files have different paths.
pub proof fn law_rule_files_differ(dir: Seq<char>)
    ensures
        distinct_paths(placed(dir, default_rules())),
{
    reveal_strlit("project.md");
    reveal_strlit("coding.md");
    reveal_strlit("commit.md");
    reveal_strlit("testing.md");
    reveal_strlit("/");
    let all = placed(dir, default_rules());
    assert forall|i: int, j: int|
        #![trigger all[i], all[j]]
        0 <= i < j < all.len() implies all[i].path != all[j].path by {
        let a = all[i].path;
        let b = all[j].path;
        assert(a == path_in(dir, rule_name(i)));
        assert(b == path_in(dir, rule_name(j)));
        let la = rule_name(i).len() as int;
        let lb = rule_name(j).len() as int;
        if la == lb && a == b {
            assert(a[a.len() - la] == rule_name(i)[0]);
            assert(b[b.len() - lb] == rule_name(j)[0]);
            assert(a[a.len() - la + 2] == rule_name(i)[2]);
            assert(b[b.len() - lb + 2] == rule_name(j)[2]);
        }
    }
}

// ---------------------------------------------------------------------------
// Asking a language model
// ---------------------------------------------------------------------------

/// Project information collected for LLM-based convention generation.
#[derive(Debug, Clone)]
pub struct ProjectInfo {
    /// Human-readable project name.
    pub name: String,
    /// Primary programming language (e.g., "Rust", "TypeScript").
    pub language: String,
    /// Framework or runtime (e.g., "tokio", "Next.js").
    pub framework: String,
    /// Brief description of the project purpose.
    pub description: String,
}

/// The end of the prompt.
pub const PROMPT_END: &'static str = r#"

Generate four Markdown files with project-specific conventions. Output each file using the following delimiter format:

--- FILE: project.md ---
(project rules content here)

--- FILE: coding.md ---
(coding style guide content here)

--- FILE: commit.md ---
(commit convention content here)

--- FILE: testing.md ---
(testing rules content here)

Requirements:
- Each file must start with a level-1 heading.
- Tailor the content to the specific language, framework, and project type.
- Include concrete examples and tool commands relevant to the stack.
- For project.md: describe the language, stack, architecture patterns, and dependency policy.
- For coding.md: describe formatting tools, naming conventions, error handling, and SOLID principles.
- For commit.md: describe conventional commit format, types, and rules.
- For testing.md: describe unit/integration test structure, quality guidelines, and how to run tests."#;

/// The prompt for a project.
pub open spec fn llm_prompt(info: ProjectInfo) -> Seq<char> {
    "Generate convention rule files for the following project:\n\n- Project name: "@ + info.name@
        + "\n- Language: "@ + info.language@ + "\n- Framework: "@ + info.framework@
        + "\n- Description: "@ + info.description@ + PROMPT_END@
}

/// Builds the user prompt for convention generation.
pub fn build_llm_prompt(info: &ProjectInfo) -> (r: String)
    ensures
        r@ == llm_prompt(*info),
{
    let mut out = "Generate convention rule files for the following project:\n\n- Project name: ".to_string();
    out.append(info.name.as_str());
    out.append("\n- Language: ");
    out.append(info.language.as_str());
    out.append("\n- Framework: ");
    out.append(info.framework.as_str());
    out.append("\n- Description: ");
    out.append(info.description.as_str());
    out.append(PROMPT_END);
    out
}

/// The system prompt for convention generation.
pub const SYSTEM_PROMPT: &'static str = "You are a software engineering conventions expert. Generate clear, actionable convention documents in Markdown format. Use the exact delimiter format requested. Do not include any text outside the file delimiters.";

/// Builds the system prompt for convention generation.
pub fn build_system_prompt() -> (r: String)
    ensures
        r@ == SYSTEM_PROMPT@,
{
    SYSTEM_PROMPT.to_string()
}

/// What is known of a project; what is not given gets a default. `dir_name` is
/// the name of the directory of the workspace, if it has one.
pub fn project_info(
    name: &Option<String>,
    dir_name: &Option<String>,
    language: &Option<String>,
    framework: &Option<String>,
    description: &Option<String>,
) -> (r: ProjectInfo)
    ensures
        r.name@ == text_or(*name, text_or(*dir_name, "project"@)),
        r.language@ == text_or(*language, "unknown"@),
        r.framework@ == text_or(*framework, ""@),
        r.description@ == text_or(*description, ""@),
{
    let own = unwrap_text(dir_name, "project");
    ProjectInfo {
        name: unwrap_text(name, own.as_str()),
        language: unwrap_text(language, "unknown"),
        framework: unwrap_text(framework, ""),
        description: unwrap_text(description, ""),
    }
}

// ---------------------------------------------------------------------------
// Reading the reply
// ---------------------------------------------------------------------------

/// A line that begins a file: `--- FILE: <filename> ---`. The mark before the
/// name and the one after it do not overlap.
pub open spec fn is_delimiter(line: Seq<char>) -> bool {
    has_prefix(trim(line), "--- FILE: "@) && has_suffix(trim(line), " ---"@) && trim(line).len()
        >= 14
}

/// The name of the file that a line begins.
pub open spec fn delimited_name(line: Seq<char>) -> Seq<char> {
    trim(trim(line).subrange(10, trim(line).len() - 4))
}

/// The number of lines before the first delimiter.
pub open spec fn lines_before(ls: Seq<Seq<char>>) -> nat
    decreases ls.len(),
{
    if ls.len() == 0 || is_delimiter(ls[0]) {
        0
    } else {
        1 + lines_before(ls.skip(1))
    }
}

/// The lines from the first delimiter on.
pub open spec fn from_delimiter(ls: Seq<Seq<char>>) -> Seq<Seq<char>> {
    if lines_before(ls) < ls.len() {
        ls.skip(lines_before(ls) as int)
    } else {
        seq![]
    }
}

/// The files in some lines: each goes from its delimiter to the next one.
pub open spec fn blocks(ls: Seq<Seq<char>>) -> Seq<(Seq<char>, Seq<char>)>
    decreases ls.len(),
{
    if ls.len() == 0 {
        seq![]
    } else if is_delimiter(ls[0]) {
        let rest = ls.skip(1);
        let body = rest.take(lines_before(rest) as int);
        seq![(delimited_name(ls[0]), trim(join(body, "\n"@)))] + blocks(from_delimiter(rest))
    } else {
        blocks(ls.skip(1))
    }
}

/// The files without the last one, if that is empty.
pub open spec fn without_empty_end(v: Seq<(Seq<char>, Seq<char>)>) -> Seq<(Seq<char>, Seq<char>)> {
    if v.len() > 0 && v.last().1.len() == 0 {
        v.drop_last()
    } else {
        v
    }
}

/// None of the lines is a delimiter.
pub open spec fn undelimited(ls: Seq<Seq<char>>) -> bool {
    forall|i: int| 0 <= i < ls.len() ==> !is_delimiter(#[trigger] ls[i])
}

/// The files that a reply holds: those between the delimiters, or the whole
/// reply as `project.md` where there is no delimiter.
pub open spec fn found_files(response: Seq<char>) -> Seq<(Seq<char>, Seq<char>)> {
    if !undelimited(lines(response)) {
        without_empty_end(blocks(lines(response)))
    } else if trim(response).len() > 0 {
        seq![("project.md"@, trim(response))]
    } else {
        seq![]
    }
}

/// What the first file of a name holds, or a default.
pub open spec fn content_of(
    v: Seq<(Seq<char>, Seq<char>)>,
    name: Seq<char>,
    default: Seq<char>,
) -> Seq<char>
    decreases v.len(),
{
    if v.len() == 0 {
        default
    } else if v[0].0 == name {
        v[0].1
    } else {
        content_of(v.skip(1), name, default)
    }
}

/// One of the four names of rule files.
pub open spec fn is_rule_name(name: Seq<char>) -> bool {
    name == rule_name(0) || name == rule_name(1) || name == rule_name(2) || name == rule_name(3)
}

/// File `i` is none of the four rule files, or not the first of its name.
pub open spec fn is_extra(v: Seq<(Seq<char>, Seq<char>)>, i: int) -> bool {
    !is_rule_name(v[i].0) || exists|j: int| 0 <= j < i && (#[trigger] v[j]).0 == v[i].0
}

/// Of the first `n` files those beyond the four rule files.
pub open spec fn extras(v: Seq<(Seq<char>, Seq<char>)>, n: nat) -> Seq<(Seq<char>, Seq<char>)>
    decreases n,
{
    if n == 0 {
        seq![]
    } else if is_extra(v, n - 1) {
        extras(v, (n - 1) as nat).push(v[n - 1])
    } else {
        extras(v, (n - 1) as nat)
    }
}

/// The four rule files, from `v` or else from the templates, then the rest of
/// `v`.
pub open spec fn ordered_files(v: Seq<(Seq<char>, Seq<char>)>) -> Seq<(Seq<char>, Seq<char>)> {
    Seq::new(4, |k: int| (rule_name(k), content_of(v, rule_name(k), rule_template(k)))) + extras(
        v,
        v.len(),
    )
}

fn starts_file(line: &str) -> (r: bool)
    ensures
        r == is_delimiter(line@),
{
    let t = trimmed(line);
    let cs = chars_of(t.as_str());
    begins(t.as_str(), "--- FILE: ") && ends(t.as_str(), " ---") && cs.len() >= 14
}

fn name_in(line: &str) -> (r: String)
    requires
        trim(line@).len() >= 14,
    ensures
        r@ == delimited_name(line@),
{
    let t = trimmed(line);
    let cs = chars_of(t.as_str());
    let inner = string_of(&cs, 10, cs.len() - 4);
    trimmed(inner.as_str())
}

proof fn lemma_lines_before(ls: Seq<Seq<char>>, n: int)
    requires
        0 <= n <= ls.len(),
        forall|i: int| 0 <= i < n ==> !is_delimiter(#[trigger] ls[i]),
        n == ls.len() || is_delimiter(ls[n]),
    ensures
        lines_before(ls) == n,
    decreases n,
{
    if n > 0 {
        let rest = ls.skip(1);
        assert forall|i: int| 0 <= i < n - 1 implies !is_delimiter(#[trigger] rest[i]) by {
            assert(rest[i] == ls[i + 1]);
        }
        lemma_lines_before(rest, n - 1);
    }
}

fn read_block(ls: &Vec<String>, at: usize) -> (r: (Vec<String>, usize))
    requires
        at <= ls.len(),
    ensures
        at <= r.1 <= ls.len(),
        r.1 - at == lines_before(texts(ls@).skip(at as int)),
        texts(r.0@) == texts(ls@).subrange(at as int, r.1 as int),
{
    let ghost all = texts(ls@);
    let ghost rest = all.skip(at as int);
    let mut body: Vec<String> = Vec::new();
    let mut i: usize = at;
    proof {
        assert(texts(body@) =~= all.subrange(at as int, at as int));
    }
    while i < ls.len()
        invariant
            at <= i <= ls.len(),
            all == texts(ls@),
            rest == all.skip(at as int),
            texts(body@) == all.subrange(at as int, i as int),
            forall|k: int| 0 <= k < i - at ==> !is_delimiter(#[trigger] rest[k]),
        decreases ls.len() - i,
    {
        proof {
            assert(rest[i - at] == ls@[i as int]@);
        }
        if starts_file(ls[i].as_str()) {
            proof {
                lemma_lines_before(rest, i - at);
            }
            return (body, i);
        }
        let ghost before = body@;
        body.push(ls[i].clone());
        proof {
            assert(texts(body@) =~= texts(before).push(all[i as int]));
            assert(all.subrange(at as int, i + 1) =~= texts(before).push(all[i as int]));
        }
        i = i + 1;
    }
    proof {
        lemma_lines_before(rest, i - at);
    }
    (body, i)
}

proof fn lemma_undelimited(ls: Seq<Seq<char>>)
    ensures
        undelimited(ls) <==> blocks(ls).len() == 0,
    decreases ls.len(),
{
    if ls.len() > 0 && !is_delimiter(ls[0]) {
        let rest = ls.skip(1);
        lemma_undelimited(rest);
        if undelimited(rest) {
            assert forall|i: int| 0 <= i < ls.len() implies !is_delimiter(#[trigger] ls[i]) by {
                if i > 0 {
                    assert(rest[i - 1] == ls[i]);
                }
            }
        } else {
            let i = choose|i: int| 0 <= i < rest.len() && is_delimiter(#[trigger] rest[i]);
            assert(is_delimiter(ls[i + 1]));
        }
    }
}

fn read_blocks(ls: &Vec<String>) -> (r: Vec<RuleFile>)
    ensures
        rule_views(r@) == blocks(texts(ls@)),
{
    let ghost all = texts(ls@);
    let mut out: Vec<RuleFile> = Vec::new();
    let mut i: usize = 0;
    proof {
        assert(all.skip(0) =~= all);
        assert(rule_views(out@) + blocks(all) =~= blocks(all));
    }
    while i < ls.len()
        invariant
            i <= ls.len(),
            all == texts(ls@),
            rule_views(out@) + blocks(all.skip(i as int)) == blocks(all),
        decreases ls.len() - i,
    {
        let ghost rest = all.skip(i as int);
        proof {
            assert(rest[0] == ls@[i as int]@);
            assert(rest.skip(1) =~= all.skip(i + 1));
        }
        if starts_file(ls[i].as_str()) {
            let name = name_in(ls[i].as_str());
            let (body, next) = read_block(ls, i + 1);
            let text = joined(&body, "\n");
            let content = trimmed(text.as_str());
            let ghost before = out@;
            let file = RuleFile { name, content };
            out.push(file);
            proof {
                let n = lines_before(rest.skip(1)) as int;
                let pair = (file.name@, file.content@);
                assert(rest.skip(1).take(n) =~= all.subrange(i + 1, next as int));
                assert(from_delimiter(rest.skip(1)) =~= all.skip(next as int));
                assert(rule_views(out@) =~= rule_views(before).push(pair));
                assert(rule_views(before) + (seq![pair] + blocks(all.skip(next as int)))
                    =~= rule_views(out@) + blocks(all.skip(next as int)));
            }
            i = next;
        } else {
            i = i + 1;
        }
    }
    proof {
        assert(all.skip(i as int) =~= seq![]);
        assert(rule_views(out@) + blocks(all.skip(i as int)) =~= rule_views(out@));
    }
    out
}

fn read_files(response: &str) -> (r: Vec<RuleFile>)
    ensures
        rule_views(r@) == found_files(response@),
{
    let ls = lines_of(response);
    let mut files = read_blocks(&ls);
    let ghost all = rule_views(files@);
    proof {
        lemma_undelimited(lines(response@));
    }
    if files.len() == 0 {
        let whole = trimmed(response);
        let cs = chars_of(whole.as_str());
        if cs.len() > 0 {
            files.push(RuleFile { name: "project.md".to_string(), content: whole });
            proof {
                assert(rule_views(files@) =~= seq![("project.md"@, trim(response@))]);
            }
        } else {
            proof {
                assert(rule_views(files@) =~= seq![]);
            }
        }
        return files;
    }
    let cs = chars_of(files[files.len() - 1].content.as_str());
    if cs.len() == 0 {
        files.pop();
        proof {
            assert(rule_views(files@) =~= all.drop_last());
        }
    }
    files
}

fn first_content(v: &Vec<RuleFile>, name: &str, default: &str) -> (r: String)
    ensures
        r@ == content_of(rule_views(v@), name@, default@),
{
    let ghost all = rule_views(v@);
    let mut i: usize = 0;
    proof {
        assert(all.skip(0) =~= all);
    }
    while i < v.len()
        invariant
            i <= v.len(),
            all == rule_views(v@),
            content_of(all, name@, default@) == content_of(all.skip(i as int), name@, default@),
        decreases v.len() - i,
    {
        proof {
            assert(all.skip(i as int).skip(1) =~= all.skip(i + 1));
        }
        if text_eq(v[i].name.as_str(), name) {
            return v[i].content.clone();
        }
        i = i + 1;
    }
    default.to_owned()
}

fn goes_beyond(v: &Vec<RuleFile>, i: usize) -> (r: bool)
    requires
        i < v.len(),
    ensures
        r == is_extra(rule_views(v@), i as int),
{
    let ghost all = rule_views(v@);
    let name = v[i].name.as_str();
    if !text_eq(name, name_of_rule(0)) && !text_eq(name, name_of_rule(1)) && !text_eq(
        name,
        name_of_rule(2),
    ) && !text_eq(name, name_of_rule(3)) {
        return true;
    }
    let mut j: usize = 0;
    while j < i
        invariant
            j <= i < v.len(),
            all == rule_views(v@),
            name@ == all[i as int].0,
            forall|k: int| 0 <= k < j ==> (#[trigger] all[k]).0 != all[i as int].0,
        decreases i - j,
    {
        if text_eq(v[j].name.as_str(), name) {
            proof {
                assert(all[j as int].0 == all[i as int].0);
            }
            return true;
        }
        j = j + 1;
    }
    false
}

/// Parses the reply of a language model into a list of files.
///
/// Expects the format:
/// ```text
/// --- FILE: <filename> ---
/// <content>
/// ```
///
/// Falls back to assigning the entire reply to `project.md` if no delimiters are
/// found, then fills missing files with static templates. The four rule files
/// come first, in their order, then any others.
pub fn parse_llm_response(response: &str) -> (r: Vec<RuleFile>)
    ensures
        rule_views(r@) == ordered_files(found_files(response@)),
{
    let files = read_files(response);
    let ghost all = rule_views(files@);
    let mut out: Vec<RuleFile> = Vec::new();
    let mut k: usize = 0;
    while k < 4
        invariant
            k <= 4,
            all == rule_views(files@),
            out.len() == k,
            forall|i: int|
                0 <= i < k ==> (#[trigger] out@[i]).name@ == rule_name(i) && out@[i].content@
                    == content_of(all, rule_name(i), rule_template(i)),
        decreases 4 - k,
    {
        let name = name_of_rule(k);
        let content = first_content(&files, name, template_of_rule(k));
        out.push(RuleFile { name: name.to_owned(), content });
        k = k + 1;
    }
    let ghost first = rule_views(out@);
    proof {
        assert(first =~= Seq::new(
            4,
            |k: int| (rule_name(k), content_of(all, rule_name(k), rule_template(k))),
        ));
        assert(rule_views(out@) =~= first + extras(all, 0));
    }
    let mut i: usize = 0;
    while i < files.len()
        invariant
            i <= files.len(),
            all == rule_views(files@),
            rule_views(out@) == first + extras(all, i as nat),
        decreases files.len() - i,
    {
        let ghost before = out@;
        if goes_beyond(&files, i) {
            out.push(
                RuleFile { name: files[i].name.clone(), content: files[i].content.clone() },
            );
            proof {
                assert(rule_views(out@) =~= rule_views(before).push(all[i as int]));
                assert((first + extras(all, i as nat)).push(all[i as int]) =~= first + extras(
                    all,
                    i as nat,
                ).push(all[i as int]));
            }
        }
        i = i + 1;
    }
    out
}

/// Whatever a reply holds, the four rule files come first, in their order.
pub proof fn law_rule_files_come_first(v: Seq<(Seq<char>, Seq<char>)>, k: int)
    requires
        0 <= k < 4,
    ensures
        ordered_files(v).len() >= 4,
        ordered_files(v)[k].0 == rule_name(k),
{
}

/// A rule file that the reply lacks is filled from its template.
pub proof fn law_missing_files_come_from_templates(v: Seq<(Seq<char>, Seq<char>)>, k: int)
    requires
        0 <= k < 4,
        forall|i: int| 0 <= i < v.len() ==> (#[trigger] v[i]).0 != rule_name(k),
    ensures
        ordered_files(v)[k] == (rule_name(k), rule_template(k)),
{
    lemma_content_of_missing(v, rule_name(k), rule_template(k));
}

proof fn lemma_content_of_missing(
    v: Seq<(Seq<char>, Seq<char>)>,
    name: Seq<char>,
    default: Seq<char>,
)
    requires
        forall|i: int| 0 <= i < v.len() ==> (#[trigger] v[i]).0 != name,
    ensures
        content_of(v, name, default) == default,
    decreases v.len(),
{
    if v.len() > 0 {
        let rest = v.skip(1);
        assert(v[0].0 != name);
        assert forall|i: int| 0 <= i < rest.len() implies (#[trigger] rest[i]).0 != name by {
            assert(rest[i] == v[i + 1]);
        }
        lemma_content_of_missing(rest, name, default);
    }
}

/// No file of a reply is lost: each is one of the four rule files or follows
/// them.
pub proof fn law_no_file_is_lost(v: Seq<(Seq<char>, Seq<char>)>, i: int)
    requires
        0 <= i < v.len(),
    ensures
        ordered_files(v).contains(v[i]),
{
    if is_extra(v, i) {
        lemma_extras_hold(v, v.len(), i);
        let e = extras(v, v.len());
        let k = choose|k: int| 0 <= k < e.len() && e[k] == v[i];
        assert(ordered_files(v)[4 + k] == v[i]);
    } else {
        let k: int = if v[i].0 == rule_name(0) {
            0
        } else if v[i].0 == rule_name(1) {
            1
        } else if v[i].0 == rule_name(2) {
            2
        } else {
            3
        };
        lemma_content_of_first(v, i, rule_template(k));
        assert(ordered_files(v)[k] == v[i]);
    }
}

proof fn lemma_extras_hold(v: Seq<(Seq<char>, Seq<char>)>, n: nat, i: int)
    requires
        0 <= i < n <= v.len(),
        is_extra(v, i),
    ensures
        extras(v, n).contains(v[i]),
    decreases n,
{
    let s = extras(v, n);
    if i == n - 1 {
        assert(s[s.len() - 1] == v[i]);
    } else {
        lemma_extras_hold(v, (n - 1) as nat, i);
        let t = extras(v, (n - 1) as nat);
        let k = choose|k: int| 0 <= k < t.len() && t[k] == v[i];
        assert(s[k] == v[i]);
    }
}

proof fn lemma_content_of_first(v: Seq<(Seq<char>, Seq<char>)>, i: int, default: Seq<char>)
    requires
        0 <= i < v.len(),
        forall|j: int| 0 <= j < i ==> (#[trigger] v[j]).0 != v[i].0,
    ensures
        content_of(v, v[i].0, default) == v[i].1,
    decreases v.len(),
{
    if i > 0 {
        let rest = v.skip(1);
        assert(v[0].0 != v[i].0);
        assert forall|j: int| 0 <= j < i - 1 implies (#[trigger] rest[j]).0 != rest[i - 1].0 by {
            assert(rest[j] == v[j + 1]);
        }
        assert(rest[i - 1] == v[i]);
        lemma_content_of_first(rest, i - 1, default);
    }
}

// ---------------------------------------------------------------------------
// Review and writing
// ---------------------------------------------------------------------------

/// Outcome of the interactive review step.
#[derive(Debug, Clone, Copy, PartialEq, Eq, Structural)]
pub enum ReviewDecision {
    /// User approved the generated content.
    Approved,
    /// User rejected the generated content.
    Rejected,
}

/// What a language model gave back.
#[derive(Debug, Clone)]
pub struct ModelReply {
    pub success: bool,
    pub stdout: String,
}

/// A reply is of use where it succeeded and says something.
pub open spec fn is_useful(reply: ModelReply) -> bool {
    reply.success && trim(reply.stdout@).len() > 0
}

/// The files that a reply holds, or `None` where the static templates are to be
/// used instead: the invocation failed or its output is empty.
pub fn generated_files(reply: &ModelReply) -> (r: Option<Vec<RuleFile>>)
    ensures
        r is Some <==> is_useful(*reply),
        r matches Some(files) ==> rule_views(files@) == ordered_files(found_files(reply.stdout@)),
{
    let text = trimmed(reply.stdout.as_str());
    let cs = chars_of(text.as_str());
    if !reply.success || cs.len() == 0 {
        None
    } else {
        Some(parse_llm_response(reply.stdout.as_str()))
    }
}

/// Applies the decision on generated files. `exists` says of each whether it
/// exists. Nothing is written where they were rejected; else existing files are
/// preserved unless `force` is `true`.
pub fn apply_review(
    workspace_root: &str,
    files: &Vec<RuleFile>,
    decision: ReviewDecision,
    force: bool,
    exists: &Vec<bool>,
    assistant: &Assistant,
) -> (r: BootstrapResult)
    requires
        exists.len() == files.len(),
    ensures
        decision == ReviewDecision::Approved ==> writes(
            r,
            rules_dir_of(workspace_root@, assistant.name@),
            rule_views(files@),
            exists@,
            force,
            true,
        ),
        decision == ReviewDecision::Rejected ==> r.rules_dir@ == rules_dir_of(workspace_root@, assistant.name@)
            && r.written.len() == 0 && r.skipped.len() == 0 && r.llm_generated && r.pr_url is None,
{
    let dir = rules_dir(workspace_root, assistant);
    match decision {
        ReviewDecision::Approved => write_files(dir.as_str(), files, force, exists, true),
        ReviewDecision::Rejected => BootstrapResult {
            rules_dir: dir,
            written: Vec::new(),
            skipped: Vec::new(),
            llm_generated: true,
            pr_url: None,
        },
    }
}

/// The files that a bootstrap with a language model is about: those of a useful
/// reply, else those of the templates.
pub open spec fn planned(reply: ModelReply) -> Seq<(Seq<char>, Seq<char>)> {
    if is_useful(reply) {
        ordered_files(found_files(reply.stdout@))
    } else {
        default_rules()
    }
}

/// The files that a bootstrap with a language model is about.
pub fn planned_files(reply: &ModelReply) -> (r: Vec<RuleFile>)
    ensures
        rule_views(r@) == planned(*reply),
{
    match generated_files(reply) {
        Some(files) => files,
        None => default_files(),
    }
}

/// Runs the LLM-based bootstrap on a reply of the model and the decision of the
/// user on what it generated.
///
/// `exists` says of each planned file whether it exists. A reply that is of no
/// use falls back to the static templates, whatever the decision.
pub fn run_with_llm_interactive(
    workspace_root: &str,
    force: bool,
    reply: &ModelReply,
    decision: ReviewDecision,
    exists: &Vec<bool>,
    assistant: &Assistant,
) -> (r: BootstrapResult)
    requires
        exists.len() == planned(*reply).len(),
    ensures
        !is_useful(*reply) || decision == ReviewDecision::Approved ==> writes(
            r,
            rules_dir_of(workspace_root@, assistant.name@),
            planned(*reply),
            exists@,
            force,
            is_useful(*reply),
        ),
        is_useful(*reply) && decision == ReviewDecision::Rejected ==> r.rules_dir@ == rules_dir_of(
            workspace_root@,
            assistant.name@,
        ) && r.written.len() == 0 && r.skipped.len() == 0 && r.llm_generated && r.pr_url is None,
{
    match generated_files(reply) {
        Some(files) => {
            proof {
                assert(rule_views(files@).len() == files.len());
            }
            apply_review(workspace_root, &files, decision, force, exists, assistant)
        },
        None => run(workspace_root, force, exists, assistant),
    }
}

/// Runs the LLM-based bootstrap without review: all generated content is
/// approved.
pub fn run_with_llm(
    workspace_root: &str,
    force: bool,
    reply: &ModelReply,
    exists: &Vec<bool>,
    assistant: &Assistant,
) -> (r: BootstrapResult)
    requires
        exists.len() == planned(*reply).len(),
    ensures
        writes(
            r,
            rules_dir_of(workspace_root@, assistant.name@),
            planned(*reply),
            exists@,
            force,
            is_useful(*reply),
        ),
{
    run_with_llm_interactive(
        workspace_root,
        force,
        reply,
        ReviewDecision::Approved,
        exists,
        assistant,
    )
}

/// The first `n` lines of a preview.
pub open spec fn preview_lines(ls: Seq<Seq<char>>, n: nat) -> Seq<char>
    decreases n,
{
    if n == 0 {
        seq![]
    } else {
        preview_lines(ls, (n - 1) as nat) + ("  "@ + ls[n - 1] + "\n"@)
    }
}

/// The preview of a file: its first twenty lines, and how many more there are.
pub open spec fn preview(f: (Seq<char>, Seq<char>)) -> Seq<char> {
    let ls = lines(f.1);
    "=== "@ + f.0 + " ===\n"@ + preview_lines(
        ls,
        if ls.len() > 20 {
            20
        } else {
            ls.len()
        },
    ) + (if ls.len() > 20 {
        "  ... ("@ + dec((ls.len() - 20) as nat) + " more lines)\n"@
    } else {
        seq![]
    }) + "\n"@
}

/// The previews of the first `n` files.
pub open spec fn previews(v: Seq<(Seq<char>, Seq<char>)>, n: nat) -> Seq<char>
    decreases n,
{
    if n == 0 {
        seq![]
    } else {
        previews(v, (n - 1) as nat) + preview(v[n - 1])
    }
}

/// What is shown before the files are accepted.
pub open spec fn review_text(v: Seq<(Seq<char>, Seq<char>)>) -> Seq<char> {
    "\n--- Generated Convention Files ---\n\n"@ + previews(v, v.len())
        + "Accept these conventions? [Y/n] "@
}

fn write_preview(f: &RuleFile) -> (r: String)
    ensures
        r@ == preview((f.name@, f.content@)),
{
    let ls = lines_of(f.content.as_str());
    let ghost all = lines(f.content@);
    let shown: usize = if ls.len() > 20 {
        20
    } else {
        ls.len()
    };
    let mut rows = String::new();
    let mut i: usize = 0;
    proof {
        assert(texts(ls@).len() == ls.len());
    }
    while i < shown
        invariant
            i <= shown <= ls.len(),
            texts(ls@) == all,
            rows@ == preview_lines(all, i as nat),
        decreases shown - i,
    {
        proof {
            assert(all[i as int] == ls@[i as int]@);
        }
        let row = cat3("  ", ls[i].as_str(), "\n");
        rows.append(row.as_str());
        i = i + 1;
    }
    let mut out = cat3("=== ", f.name.as_str(), " ===\n");
    out.append(rows.as_str());
    let more = if ls.len() > 20 {
        let n = dec_usize(ls.len() - 20);
        cat3("  ... (", n.as_str(), " more lines)\n")
    } else {
        String::new()
    };
    out.append(more.as_str());
    out.append("\n");
    out
}

/// What is shown of generated files before the user is asked to accept them.
pub fn write_review(files: &Vec<RuleFile>) -> (r: String)
    ensures
        r@ == review_text(rule_views(files@)),
{
    let mut rows = String::new();
    let mut i: usize = 0;
    while i < files.len()
        invariant
            i <= files.len(),
            rows@ == previews(rule_views(files@), i as nat),
        decreases files.len() - i,
    {
        let row = write_preview(&files[i]);
        rows.append(row.as_str());
        i = i + 1;
    }
    cat3(
        "\n--- Generated Convention Files ---\n\n",
        rows.as_str(),
        "Accept these conventions? [Y/n] ",
    )
}

/// The decision that the user typed; `None` where nothing could be read.
pub fn prompt_user_review(input: Option<&str>) -> (r: ReviewDecision)
    ensures
        r == ReviewDecision::Approved <==> input is Some && is_yes(input.unwrap()@),
{
    match input {
        Some(text) => if means_yes(text) {
            ReviewDecision::Approved
        } else {
            ReviewDecision::Rejected
        },
        None => ReviewDecision::Rejected,
    }
}

/// What is told of a result.
pub open spec fn result_text(written: Seq<Seq<char>>, skipped: Seq<Seq<char>>, llm: bool) -> Seq<
    char,
> {
    path_lines("  created: "@, written, written.len()) + path_lines(
        "  skipped: "@,
        skipped,
        skipped.len(),
    ) + (if llm {
        "  (generated by LLM)\n"@
    } else {
        seq![]
    })
}

/// What is told of a result: the files that were written, those that were
/// skipped, and whether a language model wrote them.
pub fn result_message(result: &BootstrapResult) -> (r: String)
    ensures
        r@ == result_text(
            file_paths(file_views(result.written@)),
            texts(result.skipped@),
            result.llm_generated,
        ),
{
    let paths = paths_of(&result.written);
    proof {
        assert(texts(paths@).len() == paths.len());
    }
    let mut out = write_path_lines("  created: ", &paths);
    let skipped = write_path_lines("  skipped: ", &result.skipped);
    out.append(skipped.as_str());
    let note = if result.llm_generated {
        "  (generated by LLM)\n".to_string()
    } else {
        String::new()
    };
    out.append(note.as_str());
    out
}

// ---------------------------------------------------------------------------
// The pull request
// ---------------------------------------------------------------------------

/// A pull request is made where it was asked for and files of a language model
/// were written; none is made of the static templates.
pub fn wants_pr(create_pr: bool, result: &BootstrapResult) -> (r: bool)
    ensures
        r == (create_pr && result.llm_generated && result.written.len() > 0),
{
    create_pr && result.llm_generated && result.written.len() > 0
}

/// The name of the branch of a pull request.
pub open spec fn branch_name(timestamp: u64) -> Seq<char> {
    "bootstrap/"@ + dec(timestamp as nat)
}

/// The arguments of the git commands before the pull request is made.
pub open spec fn git_arguments(timestamp: u64, k: int, assistant: Seq<char>) -> Seq<Seq<char>> {
    if k == 0 {
        seq!["checkout"@, "-b"@, branch_name(timestamp)]
    } else if k == 1 {
        seq!["add"@, rules_part(assistant) + "/"@]
    } else if k == 2 {
        seq![
            "commit"@,
            "-m"@,
            "chore(bootstrap): generate conventions\n\nGenerated by `belt bootstrap --llm`."@,
        ]
    } else {
        seq!["push"@, "-u"@, "origin"@, branch_name(timestamp)]
    }
}

/// The arguments of the command that makes the pull request.
pub open spec fn pr_arguments(assistant: Seq<char>) -> Seq<Seq<char>> {
    seq![
        "pr"@,
        "create"@,
        "--title"@,
        "chore: add convention.yaml"@,
        "--body"@,
        "Generated convention files via `belt bootstrap --llm`.\n\nThis PR adds project-specific convention rules under `"@
            + rules_part(assistant) + "/`."@,
    ]
}

/// The next step towards a pull request.
#[derive(Debug, Clone)]
pub enum PrStep {
    /// A command is run in the workspace.
    Run { program: String, args: Vec<String> },
    /// The pull request was made; its URL.
    Done(String),
    /// A command failed.
    Failed(String),
}

/// The next step towards a pull request, as plain values.
pub ghost enum PrStepView {
    Run { program: Seq<char>, args: Seq<Seq<char>> },
    Done(Seq<char>),
    Failed(Seq<char>),
}

impl View for PrStep {
    type V = PrStepView;

    open spec fn view(&self) -> PrStepView {
        match *self {
            PrStep::Run { program, args } => PrStepView::Run { program: program@, args: texts(args@) },
            PrStep::Done(url) => PrStepView::Done(url@),
            PrStep::Failed(e) => PrStepView::Failed(e@),
        }
    }
}

/// The step after `n` commands, of which the last gave back `last`: four git
/// commands, then the one that makes the pull request.
pub open spec fn pr_step(
    timestamp: u64,
    n: int,
    last: Option<CommandOutput>,
    assistant: Seq<char>,
) -> PrStepView {
    if n > 0 && last is Some && !last.unwrap().success {
        if n == 5 {
            PrStepView::Failed("gh pr create failed: "@ + trim(last.unwrap().stderr@))
        } else {
            PrStepView::Failed(
                "git "@ + join(git_arguments(timestamp, n - 1, assistant), " "@) + " failed: "@ + trim(
                    last.unwrap().stderr@,
                ),
            )
        }
    } else if n < 4 {
        PrStepView::Run { program: "git"@, args: git_arguments(timestamp, n, assistant) }
    } else if n == 4 {
        PrStepView::Run { program: "gh"@, args: pr_arguments(assistant) }
    } else {
        PrStepView::Done(trim(last.unwrap().stdout@))
    }
}

fn git_args(timestamp: u64, k: usize, assistant: &Assistant) -> (r: Vec<String>)
    ensures
        texts(r@) == git_arguments(timestamp, k as int, assistant.name@),
{
    let stamp = dec_u64(timestamp);
    let branch = cat2("bootstrap/", stamp.as_str());
    let mut args: Vec<String> = Vec::new();
    if k == 0 {
        args.push("checkout".to_string());
        args.push("-b".to_string());
        args.push(branch);
    } else if k == 1 {
        args.push("add".to_string());
        let rules = assistant.rules_part();
        args.push(cat2(rules.as_str(), "/"));
    } else if k == 2 {
        args.push("commit".to_string());
        args.push("-m".to_string());
        args.push(
            "chore(bootstrap): generate conventions\n\nGenerated by `belt bootstrap --llm`.".to_string(),
        );
    } else {
        args.push("push".to_string());
        args.push("-u".to_string());
        args.push("origin".to_string());
        args.push(branch);
    }
    proof {
        assert(texts(args@) =~= git_arguments(timestamp, k as int, assistant.name@));
    }
    args
}

fn pr_args(assistant: &Assistant) -> (r: Vec<String>)
    ensures
        texts(r@) == pr_arguments(assistant.name@),
{
    let mut args: Vec<String> = Vec::new();
    args.push("pr".to_string());
    args.push("create".to_string());
    args.push("--title".to_string());
    args.push("chore: add convention.yaml".to_string());
    args.push("--body".to_string());
    let rules = assistant.rules_part();
    args.push(
        cat3(
            "Generated convention files via `belt bootstrap --llm`.\n\nThis PR adds project-specific convention rules under `",
            rules.as_str(),
            "/`.",
        ),
    );
    proof {
        assert(texts(args@) =~= pr_arguments(assistant.name@));
    }
    args
}

/// Decides the next step towards a pull request: create a branch, commit the
/// convention files, push, and open the pull request.
///
/// `n` is the number of commands that were run, `last` what the last of them
/// gave back.
pub fn create_bootstrap_pr(
    timestamp: u64,
    n: usize,
    last: &Option<CommandOutput>,
    assistant: &Assistant,
) -> (r: PrStep)
    requires
        n <= 5,
        n > 0 <==> last is Some,
    ensures
        r@ == pr_step(timestamp, n as int, *last, assistant.name@),
{
    match last {
        Some(output) => {
            if !output.success {
                let stderr = trimmed(output.stderr.as_str());
                if n == 5 {
                    return PrStep::Failed(cat2("gh pr create failed: ", stderr.as_str()));
                }
                let args = git_args(timestamp, n - 1, assistant);
                let line = joined(&args, " ");
                return PrStep::Failed(cat4("git ", line.as_str(), " failed: ", stderr.as_str()));
            }
            if n == 5 {
                return PrStep::Done(trimmed(output.stdout.as_str()));
            }
        },
        None => {},
    }
    if n < 4 {
        PrStep::Run { program: "git".to_string(), args: git_args(timestamp, n, assistant) }
    } else {
        PrStep::Run { program: "gh".to_string(), args: pr_args(assistant) }
    }
}

/// A command that failed ends the work on a pull request.
pub proof fn law_failure_ends_the_pull_request(
    timestamp: u64,
    n: int,
    last: CommandOutput,
    assistant: Seq<char>,
)
    requires
        0 < n <= 5,
        !last.success,
    ensures
        pr_step(timestamp, n, Some(last), assistant) is Failed,
{
}

// ---------------------------------------------------------------------------
// Laws on replies
// ---------------------------------------------------------------------------

proof fn lemma_no_delimiter_before(ls: Seq<Seq<char>>)
    ensures
        lines_before(ls) <= ls.len(),
        forall|i: int| 0 <= i < lines_before(ls) ==> !is_delimiter(#[trigger] ls[i]),
        lines_before(ls) < ls.len() ==> is_delimiter(ls[lines_before(ls) as int]),
    decreases ls.len(),
{
    if ls.len() > 0 && !is_delimiter(ls[0]) {
        let rest = ls.skip(1);
        lemma_no_delimiter_before(rest);
        assert forall|i: int| 0 <= i < lines_before(ls) implies !is_delimiter(#[trigger] ls[i]) by {
            if i > 0 {
                assert(ls[i] == rest[i - 1]);
            }
        }
    }
}

/// Line `i` begins a file, and the file ends before line `j`: at the next
/// delimiter, or at the end.
pub open spec fn is_file_at(ls: Seq<Seq<char>>, i: int, j: int) -> bool {
    &&& 0 <= i < j <= ls.len()
    &&& is_delimiter(ls[i])
    &&& forall|k: int| i < k < j ==> !is_delimiter(#[trigger] ls[k])
    &&& j < ls.len() ==> is_delimiter(ls[j])
}

/// Each delimiter begins a file, which holds all lines up to the next delimiter,
/// white space at its ends aside.
pub proof fn law_files_hold_their_lines(ls: Seq<Seq<char>>, i: int, j: int) -> (k: int)
    requires
        is_file_at(ls, i, j),
    ensures
        0 <= k < blocks(ls).len(),
        blocks(ls)[k].0 == delimited_name(ls[i]),
        blocks(ls)[k].1 == trim(join(ls.subrange(i + 1, j), "\n"@)),
    decreases ls.len(),
{
    let rest = ls.skip(1);
    if is_delimiter(ls[0]) {
        let n = lines_before(rest) as int;
        lemma_no_delimiter_before(rest);
        if i == 0 {
            assert(n == j - 1) by {
                if n < j - 1 {
                    assert(is_delimiter(ls[n + 1]));
                }
                if n > j - 1 {
                    assert(rest[j - 1] == ls[j]);
                }
            }
            assert(rest.take(n) =~= ls.subrange(1, j));
            0
        } else {
            assert(n <= i - 1) by {
                if n > i - 1 {
                    assert(rest[i - 1] == ls[i]);
                }
            }
            let later = from_delimiter(rest);
            assert(later =~= ls.skip(n + 1));
            assert forall|k: int| i - n - 1 < k < j - n - 1 implies !is_delimiter(
                #[trigger] later[k],
            ) by {
                assert(later[k] == ls[k + n + 1]);
            }
            if j < ls.len() {
                assert(later[j - n - 1] == ls[j]);
            }
            assert(later[i - n - 1] == ls[i]);
            let k = law_files_hold_their_lines(later, i - n - 1, j - n - 1);
            assert(later.subrange(i - n, j - n - 1) =~= ls.subrange(i + 1, j));
            k + 1
        }
    } else {
        assert forall|k: int| i - 1 < k < j - 1 implies !is_delimiter(#[trigger] rest[k]) by {
            assert(rest[k] == ls[k + 1]);
        }
        if j < ls.len() {
            assert(rest[j - 1] == ls[j]);
        }
        assert(rest[i - 1] == ls[i]);
        let k = law_files_hold_their_lines(rest, i - 1, j - 1);
        assert(rest.subrange(i, j - 1) =~= ls.subrange(i + 1, j));
        k
    }
}

/// What stands in a text and has no blank at its ends still stands in it when
/// blanks were taken off the ends of the text.
proof fn lemma_trimming_keeps_parts(s: Seq<char>, part: Seq<char>)
    requires
        holds(s, part),
        part.len() > 0,
        !is_white(part[0]),
        !is_white(part.last()),
    ensures
        holds(trim(s), part),
{
    let (a, b) = law_trimming_takes_blanks_alone(s);
    let t = trim(s);
    let i = choose|i: int|
        0 <= i && i + part.len() <= s.len() && #[trigger] s.subrange(i, i + part.len()) == part;
    assert(s[i] == part[0]);
    assert(s[i + part.len() - 1] == part.last());
    if i < a.len() {
        assert(s[i] == a[i]);
    }
    if i + part.len() > a.len() + t.len() {
        assert(s[i + part.len() - 1] == b[i + part.len() - 1 - a.len() - t.len()]);
    }
    let k = i - a.len();
    assert(t.subrange(k, k + part.len()) =~= part) by {
        assert forall|m: int| 0 <= m < part.len() implies t[k + m] == part[m] by {
            assert(s[i + m] == t[k + m]);
            assert(s.subrange(i, i + part.len())[m] == s[i + m]);
        }
    }
}

/// Every line between a delimiter and the next one stands whole, white space
/// around it aside, in the file that the delimiter begins.
pub proof fn law_no_line_of_a_file_is_lost(ls: Seq<Seq<char>>, i: int, j: int, m: int) -> (k: int)
    requires
        is_file_at(ls, i, j),
        i < m < j,
        trim(ls[m]).len() > 0,
    ensures
        0 <= k < blocks(ls).len(),
        blocks(ls)[k].0 == delimited_name(ls[i]),
        holds(blocks(ls)[k].1, trim(ls[m])),
{
    let k = law_files_hold_their_lines(ls, i, j);
    let body = ls.subrange(i + 1, j);
    let whole = join(body, "\n"@);
    assert(body[m - i - 1] == ls[m]);
    law_a_joined_text_holds_its_parts(body, "\n"@, m - i - 1);
    let (a, b) = law_trimming_takes_blanks_alone(ls[m]);
    let t = trim(ls[m]);
    assert(holds(ls[m], t)) by {
        let at = a.len() as int;
        assert(ls[m].subrange(at, at + t.len()) =~= t);
    }
    lemma_holds_through(whole, ls[m], t);
    lemma_trimming_keeps_parts(whole, t);
    k
}

/// A reply of one file gives that file: its name, and all lines behind the
/// delimiter, however many there are.
pub proof fn law_a_reply_of_one_file(name: Seq<char>, body: Seq<char>)
    requires
        name.len() > 0,
        !is_white(name[0]),
        !is_white(name.last()),
        forall|i: int| 0 <= i < name.len() ==> name[i] != '\n',
        undelimited(lines(body)),
        trim(join(lines(body), "\n"@)).len() > 0,
    ensures
        found_files("--- FILE: "@ + name + " ---"@ + seq!['\n'] + body) == seq![
            (name, trim(join(lines(body), "\n"@))),
        ],
{
    reveal_strlit("--- FILE: ");
    reveal_strlit(" ---");
    let first = "--- FILE: "@ + name + " ---"@;
    let response = first + seq!['\n'] + body;
    assert forall|i: int| 0 <= i < first.len() implies first[i] != '\n' by {
        if 10 <= i < 10 + name.len() {
            assert(first[i] == name[i - 10]);
        }
    }
    law_lines_end_at_line_feeds(first, body);
    let ls = lines(response);
    let rest = lines(body);
    assert(ls == seq![first] + rest);
    law_trimmed_text_stays(first);
    assert(first.take(10) =~= "--- FILE: "@);
    assert(first.skip(first.len() - 4) =~= " ---"@);
    assert(is_delimiter(ls[0]));
    assert(first.subrange(10, first.len() - 4) =~= name);
    law_trimmed_text_stays(name);
    assert(ls.skip(1) =~= rest);
    assert(forall|i: int| 0 <= i < rest.len() ==> !is_delimiter(#[trigger] rest[i]));
    lemma_lines_before(rest, rest.len() as int);
    assert(rest.take(rest.len() as int) =~= rest);
    let later = from_delimiter(rest);
    assert(later.len() == 0);
    assert(blocks(later).len() == 0);
    let file = (name, trim(join(rest, "\n"@)));
    assert(delimited_name(ls[0]) == name);
    assert(blocks(ls) == seq![file] + blocks(later));
    assert(blocks(ls) =~= seq![file]);
}

/// What a reply says of a rule file is what the file holds.
pub proof fn law_rule_files_hold_what_the_reply_says(
    name: Seq<char>,
    content: Seq<char>,
    k: int,
)
    requires
        0 <= k < 4,
        name == rule_name(k),
    ensures
        ordered_files(seq![(name, content)])[k] == (name, content),
{
    let v = seq![(name, content)];
    assert(content_of(v, name, rule_template(k)) == content);
}

/// A reply without a delimiter is `project.md`, whole; a blank one is nothing.
pub proof fn law_an_undelimited_reply_is_one_file(response: Seq<char>)
    requires
        undelimited(lines(response)),
    ensures
        trim(response).len() > 0 ==> found_files(response) == seq![("project.md"@, trim(response))],
        trim(response).len() == 0 ==> found_files(response).len() == 0,
{
}

/// A reply with delimiters gives all its files; only an empty one at the end is
/// left out.
pub proof fn law_replies_give_all_their_files(response: Seq<char>, k: int)
    requires
        0 <= k < blocks(lines(response)).len(),
        k < blocks(lines(response)).len() - 1 || blocks(lines(response))[k].1.len() > 0,
    ensures
        k < found_files(response).len(),
        found_files(response)[k] == blocks(lines(response))[k],
{
    lemma_undelimited(lines(response));
}

/// A rule file stands in the directory of rules under its own name, with its own
/// content.
pub proof fn law_rule_files_are_placed_by_name(dir: Seq<char>, v: Seq<(Seq<char>, Seq<char>)>, i: int)
    requires
        0 <= i < v.len(),
    ensures
        placed(dir, v).len() == v.len(),
        placed(dir, v)[i].path == path_in(dir, v[i].0),
        placed(dir, v)[i].content == v[i].1,
{
}

/// The four rule files and their templates.
pub proof fn law_the_four_rule_files()
    ensures
        default_rules().len() == 4,
        default_rules()[0] == ("project.md"@, PROJECT_MD@),
        default_rules()[1] == ("coding.md"@, CODING_MD@),
        default_rules()[2] == ("commit.md"@, COMMIT_MD@),
        default_rules()[3] == ("testing.md"@, TESTING_MD@),
{
}

/// The question to the model says all that is known of the project, and asks for
/// the files in the form in which they are read.
pub proof fn law_prompts_tell_of_the_project(info: ProjectInfo)
    ensures
        holds(llm_prompt(info), info.name@ + "\n- Language: "@),
        holds(llm_prompt(info), "\n- Language: "@ + info.language@),
        holds(llm_prompt(info), "\n- Framework: "@ + info.framework@),
        holds(llm_prompt(info), "\n- Description: "@ + info.description@),
        holds(llm_prompt(info), PROMPT_END@),
{
    broadcast use group_holds;

}

/// A useless reply leaves the templates; a useful one gives its files.
pub proof fn law_only_useful_replies_are_used(reply: ModelReply)
    ensures
        !reply.success || all_white(reply.stdout@) ==> planned(reply) == default_rules(),
        reply.success && !all_white(reply.stdout@) ==> planned(reply) == ordered_files(
            found_files(reply.stdout@),
        ),
{
    let r = law_trimming_takes_blanks_alone(reply.stdout@);
}

proof fn lemma_preview_lines_hold(ls: Seq<Seq<char>>, n: nat, i: int)
    requires
        0 <= i < n <= ls.len(),
    ensures
        holds(preview_lines(ls, n), "  "@ + ls[i] + "\n"@),
    decreases n,
{
    broadcast use group_holds;

    if i < n - 1 {
        lemma_preview_lines_hold(ls, (n - 1) as nat, i);
    }
}

proof fn lemma_previews_hold(v: Seq<(Seq<char>, Seq<char>)>, n: nat, i: int, part: Seq<char>)
    requires
        0 <= i < n <= v.len(),
        holds(preview(v[i]), part),
    ensures
        holds(previews(v, n), part),
    decreases n,
{
    broadcast use group_holds;

    if i < n - 1 {
        lemma_previews_hold(v, (n - 1) as nat, i, part);
    }
}

/// Before the user decides, every file is shown: its name, its first twenty lines,
/// and how many more there are.
pub proof fn law_every_file_is_shown_for_review(v: Seq<(Seq<char>, Seq<char>)>, i: int, m: int)
    requires
        0 <= i < v.len(),
    ensures
        holds(review_text(v), "=== "@ + v[i].0 + " ===\n"@),
        0 <= m < lines(v[i].1).len() && m < 20 ==> holds(
            review_text(v),
            "  "@ + lines(v[i].1)[m] + "\n"@,
        ),
        lines(v[i].1).len() > 20 ==> holds(
            review_text(v),
            dec((lines(v[i].1).len() - 20) as nat) + " more lines)\n"@,
        ),
{
    broadcast use group_holds;

    let ls = lines(v[i].1);
    let n: nat = if ls.len() > 20 {
        20
    } else {
        ls.len()
    };
    let title = "=== "@ + v[i].0 + " ===\n"@;
    assert(holds(title, title));
    assert(holds(preview(v[i]), title));
    lemma_previews_hold(v, v.len(), i, title);
    if 0 <= m < n {
        let line = "  "@ + ls[m] + "\n"@;
        lemma_preview_lines_hold(ls, n, m);
        assert(holds(preview(v[i]), line));
        lemma_previews_hold(v, v.len(), i, line);
    }
    if ls.len() > 20 {
        let more = dec((ls.len() - 20) as nat) + " more lines)\n"@;
        assert(holds("  ... ("@ + dec((ls.len() - 20) as nat) + " more lines)\n"@, more));
        assert(holds(preview(v[i]), more));
        lemma_previews_hold(v, v.len(), i, more);
    }
}

/// What is told of a result names every file that was written and every one that
/// was skipped.
pub proof fn law_results_name_their_files(
    written: Seq<Seq<char>>,
    skipped: Seq<Seq<char>>,
    llm: bool,
    i: int,
)
    ensures
        0 <= i < written.len() ==> holds(
            result_text(written, skipped, llm),
            "  created: "@ + written[i] + "\n"@,
        ),
        0 <= i < skipped.len() ==> holds(
            result_text(written, skipped, llm),
            "  skipped: "@ + skipped[i] + "\n"@,
        ),
        llm ==> holds(result_text(written, skipped, llm), "  (generated by LLM)\n"@),
{
    broadcast use group_holds;

    if 0 <= i < written.len() {
        law_every_path_has_its_line("  created: "@, written, written.len(), i);
    }
    if 0 <= i < skipped.len() {
        law_every_path_has_its_line("  skipped: "@, skipped, skipped.len(), i);
    }
}

/// A pull request takes four steps of git and one of the forge: the branch that is
/// pushed is the one that was made, and what is added are the rules. Its URL is
/// what the forge printed.
pub proof fn law_a_pull_request_takes_five_steps(
    timestamp: u64,
    last: Option<CommandOutput>,
    assistant: Seq<char>,
)
    requires
        last is Some ==> last.unwrap().success,
    ensures
        pr_step(timestamp, 0, None, assistant)->program == "git"@,
        pr_step(timestamp, 0, None, assistant)->args.last() == "bootstrap/"@ + dec(timestamp as nat),
        pr_step(timestamp, 1, last, assistant)->args == seq!["add"@, rules_part(assistant) + "/"@],
        pr_step(timestamp, 2, last, assistant)->args[0] == "commit"@,
        pr_step(timestamp, 3, last, assistant)->args[0] == "push"@,
        pr_step(timestamp, 3, last, assistant)->args.last() == pr_step(
            timestamp,
            0,
            None,
            assistant,
        )->args.last(),
        pr_step(timestamp, 4, last, assistant)->program == "gh"@,
        pr_step(timestamp, 4, last, assistant)->args[0] == "pr"@,
        last is Some ==> pr_step(timestamp, 5, last, assistant) == PrStepView::Done(
            trim(last.unwrap().stdout@),
        ),
{
}

/// A step that failed is told with what it printed.
pub proof fn law_failed_steps_are_told(timestamp: u64, n: int, last: CommandOutput, assistant: Seq<char>)
    requires
        0 < n <= 5,
        !last.success,
    ensures
        pr_step(timestamp, n, Some(last), assistant) is Failed,
        holds(pr_step(timestamp, n, Some(last), assistant)->Failed_0, trim(last.stderr@)),
{
    broadcast use group_holds;

}

/// Rule files keep their number, their order, their names and their contents.
pub proof fn law_rule_files_keep_their_contents(v: Seq<RuleFile>, i: int)
    requires
        0 <= i < v.len(),
    ensures
        rule_views(v).len() == v.len(),
        rule_views(v)[i].0 == v[i].name@,
        rule_views(v)[i].1 == v[i].content@,
{
}

/// Where the user insists, every file is written under its name with its content,
/// and none is skipped.
pub proof fn law_forced_files_are_all_written(
    r: BootstrapResult,
    dir: Seq<char>,
    files: Seq<(Seq<char>, Seq<char>)>,
    exists: Seq<bool>,
    llm: bool,
    i: int,
)
    requires
        writes(r, dir, files, exists, true, llm),
        exists.len() == files.len(),
        0 <= i < files.len(),
    ensures
        r.rules_dir@ == dir,
        r.llm_generated == llm,
        r.written.len() == files.len(),
        r.written@[i].path@ == path_in(dir, files[i].0),
        r.written@[i].content@ == files[i].1,
        r.skipped.len() == 0,
{
    let all = placed(dir, files);
    lemma_all_chosen(all, exists, files.len());
    assert(all.take(files.len() as int) =~= all);
    assert(file_views(r.written@).len() == r.written.len());
    assert(file_views(r.written@)[i] == all[i]);
    assert(file_views(r.written@)[i] == r.written@[i]@);
    assert(texts(r.skipped@).len() == 0);
}

proof fn lemma_all_chosen(template: Seq<FileView>, exists: Seq<bool>, n: nat)
    requires
        n <= template.len(),
    ensures
        chosen(template, exists, true, n) == template.take(n as int),
        kept(template, exists, true, n).len() == 0,
    decreases n,
{
    if n > 0 {
        lemma_all_chosen(template, exists, (n - 1) as nat);
        assert(template.take(n - 1).push(template[n - 1]) =~= template.take(n as int));
    } else {
        assert(template.take(0) =~= seq![]);
    }
}

/// The rules of a workspace stand in its own directory.
pub proof fn law_rules_stand_in_the_workspace(root: Seq<char>, assistant: Seq<char>)
    ensures
        rules_dir_of(root, assistant) == path_in(root, rules_part(assistant)),
{
}

/// A step is what it looks like.
pub proof fn law_steps_are_what_they_say(step: PrStep)
    ensures
        step matches PrStep::Run { program, args } ==> step@ == (PrStepView::Run {
            program: program@,
            args: texts(args@),
        }),
        step matches PrStep::Done(url) ==> step@ == PrStepView::Done(url@),
        step matches PrStep::Failed(e) ==> step@ == PrStepView::Failed(e@),
{
}

/// The rules are the four files of that name, and no others.
pub proof fn law_four_names_are_rules(name: Seq<char>)
    ensures
        is_rule_name(name) <==> name == "project.md"@ || name == "coding.md"@ || name
            == "commit.md"@ || name == "testing.md"@,
{
}

/// A line delimits a file if and only if it is the opening mark, a name and the
/// closing mark, with blanks around it or none.
pub proof fn law_delimiters_enclose_a_name(line: Seq<char>, name: Seq<char>)
    ensures
        trim(line) == "--- FILE: "@ + name + " ---"@ ==> is_delimiter(line),
        is_delimiter(line) ==> exists|n: Seq<char>|
            trim(line) == #[trigger] ("--- FILE: "@ + n + " ---"@),
{
    reveal_strlit("--- FILE: ");
    reveal_strlit(" ---");
    let t = trim(line);
    if t == "--- FILE: "@ + name + " ---"@ {
        assert(t.take(10) =~= "--- FILE: "@);
        assert(t.skip(t.len() - 4) =~= " ---"@);
    }
    if is_delimiter(line) {
        let n = t.subrange(10, t.len() - 4);
        assert(t =~= t.take(10) + n + t.skip(t.len() - 4));
        assert(t == "--- FILE: "@ + n + " ---"@);
    }
}

} // verus!
