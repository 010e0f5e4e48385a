//! Adding a spec: conflicts with other specs, the issues that stand for it,
//! and its decomposition into child issues.

use vstd::prelude::*;

use crate::bytes::byte_len;
use crate::bytes::byte_prefix;
use crate::bytes::cuts_at;
use crate::bytes::first_bytes;
use crate::bytes::law_first_bytes_are_the_beginning;
use crate::links::extract_issue_number;
use crate::links::issue_number;
use crate::links::law_issue_numbers_end_their_urls;
use crate::pieces::group_holds;
use crate::pieces::holds;
use crate::process::CommandOutput;
use crate::queue::HitlReason;
use crate::queue::QueuePhase;
use crate::scan::all_digits;
use crate::scan::all_white;
use crate::scan::begins;
use crate::scan::dropped;
use crate::scan::ends;
use crate::scan::has_prefix;
use crate::scan::has_suffix;
use crate::scan::is_white;
use crate::scan::join;
use crate::scan::joined;
use crate::scan::law_a_joined_text_holds_its_parts;
use crate::scan::law_trimmed_text_stays;
use crate::scan::law_trimming_undoes_blanks;
use crate::scan::trim;
use crate::scan::trimmed;
use crate::text::cat2;
use crate::text::cat3;
use crate::text::cat4;
use crate::text::cat5;
use crate::text::chars_of;
use crate::text::dec;
use crate::text::dec_i64;
use crate::text::dec_int;
use crate::text::dec_usize;
use crate::text::opt_text;
use crate::text::string_of;
use crate::text::text_eq;
use crate::text::texts;

verus! {

// ---------------------------------------------------------------------------
// Validation and conflicts
// ---------------------------------------------------------------------------

/// Whether the content of a new spec is accepted: `missing` lists the required
/// sections that it lacks, where it lacks any.
pub fn check_sections(skip_validation: bool, missing: &Option<Vec<String>>) -> (r: Result<
    (),
    String,
>)
    ensures
        r is Ok <==> skip_validation || missing is None,
        r matches Err(e) ==> e@ == "spec content is missing required sections: "@ + join(
            texts(missing->0@),
            ", "@,
        ) + ". Use --skip-validation to bypass this check."@,
{
    if skip_validation {
        return Ok(());
    }
    match missing {
        None => Ok(()),
        Some(names) => {
            let list = joined(names, ", ");
            Err(
                cat3(
                    "spec content is missing required sections: ",
                    list.as_str(),
                    ". Use --skip-validation to bypass this check.",
                ),
            )
        },
    }
}

/// The id of a spec that is made at the given time in milliseconds.
pub fn spec_id(millis: i64) -> (r: String)
    ensures
        r@ == "spec-"@ + dec_int(millis as int),
{
    let shown = dec_i64(millis);
    cat2("spec-", shown.as_str())
}

/// What is done about an overlap with another spec.
#[derive(Clone, Debug)]
pub enum ConflictAction {
    /// The new spec depends on the other one.
    AutoDependency { spec_id: String },
    /// A human decides.
    Hitl { reason: String },
}

/// An overlap with another spec, and what is done about it.
#[derive(Clone, Debug)]
pub struct Resolution {
    pub existing_spec_name: String,
    pub path: String,
    pub action: ConflictAction,
}

/// What is said of one overlap.
pub open spec fn resolution_line(x: Resolution) -> Seq<char> {
    match x.action {
        ConflictAction::AutoDependency { spec_id } => "info: auto-registering dependency on spec '"@
            + x.existing_spec_name@ + "' ("@ + spec_id@ + ") due to module overlap at '"@ + x.path@
            + "'\n"@,
        ConflictAction::Hitl { reason } => "warning: HITL required - "@ + reason@ + "\n"@,
    }
}

/// What is said of the first `n` overlaps.
pub open spec fn resolution_lines(xs: Seq<Resolution>, n: nat) -> Seq<char>
    decreases n,
{
    if n == 0 {
        seq![]
    } else {
        resolution_lines(xs, (n - 1) as nat) + resolution_line(xs[n - 1])
    }
}

/// The specs that the new spec comes to depend on, in order.
pub open spec fn dependencies(xs: Seq<Resolution>) -> Seq<Seq<char>>
    decreases xs.len(),
{
    if xs.len() == 0 {
        seq![]
    } else {
        match xs.last().action {
            ConflictAction::AutoDependency { spec_id } => dependencies(xs.drop_last()).push(
                spec_id@,
            ),
            ConflictAction::Hitl { reason } => dependencies(xs.drop_last()),
        }
    }
}

/// Some overlap is left to a human.
pub open spec fn needs_human(xs: Seq<Resolution>) -> bool {
    exists|i: int| 0 <= i < xs.len() && (#[trigger] xs[i]).action is Hitl
}

/// What follows from the overlaps of a new spec.
#[derive(Debug)]
pub struct ConflictPlan {
    pub messages: String,
    pub dependencies: Vec<String>,
    pub needs_human: bool,
}

/// Decides what follows from the overlaps of a new spec: module overlaps
/// become dependencies, the others are left to a human.
pub fn plan_conflicts(xs: &Vec<Resolution>) -> (r: ConflictPlan)
    ensures
        r.messages@ == resolution_lines(xs@, xs.len() as nat),
        texts(r.dependencies@) == dependencies(xs@),
        r.needs_human == needs_human(xs@),
{
    let mut messages = String::new();
    let mut deps: Vec<String> = Vec::new();
    let mut human = false;
    let mut i: usize = 0;
    proof {
        assert(texts(deps@) =~= dependencies(xs@.take(0)));
    }
    while i < xs.len()
        invariant
            i <= xs.len(),
            messages@ == resolution_lines(xs@, i as nat),
            texts(deps@) == dependencies(xs@.take(i as int)),
            human <==> exists|j: int| 0 <= j < i && (#[trigger] xs@[j]).action is Hitl,
        decreases xs.len() - i,
    {
        let x = &xs[i];
        let ghost before = deps@;
        proof {
            assert(xs@.take(i + 1).drop_last() =~= xs@.take(i as int));
        }
        match &x.action {
            ConflictAction::AutoDependency { spec_id } => {
                let mut line = cat5(
                    "info: auto-registering dependency on spec '",
                    x.existing_spec_name.as_str(),
                    "' (",
                    spec_id.as_str(),
                    ") due to module overlap at '",
                );
                line.append(x.path.as_str());
                line.append("'\n");
                messages.append(line.as_str());
                deps.push(spec_id.clone());
                proof {
                    assert(texts(deps@) =~= texts(before).push(spec_id@));
                }
            },
            ConflictAction::Hitl { reason } => {
                let line = cat3("warning: HITL required - ", reason.as_str(), "\n");
                messages.append(line.as_str());
                human = true;
                assert(xs@[i as int].action is Hitl);
            },
        }
        i = i + 1;
    }
    proof {
        assert(xs@.take(xs@.len() as int) =~= xs@);
    }
    ConflictPlan { messages, dependencies: deps, needs_human: human }
}

/// What is said when a spec was added: that it waits for a human where it
/// must, on the error stream, and its id.
pub fn created_messages(id: &str, needs_human: bool) -> (r: (String, String))
    ensures
        r.0@ == (if needs_human {
            "notice: spec '"@ + id@
                + "' has file-level conflicts requiring human review. Spec stays in draft status until conflicts are resolved.\n"@
        } else {
            ""@
        }),
        r.1@ == "spec created: "@ + id@ + "\n"@,
{
    let notice = if needs_human {
        cat3(
            "notice: spec '",
            id,
            "' has file-level conflicts requiring human review. Spec stays in draft status until conflicts are resolved.\n",
        )
    } else {
        "".to_string()
    };
    (notice, cat3("spec created: ", id, "\n"))
}

/// An item that asks a human to review overlapping specs.
#[derive(Debug)]
pub struct ConflictItem {
    pub work_id: String,
    pub source_id: String,
    pub workspace_id: String,
    pub state: String,
    pub phase: QueuePhase,
    pub hitl_created_at: String,
    pub hitl_reason: HitlReason,
    pub hitl_notes: String,
    pub title: String,
    /// What is said when the item was added.
    pub message: String,
}

/// The item that asks a human to review the overlaps of the spec `id`.
pub fn conflict_item(id: &str, workspace: &str, name: &str, conflicts_json: &str, now: &str) -> (r:
    ConflictItem)
    ensures
        r.work_id@ == "spec-conflict:"@ + id@ + ":review"@,
        r.source_id@ == "spec:"@ + id@,
        r.workspace_id@ == workspace@,
        r.state@ == "review"@,
        r.phase == QueuePhase::Hitl,
        r.hitl_created_at@ == now@,
        r.hitl_reason == HitlReason::SpecConflict,
        r.hitl_notes@ == "spec-conflict-detected: "@ + conflicts_json@,
        r.title@ == "Spec conflict detected for '"@ + name@ + "'"@,
        r.message@ == "hitl item created: "@ + r.work_id@
            + " (reason: spec-conflict-detected)\n"@,
{
    let work_id = cat3("spec-conflict:", id, ":review");
    let message = cat3(
        "hitl item created: ",
        work_id.as_str(),
        " (reason: spec-conflict-detected)\n",
    );
    ConflictItem {
        work_id,
        source_id: cat2("spec:", id),
        workspace_id: workspace.to_owned(),
        state: "review".to_string(),
        phase: QueuePhase::Hitl,
        hitl_created_at: now.to_owned(),
        hitl_reason: HitlReason::SpecConflict,
        hitl_notes: cat2("spec-conflict-detected: ", conflicts_json),
        title: cat3("Spec conflict detected for '", name, "'"),
        message,
    }
}

// ---------------------------------------------------------------------------
// Issues
// ---------------------------------------------------------------------------

/// The arguments that add labels, for the first `n` of them.
pub open spec fn label_args(labels: Seq<Seq<char>>, n: nat) -> Seq<Seq<char>>
    decreases n,
{
    if n == 0 {
        seq![]
    } else {
        label_args(labels, (n - 1) as nat).push("--label"@).push(labels[n - 1])
    }
}

/// The arguments of `gh` that create an issue.
pub open spec fn issue_args(title: Seq<char>, body: Seq<char>, labels: Seq<Seq<char>>) -> Seq<
    Seq<char>,
> {
    seq!["issue"@, "create"@, "--title"@, title, "--body"@, body] + label_args(
        labels,
        labels.len(),
    )
}

/// The arguments of `gh` that create an issue with the given labels.
pub fn create_github_issue_with_labels(title: &str, body: &str, labels: &Vec<String>) -> (r: Vec<
    String,
>)
    ensures
        texts(r@) == issue_args(title@, body@, texts(labels@)),
{
    let mut args: Vec<String> = Vec::new();
    args.push("issue".to_string());
    args.push("create".to_string());
    args.push("--title".to_string());
    args.push(title.to_owned());
    args.push("--body".to_string());
    args.push(body.to_owned());
    let ghost head = seq!["issue"@, "create"@, "--title"@, title@, "--body"@, body@];
    proof {
        assert(texts(args@) =~= head + label_args(texts(labels@), 0));
    }
    let mut i: usize = 0;
    while i < labels.len()
        invariant
            i <= labels.len(),
            texts(args@) == head + label_args(texts(labels@), i as nat),
        decreases labels.len() - i,
    {
        let ghost before = texts(args@);
        args.push("--label".to_string());
        args.push(labels[i].clone());
        proof {
            assert(texts(args@) =~= before.push("--label"@).push(labels@[i as int]@));
            assert(before.push("--label"@).push(labels@[i as int]@) =~= head + label_args(
                texts(labels@),
                (i + 1) as nat,
            ));
        }
        i = i + 1;
    }
    args
}

/// The arguments of `gh` that create an issue which is ready to be worked on.
pub fn create_github_issue(title: &str, body: &str) -> (r: Vec<String>)
    ensures
        texts(r@) == issue_args(title@, body@, seq!["autopilot:ready"@]),
{
    let mut labels: Vec<String> = Vec::new();
    labels.push("autopilot:ready".to_string());
    proof {
        assert(texts(labels@) =~= seq!["autopilot:ready"@]);
    }
    create_github_issue_with_labels(title, body, &labels)
}

/// The arguments of `gh` that create a child issue.
pub fn create_child_issue(title: &str, body: &str) -> (r: Vec<String>)
    ensures
        texts(r@) == issue_args(title@, body@, seq!["autopilot:ready"@, "autopilot:trigger"@]),
{
    let mut labels: Vec<String> = Vec::new();
    labels.push("autopilot:ready".to_string());
    labels.push("autopilot:trigger".to_string());
    proof {
        assert(texts(labels@) =~= seq!["autopilot:ready"@, "autopilot:trigger"@]);
    }
    create_github_issue_with_labels(title, body, &labels)
}

/// What came of creating an issue.
#[derive(Debug)]
pub struct IssueResult {
    /// The URL of the new issue.
    pub url: Option<String>,
    /// What is said, or the warning where there is no URL.
    pub message: String,
}

/// Reads what `gh issue create` gave back: the URL of the issue on success.
pub fn created_issue(run: &Result<CommandOutput, String>) -> (r: IssueResult)
    ensures
        opt_text(r.url) == (match *run {
            Ok(out) => if out.success {
                Some(trim(out.stdout@))
            } else {
                None
            },
            Err(e) => None,
        }),
        r.message@ == (match *run {
            Ok(out) => if out.success {
                "GitHub issue created: "@ + trim(out.stdout@) + "\n"@
            } else {
                "warning: failed to create GitHub issue: "@ + trim(out.stderr@) + "\n"@
            },
            Err(e) => "warning: could not run `gh` CLI: "@ + e@ + "\n"@,
        }),
{
    match run {
        Ok(out) => {
            if out.success {
                let url = trimmed(out.stdout.as_str());
                let message = cat3("GitHub issue created: ", url.as_str(), "\n");
                IssueResult { url: Some(url), message }
            } else {
                let why = trimmed(out.stderr.as_str());
                IssueResult {
                    url: None,
                    message: cat3("warning: failed to create GitHub issue: ", why.as_str(), "\n"),
                }
            }
        },
        Err(e) => IssueResult {
            url: None,
            message: cat3("warning: could not run `gh` CLI: ", e.as_str(), "\n"),
        },
    }
}

/// The arguments of `gh` that change the body of an issue.
pub fn update_github_issue_body(number: &str, body: &str) -> (r: Vec<String>)
    ensures
        texts(r@) == seq!["issue"@, "edit"@, number@, "--body"@, body@],
{
    let mut args: Vec<String> = Vec::new();
    args.push("issue".to_string());
    args.push("edit".to_string());
    args.push(number.to_owned());
    args.push("--body".to_string());
    args.push(body.to_owned());
    proof {
        assert(texts(args@) =~= seq!["issue"@, "edit"@, number@, "--body"@, body@]);
    }
    args
}

/// The warning where the body of an issue could not be changed; nothing where
/// it was.
pub fn update_warning(run: &Result<CommandOutput, String>) -> (r: String)
    ensures
        r@ == (match *run {
            Ok(out) => if out.success {
                ""@
            } else {
                "warning: failed to update parent issue body: "@ + trim(out.stderr@) + "\n"@
            },
            Err(e) => "warning: could not run `gh` for issue update: "@ + e@ + "\n"@,
        }),
{
    match run {
        Ok(out) => {
            if out.success {
                "".to_string()
            } else {
                let why = trimmed(out.stderr.as_str());
                cat3("warning: failed to update parent issue body: ", why.as_str(), "\n")
            }
        },
        Err(e) => cat3("warning: could not run `gh` for issue update: ", e.as_str(), "\n"),
    }
}

/// Whether a spec that was added is decomposed into child issues: that was asked
/// for, it has acceptance criteria, and its own issue was created.
pub fn decomposes(parent_url: &Option<String>, decompose: bool, criteria: usize) -> (r: bool)
    ensures
        r == (decompose && criteria > 0 && parent_url is Some),
{
    decompose && criteria > 0 && parent_url.is_some()
}

/// The body of the issue that stands for a spec: its content, with a
/// placeholder for child issues where it will be decomposed.
pub fn parent_body(content: &str, decompose: bool, criteria: usize) -> (r: String)
    ensures
        r@ == (if decompose && criteria > 0 {
            content@ + "\n\n## Sub-issues\n_Creating child issues..._"@
        } else {
            content@
        }),
{
    if decompose && criteria > 0 {
        cat2(content, "\n\n## Sub-issues\n_Creating child issues..._")
    } else {
        content.to_owned()
    }
}

/// The links to the child issues, numbered from one.
pub open spec fn child_links(urls: Seq<Seq<char>>) -> Seq<Seq<char>> {
    Seq::new(urls.len(), |i: int| "- [ ] AC"@ + dec((i + 1) as nat) + ": "@ + urls[i])
}

/// The body of the issue that stands for a spec, with links to its child
/// issues.
pub fn decomposed_body(content: &str, child_urls: &Vec<String>) -> (r: String)
    ensures
        r@ == content@ + "\n\n## Sub-issues\n"@ + join(child_links(texts(child_urls@)), "\n"@),
{
    let mut links: Vec<String> = Vec::new();
    let mut i: usize = 0;
    while i < child_urls.len()
        invariant
            i <= child_urls.len(),
            links.len() == i,
            forall|j: int|
                0 <= j < i ==> (#[trigger] links@[j])@ == child_links(texts(child_urls@))[j],
        decreases child_urls.len() - i,
    {
        let n = dec_usize(i + 1);
        links.push(cat4("- [ ] AC", n.as_str(), ": ", child_urls[i].as_str()));
        i = i + 1;
    }
    proof {
        assert(texts(links@) =~= child_links(texts(child_urls@)));
    }
    let list = joined(&links, "\n");
    cat3(content, "\n\n## Sub-issues\n", list.as_str())
}

/// The numbers of the issues whose URL ends in one.
pub open spec fn issue_numbers(urls: Seq<Seq<char>>) -> Seq<Seq<char>>
    decreases urls.len(),
{
    if urls.len() == 0 {
        seq![]
    } else {
        match issue_number(urls.last()) {
            Some(n) => issue_numbers(urls.drop_last()).push(n),
            None => issue_numbers(urls.drop_last()),
        }
    }
}

fn numbers_of(urls: &Vec<String>) -> (r: Vec<String>)
    ensures
        texts(r@) == issue_numbers(texts(urls@)),
{
    let mut out: Vec<String> = Vec::new();
    let mut i: usize = 0;
    proof {
        assert(texts(out@) =~= issue_numbers(texts(urls@).take(0)));
    }
    while i < urls.len()
        invariant
            i <= urls.len(),
            texts(out@) == issue_numbers(texts(urls@).take(i as int)),
        decreases urls.len() - i,
    {
        proof {
            assert(texts(urls@).take(i + 1).drop_last() =~= texts(urls@).take(i as int));
        }
        let ghost before = out@;
        match extract_issue_number(urls[i].as_str()) {
            Some(n) => {
                out.push(n);
                proof {
                    assert(texts(out@) =~= texts(before).push(n@));
                }
            },
            None => {},
        }
        i = i + 1;
    }
    proof {
        assert(texts(urls@).take(urls@.len() as int) =~= texts(urls@));
    }
    out
}

/// What follows from the child issues that were created.
#[derive(Debug)]
pub struct Decomposition {
    /// The new body of the parent issue, and the number under which it is
    /// changed.
    pub parent_update: Option<(String, String)>,
    /// The issue numbers that the spec records, where it becomes active.
    pub issues: Option<String>,
    /// What is said at the end.
    pub message: String,
}

/// Decides what follows from the child issues: the parent links to them where
/// its number is known, and the spec becomes active with their numbers.
pub fn finish_decomposition(
    id: &str,
    content: &str,
    parent_number: &Option<String>,
    child_urls: &Vec<String>,
) -> (r: Decomposition)
    ensures
        r.parent_update is Some <==> child_urls.len() > 0 && parent_number is Some,
        r.parent_update matches Some(p) ==> p.0@ == parent_number->0@ && p.1@ == content@
            + "\n\n## Sub-issues\n"@ + join(child_links(texts(child_urls@)), "\n"@),
        opt_text(r.issues) == (if issue_numbers(texts(child_urls@)).len() > 0 {
            Some(join(issue_numbers(texts(child_urls@)), ","@))
        } else {
            None
        }),
        r.message@ == (if issue_numbers(texts(child_urls@)).len() > 0 {
            "spec "@ + id@ + " decomposed into "@ + dec(
                issue_numbers(texts(child_urls@)).len(),
            ) + " issues, status -> active\n"@
        } else {
            ""@
        }),
{
    let parent_update = match parent_number {
        Some(n) => {
            if child_urls.len() > 0 {
                Some((n.clone(), decomposed_body(content, child_urls)))
            } else {
                None
            }
        },
        None => None,
    };
    let numbers = numbers_of(child_urls);
    proof {
        assert(texts(numbers@).len() == numbers@.len());
    }
    if numbers.len() > 0 {
        let count = dec_usize(numbers.len());
        Decomposition {
            parent_update,
            issues: Some(joined(&numbers, ",")),
            message: cat5(
                "spec ",
                id,
                " decomposed into ",
                count.as_str(),
                " issues, status -> active\n",
            ),
        }
    } else {
        Decomposition { parent_update, issues: None, message: "".to_string() }
    }
}

/// The id of the link from a spec to the issue that stands for it.
pub fn parent_link_id(id: &str) -> (r: String)
    ensures
        r@ == "link-"@ + id@ + "-parent"@,
{
    cat3("link-", id, "-parent")
}

/// The id of a link from a spec to a child issue, made at the given time in
/// nanoseconds.
pub fn child_link_id(id: &str, nanos: i64) -> (r: String)
    ensures
        r@ == "link-"@ + id@ + "-"@ + dec_int(nanos as int),
{
    let shown = dec_i64(nanos);
    cat4("link-", id, "-", shown.as_str())
}

/// The id of a link that is made at the given time in milliseconds.
pub fn link_id(millis: i64) -> (r: String)
    ensures
        r@ == "link-"@ + dec_int(millis as int),
{
    let shown = dec_i64(millis);
    cat2("link-", shown.as_str())
}

// ---------------------------------------------------------------------------
// Confirmation
// ---------------------------------------------------------------------------

/// `c` with an ASCII capital letter made small.
pub open spec fn lower(c: char) -> char {
    if 'A' <= c <= 'Z' {
        (c as u32 + 32) as char
    } else {
        c
    }
}

/// `s` with ASCII capital letters made small.
pub open spec fn lowercase(s: Seq<char>) -> Seq<char> {
    Seq::new(s.len(), |i: int| lower(s[i]))
}

/// `s` with ASCII capital letters made small.
pub fn lowered(s: &str) -> (r: String)
    ensures
        r@ == lowercase(s@),
{
    let cs = chars_of(s);
    let mut out = String::new();
    let mut i: usize = 0;
    while i < cs.len()
        invariant
            i <= cs.len(),
            cs@ == s@,
            out@ == lowercase(s@.take(i as int)),
        decreases cs.len() - i,
    {
        let c: char = cs[i];
        let d: char = if 'A' <= c && c <= 'Z' {
            (c as u8 + 32) as char
        } else {
            c
        };
        out.push(d);
        proof {
            assert(d == lower(c));
            assert(lowercase(s@.take(i + 1)) =~= lowercase(s@.take(i as int)).push(d));
        }
        i = i + 1;
    }
    proof {
        assert(s@.take(s@.len() as int) =~= s@);
    }
    out
}

/// An answer that means yes: `y` or `yes` in any case, or nothing at all.
pub open spec fn is_yes(input: Seq<char>) -> bool {
    let answer = lowercase(trim(input));
    answer.len() == 0 || answer == "y"@ || answer == "yes"@
}

/// Whether an answer means yes; an empty answer does.
pub fn means_yes(input: &str) -> (r: bool)
    ensures
        r == is_yes(input@),
{
    let typed = trimmed(input);
    let answer = lowered(typed.as_str());
    answer.as_str().is_empty() || text_eq(answer.as_str(), "y") || text_eq(answer.as_str(), "yes")
}

/// Whether the user confirms the decomposition: `None` where no answer could
/// be read, which means no.
pub fn confirm_decomposition(input: &Option<String>) -> (r: bool)
    ensures
        r == (input matches Some(line) && is_yes(line@)),
{
    match input {
        Some(line) => means_yes(line.as_str()),
        None => false,
    }
}

// ---------------------------------------------------------------------------
// Refinement of criteria
// ---------------------------------------------------------------------------

/// The criteria, numbered from one.
pub open spec fn numbered(criteria: Seq<Seq<char>>) -> Seq<Seq<char>> {
    Seq::new(criteria.len(), |i: int| dec((i + 1) as nat) + ". "@ + criteria[i])
}

/// The beginning of the content that goes into the prompt: at most 2000 bytes.
pub open spec fn summary(content: Seq<char>) -> Seq<char> {
    if byte_len(content) > 2000 {
        byte_prefix(content, 2000)
    } else {
        content
    }
}

/// The question to a language model that asks for better criteria.
pub open spec fn refine_prompt(name: Seq<char>, content: Seq<char>, criteria: Seq<Seq<char>>) -> Seq<
    char,
> {
    "You are a technical project manager. Given the following spec and its acceptance criteria, produce a detailed, actionable issue description for each criterion. Each description should include context, implementation hints, and verification steps.\n\nSpec: "@
        + name + "\n\nSpec content (abbreviated):\n"@ + summary(content)
        + "\n\nAcceptance criteria:\n"@ + join(numbered(criteria), "\n"@)
        + "\n\nOutput ONLY a JSON array of strings, one per criterion, in the same order. Each string is the detailed issue body in markdown. No wrapping object, just the array."@
}

/// The question to a language model that asks for better criteria.
pub fn build_refine_prompt(criteria: &Vec<String>, name: &str, content: &str) -> (r: String)
    requires
        byte_len(content@) > 2000 ==> cuts_at(content@, 2000),
    ensures
        r@ == refine_prompt(name@, content@, texts(criteria@)),
{
    let mut list: Vec<String> = Vec::new();
    let mut i: usize = 0;
    while i < criteria.len()
        invariant
            i <= criteria.len(),
            list.len() == i,
            forall|j: int| 0 <= j < i ==> (#[trigger] list@[j])@ == numbered(texts(criteria@))[j],
        decreases criteria.len() - i,
    {
        let n = dec_usize(i + 1);
        list.push(cat3(n.as_str(), ". ", criteria[i].as_str()));
        i = i + 1;
    }
    proof {
        assert(texts(list@) =~= numbered(texts(criteria@)));
    }
    let lines = joined(&list, "\n");
    let mut out = cat2(
        "You are a technical project manager. Given the following spec and its acceptance criteria, produce a detailed, actionable issue description for each criterion. Each description should include context, implementation hints, and verification steps.\n\nSpec: ",
        name,
    );
    out.append("\n\nSpec content (abbreviated):\n");
    let start = first_bytes(content, 2000);
    out.append(start.as_str());
    out.append("\n\nAcceptance criteria:\n");
    out.append(lines.as_str());
    out.append(
        "\n\nOutput ONLY a JSON array of strings, one per criterion, in the same order. Each string is the detailed issue body in markdown. No wrapping object, just the array.",
    );
    out
}

/// The text inside a fenced block; all of it where it is not fenced at the
/// end.
pub open spec fn unfenced(reply: Seq<char>) -> Seq<char> {
    let s = trim(reply);
    let body = if has_prefix(s, "```json"@) {
        s.skip(7)
    } else if has_prefix(s, "```"@) {
        s.skip(3)
    } else {
        s
    };
    trim(
        if has_suffix(body, "```"@) {
            body.take(body.len() - 3)
        } else {
            s
        },
    )
}

/// The text inside a fenced block of a reply.
pub fn strip_fence(reply: &str) -> (r: String)
    ensures
        r@ == unfenced(reply@),
{
    let s = trimmed(reply);
    proof {
        reveal_strlit("```json");
        reveal_strlit("```");
    }
    let body = if begins(s.as_str(), "```json") {
        dropped(s.as_str(), 7)
    } else if begins(s.as_str(), "```") {
        dropped(s.as_str(), 3)
    } else {
        s.clone()
    };
    if ends(body.as_str(), "```") {
        let cs = chars_of(body.as_str());
        let inner = string_of(&cs, 0, cs.len() - 3);
        proof {
            assert(inner@ =~= body@.take(body@.len() - 3));
        }
        trimmed(inner.as_str())
    } else {
        trimmed(s.as_str())
    }
}

/// The list of strings that a JSON text writes, or the message of the error.
pub uninterp spec fn json_strings(text: Seq<char>) -> Result<Seq<Seq<char>>, Seq<char>>;

/// `serde_json::from_str` at the type `Vec<String>`: the list of strings that
/// the text writes, or the message of the error. The result depends on the
/// text alone.
#[verifier::external_body]
fn parse_strings(text: &str) -> (r: Result<Vec<String>, String>)
    ensures
        json_strings(text@) == (match r {
            Ok(list) => Ok::<Seq<Seq<char>>, Seq<char>>(texts(list@)),
            Err(e) => Err(e@),
        }),
{
    serde_json::from_str::<Vec<String>>(text).map_err(|e| e.to_string())
}

/// What came of asking a language model for better criteria.
#[derive(Debug)]
pub struct Refinement {
    pub criteria: Option<Vec<String>>,
    /// What is said on the error stream.
    pub message: String,
}

/// What follows from a reply that was read as a list, or could not be.
pub fn judge_refinement(wanted: usize, list: Result<Vec<String>, String>) -> (r: Refinement)
    ensures
        match list {
            Ok(v) => if v.len() == wanted {
                r.criteria == Some(v) && r.message@ == "info: LLM refined "@ + dec(wanted as nat)
                    + " criteria\n"@
            } else {
                r.criteria is None && r.message@
                    == "info: LLM returned mismatched count, using raw criteria\n"@
            },
            Err(e) => r.criteria is None && r.message@ == "info: could not parse LLM output ("@ + e@
                + "), using raw criteria\n"@,
        },
{
    match list {
        Ok(v) => {
            if v.len() == wanted {
                let n = dec_usize(wanted);
                let message = cat3("info: LLM refined ", n.as_str(), " criteria\n");
                Refinement { criteria: Some(v), message }
            } else {
                Refinement {
                    criteria: None,
                    message: "info: LLM returned mismatched count, using raw criteria\n".to_string(),
                }
            }
        },
        Err(e) => Refinement {
            criteria: None,
            message: cat3(
                "info: could not parse LLM output (",
                e.as_str(),
                "), using raw criteria\n",
            ),
        },
    }
}

/// Reads the reply of a language model that was asked for better criteria.
///
/// There are better criteria exactly where the model succeeded and wrote, as
/// JSON, as many strings as there are criteria.
pub fn refine_criteria_with_llm(wanted: usize, success: bool, stdout: &str) -> (r: Refinement)
    ensures
        !success ==> r.criteria is None && r.message@
            == "info: LLM refinement unavailable, using raw criteria\n"@,
        success ==> match json_strings(unfenced(stdout@)) {
            Ok(list) => if list.len() == wanted {
                r.criteria matches Some(v) && texts(v@) == list && r.message@
                    == "info: LLM refined "@ + dec(wanted as nat) + " criteria\n"@
            } else {
                r.criteria is None && r.message@
                    == "info: LLM returned mismatched count, using raw criteria\n"@
            },
            Err(e) => r.criteria is None && r.message@ == "info: could not parse LLM output ("@ + e
                + "), using raw criteria\n"@,
        },
{
    if !success {
        return Refinement {
            criteria: None,
            message: "info: LLM refinement unavailable, using raw criteria\n".to_string(),
        };
    }
    let json = strip_fence(stdout);
    let list = parse_strings(json.as_str());
    proof {
        if list is Ok {
            assert(texts(list->Ok_0@).len() == list->Ok_0@.len());
        }
    }
    judge_refinement(wanted, list)
}

/// An answer confirms exactly where it is blank, or `y` or `yes` in small or
/// capital letters, white space around it aside.
pub proof fn law_only_yes_means_yes(input: Seq<char>)
    ensures
        is_yes(input) <==> ({
            let t = trim(input);
            ||| t.len() == 0
            ||| t.len() == 1 && (t[0] == 'y' || t[0] == 'Y')
            ||| t.len() == 3 && (t[0] == 'y' || t[0] == 'Y') && (t[1] == 'e' || t[1] == 'E') && (t[2]
                == 's' || t[2] == 'S')
        }),
        trim(input).len() > 0 && trim(input)[0] != 'y' && trim(input)[0] != 'Y' ==> !is_yes(input),
{
    reveal_strlit("y");
    reveal_strlit("yes");
    let t = trim(input);
    let a = lowercase(t);
    assert(a.len() == t.len());
    if t.len() > 0 {
        assert(a[0] == lower(t[0]));
        lemma_lower(t[0], 'y');
    }
    if t.len() == 1 {
        if lower(t[0]) == 'y' {
            assert(a =~= "y"@);
        }
    }
    if t.len() == 3 {
        assert(a[1] == lower(t[1]) && a[2] == lower(t[2]));
        lemma_lower(t[1], 'e');
        lemma_lower(t[2], 's');
        if lower(t[0]) == 'y' && lower(t[1]) == 'e' && lower(t[2]) == 's' {
            assert(a =~= "yes"@);
        }
    }
}

proof fn lemma_lower(c: char, small: char)
    requires
        'a' <= small <= 'z',
    ensures
        lower(c) == small <==> c == small || c as int == small as int - 32,
{
}

/// Making letters small changes capital letters of ASCII alone, each to its own
/// small letter.
pub proof fn law_lowering_changes_capitals_alone(s: Seq<char>, i: int)
    requires
        0 <= i < s.len(),
    ensures
        lowercase(s).len() == s.len(),
        !('A' <= s[i] <= 'Z') ==> lowercase(s)[i] == s[i],
        'A' <= s[i] <= 'Z' ==> 'a' <= lowercase(s)[i] <= 'z' && lowercase(s)[i] as int == s[i] as int
            + 32,
{
}

/// Every conflict is told in a line, and every automatic dependency is added, in
/// their order.
pub proof fn law_conflicts_are_taken_one_by_one(xs: Seq<Resolution>, ys: Seq<Resolution>, x: Resolution)
    ensures
        dependencies(xs + ys) == dependencies(xs) + dependencies(ys),
        match x.action {
            ConflictAction::AutoDependency { spec_id } => dependencies(seq![x]) == seq![spec_id@],
            ConflictAction::Hitl { reason } => dependencies(seq![x]).len() == 0,
        },
        needs_human(xs + ys) <==> needs_human(xs) || needs_human(ys),
        needs_human(seq![x]) <==> x.action is Hitl,
    decreases ys.len(),
{
    let one = seq![x];
    assert(one[0] == x);
    assert(one.drop_last() =~= seq![]);
    assert(dependencies(one.drop_last()).len() == 0);
    match x.action {
        ConflictAction::AutoDependency { spec_id } => {
            assert(dependencies(one) =~= seq![spec_id@]);
        },
        ConflictAction::Hitl { reason } => {},
    }
    let both = xs + ys;
    if needs_human(xs) {
        let i = choose|i: int| 0 <= i < xs.len() && (#[trigger] xs[i]).action is Hitl;
        assert(both[i].action is Hitl);
    }
    if needs_human(ys) {
        let i = choose|i: int| 0 <= i < ys.len() && (#[trigger] ys[i]).action is Hitl;
        assert(both[xs.len() + i].action is Hitl);
    }
    if needs_human(both) {
        let i = choose|i: int| 0 <= i < both.len() && (#[trigger] both[i]).action is Hitl;
        if i < xs.len() {
            assert(xs[i].action is Hitl);
        } else {
            assert(ys[i - xs.len()].action is Hitl);
        }
    }
    if ys.len() == 0 {
        assert(both =~= xs);
        assert(dependencies(xs) + dependencies(ys) =~= dependencies(xs));
    } else {
        law_conflicts_are_taken_one_by_one(xs, ys.drop_last(), x);
        assert(both.drop_last() =~= xs + ys.drop_last());
        assert(dependencies(both) =~= dependencies(xs) + dependencies(ys));
    }
}

/// What is said of conflicts names each: the spec that is depended on and where,
/// or why a human is needed.
pub proof fn law_every_conflict_is_told(xs: Seq<Resolution>, n: nat, i: int)
    requires
        0 <= i < n <= xs.len(),
    ensures
        match xs[i].action {
            ConflictAction::AutoDependency { spec_id } => holds(
                resolution_lines(xs, n),
                "' ("@ + spec_id@,
            ) && holds(resolution_lines(xs, n), xs[i].existing_spec_name@) && holds(
                resolution_lines(xs, n),
                xs[i].path@,
            ),
            ConflictAction::Hitl { reason } => holds(resolution_lines(xs, n), reason@),
        },
    decreases n,
{
    broadcast use group_holds;

    if i < n - 1 {
        law_every_conflict_is_told(xs, (n - 1) as nat, i);
    } else {
        match xs[i].action {
            ConflictAction::AutoDependency { spec_id } => {
                assert(holds(resolution_line(xs[i]), "' ("@ + spec_id@));
                assert(holds(resolution_line(xs[i]), xs[i].existing_spec_name@));
                assert(holds(resolution_line(xs[i]), xs[i].path@));
            },
            ConflictAction::Hitl { reason } => {
                assert(holds(resolution_line(xs[i]), reason@));
            },
        }
    }
}

/// An issue is created with its title, its body and each of its labels.
pub proof fn law_issues_carry_their_labels(
    title: Seq<char>,
    body: Seq<char>,
    labels: Seq<Seq<char>>,
    i: int,
)
    ensures
        issue_args(title, body, labels).len() == 6 + 2 * labels.len(),
        issue_args(title, body, labels)[2] == "--title"@,
        issue_args(title, body, labels)[3] == title,
        issue_args(title, body, labels)[4] == "--body"@,
        issue_args(title, body, labels)[5] == body,
        0 <= i < labels.len() ==> issue_args(title, body, labels)[6 + 2 * i] == "--label"@
            && issue_args(title, body, labels)[7 + 2 * i] == labels[i],
{
    lemma_label_args(labels, labels.len(), i);
}

proof fn lemma_label_args(labels: Seq<Seq<char>>, n: nat, i: int)
    requires
        n <= labels.len(),
    ensures
        label_args(labels, n).len() == 2 * n,
        0 <= i < n ==> label_args(labels, n)[2 * i] == "--label"@ && label_args(labels, n)[2 * i + 1]
            == labels[i],
    decreases n,
{
    if n > 0 {
        lemma_label_args(labels, (n - 1) as nat, i);
    }
}

/// The parent issue links every child issue, numbered in their order.
pub proof fn law_every_child_is_linked(urls: Seq<Seq<char>>, i: int)
    requires
        0 <= i < urls.len(),
    ensures
        child_links(urls).len() == urls.len(),
        holds(
            join(child_links(urls), "\n"@),
            "- [ ] AC"@ + dec((i + 1) as nat) + ": "@ + urls[i],
        ),
{
    law_a_joined_text_holds_its_parts(child_links(urls), "\n"@, i);
}

/// Each child issue whose URL ends in a number counts, with that number.
pub proof fn law_child_issues_are_counted(a: Seq<Seq<char>>, b: Seq<Seq<char>>, front: Seq<char>, number: Seq<char>)
    requires
        forall|i: int| 0 <= i < number.len() ==> number[i] != '/',
        number.len() > 0,
        all_digits(number),
    ensures
        issue_numbers(a + b) == issue_numbers(a) + issue_numbers(b),
        issue_numbers(seq![front + seq!['/'] + number]) == seq![number],
    decreases b.len(),
{
    let url = front + seq!['/'] + number;
    law_issue_numbers_end_their_urls(front, number);
    assert(seq![url].drop_last() =~= seq![]);
    assert(issue_numbers(seq![url].drop_last()).len() == 0);
    assert(issue_numbers(seq![url]) =~= seq![number]);
    if b.len() == 0 {
        assert(a + b =~= a);
        assert(issue_numbers(a) + issue_numbers(b) =~= issue_numbers(a));
    } else {
        law_child_issues_are_counted(a, b.drop_last(), front, number);
        assert((a + b).drop_last() =~= a + b.drop_last());
        assert(issue_numbers(a + b) =~= issue_numbers(a) + issue_numbers(b));
    }
}

/// The question for better criteria names the spec, holds its content where it is
/// short, and every criterion with its number.
pub proof fn law_the_question_holds_every_criterion(
    name: Seq<char>,
    content: Seq<char>,
    criteria: Seq<Seq<char>>,
    i: int,
)
    ensures
        holds(refine_prompt(name, content, criteria), name),
        byte_len(content) <= 2000 ==> holds(refine_prompt(name, content, criteria), content),
        0 <= i < criteria.len() ==> holds(
            refine_prompt(name, content, criteria),
            dec((i + 1) as nat) + ". "@ + criteria[i],
        ),
{
    broadcast use group_holds;

    if 0 <= i < criteria.len() {
        law_a_joined_text_holds_its_parts(numbered(criteria), "\n"@, i);
    }
}

/// A fence around a text comes off; a text without a fence is kept.
pub proof fn law_fences_come_off(inner: Seq<char>)
    requires
        inner.len() > 0,
        !is_white(inner[0]),
        !is_white(inner.last()),
        inner[0] != '`',
        inner.last() != '`',
    ensures
        unfenced(inner) == inner,
        unfenced("```json"@ + seq!['\n'] + inner + seq!['\n'] + "```"@) == inner,
        unfenced("```"@ + seq!['\n'] + inner + seq!['\n'] + "```"@) == inner,
{
    reveal_strlit("```json");
    reveal_strlit("```");
    let fence = "```"@;
    law_trimmed_text_stays(inner);
    if has_prefix(inner, fence) {
        assert(inner.take(3)[0] == '`');
    }
    if has_prefix(inner, "```json"@) {
        assert(inner.take(7)[0] == '`');
    }
    if has_suffix(inner, fence) {
        assert(inner.skip(inner.len() - 3)[2] == '`');
    }
    let core = seq!['\n'] + inner + seq!['\n'];
    assert(all_white(seq!['\n']));
    law_trimming_undoes_blanks(seq!['\n'], inner, seq!['\n']);
    let a = "```json"@ + seq!['\n'] + inner + seq!['\n'] + fence;
    law_trimmed_text_stays(a);
    assert(a.take(7) =~= "```json"@);
    assert(a.skip(7) =~= core + fence);
    assert((core + fence).skip((core + fence).len() - 3) =~= fence);
    assert((core + fence).take((core + fence).len() - 3) =~= core);
    let b = fence + seq!['\n'] + inner + seq!['\n'] + fence;
    law_trimmed_text_stays(b);
    assert(b.take(3) =~= fence);
    if has_prefix(b, "```json"@) {
        assert(b.take(7)[3] == 'j');
        assert(b[3] == '\n');
    }
    assert(b.skip(3) =~= core + fence);
}

/// The content of a spec is asked about whole up to two thousand bytes; of a longer
/// one as much of the beginning as takes no more.
pub proof fn law_long_contents_are_abbreviated(content: Seq<char>)
    ensures
        byte_len(content) <= 2000 ==> summary(content) == content,
        byte_len(summary(content)) <= 2000,
        summary(content).len() <= content.len(),
        summary(content) == content.take(summary(content).len() as int),
        summary(content).len() < content.len() ==> byte_len(
            content.take(summary(content).len() as int + 1),
        ) > 2000,
{
    law_first_bytes_are_the_beginning(content, 2000);
    assert(content.take(content.len() as int) =~= content);
}

} // verus!
