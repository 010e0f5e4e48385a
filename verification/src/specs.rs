//! The `belt spec` commands: the life of a spec, its listing and its links.

use vstd::prelude::*;

use crate::pieces::group_holds;
use crate::pieces::holds;
use crate::text::cat3;
use crate::text::cat5;
use crate::text::dec;
use crate::text::dec_i64;
use crate::text::dec_int;
use crate::text::dec_usize;

verus! {

/// Where a spec stands in its life.
#[derive(Clone, Copy, Debug, PartialEq, Eq, Structural)]
pub enum SpecState {
    Draft,
    Active,
    Paused,
    Completing,
    Completed,
    Archived,
}

impl SpecState {
    /// The name of the state.
    pub open spec fn name(self) -> Seq<char> {
        match self {
            SpecState::Draft => "draft"@,
            SpecState::Active => "active"@,
            SpecState::Paused => "paused"@,
            SpecState::Completing => "completing"@,
            SpecState::Completed => "completed"@,
            SpecState::Archived => "archived"@,
        }
    }

    /// The name of the state.
    pub fn as_str(&self) -> (r: &'static str)
        ensures
            r@ == self.name(),
    {
        match self {
            SpecState::Draft => "draft",
            SpecState::Active => "active",
            SpecState::Paused => "paused",
            SpecState::Completing => "completing",
            SpecState::Completed => "completed",
            SpecState::Archived => "archived",
        }
    }
}

/// A spec.
#[derive(Clone, Debug)]
pub struct Spec {
    pub id: String,
    pub workspace_id: String,
    pub name: String,
    pub content: String,
    pub status: SpecState,
    pub priority: Option<i32>,
    pub labels: Option<String>,
    pub depends_on: Option<String>,
    pub entry_point: Option<String>,
    pub decomposed_issues: Option<String>,
    pub created_at: String,
    pub updated_at: String,
}

// ---------------------------------------------------------------------------
// Listing and showing
// ---------------------------------------------------------------------------

/// One line of the list of specs.
pub open spec fn spec_line(s: Spec) -> Seq<char> {
    s.id@ + "\t"@ + s.name@ + "\t"@ + s.status.name() + "\t"@ + s.workspace_id@ + "\n"@
}

/// The lines of the first `n` specs.
pub open spec fn spec_lines(specs: Seq<Spec>, n: nat) -> Seq<char>
    decreases n,
{
    if n == 0 {
        seq![]
    } else {
        spec_lines(specs, (n - 1) as nat) + spec_line(specs[n - 1])
    }
}

/// `belt spec list`: the specs, one line each.
pub fn list_specs(specs: &Vec<Spec>) -> (r: String)
    ensures
        r@ == (if specs.len() == 0 {
            "no specs found\n"@
        } else {
            spec_lines(specs@, specs.len() as nat)
        }),
{
    if specs.len() == 0 {
        return "no specs found\n".to_string();
    }
    let mut out = String::new();
    let mut i: usize = 0;
    while i < specs.len()
        invariant
            i <= specs.len(),
            out@ == spec_lines(specs@, i as nat),
        decreases specs.len() - i,
    {
        let s = &specs[i];
        let mut line = s.id.clone();
        line.append("\t");
        line.append(s.name.as_str());
        line.append("\t");
        line.append(s.status.as_str());
        line.append("\t");
        line.append(s.workspace_id.as_str());
        line.append("\n");
        out.append(line.as_str());
        i = i + 1;
    }
    out
}

/// The line for a text that may be missing.
pub open spec fn opt_field(label: Seq<char>, v: Option<String>) -> Seq<char> {
    match v {
        Some(s) => label + s@ + "\n"@,
        None => ""@,
    }
}

/// The line for a priority that may be missing.
pub open spec fn priority_field(label: Seq<char>, p: Option<i32>) -> Seq<char> {
    match p {
        Some(n) => label + dec_int(n as int) + "\n"@,
        None => ""@,
    }
}

/// All that is known of a spec.
pub open spec fn spec_details(s: Spec) -> Seq<char> {
    "ID:          "@ + s.id@ + "\nName:        "@ + s.name@ + "\nStatus:      "@ + s.status.name()
        + "\nWorkspace:   "@ + s.workspace_id@ + "\nContent:     "@ + s.content@ + "\n"@
        + priority_field("Priority:    "@, s.priority) + opt_field("Labels:      "@, s.labels)
        + opt_field("Depends On:  "@, s.depends_on) + opt_field("Entry Point: "@, s.entry_point)
        + "Created At:  "@ + s.created_at@ + "\nUpdated At:  "@ + s.updated_at@ + "\n"@
}

fn write_opt_field(label: &str, v: &Option<String>) -> (r: String)
    ensures
        r@ == opt_field(label@, *v),
{
    match v {
        Some(s) => cat3(label, s.as_str(), "\n"),
        None => "".to_string(),
    }
}

fn write_priority_field(label: &str, p: &Option<i32>) -> (r: String)
    ensures
        r@ == priority_field(label@, *p),
{
    match p {
        Some(n) => {
            let shown = dec_i64(*n as i64);
            cat3(label, shown.as_str(), "\n")
        },
        None => "".to_string(),
    }
}

/// `belt spec show`: all that is known of a spec.
pub fn show_spec(s: &Spec) -> (r: String)
    ensures
        r@ == spec_details(*s),
{
    let mut out = "ID:          ".to_string();
    out.append(s.id.as_str());
    out.append("\nName:        ");
    out.append(s.name.as_str());
    out.append("\nStatus:      ");
    out.append(s.status.as_str());
    out.append("\nWorkspace:   ");
    out.append(s.workspace_id.as_str());
    out.append("\nContent:     ");
    out.append(s.content.as_str());
    out.append("\n");
    let priority = write_priority_field("Priority:    ", &s.priority);
    out.append(priority.as_str());
    let labels = write_opt_field("Labels:      ", &s.labels);
    out.append(labels.as_str());
    let depends = write_opt_field("Depends On:  ", &s.depends_on);
    out.append(depends.as_str());
    let entry = write_opt_field("Entry Point: ", &s.entry_point);
    out.append(entry.as_str());
    out.append("Created At:  ");
    out.append(s.created_at.as_str());
    out.append("\nUpdated At:  ");
    out.append(s.updated_at.as_str());
    out.append("\n");
    out
}

// ---------------------------------------------------------------------------
// Changing fields
// ---------------------------------------------------------------------------

/// New values for the fields of a spec; a field without one stays as it is.
#[derive(Clone, Debug)]
pub struct SpecUpdate {
    pub name: Option<String>,
    pub content: Option<String>,
    pub priority: Option<i32>,
    pub labels: Option<String>,
    pub depends_on: Option<String>,
    pub entry_point: Option<String>,
}

/// `new`, or `old` where there is none.
pub open spec fn or_else<T>(new: Option<T>, old: Option<T>) -> Option<T> {
    if new is Some {
        new
    } else {
        old
    }
}

/// `belt spec update`: the spec with its new values.
pub fn update_spec(s: Spec, u: SpecUpdate) -> (r: Spec)
    ensures
        r == (Spec {
            name: match u.name {
                Some(n) => n,
                None => s.name,
            },
            content: match u.content {
                Some(c) => c,
                None => s.content,
            },
            priority: or_else(u.priority, s.priority),
            labels: or_else(u.labels, s.labels),
            depends_on: or_else(u.depends_on, s.depends_on),
            entry_point: or_else(u.entry_point, s.entry_point),
            ..s
        }),
{
    let name = match u.name {
        Some(n) => n,
        None => s.name,
    };
    let content = match u.content {
        Some(c) => c,
        None => s.content,
    };
    let priority = if u.priority.is_some() {
        u.priority
    } else {
        s.priority
    };
    let labels = if u.labels.is_some() {
        u.labels
    } else {
        s.labels
    };
    let depends_on = if u.depends_on.is_some() {
        u.depends_on
    } else {
        s.depends_on
    };
    let entry_point = if u.entry_point.is_some() {
        u.entry_point
    } else {
        s.entry_point
    };
    Spec {
        id: s.id,
        workspace_id: s.workspace_id,
        name,
        content,
        status: s.status,
        priority,
        labels,
        depends_on,
        entry_point,
        decomposed_issues: s.decomposed_issues,
        created_at: s.created_at,
        updated_at: s.updated_at,
    }
}

/// Updating a spec twice with the same values changes no more than once.
pub proof fn law_update_is_idempotent<T>(new: Option<T>, old: Option<T>)
    ensures
        or_else(new, or_else(new, old)) == or_else(new, old),
{
}

// ---------------------------------------------------------------------------
// Changing the state
// ---------------------------------------------------------------------------

/// The state that a spec goes to, and what is said.
#[derive(Debug)]
pub struct SpecChange {
    pub status: SpecState,
    pub message: String,
}

/// `belt spec pause`; `allowed` says whether the state of the spec can change
/// to paused.
pub fn pause_spec(id: &str, status: SpecState, allowed: bool) -> (r: Result<SpecChange, String>)
    ensures
        r is Ok <==> allowed,
        r matches Ok(c) ==> c.status == SpecState::Paused && c.message@ == "spec paused: "@ + id@
            + "\n"@,
        r matches Err(e) ==> e@ == "cannot pause spec in status '"@ + status.name()
            + "': only active specs can be paused"@,
{
    if allowed {
        Ok(SpecChange { status: SpecState::Paused, message: cat3("spec paused: ", id, "\n") })
    } else {
        Err(
            cat3(
                "cannot pause spec in status '",
                status.as_str(),
                "': only active specs can be paused",
            ),
        )
    }
}

/// `belt spec resume`; `allowed` says whether the state of the spec can change
/// to active.
pub fn resume_spec(id: &str, status: SpecState, allowed: bool) -> (r: Result<SpecChange, String>)
    ensures
        r is Ok <==> allowed,
        r matches Ok(c) ==> c.status == SpecState::Active && c.message@ == (if status
            == SpecState::Archived {
            "spec restored from archive: "@
        } else {
            "spec activated: "@
        }) + id@ + "\n"@,
        r matches Err(e) ==> e@ == "cannot resume spec in status '"@ + status.name()
            + "': only draft, paused, or archived specs can be activated"@,
{
    if allowed {
        let message = if status == SpecState::Archived {
            cat3("spec restored from archive: ", id, "\n")
        } else {
            cat3("spec activated: ", id, "\n")
        };
        Ok(SpecChange { status: SpecState::Active, message })
    } else {
        Err(
            cat3(
                "cannot resume spec in status '",
                status.as_str(),
                "': only draft, paused, or archived specs can be activated",
            ),
        )
    }
}

/// The next state on the way to completion, if there is one.
pub open spec fn toward_completion(status: SpecState) -> Option<SpecState> {
    match status {
        SpecState::Active => Some(SpecState::Completing),
        SpecState::Completing => Some(SpecState::Completed),
        _ => None,
    }
}

/// The state that `belt spec complete` aims at.
pub fn completion_target(status: SpecState) -> (r: Option<SpecState>)
    ensures
        r == toward_completion(status),
{
    match status {
        SpecState::Active => Some(SpecState::Completing),
        SpecState::Completing => Some(SpecState::Completed),
        _ => None,
    }
}

/// `belt spec complete`: an active spec enters the completion flow, one in that
/// flow is completed. `allowed` says whether the state can change to the next.
pub fn complete_spec(id: &str, status: SpecState, allowed: bool) -> (r: Result<SpecChange, String>)
    ensures
        r is Ok <==> toward_completion(status) is Some && allowed,
        r matches Ok(c) ==> toward_completion(status) == Some(c.status) && c.message@ == (
        if c.status == SpecState::Completing {
            "spec entering completion flow: "@
        } else {
            "spec completed: "@
        }) + id@ + "\n"@,
        r matches Err(e) ==> e@ == (match toward_completion(status) {
            None => "cannot complete spec in status '"@ + status.name()
                + "': only active or completing specs can advance toward completion"@,
            Some(target) => "invalid transition: "@ + status.name() + " -> "@ + target.name(),
        }),
{
    match completion_target(status) {
        None => Err(
            cat3(
                "cannot complete spec in status '",
                status.as_str(),
                "': only active or completing specs can advance toward completion",
            ),
        ),
        Some(target) => {
            if !allowed {
                let mut e = cat3("invalid transition: ", status.as_str(), " -> ");
                e.append(target.as_str());
                return Err(e);
            }
            let message = if target == SpecState::Completing {
                cat3("spec entering completion flow: ", id, "\n")
            } else {
                cat3("spec completed: ", id, "\n")
            };
            Ok(SpecChange { status: target, message })
        },
    }
}

/// Two completions take an active spec to its end.
pub proof fn law_two_completions_complete()
    ensures
        toward_completion(SpecState::Active) matches Some(next) && toward_completion(next) == Some(
            SpecState::Completed,
        ),
        toward_completion(SpecState::Completed) is None,
{
}

/// `belt spec remove`: archives a spec, unless it is completed or archived.
pub fn remove_spec(id: &str, status: SpecState) -> (r: Result<SpecChange, String>)
    ensures
        r is Ok <==> status != SpecState::Completed && status != SpecState::Archived,
        r matches Ok(c) ==> c.status == SpecState::Archived && c.message@ == "spec archived: "@
            + id@ + "\n"@,
        r matches Err(e) ==> e@ == (if status == SpecState::Completed {
            "cannot archive spec in status 'completed': completed specs cannot be archived"@
        } else {
            "spec is already archived"@
        }),
{
    if status == SpecState::Completed {
        Err(
            "cannot archive spec in status 'completed': completed specs cannot be archived".to_string(),
        )
    } else if status == SpecState::Archived {
        Err("spec is already archived".to_string())
    } else {
        Ok(SpecChange { status: SpecState::Archived, message: cat3("spec archived: ", id, "\n") })
    }
}

// ---------------------------------------------------------------------------
// Links
// ---------------------------------------------------------------------------

/// `belt spec link`: what is said when a link was added.
pub fn link_message(id: &str, to: &str) -> (r: String)
    ensures
        r@ == "linked "@ + id@ + " -> "@ + to@ + "\n"@,
{
    cat5("linked ", id, " -> ", to, "\n")
}

/// `belt spec unlink`: what is said when a link was removed.
pub fn unlink_message(id: &str, from: &str) -> (r: String)
    ensures
        r@ == "unlinked "@ + id@ + " -x- "@ + from@ + "\n"@,
{
    cat5("unlinked ", id, " -x- ", from, "\n")
}

/// A link and what checking it found.
#[derive(Clone, Debug)]
pub struct LinkResult {
    pub target: String,
    pub valid: bool,
    pub detail: String,
}

/// The line for one checked link.
pub open spec fn link_line(l: LinkResult) -> Seq<char> {
    (if l.valid {
        "[OK] "@
    } else {
        "[FAIL] "@
    }) + l.target@ + " - "@ + l.detail@ + "\n"@
}

/// The lines of the first `n` checked links.
pub open spec fn link_lines(links: Seq<LinkResult>, n: nat) -> Seq<char>
    decreases n,
{
    if n == 0 {
        seq![]
    } else {
        link_lines(links, (n - 1) as nat) + link_line(links[n - 1])
    }
}

/// How many of the links are valid.
pub open spec fn valid_links(links: Seq<LinkResult>) -> nat
    decreases links.len(),
{
    if links.len() == 0 {
        0
    } else {
        valid_links(links.drop_last()) + (if links.last().valid {
            1nat
        } else {
            0nat
        })
    }
}

/// `belt spec verify`: what the check of all links of a spec found.
pub fn verify_report(id: &str, links: &Vec<LinkResult>) -> (r: String)
    ensures
        r@ == (if links.len() == 0 {
            "no links found for spec "@ + id@ + "\n"@
        } else {
            link_lines(links@, links.len() as nat) + "\n"@ + dec(valid_links(links@)) + "/"@ + dec(
                links.len() as nat,
            ) + " links verified successfully\n"@
        }),
{
    if links.len() == 0 {
        return cat3("no links found for spec ", id, "\n");
    }
    let mut out = String::new();
    let mut passed: usize = 0;
    let mut i: usize = 0;
    while i < links.len()
        invariant
            i <= links.len(),
            passed <= i,
            out@ == link_lines(links@, i as nat),
            passed == valid_links(links@.take(i as int)),
        decreases links.len() - i,
    {
        proof {
            assert(links@.take(i + 1).drop_last() =~= links@.take(i as int));
        }
        let l = &links[i];
        let sign = if l.valid {
            "[OK] "
        } else {
            "[FAIL] "
        };
        let line = cat5(sign, l.target.as_str(), " - ", l.detail.as_str(), "\n");
        out.append(line.as_str());
        if l.valid {
            passed = passed + 1;
        }
        i = i + 1;
    }
    proof {
        assert(links@.take(links@.len() as int) =~= links@);
    }
    out.append("\n");
    let ok = dec_usize(passed);
    out.append(ok.as_str());
    out.append("/");
    let all = dec_usize(links.len());
    out.append(all.as_str());
    out.append(" links verified successfully\n");
    out
}

// ---------------------------------------------------------------------------
// Laws on what is shown
// ---------------------------------------------------------------------------

/// Every state has a name of its own.
pub proof fn law_states_have_names_of_their_own(a: SpecState, b: SpecState)
    ensures
        a.name() == b.name() ==> a == b,
{
    reveal_strlit("draft");
    reveal_strlit("active");
    reveal_strlit("paused");
    reveal_strlit("completing");
    reveal_strlit("completed");
    reveal_strlit("archived");
    if a.name() == b.name() {
        assert(a.name().len() == b.name().len());
        assert(a.name()[0] == b.name()[0]);
        assert(a.name().last() == b.name().last());
    }
}

/// The list shows every spec on a line of its own, with its four fields.
pub proof fn law_every_spec_is_listed(specs: Seq<Spec>, n: nat, i: int)
    requires
        0 <= i < n <= specs.len(),
    ensures
        holds(
            spec_lines(specs, n),
            specs[i].id@ + "\t"@ + specs[i].name@ + "\t"@ + specs[i].status.name() + "\t"@
                + specs[i].workspace_id@ + "\n"@,
        ),
    decreases n,
{
    broadcast use group_holds;

    if i < n - 1 {
        law_every_spec_is_listed(specs, (n - 1) as nat, i);
    }
}

/// The details of a spec hold every field under its label.
pub proof fn law_details_hold_every_field(s: Spec)
    ensures
        holds(spec_details(s), "ID:          "@ + s.id@),
        holds(spec_details(s), "\nName:        "@ + s.name@),
        holds(spec_details(s), "\nStatus:      "@ + s.status.name()),
        holds(spec_details(s), "\nWorkspace:   "@ + s.workspace_id@),
        holds(spec_details(s), "\nContent:     "@ + s.content@ + "\n"@),
        s.priority matches Some(p) ==> holds(
            spec_details(s),
            "Priority:    "@ + dec_int(p as int) + "\n"@,
        ),
        s.labels matches Some(t) ==> holds(spec_details(s), "Labels:      "@ + t@ + "\n"@),
        s.depends_on matches Some(t) ==> holds(spec_details(s), "Depends On:  "@ + t@ + "\n"@),
        s.entry_point matches Some(t) ==> holds(spec_details(s), "Entry Point: "@ + t@ + "\n"@),
        holds(spec_details(s), "Created At:  "@ + s.created_at@),
        holds(spec_details(s), "\nUpdated At:  "@ + s.updated_at@),
{
    broadcast use group_holds;

}

/// Every link is reported with its target and its detail, and marked by whether it
/// is valid.
pub proof fn law_every_link_is_reported(links: Seq<LinkResult>, n: nat, i: int)
    requires
        0 <= i < n <= links.len(),
    ensures
        links[i].valid ==> holds(
            link_lines(links, n),
            "[OK] "@ + links[i].target@ + " - "@ + links[i].detail@ + "\n"@,
        ),
        !links[i].valid ==> holds(
            link_lines(links, n),
            "[FAIL] "@ + links[i].target@ + " - "@ + links[i].detail@ + "\n"@,
        ),
    decreases n,
{
    broadcast use group_holds;

    if i < n - 1 {
        law_every_link_is_reported(links, (n - 1) as nat, i);
    }
}

/// Valid links are counted one by one.
pub proof fn law_valid_links_add_up(a: Seq<LinkResult>, b: Seq<LinkResult>, l: LinkResult)
    ensures
        valid_links(a + b) == valid_links(a) + valid_links(b),
        valid_links(seq![l]) == (if l.valid {
            1nat
        } else {
            0nat
        }),
    decreases b.len(),
{
    assert(seq![l].drop_last() =~= seq![]);
    assert(valid_links(seq![l].drop_last()) == 0);
    if b.len() == 0 {
        assert(a + b =~= a);
    } else {
        law_valid_links_add_up(a, b.drop_last(), l);
        assert((a + b).drop_last() =~= a + b.drop_last());
    }
}

/// Only an active spec starts to complete, only a completing one completes, and
/// a completed one goes no further.
pub proof fn law_completion_is_one_way(status: SpecState)
    ensures
        toward_completion(status) == Some(SpecState::Completing) <==> status == SpecState::Active,
        toward_completion(status) == Some(SpecState::Completed) <==> status
            == SpecState::Completing,
        toward_completion(status) is Some ==> status is Active || status is Completing,
{
}

/// What is new replaces what was there, and what is not given stays.
pub proof fn law_updates_replace_what_is_given<T>(new: T, old: Option<T>)
    ensures
        or_else(Some(new), old) == Some(new),
        or_else(None, old) == old,
{
}

} // verus!
