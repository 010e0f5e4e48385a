//! The `belt workspace` and `belt context` commands.

use vstd::prelude::*;

use crate::cron::CronJob;
use crate::daemon::SourceConfig;
use crate::pieces::found_at;
use crate::pieces::group_holds;
use crate::pieces::holds;
use crate::queue::QueueItem;
use crate::queue::QueuePhase;
use crate::scan::join;
use crate::scan::joined;
use crate::scan::law_a_joined_text_holds_its_parts;
use crate::status::WorkspaceRow;
use crate::text::cat2;
use crate::text::cat3;
use crate::text::cat5;
use crate::text::dec;
use crate::text::dec_u32;
use crate::text::dec_u64;
use crate::text::dec_usize;
use crate::text::pad_right;
use crate::text::padded_right;
use crate::text::text_eq;
use crate::text::texts;

verus! {

// ---------------------------------------------------------------------------
// Registration
// ---------------------------------------------------------------------------

/// What came of registering a workspace.
#[derive(Debug)]
pub struct Onboarding {
    pub workspace_name: String,
    /// The workspace is new; otherwise it was updated.
    pub created: bool,
    pub config_path: String,
    pub source_count: usize,
    pub cron_jobs_seeded: usize,
    pub claw_dir: String,
}

/// `belt workspace add`: what is said when a workspace was registered.
pub fn add_message(o: &Onboarding) -> (r: String)
    ensures
        r@ == "Workspace '"@ + o.workspace_name@ + (if o.created {
            "' registered successfully.\n  Config: "@
        } else {
            "' updated successfully.\n  Config: "@
        }) + o.config_path@ + "\n  Sources: "@ + dec(o.source_count as nat)
            + "\n  Cron jobs seeded: "@ + dec(o.cron_jobs_seeded as nat) + "\n  Claw dir: "@
            + o.claw_dir@ + "\n"@,
{
    let mut out = "Workspace '".to_string();
    out.append(o.workspace_name.as_str());
    if o.created {
        out.append("' registered successfully.\n  Config: ");
    } else {
        out.append("' updated successfully.\n  Config: ");
    }
    out.append(o.config_path.as_str());
    out.append("\n  Sources: ");
    let sources = dec_usize(o.source_count);
    out.append(sources.as_str());
    out.append("\n  Cron jobs seeded: ");
    let jobs = dec_usize(o.cron_jobs_seeded);
    out.append(jobs.as_str());
    out.append("\n  Claw dir: ");
    out.append(o.claw_dir.as_str());
    out.append("\n");
    out
}

/// One line of the list of workspaces.
pub open spec fn workspace_line(name: Seq<char>, config: Seq<char>, created: Seq<char>) -> Seq<
    char,
> {
    pad_right(name, 20) + " "@ + pad_right(config, 50) + " "@ + created + "\n"@
}

/// The lines of the first `n` workspaces.
pub open spec fn workspace_lines(ws: Seq<WorkspaceRow>, n: nat) -> Seq<char>
    decreases n,
{
    if n == 0 {
        seq![]
    } else {
        workspace_lines(ws, (n - 1) as nat) + workspace_line(
            ws[n - 1].name@,
            ws[n - 1].config_path@,
            ws[n - 1].created_at@,
        )
    }
}

fn write_workspace_line(name: &str, config: &str, created: &str) -> (r: String)
    ensures
        r@ == workspace_line(name@, config@, created@),
{
    let mut out = padded_right(name, 20);
    out.append(" ");
    let cell = padded_right(config, 50);
    out.append(cell.as_str());
    out.append(" ");
    out.append(created);
    out.append("\n");
    out
}

/// `belt workspace list`: the registered workspaces as a table.
pub fn list_workspaces(ws: &Vec<WorkspaceRow>) -> (r: String)
    ensures
        r@ == (if ws.len() == 0 {
            "No workspaces registered.\n"@
        } else {
            workspace_line("NAME"@, "CONFIG"@, "CREATED"@) + workspace_lines(ws@, ws.len() as nat)
        }),
{
    if ws.len() == 0 {
        return "No workspaces registered.\n".to_string();
    }
    let mut lines = String::new();
    let mut i: usize = 0;
    while i < ws.len()
        invariant
            i <= ws.len(),
            lines@ == workspace_lines(ws@, i as nat),
        decreases ws.len() - i,
    {
        let line = write_workspace_line(
            ws[i].name.as_str(),
            ws[i].config_path.as_str(),
            ws[i].created_at.as_str(),
        );
        lines.append(line.as_str());
        i = i + 1;
    }
    let mut out = write_workspace_line("NAME", "CONFIG", "CREATED");
    out.append(lines.as_str());
    out
}

/// The job belongs to the workspace `name`.
pub open spec fn owns(name: Seq<char>, job: CronJob) -> bool {
    job.workspace matches Some(w) && w@ == name
}

/// The lines of the jobs of a workspace, among the first `n`.
pub open spec fn own_job_lines(name: Seq<char>, jobs: Seq<CronJob>, n: nat) -> Seq<char>
    decreases n,
{
    if n == 0 {
        seq![]
    } else {
        let before = own_job_lines(name, jobs, (n - 1) as nat);
        let job = jobs[n - 1];
        if owns(name, job) {
            before + ("  "@ + job.name@ + " ["@ + job.schedule@ + "] ("@ + (if job.enabled {
                "enabled"@
            } else {
                "disabled"@
            }) + ")\n"@)
        } else {
            before
        }
    }
}

/// The jobs of a workspace, where it has any.
pub open spec fn own_jobs(name: Seq<char>, jobs: Seq<CronJob>) -> Seq<char> {
    if exists|i: int| 0 <= i < jobs.len() && owns(name, #[trigger] jobs[i]) {
        "\nCron jobs:\n"@ + own_job_lines(name, jobs, jobs.len())
    } else {
        ""@
    }
}

/// `belt workspace show`: a workspace and its cron jobs. `name` is the name
/// that was asked for.
pub fn show_workspace(ws: &WorkspaceRow, name: &str, jobs: &Vec<CronJob>) -> (r: String)
    ensures
        r@ == "Name:       "@ + ws.name@ + "\nConfig:     "@ + ws.config_path@
            + "\nCreated at: "@ + ws.created_at@ + "\n"@ + own_jobs(name@, jobs@),
{
    let mut out = "Name:       ".to_string();
    out.append(ws.name.as_str());
    out.append("\nConfig:     ");
    out.append(ws.config_path.as_str());
    out.append("\nCreated at: ");
    out.append(ws.created_at.as_str());
    out.append("\n");
    let mut lines = String::new();
    let mut any = false;
    let mut i: usize = 0;
    while i < jobs.len()
        invariant
            i <= jobs.len(),
            lines@ == own_job_lines(name@, jobs@, i as nat),
            any <==> exists|j: int| 0 <= j < i && owns(name@, #[trigger] jobs@[j]),
        decreases jobs.len() - i,
    {
        let job = &jobs[i];
        let own = match &job.workspace {
            Some(w) => text_eq(w.as_str(), name),
            None => false,
        };
        if own {
            let mut line = cat5("  ", job.name.as_str(), " [", job.schedule.as_str(), "] (");
            if job.enabled {
                line.append("enabled");
            } else {
                line.append("disabled");
            }
            line.append(")\n");
            lines.append(line.as_str());
            any = true;
            assert(owns(name@, jobs@[i as int]));
        }
        i = i + 1;
    }
    if any {
        let list = cat2("\nCron jobs:\n", lines.as_str());
        out.append(list.as_str());
    } else {
        out.append("");
    }
    out
}

/// `belt workspace update`: what is said, with the new configuration path
/// where one was given.
pub fn update_message(name: &str, config: &Option<String>) -> (r: String)
    ensures
        r@ == (match config {
            Some(path) => "Workspace '"@ + name@ + "' updated.\n  Config: "@ + path@ + "\n"@,
            None => "No update options provided. Use --config to update the config path.\n"@,
        }),
{
    match config {
        Some(path) => cat5("Workspace '", name, "' updated.\n  Config: ", path.as_str(), "\n"),
        None => "No update options provided. Use --config to update the config path.\n".to_string(),
    }
}

/// An item whose work is not over.
pub open spec fn is_active(phase: QueuePhase) -> bool {
    phase != QueuePhase::Done && phase != QueuePhase::Skipped
}

/// How many of the items are active.
pub open spec fn active_items(items: Seq<QueueItem>) -> nat
    decreases items.len(),
{
    if items.len() == 0 {
        0
    } else {
        active_items(items.drop_last()) + (if is_active(items.last().phase) {
            1nat
        } else {
            0nat
        })
    }
}

/// How many of the items are active.
pub fn count_active(items: &Vec<QueueItem>) -> (r: usize)
    ensures
        r == active_items(items@),
        r <= items.len(),
{
    let mut n: usize = 0;
    let mut i: usize = 0;
    while i < items.len()
        invariant
            i <= items.len(),
            n <= i,
            n == active_items(items@.take(i as int)),
        decreases items.len() - i,
    {
        proof {
            assert(items@.take(i + 1).drop_last() =~= items@.take(i as int));
        }
        if items[i].phase != QueuePhase::Done && items[i].phase != QueuePhase::Skipped {
            n = n + 1;
        }
        i = i + 1;
    }
    proof {
        assert(items@.take(items@.len() as int) =~= items@);
    }
    n
}

/// `belt workspace remove`: whether the workspace is removed, and what is said
/// then, or the warning where active items forbid it.
pub fn remove_workspace(name: &str, items: &Vec<QueueItem>, force: bool) -> (r: Result<
    String,
    String,
>)
    ensures
        r is Ok <==> active_items(items@) == 0 || force,
        r matches Ok(t) ==> t@ == "Workspace '"@ + name@ + "' removed.\n"@ + (if active_items(
            items@,
        ) > 0 {
            "  Note: "@ + dec(active_items(items@)) + " active item(s) remain in the queue.\n"@
        } else {
            ""@
        }),
        r matches Err(e) ==> e@ == "Warning: workspace '"@ + name@ + "' has "@ + dec(
            active_items(items@),
        ) + " active item(s).\nUse --force to remove anyway.\n"@,
{
    let n: usize = count_active(items);
    let shown = dec_usize(n);
    if n > 0 && !force {
        return Err(
            cat5(
                "Warning: workspace '",
                name,
                "' has ",
                shown.as_str(),
                " active item(s).\nUse --force to remove anyway.\n",
            ),
        );
    }
    let mut out = cat3("Workspace '", name, "' removed.\n");
    if n > 0 {
        let note = cat3("  Note: ", shown.as_str(), " active item(s) remain in the queue.\n");
        out.append(note.as_str());
    } else {
        out.append("");
    }
    Ok(out)
}

// ---------------------------------------------------------------------------
// Configuration
// ---------------------------------------------------------------------------

/// The claw part of a workspace configuration.
#[derive(Clone, Debug)]
pub struct ClawConfig {
    pub auto_approve: bool,
    pub hitl_policy: Option<String>,
    pub classify_policy: Option<String>,
    pub enabled_commands: Vec<String>,
}

/// What of a workspace configuration is shown.
#[derive(Clone, Debug)]
pub struct ConfigView {
    pub name: String,
    pub concurrency: u32,
    pub default_runtime: String,
    pub sources: Vec<SourceConfig>,
    pub claw: Option<ClawConfig>,
}

/// The lines of the first `n` sources.
pub open spec fn source_lines(sources: Seq<SourceConfig>, n: nat) -> Seq<char>
    decreases n,
{
    if n == 0 {
        seq![]
    } else {
        source_lines(sources, (n - 1) as nat) + ("  "@ + sources[n - 1].name@
            + ":\n    URL:           "@ + sources[n - 1].url@ + "\n    Scan interval: "@ + dec(
            sources[n - 1].scan_interval_secs as nat,
        ) + "s\n"@)
    }
}

/// The sources, where there are any.
pub open spec fn source_part(sources: Seq<SourceConfig>) -> Seq<char> {
    if sources.len() == 0 {
        ""@
    } else {
        "\nSources:\n"@ + source_lines(sources, sources.len())
    }
}

/// A labelled line, where there is a value.
pub open spec fn opt_line(label: Seq<char>, v: Option<String>) -> Seq<char> {
    match v {
        Some(s) => label + s@ + "\n"@,
        None => ""@,
    }
}

/// The claw part, where there is one.
pub open spec fn claw_part(claw: Option<ClawConfig>) -> Seq<char> {
    match claw {
        None => ""@,
        Some(c) => "\nClaw config:\n  Auto-approve: "@ + (if c.auto_approve {
            "true\n"@
        } else {
            "false\n"@
        }) + opt_line("  HITL policy:  "@, c.hitl_policy) + opt_line(
            "  Classify:     "@,
            c.classify_policy,
        ) + (if c.enabled_commands.len() == 0 {
            ""@
        } else {
            "  Commands:     "@ + join(texts(c.enabled_commands@), ", "@) + "\n"@
        }),
    }
}

fn write_opt_line(label: &str, v: &Option<String>) -> (r: String)
    ensures
        r@ == opt_line(label@, *v),
{
    match v {
        Some(s) => cat3(label, s.as_str(), "\n"),
        None => "".to_string(),
    }
}

fn write_source_part(sources: &Vec<SourceConfig>) -> (r: String)
    ensures
        r@ == source_part(sources@),
{
    if sources.len() == 0 {
        return "".to_string();
    }
    let mut lines = String::new();
    let mut i: usize = 0;
    while i < sources.len()
        invariant
            i <= sources.len(),
            lines@ == source_lines(sources@, i as nat),
        decreases sources.len() - i,
    {
        let s = &sources[i];
        let mut line = cat5(
            "  ",
            s.name.as_str(),
            ":\n    URL:           ",
            s.url.as_str(),
            "\n    Scan interval: ",
        );
        let secs = dec_u64(s.scan_interval_secs);
        line.append(secs.as_str());
        line.append("s\n");
        lines.append(line.as_str());
        i = i + 1;
    }
    cat2("\nSources:\n", lines.as_str())
}

fn write_claw_part(claw: &Option<ClawConfig>) -> (r: String)
    ensures
        r@ == claw_part(*claw),
{
    match claw {
        None => "".to_string(),
        Some(c) => {
            let mut out = "\nClaw config:\n  Auto-approve: ".to_string();
            if c.auto_approve {
                out.append("true\n");
            } else {
                out.append("false\n");
            }
            let hitl = write_opt_line("  HITL policy:  ", &c.hitl_policy);
            out.append(hitl.as_str());
            let classify = write_opt_line("  Classify:     ", &c.classify_policy);
            out.append(classify.as_str());
            if c.enabled_commands.len() == 0 {
                out.append("");
            } else {
                let list = joined(&c.enabled_commands, ", ");
                let line = cat3("  Commands:     ", list.as_str(), "\n");
                out.append(line.as_str());
            }
            out
        },
    }
}

/// `belt workspace config`: a workspace configuration as text.
pub fn show_config(c: &ConfigView) -> (r: String)
    ensures
        r@ == "Name:        "@ + c.name@ + "\nConcurrency: "@ + dec(c.concurrency as nat)
            + "\nRuntime:     "@ + c.default_runtime@ + "\n"@ + source_part(c.sources@)
            + claw_part(c.claw),
{
    let mut out = "Name:        ".to_string();
    out.append(c.name.as_str());
    out.append("\nConcurrency: ");
    let n = dec_u32(c.concurrency);
    out.append(n.as_str());
    out.append("\nRuntime:     ");
    out.append(c.default_runtime.as_str());
    out.append("\n");
    let sources = write_source_part(&c.sources);
    out.append(sources.as_str());
    let claw = write_claw_part(&c.claw);
    out.append(claw.as_str());
    out
}

/// What is said where the configuration file of a workspace does not exist.
pub fn missing_config(config_path: &str, name: &str) -> (r: String)
    ensures
        r@ == "Config file not found: "@ + config_path@ + ". Use 'belt workspace update "@ + name@
            + " --config <path>' to fix."@,
{
    cat5(
        "Config file not found: ",
        config_path,
        ". Use 'belt workspace update ",
        name,
        " --config <path>' to fix.",
    )
}

// ---------------------------------------------------------------------------
// Item context
// ---------------------------------------------------------------------------

/// What scripts see of a queue item and its source.
#[derive(Debug)]
pub struct ItemContext {
    pub work_id: String,
    pub workspace: String,
    pub phase: String,
    pub state: String,
    pub source_id: String,
    pub source_type: String,
    pub source_url: String,
    /// Number and title of the issue.
    pub issue: Option<(u64, String)>,
    /// Number of the pull request.
    pub pr: Option<u64>,
    pub history_len: usize,
}

/// The context of an item whose source could not be asked: what the queue
/// itself knows.
pub fn static_context(item: &QueueItem, history_len: usize) -> (r: ItemContext)
    ensures
        r.work_id@ == item.work_id@,
        r.workspace@ == item.workspace_id@,
        r.phase@ == item.phase.name(),
        r.state@ == item.state@,
        r.source_id@ == item.source_id@,
        r.source_type@ == "unknown"@,
        r.source_url@ == ""@,
        r.issue is None,
        r.pr is None,
        r.history_len == history_len,
{
    ItemContext {
        work_id: item.work_id.clone(),
        workspace: item.workspace_id.clone(),
        phase: item.phase.as_str().to_string(),
        state: item.state.clone(),
        source_id: item.source_id.clone(),
        source_type: "unknown".to_string(),
        source_url: "".to_string(),
        issue: None,
        pr: None,
        history_len,
    }
}

/// The lines on the issue, the pull request and the history, as far as there
/// are any.
pub open spec fn context_tail(c: ItemContext) -> Seq<char> {
    (match c.issue {
        Some(i) => "issue:     #"@ + dec(i.0 as nat) + " "@ + i.1@ + "\n"@,
        None => ""@,
    }) + (match c.pr {
        Some(n) => "pr:        #"@ + dec(n as nat) + "\n"@,
        None => ""@,
    }) + (if c.history_len > 0 {
        "history:   "@ + dec(c.history_len as nat) + " entries\n"@
    } else {
        ""@
    })
}

fn write_context_tail(c: &ItemContext) -> (r: String)
    ensures
        r@ == context_tail(*c),
{
    let mut out = match &c.issue {
        Some(i) => {
            let n = dec_u64(i.0);
            cat5("issue:     #", n.as_str(), " ", i.1.as_str(), "\n")
        },
        None => "".to_string(),
    };
    let pr = match &c.pr {
        Some(k) => {
            let n = dec_u64(*k);
            cat3("pr:        #", n.as_str(), "\n")
        },
        None => "".to_string(),
    };
    out.append(pr.as_str());
    let history = if c.history_len > 0 {
        let n = dec_usize(c.history_len);
        cat3("history:   ", n.as_str(), " entries\n")
    } else {
        "".to_string()
    };
    out.append(history.as_str());
    out
}

/// `belt context`: the context of an item as text.
pub fn show_context(c: &ItemContext) -> (r: String)
    ensures
        r@ == "work_id:   "@ + c.work_id@ + "\nworkspace: "@ + c.workspace@ + "\nphase:     "@
            + c.phase@ + "\nstate:     "@ + c.state@ + "\nsource_id: "@ + c.source_id@
            + "\nsource:    "@ + c.source_type@ + " "@ + c.source_url@ + "\n"@ + context_tail(*c),
{
    let mut out = "work_id:   ".to_string();
    out.append(c.work_id.as_str());
    out.append("\nworkspace: ");
    out.append(c.workspace.as_str());
    out.append("\nphase:     ");
    out.append(c.phase.as_str());
    out.append("\nstate:     ");
    out.append(c.state.as_str());
    out.append("\nsource_id: ");
    out.append(c.source_id.as_str());
    out.append("\nsource:    ");
    out.append(c.source_type.as_str());
    out.append(" ");
    out.append(c.source_url.as_str());
    out.append("\n");
    let tail = write_context_tail(c);
    out.append(tail.as_str());
    out
}

/// What is said where a field of the context does not exist.
pub fn missing_field(field: &str) -> (r: String)
    ensures
        r@ == "field '"@ + field@ + "' not found in context"@,
{
    cat3("field '", field, "' not found in context")
}

// ---------------------------------------------------------------------------
// Laws
// ---------------------------------------------------------------------------

/// The line of a workspace shows its columns at fixed places.
pub proof fn law_workspace_lines_have_their_columns(
    name: Seq<char>,
    config: Seq<char>,
    created: Seq<char>,
)
    requires
        name.len() <= 20,
        config.len() <= 50,
    ensures
        found_at(workspace_line(name, config, created), 0, name),
        found_at(workspace_line(name, config, created), 21, config),
        found_at(workspace_line(name, config, created), 72, created),
{
    reveal_strlit(" ");
    let line = workspace_line(name, config, created);
    assert(line.subrange(0, name.len() as int) =~= name);
    assert(line.subrange(21, 21 + config.len() as int) =~= config);
    assert(line.subrange(72, 72 + created.len() as int) =~= created);
}

/// Every workspace is listed on a line of its own.
pub proof fn law_every_workspace_is_listed(ws: Seq<WorkspaceRow>, n: nat, i: int)
    requires
        0 <= i < n <= ws.len(),
    ensures
        holds(
            workspace_lines(ws, n),
            workspace_line(ws[i].name@, ws[i].config_path@, ws[i].created_at@),
        ),
    decreases n,
{
    broadcast use group_holds;

    if i < n - 1 {
        law_every_workspace_is_listed(ws, (n - 1) as nat, i);
    }
}

proof fn lemma_own_job_is_shown(name: Seq<char>, jobs: Seq<CronJob>, n: nat, i: int)
    requires
        0 <= i < n <= jobs.len(),
        owns(name, jobs[i]),
    ensures
        holds(own_job_lines(name, jobs, n), "  "@ + jobs[i].name@ + " ["@ + jobs[i].schedule@),
        jobs[i].enabled ==> holds(
            own_job_lines(name, jobs, n),
            jobs[i].schedule@ + "] ("@ + "enabled"@,
        ),
        !jobs[i].enabled ==> holds(
            own_job_lines(name, jobs, n),
            jobs[i].schedule@ + "] ("@ + "disabled"@,
        ),
    decreases n,
{
    broadcast use group_holds;

    if i < n - 1 {
        lemma_own_job_is_shown(name, jobs, (n - 1) as nat, i);
    } else {
        let state = if jobs[i].enabled {
            "enabled"@
        } else {
            "disabled"@
        };
        let line = "  "@ + jobs[i].name@ + " ["@ + jobs[i].schedule@ + "] ("@ + state + ")\n"@;
        assert(holds(line, "  "@ + jobs[i].name@ + " ["@ + jobs[i].schedule@));
        assert(holds(line, jobs[i].schedule@ + "] ("@ + state));
    }
}

/// A workspace is shown with every job of its own.
pub proof fn law_own_jobs_are_shown(name: Seq<char>, jobs: Seq<CronJob>, i: int)
    requires
        0 <= i < jobs.len(),
        jobs[i].workspace matches Some(w) && w@ == name,
    ensures
        holds(own_jobs(name, jobs), "  "@ + jobs[i].name@ + " ["@ + jobs[i].schedule@),
        jobs[i].enabled ==> holds(own_jobs(name, jobs), jobs[i].schedule@ + "] ("@ + "enabled"@),
        !jobs[i].enabled ==> holds(own_jobs(name, jobs), jobs[i].schedule@ + "] ("@ + "disabled"@),
{
    broadcast use group_holds;

    assert(owns(name, jobs[i]));
    lemma_own_job_is_shown(name, jobs, jobs.len(), i);
}

/// A job of another workspace, or of none, is not shown.
pub proof fn law_other_jobs_are_not_shown(name: Seq<char>, jobs: Seq<CronJob>, job: CronJob)
    requires
        job.workspace matches Some(w) ==> w@ != name,
    ensures
        own_jobs(name, jobs.push(job)) == own_jobs(name, jobs),
        own_jobs(name, seq![job]) == ""@,
{
    let more = jobs.push(job);
    let n = jobs.len();
    lemma_own_job_lines_alike(name, jobs, more, n);
    assert(own_job_lines(name, more, n + 1) == own_job_lines(name, more, n));
    if exists|i: int| 0 <= i < jobs.len() && owns(name, #[trigger] jobs[i]) {
        let i = choose|i: int| 0 <= i < jobs.len() && owns(name, #[trigger] jobs[i]);
        assert(owns(name, more[i]));
    }
    if exists|i: int| 0 <= i < more.len() && owns(name, #[trigger] more[i]) {
        let i = choose|i: int| 0 <= i < more.len() && owns(name, #[trigger] more[i]);
        assert(owns(name, jobs[i]));
    }
    assert(!owns(name, seq![job][0]));
}

proof fn lemma_own_job_lines_alike(name: Seq<char>, a: Seq<CronJob>, b: Seq<CronJob>, n: nat)
    requires
        n <= a.len(),
        n <= b.len(),
        forall|i: int| 0 <= i < n ==> a[i] == b[i],
    ensures
        own_job_lines(name, a, n) == own_job_lines(name, b, n),
    decreases n,
{
    if n > 0 {
        lemma_own_job_lines_alike(name, a, b, (n - 1) as nat);
    }
}

/// Items are active unless they are done or skipped, and they are counted one by
/// one.
pub proof fn law_active_items_add_up(a: Seq<QueueItem>, b: Seq<QueueItem>, item: QueueItem)
    ensures
        active_items(a + b) == active_items(a) + active_items(b),
        active_items(seq![item]) == (if item.phase is Done || item.phase is Skipped {
            0nat
        } else {
            1nat
        }),
    decreases b.len(),
{
    assert(seq![item].drop_last() =~= seq![]);
    assert(active_items(seq![item].drop_last()) == 0);
    if b.len() == 0 {
        assert(a + b =~= a);
    } else {
        law_active_items_add_up(a, b.drop_last(), item);
        assert((a + b).drop_last() =~= a + b.drop_last());
    }
}

proof fn lemma_source_lines_hold(sources: Seq<SourceConfig>, n: nat, i: int)
    requires
        0 <= i < n <= sources.len(),
    ensures
        holds(
            source_lines(sources, n),
            sources[i].name@ + ":\n    URL:           "@ + sources[i].url@,
        ),
        holds(
            source_lines(sources, n),
            "\n    Scan interval: "@ + dec(sources[i].scan_interval_secs as nat) + "s\n"@,
        ),
    decreases n,
{
    broadcast use group_holds;

    if i < n - 1 {
        lemma_source_lines_hold(sources, (n - 1) as nat, i);
    } else {
        let line = "  "@ + sources[i].name@ + ":\n    URL:           "@ + sources[i].url@
            + "\n    Scan interval: "@ + dec(sources[i].scan_interval_secs as nat) + "s\n"@;
        assert(holds(line, sources[i].name@ + ":\n    URL:           "@ + sources[i].url@));
        assert(holds(
            line,
            "\n    Scan interval: "@ + dec(sources[i].scan_interval_secs as nat) + "s\n"@,
        ));
    }
}

/// A configuration is shown with every source: its name, its URL and its interval.
pub proof fn law_every_source_is_shown(sources: Seq<SourceConfig>, i: int)
    requires
        0 <= i < sources.len(),
    ensures
        holds(source_part(sources), sources[i].name@ + ":\n    URL:           "@ + sources[i].url@),
        holds(
            source_part(sources),
            "\n    Scan interval: "@ + dec(sources[i].scan_interval_secs as nat) + "s\n"@,
        ),
{
    broadcast use group_holds;

    lemma_source_lines_hold(sources, sources.len(), i);
}

/// A configuration is shown with what it says of the agent: what is approved, the
/// policies, and every command.
pub proof fn law_the_agent_is_shown(c: ClawConfig, i: int)
    ensures
        c.auto_approve ==> holds(claw_part(Some(c)), "true\n"@),
        c.hitl_policy matches Some(t) ==> holds(
            claw_part(Some(c)),
            "  HITL policy:  "@ + t@ + "\n"@,
        ),
        c.classify_policy matches Some(t) ==> holds(
            claw_part(Some(c)),
            "  Classify:     "@ + t@ + "\n"@,
        ),
        !c.auto_approve ==> holds(claw_part(Some(c)), "false\n"@),
        0 <= i < c.enabled_commands.len() ==> holds(
            claw_part(Some(c)),
            c.enabled_commands@[i]@,
        ),
        claw_part(None) == ""@,
{
    broadcast use group_holds;

    let names = texts(c.enabled_commands@);
    if 0 <= i < names.len() {
        law_a_joined_text_holds_its_parts(names, ", "@, i);
    }
}

/// The context of an item is shown with its issue, its pull request and its
/// history.
pub proof fn law_contexts_are_shown_whole(c: ItemContext)
    ensures
        c.issue matches Some(i) ==> holds(
            context_tail(c),
            dec(i.0 as nat) + " "@ + i.1@,
        ),
        c.pr matches Some(n) ==> holds(context_tail(c), "pr:        #"@ + dec(n as nat) + "\n"@),
        c.history_len > 0 ==> holds(
            context_tail(c),
            "history:   "@ + dec(c.history_len as nat) + " entries\n"@,
        ),
{
    broadcast use group_holds;

}

} // verus!
