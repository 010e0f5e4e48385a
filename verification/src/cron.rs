//! Cron jobs: schedules, listings, and what the `belt cron` commands say.

use vstd::prelude::*;

use crate::pieces::found_at;
use crate::pieces::group_holds;
use crate::pieces::holds;
use crate::process::CommandOutput;
use crate::scan::is_digit;
use crate::scan::law_truncating_keeps_the_beginning;
use crate::scan::truncate;
use crate::scan::truncated;
use crate::scan::words;
use crate::scan::words_of;
use crate::text::cat2;
use crate::text::cat3;
use crate::text::cat5;
use crate::text::chars_of;
use crate::text::dec;
use crate::text::dec_i64;
use crate::text::dec_int;
use crate::text::dec_usize;
use crate::text::pad_right;
use crate::text::padded_right;
use crate::text::text_eq;
use crate::text::text_or;
use crate::text::texts;
use crate::text::unwrap_text;

verus! {

/// A registered cron job.
#[derive(Clone, Debug)]
pub struct CronJob {
    pub name: String,
    pub schedule: String,
    pub script: String,
    pub workspace: Option<String>,
    pub enabled: bool,
    pub last_run_at: Option<String>,
}

// ---------------------------------------------------------------------------
// Schedules
// ---------------------------------------------------------------------------

/// A character that a cron field may hold.
pub open spec fn is_cron_char(c: char) -> bool {
    is_digit(c) || c == '*' || c == '/' || c == '-' || c == ','
}

/// Every character of the field is valid.
pub open spec fn is_cron_field(field: Seq<char>) -> bool {
    forall|i: int| 0 <= i < field.len() ==> is_cron_char(#[trigger] field[i])
}

/// The names of the five fields.
pub open spec fn field_name(i: int) -> Seq<char> {
    if i == 0 {
        "minute"@
    } else if i == 1 {
        "hour"@
    } else if i == 2 {
        "day"@
    } else if i == 3 {
        "month"@
    } else {
        "weekday"@
    }
}

/// What is wrong with the fields from position `i` on.
pub open spec fn field_fault(fields: Seq<Seq<char>>, i: int) -> Option<Seq<char>>
    decreases fields.len() - i,
{
    if i >= fields.len() {
        None
    } else if is_cron_field(fields[i]) {
        field_fault(fields, i + 1)
    } else {
        Some(
            "invalid cron expression: "@ + field_name(i) + " field '"@ + fields[i]
                + "' contains invalid characters"@,
        )
    }
}

/// What is wrong with a cron expression: it must have five fields, and each
/// may hold only digits, `*`, `/`, `-` and `,`.
pub open spec fn cron_fault(expr: Seq<char>) -> Option<Seq<char>> {
    let fields = words(expr);
    if fields.len() != 5 {
        Some(
            "invalid cron expression: expected 5 fields (minute hour day month weekday), got "@
                + dec(fields.len()),
        )
    } else {
        field_fault(fields, 0)
    }
}

fn valid_field(field: &str) -> (r: bool)
    ensures
        r == is_cron_field(field@),
{
    let cs = chars_of(field);
    let mut i: usize = 0;
    while i < cs.len()
        invariant
            i <= cs.len(),
            cs@ == field@,
            forall|j: int| 0 <= j < i ==> is_cron_char(#[trigger] field@[j]),
        decreases cs.len() - i,
    {
        let c: char = cs[i];
        if !(('0' <= c && c <= '9') || c == '*' || c == '/' || c == '-' || c == ',') {
            assert(!is_cron_char(field@[i as int]));
            return false;
        }
        i = i + 1;
    }
    true
}

fn name_of_field(i: usize) -> (r: &'static str)
    ensures
        r@ == field_name(i as int),
{
    if i == 0 {
        "minute"
    } else if i == 1 {
        "hour"
    } else if i == 2 {
        "day"
    } else if i == 3 {
        "month"
    } else {
        "weekday"
    }
}

/// Validates that a cron expression has the correct number of fields (5).
///
/// This performs basic structural validation: exactly 5 space-separated fields
/// where each field contains only valid cron characters (digits, `*`, `/`,
/// `-`, `,`).
pub fn validate_cron_expression(expr: &str) -> (r: Result<(), String>)
    ensures
        r is Ok <==> cron_fault(expr@) is None,
        r matches Err(e) ==> cron_fault(expr@) == Some(e@),
{
    let fields = words_of(expr);
    let ghost fs = words(expr@);
    proof {
        assert(fields@.len() == fs.len());
    }
    if fields.len() != 5 {
        let count = dec_usize(fields.len());
        return Err(
            cat2(
                "invalid cron expression: expected 5 fields (minute hour day month weekday), got ",
                count.as_str(),
            ),
        );
    }
    let mut i: usize = 0;
    while i < fields.len()
        invariant
            i <= fields.len(),
            fields.len() == 5,
            fs == words(expr@),
            texts(fields@) == fs,
            cron_fault(expr@) == field_fault(fs, i as int),
        decreases fields.len() - i,
    {
        proof {
            assert(fs[i as int] == fields@[i as int]@);
        }
        if !valid_field(fields[i].as_str()) {
            return Err(
                cat5(
                    "invalid cron expression: ",
                    name_of_field(i),
                    " field '",
                    fields[i].as_str(),
                    "' contains invalid characters",
                ),
            );
        }
        i = i + 1;
    }
    Ok(())
}

// ---------------------------------------------------------------------------
// Listing
// ---------------------------------------------------------------------------

/// A row of the job table.
pub open spec fn job_row(
    name: Seq<char>,
    schedule: Seq<char>,
    enabled: Seq<char>,
    workspace: Seq<char>,
    last_run: Seq<char>,
) -> Seq<char> {
    pad_right(name, 20) + " "@ + pad_right(schedule, 16) + " "@ + pad_right(enabled, 10) + " "@
        + pad_right(workspace, 12) + " "@ + pad_right(last_run, 24) + "\n"@
}

/// The row of one job.
pub open spec fn job_line(job: CronJob) -> Seq<char> {
    job_row(
        truncated(job.name@, 20),
        truncated(job.schedule@, 16),
        if job.enabled {
            "yes"@
        } else {
            "no"@
        },
        text_or(job.workspace, "-"@),
        text_or(job.last_run_at, "never"@),
    )
}

/// The rows of the first `n` jobs.
pub open spec fn job_lines(jobs: Seq<CronJob>, n: nat) -> Seq<char>
    decreases n,
{
    if n == 0 {
        seq![]
    } else {
        job_lines(jobs, (n - 1) as nat) + job_line(jobs[n - 1])
    }
}

/// The table of all jobs.
pub open spec fn job_table(jobs: Seq<CronJob>) -> Seq<char> {
    if jobs.len() == 0 {
        "No cron jobs registered.\n"@
    } else {
        job_row("NAME"@, "SCHEDULE"@, "ENABLED"@, "WORKSPACE"@, "LAST_RUN"@) + job_lines(
            jobs,
            jobs.len(),
        ) + "\n"@ + dec(jobs.len()) + " job(s)\n"@
    }
}

fn write_job_row(
    name: &str,
    schedule: &str,
    enabled: &str,
    workspace: &str,
    last_run: &str,
) -> (r: String)
    ensures
        r@ == job_row(name@, schedule@, enabled@, workspace@, last_run@),
{
    let mut out = padded_right(name, 20);
    out.append(" ");
    let schedule_cell = padded_right(schedule, 16);
    out.append(schedule_cell.as_str());
    out.append(" ");
    let enabled_cell = padded_right(enabled, 10);
    out.append(enabled_cell.as_str());
    out.append(" ");
    let workspace_cell = padded_right(workspace, 12);
    out.append(workspace_cell.as_str());
    out.append(" ");
    let last_run_cell = padded_right(last_run, 24);
    out.append(last_run_cell.as_str());
    out.append("\n");
    out
}

fn write_job_line(job: &CronJob) -> (r: String)
    ensures
        r@ == job_line(*job),
{
    let name = truncate(job.name.as_str(), 20);
    let schedule = truncate(job.schedule.as_str(), 16);
    let workspace = unwrap_text(&job.workspace, "-");
    let last_run = unwrap_text(&job.last_run_at, "never");
    let enabled = if job.enabled {
        "yes"
    } else {
        "no"
    };
    write_job_row(
        name.as_str(),
        schedule.as_str(),
        enabled,
        workspace.as_str(),
        last_run.as_str(),
    )
}

/// `belt cron list`: the registered jobs as a table; `None` where they are to
/// be serialized as they are.
pub fn cmd_cron_list(jobs: &Vec<CronJob>, format: &str) -> (r: Option<String>)
    ensures
        r is None <==> format@ == "json"@,
        r matches Some(t) ==> t@ == job_table(jobs@),
{
    if text_eq(format, "json") {
        return None;
    }
    if jobs.len() == 0 {
        return Some("No cron jobs registered.\n".to_string());
    }
    let mut lines = String::new();
    let mut i: usize = 0;
    while i < jobs.len()
        invariant
            i <= jobs.len(),
            lines@ == job_lines(jobs@, i as nat),
        decreases jobs.len() - i,
    {
        let line = write_job_line(&jobs[i]);
        lines.append(line.as_str());
        i = i + 1;
    }
    let mut out = write_job_row("NAME", "SCHEDULE", "ENABLED", "WORKSPACE", "LAST_RUN");
    out.append(lines.as_str());
    out.append("\n");
    let count = dec_usize(jobs.len());
    out.append(count.as_str());
    out.append(" job(s)\n");
    Some(out)
}

// ---------------------------------------------------------------------------
// Changes
// ---------------------------------------------------------------------------

/// Why a script cannot be scheduled: it does not exist.
pub open spec fn script_fault(script: Seq<char>) -> Seq<char> {
    "script not found: "@ + script
}

/// `belt cron add`: whether a job may be registered, and what is said then.
///
/// The schedule is checked before the script.
pub fn cmd_cron_add(name: &str, schedule: &str, script: &str, script_exists: bool) -> (r: Result<
    String,
    String,
>)
    ensures
        r is Ok <==> cron_fault(schedule@) is None && script_exists,
        r matches Ok(t) ==> t@ == "Cron job '"@ + name@ + "' added.\n"@,
        r matches Err(e) ==> e@ == (match cron_fault(schedule@) {
            Some(f) => f,
            None => script_fault(script@),
        }),
{
    match validate_cron_expression(schedule) {
        Err(e) => Err(e),
        Ok(_) => {
            if script_exists {
                Ok(cat3("Cron job '", name, "' added.\n"))
            } else {
                Err(cat2("script not found: ", script))
            }
        },
    }
}

/// What `belt cron update` changes. A change that comes before a fault is
/// still made.
#[derive(Debug)]
pub struct CronUpdate {
    /// The job gets the new schedule.
    pub set_schedule: bool,
    /// The job gets the new script.
    pub set_script: bool,
    /// What is said at the end, or what is wrong.
    pub outcome: Result<String, String>,
}

/// Why an update is refused before the job is looked up.
pub fn cron_update_fault(schedule: &Option<String>, script: &Option<String>) -> (r: Option<String>)
    ensures
        r is Some <==> schedule is None && script is None,
        r matches Some(e) ==> e@ == "at least one of --schedule or --script must be provided"@,
{
    if schedule.is_none() && script.is_none() {
        Some("at least one of --schedule or --script must be provided".to_string())
    } else {
        None
    }
}

/// The schedule that an update brings is valid.
pub open spec fn schedule_ok(schedule: Option<String>) -> bool {
    schedule matches Some(s) ==> cron_fault(s@) is None
}

/// `belt cron update`: what changes on an existing job, and what is said.
pub fn cmd_cron_update(
    name: &str,
    schedule: &Option<String>,
    script: &Option<String>,
    script_exists: bool,
) -> (r: CronUpdate)
    ensures
        r.set_schedule <==> schedule is Some && schedule_ok(*schedule),
        r.set_script <==> schedule_ok(*schedule) && script is Some && script_exists,
        r.outcome is Ok <==> schedule_ok(*schedule) && (script is Some ==> script_exists),
        r.outcome matches Ok(t) ==> t@ == "Cron job '"@ + name@ + "' updated.\n"@,
        r.outcome matches Err(e) ==> e@ == (if !schedule_ok(*schedule) {
            cron_fault(schedule->0@)->0
        } else {
            script_fault(script->0@)
        }),
{
    let mut set_schedule = false;
    match schedule {
        Some(s) => match validate_cron_expression(s.as_str()) {
            Err(e) => {
                return CronUpdate { set_schedule: false, set_script: false, outcome: Err(e) };
            },
            Ok(_) => {
                set_schedule = true;
            },
        },
        None => {},
    }
    match script {
        Some(s) => {
            if !script_exists {
                return CronUpdate {
                    set_schedule,
                    set_script: false,
                    outcome: Err(cat2("script not found: ", s.as_str())),
                };
            }
            CronUpdate {
                set_schedule,
                set_script: true,
                outcome: Ok(cat3("Cron job '", name, "' updated.\n")),
            }
        },
        None => CronUpdate {
            set_schedule,
            set_script: false,
            outcome: Ok(cat3("Cron job '", name, "' updated.\n")),
        },
    }
}

/// `belt cron pause`: the enabled flag that the job gets, and what is said.
pub fn cmd_cron_pause(name: &str) -> (r: (bool, String))
    ensures
        !r.0,
        r.1@ == "Cron job '"@ + name@ + "' paused.\n"@,
{
    (false, cat3("Cron job '", name, "' paused.\n"))
}

/// `belt cron resume`: the enabled flag that the job gets, and what is said.
pub fn cmd_cron_resume(name: &str) -> (r: (bool, String))
    ensures
        r.0,
        r.1@ == "Cron job '"@ + name@ + "' resumed.\n"@,
{
    (true, cat3("Cron job '", name, "' resumed.\n"))
}

/// `belt cron remove`: what is said when the job is gone.
pub fn cmd_cron_remove(name: &str) -> (r: String)
    ensures
        r@ == "Cron job '"@ + name@ + "' removed.\n"@,
{
    cat3("Cron job '", name, "' removed.\n")
}

// ---------------------------------------------------------------------------
// Running
// ---------------------------------------------------------------------------

/// `belt cron run`: what is said before the script starts, or that there is no
/// such script.
pub fn cron_run_start(name: &str, script: &str, script_exists: bool) -> (r: Result<String, String>)
    ensures
        r is Ok <==> script_exists,
        r matches Ok(t) ==> t@ == "Running cron job '"@ + name@ + "' (script: "@ + script@
            + ")...\n"@,
        r matches Err(e) ==> e@ == script_fault(script@),
{
    if script_exists {
        Ok(cat5("Running cron job '", name, "' (script: ", script, ")...\n"))
    } else {
        Err(cat2("script not found: ", script))
    }
}

/// `belt cron run`: what is said when the script ended. The run is recorded
/// exactly where it succeeded.
pub fn cmd_cron_run(name: &str, out: &CommandOutput) -> (r: Result<String, String>)
    ensures
        r is Ok <==> out.success,
        r matches Ok(t) ==> t@ == "Cron job '"@ + name@ + "' completed successfully.\n"@,
        r matches Err(e) ==> e@ == "cron job '"@ + name@ + "' failed with exit code "@ + dec_int(
            out.exit_code as int,
        ),
{
    if out.success {
        Ok(cat3("Cron job '", name, "' completed successfully.\n"))
    } else {
        let mut e = cat3("cron job '", name, "' failed with exit code ");
        let code = dec_i64(out.exit_code as i64);
        e.append(code.as_str());
        Err(e)
    }
}

/// `belt cron trigger`: what is said when the last run was reset, first on its
/// own, then on whether the daemon could be told.
pub fn cmd_cron_trigger(name: &str, signal: &Result<(), String>) -> (r: String)
    ensures
        r@ == "Trigger persisted for cron job '"@ + name@ + "' (last_run_at reset).\n"@ + (
        match signal {
            Ok(_) => "Daemon notified (SIGUSR1). The job will execute shortly.\n"@,
            Err(e) => "Could not signal daemon: "@ + e@
                + "\nThe job will execute on the next daemon tick.\n"@,
        }),
{
    let mut out = cat3("Trigger persisted for cron job '", name, "' (last_run_at reset).\n");
    match signal {
        Ok(_) => {
            out.append("Daemon notified (SIGUSR1). The job will execute shortly.\n");
        },
        Err(e) => {
            let rest = cat3(
                "Could not signal daemon: ",
                e.as_str(),
                "\nThe job will execute on the next daemon tick.\n",
            );
            out.append(rest.as_str());
        },
    }
    out
}

/// What is said after a change, once the daemon was told; nothing where it
/// could not be told.
pub fn notify_daemon_cron_sync(signal: &Result<(), String>) -> (r: String)
    ensures
        r@ == (if signal is Ok {
            "Daemon notified to sync cron jobs.\n"@
        } else {
            ""@
        }),
{
    match signal {
        Ok(_) => "Daemon notified to sync cron jobs.\n".to_string(),
        Err(_) => "".to_string(),
    }
}

// ---------------------------------------------------------------------------
// Laws
// ---------------------------------------------------------------------------

/// What is known of the fault in the fields from the `i`-th on.
proof fn lemma_field_fault(fields: Seq<Seq<char>>, i: int)
    requires
        0 <= i <= fields.len(),
    ensures
        field_fault(fields, i) is None <==> forall|k: int|
            i <= k < fields.len() ==> is_cron_field(#[trigger] fields[k]),
    decreases fields.len() - i,
{
    if i < fields.len() {
        lemma_field_fault(fields, i + 1);
    }
}

/// A schedule is good if and only if it is five words made of digits, stars,
/// slashes, hyphens and commas.
pub proof fn law_schedules_are_five_plain_words(expr: Seq<char>)
    ensures
        cron_fault(expr) is None <==> words(expr).len() == 5 && forall|i: int, j: int|
            0 <= i < 5 && 0 <= j < words(expr)[i].len() ==> {
                let c = #[trigger] words(expr)[i][j];
                '0' <= c <= '9' || c == '*' || c == '/' || c == '-' || c == ','
            },
{
    let fields = words(expr);
    lemma_field_fault(fields, 0);
    if fields.len() == 5 && cron_fault(expr) is None {
        assert forall|i: int, j: int| 0 <= i < 5 && 0 <= j < fields[i].len() implies {
            let c = #[trigger] fields[i][j];
            '0' <= c <= '9' || c == '*' || c == '/' || c == '-' || c == ','
        } by {
            assert(is_cron_field(fields[i]));
            assert(is_cron_char(fields[i][j]));
        }
    }
    if fields.len() == 5 && cron_fault(expr) is Some {
        let k = choose|k: int| 0 <= k < fields.len() && !is_cron_field(#[trigger] fields[k]);
        let j = choose|j: int| 0 <= j < fields[k].len() && !is_cron_char(#[trigger] fields[k][j]);
        assert(!is_cron_char(words(expr)[k][j]));
    }
}

/// The fault of a schedule names the first field that is wrong, or how many there
/// are.
pub proof fn law_schedule_faults_name_the_field(expr: Seq<char>, i: int)
    requires
        0 <= i < 5,
    ensures
        words(expr).len() != 5 ==> cron_fault(expr) is Some && holds(
            cron_fault(expr).unwrap(),
            dec(words(expr).len()),
        ),
        words(expr).len() == 5 && !is_cron_field(words(expr)[i]) && (forall|k: int|
            0 <= k < i ==> is_cron_field(#[trigger] words(expr)[k])) ==> cron_fault(expr) is Some
            && holds(cron_fault(expr).unwrap(), " field '"@ + words(expr)[i]) && holds(
            cron_fault(expr).unwrap(),
            field_name(i) + " field '"@,
        ),
{
    broadcast use group_holds;

    let fields = words(expr);
    if fields.len() == 5 && !is_cron_field(fields[i]) && forall|k: int|
        0 <= k < i ==> is_cron_field(#[trigger] fields[k]) {
        lemma_first_fault(fields, 0, i);
    }
}

proof fn lemma_first_fault(fields: Seq<Seq<char>>, at: int, i: int)
    requires
        0 <= at <= i < fields.len(),
        !is_cron_field(fields[i]),
        forall|k: int| at <= k < i ==> is_cron_field(#[trigger] fields[k]),
    ensures
        field_fault(fields, at) == Some(
            "invalid cron expression: "@ + field_name(i) + " field '"@ + fields[i]
                + "' contains invalid characters"@,
        ),
    decreases i - at,
{
    if at < i {
        assert(is_cron_field(fields[at]));
        lemma_first_fault(fields, at + 1, i);
    }
}

/// The five fields have names of their own.
pub proof fn law_fields_have_names_of_their_own(i: int, j: int)
    requires
        0 <= i < 5,
        0 <= j < 5,
        i != j,
    ensures
        field_name(i) != field_name(j),
{
    reveal_strlit("minute");
    reveal_strlit("hour");
    reveal_strlit("day");
    reveal_strlit("month");
    reveal_strlit("weekday");
    if field_name(i) == field_name(j) {
        assert(field_name(i).len() == field_name(j).len());
    }
}

/// The row of a job shows its columns at fixed places: its name, its schedule,
/// whether it is enabled, its workspace and its last run.
pub proof fn law_job_columns_stand_in_their_places(job: CronJob)
    requires
        text_or(job.workspace, "-"@).len() <= 12,
    ensures
        job.name@.len() <= 20 ==> found_at(job_line(job), 0, job.name@),
        job.schedule@.len() <= 16 ==> found_at(job_line(job), 21, job.schedule@),
        job.enabled ==> found_at(job_line(job), 38, "yes"@),
        !job.enabled ==> found_at(job_line(job), 38, "no"@),
        job.workspace matches Some(w) ==> found_at(job_line(job), 49, w@),
        job.last_run_at matches Some(t) ==> found_at(job_line(job), 62, t@),
{
    reveal_strlit(" ");
    reveal_strlit("yes");
    reveal_strlit("no");
    let a = truncated(job.name@, 20);
    let b = truncated(job.schedule@, 16);
    let c = if job.enabled {
        "yes"@
    } else {
        "no"@
    };
    let d = text_or(job.workspace, "-"@);
    let e = text_or(job.last_run_at, "never"@);
    law_truncating_keeps_the_beginning(job.name@, 20);
    law_truncating_keeps_the_beginning(job.schedule@, 16);
    let line = job_line(job);
    assert(line.subrange(0, a.len() as int) =~= a);
    assert(line.subrange(21, 21 + b.len() as int) =~= b);
    assert(line.subrange(38, 38 + c.len() as int) =~= c);
    assert(line.subrange(49, 49 + d.len() as int) =~= d);
    assert(line.subrange(62, 62 + e.len() as int) =~= e);
}

proof fn lemma_job_lines_hold(jobs: Seq<CronJob>, n: nat, i: int)
    requires
        0 <= i < n <= jobs.len(),
    ensures
        holds(job_lines(jobs, n), job_line(jobs[i])),
    decreases n,
{
    broadcast use group_holds;

    if i < n - 1 {
        lemma_job_lines_hold(jobs, (n - 1) as nat, i);
    }
}

/// The table shows every job, and how many there are.
pub proof fn law_every_job_is_listed(jobs: Seq<CronJob>, i: int)
    requires
        0 <= i < jobs.len(),
    ensures
        holds(job_table(jobs), job_line(jobs[i])),
        holds(job_table(jobs), "\n"@ + dec(jobs.len()) + " job(s)\n"@),
{
    broadcast use group_holds;

    lemma_job_lines_hold(jobs, jobs.len(), i);
}

/// A script that is missing is named.
pub proof fn law_missing_scripts_are_named(script: Seq<char>, s: String)
    ensures
        holds(script_fault(script), script),
        schedule_ok(None),
        schedule_ok(Some(s)) <==> cron_fault(s@) is None,
{
    broadcast use group_holds;

}

} // verus!
