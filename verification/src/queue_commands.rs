//! The `belt queue` commands: listings, changes of phase, and running the
//! scripts of a failed item again.

use vstd::prelude::*;

use crate::agent::Action;
use crate::hitl::item_lines;
use crate::hitl::write_item_lines;
use crate::pieces::found_at;
use crate::pieces::group_holds;
use crate::pieces::holds;
use crate::queue::QueueItem;
use crate::queue::QueuePhase;
use crate::scan::truncate;
use crate::scan::truncated;
use crate::text::cat3;
use crate::text::cat5;
use crate::text::dec;
use crate::text::dec_i64;
use crate::text::dec_int;
use crate::text::dec_u64;
use crate::text::dec_usize;
use crate::text::pad_right;
use crate::text::padded_right;
use crate::text::text_eq;

verus! {

// ---------------------------------------------------------------------------
// Listing
// ---------------------------------------------------------------------------

/// A row of the queue table.
pub open spec fn queue_row(
    work_id: Seq<char>,
    phase: Seq<char>,
    state: Seq<char>,
    updated: Seq<char>,
) -> Seq<char> {
    pad_right(work_id, 40) + " "@ + pad_right(phase, 12) + " "@ + pad_right(state, 10) + " "@
        + pad_right(updated, 20) + "\n"@
}

/// The rows of the first `n` items.
pub open spec fn queue_rows(items: Seq<QueueItem>, n: nat) -> Seq<char>
    decreases n,
{
    if n == 0 {
        seq![]
    } else {
        let item = items[n - 1];
        queue_rows(items, (n - 1) as nat) + queue_row(
            truncated(item.work_id@, 40),
            item.phase.name(),
            item.state@,
            item.updated_at@,
        )
    }
}

/// The table of queue items.
pub open spec fn queue_table(items: Seq<QueueItem>) -> Seq<char> {
    if items.len() == 0 {
        "No queue items found.\n"@
    } else {
        queue_row("WORK_ID"@, "PHASE"@, "STATE"@, "UPDATED"@) + queue_rows(items, items.len())
            + "\n"@ + dec(items.len()) + " item(s)\n"@
    }
}

fn write_queue_row(work_id: &str, phase: &str, state: &str, updated: &str) -> (r: String)
    ensures
        r@ == queue_row(work_id@, phase@, state@, updated@),
{
    let mut out = padded_right(work_id, 40);
    out.append(" ");
    let phase_cell = padded_right(phase, 12);
    out.append(phase_cell.as_str());
    out.append(" ");
    let state_cell = padded_right(state, 10);
    out.append(state_cell.as_str());
    out.append(" ");
    let updated_cell = padded_right(updated, 20);
    out.append(updated_cell.as_str());
    out.append("\n");
    out
}

/// `belt queue list`: the items as a table; `None` where they are to be
/// serialized as they are.
pub fn cmd_queue_list(items: &Vec<QueueItem>, format: &str) -> (r: Option<String>)
    ensures
        r is None <==> format@ == "json"@,
        r matches Some(t) ==> t@ == queue_table(items@),
{
    if text_eq(format, "json") {
        return None;
    }
    if items.len() == 0 {
        return Some("No queue items found.\n".to_string());
    }
    let mut rows = String::new();
    let mut i: usize = 0;
    while i < items.len()
        invariant
            i <= items.len(),
            rows@ == queue_rows(items@, i as nat),
        decreases items.len() - i,
    {
        let item = &items[i];
        let work_id = truncate(item.work_id.as_str(), 40);
        let row = write_queue_row(
            work_id.as_str(),
            item.phase.as_str(),
            item.state.as_str(),
            item.updated_at.as_str(),
        );
        rows.append(row.as_str());
        i = i + 1;
    }
    let mut out = write_queue_row("WORK_ID", "PHASE", "STATE", "UPDATED");
    out.append(rows.as_str());
    out.append("\n");
    let count = dec_usize(items.len());
    out.append(count.as_str());
    out.append(" item(s)\n");
    Some(out)
}

/// `belt queue show`: the fields of an item; `None` where it is to be
/// serialized as it is.
pub fn cmd_queue_show(item: &QueueItem, format: &str) -> (r: Option<String>)
    ensures
        r is None <==> format@ == "json"@,
        r matches Some(t) ==> t@ == item_lines(*item),
{
    if text_eq(format, "json") {
        None
    } else {
        Some(write_item_lines(item))
    }
}

// ---------------------------------------------------------------------------
// Changes of phase
// ---------------------------------------------------------------------------

/// The phase that a command sends an item to, and what it says.
#[derive(Debug)]
pub struct PhaseChange {
    pub phase: QueuePhase,
    pub message: String,
}

/// `belt queue done`: marks an item as done.
pub fn cmd_queue_done(work_id: &str) -> (r: PhaseChange)
    ensures
        r.phase == QueuePhase::Done,
        r.message@ == "Marked "@ + work_id@ + " as done.\n"@,
{
    PhaseChange { phase: QueuePhase::Done, message: cat3("Marked ", work_id, " as done.\n") }
}

/// `belt queue hitl`: marks an item as waiting for a human.
pub fn cmd_queue_hitl(work_id: &str, reason: &Option<String>) -> (r: PhaseChange)
    ensures
        r.phase == QueuePhase::Hitl,
        r.message@ == (match reason {
            Some(why) => "Marked "@ + work_id@ + " as HITL (reason: "@ + why@ + ").\n"@,
            None => "Marked "@ + work_id@ + " as HITL.\n"@,
        }),
{
    let message = match reason {
        Some(why) => cat5("Marked ", work_id, " as HITL (reason: ", why.as_str(), ").\n"),
        None => cat3("Marked ", work_id, " as HITL.\n"),
    };
    PhaseChange { phase: QueuePhase::Hitl, message }
}

/// `belt queue skip`: marks an item as skipped.
pub fn cmd_queue_skip(work_id: &str) -> (r: PhaseChange)
    ensures
        r.phase == QueuePhase::Skipped,
        r.message@ == "Skipped "@ + work_id@ + ".\n"@,
{
    PhaseChange { phase: QueuePhase::Skipped, message: cat3("Skipped ", work_id, ".\n") }
}

/// `belt queue dependency add`: what is said when a dependency was added.
pub fn cmd_queue_dependency_add(queue_id: &str, after: &str) -> (r: String)
    ensures
        r@ == "Added dependency: "@ + queue_id@ + " depends on "@ + after@ + ".\n"@,
{
    cat5("Added dependency: ", queue_id, " depends on ", after, ".\n")
}

/// `belt queue dependency remove`: what is said when a dependency was removed.
pub fn cmd_queue_dependency_remove(queue_id: &str, after: &str) -> (r: String)
    ensures
        r@ == "Removed dependency: "@ + queue_id@ + " no longer depends on "@ + after@ + ".\n"@,
{
    cat5("Removed dependency: ", queue_id, " no longer depends on ", after, ".\n")
}

// ---------------------------------------------------------------------------
// Running scripts again
// ---------------------------------------------------------------------------

/// What `belt queue retry-script` does first.
#[derive(Debug)]
pub enum RetryStep {
    /// There is nothing to run: the item is done.
    MarkDone { message: String },
    /// The scripts are run.
    RunScripts { message: String },
}

/// A state of a source, and the actions that run when an item in it is done.
#[derive(Debug, Clone)]
pub struct DoneActions {
    pub state: String,
    pub actions: Vec<Action>,
}

/// The states that a source configures.
#[derive(Debug, Clone)]
pub struct SourceDone {
    pub states: Vec<DoneActions>,
}

/// The actions of the first state of that name.
pub open spec fn actions_of(states: Seq<DoneActions>, state: Seq<char>) -> Option<Vec<Action>>
    decreases states.len(),
{
    if states.len() == 0 {
        None
    } else if states[0].state@ == state {
        Some(states[0].actions)
    } else {
        actions_of(states.skip(1), state)
    }
}

/// The actions for a state, from the first source that configures it.
pub open spec fn done_actions(sources: Seq<SourceDone>, state: Seq<char>) -> Option<Vec<Action>>
    decreases sources.len(),
{
    if sources.len() == 0 {
        None
    } else if actions_of(sources[0].states@, state) is Some {
        actions_of(sources[0].states@, state)
    } else {
        done_actions(sources.skip(1), state)
    }
}

fn find_actions<'a>(states: &'a Vec<DoneActions>, state: &str) -> (r: Option<&'a Vec<Action>>)
    ensures
        match r {
            Some(v) => actions_of(states@, state@) == Some(*v),
            None => actions_of(states@, state@) is None,
        },
{
    let mut i: usize = 0;
    proof {
        assert(states@.skip(0) =~= states@);
    }
    while i < states.len()
        invariant
            i <= states.len(),
            actions_of(states@, state@) == actions_of(states@.skip(i as int), state@),
        decreases states.len() - i,
    {
        proof {
            assert(states@.skip(i as int).skip(1) =~= states@.skip(i + 1));
        }
        if text_eq(states[i].state.as_str(), state) {
            return Some(&states[i].actions);
        }
        i = i + 1;
    }
    None
}

/// The actions that run when an item in the state is done: those of the first
/// source that configures the state, `None` where no source does.
pub fn on_done_actions<'a>(sources: &'a Vec<SourceDone>, state: &str) -> (r: Option<&'a Vec<Action>>)
    ensures
        match r {
            Some(v) => done_actions(sources@, state@) == Some(*v),
            None => done_actions(sources@, state@) is None,
        },
{
    let mut i: usize = 0;
    proof {
        assert(sources@.skip(0) =~= sources@);
    }
    while i < sources.len()
        invariant
            i <= sources.len(),
            done_actions(sources@, state@) == done_actions(sources@.skip(i as int), state@),
        decreases sources.len() - i,
    {
        proof {
            assert(sources@.skip(i as int).skip(1) =~= sources@.skip(i + 1));
        }
        match find_actions(&sources[i].states, state) {
            Some(v) => {
                return Some(v);
            },
            None => {},
        }
        i = i + 1;
    }
    None
}

/// Why an item's scripts cannot be run again.
pub open spec fn retry_fault(work_id: Seq<char>, item: QueueItem, scripts: Option<usize>) -> Option<
    Seq<char>,
> {
    if item.phase != QueuePhase::Failed {
        Some(
            "item '"@ + work_id + "' is in phase '"@ + item.phase.name() + "', not 'failed'"@,
        )
    } else if scripts is None {
        Some(
            "no state config found for state '"@ + item.state@ + "' in workspace '"@
                + item.workspace_id@ + "'"@,
        )
    } else {
        None
    }
}

/// Why the scripts of an item cannot be run again, before its workspace is
/// looked up: only failed items are retried.
pub fn check_retry(work_id: &str, item: &QueueItem) -> (r: Result<(), String>)
    ensures
        r is Ok <==> item.phase == QueuePhase::Failed,
        r matches Err(e) ==> retry_fault(work_id@, *item, None) == Some(e@),
{
    if item.phase != QueuePhase::Failed {
        Err(cat5("item '", work_id, "' is in phase '", item.phase.as_str(), "', not 'failed'"))
    } else {
        Ok(())
    }
}

/// The start of `belt queue retry-script`: `scripts` is the number of scripts
/// that the workspace configures for the state of the item, if it configures
/// the state at all.
pub fn start_retry(work_id: &str, item: &QueueItem, scripts: Option<usize>) -> (r: Result<
    RetryStep,
    String,
>)
    ensures
        r is Ok <==> retry_fault(work_id@, *item, scripts) is None,
        r matches Err(e) ==> retry_fault(work_id@, *item, scripts) == Some(e@),
        r matches Ok(RetryStep::MarkDone { message }) ==> scripts == Some(0usize) && message@
            == "No on_done scripts configured for state '"@ + item.state@
            + "'. Transitioning to done.\nItem '"@ + work_id@
            + "' transitioned from failed to done.\n"@,
        r matches Ok(RetryStep::RunScripts { message }) ==> scripts != Some(0usize) && message@
            == "Re-running on_done scripts for '"@ + work_id@ + "'...\n"@,
{
    match check_retry(work_id, item) {
        Err(e) => {
            return Err(e);
        },
        Ok(_) => {},
    }
    match scripts {
        None => Err(
            cat5(
                "no state config found for state '",
                item.state.as_str(),
                "' in workspace '",
                item.workspace_id.as_str(),
                "'",
            ),
        ),
        Some(n) => {
            if n == 0 {
                Ok(
                    RetryStep::MarkDone {
                        message: cat5(
                            "No on_done scripts configured for state '",
                            item.state.as_str(),
                            "'. Transitioning to done.\nItem '",
                            work_id,
                            "' transitioned from failed to done.\n",
                        ),
                    },
                )
            } else {
                Ok(
                    RetryStep::RunScripts {
                        message: cat3("Re-running on_done scripts for '", work_id, "'...\n"),
                    },
                )
            }
        },
    }
}

/// How the scripts of an item ended.
#[derive(Debug)]
pub enum ScriptsEnd {
    /// They took longer than the given number of seconds.
    TimedOut { secs: u64 },
    /// The last script that ran gave this result.
    Ended { success: bool, exit_code: i32 },
    /// No script gave a result.
    NoResult,
}

/// What follows from the end of the scripts.
#[derive(Debug)]
pub struct RetryResult {
    /// The item is done now; otherwise it stays failed.
    pub done: bool,
    pub message: String,
}

/// The scripts ended in a way that makes the item done.
pub open spec fn ends_done(end: ScriptsEnd) -> bool {
    match end {
        ScriptsEnd::TimedOut { secs } => false,
        ScriptsEnd::Ended { success, exit_code } => success,
        ScriptsEnd::NoResult => true,
    }
}

/// The end of `belt queue retry-script`: a failed item is done exactly where
/// its scripts did not fail and did not run out of time.
pub fn cmd_queue_retry_script(work_id: &str, end: &ScriptsEnd) -> (r: RetryResult)
    ensures
        r.done == ends_done(*end),
        r.message@ == (match *end {
            ScriptsEnd::TimedOut { secs } => "Script execution timed out after "@ + dec(
                secs as nat,
            ) + "s. Item remains failed.\n"@,
            ScriptsEnd::Ended { success, exit_code } => if success {
                "on_done scripts succeeded. Item '"@ + work_id@
                    + "' transitioned from failed to done.\n"@
            } else {
                "on_done scripts failed (exit code "@ + dec_int(exit_code as int) + "). Item '"@
                    + work_id@ + "' remains in failed phase.\n"@
            },
            ScriptsEnd::NoResult => "Item '"@ + work_id@
                + "' transitioned from failed to done.\n"@,
        }),
{
    match end {
        ScriptsEnd::TimedOut { secs } => {
            let shown = dec_u64(*secs);
            RetryResult {
                done: false,
                message: cat3(
                    "Script execution timed out after ",
                    shown.as_str(),
                    "s. Item remains failed.\n",
                ),
            }
        },
        ScriptsEnd::Ended { success, exit_code } => {
            if *success {
                RetryResult {
                    done: true,
                    message: cat3(
                        "on_done scripts succeeded. Item '",
                        work_id,
                        "' transitioned from failed to done.\n",
                    ),
                }
            } else {
                let code = dec_i64(*exit_code as i64);
                RetryResult {
                    done: false,
                    message: cat5(
                        "on_done scripts failed (exit code ",
                        code.as_str(),
                        "). Item '",
                        work_id,
                        "' remains in failed phase.\n",
                    ),
                }
            }
        },
        ScriptsEnd::NoResult => RetryResult {
            done: true,
            message: cat3("Item '", work_id, "' transitioned from failed to done.\n"),
        },
    }
}

// ---------------------------------------------------------------------------
// Laws
// ---------------------------------------------------------------------------

/// The row of an item shows its columns at fixed places.
pub proof fn law_queue_rows_have_their_columns(
    work_id: Seq<char>,
    phase: Seq<char>,
    state: Seq<char>,
    updated: Seq<char>,
)
    requires
        work_id.len() <= 40,
        phase.len() <= 12,
        state.len() <= 10,
    ensures
        found_at(queue_row(work_id, phase, state, updated), 0, work_id),
        found_at(queue_row(work_id, phase, state, updated), 41, phase),
        found_at(queue_row(work_id, phase, state, updated), 54, state),
        found_at(queue_row(work_id, phase, state, updated), 65, updated),
{
    reveal_strlit(" ");
    let row = queue_row(work_id, phase, state, updated);
    assert(row.subrange(0, work_id.len() as int) =~= work_id);
    assert(row.subrange(41, 41 + phase.len() as int) =~= phase);
    assert(row.subrange(54, 54 + state.len() as int) =~= state);
    assert(row.subrange(65, 65 + updated.len() as int) =~= updated);
}

proof fn lemma_queue_rows_hold(items: Seq<QueueItem>, n: nat, i: int)
    requires
        0 <= i < n <= items.len(),
        items[i].work_id@.len() <= 40,
    ensures
        holds(
            queue_rows(items, n),
            queue_row(
                items[i].work_id@,
                items[i].phase.name(),
                items[i].state@,
                items[i].updated_at@,
            ),
        ),
    decreases n,
{
    broadcast use group_holds;

    if i < n - 1 {
        lemma_queue_rows_hold(items, (n - 1) as nat, i);
    }
}

/// Every item of the queue has its row, and they are counted.
pub proof fn law_every_item_is_listed(items: Seq<QueueItem>, i: int)
    requires
        0 <= i < items.len(),
        items[i].work_id@.len() <= 40,
    ensures
        holds(
            queue_table(items),
            queue_row(
                items[i].work_id@,
                items[i].phase.name(),
                items[i].state@,
                items[i].updated_at@,
            ),
        ),
        holds(queue_table(items), "\n"@ + dec(items.len()) + " item(s)\n"@),
{
    broadcast use group_holds;

    lemma_queue_rows_hold(items, items.len(), i);
}

/// The actions of a state are those under its name, in the first source that
/// knows it.
pub proof fn law_actions_are_found_by_state(
    sources: Seq<SourceDone>,
    s: int,
    i: int,
    state: Seq<char>,
)
    requires
        0 <= s < sources.len(),
        0 <= i < sources[s].states.len(),
        sources[s].states@[i].state@ == state,
        forall|k: int| 0 <= k < i ==> (#[trigger] sources[s].states@[k]).state@ != state,
        forall|r: int, k: int|
            0 <= r < s && 0 <= k < sources[r].states.len() ==> (#[trigger] sources[r].states@[k]).state@
                != state,
    ensures
        done_actions(sources, state) == Some(sources[s].states@[i].actions),
    decreases s,
{
    if s == 0 {
        lemma_actions_of(sources[0].states@, i, state);
    } else {
        assert forall|k: int| 0 <= k < sources[0].states.len() implies (
        #[trigger] sources[0].states@[k]).state@ != state by {}
        lemma_no_actions_of(sources[0].states@, state);
        let rest = sources.skip(1);
        assert(rest[s - 1] == sources[s]);
        assert forall|r: int, k: int| 0 <= r < s - 1 && 0 <= k < rest[r].states.len() implies (
        #[trigger] rest[r].states@[k]).state@ != state by {
            assert(rest[r] == sources[r + 1]);
            assert(sources[r + 1].states@[k].state@ != state);
        }
        law_actions_are_found_by_state(rest, s - 1, i, state);
    }
}

proof fn lemma_actions_of(states: Seq<DoneActions>, i: int, state: Seq<char>)
    requires
        0 <= i < states.len(),
        states[i].state@ == state,
        forall|k: int| 0 <= k < i ==> (#[trigger] states[k]).state@ != state,
    ensures
        actions_of(states, state) == Some(states[i].actions),
    decreases i,
{
    if i > 0 {
        let rest = states.skip(1);
        assert(states[0].state@ != state);
        assert forall|k: int| 0 <= k < i - 1 implies (#[trigger] rest[k]).state@ != state by {
            assert(rest[k] == states[k + 1]);
        }
        lemma_actions_of(rest, i - 1, state);
    }
}

proof fn lemma_no_actions_of(states: Seq<DoneActions>, state: Seq<char>)
    requires
        forall|k: int| 0 <= k < states.len() ==> (#[trigger] states[k]).state@ != state,
    ensures
        actions_of(states, state) is None,
    decreases states.len(),
{
    if states.len() > 0 {
        let rest = states.skip(1);
        assert(states[0].state@ != state);
        assert forall|k: int| 0 <= k < rest.len() implies (#[trigger] rest[k]).state@ != state by {
            assert(rest[k] == states[k + 1]);
        }
        lemma_no_actions_of(rest, state);
    }
}

/// Only a failed item is tried again, and only where its state has a
/// configuration; the fault says what it is about.
pub proof fn law_only_failed_items_are_retried(work_id: Seq<char>, item: QueueItem, n: usize)
    ensures
        retry_fault(work_id, item, Some(n)) is None <==> item.phase is Failed,
        retry_fault(work_id, item, None) is Some,
        !(item.phase is Failed) ==> holds(retry_fault(work_id, item, Some(n)).unwrap(), work_id)
            && holds(retry_fault(work_id, item, Some(n)).unwrap(), item.phase.name()),
        item.phase is Failed ==> holds(retry_fault(work_id, item, None).unwrap(), item.state@)
            && holds(retry_fault(work_id, item, None).unwrap(), item.workspace_id@),
{
    broadcast use group_holds;

}

/// An item whose scripts failed or did not end stays as it is; any other is done.
pub proof fn law_only_good_scripts_end_a_retry(secs: u64, success: bool, exit_code: i32)
    ensures
        !ends_done(ScriptsEnd::TimedOut { secs }),
        ends_done(ScriptsEnd::Ended { success, exit_code }) <==> success,
        ends_done(ScriptsEnd::NoResult),
{
}

} // verus!
