//! Items that wait for a human: what is recommended, shown, answered and when
//! the wait ends.

use vstd::prelude::*;

use crate::pieces::found_at;
use crate::pieces::group_holds;
use crate::pieces::holds;
use crate::queue::HitlReason;
use crate::queue::HitlRespondAction;
use crate::queue::QueueItem;
use crate::queue::QueuePhase;
use crate::scan::law_written_numbers_read_back;
use crate::scan::trim;
use crate::scan::trimmed;
use crate::scan::truncate;
use crate::scan::truncated;
use crate::text::cat3;
use crate::text::cat4;
use crate::text::cat5;
use crate::text::dec;
use crate::text::dec_u32;
use crate::text::dec_u64;
use crate::text::dec_usize;
use crate::text::opt_text;
use crate::text::pad_right;
use crate::text::padded_right;
use crate::text::repeat;
use crate::text::repeat_char;
use crate::text::text_eq;
use crate::text::text_or;
use crate::text::unwrap_text;

verus! {

/// How often an item may be planned anew.
pub const MAX_REPLAN: u32 = 3;

// ---------------------------------------------------------------------------
// Recommendation
// ---------------------------------------------------------------------------

/// The action that is suggested for a reason.
pub open spec fn advice(reason: Option<HitlReason>) -> Seq<char> {
    match reason {
        Some(HitlReason::EvaluateFailure) => "retry"@,
        Some(HitlReason::RetryMaxExceeded) => "skip"@,
        Some(HitlReason::Timeout) => "retry"@,
        Some(HitlReason::ManualEscalation) => "done"@,
        Some(HitlReason::SpecConflict) => "replan"@,
        Some(HitlReason::SpecCompletionReview) => "done"@,
        Some(HitlReason::SpecModificationProposed) => "done"@,
        None => "skip"@,
    }
}

/// Why that action is suggested.
pub open spec fn advice_reason(reason: Option<HitlReason>) -> Seq<char> {
    match reason {
        Some(HitlReason::EvaluateFailure)
            => "Evaluation failed; a retry may succeed after transient issues are resolved."@,
        Some(HitlReason::RetryMaxExceeded)
            => "Maximum retries exhausted; consider skipping or investigating the root cause."@,
        Some(HitlReason::Timeout)
            => "Execution timed out; retry with a longer timeout or investigate the workload."@,
        Some(HitlReason::ManualEscalation)
            => "Manually escalated; review the item and mark done if the issue is resolved."@,
        Some(HitlReason::SpecConflict)
            => "Spec conflict detected; replan to resolve overlapping specifications."@,
        Some(HitlReason::SpecCompletionReview)
            => "Spec completion review; approve to mark as done if the spec is satisfactory."@,
        Some(HitlReason::SpecModificationProposed)
            => "Spec modification proposed; review changes and approve or skip."@,
        None => "No HITL reason recorded; review manually and decide."@,
    }
}

/// A recommended action based on the reason, and why it is recommended.
pub fn recommended_action(reason: Option<&HitlReason>) -> (r: (&'static str, &'static str))
    ensures
        r.0@ == advice(
            match reason {
                Some(x) => Some(*x),
                None => None,
            },
        ),
        r.1@ == advice_reason(
            match reason {
                Some(x) => Some(*x),
                None => None,
            },
        ),
{
    match reason {
        None => ("skip", "No HITL reason recorded; review manually and decide."),
        Some(x) => match x {
            HitlReason::EvaluateFailure => (
                "retry",
                "Evaluation failed; a retry may succeed after transient issues are resolved.",
            ),
            HitlReason::RetryMaxExceeded => (
                "skip",
                "Maximum retries exhausted; consider skipping or investigating the root cause.",
            ),
            HitlReason::Timeout => (
                "retry",
                "Execution timed out; retry with a longer timeout or investigate the workload.",
            ),
            HitlReason::ManualEscalation => (
                "done",
                "Manually escalated; review the item and mark done if the issue is resolved.",
            ),
            HitlReason::SpecConflict => (
                "replan",
                "Spec conflict detected; replan to resolve overlapping specifications.",
            ),
            HitlReason::SpecCompletionReview => (
                "done",
                "Spec completion review; approve to mark as done if the spec is satisfactory.",
            ),
            HitlReason::SpecModificationProposed => (
                "done",
                "Spec modification proposed; review changes and approve or skip.",
            ),
        },
    }
}

/// What is recommended names an action that a human can answer with.
pub proof fn law_recommendation_is_an_action(reason: Option<HitlReason>)
    ensures
        exists|a: HitlRespondAction| #[trigger] a.name() == advice(reason),
{
    let a = match reason {
        Some(HitlReason::EvaluateFailure) => HitlRespondAction::Retry,
        Some(HitlReason::RetryMaxExceeded) => HitlRespondAction::Skip,
        Some(HitlReason::Timeout) => HitlRespondAction::Retry,
        Some(HitlReason::SpecConflict) => HitlRespondAction::Replan,
        None => HitlRespondAction::Skip,
        _ => HitlRespondAction::Done,
    };
    assert(a.name() == advice(reason));
}

// ---------------------------------------------------------------------------
// Showing an item
// ---------------------------------------------------------------------------

/// Why a command for waiting items refuses an item in another phase.
pub open spec fn phase_fault(item_id: Seq<char>, phase: QueuePhase, want: Seq<char>) -> Seq<char> {
    "item '"@ + item_id + "' is in phase '"@ + phase.name() + "', "@ + want
}

/// A labelled line, where there is a value.
pub open spec fn opt_line(label: Seq<char>, v: Option<String>) -> Seq<char> {
    match v {
        Some(s) => label + s@ + "\n"@,
        None => ""@,
    }
}

fn write_opt_line(label: &str, v: &Option<String>) -> (r: String)
    ensures
        r@ == opt_line(label@, *v),
{
    match v {
        Some(s) => cat3(label, s.as_str(), "\n"),
        None => "".to_string(),
    }
}

/// The fields of an item, one line each.
pub open spec fn item_lines(item: QueueItem) -> Seq<char> {
    "Work ID:      "@ + item.work_id@ + "\nSource ID:    "@ + item.source_id@
        + "\nWorkspace:    "@ + item.workspace_id@ + "\nState:        "@ + item.state@
        + "\nPhase:        "@ + item.phase.name() + "\n"@ + opt_line("Title:        "@, item.title)
        + "Created:      "@ + item.created_at@ + "\nUpdated:      "@ + item.updated_at@ + "\n"@
}

/// The fields of an item, one line each.
pub fn write_item_lines(item: &QueueItem) -> (r: String)
    ensures
        r@ == item_lines(*item),
{
    let mut out = "Work ID:      ".to_string();
    out.append(item.work_id.as_str());
    out.append("\nSource ID:    ");
    out.append(item.source_id.as_str());
    out.append("\nWorkspace:    ");
    out.append(item.workspace_id.as_str());
    out.append("\nState:        ");
    out.append(item.state.as_str());
    out.append("\nPhase:        ");
    out.append(item.phase.as_str());
    out.append("\n");
    let title = write_opt_line("Title:        ", &item.title);
    out.append(title.as_str());
    out.append("Created:      ");
    out.append(item.created_at.as_str());
    out.append("\nUpdated:      ");
    out.append(item.updated_at.as_str());
    out.append("\n");
    out
}

/// All that is known of a waiting item, and what is recommended.
pub open spec fn hitl_details(item: QueueItem) -> Seq<char> {
    item_lines(item) + opt_line("HITL Since:   "@, item.hitl_created_at) + opt_line(
        "HITL Reason:  "@,
        item.hitl_reason_name,
    ) + opt_line("Respondent:   "@, item.hitl_respondent) + opt_line(
        "Notes:        "@,
        item.hitl_notes,
    ) + opt_line("Timeout At:   "@, item.hitl_timeout_at) + opt_line(
        "Timeout Act:  "@,
        item.hitl_terminal_action,
    ) + "\nRecommended:  "@ + advice(item.hitl_reason) + "\n              "@ + advice_reason(
        item.hitl_reason,
    ) + "\n"@
}

/// What `belt hitl show` puts out.
#[derive(Debug)]
pub enum HitlShow {
    /// The item is to be serialized, with the recommendation added to it.
    Json { action: String, explanation: String },
    /// The details as text.
    Text(String),
}

fn advise(reason: &Option<HitlReason>) -> (r: (&'static str, &'static str))
    ensures
        r.0@ == advice(*reason),
        r.1@ == advice_reason(*reason),
{
    recommended_action(reason.as_ref())
}

/// `belt hitl show`: the details of a waiting item.
pub fn cmd_hitl_show(item_id: &str, item: &QueueItem, format: &str) -> (r: Result<HitlShow, String>)
    ensures
        r is Ok <==> item.phase == QueuePhase::Hitl,
        r matches Err(e) ==> e@ == phase_fault(item_id@, item.phase, "not 'hitl'"@),
        r matches Ok(HitlShow::Json { action, explanation }) ==> format@ == "json"@ && action@
            == advice(item.hitl_reason) && explanation@ == advice_reason(item.hitl_reason),
        r matches Ok(HitlShow::Text(t)) ==> format@ != "json"@ && t@ == hitl_details(*item),
{
    if item.phase != QueuePhase::Hitl {
        let mut e = cat5("item '", item_id, "' is in phase '", item.phase.as_str(), "', ");
        e.append("not 'hitl'");
        return Err(e);
    }
    let (action, explanation) = advise(&item.hitl_reason);
    if text_eq(format, "json") {
        return Ok(
            HitlShow::Json { action: action.to_string(), explanation: explanation.to_string() },
        );
    }
    let mut out = write_item_lines(item);
    let since = write_opt_line("HITL Since:   ", &item.hitl_created_at);
    out.append(since.as_str());
    let reason = write_opt_line("HITL Reason:  ", &item.hitl_reason_name);
    out.append(reason.as_str());
    let respondent = write_opt_line("Respondent:   ", &item.hitl_respondent);
    out.append(respondent.as_str());
    let notes = write_opt_line("Notes:        ", &item.hitl_notes);
    out.append(notes.as_str());
    let timeout = write_opt_line("Timeout At:   ", &item.hitl_timeout_at);
    out.append(timeout.as_str());
    let terminal = write_opt_line("Timeout Act:  ", &item.hitl_terminal_action);
    out.append(terminal.as_str());
    out.append("\nRecommended:  ");
    out.append(action);
    out.append("\n              ");
    out.append(explanation);
    out.append("\n");
    Ok(HitlShow::Text(out))
}

// ---------------------------------------------------------------------------
// Asking for an answer
// ---------------------------------------------------------------------------

/// The question for an action, with the recommended one as the default.
pub fn action_prompt(item: &QueueItem) -> (r: String)
    ensures
        r@ == "\nAvailable actions: done, retry, skip, replan\nEnter action ["@ + advice(
            item.hitl_reason,
        ) + "]: "@,
{
    let (action, _) = advise(&item.hitl_reason);
    cat3("\nAvailable actions: done, retry, skip, replan\nEnter action [", action, "]: ")
}

/// The action that the answer names; the recommended one where it is blank.
pub fn chosen_action(item: &QueueItem, input: &str) -> (r: String)
    ensures
        r@ == (if trim(input@).len() == 0 {
            advice(item.hitl_reason)
        } else {
            trim(input@)
        }),
{
    let typed = trimmed(input);
    if typed.as_str().is_empty() {
        let (action, _) = advise(&item.hitl_reason);
        action.to_string()
    } else {
        typed
    }
}

/// The notes that were typed; none where they are blank.
pub fn typed_notes(input: &str) -> (r: Option<String>)
    ensures
        opt_text(r) == (if trim(input@).len() == 0 {
            None
        } else {
            Some(trim(input@))
        }),
{
    let typed = trimmed(input);
    if typed.as_str().is_empty() {
        None
    } else {
        Some(typed)
    }
}

// ---------------------------------------------------------------------------
// Answering
// ---------------------------------------------------------------------------

/// An item that asks a human to review a changed plan.
#[derive(Debug)]
pub struct ReplanItem {
    pub work_id: String,
    pub source_id: String,
    pub workspace_id: String,
    pub state: String,
    pub phase: QueuePhase,
    pub hitl_created_at: String,
    pub hitl_reason: HitlReason,
    pub hitl_notes: String,
    pub title: String,
    pub replan_count: u32,
}

/// What an answer does to the queue.
#[derive(Debug)]
pub struct HitlOutcome {
    /// The phase that the item goes to.
    pub phase: QueuePhase,
    /// The item that is added to the queue.
    pub created: Option<ReplanItem>,
    /// What is said.
    pub message: String,
}

/// The phase that an answer sends a waiting item to.
pub open spec fn answered_phase(action: HitlRespondAction, replans: int) -> QueuePhase {
    match action {
        HitlRespondAction::Done => QueuePhase::Done,
        HitlRespondAction::Retry => QueuePhase::Pending,
        HitlRespondAction::Skip => QueuePhase::Skipped,
        HitlRespondAction::Replan => if replans + 1 > MAX_REPLAN {
            QueuePhase::Failed
        } else {
            QueuePhase::Pending
        },
    }
}

/// The id of the item that reviews the plan number `n`.
pub open spec fn replan_id(item_id: Seq<char>, n: nat) -> Seq<char> {
    item_id + ":replan-"@ + dec(n)
}

/// `new` asks for a review of the plan number `n` for `item`.
pub open spec fn reviews(
    new: ReplanItem,
    item_id: Seq<char>,
    item: QueueItem,
    notes: Option<String>,
    now: Seq<char>,
    n: nat,
) -> bool {
    &&& new.work_id@ == replan_id(item_id, n)
    &&& new.source_id@ == item.source_id@
    &&& new.workspace_id@ == item.workspace_id@
    &&& new.state@ == item.state@
    &&& new.phase == QueuePhase::Hitl
    &&& new.hitl_created_at@ == now
    &&& new.hitl_reason == HitlReason::SpecModificationProposed
    &&& new.hitl_notes@ == text_or(
        notes,
        "Claw replan delegation (attempt "@ + dec(n) + "): "@ + text_or(
            item.hitl_notes,
            "unknown failure"@,
        ),
    )
    &&& new.title@ == "spec-modification-proposed (replan #"@ + dec(n) + ")"@
    &&& new.replan_count == n
}

/// What is said after an answer.
pub open spec fn answer_message(
    item_id: Seq<char>,
    action: HitlRespondAction,
    notes: Option<String>,
    n: nat,
) -> Seq<char> {
    if action == HitlRespondAction::Replan {
        if n > MAX_REPLAN {
            "Item '"@ + item_id + "' replan limit exceeded ("@ + dec(n) + "/"@ + dec(
                MAX_REPLAN as nat,
            ) + "), transitioned to failed.\n"@
        } else {
            "Item '"@ + item_id + "' rolled back to pending (replan "@ + dec(n) + "/"@ + dec(
                MAX_REPLAN as nat,
            ) + "). Created HITL item '"@ + replan_id(item_id, n)
                + "' for spec modification review.\n"@
        }
    } else {
        opt_line("Notes recorded: "@, notes) + "Item '"@ + item_id + "' transitioned from hitl to "@
            + answered_phase(action, 0).name() + " (action: "@ + action.name() + ").\n"@
    }
}

/// Answers a waiting item: `belt hitl respond`, and the interactive form of
/// `belt hitl show`, where `notes` are the notes that were typed.
pub fn respond(
    item_id: &str,
    item: &QueueItem,
    action: HitlRespondAction,
    notes: &Option<String>,
    now: &str,
) -> (r: Result<HitlOutcome, String>)
    requires
        item.phase == QueuePhase::Hitl && action == HitlRespondAction::Replan ==> item.replan_count
            < u32::MAX,
    ensures
        r is Ok <==> item.phase == QueuePhase::Hitl,
        r matches Err(e) ==> e@ == phase_fault(item_id@, item.phase, "not 'hitl'"@),
        r matches Ok(out) ==> {
            &&& out.phase == answered_phase(action, item.replan_count as int)
            &&& (out.created is Some <==> action == HitlRespondAction::Replan && item.replan_count
                < MAX_REPLAN)
            &&& out.created matches Some(new) ==> reviews(
                new,
                item_id@,
                *item,
                *notes,
                now@,
                (item.replan_count + 1) as nat,
            )
            &&& out.message@ == answer_message(
                item_id@,
                action,
                *notes,
                (item.replan_count + 1) as nat,
            )
        },
{
    if item.phase != QueuePhase::Hitl {
        let mut e = cat5("item '", item_id, "' is in phase '", item.phase.as_str(), "', ");
        e.append("not 'hitl'");
        return Err(e);
    }
    if action != HitlRespondAction::Replan {
        let phase = match action {
            HitlRespondAction::Done => QueuePhase::Done,
            HitlRespondAction::Retry => QueuePhase::Pending,
            _ => QueuePhase::Skipped,
        };
        let mut message = write_opt_line("Notes recorded: ", notes);
        message.append("Item '");
        message.append(item_id);
        message.append("' transitioned from hitl to ");
        message.append(phase.as_str());
        message.append(" (action: ");
        message.append(action.as_str());
        message.append(").\n");
        return Ok(HitlOutcome { phase, created: None, message });
    }
    let n: u32 = item.replan_count + 1;
    let count = dec_u32(n);
    let limit = dec_u32(MAX_REPLAN);
    if n > MAX_REPLAN {
        let mut message = cat5(
            "Item '",
            item_id,
            "' replan limit exceeded (",
            count.as_str(),
            "/",
        );
        message.append(limit.as_str());
        message.append("), transitioned to failed.\n");
        return Ok(HitlOutcome { phase: QueuePhase::Failed, created: None, message });
    }
    let work_id = cat3(item_id, ":replan-", count.as_str());
    let failure = unwrap_text(&item.hitl_notes, "unknown failure");
    let delegation = cat4(
        "Claw replan delegation (attempt ",
        count.as_str(),
        "): ",
        failure.as_str(),
    );
    let mut message = cat5(
        "Item '",
        item_id,
        "' rolled back to pending (replan ",
        count.as_str(),
        "/",
    );
    message.append(limit.as_str());
    message.append("). Created HITL item '");
    message.append(work_id.as_str());
    message.append("' for spec modification review.\n");
    let created = ReplanItem {
        work_id,
        source_id: item.source_id.clone(),
        workspace_id: item.workspace_id.clone(),
        state: item.state.clone(),
        phase: QueuePhase::Hitl,
        hitl_created_at: now.to_owned(),
        hitl_reason: HitlReason::SpecModificationProposed,
        hitl_notes: unwrap_text(notes, delegation.as_str()),
        title: cat3("spec-modification-proposed (replan #", count.as_str(), ")"),
        replan_count: n,
    };
    Ok(HitlOutcome { phase: QueuePhase::Pending, created: Some(created), message })
}

/// A waiting item that was planned anew too often fails; until then it goes
/// back to the queue.
pub proof fn law_replanning_ends(replans: int)
    ensures
        replans >= MAX_REPLAN <==> answered_phase(HitlRespondAction::Replan, replans)
            == QueuePhase::Failed,
        replans < MAX_REPLAN <==> answered_phase(HitlRespondAction::Replan, replans)
            == QueuePhase::Pending,
{
}

/// No answer leaves an item waiting.
pub proof fn law_an_answer_ends_the_wait(action: HitlRespondAction, replans: int)
    ensures
        answered_phase(action, replans) != QueuePhase::Hitl,
{
}

// ---------------------------------------------------------------------------
// Listing
// ---------------------------------------------------------------------------

/// A row of the table of waiting items.
pub open spec fn hitl_row(
    work_id: Seq<char>,
    workspace: Seq<char>,
    state: Seq<char>,
    reason: Seq<char>,
    title: Seq<char>,
) -> Seq<char> {
    pad_right(work_id, 40) + " "@ + pad_right(workspace, 20) + " "@ + pad_right(state, 12) + " "@
        + pad_right(reason, 24) + " "@ + title + "\n"@
}

/// The rows of the first `n` waiting items.
pub open spec fn hitl_rows(items: Seq<QueueItem>, n: nat) -> Seq<char>
    decreases n,
{
    if n == 0 {
        seq![]
    } else {
        let item = items[n - 1];
        hitl_rows(items, (n - 1) as nat) + hitl_row(
            item.work_id@,
            item.workspace_id@,
            item.state@,
            text_or(item.hitl_reason_name, "-"@),
            text_or(item.title, "-"@),
        )
    }
}

/// The table of waiting items.
pub open spec fn hitl_table(items: Seq<QueueItem>) -> Seq<char> {
    if items.len() == 0 {
        "No items awaiting human review.\n"@
    } else {
        hitl_row("WORK_ID"@, "WORKSPACE"@, "STATE"@, "REASON"@, "TITLE"@) + repeat('-', 104)
            + "\n"@ + hitl_rows(items, items.len()) + "\n"@ + dec(items.len())
            + " item(s) awaiting review.\n"@
    }
}

fn write_hitl_row(work_id: &str, workspace: &str, state: &str, reason: &str, title: &str) -> (r:
    String)
    ensures
        r@ == hitl_row(work_id@, workspace@, state@, reason@, title@),
{
    let mut out = padded_right(work_id, 40);
    out.append(" ");
    let workspace_cell = padded_right(workspace, 20);
    out.append(workspace_cell.as_str());
    out.append(" ");
    let state_cell = padded_right(state, 12);
    out.append(state_cell.as_str());
    out.append(" ");
    let reason_cell = padded_right(reason, 24);
    out.append(reason_cell.as_str());
    out.append(" ");
    out.append(title);
    out.append("\n");
    out
}

/// `belt hitl list`: the waiting items as a table; `None` where they are to be
/// serialized as they are.
pub fn cmd_hitl_list(items: &Vec<QueueItem>, format: &str) -> (r: Option<String>)
    ensures
        r is None <==> format@ == "json"@,
        r matches Some(t) ==> t@ == hitl_table(items@),
{
    if text_eq(format, "json") {
        return None;
    }
    if items.len() == 0 {
        return Some("No items awaiting human review.\n".to_string());
    }
    let mut rows = String::new();
    let mut i: usize = 0;
    while i < items.len()
        invariant
            i <= items.len(),
            rows@ == hitl_rows(items@, i as nat),
        decreases items.len() - i,
    {
        let item = &items[i];
        let reason = unwrap_text(&item.hitl_reason_name, "-");
        let title = unwrap_text(&item.title, "-");
        let row = write_hitl_row(
            item.work_id.as_str(),
            item.workspace_id.as_str(),
            item.state.as_str(),
            reason.as_str(),
            title.as_str(),
        );
        rows.append(row.as_str());
        i = i + 1;
    }
    let mut out = write_hitl_row("WORK_ID", "WORKSPACE", "STATE", "REASON", "TITLE");
    let rule = repeat_char('-', 104);
    out.append(rule.as_str());
    out.append("\n");
    out.append(rows.as_str());
    out.append("\n");
    let count = dec_usize(items.len());
    out.append(count.as_str());
    out.append(" item(s) awaiting review.\n");
    Some(out)
}

// ---------------------------------------------------------------------------
// Timeouts
// ---------------------------------------------------------------------------

/// The first second, counted from the Unix epoch, that can be represented: the
/// beginning of the year -262143.
pub const FIRST_SECOND: i64 = -8_334_601_228_800;

/// The last second that can be represented: the end of the year 262142.
pub const LAST_SECOND: i64 = 8_210_266_876_799;

/// How many nanoseconds a second has.
pub const SECOND_NANOS: u32 = 1_000_000_000;

/// The second lies in the range of dates that can be represented.
pub open spec fn is_moment(secs: int) -> bool {
    FIRST_SECOND <= secs <= LAST_SECOND
}

/// The second that lies `span` seconds after the Unix time `secs`, by
/// `chrono::DateTime::checked_add_signed`. There is none exactly where the given
/// moment or the one after the span lies outside of chrono's range of dates.
#[verifier::external_body]
fn add_seconds(secs: i64, span: i64) -> (r: Option<i64>)
    ensures
        r is Some == (is_moment(secs as int) && is_moment(secs + span)),
        r matches Some(end) ==> end == secs + span,
{
    let now = chrono::DateTime::from_timestamp(secs, 0)?;
    Some(now.checked_add_signed(chrono::TimeDelta::try_seconds(span)?)?.timestamp())
}

/// The moment `secs` seconds and `nanos` nanoseconds after the Unix epoch, in the
/// notation of RFC 3339.
pub uninterp spec fn rfc3339(secs: int, nanos: int) -> Seq<char>;

/// The text that `chrono::DateTime::to_rfc3339` writes for the Unix time `secs`
/// and `nanos` in UTC. It is a function of these numbers alone.
#[verifier::external_body]
fn write_rfc3339(secs: i64, nanos: u32) -> (r: String)
    requires
        is_moment(secs as int),
        nanos < SECOND_NANOS,
    ensures
        r@ == rfc3339(secs as int, nanos as int),
{
    chrono::DateTime::from_timestamp(secs, nanos).unwrap_or_default().to_rfc3339()
}

/// What may happen to an item when its time is over.
pub open spec fn is_terminal_action(a: Seq<char>) -> bool {
    a == "skip"@ || a == "failed"@ || a == "replan"@
}

/// Why a timeout is refused: the item does not wait, or the action is none.
pub open spec fn timeout_fault(
    item_id: Seq<char>,
    phase: QueuePhase,
    action: Option<String>,
) -> Option<Seq<char>> {
    if phase != QueuePhase::Hitl {
        Some(phase_fault(item_id, phase, "expected 'hitl'"@))
    } else {
        match action {
            Some(a) => if is_terminal_action(a@) {
                None
            } else {
                Some(
                    "invalid terminal action '"@ + a@
                        + "': expected one of skip, failed, replan"@,
                )
            },
            None => None,
        }
    }
}

/// Checks that a timeout may be set on an item.
pub fn check_timeout(item_id: &str, phase: QueuePhase, action: &Option<String>) -> (r: Result<
    (),
    String,
>)
    ensures
        r is Ok <==> timeout_fault(item_id@, phase, *action) is None,
        r matches Err(e) ==> timeout_fault(item_id@, phase, *action) == Some(e@),
{
    if phase != QueuePhase::Hitl {
        let mut e = cat5("item '", item_id, "' is in phase '", phase.as_str(), "', ");
        e.append("expected 'hitl'");
        return Err(e);
    }
    match action {
        Some(a) => {
            if text_eq(a.as_str(), "skip") || text_eq(a.as_str(), "failed") || text_eq(
                a.as_str(),
                "replan",
            ) {
                Ok(())
            } else {
                Err(
                    cat3(
                        "invalid terminal action '",
                        a.as_str(),
                        "': expected one of skip, failed, replan",
                    ),
                )
            }
        },
        None => Ok(()),
    }
}

/// What is said when a timeout was set.
pub open spec fn timeout_message(
    item_id: Seq<char>,
    timeout_at: Seq<char>,
    duration: nat,
    action: Option<String>,
) -> Seq<char> {
    "Timeout set for item '"@ + item_id + "':\n  expires at: "@ + timeout_at
        + "\n  duration:   "@ + dec(duration) + " seconds\n  action:     "@ + text_or(
        action,
        "skip (default)"@,
    ) + "\n"@
}

/// What is said when a timeout was set.
pub fn write_timeout_message(
    item_id: &str,
    timeout_at: &str,
    duration: u64,
    action: &Option<String>,
) -> (r: String)
    ensures
        r@ == timeout_message(item_id@, timeout_at@, duration as nat, *action),
{
    let mut out = cat4("Timeout set for item '", item_id, "':\n  expires at: ", timeout_at);
    out.append("\n  duration:   ");
    let secs = dec_u64(duration);
    out.append(secs.as_str());
    out.append(" seconds\n  action:     ");
    let shown = unwrap_text(action, "skip (default)");
    out.append(shown.as_str());
    out.append("\n");
    out
}

/// A timeout that is to be set, and what is said then.
#[derive(Debug)]
pub struct TimeoutSet {
    pub timeout_at: String,
    pub message: String,
}

/// `belt hitl timeout set` at the Unix time `secs` and `nanos`: the moment at
/// which the wait ends, or why no timeout is set.
///
/// There is no answer (`None`) where the end of the wait is no moment that can
/// be represented.
pub fn cmd_hitl_timeout(
    item_id: &str,
    phase: QueuePhase,
    duration: u64,
    action: &Option<String>,
    secs: i64,
    nanos: u32,
) -> (r: Option<Result<TimeoutSet, String>>)
    requires
        nanos < SECOND_NANOS,
    ensures
        r is None <==> timeout_fault(item_id@, phase, *action) is None && !(is_moment(secs as int)
            && is_moment(secs + duration)),
        r matches Some(Err(e)) ==> timeout_fault(item_id@, phase, *action) == Some(e@),
        r matches Some(Ok(t)) ==> {
            &&& timeout_fault(item_id@, phase, *action) is None
            &&& t.timeout_at@ == rfc3339(secs + duration, nanos as int)
            &&& t.message@ == timeout_message(
                item_id@,
                t.timeout_at@,
                duration as nat,
                *action,
            )
        },
{
    match check_timeout(item_id, phase, action) {
        Err(e) => Some(Err(e)),
        Ok(_) => {
            if duration > i64::MAX as u64 {
                return None;
            }
            match add_seconds(secs, duration as i64) {
                None => None,
                Some(end) => {
                    let timeout_at = write_rfc3339(end, nanos);
                    let message = write_timeout_message(
                        item_id,
                        timeout_at.as_str(),
                        duration,
                        action,
                    );
                    Some(Ok(TimeoutSet { timeout_at, message }))
                },
            }
        },
    }
}

/// A row of the table of timeouts.
pub open spec fn timeout_row(
    work_id: Seq<char>,
    at: Seq<char>,
    action: Seq<char>,
    workspace: Seq<char>,
) -> Seq<char> {
    pad_right(work_id, 40) + " "@ + pad_right(at, 28) + " "@ + pad_right(action, 10) + " "@
        + pad_right(workspace, 20) + "\n"@
}

/// The rows of the first `n` items with a timeout.
pub open spec fn timeout_rows(items: Seq<QueueItem>, n: nat) -> Seq<char>
    decreases n,
{
    if n == 0 {
        seq![]
    } else {
        let item = items[n - 1];
        timeout_rows(items, (n - 1) as nat) + timeout_row(
            truncated(item.work_id@, 40),
            text_or(item.hitl_timeout_at, "-"@),
            text_or(item.hitl_terminal_action, "skip"@),
            item.workspace_id@,
        )
    }
}

/// The table of items with a timeout.
pub open spec fn timeout_table(items: Seq<QueueItem>) -> Seq<char> {
    if items.len() == 0 {
        "No HITL items with active timeouts.\n"@
    } else {
        timeout_row("WORK_ID"@, "TIMEOUT_AT"@, "ACTION"@, "WORKSPACE"@) + timeout_rows(
            items,
            items.len(),
        ) + "\n"@ + dec(items.len()) + " item(s) with timeout\n"@
    }
}

fn write_timeout_row(work_id: &str, at: &str, action: &str, workspace: &str) -> (r: String)
    ensures
        r@ == timeout_row(work_id@, at@, action@, workspace@),
{
    let mut out = padded_right(work_id, 40);
    out.append(" ");
    let at_cell = padded_right(at, 28);
    out.append(at_cell.as_str());
    out.append(" ");
    let action_cell = padded_right(action, 10);
    out.append(action_cell.as_str());
    out.append(" ");
    let workspace_cell = padded_right(workspace, 20);
    out.append(workspace_cell.as_str());
    out.append("\n");
    out
}

/// `belt hitl timeout ls`: the items with a timeout as a table.
pub fn list_timeouts(items: &Vec<QueueItem>) -> (r: String)
    ensures
        r@ == timeout_table(items@),
{
    if items.len() == 0 {
        return "No HITL items with active timeouts.\n".to_string();
    }
    let mut rows = String::new();
    let mut i: usize = 0;
    while i < items.len()
        invariant
            i <= items.len(),
            rows@ == timeout_rows(items@, i as nat),
        decreases items.len() - i,
    {
        let item = &items[i];
        let work_id = truncate(item.work_id.as_str(), 40);
        let at = unwrap_text(&item.hitl_timeout_at, "-");
        let action = unwrap_text(&item.hitl_terminal_action, "skip");
        let row = write_timeout_row(
            work_id.as_str(),
            at.as_str(),
            action.as_str(),
            item.workspace_id.as_str(),
        );
        rows.append(row.as_str());
        i = i + 1;
    }
    let mut out = write_timeout_row("WORK_ID", "TIMEOUT_AT", "ACTION", "WORKSPACE");
    out.append(rows.as_str());
    out.append("\n");
    let count = dec_usize(items.len());
    out.append(count.as_str());
    out.append(" item(s) with timeout\n");
    out
}

// ---------------------------------------------------------------------------
// Laws on what is shown and recorded
// ---------------------------------------------------------------------------

/// What is known of an item is shown under its labels.
pub proof fn law_items_are_shown_with_their_fields(item: QueueItem)
    ensures
        holds(item_lines(item), "Work ID:      "@ + item.work_id@),
        holds(item_lines(item), "\nSource ID:    "@ + item.source_id@),
        holds(item_lines(item), "\nWorkspace:    "@ + item.workspace_id@),
        holds(item_lines(item), "\nState:        "@ + item.state@),
        holds(item_lines(item), "\nPhase:        "@ + item.phase.name()),
        item.title matches Some(t) ==> holds(item_lines(item), "Title:        "@ + t@ + "\n"@),
        holds(item_lines(item), "Created:      "@ + item.created_at@),
        holds(item_lines(item), "\nUpdated:      "@ + item.updated_at@),
{
    broadcast use group_holds;

}

/// An item that waits for a human is shown with all that was recorded of its wait,
/// and with the action that is recommended.
pub proof fn law_waiting_items_are_shown_whole(item: QueueItem)
    ensures
        holds(hitl_details(item), item_lines(item)),
        item.hitl_created_at matches Some(t) ==> holds(
            hitl_details(item),
            "HITL Since:   "@ + t@ + "\n"@,
        ),
        item.hitl_reason_name matches Some(t) ==> holds(
            hitl_details(item),
            "HITL Reason:  "@ + t@ + "\n"@,
        ),
        item.hitl_respondent matches Some(t) ==> holds(
            hitl_details(item),
            "Respondent:   "@ + t@ + "\n"@,
        ),
        item.hitl_notes matches Some(t) ==> holds(
            hitl_details(item),
            "Notes:        "@ + t@ + "\n"@,
        ),
        item.hitl_timeout_at matches Some(t) ==> holds(
            hitl_details(item),
            "Timeout At:   "@ + t@ + "\n"@,
        ),
        item.hitl_terminal_action matches Some(t) ==> holds(
            hitl_details(item),
            "Timeout Act:  "@ + t@ + "\n"@,
        ),
        holds(hitl_details(item), "\nRecommended:  "@ + advice(item.hitl_reason)),
        holds(hitl_details(item), "\n              "@ + advice_reason(item.hitl_reason)),
{
    broadcast use group_holds;

}

/// An explanation names the action that it recommends.
pub proof fn law_explanations_name_their_action(reason: HitlReason)
    requires
        !(reason is SpecModificationProposed),
    ensures
        holds(advice_reason(Some(reason)), advice(Some(reason))),
{
    reveal_strlit("retry");
    reveal_strlit("skip");
    reveal_strlit("done");
    reveal_strlit("replan");
    reveal_strlit(
        "Evaluation failed; a retry may succeed after transient issues are resolved.",
    );
    reveal_strlit(
        "Maximum retries exhausted; consider skipping or investigating the root cause.",
    );
    reveal_strlit(
        "Execution timed out; retry with a longer timeout or investigate the workload.",
    );
    reveal_strlit(
        "Manually escalated; review the item and mark done if the issue is resolved.",
    );
    reveal_strlit("Spec conflict detected; replan to resolve overlapping specifications.");
    reveal_strlit(
        "Spec completion review; approve to mark as done if the spec is satisfactory.",
    );
    let text = advice_reason(Some(reason));
    let word = advice(Some(reason));
    let at: int = match reason {
        HitlReason::EvaluateFailure => 21,
        HitlReason::RetryMaxExceeded => 36,
        HitlReason::Timeout => 21,
        HitlReason::ManualEscalation => 45,
        HitlReason::SpecConflict => 24,
        HitlReason::SpecCompletionReview => 43,
        HitlReason::SpecModificationProposed => 0,
    };
    assert(text.subrange(at, at + word.len()) =~= word);
}

/// What is told of an answer names the item, and the phase that it now has, or
/// how often it was planned anew.
pub proof fn law_answers_are_told(
    item_id: Seq<char>,
    action: HitlRespondAction,
    notes: Option<String>,
    n: nat,
)
    requires
        n > 0,
    ensures
        holds(answer_message(item_id, action, notes, n), "Item '"@ + item_id),
        action != HitlRespondAction::Replan ==> holds(
            answer_message(item_id, action, notes, n),
            answered_phase(action, n - 1).name() + " (action: "@ + action.name(),
        ),
        action != HitlRespondAction::Replan ==> (notes matches Some(t) ==> holds(
            answer_message(item_id, action, notes, n),
            "Notes recorded: "@ + t@ + "\n"@,
        )),
        action == HitlRespondAction::Replan ==> holds(
            answer_message(item_id, action, notes, n),
            dec(n) + "/"@ + dec(3),
        ),
        action == HitlRespondAction::Replan && n <= 3 ==> holds(
            answer_message(item_id, action, notes, n),
            replan_id(item_id, n),
        ),
{
    broadcast use group_holds;

}

/// Each new plan of an item gets an item of its own for its review, named after
/// the item.
pub proof fn law_every_replan_has_an_id_of_its_own(item_id: Seq<char>, a: nat, b: nat)
    ensures
        replan_id(item_id, a).take(item_id.len() as int) == item_id,
        a != b ==> replan_id(item_id, a) != replan_id(item_id, b),
{
    let start = item_id + ":replan-"@;
    let k = start.len() as int;
    assert(replan_id(item_id, a).take(item_id.len() as int) =~= item_id);
    assert(replan_id(item_id, a).skip(k) =~= dec(a));
    assert(replan_id(item_id, b).skip(k) =~= dec(b));
    law_written_numbers_read_back(a, 0);
    law_written_numbers_read_back(b, 0);
}

/// The notes of a review are those of the answer, or else tell why the item was
/// waiting.
pub proof fn law_reviews_keep_the_notes(
    new: ReplanItem,
    item_id: Seq<char>,
    item: QueueItem,
    notes: Option<String>,
    now: Seq<char>,
    n: nat,
)
    requires
        reviews(new, item_id, item, notes, now, n),
    ensures
        notes matches Some(t) ==> new.hitl_notes@ == t@,
        notes is None ==> (item.hitl_notes matches Some(t) ==> holds(new.hitl_notes@, "): "@ + t@)),
        notes is None ==> holds(new.hitl_notes@, dec(n) + "): "@),
        holds(new.title@, dec(n)),
        new.work_id@.take(item_id.len() as int) == item_id,
        new.phase == QueuePhase::Hitl,
        new.source_id@ == item.source_id@,
        new.workspace_id@ == item.workspace_id@,
{
    broadcast use group_holds;

    law_every_replan_has_an_id_of_its_own(item_id, n, n);
}

/// The row of a waiting item shows its columns at fixed places.
pub proof fn law_waiting_rows_have_their_columns(
    work_id: Seq<char>,
    workspace: Seq<char>,
    state: Seq<char>,
    reason: Seq<char>,
    title: Seq<char>,
)
    requires
        work_id.len() <= 40,
        workspace.len() <= 20,
        state.len() <= 12,
        reason.len() <= 24,
    ensures
        found_at(hitl_row(work_id, workspace, state, reason, title), 0, work_id),
        found_at(hitl_row(work_id, workspace, state, reason, title), 41, workspace),
        found_at(hitl_row(work_id, workspace, state, reason, title), 62, state),
        found_at(hitl_row(work_id, workspace, state, reason, title), 75, reason),
        found_at(hitl_row(work_id, workspace, state, reason, title), 100, title),
{
    reveal_strlit(" ");
    let row = hitl_row(work_id, workspace, state, reason, title);
    assert(row.subrange(0, work_id.len() as int) =~= work_id);
    assert(row.subrange(41, 41 + workspace.len() as int) =~= workspace);
    assert(row.subrange(62, 62 + state.len() as int) =~= state);
    assert(row.subrange(75, 75 + reason.len() as int) =~= reason);
    assert(row.subrange(100, 100 + title.len() as int) =~= title);
}

proof fn lemma_hitl_rows_hold(items: Seq<QueueItem>, n: nat, i: int)
    requires
        0 <= i < n <= items.len(),
    ensures
        holds(
            hitl_rows(items, n),
            hitl_row(
                items[i].work_id@,
                items[i].workspace_id@,
                items[i].state@,
                text_or(items[i].hitl_reason_name, "-"@),
                text_or(items[i].title, "-"@),
            ),
        ),
    decreases n,
{
    broadcast use group_holds;

    if i < n - 1 {
        lemma_hitl_rows_hold(items, (n - 1) as nat, i);
    }
}

/// Every item that waits for a human has its row, and they are counted.
pub proof fn law_every_waiting_item_has_its_row(items: Seq<QueueItem>, i: int)
    requires
        0 <= i < items.len(),
    ensures
        holds(
            hitl_table(items),
            hitl_row(
                items[i].work_id@,
                items[i].workspace_id@,
                items[i].state@,
                text_or(items[i].hitl_reason_name, "-"@),
                text_or(items[i].title, "-"@),
            ),
        ),
        holds(hitl_table(items), dec(items.len()) + " item(s) awaiting review.\n"@),
{
    broadcast use group_holds;

    lemma_hitl_rows_hold(items, items.len(), i);
}

/// A timeout is refused for an item that does not wait, and for an action that is
/// none of the three, and for nothing else.
pub proof fn law_timeouts_are_for_waiting_items(item_id: Seq<char>, phase: QueuePhase, a: String)
    ensures
        timeout_fault(item_id, phase, None) is None <==> phase is Hitl,
        timeout_fault(item_id, phase, Some(a)) is None <==> phase is Hitl && (a@ == "skip"@ || a@
            == "failed"@ || a@ == "replan"@),
        !(phase is Hitl) ==> holds(timeout_fault(item_id, phase, Some(a)).unwrap(), item_id)
            && holds(timeout_fault(item_id, phase, Some(a)).unwrap(), phase.name()),
        phase is Hitl && timeout_fault(item_id, phase, Some(a)) is Some ==> holds(
            timeout_fault(item_id, phase, Some(a)).unwrap(),
            a@,
        ),
{
    broadcast use group_holds;

}

/// What is told of a timeout names the item, when it runs out, and what then
/// happens.
pub proof fn law_timeouts_are_told(
    item_id: Seq<char>,
    timeout_at: Seq<char>,
    duration: nat,
    action: Option<String>,
)
    ensures
        holds(
            timeout_message(item_id, timeout_at, duration, action),
            item_id + "':\n  expires at: "@ + timeout_at,
        ),
        holds(timeout_message(item_id, timeout_at, duration, action), dec(duration)),
        action matches Some(a) ==> holds(
            timeout_message(item_id, timeout_at, duration, action),
            a@ + "\n"@,
        ),
{
    broadcast use group_holds;

}

/// The row of a timeout shows its columns at fixed places.
pub proof fn law_timeout_rows_have_their_columns(
    work_id: Seq<char>,
    at: Seq<char>,
    action: Seq<char>,
    workspace: Seq<char>,
)
    requires
        work_id.len() <= 40,
        at.len() <= 28,
        action.len() <= 10,
    ensures
        found_at(timeout_row(work_id, at, action, workspace), 0, work_id),
        found_at(timeout_row(work_id, at, action, workspace), 41, at),
        found_at(timeout_row(work_id, at, action, workspace), 70, action),
        found_at(timeout_row(work_id, at, action, workspace), 81, workspace),
{
    reveal_strlit(" ");
    let row = timeout_row(work_id, at, action, workspace);
    assert(row.subrange(0, work_id.len() as int) =~= work_id);
    assert(row.subrange(41, 41 + at.len() as int) =~= at);
    assert(row.subrange(70, 70 + action.len() as int) =~= action);
    assert(row.subrange(81, 81 + workspace.len() as int) =~= workspace);
}

proof fn lemma_timeout_rows_hold(items: Seq<QueueItem>, n: nat, i: int)
    requires
        0 <= i < n <= items.len(),
        items[i].work_id@.len() <= 40,
    ensures
        holds(
            timeout_rows(items, n),
            timeout_row(
                items[i].work_id@,
                text_or(items[i].hitl_timeout_at, "-"@),
                text_or(items[i].hitl_terminal_action, "skip"@),
                items[i].workspace_id@,
            ),
        ),
    decreases n,
{
    broadcast use group_holds;

    if i < n - 1 {
        lemma_timeout_rows_hold(items, (n - 1) as nat, i);
    }
}

/// Every timeout has its row, and they are counted.
pub proof fn law_every_timeout_has_its_row(items: Seq<QueueItem>, i: int)
    requires
        0 <= i < items.len(),
        items[i].work_id@.len() <= 40,
    ensures
        holds(
            timeout_table(items),
            timeout_row(
                items[i].work_id@,
                text_or(items[i].hitl_timeout_at, "-"@),
                text_or(items[i].hitl_terminal_action, "skip"@),
                items[i].workspace_id@,
            ),
        ),
        holds(timeout_table(items), "\n"@ + dec(items.len()) + " item(s) with timeout\n"@),
{
    broadcast use group_holds;

    lemma_timeout_rows_hold(items, items.len(), i);
}

} // verus!
