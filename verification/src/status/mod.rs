//! Status of the whole system and of one workspace, for `belt status` and
//! `belt spec status`.

use vstd::prelude::*;

use crate::order::is_order;
use crate::order::lemma_text_lt_transitive;
use crate::order::order_largest_first;
use crate::order::text_lt;
use crate::queue::count_phase;
use crate::queue::items_in;
use crate::queue::law_phases_have_names_of_their_own;
use crate::queue::QueueItem;
use crate::queue::QueuePhase;
use crate::queue::TransitionEvent;
use crate::text::text_eq;
use crate::text::text_or;
use crate::text::unwrap_text;

pub mod render;

verus! {

/// How many recent events a status shows.
pub const RECENT_EVENTS: usize = 10;

/// Count of items in a specific phase.
#[derive(Debug)]
pub struct PhaseCount {
    pub phase: String,
    pub count: u32,
}

/// Brief summary of a queue item.
#[derive(Debug)]
pub struct ItemSummary {
    pub work_id: String,
    pub workspace: String,
    pub state: String,
    pub phase: String,
    pub updated_at: String,
}

/// Brief summary of a transition event.
#[derive(Debug)]
pub struct EventSummary {
    pub item_id: String,
    pub from_state: String,
    pub to_state: String,
    pub event_type: String,
    pub timestamp: String,
}

/// Per-workspace item summary for the system status table.
#[derive(Debug)]
pub struct WorkspaceSummary {
    pub workspace: String,
    pub total: u32,
    pub phase_counts: Vec<PhaseCount>,
}

/// What one model used in the reported period.
#[derive(Debug)]
pub struct ModelStats {
    pub model: String,
    pub input_tokens: u64,
    pub output_tokens: u64,
    pub total_tokens: u64,
    pub executions: u64,
    /// The average duration in whole milliseconds, as it is shown.
    pub avg_duration: Option<String>,
}

/// What the runtimes used in the reported period.
#[derive(Debug)]
pub struct RuntimeStats {
    pub total_tokens_input: u64,
    pub total_tokens_output: u64,
    pub total_tokens: u64,
    pub executions: u64,
    /// The average duration in whole milliseconds, as it is shown.
    pub avg_duration: Option<String>,
    pub by_model: Vec<ModelStats>,
}

/// System status summary returned by `belt status`.
#[derive(Debug)]
pub struct SystemStatus {
    pub total_items: u32,
    pub hitl_count: u32,
    pub phase_counts: Vec<PhaseCount>,
    pub running_items: Vec<ItemSummary>,
    pub recent_events: Vec<EventSummary>,
    pub runtime_stats: Option<RuntimeStats>,
    /// Per-workspace item breakdown for the rich status table.
    pub workspace_summary: Vec<WorkspaceSummary>,
    /// Items currently in the failed phase.
    pub error_items: Vec<ItemSummary>,
    /// Items currently awaiting human intervention.
    pub hitl_items: Vec<ItemSummary>,
}

/// Per-model token usage breakdown.
#[derive(Debug)]
pub struct ModelTokenSummary {
    pub model: String,
    pub input_tokens: u64,
    pub output_tokens: u64,
    pub total_tokens: u64,
    pub executions: u64,
}

/// Token usage summary for a workspace.
#[derive(Debug)]
pub struct TokenUsageSummary {
    /// Total input tokens consumed.
    pub total_input: u64,
    /// Total output tokens produced.
    pub total_output: u64,
    /// Grand total of input + output tokens.
    pub total_tokens: u64,
    /// Number of runtime invocations.
    pub executions: u64,
    /// Per-model breakdown, largest total first.
    pub by_model: Vec<ModelTokenSummary>,
}

/// Workspace spec status.
#[derive(Debug)]
pub struct SpecStatus {
    pub workspace: String,
    pub config_path: String,
    pub item_count: u32,
    pub phase_counts: Vec<PhaseCount>,
    /// Token usage summary, where any usage is recorded.
    pub token_usage: Option<TokenUsageSummary>,
}

/// A registered workspace and its queue items.
#[derive(Debug)]
pub struct WorkspaceItems {
    pub name: String,
    pub items: Vec<QueueItem>,
}

/// What the queue database reports for a system status.
#[derive(Debug)]
pub struct QueueSnapshot {
    /// The number of items in each phase that occurs.
    pub phase_counts: Vec<PhaseCount>,
    pub running: Vec<QueueItem>,
    /// Recorded transitions, newest first.
    pub events: Vec<TransitionEvent>,
    pub runtime_stats: Option<RuntimeStats>,
    pub workspaces: Vec<WorkspaceItems>,
    pub failed: Vec<QueueItem>,
    pub hitl: Vec<QueueItem>,
}

/// One recorded use of a model.
#[derive(Debug)]
pub struct TokenUsageRow {
    pub model: String,
    pub input_tokens: u64,
    pub output_tokens: u64,
}

// ---------------------------------------------------------------------------
// Counting
// ---------------------------------------------------------------------------

/// The sum of the counts.
pub open spec fn sum_counts(s: Seq<PhaseCount>) -> nat
    decreases s.len(),
{
    if s.len() == 0 {
        0
    } else {
        sum_counts(s.drop_last()) + s.last().count as nat
    }
}

/// The count of the first entry for the phase `name`, or 0.
pub open spec fn count_named(s: Seq<PhaseCount>, name: Seq<char>) -> u32
    decreases s.len(),
{
    if s.len() == 0 {
        0
    } else if s[0].phase@ == name {
        s[0].count
    } else {
        count_named(s.skip(1), name)
    }
}

proof fn lemma_sum_counts_grows(s: Seq<PhaseCount>, k: int)
    requires
        0 <= k <= s.len(),
    ensures
        sum_counts(s.take(k)) <= sum_counts(s),
    decreases s.len() - k,
{
    if k < s.len() {
        lemma_sum_counts_grows(s, k + 1);
        assert(s.take(k + 1).drop_last() =~= s.take(k));
    } else {
        assert(s.take(k) =~= s);
    }
}

/// The sum of the counts.
pub fn total_count(s: &Vec<PhaseCount>) -> (r: u32)
    requires
        sum_counts(s@) <= u32::MAX,
    ensures
        r == sum_counts(s@),
{
    let mut n: u32 = 0;
    let mut i: usize = 0;
    while i < s.len()
        invariant
            i <= s.len(),
            sum_counts(s@) <= u32::MAX,
            n == sum_counts(s@.take(i as int)),
        decreases s.len() - i,
    {
        proof {
            assert(s@.take(i + 1).drop_last() =~= s@.take(i as int));
            lemma_sum_counts_grows(s@, i + 1);
        }
        n = n + s[i].count;
        i = i + 1;
    }
    proof {
        assert(s@.take(s@.len() as int) =~= s@);
    }
    n
}

/// The count of the first entry for the phase `name`, or 0.
pub fn count_for(s: &Vec<PhaseCount>, name: &str) -> (r: u32)
    ensures
        r == count_named(s@, name@),
{
    let mut i: usize = 0;
    proof {
        assert(s@.skip(0) =~= s@);
    }
    while i < s.len()
        invariant
            i <= s.len(),
            count_named(s@, name@) == count_named(s@.skip(i as int), name@),
        decreases s.len() - i,
    {
        if text_eq(s[i].phase.as_str(), name) {
            return s[i].count;
        }
        proof {
            assert(s@.skip(i as int).skip(1) =~= s@.skip(i + 1));
        }
        i = i + 1;
    }
    0
}

/// The phases in the alphabetical order of their names.
pub open spec fn phases_by_name() -> Seq<QueuePhase> {
    seq![
        QueuePhase::Completed,
        QueuePhase::Done,
        QueuePhase::Failed,
        QueuePhase::Hitl,
        QueuePhase::Pending,
        QueuePhase::Ready,
        QueuePhase::Running,
        QueuePhase::Skipped,
    ]
}

/// The name and the number of items of each phase that occurs among the items,
/// looking at the first `k` phases of `phases_by_name`.
pub open spec fn tally(items: Seq<QueueItem>, k: nat) -> Seq<(Seq<char>, nat)>
    decreases k,
{
    if k == 0 {
        seq![]
    } else {
        let p = phases_by_name()[k - 1];
        let before = tally(items, (k - 1) as nat);
        if items_in(items, p) > 0 {
            before.push((p.name(), items_in(items, p)))
        } else {
            before
        }
    }
}

/// The names and counts of a list of phase counts.
pub open spec fn counted(s: Seq<PhaseCount>) -> Seq<(Seq<char>, nat)> {
    Seq::new(s.len(), |i: int| (s[i].phase@, s[i].count as nat))
}

/// The number of items in each phase that occurs, phases by name.
pub fn tally_phases(items: &Vec<QueueItem>) -> (r: Vec<PhaseCount>)
    requires
        items.len() <= u32::MAX,
    ensures
        counted(r@) == tally(items@, 8),
{
    let phases: [QueuePhase; 8] = [
        QueuePhase::Completed,
        QueuePhase::Done,
        QueuePhase::Failed,
        QueuePhase::Hitl,
        QueuePhase::Pending,
        QueuePhase::Ready,
        QueuePhase::Running,
        QueuePhase::Skipped,
    ];
    let mut out: Vec<PhaseCount> = Vec::new();
    let mut k: usize = 0;
    proof {
        assert(phases@ =~= phases_by_name());
        assert(counted(out@) =~= seq![]);
    }
    while k < 8
        invariant
            k <= 8,
            items.len() <= u32::MAX,
            phases@ == phases_by_name(),
            counted(out@) == tally(items@, k as nat),
        decreases 8 - k,
    {
        let n: usize = count_phase(items, phases[k]);
        if n > 0 {
            let ghost before = out@;
            out.push(PhaseCount { phase: phases[k].as_str().to_string(), count: n as u32 });
            proof {
                assert(counted(out@) =~= counted(before).push(
                    (phases@[k as int].name(), n as nat),
                ));
            }
        }
        k = k + 1;
    }
    out
}

/// The counts of a tally add up to the number of items.
pub proof fn law_tally_counts_every_item(items: Seq<QueueItem>)
    ensures
        tally_sum(tally(items, 8)) == items.len(),
    decreases items.len(),
{
    lemma_tally_sum(items, 8);
    lemma_items_in_sum(items);
}

/// The sum of the counts of a tally.
pub open spec fn tally_sum(t: Seq<(Seq<char>, nat)>) -> nat
    decreases t.len(),
{
    if t.len() == 0 {
        0
    } else {
        tally_sum(t.drop_last()) + t.last().1
    }
}

spec fn phase_sum(items: Seq<QueueItem>, k: nat) -> nat
    decreases k,
{
    if k == 0 {
        0
    } else {
        phase_sum(items, (k - 1) as nat) + items_in(items, phases_by_name()[k - 1])
    }
}

proof fn lemma_tally_sum(items: Seq<QueueItem>, k: nat)
    requires
        k <= 8,
    ensures
        tally_sum(tally(items, k)) == phase_sum(items, k),
    decreases k,
{
    if k > 0 {
        lemma_tally_sum(items, (k - 1) as nat);
        let t = tally(items, k);
        if items_in(items, phases_by_name()[k - 1]) > 0 {
            assert(t.drop_last() =~= tally(items, (k - 1) as nat));
        }
    }
}

proof fn lemma_items_in_sum(items: Seq<QueueItem>)
    ensures
        phase_sum(items, 8) == items.len(),
    decreases items.len(),
{
    reveal_with_fuel(phase_sum, 9);
    if items.len() > 0 {
        lemma_items_in_sum(items.drop_last());
    }
}

proof fn lemma_phase_names_sorted(i: int, j: int)
    requires
        0 <= i < j < 8,
    ensures
        text_lt(phases_by_name()[i].name(), phases_by_name()[j].name()),
    decreases j - i,
{
    if i + 1 < j {
        lemma_phase_names_sorted(i, j - 1);
        lemma_phase_names_sorted(j - 1, j);
        lemma_text_lt_transitive(
            phases_by_name()[i].name(),
            phases_by_name()[j - 1].name(),
            phases_by_name()[j].name(),
        );
    } else {
        reveal_strlit("completed");
        reveal_strlit("done");
        reveal_strlit("failed");
        reveal_strlit("hitl");
        reveal_strlit("pending");
        reveal_strlit("ready");
        reveal_strlit("running");
        reveal_strlit("skipped");
        if i == 5 {
            let a = "ready"@;
            let b = "running"@;
            assert(a.skip(1)[0] == 'e');
            assert(b.skip(1)[0] == 'u');
            assert(text_lt(a.skip(1), b.skip(1)));
        }
    }
}

proof fn lemma_tally_member(items: Seq<QueueItem>, k: nat, i: int)
    requires
        k <= 8,
        0 <= i < tally(items, k).len(),
    ensures
        exists|p: int| 0 <= p < k && tally(items, k)[i].0 == #[trigger] phases_by_name()[p].name(),
    decreases k,
{
    let before = tally(items, (k - 1) as nat);
    if i < before.len() {
        lemma_tally_member(items, (k - 1) as nat, i);
        let p = choose|p: int|
            0 <= p < k - 1 && before[i].0 == #[trigger] phases_by_name()[p].name();
        assert(tally(items, k)[i].0 == phases_by_name()[p].name());
    } else {
        assert(tally(items, k)[i].0 == phases_by_name()[k - 1].name());
    }
}

proof fn lemma_tally_sorted(items: Seq<QueueItem>, k: nat, i: int, j: int)
    requires
        k <= 8,
        0 <= i < j < tally(items, k).len(),
    ensures
        text_lt(tally(items, k)[i].0, tally(items, k)[j].0),
    decreases k,
{
    let before = tally(items, (k - 1) as nat);
    if j < before.len() {
        lemma_tally_sorted(items, (k - 1) as nat, i, j);
    } else {
        lemma_tally_member(items, (k - 1) as nat, i);
        let p = choose|p: int|
            0 <= p < k - 1 && before[i].0 == #[trigger] phases_by_name()[p].name();
        lemma_phase_names_sorted(p, k - 1);
    }
}

/// The phases of a tally are sorted alphabetically, each named once.
pub proof fn law_tally_is_sorted(items: Seq<QueueItem>, i: int, j: int)
    requires
        0 <= i < j < tally(items, 8).len(),
    ensures
        text_lt(tally(items, 8)[i].0, tally(items, 8)[j].0),
{
    lemma_tally_sorted(items, 8, i, j);
}

// ---------------------------------------------------------------------------
// Gathering
// ---------------------------------------------------------------------------

/// `s` is the summary of `item`.
pub open spec fn summarizes(s: ItemSummary, item: QueueItem) -> bool {
    &&& s.work_id@ == item.work_id@
    &&& s.workspace@ == item.workspace_id@
    &&& s.state@ == item.state@
    &&& s.phase@ == item.phase.name()
    &&& s.updated_at@ == item.updated_at@
}

/// Each summary is that of the item at its place.
pub open spec fn summarizes_all(s: Seq<ItemSummary>, items: Seq<QueueItem>) -> bool {
    &&& s.len() == items.len()
    &&& forall|i: int| 0 <= i < items.len() ==> summarizes(#[trigger] s[i], items[i])
}

/// `s` is the summary of `ev`; a phase that is not recorded is empty.
pub open spec fn summarizes_event(s: EventSummary, ev: TransitionEvent) -> bool {
    &&& s.item_id@ == ev.work_id@
    &&& s.from_state@ == text_or(ev.from_phase, ""@)
    &&& s.to_state@ == text_or(ev.phase, ""@)
    &&& s.event_type@ == ev.event_type@
    &&& s.timestamp@ == ev.created_at@
}

/// The summaries of the items, in their order.
pub fn summarize_items(items: &Vec<QueueItem>) -> (r: Vec<ItemSummary>)
    ensures
        summarizes_all(r@, items@),
{
    let mut out: Vec<ItemSummary> = Vec::new();
    let mut i: usize = 0;
    while i < items.len()
        invariant
            i <= items.len(),
            out.len() == i,
            forall|j: int| 0 <= j < i ==> summarizes(#[trigger] out@[j], items@[j]),
        decreases items.len() - i,
    {
        let item = &items[i];
        out.push(
            ItemSummary {
                work_id: item.work_id.clone(),
                workspace: item.workspace_id.clone(),
                state: item.state.clone(),
                phase: item.phase.as_str().to_string(),
                updated_at: item.updated_at.clone(),
            },
        );
        i = i + 1;
    }
    out
}

/// The summaries of the newest events, at most `RECENT_EVENTS`.
pub fn summarize_events(events: &Vec<TransitionEvent>) -> (r: Vec<EventSummary>)
    ensures
        r.len() == (if events.len() < RECENT_EVENTS {
            events.len() as int
        } else {
            RECENT_EVENTS as int
        }),
        forall|i: int| 0 <= i < r.len() ==> summarizes_event(#[trigger] r@[i], events@[i]),
{
    let mut out: Vec<EventSummary> = Vec::new();
    let mut i: usize = 0;
    while i < events.len() && i < RECENT_EVENTS
        invariant
            i <= events.len(),
            i <= RECENT_EVENTS,
            out.len() == i,
            forall|j: int| 0 <= j < i ==> summarizes_event(#[trigger] out@[j], events@[j]),
        decreases events.len() - i,
    {
        let ev = &events[i];
        out.push(
            EventSummary {
                item_id: ev.work_id.clone(),
                from_state: unwrap_text(&ev.from_phase, ""),
                to_state: unwrap_text(&ev.phase, ""),
                event_type: ev.event_type.clone(),
                timestamp: ev.created_at.clone(),
            },
        );
        i = i + 1;
    }
    out
}

/// The workspaces that have items.
pub open spec fn occupied(ws: Seq<WorkspaceItems>) -> Seq<WorkspaceItems>
    decreases ws.len(),
{
    if ws.len() == 0 {
        seq![]
    } else if ws.last().items.len() > 0 {
        occupied(ws.drop_last()).push(ws.last())
    } else {
        occupied(ws.drop_last())
    }
}

/// `s` counts the items of `ws`.
pub open spec fn summarizes_workspace(s: WorkspaceSummary, ws: WorkspaceItems) -> bool {
    &&& s.workspace@ == ws.name@
    &&& s.total == ws.items.len()
    &&& counted(s.phase_counts@) == tally(ws.items@, 8)
}

/// The breakdown of each workspace that has items.
pub fn summarize_workspaces(ws: &Vec<WorkspaceItems>) -> (r: Vec<WorkspaceSummary>)
    requires
        forall|i: int| 0 <= i < ws.len() ==> (#[trigger] ws@[i]).items.len() <= u32::MAX,
    ensures
        r.len() == occupied(ws@).len(),
        forall|i: int|
            0 <= i < r.len() ==> summarizes_workspace(#[trigger] r@[i], occupied(ws@)[i]),
{
    let mut out: Vec<WorkspaceSummary> = Vec::new();
    let mut i: usize = 0;
    while i < ws.len()
        invariant
            i <= ws.len(),
            forall|k: int| 0 <= k < ws.len() ==> (#[trigger] ws@[k]).items.len() <= u32::MAX,
            out.len() == occupied(ws@.take(i as int)).len(),
            forall|k: int|
                0 <= k < out.len() ==> summarizes_workspace(
                    #[trigger] out@[k],
                    occupied(ws@.take(i as int))[k],
                ),
        decreases ws.len() - i,
    {
        proof {
            assert(ws@.take(i + 1).drop_last() =~= ws@.take(i as int));
        }
        let w = &ws[i];
        if w.items.len() > 0 {
            let counts = tally_phases(&w.items);
            out.push(
                WorkspaceSummary {
                    workspace: w.name.clone(),
                    total: w.items.len() as u32,
                    phase_counts: counts,
                },
            );
        }
        i = i + 1;
    }
    proof {
        assert(ws@.take(ws@.len() as int) =~= ws@);
    }
    out
}

/// The system status for what the queue database reports.
pub fn gather_status(snap: QueueSnapshot) -> (r: SystemStatus)
    requires
        sum_counts(snap.phase_counts@) <= u32::MAX,
        forall|i: int|
            0 <= i < snap.workspaces.len() ==> (#[trigger] snap.workspaces@[i]).items.len()
                <= u32::MAX,
    ensures
        r.total_items == sum_counts(snap.phase_counts@),
        r.hitl_count == count_named(snap.phase_counts@, "hitl"@),
        r.phase_counts == snap.phase_counts,
        summarizes_all(r.running_items@, snap.running@),
        r.recent_events.len() == (if snap.events.len() < RECENT_EVENTS {
            snap.events.len() as int
        } else {
            RECENT_EVENTS as int
        }),
        forall|i: int|
            0 <= i < r.recent_events.len() ==> summarizes_event(
                #[trigger] r.recent_events@[i],
                snap.events@[i],
            ),
        r.runtime_stats == snap.runtime_stats,
        r.workspace_summary.len() == occupied(snap.workspaces@).len(),
        forall|i: int|
            0 <= i < r.workspace_summary.len() ==> summarizes_workspace(
                #[trigger] r.workspace_summary@[i],
                occupied(snap.workspaces@)[i],
            ),
        summarizes_all(r.error_items@, snap.failed@),
        summarizes_all(r.hitl_items@, snap.hitl@),
{
    let total_items: u32 = total_count(&snap.phase_counts);
    let hitl_count: u32 = count_for(&snap.phase_counts, "hitl");
    let running_items = summarize_items(&snap.running);
    let recent_events = summarize_events(&snap.events);
    let workspace_summary = summarize_workspaces(&snap.workspaces);
    let error_items = summarize_items(&snap.failed);
    let hitl_items = summarize_items(&snap.hitl);
    SystemStatus {
        total_items,
        hitl_count,
        phase_counts: snap.phase_counts,
        running_items,
        recent_events,
        runtime_stats: snap.runtime_stats,
        workspace_summary,
        error_items,
        hitl_items,
    }
}

// ---------------------------------------------------------------------------
// Token usage
// ---------------------------------------------------------------------------

/// The models of the rows, each once, in the order of first use.
pub open spec fn models(rows: Seq<TokenUsageRow>) -> Seq<Seq<char>>
    decreases rows.len(),
{
    if rows.len() == 0 {
        seq![]
    } else {
        let before = models(rows.drop_last());
        if before.contains(rows.last().model@) {
            before
        } else {
            before.push(rows.last().model@)
        }
    }
}

/// The input tokens of all rows.
pub open spec fn input_sum(rows: Seq<TokenUsageRow>) -> nat
    decreases rows.len(),
{
    if rows.len() == 0 {
        0
    } else {
        input_sum(rows.drop_last()) + rows.last().input_tokens as nat
    }
}

/// The output tokens of all rows.
pub open spec fn output_sum(rows: Seq<TokenUsageRow>) -> nat
    decreases rows.len(),
{
    if rows.len() == 0 {
        0
    } else {
        output_sum(rows.drop_last()) + rows.last().output_tokens as nat
    }
}

/// The rows of one model.
pub open spec fn rows_of(rows: Seq<TokenUsageRow>, model: Seq<char>) -> Seq<TokenUsageRow>
    decreases rows.len(),
{
    if rows.len() == 0 {
        seq![]
    } else if rows.last().model@ == model {
        rows_of(rows.drop_last(), model).push(rows.last())
    } else {
        rows_of(rows.drop_last(), model)
    }
}

proof fn lemma_rows_of_bounds(rows: Seq<TokenUsageRow>, model: Seq<char>)
    ensures
        input_sum(rows_of(rows, model)) <= input_sum(rows),
        output_sum(rows_of(rows, model)) <= output_sum(rows),
        rows_of(rows, model).len() <= rows.len(),
    decreases rows.len(),
{
    if rows.len() > 0 {
        lemma_rows_of_bounds(rows.drop_last(), model);
        let kept = rows_of(rows.drop_last(), model);
        if rows.last().model@ == model {
            assert(kept.push(rows.last()).drop_last() =~= kept);
        }
    }
}

proof fn lemma_sums_grow(rows: Seq<TokenUsageRow>, k: int)
    requires
        0 <= k <= rows.len(),
    ensures
        input_sum(rows.take(k)) <= input_sum(rows),
        output_sum(rows.take(k)) <= output_sum(rows),
    decreases rows.len() - k,
{
    if k < rows.len() {
        lemma_sums_grow(rows, k + 1);
        assert(rows.take(k + 1).drop_last() =~= rows.take(k));
    } else {
        assert(rows.take(k) =~= rows);
    }
}

/// `m` sums up the rows of its model.
pub open spec fn sums_up(m: ModelTokenSummary, rows: Seq<TokenUsageRow>, model: Seq<char>) -> bool {
    let own = rows_of(rows, model);
    &&& m.model@ == model
    &&& m.input_tokens == input_sum(own)
    &&& m.output_tokens == output_sum(own)
    &&& m.total_tokens == input_sum(own) + output_sum(own)
    &&& m.executions == own.len()
}

/// The total tokens of a model.
pub open spec fn model_total(rows: Seq<TokenUsageRow>, model: Seq<char>) -> nat {
    input_sum(rows_of(rows, model)) + output_sum(rows_of(rows, model))
}

/// `list` sums up each model of the rows once, largest total first; models
/// with the same total keep the order of first use.
pub open spec fn breaks_down(list: Seq<ModelTokenSummary>, rows: Seq<TokenUsageRow>) -> bool {
    exists|p: Seq<usize>| #[trigger] breaks_down_by(list, rows, p)
}

/// `list` sums up the models of the rows in the order `p`.
pub open spec fn breaks_down_by(
    list: Seq<ModelTokenSummary>,
    rows: Seq<TokenUsageRow>,
    p: Seq<usize>,
) -> bool {
    &&& is_order(p, models(rows).len())
    &&& list.len() == p.len()
    &&& forall|i: int| 0 <= i < p.len() ==> sums_up(#[trigger] list[i], rows, models(rows)[p[i] as int])
    &&& forall|i: int, j: int|
        0 <= i < j < p.len() ==> (#[trigger] list[i]).total_tokens > (
        #[trigger] list[j]).total_tokens || (list[i].total_tokens == list[j].total_tokens && p[i]
            < p[j])
}

fn known_model(seen: &Vec<String>, model: &str) -> (r: bool)
    ensures
        r == crate::text::texts(seen@).contains(model@),
{
    let mut i: usize = 0;
    while i < seen.len()
        invariant
            i <= seen.len(),
            forall|j: int| 0 <= j < i ==> seen@[j]@ != model@,
        decreases seen.len() - i,
    {
        if text_eq(seen[i].as_str(), model) {
            assert(crate::text::texts(seen@)[i as int] == model@);
            return true;
        }
        i = i + 1;
    }
    false
}

fn distinct_models(rows: &Vec<TokenUsageRow>) -> (r: Vec<String>)
    ensures
        crate::text::texts(r@) == models(rows@),
{
    let mut seen: Vec<String> = Vec::new();
    let mut i: usize = 0;
    proof {
        assert(crate::text::texts(seen@) =~= models(rows@.take(0)));
    }
    while i < rows.len()
        invariant
            i <= rows.len(),
            crate::text::texts(seen@) == models(rows@.take(i as int)),
        decreases rows.len() - i,
    {
        proof {
            assert(rows@.take(i + 1).drop_last() =~= rows@.take(i as int));
        }
        if !known_model(&seen, rows[i].model.as_str()) {
            let ghost before = seen@;
            seen.push(rows[i].model.clone());
            proof {
                assert(crate::text::texts(seen@) =~= crate::text::texts(before).push(
                    rows@[i as int].model@,
                ));
            }
        }
        i = i + 1;
    }
    proof {
        assert(rows@.take(rows@.len() as int) =~= rows@);
    }
    seen
}

fn sum_model(rows: &Vec<TokenUsageRow>, model: &str) -> (m: ModelTokenSummary)
    requires
        input_sum(rows@) + output_sum(rows@) <= u64::MAX,
    ensures
        sums_up(m, rows@, model@),
{
    let mut input: u64 = 0;
    let mut output: u64 = 0;
    let mut runs: u64 = 0;
    let mut i: usize = 0;
    while i < rows.len()
        invariant
            i <= rows.len(),
            input_sum(rows@) + output_sum(rows@) <= u64::MAX,
            runs <= i,
            input == input_sum(rows_of(rows@.take(i as int), model@)),
            output == output_sum(rows_of(rows@.take(i as int), model@)),
            runs == rows_of(rows@.take(i as int), model@).len(),
        decreases rows.len() - i,
    {
        let ghost prefix = rows@.take(i + 1);
        proof {
            assert(prefix.drop_last() =~= rows@.take(i as int));
            let kept = rows_of(rows@.take(i as int), model@);
            assert(kept.push(rows@[i as int]).drop_last() =~= kept);
            lemma_rows_of_bounds(prefix, model@);
            lemma_sums_grow(rows@, i + 1);
        }
        if text_eq(rows[i].model.as_str(), model) {
            input = input + rows[i].input_tokens;
            output = output + rows[i].output_tokens;
            runs = runs + 1;
        }
        i = i + 1;
    }
    proof {
        assert(rows@.take(rows@.len() as int) =~= rows@);
        lemma_rows_of_bounds(rows@, model@);
    }
    ModelTokenSummary {
        model: model.to_owned(),
        input_tokens: input,
        output_tokens: output,
        total_tokens: input + output,
        executions: runs,
    }
}

fn sum_rows(rows: &Vec<TokenUsageRow>) -> (r: (u64, u64))
    requires
        input_sum(rows@) + output_sum(rows@) <= u64::MAX,
    ensures
        r.0 == input_sum(rows@),
        r.1 == output_sum(rows@),
{
    let mut input: u64 = 0;
    let mut output: u64 = 0;
    let mut i: usize = 0;
    while i < rows.len()
        invariant
            i <= rows.len(),
            input_sum(rows@) + output_sum(rows@) <= u64::MAX,
            input == input_sum(rows@.take(i as int)),
            output == output_sum(rows@.take(i as int)),
        decreases rows.len() - i,
    {
        proof {
            assert(rows@.take(i + 1).drop_last() =~= rows@.take(i as int));
            lemma_sums_grow(rows@, i + 1);
        }
        input = input + rows[i].input_tokens;
        output = output + rows[i].output_tokens;
        i = i + 1;
    }
    proof {
        assert(rows@.take(rows@.len() as int) =~= rows@);
    }
    (input, output)
}

fn break_down(rows: &Vec<TokenUsageRow>) -> (r: Vec<ModelTokenSummary>)
    requires
        input_sum(rows@) + output_sum(rows@) <= u64::MAX,
    ensures
        breaks_down(r@, rows@),
{
    let names = distinct_models(rows);
    let mut totals: Vec<u64> = Vec::new();
    let mut k: usize = 0;
    while k < names.len()
        invariant
            k <= names.len(),
            input_sum(rows@) + output_sum(rows@) <= u64::MAX,
            totals.len() == k,
            forall|j: int| 0 <= j < k ==> totals@[j] == model_total(rows@, names@[j]@),
        decreases names.len() - k,
    {
        let m = sum_model(rows, names[k].as_str());
        totals.push(m.total_tokens);
        k = k + 1;
    }
    let p = order_largest_first(&totals);
    let mut out: Vec<ModelTokenSummary> = Vec::new();
    let mut i: usize = 0;
    while i < p.len()
        invariant
            i <= p.len(),
            input_sum(rows@) + output_sum(rows@) <= u64::MAX,
            is_order(p@, names.len() as nat),
            out.len() == i,
            forall|j: int| 0 <= j < i ==> sums_up(#[trigger] out@[j], rows@, names@[p@[j] as int]@),
        decreases p.len() - i,
    {
        out.push(sum_model(rows, names[p[i]].as_str()));
        i = i + 1;
    }
    proof {
        assert forall|a: int| 0 <= a < p@.len() implies sums_up(
            #[trigger] out@[a],
            rows@,
            models(rows@)[p@[a] as int],
        ) by {
            assert(crate::text::texts(names@)[p@[a] as int] == names@[p@[a] as int]@);
        }
        assert forall|a: int, b: int| 0 <= a < b < p@.len() implies (
        #[trigger] out@[a]).total_tokens > (#[trigger] out@[b]).total_tokens || (
        out@[a].total_tokens == out@[b].total_tokens && p@[a] < p@[b]) by {
            assert(totals@[p@[a] as int] == out@[a].total_tokens);
            assert(totals@[p@[b] as int] == out@[b].total_tokens);
        }
        assert(breaks_down_by(out@, rows@, p@));
    }
    out
}

/// `t` sums up the usage rows of a workspace.
pub open spec fn sums_up_usage(t: TokenUsageSummary, rows: Seq<TokenUsageRow>) -> bool {
    &&& t.total_input == input_sum(rows)
    &&& t.total_output == output_sum(rows)
    &&& t.total_tokens == input_sum(rows) + output_sum(rows)
    &&& t.executions == rows.len()
    &&& breaks_down(t.by_model@, rows)
}

/// Aggregates token usage rows into a summary for a workspace; there is none
/// where the rows could not be read or where there are none.
pub fn gather_workspace_token_usage(rows: &Option<Vec<TokenUsageRow>>) -> (r: Option<
    TokenUsageSummary,
>)
    requires
        rows matches Some(v) ==> input_sum(v@) + output_sum(v@) <= u64::MAX,
    ensures
        r is Some <==> rows is Some && rows->0.len() > 0,
        r matches Some(t) ==> sums_up_usage(t, rows->0@),
{
    match rows {
        None => None,
        Some(v) => {
            if v.len() == 0 {
                return None;
            }
            let (total_input, total_output) = sum_rows(v);
            Some(
                TokenUsageSummary {
                    total_input,
                    total_output,
                    total_tokens: total_input + total_output,
                    executions: v.len() as u64,
                    by_model: break_down(v),
                },
            )
        },
    }
}

/// A registered workspace.
#[derive(Debug)]
pub struct WorkspaceRow {
    pub name: String,
    pub config_path: String,
    pub created_at: String,
}

/// The status of one workspace, or the reason why it was not found.
pub fn gather_spec_status(
    found: Result<WorkspaceRow, String>,
    items: &Vec<QueueItem>,
    usage: &Option<Vec<TokenUsageRow>>,
) -> (r: Result<SpecStatus, String>)
    requires
        items.len() <= u32::MAX,
        usage matches Some(v) ==> input_sum(v@) + output_sum(v@) <= u64::MAX,
    ensures
        r is Ok <==> found is Ok,
        found matches Err(e) ==> r == Err::<SpecStatus, String>(e),
        r matches Ok(s) ==> {
            &&& s.workspace == found->Ok_0.name
            &&& s.config_path == found->Ok_0.config_path
            &&& s.item_count == items.len()
            &&& counted(s.phase_counts@) == tally(items@, 8)
            &&& (s.token_usage is Some <==> usage is Some && usage->0.len() > 0)
            &&& s.token_usage matches Some(t) ==> sums_up_usage(t, usage->0@)
        },
{
    match found {
        Err(e) => Err(e),
        Ok(row) => {
            Ok(
                SpecStatus {
                    workspace: row.name,
                    config_path: row.config_path,
                    item_count: items.len() as u32,
                    phase_counts: tally_phases(items),
                    token_usage: gather_workspace_token_usage(usage),
                },
            )
        },
    }
}

// ---------------------------------------------------------------------------
// Laws on counts and sums
// ---------------------------------------------------------------------------

/// Counts are added one by one.
pub proof fn law_counts_add_up(a: Seq<PhaseCount>, b: Seq<PhaseCount>, c: PhaseCount)
    ensures
        sum_counts(a + b) == sum_counts(a) + sum_counts(b),
        sum_counts(seq![c]) == c.count,
    decreases b.len(),
{
    assert(seq![c].drop_last() =~= seq![]);
    assert(sum_counts(seq![c].drop_last()) == 0);
    if b.len() == 0 {
        assert(a + b =~= a);
    } else {
        law_counts_add_up(a, b.drop_last(), c);
        assert((a + b).drop_last() =~= a + b.drop_last());
    }
}

/// The count of a phase is found by its name, and is zero where there is none.
pub proof fn law_counts_are_found_by_name(s: Seq<PhaseCount>, name: Seq<char>, i: int)
    requires
        0 <= i <= s.len(),
        forall|j: int| 0 <= j < i ==> (#[trigger] s[j]).phase@ != name,
        i < s.len() ==> s[i].phase@ == name,
    ensures
        count_named(s, name) == (if i < s.len() {
            s[i].count
        } else {
            0
        }),
    decreases i,
{
    if i > 0 {
        let rest = s.skip(1);
        assert(s[0].phase@ != name);
        assert forall|j: int| 0 <= j < i - 1 implies (#[trigger] rest[j]).phase@ != name by {
            assert(rest[j] == s[j + 1]);
        }
        law_counts_are_found_by_name(rest, name, i - 1);
    }
}

proof fn lemma_tally_has(items: Seq<QueueItem>, k: nat, j: int)
    requires
        0 <= j < k <= 8,
        items_in(items, phases_by_name()[j]) > 0,
    ensures
        tally(items, k).contains(
            (phases_by_name()[j].name(), items_in(items, phases_by_name()[j])),
        ),
    decreases k,
{
    let p = phases_by_name()[j];
    let entry = (p.name(), items_in(items, p));
    let all = tally(items, k);
    if j < k - 1 {
        lemma_tally_has(items, (k - 1) as nat, j);
        let before = tally(items, (k - 1) as nat);
        let i = choose|i: int| 0 <= i < before.len() && before[i] == entry;
        assert(all[i] == entry);
    } else {
        assert(all[all.len() - 1] == entry);
    }
}

proof fn lemma_tally_counts(items: Seq<QueueItem>, k: nat, i: int)
    requires
        k <= 8,
        0 <= i < tally(items, k).len(),
    ensures
        exists|j: int|
            0 <= j < k && tally(items, k)[i] == (
                (#[trigger] phases_by_name()[j]).name(),
                items_in(items, phases_by_name()[j]),
            ) && items_in(items, phases_by_name()[j]) > 0,
    decreases k,
{
    let before = tally(items, (k - 1) as nat);
    if i < before.len() {
        lemma_tally_counts(items, (k - 1) as nat, i);
        let j = choose|j: int|
            0 <= j < k - 1 && before[i] == (
                (#[trigger] phases_by_name()[j]).name(),
                items_in(items, phases_by_name()[j]),
            ) && items_in(items, phases_by_name()[j]) > 0;
        assert(tally(items, k)[i] == (
            phases_by_name()[j].name(),
            items_in(items, phases_by_name()[j]),
        ));
    } else {
        assert(tally(items, k)[i] == (
            phases_by_name()[k - 1].name(),
            items_in(items, phases_by_name()[k - 1]),
        ));
    }
}

/// A tally says of every phase how many items it has, and leaves out those that
/// have none.
pub proof fn law_tallies_count_every_phase(items: Seq<QueueItem>, p: QueuePhase)
    ensures
        items_in(items, p) > 0 ==> tally(items, 8).contains((p.name(), items_in(items, p))),
        forall|i: int|
            0 <= i < tally(items, 8).len() && (#[trigger] tally(items, 8)[i]).0 == p.name()
                ==> tally(items, 8)[i].1 == items_in(items, p) > 0,
{
    let j: int = match p {
        QueuePhase::Completed => 0,
        QueuePhase::Done => 1,
        QueuePhase::Failed => 2,
        QueuePhase::Hitl => 3,
        QueuePhase::Pending => 4,
        QueuePhase::Ready => 5,
        QueuePhase::Running => 6,
        QueuePhase::Skipped => 7,
    };
    assert(phases_by_name()[j] == p);
    if items_in(items, p) > 0 {
        lemma_tally_has(items, 8, j);
    }
    assert forall|i: int|
        0 <= i < tally(items, 8).len() && (#[trigger] tally(items, 8)[i]).0
            == p.name() implies tally(items, 8)[i].1 == items_in(items, p) > 0 by {
        lemma_tally_counts(items, 8, i);
        let k = choose|k: int|
            0 <= k < 8 && tally(items, 8)[i] == (
                (#[trigger] phases_by_name()[k]).name(),
                items_in(items, phases_by_name()[k]),
            ) && items_in(items, phases_by_name()[k]) > 0;
        law_phases_have_names_of_their_own(p, phases_by_name()[k]);
    }
}

/// A summary keeps every field of its item.
pub proof fn law_summaries_keep_their_item(s: ItemSummary, item: QueueItem)
    requires
        summarizes(s, item),
    ensures
        s.work_id@ == item.work_id@,
        s.workspace@ == item.workspace_id@,
        s.state@ == item.state@,
        s.phase@ == item.phase.name(),
        s.updated_at@ == item.updated_at@,
{
}

/// Every item has its summary, in their order.
pub proof fn law_every_item_is_summarized(s: Seq<ItemSummary>, items: Seq<QueueItem>, i: int)
    requires
        summarizes_all(s, items),
        0 <= i < items.len(),
    ensures
        s.len() == items.len(),
        s[i].work_id@ == items[i].work_id@,
        s[i].phase@ == items[i].phase.name(),
{
    assert(summarizes(s[i], items[i]));
}

/// A summary keeps every field of its event; up to ten events are kept.
pub proof fn law_summaries_keep_their_event(s: EventSummary, ev: TransitionEvent)
    requires
        summarizes_event(s, ev),
    ensures
        s.item_id@ == ev.work_id@,
        ev.from_phase matches Some(t) ==> s.from_state@ == t@,
        ev.phase matches Some(t) ==> s.to_state@ == t@,
        s.event_type@ == ev.event_type@,
        s.timestamp@ == ev.created_at@,
        RECENT_EVENTS == 10,
{
}

/// Workspaces are shown in turn, and those without items are left out.
pub proof fn law_workspaces_with_items_are_kept(
    a: Seq<WorkspaceItems>,
    b: Seq<WorkspaceItems>,
    w: WorkspaceItems,
)
    ensures
        occupied(a + b) == occupied(a) + occupied(b),
        w.items.len() > 0 ==> occupied(seq![w]) == seq![w],
        w.items.len() == 0 ==> occupied(seq![w]).len() == 0,
    decreases b.len(),
{
    assert(seq![w].drop_last() =~= seq![]);
    assert(occupied(seq![w].drop_last()).len() == 0);
    if w.items.len() > 0 {
        assert(occupied(seq![w]) =~= seq![w]);
    }
    if b.len() == 0 {
        assert(a + b =~= a);
        assert(occupied(a) + occupied(b) =~= occupied(a));
    } else {
        law_workspaces_with_items_are_kept(a, b.drop_last(), w);
        assert((a + b).drop_last() =~= a + b.drop_last());
        assert(occupied(a + b) =~= occupied(a) + occupied(b));
    }
}

/// A summary of a workspace is of that workspace and counts all its items.
pub proof fn law_workspace_summaries_count_their_items(s: WorkspaceSummary, ws: WorkspaceItems)
    requires
        summarizes_workspace(s, ws),
    ensures
        s.workspace@ == ws.name@,
        s.total == ws.items.len(),
        tally_sum(counted(s.phase_counts@)) == ws.items.len(),
{
    law_tally_counts_every_item(ws.items@);
}

/// Tokens are added row by row.
pub proof fn law_tokens_add_up(a: Seq<TokenUsageRow>, b: Seq<TokenUsageRow>, r: TokenUsageRow)
    ensures
        input_sum(a + b) == input_sum(a) + input_sum(b),
        output_sum(a + b) == output_sum(a) + output_sum(b),
        input_sum(seq![r]) == r.input_tokens,
        output_sum(seq![r]) == r.output_tokens,
    decreases b.len(),
{
    assert(seq![r].drop_last() =~= seq![]);
    assert(input_sum(seq![r].drop_last()) == 0);
    assert(output_sum(seq![r].drop_last()) == 0);
    if b.len() == 0 {
        assert(a + b =~= a);
    } else {
        law_tokens_add_up(a, b.drop_last(), r);
        assert((a + b).drop_last() =~= a + b.drop_last());
    }
}

/// The rows of a model are those with its name, in their order.
pub proof fn law_rows_belong_to_their_model(
    a: Seq<TokenUsageRow>,
    b: Seq<TokenUsageRow>,
    r: TokenUsageRow,
    model: Seq<char>,
)
    ensures
        rows_of(a + b, model) == rows_of(a, model) + rows_of(b, model),
        r.model@ == model ==> rows_of(seq![r], model) == seq![r],
        r.model@ != model ==> rows_of(seq![r], model).len() == 0,
    decreases b.len(),
{
    assert(seq![r].drop_last() =~= seq![]);
    assert(rows_of(seq![r].drop_last(), model).len() == 0);
    if r.model@ == model {
        assert(rows_of(seq![r], model) =~= seq![r]);
    }
    if b.len() == 0 {
        assert(a + b =~= a);
        assert(rows_of(a, model) + rows_of(b, model) =~= rows_of(a, model));
    } else {
        law_rows_belong_to_their_model(a, b.drop_last(), r, model);
        assert((a + b).drop_last() =~= a + b.drop_last());
        assert(rows_of(a + b, model) =~= rows_of(a, model) + rows_of(b, model));
    }
}

/// Every model that was used is named once, and no other.
pub proof fn law_every_model_is_named_once(rows: Seq<TokenUsageRow>)
    ensures
        models(rows).no_duplicates(),
        forall|i: int| 0 <= i < rows.len() ==> models(rows).contains((#[trigger] rows[i]).model@),
        forall|k: int|
            0 <= k < models(rows).len() ==> exists|i: int|
                0 <= i < rows.len() && (#[trigger] rows[i]).model@ == #[trigger] models(rows)[k],
    decreases rows.len(),
{
    if rows.len() > 0 {
        let t = rows.drop_last();
        let before = models(t);
        let all = models(rows);
        law_every_model_is_named_once(t);
        let last = rows.last().model@;
        if !before.contains(last) {
            assert(all[before.len() as int] == last);
            assert forall|i: int, j: int| 0 <= i < j < all.len() implies all[i] != all[j] by {
                if j == before.len() {
                    assert(before.contains(before[i]));
                }
            }
        }
        assert forall|i: int| 0 <= i < rows.len() implies all.contains(
            (#[trigger] rows[i]).model@,
        ) by {
            if i < t.len() {
                assert(t[i] == rows[i]);
                let k = choose|k: int| 0 <= k < before.len() && before[k] == t[i].model@;
                assert(all[k] == rows[i].model@);
            }
        }
        assert forall|k: int| 0 <= k < all.len() implies exists|i: int|
            0 <= i < rows.len() && (#[trigger] rows[i]).model@ == #[trigger] all[k] by {
            if k < before.len() {
                let i = choose|i: int| 0 <= i < t.len() && (#[trigger] t[i]).model@ == before[k];
                assert(rows[i].model@ == all[k]);
            } else {
                assert(rows[rows.len() - 1].model@ == all[k]);
            }
        }
    }
}

/// The breakdown has one entry for every model, and the largest comes first.
pub proof fn law_every_model_is_in_the_breakdown(
    list: Seq<ModelTokenSummary>,
    rows: Seq<TokenUsageRow>,
    i: int,
    j: int,
)
    requires
        breaks_down(list, rows),
        0 <= i < j < list.len(),
    ensures
        list.len() == models(rows).len(),
        list[i].total_tokens >= list[j].total_tokens,
        list[i].model@ != list[j].model@,
        list[i].total_tokens == list[i].input_tokens + list[i].output_tokens,
        list[i].executions == rows_of(rows, list[i].model@).len(),
{
    let p = choose|p: Seq<usize>| #[trigger] breaks_down_by(list, rows, p);
    law_every_model_is_named_once(rows);
    assert(p[i] != p[j]);
    assert(sums_up(list[i], rows, models(rows)[p[i] as int]));
    assert(sums_up(list[j], rows, models(rows)[p[j] as int]));
}

/// The usage of a workspace is the sum over all its rows, whatever their model.
pub proof fn law_usage_is_the_sum_of_all_rows(t: TokenUsageSummary, rows: Seq<TokenUsageRow>)
    requires
        sums_up_usage(t, rows),
    ensures
        t.total_input == input_sum(rows),
        t.total_output == output_sum(rows),
        t.total_tokens == t.total_input + t.total_output,
        t.executions == rows.len(),
        t.by_model.len() == models(rows).len(),
{
    let p = choose|p: Seq<usize>| #[trigger] breaks_down_by(t.by_model@, rows, p);
}

/// A list of counts keeps their number, their order, their names and their values.
pub proof fn law_lists_of_counts_keep_their_order(s: Seq<PhaseCount>, i: int)
    requires
        0 <= i < s.len(),
    ensures
        counted(s).len() == s.len(),
        counted(s)[i].0 == s[i].phase@,
        counted(s)[i].1 == s[i].count,
{
}

} // verus!
