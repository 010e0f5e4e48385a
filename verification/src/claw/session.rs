//! The interactive session: its banners, its conversation, and its steps.
//!
//! A session reads lines, dispatches slash commands, and forwards free-form
//! text to an agent. It keeps the history of the conversation and the number of
//! tokens that the agent used.

use vstd::prelude::*;

use crate::claw::slash::answer;
use crate::claw::slash::command_in;
use crate::claw::slash::fetch_view;
use crate::claw::slash::law_fetching_matters_for_specs_alone;
use crate::claw::slash::requested_spec;
use crate::claw::slash::spec_request;
use crate::claw::slash::FetchView;
use crate::claw::slash::FetchedSpec;
use crate::claw::slash::SlashCommand;
use crate::claw::slash::SlashDispatcher;
use crate::claw::slash::SlashView;
use crate::order::lemma_text_lt_irreflexive;
use crate::order::lemma_text_lt_total;
use crate::order::lemma_text_lt_transitive;
use crate::order::text_less;
use crate::order::text_lt;
use crate::pieces::group_holds;
use crate::pieces::holds;
use crate::queue::QueueItem;
use crate::queue::QueuePhase;
use crate::scan::all_white;
use crate::scan::join;
use crate::scan::joined;
use crate::scan::law_a_joined_text_holds_its_parts;
use crate::scan::law_trimming_is_idempotent;
use crate::scan::law_trimming_takes_blanks_alone;
use crate::scan::trim;
use crate::scan::trimmed;
use crate::specs::Spec;
use crate::specs::SpecState;
use crate::status::count_for;
use crate::status::count_named;
use crate::status::sum_counts;
use crate::status::total_count;
use crate::status::PhaseCount;
use crate::text::cat2;
use crate::text::cat3;
use crate::text::cat5;
use crate::text::chars_of;
use crate::text::dec;
use crate::text::dec_int;
use crate::text::dec_i64;
use crate::text::dec_u32;
use crate::text::dec_u64;
use crate::text::dec_usize;
use crate::text::opt_text;
use crate::text::pad_right;
use crate::text::padded_right;
use crate::text::text_eq;
use crate::text::text_or;
use crate::text::texts;
use crate::text::unwrap_text;

verus! {

// ---------------------------------------------------------------------------
// Status
// ---------------------------------------------------------------------------

/// Summary of system status, displayed as a banner when a session starts.
#[derive(Debug)]
pub struct StatusSummary {
    /// Total queue items across all phases.
    pub total_items: u32,
    /// Queue item counts grouped by phase name.
    pub phase_counts: Vec<PhaseCount>,
    /// Number of items currently in the HITL phase.
    pub hitl_pending: u32,
    /// Most recent transition events (up to 5).
    pub recent_events: Vec<RecentEvent>,
    /// HITL items grouped by escalation reason for display on claw entry.
    pub hitl_items: Vec<HitlItemSummary>,
}

/// Brief summary of a HITL queue item for display.
#[derive(Debug, Clone)]
pub struct HitlItemSummary {
    /// The queue item work_id.
    pub work_id: String,
    /// Workspace the item belongs to.
    pub workspace: String,
    /// Escalation reason (hitl_reason field), or "other" if unset.
    pub reason: String,
    /// Item title if available.
    pub title: Option<String>,
}

/// A brief description of a recent transition event.
#[derive(Debug, Clone)]
pub struct RecentEvent {
    /// The queue item identifier.
    pub item_id: String,
    /// Phase/state the item transitioned from.
    pub from_state: String,
    /// Phase/state the item transitioned to.
    pub to_state: String,
    /// When the transition occurred (RFC 3339).
    pub timestamp: String,
}

/// Per-workspace statistics displayed alongside the system-wide status banner.
#[derive(Debug)]
pub struct WorkspaceStats {
    /// Name of the workspace these stats belong to.
    pub workspace_name: String,
    /// Number of specs in `active` status.
    pub active_spec_count: u32,
    /// Number of specs in `completing` status.
    pub completing_count: u32,
    /// Number of specs in `completed` status.
    pub completed_count: u32,
    /// Number of queue items in `pending` phase for this workspace.
    pub pending_items_count: u32,
    /// Number of queue items in `running` phase for this workspace.
    pub running_items_count: u32,
    /// Recent HITL events scoped to this workspace (up to 5).
    pub recent_hitl_events: Vec<RecentEvent>,
}

impl Default for StatusSummary {
    fn default() -> (r: StatusSummary)
        ensures
            r.total_items == 0,
            r.phase_counts.len() == 0,
            r.hitl_pending == 0,
            r.recent_events.len() == 0,
            r.hitl_items.len() == 0,
    {
        StatusSummary {
            total_items: 0,
            phase_counts: Vec::new(),
            hitl_pending: 0,
            recent_events: Vec::new(),
            hitl_items: Vec::new(),
        }
    }
}

impl Default for WorkspaceStats {
    fn default() -> (r: WorkspaceStats)
        ensures
            r.workspace_name@.len() == 0,
            r.active_spec_count == 0,
            r.completing_count == 0,
            r.completed_count == 0,
            r.pending_items_count == 0,
            r.running_items_count == 0,
            r.recent_hitl_events.len() == 0,
    {
        WorkspaceStats {
            workspace_name: String::new(),
            active_spec_count: 0,
            completing_count: 0,
            completed_count: 0,
            pending_items_count: 0,
            running_items_count: 0,
            recent_hitl_events: Vec::new(),
        }
    }
}

/// `s` summarizes an item that awaits a human.
pub open spec fn summarizes_hitl(s: HitlItemSummary, item: QueueItem) -> bool {
    &&& s.work_id@ == item.work_id@
    &&& s.workspace@ == item.workspace_id@
    &&& s.reason@ == text_or(item.hitl_reason_name, "other"@)
    &&& opt_text(s.title) == opt_text(item.title)
}

fn summarize_hitl(item: &QueueItem) -> (r: HitlItemSummary)
    ensures
        summarizes_hitl(r, *item),
{
    HitlItemSummary {
        work_id: item.work_id.clone(),
        workspace: item.workspace_id.clone(),
        reason: unwrap_text(&item.hitl_reason_name, "other"),
        title: item.title.clone(),
    }
}

/// Collects the system status from what the queue holds.
///
/// `counts` are the numbers of items by phase, `events` the transition events
/// from the most recent one on, of which five are kept, and `hitl` the items that
/// await a human. Returns `None` where the counts or the events could not be read.
pub fn collect_status(
    counts: Option<Vec<PhaseCount>>,
    events: Option<Vec<RecentEvent>>,
    hitl: &Vec<QueueItem>,
) -> (r: Option<StatusSummary>)
    requires
        counts matches Some(c) ==> sum_counts(c@) <= u32::MAX,
    ensures
        r is Some <==> counts is Some && events is Some,
        r matches Some(s) ==> {
            &&& s.phase_counts == counts.unwrap()
            &&& s.recent_events@ == first_five(events.unwrap()@)
            &&& s.recent_events.len() <= 5
            &&& s.total_items == sum_counts(counts.unwrap()@)
            &&& s.hitl_pending == count_named(counts.unwrap()@, "hitl"@)
            &&& s.hitl_items.len() == hitl.len()
            &&& forall|i: int|
                0 <= i < hitl.len() ==> summarizes_hitl(#[trigger] s.hitl_items@[i], hitl@[i])
        },
{
    let phase_counts = match counts {
        Some(c) => c,
        None => {
            return None;
        },
    };
    let mut recent_events = match events {
        Some(e) => e,
        None => {
            return None;
        },
    };
    recent_events.truncate(5);
    proof {
        assert(recent_events@ =~= first_five(events.unwrap()@));
    }
    let total_items: u32 = total_count(&phase_counts);
    let hitl_pending: u32 = count_for(&phase_counts, "hitl");
    let mut hitl_items: Vec<HitlItemSummary> = Vec::new();
    let mut i: usize = 0;
    while i < hitl.len()
        invariant
            i <= hitl.len(),
            hitl_items.len() == i,
            forall|k: int|
                0 <= k < i ==> summarizes_hitl(#[trigger] hitl_items@[k], hitl@[k]),
        decreases hitl.len() - i,
    {
        hitl_items.push(summarize_hitl(&hitl[i]));
        i = i + 1;
    }
    Some(StatusSummary { total_items, phase_counts, hitl_pending, recent_events, hitl_items })
}

/// Of the specs those of the workspace `ws` in the state `s`.
pub open spec fn own_specs_in(specs: Seq<Spec>, ws: Seq<char>, s: SpecState) -> nat
    decreases specs.len(),
{
    if specs.len() == 0 {
        0
    } else {
        own_specs_in(specs.drop_last(), ws, s) + (if specs.last().workspace_id@ == ws
            && specs.last().status == s {
            1nat
        } else {
            0nat
        })
    }
}

/// Of the items those of the workspace `ws` in the phase `p`.
pub open spec fn own_items_in(items: Seq<QueueItem>, ws: Seq<char>, p: QueuePhase) -> nat
    decreases items.len(),
{
    if items.len() == 0 {
        0
    } else {
        own_items_in(items.drop_last(), ws, p) + (if items.last().workspace_id@ == ws
            && items.last().phase == p {
            1nat
        } else {
            0nat
        })
    }
}

fn count_own_specs(specs: &Vec<Spec>, ws: &str, s: SpecState) -> (r: usize)
    ensures
        r == own_specs_in(specs@, ws@, s),
        r <= specs.len(),
{
    let mut n: usize = 0;
    let mut i: usize = 0;
    while i < specs.len()
        invariant
            i <= specs.len(),
            n <= i,
            n == own_specs_in(specs@.take(i as int), ws@, s),
        decreases specs.len() - i,
    {
        proof {
            assert(specs@.take(i + 1).drop_last() =~= specs@.take(i as int));
        }
        if text_eq(specs[i].workspace_id.as_str(), ws) && specs[i].status == s {
            n = n + 1;
        }
        i = i + 1;
    }
    proof {
        assert(specs@.take(specs@.len() as int) =~= specs@);
    }
    n
}

fn count_own_items(items: &Vec<QueueItem>, ws: &str, p: QueuePhase) -> (r: usize)
    ensures
        r == own_items_in(items@, ws@, p),
        r <= items.len(),
{
    let mut n: usize = 0;
    let mut i: usize = 0;
    while i < items.len()
        invariant
            i <= items.len(),
            n <= i,
            n == own_items_in(items@.take(i as int), ws@, p),
        decreases items.len() - i,
    {
        proof {
            assert(items@.take(i + 1).drop_last() =~= items@.take(i as int));
        }
        if text_eq(items[i].workspace_id.as_str(), ws) && items[i].phase == p {
            n = n + 1;
        }
        i = i + 1;
    }
    proof {
        assert(items@.take(items@.len() as int) =~= items@);
    }
    n
}

/// Some item of the workspace `ws` with the id awaits a human.
pub open spec fn awaits_human(items: Seq<QueueItem>, ws: Seq<char>, id: Seq<char>) -> bool {
    exists|i: int|
        0 <= i < items.len() && (#[trigger] items[i]).workspace_id@ == ws && items[i].phase
            == QueuePhase::Hitl && items[i].work_id@ == id
}

/// The event moved an item of the workspace `ws` that awaits a human to that
/// state.
pub open spec fn is_hitl_event(e: RecentEvent, items: Seq<QueueItem>, ws: Seq<char>) -> bool {
    e.to_state@ == "hitl"@ && awaits_human(items, ws, e.item_id@)
}

/// An event, as plain values.
pub open spec fn event_view(e: RecentEvent) -> (Seq<char>, Seq<char>, Seq<char>, Seq<char>) {
    (e.item_id@, e.from_state@, e.to_state@, e.timestamp@)
}

/// The contents of a list of events.
pub open spec fn event_views(v: Seq<RecentEvent>) -> Seq<
    (Seq<char>, Seq<char>, Seq<char>, Seq<char>),
> {
    Seq::new(v.len(), |i: int| event_view(v[i]))
}

/// Of some events those that moved items of the workspace `ws` to a human.
pub open spec fn hitl_events(
    events: Seq<RecentEvent>,
    items: Seq<QueueItem>,
    ws: Seq<char>,
) -> Seq<RecentEvent>
    decreases events.len(),
{
    if events.len() == 0 {
        seq![]
    } else if is_hitl_event(events.last(), items, ws) {
        hitl_events(events.drop_last(), items, ws).push(events.last())
    } else {
        hitl_events(events.drop_last(), items, ws)
    }
}

/// The first five elements, or all where there are fewer.
pub open spec fn first_five(v: Seq<RecentEvent>) -> Seq<RecentEvent> {
    if v.len() <= 5 {
        v
    } else {
        v.take(5)
    }
}

fn item_awaits_human(items: &Vec<QueueItem>, ws: &str, id: &str) -> (r: bool)
    ensures
        r == awaits_human(items@, ws@, id@),
{
    let mut i: usize = 0;
    while i < items.len()
        invariant
            i <= items.len(),
            forall|k: int|
                0 <= k < i ==> !((#[trigger] items@[k]).workspace_id@ == ws@ && items@[k].phase
                    == QueuePhase::Hitl && items@[k].work_id@ == id@),
        decreases items.len() - i,
    {
        if text_eq(items[i].workspace_id.as_str(), ws) && items[i].phase == QueuePhase::Hitl
            && text_eq(items[i].work_id.as_str(), id) {
            return true;
        }
        i = i + 1;
    }
    false
}

fn copy_event(e: &RecentEvent) -> (r: RecentEvent)
    ensures
        event_view(r) == event_view(*e),
{
    RecentEvent {
        item_id: e.item_id.clone(),
        from_state: e.from_state.clone(),
        to_state: e.to_state.clone(),
        timestamp: e.timestamp.clone(),
    }
}

proof fn lemma_hitl_events_grow(
    events: Seq<RecentEvent>,
    items: Seq<QueueItem>,
    ws: Seq<char>,
    n: int,
)
    requires
        0 <= n <= events.len(),
    ensures
        hitl_events(events.take(n), items, ws).len() <= hitl_events(events, items, ws).len(),
        hitl_events(events, items, ws).take(hitl_events(events.take(n), items, ws).len() as int)
            == hitl_events(events.take(n), items, ws),
    decreases events.len(),
{
    if n < events.len() {
        let shorter = events.drop_last();
        lemma_hitl_events_grow(shorter, items, ws, n);
        assert(shorter.take(n) =~= events.take(n));
        let k = hitl_events(events.take(n), items, ws).len() as int;
        assert(hitl_events(events, items, ws).take(k) =~= hitl_events(shorter, items, ws).take(k));
    } else {
        assert(events.take(n) =~= events);
        assert(hitl_events(events, items, ws).take(hitl_events(events, items, ws).len() as int)
            =~= hitl_events(events, items, ws));
    }
}

fn recent_hitl_events(events: &Vec<RecentEvent>, items: &Vec<QueueItem>, ws: &str) -> (r: Vec<
    RecentEvent,
>)
    ensures
        event_views(r@) == event_views(first_five(hitl_events(events@, items@, ws@))),
{
    let mut out: Vec<RecentEvent> = Vec::new();
    let mut i: usize = 0;
    proof {
        assert(event_views(out@) =~= event_views(hitl_events(events@.take(0), items@, ws@)));
    }
    while i < events.len() && out.len() < 5
        invariant
            i <= events.len(),
            out.len() <= 5,
            event_views(out@) == event_views(hitl_events(events@.take(i as int), items@, ws@)),
        decreases events.len() - i,
    {
        let ghost before = out@;
        let ghost kept = hitl_events(events@.take(i as int), items@, ws@);
        proof {
            assert(events@.take(i + 1).drop_last() =~= events@.take(i as int));
            assert(event_views(out@).len() == event_views(kept).len());
        }
        let e = &events[i];
        if text_eq(e.to_state.as_str(), "hitl") && item_awaits_human(items, ws, e.item_id.as_str()) {
            out.push(copy_event(e));
            proof {
                assert(event_views(out@) =~= event_views(before).push(event_view(*e)));
                assert(event_views(kept.push(*e)) =~= event_views(kept).push(event_view(*e)));
            }
        }
        i = i + 1;
    }
    proof {
        let kept = hitl_events(events@.take(i as int), items@, ws@);
        let all = hitl_events(events@, items@, ws@);
        assert(event_views(out@).len() == event_views(kept).len());
        lemma_hitl_events_grow(events@, items@, ws@, i as int);
        if i == events.len() {
            assert(events@.take(i as int) =~= events@);
        } else {
            assert(kept.len() == 5);
        }
        assert(first_five(all) =~= kept);
    }
    out
}

/// The numbers in the statistics of a workspace.
pub ghost struct StatsCounts {
    pub active: nat,
    pub completing: nat,
    pub completed: nat,
    pub pending: nat,
    pub running: nat,
}

/// The numbers of the specs and items of the workspace `ws`.
pub open spec fn counts_of(
    specs: Seq<Spec>,
    items: Seq<QueueItem>,
    ws: Seq<char>,
) -> StatsCounts {
    StatsCounts {
        active: own_specs_in(specs, ws, SpecState::Active),
        completing: own_specs_in(specs, ws, SpecState::Completing),
        completed: own_specs_in(specs, ws, SpecState::Completed),
        pending: own_items_in(items, ws, QueuePhase::Pending),
        running: own_items_in(items, ws, QueuePhase::Running),
    }
}

impl WorkspaceStats {
    /// The numbers in the statistics.
    pub open spec fn counts(self) -> StatsCounts {
        StatsCounts {
            active: self.active_spec_count as nat,
            completing: self.completing_count as nat,
            completed: self.completed_count as nat,
            pending: self.pending_items_count as nat,
            running: self.running_items_count as nat,
        }
    }
}

/// Collects the statistics of a workspace.
///
/// `specs` and `items` hold those of the workspace; those of other workspaces
/// are not counted. `events` are the recent transition events. Each is `None`
/// where it could not be read. Returns `None` if no workspace is given, or the
/// specs or items could not be read, or items of the workspace await a human and
/// the events could not be read.
pub fn collect_workspace_stats(
    workspace: Option<&str>,
    specs: &Option<Vec<Spec>>,
    items: &Option<Vec<QueueItem>>,
    events: &Option<Vec<RecentEvent>>,
) -> (r: Option<WorkspaceStats>)
    requires
        specs matches Some(s) ==> s.len() <= u32::MAX,
        items matches Some(s) ==> s.len() <= u32::MAX,
    ensures
        r is Some <==> workspace is Some && specs is Some && items is Some && (own_items_in(
            items.unwrap()@,
            workspace.unwrap()@,
            QueuePhase::Hitl,
        ) == 0 || events is Some),
        r matches Some(s) ==> {
            &&& s.workspace_name@ == workspace.unwrap()@
            &&& s.counts() == counts_of(specs.unwrap()@, items.unwrap()@, workspace.unwrap()@)
            &&& event_views(s.recent_hitl_events@) == event_views(
                if own_items_in(items.unwrap()@, workspace.unwrap()@, QueuePhase::Hitl) == 0 {
                    seq![]
                } else {
                    first_five(
                        hitl_events(events.unwrap()@, items.unwrap()@, workspace.unwrap()@),
                    )
                },
            )
        },
{
    let name = match workspace {
        Some(w) => w,
        None => {
            return None;
        },
    };
    let spec_list = match specs {
        Some(s) => s,
        None => {
            return None;
        },
    };
    let item_list = match items {
        Some(s) => s,
        None => {
            return None;
        },
    };
    let mut recent: Vec<RecentEvent> = Vec::new();
    if count_own_items(item_list, name, QueuePhase::Hitl) > 0 {
        match events {
            Some(list) => {
                recent = recent_hitl_events(list, item_list, name);
            },
            None => {
                return None;
            },
        }
    } else {
        proof {
            assert(event_views(recent@) =~= event_views(seq![]));
        }
    }
    Some(
        WorkspaceStats {
            workspace_name: name.to_owned(),
            active_spec_count: count_own_specs(spec_list, name, SpecState::Active) as u32,
            completing_count: count_own_specs(spec_list, name, SpecState::Completing) as u32,
            completed_count: count_own_specs(spec_list, name, SpecState::Completed) as u32,
            pending_items_count: count_own_items(item_list, name, QueuePhase::Pending) as u32,
            running_items_count: count_own_items(item_list, name, QueuePhase::Running) as u32,
            recent_hitl_events: recent,
        },
    )
}

/// `large` holds the elements of `small` in their order, and between them any
/// number of others that are not `own`.
pub open spec fn adds_others<T>(small: Seq<T>, large: Seq<T>, own: spec_fn(T) -> bool) -> bool
    decreases large.len(),
{
    if large.len() == 0 {
        small.len() == 0
    } else {
        ||| !own(large.last()) && adds_others(small, large.drop_last(), own)
        ||| small.len() > 0 && small.last() == large.last() && adds_others(
            small.drop_last(),
            large.drop_last(),
            own,
        )
    }
}

proof fn lemma_other_specs_do_not_count(
    small: Seq<Spec>,
    large: Seq<Spec>,
    ws: Seq<char>,
    s: SpecState,
)
    requires
        adds_others(small, large, |x: Spec| x.workspace_id@ == ws),
    ensures
        own_specs_in(small, ws, s) == own_specs_in(large, ws, s),
    decreases large.len(),
{
    let own = |x: Spec| x.workspace_id@ == ws;
    if large.len() > 0 {
        if !own(large.last()) && adds_others(small, large.drop_last(), own) {
            lemma_other_specs_do_not_count(small, large.drop_last(), ws, s);
        } else {
            lemma_other_specs_do_not_count(small.drop_last(), large.drop_last(), ws, s);
        }
    }
}

proof fn lemma_other_items_do_not_count(
    small: Seq<QueueItem>,
    large: Seq<QueueItem>,
    ws: Seq<char>,
    p: QueuePhase,
)
    requires
        adds_others(small, large, |x: QueueItem| x.workspace_id@ == ws),
    ensures
        own_items_in(small, ws, p) == own_items_in(large, ws, p),
    decreases large.len(),
{
    let own = |x: QueueItem| x.workspace_id@ == ws;
    if large.len() > 0 {
        if !own(large.last()) && adds_others(small, large.drop_last(), own) {
            lemma_other_items_do_not_count(small, large.drop_last(), ws, p);
        } else {
            lemma_other_items_do_not_count(small.drop_last(), large.drop_last(), ws, p);
        }
    }
}

/// The numbers in the statistics of a workspace depend on its own specs and
/// items alone: however many of other workspaces are added, they stay.
pub proof fn law_stats_count_the_workspace_alone(
    specs: Seq<Spec>,
    more_specs: Seq<Spec>,
    items: Seq<QueueItem>,
    more_items: Seq<QueueItem>,
    ws: Seq<char>,
)
    requires
        adds_others(specs, more_specs, |x: Spec| x.workspace_id@ == ws),
        adds_others(items, more_items, |x: QueueItem| x.workspace_id@ == ws),
    ensures
        counts_of(specs, items, ws) == counts_of(more_specs, more_items, ws),
{
    lemma_other_specs_do_not_count(specs, more_specs, ws, SpecState::Active);
    lemma_other_specs_do_not_count(specs, more_specs, ws, SpecState::Completing);
    lemma_other_specs_do_not_count(specs, more_specs, ws, SpecState::Completed);
    lemma_other_items_do_not_count(items, more_items, ws, QueuePhase::Pending);
    lemma_other_items_do_not_count(items, more_items, ws, QueuePhase::Running);
}

// ---------------------------------------------------------------------------
// Banners
// ---------------------------------------------------------------------------

/// One event.
pub open spec fn event_line(e: RecentEvent) -> Seq<char> {
    "    "@ + e.item_id@ + " : "@ + e.from_state@ + " -> "@ + e.to_state@ + " ("@ + e.timestamp@
        + ")\n"@
}

/// The first `n` events.
pub open spec fn event_lines(v: Seq<RecentEvent>, n: nat) -> Seq<char>
    decreases n,
{
    if n == 0 {
        seq![]
    } else {
        event_lines(v, (n - 1) as nat) + event_line(v[n - 1])
    }
}

/// The events under a title, where there are any.
pub open spec fn event_part(title: Seq<char>, v: Seq<RecentEvent>) -> Seq<char> {
    if v.len() == 0 {
        seq![]
    } else {
        title + event_lines(v, v.len())
    }
}

fn write_event(e: &RecentEvent) -> (r: String)
    ensures
        r@ == event_line(*e),
{
    let mut out = "    ".to_string();
    out.append(e.item_id.as_str());
    out.append(" : ");
    out.append(e.from_state.as_str());
    out.append(" -> ");
    out.append(e.to_state.as_str());
    out.append(" (");
    out.append(e.timestamp.as_str());
    out.append(")\n");
    out
}

fn write_events(title: &str, v: &Vec<RecentEvent>) -> (r: String)
    ensures
        r@ == event_part(title@, v@),
{
    if v.len() == 0 {
        return String::new();
    }
    let mut rows = String::new();
    let mut i: usize = 0;
    while i < v.len()
        invariant
            i <= v.len(),
            rows@ == event_lines(v@, i as nat),
        decreases v.len() - i,
    {
        let row = write_event(&v[i]);
        rows.append(row.as_str());
        i = i + 1;
    }
    cat2(title, rows.as_str())
}

/// The counts by phase, as they are listed.
pub open spec fn count_texts(v: Seq<PhaseCount>) -> Seq<Seq<char>> {
    Seq::new(v.len(), |i: int| v[i].phase@ + "="@ + dec(v[i].count as nat))
}

/// The counts by phase, where there are any.
pub open spec fn phases_line(v: Seq<PhaseCount>) -> Seq<char> {
    if v.len() == 0 {
        seq![]
    } else {
        "  Phases: "@ + join(count_texts(v), ", "@) + "\n"@
    }
}

/// How many items await a human, where any do.
pub open spec fn pending_line(n: u32) -> Seq<char> {
    if n > 0 {
        "  HITL pending: "@ + dec(n as nat) + " (needs human review)\n"@
    } else {
        seq![]
    }
}

fn write_phases(v: &Vec<PhaseCount>) -> (r: String)
    ensures
        r@ == phases_line(v@),
{
    if v.len() == 0 {
        return String::new();
    }
    let mut parts: Vec<String> = Vec::new();
    let mut i: usize = 0;
    while i < v.len()
        invariant
            i <= v.len(),
            parts.len() == i,
            forall|k: int| 0 <= k < i ==> #[trigger] parts@[k]@ == count_texts(v@)[k],
        decreases v.len() - i,
    {
        let count = dec_u32(v[i].count);
        parts.push(cat3(v[i].phase.as_str(), "=", count.as_str()));
        i = i + 1;
    }
    proof {
        assert(texts(parts@) =~= count_texts(v@));
    }
    let list = joined(&parts, ", ");
    cat3("  Phases: ", list.as_str(), "\n")
}

// ---------------------------------------------------------------------------
// Items that await a human
// ---------------------------------------------------------------------------

/// Priority of an escalation reason: a lower value comes first.
pub open spec fn priority_of(reason: Seq<char>) -> u32 {
    if reason == "evaluate_failure"@ {
        0
    } else if reason == "retry_max_exceeded"@ || reason == "timeout"@ {
        1
    } else {
        2
    }
}

/// Priority order for HITL escalation reasons.
///
/// Lower value = higher priority. Reasons not in this list get the lowest
/// priority.
pub fn reason_priority(reason: &str) -> (r: u32)
    ensures
        r == priority_of(reason@),
{
    if text_eq(reason, "evaluate_failure") {
        0
    } else if text_eq(reason, "retry_max_exceeded") || text_eq(reason, "timeout") {
        1
    } else {
        2
    }
}

/// The label of an escalation reason.
pub open spec fn label_of(reason: Seq<char>) -> Seq<char> {
    if reason == "evaluate_failure"@ {
        "Spec Conflict (evaluate_failure)"@
    } else if reason == "retry_max_exceeded"@ {
        "Failure (retry_max_exceeded)"@
    } else if reason == "timeout"@ {
        "Failure (timeout)"@
    } else if reason == "manual_escalation"@ {
        "Other (manual_escalation)"@
    } else {
        "Other"@
    }
}

/// Display label for an escalation reason group.
pub fn reason_display_label(reason: &str) -> (r: &'static str)
    ensures
        r@ == label_of(reason@),
{
    if text_eq(reason, "evaluate_failure") {
        "Spec Conflict (evaluate_failure)"
    } else if text_eq(reason, "retry_max_exceeded") {
        "Failure (retry_max_exceeded)"
    } else if text_eq(reason, "timeout") {
        "Failure (timeout)"
    } else if text_eq(reason, "manual_escalation") {
        "Other (manual_escalation)"
    } else {
        "Other"
    }
}

/// The group of the reason `a` stands before that of `b`: by priority, and
/// within a priority by name.
pub open spec fn group_before(a: Seq<char>, b: Seq<char>) -> bool {
    priority_of(a) < priority_of(b) || (priority_of(a) == priority_of(b) && text_lt(a, b))
}

/// The reasons of `items`, each once, in the order of their groups.
pub open spec fn are_groups(reasons: Seq<Seq<char>>, items: Seq<HitlItemSummary>) -> bool {
    &&& forall|i: int, j: int|
        #![trigger reasons[i], reasons[j]]
        0 <= i < j < reasons.len() ==> group_before(reasons[i], reasons[j])
    &&& forall|i: int|
        0 <= i < items.len() ==> reasons.contains((#[trigger] items[i]).reason@)
    &&& forall|k: int|
        0 <= k < reasons.len() ==> has_reason(items, #[trigger] reasons[k])
}

/// Some item has the reason `r`.
pub open spec fn has_reason(items: Seq<HitlItemSummary>, r: Seq<char>) -> bool {
    exists|i: int| 0 <= i < items.len() && (#[trigger] items[i]).reason@ == r
}

/// One item.
pub open spec fn hitl_line(item: HitlItemSummary) -> Seq<char> {
    "    "@ + pad_right(item.work_id@, 40) + " "@ + pad_right(item.workspace@, 16) + " "@ + text_or(
        item.title,
        "-"@,
    ) + "\n"@
}

/// Of the first `n` items those of a reason.
pub open spec fn group_lines(items: Seq<HitlItemSummary>, reason: Seq<char>, n: nat) -> Seq<char>
    decreases n,
{
    if n == 0 {
        seq![]
    } else if items[n - 1].reason@ == reason {
        group_lines(items, reason, (n - 1) as nat) + hitl_line(items[n - 1])
    } else {
        group_lines(items, reason, (n - 1) as nat)
    }
}

/// The first `n` groups.
pub open spec fn groups_text(items: Seq<HitlItemSummary>, reasons: Seq<Seq<char>>, n: nat) -> Seq<
    char,
>
    decreases n,
{
    if n == 0 {
        seq![]
    } else {
        groups_text(items, reasons, (n - 1) as nat) + ("  ["@ + label_of(reasons[n - 1]) + "]\n"@
            + group_lines(items, reasons[n - 1], items.len()))
    }
}

/// The items that await a human, in the groups `reasons`.
pub open spec fn hitl_text(items: Seq<HitlItemSummary>, reasons: Seq<Seq<char>>) -> Seq<char> {
    "\n--- HITL Items ("@ + dec(items.len()) + " awaiting review) ---\n"@ + groups_text(
        items,
        reasons,
        reasons.len(),
    ) + "---------------------------------------\n"@
}

fn stands_before(a: &str, b: &str) -> (r: bool)
    ensures
        r == group_before(a@, b@),
{
    let p: u32 = reason_priority(a);
    let q: u32 = reason_priority(b);
    p < q || (p == q && text_less(a, b))
}

proof fn lemma_group_before_transitive(a: Seq<char>, b: Seq<char>, c: Seq<char>)
    requires
        group_before(a, b),
        group_before(b, c),
    ensures
        group_before(a, c),
{
    if priority_of(a) == priority_of(b) && priority_of(b) == priority_of(c) {
        lemma_text_lt_transitive(a, b, c);
    }
}

proof fn lemma_group_before_total(a: Seq<char>, b: Seq<char>)
    ensures
        group_before(a, b) || group_before(b, a) || a == b,
{
    lemma_text_lt_total(a, b);
}

/// The groups are determined by the items.
pub proof fn law_groups_are_determined(
    a: Seq<Seq<char>>,
    b: Seq<Seq<char>>,
    items: Seq<HitlItemSummary>,
)
    requires
        are_groups(a, items),
        are_groups(b, items),
    ensures
        a == b,
{
    lemma_same_members(a, b, items);
    lemma_same_members(b, a, items);
    lemma_sorted_alike(a, b);
}

proof fn lemma_same_members(a: Seq<Seq<char>>, b: Seq<Seq<char>>, items: Seq<HitlItemSummary>)
    requires
        are_groups(a, items),
        are_groups(b, items),
    ensures
        forall|k: int| 0 <= k < a.len() ==> b.contains(#[trigger] a[k]),
{
    assert forall|k: int| 0 <= k < a.len() implies b.contains(#[trigger] a[k]) by {
        assert(has_reason(items, a[k]));
        let i = choose|i: int| 0 <= i < items.len() && (#[trigger] items[i]).reason@ == a[k];
        assert(b.contains(items[i].reason@));
    }
}

spec fn in_order(a: Seq<Seq<char>>) -> bool {
    forall|i: int, j: int|
        #![trigger a[i], a[j]]
        0 <= i < j < a.len() ==> group_before(a[i], a[j])
}

proof fn lemma_not_before_itself(a: Seq<char>)
    ensures
        !group_before(a, a),
{
    lemma_text_lt_irreflexive(a);
}

proof fn lemma_sorted_alike(a: Seq<Seq<char>>, b: Seq<Seq<char>>)
    requires
        in_order(a),
        in_order(b),
        forall|k: int| 0 <= k < a.len() ==> b.contains(#[trigger] a[k]),
        forall|k: int| 0 <= k < b.len() ==> a.contains(#[trigger] b[k]),
    ensures
        a == b,
    decreases a.len(),
{
    if a.len() == 0 {
        if b.len() > 0 {
            assert(a.contains(b[0]));
        }
        assert(a =~= b);
    } else {
        assert(b.contains(a[0]));
        let k = choose|k: int| 0 <= k < b.len() && b[k] == a[0];
        assert(a.contains(b[0]));
        let m = choose|m: int| 0 <= m < a.len() && a[m] == b[0];
        if k > 0 && m > 0 {
            assert(group_before(b[0], b[k]));
            assert(group_before(a[0], a[m]));
            lemma_group_before_transitive(a[0], b[0], a[0]);
            lemma_not_before_itself(a[0]);
        }
        assert(a[0] == b[0]);
        let x = a.skip(1);
        let y = b.skip(1);
        lemma_tail_members(a, b);
        lemma_tail_members(b, a);
        assert forall|i: int, j: int|
            #![trigger x[i], x[j]]
            0 <= i < j < x.len() implies group_before(x[i], x[j]) by {
            assert(x[i] == a[i + 1] && x[j] == a[j + 1]);
        }
        assert forall|i: int, j: int|
            #![trigger y[i], y[j]]
            0 <= i < j < y.len() implies group_before(y[i], y[j]) by {
            assert(y[i] == b[i + 1] && y[j] == b[j + 1]);
        }
        lemma_sorted_alike(x, y);
        assert(a =~= seq![a[0]] + x);
        assert(b =~= seq![b[0]] + y);
    }
}

proof fn lemma_tail_members(a: Seq<Seq<char>>, b: Seq<Seq<char>>)
    requires
        a.len() > 0,
        b.len() > 0,
        a[0] == b[0],
        in_order(a),
        forall|k: int| 0 <= k < a.len() ==> b.contains(#[trigger] a[k]),
    ensures
        forall|k: int| 0 <= k < a.skip(1).len() ==> b.skip(1).contains(#[trigger] a.skip(1)[k]),
{
    let x = a.skip(1);
    let y = b.skip(1);
    assert forall|k: int| 0 <= k < x.len() implies y.contains(#[trigger] x[k]) by {
        assert(x[k] == a[k + 1]);
        assert(b.contains(a[k + 1]));
        let m = choose|m: int| 0 <= m < b.len() && b[m] == a[k + 1];
        if m == 0 {
            assert(group_before(a[0], a[k + 1]));
            lemma_not_before_itself(a[0]);
        }
        assert(y[m - 1] == x[k]);
    }
}

fn collect_groups(items: &Vec<HitlItemSummary>) -> (r: Vec<String>)
    ensures
        are_groups(texts(r@), items@),
{
    let mut reasons: Vec<String> = Vec::new();
    let mut i: usize = 0;
    while i < items.len()
        invariant
            i <= items.len(),
            are_groups(texts(reasons@), items@.take(i as int)),
        decreases items.len() - i,
    {
        let ghost rs = texts(reasons@);
        let ghost reason = items@[i as int].reason@;
        let mut at: usize = 0;
        while at < reasons.len() && stands_before(reasons[at].as_str(), items[i].reason.as_str())
            invariant
                i < items.len(),
                at <= reasons.len(),
                rs == texts(reasons@),
                reason == items@[i as int].reason@,
                forall|k: int| 0 <= k < at ==> group_before(#[trigger] rs[k], reason),
            decreases reasons.len() - at,
        {
            at = at + 1;
        }
        let known = at < reasons.len() && text_eq(
            reasons[at].as_str(),
            items[i].reason.as_str(),
        );
        let ghost before = items@.take(i as int);
        let ghost now = items@.take(i + 1);
        if known {
            proof {
                assert(rs[at as int] == reason);
                assert forall|k: int| 0 <= k < now.len() implies rs.contains(
                    (#[trigger] now[k]).reason@,
                ) by {
                    if k < i {
                        assert(now[k] == before[k]);
                    } else {
                        assert(now[k] == items@[i as int]);
                    }
                }
                assert forall|k: int| 0 <= k < rs.len() implies has_reason(now, #[trigger] rs[k]) by {
                    assert(has_reason(before, rs[k]));
                    let m = choose|m: int|
                        0 <= m < before.len() && (#[trigger] before[m]).reason@ == rs[k];
                    assert(now[m] == before[m]);
                }
            }
        } else {
            reasons.insert(at, items[i].reason.clone());
            proof {
                let rn = texts(reasons@);
                assert(rn =~= rs.insert(at as int, reason));
                assert forall|a: int, b: int|
                    #![trigger rn[a], rn[b]]
                    0 <= a < b < rn.len() implies group_before(rn[a], rn[b]) by {
                    let oa = if a < at {
                        a
                    } else {
                        a - 1
                    };
                    let ob = if b < at {
                        b
                    } else {
                        b - 1
                    };
                    if a != at {
                        assert(rn[a] == rs[oa]);
                    }
                    if b != at {
                        assert(rn[b] == rs[ob]);
                    }
                    if a == at {
                        lemma_group_before_total(rs[at as int], reason);
                        if ob > at {
                            assert(group_before(rs[at as int], rs[ob]));
                            lemma_group_before_transitive(reason, rs[at as int], rs[ob]);
                        }
                    }
                }
                assert forall|k: int| 0 <= k < now.len() implies rn.contains(
                    (#[trigger] now[k]).reason@,
                ) by {
                    if k < i {
                        assert(now[k] == before[k]);
                        assert(rs.contains(before[k].reason@));
                        let m = choose|m: int| 0 <= m < rs.len() && rs[m] == before[k].reason@;
                        if m < at {
                            assert(rn[m] == rs[m]);
                        } else {
                            assert(rn[m + 1] == rs[m]);
                        }
                    } else {
                        assert(now[k] == items@[i as int]);
                        assert(rn[at as int] == reason);
                    }
                }
                assert forall|k: int| 0 <= k < rn.len() implies has_reason(now, #[trigger] rn[k]) by {
                    if k == at {
                        assert(now[i as int].reason@ == reason);
                    } else {
                        let ok = if k < at {
                            k
                        } else {
                            k - 1
                        };
                        assert(rn[k] == rs[ok]);
                        assert(has_reason(before, rs[ok]));
                        let m = choose|m: int|
                            0 <= m < before.len() && (#[trigger] before[m]).reason@ == rs[ok];
                        assert(now[m] == before[m]);
                    }
                }
            }
        }
        i = i + 1;
    }
    proof {
        assert(items@.take(items@.len() as int) =~= items@);
    }
    reasons
}

fn write_hitl_item(item: &HitlItemSummary) -> (r: String)
    ensures
        r@ == hitl_line(*item),
{
    let mut out = "    ".to_string();
    let id = padded_right(item.work_id.as_str(), 40);
    out.append(id.as_str());
    out.append(" ");
    let workspace = padded_right(item.workspace.as_str(), 16);
    out.append(workspace.as_str());
    out.append(" ");
    let title = unwrap_text(&item.title, "-");
    out.append(title.as_str());
    out.append("\n");
    out
}

fn write_group(items: &Vec<HitlItemSummary>, reason: &str) -> (r: String)
    ensures
        r@ == "  ["@ + label_of(reason@) + "]\n"@ + group_lines(
            items@,
            reason@,
            items.len() as nat,
        ),
{
    let mut rows = String::new();
    let mut i: usize = 0;
    while i < items.len()
        invariant
            i <= items.len(),
            rows@ == group_lines(items@, reason@, i as nat),
        decreases items.len() - i,
    {
        if text_eq(items[i].reason.as_str(), reason) {
            let row = write_hitl_item(&items[i]);
            rows.append(row.as_str());
        }
        i = i + 1;
    }
    let mut out = cat3("  [", reason_display_label(reason), "]\n");
    out.append(rows.as_str());
    out
}

/// Lists the items that await a human, grouped by escalation reason: by
/// priority, then by the name of the reason; within a group in their order.
pub fn write_hitl_list(items: &Vec<HitlItemSummary>) -> (r: String)
    ensures
        exists|reasons: Seq<Seq<char>>| #[trigger]
            are_groups(reasons, items@) && r@ == hitl_text(items@, reasons),
{
    let reasons = collect_groups(items);
    let ghost rs = texts(reasons@);
    let mut groups = String::new();
    let mut i: usize = 0;
    while i < reasons.len()
        invariant
            i <= reasons.len(),
            rs == texts(reasons@),
            groups@ == groups_text(items@, rs, i as nat),
        decreases reasons.len() - i,
    {
        let group = write_group(items, reasons[i].as_str());
        groups.append(group.as_str());
        i = i + 1;
    }
    let count = dec_usize(items.len());
    let mut out = cat3("\n--- HITL Items (", count.as_str(), " awaiting review) ---\n");
    out.append(groups.as_str());
    out.append("---------------------------------------\n");
    proof {
        assert(are_groups(rs, items@) && out@ == hitl_text(items@, rs));
    }
    out
}

/// The status without the list of items that await a human.
pub open spec fn status_head(s: StatusSummary) -> Seq<char> {
    "--- System Status ---\nQueue: "@ + dec(s.total_items as nat) + " items\n"@ + phases_line(
        s.phase_counts@,
    ) + pending_line(s.hitl_pending) + event_part("  Recent events:\n"@, s.recent_events@)
        + "---------------------\n"@
}

/// The status banner, with the items that await a human in the groups
/// `reasons`.
pub open spec fn status_text(s: StatusSummary, reasons: Seq<Seq<char>>) -> Seq<char> {
    status_head(s) + (if s.hitl_items.len() == 0 {
        seq![]
    } else {
        hitl_text(s.hitl_items@, reasons)
    })
}

/// The status banner.
pub fn write_status_banner(summary: &StatusSummary) -> (r: String)
    ensures
        exists|reasons: Seq<Seq<char>>| #[trigger]
            are_groups(reasons, summary.hitl_items@) && r@ == status_text(*summary, reasons),
{
    let total = dec_u32(summary.total_items);
    let mut out = cat3("--- System Status ---\nQueue: ", total.as_str(), " items\n");
    let phases = write_phases(&summary.phase_counts);
    out.append(phases.as_str());
    let pending = if summary.hitl_pending > 0 {
        let n = dec_u32(summary.hitl_pending);
        cat3("  HITL pending: ", n.as_str(), " (needs human review)\n")
    } else {
        String::new()
    };
    out.append(pending.as_str());
    let events = write_events("  Recent events:\n", &summary.recent_events);
    out.append(events.as_str());
    out.append("---------------------\n");
    let list = write_hitl_list(&summary.hitl_items);
    let ghost reasons = choose|reasons: Seq<Seq<char>>| #[trigger]
        are_groups(reasons, summary.hitl_items@) && list@ == hitl_text(
            summary.hitl_items@,
            reasons,
        );
    let shown = if summary.hitl_items.len() > 0 {
        list
    } else {
        String::new()
    };
    out.append(shown.as_str());
    proof {
        assert(are_groups(reasons, summary.hitl_items@) && out@ == status_text(
            *summary,
            reasons,
        ));
    }
    out
}

/// The banner of the statistics of a workspace.
pub open spec fn stats_text(s: WorkspaceStats) -> Seq<char> {
    "--- Workspace: "@ + s.workspace_name@ + " ---\nSpecs: active="@ + dec(
        s.active_spec_count as nat,
    ) + ", completing="@ + dec(s.completing_count as nat) + ", completed="@ + dec(
        s.completed_count as nat,
    ) + "\nItems: pending="@ + dec(s.pending_items_count as nat) + ", running="@ + dec(
        s.running_items_count as nat,
    ) + "\n"@ + event_part("  Recent HITL events:\n"@, s.recent_hitl_events@)
        + "---------------------\n"@
}

/// The banner of the statistics of a workspace.
pub fn write_workspace_stats_banner(stats: &WorkspaceStats) -> (r: String)
    ensures
        r@ == stats_text(*stats),
{
    let mut out = "--- Workspace: ".to_string();
    out.append(stats.workspace_name.as_str());
    out.append(" ---\nSpecs: active=");
    let active = dec_u32(stats.active_spec_count);
    out.append(active.as_str());
    out.append(", completing=");
    let completing = dec_u32(stats.completing_count);
    out.append(completing.as_str());
    out.append(", completed=");
    let completed = dec_u32(stats.completed_count);
    out.append(completed.as_str());
    out.append("\nItems: pending=");
    let pending = dec_u32(stats.pending_items_count);
    out.append(pending.as_str());
    out.append(", running=");
    let running = dec_u32(stats.running_items_count);
    out.append(running.as_str());
    out.append("\n");
    let events = write_events("  Recent HITL events:\n", &stats.recent_hitl_events);
    out.append(events.as_str());
    out.append("---------------------\n");
    out
}

// ---------------------------------------------------------------------------
// Tokens
// ---------------------------------------------------------------------------

/// The tokens that one invocation of the agent used.
#[derive(Debug, Clone, Copy, PartialEq, Eq, Structural)]
pub struct TokenUsage {
    pub input_tokens: u64,
    pub output_tokens: u64,
}

/// Cumulative token usage tracked across the session.
#[derive(Debug, Clone, Copy, PartialEq, Eq, Structural)]
pub struct SessionTokenUsage {
    /// Total input tokens consumed across all invocations.
    pub total_input_tokens: u64,
    /// Total output tokens consumed across all invocations.
    pub total_output_tokens: u64,
    /// Number of LLM invocations made during the session.
    pub invocation_count: u32,
}

impl Default for SessionTokenUsage {
    fn default() -> (r: SessionTokenUsage)
        ensures
            r.total_input_tokens == 0,
            r.total_output_tokens == 0,
            r.invocation_count == 0,
    {
        SessionTokenUsage { total_input_tokens: 0, total_output_tokens: 0, invocation_count: 0 }
    }
}

impl SessionTokenUsage {
    /// The counters can take the usage of one more invocation.
    pub open spec fn has_room(self, usage: TokenUsage) -> bool {
        &&& self.total_input_tokens + usage.input_tokens <= u64::MAX
        &&& self.total_output_tokens + usage.output_tokens <= u64::MAX
        &&& self.invocation_count < u32::MAX
    }

    /// Accumulates token usage from a single invocation.
    pub fn accumulate(&mut self, usage: &TokenUsage)
        requires
            old(self).has_room(*usage),
        ensures
            final(self).total_input_tokens == old(self).total_input_tokens + usage.input_tokens,
            final(self).total_output_tokens == old(self).total_output_tokens + usage.output_tokens,
            final(self).invocation_count == old(self).invocation_count + 1,
    {
        self.total_input_tokens = self.total_input_tokens + usage.input_tokens;
        self.total_output_tokens = self.total_output_tokens + usage.output_tokens;
        self.invocation_count = self.invocation_count + 1;
    }
}

/// The usage of one invocation.
pub open spec fn usage_line(u: TokenUsage) -> Seq<char> {
    "  [tokens: in="@ + dec(u.input_tokens as nat) + ", out="@ + dec(u.output_tokens as nat)
        + "]\n"@
}

/// Token usage summary for a single invocation.
pub fn write_token_usage(usage: &TokenUsage) -> (r: String)
    ensures
        r@ == usage_line(*usage),
{
    let input = dec_u64(usage.input_tokens);
    let output = dec_u64(usage.output_tokens);
    cat5("  [tokens: in=", input.as_str(), ", out=", output.as_str(), "]\n")
}

/// The usage of a session.
pub open spec fn totals_line(u: SessionTokenUsage) -> Seq<char> {
    "Session totals: "@ + dec(u.invocation_count as nat) + " invocations, "@ + dec(
        u.total_input_tokens as nat,
    ) + " input tokens, "@ + dec(u.total_output_tokens as nat) + " output tokens\n"@
}

/// Cumulative session token usage.
pub fn write_session_usage(usage: &SessionTokenUsage) -> (r: String)
    ensures
        r@ == totals_line(*usage),
{
    let mut out = "Session totals: ".to_string();
    let count = dec_u32(usage.invocation_count);
    out.append(count.as_str());
    out.append(" invocations, ");
    let input = dec_u64(usage.total_input_tokens);
    out.append(input.as_str());
    out.append(" input tokens, ");
    let output = dec_u64(usage.total_output_tokens);
    out.append(output.as_str());
    out.append(" output tokens\n");
    out
}

// ---------------------------------------------------------------------------
// Prompts
// ---------------------------------------------------------------------------

/// Role of a message sender in the session history.
#[derive(Debug, Clone, Copy, PartialEq, Eq, Structural)]
pub enum MessageRole {
    /// User input.
    User,
    /// LLM assistant response.
    Assistant,
}

/// A single message in the session conversation history.
#[derive(Debug, Clone)]
pub struct SessionMessage {
    /// The role of the message sender.
    pub role: MessageRole,
    /// The text content of the message.
    pub content: String,
}

/// The contents of a conversation.
pub open spec fn messages(v: Seq<SessionMessage>) -> Seq<(MessageRole, Seq<char>)> {
    Seq::new(v.len(), |i: int| (v[i].role, v[i].content@))
}

/// The system prompt.
pub open spec fn system_prompt(workspace: Option<Seq<char>>, history_len: nat) -> Seq<char> {
    "You are the Belt Claw interactive assistant."@ + (match workspace {
        Some(ws) => "\nCurrent workspace: "@ + ws,
        None => seq![],
    }) + (if history_len == 0 {
        seq![]
    } else {
        "\nConversation history has "@ + dec(history_len) + " previous messages."@
    })
}

/// Builds a system prompt incorporating workspace and session context.
pub fn build_system_prompt(workspace: &Option<String>, history: &Vec<SessionMessage>) -> (r: String)
    ensures
        r@ == system_prompt(opt_text(*workspace), history.len() as nat),
{
    let mut out = "You are the Belt Claw interactive assistant.".to_string();
    let place = match workspace {
        Some(ws) => cat2("\nCurrent workspace: ", ws.as_str()),
        None => String::new(),
    };
    out.append(place.as_str());
    let past = if history.len() == 0 {
        String::new()
    } else {
        let n = dec_usize(history.len());
        cat3("\nConversation history has ", n.as_str(), " previous messages.")
    };
    out.append(past.as_str());
    out
}

/// The name of a role.
pub open spec fn role_name(role: MessageRole) -> Seq<char> {
    match role {
        MessageRole::User => "user"@,
        MessageRole::Assistant => "assistant"@,
    }
}

/// The messages that a prompt repeats: the last ten.
pub open spec fn context_window(history: Seq<(MessageRole, Seq<char>)>) -> Seq<
    (MessageRole, Seq<char>),
> {
    if history.len() > 10 {
        history.skip(history.len() - 10)
    } else {
        history
    }
}

/// The first `n` messages.
pub open spec fn message_lines(v: Seq<(MessageRole, Seq<char>)>, n: nat) -> Seq<char>
    decreases n,
{
    if n == 0 {
        seq![]
    } else {
        message_lines(v, (n - 1) as nat) + ("["@ + role_name(v[n - 1].0) + "]: "@ + v[n - 1].1
            + "\n"@)
    }
}

/// The prompt for an input after a conversation.
pub open spec fn full_prompt(input: Seq<char>, history: Seq<(MessageRole, Seq<char>)>) -> Seq<char> {
    if history.len() == 0 {
        input
    } else {
        "<conversation_history>\n"@ + message_lines(
            context_window(history),
            context_window(history).len(),
        ) + "</conversation_history>\n\n"@ + input
    }
}

/// Builds a prompt that repeats up to the last ten messages for context.
pub fn build_prompt_with_history(user_input: &str, history: &Vec<SessionMessage>) -> (r: String)
    ensures
        r@ == full_prompt(user_input@, messages(history@)),
{
    if history.len() == 0 {
        return user_input.to_owned();
    }
    let first: usize = if history.len() > 10 {
        history.len() - 10
    } else {
        0
    };
    let ghost window = context_window(messages(history@));
    let mut rows = String::new();
    let mut i: usize = first;
    proof {
        assert(messages(history@).skip(0) =~= messages(history@));
        assert(window =~= messages(history@).skip(first as int));
    }
    while i < history.len()
        invariant
            first <= i <= history.len(),
            window == messages(history@).skip(first as int),
            rows@ == message_lines(window, (i - first) as nat),
        decreases history.len() - i,
    {
        proof {
            assert(window[i - first] == messages(history@)[i as int]);
        }
        let role = match history[i].role {
            MessageRole::User => "user",
            MessageRole::Assistant => "assistant",
        };
        let row = cat5("[", role, "]: ", history[i].content.as_str(), "\n");
        rows.append(row.as_str());
        i = i + 1;
    }
    let mut out = "<conversation_history>\n".to_string();
    out.append(rows.as_str());
    out.append("</conversation_history>\n\n");
    out.append(user_input);
    out
}

// ---------------------------------------------------------------------------
// The session
// ---------------------------------------------------------------------------

/// An interactive session.
#[derive(Debug)]
pub struct Session {
    /// Workspace name context, if any.
    pub workspace: Option<String>,
    /// Whether an agent takes free-form input.
    pub has_agent: bool,
    pub history: Vec<SessionMessage>,
    pub usage: SessionTokenUsage,
}

/// An interactive session, as plain values.
pub ghost struct SessionView {
    pub workspace: Option<String>,
    pub has_agent: bool,
    pub history: Seq<(MessageRole, Seq<char>)>,
    pub usage: SessionTokenUsage,
}

impl View for Session {
    type V = SessionView;

    open spec fn view(&self) -> SessionView {
        SessionView {
            workspace: self.workspace,
            has_agent: self.has_agent,
            history: messages(self.history@),
            usage: self.usage,
        }
    }
}

/// What is printed before each line is read.
pub const PROMPT: &'static str = "claw> ";

/// What an agent gave back.
#[derive(Debug, Clone)]
pub struct AgentReply {
    pub success: bool,
    pub exit_code: i32,
    pub stdout: String,
    pub stderr: String,
    pub token_usage: Option<TokenUsage>,
}

/// What a session does with a line.
#[derive(Debug)]
pub enum SessionStep {
    /// Nothing is said.
    Wait,
    /// A text is printed.
    Say(String),
    /// A text is printed and the session ends.
    End(String),
    /// A spec is fetched for a command, which is dispatched then.
    Fetch { command: SlashCommand, spec_id: String },
    /// The agent is invoked.
    Ask { input: String, prompt: String, system_prompt: String },
}

/// What a session does with a line, as plain values.
pub ghost enum StepView {
    Wait,
    Say(Seq<char>),
    End(Seq<char>),
    Fetch { command: SlashView, spec_id: Seq<char> },
    Ask { input: Seq<char>, prompt: Seq<char>, system_prompt: Seq<char> },
}

impl View for SessionStep {
    type V = StepView;

    open spec fn view(&self) -> StepView {
        match *self {
            SessionStep::Wait => StepView::Wait,
            SessionStep::Say(text) => StepView::Say(text@),
            SessionStep::End(text) => StepView::End(text@),
            SessionStep::Fetch { command, spec_id } => StepView::Fetch {
                command: command@,
                spec_id: spec_id@,
            },
            SessionStep::Ask { input, prompt, system_prompt } => StepView::Ask {
                input: input@,
                prompt: prompt@,
                system_prompt: system_prompt@,
            },
        }
    }
}

/// The words with which a session ends.
pub open spec fn farewell(u: SessionTokenUsage) -> Seq<char> {
    if u.invocation_count > 0 {
        totals_line(u) + "Goodbye.\n"@
    } else {
        "Goodbye.\n"@
    }
}

/// The answer to a command for which nothing is fetched.
pub open spec fn plain_answer(workspace: Option<String>, cmd: SlashView) -> Seq<char> {
    answer(workspace, cmd, FetchView::Fault(seq![])) + "\n"@
}

/// What a session does with a line; `None` is the end of the input.
pub open spec fn next_step(s: SessionView, line: Option<Seq<char>>) -> StepView {
    match line {
        None => StepView::End("\n"@),
        Some(text) => {
            let t = trim(text);
            if t.len() == 0 {
                StepView::Wait
            } else {
                match command_in(t) {
                    Some(SlashView::Quit) => StepView::End(farewell(s.usage)),
                    Some(cmd) => match requested_spec(cmd) {
                        Some(id) => StepView::Fetch { command: cmd, spec_id: id },
                        None => StepView::Say(plain_answer(s.workspace, cmd)),
                    },
                    None => if s.has_agent {
                        StepView::Ask {
                            input: t,
                            prompt: full_prompt(t, s.history),
                            system_prompt: system_prompt(opt_text(s.workspace), s.history.len()),
                        }
                    } else {
                        StepView::Say(">> "@ + t + "\n"@)
                    },
                }
            }
        },
    }
}

/// What is printed of a reply.
pub open spec fn reply_text(reply: AgentReply) -> Seq<char> {
    (if reply.success {
        if trim(reply.stdout@).len() == 0 {
            seq![]
        } else {
            trim(reply.stdout@) + "\n"@
        }
    } else {
        "[error] Agent invocation failed (exit code "@ + dec_int(reply.exit_code as int) + ")\n"@
            + (if reply.stderr@.len() == 0 {
            seq![]
        } else {
            "[error] "@ + trim(reply.stderr@) + "\n"@
        })
    }) + (match reply.token_usage {
        Some(u) => usage_line(u),
        None => seq![],
    })
}

/// The conversation after a reply to an input.
pub open spec fn after_reply(
    history: Seq<(MessageRole, Seq<char>)>,
    input: Seq<char>,
    reply: AgentReply,
) -> Seq<(MessageRole, Seq<char>)> {
    if reply.success {
        history.push((MessageRole::User, input)).push(
            (MessageRole::Assistant, trim(reply.stdout@)),
        )
    } else {
        history.push((MessageRole::User, input))
    }
}

/// The usage after a reply.
pub open spec fn usage_after(u: SessionTokenUsage, reply: AgentReply) -> SessionTokenUsage {
    match reply.token_usage {
        Some(t) => SessionTokenUsage {
            total_input_tokens: (u.total_input_tokens + t.input_tokens) as u64,
            total_output_tokens: (u.total_output_tokens + t.output_tokens) as u64,
            invocation_count: (u.invocation_count + 1) as u32,
        },
        None => u,
    }
}

/// The session after a reply to an input.
pub open spec fn session_after(s: SessionView, input: Seq<char>, reply: AgentReply) -> SessionView {
    SessionView {
        history: after_reply(s.history, input, reply),
        usage: usage_after(s.usage, reply),
        ..s
    }
}

fn add_message(history: &mut Vec<SessionMessage>, role: MessageRole, content: String)
    ensures
        messages(final(history)@) == messages(old(history)@).push((role, content@)),
{
    history.push(SessionMessage { role, content });
    proof {
        assert(messages(history@) =~= messages(old(history)@).push((role, content@)));
    }
}

impl Session {
    /// A session without a conversation.
    pub fn new(workspace: Option<String>, has_agent: bool) -> (r: Session)
        ensures
            r@ == (SessionView {
                workspace,
                has_agent,
                history: seq![],
                usage: SessionTokenUsage {
                    total_input_tokens: 0,
                    total_output_tokens: 0,
                    invocation_count: 0,
                },
            }),
    {
        let r = Session {
            workspace,
            has_agent,
            history: Vec::new(),
            usage: SessionTokenUsage::default(),
        };
        proof {
            assert(messages(r.history@) =~= seq![]);
        }
        r
    }

    /// Decides what to do with a line of input; `None` is the end of the input.
    pub fn read_line(&self, line: Option<&str>) -> (r: SessionStep)
        ensures
            line is None ==> r@ == next_step(self@, None),
            line matches Some(text) ==> r@ == next_step(self@, Some(text@)),
    {
        let text = match line {
            Some(text) => text,
            None => {
                return SessionStep::End("\n".to_string());
            },
        };
        let t = trimmed(text);
        let cs = chars_of(t.as_str());
        if cs.len() == 0 {
            return SessionStep::Wait;
        }
        match SlashCommand::parse(t.as_str()) {
            Some(SlashCommand::Quit) => {
                let mut out = String::new();
                if self.usage.invocation_count > 0 {
                    out = write_session_usage(&self.usage);
                    out.append("Goodbye.\n");
                } else {
                    out = "Goodbye.\n".to_string();
                }
                SessionStep::End(out)
            },
            Some(command) => match spec_request(&command) {
                Some(spec_id) => SessionStep::Fetch { command, spec_id },
                None => {
                    let dispatcher = SlashDispatcher::new(self.workspace.clone());
                    let nothing: Result<FetchedSpec, String> = Err(String::new());
                    let response = dispatcher.dispatch(&command, &nothing);
                    proof {
                        law_fetching_matters_for_specs_alone(
                            self.workspace,
                            command@,
                            fetch_view(nothing),
                            FetchView::Fault(seq![]),
                        );
                    }
                    SessionStep::Say(cat2(response.as_str(), "\n"))
                },
            },
            None => if self.has_agent {
                let prompt = build_prompt_with_history(t.as_str(), &self.history);
                let system = build_system_prompt(&self.workspace, &self.history);
                SessionStep::Ask { input: t, prompt, system_prompt: system }
            } else {
                SessionStep::Say(cat3(">> ", t.as_str(), "\n"))
            },
        }
    }

    /// Answers a command for which a spec was fetched.
    pub fn answer_command(&self, command: &SlashCommand, fetched: &Result<FetchedSpec, String>) -> (r:
        String)
        ensures
            r@ == answer(self.workspace, command@, fetch_view(*fetched)) + "\n"@,
    {
        let dispatcher = SlashDispatcher::new(self.workspace.clone());
        let response = dispatcher.dispatch(command, fetched);
        cat2(response.as_str(), "\n")
    }

    /// Takes the reply of the agent to an input: records it in the history,
    /// counts its tokens, and returns what is printed.
    pub fn take_reply(&mut self, input: String, reply: &AgentReply) -> (r: String)
        requires
            reply.token_usage matches Some(u) ==> old(self).usage.has_room(u),
        ensures
            r@ == reply_text(*reply),
            final(self)@ == session_after(old(self)@, input@, *reply),
    {
        add_message(&mut self.history, MessageRole::User, input);
        let mut out = String::new();
        if reply.success {
            let text = trimmed(reply.stdout.as_str());
            let cs = chars_of(text.as_str());
            if cs.len() > 0 {
                out = cat2(text.as_str(), "\n");
            }
            add_message(&mut self.history, MessageRole::Assistant, text);
        } else {
            let code = dec_i64(reply.exit_code as i64);
            out = cat3(
                "[error] Agent invocation failed (exit code ",
                code.as_str(),
                ")\n",
            );
            let cs = chars_of(reply.stderr.as_str());
            let more = if cs.len() == 0 {
                String::new()
            } else {
                let text = trimmed(reply.stderr.as_str());
                cat3("[error] ", text.as_str(), "\n")
            };
            out.append(more.as_str());
        }
        let tokens = match &reply.token_usage {
            Some(u) => {
                self.usage.accumulate(u);
                write_token_usage(u)
            },
            None => String::new(),
        };
        out.append(tokens.as_str());
        out
    }
}

/// Text of a slash command never reaches the agent.
pub proof fn law_commands_are_not_forwarded(s: SessionView, line: Seq<char>)
    requires
        command_in(trim(line)) is Some,
    ensures
        !(next_step(s, Some(line)) is Ask),
{
}

/// Without an agent the agent is never asked.
pub proof fn law_no_agent_is_never_asked(s: SessionView, line: Option<Seq<char>>)
    requires
        !s.has_agent,
    ensures
        !(next_step(s, line) is Ask),
{
}

/// A session ends exactly at the end of the input and at a command to quit.
pub proof fn law_session_ends_on_request(s: SessionView, line: Option<Seq<char>>)
    ensures
        next_step(s, line) is End <==> line is None || (trim(line.unwrap()).len() > 0 && command_in(
            trim(line.unwrap()),
        ) == Some(SlashView::Quit)),
{
}

/// How the outside answers a session: the reply of the agent, or what came of
/// fetching a spec, to the last of the requests that were made so far.
pub ghost struct Outside {
    pub reply: spec_fn(Seq<StepView>) -> AgentReply,
    pub fetched: spec_fn(Seq<StepView>) -> FetchView,
}

/// What a session has printed and asked of the outside.
pub ghost struct Transcript {
    pub output: Seq<char>,
    pub requests: Seq<StepView>,
}

/// The transcript of a session that reads some lines, given the transcript so
/// far: at the beginning what `opening` says, and no requests.
pub open spec fn transcript(
    s: SessionView,
    lines: Seq<Seq<char>>,
    outside: Outside,
    before: Transcript,
) -> Transcript
    decreases lines.len(),
{
    let prompted = before.output + PROMPT@;
    let step = next_step(
        s,
        if lines.len() == 0 {
            None
        } else {
            Some(lines[0])
        },
    );
    let asked = before.requests.push(step);
    if lines.len() == 0 {
        Transcript { output: prompted + step->End_0, ..before }
    } else {
        match step {
            StepView::End(text) => Transcript { output: prompted + text, ..before },
            StepView::Wait => transcript(
                s,
                lines.skip(1),
                outside,
                Transcript { output: prompted, ..before },
            ),
            StepView::Say(text) => transcript(
                s,
                lines.skip(1),
                outside,
                Transcript { output: prompted + text, ..before },
            ),
            StepView::Fetch { command, .. } => transcript(
                s,
                lines.skip(1),
                outside,
                Transcript {
                    output: prompted + answer(s.workspace, command, (outside.fetched)(asked))
                        + "\n"@,
                    requests: asked,
                },
            ),
            StepView::Ask { input, .. } => transcript(
                session_after(s, input, (outside.reply)(asked)),
                lines.skip(1),
                outside,
                Transcript {
                    output: prompted + reply_text((outside.reply)(asked)),
                    requests: asked,
                },
            ),
        }
    }
}

/// A line that asks to quit.
pub open spec fn is_quit(line: Seq<char>) -> bool {
    command_in(trim(line)) == Some(SlashView::Quit)
}

/// Nothing that follows a line which asks to quit has an effect: neither on what
/// is printed nor on what is asked of the outside.
pub proof fn law_nothing_follows_a_quit(
    s: SessionView,
    first: Seq<Seq<char>>,
    quit: Seq<char>,
    rest: Seq<Seq<char>>,
    outside: Outside,
    before: Transcript,
)
    requires
        is_quit(quit),
    ensures
        transcript(s, first.push(quit) + rest, outside, before) == transcript(
            s,
            first.push(quit),
            outside,
            before,
        ),
    decreases first.len(),
{
    let short = first.push(quit);
    let long = short + rest;
    if first.len() == 0 {
        assert(long[0] == quit && short[0] == quit);
        assert(trim(quit).len() > 0);
        assert(next_step(s, Some(quit)) is End);
    } else {
        let tail = first.skip(1);
        assert(long[0] == first[0] && short[0] == first[0]);
        assert(short.skip(1) =~= tail.push(quit));
        assert(long.skip(1) =~= tail.push(quit) + rest);
        let step = next_step(s, Some(first[0]));
        let asked = before.requests.push(step);
        let prompted = before.output + PROMPT@;
        match step {
            StepView::End(_) => {},
            StepView::Wait => {
                law_nothing_follows_a_quit(
                    s,
                    tail,
                    quit,
                    rest,
                    outside,
                    Transcript { output: prompted, ..before },
                );
            },
            StepView::Say(text) => {
                law_nothing_follows_a_quit(
                    s,
                    tail,
                    quit,
                    rest,
                    outside,
                    Transcript { output: prompted + text, ..before },
                );
            },
            StepView::Fetch { command, .. } => {
                law_nothing_follows_a_quit(
                    s,
                    tail,
                    quit,
                    rest,
                    outside,
                    Transcript {
                        output: prompted + answer(s.workspace, command, (outside.fetched)(asked))
                            + "\n"@,
                        requests: asked,
                    },
                );
            },
            StepView::Ask { input, .. } => {
                law_nothing_follows_a_quit(
                    session_after(s, input, (outside.reply)(asked)),
                    tail,
                    quit,
                    rest,
                    outside,
                    Transcript {
                        output: prompted + reply_text((outside.reply)(asked)),
                        requests: asked,
                    },
                );
            },
        }
    }
}

/// A prompt repeats at most ten messages, and those are the last ones.
pub proof fn law_prompts_repeat_the_last_messages(history: Seq<(MessageRole, Seq<char>)>)
    ensures
        context_window(history).len() <= 10,
        context_window(history).len() == history.len() || context_window(history).len() == 10,
        forall|i: int|
            0 <= i < context_window(history).len() ==> #[trigger] context_window(history)[i]
                == history[history.len() - context_window(history).len() + i],
{
}

/// A reply keeps what was said before, and adds the input, and the answer where
/// there is one.
pub proof fn law_replies_extend_the_history(
    history: Seq<(MessageRole, Seq<char>)>,
    input: Seq<char>,
    reply: AgentReply,
)
    ensures
        after_reply(history, input, reply).len() == history.len() + (if reply.success {
            2int
        } else {
            1int
        }),
        after_reply(history, input, reply).take(history.len() as int) == history,
        after_reply(history, input, reply)[history.len() as int] == (MessageRole::User, input),
{
    assert(after_reply(history, input, reply).take(history.len() as int) =~= history);
}

/// The sums of the tokens of some replies.
pub open spec fn tokens_in(replies: Seq<AgentReply>) -> (nat, nat, nat)
    decreases replies.len(),
{
    if replies.len() == 0 {
        (0, 0, 0)
    } else {
        let t = tokens_in(replies.drop_last());
        match replies.last().token_usage {
            Some(u) => (t.0 + u.input_tokens as nat, t.1 + u.output_tokens as nat, t.2 + 1),
            None => t,
        }
    }
}

/// The usage after some replies.
pub open spec fn usage_after_all(u: SessionTokenUsage, replies: Seq<AgentReply>) -> SessionTokenUsage
    decreases replies.len(),
{
    if replies.len() == 0 {
        u
    } else {
        usage_after(usage_after_all(u, replies.drop_last()), replies.last())
    }
}

/// The usage of a session is the sum over its replies.
pub proof fn law_usage_adds_up(replies: Seq<AgentReply>)
    requires
        tokens_in(replies).0 <= u64::MAX,
        tokens_in(replies).1 <= u64::MAX,
        tokens_in(replies).2 <= u32::MAX,
    ensures
        ({
            let u = usage_after_all(
                SessionTokenUsage {
                    total_input_tokens: 0,
                    total_output_tokens: 0,
                    invocation_count: 0,
                },
                replies,
            );
            &&& u.total_input_tokens == tokens_in(replies).0
            &&& u.total_output_tokens == tokens_in(replies).1
            &&& u.invocation_count == tokens_in(replies).2
        }),
    decreases replies.len(),
{
    if replies.len() > 0 {
        law_usage_adds_up(replies.drop_last());
    }
}

// ---------------------------------------------------------------------------
// The opening
// ---------------------------------------------------------------------------

/// The opening of a session; the status banner shows the items that await a
/// human in the groups `reasons`.
pub open spec fn opening(
    path: Seq<char>,
    s: Session,
    status: Option<StatusSummary>,
    stats: Option<WorkspaceStats>,
    reasons: Seq<Seq<char>>,
) -> Seq<char> {
    "Belt Claw interactive session\nWorkspace: "@ + path + "\n"@ + (match s.workspace {
        Some(ws) => "Context: "@ + ws@ + "\n"@,
        None => seq![],
    }) + (match status {
        Some(summary) => "\n"@ + status_text(summary, reasons),
        None => seq![],
    }) + (match stats {
        Some(st) => "\n"@ + stats_text(st),
        None => seq![],
    }) + (if s.has_agent {
        "LLM agent connected. Free-form input will be processed by the agent.\n"@
    } else {
        seq![]
    }) + "Type /help for available commands, /quit to exit.\n\n"@
}

/// `reasons` are the groups of the items of the status.
pub open spec fn grouped_for(status: Option<StatusSummary>, reasons: Seq<Seq<char>>) -> bool {
    status matches Some(s) ==> are_groups(reasons, s.hitl_items@)
}

/// What is printed when a session starts; `path` is the root of the workspace
/// of the agent. The banners are left out where nothing is known.
pub fn open_session(
    path: &str,
    session: &Session,
    status: &Option<StatusSummary>,
    stats: &Option<WorkspaceStats>,
) -> (r: String)
    ensures
        exists|reasons: Seq<Seq<char>>| #[trigger]
            grouped_for(*status, reasons) && r@ == opening(
                path@,
                *session,
                *status,
                *stats,
                reasons,
            ),
{
    let mut out = cat3("Belt Claw interactive session\nWorkspace: ", path, "\n");
    let place = match &session.workspace {
        Some(ws) => cat3("Context: ", ws.as_str(), "\n"),
        None => String::new(),
    };
    out.append(place.as_str());
    let ghost mut reasons: Seq<Seq<char>> = seq![];
    let banner = match status {
        Some(summary) => {
            let text = write_status_banner(summary);
            proof {
                reasons = choose|rs: Seq<Seq<char>>| #[trigger]
                    are_groups(rs, summary.hitl_items@) && text@ == status_text(*summary, rs);
            }
            cat2("\n", text.as_str())
        },
        None => String::new(),
    };
    out.append(banner.as_str());
    let numbers = match stats {
        Some(st) => {
            let text = write_workspace_stats_banner(st);
            cat2("\n", text.as_str())
        },
        None => String::new(),
    };
    out.append(numbers.as_str());
    let agent = if session.has_agent {
        "LLM agent connected. Free-form input will be processed by the agent.\n".to_string()
    } else {
        String::new()
    };
    out.append(agent.as_str());
    out.append("Type /help for available commands, /quit to exit.\n\n");
    proof {
        assert(grouped_for(*status, reasons) && out@ == opening(
            path@,
            *session,
            *status,
            *stats,
            reasons,
        ));
    }
    out
}

// ---------------------------------------------------------------------------
// What is shown
// ---------------------------------------------------------------------------

/// The answer of the agent is printed whole, however long it is, and a line feed
/// behind it; what is printed is what the history records.
pub proof fn law_answers_are_printed_whole(
    history: Seq<(MessageRole, Seq<char>)>,
    input: Seq<char>,
    reply: AgentReply,
)
    requires
        reply.success,
    ensures
        trim(reply.stdout@).len() > 0 ==> reply_text(reply).len() > trim(reply.stdout@).len()
            && reply_text(reply).take(trim(reply.stdout@).len() as int) == trim(reply.stdout@)
            && reply_text(reply)[trim(reply.stdout@).len() as int] == '\n',
        reply.token_usage is None ==> reply_text(reply).len() <= trim(reply.stdout@).len() + 1,
        reply.token_usage is None && trim(reply.stdout@).len() == 0 ==> reply_text(reply).len() == 0,
        after_reply(history, input, reply).last() == (MessageRole::Assistant, trim(reply.stdout@)),
        reply.token_usage is None && trim(reply.stdout@).len() > 0 ==> reply_text(reply)
            == after_reply(history, input, reply).last().1.push('\n'),
{
    reveal_strlit("\n");
    let t = trim(reply.stdout@);
    if t.len() > 0 {
        assert(reply_text(reply).take(t.len() as int) =~= t);
        if reply.token_usage is None {
            assert(reply_text(reply) =~= t.push('\n'));
        }
    }
}

/// Replies that say different things print different texts.
pub proof fn law_different_answers_print_differently(a: AgentReply, b: AgentReply)
    requires
        a.success && b.success,
        a.token_usage is None && b.token_usage is None,
        trim(a.stdout@) != trim(b.stdout@),
    ensures
        reply_text(a) != reply_text(b),
{
    law_answers_are_printed_whole(seq![], seq![], a);
    law_answers_are_printed_whole(seq![], seq![], b);
    let x = trim(a.stdout@);
    let y = trim(b.stdout@);
    if reply_text(a) == reply_text(b) {
        if x.len() > 0 && y.len() > 0 {
            assert(x.push('\n').drop_last() =~= x);
            assert(y.push('\n').drop_last() =~= y);
        } else if x.len() == 0 && y.len() == 0 {
            assert(x =~= y);
        }
    }
}

/// A failure is told with its exit code and all that was said of it, and nothing
/// of what a failed agent printed is shown or recorded.
pub proof fn law_failures_are_told(
    history: Seq<(MessageRole, Seq<char>)>,
    input: Seq<char>,
    reply: AgentReply,
    other: AgentReply,
)
    requires
        !reply.success,
        other == (AgentReply { stdout: other.stdout, ..reply }),
    ensures
        holds(reply_text(reply), "(exit code "@ + dec_int(reply.exit_code as int) + ")"@),
        reply.stderr@.len() > 0 ==> holds(reply_text(reply), "[error] "@ + trim(reply.stderr@)),
        reply_text(other) == reply_text(reply),
        after_reply(history, input, reply) == history.push((MessageRole::User, input)),
        after_reply(history, input, other) == after_reply(history, input, reply),
{
    broadcast use group_holds;

    let lead = "[error] Agent invocation failed "@;
    let code = dec_int(reply.exit_code as int);
    reveal_strlit("[error] Agent invocation failed (exit code ");
    reveal_strlit("[error] Agent invocation failed ");
    reveal_strlit("(exit code ");
    reveal_strlit(")\n");
    reveal_strlit(")");
    reveal_strlit("\n");
    assert("[error] Agent invocation failed (exit code "@ =~= lead + "(exit code "@);
    assert(")\n"@ =~= ")"@ + "\n"@);
    let first = "[error] Agent invocation failed (exit code "@ + code + ")\n"@;
    assert(first =~= lead + "(exit code "@ + code + ")"@ + "\n"@);
    assert(holds(first, "(exit code "@ + code + ")"@));
    assert(holds(reply_text(reply), "(exit code "@ + code + ")"@));
    if reply.stderr@.len() > 0 {
        let second = "[error] "@ + trim(reply.stderr@) + "\n"@;
        assert(holds(second, "[error] "@ + trim(reply.stderr@)));
        assert(holds(first + second, "[error] "@ + trim(reply.stderr@)));
    }
}

/// The tokens of a reply are told at its end: what it took in and what it gave.
pub proof fn law_tokens_are_told(reply: AgentReply, silent: AgentReply)
    requires
        reply.token_usage is Some,
        silent == (AgentReply { token_usage: None, ..reply }),
    ensures
        reply_text(reply).len() > reply_text(silent).len(),
        reply_text(reply).take(reply_text(silent).len() as int) == reply_text(silent),
        holds(reply_text(reply), dec(reply.token_usage.unwrap().input_tokens as nat) + ", out="@),
        holds(reply_text(reply), ", out="@ + dec(reply.token_usage.unwrap().output_tokens as nat)),
{
    broadcast use group_holds;

    let u = reply.token_usage.unwrap();
    reveal_strlit("  [tokens: in=");
    let a = "  [tokens: in="@;
    assert(usage_line(u) =~= a + dec(u.input_tokens as nat) + ", out="@ + dec(
        u.output_tokens as nat,
    ) + "]\n"@);
    assert(holds(usage_line(u), dec(u.input_tokens as nat) + ", out="@));
    assert(holds(usage_line(u), ", out="@ + dec(u.output_tokens as nat)));
    assert(reply_text(reply) =~= reply_text(silent) + usage_line(u));
    assert(reply_text(reply).take(reply_text(silent).len() as int) =~= reply_text(silent));
}

/// The totals of a session are told when it ends, where the agent was asked.
pub proof fn law_totals_are_told(u: SessionTokenUsage)
    ensures
        u.invocation_count > 0 ==> holds(
            farewell(u),
            dec(u.invocation_count as nat) + " invocations, "@ + dec(u.total_input_tokens as nat),
        ) && holds(
            farewell(u),
            " input tokens, "@ + dec(u.total_output_tokens as nat) + " output tokens\n"@,
        ),
        holds(farewell(u), "Goodbye.\n"@),
        u.invocation_count == 0 ==> farewell(u) == "Goodbye.\n"@,
{
    broadcast use group_holds;

    assert(holds(
        totals_line(u),
        dec(u.invocation_count as nat) + " invocations, "@ + dec(u.total_input_tokens as nat),
    ));
    assert(holds(
        totals_line(u),
        " input tokens, "@ + dec(u.total_output_tokens as nat) + " output tokens\n"@,
    ));
}

/// A prompt ends with what the user typed, whole; without a conversation it is
/// that alone.
pub proof fn law_prompts_end_with_the_input(input: Seq<char>, history: Seq<(MessageRole, Seq<char>)>)
    ensures
        full_prompt(input, history).len() >= input.len(),
        full_prompt(input, history).skip(full_prompt(input, history).len() - input.len()) == input,
        history.len() == 0 ==> full_prompt(input, history) == input,
{
    assert(full_prompt(input, history).skip(full_prompt(input, history).len() - input.len())
        =~= input);
}

/// A prompt holds each of the last ten messages whole, with who said it.
pub proof fn law_prompts_hold_the_last_messages(
    input: Seq<char>,
    history: Seq<(MessageRole, Seq<char>)>,
    i: int,
)
    requires
        0 <= i < history.len(),
        i >= history.len() - 10,
    ensures
        history[i].0 == MessageRole::User ==> holds(
            full_prompt(input, history),
            "user"@ + "]: "@ + history[i].1,
        ),
        history[i].0 == MessageRole::Assistant ==> holds(
            full_prompt(input, history),
            "assistant"@ + "]: "@ + history[i].1,
        ),
{
    broadcast use group_holds;

    let w = context_window(history);
    let k = i - (history.len() - w.len());
    assert(w[k] == history[i]);
    lemma_message_lines_hold(w, w.len(), k);
}

proof fn lemma_message_lines_hold(v: Seq<(MessageRole, Seq<char>)>, n: nat, k: int)
    requires
        0 <= k < n <= v.len(),
    ensures
        holds(message_lines(v, n), role_name(v[k].0) + "]: "@ + v[k].1),
    decreases n,
{
    broadcast use group_holds;

    if k < n - 1 {
        lemma_message_lines_hold(v, (n - 1) as nat, k);
    } else {
        let line = "["@ + role_name(v[k].0) + "]: "@ + v[k].1 + "\n"@;
        assert(holds(line, role_name(v[k].0) + "]: "@ + v[k].1));
    }
}

/// Text that is no command goes to the agent as it was typed, white space around
/// it aside; without an agent it is shown.
pub proof fn law_other_text_goes_to_the_agent(s: SessionView, line: Seq<char>)
    requires
        trim(line).len() > 0,
        trim(line)[0] != '/',
    ensures
        s.has_agent ==> next_step(s, Some(line)) is Ask && next_step(s, Some(line))->input == trim(
            line,
        ) && next_step(s, Some(line))->prompt == full_prompt(trim(line), s.history),
        !s.has_agent ==> next_step(s, Some(line)) is Say && holds(
            next_step(s, Some(line))->Say_0,
            trim(line),
        ),
{
    broadcast use group_holds;

    law_trimming_is_idempotent(line);
}

/// Blank lines are passed over.
pub proof fn law_blank_lines_do_nothing(s: SessionView, line: Seq<char>)
    requires
        all_white(line),
    ensures
        next_step(s, Some(line)) is Wait,
{
    let r = law_trimming_takes_blanks_alone(line);
}

/// The system prompt names the workspace and says how long the conversation is.
pub proof fn law_system_prompts_name_the_workspace(workspace: Seq<char>, n: nat)
    ensures
        holds(system_prompt(Some(workspace), n), "\nCurrent workspace: "@ + workspace),
        n > 0 ==> holds(
            system_prompt(Some(workspace), n),
            "\nConversation history has "@ + dec(n) + " previous messages."@,
        ),
{
    broadcast use group_holds;

}

proof fn lemma_event_lines_hold(v: Seq<RecentEvent>, n: nat, k: int, part: Seq<char>)
    requires
        0 <= k < n <= v.len(),
        holds(event_line(v[k]), part),
    ensures
        holds(event_lines(v, n), part),
    decreases n,
{
    broadcast use group_holds;

    if k < n - 1 {
        lemma_event_lines_hold(v, (n - 1) as nat, k, part);
    }
}

/// The banner shows the number of all items, each phase with its count, the items
/// that await a human, and every recent event.
pub proof fn law_the_banner_shows_the_status(s: StatusSummary, reasons: Seq<Seq<char>>, p: int, e: int)
    ensures
        holds(status_text(s, reasons), dec(s.total_items as nat) + " items\n"@),
        0 <= p < s.phase_counts.len() ==> holds(
            status_text(s, reasons),
            s.phase_counts@[p].phase@ + "="@ + dec(s.phase_counts@[p].count as nat),
        ),
        s.hitl_pending > 0 ==> holds(
            status_text(s, reasons),
            "  HITL pending: "@ + dec(s.hitl_pending as nat),
        ),
        0 <= e < s.recent_events.len() ==> holds(
            status_text(s, reasons),
            s.recent_events@[e].item_id@ + " : "@ + s.recent_events@[e].from_state@,
        ) && holds(
            status_text(s, reasons),
            " -> "@ + s.recent_events@[e].to_state@ + " ("@,
        ) && holds(status_text(s, reasons), " ("@ + s.recent_events@[e].timestamp@),
{
    broadcast use group_holds;

    if 0 <= p < s.phase_counts.len() {
        let parts = count_texts(s.phase_counts@);
        law_a_joined_text_holds_its_parts(parts, ", "@, p);
        assert(holds(phases_line(s.phase_counts@), parts[p]));
        assert(holds(status_head(s), parts[p]));
    }
    if 0 <= e < s.recent_events.len() {
        let v = s.recent_events@;
        let a = v[e].item_id@ + " : "@ + v[e].from_state@;
        let b = " -> "@ + v[e].to_state@ + " ("@;
        let c = " ("@ + v[e].timestamp@;
        assert(holds(event_line(v[e]), a));
        assert(holds(event_line(v[e]), b));
        assert(holds(event_line(v[e]), c));
        lemma_event_lines_hold(v, v.len(), e, a);
        lemma_event_lines_hold(v, v.len(), e, b);
        lemma_event_lines_hold(v, v.len(), e, c);
        assert(holds(event_part("  Recent events:\n"@, v), a));
        assert(holds(event_part("  Recent events:\n"@, v), b));
        assert(holds(event_part("  Recent events:\n"@, v), c));
        assert(holds(status_head(s), a) && holds(status_head(s), b) && holds(status_head(s), c));
    }
    assert(holds(status_head(s), dec(s.total_items as nat) + " items\n"@));
    if s.hitl_pending > 0 {
        let x = "  HITL pending: "@ + dec(s.hitl_pending as nat);
        assert(holds(pending_line(s.hitl_pending), x));
        assert(holds(status_head(s), x));
    }
}

/// The banner of a workspace shows its name and its five numbers, each behind its
/// own word.
pub proof fn law_the_workspace_banner_shows_its_numbers(s: WorkspaceStats)
    ensures
        holds(stats_text(s), "--- Workspace: "@ + s.workspace_name@),
        holds(stats_text(s), " ---\nSpecs: active="@ + dec(s.active_spec_count as nat)),
        holds(stats_text(s), ", completing="@ + dec(s.completing_count as nat)),
        holds(stats_text(s), ", completed="@ + dec(s.completed_count as nat)),
        holds(stats_text(s), "\nItems: pending="@ + dec(s.pending_items_count as nat)),
        holds(stats_text(s), ", running="@ + dec(s.running_items_count as nat) + "\n"@),
{
    broadcast use group_holds;

}

proof fn lemma_group_lines_hold(
    items: Seq<HitlItemSummary>,
    reason: Seq<char>,
    n: nat,
    k: int,
    part: Seq<char>,
)
    requires
        0 <= k < n <= items.len(),
        items[k].reason@ == reason,
        holds(hitl_line(items[k]), part),
    ensures
        holds(group_lines(items, reason, n), part),
    decreases n,
{
    broadcast use group_holds;

    if k < n - 1 {
        lemma_group_lines_hold(items, reason, (n - 1) as nat, k, part);
    }
}

proof fn lemma_groups_hold(
    items: Seq<HitlItemSummary>,
    reasons: Seq<Seq<char>>,
    n: nat,
    g: int,
    part: Seq<char>,
)
    requires
        0 <= g < n <= reasons.len(),
        holds(group_lines(items, reasons[g], items.len()), part),
    ensures
        holds(groups_text(items, reasons, n), part),
    decreases n,
{
    broadcast use group_holds;

    if g < n - 1 {
        lemma_groups_hold(items, reasons, (n - 1) as nat, g, part);
    } else {
        let head = "  ["@ + label_of(reasons[g]) + "]\n"@;
        assert(holds(head + group_lines(items, reasons[g], items.len()), part));
    }
}

/// The list of the items that await a human shows every one of them: its id, its
/// workspace and its title; and it says how many there are.
pub proof fn law_every_waiting_item_is_listed(
    items: Seq<HitlItemSummary>,
    reasons: Seq<Seq<char>>,
    k: int,
)
    requires
        are_groups(reasons, items),
        0 <= k < items.len(),
    ensures
        holds(hitl_text(items, reasons), dec(items.len())),
        holds(hitl_text(items, reasons), items[k].work_id@),
        holds(hitl_text(items, reasons), items[k].workspace@),
        items[k].title is Some ==> holds(hitl_text(items, reasons), items[k].title.unwrap()@),
        items[k].title is None ==> holds(hitl_text(items, reasons), "-"@),
{
    broadcast use group_holds;

    let item = items[k];
    let g = choose|g: int| 0 <= g < reasons.len() && reasons[g] == item.reason@;
    let parts = seq![item.work_id@, item.workspace@, text_or(item.title, "-"@)];
    assert(holds(pad_right(item.work_id@, 40), item.work_id@));
    assert(holds(pad_right(item.workspace@, 16), item.workspace@));
    assert forall|j: int| 0 <= j < 3 implies holds(hitl_text(items, reasons), #[trigger] parts[j]) by {
        assert(holds(hitl_line(item), parts[j]));
        lemma_group_lines_hold(items, item.reason@, items.len(), k, parts[j]);
        lemma_groups_hold(items, reasons, reasons.len(), g, parts[j]);
    }
    assert(holds(hitl_text(items, reasons), parts[0]));
    assert(holds(hitl_text(items, reasons), parts[1]));
    assert(holds(hitl_text(items, reasons), parts[2]));
}

/// Spec conflicts come before failures, and those before everything else.
pub proof fn law_conflicts_come_first(reason: Seq<char>)
    ensures
        priority_of("evaluate_failure"@) < priority_of("retry_max_exceeded"@),
        priority_of("retry_max_exceeded"@) == priority_of("timeout"@),
        reason != "evaluate_failure"@ && reason != "retry_max_exceeded"@ && reason != "timeout"@
            ==> priority_of("timeout"@) < priority_of(reason) && priority_of(reason) == priority_of(
            "manual_escalation"@,
        ),
{
    reveal_strlit("evaluate_failure");
    reveal_strlit("retry_max_exceeded");
    reveal_strlit("timeout");
    reveal_strlit("manual_escalation");
    assert("timeout"@.len() == 7 && "manual_escalation"@.len() == 17);
    assert("evaluate_failure"@.len() == 16 && "retry_max_exceeded"@.len() == 18);
}

/// The opening names the directory and the workspace, and shows the status and
/// the statistics where there are any.
pub proof fn law_the_opening_shows_everything(
    path: Seq<char>,
    s: Session,
    status: Option<StatusSummary>,
    stats: Option<WorkspaceStats>,
    reasons: Seq<Seq<char>>,
)
    ensures
        holds(opening(path, s, status, stats, reasons), path + "\n"@),
        s.workspace is Some ==> holds(
            opening(path, s, status, stats, reasons),
            "Context: "@ + s.workspace.unwrap()@ + "\n"@,
        ),
        status is Some ==> holds(
            opening(path, s, status, stats, reasons),
            status_text(status.unwrap(), reasons),
        ),
        stats is Some ==> holds(opening(path, s, status, stats, reasons), stats_text(stats.unwrap())),
{
    broadcast use group_holds;

}

// ---------------------------------------------------------------------------
// Laws on what is gathered
// ---------------------------------------------------------------------------

/// An event counts if and only if it led to a human, and its item still waits for
/// one in this workspace.
pub proof fn law_events_lead_to_waiting_items(
    e: RecentEvent,
    items: Seq<QueueItem>,
    ws: Seq<char>,
    i: int,
)
    ensures
        0 <= i < items.len() && items[i].workspace_id@ == ws && items[i].phase is Hitl
            && items[i].work_id@ == e.item_id@ && e.to_state@ == "hitl"@ ==> is_hitl_event(
            e,
            items,
            ws,
        ),
        e.to_state@ != "hitl"@ ==> !is_hitl_event(e, items, ws),
        (forall|k: int|
            0 <= k < items.len() ==> (#[trigger] items[k]).workspace_id@ != ws
                || items[k].work_id@ != e.item_id@ || !(items[k].phase is Hitl))
            ==> !is_hitl_event(e, items, ws),
{
}

/// Such events are taken in turn, and no others.
pub proof fn law_waiting_events_are_taken_in_turn(
    a: Seq<RecentEvent>,
    b: Seq<RecentEvent>,
    e: RecentEvent,
    items: Seq<QueueItem>,
    ws: Seq<char>,
)
    ensures
        hitl_events(a + b, items, ws) == hitl_events(a, items, ws) + hitl_events(b, items, ws),
        is_hitl_event(e, items, ws) ==> hitl_events(seq![e], items, ws) == seq![e],
        !is_hitl_event(e, items, ws) ==> hitl_events(seq![e], items, ws).len() == 0,
    decreases b.len(),
{
    assert(seq![e].drop_last() =~= seq![]);
    assert(hitl_events(seq![e].drop_last(), items, ws).len() == 0);
    if is_hitl_event(e, items, ws) {
        assert(hitl_events(seq![e], items, ws) =~= seq![e]);
    }
    if b.len() == 0 {
        assert(a + b =~= a);
        assert(hitl_events(a, items, ws) + hitl_events(b, items, ws) =~= hitl_events(
            a,
            items,
            ws,
        ));
    } else {
        law_waiting_events_are_taken_in_turn(a, b.drop_last(), e, items, ws);
        assert((a + b).drop_last() =~= a + b.drop_last());
        assert(hitl_events(a + b, items, ws) =~= hitl_events(a, items, ws) + hitl_events(
            b,
            items,
            ws,
        ));
    }
}

/// Up to five events are kept, from the beginning.
pub proof fn law_five_events_are_kept(v: Seq<RecentEvent>, i: int)
    ensures
        v.len() <= 5 ==> first_five(v).len() == v.len(),
        v.len() > 5 ==> first_five(v).len() == 5,
        0 <= i < first_five(v).len() ==> first_five(v)[i] == v[i],
{
}

/// What is compared of an event is its item, its states and its time.
pub proof fn law_events_keep_their_fields(v: Seq<RecentEvent>, i: int)
    requires
        0 <= i < v.len(),
    ensures
        event_views(v).len() == v.len(),
        event_views(v)[i].0 == v[i].item_id@,
        event_views(v)[i].1 == v[i].from_state@,
        event_views(v)[i].2 == v[i].to_state@,
        event_views(v)[i].3 == v[i].timestamp@,
{
}

/// The summary of a waiting item keeps its id, its workspace, its reason and its
/// title.
pub proof fn law_summaries_keep_the_waiting_item(s: HitlItemSummary, item: QueueItem)
    requires
        summarizes_hitl(s, item),
    ensures
        s.work_id@ == item.work_id@,
        s.workspace@ == item.workspace_id@,
        item.hitl_reason_name matches Some(t) ==> s.reason@ == t@,
        item.hitl_reason_name is None ==> s.reason@ == "other"@,
        item.title matches Some(t) ==> s.title is Some && s.title.unwrap()@ == t@,
        item.title is None ==> s.title is None,
{
}

/// The label of a known reason names that reason.
pub proof fn law_labels_name_their_reason(reason: Seq<char>)
    requires
        reason == "evaluate_failure"@ || reason == "retry_max_exceeded"@ || reason == "timeout"@
            || reason == "manual_escalation"@,
    ensures
        holds(label_of(reason), reason),
{
    reveal_strlit("evaluate_failure");
    reveal_strlit("retry_max_exceeded");
    reveal_strlit("timeout");
    reveal_strlit("manual_escalation");
    reveal_strlit("Spec Conflict (evaluate_failure)");
    reveal_strlit("Failure (retry_max_exceeded)");
    reveal_strlit("Failure (timeout)");
    reveal_strlit("Other (manual_escalation)");
    let label = label_of(reason);
    let at = label.len() - 1 - reason.len();
    assert(label.subrange(at, at + reason.len()) =~= reason);
}

/// A step is what it looks like.
pub proof fn law_steps_are_what_they_say(step: SessionStep)
    ensures
        step is Wait <==> step@ is Wait,
        step matches SessionStep::Say(t) ==> step@ == StepView::Say(t@),
        step matches SessionStep::End(t) ==> step@ == StepView::End(t@),
        step matches SessionStep::Fetch { command, spec_id } ==> step@ == (StepView::Fetch {
            command: command@,
            spec_id: spec_id@,
        }),
        step matches SessionStep::Ask { input, prompt, system_prompt } ==> step@
            == (StepView::Ask {
            input: input@,
            prompt: prompt@,
            system_prompt: system_prompt@,
        }),
{
}

/// Messages keep their number, their order, their roles and their whole text.
pub proof fn law_messages_keep_their_text(v: Seq<SessionMessage>, i: int)
    requires
        0 <= i < v.len(),
    ensures
        messages(v).len() == v.len(),
        messages(v)[i].0 == v[i].role,
        messages(v)[i].1 == v[i].content@,
{
}

/// The banner lists the items that wait for a human, where there are any.
pub proof fn law_the_banner_lists_waiting_items(s: StatusSummary, reasons: Seq<Seq<char>>)
    ensures
        s.hitl_items.len() > 0 ==> holds(status_text(s, reasons), hitl_text(s.hitl_items@, reasons)),
        s.hitl_items.len() == 0 ==> status_text(s, reasons) == status_head(s),
{
    broadcast use group_holds;

    if s.hitl_items.len() == 0 {
        assert(status_text(s, reasons) =~= status_head(s));
    }
}

/// The reasons by which a status is grouped are those of its own items.
pub proof fn law_groups_are_those_of_the_status(s: StatusSummary, reasons: Seq<Seq<char>>, i: int)
    requires
        grouped_for(Some(s), reasons),
        0 <= i < s.hitl_items.len(),
    ensures
        reasons.contains(s.hitl_items@[i].reason@),
{
}

/// The opening says that an agent is connected if and only if one is, and tells of
/// the commands either way.
pub proof fn law_the_opening_tells_of_the_agent(
    path: Seq<char>,
    s: Session,
    status: Option<StatusSummary>,
    stats: Option<WorkspaceStats>,
    reasons: Seq<Seq<char>>,
    other: Session,
)
    requires
        s.has_agent,
        other == (Session { has_agent: false, ..s }),
    ensures
        holds(
            opening(path, s, status, stats, reasons),
            "LLM agent connected. Free-form input will be processed by the agent.\n"@,
        ),
        opening(path, other, status, stats, reasons).len() < opening(
            path,
            s,
            status,
            stats,
            reasons,
        ).len(),
        holds(
            opening(path, other, status, stats, reasons),
            "Type /help for available commands, /quit to exit.\n\n"@,
        ),
{
    broadcast use group_holds;

    reveal_strlit("LLM agent connected. Free-form input will be processed by the agent.\n");
}

} // verus!
