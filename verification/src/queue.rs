//! The records of the work queue that the command line reads and writes.

use vstd::prelude::*;

verus! {

/// Where a queue item stands in its life.
#[derive(Clone, Copy, Debug, PartialEq, Eq, Structural)]
pub enum QueuePhase {
    Pending,
    Ready,
    Running,
    Completed,
    Done,
    Hitl,
    Failed,
    Skipped,
}

impl QueuePhase {
    /// The name of the phase.
    pub open spec fn name(self) -> Seq<char> {
        match self {
            QueuePhase::Pending => "pending"@,
            QueuePhase::Ready => "ready"@,
            QueuePhase::Running => "running"@,
            QueuePhase::Completed => "completed"@,
            QueuePhase::Done => "done"@,
            QueuePhase::Hitl => "hitl"@,
            QueuePhase::Failed => "failed"@,
            QueuePhase::Skipped => "skipped"@,
        }
    }

    /// The name of the phase.
    pub fn as_str(&self) -> (r: &'static str)
        ensures
            r@ == self.name(),
    {
        match self {
            QueuePhase::Pending => "pending",
            QueuePhase::Ready => "ready",
            QueuePhase::Running => "running",
            QueuePhase::Completed => "completed",
            QueuePhase::Done => "done",
            QueuePhase::Hitl => "hitl",
            QueuePhase::Failed => "failed",
            QueuePhase::Skipped => "skipped",
        }
    }
}

/// Why an item waits for a human.
#[derive(Clone, Copy, Debug, PartialEq, Eq, Structural)]
pub enum HitlReason {
    EvaluateFailure,
    RetryMaxExceeded,
    Timeout,
    ManualEscalation,
    SpecConflict,
    SpecCompletionReview,
    SpecModificationProposed,
}

/// What a human answers for a waiting item.
#[derive(Clone, Copy, Debug, PartialEq, Eq, Structural)]
pub enum HitlRespondAction {
    Done,
    Retry,
    Skip,
    Replan,
}

impl HitlRespondAction {
    /// The name of the action.
    pub open spec fn name(self) -> Seq<char> {
        match self {
            HitlRespondAction::Done => "done"@,
            HitlRespondAction::Retry => "retry"@,
            HitlRespondAction::Skip => "skip"@,
            HitlRespondAction::Replan => "replan"@,
        }
    }

    /// The name of the action.
    pub fn as_str(&self) -> (r: &'static str)
        ensures
            r@ == self.name(),
    {
        match self {
            HitlRespondAction::Done => "done",
            HitlRespondAction::Retry => "retry",
            HitlRespondAction::Skip => "skip",
            HitlRespondAction::Replan => "replan",
        }
    }
}

/// One item of the work queue.
#[derive(Clone, Debug)]
pub struct QueueItem {
    pub work_id: String,
    pub source_id: String,
    pub workspace_id: String,
    pub state: String,
    pub phase: QueuePhase,
    pub title: Option<String>,
    pub created_at: String,
    pub updated_at: String,
    pub hitl_created_at: Option<String>,
    pub hitl_reason: Option<HitlReason>,
    /// The name under which the queue reports `hitl_reason`.
    pub hitl_reason_name: Option<String>,
    pub hitl_respondent: Option<String>,
    pub hitl_notes: Option<String>,
    pub hitl_timeout_at: Option<String>,
    pub hitl_terminal_action: Option<String>,
    pub replan_count: u32,
}

/// One recorded change of an item.
#[derive(Clone, Debug)]
pub struct TransitionEvent {
    pub work_id: String,
    pub event_type: String,
    pub phase: Option<String>,
    pub from_phase: Option<String>,
    pub detail: Option<String>,
    pub created_at: String,
}

/// How many of the items stand in the phase `p`.
pub open spec fn items_in(items: Seq<QueueItem>, p: QueuePhase) -> nat
    decreases items.len(),
{
    if items.len() == 0 {
        0
    } else {
        items_in(items.drop_last(), p) + (if items.last().phase == p {
            1nat
        } else {
            0nat
        })
    }
}

/// How many of the items stand in the phase `p`.
pub fn count_phase(items: &Vec<QueueItem>, p: QueuePhase) -> (r: usize)
    ensures
        r == items_in(items@, p),
        r <= items.len(),
{
    let mut n: usize = 0;
    let mut i: usize = 0;
    while i < items.len()
        invariant
            i <= items.len(),
            n <= i,
            n == items_in(items@.take(i as int), p),
        decreases items.len() - i,
    {
        proof {
            assert(items@.take(i + 1).drop_last() =~= items@.take(i as int));
        }
        if items[i].phase == p {
            n = n + 1;
        }
        i = i + 1;
    }
    proof {
        assert(items@.take(items@.len() as int) =~= items@);
    }
    n
}

/// Counts add up: over two lists, and one for an item in the phase.
pub proof fn law_phase_counts_add_up(a: Seq<QueueItem>, b: Seq<QueueItem>, item: QueueItem, p: QueuePhase)
    ensures
        items_in(a + b, p) == items_in(a, p) + items_in(b, p),
        items_in(seq![item], p) == (if item.phase == p {
            1nat
        } else {
            0nat
        }),
        items_in(Seq::<QueueItem>::empty(), p) == 0,
    decreases b.len(),
{
    assert(seq![item].drop_last() =~= seq![]);
    assert(items_in(seq![item].drop_last(), p) == 0);
    if b.len() == 0 {
        assert(a + b =~= a);
    } else {
        law_phase_counts_add_up(a, b.drop_last(), item, p);
        assert((a + b).drop_last() =~= a + b.drop_last());
    }
}

/// Every phase has a name of its own.
pub proof fn law_phases_have_names_of_their_own(a: QueuePhase, b: QueuePhase)
    ensures
        a.name() == b.name() ==> a == b,
        a.name().len() <= 12,
{
    reveal_strlit("pending");
    reveal_strlit("ready");
    reveal_strlit("running");
    reveal_strlit("completed");
    reveal_strlit("done");
    reveal_strlit("hitl");
    reveal_strlit("failed");
    reveal_strlit("skipped");
    if a.name() == b.name() {
        assert(a.name().len() == b.name().len());
        assert(a.name()[0] == b.name()[0]);
    }
}

/// Every answer to a review has a name of its own.
pub proof fn law_answers_have_names_of_their_own(a: HitlRespondAction, b: HitlRespondAction)
    ensures
        a.name() == b.name() ==> a == b,
{
    reveal_strlit("done");
    reveal_strlit("retry");
    reveal_strlit("skip");
    reveal_strlit("replan");
    if a.name() == b.name() {
        assert(a.name().len() == b.name().len());
        assert(a.name()[0] == b.name()[0]);
    }
}

} // verus!
