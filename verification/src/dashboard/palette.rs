//! Which colour stands for which phase or status.

use vstd::prelude::*;

use crate::queue::law_phases_have_names_of_their_own;
use crate::queue::QueuePhase;
use crate::specs::law_states_have_names_of_their_own;
use crate::specs::SpecState;
use crate::style::Color;
use crate::text::text_eq;

verus! {

/// The colour of a queue phase, by its name.
pub open spec fn phase_color_of(phase: Seq<char>) -> Color {
    if phase == "pending"@ {
        Color::Gray
    } else if phase == "ready"@ {
        Color::Blue
    } else if phase == "running"@ {
        Color::Green
    } else if phase == "completed"@ {
        Color::Cyan
    } else if phase == "done"@ {
        Color::White
    } else if phase == "hitl"@ {
        Color::Yellow
    } else if phase == "failed"@ {
        Color::Red
    } else if phase == "skipped"@ {
        Color::DarkGray
    } else {
        Color::White
    }
}

/// The colour of a queue phase, by its name; white where it is unknown.
///
/// Used by the dashboard and by the rich output of `belt status`.
pub fn phase_color(phase: &str) -> (r: Color)
    ensures
        r == phase_color_of(phase@),
{
    if text_eq(phase, "pending") {
        Color::Gray
    } else if text_eq(phase, "ready") {
        Color::Blue
    } else if text_eq(phase, "running") {
        Color::Green
    } else if text_eq(phase, "completed") {
        Color::Cyan
    } else if text_eq(phase, "done") {
        Color::White
    } else if text_eq(phase, "hitl") {
        Color::Yellow
    } else if text_eq(phase, "failed") {
        Color::Red
    } else if text_eq(phase, "skipped") {
        Color::DarkGray
    } else {
        Color::White
    }
}

/// The colour of a spec status, by its name.
pub open spec fn spec_status_color_of(status: Seq<char>) -> Color {
    if status == "draft"@ {
        Color::Gray
    } else if status == "active"@ {
        Color::Blue
    } else if status == "paused"@ {
        Color::Yellow
    } else if status == "completing"@ {
        Color::Cyan
    } else if status == "completed"@ {
        Color::Green
    } else if status == "archived"@ {
        Color::DarkGray
    } else {
        Color::White
    }
}

/// The colour of a spec status, by its name; white where it is unknown.
pub fn spec_status_color(status: &str) -> (r: Color)
    ensures
        r == spec_status_color_of(status@),
{
    if text_eq(status, "draft") {
        Color::Gray
    } else if text_eq(status, "active") {
        Color::Blue
    } else if text_eq(status, "paused") {
        Color::Yellow
    } else if text_eq(status, "completing") {
        Color::Cyan
    } else if text_eq(status, "completed") {
        Color::Green
    } else if text_eq(status, "archived") {
        Color::DarkGray
    } else {
        Color::White
    }
}

/// Every phase has a color of its own; a failed item is red, and one that waits
/// for a human yellow.
pub proof fn law_phases_have_colors_of_their_own(a: QueuePhase, b: QueuePhase)
    ensures
        phase_color_of(a.name()) == phase_color_of(b.name()) ==> a == b,
        phase_color_of(QueuePhase::Failed.name()) == Color::Red,
        phase_color_of(QueuePhase::Hitl.name()) == Color::Yellow,
        phase_color_of(QueuePhase::Running.name()) == Color::Green,
{
    lemma_other_phases_differ(a);
    lemma_other_phases_differ(b);
    lemma_other_phases_differ(QueuePhase::Failed);
    lemma_other_phases_differ(QueuePhase::Hitl);
    lemma_other_phases_differ(QueuePhase::Running);
}

proof fn lemma_other_phases_differ(p: QueuePhase)
    ensures
        p.name() == "pending"@ ==> p is Pending,
        p.name() == "ready"@ ==> p is Ready,
        p.name() == "running"@ ==> p is Running,
        p.name() == "completed"@ ==> p is Completed,
        p.name() == "done"@ ==> p is Done,
        p.name() == "hitl"@ ==> p is Hitl,
        p.name() == "failed"@ ==> p is Failed,
        p.name() == "skipped"@ ==> p is Skipped,
{
    law_phases_have_names_of_their_own(p, QueuePhase::Pending);
    law_phases_have_names_of_their_own(p, QueuePhase::Ready);
    law_phases_have_names_of_their_own(p, QueuePhase::Running);
    law_phases_have_names_of_their_own(p, QueuePhase::Completed);
    law_phases_have_names_of_their_own(p, QueuePhase::Done);
    law_phases_have_names_of_their_own(p, QueuePhase::Hitl);
    law_phases_have_names_of_their_own(p, QueuePhase::Failed);
    law_phases_have_names_of_their_own(p, QueuePhase::Skipped);
}

/// Every state of a spec has a color of its own; a completed one is green.
pub proof fn law_states_have_colors_of_their_own(a: SpecState, b: SpecState)
    ensures
        spec_status_color_of(a.name()) == spec_status_color_of(b.name()) ==> a == b,
        spec_status_color_of(SpecState::Completed.name()) == Color::Green,
        spec_status_color_of(SpecState::Active.name()) == Color::Blue,
{
    lemma_other_states_differ(a);
    lemma_other_states_differ(b);
    lemma_other_states_differ(SpecState::Completed);
    lemma_other_states_differ(SpecState::Active);
}

proof fn lemma_other_states_differ(s: SpecState)
    ensures
        s.name() == "draft"@ ==> s is Draft,
        s.name() == "active"@ ==> s is Active,
        s.name() == "paused"@ ==> s is Paused,
        s.name() == "completing"@ ==> s is Completing,
        s.name() == "completed"@ ==> s is Completed,
        s.name() == "archived"@ ==> s is Archived,
{
    law_states_have_names_of_their_own(s, SpecState::Draft);
    law_states_have_names_of_their_own(s, SpecState::Active);
    law_states_have_names_of_their_own(s, SpecState::Paused);
    law_states_have_names_of_their_own(s, SpecState::Completing);
    law_states_have_names_of_their_own(s, SpecState::Completed);
    law_states_have_names_of_their_own(s, SpecState::Archived);
}

} // verus!
