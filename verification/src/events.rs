//! What a goal loop tells the outside about its progress.
use crate::budget::BudgetExceeded;
use crate::checks::{CheckResult, CheckResultView};
use crate::names::GoalLoopPhase;
use vstd::prelude::*;

verus! {

/// How a run of an item ended.
#[derive(Debug, Clone, Copy, PartialEq, Eq, Structural)]
pub enum ItemOutcomeKind {
    Passed,
    Repairing,
    Failed,
}

/// Something that happened in a goal loop.
#[derive(Debug, PartialEq, Eq)]
pub enum GoalLoopEvent {
    PhaseChanged { from: GoalLoopPhase, to: GoalLoopPhase },
    PlanReady { item_count: usize, attempt: u32 },
    ItemStarted { item_id: String },
    ItemFinished { item_id: String, outcome: ItemOutcomeKind, check: Option<CheckResult> },
    BudgetUpdate { tokens_used: u64, cents_used: u32, elapsed_secs: u32 },
    Aborted { reason: String },
    Done,
}

/// The model of a [`GoalLoopEvent`].
pub enum GoalLoopEventView {
    PhaseChanged { from: GoalLoopPhase, to: GoalLoopPhase },
    PlanReady { item_count: nat, attempt: nat },
    ItemStarted { item_id: Seq<char> },
    ItemFinished { item_id: Seq<char>, outcome: ItemOutcomeKind, check: Option<CheckResultView> },
    BudgetUpdate { tokens_used: u64, cents_used: u32, elapsed_secs: u32 },
    Aborted { reason: Seq<char> },
    Done,
}

impl View for GoalLoopEvent {
    type V = GoalLoopEventView;

    open spec fn view(&self) -> GoalLoopEventView {
        match *self {
            GoalLoopEvent::PhaseChanged { from, to } => GoalLoopEventView::PhaseChanged {
                from,
                to,
            },
            GoalLoopEvent::PlanReady { item_count, attempt } => GoalLoopEventView::PlanReady {
                item_count: item_count as nat,
                attempt: attempt as nat,
            },
            GoalLoopEvent::ItemStarted { item_id } => GoalLoopEventView::ItemStarted {
                item_id: item_id@,
            },
            GoalLoopEvent::ItemFinished { item_id, outcome, check } => {
                GoalLoopEventView::ItemFinished {
                    item_id: item_id@,
                    outcome,
                    check: check.deep_view(),
                }
            },
            GoalLoopEvent::BudgetUpdate { tokens_used, cents_used, elapsed_secs } => {
                GoalLoopEventView::BudgetUpdate { tokens_used, cents_used, elapsed_secs }
            },
            GoalLoopEvent::Aborted { reason } => GoalLoopEventView::Aborted { reason: reason@ },
            GoalLoopEvent::Done => GoalLoopEventView::Done,
        }
    }
}

impl DeepView for GoalLoopEvent {
    type V = GoalLoopEventView;

    open spec fn deep_view(&self) -> GoalLoopEventView {
        self@
    }
}

impl Clone for GoalLoopEvent {
    fn clone(&self) -> (copy: Self)
        ensures
            copy@ == self@,
    {
        match self {
            GoalLoopEvent::PhaseChanged { from, to } => GoalLoopEvent::PhaseChanged {
                from: *from,
                to: *to,
            },
            GoalLoopEvent::PlanReady { item_count, attempt } => GoalLoopEvent::PlanReady {
                item_count: *item_count,
                attempt: *attempt,
            },
            GoalLoopEvent::ItemStarted { item_id } => GoalLoopEvent::ItemStarted {
                item_id: item_id.clone(),
            },
            GoalLoopEvent::ItemFinished { item_id, outcome, check } => GoalLoopEvent::ItemFinished {
                item_id: item_id.clone(),
                outcome: *outcome,
                check: check.clone(),
            },
            GoalLoopEvent::BudgetUpdate { tokens_used, cents_used, elapsed_secs } => {
                GoalLoopEvent::BudgetUpdate {
                    tokens_used: *tokens_used,
                    cents_used: *cents_used,
                    elapsed_secs: *elapsed_secs,
                }
            },
            GoalLoopEvent::Aborted { reason } => GoalLoopEvent::Aborted { reason: reason.clone() },
            GoalLoopEvent::Done => GoalLoopEvent::Done,
        }
    }
}

impl GoalLoopEvent {
    /// The event that tells of a loop stopped on budget.
    pub fn budget_exhausted(reason: &BudgetExceeded) -> (event: Self)
        ensures
            event@ == (GoalLoopEventView::Aborted { reason: reason@.message() }),
    {
        GoalLoopEvent::Aborted { reason: reason.message() }
    }
}

} // verus!
