//! What each step of a goal loop does, whatever it is told.
use crate::agents::{DispatcherError, ItemOutcome, ItemOutcomeView, PlannerErrorView};
use crate::budget::BudgetView;
use crate::checks::{CheckResultView, GoalBudget};
use crate::controller;
use crate::events::{GoalLoopEventView, ItemOutcomeKind};
use crate::goal::GoalView;
use crate::loop_laws;
use crate::loop_laws::LoopInput;
use crate::loop_state;
use crate::loop_state::{
    GoalLoopOutcomeView, ItemRecordView, ItemRunResult, LoopActionView, LoopState, WaitingView,
};
use crate::names::GoalLoopPhase;
use crate::plan::PlanItemView;
use vstd::prelude::*;

verus! {

/// An item that has a success check is taken at its check's word and not at the
/// sub-agent's: whatever the kind of the check, if the sub-agent brings no result of
/// it, the loop runs that very check next, and has recorded nothing of the item.
pub proof fn attached_checks_are_run(
    state: LoopState,
    i: int,
    outcome: ItemOutcomeView,
    elapsed_secs: u32,
)
    requires
        state.last_run == Some(i),
        0 <= i < state.items.len(),
        state.items[i].item.success_check is Some,
        outcome.check is None,
    ensures
        ({
            let next = state.outcome_given(Some(outcome), elapsed_secs);
            &&& next.action() == (LoopActionView::RunCheck {
                check: state.items[i].item.success_check->0,
            })
            &&& next.waiting == (WaitingView::Check { outcome })
            &&& next.items == state.items && next.phase == state.phase
            &&& next.last_run == state.last_run
            &&& next.budget == state.budget.recorded(outcome.usage)
        }),
{
}

/// An item that has a success check passes only in a step that is given a result of
/// that check which passed; and no item that comes with a new plan has passed.
pub proof fn checked_items_pass_by_their_check_only(
    state: LoopState,
    input: LoopInput,
    i: int,
)
    requires
        state.valid(),
        loop_laws::awaits(state, input),
        0 <= i < state.items.len(),
        state.items[i].item.success_check is Some,
        state.items[i].last_outcome != Some(ItemRunResult::Passed),
        !(input is Plan),
    ensures
        ({
            let next = loop_laws::told(state, input);
            next.items[i].last_outcome == Some(ItemRunResult::Passed) ==> {
                ||| (input matches LoopInput::Check { check } && check.passed)
                ||| (input matches LoopInput::Outcome { reply: Some(outcome), .. } && (
                outcome.check matches Some(check) && check.passed))
            }
        }),
{
    lemma_first_open(state.items, 0);
}

/// What a run of an item comes to: if a check was made, it passed exactly if the
/// check did; else exactly if the sub-agent reported it completed. A run that did not
/// pass is to be repaired if its check failed though it was reported completed, and
/// has failed otherwise.
pub proof fn runs_come_to(status: Seq<char>, check: Option<CheckResultView>)
    ensures
        ({
            let result = loop_state::classified(status, check);
            let completed = status == "completed"@;
            &&& result is Passed <==> (match check {
                Some(check) => check.passed,
                None => completed,
            })
            &&& result is Repairing <==> check is Some && !check->0.passed && completed
            &&& result is Failed <==> !completed && (check is Some ==> !check->0.passed)
        }),
{
}

/// The end of an item's run, with the given result and check: both are recorded with
/// the item and told, and nothing else about the plan changes. The loop goes on to
/// the next item after a pass if one is left that has not passed, and verifies
/// otherwise.
pub open spec fn is_concluded(
    state: LoopState,
    next: LoopState,
    i: int,
    result: ItemRunResult,
    check: Option<CheckResultView>,
) -> bool {
    let record = state.items[i];
    let told = GoalLoopEventView::ItemFinished {
        item_id: record.item.id,
        outcome: match result {
            ItemRunResult::Passed => ItemOutcomeKind::Passed,
            ItemRunResult::Repairing => ItemOutcomeKind::Repairing,
            ItemRunResult::Failed => ItemOutcomeKind::Failed,
        },
        check,
    };
    let others_open = exists|k: int|
        0 <= k < state.items.len() && k != i && (#[trigger] state.items[k]).last_outcome != Some(
            ItemRunResult::Passed,
        );
    &&& next.items == state.items.update(
        i,
        ItemRecordView {
            item: record.item,
            attempts: record.attempts,
            last_check: check,
            last_outcome: Some(result),
        },
    )
    &&& next.waiting is Signals
    &&& next.last_run == state.last_run && next.plans == state.plans
    &&& next.approved == state.approved
    &&& result is Passed && others_open ==> next.phase == state.phase && next.events
        == state.events.push(told)
    &&& !(result is Passed && others_open) ==> next.phase is Verify && next.events
        == state.events.push(told).push(
        GoalLoopEventView::PhaseChanged { from: state.phase, to: GoalLoopPhase::Verify },
    )
}

proof fn lemma_concluded(
    state: LoopState,
    i: int,
    result: ItemRunResult,
    check: Option<CheckResultView>,
)
    requires
        state.last_run == Some(i),
        0 <= i < state.items.len(),
        state.phase is Execute,
    ensures
        is_concluded(state, state.concluded(result, check), i, result, check),
        state.concluded(result, check).budget == state.budget,
{
    let record = state.items[i];
    let noted = ItemRecordView { last_check: check, last_outcome: Some(result), ..record };
    let items = state.items.update(i, noted);
    if result is Passed {
        if loop_state::all_passed(items) {
            assert forall|k: int| 0 <= k < state.items.len() && k != i implies (
            #[trigger] state.items[k]).last_outcome == Some(ItemRunResult::Passed) by {
                assert(items[k].passed());
            }
        } else {
            let k = choose|k: int| 0 <= k < items.len() && !(#[trigger] items[k]).passed();
            assert(k != i);
            assert(state.items[k].last_outcome != Some(ItemRunResult::Passed));
        }
    }
}

/// A sub-agent's reply, for an item without a success check or with the result of a
/// check brought along: its use is counted and told, then its run ends with what it
/// came to.
pub proof fn replies_end_runs(
    state: LoopState,
    i: int,
    outcome: ItemOutcomeView,
    elapsed_secs: u32,
    result: ItemRunResult,
)
    requires
        state.phase is Execute,
        state.last_run == Some(i),
        0 <= i < state.items.len(),
        outcome.check is Some || state.items[i].item.success_check is None,
        result is Passed <==> (match outcome.check {
            Some(check) => check.passed,
            None => outcome.status == "completed"@,
        }),
        result is Repairing <==> outcome.check is Some && !outcome.check->0.passed
            && outcome.status == "completed"@,
    ensures
        ({
            let next = state.outcome_given(Some(outcome), elapsed_secs);
            let budget = state.budget.recorded(outcome.usage);
            let spent = LoopState {
                events: state.events.push(
                    GoalLoopEventView::BudgetUpdate {
                        tokens_used: budget.tokens_used,
                        cents_used: budget.cents_used,
                        elapsed_secs,
                    },
                ),
                ..state
            };
            &&& next.budget == budget
            &&& is_concluded(spent, next, i, result, outcome.check)
        }),
{
    let budget = state.budget.recorded(outcome.usage);
    let billed = LoopState { budget, ..state }.emitted(
        GoalLoopEventView::BudgetUpdate {
            tokens_used: budget.tokens_used,
            cents_used: budget.cents_used,
            elapsed_secs,
        },
    );
    lemma_concluded(billed, i, result, outcome.check);
}

/// The result of a check that the loop ran ends the run with what it came to.
pub proof fn check_results_end_runs(
    state: LoopState,
    i: int,
    outcome: ItemOutcomeView,
    check: CheckResultView,
    result: ItemRunResult,
)
    requires
        state.phase is Execute,
        state.last_run == Some(i),
        0 <= i < state.items.len(),
        state.waiting == (WaitingView::Check { outcome }),
        result is Passed <==> check.passed,
        result is Repairing <==> !check.passed && outcome.status == "completed"@,
    ensures
        ({
            let next = state.check_given(check);
            &&& next.budget == state.budget
            &&& is_concluded(state, next, i, result, Some(check))
        }),
{
    lemma_concluded(state, i, result, Some(check));
}

/// A sub-agent that could not be run, or crashed, has failed its item. Nothing is
/// counted as used.
pub proof fn crashes_fail_runs(state: LoopState, i: int, elapsed_secs: u32)
    requires
        state.phase is Execute,
        state.last_run == Some(i),
        0 <= i < state.items.len(),
    ensures
        ({
            let next = state.outcome_given(None, elapsed_secs);
            &&& next.budget == state.budget
            &&& is_concluded(state, next, i, ItemRunResult::Failed, None)
        }),
{
    lemma_concluded(state, i, ItemRunResult::Failed, None);
}

/// How the end of a run shows: the item's record holds its result and its check, and
/// the event that tells of it names the item, the result and the check. No other
/// record changes.
pub proof fn ends_of_runs_are_recorded_and_told(
    state: LoopState,
    i: int,
    k: int,
    outcome: ItemOutcomeView,
    elapsed_secs: u32,
)
    requires
        state.phase is Execute,
        state.last_run == Some(i),
        0 <= i < state.items.len(),
        0 <= k < state.items.len(),
        outcome.check is Some || state.items[i].item.success_check is None,
    ensures
        ({
            let next = state.outcome_given(Some(outcome), elapsed_secs);
            let n = state.events.len() as int;
            &&& next.items.len() == state.items.len()
            &&& k != i ==> next.items[k] == state.items[k]
            &&& next.items[i].item == state.items[i].item
            &&& next.items[i].attempts == state.items[i].attempts
            &&& next.items[i].last_check == outcome.check
            &&& next.items[i].last_outcome is Some
            &&& next.events.len() > n + 1
            &&& next.events[n] == (GoalLoopEventView::BudgetUpdate {
                tokens_used: next.budget.tokens_used,
                cents_used: next.budget.cents_used,
                elapsed_secs,
            })
            &&& next.events[n + 1] matches GoalLoopEventView::ItemFinished {
                item_id,
                outcome: kind,
                check,
            } && item_id == state.items[i].item.id && check == outcome.check && {
                &&& kind is Passed <==> next.items[i].last_outcome == Some(ItemRunResult::Passed)
                &&& kind is Repairing <==> next.items[i].last_outcome == Some(
                    ItemRunResult::Repairing,
                )
                &&& kind is Failed <==> next.items[i].last_outcome == Some(ItemRunResult::Failed)
            }
        }),
{
    replies_end_runs(
        state,
        i,
        outcome,
        elapsed_secs,
        loop_state::classified(outcome.status, outcome.check),
    );
}

proof fn lemma_first_open(items: Seq<ItemRecordView>, from: int)
    requires
        0 <= from <= items.len(),
    ensures
        match loop_state::first_open_from(items, from) {
            Some(i) => from <= i < items.len() && items[i].last_outcome != Some(
                ItemRunResult::Passed,
            ) && forall|k: int|
                from <= k < i ==> (#[trigger] items[k]).last_outcome == Some(ItemRunResult::Passed),
            None => forall|k: int|
                from <= k < items.len() ==> (#[trigger] items[k]).last_outcome == Some(
                    ItemRunResult::Passed,
                ),
        },
    decreases items.len() - from,
{
    if from < items.len() && items[from].last_outcome == Some(ItemRunResult::Passed) {
        lemma_first_open(items, from + 1);
    }
}

/// Items are run in the plan's order: the first that has not passed is handed out.
/// Its run is counted, and each run after the first as a retry. Where the retries are
/// used up, the loop ends instead, and says so. Nothing else about the plan changes.
pub proof fn items_are_run_in_order(state: LoopState, elapsed_secs: u32, i: int, k: int)
    requires
        state.phase is Execute,
        state.budget.exceeded_at(elapsed_secs) is None,
        0 <= i < state.items.len(),
        state.items[i].last_outcome != Some(ItemRunResult::Passed),
        forall|j: int|
            0 <= j < i ==> (#[trigger] state.items[j]).last_outcome == Some(ItemRunResult::Passed),
        0 <= k < state.items.len(),
    ensures
        ({
            let next = state.observed(false, elapsed_secs);
            let record = state.items[i];
            let id = record.item.id;
            let runs = if record.attempts < 255 {
                record.attempts + 1
            } else {
                255
            };
            let first = record.attempts == 0;
            let allowed = state.budget.retry_count(id) < state.budget.caps.retries_per_item;
            &&& next.last_run == Some(i)
            &&& next.plans == state.plans && next.approved == state.approved
            &&& next.items.len() == state.items.len()
            &&& k != i ==> next.items[k] == state.items[k]
            &&& next.items[i].item == record.item && next.items[i].attempts == runs
            &&& next.items[i].last_check == record.last_check
            &&& first ==> next.budget == state.budget
            &&& !first ==> next.budget == state.budget.retried(id)
            &&& first || allowed ==> {
                &&& next.action() == (LoopActionView::Dispatch { item: record.item })
                &&& next.phase is Execute
                &&& next.items[i].last_outcome == record.last_outcome
                &&& next.events == state.events.push(GoalLoopEventView::ItemStarted { item_id: id })
            }
            &&& !first && !allowed ==> {
                &&& next.phase is Aborted
                &&& next.items[i].last_outcome == Some(ItemRunResult::Failed)
                &&& next.action() == (LoopActionView::Finish {
                    outcome: GoalLoopOutcomeView::Aborted {
                        reason: state.budget.retries_exceeded(id).message(),
                        items_completed: loop_state::passed_count(next.items),
                    },
                })
            }
        }),
{
    lemma_first_open(state.items, 0);
    let found = loop_state::first_open(state.items);
    assert(found == Some(i)) by {
        if let Some(j) = found {
            if j < i {
                assert(state.items[j].last_outcome == Some(ItemRunResult::Passed));
            } else if i < j {
                assert(state.items[i].last_outcome == Some(ItemRunResult::Passed));
            }
        }
    }
}

/// Outside the running of items, a step only changes the phase, or asks for a plan,
/// or ends the loop: as the phase has it, and once items have been verified, as they
/// stand. The end comes only after everything passed, or after three plans.
pub proof fn steps_follow_their_phase(state: LoopState, elapsed_secs: u32)
    requires
        state.budget.exceeded_at(elapsed_secs) is None,
        state.waiting is Signals,
        !(state.phase is Execute),
    ensures
        ({
            let next = state.observed(false, elapsed_secs);
            let everything = state.items.len() > 0 && forall|k: int|
                0 <= k < state.items.len() ==> (#[trigger] state.items[k]).last_outcome == Some(
                    ItemRunResult::Passed,
                );
            let repairable = state.last_run matches Some(i) && 0 <= i < state.items.len()
                && state.items[i].last_outcome == Some(ItemRunResult::Repairing);
            &&& next.items == state.items && next.budget == state.budget && next.plans
                == state.plans && next.last_run == state.last_run && next.approved == state.approved
            &&& state.phase is Define || state.phase is Decompose ==> next.phase is Decompose
                && next.waiting is Plan
            &&& state.phase is Dispatch ==> next.phase is Execute && next.waiting is Signals
            &&& state.phase is Verify ==> next.waiting is Signals && {
                &&& next.phase is Done <==> everything
                &&& next.phase is Repair <==> !everything && repairable
                &&& next.phase is Replan <==> !everything && !repairable
            }
            &&& state.phase is Repair ==> next.phase is Dispatch && next.waiting is Signals
            &&& state.phase is Replan && state.plans < 3 ==> next.phase is Decompose
                && next.waiting is Signals
            &&& state.phase is Replan && state.plans >= 3 ==> next.phase is Aborted
                && next.action() == (LoopActionView::Finish {
                outcome: GoalLoopOutcomeView::Aborted {
                    reason: "decompose attempts exhausted"@,
                    items_completed: loop_state::passed_count(state.items),
                },
            })
            &&& state.phase is Done ==> next.phase is Done && next.events == state.events.push(
                GoalLoopEventView::Done,
            ) && next.action() == (LoopActionView::Finish {
                outcome: GoalLoopOutcomeView::Done {
                    items_completed: loop_state::passed_count(state.items),
                },
            })
        }),
{
    if loop_state::all_passed(state.items) {
        assert forall|k: int| 0 <= k < state.items.len() implies (
        #[trigger] state.items[k]).last_outcome == Some(ItemRunResult::Passed) by {
            assert(state.items[k].passed());
        }
    }
}

/// With every item passed there is nothing to run, and the loop verifies.
pub proof fn a_plan_that_passed_is_verified(state: LoopState, elapsed_secs: u32)
    requires
        state.budget.exceeded_at(elapsed_secs) is None,
        state.phase is Execute,
        forall|k: int|
            0 <= k < state.items.len() ==> (#[trigger] state.items[k]).last_outcome == Some(
                ItemRunResult::Passed,
            ),
    ensures
        state.observed(false, elapsed_secs).phase is Verify,
        state.observed(false, elapsed_secs).items == state.items,
{
    lemma_first_open(state.items, 0);
}

/// Selecting takes each record whose passing is as wanted and leaves the others, in
/// order; and counting counts the ones that passed.
pub proof fn selecting_goes_by_passing(
    items: Seq<ItemRecordView>,
    record: ItemRecordView,
    wanted: bool,
)
    ensures
        loop_state::select(Seq::<ItemRecordView>::empty(), wanted).len() == 0,
        (record.last_outcome == Some(ItemRunResult::Passed)) == wanted ==> loop_state::select(
            items.push(record),
            wanted,
        ) == loop_state::select(items, wanted).push(record),
        (record.last_outcome == Some(ItemRunResult::Passed)) != wanted ==> loop_state::select(
            items.push(record),
            wanted,
        ) == loop_state::select(items, wanted),
        loop_state::passed_count(items) == loop_state::select(items, true).len(),
        loop_state::select(items, true).len() + loop_state::select(items, false).len()
            == items.len(),
{
    assert(items.push(record).drop_last() =~= items);
    lemma_selected(items);
}

proof fn lemma_selected(items: Seq<ItemRecordView>)
    ensures
        loop_state::select(items, true).len() + loop_state::select(items, false).len()
            == items.len(),
    decreases items.len(),
{
    if items.len() > 0 {
        lemma_selected(items.drop_last());
    }
}

/// A plan that arrives replaces what has not passed: the passed records stay, in
/// order, and behind them stands each new item, in order, as one that was never run.
/// The plan is counted and told, and the loop is ready to hand its items out.
pub proof fn plans_replace_what_is_open(state: LoopState, plan: Seq<PlanItemView>, i: int)
    requires
        state.phase is Decompose,
        plan.len() > 0,
        0 <= i < plan.len(),
    ensures
        ({
            let next = state.planned(Ok(plan));
            let kept = loop_state::select(state.items, true);
            let n = state.events.len() as int;
            &&& next.items.len() == kept.len() + plan.len()
            &&& next.items.take(kept.len() as int) == kept
            &&& next.items[kept.len() + i] == (ItemRecordView {
                item: plan[i],
                attempts: 0,
                last_check: None,
                last_outcome: None,
            })
            &&& next.plans == state.plans + 1
            &&& next.phase is Dispatch
            &&& next.budget == state.budget && next.approved == state.approved
            &&& next.events == state.events.push(
                GoalLoopEventView::PlanReady {
                    item_count: next.items.len(),
                    attempt: next.plans,
                },
            ).push(
                GoalLoopEventView::PhaseChanged {
                    from: GoalLoopPhase::Decompose,
                    to: GoalLoopPhase::Dispatch,
                },
            )
        }),
{
    let kept = loop_state::select(state.items, true);
    let next = state.planned(Ok(plan));
    assert(next.items.take(kept.len() as int) =~= kept);
}

/// Without a plan, or with an empty one, the loop ends, and says which it was: of a
/// first plan or of a later one.
pub proof fn loops_end_without_a_plan(state: LoopState, error: PlannerErrorView)
    requires
        !(state.phase is Aborted),
    ensures
        ({
            let completed = loop_state::passed_count(state.items);
            let failed = state.planned(Err(error));
            let empty = state.planned(Ok(Seq::empty()));
            &&& failed.phase is Aborted && empty.phase is Aborted
            &&& failed.items == state.items && empty.items == state.items
            &&& failed.plans == if state.plans == 0 {
                1
            } else {
                state.plans
            }
            &&& empty.plans == failed.plans
            &&& failed.action() == (LoopActionView::Finish {
                outcome: GoalLoopOutcomeView::Aborted {
                    reason: (if state.plans == 0 {
                        "decompose failed: "@
                    } else {
                        "replan failed: "@
                    }) + error.message(),
                    items_completed: completed,
                },
            })
            &&& empty.action() == (LoopActionView::Finish {
                outcome: GoalLoopOutcomeView::Aborted {
                    reason: if state.plans == 0 {
                        "planner produced zero items"@
                    } else {
                        "replan produced zero items"@
                    },
                    items_completed: completed,
                },
            })
        }),
{
}

/// Leave has to be asked for each check of the plan that runs a shell command which
/// was not approved, and for no other.
pub proof fn leave_is_needed_for_new_shell_commands(
    items: Seq<ItemRecordView>,
    record: ItemRecordView,
    approved: Seq<Seq<char>>,
)
    ensures
        loop_state::to_approve(Seq::<ItemRecordView>::empty(), approved).len() == 0,
        match record.item.success_check {
            Some(check) => loop_state::to_approve(items.push(record), approved) == if check.kind is Shell
                && !approved.contains(check.spec) {
                loop_state::to_approve(items, approved).push(check)
            } else {
                loop_state::to_approve(items, approved)
            },
            None => loop_state::to_approve(items.push(record), approved) == loop_state::to_approve(
                items,
                approved,
            ),
        },
{
    assert(items.push(record).drop_last() =~= items);
}

/// A plan waits for leave exactly if leave has to be asked for, and goes on exactly if
/// it is given: with all the commands approved that were asked for, and nothing else
/// changed. Without leave the loop ends.
pub proof fn plans_wait_for_leave(state: LoopState, plan: Seq<PlanItemView>)
    requires
        plan.len() > 0,
    ensures
        ({
            let next = state.planned(Ok(plan));
            &&& next.waiting is Approval <==> loop_state::to_approve(
                next.items,
                state.approved,
            ).len() > 0
            &&& next.waiting is Approval || next.waiting is Signals
        }),
        ({
            let asked = loop_state::to_approve(state.items, state.approved);
            let next = state.approval_given(true);
            &&& next.waiting is Signals
            &&& next.approved.len() == state.approved.len() + asked.len()
            &&& next.approved.take(state.approved.len() as int) == state.approved
            &&& forall|k: int|
                0 <= k < asked.len() ==> next.approved[state.approved.len() + k] == (
                #[trigger] asked[k]).spec
            &&& next.items == state.items && next.phase == state.phase && next.plans == state.plans
            &&& next.budget == state.budget && next.events == state.events
        }),
        !(state.phase is Aborted) ==> state.approval_given(false).phase is Aborted
            && state.approval_given(false).action() == (LoopActionView::Finish {
            outcome: GoalLoopOutcomeView::Aborted {
                reason: "shell command not allowed"@,
                items_completed: loop_state::passed_count(state.items),
            },
        }),
{
    let asked = loop_state::to_approve(state.items, state.approved);
    let next = state.approval_given(true);
    assert(next.approved.take(state.approved.len() as int) =~= state.approved);
}

/// What the driver has to do is what the loop waits for. A planner is asked for a
/// first plan first, and later for one that takes up what has not passed, told what
/// has; an item and a check are the ones of the last record that was run.
pub proof fn actions_answer_what_is_waited_for(state: LoopState, i: int, k: int)
    requires
        state.last_run == Some(i),
        0 <= i < state.items.len(),
    ensures
        state.waiting is Signals ==> state.action() is Observe,
        state.waiting is Plan && state.plans == 0 ==> state.action() is Decompose,
        state.waiting is Plan && state.plans > 0 ==> (state.action() matches LoopActionView::Replan {
            completed,
            failed,
        } && {
            let passed = loop_state::select(state.items, true);
            let open = loop_state::select(state.items, false);
            &&& completed.len() == passed.len() && failed.len() == open.len()
            &&& 0 <= k < passed.len() ==> completed[k] == passed[k].item
            &&& 0 <= k < open.len() ==> failed[k] == open[k].item
        }),
        state.waiting is Approval ==> state.action() == (LoopActionView::AskApproval {
            checks: loop_state::to_approve(state.items, state.approved),
        }),
        state.waiting is Outcome ==> state.action() == (LoopActionView::Dispatch {
            item: state.items[i].item,
        }),
        state.waiting is Check ==> state.action() == (LoopActionView::RunCheck {
            check: state.items[i].item.success_check->0,
        }),
        state.waiting matches WaitingView::Nothing { outcome } ==> state.action() == (
        LoopActionView::Finish { outcome }),
{
}

/// A loop starts with its goal, the goal's caps or only the retries capped, nothing
/// used, no plan and nothing told.
pub proof fn loops_start_empty(goal: GoalView)
    ensures
        ({
            let state = LoopState::fresh(goal);
            &&& state.goal == goal
            &&& goal.budget matches Some(caps) ==> state.budget == BudgetView::fresh(caps)
            &&& goal.budget is None ==> state.budget.caps == (GoalBudget {
                tokens: None,
                usd_cents: None,
                wall_secs: None,
                retries_per_item: 3,
            })
            &&& state.budget.tokens_used == 0 && state.budget.cents_used == 0
            &&& state.items.len() == 0 && state.phase is Define && state.plans == 0
            &&& state.last_run is None && state.approved.len() == 0
            &&& state.waiting is Signals && state.events.len() == 0
        }),
{
}

/// A loop that gives up tells the change of phase and then the reason, ends with that
/// reason and the number of items that passed, and changes nothing else but what its
/// goal tells of the phase.
pub proof fn giving_up_is_told(state: LoopState, reason: Seq<char>)
    requires
        !(state.phase is Aborted),
    ensures
        ({
            let next = state.aborted(reason);
            &&& next.phase is Aborted && next.goal.loop_phase is None
            &&& next.events == state.events.push(
                GoalLoopEventView::PhaseChanged { from: state.phase, to: GoalLoopPhase::Aborted },
            ).push(GoalLoopEventView::Aborted { reason })
            &&& next.waiting == (WaitingView::Nothing {
                outcome: GoalLoopOutcomeView::Aborted {
                    reason,
                    items_completed: loop_state::passed_count(state.items),
                },
            })
            &&& next.items == state.items && next.budget == state.budget && next.plans
                == state.plans && next.last_run == state.last_run && next.approved == state.approved
        }),
{
}

/// The changes of phase that a loop may make: one way on from each phase but from
/// `Verify`, which has three, none from the terminal ones, and giving up from all.
pub proof fn phases_lead_on(from: GoalLoopPhase, to: GoalLoopPhase)
    requires
        !(to is Aborted),
    ensures
        loop_state::is_edge(from, to) <==> (match from {
            GoalLoopPhase::Define => to is Decompose,
            GoalLoopPhase::Decompose => to is Dispatch,
            GoalLoopPhase::Dispatch => to is Execute,
            GoalLoopPhase::Execute => to is Verify,
            GoalLoopPhase::Verify => to is Done || to is Repair || to is Replan,
            GoalLoopPhase::Repair => to is Dispatch,
            GoalLoopPhase::Replan => to is Decompose,
            GoalLoopPhase::Done | GoalLoopPhase::Aborted => false,
        }),
        loop_state::is_edge(from, GoalLoopPhase::Aborted),
{
}

/// The result of a run is told by the word of the same name.
pub proof fn results_are_told_by_name(result: ItemRunResult)
    ensures
        result is Passed <==> result.as_kind() is Passed,
        result is Repairing <==> result.as_kind() is Repairing,
        result is Failed <==> result.as_kind() is Failed,
{
}

/// A sub-agent's outcome reaches the loop as it came. Of a sub-agent that failed to
/// run, the loop learns that and nothing more, whatever the error.
pub proof fn sub_agents_are_quoted(outcome: ItemOutcome, error: DispatcherError)
    ensures
        controller::outcome_told(Ok(outcome)) == Some(outcome@),
        controller::outcome_told(Err(error)) is None,
{
}

} // verus!
