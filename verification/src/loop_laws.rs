//! What holds of every goal loop.
use crate::agents::{ItemOutcomeView, PlannerErrorView};
use crate::budget::BudgetView;
use crate::checks::CheckResultView;
use crate::events::{GoalLoopEventView, ItemOutcomeKind};
use crate::goal::GoalView;
use crate::loop_state::{
    GoalLoopOutcomeView, ItemRecordView, ItemRunResult, LoopActionView, LoopState, WaitingView,
    MAX_PLANS,
};
use crate::loop_state;
use crate::names::GoalLoopPhase;
use crate::plan::PlanItemView;
use vstd::prelude::*;

verus! {

/// What a loop can be told.
pub enum LoopInput {
    Signals { abort_raised: bool, elapsed_secs: u32 },
    Plan { reply: Result<Seq<PlanItemView>, PlannerErrorView> },
    Approval { allowed: bool },
    Outcome { reply: Option<ItemOutcomeView>, elapsed_secs: u32 },
    Check { check: CheckResultView },
}

/// The loop waits for this kind of input.
pub open spec fn awaits(state: LoopState, input: LoopInput) -> bool {
    match input {
        LoopInput::Signals { .. } => state.waiting is Signals,
        LoopInput::Plan { .. } => state.waiting is Plan,
        LoopInput::Approval { .. } => state.waiting is Approval,
        LoopInput::Outcome { .. } => state.waiting is Outcome,
        LoopInput::Check { .. } => state.waiting is Check,
    }
}

/// The loop once it was told.
pub open spec fn told(state: LoopState, input: LoopInput) -> LoopState {
    match input {
        LoopInput::Signals { abort_raised, elapsed_secs } => state.observed(
            abort_raised,
            elapsed_secs,
        ),
        LoopInput::Plan { reply } => state.planned(reply),
        LoopInput::Approval { allowed } => state.approval_given(allowed),
        LoopInput::Outcome { reply, elapsed_secs } => state.outcome_given(reply, elapsed_secs),
        LoopInput::Check { check } => state.check_given(check),
    }
}

pub proof fn lemma_select(items: Seq<ItemRecordView>, wanted: bool)
    ensures
        loop_state::select(items, wanted).len() <= items.len(),
        forall|k: int|
            #![trigger loop_state::select(items, wanted)[k]]
            0 <= k < loop_state::select(items, wanted).len() ==> items.contains(
                loop_state::select(items, wanted)[k],
            ) && loop_state::select(items, wanted)[k].passed() == wanted,
        (forall|i: int| 0 <= i < items.len() ==> (#[trigger] items[i]).passed() == wanted)
            ==> loop_state::select(items, wanted) == items,
    decreases items.len(),
{
    if items.len() > 0 {
        let rest = items.drop_last();
        lemma_select(rest, wanted);
        let chosen = loop_state::select(items, wanted);
        assert forall|k: int| #![trigger chosen[k]] 0 <= k < chosen.len() implies items.contains(
            chosen[k],
        ) && chosen[k].passed() == wanted by {
            let inner = loop_state::select(rest, wanted);
            if k < inner.len() {
                assert(chosen[k] == inner[k]);
                let j = choose|j: int| 0 <= j < rest.len() && rest[j] == inner[k];
                assert(items[j] == chosen[k]);
            } else {
                assert(items[items.len() - 1] == chosen[k]);
            }
        }
        if forall|i: int| 0 <= i < items.len() ==> (#[trigger] items[i]).passed() == wanted {
            assert forall|i: int| 0 <= i < rest.len() implies (#[trigger] rest[i]).passed()
                == wanted by {
                assert(rest[i] == items[i]);
            }
            assert(items[items.len() - 1].passed() == wanted);
            assert(rest.push(items.last()) =~= items);
        }
    }
}

proof fn lemma_first_open_from(items: Seq<ItemRecordView>, from: int)
    requires
        0 <= from <= items.len(),
    ensures
        match loop_state::first_open_from(items, from) {
            Some(i) => from <= i < items.len() && !items[i].passed() && forall|k: int|
                from <= k < i ==> (#[trigger] items[k]).passed(),
            None => forall|k: int| from <= k < items.len() ==> (#[trigger] items[k]).passed(),
        },
    decreases items.len() - from,
{
    if from < items.len() && items[from].passed() {
        lemma_first_open_from(items, from + 1);
    }
}

proof fn lemma_to_approve(items: Seq<ItemRecordView>, approved: Seq<Seq<char>>)
    ensures
        loop_state::to_approve(items, approved).len() == 0 <==> forall|i: int|
            0 <= i < items.len() ==> !loop_state::is_unapproved(#[trigger] items[i], approved),
        forall|i: int|
            #![trigger items[i]]
            0 <= i < items.len() && loop_state::is_unapproved(items[i], approved)
                ==> loop_state::to_approve(items, approved).contains(
                items[i].item.success_check->0,
            ),
        forall|k: int|
            #![trigger loop_state::to_approve(items, approved)[k]]
            0 <= k < loop_state::to_approve(items, approved).len() ==> {
                &&& loop_state::to_approve(items, approved)[k].kind is Shell
                &&& !approved.contains(loop_state::to_approve(items, approved)[k].spec)
            },
    decreases items.len(),
{
    if items.len() > 0 {
        let front = items.drop_last();
        lemma_to_approve(front, approved);
        let inner = loop_state::to_approve(front, approved);
        let all = loop_state::to_approve(items, approved);
        let last = items.len() - 1;
        assert(items[last] == items.last());
        assert forall|i: int|
            #![trigger items[i]]
            0 <= i < items.len() && loop_state::is_unapproved(items[i], approved) implies all.contains(
            items[i].item.success_check->0,
        ) by {
            if i < last {
                assert(front[i] == items[i]);
                let k = choose|k: int|
                    0 <= k < inner.len() && inner[k] == front[i].item.success_check->0;
                assert(all[k] == inner[k]);
            } else {
                assert(all[all.len() - 1] == items[i].item.success_check->0);
            }
        }
        if all.len() == 0 {
            assert forall|i: int| 0 <= i < items.len() implies !loop_state::is_unapproved(
                #[trigger] items[i],
                approved,
            ) by {
                if i < last {
                    assert(front[i] == items[i]);
                }
            }
        } else {
            if inner.len() > 0 {
                let i = choose|i: int|
                    0 <= i < front.len() && loop_state::is_unapproved(#[trigger] front[i], approved);
                assert(items[i] == front[i]);
            }
        }
        assert forall|k: int| #![trigger all[k]] 0 <= k < all.len() implies {
            &&& all[k].kind is Shell
            &&& !approved.contains(all[k].spec)
        } by {
            if k < inner.len() {
                assert(all[k] == inner[k]);
            }
        }
    }
}

/// With the commands approved that were asked for, none is left to ask for.
proof fn lemma_approved(items: Seq<ItemRecordView>, approved: Seq<Seq<char>>)
    ensures
        ({
            let asked = loop_state::commands_of(loop_state::to_approve(items, approved));
            forall|i: int|
                0 <= i < items.len() ==> !loop_state::is_unapproved(
                    #[trigger] items[i],
                    approved + asked,
                )
        }),
{
    let checks = loop_state::to_approve(items, approved);
    let asked = loop_state::commands_of(checks);
    lemma_to_approve(items, approved);
    assert forall|i: int| 0 <= i < items.len() implies !loop_state::is_unapproved(
        #[trigger] items[i],
        approved + asked,
    ) by {
        if let Some(check) = items[i].item.success_check {
            if approved.contains(check.spec) {
                let k = choose|k: int| 0 <= k < approved.len() && approved[k] == check.spec;
                assert((approved + asked)[k] == check.spec);
            } else if check.kind is Shell {
                let k = choose|k: int| 0 <= k < checks.len() && checks[k] == check;
                assert(asked[k] == check.spec);
                assert((approved + asked)[approved.len() + k] == check.spec);
            }
        }
    }
}

proof fn lemma_started_is_valid(state: LoopState, i: int)
    requires
        state.valid(),
        state.phase is Execute,
        0 <= i < state.items.len(),
        !state.items[i].passed(),
    ensures
        state.started(i).valid(),
{
    let next = state.started(i);
    let record = state.items[i];
    let id = record.item.id;
    assert(next.items.len() == state.items.len());
    if !(next.phase is Aborted) {
        assert(!next.items[i].passed());
        assert forall|other: Seq<char>| #[trigger]
            next.budget.retry_count(other) <= next.budget.caps.retries_per_item by {
            assert(state.budget.retry_count(other) <= state.budget.caps.retries_per_item);
        }
        assert forall|k: int| 0 <= k < next.items.len() implies (#[trigger] next.items[k]).attempts
            <= next.budget.retry_count(next.items[k].item.id) + 1 by {
            assert(state.items[k].attempts <= state.budget.retry_count(state.items[k].item.id) + 1);
        }
    }
}

proof fn lemma_concluded_is_valid(
    state: LoopState,
    result: ItemRunResult,
    check: Option<CheckResultView>,
)
    requires
        state.runs_an_item(),
        state.retries_fit(),
        state.approvals_fit(),
        !(state.waiting is Approval),
        state.goal.loop_phase == loop_state::phase_told(state.phase),
        0 < state.plans <= MAX_PLANS,
    ensures
        state.concluded(result, check).valid(),
{
    let i = state.last_run->0;
    let next = state.concluded(result, check);
    assert(next.items.len() == state.items.len());
    assert forall|k: int| 0 <= k < next.items.len() implies !loop_state::is_unapproved(
        #[trigger] next.items[k],
        next.approved,
    ) by {
        assert(!loop_state::is_unapproved(state.items[k], state.approved));
    }
    assert forall|k: int| 0 <= k < next.items.len() implies (#[trigger] next.items[k]).attempts
        <= next.budget.retry_count(next.items[k].item.id) + 1 by {
        assert(state.items[k].attempts <= state.budget.retry_count(state.items[k].item.id) + 1);
    }
}

/// A loop starts out valid, and whatever it is told, it stays so.
pub proof fn loops_stay_valid(goal: GoalView, state: LoopState, input: LoopInput)
    requires
        state.valid(),
        awaits(state, input),
    ensures
        LoopState::fresh(goal).valid(),
        told(state, input).valid(),
{
    let next = told(state, input);
    match input {
        LoopInput::Signals { abort_raised, elapsed_secs } => {
            if state.phase is Execute {
                lemma_first_open_from(state.items, 0);
                if let Some(i) = loop_state::first_open(state.items) {
                    lemma_started_is_valid(state, i);
                }
            }
            lemma_select(state.items, true);
            if !loop_state::all_passed(state.items) && state.items.len() > 0 {
                let k = choose|k: int| 0 <= k < state.items.len() && !(#[trigger] state.items[k]).passed();
                assert(!state.items[k].passed());
            }
        },
        LoopInput::Approval { allowed } => {
            if allowed {
                lemma_approved(state.items, state.approved);
            }
        },
        LoopInput::Plan { reply } => {
            if let Ok(items) = reply {
                if items.len() > 0 {
                    lemma_to_approve(next.items, next.approved);
                    lemma_select(state.items, true);
                    let kept = loop_state::select(state.items, true);
                    assert(!next.items[kept.len() as int].passed());
                    assert forall|k: int| 0 <= k < next.items.len() implies (
                    #[trigger] next.items[k]).attempts <= next.budget.retry_count(
                        next.items[k].item.id,
                    ) + 1 by {
                        if k < kept.len() {
                            assert(next.items[k] == kept[k]);
                            let j = choose|j: int|
                                0 <= j < state.items.len() && state.items[j] == kept[k];
                            assert(state.items[j].attempts <= state.budget.retry_count(
                                state.items[j].item.id,
                            ) + 1);
                        }
                    }
                }
            }
        },
        LoopInput::Outcome { reply, elapsed_secs } => {
            match reply {
                None => {
                    lemma_concluded_is_valid(state, ItemRunResult::Failed, None);
                },
                Some(outcome) => {
                    let budget = state.budget.recorded(outcome.usage);
                    let billed = LoopState { budget, ..state }.emitted(
                        GoalLoopEventView::BudgetUpdate {
                            tokens_used: budget.tokens_used,
                            cents_used: budget.cents_used,
                            elapsed_secs,
                        },
                    );
                    assert forall|id: Seq<char>| #[trigger]
                        budget.retry_count(id) <= budget.caps.retries_per_item by {
                        assert(state.budget.retry_count(id) <= state.budget.caps.retries_per_item);
                    }
                    assert forall|k: int| 0 <= k < billed.items.len() implies (
                    #[trigger] billed.items[k]).attempts <= billed.budget.retry_count(
                        billed.items[k].item.id,
                    ) + 1 by {
                        assert(state.items[k].attempts <= state.budget.retry_count(
                            state.items[k].item.id,
                        ) + 1);
                    }
                    lemma_concluded_is_valid(
                        billed,
                        loop_state::classified(outcome.status, outcome.check),
                        outcome.check,
                    );
                },
            }
        },
        LoopInput::Check { check } => {
            lemma_concluded_is_valid(
                state,
                loop_state::classified(state.waiting->Check_outcome.status, Some(check)),
                Some(check),
            );
        },
    }
}

/// The phase that a list of events leads to from `from`, if every change of phase
/// in it starts where the one before ended and is one that loops may make.
pub open spec fn trail(from: GoalLoopPhase, events: Seq<GoalLoopEventView>) -> Option<GoalLoopPhase>
    decreases events.len(),
{
    if events.len() == 0 {
        Some(from)
    } else {
        let before = trail(from, events.drop_last());
        match events.last() {
            GoalLoopEventView::PhaseChanged { from: left, to } => if before == Some(left)
                && loop_state::is_edge(left, to) {
                Some(to)
            } else {
                None
            },
            _ => before,
        }
    }
}

/// From `from`, the events after the first `n` lead to the state's phase.
spec fn leads_here(from: GoalLoopPhase, n: nat, state: LoopState) -> bool {
    &&& n <= state.events.len()
    &&& trail(from, state.events.skip(n as int)) == Some(state.phase)
}

proof fn lemma_emitted_leads(
    from: GoalLoopPhase,
    n: nat,
    state: LoopState,
    event: GoalLoopEventView,
)
    requires
        leads_here(from, n, state),
        !(event is PhaseChanged),
    ensures
        leads_here(from, n, state.emitted(event)),
        state.emitted(event).events.take(n as int) == state.events.take(n as int),
{
    let next = state.emitted(event);
    assert(next.events.skip(n as int).drop_last() =~= state.events.skip(n as int));
    assert(next.events.take(n as int) =~= state.events.take(n as int));
}

proof fn lemma_moved_leads(from: GoalLoopPhase, n: nat, state: LoopState, to: GoalLoopPhase)
    requires
        leads_here(from, n, state),
        to == state.phase || loop_state::is_edge(state.phase, to),
    ensures
        leads_here(from, n, state.moved(to)),
        state.moved(to).events.take(n as int) == state.events.take(n as int),
{
    let next = state.moved(to);
    if to != state.phase {
        assert(next.events.skip(n as int).drop_last() =~= state.events.skip(n as int));
        assert(next.events.take(n as int) =~= state.events.take(n as int));
    }
}

proof fn lemma_aborted_leads(from: GoalLoopPhase, n: nat, state: LoopState, reason: Seq<char>)
    requires
        leads_here(from, n, state),
    ensures
        leads_here(from, n, state.aborted(reason)),
        state.aborted(reason).events.take(n as int) == state.events.take(n as int),
{
    let moved = state.moved(GoalLoopPhase::Aborted);
    lemma_moved_leads(from, n, state, GoalLoopPhase::Aborted);
    lemma_emitted_leads(from, n, moved, GoalLoopEventView::Aborted { reason });
}

proof fn lemma_started_leads(from: GoalLoopPhase, n: nat, state: LoopState, i: int)
    requires
        leads_here(from, n, state),
    ensures
        leads_here(from, n, state.started(i)),
        state.started(i).events.take(n as int) == state.events.take(n as int),
{
    let record = state.items[i];
    let id = record.item.id;
    let attempts: u8 = if record.attempts == u8::MAX {
        u8::MAX
    } else {
        (record.attempts + 1) as u8
    };
    let counted = LoopState {
        last_run: Some(i),
        ..state.with_record(i, ItemRecordView { attempts, ..record })
    };
    let retried = LoopState { budget: state.budget.retried(id), ..counted };
    let failed = retried.with_record(
        i,
        ItemRecordView { attempts, last_outcome: Some(ItemRunResult::Failed), ..record },
    );
    lemma_emitted_leads(from, n, counted, GoalLoopEventView::ItemStarted { item_id: id });
    lemma_emitted_leads(from, n, retried, GoalLoopEventView::ItemStarted { item_id: id });
    lemma_aborted_leads(from, n, failed, state.budget.retries_exceeded(id).message());
}

proof fn lemma_stepped_leads(from: GoalLoopPhase, n: nat, state: LoopState)
    requires
        leads_here(from, n, state),
    ensures
        leads_here(from, n, state.stepped()),
        state.stepped().events.take(n as int) == state.events.take(n as int),
{
    match state.phase {
        GoalLoopPhase::Decompose => {},
        GoalLoopPhase::Dispatch => {
            lemma_moved_leads(from, n, state, GoalLoopPhase::Execute);
        },
        GoalLoopPhase::Execute => {
            match loop_state::first_open(state.items) {
                Some(i) => {
                    lemma_started_leads(from, n, state, i);
                },
                None => {
                    lemma_moved_leads(from, n, state, GoalLoopPhase::Verify);
                },
            }
        },
        GoalLoopPhase::Verify => {
            lemma_moved_leads(from, n, state, state.after_verify());
        },
        GoalLoopPhase::Repair => {
            lemma_moved_leads(from, n, state, GoalLoopPhase::Dispatch);
        },
        GoalLoopPhase::Replan => {
            lemma_aborted_leads(from, n, state, "decompose attempts exhausted"@);
            lemma_moved_leads(from, n, state, GoalLoopPhase::Decompose);
        },
        GoalLoopPhase::Done => {
            lemma_emitted_leads(from, n, state, GoalLoopEventView::Done);
        },
        GoalLoopPhase::Define | GoalLoopPhase::Aborted => {},
    }
}

proof fn lemma_concluded_leads(
    from: GoalLoopPhase,
    n: nat,
    state: LoopState,
    result: ItemRunResult,
    check: Option<CheckResultView>,
)
    requires
        leads_here(from, n, state),
        state.phase is Execute,
    ensures
        leads_here(from, n, state.concluded(result, check)),
        state.concluded(result, check).events.take(n as int) == state.events.take(n as int),
{
    let i = state.last_run->0;
    let record = state.items[i];
    let kept = state.with_record(
        i,
        ItemRecordView { last_check: check, last_outcome: Some(result), ..record },
    );
    let event = GoalLoopEventView::ItemFinished {
        item_id: record.item.id,
        outcome: result.as_kind(),
        check,
    };
    lemma_emitted_leads(from, n, kept, event);
    lemma_moved_leads(
        from,
        n,
        kept.emitted(event).waiting_for(WaitingView::Signals),
        GoalLoopPhase::Verify,
    );
}

/// Whatever a loop is told, it only adds events, and the changes of phase among
/// them lead along the edges of the state machine from the phase the loop was in
/// to the phase it is in.
pub proof fn phases_change_along_edges(state: LoopState, input: LoopInput)
    requires
        state.valid(),
        awaits(state, input),
    ensures
        ({
            let next = told(state, input);
            let n = state.events.len() as int;
            &&& n <= next.events.len()
            &&& next.events.take(n) == state.events
            &&& trail(state.phase, next.events.skip(n)) == Some(next.phase)
        }),
{
    let from = state.phase;
    let n = state.events.len();
    assert(state.events.skip(n as int) =~= Seq::empty());
    assert(state.events.take(n as int) =~= state.events);
    assert(leads_here(from, n, state));
    match input {
        LoopInput::Signals { abort_raised, elapsed_secs } => {
            lemma_moved_leads(from, n, state, if state.phase is Define {
                GoalLoopPhase::Decompose
            } else {
                state.phase
            });
            let begun = if state.phase is Define {
                state.moved(GoalLoopPhase::Decompose)
            } else {
                state
            };
            lemma_aborted_leads(from, n, begun, "user abort"@);
            if let Some(reason) = begun.budget.exceeded_at(elapsed_secs) {
                lemma_aborted_leads(from, n, begun, reason.message());
            }
            lemma_stepped_leads(from, n, begun);
        },
        LoopInput::Approval { .. } => {
            lemma_aborted_leads(from, n, state, "shell command not allowed"@);
        },
        LoopInput::Plan { reply } => {
            let first = state.plans == 0;
            let asked = if first {
                LoopState { plans: 1, ..state }
            } else {
                state
            };
            assert(leads_here(from, n, asked));
            match reply {
                Err(error) => {
                    lemma_aborted_leads(from, n, asked, "decompose failed: "@ + error.message());
                    lemma_aborted_leads(from, n, asked, "replan failed: "@ + error.message());
                },
                Ok(items) => {
                    lemma_aborted_leads(from, n, asked, "planner produced zero items"@);
                    lemma_aborted_leads(from, n, asked, "replan produced zero items"@);
                    let records = loop_state::select(state.items, true)
                        + loop_state::fresh_records(items);
                    let ready = LoopState { items: records, plans: state.plans + 1, ..state };
                    let event = GoalLoopEventView::PlanReady {
                        item_count: records.len(),
                        attempt: state.plans + 1,
                    };
                    assert(leads_here(from, n, ready));
                    lemma_emitted_leads(from, n, ready, event);
                    lemma_moved_leads(from, n, ready.emitted(event), GoalLoopPhase::Dispatch);
                },
            }
        },
        LoopInput::Outcome { reply, elapsed_secs } => {
            match reply {
                None => {
                    lemma_concluded_leads(from, n, state, ItemRunResult::Failed, None);
                },
                Some(outcome) => {
                    let budget = state.budget.recorded(outcome.usage);
                    let event = GoalLoopEventView::BudgetUpdate {
                        tokens_used: budget.tokens_used,
                        cents_used: budget.cents_used,
                        elapsed_secs,
                    };
                    let spent = LoopState { budget, ..state };
                    assert(leads_here(from, n, spent));
                    lemma_emitted_leads(from, n, spent, event);
                    lemma_concluded_leads(
                        from,
                        n,
                        spent.emitted(event),
                        loop_state::classified(outcome.status, outcome.check),
                        outcome.check,
                    );
                },
            }
        },
        LoopInput::Check { check } => {
            lemma_concluded_leads(
                from,
                n,
                state,
                loop_state::classified(state.waiting->Check_outcome.status, Some(check)),
                Some(check),
            );
        },
    }
}

/// The end of a loop is final and means what it says: a loop that is over has
/// reached a terminal phase and waits for nothing, an aborted loop is over at
/// once, and a loop that is done has passed every one of its items.
pub proof fn loops_end_by_criteria(state: LoopState, input: LoopInput)
    requires
        state.valid(),
    ensures
        state.waiting is Nothing ==> state.phase.terminal() && !awaits(state, input),
        state.phase is Aborted ==> state.waiting is Nothing,
        state.phase is Done ==> loop_state::all_passed(state.items) && loop_state::passed_count(
            state.items,
        ) == state.items.len(),
        state.waiting matches WaitingView::Nothing { outcome } ==> match outcome {
            GoalLoopOutcomeView::Done { items_completed } => state.phase is Done && items_completed
                == state.items.len(),
            GoalLoopOutcomeView::Aborted { items_completed, .. } => state.phase is Aborted
                && items_completed == loop_state::passed_count(state.items),
        },
{
    lemma_select(state.items, true);
}

/// Of the reasons to stop, a raised abort flag comes first, an exceeded budget
/// second, and everything having passed third.
pub proof fn stop_conditions_are_ordered(state: LoopState, abort_raised: bool, elapsed_secs: u32)
    requires
        state.valid(),
        state.waiting is Signals,
    ensures
        ({
            let next = state.observed(abort_raised, elapsed_secs);
            let completed = loop_state::passed_count(state.items);
            &&& abort_raised ==> next.phase is Aborted && next.action() == (LoopActionView::Finish {
                outcome: GoalLoopOutcomeView::Aborted {
                    reason: "user abort"@,
                    items_completed: completed,
                },
            })
            &&& !abort_raised ==> (state.budget.exceeded_at(elapsed_secs) matches Some(reason)
                ==> next.phase is Aborted && next.action() == (LoopActionView::Finish {
                outcome: GoalLoopOutcomeView::Aborted {
                    reason: reason.message(),
                    items_completed: completed,
                },
            }))
            &&& !abort_raised && state.budget.exceeded_at(elapsed_secs) is None
                && state.phase is Done ==> next.action() == (LoopActionView::Finish {
                outcome: GoalLoopOutcomeView::Done { items_completed: state.items.len() },
            })
        }),
{
    lemma_select(state.items, true);
}

proof fn lemma_select_concat(a: Seq<ItemRecordView>, b: Seq<ItemRecordView>, wanted: bool)
    ensures
        loop_state::select(a + b, wanted) == loop_state::select(a, wanted) + loop_state::select(
            b,
            wanted,
        ),
    decreases b.len(),
{
    if b.len() == 0 {
        assert(a + b =~= a);
        assert(loop_state::select(a, wanted) + loop_state::select(b, wanted) =~= loop_state::select(
            a,
            wanted,
        ));
    } else {
        lemma_select_concat(a, b.drop_last(), wanted);
        assert((a + b).drop_last() =~= a + b.drop_last());
        assert((a + b).last() == b.last());
        assert(loop_state::select(a + b, wanted) =~= loop_state::select(a, wanted)
            + loop_state::select(b, wanted));
    }
}

/// An item that passed stays in the plan as it is, through every new plan, and
/// is never run again. So the number of items that passed never shrinks.
pub proof fn passed_work_is_kept(state: LoopState, input: LoopInput, record: ItemRecordView)
    requires
        state.valid(),
        awaits(state, input),
    ensures
        record.passed() && state.items.contains(record) ==> told(state, input).items.contains(
            record,
        ),
        loop_state::passed_count(told(state, input).items) >= loop_state::passed_count(state.items),
        state.action() is Dispatch ==> state.last_run is Some
            && !state.items[state.last_run->0].passed(),
{
    let next = told(state, input);
    lemma_first_open_from(state.items, 0);
    let held = record.passed() && state.items.contains(record);
    let at = choose|k: int| 0 <= k < state.items.len() && state.items[k] == record;
    match input {
        LoopInput::Signals { abort_raised, elapsed_secs } => {
            if let Some(i) = loop_state::first_open(state.items) {
                if next.items != state.items {
                    assert(next.items =~= state.items.update(i, next.items[i]));
                    lemma_open_update_counts(state.items, i, next.items[i]);
                    if held {
                        assert(next.items[at] == record);
                    }
                }
            }
        },
        LoopInput::Approval { .. } => {},
        LoopInput::Plan { reply } => {
            if next.items != state.items {
                let items = reply->Ok_0;
                let kept = loop_state::select(state.items, true);
                lemma_select_concat(kept, loop_state::fresh_records(items), true);
                lemma_select(state.items, true);
                lemma_select(kept, true);
                if held {
                    lemma_select_finds(state.items, at);
                    let k = choose|k: int| 0 <= k < kept.len() && kept[k] == record;
                    assert(next.items[k] == record);
                }
            }
        },
        LoopInput::Outcome { .. } | LoopInput::Check { .. } => {
            let i = state.last_run->0;
            assert(next.items =~= state.items.update(i, next.items[i]));
            lemma_open_update_counts(state.items, i, next.items[i]);
            if held {
                assert(next.items[at] == record);
            }
        },
    }
}

proof fn lemma_select_finds(items: Seq<ItemRecordView>, i: int)
    requires
        0 <= i < items.len(),
        items[i].passed(),
    ensures
        loop_state::select(items, true).contains(items[i]),
    decreases items.len(),
{
    let chosen = loop_state::select(items, true);
    if i == items.len() - 1 {
        assert(chosen[chosen.len() - 1] == items[i]);
    } else {
        let rest = items.drop_last();
        lemma_select_finds(rest, i);
        let inner = loop_state::select(rest, true);
        let k = choose|k: int| 0 <= k < inner.len() && inner[k] == rest[i];
        assert(chosen[k] == items[i]);
    }
}

/// Until a loop is aborted, no item is run more often than once plus the retries
/// that the budget allows, and no more plans are made than the loop may ask for.
pub proof fn runs_and_plans_are_capped(state: LoopState, i: int)
    requires
        state.valid(),
        !(state.phase is Aborted),
        0 <= i < state.items.len(),
    ensures
        state.items[i].attempts <= state.budget.caps.retries_per_item + 1,
        state.plans <= MAX_PLANS,
{
    assert(state.items[i].attempts <= state.budget.retry_count(state.items[i].item.id) + 1);
}

/// How often a record may still be run under its plan: once for its first run,
/// and once for each retry that is left.
pub open spec fn runs_left_of(record: ItemRecordView, budget: BudgetView) -> nat {
    let cap = budget.caps.retries_per_item;
    let used = budget.retry_count(record.item.id);
    let first: nat = if record.attempts == 0 {
        1
    } else {
        0
    };
    if used <= cap {
        first + (cap - used) as nat
    } else {
        first
    }
}

/// How often all the records together may still be run under their plan.
pub open spec fn runs_left(items: Seq<ItemRecordView>, budget: BudgetView) -> nat
    decreases items.len(),
{
    if items.len() == 0 {
        0
    } else {
        runs_left(items.drop_last(), budget) + runs_left_of(items.last(), budget)
    }
}

/// Zero for a loop that is over, one for any other.
pub open spec fn loops_left(state: LoopState) -> nat {
    if state.waiting is Nothing {
        0
    } else {
        1
    }
}

/// How many plans the loop may still ask for.
pub open spec fn plans_left(state: LoopState) -> nat {
    (MAX_PLANS - state.plans) as nat
}

/// A bound on the steps until the loop runs an item, plans or ends.
pub open spec fn steps_left(state: LoopState) -> nat {
    match state.waiting {
        WaitingView::Outcome => 9,
        WaitingView::Check { .. } => 8,
        WaitingView::Approval => 5,
        WaitingView::Plan => 3,
        WaitingView::Nothing { .. } => 0,
        WaitingView::Signals => match state.phase {
            GoalLoopPhase::Define => 7,
            GoalLoopPhase::Verify => 6,
            GoalLoopPhase::Repair => 5,
            GoalLoopPhase::Replan => 5,
            GoalLoopPhase::Dispatch => 4,
            GoalLoopPhase::Decompose => 4,
            GoalLoopPhase::Execute => 3,
            GoalLoopPhase::Done => 2,
            GoalLoopPhase::Aborted => 0,
        },
    }
}

proof fn lemma_runs_left_shrink(
    items: Seq<ItemRecordView>,
    budget: BudgetView,
    next_items: Seq<ItemRecordView>,
    next_budget: BudgetView,
)
    requires
        items.len() == next_items.len(),
        forall|k: int|
            0 <= k < items.len() ==> runs_left_of(#[trigger] next_items[k], next_budget)
                <= runs_left_of(items[k], budget),
    ensures
        runs_left(next_items, next_budget) <= runs_left(items, budget),
        (exists|k: int|
            0 <= k < items.len() && runs_left_of(#[trigger] next_items[k], next_budget)
                < runs_left_of(items[k], budget)) ==> runs_left(next_items, next_budget)
            < runs_left(items, budget),
    decreases items.len(),
{
    if items.len() > 0 {
        let a = items.drop_last();
        let b = next_items.drop_last();
        assert forall|k: int| 0 <= k < a.len() implies runs_left_of(#[trigger] b[k], next_budget)
            <= runs_left_of(a[k], budget) by {
            assert(b[k] == next_items[k]);
        }
        lemma_runs_left_shrink(a, budget, b, next_budget);
        let last = items.len() - 1;
        assert(next_items[last] == next_items.last());
        if exists|k: int|
            0 <= k < items.len() && runs_left_of(#[trigger] next_items[k], next_budget)
                < runs_left_of(items[k], budget) {
            let k = choose|k: int|
                0 <= k < items.len() && runs_left_of(#[trigger] next_items[k], next_budget)
                    < runs_left_of(items[k], budget);
            if k < last {
                assert(b[k] == next_items[k]);
            }
        }
    }
}

proof fn lemma_started_uses_a_run(state: LoopState, i: int)
    requires
        state.valid(),
        state.phase is Execute,
        0 <= i < state.items.len(),
        !(state.started(i).phase is Aborted),
    ensures
        runs_left(state.started(i).items, state.started(i).budget) < runs_left(
            state.items,
            state.budget,
        ),
{
    let next = state.started(i);
    let id = state.items[i].item.id;
    assert(next.items.len() == state.items.len());
    assert(state.budget.retry_count(id) <= state.budget.caps.retries_per_item);
    assert forall|k: int| 0 <= k < state.items.len() implies runs_left_of(
        #[trigger] next.items[k],
        next.budget,
    ) <= runs_left_of(state.items[k], state.budget) by {
        assert(state.budget.retry_count(state.items[k].item.id)
            <= state.budget.caps.retries_per_item);
    }
    assert(runs_left_of(next.items[i], next.budget) < runs_left_of(state.items[i], state.budget));
    lemma_runs_left_shrink(state.items, state.budget, next.items, next.budget);
}

/// The last run has been noted: no run was used up by that.
proof fn lemma_noting_uses_no_run(state: LoopState, next: LoopState)
    requires
        next.items.len() == state.items.len(),
        next.budget.caps == state.budget.caps,
        next.budget.retries == state.budget.retries,
        forall|k: int|
            0 <= k < state.items.len() ==> (#[trigger] next.items[k]).item == state.items[k].item
                && next.items[k].attempts == state.items[k].attempts,
    ensures
        runs_left(next.items, next.budget) == runs_left(state.items, state.budget),
{
    lemma_runs_left_shrink(state.items, state.budget, next.items, next.budget);
    lemma_runs_left_shrink(next.items, next.budget, state.items, state.budget);
}

/// Whatever a loop is told brings it closer to its end: it is over, or fewer
/// plans are left to ask for, or fewer runs of items are left, or fewer steps
/// until one of these happens.
pub proof fn loops_make_progress(state: LoopState, input: LoopInput)
    requires
        state.valid(),
        awaits(state, input),
    ensures
        ({
            let next = told(state, input);
            decreases_to!(
                loops_left(state),
                plans_left(state),
                runs_left(state.items, state.budget),
                steps_left(state)
                => loops_left(next),
                plans_left(next),
                runs_left(next.items, next.budget),
                steps_left(next)
            )
        }),
{
    let next = told(state, input);
    match input {
        LoopInput::Signals { .. } => {
            lemma_first_open_from(state.items, 0);
            if state.phase is Execute && !(next.phase is Aborted) {
                if let Some(i) = loop_state::first_open(state.items) {
                    lemma_started_uses_a_run(state, i);
                }
            }
        },
        LoopInput::Approval { .. } | LoopInput::Plan { .. } => {},
        LoopInput::Outcome { .. } | LoopInput::Check { .. } => {
            lemma_noting_uses_no_run(state, next);
        },
    }
}

/// The loop after `n` more replies, where the outside answers the loop's `k`-th
/// question by `reply(k, _)`. A loop that is over asks nothing more.
pub open spec fn after(
    state: LoopState,
    reply: spec_fn(nat, LoopState) -> LoopInput,
    k: nat,
    n: nat,
) -> LoopState
    decreases n,
{
    if n == 0 || state.waiting is Nothing {
        state
    } else {
        after(told(state, reply(k, state)), reply, k + 1, (n - 1) as nat)
    }
}

/// Every loop ends, whatever the planner, the sub-agents, the verifier and the
/// user reply.
pub proof fn every_loop_ends(
    state: LoopState,
    reply: spec_fn(nat, LoopState) -> LoopInput,
    k: nat,
)
    requires
        state.valid(),
        forall|j: nat, s: LoopState|
            s.valid() && !(s.waiting is Nothing) ==> awaits(s, #[trigger] reply(j, s)),
    ensures
        exists|n: nat|
            (#[trigger] after(state, reply, k, n)).waiting is Nothing && after(
                state,
                reply,
                k,
                n,
            ).phase.terminal(),
    decreases
            loops_left(state),
            plans_left(state),
            runs_left(state.items, state.budget),
            steps_left(state),
{
    if state.waiting is Nothing {
        assert(after(state, reply, k, 0) == state);
    } else {
        let input = reply(k, state);
        let next = told(state, input);
        loops_stay_valid(state.goal, state, input);
        loops_make_progress(state, input);
        every_loop_ends(next, reply, k + 1);
        let n = choose|n: nat|
            (#[trigger] after(next, reply, k + 1, n)).waiting is Nothing && after(
                next,
                reply,
                k + 1,
                n,
            ).phase.terminal();
        assert(after(state, reply, k, n + 1) == after(next, reply, k + 1, n));
    }
}

/// A check decides a run: if it passes, the run passes whatever the sub-agent
/// reported, and if it fails, the run does not pass. Without a check, a run
/// passes exactly if the sub-agent reported it completed.
pub proof fn checks_decide_runs(status: Seq<char>, check: CheckResultView)
    ensures
        check.passed <==> loop_state::classified(status, Some(check)) is Passed,
        loop_state::classified(status, Some(check)) is Repairing ==> status == "completed"@,
        loop_state::classified(status, None) is Passed <==> status == "completed"@,
{
}

/// A shell command is run only once it was approved: the check that a loop hands
/// out, and every check in the plan of an item that it hands out, is of another
/// kind or has an approved command. A loop starts with nothing approved, and only
/// leave that was asked for adds to it.
pub proof fn shell_commands_need_leave(goal: GoalView, state: LoopState, input: LoopInput)
    requires
        state.valid(),
        awaits(state, input),
    ensures
        LoopState::fresh(goal).approved.len() == 0,
        state.action() matches LoopActionView::RunCheck { check } ==> (check.kind is Shell
            ==> state.approved.contains(check.spec)),
        state.action() matches LoopActionView::Dispatch { item } ==> (
        item.success_check matches Some(check) ==> (check.kind is Shell ==> state.approved.contains(
            check.spec,
        ))),
        told(state, input).approved == if input == (LoopInput::Approval { allowed: true }) {
            state.approved + loop_state::commands_of(
                loop_state::to_approve(state.items, state.approved),
            )
        } else {
            state.approved
        },
        input == (LoopInput::Approval { allowed: false }) ==> told(state, input).phase is Aborted
            && told(state, input).waiting is Nothing,
{
    if state.waiting is Check || state.waiting is Outcome {
        assert(!loop_state::is_unapproved(state.items[state.last_run->0], state.approved));
    }
}

/// Leave is asked for once: only for commands that were not approved before, and
/// what was approved stays so.
pub proof fn leave_is_asked_for_once(state: LoopState, input: LoopInput, command: Seq<char>)
    requires
        state.valid(),
        awaits(state, input),
    ensures
        state.action() matches LoopActionView::AskApproval { checks } ==> {
            &&& checks.len() > 0
            &&& forall|k: int|
                #![trigger checks[k]]
                0 <= k < checks.len() ==> checks[k].kind is Shell && !state.approved.contains(
                    checks[k].spec,
                )
        },
        state.approved.contains(command) ==> told(state, input).approved.contains(command),
        input == (LoopInput::Approval { allowed: true }) ==> loop_state::to_approve(
            state.items,
            told(state, input).approved,
        ).len() == 0,
{
    lemma_to_approve(state.items, state.approved);
    if input == (LoopInput::Approval { allowed: true }) {
        let next = told(state, input);
        lemma_approved(state.items, state.approved);
        lemma_to_approve(state.items, next.approved);
        if state.approved.contains(command) {
            let k = choose|k: int| 0 <= k < state.approved.len() && state.approved[k] == command;
            assert(next.approved[k] == command);
        }
    }
}

/// Once a loop has begun, its goal tells the phase the loop is in, and nothing
/// once that is a terminal one. Nothing else about the goal changes.
pub proof fn goals_tell_their_phase(state: LoopState, input: LoopInput)
    requires
        state.valid(),
        awaits(state, input),
    ensures
        ({
            let next = told(state, input);
            &&& !(next.phase is Define)
            &&& next.goal == (GoalView {
                loop_phase: if next.phase.terminal() {
                    None
                } else {
                    Some(next.phase)
                },
                ..state.goal
            })
        }),
{
    loops_stay_valid(state.goal, state, input);
}

/// How many of the events tell of an item that passed.
pub open spec fn passes_told(events: Seq<GoalLoopEventView>) -> nat
    decreases events.len(),
{
    if events.len() == 0 {
        0
    } else {
        let before = passes_told(events.drop_last());
        match events.last() {
            GoalLoopEventView::ItemFinished { outcome: ItemOutcomeKind::Passed, .. } => before + 1,
            _ => before,
        }
    }
}

/// The last event tells the end of the loop.
pub open spec fn end_told(events: Seq<GoalLoopEventView>, outcome: GoalLoopOutcomeView) -> bool {
    &&& events.len() > 0
    &&& events.last() == match outcome {
        GoalLoopOutcomeView::Done { .. } => GoalLoopEventView::Done,
        GoalLoopOutcomeView::Aborted { reason, .. } => GoalLoopEventView::Aborted { reason },
    }
}

/// A loop tells of every item that passes, as it passes.
spec fn tells_passes(state: LoopState, next: LoopState) -> bool {
    passes_told(next.events) + loop_state::passed_count(state.items) == passes_told(state.events)
        + loop_state::passed_count(next.items)
}

proof fn lemma_emitted_passes(state: LoopState, event: GoalLoopEventView)
    ensures
        passes_told(state.emitted(event).events) == passes_told(state.events) + (if event is ItemFinished
            && event->ItemFinished_outcome is Passed {
            1nat
        } else {
            0
        }),
{
    assert(state.events.push(event).drop_last() =~= state.events);
}

proof fn lemma_moved_passes(state: LoopState, to: GoalLoopPhase)
    ensures
        passes_told(state.moved(to).events) == passes_told(state.events),
{
    lemma_emitted_passes(state, GoalLoopEventView::PhaseChanged { from: state.phase, to });
}

proof fn lemma_aborted_passes(state: LoopState, reason: Seq<char>)
    ensures
        passes_told(state.aborted(reason).events) == passes_told(state.events),
{
    lemma_moved_passes(state, GoalLoopPhase::Aborted);
    lemma_emitted_passes(
        state.moved(GoalLoopPhase::Aborted),
        GoalLoopEventView::Aborted { reason },
    );
}

proof fn lemma_open_update_counts(items: Seq<ItemRecordView>, i: int, record: ItemRecordView)
    requires
        0 <= i < items.len(),
        !items[i].passed(),
    ensures
        loop_state::passed_count(items.update(i, record)) == loop_state::passed_count(items) + (
        if record.passed() {
            1nat
        } else {
            0
        }),
    decreases items.len(),
{
    let next = items.update(i, record);
    if i == items.len() - 1 {
        assert(next.drop_last() =~= items.drop_last());
    } else {
        assert(next.drop_last() =~= items.drop_last().update(i, record));
        lemma_open_update_counts(items.drop_last(), i, record);
    }
}

proof fn lemma_started_passes(state: LoopState, i: int)
    requires
        0 <= i < state.items.len(),
        !state.items[i].passed(),
    ensures
        tells_passes(state, state.started(i)),
{
    let record = state.items[i];
    let id = record.item.id;
    let attempts: u8 = if record.attempts == u8::MAX {
        u8::MAX
    } else {
        (record.attempts + 1) as u8
    };
    let counted = LoopState {
        last_run: Some(i),
        ..state.with_record(i, ItemRecordView { attempts, ..record })
    };
    let retried = LoopState { budget: state.budget.retried(id), ..counted };
    let last = ItemRecordView { attempts, last_outcome: Some(ItemRunResult::Failed), ..record };
    lemma_open_update_counts(state.items, i, ItemRecordView { attempts, ..record });
    lemma_open_update_counts(counted.items, i, last);
    lemma_emitted_passes(counted, GoalLoopEventView::ItemStarted { item_id: id });
    lemma_emitted_passes(retried, GoalLoopEventView::ItemStarted { item_id: id });
    lemma_aborted_passes(
        retried.with_record(i, last),
        state.budget.retries_exceeded(id).message(),
    );
}

proof fn lemma_stepped_passes(state: LoopState)
    ensures
        tells_passes(state, state.stepped()),
{
    lemma_first_open_from(state.items, 0);
    if let Some(i) = loop_state::first_open(state.items) {
        lemma_started_passes(state, i);
    }
    lemma_moved_passes(state, GoalLoopPhase::Execute);
    lemma_moved_passes(state, GoalLoopPhase::Verify);
    lemma_moved_passes(state, state.after_verify());
    lemma_moved_passes(state, GoalLoopPhase::Dispatch);
    lemma_moved_passes(state, GoalLoopPhase::Decompose);
    lemma_aborted_passes(state, "decompose attempts exhausted"@);
    lemma_emitted_passes(state, GoalLoopEventView::Done);
}

proof fn lemma_concluded_passes(
    state: LoopState,
    result: ItemRunResult,
    check: Option<CheckResultView>,
)
    requires
        state.runs_an_item(),
    ensures
        tells_passes(state, state.concluded(result, check)),
{
    let i = state.last_run->0;
    let record = state.items[i];
    let noted = ItemRecordView { last_check: check, last_outcome: Some(result), ..record };
    let event = GoalLoopEventView::ItemFinished {
        item_id: record.item.id,
        outcome: result.as_kind(),
        check,
    };
    let kept = state.with_record(i, noted);
    lemma_open_update_counts(state.items, i, noted);
    lemma_emitted_passes(kept, event);
    lemma_moved_passes(
        kept.emitted(event).waiting_for(WaitingView::Signals),
        GoalLoopPhase::Verify,
    );
}

proof fn lemma_planned_passes(
    state: LoopState,
    reply: Result<Seq<PlanItemView>, PlannerErrorView>,
)
    ensures
        tells_passes(state, state.planned(reply)),
{
    let asked = if state.plans == 0 {
        LoopState { plans: 1, ..state }
    } else {
        state
    };
    match reply {
        Err(error) => {
            lemma_aborted_passes(asked, "decompose failed: "@ + error.message());
            lemma_aborted_passes(asked, "replan failed: "@ + error.message());
        },
        Ok(items) => {
            lemma_aborted_passes(asked, "planner produced zero items"@);
            lemma_aborted_passes(asked, "replan produced zero items"@);
            let kept = loop_state::select(state.items, true);
            let fresh = loop_state::fresh_records(items);
            lemma_select(state.items, true);
            lemma_select(kept, true);
            lemma_select_concat(kept, fresh, true);
            lemma_select(fresh, true);
            assert(loop_state::select(fresh, true).len() == 0) by {
                if loop_state::select(fresh, true).len() > 0 {
                    let r = loop_state::select(fresh, true)[0];
                    let k = choose|k: int| 0 <= k < fresh.len() && fresh[k] == r;
                    assert(!fresh[k].passed());
                }
            }
            let ready = LoopState { items: kept + fresh, plans: state.plans + 1, ..state };
            let event = GoalLoopEventView::PlanReady {
                item_count: (kept + fresh).len(),
                attempt: state.plans + 1,
            };
            lemma_emitted_passes(ready, event);
            lemma_moved_passes(ready.emitted(event), GoalLoopPhase::Dispatch);
        },
    }
}

/// With every step, the number of items that passed grows by the events that tell
/// of an item that passed. A step that ends the loop tells so last, with the
/// outcome's reason.
pub proof fn steps_tell_what_passed(state: LoopState, input: LoopInput)
    requires
        state.valid(),
        awaits(state, input),
    ensures
        ({
            let next = told(state, input);
            &&& passes_told(next.events) + loop_state::passed_count(state.items) == passes_told(
                state.events,
            ) + loop_state::passed_count(next.items)
            &&& next.waiting matches WaitingView::Nothing { outcome } ==> end_told(
                next.events,
                outcome,
            )
        }),
{
    match input {
        LoopInput::Signals { abort_raised, elapsed_secs } => {
            lemma_moved_passes(state, GoalLoopPhase::Decompose);
            let begun = if state.phase is Define {
                state.moved(GoalLoopPhase::Decompose)
            } else {
                state
            };
            lemma_aborted_passes(begun, "user abort"@);
            if let Some(reason) = begun.budget.exceeded_at(elapsed_secs) {
                lemma_aborted_passes(begun, reason.message());
            }
            lemma_stepped_passes(begun);
        },
        LoopInput::Plan { reply } => {
            lemma_planned_passes(state, reply);
        },
        LoopInput::Approval { .. } => {
            lemma_aborted_passes(state, "shell command not allowed"@);
        },
        LoopInput::Outcome { reply, elapsed_secs } => {
            match reply {
                None => {
                    lemma_concluded_passes(state, ItemRunResult::Failed, None);
                },
                Some(outcome) => {
                    let budget = state.budget.recorded(outcome.usage);
                    let event = GoalLoopEventView::BudgetUpdate {
                        tokens_used: budget.tokens_used,
                        cents_used: budget.cents_used,
                        elapsed_secs,
                    };
                    let spent = LoopState { budget, ..state };
                    lemma_emitted_passes(spent, event);
                    lemma_concluded_passes(
                        spent.emitted(event),
                        loop_state::classified(outcome.status, outcome.check),
                        outcome.check,
                    );
                },
            }
        },
        LoopInput::Check { check } => {
            lemma_concluded_passes(
                state,
                loop_state::classified(state.waiting->Check_outcome.status, Some(check)),
                Some(check),
            );
        },
    }
}

proof fn lemma_runs_tell(
    state: LoopState,
    reply: spec_fn(nat, LoopState) -> LoopInput,
    k: nat,
    n: nat,
)
    requires
        state.valid(),
        forall|j: nat, s: LoopState|
            s.valid() && !(s.waiting is Nothing) ==> awaits(s, #[trigger] reply(j, s)),
        state.waiting matches WaitingView::Nothing { outcome } ==> end_told(state.events, outcome),
    ensures
        ({
            let end = after(state, reply, k, n);
            &&& end.valid()
            &&& tells_passes(state, end)
            &&& end.waiting matches WaitingView::Nothing { outcome } ==> end_told(
                end.events,
                outcome,
            )
        }),
    decreases n,
{
    if n > 0 && !(state.waiting is Nothing) {
        let input = reply(k, state);
        loops_stay_valid(state.goal, state, input);
        steps_tell_what_passed(state, input);
        lemma_runs_tell(told(state, input), reply, k + 1, (n - 1) as nat);
    }
}

/// The events of a run tell its outcome, whatever is replied. As many of them tell
/// of an item that passed as the outcome counts, and the last one tells the end:
/// that of a loop that is done, which has passed at least one item, or the reason
/// for which it was aborted.
pub proof fn runs_tell_their_outcome(
    goal: GoalView,
    reply: spec_fn(nat, LoopState) -> LoopInput,
    n: nat,
)
    requires
        forall|j: nat, s: LoopState|
            s.valid() && !(s.waiting is Nothing) ==> awaits(s, #[trigger] reply(j, s)),
    ensures
        ({
            let end = after(LoopState::fresh(goal), reply, 0, n);
            end.waiting matches WaitingView::Nothing { outcome } ==> {
                &&& end_told(end.events, outcome)
                &&& match outcome {
                    GoalLoopOutcomeView::Done { items_completed } => items_completed >= 1
                        && items_completed == passes_told(end.events),
                    GoalLoopOutcomeView::Aborted { items_completed, .. } => items_completed
                        == passes_told(end.events),
                }
            }
        }),
{
    let start = LoopState::fresh(goal);
    let end = after(start, reply, 0, n);
    assert(start.valid());
    lemma_runs_tell(start, reply, 0, n);
    lemma_select(end.items, true);
}

} // verus!
