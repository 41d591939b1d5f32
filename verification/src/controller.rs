//! The controller of a goal loop.
//!
//! The controller decides and keeps the books; its driver does the work. The
//! driver asks for the next [`LoopAction`], carries it out, and hands back what
//! came of it.
use crate::abort::AbortFlag;
use crate::agents::{
    DispatcherError, ItemOutcome, ItemOutcomeView, PlannerError, PlannerErrorView,
};
use crate::budget::BudgetTracker;
use crate::checks::{CheckResult, GoalBudget, SuccessCheck};
use crate::clock;
use crate::events::{GoalLoopEvent, GoalLoopEventView};
use crate::goal::Goal;
use crate::loop_laws;
use crate::loop_laws::LoopInput;
use crate::loop_state;
use crate::loop_state::{
    GoalLoopOutcome, GoalLoopOutcomeView, ItemRecord, ItemRecordView, ItemRunResult,
    LoopActionView, LoopState, Waiting, WaitingView, MAX_PLANS,
};
use crate::names::{GoalLoopPhase, SuccessCheckKind};
use crate::plan::{PlanItem, PlanItemView};
use crate::text;
use crate::text::{holds_text, same_text};
use vstd::prelude::*;

verus! {

/// What the driver of a loop has to do next.
#[derive(Debug)]
pub enum LoopAction {
    /// Look at the abort flag and the clock, and call
    /// [`observe`](GoalLoopController::observe).
    Observe,
    /// Have the goal decomposed, and call
    /// [`plan_received`](GoalLoopController::plan_received).
    Decompose,
    /// Have the goal planned anew, and call
    /// [`plan_received`](GoalLoopController::plan_received).
    Replan { completed: Vec<PlanItem>, failed: Vec<PlanItem> },
    /// Have the shell commands of the checks approved, and call
    /// [`approval_received`](GoalLoopController::approval_received).
    AskApproval { checks: Vec<SuccessCheck> },
    /// Run the item, and call
    /// [`outcome_received`](GoalLoopController::outcome_received).
    Dispatch { item: PlanItem },
    /// Run the check, and call
    /// [`check_received`](GoalLoopController::check_received).
    RunCheck { check: SuccessCheck },
    /// Stop.
    Finish { outcome: GoalLoopOutcome },
}

impl View for LoopAction {
    type V = LoopActionView;

    open spec fn view(&self) -> LoopActionView {
        match *self {
            LoopAction::Observe => LoopActionView::Observe,
            LoopAction::Decompose => LoopActionView::Decompose,
            LoopAction::Replan { completed, failed } => LoopActionView::Replan {
                completed: completed.deep_view(),
                failed: failed.deep_view(),
            },
            LoopAction::AskApproval { checks } => LoopActionView::AskApproval {
                checks: checks.deep_view(),
            },
            LoopAction::Dispatch { item } => LoopActionView::Dispatch { item: item@ },
            LoopAction::RunCheck { check } => LoopActionView::RunCheck { check: check@ },
            LoopAction::Finish { outcome } => LoopActionView::Finish { outcome: outcome@ },
        }
    }
}

/// A loop at one point in time, for display and for restarts.
#[derive(Debug)]
pub struct GoalLoopSnapshot {
    pub goal_id: String,
    pub phase: GoalLoopPhase,
    pub items: Vec<ItemRecord>,
    pub tokens_used: u64,
    pub cents_used: u32,
    pub elapsed_secs: u32,
    pub budget: GoalBudget,
}

/// The model of a [`GoalLoopSnapshot`].
pub struct GoalLoopSnapshotView {
    pub goal_id: Seq<char>,
    pub phase: GoalLoopPhase,
    pub items: Seq<ItemRecordView>,
    pub tokens_used: u64,
    pub cents_used: u32,
    pub elapsed_secs: u32,
    pub budget: GoalBudget,
}

impl View for GoalLoopSnapshot {
    type V = GoalLoopSnapshotView;

    open spec fn view(&self) -> GoalLoopSnapshotView {
        GoalLoopSnapshotView {
            goal_id: self.goal_id@,
            phase: self.phase,
            items: self.items.deep_view(),
            tokens_used: self.tokens_used,
            cents_used: self.cents_used,
            elapsed_secs: self.elapsed_secs,
            budget: self.budget,
        }
    }
}

impl Clone for GoalLoopSnapshot {
    fn clone(&self) -> (copy: Self)
        ensures
            copy@ == self@,
    {
        GoalLoopSnapshot {
            goal_id: self.goal_id.clone(),
            phase: self.phase,
            items: clone_records(&self.items),
            tokens_used: self.tokens_used,
            cents_used: self.cents_used,
            elapsed_secs: self.elapsed_secs,
            budget: self.budget,
        }
    }
}

/// A loop as a snapshot taken after `elapsed_secs` shows it.
pub open spec fn snapshot_of(state: LoopState, elapsed_secs: u32) -> GoalLoopSnapshotView {
    GoalLoopSnapshotView {
        goal_id: state.goal.id,
        phase: state.phase,
        items: state.items,
        tokens_used: state.budget.tokens_used,
        cents_used: state.budget.cents_used,
        elapsed_secs,
        budget: state.budget.caps,
    }
}

/// What a planner's reply tells the loop.
pub open spec fn plan_told(reply: Result<Vec<PlanItem>, PlannerError>) -> Result<
    Seq<PlanItemView>,
    PlannerErrorView,
> {
    match reply {
        Ok(items) => Ok(items.deep_view()),
        Err(error) => Err(error@),
    }
}

/// What a sub-agent's reply tells the loop: nothing if the sub-agent failed to
/// run.
pub open spec fn outcome_told(reply: Result<ItemOutcome, DispatcherError>) -> Option<
    ItemOutcomeView,
> {
    match reply {
        Ok(outcome) => Some(outcome@),
        Err(_) => None,
    }
}

/// Records with the same contents.
fn clone_records(list: &Vec<ItemRecord>) -> (copy: Vec<ItemRecord>)
    ensures
        copy.deep_view() == list.deep_view(),
{
    let mut copy: Vec<ItemRecord> = Vec::new();
    let mut i: usize = 0;
    while i < list.len()
        invariant
            i <= list.len(),
            copy@.len() == i,
            forall|k: int| 0 <= k < i ==> (#[trigger] copy@[k])@ == list@[k]@,
        decreases list.len() - i,
    {
        copy.push(list[i].clone());
        i += 1;
    }
    assert(copy.deep_view() =~= list.deep_view());
    copy
}

/// What a run amounts to, given the check that was made of it, if any.
pub fn classify(outcome: &ItemOutcome, check: Option<&CheckResult>) -> (result: ItemRunResult)
    ensures
        result == loop_state::classified(outcome@.status, check.deep_view()),
{
    let completed = same_text(outcome.status.as_str(), "completed");
    match check {
        Some(c) => {
            if c.passed {
                ItemRunResult::Passed
            } else if completed {
                ItemRunResult::Repairing
            } else {
                ItemRunResult::Failed
            }
        },
        None => {
            if completed {
                ItemRunResult::Passed
            } else {
                ItemRunResult::Failed
            }
        },
    }
}

/// Whether shell commands may be run: if all of them are on the safety list, or if
/// the user allows them. `None` stands for no user to ask, as outside an
/// interactive session: then they may not.
pub fn commands_allowed(all_listed: bool, user: Option<bool>) -> (allowed: bool)
    ensures
        allowed == (all_listed || user == Some(true)),
{
    all_listed || matches!(user, Some(true))
}

/// Whether the last run of a record passed.
fn record_passed(record: &ItemRecord) -> (passed: bool)
    ensures
        passed == record@.passed(),
{
    matches!(record.last_outcome, Some(ItemRunResult::Passed))
}

/// The items of the records whose passing is as wanted.
fn select_items(records: &Vec<ItemRecord>, wanted: bool) -> (items: Vec<PlanItem>)
    ensures
        items.deep_view() == loop_state::items_in(
            loop_state::select(records.deep_view(), wanted),
        ),
{
    let ghost all = records.deep_view();
    let mut items: Vec<PlanItem> = Vec::new();
    let mut i: usize = 0;
    assert(items.deep_view() =~= loop_state::items_in(loop_state::select(all.take(0), wanted)));
    while i < records.len()
        invariant
            i <= records.len(),
            all == records.deep_view(),
            items.deep_view() == loop_state::items_in(
                loop_state::select(all.take(i as int), wanted),
            ),
        decreases records.len() - i,
    {
        let ghost before = items.deep_view();
        proof {
            assert(all.take(i + 1).drop_last() =~= all.take(i as int));
            assert(all.take(i + 1).last() == records@[i as int]@);
        }
        if record_passed(&records[i]) == wanted {
            items.push(records[i].item.clone());
            assert(items.deep_view() =~= before.push(records@[i as int]@.item));
            assert(loop_state::items_in(loop_state::select(all.take(i + 1), wanted))
                =~= loop_state::items_in(loop_state::select(all.take(i as int), wanted)).push(
                records@[i as int]@.item,
            ));
        }
        i += 1;
    }
    assert(all.take(i as int) =~= all);
    items
}

/// The checks in the records that run shell commands which are not among the
/// approved ones.
fn unapproved_checks(records: &Vec<ItemRecord>, approved: &Vec<String>) -> (checks: Vec<
    SuccessCheck,
>)
    ensures
        checks.deep_view() == loop_state::to_approve(records.deep_view(), approved.deep_view()),
{
    let ghost all = records.deep_view();
    let ghost known = approved.deep_view();
    let mut checks: Vec<SuccessCheck> = Vec::new();
    let mut i: usize = 0;
    assert(checks.deep_view() =~= loop_state::to_approve(all.take(0), known));
    while i < records.len()
        invariant
            i <= records.len(),
            all == records.deep_view(),
            known == approved.deep_view(),
            checks.deep_view() == loop_state::to_approve(all.take(i as int), known),
        decreases records.len() - i,
    {
        let ghost before = checks.deep_view();
        proof {
            assert(all.take(i + 1).drop_last() =~= all.take(i as int));
            assert(all.take(i + 1).last() == records@[i as int]@);
        }
        if let Some(check) = &records[i].item.success_check {
            if matches!(check.kind, SuccessCheckKind::Shell) && !holds_text(
                approved,
                check.spec.as_str(),
            ) {
                checks.push(check.clone());
                assert(checks.deep_view() =~= before.push(check@));
            }
        }
        i += 1;
    }
    assert(all.take(i as int) =~= all);
    checks
}

/// Drives a goal through its loop.
pub struct GoalLoopController {
    goal: Goal,
    budget: BudgetTracker,
    items: Vec<ItemRecord>,
    phase: GoalLoopPhase,
    abort: AbortFlag,
    decompose_attempts: u32,
    last_run_idx: Option<usize>,
    approved: Vec<String>,
    waiting: Waiting,
    events: Vec<GoalLoopEvent>,
}

impl View for GoalLoopController {
    type V = LoopState;

    closed spec fn view(&self) -> LoopState {
        LoopState {
            goal: self.goal@,
            budget: self.budget@,
            items: self.items.deep_view(),
            phase: self.phase,
            plans: self.decompose_attempts as nat,
            last_run: match self.last_run_idx {
                Some(i) => Some(i as int),
                None => None,
            },
            approved: self.approved.deep_view(),
            waiting: self.waiting@,
            events: self.events.deep_view(),
        }
    }
}

impl GoalLoopController {
    /// A controller for the given goal, whose flag is not raised and whose clock
    /// starts now. For a goal without a budget nothing is capped but the retries
    /// per item.
    pub fn new(goal: Goal) -> (ctrl: Self)
        ensures
            ctrl@ == LoopState::fresh(goal@),
            ctrl@.valid(),
            call_ensures(AbortFlag::new, (), ctrl.flag()),
            call_ensures(std::time::Instant::now, (), ctrl.start()),
    {
        let caps = match goal.budget {
            Some(caps) => caps,
            None => GoalBudget::uncapped(),
        };
        let ctrl = GoalLoopController {
            goal,
            budget: BudgetTracker::new(caps),
            items: Vec::new(),
            phase: GoalLoopPhase::Define,
            abort: AbortFlag::new(),
            decompose_attempts: 0,
            last_run_idx: None,
            approved: Vec::new(),
            waiting: Waiting::Signals,
            events: Vec::new(),
        };
        assert(ctrl@.items =~= Seq::empty());
        assert(ctrl@.approved =~= Seq::empty());
        assert(ctrl@.events =~= Seq::empty());
        ctrl
    }

    /// The flag that stops the loop.
    pub closed spec fn flag(&self) -> AbortFlag {
        self.abort
    }

    /// The reading of the monotonic clock at which the loop was set up.
    pub closed spec fn start(&self) -> std::time::Instant {
        self.budget.start()
    }

    /// The flag that stops the loop.
    pub fn abort_flag(&self) -> (flag: AbortFlag)
        ensures
            flag == self.flag(),
    {
        self.abort.clone()
    }

    /// The goal that is being pursued.
    pub fn goal(&self) -> (goal: &Goal)
        ensures
            goal@ == self@.goal,
    {
        &self.goal
    }

    /// The whole seconds since the loop was set up, at most `u32::MAX`. What the
    /// monotonic clock reads now decides.
    pub fn elapsed_secs(&self) -> (secs: u32)
        ensures
            clock::secs_told_since(self.start(), secs),
    {
        self.budget.elapsed_secs()
    }

    /// The loop as it stands now.
    pub fn snapshot(&self) -> (snapshot: GoalLoopSnapshot)
        ensures
            snapshot@ == snapshot_of(self@, snapshot.elapsed_secs),
            clock::secs_told_since(self.start(), snapshot.elapsed_secs),
    {
        self.snapshot_at(self.budget.elapsed_secs())
    }

    /// The loop as it stands after `elapsed_secs`.
    pub fn snapshot_at(&self, elapsed_secs: u32) -> (snapshot: GoalLoopSnapshot)
        ensures
            snapshot@ == snapshot_of(self@, elapsed_secs),
    {
        GoalLoopSnapshot {
            goal_id: self.goal.id.clone(),
            phase: self.phase,
            items: clone_records(&self.items),
            tokens_used: self.budget.tokens_used(),
            cents_used: self.budget.cents_used(),
            elapsed_secs,
            budget: self.budget.caps(),
        }
    }

    /// The events since they were last taken.
    pub fn take_events(&mut self) -> (events: Vec<GoalLoopEvent>)
        ensures
            events.deep_view() == old(self)@.events,
            final(self)@ == (LoopState { events: Seq::empty(), ..old(self)@ }),
            old(self)@.valid() ==> final(self)@.valid(),
            final(self).flag() == old(self).flag(),
            final(self).start() == old(self).start(),
    {
        let mut events: Vec<GoalLoopEvent> = Vec::new();
        std::mem::swap(&mut events, &mut self.events);
        assert(self@.events =~= Seq::empty());
        events
    }

    /// What the driver has to do next.
    pub fn action(&self) -> (action: LoopAction)
        requires
            self@.valid(),
        ensures
            action@ == self@.action(),
    {
        match &self.waiting {
            Waiting::Signals => LoopAction::Observe,
            Waiting::Plan => {
                if self.decompose_attempts == 0 {
                    LoopAction::Decompose
                } else {
                    LoopAction::Replan {
                        completed: select_items(&self.items, true),
                        failed: select_items(&self.items, false),
                    }
                }
            },
            Waiting::Approval => LoopAction::AskApproval {
                checks: unapproved_checks(&self.items, &self.approved),
            },
            Waiting::Outcome => {
                let idx: usize = self.last_run_idx.unwrap();
                LoopAction::Dispatch { item: self.items[idx].item.clone() }
            },
            Waiting::Check { .. } => {
                let idx: usize = self.last_run_idx.unwrap();
                LoopAction::RunCheck {
                    check: self.items[idx].item.success_check.clone().unwrap(),
                }
            },
            Waiting::Nothing { outcome } => LoopAction::Finish { outcome: outcome.clone() },
        }
    }

    fn emit(&mut self, event: GoalLoopEvent)
        ensures
            final(self)@ == old(self)@.emitted(event@),
            final(self).flag() == old(self).flag(),
            final(self).start() == old(self).start(),
    {
        self.events.push(event);
        assert(self@.events =~= old(self)@.events.push(event@));
    }

    fn transition(&mut self, to: GoalLoopPhase)
        ensures
            final(self)@ == old(self)@.moved(to),
            final(self).flag() == old(self).flag(),
            final(self).start() == old(self).start(),
    {
        if to != self.phase {
            let from = self.phase;
            self.emit(GoalLoopEvent::PhaseChanged { from, to });
            self.phase = to;
            self.goal.loop_phase = if to.is_terminal() {
                None
            } else {
                Some(to)
            };
        }
    }

    /// How many records passed.
    fn passed_count(&self) -> (count: usize)
        ensures
            count == loop_state::passed_count(self@.items),
    {
        let ghost all = self.items.deep_view();
        let mut count: usize = 0;
        let mut i: usize = 0;
        while i < self.items.len()
            invariant
                i <= self.items.len(),
                all == self.items.deep_view(),
                count <= i,
                count == loop_state::passed_count(all.take(i as int)),
            decreases self.items.len() - i,
        {
            proof {
                assert(all.take(i + 1).drop_last() =~= all.take(i as int));
                assert(all.take(i + 1).last() == self.items@[i as int]@);
            }
            if record_passed(&self.items[i]) {
                count += 1;
            }
            i += 1;
        }
        assert(all.take(i as int) =~= all);
        count
    }

    fn all_items_passed(&self) -> (all: bool)
        ensures
            all == loop_state::all_passed(self@.items),
    {
        let mut i: usize = 0;
        while i < self.items.len()
            invariant
                i <= self.items.len(),
                forall|k: int| 0 <= k < i ==> (#[trigger] self@.items[k]).passed(),
            decreases self.items.len() - i,
        {
            if !record_passed(&self.items[i]) {
                assert(!self@.items[i as int].passed());
                return false;
            }
            assert(self@.items[i as int].passed());
            i += 1;
        }
        self.items.len() > 0
    }

    /// The first record that did not pass.
    fn pick_runnable_item(&self) -> (idx: Option<usize>)
        ensures
            match (idx, loop_state::first_open(self@.items)) {
                (Some(i), Some(k)) => i == k && i < self@.items.len(),
                (None, None) => true,
                _ => false,
            },
    {
        let mut i: usize = 0;
        while i < self.items.len()
            invariant
                i <= self.items.len(),
                loop_state::first_open(self@.items) == loop_state::first_open_from(
                    self@.items,
                    i as int,
                ),
            decreases self.items.len() - i,
        {
            if !record_passed(&self.items[i]) {
                return Some(i);
            }
            i += 1;
        }
        None
    }

    fn abort_with(&mut self, reason: String)
        ensures
            final(self)@ == old(self)@.aborted(reason@),
            final(self).flag() == old(self).flag(),
            final(self).start() == old(self).start(),
    {
        self.transition(GoalLoopPhase::Aborted);
        self.emit(GoalLoopEvent::Aborted { reason: reason.clone() });
        let items_completed: usize = self.passed_count();
        self.waiting = Waiting::Nothing {
            outcome: GoalLoopOutcome::Aborted { reason, items_completed },
        };
    }

    fn next_after_verify(&self) -> (phase: GoalLoopPhase)
        ensures
            phase == self@.after_verify(),
    {
        if self.all_items_passed() {
            return GoalLoopPhase::Done;
        }
        let last = match self.last_run_idx {
            Some(i) => if i < self.items.len() {
                self.items[i].last_outcome
            } else {
                None
            },
            None => None,
        };
        match last {
            Some(ItemRunResult::Repairing) => GoalLoopPhase::Repair,
            _ => GoalLoopPhase::Replan,
        }
    }

    /// Begins the run of a record.
    fn start_item(&mut self, idx: usize)
        requires
            idx < old(self)@.items.len(),
        ensures
            final(self)@ == old(self)@.started(idx as int),
            final(self).flag() == old(self).flag(),
            final(self).start() == old(self).start(),
    {
        let id = self.items[idx].item.id.clone();
        let attempts: u8 = self.items[idx].attempts.saturating_add(1);
        let ghost before = self@;
        self.last_run_idx = Some(idx);
        let r = &mut self.items[idx];
        r.attempts = attempts;
        assert(self@.items =~= before.items.update(
            idx as int,
            ItemRecordView { attempts, ..before.items[idx as int] },
        ));
        if attempts > 1 {
            if let Err(reason) = self.budget.note_retry(id.as_str()) {
                let r = &mut self.items[idx];
                r.last_outcome = Some(ItemRunResult::Failed);
                assert(self@.items =~= before.items.update(
                    idx as int,
                    ItemRecordView { attempts, ..before.items[idx as int] },
                ).update(
                    idx as int,
                    ItemRecordView {
                        attempts,
                        last_outcome: Some(ItemRunResult::Failed),
                        ..before.items[idx as int]
                    },
                ));
                self.abort_with(reason.message());
                return;
            }
        }
        self.emit(GoalLoopEvent::ItemStarted { item_id: id });
        self.waiting = Waiting::Outcome;
    }

    /// Takes note of the abort flag and of the seconds that have passed, and
    /// takes a step.
    pub fn observe(&mut self, abort_raised: bool, elapsed_secs: u32)
        requires
            old(self)@.valid(),
            old(self)@.waiting is Signals,
        ensures
            final(self)@ == old(self)@.observed(abort_raised, elapsed_secs),
            final(self)@.valid(),
            final(self).flag() == old(self).flag(),
            final(self).start() == old(self).start(),
    {
        proof {
            loop_laws::loops_stay_valid(
                self@.goal,
                self@,
                LoopInput::Signals { abort_raised, elapsed_secs },
            );
        }
        if self.phase == GoalLoopPhase::Define {
            self.transition(GoalLoopPhase::Decompose);
        }
        if abort_raised {
            self.abort_with("user abort".to_string());
            return;
        }
        if let Some(reason) = self.budget.check_at(elapsed_secs) {
            self.abort_with(reason.message());
            return;
        }
        match self.phase {
            GoalLoopPhase::Decompose => {
                self.waiting = Waiting::Plan;
            },
            GoalLoopPhase::Dispatch => {
                self.transition(GoalLoopPhase::Execute);
            },
            GoalLoopPhase::Execute => {
                match self.pick_runnable_item() {
                    Some(idx) => {
                        self.start_item(idx);
                    },
                    None => {
                        self.transition(GoalLoopPhase::Verify);
                    },
                }
            },
            GoalLoopPhase::Verify => {
                let next = self.next_after_verify();
                self.transition(next);
            },
            GoalLoopPhase::Repair => {
                self.transition(GoalLoopPhase::Dispatch);
            },
            GoalLoopPhase::Replan => {
                if self.decompose_attempts >= MAX_PLANS {
                    self.abort_with("decompose attempts exhausted".to_string());
                } else {
                    self.transition(GoalLoopPhase::Decompose);
                }
            },
            GoalLoopPhase::Done => {
                self.emit(GoalLoopEvent::Done);
                let items_completed: usize = self.passed_count();
                self.waiting = Waiting::Nothing {
                    outcome: GoalLoopOutcome::Done { items_completed },
                };
            },
            GoalLoopPhase::Define | GoalLoopPhase::Aborted => {
                let items_completed: usize = self.passed_count();
                self.waiting = Waiting::Nothing {
                    outcome: GoalLoopOutcome::Aborted {
                        reason: "controller reached unreachable phase".to_string(),
                        items_completed,
                    },
                };
            },
        }
    }

    /// Reads the abort flag and the clock, and takes a step.
    pub fn observe_now(&mut self)
        requires
            old(self)@.valid(),
            old(self)@.waiting is Signals,
        ensures
            exists|abort_raised: bool, elapsed_secs: u32|
                call_ensures(AbortFlag::is_raised, (&old(self).flag(),), abort_raised)
                    && clock::secs_told_since(old(self).start(), elapsed_secs) && final(self)@
                    == #[trigger] old(self)@.observed(abort_raised, elapsed_secs),
            final(self)@.valid(),
            final(self).flag() == old(self).flag(),
            final(self).start() == old(self).start(),
    {
        let abort_raised = self.abort.is_raised();
        let elapsed_secs: u32 = self.elapsed_secs();
        self.observe(abort_raised, elapsed_secs);
    }

    /// Adds records of new items.
    fn add_items(&mut self, items: Vec<PlanItem>)
        ensures
            final(self)@ == (LoopState {
                items: old(self)@.items + loop_state::fresh_records(items.deep_view()),
                ..old(self)@
            }),
            final(self).flag() == old(self).flag(),
            final(self).start() == old(self).start(),
    {
        let ghost before = self@;
        let ghost new = items.deep_view();
        assert(before.items + loop_state::fresh_records(new.take(0)) =~= before.items);
        for item in it: items
            invariant
                it.seq() == items@,
                new == items.deep_view(),
                self.flag() == old(self).flag(),
                self.start() == old(self).start(),
                self@ == (LoopState {
                    items: before.items + loop_state::fresh_records(new.take(it.index())),
                    ..before
                }),
        {
            let ghost held = self@.items;
            self.items.push(
                ItemRecord { item, attempts: 0, last_check: None, last_outcome: None },
            );
            proof {
                assert(self@.items =~= held.push(ItemRecordView::fresh(item@)));
                assert(new.take(it.index() + 1) =~= new.take(it.index()).push(item@));
                assert(before.items + loop_state::fresh_records(new.take(it.index() + 1))
                    =~= held.push(ItemRecordView::fresh(item@)));
            }
        }
        assert(new.take(new.len() as int) =~= new);
    }

    /// Drops the records that did not pass.
    fn retain_passed(&mut self)
        ensures
            final(self)@ == (LoopState {
                items: loop_state::select(old(self)@.items, true),
                ..old(self)@
            }),
            final(self).flag() == old(self).flag(),
            final(self).start() == old(self).start(),
    {
        let ghost before = self@;
        let mut records: Vec<ItemRecord> = Vec::new();
        std::mem::swap(&mut records, &mut self.items);
        let ghost all = records.deep_view();
        assert(self@.items =~= loop_state::select(all.take(0), true));
        for record in it: records
            invariant
                it.seq() == records@,
                all == records.deep_view(),
                self.flag() == old(self).flag(),
                self.start() == old(self).start(),
                self@ == (LoopState {
                    items: loop_state::select(all.take(it.index()), true),
                    ..before
                }),
        {
            let ghost held = self@.items;
            proof {
                assert(all.take(it.index() + 1).drop_last() =~= all.take(it.index()));
                assert(all.take(it.index() + 1).last() == record@);
            }
            if record_passed(&record) {
                self.items.push(record);
                assert(self@.items =~= held.push(record@));
            }
        }
        assert(all.take(all.len() as int) =~= all);
    }

    /// Takes the planner's reply.
    pub fn plan_received(&mut self, reply: Result<Vec<PlanItem>, PlannerError>)
        requires
            old(self)@.valid(),
            old(self)@.waiting is Plan,
        ensures
            final(self)@ == old(self)@.planned(plan_told(reply)),
            final(self)@.valid(),
            final(self).flag() == old(self).flag(),
            final(self).start() == old(self).start(),
    {
        proof {
            loop_laws::loops_stay_valid(
                self@.goal,
                self@,
                LoopInput::Plan { reply: plan_told(reply) },
            );
        }
        let first = self.decompose_attempts == 0;
        match reply {
            Err(error) => {
                let mut reason = if first {
                    "decompose failed: ".to_string()
                } else {
                    "replan failed: ".to_string()
                };
                reason.append(error.message().as_str());
                if first {
                    self.decompose_attempts = 1;
                }
                self.abort_with(reason);
            },
            Ok(items) => {
                if items.is_empty() {
                    if first {
                        self.decompose_attempts = 1;
                        self.abort_with("planner produced zero items".to_string());
                    } else {
                        self.abort_with("replan produced zero items".to_string());
                    }
                    return;
                }
                self.retain_passed();
                self.decompose_attempts = self.decompose_attempts + 1;
                self.add_items(items);
                let event = GoalLoopEvent::PlanReady {
                    item_count: self.items.len(),
                    attempt: self.decompose_attempts,
                };
                self.emit(event);
                self.transition(GoalLoopPhase::Dispatch);
                self.waiting = if unapproved_checks(&self.items, &self.approved).is_empty() {
                    Waiting::Signals
                } else {
                    Waiting::Approval
                };
            },
        }
    }

    /// Takes the answer whether the plan's shell commands may be run. What was
    /// allowed once is not asked for again.
    pub fn approval_received(&mut self, allowed: bool)
        requires
            old(self)@.valid(),
            old(self)@.waiting is Approval,
        ensures
            final(self)@ == old(self)@.approval_given(allowed),
            final(self)@.valid(),
            final(self).flag() == old(self).flag(),
            final(self).start() == old(self).start(),
    {
        proof {
            loop_laws::loops_stay_valid(self@.goal, self@, LoopInput::Approval { allowed });
        }
        if !allowed {
            self.abort_with("shell command not allowed".to_string());
            return;
        }
        let ghost before = self@;
        let checks = unapproved_checks(&self.items, &self.approved);
        let ghost new = loop_state::commands_of(checks.deep_view());
        let mut approved: Vec<String> = Vec::new();
        std::mem::swap(&mut approved, &mut self.approved);
        let ghost held = approved.deep_view();
        assert(held + new.take(0) =~= held);
        for check in it: checks
            invariant
                it.seq() == checks@,
                new == loop_state::commands_of(checks.deep_view()),
                approved.deep_view() == held + new.take(it.index()),
        {
            let ghost so_far = approved;
            approved.push(check.spec);
            proof {
                text::lemma_string_pushed(so_far, approved, check.spec);
                assert(new[it.index()] == check.spec@);
                assert(held + new.take(it.index() + 1) =~= (held + new.take(it.index())).push(
                    check.spec@,
                ));
            }
        }
        assert(new.take(new.len() as int) =~= new);
        self.approved = approved;
        self.waiting = Waiting::Signals;
    }

    /// Ends the run of the item at hand.
    fn finish_item(&mut self, result: ItemRunResult, check: Option<CheckResult>)
        requires
            old(self)@.last_run is Some,
            0 <= old(self)@.last_run->0 < old(self)@.items.len(),
        ensures
            final(self)@ == old(self)@.concluded(result, check.deep_view()),
            final(self).flag() == old(self).flag(),
            final(self).start() == old(self).start(),
    {
        let idx: usize = self.last_run_idx.unwrap();
        let ghost before = self@;
        let item_id = self.items[idx].item.id.clone();
        let told = check.clone();
        let r = &mut self.items[idx];
        r.last_check = check;
        r.last_outcome = Some(result);
        assert(self@.items =~= before.items.update(
            idx as int,
            ItemRecordView {
                last_check: check.deep_view(),
                last_outcome: Some(result),
                ..before.items[idx as int]
            },
        ));
        self.emit(GoalLoopEvent::ItemFinished { item_id, outcome: result.kind(), check: told });
        self.waiting = Waiting::Signals;
        let next_item = matches!(result, ItemRunResult::Passed) && !self.all_items_passed();
        if !next_item {
            self.transition(GoalLoopPhase::Verify);
        }
    }

    /// Takes the outcome of the item that was dispatched, `elapsed_secs` into
    /// the loop.
    pub fn outcome_received(
        &mut self,
        reply: Result<ItemOutcome, DispatcherError>,
        elapsed_secs: u32,
    )
        requires
            old(self)@.valid(),
            old(self)@.waiting is Outcome,
        ensures
            final(self)@ == old(self)@.outcome_given(outcome_told(reply), elapsed_secs),
            final(self)@.valid(),
            final(self).flag() == old(self).flag(),
            final(self).start() == old(self).start(),
    {
        proof {
            loop_laws::loops_stay_valid(
                self@.goal,
                self@,
                LoopInput::Outcome { reply: outcome_told(reply), elapsed_secs },
            );
        }
        match reply {
            Err(_) => {
                self.finish_item(ItemRunResult::Failed, None);
            },
            Ok(outcome) => {
                self.budget.record(outcome.usage);
                let event = GoalLoopEvent::BudgetUpdate {
                    tokens_used: self.budget.tokens_used(),
                    cents_used: self.budget.cents_used(),
                    elapsed_secs,
                };
                self.emit(event);
                let idx: usize = self.last_run_idx.unwrap();
                if outcome.check.is_none() && self.items[idx].item.success_check.is_some() {
                    self.waiting = Waiting::Check { outcome };
                } else {
                    let result = classify(&outcome, outcome.check.as_ref());
                    self.finish_item(result, outcome.check);
                }
            },
        }
    }

    /// Takes the result of the check that was run.
    pub fn check_received(&mut self, check: CheckResult)
        requires
            old(self)@.valid(),
            old(self)@.waiting is Check,
        ensures
            final(self)@ == old(self)@.check_given(check@),
            final(self)@.valid(),
            final(self).flag() == old(self).flag(),
            final(self).start() == old(self).start(),
    {
        proof {
            loop_laws::loops_stay_valid(self@.goal, self@, LoopInput::Check { check: check@ });
        }
        if let Waiting::Check { outcome } = &self.waiting {
            let result = classify(outcome, Some(&check));
            self.finish_item(result, Some(check));
        }
    }
}

} // verus!
