//! The goal loop as a state machine.
//!
//! The loop runs through the phases
//!
//! ```text
//! Define     → Decompose
//! Decompose  → Dispatch
//! Dispatch   → Execute
//! Execute    → Verify
//! Verify     → Done | Repair | Replan
//! Repair     → Dispatch
//! Replan     → Decompose
//! <any>      → Aborted
//! ```
//!
//! and ends in `Done` or `Aborted`. Within `Execute` it runs item after item as
//! long as they pass. Before anything of a plan is run, the plan's shell commands
//! have to be approved. [`LoopState`] models a loop at one point in time; its
//! methods say what each step makes of it.
use crate::agents::{ItemOutcome, ItemOutcomeView, PlannerErrorView};
use crate::budget::BudgetView;
use crate::checks::{CheckResult, CheckResultView, GoalBudget, SuccessCheckView};
use crate::events::{GoalLoopEventView, ItemOutcomeKind};
use crate::goal::GoalView;
use crate::names::GoalLoopPhase;
use crate::plan::{PlanItem, PlanItemView};
use vstd::prelude::*;

verus! {

/// How the last run of an item ended.
#[derive(Debug, Clone, Copy, PartialEq, Eq, Structural)]
pub enum ItemRunResult {
    Passed,
    Repairing,
    Failed,
}

impl ItemRunResult {
    /// The same result as events tell it.
    pub open spec fn as_kind(self) -> ItemOutcomeKind {
        match self {
            ItemRunResult::Passed => ItemOutcomeKind::Passed,
            ItemRunResult::Repairing => ItemOutcomeKind::Repairing,
            ItemRunResult::Failed => ItemOutcomeKind::Failed,
        }
    }

    /// The same result as events tell it.
    pub fn kind(self) -> (kind: ItemOutcomeKind)
        ensures
            kind == self.as_kind(),
    {
        match self {
            ItemRunResult::Passed => ItemOutcomeKind::Passed,
            ItemRunResult::Repairing => ItemOutcomeKind::Repairing,
            ItemRunResult::Failed => ItemOutcomeKind::Failed,
        }
    }
}

/// A plan item and what came of it so far.
#[derive(Debug)]
pub struct ItemRecord {
    pub item: PlanItem,
    pub attempts: u8,
    pub last_check: Option<CheckResult>,
    pub last_outcome: Option<ItemRunResult>,
}

/// The model of an [`ItemRecord`].
pub struct ItemRecordView {
    pub item: PlanItemView,
    pub attempts: u8,
    pub last_check: Option<CheckResultView>,
    pub last_outcome: Option<ItemRunResult>,
}

impl View for ItemRecord {
    type V = ItemRecordView;

    open spec fn view(&self) -> ItemRecordView {
        ItemRecordView {
            item: self.item@,
            attempts: self.attempts,
            last_check: self.last_check.deep_view(),
            last_outcome: self.last_outcome,
        }
    }
}

impl DeepView for ItemRecord {
    type V = ItemRecordView;

    open spec fn deep_view(&self) -> ItemRecordView {
        self@
    }
}

impl Clone for ItemRecord {
    fn clone(&self) -> (copy: Self)
        ensures
            copy@ == self@,
    {
        ItemRecord {
            item: self.item.clone(),
            attempts: self.attempts,
            last_check: self.last_check.clone(),
            last_outcome: self.last_outcome,
        }
    }
}

impl ItemRecordView {
    /// A record of an item that has not been run.
    pub open spec fn fresh(item: PlanItemView) -> Self {
        ItemRecordView { item, attempts: 0, last_check: None, last_outcome: None }
    }

    /// The item's last run passed.
    pub open spec fn passed(self) -> bool {
        self.last_outcome == Some(ItemRunResult::Passed)
    }
}

/// The final state of a loop.
#[derive(Debug, PartialEq, Eq)]
pub enum GoalLoopOutcome {
    Done { items_completed: usize },
    Aborted { reason: String, items_completed: usize },
}

/// The model of a [`GoalLoopOutcome`].
pub enum GoalLoopOutcomeView {
    Done { items_completed: nat },
    Aborted { reason: Seq<char>, items_completed: nat },
}

impl View for GoalLoopOutcome {
    type V = GoalLoopOutcomeView;

    open spec fn view(&self) -> GoalLoopOutcomeView {
        match *self {
            GoalLoopOutcome::Done { items_completed } => GoalLoopOutcomeView::Done {
                items_completed: items_completed as nat,
            },
            GoalLoopOutcome::Aborted { reason, items_completed } => GoalLoopOutcomeView::Aborted {
                reason: reason@,
                items_completed: items_completed as nat,
            },
        }
    }
}

impl Clone for GoalLoopOutcome {
    fn clone(&self) -> (copy: Self)
        ensures
            copy@ == self@,
    {
        match self {
            GoalLoopOutcome::Done { items_completed } => GoalLoopOutcome::Done {
                items_completed: *items_completed,
            },
            GoalLoopOutcome::Aborted { reason, items_completed } => GoalLoopOutcome::Aborted {
                reason: reason.clone(),
                items_completed: *items_completed,
            },
        }
    }
}

/// What a loop waits for.
pub enum Waiting {
    /// A look at the abort flag and the clock, before its next step.
    Signals,
    /// The planner's reply.
    Plan,
    /// Leave to run the plan's shell commands.
    Approval,
    /// The outcome of the item that was dispatched.
    Outcome,
    /// The result of that item's check.
    Check { outcome: ItemOutcome },
    /// Nothing: the loop is over.
    Nothing { outcome: GoalLoopOutcome },
}

/// The model of a [`Waiting`].
pub enum WaitingView {
    Signals,
    Plan,
    Approval,
    Outcome,
    Check { outcome: ItemOutcomeView },
    Nothing { outcome: GoalLoopOutcomeView },
}

impl View for Waiting {
    type V = WaitingView;

    open spec fn view(&self) -> WaitingView {
        match *self {
            Waiting::Signals => WaitingView::Signals,
            Waiting::Plan => WaitingView::Plan,
            Waiting::Approval => WaitingView::Approval,
            Waiting::Outcome => WaitingView::Outcome,
            Waiting::Check { outcome } => WaitingView::Check { outcome: outcome@ },
            Waiting::Nothing { outcome } => WaitingView::Nothing { outcome: outcome@ },
        }
    }
}

/// The model of what the driver of a loop has to do next.
pub enum LoopActionView {
    Observe,
    Decompose,
    Replan { completed: Seq<PlanItemView>, failed: Seq<PlanItemView> },
    AskApproval { checks: Seq<SuccessCheckView> },
    Dispatch { item: PlanItemView },
    RunCheck { check: SuccessCheckView },
    Finish { outcome: GoalLoopOutcomeView },
}

/// The plans that a loop may ask for before it gives up.
pub const MAX_PLANS: u32 = 3;

/// The records whose `passed` is `wanted`, in order.
pub open spec fn select(items: Seq<ItemRecordView>, wanted: bool) -> Seq<ItemRecordView>
    decreases items.len(),
{
    if items.len() == 0 {
        Seq::empty()
    } else if items.last().passed() == wanted {
        select(items.drop_last(), wanted).push(items.last())
    } else {
        select(items.drop_last(), wanted)
    }
}

/// The items in the given records.
pub open spec fn items_in(records: Seq<ItemRecordView>) -> Seq<PlanItemView> {
    records.map_values(|r: ItemRecordView| r.item)
}

/// Fresh records of the given items.
pub open spec fn fresh_records(items: Seq<PlanItemView>) -> Seq<ItemRecordView> {
    items.map_values(|i: PlanItemView| ItemRecordView::fresh(i))
}

/// How many records passed.
pub open spec fn passed_count(items: Seq<ItemRecordView>) -> nat {
    select(items, true).len()
}

/// There are records, and all of them passed.
pub open spec fn all_passed(items: Seq<ItemRecordView>) -> bool {
    &&& items.len() > 0
    &&& forall|i: int| 0 <= i < items.len() ==> (#[trigger] items[i]).passed()
}

/// Some record did not pass.
pub open spec fn some_open(items: Seq<ItemRecordView>) -> bool {
    exists|i: int| 0 <= i < items.len() && !(#[trigger] items[i]).passed()
}

/// The first record from `from` on that did not pass.
pub open spec fn first_open_from(items: Seq<ItemRecordView>, from: int) -> Option<int>
    decreases items.len() - from,
{
    if from < 0 || from >= items.len() {
        None
    } else if !items[from].passed() {
        Some(from)
    } else {
        first_open_from(items, from + 1)
    }
}

/// The item to run next: the first that did not pass.
pub open spec fn first_open(items: Seq<ItemRecordView>) -> Option<int> {
    first_open_from(items, 0)
}

/// What a run amounts to. A check decides if there is one: a run that fails its
/// check is repaired if the sub-agent reported it completed. Without a check the
/// sub-agent's word counts.
pub open spec fn classified(status: Seq<char>, check: Option<CheckResultView>) -> ItemRunResult {
    let completed = status == "completed"@;
    match check {
        Some(c) => if c.passed {
            ItemRunResult::Passed
        } else if completed {
            ItemRunResult::Repairing
        } else {
            ItemRunResult::Failed
        },
        None => if completed {
            ItemRunResult::Passed
        } else {
            ItemRunResult::Failed
        },
    }
}

/// The record's check runs a shell command that is not among the approved ones.
pub open spec fn is_unapproved(record: ItemRecordView, approved: Seq<Seq<char>>) -> bool {
    record.item.success_check matches Some(check) && check.kind is Shell && !approved.contains(
        check.spec,
    )
}

/// The checks that run shell commands which are not among the approved ones, in
/// order.
pub open spec fn to_approve(
    items: Seq<ItemRecordView>,
    approved: Seq<Seq<char>>,
) -> Seq<SuccessCheckView>
    decreases items.len(),
{
    if items.len() == 0 {
        Seq::empty()
    } else {
        let front = to_approve(items.drop_last(), approved);
        if is_unapproved(items.last(), approved) {
            front.push(items.last().item.success_check->0)
        } else {
            front
        }
    }
}

/// The commands of the given checks.
pub open spec fn commands_of(checks: Seq<SuccessCheckView>) -> Seq<Seq<char>> {
    checks.map_values(|check: SuccessCheckView| check.spec)
}

/// What a goal tells of its loop: the phase, and nothing once the loop is over.
pub open spec fn phase_told(phase: GoalLoopPhase) -> Option<GoalLoopPhase> {
    if phase.terminal() {
        None
    } else {
        Some(phase)
    }
}

/// The phase changes that a loop may make.
pub open spec fn is_edge(from: GoalLoopPhase, to: GoalLoopPhase) -> bool {
    ||| from is Define && to is Decompose
    ||| from is Decompose && to is Dispatch
    ||| from is Dispatch && to is Execute
    ||| from is Execute && to is Verify
    ||| from is Verify && (to is Done || to is Repair || to is Replan)
    ||| from is Repair && to is Dispatch
    ||| from is Replan && to is Decompose
    ||| to is Aborted
}

/// A goal loop at one point in time.
pub struct LoopState {
    pub goal: GoalView,
    pub budget: BudgetView,
    pub items: Seq<ItemRecordView>,
    pub phase: GoalLoopPhase,
    /// How many plans the loop has asked for.
    pub plans: nat,
    /// The record that was run last.
    pub last_run: Option<int>,
    /// The shell commands that may be run.
    pub approved: Seq<Seq<char>>,
    pub waiting: WaitingView,
    /// The events that nobody has taken yet.
    pub events: Seq<GoalLoopEventView>,
}

impl LoopState {
    /// A loop that has not begun. For a goal without a budget nothing is capped
    /// but the retries per item.
    pub open spec fn fresh(goal: GoalView) -> Self {
        LoopState {
            goal,
            budget: BudgetView::fresh(
                match goal.budget {
                    Some(caps) => caps,
                    None => GoalBudget::retries_only(),
                },
            ),
            items: Seq::empty(),
            phase: GoalLoopPhase::Define,
            plans: 0,
            last_run: None,
            approved: Seq::empty(),
            waiting: WaitingView::Signals,
            events: Seq::empty(),
        }
    }

    /// With one more event.
    pub open spec fn emitted(self, event: GoalLoopEventView) -> Self {
        LoopState { events: self.events.push(event), ..self }
    }

    /// In phase `to`, as the goal tells. Only a change of phase is an event.
    pub open spec fn moved(self, to: GoalLoopPhase) -> Self {
        if to == self.phase {
            self
        } else {
            LoopState {
                phase: to,
                goal: GoalView { loop_phase: phase_told(to), ..self.goal },
                ..self.emitted(GoalLoopEventView::PhaseChanged { from: self.phase, to })
            }
        }
    }

    pub open spec fn waiting_for(self, waiting: WaitingView) -> Self {
        LoopState { waiting, ..self }
    }

    /// Given up, for the reason given.
    pub open spec fn aborted(self, reason: Seq<char>) -> Self {
        self.moved(GoalLoopPhase::Aborted).emitted(
            GoalLoopEventView::Aborted { reason },
        ).waiting_for(
            WaitingView::Nothing {
                outcome: GoalLoopOutcomeView::Aborted {
                    reason,
                    items_completed: passed_count(self.items),
                },
            },
        )
    }

    /// With record `i` replaced.
    pub open spec fn with_record(self, i: int, record: ItemRecordView) -> Self {
        LoopState { items: self.items.update(i, record), ..self }
    }

    /// The loop has looked at the abort flag and the clock. A raised flag stops
    /// it first, an exceeded budget second; else it takes a step.
    pub open spec fn observed(self, abort_raised: bool, elapsed_secs: u32) -> Self {
        let begun = if self.phase is Define {
            self.moved(GoalLoopPhase::Decompose)
        } else {
            self
        };
        if abort_raised {
            begun.aborted("user abort"@)
        } else {
            match begun.budget.exceeded_at(elapsed_secs) {
                Some(reason) => begun.aborted(reason.message()),
                None => begun.stepped(),
            }
        }
    }

    /// One step, as the phase has it.
    pub open spec fn stepped(self) -> Self {
        match self.phase {
            GoalLoopPhase::Decompose => self.waiting_for(WaitingView::Plan),
            GoalLoopPhase::Dispatch => self.moved(GoalLoopPhase::Execute),
            GoalLoopPhase::Execute => match first_open(self.items) {
                Some(i) => self.started(i),
                None => self.moved(GoalLoopPhase::Verify),
            },
            GoalLoopPhase::Verify => self.moved(self.after_verify()),
            GoalLoopPhase::Repair => self.moved(GoalLoopPhase::Dispatch),
            GoalLoopPhase::Replan => if self.plans >= MAX_PLANS {
                self.aborted("decompose attempts exhausted"@)
            } else {
                self.moved(GoalLoopPhase::Decompose)
            },
            GoalLoopPhase::Done => self.emitted(GoalLoopEventView::Done).waiting_for(
                WaitingView::Nothing {
                    outcome: GoalLoopOutcomeView::Done {
                        items_completed: passed_count(self.items),
                    },
                },
            ),
            GoalLoopPhase::Define | GoalLoopPhase::Aborted => self.waiting_for(
                WaitingView::Nothing {
                    outcome: GoalLoopOutcomeView::Aborted {
                        reason: "controller reached unreachable phase"@,
                        items_completed: passed_count(self.items),
                    },
                },
            ),
        }
    }

    /// How the last run ended.
    pub open spec fn last_result(self) -> Option<ItemRunResult> {
        match self.last_run {
            Some(i) => if 0 <= i < self.items.len() {
                self.items[i].last_outcome
            } else {
                None
            },
            None => None,
        }
    }

    /// Where verification leads: to the end once everything passed, to a repair
    /// where the last run can be repaired, and to a new plan otherwise.
    pub open spec fn after_verify(self) -> GoalLoopPhase {
        if all_passed(self.items) {
            GoalLoopPhase::Done
        } else if self.last_result() == Some(ItemRunResult::Repairing) {
            GoalLoopPhase::Repair
        } else {
            GoalLoopPhase::Replan
        }
    }

    /// The run of record `i` has begun. From its second run on, each run counts
    /// as a retry of its item, and one retry too many ends the loop.
    pub open spec fn started(self, i: int) -> Self {
        let record = self.items[i];
        let id = record.item.id;
        let attempts: u8 = if record.attempts == u8::MAX {
            u8::MAX
        } else {
            (record.attempts + 1) as u8
        };
        let counted = LoopState {
            last_run: Some(i),
            ..self.with_record(i, ItemRecordView { attempts, ..record })
        };
        let retried = LoopState { budget: self.budget.retried(id), ..counted };
        if attempts <= 1 {
            counted.dispatched(id)
        } else if self.budget.may_retry(id) {
            retried.dispatched(id)
        } else {
            retried.with_record(
                i,
                ItemRecordView { attempts, last_outcome: Some(ItemRunResult::Failed), ..record },
            ).aborted(self.budget.retries_exceeded(id).message())
        }
    }

    /// An item was handed out.
    pub open spec fn dispatched(self, id: Seq<char>) -> Self {
        self.emitted(GoalLoopEventView::ItemStarted { item_id: id }).waiting_for(
            WaitingView::Outcome,
        )
    }

    /// The planner has replied: with a first plan, or with one that replaces
    /// what has not passed. Before anything of it is run, the shell commands in it
    /// that are new have to be approved.
    pub open spec fn planned(self, reply: Result<Seq<PlanItemView>, PlannerErrorView>) -> Self {
        let first = self.plans == 0;
        let asked = if first {
            LoopState { plans: 1, ..self }
        } else {
            self
        };
        match reply {
            Err(error) => asked.aborted(
                if first {
                    "decompose failed: "@ + error.message()
                } else {
                    "replan failed: "@ + error.message()
                },
            ),
            Ok(items) => if items.len() == 0 {
                asked.aborted(
                    if first {
                        "planner produced zero items"@
                    } else {
                        "replan produced zero items"@
                    },
                )
            } else {
                let records = select(self.items, true) + fresh_records(items);
                LoopState { items: records, plans: self.plans + 1, ..self }.emitted(
                    GoalLoopEventView::PlanReady {
                        item_count: records.len(),
                        attempt: self.plans + 1,
                    },
                ).moved(GoalLoopPhase::Dispatch).waiting_for(
                    if to_approve(records, self.approved).len() > 0 {
                        WaitingView::Approval
                    } else {
                        WaitingView::Signals
                    },
                )
            },
        }
    }

    /// The plan's shell commands were approved, for good, or were not, which ends
    /// the loop.
    pub open spec fn approval_given(self, allowed: bool) -> Self {
        if allowed {
            LoopState {
                approved: self.approved + commands_of(to_approve(self.items, self.approved)),
                ..self
            }.waiting_for(WaitingView::Signals)
        } else {
            self.aborted("shell command not allowed"@)
        }
    }

    /// The sub-agent has replied, or has failed to.
    pub open spec fn outcome_given(
        self,
        reply: Option<ItemOutcomeView>,
        elapsed_secs: u32,
    ) -> Self {
        let i = self.last_run->0;
        match reply {
            None => self.concluded(ItemRunResult::Failed, None),
            Some(outcome) => {
                let budget = self.budget.recorded(outcome.usage);
                let billed = LoopState { budget, ..self }.emitted(
                    GoalLoopEventView::BudgetUpdate {
                        tokens_used: budget.tokens_used,
                        cents_used: budget.cents_used,
                        elapsed_secs,
                    },
                );
                if outcome.check is None && self.items[i].item.success_check is Some {
                    billed.waiting_for(WaitingView::Check { outcome })
                } else {
                    billed.concluded(classified(outcome.status, outcome.check), outcome.check)
                }
            },
        }
    }

    /// The item's check has been run.
    pub open spec fn check_given(self, check: CheckResultView) -> Self {
        self.concluded(classified(self.waiting->Check_outcome.status, Some(check)), Some(check))
    }

    /// The run of an item is over. After a pass the loop goes on to the next
    /// item, if there is one; else it verifies.
    pub open spec fn concluded(
        self,
        result: ItemRunResult,
        check: Option<CheckResultView>,
    ) -> Self {
        let i = self.last_run->0;
        let record = self.items[i];
        let next = self.with_record(
            i,
            ItemRecordView { last_check: check, last_outcome: Some(result), ..record },
        ).emitted(
            GoalLoopEventView::ItemFinished {
                item_id: record.item.id,
                outcome: result.as_kind(),
                check,
            },
        ).waiting_for(WaitingView::Signals);
        if result is Passed && !all_passed(next.items) {
            next
        } else {
            next.moved(GoalLoopPhase::Verify)
        }
    }

    /// What the driver of the loop has to do.
    pub open spec fn action(self) -> LoopActionView {
        match self.waiting {
            WaitingView::Signals => LoopActionView::Observe,
            WaitingView::Plan => if self.plans == 0 {
                LoopActionView::Decompose
            } else {
                LoopActionView::Replan {
                    completed: items_in(select(self.items, true)),
                    failed: items_in(select(self.items, false)),
                }
            },
            WaitingView::Approval => LoopActionView::AskApproval {
                checks: to_approve(self.items, self.approved),
            },
            WaitingView::Outcome => LoopActionView::Dispatch {
                item: self.items[self.last_run->0].item,
            },
            WaitingView::Check { .. } => LoopActionView::RunCheck {
                check: self.items[self.last_run->0].item.success_check->0,
            },
            WaitingView::Nothing { outcome } => LoopActionView::Finish { outcome },
        }
    }

    /// The states that a loop can be in.
    pub open spec fn valid(self) -> bool {
        &&& self.plans <= MAX_PLANS
        &&& self.phase is Aborted || (self.plans == 0 <==> self.items.len() == 0)
        &&& self.waiting_fits()
        &&& self.phase_fits()
        &&& self.retries_fit()
        &&& self.approvals_fit()
        &&& self.phase is Define || self.goal.loop_phase == phase_told(self.phase)
    }

    /// Unless the loop waits for it or was aborted, every shell command in the plan
    /// was approved.
    pub open spec fn approvals_fit(self) -> bool {
        self.phase is Aborted || self.waiting is Approval || forall|i: int|
            0 <= i < self.items.len() ==> !is_unapproved(#[trigger] self.items[i], self.approved)
    }

    /// The loop waits for what its phase calls for.
    pub open spec fn waiting_fits(self) -> bool {
        match self.waiting {
            WaitingView::Signals => !(self.phase is Aborted),
            WaitingView::Plan => self.phase is Decompose,
            WaitingView::Approval => self.phase is Dispatch && to_approve(
                self.items,
                self.approved,
            ).len() > 0,
            WaitingView::Outcome => self.runs_an_item(),
            WaitingView::Check { outcome } => {
                &&& self.runs_an_item()
                &&& self.items[self.last_run->0].item.success_check is Some
                &&& outcome.check is None
            },
            WaitingView::Nothing { outcome } => match outcome {
                GoalLoopOutcomeView::Done { items_completed } => {
                    &&& self.phase is Done
                    &&& items_completed == self.items.len()
                },
                GoalLoopOutcomeView::Aborted { items_completed, .. } => {
                    &&& self.phase is Aborted
                    &&& items_completed == passed_count(self.items)
                },
            },
        }
    }

    /// An item is being run, and it is one that has not passed.
    pub open spec fn runs_an_item(self) -> bool {
        &&& self.phase is Execute
        &&& self.last_run is Some
        &&& 0 <= self.last_run->0 < self.items.len()
        &&& !self.items[self.last_run->0].passed()
    }

    /// The records are as the phase has them.
    pub open spec fn phase_fits(self) -> bool {
        match self.phase {
            GoalLoopPhase::Define => self.plans == 0,
            GoalLoopPhase::Decompose => self.plans < MAX_PLANS && (self.plans > 0 ==> some_open(
                self.items,
            )),
            GoalLoopPhase::Dispatch
            | GoalLoopPhase::Execute
            | GoalLoopPhase::Repair
            | GoalLoopPhase::Replan => some_open(self.items),
            GoalLoopPhase::Verify => self.plans > 0,
            GoalLoopPhase::Done => all_passed(self.items),
            GoalLoopPhase::Aborted => true,
        }
    }

    /// Unless the loop was aborted, no item was retried more often than the cap
    /// allows, and every run after an item's first was counted as a retry.
    pub open spec fn retries_fit(self) -> bool {
        self.phase is Aborted || {
            &&& forall|id: Seq<char>|
                #[trigger] self.budget.retry_count(id) <= self.budget.caps.retries_per_item
            &&& forall|i: int|
                0 <= i < self.items.len() ==> (#[trigger] self.items[i]).attempts
                    <= self.budget.retry_count(self.items[i].item.id) + 1
        }
    }
}

} // verus!
