//! The `goal` command: its budget, its dry run, and what it prints.
use crate::agents::{ItemOutcome, ItemOutcomeView, PlannerError, PlannerErrorView};
use crate::budget::UsageDelta;
use crate::checks::{GoalBudget, SuccessCheck, SuccessCheckView};
use crate::clock;
use crate::clock::Timestamp;
use crate::controller;
use crate::events::{GoalLoopEvent, GoalLoopEventView, ItemOutcomeKind};
use crate::goal;
use crate::goal::{Goal, GoalView};
use crate::loop_state::{GoalLoopOutcome, GoalLoopOutcomeView};
use crate::names::{GoalScope, SuccessCheckKind};
use crate::plan::{PlanItem, PlanItemView};
use crate::text;
use crate::text::{decimal_text, same_text};
use vstd::prelude::*;

verus! {

/// What the user asks of the `goal` command.
#[derive(Debug, PartialEq, Eq)]
pub enum GoalCommand {
    /// Pursue a goal.
    Run {
        message: String,
        budget_tokens: Option<u64>,
        budget_usd_cents: Option<u32>,
        budget_secs: Option<u32>,
        retries_per_item: u8,
        dry_run: bool,
        ndjson: bool,
    },
}

/// What is said to a user who asks for more than a dry run.
pub const LIVE_MODE_ERROR: &'static str =
    "live goal-loop mode is not yet wired — pass --dry-run to exercise the controller. The real path needs jcode-provider-* and src/server/swarm.rs integration; see docs/GOAL_LOOPS.md and the Planner / SwarmDispatcher traits in jcode-goal-loop.";

impl GoalCommand {
    /// The caps that the command sets: those the user names, and the interactive
    /// ones for dollars and time if the user names none.
    pub open spec fn caps(self) -> GoalBudget {
        match self {
            GoalCommand::Run {
                budget_tokens,
                budget_usd_cents,
                budget_secs,
                retries_per_item,
                ..
            } => GoalBudget {
                tokens: budget_tokens,
                usd_cents: if budget_usd_cents is Some {
                    budget_usd_cents
                } else {
                    GoalBudget::interactive().usd_cents
                },
                wall_secs: if budget_secs is Some {
                    budget_secs
                } else {
                    GoalBudget::interactive().wall_secs
                },
                retries_per_item,
            },
        }
    }

    /// The caps that the command sets.
    pub fn budget(&self) -> (budget: GoalBudget)
        ensures
            budget == self.caps(),
    {
        match self {
            GoalCommand::Run {
                budget_tokens,
                budget_usd_cents,
                budget_secs,
                retries_per_item,
                ..
            } => {
                let mut budget = GoalBudget::default_interactive();
                budget.tokens = *budget_tokens;
                if budget_usd_cents.is_some() {
                    budget.usd_cents = *budget_usd_cents;
                }
                if budget_secs.is_some() {
                    budget.wall_secs = *budget_secs;
                }
                budget.retries_per_item = *retries_per_item;
                budget
            },
        }
    }

    /// The goal that the command pursues, or what is said to the user. Only dry
    /// runs are to be had. The clock decides when the goal was made.
    pub fn goal(&self) -> (goal: Result<Goal, String>)
        ensures
            match (*self, goal) {
                (GoalCommand::Run { dry_run: false, .. }, Err(problem)) => problem@
                    == LIVE_MODE_ERROR@,
                (GoalCommand::Run { message, dry_run: true, .. }, Ok(goal)) => goal@
                    == capped_goal(message@, self.caps(), goal.created_at)
                    && clock::is_clock_reading(goal.created_at),
                _ => false,
            },
    {
        match self {
            GoalCommand::Run { message, dry_run, .. } => {
                if !*dry_run {
                    return Err(LIVE_MODE_ERROR.to_string());
                }
                Ok(dry_run_goal(message.as_str(), self.budget()))
            },
        }
    }
}

/// A project goal with the given caps.
pub open spec fn capped_goal(title: Seq<char>, caps: GoalBudget, now: Timestamp) -> GoalView {
    GoalView { budget: Some(caps), ..goal::fresh_goal(title, GoalScope::Project, now) }
}

/// A project goal with the given caps, made now.
pub fn dry_run_goal(message: &str, budget: GoalBudget) -> (goal: Goal)
    ensures
        goal@ == capped_goal(message@, budget, goal.created_at),
        clock::is_clock_reading(goal.created_at),
{
    let mut goal = Goal::new(message, GoalScope::Project);
    goal.budget = Some(budget);
    goal
}

/// An item of a dry run.
pub open spec fn dry_item(id: Seq<char>, content: Seq<char>) -> PlanItemView {
    PlanItemView {
        content,
        status: "queued"@,
        priority: "medium"@,
        id,
        subsystem: None,
        file_scope: Seq::empty(),
        blocked_by: Seq::empty(),
        assigned_to: None,
        success_check: Some(
            SuccessCheckView {
                kind: SuccessCheckKind::Shell,
                spec: "exit 0"@,
                timeout_ms: 5_000,
            },
        ),
    }
}

/// An item of a dry run, with a check that always passes.
pub fn item(id: &str, content: &str) -> (item: PlanItem)
    ensures
        item@ == dry_item(id@, content@),
{
    let item = PlanItem {
        content: content.to_string(),
        status: "queued".to_string(),
        priority: "medium".to_string(),
        id: id.to_string(),
        subsystem: None,
        file_scope: Vec::new(),
        blocked_by: Vec::new(),
        assigned_to: None,
        success_check: Some(
            SuccessCheck {
                kind: SuccessCheckKind::Shell,
                spec: "exit 0".to_string(),
                timeout_ms: 5_000,
            },
        ),
    };
    assert(item@.file_scope =~= Seq::empty());
    assert(item@.blocked_by =~= Seq::empty());
    item
}

/// Whether a dry run may run a check's command: the one that its own items have.
pub fn dry_run_lists(check: &SuccessCheck) -> (listed: bool)
    ensures
        listed == (check@.spec == "exit 0"@),
{
    same_text(check.spec.as_str(), "exit 0")
}

/// A task about the goal with the given title.
fn about(task: &str, title: &str) -> (content: String)
    ensures
        content@ == task@ + title@,
{
    let mut content = task.to_string();
    content.append(title);
    content
}

/// The plan of every dry run.
pub open spec fn dry_plan(title: Seq<char>) -> Seq<PlanItemView> {
    seq![
        dry_item("research"@, "investigate: "@ + title),
        dry_item("implement"@, "implement: "@ + title),
        dry_item("verify"@, "verify: "@ + title),
    ]
}

/// Plans a dry run.
pub fn dry_run_decompose(goal: &Goal) -> (plan: Result<Vec<PlanItem>, PlannerError>)
    ensures
        controller::plan_told(plan) == Ok::<Seq<PlanItemView>, PlannerErrorView>(
            dry_plan(goal@.title),
        ),
{
    let title = goal.title.as_str();
    let items = vec![
        item("research", about("investigate: ", title).as_str()),
        item("implement", about("implement: ", title).as_str()),
        item("verify", about("verify: ", title).as_str()),
    ];
    assert(items.deep_view() =~= dry_plan(goal@.title));
    Ok(items)
}

/// Plans the rest of a dry run.
pub fn dry_run_replan(failed: &Vec<PlanItem>) -> (plan: Result<Vec<PlanItem>, PlannerError>)
    ensures
        controller::plan_told(plan) == if failed@.len() == 0 {
            Err::<Seq<PlanItemView>, PlannerErrorView>(PlannerErrorView::Empty)
        } else {
            Ok(seq![dry_item("fixup"@, "retry failed work with smaller scope"@)])
        },
{
    if failed.is_empty() {
        return Err(PlannerError::Empty);
    }
    let items = vec![item("fixup", "retry failed work with smaller scope")];
    assert(items.deep_view() =~= seq![
        dry_item("fixup"@, "retry failed work with smaller scope"@),
    ]);
    Ok(items)
}

/// What comes of an item in a dry run: it is reported completed, for 250 tokens
/// and a cent.
pub fn dry_run_outcome(item: &PlanItem) -> (outcome: ItemOutcome)
    ensures
        outcome@ == (ItemOutcomeView {
            item_id: item@.id,
            status: "completed"@,
            report: Some("[dry-run] simulated "@ + item@.id),
            usage: UsageDelta { tokens: 250, usd_cents: 1 },
            check: None,
        }),
{
    ItemOutcome {
        item_id: item.id.clone(),
        status: "completed".to_string(),
        report: Some(about("[dry-run] simulated ", item.id.as_str())),
        usage: UsageDelta { tokens: 250, usd_cents: 1 },
        check: None,
    }
}

/// How a run ended, in a word.
pub open spec fn kind_told(kind: ItemOutcomeKind) -> Seq<char> {
    match kind {
        ItemOutcomeKind::Passed => "Passed"@,
        ItemOutcomeKind::Repairing => "Repairing"@,
        ItemOutcomeKind::Failed => "Failed"@,
    }
}

/// The line that is printed for an event. `dollars` is what was spent, in
/// dollars.
pub open spec fn line_of(event: GoalLoopEventView, dollars: Seq<char>) -> Seq<char> {
    match event {
        GoalLoopEventView::PhaseChanged { from, to } => "→ phase: "@ + from.name() + " → "@
            + to.name(),
        GoalLoopEventView::PlanReady { item_count, attempt } => "· plan ready (attempt "@
            + text::decimal(attempt) + "): "@ + text::decimal(item_count) + " item(s)"@,
        GoalLoopEventView::ItemStarted { item_id } => "· start  "@ + item_id,
        GoalLoopEventView::ItemFinished { item_id, outcome, check } => "· finish "@ + item_id
            + " "@ + kind_told(outcome) + match check {
            Some(check) => if check.passed {
                " [PASS: "@ + check.detail + "]"@
            } else {
                " [FAIL: "@ + check.detail + "]"@
            },
            None => Seq::empty(),
        },
        GoalLoopEventView::BudgetUpdate { tokens_used, elapsed_secs, .. } => "· budget: "@
            + text::decimal(tokens_used as nat) + " tok / $"@ + dollars + " / "@ + text::decimal(
            elapsed_secs as nat,
        ) + "s"@,
        GoalLoopEventView::Aborted { reason } => "✗ aborted: "@ + reason,
        GoalLoopEventView::Done => "✓ done"@,
    }
}

/// The line that is printed for an event. `dollars` is what was spent, in
/// dollars.
pub fn event_line(event: &GoalLoopEvent, dollars: &str) -> (line: String)
    ensures
        line@ == line_of(event@, dollars@),
{
    let mut line = String::new();
    match event {
        GoalLoopEvent::PhaseChanged { from, to } => {
            line.append("→ phase: ");
            line.append(from.as_str());
            line.append(" → ");
            line.append(to.as_str());
        },
        GoalLoopEvent::PlanReady { item_count, attempt } => {
            line.append("· plan ready (attempt ");
            line.append(decimal_text(*attempt as u64).as_str());
            line.append("): ");
            line.append(decimal_text(*item_count as u64).as_str());
            line.append(" item(s)");
        },
        GoalLoopEvent::ItemStarted { item_id } => {
            line.append("· start  ");
            line.append(item_id.as_str());
        },
        GoalLoopEvent::ItemFinished { item_id, outcome, check } => {
            line.append("· finish ");
            line.append(item_id.as_str());
            line.append(" ");
            line.append(
                match outcome {
                    ItemOutcomeKind::Passed => "Passed",
                    ItemOutcomeKind::Repairing => "Repairing",
                    ItemOutcomeKind::Failed => "Failed",
                },
            );
            if let Some(check) = check {
                line.append(
                    if check.passed {
                        " [PASS: "
                    } else {
                        " [FAIL: "
                    },
                );
                line.append(check.detail.as_str());
                line.append("]");
            }
        },
        GoalLoopEvent::BudgetUpdate { tokens_used, elapsed_secs, .. } => {
            line.append("· budget: ");
            line.append(decimal_text(*tokens_used).as_str());
            line.append(" tok / $");
            line.append(dollars);
            line.append(" / ");
            line.append(decimal_text(*elapsed_secs as u64).as_str());
            line.append("s");
        },
        GoalLoopEvent::Aborted { reason } => {
            line.append("✗ aborted: ");
            line.append(reason.as_str());
        },
        GoalLoopEvent::Done => {
            line.append("✓ done");
        },
    }
    assert(line@ =~= line_of(event@, dollars@));
    line
}

/// The line that is printed at the end.
pub open spec fn last_line(outcome: GoalLoopOutcomeView) -> Seq<char> {
    match outcome {
        GoalLoopOutcomeView::Done { items_completed } => "goal DONE — "@ + text::decimal(
            items_completed,
        ) + " item(s) passed"@,
        GoalLoopOutcomeView::Aborted { reason, items_completed } => "goal ABORTED — "@
            + text::decimal(items_completed) + " item(s) passed before stop; reason: "@ + reason,
    }
}

/// The line that is printed at the end.
pub fn outcome_line(outcome: &GoalLoopOutcome) -> (line: String)
    ensures
        line@ == last_line(outcome@),
{
    match outcome {
        GoalLoopOutcome::Done { items_completed } => {
            let mut line = "goal DONE — ".to_string();
            line.append(decimal_text(*items_completed as u64).as_str());
            line.append(" item(s) passed");
            line
        },
        GoalLoopOutcome::Aborted { reason, items_completed } => {
            let mut line = "goal ABORTED — ".to_string();
            line.append(decimal_text(*items_completed as u64).as_str());
            line.append(" item(s) passed before stop; reason: ");
            line.append(reason.as_str());
            line
        },
    }
}

} // verus!
