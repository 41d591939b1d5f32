//! Goal-driven loops for coding agents.
//!
//! A user states a goal in a sentence. The loop has it broken down into plan
//! items, has each item carried out by a sub-agent, verifies what came of it, and
//! stops when every item has passed, when a budget is used up, or when the user
//! says so.
//!
//! This crate holds the decisions of such a loop: what to do next, what a reply
//! means, what was used up, what to print. It does no input or output. A driver
//! asks a [`GoalLoopController`] for the next [`LoopAction`], carries it out, and
//! tells the controller what came back. The state machine that the controller
//! follows is [`loop_state`], and what holds of every run of it is [`loop_laws`].
pub mod abort;
pub mod agents;
pub mod budget;
pub mod check_laws;
pub mod checks;
pub mod cli;
pub mod clock;
pub mod controller;
pub mod display_laws;
pub mod events;
pub mod goal;
pub mod loop_laws;
pub mod loop_state;
pub mod names;
pub mod plan;
pub mod prompt_laws;
pub mod prompts;
pub mod record_laws;
pub mod search;
pub mod side_panel;
pub mod slug;
pub mod step_laws;
pub mod text;
pub mod text_laws;
pub mod verdicts;

pub use abort::AbortFlag;
pub use abort::AbortFlag as GoalLoopAbortFlag;
pub use agents::{DispatcherError, ItemOutcome, PlannerError};
pub use budget::{BudgetExceeded, BudgetTracker, UsageDelta};
pub use checks::{CheckResult, GoalBudget, SuccessCheck};
pub use clock::Timestamp;
pub use controller::{GoalLoopController, GoalLoopSnapshot, LoopAction};
pub use events::{GoalLoopEvent, ItemOutcomeKind};
pub use goal::{
    CatchupBrief, Goal, GoalMilestone, GoalStep, GoalUpdate, PersistedCatchupState, TodoItem,
};
pub use loop_state::{GoalLoopOutcome, ItemRecord, ItemRunResult};
pub use names::{GoalLoopPhase, GoalScope, GoalStatus, SuccessCheckKind};
pub use plan::PlanItem;
pub use prompts::{
    extract_json, parse_plan_items, PlanRequest, DECOMPOSE_PROMPT, REPLAN_PROMPT, VERIFIER_PROMPT,
};
pub use search::RegexScan;
pub use side_panel::{
    page_id_for_goal, render_snapshot_markdown, snapshot_as_side_panel_page, SidePanelPage,
    SidePanelPageFormat, SidePanelPageSource,
};
pub use slug::sanitize_goal_id;
pub use verdicts::{
    CheckPlan, CommandOutcome, NullAgentAssertion, StubAgentAssertion, VerifierError,
};
