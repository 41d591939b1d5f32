//! What planners, sub-agents and verifiers report.
use crate::budget::UsageDelta;
use crate::checks::{CheckResult, CheckResultView};
use vstd::prelude::*;

verus! {

/// Why a planner gave no plan.
#[derive(Debug, PartialEq, Eq)]
pub enum PlannerError {
    InvalidJson(String),
    Empty,
    Other(String),
}

/// The model of a [`PlannerError`].
pub enum PlannerErrorView {
    InvalidJson(Seq<char>),
    Empty,
    Other(Seq<char>),
}

impl View for PlannerError {
    type V = PlannerErrorView;

    open spec fn view(&self) -> PlannerErrorView {
        match *self {
            PlannerError::InvalidJson(detail) => PlannerErrorView::InvalidJson(detail@),
            PlannerError::Empty => PlannerErrorView::Empty,
            PlannerError::Other(detail) => PlannerErrorView::Other(detail@),
        }
    }
}

impl DeepView for PlannerError {
    type V = PlannerErrorView;

    open spec fn deep_view(&self) -> PlannerErrorView {
        self@
    }
}

impl PlannerErrorView {
    /// The error in words.
    pub open spec fn message(self) -> Seq<char> {
        match self {
            PlannerErrorView::InvalidJson(detail) => "planner produced invalid JSON: "@ + detail,
            PlannerErrorView::Empty => "planner produced zero items"@,
            PlannerErrorView::Other(detail) => "planner failed: "@ + detail,
        }
    }
}

impl PlannerError {
    /// The error in words.
    pub fn message(&self) -> (message: String)
        ensures
            message@ == self@.message(),
    {
        match self {
            PlannerError::InvalidJson(detail) => {
                let mut m = "planner produced invalid JSON: ".to_string();
                m.append(detail.as_str());
                m
            },
            PlannerError::Empty => "planner produced zero items".to_string(),
            PlannerError::Other(detail) => {
                let mut m = "planner failed: ".to_string();
                m.append(detail.as_str());
                m
            },
        }
    }
}

/// Why a sub-agent gave no outcome.
#[derive(Debug, PartialEq, Eq)]
pub enum DispatcherError {
    SpawnFailed(String),
    Crashed(String),
}

impl DispatcherError {
    /// The error in words.
    pub open spec fn words(self) -> Seq<char> {
        match self {
            DispatcherError::SpawnFailed(detail) => "sub-agent failed to start: "@ + detail@,
            DispatcherError::Crashed(detail) => "sub-agent crashed: "@ + detail@,
        }
    }

    /// The error in words.
    pub fn message(&self) -> (message: String)
        ensures
            message@ == self.words(),
    {
        match self {
            DispatcherError::SpawnFailed(detail) => {
                let mut m = "sub-agent failed to start: ".to_string();
                m.append(detail.as_str());
                m
            },
            DispatcherError::Crashed(detail) => {
                let mut m = "sub-agent crashed: ".to_string();
                m.append(detail.as_str());
                m
            },
        }
    }
}

/// What came of running one plan item through a sub-agent.
#[derive(Debug, PartialEq, Eq)]
pub struct ItemOutcome {
    pub item_id: String,
    /// The status that the sub-agent reports: `completed`, `failed` and so on.
    /// Anything but `completed` is a soft failure, which a passing check still
    /// makes good.
    pub status: String,
    /// The sub-agent's report in its own words.
    pub report: Option<String>,
    /// What the turn used up.
    pub usage: UsageDelta,
    /// What the item's check found, if it was run along with the item.
    pub check: Option<CheckResult>,
}

/// The model of an [`ItemOutcome`].
pub struct ItemOutcomeView {
    pub item_id: Seq<char>,
    pub status: Seq<char>,
    pub report: Option<Seq<char>>,
    pub usage: UsageDelta,
    pub check: Option<CheckResultView>,
}

impl View for ItemOutcome {
    type V = ItemOutcomeView;

    open spec fn view(&self) -> ItemOutcomeView {
        ItemOutcomeView {
            item_id: self.item_id@,
            status: self.status@,
            report: self.report.deep_view(),
            usage: self.usage,
            check: self.check.deep_view(),
        }
    }
}

impl DeepView for ItemOutcome {
    type V = ItemOutcomeView;

    open spec fn deep_view(&self) -> ItemOutcomeView {
        self@
    }
}

impl Clone for ItemOutcome {
    fn clone(&self) -> (copy: Self)
        ensures
            copy@ == self@,
    {
        ItemOutcome {
            item_id: self.item_id.clone(),
            status: self.status.clone(),
            report: self.report.clone(),
            usage: self.usage,
            check: self.check.clone(),
        }
    }
}

} // verus!
