//! Success checks, their results, and the caps on a goal loop.
use crate::names::SuccessCheckKind;
use vstd::prelude::*;

verus! {

/// The time a check gets when its author names none: two minutes.
pub const DEFAULT_CHECK_TIMEOUT_MS: u32 = 120_000;

/// The retries an item gets when nobody names a number.
pub const DEFAULT_RETRIES_PER_ITEM: u8 = 3;

/// How to verify that something was achieved.
#[derive(Debug, PartialEq, Eq)]
pub struct SuccessCheck {
    pub kind: SuccessCheckKind,
    /// The command, selector, pattern or assertion, as the kind reads it.
    pub spec: String,
    pub timeout_ms: u32,
}

/// The model of a [`SuccessCheck`].
pub struct SuccessCheckView {
    pub kind: SuccessCheckKind,
    pub spec: Seq<char>,
    pub timeout_ms: u32,
}

impl View for SuccessCheck {
    type V = SuccessCheckView;

    open spec fn view(&self) -> SuccessCheckView {
        SuccessCheckView { kind: self.kind, spec: self.spec@, timeout_ms: self.timeout_ms }
    }
}

impl DeepView for SuccessCheck {
    type V = SuccessCheckView;

    open spec fn deep_view(&self) -> SuccessCheckView {
        self@
    }
}

impl Clone for SuccessCheck {
    fn clone(&self) -> (copy: Self)
        ensures
            copy@ == self@,
    {
        SuccessCheck { kind: self.kind, spec: self.spec.clone(), timeout_ms: self.timeout_ms }
    }
}

/// What a success check found.
#[derive(Debug, PartialEq, Eq)]
pub struct CheckResult {
    pub passed: bool,
    pub detail: String,
    pub duration_ms: u32,
}

/// The model of a [`CheckResult`].
pub struct CheckResultView {
    pub passed: bool,
    pub detail: Seq<char>,
    pub duration_ms: u32,
}

impl View for CheckResult {
    type V = CheckResultView;

    open spec fn view(&self) -> CheckResultView {
        CheckResultView {
            passed: self.passed,
            detail: self.detail@,
            duration_ms: self.duration_ms,
        }
    }
}

impl DeepView for CheckResult {
    type V = CheckResultView;

    open spec fn deep_view(&self) -> CheckResultView {
        self@
    }
}

impl Clone for CheckResult {
    fn clone(&self) -> (copy: Self)
        ensures
            copy@ == self@,
    {
        CheckResult {
            passed: self.passed,
            detail: self.detail.clone(),
            duration_ms: self.duration_ms,
        }
    }
}

/// Caps on what a goal loop may use up. `None` leaves a resource uncapped.
#[derive(Debug, Clone, Copy, PartialEq, Eq)]
pub struct GoalBudget {
    pub tokens: Option<u64>,
    pub usd_cents: Option<u32>,
    pub wall_secs: Option<u32>,
    pub retries_per_item: u8,
}

impl GoalBudget {
    /// The caps that the `goal` command sets when its user names none: two dollars, half an hour,
    /// three retries per item, and no cap on tokens.
    pub open spec fn interactive() -> Self {
        GoalBudget {
            tokens: None,
            usd_cents: Some(200),
            wall_secs: Some(1_800),
            retries_per_item: DEFAULT_RETRIES_PER_ITEM,
        }
    }

    /// The caps that the `goal` command sets when its user names none.
    pub fn default_interactive() -> (budget: Self)
        ensures
            budget == Self::interactive(),
    {
        GoalBudget {
            tokens: None,
            usd_cents: Some(200),
            wall_secs: Some(1_800),
            retries_per_item: DEFAULT_RETRIES_PER_ITEM,
        }
    }
}

impl GoalBudget {
    /// The caps of a goal that names none: nothing is capped but the retries per
    /// item.
    pub open spec fn retries_only() -> Self {
        GoalBudget {
            tokens: None,
            usd_cents: None,
            wall_secs: None,
            retries_per_item: DEFAULT_RETRIES_PER_ITEM,
        }
    }

    /// The caps of a goal that names none.
    pub fn uncapped() -> (budget: Self)
        ensures
            budget == Self::retries_only(),
    {
        GoalBudget {
            tokens: None,
            usd_cents: None,
            wall_secs: None,
            retries_per_item: DEFAULT_RETRIES_PER_ITEM,
        }
    }
}

impl Default for GoalBudget {
    /// No caps, and no retries.
    fn default() -> (budget: Self)
        ensures
            budget.tokens is None,
            budget.usd_cents is None,
            budget.wall_secs is None,
            budget.retries_per_item == 0,
    {
        GoalBudget { tokens: None, usd_cents: None, wall_secs: None, retries_per_item: 0 }
    }
}

} // verus!
