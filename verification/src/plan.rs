//! Plan items, the units of work that a goal is broken down into.
use crate::checks::{SuccessCheck, SuccessCheckView};
use crate::text::clone_strings;
use vstd::prelude::*;

verus! {

/// One unit of work.
#[derive(Debug, PartialEq, Eq)]
pub struct PlanItem {
    pub content: String,
    pub status: String,
    pub priority: String,
    pub id: String,
    pub subsystem: Option<String>,
    pub file_scope: Vec<String>,
    pub blocked_by: Vec<String>,
    pub assigned_to: Option<String>,
    /// How the item is verified; `None` trusts the agent that did it.
    pub success_check: Option<SuccessCheck>,
}

/// The model of a [`PlanItem`].
pub struct PlanItemView {
    pub content: Seq<char>,
    pub status: Seq<char>,
    pub priority: Seq<char>,
    pub id: Seq<char>,
    pub subsystem: Option<Seq<char>>,
    pub file_scope: Seq<Seq<char>>,
    pub blocked_by: Seq<Seq<char>>,
    pub assigned_to: Option<Seq<char>>,
    pub success_check: Option<SuccessCheckView>,
}

impl View for PlanItem {
    type V = PlanItemView;

    open spec fn view(&self) -> PlanItemView {
        PlanItemView {
            content: self.content@,
            status: self.status@,
            priority: self.priority@,
            id: self.id@,
            subsystem: self.subsystem.deep_view(),
            file_scope: self.file_scope.deep_view(),
            blocked_by: self.blocked_by.deep_view(),
            assigned_to: self.assigned_to.deep_view(),
            success_check: self.success_check.deep_view(),
        }
    }
}

impl DeepView for PlanItem {
    type V = PlanItemView;

    open spec fn deep_view(&self) -> PlanItemView {
        self@
    }
}

impl Clone for PlanItem {
    fn clone(&self) -> (copy: Self)
        ensures
            copy@ == self@,
    {
        PlanItem {
            content: self.content.clone(),
            status: self.status.clone(),
            priority: self.priority.clone(),
            id: self.id.clone(),
            subsystem: self.subsystem.clone(),
            file_scope: clone_strings(&self.file_scope),
            blocked_by: clone_strings(&self.blocked_by),
            assigned_to: self.assigned_to.clone(),
            success_check: self.success_check.clone(),
        }
    }
}

} // verus!
