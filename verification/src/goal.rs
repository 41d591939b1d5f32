//! Goals: what is to be achieved, and how far it has come.
use crate::checks::GoalBudget;
use crate::clock;
use crate::clock::Timestamp;
use crate::names::{GoalLoopPhase, GoalScope, GoalStatus};
use crate::slug;
use crate::slug::sanitize_goal_id;
use crate::text;
use crate::text::{clone_strings, same_text, trim};
use vstd::prelude::*;

verus! {

/// The status of a step or a milestone that none was named for.
pub fn default_pending_status() -> (status: String)
    ensures
        status@ == "pending"@,
{
    "pending".to_string()
}

/// One step of a milestone.
#[derive(Debug, Default, PartialEq, Eq)]
pub struct GoalStep {
    pub id: String,
    pub content: String,
    pub status: String,
}

/// The model of a [`GoalStep`].
pub struct GoalStepView {
    pub id: Seq<char>,
    pub content: Seq<char>,
    pub status: Seq<char>,
}

impl View for GoalStep {
    type V = GoalStepView;

    open spec fn view(&self) -> GoalStepView {
        GoalStepView {
            id: self.id@,
            content: self.content@,
            status: self.status@,
        }
    }
}

impl DeepView for GoalStep {
    type V = GoalStepView;

    open spec fn deep_view(&self) -> GoalStepView {
        self@
    }
}

impl Clone for GoalStep {
    fn clone(&self) -> (copy: Self)
        ensures
            copy@ == self@,
    {
        GoalStep {
            id: self.id.clone(),
            content: self.content.clone(),
            status: self.status.clone(),
        }
    }
}

/// A stage on the way to a goal.
#[derive(Debug, Default, PartialEq, Eq)]
pub struct GoalMilestone {
    pub id: String,
    pub title: String,
    pub status: String,
    pub steps: Vec<GoalStep>,
}

/// The model of a [`GoalMilestone`].
pub struct GoalMilestoneView {
    pub id: Seq<char>,
    pub title: Seq<char>,
    pub status: Seq<char>,
    pub steps: Seq<GoalStepView>,
}

impl View for GoalMilestone {
    type V = GoalMilestoneView;

    open spec fn view(&self) -> GoalMilestoneView {
        GoalMilestoneView {
            id: self.id@,
            title: self.title@,
            status: self.status@,
            steps: self.steps.deep_view(),
        }
    }
}

impl DeepView for GoalMilestone {
    type V = GoalMilestoneView;

    open spec fn deep_view(&self) -> GoalMilestoneView {
        self@
    }
}

impl Clone for GoalMilestone {
    fn clone(&self) -> (copy: Self)
        ensures
            copy@ == self@,
    {
        GoalMilestone {
            id: self.id.clone(),
            title: self.title.clone(),
            status: self.status.clone(),
            steps: clone_steps(&self.steps),
        }
    }
}

/// A note on a goal's progress.
#[derive(Debug, PartialEq, Eq)]
pub struct GoalUpdate {
    pub at: Timestamp,
    pub summary: String,
}

/// The model of a [`GoalUpdate`].
pub struct GoalUpdateView {
    pub at: Timestamp,
    pub summary: Seq<char>,
}

impl View for GoalUpdate {
    type V = GoalUpdateView;

    open spec fn view(&self) -> GoalUpdateView {
        GoalUpdateView {
            at: self.at,
            summary: self.summary@,
        }
    }
}

impl DeepView for GoalUpdate {
    type V = GoalUpdateView;

    open spec fn deep_view(&self) -> GoalUpdateView {
        self@
    }
}

impl Clone for GoalUpdate {
    fn clone(&self) -> (copy: Self)
        ensures
            copy@ == self@,
    {
        GoalUpdate {
            at: self.at,
            summary: self.summary.clone(),
        }
    }
}

/// What is to be achieved.
#[derive(Debug, PartialEq, Eq)]
pub struct Goal {
    pub id: String,
    pub title: String,
    pub scope: GoalScope,
    pub status: GoalStatus,
    pub description: String,
    pub why: String,
    pub success_criteria: Vec<String>,
    pub milestones: Vec<GoalMilestone>,
    pub next_steps: Vec<String>,
    pub blockers: Vec<String>,
    pub current_milestone_id: Option<String>,
    pub progress_percent: Option<u8>,
    pub created_at: Timestamp,
    pub updated_at: Timestamp,
    pub updates: Vec<GoalUpdate>,
    /// Caps on the goal's loop; `None` caps nothing but the retries per item.
    pub budget: Option<GoalBudget>,
    /// The phase the goal's loop is in; `None` outside a loop.
    pub loop_phase: Option<GoalLoopPhase>,
}

/// The model of a [`Goal`].
pub struct GoalView {
    pub id: Seq<char>,
    pub title: Seq<char>,
    pub scope: GoalScope,
    pub status: GoalStatus,
    pub description: Seq<char>,
    pub why: Seq<char>,
    pub success_criteria: Seq<Seq<char>>,
    pub milestones: Seq<GoalMilestoneView>,
    pub next_steps: Seq<Seq<char>>,
    pub blockers: Seq<Seq<char>>,
    pub current_milestone_id: Option<Seq<char>>,
    pub progress_percent: Option<u8>,
    pub created_at: Timestamp,
    pub updated_at: Timestamp,
    pub updates: Seq<GoalUpdateView>,
    pub budget: Option<GoalBudget>,
    pub loop_phase: Option<GoalLoopPhase>,
}

impl View for Goal {
    type V = GoalView;

    open spec fn view(&self) -> GoalView {
        GoalView {
            id: self.id@,
            title: self.title@,
            scope: self.scope,
            status: self.status,
            description: self.description@,
            why: self.why@,
            success_criteria: self.success_criteria.deep_view(),
            milestones: self.milestones.deep_view(),
            next_steps: self.next_steps.deep_view(),
            blockers: self.blockers.deep_view(),
            current_milestone_id: self.current_milestone_id.deep_view(),
            progress_percent: self.progress_percent,
            created_at: self.created_at,
            updated_at: self.updated_at,
            updates: self.updates.deep_view(),
            budget: self.budget,
            loop_phase: self.loop_phase,
        }
    }
}

impl DeepView for Goal {
    type V = GoalView;

    open spec fn deep_view(&self) -> GoalView {
        self@
    }
}

impl Clone for Goal {
    fn clone(&self) -> (copy: Self)
        ensures
            copy@ == self@,
    {
        Goal {
            id: self.id.clone(),
            title: self.title.clone(),
            scope: self.scope,
            status: self.status,
            description: self.description.clone(),
            why: self.why.clone(),
            success_criteria: clone_strings(&self.success_criteria),
            milestones: clone_milestones(&self.milestones),
            next_steps: clone_strings(&self.next_steps),
            blockers: clone_strings(&self.blockers),
            current_milestone_id: self.current_milestone_id.clone(),
            progress_percent: self.progress_percent,
            created_at: self.created_at,
            updated_at: self.updated_at,
            updates: clone_updates(&self.updates),
            budget: self.budget,
            loop_phase: self.loop_phase,
        }
    }
}

/// Steps with the same contents.
fn clone_steps(list: &Vec<GoalStep>) -> (copy: Vec<GoalStep>)
    ensures
        copy.deep_view() == list.deep_view(),
{
    let mut copy: Vec<GoalStep> = Vec::new();
    let mut i: usize = 0;
    while i < list.len()
        invariant
            i <= list.len(),
            copy@.len() == i,
            forall|k: int| 0 <= k < i ==> (#[trigger] copy@[k]).deep_view() == list@[k].deep_view(),
        decreases list.len() - i,
    {
        copy.push(list[i].clone());
        i += 1;
    }
    assert(copy.deep_view() =~= list.deep_view());
    copy
}

/// Milestones with the same contents.
fn clone_milestones(list: &Vec<GoalMilestone>) -> (copy: Vec<GoalMilestone>)
    ensures
        copy.deep_view() == list.deep_view(),
{
    let mut copy: Vec<GoalMilestone> = Vec::new();
    let mut i: usize = 0;
    while i < list.len()
        invariant
            i <= list.len(),
            copy@.len() == i,
            forall|k: int| 0 <= k < i ==> (#[trigger] copy@[k]).deep_view() == list@[k].deep_view(),
        decreases list.len() - i,
    {
        copy.push(list[i].clone());
        i += 1;
    }
    assert(copy.deep_view() =~= list.deep_view());
    copy
}

/// Updates with the same contents.
fn clone_updates(list: &Vec<GoalUpdate>) -> (copy: Vec<GoalUpdate>)
    ensures
        copy.deep_view() == list.deep_view(),
{
    let mut copy: Vec<GoalUpdate> = Vec::new();
    let mut i: usize = 0;
    while i < list.len()
        invariant
            i <= list.len(),
            copy@.len() == i,
            forall|k: int| 0 <= k < i ==> (#[trigger] copy@[k]).deep_view() == list@[k].deep_view(),
        decreases list.len() - i,
    {
        copy.push(list[i].clone());
        i += 1;
    }
    assert(copy.deep_view() =~= list.deep_view());
    copy
}

/// A goal as it stands when it is set: active, with nothing but a title.
pub open spec fn fresh_goal(title: Seq<char>, scope: GoalScope, now: Timestamp) -> GoalView {
    GoalView {
        id: slug::goal_id_of(text::trimmed(title)),
        title: text::trimmed(title),
        scope,
        status: GoalStatus::Active,
        description: Seq::empty(),
        why: Seq::empty(),
        success_criteria: Seq::empty(),
        milestones: Seq::empty(),
        next_steps: Seq::empty(),
        blockers: Seq::empty(),
        current_milestone_id: None,
        progress_percent: None,
        created_at: now,
        updated_at: now,
        updates: Seq::empty(),
        budget: None,
        loop_phase: None,
    }
}

/// The first milestone with the given id.
pub open spec fn milestone_with_id(milestones: Seq<GoalMilestoneView>, id: Seq<char>) -> Option<
    GoalMilestoneView,
>
    decreases milestones.len(),
{
    if milestones.len() == 0 {
        None
    } else if milestones[0].id == id {
        Some(milestones[0])
    } else {
        milestone_with_id(milestones.drop_first(), id)
    }
}

impl Goal {
    /// An active goal with the given title, set now.
    pub fn new(title: &str, scope: GoalScope) -> (goal: Self)
        ensures
            goal@ == fresh_goal(title@, scope, goal.created_at),
            goal.created_at.nanos < 1_000_000_000,
            clock::is_clock_reading(goal.created_at),
    {
        Goal::new_at(title, scope, clock::now())
    }

    /// An active goal with the given title, set at the given time.
    pub fn new_at(title: &str, scope: GoalScope, now: Timestamp) -> (goal: Self)
        ensures
            goal@ == fresh_goal(title@, scope, now),
    {
        let trimmed = trim(title);
        let goal = Goal {
            id: sanitize_goal_id(trimmed),
            title: trimmed.to_string(),
            scope,
            status: GoalStatus::Active,
            description: String::new(),
            why: String::new(),
            success_criteria: Vec::new(),
            milestones: Vec::new(),
            next_steps: Vec::new(),
            blockers: Vec::new(),
            current_milestone_id: None,
            progress_percent: None,
            created_at: now,
            updated_at: now,
            updates: Vec::new(),
            budget: None,
            loop_phase: None,
        };
        proof {
            let fresh = fresh_goal(title@, scope, now);
            assert(goal@.success_criteria =~= fresh.success_criteria);
            assert(goal@.milestones =~= fresh.milestones);
            assert(goal@.next_steps =~= fresh.next_steps);
            assert(goal@.blockers =~= fresh.blockers);
            assert(goal@.updates =~= fresh.updates);
        }
        goal
    }

    /// The milestone that is being worked on.
    pub open spec fn milestone_at_hand(goal: GoalView) -> Option<GoalMilestoneView> {
        match goal.current_milestone_id {
            None => None,
            Some(id) => milestone_with_id(goal.milestones, id),
        }
    }

    /// The milestone that is being worked on: the first whose id is the current
    /// one.
    pub fn current_milestone(&self) -> (milestone: Option<&GoalMilestone>)
        ensures
            milestone.deep_view() == Self::milestone_at_hand(self@),
    {
        match &self.current_milestone_id {
            None => None,
            Some(id) => {
                let ghost all = self.milestones.deep_view();
                let mut i: usize = 0;
                assert(all.skip(0) =~= all);
                while i < self.milestones.len()
                    invariant
                        i <= self.milestones.len(),
                        self.current_milestone_id == Some(*id),
                        all == self.milestones.deep_view(),
                        milestone_with_id(all, id@) == milestone_with_id(all.skip(i as int), id@),
                    decreases self.milestones.len() - i,
                {
                    assert(all.skip(i as int)[0] == self.milestones@[i as int]@);
                    if same_text(self.milestones[i].id.as_str(), id.as_str()) {
                        return Some(&self.milestones[i]);
                    }
                    assert(all.skip(i as int).drop_first() =~= all.skip(i + 1));
                    i += 1;
                }
                None
            },
        }
    }
}

/// An entry of a list of things to do.
#[derive(Debug, Clone)]
pub struct TodoItem {
    pub content: String,
    pub status: String,
    pub priority: String,
    pub id: String,
    pub blocked_by: Vec<String>,
    pub assigned_to: Option<String>,
}

/// When the user last looked at each session.
#[derive(Debug, Clone, Default)]
pub struct PersistedCatchupState {
    pub seen_at_ms_by_session: std::collections::HashMap<String, i64>,
}

/// What the user has missed in a session.
#[derive(Debug, Clone)]
pub struct CatchupBrief {
    pub reason: String,
    pub tags: Vec<String>,
    pub last_user_prompt: Option<String>,
    pub activity_steps: Vec<String>,
    pub files_touched: Vec<String>,
    pub tool_counts: Vec<(String, usize)>,
    pub validation_notes: Vec<String>,
    pub latest_agent_response: Option<String>,
    pub needs_from_user: String,
    pub updated_at: Timestamp,
}

/// A goal's id is always the well-formed id of its title, and the goal starts
/// out active, untouched since it was set, with no budget and outside any loop.
pub proof fn fresh_goals_have_their_titles_id(title: Seq<char>, scope: GoalScope, now: Timestamp)
    ensures
        ({
            let goal = fresh_goal(title, scope, now);
            &&& slug::is_goal_id(goal.id)
            &&& goal.id == slug::goal_id_of(goal.title)
            &&& text::trimmed(goal.title) == goal.title
            &&& goal.updated_at == goal.created_at
            &&& goal.budget is None
            &&& goal.loop_phase is None
        }),
{
    slug::goal_ids_are_well_formed(text::trimmed(title));
    text::trimming_is_stable(title);
}

} // verus!
