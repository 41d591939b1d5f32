//! What names, ids, goals, budgets and errors come to, whatever they hold.
use crate::agents::{DispatcherError, ItemOutcome, PlannerErrorView};
use crate::budget::{BudgetExceededView, BudgetView, UsageDelta};
use crate::checks::{CheckResult, GoalBudget, SuccessCheck};
use crate::clock;
use crate::clock::Timestamp;
use crate::goal;
use crate::goal::{Goal, GoalMilestoneView, GoalView};
use crate::loop_state::ItemRecord;
use crate::names::{GoalLoopPhase, GoalScope, GoalStatus, SuccessCheckKind};
use crate::plan::PlanItem;
use crate::slug;
use crate::text;
use crate::verdicts::VerifierError;
use vstd::prelude::*;

verus! {

/// The name of each scope and of each status, which is what is stored and shown.
pub proof fn goal_names(scope: GoalScope, status: GoalStatus)
    ensures
        scope.name() == (match scope {
            GoalScope::Global => "global"@,
            GoalScope::Project => "project"@,
        }),
        status.name() == (match status {
            GoalStatus::Draft => "draft"@,
            GoalStatus::Active => "active"@,
            GoalStatus::Paused => "paused"@,
            GoalStatus::Blocked => "blocked"@,
            GoalStatus::Completed => "completed"@,
            GoalStatus::Archived => "archived"@,
            GoalStatus::Abandoned => "abandoned"@,
        }),
{
}

/// The name of each kind of check and of each phase, which is what planners write,
/// what is stored and what is shown.
pub proof fn loop_names(kind: SuccessCheckKind, phase: GoalLoopPhase)
    ensures
        kind.name() == (match kind {
            SuccessCheckKind::Shell => "shell"@,
            SuccessCheckKind::CargoTest => "cargo_test"@,
            SuccessCheckKind::Pytest => "pytest"@,
            SuccessCheckKind::JestTest => "jest_test"@,
            SuccessCheckKind::FileAbsent => "file_absent"@,
            SuccessCheckKind::Regex => "regex"@,
            SuccessCheckKind::AgentAssertion => "agent_assertion"@,
        }),
        phase.name() == (match phase {
            GoalLoopPhase::Define => "define"@,
            GoalLoopPhase::Decompose => "decompose"@,
            GoalLoopPhase::Dispatch => "dispatch"@,
            GoalLoopPhase::Execute => "execute"@,
            GoalLoopPhase::Verify => "verify"@,
            GoalLoopPhase::Repair => "repair"@,
            GoalLoopPhase::Replan => "replan"@,
            GoalLoopPhase::Done => "done"@,
            GoalLoopPhase::Aborted => "aborted"@,
        }),
        phase.terminal() <==> phase is Done || phase is Aborted,
{
}

/// Goals are listed by status: active, blocked, draft, paused, completed, archived,
/// abandoned.
pub proof fn statuses_are_listed_in_order()
    ensures
        GoalStatus::Active.rank() == 0,
        GoalStatus::Active.rank() < GoalStatus::Blocked.rank() < GoalStatus::Draft.rank()
            < GoalStatus::Paused.rank() < GoalStatus::Completed.rank() < GoalStatus::Archived.rank()
            < GoalStatus::Abandoned.rank(),
        GoalStatus::Abandoned.rank() == 6,
{
}

/// An ASCII letter or digit.
pub open spec fn is_word_char(c: char) -> bool {
    'a' <= c <= 'z' || 'A' <= c <= 'Z' || '0' <= c <= '9'
}

proof fn lemma_word_chars_stay(c: char)
    ensures
        slug::is_slug_char(text::lower_char(c)) <==> is_word_char(c),
{
}

proof fn lemma_last_word_char(s: Seq<char>)
    requires
        s.len() > 0,
        is_word_char(s.last()),
    ensures
        slug::slug_of(s).len() > 0,
{
    lemma_word_chars_stay(s.last());
}

/// The slug of a run of letters and digits is that run in lower case, and any other
/// character between two such texts comes out as a single dash between their slugs.
/// A side without letters and digits leaves no trace.
pub proof fn slugs_put_dashes_between_words(a: Seq<char>, c: char, b: Seq<char>)
    ensures
        (forall|i: int| 0 <= i < a.len() ==> is_word_char(#[trigger] a[i])) ==> slug::slug_of(a)
            == text::lowered(a),
        !is_word_char(c) ==> slug::slug_of(a.push(c) + b) == (if slug::slug_of(a).len() == 0 {
            slug::slug_of(b)
        } else if slug::slug_of(b).len() == 0 {
            slug::slug_of(a)
        } else {
            slug::slug_of(a).push('-') + slug::slug_of(b)
        }),
        slug::slug_of(Seq::<char>::empty()).len() == 0,
{
    if forall|i: int| 0 <= i < a.len() ==> is_word_char(#[trigger] a[i]) {
        lemma_slug_of_run(a);
    }
    if !is_word_char(c) {
        lemma_slug_splits(a, c, b);
    }
}

proof fn lemma_slug_of_run(a: Seq<char>)
    requires
        forall|i: int| 0 <= i < a.len() ==> is_word_char(#[trigger] a[i]),
    ensures
        slug::slug_of(a) == text::lowered(a),
    decreases a.len(),
{
    if a.len() > 0 {
        let t = a.drop_last();
        assert forall|i: int| 0 <= i < t.len() implies is_word_char(#[trigger] t[i]) by {
            assert(t[i] == a[i]);
        }
        lemma_slug_of_run(t);
        lemma_word_chars_stay(a[a.len() - 1]);
        if a.len() > 1 {
            lemma_word_chars_stay(a[a.len() - 2]);
        }
        assert(text::lowered(a) =~= text::lowered(t).push(text::lower_char(a.last())));
    } else {
        assert(slug::slug_of(a) =~= text::lowered(a));
    }
}

proof fn lemma_slug_splits(a: Seq<char>, c: char, b: Seq<char>)
    requires
        !is_word_char(c),
    ensures
        slug::slug_of(a.push(c) + b) == (if slug::slug_of(a).len() == 0 {
            slug::slug_of(b)
        } else if slug::slug_of(b).len() == 0 {
            slug::slug_of(a)
        } else {
            slug::slug_of(a).push('-') + slug::slug_of(b)
        }),
    decreases b.len(),
{
    let s = a.push(c) + b;
    let x = slug::slug_of(a);
    let y = slug::slug_of(b);
    lemma_word_chars_stay(c);
    if b.len() == 0 {
        assert(s.drop_last() =~= a);
        assert(s.last() == c);
    } else {
        let front = b.drop_last();
        let d = b.last();
        lemma_slug_splits(a, c, front);
        lemma_word_chars_stay(d);
        assert(s.drop_last() =~= a.push(c) + front);
        assert(s.last() == d);
        if is_word_char(d) {
            if front.len() == 0 {
                assert(s[s.len() - 2] == c);
                assert(slug::slug_of(front).len() == 0);
            } else {
                let p = front.last();
                lemma_word_chars_stay(p);
                assert(s[s.len() - 2] == p);
                assert(b[b.len() - 2] == p);
                if is_word_char(p) {
                    lemma_last_word_char(front);
                }
            }
        }
        assert(x.len() > 0 && y.len() > 0 ==> slug::slug_of(s) =~= x.push('-') + y);
        assert(x.len() == 0 ==> slug::slug_of(s) =~= y);
    }
}

/// A goal's id is the slug of its title, or `goal` where the title has neither
/// letters nor digits.
pub proof fn goal_ids_are_slugs(s: Seq<char>)
    ensures
        slug::slug_of(s).len() > 0 ==> slug::goal_id_of(s) == slug::slug_of(s),
        slug::slug_of(s).len() == 0 ==> slug::goal_id_of(s) == "goal"@,
{
}

/// A goal that is set has the trimmed title it was given, that title's id and the
/// given scope; it is active, was made and touched at the given time, and holds
/// nothing else.
pub proof fn goals_start_bare(title: Seq<char>, scope: GoalScope, now: Timestamp)
    ensures
        ({
            let g = goal::fresh_goal(title, scope, now);
            &&& g.title == text::trimmed(title) && g.id == slug::goal_id_of(g.title)
            &&& g.scope == scope && g.status is Active
            &&& g.created_at == now && g.updated_at == now
            &&& g.description.len() == 0 && g.why.len() == 0
            &&& g.success_criteria.len() == 0 && g.milestones.len() == 0
            &&& g.next_steps.len() == 0 && g.blockers.len() == 0 && g.updates.len() == 0
            &&& g.current_milestone_id is None && g.progress_percent is None
            &&& g.budget is None && g.loop_phase is None
        }),
{
}

/// The milestone at hand is the first one with the id that the goal names. There is
/// none if the goal names no id, or one that no milestone has.
pub proof fn the_first_milestone_named_is_at_hand(g: GoalView)
    ensures
        match (g.current_milestone_id, Goal::milestone_at_hand(g)) {
            (None, found) => found is None,
            (Some(id), None) => forall|i: int|
                0 <= i < g.milestones.len() ==> (#[trigger] g.milestones[i]).id != id,
            (Some(id), Some(found)) => found.id == id && exists|i: int|
                0 <= i < g.milestones.len() && #[trigger] g.milestones[i] == found && forall|k: int|
                    0 <= k < i ==> (#[trigger] g.milestones[k]).id != id,
        },
{
    if let Some(id) = g.current_milestone_id {
        lemma_milestone(g.milestones, id);
    }
}

proof fn lemma_milestone(list: Seq<GoalMilestoneView>, id: Seq<char>)
    ensures
        match goal::milestone_with_id(list, id) {
            None => forall|i: int| 0 <= i < list.len() ==> (#[trigger] list[i]).id != id,
            Some(found) => found.id == id && exists|i: int|
                0 <= i < list.len() && #[trigger] list[i] == found && forall|k: int|
                    0 <= k < i ==> (#[trigger] list[k]).id != id,
        },
    decreases list.len(),
{
    if list.len() > 0 {
        let rest = list.drop_first();
        lemma_milestone(rest, id);
        if list[0].id == id {
            assert(list[0] == goal::milestone_with_id(list, id)->0);
        } else {
            match goal::milestone_with_id(rest, id) {
                None => {
                    assert forall|i: int| 0 <= i < list.len() implies (#[trigger] list[i]).id
                        != id by {
                        if i > 0 {
                            assert(rest[i - 1] == list[i]);
                        }
                    }
                },
                Some(found) => {
                    let i = choose|i: int|
                        0 <= i < rest.len() && #[trigger] rest[i] == found && forall|k: int|
                            0 <= k < i ==> (#[trigger] rest[k]).id != id;
                    assert(list[i + 1] == found);
                    assert forall|k: int| 0 <= k < i + 1 implies (#[trigger] list[k]).id != id by {
                        if k > 0 {
                            assert(rest[k - 1] == list[k]);
                        }
                    }
                },
            }
        }
    }
}

/// A cap is reached once as much is used up as it says, and not before; without a
/// cap nothing is reached. Tokens come before dollars and dollars before time, and
/// the reason tells what was used and the cap.
pub proof fn caps_trip_when_used_up(b: BudgetView, elapsed_secs: u32)
    ensures
        b.exceeded_at(elapsed_secs) == (if b.caps.tokens matches Some(cap) && b.tokens_used >= cap {
            Some(BudgetExceededView::Tokens { used: b.tokens_used, cap: b.caps.tokens->0 })
        } else if b.caps.usd_cents matches Some(cap) && b.cents_used >= cap {
            Some(
                BudgetExceededView::Dollars {
                    used_cents: b.cents_used,
                    cap_cents: b.caps.usd_cents->0,
                },
            )
        } else if b.caps.wall_secs matches Some(cap) && elapsed_secs >= cap {
            Some(BudgetExceededView::Wall { elapsed_secs, cap_secs: b.caps.wall_secs->0 })
        } else {
            None::<BudgetExceededView>
        }),
{
}

/// What a turn used is added to what was used, up to what the counters hold. Caps
/// and retries stay.
pub proof fn usage_adds_up(b: BudgetView, delta: UsageDelta)
    ensures
        ({
            let next = b.recorded(delta);
            let tokens = b.tokens_used + delta.tokens;
            let cents = b.cents_used + delta.usd_cents;
            &&& tokens <= u64::MAX ==> next.tokens_used == tokens
            &&& tokens > u64::MAX ==> next.tokens_used == u64::MAX
            &&& cents <= u32::MAX ==> next.cents_used == cents
            &&& cents > u32::MAX ==> next.cents_used == u32::MAX
            &&& next.caps == b.caps && next.retries == b.retries
        }),
{
}

/// A retry counts one more for its item, up to what the counter holds, and leaves
/// all else alone. It is allowed exactly if fewer were counted than the cap says,
/// and the reason against it tells the item, the count and the cap.
pub proof fn retries_are_counted(b: BudgetView, item_id: Seq<char>, other: Seq<char>)
    ensures
        ({
            let next = b.retried(item_id);
            let count = b.retry_count(item_id);
            &&& next.retry_count(item_id) == (if count < 255 {
                count + 1
            } else {
                255
            })
            &&& other != item_id ==> next.retry_count(other) == b.retry_count(other)
            &&& next.caps == b.caps && next.tokens_used == b.tokens_used && next.cents_used
                == b.cents_used
            &&& b.next_retry(item_id) == next.retry_count(item_id)
            &&& b.may_retry(item_id) <==> count < b.caps.retries_per_item
            &&& b.retries_exceeded(item_id) == (BudgetExceededView::Retries {
                item_id,
                tries: next.retry_count(item_id),
                cap: b.caps.retries_per_item,
            })
        }),
{
}

/// A budget starts with nothing used and nothing retried.
pub proof fn budgets_start_unused(caps: GoalBudget, item_id: Seq<char>)
    ensures
        ({
            let b = BudgetView::fresh(caps);
            &&& b.caps == caps && b.tokens_used == 0 && b.cents_used == 0
            &&& b.retry_count(item_id) == 0
        }),
        GoalBudget::interactive().tokens is None,
        GoalBudget::interactive().usd_cents == Some(200u32),
        GoalBudget::interactive().wall_secs == Some(1_800u32),
        GoalBudget::interactive().retries_per_item == 3,
        GoalBudget::retries_only().tokens is None,
        GoalBudget::retries_only().usd_cents is None,
        GoalBudget::retries_only().wall_secs is None,
        GoalBudget::retries_only().retries_per_item == 3,
{
}

/// The reason for which a budget stopped a loop, in words: what was used stands
/// before the cap.
pub proof fn budget_reasons_tell_use_and_cap(reason: BudgetExceededView)
    ensures
        reason.message() == (match reason {
            BudgetExceededView::Tokens { used, cap } => "token budget exhausted ("@ + text::decimal(
                used as nat,
            ) + " >= "@ + text::decimal(cap as nat) + ")"@,
            BudgetExceededView::Dollars { used_cents, cap_cents } => "dollar budget exhausted ("@
                + text::decimal(used_cents as nat) + "¢ >= "@ + text::decimal(cap_cents as nat)
                + "¢)"@,
            BudgetExceededView::Wall { elapsed_secs, cap_secs } => "wall-clock budget exhausted ("@
                + text::decimal(elapsed_secs as nat) + "s >= "@ + text::decimal(cap_secs as nat)
                + "s)"@,
            BudgetExceededView::Retries { item_id, tries, cap } => "retry cap exhausted for item `"@
                + item_id + "` ("@ + text::decimal(tries as nat) + "/"@ + text::decimal(cap as nat)
                + ")"@,
        }),
{
}

/// Errors of planners, sub-agents and verifiers end with their whole detail, after
/// words that tell them apart.
pub proof fn errors_tell_their_detail(
    planner: PlannerErrorView,
    dispatcher: DispatcherError,
    verifier: VerifierError,
)
    ensures
        planner.message() == (match planner {
            PlannerErrorView::InvalidJson(detail) => "planner produced invalid JSON: "@ + detail,
            PlannerErrorView::Empty => "planner produced zero items"@,
            PlannerErrorView::Other(detail) => "planner failed: "@ + detail,
        }),
        dispatcher.words() == (match dispatcher {
            DispatcherError::SpawnFailed(detail) => "sub-agent failed to start: "@ + detail@,
            DispatcherError::Crashed(detail) => "sub-agent crashed: "@ + detail@,
        }),
        verifier.words() == (match verifier {
            VerifierError::EmptySpec(kind) => "spec was empty for kind "@ + kind@,
            VerifierError::InvalidGlob(detail) => "invalid glob: "@ + detail@,
            VerifierError::InvalidRegex(detail) => "invalid regex: "@ + detail@,
        }),
{
}

/// A span is told in whole seconds and whole milliseconds: so many fit into it, and
/// one more does not, up to what a `u32` holds.
pub proof fn spans_are_told_whole(span: std::time::Duration)
    ensures
        ({
            let nanos = clock::span_nanos(span);
            let secs = clock::secs_in(span);
            let millis = clock::millis_in(span);
            &&& secs * 1_000_000_000 <= nanos
            &&& secs < u32::MAX ==> nanos < (secs + 1) * 1_000_000_000
            &&& millis * 1_000_000 <= nanos
            &&& millis < u32::MAX ==> nanos < (millis + 1) * 1_000_000
        }),
{
}

/// Plan items with one model agree in everything: so a copy of an item, which has its
/// model, holds all that the item does.
pub proof fn plan_items_are_modelled_whole(a: PlanItem, b: PlanItem)
    requires
        a@ == b@,
    ensures
        a.content@ == b.content@,
        a.status@ == b.status@,
        a.priority@ == b.priority@,
        a.id@ == b.id@,
        a.subsystem.deep_view() == b.subsystem.deep_view(),
        a.file_scope.deep_view() == b.file_scope.deep_view(),
        a.blocked_by.deep_view() == b.blocked_by.deep_view(),
        a.assigned_to.deep_view() == b.assigned_to.deep_view(),
        a.success_check.deep_view() == b.success_check.deep_view(),
{
}

/// Success checks with one model agree in everything.
pub proof fn success_checks_are_modelled_whole(a: SuccessCheck, b: SuccessCheck)
    requires
        a@ == b@,
    ensures
        a.kind == b.kind,
        a.spec@ == b.spec@,
        a.timeout_ms == b.timeout_ms,
{
}

/// Results of checks with one model agree in everything.
pub proof fn check_results_are_modelled_whole(a: CheckResult, b: CheckResult)
    requires
        a@ == b@,
    ensures
        a.passed == b.passed,
        a.detail@ == b.detail@,
        a.duration_ms == b.duration_ms,
{
}

/// Records of items with one model agree in everything.
pub proof fn item_records_are_modelled_whole(a: ItemRecord, b: ItemRecord)
    requires
        a@ == b@,
    ensures
        a.item@ == b.item@,
        a.attempts == b.attempts,
        a.last_check.deep_view() == b.last_check.deep_view(),
        a.last_outcome == b.last_outcome,
{
}

/// Outcomes of items with one model agree in everything.
pub proof fn item_outcomes_are_modelled_whole(a: ItemOutcome, b: ItemOutcome)
    requires
        a@ == b@,
    ensures
        a.item_id@ == b.item_id@,
        a.status@ == b.status@,
        a.report.deep_view() == b.report.deep_view(),
        a.usage == b.usage,
        a.check.deep_view() == b.check.deep_view(),
{
}

/// Goals with one model agree in everything.
pub proof fn goals_are_modelled_whole(a: Goal, b: Goal)
    requires
        a@ == b@,
    ensures
        a.id@ == b.id@,
        a.title@ == b.title@,
        a.scope == b.scope,
        a.status == b.status,
        a.description@ == b.description@,
        a.why@ == b.why@,
        a.success_criteria.deep_view() == b.success_criteria.deep_view(),
        a.milestones.deep_view() == b.milestones.deep_view(),
        a.next_steps.deep_view() == b.next_steps.deep_view(),
        a.blockers.deep_view() == b.blockers.deep_view(),
        a.current_milestone_id.deep_view() == b.current_milestone_id.deep_view(),
        a.progress_percent == b.progress_percent,
        a.created_at == b.created_at,
        a.updated_at == b.updated_at,
        a.updates.deep_view() == b.updates.deep_view(),
        a.budget == b.budget,
        a.loop_phase == b.loop_phase,
{
}

} // verus!
