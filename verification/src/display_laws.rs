//! What is shown and printed, whatever it tells of.
use crate::checks::{GoalBudget, SuccessCheckView};
use crate::cli;
use crate::cli::GoalCommand;
use crate::clock::Timestamp;
use crate::controller;
use crate::controller::GoalLoopSnapshotView;
use crate::events::{GoalLoopEventView, ItemOutcomeKind};
use crate::goal;
use crate::goal::GoalView;
use crate::loop_state::{GoalLoopOutcomeView, ItemRecordView, ItemRunResult, LoopState};
use crate::names::{GoalLoopPhase, GoalScope, SuccessCheckKind};
use crate::side_panel;
use crate::text;
use vstd::prelude::*;

verus! {

/// The word in the status column of an item's row tells how the item stands. Items
/// that stand differently have different words there, and an item is shown as passed
/// exactly if its last run passed, and as failed exactly if that failed.
pub proof fn rows_show_how_items_stand(i: int, a: ItemRecordView, b: ItemRecordView)
    ensures
        a.last_outcome == Some(ItemRunResult::Passed) <==> side_panel::status_told(a.last_outcome)
            == "✓ passed"@,
        a.last_outcome == Some(ItemRunResult::Repairing) <==> side_panel::status_told(
            a.last_outcome,
        ) == "⟳ repairing"@,
        a.last_outcome == Some(ItemRunResult::Failed) <==> side_panel::status_told(a.last_outcome)
            == "✗ failed"@,
        a.last_outcome is None <==> side_panel::status_told(a.last_outcome) == "· pending"@,
        side_panel::status_told(a.last_outcome) == side_panel::status_told(b.last_outcome)
            ==> a.last_outcome == b.last_outcome,
{
    reveal_strlit("✓ passed");
    reveal_strlit("⟳ repairing");
    reveal_strlit("✗ failed");
    reveal_strlit("· pending");
    assert("✓ passed"@[0] != "⟳ repairing"@[0]);
    assert("✓ passed"@[0] != "✗ failed"@[0]);
    assert("✓ passed"@[0] != "· pending"@[0]);
    assert("⟳ repairing"@[0] != "✗ failed"@[0]);
    assert("⟳ repairing"@[0] != "· pending"@[0]);
    assert("✗ failed"@[0] != "· pending"@[0]);
}

/// A row shows, column by column, the item's place counted from one, its id, how it
/// stands, how often it was run, and what its last check told in at most sixty
/// characters, or a dash without one.
pub proof fn rows_show_their_items(i: int, record: ItemRecordView)
    requires
        i >= 0,
    ensures
        side_panel::row(i, record) == "| "@ + text::decimal((i + 1) as nat) + " | `"@
            + record.item.id + "` | "@ + (match record.last_outcome {
            Some(ItemRunResult::Passed) => "✓ passed"@,
            Some(ItemRunResult::Repairing) => "⟳ repairing"@,
            Some(ItemRunResult::Failed) => "✗ failed"@,
            None => "· pending"@,
        }) + " | "@ + text::decimal(record.attempts as nat) + " | "@ + (match record.last_check {
            Some(check) => side_panel::truncated(check.detail, 60),
            None => "—"@,
        }) + " |\n"@,
{
}

/// The rows of a table stand one below the other, in the plan's order.
pub proof fn rows_stand_in_order(items: Seq<ItemRecordView>, record: ItemRecordView)
    ensures
        side_panel::rows(items.push(record)) == side_panel::rows(items) + side_panel::row(
            items.len() as int,
            record,
        ),
        side_panel::rows(Seq::<ItemRecordView>::empty()).len() == 0,
{
    assert(items.push(record).drop_last() =~= items);
}

/// A text that fits is shown whole, with its line feeds as spaces. One that does not
/// is shown up to the last character but one of its room, and ends in an ellipsis.
pub proof fn texts_are_cut_to_their_room(s: Seq<char>, max: int, i: int)
    requires
        max > 0,
    ensures
        ({
            let t = side_panel::truncated(s, max);
            &&& s.len() <= max ==> t.len() == s.len()
            &&& s.len() > max ==> t.len() == max && t[max - 1] == '…'
            &&& 0 <= i < s.len() && (s.len() <= max || i < max - 1) ==> t[i] == (if s[i] == '\n' {
                ' '
            } else {
                s[i]
            })
        }),
{
}

/// What is said of a cap is the cap itself with its unit, and nothing without one.
pub proof fn caps_are_told_with_their_unit(unit: Seq<char>, cap: u64)
    ensures
        side_panel::cap_told(unit, Some(cap)) == " / "@ + text::decimal(cap as nat) + " "@ + unit,
        side_panel::cap_told(unit, None).len() == 0,
{
}

/// The page tells the goal and the phase, then what was used of each resource with
/// its cap, then the plan, and how the loop ended once it has.
pub proof fn pages_tell_the_loop(snapshot: GoalLoopSnapshotView, dollars: Seq<char>)
    ensures
        side_panel::markdown(snapshot, dollars) == "# Goal `"@ + snapshot.goal_id
            + "`\n\n**Phase:** `"@ + snapshot.phase.name() + "`\n\n"@ + side_panel::budget_section(
            snapshot,
            dollars,
        ) + side_panel::plan_section(snapshot.items) + (match snapshot.phase {
            GoalLoopPhase::Aborted =>
                "\n> Goal loop aborted. See ItemFinished events for last status.\n"@,
            GoalLoopPhase::Done => "\n> Goal loop complete. All success criteria passed.\n"@,
            _ => Seq::empty(),
        }),
{
}

/// What a page tells of the budget: the tokens, the dollars, the seconds and the
/// retries, each with its own cap.
pub proof fn pages_tell_the_budget(snapshot: GoalLoopSnapshotView, dollars: Seq<char>)
    ensures
        side_panel::budget_section(snapshot, dollars) == "## Budget\n\n- tokens used: "@
            + text::decimal(snapshot.tokens_used as nat) + (match snapshot.budget.tokens {
            Some(cap) => " / "@ + text::decimal(cap as nat) + " "@ + "tok"@,
            None => Seq::empty(),
        }) + "\n- spent: $"@ + dollars + (match snapshot.budget.usd_cents {
            Some(cap) => " / "@ + text::decimal(cap as nat) + " "@ + "USD"@,
            None => Seq::empty(),
        }) + "\n- elapsed: "@ + text::decimal(snapshot.elapsed_secs as nat) + "s"@ + (
        match snapshot.budget.wall_secs {
            Some(cap) => " / "@ + text::decimal(cap as nat) + " "@ + "s"@,
            None => Seq::empty(),
        }) + "\n- retries per item: "@ + text::decimal(snapshot.budget.retries_per_item as nat)
            + "\n\n"@,
{
}

/// What a page tells of the plan: a table with a row for every item, or that there is
/// no plan yet.
pub proof fn pages_tell_the_plan(items: Seq<ItemRecordView>)
    ensures
        items.len() == 0 ==> side_panel::plan_section(items) == "## Plan\n\n"@
            + "_no items yet — planner has not run_\n"@,
        items.len() > 0 ==> side_panel::plan_section(items) == "## Plan\n\n"@
            + "| # | id | status | attempts | check |\n"@
            + "|---|----|--------|----------|-------|\n"@ + side_panel::rows(items),
{
    if items.len() > 0 {
        assert(side_panel::plan_section(items) =~= "## Plan\n\n"@
            + "| # | id | status | attempts | check |\n"@
            + "|---|----|--------|----------|-------|\n"@ + side_panel::rows(items));
    }
}

/// A page's id is its goal's id behind a fixed mark.
pub proof fn page_ids_hold_the_goals_id(goal_id: Seq<char>)
    ensures
        side_panel::page_id(goal_id) == "goal_loop:"@ + goal_id,
{
}

/// A snapshot shows the loop as it is: its goal's id, its phase, all its items, what
/// was used up, the time it was given, and the caps.
pub proof fn snapshots_show_the_loop(state: LoopState, elapsed_secs: u32)
    ensures
        ({
            let shown = controller::snapshot_of(state, elapsed_secs);
            &&& shown.goal_id == state.goal.id && shown.phase == state.phase
            &&& shown.items == state.items
            &&& shown.tokens_used == state.budget.tokens_used
            &&& shown.cents_used == state.budget.cents_used
            &&& shown.elapsed_secs == elapsed_secs && shown.budget == state.budget.caps
        }),
{
}

/// The caps that the user names are set as named. Without one for dollars or time
/// these are capped at two dollars and half an hour; without one for tokens these
/// are not capped.
pub proof fn named_caps_are_set(command: GoalCommand)
    ensures
        command matches GoalCommand::Run {
            budget_tokens,
            budget_usd_cents,
            budget_secs,
            retries_per_item,
            ..
        } && {
            let caps = command.caps();
            &&& caps.tokens == budget_tokens
            &&& caps.retries_per_item == retries_per_item
            &&& budget_usd_cents is Some ==> caps.usd_cents == budget_usd_cents
            &&& budget_usd_cents is None ==> caps.usd_cents == Some(200u32)
            &&& budget_secs is Some ==> caps.wall_secs == budget_secs
            &&& budget_secs is None ==> caps.wall_secs == Some(1_800u32)
        },
{
}

/// The goal of a command is a fresh project goal with the command's caps.
pub proof fn command_goals_are_capped(title: Seq<char>, caps: GoalBudget, now: Timestamp)
    ensures
        cli::capped_goal(title, caps, now) == (GoalView {
            budget: Some(caps),
            ..goal::fresh_goal(title, GoalScope::Project, now)
        }),
{
}

/// A dry run plans three items about its goal: to look into it, to do it and to check
/// it. Each is queued, with a shell check that passes.
pub proof fn dry_runs_plan_three_items(title: Seq<char>, i: int)
    requires
        0 <= i < 3,
    ensures
        ({
            let plan = cli::dry_plan(title);
            &&& plan.len() == 3
            &&& plan[0].id == "research"@ && plan[0].content == "investigate: "@ + title
            &&& plan[1].id == "implement"@ && plan[1].content == "implement: "@ + title
            &&& plan[2].id == "verify"@ && plan[2].content == "verify: "@ + title
            &&& plan[i] == cli::dry_item(plan[i].id, plan[i].content)
        }),
{
}

/// An item of a dry run is queued at medium priority, assigned to nobody, waits for
/// nothing, and has a shell check that passes.
pub proof fn dry_run_items_are_plain(id: Seq<char>, content: Seq<char>)
    ensures
        ({
            let item = cli::dry_item(id, content);
            &&& item.id == id && item.content == content
            &&& item.status == "queued"@ && item.priority == "medium"@
            &&& item.subsystem is None && item.assigned_to is None
            &&& item.file_scope.len() == 0 && item.blocked_by.len() == 0
            &&& item.success_check == Some(
                SuccessCheckView {
                    kind: SuccessCheckKind::Shell,
                    spec: "exit 0"@,
                    timeout_ms: 5_000,
                },
            )
        }),
{
}

/// The line for an event tells all that the event tells but for what is told in
/// dollars, which is given.
pub proof fn event_lines_tell_their_event(event: GoalLoopEventView, dollars: Seq<char>)
    ensures
        cli::line_of(event, dollars) == (match event {
            GoalLoopEventView::PhaseChanged { from, to } => "→ phase: "@ + from.name() + " → "@
                + to.name(),
            GoalLoopEventView::PlanReady { item_count, attempt } => "· plan ready (attempt "@
                + text::decimal(attempt) + "): "@ + text::decimal(item_count) + " item(s)"@,
            GoalLoopEventView::ItemStarted { item_id } => "· start  "@ + item_id,
            GoalLoopEventView::ItemFinished { item_id, outcome, check } => "· finish "@ + item_id
                + " "@ + (match outcome {
                ItemOutcomeKind::Passed => "Passed"@,
                ItemOutcomeKind::Repairing => "Repairing"@,
                ItemOutcomeKind::Failed => "Failed"@,
            }) + (match check {
                None => Seq::empty(),
                Some(check) => (if check.passed {
                    " [PASS: "@
                } else {
                    " [FAIL: "@
                }) + check.detail + "]"@,
            }),
            GoalLoopEventView::BudgetUpdate { tokens_used, elapsed_secs, .. } => "· budget: "@
                + text::decimal(tokens_used as nat) + " tok / $"@ + dollars + " / "@
                + text::decimal(elapsed_secs as nat) + "s"@,
            GoalLoopEventView::Aborted { reason } => "✗ aborted: "@ + reason,
            GoalLoopEventView::Done => "✓ done"@,
        }),
{
}

/// The last line tells how the loop ended and how many items passed, and why it was
/// aborted if it was.
pub proof fn last_lines_tell_the_outcome(outcome: GoalLoopOutcomeView)
    ensures
        cli::last_line(outcome) == (match outcome {
            GoalLoopOutcomeView::Done { items_completed } => "goal DONE — "@ + text::decimal(
                items_completed,
            ) + " item(s) passed"@,
            GoalLoopOutcomeView::Aborted { reason, items_completed } => "goal ABORTED — "@
                + text::decimal(items_completed) + " item(s) passed before stop; reason: "@
                + reason,
        }),
{
}

} // verus!
