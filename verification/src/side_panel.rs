//! The side panel's page on a goal loop.
use crate::controller::{GoalLoopSnapshot, GoalLoopSnapshotView};
use crate::loop_state::{ItemRecord, ItemRecordView, ItemRunResult};
use crate::names::GoalLoopPhase;
use crate::text;
use crate::text::{chars_of, decimal_text};
use vstd::prelude::*;

verus! {

/// What the ids of goal loop pages begin with.
pub const PAGE_ID_PREFIX: &'static str = "goal_loop:";

/// How a page's content is written.
#[derive(Debug, Clone, Copy, PartialEq, Eq, Structural)]
pub enum SidePanelPageFormat {
    Markdown,
}

/// Where a page comes from.
#[derive(Debug, Clone, Copy, PartialEq, Eq, Structural)]
pub enum SidePanelPageSource {
    /// From memory: no file holds it.
    Ephemeral,
}

/// A page of the side panel.
#[derive(Debug, PartialEq, Eq)]
pub struct SidePanelPage {
    pub id: String,
    pub title: String,
    pub file_path: String,
    pub format: SidePanelPageFormat,
    pub source: SidePanelPageSource,
    pub content: String,
    pub updated_at_ms: u64,
}

/// The id of a goal's page.
pub open spec fn page_id(goal_id: Seq<char>) -> Seq<char> {
    PAGE_ID_PREFIX@ + goal_id
}

/// The id of a goal's page.
pub fn page_id_for_goal(goal_id: &str) -> (id: String)
    ensures
        id@ == page_id(goal_id@),
{
    let mut id = PAGE_ID_PREFIX.to_string();
    id.append(goal_id);
    id
}

/// `s` with its line feeds as spaces.
pub open spec fn on_one_line(s: Seq<char>) -> Seq<char> {
    s.map_values(
        |c: char|
            if c == '\n' {
                ' '
            } else {
                c
            },
    )
}

/// `s` on one line of at most `max` characters. What is cut off is told by an
/// ellipsis.
pub open spec fn truncated(s: Seq<char>, max: int) -> Seq<char> {
    let line = on_one_line(s);
    if line.len() <= max {
        line
    } else {
        line.take(max - 1).push('…')
    }
}

/// The string on one line of at most `max` characters.
pub fn truncate(s: &str, max: usize) -> (line: String)
    requires
        max > 0 || s@.len() == 0,
    ensures
        line@ == truncated(s@, max as int),
{
    let chars = chars_of(s);
    let cut = chars.len() > max;
    let kept: usize = if cut {
        max - 1
    } else {
        chars.len()
    };
    let mut line = String::new();
    let mut i: usize = 0;
    while i < kept
        invariant
            i <= kept <= chars.len(),
            chars@ == s@,
            line@ == on_one_line(s@).take(i as int),
        decreases kept - i,
    {
        line.push(
            if chars[i] == '\n' {
                ' '
            } else {
                chars[i]
            },
        );
        i += 1;
        assert(on_one_line(s@).take(i as int) =~= on_one_line(s@).take(i - 1).push(
            on_one_line(s@)[i - 1],
        ));
    }
    if cut {
        line.push('…');
    } else {
        assert(on_one_line(s@).take(i as int) =~= on_one_line(s@));
    }
    line
}

/// What is said of a cap after what was used.
pub open spec fn cap_told(unit: Seq<char>, cap: Option<u64>) -> Seq<char> {
    match cap {
        Some(cap) => " / "@ + text::decimal(cap as nat) + " "@ + unit,
        None => Seq::empty(),
    }
}

/// What is said of a cap after what was used.
pub fn cap_suffix(unit: &str, cap: Option<u64>) -> (suffix: String)
    ensures
        suffix@ == cap_told(unit@, cap),
{
    match cap {
        Some(cap) => {
            let mut suffix = " / ".to_string();
            suffix.append(decimal_text(cap).as_str());
            suffix.append(" ");
            suffix.append(unit);
            suffix
        },
        None => String::new(),
    }
}

/// A cap as a wider number.
pub open spec fn widened(cap: Option<u32>) -> Option<u64> {
    match cap {
        Some(cap) => Some(cap as u64),
        None => None,
    }
}

fn widen(cap: Option<u32>) -> (wide: Option<u64>)
    ensures
        wide == widened(cap),
{
    match cap {
        Some(cap) => Some(cap as u64),
        None => None,
    }
}

/// How an item stands.
pub open spec fn status_told(outcome: Option<ItemRunResult>) -> Seq<char> {
    match outcome {
        Some(ItemRunResult::Passed) => "✓ passed"@,
        Some(ItemRunResult::Repairing) => "⟳ repairing"@,
        Some(ItemRunResult::Failed) => "✗ failed"@,
        None => "· pending"@,
    }
}

/// The width of a row's last column.
pub const CHECK_WIDTH: usize = 60;

/// The row of the plan's table for the record at index `i`.
pub open spec fn row(i: int, record: ItemRecordView) -> Seq<char> {
    let check = match record.last_check {
        Some(check) => truncated(check.detail, CHECK_WIDTH as int),
        None => "—"@,
    };
    "| "@ + text::decimal((i + 1) as nat) + " | `"@ + record.item.id + "` | "@ + status_told(
        record.last_outcome,
    ) + " | "@ + text::decimal(record.attempts as nat) + " | "@ + check + " |\n"@
}

/// The rows of the plan's table.
pub open spec fn rows(items: Seq<ItemRecordView>) -> Seq<char>
    decreases items.len(),
{
    if items.len() == 0 {
        Seq::empty()
    } else {
        rows(items.drop_last()) + row(items.len() - 1, items.last())
    }
}

/// What the page says of the plan.
pub open spec fn plan_section(items: Seq<ItemRecordView>) -> Seq<char> {
    "## Plan\n\n"@ + if items.len() == 0 {
        "_no items yet — planner has not run_\n"@
    } else {
        "| # | id | status | attempts | check |\n"@ + "|---|----|--------|----------|-------|\n"@
            + rows(items)
    }
}

/// What the page says of the budget. `dollars` is what was spent, in dollars.
pub open spec fn budget_section(snapshot: GoalLoopSnapshotView, dollars: Seq<char>) -> Seq<char> {
    let caps = snapshot.budget;
    "## Budget\n\n- tokens used: "@ + text::decimal(snapshot.tokens_used as nat) + cap_told(
        "tok"@,
        caps.tokens,
    ) + "\n- spent: $"@ + dollars + cap_told("USD"@, widened(caps.usd_cents)) + "\n- elapsed: "@
        + text::decimal(snapshot.elapsed_secs as nat) + "s"@ + cap_told(
        "s"@,
        widened(caps.wall_secs),
    ) + "\n- retries per item: "@ + text::decimal(caps.retries_per_item as nat) + "\n\n"@
}

/// What the page says at its end.
pub open spec fn callout(phase: GoalLoopPhase) -> Seq<char> {
    match phase {
        GoalLoopPhase::Aborted =>
            "\n> Goal loop aborted. See ItemFinished events for last status.\n"@,
        GoalLoopPhase::Done => "\n> Goal loop complete. All success criteria passed.\n"@,
        _ => Seq::empty(),
    }
}

/// The page on a loop, in Markdown.
pub open spec fn markdown(snapshot: GoalLoopSnapshotView, dollars: Seq<char>) -> Seq<char> {
    "# Goal `"@ + snapshot.goal_id + "`\n\n**Phase:** `"@ + snapshot.phase.name() + "`\n\n"@
        + budget_section(snapshot, dollars) + plan_section(snapshot.items) + callout(
        snapshot.phase,
    )
}

fn add_row(out: &mut String, i: usize, record: &ItemRecord)
    requires
        i < usize::MAX,
    ensures
        final(out)@ == old(out)@ + row(i as int, record@),
{
    let ghost before = out@;
    out.append("| ");
    out.append(decimal_text((i + 1) as u64).as_str());
    out.append(" | `");
    out.append(record.item.id.as_str());
    out.append("` | ");
    out.append(
        match record.last_outcome {
            Some(ItemRunResult::Passed) => "✓ passed",
            Some(ItemRunResult::Repairing) => "⟳ repairing",
            Some(ItemRunResult::Failed) => "✗ failed",
            None => "· pending",
        },
    );
    out.append(" | ");
    out.append(decimal_text(record.attempts as u64).as_str());
    out.append(" | ");
    match &record.last_check {
        Some(check) => {
            out.append(truncate(check.detail.as_str(), CHECK_WIDTH).as_str());
        },
        None => {
            out.append("—");
        },
    }
    out.append(" |\n");
    assert(out@ =~= before + row(i as int, record@));
}

fn add_plan(out: &mut String, items: &Vec<ItemRecord>)
    ensures
        final(out)@ == old(out)@ + plan_section(items.deep_view()),
{
    let ghost before = out@;
    let ghost all = items.deep_view();
    out.append("## Plan\n\n");
    if items.is_empty() {
        out.append("_no items yet — planner has not run_\n");
        assert(out@ =~= before + plan_section(all));
        return;
    }
    out.append("| # | id | status | attempts | check |\n");
    out.append("|---|----|--------|----------|-------|\n");
    let ghost head = out@;
    let mut i: usize = 0;
    assert(head + rows(all.take(0)) =~= head);
    while i < items.len()
        invariant
            i <= items.len(),
            all == items.deep_view(),
            out@ == head + rows(all.take(i as int)),
        decreases items.len() - i,
    {
        add_row(out, i, &items[i]);
        proof {
            assert(all.take(i + 1).drop_last() =~= all.take(i as int));
            assert(out@ =~= head + rows(all.take(i + 1)));
        }
        i += 1;
    }
    assert(all.take(i as int) =~= all);
    assert(out@ =~= before + plan_section(all));
}

fn add_budget(out: &mut String, snapshot: &GoalLoopSnapshot, dollars: &str)
    ensures
        final(out)@ == old(out)@ + budget_section(snapshot@, dollars@),
{
    let ghost before = out@;
    out.append("## Budget\n\n- tokens used: ");
    out.append(decimal_text(snapshot.tokens_used).as_str());
    out.append(cap_suffix("tok", snapshot.budget.tokens).as_str());
    out.append("\n- spent: $");
    out.append(dollars);
    out.append(cap_suffix("USD", widen(snapshot.budget.usd_cents)).as_str());
    out.append("\n- elapsed: ");
    out.append(decimal_text(snapshot.elapsed_secs as u64).as_str());
    out.append("s");
    out.append(cap_suffix("s", widen(snapshot.budget.wall_secs)).as_str());
    out.append("\n- retries per item: ");
    out.append(decimal_text(snapshot.budget.retries_per_item as u64).as_str());
    out.append("\n\n");
    assert(out@ =~= before + budget_section(snapshot@, dollars@));
}

/// The page on a loop, in Markdown. `dollars` is what was spent, in dollars.
pub fn render_snapshot_markdown(snapshot: &GoalLoopSnapshot, dollars: &str) -> (page: String)
    ensures
        page@ == markdown(snapshot@, dollars@),
{
    let mut out = "# Goal `".to_string();
    out.append(snapshot.goal_id.as_str());
    out.append("`\n\n**Phase:** `");
    out.append(snapshot.phase.as_str());
    out.append("`\n\n");
    add_budget(&mut out, snapshot, dollars);
    add_plan(&mut out, &snapshot.items);
    match snapshot.phase {
        GoalLoopPhase::Aborted => {
            out.append("\n> Goal loop aborted. See ItemFinished events for last status.\n");
        },
        GoalLoopPhase::Done => {
            out.append("\n> Goal loop complete. All success criteria passed.\n");
        },
        _ => {},
    }
    assert(out@ =~= markdown(snapshot@, dollars@));
    out
}

/// A loop's page for the side panel.
pub fn snapshot_as_side_panel_page(
    snapshot: &GoalLoopSnapshot,
    dollars: &str,
    updated_at_ms: u64,
) -> (page: SidePanelPage)
    ensures
        page.id@ == page_id(snapshot@.goal_id),
        page.title@ == "Goal: "@ + snapshot@.goal_id,
        page.file_path@.len() == 0,
        page.format == SidePanelPageFormat::Markdown,
        page.source == SidePanelPageSource::Ephemeral,
        page.content@ == markdown(snapshot@, dollars@),
        page.updated_at_ms == updated_at_ms,
{
    let mut title = "Goal: ".to_string();
    title.append(snapshot.goal_id.as_str());
    SidePanelPage {
        id: page_id_for_goal(snapshot.goal_id.as_str()),
        title,
        file_path: String::new(),
        format: SidePanelPageFormat::Markdown,
        source: SidePanelPageSource::Ephemeral,
        content: render_snapshot_markdown(snapshot, dollars),
        updated_at_ms,
    }
}

/// Different goals have different pages.
pub proof fn goals_have_pages_of_their_own(a: Seq<char>, b: Seq<char>)
    ensures
        page_id(a) == page_id(b) <==> a == b,
{
    let n = PAGE_ID_PREFIX@.len() as int;
    if page_id(a) == page_id(b) {
        assert(page_id(a).skip(n) =~= a);
        assert(page_id(b).skip(n) =~= b);
    }
}

/// A truncated text keeps to its width and to one line.
pub proof fn truncated_texts_fit(s: Seq<char>, max: int)
    requires
        max > 0,
    ensures
        truncated(s, max).len() <= max,
        !truncated(s, max).contains('\n'),
        s.len() <= max ==> truncated(s, max).len() == s.len(),
{
    let t = truncated(s, max);
    assert forall|i: int| 0 <= i < t.len() implies t[i] != '\n' by {}
}

proof fn lemma_rows_hold(items: Seq<ItemRecordView>, i: int)
    requires
        0 <= i < items.len(),
    ensures
        text::stands_in(row(i, items[i]), rows(items)),
    decreases items.len(),
{
    let front = rows(items.drop_last());
    let last = row(items.len() - 1, items.last());
    let all = rows(items);
    if i == items.len() - 1 {
        assert(all.subrange(front.len() as int, all.len() as int) =~= last);
        text::lemma_subrange_stands_in(all, front.len() as int, all.len() as int);
    } else {
        lemma_rows_hold(items.drop_last(), i);
        assert(all.subrange(0, front.len() as int) =~= front);
        text::lemma_subrange_stands_in(all, 0, front.len() as int);
        text::lemma_parts_nest(row(i, items[i]), front, all);
    }
}

/// Every item of the plan has its row on the page.
pub proof fn pages_show_every_item(
    snapshot: GoalLoopSnapshotView,
    dollars: Seq<char>,
    i: int,
)
    requires
        0 <= i < snapshot.items.len(),
    ensures
        text::stands_in(row(i, snapshot.items[i]), markdown(snapshot, dollars)),
{
    let page = markdown(snapshot, dollars);
    let table = rows(snapshot.items);
    let end = page.len() - callout(snapshot.phase).len();
    let start = end - table.len();
    lemma_rows_hold(snapshot.items, i);
    assert(page.subrange(start, end) =~= table);
    text::lemma_subrange_stands_in(page, start, end);
    text::lemma_parts_nest(row(i, snapshot.items[i]), table, page);
}

} // verus!
