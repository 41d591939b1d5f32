use goal_loop::side_panel::{cap_suffix, truncate};
use goal_loop::{
    page_id_for_goal, render_snapshot_markdown, snapshot_as_side_panel_page, CheckResult,
    GoalBudget, GoalLoopPhase, GoalLoopSnapshot, ItemRecord, ItemRunResult, PlanItem,
    SidePanelPageFormat, SidePanelPageSource,
};

fn record(id: &str, outcome: Option<ItemRunResult>, detail: Option<&str>) -> ItemRecord {
    ItemRecord {
        item: PlanItem {
            content: format!("do {id}"),
            status: "queued".to_string(),
            priority: "high".to_string(),
            id: id.to_string(),
            subsystem: None,
            file_scope: Vec::new(),
            blocked_by: Vec::new(),
            assigned_to: None,
            success_check: None,
        },
        attempts: 1,
        last_outcome: outcome,
        last_check: detail.map(|d| CheckResult {
            passed: matches!(outcome, Some(ItemRunResult::Passed)),
            detail: d.to_string(),
            duration_ms: 1,
        }),
    }
}

fn snapshot() -> GoalLoopSnapshot {
    GoalLoopSnapshot {
        goal_id: "ship-it".into(),
        phase: GoalLoopPhase::Execute,
        items: vec![
            record("a", Some(ItemRunResult::Passed), Some("tests pass")),
            record("b", Some(ItemRunResult::Repairing), Some("missing burst case")),
            record("c", None, None),
        ],
        tokens_used: 12_345,
        cents_used: 42,
        elapsed_secs: 90,
        budget: GoalBudget {
            tokens: None,
            usd_cents: Some(200),
            wall_secs: Some(1_800),
            retries_per_item: 3,
        },
    }
}

fn dollars(cents: u32) -> String {
    format!("{:.2}", cents as f32 / 100.0)
}

fn render(snapshot: &GoalLoopSnapshot) -> String {
    render_snapshot_markdown(snapshot, &dollars(snapshot.cents_used))
}

#[test]
fn render_includes_phase_and_budget() {
    let md = render(&snapshot());
    assert!(md.contains("# Goal `ship-it`"));
    assert!(md.contains("`execute`"));
    assert!(md.contains("$0.42"));
    assert!(md.contains("90s"));
    assert!(md.contains("retries per item: 3"));
}

#[test]
fn render_shows_per_item_status() {
    let md = render(&snapshot());
    assert!(md.contains("✓ passed"));
    assert!(md.contains("⟳ repairing"));
    assert!(md.contains("· pending"));
    assert!(md.contains("tests pass"));
    assert!(md.contains("missing burst case"));
}

#[test]
fn page_id_is_stable_for_goal() {
    let p1 = page_id_for_goal("foo");
    let p2 = page_id_for_goal("foo");
    assert_eq!(p1, p2);
    assert!(p1.starts_with("goal_loop:"));
    assert_eq!(p1, "goal_loop:foo");
}

#[test]
fn empty_plan_renders_placeholder() {
    let mut snap = snapshot();
    snap.items.clear();
    let md = render(&snap);
    assert!(md.contains("no items yet"));
}

#[test]
fn aborted_phase_renders_callout() {
    let mut snap = snapshot();
    snap.phase = GoalLoopPhase::Aborted;
    let md = render(&snap);
    assert!(md.contains("aborted"));
}

#[test]
fn done_phase_renders_callout() {
    let mut snap = snapshot();
    snap.phase = GoalLoopPhase::Done;
    let md = render(&snap);
    assert!(md.contains("complete"));
}

#[test]
fn page_renders_with_ephemeral_source() {
    let page = snapshot_as_side_panel_page(&snapshot(), "0.42", 1_700_000_000_000);
    assert_eq!(page.source, SidePanelPageSource::Ephemeral);
    assert_eq!(page.format, SidePanelPageFormat::Markdown);
    assert!(page.content.contains("Goal `ship-it`"));
    assert_eq!(page.id, "goal_loop:ship-it");
    assert_eq!(page.title, "Goal: ship-it");
    assert_eq!(page.file_path, "");
    assert_eq!(page.updated_at_ms, 1_700_000_000_000);
}

#[test]
fn the_whole_page() {
    let mut snap = snapshot();
    snap.items.remove(1);
    snap.phase = GoalLoopPhase::Done;
    assert_eq!(
        render(&snap),
        "# Goal `ship-it`\n\n**Phase:** `done`\n\n## Budget\n\n- tokens used: 12345\n\
         - spent: $0.42 / 200 USD\n- elapsed: 90s / 1800 s\n- retries per item: 3\n\n## Plan\n\n\
         | # | id | status | attempts | check |\n|---|----|--------|----------|-------|\n\
         | 1 | `a` | ✓ passed | 1 | tests pass |\n| 2 | `c` | · pending | 1 | — |\n\n\
         > Goal loop complete. All success criteria passed.\n"
    );
}

#[test]
fn long_details_are_cut() {
    assert_eq!(truncate("a\nb", 60), "a b");
    let long = "é".repeat(61);
    let cut = truncate(&long, 60);
    assert_eq!(cut.chars().count(), 60);
    assert!(cut.ends_with('…'));
    assert_eq!(truncate(&"x".repeat(60), 60), "x".repeat(60));
    assert_eq!(truncate("ab", 1), "…");
    assert_eq!(truncate("", 0), "");
    assert_eq!(cap_suffix("tok", Some(5)), " / 5 tok");
    assert_eq!(cap_suffix("tok", None), "");
}
