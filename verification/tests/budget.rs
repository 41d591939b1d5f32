use goal_loop::clock::{clamped_millis, clamped_secs};
use goal_loop::{
    AbortFlag, BudgetExceeded, BudgetTracker, GoalBudget, GoalLoopAbortFlag, GoalLoopEvent,
    UsageDelta,
};
use std::time::Duration;

fn budget(retries: u8, cents: Option<u32>) -> GoalBudget {
    GoalBudget {
        tokens: None,
        usd_cents: cents,
        wall_secs: None,
        retries_per_item: retries,
    }
}

#[test]
fn budget_tracker_records_usage_and_caps_dollars() {
    let mut b = BudgetTracker::new(budget(3, Some(100)));
    assert!(b.check().is_none());
    b.record(UsageDelta {
        tokens: 1_000,
        usd_cents: 60,
    });
    assert!(b.check().is_none());
    b.record(UsageDelta {
        tokens: 1_000,
        usd_cents: 50,
    });
    let why = b.check().expect("dollars should trip");
    assert!(matches!(why, BudgetExceeded::Dollars { .. }));
    assert_eq!(b.tokens_used(), 2_000);
    assert_eq!(b.cents_used(), 110);
    assert_eq!(b.caps(), budget(3, Some(100)));
}

#[test]
fn budget_tracker_retries_returns_error_past_cap() {
    let mut b = BudgetTracker::new(budget(2, None));
    assert_eq!(b.note_retry("x").unwrap(), 1);
    assert_eq!(b.note_retry("x").unwrap(), 2);
    let err = b.note_retry("x").unwrap_err();
    assert!(matches!(err, BudgetExceeded::Retries { .. }));
    assert_eq!(b.retries("x"), 3);
    assert_eq!(b.retries("y"), 0);
}

#[test]
fn budget_tracker_wall_trip_after_rewind() {
    let mut b = BudgetTracker::new(GoalBudget {
        tokens: None,
        usd_cents: None,
        wall_secs: Some(1),
        retries_per_item: 3,
    });
    b.rewind_started_at(Duration::from_secs(5));
    let why = b.check().expect("wall should trip");
    assert!(matches!(why, BudgetExceeded::Wall { .. }));
    assert!(b.elapsed_secs() >= 5);
}

#[test]
fn default_interactive_budget_caps_dollars_and_time() {
    let budget = GoalBudget::default_interactive();
    assert_eq!(budget.usd_cents, Some(200));
    assert_eq!(budget.wall_secs, Some(1_800));
    assert_eq!(budget.retries_per_item, 3);
    assert!(budget.tokens.is_none());
}

#[test]
fn the_default_budget_has_no_caps_and_no_retries() {
    let b = GoalBudget::default();
    assert_eq!(b, budget(0, None));
}

#[test]
fn caps_trip_in_order_and_at_the_cap() {
    let mut b = BudgetTracker::new(GoalBudget {
        tokens: Some(10),
        usd_cents: Some(10),
        wall_secs: Some(10),
        retries_per_item: 1,
    });
    assert!(b.check_at(9).is_none());
    let wall = b.check_at(10).unwrap();
    assert_eq!(wall, BudgetExceeded::Wall { elapsed_secs: 10, cap_secs: 10 });
    assert_eq!(wall.message(), "wall-clock budget exhausted (10s >= 10s)");
    b.record(UsageDelta { tokens: 9, usd_cents: 10 });
    let dollars = b.check_at(10).unwrap();
    assert_eq!(dollars.message(), "dollar budget exhausted (10¢ >= 10¢)");
    b.record(UsageDelta { tokens: 1, usd_cents: 0 });
    let tokens = b.check_at(10).unwrap();
    assert_eq!(tokens, BudgetExceeded::Tokens { used: 10, cap: 10 });
    assert_eq!(tokens.message(), "token budget exhausted (10 >= 10)");
    assert_eq!(b.note_retry("a"), Ok(1));
    let retries = b.note_retry("a").unwrap_err();
    assert_eq!(retries.message(), "retry cap exhausted for item `a` (2/1)");
    assert_eq!(
        GoalLoopEvent::budget_exhausted(&tokens),
        GoalLoopEvent::Aborted { reason: "token budget exhausted (10 >= 10)".to_string() }
    );
}

#[test]
fn counts_saturate() {
    let mut b = BudgetTracker::new(budget(255, None));
    b.record(UsageDelta { tokens: u64::MAX, usd_cents: u32::MAX });
    b.record(UsageDelta { tokens: 1, usd_cents: 1 });
    assert_eq!(b.tokens_used(), u64::MAX);
    assert_eq!(b.cents_used(), u32::MAX);
    for n in 1..=255u8 {
        assert_eq!(b.note_retry("x"), Ok(n));
    }
    assert!(b.note_retry("x").is_err());
}

#[test]
fn spans_are_told_in_whole_units() {
    assert_eq!(clamped_secs(Duration::from_millis(2_999)), 2);
    assert_eq!(clamped_secs(Duration::from_secs(u64::MAX)), u32::MAX);
    assert_eq!(clamped_millis(Duration::from_micros(2_999)), 2);
    assert_eq!(clamped_millis(Duration::from_secs(u64::MAX)), u32::MAX);
}

#[test]
fn clones_of_a_flag_share_it() {
    let flag = AbortFlag::new();
    let other: GoalLoopAbortFlag = flag.clone();
    assert!(!flag.is_raised());
    other.raise();
    assert!(flag.is_raised());
    assert!(!AbortFlag::default().is_raised());
}
