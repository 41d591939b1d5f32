use goal_loop::checks::DEFAULT_CHECK_TIMEOUT_MS;
use goal_loop::goal::default_pending_status;
use goal_loop::slug::slugify;
use goal_loop::text::{
    decimal_text, find_in, join, normalize, rfind_in, same_text, split_lines, split_words, trim,
    white_space,
};
use goal_loop::{
    sanitize_goal_id, DispatcherError, Goal, GoalLoopPhase, GoalMilestone, GoalScope, GoalStatus,
    PlannerError, SuccessCheckKind, Timestamp, VerifierError,
};

#[test]
fn goal_loop_phase_terminal_classification() {
    assert!(GoalLoopPhase::Done.is_terminal());
    assert!(GoalLoopPhase::Aborted.is_terminal());
    assert!(!GoalLoopPhase::Execute.is_terminal());
}

#[test]
fn names_are_read_back() {
    for scope in [GoalScope::Global, GoalScope::Project] {
        assert_eq!(GoalScope::parse(scope.as_str()), Some(scope));
    }
    let statuses = [
        GoalStatus::Draft,
        GoalStatus::Active,
        GoalStatus::Paused,
        GoalStatus::Blocked,
        GoalStatus::Completed,
        GoalStatus::Archived,
        GoalStatus::Abandoned,
    ];
    for status in statuses {
        assert_eq!(GoalStatus::parse(status.as_str()), Some(status));
    }
    let kinds = [
        SuccessCheckKind::Shell,
        SuccessCheckKind::CargoTest,
        SuccessCheckKind::Pytest,
        SuccessCheckKind::JestTest,
        SuccessCheckKind::FileAbsent,
        SuccessCheckKind::Regex,
        SuccessCheckKind::AgentAssertion,
    ];
    for kind in kinds {
        assert_eq!(SuccessCheckKind::parse(kind.as_str()), Some(kind));
    }
    let phases = [
        GoalLoopPhase::Define,
        GoalLoopPhase::Decompose,
        GoalLoopPhase::Dispatch,
        GoalLoopPhase::Execute,
        GoalLoopPhase::Verify,
        GoalLoopPhase::Repair,
        GoalLoopPhase::Replan,
        GoalLoopPhase::Done,
        GoalLoopPhase::Aborted,
    ];
    for phase in phases {
        assert_eq!(GoalLoopPhase::parse(phase.as_str()), Some(phase));
    }
    assert_eq!(GoalScope::parse("  GLOBAL\n"), Some(GoalScope::Global));
    assert_eq!(SuccessCheckKind::parse("Cargo_Test"), Some(SuccessCheckKind::CargoTest));
    assert_eq!(GoalStatus::parse("done"), None);
    assert_eq!(GoalLoopPhase::parse(""), None);
    assert_eq!(GoalScope::default(), GoalScope::Project);
    assert_eq!(GoalStatus::default(), GoalStatus::Active);
}

#[test]
fn resumable_goals_sort_first() {
    assert_eq!(GoalStatus::Active.sort_rank(), 0);
    assert_eq!(GoalStatus::Abandoned.sort_rank(), 6);
    assert!(GoalStatus::Active.is_resumable());
    assert!(!GoalStatus::Completed.is_resumable());
}

#[test]
fn goal_ids_are_slugs() {
    assert_eq!(sanitize_goal_id("  Ship It, NOW!  "), "ship-it-now");
    assert_eq!(sanitize_goal_id("é!"), "goal");
    assert_eq!(sanitize_goal_id(""), "goal");
    assert_eq!(slugify("--a--b--"), "a-b");
    assert_eq!(sanitize_goal_id("ship-it-now"), "ship-it-now");
}

#[test]
fn fresh_goals_are_active_and_trimmed() {
    let now = Timestamp { secs: 1_700_000_000, nanos: 5 };
    let goal = Goal::new_at("  Add rate limiting ", GoalScope::Project, now);
    assert_eq!(goal.title, "Add rate limiting");
    assert_eq!(goal.id, "add-rate-limiting");
    assert_eq!(goal.status, GoalStatus::Active);
    assert_eq!(goal.created_at, now);
    assert_eq!(goal.updated_at, now);
    assert!(goal.budget.is_none());
    assert!(goal.loop_phase.is_none());
    let made = Goal::new("x", GoalScope::Global);
    assert!(made.created_at.secs > 1_600_000_000);
    assert!(made.created_at.nanos < 1_000_000_000);
}

#[test]
fn the_current_milestone_is_found_by_id() {
    let mut goal = Goal::new("x", GoalScope::Project);
    for id in ["m1", "m2", "m2"] {
        goal.milestones.push(GoalMilestone {
            id: id.to_string(),
            title: format!("title {}", goal.milestones.len()),
            status: default_pending_status(),
            steps: Vec::new(),
        });
    }
    assert!(goal.current_milestone().is_none());
    goal.current_milestone_id = Some("m2".to_string());
    assert_eq!(goal.current_milestone().unwrap().title, "title 1");
    goal.current_milestone_id = Some("m3".to_string());
    assert!(goal.current_milestone().is_none());
    assert_eq!(default_pending_status(), "pending");
    assert_eq!(DEFAULT_CHECK_TIMEOUT_MS, 120_000);
}

#[test]
fn white_space_is_what_unicode_says() {
    for c in '\u{0}'..=char::MAX {
        assert_eq!(white_space(c), c.is_whitespace(), "{c:?}");
    }
}

#[test]
fn text_is_handled_as_std_does() {
    let samples = [
        "",
        " ",
        "a",
        " a b\tc\n",
        "\u{3000}ünï \u{a0}",
        "a\r\nb\n\nc",
        "\n",
        "a\r",
        "a\r\n",
        "one\ntwo\n",
    ];
    for s in samples {
        assert_eq!(trim(s), s.trim());
        assert_eq!(normalize(s), s.trim().to_ascii_lowercase());
        let words: Vec<String> = s.split_whitespace().map(|w| w.to_string()).collect();
        assert_eq!(split_words(s), words);
        assert_eq!(join(&words, ", "), words.join(", "));
        let lines: Vec<String> = s.lines().map(|l| l.to_string()).collect();
        assert_eq!(split_lines(s), lines);
    }
    for n in [0, 7, 10, 99, 100, 12_345, u64::MAX] {
        assert_eq!(decimal_text(n), n.to_string());
    }
    assert!(same_text("é", "é"));
    assert!(!same_text("a", "b"));
    assert!(!same_text("a", "ab"));
    let chars: Vec<char> = "a{b}{c}".chars().collect();
    assert_eq!(find_in(&chars, 0, chars.len(), "{c"), Some(4));
    assert_eq!(find_in(&chars, 2, 5, "{c"), None);
    assert_eq!(find_in(&chars, 0, 0, ""), Some(0));
    assert_eq!(rfind_in(&chars, 0, 5, '}'), Some(3));
    assert_eq!(rfind_in(&chars, 0, 3, '}'), None);
}

#[test]
fn errors_have_words() {
    assert_eq!(
        PlannerError::InvalidJson("x".to_string()).message(),
        "planner produced invalid JSON: x"
    );
    assert_eq!(PlannerError::Empty.message(), "planner produced zero items");
    assert_eq!(PlannerError::Other("x".to_string()).message(), "planner failed: x");
    assert_eq!(
        DispatcherError::SpawnFailed("x".to_string()).message(),
        "sub-agent failed to start: x"
    );
    assert_eq!(DispatcherError::Crashed("x".to_string()).message(), "sub-agent crashed: x");
    assert_eq!(VerifierError::EmptySpec("shell").message(), "spec was empty for kind shell");
    assert_eq!(VerifierError::InvalidGlob("x".to_string()).message(), "invalid glob: x");
    assert_eq!(VerifierError::InvalidRegex("x".to_string()).message(), "invalid regex: x");
}
