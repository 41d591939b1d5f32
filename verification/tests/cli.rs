use goal_loop::cli::{
    dry_run_decompose, dry_run_goal, dry_run_lists, dry_run_outcome, dry_run_replan, event_line, outcome_line,
    GoalCommand,
};
use goal_loop::controller::commands_allowed;
use goal_loop::verdicts::{command_result, plan_check};
use goal_loop::{
    CheckPlan, CheckResult, CommandOutcome, GoalBudget, GoalLoopController, GoalLoopEvent,
    GoalLoopOutcome, GoalLoopPhase, ItemOutcomeKind, LoopAction, PlannerError,
};

fn run(dry_run: bool) -> GoalCommand {
    GoalCommand::Run {
        message: "x".to_string(),
        budget_tokens: None,
        budget_usd_cents: None,
        budget_secs: None,
        retries_per_item: 3,
        dry_run,
        ndjson: false,
    }
}

/// A dry run in which every command succeeds. Returns what it prints.
fn dry_run(message: &str) -> (GoalLoopOutcome, Vec<String>) {
    let goal = dry_run_goal(message, GoalBudget::default_interactive());
    let mut ctrl = GoalLoopController::new(goal);
    let mut lines = Vec::new();
    loop {
        match ctrl.action() {
            LoopAction::Observe => ctrl.observe(false, 0),
            LoopAction::Decompose => {
                let plan = dry_run_decompose(ctrl.goal());
                ctrl.plan_received(plan);
            }
            LoopAction::Replan { failed, .. } => ctrl.plan_received(dry_run_replan(&failed)),
            LoopAction::AskApproval { checks } => {
                let all_listed = checks.iter().all(dry_run_lists);
                ctrl.approval_received(commands_allowed(all_listed, None));
            }
            LoopAction::Dispatch { item } => ctrl.outcome_received(Ok(dry_run_outcome(&item)), 0),
            LoopAction::RunCheck { check } => {
                assert!(matches!(plan_check(&check), CheckPlan::Run { .. }));
                let ran = CommandOutcome::Exited {
                    success: true,
                    stdout: Vec::new(),
                    stderr: Vec::new(),
                };
                ctrl.check_received(command_result(&ran, check.timeout_ms));
            }
            LoopAction::Finish { outcome } => {
                for event in ctrl.take_events() {
                    lines.push(event_line(&event, "0.00"));
                }
                lines.push(outcome_line(&outcome));
                return (outcome, lines);
            }
        }
    }
}

#[test]
fn dry_run_completes_for_simple_goal() {
    let (outcome, lines) = dry_run("smoke test goal");
    assert_eq!(outcome, GoalLoopOutcome::Done { items_completed: 3 });
    assert_eq!(lines[0], "→ phase: define → decompose");
    assert_eq!(lines[1], "· plan ready (attempt 1): 3 item(s)");
    assert!(lines.contains(&"· start  research".to_string()));
    assert!(lines.contains(&"· finish verify Passed [PASS: ]".to_string()));
    assert!(lines.contains(&"· budget: 750 tok / $0.00 / 0s".to_string()));
    assert_eq!(lines[lines.len() - 2], "✓ done");
    assert_eq!(lines[lines.len() - 1], "goal DONE — 3 item(s) passed");
}

#[test]
fn live_mode_errors_with_helpful_message() {
    let err = run(false).goal().unwrap_err();
    assert!(err.contains("--dry-run"));
    assert!(err.starts_with("live goal-loop mode is not yet wired — pass"));
    let goal = run(true).goal().unwrap();
    assert_eq!(goal.title, "x");
    assert_eq!(goal.budget, Some(GoalBudget::default_interactive()));
}

#[test]
fn caps_that_the_user_names_win() {
    let cmd = GoalCommand::Run {
        message: "x".to_string(),
        budget_tokens: Some(5),
        budget_usd_cents: Some(6),
        budget_secs: Some(7),
        retries_per_item: 8,
        dry_run: true,
        ndjson: true,
    };
    assert_eq!(
        cmd.budget(),
        GoalBudget {
            tokens: Some(5),
            usd_cents: Some(6),
            wall_secs: Some(7),
            retries_per_item: 8,
        }
    );
}

#[test]
fn dry_runs_are_mechanical() {
    let goal = dry_run_goal(" ship it ", GoalBudget::default());
    let plan = dry_run_decompose(&goal).unwrap();
    let told: Vec<(&str, &str)> = plan
        .iter()
        .map(|i| (i.id.as_str(), i.content.as_str()))
        .collect();
    assert_eq!(
        told,
        vec![
            ("research", "investigate: ship it"),
            ("implement", "implement: ship it"),
            ("verify", "verify: ship it"),
        ]
    );
    let outcome = dry_run_outcome(&plan[0]);
    assert_eq!(outcome.item_id, "research");
    assert_eq!(outcome.report.as_deref(), Some("[dry-run] simulated research"));
    assert_eq!(outcome.usage.tokens, 250);
    assert_eq!(outcome.usage.usd_cents, 1);
    assert_eq!(dry_run_replan(&Vec::new()), Err(PlannerError::Empty));
    let again = dry_run_replan(&plan).unwrap();
    assert_eq!(again.len(), 1);
    assert_eq!(again[0].id, "fixup");
}

#[test]
fn every_event_has_its_line() {
    let line = |e: GoalLoopEvent| event_line(&e, "1.50");
    assert_eq!(
        line(GoalLoopEvent::PhaseChanged {
            from: GoalLoopPhase::Verify,
            to: GoalLoopPhase::Repair,
        }),
        "→ phase: verify → repair"
    );
    assert_eq!(
        line(GoalLoopEvent::ItemFinished {
            item_id: "a".to_string(),
            outcome: ItemOutcomeKind::Repairing,
            check: Some(CheckResult {
                passed: false,
                detail: "no".to_string(),
                duration_ms: 1,
            }),
        }),
        "· finish a Repairing [FAIL: no]"
    );
    assert_eq!(
        line(GoalLoopEvent::ItemFinished {
            item_id: "a".to_string(),
            outcome: ItemOutcomeKind::Failed,
            check: None,
        }),
        "· finish a Failed"
    );
    assert_eq!(
        line(GoalLoopEvent::BudgetUpdate {
            tokens_used: 10,
            cents_used: 150,
            elapsed_secs: 3,
        }),
        "· budget: 10 tok / $1.50 / 3s"
    );
    assert_eq!(
        line(GoalLoopEvent::Aborted { reason: "user abort".to_string() }),
        "✗ aborted: user abort"
    );
    assert_eq!(
        outcome_line(&GoalLoopOutcome::Aborted {
            reason: "why".to_string(),
            items_completed: 2,
        }),
        "goal ABORTED — 2 item(s) passed before stop; reason: why"
    );
}
