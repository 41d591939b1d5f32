//! Runs goal loops against scripted planners, sub-agents and verifiers.
use goal_loop::agents::{DispatcherError, ItemOutcome, PlannerError};
use goal_loop::controller::{classify, commands_allowed};
use goal_loop::verdicts::{command_result, plan_check};
use goal_loop::GoalLoopPhase::{
    Aborted, Decompose, Define, Dispatch, Done, Execute, Repair, Replan, Verify,
};
use goal_loop::{
    CheckPlan, CheckResult, CommandOutcome, Goal, GoalBudget, GoalLoopController, GoalLoopEvent,
    GoalLoopOutcome, GoalLoopPhase, GoalScope, ItemOutcomeKind, ItemRunResult, LoopAction,
    NullAgentAssertion, PlanItem, StubAgentAssertion, SuccessCheck, SuccessCheckKind, UsageDelta,
};

fn plan_item(id: &str, content: &str, check: Option<SuccessCheck>) -> PlanItem {
    PlanItem {
        content: content.to_string(),
        status: "queued".to_string(),
        priority: "high".to_string(),
        id: id.to_string(),
        subsystem: None,
        file_scope: Vec::new(),
        blocked_by: Vec::new(),
        assigned_to: None,
        success_check: check,
    }
}

fn shell_check(spec: &str) -> SuccessCheck {
    SuccessCheck {
        kind: SuccessCheckKind::Shell,
        spec: spec.to_string(),
        timeout_ms: 5_000,
    }
}

fn budget(retries: u8, cents: Option<u32>) -> GoalBudget {
    GoalBudget {
        tokens: None,
        usd_cents: cents,
        wall_secs: None,
        retries_per_item: retries,
    }
}

fn goal_with(title: &str, budget: GoalBudget) -> Goal {
    let mut goal = Goal::new(title, GoalScope::Project);
    goal.budget = Some(budget);
    goal
}

fn outcome(id: &str, status: &str, check: Option<CheckResult>) -> ItemOutcome {
    ItemOutcome {
        item_id: id.to_string(),
        status: status.to_string(),
        report: None,
        usage: UsageDelta::default(),
        check,
    }
}

fn ok_outcome(id: &str, usage: UsageDelta) -> ItemOutcome {
    ItemOutcome {
        item_id: id.to_string(),
        status: "completed".to_string(),
        report: Some(format!("did {id}")),
        usage,
        check: None,
    }
}

fn checked(passed: bool, detail: &str) -> Option<CheckResult> {
    Some(CheckResult {
        passed,
        detail: detail.to_string(),
        duration_ms: 1,
    })
}

/// What the outside replies, first reply first.
struct Script {
    decompose: Vec<Vec<PlanItem>>,
    replans: Vec<Vec<PlanItem>>,
    outcomes: Vec<Result<ItemOutcome, DispatcherError>>,
    agent: Option<StubAgentAssertion>,
    user: Option<bool>,
    asked: Vec<Vec<String>>,
    calls: Vec<String>,
    replan_calls: Vec<(Vec<String>, Vec<String>)>,
    events: Vec<GoalLoopEvent>,
}

impl Script {
    fn new(
        decompose: Vec<Vec<PlanItem>>,
        outcomes: Vec<Result<ItemOutcome, DispatcherError>>,
    ) -> Script {
        Script {
            decompose,
            replans: Vec::new(),
            outcomes,
            agent: None,
            user: None,
            asked: Vec::new(),
            calls: Vec::new(),
            replan_calls: Vec::new(),
            events: Vec::new(),
        }
    }

    /// Shell checks of the form `exit n` pass for zero.
    fn check(&self, check: &SuccessCheck) -> CheckResult {
        match plan_check(check) {
            CheckPlan::Run { args, .. } => {
                let success = args.last().map(|a| a == "exit 0").unwrap_or(false);
                let ran = CommandOutcome::Exited {
                    success,
                    stdout: Vec::new(),
                    stderr: Vec::new(),
                };
                command_result(&ran, check.timeout_ms)
            }
            CheckPlan::Judge { assertion } => match &self.agent {
                Some(agent) => agent.evaluate(&assertion, "."),
                None => NullAgentAssertion.evaluate(&assertion, "."),
            },
            CheckPlan::Settled { result } => result,
            other => panic!("unexpected plan {other:?}"),
        }
    }

    fn run(&mut self, ctrl: &mut GoalLoopController) -> GoalLoopOutcome {
        for _ in 0..10_000 {
            let action = ctrl.action();
            match action {
                LoopAction::Observe => ctrl.observe_now(),
                LoopAction::Decompose => {
                    let reply = if self.decompose.is_empty() {
                        Err(PlannerError::Empty)
                    } else {
                        Ok(self.decompose.remove(0))
                    };
                    ctrl.plan_received(reply);
                }
                LoopAction::Replan { completed, failed } => {
                    self.replan_calls.push((
                        completed.iter().map(|i| i.id.clone()).collect(),
                        failed.iter().map(|i| i.id.clone()).collect(),
                    ));
                    let reply = if self.replans.is_empty() {
                        Err(PlannerError::Empty)
                    } else {
                        Ok(self.replans.remove(0))
                    };
                    ctrl.plan_received(reply);
                }
                LoopAction::AskApproval { checks } => {
                    self.asked.push(checks.iter().map(|c| c.spec.clone()).collect());
                    let all_listed = checks.iter().all(|c| c.spec.starts_with("exit"));
                    ctrl.approval_received(commands_allowed(all_listed, self.user));
                }
                LoopAction::Dispatch { item } => {
                    self.calls.push(item.id.clone());
                    let reply = if self.outcomes.is_empty() {
                        Err(DispatcherError::SpawnFailed("no scripted outcome".into()))
                    } else {
                        self.outcomes.remove(0)
                    };
                    let elapsed = ctrl.elapsed_secs();
                    ctrl.outcome_received(reply, elapsed);
                }
                LoopAction::RunCheck { check } => {
                    let result = self.check(&check);
                    ctrl.check_received(result);
                }
                LoopAction::Finish { outcome } => {
                    self.events.extend(ctrl.take_events());
                    return outcome;
                }
            }
            self.events.extend(ctrl.take_events());
        }
        panic!("the loop did not end");
    }

    fn phases(&self) -> Vec<(GoalLoopPhase, GoalLoopPhase)> {
        self.events
            .iter()
            .filter_map(|e| match e {
                GoalLoopEvent::PhaseChanged { from, to } => Some((*from, *to)),
                _ => None,
            })
            .collect()
    }
}

fn reason_of(outcome: &GoalLoopOutcome) -> &str {
    match outcome {
        GoalLoopOutcome::Aborted { reason, .. } => reason,
        other => panic!("expected Aborted, got {other:?}"),
    }
}

#[test]
fn controller_completes_when_every_item_passes() {
    let items = vec![
        plan_item("a", "do a", Some(shell_check("exit 0"))),
        plan_item("b", "do b", Some(shell_check("exit 0"))),
    ];
    let mut script = Script::new(
        vec![items],
        vec![
            Ok(ok_outcome("a", UsageDelta { tokens: 100, usd_cents: 5 })),
            Ok(ok_outcome("b", UsageDelta { tokens: 200, usd_cents: 10 })),
        ],
    );
    let mut ctrl = GoalLoopController::new(goal_with("ship it", budget(3, Some(200))));
    let outcome = script.run(&mut ctrl);
    assert!(
        matches!(outcome, GoalLoopOutcome::Done { items_completed: 2 }),
        "outcome = {outcome:?}"
    );
    assert_eq!(script.calls.len(), 2);
    let snapshot = ctrl.snapshot_at(7);
    assert_eq!(snapshot.goal_id, "ship-it");
    assert_eq!(snapshot.tokens_used, 300);
    assert_eq!(snapshot.cents_used, 15);
    assert_eq!(snapshot.elapsed_secs, 7);
    assert_eq!(snapshot.phase, GoalLoopPhase::Done);
    assert_eq!(snapshot.items.len(), 2);
    assert_eq!(snapshot.budget.usd_cents, Some(200));
}

#[test]
fn controller_repairs_when_verifier_fails_then_succeeds() {
    let item = plan_item("a", "do a", Some(shell_check("exit 0")));
    let mut first = outcome("a", "completed", checked(false, "missing burst test"));
    first.report = Some("first try".to_string());
    let mut second = outcome("a", "completed", checked(true, "all tests pass"));
    second.report = Some("second try".to_string());
    let mut script = Script::new(vec![vec![item]], vec![Ok(first), Ok(second)]);
    let mut ctrl = GoalLoopController::new(goal_with("repair me", budget(3, None)));
    let outcome = script.run(&mut ctrl);
    assert!(
        matches!(outcome, GoalLoopOutcome::Done { items_completed: 1 }),
        "outcome = {outcome:?}"
    );
    assert_eq!(script.calls.len(), 2);
    assert!(script
        .phases()
        .contains(&(GoalLoopPhase::Repair, GoalLoopPhase::Dispatch)));
}

#[test]
fn controller_aborts_when_retry_cap_hit() {
    let item = plan_item("a", "do a", None);
    let outcomes: Vec<_> = (0..5).map(|_| Ok(outcome("a", "failed", None))).collect();
    let mut script = Script::new(vec![vec![item]], outcomes);
    let mut ctrl = GoalLoopController::new(goal_with("retry me", budget(1, None)));
    let outcome = script.run(&mut ctrl);
    let reason = reason_of(&outcome);
    assert!(
        reason.contains("retry cap") || reason.contains("replan"),
        "unexpected reason: {reason}"
    );
}

#[test]
fn controller_aborts_when_dollar_cap_hit_after_one_item() {
    let item = plan_item("a", "do a", None);
    let mut script = Script::new(
        vec![vec![item]],
        vec![Ok(ok_outcome("a", UsageDelta { tokens: 0, usd_cents: 999 }))],
    );
    let mut ctrl = GoalLoopController::new(goal_with("spend a lot", budget(3, Some(50))));
    let outcome = script.run(&mut ctrl);
    let reason = reason_of(&outcome);
    assert!(reason.contains("dollar"), "reason: {reason}");
}

#[test]
fn controller_emits_phase_transitions_in_order() {
    let item = plan_item("a", "do a", Some(shell_check("exit 0")));
    let mut script = Script::new(
        vec![vec![item]],
        vec![Ok(ok_outcome("a", UsageDelta::default()))],
    );
    let mut ctrl = GoalLoopController::new(goal_with("trace phases", budget(3, None)));
    let outcome = script.run(&mut ctrl);
    assert!(matches!(outcome, GoalLoopOutcome::Done { .. }));
    let phases: Vec<GoalLoopPhase> = script.phases().into_iter().map(|(_, to)| to).collect();
    assert!(phases.contains(&GoalLoopPhase::Decompose), "phases = {phases:?}");
    assert!(phases.contains(&GoalLoopPhase::Execute), "phases = {phases:?}");
    assert!(phases.contains(&GoalLoopPhase::Done), "phases = {phases:?}");
    assert_eq!(
        phases,
        vec![
            GoalLoopPhase::Decompose,
            GoalLoopPhase::Dispatch,
            GoalLoopPhase::Execute,
            GoalLoopPhase::Verify,
            GoalLoopPhase::Done,
        ]
    );
}

#[test]
fn controller_uses_agent_assertion_runner() {
    let item = plan_item(
        "a",
        "do a",
        Some(SuccessCheck {
            kind: SuccessCheckKind::AgentAssertion,
            spec: "the burst case is covered".to_string(),
            timeout_ms: 1_000,
        }),
    );
    let mut script = Script::new(
        vec![vec![item]],
        vec![Ok(ok_outcome("a", UsageDelta::default()))],
    );
    script.agent = Some(StubAgentAssertion {
        passed: true,
        detail: "verifier ok".into(),
    });
    let mut ctrl = GoalLoopController::new(goal_with("agent verify", budget(3, None)));
    let outcome = script.run(&mut ctrl);
    assert!(matches!(outcome, GoalLoopOutcome::Done { .. }));
}

#[test]
fn controller_replans_when_no_runnable_items_remain_and_not_all_passed() {
    let initial = plan_item("a", "do a", None);
    let recovery = plan_item("b", "fixup", None);
    let mut script = Script::new(
        vec![vec![initial]],
        vec![
            Ok(outcome("a", "failed", None)),
            Ok(ok_outcome("b", UsageDelta::default())),
        ],
    );
    script.replans = vec![vec![recovery]];
    let mut ctrl = GoalLoopController::new(goal_with("replan", budget(3, None)));
    let outcome = script.run(&mut ctrl);
    assert!(
        matches!(outcome, GoalLoopOutcome::Done { items_completed: 1 }),
        "outcome = {outcome:?}"
    );
    let ids: Vec<&str> = script.calls.iter().map(|c| c.as_str()).collect();
    assert_eq!(ids, vec!["a", "b"]);
}

#[test]
fn controller_honors_abort_flag() {
    let item = plan_item("a", "do a", Some(shell_check("exit 0")));
    let mut script = Script::new(
        vec![vec![item]],
        vec![Ok(ok_outcome("a", UsageDelta::default()))],
    );
    let mut ctrl = GoalLoopController::new(goal_with("abort me", budget(3, None)));
    let flag = ctrl.abort_flag();
    assert!(!flag.is_raised());
    flag.raise();
    assert!(ctrl.abort_flag().is_raised());
    let outcome = script.run(&mut ctrl);
    let reason = reason_of(&outcome);
    assert!(reason.contains("abort"), "{reason}");
    assert!(script.calls.is_empty());
}

#[test]
fn item_outcome_kind_classifies_via_event() {
    assert_ne!(ItemOutcomeKind::Passed, ItemOutcomeKind::Repairing);
    assert_ne!(ItemRunResult::Passed, ItemRunResult::Failed);
    assert_eq!(ItemRunResult::Repairing.kind(), ItemOutcomeKind::Repairing);
}

#[test]
fn one_retry_too_many_ends_the_loop() {
    let item = plan_item("a", "do a", None);
    let outcomes: Vec<_> = (0..9)
        .map(|_| Ok(outcome("a", "completed", checked(false, "no"))))
        .collect();
    let mut script = Script::new(vec![vec![item]], outcomes);
    let mut ctrl = GoalLoopController::new(goal_with("retry me", budget(2, None)));
    let outcome = script.run(&mut ctrl);
    assert_eq!(
        outcome,
        GoalLoopOutcome::Aborted {
            reason: "retry cap exhausted for item `a` (3/2)".to_string(),
            items_completed: 0,
        }
    );
    assert_eq!(script.calls.len(), 3);
    assert_eq!(script.events.last(), Some(&GoalLoopEvent::Aborted {
        reason: "retry cap exhausted for item `a` (3/2)".to_string(),
    }));
}

#[test]
fn passed_items_survive_a_new_plan_and_are_not_run_again() {
    let plan = vec![
        plan_item("a", "do a", None),
        plan_item("b", "do b", None),
        plan_item("c", "do c", None),
    ];
    let mut script = Script::new(
        vec![plan],
        vec![
            Ok(outcome("a", "completed", None)),
            Err(DispatcherError::Crashed("gone".to_string())),
            Ok(outcome("d", "completed", None)),
        ],
    );
    script.replans = vec![vec![plan_item("d", "do d", None)]];
    let mut ctrl = GoalLoopController::new(goal_with("keep", budget(3, None)));
    let outcome = script.run(&mut ctrl);
    assert_eq!(outcome, GoalLoopOutcome::Done { items_completed: 2 });
    assert_eq!(script.calls, vec!["a", "b", "d"]);
    assert_eq!(
        script.replan_calls,
        vec![(
            vec!["a".to_string()],
            vec!["b".to_string(), "c".to_string()]
        )]
    );
    let ids: Vec<String> = ctrl.snapshot().items.iter().map(|r| r.item.id.clone()).collect();
    assert_eq!(ids, vec!["a", "d"]);
    assert!(script.events.contains(&GoalLoopEvent::PlanReady { item_count: 2, attempt: 2 }));
}

#[test]
fn the_loop_gives_up_after_three_plans() {
    let mut script = Script::new(
        vec![vec![plan_item("a", "do a", None)]],
        (0..9).map(|_| Ok(outcome("x", "failed", None))).collect(),
    );
    script.replans = vec![
        vec![plan_item("b", "do b", None)],
        vec![plan_item("c", "do c", None)],
        vec![plan_item("d", "do d", None)],
    ];
    let mut ctrl = GoalLoopController::new(goal_with("give up", budget(3, None)));
    let outcome = script.run(&mut ctrl);
    assert_eq!(reason_of(&outcome), "decompose attempts exhausted");
    assert_eq!(script.calls, vec!["a", "b", "c"]);
}

#[test]
fn planners_that_fail_end_the_loop() {
    let mut script = Script::new(Vec::new(), Vec::new());
    let mut ctrl = GoalLoopController::new(goal_with("no plan", budget(3, None)));
    let outcome = script.run(&mut ctrl);
    assert_eq!(
        reason_of(&outcome),
        "decompose failed: planner produced zero items"
    );

    let mut script = Script::new(vec![Vec::new()], Vec::new());
    let mut ctrl = GoalLoopController::new(goal_with("empty plan", budget(3, None)));
    let outcome = script.run(&mut ctrl);
    assert_eq!(reason_of(&outcome), "planner produced zero items");

    let failing = || vec![Ok(outcome_of_failure())];
    let mut script = Script::new(vec![vec![plan_item("a", "do a", None)]], failing());
    let mut ctrl = GoalLoopController::new(goal_with("no new plan", budget(3, None)));
    let outcome = script.run(&mut ctrl);
    assert_eq!(
        reason_of(&outcome),
        "replan failed: planner produced zero items"
    );

    let mut script = Script::new(vec![vec![plan_item("a", "do a", None)]], failing());
    script.replans = vec![Vec::new()];
    let mut ctrl = GoalLoopController::new(goal_with("empty new plan", budget(3, None)));
    let outcome = script.run(&mut ctrl);
    assert_eq!(reason_of(&outcome), "replan produced zero items");
}

fn outcome_of_failure() -> ItemOutcome {
    outcome("a", "failed", None)
}

#[test]
fn an_abort_comes_before_the_budget_and_the_budget_before_the_end() {
    let spend = || {
        let mut ctrl = GoalLoopController::new(goal_with("stop", budget(3, Some(5))));
        ctrl.observe(false, 0);
        ctrl.plan_received(Ok(vec![plan_item("a", "do a", None)]));
        ctrl.observe(false, 0);
        ctrl.observe(false, 0);
        ctrl.outcome_received(
            Ok(ok_outcome("a", UsageDelta { tokens: 1, usd_cents: 5 })),
            0,
        );
        ctrl
    };
    let mut ctrl = spend();
    ctrl.observe(true, 0);
    assert!(matches!(
        ctrl.action(),
        LoopAction::Finish { outcome: GoalLoopOutcome::Aborted { ref reason, items_completed: 1 } }
            if reason == "user abort"
    ));
    let mut ctrl = spend();
    ctrl.observe(false, 0);
    assert!(matches!(
        ctrl.action(),
        LoopAction::Finish { outcome: GoalLoopOutcome::Aborted { ref reason, items_completed: 1 } }
            if reason.contains("dollar")
    ));
}

#[test]
fn every_change_of_phase_follows_the_state_machine() {
    let edges = [
        (Define, Decompose),
        (Decompose, Dispatch),
        (Dispatch, Execute),
        (Execute, Verify),
        (Verify, Done),
        (Verify, Repair),
        (Verify, Replan),
        (Repair, Dispatch),
        (Replan, Decompose),
    ];
    // Every way to answer eight runs: 0 passes, 1 can be repaired, 2 fails.
    for code in 0..6_561u32 {
        let mut rest = code;
        let mut outcomes = Vec::new();
        for _ in 0..8 {
            outcomes.push(Ok(match rest % 3 {
                0 => outcome("x", "completed", None),
                1 => outcome("x", "completed", checked(false, "no")),
                _ => outcome("x", "failed", None),
            }));
            rest /= 3;
        }
        let mut script = Script::new(
            vec![vec![plan_item("a", "do a", None), plan_item("b", "do b", None)]],
            outcomes,
        );
        script.replans = vec![vec![plan_item("c", "do c", None)], vec![plan_item("d", "do d", None)]];
        let mut ctrl = GoalLoopController::new(goal_with("walk", budget(2, None)));
        let outcome = script.run(&mut ctrl);
        let mut at = Define;
        for (from, to) in script.phases() {
            assert_eq!(from, at);
            assert!(to == Aborted || edges.contains(&(from, to)), "{from:?} to {to:?}");
            at = to;
        }
        assert!(at.is_terminal());
        assert_eq!(at == Done, matches!(outcome, GoalLoopOutcome::Done { .. }));
        let passes = script
            .events
            .iter()
            .filter(|e| {
                matches!(e, GoalLoopEvent::ItemFinished { outcome: ItemOutcomeKind::Passed, .. })
            })
            .count();
        match (outcome, script.events.last()) {
            (GoalLoopOutcome::Done { items_completed }, Some(GoalLoopEvent::Done)) => {
                assert!(items_completed >= 1);
                assert_eq!(items_completed, passes);
            }
            (
                GoalLoopOutcome::Aborted { reason, items_completed },
                Some(GoalLoopEvent::Aborted { reason: told }),
            ) => {
                assert_eq!(&reason, told);
                assert_eq!(items_completed, passes);
            }
            other => panic!("unexpected end {other:?}"),
        }
        assert_eq!(ctrl.goal().loop_phase, None);
    }
}

#[test]
fn a_check_decides_a_run() {
    let pass = CheckResult { passed: true, detail: "ok".to_string(), duration_ms: 1 };
    let fail = CheckResult { passed: false, detail: "no".to_string(), duration_ms: 1 };
    let completed = outcome("a", "completed", None);
    let failed = outcome("a", "failed", None);
    assert_eq!(classify(&failed, Some(&pass)), ItemRunResult::Passed);
    assert_eq!(classify(&completed, Some(&fail)), ItemRunResult::Repairing);
    assert_eq!(classify(&failed, Some(&fail)), ItemRunResult::Failed);
    assert_eq!(classify(&completed, None), ItemRunResult::Passed);
    assert_eq!(classify(&failed, None), ItemRunResult::Failed);
}

#[test]
fn a_goal_without_a_budget_caps_nothing_but_retries() {
    let ctrl = GoalLoopController::new(Goal::new("no caps", GoalScope::Global));
    let caps = ctrl.snapshot().budget;
    assert_eq!(caps, budget(3, None));
    assert_eq!(caps, GoalBudget::uncapped());
    assert!(!ctrl.abort_flag().is_raised());
    assert_eq!(ctrl.goal().title, "no caps");
}

#[test]
fn time_runs_out() {
    let mut caps = budget(3, None);
    caps.wall_secs = Some(10);
    let mut ctrl = GoalLoopController::new(goal_with("slow", caps));
    ctrl.observe(false, 9);
    assert!(matches!(ctrl.action(), LoopAction::Decompose));
    ctrl.plan_received(Ok(vec![plan_item("a", "do a", None)]));
    ctrl.observe(false, 10);
    assert!(matches!(
        ctrl.action(),
        LoopAction::Finish { outcome: GoalLoopOutcome::Aborted { ref reason, .. } }
            if reason.contains("wall-clock")
    ));
}

#[test]
fn shell_commands_are_not_run_without_leave() {
    let plan = || {
        vec![vec![
            plan_item("a", "do a", Some(shell_check("rm -rf target"))),
            plan_item("b", "do b", None),
        ]]
    };
    for user in [None, Some(false)] {
        let mut script = Script::new(plan(), vec![Ok(ok_outcome("a", UsageDelta::default()))]);
        script.user = user;
        let mut ctrl = GoalLoopController::new(goal_with("refuse", budget(3, None)));
        let outcome = script.run(&mut ctrl);
        assert_eq!(
            outcome,
            GoalLoopOutcome::Aborted {
                reason: "shell command not allowed".to_string(),
                items_completed: 0,
            }
        );
        assert!(script.calls.is_empty());
        assert_eq!(script.asked, vec![vec!["rm -rf target"]]);
    }
}

#[test]
fn leave_is_asked_for_once_per_command() {
    let mut script = Script::new(
        vec![vec![
            plan_item("a", "do a", Some(shell_check("make test"))),
            plan_item("b", "do b", Some(shell_check("make lint"))),
        ]],
        vec![
            Ok(outcome("a", "failed", checked(false, "no"))),
            Ok(outcome("c", "completed", checked(true, "ok"))),
            Ok(outcome("d", "completed", checked(true, "ok"))),
        ],
    );
    script.user = Some(true);
    script.replans = vec![vec![
        plan_item("c", "do c", Some(shell_check("make test"))),
        plan_item("d", "do d", Some(shell_check("make docs"))),
    ]];
    let mut ctrl = GoalLoopController::new(goal_with("ask", budget(3, None)));
    let outcome = script.run(&mut ctrl);
    assert_eq!(outcome, GoalLoopOutcome::Done { items_completed: 2 });
    assert_eq!(
        script.asked,
        vec![vec!["make test", "make lint"], vec!["make docs"]]
    );
}

#[test]
fn only_shell_checks_need_leave() {
    let mut ctrl = GoalLoopController::new(goal_with("free", budget(3, None)));
    ctrl.observe(false, 0);
    let cargo = SuccessCheck {
        kind: SuccessCheckKind::CargoTest,
        spec: "burst".to_string(),
        timeout_ms: 1,
    };
    ctrl.plan_received(Ok(vec![plan_item("a", "do a", Some(cargo))]));
    assert!(matches!(ctrl.action(), LoopAction::Observe));
    assert!(commands_allowed(true, None));
    assert!(commands_allowed(false, Some(true)));
    assert!(!commands_allowed(false, Some(false)));
    assert!(!commands_allowed(false, None));
}

#[test]
fn the_goal_tells_the_phase_of_its_loop() {
    let mut ctrl = GoalLoopController::new(goal_with("tell", budget(3, None)));
    assert_eq!(ctrl.goal().loop_phase, None);
    ctrl.observe(false, 0);
    assert_eq!(ctrl.goal().loop_phase, Some(Decompose));
    ctrl.plan_received(Ok(vec![plan_item("a", "do a", None)]));
    assert_eq!(ctrl.goal().loop_phase, Some(Dispatch));
    ctrl.observe(false, 0);
    assert_eq!(ctrl.goal().loop_phase, Some(Execute));
    ctrl.observe(true, 0);
    let outcome = match ctrl.action() {
        LoopAction::Dispatch { .. } => None,
        LoopAction::Finish { outcome } => Some(outcome),
        other => panic!("unexpected action {other:?}"),
    };
    assert!(outcome.is_some());
    assert_eq!(ctrl.goal().loop_phase, None);
}
