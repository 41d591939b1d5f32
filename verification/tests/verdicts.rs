use goal_loop::search::{invalid_regex_result, LineHits, MAX_HITS};
use goal_loop::verdicts::{
    command_result, file_absent_result, finalize, finalize_after, glob_to_list, plan_check,
    trim_tail,
};
use goal_loop::{
    CheckPlan, CheckResult, CommandOutcome, NullAgentAssertion, RegexScan, StubAgentAssertion,
    SuccessCheck, SuccessCheckKind,
};
use std::time::{Duration, Instant};

fn check(kind: SuccessCheckKind, spec: &str, timeout_ms: u32) -> SuccessCheck {
    SuccessCheck {
        kind,
        spec: spec.to_string(),
        timeout_ms,
    }
}

fn command(kind: SuccessCheckKind, spec: &str) -> (String, Vec<String>, u32) {
    match plan_check(&check(kind, spec, 5_000)) {
        CheckPlan::Run { program, args, wait_ms } => (program, args, wait_ms),
        other => panic!("unexpected plan {other:?}"),
    }
}

fn exited(success: bool, stdout: &str, stderr: &str) -> CheckResult {
    let ran = CommandOutcome::Exited {
        success,
        stdout: stdout.as_bytes().to_vec(),
        stderr: stderr.as_bytes().to_vec(),
    };
    command_result(&ran, 5_000)
}

fn scan(pattern: &str) -> RegexScan {
    match RegexScan::new(pattern) {
        Ok(scan) => scan,
        Err(result) => panic!("{}", result.detail),
    }
}

#[test]
fn shell_pass_on_zero_exit() {
    let (program, args, wait_ms) = command(SuccessCheckKind::Shell, "exit 0");
    assert_eq!(program, "sh");
    assert_eq!(args, vec!["-lc", "exit 0"]);
    assert_eq!(wait_ms, 5_000);
    let r = exited(true, "", "");
    assert!(r.passed, "detail = {}", r.detail);
}

#[test]
fn shell_fail_on_nonzero_exit() {
    let (_, args, _) = command(SuccessCheckKind::Shell, "exit 7");
    assert_eq!(args, vec!["-lc", "exit 7"]);
    let r = exited(false, "", "");
    assert!(!r.passed);
}

#[test]
fn shell_captures_output_tail() {
    let r = exited(true, "hello-from-shell-check\n", "");
    assert!(r.passed);
    assert!(r.detail.contains("hello-from-shell-check"));
    assert_eq!(r.detail, "hello-from-shell-check");
}

#[test]
fn shell_times_out() {
    let check = check(SuccessCheckKind::Shell, "sleep 5", 150);
    assert!(matches!(plan_check(&check), CheckPlan::Run { wait_ms: 150, .. }));
    let r = command_result(&CommandOutcome::TimedOut, check.timeout_ms);
    assert!(!r.passed);
    assert!(r.detail.contains("timeout"));
    assert_eq!(r.detail, "timeout after 150ms");
    assert_eq!(finalize(r, Instant::now()).duration_ms, 150);
}

#[test]
fn file_absent_passes_on_zero_matches() {
    let check = check(SuccessCheckKind::FileAbsent, "*.never-matches-this", 1_000);
    let CheckPlan::ListFiles { glob } = plan_check(&check) else {
        panic!("unexpected plan");
    };
    let r = file_absent_result(&glob, &Ok(Vec::new()));
    assert!(r.passed, "{}", r.detail);
    assert_eq!(r.detail, "no files match `*.never-matches-this`");
}

#[test]
fn file_absent_fails_when_match_exists() {
    let r = file_absent_result("*.tmp", &Ok(vec!["/tmp/forbidden.tmp".to_string()]));
    assert!(!r.passed);
    assert!(r.detail.contains("forbidden.tmp"));
    assert_eq!(r.detail, "1 file(s) still match `*.tmp`: /tmp/forbidden.tmp");
    let many: Vec<String> = (0..12).map(|n| n.to_string()).collect();
    let r = file_absent_result("*", &Ok(many));
    assert_eq!(r.detail, "12 file(s) still match `*`: 0, 1, 2, 3, 4, 5, 6, 7, 8, 9");
    let r = file_absent_result("***", &Err("bad".to_string()));
    assert!(!r.passed);
    assert_eq!(r.detail, "invalid glob `***`: bad");
}

#[test]
fn regex_passes_when_unmatched() {
    let mut scan = scan("FORBIDDEN_PATTERN");
    scan.scan_file("a.txt", "ok content\n");
    assert!(scan.can_show());
    let r = scan.result();
    assert!(r.passed, "{}", r.detail);
    assert_eq!(r.detail, "regex `FORBIDDEN_PATTERN` not found in repo");
}

#[test]
fn regex_fails_when_matched_and_reports_location() {
    let mut scan = scan("FORBIDDEN_PATTERN");
    scan.scan_file("b.txt", "before\nFORBIDDEN_PATTERN here\nafter\n");
    assert!(scan.can_show());
    let r = scan.result();
    assert!(!r.passed);
    assert!(r.detail.contains("b.txt"), "detail = {}", r.detail);
    assert_eq!(
        r.detail,
        "regex `FORBIDDEN_PATTERN` matched 1 line(s) (showing up to 5):\n\
         b.txt:2: FORBIDDEN_PATTERN here"
    );
}

#[test]
fn patterns_are_regexes() {
    let mut scan = scan(r"^fn \w+\(\)$");
    scan.scan_file("a.rs", "fn main()\nfn x(y)\n  fn z()\nfn end()");
    let r = scan.result();
    assert_eq!(
        r.detail,
        "regex `^fn \\w+\\(\\)$` matched 2 line(s) (showing up to 5):\n\
         a.rs:1: fn main()\na.rs:4: fn end()"
    );
}

#[test]
fn patterns_that_are_no_regexes_are_refused() {
    let Err(r) = RegexScan::new("(") else {
        panic!("expected a refusal");
    };
    assert!(!r.passed);
    assert!(r.detail.starts_with("invalid regex `(`: regex parse error"), "{}", r.detail);
    assert_eq!(invalid_regex_result("(", "why").detail, "invalid regex `(`: why");
}

#[test]
fn searches_stop_at_twenty_hits_and_show_five() {
    let mut scan = scan("x");
    scan.scan_file("a", &"x\n".repeat(15));
    assert!(!scan.is_full());
    scan.scan_file("b", &"y\nx\n".repeat(15));
    assert!(scan.is_full());
    scan.scan_file("c", "x\n");
    let r = scan.result();
    assert!(r.detail.starts_with("regex `x` matched 20 line(s)"), "{}", r.detail);
    assert_eq!(MAX_HITS, 20);
    assert_eq!(r.detail.lines().count(), 6);
    assert!(r.detail.ends_with("a:5: x"));
}

#[test]
fn long_lines_are_cut_at_eighty_bytes() {
    let mut ascii = scan("x");
    ascii.scan_file("a", &"x".repeat(81));
    assert!(ascii.can_show());
    assert!(ascii.result().detail.ends_with(&format!("a:1: {}...", "x".repeat(80))));

    let mut short = scan("x");
    short.scan_file("a", &"x".repeat(80));
    assert!(short.result().detail.ends_with(&format!("a:1: {}", "x".repeat(80))));

    let mut fits = scan("é");
    fits.scan_file("a", &"é".repeat(41));
    assert!(fits.can_show());
    assert!(fits.result().detail.ends_with(&format!("{}...", "é".repeat(40))));

    let mut split = scan("é");
    split.scan_file("a", &format!("x{}", "é".repeat(41)));
    assert!(!split.can_show());
}

#[test]
fn agent_assertion_routes_to_runner() {
    let check = check(SuccessCheckKind::AgentAssertion, "tests cover the burst case", 1_000);
    let runner = StubAgentAssertion {
        passed: true,
        detail: "verifier said yes".to_string(),
    };
    let CheckPlan::Judge { assertion } = plan_check(&check) else {
        panic!("unexpected plan");
    };
    assert_eq!(assertion, "tests cover the burst case");
    let r = finalize(runner.evaluate(&assertion, "."), Instant::now());
    assert!(r.passed);
    assert_eq!(r.detail, "verifier said yes");
}

#[test]
fn agent_assertion_with_null_runner_fails_cleanly() {
    let check = check(SuccessCheckKind::AgentAssertion, "anything", 1_000);
    let CheckPlan::Judge { assertion } = plan_check(&check) else {
        panic!("unexpected plan");
    };
    let r = NullAgentAssertion.evaluate(&assertion, ".");
    assert!(!r.passed);
    assert!(r.detail.contains("not configured"));
}

#[test]
fn test_runners_get_the_words_of_a_selector() {
    let (program, args, _) = command(SuccessCheckKind::CargoTest, " rate_limit::a  b\n");
    assert_eq!(program, "cargo");
    assert_eq!(args, vec!["test", "--", "rate_limit::a", "b"]);
    let (program, args, _) = command(SuccessCheckKind::Pytest, "-k burst");
    assert_eq!(program, "pytest");
    assert_eq!(args, vec!["-k", "burst"]);
    let (program, args, _) = command(SuccessCheckKind::JestTest, "src/a.test.ts");
    assert_eq!(program, "npx");
    assert_eq!(args, vec!["jest", "src/a.test.ts"]);
    let CheckPlan::SearchLines { regex } = plan_check(&check(SuccessCheckKind::Regex, "a b", 0))
    else {
        panic!("unexpected plan");
    };
    assert_eq!(regex, "a b");
    assert!(matches!(
        plan_check(&check(SuccessCheckKind::Pytest, "", 0)),
        CheckPlan::Run { wait_ms: 1, .. }
    ));
}

#[test]
fn empty_shell_specs_fail() {
    let CheckPlan::Settled { result } = plan_check(&check(SuccessCheckKind::Shell, " \n", 10))
    else {
        panic!("unexpected plan");
    };
    assert!(!result.passed);
    assert_eq!(result.detail, "empty shell spec");
}

#[test]
fn outputs_are_trimmed_and_joined() {
    assert_eq!(exited(true, " out \n", "").detail, "out");
    assert_eq!(exited(false, "\n", " err ").detail, "err");
    assert_eq!(exited(false, "out", "err").detail, "out\n---\nerr");
    let failed = CommandOutcome::SpawnFailed { error: "no such file".to_string() };
    assert_eq!(command_result(&failed, 5).detail, "spawn failed: no such file");
    let mut long = vec![b'a'; 5_000];
    long.extend_from_slice(&[b'b'; 4_096]);
    assert_eq!(trim_tail(&long), "b".repeat(4_096));
    assert_eq!(trim_tail(b"a\xffb"), "a\u{fffd}b");
    assert_eq!(trim_tail("  ünï\n".as_bytes()), "ünï");
}

#[test]
fn durations_are_measured_unless_told() {
    let r = CheckResult { passed: true, detail: String::new(), duration_ms: 0 };
    assert_eq!(finalize_after(r, Duration::from_micros(7_900)).duration_ms, 7);
    let r = CheckResult { passed: true, detail: String::new(), duration_ms: 9 };
    assert_eq!(finalize_after(r, Duration::from_millis(7)).duration_ms, 9);
    let r = CheckResult { passed: true, detail: String::new(), duration_ms: 0 };
    let earlier = Instant::now() - Duration::from_millis(30);
    assert!(finalize(r, earlier).duration_ms >= 30);
}

#[test]
fn lines_that_match_are_noted() {
    let mut hits = LineHits::new();
    hits.note_line("a", 1, "one", false);
    hits.note_line("a", 2, "two", true);
    assert!(!hits.is_full());
    assert!(hits.can_show());
    assert_eq!(
        hits.result("t").detail,
        "regex `t` matched 1 line(s) (showing up to 5):\na:2: two"
    );
}

#[test]
fn globs_are_relative_unless_absolute() {
    assert_eq!(glob_to_list("*.tmp", false, "/repo/*.tmp"), "/repo/*.tmp");
    assert_eq!(glob_to_list("/a/*", true, "/a/*"), "/a/*");
}
