//! How success checks are carried out, and what their outcomes mean.
//!
//! [`plan_check`] says what a check takes. Whoever runs it hands what came back
//! to [`command_result`], [`file_absent_result`] or a
//! [`RegexScan`](crate::search::RegexScan), and the outcome to [`finalize`].
use crate::checks::{CheckResult, CheckResultView, SuccessCheck, SuccessCheckView};
use crate::clock;
use crate::clock::clamped_millis;
use crate::names::SuccessCheckKind;
use crate::text;
use crate::text::{decimal_text, join, split_words, trim};
use vstd::prelude::*;
use vstd::slice::slice_subrange;
use vstd::utf8::*;

verus! {

/// How many bytes at the end of a command's output are kept.
pub const MAX_CAPTURED_OUTPUT_BYTES: usize = 4096;

/// How many of the files that should be absent are listed.
pub const MAX_LISTED_FILES: usize = 10;

/// Why a check cannot be run.
#[derive(Debug, PartialEq, Eq)]
pub enum VerifierError {
    EmptySpec(&'static str),
    InvalidGlob(String),
    InvalidRegex(String),
}

impl VerifierError {
    /// The error in words.
    pub open spec fn words(self) -> Seq<char> {
        match self {
            VerifierError::EmptySpec(kind) => "spec was empty for kind "@ + kind@,
            VerifierError::InvalidGlob(detail) => "invalid glob: "@ + detail@,
            VerifierError::InvalidRegex(detail) => "invalid regex: "@ + detail@,
        }
    }

    /// The error in words.
    pub fn message(&self) -> (message: String)
        ensures
            message@ == self.words(),
    {
        match self {
            VerifierError::EmptySpec(kind) => {
                let mut m = "spec was empty for kind ".to_string();
                m.append(kind);
                m
            },
            VerifierError::InvalidGlob(detail) => {
                let mut m = "invalid glob: ".to_string();
                m.append(detail.as_str());
                m
            },
            VerifierError::InvalidRegex(detail) => {
                let mut m = "invalid regex: ".to_string();
                m.append(detail.as_str());
                m
            },
        }
    }
}

/// A result whose duration is still to be measured.
pub open spec fn found(passed: bool, detail: Seq<char>) -> CheckResultView {
    CheckResultView { passed, detail, duration_ms: 0 }
}

/// The judge of assertions for want of an agent: every assertion fails.
pub struct NullAgentAssertion;

impl NullAgentAssertion {
    /// Judges an assertion about the repository at `cwd`.
    pub fn evaluate(&self, _assertion: &str, _cwd: &str) -> (result: CheckResult)
        ensures
            result@ == found(false, "agent assertion runner not configured"@),
    {
        CheckResult {
            passed: false,
            detail: "agent assertion runner not configured".to_string(),
            duration_ms: 0,
        }
    }
}

/// A judge with a fixed verdict.
pub struct StubAgentAssertion {
    pub passed: bool,
    pub detail: String,
}

impl StubAgentAssertion {
    /// Judges an assertion about the repository at `cwd`.
    pub fn evaluate(&self, _assertion: &str, _cwd: &str) -> (result: CheckResult)
        ensures
            result@ == found(self.passed, self.detail@),
    {
        CheckResult { passed: self.passed, detail: self.detail.clone(), duration_ms: 0 }
    }
}

/// What it takes to run a check.
#[derive(Debug)]
pub enum CheckPlan {
    /// Run a command, and wait that long for it.
    Run { program: String, args: Vec<String>, wait_ms: u32 },
    /// List the files that match a glob.
    ListFiles { glob: String },
    /// Search the files of the repository for lines that match a regex.
    SearchLines { regex: String },
    /// Have an agent judge an assertion.
    Judge { assertion: String },
    /// Nothing more: this is the result.
    Settled { result: CheckResult },
}

/// The model of a [`CheckPlan`].
pub enum CheckPlanView {
    Run { program: Seq<char>, args: Seq<Seq<char>>, wait_ms: u32 },
    ListFiles { glob: Seq<char> },
    SearchLines { regex: Seq<char> },
    Judge { assertion: Seq<char> },
    Settled { result: CheckResultView },
}

impl View for CheckPlan {
    type V = CheckPlanView;

    open spec fn view(&self) -> CheckPlanView {
        match *self {
            CheckPlan::Run { program, args, wait_ms } => CheckPlanView::Run {
                program: program@,
                args: args.deep_view(),
                wait_ms,
            },
            CheckPlan::ListFiles { glob } => CheckPlanView::ListFiles { glob: glob@ },
            CheckPlan::SearchLines { regex } => CheckPlanView::SearchLines { regex: regex@ },
            CheckPlan::Judge { assertion } => CheckPlanView::Judge { assertion: assertion@ },
            CheckPlan::Settled { result } => CheckPlanView::Settled { result: result@ },
        }
    }
}

/// How long a command is waited for: at least a millisecond.
pub open spec fn wait_for(timeout_ms: u32) -> u32 {
    if timeout_ms == 0 {
        1
    } else {
        timeout_ms
    }
}

/// What it takes to run a check. Shell commands go to a login shell as they are;
/// test selectors are split at white space.
pub open spec fn planned_check(check: SuccessCheckView) -> CheckPlanView {
    let wait_ms = wait_for(check.timeout_ms);
    match check.kind {
        SuccessCheckKind::Shell => if text::trimmed(check.spec).len() == 0 {
            CheckPlanView::Settled { result: found(false, "empty shell spec"@) }
        } else {
            CheckPlanView::Run { program: "sh"@, args: seq!["-lc"@, check.spec], wait_ms }
        },
        SuccessCheckKind::CargoTest => CheckPlanView::Run {
            program: "cargo"@,
            args: seq!["test"@, "--"@] + text::words(check.spec),
            wait_ms,
        },
        SuccessCheckKind::Pytest => CheckPlanView::Run {
            program: "pytest"@,
            args: text::words(check.spec),
            wait_ms,
        },
        SuccessCheckKind::JestTest => CheckPlanView::Run {
            program: "npx"@,
            args: seq!["jest"@] + text::words(check.spec),
            wait_ms,
        },
        SuccessCheckKind::FileAbsent => CheckPlanView::ListFiles { glob: check.spec },
        SuccessCheckKind::Regex => CheckPlanView::SearchLines { regex: check.spec },
        SuccessCheckKind::AgentAssertion => CheckPlanView::Judge { assertion: check.spec },
    }
}

/// A test runner's arguments: those it always gets, and the words of a selector.
fn test_args(base: Vec<String>, spec: &str) -> (args: Vec<String>)
    ensures
        args.deep_view() == base.deep_view() + text::words(spec@),
{
    let words = split_words(spec);
    let ghost all = words.deep_view();
    let ghost first = base.deep_view();
    let mut args = base;
    assert(first + all.take(0) =~= first);
    for word in it: words
        invariant
            it.seq() == words@,
            all == words.deep_view(),
            args.deep_view() == first + all.take(it.index()),
    {
        let ghost before = args;
        args.push(word);
        proof {
            text::lemma_string_pushed(before, args, word);
            assert(first + all.take(it.index() + 1) =~= (first + all.take(it.index())).push(word@));
        }
    }
    assert(all.take(all.len() as int) =~= all);
    args
}

/// What it takes to run a check.
pub fn plan_check(check: &SuccessCheck) -> (plan: CheckPlan)
    ensures
        plan@ == planned_check(check@),
{
    let wait_ms: u32 = if check.timeout_ms == 0 {
        1
    } else {
        check.timeout_ms
    };
    let spec = check.spec.as_str();
    match check.kind {
        SuccessCheckKind::Shell => {
            if trim(spec).is_empty() {
                return CheckPlan::Settled {
                    result: CheckResult {
                        passed: false,
                        detail: "empty shell spec".to_string(),
                        duration_ms: 0,
                    },
                };
            }
            let args = vec!["-lc".to_string(), spec.to_string()];
            assert(args.deep_view() =~= seq!["-lc"@, check@.spec]);
            CheckPlan::Run { program: "sh".to_string(), args, wait_ms }
        },
        SuccessCheckKind::CargoTest => {
            let base = vec!["test".to_string(), "--".to_string()];
            assert(base.deep_view() =~= seq!["test"@, "--"@]);
            CheckPlan::Run { program: "cargo".to_string(), args: test_args(base, spec), wait_ms }
        },
        SuccessCheckKind::Pytest => {
            CheckPlan::Run { program: "pytest".to_string(), args: split_words(spec), wait_ms }
        },
        SuccessCheckKind::JestTest => {
            let base = vec!["jest".to_string()];
            assert(base.deep_view() =~= seq!["jest"@]);
            CheckPlan::Run { program: "npx".to_string(), args: test_args(base, spec), wait_ms }
        },
        SuccessCheckKind::FileAbsent => CheckPlan::ListFiles { glob: check.spec.clone() },
        SuccessCheckKind::Regex => CheckPlan::SearchLines { regex: check.spec.clone() },
        SuccessCheckKind::AgentAssertion => CheckPlan::Judge { assertion: check.spec.clone() },
    }
}

/// What became of a command.
#[derive(Debug)]
pub enum CommandOutcome {
    /// It ran to its end.
    Exited { success: bool, stdout: Vec<u8>, stderr: Vec<u8> },
    /// It could not be started.
    SpawnFailed { error: String },
    /// It was still running when its time was up.
    TimedOut,
}

/// The text that `String::from_utf8_lossy` reads from bytes.
pub uninterp spec fn lossy_text(bytes: Seq<u8>) -> Seq<char>;

/// Reads bytes as text by `String::from_utf8_lossy`. Bytes that are valid UTF-8
/// are read as the text they encode. What others are read as is a matter of that
/// function, and has a name.
#[verifier::external_body]
pub(crate) fn read_lossy(bytes: &[u8]) -> (s: String)
    ensures
        s@ == lossy_text(bytes@),
        valid_utf8(bytes@) ==> s@ == decode_utf8(bytes@),
{
    String::from_utf8_lossy(bytes).into_owned()
}

/// The bytes at the end of an output that are kept.
pub open spec fn kept_bytes(output: Seq<u8>) -> Seq<u8> {
    if output.len() > MAX_CAPTURED_OUTPUT_BYTES {
        output.skip(output.len() - MAX_CAPTURED_OUTPUT_BYTES)
    } else {
        output
    }
}

/// The text at the end of an output.
pub open spec fn tail_text(output: Seq<u8>) -> Seq<char> {
    text::trimmed(lossy_text(kept_bytes(output)))
}

/// The text at the end of an output.
pub fn trim_tail(output: &[u8]) -> (tail: String)
    ensures
        tail@ == tail_text(output@),
        valid_utf8(kept_bytes(output@)) ==> tail@ == text::trimmed(
            decode_utf8(kept_bytes(output@)),
        ),
{
    let start: usize = if output.len() > MAX_CAPTURED_OUTPUT_BYTES {
        output.len() - MAX_CAPTURED_OUTPUT_BYTES
    } else {
        0
    };
    let kept = slice_subrange(output, start, output.len());
    assert(kept@ =~= kept_bytes(output@));
    let tail = read_lossy(kept);
    trim(tail.as_str()).to_string()
}

/// The two outputs of a command in one text.
pub open spec fn outputs_together(stdout: Seq<char>, stderr: Seq<char>) -> Seq<char> {
    if stderr.len() == 0 {
        stdout
    } else if stdout.len() == 0 {
        stderr
    } else {
        stdout + "\n---\n"@ + stderr
    }
}

/// The two outputs of a command in one text.
pub fn join_outputs(stdout: String, stderr: String) -> (detail: String)
    ensures
        detail@ == outputs_together(stdout@, stderr@),
{
    if stderr.as_str().is_empty() {
        stdout
    } else if stdout.as_str().is_empty() {
        stderr
    } else {
        let mut detail = stdout;
        detail.append("\n---\n");
        detail.append(stderr.as_str());
        detail
    }
}

/// What a command that was given `timeout_ms` showed.
pub open spec fn command_showed(outcome: CommandOutcome, timeout_ms: u32) -> CheckResultView {
    match outcome {
        CommandOutcome::Exited { success, stdout, stderr } => found(
            success,
            outputs_together(tail_text(stdout@), tail_text(stderr@)),
        ),
        CommandOutcome::SpawnFailed { error } => found(false, "spawn failed: "@ + error@),
        CommandOutcome::TimedOut => CheckResultView {
            passed: false,
            detail: "timeout after "@ + text::decimal(timeout_ms as nat) + "ms"@,
            duration_ms: timeout_ms,
        },
    }
}

/// What a command that was given `timeout_ms` showed. It passes if it exits with
/// success.
pub fn command_result(outcome: &CommandOutcome, timeout_ms: u32) -> (result: CheckResult)
    ensures
        result@ == command_showed(*outcome, timeout_ms),
{
    match outcome {
        CommandOutcome::Exited { success, stdout, stderr } => {
            let detail = join_outputs(trim_tail(stdout.as_slice()), trim_tail(stderr.as_slice()));
            CheckResult { passed: *success, detail, duration_ms: 0 }
        },
        CommandOutcome::SpawnFailed { error } => {
            let mut detail = "spawn failed: ".to_string();
            detail.append(error.as_str());
            CheckResult { passed: false, detail, duration_ms: 0 }
        },
        CommandOutcome::TimedOut => {
            let mut detail = "timeout after ".to_string();
            detail.append(decimal_text(timeout_ms as u64).as_str());
            detail.append("ms");
            CheckResult { passed: false, detail, duration_ms: timeout_ms }
        },
    }
}

/// The glob whose matches are listed: an absolute one as it is, and any other as
/// it reads under the directory that the check runs in.
pub fn glob_to_list(glob: &str, is_absolute: bool, under_cwd: &str) -> (pattern: String)
    ensures
        pattern@ == if is_absolute {
            glob@
        } else {
            under_cwd@
        },
{
    if is_absolute {
        glob.to_string()
    } else {
        under_cwd.to_string()
    }
}

/// The first parts of a list.
pub open spec fn first_of<T>(list: Seq<T>, n: usize) -> Seq<T> {
    if list.len() > n {
        list.take(n as int)
    } else {
        list
    }
}

/// What a listing of the files that match a glob showed, or what is wrong with
/// the glob.
pub open spec fn listing_showed(
    glob: Seq<char>,
    listing: Result<Seq<Seq<char>>, Seq<char>>,
) -> CheckResultView {
    match listing {
        Err(problem) => found(false, "invalid glob `"@ + glob + "`: "@ + problem),
        Ok(files) => if files.len() == 0 {
            found(true, "no files match `"@ + glob + "`"@)
        } else {
            found(
                false,
                text::decimal(files.len()) + " file(s) still match `"@ + glob + "`: "@
                    + text::joined(first_of(files, MAX_LISTED_FILES), ", "@),
            )
        },
    }
}

/// A listing, or what is wrong with its glob.
pub open spec fn listing_told(listing: Result<Vec<String>, String>) -> Result<
    Seq<Seq<char>>,
    Seq<char>,
> {
    match listing {
        Ok(files) => Ok(files.deep_view()),
        Err(problem) => Err(problem@),
    }
}

/// What a listing of the files that match a glob showed. The check passes if
/// there are none.
pub fn file_absent_result(glob: &str, listing: &Result<Vec<String>, String>) -> (result: CheckResult)
    ensures
        result@ == listing_showed(glob@, listing_told(*listing)),
{
    match listing {
        Err(problem) => {
            let mut detail = "invalid glob `".to_string();
            detail.append(glob);
            detail.append("`: ");
            detail.append(problem.as_str());
            CheckResult { passed: false, detail, duration_ms: 0 }
        },
        Ok(files) => {
            if files.is_empty() {
                let mut detail = "no files match `".to_string();
                detail.append(glob);
                detail.append("`");
                return CheckResult { passed: true, detail, duration_ms: 0 };
            }
            let mut listed: Vec<String> = Vec::new();
            let mut i: usize = 0;
            while i < files.len() && i < MAX_LISTED_FILES
                invariant
                    i <= files.len(),
                    i <= MAX_LISTED_FILES,
                    listed.deep_view() == files.deep_view().take(i as int),
                decreases files.len() - i,
            {
                let ghost before = listed;
                listed.push(files[i].clone());
                i += 1;
                proof {
                    text::lemma_string_pushed(before, listed, files@[i - 1]);
                    assert(files.deep_view().take(i as int) =~= files.deep_view().take(i - 1).push(
                        files@[i - 1]@,
                    ));
                }
            }
            assert(listed.deep_view() =~= first_of(files.deep_view(), MAX_LISTED_FILES));
            let mut detail = decimal_text(files.len() as u64);
            detail.append(" file(s) still match `");
            detail.append(glob);
            detail.append("`: ");
            detail.append(join(&listed, ", ").as_str());
            CheckResult { passed: false, detail, duration_ms: 0 }
        },
    }
}

/// A result whose duration was measured, if it did not tell it itself.
pub open spec fn timed(result: CheckResultView, elapsed_ms: u32) -> CheckResultView {
    if result.duration_ms == 0 {
        CheckResultView { duration_ms: elapsed_ms, ..result }
    } else {
        result
    }
}

/// Sets the duration of a result that does not tell it to the given span, in
/// milliseconds and at most `u32::MAX`.
pub fn finalize_after(result: CheckResult, span: std::time::Duration) -> (finished: CheckResult)
    ensures
        finished@ == timed(result@, clock::millis_in(span)),
{
    let mut finished = result;
    if finished.duration_ms == 0 {
        finished.duration_ms = clamped_millis(span);
    }
    finished
}

/// Sets the duration of a result that does not tell it to the time since
/// `started`. What the monotonic clock reads now decides.
pub fn finalize(result: CheckResult, started: std::time::Instant) -> (finished: CheckResult)
    ensures
        exists|elapsed_ms: u32|
            #[trigger] clock::millis_told_since(started, elapsed_ms) && finished@ == timed(
                result@,
                elapsed_ms,
            ),
{
    let span = started.elapsed();
    assert(clock::millis_told_since(started, clock::millis_in(span)));
    finalize_after(result, span)
}

/// A command passes exactly if it exits with success, and files that should be
/// absent pass exactly if the glob is sound and nothing matches it. Measuring the
/// time a check took leaves its verdict alone, and the duration that a timed-out
/// command tells.
pub proof fn verdicts_follow_the_evidence(
    outcome: CommandOutcome,
    timeout_ms: u32,
    glob: Seq<char>,
    listing: Result<Seq<Seq<char>>, Seq<char>>,
    elapsed_ms: u32,
)
    ensures
        command_showed(outcome, timeout_ms).passed <==> (outcome matches CommandOutcome::Exited {
            success,
            ..
        } && success),
        listing_showed(glob, listing).passed <==> (listing matches Ok(files) && files.len() == 0),
        timed(command_showed(outcome, timeout_ms), elapsed_ms).passed == command_showed(
            outcome,
            timeout_ms,
        ).passed,
        outcome is TimedOut && timeout_ms > 0 ==> timed(
            command_showed(outcome, timeout_ms),
            elapsed_ms,
        ).duration_ms == timeout_ms,
{
}

} // verus!
