//! What running a success check takes, and what its outcome means, whatever it is.
use crate::checks::{CheckResultView, SuccessCheckView};
use crate::names::SuccessCheckKind;
use crate::search;
use crate::search::{LineHitView, RegexScanView};
use crate::text;
use crate::verdicts;
use crate::verdicts::{CheckPlanView, CommandOutcome};
use vstd::prelude::*;
use vstd::utf8::*;

verus! {

/// A command is waited for as long as its check's timeout says, whatever that is,
/// and for a millisecond if it says zero: so of two checks, the one with the longer
/// timeout is waited for longer.
pub proof fn commands_get_their_time(check: SuccessCheckView, other: SuccessCheckView)
    ensures
        verdicts::planned_check(check) matches CheckPlanView::Run { wait_ms, .. } ==> {
            &&& wait_ms >= 1
            &&& check.timeout_ms >= 1 ==> wait_ms == check.timeout_ms
            &&& check.timeout_ms == 0 ==> wait_ms == 1
            &&& verdicts::planned_check(other) matches CheckPlanView::Run { wait_ms: longer, .. }
                ==> (1 <= check.timeout_ms < other.timeout_ms ==> wait_ms < longer)
        },
{
}

/// A shell command is handed to a login shell as it is written, unless it is blank:
/// then the check fails without being run.
pub proof fn shell_commands_run_as_written(check: SuccessCheckView)
    requires
        check.kind is Shell,
    ensures
        (forall|i: int| 0 <= i < check.spec.len() ==> text::is_white_space(#[trigger] check.spec[i]))
            ==> verdicts::planned_check(check) == (CheckPlanView::Settled {
            result: CheckResultView {
                passed: false,
                detail: "empty shell spec"@,
                duration_ms: 0,
            },
        }),
        (exists|i: int| 0 <= i < check.spec.len() && !text::is_white_space(#[trigger] check.spec[i]))
            ==> (verdicts::planned_check(check) matches CheckPlanView::Run { program, args, .. }
            && program == "sh"@ && args == seq!["-lc"@, check.spec]),
{
    let s = check.spec;
    let t = text::trim_start(s);
    text::lemma_trim_start_suffix(s);
    text::lemma_trim_end_prefix(t);
    if forall|i: int| 0 <= i < s.len() ==> text::is_white_space(#[trigger] s[i]) {
        if t.len() > 0 {
            assert(t[0] == s[s.len() - t.len()]);
        }
    } else {
        let i = choose|i: int| 0 <= i < s.len() && !text::is_white_space(#[trigger] s[i]);
        lemma_not_blank(s, i);
    }
}

proof fn lemma_not_blank(s: Seq<char>, i: int)
    requires
        0 <= i < s.len(),
        !text::is_white_space(s[i]),
    ensures
        text::trimmed(s).len() > 0,
    decreases s.len(),
{
    if text::is_white_space(s[0]) {
        assert(s.drop_first()[i - 1] == s[i]);
        lemma_not_blank(s.drop_first(), i - 1);
    } else {
        lemma_end_not_blank(s);
    }
}

proof fn lemma_end_not_blank(s: Seq<char>)
    requires
        s.len() > 0,
        !text::is_white_space(s[0]),
    ensures
        text::trim_end(s).len() > 0,
    decreases s.len(),
{
    if text::is_white_space(s.last()) {
        assert(s.drop_last()[0] == s[0]);
        lemma_end_not_blank(s.drop_last());
    }
}

/// A test selector is handed to its runner word by word, after what the runner
/// always gets.
pub proof fn test_selectors_run_word_by_word(check: SuccessCheckView)
    ensures
        check.kind is CargoTest ==> (verdicts::planned_check(check) matches CheckPlanView::Run {
            program,
            args,
            ..
        } && program == "cargo"@ && args == seq!["test"@, "--"@] + text::words(check.spec)),
        check.kind is Pytest ==> (verdicts::planned_check(check) matches CheckPlanView::Run {
            program,
            args,
            ..
        } && program == "pytest"@ && args == text::words(check.spec)),
        check.kind is JestTest ==> (verdicts::planned_check(check) matches CheckPlanView::Run {
            program,
            args,
            ..
        } && program == "npx"@ && args == seq!["jest"@] + text::words(check.spec)),
{
}

/// Globs, regexes and assertions are handed on as they are written, to whatever
/// looks into them, and no other check is.
pub proof fn patterns_are_handed_on_as_written(check: SuccessCheckView)
    ensures
        check.kind is FileAbsent <==> verdicts::planned_check(check) is ListFiles,
        check.kind is Regex <==> verdicts::planned_check(check) is SearchLines,
        check.kind is AgentAssertion <==> verdicts::planned_check(check) is Judge,
        check.kind is FileAbsent ==> verdicts::planned_check(check) == (CheckPlanView::ListFiles {
            glob: check.spec,
        }),
        check.kind is Regex ==> verdicts::planned_check(check) == (CheckPlanView::SearchLines {
            regex: check.spec,
        }),
        check.kind is AgentAssertion ==> verdicts::planned_check(check) == (CheckPlanView::Judge {
            assertion: check.spec,
        }),
{
}

/// Of an output the end is kept: at most 4096 bytes, and all of it if it is no
/// longer than that.
pub proof fn the_end_of_an_output_is_kept(output: Seq<u8>)
    ensures
        ({
            let kept = verdicts::kept_bytes(output);
            &&& kept.is_suffix_of(output)
            &&& output.len() <= 4096 ==> kept == output
            &&& output.len() > 4096 ==> kept.len() == 4096
            &&& verdicts::tail_text(output) == text::trimmed(verdicts::lossy_text(kept))
        }),
{
    let kept = verdicts::kept_bytes(output);
    assert(output.subrange(output.len() - kept.len(), output.len() as int) =~= kept);
}

/// What a command told stands in its check's detail: what it wrote, or what it wrote
/// to one output if the other is empty; why it could not be started; or how long it
/// was waited for. It passes exactly if it ended well.
pub proof fn commands_are_told_in_full(outcome: CommandOutcome, timeout_ms: u32)
    ensures
        ({
            let result = verdicts::command_showed(outcome, timeout_ms);
            match outcome {
                CommandOutcome::Exited { success, stdout, stderr } => {
                    let out = verdicts::tail_text(stdout@);
                    let err = verdicts::tail_text(stderr@);
                    &&& result.passed == success
                    &&& result.duration_ms == 0
                    &&& err.len() == 0 ==> result.detail == out
                    &&& out.len() == 0 && err.len() > 0 ==> result.detail == err
                    &&& out.len() > 0 && err.len() > 0 ==> result.detail == out + "\n---\n"@ + err
                },
                CommandOutcome::SpawnFailed { error } => {
                    &&& !result.passed
                    &&& result.duration_ms == 0
                    &&& result.detail == "spawn failed: "@ + error@
                },
                CommandOutcome::TimedOut => {
                    &&& !result.passed
                    &&& result.duration_ms == timeout_ms
                    &&& result.detail == "timeout after "@ + text::decimal(timeout_ms as nat)
                        + "ms"@
                },
            }
        }),
{
}

/// Files that should be absent and are not are counted, and the first ten of them are
/// named, in order. The check passes exactly if there are none.
pub proof fn files_found_are_counted_and_named(glob: Seq<char>, files: Seq<Seq<char>>)
    ensures
        ({
            let result = verdicts::listing_showed(glob, Ok(files));
            let named = if files.len() <= 10 {
                files
            } else {
                files.take(10)
            };
            &&& result.duration_ms == 0
            &&& result.passed <==> files.len() == 0
            &&& files.len() == 0 ==> result.detail == "no files match `"@ + glob + "`"@
            &&& files.len() > 0 ==> result.detail == text::decimal(files.len())
                + " file(s) still match `"@ + glob + "`: "@ + text::joined(named, ", "@)
        }),
{
}

/// A glob that is none fails its check, for the reason given.
pub proof fn globs_that_are_none_fail(glob: Seq<char>, problem: Seq<char>)
    ensures
        ({
            let result = verdicts::listing_showed(glob, Err(problem));
            &&& !result.passed
            &&& result.duration_ms == 0
            &&& result.detail == "invalid glob `"@ + glob + "`: "@ + problem
        }),
{
}

/// Timing a check sets the duration that it left at zero, and nothing else.
pub proof fn timing_sets_missing_durations(result: CheckResultView, elapsed_ms: u32)
    ensures
        ({
            let timed = verdicts::timed(result, elapsed_ms);
            &&& timed.passed == result.passed && timed.detail == result.detail
            &&& result.duration_ms > 0 ==> timed.duration_ms == result.duration_ms
            &&& result.duration_ms == 0 ==> timed.duration_ms == elapsed_ms
        }),
{
}

/// The hits in a file are its lines that match, each with its number counted from
/// one: every one of them, no others, in order.
pub proof fn hits_are_the_lines_that_match(
    path: Seq<char>,
    lines: Seq<Seq<char>>,
    texts: Set<Seq<char>>,
)
    ensures
        ({
            let hits = search::hits_in(path, lines, texts);
            &&& forall|k: int|
                0 <= k < hits.len() ==> {
                    &&& (#[trigger] hits[k]).path == path
                    &&& 1 <= hits[k].line_no <= lines.len()
                    &&& hits[k].line == lines[hits[k].line_no - 1]
                    &&& texts.contains(hits[k].line)
                }
            &&& forall|j: int, k: int|
                0 <= j < k < hits.len() ==> (#[trigger] hits[j]).line_no < (
                #[trigger] hits[k]).line_no
            &&& forall|i: int|
                0 <= i < lines.len() && texts.contains(#[trigger] lines[i]) ==> exists|k: int|
                    0 <= k < hits.len() && (#[trigger] hits[k]).line_no == i + 1
        }),
    decreases lines.len(),
{
    let hits = search::hits_in(path, lines, texts);
    if lines.len() > 0 {
        let front = lines.drop_last();
        hits_are_the_lines_that_match(path, front, texts);
        let before = search::hits_in(path, front, texts);
        let last = lines.len() - 1;
        assert(lines[last] == lines.last());
        assert forall|k: int| 0 <= k < hits.len() implies {
            &&& (#[trigger] hits[k]).path == path
            &&& 1 <= hits[k].line_no <= lines.len()
            &&& hits[k].line == lines[hits[k].line_no - 1]
            &&& texts.contains(hits[k].line)
        } by {
            if k < before.len() {
                assert(hits[k] == before[k]);
                assert(front[before[k].line_no - 1] == lines[before[k].line_no - 1]);
            }
        }
        assert forall|j: int, k: int| 0 <= j < k < hits.len() implies (#[trigger] hits[j]).line_no
            < (#[trigger] hits[k]).line_no by {
            assert(hits[j] == before[j]);
            if k < before.len() {
                assert(hits[k] == before[k]);
            }
        }
        assert forall|i: int|
            0 <= i < lines.len() && texts.contains(#[trigger] lines[i]) implies exists|k: int|
            0 <= k < hits.len() && (#[trigger] hits[k]).line_no == i + 1 by {
            if i < last {
                assert(front[i] == lines[i]);
                let k = choose|k: int|
                    0 <= k < before.len() && (#[trigger] before[k]).line_no == i + 1;
                assert(hits[k] == before[k]);
            } else {
                assert(hits[hits.len() - 1].line_no == i + 1);
            }
        }
    }
}

/// A search adds the hits of a file to those it has, and keeps the first twenty.
pub proof fn searches_collect_twenty_hits(
    scan: RegexScanView,
    path: Seq<char>,
    content: Seq<char>,
)
    ensures
        ({
            let next = scan.scanned(path, content);
            let all = scan.hits + search::hits_in(path, text::lines_of(content), scan.texts);
            &&& next.pattern == scan.pattern && next.texts == scan.texts
            &&& next.hits.is_prefix_of(all)
            &&& all.len() <= 20 ==> next.hits == all
            &&& all.len() > 20 ==> next.hits.len() == 20
        }),
        RegexScanView::fresh(scan.pattern, scan.texts).hits.len() == 0,
        RegexScanView::fresh(scan.pattern, scan.texts).pattern == scan.pattern,
        RegexScanView::fresh(scan.pattern, scan.texts).texts == scan.texts,
        scan.valid() <==> scan.hits.len() <= 20,
{
}

/// A line of up to eighty bytes is shown whole. Of a longer one its first eighty
/// bytes are shown, where they end between two characters, and dots.
pub proof fn long_lines_are_cut(line: Seq<char>)
    ensures
        ({
            let bytes = encode_utf8(line);
            &&& bytes.len() <= 80 ==> search::cuts_cleanly(line) && search::snippet(line) == line
            &&& bytes.len() > 80 ==> (search::cuts_cleanly(line) <==> is_char_boundary(bytes, 80))
            &&& bytes.len() > 80 && search::cuts_cleanly(line) ==> exists|head: Seq<char>|
                #[trigger] encode_utf8(head) == bytes.take(80) && search::snippet(line) == head
                    + "..."@
        }),
{
    let bytes = encode_utf8(line);
    if bytes.len() > 80 && search::cuts_cleanly(line) {
        encode_utf8_valid_utf8(line);
        valid_utf8_split(bytes, 80);
        let head = decode_utf8(bytes.take(80));
        assert(bytes.subrange(0, 80) =~= bytes.take(80));
        decode_utf8_encode_utf8(bytes.take(80));
        assert(encode_utf8(head) == bytes.take(80));
    }
}

/// A search without hits passes. One with hits fails, and tells how many there are
/// and the first five of them: each with its path, its line's number and the line.
pub proof fn searches_tell_their_hits(pattern: Seq<char>, hits: Seq<LineHitView>)
    ensures
        ({
            let result = search::search_showed(pattern, hits);
            let first = if hits.len() <= 5 {
                hits
            } else {
                hits.take(5)
            };
            &&& result.duration_ms == 0
            &&& result.passed <==> hits.len() == 0
            &&& hits.len() == 0 ==> result.detail == "regex `"@ + pattern + "` not found in repo"@
            &&& hits.len() > 0 ==> result.detail == "regex `"@ + pattern + "` matched "@
                + text::decimal(hits.len()) + " line(s) (showing up to 5):\n"@ + text::joined(
                first.map_values(
                    |hit: LineHitView|
                        hit.path + ":"@ + text::decimal(hit.line_no) + ": "@ + search::snippet(
                            hit.line,
                        ),
                ),
                "\n"@,
            )
        }),
        search::showable(hits) <==> forall|i: int|
            0 <= i < hits.len() && i < 5 ==> search::cuts_cleanly((#[trigger] hits[i]).line),
{
    let first = if hits.len() <= 5 {
        hits
    } else {
        hits.take(5)
    };
    assert(first.map_values(
        |hit: LineHitView|
            hit.path + ":"@ + text::decimal(hit.line_no) + ": "@ + search::snippet(hit.line),
    ) =~= first.map_values(|hit: LineHitView| search::hit_told(hit)));
    if search::showable(hits) {
        assert forall|i: int| 0 <= i < hits.len() && i < 5 implies search::cuts_cleanly(
            (#[trigger] hits[i]).line,
        ) by {
            assert(search::shown(hits)[i] == hits[i]);
        }
    }
}

/// A pattern that is no regex fails its check, for the reason given.
pub proof fn patterns_that_are_no_regex_fail(pattern: Seq<char>, problem: Seq<char>)
    ensures
        search::regex_refused(pattern, problem) == (CheckResultView {
            passed: false,
            detail: "invalid regex `"@ + pattern + "`: "@ + problem,
            duration_ms: 0,
        }),
{
}

/// A result that was found tells its verdict and its detail, and no duration.
pub proof fn results_tell_what_was_found(passed: bool, detail: Seq<char>)
    ensures
        verdicts::found(passed, detail) == (CheckResultView { passed, detail, duration_ms: 0 }),
{
}

/// A listing is judged by all the files in it, in order, and a glob that is none by
/// what is wrong with it.
pub proof fn listings_are_quoted(files: Vec<String>, problem: String)
    ensures
        verdicts::listing_told(Ok(files)) == Ok::<Seq<Seq<char>>, Seq<char>>(files.deep_view()),
        verdicts::listing_told(Err(problem)) == Err::<Seq<Seq<char>>, Seq<char>>(problem@),
{
}

} // verus!
