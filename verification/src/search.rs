//! The search for lines that must not be there.
use crate::checks::{CheckResult, CheckResultView};
use crate::text;
use crate::text::{decimal_text, join, split_lines};
use crate::verdicts;
use vstd::prelude::*;
use vstd::utf8::*;

verus! {

/// How many matching lines a search collects before it stops.
pub const MAX_HITS: usize = 20;

/// How many of them it shows.
pub const MAX_SHOWN: usize = 5;

/// How many bytes of a line it shows.
pub const SNIPPET_BYTES: usize = 80;

/// `regex::Regex`, a compiled regular expression.
#[verifier::external_type_specification]
#[verifier::external_body]
pub struct ExRegex(regex::Regex);

/// `regex::Error`, why a pattern was refused.
#[verifier::external_type_specification]
#[verifier::external_body]
pub struct ExRegexError(regex::Error);

/// The texts in which a compiled expression matches somewhere.
pub uninterp spec fn matched_texts(re: regex::Regex) -> Set<Seq<char>>;

/// The texts in which a pattern matches somewhere, in the syntax that
/// `regex::Regex::new` reads.
pub uninterp spec fn pattern_texts(pattern: Seq<char>) -> Set<Seq<char>>;

/// `regex::Regex::is_match` tells whether an expression matches somewhere in a
/// text.
pub assume_specification[ regex::Regex::is_match ](re: &regex::Regex, haystack: &str) -> (b: bool)
    ensures
        b == matched_texts(*re).contains(haystack@),
;

/// `regex::Regex::new` compiles a pattern. What it gives matches where the pattern
/// does. Which patterns it refuses, and why, is left unsaid: besides the syntax
/// that also rests on the memory that the compiled form would take on the machine.
pub assume_specification[ regex::Regex::new ](re: &str) -> (compiled: Result<
    regex::Regex,
    regex::Error,
>)
    ensures
        compiled matches Ok(it) ==> matched_texts(it) == pattern_texts(re@),
;

/// A line that matches.
#[derive(Debug, PartialEq, Eq)]
pub struct LineHit {
    pub path: String,
    /// Counted from one.
    pub line_no: usize,
    pub line: String,
}

/// The model of a [`LineHit`].
pub struct LineHitView {
    pub path: Seq<char>,
    pub line_no: nat,
    pub line: Seq<char>,
}

impl View for LineHit {
    type V = LineHitView;

    open spec fn view(&self) -> LineHitView {
        LineHitView { path: self.path@, line_no: self.line_no as nat, line: self.line@ }
    }
}

impl DeepView for LineHit {
    type V = LineHitView;

    open spec fn deep_view(&self) -> LineHitView {
        self@
    }
}

/// The lines among the given ones that match, in order.
pub open spec fn hits_in(
    path: Seq<char>,
    lines: Seq<Seq<char>>,
    texts: Set<Seq<char>>,
) -> Seq<LineHitView>
    decreases lines.len(),
{
    if lines.len() == 0 {
        Seq::empty()
    } else {
        let front = hits_in(path, lines.drop_last(), texts);
        if texts.contains(lines.last()) {
            front.push(LineHitView { path, line_no: lines.len(), line: lines.last() })
        } else {
            front
        }
    }
}

/// A line as it is shown: cut off if it is long.
pub open spec fn snippet(line: Seq<char>) -> Seq<char> {
    let bytes = encode_utf8(line);
    if bytes.len() > SNIPPET_BYTES {
        decode_utf8(bytes.take(SNIPPET_BYTES as int)) + "..."@
    } else {
        line
    }
}

/// The place at which a long line is cut off lies between two characters.
pub open spec fn cuts_cleanly(line: Seq<char>) -> bool {
    let bytes = encode_utf8(line);
    bytes.len() > SNIPPET_BYTES ==> is_char_boundary(bytes, SNIPPET_BYTES as int)
}

/// A hit as it is shown.
pub open spec fn hit_told(hit: LineHitView) -> Seq<char> {
    hit.path + ":"@ + text::decimal(hit.line_no) + ": "@ + snippet(hit.line)
}

/// The hits that are shown.
pub open spec fn shown(hits: Seq<LineHitView>) -> Seq<LineHitView> {
    verdicts::first_of(hits, MAX_SHOWN)
}

/// The hits can be shown: long lines among them are cut off cleanly.
pub open spec fn showable(hits: Seq<LineHitView>) -> bool {
    forall|i: int| 0 <= i < shown(hits).len() ==> cuts_cleanly((#[trigger] shown(hits)[i]).line)
}

/// What a search for a pattern showed. It passes if there are no hits.
pub open spec fn search_showed(pattern: Seq<char>, hits: Seq<LineHitView>) -> CheckResultView {
    if hits.len() == 0 {
        verdicts::found(true, "regex `"@ + pattern + "` not found in repo"@)
    } else {
        verdicts::found(
            false,
            "regex `"@ + pattern + "` matched "@ + text::decimal(hits.len())
                + " line(s) (showing up to 5):\n"@ + text::joined(
                shown(hits).map_values(|hit: LineHitView| hit_told(hit)),
                "\n"@,
            ),
        )
    }
}

/// A search at one point in time.
pub struct RegexScanView {
    pub pattern: Seq<char>,
    pub texts: Set<Seq<char>>,
    pub hits: Seq<LineHitView>,
}

impl RegexScanView {
    /// A search that has seen nothing.
    pub open spec fn fresh(pattern: Seq<char>, texts: Set<Seq<char>>) -> Self {
        RegexScanView { pattern, texts, hits: Seq::empty() }
    }

    /// A search collects no more hits than it may.
    pub open spec fn valid(self) -> bool {
        self.hits.len() <= MAX_HITS
    }

    /// After one more file.
    pub open spec fn scanned(self, path: Seq<char>, content: Seq<char>) -> Self {
        RegexScanView {
            hits: verdicts::first_of(
                self.hits + hits_in(path, text::lines_of(content), self.texts),
                MAX_HITS,
            ),
            ..self
        }
    }

    /// What the search showed.
    pub open spec fn showed(self) -> CheckResultView {
        search_showed(self.pattern, self.hits)
    }
}

/// What is said of a pattern that is no regex.
pub open spec fn regex_refused(pattern: Seq<char>, problem: Seq<char>) -> CheckResultView {
    verdicts::found(false, "invalid regex `"@ + pattern + "`: "@ + problem)
}

/// The result of a check whose pattern is no regex.
pub fn invalid_regex_result(pattern: &str, problem: &str) -> (result: CheckResult)
    ensures
        result@ == regex_refused(pattern@, problem@),
{
    let mut detail = "invalid regex `".to_string();
    detail.append(pattern);
    detail.append("`: ");
    detail.append(problem);
    CheckResult { passed: false, detail, duration_ms: 0 }
}

proof fn lemma_hits_grow(path: Seq<char>, lines: Seq<Seq<char>>, texts: Set<Seq<char>>, k: int)
    requires
        0 <= k <= lines.len(),
    ensures
        hits_in(path, lines.take(k), texts).is_prefix_of(hits_in(path, lines, texts)),
    decreases lines.len() - k,
{
    if k < lines.len() {
        lemma_hits_grow(path, lines, texts, k + 1);
        assert(lines.take(k + 1).drop_last() =~= lines.take(k));
    } else {
        assert(lines.take(k) =~= lines);
    }
}

/// The line as it is shown.
fn cut_line(line: &str) -> (shown: String)
    requires
        cuts_cleanly(line@),
    ensures
        shown@ == snippet(line@),
{
    if line.as_bytes().len() > SNIPPET_BYTES {
        let head = line.split_at(SNIPPET_BYTES).0;
        proof {
            encode_utf8_decode_utf8(head@);
            assert(encode_utf8(line@).subrange(0, SNIPPET_BYTES as int) =~= encode_utf8(line@).take(
                SNIPPET_BYTES as int,
            ));
        }
        let mut shown = head.to_string();
        shown.append("...");
        shown
    } else {
        line.to_string()
    }
}

/// The lines that a search has found.
#[derive(Debug, PartialEq, Eq)]
pub struct LineHits {
    hits: Vec<LineHit>,
}

impl View for LineHits {
    type V = Seq<LineHitView>;

    closed spec fn view(&self) -> Seq<LineHitView> {
        self.hits.deep_view()
    }
}

impl LineHits {
    /// No lines.
    pub fn new() -> (hits: Self)
        ensures
            hits@ == Seq::<LineHitView>::empty(),
    {
        let hits = LineHits { hits: Vec::new() };
        assert(hits@ =~= Seq::empty());
        hits
    }

    /// Whether all the hits that may be collected are.
    pub fn is_full(&self) -> (full: bool)
        ensures
            full == (self@.len() >= MAX_HITS),
    {
        self.hits.len() >= MAX_HITS
    }

    /// Takes note of a line, given whether it matched.
    pub fn note_line(&mut self, path: &str, line_no: usize, line: &str, matched: bool)
        ensures
            final(self)@ == if matched && old(self)@.len() < MAX_HITS {
                old(self)@.push(
                    LineHitView { path: path@, line_no: line_no as nat, line: line@ },
                )
            } else {
                old(self)@
            },
    {
        if matched && self.hits.len() < MAX_HITS {
            let hit = LineHit { path: path.to_string(), line_no, line: line.to_string() };
            self.hits.push(hit);
            assert(self@ =~= old(self)@.push(hit@));
        }
    }

    /// Whether the hits can be shown: long lines among them must be cut off
    /// between two characters.
    pub fn can_show(&self) -> (can: bool)
        ensures
            can == showable(self@),
    {
        let mut i: usize = 0;
        while i < self.hits.len() && i < MAX_SHOWN
            invariant
                i <= self.hits.len(),
                i <= MAX_SHOWN,
                forall|k: int| 0 <= k < i ==> cuts_cleanly((#[trigger] shown(self@)[k]).line),
            decreases self.hits.len() - i,
        {
            let line = self.hits[i].line.as_str();
            assert(shown(self@)[i as int].line == line@);
            if line.as_bytes().len() > SNIPPET_BYTES && !line.is_char_boundary(SNIPPET_BYTES) {
                return false;
            }
            i += 1;
        }
        true
    }

    /// What a search for the pattern showed. The check passes if no line matched.
    pub fn result(&self, pattern: &str) -> (result: CheckResult)
        requires
            showable(self@),
        ensures
            result@ == search_showed(pattern@, self@),
    {
        if self.hits.is_empty() {
            let mut detail = "regex `".to_string();
            detail.append(pattern);
            detail.append("` not found in repo");
            return CheckResult { passed: true, detail, duration_ms: 0 };
        }
        let ghost told = shown(self@).map_values(|hit: LineHitView| hit_told(hit));
        let mut preview: Vec<String> = Vec::new();
        let mut i: usize = 0;
        while i < self.hits.len() && i < MAX_SHOWN
            invariant
                i <= self.hits.len(),
                i <= MAX_SHOWN,
                showable(self@),
                told == shown(self@).map_values(|hit: LineHitView| hit_told(hit)),
                preview.deep_view() == told.take(i as int),
            decreases self.hits.len() - i,
        {
            let hit = &self.hits[i];
            assert(shown(self@)[i as int] == hit@);
            let mut line = hit.path.clone();
            line.append(":");
            line.append(decimal_text(hit.line_no as u64).as_str());
            line.append(": ");
            line.append(cut_line(hit.line.as_str()).as_str());
            assert(line@ == told[i as int]);
            let ghost before = preview;
            preview.push(line);
            proof {
                text::lemma_string_pushed(before, preview, line);
                assert(told.take(i + 1) =~= told.take(i as int).push(told[i as int]));
            }
            i += 1;
        }
        assert(told.take(i as int) =~= told);
        let mut detail = "regex `".to_string();
        detail.append(pattern);
        detail.append("` matched ");
        detail.append(decimal_text(self.hits.len() as u64).as_str());
        detail.append(" line(s) (showing up to 5):\n");
        detail.append(join(&preview, "\n").as_str());
        CheckResult { passed: false, detail, duration_ms: 0 }
    }
}

/// Searches files for lines that match a regex.
pub struct RegexScan {
    pattern: String,
    re: regex::Regex,
    hits: LineHits,
}

impl View for RegexScan {
    type V = RegexScanView;

    closed spec fn view(&self) -> RegexScanView {
        RegexScanView {
            pattern: self.pattern@,
            texts: matched_texts(self.re),
            hits: self.hits@,
        }
    }
}

impl RegexScan {
    /// A search for the lines that the pattern matches, or the result of the
    /// check if the pattern is refused.
    pub fn new(pattern: &str) -> (scan: Result<Self, CheckResult>)
        ensures
            match scan {
                Ok(scan) => scan@ == RegexScanView::fresh(pattern@, pattern_texts(pattern@))
                    && scan@.valid(),
                Err(result) => exists|error: regex::Error, problem: String|
                    #[trigger] call_ensures(
                        regex::Regex::new,
                        (pattern,),
                        Err::<regex::Regex, regex::Error>(error),
                    ) && #[trigger] vstd::string::to_string_from_display_ensures::<regex::Error>(
                        &error,
                        problem,
                    ) && result@ == regex_refused(pattern@, problem@),
            },
    {
        match regex::Regex::new(pattern) {
            Ok(re) => Ok(RegexScan { pattern: pattern.to_string(), re, hits: LineHits::new() }),
            Err(error) => Err(invalid_regex_result(pattern, error.to_string().as_str())),
        }
    }

    /// Whether the search has collected all the hits it may.
    pub fn is_full(&self) -> (full: bool)
        ensures
            full == (self@.hits.len() >= MAX_HITS),
    {
        self.hits.is_full()
    }

    /// Searches the lines of one more file. `path` is shown for the file.
    pub fn scan_file(&mut self, path: &str, content: &str)
        requires
            old(self)@.valid(),
        ensures
            final(self)@ == old(self)@.scanned(path@, content@),
            final(self)@.valid(),
    {
        let lines = split_lines(content);
        let ghost all = lines.deep_view();
        let ghost before = self@;
        let mut i: usize = 0;
        assert(before.hits + hits_in(path@, all.take(0), before.texts) =~= before.hits);
        while i < lines.len() && !self.hits.is_full()
            invariant
                i <= lines.len(),
                all == lines.deep_view(),
                before.valid(),
                self@.pattern == before.pattern,
                self@.texts == before.texts,
                self@.hits == before.hits + hits_in(path@, all.take(i as int), before.texts),
                self@.valid(),
            decreases lines.len() - i,
        {
            proof {
                assert(all.take(i + 1).drop_last() =~= all.take(i as int));
                assert(all.take(i + 1).last() == lines@[i as int]@);
            }
            let line = lines[i].as_str();
            let matched = self.re.is_match(line);
            self.hits.note_line(path, i + 1, line, matched);
            assert(self@.hits =~= before.hits + hits_in(path@, all.take(i + 1), before.texts));
            i += 1;
        }
        proof {
            lemma_hits_grow(path@, all, before.texts, i as int);
            if i == lines.len() {
                assert(all.take(i as int) =~= all);
            }
            assert(self@.hits =~= before.scanned(path@, content@).hits);
        }
    }

    /// Whether the hits can be shown: long lines among them must be cut off
    /// between two characters.
    pub fn can_show(&self) -> (can: bool)
        ensures
            can == showable(self@.hits),
    {
        self.hits.can_show()
    }

    /// What the search showed. The check passes if no line matched.
    pub fn result(&self) -> (result: CheckResult)
        requires
            showable(self@.hits),
        ensures
            result@ == self@.showed(),
    {
        self.hits.result(self.pattern.as_str())
    }
}

/// A search of the given files, in order. Each is a path and the file's content.
pub open spec fn scanned_all(
    scan: RegexScanView,
    files: Seq<(Seq<char>, Seq<char>)>,
) -> RegexScanView
    decreases files.len(),
{
    if files.len() == 0 {
        scan
    } else {
        scanned_all(scan, files.drop_last()).scanned(files.last().0, files.last().1)
    }
}

/// Some line of the text is among the given ones.
pub open spec fn has_line_in(content: Seq<char>, texts: Set<Seq<char>>) -> bool {
    exists|i: int|
        0 <= i < text::lines_of(content).len() && texts.contains(
            #[trigger] text::lines_of(content)[i],
        )
}

proof fn lemma_hits_are_lines(path: Seq<char>, lines: Seq<Seq<char>>, texts: Set<Seq<char>>)
    ensures
        hits_in(path, lines, texts).len() <= lines.len(),
        hits_in(path, lines, texts).len() > 0 <==> exists|i: int|
            0 <= i < lines.len() && texts.contains(#[trigger] lines[i]),
    decreases lines.len(),
{
    if lines.len() > 0 {
        let front = lines.drop_last();
        lemma_hits_are_lines(path, front, texts);
        let last = lines.len() - 1;
        assert(lines[last] == lines.last());
        if exists|i: int| 0 <= i < front.len() && texts.contains(#[trigger] front[i]) {
            let i = choose|i: int| 0 <= i < front.len() && texts.contains(#[trigger] front[i]);
            assert(lines[i] == front[i]);
        }
        if exists|i: int| 0 <= i < lines.len() && texts.contains(#[trigger] lines[i]) {
            let i = choose|i: int| 0 <= i < lines.len() && texts.contains(#[trigger] lines[i]);
            if i < last {
                assert(front[i] == lines[i]);
            }
        }
    }
}

/// A search passes exactly if no line of any file that was searched matches. It
/// never collects more hits than it may.
pub proof fn searches_pass_if_nothing_matches(
    pattern: Seq<char>,
    texts: Set<Seq<char>>,
    files: Seq<(Seq<char>, Seq<char>)>,
)
    ensures
        ({
            let scan = scanned_all(RegexScanView::fresh(pattern, texts), files);
            &&& scan.valid()
            &&& scan.pattern == pattern && scan.texts == texts
            &&& scan.showed().passed <==> forall|k: int|
                0 <= k < files.len() ==> !has_line_in((#[trigger] files[k]).1, texts)
        }),
    decreases files.len(),
{
    if files.len() > 0 {
        let front = files.drop_last();
        searches_pass_if_nothing_matches(pattern, texts, front);
        let last = files.len() - 1;
        assert(files[last] == files.last());
        lemma_hits_are_lines(files.last().0, text::lines_of(files.last().1), texts);
        if forall|k: int| 0 <= k < files.len() ==> !has_line_in((#[trigger] files[k]).1, texts) {
            assert forall|k: int| 0 <= k < front.len() implies !has_line_in(
                (#[trigger] front[k]).1,
                texts,
            ) by {
                assert(front[k] == files[k]);
            }
        }
        let before = scanned_all(RegexScanView::fresh(pattern, texts), front);
        if before.hits.len() == 0 && !has_line_in(files.last().1, texts) {
            assert forall|k: int| 0 <= k < files.len() implies !has_line_in(
                (#[trigger] files[k]).1,
                texts,
            ) by {
                if k < last {
                    assert(files[k] == front[k]);
                }
            }
        } else if before.hits.len() > 0 {
            let k = choose|k: int|
                0 <= k < front.len() && has_line_in((#[trigger] front[k]).1, texts);
            assert(files[k] == front[k]);
        }
    }
}

} // verus!
