//! Text handling on sequences of characters.
//!
//! A string is modelled by its view, the sequence of its characters. The spec
//! functions below say what trimming, searching, splitting and formatting mean
//! on such sequences; the executable functions compute them.
use vstd::prelude::*;
use vstd::utf8::*;

verus! {

/// `String::push` appends one character to the end of a string.
pub assume_specification[ String::push ](s: &mut String, c: char)
    ensures
        final(s)@ == old(s)@.push(c),
;

/// The characters with the Unicode property `White_Space`.
pub open spec fn is_white_space(c: char) -> bool {
    ||| '\u{9}' <= c <= '\u{d}'
    ||| c == ' '
    ||| c == '\u{85}'
    ||| c == '\u{a0}'
    ||| c == '\u{1680}'
    ||| '\u{2000}' <= c <= '\u{200a}'
    ||| c == '\u{2028}'
    ||| c == '\u{2029}'
    ||| c == '\u{202f}'
    ||| c == '\u{205f}'
    ||| c == '\u{3000}'
}

/// `s` without the white space at its front.
pub open spec fn trim_start(s: Seq<char>) -> Seq<char>
    decreases s.len(),
{
    if s.len() > 0 && is_white_space(s[0]) {
        trim_start(s.drop_first())
    } else {
        s
    }
}

/// `s` without the white space at its back.
pub open spec fn trim_end(s: Seq<char>) -> Seq<char>
    decreases s.len(),
{
    if s.len() > 0 && is_white_space(s.last()) {
        trim_end(s.drop_last())
    } else {
        s
    }
}

/// `s` without the white space at either end.
pub open spec fn trimmed(s: Seq<char>) -> Seq<char> {
    trim_end(trim_start(s))
}

/// `c` in lower case if it is an ASCII letter, else `c`.
pub open spec fn lower_char(c: char) -> char {
    if 'A' <= c <= 'Z' {
        ((c as u8) + 32) as char
    } else {
        c
    }
}

/// `s` with its ASCII letters in lower case.
pub open spec fn lowered(s: Seq<char>) -> Seq<char> {
    s.map_values(|c: char| lower_char(c))
}

/// The form under which names are looked up: trimmed, in ASCII lower case.
pub open spec fn normalized(s: Seq<char>) -> Seq<char> {
    lowered(trimmed(s))
}

/// `needle` stands in `hay` at index `i`.
pub open spec fn occurs_at(hay: Seq<char>, needle: Seq<char>, i: int) -> bool {
    &&& 0 <= i
    &&& i + needle.len() <= hay.len()
    &&& hay.subrange(i, i + needle.len()) == needle
}

/// The first index from `from` on at which `needle` stands in `hay`.
pub open spec fn find_from(hay: Seq<char>, needle: Seq<char>, from: int) -> Option<int>
    decreases hay.len() + 1 - from,
{
    if from < 0 || from + needle.len() > hay.len() {
        None
    } else if occurs_at(hay, needle, from) {
        Some(from)
    } else {
        find_from(hay, needle, from + 1)
    }
}

/// The first index at which `needle` stands in `hay`.
pub open spec fn find(hay: Seq<char>, needle: Seq<char>) -> Option<int> {
    find_from(hay, needle, 0)
}

/// The last index at which `hay` holds `c`.
pub open spec fn rfind_char(hay: Seq<char>, c: char) -> Option<int>
    decreases hay.len(),
{
    if hay.len() == 0 {
        None
    } else if hay.last() == c {
        Some(hay.len() - 1)
    } else {
        rfind_char(hay.drop_last(), c)
    }
}

/// The character for a digit below ten.
pub open spec fn digit_char(d: nat) -> char {
    (48 + d) as char
}

/// `n` in decimal, without leading zeros.
pub open spec fn decimal(n: nat) -> Seq<char>
    decreases n,
{
    if n < 10 {
        seq![digit_char(n)]
    } else {
        decimal(n / 10).push(digit_char(n % 10))
    }
}

/// The parts one after the other, with `sep` between neighbours.
pub open spec fn joined(parts: Seq<Seq<char>>, sep: Seq<char>) -> Seq<char>
    decreases parts.len(),
{
    if parts.len() == 0 {
        Seq::empty()
    } else if parts.len() == 1 {
        parts[0]
    } else {
        joined(parts.drop_last(), sep) + sep + parts.last()
    }
}

/// The number of characters before the first white space in `s`.
pub open spec fn word_len(s: Seq<char>) -> nat
    decreases s.len(),
{
    if s.len() == 0 || is_white_space(s[0]) {
        0
    } else {
        1 + word_len(s.drop_first())
    }
}

/// The maximal runs of characters other than white space, in order.
pub open spec fn words(s: Seq<char>) -> Seq<Seq<char>>
    decreases s.len(),
{
    let t = trim_start(s);
    proof {
        lemma_trim_start_suffix(s);
        lemma_word_len_bound(t);
    }
    if t.len() == 0 {
        Seq::empty()
    } else {
        seq![t.take(word_len(t) as int)] + words(t.skip(word_len(t) as int))
    }
}

/// `s` without a carriage return at its end.
pub open spec fn without_cr(s: Seq<char>) -> Seq<char> {
    if s.len() > 0 && s.last() == '\r' {
        s.drop_last()
    } else {
        s
    }
}

/// The number of characters before the first line feed in `s`.
pub open spec fn line_len(s: Seq<char>) -> nat
    decreases s.len(),
{
    if s.len() == 0 || s[0] == '\n' {
        0
    } else {
        1 + line_len(s.drop_first())
    }
}

/// The lines of a text. A line ends at a line feed, which is dropped together
/// with a carriage return right before it; the last line may lack its end.
pub open spec fn lines_of(s: Seq<char>) -> Seq<Seq<char>>
    decreases s.len(),
{
    let k = line_len(s) as int;
    proof {
        lemma_line_len_bound(s);
    }
    if s.len() == 0 {
        Seq::empty()
    } else if k == s.len() {
        seq![s]
    } else {
        seq![without_cr(s.take(k))] + lines_of(s.skip(k + 1))
    }
}

pub proof fn lemma_trim_start_suffix(s: Seq<char>)
    ensures
        trim_start(s).len() <= s.len(),
        trim_start(s) == s.skip(s.len() - trim_start(s).len()),
        trim_start(s).len() > 0 ==> !is_white_space(trim_start(s)[0]),
    decreases s.len(),
{
    if s.len() > 0 && is_white_space(s[0]) {
        lemma_trim_start_suffix(s.drop_first());
        assert(s.drop_first().skip(s.len() - 1 - trim_start(s).len()) =~= s.skip(
            s.len() - trim_start(s).len(),
        ));
    } else {
        assert(s.skip(0) =~= s);
    }
}

pub proof fn lemma_trim_end_prefix(s: Seq<char>)
    ensures
        trim_end(s).len() <= s.len(),
        trim_end(s) == s.take(trim_end(s).len() as int),
        trim_end(s).len() > 0 ==> !is_white_space(trim_end(s).last()),
    decreases s.len(),
{
    if s.len() > 0 && is_white_space(s.last()) {
        lemma_trim_end_prefix(s.drop_last());
        assert(s.drop_last().take(trim_end(s).len() as int) =~= s.take(trim_end(s).len() as int));
    } else {
        assert(s.take(s.len() as int) =~= s);
    }
}

pub proof fn lemma_word_len_bound(s: Seq<char>)
    ensures
        word_len(s) <= s.len(),
        s.len() > 0 && !is_white_space(s[0]) ==> word_len(s) > 0,
        word_len(s) < s.len() ==> is_white_space(s[word_len(s) as int]),
        forall|i: int| 0 <= i < word_len(s) ==> !is_white_space(#[trigger] s[i]),
    decreases s.len(),
{
    if s.len() > 0 && !is_white_space(s[0]) {
        lemma_word_len_bound(s.drop_first());
        assert forall|i: int| 0 <= i < word_len(s) implies !is_white_space(#[trigger] s[i]) by {
            if i > 0 {
                assert(s[i] == s.drop_first()[i - 1]);
            }
        }
    }
}

pub proof fn lemma_line_len_bound(s: Seq<char>)
    ensures
        line_len(s) <= s.len(),
        line_len(s) < s.len() ==> s[line_len(s) as int] == '\n',
        forall|i: int| 0 <= i < line_len(s) ==> #[trigger] s[i] != '\n',
    decreases s.len(),
{
    if s.len() > 0 && s[0] != '\n' {
        lemma_line_len_bound(s.drop_first());
        assert forall|i: int| 0 <= i < line_len(s) implies #[trigger] s[i] != '\n' by {
            if i > 0 {
                assert(s[i] == s.drop_first()[i - 1]);
            }
        }
    }
}

pub proof fn lemma_find_from(hay: Seq<char>, needle: Seq<char>, from: int)
    requires
        0 <= from,
    ensures
        match find_from(hay, needle, from) {
            Some(i) => from <= i && occurs_at(hay, needle, i) && forall|k: int|
                from <= k < i ==> !#[trigger] occurs_at(hay, needle, k),
            None => forall|k: int| from <= k ==> !#[trigger] occurs_at(hay, needle, k),
        },
    decreases hay.len() + 1 - from,
{
    if from + needle.len() <= hay.len() && !occurs_at(hay, needle, from) {
        lemma_find_from(hay, needle, from + 1);
    }
}

/// What is found stands where it was found, and nowhere before.
pub proof fn lemma_find(hay: Seq<char>, needle: Seq<char>)
    ensures
        match find(hay, needle) {
            Some(i) => occurs_at(hay, needle, i) && forall|k: int|
                0 <= k < i ==> !#[trigger] occurs_at(hay, needle, k),
            None => forall|k: int| !#[trigger] occurs_at(hay, needle, k),
        },
{
    lemma_find_from(hay, needle, 0);
}

/// The character that is found last stands where it was found, and nowhere after.
pub proof fn lemma_rfind_char(hay: Seq<char>, c: char)
    ensures
        match rfind_char(hay, c) {
            Some(i) => 0 <= i < hay.len() && hay[i] == c && forall|k: int|
                i < k < hay.len() ==> #[trigger] hay[k] != c,
            None => !hay.contains(c),
        },
    decreases hay.len(),
{
    if hay.len() > 0 && hay.last() != c {
        let front = hay.drop_last();
        lemma_rfind_char(front, c);
        match rfind_char(front, c) {
            Some(i) => {
                assert forall|k: int| i < k < hay.len() implies #[trigger] hay[k] != c by {
                    if k < front.len() {
                        assert(front[k] == hay[k]);
                    }
                }
            },
            None => {
                assert forall|k: int| 0 <= k < hay.len() implies hay[k] != c by {
                    if k < front.len() {
                        assert(front[k] == hay[k]);
                        assert(front.contains(front[k]));
                    }
                }
            },
        }
    }
}

/// Trimmed text has no white space at either end, so trimming it again changes
/// nothing.
pub proof fn trimming_is_stable(s: Seq<char>)
    ensures
        trimmed(s).len() > 0 ==> !is_white_space(trimmed(s)[0]) && !is_white_space(
            trimmed(s).last(),
        ),
        trimmed(trimmed(s)) == trimmed(s),
{
    lemma_trim_start_suffix(s);
    lemma_trim_end_prefix(trim_start(s));
}

/// `part` stands somewhere in `whole`.
pub open spec fn stands_in(part: Seq<char>, whole: Seq<char>) -> bool {
    exists|i: int| #[trigger] occurs_at(whole, part, i)
}

pub proof fn lemma_subrange_stands_in(whole: Seq<char>, a: int, b: int)
    requires
        0 <= a <= b <= whole.len(),
    ensures
        stands_in(whole.subrange(a, b), whole),
{
    assert(occurs_at(whole, whole.subrange(a, b), a));
}

pub proof fn lemma_parts_nest(part: Seq<char>, middle: Seq<char>, whole: Seq<char>)
    requires
        stands_in(part, middle),
        stands_in(middle, whole),
    ensures
        stands_in(part, whole),
{
    let i = choose|i: int| #[trigger] occurs_at(middle, part, i);
    let k = choose|k: int| #[trigger] occurs_at(whole, middle, k);
    assert(whole.subrange(k + i, k + i + part.len()) =~= whole.subrange(
        k,
        k + middle.len(),
    ).subrange(i, i + part.len()));
    assert(occurs_at(whole, part, k + i));
}

pub proof fn lemma_trimmed_stands_in(s: Seq<char>)
    ensures
        stands_in(trimmed(s), s),
{
    lemma_trim_start_suffix(s);
    let t = trim_start(s);
    lemma_trim_end_prefix(t);
    let a = s.len() - t.len();
    let n = trimmed(s).len();
    assert(s.subrange(a, a + n) =~= trimmed(s));
    lemma_subrange_stands_in(s, a, a + n);
}

/// Pushing a string onto a list pushes its characters onto the list's view.
pub proof fn lemma_string_pushed(before: Vec<String>, after: Vec<String>, s: String)
    requires
        after@ == before@.push(s),
    ensures
        after.deep_view() == before.deep_view().push(s@),
{
    assert(after.deep_view() =~= before.deep_view().push(s@));
}

/// Whether two strings hold the same characters.
pub fn same_text(a: &str, b: &str) -> (same: bool)
    ensures
        same == (a@ == b@),
{
    let x = a.as_bytes();
    let y = b.as_bytes();
    proof {
        encode_utf8_decode_utf8(a@);
        encode_utf8_decode_utf8(b@);
    }
    if x.len() != y.len() {
        return false;
    }
    let mut i: usize = 0;
    while i < x.len()
        invariant
            i <= x.len() == y.len(),
            x@ == encode_utf8(a@),
            y@ == encode_utf8(b@),
            forall|k: int| 0 <= k < i ==> x@[k] == y@[k],
        decreases x.len() - i,
    {
        if x[i] != y[i] {
            return false;
        }
        i += 1;
    }
    assert(x@ =~= y@);
    true
}

/// The characters of a string.
pub fn chars_of(s: &str) -> (chars: Vec<char>)
    ensures
        chars@ == s@,
{
    let mut chars: Vec<char> = Vec::new();
    for c in it: s.chars()
        invariant
            chars@ == it.seq().take(it.index()),
            it.seq() == s@,
    {
        chars.push(c);
    }
    chars
}

/// The string that holds the characters from `from` up to `to`.
pub fn string_of(chars: &Vec<char>, from: usize, to: usize) -> (s: String)
    requires
        from <= to <= chars.len(),
    ensures
        s@ == chars@.subrange(from as int, to as int),
{
    let mut s = String::new();
    let mut i: usize = from;
    assert(chars@.subrange(from as int, from as int) =~= Seq::<char>::empty());
    while i < to
        invariant
            from <= i <= to <= chars.len(),
            s@ == chars@.subrange(from as int, i as int),
        decreases to - i,
    {
        s.push(chars[i]);
        i += 1;
        assert(chars@.subrange(from as int, i as int) =~= chars@.subrange(
            from as int,
            i - 1,
        ).push(chars@[i - 1]));
    }
    s
}

/// Whether a character has the Unicode property `White_Space`.
pub fn white_space(c: char) -> (b: bool)
    ensures
        b == is_white_space(c),
{
    ('\u{9}' <= c && c <= '\u{d}') || c == ' ' || c == '\u{85}' || c == '\u{a0}' || c == '\u{1680}'
        || ('\u{2000}' <= c && c <= '\u{200a}') || c == '\u{2028}' || c == '\u{2029}' || c
        == '\u{202f}' || c == '\u{205f}' || c == '\u{3000}'
}

/// Where the text between `from` and `to` begins and ends once its white space
/// is trimmed.
pub fn trim_range(chars: &Vec<char>, from: usize, to: usize) -> (range: (usize, usize))
    requires
        from <= to <= chars.len(),
    ensures
        from <= range.0 <= range.1 <= to,
        chars@.subrange(range.0 as int, range.1 as int) == trimmed(
            chars@.subrange(from as int, to as int),
        ),
{
    let ghost whole = chars@.subrange(from as int, to as int);
    let mut a: usize = from;
    while a < to && white_space(chars[a])
        invariant
            from <= a <= to <= chars.len(),
            trim_start(chars@.subrange(a as int, to as int)) == trim_start(whole),
        decreases to - a,
    {
        assert(chars@.subrange(a as int, to as int).drop_first() =~= chars@.subrange(
            a + 1,
            to as int,
        ));
        a += 1;
    }
    let mut b: usize = to;
    assert(trim_start(whole) == chars@.subrange(a as int, b as int));
    while a < b && white_space(chars[b - 1])
        invariant
            from <= a <= b <= to <= chars.len(),
            trim_end(chars@.subrange(a as int, b as int)) == trim_end(trim_start(whole)),
        decreases b - a,
    {
        assert(chars@.subrange(a as int, b as int).drop_last() =~= chars@.subrange(
            a as int,
            b - 1,
        ));
        b -= 1;
    }
    (a, b)
}

/// The string without the white space at either end.
pub fn trim(s: &str) -> (t: &str)
    ensures
        t@ == trimmed(s@),
{
    let chars = chars_of(s);
    let range: (usize, usize) = trim_range(&chars, 0, chars.len());
    assert(chars@.subrange(0, chars.len() as int) =~= s@);
    s.substring_char(range.0, range.1)
}

/// The character in lower case if it is an ASCII letter, else the character.
pub fn to_lower(c: char) -> (l: char)
    ensures
        l == lower_char(c),
{
    if 'A' <= c && c <= 'Z' {
        (c as u8 + 32) as char
    } else {
        c
    }
}

/// The string trimmed and in ASCII lower case.
pub fn normalize(s: &str) -> (n: String)
    ensures
        n@ == normalized(s@),
{
    let chars = chars_of(s);
    let range: (usize, usize) = trim_range(&chars, 0, chars.len());
    assert(chars@.subrange(0, chars.len() as int) =~= s@);
    let ghost t = trimmed(s@);
    let mut n = String::new();
    let mut i: usize = range.0;
    while i < range.1
        invariant
            range.0 <= i <= range.1 <= chars.len(),
            t == chars@.subrange(range.0 as int, range.1 as int),
            n@ == lowered(t.take(i - range.0)),
        decreases range.1 - i,
    {
        n.push(to_lower(chars[i]));
        i += 1;
        assert(n@ =~= lowered(t.take(i - range.0)));
    }
    assert(t.take(range.1 - range.0) =~= t);
    n
}

/// The first place at which `needle` stands between `from` and `to`.
pub fn find_in(chars: &Vec<char>, from: usize, to: usize, needle: &str) -> (at: Option<usize>)
    requires
        from <= to <= chars.len(),
    ensures
        match (at, find(chars@.subrange(from as int, to as int), needle@)) {
            (Some(k), Some(i)) => from <= k == from + i && k + needle@.len() <= to,
            (None, None) => true,
            _ => false,
        },
{
    let ghost hay = chars@.subrange(from as int, to as int);
    let pattern = chars_of(needle);
    let mut i: usize = from;
    while pattern.len() <= to - i
        invariant
            from <= i <= to <= chars.len(),
            pattern@ == needle@,
            hay == chars@.subrange(from as int, to as int),
            find(hay, needle@) == find_from(hay, needle@, i - from),
        decreases to - i,
    {
        let mut k: usize = 0;
        while k < pattern.len() && chars[i + k] == pattern[k]
            invariant
                from <= i <= to <= chars.len(),
                pattern@ == needle@,
                pattern.len() <= to - i,
                k <= pattern.len(),
                hay == chars@.subrange(from as int, to as int),
                forall|j: int| 0 <= j < k ==> hay[i - from + j] == needle@[j],
            decreases pattern.len() - k,
        {
            k += 1;
        }
        let ghost here = hay.subrange(i - from, i - from + needle@.len());
        if k == pattern.len() {
            assert(here =~= needle@);
            return Some(i);
        }
        assert(here[k as int] != needle@[k as int]);
        if i == to {
            return None;
        }
        i += 1;
    }
    None
}

/// The last place at which `c` stands between `from` and `to`.
pub fn rfind_in(chars: &Vec<char>, from: usize, to: usize, c: char) -> (at: Option<usize>)
    requires
        from <= to <= chars.len(),
    ensures
        match (at, rfind_char(chars@.subrange(from as int, to as int), c)) {
            (Some(k), Some(i)) => from <= k == from + i && k < to,
            (None, None) => true,
            _ => false,
        },
{
    let ghost hay = chars@.subrange(from as int, to as int);
    let mut end: usize = to;
    while from < end
        invariant
            from <= end <= to <= chars.len(),
            hay == chars@.subrange(from as int, to as int),
            rfind_char(hay, c) == rfind_char(chars@.subrange(from as int, end as int), c),
        decreases end - from,
    {
        if chars[end - 1] == c {
            return Some(end - 1);
        }
        assert(chars@.subrange(from as int, end as int).drop_last() =~= chars@.subrange(
            from as int,
            end - 1,
        ));
        end -= 1;
    }
    None
}

/// A number in decimal.
pub fn decimal_text(n: u64) -> (s: String)
    ensures
        s@ == decimal(n as nat),
    decreases n,
{
    if n < 10 {
        let mut s = String::new();
        s.push((48 + n as u8) as char);
        assert(s@ =~= seq![digit_char(n as nat)]);
        s
    } else {
        let mut s = decimal_text(n / 10);
        s.push((48 + (n % 10) as u8) as char);
        s
    }
}

/// The parts one after the other, with `sep` between neighbours.
pub fn join(parts: &Vec<String>, sep: &str) -> (s: String)
    ensures
        s@ == joined(parts.deep_view(), sep@),
{
    let ghost all = parts.deep_view();
    let mut s = String::new();
    let mut i: usize = 0;
    while i < parts.len()
        invariant
            i <= parts.len(),
            all == parts.deep_view(),
            s@ == joined(all.take(i as int), sep@),
        decreases parts.len() - i,
    {
        proof {
            assert(all.take(i + 1).drop_last() =~= all.take(i as int));
        }
        if i > 0 {
            s.append(sep);
        }
        s.append(parts[i].as_str());
        i += 1;
        assert(s@ =~= joined(all.take(i as int), sep@));
    }
    assert(all.take(all.len() as int) =~= all);
    s
}

/// The maximal runs of characters other than white space, in order.
pub fn split_words(s: &str) -> (parts: Vec<String>)
    ensures
        parts.deep_view() == words(s@),
{
    let chars = chars_of(s);
    let mut parts: Vec<String> = Vec::new();
    let mut i: usize = 0;
    assert(s@.skip(0) =~= s@);
    assert(parts.deep_view() + words(s@) =~= words(s@));
    while i < chars.len()
        invariant
            i <= chars.len(),
            chars@ == s@,
            parts.deep_view() + words(s@.skip(i as int)) == words(s@),
        decreases chars.len() - i,
    {
        let ghost rest = s@.skip(i as int);
        let mut a: usize = i;
        while a < chars.len() && white_space(chars[a])
            invariant
                i <= a <= chars.len(),
                chars@ == s@,
                trim_start(s@.skip(a as int)) == trim_start(rest),
            decreases chars.len() - a,
        {
            assert(s@.skip(a as int).drop_first() =~= s@.skip(a + 1));
            a += 1;
        }
        let ghost t = s@.skip(a as int);
        assert(trim_start(rest) == t);
        let mut b: usize = a;
        assert(t.skip(0) =~= t);
        while b < chars.len() && !white_space(chars[b])
            invariant
                a <= b <= chars.len(),
                chars@ == s@,
                t == s@.skip(a as int),
                word_len(t) == b - a + word_len(t.skip(b - a)),
            decreases chars.len() - b,
        {
            assert(t.skip(b - a).drop_first() =~= t.skip(b + 1 - a));
            b += 1;
        }
        let ghost before = parts.deep_view();
        if a < b {
            parts.push(string_of(&chars, a, b));
            proof {
                assert(chars@.subrange(a as int, b as int) =~= t.take(b - a));
                assert(parts.deep_view() =~= before.push(t.take(b - a)));
                assert(t.skip(b - a) =~= s@.skip(b as int));
                assert(words(rest) == seq![t.take(b - a)] + words(t.skip(b - a)));
                assert(before.push(t.take(b - a)) + words(s@.skip(b as int)) =~= before + words(
                    rest,
                ));
            }
        } else {
            proof {
                assert(t.len() == 0);
                assert(words(rest) =~= Seq::<Seq<char>>::empty());
                assert(s@.skip(b as int).len() == 0);
                lemma_trim_start_suffix(s@.skip(b as int));
                assert(words(s@.skip(b as int)) =~= Seq::<Seq<char>>::empty());
            }
        }
        i = b;
    }
    proof {
        lemma_trim_start_suffix(s@.skip(i as int));
        assert(parts.deep_view() + words(s@.skip(i as int)) =~= parts.deep_view());
    }
    parts
}

/// Where the line that begins at `from` ends: at a line feed, or at the end.
fn line_end(chars: &Vec<char>, from: usize) -> (end: usize)
    requires
        from <= chars.len(),
    ensures
        from <= end <= chars.len(),
        end - from == line_len(chars@.skip(from as int)),
{
    let ghost rest = chars@.skip(from as int);
    let mut b: usize = from;
    assert(rest.skip(0) =~= rest);
    while b < chars.len() && chars[b] != '\n'
        invariant
            from <= b <= chars.len(),
            rest == chars@.skip(from as int),
            line_len(rest) == b - from + line_len(rest.skip(b - from)),
        decreases chars.len() - b,
    {
        assert(rest.skip(b - from).drop_first() =~= rest.skip(b + 1 - from));
        b += 1;
    }
    b
}

/// The lines of a text.
pub fn split_lines(s: &str) -> (lines: Vec<String>)
    ensures
        lines.deep_view() == lines_of(s@),
{
    let chars = chars_of(s);
    let mut lines: Vec<String> = Vec::new();
    let mut i: usize = 0;
    assert(s@.skip(0) =~= s@);
    assert(lines.deep_view() + lines_of(s@) =~= lines_of(s@));
    while i < chars.len()
        invariant
            i <= chars.len(),
            chars@ == s@,
            lines.deep_view() + lines_of(s@.skip(i as int)) == lines_of(s@),
        decreases chars.len() - i,
    {
        let ghost rest = s@.skip(i as int);
        let ghost before = lines;
        let b: usize = line_end(&chars, i);
        let end: usize = if b < chars.len() && b > i && chars[b - 1] == '\r' {
            b - 1
        } else {
            b
        };
        let line = string_of(&chars, i, end);
        let next: usize = if b < chars.len() {
            b + 1
        } else {
            b
        };
        proof {
            assert(rest.take(b - i) =~= chars@.subrange(i as int, b as int));
            if b < chars.len() {
                assert(without_cr(rest.take(b - i)) =~= line@);
                assert(rest.skip(b - i + 1) =~= s@.skip(next as int));
            } else {
                assert(line@ =~= rest);
                assert(lines_of(s@.skip(next as int)) =~= Seq::<Seq<char>>::empty());
            }
            assert(lines_of(rest) =~= seq![line@] + lines_of(s@.skip(next as int)));
        }
        lines.push(line);
        proof {
            lemma_string_pushed(before, lines, line);
            assert(before.deep_view().push(line@) + lines_of(s@.skip(next as int))
                =~= before.deep_view() + lines_of(rest));
        }
        i = next;
    }
    assert(lines.deep_view() + lines_of(s@.skip(i as int)) =~= lines.deep_view());
    lines
}

/// Whether a list holds a text.
pub fn holds_text(list: &Vec<String>, s: &str) -> (holds: bool)
    ensures
        holds == list.deep_view().contains(s@),
{
    let mut i: usize = 0;
    while i < list.len()
        invariant
            i <= list.len(),
            forall|k: int| 0 <= k < i ==> list.deep_view()[k] != s@,
        decreases list.len() - i,
    {
        if same_text(list[i].as_str(), s) {
            assert(list.deep_view()[i as int] == s@);
            return true;
        }
        i += 1;
    }
    false
}

/// A list of strings with the same contents.
pub fn clone_strings(list: &Vec<String>) -> (copy: Vec<String>)
    ensures
        copy.deep_view() == list.deep_view(),
{
    let mut copy: Vec<String> = Vec::new();
    let mut i: usize = 0;
    while i < list.len()
        invariant
            i <= list.len(),
            copy.deep_view() == list.deep_view().take(i as int),
        decreases list.len() - i,
    {
        let ghost before = copy;
        copy.push(list[i].clone());
        i += 1;
        proof {
            lemma_string_pushed(before, copy, list@[i - 1]);
        }
        assert(list.deep_view().take(i - 1).push(list@[i - 1]@) =~= list.deep_view().take(
            i as int,
        ));
    }
    assert(list.deep_view().take(i as int) =~= list.deep_view());
    copy
}

} // verus!
