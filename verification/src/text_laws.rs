//! What text handling does, whatever the text.
use crate::text;
use vstd::prelude::*;

verus! {

/// White space is what Unicode counts as such, by code point: 25 characters, among
/// them the tab, the line feed, the carriage return and the space.
pub proof fn white_space_is_unicodes(c: char)
    ensures
        text::is_white_space(c) <==> {
            let code = c as int;
            ||| 0x9 <= code <= 0xd
            ||| code == 0x20 || code == 0x85 || code == 0xa0 || code == 0x1680
            ||| 0x2000 <= code <= 0x200a
            ||| code == 0x2028 || code == 0x2029 || code == 0x202f || code == 0x205f
            ||| code == 0x3000
        },
{
}

proof fn lemma_white_front(a: Seq<char>, s: Seq<char>)
    requires
        forall|i: int| 0 <= i < a.len() ==> text::is_white_space(#[trigger] a[i]),
    ensures
        text::trim_start(a + s) == text::trim_start(s),
    decreases a.len(),
{
    if a.len() > 0 {
        assert((a + s)[0] == a[0]);
        assert((a + s).drop_first() =~= a.drop_first() + s);
        assert forall|i: int| 0 <= i < a.drop_first().len() implies text::is_white_space(
            #[trigger] a.drop_first()[i],
        ) by {
            assert(a.drop_first()[i] == a[i + 1]);
        }
        lemma_white_front(a.drop_first(), s);
    } else {
        assert(a + s =~= s);
    }
}

proof fn lemma_white_back(s: Seq<char>, b: Seq<char>)
    requires
        forall|i: int| 0 <= i < b.len() ==> text::is_white_space(#[trigger] b[i]),
    ensures
        text::trim_end(s + b) == text::trim_end(s),
    decreases b.len(),
{
    if b.len() > 0 {
        assert((s + b).last() == b[b.len() - 1]);
        assert((s + b).drop_last() =~= s + b.drop_last());
        assert forall|i: int| 0 <= i < b.drop_last().len() implies text::is_white_space(
            #[trigger] b.drop_last()[i],
        ) by {
            assert(b.drop_last()[i] == b[i]);
        }
        lemma_white_back(s, b.drop_last());
    } else {
        assert(s + b =~= s);
    }
}

/// Trimming takes away the white space at both ends and nothing else: whatever
/// white space is put around a text that has none at its ends, trimming gives
/// that text back.
pub proof fn trimming_undoes_padding(a: Seq<char>, t: Seq<char>, b: Seq<char>)
    requires
        forall|i: int| 0 <= i < a.len() ==> text::is_white_space(#[trigger] a[i]),
        forall|i: int| 0 <= i < b.len() ==> text::is_white_space(#[trigger] b[i]),
        t.len() > 0 ==> !text::is_white_space(t[0]) && !text::is_white_space(t.last()),
    ensures
        text::trimmed(a + t + b) == t,
{
    assert(a + t + b =~= a + (t + b));
    lemma_white_front(a, t + b);
    if t.len() > 0 {
        assert((t + b)[0] == t[0]);
        lemma_white_back(t, b);
    } else {
        assert(t + b =~= b + t);
        lemma_white_front(b, t);
        assert(t =~= Seq::<char>::empty());
    }
}

/// Every text is its trimmed text with white space around it.
pub proof fn trimming_takes_white_space_only(s: Seq<char>)
    ensures
        exists|a: Seq<char>, b: Seq<char>|
            #![trigger a + text::trimmed(s) + b]
            {
                &&& s == a + text::trimmed(s) + b
                &&& forall|i: int| 0 <= i < a.len() ==> text::is_white_space(#[trigger] a[i])
                &&& forall|i: int| 0 <= i < b.len() ==> text::is_white_space(#[trigger] b[i])
            },
{
    let t = text::trim_start(s);
    let u = text::trimmed(s);
    text::lemma_trim_start_suffix(s);
    text::lemma_trim_end_prefix(t);
    let a = s.take(s.len() - t.len());
    let b = t.skip(u.len() as int);
    lemma_front_is_white(s);
    lemma_back_is_white(t);
    assert(s =~= a + u + b);
}

proof fn lemma_front_is_white(s: Seq<char>)
    ensures
        text::trim_start(s).len() <= s.len(),
        forall|i: int|
            0 <= i < s.len() - text::trim_start(s).len() ==> text::is_white_space(#[trigger] s[i]),
    decreases s.len(),
{
    if s.len() > 0 && text::is_white_space(s[0]) {
        lemma_front_is_white(s.drop_first());
        assert forall|i: int| 0 <= i < s.len() - text::trim_start(s).len() implies text::is_white_space(
            #[trigger] s[i],
        ) by {
            if i > 0 {
                assert(s[i] == s.drop_first()[i - 1]);
            }
        }
    }
}

proof fn lemma_back_is_white(s: Seq<char>)
    ensures
        text::trim_end(s).len() <= s.len(),
        forall|i: int|
            text::trim_end(s).len() <= i < s.len() ==> text::is_white_space(#[trigger] s[i]),
    decreases s.len(),
{
    if s.len() > 0 && text::is_white_space(s.last()) {
        lemma_back_is_white(s.drop_last());
        assert forall|i: int| text::trim_end(s).len() <= i < s.len() implies text::is_white_space(
            #[trigger] s[i],
        ) by {
            if i < s.len() - 1 {
                assert(s[i] == s.drop_last()[i]);
            }
        }
    }
}

/// Lower case moves the ASCII capitals to their small letters, and leaves every
/// other character and every place alone.
pub proof fn lower_case_changes_capitals_only(s: Seq<char>, i: int)
    requires
        0 <= i < s.len(),
    ensures
        text::lowered(s).len() == s.len(),
        'A' <= s[i] <= 'Z' ==> text::lowered(s)[i] as int == s[i] as int + 32,
        !('A' <= s[i] <= 'Z') ==> text::lowered(s)[i] == s[i],
{
}

/// A name is looked up without the white space around it, in lower case.
pub proof fn names_are_looked_up_bare(a: Seq<char>, t: Seq<char>, b: Seq<char>)
    requires
        forall|i: int| 0 <= i < a.len() ==> text::is_white_space(#[trigger] a[i]),
        forall|i: int| 0 <= i < b.len() ==> text::is_white_space(#[trigger] b[i]),
        t.len() > 0 ==> !text::is_white_space(t[0]) && !text::is_white_space(t.last()),
    ensures
        text::normalized(a + t + b) == text::lowered(t),
{
    trimming_undoes_padding(a, t, b);
}

/// One text stands at a place in another exactly if the other is made of it, of as
/// many characters before it as the place says, and of something after it.
pub proof fn standing_is_literal(hay: Seq<char>, needle: Seq<char>, i: int)
    ensures
        text::occurs_at(hay, needle, i) <==> exists|pre: Seq<char>, post: Seq<char>|
            #![trigger pre + needle + post]
            hay == pre + needle + post && pre.len() == i,
{
    if text::occurs_at(hay, needle, i) {
        let pre = hay.take(i);
        let post = hay.skip(i + needle.len());
        assert forall|k: int| 0 <= k < needle.len() implies hay[i + k] == needle[k] by {
            assert(hay.subrange(i, i + needle.len())[k] == needle[k]);
        }
        assert(hay =~= pre + needle + post);
    }
    if exists|pre: Seq<char>, post: Seq<char>|
        #![trigger pre + needle + post]
        hay == pre + needle + post && pre.len() == i {
        let (pre, post) = choose|pre: Seq<char>, post: Seq<char>|
            #![trigger pre + needle + post]
            hay == pre + needle + post && pre.len() == i;
        assert(hay.subrange(i, i + needle.len()) =~= needle);
    }
}

/// One text stands in another exactly if the other is made of it and of something
/// before and after it.
pub proof fn parts_stand_in_their_whole(part: Seq<char>, whole: Seq<char>)
    ensures
        text::stands_in(part, whole) <==> exists|pre: Seq<char>, post: Seq<char>|
            whole == #[trigger] (pre + part + post),
{
    if text::stands_in(part, whole) {
        let i = choose|i: int| #[trigger] text::occurs_at(whole, part, i);
        standing_is_literal(whole, part, i);
    }
    if exists|pre: Seq<char>, post: Seq<char>| whole == #[trigger] (pre + part + post) {
        let (pre, post) = choose|pre: Seq<char>, post: Seq<char>|
            whole == #[trigger] (pre + part + post);
        standing_is_literal(whole, part, pre.len() as int);
        assert(text::occurs_at(whole, part, pre.len() as int));
    }
}

/// What stands between a text before it and a text after it is found there, if it
/// stands nowhere earlier.
pub proof fn the_first_place_is_found(pre: Seq<char>, needle: Seq<char>, post: Seq<char>)
    requires
        forall|k: int|
            0 <= k < pre.len() ==> !#[trigger] text::occurs_at(pre + needle + post, needle, k),
    ensures
        text::find(pre + needle + post, needle) == Some(pre.len() as int),
{
    let hay = pre + needle + post;
    text::lemma_find(hay, needle);
    standing_is_literal(hay, needle, pre.len() as int);
    assert(text::occurs_at(hay, needle, pre.len() as int));
}

/// What stands nowhere is not found.
pub proof fn what_is_absent_is_not_found(hay: Seq<char>, needle: Seq<char>)
    requires
        forall|k: int| !#[trigger] text::occurs_at(hay, needle, k),
    ensures
        text::find(hay, needle) is None,
{
    text::lemma_find(hay, needle);
}

/// The last of a character is found where nothing after it is that character.
pub proof fn the_last_place_is_found(pre: Seq<char>, c: char, post: Seq<char>)
    requires
        !post.contains(c),
    ensures
        text::rfind_char(pre.push(c) + post, c) == Some(pre.len() as int),
        text::rfind_char(post, c) is None,
{
    let hay = pre.push(c) + post;
    text::lemma_rfind_char(hay, c);
    text::lemma_rfind_char(post, c);
    assert(hay[pre.len() as int] == c);
    assert(hay.contains(c));
    let i = text::rfind_char(hay, c)->0;
    if i > pre.len() {
        assert(post[i - pre.len() - 1] == c);
        assert(post.contains(c));
    }
    if let Some(k) = text::rfind_char(post, c) {
        assert(post.contains(post[k]));
    }
}

/// The number that decimal digits stand for.
pub open spec fn number_of(digits: Seq<char>) -> int
    decreases digits.len(),
{
    if digits.len() == 0 {
        0
    } else {
        number_of(digits.drop_last()) * 10 + (digits.last() as int - '0' as int)
    }
}

/// A number in decimal reads as that number. It is made of digits, and starts with
/// a zero only if it is zero. So different numbers read differently.
pub proof fn decimals_read_back(n: nat, other: nat)
    ensures
        number_of(text::decimal(n)) == n,
        text::decimal(n).len() > 0,
        forall|i: int|
            0 <= i < text::decimal(n).len() ==> '0' <= #[trigger] text::decimal(n)[i] <= '9',
        text::decimal(n)[0] == '0' ==> n == 0 && text::decimal(n).len() == 1,
        text::decimal(n) == text::decimal(other) ==> n == other,
{
    lemma_decimal(n);
    lemma_decimal(other);
}

proof fn lemma_decimal(n: nat)
    ensures
        number_of(text::decimal(n)) == n,
        text::decimal(n).len() > 0,
        forall|i: int|
            0 <= i < text::decimal(n).len() ==> '0' <= #[trigger] text::decimal(n)[i] <= '9',
        text::decimal(n)[0] == '0' ==> n == 0 && text::decimal(n).len() == 1,
    decreases n,
{
    let d = text::decimal(n);
    if n < 10 {
        assert(d.drop_last() =~= Seq::<char>::empty());
        assert(number_of(d.drop_last()) == 0);
    } else {
        lemma_decimal(n / 10);
        assert(d.drop_last() =~= text::decimal(n / 10));
    }
}

/// Joining sets the separator between neighbours: the join of two lists in a row is
/// their joins with the separator between, and a single part is left as it is.
pub proof fn joining_splits(a: Seq<Seq<char>>, b: Seq<Seq<char>>, part: Seq<char>, sep: Seq<char>)
    ensures
        text::joined(seq![part], sep) == part,
        text::joined(Seq::<Seq<char>>::empty(), sep) == Seq::<char>::empty(),
        a.len() > 0 && b.len() > 0 ==> text::joined(a + b, sep) == text::joined(a, sep) + sep
            + text::joined(b, sep),
{
    if a.len() > 0 && b.len() > 0 {
        lemma_joined(a, b, sep);
    }
}

proof fn lemma_joined(a: Seq<Seq<char>>, b: Seq<Seq<char>>, sep: Seq<char>)
    requires
        a.len() > 0,
        b.len() > 0,
    ensures
        text::joined(a + b, sep) == text::joined(a, sep) + sep + text::joined(b, sep),
    decreases b.len(),
{
    assert((a + b).drop_last() =~= a + b.drop_last());
    assert((a + b).last() == b.last());
    if b.len() == 1 {
        assert(a + b.drop_last() =~= a);
        assert(b[0] == b.last());
    } else {
        lemma_joined(a, b.drop_last(), sep);
        assert(text::joined(a + b, sep) =~= text::joined(a, sep) + sep + text::joined(b, sep));
    }
}

/// The words of a text depend on nothing before the first of them.
proof fn lemma_words_skip_white(s: Seq<char>)
    ensures
        text::words(s) == text::words(text::trim_start(s)),
{
    let t = text::trim_start(s);
    text::lemma_trim_start_suffix(s);
    assert(text::trim_start(t) == t);
}

proof fn lemma_word_ends(w: Seq<char>, c: char, b: Seq<char>)
    requires
        text::is_white_space(c),
    ensures
        text::word_len(w.push(c) + b) == text::word_len(w),
    decreases w.len(),
{
    let s = w.push(c) + b;
    assert(s[0] == if w.len() > 0 {
        w[0]
    } else {
        c
    });
    if w.len() > 0 && !text::is_white_space(w[0]) {
        assert(s.drop_first() =~= w.drop_first().push(c) + b);
        lemma_word_ends(w.drop_first(), c, b);
    }
}

proof fn lemma_trim_start_splits(a: Seq<char>, c: char, b: Seq<char>)
    requires
        text::is_white_space(c),
    ensures
        text::trim_start(a).len() > 0 ==> text::trim_start(a.push(c) + b) == text::trim_start(
            a,
        ).push(c) + b,
        text::trim_start(a).len() == 0 ==> text::trim_start(a.push(c) + b) == text::trim_start(b),
    decreases a.len(),
{
    let s = a.push(c) + b;
    if a.len() == 0 {
        assert(s[0] == c);
        assert(s.drop_first() =~= b);
    } else {
        assert(s[0] == a[0]);
        if text::is_white_space(a[0]) {
            assert(s.drop_first() =~= a.drop_first().push(c) + b);
            lemma_trim_start_splits(a.drop_first(), c, b);
        }
    }
}

/// White space splits a text into words: the words on both sides of it are the
/// words of the whole, and a run of other characters is one word.
pub proof fn white_space_splits_words(a: Seq<char>, c: char, b: Seq<char>)
    ensures
        text::is_white_space(c) ==> text::words(a.push(c) + b) == text::words(a) + text::words(b),
        a.len() > 0 && (forall|i: int| 0 <= i < a.len() ==> !text::is_white_space(#[trigger] a[i]))
            ==> text::words(a) == seq![a],
        text::words(Seq::<char>::empty()) == Seq::<Seq<char>>::empty(),
{
    if text::is_white_space(c) {
        lemma_words_split(a, c, b);
    }
    if a.len() > 0 && (forall|i: int| 0 <= i < a.len() ==> !text::is_white_space(#[trigger] a[i])) {
        text::lemma_word_len_bound(a);
        assert(!text::is_white_space(a[0]));
        assert(text::word_len(a) == a.len());
        assert(a.take(a.len() as int) =~= a);
        assert(a.skip(a.len() as int) =~= Seq::<char>::empty());
        assert(text::words(a.skip(a.len() as int)) =~= Seq::<Seq<char>>::empty());
        assert(text::words(a) =~= seq![a]);
    }
}

proof fn lemma_words_split(a: Seq<char>, c: char, b: Seq<char>)
    requires
        text::is_white_space(c),
    ensures
        text::words(a.push(c) + b) == text::words(a) + text::words(b),
    decreases a.len(),
{
    let s = a.push(c) + b;
    let t = text::trim_start(a);
    text::lemma_trim_start_suffix(a);
    lemma_trim_start_splits(a, c, b);
    if t.len() == 0 {
        lemma_words_skip_white(s);
        lemma_words_skip_white(b);
        assert(text::words(a) =~= Seq::<Seq<char>>::empty());
        assert(text::words(a) + text::words(b) =~= text::words(b));
    } else {
        let n = text::word_len(t) as int;
        text::lemma_word_len_bound(t);
        lemma_word_ends(t, c, b);
        let whole = t.push(c) + b;
        assert(whole.take(n) =~= t.take(n));
        assert(whole.skip(n) =~= t.skip(n).push(c) + b);
        lemma_words_split(t.skip(n), c, b);
        assert(text::words(s) =~= text::words(a) + text::words(b));
    }
}

proof fn lemma_line_ends(a: Seq<char>, b: Seq<char>)
    requires
        !a.contains('\n'),
    ensures
        text::line_len(a.push('\n') + b) == a.len(),
        text::line_len(a) == a.len(),
    decreases a.len(),
{
    let s = a.push('\n') + b;
    if a.len() == 0 {
        assert(s[0] == '\n');
    } else {
        assert(s[0] == a[0]);
        assert(a.contains(a[0]));
        assert(s.drop_first() =~= a.drop_first().push('\n') + b);
        assert forall|i: int| 0 <= i < a.drop_first().len() implies a.drop_first()[i] != '\n' by {
            assert(a.contains(a[i + 1]));
        }
        lemma_line_ends(a.drop_first(), b);
    }
}

/// A line feed ends a line, together with a carriage return right before it. What
/// follows the last line feed is a line if it is not empty, carriage returns and
/// all.
pub proof fn line_feeds_end_lines(a: Seq<char>, b: Seq<char>)
    requires
        !a.contains('\n'),
    ensures
        text::lines_of(a.push('\n') + b) == seq![
            if a.len() > 0 && a.last() == '\r' {
                a.drop_last()
            } else {
                a
            },
        ] + text::lines_of(b),
        a.len() > 0 ==> text::lines_of(a) == seq![a],
        text::lines_of(Seq::<char>::empty()) == Seq::<Seq<char>>::empty(),
{
    let s = a.push('\n') + b;
    lemma_line_ends(a, b);
    assert(s.take(a.len() as int) =~= a);
    assert(s.skip(a.len() as int + 1) =~= b);
}

} // verus!
