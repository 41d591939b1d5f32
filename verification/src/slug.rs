//! Goal ids: short names made of letters, digits and single dashes.
use crate::text;
use crate::text::{chars_of, to_lower};
use vstd::prelude::*;

verus! {

/// A lower-case ASCII letter or a digit.
pub open spec fn is_slug_char(c: char) -> bool {
    'a' <= c <= 'z' || '0' <= c <= '9'
}

/// The ASCII letters and digits of `s` in lower case, with one dash between two
/// of them wherever anything else separates them in `s`.
pub open spec fn slug_of(s: Seq<char>) -> Seq<char>
    decreases s.len(),
{
    if s.len() == 0 {
        Seq::empty()
    } else {
        let before = slug_of(s.drop_last());
        let c = text::lower_char(s.last());
        if !is_slug_char(c) {
            before
        } else if before.len() == 0 || is_slug_char(text::lower_char(s[s.len() - 2])) {
            before.push(c)
        } else {
            before.push('-').push(c)
        }
    }
}

/// The id that a text gives: its slug, or `goal` where the slug is empty.
pub open spec fn goal_id_of(s: Seq<char>) -> Seq<char> {
    if slug_of(s).len() == 0 {
        "goal"@
    } else {
        slug_of(s)
    }
}

/// Letters and digits in runs of at least one, with one dash between runs.
pub open spec fn is_goal_id(s: Seq<char>) -> bool {
    &&& s.len() > 0
    &&& s[0] != '-'
    &&& s.last() != '-'
    &&& has_single_dashes(s)
}

/// Every character is a slug character or a dash, and no dash follows another.
pub open spec fn has_single_dashes(s: Seq<char>) -> bool {
    &&& forall|i: int| 0 <= i < s.len() ==> (is_slug_char(#[trigger] s[i]) || s[i] == '-')
    &&& forall|i: int, j: int|
        0 <= i && j == i + 1 && j < s.len() ==> !(#[trigger] s[i] == '-' && #[trigger] s[j] == '-')
}

fn is_slug_letter(c: char) -> (b: bool)
    ensures
        b == is_slug_char(c),
{
    ('a' <= c && c <= 'z') || ('0' <= c && c <= '9')
}

/// The letters and digits of a text in lower case, with single dashes between
/// what other characters separate.
pub fn slugify(input: &str) -> (slug: String)
    ensures
        slug@ == slug_of(input@),
{
    let chars = chars_of(input);
    let mut slug = String::new();
    let mut empty = true;
    let mut gap = false;
    let mut i: usize = 0;
    assert(chars@.take(0) =~= Seq::<char>::empty());
    while i < chars.len()
        invariant
            i <= chars.len(),
            slug@ == slug_of(chars@.take(i as int)),
            empty == (slug@.len() == 0),
            i > 0 ==> gap == !is_slug_char(text::lower_char(chars@[i - 1])),
        decreases chars.len() - i,
    {
        let c = to_lower(chars[i]);
        let ghost next = chars@.take(i + 1);
        assert(next.drop_last() =~= chars@.take(i as int));
        if is_slug_letter(c) {
            if gap && !empty {
                slug.push('-');
            }
            slug.push(c);
            empty = false;
            gap = false;
        } else {
            gap = true;
        }
        i += 1;
    }
    assert(chars@.take(i as int) =~= input@);
    slug
}

/// The id for a goal with the given title or id.
pub fn sanitize_goal_id(id: &str) -> (goal_id: String)
    ensures
        goal_id@ == goal_id_of(id@),
{
    let slug = slugify(id);
    if slug.as_str().is_empty() {
        "goal".to_string()
    } else {
        slug
    }
}

proof fn lemma_slug_shape(s: Seq<char>)
    ensures
        slug_of(s).len() > 0 ==> is_goal_id(slug_of(s)),
        s.len() > 0 && slug_of(s).len() > 0 && is_slug_char(text::lower_char(s.last()))
            ==> is_slug_char(slug_of(s).last()),
    decreases s.len(),
{
    if s.len() > 0 {
        lemma_slug_shape(s.drop_last());
    }
}

proof fn lemma_slug_keeps_ids(s: Seq<char>)
    requires
        has_single_dashes(s),
        s.len() > 0 ==> s[0] != '-',
    ensures
        slug_of(s) == (if s.len() > 0 && s.last() == '-' {
            s.drop_last()
        } else {
            s
        }),
    decreases s.len(),
{
    if s.len() > 0 {
        let t = s.drop_last();
        assert forall|i: int| 0 <= i < t.len() implies (is_slug_char(#[trigger] t[i]) || t[i]
            == '-') by {
            assert(t[i] == s[i]);
        }
        assert forall|i: int, j: int| 0 <= i && j == i + 1 && j < t.len() implies !(#[trigger] t[i]
            == '-' && #[trigger] t[j] == '-') by {
            assert(t[i] == s[i] && t[j] == s[j]);
        }
        lemma_slug_keeps_ids(t);
        assert(is_slug_char(s.last()) || s.last() == '-');
        if s.last() == '-' {
            if t.len() > 0 {
                assert(!(s[s.len() - 2] == '-' && s[s.len() - 1] == '-'));
            }
        } else if t.len() > 0 {
            assert(is_slug_char(s[s.len() - 2]) || s[s.len() - 2] == '-');
            if s[s.len() - 2] == '-' {
                assert(t.len() > 1);
                assert(slug_of(t) == t.drop_last());
                assert(t.drop_last().push('-').push(s.last()) =~= s);
            } else {
                assert(t.push(s.last()) =~= s);
            }
        } else {
            assert(t.push(s.last()) =~= s);
        }
    }
}

/// Every goal id is made of lower-case letters and digits with single dashes
/// inside, and is never empty.
pub proof fn goal_ids_are_well_formed(s: Seq<char>)
    ensures
        is_goal_id(goal_id_of(s)),
{
    reveal_strlit("goal");
    lemma_slug_shape(s);
}

/// A well-formed goal id is its own goal id; so making a goal id twice changes
/// nothing.
pub proof fn goal_ids_are_stable(s: Seq<char>)
    ensures
        is_goal_id(s) ==> goal_id_of(s) == s,
        goal_id_of(goal_id_of(s)) == goal_id_of(s),
{
    goal_ids_are_well_formed(s);
    if is_goal_id(s) {
        lemma_slug_keeps_ids(s);
    }
    lemma_slug_keeps_ids(goal_id_of(s));
}

} // verus!
