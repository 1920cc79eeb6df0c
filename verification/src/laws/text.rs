//! Laws of text: trimming, cutting, case and order.

use crate::text::{after_first_word, after_prefix, before, before_first, cut_first, cut_last, dark, first_word, folded, head_run, is_white, lemma_before_irreflexive, lemma_cut_first_at, lemma_cut_last_at, lemma_head_run, lemma_head_run_is, lemma_no_cut, lemma_tail_run, lemma_tail_run_is, lower_case, lower_char, lowered, non_blank, only, tail_run, trimmed, trimmed_end_of, trimmed_start, white};
use vstd::prelude::*;
use vstd::utf8::is_ascii_chars;

verus! {

/// Whether a text is not blank and has no white space around it.
pub open spec fn is_neat(s: Seq<char>) -> bool {
    s.len() > 0 && trimmed(s) == s
}

/// Trimming what was trimmed changes nothing.
pub proof fn law_trimming_is_idempotent(s: Seq<char>)
    ensures
        trimmed(trimmed(s)) == trimmed(s),
{
    lemma_head_run(s, white());
    let t = trimmed_start(s);
    lemma_tail_run(t, white());
    let u = trimmed(s);
    if u.len() > 0 {
        assert(u[0] == s[head_run(s, white()) as int]);
        assert(u.last() == t[t.len() - tail_run(t, white()) - 1]);
    }
    lemma_head_run_is(u, white(), 0);
    assert(trimmed_start(u) =~= u);
    lemma_tail_run_is(u, white(), 0);
    assert(trimmed(u) =~= u);
}

/// Trimming in one step: all between the white space at the two ends.
pub proof fn lemma_trimmed(s: Seq<char>)
    ensures
        ({
            let (h, t) = (head_run(s, white()), tail_run(s, white()));
            if h < s.len() {
                &&& h + t < s.len()
                &&& trimmed(s) == s.subrange(h as int, s.len() - t)
            } else {
                trimmed(s).len() == 0
            }
        }),
{
    lemma_head_run(s, white());
    lemma_tail_run(s, white());
    let (h, t) = (head_run(s, white()), tail_run(s, white()));
    let u = trimmed_start(s);
    if h < s.len() {
        assert(h + t < s.len()) by {
            if h >= s.len() - t {
                assert(white()(s[h as int]));
            }
        }
        assert forall|i: int| u.len() - t <= i < u.len() implies white()(#[trigger] u[i]) by {
            assert(white()(s[i + h]));
        }
        lemma_tail_run_is(u, white(), t);
        assert(trimmed(s) =~= s.subrange(h as int, s.len() - t));
    }
}

/// White space may be cut off one end first: the trimmed text is the same.
pub proof fn lemma_trimmed_after_one_end(s: Seq<char>)
    ensures
        trimmed(trimmed_start(s)) == trimmed(s),
        trimmed(trimmed_end_of(s, white())) == trimmed(s),
{
    lemma_head_run(s, white());
    lemma_tail_run(s, white());
    lemma_trimmed(s);
    let (h, t) = (head_run(s, white()), tail_run(s, white()));
    let a = trimmed_start(s);
    lemma_head_run_is(a, white(), 0);
    assert(trimmed_start(a) =~= a);
    let b = trimmed_end_of(s, white());
    lemma_trimmed(b);
    if h < s.len() {
        assert forall|i: int| 0 <= i < h implies white()(#[trigger] b[i]) by {
            assert(white()(s[i]));
        }
        lemma_head_run_is(b, white(), h);
        lemma_tail_run_is(b, white(), 0);
        assert(trimmed(b) =~= trimmed(s));
    } else {
        lemma_tail_run_is(s, white(), s.len());
        assert(trimmed(b) =~= trimmed(s));
    }
}

/// Trimming finds what stands between the white space at the two ends, unchanged.
pub proof fn law_trimming_finds_the_middle(a: Seq<char>, m: Seq<char>, b: Seq<char>)
    requires
        forall|i: int| 0 <= i < a.len() ==> is_white(#[trigger] a[i]),
        forall|i: int| 0 <= i < b.len() ==> is_white(#[trigger] b[i]),
        m.len() > 0 ==> !is_white(m[0]) && !is_white(m.last()),
    ensures
        trimmed(a + m + b) == m,
        non_blank(a + m + b) == (if m.len() > 0 {
            Some(m)
        } else {
            None
        }),
{
    let s = a + m + b;
    lemma_trimmed(s);
    if m.len() > 0 {
        assert forall|i: int| 0 <= i < a.len() implies white()(#[trigger] s[i]) by {
            assert(is_white(a[i]));
        }
        assert(s[a.len() as int] == m[0]);
        lemma_head_run_is(s, white(), a.len());
        assert forall|i: int| s.len() - b.len() <= i < s.len() implies white()(#[trigger] s[i]) by {
            assert(is_white(b[i - a.len() - m.len()]));
        }
        assert(s[s.len() - b.len() - 1] == m.last());
        lemma_tail_run_is(s, white(), b.len());
        assert(trimmed(s) =~= m);
    } else {
        assert forall|i: int| 0 <= i < s.len() implies white()(#[trigger] s[i]) by {
            if i < a.len() {
                assert(is_white(a[i]));
            } else {
                assert(is_white(b[i - a.len()]));
            }
        }
        lemma_head_run_is(s, white(), s.len());
        assert(trimmed(s) =~= m);
    }
}

/// At the start of a text white space alone is cut off.
pub proof fn law_trimming_the_start_leaves_the_rest(a: Seq<char>, m: Seq<char>)
    requires
        forall|i: int| 0 <= i < a.len() ==> is_white(#[trigger] a[i]),
        m.len() > 0 ==> !is_white(m[0]),
    ensures
        trimmed_start(a + m) == m,
{
    let s = a + m;
    assert forall|i: int| 0 <= i < a.len() implies white()(#[trigger] s[i]) by {
        assert(is_white(a[i]));
    }
    if m.len() > 0 {
        assert(s[a.len() as int] == m[0]);
    }
    lemma_head_run_is(s, white(), a.len());
    assert(trimmed_start(s) =~= m);
}

/// At the end of a text only the given character is cut off, as often as it stands there.
pub proof fn law_trimming_a_character_leaves_the_rest(m: Seq<char>, c: char, b: Seq<char>)
    requires
        forall|i: int| 0 <= i < b.len() ==> #[trigger] b[i] == c,
        m.len() > 0 ==> m.last() != c,
    ensures
        trimmed_end_of(m + b, only(c)) == m,
{
    let s = m + b;
    assert forall|i: int| s.len() - b.len() <= i < s.len() implies only(c)(#[trigger] s[i]) by {
        assert(b[i - m.len()] == c);
    }
    if m.len() > 0 {
        assert(s[s.len() - b.len() - 1] == m.last());
    }
    lemma_tail_run_is(s, only(c), b.len());
    assert(trimmed_end_of(s, only(c)) =~= m);
}

/// The first word reaches to the first white space, and the rest starts behind it.
pub proof fn law_first_word_ends_at_white_space(word: Seq<char>, gap: char, rest: Seq<char>)
    requires
        forall|i: int| 0 <= i < word.len() ==> !is_white(#[trigger] word[i]),
        is_white(gap),
    ensures
        first_word(word.push(gap) + rest) == word,
        after_first_word(word.push(gap) + rest) == rest,
        first_word(word) == word,
        after_first_word(word).len() == 0,
{
    let s = word.push(gap) + rest;
    assert forall|i: int| 0 <= i < word.len() implies dark()(#[trigger] s[i]) by {
        assert(!is_white(word[i]));
    }
    assert(s[word.len() as int] == gap);
    lemma_head_run_is(s, dark(), word.len());
    assert(first_word(s) =~= word);
    assert(after_first_word(s) =~= rest);
    lemma_head_run_is(word, dark(), word.len());
    assert(first_word(word) =~= word);
}

/// A text is cut at its first separator, and what stands before it goes on to there.
pub proof fn law_text_is_cut_at_the_first_separator(a: Seq<char>, c: char, b: Seq<char>)
    requires
        !a.contains(c),
    ensures
        cut_first(a.push(c) + b, c) == Some((a, b)),
        before_first(a.push(c) + b, c) == a,
        cut_first(a, c) is None,
        before_first(a, c) == a,
{
    lemma_cut_first_at(a, c, b);
    lemma_no_cut(a, c);
}

/// A text is cut at its last separator.
pub proof fn law_text_is_cut_at_the_last_separator(a: Seq<char>, c: char, b: Seq<char>)
    requires
        !b.contains(c),
    ensures
        cut_last(a.push(c) + b, c) == Some((a, b)),
        cut_last(b, c) is None,
{
    lemma_cut_last_at(a, c, b);
    lemma_no_cut(b, c);
}

/// What follows a prefix is what was put behind it, and nothing follows a prefix that is
/// not there.
pub proof fn law_prefix_is_taken_off(s: Seq<char>, prefix: Seq<char>, rest: Seq<char>)
    ensures
        after_prefix(prefix + rest, prefix) == Some(rest),
        after_prefix(s, prefix) == Some(rest) ==> s == prefix + rest,
{
    let all = prefix + rest;
    assert(all.take(prefix.len() as int) =~= prefix);
    assert(all.skip(prefix.len() as int) =~= rest);
    if after_prefix(s, prefix) == Some(rest) {
        assert(s =~= s.take(prefix.len() as int) + s.skip(prefix.len() as int));
    }
}

/// Lower case keeps the place of every character and changes the capitals A to Z alone,
/// each into the small letter 32 places on.
pub proof fn law_lower_case_changes_capitals_alone(s: Seq<char>, i: int)
    requires
        0 <= i < s.len(),
    ensures
        lowered(s).len() == s.len(),
        'A' <= s[i] <= 'Z' ==> lowered(s)[i] as u32 == s[i] as u32 + 32,
        !('A' <= s[i] <= 'Z') ==> lowered(s)[i] == s[i],
{
    assert(lowered(s)[i] == lower_char(s[i]));
}

/// Names are compared in lower case: that of ASCII where they are ASCII, else that of
/// Unicode.
pub proof fn law_names_are_compared_in_lower_case(s: Seq<char>)
    ensures
        is_ascii_chars(s) ==> folded(s) == lowered(s),
        !is_ascii_chars(s) ==> folded(s) == lower_case(s),
{
}

/// The first character in which two texts differ decides their order, and a text comes
/// before what it is continued to.
pub proof fn law_first_difference_decides_the_order(
    p: Seq<char>,
    x: char,
    a: Seq<char>,
    y: char,
    b: Seq<char>,
)
    ensures
        x < y ==> before(p.push(x) + a, p.push(y) + b) && !before(p.push(y) + b, p.push(x) + a),
        before(p, p.push(x) + a),
        !before(p.push(x) + a, p),
        !before(p, p),
    decreases p.len(),
{
    let (s, t) = (p.push(x) + a, p.push(y) + b);
    lemma_before_irreflexive(p);
    if p.len() > 0 {
        let q = p.drop_first();
        law_first_difference_decides_the_order(q, x, a, y, b);
        assert(s.drop_first() =~= q.push(x) + a);
        assert(t.drop_first() =~= q.push(y) + b);
    }
}

} // verus!
