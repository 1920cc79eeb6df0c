//! Text: whitespace, splitting, case and the order of strings.
//!
//! A string is the sequence of its characters, so every function here is stated
//! over `Seq<char>`.

use vstd::prelude::*;
use vstd::utf8::is_ascii_chars;

verus! {

/// `String::push`: appends one character at the end of the string.
pub assume_specification[ String::push ](s: &mut String, c: char)
    ensures
        final(s)@ == old(s)@.push(c),
;

/// What `{:?}` shows of a string: between double quotes, and escaped.
pub uninterp spec fn debug_text(s: Seq<char>) -> Seq<char>;

/// The `Debug` output of a string, as `format!` with `{:?}` makes it. Which
/// characters it escapes, and how, is left to the name.
#[verifier::external_body]
pub(crate) fn quoted(s: &str) -> (r: String)
    ensures
        r@ == debug_text(s@),
{
    format!("{:?}", s)
}

/// The characters of an optional string.
pub open spec fn string_view(s: Option<String>) -> Option<Seq<char>> {
    match s {
        Some(t) => Some(t@),
        None => None,
    }
}

/// The characters of each string.
pub open spec fn strings_view(s: Seq<String>) -> Seq<Seq<char>> {
    s.map_values(|t: String| t@)
}

/// The characters of an optional string slice.
pub open spec fn str_view(s: Option<&str>) -> Option<Seq<char>> {
    match s {
        Some(t) => Some(t@),
        None => None,
    }
}

// ---------------------------------------------------------------------------
// Runs of characters
// ---------------------------------------------------------------------------

/// Whether `c` has the Unicode property `White_Space`.
pub open spec fn is_white(c: char) -> bool {
    ||| '\u{9}' <= c <= '\u{d}'
    ||| c == '\u{20}'
    ||| c == '\u{85}'
    ||| c == '\u{a0}'
    ||| c == '\u{1680}'
    ||| '\u{2000}' <= c <= '\u{200a}'
    ||| c == '\u{2028}'
    ||| c == '\u{2029}'
    ||| c == '\u{202f}'
    ||| c == '\u{205f}'
    ||| c == '\u{3000}'
}

/// The class of white space characters.
pub open spec fn white() -> spec_fn(char) -> bool {
    |c: char| is_white(c)
}

/// The class of characters that are no white space.
pub open spec fn dark() -> spec_fn(char) -> bool {
    |c: char| !is_white(c)
}

/// The class that holds `c` alone.
pub open spec fn only(c: char) -> spec_fn(char) -> bool {
    |x: char| x == c
}

/// The class of all characters but `c`.
pub open spec fn other_than(c: char) -> spec_fn(char) -> bool {
    |x: char| x != c
}

/// How many characters at the start of `s` are in the class `p`.
pub open spec fn head_run(s: Seq<char>, p: spec_fn(char) -> bool) -> nat
    decreases s.len(),
{
    if s.len() > 0 && p(s[0]) {
        1 + head_run(s.drop_first(), p)
    } else {
        0
    }
}

/// How many characters at the end of `s` are in the class `p`.
pub open spec fn tail_run(s: Seq<char>, p: spec_fn(char) -> bool) -> nat
    decreases s.len(),
{
    if s.len() > 0 && p(s.last()) {
        1 + tail_run(s.drop_last(), p)
    } else {
        0
    }
}

/// A head run is made of characters of the class and stops at the first other one.
pub proof fn lemma_head_run(s: Seq<char>, p: spec_fn(char) -> bool)
    ensures
        head_run(s, p) <= s.len(),
        forall|i: int| 0 <= i < head_run(s, p) ==> p(#[trigger] s[i]),
        head_run(s, p) < s.len() ==> !p(s[head_run(s, p) as int]),
    decreases s.len(),
{
    if s.len() > 0 && p(s[0]) {
        let t = s.drop_first();
        lemma_head_run(t, p);
        assert forall|i: int| 0 <= i < head_run(s, p) implies p(#[trigger] s[i]) by {
            if i > 0 {
                assert(s[i] == t[i - 1]);
            }
        }
    }
}

/// The number with these properties is the head run.
pub proof fn lemma_head_run_is(s: Seq<char>, p: spec_fn(char) -> bool, n: nat)
    requires
        n <= s.len(),
        forall|i: int| 0 <= i < n ==> p(#[trigger] s[i]),
        n < s.len() ==> !p(s[n as int]),
    ensures
        head_run(s, p) == n,
{
    lemma_head_run(s, p);
    let h = head_run(s, p);
    if h < n {
        assert(p(s[h as int]));
    }
}

/// A tail run is made of characters of the class and stops at the last other one.
pub proof fn lemma_tail_run(s: Seq<char>, p: spec_fn(char) -> bool)
    ensures
        tail_run(s, p) <= s.len(),
        forall|i: int| s.len() - tail_run(s, p) <= i < s.len() ==> p(#[trigger] s[i]),
        tail_run(s, p) < s.len() ==> !p(s[s.len() - tail_run(s, p) - 1]),
    decreases s.len(),
{
    if s.len() > 0 && p(s.last()) {
        let t = s.drop_last();
        lemma_tail_run(t, p);
        assert forall|i: int| s.len() - tail_run(s, p) <= i < s.len() implies p(
            #[trigger] s[i],
        ) by {
            if i < s.len() - 1 {
                assert(s[i] == t[i]);
            }
        }
    }
}

/// The number with these properties is the tail run.
pub proof fn lemma_tail_run_is(s: Seq<char>, p: spec_fn(char) -> bool, n: nat)
    requires
        n <= s.len(),
        forall|i: int| s.len() - n <= i < s.len() ==> p(#[trigger] s[i]),
        n < s.len() ==> !p(s[s.len() - n - 1]),
    ensures
        tail_run(s, p) == n,
{
    lemma_tail_run(s, p);
    let h = tail_run(s, p);
    if h < n {
        assert(p(s[s.len() - h - 1]));
    }
}

/// Whether `c` is white space.
pub fn white_space(c: char) -> (r: bool)
    ensures
        r == is_white(c),
{
    ('\u{9}' <= c && c <= '\u{d}') || c == '\u{20}' || c == '\u{85}' || c == '\u{a0}' || c
        == '\u{1680}' || ('\u{2000}' <= c && c <= '\u{200a}') || c == '\u{2028}' || c == '\u{2029}'
        || c == '\u{202f}' || c == '\u{205f}' || c == '\u{3000}'
}

/// The characters of `s`, one by one.
pub fn chars_of(s: &str) -> (r: Vec<char>)
    ensures
        r@ == s@,
{
    let mut r: Vec<char> = Vec::new();
    for c in it: s.chars()
        invariant
            r@ == it.seq().take(it.index() as int),
            it.seq() == s@,
    {
        r.push(c);
    }
    r
}

// ---------------------------------------------------------------------------
// Trimming and splitting
// ---------------------------------------------------------------------------

/// `s` without the white space at its start.
pub open spec fn trimmed_start(s: Seq<char>) -> Seq<char> {
    s.skip(head_run(s, white()) as int)
}

/// `s` without the characters of class `p` at its end.
pub open spec fn trimmed_end_of(s: Seq<char>, p: spec_fn(char) -> bool) -> Seq<char> {
    s.take(s.len() - tail_run(s, p))
}

/// `s` without the white space at its start and at its end.
pub open spec fn trimmed(s: Seq<char>) -> Seq<char> {
    trimmed_end_of(trimmed_start(s), white())
}

/// `s` trimmed, where that leaves anything.
pub open spec fn non_blank(s: Seq<char>) -> Option<Seq<char>> {
    if trimmed(s).len() > 0 {
        Some(trimmed(s))
    } else {
        None
    }
}

/// What stands before the first white space of `s`: all of `s` where there is none.
pub open spec fn first_word(s: Seq<char>) -> Seq<char> {
    s.take(head_run(s, dark()) as int)
}

/// What stands after the first white space of `s`: nothing where there is none.
pub open spec fn after_first_word(s: Seq<char>) -> Seq<char> {
    let n = head_run(s, dark()) as int;
    if n < s.len() {
        s.skip(n + 1)
    } else {
        Seq::empty()
    }
}

/// What stands before the first `c` of `s`: all of `s` where there is none.
pub open spec fn before_first(s: Seq<char>, c: char) -> Seq<char> {
    s.take(head_run(s, other_than(c)) as int)
}

/// The two parts of `s` around its first `c`, if it has one.
pub open spec fn cut_first(s: Seq<char>, c: char) -> Option<(Seq<char>, Seq<char>)> {
    let n = head_run(s, other_than(c)) as int;
    if n < s.len() {
        Some((s.take(n), s.skip(n + 1)))
    } else {
        None
    }
}

/// The two parts of `s` around its last `c`, if it has one.
pub open spec fn cut_last(s: Seq<char>, c: char) -> Option<(Seq<char>, Seq<char>)> {
    let n = tail_run(s, other_than(c)) as int;
    if n < s.len() {
        Some((s.take(s.len() - n - 1), s.skip(s.len() - n)))
    } else {
        None
    }
}

/// What follows `prefix` in `s`, where `s` starts with it.
pub open spec fn after_prefix(s: Seq<char>, prefix: Seq<char>) -> Option<Seq<char>> {
    if prefix.len() <= s.len() && s.take(prefix.len() as int) == prefix {
        Some(s.skip(prefix.len() as int))
    } else {
        None
    }
}

/// Cutting a text at a separator that the first part does not hold.
pub proof fn lemma_cut_first_at(a: Seq<char>, c: char, b: Seq<char>)
    requires
        !a.contains(c),
    ensures
        cut_first(a.push(c) + b, c) == Some((a, b)),
        before_first(a.push(c) + b, c) == a,
{
    let s = a.push(c) + b;
    assert(s[a.len() as int] == c);
    assert forall|i: int| 0 <= i < a.len() implies other_than(c)(#[trigger] s[i]) by {
        assert(s[i] == a[i]);
    }
    lemma_head_run_is(s, other_than(c), a.len());
    assert(s.take(a.len() as int) =~= a);
    assert(s.skip(a.len() as int + 1) =~= b);
}

/// Cutting a text at a separator that the last part does not hold.
pub proof fn lemma_cut_last_at(a: Seq<char>, c: char, b: Seq<char>)
    requires
        !b.contains(c),
    ensures
        cut_last(a.push(c) + b, c) == Some((a, b)),
{
    let s = a.push(c) + b;
    assert(s[a.len() as int] == c);
    assert forall|i: int| s.len() - b.len() <= i < s.len() implies other_than(c)(
        #[trigger] s[i],
    ) by {
        assert(s[i] == b[i - a.len() - 1]);
    }
    lemma_tail_run_is(s, other_than(c), b.len());
    assert(s.take(a.len() as int) =~= a);
    assert(s.skip(a.len() as int + 1) =~= b);
}

/// A text without `c` is all before the first `c`, and cannot be cut there.
pub proof fn lemma_no_cut(s: Seq<char>, c: char)
    requires
        !s.contains(c),
    ensures
        before_first(s, c) == s,
        cut_first(s, c) is None,
        cut_last(s, c) is None,
{
    lemma_head_run_is(s, other_than(c), s.len());
    lemma_tail_run_is(s, other_than(c), s.len());
    assert(s.take(s.len() as int) =~= s);
}

/// Cuts the white space off the start of `s`.
pub fn trim_start(s: &str) -> (r: &str)
    ensures
        r@ == trimmed_start(s@),
{
    let cs = chars_of(s);
    let n: usize = cs.len();
    let mut a: usize = 0;
    while a < n && white_space(cs[a])
        invariant
            a <= n == cs@.len(),
            forall|i: int| 0 <= i < a ==> white()(#[trigger] cs@[i]),
        ensures
            a <= n,
            a < n ==> !is_white(cs@[a as int]),
            forall|i: int| 0 <= i < a ==> white()(#[trigger] cs@[i]),
        decreases n - a,
    {
        a = a + 1;
    }
    proof {
        lemma_head_run_is(s@, white(), a as nat);
        assert(s@.skip(a as int) =~= s@.subrange(a as int, n as int));
    }
    s.substring_char(a, n)
}

/// Cuts the white space off both ends of `s`.
pub fn trim(s: &str) -> (r: &str)
    ensures
        r@ == trimmed(s@),
{
    let t = trim_start(s);
    let cs = chars_of(t);
    let n: usize = cs.len();
    let mut b: usize = n;
    while b > 0 && white_space(cs[b - 1])
        invariant
            b <= n == cs@.len(),
            forall|i: int| b <= i < n ==> white()(#[trigger] cs@[i]),
        ensures
            b <= n,
            b > 0 ==> !is_white(cs@[b - 1]),
            forall|i: int| b <= i < n ==> white()(#[trigger] cs@[i]),
        decreases b,
    {
        b = b - 1;
    }
    proof {
        lemma_tail_run_is(t@, white(), (n - b) as nat);
        assert(t@.take(b as int) =~= t@.subrange(0, b as int));
    }
    t.substring_char(0, b)
}

/// Cuts every `c` off the end of `s`.
pub fn trim_end_of(s: &str, c: char) -> (r: &str)
    ensures
        r@ == trimmed_end_of(s@, only(c)),
{
    let cs = chars_of(s);
    let n: usize = cs.len();
    let mut b: usize = n;
    while b > 0 && cs[b - 1] == c
        invariant
            b <= n == cs@.len(),
            forall|i: int| b <= i < n ==> only(c)(#[trigger] cs@[i]),
        ensures
            b <= n,
            b > 0 ==> cs@[b - 1] != c,
            forall|i: int| b <= i < n ==> only(c)(#[trigger] cs@[i]),
        decreases b,
    {
        b = b - 1;
    }
    proof {
        lemma_tail_run_is(s@, only(c), (n - b) as nat);
        assert(s@.take(b as int) =~= s@.subrange(0, b as int));
    }
    s.substring_char(0, b)
}

/// Splits `s` at its first white space, which belongs to neither part.
pub fn split_word(s: &str) -> (r: (&str, &str))
    ensures
        r.0@ == first_word(s@),
        r.1@ == after_first_word(s@),
{
    let cs = chars_of(s);
    let n: usize = cs.len();
    let mut a: usize = 0;
    while a < n && !white_space(cs[a])
        invariant
            a <= n == cs@.len(),
            forall|i: int| 0 <= i < a ==> dark()(#[trigger] cs@[i]),
        ensures
            a <= n,
            a < n ==> is_white(cs@[a as int]),
            forall|i: int| 0 <= i < a ==> dark()(#[trigger] cs@[i]),
        decreases n - a,
    {
        a = a + 1;
    }
    proof {
        lemma_head_run_is(s@, dark(), a as nat);
        assert(s@.take(a as int) =~= s@.subrange(0, a as int));
    }
    if a < n {
        assert(s@.skip(a + 1) =~= s@.subrange(a + 1, n as int));
        (s.substring_char(0, a), s.substring_char(a + 1, n))
    } else {
        assert(s@.subrange(n as int, n as int) =~= Seq::empty());
        (s.substring_char(0, a), s.substring_char(n, n))
    }
}

/// Splits `s` at its first `c`, which belongs to neither part.
pub fn split_once(s: &str, c: char) -> (r: Option<(&str, &str)>)
    ensures
        (match r {
            Some(p) => Some((p.0@, p.1@)),
            None => None,
        }) == cut_first(s@, c),
        r is None ==> before_first(s@, c) == s@,
        r matches Some(p) ==> before_first(s@, c) == p.0@,
{
    let cs = chars_of(s);
    let n: usize = cs.len();
    let mut a: usize = 0;
    while a < n && cs[a] != c
        invariant
            a <= n == cs@.len(),
            forall|i: int| 0 <= i < a ==> other_than(c)(#[trigger] cs@[i]),
        ensures
            a <= n,
            a < n ==> cs@[a as int] == c,
            forall|i: int| 0 <= i < a ==> other_than(c)(#[trigger] cs@[i]),
        decreases n - a,
    {
        a = a + 1;
    }
    proof {
        lemma_head_run_is(s@, other_than(c), a as nat);
        assert(s@.take(a as int) =~= s@.subrange(0, a as int));
    }
    if a < n {
        assert(s@.skip(a + 1) =~= s@.subrange(a + 1, n as int));
        Some((s.substring_char(0, a), s.substring_char(a + 1, n)))
    } else {
        assert(s@.take(n as int) =~= s@);
        None
    }
}

/// Splits `s` at its last `c`, which belongs to neither part.
pub fn rsplit_once(s: &str, c: char) -> (r: Option<(&str, &str)>)
    ensures
        (match r {
            Some(p) => Some((p.0@, p.1@)),
            None => None,
        }) == cut_last(s@, c),
{
    let cs = chars_of(s);
    let n: usize = cs.len();
    let mut b: usize = n;
    while b > 0 && cs[b - 1] != c
        invariant
            b <= n == cs@.len(),
            forall|i: int| b <= i < n ==> other_than(c)(#[trigger] cs@[i]),
        ensures
            b <= n,
            b > 0 ==> cs@[b - 1] == c,
            forall|i: int| b <= i < n ==> other_than(c)(#[trigger] cs@[i]),
        decreases b,
    {
        b = b - 1;
    }
    proof {
        lemma_tail_run_is(s@, other_than(c), (n - b) as nat);
    }
    if b > 0 {
        assert(s@.take(b - 1) =~= s@.subrange(0, b - 1));
        assert(s@.skip(b as int) =~= s@.subrange(b as int, n as int));
        Some((s.substring_char(0, b - 1), s.substring_char(b, n)))
    } else {
        None
    }
}

/// Whether the two strings hold the same characters.
pub fn same(a: &str, b: &str) -> (r: bool)
    ensures
        r == (a@ == b@),
{
    order(a, b) == Order::Same
}

/// The place of the first of `texts` that is `text`.
pub fn first_place(texts: &[String], text: &str) -> (r: Option<usize>)
    ensures
        match r {
            Some(i) => {
                &&& i < texts@.len()
                &&& texts@[i as int]@ == text@
                &&& forall|j: int| 0 <= j < i ==> (#[trigger] texts@[j])@ != text@
            },
            None => forall|j: int| 0 <= j < texts@.len() ==> (#[trigger] texts@[j])@ != text@,
        },
{
    let n: usize = texts.len();
    let mut i: usize = 0;
    while i < n
        invariant
            i <= n == texts@.len(),
            forall|j: int| 0 <= j < i ==> (#[trigger] texts@[j])@ != text@,
        decreases n - i,
    {
        if same(texts[i].as_str(), text) {
            return Some(i);
        }
        i = i + 1;
    }
    None
}

/// What follows `prefix` in `s`, where `s` starts with it.
pub fn strip_prefix<'a>(s: &'a str, prefix: &str) -> (r: Option<&'a str>)
    ensures
        (match r {
            Some(t) => Some(t@),
            None => None,
        }) == after_prefix(s@, prefix@),
{
    let n: usize = s.unicode_len();
    let k: usize = prefix.unicode_len();
    if k > n {
        return None;
    }
    assert(s@.take(k as int) =~= s@.subrange(0, k as int));
    assert(s@.skip(k as int) =~= s@.subrange(k as int, n as int));
    if same(s.substring_char(0, k), prefix) {
        Some(s.substring_char(k, n))
    } else {
        None
    }
}

// ---------------------------------------------------------------------------
// Case
// ---------------------------------------------------------------------------

/// The lower case of an ASCII letter; any other character is its own.
pub open spec fn lower_char(c: char) -> char {
    if 'A' <= c <= 'Z' {
        (c as u32 + 32) as char
    } else {
        c
    }
}

/// `s` with its ASCII letters in lower case.
pub open spec fn lowered(s: Seq<char>) -> Seq<char> {
    s.map_values(|c: char| lower_char(c))
}

/// The lower case of a text in Unicode.
pub uninterp spec fn lower_case(s: Seq<char>) -> Seq<char>;

/// `str::to_lowercase`: the text in lower case. An ASCII text has its capital letters
/// replaced by small ones; what becomes of other texts is left to the name.
#[verifier::external_body]
pub(crate) fn to_lower_case(s: &str) -> (r: String)
    ensures
        r@ == lower_case(s@),
        is_ascii_chars(s@) ==> r@ == lowered(s@),
{
    s.to_lowercase()
}

/// `s` in lower case, by which texts are compared without regard to case.
pub open spec fn folded(s: Seq<char>) -> Seq<char> {
    if is_ascii_chars(s) {
        lowered(s)
    } else {
        lower_case(s)
    }
}

// ---------------------------------------------------------------------------
// The order of strings
// ---------------------------------------------------------------------------

/// The order of strings: by the first character in which they differ, and a
/// proper prefix comes first.
pub open spec fn before(a: Seq<char>, b: Seq<char>) -> bool
    decreases a.len(),
{
    &&& b.len() > 0
    &&& a.len() > 0 ==> {
        ||| a[0] < b[0]
        ||| a[0] == b[0] && before(a.drop_first(), b.drop_first())
    }
}

pub proof fn lemma_before_irreflexive(a: Seq<char>)
    ensures
        !before(a, a),
    decreases a.len(),
{
    if a.len() > 0 {
        lemma_before_irreflexive(a.drop_first());
    }
}

pub proof fn lemma_before_transitive(a: Seq<char>, b: Seq<char>, c: Seq<char>)
    requires
        before(a, b),
        before(b, c),
    ensures
        before(a, c),
    decreases a.len(),
{
    if a.len() > 0 && a[0] == b[0] && b[0] == c[0] {
        lemma_before_transitive(a.drop_first(), b.drop_first(), c.drop_first());
    }
}

pub proof fn lemma_before_asymmetric(a: Seq<char>, b: Seq<char>)
    requires
        before(a, b),
    ensures
        !before(b, a),
        a != b,
{
    if before(b, a) {
        lemma_before_transitive(a, b, a);
    }
    lemma_before_irreflexive(a);
}

/// Of two strings one comes first, or they are the same.
pub proof fn lemma_before_total(a: Seq<char>, b: Seq<char>)
    ensures
        before(a, b) || a == b || before(b, a),
    decreases a.len(),
{
    if a.len() > 0 && b.len() > 0 && a[0] == b[0] {
        let (p, q) = (a.drop_first(), b.drop_first());
        lemma_before_total(p, q);
        if p == q {
            assert(a =~= seq![a[0]] + p);
            assert(b =~= seq![b[0]] + q);
        }
    } else if a.len() == 0 && b.len() == 0 {
        assert(a =~= b);
    }
}

/// A common start of two strings says nothing of their order.
proof fn lemma_before_skip(a: Seq<char>, b: Seq<char>, k: int)
    requires
        0 <= k <= a.len(),
        k <= b.len(),
        a.take(k) == b.take(k),
    ensures
        before(a, b) == before(a.skip(k), b.skip(k)),
    decreases k,
{
    if k == 0 {
        assert(a.skip(0) =~= a);
        assert(b.skip(0) =~= b);
    } else {
        assert(a[0] == a.take(k)[0]);
        assert(b[0] == b.take(k)[0]);
        let (p, q) = (a.drop_first(), b.drop_first());
        assert(p.take(k - 1) =~= a.take(k).drop_first());
        assert(q.take(k - 1) =~= b.take(k).drop_first());
        lemma_before_skip(p, q, k - 1);
        assert(p.skip(k - 1) =~= a.skip(k));
        assert(q.skip(k - 1) =~= b.skip(k));
    }
}

/// How one string stands to another in the order of strings.
#[derive(Debug, Clone, Copy, PartialEq, Eq, Structural)]
pub enum Order {
    Before,
    Same,
    After,
}

/// Compares two strings.
pub fn order(a: &str, b: &str) -> (r: Order)
    ensures
        r == Order::Before <==> before(a@, b@),
        r == Order::Same <==> a@ == b@,
        r == Order::After <==> before(b@, a@),
{
    let mut p = a.chars();
    let mut q = b.chars();
    let ghost mut k: int = 0;
    loop
        invariant
            0 <= k <= a@.len(),
            k <= b@.len(),
            a@.take(k) == b@.take(k),
            vstd::std_specs::iter::IteratorSpec::remaining(&p) == a@.skip(k),
            vstd::std_specs::iter::IteratorSpec::remaining(&q) == b@.skip(k),
        decreases a@.len() - k,
    {
        proof {
            lemma_before_skip(a@, b@, k);
            lemma_before_skip(b@, a@, k);
            lemma_before_irreflexive(a@);
            if k == a@.len() && k == b@.len() {
                assert(a@.take(k) =~= a@);
                assert(b@.take(k) =~= b@);
            }
        }
        match (p.next(), q.next()) {
            (None, None) => {
                return Order::Same;
            },
            (None, Some(_)) => {
                return Order::Before;
            },
            (Some(_), None) => {
                return Order::After;
            },
            (Some(x), Some(y)) => {
                if x < y {
                    return Order::Before;
                }
                if y < x {
                    return Order::After;
                }
                proof {
                    assert(a@.take(k + 1) =~= a@.take(k).push(x));
                    assert(b@.take(k + 1) =~= b@.take(k).push(y));
                    assert(a@.skip(k).drop_first() =~= a@.skip(k + 1));
                    assert(b@.skip(k).drop_first() =~= b@.skip(k + 1));
                    k = k + 1;
                }
            },
        }
    }
}

} // verus!
