//! Character-sequence helpers shared by the parsers and message builders.
//!
//! Strings are handled through their character sequences (`s@`). The spec
//! functions here say what each helper computes; the executable helpers are
//! proved against them.

use vstd::prelude::*;
use vstd::string::StrSliceExecFns;

verus! {

broadcast use vstd::string::group_string_axioms;

/// std's `String::push`. The contract claims, as its documentation says,
/// that the string's characters afterwards are the old ones followed by
/// `ch`.
pub assume_specification[ String::push ](s: &mut String, ch: char)
    ensures
        final(s)@ == old(s)@.push(ch),
;

// ---------------------------------------------------------------------
// Character classes
// ---------------------------------------------------------------------

pub open spec fn is_ascii_digit(c: char) -> bool {
    '0' <= c && c <= '9'
}

pub open spec fn is_ascii_upper(c: char) -> bool {
    'A' <= c && c <= 'Z'
}

pub open spec fn is_ascii_lower(c: char) -> bool {
    'a' <= c && c <= 'z'
}

pub open spec fn is_ascii_alnum(c: char) -> bool {
    is_ascii_digit(c) || is_ascii_upper(c) || is_ascii_lower(c)
}

/// Unicode `White_Space` (what `char::is_whitespace` tests).
pub open spec fn is_ws(c: char) -> bool {
    ||| ('\u{9}' <= c && c <= '\u{d}')
    ||| c == ' '
    ||| c == '\u{85}'
    ||| c == '\u{a0}'
    ||| c == '\u{1680}'
    ||| ('\u{2000}' <= c && c <= '\u{200a}')
    ||| c == '\u{2028}'
    ||| c == '\u{2029}'
    ||| c == '\u{202f}'
    ||| c == '\u{205f}'
    ||| c == '\u{3000}'
}

/// Unicode general category `Cc` (what `char::is_control` tests).
pub open spec fn is_ctrl(c: char) -> bool {
    c <= '\u{1f}' || ('\u{7f}' <= c && c <= '\u{9f}')
}

/// ASCII lower-casing of one character (`char::to_ascii_lowercase`).
pub open spec fn lower_char(c: char) -> char {
    if is_ascii_upper(c) {
        ((c as int) + 32) as char
    } else {
        c
    }
}

/// ASCII lower-casing of a sequence (`str::to_ascii_lowercase`).
pub open spec fn lower(s: Seq<char>) -> Seq<char> {
    s.map_values(|c: char| lower_char(c))
}

/// A character that is no ASCII letter is left alone by lower-casing, and
/// no other character is lower-cased to it.
pub open spec fn is_caseless(c: char) -> bool {
    !is_ascii_upper(c) && !is_ascii_lower(c)
}

pub proof fn lemma_lower_char(c: char)
    ensures
        lower_char(lower_char(c)) == lower_char(c),
        is_ascii_alnum(lower_char(c)) == is_ascii_alnum(c),
        is_ascii_digit(lower_char(c)) == is_ascii_digit(c),
        is_ws(lower_char(c)) == is_ws(c),
        is_ctrl(lower_char(c)) == is_ctrl(c),
        forall|d: char| is_caseless(d) ==> ((lower_char(c) == d) == (c == d)),
{
}

/// Lower-casing commutes with taking a part.
pub proof fn lemma_lower_subrange(s: Seq<char>, a: int, b: int)
    requires
        0 <= a <= b <= s.len(),
    ensures
        lower(s).subrange(a, b) == lower(s.subrange(a, b)),
{
    assert(lower(s).subrange(a, b) =~= lower(s.subrange(a, b)));
}

pub proof fn lemma_lower_twice(s: Seq<char>)
    ensures
        lower(lower(s)) == lower(s),
{
    assert forall|i: int| 0 <= i < s.len() implies lower(lower(s))[i] == lower(s)[i] by {
        lemma_lower_char(s[i]);
    }
    assert(lower(lower(s)) =~= lower(s));
}

/// Scanning for a class of characters that lower-casing cannot enter or
/// leave finds the same index in the lower-cased sequence.
pub proof fn lemma_index_where_lower(s: Seq<char>, stop: spec_fn(char) -> bool)
    requires
        forall|c: char| #[trigger] stop(lower_char(c)) == stop(c),
    ensures
        index_where(lower(s), stop) == index_where(s, stop),
    decreases s.len(),
{
    if s.len() > 0 {
        assert(lower(s).drop_first() =~= lower(s.drop_first()));
        assert(lower(s)[0] == lower_char(s[0]));
        assert(stop(lower_char(s[0])) == stop(s[0]));
        lemma_index_where_lower(s.drop_first(), stop);
    }
}

pub proof fn lemma_last_index_of_lower(s: Seq<char>, c: char)
    requires
        is_caseless(c),
    ensures
        last_index_of(lower(s), c) == last_index_of(s, c),
    decreases s.len(),
{
    if s.len() > 0 {
        assert(lower(s).drop_last() =~= lower(s.drop_last()));
        assert(lower(s).last() == lower_char(s.last()));
        lemma_lower_char(s.last());
        lemma_last_index_of_lower(s.drop_last(), c);
    }
}

/// A pattern without ASCII letters occurs at the same places in the
/// lower-cased sequence.
pub proof fn lemma_first_occurrence_lower(s: Seq<char>, p: Seq<char>, from: int)
    requires
        forall|i: int| 0 <= i < p.len() ==> is_caseless(#[trigger] p[i]),
    ensures
        first_occurrence_from(lower(s), p, from) == first_occurrence_from(s, p, from),
    decreases s.len() + 1 - from,
{
    if !(from < 0 || from + p.len() > s.len()) {
        lemma_lower_subrange(s, from, from + p.len());
        let x = s.subrange(from, from + p.len());
        if lower(x) == p {
            assert forall|i: int| 0 <= i < p.len() implies x[i] == p[i] by {
                assert(lower(x)[i] == lower_char(x[i]));
                lemma_lower_char(x[i]);
            }
            assert(x =~= p);
        }
        if x == p {
            assert forall|i: int| 0 <= i < p.len() implies lower(x)[i] == p[i] by {
                lemma_lower_char(x[i]);
            }
            assert(lower(x) =~= p);
        }
        lemma_first_occurrence_lower(s, p, from + 1);
    }
}

pub fn is_digit(c: char) -> (b: bool)
    ensures
        b == is_ascii_digit(c),
{
    '0' <= c && c <= '9'
}

pub fn is_alnum(c: char) -> (b: bool)
    ensures
        b == is_ascii_alnum(c),
{
    ('0' <= c && c <= '9') || ('A' <= c && c <= 'Z') || ('a' <= c && c <= 'z')
}

pub fn is_whitespace(c: char) -> (b: bool)
    ensures
        b == is_ws(c),
{
    ('\u{9}' <= c && c <= '\u{d}') || c == ' ' || c == '\u{85}' || c == '\u{a0}' || c
        == '\u{1680}' || ('\u{2000}' <= c && c <= '\u{200a}') || c == '\u{2028}' || c
        == '\u{2029}' || c == '\u{202f}' || c == '\u{205f}' || c == '\u{3000}'
}

pub fn is_control(c: char) -> (b: bool)
    ensures
        b == is_ctrl(c),
{
    c <= '\u{1f}' || ('\u{7f}' <= c && c <= '\u{9f}')
}

pub fn to_lower(c: char) -> (r: char)
    ensures
        r == lower_char(c),
{
    if 'A' <= c && c <= 'Z' {
        let b: u8 = c as u8;
        assert(b as int == c as int);
        let r: char = (b + 32) as char;
        r
    } else {
        c
    }
}

// ---------------------------------------------------------------------
// Conversions between strings and character vectors
// ---------------------------------------------------------------------

/// The characters of `s`, in order.
pub fn chars_of(s: &str) -> (out: Vec<char>)
    ensures
        out@ == s@,
{
    let n = s.unicode_len();
    let mut out: Vec<char> = Vec::new();
    let mut i: usize = 0;
    while i < n
        invariant
            n == s@.len(),
            i <= n,
            out@ == s@.subrange(0, i as int),
        decreases n - i,
    {
        out.push(s.get_char(i));
        i = i + 1;
        assert(out@ =~= s@.subrange(0, i as int));
    }
    assert(s@.subrange(0, n as int) =~= s@);
    out
}

/// A string holding exactly the characters of `v`.
pub fn string_from_chars(v: &[char]) -> (out: String)
    ensures
        out@ == v@,
{
    let mut out = String::new();
    let mut i: usize = 0;
    while i < v.len()
        invariant
            i <= v.len(),
            out@ == v@.subrange(0, i as int),
        decreases v.len() - i,
    {
        out.push(v[i]);
        i = i + 1;
        assert(out@ =~= v@.subrange(0, i as int));
    }
    assert(v@.subrange(0, v.len() as int) =~= v@);
    out
}

/// The character sequences of a sequence of strings.
pub open spec fn views(v: Seq<String>) -> Seq<Seq<char>> {
    v.map_values(|x: String| x@)
}

/// A string made from a literal.
pub fn owned(s: &str) -> (out: String)
    ensures
        out@ == s@,
{
    s.to_owned()
}

/// A copy of a string (`String::clone`, stated over the view).
pub fn copy_string(s: &String) -> (out: String)
    ensures
        out@ == s@,
{
    s.clone()
}

/// Appends the characters of `v` to `s`.
pub fn push_chars(s: &mut String, v: &[char])
    ensures
        final(s)@ == old(s)@ + v@,
{
    let ghost start = s@;
    let mut i: usize = 0;
    while i < v.len()
        invariant
            i <= v.len(),
            s@ == start + v@.subrange(0, i as int),
        decreases v.len() - i,
    {
        s.push(v[i]);
        i = i + 1;
        assert(s@ =~= start + v@.subrange(0, i as int));
    }
    assert(v@.subrange(0, v.len() as int) =~= v@);
}

/// Appends `t` to `s`.
pub fn push_str(s: &mut String, t: &str)
    ensures
        final(s)@ == old(s)@ + t@,
{
    let v = chars_of(t);
    push_chars(s, v.as_slice());
}

/// `a` followed by `b`.
pub fn concat2(a: &str, b: &str) -> (out: String)
    ensures
        out@ == a@ + b@,
{
    let mut out = String::new();
    push_str(&mut out, a);
    push_str(&mut out, b);
    assert(out@ =~= a@ + b@);
    out
}

/// `a`, `b` and `c` in turn.
pub fn concat3(a: &str, b: &str, c: &str) -> (out: String)
    ensures
        out@ == a@ + b@ + c@,
{
    let mut out = String::new();
    push_str(&mut out, a);
    push_str(&mut out, b);
    push_str(&mut out, c);
    assert(out@ =~= a@ + b@ + c@);
    out
}

/// ASCII lower-casing of a character vector.
pub fn lower_vec(s: &[char]) -> (out: Vec<char>)
    ensures
        out@ == lower(s@),
{
    let mut out: Vec<char> = Vec::new();
    let mut i: usize = 0;
    while i < s.len()
        invariant
            i <= s.len(),
            out@ == lower(s@.subrange(0, i as int)),
        decreases s.len() - i,
    {
        out.push(to_lower(s[i]));
        i = i + 1;
        assert(out@ =~= lower(s@.subrange(0, i as int)));
    }
    assert(s@.subrange(0, s.len() as int) =~= s@);
    out
}

/// Equality of two character slices.
pub fn chars_eq(a: &[char], b: &[char]) -> (r: bool)
    ensures
        r == (a@ == b@),
{
    if a.len() != b.len() {
        return false;
    }
    let mut i: usize = 0;
    while i < a.len()
        invariant
            a.len() == b.len(),
            i <= a.len(),
            forall|k: int| 0 <= k < i ==> a@[k] == b@[k],
        decreases a.len() - i,
    {
        if a[i] != b[i] {
            return false;
        }
        i = i + 1;
    }
    assert(a@ =~= b@);
    true
}

/// Equality of a character slice with a string.
pub fn chars_eq_str(a: &[char], b: &str) -> (r: bool)
    ensures
        r == (a@ == b@),
{
    let v = chars_of(b);
    chars_eq(a, v.as_slice())
}

/// Equality of two strings.
pub fn str_eq(a: &str, b: &str) -> (r: bool)
    ensures
        r == (a@ == b@),
{
    let v = chars_of(a);
    chars_eq_str(v.as_slice(), b)
}

// ---------------------------------------------------------------------
// Prefixes and occurrences
// ---------------------------------------------------------------------

pub open spec fn has_prefix(s: Seq<char>, p: Seq<char>) -> bool {
    p.len() <= s.len() && s.subrange(0, p.len() as int) == p
}

pub open spec fn occurs_at(s: Seq<char>, p: Seq<char>, i: int) -> bool {
    0 <= i && i + p.len() <= s.len() && s.subrange(i, i + p.len()) == p
}

/// `p` occurs somewhere in `s` (`str::contains` with a string pattern).
pub open spec fn seq_contains(s: Seq<char>, p: Seq<char>) -> bool {
    exists|i: int| occurs_at(s, p, i)
}

/// The first index at or after `from` where `p` occurs, if any.
pub open spec fn first_occurrence_from(s: Seq<char>, p: Seq<char>, from: int) -> Option<int>
    decreases s.len() + 1 - from,
{
    if from < 0 || from + p.len() > s.len() {
        None
    } else if occurs_at(s, p, from) {
        Some(from)
    } else {
        first_occurrence_from(s, p, from + 1)
    }
}

pub open spec fn first_occurrence(s: Seq<char>, p: Seq<char>) -> Option<int> {
    first_occurrence_from(s, p, 0)
}

pub fn starts_with(s: &[char], p: &[char]) -> (r: bool)
    ensures
        r == has_prefix(s@, p@),
{
    if p.len() > s.len() {
        return false;
    }
    let mut i: usize = 0;
    while i < p.len()
        invariant
            p.len() <= s.len(),
            i <= p.len(),
            forall|k: int| 0 <= k < i ==> s@[k] == p@[k],
        decreases p.len() - i,
    {
        if s[i] != p[i] {
            assert(s@.subrange(0, p.len() as int)[i as int] != p@[i as int]);
            return false;
        }
        i = i + 1;
    }
    assert(s@.subrange(0, p.len() as int) =~= p@);
    true
}

pub fn starts_with_str(s: &[char], p: &str) -> (r: bool)
    ensures
        r == has_prefix(s@, p@),
{
    let v = chars_of(p);
    starts_with(s, v.as_slice())
}

/// Whether `p` occurs in `s` at index `i`.
pub fn matches_at(s: &[char], p: &[char], i: usize) -> (r: bool)
    ensures
        r == occurs_at(s@, p@, i as int),
{
    if i > s.len() || p.len() > s.len() - i {
        return false;
    }
    let mut k: usize = 0;
    while k < p.len()
        invariant
            i + p.len() <= s.len(),
            k <= p.len(),
            forall|j: int| 0 <= j < k ==> s@[i + j] == p@[j],
        decreases p.len() - k,
    {
        if s[i + k] != p[k] {
            assert(s@.subrange(i as int, i + p.len())[k as int] != p@[k as int]);
            return false;
        }
        k = k + 1;
    }
    assert(s@.subrange(i as int, i + p.len()) =~= p@);
    true
}

proof fn lemma_first_occurrence_none(s: Seq<char>, p: Seq<char>, from: int)
    requires
        0 <= from,
        first_occurrence_from(s, p, from) is None,
    ensures
        forall|i: int| from <= i ==> !occurs_at(s, p, i),
    decreases s.len() + 1 - from,
{
    if from + p.len() <= s.len() {
        lemma_first_occurrence_none(s, p, from + 1);
    }
}

proof fn lemma_first_occurrence_some(s: Seq<char>, p: Seq<char>, from: int)
    requires
        0 <= from,
        first_occurrence_from(s, p, from) is Some,
    ensures
        ({
            let i = first_occurrence_from(s, p, from)->0;
            &&& from <= i
            &&& occurs_at(s, p, i)
            &&& forall|j: int| from <= j < i ==> !occurs_at(s, p, j)
        }),
    decreases s.len() + 1 - from,
{
    if !occurs_at(s, p, from) {
        lemma_first_occurrence_some(s, p, from + 1);
    }
}

/// Facts that follow from the definition of the first occurrence.
pub proof fn lemma_first_occurrence(s: Seq<char>, p: Seq<char>)
    ensures
        first_occurrence(s, p) is None <==> !seq_contains(s, p),
        first_occurrence(s, p) is Some ==> ({
            let i = first_occurrence(s, p)->0;
            &&& occurs_at(s, p, i)
            &&& forall|j: int| 0 <= j < i ==> !occurs_at(s, p, j)
        }),
{
    if first_occurrence(s, p) is None {
        lemma_first_occurrence_none(s, p, 0);
    } else {
        lemma_first_occurrence_some(s, p, 0);
    }
}

/// The first index where `p` occurs in `s`.
pub fn find(s: &[char], p: &[char]) -> (r: Option<usize>)
    ensures
        r matches Some(i) ==> first_occurrence(s@, p@) == Some(i as int),
        r is None ==> first_occurrence(s@, p@) is None,
{
    let mut i: usize = 0;
    if p.len() > s.len() {
        return None;
    }
    let last = s.len() - p.len();
    while i <= last
        invariant
            p.len() <= s.len(),
            last == s.len() - p.len(),
            i <= last + 1,
            first_occurrence_from(s@, p@, 0) == first_occurrence_from(s@, p@, i as int),
        decreases last + 1 - i,
    {
        if matches_at(s, p, i) {
            return Some(i);
        }
        if i == last {
            assert(first_occurrence_from(s@, p@, i + 1) is None);
            return None;
        }
        i = i + 1;
    }
    None
}

/// Whether `p` occurs in `s`.
pub fn contains(s: &[char], p: &[char]) -> (r: bool)
    ensures
        r == seq_contains(s@, p@),
{
    proof {
        lemma_first_occurrence(s@, p@);
    }
    find(s, p).is_some()
}

pub fn contains_str(s: &[char], p: &str) -> (r: bool)
    ensures
        r == seq_contains(s@, p@),
{
    let v = chars_of(p);
    contains(s, v.as_slice())
}

/// Whether the character `c` occurs in `s`.
pub fn contains_char(s: &[char], c: char) -> (r: bool)
    ensures
        r == s@.contains(c),
{
    let mut i: usize = 0;
    while i < s.len()
        invariant
            i <= s.len(),
            forall|k: int| 0 <= k < i ==> s@[k] != c,
        decreases s.len() - i,
    {
        if s[i] == c {
            assert(s@[i as int] == c);
            return true;
        }
        i = i + 1;
    }
    false
}

/// How many times `c` occurs in `s`.
pub open spec fn count_char(s: Seq<char>, c: char) -> nat
    decreases s.len(),
{
    if s.len() == 0 {
        0
    } else {
        count_char(s.drop_last(), c) + if s.last() == c {
            1nat
        } else {
            0nat
        }
    }
}

/// A sub-slice copied out as a vector.
pub fn slice_vec(s: &[char], from: usize, to: usize) -> (out: Vec<char>)
    requires
        from <= to <= s.len(),
    ensures
        out@ == s@.subrange(from as int, to as int),
{
    let mut out: Vec<char> = Vec::new();
    let mut i: usize = from;
    while i < to
        invariant
            from <= i <= to,
            to <= s.len(),
            out@ == s@.subrange(from as int, i as int),
        decreases to - i,
    {
        out.push(s[i]);
        i = i + 1;
        assert(out@ =~= s@.subrange(from as int, i as int));
    }
    out
}

// ---------------------------------------------------------------------
// Scanning for the first character of a class
// ---------------------------------------------------------------------

/// The index of the first character of `s` that satisfies `stop`, or the
/// length of `s` when there is none.
pub open spec fn index_where(s: Seq<char>, stop: spec_fn(char) -> bool) -> nat
    decreases s.len(),
{
    if s.len() == 0 {
        0
    } else if stop(s[0]) {
        0
    } else {
        1 + index_where(s.drop_first(), stop)
    }
}

/// The part of `s` before its first character that satisfies `stop`.
pub open spec fn prefix_until(s: Seq<char>, stop: spec_fn(char) -> bool) -> Seq<char> {
    s.subrange(0, index_where(s, stop) as int)
}

pub proof fn lemma_index_where(s: Seq<char>, stop: spec_fn(char) -> bool)
    ensures
        index_where(s, stop) <= s.len(),
        forall|k: int| 0 <= k < index_where(s, stop) ==> !stop(#[trigger] s[k]),
        index_where(s, stop) < s.len() ==> stop(s[index_where(s, stop) as int]),
    decreases s.len(),
{
    if s.len() > 0 && !stop(s[0]) {
        lemma_index_where(s.drop_first(), stop);
        assert forall|k: int| 0 < k < index_where(s, stop) implies !stop(#[trigger] s[k]) by {
            assert(s.drop_first()[k - 1] == s[k]);
        }
        if index_where(s, stop) < s.len() {
            assert(s.drop_first()[index_where(s, stop) - 1] == s[index_where(s, stop) as int]);
        }
    }
}

/// An index with no earlier `stop` character, at which `s` ends or a `stop`
/// character stands, is the one `index_where` gives.
pub proof fn lemma_index_where_unique(s: Seq<char>, stop: spec_fn(char) -> bool, i: int)
    requires
        0 <= i <= s.len(),
        forall|k: int| 0 <= k < i ==> !stop(#[trigger] s[k]),
        i < s.len() ==> stop(s[i]),
    ensures
        index_where(s, stop) == i,
    decreases s.len(),
{
    if s.len() > 0 && i > 0 {
        assert(!stop(s[0]));
        assert forall|k: int| 0 <= k < i - 1 implies !stop(#[trigger] s.drop_first()[k]) by {
            assert(s.drop_first()[k] == s[k + 1]);
        }
        if i - 1 < s.drop_first().len() {
            assert(s.drop_first()[i - 1] == s[i]);
        }
        lemma_index_where_unique(s.drop_first(), stop, i - 1);
    }
}

pub open spec fn is_char(c: char) -> spec_fn(char) -> bool {
    |x: char| x == c
}

/// The first index in `s` at or after `from` that holds `c`, or `s.len()`.
pub fn index_of_char_from(s: &[char], c: char, from: usize) -> (r: usize)
    requires
        from <= s.len(),
    ensures
        r == from + index_where(s@.subrange(from as int, s.len() as int), is_char(c)),
{
    let mut i: usize = from;
    while i < s.len() && s[i] != c
        invariant
            from <= i <= s.len(),
            forall|k: int| from <= k < i ==> s@[k] != c,
        decreases s.len() - i,
    {
        i = i + 1;
    }
    proof {
        let t = s@.subrange(from as int, s.len() as int);
        assert forall|k: int| 0 <= k < i - from implies !is_char(c)(#[trigger] t[k]) by {
            assert(t[k] == s@[from + k]);
        }
        if i < s.len() {
            assert(t[i - from] == s@[i as int]);
        }
        lemma_index_where_unique(t, is_char(c), i - from);
    }
    i
}

/// The first index in `s` that holds `c`, or `s.len()`.
pub fn index_of_char(s: &[char], c: char) -> (r: usize)
    ensures
        r == index_where(s@, is_char(c)),
{
    let r = index_of_char_from(s, c, 0);
    assert(s@.subrange(0, s.len() as int) =~= s@);
    r
}

/// The last index in `s` that holds `c`, if any.
pub open spec fn last_index_of(s: Seq<char>, c: char) -> int
    decreases s.len(),
{
    if s.len() == 0 {
        -1
    } else if s.last() == c {
        s.len() - 1
    } else {
        last_index_of(s.drop_last(), c)
    }
}

pub proof fn lemma_last_index_of(s: Seq<char>, c: char)
    ensures
        -1 <= last_index_of(s, c) < s.len(),
        last_index_of(s, c) >= 0 ==> s[last_index_of(s, c)] == c,
        forall|k: int| last_index_of(s, c) < k < s.len() ==> s[k] != c,
    decreases s.len(),
{
    if s.len() > 0 && s.last() != c {
        lemma_last_index_of(s.drop_last(), c);
        assert forall|k: int| last_index_of(s, c) < k < s.len() implies s[k] != c by {
            if k < s.len() - 1 {
                assert(s.drop_last()[k] == s[k]);
            }
        }
    }
}

/// `last_index_of` for an executable slice.
pub fn rfind_char(s: &[char], c: char) -> (r: Option<usize>)
    ensures
        r matches Some(i) ==> last_index_of(s@, c) == i as int,
        r is None ==> last_index_of(s@, c) == -1,
{
    let mut j: usize = s.len();
    assert(s@.subrange(0, s.len() as int) =~= s@);
    while j > 0 && s[j - 1] != c
        invariant
            j <= s.len(),
            last_index_of(s@, c) == last_index_of(s@.subrange(0, j as int), c),
        decreases j,
    {
        assert(s@.subrange(0, j as int).drop_last() =~= s@.subrange(0, j - 1));
        j = j - 1;
    }
    if j == 0 {
        None
    } else {
        Some(j - 1)
    }
}

/// `s` with every leading copy of `p` removed (`str::trim_start_matches`).
pub open spec fn strip_repeated(s: Seq<char>, p: Seq<char>) -> Seq<char>
    decreases s.len(),
{
    if p.len() > 0 && has_prefix(s, p) {
        strip_repeated(s.subrange(p.len() as int, s.len() as int), p)
    } else {
        s
    }
}

pub fn strip_repeated_vec(s: &[char], p: &[char]) -> (out: Vec<char>)
    ensures
        out@ == strip_repeated(s@, p@),
{
    let mut start: usize = 0;
    assert(s@.subrange(0, s.len() as int) =~= s@);
    if p.len() == 0 {
        return slice_vec(s, 0, s.len());
    }
    loop
        invariant
            p.len() > 0,
            start <= s.len(),
            strip_repeated(s@, p@) == strip_repeated(s@.subrange(start as int, s.len() as int), p@),
        decreases s.len() - start,
    {
        let rest = slice_vec(s, start, s.len());
        if starts_with(rest.as_slice(), p) {
            assert(rest@.subrange(p.len() as int, rest.len() as int) =~= s@.subrange(
                start + p.len(),
                s.len() as int,
            ));
            start = start + p.len();
        } else {
            return rest;
        }
    }
}

// ---------------------------------------------------------------------
// Trimming (Unicode white space, as `str::trim`)
// ---------------------------------------------------------------------

pub open spec fn leading_ws(s: Seq<char>) -> nat
    decreases s.len(),
{
    if s.len() > 0 && is_ws(s[0]) {
        1 + leading_ws(s.drop_first())
    } else {
        0
    }
}

pub open spec fn trailing_ws(s: Seq<char>) -> nat
    decreases s.len(),
{
    if s.len() > 0 && is_ws(s.last()) {
        1 + trailing_ws(s.drop_last())
    } else {
        0
    }
}

pub open spec fn trim_start(s: Seq<char>) -> Seq<char> {
    s.subrange(leading_ws(s) as int, s.len() as int)
}

pub open spec fn trim_end(s: Seq<char>) -> Seq<char> {
    s.subrange(0, s.len() - trailing_ws(s))
}

/// White space removed from both ends (`str::trim`).
pub open spec fn trim(s: Seq<char>) -> Seq<char> {
    trim_end(trim_start(s))
}

/// Every character is white space (`str::trim` gives the empty string).
pub open spec fn all_ws(s: Seq<char>) -> bool {
    forall|i: int| 0 <= i < s.len() ==> is_ws(s[i])
}

pub proof fn lemma_leading_ws_bound(s: Seq<char>)
    ensures
        leading_ws(s) <= s.len(),
        forall|k: int| 0 <= k < leading_ws(s) ==> is_ws(s[k]),
        leading_ws(s) < s.len() ==> !is_ws(s[leading_ws(s) as int]),
    decreases s.len(),
{
    if s.len() > 0 && is_ws(s[0]) {
        lemma_leading_ws_bound(s.drop_first());
        assert forall|k: int| 0 < k < leading_ws(s) implies is_ws(s[k]) by {
            assert(s.drop_first()[k - 1] == s[k]);
        }
        if leading_ws(s) < s.len() {
            assert(s.drop_first()[leading_ws(s) - 1] == s[leading_ws(s) as int]);
        }
    }
}

pub proof fn lemma_trailing_ws_bound(s: Seq<char>)
    ensures
        trailing_ws(s) <= s.len(),
        forall|k: int| s.len() - trailing_ws(s) <= k < s.len() ==> is_ws(s[k]),
        trailing_ws(s) < s.len() ==> !is_ws(s[s.len() - trailing_ws(s) - 1]),
    decreases s.len(),
{
    if s.len() > 0 && is_ws(s.last()) {
        lemma_trailing_ws_bound(s.drop_last());
        assert forall|k: int| s.len() - trailing_ws(s) <= k < s.len() - 1 implies is_ws(s[k]) by {
            assert(s.drop_last()[k] == s[k]);
        }
    }
}

proof fn lemma_leading_ws_step(s: Seq<char>, i: int)
    requires
        0 <= i < s.len(),
        is_ws(s[i]),
    ensures
        leading_ws(s.subrange(i, s.len() as int)) == 1 + leading_ws(
            s.subrange(i + 1, s.len() as int),
        ),
{
    assert(s.subrange(i, s.len() as int).drop_first() =~= s.subrange(i + 1, s.len() as int));
}

proof fn lemma_trailing_ws_step(s: Seq<char>, j: int)
    requires
        0 < j <= s.len(),
        is_ws(s[j - 1]),
    ensures
        trailing_ws(s.subrange(0, j)) == 1 + trailing_ws(s.subrange(0, j - 1)),
{
    assert(s.subrange(0, j).drop_last() =~= s.subrange(0, j - 1));
}

/// The number of leading white-space characters of `s`.
pub fn count_leading_ws(s: &[char]) -> (n: usize)
    ensures
        n == leading_ws(s@),
{
    let mut i: usize = 0;
    assert(s@.subrange(0, s.len() as int) =~= s@);
    while i < s.len() && is_whitespace(s[i])
        invariant
            i <= s.len(),
            leading_ws(s@) == i + leading_ws(s@.subrange(i as int, s.len() as int)),
        decreases s.len() - i,
    {
        proof {
            lemma_leading_ws_step(s@, i as int);
        }
        i = i + 1;
    }
    i
}

/// The number of trailing white-space characters of `s`.
pub fn count_trailing_ws(s: &[char]) -> (n: usize)
    ensures
        n == trailing_ws(s@),
{
    let mut j: usize = s.len();
    proof {
        assert(s@.subrange(0, s.len() as int) =~= s@);
    }
    while j > 0 && is_whitespace(s[j - 1])
        invariant
            j <= s.len(),
            trailing_ws(s@) == (s.len() - j) + trailing_ws(s@.subrange(0, j as int)),
        decreases j,
    {
        proof {
            lemma_trailing_ws_step(s@, j as int);
        }
        j = j - 1;
    }
    (s.len() - j) as usize
}

/// `s` with white space removed from both ends.
pub fn trim_vec(s: &[char]) -> (out: Vec<char>)
    ensures
        out@ == trim(s@),
{
    let a = count_leading_ws(s);
    proof {
        lemma_leading_ws_bound(s@);
    }
    let rest = slice_vec(s, a, s.len());
    let b = count_trailing_ws(rest.as_slice());
    proof {
        lemma_trailing_ws_bound(rest@);
    }
    slice_vec(rest.as_slice(), 0, rest.len() - b)
}

proof fn lemma_all_ws_leading(s: Seq<char>)
    requires
        all_ws(s),
    ensures
        leading_ws(s) == s.len(),
    decreases s.len(),
{
    if s.len() > 0 {
        assert forall|i: int| 0 <= i < s.drop_first().len() implies is_ws(s.drop_first()[i]) by {
            assert(s.drop_first()[i] == s[i + 1]);
        }
        lemma_all_ws_leading(s.drop_first());
    }
}

/// The trimmed sequence is empty exactly when every character is white space.
pub proof fn lemma_trim_empty(s: Seq<char>)
    ensures
        (trim(s).len() == 0) == all_ws(s),
{
    lemma_leading_ws_bound(s);
    let t = trim_start(s);
    lemma_trailing_ws_bound(t);
    if all_ws(s) {
        lemma_all_ws_leading(s);
        assert(t.len() == 0);
    } else {
        if leading_ws(s) == s.len() {
            assert(all_ws(s));
        }
        assert(t.len() > 0);
        assert(t[0] == s[leading_ws(s) as int]);
        assert(!is_ws(t[0]));
        if trailing_ws(t) == t.len() {
            assert(is_ws(t[0]));
        }
    }
}

proof fn lemma_leading_ws_lower(s: Seq<char>)
    ensures
        leading_ws(lower(s)) == leading_ws(s),
    decreases s.len(),
{
    if s.len() > 0 {
        assert(lower(s).drop_first() =~= lower(s.drop_first()));
        assert(lower(s)[0] == lower_char(s[0]));
        lemma_lower_char(s[0]);
        lemma_leading_ws_lower(s.drop_first());
    }
}

proof fn lemma_trailing_ws_lower(s: Seq<char>)
    ensures
        trailing_ws(lower(s)) == trailing_ws(s),
    decreases s.len(),
{
    if s.len() > 0 {
        assert(lower(s).drop_last() =~= lower(s.drop_last()));
        assert(lower(s).last() == lower_char(s.last()));
        lemma_lower_char(s.last());
        lemma_trailing_ws_lower(s.drop_last());
    }
}

/// Trimming and lower-casing can be done in either order.
pub proof fn lemma_trim_lower(s: Seq<char>)
    ensures
        trim(lower(s)) == lower(trim(s)),
{
    lemma_leading_ws_lower(s);
    lemma_leading_ws_bound(s);
    lemma_lower_subrange(s, leading_ws(s) as int, s.len() as int);
    let u = trim_start(s);
    lemma_trailing_ws_lower(u);
    lemma_trailing_ws_bound(u);
    lemma_lower_subrange(u, 0, u.len() - trailing_ws(u));
}

/// Trimming twice is trimming once.
pub proof fn lemma_trim_twice(s: Seq<char>)
    ensures
        trim(trim(s)) == trim(s),
{
    lemma_leading_ws_bound(s);
    let u = trim_start(s);
    lemma_trailing_ws_bound(u);
    let t = trim(s);
    if t.len() > 0 {
        assert(t[0] == s[leading_ws(s) as int]);
        assert(leading_ws(t) == 0);
        assert(trim_start(t) =~= t);
        assert(t.last() == u[u.len() - trailing_ws(u) - 1]);
        assert(trailing_ws(t) == 0);
        assert(trim_end(t) =~= t);
    } else {
        assert(trim(t) =~= t);
    }
}

/// Whether `s` is empty once trimmed (`s.trim().is_empty()`).
pub fn is_blank(s: &[char]) -> (r: bool)
    ensures
        r == (trim(s@).len() == 0),
        r == all_ws(s@),
{
    let t = trim_vec(s);
    proof {
        lemma_trim_empty(s@);
    }
    t.len() == 0
}

pub fn is_blank_str(s: &str) -> (r: bool)
    ensures
        r == all_ws(s@),
{
    let v = chars_of(s);
    is_blank(v.as_slice())
}

pub fn trim_str(s: &str) -> (out: String)
    ensures
        out@ == trim(s@),
{
    let v = chars_of(s);
    let t = trim_vec(v.as_slice());
    string_from_chars(t.as_slice())
}

// ---------------------------------------------------------------------
// Trimming a given character, and replacing substrings
// ---------------------------------------------------------------------

pub open spec fn not_char(c: char) -> spec_fn(char) -> bool {
    |x: char| x != c
}

/// The number of copies of `c` that end `s`.
pub open spec fn trailing_count(s: Seq<char>, c: char) -> nat
    decreases s.len(),
{
    if s.len() > 0 && s.last() == c {
        1 + trailing_count(s.drop_last(), c)
    } else {
        0
    }
}

/// `s` without the copies of `c` at its start and end (`str::trim_matches`
/// with a character).
pub open spec fn trim_char(s: Seq<char>, c: char) -> Seq<char> {
    let rest = s.subrange(index_where(s, not_char(c)) as int, s.len() as int);
    rest.subrange(0, rest.len() - trailing_count(rest, c))
}

pub proof fn lemma_trailing_count(s: Seq<char>, c: char)
    ensures
        trailing_count(s, c) <= s.len(),
    decreases s.len(),
{
    if s.len() > 0 && s.last() == c {
        lemma_trailing_count(s.drop_last(), c);
    }
}

pub fn trim_char_vec(s: &[char], c: char) -> (out: Vec<char>)
    ensures
        out@ == trim_char(s@, c),
{
    let mut a: usize = 0;
    while a < s.len() && s[a] == c
        invariant
            a <= s.len(),
            forall|k: int| 0 <= k < a ==> !(not_char(c))(#[trigger] s@[k]),
        decreases s.len() - a,
    {
        a = a + 1;
    }
    proof {
        lemma_index_where_unique(s@, not_char(c), a as int);
    }
    let rest = slice_vec(s, a, s.len());
    let mut j: usize = rest.len();
    assert(rest@.subrange(0, rest.len() as int) =~= rest@);
    while j > 0 && rest[j - 1] == c
        invariant
            j <= rest.len(),
            trailing_count(rest@, c) == (rest.len() - j) + trailing_count(
                rest@.subrange(0, j as int),
                c,
            ),
        decreases j,
    {
        assert(rest@.subrange(0, j as int).drop_last() =~= rest@.subrange(0, j - 1));
        j = j - 1;
    }
    slice_vec(rest.as_slice(), 0, j)
}

pub fn trim_char_str(s: &str, c: char) -> (out: String)
    ensures
        out@ == trim_char(s@, c),
{
    let v = chars_of(s);
    let t = trim_char_vec(v.as_slice(), c);
    string_from_chars(t.as_slice())
}

/// `r` before every character of `s` and once more at the end (what
/// `str::replace` does with an empty pattern).
pub open spec fn interleave(s: Seq<char>, r: Seq<char>) -> Seq<char>
    decreases s.len(),
{
    if s.len() == 0 {
        r
    } else {
        r + seq![s[0]] + interleave(s.drop_first(), r)
    }
}

/// Every occurrence of `p` in `s`, found from left to right without
/// overlap, replaced by `r` (`str::replace`).
pub open spec fn replace_all(s: Seq<char>, p: Seq<char>, r: Seq<char>) -> Seq<char>
    decreases s.len(),
{
    if p.len() == 0 {
        interleave(s, r)
    } else if s.len() == 0 {
        Seq::empty()
    } else if has_prefix(s, p) {
        r + replace_all(s.subrange(p.len() as int, s.len() as int), p, r)
    } else {
        seq![s[0]] + replace_all(s.drop_first(), p, r)
    }
}

/// Where the first `m` characters of a replacement hold no `r[0]`, no
/// replacement starts among them, so they are the first `m` characters of
/// the input.
proof fn lemma_replace_all_prefix(s: Seq<char>, p: Seq<char>, r: Seq<char>, m: int)
    requires
        p.len() > 0,
        r.len() > 0,
        0 <= m <= replace_all(s, p, r).len(),
        forall|j: int| 0 <= j < m ==> replace_all(s, p, r)[j] != r[0],
    ensures
        m <= s.len(),
        replace_all(s, p, r).subrange(0, m) == s.subrange(0, m),
    decreases s.len(),
{
    let t = replace_all(s, p, r);
    if m > 0 {
        if has_prefix(s, p) {
            assert(t[0] == r[0]);
        } else {
            let rest = replace_all(s.drop_first(), p, r);
            assert(t == seq![s[0]] + rest);
            assert forall|j: int| 0 <= j < m - 1 implies rest[j] != r[0] by {
                assert(t[j + 1] == rest[j]);
            }
            lemma_replace_all_prefix(s.drop_first(), p, r, m - 1);
            assert(t.subrange(0, m) =~= s.subrange(0, m)) by {
                assert forall|j: int| 0 <= j < m implies t.subrange(0, m)[j] == s.subrange(0, m)[j] by {
                    if j > 0 {
                        assert(rest.subrange(0, m - 1)[j - 1] == s.drop_first().subrange(0, m - 1)[j - 1]);
                    }
                }
            }
        }
    } else {
        assert(t.subrange(0, 0) =~= s.subrange(0, 0));
    }
}

/// Replacing every occurrence of `p` by a marker that begins and ends with
/// characters `p` does not hold, and in which `p` does not occur, leaves no
/// occurrence of `p`.
pub proof fn lemma_replace_all_removes(s: Seq<char>, p: Seq<char>, r: Seq<char>)
    requires
        p.len() > 0,
        r.len() > 0,
        !p.contains(r[0]),
        !p.contains(r.last()),
        !seq_contains(r, p),
    ensures
        !seq_contains(replace_all(s, p, r), p),
    decreases s.len(),
{
    let t = replace_all(s, p, r);
    if s.len() == 0 {
        assert(t.len() == 0);
    } else if has_prefix(s, p) {
        let rest = replace_all(s.subrange(p.len() as int, s.len() as int), p, r);
        lemma_replace_all_removes(s.subrange(p.len() as int, s.len() as int), p, r);
        assert(t == r + rest);
        if seq_contains(t, p) {
            let i = choose|i: int| occurs_at(t, p, i);
            if i + p.len() <= r.len() {
                assert(occurs_at(r, p, i)) by {
                    assert(r.subrange(i, i + p.len()) =~= t.subrange(i, i + p.len()));
                }
            } else if i < r.len() {
                let k = r.len() - 1 - i;
                assert(t.subrange(i, i + p.len())[k] == t[r.len() - 1]);
                assert(p[k] == r.last());
            } else {
                assert(occurs_at(rest, p, i - r.len())) by {
                    assert(rest.subrange(i - r.len(), i - r.len() + p.len()) =~= t.subrange(i, i + p.len()));
                }
            }
        }
    } else {
        let rest = replace_all(s.drop_first(), p, r);
        lemma_replace_all_removes(s.drop_first(), p, r);
        assert(t == seq![s[0]] + rest);
        if seq_contains(t, p) {
            let i = choose|i: int| occurs_at(t, p, i);
            if i > 0 {
                assert(occurs_at(rest, p, i - 1)) by {
                    assert(rest.subrange(i - 1, i - 1 + p.len()) =~= t.subrange(i, i + p.len()));
                }
            } else {
                let m = p.len() - 1;
                assert forall|j: int| 0 <= j < m implies rest[j] != r[0] by {
                    assert(t.subrange(0, p.len() as int)[j + 1] == rest[j]);
                    assert(p[j + 1] == rest[j]);
                }
                lemma_replace_all_prefix(s.drop_first(), p, r, m);
                assert(has_prefix(s, p)) by {
                    assert forall|j: int| 0 <= j < p.len() implies s.subrange(0, p.len() as int)[j] == p[j] by {
                        if j > 0 {
                            assert(rest.subrange(0, m)[j - 1] == s.drop_first().subrange(0, m)[j - 1]);
                            assert(t[j] == rest[j - 1]);
                        }
                    }
                    assert(s.subrange(0, p.len() as int) =~= p);
                }
            }
        }
    }
}

pub fn replace_vec(s: &[char], p: &[char], r: &[char]) -> (out: Vec<char>)
    ensures
        out@ == replace_all(s@, p@, r@),
{
    let mut out: Vec<char> = Vec::new();
    let mut i: usize = 0;
    assert(s@.subrange(0, s.len() as int) =~= s@);
    if p.len() == 0 {
        while i < s.len()
            invariant
                p@.len() == 0,
                i <= s.len(),
                out@ + interleave(s@.subrange(i as int, s.len() as int), r@) == replace_all(
                    s@,
                    p@,
                    r@,
                ),
            decreases s.len() - i,
        {
            let ghost rest = s@.subrange(i as int, s.len() as int);
            assert(rest.drop_first() =~= s@.subrange(i + 1, s.len() as int));
            let ghost before = out@;
            let mut k: usize = 0;
            while k < r.len()
                invariant
                    k <= r.len(),
                    out@ == before + r@.subrange(0, k as int),
                decreases r.len() - k,
            {
                out.push(r[k]);
                k = k + 1;
                assert(out@ =~= before + r@.subrange(0, k as int));
            }
            assert(r@.subrange(0, r.len() as int) =~= r@);
            out.push(s[i]);
            assert(out@ + interleave(rest.drop_first(), r@) =~= before + interleave(rest, r@));
            i = i + 1;
        }
        assert(s@.subrange(i as int, s.len() as int) =~= Seq::<char>::empty());
        let ghost before = out@;
        let mut k: usize = 0;
        while k < r.len()
            invariant
                k <= r.len(),
                out@ == before + r@.subrange(0, k as int),
            decreases r.len() - k,
        {
            out.push(r[k]);
            k = k + 1;
            assert(out@ =~= before + r@.subrange(0, k as int));
        }
        assert(r@.subrange(0, r.len() as int) =~= r@);
        return out;
    }
    while i < s.len()
        invariant
            p@.len() > 0,
            i <= s.len(),
            out@ + replace_all(s@.subrange(i as int, s.len() as int), p@, r@) == replace_all(
                s@,
                p@,
                r@,
            ),
        decreases s.len() - i,
    {
        let ghost rest = s@.subrange(i as int, s.len() as int);
        let ghost before = out@;
        if matches_at(s, p, i) {
            assert(rest.subrange(0, p.len() as int) =~= s@.subrange(i as int, i + p.len()));
            assert(rest.subrange(p.len() as int, rest.len() as int) =~= s@.subrange(
                i + p.len(),
                s.len() as int,
            ));
            let mut k: usize = 0;
            while k < r.len()
                invariant
                    k <= r.len(),
                    out@ == before + r@.subrange(0, k as int),
                decreases r.len() - k,
            {
                out.push(r[k]);
                k = k + 1;
                assert(out@ =~= before + r@.subrange(0, k as int));
            }
            assert(r@.subrange(0, r.len() as int) =~= r@);
            i = i + p.len();
            assert(out@ + replace_all(s@.subrange(i as int, s.len() as int), p@, r@) =~= before
                + replace_all(rest, p@, r@));
        } else {
            proof {
                if has_prefix(rest, p@) {
                    assert(rest.subrange(0, p.len() as int) =~= s@.subrange(i as int, i + p.len()));
                }
            }
            assert(rest.drop_first() =~= s@.subrange(i + 1, s.len() as int));
            out.push(s[i]);
            i = i + 1;
            assert(out@ + replace_all(s@.subrange(i as int, s.len() as int), p@, r@) =~= before
                + replace_all(rest, p@, r@));
        }
    }
    assert(s@.subrange(i as int, s.len() as int) =~= Seq::<char>::empty());
    assert(out@ =~= replace_all(s@, p@, r@));
    out
}

// ---------------------------------------------------------------------
// Decimal numbers
// ---------------------------------------------------------------------

pub open spec fn digit_value(c: char) -> nat {
    ((c as int) - ('0' as int)) as nat
}

pub open spec fn all_digits(s: Seq<char>) -> bool {
    forall|i: int| 0 <= i < s.len() ==> is_ascii_digit(s[i])
}

/// The value of a string of decimal digits.
pub open spec fn decimal_value(s: Seq<char>) -> nat
    decreases s.len(),
{
    if s.len() == 0 {
        0
    } else {
        decimal_value(s.drop_last()) * 10 + digit_value(s.last())
    }
}

pub open spec fn digit_char(d: nat) -> char {
    (('0' as int) + d) as char
}

/// The shortest decimal representation of `n` (`n.to_string()`).
pub open spec fn decimal(n: nat) -> Seq<char>
    decreases n,
{
    if n < 10 {
        seq![digit_char(n)]
    } else {
        decimal(n / 10).push(digit_char(n % 10))
    }
}

/// What `u64::from_str` accepts: an optional `+`, then one or more digits,
/// with a value below 2^64.
pub open spec fn parse_u64_spec(s: Seq<char>) -> Option<u64> {
    let digits = if s.len() > 0 && s[0] == '+' {
        s.drop_first()
    } else {
        s
    };
    if digits.len() > 0 && all_digits(digits) && decimal_value(digits) <= u64::MAX {
        Some(decimal_value(digits) as u64)
    } else {
        None
    }
}

proof fn lemma_decimal_value_grows(s: Seq<char>, c: char)
    requires
        is_ascii_digit(c),
    ensures
        decimal_value(s.push(c)) >= decimal_value(s),
        decimal_value(s.push(c)) == decimal_value(s) * 10 + digit_value(c),
{
    assert(s.push(c).drop_last() =~= s);
}

/// The value of the digits in `s[from..to]`, or `None` when some character
/// is not a digit or the value does not fit in a `u64`.
pub fn digits_value(s: &[char], from: usize, to: usize) -> (r: Option<u64>)
    requires
        from <= to <= s.len(),
    ensures
        r matches Some(v) ==> all_digits(s@.subrange(from as int, to as int)) && v
            == decimal_value(s@.subrange(from as int, to as int)),
        r is None ==> !all_digits(s@.subrange(from as int, to as int)) || decimal_value(
            s@.subrange(from as int, to as int),
        ) > u64::MAX,
{
    let mut value: u64 = 0;
    let mut i: usize = from;
    let mut overflow = false;
    while i < to
        invariant
            from <= i <= to,
            to <= s.len(),
            all_digits(s@.subrange(from as int, i as int)),
            !overflow ==> value == decimal_value(s@.subrange(from as int, i as int)),
            overflow ==> decimal_value(s@.subrange(from as int, i as int)) > u64::MAX,
        decreases to - i,
    {
        let c = s[i];
        if !is_digit(c) {
            assert(s@.subrange(from as int, to as int)[i - from] == c);
            return None;
        }
        proof {
            assert(s@.subrange(from as int, i + 1) =~= s@.subrange(from as int, i as int).push(c));
            lemma_decimal_value_grows(s@.subrange(from as int, i as int), c);
        }
        let d = (c as u32 - '0' as u32) as u64;
        if !overflow {
            if value > (u64::MAX - d) / 10 {
                overflow = true;
            } else {
                value = value * 10 + d;
            }
        }
        i = i + 1;
    }
    if overflow {
        None
    } else {
        Some(value)
    }
}

/// `u64::from_str` on a character slice.
pub fn parse_u64(s: &[char]) -> (r: Option<u64>)
    ensures
        r == parse_u64_spec(s@),
{
    let start: usize = if s.len() > 0 && s[0] == '+' {
        1
    } else {
        0
    };
    proof {
        if s.len() > 0 && s@[0] == '+' {
            assert(s@.drop_first() =~= s@.subrange(1, s.len() as int));
        } else {
            assert(s@ =~= s@.subrange(0, s.len() as int));
        }
    }
    if start == s.len() {
        return None;
    }
    digits_value(s, start, s.len())
}

proof fn lemma_decimal_len(n: nat)
    ensures
        decimal(n).len() >= 1,
        n < 10 ==> decimal(n).len() == 1,
    decreases n,
{
    if n >= 10 {
        lemma_decimal_len(n / 10);
    }
}

/// Appends the decimal representation of `n` to `out`.
pub fn push_decimal(out: &mut String, n: u64)
    ensures
        final(out)@ == old(out)@ + decimal(n as nat),
    decreases n,
{
    if n >= 10 {
        push_decimal(out, n / 10);
    }
    let d = (n % 10) as u32;
    let c: char = ((d + 48) as u8) as char;
    proof {
        assert(c == digit_char((n % 10) as nat));
    }
    let ghost before = out@;
    out.push(c);
    proof {
        if n >= 10 {
            assert(decimal(n as nat) == decimal((n / 10) as nat).push(digit_char((n % 10) as nat)));
        }
        assert(out@ =~= old(out)@ + decimal(n as nat));
    }
}

/// The decimal representation of `n` (`n.to_string()`).
pub fn decimal_string(n: u64) -> (out: String)
    ensures
        out@ == decimal(n as nat),
{
    let mut out = String::new();
    push_decimal(&mut out, n);
    assert(out@ =~= decimal(n as nat));
    out
}

} // verus!
