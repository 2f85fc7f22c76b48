//! Character-sequence utilities: the string model used throughout the
//! library. Text is handled as vectors of `char` whose view is `Seq<char>`,
//! so every predicate and transformation has a direct mathematical spec.

use vstd::prelude::*;

verus! {

/// Relies on `str::chars` (via `Iterator::collect` for `Vec`): yields the
/// characters of the string in order, which is exactly the string's view.
#[verifier::external_body]
pub fn chars_of(s: &str) -> (r: Vec<char>)
    ensures
        r@ == s@,
{
    s.chars().collect()
}

/// Relies on `String`'s `FromIterator<char>`: concatenates the characters
/// in order, so the resulting string's view is the input sequence.
#[verifier::external_body]
pub fn string_of(v: &Vec<char>) -> (r: String)
    ensures
        r@ == v@,
{
    v.iter().collect()
}

/// `pat` occurs in `s` starting at index `i`.
pub open spec fn contains_at(s: Seq<char>, pat: Seq<char>, i: int) -> bool {
    0 <= i && i + pat.len() <= s.len() && s.subrange(i, i + pat.len() as int) == pat
}

/// `pat` occurs somewhere in `s`.
pub open spec fn seq_contains(s: Seq<char>, pat: Seq<char>) -> bool {
    exists|i: int| contains_at(s, pat, i)
}

pub open spec fn seq_starts_with(s: Seq<char>, pat: Seq<char>) -> bool {
    contains_at(s, pat, 0)
}

pub open spec fn seq_ends_with(s: Seq<char>, pat: Seq<char>) -> bool {
    contains_at(s, pat, s.len() - pat.len())
}

/// `pat` occurs at `i` in `v`, decided by an element-wise scan.
pub fn eq_at(v: &Vec<char>, pat: &Vec<char>, i: usize) -> (r: bool)
    requires
        i + pat@.len() <= v@.len(),
    ensures
        r == contains_at(v@, pat@, i as int),
{
    let n = v.len();
    let m = pat.len();
    let mut k: usize = 0;
    while k < m
        invariant
            0 <= k <= pat@.len(),
            n == v@.len(),
            m == pat@.len(),
            i + pat@.len() <= v@.len(),
            forall|j: int| 0 <= j < k ==> v@[i + j] == pat@[j],
        decreases pat@.len() - k,
    {
        if v[i + k] != pat[k] {
            assert(v@.subrange(i as int, i + pat@.len() as int)[k as int] != pat@[k as int]);
            return false;
        }
        k = k + 1;
    }
    assert(v@.subrange(i as int, i + pat@.len() as int) =~= pat@);
    true
}

/// Index of the first occurrence of `pat` in `v`, if any.
pub fn find_first(v: &Vec<char>, pat: &Vec<char>) -> (r: Option<usize>)
    ensures
        match r {
            Some(i) => contains_at(v@, pat@, i as int) && forall|j: int|
                0 <= j < i ==> !contains_at(v@, pat@, j),
            None => !seq_contains(v@, pat@),
        },
{
    if pat.len() > v.len() {
        assert(forall|i: int| !contains_at(v@, pat@, i));
        return None;
    }
    if pat.len() == 0 {
        assert(contains_at(v@, pat@, 0)) by {
            assert(v@.subrange(0, 0) =~= pat@);
        }
        return Some(0);
    }
    let n = v.len();
    let last = n - pat.len();
    let mut i: usize = 0;
    while i <= last
        invariant
            n == v@.len(),
            1 <= pat@.len() <= v@.len(),
            last == v@.len() - pat@.len(),
            0 <= i <= last + 1,
            forall|j: int| 0 <= j < i ==> !contains_at(v@, pat@, j),
        decreases last + 1 - i,
    {
        if eq_at(v, pat, i) {
            return Some(i);
        }
        i = i + 1;
    }
    assert(forall|j: int| !contains_at(v@, pat@, j));
    None
}

pub fn contains_chars(v: &Vec<char>, pat: &Vec<char>) -> (r: bool)
    ensures
        r == seq_contains(v@, pat@),
{
    match find_first(v, pat) {
        Some(_) => true,
        None => false,
    }
}

/// `v` contains the literal `pat`.
pub fn contains_lit(v: &Vec<char>, pat: &str) -> (r: bool)
    ensures
        r == seq_contains(v@, pat@),
{
    let p = chars_of(pat);
    contains_chars(v, &p)
}

pub fn starts_with_chars(v: &Vec<char>, pat: &Vec<char>) -> (r: bool)
    ensures
        r == seq_starts_with(v@, pat@),
{
    if pat.len() > v.len() {
        return false;
    }
    eq_at(v, pat, 0)
}

pub fn starts_with_lit(v: &Vec<char>, pat: &str) -> (r: bool)
    ensures
        r == seq_starts_with(v@, pat@),
{
    let p = chars_of(pat);
    starts_with_chars(v, &p)
}

pub fn ends_with_chars(v: &Vec<char>, pat: &Vec<char>) -> (r: bool)
    ensures
        r == seq_ends_with(v@, pat@),
{
    if pat.len() > v.len() {
        return false;
    }
    eq_at(v, pat, v.len() - pat.len())
}

pub fn ends_with_lit(v: &Vec<char>, pat: &str) -> (r: bool)
    ensures
        r == seq_ends_with(v@, pat@),
{
    let p = chars_of(pat);
    ends_with_chars(v, &p)
}

/// Copy of `v[from..to]`.
pub fn subvec(v: &Vec<char>, from: usize, to: usize) -> (r: Vec<char>)
    requires
        from <= to <= v@.len(),
    ensures
        r@ == v@.subrange(from as int, to as int),
{
    let mut r: Vec<char> = Vec::new();
    let mut i: usize = from;
    while i < to
        invariant
            from <= i <= to <= v@.len(),
            r@ == v@.subrange(from as int, i as int),
        decreases to - i,
    {
        r.push(v[i]);
        assert(r@ =~= v@.subrange(from as int, i + 1));
        i = i + 1;
    }
    r
}

/// Append the whole of `src` onto `dst`.
pub fn push_all(dst: &mut Vec<char>, src: &Vec<char>)
    ensures
        final(dst)@ == old(dst)@ + src@,
{
    let mut i: usize = 0;
    while i < src.len()
        invariant
            0 <= i <= src@.len(),
            dst@ == old(dst)@ + src@.subrange(0, i as int),
        decreases src@.len() - i,
    {
        dst.push(src[i]);
        assert(dst@ =~= old(dst)@ + src@.subrange(0, i + 1));
        i = i + 1;
    }
    assert(dst@ =~= old(dst)@ + src@);
}

/// Append the literal `pat` onto `dst`.
pub fn push_lit(dst: &mut Vec<char>, pat: &str)
    ensures
        final(dst)@ == old(dst)@ + pat@,
{
    let p = chars_of(pat);
    push_all(dst, &p);
}

pub open spec fn is_digit_char(c: char) -> bool {
    '0' <= c <= '9'
}

pub open spec fn is_lower_char(c: char) -> bool {
    'a' <= c <= 'z'
}

pub open spec fn is_upper_char(c: char) -> bool {
    'A' <= c <= 'Z'
}

pub open spec fn is_letter_char(c: char) -> bool {
    is_lower_char(c) || is_upper_char(c)
}

pub open spec fn is_alnum_char(c: char) -> bool {
    is_letter_char(c) || is_digit_char(c)
}

/// A word character, as in the `\w` class: letters, digits, underscore.
pub open spec fn is_word_char(c: char) -> bool {
    is_alnum_char(c) || c == '_'
}

pub fn digit_char(c: char) -> (r: bool)
    ensures
        r == is_digit_char(c),
{
    '0' <= c && c <= '9'
}

pub fn letter_char(c: char) -> (r: bool)
    ensures
        r == is_letter_char(c),
{
    ('a' <= c && c <= 'z') || ('A' <= c && c <= 'Z')
}

pub fn alnum_char(c: char) -> (r: bool)
    ensures
        r == is_alnum_char(c),
{
    letter_char(c) || digit_char(c)
}

pub fn word_char(c: char) -> (r: bool)
    ensures
        r == is_word_char(c),
{
    alnum_char(c) || c == '_'
}

} // verus!
