//! URL canonicalizer: pure string algebra over URLs as character sequences.
//! Joins relative links against a base URL, strips decorative query noise,
//! and classifies whether a URL is itself a direct file link.

use vstd::prelude::*;
use crate::text::{chars_of, string_of, contains_at, seq_contains, seq_starts_with, seq_ends_with,
    eq_at, find_first, contains_chars, contains_lit, starts_with_chars, starts_with_lit,
    ends_with_chars, ends_with_lit, subvec, push_all, push_lit, is_digit_char, is_lower_char,
    is_upper_char, is_letter_char, is_alnum_char, is_word_char, digit_char, letter_char,
    alnum_char, word_char};

verus! {

// ---------------------------------------------------------------------------
// Generic sequence surgery
// ---------------------------------------------------------------------------

/// `s` with `[from, to)` replaced by `rep`.
pub open spec fn spec_splice(s: Seq<char>, from: int, to: int, rep: Seq<char>) -> Seq<char> {
    s.subrange(0, from) + rep + s.subrange(to, s.len() as int)
}

pub fn splice(v: &Vec<char>, from: usize, to: usize, rep: &Vec<char>) -> (r: Vec<char>)
    requires
        from <= to <= v@.len(),
    ensures
        r@ == spec_splice(v@, from as int, to as int, rep@),
{
    let mut r = subvec(v, 0, from);
    push_all(&mut r, rep);
    let tail = subvec(v, to, v.len());
    push_all(&mut r, &tail);
    r
}

/// Every occurrence of `pat` replaced by `rep`, scanning left to right and
/// never rescanning replaced text.
pub open spec fn spec_replace_all(s: Seq<char>, pat: Seq<char>, rep: Seq<char>) -> Seq<char>
    decreases s.len(),
{
    if pat.len() == 0 || s.len() == 0 {
        s
    } else if seq_starts_with(s, pat) {
        rep + spec_replace_all(s.skip(pat.len() as int), pat, rep)
    } else {
        seq![s[0]] + spec_replace_all(s.skip(1), pat, rep)
    }
}

pub fn replace_all(v: &Vec<char>, pat: &Vec<char>, rep: &Vec<char>) -> (r: Vec<char>)
    ensures
        r@ == spec_replace_all(v@, pat@, rep@),
{
    if pat.len() == 0 {
        return subvec(v, 0, v.len());
    }
    let n = v.len();
    let m = pat.len();
    let mut out: Vec<char> = Vec::new();
    let mut i: usize = 0;
    assert(v@.skip(0) =~= v@);
    while i < n
        invariant
            n == v@.len(),
            m == pat@.len(),
            1 <= m,
            0 <= i <= n,
            spec_replace_all(v@, pat@, rep@) == out@ + spec_replace_all(
                v@.skip(i as int),
                pat@,
                rep@,
            ),
        decreases n - i,
    {
        let ghost pre = out@;
        if m <= n - i && eq_at(v, pat, i) {
            assert(v@.skip(i as int).subrange(0, m as int) =~= v@.subrange(i as int, i + m));
            assert(seq_starts_with(v@.skip(i as int), pat@));
            push_all(&mut out, rep);
            assert(v@.skip(i as int).skip(m as int) =~= v@.skip(i + m));
            i = i + m;
        } else {
            assert(!seq_starts_with(v@.skip(i as int), pat@)) by {
                if seq_starts_with(v@.skip(i as int), pat@) {
                    assert(v@.skip(i as int).subrange(0, m as int) =~= v@.subrange(
                        i as int,
                        i + m,
                    ));
                    assert(contains_at(v@, pat@, i as int));
                }
            }
            out.push(v[i]);
            assert(out@ =~= pre + seq![v@[i as int]]);
            assert(v@.skip(i as int).skip(1) =~= v@.skip(i + 1));
            i = i + 1;
        }
    }
    assert(v@.skip(n as int) =~= Seq::<char>::empty());
    assert(out@ =~= out@ + spec_replace_all(v@.skip(n as int), pat@, rep@));
    out
}

/// The first occurrence of `pat` replaced by `rep`; `s` itself when `pat`
/// does not occur.
pub open spec fn spec_replace_first(s: Seq<char>, pat: Seq<char>, rep: Seq<char>) -> Seq<char> {
    if seq_contains(s, pat) {
        let i = first_occurrence(s, pat);
        spec_splice(s, i, i + pat.len() as int, rep)
    } else {
        s
    }
}

/// The least index at which `pat` occurs in `s`.
pub open spec fn first_occurrence(s: Seq<char>, pat: Seq<char>) -> int {
    choose|i: int| contains_at(s, pat, i) && forall|j: int| 0 <= j < i ==> !contains_at(s, pat, j)
}

pub proof fn lemma_first_occurrence(s: Seq<char>, pat: Seq<char>, i: int)
    requires
        contains_at(s, pat, i),
        forall|j: int| 0 <= j < i ==> !contains_at(s, pat, j),
    ensures
        first_occurrence(s, pat) == i,
{
    let k = first_occurrence(s, pat);
    assert(contains_at(s, pat, i) && forall|j: int| 0 <= j < i ==> !contains_at(s, pat, j));
    assert(contains_at(s, pat, k) && forall|j: int| 0 <= j < k ==> !contains_at(s, pat, j));
    if k < i {
        assert(!contains_at(s, pat, k));
    }
    if i < k {
        assert(!contains_at(s, pat, i));
    }
}

pub fn replace_first(v: &Vec<char>, pat: &Vec<char>, rep: &Vec<char>) -> (r: Vec<char>)
    ensures
        r@ == spec_replace_first(v@, pat@, rep@),
{
    let n = v.len();
    match find_first(v, pat) {
        Some(i) => {
            proof {
                lemma_first_occurrence(v@, pat@, i as int);
            }
            splice(v, i, i + pat.len(), rep)
        },
        None => subvec(v, 0, v.len()),
    }
}

// ---------------------------------------------------------------------------
// Simple predicates and strippers
// ---------------------------------------------------------------------------

/// The URL carries an HTTP or HTTPS scheme.
pub open spec fn spec_is_http(s: Seq<char>) -> bool {
    seq_starts_with(s, "http://"@) || seq_starts_with(s, "https://"@)
}

/// Checks if url has an authentic HTTP scheme.
pub fn is_http(url: &str) -> (r: bool)
    ensures
        r == spec_is_http(url@),
{
    let v = chars_of(url);
    is_http_chars(&v)
}

pub fn is_http_chars(v: &Vec<char>) -> (r: bool)
    ensures
        r == spec_is_http(v@),
{
    starts_with_lit(v, "http://") || starts_with_lit(v, "https://")
}

/// The URL with a leading HTTP or HTTPS scheme removed.
pub open spec fn spec_remove_http(s: Seq<char>) -> Seq<char> {
    if seq_starts_with(s, "http://"@) {
        s.skip(7)
    } else if seq_starts_with(s, "https://"@) {
        s.skip(8)
    } else {
        s
    }
}

/// Removes HTTP scheme from string.
pub fn remove_http(path: &str) -> (r: String)
    ensures
        r@ == spec_remove_http(path@),
{
    let v = chars_of(path);
    string_of(&remove_http_chars(&v))
}

pub fn remove_http_chars(v: &Vec<char>) -> (r: Vec<char>)
    ensures
        r@ == spec_remove_http(v@),
{
    proof {
        reveal_strlit("http://");
        reveal_strlit("https://");
    }
    if starts_with_lit(v, "http://") {
        subvec(v, 7, v.len())
    } else if starts_with_lit(v, "https://") {
        subvec(v, 8, v.len())
    } else {
        subvec(v, 0, v.len())
    }
}

/// The link climbs toward a parent directory.
pub open spec fn spec_is_back_url(s: Seq<char>) -> bool {
    seq_contains(s, "../"@)
}

/// Checks if relative URL matches a parent traversal step.
pub fn is_back_url(rel_url: &str) -> (r: bool)
    ensures
        r == spec_is_back_url(rel_url@),
{
    let v = chars_of(rel_url);
    contains_lit(&v, "../")
}

/// The link is exactly the site root.
pub open spec fn spec_is_home_url(s: Seq<char>) -> bool {
    s == "/"@
}

/// Checks if relative URL is a home path.
pub fn is_home_url(rel_url: &str) -> (r: bool)
    ensures
        r == spec_is_home_url(rel_url@),
{
    proof {
        reveal_strlit("/");
    }
    let v = chars_of(rel_url);
    if v.len() == 1 && v[0] == '/' {
        assert(v@ =~= "/"@);
        true
    } else {
        assert(v@ !~= "/"@);
        false
    }
}

/// The URL with one trailing slash removed.
pub open spec fn spec_remove_last_slash(s: Seq<char>) -> Seq<char> {
    if s.len() > 0 && s.last() == '/' {
        s.drop_last()
    } else {
        s
    }
}

/// Removes the last slash from the URL.
pub fn remove_last_slash(url: &str) -> (r: String)
    ensures
        r@ == spec_remove_last_slash(url@),
{
    let v = chars_of(url);
    string_of(&remove_last_slash_chars(&v))
}

pub fn remove_last_slash_chars(v: &Vec<char>) -> (r: Vec<char>)
    ensures
        r@ == spec_remove_last_slash(v@),
{
    if v.len() > 0 && v[v.len() - 1] == '/' {
        let r = subvec(v, 0, v.len() - 1);
        assert(r@ =~= v@.drop_last());
        r
    } else {
        subvec(v, 0, v.len())
    }
}

/// The URL with a trailing `?preview` marker removed.
pub open spec fn spec_remove_preview_query(s: Seq<char>) -> Seq<char> {
    if seq_ends_with(s, "?preview"@) {
        s.take(s.len() - 8)
    } else {
        s
    }
}

/// Removes the `?preview` query from an URL.
pub fn remove_preview_query(url: &str) -> (r: String)
    ensures
        r@ == spec_remove_preview_query(url@),
{
    let v = chars_of(url);
    string_of(&remove_preview_query_chars(&v))
}

pub fn remove_preview_query_chars(v: &Vec<char>) -> (r: Vec<char>)
    ensures
        r@ == spec_remove_preview_query(v@),
{
    proof {
        reveal_strlit("?preview");
    }
    if ends_with_lit(v, "?preview") {
        subvec(v, 0, v.len() - 8)
    } else {
        subvec(v, 0, v.len())
    }
}

/// The URL with a trailing `%20` escape removed.
pub open spec fn spec_remove_space_entity(s: Seq<char>) -> Seq<char> {
    if seq_ends_with(s, "%20"@) {
        s.take(s.len() - 3)
    } else {
        s
    }
}

pub fn remove_space_entity_chars(v: &Vec<char>) -> (r: Vec<char>)
    ensures
        r@ == spec_remove_space_entity(v@),
{
    proof {
        reveal_strlit("%20");
    }
    if ends_with_lit(v, "%20") {
        subvec(v, 0, v.len() - 3)
    } else {
        subvec(v, 0, v.len())
    }
}

/// The URL prefixed with `http://` when it names no scheme.
pub open spec fn spec_add_scheme(s: Seq<char>) -> Seq<char> {
    if spec_is_http(s) {
        s
    } else {
        "http://"@ + s
    }
}

pub fn add_scheme_chars(v: &Vec<char>) -> (r: Vec<char>)
    ensures
        r@ == spec_add_scheme(v@),
{
    if is_http_chars(v) {
        subvec(v, 0, v.len())
    } else {
        let mut r = chars_of("http://");
        push_all(&mut r, v);
        r
    }
}

/// `?preview` stripped, a scheme supplied, and a trailing slash guaranteed.
pub open spec fn spec_add_last_slash(s: Seq<char>) -> Seq<char> {
    let t = spec_add_scheme(spec_remove_preview_query(s));
    if t.len() > 0 && t.last() == '/' {
        t
    } else {
        t + "/"@
    }
}

/// Removes the `?preview` query & adds a `/` to the end of the URL.
pub fn add_last_slash(url: &str) -> (r: String)
    ensures
        r@ == spec_add_last_slash(url@),
{
    let v = chars_of(url);
    let t = add_scheme_chars(&remove_preview_query_chars(&v));
    if t.len() > 0 && t[t.len() - 1] == '/' {
        string_of(&t)
    } else {
        let mut r = t;
        r.push('/');
        proof {
            reveal_strlit("/");
        }
        assert(r@ =~= spec_add_last_slash(url@));
        string_of(&r)
    }
}

} // verus!

verus! {

// ---------------------------------------------------------------------------
// Character classes of the URL grammar
// ---------------------------------------------------------------------------

/// Characters accepted inside an ordinary path component (file names,
/// sort markers and the like).
pub open spec fn is_sym_char(c: char) -> bool {
    is_alnum_char(c) || c == '*' || c == '~' || c == '+' || c == '-' || c == '%' || c == '?'
        || c == '[' || c == ']' || c == '$' || c == '_' || c == '.' || c == '!' || c == '\u{2018}'
        || c == '(' || c == ')' || c == '='
}

pub fn sym_char(c: char) -> (r: bool)
    ensures
        r == is_sym_char(c),
{
    alnum_char(c) || c == '*' || c == '~' || c == '+' || c == '-' || c == '%' || c == '?'
        || c == '[' || c == ']' || c == '$' || c == '_' || c == '.' || c == '!' || c == '\u{2018}'
        || c == '(' || c == ')' || c == '='
}

/// Characters accepted in the final path component of a file URL:
/// the symbol class without `*` and `?`, plus the space character.
pub open spec fn is_fname_char(c: char) -> bool {
    is_alnum_char(c) || c == '~' || c == '+' || c == '-' || c == '%' || c == '[' || c == ']'
        || c == '$' || c == '_' || c == '.' || c == '!' || c == '\u{2018}' || c == '(' || c == ')'
        || c == '=' || c == ' '
}

pub fn fname_char(c: char) -> (r: bool)
    ensures
        r == is_fname_char(c),
{
    alnum_char(c) || c == '~' || c == '+' || c == '-' || c == '%' || c == '[' || c == ']'
        || c == '$' || c == '_' || c == '.' || c == '!' || c == '\u{2018}' || c == '(' || c == ')'
        || c == '=' || c == ' '
}

/// The file-name class without the space: what may surround the dot of a
/// web-page suffix such as `.php`.
pub open spec fn is_script_char(c: char) -> bool {
    is_fname_char(c) && c != ' '
}

pub fn script_char(c: char) -> (r: bool)
    ensures
        r == is_script_char(c),
{
    fname_char(c) && c != ' '
}

// ---------------------------------------------------------------------------
// File-extension grammar
// ---------------------------------------------------------------------------

/// A plausible file extension: 3 to 7 alphanumerics, or a letter followed
/// by an alphanumeric, or a digit followed by a letter.
pub open spec fn ext_tail_ok(t: Seq<char>) -> bool {
    (3 <= t.len() <= 7 && forall|i: int| 0 <= i < t.len() ==> is_alnum_char(t[i])) || (t.len() == 2
        && is_letter_char(t[0]) && is_alnum_char(t[1])) || (t.len() == 2 && is_digit_char(t[0])
        && is_letter_char(t[1]))
}

/// `t` ends in a dot followed by a `k`-character extension.
pub open spec fn ext_ok_at(t: Seq<char>, k: int) -> bool {
    t.len() > k && t[t.len() - 1 - k] == '.' && ext_tail_ok(t.subrange(t.len() - k, t.len() as int))
}

/// The URL ends in a file extension; a URL ending in a slash never
/// does.
pub open spec fn spec_is_file_ext(s: Seq<char>) -> bool {
    exists|k: int| 2 <= k <= 7 && ext_ok_at(s, k)
}

pub fn ext_ok_at_pub(t: &Vec<char>, k: usize) -> (r: bool)
    requires
        2 <= k <= 7,
    ensures
        r == ext_ok_at(t@, k as int),
{
    ext_ok_at_exec(t, k)
}

fn ext_ok_at_exec(t: &Vec<char>, k: usize) -> (r: bool)
    requires
        2 <= k <= 7,
    ensures
        r == ext_ok_at(t@, k as int),
{
    let n = t.len();
    if n <= k {
        return false;
    }
    if t[n - 1 - k] != '.' {
        return false;
    }
    let ghost tail = t@.subrange(n - k, n as int);
    if k == 2 {
        let a = t[n - 2];
        let b = t[n - 1];
        let ok = (letter_char(a) && alnum_char(b)) || (digit_char(a) && letter_char(b));
        assert(tail.len() == 2 && tail[0] == t@[n - 2] && tail[1] == t@[n - 1]);
        ok
    } else {
        let mut i: usize = n - k;
        while i < n
            invariant
                n == t@.len(),
                2 <= k <= 7,
                n > k,
                n - k <= i <= n,
                forall|j: int| n - k <= j < i ==> is_alnum_char(t@[j]),
            decreases n - i,
        {
            if !alnum_char(t[i]) {
                assert(!ext_tail_ok(t@.subrange(n - k, n as int))) by {
                    let u = t@.subrange(n - k, n as int);
                    assert(u.len() == k as int);
                    assert(u[i - (n - k)] == t@[i as int]);
                }
                return false;
            }
            i = i + 1;
        }
        assert(ext_tail_ok(tail)) by {
            assert(forall|j: int| 0 <= j < tail.len() ==> tail[j] == t@[n - k + j]);
        }
        true
    }
}

/// Checks if URL has a file extension.
pub fn is_file_ext(url: &str) -> (r: bool)
    ensures
        r == spec_is_file_ext(url@),
{
    let v = chars_of(url);
    is_file_ext_chars(&v)
}

pub fn is_file_ext_chars(v: &Vec<char>) -> (r: bool)
    ensures
        r == spec_is_file_ext(v@),
{
    let mut k: usize = 2;
    while k <= 7
        invariant
            2 <= k <= 8,
            forall|j: int| 2 <= j < k ==> !ext_ok_at(v@, j),
        decreases 8 - k,
    {
        if ext_ok_at_exec(v, k) {
            return true;
        }
        k = k + 1;
    }
    false
}

// ---------------------------------------------------------------------------
// Web-page suffixes (.htm, .html, .asp, .aspx, .php)
// ---------------------------------------------------------------------------

/// `t` ends in `.` + `ext`, with at least one script character before the dot.
pub open spec fn web_suffix_at(t: Seq<char>, ext: Seq<char>) -> bool {
    t.len() >= ext.len() + 2 && t.subrange(t.len() - ext.len(), t.len() as int) == ext && t[t.len()
        - ext.len() - 1] == '.' && is_script_char(t[t.len() - ext.len() - 2])
}

/// The URL, less one optional trailing slash, names a web page script
/// (`.htm`, `.html`, `.asp`, `.aspx`, `.php`).
pub open spec fn spec_is_web_page(s: Seq<char>) -> bool {
    let t = spec_remove_last_slash(s);
    web_suffix_at(t, "htm"@) || web_suffix_at(t, "html"@) || web_suffix_at(t, "asp"@)
        || web_suffix_at(t, "aspx"@) || web_suffix_at(t, "php"@)
}

fn web_suffix_at_exec(t: &Vec<char>, ext: &str) -> (r: bool)
    ensures
        r == web_suffix_at(t@, ext@),
{
    let e = chars_of(ext);
    let n = t.len();
    if n < 2 || n - 2 < e.len() {
        return false;
    }
    if !eq_at(t, &e, n - e.len()) {
        assert(t@.subrange(n - e@.len(), n as int) != e@);
        return false;
    }
    assert(t@.subrange(n - e@.len(), n as int) == e@);
    t[n - e.len() - 1] == '.' && script_char(t[n - e.len() - 2])
}

/// Checks whether the URL names a web page rather than a plain file.
pub fn is_web_page(url: &str) -> (r: bool)
    ensures
        r == spec_is_web_page(url@),
{
    let v = chars_of(url);
    is_web_page_chars(&v)
}

pub fn is_web_page_chars(v: &Vec<char>) -> (r: bool)
    ensures
        r == spec_is_web_page(v@),
{
    let t = remove_last_slash_chars(v);
    web_suffix_at_exec(&t, "htm") || web_suffix_at_exec(&t, "html") || web_suffix_at_exec(&t, "asp")
        || web_suffix_at_exec(&t, "aspx") || web_suffix_at_exec(&t, "php")
}

} // verus!

verus! {

// ---------------------------------------------------------------------------
// Pagination queries (`?page=N`)
// ---------------------------------------------------------------------------

/// How many digits end the sequence.
pub open spec fn count_trailing_digits(s: Seq<char>) -> int
    decreases s.len(),
{
    if s.len() == 0 || !is_digit_char(s.last()) {
        0
    } else {
        1 + count_trailing_digits(s.drop_last())
    }
}

/// Numeric value of a digit sequence.
pub open spec fn digits_val(s: Seq<char>) -> int
    decreases s.len(),
{
    if s.len() == 0 {
        0
    } else {
        10 * digits_val(s.drop_last()) + ((s.last() as u8) - 48)
    }
}

/// Value bounds for short digit strings.
proof fn lemma_digits_val_bound(s: Seq<char>)
    requires
        forall|i: int| 0 <= i < s.len() ==> is_digit_char(s[i]),
    ensures
        0 <= digits_val(s),
        s.len() <= 1 ==> digits_val(s) <= 9,
        s.len() <= 2 ==> digits_val(s) <= 99,
        s.len() <= 3 ==> digits_val(s) <= 999,
    decreases s.len(),
{
    if s.len() > 0 {
        assert(forall|i: int| 0 <= i < s.drop_last().len() ==> is_digit_char(s.drop_last()[i]));
        lemma_digits_val_bound(s.drop_last());
        assert(is_digit_char(s.last()));
        assert((s.last() as u8) - 48 <= 9);
    }
}

/// The URL ends in `?page=` followed by one to three digits.
pub open spec fn spec_has_page_query(s: Seq<char>) -> bool {
    let k = count_trailing_digits(s);
    1 <= k <= 3 && s.len() >= k + 6 && s.subrange(s.len() - k - 6, s.len() - k) == "?page="@
}

/// The page number named by a trailing `?page=N` query.
pub open spec fn spec_page_number(s: Seq<char>) -> int {
    digits_val(s.subrange(s.len() - count_trailing_digits(s), s.len() as int))
}

/// The URL with a trailing `?page=N` query removed.
pub open spec fn spec_strip_page_query(s: Seq<char>) -> Seq<char> {
    if spec_has_page_query(s) {
        s.take(s.len() - count_trailing_digits(s) - 6)
    } else {
        s
    }
}

/// Number of digits ending `v`, and their value when there are at most
/// three of them.
fn trailing_digits(v: &Vec<char>) -> (r: (usize, usize))
    ensures
        r.0 == count_trailing_digits(v@),
        count_trailing_digits(v@) <= 3 ==> r.1 == digits_val(
            v@.subrange(v@.len() - count_trailing_digits(v@), v@.len() as int),
        ),
{
    let n = v.len();
    let mut k: usize = 0;
    assert(v@.take(n as int) =~= v@);
    while k < n && digit_char(v[n - 1 - k])
        invariant
            n == v@.len(),
            0 <= k <= n,
            count_trailing_digits(v@) == k + count_trailing_digits(v@.take(n - k)),
            forall|j: int| n - k <= j < n ==> is_digit_char(v@[j]),
        decreases n - k,
    {
        proof {
            assert(v@.take(n - k).drop_last() =~= v@.take(n - (k + 1)));
        }
        k = k + 1;
    }
    proof {
        if k < n {
            assert(v@.take(n - k).last() == v@[n - k - 1]);
        }
        assert(count_trailing_digits(v@.take(n - k)) == 0);
    }
    let mut val: usize = 0;
    if k <= 3 {
        let mut i: usize = n - k;
        while i < n
            invariant
                n == v@.len(),
                k <= 3,
                k <= n,
                n - k <= i <= n,
                forall|j: int| n - k <= j < n ==> is_digit_char(v@[j]),
                val == digits_val(v@.subrange(n - k, i as int)),
                val <= 999,
            decreases n - i,
        {
            proof {
                assert(v@.subrange(n - k, i + 1).drop_last() =~= v@.subrange(n - k, i as int));
                assert(v@.subrange(n - k, i + 1).last() == v@[i as int]);
                assert(forall|j: int| 0 <= j < i - (n - k) ==> is_digit_char(
                    #[trigger] v@.subrange(n - k, i as int)[j],
                ));
                lemma_digits_val_bound(v@.subrange(n - k, i as int));
                assert(forall|j: int| 0 <= j < i + 1 - (n - k) ==> is_digit_char(
                    #[trigger] v@.subrange(n - k, i + 1)[j],
                ));
                lemma_digits_val_bound(v@.subrange(n - k, i + 1));
            }
            let d = v[i];
            val = val * 10 + ((d as u8) - 48) as usize;
            i = i + 1;
        }
        proof {
            assert(v@.subrange(n - k, n as int) =~= v@.subrange(
                v@.len() - count_trailing_digits(v@),
                v@.len() as int,
            ));
        }
    }
    (k, val)
}

pub fn has_page_query_chars(v: &Vec<char>) -> (r: bool)
    ensures
        r == spec_has_page_query(v@),
{
    proof {
        reveal_strlit("?page=");
    }
    let (k, _) = trailing_digits(v);
    if k < 1 || k > 3 {
        return false;
    }
    if v.len() < k + 6 {
        return false;
    }
    let p = chars_of("?page=");
    let r = eq_at(v, &p, v.len() - k - 6);
    proof {
        let i = v@.len() - k - 6;
        assert(contains_at(v@, p@, i) == (v@.subrange(i, i + 6) == "?page="@));
        assert(v@.subrange(i, i + 6) =~= v@.subrange(v@.len() - k - 6, v@.len() - k));
    }
    r
}

/// Checks if the path has a page query.
pub fn has_page_query(rel: &str) -> (r: bool)
    ensures
        r == spec_has_page_query(rel@),
{
    let v = chars_of(rel);
    has_page_query_chars(&v)
}

/// A trailing `?page=N` query is accepted only when `N` lies strictly
/// beyond the current page cursor, so pagination can only move forward.
pub open spec fn spec_within_page_limit(s: Seq<char>, current_page: int) -> bool {
    spec_has_page_query(s) && current_page < spec_page_number(s)
}

/// Keeps url with `?page=` from being traversed backwards.
pub fn within_page_limit(rel: &str, current_page: usize) -> (r: bool)
    ensures
        r == spec_within_page_limit(rel@, current_page as int),
{
    let v = chars_of(rel);
    within_page_limit_chars(&v, current_page)
}

pub fn within_page_limit_chars(v: &Vec<char>, current_page: usize) -> (r: bool)
    ensures
        r == spec_within_page_limit(v@, current_page as int),
{
    if !has_page_query_chars(v) {
        return false;
    }
    let (k, val) = trailing_digits(v);
    current_page < val
}

} // verus!

verus! {

// ---------------------------------------------------------------------------
// Case-insensitive containment
// ---------------------------------------------------------------------------

/// ASCII lowercase of one character.
pub open spec fn lower_char(c: char) -> char {
    if is_upper_char(c) {
        ((c as u8) + 32) as char
    } else {
        c
    }
}

/// ASCII lowercase, character by character.
pub open spec fn spec_lower_seq(s: Seq<char>) -> Seq<char> {
    s.map_values(|c: char| lower_char(c))
}

pub fn to_lower_chars(v: &Vec<char>) -> (r: Vec<char>)
    ensures
        r@ == spec_lower_seq(v@),
{
    let n = v.len();
    let mut r: Vec<char> = Vec::new();
    assert(r@ =~= spec_lower_seq(v@.take(0)));
    let mut i: usize = 0;
    while i < n
        invariant
            n == v@.len(),
            0 <= i <= n,
            r@ == spec_lower_seq(v@.take(i as int)),
        decreases n - i,
    {
        let c = v[i];
        let lc: char = if 'A' <= c && c <= 'Z' {
            (((c as u8) + 32)) as char
        } else {
            c
        };
        assert(lc == lower_char(v@[i as int]));
        r.push(lc);
        assert(r@ =~= spec_lower_seq(v@.take(i + 1))) by {
            assert(v@.take(i + 1).drop_last() =~= v@.take(i as int));
            assert(spec_lower_seq(v@.take(i + 1)) =~= spec_lower_seq(v@.take(i as int)).push(
                lower_char(v@[i as int]),
            ));
        }
        i = i + 1;
    }
    assert(v@.take(n as int) =~= v@);
    r
}

/// `pat` occurs in `s` once `s` is ASCII-lowercased.
pub open spec fn spec_ins_contains(s: Seq<char>, pat: Seq<char>) -> bool {
    seq_contains(spec_lower_seq(s), pat)
}

/// Case-insensitive `contains`, folding ASCII letters of `rel` to lowercase.
pub fn ins_contains(rel: &str, text: &str) -> (r: bool)
    ensures
        r == spec_ins_contains(rel@, text@),
{
    let v = chars_of(rel);
    let low = to_lower_chars(&v);
    let p = chars_of(text);
    contains_chars(&low, &p)
}

/// The link carries a sorting, expansion or file-view query: navigation
/// noise that never leads to a sub-directory.
pub open spec fn spec_unrelated_dir_queries(s: Seq<char>) -> bool {
    let low = spec_lower_seq(s);
    seq_contains(low, "sortby"@) || seq_contains(low, "&sort_mode="@) || seq_contains(
        low,
        "&sort="@,
    ) || seq_contains(low, "&file="@) || seq_contains(low, "archive=true"@) || seq_contains(
        low,
        "&expand="@,
    ) || seq_contains(low, "&collapse="@)
}

/// Queries that are not needed for traversing a directory.
pub fn unrelated_dir_queries(rel: &str) -> (r: bool)
    ensures
        r == spec_unrelated_dir_queries(rel@),
{
    let v = chars_of(rel);
    let low = to_lower_chars(&v);
    contains_lit(&low, "sortby") || contains_lit(&low, "&sort_mode=") || contains_lit(
        &low,
        "&sort=",
    ) || contains_lit(&low, "&file=") || contains_lit(&low, "archive=true") || contains_lit(
        &low,
        "&expand=",
    ) || contains_lit(&low, "&collapse=")
}

// ---------------------------------------------------------------------------
// Symbol-run and placeholder-path predicates
// ---------------------------------------------------------------------------

/// A symbol character at `i` immediately closed by a slash.
pub open spec fn sym_slash_at(s: Seq<char>, i: int) -> bool {
    0 <= i && i + 1 < s.len() && is_sym_char(s[i]) && s[i + 1] == '/'
}

/// Some ordinary path component is closed by a slash: the link is a real
/// path rather than a lone symbol.
pub open spec fn spec_is_not_symbol(s: Seq<char>) -> bool {
    exists|i: int| sym_slash_at(s, i)
}

/// Checks if relative URL is a plain symbol (returns true when it is not).
pub fn is_not_symbol(rel_url: &str) -> (r: bool)
    ensures
        r == spec_is_not_symbol(rel_url@),
{
    let v = chars_of(rel_url);
    let n = v.len();
    if n < 2 {
        return false;
    }
    let mut i: usize = 0;
    while i < n - 1
        invariant
            v@ == rel_url@,
            n == v@.len(),
            2 <= n,
            0 <= i <= n - 1,
            forall|j: int| 0 <= j < i ==> !sym_slash_at(v@, j),
        decreases n - i,
    {
        if sym_char(v[i]) && v[i + 1] == '/' {
            assert(sym_slash_at(v@, i as int));
            return true;
        }
        i = i + 1;
    }
    assert(forall|j: int| !sym_slash_at(v@, j));
    false
}

/// A placeholder component `/./` or `/?/` occurs in the URL.
pub open spec fn spec_has_placeholder_path(s: Seq<char>) -> bool {
    seq_contains(s, "/./"@) || seq_contains(s, "/?/"@)
}

/// Checks the URL for placeholder path components.
pub fn has_placeholder_path(url: &str) -> (r: bool)
    ensures
        r == spec_has_placeholder_path(url@),
{
    let v = chars_of(url);
    contains_lit(&v, "/./") || contains_lit(&v, "/?/")
}

/// The URL with placeholder components `/./` and `/?/` collapsed to `/`,
/// scanning left to right.
pub open spec fn spec_removes_single_path(s: Seq<char>) -> Seq<char>
    decreases s.len(),
{
    if s.len() < 3 {
        s
    } else if seq_starts_with(s, "/./"@) || seq_starts_with(s, "/?/"@) {
        "/"@ + spec_removes_single_path(s.skip(3))
    } else {
        seq![s[0]] + spec_removes_single_path(s.skip(1))
    }
}

/// Removes the `/?/` & `/./` paths from the URL.
pub fn removes_single_path(path: &str) -> (r: String)
    ensures
        r@ == spec_removes_single_path(path@),
{
    let v = chars_of(path);
    string_of(&removes_single_path_chars(&v))
}

pub fn removes_single_path_chars(v: &Vec<char>) -> (r: Vec<char>)
    ensures
        r@ == spec_removes_single_path(v@),
{
    proof {
        reveal_strlit("/./");
        reveal_strlit("/?/");
        reveal_strlit("/");
    }
    let n = v.len();
    let dot = chars_of("/./");
    let q = chars_of("/?/");
    let mut out: Vec<char> = Vec::new();
    let mut i: usize = 0;
    assert(v@.skip(0) =~= v@);
    while i < n
        invariant
            n == v@.len(),
            dot@ == "/./"@ && dot@.len() == 3,
            q@ == "/?/"@ && q@.len() == 3,
            0 <= i <= n,
            spec_removes_single_path(v@) == out@ + spec_removes_single_path(v@.skip(i as int)),
        decreases n - i,
    {
        let ghost pre = out@;
        if 3 <= n - i && (eq_at(v, &dot, i) || eq_at(v, &q, i)) {
            proof {
                reveal_strlit("/./");
                reveal_strlit("/?/");
                reveal_strlit("/");
                assert(v@.skip(i as int).subrange(0, 3) =~= v@.subrange(i as int, i + 3));
                assert(v@.skip(i as int).skip(3) =~= v@.skip(i + 3));
            }
            out.push('/');
            assert(out@ =~= pre + "/"@);
            i = i + 3;
        } else {
            proof {
                reveal_strlit("/./");
                reveal_strlit("/?/");
                if seq_starts_with(v@.skip(i as int), "/./"@) {
                    assert(v@.skip(i as int).subrange(0, 3) =~= v@.subrange(i as int, i + 3));
                    assert(contains_at(v@, "/./"@, i as int));
                }
                if seq_starts_with(v@.skip(i as int), "/?/"@) {
                    assert(v@.skip(i as int).subrange(0, 3) =~= v@.subrange(i as int, i + 3));
                    assert(contains_at(v@, "/?/"@, i as int));
                }
                assert(v@.skip(i as int).skip(1) =~= v@.skip(i + 1));
            }
            out.push(v[i]);
            assert(out@ =~= pre + seq![v@[i as int]]);
            i = i + 1;
        }
    }
    assert(v@.skip(n as int) =~= Seq::<char>::empty());
    assert(out@ =~= out@ + spec_removes_single_path(v@.skip(n as int)));
    out
}

} // verus!

verus! {

// ---------------------------------------------------------------------------
// Directory-navigation queries (`?dir=`)
// ---------------------------------------------------------------------------

/// Check for navigator queries: the link carries a `?dir=` parameter.
pub open spec fn spec_has_dir_queries(s: Seq<char>) -> bool {
    seq_contains(s, "?dir="@)
}

pub fn has_dir_queries(rel: &str) -> (r: bool)
    ensures
        r == spec_has_dir_queries(rel@),
{
    let v = chars_of(rel);
    contains_lit(&v, "?dir=")
}

/// End of the run of letters starting at `j`.
pub open spec fn letter_run_end(s: Seq<char>, j: int) -> int
    recommends
        0 <= j <= s.len(),
    decreases s.len() - j,
{
    if 0 <= j < s.len() && is_letter_char(s[j]) {
        letter_run_end(s, j + 1)
    } else {
        j
    }
}

fn letter_run_end_exec(v: &Vec<char>, j: usize) -> (r: usize)
    requires
        j <= v@.len(),
    ensures
        r == letter_run_end(v@, j as int),
        j <= r <= v@.len(),
{
    let n = v.len();
    let mut i: usize = j;
    while i < n && letter_char(v[i])
        invariant
            n == v@.len(),
            j <= i <= n,
            letter_run_end(v@, j as int) == letter_run_end(v@, i as int),
        decreases n - i,
    {
        i = i + 1;
    }
    i
}

/// Length of a navigator-query match starting at `i`: either
/// `/<letters>.php[/]?dir=` or `[/]?dir=`, then an optional `./` or `.%2F`.
pub open spec fn dir_query_len_at(s: Seq<char>, i: int) -> Option<int> {
    let base = dir_query_base_len_at(s, i);
    match base {
        Some(l) => if contains_at(s, "./"@, i + l) {
            Some(l + 2)
        } else if contains_at(s, ".%2F"@, i + l) {
            Some(l + 4)
        } else {
            Some(l)
        },
        None => None,
    }
}

/// Length of the navigator query proper at `i`, without the optional suffix.
pub open spec fn dir_query_base_len_at(s: Seq<char>, i: int) -> Option<int> {
    if 0 <= i < s.len() && s[i] == '/' && letter_run_end(s, i + 1) > i + 1 && (contains_at(
        s,
        ".php?dir="@,
        letter_run_end(s, i + 1),
    ) || contains_at(s, ".php/?dir="@, letter_run_end(s, i + 1))) {
        if contains_at(s, ".php?dir="@, letter_run_end(s, i + 1)) {
            Some(letter_run_end(s, i + 1) - i + 9)
        } else {
            Some(letter_run_end(s, i + 1) - i + 10)
        }
    } else if contains_at(s, "/?dir="@, i) {
        Some(6)
    } else if contains_at(s, "?dir="@, i) {
        Some(5)
    } else {
        None
    }
}

pub fn contains_at_exec(v: &Vec<char>, pat: &Vec<char>, i: usize) -> (r: bool)
    ensures
        r == contains_at(v@, pat@, i as int),
{
    if i > v.len() || pat.len() > v.len() - i {
        return false;
    }
    eq_at(v, pat, i)
}

fn dir_query_len_at_exec(v: &Vec<char>, i: usize, pats: &DirQueryPats) -> (r: Option<usize>)
    requires
        pats.wf(),
        i <= v@.len(),
    ensures
        match r {
            Some(l) => dir_query_len_at(v@, i as int) == Some(l as int) && i + l <= v@.len(),
            None => dir_query_len_at(v@, i as int) is None,
        },
{
    proof {
        reveal_strlit(".php?dir=");
        reveal_strlit(".php/?dir=");
        reveal_strlit("/?dir=");
        reveal_strlit("?dir=");
        reveal_strlit("./");
        reveal_strlit(".%2F");
    }
    let n = v.len();
    let base: Option<usize> = if i < n && v[i] == '/' && letter_run_end_exec(v, i + 1) > i + 1
        && (contains_at_exec(v, &pats.php_q, letter_run_end_exec(v, i + 1)) || contains_at_exec(
        v,
        &pats.php_slash_q,
        letter_run_end_exec(v, i + 1),
    )) {
        let e = letter_run_end_exec(v, i + 1);
        if contains_at_exec(v, &pats.php_q, e) {
            Some(e - i + 9)
        } else {
            Some(e - i + 10)
        }
    } else if contains_at_exec(v, &pats.slash_q, i) {
        Some(6)
    } else if contains_at_exec(v, &pats.q, i) {
        Some(5)
    } else {
        None
    };
    match base {
        Some(l) => {
            assert(i + l <= v@.len());
            if contains_at_exec(v, &pats.dot_slash, i + l) {
                Some(l + 2)
            } else if contains_at_exec(v, &pats.dot_enc, i + l) {
                Some(l + 4)
            } else {
                Some(l)
            }
        },
        None => None,
    }
}

/// The literal patterns of the navigator-query grammar, built once.
struct DirQueryPats {
    php_q: Vec<char>,
    php_slash_q: Vec<char>,
    slash_q: Vec<char>,
    q: Vec<char>,
    dot_slash: Vec<char>,
    dot_enc: Vec<char>,
}

impl DirQueryPats {
    spec fn wf(&self) -> bool {
        self.php_q@ == ".php?dir="@ && self.php_slash_q@ == ".php/?dir="@ && self.slash_q@
            == "/?dir="@ && self.q@ == "?dir="@ && self.dot_slash@ == "./"@ && self.dot_enc@
            == ".%2F"@ && self.php_q@.len() == 9 && self.php_slash_q@.len() == 10
            && self.slash_q@.len() == 6 && self.q@.len() == 5 && self.dot_slash@.len() == 2
            && self.dot_enc@.len() == 4
    }

    fn new() -> (r: DirQueryPats)
        ensures
            r.wf(),
    {
        proof {
            reveal_strlit(".php?dir=");
            reveal_strlit(".php/?dir=");
            reveal_strlit("/?dir=");
            reveal_strlit("?dir=");
            reveal_strlit("./");
            reveal_strlit(".%2F");
        }
        DirQueryPats {
            php_q: chars_of(".php?dir="),
            php_slash_q: chars_of(".php/?dir="),
            slash_q: chars_of("/?dir="),
            q: chars_of("?dir="),
            dot_slash: chars_of("./"),
            dot_enc: chars_of(".%2F"),
        }
    }
}

/// The first navigator query replaced by `repl`; `s` itself when none occurs.
pub open spec fn spec_replace_dir_queries(s: Seq<char>, repl: Seq<char>) -> Seq<char> {
    if exists|i: int| 0 <= i <= s.len() && dir_query_len_at(s, i) is Some {
        let i = choose|i: int|
            0 <= i <= s.len() && dir_query_len_at(s, i) is Some && forall|j: int|
                0 <= j < i ==> dir_query_len_at(s, j) is None;
        spec_splice(s, i, i + dir_query_len_at(s, i)->0, repl)
    } else {
        s
    }
}

/// Replace navigator query.
pub fn replace_dir_queries(x: &str, repl: &str) -> (r: String)
    ensures
        r@ == spec_replace_dir_queries(x@, repl@),
{
    let v = chars_of(x);
    let rep = chars_of(repl);
    string_of(&replace_dir_queries_chars(&v, &rep))
}

pub fn replace_dir_queries_chars(v: &Vec<char>, rep: &Vec<char>) -> (r: Vec<char>)
    ensures
        r@ == spec_replace_dir_queries(v@, rep@),
{
    let pats = DirQueryPats::new();
    let n = v.len();
    let mut i: usize = 0;
    while i < n
        invariant
            pats.wf(),
            n == v@.len(),
            0 <= i <= n,
            forall|j: int| 0 <= j < i ==> dir_query_len_at(v@, j) is None,
        decreases n - i,
    {
        match dir_query_len_at_exec(v, i, &pats) {
            Some(l) => {
                proof {
                    let wi = i as int;
                    assert(0 <= wi <= v@.len() && dir_query_len_at(v@, wi) is Some);
                }
                let out = splice(v, i, i + l, rep);
                proof {
                    let ci = choose|ci: int|
                        0 <= ci <= v@.len() && dir_query_len_at(v@, ci) is Some && forall|j: int|
                            0 <= j < ci ==> dir_query_len_at(v@, j) is None;
                    assert(0 <= i as int <= v@.len() && dir_query_len_at(v@, i as int) is Some
                        && forall|j: int| 0 <= j < i as int ==> dir_query_len_at(v@, j) is None);
                    assert(ci == i as int) by {
                        if ci < i as int {
                            assert(dir_query_len_at(v@, ci) is None);
                        }
                        if (i as int) < ci {
                            assert(dir_query_len_at(v@, i as int) is None);
                        }
                    }
                }
                return out;
            },
            None => {
                i = i + 1;
            },
        }
    }
    proof {
        reveal_strlit("/?dir=");
        reveal_strlit("?dir=");
        assert(dir_query_base_len_at(v@, n as int) is None);
        assert(dir_query_len_at(v@, n as int) is None);
        assert(forall|j: int| 0 <= j <= v@.len() ==> dir_query_len_at(v@, j) is None);
    }
    subvec(v, 0, v.len())
}

} // verus!

verus! {

// ---------------------------------------------------------------------------
// Slash collapsing and light HTML encoding
// ---------------------------------------------------------------------------

/// Runs of slashes collapsed to single slashes.
pub open spec fn collapse_runs(s: Seq<char>) -> Seq<char>
    decreases s.len(),
{
    if s.len() < 2 {
        s
    } else if s[0] == '/' && s[1] == '/' {
        collapse_runs(s.skip(1))
    } else {
        seq![s[0]] + collapse_runs(s.skip(1))
    }
}

/// Duplicate slashes collapsed everywhere after the scheme separator.
pub open spec fn spec_collapse_dup_slashes(s: Seq<char>) -> Seq<char> {
    if seq_contains(s, "://"@) {
        let i = first_occurrence(s, "://"@);
        s.take(i + 3) + collapse_runs(s.skip(i + 3))
    } else {
        collapse_runs(s)
    }
}

fn collapse_runs_from(v: &Vec<char>, from: usize) -> (r: Vec<char>)
    requires
        from <= v@.len(),
    ensures
        r@ == collapse_runs(v@.skip(from as int)),
{
    let n = v.len();
    let mut out: Vec<char> = Vec::new();
    let mut i: usize = from;
    while i < n
        invariant
            n == v@.len(),
            from <= i <= n,
            collapse_runs(v@.skip(from as int)) == out@ + collapse_runs(v@.skip(i as int)),
        decreases n - i,
    {
        let ghost pre = out@;
        if v[i] == '/' && i + 1 < n && v[i + 1] == '/' {
            proof {
                assert(v@.skip(i as int)[0] == '/' && v@.skip(i as int)[1] == '/');
                assert(v@.skip(i as int).skip(1) =~= v@.skip(i + 1));
            }
        } else {
            proof {
                if v@.skip(i as int).len() >= 2 {
                    assert(v@.skip(i as int)[0] == v@[i as int]);
                    assert(v@.skip(i as int)[1] == v@[i + 1]);
                }
                assert(v@.skip(i as int).skip(1) =~= v@.skip(i + 1));
            }
            out.push(v[i]);
            assert(out@ =~= pre + seq![v@[i as int]]);
        }
        i = i + 1;
    }
    assert(v@.skip(n as int) =~= Seq::<char>::empty());
    assert(out@ =~= out@ + collapse_runs(v@.skip(n as int)));
    out
}

pub fn collapse_dup_slashes_chars(v: &Vec<char>) -> (r: Vec<char>)
    ensures
        r@ == spec_collapse_dup_slashes(v@),
{
    let sep = chars_of("://");
    let n = v.len();
    match find_first(v, &sep) {
        Some(i) => {
            proof {
                lemma_first_occurrence(v@, sep@, i as int);
                reveal_strlit("://");
            }
            assert(i + 3 <= n);
            let mut out = subvec(v, 0, i + 3);
            let rest = collapse_runs_from(v, i + 3);
            push_all(&mut out, &rest);
            assert(out@ =~= v@.take(i + 3) + collapse_runs(v@.skip(i + 3)));
            assert(seq_contains(v@, "://"@));
            out
        },
        None => {
            let out = collapse_runs_from(v, 0);
            assert(v@.skip(0) =~= v@);
            out
        },
    }
}

/// Slashes, plus signs and spaces written as percent escapes.
pub open spec fn spec_html_encode(s: Seq<char>) -> Seq<char> {
    spec_replace_all(
        spec_replace_all(spec_replace_all(s, "/"@, "%2F"@), "+"@, "%20"@),
        " "@,
        "%20"@,
    )
}

/// Lightly HTML encode a string of text.
pub fn html_encode(txt: &str) -> (r: String)
    ensures
        r@ == spec_html_encode(txt@),
{
    let v = chars_of(txt);
    string_of(&html_encode_chars(&v))
}

pub fn html_encode_chars(v: &Vec<char>) -> (r: Vec<char>)
    ensures
        r@ == spec_html_encode(v@),
{
    let slash = chars_of("/");
    let enc_slash = chars_of("%2F");
    let plus = chars_of("+");
    let space = chars_of(" ");
    let enc_space = chars_of("%20");
    let a = replace_all(v, &slash, &enc_slash);
    let b = replace_all(&a, &plus, &enc_space);
    replace_all(&b, &space, &enc_space)
}

/// The first `www.` marker removed.
pub open spec fn spec_remove_www(s: Seq<char>) -> Seq<char> {
    spec_replace_first(s, "www."@, Seq::<char>::empty())
}

pub fn remove_www_chars(v: &Vec<char>) -> (r: Vec<char>)
    ensures
        r@ == spec_remove_www(v@),
{
    let pat = chars_of("www.");
    let rep: Vec<char> = Vec::new();
    replace_first(v, &pat, &rep)
}

} // verus!

verus! {

// ---------------------------------------------------------------------------
// URL structure: scheme, host, port, path, query
// ---------------------------------------------------------------------------

/// First position at or after `j` holding `c1` or `c2`; `s.len()` when none.
pub open spec fn find_char2(s: Seq<char>, j: int, c1: char, c2: char) -> int
    recommends
        0 <= j <= s.len(),
    decreases s.len() - j,
{
    if 0 <= j < s.len() {
        if s[j] == c1 || s[j] == c2 {
            j
        } else {
            find_char2(s, j + 1, c1, c2)
        }
    } else {
        j
    }
}

pub fn find_char2_exec(v: &Vec<char>, j: usize, c1: char, c2: char) -> (r: usize)
    requires
        j <= v@.len(),
    ensures
        r == find_char2(v@, j as int, c1, c2),
        j <= r <= v@.len(),
{
    let n = v.len();
    let mut i: usize = j;
    while i < n && v[i] != c1 && v[i] != c2
        invariant
            n == v@.len(),
            j <= i <= n,
            find_char2(v@, j as int, c1, c2) == find_char2(v@, i as int, c1, c2),
        decreases n - i,
    {
        i = i + 1;
    }
    i
}

/// First position at or after `start` holding `c`; `v.len()` when none.
pub fn find_char2_pub(v: &Vec<char>, start: usize, c: char) -> (r: usize)
    requires
        start <= v@.len(),
    ensures
        r == find_char2(v@, start as int, c, c),
        start <= r <= v@.len(),
{
    find_char2_exec(v, start, c, c)
}

/// Finding a character in a suffix mirrors finding it in the whole.
pub proof fn lemma_find_char2_skip(s: Seq<char>, start: int, e: int, c: char)
    requires
        0 <= start <= s.len(),
        e == find_char2(s, start, c, c),
    ensures
        find_char2(s.skip(start), 0, c, c) == e - start,
    decreases s.len() - start,
{
    lemma_find_char2_shift(s, start, start, c);
}

/// `find_char2` from `j` in the whole equals `start` plus the find from
/// `j - start` in the suffix.
proof fn lemma_find_char2_shift(s: Seq<char>, start: int, j: int, c: char)
    requires
        0 <= start <= j <= s.len(),
    ensures
        find_char2(s, j, c, c) == start + find_char2(s.skip(start), j - start, c, c),
    decreases s.len() - j,
{
    if j < s.len() {
        assert(s.skip(start)[j - start] == s[j]);
        if s[j] == c {
        } else {
            lemma_find_char2_shift(s, start, j + 1, c);
        }
    }
}

/// The parsed shape of an absolute URL.
pub struct UrlParts {
    pub scheme: Vec<char>,
    pub host: Vec<char>,
    pub port: Option<Vec<char>>,
    pub path: Vec<char>,
    pub query: Option<Vec<char>>,
}

/// Mathematical shape of a parsed URL.
pub struct UrlPartsV {
    pub scheme: Seq<char>,
    pub host: Seq<char>,
    pub port: Option<Seq<char>>,
    pub path: Seq<char>,
    pub query: Option<Seq<char>>,
}

impl View for UrlParts {
    type V = UrlPartsV;

    open spec fn view(&self) -> UrlPartsV {
        UrlPartsV {
            scheme: self.scheme@,
            host: self.host@,
            port: match self.port {
                Some(p) => Some(p@),
                None => None,
            },
            path: self.path@,
            query: match self.query {
                Some(q) => Some(q@),
                None => None,
            },
        }
    }
}

pub open spec fn is_scheme_char(c: char) -> bool {
    is_alnum_char(c) || c == '+' || c == '-' || c == '.'
}

/// How a URL string decomposes: `scheme://host[:port]path[?query]`,
/// with an empty path read as `/`. `None` when the string is no
/// absolute URL of that shape. This grammar keeps every character as it
/// stands: unlike a full URL parser it does not fold case or rewrite
/// percent escapes, so joining stays byte-exact on listing links.
pub open spec fn spec_split_url(s: Seq<char>) -> Option<UrlPartsV> {
    if !seq_contains(s, "://"@) {
        None
    } else {
        let i = first_occurrence(s, "://"@);
        let scheme = s.take(i);
        if scheme.len() == 0 || exists|k: int| 0 <= k < scheme.len() && !is_scheme_char(scheme[k]) {
            None
        } else {
            let rest = s.skip(i + 3);
            let ae = find_char2(rest, 0, '/', '?');
            let authority = rest.take(ae);
            let ci = find_char2(authority, 0, ':', ':');
            let host = authority.take(ci);
            if host.len() == 0 {
                None
            } else if ci < authority.len() && (authority.len() == ci + 1 || exists|k: int|
                ci + 1 <= k < authority.len() && !is_digit_char(authority[k])) {
                None
            } else {
                let port = if ci < authority.len() {
                    Some(authority.skip(ci + 1))
                } else {
                    None
                };
                let qi = find_char2(rest, ae, '?', '?');
                let path = if qi > ae {
                    rest.subrange(ae, qi)
                } else {
                    "/"@
                };
                let query = if qi < rest.len() {
                    Some(rest.skip(qi + 1))
                } else {
                    None
                };
                Some(UrlPartsV { scheme, host, port, path, query })
            }
        }
    }
}

/// Splits a URL into its parts.
#[verifier::loop_isolation(false)]
pub fn split_url(v: &Vec<char>) -> (r: Option<UrlParts>)
    ensures
        match r {
            Some(p) => spec_split_url(v@) == Some(p@),
            None => spec_split_url(v@) is None,
        },
{
    proof {
        reveal_strlit("://");
        reveal_strlit("/");
    }
    let n = v.len();
    let sep = chars_of("://");
    let i = match find_first(v, &sep) {
        Some(i) => i,
        None => {
            return None;
        },
    };
    proof {
        lemma_first_occurrence(v@, sep@, i as int);
    }
    if i == 0 {
        return None;
    }
    let scheme = subvec(v, 0, i);
    let mut k: usize = 0;
    while k < scheme.len()
        invariant
            0 <= k <= scheme@.len(),
            forall|j: int| 0 <= j < k ==> is_scheme_char(scheme@[j]),
        decreases scheme@.len() - k,
    {
        let c = scheme[k];
        if !(alnum_char(c) || c == '+' || c == '-' || c == '.') {
            assert(exists|j: int| 0 <= j < scheme@.len() && !is_scheme_char(scheme@[j])) by {
                assert(!is_scheme_char(scheme@[k as int]));
            }
            return None;
        }
        k = k + 1;
    }
    let rest = subvec(v, i + 3, n);
    assert(rest@ =~= v@.skip(i + 3));
    let ae = find_char2_exec(&rest, 0, '/', '?');
    let authority = subvec(&rest, 0, ae);
    assert(authority@ =~= rest@.take(ae as int));
    let ci = find_char2_exec(&authority, 0, ':', ':');
    let host = subvec(&authority, 0, ci);
    assert(host@ =~= authority@.take(ci as int));
    if host.len() == 0 {
        return None;
    }
    let port: Option<Vec<char>> = if ci < authority.len() {
        if ci + 1 == authority.len() {
            return None;
        }
        let p = subvec(&authority, ci + 1, authority.len());
        assert(p@ =~= authority@.skip(ci + 1));
        let mut k2: usize = 0;
        while k2 < p.len()
            invariant
                0 <= k2 <= p@.len(),
                forall|j: int| 0 <= j < k2 ==> is_digit_char(p@[j]),
            decreases p@.len() - k2,
        {
            if !digit_char(p[k2]) {
                assert(exists|j: int|
                    ci + 1 <= j < authority@.len() && !is_digit_char(authority@[j])) by {
                    assert(!is_digit_char(authority@[ci + 1 + k2]));
                }
                return None;
            }
            k2 = k2 + 1;
        }
        Some(p)
    } else {
        None
    };
    let qi = find_char2_exec(&rest, ae, '?', '?');
    let path = if qi > ae {
        let pth = subvec(&rest, ae, qi);
        assert(pth@ =~= rest@.subrange(ae as int, qi as int));
        pth
    } else {
        chars_of("/")
    };
    let query: Option<Vec<char>> = if qi < rest.len() {
        let q = subvec(&rest, qi + 1, rest.len());
        assert(q@ =~= rest@.skip(qi + 1));
        Some(q)
    } else {
        None
    };
    let out = UrlParts { scheme, host, port, path, query };
    proof {
        assert(!(exists|j: int| 0 <= j < out@.scheme.len() && !is_scheme_char(out@.scheme[j])));
        match out@.port {
            Some(pt) => {
                assert(forall|j: int|
                    ci + 1 <= j < authority@.len() ==> is_digit_char(#[trigger] authority@[j]))
                    by {
                    assert(forall|j: int|
                        ci + 1 <= j < authority@.len() ==> authority@[j] == authority@.skip(
                            ci + 1,
                        )[j - ci - 1]);
                }
            },
            None => {},
        }
        assert(spec_split_url(v@) == Some(out@));
    }
    Some(out)
}

/// The string a parsed URL writes back to.
pub open spec fn spec_unsplit_url(p: UrlPartsV) -> Seq<char> {
    p.scheme + "://"@ + p.host + (match p.port {
        Some(pt) => ":"@ + pt,
        None => Seq::<char>::empty(),
    }) + p.path + (match p.query {
        Some(q) => "?"@ + q,
        None => Seq::<char>::empty(),
    })
}

/// Writes a parsed URL back to its string form.
pub fn unsplit_url(p: &UrlParts) -> (r: Vec<char>)
    ensures
        r@ == spec_unsplit_url(p@),
{
    let mut out: Vec<char> = Vec::new();
    push_all(&mut out, &p.scheme);
    push_lit(&mut out, "://");
    push_all(&mut out, &p.host);
    match &p.port {
        Some(pt) => {
            push_lit(&mut out, ":");
            push_all(&mut out, pt);
        },
        None => {},
    }
    push_all(&mut out, &p.path);
    match &p.query {
        Some(q) => {
            push_lit(&mut out, "?");
            push_all(&mut out, q);
        },
        None => {},
    }
    assert(out@ =~= spec_unsplit_url(p@));
    out
}

} // verus!

verus! {

// ---------------------------------------------------------------------------
// Direct file links
// ---------------------------------------------------------------------------

/// Start of the run of script characters ending at `i`.
pub open spec fn script_run_start(t: Seq<char>, i: int) -> int
    recommends
        0 <= i <= t.len(),
    decreases i,
{
    if i <= 0 {
        0
    } else if 0 < i <= t.len() && is_script_char(t[i - 1]) {
        script_run_start(t, i - 1)
    } else {
        i
    }
}

/// Start of the run of file-name characters ending at `i`.
pub open spec fn fname_run_start(t: Seq<char>, i: int) -> int
    recommends
        0 <= i <= t.len(),
    decreases i,
{
    if i <= 0 {
        0
    } else if 0 < i <= t.len() && is_fname_char(t[i - 1]) {
        fname_run_start(t, i - 1)
    } else {
        i
    }
}

/// Before the dot at `d` stands a non-empty run of file-name characters,
/// preceded by a slash that itself follows a word character.
pub open spec fn uri_prefix_ok(s: Seq<char>, d: int) -> bool {
    let j = fname_run_start(s, d);
    j < d && j >= 2 && s[j - 1] == '/' && is_word_char(s[j - 2])
}

/// The URL is a direct link to a file: a path component with a plausible
/// file extension ends the URL, and the extension is no web-page suffix.
/// A URL ending in `/` is never file-like.
pub open spec fn spec_is_uri(s: Seq<char>) -> bool {
    (exists|k: int| 2 <= k <= 7 && ext_ok_at(s, k) && uri_prefix_ok(s, s.len() - 1 - k))
        && !spec_is_web_page(s)
}

fn fname_run_start_exec(v: &Vec<char>, i: usize) -> (r: usize)
    requires
        i <= v@.len(),
    ensures
        r == fname_run_start(v@, i as int),
        r <= i,
{
    let mut j: usize = i;
    while j > 0 && fname_char(v[j - 1])
        invariant
            i <= v@.len(),
            0 <= j <= i,
            fname_run_start(v@, i as int) == fname_run_start(v@, j as int),
        decreases j,
    {
        j = j - 1;
    }
    j
}

/// Determines if the URL is a direct link to a file.
/// The file must not be an `htm(l)`, `php` or `asp(x)` page.
pub fn is_uri(url: &str) -> (r: bool)
    ensures
        r == spec_is_uri(url@),
{
    let v = chars_of(url);
    is_uri_chars(&v)
}

#[verifier::loop_isolation(false)]
fn has_file_tail(v: &Vec<char>) -> (r: bool)
    ensures
        r == exists|k: int| 2 <= k <= 7 && ext_ok_at(v@, k) && uri_prefix_ok(v@, v@.len() - 1 - k),
{
    let n = v.len();
    let mut k: usize = 2;
    while k <= 7
        invariant
            2 <= k <= 8,
            forall|kk: int|
                2 <= kk < k ==> !(ext_ok_at(v@, kk) && uri_prefix_ok(v@, v@.len() - 1 - kk)),
        decreases 8 - k,
    {
        if ext_ok_at_exec(v, k) {
            let d = n - 1 - k;
            let j = fname_run_start_exec(v, d);
            if j < d && j >= 2 && v[j - 1] == '/' && word_char(v[j - 2]) {
                assert(ext_ok_at(v@, k as int) && uri_prefix_ok(v@, v@.len() - 1 - k));
                return true;
            }
            assert(!uri_prefix_ok(v@, v@.len() - 1 - k));
        }
        k = k + 1;
    }
    false
}

pub fn is_uri_chars(v: &Vec<char>) -> (r: bool)
    ensures
        r == spec_is_uri(v@),
{
    has_file_tail(v) && !is_web_page_chars(v)
}

// ---------------------------------------------------------------------------
// Joining a relative link onto a base URL
// ---------------------------------------------------------------------------

/// The scheme, host and optional port of a parsed URL, written back out.
pub open spec fn spec_scheme_host_port(p: UrlPartsV) -> Seq<char> {
    p.scheme + "://"@ + p.host + (match p.port {
        Some(pt) => ":"@ + pt,
        None => Seq::<char>::empty(),
    })
}

/// The first path segment: what stands between the leading slash and the
/// next one.
pub open spec fn spec_first_segment(path: Seq<char>) -> Seq<char> {
    if path.len() > 0 && path[0] == '/' {
        path.subrange(1, find_char2(path, 1, '/', '/'))
    } else {
        path.take(find_char2(path, 0, '/', '/'))
    }
}

fn first_segment(path: &Vec<char>) -> (r: Vec<char>)
    ensures
        r@ == spec_first_segment(path@),
{
    if path.len() > 0 && path[0] == '/' {
        let e = find_char2_exec(path, 1, '/', '/');
        subvec(path, 1, e)
    } else {
        let e = find_char2_exec(path, 0, '/', '/');
        let r = subvec(path, 0, e);
        assert(r@ =~= path@.take(find_char2(path@, 0, '/', '/')));
        r
    }
}

/// The first path segment the relative link resolves to, found by planting
/// it on a placeholder host and reading the resulting path.
pub open spec fn spec_rel_first_segment(rel: Seq<char>) -> Seq<char> {
    let dummy = if seq_starts_with(rel, "./"@) {
        "http://www.example.com"@ + rel.skip(2)
    } else if !seq_starts_with(rel, "/"@) {
        "http://www.example.com"@ + "/"@ + rel
    } else {
        "http://www.example.com"@ + rel
    };
    match spec_split_url(spec_removes_single_path(dummy)) {
        Some(p) => spec_first_segment(p.path),
        None => Seq::<char>::empty(),
    }
}

fn rel_first_segment(rel: &Vec<char>) -> (r: Vec<char>)
    ensures
        r@ == spec_rel_first_segment(rel@),
{
    proof {
        reveal_strlit("./");
        reveal_strlit("/");
    }
    let mut dummy = chars_of("http://www.example.com");
    if starts_with_lit(rel, "./") {
        let t = subvec(rel, 2, rel.len());
        assert(t@ =~= rel@.skip(2));
        push_all(&mut dummy, &t);
    } else if !starts_with_lit(rel, "/") {
        push_lit(&mut dummy, "/");
        push_all(&mut dummy, rel);
        assert(dummy@ =~= "http://www.example.com"@ + "/"@ + rel@);
    } else {
        push_all(&mut dummy, rel);
    }
    let clean = removes_single_path_chars(&dummy);
    match split_url(&clean) {
        Some(p) => first_segment(&p.path),
        None => Vec::new(),
    }
}

/// Replace the trailing web-script component (and whatever follows it)
/// with the relative link.
pub open spec fn spec_web_replace(s: Seq<char>, rel: Seq<char>) -> Seq<char> {
    let t = spec_remove_last_slash(s);
    spec_splice(s, script_run_start(t, t.len() as int), s.len() as int, rel)
}

fn web_replace(v: &Vec<char>, rel: &Vec<char>) -> (r: Vec<char>)
    ensures
        r@ == spec_web_replace(v@, rel@),
{
    let t = remove_last_slash_chars(v);
    let mut j: usize = t.len();
    while j > 0 && script_char(t[j - 1])
        invariant
            t@ == spec_remove_last_slash(v@),
            0 <= j <= t@.len(),
            script_run_start(t@, t@.len() as int) == script_run_start(t@, j as int),
        decreases j,
    {
        j = j - 1;
    }
    assert(j <= v@.len());
    splice(v, j, v.len(), rel)
}

/// How a relative link resolves against the parsed base: the resolution
/// cascade of the canonicalizer, first match wins.
pub open spec fn spec_join_resolved(p: UrlPartsV, rel: Seq<char>) -> Seq<char> {
    let useg = spec_first_segment(p.path);
    let rseg = spec_rel_first_segment(rel);
    if useg == rseg && useg.len() > 0 && rseg.len() > 0 {
        spec_scheme_host_port(p) + (if seq_starts_with(rel, "/"@) {
            rel
        } else {
            "/"@ + rel
        })
    } else if rel.len() > 0 && rel[0] == '?' {
        spec_unsplit_url(
            UrlPartsV {
                scheme: p.scheme,
                host: p.host,
                port: p.port,
                path: p.path,
                query: Some(rel.skip(1)),
            },
        )
    } else if p.query is Some && seq_starts_with(p.query->0, "dir="@) {
        spec_unsplit_url(
            UrlPartsV {
                scheme: p.scheme,
                host: p.host,
                port: p.port,
                path: p.path,
                query: Some(spec_dir_value(rel)),
            },
        )
    } else {
        let u3 = spec_unsplit_url(p);
        if spec_is_web_page(u3) {
            spec_web_replace(
                u3,
                if seq_starts_with(rel, "./"@) {
                    rel.skip(2)
                } else {
                    rel
                },
            )
        } else if seq_ends_with(u3, "/"@) && seq_starts_with(rel, "/"@) {
            spec_remove_last_slash(u3) + rel
        } else if seq_starts_with(rel, "./"@) && seq_ends_with(u3, "/"@) {
            u3 + rel.skip(2)
        } else if seq_starts_with(rel, "./"@) && !seq_ends_with(u3, "/"@) {
            u3 + rel.skip(1)
        } else if !seq_ends_with(u3, "/"@) && !seq_starts_with(rel, "/"@) {
            u3 + "/"@ + rel
        } else {
            u3 + rel
        }
    }
}

/// Joins the relative link and the base URL together. An already
/// absolute link stands as it is, whatever the base. Anything else goes
/// through the resolution cascade: a repeated first path segment
/// replaces the whole path; a `?` query replaces the query; a `dir=`
/// navigator query receives the link as its new value; a web-script
/// tail is replaced by the link; otherwise the two are concatenated
/// with exactly one slash at the seam. `None` when the base is no
/// absolute URL.
pub open spec fn spec_url_joiner(url: Seq<char>, rel: Seq<char>) -> Option<Seq<char>> {
    if spec_is_http(rel) {
        Some(rel)
    } else {
        let u2 = spec_removes_single_path(spec_collapse_dup_slashes(url));
        match spec_split_url(u2) {
            None => None,
            Some(p) => Some(spec_join_resolved(p, rel)),
        }
    }
}

pub fn url_joiner(url: &str, rel: &str) -> (r: Option<String>)
    ensures
        match r {
            Some(s) => spec_url_joiner(url@, rel@) == Some(s@),
            None => spec_url_joiner(url@, rel@) is None,
        },
{
    let uv = chars_of(url);
    let rv = chars_of(rel);
    match url_joiner_chars(&uv, &rv) {
        Some(out) => Some(string_of(&out)),
        None => None,
    }
}

/// A copy of the character vector.
pub fn copy_chars(v: &Vec<char>) -> (r: Vec<char>)
    ensures
        r@ == v@,
{
    let r = subvec(v, 0, v.len());
    assert(r@ =~= v@);
    r
}

fn join_repeated_segment(p: &UrlParts, rv: &Vec<char>) -> (out: Vec<char>)
    ensures
        out@ == spec_scheme_host_port(p@) + (if seq_starts_with(rv@, "/"@) {
            rv@
        } else {
            "/"@ + rv@
        }),
{
    proof {
        reveal_strlit("/");
    }
    let mut out: Vec<char> = Vec::new();
    push_all(&mut out, &p.scheme);
    push_lit(&mut out, "://");
    push_all(&mut out, &p.host);
    match &p.port {
        Some(pt) => {
            push_lit(&mut out, ":");
            push_all(&mut out, pt);
        },
        None => {},
    }
    assert(out@ =~= spec_scheme_host_port(p@));
    let ghost shp = out@;
    if !starts_with_lit(rv, "/") {
        push_lit(&mut out, "/");
        push_all(&mut out, rv);
        assert(out@ =~= shp + ("/"@ + rv@));
    } else {
        push_all(&mut out, rv);
    }
    out
}

fn join_with_query(p: &UrlParts, q: Vec<char>) -> (out: Vec<char>)
    ensures
        out@ == spec_unsplit_url(
            UrlPartsV {
                scheme: p@.scheme,
                host: p@.host,
                port: p@.port,
                path: p@.path,
                query: Some(q@),
            },
        ),
{
    let np = UrlParts {
        scheme: copy_chars(&p.scheme),
        host: copy_chars(&p.host),
        port: match &p.port {
            Some(pt) => Some(copy_chars(pt)),
            None => None,
        },
        path: copy_chars(&p.path),
        query: Some(q),
    };
    unsplit_url(&np)
}

/// The relative link as a `dir=` navigator value: leading `./` or `/`
/// dropped, slashes percent-encoded.
pub open spec fn spec_dir_value(rel: Seq<char>) -> Seq<char> {
    let relv = if seq_starts_with(rel, "./"@) {
        rel.skip(2)
    } else if seq_starts_with(rel, "/"@) {
        rel.skip(1)
    } else {
        rel
    };
    "dir="@ + spec_replace_all(relv, "/"@, "%2F"@)
}

fn dir_value(rv: &Vec<char>) -> (out: Vec<char>)
    ensures
        out@ == spec_dir_value(rv@),
{
    proof {
        reveal_strlit("./");
        reveal_strlit("/");
    }
    let relv = if starts_with_lit(rv, "./") {
        let t = subvec(rv, 2, rv.len());
        assert(t@ =~= rv@.skip(2));
        t
    } else if starts_with_lit(rv, "/") {
        let t = subvec(rv, 1, rv.len());
        assert(t@ =~= rv@.skip(1));
        t
    } else {
        copy_chars(rv)
    };
    let slash = chars_of("/");
    let enc = chars_of("%2F");
    let encoded = replace_all(&relv, &slash, &enc);
    let mut q = chars_of("dir=");
    push_all(&mut q, &encoded);
    q
}

fn join_concat(u3: &Vec<char>, rv: &Vec<char>) -> (out: Vec<char>)
    ensures
        out@ == (if seq_ends_with(u3@, "/"@) && seq_starts_with(rv@, "/"@) {
            spec_remove_last_slash(u3@) + rv@
        } else if seq_starts_with(rv@, "./"@) && seq_ends_with(u3@, "/"@) {
            u3@ + rv@.skip(2)
        } else if seq_starts_with(rv@, "./"@) && !seq_ends_with(u3@, "/"@) {
            u3@ + rv@.skip(1)
        } else if !seq_ends_with(u3@, "/"@) && !seq_starts_with(rv@, "/"@) {
            u3@ + "/"@ + rv@
        } else {
            u3@ + rv@
        }),
{
    proof {
        reveal_strlit("/");
        reveal_strlit("./");
    }
    let u3_slash = ends_with_lit(u3, "/");
    if u3_slash && starts_with_lit(rv, "/") {
        let mut o = remove_last_slash_chars(u3);
        push_all(&mut o, rv);
        o
    } else if starts_with_lit(rv, "./") && u3_slash {
        let mut o = copy_chars(u3);
        let t = subvec(rv, 2, rv.len());
        assert(t@ =~= rv@.skip(2));
        push_all(&mut o, &t);
        o
    } else if starts_with_lit(rv, "./") && !u3_slash {
        let mut o = copy_chars(u3);
        let t = subvec(rv, 1, rv.len());
        assert(t@ =~= rv@.skip(1));
        push_all(&mut o, &t);
        o
    } else if !u3_slash && !starts_with_lit(rv, "/") {
        let mut o = copy_chars(u3);
        push_lit(&mut o, "/");
        push_all(&mut o, rv);
        assert(o@ =~= u3@ + "/"@ + rv@);
        o
    } else {
        let mut o = copy_chars(u3);
        push_all(&mut o, rv);
        o
    }
}

#[verifier::rlimit(60)]
pub fn url_joiner_chars(uv: &Vec<char>, rv: &Vec<char>) -> (r: Option<Vec<char>>)
    ensures
        match r {
            Some(out) => spec_url_joiner(uv@, rv@) == Some(out@),
            None => spec_url_joiner(uv@, rv@) is None,
        },
{
    proof {
        reveal_strlit("/");
        reveal_strlit("./");
        reveal_strlit("dir=");
    }
    if is_http_chars(rv) {
        return Some(copy_chars(rv));
    }
    let u2 = removes_single_path_chars(&collapse_dup_slashes_chars(uv));
    let p = match split_url(&u2) {
        Some(p) => p,
        None => {
            return None;
        },
    };
    let useg = first_segment(&p.path);
    let rseg = rel_first_segment(rv);
    if useg.len() > 0 && rseg.len() > 0 && eq_chars(&useg, &rseg) {
        let out = join_repeated_segment(&p, rv);
        assert(out@ == spec_join_resolved(p@, rv@));
        return Some(out);
    }
    if rv.len() > 0 && rv[0] == '?' {
        let q = subvec(rv, 1, rv.len());
        assert(q@ =~= rv@.skip(1));
        let out = join_with_query(&p, q);
        assert(out@ == spec_join_resolved(p@, rv@));
        return Some(out);
    }
    let dir_query = match &p.query {
        Some(q) => starts_with_lit(q, "dir="),
        None => false,
    };
    if dir_query {
        let q = dir_value(rv);
        let out = join_with_query(&p, q);
        assert(out@ == spec_join_resolved(p@, rv@));
        return Some(out);
    }
    let u3 = unsplit_url(&p);
    if is_web_page_chars(&u3) {
        let rel_adj = if starts_with_lit(rv, "./") {
            let t = subvec(rv, 2, rv.len());
            assert(t@ =~= rv@.skip(2));
            t
        } else {
            copy_chars(rv)
        };
        let out = web_replace(&u3, &rel_adj);
        assert(out@ == spec_join_resolved(p@, rv@));
        return Some(out);
    }
    let out = join_concat(&u3, rv);
    assert(out@ == spec_join_resolved(p@, rv@));
    Some(out)
}

/// Element-wise equality of two character vectors.
pub fn eq_chars(a: &Vec<char>, b: &Vec<char>) -> (r: bool)
    ensures
        r == (a@ == b@),
{
    if a.len() != b.len() {
        assert(a@ != b@);
        return false;
    }
    if eq_at(a, b, 0) {
        assert(a@.subrange(0, b@.len() as int) =~= a@);
        true
    } else {
        assert(a@.subrange(0, b@.len() as int) =~= a@);
        false
    }
}

} // verus!

verus! {

// ---------------------------------------------------------------------------
// Sort-query suffixes (`?C=N&O=A` and kin)
// ---------------------------------------------------------------------------

/// A short sort query `?x=y` ends `t`.
pub open spec fn sort_query4_at_end(t: Seq<char>) -> bool {
    t.len() >= 4 && t[t.len() - 4] == '?' && is_letter_char(t[t.len() - 3]) && t[t.len() - 2]
        == '=' && is_letter_char(t[t.len() - 1])
}

/// A double sort query `?x=y;a=b` or `?x=y&a=b` ends `t`.
pub open spec fn sort_query8_at_end(t: Seq<char>) -> bool {
    t.len() >= 8 && t[t.len() - 8] == '?' && is_letter_char(t[t.len() - 7]) && t[t.len() - 6]
        == '=' && is_letter_char(t[t.len() - 5]) && (t[t.len() - 4] == ';' || t[t.len() - 4]
        == '&') && is_letter_char(t[t.len() - 3]) && t[t.len() - 2] == '=' && is_letter_char(
        t[t.len() - 1],
    )
}

/// The URL, less one optional trailing slash, ends in a sorting query.
pub open spec fn spec_has_sort_query(s: Seq<char>) -> bool {
    sort_query8_at_end(spec_remove_last_slash(s)) || sort_query4_at_end(
        spec_remove_last_slash(s),
    )
}

/// The URL with a trailing sorting query (and the slash after it) removed.
pub open spec fn spec_strip_sort_query(s: Seq<char>) -> Seq<char> {
    let t = spec_remove_last_slash(s);
    if sort_query8_at_end(t) {
        t.take(t.len() - 8)
    } else if sort_query4_at_end(t) {
        t.take(t.len() - 4)
    } else {
        s
    }
}

/// Checks whether the link ends in a sorting or ordering query.
pub fn ends_with_any_query(link: &str) -> (r: bool)
    ensures
        r == spec_has_sort_query(link@),
{
    let v = chars_of(link);
    ends_with_any_query_chars(&v)
}

pub fn ends_with_any_query_chars(v: &Vec<char>) -> (r: bool)
    ensures
        r == spec_has_sort_query(v@),
{
    let t = remove_last_slash_chars(v);
    sort_query8_exec(&t) || sort_query4_exec(&t)
}

fn sort_query4_exec(t: &Vec<char>) -> (r: bool)
    ensures
        r == sort_query4_at_end(t@),
{
    let n = t.len();
    n >= 4 && t[n - 4] == '?' && letter_char(t[n - 3]) && t[n - 2] == '=' && letter_char(t[n - 1])
}

fn sort_query8_exec(t: &Vec<char>) -> (r: bool)
    ensures
        r == sort_query8_at_end(t@),
{
    let n = t.len();
    n >= 8 && t[n - 8] == '?' && letter_char(t[n - 7]) && t[n - 6] == '=' && letter_char(t[n - 5])
        && (t[n - 4] == ';' || t[n - 4] == '&') && letter_char(t[n - 3]) && t[n - 2] == '='
        && letter_char(t[n - 1])
}

/// The link with a trailing sorting query removed.
pub fn strip_sort_query_chars(v: &Vec<char>) -> (r: Vec<char>)
    ensures
        r@ == spec_strip_sort_query(v@),
{
    let t = remove_last_slash_chars(v);
    if sort_query8_exec(&t) {
        subvec(&t, 0, t.len() - 8)
    } else if sort_query4_exec(&t) {
        subvec(&t, 0, t.len() - 4)
    } else {
        copy_chars(v)
    }
}

// ---------------------------------------------------------------------------
// Sanitizing a URL for traversal
// ---------------------------------------------------------------------------

/// One sanitizing pass over a URL: a trailing signed hash query, a
/// trailing `?preview` marker and a trailing `%20` escape each stripped
/// once, duplicate path separators collapsed, and placeholder path
/// segments removed. Every step only removes characters.
pub open spec fn spec_sanitize_pass(s: Seq<char>) -> Seq<char> {
    spec_removes_single_path(
        spec_collapse_dup_slashes(
            spec_remove_space_entity(
                spec_remove_preview_query(crate::od::olaindex::spec_strip_hash_query(s)),
            ),
        ),
    )
}

/// A URL scrubbed for traversal: sanitizing passes applied until the
/// URL stops shrinking — since a pass only removes characters, this is
/// its fixed point, and sanitizing is idempotent.
pub open spec fn spec_sanitize_url(s: Seq<char>) -> Seq<char>
    decreases s.len(),
{
    let t = spec_sanitize_pass(s);
    if t.len() < s.len() {
        spec_sanitize_url(t)
    } else {
        s
    }
}

/// Sanitize the url for easy traversing.
pub fn sanitize_url(url: &str) -> (r: String)
    ensures
        r@ == spec_sanitize_url(url@),
{
    let v = chars_of(url);
    string_of(&sanitize_url_chars(&v))
}

fn sanitize_pass_chars(v: &Vec<char>) -> (r: Vec<char>)
    ensures
        r@ == spec_sanitize_pass(v@),
{
    let a = crate::od::olaindex::OLAINDEX::sanitize_url_chars(v);
    let b = remove_preview_query_chars(&a);
    let c = remove_space_entity_chars(&b);
    let d = collapse_dup_slashes_chars(&c);
    removes_single_path_chars(&d)
}

pub fn sanitize_url_chars(v: &Vec<char>) -> (r: Vec<char>)
    ensures
        r@ == spec_sanitize_url(v@),
{
    let mut cur = copy_chars(v);
    loop
        invariant
            spec_sanitize_url(v@) == spec_sanitize_url(cur@),
        decreases cur@.len(),
    {
        let next = sanitize_pass_chars(&cur);
        if next.len() < cur.len() {
            cur = next;
        } else {
            proof {
                lemma_sanitize_pass_shrinks(cur@);
            }
            return cur;
        }
    }
}

/// Collapsing slash runs only removes characters, and removes none only
/// on a sequence it leaves alone.
proof fn lemma_collapse_runs_shrinks(s: Seq<char>)
    ensures
        collapse_runs(s).len() <= s.len(),
        collapse_runs(s).len() == s.len() ==> collapse_runs(s) == s,
    decreases s.len(),
{
    if s.len() >= 2 {
        lemma_collapse_runs_shrinks(s.skip(1));
        if !(s[0] == '/' && s[1] == '/') {
            if collapse_runs(s).len() == s.len() {
                assert(collapse_runs(s.skip(1)) == s.skip(1));
                assert(collapse_runs(s) =~= s);
            }
        }
    }
}

/// A contained pattern has a first occurrence.
proof fn lemma_first_exists(s: Seq<char>, pat: Seq<char>, w: int)
    requires
        contains_at(s, pat, w),
    ensures
        contains_at(s, pat, first_occurrence(s, pat)) && forall|j: int|
            0 <= j < first_occurrence(s, pat) ==> !contains_at(s, pat, j),
    decreases w,
{
    if exists|j: int| 0 <= j < w && contains_at(s, pat, j) {
        let j = choose|j: int| 0 <= j < w && contains_at(s, pat, j);
        lemma_first_exists(s, pat, j);
    } else {
        assert(contains_at(s, pat, w) && forall|j: int| 0 <= j < w ==> !contains_at(s, pat, j));
    }
}

/// Duplicate-slash collapsing only removes characters.
proof fn lemma_collapse_dup_shrinks(s: Seq<char>)
    ensures
        spec_collapse_dup_slashes(s).len() <= s.len(),
        spec_collapse_dup_slashes(s).len() == s.len() ==> spec_collapse_dup_slashes(s) == s,
{
    reveal_strlit("://");
    if seq_contains(s, "://"@) {
        let w = choose|w: int| contains_at(s, "://"@, w);
        lemma_first_exists(s, "://"@, w);
        let i = first_occurrence(s, "://"@);
        assert(0 <= i && i + 3 <= s.len());
        lemma_collapse_runs_shrinks(s.skip(i + 3));
        if spec_collapse_dup_slashes(s).len() == s.len() {
            assert(collapse_runs(s.skip(i + 3)) == s.skip(i + 3));
            assert(s.take(i + 3) + s.skip(i + 3) =~= s);
        }
    } else {
        lemma_collapse_runs_shrinks(s);
    }
}

/// Placeholder-segment removal only removes characters.
proof fn lemma_removes_single_shrinks(s: Seq<char>)
    ensures
        spec_removes_single_path(s).len() <= s.len(),
        spec_removes_single_path(s).len() == s.len() ==> spec_removes_single_path(s) == s,
    decreases s.len(),
{
    reveal_strlit("/./");
    reveal_strlit("/?/");
    reveal_strlit("/");
    if s.len() >= 3 {
        if seq_starts_with(s, "/./"@) || seq_starts_with(s, "/?/"@) {
            lemma_removes_single_shrinks(s.skip(3));
        } else {
            lemma_removes_single_shrinks(s.skip(1));
            if spec_removes_single_path(s).len() == s.len() {
                assert(spec_removes_single_path(s.skip(1)) == s.skip(1));
                assert(spec_removes_single_path(s) =~= s);
            }
        }
    }
}

/// A sanitizing pass only removes characters, and removes none only on
/// a URL it leaves alone: a same-length pass is the identity.
pub proof fn lemma_sanitize_pass_shrinks(s: Seq<char>)
    ensures
        spec_sanitize_pass(s).len() <= s.len(),
        spec_sanitize_pass(s).len() == s.len() ==> spec_sanitize_pass(s) == s,
{
    let h = crate::od::olaindex::spec_strip_hash_query(s);
    let p = spec_remove_preview_query(h);
    let sp = spec_remove_space_entity(p);
    let c = spec_collapse_dup_slashes(sp);
    assert(h.len() <= s.len() && (h.len() == s.len() ==> h == s)) by {
        reveal_strlit("?hash=");
        reveal_strlit("&download=1");
    }
    assert(p.len() <= h.len() && (p.len() == h.len() ==> p == h)) by {
        reveal_strlit("?preview");
    }
    assert(sp.len() <= p.len() && (sp.len() == p.len() ==> sp == p)) by {
        reveal_strlit("%20");
    }
    lemma_collapse_dup_shrinks(sp);
    lemma_removes_single_shrinks(c);
}

/// Sanitizing reaches a fixed point of the pass.
proof fn lemma_sanitize_fixpoint(u: Seq<char>)
    ensures
        spec_sanitize_pass(spec_sanitize_url(u)) == spec_sanitize_url(u),
    decreases u.len(),
{
    let t = spec_sanitize_pass(u);
    if t.len() < u.len() {
        lemma_sanitize_fixpoint(t);
    } else {
        lemma_sanitize_pass_shrinks(u);
    }
}

// ---------------------------------------------------------------------------
// Comparing links against their base URL
// ---------------------------------------------------------------------------

/// A URL made comparable: trailing slash off, navigator query replaced by
/// `repl`, the `www.` marker dropped, one extra path marker dropped, and
/// the rest percent-encoded.
pub open spec fn spec_ready_url(s: Seq<char>, repl: Seq<char>) -> Seq<char> {
    spec_html_encode(
        crate::od::olaindex::spec_remove_path(
            spec_remove_www(spec_replace_dir_queries(spec_remove_last_slash(s), repl)),
        ),
    )
}

fn ready_url_for_checking(v: &Vec<char>, repl: &Vec<char>) -> (r: Vec<char>)
    ensures
        r@ == spec_ready_url(v@, repl@),
{
    let a = remove_last_slash_chars(v);
    let b = replace_dir_queries_chars(&a, repl);
    let c = remove_www_chars(&b);
    let d = crate::od::olaindex::OLAINDEX::remove_path_chars(&c);
    html_encode_chars(&d)
}

/// Whether the link, made comparable, starts with the comparable base.
pub open spec fn spec_encode_slash_starts_with(rel: Seq<char>, url: Seq<char>) -> bool {
    seq_starts_with(spec_ready_url(rel, "/"@), spec_ready_url(url, "/"@))
}

/// HTML encode then compare url with relative path.
pub fn encode_slash_starts_with(rel: &str, url: &str) -> (r: bool)
    ensures
        r == spec_encode_slash_starts_with(rel@, url@),
{
    proof {
        reveal_strlit("/");
    }
    let rv = chars_of(rel);
    let uv = chars_of(url);
    let slash = chars_of("/");
    let a = ready_url_for_checking(&uv, &slash);
    let b = ready_url_for_checking(&rv, &slash);
    starts_with_chars(&b, &a)
}

/// The path components joined back with slashes.
pub open spec fn spec_join_slash(ps: Seq<Seq<char>>) -> Seq<char>
    decreases ps.len(),
{
    if ps.len() == 0 {
        Seq::<char>::empty()
    } else if ps.len() == 1 {
        ps[0]
    } else {
        ps[0] + "/"@ + spec_join_slash(ps.skip(1))
    }
}

#[verifier::loop_isolation(false)]
pub fn join_slash(parts: &Vec<Vec<char>>) -> (r: Vec<char>)
    ensures
        r@ == spec_join_slash(parts.deep_view()),
{
    proof {
        reveal_strlit("/");
    }
    let n = parts.len();
    let mut out: Vec<char> = Vec::new();
    if n == 0 {
        assert(out@ =~= spec_join_slash(parts.deep_view()));
        return out;
    }
    let mut i: usize = 0;
    proof {
        assert(parts.deep_view().skip(0) =~~= parts.deep_view());
        assert(out@ =~= Seq::<char>::empty());
        assert(Seq::<char>::empty() + spec_join_slash(parts.deep_view()) =~= spec_join_slash(
            parts.deep_view(),
        ));
    }
    while i < n
        invariant
            n == parts.deep_view().len(),
            1 <= n,
            0 <= i <= n,
            spec_join_slash(parts.deep_view()) == out@ + spec_join_slash(
                parts.deep_view().skip(i as int),
            ) || (i == n && spec_join_slash(parts.deep_view()) == out@),
        decreases n - i,
    {
        let ghost pre = out@;
        push_all(&mut out, &parts[i]);
        if i + 1 < n {
            push_lit(&mut out, "/");
            proof {
                let d = parts.deep_view();
                assert(d.skip(i as int)[0] == d[i as int]);
                assert(d.skip(i as int).len() >= 2);
                assert(d.skip(i as int).skip(1) =~~= d.skip(i + 1));
                assert(out@ =~= pre + d[i as int] + "/"@);
            }
        } else {
            proof {
                let d = parts.deep_view();
                assert(d.skip(i as int)[0] == d[i as int]);
                assert(d.skip(i as int).len() == 1);
                assert(out@ =~= pre + d[i as int]);
            }
        }
        i = i + 1;
    }
    out
}

/// Whether the base, with extra path markers dropped and its pagination
/// query stripped, is a prefix of the link treated the same way: the link
/// then lies under the base directory.
pub open spec fn spec_sub_dir_check(x: Seq<char>, url: Seq<char>) -> bool {
    let a = spec_ready_url(x, "%2F"@);
    let b = spec_ready_url(url, "%2F"@);
    if seq_starts_with(a, b) {
        true
    } else {
        let rel = crate::od::olaindex::spec_split_slash(a);
        if rel.len() < 4 {
            false
        } else {
            let rel2 = if crate::od::olaindex::spec_has_extra_paths(rel, true) {
                rel.remove(3)
            } else {
                rel
            };
            let urlp = crate::od::olaindex::spec_split_slash(b);
            let urlp2 = if crate::od::olaindex::spec_has_extra_paths(urlp, true) {
                urlp.remove(3)
            } else {
                urlp
            };
            seq_starts_with(
                spec_join_slash(rel2),
                spec_strip_page_query(spec_join_slash(urlp2)),
            )
        }
    }
}

/// Check if url is the parent directory of the href link.
pub fn sub_dir_check(x: &str, url: &str) -> (r: bool)
    ensures
        r == spec_sub_dir_check(x@, url@),
{
    proof {
        reveal_strlit("%2F");
    }
    let xv = chars_of(x);
    let uv = chars_of(url);
    let enc = chars_of("%2F");
    let a = ready_url_for_checking(&xv, &enc);
    let b = ready_url_for_checking(&uv, &enc);
    if starts_with_chars(&a, &b) {
        return true;
    }
    let mut rel = crate::od::olaindex::split_slash(&a);
    if rel.len() < 4 {
        return false;
    }
    let mut urlp = crate::od::olaindex::split_slash(&b);
    crate::od::olaindex::OLAINDEX::remove_extra_paths(
        &mut rel,
        &crate::od::olaindex::OlaindexExtras::All,
    );
    crate::od::olaindex::OLAINDEX::remove_extra_paths(
        &mut urlp,
        &crate::od::olaindex::OlaindexExtras::All,
    );
    let new_url = join_slash(&urlp);
    let stripped = strip_page_query_chars(&new_url);
    let joined_rel = join_slash(&rel);
    starts_with_chars(&joined_rel, &stripped)
}

/// The link with its trailing `?page=N` query removed.
pub fn strip_page_query_chars(v: &Vec<char>) -> (r: Vec<char>)
    ensures
        r@ == spec_strip_page_query(v@),
{
    if has_page_query_chars(v) {
        let (k, _) = trailing_digits(v);
        subvec(v, 0, v.len() - k - 6)
    } else {
        copy_chars(v)
    }
}

} // verus!

verus! {

// ---------------------------------------------------------------------------
// Navigator-query checks against the base URL
// ---------------------------------------------------------------------------

/// The relative link names the base's `dir=` query, percent-encoded when
/// the base's query ends in a slash, without merely repeating it.
pub open spec fn spec_check_dir_query(url: Seq<char>, rel: Seq<char>) -> bool {
    if rel.len() == 0 {
        false
    } else {
        let query = match spec_split_url(url) {
            Some(p) => match p.query {
                Some(q) => q,
                None => Seq::<char>::empty(),
            },
            None => Seq::<char>::empty(),
        };
        let rel1 = rel.skip(1);
        if spec_split_url(url) is None {
            false
        } else if query.len() > 0 && query.last() == '/' {
            let qe = spec_replace_all(query, "/"@, "%2F"@);
            seq_contains(rel1, qe) && rel1 != query && spec_has_dir_queries(rel)
        } else {
            seq_contains(rel1, query) && rel1 != query && spec_has_dir_queries(rel)
        }
    }
}

/// Checks if the directory query from the URL, `?dir=`, matches the
/// relative URL.
pub fn check_dir_query(url: &str, rel: &str) -> (r: bool)
    ensures
        r == spec_check_dir_query(url@, rel@),
{
    proof {
        reveal_strlit("/");
        reveal_strlit("%2F");
    }
    let rv = chars_of(rel);
    if rv.len() == 0 {
        return false;
    }
    let uv = chars_of(url);
    let p = match split_url(&uv) {
        Some(p) => p,
        None => {
            return false;
        },
    };
    let query: Vec<char> = match &p.query {
        Some(q) => copy_chars(q),
        None => Vec::new(),
    };
    proof {
        assert(query@ == (match spec_split_url(url@)->Some_0.query {
            Some(q) => q,
            None => Seq::<char>::empty(),
        }));
    }
    let rel1 = subvec(&rv, 1, rv.len());
    assert(rel1@ =~= rv@.skip(1));
    let hd = contains_lit(&rv, "?dir=");
    if query.len() > 0 && query[query.len() - 1] == '/' {
        let slash = chars_of("/");
        let enc = chars_of("%2F");
        let qe = replace_all(&query, &slash, &enc);
        let c = contains_chars(&rel1, &qe);
        let ne = !eq_chars(&rel1, &query);
        c && ne && hd
    } else {
        let c = contains_chars(&rel1, &query);
        let ne = !eq_chars(&rel1, &query);
        c && ne && hd
    }
}

/// The relative link resolves to the base itself: following it would
/// only revisit the page.
pub open spec fn spec_is_rel_url(url: Seq<char>, rel: Seq<char>) -> bool {
    if !seq_starts_with(rel, "/"@) {
        url == rel
    } else if seq_ends_with(url, "/"@) {
        spec_url_joiner(url, rel) == Some(url.drop_last())
    } else {
        spec_url_joiner(url, rel) == Some(url)
    }
}

/// Check if URL is the same as relative path in order to prevent
/// traversing the home directory twice.
pub fn is_rel_url(url: &str, rel: &str) -> (r: bool)
    ensures
        r == spec_is_rel_url(url@, rel@),
{
    proof {
        reveal_strlit("/");
    }
    let uv = chars_of(url);
    let rv = chars_of(rel);
    if !starts_with_lit(&rv, "/") {
        return eq_chars(&uv, &rv);
    }
    let joined = url_joiner_chars(&uv, &rv);
    if ends_with_lit(&uv, "/") {
        let trimmed = subvec(&uv, 0, uv.len() - 1);
        assert(trimmed@ =~= uv@.drop_last());
        match joined {
            Some(j) => eq_chars(&trimmed, &j),
            None => false,
        }
    } else {
        match joined {
            Some(j) => eq_chars(&uv, &j),
            None => false,
        }
    }
}

} // verus!

verus! {

// ---------------------------------------------------------------------------
// Laws of the canonicalizer
// ---------------------------------------------------------------------------

/// How the orchestrator joins a discovered link onto its base: an already
/// absolute link is kept as it stands, anything else goes through the
/// resolution cascade.
pub open spec fn spec_join(url: Seq<char>, rel: Seq<char>) -> Option<Seq<char>> {
    if spec_is_http(rel) {
        Some(rel)
    } else {
        spec_url_joiner(url, rel)
    }
}

/// Joins a discovered link onto its base URL.
pub fn join(url: &str, rel: &str) -> (r: Option<String>)
    ensures
        match r {
            Some(s) => spec_join(url@, rel@) == Some(s@),
            None => spec_join(url@, rel@) is None,
        },
{
    if is_http(rel) {
        let v = chars_of(rel);
        Some(string_of(&v))
    } else {
        url_joiner(url, rel)
    }
}

/// Joining is idempotent for already-absolute links: whatever the base,
/// an absolute link joins to itself, at the cascade itself and at the
/// orchestrator's entry alike.
pub proof fn lemma_join_absolute(url: Seq<char>, rel: Seq<char>)
    requires
        spec_is_http(rel),
    ensures
        spec_url_joiner(url, rel) == Some(rel),
        spec_join(url, rel) == Some(rel),
{
}

/// Sanitizing is idempotent: the result is a fixed point of the
/// sanitizing pass, so sanitizing it again changes nothing.
pub proof fn lemma_sanitize_idempotent(u: Seq<char>)
    ensures
        spec_sanitize_url(spec_sanitize_url(u)) == spec_sanitize_url(u),
{
    let r = spec_sanitize_url(u);
    lemma_sanitize_fixpoint(u);
    assert(spec_sanitize_pass(r) == r);
}

/// Sanitizing removes exactly one trailing `?preview` marker, all other
/// bytes unchanged, whenever what precedes the marker carries no
/// further marker of its own (is itself a fixed point of the pass).
pub proof fn lemma_sanitize_preview(u: Seq<char>)
    requires
        seq_ends_with(u, "?preview"@),
        spec_sanitize_pass(u.take(u.len() - 8)) == u.take(u.len() - 8),
    ensures
        spec_sanitize_url(u) == u.take(u.len() - 8),
{
    reveal_strlit("?preview");
    reveal_strlit("&download=1");
    reveal_strlit("?hash=");
    let l = u.len() as int;
    let t = u.take(l - 8);
    assert(u.subrange(l - 8, l) == "?preview"@);
    assert(u[l - 1] == 'w') by {
        assert(u.subrange(l - 8, l)[7] == u[l - 1]);
    }
    assert(!crate::od::olaindex::hash_dl_tail(u)) by {
        if crate::od::olaindex::hash_dl_tail(u) {
            assert(u.subrange(l - 11, l) == "&download=1"@);
            assert(u.subrange(l - 11, l)[10] == u[l - 1]);
        }
    }
    assert(!crate::od::olaindex::hash_tail_at(u, 1)) by {
        if crate::od::olaindex::hash_tail_at(u, 1) {
            assert(u[l - 1] == '/');
        }
    }
    assert(!crate::od::olaindex::hash_tail_at(u, 0)) by {
        if crate::od::olaindex::hash_tail_at(u, 0) {
            assert(u[l - 8] == '?') by {
                assert(u.subrange(l - 8, l)[0] == u[l - 8]);
            }
            assert(is_alnum_char(u[l - 8]));
        }
    }
    assert(crate::od::olaindex::spec_strip_hash_query(u) == u);
    assert(spec_remove_preview_query(u) == t);
    // the remainder is a fixed point, so every stage of the pass leaves
    // it alone
    let h2 = crate::od::olaindex::spec_strip_hash_query(t);
    let p2 = spec_remove_preview_query(h2);
    let sp2 = spec_remove_space_entity(p2);
    let c2 = spec_collapse_dup_slashes(sp2);
    assert(h2.len() <= t.len() && (h2.len() == t.len() ==> h2 == t)) by {
        reveal_strlit("?hash=");
        reveal_strlit("&download=1");
    }
    assert(p2.len() <= h2.len() && (p2.len() == h2.len() ==> p2 == h2)) by {
        reveal_strlit("?preview");
    }
    assert(sp2.len() <= p2.len() && (sp2.len() == p2.len() ==> sp2 == p2)) by {
        reveal_strlit("%20");
    }
    lemma_collapse_dup_shrinks(sp2);
    lemma_removes_single_shrinks(c2);
    assert(h2 == t && p2 == t && sp2 == t && c2 == t);
    assert(spec_remove_space_entity(t) == t);
    assert(spec_collapse_dup_slashes(t) == t);
    assert(spec_removes_single_path(t) == t);
    assert(spec_sanitize_pass(u) == t);
    assert(t.len() < u.len());
    assert(spec_sanitize_url(u) == spec_sanitize_url(t));
    lemma_sanitize_pass_shrinks(t);
    assert(spec_sanitize_url(t) == t);
}

/// A URL that ends in a slash is never file-like: neither a direct
/// file link nor a bare file-extension tail.
pub proof fn lemma_trailing_slash_not_file(u: Seq<char>)
    requires
        u.len() > 0,
        u.last() == '/',
    ensures
        !spec_is_uri(u),
        !spec_is_file_ext(u),
{
    assert forall|k: int| 2 <= k <= 7 implies !ext_ok_at(u, k) by {
        if ext_ok_at(u, k) {
            let tail = u.subrange(u.len() - k, u.len() as int);
            assert(tail[k - 1] == u[u.len() - 1]);
            assert(!is_alnum_char('/') && !is_letter_char('/'));
        }
    }
}

} // verus!

verus! {

/// Start of the run of letters ending at `i`.
pub open spec fn letter_run_start(t: Seq<char>, i: int) -> int
    recommends
        0 <= i <= t.len(),
    decreases i,
{
    if i <= 0 {
        0
    } else if 0 < i <= t.len() && is_letter_char(t[i - 1]) {
        letter_run_start(t, i - 1)
    } else {
        i
    }
}

pub fn letter_run_start_exec(v: &Vec<char>, i: usize) -> (r: usize)
    requires
        i <= v@.len(),
    ensures
        r == letter_run_start(v@, i as int),
        r <= i,
{
    let mut j: usize = i;
    while j > 0 && letter_char(v[j - 1])
        invariant
            i <= v@.len(),
            0 <= j <= i,
            letter_run_start(v@, i as int) == letter_run_start(v@, j as int),
        decreases j,
    {
        j = j - 1;
    }
    j
}

/// Start of the run of alphanumerics ending at `i`.
pub open spec fn alnum_run_start(t: Seq<char>, i: int) -> int
    recommends
        0 <= i <= t.len(),
    decreases i,
{
    if i <= 0 {
        0
    } else if 0 < i <= t.len() && is_alnum_char(t[i - 1]) {
        alnum_run_start(t, i - 1)
    } else {
        i
    }
}

pub fn alnum_run_start_exec(v: &Vec<char>, i: usize) -> (r: usize)
    requires
        i <= v@.len(),
    ensures
        r == alnum_run_start(v@, i as int),
        r <= i,
{
    let mut j: usize = i;
    while j > 0 && alnum_char(v[j - 1])
        invariant
            i <= v@.len(),
            0 <= j <= i,
            alnum_run_start(v@, i as int) == alnum_run_start(v@, j as int),
        decreases j,
    {
        j = j - 1;
    }
    j
}

/// End of the run of alphanumerics starting at `j`.
pub open spec fn alnum_run_end(s: Seq<char>, j: int) -> int
    recommends
        0 <= j <= s.len(),
    decreases s.len() - j,
{
    if 0 <= j < s.len() && is_alnum_char(s[j]) {
        alnum_run_end(s, j + 1)
    } else {
        j
    }
}

pub fn alnum_run_end_exec(v: &Vec<char>, j: usize) -> (r: usize)
    requires
        j <= v@.len(),
    ensures
        r == alnum_run_end(v@, j as int),
        j <= r <= v@.len(),
{
    let n = v.len();
    let mut i: usize = j;
    while i < n && alnum_char(v[i])
        invariant
            n == v@.len(),
            j <= i <= n,
            alnum_run_end(v@, j as int) == alnum_run_end(v@, i as int),
        decreases n - i,
    {
        i = i + 1;
    }
    i
}

} // verus!

verus! {

/// End of the run of word characters starting at `j`.
pub open spec fn word_run_end(s: Seq<char>, j: int) -> int
    recommends
        0 <= j <= s.len(),
    decreases s.len() - j,
{
    if 0 <= j < s.len() && is_word_char(s[j]) {
        word_run_end(s, j + 1)
    } else {
        j
    }
}

pub fn word_run_end_exec(v: &Vec<char>, j: usize) -> (r: usize)
    requires
        j <= v@.len(),
    ensures
        r == word_run_end(v@, j as int),
        j <= r <= v@.len(),
{
    let n = v.len();
    let mut i: usize = j;
    while i < n && word_char(v[i])
        invariant
            n == v@.len(),
            j <= i <= n,
            word_run_end(v@, j as int) == word_run_end(v@, i as int),
        decreases n - i,
    {
        i = i + 1;
    }
    i
}

/// The largest index holding `c`, or -1 when none does.
pub open spec fn last_index_of(s: Seq<char>, c: char) -> int
    decreases s.len(),
{
    if s.len() == 0 {
        -1
    } else if s.last() == c {
        s.len() - 1
    } else {
        last_index_of(s.drop_last(), c)
    }
}

#[verifier::loop_isolation(false)]
pub fn last_index_of_exec(v: &Vec<char>, c: char) -> (r: Option<usize>)
    ensures
        match r {
            Some(i) => last_index_of(v@, c) == i as int && i < v@.len() && v@[i as int] == c,
            None => last_index_of(v@, c) == -1,
        },
{
    let mut i: usize = v.len();
    assert(v@.take(v@.len() as int) =~= v@);
    while i > 0
        invariant
            0 <= i <= v@.len(),
            last_index_of(v@, c) == last_index_of(v@.take(i as int), c),
        decreases i,
    {
        proof {
            assert(v@.take(i as int).last() == v@[i - 1]);
            assert(v@.take(i as int).drop_last() =~= v@.take(i - 1));
        }
        if v[i - 1] == c {
            return Some(i - 1);
        }
        i = i - 1;
    }
    assert(v@.take(0) =~= Seq::<char>::empty());
    None
}

} // verus!

