//! Path compatibility across operating systems: separator detection and
//! correction of mixed or doubled separators.

use vstd::prelude::*;
use crate::text::{chars_of, string_of, seq_starts_with, starts_with_lit};
use crate::parser::copy_chars;

verus! {

/// Relies on `std::path::MAIN_SEPARATOR`: whether this machine separates
/// paths with backslashes. The answer depends on the machine, so nothing
/// more is promised of it.
#[verifier::external_body]
pub fn is_windows() -> (r: bool) {
    std::path::MAIN_SEPARATOR != '/'
}

/// Get the line ending this machine's records use.
pub fn get_line_separator() -> (r: String)
    ensures
        r@ == "\r\n"@ || r@ == "\n"@,
{
    if is_windows() {
        String::from_str("\r\n")
    } else {
        String::from_str("\n")
    }
}

/// The path holds a separator foreign to Unix: a doubled slash or any
/// backslash.
pub open spec fn spec_has_non_unix_separators(s: Seq<char>) -> bool {
    crate::text::seq_contains(s, "//"@) || (exists|i: int| 0 <= i < s.len() && s[i] == '\\')
}

/// Checks the path for separators foreign to Unix.
pub fn has_non_unix_separators(path: &str) -> (r: bool)
    ensures
        r == spec_has_non_unix_separators(path@),
{
    let v = chars_of(path);
    if crate::text::contains_lit(&v, "//") {
        return true;
    }
    let n = v.len();
    let mut i: usize = 0;
    while i < n
        invariant
            n == v@.len(),
            v@ == path@,
            0 <= i <= n,
            forall|j: int| 0 <= j < i ==> v@[j] != '\\',
        decreases n - i,
    {
        if v[i] == '\\' {
            return true;
        }
        i = i + 1;
    }
    false
}

/// The path holds a separator foreign to Windows: a doubled backslash or
/// any slash.
pub open spec fn spec_has_non_windows_separators(s: Seq<char>) -> bool {
    crate::text::seq_contains(s, "\\\\"@) || (exists|i: int| 0 <= i < s.len() && s[i] == '/')
}

/// Checks the path for separators foreign to Windows.
pub fn has_non_windows_separators(path: &str) -> (r: bool)
    ensures
        r == spec_has_non_windows_separators(path@),
{
    let v = chars_of(path);
    if crate::text::contains_lit(&v, "\\\\") {
        return true;
    }
    let n = v.len();
    let mut i: usize = 0;
    while i < n
        invariant
            n == v@.len(),
            v@ == path@,
            0 <= i <= n,
            forall|j: int| 0 <= j < i ==> v@[j] != '/',
        decreases n - i,
    {
        if v[i] == '/' {
            return true;
        }
        i = i + 1;
    }
    false
}

/// One scan step of separator correction. `same` is the machine's own
/// separator, `other` the foreign one; `prev` names the separator whose
/// run the scan stands inside, already paid for. A foreign run of any
/// length and a run of two or more own separators each become one own
/// separator; a lone own separator stands.
pub open spec fn csep(s: Seq<char>, same: char, other: char, prev: Option<char>) -> Seq<char>
    decreases s.len(),
{
    if s.len() == 0 {
        s
    } else {
        let c = s[0];
        if c == same || c == other {
            if prev == Some(c) {
                csep(s.skip(1), same, other, Some(c))
            } else if c == other {
                seq![same] + csep(s.skip(1), same, other, Some(other))
            } else if s.len() > 1 && s[1] == c {
                seq![same] + csep(s.skip(1), same, other, Some(c))
            } else {
                seq![c] + csep(s.skip(1), same, other, None)
            }
        } else {
            seq![c] + csep(s.skip(1), same, other, None)
        }
    }
}

/// Collapses foreign separator runs, and doubled own separators, to the
/// machine's own separator.
#[verifier::loop_isolation(false)]
fn correct_separators(v: &Vec<char>, same: char, other: char) -> (r: Vec<char>)
    requires
        same != other,
    ensures
        r@ == csep(v@, same, other, None),
{
    let n = v.len();
    let mut out: Vec<char> = Vec::new();
    let mut prev: Option<char> = None;
    let mut i: usize = 0;
    proof {
        assert(v@.skip(0) =~= v@);
    }
    while i < n
        invariant
            0 <= i <= n,
            csep(v@, same, other, None) == out@ + csep(v@.skip(i as int), same, other, prev),
        decreases n - i,
    {
        let ghost pre = out@;
        let c = v[i];
        proof {
            assert(v@.skip(i as int)[0] == v@[i as int]);
            if i + 1 < n {
                assert(v@.skip(i as int)[1] == v@[i + 1]);
            }
            assert(v@.skip(i as int).skip(1) =~= v@.skip(i + 1));
        }
        if c == same || c == other {
            let in_run = match prev {
                Some(p) => p == c,
                None => false,
            };
            if in_run {
                // swallowed into the run already paid for
            } else if c == other {
                out.push(same);
                assert(out@ =~= pre + seq![same]);
                prev = Some(other);
            } else if i + 1 < n && v[i + 1] == c {
                out.push(same);
                assert(out@ =~= pre + seq![same]);
                prev = Some(c);
            } else {
                out.push(c);
                assert(out@ =~= pre + seq![c]);
                prev = None;
            }
        } else {
            out.push(c);
            assert(out@ =~= pre + seq![v@[i as int]]);
            prev = None;
        }
        i = i + 1;
    }
    proof {
        assert(v@.skip(n as int) =~= Seq::<char>::empty());
        assert(out@ =~= out@ + csep(v@.skip(n as int), same, other, prev));
    }
    out
}

/// What correction yields on the part of a path after any `./` lead:
/// on Windows every separator run becomes one backslash; on Unix the
/// same happens with slashes, and only when some foreign separator
/// occurs at all.
pub open spec fn spec_correct_tail(s: Seq<char>, windows: bool) -> Seq<char> {
    if windows {
        csep(s, '\\', '/', None)
    } else if spec_has_non_unix_separators(s) {
        csep(s, '/', '\\', None)
    } else {
        s
    }
}

/// What path correction yields on each kind of machine: a leading `./`
/// stands and the rest is corrected.
pub open spec fn spec_correct_os_path(s: Seq<char>, windows: bool) -> Seq<char> {
    if seq_starts_with(s, "./"@) {
        "./"@ + spec_correct_tail(s.skip(2), windows)
    } else {
        spec_correct_tail(s, windows)
    }
}

/// Corrects the separators of a path for the given kind of machine.
pub fn correct_path_for(path: &str, windows: bool) -> (r: String)
    ensures
        r@ == spec_correct_os_path(path@, windows),
{
    proof {
        reveal_strlit("./");
    }
    let v = chars_of(path);
    if starts_with_lit(&v, "./") {
        let tail = crate::text::subvec(&v, 2, v.len());
        assert(tail@ =~= v@.skip(2));
        let corrected = correct_tail(&tail, windows);
        let mut out = chars_of("./");
        crate::text::push_all(&mut out, &corrected);
        return string_of(&out);
    }
    string_of(&correct_tail(&v, windows))
}

/// Corrects the separators of a path that carries no `./` lead.
fn correct_tail(v: &Vec<char>, windows: bool) -> (r: Vec<char>)
    ensures
        r@ == spec_correct_tail(v@, windows),
{
    if windows {
        correct_separators(v, '\\', '/')
    } else if has_non_unix_separators_chars(v) {
        correct_separators(v, '/', '\\')
    } else {
        copy_chars(v)
    }
}

/// Checks a character vector for separators foreign to Unix.
fn has_non_unix_separators_chars(v: &Vec<char>) -> (r: bool)
    ensures
        r == spec_has_non_unix_separators(v@),
{
    if crate::text::contains_lit(v, "//") {
        return true;
    }
    let n = v.len();
    let mut i: usize = 0;
    while i < n
        invariant
            n == v@.len(),
            0 <= i <= n,
            forall|j: int| 0 <= j < i ==> v@[j] != '\\',
        decreases n - i,
    {
        if v[i] == '\\' {
            return true;
        }
        i = i + 1;
    }
    false
}

/// Corrects file paths for the machine this runs on.
pub fn correct_os_path(path: &str) -> (r: String)
    ensures
        r@ == spec_correct_os_path(path@, true) || r@ == spec_correct_os_path(path@, false),
{
    let windows = is_windows();
    correct_path_for(path, windows)
}

} // verus!
