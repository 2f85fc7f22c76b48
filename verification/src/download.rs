//! What the downloader computes: the local save path of a file, from its
//! remote directory path with a chosen number of leading components cut.

use vstd::prelude::*;
use crate::text::{chars_of, string_of, contains_at, seq_starts_with, seq_ends_with, push_all,
    push_lit, starts_with_lit, ends_with_lit};
use crate::parser::{spec_splice, splice, is_sym_char, sym_char, copy_chars,
    lemma_first_occurrence};
use crate::asset::File;
use crate::compat::{correct_os_path, spec_correct_os_path};

verus! {

/// Length of one path component `/<symbols>/` at `i`.
pub open spec fn path_component_len_at(s: Seq<char>, i: int) -> Option<int> {
    if 0 <= i < s.len() && s[i] == '/' && sym_run_end(s, i + 1) > i + 1 && sym_run_end(s, i + 1)
        < s.len() && s[sym_run_end(s, i + 1)] == '/' {
        Some(sym_run_end(s, i + 1) + 1 - i)
    } else {
        None
    }
}

/// End of the run of symbol characters starting at `j`.
pub open spec fn sym_run_end(s: Seq<char>, j: int) -> int
    recommends
        0 <= j <= s.len(),
    decreases s.len() - j,
{
    if 0 <= j < s.len() && is_sym_char(s[j]) {
        sym_run_end(s, j + 1)
    } else {
        j
    }
}

fn sym_run_end_exec(v: &Vec<char>, j: usize) -> (r: usize)
    requires
        j <= v@.len(),
    ensures
        r == sym_run_end(v@, j as int),
        j <= r <= v@.len(),
{
    let n = v.len();
    let mut i: usize = j;
    while i < n && sym_char(v[i])
        invariant
            n == v@.len(),
            j <= i <= n,
            sym_run_end(v@, j as int) == sym_run_end(v@, i as int),
        decreases n - i,
    {
        i = i + 1;
    }
    i
}

/// The path with its first component collapsed to `/`; the path itself
/// when it has no component to cut.
pub open spec fn spec_cut_one(s: Seq<char>) -> Seq<char> {
    if exists|i: int| 0 <= i <= s.len() && path_component_len_at(s, i) is Some {
        let i = choose|i: int|
            0 <= i <= s.len() && path_component_len_at(s, i) is Some && forall|j: int|
                0 <= j < i ==> path_component_len_at(s, j) is None;
        spec_splice(s, i, i + path_component_len_at(s, i)->0, "/"@)
    } else {
        s
    }
}

/// The path after `cuts` leading components are removed.
pub open spec fn spec_cut_dir(s: Seq<char>, cuts: int) -> Seq<char>
    decreases cuts,
{
    if cuts <= 0 {
        s
    } else {
        spec_cut_dir(spec_cut_one(s), cuts - 1)
    }
}

#[verifier::loop_isolation(false)]
fn cut_one(v: &Vec<char>) -> (r: Vec<char>)
    ensures
        r@ == spec_cut_one(v@),
{
    proof {
        reveal_strlit("/");
    }
    let n = v.len();
    let slash = chars_of("/");
    let mut i: usize = 0;
    while i < n
        invariant
            0 <= i <= n,
            forall|j: int| 0 <= j < i ==> path_component_len_at(v@, j) is None,
        decreases n - i,
    {
        let hit = if v[i] == '/' {
            let e = sym_run_end_exec(v, i + 1);
            if e > i + 1 && e < n && v[e] == '/' {
                Some(e + 1 - i)
            } else {
                None
            }
        } else {
            None
        };
        match hit {
            Some(l) => {
                assert(path_component_len_at(v@, i as int) == Some(l as int));
                let out = splice(v, i, i + l, &slash);
                proof {
                    let wi = i as int;
                    let ci = choose|ci: int|
                        0 <= ci <= v@.len() && path_component_len_at(v@, ci) is Some && forall|
                            j: int,
                        | 0 <= j < ci ==> path_component_len_at(v@, j) is None;
                    assert(0 <= wi <= v@.len() && path_component_len_at(v@, wi) is Some && forall|
                        j: int,
                    | 0 <= j < wi ==> path_component_len_at(v@, j) is None);
                    assert(ci == wi) by {
                        if ci < wi {
                            assert(path_component_len_at(v@, ci) is None);
                        }
                        if wi < ci {
                            assert(path_component_len_at(v@, wi) is None);
                        }
                    }
                }
                return out;
            },
            None => {
                assert(path_component_len_at(v@, i as int) is None);
                i = i + 1;
            },
        }
    }
    proof {
        assert(path_component_len_at(v@, n as int) is None);
        assert(forall|j: int| 0 <= j <= v@.len() ==> path_component_len_at(v@, j) is None);
    }
    copy_chars(v)
}

/// Remove the specified number of leading directories from the file's
/// remote directory path.
pub fn cut_dir(file: &File, cuts: u32) -> (r: String)
    ensures
        r@ == spec_cut_dir(file.dir_path@, cuts as int),
{
    let v = chars_of(file.dir_path.as_str());
    let mut cur = copy_chars(&v);
    let mut done: u32 = 0;
    while done < cuts
        invariant
            0 <= done <= cuts,
            spec_cut_dir(file.dir_path@, cuts as int) == spec_cut_dir(
                cur@,
                cuts as int - done as int,
            ),
        decreases cuts - done,
    {
        cur = cut_one(&cur);
        done = done + 1;
    }
    string_of(&cur)
}

/// Joins the save location with the file name, with a separator supplied
/// only when neither side brings one, and the whole corrected for this
/// machine.
pub fn file_path_join(file: &File, save_dir_path: &str) -> (r: String)
    ensures
        ({
            let joined = (if !seq_starts_with(file.name@, "/"@) && !seq_starts_with(
                file.name@,
                "\\"@,
            ) && !seq_ends_with(save_dir_path@, "\\"@) && !seq_ends_with(save_dir_path@, "/"@) {
                save_dir_path@ + "\\"@ + file.name@
            } else {
                save_dir_path@ + file.name@
            });
            r@ == spec_correct_os_path(joined, true) || r@ == spec_correct_os_path(joined, false)
        }),
{
    proof {
        reveal_strlit("/");
        reveal_strlit("\\");
    }
    let nv = chars_of(file.name.as_str());
    let dv = chars_of(save_dir_path);
    let needs_sep = !starts_with_lit(&nv, "/") && !starts_with_lit(&nv, "\\") && !ends_with_lit(
        &dv,
        "\\",
    ) && !ends_with_lit(&dv, "/");
    let mut joined = copy_chars(&dv);
    if needs_sep {
        push_lit(&mut joined, "\\");
    }
    push_all(&mut joined, &nv);
    let joined_s = string_of(&joined);
    correct_os_path(joined_s.as_str())
}

} // verus!
