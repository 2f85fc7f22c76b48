//! What the recorder computes: the record lines for the collected pages,
//! the tallies over their files, and the names of the files it writes.

use vstd::prelude::*;
use crate::text::{chars_of, string_of, push_all, push_lit, subvec, seq_ends_with};
use crate::parser::{last_index_of, last_index_of_exec, copy_chars};
use crate::asset::{File, Page, Stat};

verus! {

/// The decimal digits of a number.
pub open spec fn spec_decimal(n: int) -> Seq<char>
    decreases n,
{
    if n <= 0 {
        Seq::<char>::empty()
    } else {
        spec_decimal(n / 10).push((48 + n % 10) as u8 as char)
    }
}

/// Writes a number in decimal.
#[verifier::loop_isolation(false)]
pub fn decimal_chars(n: usize) -> (r: Vec<char>)
    ensures
        n == 0 ==> r@ == seq!['0'],
        n > 0 ==> r@ == spec_decimal(n as int),
{
    if n == 0 {
        let mut r: Vec<char> = Vec::new();
        r.push('0');
        assert(r@ =~= seq!['0']);
        return r;
    }
    let mut rev: Vec<char> = Vec::new();
    let mut m = n;
    while m > 0
        invariant
            0 <= m <= n,
            spec_decimal(n as int) == spec_decimal(m as int) + rev@.reverse(),
        decreases m,
    {
        let d = m % 10;
        let c = (48 + d as u8) as char;
        let ghost rev0 = rev@;
        rev.push(c);
        proof {
            assert(rev@.reverse() =~= seq![c] + rev0.reverse());
            assert(spec_decimal(m as int) =~= spec_decimal(m as int / 10).push(c));
            assert(spec_decimal(m as int / 10) + (seq![c] + rev0.reverse()) =~= (spec_decimal(
                m as int / 10,
            ).push(c)) + rev0.reverse());
        }
        m = m / 10;
    }
    proof {
        assert(spec_decimal(0) + rev@.reverse() =~= rev@.reverse());
    }
    let len = rev.len();
    let mut out: Vec<char> = Vec::new();
    let mut i: usize = len;
    while i > 0
        invariant
            0 <= i <= len,
            len == rev@.len(),
            out@ =~= rev@.reverse().take(len - i),
        decreases i,
    {
        let ghost out0 = out@;
        out.push(rev[i - 1]);
        proof {
            assert(rev@.reverse()[len - i] == rev@[i - 1]);
            assert(rev@.reverse().take(len - i + 1) =~= rev@.reverse().take(len - i).push(
                rev@[i - 1],
            ));
            assert(out@ =~= out0.push(rev@[i - 1]));
        }
        i = i - 1;
    }
    proof {
        assert(rev@.reverse().take(len as int) =~= rev@.reverse());
    }
    out
}

/// The last path component: what follows the final slash or backslash.
pub open spec fn spec_base_name(s: Seq<char>) -> Seq<char> {
    let a = last_index_of(s, '/');
    let b = last_index_of(s, '\\');
    let cut = if a >= b {
        a
    } else {
        b
    };
    if cut >= 0 {
        s.skip(cut + 1)
    } else {
        s
    }
}

fn base_name(v: &Vec<char>) -> (r: Vec<char>)
    ensures
        r@ == spec_base_name(v@),
{
    let n = v.len();
    let a = last_index_of_exec(v, '/');
    let b = last_index_of_exec(v, '\\');
    let cut: Option<usize> = match (a, b) {
        (Some(x), Some(y)) => Some(
            if x >= y {
                x
            } else {
                y
            },
        ),
        (Some(x), None) => Some(x),
        (None, Some(y)) => Some(y),
        (None, None) => None,
    };
    match cut {
        Some(c) => {
            let r = subvec(v, c + 1, n);
            assert(r@ =~= v@.skip(c + 1));
            r
        },
        None => copy_chars(v),
    }
}

/// The names a record run writes to: the stats name (the record file's
/// base name turned into a file record's json name) and the record file
/// itself, prefixed by the run's number.
pub fn file_properties(output_record: &str, recorder_id: usize) -> (r: (String, String))
    ensures
        seq_ends_with(r.0@, ".json"@),
        r.1@ == (if recorder_id == 0 {
            seq!['0']
        } else {
            spec_decimal(recorder_id as int)
        }) + "_"@ + spec_base_name(output_record@),
{
    let ov = chars_of(output_record);
    let base = base_name(&ov);
    let base_s = string_of(&base);
    let mut link = chars_of("https://example.co/");
    push_all(&mut link, &base);
    let link_s = string_of(&link);
    let f = File::new(link_s.as_str());
    let json_name = f.to_json();
    proof {
        reveal_strlit(".json");
        let jv = json_name@;
        assert(jv.len() >= 5);
        assert(jv.subrange(jv.len() - 5, jv.len() as int) =~= ".json"@);
    }
    let mut path = decimal_chars(recorder_id);
    push_lit(&mut path, "_");
    push_all(&mut path, &base);
    (json_name, string_of(&path))
}

/// The lines a record run writes: each file's link, with the line
/// separator appended, page by page in visitation order.
pub open spec fn spec_record_lines(pages: Seq<Page>, sep: Seq<char>) -> Seq<Seq<char>>
    decreases pages.len(),
{
    if pages.len() == 0 {
        Seq::<Seq<char>>::empty()
    } else {
        pages[0].files@.map_values(|f: File| f.link@ + sep) + spec_record_lines(
            pages.skip(1),
            sep,
        )
    }
}

/// Writes the record lines for the collected pages.
#[verifier::loop_isolation(false)]
pub fn record_lines(pages: &Vec<Page>, sep: &str) -> (r: Vec<String>)
    ensures
        r.deep_view() == spec_record_lines(pages@, sep@),
{
    let n = pages.len();
    let mut out: Vec<String> = Vec::new();
    let mut i: usize = 0;
    proof {
        assert(pages@.skip(0) =~= pages@);
        assert(out.deep_view() + spec_record_lines(pages@, sep@) =~~= spec_record_lines(
            pages@,
            sep@,
        ));
    }
    while i < n
        invariant
            0 <= i <= n,
            spec_record_lines(pages@, sep@) =~~= out.deep_view() + spec_record_lines(
                pages@.skip(i as int),
                sep@,
            ),
        decreases n - i,
    {
        let files = &pages[i].files;
        let m = files.len();
        let ghost page_lines = pages@[i as int].files@.map_values(|f: File| f.link@ + sep@);
        let mut j: usize = 0;
        proof {
            assert(spec_record_lines(pages@.skip(i as int), sep@) =~~= page_lines
                + spec_record_lines(pages@.skip(i + 1), sep@)) by {
                assert(pages@.skip(i as int)[0] == pages@[i as int]);
                assert(pages@.skip(i as int).skip(1) =~= pages@.skip(i + 1));
            }
            assert(page_lines.skip(0) =~~= page_lines);
            assert(out.deep_view() + (page_lines + spec_record_lines(pages@.skip(i + 1), sep@))
                =~~= out.deep_view() + page_lines.skip(0) + spec_record_lines(
                pages@.skip(i + 1),
                sep@,
            ));
        }
        while j < m
            invariant
                0 <= j <= m,
                i < n,
                m == pages@[i as int].files@.len(),
                page_lines == pages@[i as int].files@.map_values(|f: File| f.link@ + sep@),
                spec_record_lines(pages@, sep@) =~~= out.deep_view() + page_lines.skip(j as int)
                    + spec_record_lines(pages@.skip(i + 1), sep@),
            decreases m - j,
        {
            let ghost out0 = out.deep_view();
            let mut line = chars_of(files[j].link.as_str());
            push_lit(&mut line, sep);
            out.push(string_of(&line));
            proof {
                assert(out.deep_view() =~~= out0.push(page_lines[j as int]));
                assert(page_lines.skip(j as int) =~~= seq![page_lines[j as int]]
                    + page_lines.skip(j + 1));
                assert(out0 + (seq![page_lines[j as int]] + page_lines.skip(j + 1))
                    + spec_record_lines(pages@.skip(i + 1), sep@) =~~= out.deep_view()
                    + page_lines.skip(j + 1) + spec_record_lines(pages@.skip(i + 1), sep@));
            }
            j = j + 1;
        }
        proof {
            assert(page_lines.skip(m as int) =~~= Seq::<Seq<char>>::empty());
            assert(out.deep_view() + page_lines.skip(m as int) + spec_record_lines(
                pages@.skip(i + 1),
                sep@,
            ) =~~= out.deep_view() + spec_record_lines(pages@.skip(i + 1), sep@));
        }
        i = i + 1;
    }
    proof {
        assert(pages@.skip(n as int) =~= Seq::<Page>::empty());
        assert(out.deep_view() + spec_record_lines(pages@.skip(n as int), sep@) =~~= out.deep_view());
    }
    out
}

/// Tallies the collected pages: every file with an extension counts
/// toward its extension's total, and its name joins the list unless the
/// list is suppressed.
#[verifier::loop_isolation(false)]
pub fn collect_stats(pages: &Vec<Page>, no_stats_list: bool) -> (r: Stat)
    ensures
        r.wf(),
{
    let mut stat = Stat::new();
    let n = pages.len();
    let mut i: usize = 0;
    while i < n
        invariant
            0 <= i <= n,
            stat.wf(),
        decreases n - i,
    {
        let m = pages[i].files.len();
        let mut j: usize = 0;
        while j < m
            invariant
                0 <= j <= m,
                i < n,
                m == pages@[i as int].files@.len(),
                stat.wf(),
            decreases m - j,
        {
            let has_ext = pages[i].files[j].ext.is_some();
            if has_ext {
                let f = &pages[i].files[j];
                if !no_stats_list {
                    stat.add_file(String::from_str(f.name.as_str()));
                }
                match &f.ext {
                    Some(e) => stat.add_extension(String::from_str(e.as_str())),
                    None => {},
                }
            }
            j = j + 1;
        }
        i = i + 1;
    }
    stat
}

} // verus!
