//! OLAINDEX family: signed hash queries, download queries, and the extra
//! navigation path markers (`/v/`, `/down/`, ...) its links carry.

use vstd::prelude::*;
use crate::text::{chars_of, string_of, contains_at, seq_contains, seq_starts_with, seq_ends_with,
    eq_at, find_first, contains_lit, starts_with_lit, ends_with_lit, subvec, push_all, push_lit,
    is_alnum_char, alnum_char};
use crate::parser::{spec_splice, splice, copy_chars};

verus! {

/// Which extra path markers count: all of them, or all but the home and
/// download markers.
pub enum OlaindexExtras {
    All,
    ExcludeHomeAndDownload,
}

pub struct OLAINDEX;

/// The URL ends in `?download=1`.
pub open spec fn spec_has_dl_query(s: Seq<char>) -> bool {
    seq_ends_with(s, "?download=1"@)
}

/// The URL ends in `?hash=` + 8 alphanumerics, optionally followed by a
/// slash or by `&download=1`.
pub open spec fn spec_hash_query(s: Seq<char>) -> bool {
    hash_tail_at(s, 0) || hash_tail_at(s, 1) || hash_dl_tail(s)
}

/// `?hash=` + 8 alphanumerics ends `extra` characters before the end.
pub open spec fn hash_tail_at(s: Seq<char>, extra: int) -> bool {
    s.len() >= 14 + extra && contains_at(s, "?hash="@, s.len() - 14 - extra) && (forall|j: int|
        s.len() - 8 - extra <= j < s.len() - extra ==> is_alnum_char(s[j])) && (extra == 1 ==> s[
        s.len() - 1] == '/')
}

/// `?hash=` + 8 alphanumerics + `&download=1` ends the URL.
pub open spec fn hash_dl_tail(s: Seq<char>) -> bool {
    s.len() >= 25 && contains_at(s, "?hash="@, s.len() - 25) && (forall|j: int|
        s.len() - 19 <= j < s.len() - 11 ==> is_alnum_char(s[j])) && contains_at(
        s,
        "&download=1"@,
        s.len() - 11,
    )
}

/// The URL with a trailing signed hash query removed; the longest of the
/// three tail shapes wins.
pub open spec fn spec_strip_hash_query(s: Seq<char>) -> Seq<char> {
    if hash_dl_tail(s) {
        s.take(s.len() - 25)
    } else if hash_tail_at(s, 1) {
        s.take(s.len() - 15)
    } else if hash_tail_at(s, 0) {
        s.take(s.len() - 14)
    } else {
        s
    }
}

fn alnum_range(v: &Vec<char>, from: usize, to: usize) -> (r: bool)
    requires
        from <= to <= v@.len(),
    ensures
        r == forall|j: int| from <= j < to ==> is_alnum_char(v@[j]),
{
    let mut i: usize = from;
    while i < to
        invariant
            from <= i <= to <= v@.len(),
            forall|j: int| from <= j < i ==> is_alnum_char(v@[j]),
        decreases to - i,
    {
        if !alnum_char(v[i]) {
            assert(!is_alnum_char(v@[i as int]));
            return false;
        }
        i = i + 1;
    }
    true
}

#[verifier::loop_isolation(false)]
fn hash_tail_at_exec(v: &Vec<char>, extra: usize) -> (r: bool)
    requires
        extra <= 1,
    ensures
        r == hash_tail_at(v@, extra as int),
{
    proof {
        reveal_strlit("?hash=");
        reveal_strlit("/");
    }
    let n = v.len();
    if n < 14 + extra {
        return false;
    }
    let pat = chars_of("?hash=");
    if !eq_at(v, &pat, n - 14 - extra) {
        return false;
    }
    if !alnum_range(v, n - 8 - extra, n - extra) {
        return false;
    }
    if extra == 1 && v[n - 1] != '/' {
        return false;
    }
    true
}

#[verifier::loop_isolation(false)]
fn hash_dl_tail_exec(v: &Vec<char>) -> (r: bool)
    ensures
        r == hash_dl_tail(v@),
{
    proof {
        reveal_strlit("?hash=");
        reveal_strlit("&download=1");
    }
    let n = v.len();
    if n < 25 {
        return false;
    }
    let pat = chars_of("?hash=");
    if !eq_at(v, &pat, n - 25) {
        return false;
    }
    if !alnum_range(v, n - 19, n - 11) {
        return false;
    }
    let dl = chars_of("&download=1");
    eq_at(v, &dl, n - 11)
}

impl OLAINDEX {
    /// Check to see if url has a download query for the OLAINDEX ODs.
    pub fn has_dl_query(x: &str) -> (r: bool)
        ensures
            r == spec_has_dl_query(x@),
    {
        let v = chars_of(x);
        ends_with_lit(&v, "?download=1")
    }

    pub fn has_dl_query_chars(v: &Vec<char>) -> (r: bool)
        ensures
            r == spec_has_dl_query(v@),
    {
        ends_with_lit(v, "?download=1")
    }

    /// Adds a download query to the end of a file url that lacks one.
    pub fn transform_link(x: &str) -> (r: String)
        ensures
            r@ == spec_transform_link(x@),
    {
        let v = chars_of(x);
        string_of(&OLAINDEX::transform_link_chars(&v))
    }

    pub fn transform_link_chars(v: &Vec<char>) -> (r: Vec<char>)
        ensures
            r@ == spec_transform_link(v@),
    {
        if OLAINDEX::has_dl_query_chars(v) {
            copy_chars(v)
        } else {
            let mut out = copy_chars(v);
            push_lit(&mut out, "?download=1");
            out
        }
    }

    /// Adds a download query to a url unconditionally.
    pub fn add_dl_query(x: &String) -> (r: String)
        ensures
            r@ == x@ + "?download=1"@,
    {
        let mut out = chars_of(x.as_str());
        push_lit(&mut out, "?download=1");
        string_of(&out)
    }

    /// Checks for a signed hash query in the URL.
    pub fn hash_query(x: &str) -> (r: bool)
        ensures
            r == spec_hash_query(x@),
    {
        let v = chars_of(x);
        OLAINDEX::hash_query_chars(&v)
    }

    pub fn hash_query_chars(v: &Vec<char>) -> (r: bool)
        ensures
            r == spec_hash_query(v@),
    {
        hash_tail_at_exec(v, 0) || hash_tail_at_exec(v, 1) || hash_dl_tail_exec(v)
    }

    /// Removes a trailing signed hash query.
    pub fn sanitize_url(url: &str) -> (r: String)
        ensures
            r@ == spec_strip_hash_query(url@),
    {
        let v = chars_of(url);
        string_of(&OLAINDEX::sanitize_url_chars(&v))
    }

    pub fn sanitize_url_chars(v: &Vec<char>) -> (r: Vec<char>)
        ensures
            r@ == spec_strip_hash_query(v@),
    {
        let n = v.len();
        if hash_dl_tail_exec(v) {
            subvec(v, 0, n - 25)
        } else if hash_tail_at_exec(v, 1) {
            subvec(v, 0, n - 15)
        } else if hash_tail_at_exec(v, 0) {
            subvec(v, 0, n - 14)
        } else {
            copy_chars(v)
        }
    }

    /// Custom accept/reject patterns for OLAINDEX: the configured pattern,
    /// anchored to the download query the family appends to file links.
    pub fn acc_rej_filters(accept: &Option<String>, reject: &Option<String>) -> (r: (
        Option<String>,
        Option<String>,
    ))
        ensures
            r.0 is Some <==> accept is Some,
            r.1 is Some <==> reject is Some,
            accept is Some ==> r.0->0@ == spec_dl_anchored(accept->0@),
            reject is Some ==> r.1->0@ == spec_dl_anchored(reject->0@),
    {
        let new_accept = match accept {
            Some(a) => Some(dl_anchored(a)),
            None => None,
        };
        let new_reject = match reject {
            Some(a) => Some(dl_anchored(a)),
            None => None,
        };
        (new_accept, new_reject)
    }
}

/// A pattern extended to require the trailing download query.
pub open spec fn spec_dl_anchored(pat: Seq<char>) -> Seq<char> {
    pat + "(\\?download=1$)"@
}

fn dl_anchored(pat: &String) -> (r: String)
    ensures
        r@ == spec_dl_anchored(pat@),
{
    let mut out = chars_of(pat.as_str());
    push_lit(&mut out, "(\\?download=1$)");
    string_of(&out)
}

/// The URL with its download query restored or added.
pub open spec fn spec_transform_link(s: Seq<char>) -> Seq<char> {
    if spec_has_dl_query(s) {
        s
    } else {
        s + "?download=1"@
    }
}

} // verus!

verus! {

// ---------------------------------------------------------------------------
// Extra navigation path markers: /v/, /view/, /d/, /down/, /home/, /s/, /show/
// ---------------------------------------------------------------------------

/// The path components of a link, split on `/`.
pub open spec fn spec_split_slash(s: Seq<char>) -> Seq<Seq<char>>
    decreases s.len(),
{
    let i = crate::parser::find_char2(s, 0, '/', '/');
    if 0 <= i < s.len() {
        seq![s.take(i)] + spec_split_slash(s.skip(i + 1))
    } else {
        seq![s]
    }
}

/// Splits a link on `/`.
#[verifier::loop_isolation(false)]
pub fn split_slash(v: &Vec<char>) -> (r: Vec<Vec<char>>)
    ensures
        r.deep_view() == spec_split_slash(v@),
{
    let mut r: Vec<Vec<char>> = Vec::new();
    let n = v.len();
    let mut start: usize = 0;
    proof {
        assert(v@.skip(0) =~= v@);
        assert(r.deep_view() =~= Seq::<Seq<char>>::empty());
        assert(Seq::<Seq<char>>::empty() + spec_split_slash(v@) =~= spec_split_slash(v@));
    }
    while start < n
        invariant
            n == v@.len(),
            0 <= start <= n,
            spec_split_slash(v@) == r.deep_view() + spec_split_slash(v@.skip(start as int)),
        decreases n - start,
    {
        let ghost pre = r.deep_view();
        let e = crate::parser::find_char2_pub(v, start, '/');
        let seg = subvec(v, start, e);
        r.push(seg);
        proof {
            assert(r.deep_view() =~~= pre.push(seg@));
            let rest = v@.skip(start as int);
            assert(crate::parser::find_char2(rest, 0, '/', '/') == e - start) by {
                crate::parser::lemma_find_char2_skip(v@, start as int, e as int, '/');
            }
            assert(rest.take(e - start) =~= v@.subrange(start as int, e as int));
            assert(seg@ == rest.take(e - start));
            if e < n {
                assert(rest.skip(e - start + 1) =~= v@.skip(e + 1));
            } else {
                assert(e == n);
            }
        }
        if e < n {
            start = e + 1;
        } else {
            return r;
        }
    }
    proof {
        assert(v@.skip(start as int) =~= Seq::<char>::empty());
        assert(spec_split_slash(Seq::<char>::empty()) =~= seq![Seq::<char>::empty()]);
        assert(spec_split_slash(v@) =~= r.deep_view() + seq![Seq::<char>::empty()]);
    }
    let empty: Vec<char> = Vec::new();
    let ghost pre2 = r.deep_view();
    let mut r2 = r;
    r2.push(empty);
    proof {
        assert(r2.deep_view() =~~= pre2.push(Seq::<char>::empty()));
        assert(r2.deep_view() =~= spec_split_slash(v@));
    }
    r2
}

/// The component is one of the markers; the home and download markers
/// count only when `all` is set.
pub open spec fn spec_marker_component(seg: Seq<char>, all: bool) -> bool {
    (seg == "v"@ || seg == "view"@ || seg == "s"@ || seg == "show"@) || (all && (seg == "d"@
        || seg == "down"@ || seg == "home"@))
}

/// The fourth path component of the split link is a navigation marker.
pub open spec fn spec_has_extra_paths(paths: Seq<Seq<char>>, all: bool) -> bool {
    paths.len() > 3 && spec_marker_component(paths[3], all)
}

fn eq_lit(seg: &Vec<char>, lit: &str) -> (r: bool)
    ensures
        r == (seg@ == lit@),
{
    let l = chars_of(lit);
    crate::parser::eq_chars(seg, &l)
}

impl OLAINDEX {
    /// Check if the link's fourth path component is an extra navigation
    /// marker such as `/d/`, `/down/`, `/v/`, `/view/` or `/home/`.
    pub fn has_extra_paths(paths: &Vec<Vec<char>>, extras: &OlaindexExtras) -> (r: bool)
        ensures
            r == spec_has_extra_paths(paths.deep_view(), extras is All),
    {
        if paths.len() <= 3 {
            return false;
        }
        let seg = &paths[3];
        assert(seg@ == paths.deep_view()[3]);
        let common = eq_lit(seg, "v") || eq_lit(seg, "view") || eq_lit(seg, "s") || eq_lit(
            seg,
            "show",
        );
        match extras {
            OlaindexExtras::ExcludeHomeAndDownload => common,
            OlaindexExtras::All => common || eq_lit(seg, "d") || eq_lit(seg, "down") || eq_lit(
                seg,
                "home",
            ),
        }
    }

    /// Removes the marker component from a broken-down link.
    pub fn remove_extra_paths(paths: &mut Vec<Vec<char>>, extras: &OlaindexExtras)
        ensures
            final(paths).deep_view() == (if spec_has_extra_paths(
                old(paths).deep_view(),
                extras is All,
            ) {
                old(paths).deep_view().remove(3)
            } else {
                old(paths).deep_view()
            }),
    {
        if OLAINDEX::has_extra_paths(paths, extras) {
            let _ = paths.remove(3);
            assert(paths.deep_view() =~= old(paths).deep_view().remove(3));
        }
    }
}

// ---------------------------------------------------------------------------
// Removing one marker from a flat link
// ---------------------------------------------------------------------------

/// Length of a separator (`/` or `%2F`) at `i`.
pub open spec fn sep_len_at(s: Seq<char>, i: int) -> Option<int> {
    if contains_at(s, "/"@, i) {
        Some(1int)
    } else if contains_at(s, "%2F"@, i) {
        Some(3int)
    } else {
        None
    }
}

/// Length of a marker word at `i` followed by a separator, first of
/// `v`, `view`, `d`, `down`, `home`, `s`, `show` that fits.
pub open spec fn word_sep_len_at(s: Seq<char>, i: int) -> Option<int> {
    if contains_at(s, "v"@, i) && sep_len_at(s, i + 1) is Some {
        Some(1 + sep_len_at(s, i + 1)->0)
    } else if contains_at(s, "view"@, i) && sep_len_at(s, i + 4) is Some {
        Some(4 + sep_len_at(s, i + 4)->0)
    } else if contains_at(s, "d"@, i) && sep_len_at(s, i + 1) is Some {
        Some(1 + sep_len_at(s, i + 1)->0)
    } else if contains_at(s, "down"@, i) && sep_len_at(s, i + 4) is Some {
        Some(4 + sep_len_at(s, i + 4)->0)
    } else if contains_at(s, "home"@, i) && sep_len_at(s, i + 4) is Some {
        Some(4 + sep_len_at(s, i + 4)->0)
    } else if contains_at(s, "s"@, i) && sep_len_at(s, i + 1) is Some {
        Some(1 + sep_len_at(s, i + 1)->0)
    } else if contains_at(s, "show"@, i) && sep_len_at(s, i + 4) is Some {
        Some(4 + sep_len_at(s, i + 4)->0)
    } else {
        None
    }
}

/// Length of a whole marker (`separator word separator`) at `i`.
pub open spec fn marker_len_at(s: Seq<char>, i: int) -> Option<int> {
    match sep_len_at(s, i) {
        Some(l1) => match word_sep_len_at(s, i + l1) {
            Some(l2) => Some(l1 + l2),
            None => None,
        },
        None => None,
    }
}

/// The first marker replaced by a single slash; the link itself when none
/// occurs.
pub open spec fn spec_remove_path(s: Seq<char>) -> Seq<char> {
    if exists|i: int| 0 <= i <= s.len() && marker_len_at(s, i) is Some {
        let i = choose|i: int|
            0 <= i <= s.len() && marker_len_at(s, i) is Some && forall|j: int|
                0 <= j < i ==> marker_len_at(s, j) is None;
        spec_splice(s, i, i + marker_len_at(s, i)->0, "/"@)
    } else {
        s
    }
}

struct MarkerPats {
    slash: Vec<char>,
    enc: Vec<char>,
    w_v: Vec<char>,
    w_view: Vec<char>,
    w_d: Vec<char>,
    w_down: Vec<char>,
    w_home: Vec<char>,
    w_s: Vec<char>,
    w_show: Vec<char>,
}

impl MarkerPats {
    spec fn wf(&self) -> bool {
        self.slash@ == "/"@ && self.enc@ == "%2F"@ && self.w_v@ == "v"@ && self.w_view@ == "view"@
            && self.w_d@ == "d"@ && self.w_down@ == "down"@ && self.w_home@ == "home"@ && self.w_s@
            == "s"@ && self.w_show@ == "show"@ && self.slash@.len() == 1 && self.enc@.len() == 3
            && self.w_v@.len() == 1 && self.w_view@.len() == 4 && self.w_d@.len() == 1
            && self.w_down@.len() == 4 && self.w_home@.len() == 4 && self.w_s@.len() == 1
            && self.w_show@.len() == 4
    }

    fn new() -> (r: MarkerPats)
        ensures
            r.wf(),
    {
        proof {
            reveal_strlit("/");
            reveal_strlit("%2F");
            reveal_strlit("v");
            reveal_strlit("view");
            reveal_strlit("d");
            reveal_strlit("down");
            reveal_strlit("home");
            reveal_strlit("s");
            reveal_strlit("show");
        }
        MarkerPats {
            slash: chars_of("/"),
            enc: chars_of("%2F"),
            w_v: chars_of("v"),
            w_view: chars_of("view"),
            w_d: chars_of("d"),
            w_down: chars_of("down"),
            w_home: chars_of("home"),
            w_s: chars_of("s"),
            w_show: chars_of("show"),
        }
    }
}

#[verifier::loop_isolation(false)]
fn sep_len_at_exec(v: &Vec<char>, i: usize, pats: &MarkerPats) -> (r: Option<usize>)
    requires
        pats.wf(),
        i <= v@.len(),
    ensures
        match r {
            Some(l) => sep_len_at(v@, i as int) == Some(l as int) && i + l <= v@.len(),
            None => sep_len_at(v@, i as int) is None,
        },
{
    if crate::parser::contains_at_exec(v, &pats.slash, i) {
        Some(1)
    } else if crate::parser::contains_at_exec(v, &pats.enc, i) {
        Some(3)
    } else {
        None
    }
}

#[verifier::loop_isolation(false)]
fn word_sep_len_at_exec(v: &Vec<char>, i: usize, pats: &MarkerPats) -> (r: Option<usize>)
    requires
        pats.wf(),
        i <= v@.len(),
    ensures
        match r {
            Some(l) => word_sep_len_at(v@, i as int) == Some(l as int) && i + l <= v@.len(),
            None => word_sep_len_at(v@, i as int) is None,
        },
{
    let n = v.len();
    if crate::parser::contains_at_exec(v, &pats.w_v, i) && sep_len_at_exec(v, i + 1, pats).is_some()
    {
        let l = sep_len_at_exec(v, i + 1, pats).unwrap();
        return Some(1 + l);
    }
    if crate::parser::contains_at_exec(v, &pats.w_view, i) && sep_len_at_exec(
        v,
        i + 4,
        pats,
    ).is_some() {
        let l = sep_len_at_exec(v, i + 4, pats).unwrap();
        return Some(4 + l);
    }
    if crate::parser::contains_at_exec(v, &pats.w_d, i) && sep_len_at_exec(v, i + 1, pats).is_some()
    {
        let l = sep_len_at_exec(v, i + 1, pats).unwrap();
        return Some(1 + l);
    }
    if crate::parser::contains_at_exec(v, &pats.w_down, i) && sep_len_at_exec(
        v,
        i + 4,
        pats,
    ).is_some() {
        let l = sep_len_at_exec(v, i + 4, pats).unwrap();
        return Some(4 + l);
    }
    if crate::parser::contains_at_exec(v, &pats.w_home, i) && sep_len_at_exec(
        v,
        i + 4,
        pats,
    ).is_some() {
        let l = sep_len_at_exec(v, i + 4, pats).unwrap();
        return Some(4 + l);
    }
    if crate::parser::contains_at_exec(v, &pats.w_s, i) && sep_len_at_exec(v, i + 1, pats).is_some()
    {
        let l = sep_len_at_exec(v, i + 1, pats).unwrap();
        return Some(1 + l);
    }
    if crate::parser::contains_at_exec(v, &pats.w_show, i) && sep_len_at_exec(
        v,
        i + 4,
        pats,
    ).is_some() {
        let l = sep_len_at_exec(v, i + 4, pats).unwrap();
        return Some(4 + l);
    }
    None
}

#[verifier::loop_isolation(false)]
fn marker_len_at_exec(v: &Vec<char>, i: usize, pats: &MarkerPats) -> (r: Option<usize>)
    requires
        pats.wf(),
        i <= v@.len(),
    ensures
        match r {
            Some(l) => marker_len_at(v@, i as int) == Some(l as int) && i + l <= v@.len(),
            None => marker_len_at(v@, i as int) is None,
        },
{
    let n = v.len();
    match sep_len_at_exec(v, i, pats) {
        Some(l1) => match word_sep_len_at_exec(v, i + l1, pats) {
            Some(l2) => Some(l1 + l2),
            None => None,
        },
        None => None,
    }
}

impl OLAINDEX {
    /// Removes the first extra navigation marker from a flat link.
    pub fn remove_path(path: &str) -> (r: String)
        ensures
            r@ == spec_remove_path(path@),
    {
        let v = chars_of(path);
        string_of(&OLAINDEX::remove_path_chars(&v))
    }

    #[verifier::loop_isolation(false)]
    pub fn remove_path_chars(v: &Vec<char>) -> (r: Vec<char>)
        ensures
            r@ == spec_remove_path(v@),
    {
        proof {
            reveal_strlit("/");
        }
        let pats = MarkerPats::new();
        let n = v.len();
        let slash = chars_of("/");
        let mut i: usize = 0;
        while i < n
            invariant
                0 <= i <= n,
                forall|j: int| 0 <= j < i ==> marker_len_at(v@, j) is None,
            decreases n - i,
        {
            match marker_len_at_exec(v, i, &pats) {
                Some(l) => {
                    let out = splice(v, i, i + l, &slash);
                    proof {
                        let wi = i as int;
                        assert(0 <= wi <= v@.len() && marker_len_at(v@, wi) is Some);
                        let ci = choose|ci: int|
                            0 <= ci <= v@.len() && marker_len_at(v@, ci) is Some && forall|j: int|
                                0 <= j < ci ==> marker_len_at(v@, j) is None;
                        assert(0 <= wi <= v@.len() && marker_len_at(v@, wi) is Some && forall|
                            j: int,
                        |
                            0 <= j < wi ==> marker_len_at(v@, j) is None);
                        assert(ci == wi) by {
                            if ci < wi {
                                assert(marker_len_at(v@, ci) is None);
                            }
                            if wi < ci {
                                assert(marker_len_at(v@, wi) is None);
                            }
                        }
                    }
                    return out;
                },
                None => {
                    i = i + 1;
                },
            }
        }
        proof {
            assert(marker_len_at(v@, n as int) is None);
            assert(forall|j: int| 0 <= j <= v@.len() ==> marker_len_at(v@, j) is None);
        }
        copy_chars(v)
    }
}

} // verus!

verus! {

/// A description or keywords meta tag naming OLAINDEX exactly.
pub open spec fn spec_is_od(dv: Seq<crate::dom::HtmlNodeV>) -> bool {
    crate::dom::spec_any_node(
        dv,
        crate::dom::NodeTestV::TagAttrEq("meta"@, "name"@, "description"@),
        Seq::<crate::dom::NodeTestV>::empty(),
        crate::dom::TextTestV::AttrEquals(
            "content"@,
            "OLAINDEX,Another OneDrive Directory Index"@,
        ),
    ) || crate::dom::spec_any_node(
        dv,
        crate::dom::NodeTestV::TagAttrEq("meta"@, "name"@, "keywords"@),
        Seq::<crate::dom::NodeTestV>::empty(),
        crate::dom::TextTestV::AttrEquals(
            "content"@,
            "OLAINDEX,OneDrive,Index,Microsoft OneDrive,Directory Index"@,
        ),
    )
}

impl OLAINDEX {
    /// Used to determine the family from the page itself.
    pub fn is_od_doc(doc: &crate::dom::HtmlDoc) -> (r: bool)
        requires
            doc.wf(),
        ensures
            r == spec_is_od(doc@),
    {
        let none = crate::dom::anc0();
        let desc = crate::dom::NodeTest::TagAttrEq(
            crate::dom::stg("meta"),
            crate::dom::stg("name"),
            crate::dom::stg("description"),
        );
        let desc_content = crate::dom::TextTest::AttrEquals(
            crate::dom::stg("content"),
            crate::dom::stg("OLAINDEX,Another OneDrive Directory Index"),
        );
        if crate::dom::any_node(doc, &desc, &none, &desc_content) {
            return true;
        }
        let kw = crate::dom::NodeTest::TagAttrEq(
            crate::dom::stg("meta"),
            crate::dom::stg("name"),
            crate::dom::stg("keywords"),
        );
        let kw_content = crate::dom::TextTest::AttrEquals(
            crate::dom::stg("content"),
            crate::dom::stg("OLAINDEX,OneDrive,Index,Microsoft OneDrive,Directory Index"),
        );
        crate::dom::any_node(doc, &kw, &none, &kw_content)
    }

    pub fn is_od(res: &str) -> (r: bool)
        ensures
            r == spec_is_od(crate::dom::spec_parse(res@)),
    {
        let doc = crate::dom::parse_document(res);
        OLAINDEX::is_od_doc(&doc)
    }
}

} // verus!

verus! {

impl OLAINDEX {
    /// Whether the link holds an extra navigation marker at all.
    #[verifier::loop_isolation(false)]
    pub fn has_path_marker(path: &str) -> (r: bool)
        ensures
            r == exists|i: int| 0 <= i <= path@.len() && marker_len_at(path@, i) is Some,
    {
        let v = chars_of(path);
        let pats = MarkerPats::new();
        let n = v.len();
        let mut i: usize = 0;
        while i < n
            invariant
                v@ == path@,
                0 <= i <= n,
                forall|j: int| 0 <= j < i ==> marker_len_at(v@, j) is None,
            decreases n - i,
        {
            match marker_len_at_exec(&v, i, &pats) {
                Some(_) => {
                    assert(marker_len_at(path@, i as int) is Some);
                    return true;
                },
                None => {
                    i = i + 1;
                },
            }
        }
        proof {
            assert(marker_len_at(v@, n as int) is None);
            assert(forall|j: int| 0 <= j <= v@.len() ==> marker_len_at(v@, j) is None);
        }
        false
    }
}

} // verus!
