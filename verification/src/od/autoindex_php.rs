//! AutoIndex PHP family: its named anchor signature, the breadcrumb
//! cascade that yields the download start path, and the transforms that
//! turn its navigator links into plain download links.

use vstd::prelude::*;
use crate::text::{chars_of, string_of, seq_contains, seq_starts_with, seq_ends_with, contains_at,
    subvec, push_all, push_lit, is_alnum_char, starts_with_lit, ends_with_lit, contains_lit,
    find_first};
use crate::parser::{alnum_run_end, alnum_run_end_exec, alnum_run_start, alnum_run_start_exec,
    spec_splice, splice, spec_replace_first, replace_first, spec_split_url, split_url, copy_chars,
    eq_chars, to_lower_chars, spec_lower_seq, first_occurrence, lemma_first_occurrence,
    contains_at_exec};
use crate::od::olaindex::{spec_split_slash, split_slash};
use crate::dom::{HtmlDoc, HtmlNodeV, NodeTest, NodeTestV, TextTest, TextTestV, spec_any_node,
    any_node, spec_trim, trim_chars, spec_selected_texts, collect_texts, anc1, anc2};

verus! {

pub struct AutoIndexPHP;

// ---------------------------------------------------------------------------
// Signature
// ---------------------------------------------------------------------------

/// An anchor names the AutoIndex PHP Script.
pub open spec fn spec_is_autoindex(dv: Seq<HtmlNodeV>) -> bool {
    spec_any_node(
        dv,
        NodeTestV::Tag("a"@),
        Seq::<NodeTestV>::empty(),
        TextTestV::Contains("AutoIndex PHP Script"@),
    )
}

/// A breadcrumb anchor (`autoindex_a` or `default_a`) stands under a
/// `div` that is not the small listing block.
pub open spec fn spec_breadcrumbs_exist(dv: Seq<HtmlNodeV>) -> bool {
    spec_any_node(
        dv,
        NodeTestV::WithClass("autoindex_a"@),
        seq![NodeTestV::TagNotClass("div"@, "autoindex_small"@)],
        TextTestV::Anything,
    ) || spec_any_node(
        dv,
        NodeTestV::WithClass("default_a"@),
        seq![NodeTestV::TagNotClass("div"@, "autoindex_small"@)],
        TextTestV::Anything,
    )
}

impl AutoIndexPHP {
    /// Identify the family: whether breadcrumbs exist, and whether the
    /// page names the AutoIndex PHP Script.
    pub fn is_od_doc(doc: &HtmlDoc) -> (r: (bool, bool))
        requires
            doc.wf(),
        ensures
            r.0 == spec_breadcrumbs_exist(doc@),
            r.1 == spec_is_autoindex(doc@),
    {
        let a = NodeTest::Tag(crate::dom::stg("a"));
        let none = crate::dom::anc0();
        let id = TextTest::Contains(crate::dom::stg("AutoIndex PHP Script"));
        let is_current = any_node(doc, &a, &none, &id);
        let big_div = anc1(NodeTest::TagNotClass(
            crate::dom::stg("div"),
            crate::dom::stg("autoindex_small"),
        ));
        let aa = NodeTest::WithClass(crate::dom::stg("autoindex_a"));
        let da = NodeTest::WithClass(crate::dom::stg("default_a"));
        let crumbs = any_node(doc, &aa, &big_div, &TextTest::Anything) || any_node(
            doc,
            &da,
            &big_div,
            &TextTest::Anything,
        );
        (crumbs, is_current)
    }

    pub fn is_od(res: &str) -> (r: (bool, bool))
        ensures
            r.0 == spec_breadcrumbs_exist(crate::dom::spec_parse(res@)),
            r.1 == spec_is_autoindex(crate::dom::spec_parse(res@)),
    {
        let doc = crate::dom::parse_document(res);
        AutoIndexPHP::is_od_doc(&doc)
    }
}

// ---------------------------------------------------------------------------
// Breadcrumb traversal cascade
// ---------------------------------------------------------------------------

/// The breadcrumb texts: `autoindex_a` anchors under a big `div`; when
/// there are none, `default_a` anchors there; when there are none of
/// those either, `default_a` anchors inside an `h2` of a `div`.
pub open spec fn spec_traversal(dv: Seq<HtmlNodeV>) -> Seq<Seq<char>> {
    let big_div = seq![NodeTestV::TagNotClass("div"@, "autoindex_small"@)];
    let first = spec_selected_texts(dv, NodeTestV::WithClass("autoindex_a"@), big_div);
    if first.len() > 0 {
        first
    } else {
        let second = spec_selected_texts(dv, NodeTestV::WithClass("default_a"@), big_div);
        if second.len() > 0 {
            second
        } else {
            spec_selected_texts(
                dv,
                NodeTestV::WithClass("default_a"@),
                seq![NodeTestV::Tag("h2"@), NodeTestV::Tag("div"@)],
            )
        }
    }
}

/// Collects the breadcrumb texts through the traversal cascade.
pub fn traversal(doc: &HtmlDoc) -> (r: Vec<String>)
    requires
        doc.wf(),
    ensures
        r.deep_view() == spec_traversal(doc@),
{
    let big_div = anc1(NodeTest::TagNotClass(
        crate::dom::stg("div"),
        crate::dom::stg("autoindex_small"),
    ));
    let aa = NodeTest::WithClass(crate::dom::stg("autoindex_a"));
    let first = collect_texts(doc, &aa, &big_div);
    if first.len() > 0 {
        return first;
    }
    let da = NodeTest::WithClass(crate::dom::stg("default_a"));
    let second = collect_texts(doc, &da, &big_div);
    if second.len() > 0 {
        return second;
    }
    let h2_div = anc2(
        NodeTest::Tag(crate::dom::stg("h2")),
        NodeTest::Tag(crate::dom::stg("div")),
    );
    collect_texts(doc, &da, &h2_div)
}

/// Each component trimmed of surrounding whitespace.
pub open spec fn spec_trim_all(ps: Seq<Seq<char>>) -> Seq<Seq<char>> {
    ps.map_values(|p: Seq<char>| spec_trim(p))
}

#[verifier::loop_isolation(false)]
fn trim_all(ps: &Vec<Vec<char>>) -> (r: Vec<Vec<char>>)
    ensures
        r.deep_view() == spec_trim_all(ps.deep_view()),
{
    let n = ps.len();
    let mut r: Vec<Vec<char>> = Vec::new();
    let mut i: usize = 0;
    while i < n
        invariant
            0 <= i <= n,
            n == ps.deep_view().len(),
            r.deep_view() =~= spec_trim_all(ps.deep_view().take(i as int)),
        decreases n - i,
    {
        let ghost pre = r.deep_view();
        let t = trim_chars(&ps[i]);
        proof {
            assert(ps@[i as int].deep_view() == ps.deep_view()[i as int]);
            assert(ps@[i as int].deep_view() =~= ps@[i as int]@);
            assert(t@ == spec_trim(ps.deep_view()[i as int]));
        }
        r.push(t);
        proof {
            assert(r.deep_view() =~~= pre.push(spec_trim(ps.deep_view()[i as int])));
            assert(spec_trim_all(ps.deep_view().take(i + 1)) =~~= spec_trim_all(
                ps.deep_view().take(i as int),
            ).push(spec_trim(ps.deep_view()[i as int])));
        }
        i = i + 1;
    }
    proof {
        assert(ps.deep_view().take(n as int) =~~= ps.deep_view());
    }
    r
}

/// What the first breadcrumb yields: the start path, whether the
/// extended navigator applies, and whether retrieval is cancelled.
pub open spec fn spec_retrieve_start_path(collection: Seq<Seq<char>>) -> (Seq<char>, bool, bool) {
    let first = spec_trim(collection[0]);
    if spec_lower_seq(first) == "autoindex php script"@ {
        (Seq::<char>::empty(), true, true)
    } else if seq_starts_with(first, ".."@) {
        let parts = spec_split_slash(first);
        if parts.len() > 1 {
            (lead_slash(crate::parser::spec_join_slash(spec_trim_all(parts.skip(1))) + "/"@),
            true, false)
        } else {
            (Seq::<char>::empty(), true, false)
        }
    } else if !seq_ends_with(first, "."@) {
        let parts = spec_split_slash(first);
        (lead_slash(crate::parser::spec_join_slash(spec_trim_all(parts.skip(1))) + "/"@), false,
        false)
    } else if first == "."@ {
        ("/"@, false, false)
    } else {
        (Seq::<char>::empty(), false, false)
    }
}

/// The path with a leading slash guaranteed.
pub open spec fn lead_slash(p: Seq<char>) -> Seq<char> {
    if seq_starts_with(p, "/"@) {
        p
    } else {
        "/"@ + p
    }
}

impl AutoIndexPHP {
    /// Retrieve the starting path of the breadcrumb.
    pub fn retrieve_start_path(collection: &Vec<String>) -> (r: (Vec<char>, bool, bool))
    requires
        collection@.len() > 0,
    ensures
        (r.0@, r.1, r.2) == spec_retrieve_start_path(collection.deep_view()),
{
    proof {
        reveal_strlit("/");
        reveal_strlit(".");
        reveal_strlit("..");
    }
    let first_raw = chars_of(collection[0].as_str());
    assert(first_raw@ == collection.deep_view()[0]);
    let first = trim_chars(&first_raw);
    let low = to_lower_chars(&first);
    let cancel = chars_of("autoindex php script");
    if eq_chars(&low, &cancel) {
        return (Vec::new(), true, true);
    }
    if starts_with_lit(&first, "..") {
        let parts = split_slash(&first);
        if parts.len() > 1 {
            let rest = split_off_first(&parts);
            let trimmed = trim_all(&rest);
            let mut path = crate::parser::join_slash(&trimmed);
            path.push('/');
            assert(path@ =~= crate::parser::spec_join_slash(
                spec_trim_all(spec_split_slash(first@).skip(1)),
            ) + "/"@);
            return (with_lead_slash(path), true, false);
        } else {
            return (Vec::new(), true, false);
        }
    }
    if !ends_with_lit(&first, ".") {
        let parts = split_slash(&first);
        assert(parts.deep_view().len() > 0);
        let rest = split_off_first(&parts);
        let trimmed = trim_all(&rest);
        let mut path = crate::parser::join_slash(&trimmed);
        path.push('/');
        assert(path@ =~= crate::parser::spec_join_slash(
            spec_trim_all(spec_split_slash(first@).skip(1)),
        ) + "/"@);
        return (with_lead_slash(path), false, false);
    }
    let dot = chars_of(".");
    if eq_chars(&first, &dot) {
        return (chars_of("/"), false, false);
    }
    (Vec::new(), false, false)
    }
}

/// All components but the first.
fn split_off_first(parts: &Vec<Vec<char>>) -> (r: Vec<Vec<char>>)
    requires
        parts.deep_view().len() > 0,
    ensures
        r.deep_view() == parts.deep_view().skip(1),
{
    let n = parts.len();
    let mut r: Vec<Vec<char>> = Vec::new();
    let mut i: usize = 1;
    proof {
        assert(r.deep_view() =~~= parts.deep_view().subrange(1, 1));
    }
    while i < n
        invariant
            1 <= i <= n,
            n == parts.deep_view().len(),
            r.deep_view() =~~= parts.deep_view().subrange(1, i as int),
        decreases n - i,
    {
        let ghost pre = r.deep_view();
        r.push(copy_chars(&parts[i]));
        proof {
            assert(r.deep_view() =~~= pre.push(parts.deep_view()[i as int]));
            assert(parts.deep_view().subrange(1, i + 1) =~~= parts.deep_view().subrange(
                1,
                i as int,
            ).push(parts.deep_view()[i as int]));
        }
        i = i + 1;
    }
    proof {
        assert(parts.deep_view().subrange(1, n as int) =~~= parts.deep_view().skip(1));
    }
    r
}

fn with_lead_slash(p: Vec<char>) -> (r: Vec<char>)
    ensures
        r@ == lead_slash(p@),
{
    proof {
        reveal_strlit("/");
    }
    if p.len() > 0 && p[0] == '/' {
        assert(seq_starts_with(p@, "/"@)) by {
            assert(p@.subrange(0, 1) =~= seq!['/']);
            assert(seq!['/'] =~= "/"@);
        }
        p
    } else {
        assert(!seq_starts_with(p@, "/"@)) by {
            if seq_starts_with(p@, "/"@) {
                assert(p@.subrange(0, 1)[0] == p@[0]);
            }
        }
        let mut r = chars_of("/");
        push_all(&mut r, &p);
        r
    }
}

/// The start path for downloading a file: the breadcrumb cascade's first
/// entry, or a cancelled retrieval when the page shows no breadcrumbs.
impl AutoIndexPHP {
    pub fn start_path(doc: &HtmlDoc) -> (r: (Vec<char>, bool, bool))
    requires
        doc.wf(),
    ensures
        spec_traversal(doc@).len() > 0 ==> (r.0@, r.1, r.2) == spec_retrieve_start_path(
            spec_traversal(doc@),
        ),
        spec_traversal(doc@).len() == 0 ==> (r.0@, r.1, r.2) == (Seq::<char>::empty(), true, true),
{
    let collection = traversal(doc);
    if collection.len() == 0 {
        return (Vec::new(), true, true);
    }
    AutoIndexPHP::retrieve_start_path(&collection)
    }
}

} // verus!

verus! {

// ---------------------------------------------------------------------------
// Navigator links and download-link transforms
// ---------------------------------------------------------------------------

/// Length of a navigator component at `i`: `/<alnums>.php[/]?dir=`,
/// or with `extended`, `[/]<alnums>/<alnums>.php[/]?dir=`.
pub open spec fn nav_len_at(s: Seq<char>, i: int, extended: bool) -> Option<int> {
    if extended {
        if 0 <= i < s.len() {
            let b = if s[i] == '/' {
                i + 1
            } else {
                i
            };
            let j1 = alnum_run_end(s, b);
            if b < s.len() && j1 > b && j1 < s.len() && s[j1] == '/' && alnum_run_end(s, j1 + 1)
                > j1 + 1 {
                nav_suffix(s, i, alnum_run_end(s, j1 + 1))
            } else {
                None
            }
        } else {
            None
        }
    } else {
        if 0 <= i < s.len() && s[i] == '/' && alnum_run_end(s, i + 1) > i + 1 {
            nav_suffix(s, i, alnum_run_end(s, i + 1))
        } else {
            None
        }
    }
}

/// The `.php[/]?dir=` tail of a navigator match beginning at `i` whose
/// script name ends at `j`.
pub open spec fn nav_suffix(s: Seq<char>, i: int, j: int) -> Option<int> {
    if contains_at(s, ".php?dir="@, j) {
        Some(j - i + 9)
    } else if contains_at(s, ".php/?dir="@, j) {
        Some(j - i + 10)
    } else {
        None
    }
}

/// The first navigator component replaced by `rep`.
pub open spec fn spec_replace_nav(s: Seq<char>, rep: Seq<char>, extended: bool) -> Seq<char> {
    if exists|i: int| 0 <= i <= s.len() && nav_len_at(s, i, extended) is Some {
        let i = choose|i: int|
            0 <= i <= s.len() && nav_len_at(s, i, extended) is Some && forall|j: int|
                0 <= j < i ==> nav_len_at(s, j, extended) is None;
        spec_splice(s, i, i + nav_len_at(s, i, extended)->0, rep)
    } else {
        s
    }
}

#[verifier::loop_isolation(false)]
fn nav_len_at_exec(v: &Vec<char>, i: usize, extended: bool) -> (r: Option<usize>)
    requires
        i <= v@.len(),
    ensures
        match r {
            Some(l) => nav_len_at(v@, i as int, extended) == Some(l as int) && i + l <= v@.len(),
            None => nav_len_at(v@, i as int, extended) is None,
        },
{
    proof {
        reveal_strlit(".php?dir=");
        reveal_strlit(".php/?dir=");
    }
    let n = v.len();
    if extended {
        if i >= n {
            return None;
        }
        let b = if v[i] == '/' {
            i + 1
        } else {
            i
        };
        if b >= n {
            return None;
        }
        let j1 = alnum_run_end_exec(v, b);
        if !(j1 > b && j1 < n && v[j1] == '/') {
            return None;
        }
        let j2 = alnum_run_end_exec(v, j1 + 1);
        if !(j2 > j1 + 1) {
            return None;
        }
        nav_suffix_exec(v, i, j2)
    } else {
        if i >= n || v[i] != '/' {
            return None;
        }
        let j = alnum_run_end_exec(v, i + 1);
        if !(j > i + 1) {
            return None;
        }
        nav_suffix_exec(v, i, j)
    }
}

#[verifier::loop_isolation(false)]
fn nav_suffix_exec(v: &Vec<char>, i: usize, j: usize) -> (r: Option<usize>)
    requires
        i <= j <= v@.len(),
    ensures
        match r {
            Some(l) => nav_suffix(v@, i as int, j as int) == Some(l as int) && i + l <= v@.len(),
            None => nav_suffix(v@, i as int, j as int) is None,
        },
{
    proof {
        reveal_strlit(".php?dir=");
        reveal_strlit(".php/?dir=");
    }
    let n = v.len();
    let short = chars_of(".php?dir=");
    let long = chars_of(".php/?dir=");
    if contains_at_exec(v, &short, j) {
        Some(j - i + 9)
    } else if contains_at_exec(v, &long, j) {
        Some(j - i + 10)
    } else {
        None
    }
}

/// Replaces the first navigator component with `rep`.
#[verifier::loop_isolation(false)]
fn replace_nav(v: &Vec<char>, rep: &Vec<char>, extended: bool) -> (r: Vec<char>)
    ensures
        r@ == spec_replace_nav(v@, rep@, extended),
{
    let n = v.len();
    let mut i: usize = 0;
    while i < n
        invariant
            0 <= i <= n,
            forall|j: int| 0 <= j < i ==> nav_len_at(v@, j, extended) is None,
        decreases n - i,
    {
        match nav_len_at_exec(v, i, extended) {
            Some(l) => {
                let out = splice(v, i, i + l, rep);
                proof {
                    let wi = i as int;
                    let ci = choose|ci: int|
                        0 <= ci <= v@.len() && nav_len_at(v@, ci, extended) is Some && forall|
                            j: int,
                        | 0 <= j < ci ==> nav_len_at(v@, j, extended) is None;
                    assert(0 <= wi <= v@.len() && nav_len_at(v@, wi, extended) is Some && forall|
                        j: int,
                    | 0 <= j < wi ==> nav_len_at(v@, j, extended) is None);
                    assert(ci == wi) by {
                        if ci < wi {
                            assert(nav_len_at(v@, ci, extended) is None);
                        }
                        if wi < ci {
                            assert(nav_len_at(v@, wi, extended) is None);
                        }
                    }
                }
                return out;
            },
            None => {
                i = i + 1;
            },
        }
    }
    proof {
        assert(nav_len_at(v@, n as int, extended) is None);
        assert(forall|j: int| 0 <= j <= v@.len() ==> nav_len_at(v@, j, extended) is None);
    }
    copy_chars(v)
}

/// The path, less a trailing `[/]<alnums>[/<alnums>].html[/]` component.
pub open spec fn spec_strip_html_nav(path: Seq<char>, extended: bool) -> Seq<char> {
    let t = if path.len() > 0 && path.last() == '/' {
        path.drop_last()
    } else {
        path
    };
    if t.len() >= 5 && t.subrange(t.len() - 5, t.len() as int) == ".html"@ {
        let r2 = alnum_run_start(t, t.len() - 5);
        if extended {
            if r2 < t.len() - 5 && r2 >= 1 && t[r2 - 1] == '/' && alnum_run_start(t, r2 - 1) < r2
                - 1 {
                let r1 = alnum_run_start(t, r2 - 1);
                if r1 >= 1 && t[r1 - 1] == '/' {
                    path.take(r1 - 1)
                } else {
                    path.take(r1)
                }
            } else {
                path
            }
        } else {
            if r2 < t.len() - 5 && r2 >= 1 && t[r2 - 1] == '/' {
                path.take(r2 - 1)
            } else {
                path
            }
        }
    } else {
        path
    }
}

#[verifier::loop_isolation(false)]
fn strip_html_nav(path: &Vec<char>, extended: bool) -> (r: Vec<char>)
    ensures
        r@ == spec_strip_html_nav(path@, extended),
{
    proof {
        reveal_strlit(".html");
    }
    let n = path.len();
    let t = if n > 0 && path[n - 1] == '/' {
        let t = subvec(path, 0, n - 1);
        assert(t@ =~= path@.drop_last());
        t
    } else {
        copy_chars(path)
    };
    let m = t.len();
    if m < 5 {
        return copy_chars(path);
    }
    let html = chars_of(".html");
    if !crate::text::eq_at(&t, &html, m - 5) {
        assert(t@.subrange(m - 5, m as int) != ".html"@);
        return copy_chars(path);
    }
    assert(t@.subrange(m - 5, m as int) == ".html"@);
    let r2 = alnum_run_start_exec(&t, m - 5);
    if extended {
        if r2 < m - 5 && r2 >= 1 && t[r2 - 1] == '/' {
            let r1 = alnum_run_start_exec(&t, r2 - 1);
            if r1 < r2 - 1 {
                if r1 >= 1 && t[r1 - 1] == '/' {
                    return subvec(path, 0, r1 - 1);
                }
                return subvec(path, 0, r1);
            }
        }
        copy_chars(path)
    } else {
        if r2 < m - 5 && r2 >= 1 && t[r2 - 1] == '/' {
            return subvec(path, 0, r2 - 1);
        }
        copy_chars(path)
    }
}

/// The link with every leading dot removed.
pub open spec fn spec_skip_dots(s: Seq<char>) -> Seq<char>
    decreases s.len(),
{
    if s.len() > 0 && s[0] == '.' {
        spec_skip_dots(s.skip(1))
    } else {
        s
    }
}

#[verifier::loop_isolation(false)]
fn skip_dots(v: &Vec<char>) -> (r: Vec<char>)
    ensures
        r@ == spec_skip_dots(v@),
{
    let n = v.len();
    let mut i: usize = 0;
    assert(v@.skip(0) =~= v@);
    while i < n && v[i] == '.'
        invariant
            0 <= i <= n,
            spec_skip_dots(v@) == spec_skip_dots(v@.skip(i as int)),
        decreases n - i,
    {
        proof {
            assert(v@.skip(i as int)[0] == v@[i as int]);
            assert(v@.skip(i as int).skip(1) =~= v@.skip(i + 1));
        }
        i = i + 1;
    }
    proof {
        if i < n {
            assert(v@.skip(i as int)[0] == v@[i as int]);
        }
        assert(spec_skip_dots(v@.skip(i as int)) == v@.skip(i as int));
    }
    let r = subvec(v, i, n);
    assert(r@ =~= v@.skip(i as int));
    r
}

} // verus!

verus! {

/// The PHP route: the navigator component of the link replaced by the
/// breadcrumb start path, the `&file=` marker dropped, and the result
/// hung on the base's scheme and host.
pub open spec fn spec_transform_php(
    scheme: Seq<char>,
    host: Seq<char>,
    rel: Seq<char>,
    start: Seq<char>,
    use_ext: bool,
) -> Seq<char> {
    let nav = spec_replace_nav(rel, start, use_ext);
    let filtered = spec_replace_first(nav, "&file="@, Seq::<char>::empty());
    let base = scheme + "://"@ + host;
    if seq_starts_with(filtered, "//"@) {
        base + filtered.skip(1)
    } else if seq_starts_with(filtered, "/"@) {
        base + filtered
    } else {
        base + "/"@ + filtered
    }
}

/// The HTML route: the base's trailing script component dropped, the
/// link's leading dots and `?dir=` query stripped, and the pieces joined.
pub open spec fn spec_transform_html(
    scheme: Seq<char>,
    host: Seq<char>,
    path: Seq<char>,
    rel: Seq<char>,
) -> Seq<char> {
    let path2 = spec_strip_html_nav(path, true);
    let rel1 = spec_skip_dots(rel);
    let rel2 = if seq_contains(rel1, "?dir="@) {
        rel1.take(first_occurrence(rel1, "?dir="@))
    } else {
        rel1
    };
    let base = scheme + "://"@ + host;
    if seq_starts_with(rel2, "/"@) {
        base + path2 + rel2
    } else {
        base + path2 + "/"@ + rel2
    }
}

/// How a file link of this family becomes a downloadable one: through
/// the PHP route when the base path names a PHP script and the
/// breadcrumbs are not cancelled, else through the HTML route. `None`
/// when the base is no absolute URL.
pub open spec fn spec_transform_dl_link(
    url: Seq<char>,
    rel: Seq<char>,
    dv: Seq<HtmlNodeV>,
) -> Option<Seq<char>> {
    match spec_split_url(url) {
        None => None,
        Some(p) => if seq_ends_with(p.path, "php"@) {
            let tpl = if spec_traversal(dv).len() > 0 {
                spec_retrieve_start_path(spec_traversal(dv))
            } else {
                (Seq::<char>::empty(), true, true)
            };
            if tpl.2 {
                Some(rel)
            } else {
                Some(spec_transform_php(p.scheme, p.host, rel, tpl.0, tpl.1))
            }
        } else {
            Some(spec_transform_html(p.scheme, p.host, p.path, rel))
        },
    }
}

impl AutoIndexPHP {
    /// Transforms the file link into a downloadable one, against the
    /// already-parsed page.
    pub fn transform_dl_link_doc(url: &str, rel: &str, doc: &HtmlDoc) -> (r: Option<String>)
        requires
            doc.wf(),
        ensures
            match r {
                Some(s) => spec_transform_dl_link(url@, rel@, doc@) == Some(s@),
                None => spec_transform_dl_link(url@, rel@, doc@) is None,
            },
    {
        proof {
            reveal_strlit("php");
            reveal_strlit("/");
            reveal_strlit("//");
            reveal_strlit("&file=");
            reveal_strlit("?dir=");
        }
        let uv = chars_of(url);
        let rv = chars_of(rel);
        let p = match split_url(&uv) {
            Some(p) => p,
            None => {
                return None;
            },
        };
        if ends_with_lit(&p.path, "php") {
            let (start, use_ext, cancelled) = AutoIndexPHP::start_path(doc);
            if cancelled {
                return Some(string_of(&rv));
            }
            let nav = replace_nav(&rv, &start, use_ext);
            let file_pat = chars_of("&file=");
            let empty: Vec<char> = Vec::new();
            let filtered = replace_first(&nav, &file_pat, &empty);
            let mut out: Vec<char> = Vec::new();
            push_all(&mut out, &p.scheme);
            push_lit(&mut out, "://");
            push_all(&mut out, &p.host);
            if starts_with_lit(&filtered, "//") {
                let t = subvec(&filtered, 1, filtered.len());
                assert(t@ =~= filtered@.skip(1));
                push_all(&mut out, &t);
            } else if starts_with_lit(&filtered, "/") {
                push_all(&mut out, &filtered);
            } else {
                push_lit(&mut out, "/");
                push_all(&mut out, &filtered);
            }
            assert(out@ == spec_transform_php(p@.scheme, p@.host, rv@, start@, use_ext));
            Some(string_of(&out))
        } else {
            let path2 = strip_html_nav(&p.path, true);
            let rel1 = skip_dots(&rv);
            let dirq = chars_of("?dir=");
            let rel2 = match find_first(&rel1, &dirq) {
                Some(ix) => {
                    proof {
                        lemma_first_occurrence(rel1@, "?dir="@, ix as int);
                    }
                    subvec(&rel1, 0, ix)
                },
                None => copy_chars(&rel1),
            };
            let mut out: Vec<char> = Vec::new();
            push_all(&mut out, &p.scheme);
            push_lit(&mut out, "://");
            push_all(&mut out, &p.host);
            push_all(&mut out, &path2);
            if starts_with_lit(&rel2, "/") {
                push_all(&mut out, &rel2);
            } else {
                push_lit(&mut out, "/");
                push_all(&mut out, &rel2);
            }
            assert(out@ == spec_transform_html(p@.scheme, p@.host, p@.path, rv@));
            Some(string_of(&out))
        }
    }

    /// Transforms the file link into a downloadable one, against the
    /// named parse of the page.
    pub fn transform_dl_link(url: &str, rel: &str, res: &str) -> (r: Option<String>)
        ensures
            (match r {
                Some(s) => spec_transform_dl_link(url@, rel@, crate::dom::spec_parse(res@))
                    == Some(s@),
                None => spec_transform_dl_link(url@, rel@, crate::dom::spec_parse(res@)) is None,
            }),
    {
        let doc = crate::dom::parse_document(res);
        AutoIndexPHP::transform_dl_link_doc(url, rel, &doc)
    }

    /// Transforms a directory link against an HTML-navigated base.
    pub fn transform_dir_link_html(url: &str, rel: &str) -> (r: Option<String>)
        ensures
            match r {
                Some(s) => spec_transform_dir_link_html(url@, rel@) == Some(s@),
                None => spec_transform_dir_link_html(url@, rel@) is None,
            },
    {
        proof {
            reveal_strlit("html");
            reveal_strlit("/");
        }
        let uv = chars_of(url);
        let rv = chars_of(rel);
        let p = match split_url(&uv) {
            Some(p) => p,
            None => {
                return None;
            },
        };
        if !ends_with_lit(&p.path, "html") {
            return Some(string_of(&rv));
        }
        let path2 = strip_html_nav(&p.path, false);
        let mut out: Vec<char> = Vec::new();
        push_all(&mut out, &p.scheme);
        push_lit(&mut out, "://");
        push_all(&mut out, &p.host);
        push_all(&mut out, &path2);
        if starts_with_lit(&rv, "/") {
            push_all(&mut out, &rv);
        } else {
            push_lit(&mut out, "/");
            push_all(&mut out, &rv);
        }
        Some(string_of(&out))
    }
}

/// How a directory link of an HTML-navigated base becomes absolute: the
/// base's trailing `.html` component is dropped and the link hung under
/// what remains. Bases that name no `.html` script keep the link as is.
pub open spec fn spec_transform_dir_link_html(url: Seq<char>, rel: Seq<char>) -> Option<
    Seq<char>,
> {
    match spec_split_url(url) {
        None => None,
        Some(p) => if !seq_ends_with(p.path, "html"@) {
            Some(rel)
        } else {
            let path2 = spec_strip_html_nav(p.path, false);
            let base = p.scheme + "://"@ + p.host;
            if seq_starts_with(rel, "/"@) {
                Some(base + path2 + rel)
            } else {
                Some(base + path2 + "/"@ + rel)
            }
        },
    }
}

} // verus!
