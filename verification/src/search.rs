//! The link-extraction engine: one verified pipeline, parameterized by a
//! per-family strategy. A strategy names the structural clauses that
//! select anchors, which attribute carries the link, the extra node and
//! link filters the family needs, and its link transform. Every family's
//! `search` is this pipeline under its own strategy.

use vstd::prelude::*;
use crate::text::{chars_of, string_of, seq_contains, seq_ends_with, contains_lit, ends_with_lit,
    contains_chars, push_all};
use crate::parser::{spec_replace_first, replace_first, spec_sanitize_url, sanitize_url_chars,
    spec_has_sort_query, ends_with_any_query_chars, copy_chars};
use crate::od::olaindex::{spec_split_slash, split_slash, spec_has_extra_paths, OLAINDEX,
    OlaindexExtras};
use crate::dom::{HtmlDoc, HtmlNode, HtmlNodeV, NodeTest, NodeTestV, TextTest, TextTestV,
    spec_node_selected, node_selected, spec_any_node, any_node, anc0, anc1, anc2, stg};
use crate::od::ODMethod;

verus! {

/// One structural clause: the node test (optionally a second one the
/// node must also pass) and the ancestors it must have.
pub struct SelClause {
    pub t: NodeTest,
    pub extra: Option<NodeTest>,
    pub ancs: Vec<NodeTest>,
}

/// Mathematical shape of a clause.
pub struct SelClauseV {
    pub t: NodeTestV,
    pub extra: Option<NodeTestV>,
    pub ancs: Seq<NodeTestV>,
}

impl View for SelClause {
    type V = SelClauseV;

    open spec fn view(&self) -> SelClauseV {
        SelClauseV {
            t: self.t@,
            extra: match &self.extra {
                Some(e) => Some(e@),
                None => None,
            },
            ancs: self.ancs.deep_view(),
        }
    }
}

impl DeepView for SelClause {
    type V = SelClauseV;

    open spec fn deep_view(&self) -> SelClauseV {
        self.view()
    }
}

/// Which attribute carries the link.
pub enum LinkAttr {
    Href,
    DataRoutePreferred,
    DataUrl,
}

/// A family's extraction strategy.
pub struct Strategy {
    pub clauses: Vec<SelClause>,
    pub attr: LinkAttr,
    pub f_dotdot: bool,
    pub f_arrow: bool,
    pub f_copy: bool,
    pub f_snif: bool,
    pub f_base_contains: bool,
    pub f_sort: bool,
    pub l_extra_paths: bool,
    pub l_sort_suffix: bool,
    pub l_empty_query: bool,
    pub t_dls_fix: bool,
    pub t_lighttpd: bool,
}

/// Mathematical shape of a strategy.
pub struct StrategyV {
    pub clauses: Seq<SelClauseV>,
    pub attr: LinkAttr,
    pub f_dotdot: bool,
    pub f_arrow: bool,
    pub f_copy: bool,
    pub f_snif: bool,
    pub f_base_contains: bool,
    pub f_sort: bool,
    pub l_extra_paths: bool,
    pub l_sort_suffix: bool,
    pub l_empty_query: bool,
    pub t_dls_fix: bool,
    pub t_lighttpd: bool,
}

impl View for Strategy {
    type V = StrategyV;

    open spec fn view(&self) -> StrategyV {
        StrategyV {
            clauses: self.clauses.deep_view(),
            attr: self.attr,
            f_dotdot: self.f_dotdot,
            f_arrow: self.f_arrow,
            f_copy: self.f_copy,
            f_snif: self.f_snif,
            f_base_contains: self.f_base_contains,
            f_sort: self.f_sort,
            l_extra_paths: self.l_extra_paths,
            l_sort_suffix: self.l_sort_suffix,
            l_empty_query: self.l_empty_query,
            t_dls_fix: self.t_dls_fix,
            t_lighttpd: self.t_lighttpd,
        }
    }
}

/// The value of an attribute of a node, if present.
pub open spec fn spec_attr_opt(nv: HtmlNodeV, name: Seq<char>) -> Option<Seq<char>> {
    if nv.attrs.contains_key(name) {
        Some(nv.attrs[name])
    } else {
        None
    }
}

/// The node passes some structural clause of the strategy.
pub open spec fn spec_clause_match(dv: Seq<HtmlNodeV>, i: int, clauses: Seq<SelClauseV>) -> bool {
    exists|k: int|
        0 <= k < clauses.len() && spec_node_selected(
            dv,
            i,
            clauses[k].t,
            clauses[k].ancs,
            TextTestV::Anything,
        ) && (match clauses[k].extra {
            Some(e) => crate::dom::spec_node_test(dv[i], e),
            None => true,
        })
}

/// The attribute the shared parent filter reads.
pub open spec fn spec_primary_attr(s: StrategyV) -> Seq<char> {
    match s.attr {
        LinkAttr::DataUrl => "data-url"@,
        _ => "href"@,
    }
}

/// The node survives the strategy's node filters.
pub open spec fn spec_keep_node(
    dv: Seq<HtmlNodeV>,
    url: Seq<char>,
    s: StrategyV,
    i: int,
) -> bool {
    let nv = dv[i];
    spec_clause_match(dv, i, s.clauses) && crate::od::all::spec_no_parent_dir(
        url,
        nv.text,
        spec_attr_opt(nv, spec_primary_attr(s)),
    ) && (s.f_dotdot ==> !seq_ends_with(nv.text, ".."@)) && (s.f_arrow ==> !seq_contains(
        nv.text,
        "arrow_"@,
    )) && (s.f_copy ==> !(nv.text == "COPYING"@
        || nv.text == "AUTHORS"@)) && (s.f_snif ==> !(spec_attr_opt(nv, "title"@) == Some(".."@))
        && !(nv.attrs.contains_key("href"@) && seq_contains(nv.attrs["href"@], "&download="@))) && (
    s.f_base_contains ==> nv.attrs.contains_key("href"@) && !seq_contains(
        url,
        nv.attrs["href"@],
    )) && (s.f_sort ==> !(nv.attrs.contains_key("href"@) && spec_has_sort_query(
        nv.attrs["href"@],
    )))
}

/// The link the strategy extracts from the node, if any.
pub open spec fn spec_link_of(nv: HtmlNodeV, s: StrategyV) -> Option<Seq<char>> {
    match s.attr {
        LinkAttr::Href => spec_attr_opt(nv, "href"@),
        LinkAttr::DataUrl => spec_attr_opt(nv, "data-url"@),
        LinkAttr::DataRoutePreferred => if spec_attr_opt(nv, "data-route"@) is Some {
            spec_attr_opt(nv, "data-route"@)
        } else {
            spec_attr_opt(nv, "href"@)
        },
    }
}

/// The extracted link survives the strategy's link filters.
pub open spec fn spec_link_ok(link: Seq<char>, s: StrategyV) -> bool {
    !seq_contains(link, "javascript:"@) && (s.l_extra_paths ==> !spec_has_extra_paths(
        spec_split_slash(link),
        false,
    )) && (s.l_sort_suffix ==> !spec_has_sort_query(link)) && (s.l_empty_query ==> !seq_ends_with(
        link,
        "/?/"@,
    ))
}

/// A `td` inside a `tr` shows exactly this text: the full name with its
/// trailing slash, as the lighttpd listing prints directories.
pub open spec fn spec_full_name_exists(dv: Seq<HtmlNodeV>, name: Seq<char>) -> bool {
    exists|i: int|
        0 <= i < dv.len() && #[trigger] spec_node_selected(
            dv,
            i,
            NodeTestV::Tag("td"@),
            seq![NodeTestV::Tag("tr"@)],
            TextTestV::Anything,
        ) && dv[i].text == name
}

/// The strategy's transform of an extracted link, before sanitizing.
pub open spec fn spec_link_tx(dv: Seq<HtmlNodeV>, link: Seq<char>, s: StrategyV) -> Seq<char> {
    if s.t_dls_fix {
        spec_replace_first(link, "?dir=.%2F"@, "?dir=./"@)
    } else if s.t_lighttpd && spec_full_name_exists(dv, link + "/"@) {
        link + "/"@
    } else {
        link
    }
}

/// The links the strategy yields from node `i` on, in document order,
/// each filtered, transformed and sanitized.
pub open spec fn spec_search_from(
    dv: Seq<HtmlNodeV>,
    url: Seq<char>,
    s: StrategyV,
    i: int,
) -> Seq<Seq<char>>
    decreases dv.len() - i when 0 <= i <= dv.len()
{
    if i >= dv.len() {
        Seq::<Seq<char>>::empty()
    } else {
        let rest = spec_search_from(dv, url, s, i + 1);
        if spec_keep_node(dv, url, s, i) {
            match spec_link_of(dv[i], s) {
                Some(link) => if spec_link_ok(link, s) {
                    seq![spec_sanitize_url(spec_link_tx(dv, link, s))] + rest
                } else {
                    rest
                },
                None => rest,
            }
        } else {
            rest
        }
    }
}

/// The links the strategy yields from the whole page.
pub open spec fn spec_search(dv: Seq<HtmlNodeV>, url: Seq<char>, s: StrategyV) -> Seq<Seq<char>> {
    spec_search_from(dv, url, s, 0)
}

/// Whether the node passes some clause.
#[verifier::loop_isolation(false)]
fn clause_match(doc: &HtmlDoc, i: usize, clauses: &Vec<SelClause>) -> (r: bool)
    requires
        doc.wf(),
        i < doc.spec_len(),
    ensures
        r == spec_clause_match(doc@, i as int, clauses.deep_view()),
{
    let m = clauses.len();
    let mut k: usize = 0;
    while k < m
        invariant
            0 <= k <= m,
            forall|j: int|
                0 <= j < k ==> !(spec_node_selected(
                    doc@,
                    i as int,
                    clauses.deep_view()[j].t,
                    clauses.deep_view()[j].ancs,
                    TextTestV::Anything,
                ) && (match clauses.deep_view()[j].extra {
                    Some(e) => crate::dom::spec_node_test(doc@[i as int], e),
                    None => true,
                })),
        decreases m - k,
    {
        assert(clauses.deep_view()[k as int] == clauses@[k as int]@);
        if node_selected(doc, i, &clauses[k].t, &clauses[k].ancs, &TextTest::Anything) {
            let extra_ok = match &clauses[k].extra {
                Some(e) => crate::dom::node_test(doc.node(i), e),
                None => true,
            };
            if extra_ok {
                return true;
            }
        }
        k = k + 1;
    }
    false
}

/// The attribute value of a node, if present.
fn attr_opt(node: &HtmlNode, name: &str) -> (r: Option<Vec<char>>)
    ensures
        match r {
            Some(v) => spec_attr_opt(node@, name@) == Some(v@),
            None => spec_attr_opt(node@, name@) is None,
        },
{
    let nv = chars_of(name);
    node.attr(&nv)
}

/// Whether the node survives the strategy's node filters.
#[verifier::rlimit(30)]
fn keep_node(doc: &HtmlDoc, i: usize, url: &Vec<char>, url_str: &str, s: &Strategy) -> (r: bool)
    requires
        doc.wf(),
        i < doc.spec_len(),
        url@ == url_str@,
    ensures
        r == spec_keep_node(doc@, url@, s@, i as int),
{
    if !clause_match(doc, i, &s.clauses) {
        return false;
    }
    let node = doc.node(i);
    let primary = match s.attr {
        LinkAttr::DataUrl => "data-url",
        _ => "href",
    };
    let href_val = attr_opt(node, primary);
    let text = &node.text;
    let npd = match &href_val {
        Some(v) => {
            let vs = string_of(v);
            crate::od::all::no_parent_dir(url_str, text.as_str(), Some(vs.as_str()))
        },
        None => false,
    };
    proof {
        assert(spec_primary_attr(s@) == primary@);
    }
    if !npd {
        return false;
    }
    if s.f_dotdot {
        let tv = chars_of(text.as_str());
        if ends_with_lit(&tv, "..") {
            return false;
        }
    }
    if s.f_arrow {
        let tv = chars_of(text.as_str());
        if contains_lit(&tv, "arrow_") {
            return false;
        }
    }
    if s.f_copy {
        if crate::od::phpbb::PHPBB::is_copy_file(text.as_str()) {
            return false;
        }
    }
    if s.f_snif {
        let title = attr_opt(node, "title");
        match &title {
            Some(t) => {
                let ts = string_of(t);
                if crate::od::snif::Snif::is_parent(Some(ts.as_str())) {
                    return false;
                }
            },
            None => {},
        }
        let href = attr_opt(node, "href");
        match &href {
            Some(h) => {
                if contains_lit(h, "&download=") {
                    return false;
                }
            },
            None => {},
        }
    }
    if s.f_base_contains {
        let href = attr_opt(node, "href");
        match &href {
            Some(h) => {
                if contains_chars(url, h) {
                    return false;
                }
            },
            None => {
                return false;
            },
        }
    }
    if s.f_sort {
        let href = attr_opt(node, "href");
        match &href {
            Some(h) => {
                if ends_with_any_query_chars(h) {
                    return false;
                }
            },
            None => {},
        }
    }
    true
}

/// The link the strategy extracts from a node.
fn link_of(node: &HtmlNode, s: &Strategy) -> (r: Option<Vec<char>>)
    ensures
        match r {
            Some(v) => spec_link_of(node@, s@) == Some(v@),
            None => spec_link_of(node@, s@) is None,
        },
{
    match s.attr {
        LinkAttr::Href => attr_opt(node, "href"),
        LinkAttr::DataUrl => attr_opt(node, "data-url"),
        LinkAttr::DataRoutePreferred => {
            match attr_opt(node, "data-route") {
                Some(v) => Some(v),
                None => attr_opt(node, "href"),
            }
        },
    }
}

/// Whether the extracted link survives the strategy's link filters.
fn link_ok(link: &Vec<char>, s: &Strategy) -> (r: bool)
    ensures
        r == spec_link_ok(link@, s@),
{
    if contains_lit(link, "javascript:") {
        return false;
    }
    if s.l_extra_paths {
        let parts = split_slash(link);
        if OLAINDEX::has_extra_paths(&parts, &OlaindexExtras::ExcludeHomeAndDownload) {
            return false;
        }
    }
    if s.l_sort_suffix {
        if ends_with_any_query_chars(link) {
            return false;
        }
    }
    if s.l_empty_query {
        if ends_with_lit(link, "/?/") {
            return false;
        }
    }
    true
}

/// Whether a `td` in a `tr` shows exactly this text.
#[verifier::loop_isolation(false)]
fn full_name_exists(doc: &HtmlDoc, name: &Vec<char>) -> (r: bool)
    requires
        doc.wf(),
    ensures
        r == spec_full_name_exists(doc@, name@),
{
    let td = NodeTest::Tag(stg("td"));
    let tr_anc = anc1(NodeTest::Tag(stg("tr")));
    let n = doc.len();
    let mut i: usize = 0;
    while i < n
        invariant
            0 <= i <= n,
            forall|j: int|
                0 <= j < i ==> !(#[trigger] spec_node_selected(
                    doc@,
                    j,
                    NodeTestV::Tag("td"@),
                    seq![NodeTestV::Tag("tr"@)],
                    TextTestV::Anything,
                ) && doc@[j].text == name@),
        decreases n - i,
    {
        if node_selected(doc, i, &td, &tr_anc, &TextTest::Anything) {
            let tv = chars_of(doc.node(i).text.as_str());
            if crate::parser::eq_chars(&tv, name) {
                return true;
            }
        }
        i = i + 1;
    }
    false
}

/// The strategy's transform of an extracted link.
fn link_tx(doc: &HtmlDoc, link: &Vec<char>, s: &Strategy) -> (r: Vec<char>)
    requires
        doc.wf(),
    ensures
        r@ == spec_link_tx(doc@, link@, s@),
{
    proof {
        reveal_strlit("/");
    }
    if s.t_dls_fix {
        let pat = chars_of("?dir=.%2F");
        let rep = chars_of("?dir=./");
        replace_first(link, &pat, &rep)
    } else if s.t_lighttpd {
        let mut with_slash = copy_chars(link);
        with_slash.push('/');
        assert(with_slash@ =~= link@ + "/"@);
        if full_name_exists(doc, &with_slash) {
            with_slash
        } else {
            copy_chars(link)
        }
    } else {
        copy_chars(link)
    }
}

/// Runs the pipeline over the whole page.
#[verifier::loop_isolation(false)]
pub fn search_with(doc: &HtmlDoc, url_str: &str, s: &Strategy) -> (r: Vec<String>)
    requires
        doc.wf(),
    ensures
        r.deep_view() == spec_search(doc@, url_str@, s@),
{
    let url = chars_of(url_str);
    let n = doc.len();
    let mut out: Vec<String> = Vec::new();
    let mut i: usize = 0;
    proof {
        assert(out.deep_view() =~= Seq::<Seq<char>>::empty());
        assert(spec_search(doc@, url@, s@) == out.deep_view() + spec_search_from(
            doc@,
            url@,
            s@,
            0,
        ));
    }
    while i < n
        invariant
            0 <= i <= n,
            url@ == url_str@,
            spec_search(doc@, url@, s@) == out.deep_view() + spec_search_from(
                doc@,
                url@,
                s@,
                i as int,
            ),
        decreases n - i,
    {
        let ghost pre = out.deep_view();
        if keep_node(doc, i, &url, url_str, s) {
            match link_of(doc.node(i), s) {
                Some(link) => {
                    if link_ok(&link, s) {
                        let tx = link_tx(doc, &link, s);
                        let cleaned = sanitize_url_chars(&tx);
                        out.push(string_of(&cleaned));
                        proof {
                            assert(out.deep_view() =~~= pre.push(
                                spec_sanitize_url(spec_link_tx(doc@, link@, s@)),
                            ));
                            assert(seq![spec_sanitize_url(spec_link_tx(doc@, link@, s@))]
                                + spec_search_from(doc@, url@, s@, i + 1) =~= spec_search_from(
                                doc@,
                                url@,
                                s@,
                                i as int,
                            ));
                            assert(out.deep_view() + spec_search_from(doc@, url@, s@, i + 1) =~~=
                                pre + spec_search_from(doc@, url@, s@, i as int));
                        }
                    }
                },
                None => {},
            }
        }
        i = i + 1;
    }
    proof {
        assert(spec_search_from(doc@, url@, s@, n as int) =~= Seq::<Seq<char>>::empty());
        assert(out.deep_view() =~= out.deep_view() + spec_search_from(doc@, url@, s@, n as int));
    }
    out
}

} // verus!

verus! {

// ---------------------------------------------------------------------------
// Building strategies
// ---------------------------------------------------------------------------

fn cl(t: NodeTest, ancs: Vec<NodeTest>) -> (r: SelClause)
    ensures
        r@ == (SelClauseV { t: t@, extra: None, ancs: ancs.deep_view() }),
{
    SelClause { t, extra: None, ancs }
}

fn cl2(t: NodeTest, extra: NodeTest, ancs: Vec<NodeTest>) -> (r: SelClause)
    ensures
        r@ == (SelClauseV { t: t@, extra: Some(extra@), ancs: ancs.deep_view() }),
{
    SelClause { t, extra: Some(extra), ancs }
}

fn cls1(c: SelClause) -> (r: Vec<SelClause>)
    ensures
        r.deep_view() == seq![c@],
{
    let ghost cv = c@;
    let mut r: Vec<SelClause> = Vec::new();
    r.push(c);
    proof {
        assert(r.deep_view() =~= seq![cv]);
    }
    r
}

fn cls2(c1: SelClause, c2: SelClause) -> (r: Vec<SelClause>)
    ensures
        r.deep_view() == seq![c1@, c2@],
{
    let ghost cv1 = c1@;
    let ghost cv2 = c2@;
    let mut r: Vec<SelClause> = Vec::new();
    r.push(c1);
    r.push(c2);
    proof {
        assert(r.deep_view() =~= seq![cv1, cv2]);
    }
    r
}

fn cls3(c1: SelClause, c2: SelClause, c3: SelClause) -> (r: Vec<SelClause>)
    ensures
        r.deep_view() == seq![c1@, c2@, c3@],
{
    let ghost cv1 = c1@;
    let ghost cv2 = c2@;
    let ghost cv3 = c3@;
    let mut r: Vec<SelClause> = Vec::new();
    r.push(c1);
    r.push(c2);
    r.push(c3);
    proof {
        assert(r.deep_view() =~= seq![cv1, cv2, cv3]);
    }
    r
}

/// A strategy with the given clauses and link attribute and no extra
/// filters or transforms.
pub open spec fn plain_strategy_v(clauses: Seq<SelClauseV>, attr: LinkAttr) -> StrategyV {
    StrategyV {
        clauses,
        attr,
        f_dotdot: false,
        f_arrow: false,
        f_copy: false,
        f_snif: false,
        f_base_contains: false,
        f_sort: false,
        l_extra_paths: false,
        l_sort_suffix: false,
        l_empty_query: false,
        t_dls_fix: false,
        t_lighttpd: false,
    }
}

fn plain_strategy(clauses: Vec<SelClause>, attr: LinkAttr) -> (r: Strategy)
    ensures
        r@ == plain_strategy_v(clauses.deep_view(), attr),
{
    Strategy {
        clauses,
        attr,
        f_dotdot: false,
        f_arrow: false,
        f_copy: false,
        f_snif: false,
        f_base_contains: false,
        f_sort: false,
        l_extra_paths: false,
        l_sort_suffix: false,
        l_empty_query: false,
        t_dls_fix: false,
        t_lighttpd: false,
    }
}

/// A clause selecting anchors under a `tr`'s `td`.
pub open spec fn td_tr_anchor_v() -> SelClauseV {
    SelClauseV {
        t: NodeTestV::Tag("a"@),
        extra: None,
        ancs: seq![NodeTestV::Tag("td"@), NodeTestV::Tag("tr"@)],
    }
}

fn td_tr_anchor() -> (r: SelClause)
    ensures
        r@ == td_tr_anchor_v(),
{
    let c = cl(
        NodeTest::Tag(stg("a")),
        anc2(NodeTest::Tag(stg("td")), NodeTest::Tag(stg("tr"))),
    );
    proof {
        assert(c@.ancs =~= td_tr_anchor_v().ancs);
    }
    c
}

/// The generic strategy: every anchor, with the extra-path and
/// sort-query link filters.
pub open spec fn spec_generic_strategy() -> StrategyV {
    StrategyV {
        clauses: seq![
            SelClauseV { t: NodeTestV::Tag("a"@), extra: None, ancs: Seq::<NodeTestV>::empty() },
        ],
        attr: LinkAttr::Href,
        f_dotdot: false,
        f_arrow: false,
        f_copy: false,
        f_snif: false,
        f_base_contains: false,
        f_sort: false,
        l_extra_paths: true,
        l_sort_suffix: true,
        l_empty_query: false,
        t_dls_fix: false,
        t_lighttpd: false,
    }
}

fn generic_strategy() -> (r: Strategy)
    ensures
        r@ == spec_generic_strategy(),
{
    let clauses = cls1(cl(NodeTest::Tag(stg("a")), anc0()));
    let mut s = plain_strategy(clauses, LinkAttr::Href);
    s.l_extra_paths = true;
    s.l_sort_suffix = true;
    proof {
        assert(s@.clauses =~~= spec_generic_strategy().clauses);
    }
    s
}

} // verus!

verus! {

// ---------------------------------------------------------------------------
// The per-family strategies
// ---------------------------------------------------------------------------

/// OLAINDEX: anchors and list items inside the container `div`, the
/// `data-route` attribute preferred, extra path markers dropped.
pub open spec fn spec_olaindex_strategy() -> StrategyV {
    StrategyV {
        clauses: seq![
            SelClauseV {
                t: NodeTestV::Tag("a"@),
                extra: None,
                ancs: seq![NodeTestV::TagEitherClass("div"@, "mdui-container"@, "container"@)],
            },
            SelClauseV {
                t: NodeTestV::Tag("li"@),
                extra: None,
                ancs: seq![NodeTestV::TagEitherClass("div"@, "mdui-container"@, "container"@)],
            },
        ],
        attr: LinkAttr::DataRoutePreferred,
        f_dotdot: false,
        f_arrow: false,
        f_copy: false,
        f_snif: false,
        f_base_contains: false,
        f_sort: false,
        l_extra_paths: true,
        l_sort_suffix: false,
        l_empty_query: false,
        t_dls_fix: false,
        t_lighttpd: false,
    }
}

fn olaindex_strategy() -> (r: Strategy)
    ensures
        r@ == spec_olaindex_strategy(),
{
    let container1 = anc1(NodeTest::TagEitherClass(
        stg("div"),
        stg("mdui-container"),
        stg("container"),
    ));
    let container2 = anc1(NodeTest::TagEitherClass(
        stg("div"),
        stg("mdui-container"),
        stg("container"),
    ));
    let clauses = cls2(
        cl(NodeTest::Tag(stg("a")), container1),
        cl(NodeTest::Tag(stg("li")), container2),
    );
    let mut s = plain_strategy(clauses, LinkAttr::DataRoutePreferred);
    s.l_extra_paths = true;
    proof {
        assert(s@.clauses =~~= spec_olaindex_strategy().clauses);
    }
    s
}

/// Apache and nginx: anchors in table cells, `pre` blocks or list items,
/// with sort-query anchors dropped.
pub open spec fn spec_apache_strategy() -> StrategyV {
    StrategyV {
        clauses: seq![
            td_tr_anchor_v(),
            SelClauseV {
                t: NodeTestV::Tag("a"@),
                extra: None,
                ancs: seq![NodeTestV::Tag("pre"@)],
            },
            SelClauseV {
                t: NodeTestV::Tag("a"@),
                extra: None,
                ancs: seq![NodeTestV::Tag("li"@)],
            },
        ],
        attr: LinkAttr::Href,
        f_dotdot: false,
        f_arrow: false,
        f_copy: false,
        f_snif: false,
        f_base_contains: false,
        f_sort: true,
        l_extra_paths: false,
        l_sort_suffix: false,
        l_empty_query: false,
        t_dls_fix: false,
        t_lighttpd: false,
    }
}

fn apache_strategy() -> (r: Strategy)
    ensures
        r@ == spec_apache_strategy(),
{
    let clauses = cls3(
        td_tr_anchor(),
        cl(NodeTest::Tag(stg("a")), anc1(NodeTest::Tag(stg("pre")))),
        cl(NodeTest::Tag(stg("a")), anc1(NodeTest::Tag(stg("li")))),
    );
    let mut s = plain_strategy(clauses, LinkAttr::Href);
    s.f_sort = true;
    proof {
        assert(s@.clauses =~~= spec_apache_strategy().clauses);
    }
    s
}

/// AutoIndex PHP: breadcrumb anchors inside the table body.
pub open spec fn spec_autoindex_strategy() -> StrategyV {
    StrategyV {
        clauses: seq![
            SelClauseV {
                t: NodeTestV::WithClass("autoindex_a"@),
                extra: None,
                ancs: seq![NodeTestV::Tag("tbody"@)],
            },
            SelClauseV {
                t: NodeTestV::WithClass("default_a"@),
                extra: None,
                ancs: seq![NodeTestV::Tag("tbody"@)],
            },
        ],
        attr: LinkAttr::Href,
        f_dotdot: false,
        f_arrow: false,
        f_copy: false,
        f_snif: false,
        f_base_contains: false,
        f_sort: false,
        l_extra_paths: false,
        l_sort_suffix: false,
        l_empty_query: false,
        t_dls_fix: false,
        t_lighttpd: false,
    }
}

fn autoindex_strategy() -> (r: Strategy)
    ensures
        r@ == spec_autoindex_strategy(),
{
    let clauses = cls2(
        cl(NodeTest::WithClass(stg("autoindex_a")), anc1(NodeTest::Tag(stg("tbody")))),
        cl(NodeTest::WithClass(stg("default_a")), anc1(NodeTest::Tag(stg("tbody")))),
    );
    let s = plain_strategy(clauses, LinkAttr::Href);
    proof {
        assert(s@.clauses =~~= spec_autoindex_strategy().clauses);
    }
    s
}

/// Directory Lister: anchors in lists, links already inside the base
/// dropped.
pub open spec fn spec_directory_lister_strategy() -> StrategyV {
    StrategyV {
        clauses: seq![
            SelClauseV {
                t: NodeTestV::Tag("a"@),
                extra: None,
                ancs: seq![NodeTestV::Tag("ul"@)],
            },
        ],
        attr: LinkAttr::Href,
        f_dotdot: false,
        f_arrow: false,
        f_copy: false,
        f_snif: false,
        f_base_contains: true,
        f_sort: false,
        l_extra_paths: false,
        l_sort_suffix: false,
        l_empty_query: false,
        t_dls_fix: false,
        t_lighttpd: false,
    }
}

fn directory_lister_strategy() -> (r: Strategy)
    ensures
        r@ == spec_directory_lister_strategy(),
{
    let clauses = cls1(cl(NodeTest::Tag(stg("a")), anc1(NodeTest::Tag(stg("ul")))));
    let mut s = plain_strategy(clauses, LinkAttr::Href);
    s.f_base_contains = true;
    proof {
        assert(s@.clauses =~~= spec_directory_lister_strategy().clauses);
    }
    s
}

/// Evoluted Directory Listing Script: anchors in the listing container,
/// with its doubled-encoded-slash fix.
pub open spec fn spec_dls_strategy() -> StrategyV {
    StrategyV {
        clauses: seq![
            SelClauseV {
                t: NodeTestV::Tag("a"@),
                extra: None,
                ancs: seq![NodeTestV::AttrEq("id"@, "listingcontainer"@)],
            },
            SelClauseV {
                t: NodeTestV::Tag("a"@),
                extra: None,
                ancs: seq![NodeTestV::WithClass("table-container"@)],
            },
        ],
        attr: LinkAttr::Href,
        f_dotdot: false,
        f_arrow: false,
        f_copy: false,
        f_snif: false,
        f_base_contains: false,
        f_sort: false,
        l_extra_paths: false,
        l_sort_suffix: false,
        l_empty_query: false,
        t_dls_fix: true,
        t_lighttpd: false,
    }
}

fn dls_strategy() -> (r: Strategy)
    ensures
        r@ == spec_dls_strategy(),
{
    let clauses = cls2(
        cl(NodeTest::Tag(stg("a")), anc1(NodeTest::AttrEq(stg("id"), stg("listingcontainer")))),
        cl(NodeTest::Tag(stg("a")), anc1(NodeTest::WithClass(stg("table-container")))),
    );
    let mut s = plain_strategy(clauses, LinkAttr::Href);
    s.t_dls_fix = true;
    proof {
        assert(s@.clauses =~~= spec_dls_strategy().clauses);
    }
    s
}

/// phpBB: anchors in table cells, then `pre` blocks, then list items;
/// each drops the bundled `COPYING`/`AUTHORS` files and sort queries.
pub open spec fn spec_phpbb_strategy(stage: int) -> StrategyV {
    StrategyV {
        clauses: if stage == 0 {
            seq![td_tr_anchor_v()]
        } else if stage == 1 {
            seq![
                SelClauseV {
                    t: NodeTestV::Tag("a"@),
                    extra: None,
                    ancs: seq![NodeTestV::Tag("pre"@)],
                },
            ]
        } else {
            seq![
                SelClauseV {
                    t: NodeTestV::Tag("a"@),
                    extra: None,
                    ancs: seq![NodeTestV::Tag("li"@), NodeTestV::Tag("ul"@)],
                },
            ]
        },
        attr: LinkAttr::Href,
        f_dotdot: false,
        f_arrow: false,
        f_copy: true,
        f_snif: false,
        f_base_contains: false,
        f_sort: false,
        l_extra_paths: false,
        l_sort_suffix: true,
        l_empty_query: false,
        t_dls_fix: false,
        t_lighttpd: false,
    }
}

fn phpbb_strategy(stage: usize) -> (r: Strategy)
    requires
        stage <= 2,
    ensures
        r@ == spec_phpbb_strategy(stage as int),
{
    let clauses = if stage == 0 {
        cls1(td_tr_anchor())
    } else if stage == 1 {
        cls1(cl(NodeTest::Tag(stg("a")), anc1(NodeTest::Tag(stg("pre")))))
    } else {
        cls1(
            cl(
                NodeTest::Tag(stg("a")),
                anc2(NodeTest::Tag(stg("li")), NodeTest::Tag(stg("ul"))),
            ),
        )
    };
    let mut s = plain_strategy(clauses, LinkAttr::Href);
    s.f_copy = true;
    s.l_sort_suffix = true;
    proof {
        assert(s@.clauses =~~= spec_phpbb_strategy(stage as int).clauses);
    }
    s
}

/// OneIndex: container list anchors that are no download buttons, arrow
/// icons and empty queries dropped.
pub open spec fn spec_oneindex_strategy() -> StrategyV {
    StrategyV {
        clauses: seq![
            SelClauseV {
                t: NodeTestV::TagNotAttrEq("a"@, "title"@, "download"@),
                extra: Some(NodeTestV::TagNotAttrEq("a"@, "title"@, "\u{76f4}\u{63a5}\u{4e0b}\u{8f7d}"@)),
                ancs: seq![
                    NodeTestV::Tag("li"@),
                    NodeTestV::TagClass("div"@, "mdui-container"@),
                ],
            },
        ],
        attr: LinkAttr::Href,
        f_dotdot: false,
        f_arrow: true,
        f_copy: false,
        f_snif: false,
        f_base_contains: false,
        f_sort: false,
        l_extra_paths: false,
        l_sort_suffix: false,
        l_empty_query: true,
        t_dls_fix: false,
        t_lighttpd: false,
    }
}

fn oneindex_strategy() -> (r: Strategy)
    ensures
        r@ == spec_oneindex_strategy(),
{
    let clauses = cls1(
        cl2(
            NodeTest::TagNotAttrEq(stg("a"), stg("title"), stg("download")),
            NodeTest::TagNotAttrEq(stg("a"), stg("title"), stg("\u{76f4}\u{63a5}\u{4e0b}\u{8f7d}")),
            anc2(
                NodeTest::Tag(stg("li")),
                NodeTest::TagClass(stg("div"), stg("mdui-container")),
            ),
        ),
    );
    let mut s = plain_strategy(clauses, LinkAttr::Href);
    s.f_arrow = true;
    s.l_empty_query = true;
    proof {
        assert(s@.clauses =~~= spec_oneindex_strategy().clauses);
    }
    s
}

/// OneManager: file-cell anchors that are no download buttons.
pub open spec fn spec_onemanager_strategy() -> StrategyV {
    StrategyV {
        clauses: seq![
            SelClauseV {
                t: NodeTestV::TagNotClass("a"@, "download"@),
                extra: None,
                ancs: seq![NodeTestV::TagClass("td"@, "file"@)],
            },
        ],
        attr: LinkAttr::Href,
        f_dotdot: false,
        f_arrow: true,
        f_copy: false,
        f_snif: false,
        f_base_contains: false,
        f_sort: false,
        l_extra_paths: false,
        l_sort_suffix: false,
        l_empty_query: true,
        t_dls_fix: false,
        t_lighttpd: false,
    }
}

fn onemanager_strategy() -> (r: Strategy)
    ensures
        r@ == spec_onemanager_strategy(),
{
    let clauses = cls1(
        cl(
            NodeTest::TagNotClass(stg("a"), stg("download")),
            anc1(NodeTest::TagClass(stg("td"), stg("file"))),
        ),
    );
    let mut s = plain_strategy(clauses, LinkAttr::Href);
    s.f_arrow = true;
    s.l_empty_query = true;
    proof {
        assert(s@.clauses =~~= spec_onemanager_strategy().clauses);
    }
    s
}

/// Snif: anchors in the file rows, parent and duplicate download links
/// dropped.
pub open spec fn spec_snif_strategy() -> StrategyV {
    StrategyV {
        clauses: seq![
            SelClauseV {
                t: NodeTestV::Tag("a"@),
                extra: None,
                ancs: seq![NodeTestV::Tag("td"@), NodeTestV::TagClass("tr"@, "snF"@)],
            },
        ],
        attr: LinkAttr::Href,
        f_dotdot: false,
        f_arrow: false,
        f_copy: false,
        f_snif: true,
        f_base_contains: false,
        f_sort: false,
        l_extra_paths: false,
        l_sort_suffix: false,
        l_empty_query: false,
        t_dls_fix: false,
        t_lighttpd: false,
    }
}

fn snif_strategy() -> (r: Strategy)
    ensures
        r@ == spec_snif_strategy(),
{
    let clauses = cls1(
        cl(
            NodeTest::Tag(stg("a")),
            anc2(NodeTest::Tag(stg("td")), NodeTest::TagClass(stg("tr"), stg("snF"))),
        ),
    );
    let mut s = plain_strategy(clauses, LinkAttr::Href);
    s.f_snif = true;
    proof {
        assert(s@.clauses =~~= spec_snif_strategy().clauses);
    }
    s
}

/// PanIndex: `div` elements carrying a `data-url` link.
pub open spec fn spec_panindex_strategy() -> StrategyV {
    StrategyV {
        clauses: seq![
            SelClauseV {
                t: NodeTestV::TagAttrPresent("div"@, "data-url"@),
                extra: None,
                ancs: Seq::<NodeTestV>::empty(),
            },
        ],
        attr: LinkAttr::DataUrl,
        f_dotdot: false,
        f_arrow: false,
        f_copy: false,
        f_snif: false,
        f_base_contains: false,
        f_sort: false,
        l_extra_paths: false,
        l_sort_suffix: false,
        l_empty_query: false,
        t_dls_fix: false,
        t_lighttpd: false,
    }
}

fn panindex_strategy() -> (r: Strategy)
    ensures
        r@ == spec_panindex_strategy(),
{
    let clauses = cls1(cl(NodeTest::TagAttrPresent(stg("div"), stg("data-url")), anc0()));
    let s = plain_strategy(clauses, LinkAttr::DataUrl);
    proof {
        assert(s@.clauses =~~= spec_panindex_strategy().clauses);
    }
    s
}

/// OdIndex: item anchors, parent rows dropped by their dotted text.
pub open spec fn spec_odindex_strategy() -> StrategyV {
    StrategyV {
        clauses: seq![
            SelClauseV {
                t: NodeTestV::TagClass("a"@, "item"@),
                extra: None,
                ancs: Seq::<NodeTestV>::empty(),
            },
        ],
        attr: LinkAttr::Href,
        f_dotdot: true,
        f_arrow: false,
        f_copy: false,
        f_snif: false,
        f_base_contains: false,
        f_sort: false,
        l_extra_paths: false,
        l_sort_suffix: false,
        l_empty_query: false,
        t_dls_fix: false,
        t_lighttpd: false,
    }
}

fn odindex_strategy() -> (r: Strategy)
    ensures
        r@ == spec_odindex_strategy(),
{
    let clauses = cls1(cl(NodeTest::TagClass(stg("a"), stg("item")), anc0()));
    let mut s = plain_strategy(clauses, LinkAttr::Href);
    s.f_dotdot = true;
    proof {
        assert(s@.clauses =~~= spec_odindex_strategy().clauses);
    }
    s
}

/// Windex: anchors in table cells that are no heading cells, sort
/// queries dropped.
pub open spec fn spec_windex_strategy() -> StrategyV {
    StrategyV {
        clauses: seq![
            SelClauseV {
                t: NodeTestV::Tag("a"@),
                extra: None,
                ancs: seq![
                    NodeTestV::TagNotAttrEq("td"@, "valign"@, "top"@),
                    NodeTestV::Tag("tr"@),
                ],
            },
        ],
        attr: LinkAttr::Href,
        f_dotdot: false,
        f_arrow: false,
        f_copy: false,
        f_snif: false,
        f_base_contains: false,
        f_sort: true,
        l_extra_paths: false,
        l_sort_suffix: false,
        l_empty_query: false,
        t_dls_fix: false,
        t_lighttpd: false,
    }
}

fn windex_strategy() -> (r: Strategy)
    ensures
        r@ == spec_windex_strategy(),
{
    let clauses = cls1(
        cl(
            NodeTest::Tag(stg("a")),
            anc2(
                NodeTest::TagNotAttrEq(stg("td"), stg("valign"), stg("top")),
                NodeTest::Tag(stg("tr")),
            ),
        ),
    );
    let mut s = plain_strategy(clauses, LinkAttr::Href);
    s.f_sort = true;
    proof {
        assert(s@.clauses =~~= spec_windex_strategy().clauses);
    }
    s
}

/// Apache Directory Listing: anchors in the name column of the index
/// table.
pub open spec fn spec_adl_strategy() -> StrategyV {
    StrategyV {
        clauses: seq![
            SelClauseV {
                t: NodeTestV::Tag("a"@),
                extra: None,
                ancs: seq![
                    NodeTestV::TagClass("td"@, "indexcolname"@),
                    NodeTestV::Tag("tr"@),
                    NodeTestV::TagAttrEq("table"@, "id"@, "indexlist"@),
                ],
            },
        ],
        attr: LinkAttr::Href,
        f_dotdot: false,
        f_arrow: false,
        f_copy: false,
        f_snif: false,
        f_base_contains: false,
        f_sort: false,
        l_extra_paths: false,
        l_sort_suffix: false,
        l_empty_query: false,
        t_dls_fix: false,
        t_lighttpd: false,
    }
}

fn adl_strategy() -> (r: Strategy)
    ensures
        r@ == spec_adl_strategy(),
{
    let mut ancs: Vec<NodeTest> = Vec::new();
    ancs.push(NodeTest::TagClass(stg("td"), stg("indexcolname")));
    ancs.push(NodeTest::Tag(stg("tr")));
    ancs.push(NodeTest::TagAttrEq(stg("table"), stg("id"), stg("indexlist")));
    proof {
        assert(ancs.deep_view() =~= seq![
            NodeTestV::TagClass("td"@, "indexcolname"@),
            NodeTestV::Tag("tr"@),
            NodeTestV::TagAttrEq("table"@, "id"@, "indexlist"@),
        ]);
    }
    let clauses = cls1(cl(NodeTest::Tag(stg("a")), ancs));
    let s = plain_strategy(clauses, LinkAttr::Href);
    proof {
        assert(s@.clauses =~~= spec_adl_strategy().clauses);
    }
    s
}

/// eyy-indexer: anchors in the inner file table (never the download
/// table).
pub open spec fn spec_eyy_strategy() -> StrategyV {
    StrategyV {
        clauses: seq![
            SelClauseV {
                t: NodeTestV::Tag("a"@),
                extra: None,
                ancs: seq![
                    NodeTestV::TagNotClass("table"@, "download"@),
                    NodeTestV::Tag("table"@),
                ],
            },
        ],
        attr: LinkAttr::Href,
        f_dotdot: false,
        f_arrow: false,
        f_copy: false,
        f_snif: false,
        f_base_contains: false,
        f_sort: false,
        l_extra_paths: false,
        l_sort_suffix: false,
        l_empty_query: false,
        t_dls_fix: false,
        t_lighttpd: false,
    }
}

fn eyy_strategy() -> (r: Strategy)
    ensures
        r@ == spec_eyy_strategy(),
{
    let clauses = cls1(
        cl(
            NodeTest::Tag(stg("a")),
            anc2(
                NodeTest::TagNotClass(stg("table"), stg("download")),
                NodeTest::Tag(stg("table")),
            ),
        ),
    );
    let s = plain_strategy(clauses, LinkAttr::Href);
    proof {
        assert(s@.clauses =~~= spec_eyy_strategy().clauses);
    }
    s
}

/// FancyIndex: anchors in the table body cells.
pub open spec fn spec_fancy_strategy() -> StrategyV {
    StrategyV {
        clauses: seq![
            SelClauseV {
                t: NodeTestV::Tag("a"@),
                extra: None,
                ancs: seq![NodeTestV::Tag("td"@), NodeTestV::Tag("tbody"@)],
            },
        ],
        attr: LinkAttr::Href,
        f_dotdot: false,
        f_arrow: false,
        f_copy: false,
        f_snif: false,
        f_base_contains: false,
        f_sort: false,
        l_extra_paths: false,
        l_sort_suffix: false,
        l_empty_query: false,
        t_dls_fix: false,
        t_lighttpd: false,
    }
}

fn fancy_strategy() -> (r: Strategy)
    ensures
        r@ == spec_fancy_strategy(),
{
    let clauses = cls1(
        cl(
            NodeTest::Tag(stg("a")),
            anc2(NodeTest::Tag(stg("td")), NodeTest::Tag(stg("tbody"))),
        ),
    );
    let s = plain_strategy(clauses, LinkAttr::Href);
    proof {
        assert(s@.clauses =~~= spec_fancy_strategy().clauses);
    }
    s
}

/// A.B.: anchors in item cells of the table body.
pub open spec fn spec_ab_strategy() -> StrategyV {
    StrategyV {
        clauses: seq![
            SelClauseV {
                t: NodeTestV::Tag("a"@),
                extra: None,
                ancs: seq![NodeTestV::TagClass("td"@, "item"@), NodeTestV::Tag("tbody"@)],
            },
        ],
        attr: LinkAttr::Href,
        f_dotdot: false,
        f_arrow: false,
        f_copy: false,
        f_snif: false,
        f_base_contains: false,
        f_sort: false,
        l_extra_paths: false,
        l_sort_suffix: false,
        l_empty_query: false,
        t_dls_fix: false,
        t_lighttpd: false,
    }
}

fn ab_strategy() -> (r: Strategy)
    ensures
        r@ == spec_ab_strategy(),
{
    let clauses = cls1(
        cl(
            NodeTest::Tag(stg("a")),
            anc2(NodeTest::TagClass(stg("td"), stg("item")), NodeTest::Tag(stg("tbody"))),
        ),
    );
    let s = plain_strategy(clauses, LinkAttr::Href);
    proof {
        assert(s@.clauses =~~= spec_ab_strategy().clauses);
    }
    s
}

/// lighttpd: anchors in table cells, names completed with their
/// directory slash, extra path markers dropped.
pub open spec fn spec_lighttpd_strategy() -> StrategyV {
    StrategyV {
        clauses: seq![td_tr_anchor_v()],
        attr: LinkAttr::Href,
        f_dotdot: false,
        f_arrow: false,
        f_copy: false,
        f_snif: false,
        f_base_contains: false,
        f_sort: false,
        l_extra_paths: true,
        l_sort_suffix: false,
        l_empty_query: false,
        t_dls_fix: false,
        t_lighttpd: true,
    }
}

fn lighttpd_strategy() -> (r: Strategy)
    ensures
        r@ == spec_lighttpd_strategy(),
{
    let clauses = cls1(td_tr_anchor());
    let mut s = plain_strategy(clauses, LinkAttr::Href);
    s.l_extra_paths = true;
    s.t_lighttpd = true;
    proof {
        assert(s@.clauses =~~= spec_lighttpd_strategy().clauses);
    }
    s
}

/// Indices: anchors in table cells.
pub open spec fn spec_indices_strategy() -> StrategyV {
    StrategyV {
        clauses: seq![td_tr_anchor_v()],
        attr: LinkAttr::Href,
        f_dotdot: false,
        f_arrow: false,
        f_copy: false,
        f_snif: false,
        f_base_contains: false,
        f_sort: false,
        l_extra_paths: false,
        l_sort_suffix: false,
        l_empty_query: false,
        t_dls_fix: false,
        t_lighttpd: false,
    }
}

fn indices_strategy() -> (r: Strategy)
    ensures
        r@ == spec_indices_strategy(),
{
    let clauses = cls1(td_tr_anchor());
    let s = plain_strategy(clauses, LinkAttr::Href);
    proof {
        assert(s@.clauses =~~= spec_indices_strategy().clauses);
    }
    s
}

} // verus!

verus! {

// ---------------------------------------------------------------------------
// Dispatch
// ---------------------------------------------------------------------------

/// The strategy a family extracts with; families without a structural
/// query of their own use the generic one.
pub open spec fn spec_strategy_of(od: ODMethod) -> StrategyV {
    match od {
        ODMethod::OLAINDEX => spec_olaindex_strategy(),
        ODMethod::AutoIndexPHP => spec_autoindex_strategy(),
        ODMethod::AutoIndexPHPNoCrumb => spec_autoindex_strategy(),
        ODMethod::DirectoryLister => spec_directory_lister_strategy(),
        ODMethod::DirectoryListingScript => spec_dls_strategy(),
        ODMethod::PHPBB => spec_phpbb_strategy(0),
        ODMethod::OneIndex => spec_oneindex_strategy(),
        ODMethod::OneManager => spec_onemanager_strategy(),
        ODMethod::Snif => spec_snif_strategy(),
        ODMethod::PanIndex => spec_panindex_strategy(),
        ODMethod::OdIndex => spec_odindex_strategy(),
        ODMethod::Windex => spec_windex_strategy(),
        ODMethod::ApacheDirectoryListing => spec_adl_strategy(),
        ODMethod::EyyIndexer => spec_eyy_strategy(),
        ODMethod::FancyIndex => spec_fancy_strategy(),
        ODMethod::AB => spec_ab_strategy(),
        ODMethod::LightTPD => spec_lighttpd_strategy(),
        ODMethod::Apache => spec_apache_strategy(),
        ODMethod::NGINX => spec_apache_strategy(),
        ODMethod::Indices => spec_indices_strategy(),
        _ => spec_generic_strategy(),
    }
}

/// What extraction yields for a family: its strategy's links, with the
/// phpBB and OneManager fallback cascades.
pub open spec fn spec_filtered_links(
    dv: Seq<HtmlNodeV>,
    url: Seq<char>,
    od: ODMethod,
) -> Seq<Seq<char>> {
    if od == ODMethod::PHPBB {
        let first = spec_search(dv, url, spec_phpbb_strategy(0));
        if first.len() > 0 {
            first
        } else {
            let second = spec_search(dv, url, spec_phpbb_strategy(1));
            if second.len() > 0 {
                second
            } else {
                spec_search(dv, url, spec_phpbb_strategy(2))
            }
        }
    } else if od == ODMethod::OneManager {
        let first = spec_search(dv, url, spec_onemanager_strategy());
        if first.len() > 0 {
            first
        } else {
            spec_search(dv, url, spec_oneindex_strategy())
        }
    } else {
        spec_search(dv, url, spec_strategy_of(od))
    }
}

/// Extracts the raw links of an already-parsed page under the family's
/// strategy.
pub fn links_from_doc(doc: &HtmlDoc, url: &str, od_type: &ODMethod) -> (r: Vec<String>)
    requires
        doc.wf(),
    ensures
        r.deep_view() == spec_filtered_links(doc@, url@, *od_type),
{
    match od_type {
        ODMethod::PHPBB => {
            let first = search_with(doc, url, &phpbb_strategy(0));
            if first.len() > 0 {
                return first;
            }
            let second = search_with(doc, url, &phpbb_strategy(1));
            if second.len() > 0 {
                return second;
            }
            search_with(doc, url, &phpbb_strategy(2))
        },
        ODMethod::OneManager => {
            let first = search_with(doc, url, &onemanager_strategy());
            if first.len() > 0 {
                return first;
            }
            search_with(doc, url, &oneindex_strategy())
        },
        ODMethod::OLAINDEX => search_with(doc, url, &olaindex_strategy()),
        ODMethod::AutoIndexPHP => search_with(doc, url, &autoindex_strategy()),
        ODMethod::AutoIndexPHPNoCrumb => search_with(doc, url, &autoindex_strategy()),
        ODMethod::DirectoryLister => search_with(doc, url, &directory_lister_strategy()),
        ODMethod::DirectoryListingScript => search_with(doc, url, &dls_strategy()),
        ODMethod::OneIndex => search_with(doc, url, &oneindex_strategy()),
        ODMethod::Snif => search_with(doc, url, &snif_strategy()),
        ODMethod::PanIndex => search_with(doc, url, &panindex_strategy()),
        ODMethod::OdIndex => search_with(doc, url, &odindex_strategy()),
        ODMethod::Windex => search_with(doc, url, &windex_strategy()),
        ODMethod::ApacheDirectoryListing => search_with(doc, url, &adl_strategy()),
        ODMethod::EyyIndexer => search_with(doc, url, &eyy_strategy()),
        ODMethod::FancyIndex => search_with(doc, url, &fancy_strategy()),
        ODMethod::AB => search_with(doc, url, &ab_strategy()),
        ODMethod::LightTPD => search_with(doc, url, &lighttpd_strategy()),
        ODMethod::Apache => search_with(doc, url, &apache_strategy()),
        ODMethod::NGINX => search_with(doc, url, &apache_strategy()),
        ODMethod::Indices => search_with(doc, url, &indices_strategy()),
        _ => search_with(doc, url, &generic_strategy()),
    }
}

/// Parses the page and extracts its raw links under the family's
/// strategy, exactly as the named parse of the page yields them.
pub fn filtered_links(res: &str, url: &str, od_type: &ODMethod) -> (r: Vec<String>)
    ensures
        r.deep_view() == spec_filtered_links(crate::dom::spec_parse(res@), url@, *od_type),
{
    let doc = crate::dom::parse_document(res);
    links_from_doc(&doc, url, od_type)
}

} // verus!
