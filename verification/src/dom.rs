//! A parsed HTML page, modeled as a flat vector of nodes in document
//! order: elements, comments and text nodes, each with its parent index.
//! The `select` crate does the parsing; everything read out of the tree
//! afterwards — names, attributes, combined text, ancestor chains — is
//! plain data that the classifier and extractors reason about exactly.

use vstd::prelude::*;
use vstd::string::StringExecFns;
use crate::text::{chars_of, string_of, contains_at, seq_contains, subvec, is_alnum_char};

verus! {

/// One node of a parsed page.
pub struct HtmlNode {
    pub parent: Option<usize>,
    pub is_comment: bool,
    pub is_text: bool,
    pub name: String,
    pub text: String,
    pub attr_names: Vec<String>,
    pub attr_values: Vec<String>,
}

/// Mathematical shape of one node: its attributes are a map from name to
/// first value, so no attribute order exists at the spec level.
pub struct HtmlNodeV {
    pub parent: Option<int>,
    pub is_comment: bool,
    pub is_text: bool,
    pub name: Seq<char>,
    pub text: Seq<char>,
    pub attrs: Map<Seq<char>, Seq<char>>,
}

/// The attribute map of parallel name/value sequences: the first
/// occurrence of a name wins.
pub open spec fn attrs_map(ns: Seq<Seq<char>>, vs: Seq<Seq<char>>) -> Map<Seq<char>, Seq<char>>
    decreases ns.len(),
{
    if ns.len() == 0 || vs.len() == 0 {
        Map::<Seq<char>, Seq<char>>::empty()
    } else {
        attrs_map(ns.skip(1), vs.skip(1)).insert(ns[0], vs[0])
    }
}

impl View for HtmlNode {
    type V = HtmlNodeV;

    open spec fn view(&self) -> HtmlNodeV {
        HtmlNodeV {
            parent: match self.parent {
                Some(p) => Some(p as int),
                None => None,
            },
            is_comment: self.is_comment,
            is_text: self.is_text,
            name: self.name@,
            text: self.text@,
            attrs: attrs_map(self.attr_names.deep_view(), self.attr_values.deep_view()),
        }
    }
}

impl DeepView for HtmlNode {
    type V = HtmlNodeV;

    open spec fn deep_view(&self) -> HtmlNodeV {
        self.view()
    }
}

/// A parsed page: nodes in document order, every parent before its
/// children.
pub struct HtmlDoc {
    nodes: Vec<HtmlNode>,
}

impl View for HtmlDoc {
    type V = Seq<HtmlNodeV>;

    closed spec fn view(&self) -> Seq<HtmlNodeV> {
        self.nodes@.map_values(|n: HtmlNode| n@)
    }
}

/// The parent reference, if any, points strictly backwards from `i`.
pub open spec fn parent_ok(nv: HtmlNodeV, i: int) -> bool {
    match nv.parent {
        Some(p) => 0 <= p < i,
        None => true,
    }
}

/// The node with any parent reference that does not point strictly
/// backwards from `i` turned into no parent at all.
pub open spec fn clamp_node(nv: HtmlNodeV, i: int) -> HtmlNodeV {
    HtmlNodeV {
        parent: match nv.parent {
            Some(p) => if 0 <= p < i {
                Some(p)
            } else {
                None
            },
            None => None,
        },
        is_comment: nv.is_comment,
        is_text: nv.is_text,
        name: nv.name,
        text: nv.text,
        attrs: nv.attrs,
    }
}

/// A node sequence with every parent reference clamped.
pub open spec fn spec_clamp(dv: Seq<HtmlNodeV>) -> Seq<HtmlNodeV> {
    Seq::new(dv.len(), |i: int| clamp_node(dv[i], i))
}

/// Every node's parent stands strictly before it.
pub open spec fn wf_doc(dv: Seq<HtmlNodeV>) -> bool {
    forall|i: int| 0 <= i < dv.len() ==> parent_ok(#[trigger] dv[i], i)
}

impl HtmlDoc {
    pub open spec fn wf(&self) -> bool {
        wf_doc(self@)
    }

    pub open spec fn spec_len(&self) -> nat {
        self@.len()
    }

    pub fn len(&self) -> (r: usize)
        ensures
            r == self.spec_len(),
    {
        self.nodes.len()
    }

    pub fn node(&self, i: usize) -> (r: &HtmlNode)
        requires
            i < self.spec_len(),
        ensures
            r@ == self@[i as int],
    {
        &self.nodes[i]
    }

    /// Builds a page from raw nodes, turning any parent reference that
    /// does not point strictly backwards into no parent at all.
    #[verifier::loop_isolation(false)]
    pub fn from_nodes(raw: Vec<HtmlNode>) -> (r: HtmlDoc)
        ensures
            r.wf(),
            r@ == spec_clamp(raw.deep_view()),
    {
        let ghost raw0 = raw@;
        let ghost rawdeep = raw.deep_view();
        let mut nodes = raw;
        let n = nodes.len();
        let mut i: usize = 0;
        while i < n
            invariant
                n == nodes@.len(),
                nodes@.len() == raw0.len(),
                0 <= i <= n,
                forall|j: int| i <= j < n ==> nodes@[j] == raw0[j],
                forall|j: int| 0 <= j < i ==> #[trigger] nodes@[j]@ == clamp_node(raw0[j]@, j),
            decreases n - i,
        {
            let bad = match nodes[i].parent {
                Some(p) => p >= i,
                None => false,
            };
            if bad {
                nodes[i].parent = None;
            }
            i = i + 1;
        }
        let doc = HtmlDoc { nodes };
        proof {
            assert(forall|j: int| 0 <= j < raw0.len() ==> raw0[j]@ == rawdeep[j]);
            assert(doc@ =~= spec_clamp(rawdeep)) by {
                assert(forall|j: int| 0 <= j < doc@.len() ==> doc@[j] == doc.nodes@[j]@);
            }
            assert forall|j: int| 0 <= j < doc@.len() implies parent_ok(#[trigger] doc@[j], j) by {
                assert(doc@[j] == clamp_node(raw0[j]@, j));
            }
        }
        doc
    }
}

// ---------------------------------------------------------------------------
// Ancestors
// ---------------------------------------------------------------------------

/// The indices of the node's ancestors.
pub open spec fn ancestors(dv: Seq<HtmlNodeV>, i: int) -> Set<int>
    recommends
        wf_doc(dv),
        0 <= i < dv.len(),
    decreases i,
{
    if 0 <= i < dv.len() {
        match dv[i].parent {
            Some(p) => if 0 <= p < i {
                ancestors(dv, p).insert(p)
            } else {
                Set::<int>::empty()
            },
            None => Set::<int>::empty(),
        }
    } else {
        Set::<int>::empty()
    }
}

/// Every ancestor index is a valid node index below `i`.
pub proof fn lemma_ancestors_bounded(dv: Seq<HtmlNodeV>, i: int)
    ensures
        forall|j: int| ancestors(dv, i).contains(j) ==> 0 <= j < i && j < dv.len(),
    decreases i,
{
    if 0 <= i < dv.len() {
        match dv[i].parent {
            Some(p) => {
                if 0 <= p < i {
                    lemma_ancestors_bounded(dv, p);
                    assert forall|j: int| ancestors(dv, i).contains(j) implies 0 <= j < i && j
                        < dv.len() by {
                        if j != p {
                            assert(ancestors(dv, p).contains(j));
                        }
                    }
                }
            },
            None => {},
        }
    }
}

} // verus!

verus! {

// ---------------------------------------------------------------------------
// Attribute lookup
// ---------------------------------------------------------------------------

/// The attribute map holds exactly the names of the list.
pub proof fn lemma_attrs_map_domain(ns: Seq<Seq<char>>, vs: Seq<Seq<char>>, k: Seq<char>)
    requires
        ns.len() == vs.len(),
    ensures
        attrs_map(ns, vs).contains_key(k) <==> exists|i: int| 0 <= i < ns.len() && ns[i] == k,
    decreases ns.len(),
{
    if ns.len() > 0 {
        lemma_attrs_map_domain(ns.skip(1), vs.skip(1), k);
        if ns[0] == k {
            assert(attrs_map(ns, vs).contains_key(k));
        } else if attrs_map(ns, vs).contains_key(k) {
            let i = choose|i: int| 0 <= i < ns.skip(1).len() && ns.skip(1)[i] == k;
            assert(ns[i + 1] == k);
        } else {
            if exists|i: int| 0 <= i < ns.len() && ns[i] == k {
                let i = choose|i: int| 0 <= i < ns.len() && ns[i] == k;
                assert(ns.skip(1)[i - 1] == k);
            }
        }
    }
}

/// The attribute map returns the value at the first occurrence of a name.
pub proof fn lemma_attrs_map_first(ns: Seq<Seq<char>>, vs: Seq<Seq<char>>, i: int)
    requires
        ns.len() == vs.len(),
        0 <= i < ns.len(),
        forall|j: int| 0 <= j < i ==> ns[j] != ns[i],
    ensures
        attrs_map(ns, vs).contains_key(ns[i]),
        attrs_map(ns, vs)[ns[i]] == vs[i],
    decreases ns.len(),
{
    if i == 0 {
    } else {
        assert(ns.skip(1)[i - 1] == ns[i]);
        assert(vs.skip(1)[i - 1] == vs[i]);
        assert(forall|j: int| 0 <= j < i - 1 ==> ns.skip(1)[j] == ns[j + 1]);
        lemma_attrs_map_first(ns.skip(1), vs.skip(1), i - 1);
    }
}

impl HtmlNode {
    /// The value of the attribute `name`, as the first occurrence gives it.
    #[verifier::loop_isolation(false)]
    pub fn attr(&self, name: &Vec<char>) -> (r: Option<Vec<char>>)
        ensures
            match r {
                Some(val) => self@.attrs.contains_key(name@) && self@.attrs[name@] == val@,
                None => !self@.attrs.contains_key(name@),
            },
    {
        let n = if self.attr_names.len() <= self.attr_values.len() {
            self.attr_names.len()
        } else {
            self.attr_values.len()
        };
        let ghost ns = self.attr_names.deep_view();
        let ghost vs = self.attr_values.deep_view();
        let mut i: usize = 0;
        while i < n
            invariant
                0 <= i <= n,
                n <= ns.len() && n <= vs.len(),
                forall|j: int| 0 <= j < i ==> ns[j] != name@,
            decreases n - i,
        {
            let an = chars_of(self.attr_names[i].as_str());
            assert(an@ == ns[i as int]);
            if crate::parser::eq_chars(&an, name) {
                let val = chars_of(self.attr_values[i].as_str());
                proof {
                    if ns.len() == vs.len() {
                        lemma_attrs_map_first(ns, vs, i as int);
                    } else {
                        lemma_attrs_map_mixed(ns, vs, i as int);
                    }
                }
                return Some(val);
            }
            i = i + 1;
        }
        proof {
            if n < ns.len() && n < vs.len() {
            } else {
                lemma_attrs_map_none(ns, vs, name@);
            }
        }
        None
    }
}

/// Lookup in a map of unequal-length lists still finds the first pair.
pub proof fn lemma_attrs_map_mixed(ns: Seq<Seq<char>>, vs: Seq<Seq<char>>, i: int)
    requires
        0 <= i < ns.len(),
        i < vs.len(),
        forall|j: int| 0 <= j < i ==> ns[j] != ns[i],
    ensures
        attrs_map(ns, vs).contains_key(ns[i]),
        attrs_map(ns, vs)[ns[i]] == vs[i],
    decreases ns.len(),
{
    if i == 0 {
    } else {
        assert(ns.skip(1)[i - 1] == ns[i]);
        assert(vs.skip(1)[i - 1] == vs[i]);
        assert(forall|j: int| 0 <= j < i - 1 ==> ns.skip(1)[j] == ns[j + 1]);
        lemma_attrs_map_mixed(ns.skip(1), vs.skip(1), i - 1);
    }
}

/// A name that occurs in neither list prefix is no key of the map.
pub proof fn lemma_attrs_map_none(ns: Seq<Seq<char>>, vs: Seq<Seq<char>>, k: Seq<char>)
    requires
        forall|j: int| 0 <= j < ns.len() && j < vs.len() ==> ns[j] != k,
    ensures
        !attrs_map(ns, vs).contains_key(k),
    decreases ns.len(),
{
    if ns.len() > 0 && vs.len() > 0 {
        assert(forall|j: int|
            0 <= j < ns.skip(1).len() && j < vs.skip(1).len() ==> ns.skip(1)[j] == ns[j + 1]
                && ns.skip(1)[j] != k);
        lemma_attrs_map_none(ns.skip(1), vs.skip(1), k);
    }
}

} // verus!

verus! {

// ---------------------------------------------------------------------------
// Node tests
// ---------------------------------------------------------------------------

/// The node is an HTML element (neither a comment nor raw text).
pub open spec fn spec_is_element(nv: HtmlNodeV) -> bool {
    !nv.is_comment && !nv.is_text
}

pub open spec fn is_space_char(c: char) -> bool {
    c == ' ' || c == '\t' || c == '\n' || c == '\r'
}

/// `c` stands in the whitespace-separated list `val` as a whole token.
pub open spec fn class_list_has(val: Seq<char>, c: Seq<char>) -> bool {
    c.len() > 0 && exists|i: int|
        #![trigger contains_at(val, c, i)]
        contains_at(val, c, i) && (i == 0 || is_space_char(val[i - 1])) && (i + c.len()
            == val.len() || is_space_char(val[i + c.len()]))
}

/// The element carries `c` among its classes.
pub open spec fn spec_has_class(nv: HtmlNodeV, c: Seq<char>) -> bool {
    nv.attrs.contains_key("class"@) && class_list_has(nv.attrs["class"@], c)
}

#[verifier::loop_isolation(false)]
fn class_list_has_exec(val: &Vec<char>, c: &Vec<char>) -> (r: bool)
    ensures
        r == class_list_has(val@, c@),
{
    let n = val.len();
    let m = c.len();
    if m == 0 {
        return false;
    }
    if m > n {
        assert(forall|i: int| !contains_at(val@, c@, i));
        return false;
    }
    let last = n - m;
    let mut i: usize = 0;
    while i <= last
        invariant
            0 <= i <= last + 1,
            forall|j: int|
                0 <= j < i ==> !(contains_at(val@, c@, j) && (j == 0 || is_space_char(
                    val@[j - 1],
                )) && (j + c@.len() == val@.len() || is_space_char(val@[j + c@.len()]))),
        decreases last + 1 - i,
    {
        if crate::text::eq_at(val, c, i) {
            let pre_ok = i == 0 || {
                let ch = val[i - 1];
                ch == ' ' || ch == '\t' || ch == '\n' || ch == '\r'
            };
            let post_ok = i + m == n || {
                let ch = val[i + m];
                ch == ' ' || ch == '\t' || ch == '\n' || ch == '\r'
            };
            if pre_ok && post_ok {
                return true;
            }
        }
        i = i + 1;
    }
    assert(forall|j: int| contains_at(val@, c@, j) ==> 0 <= j <= last);
    false
}

impl HtmlNode {
    /// Whether the element carries the class `c`.
    pub fn has_class(&self, c: &str) -> (r: bool)
        ensures
            r == spec_has_class(self@, c@),
    {
        let cls = chars_of("class");
        proof {
            reveal_strlit("class");
        }
        match self.attr(&cls) {
            Some(val) => {
                let cv = chars_of(c);
                class_list_has_exec(&val, &cv)
            },
            None => false,
        }
    }

    /// Whether the element's name is `t`.
    pub fn named(&self, t: &str) -> (r: bool)
        ensures
            r == (spec_is_element(self@) && self@.name == t@),
    {
        if self.is_comment || self.is_text {
            return false;
        }
        let n = chars_of(self.name.as_str());
        let tv = chars_of(t);
        crate::parser::eq_chars(&n, &tv)
    }

    /// Whether the attribute `a` holds exactly `v`.
    pub fn attr_is(&self, a: &str, v: &str) -> (r: bool)
        ensures
            r == (self@.attrs.contains_key(a@) && self@.attrs[a@] == v@),
    {
        let av = chars_of(a);
        match self.attr(&av) {
            Some(val) => {
                let vv = chars_of(v);
                crate::parser::eq_chars(&val, &vv)
            },
            None => false,
        }
    }

    /// Whether the attribute `a` is present at all.
    pub fn has_attr(&self, a: &str) -> (r: bool)
        ensures
            r == self@.attrs.contains_key(a@),
    {
        let av = chars_of(a);
        match self.attr(&av) {
            Some(_) => true,
            None => false,
        }
    }
}

/// A structural test on one node: what the per-family selectors ask of an
/// element, a class list, an attribute or a comment.
pub enum NodeTest {
    Tag(String),
    WithClass(String),
    AttrEq(String, String),
    TagAttrEq(String, String, String),
    TagAttrPresent(String, String),
    TagClass(String, String),
    TagEitherClass(String, String, String),
    TagNotClass(String, String),
    TagNotAttrEq(String, String, String),
    AnyComment,
}

/// Mathematical shape of a structural test.
pub enum NodeTestV {
    Tag(Seq<char>),
    WithClass(Seq<char>),
    AttrEq(Seq<char>, Seq<char>),
    TagAttrEq(Seq<char>, Seq<char>, Seq<char>),
    TagAttrPresent(Seq<char>, Seq<char>),
    TagClass(Seq<char>, Seq<char>),
    TagEitherClass(Seq<char>, Seq<char>, Seq<char>),
    TagNotClass(Seq<char>, Seq<char>),
    TagNotAttrEq(Seq<char>, Seq<char>, Seq<char>),
    AnyComment,
}

impl View for NodeTest {
    type V = NodeTestV;

    open spec fn view(&self) -> NodeTestV {
        match self {
            NodeTest::Tag(s) => NodeTestV::Tag(s@),
            NodeTest::WithClass(c) => NodeTestV::WithClass(c@),
            NodeTest::AttrEq(a, v) => NodeTestV::AttrEq(a@, v@),
            NodeTest::TagAttrEq(s, a, v) => NodeTestV::TagAttrEq(s@, a@, v@),
            NodeTest::TagAttrPresent(s, a) => NodeTestV::TagAttrPresent(s@, a@),
            NodeTest::TagClass(s, c) => NodeTestV::TagClass(s@, c@),
            NodeTest::TagEitherClass(s, c1, c2) => NodeTestV::TagEitherClass(s@, c1@, c2@),
            NodeTest::TagNotClass(s, c) => NodeTestV::TagNotClass(s@, c@),
            NodeTest::TagNotAttrEq(s, a, v) => NodeTestV::TagNotAttrEq(s@, a@, v@),
            NodeTest::AnyComment => NodeTestV::AnyComment,
        }
    }
}

impl DeepView for NodeTest {
    type V = NodeTestV;

    open spec fn deep_view(&self) -> NodeTestV {
        self.view()
    }
}

pub open spec fn spec_node_test(nv: HtmlNodeV, t: NodeTestV) -> bool {
    match t {
        NodeTestV::Tag(s) => spec_is_element(nv) && nv.name == s,
        NodeTestV::WithClass(c) => spec_is_element(nv) && spec_has_class(nv, c),
        NodeTestV::AttrEq(a, v) => spec_is_element(nv) && nv.attrs.contains_key(a) && nv.attrs[a]
            == v,
        NodeTestV::TagAttrEq(s, a, v) => spec_is_element(nv) && nv.name == s
            && nv.attrs.contains_key(a) && nv.attrs[a] == v,
        NodeTestV::TagAttrPresent(s, a) => spec_is_element(nv) && nv.name == s
            && nv.attrs.contains_key(a),
        NodeTestV::TagClass(s, c) => spec_is_element(nv) && nv.name == s && spec_has_class(nv, c),
        NodeTestV::TagEitherClass(s, c1, c2) => spec_is_element(nv) && nv.name == s && (
        spec_has_class(nv, c1) || spec_has_class(nv, c2)),
        NodeTestV::TagNotClass(s, c) => spec_is_element(nv) && nv.name == s && !spec_has_class(
            nv,
            c,
        ),
        NodeTestV::TagNotAttrEq(s, a, v) => spec_is_element(nv) && nv.name == s && !(
        nv.attrs.contains_key(a) && nv.attrs[a] == v),
        NodeTestV::AnyComment => nv.is_comment,
    }
}

/// Applies a structural test to one node.
pub fn node_test(node: &HtmlNode, t: &NodeTest) -> (r: bool)
    ensures
        r == spec_node_test(node@, t@),
{
    match t {
        NodeTest::Tag(s) => node.named(s.as_str()),
        NodeTest::TagAttrEq(s, a, v) => node.named(s.as_str()) && node.attr_is(
            a.as_str(),
            v.as_str(),
        ),
        NodeTest::TagAttrPresent(s, a) => node.named(s.as_str()) && node.has_attr(a.as_str()),
        NodeTest::WithClass(c) => {
            if node.is_comment || node.is_text {
                false
            } else {
                node.has_class(c.as_str())
            }
        },
        NodeTest::AttrEq(a, v) => {
            if node.is_comment || node.is_text {
                false
            } else {
                node.attr_is(a.as_str(), v.as_str())
            }
        },
        NodeTest::TagClass(s, c) => node.named(s.as_str()) && node.has_class(c.as_str()),
        NodeTest::TagEitherClass(s, c1, c2) => node.named(s.as_str()) && (node.has_class(
            c1.as_str(),
        ) || node.has_class(c2.as_str())),
        NodeTest::TagNotClass(s, c) => node.named(s.as_str()) && !node.has_class(c.as_str()),
        NodeTest::TagNotAttrEq(s, a, v) => node.named(s.as_str()) && !node.attr_is(
            a.as_str(),
            v.as_str(),
        ),
        NodeTest::AnyComment => node.is_comment,
    }
}

/// Some ancestor of the node passes the test.
pub open spec fn spec_exists_ancestor(dv: Seq<HtmlNodeV>, i: int, t: NodeTestV) -> bool {
    exists|j: int| #[trigger] ancestors(dv, i).contains(j) && spec_node_test(dv[j], t)
}

/// Walks the parent chain looking for an ancestor that passes the test.
#[verifier::loop_isolation(false)]
pub fn exists_ancestor(doc: &HtmlDoc, i: usize, t: &NodeTest) -> (r: bool)
    requires
        doc.wf(),
        i < doc.spec_len(),
    ensures
        r == spec_exists_ancestor(doc@, i as int, t@),
{
    let mut cur: usize = i;
    proof {
        lemma_ancestors_bounded(doc@, i as int);
    }
    let mut has_parent = doc.node(cur).parent.is_some();
    while has_parent
        invariant
            has_parent == (doc@[cur as int].parent is Some),
            cur <= i,
            (cur as int) < doc@.len(),
            spec_exists_ancestor(doc@, i as int, t@) == spec_exists_ancestor(doc@, cur as int, t@),
        decreases cur,
    {
        let p = match doc.node(cur).parent {
            Some(p) => p,
            None => 0,
        };
        assert(0 <= p < cur);
        proof {
            lemma_ancestors_bounded(doc@, p as int);
            assert(ancestors(doc@, cur as int) =~= ancestors(doc@, p as int).insert(p as int));
        }
        if node_test(doc.node(p), t) {
            proof {
                assert(ancestors(doc@, cur as int).contains(p as int));
            }
            return true;
        }
        proof {
            assert forall|j: int|
                #[trigger] ancestors(doc@, cur as int).contains(j) && spec_node_test(
                    doc@[j],
                    t@,
                ) implies ancestors(doc@, p as int).contains(j) && spec_node_test(doc@[j], t@) by {
                if j == p as int {
                    assert(!spec_node_test(doc@[p as int], t@));
                }
            }
            assert forall|j: int|
                #[trigger] ancestors(doc@, p as int).contains(j) && spec_node_test(
                    doc@[j],
                    t@,
                ) implies ancestors(doc@, cur as int).contains(j) && spec_node_test(
                doc@[j],
                t@,
            ) by {}
            assert(spec_exists_ancestor(doc@, cur as int, t@) == spec_exists_ancestor(
                doc@,
                p as int,
                t@,
            ));
        }
        cur = p;
        has_parent = doc.node(cur).parent.is_some();
    }
    proof {
        assert(ancestors(doc@, cur as int) =~= Set::<int>::empty());
    }
    false
}

} // verus!

verus! {

// ---------------------------------------------------------------------------
// Parsing, through the select crate
// ---------------------------------------------------------------------------

#[verifier::external_type_specification]
#[verifier::external_body]
pub struct ExDocument(select::document::Document);

/// What parsing an HTML text yields: the node shapes of the tree the
/// select crate builds for it, in document order. Parsing is a function
/// of the text alone, so the result carries this name; what each node
/// holds is only ever learned by reading the parsed page.
pub uninterp spec fn parsed_nodes(html: Seq<char>) -> Seq<HtmlNodeV>;

/// Relies on `Document::nth` and the `Node` accessors (`raw`, `name`,
/// `attrs`, `text`, `as_comment`, `as_text`): the parent index, kind,
/// name, attributes and combined descendant text of the `i`th node.
#[verifier::external_body]
fn document_node(doc: &select::document::Document, i: usize) -> Option<HtmlNode> {
    let node = doc.nth(i)?;
    Some(
        HtmlNode {
            parent: node.raw().parent,
            is_comment: node.as_comment().is_some(),
            is_text: node.as_text().is_some(),
            name: node.name().unwrap_or("").to_string(),
            text: node.as_comment().map(str::to_string).unwrap_or_else(|| node.text()),
            attr_names: node.attrs().map(|(n, _)| n.to_string()).collect(),
            attr_values: node.attrs().map(|(_, v)| v.to_string()).collect(),
        },
    )
}

/// Relies on `select::document::Document::from`: parses arbitrary HTML
/// text into a node tree, recovering from malformed markup; the nodes,
/// read out one by one, are exactly `parsed_nodes` of the text.
#[verifier::external_body]
fn parse_nodes(res: &str) -> (r: Vec<HtmlNode>)
    ensures
        r.deep_view() == parsed_nodes(res@),
{
    let doc = select::document::Document::from(res);
    (0..doc.nodes.len()).map(|i| document_node(&doc, i).unwrap()).collect()
}

/// The model of a parsed page: the named parse result, with any parent
/// reference that does not point strictly backwards dropped.
pub open spec fn spec_parse(html: Seq<char>) -> Seq<HtmlNodeV> {
    spec_clamp(parsed_nodes(html))
}

/// Parses an HTML page into the flat node model: exactly the named
/// parse of the text, well-formed.
pub fn parse_document(res: &str) -> (r: HtmlDoc)
    ensures
        r.wf(),
        r@ == spec_parse(res@),
{
    HtmlDoc::from_nodes(parse_nodes(res))
}

// ---------------------------------------------------------------------------
// Attribute order is immaterial
// ---------------------------------------------------------------------------

/// The name/value pairs of an attribute list.
pub open spec fn attr_pairs(ns: Seq<Seq<char>>, vs: Seq<Seq<char>>) -> Seq<
    (Seq<char>, Seq<char>),
> {
    Seq::new(ns.len(), |i: int| (ns[i], vs[i]))
}

/// Two attribute lists that hold the same pairs in any order, each name
/// given once, build the same attribute map.
pub proof fn lemma_attrs_map_permuted(
    ns1: Seq<Seq<char>>,
    vs1: Seq<Seq<char>>,
    ns2: Seq<Seq<char>>,
    vs2: Seq<Seq<char>>,
)
    requires
        ns1.len() == vs1.len(),
        ns2.len() == vs2.len(),
        ns1.no_duplicates(),
        ns2.no_duplicates(),
        attr_pairs(ns1, vs1).to_multiset() == attr_pairs(ns2, vs2).to_multiset(),
    ensures
        attrs_map(ns1, vs1) == attrs_map(ns2, vs2),
{
    broadcast use vstd::seq_lib::group_to_multiset_ensures;

    let p1 = attr_pairs(ns1, vs1);
    let p2 = attr_pairs(ns2, vs2);
    assert forall|k: Seq<char>|
        #[trigger] attrs_map(ns1, vs1).contains_key(k) implies attrs_map(
        ns2,
        vs2,
    ).contains_key(k) && attrs_map(ns2, vs2)[k] == attrs_map(ns1, vs1)[k] by {
        lemma_attrs_map_domain(ns1, vs1, k);
        let i = choose|i: int| 0 <= i < ns1.len() && ns1[i] == k;
        assert(forall|j: int| 0 <= j < i ==> ns1[j] != ns1[i]);
        lemma_attrs_map_first(ns1, vs1, i);
        assert(p1[i] == (k, vs1[i]));
        assert(p1.contains((k, vs1[i])));
        assert(p1.to_multiset().count((k, vs1[i])) > 0);
        assert(p2.to_multiset().count((k, vs1[i])) > 0);
        assert(p2.contains((k, vs1[i])));
        let j = choose|j: int| 0 <= j < p2.len() && p2[j] == (k, vs1[i]);
        assert(ns2[j] == k && vs2[j] == vs1[i]);
        assert(forall|j2: int| 0 <= j2 < j ==> ns2[j2] != ns2[j]);
        lemma_attrs_map_first(ns2, vs2, j);
    }
    assert forall|k: Seq<char>|
        #[trigger] attrs_map(ns2, vs2).contains_key(k) implies attrs_map(
        ns1,
        vs1,
    ).contains_key(k) by {
        lemma_attrs_map_domain(ns2, vs2, k);
        let i = choose|i: int| 0 <= i < ns2.len() && ns2[i] == k;
        assert(p2[i] == (k, vs2[i]));
        assert(p2.contains((k, vs2[i])));
        assert(p2.to_multiset().count((k, vs2[i])) > 0);
        assert(p1.to_multiset().count((k, vs2[i])) > 0);
        assert(p1.contains((k, vs2[i])));
        let j = choose|j: int| 0 <= j < p1.len() && p1[j] == (k, vs2[i]);
        assert(ns1[j] == k);
        lemma_attrs_map_domain(ns1, vs1, k);
    }
    assert(attrs_map(ns1, vs1) =~= attrs_map(ns2, vs2));
}

/// Two raw nodes that differ only in the order of their attributes have
/// the same mathematical shape, so every observation the classifier and
/// the extractors make of them is the same.
pub proof fn lemma_node_view_attr_order(n1: HtmlNode, n2: HtmlNode)
    requires
        n1.parent == n2.parent,
        n1.is_comment == n2.is_comment,
        n1.is_text == n2.is_text,
        n1.name@ == n2.name@,
        n1.text@ == n2.text@,
        n1.attr_names@.len() == n1.attr_values@.len(),
        n2.attr_names@.len() == n2.attr_values@.len(),
        n1.attr_names.deep_view().no_duplicates(),
        n2.attr_names.deep_view().no_duplicates(),
        attr_pairs(n1.attr_names.deep_view(), n1.attr_values.deep_view()).to_multiset()
            == attr_pairs(n2.attr_names.deep_view(), n2.attr_values.deep_view()).to_multiset(),
    ensures
        n1@ == n2@,
{
    lemma_attrs_map_permuted(
        n1.attr_names.deep_view(),
        n1.attr_values.deep_view(),
        n2.attr_names.deep_view(),
        n2.attr_values.deep_view(),
    );
}

} // verus!

verus! {

// ---------------------------------------------------------------------------
// Text and attribute observations
// ---------------------------------------------------------------------------

/// Leading and trailing whitespace removed.
pub open spec fn spec_trim(s: Seq<char>) -> Seq<char>
    decreases s.len(),
{
    if s.len() == 0 {
        s
    } else if is_space_char(s[0]) {
        spec_trim(s.skip(1))
    } else if is_space_char(s.last()) {
        spec_trim(s.drop_last())
    } else {
        s
    }
}

#[verifier::loop_isolation(false)]
pub fn trim_chars(v: &Vec<char>) -> (r: Vec<char>)
    ensures
        r@ == spec_trim(v@),
{
    let mut lo: usize = 0;
    let mut hi: usize = v.len();
    assert(v@.subrange(0, v@.len() as int) =~= v@);
    while lo < hi && space_char(v[lo])
        invariant
            0 <= lo <= hi <= v@.len(),
            spec_trim(v@) == spec_trim(v@.subrange(lo as int, hi as int)),
            hi == v@.len(),
        decreases hi - lo,
    {
        proof {
            assert(v@.subrange(lo as int, hi as int).skip(1) =~= v@.subrange(lo + 1, hi as int));
        }
        lo = lo + 1;
    }
    while lo < hi && space_char(v[hi - 1])
        invariant
            0 <= lo <= hi <= v@.len(),
            spec_trim(v@) == spec_trim(v@.subrange(lo as int, hi as int)),
        decreases hi - lo,
    {
        proof {
            let cur = v@.subrange(lo as int, hi as int);
            assert(cur.last() == v@[hi - 1]);
            if cur.len() > 0 && is_space_char(cur[0]) {
                assert(cur.skip(1) =~= v@.subrange(lo + 1, hi as int));
                assert(cur.drop_last() =~= v@.subrange(lo as int, hi - 1));
                assert(cur.skip(1).drop_last() =~= v@.subrange(lo + 1, hi - 1));
                lemma_trim_space_both(cur);
            } else {
                assert(cur.drop_last() =~= v@.subrange(lo as int, hi - 1));
            }
        }
        hi = hi - 1;
    }
    let r = subvec(v, lo, hi);
    proof {
        let cur = v@.subrange(lo as int, hi as int);
        if cur.len() > 0 {
            assert(cur[0] == v@[lo as int] && cur.last() == v@[hi - 1]);
        }
        assert(spec_trim(cur) == cur);
    }
    r
}

/// Trimming a leading space then the last, or the last then the leading,
/// ends in the same place.
proof fn lemma_trim_space_both(s: Seq<char>)
    requires
        s.len() > 0,
        is_space_char(s[0]),
        s.len() > 1 ==> is_space_char(s.last()),
    ensures
        s.len() > 1 ==> spec_trim(s) == spec_trim(s.skip(1).drop_last()),
        s.len() == 1 ==> spec_trim(s) == s.skip(1),
    decreases s.len(),
{
    if s.len() == 1 {
        assert(spec_trim(s) == spec_trim(s.skip(1)));
        assert(s.skip(1).len() == 0);
    }
    if s.len() > 1 {
        let t = s.skip(1);
        assert(spec_trim(s) == spec_trim(t));
        if is_space_char(t[0]) {
            assert(t.skip(1) =~= s.skip(2));
            lemma_trim_space_both2(t);
        } else {
            assert(t.last() == s.last());
            assert(spec_trim(t) == spec_trim(t.drop_last()));
            assert(t.drop_last() =~= s.skip(1).drop_last());
        }
    }
}

/// A sequence that ends in a space trims like its front part.
proof fn lemma_trim_space_both2(s: Seq<char>)
    requires
        s.len() > 0,
        is_space_char(s.last()),
    ensures
        spec_trim(s) == spec_trim(s.drop_last()),
    decreases s.len(),
{
    if is_space_char(s[0]) {
        if s.len() == 1 {
            assert(s.skip(1) =~= s.drop_last());
        } else {
            assert(spec_trim(s) == spec_trim(s.skip(1)));
            assert(s.skip(1).len() > 0 && s.skip(1).last() == s.last());
            lemma_trim_space_both2(s.skip(1));
            assert(s.skip(1).drop_last() =~= s.drop_last().skip(1));
            if s.drop_last().len() > 0 {
                assert(s.drop_last()[0] == s[0]);
                assert(spec_trim(s.drop_last()) == spec_trim(s.drop_last().skip(1)));
            }
        }
    }
}

/// Whether the character is ASCII whitespace.
pub fn space_char(c: char) -> (r: bool)
    ensures
        r == is_space_char(c),
{
    c == ' ' || c == '\t' || c == '\n' || c == '\r'
}

/// A test on what a node shows: its combined text or one attribute value.
pub enum TextTest {
    Anything,
    Contains(String),
    ContainsBoth(String, String),
    Equals(String),
    StartsWith(String),
    LowerStartsWith(String),
    LowerEquals(String),
    TrimEquals(String),
    AttrContains(String, String),
    AttrEquals(String, String),
    AttrSortQuery(String),
}

/// Mathematical shape of a text test.
pub enum TextTestV {
    Anything,
    Contains(Seq<char>),
    ContainsBoth(Seq<char>, Seq<char>),
    Equals(Seq<char>),
    StartsWith(Seq<char>),
    LowerStartsWith(Seq<char>),
    LowerEquals(Seq<char>),
    TrimEquals(Seq<char>),
    AttrContains(Seq<char>, Seq<char>),
    AttrEquals(Seq<char>, Seq<char>),
    AttrSortQuery(Seq<char>),
}

impl View for TextTest {
    type V = TextTestV;

    open spec fn view(&self) -> TextTestV {
        match self {
            TextTest::Anything => TextTestV::Anything,
            TextTest::Contains(p) => TextTestV::Contains(p@),
            TextTest::ContainsBoth(p, q) => TextTestV::ContainsBoth(p@, q@),
            TextTest::Equals(p) => TextTestV::Equals(p@),
            TextTest::StartsWith(p) => TextTestV::StartsWith(p@),
            TextTest::LowerStartsWith(p) => TextTestV::LowerStartsWith(p@),
            TextTest::LowerEquals(p) => TextTestV::LowerEquals(p@),
            TextTest::TrimEquals(p) => TextTestV::TrimEquals(p@),
            TextTest::AttrContains(a, p) => TextTestV::AttrContains(a@, p@),
            TextTest::AttrEquals(a, p) => TextTestV::AttrEquals(a@, p@),
            TextTest::AttrSortQuery(a) => TextTestV::AttrSortQuery(a@),
        }
    }
}

pub open spec fn spec_text_test(nv: HtmlNodeV, t: TextTestV) -> bool {
    match t {
        TextTestV::Anything => true,
        TextTestV::Contains(p) => seq_contains(nv.text, p),
        TextTestV::ContainsBoth(p, q) => seq_contains(nv.text, p) && seq_contains(nv.text, q),
        TextTestV::Equals(p) => nv.text == p,
        TextTestV::StartsWith(p) => crate::text::seq_starts_with(nv.text, p),
        TextTestV::LowerStartsWith(p) => crate::text::seq_starts_with(
            crate::parser::spec_lower_seq(nv.text),
            p,
        ),
        TextTestV::LowerEquals(p) => crate::parser::spec_lower_seq(nv.text) == p,
        TextTestV::TrimEquals(p) => spec_trim(nv.text) == p,
        TextTestV::AttrContains(a, p) => nv.attrs.contains_key(a) && seq_contains(nv.attrs[a], p),
        TextTestV::AttrEquals(a, p) => nv.attrs.contains_key(a) && nv.attrs[a] == p,
        TextTestV::AttrSortQuery(a) => nv.attrs.contains_key(a)
            && crate::parser::spec_has_sort_query(nv.attrs[a]),
    }
}

/// Applies a text test to one node.
pub fn text_test(node: &HtmlNode, t: &TextTest) -> (r: bool)
    ensures
        r == spec_text_test(node@, t@),
{
    match t {
        TextTest::Anything => true,
        TextTest::Contains(p) => {
            let tv = chars_of(node.text.as_str());
            crate::text::contains_lit(&tv, p.as_str())
        },
        TextTest::ContainsBoth(p, q) => {
            let tv = chars_of(node.text.as_str());
            crate::text::contains_lit(&tv, p.as_str()) && crate::text::contains_lit(
                &tv,
                q.as_str(),
            )
        },
        TextTest::Equals(p) => {
            let tv = chars_of(node.text.as_str());
            let pv = chars_of(p.as_str());
            crate::parser::eq_chars(&tv, &pv)
        },
        TextTest::StartsWith(p) => {
            let tv = chars_of(node.text.as_str());
            crate::text::starts_with_lit(&tv, p.as_str())
        },
        TextTest::LowerStartsWith(p) => {
            let tv = chars_of(node.text.as_str());
            let low = crate::parser::to_lower_chars(&tv);
            crate::text::starts_with_lit(&low, p.as_str())
        },
        TextTest::LowerEquals(p) => {
            let tv = chars_of(node.text.as_str());
            let low = crate::parser::to_lower_chars(&tv);
            let pv = chars_of(p.as_str());
            crate::parser::eq_chars(&low, &pv)
        },
        TextTest::TrimEquals(p) => {
            let tv = chars_of(node.text.as_str());
            let trimmed = trim_chars(&tv);
            let pv = chars_of(p.as_str());
            crate::parser::eq_chars(&trimmed, &pv)
        },
        TextTest::AttrContains(a, p) => {
            let av = chars_of(a.as_str());
            match node.attr(&av) {
                Some(val) => crate::text::contains_lit(&val, p.as_str()),
                None => false,
            }
        },
        TextTest::AttrEquals(a, p) => {
            let av = chars_of(a.as_str());
            match node.attr(&av) {
                Some(val) => {
                    let pv = chars_of(p.as_str());
                    crate::parser::eq_chars(&val, &pv)
                },
                None => false,
            }
        },
        TextTest::AttrSortQuery(a) => {
            let av = chars_of(a.as_str());
            match node.attr(&av) {
                Some(val) => crate::parser::ends_with_any_query_chars(&val),
                None => false,
            }
        },
    }
}

// ---------------------------------------------------------------------------
// Existence queries over the whole page
// ---------------------------------------------------------------------------

/// The node at `i` passes the structural test, has an ancestor for each
/// listed ancestor test, and passes the text test.
pub open spec fn spec_node_selected(
    dv: Seq<HtmlNodeV>,
    i: int,
    t: NodeTestV,
    ancs: Seq<NodeTestV>,
    tt: TextTestV,
) -> bool {
    0 <= i < dv.len() && spec_node_test(dv[i], t) && (forall|k: int|
        0 <= k < ancs.len() ==> spec_exists_ancestor(dv, i, ancs[k])) && spec_text_test(dv[i], tt)
}

/// Some node of the page is selected by the given tests.
pub open spec fn spec_any_node(
    dv: Seq<HtmlNodeV>,
    t: NodeTestV,
    ancs: Seq<NodeTestV>,
    tt: TextTestV,
) -> bool {
    exists|i: int| spec_node_selected(dv, i, t, ancs, tt)
}

/// Whether the node at `i` is selected by the given tests.
#[verifier::loop_isolation(false)]
pub fn node_selected(doc: &HtmlDoc, i: usize, t: &NodeTest, ancs: &Vec<NodeTest>, tt: &TextTest)
    -> (r: bool)
    requires
        doc.wf(),
        i < doc.spec_len(),
    ensures
        r == spec_node_selected(doc@, i as int, t@, ancs.deep_view(), tt@),
{
    if !node_test(doc.node(i), t) {
        return false;
    }
    let m = ancs.len();
    let mut k: usize = 0;
    while k < m
        invariant
            0 <= k <= m,
            forall|j: int|
                0 <= j < k ==> spec_exists_ancestor(doc@, i as int, ancs.deep_view()[j]),
        decreases m - k,
    {
        assert(ancs.deep_view()[k as int] == ancs@[k as int]@);
        if !exists_ancestor(doc, i, &ancs[k]) {
            return false;
        }
        k = k + 1;
    }
    text_test(doc.node(i), tt)
}

/// Scans the page for a node selected by the given tests.
#[verifier::loop_isolation(false)]
pub fn any_node(doc: &HtmlDoc, t: &NodeTest, ancs: &Vec<NodeTest>, tt: &TextTest) -> (r: bool)
    requires
        doc.wf(),
    ensures
        r == spec_any_node(doc@, t@, ancs.deep_view(), tt@),
{
    let n = doc.len();
    let mut i: usize = 0;
    while i < n
        invariant
            0 <= i <= n,
            forall|j: int| 0 <= j < i ==> !spec_node_selected(doc@, j, t@, ancs.deep_view(), tt@),
        decreases n - i,
    {
        if node_selected(doc, i, t, ancs, tt) {
            return true;
        }
        i = i + 1;
    }
    assert(forall|j: int| !spec_node_selected(doc@, j, t@, ancs.deep_view(), tt@));
    false
}

} // verus!

verus! {

/// No ancestor requirement.
pub fn anc0() -> (r: Vec<NodeTest>)
    ensures
        r.deep_view() == Seq::<NodeTestV>::empty(),
{
    let r: Vec<NodeTest> = Vec::new();
    proof {
        assert(r.deep_view() =~= Seq::<NodeTestV>::empty());
    }
    r
}

/// One ancestor requirement.
pub fn anc1(t: NodeTest) -> (r: Vec<NodeTest>)
    ensures
        r.deep_view() == seq![t@],
{
    let ghost tv = t@;
    let mut r: Vec<NodeTest> = Vec::new();
    r.push(t);
    proof {
        assert(r.deep_view() =~= seq![tv]);
    }
    r
}

/// Two ancestor requirements.
pub fn anc2(t1: NodeTest, t2: NodeTest) -> (r: Vec<NodeTest>)
    ensures
        r.deep_view() == seq![t1@, t2@],
{
    let ghost tv1 = t1@;
    let ghost tv2 = t2@;
    let mut r: Vec<NodeTest> = Vec::new();
    r.push(t1);
    r.push(t2);
    proof {
        assert(r.deep_view() =~= seq![tv1, tv2]);
    }
    r
}

/// An owned copy of a literal.
pub fn stg(s: &str) -> (r: String)
    ensures
        r@ == s@,
{
    String::from_str(s)
}

} // verus!

verus! {

// ---------------------------------------------------------------------------
// Collecting selected nodes in document order
// ---------------------------------------------------------------------------

/// The indices of the nodes from `i` on that pass the tests, in order.
pub open spec fn spec_selected_from(
    dv: Seq<HtmlNodeV>,
    t: NodeTestV,
    ancs: Seq<NodeTestV>,
    i: int,
) -> Seq<int>
    decreases dv.len() - i when 0 <= i <= dv.len()
{
    if i >= dv.len() {
        Seq::<int>::empty()
    } else if spec_node_selected(dv, i, t, ancs, TextTestV::Anything) {
        seq![i] + spec_selected_from(dv, t, ancs, i + 1)
    } else {
        spec_selected_from(dv, t, ancs, i + 1)
    }
}

/// The texts of the selected nodes, in document order.
pub open spec fn spec_selected_texts(
    dv: Seq<HtmlNodeV>,
    t: NodeTestV,
    ancs: Seq<NodeTestV>,
) -> Seq<Seq<char>> {
    spec_selected_from(dv, t, ancs, 0).map_values(|i: int| dv[i].text)
}

/// Collects the texts of the selected nodes, in document order.
#[verifier::loop_isolation(false)]
pub fn collect_texts(doc: &HtmlDoc, t: &NodeTest, ancs: &Vec<NodeTest>) -> (r: Vec<String>)
    requires
        doc.wf(),
    ensures
        r.deep_view() == spec_selected_texts(doc@, t@, ancs.deep_view()),
{
    let n = doc.len();
    let mut r: Vec<String> = Vec::new();
    let mut i: usize = 0;
    proof {
        assert(r.deep_view() =~= Seq::<Seq<char>>::empty());
        assert(spec_selected_texts(doc@, t@, ancs.deep_view()) == r.deep_view()
            + spec_selected_from(doc@, t@, ancs.deep_view(), 0).map_values(
            |k: int| doc@[k].text,
        ));
    }
    while i < n
        invariant
            0 <= i <= n,
            spec_selected_texts(doc@, t@, ancs.deep_view()) == r.deep_view()
                + spec_selected_from(doc@, t@, ancs.deep_view(), i as int).map_values(
                |k: int| doc@[k].text,
            ),
        decreases n - i,
    {
        let ghost pre = r.deep_view();
        if node_selected(doc, i, t, ancs, &TextTest::Anything) {
            r.push(doc.node(i).text.clone());
            proof {
                assert(r.deep_view() =~~= pre.push(doc@[i as int].text));
                assert((seq![i as int] + spec_selected_from(
                    doc@,
                    t@,
                    ancs.deep_view(),
                    i + 1,
                )).map_values(|k: int| doc@[k].text) =~= seq![doc@[i as int].text]
                    + spec_selected_from(doc@, t@, ancs.deep_view(), i + 1).map_values(
                    |k: int| doc@[k].text,
                ));
                assert(r.deep_view() + spec_selected_from(
                    doc@,
                    t@,
                    ancs.deep_view(),
                    i + 1,
                ).map_values(|k: int| doc@[k].text) =~= pre + (seq![doc@[i as int].text]
                    + spec_selected_from(doc@, t@, ancs.deep_view(), i + 1).map_values(
                    |k: int| doc@[k].text,
                )));
            }
        }
        i = i + 1;
    }
    proof {
        assert(spec_selected_from(doc@, t@, ancs.deep_view(), n as int) =~= Seq::<int>::empty());
        assert(spec_selected_from(doc@, t@, ancs.deep_view(), n as int).map_values(
            |k: int| doc@[k].text,
        ) =~= Seq::<Seq<char>>::empty());
        assert(r.deep_view() =~= r.deep_view() + Seq::<Seq<char>>::empty());
    }
    r
}

} // verus!

verus! {

/// The two raw nodes agree on everything, with `b`'s attributes a
/// reordering of `a`'s; each list names every attribute once.
pub open spec fn attr_permuted(a: HtmlNode, b: HtmlNode) -> bool {
    a.parent == b.parent && a.is_comment == b.is_comment && a.is_text == b.is_text && a.name@
        == b.name@ && a.text@ == b.text@ && a.attr_names@.len() == a.attr_values@.len()
        && b.attr_names@.len() == b.attr_values@.len() && a.attr_names.deep_view().no_duplicates()
        && b.attr_names.deep_view().no_duplicates() && attr_pairs(
        a.attr_names.deep_view(),
        a.attr_values.deep_view(),
    ).to_multiset() == attr_pairs(b.attr_names.deep_view(), b.attr_values.deep_view()).to_multiset()
}

/// Nodes that differ only in attribute order have equal shapes.
pub proof fn lemma_attr_permuted_view(a: HtmlNode, b: HtmlNode)
    requires
        attr_permuted(a, b),
    ensures
        a@ == b@,
{
    lemma_node_view_attr_order(a, b);
}

} // verus!
