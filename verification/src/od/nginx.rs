//! nginx autoindex family: anchors carrying sort queries, or the server
//! header naming nginx.

use vstd::prelude::*;
use crate::text::{chars_of, string_of, seq_contains, contains_lit};
use crate::parser::{spec_has_sort_query, spec_strip_sort_query, ends_with_any_query_chars,
    strip_sort_query_chars};
use crate::dom::{HtmlDoc, HtmlNodeV, NodeTest, NodeTestV, TextTest, TextTestV, spec_any_node,
    any_node, anc0};

verus! {

pub struct NGINX;

/// Some anchor's href ends in a sort query, or the server header names
/// nginx.
pub open spec fn spec_is_od(dv: Seq<HtmlNodeV>, server: Seq<char>) -> bool {
    spec_any_node(dv, NodeTestV::Tag("a"@), Seq::<NodeTestV>::empty(), TextTestV::AttrSortQuery("href"@))
        || seq_contains(server, "nginx"@)
}

impl NGINX {
    pub fn is_od_doc(doc: &HtmlDoc, server: &str) -> (r: bool)
        requires
            doc.wf(),
        ensures
            r == spec_is_od(doc@, server@),
    {
        let a = NodeTest::Tag(crate::dom::stg("a"));
        let tt = TextTest::AttrSortQuery(crate::dom::stg("href"));
        let none = anc0();
        if any_node(doc, &a, &none, &tt) {
            return true;
        }
        let sv = chars_of(server);
        contains_lit(&sv, "nginx")
    }

    pub fn is_od(res: &str, server: &str) -> (r: bool)
        ensures
            r == spec_is_od(crate::dom::spec_parse(res@), server@),
    {
        let doc = crate::dom::parse_document(res);
        NGINX::is_od_doc(&doc, server)
    }

    /// The link ends in a sorting query such as `?C=N&O=A`.
    pub fn has_extra_query(x: &str) -> (r: bool)
        ensures
            r == spec_has_sort_query(x@),
    {
        let v = chars_of(x);
        ends_with_any_query_chars(&v)
    }

    /// Remove sort queries.
    pub fn sanitize_url(x: &str) -> (r: String)
        ensures
            r@ == spec_strip_sort_query(x@),
    {
        let v = chars_of(x);
        string_of(&strip_sort_query_chars(&v))
    }
}

} // verus!
