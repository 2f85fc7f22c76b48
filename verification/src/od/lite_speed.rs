//! LiteSpeed family: the `address` footer tag or the server header.

use vstd::prelude::*;
use crate::text::{chars_of, seq_contains, contains_lit};
use crate::dom::{HtmlDoc, HtmlNodeV, NodeTest, NodeTestV, TextTest, TextTestV, spec_any_node,
    any_node, anc0};

verus! {

pub struct LiteSpeed;

/// An `address` tag mentions LiteSpeed, or the server header names it.
pub open spec fn spec_is_od(dv: Seq<HtmlNodeV>, server: Seq<char>) -> bool {
    spec_any_node(
        dv,
        NodeTestV::Tag("address"@),
        Seq::<NodeTestV>::empty(),
        TextTestV::Contains("LiteSpeed"@),
    ) || seq_contains(server, "LiteSpeed"@)
}

impl LiteSpeed {
    pub fn is_od_doc(doc: &HtmlDoc, server: &str) -> (r: bool)
        requires
            doc.wf(),
        ensures
            r == spec_is_od(doc@, server@),
    {
        let t = NodeTest::Tag(crate::dom::stg("address"));
        let tt = TextTest::Contains(crate::dom::stg("LiteSpeed"));
        let none = anc0();
        if any_node(doc, &t, &none, &tt) {
            return true;
        }
        let sv = chars_of(server);
        contains_lit(&sv, "LiteSpeed")
    }

    pub fn is_od(res: &str, server: &str) -> (r: bool)
        ensures
            r == spec_is_od(crate::dom::spec_parse(res@), server@),
    {
        let doc = crate::dom::parse_document(res);
        LiteSpeed::is_od_doc(&doc, server)
    }
}

} // verus!
