//! Caddy file-server family: a footer link naming Caddy, or the server
//! header.

use vstd::prelude::*;
use crate::text::{chars_of, seq_contains, contains_lit};
use crate::dom::{HtmlDoc, HtmlNodeV, NodeTest, NodeTestV, TextTest, TextTestV, spec_any_node,
    any_node, anc1};

verus! {

pub struct Caddy;

/// A footer anchor reads `caddy` (case aside), or the server header
/// names Caddy.
pub open spec fn spec_is_od(dv: Seq<HtmlNodeV>, server: Seq<char>) -> bool {
    spec_any_node(
        dv,
        NodeTestV::Tag("a"@),
        seq![NodeTestV::Tag("footer"@)],
        TextTestV::LowerEquals("caddy"@),
    ) || seq_contains(server, "Caddy"@)
}

impl Caddy {
    pub fn is_od_doc(doc: &HtmlDoc, server: &str) -> (r: bool)
        requires
            doc.wf(),
        ensures
            r == spec_is_od(doc@, server@),
    {
        let t = NodeTest::Tag(crate::dom::stg("a"));
        let ancs = anc1(NodeTest::Tag(crate::dom::stg("footer")));
        let tt = TextTest::LowerEquals(crate::dom::stg("caddy"));
        if any_node(doc, &t, &ancs, &tt) {
            return true;
        }
        let sv = chars_of(server);
        contains_lit(&sv, "Caddy")
    }

    pub fn is_od(res: &str, server: &str) -> (r: bool)
        ensures
            r == spec_is_od(crate::dom::spec_parse(res@), server@),
    {
        let doc = crate::dom::parse_document(res);
        Caddy::is_od_doc(&doc, server)
    }
}

} // verus!
