//! Apache autoindex family: the server header, or the `address` footer
//! tag Apache emits.

use vstd::prelude::*;
use crate::text::{chars_of, seq_contains, contains_lit};
use crate::dom::{HtmlDoc, HtmlNodeV, NodeTest, NodeTestV, TextTest, TextTestV, spec_any_node,
    any_node, anc0};

verus! {

pub struct Apache;

/// The server header names Apache, or an `address` tag mentions it.
pub open spec fn spec_is_od(dv: Seq<HtmlNodeV>, server: Seq<char>) -> bool {
    seq_contains(server, "Apache"@) || spec_any_node(
        dv,
        NodeTestV::Tag("address"@),
        Seq::<NodeTestV>::empty(),
        TextTestV::Contains("Apache"@),
    )
}

impl Apache {
    pub fn is_od_doc(doc: &HtmlDoc, server: &str) -> (r: bool)
        requires
            doc.wf(),
        ensures
            r == spec_is_od(doc@, server@),
    {
        let sv = chars_of(server);
        if contains_lit(&sv, "Apache") {
            return true;
        }
        let t = NodeTest::Tag(crate::dom::stg("address"));
        let tt = TextTest::Contains(crate::dom::stg("Apache"));
        let none = anc0();
        any_node(doc, &t, &none, &tt)
    }

    pub fn is_od(res: &str, server: &str) -> (r: bool)
        ensures
            r == spec_is_od(crate::dom::spec_parse(res@), server@),
    {
        let doc = crate::dom::parse_document(res);
        Apache::is_od_doc(&doc, server)
    }
}

} // verus!
