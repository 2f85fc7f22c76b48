//! lighttpd family: the `foot` or `script_title` markers, or the server
//! header.

use vstd::prelude::*;
use crate::text::{chars_of, seq_contains, contains_lit};
use crate::dom::{HtmlDoc, HtmlNodeV, NodeTest, NodeTestV, TextTest, TextTestV, spec_any_node,
    any_node, anc0};

verus! {

pub struct LightTPD;

/// A `foot` or `script_title` element opens with `lighttpd` (case
/// aside), or the server header names it.
pub open spec fn spec_is_od(dv: Seq<HtmlNodeV>, server: Seq<char>) -> bool {
    spec_any_node(
        dv,
        NodeTestV::WithClass("foot"@),
        Seq::<NodeTestV>::empty(),
        TextTestV::LowerStartsWith("lighttpd"@),
    ) || spec_any_node(
        dv,
        NodeTestV::WithClass("script_title"@),
        Seq::<NodeTestV>::empty(),
        TextTestV::LowerStartsWith("lighttpd"@),
    ) || seq_contains(server, "lighttpd"@)
}

impl LightTPD {
    pub fn is_od_doc(doc: &HtmlDoc, server: &str) -> (r: bool)
        requires
            doc.wf(),
        ensures
            r == spec_is_od(doc@, server@),
    {
        let foot = NodeTest::WithClass(crate::dom::stg("foot"));
        let title = NodeTest::WithClass(crate::dom::stg("script_title"));
        let tt = TextTest::LowerStartsWith(crate::dom::stg("lighttpd"));
        let none = anc0();
        if any_node(doc, &foot, &none, &tt) || any_node(doc, &title, &none, &tt) {
            return true;
        }
        LightTPD::server_name_check(server)
    }

    pub fn is_od(res: &str, server: &str) -> (r: bool)
        ensures
            r == spec_is_od(crate::dom::spec_parse(res@), server@),
    {
        let doc = crate::dom::parse_document(res);
        LightTPD::is_od_doc(&doc, server)
    }

    /// Find the family through the `Server` response header.
    pub fn server_name_check(server_name: &str) -> (r: bool)
        ensures
            r == seq_contains(server_name@, "lighttpd"@),
    {
        let sv = chars_of(server_name);
        contains_lit(&sv, "lighttpd")
    }
}

} // verus!
