//! Microsoft IIS family: the bracketed parent-directory anchor, the
//! `<dir>` marker in its fixed-width listing, or the server header.

use vstd::prelude::*;
use crate::text::{chars_of, seq_contains, contains_lit};
use crate::dom::{HtmlDoc, HtmlNodeV, NodeTest, NodeTestV, TextTest, TextTestV, spec_any_node,
    any_node, anc0, anc1};

verus! {

pub struct MicrosoftIIS;

/// The text every IIS listing names its server by.
pub fn identifier() -> (r: &'static str)
    ensures
        r@ == "Microsoft-IIS"@,
{
    "Microsoft-IIS"
}

/// A `pre` anchor reads `[To Parent Directory]`, a `pre` block shows the
/// `<dir>` marker, or the server header names Microsoft IIS.
pub open spec fn spec_is_od(dv: Seq<HtmlNodeV>, server: Seq<char>) -> bool {
    spec_any_node(
        dv,
        NodeTestV::Tag("a"@),
        seq![NodeTestV::Tag("pre"@)],
        TextTestV::Equals("[To Parent Directory]"@),
    ) || spec_any_node(
        dv,
        NodeTestV::Tag("pre"@),
        Seq::<NodeTestV>::empty(),
        TextTestV::Contains("<dir>"@),
    ) || seq_contains(server, "Microsoft-IIS"@)
}

impl MicrosoftIIS {
    pub fn is_od_doc(doc: &HtmlDoc, server: &str) -> (r: bool)
        requires
            doc.wf(),
        ensures
            r == spec_is_od(doc@, server@),
    {
        let a = NodeTest::Tag(crate::dom::stg("a"));
        let pre_anc = anc1(NodeTest::Tag(crate::dom::stg("pre")));
        let parent = TextTest::Equals(crate::dom::stg("[To Parent Directory]"));
        if any_node(doc, &a, &pre_anc, &parent) {
            return true;
        }
        let pre = NodeTest::Tag(crate::dom::stg("pre"));
        let dir = TextTest::Contains(crate::dom::stg("<dir>"));
        let none = anc0();
        if any_node(doc, &pre, &none, &dir) {
            return true;
        }
        let sv = chars_of(server);
        contains_lit(&sv, "Microsoft-IIS")
    }

    pub fn is_od(res: &str, server: &str) -> (r: bool)
        ensures
            r == spec_is_od(crate::dom::spec_parse(res@), server@),
    {
        let doc = crate::dom::parse_document(res);
        MicrosoftIIS::is_od_doc(&doc, server)
    }

    /// Identify by looking at the Server header.
    pub fn header_id(server_name: &str) -> (r: bool)
        ensures
            r == seq_contains(server_name@, "Microsoft-IIS"@),
    {
        let sv = chars_of(server_name);
        contains_lit(&sv, "Microsoft-IIS")
    }
}

} // verus!
