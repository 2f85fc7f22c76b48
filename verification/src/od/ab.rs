//! A.B. family: its footer slogan.

use vstd::prelude::*;
use crate::dom::{HtmlDoc, HtmlNodeV, NodeTest, NodeTestV, TextTest, TextTestV, spec_any_node,
    any_node, anc1};

verus! {

pub struct AB;

/// A paragraph in the body names `A.B.` and the page-generation slogan.
pub open spec fn spec_is_od(dv: Seq<HtmlNodeV>) -> bool {
    spec_any_node(
        dv,
        NodeTestV::Tag("p"@),
        seq![NodeTestV::Tag("body"@)],
        TextTestV::ContainsBoth("A.B."@, "Page generated in"@),
    )
}

impl AB {
    pub fn is_od_doc(doc: &HtmlDoc) -> (r: bool)
        requires
            doc.wf(),
        ensures
            r == spec_is_od(doc@),
    {
        let p = NodeTest::Tag(crate::dom::stg("p"));
        let body = anc1(NodeTest::Tag(crate::dom::stg("body")));
        let tt = TextTest::ContainsBoth(
            crate::dom::stg("A.B."),
            crate::dom::stg("Page generated in"),
        );
        any_node(doc, &p, &body, &tt)
    }

    pub fn is_od(res: &str) -> (r: bool)
        ensures
            r == spec_is_od(crate::dom::spec_parse(res@)),
    {
        let doc = crate::dom::parse_document(res);
        AB::is_od_doc(&doc)
    }
}

} // verus!
