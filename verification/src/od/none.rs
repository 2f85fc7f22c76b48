//! The negative precondition of the classifier: a page that carries a
//! `noscript` marker and no anchors at all is no directory listing.

use vstd::prelude::*;
use crate::dom::{HtmlDoc, HtmlNodeV, NodeTest, NodeTestV, TextTest, TextTestV, spec_any_node,
    any_node, anc0};

verus! {

/// The page shows a `noscript` element and not a single anchor.
pub open spec fn spec_is_invalid_od(dv: Seq<HtmlNodeV>) -> bool {
    spec_any_node(dv, NodeTestV::Tag("noscript"@), Seq::<NodeTestV>::empty(), TextTestV::Anything)
        && !spec_any_node(dv, NodeTestV::Tag("a"@), Seq::<NodeTestV>::empty(), TextTestV::Anything)
}

/// Checks if the HTML document is no directory listing at all.
pub fn is_invalid_od_doc(doc: &HtmlDoc) -> (r: bool)
    requires
        doc.wf(),
    ensures
        r == spec_is_invalid_od(doc@),
{
    let noscript = NodeTest::Tag(crate::dom::stg("noscript"));
    let a = NodeTest::Tag(crate::dom::stg("a"));
    let none = anc0();
    any_node(doc, &noscript, &none, &TextTest::Anything) && !any_node(
        doc,
        &a,
        &none,
        &TextTest::Anything,
    )
}

pub fn is_invalid_od(res: &str) -> (r: bool)
    ensures
        r == spec_is_invalid_od(crate::dom::spec_parse(res@)),
{
    let doc = crate::dom::parse_document(res);
    is_invalid_od_doc(&doc)
}

} // verus!
