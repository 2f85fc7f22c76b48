//! OneManager family: the hydrated html marker, a comment or meta tag
//! naming it, or its heading.

use vstd::prelude::*;
use crate::dom::{HtmlDoc, HtmlNodeV, NodeTest, NodeTestV, TextTest, TextTestV, spec_any_node,
    any_node, spec_node_test, spec_is_element, anc0, anc1};

verus! {

pub struct OneManager;

/// A node that is at once a `tr` and a `button`: the shape the
/// download-button probe asks for, which no node can have.
pub open spec fn spec_download_button(dv: Seq<HtmlNodeV>) -> bool {
    exists|i: int|
        0 <= i < dv.len() && #[trigger] spec_node_test(dv[i], NodeTestV::Tag("tr"@))
            && spec_node_test(dv[i], NodeTestV::Tag("button"@))
}

/// The hydrated html marker, a comment naming OneManager, its keywords
/// meta tag, or its heading.
pub open spec fn spec_is_od(dv: Seq<HtmlNodeV>) -> bool {
    spec_any_node(
        dv,
        NodeTestV::TagClass("html"@, "hydrated"@),
        Seq::<NodeTestV>::empty(),
        TextTestV::Anything,
    ) || spec_any_node(
        dv,
        NodeTestV::AnyComment,
        Seq::<NodeTestV>::empty(),
        TextTestV::Contains("OneManager"@),
    ) || spec_any_node(
        dv,
        NodeTestV::TagAttrEq("meta"@, "name"@, "keywords"@),
        Seq::<NodeTestV>::empty(),
        TextTestV::AttrContains("content"@, "OneManager"@),
    ) || spec_any_node(
        dv,
        NodeTestV::Tag("a"@),
        seq![NodeTestV::Tag("h1"@)],
        TextTestV::Contains("OneManager"@),
    ) || spec_download_button(dv)
}

impl OneManager {
    pub fn is_od_doc(doc: &HtmlDoc) -> (r: bool)
        requires
            doc.wf(),
        ensures
            r == spec_is_od(doc@),
    {
        let none = anc0();
        let hydrated = NodeTest::TagClass(crate::dom::stg("html"), crate::dom::stg("hydrated"));
        if any_node(doc, &hydrated, &none, &TextTest::Anything) {
            return true;
        }
        let comment = NodeTest::AnyComment;
        let id = TextTest::Contains(crate::dom::stg("OneManager"));
        if any_node(doc, &comment, &none, &id) {
            return true;
        }
        let meta = NodeTest::TagAttrEq(
            crate::dom::stg("meta"),
            crate::dom::stg("name"),
            crate::dom::stg("keywords"),
        );
        let content = TextTest::AttrContains(
            crate::dom::stg("content"),
            crate::dom::stg("OneManager"),
        );
        if any_node(doc, &meta, &none, &content) {
            return true;
        }
        let a = NodeTest::Tag(crate::dom::stg("a"));
        let h1 = anc1(NodeTest::Tag(crate::dom::stg("h1")));
        if any_node(doc, &a, &h1, &id) {
            return true;
        }
        proof {
            reveal_strlit("tr");
            reveal_strlit("button");
            assert forall|i: int| 0 <= i < doc@.len() implies !(#[trigger] spec_node_test(
                doc@[i],
                NodeTestV::Tag("tr"@),
            ) && spec_node_test(doc@[i], NodeTestV::Tag("button"@))) by {
                assert("tr"@.len() != "button"@.len());
            }
        }
        false
    }

    pub fn is_od(res: &str) -> (r: bool)
        ensures
            r == spec_is_od(crate::dom::spec_parse(res@)),
    {
        let doc = crate::dom::parse_document(res);
        OneManager::is_od_doc(&doc)
    }
}

} // verus!
