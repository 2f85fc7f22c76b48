//! Indices family: comments or credit links naming its project page.

use vstd::prelude::*;
use crate::dom::{HtmlDoc, HtmlNodeV, NodeTest, NodeTestV, TextTest, TextTestV, spec_any_node,
    any_node, anc0, anc1, anc2};

verus! {

pub struct Indices;

/// A comment anywhere, a style comment in the head, or a credit link
/// names the Indices project page.
pub open spec fn spec_is_od(dv: Seq<HtmlNodeV>) -> bool {
    spec_any_node(
        dv,
        NodeTestV::AnyComment,
        Seq::<NodeTestV>::empty(),
        TextTestV::Contains("http://antisleep.com/software/indices"@),
    ) || spec_any_node(
        dv,
        NodeTestV::AnyComment,
        seq![NodeTestV::Tag("style"@), NodeTestV::Tag("head"@)],
        TextTestV::Contains("Indices styles:"@),
    ) || spec_any_node(
        dv,
        NodeTestV::TagAttrPresent("a"@, "href"@),
        seq![NodeTestV::Tag("p"@), NodeTestV::TagClass("div"@, "span10"@)],
        TextTestV::AttrContains("href"@, "http://antisleep.com/software/indices"@),
    ) || spec_any_node(
        dv,
        NodeTestV::TagAttrPresent("a"@, "href"@),
        seq![NodeTestV::TagClass("div"@, "credits"@)],
        TextTestV::AttrContains("href"@, "http://antisleep.com/software/indices"@),
    )
}

impl Indices {
    pub fn is_od_doc(doc: &HtmlDoc) -> (r: bool)
        requires
            doc.wf(),
        ensures
            r == spec_is_od(doc@),
    {
        let none = anc0();
        let comment = NodeTest::AnyComment;
        let source = TextTest::Contains(crate::dom::stg("http://antisleep.com/software/indices"));
        if any_node(doc, &comment, &none, &source) {
            return true;
        }
        let style_head = anc2(
            NodeTest::Tag(crate::dom::stg("style")),
            NodeTest::Tag(crate::dom::stg("head")),
        );
        let styles = TextTest::Contains(crate::dom::stg("Indices styles:"));
        if any_node(doc, &comment, &style_head, &styles) {
            return true;
        }
        let a = NodeTest::TagAttrPresent(crate::dom::stg("a"), crate::dom::stg("href"));
        let href = TextTest::AttrContains(
            crate::dom::stg("href"),
            crate::dom::stg("http://antisleep.com/software/indices"),
        );
        let span10 = anc2(
            NodeTest::Tag(crate::dom::stg("p")),
            NodeTest::TagClass(crate::dom::stg("div"), crate::dom::stg("span10")),
        );
        if any_node(doc, &a, &span10, &href) {
            return true;
        }
        let credits = anc1(NodeTest::TagClass(crate::dom::stg("div"), crate::dom::stg("credits")));
        any_node(doc, &a, &credits, &href)
    }

    pub fn is_od(res: &str) -> (r: bool)
        ensures
            r == spec_is_od(crate::dom::spec_parse(res@)),
    {
        let doc = crate::dom::parse_document(res);
        Indices::is_od_doc(&doc)
    }
}

} // verus!
