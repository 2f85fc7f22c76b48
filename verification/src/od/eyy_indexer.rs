//! eyy-indexer family: the WGET copy button, the generated-page footer,
//! or the git-reference link.

use vstd::prelude::*;
use crate::dom::{HtmlDoc, HtmlNodeV, NodeTest, NodeTestV, TextTest, TextTestV, spec_any_node,
    any_node, anc1, anc2};

verus! {

pub struct EyyIndexer;

/// The menu's copy button, the `Page generated in ... Browsing` footer,
/// or an anchor naming `eyy-indexer` in the bottom git reference.
pub open spec fn spec_is_od(dv: Seq<HtmlNodeV>) -> bool {
    spec_any_node(
        dv,
        NodeTestV::TagAttrEq("div"@, "id"@, "copy"@),
        seq![NodeTestV::TagClass("div"@, "menu"@)],
        TextTestV::Equals("[Copy] WGET"@),
    ) || spec_any_node(
        dv,
        NodeTestV::TagClass("div"@, "bottom"@),
        Seq::<NodeTestV>::empty(),
        TextTestV::ContainsBoth("Page generated in"@, "Browsing"@),
    ) || spec_any_node(
        dv,
        NodeTestV::Tag("a"@),
        seq![
            NodeTestV::TagClass("div"@, "git-reference"@),
            NodeTestV::TagClass("div"@, "bottom"@),
        ],
        TextTestV::Equals("eyy-indexer"@),
    )
}

impl EyyIndexer {
    pub fn is_od_doc(doc: &HtmlDoc) -> (r: bool)
        requires
            doc.wf(),
        ensures
            r == spec_is_od(doc@),
    {
        let copy = NodeTest::TagAttrEq(
            crate::dom::stg("div"),
            crate::dom::stg("id"),
            crate::dom::stg("copy"),
        );
        let menu = anc1(NodeTest::TagClass(crate::dom::stg("div"), crate::dom::stg("menu")));
        let wget = TextTest::Equals(crate::dom::stg("[Copy] WGET"));
        if any_node(doc, &copy, &menu, &wget) {
            return true;
        }
        let bottom = NodeTest::TagClass(crate::dom::stg("div"), crate::dom::stg("bottom"));
        let none = crate::dom::anc0();
        let footer = TextTest::ContainsBoth(
            crate::dom::stg("Page generated in"),
            crate::dom::stg("Browsing"),
        );
        if any_node(doc, &bottom, &none, &footer) {
            return true;
        }
        let a = NodeTest::Tag(crate::dom::stg("a"));
        let ancs = anc2(
            NodeTest::TagClass(crate::dom::stg("div"), crate::dom::stg("git-reference")),
            NodeTest::TagClass(crate::dom::stg("div"), crate::dom::stg("bottom")),
        );
        let id = TextTest::Equals(crate::dom::stg("eyy-indexer"));
        any_node(doc, &a, &ancs, &id)
    }

    pub fn is_od(res: &str) -> (r: bool)
        ensures
            r == spec_is_od(crate::dom::spec_parse(res@)),
    {
        let doc = crate::dom::parse_document(res);
        EyyIndexer::is_od_doc(&doc)
    }
}

} // verus!
