//! h5ai family: the topbar backlink title, the bottom-bar credit, the
//! sidebar tree, the description meta tag, or the `_h5ai` asset names.

use vstd::prelude::*;
use crate::dom::{HtmlDoc, HtmlNodeV, NodeTest, NodeTestV, TextTest, TextTestV, spec_any_node,
    any_node, anc0, anc1, anc2};

verus! {

pub struct H5AI;

/// Any of the six h5ai markers appears on the page.
pub open spec fn spec_is_od(dv: Seq<HtmlNodeV>) -> bool {
    spec_any_node(
        dv,
        NodeTestV::TagAttrEq("a"@, "id"@, "backlink"@),
        seq![NodeTestV::TagAttrEq("div"@, "id"@, "topbar"@)],
        TextTestV::AttrContains("title"@, "h5ai"@),
    ) || spec_any_node(
        dv,
        NodeTestV::Tag("a"@),
        seq![
            NodeTestV::TagClass("span"@, "right"@),
            NodeTestV::TagAttrEq("div"@, "id"@, "bottombar"@),
        ],
        TextTestV::Contains("h5ai"@),
    ) || spec_any_node(
        dv,
        NodeTestV::TagAttrEq("div"@, "id"@, "tree"@),
        Seq::<NodeTestV>::empty(),
        TextTestV::Anything,
    ) || spec_any_node(
        dv,
        NodeTestV::TagAttrEq("meta"@, "name"@, "description"@),
        Seq::<NodeTestV>::empty(),
        TextTestV::AttrContains("content"@, "h5ai"@),
    ) || spec_any_node(
        dv,
        NodeTestV::TagAttrEq("link"@, "rel"@, "stylesheet"@),
        Seq::<NodeTestV>::empty(),
        TextTestV::AttrContains("href"@, "_h5ai"@),
    ) || spec_any_node(
        dv,
        NodeTestV::Tag("script"@),
        Seq::<NodeTestV>::empty(),
        TextTestV::AttrContains("src"@, "_h5ai"@),
    )
}

impl H5AI {
    pub fn is_od_doc(doc: &HtmlDoc) -> (r: bool)
        requires
            doc.wf(),
        ensures
            r == spec_is_od(doc@),
    {
        let none = anc0();
        let backlink = NodeTest::TagAttrEq(
            crate::dom::stg("a"),
            crate::dom::stg("id"),
            crate::dom::stg("backlink"),
        );
        let topbar = anc1(NodeTest::TagAttrEq(
            crate::dom::stg("div"),
            crate::dom::stg("id"),
            crate::dom::stg("topbar"),
        ));
        let title = TextTest::AttrContains(crate::dom::stg("title"), crate::dom::stg("h5ai"));
        if any_node(doc, &backlink, &topbar, &title) {
            return true;
        }
        let a = NodeTest::Tag(crate::dom::stg("a"));
        let bottom = anc2(
            NodeTest::TagClass(crate::dom::stg("span"), crate::dom::stg("right")),
            NodeTest::TagAttrEq(
                crate::dom::stg("div"),
                crate::dom::stg("id"),
                crate::dom::stg("bottombar"),
            ),
        );
        let h5ai_text = TextTest::Contains(crate::dom::stg("h5ai"));
        if any_node(doc, &a, &bottom, &h5ai_text) {
            return true;
        }
        let tree = NodeTest::TagAttrEq(
            crate::dom::stg("div"),
            crate::dom::stg("id"),
            crate::dom::stg("tree"),
        );
        if any_node(doc, &tree, &none, &TextTest::Anything) {
            return true;
        }
        let meta = NodeTest::TagAttrEq(
            crate::dom::stg("meta"),
            crate::dom::stg("name"),
            crate::dom::stg("description"),
        );
        let content = TextTest::AttrContains(crate::dom::stg("content"), crate::dom::stg("h5ai"));
        if any_node(doc, &meta, &none, &content) {
            return true;
        }
        let css = NodeTest::TagAttrEq(
            crate::dom::stg("link"),
            crate::dom::stg("rel"),
            crate::dom::stg("stylesheet"),
        );
        let href = TextTest::AttrContains(crate::dom::stg("href"), crate::dom::stg("_h5ai"));
        if any_node(doc, &css, &none, &href) {
            return true;
        }
        let script = NodeTest::Tag(crate::dom::stg("script"));
        let src = TextTest::AttrContains(crate::dom::stg("src"), crate::dom::stg("_h5ai"));
        any_node(doc, &script, &none, &src)
    }

    pub fn is_od(res: &str) -> (r: bool)
        ensures
            r == spec_is_od(crate::dom::spec_parse(res@)),
    {
        let doc = crate::dom::parse_document(res);
        H5AI::is_od_doc(&doc)
    }
}

} // verus!
