//! FancyIndex family: its name, in either casing of each half, in a
//! script source, a footer note or a body comment.

use vstd::prelude::*;
use crate::dom::{HtmlDoc, HtmlNodeV, NodeTest, NodeTestV, TextTest, TextTestV, spec_any_node,
    any_node, anc0, anc1};

verus! {

pub struct FancyIndex;

/// The marker in any of its four casings appears in the given test
/// position.
pub open spec fn spec_marker_text(dv: Seq<HtmlNodeV>, t: NodeTestV, ancs: Seq<NodeTestV>) -> bool {
    spec_any_node(dv, t, ancs, TextTestV::Contains("fancyindex"@)) || spec_any_node(
        dv,
        t,
        ancs,
        TextTestV::Contains("fancyIndex"@),
    ) || spec_any_node(dv, t, ancs, TextTestV::Contains("Fancyindex"@)) || spec_any_node(
        dv,
        t,
        ancs,
        TextTestV::Contains("FancyIndex"@),
    )
}

/// The marker in any casing appears in an attribute of the given test
/// position.
pub open spec fn spec_marker_attr(
    dv: Seq<HtmlNodeV>,
    t: NodeTestV,
    ancs: Seq<NodeTestV>,
    a: Seq<char>,
) -> bool {
    spec_any_node(dv, t, ancs, TextTestV::AttrContains(a, "fancyindex"@)) || spec_any_node(
        dv,
        t,
        ancs,
        TextTestV::AttrContains(a, "fancyIndex"@),
    ) || spec_any_node(dv, t, ancs, TextTestV::AttrContains(a, "Fancyindex"@)) || spec_any_node(
        dv,
        t,
        ancs,
        TextTestV::AttrContains(a, "FancyIndex"@),
    )
}

/// A `small` footer under a `div`, a body comment, or a script source
/// carries the FancyIndex marker.
pub open spec fn spec_is_od(dv: Seq<HtmlNodeV>) -> bool {
    spec_marker_text(dv, NodeTestV::Tag("small"@), seq![NodeTestV::Tag("div"@)])
        || spec_marker_text(dv, NodeTestV::AnyComment, seq![NodeTestV::Tag("body"@)])
        || spec_marker_attr(
        dv,
        NodeTestV::TagAttrPresent("script"@, "src"@),
        Seq::<NodeTestV>::empty(),
        "src"@,
    )
}

fn marker_text(doc: &HtmlDoc, t: &NodeTest, ancs: &Vec<NodeTest>) -> (r: bool)
    requires
        doc.wf(),
    ensures
        r == spec_marker_text(doc@, t@, ancs.deep_view()),
{
    any_node(doc, t, ancs, &TextTest::Contains(crate::dom::stg("fancyindex"))) || any_node(
        doc,
        t,
        ancs,
        &TextTest::Contains(crate::dom::stg("fancyIndex")),
    ) || any_node(doc, t, ancs, &TextTest::Contains(crate::dom::stg("Fancyindex"))) || any_node(
        doc,
        t,
        ancs,
        &TextTest::Contains(crate::dom::stg("FancyIndex")),
    )
}

fn marker_attr(doc: &HtmlDoc, t: &NodeTest, ancs: &Vec<NodeTest>, a: &str) -> (r: bool)
    requires
        doc.wf(),
    ensures
        r == spec_marker_attr(doc@, t@, ancs.deep_view(), a@),
{
    any_node(doc, t, ancs, &TextTest::AttrContains(
        crate::dom::stg(a),
        crate::dom::stg("fancyindex"),
    )) || any_node(doc, t, ancs, &TextTest::AttrContains(
        crate::dom::stg(a),
        crate::dom::stg("fancyIndex"),
    )) || any_node(doc, t, ancs, &TextTest::AttrContains(
        crate::dom::stg(a),
        crate::dom::stg("Fancyindex"),
    )) || any_node(doc, t, ancs, &TextTest::AttrContains(
        crate::dom::stg(a),
        crate::dom::stg("FancyIndex"),
    ))
}

impl FancyIndex {
    pub fn is_od_doc(doc: &HtmlDoc) -> (r: bool)
        requires
            doc.wf(),
        ensures
            r == spec_is_od(doc@),
    {
        let small = NodeTest::Tag(crate::dom::stg("small"));
        let div = anc1(NodeTest::Tag(crate::dom::stg("div")));
        if marker_text(doc, &small, &div) {
            return true;
        }
        let comment = NodeTest::AnyComment;
        let body = anc1(NodeTest::Tag(crate::dom::stg("body")));
        if marker_text(doc, &comment, &body) {
            return true;
        }
        let script = NodeTest::TagAttrPresent(crate::dom::stg("script"), crate::dom::stg("src"));
        let none = anc0();
        marker_attr(doc, &script, &none, "src")
    }

    pub fn is_od(res: &str) -> (r: bool)
        ensures
            r == spec_is_od(crate::dom::spec_parse(res@)),
    {
        let doc = crate::dom::parse_document(res);
        FancyIndex::is_od_doc(&doc)
    }
}

} // verus!
