//! Windex family: a head comment naming its repository, or the
//! `/windex` asset path in a stylesheet or script.

use vstd::prelude::*;
use crate::dom::{HtmlDoc, HtmlNodeV, NodeTest, NodeTestV, TextTest, TextTestV, spec_any_node,
    any_node, anc0, anc1};

verus! {

pub struct Windex;

/// A head comment naming the Windex repository, or `/windex` in a link
/// href or script source.
pub open spec fn spec_is_od(dv: Seq<HtmlNodeV>) -> bool {
    spec_comments(dv) || spec_style_tags(dv) || spec_script_tags(dv)
}

pub open spec fn spec_comments(dv: Seq<HtmlNodeV>) -> bool {
    spec_any_node(
        dv,
        NodeTestV::AnyComment,
        seq![NodeTestV::Tag("head"@)],
        TextTestV::Contains("https://github.com/desandro/windex"@),
    )
}

pub open spec fn spec_style_tags(dv: Seq<HtmlNodeV>) -> bool {
    spec_any_node(
        dv,
        NodeTestV::TagAttrPresent("link"@, "href"@),
        Seq::<NodeTestV>::empty(),
        TextTestV::AttrContains("href"@, "/windex"@),
    )
}

pub open spec fn spec_script_tags(dv: Seq<HtmlNodeV>) -> bool {
    spec_any_node(
        dv,
        NodeTestV::TagAttrPresent("script"@, "src"@),
        Seq::<NodeTestV>::empty(),
        TextTestV::AttrContains("src"@, "/windex"@),
    )
}

impl Windex {
    /// Check head comments for the repository reference.
    pub fn comments_doc(doc: &HtmlDoc) -> (r: bool)
        requires
            doc.wf(),
        ensures
            r == spec_comments(doc@),
    {
        let comment = NodeTest::AnyComment;
        let head = anc1(NodeTest::Tag(crate::dom::stg("head")));
        let repo = TextTest::Contains(crate::dom::stg("https://github.com/desandro/windex"));
        any_node(doc, &comment, &head, &repo)
    }

    /// Check stylesheets for the asset path.
    pub fn style_tags_doc(doc: &HtmlDoc) -> (r: bool)
        requires
            doc.wf(),
        ensures
            r == spec_style_tags(doc@),
    {
        let link = NodeTest::TagAttrPresent(crate::dom::stg("link"), crate::dom::stg("href"));
        let none = anc0();
        let href = TextTest::AttrContains(crate::dom::stg("href"), crate::dom::stg("/windex"));
        any_node(doc, &link, &none, &href)
    }

    /// Check script tags for the asset path.
    pub fn script_tags_doc(doc: &HtmlDoc) -> (r: bool)
        requires
            doc.wf(),
        ensures
            r == spec_script_tags(doc@),
    {
        let script = NodeTest::TagAttrPresent(crate::dom::stg("script"), crate::dom::stg("src"));
        let none = anc0();
        let src = TextTest::AttrContains(crate::dom::stg("src"), crate::dom::stg("/windex"));
        any_node(doc, &script, &none, &src)
    }

    pub fn is_od_doc(doc: &HtmlDoc) -> (r: bool)
        requires
            doc.wf(),
        ensures
            r == spec_is_od(doc@),
    {
        Windex::comments_doc(doc) || Windex::style_tags_doc(doc) || Windex::script_tags_doc(doc)
    }

    pub fn is_od(res: &str) -> (r: bool)
        ensures
            r == spec_is_od(crate::dom::spec_parse(res@)),
    {
        let doc = crate::dom::parse_document(res);
        Windex::is_od_doc(&doc)
    }

    pub fn comments(res: &str) -> (r: bool)
        ensures
            r == spec_comments(crate::dom::spec_parse(res@)),
    {
        let doc = crate::dom::parse_document(res);
        Windex::comments_doc(&doc)
    }

    pub fn style_tags(res: &str) -> (r: bool)
        ensures
            r == spec_style_tags(crate::dom::spec_parse(res@)),
    {
        let doc = crate::dom::parse_document(res);
        Windex::style_tags_doc(&doc)
    }

    pub fn script_tags(res: &str) -> (r: bool)
        ensures
            r == spec_script_tags(crate::dom::spec_parse(res@)),
    {
        let doc = crate::dom::parse_document(res);
        Windex::script_tags_doc(&doc)
    }
}

} // verus!
