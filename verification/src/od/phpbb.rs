//! phpBB family: the `body#phpbb` selector, its description meta tag, or
//! the forum heading.

use vstd::prelude::*;
use crate::text::chars_of;
use crate::parser::eq_chars;
use crate::dom::{HtmlDoc, HtmlNodeV, NodeTest, NodeTestV, TextTest, TextTestV, spec_any_node,
    any_node, anc0, anc1};

verus! {

pub struct PHPBB;

/// A `body#phpbb`, a description meta tag naming phpBB, or a forum
/// heading naming it.
pub open spec fn spec_is_od(dv: Seq<HtmlNodeV>) -> bool {
    spec_any_node(
        dv,
        NodeTestV::TagAttrEq("body"@, "id"@, "phpbb"@),
        Seq::<NodeTestV>::empty(),
        TextTestV::Anything,
    ) || spec_any_node(
        dv,
        NodeTestV::TagAttrEq("meta"@, "name"@, "description"@),
        Seq::<NodeTestV>::empty(),
        TextTestV::AttrContains("content"@, "phpBB"@),
    ) || spec_any_node(
        dv,
        NodeTestV::Tag("h1"@),
        seq![NodeTestV::Tag("div"@)],
        TextTestV::Contains("phpBB"@),
    )
}

impl PHPBB {
    pub fn is_od_doc(doc: &HtmlDoc) -> (r: bool)
        requires
            doc.wf(),
        ensures
            r == spec_is_od(doc@),
    {
        let none = anc0();
        let body = NodeTest::TagAttrEq(
            crate::dom::stg("body"),
            crate::dom::stg("id"),
            crate::dom::stg("phpbb"),
        );
        if any_node(doc, &body, &none, &TextTest::Anything) {
            return true;
        }
        let meta = NodeTest::TagAttrEq(
            crate::dom::stg("meta"),
            crate::dom::stg("name"),
            crate::dom::stg("description"),
        );
        let content = TextTest::AttrContains(crate::dom::stg("content"), crate::dom::stg("phpBB"));
        if any_node(doc, &meta, &none, &content) {
            return true;
        }
        let h1 = NodeTest::Tag(crate::dom::stg("h1"));
        let div = anc1(NodeTest::Tag(crate::dom::stg("div")));
        let id = TextTest::Contains(crate::dom::stg("phpBB"));
        any_node(doc, &h1, &div, &id)
    }

    pub fn is_od(res: &str) -> (r: bool)
        ensures
            r == spec_is_od(crate::dom::spec_parse(res@)),
    {
        let doc = crate::dom::parse_document(res);
        PHPBB::is_od_doc(&doc)
    }

    /// Filter out the `AUTHORS` & `COPYING` files phpBB trees carry.
    pub fn is_copy_file(x: &str) -> (r: bool)
        ensures
            r == (x@ == "COPYING"@ || x@ == "AUTHORS"@),
    {
        let v = chars_of(x);
        let c = chars_of("COPYING");
        let a = chars_of("AUTHORS");
        eq_chars(&v, &c) || eq_chars(&v, &a)
    }
}

} // verus!
