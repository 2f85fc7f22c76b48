//! OdIndex family: its potato and folder icons, or its name in a link
//! tag, and the `?p=t` preview query its links append.

use vstd::prelude::*;
use crate::text::{chars_of, string_of, seq_ends_with, ends_with_lit, subvec};
use crate::parser::copy_chars;
use crate::dom::{HtmlDoc, HtmlNodeV, NodeTest, NodeTestV, TextTest, TextTestV, spec_any_node,
    any_node, anc0, anc1};

verus! {

pub struct OdIndex;

/// The potato icon in the path bar, the folder icon in the heading, or
/// `OdIndex` in a link tag's href.
pub open spec fn spec_is_od(dv: Seq<HtmlNodeV>) -> bool {
    spec_any_node(
        dv,
        NodeTestV::Tag("a"@),
        seq![NodeTestV::TagClass("div"@, "pathshow"@)],
        TextTestV::Contains("\u{1F954}"@),
    ) || spec_any_node(
        dv,
        NodeTestV::TagClass("div"@, "headt"@),
        Seq::<NodeTestV>::empty(),
        TextTestV::StartsWith("\u{1F4C1}"@),
    ) || spec_any_node(
        dv,
        NodeTestV::TagAttrPresent("link"@, "href"@),
        Seq::<NodeTestV>::empty(),
        TextTestV::AttrContains("href"@, "OdIndex"@),
    )
}

impl OdIndex {
    pub fn is_od_doc(doc: &HtmlDoc) -> (r: bool)
        requires
            doc.wf(),
        ensures
            r == spec_is_od(doc@),
    {
        let a = NodeTest::Tag(crate::dom::stg("a"));
        let pathshow = anc1(NodeTest::TagClass(
            crate::dom::stg("div"),
            crate::dom::stg("pathshow"),
        ));
        let potato = TextTest::Contains(crate::dom::stg("\u{1F954}"));
        if any_node(doc, &a, &pathshow, &potato) {
            return true;
        }
        let headt = NodeTest::TagClass(crate::dom::stg("div"), crate::dom::stg("headt"));
        let none = anc0();
        let folder = TextTest::StartsWith(crate::dom::stg("\u{1F4C1}"));
        if any_node(doc, &headt, &none, &folder) {
            return true;
        }
        let link = NodeTest::TagAttrPresent(crate::dom::stg("link"), crate::dom::stg("href"));
        let href = TextTest::AttrContains(crate::dom::stg("href"), crate::dom::stg("OdIndex"));
        any_node(doc, &link, &none, &href)
    }

    pub fn is_od(res: &str) -> (r: bool)
        ensures
            r == spec_is_od(crate::dom::spec_parse(res@)),
    {
        let doc = crate::dom::parse_document(res);
        OdIndex::is_od_doc(&doc)
    }

    /// Strips the `?p=t` preview query this family appends.
    pub fn sanitize_url(x: &str) -> (r: String)
        ensures
            r@ == (if seq_ends_with(x@, "?p=t"@) {
                x@.take(x@.len() - 4)
            } else {
                x@
            }),
    {
        proof {
            reveal_strlit("?p=t");
        }
        let v = chars_of(x);
        if ends_with_lit(&v, "?p=t") {
            string_of(&subvec(&v, 0, v.len() - 4))
        } else {
            string_of(&copy_chars(&v))
        }
    }
}

} // verus!
