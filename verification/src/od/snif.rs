//! Snif family: its copyright footer or the `snif` body class, plus the
//! parent and duplicate-download filters its listings need.

use vstd::prelude::*;
use crate::text::{chars_of, seq_contains, contains_lit};
use crate::parser::eq_chars;
use crate::dom::{HtmlDoc, HtmlNodeV, NodeTest, NodeTestV, TextTest, TextTestV, spec_any_node,
    any_node, anc0, anc1};

verus! {

pub struct Snif;

/// The copyright anchor starting with `snif`, or a `body.snif`.
pub open spec fn spec_is_od(dv: Seq<HtmlNodeV>) -> bool {
    spec_any_node(
        dv,
        NodeTestV::Tag("a"@),
        seq![NodeTestV::TagClass("div"@, "snCopyright"@)],
        TextTestV::StartsWith("snif"@),
    ) || spec_any_node(
        dv,
        NodeTestV::TagClass("body"@, "snif"@),
        Seq::<NodeTestV>::empty(),
        TextTestV::Anything,
    )
}

impl Snif {
    pub fn is_od_doc(doc: &HtmlDoc) -> (r: bool)
        requires
            doc.wf(),
        ensures
            r == spec_is_od(doc@),
    {
        let a = NodeTest::Tag(crate::dom::stg("a"));
        let cp = anc1(NodeTest::TagClass(
            crate::dom::stg("div"),
            crate::dom::stg("snCopyright"),
        ));
        let tt = TextTest::StartsWith(crate::dom::stg("snif"));
        if any_node(doc, &a, &cp, &tt) {
            return true;
        }
        let body = NodeTest::TagClass(crate::dom::stg("body"), crate::dom::stg("snif"));
        let none = anc0();
        any_node(doc, &body, &none, &TextTest::Anything)
    }

    pub fn is_od(res: &str) -> (r: bool)
        ensures
            r == spec_is_od(crate::dom::spec_parse(res@)),
    {
        let doc = crate::dom::parse_document(res);
        Snif::is_od_doc(&doc)
    }

    /// Filter out the parent directory by its title attribute.
    pub fn is_parent(x: Option<&str>) -> (r: bool)
        ensures
            r == (match x {
                Some(title) => title@ == ".."@,
                None => false,
            }),
    {
        match x {
            Some(title) => {
                let v = chars_of(title);
                let dd = chars_of("..");
                eq_chars(&v, &dd)
            },
            None => false,
        }
    }

    /// Filter out extra download links.
    pub fn is_download(x: Option<&str>) -> (r: bool)
        ensures
            r == (match x {
                Some(link) => seq_contains(link@, "&download="@),
                None => false,
            }),
    {
        match x {
            Some(link) => {
                let v = chars_of(link);
                contains_lit(&v, "&download=")
            },
            None => false,
        }
    }
}

} // verus!
