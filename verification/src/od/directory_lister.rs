//! Directory Lister family: its footer credit or download icon.

use vstd::prelude::*;
use crate::dom::{HtmlDoc, HtmlNodeV, NodeTest, NodeTestV, TextTest, TextTestV, spec_any_node,
    any_node, anc0, anc2};

verus! {

pub struct DirectoryLister;

/// The footer credit anchor reading `Directory Lister`, or the download
/// icon class.
pub open spec fn spec_is_od(dv: Seq<HtmlNodeV>) -> bool {
    spec_any_node(
        dv,
        NodeTestV::Tag("a"@),
        seq![NodeTestV::Tag("p"@), NodeTestV::Tag("footer"@)],
        TextTestV::Equals("Directory Lister"@),
    ) || spec_any_node(
        dv,
        NodeTestV::WithClass("fa-download"@),
        Seq::<NodeTestV>::empty(),
        TextTestV::Anything,
    )
}

impl DirectoryLister {
    pub fn is_od_doc(doc: &HtmlDoc) -> (r: bool)
        requires
            doc.wf(),
        ensures
            r == spec_is_od(doc@),
    {
        let a = NodeTest::Tag(crate::dom::stg("a"));
        let ancs = anc2(
            NodeTest::Tag(crate::dom::stg("p")),
            NodeTest::Tag(crate::dom::stg("footer")),
        );
        let credit = TextTest::Equals(crate::dom::stg("Directory Lister"));
        if any_node(doc, &a, &ancs, &credit) {
            return true;
        }
        let icon = NodeTest::WithClass(crate::dom::stg("fa-download"));
        let none = anc0();
        any_node(doc, &icon, &none, &TextTest::Anything)
    }

    pub fn is_od(res: &str) -> (r: bool)
        ensures
            r == spec_is_od(crate::dom::spec_parse(res@)),
    {
        let doc = crate::dom::parse_document(res);
        DirectoryLister::is_od_doc(&doc)
    }
}

} // verus!
