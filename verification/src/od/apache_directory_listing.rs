//! Apache Directory Listing family: the `indexlist` table or its footer
//! credit.

use vstd::prelude::*;
use crate::dom::{HtmlDoc, HtmlNodeV, NodeTest, NodeTestV, TextTest, TextTestV, spec_any_node,
    any_node, anc0, anc2};

verus! {

pub struct ApacheDirectoryListing;

/// The page holds a `table#indexlist`, or a footer credit reading
/// `Apache Directory Listing` in an emphasized anchor.
pub open spec fn spec_is_od(dv: Seq<HtmlNodeV>) -> bool {
    spec_any_node(
        dv,
        NodeTestV::TagAttrEq("table"@, "id"@, "indexlist"@),
        Seq::<NodeTestV>::empty(),
        TextTestV::Anything,
    ) || spec_any_node(
        dv,
        NodeTestV::Tag("em"@),
        seq![NodeTestV::Tag("a"@), NodeTestV::Tag("footer"@)],
        TextTestV::Equals("Apache Directory Listing"@),
    )
}

impl ApacheDirectoryListing {
    pub fn is_od_doc(doc: &HtmlDoc) -> (r: bool)
        requires
            doc.wf(),
        ensures
            r == spec_is_od(doc@),
    {
        let table = NodeTest::TagAttrEq(
            crate::dom::stg("table"),
            crate::dom::stg("id"),
            crate::dom::stg("indexlist"),
        );
        let none = anc0();
        let anything = TextTest::Anything;
        if any_node(doc, &table, &none, &anything) {
            return true;
        }
        let em = NodeTest::Tag(crate::dom::stg("em"));
        let ancs = anc2(
            NodeTest::Tag(crate::dom::stg("a")),
            NodeTest::Tag(crate::dom::stg("footer")),
        );
        let tt = TextTest::Equals(crate::dom::stg("Apache Directory Listing"));
        any_node(doc, &em, &ancs, &tt)
    }

    pub fn is_od(res: &str) -> (r: bool)
        ensures
            r == spec_is_od(crate::dom::spec_parse(res@)),
    {
        let doc = crate::dom::parse_document(res);
        ApacheDirectoryListing::is_od_doc(&doc)
    }
}

} // verus!
