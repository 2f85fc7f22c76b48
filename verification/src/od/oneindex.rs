//! OneIndex family: a `/` breadcrumb after the first toolbar anchor.

use vstd::prelude::*;
use crate::dom::{HtmlDoc, HtmlNodeV, NodeTest, NodeTestV, TextTest, TextTestV, spec_trim,
    spec_node_selected, node_selected, anc1};

verus! {

pub struct OneIndex;

/// A toolbar anchor is selected at `i`.
pub open spec fn crumb_at(dv: Seq<HtmlNodeV>, i: int) -> bool {
    spec_node_selected(
        dv,
        i,
        NodeTestV::Tag("a"@),
        seq![NodeTestV::TagClass("div"@, "mdui-toolbar"@)],
        TextTestV::Anything,
    )
}

/// Some toolbar anchor beyond the first shows a bare `/` breadcrumb.
pub open spec fn spec_is_od(dv: Seq<HtmlNodeV>) -> bool {
    exists|i: int, j: int|
        0 <= j < i && #[trigger] crumb_at(dv, i) && #[trigger] crumb_at(dv, j) && spec_trim(
            dv[i].text,
        ) == "/"@
}

impl OneIndex {
    #[verifier::loop_isolation(false)]
    pub fn is_od_doc(doc: &HtmlDoc) -> (r: bool)
        requires
            doc.wf(),
        ensures
            r == spec_is_od(doc@),
    {
        let a = NodeTest::Tag(crate::dom::stg("a"));
        let toolbar = anc1(NodeTest::TagClass(
            crate::dom::stg("div"),
            crate::dom::stg("mdui-toolbar"),
        ));
        let slash = TextTest::TrimEquals(crate::dom::stg("/"));
        let n = doc.len();
        let mut i: usize = 0;
        let mut first: Option<usize> = None;
        while i < n
            invariant
                0 <= i <= n,
                match first {
                    Some(f) => (f as int) < i as int && crumb_at(doc@, f as int) && forall|k: int|
                        0 <= k < f ==> !crumb_at(doc@, k),
                    None => forall|k: int| 0 <= k < i ==> !crumb_at(doc@, k),
                },
                forall|ii: int, jj: int|
                    0 <= jj < ii < i && #[trigger] crumb_at(doc@, ii) && #[trigger] crumb_at(
                        doc@,
                        jj,
                    ) ==> spec_trim(doc@[ii].text) != "/"@,
        decreases n - i,
        {
            if node_selected(doc, i, &a, &toolbar, &TextTest::Anything) {
                match first {
                    Some(f) => {
                        if crate::dom::text_test(doc.node(i), &slash) {
                            assert(crumb_at(doc@, i as int) && crumb_at(doc@, f as int));
                            return true;
                        }
                    },
                    None => {
                        first = Some(i);
                    },
                }
            } else {
                assert(!crumb_at(doc@, i as int));
            }
            i = i + 1;
        }
        assert forall|ii: int, jj: int|
            0 <= jj < ii && #[trigger] crumb_at(doc@, ii) && #[trigger] crumb_at(
                doc@,
                jj,
            ) implies spec_trim(doc@[ii].text) != "/"@ by {
            if ii >= i as int {
                assert(!crumb_at(doc@, ii));
            }
        }
        false
    }

    pub fn is_od(res: &str) -> (r: bool)
        ensures
            r == spec_is_od(crate::dom::spec_parse(res@)),
    {
        let doc = crate::dom::parse_document(res);
        OneIndex::is_od_doc(&doc)
    }
}

} // verus!
