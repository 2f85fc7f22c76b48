//! PanIndex family: its copyright note, or the familiar set of toolbar
//! buttons, counted down as they are seen.

use vstd::prelude::*;
use crate::dom::{HtmlDoc, HtmlNodeV, NodeTest, NodeTestV, TextTest, TextTestV, spec_any_node,
    any_node, spec_node_selected, node_selected, anc1};

verus! {

pub struct PanIndex;

/// A toolbar button icon is selected at `i`.
pub open spec fn button_at(dv: Seq<HtmlNodeV>, i: int) -> bool {
    spec_node_selected(
        dv,
        i,
        NodeTestV::Tag("i"@),
        seq![NodeTestV::TagAttrPresent("button"@, "mdui-tooltip"@)],
        TextTestV::Anything,
    )
}

/// The icon's text names one of the first `c` entries of the button
/// list `brightness_5`, `brightness_4`, `panorama_wide_angle`, `sort`.
pub open spec fn known_button(text: Seq<char>, c: int) -> bool {
    (c >= 1 && text == "brightness_5"@) || (c >= 2 && text == "brightness_4"@) || (c >= 3 && text
        == "panorama_wide_angle"@) || (c >= 4 && text == "sort"@)
}

/// The countdown over the toolbar icons from `i` with `c` button names
/// left: a further icon seen once only one name remains decides it.
pub open spec fn spec_button_scan(dv: Seq<HtmlNodeV>, i: int, c: int) -> bool
    decreases dv.len() - i when 0 <= i <= dv.len()
{
    if i >= dv.len() {
        false
    } else if !button_at(dv, i) {
        spec_button_scan(dv, i + 1, c)
    } else if c == 1 {
        true
    } else if known_button(dv[i].text, c) {
        spec_button_scan(dv, i + 1, c - 1)
    } else {
        spec_button_scan(dv, i + 1, c)
    }
}

/// The copyright note names PanIndex, or the toolbar buttons do.
pub open spec fn spec_is_od(dv: Seq<HtmlNodeV>) -> bool {
    spec_any_node(
        dv,
        NodeTestV::TagClass("div"@, "mdui-typo"@),
        Seq::<NodeTestV>::empty(),
        TextTestV::Contains("PanIndex"@),
    ) || spec_button_scan(dv, 0, 4)
}

impl PanIndex {
    pub fn is_od_doc(doc: &HtmlDoc) -> (r: bool)
        requires
            doc.wf(),
        ensures
            r == spec_is_od(doc@),
    {
        let typo = NodeTest::TagClass(crate::dom::stg("div"), crate::dom::stg("mdui-typo"));
        let none = crate::dom::anc0();
        let id = TextTest::Contains(crate::dom::stg("PanIndex"));
        if any_node(doc, &typo, &none, &id) {
            return true;
        }
        PanIndex::toolbar_button_id(doc)
    }

    /// Count down the familiar toolbar buttons as they are seen.
    #[verifier::loop_isolation(false)]
    pub fn toolbar_button_id(doc: &HtmlDoc) -> (r: bool)
        requires
            doc.wf(),
        ensures
            r == spec_button_scan(doc@, 0, 4),
    {
        let icon = NodeTest::Tag(crate::dom::stg("i"));
        let button = anc1(NodeTest::TagAttrPresent(
            crate::dom::stg("button"),
            crate::dom::stg("mdui-tooltip"),
        ));
        let b5 = TextTest::Equals(crate::dom::stg("brightness_5"));
        let b4 = TextTest::Equals(crate::dom::stg("brightness_4"));
        let pwa = TextTest::Equals(crate::dom::stg("panorama_wide_angle"));
        let sort_name = TextTest::Equals(crate::dom::stg("sort"));
        let n = doc.len();
        let mut i: usize = 0;
        let mut c: usize = 4;
        while i < n
            invariant
                0 <= i <= n,
                1 <= c <= 4,
                spec_button_scan(doc@, 0, 4) == spec_button_scan(doc@, i as int, c as int),
            decreases n - i,
        {
            if node_selected(doc, i, &icon, &button, &TextTest::Anything) {
                if c == 1 {
                    return true;
                }
                let node = doc.node(i);
                let known = (c >= 1 && crate::dom::text_test(node, &b5)) || (c >= 2
                    && crate::dom::text_test(node, &b4)) || (c >= 3 && crate::dom::text_test(
                    node,
                    &pwa,
                )) || (c >= 4 && crate::dom::text_test(node, &sort_name));
                assert(known == known_button(doc@[i as int].text, c as int));
                if known {
                    c = c - 1;
                }
            }
            i = i + 1;
        }
        false
    }

    pub fn is_od(res: &str) -> (r: bool)
        ensures
            r == spec_is_od(crate::dom::spec_parse(res@)),
    {
        let doc = crate::dom::parse_document(res);
        PanIndex::is_od_doc(&doc)
    }
}

} // verus!
