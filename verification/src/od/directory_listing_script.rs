//! Evoluted Directory Listing Script family: breadcrumb heading, footer
//! credit or title signature, plus the `index.php?dir=` home navigator
//! links its pages carry.

use vstd::prelude::*;
use crate::text::{chars_of, string_of, seq_contains, seq_ends_with, contains_at, subvec, push_all,
    push_lit, is_letter_char, starts_with_lit, ends_with_lit};
use crate::parser::{letter_run_start, letter_run_start_exec, spec_replace_all, replace_all,
    spec_split_url, split_url, spec_scheme_host_port, copy_chars, eq_chars};
use crate::dom::{HtmlDoc, NodeTest, NodeTestV, TextTest, TextTestV, spec_any_node, any_node};

verus! {

pub struct DirectoryListingScript;

/// The link ends in a home navigator: `/<letters>.php?dir=` with an
/// optional slash before the query.
pub open spec fn spec_is_home_navigator(s: Seq<char>) -> bool {
    let l = s.len() as int;
    seq_ends_with(s, "?dir="@) && s.len() >= 6 && {
        let j = if s[l - 6] == '/' {
            l - 6
        } else {
            l - 5
        };
        j >= 4 && s.subrange(j - 4, j) == ".php"@ && {
            let r = letter_run_start(s, j - 4);
            r < j - 4 && r >= 1 && s[r - 1] == '/'
        }
    }
}

impl DirectoryListingScript {
    /// Check if url has an `index.php?dir=`-style component at the end.
    pub fn is_home_navigator(url: &str) -> (r: bool)
        ensures
            r == spec_is_home_navigator(url@),
    {
        let v = chars_of(url);
        DirectoryListingScript::is_home_navigator_chars(&v)
    }

    #[verifier::loop_isolation(false)]
    pub fn is_home_navigator_chars(v: &Vec<char>) -> (r: bool)
        ensures
            r == spec_is_home_navigator(v@),
    {
        proof {
            reveal_strlit("?dir=");
            reveal_strlit(".php");
            reveal_strlit("/");
        }
        let n = v.len();
        if n < 6 {
            return false;
        }
        if !ends_with_lit(v, "?dir=") {
            return false;
        }
        let j = if v[n - 6] == '/' {
            n - 6
        } else {
            n - 5
        };
        if j < 4 {
            return false;
        }
        let php = chars_of(".php");
        if !crate::text::eq_at(v, &php, j - 4) {
            assert(v@.subrange(j - 4, j as int) != ".php"@);
            return false;
        }
        assert(v@.subrange(j - 4, j as int) == ".php"@);
        let r = letter_run_start_exec(v, j - 4);
        r < j - 4 && r >= 1 && v[r - 1] == '/'
    }

    /// Collapses the doubled percent-encoded slash its directory links
    /// carry.
    pub fn transform_dir_link(rel: &str) -> (r: String)
        ensures
            r@ == spec_replace_all(rel@, "%2F%2F"@, "%2F"@),
    {
        let v = chars_of(rel);
        let pat = chars_of("%2F%2F");
        let rep = chars_of("%2F");
        string_of(&replace_all(&v, &pat, &rep))
    }
}

/// The path, less a trailing `/<letters>.php[/]` script component.
pub open spec fn spec_strip_php_suffix(path: Seq<char>) -> Seq<char> {
    let t = if path.len() > 0 && path.last() == '/' {
        path.drop_last()
    } else {
        path
    };
    if t.len() >= 4 && t.subrange(t.len() - 4, t.len() as int) == ".php"@ && {
        let r = letter_run_start(t, t.len() - 4);
        r < t.len() - 4 && r >= 1 && t[r - 1] == '/'
    } {
        t.take(letter_run_start(t, t.len() - 4) - 1)
    } else {
        path
    }
}

#[verifier::loop_isolation(false)]
pub fn strip_php_suffix(path: &Vec<char>) -> (r: Vec<char>)
    ensures
        r@ == spec_strip_php_suffix(path@),
{
    proof {
        reveal_strlit(".php");
    }
    let n = path.len();
    let t = if n > 0 && path[n - 1] == '/' {
        let t = subvec(path, 0, n - 1);
        assert(t@ =~= path@.drop_last());
        t
    } else {
        copy_chars(path)
    };
    let m = t.len();
    if m < 4 {
        return copy_chars(path);
    }
    let php = chars_of(".php");
    if !crate::text::eq_at(&t, &php, m - 4) {
        assert(t@.subrange(m - 4, m as int) != ".php"@);
        return copy_chars(path);
    }
    assert(t@.subrange(m - 4, m as int) == ".php"@);
    let r = letter_run_start_exec(&t, m - 4);
    if r < m - 4 && r >= 1 && t[r - 1] == '/' {
        subvec(&t, 0, r - 1)
    } else {
        copy_chars(path)
    }
}

/// How a relative link becomes absolute for this family: the base's
/// script component is dropped and the link hung under what remains,
/// unless the link already names the host.
pub open spec fn spec_transform_link(url: Seq<char>, rel: Seq<char>) -> Option<Seq<char>> {
    match spec_split_url(url) {
        None => None,
        Some(p) => if seq_contains(rel, p.host) {
            Some(rel)
        } else {
            let path = spec_strip_php_suffix(p.path);
            let base = p.scheme + "://"@ + p.host;
            if path.len() > 0 && path.last() == '/' && rel.len() > 0 && rel[0] == '/' {
                Some(base + path + rel.skip(1))
            } else if !(path.len() > 0 && path.last() == '/') && !(rel.len() > 0 && rel[0]
                == '/') {
                Some(base + path + "/"@ + rel)
            } else {
                Some(base + path + rel)
            }
        },
    }
}

impl DirectoryListingScript {
    /// Transforms a file link into an absolute one.
    pub fn transform_link(url: &str, rel: &str) -> (r: Option<String>)
        ensures
            match r {
                Some(s) => spec_transform_link(url@, rel@) == Some(s@),
                None => spec_transform_link(url@, rel@) is None,
            },
    {
        proof {
            reveal_strlit("/");
        }
        let uv = chars_of(url);
        let rv = chars_of(rel);
        let p = match split_url(&uv) {
            Some(p) => p,
            None => {
                return None;
            },
        };
        if crate::text::contains_chars(&rv, &p.host) {
            return Some(string_of(&rv));
        }
        let path = strip_php_suffix(&p.path);
        let mut base: Vec<char> = Vec::new();
        push_all(&mut base, &p.scheme);
        push_lit(&mut base, "://");
        push_all(&mut base, &p.host);
        push_all(&mut base, &path);
        let path_slash = path.len() > 0 && path[path.len() - 1] == '/';
        let rel_slash = rv.len() > 0 && rv[0] == '/';
        if path_slash && rel_slash {
            let t = subvec(&rv, 1, rv.len());
            assert(t@ =~= rv@.skip(1));
            push_all(&mut base, &t);
        } else if !path_slash && !rel_slash {
            push_lit(&mut base, "/");
            push_all(&mut base, &rv);
        } else {
            push_all(&mut base, &rv);
        }
        Some(string_of(&base))
    }

    /// The page shows this family's breadcrumb heading, footer credit or
    /// title.
    pub fn is_od_doc(doc: &HtmlDoc) -> (r: bool)
        requires
            doc.wf(),
        ensures
            r == spec_is_od(doc@),
    {
        let div_anc = crate::dom::anc1(NodeTest::Tag(crate::dom::stg("div")));
        let h1 = NodeTest::Tag(crate::dom::stg("h1"));
        let a = NodeTest::Tag(crate::dom::stg("a"));
        let crumb = TextTest::Contains(crate::dom::stg("Directory Listing of"));
        let footer = TextTest::Contains(crate::dom::stg("Web Design Sheffield"));
        let title = TextTest::Contains(crate::dom::stg("Evoluted Directory Listing Script"));
        any_node(doc, &h1, &div_anc, &crumb) || any_node(doc, &a, &div_anc, &footer) || any_node(
            doc,
            &h1,
            &div_anc,
            &title,
        )
    }

    /// Check if the ID of this family can be found on the page.
    pub fn is_od(res: &str) -> (r: bool)
        ensures
            r == spec_is_od(crate::dom::spec_parse(res@)),
    {
        let doc = crate::dom::parse_document(res);
        DirectoryListingScript::is_od_doc(&doc)
    }
}

/// The page carries this family's signature: a breadcrumb heading
/// `Directory Listing of`, the `Web Design Sheffield` footer credit, or
/// the script's own title, each inside a `div`.
pub open spec fn spec_is_od(dv: Seq<crate::dom::HtmlNodeV>) -> bool {
    spec_any_node(
        dv,
        NodeTestV::Tag("h1"@),
        seq![NodeTestV::Tag("div"@)],
        TextTestV::Contains("Directory Listing of"@),
    ) || spec_any_node(
        dv,
        NodeTestV::Tag("a"@),
        seq![NodeTestV::Tag("div"@)],
        TextTestV::Contains("Web Design Sheffield"@),
    ) || spec_any_node(
        dv,
        NodeTestV::Tag("h1"@),
        seq![NodeTestV::Tag("div"@)],
        TextTestV::Contains("Evoluted Directory Listing Script"@),
    )
}

} // verus!
