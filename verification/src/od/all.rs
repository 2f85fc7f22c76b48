//! The filter every extraction strategy shares: anchors that lead back to
//! the parent directory, to the home page or to a navigator no-op are
//! dropped before a link is considered at all.

use vstd::prelude::*;
use crate::text::{chars_of, seq_contains, seq_starts_with};
use crate::text::{starts_with_lit, contains_lit};
use crate::parser::{spec_lower_seq, spec_remove_http, spec_remove_last_slash, to_lower_chars,
    remove_http_chars, remove_last_slash_chars, eq_chars};
use crate::dom::{spec_trim, trim_chars};

verus! {

/// The anchor text, trimmed and lowercased, announces a parent-directory
/// link or the Microsoft IIS parent marker.
pub open spec fn spec_parent_text(content: Seq<char>) -> bool {
    let c = spec_lower_seq(spec_trim(content));
    seq_starts_with(c, "parent directory"@) || c == "microsoft-iis"@
}

/// The href is one of the explicit back-steps `.`, `..`, `./`, `../`.
pub open spec fn spec_back_path(link: Seq<char>) -> bool {
    link == "."@ || link == "../"@ || link == ".."@ || link == "./"@
}

/// The href leads to the same page as the base URL once schemes and
/// trailing slashes are set aside.
pub open spec fn spec_same_as_base(link: Seq<char>, url: Seq<char>) -> bool {
    spec_remove_last_slash(spec_remove_http(link)) == spec_remove_last_slash(
        spec_remove_http(url),
    )
}

/// The anchor survives the shared filter: its text is no parent marker,
/// its href exists and is neither a back-step, nor a home navigator,
/// nor the base page itself.
pub open spec fn spec_no_parent_dir(
    url: Seq<char>,
    content: Seq<char>,
    href: Option<Seq<char>>,
) -> bool {
    match href {
        Some(link) => !spec_parent_text(content) && !spec_back_path(link)
            && !crate::od::directory_listing_script::spec_is_home_navigator(link)
            && !spec_same_as_base(link, url),
        None => false,
    }
}

/// Check if link leads back to the parent directory, the home page or a
/// navigator no-op.
pub fn no_parent_dir(url: &str, content: &str, href: Option<&str>) -> (r: bool)
    ensures
        r == spec_no_parent_dir(
            url@,
            content@,
            match href {
                Some(h) => Some(h@),
                None => None,
            },
        ),
{
    let link = match href {
        Some(h) => h,
        None => {
            return false;
        },
    };
    let cv = chars_of(content);
    let c = to_lower_chars(&trim_chars(&cv));
    let not_parent = {
        let pd = chars_of("parent directory");
        let iis = chars_of("microsoft-iis");
        !crate::text::starts_with_chars(&c, &pd) && !eq_chars(&c, &iis)
    };
    if !not_parent {
        return false;
    }
    let lv = chars_of(link);
    let dot = chars_of(".");
    let ddot = chars_of("..");
    let dslash = chars_of("./");
    let ddslash = chars_of("../");
    if eq_chars(&lv, &dot) || eq_chars(&lv, &ddot) || eq_chars(&lv, &dslash) || eq_chars(
        &lv,
        &ddslash,
    ) {
        return false;
    }
    if crate::od::directory_listing_script::DirectoryListingScript::is_home_navigator(link) {
        return false;
    }
    let uv = chars_of(url);
    let l2 = remove_last_slash_chars(&remove_http_chars(&lv));
    let u2 = remove_last_slash_chars(&remove_http_chars(&uv));
    !eq_chars(&l2, &u2)
}

} // verus!
