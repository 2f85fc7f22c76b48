//! The crawl orchestrator: accept/reject filtering, the per-page file
//! and directory scrape, and the depth-bounded, cycle-safe session that
//! drives them. Fetching is left to the caller; the session hands out
//! the next URL to fetch and takes the fetched page back.

use vstd::prelude::*;
use vstd::string::StringExecFns;
use crate::text::{chars_of, string_of, contains_at, seq_contains, seq_starts_with, seq_ends_with,
    subvec, push_all, push_lit, contains_lit, starts_with_lit, ends_with_lit};
use crate::parser::{spec_is_http, is_http, spec_replace_all, replace_all, spec_url_joiner,
    url_joiner_chars, spec_removes_single_path, removes_single_path_chars, spec_is_file_ext,
    is_file_ext_chars, spec_sub_dir_check, sub_dir_check, spec_check_dir_query, check_dir_query,
    spec_is_back_url, spec_is_home_url, spec_unrelated_dir_queries, spec_has_page_query,
    spec_within_page_limit, spec_is_rel_url, spec_encode_slash_starts_with, spec_is_uri, is_uri,
    spec_add_last_slash, add_last_slash, spec_remove_last_slash, remove_last_slash,
    spec_sanitize_url, sanitize_url, copy_chars, eq_chars, spec_join};
use crate::od::{ODMethod, spec_od_type_from_url, od_type_from_url, spec_od_type_from_document,
    classify_document};
use crate::od::olaindex::{OLAINDEX, spec_has_dl_query, spec_hash_query, spec_dl_anchored};
use crate::asset::{File, Directory, Page, file_built_from};
use crate::dom::{HtmlDoc, HtmlNodeV};
use crate::search::{spec_filtered_links, links_from_doc};

verus! {

/// What can end a crawl session early.
#[derive(PartialEq, Eq, Structural, Clone, Copy, Debug)]
pub enum ScrapeError {
    /// An accept or reject pattern is no valid regular expression.
    FilterConfig,
    /// A URL needed for joining cannot be read as an absolute URL.
    MalformedUrl,
}

impl ScrapeError {
    /// A short description of the error.
    pub fn message(&self) -> (r: &'static str)
        ensures
            *self is FilterConfig ==> r@ == "invalid accept or reject pattern"@,
            *self is MalformedUrl ==> r@ == "URL cannot be parsed"@,
    {
        match self {
            ScrapeError::FilterConfig => "invalid accept or reject pattern",
            ScrapeError::MalformedUrl => "URL cannot be parsed",
        }
    }
}

// ---------------------------------------------------------------------------
// The accept/reject patterns, through the regex crate
// ---------------------------------------------------------------------------

/// Whether the pattern is a valid regular expression.
pub uninterp spec fn regex_valid(pat: Seq<char>) -> bool;

/// Whether the pattern matches somewhere in the text.
pub uninterp spec fn regex_is_match(pat: Seq<char>, text: Seq<char>) -> bool;

/// Relies on `regex::Regex::new` and `Regex::is_match`: compilation
/// succeeds exactly on valid patterns, and a match is a function of the
/// pattern and the text alone.
#[verifier::external_body]
fn regex_match(pat: &str, text: &str) -> (r: Option<bool>)
    ensures
        r is Some <==> regex_valid(pat@),
        r is Some ==> r->0 == regex_is_match(pat@, text@),
{
    match regex::Regex::new(pat) {
        Ok(re) => Some(re.is_match(text)),
        Err(_) => None,
    }
}

/// The accept/reject rule: with an accept pattern, keep exactly the
/// matches; else with a reject pattern, keep exactly the non-matches;
/// with neither, keep everything. Accept takes precedence.
pub open spec fn spec_keep_file(
    accept: Option<Seq<char>>,
    reject: Option<Seq<char>>,
    link: Seq<char>,
) -> bool {
    match accept {
        Some(a) => regex_is_match(a, link),
        None => match reject {
            Some(rj) => !regex_is_match(rj, link),
            None => true,
        },
    }
}

/// The pattern the decision rests on, if any.
pub open spec fn spec_pattern_used(
    accept: Option<Seq<char>>,
    reject: Option<Seq<char>>,
) -> Option<Seq<char>> {
    match accept {
        Some(a) => Some(a),
        None => reject,
    }
}

/// Decides whether a link is kept under the configured patterns.
/// Fails exactly when the pattern the decision rests on is invalid.
pub fn keep_file(accept: &Option<String>, reject: &Option<String>, link: &str) -> (r: Result<
    bool,
    ScrapeError,
>)
    ensures
        (r is Ok <==> (match spec_pattern_used(opt_view(*accept), opt_view(*reject)) {
            Some(p) => regex_valid(p),
            None => true,
        })),
        r is Ok ==> r->Ok_0 == spec_keep_file(opt_view(*accept), opt_view(*reject), link@),
        r is Err ==> r->Err_0 is FilterConfig,
{
    match accept {
        Some(a) => match regex_match(a.as_str(), link) {
            Some(m) => Ok(m),
            None => Err(ScrapeError::FilterConfig),
        },
        None => match reject {
            Some(rj) => match regex_match(rj.as_str(), link) {
                Some(m) => Ok(!m),
                None => Err(ScrapeError::FilterConfig),
            },
            None => Ok(true),
        },
    }
}

/// The views of an optional string.
pub open spec fn opt_view(o: Option<String>) -> Option<Seq<char>> {
    match o {
        Some(s) => Some(s@),
        None => None,
    }
}

// ---------------------------------------------------------------------------
// The accept/reject laws
// ---------------------------------------------------------------------------

/// With an accept pattern, the kept set over any file set is exactly
/// the matching set: a link is kept if and only if the pattern matches
/// it, whatever any reject pattern says.
pub proof fn lemma_accept_law(
    accept: Seq<char>,
    reject: Option<Seq<char>>,
    links: Seq<Seq<char>>,
)
    ensures
        forall|i: int|
            0 <= i < links.len() ==> spec_keep_file(Some(accept), reject, #[trigger] links[i])
                == regex_is_match(accept, links[i]),
{
}

/// With only a reject pattern, the kept set over any file set is
/// exactly the non-matching set.
pub proof fn lemma_reject_law(reject: Seq<char>, links: Seq<Seq<char>>)
    ensures
        forall|i: int|
            0 <= i < links.len() ==> spec_keep_file(None, Some(reject), #[trigger] links[i])
                == !regex_is_match(reject, links[i]),
{
}

/// With neither pattern, the kept set is the whole file set.
pub proof fn lemma_keep_all_law(links: Seq<Seq<char>>)
    ensures
        forall|i: int| 0 <= i < links.len() ==> spec_keep_file(None, None, #[trigger] links[i]),
{
}

// ---------------------------------------------------------------------------
// Joining discovered links
// ---------------------------------------------------------------------------

/// The absolute link a discovered file link resolves to: an absolute
/// link has its doubled slashes collapsed and the scheme's own restored;
/// anything else goes through the joining cascade. `None` when the base
/// cannot be read as an absolute URL.
pub open spec fn spec_add_file_link(url: Seq<char>, x: Seq<char>) -> Option<Seq<char>> {
    if spec_is_http(x) {
        let m = spec_replace_all(x, "//"@, "/"@);
        if seq_starts_with(m, "https"@) {
            Some(m.take(6) + "/"@ + m.skip(6))
        } else {
            Some(m.take(5) + "/"@ + m.skip(5))
        }
    } else {
        spec_url_joiner(url, x)
    }
}

/// Resolves a discovered file link against the base.
pub fn add_file_link(url: &str, x: &str) -> (r: Option<String>)
    ensures
        match r {
            Some(s) => spec_add_file_link(url@, x@) == Some(s@),
            None => spec_add_file_link(url@, x@) is None,
        },
{
    proof {
        reveal_strlit("https");
        reveal_strlit("/");
    }
    let xv = chars_of(x);
    if crate::parser::is_http_chars(&xv) {
        let dbl = chars_of("//");
        let single = chars_of("/");
        let m = replace_all(&xv, &dbl, &single);
        let cut: usize = if starts_with_lit(&m, "https") {
            6
        } else {
            5
        };
        if m.len() < cut {
            proof {
                reveal_strlit("http://");
                reveal_strlit("https://");
                crate::scrape::lemma_http_replace_long(xv@, m@);
            }
        }
        assert(cut <= m@.len());
        let mut out = subvec(&m, 0, cut);
        out.push('/');
        let tail = subvec(&m, cut, m.len());
        push_all(&mut out, &tail);
        proof {
            if cut == 6 {
                assert(out@ =~= m@.take(6) + "/"@ + m@.skip(6));
            } else {
                assert(out@ =~= m@.take(5) + "/"@ + m@.skip(5));
            }
        }
        Some(string_of(&out))
    } else {
        let uv = chars_of(url);
        match url_joiner_chars(&uv, &xv) {
            Some(j) => Some(string_of(&j)),
            None => None,
        }
    }
}

/// A link with an HTTP scheme keeps at least its scheme through slash
/// collapsing.
pub proof fn lemma_http_replace_long(x: Seq<char>, m: Seq<char>)
    requires
        spec_is_http(x),
        m == spec_replace_all(x, "//"@, "/"@),
    ensures
        seq_starts_with(m, "https"@) ==> m.len() >= 6,
        !seq_starts_with(m, "https"@) ==> m.len() >= 5,
{
    reveal_strlit("http://");
    reveal_strlit("https://");
    reveal_strlit("//");
    reveal_strlit("/");
    reveal_strlit("https");
    reveal_strlit("http:");
    reveal_strlit("https:");
    assert(!seq_contains("http:"@, "/"@)) by {
        assert forall|i: int| !contains_at("http:"@, "/"@, i) by {
            if contains_at("http:"@, "/"@, i) {
                assert("http:"@.subrange(i, i + 1)[0] == "http:"@[i]);
                assert("/"@[0] == '/');
            }
        }
    }
    assert(!seq_contains("https:"@, "/"@)) by {
        assert forall|i: int| !contains_at("https:"@, "/"@, i) by {
            if contains_at("https:"@, "/"@, i) {
                assert("https:"@.subrange(i, i + 1)[0] == "https:"@[i]);
                assert("/"@[0] == '/');
            }
        }
    }
    if seq_starts_with(x, "http://"@) {
        assert(x.subrange(0, 5) =~= "http:"@) by {
            assert(forall|j: int| 0 <= j < 7 ==> x.subrange(0, 7)[j] == x[j]);
        }
        assert(x[5] == '/' && x[6] == '/') by {
            assert(x.subrange(0, 7)[5] == x[5] && x.subrange(0, 7)[6] == x[6]);
        }
        lemma_replace_scheme(x, "http:"@);
    } else {
        assert(seq_starts_with(x, "https://"@));
        assert(x.subrange(0, 6) =~= "https:"@) by {
            assert(forall|j: int| 0 <= j < 8 ==> x.subrange(0, 8)[j] == x[j]);
        }
        assert(x[6] == '/' && x[7] == '/') by {
            assert(x.subrange(0, 8)[6] == x[6] && x.subrange(0, 8)[7] == x[7]);
        }
        lemma_replace_scheme(x, "https:"@);
    }
}

/// Collapsing doubled slashes on `scheme://rest` keeps `scheme:/`.
proof fn lemma_replace_scheme(x: Seq<char>, scheme: Seq<char>)
    requires
        !seq_contains(scheme, "/"@),
        x.len() >= scheme.len() + 2,
        x.subrange(0, scheme.len() as int) == scheme,
        x[scheme.len() as int] == '/',
        x[scheme.len() as int + 1] == '/',
    ensures
        spec_replace_all(x, "//"@, "/"@).len() >= scheme.len() + 1,
        spec_replace_all(x, "//"@, "/"@).subrange(0, scheme.len() as int) == scheme,
        spec_replace_all(x, "//"@, "/"@)[scheme.len() as int] == '/',
    decreases scheme.len(),
{
    reveal_strlit("//");
    reveal_strlit("/");
    if scheme.len() == 0 {
        assert(seq_starts_with(x, "//"@)) by {
            assert(x.subrange(0, 2) =~= "//"@);
        }
        let rest = x.skip(2);
        assert(spec_replace_all(x, "//"@, "/"@) == "/"@ + spec_replace_all(rest, "//"@, "/"@));
        assert(spec_replace_all(x, "//"@, "/"@)[0] == '/');
    } else {
        assert(!seq_starts_with(x, "//"@)) by {
            if seq_starts_with(x, "//"@) {
                assert(x.subrange(0, 2)[0] == x[0]);
                assert(scheme[0] == x[0]);
                assert(contains_at(scheme, "/"@, 0)) by {
                    assert(scheme.subrange(0, 1) =~= seq![scheme[0]]);
                    assert(seq!['/'] =~= "/"@);
                }
            }
        }
        let x2 = x.skip(1);
        let s2 = scheme.skip(1);
        assert(!seq_contains(s2, "/"@)) by {
            if seq_contains(s2, "/"@) {
                let i = choose|i: int| contains_at(s2, "/"@, i);
                assert(s2.subrange(i, i + 1) =~= scheme.subrange(i + 1, i + 2));
                assert(contains_at(scheme, "/"@, i + 1));
            }
        }
        assert(x2.subrange(0, s2.len() as int) =~= s2) by {
            assert(forall|j: int|
                0 <= j < s2.len() ==> x2[j] == x[j + 1] && s2[j] == scheme[j + 1]);
            assert(forall|j: int|
                0 <= j < scheme.len() ==> x.subrange(0, scheme.len() as int)[j] == x[j]);
        }
        lemma_replace_scheme(x2, s2);
        assert(spec_replace_all(x, "//"@, "/"@) == seq![x[0]] + spec_replace_all(
            x2,
            "//"@,
            "/"@,
        ));
        assert(x[0] == scheme[0]);
        let r = spec_replace_all(x, "//"@, "/"@);
        let r2 = spec_replace_all(x2, "//"@, "/"@);
        assert(r.subrange(0, scheme.len() as int) =~= scheme) by {
            assert(forall|j: int| 0 <= j < s2.len() ==> r2.subrange(0, s2.len() as int)[j] == r2[j]);
            assert(forall|j: int|
                1 <= j < scheme.len() ==> r[j] == r2[j - 1] && r2[j - 1] == s2[j - 1] && s2[j - 1]
                    == scheme[j]);
        }
        assert(r[scheme.len() as int] == r2[scheme.len() - 1]);
    }
}

} // verus!

verus! {

// ---------------------------------------------------------------------------
// The per-page file scrape
// ---------------------------------------------------------------------------

/// The outcome of a scrape pass: the joined links kept, or the error
/// that stopped it.
pub enum Scraped {
    Links(Seq<Seq<char>>),
    BadPattern,
    BadUrl,
}

/// The family transform of a file link: OLAINDEX links get their
/// download query, AutoIndex PHP links go through the breadcrumb
/// transform, everything else stands.
pub open spec fn spec_od_file_modify(
    url: Seq<char>,
    x: Seq<char>,
    dv: Seq<HtmlNodeV>,
    od: ODMethod,
) -> Option<Seq<char>> {
    if od == ODMethod::OLAINDEX {
        Some(crate::od::olaindex::spec_transform_link(x))
    } else if od == ODMethod::AutoIndexPHP {
        crate::od::autoindex_php::spec_transform_dl_link(url, x, dv)
    } else {
        Some(x)
    }
}

/// The patterns the decision on this link rests on: OLAINDEX download
/// links anchor the configured patterns to their download query.
pub open spec fn spec_patterns_for(
    accept: Option<Seq<char>>,
    reject: Option<Seq<char>>,
    xm: Seq<char>,
) -> (Option<Seq<char>>, Option<Seq<char>>) {
    if spec_has_dl_query(xm) {
        (
            match accept {
                Some(a) => Some(spec_dl_anchored(a)),
                None => None,
            },
            match reject {
                Some(rj) => Some(spec_dl_anchored(rj)),
                None => None,
            },
        )
    } else {
        (accept, reject)
    }
}

/// A raw link passes the file-shape gate: it shows a file tail, ends in
/// no slash, stays under the base (or the family trusts absolute links),
/// and any navigator query names the base's.
pub open spec fn spec_file_gate(url: Seq<char>, xs: Seq<char>, od: ODMethod) -> bool {
    let ending = spec_is_file_ext(xs) || spec_has_dl_query(xs) || spec_hash_query(xs);
    ending && !seq_ends_with(xs, "/"@) && (!seq_starts_with(xs, "http"@) || spec_sub_dir_check(
        xs,
        url,
    ) || od == ODMethod::Apache || od == ODMethod::NGINX) && (!seq_starts_with(xs, "?dir="@)
        || spec_check_dir_query(url, xs))
}

/// The file scrape over the extracted links from position `k` on, with
/// the raw and modified duplicate trackers as they stand.
pub open spec fn spec_scrape_files_rec(
    dv: Seq<HtmlNodeV>,
    url: Seq<char>,
    od: ODMethod,
    links: Seq<Seq<char>>,
    k: int,
    prev: Seq<char>,
    prev_mod: Seq<char>,
    accept: Option<Seq<char>>,
    reject: Option<Seq<char>>,
) -> Scraped
    decreases links.len() - k when 0 <= k <= links.len()
{
    if k >= links.len() {
        Scraped::Links(Seq::<Seq<char>>::empty())
    } else {
        let x = links[k];
        if x == prev {
            spec_scrape_files_rec(dv, url, od, links, k + 1, prev, prev_mod, accept, reject)
        } else {
            let xs = spec_removes_single_path(x);
            if !spec_file_gate(url, xs, od) {
                spec_scrape_files_rec(dv, url, od, links, k + 1, x, prev_mod, accept, reject)
            } else {
                match spec_od_file_modify(url, xs, dv, od) {
                    None => Scraped::BadUrl,
                    Some(xm) => if xm == prev_mod {
                        spec_scrape_files_rec(dv, url, od, links, k + 1, x, prev_mod, accept,
                        reject)
                    } else {
                        let pats = spec_patterns_for(accept, reject, xm);
                        match spec_pattern_used(pats.0, pats.1) {
                            Some(p) => if !regex_valid(p) {
                                Scraped::BadPattern
                            } else {
                                spec_scrape_files_step(dv, url, od, links, k, x, xm, pats.0,
                                pats.1, accept, reject)
                            },
                            None => spec_scrape_files_step(dv, url, od, links, k, x, xm, pats.0,
                            pats.1, accept, reject),
                        }
                    },
                }
            }
        }
    }
}

/// One kept-or-dropped step of the file scrape, after the duplicate and
/// validity gates.
pub open spec fn spec_scrape_files_step(
    dv: Seq<HtmlNodeV>,
    url: Seq<char>,
    od: ODMethod,
    links: Seq<Seq<char>>,
    k: int,
    x: Seq<char>,
    xm: Seq<char>,
    acc2: Option<Seq<char>>,
    rej2: Option<Seq<char>>,
    accept: Option<Seq<char>>,
    reject: Option<Seq<char>>,
) -> Scraped
    decreases links.len() - k, 0int when 0 <= k < links.len()
{
    if spec_keep_file(acc2, rej2, xm) {
        match spec_add_file_link(url, xm) {
            None => Scraped::BadUrl,
            Some(j) => match spec_scrape_files_rec(dv, url, od, links, k + 1, x, xm, accept,
            reject) {
                Scraped::Links(rest) => Scraped::Links(seq![j] + rest),
                Scraped::BadPattern => Scraped::BadPattern,
                Scraped::BadUrl => Scraped::BadUrl,
            },
        }
    } else {
        spec_scrape_files_rec(dv, url, od, links, k + 1, x, xm, accept, reject)
    }
}

/// The file scrape of a whole page: the extracted links folded through
/// the duplicate, shape and accept/reject gates.
pub open spec fn spec_scrape_files(
    dv: Seq<HtmlNodeV>,
    url: Seq<char>,
    od: ODMethod,
    accept: Option<Seq<char>>,
    reject: Option<Seq<char>>,
) -> Scraped {
    spec_scrape_files_rec(
        dv,
        url,
        od,
        spec_filtered_links(dv, url, od),
        0,
        Seq::<char>::empty(),
        Seq::<char>::empty(),
        accept,
        reject,
    )
}

/// A scrape outcome with earlier links put in front.
pub open spec fn prepend_links(ls: Seq<Seq<char>>, s: Scraped) -> Scraped {
    match s {
        Scraped::Links(rest) => Scraped::Links(ls + rest),
        Scraped::BadPattern => Scraped::BadPattern,
        Scraped::BadUrl => Scraped::BadUrl,
    }
}

} // verus!

verus! {

/// The crawl's scraper state: the pages collected so far, the visited
/// directory links, the family fixed for the session, and the
/// pagination cursor.
pub struct Scraper {
    pub pages: Vec<Page>,
    pub dir_links: Vec<String>,
    pub od_type: ODMethod,
    pub current_subpage: usize,
}

fn od_file_modify(url: &str, x: &String, doc: &HtmlDoc, od: &ODMethod) -> (r: Option<String>)
    requires
        doc.wf(),
    ensures
        match r {
            Some(s) => spec_od_file_modify(url@, x@, doc@, *od) == Some(s@),
            None => spec_od_file_modify(url@, x@, doc@, *od) is None,
        },
{
    match od {
        ODMethod::OLAINDEX => Some(OLAINDEX::transform_link(x.as_str())),
        ODMethod::AutoIndexPHP => crate::od::autoindex_php::AutoIndexPHP::transform_dl_link_doc(
            url,
            x.as_str(),
            doc,
        ),
        _ => Some(String::from_str(x.as_str())),
    }
}

fn patterns_for(accept: &Option<String>, reject: &Option<String>, xm: &String) -> (r: (
    Option<String>,
    Option<String>,
))
    ensures
        (opt_view(r.0), opt_view(r.1)) == spec_patterns_for(
            opt_view(*accept),
            opt_view(*reject),
            xm@,
        ),
{
    let xv = chars_of(xm.as_str());
    if OLAINDEX::has_dl_query_chars(&xv) {
        OLAINDEX::acc_rej_filters(accept, reject)
    } else {
        let a = match accept {
            Some(s) => Some(String::from_str(s.as_str())),
            None => None,
        };
        let rj = match reject {
            Some(s) => Some(String::from_str(s.as_str())),
            None => None,
        };
        (a, rj)
    }
}

fn file_gate(url: &str, xs: &String, od: &ODMethod) -> (r: bool)
    ensures
        r == spec_file_gate(url@, xs@, *od),
{
    let xv = chars_of(xs.as_str());
    let ending = is_file_ext_chars(&xv) || OLAINDEX::has_dl_query_chars(&xv)
        || OLAINDEX::hash_query_chars(&xv);
    if !ending {
        return false;
    }
    if ends_with_lit(&xv, "/") {
        return false;
    }
    let apache_like = match od {
        ODMethod::Apache => true,
        ODMethod::NGINX => true,
        _ => false,
    };
    if starts_with_lit(&xv, "http") && !apache_like {
        if !sub_dir_check(xs.as_str(), url) {
            return false;
        }
    }
    if starts_with_lit(&xv, "?dir=") {
        if !check_dir_query(url, xs.as_str()) {
            return false;
        }
    }
    true
}

impl Scraper {
    /// The visited set holds each directory link once.
    pub open spec fn wf(&self) -> bool {
        self.dir_links@.map_values(|s: String| s@).no_duplicates()
    }

    /// A fresh scraper: no pages, nothing visited, the generic family,
    /// the pagination cursor at its start.
    pub fn new() -> (r: Scraper)
        ensures
            r.wf(),
            r.pages@.len() == 0,
            r.dir_links@.len() == 0,
            r.od_type == ODMethod::Generic,
            r.current_subpage == 1,
    {
        Scraper {
            pages: Vec::new(),
            dir_links: Vec::new(),
            od_type: ODMethod::Generic,
            current_subpage: 1,
        }
    }

    /// Scrape the file links of an already-parsed page: each surviving
    /// link is joined onto the base and becomes a `File`.
    #[verifier::loop_isolation(false)]
    #[verifier::rlimit(100)]
    pub fn scrape_files_doc(
        &self,
        doc: &HtmlDoc,
        url: &str,
        accept: &Option<String>,
        reject: &Option<String>,
    ) -> (r: Result<Vec<File>, ScrapeError>)
        requires
            doc.wf(),
        ensures
            (match r {
                Ok(files) => ({
                    let s = spec_scrape_files(
                        doc@,
                        url@,
                        self.od_type,
                        opt_view(*accept),
                        opt_view(*reject),
                    );
                    s is Links && files@.len() == s->Links_0.len() && (forall|i: int|
                        0 <= i < files@.len() ==> file_built_from(
                            #[trigger] files@[i],
                            s->Links_0[i],
                        ))
                }),
                Err(e) => (e is FilterConfig ==> spec_scrape_files(
                    doc@,
                    url@,
                    self.od_type,
                    opt_view(*accept),
                    opt_view(*reject),
                ) is BadPattern) && (e is MalformedUrl ==> spec_scrape_files(
                    doc@,
                    url@,
                    self.od_type,
                    opt_view(*accept),
                    opt_view(*reject),
                ) is BadUrl) && (e is FilterConfig || e is MalformedUrl),
            }),
    {
        let ghost dv = doc@;
        let ghost av = opt_view(*accept);
        let ghost rv = opt_view(*reject);
        let links = links_from_doc(doc, url, &self.od_type);
        let ghost lv = links.deep_view();
        let n = links.len();
        let mut files: Vec<File> = Vec::new();
        let ghost out0 = Seq::<Seq<char>>::empty();
        let mut prev: String = String::new();
        let mut prev_mod: String = String::new();
        let ghost spec_all = spec_scrape_files(dv, url@, self.od_type, av, rv);
        let mut k: usize = 0;
        let ghost kept = Seq::<Seq<char>>::empty();
        proof {
            assert(kept + Seq::<Seq<char>>::empty() =~= kept);
            assert(spec_all == prepend_links(
                kept,
                spec_scrape_files_rec(dv, url@, self.od_type, lv, 0, prev@, prev_mod@, av, rv),
            )) by {
                assert(prev@ =~= Seq::<char>::empty());
                assert(prev_mod@ =~= Seq::<char>::empty());
                match spec_scrape_files_rec(dv, url@, self.od_type, lv, 0, prev@, prev_mod@, av,
                rv) {
                    Scraped::Links(rest) => {
                        assert(kept + rest =~= rest);
                    },
                    _ => {},
                }
            }
        }
        while k < n
            invariant
                0 <= k <= n,
                n == lv.len(),
                files@.len() == kept.len(),
                forall|i: int|
                    0 <= i < files@.len() ==> file_built_from(#[trigger] files@[i], kept[i]),
                spec_all == prepend_links(
                    kept,
                    spec_scrape_files_rec(
                        dv,
                        url@,
                        self.od_type,
                        lv,
                        k as int,
                        prev@,
                        prev_mod@,
                        av,
                        rv,
                    ),
                ),
            decreases n - k,
        {
            let ghost prev0 = prev@;
            let ghost pm0 = prev_mod@;
            let ghost od = self.od_type;
            let ghost rec_k = spec_scrape_files_rec(dv, url@, od, lv, k as int, prev0, pm0, av, rv);
            let x = &links[k];
            assert(x@ == lv[k as int]);
            let xv = chars_of(x.as_str());
            let pv = chars_of(prev.as_str());
            if !eq_chars(&xv, &pv) {
                let xs_chars = removes_single_path_chars(&xv);
                let xs = string_of(&xs_chars);
                if file_gate(url, &xs, &self.od_type) {
                    match od_file_modify(url, &xs, doc, &self.od_type) {
                        None => {
                            proof {
                                assert(rec_k == Scraped::BadUrl);
                            }
                            return Err(ScrapeError::MalformedUrl);
                        },
                        Some(xm) => {
                            let xmv = chars_of(xm.as_str());
                            let pmv = chars_of(prev_mod.as_str());
                            if !eq_chars(&xmv, &pmv) {
                                let pats = patterns_for(accept, reject, &xm);
                                let ghost pats_v = spec_patterns_for(av, rv, xm@);
                                match keep_file(&pats.0, &pats.1, xm.as_str()) {
                                    Err(_) => {
                                        proof {
                                            assert(rec_k == Scraped::BadPattern);
                                        }
                                        return Err(ScrapeError::FilterConfig);
                                    },
                                    Ok(keep) => {
                                        proof {
                                            assert(rec_k == spec_scrape_files_step(
                                                dv, url@, od, lv, k as int, x@, xm@,
                                                pats_v.0, pats_v.1, av, rv,
                                            ));
                                            assert(keep == spec_keep_file(pats_v.0, pats_v.1, xm@));
                                        }
                                        if keep {
                                            match add_file_link(url, xm.as_str()) {
                                                None => {
                                                    proof {
                                                        assert(rec_k == Scraped::BadUrl);
                                                    }
                                                    return Err(ScrapeError::MalformedUrl);
                                                },
                                                Some(j) => {
                                                    let f = File::new(j.as_str());
                                                    files.push(f);
                                                    proof {
                                                        let rest = spec_scrape_files_rec(
                                                            dv, url@, od, lv, k + 1, x@, xm@, av,
                                                            rv,
                                                        );
                                                        assert(rec_k == (match rest {
                                                            Scraped::Links(r) => Scraped::Links(
                                                                seq![j@] + r,
                                                            ),
                                                            Scraped::BadPattern
                                                                => Scraped::BadPattern,
                                                            Scraped::BadUrl => Scraped::BadUrl,
                                                        }));
                                                        let kept0 = kept;
                                                        kept = kept.push(j@);
                                                        assert(kept.drop_last() =~= kept0);
                                                        lemma_prepend_shift(
                                                            spec_all,
                                                            kept,
                                                            j@,
                                                            rest,
                                                        );
                                                    }
                                                },
                                            }
                                        } else {
                                            proof {
                                                assert(rec_k == spec_scrape_files_rec(
                                                    dv, url@, od, lv, k + 1, x@, xm@, av, rv,
                                                ));
                                            }
                                        }
                                        prev_mod = xm;
                                    },
                                }
                            } else {
                                proof {
                                    assert(xm@ == pm0);
                                    assert(rec_k == spec_scrape_files_rec(
                                        dv, url@, od, lv, k + 1, x@, pm0, av, rv,
                                    ));
                                }
                            }
                        },
                    }
                } else {
                    proof {
                        assert(rec_k == spec_scrape_files_rec(
                            dv, url@, od, lv, k + 1, x@, pm0, av, rv,
                        ));
                    }
                }
                prev = String::from_str(x.as_str());
            } else {
                proof {
                    assert(x@ == prev0);
                    assert(rec_k == spec_scrape_files_rec(
                        dv, url@, od, lv, k + 1, prev0, pm0, av, rv,
                    ));
                }
            }
            k = k + 1;
        }
        proof {
            match spec_scrape_files_rec(dv, url@, self.od_type, lv, n as int, prev@, prev_mod@,
            av, rv) {
                Scraped::Links(rest) => {
                    assert(rest =~= Seq::<Seq<char>>::empty());
                    assert(kept + rest =~= kept);
                },
                _ => {},
            }
        }
        Ok(files)
    }
}

/// Prepending the freshly kept link steps the accumulator forward.
proof fn lemma_prepend_shift(spec_all: Scraped, kept_new: Seq<Seq<char>>, j: Seq<char>, rest: Scraped)
    requires
        kept_new.len() > 0,
        kept_new.last() == j,
        spec_all == prepend_links(
            kept_new.drop_last(),
            (match rest {
                Scraped::Links(r) => Scraped::Links(seq![j] + r),
                Scraped::BadPattern => Scraped::BadPattern,
                Scraped::BadUrl => Scraped::BadUrl,
            }),
        ),
    ensures
        spec_all == prepend_links(kept_new, rest),
{
    match rest {
        Scraped::Links(r) => {
            assert(kept_new.drop_last() + (seq![j] + r) =~= kept_new + r);
        },
        _ => {},
    }
}

} // verus!

verus! {

// ---------------------------------------------------------------------------
// The per-page directory scrape
// ---------------------------------------------------------------------------

/// What the directory scrape leaves behind: the visited set as it
/// stands, and the links newly enqueued, in discovery order.
pub struct DirsOut {
    pub visited: Seq<Seq<char>>,
    pub added: Seq<Seq<char>>,
}

/// The outcome of a directory scrape.
pub enum DirScraped {
    Out(DirsOut),
    BadUrl,
}

/// A raw link may lead to a sub-directory: it stays under the base, is
/// no back-step, home link, navigation noise or self-reference, and
/// carries no pagination query — unless the query moves the pagination
/// cursor strictly forward.
pub open spec fn spec_dir_gate(url: Seq<char>, x: Seq<char>, subpage: int) -> bool {
    ((!seq_starts_with(x, "http"@) || spec_encode_slash_starts_with(x, url)) && !spec_is_back_url(
        x,
    ) && !spec_is_home_url(x) && !spec_unrelated_dir_queries(x) && !spec_is_rel_url(url, x)
        && !spec_has_page_query(x)) || spec_within_page_limit(x, subpage)
}

/// The link is no file link, or names the base's navigator query.
pub open spec fn spec_dir_gate2(url: Seq<char>, x: Seq<char>) -> bool {
    (!spec_has_dl_query(x) && !spec_is_file_ext(x)) || spec_check_dir_query(url, x)
}

/// The absolute link a directory link resolves to: an absolute link
/// stands; a link the base already ends in is hung under it with the
/// slashes mended; anything else goes through the joining cascade.
pub open spec fn spec_dir_join(url: Seq<char>, x: Seq<char>) -> Option<Seq<char>> {
    if seq_starts_with(x, "http"@) {
        Some(x)
    } else if seq_ends_with(url, x) {
        if seq_ends_with(url, "/"@) && seq_starts_with(x, "/"@) {
            Some(url + x.skip(1))
        } else if !seq_ends_with(url, "/"@) && !seq_starts_with(x, "/"@) {
            Some(url + "/"@ + x)
        } else {
            Some(url + x)
        }
    } else {
        spec_url_joiner(url, x)
    }
}

/// The directory scrape over the extracted links from position `k` on:
/// consecutive duplicates are skipped, gated links are joined, and each
/// joined link not yet visited enters the visited set and the frontier.
pub open spec fn spec_scrape_dirs_rec(
    url: Seq<char>,
    links: Seq<Seq<char>>,
    k: int,
    past: Seq<char>,
    visited: Seq<Seq<char>>,
    subpage: int,
) -> DirScraped
    decreases links.len() - k when 0 <= k <= links.len()
{
    if k >= links.len() {
        DirScraped::Out(DirsOut { visited, added: Seq::<Seq<char>>::empty() })
    } else {
        let x = links[k];
        let cur = url + x;
        if cur == past {
            spec_scrape_dirs_rec(url, links, k + 1, past, visited, subpage)
        } else {
            if spec_dir_gate(url, x, subpage) && spec_dir_gate2(url, x) {
                match spec_dir_join(url, x) {
                    None => DirScraped::BadUrl,
                    Some(j) => if visited.contains(j) {
                        spec_scrape_dirs_rec(url, links, k + 1, cur, visited, subpage)
                    } else {
                        match spec_scrape_dirs_rec(url, links, k + 1, cur, visited.push(j),
                        subpage) {
                            DirScraped::Out(o) => DirScraped::Out(
                                DirsOut { visited: o.visited, added: seq![j] + o.added },
                            ),
                            DirScraped::BadUrl => DirScraped::BadUrl,
                        }
                    },
                }
            } else {
                spec_scrape_dirs_rec(url, links, k + 1, cur, visited, subpage)
            }
        }
    }
}

/// The directory scrape of a whole page.
pub open spec fn spec_scrape_dirs(
    dv: Seq<HtmlNodeV>,
    url: Seq<char>,
    od: ODMethod,
    visited: Seq<Seq<char>>,
    subpage: int,
) -> DirScraped {
    spec_scrape_dirs_rec(
        url,
        spec_filtered_links(dv, url, od),
        0,
        Seq::<char>::empty(),
        visited,
        subpage,
    )
}

/// What the directory scrape guarantees the visited set: it only grows,
/// by exactly the links it enqueues, and a set without duplicates stays
/// without duplicates — no directory is ever enqueued twice.
pub proof fn lemma_scrape_dirs_growth(
    url: Seq<char>,
    links: Seq<Seq<char>>,
    k: int,
    past: Seq<char>,
    visited: Seq<Seq<char>>,
    subpage: int,
)
    requires
        0 <= k <= links.len(),
    ensures
        (match spec_scrape_dirs_rec(url, links, k, past, visited, subpage) {
            DirScraped::Out(o) => o.visited == visited + o.added && (forall|i: int|
                0 <= i < o.added.len() ==> !visited.contains(#[trigger] o.added[i]))
                && (visited.no_duplicates() ==> o.visited.no_duplicates()),
            DirScraped::BadUrl => true,
        }),
    decreases links.len() - k,
{
    if k >= links.len() {
        assert(visited + Seq::<Seq<char>>::empty() =~= visited);
    } else {
        let x = links[k];
        let cur = url + x;
        if cur == past {
            lemma_scrape_dirs_growth(url, links, k + 1, past, visited, subpage);
        } else if spec_dir_gate(url, x, subpage) && spec_dir_gate2(url, x) {
            match spec_dir_join(url, x) {
                None => {},
                Some(j) => {
                    if visited.contains(j) {
                        lemma_scrape_dirs_growth(url, links, k + 1, cur, visited, subpage);
                    } else {
                        lemma_scrape_dirs_growth(url, links, k + 1, cur, visited.push(j), subpage);
                        match spec_scrape_dirs_rec(url, links, k + 1, cur, visited.push(j),
                        subpage) {
                            DirScraped::Out(o) => {
                                assert(visited + (seq![j] + o.added) =~= visited.push(j)
                                    + o.added);
                                if visited.no_duplicates() {
                                    assert(visited.push(j).no_duplicates()) by {
                                        broadcast use vstd::seq_lib::group_to_multiset_ensures;

                                        assert(forall|i: int, l: int|
                                            0 <= i < l < visited.push(j).len() ==> visited.push(
                                                j,
                                            )[i] != visited.push(j)[l]) by {
                                            assert(forall|i: int|
                                                0 <= i < visited.len() ==> visited.push(j)[i]
                                                    == visited[i]);
                                            assert(forall|i: int|
                                                0 <= i < visited.len() && visited[i] == j
                                                    ==> visited.contains(j));
                                        }
                                    }
                                }
                                assert forall|i: int|
                                    0 <= i < (seq![j] + o.added).len() implies !visited.contains(
                                    #[trigger] (seq![j] + o.added)[i],
                                ) by {
                                    if i > 0 {
                                        assert((seq![j] + o.added)[i] == o.added[i - 1]);
                                        assert(!visited.push(j).contains(o.added[i - 1]));
                                        if visited.contains(o.added[i - 1]) {
                                            let w = choose|w: int|
                                                0 <= w < visited.len() && visited[w] == o.added[i
                                                    - 1];
                                            assert(visited.push(j)[w] == visited[w]);
                                        }
                                    }
                                }
                            },
                            DirScraped::BadUrl => {},
                        }
                    }
                },
            }
        } else {
            lemma_scrape_dirs_growth(url, links, k + 1, cur, visited, subpage);
        }
    }
}

} // verus!

verus! {

/// Whether some entry of the list reads exactly `x`.
#[verifier::loop_isolation(false)]
pub fn contains_string(v: &Vec<String>, x: &str) -> (r: bool)
    ensures
        r == v@.map_values(|s: String| s@).contains(x@),
{
    let ghost views = v@.map_values(|s: String| s@);
    let n = v.len();
    let xv = chars_of(x);
    let mut i: usize = 0;
    while i < n
        invariant
            0 <= i <= n,
            forall|j: int| 0 <= j < i ==> views[j] != x@,
        decreases n - i,
    {
        let sv = chars_of(v[i].as_str());
        assert(sv@ == views[i as int]);
        if eq_chars(&sv, &xv) {
            assert(views[i as int] == x@);
            return true;
        }
        i = i + 1;
    }
    proof {
        if views.contains(x@) {
            let w = choose|w: int| 0 <= w < views.len() && views[w] == x@;
            assert(views[w] != x@);
        }
    }
    false
}

/// Resolves a directory link against the base.
fn dir_join(url: &str, x: &str) -> (r: Option<String>)
    ensures
        match r {
            Some(s) => spec_dir_join(url@, x@) == Some(s@),
            None => spec_dir_join(url@, x@) is None,
        },
{
    proof {
        reveal_strlit("http");
        reveal_strlit("/");
    }
    let xv = chars_of(x);
    let uv = chars_of(url);
    if starts_with_lit(&xv, "http") {
        return Some(string_of(&xv));
    }
    if crate::text::ends_with_chars(&uv, &xv) {
        let url_slash = ends_with_lit(&uv, "/");
        let x_slash = starts_with_lit(&xv, "/");
        let mut out = copy_chars(&uv);
        if url_slash && x_slash {
            let t = subvec(&xv, 1, xv.len());
            assert(t@ =~= xv@.skip(1));
            push_all(&mut out, &t);
        } else if !url_slash && !x_slash {
            push_lit(&mut out, "/");
            push_all(&mut out, &xv);
        } else {
            push_all(&mut out, &xv);
        }
        return Some(string_of(&out));
    }
    match url_joiner_chars(&uv, &xv) {
        Some(j) => Some(string_of(&j)),
        None => None,
    }
}

/// Whether the raw link passes both directory gates.
fn dir_gates(url: &str, x: &str, subpage: usize) -> (r: bool)
    ensures
        r == (spec_dir_gate(url@, x@, subpage as int) && spec_dir_gate2(url@, x@)),
{
    proof {
        reveal_strlit("http");
    }
    let xv = chars_of(x);
    let gate_a = (!starts_with_lit(&xv, "http") || crate::parser::encode_slash_starts_with(
        x,
        url,
    )) && !crate::parser::is_back_url(x) && !crate::parser::is_home_url(x)
        && !crate::parser::unrelated_dir_queries(x) && !crate::parser::is_rel_url(url, x)
        && !crate::parser::has_page_query(x);
    let gate = gate_a || crate::parser::within_page_limit(x, subpage);
    if !gate {
        return false;
    }
    let no_file = !OLAINDEX::has_dl_query_chars(&xv) && !is_file_ext_chars(&xv);
    no_file || check_dir_query(url, x)
}

impl Scraper {
    /// Scrape the directory links of an already-parsed page: each link
    /// that passes the gates is joined onto the base, and every joined
    /// link seen for the first time enters the visited set and becomes a
    /// frontier entry at the given depth.
    #[verifier::loop_isolation(false)]
    #[verifier::rlimit(100)]
    pub fn scrape_dirs_doc(&mut self, doc: &HtmlDoc, url: &str, level: usize) -> (r: Result<
        Vec<Directory>,
        ScrapeError,
    >)
        requires
            old(self).wf(),
            doc.wf(),
            level < usize::MAX,
        ensures
            final(self).pages == old(self).pages,
            final(self).od_type == old(self).od_type,
            final(self).current_subpage == old(self).current_subpage,
            final(self).wf(),
            old(self).dir_links@.map_values(|s: String| s@).is_prefix_of(
                final(self).dir_links@.map_values(|s: String| s@),
            ),
            (match r {
                Ok(dirs) => ({
                    let s = spec_scrape_dirs(
                        doc@,
                        url@,
                        old(self).od_type,
                        old(self).dir_links@.map_values(|s: String| s@),
                        old(self).current_subpage as int,
                    );
                    s is Out && final(self).dir_links@.map_values(|s: String| s@)
                        == s->Out_0.visited && dirs@.len() == s->Out_0.added.len() && (forall|
                        i: int,
                    |
                        0 <= i < dirs@.len() ==> (#[trigger] dirs@[i]).link@ == s->Out_0.added[i]
                            && dirs@[i].level == level + 1)
                }),
                Err(e) => e is MalformedUrl && spec_scrape_dirs(
                    doc@,
                    url@,
                    old(self).od_type,
                    old(self).dir_links@.map_values(|s: String| s@),
                    old(self).current_subpage as int,
                ) is BadUrl,
            }),
    {
        let ghost dv = doc@;
        let ghost od = self.od_type;
        let ghost visited0 = self.dir_links@.map_values(|s: String| s@);
        let ghost subpage = self.current_subpage as int;
        let links = links_from_doc(doc, url, &self.od_type);
        let ghost lv = links.deep_view();
        let ghost spec_all = spec_scrape_dirs(dv, url@, od, visited0, subpage);
        let n = links.len();
        let mut dirs: Vec<Directory> = Vec::new();
        let mut past: String = String::new();
        let ghost added = Seq::<Seq<char>>::empty();
        let mut k: usize = 0;
        proof {
            assert(past@ =~= Seq::<char>::empty());
        }
        while k < n
            invariant
                0 <= k <= n,
                n == lv.len(),
                self.pages == old(self).pages,
                self.od_type == old(self).od_type,
                self.current_subpage == old(self).current_subpage,
                dirs@.len() == added.len(),
                forall|i: int|
                    0 <= i < dirs@.len() ==> (#[trigger] dirs@[i]).link@ == added[i]
                        && dirs@[i].level == level + 1,
                spec_all == dirs_prepend(
                    added,
                    spec_scrape_dirs_rec(
                        url@,
                        lv,
                        k as int,
                        past@,
                        self.dir_links@.map_values(|s: String| s@),
                        subpage,
                    ),
                ),
                visited0.is_prefix_of(self.dir_links@.map_values(|s: String| s@)),
                old(self).wf() ==> self.wf(),
            decreases n - k,
        {
            let ghost past0 = past@;
            let ghost vis0 = self.dir_links@.map_values(|s: String| s@);
            let ghost rec_k = spec_scrape_dirs_rec(url@, lv, k as int, past0, vis0, subpage);
            let x = &links[k];
            assert(x@ == lv[k as int]);
            let mut cur = chars_of(url);
            let xv = chars_of(x.as_str());
            push_all(&mut cur, &xv);
            assert(cur@ == url@ + x@);
            let pastv = chars_of(past.as_str());
            if !eq_chars(&cur, &pastv) {
                if dir_gates(url, x.as_str(), self.current_subpage) {
                    match dir_join(url, x.as_str()) {
                        None => {
                            proof {
                                assert(rec_k == DirScraped::BadUrl);
                            }
                            return Err(ScrapeError::MalformedUrl);
                        },
                        Some(j) => {
                            if !contains_string(&self.dir_links, j.as_str()) {
                                let ghost j_view = j@;
                                let jl = String::from_str(j.as_str());
                                self.dir_links.push(jl);
                                dirs.push(Directory::new(j, level + 1));
                                proof {
                                    assert(self.dir_links@.map_values(|s: String| s@) =~= vis0.push(
                                        j_view,
                                    ));
                                    assert(visited0.is_prefix_of(vis0.push(j_view))) by {
                                        assert(visited0 =~= vis0.push(j_view).take(
                                            visited0.len() as int,
                                        ));
                                    }
                                    let rest = spec_scrape_dirs_rec(
                                        url@,
                                        lv,
                                        k + 1,
                                        cur@,
                                        vis0.push(j_view),
                                        subpage,
                                    );
                                    assert(rec_k == (match rest {
                                        DirScraped::Out(o) => DirScraped::Out(
                                            DirsOut {
                                                visited: o.visited,
                                                added: seq![j_view] + o.added,
                                            },
                                        ),
                                        DirScraped::BadUrl => DirScraped::BadUrl,
                                    }));
                                    let added0 = added;
                                    added = added.push(j_view);
                                    assert(spec_all == dirs_prepend(added, rest)) by {
                                        match rest {
                                            DirScraped::Out(o) => {
                                                assert(added0 + (seq![j_view] + o.added)
                                                    =~= added + o.added);
                                            },
                                            DirScraped::BadUrl => {},
                                        }
                                    }
                                    if old(self).wf() {
                                        assert(vis0.push(j_view).no_duplicates()) by {
                                            assert(forall|i: int, l: int|
                                                0 <= i < l < vis0.push(j_view).len() ==> vis0.push(
                                                    j_view,
                                                )[i] != vis0.push(j_view)[l]) by {
                                                assert(forall|i: int|
                                                    0 <= i < vis0.len() ==> vis0.push(j_view)[i]
                                                        == vis0[i]);
                                                assert(forall|i: int|
                                                    0 <= i < vis0.len() && vis0[i] == j_view
                                                        ==> vis0.contains(j_view));
                                            }
                                        }
                                    }
                                }
                            } else {
                                proof {
                                    assert(rec_k == spec_scrape_dirs_rec(
                                        url@,
                                        lv,
                                        k + 1,
                                        cur@,
                                        vis0,
                                        subpage,
                                    ));
                                }
                            }
                        },
                    }
                } else {
                    proof {
                        assert(rec_k == spec_scrape_dirs_rec(url@, lv, k + 1, cur@, vis0,
                        subpage));
                    }
                }
                past = string_of(&cur);
            } else {
                proof {
                    assert(cur@ == past0);
                    assert(rec_k == spec_scrape_dirs_rec(url@, lv, k + 1, past0, vis0, subpage));
                }
            }
            k = k + 1;
        }
        proof {
            match spec_scrape_dirs_rec(
                url@,
                lv,
                n as int,
                past@,
                self.dir_links@.map_values(|s: String| s@),
                subpage,
            ) {
                DirScraped::Out(o) => {
                    assert(o.added =~= Seq::<Seq<char>>::empty());
                    assert(added + o.added =~= added);
                },
                DirScraped::BadUrl => {},
            }
        }
        Ok(dirs)
    }
}

/// A frontier whose links sit in a visited set keeps that property
/// under any extension of the set.
pub proof fn lemma_prefix_keeps_frontier(
    frontier: Seq<Directory>,
    vis0: Seq<Seq<char>>,
    vis1: Seq<Seq<char>>,
)
    requires
        vis0.is_prefix_of(vis1),
        forall|i: int|
            0 <= i < frontier.len() ==> vis0.contains(#[trigger] frontier_links(frontier)[i]),
    ensures
        forall|i: int|
            0 <= i < frontier.len() ==> vis1.contains(#[trigger] frontier_links(frontier)[i]),
{
    assert forall|i: int|
        0 <= i < frontier.len() implies vis1.contains(#[trigger] frontier_links(frontier)[i]) by {
        let x = frontier_links(frontier)[i];
        let w = choose|w: int| 0 <= w < vis0.len() && vis0[w] == x;
        assert(vis0 =~= vis1.subrange(0, vis0.len() as int));
        assert(vis1[w] == x);
    }
}

/// A directory-scrape outcome with earlier enqueued links put in front.
pub open spec fn dirs_prepend(ls: Seq<Seq<char>>, s: DirScraped) -> DirScraped {
    match s {
        DirScraped::Out(o) => DirScraped::Out(DirsOut { visited: o.visited, added: ls + o.added }),
        DirScraped::BadUrl => DirScraped::BadUrl,
    }
}

} // verus!

verus! {

impl Scraper {
    /// Scrape the URL that points to a single file: when the root URL
    /// itself is file-like, the whole crawl is one page with that one
    /// file.
    pub fn single_scrape(&mut self, url: &str) -> (r: bool)
        ensures
            r == spec_is_uri(url@),
            final(self).od_type == old(self).od_type,
            final(self).dir_links == old(self).dir_links,
            final(self).current_subpage == old(self).current_subpage,
            !r ==> final(self).pages == old(self).pages,
            r ==> final(self).pages@.len() == 1 && final(self).pages@[0].files@.len() == 1
                && file_built_from(
                final(self).pages@[0].files@[0],
                spec_remove_last_slash(url@),
            ),
    {
        if is_uri(url) {
            let trimmed = remove_last_slash(url);
            let f = File::new(trimmed.as_str());
            let mut files: Vec<File> = Vec::new();
            files.push(f);
            let mut pages: Vec<Page> = Vec::new();
            pages.push(Page::new(files));
            self.pages = pages;
            true
        } else {
            false
        }
    }

    /// Fix the family from the URL alone.
    pub fn od_type_from_url(&mut self, url: &str)
        ensures
            final(self).od_type == spec_od_type_from_url(url@),
            final(self).pages == old(self).pages,
            final(self).dir_links == old(self).dir_links,
            final(self).current_subpage == old(self).current_subpage,
    {
        self.od_type = od_type_from_url(url);
    }

    /// Fix the family from the fetched page, once: a family already
    /// decided is never re-evaluated.
    pub fn retrieve_od_type(&mut self, doc: &HtmlDoc, server_name: &str)
        requires
            doc.wf(),
        ensures
            final(self).od_type == (if old(self).od_type == ODMethod::Unknown {
                spec_od_type_from_document(doc@, server_name@)
            } else {
                old(self).od_type
            }),
            final(self).pages == old(self).pages,
            final(self).dir_links == old(self).dir_links,
            final(self).current_subpage == old(self).current_subpage,
    {
        let unknown = match self.od_type {
            ODMethod::Unknown => true,
            _ => false,
        };
        if unknown {
            self.od_type = crate::od::classify_document(doc, server_name);
        }
    }

    /// Scrape files URLs present on the current page: the page parses
    /// to its named node model, and the scrape runs over that exactly.
    pub fn scrape_files(
        &self,
        res: &str,
        url: &str,
        accept: &Option<String>,
        reject: &Option<String>,
    ) -> (r: Result<Vec<File>, ScrapeError>)
        ensures
            ({
                let s = spec_scrape_files(
                    crate::dom::spec_parse(res@),
                    url@,
                    self.od_type,
                    opt_view(*accept),
                    opt_view(*reject),
                );
                match r {
                    Ok(files) => s is Links && files@.len() == s->Links_0.len() && (forall|i: int|
                        0 <= i < files@.len() ==> file_built_from(
                            #[trigger] files@[i],
                            s->Links_0[i],
                        )),
                    Err(e) => ((e is FilterConfig) <==> s is BadPattern) && ((e is MalformedUrl)
                        <==> s is BadUrl) && (e is FilterConfig || e is MalformedUrl),
                }
            }),
    {
        let doc = crate::dom::parse_document(res);
        self.scrape_files_doc(&doc, url, accept, reject)
    }

    /// Scrape directory URLs present on the current page: the page
    /// parses to its named node model, and the scrape runs over that
    /// exactly.
    pub fn scrape_dirs(&mut self, res: &str, url: &str, level: usize) -> (r: Result<
        Vec<Directory>,
        ScrapeError,
    >)
        requires
            old(self).wf(),
            level < usize::MAX,
        ensures
            final(self).wf(),
            final(self).pages == old(self).pages,
            final(self).od_type == old(self).od_type,
            final(self).current_subpage == old(self).current_subpage,
            ({
                let s = spec_scrape_dirs(
                    crate::dom::spec_parse(res@),
                    url@,
                    old(self).od_type,
                    old(self).dir_links@.map_values(|s: String| s@),
                    old(self).current_subpage as int,
                );
                match r {
                    Ok(dirs) => s is Out && final(self).dir_links@.map_values(|s: String| s@)
                        == s->Out_0.visited && dirs@.len() == s->Out_0.added.len() && (forall|
                        i: int,
                    |
                        0 <= i < dirs@.len() ==> (#[trigger] dirs@[i]).link@ == s->Out_0.added[i]
                            && dirs@[i].level == level + 1),
                    Err(e) => e is MalformedUrl && s is BadUrl,
                }
            }),
    {
        let doc = crate::dom::parse_document(res);
        self.scrape_dirs_doc(&doc, url, level)
    }
}

// ---------------------------------------------------------------------------
// The crawl session
// ---------------------------------------------------------------------------

/// One crawl session: the scraper state, the frontier of discovered but
/// unvisited directories, the depth bound, and the configured filters.
/// The caller fetches; the session decides.
pub struct CrawlSession {
    pub scraper: Scraper,
    pub frontier: Vec<Directory>,
    pub depth: usize,
    pub current_level: usize,
    pub accept: Option<String>,
    pub reject: Option<String>,
}

/// The links of a frontier.
pub open spec fn frontier_links(frontier: Seq<Directory>) -> Seq<Seq<char>> {
    frontier.map_values(|d: Directory| d.link@)
}

impl CrawlSession {
    /// The session's invariant: the visited set holds each link once,
    /// the frontier holds each link once, and every frontier link is
    /// already in the visited set. Together these keep the crawl
    /// cycle-safe: a directory can enter the frontier at most once,
    /// ever, so no directory is visited twice.
    pub open spec fn wf(&self) -> bool {
        &&& self.scraper.wf()
        &&& frontier_links(self.frontier@).no_duplicates()
        &&& (forall|i: int|
            0 <= i < self.frontier@.len() ==> self.scraper.dir_links@.map_values(
                |s: String| s@,
            ).contains(#[trigger] frontier_links(self.frontier@)[i]))
        &&& self.depth >= 1
    }

    /// Opens a session. A root URL that is itself file-like resolves at
    /// once: the session is complete with its single page and nothing
    /// to fetch. Otherwise the family is pre-checked from the URL and
    /// the sanitized root comes back as the first fetch. A depth of
    /// zero is read as one.
    pub fn start(url: &str, depth: usize, accept: Option<String>, reject: Option<String>) -> (r: (
        CrawlSession,
        Option<String>,
    ))
        ensures
            r.0.wf(),
            r.0.frontier@.len() == 0,
            r.0.scraper.dir_links@.len() == 0,
            spec_is_uri(url@) ==> r.1 is None && r.0.scraper.pages@.len() == 1
                && r.0.scraper.pages@[0].files@.len() == 1 && file_built_from(
                r.0.scraper.pages@[0].files@[0],
                spec_remove_last_slash(url@),
            ),
            !spec_is_uri(url@) ==> r.0.scraper.pages@.len() == 0 && (match r.1 {
                Some(first) => first@ == spec_sanitize_url(spec_add_last_slash(url@))
                    && r.0.scraper.od_type == spec_od_type_from_url(spec_add_last_slash(url@)),
                None => false,
            }),
            r.0.depth == (if depth == 0 {
                1int
            } else {
                depth as int
            }),
            r.0.accept == accept,
            r.0.reject == reject,
    {
        let depth = if depth == 0 {
            1
        } else {
            depth
        };
        let mut scraper = Scraper::new();
        if scraper.single_scrape(url) {
            let sess = CrawlSession {
                scraper,
                frontier: Vec::new(),
                depth,
                current_level: 0,
                accept,
                reject,
            };
            proof {
                assert(frontier_links(sess.frontier@) =~= Seq::<Seq<char>>::empty());
            }
            return (sess, None);
        }
        let slashed = add_last_slash(url);
        scraper.od_type_from_url(slashed.as_str());
        let first = sanitize_url(slashed.as_str());
        let sess = CrawlSession {
            scraper,
            frontier: Vec::new(),
            depth,
            current_level: 0,
            accept,
            reject,
        };
        proof {
            assert(frontier_links(sess.frontier@) =~= Seq::<Seq<char>>::empty());
        }
        (sess, Some(first))
    }

    /// Hands out the next directory to fetch, depth-first. An entry at
    /// or beyond the depth bound stops the whole traversal, as the
    /// bound demands; an empty frontier means the session is complete.
    pub fn next_url(&mut self) -> (r: Option<String>)
        requires
            old(self).wf(),
        ensures
            final(self).wf(),
            final(self).scraper == old(self).scraper,
            final(self).depth == old(self).depth,
            final(self).accept == old(self).accept,
            final(self).reject == old(self).reject,
            (match r {
                Some(link) => {
                    &&& old(self).frontier@.len() > 0
                    &&& old(self).frontier@.last().level < old(self).depth
                    &&& link@ == old(self).frontier@.last().link@
                    &&& final(self).frontier@ == old(self).frontier@.drop_last()
                    &&& final(self).current_level == old(self).frontier@.last().level
                },
                None => {
                    &&& final(self).frontier@.len() == 0
                    &&& (old(self).frontier@.len() == 0 || old(self).frontier@.last().level >= old(self).depth)
                },
            }),
    {
        let d = match self.frontier.pop() {
            Some(d) => d,
            None => {
                proof {
                    assert(frontier_links(self.frontier@) =~= Seq::<Seq<char>>::empty());
                }
                return None;
            },
        };
        if d.level >= self.depth {
            self.frontier = Vec::new();
            proof {
                assert(frontier_links(self.frontier@) =~= Seq::<Seq<char>>::empty());
            }
            return None;
        }
        self.current_level = d.level;
        proof {
            let f0 = frontier_links(old(self).frontier@);
            let f1 = frontier_links(self.frontier@);
            assert(f1 =~= f0.drop_last());
            assert(f1.no_duplicates()) by {
                assert(forall|i: int| 0 <= i < f1.len() ==> f1[i] == f0[i]);
            }
            assert(forall|i: int|
                0 <= i < f1.len() ==> self.scraper.dir_links@.map_values(|s: String| s@).contains(
                    #[trigger] f1[i],
                )) by {
                assert(forall|i: int| 0 <= i < f1.len() ==> f1[i] == f0[i]);
            }
        }
        Some(d.link)
    }
}

} // verus!

verus! {

/// What one successful feed of a listing page leaves behind: the page's
/// directories extend the visited set and the frontier at the next
/// level, and its surviving files become one more page of results.
pub open spec fn spec_fed(
    pre: CrawlSession,
    post: CrawlSession,
    dv: Seq<HtmlNodeV>,
    url: Seq<char>,
    level: int,
) -> bool {
    let sd = spec_scrape_dirs(
        dv,
        url,
        pre.scraper.od_type,
        pre.scraper.dir_links@.map_values(|s: String| s@),
        pre.scraper.current_subpage as int,
    );
    let sf = spec_scrape_files(
        dv,
        url,
        pre.scraper.od_type,
        opt_view(pre.accept),
        opt_view(pre.reject),
    );
    &&& sd is Out
    &&& sf is Links
    &&& post.scraper.dir_links@.map_values(|s: String| s@) == sd->Out_0.visited
    &&& frontier_links(post.frontier@) == frontier_links(pre.frontier@) + sd->Out_0.added
    &&& (forall|i: int|
        0 <= i < post.frontier@.len() ==> (#[trigger] post.frontier@[i]).level == (if i
            < pre.frontier@.len() {
            pre.frontier@[i].level as int
        } else {
            level + 1
        }))
    &&& (sf->Links_0.len() > 0 ==> post.scraper.pages@.len() == pre.scraper.pages@.len() + 1
        && post.scraper.pages@.last().files@.len() == sf->Links_0.len() && (forall|i: int|
        0 <= i < sf->Links_0.len() ==> file_built_from(
            #[trigger] post.scraper.pages@.last().files@[i],
            sf->Links_0[i],
        )) && post.scraper.pages@.take(pre.scraper.pages@.len() as int) == pre.scraper.pages@)
    &&& (sf->Links_0.len() == 0 ==> post.scraper.pages == pre.scraper.pages)
}

/// How a feed's result ties to the page: success exactly when both
/// scrapes go through, each error exactly on its cause.
pub open spec fn spec_feed_outcome(
    pre: CrawlSession,
    r: Result<(), ScrapeError>,
    dv: Seq<HtmlNodeV>,
    url: Seq<char>,
) -> bool {
    let sd = spec_scrape_dirs(
        dv,
        url,
        pre.scraper.od_type,
        pre.scraper.dir_links@.map_values(|s: String| s@),
        pre.scraper.current_subpage as int,
    );
    let sf = spec_scrape_files(
        dv,
        url,
        pre.scraper.od_type,
        opt_view(pre.accept),
        opt_view(pre.reject),
    );
    &&& (r is Ok <==> sd is Out && sf is Links)
    &&& ((r is Err && r->Err_0 is MalformedUrl) <==> (sd is BadUrl || (sd is Out
        && sf is BadUrl)))
    &&& ((r is Err && r->Err_0 is FilterConfig) <==> (sd is Out && sf is BadPattern))
}

/// Over a whole crawl, no directory is visited twice. Feeding any page
/// into a well-formed session extends the visited set by exactly the
/// links it enqueues; each of those was never visited before and never
/// stood in the frontier, and both the visited set and the frontier
/// stay free of duplicates. Since `next_url` only removes frontier
/// entries, every URL a session ever hands out is therefore distinct.
pub proof fn lemma_crawl_visits_once(
    pre: CrawlSession,
    post: CrawlSession,
    dv: Seq<HtmlNodeV>,
    url: Seq<char>,
    level: int,
)
    requires
        pre.wf(),
        spec_fed(pre, post, dv, url, level),
    ensures
        ({
            let vis0 = pre.scraper.dir_links@.map_values(|s: String| s@);
            let vis1 = post.scraper.dir_links@.map_values(|s: String| s@);
            let added = vis1.skip(vis0.len() as int);
            &&& vis1.take(vis0.len() as int) == vis0
            &&& frontier_links(post.frontier@) == frontier_links(pre.frontier@) + added
            &&& (forall|i: int|
                0 <= i < added.len() ==> !vis0.contains(#[trigger] added[i])
                    && !frontier_links(pre.frontier@).contains(added[i]))
            &&& vis1.no_duplicates()
            &&& frontier_links(post.frontier@).no_duplicates()
            &&& (forall|i: int|
                0 <= i < post.frontier@.len() ==> vis1.contains(
                    #[trigger] frontier_links(post.frontier@)[i],
                ))
        }),
{
    let vis0 = pre.scraper.dir_links@.map_values(|s: String| s@);
    let vis1 = post.scraper.dir_links@.map_values(|s: String| s@);
    let links = spec_filtered_links(dv, url, pre.scraper.od_type);
    let sd = spec_scrape_dirs_rec(
        url,
        links,
        0,
        Seq::<char>::empty(),
        vis0,
        pre.scraper.current_subpage as int,
    );
    lemma_scrape_dirs_growth(
        url,
        links,
        0,
        Seq::<char>::empty(),
        vis0,
        pre.scraper.current_subpage as int,
    );
    let o = sd->Out_0;
    assert(vis1 == vis0 + o.added);
    assert(vis1.skip(vis0.len() as int) =~= o.added);
    assert(vis1.take(vis0.len() as int) =~= vis0);
    let added = vis1.skip(vis0.len() as int);
    let f0 = frontier_links(pre.frontier@);
    let f1 = frontier_links(post.frontier@);
    assert forall|i: int| 0 <= i < added.len() implies !vis0.contains(#[trigger] added[i])
        && !f0.contains(added[i]) by {
        if f0.contains(added[i]) {
            let w = choose|w: int| 0 <= w < f0.len() && f0[w] == added[i];
            assert(vis0.contains(f0[w]));
        }
    }
    assert(f1.no_duplicates()) by {
        assert(added.no_duplicates()) by {
            assert forall|i: int, l: int| 0 <= i < l < added.len() implies added[i] != added[l] by {
                assert(added[i] == vis1[vis0.len() + i]);
                assert(added[l] == vis1[vis0.len() + l]);
            }
        }
        assert forall|i: int, l: int| 0 <= i < l < f1.len() implies f1[i] != f1[l] by {
            if i < f0.len() && l >= f0.len() {
                assert(f1[i] == f0[i]);
                assert(f1[l] == added[l - f0.len()]);
                assert(vis0.contains(f0[i]));
            } else if i >= f0.len() {
                assert(f1[i] == added[i - f0.len()]);
                assert(f1[l] == added[l - f0.len()]);
            } else {
                assert(f1[i] == f0[i] && f1[l] == f0[l]);
            }
        }
    }
    assert forall|i: int| 0 <= i < post.frontier@.len() implies vis1.contains(
        #[trigger] f1[i],
    ) by {
        if i < f0.len() {
            assert(f1[i] == f0[i]);
            assert(vis0.contains(f0[i]));
            let w = choose|w: int| 0 <= w < vis0.len() && vis0[w] == f0[i];
            assert(vis1[w] == vis0[w]);
        } else {
            assert(f1[i] == added[i - f0.len()]);
            assert(vis1[vis0.len() + (i - f0.len())] == added[i - f0.len()]);
        }
    }
}

impl CrawlSession {
    /// Feeds a fetched directory page in at the given level: the
    /// page's directories join the frontier, newly discovered ones
    /// only, and its surviving files become one more page of results.
    #[verifier::loop_isolation(false)]
    #[verifier::rlimit(100)]
    pub fn feed_listing(&mut self, doc: &HtmlDoc, url: &str, level: usize) -> (r: Result<
        (),
        ScrapeError,
    >)
        requires
            old(self).wf(),
            doc.wf(),
            level < usize::MAX,
        ensures
            final(self).wf(),
            final(self).depth == old(self).depth,
            final(self).current_level == old(self).current_level,
            final(self).accept == old(self).accept,
            final(self).reject == old(self).reject,
            final(self).scraper.od_type == old(self).scraper.od_type,
            final(self).scraper.current_subpage == old(self).scraper.current_subpage,
            spec_feed_outcome(*old(self), r, doc@, url@),
            r is Ok ==> spec_fed(*old(self), *final(self), doc@, url@, level as int),
            r is Err ==> r->Err_0 is FilterConfig || r->Err_0 is MalformedUrl,
    {
        let ghost vis0 = self.scraper.dir_links@.map_values(|s: String| s@);
        let ghost od = self.scraper.od_type;
        let ghost subpage = self.scraper.current_subpage as int;
        let dirs = match self.scraper.scrape_dirs_doc(doc, url, level) {
            Ok(d) => d,
            Err(e) => {
                proof {
                    lemma_prefix_keeps_frontier(
                        self.frontier@,
                        vis0,
                        self.scraper.dir_links@.map_values(|s: String| s@),
                    );
                }
                return Err(e);
            },
        };
        proof {
            lemma_prefix_keeps_frontier(
                self.frontier@,
                vis0,
                self.scraper.dir_links@.map_values(|s: String| s@),
            );
            lemma_scrape_dirs_growth(
                url@,
                spec_filtered_links(doc@, url@, od),
                0,
                Seq::<char>::empty(),
                vis0,
                subpage,
            );
        }
        let ghost added = spec_scrape_dirs(doc@, url@, od, vis0, subpage)->Out_0.added;
        let ghost vis_after = self.scraper.dir_links@.map_values(|s: String| s@);
        proof {
            assert(vis_after == spec_scrape_dirs(doc@, url@, od, vis0, subpage)->Out_0.visited);
        }
        let files = match self.scraper.scrape_files_doc(doc, url, &self.accept, &self.reject) {
            Ok(f) => f,
            Err(e) => {
                return Err(e);
            },
        };
        let ghost pages0 = self.scraper.pages@;
        if files.len() > 0 {
            self.scraper.pages.push(Page::new(files));
            proof {
                assert(self.scraper.pages@.take(pages0.len() as int) =~= pages0);
            }
        }
        let ghost front0 = self.frontier@;
        let ghost scr1 = self.scraper;
        let ghost d0 = self.depth;
        let ghost cl0 = self.current_level;
        let ghost acc0 = self.accept;
        let ghost rej0 = self.reject;
        let n = dirs.len();
        let mut i: usize = 0;
        proof {
            assert(frontier_links(self.frontier@) =~= frontier_links(front0) + added.take(0));
        }
        while i < n
            invariant
                self.scraper == scr1,
                self.depth == d0,
                self.current_level == cl0,
                self.accept == acc0,
                self.reject == rej0,
                0 <= i <= n,
                n == added.len(),
                self.frontier@.len() == front0.len() + i,
                frontier_links(self.frontier@) =~= frontier_links(front0) + added.take(i as int),
                forall|j: int|
                    0 <= j < self.frontier@.len() ==> (#[trigger] self.frontier@[j]).level == (if j
                        < front0.len() {
                        front0[j].level as int
                    } else {
                        level + 1
                    }),
            decreases n - i,
        {
            let ghost fl0 = frontier_links(self.frontier@);
            let link_copy = String::from_str(dirs[i].link.as_str());
            assert(link_copy@ == added[i as int]);
            let lvl = dirs[i].level;
            assert(lvl == level + 1);
            self.frontier.push(Directory::new(link_copy, lvl));
            proof {
                assert(frontier_links(self.frontier@) =~= fl0.push(added[i as int]));
                assert(frontier_links(front0) + added.take(i + 1) =~= (frontier_links(front0)
                    + added.take(i as int)).push(added[i as int]));
            }
            i = i + 1;
        }
        proof {
            assert(added.take(n as int) =~= added);
            let f0l = frontier_links(front0);
            let f1l = frontier_links(self.frontier@);
            let vis1 = self.scraper.dir_links@.map_values(|s: String| s@);
            let sd = spec_scrape_dirs(doc@, url@, od, vis0, subpage);
            assert(sd is Out);
            assert(vis1 == sd->Out_0.visited);
            assert(sd->Out_0.visited == vis0 + sd->Out_0.added);
            assert(added == sd->Out_0.added);
            assert(vis1 == vis0 + added);
            assert(forall|x: Seq<char>| vis0.contains(x) ==> #[trigger] vis1.contains(x)) by {
                assert forall|x: Seq<char>| vis0.contains(x) implies #[trigger] vis1.contains(
                    x,
                ) by {
                    let w = choose|w: int| 0 <= w < vis0.len() && vis0[w] == x;
                    assert(vis1[w] == x);
                }
            }
            assert(forall|i2: int|
                0 <= i2 < added.len() ==> #[trigger] vis1.contains(added[i2])) by {
                assert(forall|i2: int|
                    0 <= i2 < added.len() ==> vis1[vis0.len() + i2] == added[i2]);
            }
            assert(f1l.no_duplicates()) by {
                assert forall|i2: int, j2: int|
                    0 <= i2 < j2 < f1l.len() implies f1l[i2] != f1l[j2] by {
                    assert(vis1.no_duplicates());
                    if j2 < f0l.len() {
                        assert(f1l[i2] == f0l[i2] && f1l[j2] == f0l[j2]);
                    } else if i2 >= f0l.len() {
                        assert(f1l[i2] == added[i2 - f0l.len()] && f1l[j2] == added[j2
                            - f0l.len()]);
                        assert(vis1[vis0.len() + i2 - f0l.len()] == added[i2 - f0l.len()]);
                        assert(vis1[vis0.len() + j2 - f0l.len()] == added[j2 - f0l.len()]);
                    } else {
                        assert(f1l[i2] == f0l[i2] && f1l[j2] == added[j2 - f0l.len()]);
                        assert(vis0.contains(f0l[i2]));
                        assert(!vis0.contains(added[j2 - f0l.len()]));
                    }
                }
            }
            assert(forall|i2: int|
                0 <= i2 < self.frontier@.len() ==> vis1.contains(#[trigger] f1l[i2])) by {
                assert(forall|i2: int| 0 <= i2 < f0l.len() ==> f1l[i2] == f0l[i2]);
                assert(forall|i2: int|
                    f0l.len() <= i2 < f1l.len() ==> f1l[i2] == added[i2 - f0l.len()]);
            }
        }
        Ok(())
    }

    /// Feeds the fetched root page in: the family is fixed once, from
    /// the URL's verdict or the page and server header, exactly as the
    /// classification cascade says. A page that is no recognizable
    /// directory listing ends the session cleanly with empty results
    /// (`Ok(false)`); otherwise the root is scraped with its
    /// directories enqueued at depth one, succeeding and failing
    /// exactly as the scrapes do.
    pub fn feed_root(&mut self, url: &str, res: &str, server_name: &str) -> (r: Result<
        bool,
        ScrapeError,
    >)
        requires
            old(self).wf(),
        ensures
            final(self).wf(),
            final(self).depth == old(self).depth,
            final(self).current_level == old(self).current_level,
            final(self).accept == old(self).accept,
            final(self).reject == old(self).reject,
            final(self).scraper.current_subpage == old(self).scraper.current_subpage,
            ({
                let od1 = if old(self).scraper.od_type == ODMethod::Unknown {
                    spec_od_type_from_document(crate::dom::spec_parse(res@), server_name@)
                } else {
                    old(self).scraper.od_type
                };
                let mid = CrawlSession {
                    scraper: Scraper {
                        pages: old(self).scraper.pages,
                        dir_links: old(self).scraper.dir_links,
                        od_type: od1,
                        current_subpage: old(self).scraper.current_subpage,
                    },
                    frontier: old(self).frontier,
                    depth: old(self).depth,
                    current_level: old(self).current_level,
                    accept: old(self).accept,
                    reject: old(self).reject,
                };
                let ru = (match r {
                    Ok(b) => Result::<(), ScrapeError>::Ok(()),
                    Err(e) => Result::<(), ScrapeError>::Err(e),
                });
                &&& final(self).scraper.od_type == od1
                &&& (od1 == ODMethod::Unknown ==> r == Ok::<bool, ScrapeError>(false) && final(self).scraper.pages == old(self).scraper.pages && final(self).scraper.dir_links == old(self).scraper.dir_links && final(self).frontier == old(self).frontier)
                &&& (od1 != ODMethod::Unknown ==> spec_feed_outcome(
                    mid,
                    ru,
                    crate::dom::spec_parse(res@),
                    url@,
                ) && (r is Ok ==> r->Ok_0 == true && spec_fed(
                    mid,
                    *final(self),
                    crate::dom::spec_parse(res@),
                    url@,
                    0,
                )))
            }),
    {
        let ghost pre = *self;
        let doc = crate::dom::parse_document(res);
        self.scraper.retrieve_od_type(&doc, server_name);
        let ghost mid = *self;
        let unknown = match self.scraper.od_type {
            ODMethod::Unknown => true,
            _ => false,
        };
        if unknown {
            return Ok(false);
        }
        match self.feed_listing(&doc, url, 0) {
            Ok(_) => Ok(true),
            Err(e) => Err(e),
        }
    }

    /// Feeds a fetched frontier page in, at the level the last
    /// `next_url` handed out: the page's directories join the frontier
    /// one level deeper and its surviving files become one more page,
    /// succeeding and failing exactly as the scrapes do.
    pub fn feed_page(&mut self, url: &str, res: &str) -> (r: Result<(), ScrapeError>)
        requires
            old(self).wf(),
            old(self).current_level < usize::MAX,
        ensures
            final(self).wf(),
            final(self).depth == old(self).depth,
            final(self).current_level == old(self).current_level,
            final(self).accept == old(self).accept,
            final(self).reject == old(self).reject,
            final(self).scraper.od_type == old(self).scraper.od_type,
            final(self).scraper.current_subpage == old(self).scraper.current_subpage,
            spec_feed_outcome(*old(self), r, crate::dom::spec_parse(res@), url@),
            r is Ok ==> spec_fed(
                *old(self),
                *final(self),
                crate::dom::spec_parse(res@),
                url@,
                old(self).current_level as int,
            ),
            r is Err ==> r->Err_0 is FilterConfig || r->Err_0 is MalformedUrl,
    {
        let doc = crate::dom::parse_document(res);
        self.feed_listing(&doc, url, self.current_level)
    }
}

} // verus!

verus! {

impl Scraper {
    /// Scrub a raw file link of placeholder path components before the
    /// file-shape gates look at it.
    pub fn od_file_sanitize(x: &str) -> (r: String)
        ensures
            r@ == spec_removes_single_path(x@),
    {
        crate::parser::removes_single_path(x)
    }

    /// The family transform of a file link, against the named parse of
    /// the page it came from. Outside the two transforming families the
    /// link stands as it is.
    pub fn od_file_link_modify(&self, url: &str, x: &String, res: &str) -> (r: Option<String>)
        ensures
            (match r {
                Some(s) => spec_od_file_modify(url@, x@, crate::dom::spec_parse(res@), self.od_type)
                    == Some(s@),
                None => spec_od_file_modify(
                    url@,
                    x@,
                    crate::dom::spec_parse(res@),
                    self.od_type,
                ) is None,
            }),
            self.od_type != ODMethod::OLAINDEX && self.od_type != ODMethod::AutoIndexPHP ==> r
                is Some && r->0@ == x@,
    {
        let doc = crate::dom::parse_document(res);
        od_file_modify(url, x, &doc, &self.od_type)
    }

    /// Scrape one file link through the accept/reject rule: a kept link
    /// is joined onto the base and appended to the files, a dropped one
    /// leaves them as they stand. Fails with a filter error exactly when
    /// the pattern the decision rests on is invalid, and with a URL
    /// error exactly when a kept link cannot be joined.
    pub fn acc_rej_check(
        url: &str,
        files: &mut Vec<File>,
        x: &String,
        accept: &Option<String>,
        reject: &Option<String>,
    ) -> (r: Result<(), ScrapeError>)
        ensures
            ({
                let valid = (match spec_pattern_used(opt_view(*accept), opt_view(*reject)) {
                    Some(p) => regex_valid(p),
                    None => true,
                });
                let kept = spec_keep_file(opt_view(*accept), opt_view(*reject), x@);
                &&& ((r is Err && r->Err_0 is FilterConfig) <==> !valid)
                &&& ((r is Err && r->Err_0 is MalformedUrl) <==> (valid && kept
                    && spec_add_file_link(url@, x@) is None))
                &&& (r is Ok <==> valid && (kept ==> spec_add_file_link(url@, x@) is Some))
                &&& (r is Ok && kept ==> final(files)@.len() == old(files)@.len() + 1 && final(files)@.take(old(files)@.len() as int) == old(files)@ && file_built_from(
                    final(files)@.last(),
                    spec_add_file_link(url@, x@)->0,
                ))
                &&& (r is Ok && !kept ==> final(files)@ == old(files)@)
                &&& (r is Err ==> final(files)@ == old(files)@)
            }),
    {
        let keep = match keep_file(accept, reject, x.as_str()) {
            Ok(k) => k,
            Err(e) => {
                return Err(e);
            },
        };
        if keep {
            match add_file_link(url, x.as_str()) {
                Some(j) => {
                    let ghost pre = files@;
                    files.push(File::new(j.as_str()));
                    assert(files@.take(pre.len() as int) =~= pre);
                    Ok(())
                },
                None => Err(ScrapeError::MalformedUrl),
            }
        } else {
            Ok(())
        }
    }
}

} // verus!
