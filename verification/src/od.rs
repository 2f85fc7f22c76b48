//! Listing-software families: the classification tag and the per-family
//! signature and extraction modules.

use vstd::prelude::*;
use crate::od::olaindex::OLAINDEX;

pub mod ab;
pub mod all;
pub mod directory_lister;
pub mod apache;
pub mod autoindex_php;
pub mod apache_directory_listing;
pub mod eyy_indexer;
pub mod fancyindex;
pub mod h5ai;
pub mod indices;
pub mod odindex;
pub mod caddy;
pub mod lighttpd;
pub mod lite_speed;
pub mod microsoftiis;
pub mod nginx;
pub mod oneindex;
pub mod onemanager;
pub mod panindex;
pub mod none;
pub mod phpbb;
pub mod snif;
pub mod windex;
pub mod directory_listing_script;
pub mod olaindex;

verus! {

/// The recognized listing-software families, plus `Generic` for pages
/// that show anchors without a specific signature and `None` for pages
/// that are no directory listing at all.
#[derive(PartialEq, Eq, Structural, Clone, Copy, Debug)]
pub enum ODMethod {
    OLAINDEX,
    AutoIndexPHP,
    AutoIndexPHPNoCrumb,
    DirectoryLister,
    Apache,
    NGINX,
    DirectoryListingScript,
    LightTPD,
    PHPBB,
    OneManager,
    H5AI,
    MicrosoftIIS,
    Snif,
    OdIndex,
    OneIndex,
    PanIndex,
    ApacheDirectoryListing,
    EyyIndexer,
    FancyIndex,
    AB,
    Generic,
    Unknown,
    Windex,
    Indices,
}

/// What the URL alone reveals of the family: a signed hash query marks
/// OLAINDEX; anything else stays undecided.
pub open spec fn spec_od_type_from_url(url: Seq<char>) -> ODMethod {
    if crate::od::olaindex::spec_hash_query(url) {
        ODMethod::OLAINDEX
    } else {
        ODMethod::Unknown
    }
}

/// Determine the od type from URL.
pub fn od_type_from_url(url: &str) -> (r: ODMethod)
    ensures
        r == spec_od_type_from_url(url@),
{
    if OLAINDEX::hash_query(url) {
        ODMethod::OLAINDEX
    } else {
        ODMethod::Unknown
    }
}

} // verus!

verus! {

/// The classification cascade: the negative precondition first, then the
/// specific family signatures in their fixed order, then the AutoIndex
/// pair, then the header-based families, and `Generic` last. Total: some
/// tag always comes back.
pub open spec fn spec_od_type_from_document(
    dv: Seq<crate::dom::HtmlNodeV>,
    server: Seq<char>,
) -> ODMethod {
    if crate::od::none::spec_is_invalid_od(dv) {
        ODMethod::Unknown
    } else if crate::od::olaindex::spec_is_od(dv) {
        ODMethod::OLAINDEX
    } else if crate::od::directory_lister::spec_is_od(dv) {
        ODMethod::DirectoryLister
    } else if crate::od::directory_listing_script::spec_is_od(dv) {
        ODMethod::DirectoryListingScript
    } else if crate::od::phpbb::spec_is_od(dv) {
        ODMethod::PHPBB
    } else if crate::od::oneindex::spec_is_od(dv) {
        ODMethod::OneIndex
    } else if crate::od::onemanager::spec_is_od(dv) {
        ODMethod::OneManager
    } else if crate::od::h5ai::spec_is_od(dv) {
        ODMethod::H5AI
    } else if crate::od::snif::spec_is_od(dv) {
        ODMethod::Snif
    } else if crate::od::odindex::spec_is_od(dv) {
        ODMethod::OdIndex
    } else if crate::od::panindex::spec_is_od(dv) {
        ODMethod::PanIndex
    } else if crate::od::indices::spec_is_od(dv) {
        ODMethod::Indices
    } else if crate::od::windex::spec_is_od(dv) {
        ODMethod::Windex
    } else if crate::od::apache_directory_listing::spec_is_od(dv) {
        ODMethod::ApacheDirectoryListing
    } else if crate::od::eyy_indexer::spec_is_od(dv) {
        ODMethod::EyyIndexer
    } else if crate::od::fancyindex::spec_is_od(dv) {
        ODMethod::FancyIndex
    } else if crate::od::ab::spec_is_od(dv) {
        ODMethod::AB
    } else {
        spec_autoindex_type_check(dv, server)
    }
}

/// The AutoIndex pair: breadcrumbs and signature give the full family,
/// the signature alone the crumbless one; otherwise the header decides.
pub open spec fn spec_autoindex_type_check(
    dv: Seq<crate::dom::HtmlNodeV>,
    server: Seq<char>,
) -> ODMethod {
    if crate::od::autoindex_php::spec_breadcrumbs_exist(dv)
        && crate::od::autoindex_php::spec_is_autoindex(dv) {
        ODMethod::AutoIndexPHP
    } else if crate::od::autoindex_php::spec_is_autoindex(dv) {
        ODMethod::AutoIndexPHPNoCrumb
    } else {
        spec_od_type_from_header(dv, server)
    }
}

/// The header-based families, each also accepting its page marker.
pub open spec fn spec_od_type_from_header(
    dv: Seq<crate::dom::HtmlNodeV>,
    server: Seq<char>,
) -> ODMethod {
    if crate::od::microsoftiis::spec_is_od(dv, server) {
        ODMethod::MicrosoftIIS
    } else if crate::od::lighttpd::spec_is_od(dv, server) {
        ODMethod::LightTPD
    } else if crate::od::apache::spec_is_od(dv, server) {
        ODMethod::Apache
    } else if crate::od::nginx::spec_is_od(dv, server) {
        ODMethod::NGINX
    } else {
        ODMethod::Generic
    }
}

/// Classifies an already-parsed page against the cascade.
pub fn classify_document(doc: &crate::dom::HtmlDoc, server_name: &str) -> (r: ODMethod)
    requires
        doc.wf(),
    ensures
        r == spec_od_type_from_document(doc@, server_name@),
{
    if crate::od::none::is_invalid_od_doc(doc) {
        ODMethod::Unknown
    } else if crate::od::olaindex::OLAINDEX::is_od_doc(doc) {
        ODMethod::OLAINDEX
    } else if crate::od::directory_lister::DirectoryLister::is_od_doc(doc) {
        ODMethod::DirectoryLister
    } else if crate::od::directory_listing_script::DirectoryListingScript::is_od_doc(doc) {
        ODMethod::DirectoryListingScript
    } else if crate::od::phpbb::PHPBB::is_od_doc(doc) {
        ODMethod::PHPBB
    } else if crate::od::oneindex::OneIndex::is_od_doc(doc) {
        ODMethod::OneIndex
    } else if crate::od::onemanager::OneManager::is_od_doc(doc) {
        ODMethod::OneManager
    } else if crate::od::h5ai::H5AI::is_od_doc(doc) {
        ODMethod::H5AI
    } else if crate::od::snif::Snif::is_od_doc(doc) {
        ODMethod::Snif
    } else if crate::od::odindex::OdIndex::is_od_doc(doc) {
        ODMethod::OdIndex
    } else if crate::od::panindex::PanIndex::is_od_doc(doc) {
        ODMethod::PanIndex
    } else if crate::od::indices::Indices::is_od_doc(doc) {
        ODMethod::Indices
    } else if crate::od::windex::Windex::is_od_doc(doc) {
        ODMethod::Windex
    } else if crate::od::apache_directory_listing::ApacheDirectoryListing::is_od_doc(doc) {
        ODMethod::ApacheDirectoryListing
    } else if crate::od::eyy_indexer::EyyIndexer::is_od_doc(doc) {
        ODMethod::EyyIndexer
    } else if crate::od::fancyindex::FancyIndex::is_od_doc(doc) {
        ODMethod::FancyIndex
    } else if crate::od::ab::AB::is_od_doc(doc) {
        ODMethod::AB
    } else {
        let (crumbs, is_auto) = crate::od::autoindex_php::AutoIndexPHP::is_od_doc(doc);
        if crumbs && is_auto {
            ODMethod::AutoIndexPHP
        } else if is_auto {
            ODMethod::AutoIndexPHPNoCrumb
        } else if crate::od::microsoftiis::MicrosoftIIS::is_od_doc(doc, server_name) {
            ODMethod::MicrosoftIIS
        } else if crate::od::lighttpd::LightTPD::is_od_doc(doc, server_name) {
            ODMethod::LightTPD
        } else if crate::od::apache::Apache::is_od_doc(doc, server_name) {
            ODMethod::Apache
        } else if crate::od::nginx::NGINX::is_od_doc(doc, server_name) {
            ODMethod::NGINX
        } else {
            ODMethod::Generic
        }
    }
}

/// Determine od type from HTML Document: exactly the cascade's verdict
/// on the named parse of the page.
pub fn od_type_from_document(res: &str, server_name: &str) -> (r: ODMethod)
    ensures
        r == spec_od_type_from_document(crate::dom::spec_parse(res@), server_name@),
{
    let doc = crate::dom::parse_document(res);
    classify_document(&doc, server_name)
}

/// Classification is invariant under attribute-ordering permutations
/// within a tag: pages whose nodes differ only in the order of their
/// attributes classify identically.
pub proof fn lemma_classify_attr_order(
    a: Seq<crate::dom::HtmlNode>,
    b: Seq<crate::dom::HtmlNode>,
    server: Seq<char>,
)
    requires
        a.len() == b.len(),
        forall|i: int| 0 <= i < a.len() ==> crate::dom::attr_permuted(a[i], b[i]),
    ensures
        spec_od_type_from_document(a.map_values(|n: crate::dom::HtmlNode| n@), server)
            == spec_od_type_from_document(b.map_values(|n: crate::dom::HtmlNode| n@), server),
{
    assert forall|i: int| 0 <= i < a.len() implies #[trigger] a[i]@ == b[i]@ by {
        crate::dom::lemma_attr_permuted_view(a[i], b[i]);
    }
    assert(a.map_values(|n: crate::dom::HtmlNode| n@) =~= b.map_values(
        |n: crate::dom::HtmlNode| n@,
    ));
}

} // verus!
