use zeiver::od::all::no_parent_dir;
use zeiver::od::autoindex_php::AutoIndexPHP;
use zeiver::od::directory_listing_script::DirectoryListingScript;
use zeiver::od::nginx::NGINX;
use zeiver::od::odindex::OdIndex;
use zeiver::od::olaindex::OLAINDEX;
use zeiver::od::{od_type_from_document, od_type_from_url, ODMethod};
use zeiver::search::filtered_links;

#[test]
fn no_parent_test() {
    const HOME_URL: &str = "https://ftp.example.jp";
    assert_eq!(no_parent_dir(HOME_URL, "Parent directory/", Some("../")), false);
    assert_eq!(no_parent_dir(HOME_URL, "Parent Directory", Some("..")), false);
    assert_eq!(no_parent_dir(HOME_URL, "Parent Directory", Some("./")), false);
    assert_eq!(no_parent_dir(HOME_URL, "parent directory", Some(".")), false);
    assert_eq!(no_parent_dir(HOME_URL, "Carrots and java", Some("../")), false);
    assert_eq!(no_parent_dir(HOME_URL, "Carrots and java", Some("./")), false);
    assert_eq!(no_parent_dir(HOME_URL, "Carrots and java", Some("..")), false);
    assert_eq!(no_parent_dir(HOME_URL, "Carrots and java", Some(".")), false);
    assert_eq!(
        no_parent_dir(
            HOME_URL,
            "Carrots and java",
            Some("https://www.example.com/path/index.php?dir=")
        ),
        false
    );
    assert_eq!(
        no_parent_dir(HOME_URL, "Drink Soda", Some("https://ftp.example.jp")),
        false
    );
    assert_eq!(no_parent_dir(HOME_URL, "../", Some("https://ftp.example.jp")), false);
    assert_eq!(no_parent_dir(HOME_URL, "..", Some("https://ftp.example.jp")), false);
    assert_eq!(no_parent_dir(HOME_URL, "./", Some("https://ftp.example.jp")), false);
    assert_eq!(no_parent_dir(HOME_URL, ".", Some("https://ftp.example.jp")), false);

    assert_eq!(
        no_parent_dir(HOME_URL, "Carrots and java", Some("./Carrots%20and%20java")),
        true
    );
    assert_eq!(
        no_parent_dir(HOME_URL, "../Carrots", Some("./Carrots%20and%20java")),
        true
    );
    assert_eq!(no_parent_dir(HOME_URL, "Drink Soda", Some("Drink%20Soda")), true);
    assert_eq!(
        no_parent_dir(
            HOME_URL,
            "Carrots and java",
            Some("https://www.example.com/path/index.php?dir=Outboards%2F5-27")
        ),
        true
    );
    assert_eq!(no_parent_dir(HOME_URL, "Drink Soda", Some("https://example.me")), true);
}

#[test]
fn sort_queries_regex() {
    assert_eq!(NGINX::has_extra_query("?C=N&O=A"), true);
    assert_eq!(NGINX::has_extra_query("?c=n&o=a"), true);
    assert_eq!(NGINX::has_extra_query("?C=n&o=a"), true);
    assert_eq!(NGINX::has_extra_query("?c=N&o=a"), true);
    assert_eq!(NGINX::has_extra_query("?c=n&O=a"), true);
    assert_eq!(NGINX::has_extra_query("?c=n&o=A"), true);
    assert_eq!(NGINX::has_extra_query("?C=A&O=D"), true);
    assert_eq!(NGINX::has_extra_query("?C=A"), true);
    assert_eq!(NGINX::has_extra_query("?C=a"), true);
    assert_eq!(NGINX::has_extra_query("?c=a"), true);
    assert_eq!(NGINX::has_extra_query("Text?C=A&O=D"), true);
    assert_eq!(NGINX::has_extra_query("Text/?C=A&O=D"), true);

    assert_eq!(NGINX::has_extra_query("Text/?C=AD"), false);
    assert_eq!(NGINX::has_extra_query("Text/?CA"), false);
    assert_eq!(NGINX::has_extra_query("Text/?CD=A"), false);
    assert_eq!(NGINX::has_extra_query("Text/?C=A&O=DFinish"), false);
    assert_eq!(NGINX::has_extra_query("Text/?CL=A&O=DFinish"), false);
    assert_eq!(NGINX::has_extra_query("Text/?CL=AD&O=DFinish"), false);
    assert_eq!(NGINX::has_extra_query("Text/?CA&O=DFinish"), false);
    assert_eq!(NGINX::has_extra_query("Text/?CA=A&OD=DFinish"), false);
    assert_eq!(NGINX::has_extra_query("?C=A&&O=D"), false);
}

#[test]
fn extra_paths_regex() {
    const HOME: &str = "https://www.example.org";
    assert_eq!(OLAINDEX::has_path_marker(&format!("{}/v/", HOME)), true);
    assert_eq!(OLAINDEX::has_path_marker(&format!("{}/v%2F", HOME)), true);
    assert_eq!(OLAINDEX::has_path_marker(&format!("{}%2Fv/", HOME)), true);
    assert_eq!(OLAINDEX::has_path_marker(&format!("{}%2Fv%2F", HOME)), true);
    assert_eq!(OLAINDEX::has_path_marker(&format!("{}/s/", HOME)), true);
    assert_eq!(OLAINDEX::has_path_marker(&format!("{}/show/", HOME)), true);
    assert_eq!(OLAINDEX::has_path_marker(&format!("{}/view/", HOME)), true);
    assert_eq!(OLAINDEX::has_path_marker(&format!("{}/home/", HOME)), true);
    assert_eq!(OLAINDEX::has_path_marker(&format!("{}/d/", HOME)), true);
    assert_eq!(OLAINDEX::has_path_marker(&format!("{}/down/", HOME)), true);

    assert_eq!(OLAINDEX::has_path_marker(&format!("{}/down", HOME)), false);
    assert_eq!(OLAINDEX::has_path_marker(&format!("{}/t/", HOME)), false);
    assert_eq!(OLAINDEX::has_path_marker(&format!("{}t/", HOME)), false);
    assert_eq!(OLAINDEX::has_path_marker(&format!("{}t", HOME)), false);
    assert_eq!(OLAINDEX::has_path_marker(&format!("{}t%2F", HOME)), false);
    assert_eq!(OLAINDEX::has_path_marker(&format!("{}%2Ftime", HOME)), false);
}

#[test]
fn hash_query_marks_olaindex() {
    assert!(OLAINDEX::hash_query("http://e.com/x?hash=A1b2C3d4"));
    assert!(OLAINDEX::hash_query("http://e.com/x?hash=A1b2C3d4/"));
    assert!(OLAINDEX::hash_query("http://e.com/x?hash=A1b2C3d4&download=1"));
    assert!(!OLAINDEX::hash_query("http://e.com/x?hash=A1b2C3"));
    assert_eq!(
        od_type_from_url("http://e.com/x?hash=A1b2C3d4"),
        ODMethod::OLAINDEX
    );
    assert_eq!(od_type_from_url("http://e.com/x"), ODMethod::Unknown);
}

#[test]
fn download_query_transform() {
    assert_eq!(OLAINDEX::transform_link("http://e.com/a.mp4"), "http://e.com/a.mp4?download=1");
    assert_eq!(
        OLAINDEX::transform_link("http://e.com/a.mp4?download=1"),
        "http://e.com/a.mp4?download=1"
    );
    assert_eq!(OLAINDEX::sanitize_url("http://e.com/a?hash=A1b2C3d4"), "http://e.com/a");
}

#[test]
fn classifier_negative_precondition() {
    let page = "<html><body><noscript>on</noscript><p>empty</p></body></html>";
    assert_eq!(od_type_from_document(page, ""), ODMethod::Unknown);
}

#[test]
fn classifier_falls_back_to_generic() {
    let page = "<html><body><a href=\"x/\">x</a></body></html>";
    assert_eq!(od_type_from_document(page, ""), ODMethod::Generic);
}

#[test]
fn classifier_reads_meta_signature() {
    let page = "<html><head><meta name=\"description\" \
                content=\"OLAINDEX,Another OneDrive Directory Index\"></head>\
                <body><a href=\"x\">x</a></body></html>";
    assert_eq!(od_type_from_document(page, ""), ODMethod::OLAINDEX);
}

#[test]
fn classifier_reads_server_header() {
    let page = "<html><body><a href=\"x/\">x</a></body></html>";
    assert_eq!(od_type_from_document(page, "Apache/2.4"), ODMethod::Apache);
    assert_eq!(od_type_from_document(page, "nginx/1.18"), ODMethod::NGINX);
    assert_eq!(
        od_type_from_document(page, "Microsoft-IIS/10.0"),
        ODMethod::MicrosoftIIS
    );
}

#[test]
fn classifier_reads_footer_signature() {
    let page = "<html><body><div><h1>Directory Listing of /pub</h1></div>\
                <a href=\"x/\">x</a></body></html>";
    assert_eq!(od_type_from_document(page, ""), ODMethod::DirectoryListingScript);
}

#[test]
fn home_navigator_detection() {
    assert!(DirectoryListingScript::is_home_navigator(
        "https://www.example.com/path/index.php?dir="
    ));
    assert!(!DirectoryListingScript::is_home_navigator(
        "https://www.example.com/path/index.php?dir=sub"
    ));
    assert_eq!(
        DirectoryListingScript::transform_dir_link("?dir=a%2F%2Fb"),
        "?dir=a%2Fb"
    );
}

#[test]
fn apache_rows_are_extracted() {
    let page = "<html><body><table>\
                <tr><td><a href=\"sub/\">sub/</a></td></tr>\
                <tr><td><a href=\"?C=N&O=A\">Name</a></td></tr>\
                <tr><td><a href=\"file.txt\">file.txt</a></td></tr>\
                </table></body></html>";
    let links = filtered_links(page, "http://e.com/a/", &ODMethod::Apache);
    assert_eq!(links, vec!["sub/".to_string(), "file.txt".to_string()]);
}

#[test]
fn panindex_uses_data_url() {
    let page = "<html><body><div data-url=\"http://e.com/a/f.bin\">f.bin</div></body></html>";
    let links = filtered_links(page, "http://e.com/a/", &ODMethod::PanIndex);
    assert_eq!(links, vec!["http://e.com/a/f.bin".to_string()]);
}

#[test]
fn olaindex_prefers_data_route() {
    let page = "<html><body><div class=\"container\">\
                <a data-route=\"/real/file.bin\" href=\"/masked\">file.bin</a>\
                </div></body></html>";
    let links = filtered_links(page, "http://e.com/", &ODMethod::OLAINDEX);
    assert_eq!(links, vec!["/real/file.bin".to_string()]);
}

#[test]
fn odindex_preview_query_is_stripped() {
    assert_eq!(OdIndex::sanitize_url("http://e.com/a?p=t"), "http://e.com/a");
    assert_eq!(OdIndex::sanitize_url("http://e.com/a"), "http://e.com/a");
}

#[test]
fn autoindex_breadcrumb_start_path() {
    let crumbs = vec!["../cool/sub".to_string()];
    let (path, extended, cancelled) = AutoIndexPHP::retrieve_start_path(&crumbs);
    let path_s: String = path.iter().collect();
    assert_eq!(path_s, "/cool/sub/");
    assert!(extended);
    assert!(!cancelled);

    let cancel = vec!["AutoIndex PHP Script".to_string()];
    let (_, _, cancelled2) = AutoIndexPHP::retrieve_start_path(&cancel);
    assert!(cancelled2);
}
