use zeiver::parser::{has_dir_queries, has_placeholder_path, is_file_ext, is_http, is_uri, join,
    remove_http, sanitize_url, url_joiner, within_page_limit};

#[test]
fn file_regex_test() {
    assert!(is_file_ext("Example.3gp"));
    assert!(is_file_ext("Example.7z.001"));
    assert!(!is_file_ext("Example.7z.01"));
    assert!(is_file_ext("Example.u3i"));
    assert!(is_file_ext("Example.PWD"));
    assert!(is_file_ext("Example.60D"));
    assert!(!is_file_ext("Example.87fesf27"));
    assert!(is_file_ext("Example.H13"));
    assert!(is_file_ext("Example.alpx"));
}

#[test]
fn dir_query_regex() {
    assert_eq!(has_dir_queries("/index.php?dir=Hello+World%2F%2Fthumbnails%2F"), true);
    assert_eq!(has_dir_queries("/file.php?dir=Hello+World%2F%2Fthumbnails%2F"), true);
    assert_eq!(has_dir_queries("help.php?dir=Hello+World%2F%2Fthumbnails%2F"), true);
    assert_eq!(has_dir_queries("?dir=Hello+World%2F%2Fthumbnails%2F"), true);
    assert_eq!(has_dir_queries("/?dir=Hello+World%2F%2Fthumbnails%2F"), true);
    assert_eq!(has_dir_queries("/?dir=./Hello+World%2F%2Fthumbnails%2F"), true);
    assert_eq!(has_dir_queries("/?dir=.%2FHello+World%2F%2Fthumbnails%2F"), true);
    assert_eq!(has_dir_queries("/?dir=.Hello+World%2F%2Fthumbnails%2F"), true);
    assert_eq!(has_dir_queries("/?dir=/Hello+World%2F%2Fthumbnails%2F"), true);

    assert_eq!(has_dir_queries("/dir=Hello+World%2F%2Fthumbnails%2F"), false);
    assert_eq!(has_dir_queries("dir=Hello+World%2F%2Fthumbnails%2F"), false);
}

#[test]
fn one_non_letter_path() {
    assert_eq!(
        has_placeholder_path("http://cool.example.net/./ChampionHat/This_Battery_Pack_tut.pdf"),
        true
    );
    assert_eq!(
        has_placeholder_path("http://cool.example.net/?/ChampionHat/This_Battery_Pack_tut.pdf"),
        true
    );
    assert_eq!(
        has_placeholder_path("http://cool.example.net/?/./ChampionHat/This_Battery_Pack_tut.pdf"),
        true
    );
    assert_eq!(
        has_placeholder_path("http://cool.example.net/././ChampionHat/This_Battery_Pack_tut.pdf"),
        true
    );
    assert_eq!(
        has_placeholder_path("http://cool.example.net/?/?/ChampionHat/This_Battery_Pack_tut.pdf"),
        true
    );

    assert_eq!(
        has_placeholder_path("http://cool.example.net/.ChampionHat/This_Battery_Pack_tut.pdf"),
        false
    );
    assert_eq!(
        has_placeholder_path("http://cool.example.net/Champion?Hat/This?_Battery_Pack_tut.pdf"),
        false
    );
    assert_eq!(
        has_placeholder_path("http://cool.example.net/?ChampionHat/This_Battery_Pack_tut.pdf"),
        false
    );
}

#[test]
fn join_substitutes_dir_query() {
    let joined = url_joiner("http://ex.com/list.php?dir=foo", "bar");
    assert_eq!(joined.as_deref(), Some("http://ex.com/list.php?dir=bar"));
}

#[test]
fn join_keeps_absolute_links() {
    let joined = join("http://ex.com/a/", "https://other.example.net/file.bin");
    assert_eq!(joined.as_deref(), Some("https://other.example.net/file.bin"));
}

#[test]
fn join_concatenates_with_normalized_slashes() {
    assert_eq!(
        url_joiner("http://ex.com/a/", "sub/").as_deref(),
        Some("http://ex.com/a/sub/")
    );
    assert_eq!(
        url_joiner("http://ex.com/a/", "./sub/").as_deref(),
        Some("http://ex.com/a/sub/")
    );
    assert_eq!(
        url_joiner("http://ex.com/a/", "/sub/").as_deref(),
        Some("http://ex.com/a/sub/")
    );
    assert_eq!(
        url_joiner("http://ex.com/a", "b/").as_deref(),
        Some("http://ex.com/a/b/")
    );
    assert_eq!(url_joiner("not a url", "x"), None);
}

#[test]
fn join_replaces_query_and_script_tail() {
    assert_eq!(
        url_joiner("http://ex.com/a/", "?page=2").as_deref(),
        Some("http://ex.com/a/?page=2")
    );
    assert_eq!(
        url_joiner("http://ex.com/a/index.php", "b/").as_deref(),
        Some("http://ex.com/a/b/")
    );
}

#[test]
fn page_limit_moves_forward_only() {
    assert_eq!(within_page_limit("?page=2", 2), false);
    assert_eq!(within_page_limit("?page=3", 2), true);
    assert_eq!(within_page_limit("?page=1", 2), false);
    assert_eq!(within_page_limit("plain", 2), false);
}

#[test]
fn sanitize_strips_trailing_markers() {
    assert_eq!(sanitize_url("http://e.com/a?preview"), "http://e.com/a");
    assert_eq!(sanitize_url("http://e.com/a%20"), "http://e.com/a");
    assert_eq!(sanitize_url("http://e.com/a?hash=A1b2C3d4"), "http://e.com/a");
    assert_eq!(
        sanitize_url("http://e.com/a?hash=A1b2C3d4&download=1"),
        "http://e.com/a"
    );
    let once = sanitize_url("http://e.com/a");
    assert_eq!(sanitize_url(&once), once);
}

#[test]
fn sanitize_reaches_a_fixpoint() {
    // stacked markers go in one call, and the result is stable
    assert_eq!(sanitize_url("http://e.com/a%20?preview"), "http://e.com/a");
    assert_eq!(sanitize_url("http://e.com/a?preview?preview"), "http://e.com/a");
    let r = sanitize_url("http://e.com/a%20?preview");
    assert_eq!(sanitize_url(&r), r);
}

#[test]
fn sanitize_collapses_slashes_and_placeholders() {
    assert_eq!(sanitize_url("http://e.com//a//b"), "http://e.com/a/b");
    assert_eq!(sanitize_url("http://e.com/a/./b"), "http://e.com/a/b");
}

#[test]
fn file_like_urls_have_no_trailing_slash() {
    assert!(is_uri("http://e.com/music/song.mp3"));
    assert!(!is_uri("http://e.com/music/song.mp3/"));
    assert!(!is_uri("http://e.com/music/list.php"));
    assert!(!is_uri("http://e.com/music/"));
}

#[test]
fn scheme_stripping() {
    assert!(is_http("https://e.com"));
    assert!(!is_http("ftp://e.com"));
    assert_eq!(remove_http("https://e.com/a"), "e.com/a");
    assert_eq!(remove_http("e.com/a"), "e.com/a");
}
