use zeiver::od::ODMethod;
use zeiver::scrape::{add_file_link, keep_file, CrawlSession, ScrapeError, Scraper};

#[test]
fn accept_pattern_keeps_only_matches() {
    let page = "<html><body>\
                <a href=\"song.mp3\">song.mp3</a>\
                <a href=\"notes.txt\">notes.txt</a>\
                </body></html>";
    let scraper = Scraper::new();
    let accept = Some(String::from("\\.mp3$"));
    let files = scraper
        .scrape_files(page, "http://e.com/a/", &accept, &None)
        .unwrap();
    assert_eq!(files.len(), 1);
    assert_eq!(files[0].link, "http://e.com/a/song.mp3");
}

#[test]
fn reject_pattern_keeps_only_non_matches() {
    let page = "<html><body>\
                <a href=\"song.mp3\">song.mp3</a>\
                <a href=\"notes.txt\">notes.txt</a>\
                </body></html>";
    let scraper = Scraper::new();
    let reject = Some(String::from("\\.mp3$"));
    let files = scraper
        .scrape_files(page, "http://e.com/a/", &None, &reject)
        .unwrap();
    assert_eq!(files.len(), 1);
    assert_eq!(files[0].link, "http://e.com/a/notes.txt");
}

#[test]
fn no_pattern_keeps_everything() {
    let page = "<html><body>\
                <a href=\"song.mp3\">song.mp3</a>\
                <a href=\"notes.txt\">notes.txt</a>\
                </body></html>";
    let scraper = Scraper::new();
    let files = scraper
        .scrape_files(page, "http://e.com/a/", &None, &None)
        .unwrap();
    assert_eq!(files.len(), 2);
}

#[test]
fn accept_wins_over_reject() {
    assert_eq!(
        keep_file(&Some(String::from("zip")), &Some(String::from("zip")), "a.zip"),
        Ok(true)
    );
    assert_eq!(keep_file(&Some(String::from("zip")), &None, "a.txt"), Ok(false));
    assert_eq!(keep_file(&None, &Some(String::from("zip")), "a.zip"), Ok(false));
    assert_eq!(keep_file(&None, &None, "anything"), Ok(true));
}

#[test]
fn invalid_pattern_is_a_filter_error() {
    assert_eq!(
        keep_file(&Some(String::from("[")), &None, "a.zip"),
        Err(ScrapeError::FilterConfig)
    );
    let page = "<html><body><a href=\"song.mp3\">song.mp3</a></body></html>";
    let scraper = Scraper::new();
    let accept = Some(String::from("["));
    let err = scraper
        .scrape_files(page, "http://e.com/a/", &accept, &None)
        .unwrap_err();
    assert_eq!(err, ScrapeError::FilterConfig);
}

#[test]
fn malformed_base_is_a_url_error() {
    let page = "<html><body><a href=\"song.mp3\">song.mp3</a></body></html>";
    let scraper = Scraper::new();
    let err = scraper
        .scrape_files(page, "not a url", &None, &None)
        .unwrap_err();
    assert_eq!(err, ScrapeError::MalformedUrl);
    assert_eq!(err.message(), "URL cannot be parsed");
}

#[test]
fn generic_extraction_scenario() {
    let page = "<html><body>\
                <a href=\"..\">..</a>\
                <a href=\"sub/\">sub/</a>\
                <a href=\"file.txt\">file.txt</a>\
                <a href=\"?C=N;O=A\">Name</a>\
                </body></html>";
    let mut scraper = Scraper::new();
    assert_eq!(scraper.od_type, ODMethod::Generic);
    let dirs = scraper.scrape_dirs(page, "http://ex.com/a/", 0).unwrap();
    let dir_links: Vec<String> = dirs.iter().map(|d| d.link.clone()).collect();
    assert_eq!(dir_links, vec![String::from("http://ex.com/a/sub/")]);
    let files = scraper
        .scrape_files(page, "http://ex.com/a/", &None, &None)
        .unwrap();
    let file_links: Vec<String> = files.iter().map(|f| f.link.clone()).collect();
    assert_eq!(file_links, vec![String::from("http://ex.com/a/file.txt")]);
}

#[test]
fn absolute_file_links_keep_their_scheme() {
    assert_eq!(
        add_file_link("http://e.com/a/", "https://cdn.e.com//x//y.bin").as_deref(),
        Some("https://cdn.e.com/x/y.bin")
    );
    assert_eq!(
        add_file_link("http://e.com/a/", "y.bin").as_deref(),
        Some("http://e.com/a/y.bin")
    );
}

#[test]
fn single_file_root_short_circuits() {
    let (sess, first) = CrawlSession::start("http://e.com/song.mp3", 3, None, None);
    assert!(first.is_none());
    assert_eq!(sess.scraper.pages.len(), 1);
    assert_eq!(sess.scraper.pages[0].files.len(), 1);
    assert_eq!(sess.scraper.pages[0].files[0].link, "http://e.com/song.mp3");
}

#[test]
fn unrecognized_root_ends_cleanly() {
    let (mut sess, first) = CrawlSession::start("http://e.com/dir", 2, None, None);
    let first = first.unwrap();
    let body = "<html><body><noscript>x</noscript></body></html>";
    let recognized = sess.feed_root(&first, body, "").unwrap();
    assert!(!recognized);
    assert_eq!(sess.scraper.pages.len(), 0);
    assert_eq!(sess.scraper.od_type, ODMethod::Unknown);
}

#[test]
fn invalid_pattern_stops_the_session() {
    let (mut sess, first) =
        CrawlSession::start("http://e.com/dir", 2, Some(String::from("[")), None);
    let first = first.unwrap();
    let body = "<html><body><a href=\"song.mp3\">song.mp3</a></body></html>";
    let err = sess.feed_root(&first, body, "").unwrap_err();
    assert_eq!(err, ScrapeError::FilterConfig);
}

fn tree_body(url: &str) -> &'static str {
    match url {
        "http://t.com/" => {
            "<html><body><a href=\"a/\">a/</a><a href=\"b/\">b/</a>\
             <a href=\"r.bin\">r.bin</a></body></html>"
        },
        "http://t.com/a/" | "http://t.com/b/" => {
            "<html><body><a href=\"x/\">x/</a><a href=\"y/\">y/</a>\
             <a href=\"p.bin\">p.bin</a></body></html>"
        },
        _ => "<html><body><a href=\"q.bin\">q.bin</a></body></html>",
    }
}

#[test]
fn synthetic_tree_is_visited_once() {
    let (mut sess, first) = CrawlSession::start("http://t.com", 3, None, None);
    let first = first.unwrap();
    assert_eq!(first, "http://t.com/");
    let recognized = sess.feed_root(&first, tree_body(&first), "").unwrap();
    assert!(recognized);
    let mut fetched: Vec<String> = Vec::new();
    while let Some(next) = sess.next_url() {
        fetched.push(next.clone());
        sess.feed_page(&next, tree_body(&next)).unwrap();
    }
    // every directory within the depth bound is fetched exactly once
    let mut expected = vec![
        String::from("http://t.com/a/"),
        String::from("http://t.com/b/"),
        String::from("http://t.com/a/x/"),
        String::from("http://t.com/a/y/"),
        String::from("http://t.com/b/x/"),
        String::from("http://t.com/b/y/"),
    ];
    let mut got = fetched.clone();
    got.sort();
    expected.sort();
    assert_eq!(got, expected);
    for (i, u) in fetched.iter().enumerate() {
        for (j, v) in fetched.iter().enumerate() {
            if i != j {
                assert_ne!(u, v);
            }
        }
    }
    // the visited set holds each discovered directory once
    let mut visited = sess.scraper.dir_links.clone();
    visited.sort();
    assert_eq!(visited, expected);
    // one page of files per visited resource, root included
    assert_eq!(sess.scraper.pages.len(), 7);
}

#[test]
fn depth_bound_stops_traversal() {
    let (mut sess, first) = CrawlSession::start("http://t.com", 1, None, None);
    let first = first.unwrap();
    sess.feed_root(&first, tree_body(&first), "").unwrap();
    // the root's children sit at depth one, which the bound excludes
    assert!(sess.next_url().is_none());
    assert_eq!(sess.scraper.pages.len(), 1);
}
