use zeiver::compat::{correct_os_path, has_non_unix_separators, has_non_windows_separators,
    is_windows};

fn is_corrected_path(path: &str, correct: &str) {
    let windows = is_windows();
    let guess = correct_os_path(path);
    let is_windows_problem = correct.contains(r"\");
    if (is_windows_problem && windows) || (!is_windows_problem && !windows) || guess == correct {
        assert_eq!(guess, correct);
    } else {
        assert_ne!(correct_os_path(path), correct);
    }
}

#[test]
fn path_correction() {
    is_corrected_path(r"/etc/passwd", r"/etc/passwd");
    is_corrected_path(r"passwd", r"passwd");
    is_corrected_path(r"etc\passwd", r"etc/passwd");
    is_corrected_path(r"/etc/passwd///////", r"/etc/passwd/");
    is_corrected_path(r".\etc\passwd", r"./etc/passwd");
    is_corrected_path(r"./etc\passwd", r"./etc/passwd");
    is_corrected_path(
        r"C:\Users\Person\Documents\Zeiver\scraper\cat\bonjour.jpg",
        r"C:\Users\Person\Documents\Zeiver\scraper\cat\bonjour.jpg",
    );
    is_corrected_path(
        r"C:\\Users\Person\Documents\Zeiver\scraper\cat\bonjour.jpg",
        r"C:\Users\Person\Documents\Zeiver\scraper\cat\bonjour.jpg",
    );
    is_corrected_path(
        r"C:\Users\Person\Documents\Zeiver\scraper\cat/bonjour.jpg",
        r"C:\Users\Person\Documents\Zeiver\scraper\cat\bonjour.jpg",
    );
    is_corrected_path(
        r"C:\\Users\\Person\Documents\\Zeiver\\scraper\\cat\\bonjour.jpg",
        r"C:\Users\Person\Documents\Zeiver\scraper\cat\bonjour.jpg",
    );
    is_corrected_path(
        r"C:\Users\Person\Documents\Zeiver\\\\\\\\\\\scraper\\cat\\bonjour.jpg",
        r"C:\Users\Person\Documents\Zeiver\scraper\cat\bonjour.jpg",
    );
    is_corrected_path(
        r"./Users/Person/Documents/Zeiver/scraper/cat/bonjour.jpg",
        r"./Users/Person/Documents/Zeiver/scraper/cat/bonjour.jpg",
    );
}

#[test]
fn is_unix_path_regex() {
    assert_eq!(has_non_unix_separators(r"/etc/passwd"), false);
    assert_eq!(has_non_unix_separators(r"./etc/passwd"), false);
    assert_eq!(has_non_unix_separators(r"/passwd"), false);
    assert_eq!(has_non_unix_separators(r"passwd"), false);
    assert_eq!(has_non_unix_separators(r"passwd/"), false);
    assert_eq!(has_non_unix_separators(r"/etc/passwd/"), false);
}

#[test]
fn not_unix_path_regex() {
    assert_eq!(
        has_non_unix_separators(r"C:\Users\Person\Documents\Zeiver\scraper\cat\bonjour.jpg"),
        true
    );
    assert_eq!(has_non_unix_separators(r"etc\passwd"), true);
    assert_eq!(has_non_unix_separators(r"\etc\passwd"), true);
    assert_eq!(has_non_unix_separators(r"passwd\"), true);
    assert_eq!(has_non_unix_separators(r"/etc//passwd/"), true);
    assert_eq!(has_non_unix_separators(r"/etc/passwd///////"), true);
    assert_eq!(has_non_unix_separators(r"/etc\passwd"), true);
    assert_eq!(has_non_unix_separators(r".\etc\passwd"), true);
    assert_eq!(has_non_unix_separators(r"./etc\passwd"), true);
}

#[test]
fn is_windows_path_regex() {
    assert_eq!(
        has_non_windows_separators(r"C:\Users\Person\Documents\Zeiver\scraper\cat\bonjour.jpg"),
        false
    );
    assert_eq!(has_non_windows_separators(r"passwd"), false);
}

#[test]
fn not_windows_path_regex() {
    assert_eq!(has_non_windows_separators(r"/etc/passwd"), true);
    assert_eq!(has_non_windows_separators(r"./etc/passwd"), true);
    assert_eq!(has_non_windows_separators(r"/passwd"), true);
    assert_eq!(has_non_windows_separators(r"passwd/"), true);
    assert_eq!(has_non_windows_separators(r"/etc/passwd/"), true);
    assert_eq!(has_non_windows_separators(r"/etc/passwd/"), true);
    assert_eq!(
        has_non_windows_separators(r"C:\\Users\Person\Documents\Zeiver\scraper\cat\bonjour.jpg"),
        true
    );
    assert_eq!(
        has_non_windows_separators(r"C:\Users\Person\Documents\Zeiver\scraper\cat/bonjour.jpg"),
        true
    );
    assert_eq!(
        has_non_windows_separators(r"C:\\Users\\Person\Documents\\Zeiver\\scraper\\cat\\bonjour.jpg"),
        true
    );
    assert_eq!(
        has_non_windows_separators(
            r"C:\Users\Person\Documents\Zeiver\\\\\\\\\\\scraper\\cat\\bonjour.jpg",
        ),
        true
    );

    assert_eq!(
        has_non_windows_separators(r"./Users/Person/Documents/Zeiver/scraper/cat/bonjour.jpg"),
        true
    );
}
