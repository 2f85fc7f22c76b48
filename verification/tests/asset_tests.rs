use zeiver::asset::{cut_name, decode_entities, has_file_ext_path, part_of_name, File, Stat};
use zeiver::download::{cut_dir, file_path_join};
use zeiver::record::{file_properties, record_lines};
use zeiver::asset::Page;
use zeiver::compat::is_windows;

fn file_regex_pass(x: &str) {
    assert_eq!(has_file_ext_path(x), true);
}

fn file_regex_fail(x: &str) {
    assert_ne!(has_file_ext_path(x), true);
}

#[test]
fn file_test() {
    file_regex_pass(
        "https://api.example.com\
        .com/Best%20Song%20Contest%202013/Ach%20nein,%20es%20ist%20M%fcll%20-%20Deponia%20Original-Soundtrack.mp3",
    );

    file_regex_pass(
        "https://api.example.com/Best%20Song%20Contest%202013/Ach%20nein,\
        %20es%20ist%20M%fcll%20-%20Deponia%20Original-Soundtrack.mp3/",
    );

    file_regex_pass("https://api.example.com/Best%20Song%20Contest%202013/Adder's%20Lair%20%5bWilderness%20~%20Turtle%20Village%201%20-%20Golden%20Axe%5d%20-%20Sonic%20&%20All-Stars%20Racing%20Transformed%20-%20Original%20Sound%20Version.mp3");

    file_regex_pass(
        "https://api.example.com/Best%20Song%20Contest%202013/Soundtrack%20%23002%20\
        -%20Heaven%20Variant.mp3",
    );

    file_regex_fail(
        "https://api.example.com/Best%20Song%20Contest%202013/Soundtrack%20%23002%20\
        -%20Heaven%20Variant",
    );

    file_regex_fail(
        "https://api.example.com/Best%20Song%20Contest%202013/Soundtrack%20%23002%20\
        -%20Heaven%20Variant/",
    );

    file_regex_fail("https://api.example.com/Best%20Song%20Contest%202013/");
    file_regex_fail("https://api.example.com/Best%20Song%20Contest%202013");
    file_regex_pass("https://api.example.com/Best%20Song%20Contest%202013.7z");
}

#[test]
fn file_fields_from_url() {
    let f = File::new("http://e.com/music/My%20Song.mp3");
    assert_eq!(f.link, "http://e.com/music/My%20Song.mp3");
    assert_eq!(f.name, "My Song.mp3");
    assert_eq!(f.short_name.as_deref(), Some("My Song"));
    assert_eq!(f.ext.as_deref(), Some("mp3"));
    assert_eq!(f.dir_path, "/music/");
}

#[test]
fn file_without_name_is_untitled() {
    let f = File::new("http://e.com/");
    assert_eq!(f.name, "untitled");
    assert_eq!(f.ext, None);
}

#[test]
fn file_equality_is_by_link() {
    let a = File::new("http://e.com/a.bin");
    let mut b = File::new("http://e.com/a.bin");
    b.name = String::from("other");
    assert!(a == b);
    let c = File::new("http://e.com/c.bin");
    assert!(a != c);
}

#[test]
fn name_parts_split_on_dots() {
    assert_eq!(part_of_name("Example.7z.001", true).as_deref(), Some("001"));
    assert_eq!(part_of_name("Example.7z.001", false).as_deref(), Some("7z"));
    assert_eq!(part_of_name("Example.mp3", false).as_deref(), Some("Example"));
    assert_eq!(part_of_name("Example", true), None);
}

#[test]
fn long_names_are_cut() {
    let long: String = "a".repeat(200);
    assert_eq!(cut_name(&long).len(), 160);
    assert_eq!(File::cut_name("short.mp3"), "short.mp3");
}

#[test]
fn decoding_reads_percent_escapes() {
    assert_eq!(decode_entities("a%20b"), "a b");
    assert_eq!(decode_entities("plain"), "plain");
}

#[test]
fn json_record_name() {
    let f = File::new("http://e.com/song.mp3");
    assert_eq!(f.to_json(), "song.json");
}

#[test]
fn stats_tally_extensions() {
    let mut stat = Stat::new();
    stat.add_extension(String::from("mp3"));
    stat.add_extension(String::from("mp3"));
    stat.add_extension(String::from("jpg"));
    assert_eq!(stat.total_files, 3);
    assert_eq!(stat.extension_count("mp3"), 2);
    assert_eq!(stat.extension_count("jpg"), 1);
    assert_eq!(stat.extension_count("zip"), 0);
    stat.add_file(String::from("b.mp3"));
    stat.add_file(String::from("a.mp3"));
    stat.sort_files();
    assert_eq!(stat.file_names, vec![String::from("a.mp3"), String::from("b.mp3")]);
}

#[test]
fn record_file_names() {
    let (stats_name, record_name) = file_properties("URL_Records.txt", 2);
    assert_eq!(stats_name, "URL_Records.json");
    assert_eq!(record_name, "2_URL_Records.txt");
}

#[test]
fn record_lines_follow_visitation_order() {
    let pages = vec![
        Page::new(vec![File::new("http://e.com/a.bin"), File::new("http://e.com/b.bin")]),
        Page::new(vec![File::new("http://e.com/c.bin")]),
    ];
    let lines = record_lines(&pages, "\n");
    assert_eq!(
        lines,
        vec![
            String::from("http://e.com/a.bin\n"),
            String::from("http://e.com/b.bin\n"),
            String::from("http://e.com/c.bin\n"),
        ]
    );
}

#[test]
fn leading_directories_are_cut() {
    let f = File::new("http://www.example.org/pub/xempcs/other/pics/cat.jpg");
    assert_eq!(f.dir_path, "/pub/xempcs/other/pics/");
    assert_eq!(cut_dir(&f, 0), "/pub/xempcs/other/pics/");
    assert_eq!(cut_dir(&f, 2), "/other/pics/");
}

#[test]
fn save_path_gets_separator_when_needed() {
    let f = File::new("http://e.com/cat.jpg");
    let joined = file_path_join(&f, "./downloads");
    if is_windows() {
        assert_eq!(joined, "./downloads\\cat.jpg");
    } else {
        assert_eq!(joined, "./downloads/cat.jpg");
    }
    let f2 = File::new("http://e.com/cat.jpg");
    let joined2 = file_path_join(&f2, "downloads/");
    if is_windows() {
        assert_eq!(joined2, "downloads\\cat.jpg");
    } else {
        assert_eq!(joined2, "downloads/cat.jpg");
    }
}
