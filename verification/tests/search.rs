use chat_to_chat::paths::AllowedPath;
use chat_to_chat::search::{lines_of, search_root, FileCollector, FileSearch, GrepSearch, MAX_GREP_FILES};

fn dir(p: &str) -> AllowedPath {
    AllowedPath { path: p.to_string(), is_file: false }
}

fn lines(s: &str) -> Vec<String> {
    let chars: Vec<char> = s.chars().collect();
    lines_of(&chars)
}

#[test]
fn lines_follow_str_lines() {
    assert_eq!(lines(""), Vec::<String>::new());
    assert_eq!(lines("a\r\nb\rc\n\n"), vec!["a", "b\rc", ""]);
    assert_eq!(lines("x\ny\r"), vec!["x", "y\r"]);
    let sample = "one\r\ntwo\n\nthree\r";
    assert_eq!(lines(sample), sample.lines().collect::<Vec<_>>());
}

#[test]
fn search_starts_at_the_directory_of_a_file() {
    assert_eq!(search_root("/r/a.txt".into(), true), Ok("/r".to_string()));
    assert_eq!(search_root("/r".into(), false), Ok("/r".to_string()));
    assert_eq!(search_root("/".into(), true), Err("文件没有父目录: /".to_string()));
}

#[test]
fn file_search_matches_names_in_any_case() {
    let mut s = FileSearch::new("/r".into(), "ReadMe", vec![dir("/r")]);
    assert_eq!(s.query, "readme");
    assert_eq!(s.next_dir(), Some("/r".to_string()));
    s.visit("README.md".into(), false);
    s.visit("node_modules".into(), true);
    s.visit("docs".into(), true);
    s.visit("other.txt".into(), false);
    assert_eq!(s.hits, vec!["/r/README.md".to_string()]);
    assert_eq!(s.next_dir(), Some("/r/docs".to_string()));
    s.visit("readme-2.txt".into(), false);
    assert_eq!(s.next_dir(), None);
    assert_eq!(s.report(), "/r/README.md\n/r/docs/readme-2.txt");
}

#[test]
fn file_search_reports_nothing_found() {
    let mut s = FileSearch::new("/r".into(), "zzz", vec![dir("/r")]);
    s.next_dir();
    s.visit("a".into(), false);
    assert_eq!(s.report(), "没有找到匹配文件。");
}

#[test]
fn file_search_stops_entering_directories_after_enough_hits() {
    let mut s = FileSearch::new("/r".into(), "a", vec![dir("/r")]);
    s.next_dir();
    for i in 0..200 {
        s.visit(format!("a{i}"), true);
    }
    assert_eq!(s.hits.len(), 200);
    assert_eq!(s.next_dir(), None);
}

#[test]
fn grep_reports_numbered_matching_lines() {
    let mut g = GrepSearch::new("foo".into());
    g.grep_file("a.txt", b"x\r\nfoo bar\nno\nfoo");
    assert_eq!(g.report(), "a.txt:2: foo bar\na.txt:4: foo");
}

#[test]
fn grep_skips_large_and_binary_files() {
    let mut g = GrepSearch::new("foo".into());
    let mut big = b"foo\n".to_vec();
    big.resize(524_289, b'a');
    g.grep_file("big", &big);
    g.grep_file("bin", b"\x00\x01\x02\x03foo");
    assert_eq!(g.report(), "没有找到匹配文本。");
    let mut fits = b"foo\n".to_vec();
    fits.resize(524_288, b'a');
    g.grep_file("fits", &fits);
    assert_eq!(g.report(), "fits:1: foo");
}

#[test]
fn grep_stops_at_eighty_hits() {
    let mut g = GrepSearch::new("x".into());
    let text = "x\n".repeat(100);
    g.grep_file("f", text.as_bytes());
    assert!(g.is_full());
    assert_eq!(g.hits.len(), 80);
    assert_eq!(g.hits[79], "f:80: x");
    g.grep_file("g", b"x");
    assert_eq!(g.hits.len(), 80);
}

#[test]
fn grep_reads_invalid_utf8_lossily() {
    let mut g = GrepSearch::new("ok".into());
    g.grep_file("f", b"\xffok");
    assert_eq!(g.report(), "f:1: \u{fffd}ok");
}

#[test]
fn collector_stops_at_its_limit_and_skips_names() {
    let mut c = FileCollector::new(2);
    assert!(c.may_enter("/r"));
    assert!(!c.may_enter("/r/.git"));
    c.add_file("/r/a".into());
    c.add_file("/r/b".into());
    c.add_file("/r/c".into());
    assert_eq!(c.files, vec!["/r/a".to_string(), "/r/b".to_string()]);
    assert!(c.is_full());
    assert!(!c.may_enter("/r/d"));
    assert_eq!(MAX_GREP_FILES, 500);
}

#[test]
fn file_search_from_an_authorised_file_lists_only_authorised_paths() {
    let allowed = vec![AllowedPath { path: "/r/notes.txt".to_string(), is_file: true }];
    let root = search_root("/r/notes.txt".into(), true).unwrap();
    let mut s = FileSearch::new(root, "notes", allowed);
    assert_eq!(s.next_dir(), Some("/r".to_string()));
    s.visit("notes.txt".into(), false);
    s.visit("notes-secret.txt".into(), false);
    s.visit("notes_dir".into(), true);
    assert_eq!(s.report(), "/r/notes.txt");
    assert_eq!(s.next_dir(), Some("/r/notes_dir".to_string()));
    s.visit("notes.md".into(), false);
    assert_eq!(s.report(), "/r/notes.txt");
}

#[test]
fn file_search_ignores_entries_before_a_directory_is_read() {
    let mut s = FileSearch::new("/r".into(), "a", vec![dir("/r")]);
    s.visit("a.txt".into(), false);
    assert!(s.hits.is_empty());
    assert_eq!(s.pending, vec!["/r".to_string()]);
    assert!(s.current.is_none());
}

#[test]
fn file_search_never_enters_skipped_directories() {
    let mut s = FileSearch::new("/r".into(), "x", vec![dir("/r")]);
    s.next_dir();
    s.visit("target".into(), true);
    s.visit("x-src".into(), true);
    assert_eq!(s.pending, vec!["/r/x-src".to_string()]);
    assert_eq!(s.next_dir(), Some("/r/x-src".to_string()));
    s.visit("x.rs".into(), false);
    assert_eq!(s.report(), "/r/x-src\n/r/x-src/x.rs");
}
