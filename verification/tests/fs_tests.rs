use pocketdevos::fsops::{
    create_action, display_name, dotted, dotted_extension, extension_of_name, entry_less, fits_read_limit,
    format_time, name_less, sort_entries, text_or_empty, CreateAction, FsEntry,
};

fn entry(name: &str, dir: bool) -> FsEntry {
    FsEntry {
        name: name.to_string(),
        path: format!("/w/{}", name),
        is_directory: dir,
        is_file: !dir,
        is_symlink: false,
    }
}

fn names(v: &[FsEntry]) -> Vec<&str> {
    v.iter().map(|e| e.name.as_str()).collect()
}

#[test]
fn directories_first_then_by_name() {
    let v = vec![
        entry("b.txt", false),
        entry("src", true),
        entry("A.md", false),
        entry(".git", true),
        entry("a.txt", false),
        entry("docs", true),
    ];
    let r = sort_entries(v);
    assert_eq!(names(&r), vec![".git", "docs", "src", "A.md", "a.txt", "b.txt"]);
}

#[test]
fn sort_matches_std_sort_by() {
    let raw = [("\u{e9}t\u{e9}", false), ("zeta", true), ("eta", false), ("Zeta", true), ("", false), ("et", false)];
    let mut expect: Vec<FsEntry> = raw.iter().map(|(n, d)| entry(n, *d)).collect();
    expect.sort_by(|a, b| match (a.is_directory, b.is_directory) {
        (true, false) => std::cmp::Ordering::Less,
        (false, true) => std::cmp::Ordering::Greater,
        _ => a.name.cmp(&b.name),
    });
    let got = sort_entries(raw.iter().map(|(n, d)| entry(n, *d)).collect());
    assert_eq!(names(&got), names(&expect));
}

#[test]
fn sort_keeps_equal_entries_in_order() {
    let mut a = entry("same", false);
    a.path = "/first".to_string();
    let mut b = entry("same", false);
    b.path = "/second".to_string();
    let r = sort_entries(vec![a, entry("aaa", false), b]);
    let paths: Vec<&str> = r.iter().map(|e| e.path.as_str()).collect();
    assert_eq!(paths, vec!["/w/aaa", "/first", "/second"]);
    assert!(sort_entries(vec![]).is_empty());
}

#[test]
fn comparisons() {
    assert!(name_less("a", "b"));
    assert!(name_less("a", "ab"));
    assert!(!name_less("ab", "a"));
    assert!(!name_less("x", "x"));
    assert!(name_less("Z", "a"));
    assert!(entry_less(&entry("z", true), &entry("a", false)));
    assert!(!entry_less(&entry("a", false), &entry("z", true)));
    assert!(entry_less(&entry("a", false), &entry("b", false)));
}

#[test]
fn read_limit() {
    assert!(fits_read_limit(5 * 1024 * 1024));
    assert!(!fits_read_limit(5 * 1024 * 1024 + 1));
    assert!(fits_read_limit(0));
}

#[test]
fn names_and_extensions() {
    assert_eq!(display_name("/home/u/main.rs"), "main.rs");
    assert_eq!(display_name("/home/u/dir/"), "dir");
    assert_eq!(display_name("/"), "");
    assert_eq!(dotted_extension("/home/u/main.rs"), ".rs");
    assert_eq!(dotted_extension("/home/u/archive.tar.gz"), ".gz");
    assert_eq!(dotted_extension("/home/u/Makefile"), ".");
    assert_eq!(dotted_extension("/home/u/.bashrc"), ".");
    assert_eq!(dotted(Some("md".to_string())), ".md");
    assert_eq!(dotted(None), ".");
    assert_eq!(text_or_empty(None), "");
}

#[test]
fn file_times() {
    assert_eq!(format_time(Some(0)), "1970-01-01T00:00:00+00:00");
    assert_eq!(format_time(Some(1_700_000_000)), "2023-11-14T22:13:20+00:00");
    assert_eq!(format_time(None), "");
    // Seconds read as a signed number, as the stat endpoint reads them.
    assert_eq!(format_time(Some(u64::MAX)), "1969-12-31T23:59:59+00:00");
}

#[test]
fn create_requests() {
    assert!(matches!(create_action("directory", Some("x".to_string())), CreateAction::Directory));
    match create_action("file", Some("hello".to_string())) {
        CreateAction::File(c) => assert_eq!(c, "hello"),
        _ => panic!("expected a file"),
    }
    match create_action("Directory", None) {
        CreateAction::File(c) => assert_eq!(c, ""),
        _ => panic!("expected a file"),
    }
}

#[test]
fn extensions_of_names() {
    for n in ["main.rs", "archive.tar.gz", "Makefile", ".bashrc", ".config.json", "a.", ""] {
        let expect = std::path::Path::new(n).extension().map(|e| e.to_string_lossy().into_owned());
        assert_eq!(extension_of_name(n), expect, "{}", n);
    }
    assert_eq!(extension_of_name("x.tar.gz"), Some("gz".to_string()));
    assert_eq!(dotted_extension("/home/u/.config.json"), ".json");
}
