use find_biggest_file::search_for_biggest_files;
use find_biggest_file::update_result;
use find_biggest_file::BiggestFileInFolderContainer;
use find_biggest_file::Config;
use find_biggest_file::FileEntry;
use find_biggest_file::NoFileFoundResult;
use find_biggest_file::SearchPatternType;
use find_biggest_file::SearchResult;

fn entry(path: &str, file_name: &str, extension: Option<&str>, parent: Option<&str>, size: u64) -> FileEntry {
    FileEntry {
        path: path.to_string(),
        file_name: file_name.to_string(),
        extension: extension.map(|e| e.to_string()),
        parent: parent.map(|p| p.to_string()),
        size,
    }
}

fn basic(name: &str) -> SearchPatternType {
    SearchPatternType::Basic(name.to_string())
}

fn in_folder(folder: &str, file_type: &str) -> SearchPatternType {
    SearchPatternType::BiggestFileInFolder(BiggestFileInFolderContainer {
        folder: folder.to_string(),
        file_type: file_type.to_string(),
    })
}

fn config(patterns: Vec<SearchPatternType>) -> Config {
    Config { search_patterns: patterns, root_folder: ".".to_string() }
}

#[test]
fn basic_pattern_reports_largest_across_folders() {
    let entries = vec![
        entry("a/example.txt", "example.txt", Some("txt"), Some("a"), 10),
        entry("b/example.txt", "example.txt", Some("txt"), Some("b"), 20),
    ];
    let lines = search_for_biggest_files(config(vec![basic("example.txt")]), &entries);
    assert_eq!(lines, vec!["File: b/example.txt; Size: 20 bytes".to_string()]);
}

#[test]
fn folder_pattern_ignores_larger_file_elsewhere() {
    let entries = vec![
        entry("Example/report.txt", "report.txt", Some("txt"), Some("Example"), 5),
        entry("Example/big.txt", "big.txt", Some("txt"), Some("Example"), 500),
        entry("Other/huge.txt", "huge.txt", Some("txt"), Some("Other"), 9000),
    ];
    let lines = search_for_biggest_files(config(vec![in_folder("Example", "txt")]), &entries);
    assert_eq!(lines, vec!["File: Example/big.txt; Size: 500 bytes".to_string()]);
}

#[test]
fn empty_root_reports_missing_file() {
    let entries: Vec<FileEntry> = Vec::new();
    let lines = search_for_biggest_files(config(vec![basic("missing.txt")]), &entries);
    assert_eq!(lines, vec!["No file found with the name: missing.txt!".to_string()]);
}

#[test]
fn no_match_among_many_files_keeps_message() {
    let entries = vec![
        entry("x/a.log", "a.log", Some("log"), Some("x"), 1),
        entry("x/b.log", "b.log", Some("log"), Some("x"), 2),
        entry("y/c.txt", "c.txt", Some("txt"), Some("y"), 3),
    ];
    let lines = search_for_biggest_files(config(vec![in_folder("Example", "txt")]), &entries);
    assert_eq!(
        lines,
        vec!["Inside the folder: Example, no file was found with extension: txt!".to_string()],
    );
}

#[test]
fn single_match_reports_exact_path_and_size() {
    let entries = vec![
        entry("docs/readme.md", "readme.md", Some("md"), Some("docs"), 77),
        entry("docs/other.txt", "other.txt", Some("txt"), Some("docs"), 9000),
    ];
    let lines = search_for_biggest_files(config(vec![basic("readme.md")]), &entries);
    assert_eq!(lines, vec!["File: docs/readme.md; Size: 77 bytes".to_string()]);
}

#[test]
fn tie_keeps_first_encountered_file() {
    let entries = vec![
        entry("a/same.txt", "same.txt", Some("txt"), Some("a"), 42),
        entry("b/same.txt", "same.txt", Some("txt"), Some("b"), 42),
    ];
    let lines = search_for_biggest_files(config(vec![basic("same.txt")]), &entries);
    assert_eq!(lines, vec!["File: a/same.txt; Size: 42 bytes".to_string()]);
}

#[test]
fn duplicate_patterns_collapse_to_one_line() {
    let entries = vec![entry("a/x.txt", "x.txt", Some("txt"), Some("a"), 1)];
    let patterns = vec![
        basic("x.txt"),
        in_folder("a", "txt"),
        basic("x.txt"),
        in_folder("a", "txt"),
        basic("x.txt"),
    ];
    let lines = search_for_biggest_files(config(patterns), &entries);
    assert_eq!(lines.len(), 2);
    assert_eq!(lines[0], "File: a/x.txt; Size: 1 bytes".to_string());
    assert_eq!(lines[1], "File: a/x.txt; Size: 1 bytes".to_string());
}

#[test]
fn rerun_on_unchanged_entries_is_identical() {
    let entries = vec![
        entry("a/one.txt", "one.txt", Some("txt"), Some("a"), 5),
        entry("a/two.txt", "two.txt", Some("txt"), Some("a"), 11),
        entry("b/one.txt", "one.txt", Some("txt"), Some("b"), 5),
    ];
    let patterns = || vec![basic("one.txt"), in_folder("a", "txt"), basic("zzz.bin")];
    let first = search_for_biggest_files(config(patterns()), &entries);
    let second = search_for_biggest_files(config(patterns()), &entries);
    assert_eq!(first, second);
}

#[test]
fn extensionless_file_never_matches_folder_pattern() {
    let entries = vec![entry("Example/Makefile", "Makefile", None, Some("Example"), 100)];
    let lines = search_for_biggest_files(config(vec![in_folder("Example", "txt")]), &entries);
    assert_eq!(
        lines,
        vec!["Inside the folder: Example, no file was found with extension: txt!".to_string()],
    );
}

#[test]
fn update_result_is_monotonic_with_strict_replacement() {
    let seed = SearchResult::NoFileFound(NoFileFoundResult::new(&basic("a.txt")));
    let first = update_result(&seed, &"x/a.txt".to_string(), 10);
    match &first {
        SearchResult::FileFound(f) => {
            assert_eq!(f.file, "x/a.txt");
            assert_eq!(f.size, 10);
        },
        SearchResult::NoFileFound(_) => panic!("first match must fill the slot"),
    }
    let equal = update_result(&first, &"y/a.txt".to_string(), 10);
    match &equal {
        SearchResult::FileFound(f) => assert_eq!(f.file, "x/a.txt"),
        SearchResult::NoFileFound(_) => panic!("slot must stay filled"),
    }
    let larger = update_result(&equal, &"z/a.txt".to_string(), 11);
    match &larger {
        SearchResult::FileFound(f) => {
            assert_eq!(f.file, "z/a.txt");
            assert_eq!(f.size, 11);
        },
        SearchResult::NoFileFound(_) => panic!("slot must stay filled"),
    }
}

#[test]
fn not_found_messages_name_the_pattern() {
    let b = NoFileFoundResult::new(&basic("report.pdf"));
    assert_eq!(b.message, "No file found with the name: report.pdf!");
    let f = NoFileFoundResult::new(&in_folder("Logs", "gz"));
    assert_eq!(f.message, "Inside the folder: Logs, no file was found with extension: gz!");
}

#[test]
fn decimal_rendering_is_exact() {
    assert_eq!(find_biggest_file::u64_to_decimal(0), "0");
    assert_eq!(find_biggest_file::u64_to_decimal(10), "10");
    assert_eq!(find_biggest_file::u64_to_decimal(90071), "90071");
    assert_eq!(find_biggest_file::u64_to_decimal(u64::MAX), "18446744073709551615");
}

#[test]
fn matching_requires_both_folder_and_extension() {
    let e = entry("Example/big.txt", "big.txt", Some("txt"), Some("Example"), 1);
    assert!(find_biggest_file::matches_entry(&in_folder("Example", "txt"), &e));
    assert!(!find_biggest_file::matches_entry(&in_folder("Example", "log"), &e));
    assert!(!find_biggest_file::matches_entry(&in_folder("Other", "txt"), &e));
    assert!(find_biggest_file::matches_entry(&basic("big.txt"), &e));
    assert!(!find_biggest_file::matches_entry(&basic("big"), &e));
}

#[test]
fn initial_results_follow_deduplicated_patterns() {
    let cfg = Config {
        search_patterns: vec![basic("a"), basic("b"), basic("a")],
        root_folder: "root/dir".to_string(),
    };
    let (seeds, distinct, root) = find_biggest_file::create_initial_search_result(cfg);
    assert_eq!(root, "root/dir");
    assert_eq!(distinct.len(), 2);
    assert!(find_biggest_file::pattern_eq(&distinct[0], &basic("a")));
    assert!(find_biggest_file::pattern_eq(&distinct[1], &basic("b")));
    assert_eq!(seeds.len(), 2);
    match &seeds[0] {
        SearchResult::NoFileFound(n) => assert_eq!(n.message, "No file found with the name: a!"),
        SearchResult::FileFound(_) => panic!("seed must be a not-found slot"),
    }
}
