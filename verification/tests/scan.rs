use block_ldnoobw::errors::{FetchError, GlobConfigError, SetupError};
use block_ldnoobw::globs::ExclusionSet;
use block_ldnoobw::scanner::{FileEntry, ScanOutcome};
use block_ldnoobw::setup;
use block_ldnoobw::source::{check_status, word_list_url};

fn entry(path: &str, content: &str) -> FileEntry {
    FileEntry {
        path: path.to_string(),
        content: Some(content.as_bytes().to_vec()),
    }
}

fn unreadable(path: &str) -> FileEntry {
    FileEntry {
        path: path.to_string(),
        content: None,
    }
}

#[test]
fn word_list_url_appends_language() {
    let url = word_list_url("en");
    assert!(url.ends_with("/en"));
    assert!(url.starts_with("https://"));
}

#[test]
fn only_status_200_is_accepted() {
    assert!(check_status(200).is_ok());
    assert_eq!(check_status(404), Err(FetchError::BadStatus(404)));
    assert_eq!(check_status(301), Err(FetchError::BadStatus(301)));
}

#[test]
fn fetch_failure_scans_nothing() {
    let excludes: Vec<String> = Vec::new();
    let r = setup(404, b"badword\nanother\n", &excludes);
    match r {
        Err(SetupError::Fetch(FetchError::BadStatus(404))) => {}
        _ => panic!("a non-200 status must be a fatal fetch error"),
    }
}

#[test]
fn empty_fetched_list_is_fatal() {
    let excludes: Vec<String> = Vec::new();
    let r = setup(200, b"\n \n", &excludes);
    assert!(matches!(r, Err(SetupError::Pattern(_))));
}

#[test]
fn bad_exclude_glob_is_fatal() {
    let excludes = vec!["ok/**".to_string(), "[".to_string()];
    let r = setup(200, b"badword\n", &excludes);
    match r {
        Err(SetupError::Glob(GlobConfigError { index })) => assert_eq!(index, 1),
        _ => panic!("an invalid exclusion glob must be fatal"),
    }
}

#[test]
fn empty_exclude_glob_is_fatal() {
    let excludes = vec!["".to_string()];
    let r = setup(200, b"badword\n", &excludes);
    match r {
        Err(SetupError::Glob(GlobConfigError { index })) => assert_eq!(index, 0),
        _ => panic!("an empty exclusion glob must be fatal"),
    }
}

#[test]
fn finds_bad_word_with_location() {
    let excludes: Vec<String> = Vec::new();
    let scanner = setup(200, b"badword\nanother\n", &excludes).unwrap();
    let files = vec![
        entry("ok.txt", "nothing here"),
        entry("bad.txt", "this has a badword inside"),
    ];
    match scanner.run(&files) {
        ScanOutcome::Found(f) => {
            assert_eq!(f.file, "bad.txt".to_string());
            assert_eq!(f.word, "badword".to_string());
            assert_eq!((f.start, f.end), (11, 18));
        }
        ScanOutcome::Clean => panic!("the bad word must be found"),
    }
}

#[test]
fn clean_tree_scans_clean() {
    let excludes: Vec<String> = Vec::new();
    let scanner = setup(200, b"badword\nanother\n", &excludes).unwrap();
    let files = vec![entry("clean.txt", "totally fine text")];
    assert!(matches!(scanner.run(&files), ScanOutcome::Clean));
}

#[test]
fn first_match_wins_in_enumeration_order() {
    let excludes: Vec<String> = Vec::new();
    let scanner = setup(200, b"badword\n", &excludes).unwrap();
    let files = vec![
        entry("first.txt", "nothing"),
        entry("second.txt", "a badword"),
        entry("third.txt", "badword too"),
    ];
    match scanner.run(&files) {
        ScanOutcome::Found(f) => assert_eq!(f.file, "second.txt".to_string()),
        ScanOutcome::Clean => panic!("the bad word must be found"),
    }
}

#[test]
fn unreadable_file_does_not_abort_scan() {
    let excludes: Vec<String> = Vec::new();
    let scanner = setup(200, b"badword\n", &excludes).unwrap();
    let clean = vec![
        entry("a.txt", "fine"),
        unreadable("locked.txt"),
        entry("b.txt", "also fine"),
    ];
    assert!(matches!(scanner.run(&clean), ScanOutcome::Clean));

    let dirty = vec![
        entry("a.txt", "fine"),
        unreadable("locked.txt"),
        entry("b.txt", "a badword"),
    ];
    match scanner.run(&dirty) {
        ScanOutcome::Found(f) => assert_eq!(f.file, "b.txt".to_string()),
        ScanOutcome::Clean => panic!("the scan must continue past an unreadable file"),
    }
}

#[test]
fn excluded_file_is_never_scanned() {
    let excludes = vec!["*.log".to_string()];
    let scanner = setup(200, b"badword\n", &excludes).unwrap();
    assert!(scanner.is_excluded("trace.log"));
    assert!(!scanner.is_excluded("notes.txt"));

    // The excluded file holds a match, yet the run is clean.
    let files = vec![entry("trace.log", "a badword"), entry("notes.txt", "fine")];
    assert!(matches!(scanner.run(&files), ScanOutcome::Clean));
}

#[test]
fn exclusion_needs_only_one_matching_pattern() {
    let patterns = vec!["keep/**".to_string(), "*.tmp".to_string()];
    let set = ExclusionSet::build(&patterns).unwrap();
    assert!(set.is_excluded("scratch.tmp"));
    assert!(set.is_excluded("keep/file.txt"));
    assert!(!set.is_excluded("other.txt"));
}

#[test]
fn examine_reports_byte_range_of_match() {
    let excludes: Vec<String> = Vec::new();
    let scanner = setup(200, b"badword\n", &excludes).unwrap();
    let found = scanner
        .examine("bad.txt", Some(b"this has a badword inside"))
        .unwrap();
    assert_eq!(found.file, "bad.txt".to_string());
    assert_eq!(found.word, "badword".to_string());
    assert_eq!((found.start, found.end), (11, 18));

    assert!(scanner.examine("ok.txt", Some(b"nothing here")).is_none());
    assert!(scanner.examine("gone.txt", None).is_none());
}

#[test]
fn invalid_encoding_is_decoded_lossily() {
    let excludes: Vec<String> = Vec::new();
    let scanner = setup(200, b"badword\n", &excludes).unwrap();
    // Invalid UTF-8 before and after the word must not crash the scan.
    let mut bytes = vec![0xff_u8, 0xfe];
    bytes.extend_from_slice(b" badword ");
    bytes.push(0xff);
    let found = scanner.examine("odd.bin", Some(&bytes)).unwrap();
    assert_eq!(found.word, "badword".to_string());
}

#[test]
fn scan_is_repeatable() {
    let excludes: Vec<String> = Vec::new();
    let scanner = setup(200, b"badword\nanother\n", &excludes).unwrap();
    let files = vec![
        entry("ok.txt", "nothing here"),
        entry("bad.txt", "this has a badword inside"),
    ];
    let first = scanner.run(&files);
    let second = scanner.run(&files);
    match (first, second) {
        (ScanOutcome::Found(a), ScanOutcome::Found(b)) => {
            assert_eq!((a.file, a.start, a.end, a.word), (b.file, b.start, b.end, b.word));
        }
        _ => panic!("two runs over the same tree must agree"),
    }
}
