use block_ldnoobw::errors::PatternBuildError;
use block_ldnoobw::pattern::{build_pattern_text, BadWordPattern};

#[test]
fn pattern_text_joins_words_with_boundaries() {
    let words = vec!["bad".to_string(), "word".to_string()];
    let text = build_pattern_text(&words);
    assert_eq!(text, "(\\bbad\\b|\\bword\\b)");
}

#[test]
fn pattern_text_single_word() {
    let words = vec!["bad".to_string()];
    assert_eq!(build_pattern_text(&words), "(\\bbad\\b)");
}

#[test]
fn pattern_text_escapes_meta_characters() {
    let words = vec!["a.b".to_string()];
    assert_eq!(build_pattern_text(&words), "(\\ba\\.b\\b)");
}

#[test]
fn empty_word_list_is_refused() {
    let words: Vec<String> = Vec::new();
    match BadWordPattern::build(&words) {
        Err(PatternBuildError::EmptyWordList) => {}
        _ => panic!("an empty word list must be refused"),
    }
}

#[test]
fn matches_word_as_standalone_token() {
    let words = vec!["bad".to_string()];
    let pattern = BadWordPattern::build(&words).unwrap();
    let m = pattern.find_first("this is bad").unwrap();
    assert_eq!(m.2, "bad".to_string());
    assert_eq!((m.0, m.1), (8, 11));
}

#[test]
fn does_not_match_word_inside_larger_token() {
    let words = vec!["bad".to_string()];
    let pattern = BadWordPattern::build(&words).unwrap();
    assert!(pattern.find_first("badger").is_none());
    assert!(pattern.find_first("a badword here").is_none());
    assert!(pattern.find_first("sinbad stories").is_none());
}

#[test]
fn matches_every_listed_word() {
    let words = vec!["bad".to_string(), "worse".to_string()];
    let pattern = BadWordPattern::build(&words).unwrap();
    assert!(pattern.find_first("bad").is_some());
    assert!(pattern.find_first("it got worse today").is_some());
    assert!(pattern.find_first("fine text").is_none());
}

#[test]
fn escaped_word_matches_only_literally() {
    let words = vec!["a.b".to_string()];
    let pattern = BadWordPattern::build(&words).unwrap();
    assert!(pattern.find_first("see a.b here").is_some());
    // Unescaped, '.' would also match "axb".
    assert!(pattern.find_first("see axb here").is_none());
}

#[test]
fn reports_first_match_in_text() {
    let words = vec!["x".to_string(), "y".to_string()];
    let pattern = BadWordPattern::build(&words).unwrap();
    let m = pattern.find_first("a y then x").unwrap();
    assert_eq!(m.2, "y".to_string());
    assert_eq!((m.0, m.1), (2, 3));
}
