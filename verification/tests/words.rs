use block_ldnoobw::words::parse_word_list;

#[test]
fn splits_lines_into_words() {
    let words = parse_word_list("badword\nanother\n");
    assert_eq!(words, vec!["badword".to_string(), "another".to_string()]);
}

#[test]
fn trims_whitespace_around_words() {
    let words = parse_word_list("  spaced \t\nplain\r\n");
    assert_eq!(words, vec!["spaced".to_string(), "plain".to_string()]);
}

#[test]
fn trims_unicode_whitespace() {
    let words = parse_word_list("word\u{00A0}\n\u{3000}next\u{2009} \n\u{00A0}\u{2028}\n");
    assert_eq!(words, vec!["word".to_string(), "next".to_string()]);
}

#[test]
fn drops_empty_lines() {
    let words = parse_word_list("\n\nfirst\n\n  \nsecond\n\n");
    assert_eq!(words, vec!["first".to_string(), "second".to_string()]);
}

#[test]
fn empty_text_gives_no_words() {
    assert_eq!(parse_word_list(""), Vec::<String>::new());
    assert_eq!(parse_word_list(" \n \n"), Vec::<String>::new());
}

#[test]
fn no_trailing_newline_keeps_last_word() {
    let words = parse_word_list("one\ntwo");
    assert_eq!(words, vec!["one".to_string(), "two".to_string()]);
}

#[test]
fn keeps_word_list_order() {
    let words = parse_word_list("zeta\nalpha\nmid\n");
    assert_eq!(
        words,
        vec!["zeta".to_string(), "alpha".to_string(), "mid".to_string()]
    );
}
