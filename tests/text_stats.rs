use ownership_store::text_stats::{analyze, StatsError};

#[test]
fn empty_input_returns_errors() {
    let result = analyze("");
    assert!(result.is_err());
}

#[test]
fn two_lines() {
    let result = analyze("line1\nline2").unwrap();
    assert_eq!(2, result.lines);
}

#[test]
fn three_words() {
    let result = analyze("word1 word2 word3").unwrap();
    assert_eq!(3, result.words);
}

#[test]
fn five_chars() {
    let result = analyze("12345").unwrap();
    assert_eq!(5, result.chars);
}

#[test]
fn non_empty_lines() {
    let result = analyze("line1\n \nline2").unwrap();
    assert_eq!(2, result.non_empty_lines);
}

#[test]
fn top_words() {
    let result = analyze("line1\n \nline1").unwrap();
    assert_eq!("line1", result.top_word.unwrap());
}

#[test]
fn hello_word() {
    let result = analyze("Привет мир").unwrap();
    assert_eq!(1, result.lines);
    assert_eq!(2, result.words);
    assert_eq!(10, result.chars);
    assert_eq!(1, result.non_empty_lines);

    assert!(matches!(
        result.top_word.as_deref(),
        Some("привет") | Some("мир")
    ));
}

#[test]
fn hello2_word() {
    let result = analyze("Hello, hello! HELLO, word").unwrap();
    assert_eq!(1, result.lines);
    assert_eq!(4, result.words);
    assert_eq!(25, result.chars);
    assert_eq!(1, result.non_empty_lines);
    assert_eq!("hello", result.top_word.unwrap());
}

#[test]
fn empty_input_is_the_empty_input_error() {
    assert!(matches!(analyze(""), Err(StatsError::EmptyInput)));
}

#[test]
fn non_ascii_words_are_lower_cased_before_counting() {
    let result = analyze("ПРИВЕТ мир Привет").unwrap();
    assert_eq!("привет", result.top_word.unwrap());
}

#[test]
fn punctuation_only_words_are_not_counted() {
    let result = analyze("... !? ;").unwrap();
    assert_eq!(3, result.words);
    assert!(result.top_word.is_none());
}

#[test]
fn trailing_newline_counts_an_extra_line() {
    let result = analyze("a\nb\n").unwrap();
    assert_eq!(3, result.lines);
    assert_eq!(2, result.non_empty_lines);
}

#[test]
fn unicode_whitespace_separates_words() {
    let result = analyze("one\u{3000}two\u{a0}three\u{2028}four").unwrap();
    assert_eq!(4, result.words);
}
