use ownership_store::textkit::errors::TextkitError;
use ownership_store::textkit::grep::grep_lines;
use ownership_store::textkit::stats::analyze;
use ownership_store::textkit::uniq::uniq_lines;

#[test]
fn ignore_case_grep_lines_any_case() {
    let input = "one\none Two\none\none two\nthree\n";
    let result = grep_lines(input, &"two", true, false).unwrap();

    let expected = vec!["one Two".to_string(), "one two".to_string()];

    assert_eq!(expected, result);
}

#[test]
fn ignore_case_grep_lines_strict_case() {
    let input = "one\none Two\none\none two\nthree\n";
    let result = grep_lines(input, &"two", false, false).unwrap();

    let expected = vec!["one two".to_string()];

    assert_eq!(expected, result);
}

#[test]
fn ignore_case_grep_lines_strict_case_line_number() {
    let input = "one\none Two\none\none two\nthree\n";
    let result = grep_lines(input, &"two", false, true).unwrap();

    let expected = vec!["4:one two".to_string()];

    assert_eq!(expected, result);
}

#[test]
fn stats_stats_empty_text_is_zeroes() {
    let s = analyze("").unwrap();
    assert_eq!(0, s.lines);
    assert_eq!(0, s.words);
    assert_eq!(0, s.chars);
    assert_eq!(0, s.bytes);
}

#[test]
fn stats_stats_unicode_counts_chars_vs_bytes() {
    // "é" is 2 bytes in UTF-8, 1 char
    let s = analyze("é").unwrap();
    assert_eq!(1, s.lines);
    assert_eq!(1, s.words);
    assert_eq!(1, s.chars);
    assert_eq!(2, s.bytes);
}

#[test]
fn stats_counts_words_with_whitespace() {
    let s = analyze("  one\t two\nthree  ").unwrap();
    assert_eq!(2, s.lines);
    assert_eq!(3, s.words);
}

#[test]
fn uniq_all_keeps_first_occurrence_of_each_line() {
    let input = "one\none two\none\none two\nthree\n";
    let result = uniq_lines(input, true).unwrap();

    let expected = vec![
        "one".to_string(),
        "one two".to_string(),
        "three".to_string(),
    ];

    assert_eq!(expected, result);
}

#[test]
fn uniq_adjacent_only_collapses_consecutive_duplicates() {
    let input = "one\none\none two\none\none\n";
    let result = uniq_lines(input, false).unwrap();

    let expected = vec!["one".to_string(), "one two".to_string(), "one".to_string()];

    assert_eq!(expected, result);
}

#[test]
fn lines_drop_carriage_return_before_newline() {
    let s = analyze("a\r\nb\r\n\r\n").unwrap();
    assert_eq!(3, s.lines);
    let kept = uniq_lines("x\r\nx\nx\r", false).unwrap();
    assert_eq!(vec!["x".to_string(), "x\r".to_string()], kept);
}

#[test]
fn grep_empty_pattern_selects_every_line() {
    let result = grep_lines("a\n\nb", "", false, true).unwrap();
    assert_eq!(
        vec!["1:a".to_string(), "2:".to_string(), "3:b".to_string()],
        result
    );
}

#[test]
fn grep_line_numbers_past_nine_have_several_digits() {
    let text = "x\nx\nx\nx\nx\nx\nx\nx\nx\nhit\nx\nhit";
    let result = grep_lines(text, "hit", false, true).unwrap();
    assert_eq!(vec!["10:hit".to_string(), "12:hit".to_string()], result);
}

#[test]
fn grep_ignore_case_folds_only_ascii_letters() {
    let result = grep_lines("ÉTÉ\nété\nABC", "été", true, false).unwrap();
    assert_eq!(vec!["été".to_string()], result);
    let result = grep_lines("ABC\nabc", "aBc", true, false).unwrap();
    assert_eq!(vec!["ABC".to_string(), "abc".to_string()], result);
}

#[test]
fn uniq_all_on_empty_text_is_empty() {
    assert!(uniq_lines("", true).unwrap().is_empty());
    assert!(uniq_lines("", false).unwrap().is_empty());
}

#[test]
fn textkit_error_messages() {
    let io = TextkitError::Io("gone".to_string());
    assert_eq!("IO error: gone", io.message());
    let arg = TextkitError::InvalidArgument("bad".to_string());
    assert_eq!("Invalid argument: bad", arg.message());
}
