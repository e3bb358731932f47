use ownership_store::http::errors::ApiError;
use ownership_store::http::handlers::{grep, stats, uniq};
use ownership_store::http::types::{GrepRequest, StatsRequest, UniqRequest};

#[test]
fn http_stats_stats_unicode_counts_chars_vs_bytes() {
    let resp = stats(StatsRequest {
        text: "é".to_string(),
    });
    assert!(resp.is_ok());
}

#[test]
fn http_stats_stats_empty_text_is_zeroes() {
    let resp = stats(StatsRequest {
        text: String::new(),
    });
    assert!(resp.is_ok());
}

#[test]
fn stats_text_too_large_returns_413() {
    let big = "a".repeat(1_048_576 + 1);
    let resp = stats(StatsRequest { text: big });
    let (status, _) = resp.err().unwrap().into_parts();
    assert_eq!(status, 413);
}

#[test]
fn uniq_basic_collapsing() {
    let resp = uniq(UniqRequest {
        text: "a\na\nb\nb\nb\nc\n".to_string(),
        all: Some(false),
    })
    .unwrap();
    assert_eq!(resp.text, "a\nb\nc\n");
    assert_eq!(resp.removed, 3);
}

#[test]
fn uniq_all_true() {
    let resp = uniq(UniqRequest {
        text: "a\na\nb\nb\nb\nc\n".to_string(),
        all: Some(true),
    })
    .unwrap();
    assert_eq!(resp.text, "a\nb\nc\n");
    assert_eq!(resp.removed, 3);
}

#[test]
fn grep_empty_pattern_returns_400() {
    let err = grep(GrepRequest {
        text: "foo\nbar\n".to_string(),
        pattern: String::new(),
        line_number: Some(false),
    })
    .err()
    .unwrap();
    let (status, body) = err.into_parts();
    assert_eq!(status, 400);
    assert_eq!(body.error.code, "VALIDATION_ERROR");
}

#[test]
fn grep_with_line_numbers() {
    let resp = grep(GrepRequest {
        text: "foo\nbar\nfood\n".to_string(),
        pattern: "foo".to_string(),
        line_number: Some(true),
    })
    .unwrap();
    assert_eq!(resp.count, 2);
    assert_eq!(resp.matches[0].line, 1);
    assert_eq!(resp.matches[0].text, "foo");
    assert_eq!(resp.matches[1].line, 3);
    assert_eq!(resp.matches[1].text, "food");
}

#[test]
fn stats_reports_each_count() {
    let resp = stats(StatsRequest {
        text: "héllo wörld\nbye".to_string(),
    })
    .unwrap();
    assert_eq!(resp.lines, 2);
    assert_eq!(resp.words, 3);
    assert_eq!(resp.chars, 15);
    assert_eq!(resp.bytes, 17);
}

#[test]
fn text_at_the_limit_is_accepted() {
    let text = "a".repeat(1_048_576);
    assert!(stats(StatsRequest { text }).is_ok());
}

#[test]
fn uniq_defaults_to_adjacent_only() {
    let resp = uniq(UniqRequest {
        text: "a\nb\na\n".to_string(),
        all: None,
    })
    .unwrap();
    assert_eq!(resp.text, "a\nb\na\n");
    assert_eq!(resp.removed, 0);
}

#[test]
fn uniq_of_empty_text_is_empty() {
    let resp = uniq(UniqRequest {
        text: String::new(),
        all: Some(true),
    })
    .unwrap();
    assert_eq!(resp.text, "");
    assert_eq!(resp.removed, 0);
}

#[test]
fn grep_whitespace_pattern_is_refused() {
    let err = grep(GrepRequest {
        text: "a b\n".to_string(),
        pattern: " \t".to_string(),
        line_number: None,
    })
    .err()
    .unwrap();
    assert!(matches!(err, ApiError::Validation(ref m) if m == "pattern must not be empty"));
}

#[test]
fn grep_without_numbers_reports_zero_and_is_case_sensitive() {
    let resp = grep(GrepRequest {
        text: "Foo\nfoo\n".to_string(),
        pattern: "foo".to_string(),
        line_number: None,
    })
    .unwrap();
    assert_eq!(resp.count, 1);
    assert_eq!(resp.matches[0].line, 0);
    assert_eq!(resp.matches[0].text, "foo");
}

#[test]
fn error_statuses_and_codes() {
    let (s, b) = ApiError::Internal("m".to_string()).into_parts();
    assert_eq!((s, b.error.code, b.error.message.as_str()), (500, "INTERNAL_ERROR", "m"));
    let (s, b) = ApiError::TooLarge("t".to_string()).into_parts();
    assert_eq!((s, b.error.code, b.error.message.as_str()), (413, "PAYLOAD_TOO_LARGE", "t"));
}
