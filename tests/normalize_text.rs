use config_merge::normalize::{fix_json_trailing_commas, normalize_json_text, strip_json_comments};
use config_merge::text::{escape_json_str, int_to_text, nest_str};

#[test]
fn normalizer_strips_comment_and_trailing_comma() {
    let out = normalize_json_text("// comment\n{\"a\":1,}");
    assert_eq!(out, "\n{\"a\":1}");
    let v: serde_json::Value = serde_json::from_str(&out).unwrap();
    let expected: serde_json::Value = serde_json::from_str("{\"a\":1}").unwrap();
    assert_eq!(v, expected);
}

#[test]
fn line_comment_keeps_line_break() {
    assert_eq!(strip_json_comments("{ // note\n\"a\": 1}"), "{ \n\"a\": 1}");
}

#[test]
fn line_comment_at_end_without_break_is_dropped() {
    assert_eq!(strip_json_comments("{}// tail"), "{}");
}

#[test]
fn block_comment_becomes_one_space() {
    assert_eq!(strip_json_comments("{/* a\n b **/\"x\":1}"), "{ \"x\":1}");
}

#[test]
fn unclosed_block_comment_is_dropped() {
    assert_eq!(strip_json_comments("{\"x\":1} /* open"), "{\"x\":1} ");
}

#[test]
fn comment_markers_inside_strings_stay() {
    let s = "{\"url\": \"http://h/*x*/\", \"q\": \"a\\\"//b\"}";
    assert_eq!(strip_json_comments(s), s);
}

#[test]
fn trailing_commas_before_closers_are_removed() {
    assert_eq!(fix_json_trailing_commas("[1, 2, ]"), "[1, 2 ]");
    assert_eq!(fix_json_trailing_commas("{\"a\": 1,\n}"), "{\"a\": 1\n}");
    assert_eq!(fix_json_trailing_commas("[1, 2]"), "[1, 2]");
}

#[test]
fn commas_inside_strings_stay() {
    let s = "{\"a\": \",}\"}";
    assert_eq!(fix_json_trailing_commas(s), s);
}

#[test]
fn escape_doubles_backslash_and_quote() {
    assert_eq!(escape_json_str("a\\b\"c"), "a\\\\b\\\"c");
    assert_eq!(escape_json_str(""), "");
}

#[test]
fn nest_indents_continuation_lines() {
    assert_eq!(nest_str("{\n  \"a\": 1\n}"), "{\n    \"a\": 1\n  }");
}

#[test]
fn integers_render_in_decimal() {
    assert_eq!(int_to_text(0), "0");
    assert_eq!(int_to_text(-42), "-42");
    assert_eq!(int_to_text(1234567890), "1234567890");
    assert_eq!(int_to_text(i64::MIN), "-9223372036854775808");
    assert_eq!(int_to_text(i64::MAX), "9223372036854775807");
}
