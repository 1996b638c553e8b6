use pitgun_racing::text::{decimal_string, json_error, trim_text};

#[test]
fn json_error_escapes_like_serde_json() {
    assert_eq!(json_error("plain"), "{\"error\":\"plain\"}");
    assert_eq!(json_error("a\"b\\c"), "{\"error\":\"a\\\"b\\\\c\"}");
    assert_eq!(json_error("tab\there\nline"), "{\"error\":\"tab\\there\\nline\"}");
    assert_eq!(json_error("\u{1}\u{1f}"), "{\"error\":\"\\u0001\\u001f\"}");
    assert_eq!(json_error("caf\u{e9}"), "{\"error\":\"caf\u{e9}\"}");
}

#[test]
fn decimal_and_trim_helpers() {
    assert_eq!(decimal_string(0), "0");
    assert_eq!(decimal_string(18446744073709551615), "18446744073709551615");
    assert_eq!(trim_text("  \u{3000}soft\t\n"), "soft");
    assert_eq!(trim_text(" \t "), "");
}
