//! Parsing tool arguments: the flat JSON object grammar.

use well::json::{parse_arguments, render_keyed_object, string_argument};

#[test]
fn plain_string_member() {
    assert_eq!(string_argument("{\"path\":\".\"}", "path").unwrap(), ".");
    assert_eq!(string_argument(" { \"path\" : \"src/main.rs\" } ", "path").unwrap(), "src/main.rs");
}

#[test]
fn escaped_string_member() {
    assert_eq!(string_argument("{\"path\":\"a\\nb\"}", "path").unwrap(), "a\nb");
    assert_eq!(string_argument("{\"path\":\"q\\\"q\\\\\"}", "path").unwrap(), "q\"q\\");
    assert_eq!(string_argument("{\"path\":\"a\\/b\"}", "path").unwrap(), "a/b");
}

#[test]
fn unicode_escapes_decode() {
    assert_eq!(string_argument("{\"path\":\"\\u0041\"}", "path").unwrap(), "A");
    assert_eq!(string_argument("{\"path\":\"caf\\u00e9\"}", "path").unwrap(), "caf\u{e9}");
    assert_eq!(string_argument("{\"path\":\"\\u2603\"}", "path").unwrap(), "\u{2603}");
    // Upper-case digits are digits too.
    assert_eq!(string_argument("{\"path\":\"\\u00E9\"}", "path").unwrap(), "\u{e9}");
    // Lone surrogates and short escapes are not in the grammar.
    assert!(string_argument("{\"path\":\"\\ud800\"}", "path").is_err());
    assert!(string_argument("{\"path\":\"\\u12\"}", "path").is_err());
    assert!(string_argument("{\"path\":\"\\uzzzz\"}", "path").is_err());
}

#[test]
fn nested_members_are_skipped() {
    let fields =
        parse_arguments("{\"meta\": {\"a\": 1, \"b\": [1, \"x\", {}]}, \"path\": \"p\"}").unwrap();
    assert_eq!(fields.len(), 2);
    assert_eq!(fields[0], ("meta".to_string(), None));
    assert_eq!(fields[1], ("path".to_string(), Some("p".to_string())));
    assert_eq!(string_argument("{\"extra\": [], \"path\": \"p\"}", "path").unwrap(), "p");
    assert_eq!(string_argument("{\"extra\": {}, \"path\": \"p\"}", "path").unwrap(), "p");
    // A member of the right name but a nested shape still does not count.
    assert_eq!(
        string_argument("{\"path\": {\"nested\": 1}}", "path").unwrap_err(),
        "missing string argument `path`"
    );
    // Unclosed nesting is still malformed.
    assert!(string_argument("{\"extra\": [1, 2, \"path\": \"p\"}", "path").is_err());
}

#[test]
fn scalar_members_are_skipped() {
    let fields = parse_arguments("{\"n\": 42, \"path\": \"x\", \"flag\": true}").unwrap();
    assert_eq!(fields.len(), 3);
    assert_eq!(fields[0], ("n".to_string(), None));
    assert_eq!(fields[1], ("path".to_string(), Some("x".to_string())));
    assert_eq!(fields[2], ("flag".to_string(), None));
}

#[test]
fn malformed_arguments_are_refused() {
    assert_eq!(
        string_argument("not json", "path").unwrap_err(),
        "arguments are not a flat JSON object"
    );
    assert_eq!(
        string_argument("{\"path\":\"a\"", "path").unwrap_err(),
        "arguments are not a flat JSON object"
    );
    assert_eq!(
        string_argument("{\"path\":\"a\"} trailing", "path").unwrap_err(),
        "arguments are not a flat JSON object"
    );
}

#[test]
fn missing_member_is_refused() {
    assert_eq!(string_argument("{}", "path").unwrap_err(), "missing string argument `path`");
    assert_eq!(
        string_argument("{\"hash\":\"abc\"}", "path").unwrap_err(),
        "missing string argument `path`"
    );
    // A member of the right name but the wrong shape does not count.
    assert_eq!(
        string_argument("{\"path\": 5}", "path").unwrap_err(),
        "missing string argument `path`"
    );
}

#[test]
fn keyed_objects_render_with_escapes() {
    assert_eq!(render_keyed_object("error", "plain"), "{\"error\":\"plain\"}");
    assert_eq!(render_keyed_object("result", "a\"b\\c\nd"), "{\"result\":\"a\\\"b\\\\c\\nd\"}");
    assert_eq!(render_keyed_object("result", "\u{1}"), "{\"result\":\"\\u0001\"}");
    assert_eq!(render_keyed_object("result", "\u{1f}"), "{\"result\":\"\\u001f\"}");
}
