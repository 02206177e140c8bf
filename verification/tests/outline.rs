//! Module outlines through the tree-sitter grammars.

use well::functions::query_ast::{
    dedup_texts, extension_supported, format_directory_entry, format_module_outline,
    outline_source, queries_for_filename_extension,
};

#[test]
fn grammars_cover_the_known_extensions() {
    for ext in ["py", "rs", "ts", "js", "tsx", "jsx"] {
        assert!(extension_supported(Some(ext)));
        assert!(queries_for_filename_extension(Some(ext)).is_some());
    }
    assert!(!extension_supported(Some("txt")));
    assert!(!extension_supported(None));
    assert!(queries_for_filename_extension(Some("md")).is_none());
}

#[test]
fn rust_sources_outline_their_definitions() {
    let out = outline_source("alpha", Some("rs"), "fn alpha() {}").unwrap();
    assert_eq!(out, "(module name:\"alpha\" defs:[\"alpha\"] refs:[])");
}

#[test]
fn python_sources_outline_with_references() {
    let out = outline_source("m", Some("py"), "def f():\n    return g()\n").unwrap();
    assert!(out.starts_with("(module name:\"m\" defs:[\"f\"] refs:["));
    assert!(out.contains("\"g\""));
    assert!(out.ends_with("])"));
}

#[test]
fn unknown_extensions_outline_as_unit() {
    assert_eq!(outline_source("m", Some("txt"), "whatever").unwrap(), "()");
    assert_eq!(outline_source("m", None, "whatever").unwrap(), "()");
}

#[test]
fn duplicate_captures_collapse_to_first_occurrences() {
    let raw = vec![
        "a".to_string(),
        "b".to_string(),
        "a".to_string(),
        "c".to_string(),
        "b".to_string(),
    ];
    let out = dedup_texts(&raw);
    assert_eq!(out, vec!["a".to_string(), "b".to_string(), "c".to_string()]);
    // A second pass over an already-duplicate-free list keeps it whole.
    assert_eq!(dedup_texts(&out), out);
}

#[test]
fn directory_entries_render_per_kind() {
    assert_eq!(format_directory_entry("sub", None), "sub/ (directory)\n");
    assert_eq!(format_directory_entry("m.rs", Some("()")), "m.rs ()\n");
    // Entry names go through the default character escape.
    assert_eq!(format_directory_entry("a\tb", None), "a\\tb/ (directory)\n");
    assert_eq!(format_directory_entry("q'\"", None), "q\\'\\\"/ (directory)\n");
    assert_eq!(format_directory_entry("caf\u{e9}", None), "caf\\u{e9}/ (directory)\n");
    assert_eq!(format_directory_entry("nul\u{1}", None), "nul\\u{1}/ (directory)\n");
}

#[test]
fn outlines_quote_their_items() {
    let defs = vec!["with \"quote\"".to_string()];
    let refs: Vec<String> = vec![];
    assert_eq!(
        format_module_outline("s", &defs, &refs),
        "(module name:\"s\" defs:[\"with \\\"quote\\\"\"] refs:[])"
    );
}
