//! The tool registry: dispatch, confinement, and graceful failure.

use well::functions::{apply, render_outcome, ApplyStep, ToolAction};

#[test]
fn unknown_identifier_reports_gracefully() {
    match apply("zz", "{}") {
        ApplyStep::Done(s) => assert_eq!(s, "{\"error\":\"no such function: `zz`\"}"),
        ApplyStep::Perform(_) => panic!("an unknown tool must not act"),
    }
}

#[test]
fn read_outside_the_sandbox_is_refused() {
    // The executor answers without touching the filesystem: the escape
    // is caught lexically and reported as content for the model.
    match apply("F", "{\"path\":\"../secret\"}") {
        ApplyStep::Done(s) => {
            assert_eq!(s, "{\"error\":\"cannot read files outside the current directory\"}")
        },
        ApplyStep::Perform(_) => panic!("a spilling path must not reach the filesystem"),
    }
}

#[test]
fn absolute_paths_are_refused() {
    match apply("F", "{\"path\":\"/etc/passwd\"}") {
        ApplyStep::Done(s) => assert_eq!(
            s,
            "{\"error\":\"only paths relative to the current directory are available to read\"}"
        ),
        ApplyStep::Perform(_) => panic!("an absolute path must not reach the filesystem"),
    }
    match apply("f", "{\"path\":\"/\"}") {
        ApplyStep::Done(s) => assert_eq!(
            s,
            "{\"error\":\"only paths relative to the current directory are available to list\"}"
        ),
        ApplyStep::Perform(_) => panic!("an absolute path must not reach the filesystem"),
    }
    match apply("q", "{\"path\":\"/src\"}") {
        ApplyStep::Done(s) => {
            assert_eq!(s, "{\"error\":\"cannot read files outside the current directory\"}")
        },
        ApplyStep::Perform(_) => panic!("an absolute path must not reach the filesystem"),
    }
}

#[test]
fn confined_paths_become_actions() {
    match apply("f", "{\"path\":\".\"}") {
        ApplyStep::Perform(ToolAction::ListFiles { path }) => assert_eq!(path, "."),
        _ => panic!("a confined list request must become an action"),
    }
    match apply("F", "{\"path\":\"src/one.rs\"}") {
        ApplyStep::Perform(ToolAction::ReadFile { path }) => assert_eq!(path, "src/one.rs"),
        _ => panic!("a confined read request must become an action"),
    }
    match apply("q", "{\"path\":\"src\"}") {
        ApplyStep::Perform(ToolAction::Outline { path }) => assert_eq!(path, "src"),
        _ => panic!("a confined outline request must become an action"),
    }
}

#[test]
fn malformed_arguments_are_reported_as_content() {
    match apply("F", "not json") {
        ApplyStep::Done(s) => {
            assert_eq!(s, "{\"error\":\"arguments are not a flat JSON object\"}")
        },
        ApplyStep::Perform(_) => panic!("malformed arguments must not act"),
    }
    match apply("F", "{}") {
        ApplyStep::Done(s) => assert_eq!(s, "{\"error\":\"missing string argument `path`\"}"),
        ApplyStep::Perform(_) => panic!("missing arguments must not act"),
    }
    match apply("G", "{}") {
        ApplyStep::Done(s) => assert_eq!(s, "{\"error\":\"missing string argument `hash`\"}"),
        ApplyStep::Perform(_) => panic!("missing arguments must not act"),
    }
}

#[test]
fn history_tools_always_answer() {
    // Whatever the surrounding directory holds, `g` resolves to a
    // finished content: a listing on a repository, an error otherwise.
    match apply("g", "{}") {
        ApplyStep::Done(s) => {
            assert!(s.starts_with("{\"result\":\"") || s.starts_with("{\"error\":\""))
        },
        ApplyStep::Perform(_) => panic!("the history listing runs in place"),
    }
}

#[test]
fn outcomes_are_framed_for_the_model() {
    assert_eq!(render_outcome(&Ok("fine".to_string())), "{\"result\":\"fine\"}");
    assert_eq!(render_outcome(&Err("broke".to_string())), "{\"error\":\"broke\"}");
    assert_eq!(render_outcome(&Err(String::new())), "{\"error\":\"\"}");
}
