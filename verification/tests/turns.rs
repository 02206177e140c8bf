//! End-to-end turns through the orchestration loop's decision core.

use well::config::resolve_config;
use well::functions::{apply, render_outcome, ApplyStep, ToolAction};
use well::functions::list_files::{format_listing, EntryMeta};
use well::openai::prompts::CONTEXT_PROMPT;
use well::openai::schema::{
    FinishReason, Message, MessageRole, ToolCallRequest, ToolCallRequestFunction,
};
use well::orchestrator::{Directive, Orchestrator};

fn assistant(content: Option<&str>, calls: Vec<ToolCallRequest>, refusal: Option<&str>) -> Message {
    Message {
        role: MessageRole::Assistant,
        content: content.map(|c| c.to_string()),
        tool_call_id: None,
        tool_calls: if calls.is_empty() { None } else { Some(calls) },
        refusal: refusal.map(|r| r.to_string()),
    }
}

fn list_call() -> ToolCallRequest {
    ToolCallRequest {
        id: "call_1".to_string(),
        function: ToolCallRequestFunction {
            name: "f".to_string(),
            arguments: "{\"path\":\".\"}".to_string(),
        },
    }
}

#[test]
fn startup_without_credential_fails() {
    // No secret anywhere — environment and dotenv already consulted:
    // the process must die with a line naming the missing credential.
    let r = resolve_config(None, None, None);
    match r {
        Err(e) => assert_eq!(e.text(), "expected env `OPENAI_API_KEY` to be available"),
        Ok(_) => panic!("startup without a credential must fail"),
    }
    // A custom base does not excuse the missing credential.
    match resolve_config(Some("http://localhost:1".to_string()), None, None) {
        Err(e) => assert_eq!(e.text(), "expected env `OPENAI_API_KEY` to be available"),
        Ok(_) => panic!("startup without a credential must fail"),
    }
}

#[test]
fn startup_applies_defaults() {
    let c = resolve_config(None, None, Some("sk".to_string())).unwrap();
    assert_eq!(c.api_base, "https://api.openai.com/v1");
    assert_eq!(c.model, "gpt-4o");
    assert_eq!(c.secret, "sk");
    let c2 = resolve_config(
        Some("http://localhost:1".to_string()),
        Some("m".to_string()),
        Some("sk".to_string()),
    )
    .unwrap();
    assert_eq!(c2.api_base, "http://localhost:1");
    assert_eq!(c2.model, "m");
}

#[test]
fn a_tool_call_turn_runs_and_returns_to_the_user() {
    let mut orch = Orchestrator::new(CONTEXT_PROMPT);
    orch.conversation.push_user_message("list the top-level files");

    // The model asks for the listing tool.
    let d = orch.interpret(FinishReason::Call, assistant(None, vec![list_call()], None));
    let calls = match d {
        Directive::RunTools(calls) => calls,
        _ => panic!("a tool call must be dispatched"),
    };
    assert_eq!(calls.len(), 1);

    // The registry validates the path and hands back an action.
    let step = apply(&calls[0].function.name, &calls[0].function.arguments);
    let path = match step {
        ApplyStep::Perform(ToolAction::ListFiles { path }) => path,
        _ => panic!("the listing must become an action"),
    };
    assert_eq!(path, ".");

    // The driver performs it and the result joins the log.
    let listing = format_listing(&vec![EntryMeta {
        is_dir: false,
        is_symlink: false,
        mode: 0o644,
        nlink: 1,
        size: 3,
        mtime_secs: 9,
        name: "README.md".to_string(),
    }]);
    orch.conversation.push_function_call_result(&calls[0].id, &render_outcome(&Ok(listing)));

    // The model replies in plain text: the loop turns to the user.
    let d2 = orch.interpret(FinishReason::Done, assistant(Some("one file"), vec![], None));
    assert!(matches!(d2, Directive::AwaitUser));

    // The transcript holds: context, user, assistant(call), tool, reply.
    assert_eq!(orch.conversation.len(), 5);
    assert_eq!(orch.conversation.message(3).role, MessageRole::Tool);
    assert!(orch.conversation.message(3).content.is_some());
    assert_eq!(orch.conversation.message(4).content.as_deref(), Some("one file"));
}

#[test]
fn overflow_recovers_then_gives_up() {
    let mut orch = Orchestrator::new("ctx");
    orch.conversation.push_user_message("q");
    orch.conversation.push_assistant_message("r", vec![list_call()]);
    orch.conversation.push_function_call_result("call_1", "a very long stale result");
    orch.conversation.push_assistant_message("done", vec![]);

    // The first occurrence in a fresh counter window recovers: the log
    // shrinks (never grows) and the sizes are reported.
    let d = orch.interpret(FinishReason::UsageExceeded, assistant(None, vec![], None));
    match d {
        Directive::Recovered(before, after) => assert!(after <= before),
        _ => panic!("the first overflow in a fresh window must recover"),
    }
    assert_eq!(orch.consecutive_overflows, 1);
    assert_eq!(orch.conversation.message(3).content.as_deref(), Some(""));

    // Overflowing again and again without one ordinary turn between:
    // recovery keeps trying up to the consecutive threshold, then the
    // loop treats it as unrecoverable.
    let d2 = orch.interpret(FinishReason::UsageExceeded, assistant(None, vec![], None));
    assert!(matches!(d2, Directive::Recovered(_, _)));
    let d3 = orch.interpret(FinishReason::UsageExceeded, assistant(None, vec![], None));
    assert!(matches!(d3, Directive::Recovered(_, _)));
    let d4 = orch.interpret(FinishReason::UsageExceeded, assistant(None, vec![], None));
    match d4 {
        Directive::Fail(msg) => assert_eq!(msg, "usage exceeded"),
        _ => panic!("an overflow past the consecutive threshold must be fatal"),
    }
}

#[test]
fn an_ordinary_turn_resets_the_overflow_streak() {
    let mut orch = Orchestrator::new("ctx");
    let d = orch.interpret(FinishReason::UsageExceeded, assistant(None, vec![], None));
    assert!(matches!(d, Directive::Recovered(_, _)));
    assert_eq!(orch.consecutive_overflows, 1);

    // A reply that is not an overflow opens a fresh counter window.
    let d2 = orch.interpret(FinishReason::Done, assistant(Some("ok"), vec![], None));
    assert!(matches!(d2, Directive::AwaitUser));
    assert_eq!(orch.consecutive_overflows, 0);

    // The next overflow is again a first occurrence and recovers.
    let d3 = orch.interpret(FinishReason::UsageExceeded, assistant(None, vec![], None));
    assert!(matches!(d3, Directive::Recovered(_, _)));
}

#[test]
fn a_refusal_unwinds_with_its_text() {
    let mut orch = Orchestrator::new("ctx");
    let before = orch.conversation.len();
    let d = orch.interpret(FinishReason::Done, assistant(Some("partial"), vec![], Some("no")));
    match d {
        Directive::Fail(msg) => assert_eq!(msg, "no"),
        _ => panic!("a refusal must be fatal"),
    }
    assert_eq!(orch.conversation.len(), before);
}

#[test]
fn a_plain_reply_with_absent_content_still_records() {
    let mut orch = Orchestrator::new("ctx");
    let d = orch.interpret(FinishReason::Done, assistant(None, vec![], None));
    assert!(matches!(d, Directive::AwaitUser));
    assert_eq!(orch.conversation.message(1).content.as_deref(), Some(""));
}
