//! Context-overflow recovery over the conversation log.

use well::openai::conversation::Conversation;
use well::openai::schema::{MessageRole, ToolCallRequest, ToolCallRequestFunction};
use well::openai::wire::{serialize_conversation, serialized_size};

fn call(id: &str, name: &str, arguments: &str) -> ToolCallRequest {
    ToolCallRequest {
        id: id.to_string(),
        function: ToolCallRequestFunction {
            name: name.to_string(),
            arguments: arguments.to_string(),
        },
    }
}

fn sample_log() -> Conversation {
    let mut c = Conversation::new_with_context("ctx");
    c.push_user_message("question");
    c.push_assistant_message("looking", vec![call("c1", "F", "{\"path\":\"a\"}")]);
    c.push_function_call_result("c1", "first big result");
    c.push_assistant_message("more", vec![call("c2", "F", "{\"path\":\"b\"}")]);
    c.push_function_call_result("c2", "second big result");
    c.push_function_call_result("c2b", "third big result");
    c
}

#[test]
fn recovery_blanks_only_stale_tool_results() {
    let mut c = sample_log();
    let roles_before: Vec<MessageRole> = (0..c.len()).map(|i| c.message(i).role).collect();
    c.strip();

    // Count and roles survive.
    assert_eq!(c.len(), 7);
    let roles_after: Vec<MessageRole> = (0..c.len()).map(|i| c.message(i).role).collect();
    assert_eq!(roles_before, roles_after);

    // The stale tool result is blanked, never deleted, and keeps its id.
    assert_eq!(c.message(3).content.as_deref(), Some(""));
    assert_eq!(c.message(3).tool_call_id.as_deref(), Some("c1"));

    // The most recent contiguous run of tool results stays verbatim.
    assert_eq!(c.message(5).content.as_deref(), Some("second big result"));
    assert_eq!(c.message(6).content.as_deref(), Some("third big result"));

    // Non-tool messages stay untouched.
    assert_eq!(c.message(0).content.as_deref(), Some("ctx"));
    assert_eq!(c.message(1).content.as_deref(), Some("question"));
    assert_eq!(c.message(2).content.as_deref(), Some("looking"));
    assert_eq!(c.message(4).content.as_deref(), Some("more"));
}

#[test]
fn recovery_never_grows_and_is_idempotent() {
    let mut c = sample_log();
    let size0 = serialized_size(&c);
    c.strip();
    let size1 = serialized_size(&c);
    assert!(size1 <= size0);
    let text1 = serialize_conversation(&c);
    c.strip();
    let size2 = serialized_size(&c);
    let text2 = serialize_conversation(&c);
    assert_eq!(size1, size2);
    assert_eq!(text1, text2);
}

#[test]
fn recovery_on_a_quiet_log_changes_nothing() {
    let mut c = Conversation::new_with_context("ctx");
    c.push_user_message("hello");
    let before = serialize_conversation(&c);
    c.strip();
    assert_eq!(serialize_conversation(&c), before);
}
