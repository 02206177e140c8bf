//! The exact wire framing of the conversation log.

use well::openai::conversation::Conversation;
use well::openai::schema::{ToolCallRequest, ToolCallRequestFunction};
use well::openai::wire::{serialize_conversation, serialized_size};

#[test]
fn wire_encoding_is_exact() {
    let mut c = Conversation::new_with_context("ctx");
    c.push_user_message("hi \"there\"\n");
    let s = serialize_conversation(&c);
    assert_eq!(
        s,
        "[{\"role\":\"system\",\"content\":\"ctx\"},{\"role\":\"user\",\"content\":\"hi \\\"there\\\"\\n\"}]"
    );
    assert_eq!(serialized_size(&c), s.chars().count());
}

#[test]
fn wire_encoding_of_tool_traffic() {
    let mut c = Conversation::new_with_context("s");
    c.push_assistant_message(
        "",
        vec![ToolCallRequest {
            id: "c1".to_string(),
            function: ToolCallRequestFunction {
                name: "f".to_string(),
                arguments: "{\"path\":\".\"}".to_string(),
            },
        }],
    );
    c.push_function_call_result("c1", "ok");
    let s = serialize_conversation(&c);
    let expected = "[{\"role\":\"system\",\"content\":\"s\"},{\"role\":\"assistant\",\"content\":\"\",\"tool_calls\":[{\"id\":\"c1\",\"type\":\"function\",\"function\":{\"name\":\"f\",\"arguments\":\"{\\\"path\\\":\\\".\\\"}\"}}]},{\"role\":\"tool\",\"content\":\"ok\",\"tool_call_id\":\"c1\"}]";
    assert_eq!(s, expected);
}

#[test]
fn wire_encoding_omits_empty_call_batches() {
    let mut c = Conversation::new_with_context("s");
    c.push_assistant_message("reply", vec![]);
    let s = serialize_conversation(&c);
    assert_eq!(
        s,
        "[{\"role\":\"system\",\"content\":\"s\"},{\"role\":\"assistant\",\"content\":\"reply\"}]"
    );
}
