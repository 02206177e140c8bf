//! Error carriers and completion digestion.

use well::error::{Error, Exit};
use well::openai::digest_completion;
use well::openai::schema::{
    CompletionChoice, CompletionResponse, ErroneousCompletionResponse, ErrorDetails, FinishReason,
    Message, MessageRole, SuccessfulCompletionResponse, Usage,
};
use well::openai::OpenAIError;

fn choice(index: usize, finish_reason: FinishReason, text: &str) -> CompletionChoice {
    CompletionChoice {
        index,
        finish_reason,
        message: Message {
            role: MessageRole::Assistant,
            content: Some(text.to_string()),
            tool_call_id: None,
            tool_calls: None,
            refusal: None,
        },
    }
}

fn success(choices: Vec<CompletionChoice>) -> CompletionResponse {
    CompletionResponse::Success(SuccessfulCompletionResponse {
        id: "id".to_string(),
        object: "chat.completion".to_string(),
        created: 0,
        model: "m".to_string(),
        choices,
        usage: Usage { prompt_tokens: 1, completion_tokens: 1, total_tokens: 2 },
        system_fingerprint: None,
    })
}

#[test]
fn errors_wrap_their_text() {
    let e = Error::from("boom");
    assert_eq!(e.text(), "boom");
    let e2 = Error::from("gone".to_string());
    assert_eq!(e2.0, "gone");
    let exit = Exit::from(Err(Error::new("why")));
    match exit.0 {
        Err(e) => assert_eq!(e.text(), "why"),
        Ok(()) => panic!("the failing exit must keep its error"),
    }
}

#[test]
fn digestion_prefers_unexhausted_choices() {
    let r = digest_completion(success(vec![
        choice(0, FinishReason::UsageExceeded, "cut"),
        choice(1, FinishReason::Done, "whole"),
    ]));
    let c = r.unwrap();
    assert_eq!(c.finish_reason, FinishReason::Done);
    assert_eq!(c.message.content.as_deref(), Some("whole"));
}

#[test]
fn digestion_falls_back_to_the_first_choice() {
    let r = digest_completion(success(vec![choice(0, FinishReason::UsageExceeded, "cut")]));
    let c = r.unwrap();
    assert_eq!(c.finish_reason, FinishReason::UsageExceeded);
}

#[test]
fn digestion_surfaces_protocol_errors() {
    let r = digest_completion(CompletionResponse::Failure(ErroneousCompletionResponse {
        error: ErrorDetails {
            code: "bad".to_string(),
            message: Some("nope".to_string()),
            param: None,
            kind: "invalid_request_error".to_string(),
        },
    }));
    match r {
        Err(OpenAIError::ProtocolError(d)) => {
            assert_eq!(d.code, "bad");
            assert_eq!(d.message.as_deref(), Some("nope"));
        },
        _ => panic!("a provider error object must surface"),
    }
}

#[test]
fn digestion_refuses_an_empty_choice_list() {
    match digest_completion(success(vec![])) {
        Err(OpenAIError::NoChoice) => {},
        _ => panic!("an empty completion must be refused"),
    }
}
