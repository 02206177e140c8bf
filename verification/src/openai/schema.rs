//! The data model of the chat completion exchange.
//!
//! Each executable type carries a view made of sequences and plain
//! values, so that contracts about conversations can be stated without
//! reference to allocation.

use vstd::prelude::*;

use crate::text::opt_view;

verus! {

/// Why the model stopped generating.
#[derive(PartialEq, Eq, Structural, Clone, Copy, Debug)]
pub enum FinishReason {
    /// The model produced a final reply.
    Done,
    /// The context window is full.
    UsageExceeded,
    /// The model wants one or more tools invoked.
    Call,
}

/// Who authored the message.
#[derive(PartialEq, Eq, Structural, Clone, Copy, Debug)]
pub enum MessageRole {
    System,
    User,
    Assistant,
    Tool,
}

/// Token accounting as reported by the provider.
#[derive(Clone, Copy, Debug)]
pub struct Usage {
    pub prompt_tokens: usize,
    pub completion_tokens: usize,
    pub total_tokens: usize,
}

/// The named function a tool call asks for, with raw JSON arguments.
#[derive(Debug)]
pub struct ToolCallRequestFunction {
    pub name: String,
    pub arguments: String,
}

/// A tool call request, correlated to its eventual result by `id`.
#[derive(Debug)]
pub struct ToolCallRequest {
    pub id: String,
    pub function: ToolCallRequestFunction,
}

/// The view of a tool call request.
pub ghost struct CallView {
    pub id: Seq<char>,
    pub name: Seq<char>,
    pub arguments: Seq<char>,
}

impl View for ToolCallRequest {
    type V = CallView;

    open spec fn view(&self) -> CallView {
        CallView { id: self.id@, name: self.function.name@, arguments: self.function.arguments@ }
    }
}

impl ToolCallRequest {
    /// A copy with the same view.
    pub fn duplicate(&self) -> (r: Self)
        ensures
            r@ == self@,
    {
        ToolCallRequest {
            id: self.id.clone(),
            function: ToolCallRequestFunction {
                name: self.function.name.clone(),
                arguments: self.function.arguments.clone(),
            },
        }
    }
}

/// Copy a whole batch of tool call requests, views kept.
pub fn duplicate_calls(calls: &Vec<ToolCallRequest>) -> (r: Vec<ToolCallRequest>)
    ensures
        r@.map_values(|c: ToolCallRequest| c@) == calls@.map_values(|c: ToolCallRequest| c@),
{
    let mut out: Vec<ToolCallRequest> = Vec::new();
    let n = calls.len();
    let mut i: usize = 0;
    while i < n
        invariant
            n == calls@.len(),
            0 <= i <= n,
            out@.len() == i,
            forall|m: int| 0 <= m < i ==> out@[m]@ == calls@[m]@,
        decreases n - i,
    {
        out.push(calls[i].duplicate());
        i += 1;
    }
    proof {
        assert(out@.map_values(|c: ToolCallRequest| c@) =~= calls@.map_values(
            |c: ToolCallRequest| c@,
        ));
    }
    out
}

/// A message in the conversation.
#[derive(Debug)]
pub struct Message {
    pub role: MessageRole,
    pub content: Option<String>,
    pub tool_call_id: Option<String>,
    pub tool_calls: Option<Vec<ToolCallRequest>>,
    pub refusal: Option<String>,
}

/// The view of a message.
pub ghost struct MessageView {
    pub role: MessageRole,
    pub content: Option<Seq<char>>,
    pub tool_call_id: Option<Seq<char>>,
    pub tool_calls: Option<Seq<CallView>>,
    pub refusal: Option<Seq<char>>,
}

impl View for Message {
    type V = MessageView;

    open spec fn view(&self) -> MessageView {
        MessageView {
            role: self.role,
            content: opt_view(self.content),
            tool_call_id: opt_view(self.tool_call_id),
            tool_calls: match self.tool_calls {
                Some(v) => Some(v@.map_values(|c: ToolCallRequest| c@)),
                None => None,
            },
            refusal: opt_view(self.refusal),
        }
    }
}

impl Default for Message {
    /// A bare system message with nothing filled in.
    fn default() -> (r: Self)
        ensures
            r@.role == MessageRole::System,
            r@.content is None,
            r@.tool_call_id is None,
            r@.tool_calls is None,
            r@.refusal is None,
    {
        Message {
            role: MessageRole::System,
            content: None,
            tool_call_id: None,
            tool_calls: None,
            refusal: None,
        }
    }
}

/// One choice offered by a completion.
#[derive(Debug)]
pub struct CompletionChoice {
    pub index: usize,
    pub finish_reason: FinishReason,
    pub message: Message,
}

/// The provider's structured error object.
#[derive(Debug)]
pub struct ErrorDetails {
    pub code: String,
    pub message: Option<String>,
    pub param: Option<String>,
    pub kind: String,
}

/// A completion that worked.
#[derive(Debug)]
pub struct SuccessfulCompletionResponse {
    pub id: String,
    pub object: String,
    pub created: usize,
    pub model: String,
    pub choices: Vec<CompletionChoice>,
    pub usage: Usage,
    pub system_fingerprint: Option<String>,
}

/// A completion that reported an error instead.
#[derive(Debug)]
pub struct ErroneousCompletionResponse {
    pub error: ErrorDetails,
}

/// What the wire can carry back: success or a structured error, told
/// apart by shape rather than by a tag.
#[derive(Debug)]
pub enum CompletionResponse {
    Success(SuccessfulCompletionResponse),
    Failure(ErroneousCompletionResponse),
}

} // verus!
