//! Types and logic for talking to an OpenAI-style chat completion API.
//!
//! The HTTP transport itself is an external collaborator; this module
//! holds the data model of the exchange and the decisions taken over it.

pub mod conversation;
pub mod prompts;
pub mod schema;
pub mod wire;

use vstd::prelude::*;

use schema::{CompletionChoice, CompletionResponse, ErrorDetails, FinishReason};

verus! {

/// What can go wrong between sending a completion request and holding a
/// usable choice.  Transport-level failures (network, headers) belong to
/// the unverified rim and never reach this type.
#[derive(Debug)]
pub enum OpenAIError {
    /// The response text did not parse as a completion: what was sent,
    /// what came back, and the parser's complaint.
    SchemaMismatch(String, String, String),
    /// The provider answered with a structured error object.
    ProtocolError(ErrorDetails),
    /// The completion carried no choices at all.
    NoChoice,
}

/// The index of the choice that `digest_completion` picks from a
/// successful response: the first whose finish reason is not
/// `UsageExceeded`, or the first overall when every choice is exhausted.
pub open spec fn chosen_index(choices: Seq<CompletionChoice>) -> int {
    if exists|i: int|
        0 <= i < choices.len() && choices[i].finish_reason != FinishReason::UsageExceeded {
        choose|i: int|
            0 <= i < choices.len() && choices[i].finish_reason != FinishReason::UsageExceeded
            && forall|j: int|
                0 <= j < i ==> choices[j].finish_reason == FinishReason::UsageExceeded
    } else {
        0
    }
}

/// Reduce a completion response to the one choice the loop acts on.
///
/// A protocol error object is surfaced as `ProtocolError`; an empty
/// choice list as `NoChoice`; otherwise the first choice that did not
/// exhaust the context window is preferred, falling back to the first
/// choice.
#[verifier::loop_isolation(false)]
pub fn digest_completion(response: CompletionResponse) -> (r: Result<CompletionChoice, OpenAIError>)
    ensures
        match response {
            CompletionResponse::Failure(f) => r matches Err(e) && e matches
                OpenAIError::ProtocolError(d) && d == f.error,
            CompletionResponse::Success(s) => {
                if s.choices@.len() == 0 {
                    r matches Err(e) && e is NoChoice
                } else {
                    r matches Ok(c) && {
                        let i = chosen_index(s.choices@);
                        0 <= i < s.choices@.len() && c == s.choices@[i] && ((exists|j: int|
                            0 <= j < s.choices@.len() && s.choices@[j].finish_reason
                                != FinishReason::UsageExceeded) ==> c.finish_reason
                            != FinishReason::UsageExceeded)
                    }
                }
            },
        },
{
    match response {
        CompletionResponse::Failure(f) => Err(OpenAIError::ProtocolError(f.error)),
        CompletionResponse::Success(s) => {
            let ghost all = s.choices@;
            let mut choices = s.choices;
            if choices.len() == 0 {
                return Err(OpenAIError::NoChoice);
            }
            let n = choices.len();
            let mut i: usize = 0;
            while i < n
                invariant
                    all == choices@,
                    n == choices@.len(),
                    0 <= i <= n,
                    forall|j: int|
                        0 <= j < i ==> choices@[j].finish_reason == FinishReason::UsageExceeded,
                decreases n - i,
            {
                if choices[i].finish_reason != FinishReason::UsageExceeded {
                    proof {
                        assert(chosen_index(all) == i as int);
                    }
                    let c = remove_choice(&mut choices, i);
                    return Ok(c);
                }
                i += 1;
            }
            proof {
                assert(chosen_index(all) == 0);
            }
            let c = remove_choice(&mut choices, 0);
            Ok(c)
        },
    }
}

/// Take choice `i` out of the vector (the rest is dropped anyway).
fn remove_choice(choices: &mut Vec<CompletionChoice>, i: usize) -> (r: CompletionChoice)
    requires
        i < old(choices)@.len(),
    ensures
        r == old(choices)@[i as int],
{
    choices.remove(i)
}

} // verus!
