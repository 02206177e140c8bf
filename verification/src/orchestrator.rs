//! The turn-taking control loop's decision core.
//!
//! One call of `interpret` is the `Interpreting` step of the loop:
//! given the model's finish reason and message, it updates the
//! conversation and counter and says what the driver must do next —
//! run tools, wait for the user, re-invoke the model after recovery, or
//! fail.  The driver performs the directive (network, tools, terminal)
//! and comes back; it decides nothing itself.

use vstd::prelude::*;

use crate::openai::conversation::{stripped, Conversation};
use crate::openai::schema::{
    duplicate_calls, FinishReason, Message, MessageRole, MessageView, ToolCallRequest,
};
use crate::openai::wire::{enc_log, lemma_recovery_never_grows, serialized_size};

verus! {

/// The consecutive-failure threshold of context-overflow recovery: an
/// overflow turn is recovered from while the streak of overflows with
/// no ordinary turn between them stays below this bound; once the
/// streak reaches it, recovery is clearly making no progress and the
/// next overflow is fatal.
pub const CONSECUTIVE_OVERFLOW_LIMIT: u64 = 3;

/// What the driver must do after one interpretation step.
pub enum Directive {
    /// Unwind the process with this diagnostic.
    Fail(String),
    /// Recovery ran: the serialized size before and after.  Re-invoke
    /// the model.
    Recovered(usize, usize),
    /// Perform every one of these tool calls, append one tool result
    /// per call id, and re-invoke the model.
    RunTools(Vec<ToolCallRequest>),
    /// Surface the reply and block for user input.
    AwaitUser,
}

/// The loop's whole state: the transcript and the overflow streak.
pub struct Orchestrator {
    pub conversation: Conversation,
    pub consecutive_overflows: u64,
}

/// The assistant message that recording a reply appends.
pub open spec fn assistant_view(content: Option<Seq<char>>, calls: Option<Seq<crate::openai::schema::CallView>>) -> MessageView {
    MessageView {
        role: MessageRole::Assistant,
        content: Some(
            match content {
                Some(c) => c,
                None => Seq::empty(),
            },
        ),
        tool_call_id: None,
        tool_calls: match calls {
            Some(cs) => if cs.len() == 0 {
                None
            } else {
                Some(cs)
            },
            None => None,
        },
        refusal: None,
    }
}

impl Orchestrator {
    /// Well-formed whenever the transcript is.
    pub open spec fn wf(&self) -> bool {
        self.conversation.wf()
    }

    /// A fresh loop over a conversation holding only the context
    /// prompt.
    pub fn new(context: &str) -> (r: Self)
        ensures
            r.wf(),
            r.conversation@.len() == 1,
            r.conversation@[0].role == MessageRole::System,
            r.conversation@[0].content == Some(context@),
            r.consecutive_overflows == 0,
    {
        Orchestrator {
            conversation: Conversation::new_with_context(context),
            consecutive_overflows: 0,
        }
    }

    /// Interpret one model reply: classify the finish condition, record
    /// what must be recorded, and say what happens next.
    ///
    /// A refusal is fatal with the refusal text.  A context overflow is
    /// recovered from — the log stripped, never growing its serialized
    /// size — on its first occurrence in a fresh counter window and as
    /// long as the streak of consecutive overflows stays below the
    /// threshold; past it, the overflow is fatal.  Any other reply is
    /// appended and resets the streak; its tool calls (if any) are
    /// handed back for dispatch, and with none the turn ends with the
    /// user.
    pub fn interpret(&mut self, finish: FinishReason, message: Message) -> (d: Directive)
        requires
            old(self).wf(),
        ensures
            final(self).wf(),
            message@.refusal matches Some(t) ==> (d matches Directive::Fail(s) && s@ == t
                && final(self).conversation@ == old(self).conversation@
                && final(self).consecutive_overflows == old(self).consecutive_overflows),
            (message@.refusal is None && finish == FinishReason::UsageExceeded) ==> (if old(
                self,
            ).consecutive_overflows < CONSECUTIVE_OVERFLOW_LIMIT {
                d matches Directive::Recovered(before, after) && after <= before && before
                    == enc_log(old(self).conversation@).len() && after == enc_log(
                    stripped(old(self).conversation@),
                ).len() && final(self).conversation@ == stripped(old(self).conversation@)
                    && final(self).consecutive_overflows == old(self).consecutive_overflows + 1
            } else {
                d matches Directive::Fail(s) && s@ == "usage exceeded"@
                    && final(self).conversation@ == old(self).conversation@
            }),
            (message@.refusal is None && finish != FinishReason::UsageExceeded) ==> (final(self).conversation@ == old(self).conversation@.push(
                assistant_view(message@.content, message@.tool_calls),
            ) && final(self).consecutive_overflows == 0 && (match message@.tool_calls {
                Some(cs) => if cs.len() > 0 {
                    d matches Directive::RunTools(run) && run@.map_values(
                        |c: ToolCallRequest| c@,
                    ) == cs
                } else {
                    d is AwaitUser
                },
                None => d is AwaitUser,
            })),
    {
        let Message { content, tool_calls, refusal, .. } = message;
        if let Some(text) = refusal {
            return Directive::Fail(text);
        }
        if finish == FinishReason::UsageExceeded {
            if self.consecutive_overflows >= CONSECUTIVE_OVERFLOW_LIMIT {
                return Directive::Fail(String::from_str("usage exceeded"));
            }
            self.consecutive_overflows = self.consecutive_overflows + 1;
            let before = serialized_size(&self.conversation);
            self.conversation.strip();
            let after = serialized_size(&self.conversation);
            proof {
                lemma_recovery_never_grows(old(self).conversation@);
            }
            return Directive::Recovered(before, after);
        }
        self.consecutive_overflows = 0;
        let calls = match tool_calls {
            Some(cs) => cs,
            None => Vec::new(),
        };
        let reply = match content {
            Some(c) => c,
            None => String::new(),
        };
        let dispatch = calls.len() > 0;
        let run = duplicate_calls(&calls);
        self.conversation.push_assistant_message(reply.as_str(), calls);
        if dispatch {
            Directive::RunTools(run)
        } else {
            Directive::AwaitUser
        }
    }
}

} // verus!
