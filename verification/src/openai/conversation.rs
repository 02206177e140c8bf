//! The append-only conversation log and its overflow recovery.
//!
//! The log is created once, seeded with the context message, and then
//! grows strictly by appends — except for recovery, which blanks (never
//! deletes) the content of tool results that belong to finished
//! exchanges, so that message count, roles and pairing of calls with
//! results survive while the serialized size shrinks.

use vstd::prelude::*;

use crate::openai::schema::{Message, MessageRole, MessageView, ToolCallRequest};

verus! {

/// The view of a message list.
pub open spec fn log_view(v: Seq<Message>) -> Seq<MessageView> {
    v.map_values(|m: Message| m@)
}

/// A message whose content recovery has blanked.
pub open spec fn blanked(m: MessageView) -> MessageView {
    MessageView { content: Some(Seq::empty()), ..m }
}

/// Whether a message strictly after `i` is not a tool result.  A tool
/// message with this property belongs to an older exchange: only the
/// most recent contiguous run of tool results is still active.
pub open spec fn later_non_tool(log: Seq<MessageView>, i: int) -> bool {
    exists|j: int| i < j < log.len() && log[j].role != MessageRole::Tool
}

/// What recovery leaves of a log: every tool result that has a later
/// non-tool message loses its content; everything else stays.
pub open spec fn stripped(log: Seq<MessageView>) -> Seq<MessageView> {
    Seq::new(
        log.len(),
        |i: int|
            if log[i].role == MessageRole::Tool && later_non_tool(log, i) {
                blanked(log[i])
            } else {
                log[i]
            },
    )
}

/// The conversation transcript, in insertion order.
pub struct Conversation {
    pub messages: Vec<Message>,
}

impl View for Conversation {
    type V = Seq<MessageView>;

    open spec fn view(&self) -> Seq<MessageView> {
        log_view(self.messages@)
    }
}

impl Conversation {
    /// Well-formed: seeded with a system context message that stays
    /// first, and every tool result carries a correlation id and a
    /// present (possibly empty, never absent) content.
    pub open spec fn wf(&self) -> bool {
        &&& self@.len() >= 1
        &&& self@[0].role == MessageRole::System
        &&& forall|i: int|
            #![auto]
            0 <= i < self@.len() && self@[i].role == MessageRole::Tool ==> (
            self@[i].content is Some && self@[i].tool_call_id is Some)
    }

    /// How many messages the transcript holds.
    pub fn len(&self) -> (r: usize)
        ensures
            r == self@.len(),
    {
        self.messages.len()
    }

    /// Borrow message `i`.
    pub fn message(&self, i: usize) -> (r: &Message)
        requires
            i < self@.len(),
        ensures
            r@ == self@[i as int],
    {
        &self.messages[i]
    }

    /// Make a conversation holding only the given context prompt.
    pub fn new_with_context(context: &str) -> (c: Self)
        ensures
            c@.len() == 1,
            c@[0].role == MessageRole::System,
            c@[0].content == Some(context@),
            c@[0].tool_call_id is None,
            c@[0].tool_calls is None,
            c@[0].refusal is None,
            c.wf(),
    {
        let mut messages: Vec<Message> = Vec::new();
        messages.push(
            Message {
                role: MessageRole::System,
                content: Some(String::from_str(context)),
                tool_call_id: None,
                tool_calls: None,
                refusal: None,
            },
        );
        let c = Conversation { messages };
        proof {
            assert(c@ =~= log_view(c.messages@));
        }
        c
    }

    /// Add a message from the user to the conversation.
    pub fn push_user_message(&mut self, inquiry: &str)
        ensures
            final(self)@ == old(self)@.push(
                MessageView {
                    role: MessageRole::User,
                    content: Some(inquiry@),
                    tool_call_id: None,
                    tool_calls: None,
                    refusal: None,
                },
            ),
            old(self).wf() ==> final(self).wf(),
    {
        self.messages.push(
            Message {
                role: MessageRole::User,
                content: Some(String::from_str(inquiry)),
                tool_call_id: None,
                tool_calls: None,
                refusal: None,
            },
        );
        proof {
            assert(final(self)@ =~= old(self)@.push(final(self).messages@.last()@));
        }
    }

    /// Add a reply from the assistant, attaching its tool call requests
    /// when there are any and omitting the field when there are none.
    pub fn push_assistant_message(&mut self, reply: &str, calls: Vec<ToolCallRequest>)
        ensures
            final(self)@ == old(self)@.push(
                MessageView {
                    role: MessageRole::Assistant,
                    content: Some(reply@),
                    tool_call_id: None,
                    tool_calls: if calls@.len() == 0 {
                        None
                    } else {
                        Some(calls@.map_values(|c: ToolCallRequest| c@))
                    },
                    refusal: None,
                },
            ),
            old(self).wf() ==> final(self).wf(),
    {
        let tool_calls = if calls.len() == 0 {
            None
        } else {
            Some(calls)
        };
        self.messages.push(
            Message {
                role: MessageRole::Assistant,
                content: Some(String::from_str(reply)),
                tool_call_id: None,
                tool_calls,
                refusal: None,
            },
        );
        proof {
            assert(final(self)@ =~= old(self)@.push(final(self).messages@.last()@));
        }
    }

    /// Tell the assistant how a tool call went.  The content is always
    /// present — the empty string rather than an absent field — because
    /// the wire protocol rejects tool messages without content.
    pub fn push_function_call_result(&mut self, id: &str, result: &str)
        ensures
            final(self)@ == old(self)@.push(
                MessageView {
                    role: MessageRole::Tool,
                    content: Some(result@),
                    tool_call_id: Some(id@),
                    tool_calls: None,
                    refusal: None,
                },
            ),
            old(self).wf() ==> final(self).wf(),
    {
        self.messages.push(
            Message {
                role: MessageRole::Tool,
                content: Some(String::from_str(result)),
                tool_call_id: Some(String::from_str(id)),
                tool_calls: None,
                refusal: None,
            },
        );
        proof {
            assert(final(self)@ =~= old(self)@.push(final(self).messages@.last()@));
        }
    }

    /// Make the conversation briefer by forgetting the content of tool
    /// results from finished exchanges; the most recent contiguous run
    /// of tool results is preserved verbatim.
    #[verifier::loop_isolation(false)]
    pub fn strip(&mut self)
        ensures
            final(self)@ == stripped(old(self)@),
            old(self).wf() ==> final(self).wf(),
    {
        let ghost orig = log_view(self.messages@);
        let n = self.messages.len();

        // Locate the last message that is not a tool result: everything
        // before it with the tool role belongs to an older exchange.
        let mut has_non_tool = false;
        let mut last_non_tool: usize = 0;
        let mut i: usize = 0;
        while i < n
            invariant
                self.messages@ == old(self).messages@,
                0 <= i <= n,
                has_non_tool ==> last_non_tool < i && orig[last_non_tool as int].role
                    != MessageRole::Tool && forall|j: int|
                    last_non_tool < j < i ==> orig[j].role == MessageRole::Tool,
                !has_non_tool ==> forall|j: int| 0 <= j < i ==> orig[j].role == MessageRole::Tool,
            decreases n - i,
        {
            if self.messages[i].role != MessageRole::Tool {
                has_non_tool = true;
                last_non_tool = i;
            }
            i += 1;
        }
        proof {
            if has_non_tool {
                assert forall|m: int| 0 <= m < n implies (later_non_tool(orig, m) <==> m
                    < last_non_tool) by {
                    if m < last_non_tool {
                        assert(orig[last_non_tool as int].role != MessageRole::Tool);
                    }
                    if m >= last_non_tool && later_non_tool(orig, m) {
                        let j = choose|j: int|
                            m < j < orig.len() && orig[j].role != MessageRole::Tool;
                        assert(orig[j].role == MessageRole::Tool);
                    }
                }
            } else {
                assert forall|m: int| 0 <= m < n implies !later_non_tool(orig, m) by {
                    if later_non_tool(orig, m) {
                        let j = choose|j: int|
                            m < j < orig.len() && orig[j].role != MessageRole::Tool;
                        assert(orig[j].role == MessageRole::Tool);
                    }
                }
            }
        }

        // Rebuild the log, blanking what the scan condemned.
        let mut out: Vec<Message> = Vec::new();
        let mut i: usize = 0;
        while i < n
            invariant
                0 <= i <= n,
                self.messages@.len() == n - i,
                log_view(self.messages@) =~= orig.subrange(i as int, n as int),
                log_view(out@) =~= stripped(orig).take(i as int),
            decreases n - i,
        {
            let ghost pre = self.messages@;
            let mut m = self.messages.remove(0);
            proof {
                assert(log_view(pre)[0] == pre[0]@);
                assert(m@ == orig[i as int]);
                let after = self.messages@;
                assert(after == pre.remove(0));
                assert forall|j: int| 0 <= j < after.len() implies after[j]@ == orig[i + 1 + j] by {
                    assert(after[j] == pre[j + 1]);
                    assert(log_view(pre)[j + 1] == pre[j + 1]@);
                }
            }
            if m.role == MessageRole::Tool && has_non_tool && i < last_non_tool {
                m.content = Some(String::new());
                proof {
                    assert(m@ == blanked(orig[i as int]));
                }
            }
            out.push(m);
            proof {
                assert(log_view(out@) =~= stripped(orig).take(i + 1));
                assert(log_view(self.messages@) =~= orig.subrange(i + 1, n as int));
            }
            i += 1;
        }
        self.messages = out;
        proof {
            assert(final(self)@ =~= stripped(orig));
            if old(self).wf() {
                assert(final(self)@[0] == stripped(orig)[0]);
                assert(final(self).wf());
            }
        }
    }
}

/// Recovery never changes message count, the role sequence, correlation
/// ids, tool call batches, refusals, or any non-tool message; the only
/// change it ever makes is to replace a tool result's content with the
/// empty string.
pub proof fn lemma_strip_preserves_structure(log: Seq<MessageView>)
    ensures
        stripped(log).len() == log.len(),
        forall|i: int| #![auto] 0 <= i < log.len() ==> stripped(log)[i].role == log[i].role,
        forall|i: int|
            #![auto]
            0 <= i < log.len() ==> stripped(log)[i].tool_call_id == log[i].tool_call_id,
        forall|i: int|
            #![auto]
            0 <= i < log.len() ==> stripped(log)[i].tool_calls == log[i].tool_calls,
        forall|i: int| #![auto] 0 <= i < log.len() ==> stripped(log)[i].refusal == log[i].refusal,
        forall|i: int|
            #![auto]
            0 <= i < log.len() && log[i].role != MessageRole::Tool ==> stripped(log)[i] == log[i],
        forall|i: int|
            #![auto]
            0 <= i < log.len() && stripped(log)[i] != log[i] ==> (log[i].role == MessageRole::Tool
                && stripped(log)[i] == blanked(log[i])),
{
}

/// Recovery is idempotent: the second run finds nothing left to blank.
pub proof fn lemma_strip_idempotent(log: Seq<MessageView>)
    ensures
        stripped(stripped(log)) == stripped(log),
{
    assert forall|i: int| 0 <= i < log.len() implies later_non_tool(stripped(log), i)
        == later_non_tool(log, i) by {
        if later_non_tool(log, i) {
            let j = choose|j: int| i < j < log.len() && log[j].role != MessageRole::Tool;
            assert(stripped(log)[j].role != MessageRole::Tool);
        }
        if later_non_tool(stripped(log), i) {
            let j = choose|j: int|
                i < j < stripped(log).len() && stripped(log)[j].role != MessageRole::Tool;
            assert(log[j].role != MessageRole::Tool);
        }
    }
    assert forall|i: int| 0 <= i < log.len() implies stripped(stripped(log))[i] == stripped(
        log,
    )[i] by {
        if log[i].role == MessageRole::Tool && later_non_tool(log, i) {
            assert(stripped(log)[i] == blanked(log[i]));
            assert(blanked(blanked(log[i])) == blanked(log[i]));
        }
    }
    assert(stripped(stripped(log)) =~= stripped(log));
}


/// A tool result always carries content — possibly the empty string,
/// never an absent field — and its correlation id: well-formedness
/// promises it of every tool message in the log, whether freshly
/// appended or blanked by recovery.
pub proof fn lemma_tool_results_have_content(c: &Conversation)
    requires
        c.wf(),
    ensures
        forall|i: int|
            #![auto]
            0 <= i < c@.len() && c@[i].role == MessageRole::Tool ==> (c@[i].content is Some
                && c@[i].tool_call_id is Some),
{
}

} // verus!
