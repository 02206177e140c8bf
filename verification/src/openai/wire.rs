//! The wire encoding of the conversation log.
//!
//! Recovery measures its progress by the serialized size of the log, so
//! the framing is defined here exactly: one JSON object per message with
//! the fields the completion API expects, absent options omitted, except
//! content, which is written as `null` rather than omitted.

use vstd::prelude::*;

use crate::json::{lemma_quoted_min_len, push_quoted, quoted};
use crate::openai::conversation::{
    blanked, lemma_strip_idempotent, lemma_strip_preserves_structure, stripped, Conversation,
};
use crate::openai::schema::{CallView, Message, MessageRole, MessageView, ToolCallRequest};
use crate::text::{chars_to_string, push_str_chars};

verus! {

/// The JSON literal for a role.
pub open spec fn role_literal(r: MessageRole) -> Seq<char> {
    match r {
        MessageRole::System => "\"system\""@,
        MessageRole::User => "\"user\""@,
        MessageRole::Assistant => "\"assistant\""@,
        MessageRole::Tool => "\"tool\""@,
    }
}

/// The encoding of one tool call request.
pub open spec fn enc_call(c: CallView) -> Seq<char> {
    "{\"id\":"@ + quoted(c.id) + ",\"type\":\"function\",\"function\":{\"name\":"@ + quoted(c.name)
        + ",\"arguments\":"@ + quoted(c.arguments) + "}}"@
}

/// The encoding of a tool call batch, comma separated.
pub open spec fn enc_calls(cs: Seq<CallView>) -> Seq<char>
    decreases cs.len(),
{
    if cs.len() == 0 {
        Seq::empty()
    } else if cs.len() == 1 {
        enc_call(cs[0])
    } else {
        enc_call(cs[0]) + ","@ + enc_calls(cs.drop_first())
    }
}

/// A present content is a string literal; an absent one is `null`.
pub open spec fn enc_content(c: Option<Seq<char>>) -> Seq<char> {
    match c {
        Some(s) => quoted(s),
        None => "null"@,
    }
}

/// The encoding of one message.
pub open spec fn enc_message(m: MessageView) -> Seq<char> {
    "{\"role\":"@ + role_literal(m.role) + ",\"content\":"@ + enc_content(m.content) + (match m
        .tool_call_id {
        Some(s) => ",\"tool_call_id\":"@ + quoted(s),
        None => Seq::empty(),
    }) + (match m.tool_calls {
        Some(cs) => ",\"tool_calls\":["@ + enc_calls(cs) + "]"@,
        None => Seq::empty(),
    }) + (match m.refusal {
        Some(s) => ",\"refusal\":"@ + quoted(s),
        None => Seq::empty(),
    }) + "}"@
}

/// The encoding of a message list, comma separated.
pub open spec fn enc_msgs(ms: Seq<MessageView>) -> Seq<char>
    decreases ms.len(),
{
    if ms.len() == 0 {
        Seq::empty()
    } else if ms.len() == 1 {
        enc_message(ms[0])
    } else {
        enc_message(ms[0]) + ","@ + enc_msgs(ms.drop_first())
    }
}

/// The whole log framed as a JSON array.
pub open spec fn enc_log(ms: Seq<MessageView>) -> Seq<char> {
    "["@ + enc_msgs(ms) + "]"@
}

proof fn lemma_enc_calls_snoc(cs: Seq<CallView>, c: CallView)
    ensures
        enc_calls(cs.push(c)) == if cs.len() == 0 {
            enc_call(c)
        } else {
            enc_calls(cs) + ","@ + enc_calls(seq![c])
        },
    decreases cs.len(),
{
    if cs.len() == 0 {
        assert(cs.push(c) =~= seq![c]);
    } else {
        assert(cs.push(c).drop_first() =~= cs.drop_first().push(c));
        lemma_enc_calls_snoc(cs.drop_first(), c);
        assert(enc_calls(cs.push(c)) =~= enc_calls(cs) + ","@ + enc_calls(seq![c]));
    }
}

proof fn lemma_enc_msgs_snoc(ms: Seq<MessageView>, m: MessageView)
    ensures
        enc_msgs(ms.push(m)) == if ms.len() == 0 {
            enc_message(m)
        } else {
            enc_msgs(ms) + ","@ + enc_msgs(seq![m])
        },
    decreases ms.len(),
{
    if ms.len() == 0 {
        assert(ms.push(m) =~= seq![m]);
    } else {
        assert(ms.push(m).drop_first() =~= ms.drop_first().push(m));
        lemma_enc_msgs_snoc(ms.drop_first(), m);
        assert(enc_msgs(ms.push(m)) =~= enc_msgs(ms) + ","@ + enc_msgs(seq![m]));
    }
}

/// Append the encoding of one tool call request.
fn push_call(out: &mut Vec<char>, c: &ToolCallRequest)
    ensures
        final(out)@ == old(out)@ + enc_call(c@),
{
    push_str_chars(out, "{\"id\":");
    push_quoted(out, c.id.as_str());
    push_str_chars(out, ",\"type\":\"function\",\"function\":{\"name\":");
    push_quoted(out, c.function.name.as_str());
    push_str_chars(out, ",\"arguments\":");
    push_quoted(out, c.function.arguments.as_str());
    push_str_chars(out, "}}");
    proof {
        assert(final(out)@ =~= old(out)@ + enc_call(c@));
    }
}

/// Append `,"tool_calls":[` with the whole batch and its closing `]`.
#[verifier::loop_isolation(false)]
fn push_tool_calls(out: &mut Vec<char>, cs: &Vec<ToolCallRequest>)
    ensures
        final(out)@ == old(out)@ + ",\"tool_calls\":["@ + enc_calls(
            cs@.map_values(|c: ToolCallRequest| c@),
        ) + "]"@,
{
    push_str_chars(out, ",\"tool_calls\":[");
    let ghost cv = cs@.map_values(|c: ToolCallRequest| c@);
    let ghost base = out@;
    proof {
        assert(cv.take(0) =~= Seq::<CallView>::empty());
        assert(base + enc_calls(cv.take(0)) =~= base);
    }
    let k = cs.len();
    let mut idx: usize = 0;
    while idx < k
        invariant
            0 <= idx <= k,
            out@ == base + enc_calls(cv.take(idx as int)),
        decreases k - idx,
    {
        if idx > 0 {
            push_str_chars(out, ",");
        }
        push_call(out, &cs[idx]);
        proof {
            assert(cv[idx as int] == cs@[idx as int]@);
            assert(cv.take(idx + 1) =~= cv.take(idx as int).push(cv[idx as int]));
            lemma_enc_calls_snoc(cv.take(idx as int), cv[idx as int]);
            assert(enc_calls(seq![cv[idx as int]]) == enc_call(cv[idx as int]));
            assert(out@ =~= base + enc_calls(cv.take(idx + 1)));
        }
        idx += 1;
    }
    proof {
        assert(cv.take(k as int) =~= cv);
        assert(out@ == base + enc_calls(cv));
    }
    push_str_chars(out, "]");
    proof {
        assert(final(out)@ =~= old(out)@ + ",\"tool_calls\":["@ + enc_calls(cv) + "]"@);
    }
}

/// Append `{"role":<role>,"content":<content>`.
fn push_message_head(out: &mut Vec<char>, m: &Message)
    ensures
        final(out)@ == old(out)@ + "{\"role\":"@ + role_literal(m@.role) + ",\"content\":"@
            + enc_content(m@.content),
{
    push_str_chars(out, "{\"role\":");
    match m.role {
        MessageRole::System => push_str_chars(out, "\"system\""),
        MessageRole::User => push_str_chars(out, "\"user\""),
        MessageRole::Assistant => push_str_chars(out, "\"assistant\""),
        MessageRole::Tool => push_str_chars(out, "\"tool\""),
    }
    push_str_chars(out, ",\"content\":");
    match &m.content {
        Some(s) => push_quoted(out, s.as_str()),
        None => push_str_chars(out, "null"),
    }
    proof {
        assert(final(out)@ =~= old(out)@ + "{\"role\":"@ + role_literal(m@.role)
            + ",\"content\":"@ + enc_content(m@.content));
    }
}

/// Append `,"<key>":<literal for s>`, the form of every optional string
/// field.
fn push_opt_string_field(out: &mut Vec<char>, prefix: &str, s: &str)
    ensures
        final(out)@ == old(out)@ + prefix@ + quoted(s@),
{
    push_str_chars(out, prefix);
    push_quoted(out, s);
}

/// Append the encoding of one message.
#[verifier::rlimit(100)]
#[verifier::spinoff_prover]
fn push_message(out: &mut Vec<char>, m: &Message)
    ensures
        final(out)@ == old(out)@ + enc_message(m@),
{
    push_message_head(out, m);
    let ghost ck1 = old(out)@ + "{\"role\":"@ + role_literal(m@.role) + ",\"content\":"@
        + enc_content(m@.content);
    match &m.tool_call_id {
        Some(s) => push_opt_string_field(out, ",\"tool_call_id\":", s.as_str()),
        None => {},
    }
    let ghost ck2 = ck1 + (match m@.tool_call_id {
        Some(s) => ",\"tool_call_id\":"@ + quoted(s),
        None => Seq::<char>::empty(),
    });
    proof {
        assert(out@ =~= ck2);
    }
    match &m.tool_calls {
        Some(cs) => {
            push_tool_calls(out, cs);
        },
        None => {},
    }
    let ghost ck3 = ck2 + (match m@.tool_calls {
        Some(cs) => ",\"tool_calls\":["@ + enc_calls(cs) + "]"@,
        None => Seq::<char>::empty(),
    });
    proof {
        assert(out@ =~= ck3);
    }
    match &m.refusal {
        Some(s) => push_opt_string_field(out, ",\"refusal\":", s.as_str()),
        None => {},
    }
    let ghost ck4 = ck3 + (match m@.refusal {
        Some(s) => ",\"refusal\":"@ + quoted(s),
        None => Seq::<char>::empty(),
    });
    proof {
        assert(out@ =~= ck4);
    }
    push_str_chars(out, "}");
    proof {
        assert(final(out)@ =~= ck4 + "}"@);
        assert(ck4 + "}"@ =~= old(out)@ + enc_message(m@));
    }
}

/// The encoded log as characters.
#[verifier::loop_isolation(false)]
fn encode_log(c: &Conversation) -> (r: Vec<char>)
    ensures
        r@ == enc_log(c@),
{
    let mut out: Vec<char> = Vec::new();
    push_str_chars(&mut out, "[");
    proof {
        assert(c@.take(0) =~= Seq::<MessageView>::empty());
        assert(seq!['['] + enc_msgs(c@.take(0)) =~= seq!['[']);
        reveal_strlit("[");
        assert("["@ =~= seq!['[']);
    }
    let n = c.messages.len();
    let mut i: usize = 0;
    while i < n
        invariant
            0 <= i <= n,
            n == c@.len(),
            out@ == "["@ + enc_msgs(c@.take(i as int)),
        decreases n - i,
    {
        if i > 0 {
            push_str_chars(&mut out, ",");
        }
        push_message(&mut out, &c.messages[i]);
        proof {
            assert(c@[i as int] == c.messages@[i as int]@);
            assert(c@.take(i + 1) =~= c@.take(i as int).push(c@[i as int]));
            lemma_enc_msgs_snoc(c@.take(i as int), c@[i as int]);
            assert(enc_msgs(seq![c@[i as int]]) == enc_message(c@[i as int]));
            assert(out@ =~= "["@ + enc_msgs(c@.take(i + 1)));
        }
        i += 1;
    }
    push_str_chars(&mut out, "]");
    proof {
        assert(c@.take(n as int) =~= c@);
        assert(out@ =~= enc_log(c@));
    }
    out
}

/// The log's wire encoding.
pub fn serialize_conversation(c: &Conversation) -> (r: String)
    ensures
        r@ == enc_log(c@),
{
    let chars = encode_log(c);
    chars_to_string(&chars)
}

/// The length, in characters, of the log's wire encoding: the measure
/// recovery reports its progress by.
pub fn serialized_size(c: &Conversation) -> (r: usize)
    ensures
        r == enc_log(c@).len(),
{
    let chars = encode_log(c);
    chars.len()
}

/// Blanking a message never lengthens its encoding.
pub proof fn lemma_blanked_not_longer(m: MessageView)
    ensures
        enc_message(blanked(m)).len() <= enc_message(m).len(),
{
    lemma_quoted_min_len(Seq::<char>::empty());
    match m.content {
        Some(s) => {
            lemma_quoted_min_len(s);
        },
        None => {
            reveal_strlit("null");
        },
    }
}

proof fn lemma_enc_msgs_pointwise_le(a: Seq<MessageView>, b: Seq<MessageView>)
    requires
        a.len() == b.len(),
        forall|i: int|
            0 <= i < a.len() ==> #[trigger] enc_message(a[i]).len() <= enc_message(b[i]).len(),
    ensures
        enc_msgs(a).len() <= enc_msgs(b).len(),
    decreases a.len(),
{
    if a.len() > 1 {
        assert forall|i: int| 0 <= i < a.drop_first().len() implies #[trigger] enc_message(
            a.drop_first()[i],
        ).len() <= enc_message(b.drop_first()[i]).len() by {
            assert(a.drop_first()[i] == a[i + 1]);
            assert(b.drop_first()[i] == b[i + 1]);
        }
        lemma_enc_msgs_pointwise_le(a.drop_first(), b.drop_first());
    }
}

/// Recovery never increases the serialized size of the log.
pub proof fn lemma_recovery_never_grows(log: Seq<MessageView>)
    ensures
        enc_log(stripped(log)).len() <= enc_log(log).len(),
{
    lemma_strip_preserves_structure(log);
    assert forall|i: int| 0 <= i < log.len() implies #[trigger] enc_message(
        stripped(log)[i],
    ).len() <= enc_message(log[i]).len() by {
        if stripped(log)[i] != log[i] {
            lemma_blanked_not_longer(log[i]);
        }
    }
    lemma_enc_msgs_pointwise_le(stripped(log), log);
}

/// Recovery is idempotent on an already-stripped log: a second run
/// yields the same serialized size as the first, and no run ever
/// increases the size.
pub proof fn lemma_recovery_size(log: Seq<MessageView>)
    ensures
        enc_log(stripped(stripped(log))).len() == enc_log(stripped(log)).len(),
        enc_log(stripped(log)).len() <= enc_log(log).len(),
{
    lemma_strip_idempotent(log);
    lemma_recovery_never_grows(log);
}

} // verus!
