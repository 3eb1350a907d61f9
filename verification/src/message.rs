//! The conversation model the kernel decides over: who sent a message and
//! what it carries. JSON values are held as their canonical serialized
//! text, which is all the kernel's logic reads of them.

use vstd::prelude::*;

verus! {

/// A message endpoint.
#[derive(Debug, Clone, PartialEq, Eq)]
pub enum Address {
    /// The human user.
    User,
    /// The system.
    System,
    /// An agent instance, by its 128-bit id.
    Agent(u128),
    /// A tool, by name.
    Tool(String),
}

/// What a message carries.
#[derive(Debug, Clone, PartialEq, Eq)]
pub enum MessagePayload {
    /// Plain text.
    Text { content: String },
    /// A tool call; `args` is the JSON text of the arguments.
    ToolCall { args: String },
    /// A tool result; `body` is the JSON text of the result.
    ToolResult { body: String },
    /// A tool error; `details` is the JSON text of the details, if any.
    ToolError { kind: String, message: String, details: Option<String> },
    /// A lifecycle notice, held as its serialized text.
    Lifecycle(String),
    /// A namespaced custom payload.
    Custom { kind: String, body: String },
}

/// One conversation message.
#[derive(Debug, Clone, PartialEq, Eq)]
pub struct Message {
    /// Rendered message id.
    pub id: String,
    /// Creation time, milliseconds since the Unix epoch.
    pub timestamp_millis: i64,
    /// Who sent it.
    pub sender: Address,
    /// Who it is addressed to.
    pub recipient: Address,
    /// What it carries.
    pub payload: MessagePayload,
}

/// A message opens a turn when the user sends text.
pub open spec fn is_turn_start(m: Message) -> bool {
    m.sender is User && m.payload is Text
}

/// Whether `m` opens a turn.
pub fn is_turn_start_exec(m: &Message) -> (r: bool)
    ensures
        r == is_turn_start(*m),
{
    matches!(m.sender, Address::User) && matches!(m.payload, MessagePayload::Text { .. })
}

/// The number of bytes of the UTF-8 encoding of `s`.
pub open spec fn utf8_len(s: Seq<char>) -> nat {
    vstd::utf8::encode_utf8(s).len()
}

/// The UTF-8 length of a concatenation is the sum of the lengths.
pub proof fn lemma_utf8_len_concat(a: Seq<char>, b: Seq<char>)
    ensures
        utf8_len(a + b) == utf8_len(a) + utf8_len(b),
    decreases a.len(),
{
    if a.len() > 0 {
        assert((a + b).drop_first() =~= a.drop_first() + b);
        assert((a + b)[0] == a[0]);
        lemma_utf8_len_concat(a.drop_first(), b);
    } else {
        assert(a + b =~= b);
    }
}

/// The UTF-8 encoding of `s` is no longer than a `usize` can count, as
/// holds of every string held in memory.
pub open spec fn text_fits(s: Seq<char>) -> bool {
    utf8_len(s) <= usize::MAX
}

/// Every string of the payload fits in memory (see [`text_fits`]).
pub open spec fn payload_fits(p: MessagePayload) -> bool {
    match p {
        MessagePayload::Text { content } => text_fits(content@),
        MessagePayload::ToolCall { args } => text_fits(args@),
        MessagePayload::ToolResult { body } => text_fits(body@),
        MessagePayload::ToolError { kind, message, details } => {
            &&& text_fits(kind@)
            &&& text_fits(message@)
            &&& (details matches Some(d) ==> text_fits(d@))
        },
        MessagePayload::Lifecycle(_) => true,
        MessagePayload::Custom { kind, body } => text_fits(kind@) && text_fits(body@),
    }
}

/// Every message of `ms` has a payload that fits in memory.
pub open spec fn messages_fit(ms: Seq<Message>) -> bool {
    forall|i: int| 0 <= i < ms.len() ==> payload_fits(#[trigger] ms[i].payload)
}

/// The UTF-8 byte length of `s` (std `str::len`).
pub fn str_bytes(s: &str) -> (n: usize)
    requires
        text_fits(s@),
    ensures
        n == utf8_len(s@),
{
    s.len()
}

/// A copy of an address.
pub fn clone_address(a: &Address) -> (r: Address)
    ensures
        r == *a,
{
    match a {
        Address::User => Address::User,
        Address::System => Address::System,
        Address::Agent(id) => Address::Agent(*id),
        Address::Tool(name) => Address::Tool(name.clone()),
    }
}

/// A copy of an optional string.
pub fn clone_opt_string(s: &Option<String>) -> (r: Option<String>)
    ensures
        r == *s,
{
    match s {
        Some(x) => Some(x.clone()),
        None => None,
    }
}

/// A copy of a payload.
pub fn clone_payload(p: &MessagePayload) -> (r: MessagePayload)
    ensures
        r == *p,
{
    match p {
        MessagePayload::Text { content } => MessagePayload::Text { content: content.clone() },
        MessagePayload::ToolCall { args } => MessagePayload::ToolCall { args: args.clone() },
        MessagePayload::ToolResult { body } => MessagePayload::ToolResult { body: body.clone() },
        MessagePayload::ToolError { kind, message, details } => MessagePayload::ToolError {
            kind: kind.clone(),
            message: message.clone(),
            details: clone_opt_string(details),
        },
        MessagePayload::Lifecycle(t) => MessagePayload::Lifecycle(t.clone()),
        MessagePayload::Custom { kind, body } => MessagePayload::Custom {
            kind: kind.clone(),
            body: body.clone(),
        },
    }
}

/// A copy of a message.
pub fn clone_message(m: &Message) -> (r: Message)
    ensures
        r == *m,
{
    Message {
        id: m.id.clone(),
        timestamp_millis: m.timestamp_millis,
        sender: clone_address(&m.sender),
        recipient: clone_address(&m.recipient),
        payload: clone_payload(&m.payload),
    }
}

/// A copy of a message list.
pub fn clone_messages(ms: &Vec<Message>) -> (r: Vec<Message>)
    ensures
        r@ == ms@,
{
    let mut out: Vec<Message> = Vec::new();
    let mut i: usize = 0;
    while i < ms.len()
        invariant
            i <= ms@.len(),
            out@ == ms@.subrange(0, i as int),
        decreases ms@.len() - i,
    {
        out.push(clone_message(&ms[i]));
        i = i + 1;
        assert(out@ =~= ms@.subrange(0, i as int));
    }
    assert(ms@.subrange(0, ms@.len() as int) =~= ms@);
    out
}

} // verus!
