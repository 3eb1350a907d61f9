//! The projection of the kernel's conversation onto the shape an LLM
//! provider is called with, and the reading of a tool's content blocks.
//! JSON values are held as their canonical serialized text.

use vstd::prelude::*;

use crate::agent_run::ToolUse;
use crate::context::{json_quote, json_string_literal};
use crate::message::{Address, Message, MessagePayload};
use crate::text::concat2;

verus! {

/// One block of a provider message.
#[derive(Debug)]
pub enum ContentBlock {
    /// Plain text.
    Text(String),
    /// A tool call of the assistant.
    ToolUse(ToolUse),
}

/// A message in the shape a provider is called with.
#[derive(Debug)]
pub enum ProviderMessage {
    /// A user turn.
    User { content: Vec<ContentBlock> },
    /// An assistant turn.
    Assistant { content: Vec<ContentBlock> },
    /// The result of the tool call `tool_use_id`.
    ToolResult { tool_use_id: String, content: Vec<ContentBlock>, is_error: bool },
}

/// One block of a tool's output.
#[derive(Debug)]
pub enum ToolContent {
    /// Plain text.
    Text { text: String },
    /// A JSON value, as its serialized text.
    Json { data: String },
    /// Any other block (an image, a resource); neither flattened nor
    /// valued.
    Other { kind: String },
}

/// The string a JSON text denotes, when it is a JSON string
/// (`serde_json::from_str::<String>`).
pub uninterp spec fn json_string_value(text: Seq<char>) -> Option<Seq<char>>;

/// The view of an optional string.
pub open spec fn opt_view(o: Option<String>) -> Option<Seq<char>> {
    match o {
        Some(s) => Some(s@),
        None => None,
    }
}

/// A character that may stand unescaped inside a JSON string.
pub open spec fn json_unescaped_char(c: char) -> bool {
    c >= ' ' && c != '"' && c != '\\'
}

/// Decodes a JSON text that holds a string (`serde_json::from_str` into
/// `String`). Stated: the result is the named decoding; a string literal
/// whose inner characters need no escape decodes to those characters; a
/// text whose first character is neither `"` nor whitespace is no string.
#[verifier::external_body]
fn decode_json_string(text: &str) -> (r: Option<String>)
    ensures
        opt_view(r) == json_string_value(text@),
        (text@.len() >= 2 && text@[0] == '"' && text@.last() == '"' && forall|i: int|
            1 <= i < text@.len() - 1 ==> json_unescaped_char(#[trigger] text@[i])) ==> opt_view(r)
            == Some(text@.subrange(1, text@.len() - 1)),
        (text@.len() > 0 && text@[0] != '"' && text@[0] != ' ' && text@[0] != '\t' && text@[0]
            != '\n' && text@[0] != '\r') ==> r is None,
{
    serde_json::from_str::<String>(text).ok()
}

/// The compact preview of a JSON value: a string's own text, any other
/// value's JSON text.
pub open spec fn preview(v: Seq<char>) -> Seq<char> {
    match json_string_value(v) {
        Some(s) => s,
        None => v,
    }
}

/// Previews the JSON value `v` (see [`preview`]).
pub fn value_to_preview_string(v: &str) -> (s: String)
    ensures
        s@ == preview(v@),
{
    match decode_json_string(v) {
        Some(s) => s,
        None => String::from_str(v),
    }
}

/// `prev` and `t` joined by a line break, or `t` alone after nothing.
pub open spec fn join_line(prev: Seq<char>, t: Seq<char>) -> Seq<char> {
    if prev.len() == 0 {
        t
    } else {
        prev + "\n"@ + t
    }
}

/// The text of a tool's blocks: each text block and each JSON block's
/// preview, one per line; other blocks are skipped.
pub open spec fn flattened(blocks: Seq<ToolContent>) -> Seq<char>
    decreases blocks.len(),
{
    if blocks.len() == 0 {
        seq![]
    } else {
        let prev = flattened(blocks.drop_last());
        match blocks.last() {
            ToolContent::Text { text } => join_line(prev, text@),
            ToolContent::Json { data } => join_line(prev, preview(data@)),
            ToolContent::Other { .. } => prev,
        }
    }
}

/// Flattens a tool's content blocks into one readable string (see
/// [`flattened`]).
pub fn flatten_content_to_string(blocks: &[ToolContent]) -> (s: String)
    ensures
        s@ == flattened(blocks@),
{
    let mut out = String::new();
    let mut i: usize = 0;
    while i < blocks.len()
        invariant
            i <= blocks@.len(),
            out@ == flattened(blocks@.take(i as int)),
        decreases blocks@.len() - i,
    {
        assert(blocks@.take(i + 1).drop_last() =~= blocks@.take(i as int));
        assert(blocks@.take(i + 1).last() == blocks@[i as int]);
        match &blocks[i] {
            ToolContent::Text { text } => {
                if !out.as_str().is_empty() {
                    out.append("\n");
                }
                out.append(text.as_str());
            },
            ToolContent::Json { data } => {
                if !out.as_str().is_empty() {
                    out.append("\n");
                }
                let p = value_to_preview_string(data.as_str());
                out.append(p.as_str());
            },
            ToolContent::Other { .. } => {},
        }
        proof {
            let prev = flattened(blocks@.take(i as int));
            if prev.len() == 0 {
                assert(out@ =~= flattened(blocks@.take(i + 1)));
            } else {
                assert(out@ =~= flattened(blocks@.take(i + 1)));
            }
        }
        i = i + 1;
    }
    assert(blocks@.take(blocks@.len() as int) =~= blocks@);
    out
}

/// The JSON text one block contributes to the `content` array: a text
/// block as a JSON string, a JSON block as itself, any other as `null`.
pub open spec fn block_value(b: ToolContent) -> Seq<char> {
    match b {
        ToolContent::Text { text } => json_string_literal(text@),
        ToolContent::Json { data } => data@,
        ToolContent::Other { .. } => "null"@,
    }
}

/// The block values of `blocks`, separated by commas.
pub open spec fn block_values(blocks: Seq<ToolContent>) -> Seq<char>
    decreases blocks.len(),
{
    if blocks.len() == 0 {
        seq![]
    } else if blocks.len() == 1 {
        block_value(blocks[0])
    } else {
        block_values(blocks.drop_last()) + ","@ + block_value(blocks.last())
    }
}

/// The value of a tool's output: a lone JSON block is that value; any
/// other output is `{"content":[..]}` over its blocks.
pub open spec fn content_value(blocks: Seq<ToolContent>) -> Seq<char> {
    if blocks.len() == 1 && blocks[0] is Json {
        block_value(blocks[0])
    } else {
        "{\"content\":["@ + block_values(blocks) + "]}"@
    }
}

/// The JSON text of one block's value.
fn block_value_text(b: &ToolContent) -> (s: String)
    ensures
        s@ == block_value(*b),
{
    match b {
        ToolContent::Text { text } => json_quote(text.as_str()),
        ToolContent::Json { data } => data.clone(),
        ToolContent::Other { .. } => String::from_str("null"),
    }
}

/// Builds the value of a tool's output, as compact JSON text (see
/// [`content_value`]).
pub fn content_to_value(blocks: &[ToolContent]) -> (v: String)
    ensures
        v@ == content_value(blocks@),
{
    if blocks.len() == 1 {
        if let ToolContent::Json { data } = &blocks[0] {
            return data.clone();
        }
    }
    let mut out = String::from_str("{\"content\":[");
    let mut i: usize = 0;
    while i < blocks.len()
        invariant
            i <= blocks@.len(),
            out@ == "{\"content\":["@ + block_values(blocks@.take(i as int)),
        decreases blocks@.len() - i,
    {
        assert(blocks@.take(i + 1).drop_last() =~= blocks@.take(i as int));
        assert(blocks@.take(i + 1).last() == blocks@[i as int]);
        if i > 0 {
            out.append(",");
        }
        let t = block_value_text(&blocks[i]);
        out.append(t.as_str());
        assert(out@ =~= "{\"content\":["@ + block_values(blocks@.take(i + 1)));
        i = i + 1;
    }
    assert(blocks@.take(blocks@.len() as int) =~= blocks@);
    out.append("]}");
    out
}

/// The payload of the message recording a tool's result: an error result
/// becomes a tool error of kind `error_kind` whose message is the
/// flattened content; a successful one a tool result whose body is the
/// content's value.
pub fn tool_result_payload(is_error: bool, content: &[ToolContent], error_kind: &str) -> (p: MessagePayload)
    ensures
        is_error ==> (p matches MessagePayload::ToolError { kind, message, details } && kind@
            == error_kind@ && message@ == flattened(content@) && details is None),
        !is_error ==> (p matches MessagePayload::ToolResult { body } && body@ == content_value(
            content@,
        )),
{
    if is_error {
        MessagePayload::ToolError {
            kind: String::from_str(error_kind),
            message: flatten_content_to_string(content),
            details: None,
        }
    } else {
        MessagePayload::ToolResult { body: content_to_value(content) }
    }
}

/// The id a tool call and its result are linked by: `toolu_` and the
/// message id.
pub open spec fn tool_use_id(m: Message) -> Seq<char> {
    "toolu_"@ + m.id@
}

/// The tool a message is addressed to (empty when it is not a tool).
pub open spec fn recipient_tool(a: Address) -> Seq<char> {
    match a {
        Address::Tool(name) => name@,
        _ => seq![],
    }
}

/// `c` is the single text block `t`.
pub open spec fn single_text(c: Seq<ContentBlock>, t: Seq<char>) -> bool {
    c.len() == 1 && (c[0] matches ContentBlock::Text(x) && x@ == t)
}

/// A message has a provider counterpart: user text, agent text, an agent's
/// tool call, a tool's result or a tool's error. Everything else
/// (system messages, lifecycle notices, custom payloads) is dropped.
pub open spec fn projects(m: Message) -> bool {
    match m.sender {
        Address::User => m.payload is Text,
        Address::Agent(_) => m.payload is Text || m.payload is ToolCall,
        Address::Tool(_) => m.payload is ToolResult || m.payload is ToolError,
        Address::System => false,
    }
}

/// `p` is the provider counterpart of `m`.
pub open spec fn projects_to(m: Message, p: ProviderMessage) -> bool {
    match m.sender {
        Address::User => match m.payload {
            MessagePayload::Text { content } => p matches ProviderMessage::User { content: c }
                && single_text(c@, content@),
            _ => false,
        },
        Address::Agent(_) => match m.payload {
            MessagePayload::Text { content } => p matches ProviderMessage::Assistant { content: c }
                && single_text(c@, content@),
            MessagePayload::ToolCall { args } => p matches ProviderMessage::Assistant { content: c }
                && (c@.len() == 1 && (c@[0] matches ContentBlock::ToolUse(u) && u.id@ == tool_use_id(m)
                && u.name@ == recipient_tool(m.recipient) && u.input@ == args@)),
            _ => false,
        },
        Address::Tool(_) => match m.payload {
            MessagePayload::ToolResult { body } => p matches ProviderMessage::ToolResult {
                tool_use_id: id,
                content: c,
                is_error,
            } && id@ == tool_use_id(m) && single_text(c@, preview(body@)) && !is_error,
            MessagePayload::ToolError { message, .. } => p matches ProviderMessage::ToolResult {
                tool_use_id: id,
                content: c,
                is_error,
            } && id@ == tool_use_id(m) && single_text(c@, message@) && is_error,
            _ => false,
        },
        Address::System => false,
    }
}

/// `out` is the projection of `history`: the counterparts of the
/// messages that have one, in order.
pub open spec fn projected(history: Seq<Message>, out: Seq<ProviderMessage>) -> bool
    decreases history.len(),
{
    if history.len() == 0 {
        out.len() == 0
    } else if projects(history.last()) {
        out.len() > 0 && projects_to(history.last(), out.last()) && projected(
            history.drop_last(),
            out.drop_last(),
        )
    } else {
        projected(history.drop_last(), out)
    }
}

/// A block holding `t` alone.
fn text_block(t: String) -> (c: Vec<ContentBlock>)
    ensures
        single_text(c@, t@),
{
    let mut c: Vec<ContentBlock> = Vec::new();
    c.push(ContentBlock::Text(t));
    c
}

/// The provider counterpart of one message, if it has one.
fn project_message(m: &Message) -> (r: Option<ProviderMessage>)
    ensures
        r is Some <==> projects(*m),
        r matches Some(p) ==> projects_to(*m, p),
{
    match &m.sender {
        Address::User => match &m.payload {
            MessagePayload::Text { content } => Some(
                ProviderMessage::User { content: text_block(content.clone()) },
            ),
            _ => None,
        },
        Address::Agent(_) => match &m.payload {
            MessagePayload::Text { content } => Some(
                ProviderMessage::Assistant { content: text_block(content.clone()) },
            ),
            MessagePayload::ToolCall { args } => {
                let name = match &m.recipient {
                    Address::Tool(n) => n.clone(),
                    _ => String::new(),
                };
                let u = ToolUse { id: concat2("toolu_", m.id.as_str()), name, input: args.clone() };
                let mut c: Vec<ContentBlock> = Vec::new();
                c.push(ContentBlock::ToolUse(u));
                Some(ProviderMessage::Assistant { content: c })
            },
            _ => None,
        },
        Address::Tool(_) => match &m.payload {
            MessagePayload::ToolResult { body } => Some(
                ProviderMessage::ToolResult {
                    tool_use_id: concat2("toolu_", m.id.as_str()),
                    content: text_block(value_to_preview_string(body.as_str())),
                    is_error: false,
                },
            ),
            MessagePayload::ToolError { message, .. } => Some(
                ProviderMessage::ToolResult {
                    tool_use_id: concat2("toolu_", m.id.as_str()),
                    content: text_block(message.clone()),
                    is_error: true,
                },
            ),
            _ => None,
        },
        Address::System => None,
    }
}

/// Projects the agent's history onto the provider call shape (see
/// [`projected`]): user text becomes a user turn, agent text and tool
/// calls assistant turns, tool results and errors tool-result turns
/// linked by `toolu_<message id>`.
pub fn agent_messages_to_provider_messages(history: &[Message]) -> (out: Vec<ProviderMessage>)
    ensures
        projected(history@, out@),
{
    let mut out: Vec<ProviderMessage> = Vec::new();
    let mut i: usize = 0;
    while i < history.len()
        invariant
            i <= history@.len(),
            projected(history@.take(i as int), out@),
        decreases history@.len() - i,
    {
        let ghost before = out@;
        assert(history@.take(i + 1).drop_last() =~= history@.take(i as int));
        assert(history@.take(i + 1).last() == history@[i as int]);
        match project_message(&history[i]) {
            Some(p) => {
                out.push(p);
                assert(out@.drop_last() =~= before);
            },
            None => {},
        }
        i = i + 1;
    }
    assert(history@.take(history@.len() as int) =~= history@);
    out
}

} // verus!
