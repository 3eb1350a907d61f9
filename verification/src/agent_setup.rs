//! What running one workflow agent through the agent loop is set up
//! with: the tools it may call, its system prompt, its turn limit and the
//! split of its initial messages into history and the message that opens
//! the run.

use vstd::prelude::*;

use crate::error::{build_error_text, BuildError, RuntimeError};
use crate::message::{Address, Message, MessagePayload};
use crate::pipeline::{find_key, lemma_lookup_absent, lemma_lookup_first, lookup};
use crate::text::{debug_str, str_debug};

verus! {

/// The turn limit of an agent whose budget sets none.
pub open spec fn default_max_turns() -> u32 {
    16
}

/// The turn limit an agent runs under: its budget's, else 16.
pub fn agent_max_turns(budget_max_turns: Option<u32>) -> (n: u32)
    ensures
        n == match budget_max_turns {
            Some(m) => m,
            None => default_max_turns(),
        },
{
    match budget_max_turns {
        Some(m) => m,
        None => 16,
    }
}

/// The message of an agent referencing a tool the module lacks.
pub open spec fn missing_tool_text(agent_id: Seq<char>, tool_id: Seq<char>) -> Seq<char> {
    "agent "@ + str_debug(agent_id) + " references tool "@ + str_debug(tool_id)
        + " not in workflow.tools"@
}

/// `bindings` pairs each tool ref with the name of the module tool it
/// refers to (`tools` maps tool ids to tool names).
pub open spec fn bound(
    refs: Seq<String>,
    tools: Seq<(String, String)>,
    bindings: Seq<(String, String)>,
) -> bool {
    &&& bindings.len() == refs.len()
    &&& forall|i: int|
        0 <= i < refs.len() ==> (lookup(tools, (#[trigger] refs[i])@) matches Some(n) && bindings[i].0@
            == n@ && bindings[i].1@ == refs[i]@)
}

/// The tools an agent is run with: for each of its tool refs in order,
/// the name of the module's tool of that id and the id. A ref to a tool
/// the module does not hold is an internal error naming the first such
/// ref.
pub fn agent_tool_bindings(agent_id: &str, tool_refs: &Vec<String>, tools: &Vec<(String, String)>) -> (r:
    Result<Vec<(String, String)>, RuntimeError>)
    ensures
        (forall|i: int| 0 <= i < tool_refs@.len() ==> lookup(tools@, (#[trigger] tool_refs@[i])@) is Some)
            <==> r is Ok,
        r matches Ok(b) ==> bound(tool_refs@, tools@, b@),
        r matches Err(e) ==> exists|k: int|
            0 <= k < tool_refs@.len() && lookup(tools@, tool_refs@[k]@) is None && (forall|i: int|
                0 <= i < k ==> lookup(tools@, (#[trigger] tool_refs@[i])@) is Some) && (e
                matches RuntimeError::Internal { message } && message@ == missing_tool_text(
                agent_id@,
                tool_refs@[k]@,
            )),
{
    let mut out: Vec<(String, String)> = Vec::new();
    let mut i: usize = 0;
    while i < tool_refs.len()
        invariant
            i <= tool_refs@.len(),
            out@.len() == i,
            forall|j: int|
                0 <= j < i ==> (lookup(tools@, (#[trigger] tool_refs@[j])@) matches Some(n) && out@[j].0@
                    == n@ && out@[j].1@ == tool_refs@[j]@),
        decreases tool_refs@.len() - i,
    {
        match find_key(tools, tool_refs[i].as_str()) {
            Some(p) => {
                proof {
                    lemma_lookup_first(tools@, p as int, tool_refs@[i as int]@);
                }
                out.push((tools[p].1.clone(), tool_refs[i].clone()));
            },
            None => {
                proof {
                    lemma_lookup_absent(tools@, tool_refs@[i as int]@);
                }
                let mut m = String::from_str("agent ");
                let a = debug_str(agent_id);
                m.append(a.as_str());
                m.append(" references tool ");
                let t = debug_str(tool_refs[i].as_str());
                m.append(t.as_str());
                m.append(" not in workflow.tools");
                let e = RuntimeError::Internal { message: m };
                proof {
                    assert(0 <= i < tool_refs@.len() && lookup(tools@, tool_refs@[i as int]@) is None);
                    assert(e matches RuntimeError::Internal { message } && message@ == missing_tool_text(
                        agent_id@,
                        tool_refs@[i as int]@,
                    ));
                }
                return Err(e);
            },
        }
        i = i + 1;
    }
    Ok(out)
}

/// Where an agent's system prompt comes from.
#[derive(Debug)]
pub enum PromptSource {
    /// The literal prompt text.
    Inline(String),
    /// An asset of the bundle's asset store, by its id.
    Asset(String),
}

/// Whether `b` is valid UTF-8, and the text it encodes
/// (`String::from_utf8`).
#[verifier::external_body]
fn utf8_text(b: Vec<u8>) -> (r: Option<String>)
    ensures
        r is Some <==> vstd::utf8::valid_utf8(b@),
        r matches Some(s) ==> s@ == vstd::utf8::decode_utf8(b@),
{
    String::from_utf8(b).ok()
}

/// The prompt an agent runs with, or why it cannot be had. An inline
/// prompt is its text. An asset prompt is read from the host's asset
/// store (`None` when the host supplied none): a missing store, a missing
/// asset and bytes that are not UTF-8 are internal errors naming the agent
/// and the asset.
pub open spec fn prompt_result(
    agent_id: Seq<char>,
    prompt: PromptSource,
    store: Option<Seq<(String, Vec<u8>)>>,
    r: Result<String, RuntimeError>,
) -> bool {
    match prompt {
        PromptSource::Inline(s) => r matches Ok(t) && t@ == s@,
        PromptSource::Asset(a) => match store {
            None => r matches Err(RuntimeError::Internal { message }) && message@ == "agent "@
                + str_debug(agent_id) + ": prompt references asset "@ + str_debug(a@)
                + " but the host supplied no asset store"@,
            Some(st) => match lookup(st, a@) {
                None => r matches Err(RuntimeError::Internal { message }) && message@ == "agent "@
                    + str_debug(agent_id) + ": prompt asset "@ + str_debug(a@)
                    + " not found in the bundle asset store"@,
                Some(bytes) => if vstd::utf8::valid_utf8(bytes@) {
                    r matches Ok(t) && t@ == vstd::utf8::decode_utf8(bytes@)
                } else {
                    r matches Err(RuntimeError::Internal { message }) && message@ == "agent "@
                        + str_debug(agent_id) + ": prompt asset "@ + str_debug(a@)
                        + " is not valid UTF-8"@
                },
            },
        },
    }
}

fn asset_error(agent_id: &str, asset: &str, middle: &str, tail: &str) -> (e: RuntimeError)
    ensures
        e matches RuntimeError::Internal { message } && message@ == "agent "@ + str_debug(agent_id@)
            + middle@ + str_debug(asset@) + tail@,
{
    let mut m = String::from_str("agent ");
    let a = debug_str(agent_id);
    m.append(a.as_str());
    m.append(middle);
    let d = debug_str(asset);
    m.append(d.as_str());
    m.append(tail);
    RuntimeError::Internal { message: m }
}

/// Resolves an agent's system prompt (see [`prompt_result`]); `store`
/// holds the bundle's assets by id.
pub fn agent_system_prompt(
    agent_id: &str,
    prompt: &PromptSource,
    store: Option<&Vec<(String, Vec<u8>)>>,
) -> (r: Result<String, RuntimeError>)
    ensures
        prompt_result(
            agent_id@,
            *prompt,
            match store {
                Some(s) => Some(s@),
                None => None,
            },
            r,
        ),
{
    match prompt {
        PromptSource::Inline(s) => Ok(s.clone()),
        PromptSource::Asset(a) => match store {
            None => Err(
                asset_error(
                    agent_id,
                    a.as_str(),
                    ": prompt references asset ",
                    " but the host supplied no asset store",
                ),
            ),
            Some(st) => match find_key(st, a.as_str()) {
                None => {
                    proof {
                        lemma_lookup_absent(st@, a@);
                    }
                    Err(
                        asset_error(
                            agent_id,
                            a.as_str(),
                            ": prompt asset ",
                            " not found in the bundle asset store",
                        ),
                    )
                },
                Some(p) => {
                    proof {
                        lemma_lookup_first(st@, p as int, a@);
                    }
                    match utf8_text(st[p].1.clone()) {
                        Some(t) => Ok(t),
                        None => Err(
                            asset_error(agent_id, a.as_str(), ": prompt asset ", " is not valid UTF-8"),
                        ),
                    }
                },
            },
        },
    }
}

/// The error of a runtime that would not build for an agent.
pub fn runtime_build_failed(agent_id: &str, e: &BuildError) -> (r: RuntimeError)
    ensures
        r matches RuntimeError::Internal { message } && message@
            == "failed to build Runtime for IR agent "@ + str_debug(agent_id@) + ": "@
            + build_error_text(*e),
{
    let mut m = String::from_str("failed to build Runtime for IR agent ");
    let a = debug_str(agent_id);
    m.append(a.as_str());
    m.append(": ");
    let t = e.to_string();
    m.append(t.as_str());
    RuntimeError::Internal { message: m }
}

/// Splits the initial messages into the history and the last message,
/// which opens the run; `None` when there are none.
pub fn split_history(messages: Vec<Message>) -> (r: Option<(Vec<Message>, Message)>)
    ensures
        r is None <==> messages@.len() == 0,
        r matches Some((h, last)) ==> h@ == messages@.drop_last() && last == messages@.last(),
{
    let mut messages = messages;
    if messages.len() == 0 {
        return None;
    }
    let last = messages.pop().unwrap();
    Some((messages, last))
}

/// The message a run opens with when it was given none: empty user text
/// addressed to the system.
pub fn placeholder_message(id: String, timestamp_millis: i64) -> (m: Message)
    ensures
        m.id == id,
        m.timestamp_millis == timestamp_millis,
        m.sender is User,
        m.recipient is System,
        m.payload matches MessagePayload::Text { content } && content@.len() == 0,
{
    Message {
        id,
        timestamp_millis,
        sender: Address::User,
        recipient: Address::System,
        payload: MessagePayload::Text { content: String::new() },
    }
}

/// A user text message opening a pipeline step or a judge run,
/// addressed to the agent instance `agent`.
pub fn user_message(id: String, timestamp_millis: i64, agent: u128, content: &str) -> (m: Message)
    ensures
        m.id == id,
        m.timestamp_millis == timestamp_millis,
        m.sender is User,
        m.recipient == Address::Agent(agent),
        m.payload matches MessagePayload::Text { content: c } && c@ == content@,
{
    Message {
        id,
        timestamp_millis,
        sender: Address::User,
        recipient: Address::Agent(agent),
        payload: MessagePayload::Text { content: String::from_str(content) },
    }
}

} // verus!
