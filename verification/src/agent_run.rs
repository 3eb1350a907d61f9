//! The decisions of the agent loop, apart from the I/O that drives it.
//!
//! The loop itself (LLM streaming, tool sessions, checkpoints, clocks)
//! runs outside; it keeps an [`AgentRun`] and asks it at each step what
//! to do next: whether another turn may start, what the history and the
//! token totals become, and how the run ends. The conversation history
//! only ever grows.

use vstd::prelude::*;

use crate::error::{denial_text, tool_error_text, CapabilityDenial, RuntimeError, ToolError};
use crate::message::{clone_messages, Address, Message, MessagePayload};
use crate::options::{sat_add, TokenUsage};
use crate::outcome::{AgentStatus, FailureKind, RunOutcome};
use crate::text::{concat2, debug_str, decimal, str_debug, str_eq, u64_to_decimal};

verus! {

/// Why the LLM stopped a turn's inference.
#[derive(Debug, Clone, Copy, PartialEq, Eq, Structural)]
pub enum StopReason {
    /// The model finished its answer.
    EndTurn,
    /// The model asked for tools.
    ToolUse,
    /// The output token limit was hit.
    MaxTokens,
    /// A stop sequence was produced.
    StopSequence,
}

/// Token usage the backend reports for one turn.
#[derive(Debug, Clone, Copy, PartialEq, Eq, Structural)]
pub struct TurnUsage {
    /// Input tokens of the turn.
    pub input_tokens: u32,
    /// Output tokens of the turn.
    pub output_tokens: u32,
}

/// A tool call the model emitted; `input` is the JSON text of its args.
#[derive(Debug)]
pub struct ToolUse {
    /// Provider-supplied id.
    pub id: String,
    /// Tool name.
    pub name: String,
    /// Arguments, as JSON text.
    pub input: String,
}

/// A committed checkpoint of a durable agent: the history and token
/// totals after `turn`, and the tools of that turn not yet run.
#[derive(Debug)]
pub struct Checkpoint {
    /// The last committed turn.
    pub turn: u32,
    /// Committed history.
    pub history: Vec<Message>,
    /// Input tokens so far.
    pub input_tokens: u64,
    /// Output tokens so far.
    pub output_tokens: u64,
    /// Tools of `turn` still to run (empty at a turn boundary).
    pub pending_tool_uses: Vec<ToolUse>,
}

/// The state the agent loop threads through its turns.
#[derive(Debug)]
pub struct AgentRun {
    /// The full conversation so far.
    pub messages: Vec<Message>,
    /// Turns started so far (1-indexed once the first turn starts).
    pub total_turns: u32,
    /// Token usage summed over the run.
    pub token_usage: TokenUsage,
    /// The turn limit.
    pub max_turns: u32,
    /// Tools carried over from a mid-turn checkpoint, run before the
    /// next LLM call.
    pub resume_pending: Vec<ToolUse>,
    /// Where the loop stands (see [`agent_loop_step`]).
    pub phase: LoopPhase,
    /// Who runs the loop, set by the first event.
    pub ctx: Option<LoopContext>,
    /// The tool calls of the current turn, in the order the model made
    /// them.
    pub turn_tools: Vec<ToolUse>,
    /// How many of them have been announced (`ToolCallStarted`).
    pub announced: usize,
    /// How many of them have been dispatched to completion.
    pub next_tool: usize,
    /// The assistant text of the current turn so far.
    pub turn_text: String,
    /// The stop reason the current turn's inference reported.
    pub turn_stop: Option<StopReason>,
    /// The usage the current turn's inference reported.
    pub turn_usage: Option<TurnUsage>,
}

/// `a - b`, floored at 0.
pub open spec fn sat_sub_u32(a: u32, b: u32) -> u32 {
    if a >= b {
        (a - b) as u32
    } else {
        0
    }
}

/// Where a resumed run re-enters: at the checkpoint's turn, or one
/// below it when that turn still has tools to run (the first turn then
/// re-runs the same turn number).
pub open spec fn resume_turn(c: Checkpoint) -> u32 {
    if c.pending_tool_uses@.len() == 0 {
        c.turn
    } else {
        sat_sub_u32(c.turn, 1)
    }
}

/// The history `a` is a prefix of `b`.
pub open spec fn extends(a: Seq<Message>, b: Seq<Message>) -> bool {
    a.len() <= b.len() && b.take(a.len() as int) == a
}

/// The run totals after a turn reporting `usage`.
pub open spec fn absorb_usage(t: TokenUsage, usage: Option<TurnUsage>) -> TokenUsage {
    match usage {
        Some(u) => TokenUsage {
            input_tokens: sat_add(t.input_tokens, u.input_tokens as u64),
            output_tokens: sat_add(t.output_tokens, u.output_tokens as u64),
            total_tokens: t.total_tokens,
        },
        None => t,
    }
}

/// The assistant message holding a turn's text, sent by agent `agent`
/// to the user.
pub open spec fn assistant_message(
    m: Message,
    id: Seq<char>,
    timestamp: i64,
    agent: u128,
    text: Seq<char>,
) -> bool {
    &&& m.id@ == id
    &&& m.timestamp_millis == timestamp
    &&& m.sender == Address::Agent(agent)
    &&& m.recipient == Address::User
    &&& m.payload matches MessagePayload::Text { content } && content@ == text
}

/// The detail of a max-turns failure: `max_turns (N) reached`.
pub open spec fn max_turns_detail(max_turns: u32) -> Seq<char> {
    "max_turns ("@ + decimal(max_turns as nat) + ") reached"@
}

/// The detail of a budget failure: `run budget exceeded: <err>`.
pub open spec fn budget_detail(err: Seq<char>) -> Seq<char> {
    "run budget exceeded: "@ + err
}

/// `c` commits `run` after its current turn, with `pending` still to run.
pub open spec fn checkpoint_of(run: AgentRun, pending: Seq<ToolUse>, c: Checkpoint) -> bool {
    &&& c.turn == run.total_turns
    &&& c.history@ == run.messages@
    &&& c.input_tokens == run.token_usage.input_tokens
    &&& c.output_tokens == run.token_usage.output_tokens
    &&& c.pending_tool_uses@ == pending
}

/// `r` is the run [`AgentRun::start`] seeds from checkpoint `c` under the
/// turn limit `max_turns`.
pub open spec fn resumed_from(c: Checkpoint, max_turns: u32, r: AgentRun) -> bool {
    &&& r.max_turns == max_turns
    &&& r.messages@ == c.history@
    &&& r.total_turns == resume_turn(c)
    &&& r.token_usage == TokenUsage {
        input_tokens: c.input_tokens,
        output_tokens: c.output_tokens,
        total_tokens: None,
    }
    &&& r.resume_pending@ == c.pending_tool_uses@
}

/// Resuming from a checkpoint continues the run where it was committed:
/// the history and the token totals come back as they were (committed
/// turns are not billed again); at a turn boundary the next turn begun is
/// the one after the committed turn, and mid-turn the committed turn is
/// re-entered with exactly the tools it had not yet run.
pub proof fn law_resume_continues_checkpointed_run(
    run: AgentRun,
    pending: Seq<ToolUse>,
    c: Checkpoint,
    r: AgentRun,
)
    requires
        checkpoint_of(run, pending, c),
        resumed_from(c, run.max_turns, r),
    ensures
        r.messages@ == run.messages@,
        r.token_usage.input_tokens == run.token_usage.input_tokens,
        r.token_usage.output_tokens == run.token_usage.output_tokens,
        r.max_turns == run.max_turns,
        pending.len() == 0 ==> r.total_turns == run.total_turns,
        pending.len() > 0 && run.total_turns > 0 ==> r.total_turns + 1 == run.total_turns,
        r.resume_pending@ == pending,
{
}

impl AgentRun {
    /// Seeds a run. A fresh run extends `history` with the initial
    /// message at turn 0 and zero tokens; a resumed run takes the
    /// checkpoint's history, token totals and pending tools, and
    /// re-enters at [`resume_turn`], so committed turns are not billed
    /// again.
    pub fn start(
        history: Vec<Message>,
        initial_message: Message,
        max_turns: u32,
        resume: Option<Checkpoint>,
    ) -> (r: Self)
        ensures
            (resume matches Some(c) ==> c.history@.len() > 0) ==> r.wf(),
            r.max_turns == max_turns,
            r.phase == LoopPhase::Start,
            r.ctx is None,
            r.turn_tools@.len() == 0,
            r.announced == 0,
            r.next_tool == 0,
            match resume {
                Some(c) => {
                    &&& r.messages@ == c.history@
                    &&& r.total_turns == resume_turn(c)
                    &&& r.token_usage == TokenUsage {
                        input_tokens: c.input_tokens,
                        output_tokens: c.output_tokens,
                        total_tokens: None,
                    }
                    &&& r.resume_pending@ == c.pending_tool_uses@
                },
                None => {
                    &&& r.messages@ == history@.push(initial_message)
                    &&& r.total_turns == 0
                    &&& r.token_usage == TokenUsage {
                        input_tokens: 0,
                        output_tokens: 0,
                        total_tokens: None,
                    }
                    &&& r.resume_pending@.len() == 0
                },
            },
    {
        match resume {
            Some(c) => {
                let seed_turn = if c.pending_tool_uses.len() == 0 {
                    c.turn
                } else {
                    c.turn.saturating_sub(1)
                };
                AgentRun {
                    messages: c.history,
                    total_turns: seed_turn,
                    token_usage: TokenUsage {
                        input_tokens: c.input_tokens,
                        output_tokens: c.output_tokens,
                        total_tokens: None,
                    },
                    max_turns,
                    resume_pending: c.pending_tool_uses,
                    phase: LoopPhase::Start,
                    ctx: None,
                    turn_tools: Vec::new(),
                    announced: 0,
                    next_tool: 0,
                    turn_text: String::new(),
                    turn_stop: None,
                    turn_usage: None,
                }
            },
            None => {
                let mut messages = history;
                messages.push(initial_message);
                AgentRun {
                    messages,
                    total_turns: 0,
                    token_usage: TokenUsage::default(),
                    max_turns,
                    resume_pending: Vec::new(),
                    phase: LoopPhase::Start,
                    ctx: None,
                    turn_tools: Vec::new(),
                    announced: 0,
                    next_tool: 0,
                    turn_text: String::new(),
                    turn_stop: None,
                    turn_usage: None,
                }
            },
        }
    }

    /// Whether another turn may start: fewer turns than the limit so far.
    /// When none may, the run ends with [`Self::max_turns_outcome`].
    pub fn may_start_turn(&self) -> (r: bool)
        ensures
            r == (self.total_turns < self.max_turns),
    {
        self.total_turns < self.max_turns
    }

    /// Starts the next turn and returns its number.
    pub fn begin_turn(&mut self) -> (turn: u32)
        requires
            old(self).total_turns < old(self).max_turns,
        ensures
            turn == final(self).total_turns,
            final(self).total_turns == old(self).total_turns + 1,
            final(self).total_turns <= final(self).max_turns,
            final(self).max_turns == old(self).max_turns,
            final(self).messages@ == old(self).messages@,
            final(self).token_usage == old(self).token_usage,
            final(self).resume_pending@ == old(self).resume_pending@,
    {
        self.total_turns = self.total_turns + 1;
        self.total_turns
    }

    /// Takes the tools carried over from a mid-turn checkpoint; later
    /// turns find none and call the LLM.
    pub fn take_resume_pending(&mut self) -> (pending: Vec<ToolUse>)
        ensures
            pending@ == old(self).resume_pending@,
            final(self).resume_pending@.len() == 0,
            final(self).messages@ == old(self).messages@,
            final(self).total_turns == old(self).total_turns,
            final(self).max_turns == old(self).max_turns,
            final(self).token_usage == old(self).token_usage,
    {
        let mut none: Vec<ToolUse> = Vec::new();
        std::mem::swap(&mut none, &mut self.resume_pending);
        none
    }

    /// Records a turn's finished inference: the assistant text, when
    /// there is any, joins the history as a message from the agent to
    /// the user; the reported usage is added to the run totals,
    /// saturating.
    pub fn record_inference(
        &mut self,
        text: &str,
        usage: Option<TurnUsage>,
        message_id: &str,
        timestamp_millis: i64,
        agent: u128,
    )
        ensures
            text@.len() == 0 ==> final(self).messages@ == old(self).messages@,
            text@.len() > 0 ==> final(self).messages@.len() == old(self).messages@.len() + 1
                && final(self).messages@.drop_last() == old(self).messages@ && assistant_message(
                final(self).messages@.last(),
                message_id@,
                timestamp_millis,
                agent,
                text@,
            ),
            final(self).token_usage == absorb_usage(old(self).token_usage, usage),
            final(self).total_turns == old(self).total_turns,
            final(self).max_turns == old(self).max_turns,
            final(self).resume_pending@ == old(self).resume_pending@,
    {
        if text.unicode_len() > 0 {
            let ghost before = self.messages@;
            self.messages.push(
                Message {
                    id: String::from_str(message_id),
                    timestamp_millis,
                    sender: Address::Agent(agent),
                    recipient: Address::User,
                    payload: MessagePayload::Text { content: String::from_str(text) },
                },
            );
            assert(self.messages@.drop_last() =~= before);
        }
        if let Some(u) = usage {
            self.token_usage.input_tokens = self.token_usage.input_tokens.saturating_add(
                u.input_tokens as u64,
            );
            self.token_usage.output_tokens = self.token_usage.output_tokens.saturating_add(
                u.output_tokens as u64,
            );
        }
    }

    /// The checkpoint committing the run as it stands after its current
    /// turn: the history, the token totals and `pending`, the tools of the
    /// turn not yet run (empty at a turn boundary).
    pub fn checkpoint(&self, pending: Vec<ToolUse>) -> (c: Checkpoint)
        ensures
            checkpoint_of(*self, pending@, c),
    {
        Checkpoint {
            turn: self.total_turns,
            history: clone_messages(&self.messages),
            input_tokens: self.token_usage.input_tokens,
            output_tokens: self.token_usage.output_tokens,
            pending_tool_uses: pending,
        }
    }

    /// Appends a message (a tool call, result or error) to the history.
    pub fn push_message(&mut self, m: Message)
        ensures
            final(self).messages@ == old(self).messages@.push(m),
            final(self).total_turns == old(self).total_turns,
            final(self).max_turns == old(self).max_turns,
            final(self).token_usage == old(self).token_usage,
            final(self).resume_pending@ == old(self).resume_pending@,
    {
        self.messages.push(m);
    }

    /// Ends the run successfully: the final message is the last one of
    /// the history, which holds at least the initial message.
    pub fn complete(self) -> (r: RunOutcome)
        requires
            self.messages@.len() > 0,
        ensures
            r matches RunOutcome::Completed { final_message, .. } && final_message
                == self.messages@.last(),
            r.messages() == self.messages@,
            r.turns() == self.total_turns,
            r.usage() == self.token_usage,
    {
        let n = self.messages.len();
        let final_message = crate::message::clone_message(&self.messages[n - 1]);
        RunOutcome::Completed {
            final_message,
            all_messages: self.messages,
            total_turns: self.total_turns,
            token_usage: self.token_usage,
        }
    }

    /// Ends the run as an agent-level failure of `kind` with `detail`.
    pub fn fail(self, kind: FailureKind, detail: String) -> (r: RunOutcome)
        ensures
            r.failed_with(kind, detail@),
            r.messages() == self.messages@,
            r.turns() == self.total_turns,
            r.usage() == self.token_usage,
    {
        RunOutcome::Failed {
            status: AgentStatus::Failed { kind, detail: Some(detail) },
            all_messages: self.messages,
            total_turns: self.total_turns,
            token_usage: self.token_usage,
        }
    }

    /// Ends the run because the turn limit was reached.
    pub fn max_turns_outcome(self) -> (r: RunOutcome)
        ensures
            r.failed_with(FailureKind::OutOfResources, max_turns_detail(self.max_turns)),
            r.messages() == self.messages@,
            r.turns() == self.total_turns,
            r.usage() == self.token_usage,
    {
        let mut d = String::from_str("max_turns (");
        let n = u64_to_decimal(self.max_turns as u64);
        d.append(n.as_str());
        d.append(") reached");
        self.fail(FailureKind::OutOfResources, d)
    }

    /// Ends the run because the run budget was breached; `err` is the
    /// rendered budget error.
    pub fn budget_exceeded_outcome(self, err: &str) -> (r: RunOutcome)
        ensures
            r.failed_with(FailureKind::OutOfResources, budget_detail(err@)),
            r.messages() == self.messages@,
            r.turns() == self.total_turns,
            r.usage() == self.token_usage,
    {
        let d = concat2("run budget exceeded: ", err);
        self.fail(FailureKind::OutOfResources, d)
    }

    /// Ends the run because a capability check denied a tool call.
    pub fn policy_denied_outcome(self, denial: &CapabilityDenial) -> (r: RunOutcome)
        ensures
            r.failed_with(FailureKind::PolicyDenied, denial_text(*denial)),
            r.messages() == self.messages@,
            r.turns() == self.total_turns,
            r.usage() == self.token_usage,
    {
        let d = denial.to_string();
        self.fail(FailureKind::PolicyDenied, d)
    }
}

/// Builds the failure returned when a capability check rejects a tool
/// invocation: `PolicyDenied`, detailed by the rendered denial.
pub fn build_policy_denied_outcome(
    denial: &CapabilityDenial,
    all_messages: Vec<Message>,
    total_turns: u32,
    token_usage: TokenUsage,
) -> (r: RunOutcome)
    ensures
        r.failed_with(FailureKind::PolicyDenied, denial_text(*denial)),
        r.messages() == all_messages@,
        r.turns() == total_turns,
        r.usage() == token_usage,
{
    RunOutcome::Failed {
        status: AgentStatus::Failed { kind: FailureKind::PolicyDenied, detail: Some(denial.to_string()) },
        all_messages,
        total_turns,
        token_usage,
    }
}

/// What an `InferenceCallCompleted` event reports of a turn: the stop
/// reason (`EndTurn` when none was reported) and the token counts (zero
/// when unreported).
pub fn inference_completed(stop: Option<StopReason>, usage: Option<TurnUsage>) -> (r: (
    StopReason,
    u64,
    u64,
))
    ensures
        r.0 == (match stop {
            Some(s) => s,
            None => StopReason::EndTurn,
        }),
        r.1 == (match usage {
            Some(u) => u.input_tokens as u64,
            None => 0u64,
        }),
        r.2 == (match usage {
            Some(u) => u.output_tokens as u64,
            None => 0u64,
        }),
{
    let s = match stop {
        Some(s) => s,
        None => StopReason::EndTurn,
    };
    match usage {
        Some(u) => (s, u.input_tokens as u64, u.output_tokens as u64),
        None => (s, 0, 0),
    }
}

/// The stop reason a `TurnCompleted` event reports: the reported one,
/// else `EndTurn` for a turn that ended the run and `ToolUse` for a
/// turn that dispatched tools.
pub fn turn_completed_stop(stop: Option<StopReason>, dispatched_tools: bool) -> (r: StopReason)
    ensures
        r == (match stop {
            Some(s) => s,
            None => if dispatched_tools {
                StopReason::ToolUse
            } else {
                StopReason::EndTurn
            },
        }),
{
    match stop {
        Some(s) => s,
        None => if dispatched_tools {
            StopReason::ToolUse
        } else {
            StopReason::EndTurn
        },
    }
}

/// A kernel-level abort of the agent loop, as the stream reports it.
#[derive(Debug)]
pub struct FatalEvent {
    /// `RuntimeError` variant name: `ToolNotRegistered`, `Llm`, `Tool`,
    /// `ContextPipeline` or `Internal`.
    pub kind: String,
    /// Primary error message.
    pub detail: String,
    /// For `ToolNotRegistered`: the tool asked for and the registered
    /// tool names.
    pub context: Option<(String, Vec<String>)>,
    /// For `Tool`: the `ToolError` variant name.
    pub tool_error_variant: Option<String>,
}

/// The variant name a tool error is reported under.
pub open spec fn tool_error_variant_name(e: ToolError) -> Seq<char> {
    match e {
        ToolError::BadArgs { .. } => "BadArgs"@,
        ToolError::Internal { .. } => "Internal"@,
        ToolError::SessionDead { .. } => "SessionDead"@,
        ToolError::DeadlineExceeded => "DeadlineExceeded"@,
        ToolError::CapabilityDenied { .. } => "CapabilityDenied"@,
    }
}

/// The tool error of variant `variant` carrying `detail` (an unknown or
/// absent variant reads as `Internal`).
pub open spec fn tool_error_of(variant: Option<Seq<char>>, detail: Seq<char>, e: ToolError) -> bool {
    if variant == Some("BadArgs"@) {
        e matches ToolError::BadArgs { reason } && reason@ == detail
    } else if variant == Some("SessionDead"@) {
        e matches ToolError::SessionDead { reason } && reason@ == detail
    } else if variant == Some("DeadlineExceeded"@) {
        e is DeadlineExceeded
    } else if variant == Some("CapabilityDenied"@) {
        e matches ToolError::CapabilityDenied { capability } && capability@ == detail
    } else {
        e matches ToolError::Internal { message } && message@ == detail
    }
}

/// The views of a list of strings.
pub open spec fn string_views(v: Seq<String>) -> Seq<Seq<char>> {
    v.map_values(|s: String| s@)
}

/// The kernel error a fatal event stands for.
pub open spec fn fatal_error_is(ev: FatalEvent, e: RuntimeError) -> bool {
    if ev.kind@ == "ToolNotRegistered"@ {
        e matches RuntimeError::ToolNotRegistered { tool_name, registered } && match ev.context {
            Some((t, r)) => tool_name@ == t@ && string_views(registered@) == string_views(r@),
            None => tool_name@ == ev.detail@ && registered@.len() == 0,
        }
    } else if ev.kind@ == "Llm"@ {
        e matches RuntimeError::Llm { message } && message@ == ev.detail@
    } else if ev.kind@ == "Tool"@ {
        e matches RuntimeError::Tool(te) && tool_error_of(
            match ev.tool_error_variant {
                Some(v) => Some(v@),
                None => None,
            },
            ev.detail@,
            te,
        )
    } else if ev.kind@ == "ContextPipeline"@ {
        e matches RuntimeError::ContextPipeline { detail } && detail@ == ev.detail@
    } else {
        e matches RuntimeError::Internal { message } && message@ == ev.detail@
    }
}

/// A copy of a list of strings.
fn copy_strings(v: &Vec<String>) -> (r: Vec<String>)
    ensures
        string_views(r@) == string_views(v@),
{
    let mut out: Vec<String> = Vec::new();
    let mut i: usize = 0;
    while i < v.len()
        invariant
            i <= v@.len(),
            out@.len() == i,
            forall|j: int| 0 <= j < i ==> (#[trigger] out@[j])@ == v@[j]@,
        decreases v@.len() - i,
    {
        out.push(v[i].clone());
        i = i + 1;
    }
    assert(string_views(out@) =~= string_views(v@));
    out
}

/// Converts the loop's fatal event back into the kernel error it
/// reports (the batch entry points return it as `Err`).
pub fn fatal_event_to_error(ev: &FatalEvent) -> (e: RuntimeError)
    ensures
        fatal_error_is(*ev, e),
{
    let detail = ev.detail.clone();
    if str_eq(ev.kind.as_str(), "ToolNotRegistered") {
        match &ev.context {
            Some((t, r)) => RuntimeError::ToolNotRegistered {
                tool_name: t.clone(),
                registered: copy_strings(r),
            },
            None => RuntimeError::ToolNotRegistered { tool_name: detail, registered: Vec::new() },
        }
    } else if str_eq(ev.kind.as_str(), "Llm") {
        RuntimeError::Llm { message: detail }
    } else if str_eq(ev.kind.as_str(), "Tool") {
        let te = match &ev.tool_error_variant {
            Some(v) => {
                if str_eq(v.as_str(), "BadArgs") {
                    ToolError::BadArgs { reason: detail }
                } else if str_eq(v.as_str(), "SessionDead") {
                    ToolError::SessionDead { reason: detail }
                } else if str_eq(v.as_str(), "DeadlineExceeded") {
                    ToolError::DeadlineExceeded
                } else if str_eq(v.as_str(), "CapabilityDenied") {
                    ToolError::CapabilityDenied { capability: detail }
                } else {
                    ToolError::Internal { message: detail }
                }
            },
            None => ToolError::Internal { message: detail },
        };
        RuntimeError::Tool(te)
    } else if str_eq(ev.kind.as_str(), "ContextPipeline") {
        RuntimeError::ContextPipeline { detail }
    } else {
        RuntimeError::Internal { message: detail }
    }
}

/// The variant name of a tool error.
pub fn tool_error_variant(e: &ToolError) -> (s: String)
    ensures
        s@ == tool_error_variant_name(*e),
{
    match e {
        ToolError::BadArgs { .. } => String::from_str("BadArgs"),
        ToolError::Internal { .. } => String::from_str("Internal"),
        ToolError::SessionDead { .. } => String::from_str("SessionDead"),
        ToolError::DeadlineExceeded => String::from_str("DeadlineExceeded"),
        ToolError::CapabilityDenied { .. } => String::from_str("CapabilityDenied"),
    }
}

/// The fatal event of a failed tool session: kind `Tool`, the error's
/// rendering as detail, and the error's variant name so that it can be
/// rebuilt.
pub fn tool_fatal_event(e: &ToolError) -> (ev: FatalEvent)
    ensures
        ev.kind@ == "Tool"@,
        ev.detail@ == tool_error_text(*e),
        ev.context is None,
        ev.tool_error_variant matches Some(v) && v@ == tool_error_variant_name(*e),
{
    FatalEvent {
        kind: String::from_str("Tool"),
        detail: e.to_string(),
        context: None,
        tool_error_variant: Some(tool_error_variant(e)),
    }
}

/// The rendering of a list of strings by `{:?}`: `["a", "b"]`.
pub open spec fn strings_debug(v: Seq<Seq<char>>) -> Seq<char> {
    "["@ + strings_debug_items(v) + "]"@
}

/// The items of [`strings_debug`], separated by `, `.
pub open spec fn strings_debug_items(v: Seq<Seq<char>>) -> Seq<char>
    decreases v.len(),
{
    if v.len() == 0 {
        seq![]
    } else if v.len() == 1 {
        str_debug(v[0])
    } else {
        strings_debug_items(v.drop_last()) + ", "@ + str_debug(v.last())
    }
}

pub(crate) fn render_strings_debug(v: &Vec<String>) -> (s: String)
    ensures
        s@ == strings_debug(string_views(v@)),
{
    let mut s = String::from_str("[");
    let mut i: usize = 0;
    while i < v.len()
        invariant
            i <= v@.len(),
            s@ == "["@ + strings_debug_items(string_views(v@.take(i as int))),
        decreases v@.len() - i,
    {
        let ghost prev = s@;
        assert(string_views(v@.take(i + 1)).drop_last() =~= string_views(v@.take(i as int)));
        if i > 0 {
            s.append(", ");
        }
        let d = debug_str(v[i].as_str());
        s.append(d.as_str());
        proof {
            let w = string_views(v@.take(i + 1));
            assert(w.last() == v@[i as int]@);
            if i == 0 {
                assert(w.len() == 1);
                assert(s@ =~= "["@ + strings_debug_items(w));
            } else {
                assert(s@ =~= "["@ + strings_debug_items(w));
            }
        }
        i = i + 1;
    }
    assert(v@.take(v@.len() as int) =~= v@);
    s.append("]");
    s
}

/// The fatal event for a tool the registry does not hold: kind
/// `ToolNotRegistered`, detail ``tool `T` not registered; registered:
/// [..]``, and the tool name and registry as context.
pub fn tool_not_registered_event(tool_name: &str, registered: &Vec<String>) -> (ev: FatalEvent)
    ensures
        ev.kind@ == "ToolNotRegistered"@,
        ev.detail@ == "tool `"@ + tool_name@ + "` not registered; registered: "@ + strings_debug(
            string_views(registered@),
        ),
        ev.context matches Some((t, r)) && t@ == tool_name@ && string_views(r@) == string_views(
            registered@,
        ),
        ev.tool_error_variant is None,
{
    let mut d = String::from_str("tool `");
    d.append(tool_name);
    d.append("` not registered; registered: ");
    let l = render_strings_debug(registered);
    d.append(l.as_str());
    FatalEvent {
        kind: String::from_str("ToolNotRegistered"),
        detail: d,
        context: Some((String::from_str(tool_name), copy_strings(registered))),
        tool_error_variant: None,
    }
}

/// The fatal event of a failed LLM call or chunk.
pub fn llm_fatal_event(rendered: String) -> (ev: FatalEvent)
    ensures
        ev.kind@ == "Llm"@,
        ev.detail@ == rendered@,
        ev.context is None,
        ev.tool_error_variant is None,
{
    FatalEvent { kind: String::from_str("Llm"), detail: rendered, context: None, tool_error_variant: None }
}

/// The fatal event of a failed context pipeline.
pub fn context_pipeline_fatal_event(detail: String) -> (ev: FatalEvent)
    ensures
        ev.kind@ == "ContextPipeline"@,
        ev.detail@ == detail@,
        ev.context is None,
        ev.tool_error_variant is None,
{
    FatalEvent {
        kind: String::from_str("ContextPipeline"),
        detail,
        context: None,
        tool_error_variant: None,
    }
}

} // verus!

verus! {

/// A tool failure survives the trip through the loop's fatal event: the
/// kernel error rebuilt from the event of a failed tool session is a
/// tool error of the same variant.
pub proof fn law_tool_fatal_round_trip(e: ToolError, ev: FatalEvent, err: RuntimeError)
    requires
        ev.kind@ == "Tool"@,
        ev.tool_error_variant matches Some(v) && v@ == tool_error_variant_name(e),
        fatal_error_is(ev, err),
    ensures
        err matches RuntimeError::Tool(te) && tool_error_variant_name(te) == tool_error_variant_name(
            e,
        ),
{
    reveal_strlit("Tool");
    reveal_strlit("ToolNotRegistered");
    reveal_strlit("Llm");
    reveal_strlit("BadArgs");
    reveal_strlit("Internal");
    reveal_strlit("SessionDead");
    reveal_strlit("DeadlineExceeded");
    reveal_strlit("CapabilityDenied");
    assert("Tool"@.len() != "ToolNotRegistered"@.len());
    assert("Tool"@.len() != "Llm"@.len());
    assert("BadArgs"@.len() == 7 && "Internal"@.len() == 8 && "SessionDead"@.len() == 11);
    assert("DeadlineExceeded"@[0] != "CapabilityDenied"@[0]);
    let v = ev.tool_error_variant->0@;
    match e {
        ToolError::BadArgs { .. } => {},
        ToolError::Internal { .. } => {
            assert(v != "BadArgs"@);
            assert(v != "SessionDead"@);
            assert(v != "DeadlineExceeded"@);
            assert(v != "CapabilityDenied"@);
        },
        ToolError::SessionDead { .. } => {
            assert(v != "BadArgs"@);
        },
        ToolError::DeadlineExceeded => {
            assert(v != "BadArgs"@);
            assert(v != "SessionDead"@);
        },
        ToolError::CapabilityDenied { .. } => {
            assert(v != "BadArgs"@);
            assert(v != "SessionDead"@);
            assert(v != "DeadlineExceeded"@);
        },
    }
}

/// A missing tool survives the trip through the loop's fatal event: the
/// kernel error rebuilt from it names the same tool and registry.
pub proof fn law_not_registered_round_trip(
    tool_name: Seq<char>,
    registered: Seq<Seq<char>>,
    ev: FatalEvent,
    err: RuntimeError,
)
    requires
        ev.kind@ == "ToolNotRegistered"@,
        ev.context matches Some((t, r)) && t@ == tool_name && string_views(r@) == registered,
        fatal_error_is(ev, err),
    ensures
        err matches RuntimeError::ToolNotRegistered { tool_name: t2, registered: r2 } && t2@
            == tool_name && string_views(r2@) == registered,
{
}


/// The text of the last message an agent sent as text, if any.
pub open spec fn last_agent_text(ms: Seq<Message>) -> Option<Seq<char>>
    decreases ms.len(),
{
    if ms.len() == 0 {
        None
    } else if ms.last().sender is Agent && ms.last().payload is Text {
        Some(ms.last().payload->content@)
    } else {
        last_agent_text(ms.drop_last())
    }
}

/// The last text an agent said in a run's conversation; empty when it
/// said none.
pub fn last_assistant_text(outcome: &RunOutcome) -> (s: String)
    ensures
        s@ == match last_agent_text(outcome.messages()) {
            Some(t) => t,
            None => Seq::<char>::empty(),
        },
{
    let messages = match outcome {
        RunOutcome::Completed { all_messages, .. } => all_messages,
        RunOutcome::Failed { all_messages, .. } => all_messages,
    };
    let mut i: usize = messages.len();
    assert(messages@.take(i as int) =~= messages@);
    while i > 0
        invariant
            i <= messages@.len(),
            messages@ == outcome.messages(),
            last_agent_text(messages@) == last_agent_text(messages@.take(i as int)),
        decreases i,
    {
        assert(messages@.take(i as int).drop_last() =~= messages@.take(i - 1));
        let m = &messages[i - 1];
        if let Address::Agent(_) = m.sender {
            if let MessagePayload::Text { content } = &m.payload {
                return content.clone();
            }
        }
        i = i - 1;
    }
    assert(messages@.take(0) =~= Seq::<Message>::empty());
    String::new()
}

/// A tool result body as a dispatcher returns it: a JSON string, or any
/// other JSON value by its compact text.
#[derive(Debug)]
pub enum ToolBody {
    /// A JSON string.
    Str(String),
    /// Any other JSON value, rendered compactly.
    Json(String),
}

/// The text a forwarded tool call hands the model, and whether it is an
/// error: the dispatcher's error when it reported one; else a string body
/// as it is (unquoted), any other body as compact JSON, no body as empty.
pub open spec fn forwarded_text(error: Option<String>, body: Option<ToolBody>) -> (bool, Seq<char>) {
    match error {
        Some(e) => (true, e@),
        None => (false, match body {
            Some(ToolBody::Str(t)) => t@,
            Some(ToolBody::Json(t)) => t@,
            None => Seq::<char>::empty(),
        }),
    }
}

/// The text a forwarded tool call hands the model, and whether it is an
/// error (see `forwarded_text`).
pub fn forwarded_tool_text(error: Option<String>, body: Option<ToolBody>) -> (r: (bool, String))
    ensures
        (r.0, r.1@) == forwarded_text(error, body),
{
    match error {
        Some(e) => (true, e),
        None => match body {
            Some(ToolBody::Str(t)) => (false, t),
            Some(ToolBody::Json(t)) => (false, t),
            None => (false, String::new()),
        },
    }
}

/// The tool result of a subflow call: the child's last text on
/// completion; on failure an error naming the target (`target`, rendered)
/// with the child's last text, or saying there is none.
pub open spec fn subflow_text(target: Seq<char>, outcome: RunOutcome) -> (bool, Seq<char>) {
    let last = match last_agent_text(outcome.messages()) {
        Some(t) => t,
        None => Seq::<char>::empty(),
    };
    match outcome {
        RunOutcome::Failed { .. } => (true, if last.len() == 0 {
            "subflow agent "@ + target + " failed with no further detail"@
        } else {
            "subflow agent "@ + target + " failed: "@ + last
        }),
        RunOutcome::Completed { .. } => (false, last),
    }
}

/// The tool result of a subflow call (see `subflow_text`).
pub fn subflow_tool_text(target: &str, outcome: &RunOutcome) -> (r: (bool, String))
    ensures
        (r.0, r.1@) == subflow_text(target@, *outcome),
{
    let last = last_assistant_text(outcome);
    match outcome {
        RunOutcome::Failed { .. } => {
            let mut s = String::from_str("subflow agent ");
            s.append(target);
            if last.unicode_len() == 0 {
                s.append(" failed with no further detail");
            } else {
                s.append(" failed: ");
                s.append(last.as_str());
            }
            (true, s)
        },
        RunOutcome::Completed { .. } => (false, last),
    }
}

/// What a forwarded tool call gives back: the dispatcher's reply (its
/// error and body) as tool text, or, where the dispatch itself failed, an
/// internal tool error `dispatcher error: <rendered>`.
pub fn forwarded_tool_result(reply: Result<(Option<String>, Option<ToolBody>), String>) -> (r: Result<
    (bool, String),
    ToolError,
>)
    ensures
        match reply {
            Ok((error, body)) => r matches Ok(t) && (t.0, t.1@) == forwarded_text(error, body),
            Err(e) => r matches Err(ToolError::Internal { message }) && message@ == "dispatcher error: "@
                + e@,
        },
{
    match reply {
        Ok((error, body)) => Ok(forwarded_tool_text(error, body)),
        Err(e) => Err(ToolError::Internal { message: concat2("dispatcher error: ", e.as_str()) }),
    }
}

/// What a subflow tool call gives back: the child run's outcome as tool
/// text, or, where the child run could not run, an internal tool error
/// `subflow recursion error: <rendered>`.
pub fn subflow_tool_result(target: &str, run: Result<RunOutcome, String>) -> (r: Result<(bool, String), ToolError>)
    ensures
        match run {
            Ok(o) => r matches Ok(t) && (t.0, t.1@) == subflow_text(target@, o),
            Err(e) => r matches Err(ToolError::Internal { message }) && message@
                == "subflow recursion error: "@ + e@,
        },
{
    match run {
        Ok(o) => Ok(subflow_tool_text(target, &o)),
        Err(e) => Err(ToolError::Internal { message: concat2("subflow recursion error: ", e.as_str()) }),
    }
}


/// The status of an orchestration task: one of the three terminal ones,
/// or still open.
#[derive(Debug, Clone, Copy, PartialEq, Eq, Structural)]
pub enum TaskStatus {
    /// Not yet finished.
    Open,
    /// Finished successfully.
    Done,
    /// Finished with a failure.
    Failed,
    /// Dropped.
    Discarded,
}

/// The final status of an orchestrated run.
#[derive(Debug, Clone, Copy, PartialEq, Eq, Structural)]
pub enum RunStatus {
    /// The root agent completed and no task was left open.
    Completed,
    /// Otherwise.
    Failed,
}

/// The ids of the tasks left open, in order.
pub open spec fn open_task_ids(tasks: Seq<(String, TaskStatus)>) -> Seq<Seq<char>>
    decreases tasks.len(),
{
    if tasks.len() == 0 {
        seq![]
    } else {
        let prev = open_task_ids(tasks.drop_last());
        if tasks.last().1 == TaskStatus::Open {
            prev.push(tasks.last().0@)
        } else {
            prev
        }
    }
}

/// Closes an orchestrated run: it completed iff the root agent completed
/// and no task is left open; the open tasks' ids are reported as orphans.
pub fn close_run(root_completed: bool, tasks: &Vec<(String, TaskStatus)>) -> (r: (
    RunStatus,
    Vec<String>,
))
    ensures
        r.1@.map_values(|s: String| s@) == open_task_ids(tasks@),
        r.0 == if root_completed && open_task_ids(tasks@).len() == 0 {
            RunStatus::Completed
        } else {
            RunStatus::Failed
        },
{
    let mut orphans: Vec<String> = Vec::new();
    let mut i: usize = 0;
    while i < tasks.len()
        invariant
            i <= tasks@.len(),
            orphans@.map_values(|s: String| s@) == open_task_ids(tasks@.take(i as int)),
        decreases tasks@.len() - i,
    {
        proof {
            assert(tasks@.take(i + 1).drop_last() =~= tasks@.take(i as int));
        }
        if tasks[i].1 == TaskStatus::Open {
            orphans.push(tasks[i].0.clone());
        }
        proof {
            assert(orphans@.map_values(|s: String| s@) =~= open_task_ids(tasks@.take(i + 1)));
        }
        i = i + 1;
    }
    assert(tasks@.take(tasks@.len() as int) =~= tasks@);
    let status = if root_completed && orphans.len() == 0 {
        RunStatus::Completed
    } else {
        RunStatus::Failed
    };
    (status, orphans)
}


// ---------------------------------------------------------------------------
// The agent loop as a state machine
// ---------------------------------------------------------------------------

/// Where the agent loop stands.
#[derive(Debug, Clone, Copy, PartialEq, Eq, Structural)]
pub enum LoopPhase {
    /// Not started: waits for `Begin`.
    Start,
    /// Between turns: the next turn may start, or the turn limit ends the
    /// run.
    Boundary,
    /// Waits for the run budget verdict.
    Budget,
    /// A resumed mid-turn re-announces its carried tool calls.
    Announce,
    /// Drains the model's answer.
    Streaming,
    /// The model's answer is complete.
    Inferred,
    /// Waits for what the host knows of the next tool call.
    Resolving,
    /// A virtual tool call (orchestration, skill or agent spawn) runs.
    Virtual,
    /// A tool session opens.
    Opening,
    /// The call's arguments are validated.
    Validating,
    /// The tool runs.
    Invoking,
    /// A tool call is done; the next one, or the end of the turn, follows.
    Dispatched,
    /// The last turn asked for no tool: the run completes next.
    Closing,
    /// The run has ended.
    Done,
}

/// Who runs the loop: ids for messages and denials, the capabilities the
/// kernel checks tool calls against, and whether the run is an
/// orchestrated (multi-agent) one, where virtual tools and the run budget
/// apply.
#[derive(Debug)]
pub struct LoopContext {
    /// The agent's id.
    pub agent_id: String,
    /// The agent's package id.
    pub package_id: String,
    /// The agent instance the messages are addressed from and to.
    pub agent: u128,
    /// The grant the kernel checks tool calls against.
    pub granted: Vec<crate::capability::Capability>,
    /// Whether an orchestrated run is active.
    pub orchestrated: bool,
}

/// A fresh message id and time stamp, minted by the host.
#[derive(Debug)]
pub struct Stamp {
    /// Message id.
    pub id: String,
    /// Milliseconds since the Unix epoch.
    pub timestamp_millis: i64,
}

/// Which kind of virtual tool a call names.
#[derive(Debug, Clone, Copy, PartialEq, Eq, Structural)]
pub enum VirtualKind {
    /// `skill.<name>.spawn`.
    SkillSpawn,
    /// `agent.<kind>.spawn`.
    AgentSpawn,
    /// Any other orchestration tool (`task.*`, `run.*`).
    Orchestration,
}

/// What the host hands back after performing an action.
#[derive(Debug)]
pub enum LoopEvent {
    /// The run starts under this context.
    Begin(LoopContext),
    /// The last action was performed; nothing to report.
    Proceed,
    /// The run budget holds.
    BudgetOk,
    /// The run budget is breached; the rendered budget error.
    BudgetBreached(String),
    /// The model call could not be opened; the rendered error.
    LlmOpenFailed(String),
    /// The model streamed text.
    Text(String),
    /// The model asked for a tool.
    ToolUseChunk(ToolUse),
    /// The model's answer ended (its stop reason and usage when reported);
    /// `stamp` is for the assistant message.
    Finish { stop: Option<StopReason>, usage: Option<TurnUsage>, stamp: Stamp },
    /// The model stream failed; the rendered error.
    LlmError(String),
    /// What the host knows of the current tool call: whether its name is a
    /// virtual tool, whether the registry holds it (and the registered
    /// names), the capabilities it requires; `stamp` is for its call
    /// message.
    Resolved {
        virtual_tool: bool,
        registered: bool,
        registered_names: Vec<String>,
        required: Vec<crate::capability::Capability>,
        stamp: Stamp,
    },
    /// The virtual tool answered.
    VirtualDone { is_error: bool, content: Vec<crate::provider::ToolContent>, stamp: Stamp },
    /// The tool session opened.
    SessionOpened,
    /// The tool session failed to open.
    SessionFailed { error: ToolError },
    /// The arguments are valid.
    ValidationOk,
    /// The arguments are invalid; the self-instructive reason.
    ValidationFailed { reason: String, stamp: Stamp },
    /// The tool answered (its session closed).
    ToolDone { is_error: bool, content: Vec<crate::provider::ToolContent>, stamp: Stamp },
    /// The tool failed, or its session did.
    ToolFailed { error: ToolError },
}

/// What the loop asks the host to do, or to report, next.
#[derive(Debug)]
pub enum LoopAction {
    /// Report `RunStarted`, then hand back `Proceed`.
    RunStarted,
    /// Check the run budget: hand back `BudgetOk` or `BudgetBreached`.
    CheckBudget,
    /// Report `InferenceCallStarted`, call the model on the history
    /// (through the context pipeline and the provider projection) and hand
    /// back its chunks, `LlmOpenFailed` or `LlmError`.
    CallLlm,
    /// Report this text, then hand back the next chunk.
    TextDelta(String),
    /// Report that the model asked for this tool; then hand back the next
    /// chunk, or `Proceed` when announcing resumed calls.
    ToolCallStarted { id: String, name: String, input: String },
    /// Report the end of the model's answer, then hand back `Proceed`.
    InferenceCallCompleted { stop: StopReason, tokens_in: u64, tokens_out: u64 },
    /// Look the tool up: hand back `Resolved`.
    Resolve { name: String },
    /// Run the virtual tool of this kind: hand back `VirtualDone`.
    RunVirtual { kind: VirtualKind, name: String, input: String },
    /// Open a session of the tool: `SessionOpened` or `SessionFailed`.
    OpenSession { name: String },
    /// Validate the arguments: `ValidationOk` or `ValidationFailed`.
    Validate { name: String, input: String },
    /// Invoke the tool and close its session: `ToolDone` or `ToolFailed`.
    Invoke { name: String, input: String },
    /// Report the call's completion (its error flag, or the validation
    /// reason), persist the mid-turn checkpoint when there is one and the
    /// agent commits per tool call, then hand back `Proceed`.
    ToolCallCompleted { id: String, name: String, result: Result<bool, String>, checkpoint: Option<Checkpoint> },
    /// Report the end of the turn, persist the checkpoint when the agent
    /// is durable, then hand back `Proceed`.
    TurnCompleted { stop: StopReason, usage: Option<TurnUsage>, turn: u32, checkpoint: Checkpoint },
    /// The run ended with this outcome.
    RunCompleted(RunOutcome),
    /// The run ended with a kernel error.
    Fatal(FatalEvent),
    /// Nothing to do: the event did not fit the phase (or the run ended).
    Idle,
}

/// An action that ends the run.
pub open spec fn is_terminal(a: LoopAction) -> bool {
    a is RunCompleted || a is Fatal
}

/// `s` begins with `p`.
pub open spec fn starts_with(s: Seq<char>, p: Seq<char>) -> bool {
    p.len() <= s.len() && s.take(p.len() as int) == p
}

/// `s` ends with `p`.
pub open spec fn ends_with(s: Seq<char>, p: Seq<char>) -> bool {
    p.len() <= s.len() && s.skip(s.len() - p.len()) == p
}

/// The kind of virtual tool a name calls: `skill.<name>.spawn` (a
/// non-empty name), `agent.<kind>.spawn`, or another orchestration tool.
pub open spec fn virtual_kind(n: Seq<char>) -> VirtualKind {
    if starts_with(n, "skill."@) && ends_with(n, ".spawn"@) && n.len() > 12 {
        VirtualKind::SkillSpawn
    } else if starts_with(n, "agent."@) && ends_with(n, ".spawn"@) {
        VirtualKind::AgentSpawn
    } else {
        VirtualKind::Orchestration
    }
}

fn has_prefix(s: &str, p: &str) -> (r: bool)
    ensures
        r == starts_with(s@, p@),
{
    let a = crate::text::chars_of(s);
    let b = crate::text::chars_of(p);
    if b.len() > a.len() {
        return false;
    }
    let mut i: usize = 0;
    while i < b.len()
        invariant
            a@ == s@,
            b@ == p@,
            b@.len() <= a@.len(),
            i <= b@.len(),
            forall|j: int| 0 <= j < i ==> a@[j] == b@[j],
        decreases b@.len() - i,
    {
        if a[i] != b[i] {
            assert(s@.take(p@.len() as int)[i as int] != p@[i as int]);
            return false;
        }
        i = i + 1;
    }
    assert(s@.take(p@.len() as int) =~= p@);
    true
}

fn has_suffix(s: &str, p: &str) -> (r: bool)
    ensures
        r == ends_with(s@, p@),
{
    let a = crate::text::chars_of(s);
    let b = crate::text::chars_of(p);
    if b.len() > a.len() {
        return false;
    }
    let off = a.len() - b.len();
    let mut i: usize = off;
    while i < a.len()
        invariant
            a@ == s@,
            b@ == p@,
            off == a@.len() - b@.len(),
            off <= i <= a@.len(),
            forall|j: int| off <= j < i ==> a@[j] == b@[j - off],
        decreases a@.len() - i,
    {
        if a[i] != b[i - off] {
            assert(s@.skip(s@.len() - p@.len())[i - off] != p@[i - off]);
            return false;
        }
        i = i + 1;
    }
    assert(s@.skip(s@.len() - p@.len()) =~= p@);
    true
}

/// Classifies a virtual tool's name (see [`virtual_kind`]).
pub fn classify_virtual(name: &str) -> (k: VirtualKind)
    ensures
        k == virtual_kind(name@),
{
    if has_prefix(name, "skill.") && has_suffix(name, ".spawn") && name.unicode_len() > 12 {
        VirtualKind::SkillSpawn
    } else if has_prefix(name, "agent.") && has_suffix(name, ".spawn") {
        VirtualKind::AgentSpawn
    } else {
        VirtualKind::Orchestration
    }
}

/// `m` is a message stamped `st`, from `sender` to `recipient`.
pub open spec fn stamped(m: Message, st: Stamp, sender: Address, recipient: Address) -> bool {
    &&& m.id == st.id
    &&& m.timestamp_millis == st.timestamp_millis
    &&& m.sender == sender
    &&& m.recipient == recipient
}

/// `m` records the agent's call of tool `t`.
pub open spec fn tool_call_message(m: Message, st: Stamp, agent: u128, t: ToolUse) -> bool {
    &&& stamped(m, st, Address::Agent(agent), Address::Tool(t.name))
    &&& m.payload matches MessagePayload::ToolCall { args } && args@ == t.input@
}

/// The message payload of a tool's answer: an error answer is a tool
/// error of kind `kind` carrying the flattened content; a success is a
/// tool result carrying the content's value.
pub open spec fn answer_payload(is_error: bool, content: Seq<crate::provider::ToolContent>, kind: Seq<char>, p: MessagePayload) -> bool {
    if is_error {
        p matches MessagePayload::ToolError { kind: k, message, details } && k@ == kind && message@
            == crate::provider::flattened(content) && details is None
    } else {
        p matches MessagePayload::ToolResult { body } && body@ == crate::provider::content_value(content)
    }
}

/// The denial a policy failure carries when agent `agent_id` (package
/// `package_id`) calls `tool` without `missing`.
pub open spec fn policy_denial_text(
    agent_id: Seq<char>,
    package_id: Seq<char>,
    tool: Seq<char>,
    missing: crate::capability::Capability,
) -> Seq<char> {
    "agent "@ + agent_id + " (package "@ + package_id + ") lacks capability `"@
        + crate::capability::spec_kind_str(missing) + "` ("@
        + crate::capability::capability_debug_text(missing) + ") required to call tool `"@ + tool
        + "`"@
}

/// `out` is the policy failure of `o`'s run for a call of `tool` whose
/// requirements `required` the grant does not cover.
pub open spec fn policy_denied(
    o: AgentRun,
    c: LoopContext,
    tool: Seq<char>,
    required: Seq<crate::capability::Capability>,
    out: RunOutcome,
) -> bool {
    &&& exists|k: int|
        crate::attenuate::first_uncovered(c.granted@, required, k) && out.failed_with(
            FailureKind::PolicyDenied,
            policy_denial_text(c.agent_id@, c.package_id@, tool, required[k]),
        )
    &&& out.messages() == o.messages@
    &&& out.turns() == o.total_turns
    &&& out.usage() == o.token_usage
}

/// `n` keeps `o`'s run state: history, turns, usage, limit, carried
/// tools and context.
pub open spec fn same_run(o: AgentRun, n: AgentRun) -> bool {
    &&& n.messages@ == o.messages@
    &&& n.total_turns == o.total_turns
    &&& n.token_usage == o.token_usage
    &&& n.max_turns == o.max_turns
    &&& n.resume_pending@ == o.resume_pending@
    &&& n.ctx == o.ctx
}

/// `n` keeps `o`'s turn state: the turn's calls, how many were announced
/// and dispatched, and its text, stop reason and usage.
pub open spec fn same_turn(o: AgentRun, n: AgentRun) -> bool {
    &&& n.turn_tools@ == o.turn_tools@
    &&& n.announced == o.announced
    &&& n.next_tool == o.next_tool
    &&& n.turn_text@ == o.turn_text@
    &&& n.turn_stop == o.turn_stop
    &&& n.turn_usage == o.turn_usage
}

/// `n` is `o` moved to phase `p`.
pub open spec fn moved(o: AgentRun, n: AgentRun, p: LoopPhase) -> bool {
    same_run(o, n) && same_turn(o, n) && n.phase == p
}

/// `n` is `o` after its tool call was answered with message `m`: the
/// history gains `m`, the next call is up, and the loop waits to go on.
pub open spec fn answered(o: AgentRun, n: AgentRun, m: Message) -> bool {
    &&& n.messages@ == o.messages@.push(m)
    &&& n.total_turns == o.total_turns
    &&& n.token_usage == o.token_usage
    &&& n.max_turns == o.max_turns
    &&& n.resume_pending@ == o.resume_pending@
    &&& n.ctx == o.ctx
    &&& n.turn_tools@ == o.turn_tools@
    &&& n.announced == o.announced
    &&& n.next_tool == o.next_tool + 1
    &&& n.turn_text@ == o.turn_text@
    &&& n.turn_stop == o.turn_stop
    &&& n.turn_usage == o.turn_usage
    &&& n.phase == LoopPhase::Dispatched
}

/// `n` is `o` at the start of its next turn (see [`agent_loop_step`]),
/// and `a` the action that starts it: a resumed mid-turn takes its
/// carried calls and announces the first; otherwise the model is called.
pub open spec fn turn_begun(o: AgentRun, n: AgentRun, a: LoopAction) -> bool {
    &&& n.messages@ == o.messages@
    &&& n.total_turns == o.total_turns + 1
    &&& n.token_usage == o.token_usage
    &&& n.max_turns == o.max_turns
    &&& n.ctx == o.ctx
    &&& n.next_tool == 0
    &&& n.turn_text@.len() == 0
    &&& n.turn_stop is None
    &&& n.turn_usage is None
    &&& if o.resume_pending@.len() > 0 {
        &&& n.turn_tools@ == o.resume_pending@
        &&& n.resume_pending@.len() == 0
        &&& n.announced == 1
        &&& n.phase == LoopPhase::Announce
        &&& a matches LoopAction::ToolCallStarted { id, name, input } && id == n.turn_tools@[0].id
            && name == n.turn_tools@[0].name && input == n.turn_tools@[0].input
    } else {
        &&& n.turn_tools@.len() == 0
        &&& n.resume_pending@.len() == 0
        &&& n.announced == 0
        &&& n.phase == LoopPhase::Streaming
        &&& a is CallLlm
    }
}

/// `a` asks for the lookup of `o`'s next tool call and `n` waits for it.
pub open spec fn resolving(o: AgentRun, n: AgentRun, a: LoopAction) -> bool {
    &&& moved(o, n, LoopPhase::Resolving)
    &&& a matches LoopAction::Resolve { name } && name == o.turn_tools@[o.next_tool as int].name
}

/// `a` reports the end of `o`'s turn with the checkpoint at that
/// boundary, and `n` is `o` in phase `p`.
/// The stop reason reported is the model's, else `dflt`.
pub open spec fn turn_ended(o: AgentRun, n: AgentRun, a: LoopAction, p: LoopPhase, dflt: StopReason) -> bool {
    &&& moved(o, n, p)
    &&& a matches LoopAction::TurnCompleted { stop, usage, turn, checkpoint }
    &&& stop == match o.turn_stop {
        Some(s) => s,
        None => dflt,
    }
    &&& usage == o.turn_usage
    &&& turn == o.total_turns
    &&& checkpoint_of(o, seq![], checkpoint)
}

/// One step of the agent loop: from `o`, on `e`, to `n`, asking `a`.
///
/// A run starts (`RunStarted`) and then, turn by turn: ends with the
/// turn limit when it is reached; in an orchestrated run checks the run
/// budget, a breach ending it; starts the turn: a resumed mid-turn
/// re-announces its carried calls, otherwise the model is called and its
/// text and tool calls are reported as they stream (a model error is
/// fatal); records the answer; completes the run when the model asked for
/// no tool. Otherwise each call, in order, is looked up: in an
/// orchestrated run a virtual tool is checked against the grant (a denial
/// ends the run as `PolicyDenied`) and run by its kind; any other tool
/// must be registered (else fatal), covered by the grant (else
/// `PolicyDenied`, the tool never runs), get a session (else fatal), pass
/// argument validation (else a `tool_args_validation` error joins the
/// history and the loop goes on) and run (a tool failure is fatal). Each
/// answered call is reported, and after the last the turn ends. An event
/// that does not fit the phase, and any event once the run ended, changes
/// nothing.
pub open spec fn loop_step_spec(o: AgentRun, e: LoopEvent, n: AgentRun, a: LoopAction) -> bool {
    let c = o.ctx->0;
    let t = o.turn_tools@[o.next_tool as int];
    let fits = match o.phase {
        LoopPhase::Start => e is Begin,
        LoopPhase::Boundary => e is Proceed,
        LoopPhase::Budget => e is BudgetOk || e is BudgetBreached,
        LoopPhase::Announce => e is Proceed,
        LoopPhase::Streaming => e is LlmOpenFailed || e is Text || e is ToolUseChunk || e is Finish
            || e is LlmError,
        LoopPhase::Inferred => e is Proceed,
        LoopPhase::Resolving => e is Resolved,
        LoopPhase::Virtual => e is VirtualDone,
        LoopPhase::Opening => e is SessionOpened || e is SessionFailed,
        LoopPhase::Validating => e is ValidationOk || e is ValidationFailed,
        LoopPhase::Invoking => e is ToolDone || e is ToolFailed,
        LoopPhase::Dispatched => e is Proceed,
        LoopPhase::Closing => e is Proceed,
        LoopPhase::Done => false,
    };
    if !fits {
        n == o && a is Idle
    } else {
        match o.phase {
            LoopPhase::Start => match e {
                LoopEvent::Begin(cx) => same_turn(o, n) && n.messages@ == o.messages@ && n.total_turns
                    == o.total_turns && n.token_usage == o.token_usage && n.max_turns == o.max_turns
                    && n.resume_pending@ == o.resume_pending@ && n.ctx == Some(cx) && n.phase
                    == LoopPhase::Boundary && a is RunStarted,
                _ => false,
            },
            LoopPhase::Boundary => if o.total_turns >= o.max_turns {
                &&& moved(o, n, LoopPhase::Done)
                &&& a matches LoopAction::RunCompleted(out) && out.failed_with(
                    FailureKind::OutOfResources,
                    max_turns_detail(o.max_turns),
                ) && out.messages() == o.messages@ && out.turns() == o.total_turns && out.usage()
                    == o.token_usage
            } else if c.orchestrated {
                moved(o, n, LoopPhase::Budget) && a is CheckBudget
            } else {
                turn_begun(o, n, a)
            },
            LoopPhase::Budget => match e {
                LoopEvent::BudgetBreached(err) => {
                    &&& moved(o, n, LoopPhase::Done)
                    &&& a matches LoopAction::RunCompleted(out) && out.failed_with(
                        FailureKind::OutOfResources,
                        budget_detail(err@),
                    ) && out.messages() == o.messages@ && out.turns() == o.total_turns
                        && out.usage() == o.token_usage
                },
                _ => turn_begun(o, n, a),
            },
            LoopPhase::Announce => if o.announced < o.turn_tools@.len() {
                &&& same_run(o, n)
                &&& n.turn_tools@ == o.turn_tools@
                &&& n.announced == o.announced + 1
                &&& n.next_tool == o.next_tool
                &&& n.turn_text@ == o.turn_text@
                &&& n.turn_stop == o.turn_stop
                &&& n.turn_usage == o.turn_usage
                &&& n.phase == LoopPhase::Announce
                &&& a matches LoopAction::ToolCallStarted { id, name, input } && id
                    == o.turn_tools@[o.announced as int].id && name == o.turn_tools@[o.announced as int].name
                    && input == o.turn_tools@[o.announced as int].input
            } else {
                resolving(o, n, a)
            },
            LoopPhase::Streaming => match e {
                LoopEvent::Text(d) => {
                    &&& same_run(o, n)
                    &&& n.turn_tools@ == o.turn_tools@
                    &&& n.announced == o.announced
                    &&& n.next_tool == o.next_tool
                    &&& n.turn_text@ == o.turn_text@ + d@
                    &&& n.turn_stop == o.turn_stop
                    &&& n.turn_usage == o.turn_usage
                    &&& n.phase == LoopPhase::Streaming
                    &&& a == LoopAction::TextDelta(d)
                },
                LoopEvent::ToolUseChunk(tu) => {
                    &&& same_run(o, n)
                    &&& n.turn_tools@ == o.turn_tools@.push(tu)
                    &&& n.announced == o.announced + 1
                    &&& n.next_tool == o.next_tool
                    &&& n.turn_text@ == o.turn_text@
                    &&& n.turn_stop == o.turn_stop
                    &&& n.turn_usage == o.turn_usage
                    &&& n.phase == LoopPhase::Streaming
                    &&& a matches LoopAction::ToolCallStarted { id, name, input } && id == tu.id
                        && name == tu.name && input == tu.input
                },
                LoopEvent::Finish { stop, usage, stamp } => {
                    &&& (if o.turn_text@.len() > 0 {
                        n.messages@.len() == o.messages@.len() + 1 && n.messages@.drop_last()
                            == o.messages@ && assistant_message(
                            n.messages@.last(),
                            stamp.id@,
                            stamp.timestamp_millis,
                            c.agent,
                            o.turn_text@,
                        )
                    } else {
                        n.messages@ == o.messages@
                    })
                    &&& n.total_turns == o.total_turns
                    &&& n.token_usage == absorb_usage(o.token_usage, usage)
                    &&& n.max_turns == o.max_turns
                    &&& n.resume_pending@ == o.resume_pending@
                    &&& n.ctx == o.ctx
                    &&& n.turn_tools@ == o.turn_tools@
                    &&& n.announced == o.announced
                    &&& n.next_tool == o.next_tool
                    &&& n.turn_text@ == o.turn_text@
                    &&& n.turn_stop == stop
                    &&& n.turn_usage == usage
                    &&& n.phase == LoopPhase::Inferred
                    &&& a == LoopAction::InferenceCallCompleted {
                        stop: match stop {
                            Some(s) => s,
                            None => StopReason::EndTurn,
                        },
                        tokens_in: match usage {
                            Some(u) => u.input_tokens as u64,
                            None => 0u64,
                        },
                        tokens_out: match usage {
                            Some(u) => u.output_tokens as u64,
                            None => 0u64,
                        },
                    }
                },
                LoopEvent::LlmOpenFailed(r) => {
                    &&& moved(o, n, LoopPhase::Done)
                    &&& a matches LoopAction::Fatal(ev) && ev.kind@ == "Llm"@ && ev.detail@ == r@
                },
                LoopEvent::LlmError(r) => {
                    &&& moved(o, n, LoopPhase::Done)
                    &&& a matches LoopAction::Fatal(ev) && ev.kind@ == "Llm"@ && ev.detail@ == r@
                },
                _ => false,
            },
            LoopPhase::Inferred => if o.turn_tools@.len() == 0 {
                turn_ended(o, n, a, LoopPhase::Closing, StopReason::EndTurn)
            } else {
                resolving(o, n, a)
            },
            LoopPhase::Resolving => match e {
                LoopEvent::Resolved { virtual_tool, registered, registered_names, required, stamp } => {
                    if c.orchestrated && virtual_tool {
                        if !crate::capability::all_covered(c.granted@, required@) {
                            &&& moved(o, n, LoopPhase::Done)
                            &&& a matches LoopAction::RunCompleted(out) && policy_denied(
                                o,
                                c,
                                t.name@,
                                required@,
                                out,
                            )
                        } else {
                            &&& n.messages@.len() == o.messages@.len() + 1
                            &&& n.messages@.drop_last() == o.messages@
                            &&& tool_call_message(n.messages@.last(), stamp, c.agent, t)
                            &&& n.total_turns == o.total_turns
                            &&& n.token_usage == o.token_usage
                            &&& n.max_turns == o.max_turns
                            &&& n.resume_pending@ == o.resume_pending@
                            &&& n.ctx == o.ctx
                            &&& same_turn(o, n)
                            &&& n.phase == LoopPhase::Virtual
                            &&& a matches LoopAction::RunVirtual { kind, name, input } && kind
                                == virtual_kind(t.name@) && name == t.name && input == t.input
                        }
                    } else if !registered {
                        &&& moved(o, n, LoopPhase::Done)
                        &&& a matches LoopAction::Fatal(ev) && ev.kind@ == "ToolNotRegistered"@
                            && ev.detail@ == "tool `"@ + t.name@ + "` not registered; registered: "@
                            + strings_debug(string_views(registered_names@))
                    } else if !crate::capability::all_covered(c.granted@, required@) {
                        &&& moved(o, n, LoopPhase::Done)
                        &&& a matches LoopAction::RunCompleted(out) && policy_denied(
                            o,
                            c,
                            t.name@,
                            required@,
                            out,
                        )
                    } else {
                        &&& n.messages@.len() == o.messages@.len() + 1
                        &&& n.messages@.drop_last() == o.messages@
                        &&& tool_call_message(n.messages@.last(), stamp, c.agent, t)
                        &&& n.total_turns == o.total_turns
                        &&& n.token_usage == o.token_usage
                        &&& n.max_turns == o.max_turns
                        &&& n.resume_pending@ == o.resume_pending@
                        &&& n.ctx == o.ctx
                        &&& same_turn(o, n)
                        &&& n.phase == LoopPhase::Opening
                        &&& a matches LoopAction::OpenSession { name } && name == t.name
                    }
                },
                _ => false,
            },
            LoopPhase::Virtual => match e {
                LoopEvent::VirtualDone { is_error, content, stamp } => {
                    &&& answered(o, n, n.messages@.last())
                    &&& stamped(n.messages@.last(), stamp, Address::Tool(t.name), Address::Agent(c.agent))
                    &&& answer_payload(
                        is_error,
                        content@,
                        "orchestration_virtual_tool_error"@,
                        n.messages@.last().payload,
                    )
                    &&& a matches LoopAction::ToolCallCompleted { id, name, result, checkpoint } && id
                        == t.id && name == t.name && result == Ok::<bool, String>(is_error)
                        && checkpoint is None
                },
                _ => false,
            },
            LoopPhase::Opening => match e {
                LoopEvent::SessionFailed { error } => {
                    &&& moved(o, n, LoopPhase::Done)
                    &&& a matches LoopAction::Fatal(ev) && ev.kind@ == "Tool"@ && ev.detail@
                        == tool_error_text(error)
                        && (ev.tool_error_variant matches Some(v) && v@ == tool_error_variant_name(error))
                },
                _ => {
                    &&& moved(o, n, LoopPhase::Validating)
                    &&& a matches LoopAction::Validate { name, input } && name == t.name && input == t.input
                },
            },
            LoopPhase::Validating => match e {
                LoopEvent::ValidationFailed { reason, stamp } => {
                    &&& answered(o, n, n.messages@.last())
                    &&& stamped(n.messages@.last(), stamp, Address::Tool(t.name), Address::Agent(c.agent))
                    &&& n.messages@.last().payload matches MessagePayload::ToolError {
                        kind,
                        message,
                        details,
                    } && kind@ == "tool_args_validation"@ && message == reason && details is None
                    &&& a matches LoopAction::ToolCallCompleted { id, name, result, checkpoint } && id
                        == t.id && name == t.name && result == Err::<bool, String>(reason)
                        && checkpoint is None
                },
                _ => {
                    &&& moved(o, n, LoopPhase::Invoking)
                    &&& a matches LoopAction::Invoke { name, input } && name == t.name && input == t.input
                },
            },
            LoopPhase::Invoking => match e {
                LoopEvent::ToolDone { is_error, content, stamp } => {
                    &&& answered(o, n, n.messages@.last())
                    &&& stamped(n.messages@.last(), stamp, Address::Tool(t.name), Address::Agent(c.agent))
                    &&& answer_payload(is_error, content@, "tool_runtime_error"@, n.messages@.last().payload)
                    &&& a matches LoopAction::ToolCallCompleted { id, name, result, checkpoint } && id
                        == t.id && name == t.name && result == Ok::<bool, String>(is_error)
                        && (checkpoint matches Some(ck) && checkpoint_of(
                        n,
                        o.turn_tools@.skip(o.next_tool + 1),
                        ck,
                    ))
                },
                LoopEvent::ToolFailed { error } => {
                    &&& moved(o, n, LoopPhase::Done)
                    &&& a matches LoopAction::Fatal(ev) && ev.kind@ == "Tool"@ && ev.detail@
                        == tool_error_text(error)
                        && (ev.tool_error_variant matches Some(v) && v@ == tool_error_variant_name(error))
                },
                _ => false,
            },
            LoopPhase::Dispatched => if o.next_tool < o.turn_tools@.len() {
                resolving(o, n, a)
            } else {
                turn_ended(o, n, a, LoopPhase::Boundary, StopReason::ToolUse)
            },
            LoopPhase::Closing => {
                &&& moved(o, n, LoopPhase::Done)
                &&& a matches LoopAction::RunCompleted(out) && (out matches RunOutcome::Completed {
                    final_message,
                    ..
                } && final_message == o.messages@.last()) && out.messages() == o.messages@
                    && out.turns() == o.total_turns && out.usage() == o.token_usage
            },
            LoopPhase::Done => false,
        }
    }
}

impl AgentRun {
    /// The loop's bookkeeping is consistent: the history holds at least
    /// the opening message; announced calls are a prefix of the turn's
    /// calls and dispatched ones a prefix of those; the context is known
    /// once the run began; and each phase has what it needs.
    pub open spec fn wf(self) -> bool {
        &&& self.messages@.len() > 0
        &&& self.next_tool <= self.announced <= self.turn_tools@.len()
        &&& (self.phase != LoopPhase::Start ==> self.ctx is Some)
        &&& (self.phase == LoopPhase::Budget ==> self.total_turns < self.max_turns)
        &&& match self.phase {
            LoopPhase::Streaming | LoopPhase::Inferred => self.announced == self.turn_tools@.len()
                && self.next_tool == 0,
            LoopPhase::Dispatched => self.announced == self.turn_tools@.len(),
            LoopPhase::Announce => self.next_tool == 0 && self.announced >= 1,
            LoopPhase::Resolving | LoopPhase::Virtual | LoopPhase::Opening | LoopPhase::Validating
            | LoopPhase::Invoking => self.announced == self.turn_tools@.len() && self.next_tool
                < self.turn_tools@.len(),
            _ => true,
        }
    }
}

/// A copy of the run's history, turns, usage and limit, for building an
/// outcome.
fn snapshot(run: &AgentRun) -> (r: AgentRun)
    ensures
        r.messages@ == run.messages@,
        r.total_turns == run.total_turns,
        r.token_usage == run.token_usage,
        r.max_turns == run.max_turns,
{
    AgentRun {
        messages: clone_messages(&run.messages),
        total_turns: run.total_turns,
        token_usage: run.token_usage,
        max_turns: run.max_turns,
        resume_pending: Vec::new(),
        phase: LoopPhase::Done,
        ctx: None,
        turn_tools: Vec::new(),
        announced: 0,
        next_tool: 0,
        turn_text: String::new(),
        turn_stop: None,
        turn_usage: None,
    }
}

fn clone_tool_use(t: &ToolUse) -> (r: ToolUse)
    ensures
        r == *t,
{
    ToolUse { id: t.id.clone(), name: t.name.clone(), input: t.input.clone() }
}

/// The calls of `v` from index `k` on.
fn tool_uses_from(v: &Vec<ToolUse>, k: usize) -> (r: Vec<ToolUse>)
    requires
        k <= v@.len(),
    ensures
        r@ == v@.skip(k as int),
{
    let mut out: Vec<ToolUse> = Vec::new();
    let mut i: usize = k;
    while i < v.len()
        invariant
            k <= i <= v@.len(),
            out@ == v@.subrange(k as int, i as int),
        decreases v@.len() - i,
    {
        out.push(clone_tool_use(&v[i]));
        i = i + 1;
        assert(out@ =~= v@.subrange(k as int, i as int));
    }
    assert(v@.subrange(k as int, v@.len() as int) =~= v@.skip(k as int));
    out
}

/// The announcement of call `t`.
fn started(t: &ToolUse) -> (a: LoopAction)
    ensures
        a matches LoopAction::ToolCallStarted { id, name, input } && id == t.id && name == t.name
            && input == t.input,
{
    LoopAction::ToolCallStarted { id: t.id.clone(), name: t.name.clone(), input: t.input.clone() }
}

/// Starts the next turn (see [`turn_begun`]).
fn begin_turn_step(run: &mut AgentRun) -> (a: LoopAction)
    requires
        old(run).wf(),
        old(run).phase == LoopPhase::Boundary || old(run).phase == LoopPhase::Budget,
        old(run).total_turns < old(run).max_turns,
    ensures
        final(run).wf(),
        turn_begun(*old(run), *final(run), a),
{
    run.total_turns = run.total_turns + 1;
    run.next_tool = 0;
    run.turn_text = String::new();
    run.turn_stop = None;
    run.turn_usage = None;
    if run.resume_pending.len() > 0 {
        let mut carried: Vec<ToolUse> = Vec::new();
        std::mem::swap(&mut carried, &mut run.resume_pending);
        run.turn_tools = carried;
        run.announced = 1;
        run.phase = LoopPhase::Announce;
        started(&run.turn_tools[0])
    } else {
        run.turn_tools = Vec::new();
        run.announced = 0;
        run.phase = LoopPhase::Streaming;
        LoopAction::CallLlm
    }
}

/// The lookup of the run's next call.
fn resolve_next(run: &mut AgentRun) -> (a: LoopAction)
    requires
        old(run).wf(),
        old(run).phase != LoopPhase::Start,
        old(run).next_tool < old(run).turn_tools@.len(),
        old(run).announced == old(run).turn_tools@.len(),
    ensures
        final(run).wf(),
        resolving(*old(run), *final(run), a),
{
    run.phase = LoopPhase::Resolving;
    LoopAction::Resolve { name: run.turn_tools[run.next_tool].name.clone() }
}

/// The end of the current turn, moving to `p`.
fn end_turn(run: &mut AgentRun, p: LoopPhase, dispatched: bool) -> (a: LoopAction)
    requires
        old(run).wf(),
        old(run).phase != LoopPhase::Start,
        p == LoopPhase::Closing || p == LoopPhase::Boundary,
    ensures
        final(run).wf(),
        turn_ended(
            *old(run),
            *final(run),
            a,
            p,
            if dispatched {
                StopReason::ToolUse
            } else {
                StopReason::EndTurn
            },
        ),
{
    let ck = run.checkpoint(Vec::new());
    let stop = turn_completed_stop(run.turn_stop, dispatched);
    run.phase = p;
    LoopAction::TurnCompleted { stop, usage: run.turn_usage, turn: run.total_turns, checkpoint: ck }
}

/// The policy failure for a call of `tool` missing `missing`.
fn deny(run: &AgentRun, tool: &str, missing: &crate::capability::Capability) -> (out: RunOutcome)
    requires
        run.ctx is Some,
    ensures
        out.failed_with(
            FailureKind::PolicyDenied,
            policy_denial_text(run.ctx->0.agent_id@, run.ctx->0.package_id@, tool@, *missing),
        ),
        out.messages() == run.messages@,
        out.turns() == run.total_turns,
        out.usage() == run.token_usage,
{
    let c = run.ctx.as_ref().unwrap();
    let kind = crate::capability::capability_kind_str(missing);
    let detail = crate::capability::capability_debug(missing);
    let denial = CapabilityDenial::new(
        c.agent_id.as_str(),
        c.package_id.as_str(),
        tool,
        kind.as_str(),
        detail.as_str(),
    );
    let out = snapshot(run).policy_denied_outcome(&denial);
    assert(denial_text(denial) =~= policy_denial_text(c.agent_id@, c.package_id@, tool@, *missing));
    out
}

/// The message recording the agent's call of `t`.
fn call_message(stamp: Stamp, agent: u128, t: &ToolUse) -> (m: Message)
    ensures
        tool_call_message(m, stamp, agent, *t),
{
    Message {
        id: stamp.id,
        timestamp_millis: stamp.timestamp_millis,
        sender: Address::Agent(agent),
        recipient: Address::Tool(t.name.clone()),
        payload: MessagePayload::ToolCall { args: t.input.clone() },
    }
}

fn step_streaming(run: &mut AgentRun, event: LoopEvent) -> (a: LoopAction)
    requires
        old(run).wf(),
        old(run).phase == LoopPhase::Streaming,
    ensures
        final(run).wf(),
        loop_step_spec(*old(run), event, *final(run), a),
{
    match event {
        LoopEvent::Text(d) => {
            run.turn_text.append(d.as_str());
            LoopAction::TextDelta(d)
        },
        LoopEvent::ToolUseChunk(tu) => {
            let a = started(&tu);
            run.turn_tools.push(tu);
            run.announced = run.turn_tools.len();
            a
        },
        LoopEvent::Finish { stop, usage, stamp } => {
            let agent = run.ctx.as_ref().unwrap().agent;
            if !run.turn_text.as_str().is_empty() {
                let ghost before = run.messages@;
                let m = Message {
                    id: stamp.id,
                    timestamp_millis: stamp.timestamp_millis,
                    sender: Address::Agent(agent),
                    recipient: Address::User,
                    payload: MessagePayload::Text { content: run.turn_text.clone() },
                };
                run.messages.push(m);
                assert(run.messages@.drop_last() =~= before);
            }
            if let Some(u) = usage {
                run.token_usage.input_tokens = run.token_usage.input_tokens.saturating_add(
                    u.input_tokens as u64,
                );
                run.token_usage.output_tokens = run.token_usage.output_tokens.saturating_add(
                    u.output_tokens as u64,
                );
            }
            run.turn_stop = stop;
            run.turn_usage = usage;
            run.phase = LoopPhase::Inferred;
            let (s, i, o) = inference_completed(stop, usage);
            LoopAction::InferenceCallCompleted { stop: s, tokens_in: i, tokens_out: o }
        },
        LoopEvent::LlmOpenFailed(r) => {
            run.phase = LoopPhase::Done;
            LoopAction::Fatal(llm_fatal_event(r))
        },
        LoopEvent::LlmError(r) => {
            run.phase = LoopPhase::Done;
            LoopAction::Fatal(llm_fatal_event(r))
        },
        _ => LoopAction::Idle,
    }
}

fn step_resolving(run: &mut AgentRun, event: LoopEvent) -> (a: LoopAction)
    requires
        old(run).wf(),
        old(run).phase == LoopPhase::Resolving,
    ensures
        final(run).wf(),
        loop_step_spec(*old(run), event, *final(run), a),
{
    match event {
        LoopEvent::Resolved { virtual_tool, registered, registered_names, required, stamp } => {
            let t = clone_tool_use(&run.turn_tools[run.next_tool]);
            let orchestrated = run.ctx.as_ref().unwrap().orchestrated;
            let agent = run.ctx.as_ref().unwrap().agent;
            if orchestrated && virtual_tool {
                let missing = crate::capability::check_capabilities(
                    run.ctx.as_ref().unwrap().granted.as_slice(),
                    required.as_slice(),
                );
                match missing {
                    Some(m) => {
                        proof {
                            let g = run.ctx->0.granted@;
                            let k = choose|k: int|
                                0 <= k < required@.len() && *m == required@[k]
                                    && !crate::capability::covered_by(g, required@[k]) && forall|i: int|
                                    0 <= i < k ==> crate::capability::covered_by(g, #[trigger] required@[i]);
                            assert(crate::attenuate::first_uncovered(g, required@, k));
                        }
                        let out = deny(run, t.name.as_str(), m);
                        run.phase = LoopPhase::Done;
                        LoopAction::RunCompleted(out)
                    },
                    None => {
                        let ghost before = run.messages@;
                        run.messages.push(call_message(stamp, agent, &t));
                        assert(run.messages@.drop_last() =~= before);
                        run.phase = LoopPhase::Virtual;
                        let kind = classify_virtual(t.name.as_str());
                        LoopAction::RunVirtual { kind, name: t.name, input: t.input }
                    },
                }
            } else if !registered {
                let ev = tool_not_registered_event(t.name.as_str(), &registered_names);
                run.phase = LoopPhase::Done;
                LoopAction::Fatal(ev)
            } else {
                let missing = crate::capability::check_capabilities(
                    run.ctx.as_ref().unwrap().granted.as_slice(),
                    required.as_slice(),
                );
                match missing {
                    Some(m) => {
                        proof {
                            let g = run.ctx->0.granted@;
                            let k = choose|k: int|
                                0 <= k < required@.len() && *m == required@[k]
                                    && !crate::capability::covered_by(g, required@[k]) && forall|i: int|
                                    0 <= i < k ==> crate::capability::covered_by(g, #[trigger] required@[i]);
                            assert(crate::attenuate::first_uncovered(g, required@, k));
                        }
                        let out = deny(run, t.name.as_str(), m);
                        run.phase = LoopPhase::Done;
                        LoopAction::RunCompleted(out)
                    },
                    None => {
                        let ghost before = run.messages@;
                        run.messages.push(call_message(stamp, agent, &t));
                        assert(run.messages@.drop_last() =~= before);
                        run.phase = LoopPhase::Opening;
                        LoopAction::OpenSession { name: t.name }
                    },
                }
            }
        },
        _ => LoopAction::Idle,
    }
}

/// Records the answer of the current call with `payload`, stamped `stamp`.
fn record_answer(run: &mut AgentRun, stamp: Stamp, payload: MessagePayload) -> (t: ToolUse)
    requires
        old(run).wf(),
        old(run).phase != LoopPhase::Start,
        old(run).next_tool < old(run).turn_tools@.len(),
        old(run).announced == old(run).turn_tools@.len(),
    ensures
        final(run).wf(),
        t == old(run).turn_tools@[old(run).next_tool as int],
        answered(*old(run), *final(run), final(run).messages@.last()),
        stamped(
            final(run).messages@.last(),
            stamp,
            Address::Tool(t.name),
            Address::Agent(old(run).ctx->0.agent),
        ),
        final(run).messages@.last().payload == payload,
{
    let t = clone_tool_use(&run.turn_tools[run.next_tool]);
    let agent = run.ctx.as_ref().unwrap().agent;
    let ghost before = run.messages@;
    run.messages.push(
        Message {
            id: stamp.id,
            timestamp_millis: stamp.timestamp_millis,
            sender: Address::Tool(t.name.clone()),
            recipient: Address::Agent(agent),
            payload,
        },
    );
    assert(run.messages@.drop_last() =~= before);
    run.next_tool = run.next_tool + 1;
    run.phase = LoopPhase::Dispatched;
    t
}

fn step_tool(run: &mut AgentRun, event: LoopEvent) -> (a: LoopAction)
    requires
        old(run).wf(),
        old(run).phase == LoopPhase::Virtual || old(run).phase == LoopPhase::Opening
            || old(run).phase == LoopPhase::Validating || old(run).phase == LoopPhase::Invoking,
    ensures
        final(run).wf(),
        loop_step_spec(*old(run), event, *final(run), a),
{
    let phase = run.phase;
    match event {
        LoopEvent::VirtualDone { is_error, content, stamp } => {
            if phase != LoopPhase::Virtual {
                return LoopAction::Idle;
            }
            let p = crate::provider::tool_result_payload(
                is_error,
                content.as_slice(),
                "orchestration_virtual_tool_error",
            );
            let t = record_answer(run, stamp, p);
            LoopAction::ToolCallCompleted {
                id: t.id,
                name: t.name,
                result: Ok(is_error),
                checkpoint: None,
            }
        },
        LoopEvent::SessionOpened => {
            if phase != LoopPhase::Opening {
                return LoopAction::Idle;
            }
            run.phase = LoopPhase::Validating;
            let t = &run.turn_tools[run.next_tool];
            LoopAction::Validate { name: t.name.clone(), input: t.input.clone() }
        },
        LoopEvent::SessionFailed { error } => {
            if phase != LoopPhase::Opening {
                return LoopAction::Idle;
            }
            run.phase = LoopPhase::Done;
            LoopAction::Fatal(tool_fatal_event(&error))
        },
        LoopEvent::ValidationOk => {
            if phase != LoopPhase::Validating {
                return LoopAction::Idle;
            }
            run.phase = LoopPhase::Invoking;
            let t = &run.turn_tools[run.next_tool];
            LoopAction::Invoke { name: t.name.clone(), input: t.input.clone() }
        },
        LoopEvent::ValidationFailed { reason, stamp } => {
            if phase != LoopPhase::Validating {
                return LoopAction::Idle;
            }
            let p = MessagePayload::ToolError {
                kind: String::from_str("tool_args_validation"),
                message: reason.clone(),
                details: None,
            };
            let t = record_answer(run, stamp, p);
            LoopAction::ToolCallCompleted { id: t.id, name: t.name, result: Err(reason), checkpoint: None }
        },
        LoopEvent::ToolDone { is_error, content, stamp } => {
            if phase != LoopPhase::Invoking {
                return LoopAction::Idle;
            }
            let p = crate::provider::tool_result_payload(is_error, content.as_slice(), "tool_runtime_error");
            let t = record_answer(run, stamp, p);
            let rest = tool_uses_from(&run.turn_tools, run.next_tool);
            let ck = run.checkpoint(rest);
            LoopAction::ToolCallCompleted { id: t.id, name: t.name, result: Ok(is_error), checkpoint: Some(ck) }
        },
        LoopEvent::ToolFailed { error } => {
            if phase != LoopPhase::Invoking {
                return LoopAction::Idle;
            }
            run.phase = LoopPhase::Done;
            LoopAction::Fatal(tool_fatal_event(&error))
        },
        _ => LoopAction::Idle,
    }
}

/// One step of the agent loop: performs the decision [`loop_step_spec`]
/// describes for the event the host handed back, and returns what the
/// host is to do next. The host starts a run with [`AgentRun::start`],
/// hands `Begin` first, then performs each action and hands back its
/// event, until the action is `RunCompleted` or `Fatal`.
pub fn agent_loop_step(run: &mut AgentRun, event: LoopEvent) -> (action: LoopAction)
    requires
        old(run).wf(),
    ensures
        final(run).wf(),
        loop_step_spec(*old(run), event, *final(run), action),
{
    match run.phase {
        LoopPhase::Start => match event {
            LoopEvent::Begin(cx) => {
                run.ctx = Some(cx);
                run.phase = LoopPhase::Boundary;
                LoopAction::RunStarted
            },
            _ => LoopAction::Idle,
        },
        LoopPhase::Boundary => match event {
            LoopEvent::Proceed => {
                if run.total_turns >= run.max_turns {
                    let out = snapshot(run).max_turns_outcome();
                    run.phase = LoopPhase::Done;
                    LoopAction::RunCompleted(out)
                } else if run.ctx.as_ref().unwrap().orchestrated {
                    run.phase = LoopPhase::Budget;
                    LoopAction::CheckBudget
                } else {
                    begin_turn_step(run)
                }
            },
            _ => LoopAction::Idle,
        },
        LoopPhase::Budget => match event {
            LoopEvent::BudgetOk => begin_turn_step(run),
            LoopEvent::BudgetBreached(err) => {
                let out = snapshot(run).budget_exceeded_outcome(err.as_str());
                run.phase = LoopPhase::Done;
                LoopAction::RunCompleted(out)
            },
            _ => LoopAction::Idle,
        },
        LoopPhase::Announce => match event {
            LoopEvent::Proceed => {
                if run.announced < run.turn_tools.len() {
                    let a = started(&run.turn_tools[run.announced]);
                    run.announced = run.announced + 1;
                    a
                } else {
                    resolve_next(run)
                }
            },
            _ => LoopAction::Idle,
        },
        LoopPhase::Streaming => step_streaming(run, event),
        LoopPhase::Inferred => match event {
            LoopEvent::Proceed => {
                if run.turn_tools.len() == 0 {
                    end_turn(run, LoopPhase::Closing, false)
                } else {
                    resolve_next(run)
                }
            },
            _ => LoopAction::Idle,
        },
        LoopPhase::Resolving => step_resolving(run, event),
        LoopPhase::Virtual | LoopPhase::Opening | LoopPhase::Validating | LoopPhase::Invoking =>
            step_tool(run, event),
        LoopPhase::Dispatched => match event {
            LoopEvent::Proceed => {
                if run.next_tool < run.turn_tools.len() {
                    resolve_next(run)
                } else {
                    end_turn(run, LoopPhase::Boundary, true)
                }
            },
            _ => LoopAction::Idle,
        },
        LoopPhase::Closing => match event {
            LoopEvent::Proceed => {
                let out = snapshot(run).complete();
                run.phase = LoopPhase::Done;
                LoopAction::RunCompleted(out)
            },
            _ => LoopAction::Idle,
        },
        LoopPhase::Done => LoopAction::Idle,
    }
}


/// Step `i` of a loop trace is one of [`agent_loop_step`].
pub open spec fn step_at(
    runs: Seq<AgentRun>,
    events: Seq<LoopEvent>,
    actions: Seq<LoopAction>,
    i: int,
) -> bool {
    loop_step_spec(runs[i], events[i], runs[i + 1], actions[i])
}

/// `runs`, `events` and `actions` are a run of the loop as
/// [`agent_loop_step`] drives it: it starts before `Begin`, every state is
/// well formed, and each action is the step's answer to the event.
pub open spec fn loop_trace(runs: Seq<AgentRun>, events: Seq<LoopEvent>, actions: Seq<LoopAction>) -> bool {
    &&& runs.len() == events.len() + 1
    &&& actions.len() == events.len()
    &&& runs[0].phase == LoopPhase::Start
    &&& forall|i: int| 0 <= i < runs.len() ==> (#[trigger] runs[i]).wf()
    &&& forall|i: int| 0 <= i < events.len() ==> #[trigger] step_at(runs, events, actions, i)
}

/// How one step moves between the run's end and the rest: an ended run
/// stays ended and does nothing; a run ends exactly by a terminal action.
proof fn lemma_step_ends(o: AgentRun, e: LoopEvent, n: AgentRun, a: LoopAction)
    requires
        loop_step_spec(o, e, n, a),
    ensures
        o.phase == LoopPhase::Done ==> n == o && a is Idle,
        o.phase != LoopPhase::Done ==> (n.phase == LoopPhase::Done <==> is_terminal(a)),
{
}

proof fn lemma_done_stays(
    runs: Seq<AgentRun>,
    events: Seq<LoopEvent>,
    actions: Seq<LoopAction>,
    i: int,
    j: int,
)
    requires
        loop_trace(runs, events, actions),
        0 <= i <= j < runs.len(),
        runs[i].phase == LoopPhase::Done,
    ensures
        runs[j].phase == LoopPhase::Done,
        forall|k: int| i <= k < j ==> #[trigger] actions[k] is Idle,
    decreases j - i,
{
    if j > i {
        lemma_done_stays(runs, events, actions, i, j - 1);
        assert(step_at(runs, events, actions, j - 1));
        lemma_step_ends(runs[j - 1], events[j - 1], runs[j], actions[j - 1]);
    }
}

proof fn lemma_done_has_terminal(
    runs: Seq<AgentRun>,
    events: Seq<LoopEvent>,
    actions: Seq<LoopAction>,
    j: int,
)
    requires
        loop_trace(runs, events, actions),
        0 <= j < runs.len(),
        runs[j].phase == LoopPhase::Done,
    ensures
        exists|i: int| 0 <= i < j && is_terminal(#[trigger] actions[i]),
    decreases j,
{
    if j > 0 {
        assert(step_at(runs, events, actions, j - 1));
        lemma_step_ends(runs[j - 1], events[j - 1], runs[j], actions[j - 1]);
        if runs[j - 1].phase == LoopPhase::Done {
            lemma_done_has_terminal(runs, events, actions, j - 1);
        } else {
            assert(is_terminal(actions[j - 1]));
        }
    }
}

/// A run ends once: after a `RunCompleted` or `Fatal` action the loop
/// does nothing more (so no second terminal action ever comes), and a
/// run that has ended reported its end by exactly such an action.
pub proof fn law_single_terminal(runs: Seq<AgentRun>, events: Seq<LoopEvent>, actions: Seq<LoopAction>)
    requires
        loop_trace(runs, events, actions),
    ensures
        forall|i: int, j: int|
            0 <= i < j < actions.len() && is_terminal(#[trigger] actions[i]) ==> #[trigger] actions[j] is Idle,
        runs.last().phase == LoopPhase::Done ==> exists|i: int|
            0 <= i < actions.len() && is_terminal(#[trigger] actions[i]),
{
    assert forall|i: int, j: int|
        0 <= i < j < actions.len() && is_terminal(#[trigger] actions[i]) implies #[trigger] actions[j] is Idle by {
        assert(step_at(runs, events, actions, i));
        lemma_step_ends(runs[i], events[i], runs[i + 1], actions[i]);
        if runs[i].phase == LoopPhase::Done {
            assert(actions[i] is Idle);
        }
        lemma_done_stays(runs, events, actions, i + 1, j + 1);
    }
    if runs.last().phase == LoopPhase::Done {
        lemma_done_has_terminal(runs, events, actions, runs.len() - 1);
    }
}

/// The ids of a list of calls.
pub open spec fn call_ids(ts: Seq<ToolUse>) -> Seq<Seq<char>> {
    ts.map_values(|t: ToolUse| t.id@)
}

/// The calls still open after `q` are open and action `a` is reported:
/// an announcement opens its call; a completion must close the earliest
/// open call; a turn may end only with none open. `None` when `a` breaks
/// the pairing.
pub open spec fn next_open(q: Seq<Seq<char>>, a: LoopAction) -> Option<Seq<Seq<char>>> {
    match a {
        LoopAction::ToolCallStarted { id, .. } => Some(q.push(id@)),
        LoopAction::ToolCallCompleted { id, .. } => if q.len() > 0 && q[0] == id@ {
            Some(q.drop_first())
        } else {
            None
        },
        LoopAction::TurnCompleted { .. } => if q.len() == 0 {
            Some(q)
        } else {
            None
        },
        _ => Some(q),
    }
}

/// The announced calls not yet completed after `acts`, in announcement
/// order; `None` when the actions break the pairing of announcements and
/// completions.
pub open spec fn open_calls(acts: Seq<LoopAction>) -> Option<Seq<Seq<char>>>
    decreases acts.len(),
{
    if acts.len() == 0 {
        Some(seq![])
    } else {
        match open_calls(acts.drop_last()) {
            None => None,
            Some(q) => next_open(q, acts.last()),
        }
    }
}

/// The open calls the loop's state accounts for.
pub open spec fn open_inv(r: AgentRun, q: Seq<Seq<char>>) -> bool {
    match r.phase {
        LoopPhase::Start | LoopPhase::Boundary | LoopPhase::Budget | LoopPhase::Closing => q.len() == 0,
        LoopPhase::Done => true,
        _ => q == call_ids(r.turn_tools@.subrange(r.next_tool as int, r.announced as int)),
    }
}

spec fn pairs_post(q: Seq<Seq<char>>, a: LoopAction, n: AgentRun) -> bool {
    next_open(q, a) is Some && open_inv(n, next_open(q, a)->0)
}

#[verifier::rlimit(60)]
proof fn lemma_step_pairs(o: AgentRun, e: LoopEvent, n: AgentRun, a: LoopAction, q: Seq<Seq<char>>)
    requires
        o.wf(),
        n.wf(),
        loop_step_spec(o, e, n, a),
        open_inv(o, q),
    ensures
        pairs_post(q, a, n),
{
    let ts = o.turn_tools@;
    let nts = n.turn_tools@;
    if a is Idle {
    } else {
        match o.phase {
            LoopPhase::Start => {},
            LoopPhase::Boundary | LoopPhase::Budget => {
                if n.phase == LoopPhase::Announce {
                    assert(nts.subrange(n.next_tool as int, n.announced as int) =~= seq![nts[0]]);
                    assert(call_ids(nts.subrange(0, 1)) =~= seq![nts[0].id@]);
                    assert(q.push(nts[0].id@) =~= seq![nts[0].id@]);
                } else if n.phase == LoopPhase::Streaming {
                    assert(call_ids(nts.subrange(0, 0)) =~= Seq::<Seq<char>>::empty());
                    assert(q =~= Seq::<Seq<char>>::empty());
                }
            },
            LoopPhase::Announce => {
                if a is ToolCallStarted {
                    assert(ts.subrange(0, o.announced + 1) =~= ts.subrange(0, o.announced as int).push(
                        ts[o.announced as int],
                    ));
                    assert(call_ids(ts.subrange(0, o.announced + 1)) =~= call_ids(
                        ts.subrange(0, o.announced as int),
                    ).push(ts[o.announced as int].id@));
                }
                assert(pairs_post(q, a, n));
            },
            LoopPhase::Streaming => {
                if a is ToolCallStarted {
                    assert(nts.subrange(0, n.announced as int) =~= ts.subrange(0, o.announced as int).push(
                        nts[o.announced as int],
                    ));
                    assert(call_ids(nts.subrange(0, n.announced as int)) =~= call_ids(
                        ts.subrange(0, o.announced as int),
                    ).push(nts[o.announced as int].id@));
                }
                assert(pairs_post(q, a, n));
            },
            LoopPhase::Inferred | LoopPhase::Dispatched => {
                if a is TurnCompleted {
                    assert(call_ids(ts.subrange(o.next_tool as int, o.announced as int)) =~= Seq::<
                        Seq<char>,
                    >::empty());
                }
                assert(pairs_post(q, a, n));
            },
            LoopPhase::Virtual | LoopPhase::Validating | LoopPhase::Invoking => {
                if a is ToolCallCompleted {
                    let k = o.next_tool as int;
                    assert(call_ids(ts.subrange(k, o.announced as int))[0] == ts[k].id@);
                    assert(call_ids(ts.subrange(k, o.announced as int)).drop_first() =~= call_ids(
                        ts.subrange(k + 1, o.announced as int),
                    ));
                }
                assert(pairs_post(q, a, n));
            },
            _ => {},
        }
    }
}

proof fn lemma_open_prefix(
    runs: Seq<AgentRun>,
    events: Seq<LoopEvent>,
    actions: Seq<LoopAction>,
    i: int,
)
    requires
        loop_trace(runs, events, actions),
        0 <= i <= actions.len(),
    ensures
        open_calls(actions.take(i)) matches Some(q) && open_inv(runs[i], q),
    decreases i,
{
    if i == 0 {
        assert(actions.take(0) =~= Seq::<LoopAction>::empty());
    } else {
        lemma_open_prefix(runs, events, actions, i - 1);
        let q = open_calls(actions.take(i - 1))->0;
        assert(step_at(runs, events, actions, i - 1));
        assert(runs[i - 1].wf() && runs[i].wf());
        lemma_step_pairs(runs[i - 1], events[i - 1], runs[i], actions[i - 1], q);
        assert(actions.take(i).drop_last() =~= actions.take(i - 1));
        assert(actions.take(i).last() == actions[i - 1]);
    }
}

/// Tool calls pair up: every completion reported completes the earliest
/// call announced and not yet completed (so it carries its id), and a
/// turn is reported complete only once every call announced in it was
/// completed. A run may end with calls still open.
pub proof fn law_started_completed_paired(
    runs: Seq<AgentRun>,
    events: Seq<LoopEvent>,
    actions: Seq<LoopAction>,
)
    requires
        loop_trace(runs, events, actions),
    ensures
        open_calls(actions) is Some,
{
    lemma_open_prefix(runs, events, actions, actions.len() as int);
    assert(actions.take(actions.len() as int) =~= actions);
}

proof fn lemma_step_turns(o: AgentRun, e: LoopEvent, n: AgentRun, a: LoopAction)
    requires
        o.wf(),
        n.wf(),
        loop_step_spec(o, e, n, a),
    ensures
        n.max_turns == o.max_turns,
        n.total_turns == o.total_turns || (n.total_turns == o.total_turns + 1 && o.total_turns
            < o.max_turns),
        a matches LoopAction::TurnCompleted { turn, .. } ==> turn == o.total_turns,
{
}

proof fn lemma_turns_prefix(runs: Seq<AgentRun>, events: Seq<LoopEvent>, actions: Seq<LoopAction>, i: int)
    requires
        loop_trace(runs, events, actions),
        runs[0].total_turns <= runs[0].max_turns,
        0 <= i < runs.len(),
    ensures
        runs[i].max_turns == runs[0].max_turns,
        runs[i].total_turns <= runs[0].max_turns,
    decreases i,
{
    if i > 0 {
        lemma_turns_prefix(runs, events, actions, i - 1);
        assert(step_at(runs, events, actions, i - 1));
        lemma_step_turns(runs[i - 1], events[i - 1], runs[i], actions[i - 1]);
    }
}

/// The turn limit holds for a run that starts within it: every state
/// keeps the run's `max_turns`, the turn count never passes it (a turn
/// begins only below the limit), and every `TurnCompleted` reports a turn
/// within it.
pub proof fn law_turns_bounded(runs: Seq<AgentRun>, events: Seq<LoopEvent>, actions: Seq<LoopAction>)
    requires
        loop_trace(runs, events, actions),
        runs[0].total_turns <= runs[0].max_turns,
    ensures
        forall|i: int|
            0 <= i < runs.len() ==> (#[trigger] runs[i]).max_turns == runs[0].max_turns
                && runs[i].total_turns <= runs[0].max_turns,
        forall|i: int|
            0 <= i < actions.len() ==> (#[trigger] actions[i] matches LoopAction::TurnCompleted {
                turn,
                ..
            } ==> turn <= runs[0].max_turns),
{
    assert forall|i: int| 0 <= i < runs.len() implies (#[trigger] runs[i]).max_turns
        == runs[0].max_turns && runs[i].total_turns <= runs[0].max_turns by {
        lemma_turns_prefix(runs, events, actions, i);
    }
    assert forall|i: int| 0 <= i < actions.len() implies (#[trigger] actions[i] matches LoopAction::TurnCompleted {
        turn,
        ..
    } ==> turn <= runs[0].max_turns) by {
        lemma_turns_prefix(runs, events, actions, i);
        assert(step_at(runs, events, actions, i));
        lemma_step_turns(runs[i], events[i], runs[i + 1], actions[i]);
    }
}

proof fn lemma_idle_keeps(o: AgentRun, e: LoopEvent, n: AgentRun, a: LoopAction)
    requires
        o.wf(),
        loop_step_spec(o, e, n, a),
        a is Idle,
    ensures
        n == o,
{
}

proof fn lemma_idle_prefix(runs: Seq<AgentRun>, events: Seq<LoopEvent>, actions: Seq<LoopAction>, i: int)
    requires
        loop_trace(runs, events, actions),
        0 <= i < runs.len(),
        forall|j: int| 0 <= j < i ==> (#[trigger] actions[j]) is Idle,
    ensures
        runs[i] == runs[0],
    decreases i,
{
    if i > 0 {
        lemma_idle_prefix(runs, events, actions, i - 1);
        assert(step_at(runs, events, actions, i - 1));
        assert(actions[i - 1] is Idle);
        lemma_idle_keeps(runs[i - 1], events[i - 1], runs[i], actions[i - 1]);
    }
}

/// A run reports `RunStarted` before anything else: the first action that
/// is not `Idle` is `RunStarted`.
pub proof fn law_run_started_first(runs: Seq<AgentRun>, events: Seq<LoopEvent>, actions: Seq<LoopAction>, i: int)
    requires
        loop_trace(runs, events, actions),
        0 <= i < actions.len(),
        !(actions[i] is Idle),
        forall|j: int| 0 <= j < i ==> (#[trigger] actions[j]) is Idle,
    ensures
        actions[i] is RunStarted,
{
    lemma_idle_prefix(runs, events, actions, i);
    assert(step_at(runs, events, actions, i));
}

proof fn lemma_step_no_completion_open(o: AgentRun, e: LoopEvent, n: AgentRun, a: LoopAction, q: Seq<Seq<char>>)
    requires
        o.wf(),
        loop_step_spec(o, e, n, a),
        open_inv(o, q),
        q.len() > 0,
    ensures
        !(a matches LoopAction::RunCompleted(RunOutcome::Completed { .. })),
{
}

/// A run that ends with tool calls still open ends in failure: its
/// terminal action is `Fatal` or a `RunCompleted` of a failed outcome,
/// never a completed one.
pub proof fn law_open_calls_end_in_failure(
    runs: Seq<AgentRun>,
    events: Seq<LoopEvent>,
    actions: Seq<LoopAction>,
    i: int,
)
    requires
        loop_trace(runs, events, actions),
        0 <= i < actions.len(),
        is_terminal(actions[i]),
        open_calls(actions.take(i)) matches Some(q) && q.len() > 0,
    ensures
        actions[i] is Fatal || (actions[i] matches LoopAction::RunCompleted(out) && out is Failed),
{
    lemma_open_prefix(runs, events, actions, i);
    let q = open_calls(actions.take(i))->0;
    assert(step_at(runs, events, actions, i));
    lemma_step_no_completion_open(runs[i], events[i], runs[i + 1], actions[i], q);
}

/// The phases inside a turn: after it began and before its end was
/// reported.
pub open spec fn in_turn(p: LoopPhase) -> bool {
    !(p == LoopPhase::Start || p == LoopPhase::Boundary || p == LoopPhase::Budget || p
        == LoopPhase::Closing || p == LoopPhase::Done)
}

/// How many `TurnCompleted` actions `acts` holds.
pub open spec fn turns_completed(acts: Seq<LoopAction>) -> nat
    decreases acts.len(),
{
    if acts.len() == 0 {
        0
    } else {
        turns_completed(acts.drop_last()) + if acts.last() is TurnCompleted {
            1nat
        } else {
            0nat
        }
    }
}

proof fn lemma_step_turn_count(o: AgentRun, e: LoopEvent, n: AgentRun, a: LoopAction)
    requires
        o.wf(),
        n.wf(),
        loop_step_spec(o, e, n, a),
        o.phase != LoopPhase::Done,
    ensures
        n.phase != LoopPhase::Done ==> n.total_turns - (if in_turn(n.phase) {
            1int
        } else {
            0int
        }) == o.total_turns - (if in_turn(o.phase) {
            1int
        } else {
            0int
        }) + (if a is TurnCompleted {
            1int
        } else {
            0int
        }),
        a matches LoopAction::TurnCompleted { turn, .. } ==> turn == o.total_turns && in_turn(
            o.phase,
        ),
        o.phase == LoopPhase::Start ==> !(a is TurnCompleted),
{
}

proof fn lemma_turn_count_prefix(
    runs: Seq<AgentRun>,
    events: Seq<LoopEvent>,
    actions: Seq<LoopAction>,
    i: int,
)
    requires
        loop_trace(runs, events, actions),
        0 <= i < runs.len(),
        runs[i].phase != LoopPhase::Done,
    ensures
        runs[i].total_turns - (if in_turn(runs[i].phase) {
            1int
        } else {
            0int
        }) == runs[0].total_turns + turns_completed(actions.take(i)),
    decreases i,
{
    if i == 0 {
        assert(actions.take(0) =~= Seq::<LoopAction>::empty());
    } else {
        assert(step_at(runs, events, actions, i - 1));
        if runs[i - 1].phase == LoopPhase::Done {
            lemma_step_ends(runs[i - 1], events[i - 1], runs[i], actions[i - 1]);
        }
        lemma_turn_count_prefix(runs, events, actions, i - 1);
        lemma_step_turn_count(runs[i - 1], events[i - 1], runs[i], actions[i - 1]);
        assert(actions.take(i).drop_last() =~= actions.take(i - 1));
        assert(actions.take(i).last() == actions[i - 1]);
    }
}

/// Turns are reported in order and counted against the limit: the k-th
/// `TurnCompleted` of a run (counting from the turn it started at)
/// reports turn `start + k`; and a run of fresh turns that ends at a turn
/// boundary, which only the turn limit does, has reported exactly
/// `max_turns - start` of them (`max_turns` for a fresh run; none, right
/// after `RunStarted`, when the limit is 0).
pub proof fn law_turns_counted(runs: Seq<AgentRun>, events: Seq<LoopEvent>, actions: Seq<LoopAction>)
    requires
        loop_trace(runs, events, actions),
        runs[0].total_turns <= runs[0].max_turns,
    ensures
        forall|i: int|
            0 <= i < actions.len() ==> (#[trigger] actions[i] matches LoopAction::TurnCompleted {
                turn,
                ..
            } ==> turn == runs[0].total_turns + turns_completed(actions.take(i)) + 1),
        forall|i: int|
            0 <= i < actions.len() && runs[i].phase == LoopPhase::Boundary && is_terminal(
                #[trigger] actions[i],
            ) ==> turns_completed(actions.take(i)) == runs[0].max_turns - runs[0].total_turns,
{
    assert forall|i: int|
        0 <= i < actions.len() implies (#[trigger] actions[i] matches LoopAction::TurnCompleted {
        turn,
        ..
    } ==> turn == runs[0].total_turns + turns_completed(actions.take(i)) + 1) by {
        if actions[i] is TurnCompleted {
            assert(step_at(runs, events, actions, i));
            if runs[i].phase == LoopPhase::Done {
                lemma_step_ends(runs[i], events[i], runs[i + 1], actions[i]);
            }
            lemma_turn_count_prefix(runs, events, actions, i);
            lemma_step_turn_count(runs[i], events[i], runs[i + 1], actions[i]);
        }
    }
    assert forall|i: int|
        0 <= i < actions.len() && runs[i].phase == LoopPhase::Boundary && is_terminal(
            #[trigger] actions[i],
        ) implies turns_completed(actions.take(i)) == runs[0].max_turns - runs[0].total_turns by {
        assert(step_at(runs, events, actions, i));
        lemma_turn_count_prefix(runs, events, actions, i);
        lemma_turns_prefix(runs, events, actions, i);
    }
}

} // verus!
