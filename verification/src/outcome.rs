//! Outcomes of a kernel run: completion or an agent-level failure
//! (which is not a kernel error).

use vstd::prelude::*;

use crate::message::Message;
use crate::options::TokenUsage;
use crate::output_store::OutputStore;

verus! {

/// Why an agent failed.
#[derive(Debug, Clone, Copy, PartialEq, Eq, Structural)]
pub enum FailureKind {
    /// A capability check denied a tool call.
    PolicyDenied,
    /// A turn or budget limit was reached.
    OutOfResources,
    /// The LLM backend failed.
    BackendError,
    /// The agent crashed.
    Crashed,
    /// An internal invariant failed.
    InternalError,
}

/// The status an agent ended in.
#[derive(Debug, Clone, PartialEq, Eq)]
pub enum AgentStatus {
    /// Stopped from outside before it finished.
    Stopped,
    /// Failed with a kind and an optional detail.
    Failed { kind: FailureKind, detail: Option<String> },
}

/// Outcome of a run.
#[derive(Debug, Clone, PartialEq, Eq)]
pub enum RunOutcome {
    /// The agent finished and produced a final response.
    Completed {
        final_message: Message,
        all_messages: Vec<Message>,
        total_turns: u32,
        token_usage: TokenUsage,
    },
    /// The agent ran but failed; the partial conversation is kept.
    Failed {
        status: AgentStatus,
        all_messages: Vec<Message>,
        total_turns: u32,
        token_usage: TokenUsage,
    },
}

impl RunOutcome {
    /// The conversation the outcome carries.
    pub open spec fn messages(self) -> Seq<Message> {
        match self {
            RunOutcome::Completed { all_messages, .. } => all_messages@,
            RunOutcome::Failed { all_messages, .. } => all_messages@,
        }
    }

    /// The number of turns the outcome reports.
    pub open spec fn turns(self) -> u32 {
        match self {
            RunOutcome::Completed { total_turns, .. } => total_turns,
            RunOutcome::Failed { total_turns, .. } => total_turns,
        }
    }

    /// The token usage the outcome reports.
    pub open spec fn usage(self) -> TokenUsage {
        match self {
            RunOutcome::Completed { token_usage, .. } => token_usage,
            RunOutcome::Failed { token_usage, .. } => token_usage,
        }
    }

    /// `self` is a failure of `kind` whose detail reads `detail`.
    pub open spec fn failed_with(self, kind: FailureKind, detail: Seq<char>) -> bool {
        self matches RunOutcome::Failed { status: AgentStatus::Failed { kind: k, detail: Some(d) }, .. }
            && k == kind && d@ == detail
    }
}


/// How a pipeline run ended.
#[derive(Debug)]
pub enum PipelineStatus {
    /// Every step and check passed.
    Completed,
    /// An agent step failed (an agent-level failure, not a kernel error).
    AgentFailed { step: String, status: AgentStatus },
    /// A check failed for good and aborted the run.
    CheckAborted { check: String, rationale: String },
}

/// Outcome of a pipeline run: every step's output, the tokens of all
/// steps and retries, and how it ended.
#[derive(Debug)]
pub struct PipelineOutcome {
    /// The step outputs, by step id.
    pub outputs: OutputStore,
    /// Token usage over all steps and attempts.
    pub token_usage: TokenUsage,
    /// How the run ended.
    pub status: PipelineStatus,
}

} // verus!
