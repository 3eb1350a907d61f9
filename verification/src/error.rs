//! Error types of the runtime kernel and their rendered messages.
//!
//! - [`BuildError`]: failures while assembling a runtime.
//! - [`RuntimeError`]: kernel-level operational failures of a run.
//! - [`CapabilityDenial`]: the detail carried by an agent-level
//!   `PolicyDenied` failure (not a kernel error).

use vstd::prelude::*;

use crate::agent_run::{render_strings_debug, string_views, strings_debug};
use crate::text::{concat2, debug_str, decimal, str_debug, u64_to_decimal};

verus! {

/// Tag identifying a plugin kind in error messages.
#[derive(Debug, Clone, Copy, PartialEq, Eq, Structural, Hash)]
pub enum PluginKind {
    /// LLM backend plugin.
    LlmBackend,
    /// Tool plugin.
    Tool,
    /// Storage plugin.
    Storage,
    /// Sandbox plugin (reserved).
    Sandbox,
}

/// The rendered name of a plugin kind.
pub open spec fn plugin_kind_text(k: PluginKind) -> Seq<char> {
    match k {
        PluginKind::LlmBackend => "llm-backend"@,
        PluginKind::Tool => "tool"@,
        PluginKind::Storage => "storage"@,
        PluginKind::Sandbox => "sandbox"@,
    }
}

impl PluginKind {
    /// The rendered name (`llm-backend`, `tool`, `storage`, `sandbox`).
    pub fn to_string(&self) -> (s: String)
        ensures
            s@ == plugin_kind_text(*self),
    {
        match self {
            PluginKind::LlmBackend => String::from_str("llm-backend"),
            PluginKind::Tool => String::from_str("tool"),
            PluginKind::Storage => String::from_str("storage"),
            PluginKind::Sandbox => String::from_str("sandbox"),
        }
    }
}

/// Errors from assembling a runtime.
#[derive(Debug, Clone, PartialEq, Eq)]
pub enum BuildError {
    /// At least one LLM backend must be registered.
    NoLlmBackend,
    /// Two plugins of one kind registered under one name.
    NameCollision { kind: PluginKind, name: String },
    /// A tool's declared `input_schema` is not a valid schema.
    ToolSchemaInvalid { tool_name: String, detail: String },
    /// Invariant violation during build.
    Internal { message: String },
}

/// The rendered message of a build error.
pub open spec fn build_error_text(e: BuildError) -> Seq<char> {
    match e {
        BuildError::NoLlmBackend => "no LLM backends registered; at least one is required"@,
        BuildError::NameCollision { kind, name } => "name collision: two "@ + plugin_kind_text(kind)
            + "s registered as "@ + str_debug(name@),
        BuildError::ToolSchemaInvalid { tool_name, detail } => "tool "@ + str_debug(tool_name@)
            + ": input_schema is not a valid Draft 7 schema: "@ + detail@,
        BuildError::Internal { message } => "internal: "@ + message@,
    }
}

impl BuildError {
    /// The rendered message.
    pub fn to_string(&self) -> (s: String)
        ensures
            s@ == build_error_text(*self),
    {
        match self {
            BuildError::NoLlmBackend => String::from_str(
                "no LLM backends registered; at least one is required",
            ),
            BuildError::NameCollision { kind, name } => {
                let mut s = String::from_str("name collision: two ");
                let k = kind.to_string();
                s.append(k.as_str());
                s.append("s registered as ");
                let d = debug_str(name.as_str());
                s.append(d.as_str());
                s
            },
            BuildError::ToolSchemaInvalid { tool_name, detail } => {
                let mut s = String::from_str("tool ");
                let d = debug_str(tool_name.as_str());
                s.append(d.as_str());
                s.append(": input_schema is not a valid Draft 7 schema: ");
                s.append(detail.as_str());
                s
            },
            BuildError::Internal { message } => concat2("internal: ", message.as_str()),
        }
    }
}

/// Capability-denial detail carried by an agent-level `PolicyDenied`
/// failure when capability enforcement rejects a tool call.
#[derive(Debug, Clone, PartialEq, Eq)]
pub struct CapabilityDenial {
    /// The agent's id.
    pub agent_id: String,
    /// The agent's package id.
    pub package_id: String,
    /// The tool the agent attempted to call.
    pub tool_name: String,
    /// Top-level kind of the missing capability.
    pub required_kind: String,
    /// Description of the capability that was not satisfied.
    pub required_detail: String,
}

/// The rendered message of a capability denial.
pub open spec fn denial_text(d: CapabilityDenial) -> Seq<char> {
    "agent "@ + d.agent_id@ + " (package "@ + d.package_id@ + ") lacks capability `"@
        + d.required_kind@ + "` ("@ + d.required_detail@ + ") required to call tool `"@
        + d.tool_name@ + "`"@
}

impl CapabilityDenial {
    /// Builds a denial from its five fields.
    pub fn new(
        agent_id: &str,
        package_id: &str,
        tool_name: &str,
        required_kind: &str,
        required_detail: &str,
    ) -> (d: Self)
        ensures
            d.agent_id@ == agent_id@,
            d.package_id@ == package_id@,
            d.tool_name@ == tool_name@,
            d.required_kind@ == required_kind@,
            d.required_detail@ == required_detail@,
    {
        CapabilityDenial {
            agent_id: String::from_str(agent_id),
            package_id: String::from_str(package_id),
            tool_name: String::from_str(tool_name),
            required_kind: String::from_str(required_kind),
            required_detail: String::from_str(required_detail),
        }
    }

    /// The rendered message: `agent A (package P) lacks capability `K`
    /// (D) required to call tool `T``.
    pub fn to_string(&self) -> (s: String)
        ensures
            s@ == denial_text(*self),
    {
        let mut s = String::from_str("agent ");
        s.append(self.agent_id.as_str());
        s.append(" (package ");
        s.append(self.package_id.as_str());
        s.append(") lacks capability `");
        s.append(self.required_kind.as_str());
        s.append("` (");
        s.append(self.required_detail.as_str());
        s.append(") required to call tool `");
        s.append(self.tool_name.as_str());
        s.append("`");
        s
    }
}

/// Error of a tool plugin, by variant; each carries the plugin's text.
#[derive(Debug, Clone, PartialEq, Eq)]
pub enum ToolError {
    /// Arguments rejected.
    BadArgs { reason: String },
    /// Internal tool failure.
    Internal { message: String },
    /// The tool session died.
    SessionDead { reason: String },
    /// The call ran past its deadline.
    DeadlineExceeded,
    /// The sandbox denied a capability.
    CapabilityDenied { capability: String },
}

/// The rendered message of a tool error.
pub open spec fn tool_error_text(e: ToolError) -> Seq<char> {
    match e {
        ToolError::BadArgs { reason } => "bad args: "@ + reason@,
        ToolError::Internal { message } => "internal: "@ + message@,
        ToolError::SessionDead { reason } => "session dead: "@ + reason@,
        ToolError::DeadlineExceeded => "deadline exceeded"@,
        ToolError::CapabilityDenied { capability } => "capability denied: "@ + capability@,
    }
}

impl ToolError {
    /// The rendered message, e.g. `bad args: <reason>`.
    pub fn to_string(&self) -> (s: String)
        ensures
            s@ == tool_error_text(*self),
    {
        match self {
            ToolError::BadArgs { reason } => concat2("bad args: ", reason.as_str()),
            ToolError::Internal { message } => concat2("internal: ", message.as_str()),
            ToolError::SessionDead { reason } => concat2("session dead: ", reason.as_str()),
            ToolError::DeadlineExceeded => String::from_str("deadline exceeded"),
            ToolError::CapabilityDenied { capability } => concat2(
                "capability denied: ",
                capability.as_str(),
            ),
        }
    }
}

/// Kernel-level operational failures of a run. Agent-level failures
/// (capability denied, max turns) are run outcomes, not these.
#[derive(Debug, Clone, PartialEq, Eq)]
pub enum RuntimeError {
    /// The agent's backend is not registered.
    LlmBackendNotRegistered { agent_id: String, backend: String },
    /// The model asked for a tool not in the registry.
    ToolNotRegistered { tool_name: String, registered: Vec<String> },
    /// A plugin's output violates its contract.
    PluginContractViolation { plugin: String, detail: String },
    /// A plugin's handshake failed.
    PluginHandshakeFailed { plugin: String, reason: HandshakeFailureReason },
    /// An LLM backend failed; carries its rendered message.
    Llm { message: String },
    /// A tool failed.
    Tool(ToolError),
    /// The per-turn context pipeline failed.
    ContextPipeline { detail: String },
    /// A project override widened the package grant.
    CapabilityOverrideExpands { kind: String, reason: String },
    /// A named agent is absent from the module.
    AgentNotFound { agent: String },
    /// A pipeline check failed for good.
    CheckFailed { id: String, kind: String, rationale: String, attempt: u32 },
    /// A pipeline loop ran `max_iters` passes without its condition holding.
    LoopExhausted { step: String, max_iters: u32 },
    /// A pipeline suspend block was reached; suspension is not supported.
    SuspendNotImplemented { step: String, resume_signal: String },
    /// Invariant violation.
    Internal { message: String },
}

/// The rendered message of a kernel error.
pub open spec fn runtime_error_text(e: RuntimeError) -> Seq<char> {
    match e {
        RuntimeError::LlmBackendNotRegistered { agent_id, backend } => "LLM backend `"@ + backend@
            + "` not registered (agent "@ + agent_id@ + " requested it)"@,
        RuntimeError::ToolNotRegistered { tool_name, registered } => "tool `"@ + tool_name@
            + "` not registered; registered: "@ + strings_debug(string_views(registered@)),
        RuntimeError::PluginContractViolation { plugin, detail } => "plugin "@ + plugin@
            + " contract violation: "@ + detail@,
        RuntimeError::PluginHandshakeFailed { plugin, reason } => "plugin "@ + plugin@
            + " handshake failed: "@ + handshake_text(reason),
        RuntimeError::Llm { message } => "llm: "@ + message@,
        RuntimeError::Tool(e) => "tool: "@ + tool_error_text(e),
        RuntimeError::ContextPipeline { detail } => "context pipeline: "@ + detail@,
        RuntimeError::CapabilityOverrideExpands { kind, reason } => "capability override on "@
            + str_debug(kind@) + " expands package grant: "@ + reason@,
        RuntimeError::AgentNotFound { agent } => "agent `"@ + agent@ + "` not found"@,
        RuntimeError::CheckFailed { id, kind, rationale, attempt } => "check `"@ + id@ + "` ("@
            + kind@ + ") failed after attempt "@ + decimal(attempt as nat) + ": "@ + rationale@,
        RuntimeError::LoopExhausted { step, max_iters } => "loop `"@ + step@ + "` exhausted "@
            + decimal(max_iters as nat) + " iterations"@,
        RuntimeError::SuspendNotImplemented { step, resume_signal } => "suspend at `"@ + step@
            + "` (resume signal "@ + resume_signal@ + ") is not implemented"@,
        RuntimeError::Internal { message } => "internal: "@ + message@,
    }
}

impl RuntimeError {
    /// The rendered message.
    pub fn to_string(&self) -> (s: String)
        ensures
            s@ == runtime_error_text(*self),
    {
        match self {
            RuntimeError::LlmBackendNotRegistered { agent_id, backend } => {
                let mut s = String::from_str("LLM backend `");
                s.append(backend.as_str());
                s.append("` not registered (agent ");
                s.append(agent_id.as_str());
                s.append(" requested it)");
                s
            },
            RuntimeError::ToolNotRegistered { tool_name, registered } => {
                let mut s = String::from_str("tool `");
                s.append(tool_name.as_str());
                s.append("` not registered; registered: ");
                let l = render_strings_debug(registered);
                s.append(l.as_str());
                s
            },
            RuntimeError::PluginContractViolation { plugin, detail } => {
                let mut s = String::from_str("plugin ");
                s.append(plugin.as_str());
                s.append(" contract violation: ");
                s.append(detail.as_str());
                s
            },
            RuntimeError::PluginHandshakeFailed { plugin, reason } => {
                let mut s = String::from_str("plugin ");
                s.append(plugin.as_str());
                s.append(" handshake failed: ");
                let r = reason.to_string();
                s.append(r.as_str());
                s
            },
            RuntimeError::Llm { message } => concat2("llm: ", message.as_str()),
            RuntimeError::Tool(e) => {
                let t = e.to_string();
                concat2("tool: ", t.as_str())
            },
            RuntimeError::ContextPipeline { detail } => concat2("context pipeline: ", detail.as_str()),
            RuntimeError::CapabilityOverrideExpands { kind, reason } => {
                let mut s = String::from_str("capability override on ");
                let d = debug_str(kind.as_str());
                s.append(d.as_str());
                s.append(" expands package grant: ");
                s.append(reason.as_str());
                s
            },
            RuntimeError::AgentNotFound { agent } => {
                let mut s = String::from_str("agent `");
                s.append(agent.as_str());
                s.append("` not found");
                s
            },
            RuntimeError::CheckFailed { id, kind, rationale, attempt } => {
                let mut s = String::from_str("check `");
                s.append(id.as_str());
                s.append("` (");
                s.append(kind.as_str());
                s.append(") failed after attempt ");
                let n = u64_to_decimal(*attempt as u64);
                s.append(n.as_str());
                s.append(": ");
                s.append(rationale.as_str());
                s
            },
            RuntimeError::LoopExhausted { step, max_iters } => {
                let mut s = String::from_str("loop `");
                s.append(step.as_str());
                s.append("` exhausted ");
                let n = u64_to_decimal(*max_iters as u64);
                s.append(n.as_str());
                s.append(" iterations");
                s
            },
            RuntimeError::SuspendNotImplemented { step, resume_signal } => {
                let mut s = String::from_str("suspend at `");
                s.append(step.as_str());
                s.append("` (resume signal ");
                s.append(resume_signal.as_str());
                s.append(") is not implemented");
                s
            },
            RuntimeError::Internal { message } => concat2("internal: ", message.as_str()),
        }
    }
}

/// Why a plugin handshake failed. Port kinds are held as their rendered
/// names.
#[derive(Debug, Clone, PartialEq, Eq)]
pub enum HandshakeFailureReason {
    /// No answer within the handshake timeout.
    Timeout,
    /// Host and plugin protocol versions differ.
    ProtocolVersionMismatch { host: String, plugin: String },
    /// The plugin advertises another port than its manifest declares.
    ProvidesMismatch { manifest: String, plugin_advertised: String },
    /// A method the host requires is not advertised.
    MissingRequiredMethod { method: String },
    /// The handshake response was malformed.
    Malformed { detail: String },
}

/// The rendered message of a handshake failure.
pub open spec fn handshake_text(r: HandshakeFailureReason) -> Seq<char> {
    match r {
        HandshakeFailureReason::Timeout => "timeout"@,
        HandshakeFailureReason::ProtocolVersionMismatch { host, plugin } =>
            "protocol version mismatch: host "@ + host@ + ", plugin "@ + plugin@,
        HandshakeFailureReason::ProvidesMismatch { manifest, plugin_advertised } =>
            "provides mismatch: manifest says "@ + manifest@ + ", plugin advertises "@
            + plugin_advertised@,
        HandshakeFailureReason::MissingRequiredMethod { method } => "missing required method: "@
            + method@,
        HandshakeFailureReason::Malformed { detail } => "malformed response: "@ + detail@,
    }
}

impl HandshakeFailureReason {
    /// The rendered message.
    pub fn to_string(&self) -> (s: String)
        ensures
            s@ == handshake_text(*self),
    {
        match self {
            HandshakeFailureReason::Timeout => String::from_str("timeout"),
            HandshakeFailureReason::ProtocolVersionMismatch { host, plugin } => {
                let mut s = String::from_str("protocol version mismatch: host ");
                s.append(host.as_str());
                s.append(", plugin ");
                s.append(plugin.as_str());
                s
            },
            HandshakeFailureReason::ProvidesMismatch { manifest, plugin_advertised } => {
                let mut s = String::from_str("provides mismatch: manifest says ");
                s.append(manifest.as_str());
                s.append(", plugin advertises ");
                s.append(plugin_advertised.as_str());
                s
            },
            HandshakeFailureReason::MissingRequiredMethod { method } => concat2(
                "missing required method: ",
                method.as_str(),
            ),
            HandshakeFailureReason::Malformed { detail } => concat2(
                "malformed response: ",
                detail.as_str(),
            ),
        }
    }
}

} // verus!
