use tau_runtime_core::durable::DurabilityUnsupported;
use tau_runtime_core::error::{
    BuildError, CapabilityDenial, HandshakeFailureReason, PluginKind, RuntimeError, ToolError,
};

#[test]
fn plugin_kind_display() {
    assert_eq!(PluginKind::LlmBackend.to_string(), "llm-backend");
    assert_eq!(PluginKind::Tool.to_string(), "tool");
    assert_eq!(PluginKind::Storage.to_string(), "storage");
    assert_eq!(PluginKind::Sandbox.to_string(), "sandbox");
}

#[test]
fn build_error_no_llm_backend_display() {
    let err = BuildError::NoLlmBackend;
    let s = err.to_string();
    assert!(s.contains("no LLM backends registered"), "got: {s}");
}

#[test]
fn build_error_name_collision_display() {
    let err = BuildError::NameCollision { kind: PluginKind::Tool, name: "echo".into() };
    let s = err.to_string();
    assert!(s.contains("name collision"), "got: {s}");
    assert!(s.contains("tool"), "got: {s}");
    assert!(s.contains("echo"), "got: {s}");
}

#[test]
fn capability_denial_display_includes_all_fields() {
    let denial = CapabilityDenial {
        agent_id: "agent-x".into(),
        package_id: "pkg/y@1.0.0".into(),
        tool_name: "file_read".into(),
        required_kind: "filesystem.read".into(),
        required_detail: "/etc/passwd".into(),
    };
    let s = denial.to_string();
    assert!(s.contains("agent-x"), "got: {s}");
    assert!(s.contains("pkg/y@1.0.0"), "got: {s}");
    assert!(s.contains("filesystem.read"), "got: {s}");
    assert!(s.contains("/etc/passwd"), "got: {s}");
    assert!(s.contains("file_read"), "got: {s}");
}

#[test]
fn build_error_tool_schema_invalid_display() {
    let err = BuildError::ToolSchemaInvalid {
        tool_name: "shell".into(),
        detail: "type 'objectt' is not valid".into(),
    };
    let s = err.to_string();
    assert!(s.contains("shell"), "got: {s}");
    assert!(s.contains("input_schema"), "got: {s}");
    assert!(s.contains("Draft 7"), "got: {s}");
    assert!(s.contains("'objectt'"), "got: {s}");
}

#[test]
fn build_error_texts_are_exact() {
    assert_eq!(
        BuildError::NameCollision { kind: PluginKind::LlmBackend, name: "gpt".into() }.to_string(),
        "name collision: two llm-backends registered as \"gpt\""
    );
    assert_eq!(BuildError::Internal { message: "boom".into() }.to_string(), "internal: boom");
    assert_eq!(
        BuildError::ToolSchemaInvalid { tool_name: "t".into(), detail: "d".into() }.to_string(),
        "tool \"t\": input_schema is not a valid Draft 7 schema: d"
    );
}

#[test]
fn capability_denial_text_is_exact() {
    let d = CapabilityDenial::new("a", "p", "t", "fs.read", "/x");
    assert_eq!(
        d.to_string(),
        "agent a (package p) lacks capability `fs.read` (/x) required to call tool `t`"
    );
}

#[test]
fn durability_refusal_text_is_exact() {
    let e = DurabilityUnsupported { reason: "no store".into(), target: "wasi".into() };
    assert_eq!(e.to_string(), "target `wasi` cannot honor the requested durability: no store");
}

#[test]
fn runtime_error_llm_backend_not_registered_display() {
    let err = RuntimeError::LlmBackendNotRegistered {
        agent_id: "agent-1".into(),
        backend: "anthropic".into(),
    };
    let s = err.to_string();
    assert!(s.contains("anthropic"), "got: {s}");
    assert!(s.contains("agent-1"), "got: {s}");
    assert!(s.contains("not registered"), "got: {s}");
}

#[test]
fn runtime_error_tool_not_registered_display() {
    let err = RuntimeError::ToolNotRegistered {
        tool_name: "ghost".into(),
        registered: vec!["echo".into(), "file_read".into()],
    };
    let s = err.to_string();
    assert!(s.contains("ghost"), "got: {s}");
    assert!(s.contains("echo"), "got: {s}");
    assert!(s.contains("file_read"), "got: {s}");
}

#[test]
fn runtime_error_plugin_contract_violation_display() {
    let err = RuntimeError::PluginContractViolation {
        plugin: "anthropic".into(),
        detail: "expected JSON object, got array".into(),
    };
    let s = err.to_string();
    assert!(s.contains("contract violation"), "got: {s}");
    assert!(s.contains("anthropic"), "got: {s}");
    assert!(s.contains("expected JSON object, got array"), "got: {s}");
}

#[test]
fn runtime_error_plugin_handshake_failed_display() {
    let err = RuntimeError::PluginHandshakeFailed {
        plugin: "echo-llm".into(),
        reason: HandshakeFailureReason::Timeout,
    };
    let s = err.to_string();
    assert!(s.contains("handshake failed"), "got: {s}");
    assert!(s.contains("echo-llm"), "got: {s}");
    assert!(s.contains("timeout"), "got: {s}");
}

#[test]
fn handshake_failure_reason_timeout_display() {
    let r = HandshakeFailureReason::Timeout;
    assert_eq!(r.to_string(), "timeout");
}

#[test]
fn handshake_failure_reason_protocol_version_mismatch_display() {
    let r = HandshakeFailureReason::ProtocolVersionMismatch {
        host: "1".into(),
        plugin: "2".into(),
    };
    let s = r.to_string();
    assert!(s.contains("protocol version mismatch"), "got: {s}");
    assert!(s.contains("1"), "got: {s}");
    assert!(s.contains("2"), "got: {s}");
}

#[test]
fn handshake_failure_reason_provides_mismatch_display() {
    let r = HandshakeFailureReason::ProvidesMismatch {
        manifest: "llm_backend".into(),
        plugin_advertised: "tool".into(),
    };
    let s = r.to_string();
    assert!(s.contains("provides mismatch"), "got: {s}");
    assert!(s.contains("llm_backend"), "got: {s}");
    assert!(s.contains("tool"), "got: {s}");
}

#[test]
fn handshake_failure_reason_missing_required_method_display() {
    let r = HandshakeFailureReason::MissingRequiredMethod {
        method: "llm.complete".into(),
    };
    let s = r.to_string();
    assert!(s.contains("missing required method"), "got: {s}");
    assert!(s.contains("llm.complete"), "got: {s}");
}

#[test]
fn handshake_failure_reason_malformed_display() {
    let r = HandshakeFailureReason::Malformed {
        detail: "missing field `protocol_version`".into(),
    };
    let s = r.to_string();
    assert!(s.contains("malformed response"), "got: {s}");
    assert!(s.contains("protocol_version"), "got: {s}");
}

#[test]
fn runtime_error_internal_display() {
    let err = RuntimeError::Internal {
        message: "unexpected".into(),
    };
    let s = err.to_string();
    assert!(s.contains("internal"), "got: {s}");
    assert!(s.contains("unexpected"), "got: {s}");
}

#[test]
fn capability_override_expands_displays_with_kind_and_reason() {
    let err = RuntimeError::CapabilityOverrideExpands {
        kind: "fs.read".into(),
        reason: "/etc/** is not a subset".into(),
    };
    let msg = err.to_string();
    assert!(msg.contains("fs.read"));
    assert!(msg.contains("not a subset"));
}

#[test]
fn runtime_error_texts_are_exact() {
    let err = RuntimeError::ToolNotRegistered {
        tool_name: "ghost".into(),
        registered: vec!["echo".into(), "file_read".into()],
    };
    assert_eq!(
        err.to_string(),
        "tool `ghost` not registered; registered: [\"echo\", \"file_read\"]"
    );
    let err = RuntimeError::ToolNotRegistered { tool_name: "x".into(), registered: vec![] };
    assert_eq!(err.to_string(), "tool `x` not registered; registered: []");
    let err = RuntimeError::CapabilityOverrideExpands {
        kind: "fs.read".into(),
        reason: "r".into(),
    };
    assert_eq!(err.to_string(), "capability override on \"fs.read\" expands package grant: r");
    let err = RuntimeError::PluginHandshakeFailed {
        plugin: "p".into(),
        reason: HandshakeFailureReason::ProtocolVersionMismatch {
            host: "1".into(),
            plugin: "2".into(),
        },
    };
    assert_eq!(
        err.to_string(),
        "plugin p handshake failed: protocol version mismatch: host 1, plugin 2"
    );
    let err = RuntimeError::Tool(ToolError::BadArgs { reason: "no x".into() });
    assert_eq!(err.to_string(), "tool: bad args: no x");
    let err = RuntimeError::CheckFailed {
        id: "c1".into(),
        kind: "goal".into(),
        rationale: "empty".into(),
        attempt: 3,
    };
    assert_eq!(err.to_string(), "check `c1` (goal) failed after attempt 3: empty");
    let err = RuntimeError::LoopExhausted { step: "l".into(), max_iters: 10 };
    assert_eq!(err.to_string(), "loop `l` exhausted 10 iterations");
}
