use tau_runtime_core::dispatch::{
    address_to_tool_name, effective_grants, invocation_check, invocation_outcome, GrantResolution,
    Runtime,
};
use tau_runtime_core::capability::{Capability, FsCapability, NetCapability, NetHosts};
use tau_runtime_core::error::{RuntimeError, ToolError};
use tau_runtime_core::message::Address;

fn runtime(backends: &[&str], tools: &[&str]) -> Runtime<String, String> {
    Runtime::new(
        backends.iter().map(|b| (b.to_string(), format!("backend {b}"))).collect(),
        tools.iter().map(|t| (t.to_string(), format!("tool {t}"))).collect(),
    )
    .expect("distinct names")
}

#[test]
fn address_to_tool_name_routes_only_tool_addresses() {
    assert_eq!(address_to_tool_name(&Address::Tool("foo".into())), Some("foo"));
    assert_eq!(address_to_tool_name(&Address::User), None);
    assert_eq!(address_to_tool_name(&Address::System), None);
    assert_eq!(address_to_tool_name(&Address::Agent(7)), None);
}

#[test]
fn resolve_llm_backend_present_returns_arc() {
    let rt = runtime(&["gpt-4"], &[]);
    assert_eq!(rt.resolve_llm_backend("agent-x", "gpt-4").expect("backend present"), "backend gpt-4");
}

#[test]
fn resolve_llm_backend_absent_returns_error() {
    let rt = runtime(&["gpt-4"], &[]);
    match rt.resolve_llm_backend("agent-x", "missing-backend") {
        Err(RuntimeError::LlmBackendNotRegistered { agent_id, backend }) => {
            assert_eq!(agent_id, "agent-x");
            assert_eq!(backend, "missing-backend");
        }
        other => panic!("expected LlmBackendNotRegistered: {other:?}"),
    }
}

#[test]
fn resolve_tool_present_returns_arc() {
    let rt = runtime(&["gpt-4"], &["echo"]);
    assert_eq!(rt.resolve_tool("echo").expect("tool present"), "tool echo");
}

#[test]
fn resolve_tool_absent_returns_error_with_registered_list() {
    let rt = runtime(&["gpt-4"], &["reverse", "echo"]);
    match rt.resolve_tool("missing") {
        Err(RuntimeError::ToolNotRegistered { tool_name, registered }) => {
            assert_eq!(tool_name, "missing");
            assert_eq!(registered, vec!["echo".to_string(), "reverse".to_string()]);
        }
        other => panic!("expected ToolNotRegistered: {other:?}"),
    }
}

#[test]
fn duplicate_names_are_refused() {
    let r: Option<Runtime<String, String>> =
        Runtime::new(vec![("a".into(), "x".into()), ("a".into(), "y".into())], vec![]);
    assert!(r.is_none());
}

#[test]
fn grants_follow_override_then_resolver_then_manifest() {
    let manifest = vec![Capability::Plan { mode: "read".into() }];
    let over = vec![Capability::Filesystem(FsCapability::Read { paths: vec!["/a".into()] })];
    let (k, s) = effective_grants(Some(&over), None, &manifest).unwrap();
    assert!(matches!(k[0], Capability::Filesystem(_)) && matches!(s[0], Capability::Filesystem(_)));
    let (k, _) = effective_grants(None, None, &manifest).unwrap();
    assert!(matches!(k[0], Capability::Plan { .. }));
    let err = effective_grants(
        None,
        Some(GrantResolution::Expands { kind: "fs.read".into(), reason: "not a subset".into() }),
        &manifest,
    )
    .unwrap_err();
    assert_eq!(
        err,
        RuntimeError::CapabilityOverrideExpands { kind: "fs.read".into(), reason: "not a subset".into() }
    );
}

#[test]
fn direct_invocation_denied_without_grant() {
    let net = Capability::Network(NetCapability::Http { hosts: NetHosts::Any, methods: vec![] });
    match invocation_check("a1", "pkg", "fetch", &[], &[net]) {
        Err(RuntimeError::Internal { message }) => assert_eq!(
            message,
            "capability denied: agent a1 (package pkg) lacks capability `net.http` \
             (Network(Http { hosts: Any, methods: [] })) required to call tool `fetch`"
        ),
        other => panic!("unexpected {other:?}"),
    }
}

#[test]
fn direct_invocation_allowed_when_covered() {
    let net = || Capability::Network(NetCapability::Http { hosts: NetHosts::Any, methods: vec![] });
    assert!(invocation_check("a1", "pkg", "fetch", &[net()], &[net()]).is_ok());
    assert!(invocation_check("a1", "pkg", "noop", &[], &[]).is_ok());
}

#[test]
fn direct_invocation_maps_session_and_tool_errors() {
    let opened_failed: Result<String, RuntimeError> =
        invocation_outcome(Err(ToolError::SessionDead { reason: "no".into() }), None);
    assert_eq!(opened_failed, Err(RuntimeError::Tool(ToolError::SessionDead { reason: "no".into() })));
    let ok = invocation_outcome(Ok(()), Some((Ok("r".to_string()), Err(ToolError::DeadlineExceeded))));
    assert_eq!(ok, Ok("r".to_string()));
    let failed: Result<String, RuntimeError> = invocation_outcome(
        Ok(()),
        Some((Err(ToolError::BadArgs { reason: "x".into() }), Err(ToolError::DeadlineExceeded))),
    );
    assert_eq!(failed, Err(RuntimeError::Tool(ToolError::BadArgs { reason: "x".into() })));
}
