use tau_runtime_core::attenuate::{chain_check, frame_check, AttenuationFrame};
use tau_runtime_core::capability::{
    capability_debug, Capability, FsCapability, NetCapability, NetHosts,
};

fn net_http() -> Capability {
    Capability::Network(NetCapability::Http { hosts: NetHosts::Any, methods: vec![] })
}

fn fs_read(paths: &[&str]) -> Capability {
    Capability::Filesystem(FsCapability::Read { paths: paths.iter().map(|p| p.to_string()).collect() })
}

fn frame(grant: Vec<Capability>, id: &str, agent: &str) -> AttenuationFrame {
    AttenuationFrame { grant, frame: id.into(), agent_id: agent.into() }
}

fn module_with_tool(name: &str, caps: Vec<Capability>) -> Vec<(String, Vec<Capability>)> {
    vec![(name.to_string(), caps)]
}

#[test]
fn denies_when_required_exceeds_frame_grant() {
    let tools = module_with_tool("page", vec![net_http()]);
    let f = frame(vec![], "notify", "worker");
    let msg = frame_check(&f, "page", &tools).expect("expected denial");
    assert!(msg.contains("page") && msg.contains("net.http"), "{msg}");
    assert!(msg.contains("narrowed by subflow `notify`"), "{msg}");
}

#[test]
fn allows_when_required_within_frame_grant() {
    let tools = module_with_tool("page", vec![net_http()]);
    let f = frame(vec![net_http()], "notify", "worker");
    assert!(frame_check(&f, "page", &tools).is_none());
}

#[test]
fn allows_tool_with_no_declared_caps() {
    let tools = module_with_tool("noop", vec![]);
    let f = frame(vec![], "notify", "worker");
    assert!(frame_check(&f, "noop", &tools).is_none());
}

#[test]
fn nested_frames_compose_to_meet() {
    // outer grant C2 = {fs.read /proj/**}; inner grant C1 = {net.http}.
    // The tool needs net.http: allowed by C1 but not C2, so the outer
    // frame denies.
    let tools = module_with_tool("page", vec![net_http()]);
    let frames = vec![
        frame(vec![fs_read(&["/proj/**"])], "c2", "grandchild"),
        frame(vec![net_http()], "c1", "child"),
    ];
    let msg = chain_check(&frames, "page", &tools).expect("outer frame C2 must deny net.http");
    assert!(msg.contains("narrowed by subflow `c2`"), "{msg}");
    assert!(msg.contains("agent grandchild"), "{msg}");
}

#[test]
fn chain_passes_when_every_frame_covers() {
    let tools = module_with_tool("page", vec![net_http()]);
    let frames = vec![frame(vec![net_http()], "c2", "a"), frame(vec![net_http()], "c1", "b")];
    assert!(chain_check(&frames, "page", &tools).is_none());
    assert!(chain_check(&vec![], "page", &tools).is_none());
}

#[test]
fn inner_frame_denies_when_outer_allows() {
    let tools = module_with_tool("page", vec![net_http()]);
    let frames = vec![frame(vec![net_http()], "c2", "a"), frame(vec![], "c1", "b")];
    let msg = chain_check(&frames, "page", &tools).unwrap();
    assert!(msg.ends_with("narrowed by subflow `c1`"), "{msg}");
}

#[test]
fn unknown_tool_requires_nothing() {
    let tools = module_with_tool("page", vec![net_http()]);
    let f = frame(vec![], "notify", "worker");
    assert!(frame_check(&f, "other", &tools).is_none());
}

#[test]
fn frame_denial_text_is_exact() {
    let tools = module_with_tool("page", vec![net_http()]);
    let f = frame(vec![], "notify", "worker");
    assert_eq!(
        frame_check(&f, "page", &tools).unwrap(),
        "agent worker (package ir-agent) lacks capability `net.http` \
         (Network(Http { hosts: Any, methods: [] })) required to call tool `page`; \
         narrowed by subflow `notify`"
    );
}

#[test]
fn capability_debug_matches_derived_debug() {
    let caps = vec![
        net_http(),
        fs_read(&["/tmp/**", "/a \"b\""]),
        Capability::Filesystem(FsCapability::Write { paths: vec![], max_bytes: Some(42) }),
        Capability::Network(NetCapability::Http {
            hosts: NetHosts::List(vec!["crates.io".into()]),
            methods: vec!["GET".into(), "POST".into()],
        }),
        Capability::TaskList { mode: "read".into() },
        Capability::Custom { name: "x.y".into(), params: vec![("k".into(), "1".into())] },
    ];
    for c in &caps {
        assert_eq!(capability_debug(c), format!("{c:?}"));
    }
}
