use tau_runtime_core::capability::{
    capability_kind_str, capability_satisfies, check_capabilities, check_capabilities_for_tool,
    max_bytes_satisfies, offered_tool_names, paths_subset, plan_satisfies, string_subset,
    task_list_satisfies, AgentCapability, Capability, FsCapability, NetCapability, NetHosts,
    ProcessCapability, SkillCapability,
};

fn strs(v: &[&str]) -> Vec<String> {
    v.iter().map(|s| s.to_string()).collect()
}

fn fs_read(paths: &[&str]) -> Capability {
    Capability::Filesystem(FsCapability::Read { paths: strs(paths) })
}

fn fs_write(paths: &[&str], max_bytes: Option<u64>) -> Capability {
    Capability::Filesystem(FsCapability::Write { paths: strs(paths), max_bytes })
}

fn net_http(hosts: &[&str], methods: &[&str]) -> Capability {
    Capability::Network(NetCapability::Http { hosts: NetHosts::List(strs(hosts)), methods: strs(methods) })
}

fn custom(name: &str, params: &[(&str, &str)]) -> Capability {
    Capability::Custom {
        name: name.to_string(),
        params: params.iter().map(|(k, v)| (k.to_string(), v.to_string())).collect(),
    }
}

#[test]
fn fs_read_grant_satisfies_fs_read_required() {
    assert!(capability_satisfies(&fs_read(&["/tmp/**"]), &fs_read(&["/tmp/foo.txt"])));
}

#[test]
fn fs_read_grant_does_not_satisfy_fs_write_required() {
    assert!(!capability_satisfies(&fs_read(&["/tmp/**"]), &fs_write(&["/tmp/foo.txt"], None)));
}

#[test]
fn fs_glob_grant_satisfies_specific_required() {
    assert!(capability_satisfies(&fs_read(&["/tmp/**"]), &fs_read(&["/tmp/sub/file.txt"])));
}

#[test]
fn fs_specific_grant_does_not_satisfy_glob_required() {
    assert!(!capability_satisfies(&fs_read(&["/tmp/foo.txt"]), &fs_read(&["/tmp/**"])));
}

#[test]
fn fs_write_max_bytes_unbounded_grant_satisfies_bounded_required() {
    assert!(capability_satisfies(
        &fs_write(&["/tmp/**"], None),
        &fs_write(&["/tmp/foo.txt"], Some(1024))
    ));
}

#[test]
fn fs_write_bounded_grant_satisfies_smaller_required() {
    assert!(capability_satisfies(
        &fs_write(&["/tmp/**"], Some(2048)),
        &fs_write(&["/tmp/foo.txt"], Some(1024))
    ));
}

#[test]
fn fs_write_bounded_grant_does_not_satisfy_unbounded_required() {
    assert!(!capability_satisfies(
        &fs_write(&["/tmp/**"], Some(2048)),
        &fs_write(&["/tmp/foo.txt"], None)
    ));
}

#[test]
fn net_http_grant_satisfies_subset_methods() {
    assert!(capability_satisfies(
        &net_http(&["api.example.com"], &["GET", "POST"]),
        &net_http(&["api.example.com"], &["GET"])
    ));
}

#[test]
fn net_http_grant_does_not_satisfy_method_outside_grant() {
    assert!(!capability_satisfies(
        &net_http(&["api.example.com"], &["GET"]),
        &net_http(&["api.example.com"], &["DELETE"])
    ));
}

#[test]
fn net_http_host_glob_satisfies() {
    assert!(capability_satisfies(
        &net_http(&["*.example.com"], &["GET"]),
        &net_http(&["api.example.com"], &["GET"])
    ));
}

#[test]
fn process_spawn_subset_satisfies() {
    let granted = Capability::Process(ProcessCapability::Spawn { commands: strs(&["git", "cargo"]) });
    let required = Capability::Process(ProcessCapability::Spawn { commands: strs(&["git"]) });
    assert!(capability_satisfies(&granted, &required));
}

#[test]
fn agent_spawn_subset_satisfies() {
    let granted = Capability::Agent(AgentCapability::Spawn { allowed_kinds: strs(&["worker", "planner"]) });
    let required = Capability::Agent(AgentCapability::Spawn { allowed_kinds: strs(&["worker"]) });
    assert!(capability_satisfies(&granted, &required));
}

#[test]
fn skill_spawn_subset_satisfies() {
    let granted =
        Capability::Skill(SkillCapability::Spawn { allowed_skills: strs(&["critic", "fact-checker"]) });
    let required = Capability::Skill(SkillCapability::Spawn { allowed_skills: strs(&["critic"]) });
    assert!(capability_satisfies(&granted, &required));
}

#[test]
fn skill_spawn_superset_denies() {
    let granted = Capability::Skill(SkillCapability::Spawn { allowed_skills: strs(&["critic"]) });
    let required =
        Capability::Skill(SkillCapability::Spawn { allowed_skills: strs(&["critic", "fact-checker"]) });
    assert!(!capability_satisfies(&granted, &required));
}

#[test]
fn custom_params_exact_match_satisfies() {
    let granted = custom("mcp.tool.use", &[("servers", "[\"fs-mcp\"]")]);
    let required = custom("mcp.tool.use", &[("servers", "[\"fs-mcp\"]")]);
    assert!(capability_satisfies(&granted, &required));
}

#[test]
fn custom_params_extra_required_key_fails() {
    let granted = custom("mcp.tool.use", &[("servers", "[\"fs-mcp\"]")]);
    let required = custom("mcp.tool.use", &[("servers", "[\"fs-mcp\"]"), ("mode", "\"strict\"")]);
    assert!(!capability_satisfies(&granted, &required));
}

#[test]
fn custom_params_read_as_a_map_by_first_entry() {
    let repeated = custom("x.y", &[("k", "1"), ("k", "2")]);
    assert!(capability_satisfies(&repeated, &repeated));
    let granted = custom("x.y", &[("k", "1")]);
    assert!(capability_satisfies(&granted, &repeated));
    let other = custom("x.y", &[("k", "2")]);
    assert!(!capability_satisfies(&other, &repeated));
}

#[test]
fn custom_different_names_fail() {
    let granted = custom("mcp.tool.use", &[("servers", "[\"fs-mcp\"]")]);
    let required = custom("mcp.resource.read", &[("servers", "[\"fs-mcp\"]")]);
    assert!(!capability_satisfies(&granted, &required));
}

fn task_list(mode: &str) -> Capability {
    Capability::TaskList { mode: mode.to_string() }
}

fn plan(mode: &str) -> Capability {
    Capability::Plan { mode: mode.to_string() }
}

#[test]
fn task_list_manage_satisfies_write() {
    assert!(capability_satisfies(&task_list("manage"), &task_list("write")));
}

#[test]
fn task_list_manage_satisfies_read() {
    assert!(capability_satisfies(&task_list("manage"), &task_list("read")));
}

#[test]
fn task_list_write_satisfies_read() {
    assert!(capability_satisfies(&task_list("write"), &task_list("read")));
}

#[test]
fn task_list_read_does_not_satisfy_write() {
    assert!(!capability_satisfies(&task_list("read"), &task_list("write")));
}

#[test]
fn task_list_unknown_mode_does_not_satisfy() {
    assert!(!capability_satisfies(&task_list("frobnicate"), &task_list("write")));
}

#[test]
fn plan_write_satisfies_read() {
    assert!(capability_satisfies(&plan("write"), &plan("read")));
}

#[test]
fn plan_read_does_not_satisfy_write() {
    assert!(!capability_satisfies(&plan("read"), &plan("write")));
}

#[test]
fn tasklist_does_not_cover_plan() {
    assert!(!capability_satisfies(&task_list("write"), &plan("write")));
}

#[test]
fn check_capabilities_with_empty_required_returns_none() {
    let granted: Vec<Capability> = vec![];
    let required: Vec<Capability> = vec![];
    assert!(check_capabilities(&granted, &required).is_none());
}

#[test]
fn check_capabilities_returns_first_missing_when_some_unsatisfied() {
    let granted = vec![fs_read(&["/tmp/**"])];
    let required = vec![
        fs_read(&["/tmp/foo.txt"]),
        fs_write(&["/tmp/foo.txt"], None),
        net_http(&["api.example.com"], &["GET"]),
    ];
    let missing = check_capabilities(&granted, &required).expect("expected a missing capability");
    match missing {
        Capability::Filesystem(FsCapability::Write { .. }) => {}
        other => panic!("expected first missing = fs.write, got {:?}", other),
    }
}

#[test]
fn check_capabilities_returns_none_when_all_satisfied() {
    let granted = vec![fs_read(&["/tmp/**"]), net_http(&["*.example.com"], &["GET", "POST"])];
    let required = vec![fs_read(&["/tmp/foo.txt"]), net_http(&["api.example.com"], &["GET"])];
    assert!(check_capabilities(&granted, &required).is_none());
}

#[test]
fn tool_check_reports_the_missing_capability() {
    let granted = vec![fs_read(&["/tmp/**"])];
    let required = vec![fs_write(&["/tmp/x"], None)];
    let missing = check_capabilities_for_tool("writer", &granted, &required).expect("denied");
    assert_eq!(capability_kind_str(missing), "fs.write");
    assert!(check_capabilities_for_tool("reader", &granted, &[fs_read(&["/tmp/a"])]).is_none());
}

#[test]
fn kind_strings_name_each_namespace() {
    assert_eq!(capability_kind_str(&fs_read(&[])), "fs.read");
    assert_eq!(capability_kind_str(&net_http(&[], &[])), "net.http");
    assert_eq!(capability_kind_str(&task_list("read")), "task_list");
    assert_eq!(capability_kind_str(&plan("read")), "plan");
    assert_eq!(capability_kind_str(&custom("mcp.tool.use", &[])), "mcp.tool.use");
}

#[test]
fn helper_relations_on_concrete_values() {
    assert!(paths_subset(&strs(&["/a/**"]), &strs(&["/a/b", "/a/c/d"])));
    assert!(!paths_subset(&strs(&["/a/*"]), &strs(&["/a/c/d"])));
    assert!(string_subset(&strs(&["GET", "POST"]), &strs(&["POST"])));
    assert!(!string_subset(&strs(&["GET"]), &strs(&["POST"])));
    assert!(max_bytes_satisfies(None, Some(5)));
    assert!(max_bytes_satisfies(Some(5), Some(5)));
    assert!(!max_bytes_satisfies(Some(4), Some(5)));
    assert!(!max_bytes_satisfies(Some(4), None));
    assert!(task_list_satisfies("manage", "read"));
    assert!(!task_list_satisfies("read", "manage"));
    assert!(plan_satisfies("write", "write"));
    assert!(!plan_satisfies("frobnicate", "read"));
}

#[test]
fn every_capability_satisfies_itself() {
    let caps = vec![
        fs_read(&["/tmp/**", "/a/b.txt"]),
        fs_write(&["/x/*"], Some(10)),
        net_http(&["*.example.com"], &["GET"]),
        task_list("write"),
        plan("read"),
        custom("mcp.tool.use", &[("servers", "[\"a\"]")]),
    ];
    for c in &caps {
        assert!(capability_satisfies(c, c));
    }
}

#[test]
fn tools_offered_are_exactly_those_the_grant_covers() {
    let granted = vec![fs_read(&["/tmp/**"])];
    let tools = vec![
        ("reader".to_string(), vec![fs_read(&["/tmp/a"])]),
        ("writer".to_string(), vec![fs_write(&["/tmp/a"], None)]),
        ("pure".to_string(), vec![]),
    ];
    assert_eq!(offered_tool_names(&granted, &tools), vec!["reader".to_string(), "pure".to_string()]);
}
