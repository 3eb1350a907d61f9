use tau_runtime_core::capability::{Capability, FsCapability, NetCapability, NetHosts};
use tau_runtime_core::capability::capability_debug;
use tau_runtime_core::skill::{
    apply_scope_paths, check_capability_subset, replace_all_exec, resolve_skill_for_spawn, skill_grant,
    substitute_skill_dir, OrchestrationError, SkillLookup, SkillSpawnArgs,
};

fn fs_read(paths: &[&str]) -> Capability {
    Capability::Filesystem(FsCapability::Read { paths: paths.iter().map(|s| s.to_string()).collect() })
}

fn fs_write(paths: &[&str]) -> Capability {
    Capability::Filesystem(FsCapability::Write { paths: paths.iter().map(|s| s.to_string()).collect(), max_bytes: None })
}

fn net_http(hosts: &[&str]) -> Capability {
    Capability::Network(NetCapability::Http {
        hosts: NetHosts::List(hosts.iter().map(|s| s.to_string()).collect()),
        methods: vec!["GET".to_string()],
    })
}

#[test]
fn substitute_skill_dir_replaces_in_fs_read() {
    let caps = vec![fs_read(&["${SKILL_DIR}/refs/**"])];
    let out = substitute_skill_dir(&caps, "/scope/.tau/packages/critic/0.1.0");
    match &out[0] {
        Capability::Filesystem(FsCapability::Read { paths }) => {
            assert_eq!(paths[0], "/scope/.tau/packages/critic/0.1.0/refs/**");
        }
        other => panic!("expected fs.read, got {other:?}"),
    }
}

#[test]
fn substitute_skill_dir_passes_through_non_fs() {
    let caps = vec![net_http(&["api.example.com"])];
    let out = substitute_skill_dir(&caps, "/scope");
    assert_eq!(out.len(), 1);
    match &out[0] {
        Capability::Network(NetCapability::Http { hosts: NetHosts::List(hosts), .. }) => {
            assert_eq!(hosts[0], "api.example.com");
        }
        other => panic!("expected net.http, got {other:?}"),
    }
}

#[test]
fn apply_scope_paths_empty_returns_verbatim() {
    let caps = vec![fs_read(&["/a/**"])];
    let out = apply_scope_paths(caps, &[]).unwrap();
    assert_eq!(out.len(), 1);
}

#[test]
fn apply_scope_paths_intersects_fs_read() {
    let caps = vec![fs_read(&["/workspace/**"])];
    let scope = vec!["/workspace/project-A/**".to_string()];
    let out = apply_scope_paths(caps, &scope).unwrap();
    match &out[0] {
        Capability::Filesystem(FsCapability::Read { paths }) => {
            assert_eq!(paths, &vec!["/workspace/project-A/**".to_string()]);
        }
        other => panic!("expected fs.read, got {other:?}"),
    }
}

#[test]
fn apply_scope_paths_drops_capability_when_intersection_empty() {
    let caps = vec![fs_read(&["/workspace/**"]), fs_write(&["/drafts/**"])];
    let scope = vec!["/workspace/project-A/**".to_string()];
    let out = apply_scope_paths(caps, &scope).unwrap();
    assert_eq!(out.len(), 1);
    assert!(matches!(out[0], Capability::Filesystem(FsCapability::Read { .. })));
}

#[test]
fn apply_scope_paths_errors_when_path_uncovered() {
    let caps = vec![fs_read(&["/workspace/**"])];
    let scope = vec!["/home/alice/**".to_string()];
    let err = apply_scope_paths(caps, &scope).unwrap_err();
    assert!(matches!(err, OrchestrationError::SkillScopePathNotCovered { .. }));
}

#[test]
fn apply_scope_paths_passes_through_non_fs() {
    let caps = vec![fs_read(&["/a/**"]), net_http(&["api.example.com"])];
    let scope = vec!["/a/sub/**".to_string()];
    let out = apply_scope_paths(caps, &scope).unwrap();
    assert_eq!(out.len(), 2);
    assert!(matches!(&out[1], Capability::Network(NetCapability::Http { .. })));
}

#[test]
fn replacement_is_left_to_right_and_non_overlapping() {
    assert_eq!(replace_all_exec("aaa", "aa", "b"), "ba");
    assert_eq!(replace_all_exec("${SKILL_DIR}/x/${SKILL_DIR}", "${SKILL_DIR}", "/s"), "/s/x//s");
    assert_eq!(replace_all_exec("none", "${SKILL_DIR}", "/s"), "none");
}

#[test]
fn first_uncovered_scope_path_is_reported() {
    let caps = vec![fs_read(&["/a/**"])];
    let scope = vec!["/a/x".to_string(), "/b/y".to_string(), "/c/z".to_string()];
    match apply_scope_paths(caps, &scope) {
        Err(OrchestrationError::SkillScopePathNotCovered { path }) => assert_eq!(path, "/b/y"),
        other => panic!("{other:?}"),
    }
}

#[test]
fn spawn_args_default() {
    let a = SkillSpawnArgs::default();
    assert!(a.message.is_empty() && a.system_prompt.is_none() && a.scope_paths.is_none());
}

#[test]
fn child_grant_within_parent_passes_subset_law() {
    let parent = vec![fs_read(&["/ws/**"]), net_http(&["api.example.com"])];
    let child = vec![fs_read(&["/ws/docs/a.md"])];
    assert!(check_capability_subset(&parent, &child).is_ok());
    assert!(check_capability_subset(&parent, &[]).is_ok());
}

#[test]
fn child_grant_beyond_parent_lists_extras_in_order() {
    let parent = vec![fs_read(&["/ws/**"])];
    let child = vec![net_http(&["evil.example.com"]), fs_read(&["/ws/a"]), fs_read(&["/etc/passwd"])];
    match check_capability_subset(&parent, &child) {
        Err(OrchestrationError::GrantNotSubset { extras }) => {
            assert_eq!(extras, vec![capability_debug(&child[0]), capability_debug(&child[2])]);
            assert_eq!(extras[1], "Filesystem(Read { paths: [\"/etc/passwd\"] })");
        }
        other => panic!("{other:?}"),
    }
}

#[test]
fn skill_grant_substitutes_scopes_then_checks_parent() {
    let declared = vec![fs_read(&["${SKILL_DIR}/**", "/data/**"])];
    let scope = vec!["/data/in/**".to_string()];
    let parent = vec![fs_read(&["/data/**"])];
    let g = skill_grant(&declared, "/skills/critic", Some(&scope), &parent).unwrap();
    assert_eq!(g.len(), 1);
    match &g[0] {
        Capability::Filesystem(FsCapability::Read { paths }) => assert_eq!(paths, &scope),
        other => panic!("{other:?}"),
    }
    match skill_grant(&declared, "/skills/critic", None, &parent) {
        Err(OrchestrationError::GrantNotSubset { extras }) => assert_eq!(extras.len(), 1),
        other => panic!("{other:?}"),
    }
    let wide = vec![fs_read(&["/**"])];
    let all = skill_grant(&declared, "/skills/critic", None, &wide).unwrap();
    assert_eq!(capability_debug(&all[0]), capability_debug(&fs_read(&["/skills/critic/**", "/data/**"])));
}

fn installed(body: Result<String, String>) -> SkillLookup {
    SkillLookup::Installed {
        install_path: "/skills/critic".into(),
        capabilities: vec![fs_read(&["${SKILL_DIR}/notes/**"])],
        body,
    }
}

#[test]
fn resolve_skill_for_spawn_reports_lookup_failures() {
    let args = SkillSpawnArgs { message: "go".into(), system_prompt: None, scope_paths: None };
    match resolve_skill_for_spawn("critic", &args, &[], SkillLookup::NotInstalled) {
        Err(OrchestrationError::SkillNotInstalled { name }) => assert_eq!(name, "critic"),
        other => panic!("{other:?}"),
    }
    match resolve_skill_for_spawn("critic", &args, &[], SkillLookup::InstallPathMissing { path: "/gone".into() }) {
        Err(OrchestrationError::SkillInstallPathMissing { name, expected_path }) => {
            assert_eq!((name.as_str(), expected_path.as_str()), ("critic", "/gone"))
        }
        other => panic!("{other:?}"),
    }
    match resolve_skill_for_spawn("critic", &args, &[], SkillLookup::Invalid { detail: "bad manifest".into() }) {
        Err(OrchestrationError::SkillContentInvalid { detail, .. }) => assert_eq!(detail, "bad manifest"),
        other => panic!("{other:?}"),
    }
    match resolve_skill_for_spawn("critic", &args, &[], installed(Err("parsing SKILL.md: no front matter".into()))) {
        Err(OrchestrationError::SkillContentInvalid { detail, .. }) => {
            assert_eq!(detail, "parsing SKILL.md: no front matter")
        }
        other => panic!("{other:?}"),
    }
}

#[test]
fn resolve_skill_for_spawn_builds_request() {
    let parent = vec![fs_read(&["/skills/**"])];
    let args = SkillSpawnArgs { message: "Review this draft.".into(), system_prompt: None, scope_paths: None };
    let req = resolve_skill_for_spawn("critic", &args, &parent, installed(Ok("Be critical.".into()))).unwrap();
    assert_eq!(req.skill_name, "critic");
    assert_eq!(req.install_path, "/skills/critic");
    assert_eq!(req.system_prompt, "Be critical.");
    assert_eq!(req.message, "Review this draft.");
    assert_eq!(req.grant.len(), 1);
    assert_eq!(capability_debug(&req.grant[0]), capability_debug(&fs_read(&["/skills/critic/notes/**"])));
    let args = SkillSpawnArgs {
        message: "m".into(),
        system_prompt: Some("Override.".into()),
        scope_paths: Some(vec!["/skills/critic/notes/a.md".into()]),
    };
    let req = resolve_skill_for_spawn("critic", &args, &parent, installed(Err("unread".into()))).unwrap();
    assert_eq!(req.system_prompt, "Override.");
    assert_eq!(req.grant.len(), 1);
    assert_eq!(capability_debug(&req.grant[0]), capability_debug(&fs_read(&["/skills/critic/notes/a.md"])));
    match resolve_skill_for_spawn("critic", &args, &[], installed(Ok(String::new()))) {
        Err(OrchestrationError::GrantNotSubset { extras }) => assert_eq!(extras.len(), 1),
        other => panic!("{other:?}"),
    }
}
