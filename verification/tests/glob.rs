use tau_runtime_core::glob::glob_matches;

#[test]
fn globs_on_concrete_paths() {
    assert!(glob_matches("/tmp/**", "/tmp/a/b.txt"));
    assert!(glob_matches("/tmp/*.txt", "/tmp/a.txt"));
    assert!(!glob_matches("/tmp/*.txt", "/tmp/a/b.txt"));
    assert!(glob_matches("*.example.com", "api.example.com"));
    assert!(!glob_matches("/tmp/foo.txt", "/tmp/**"));
    assert!(glob_matches("/a/b", "/a/b"));
}
