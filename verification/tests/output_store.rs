use tau_runtime_core::output_store::{OutputStore, StepValue};

fn lookup<'a>(m: &'a [(String, String)], k: &str) -> Option<&'a str> {
    m.iter().find(|(key, _)| key == k).map(|(_, v)| v.as_str())
}

#[test]
fn template_map_unwraps_strings_and_encodes_others() {
    let mut s = OutputStore::new();
    s.insert("a", StepValue::Str("hi".into()));
    s.insert("b", StepValue::Json("{\"n\":1}".into()));
    let m = s.template_map();
    assert_eq!(lookup(&m, "a").unwrap(), "hi");
    assert_eq!(lookup(&m, "b").unwrap(), "{\"n\":1}");
}

#[test]
fn merge_inserts_other_keys() {
    let mut a = OutputStore::new();
    a.insert("x", StepValue::Str("1".into()));
    let mut b = OutputStore::new();
    b.insert("y", StepValue::Str("2".into()));
    a.merge(b);
    assert_eq!(a.get("x").unwrap(), &StepValue::Str("1".into()));
    assert_eq!(a.get("y").unwrap(), &StepValue::Str("2".into()));
}

#[test]
fn read_after_write_and_overwrite() {
    let mut s = OutputStore::new();
    assert!(s.get("k").is_none());
    s.insert("k", StepValue::Str("v1".into()));
    s.insert("j", StepValue::Json("null".into()));
    s.insert("k", StepValue::Str("v2".into()));
    assert_eq!(s.get("k").unwrap(), &StepValue::Str("v2".into()));
    assert_eq!(s.get("j").unwrap(), &StepValue::Json("null".into()));
}

#[test]
fn merge_lets_the_other_store_win_on_shared_keys() {
    let mut a = OutputStore::new();
    a.insert("x", StepValue::Str("mine".into()));
    let mut b = OutputStore::new();
    b.insert("x", StepValue::Str("theirs".into()));
    a.merge(b);
    assert_eq!(a.get("x").unwrap(), &StepValue::Str("theirs".into()));
}
