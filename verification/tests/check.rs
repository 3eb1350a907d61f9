use tau_runtime_core::check::{
    builtin_judge_prompt, eval_predicate, first_json_object, judge_reply_verdict, normalize_verdict,
    settle_verdict, Predicate, RegistryReply, Verdict,
};

fn parse_verdict(text: &str) -> Verdict {
    let parsed = first_json_object(text).and_then(|json| {
        let v: serde_json::Value = serde_json::from_str(&json).ok()?;
        let met = v.get("met")?.as_bool()?;
        let rationale = v.get("rationale")?.as_str()?.to_string();
        Some(Verdict { met, rationale })
    });
    settle_verdict(text, parsed)
}

#[test]
fn parses_clean_json() {
    let v = parse_verdict(r#"{"met": true, "rationale": "looks good"}"#);
    assert!(v.met);
    assert_eq!(v.rationale, "looks good");
}

#[test]
fn parses_json_embedded_in_prose() {
    let v = parse_verdict("Here is my answer:\n{\"met\": false, \"rationale\": \"only 1 source\"}\nThanks.");
    assert!(!v.met);
    assert_eq!(v.rationale, "only 1 source");
}

#[test]
fn unparseable_is_soft_fail() {
    let v = parse_verdict("I think it is fine, honestly.");
    assert!(!v.met);
    assert!(v.rationale.contains("unparseable verdict"));
}

#[test]
fn nested_braces_balanced() {
    let v = parse_verdict(r#"{"met": true, "rationale": "ok {nested} fine"}"#);
    assert!(v.met);
}

#[test]
fn first_object_extraction_on_concrete_texts() {
    assert_eq!(first_json_object("a {b {c} d} e {f}"), Some("{b {c} d}".to_string()));
    assert_eq!(first_json_object("no braces"), None);
    assert_eq!(first_json_object("open { never closed"), None);
    assert_eq!(first_json_object("} {x}"), Some("{x}".to_string()));
}

#[test]
fn matches_true_and_false() {
    let (ok, _) = eval_predicate(&Predicate::Matches("(?m)^## Sources".to_string()), Some(b"## Sources\nfoo"));
    assert!(ok);
    let (ok2, _) = eval_predicate(&Predicate::Matches("(?m)^## Sources".to_string()), Some(b"no header"));
    assert!(!ok2);
}

#[test]
fn non_empty() {
    assert!(eval_predicate(&Predicate::NonEmpty, Some(b"x")).0);
    assert!(!eval_predicate(&Predicate::NonEmpty, Some(b"")).0);
    assert!(!eval_predicate(&Predicate::NonEmpty, None).0);
}

#[test]
fn min_count_boundary() {
    let p = Predicate::MinCount { pattern: "a".to_string(), min: 2 };
    assert!(!eval_predicate(&p, Some(b"a")).0);
    assert!(eval_predicate(&p, Some(b"aa")).0);
}

#[test]
fn exists_and_missing() {
    assert!(eval_predicate(&Predicate::Exists, Some(b"")).0);
    assert!(!eval_predicate(&Predicate::Exists, None).0);
}

#[test]
fn equals_match_and_mismatch() {
    let p = Predicate::Equals("hello".to_string());
    assert!(eval_predicate(&p, Some(b"hello")).0);
    assert!(!eval_predicate(&p, Some(b"world")).0);
    assert!(!eval_predicate(&p, None).0);
}

#[test]
fn schema_valid_pass_and_fail() {
    let schema = r#"{"type":"object","required":["name"]}"#.to_string();
    let p = Predicate::SchemaValid(schema);
    assert!(eval_predicate(&p, Some(br#"{"name":"tau"}"#)).0);
    assert!(!eval_predicate(&p, Some(br#"{"other":"x"}"#)).0);
    assert!(!eval_predicate(&p, Some(b"not-json")).0);
    assert!(!eval_predicate(&p, None).0);
}

#[test]
fn native_fn_is_rejected() {
    let (ok, msg) = eval_predicate(&Predicate::NativeFn("check_links".to_string()), Some(b"x"));
    assert!(!ok);
    assert!(msg.contains("deterministic registry"));
}

#[test]
fn matches_missing_locus() {
    let (ok, msg) = eval_predicate(&Predicate::Matches("foo".to_string()), None);
    assert!(!ok);
    assert!(msg.contains("does not exist"));
}

#[test]
fn invalid_regex_error() {
    let (ok, msg) = eval_predicate(&Predicate::Matches("[invalid".to_string()), Some(b"text"));
    assert!(!ok);
    assert!(msg.contains("invalid regex"));
}

#[test]
fn predicate_rationales_are_exact() {
    let p = Predicate::MinCount { pattern: "a".to_string(), min: 2 };
    assert_eq!(eval_predicate(&p, Some(b"aaa")).1, "3 matches >= 2");
    assert_eq!(eval_predicate(&p, Some(b"a")).1, "1 matches of \"a\", need >= 2");
    assert_eq!(eval_predicate(&Predicate::Matches("z".into()), Some(b"a")).1, "pattern \"z\" did not match");
    assert_eq!(eval_predicate(&Predicate::NonEmpty, Some(b"")).1, "locus is empty");
    assert_eq!(eval_predicate(&Predicate::Equals("h\u{fffd}".into()), Some(b"h\xff")).0, true);
}

#[test]
fn normalize_verdict_shapes() {
    let v = normalize_verdict(RegistryReply::Bool(true), "NonEmpty");
    assert!(v.met);
    assert_eq!(v.rationale, "goal predicate NonEmpty returned true");
    let v = normalize_verdict(RegistryReply::Object { met: None, rationale: None }, "Exists");
    assert!(!v.met);
    assert_eq!(v.rationale, "goal predicate Exists returned false");
    let v = normalize_verdict(RegistryReply::Object { met: Some(true), rationale: Some("fine".into()) }, "Exists");
    assert!(v.met);
    assert_eq!(v.rationale, "fine");
    let v = normalize_verdict(RegistryReply::Other("42".into()), "Exists");
    assert!(!v.met);
    assert_eq!(v.rationale, "goal predicate Exists returned unexpected shape: 42");
}

#[test]
fn judge_prompt_and_reply() {
    let p = builtin_judge_prompt("be nice");
    assert!(p.contains("be nice"));
    assert!(p.ends_with("Reply ONLY with JSON: {\"met\": bool, \"rationale\": string}."));
    let v = judge_reply_verdict("raw", None);
    assert!(!v.met);
    assert_eq!(v.rationale, "raw");
    let v = judge_reply_verdict("raw", Some((true, "ok".into())));
    assert!(v.met);
    assert_eq!(v.rationale, "ok");
}

#[test]
fn schema_outcomes_are_reported_in_order() {
    let good = Predicate::SchemaValid(r#"{"type":"object"}"#.to_string());
    let (ok, msg) = eval_predicate(&good, Some(b"{}"));
    assert!(ok);
    assert_eq!(msg, "instance is schema-valid");
    let (ok, msg) = eval_predicate(&good, Some(b"[1]"));
    assert!(!ok);
    assert_eq!(msg, "instance does not satisfy schema");
    let (ok, msg) = eval_predicate(&good, Some(b"{oops"));
    assert!(!ok);
    assert!(msg.starts_with("locus is not valid JSON: "));
    let unparsable = Predicate::SchemaValid("{not json".to_string());
    let (ok, msg) = eval_predicate(&unparsable, Some(b"{oops"));
    assert!(!ok);
    assert!(msg.starts_with("locus is not valid JSON: "));
    let (ok, msg) = eval_predicate(&unparsable, Some(b"{}"));
    assert!(!ok);
    assert!(msg.starts_with("invalid schema: "));
    let unbuildable = Predicate::SchemaValid(r#"{"type":"no-such-type"}"#.to_string());
    let (ok, msg) = eval_predicate(&unbuildable, Some(b"{}"));
    assert!(!ok);
    assert!(msg.starts_with("invalid schema: "));
}
