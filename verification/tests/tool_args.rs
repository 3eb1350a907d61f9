use tau_runtime_core::error::ToolError;
use tau_runtime_core::tool_args::{
    args_failure_reason, check_keywords, is_keyword_known, opts_out_of_validation, parse_type_name,
    schema_compile_error, validate_tool_args, CompileErr, JsonType, ToolArgsValidator, Violation,
};

fn assert_mandatory_template(reason: &str, tool_name: &str) {
    assert!(reason.contains(tool_name), "reason should contain tool name; got: {reason}");
    assert!(reason.contains("You sent:"), "reason MUST contain 'You sent:'; got: {reason}");
    assert!(
        reason.contains("Expected (input_schema):"),
        "reason MUST contain 'Expected (input_schema):'; got: {reason}"
    );
    assert!(reason.contains("Specific issue"), "reason MUST contain 'Specific issue'; got: {reason}");
}

fn violation(pointer: &str, message: &str) -> Violation {
    Violation { pointer: pointer.into(), message: message.into() }
}

#[test]
fn null_and_empty_object_schemas_opt_out() {
    assert!(opts_out_of_validation("null"));
    assert!(opts_out_of_validation("{}"));
    assert!(!opts_out_of_validation("{\"type\":\"object\"}"));
    assert!(!opts_out_of_validation("[]"));
}

#[test]
fn no_violation_means_no_refusal() {
    assert!(args_failure_reason("test-tool", "{}", "{\"type\":\"object\"}", &vec![]).is_none());
}

#[test]
fn refusal_reason_follows_the_mandatory_template() {
    let reason = args_failure_reason(
        "test-tool",
        "{}",
        "{\"required\":[\"x\"],\"type\":\"object\"}",
        &vec![violation("", "missing required property 'x'")],
    )
    .unwrap();
    assert_mandatory_template(&reason, "test-tool");
}

#[test]
fn refusal_reason_is_exact_and_lists_every_violation() {
    let reason = args_failure_reason(
        "t",
        "{\"x\":42,\"n\":999}",
        "S",
        &vec![violation("/x", "expected string"), violation("/n", "above maximum")],
    )
    .unwrap();
    assert_eq!(
        reason,
        "t: args validation failed.\n\nYou sent: {\"x\":42,\"n\":999}\n\nExpected (input_schema):\nS\n\n\
         Specific issue(s):\n  /x: expected string\n  /n: above maximum"
    );
}

#[test]
fn compile_error_with_keyword_names_it() {
    let err = CompileErr { keyword: "format".into(), pointer: "/properties/x".into(), detail: "not supported".into() };
    let e = schema_compile_error(&err, "{\"type\":\"object\"}");
    assert_eq!(e.kind, "unsupported keyword 'format' at /properties/x: not supported");
    assert_eq!(e.schema_excerpt, "{\"type\":\"object\"}");
}

#[test]
fn compile_error_without_keyword_is_structural() {
    let err = CompileErr { keyword: "".into(), pointer: "/type".into(), detail: "unknown type 'objectt'".into() };
    let e = schema_compile_error(&err, "{\"type\":\"objectt\"}");
    assert_eq!(e.kind, "schema invalid at /type: unknown type 'objectt'");
    assert!(e.kind.contains("type"));
    assert!(!e.schema_excerpt.is_empty());
}

#[test]
fn compile_error_excerpt_keeps_first_two_hundred_chars() {
    let long: String = "é".repeat(250);
    let err = CompileErr { keyword: "".into(), pointer: "".into(), detail: "d".into() };
    let e = schema_compile_error(&err, &long);
    assert_eq!(e.schema_excerpt.chars().count(), 200);
    assert_eq!(e.schema_excerpt, "é".repeat(200));
}

#[test]
fn schema_keywords_fail_closed() {
    assert!(is_keyword_known("additionalProperties"));
    assert!(is_keyword_known("$comment"));
    assert!(!is_keyword_known("patternProperties"));
    let ok: Vec<String> = vec!["type".into(), "title".into(), "uniqueItems".into()];
    assert!(check_keywords(&ok, "").is_ok());
    let bad: Vec<String> = vec!["type".into(), "format".into(), "pattern".into()];
    let e = check_keywords(&bad, "/properties/x").unwrap_err();
    assert_eq!(e.keyword, "format");
    assert_eq!(e.pointer, "/properties/x");
    assert_eq!(e.detail, "unsupported JSON-Schema keyword 'format'");
}

#[test]
fn type_names_parse_or_fail() {
    assert_eq!(parse_type_name("integer", "").unwrap(), JsonType::Integer);
    assert_eq!(parse_type_name("null", "").unwrap(), JsonType::Null);
    let e = parse_type_name("float", "/items").unwrap_err();
    assert_eq!((e.keyword.as_str(), e.pointer.as_str()), ("type", "/items"));
    assert_eq!(e.detail, "unknown type 'float'");
}

const OBJECT_X: &str = r#"{"properties":{"x":{"type":"string"}},"required":["x"],"type":"object"}"#;

#[test]
fn compile_happy_path_returns_some_compiled() {
    let v = ToolArgsValidator::compile(OBJECT_X.to_string(), None).expect("valid schema");
    assert!(!v.opted_out);
    assert_eq!(v.declared_schema_json, OBJECT_X);
}

#[test]
fn compile_null_schema_opts_out() {
    let v = ToolArgsValidator::compile("null".to_string(), None).expect("null opts out");
    assert!(v.opted_out);
}

#[test]
fn compile_empty_object_schema_opts_out() {
    let v = ToolArgsValidator::compile("{}".to_string(), None).expect("empty opts out");
    assert!(v.opted_out);
}

#[test]
fn compile_malformed_schema_returns_error() {
    let declared = r#"{"type":"objectt"}"#;
    let build = parse_type_name("objectt", "").unwrap_err();
    let err = ToolArgsValidator::compile(declared.to_string(), Some(&build)).expect_err("malformed");
    assert!(err.kind.contains("type") || err.kind.contains("unsupported"), "got: {}", err.kind);
    assert!(!err.schema_excerpt.is_empty());
    assert_eq!(err.kind, "unsupported keyword 'type' at : unknown type 'objectt'");
}

#[test]
fn validate_happy_path() {
    let v = ToolArgsValidator::compile(OBJECT_X.to_string(), None).unwrap();
    v.validate("test-tool", r#"{"x":"hello"}"#, &vec![]).expect("matches");
}

#[test]
fn validate_opt_out_passes_anything() {
    let v = ToolArgsValidator::compile("null".to_string(), None).unwrap();
    let found = vec![violation("", "ignored")];
    v.validate("test-tool", r#"{"literally":"anything"}"#, &found).expect("opt-out passes");
}

#[test]
fn validate_missing_required_field_includes_template() {
    let v = ToolArgsValidator::compile(OBJECT_X.to_string(), None).unwrap();
    let found = vec![violation("", "missing required property 'x'")];
    let reason = v.validate("test-tool", "{}", &found).expect_err("missing required");
    assert_mandatory_template(&reason, "test-tool");
    assert!(reason.contains(OBJECT_X));
}

#[test]
fn validate_type_mismatch_includes_template() {
    let v = ToolArgsValidator::compile(OBJECT_X.to_string(), None).unwrap();
    let found = vec![violation("/x", "value does not match any allowed type [String]")];
    let reason = v.validate("test-tool", r#"{"x":42}"#, &found).expect_err("type mismatch");
    assert_mandatory_template(&reason, "test-tool");
    assert!(reason.contains("  /x: value does not match any allowed type [String]"));
}

#[test]
fn validate_integer_out_of_range_includes_template() {
    let declared = r#"{"properties":{"n":{"maximum":10,"minimum":1,"type":"integer"}},"required":["n"],"type":"object"}"#;
    let v = ToolArgsValidator::compile(declared.to_string(), None).unwrap();
    let found = vec![violation("/n", "999 > maximum 10")];
    let reason = v.validate("test-tool", r#"{"n":999}"#, &found).expect_err("out of range");
    assert_mandatory_template(&reason, "test-tool");
}

#[test]
fn validate_tool_args_returns_bad_args_on_failure() {
    let v = ToolArgsValidator::compile(OBJECT_X.to_string(), None).unwrap();
    let found = vec![violation("", "missing required property 'x'")];
    let err = validate_tool_args("{}", "test-tool", &v, &found).expect_err("missing required");
    let ToolError::BadArgs { reason } = err else {
        panic!("expected ToolError::BadArgs, got: {err:?}");
    };
    assert_mandatory_template(&reason, "test-tool");
}

#[test]
fn validate_tool_args_returns_value_on_success() {
    let declared = r#"{"properties":{"x":{"type":"string"}},"type":"object"}"#;
    let v = ToolArgsValidator::compile(declared.to_string(), None).unwrap();
    let a = r#"{"x":"hello"}"#;
    let got = validate_tool_args(a, "test-tool", &v, &vec![]).expect("happy path");
    assert_eq!(got, a);
}
