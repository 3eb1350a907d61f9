use tau_runtime_core::schema::{
    compile_schema, CompiledSchema, JsonNumber, JsonValue, NumericOutcome, NumericRules, SchemaNode,
};
use tau_runtime_core::tool_args::{CompileErr, Violation};

fn to_json(v: &serde_json::Value) -> JsonValue {
    match v {
        serde_json::Value::Null => JsonValue::Null,
        serde_json::Value::Bool(b) => JsonValue::Bool(*b),
        serde_json::Value::Number(n) => {
            let f = n.as_f64();
            JsonValue::Number(JsonNumber {
                text: n.to_string(),
                integral: n.as_i64().is_some()
                    || n.as_u64().is_some()
                    || f.map(|x| x.fract() == 0.0).unwrap_or(false),
                positive: f.map(|x| x > 0.0).unwrap_or(false),
            })
        }
        serde_json::Value::String(s) => JsonValue::Str(s.clone()),
        serde_json::Value::Array(xs) => JsonValue::Array(xs.iter().map(to_json).collect()),
        serde_json::Value::Object(m) => {
            JsonValue::Object(m.iter().map(|(k, x)| (k.clone(), to_json(x))).collect())
        }
    }
}

fn parse(text: &str) -> JsonValue {
    to_json(&serde_json::from_str::<serde_json::Value>(text).unwrap())
}

fn rules_of<'a>(node: &'a SchemaNode, out: &mut Vec<&'a NumericRules>) {
    let r = &node.numeric;
    if r.minimum.is_some()
        || r.maximum.is_some()
        || r.exclusive_minimum.is_some()
        || r.exclusive_maximum.is_some()
        || r.multiple_of.is_some()
    {
        out.push(r);
    }
    for (_, sub) in &node.properties {
        rules_of(sub, out);
    }
    for sub in node.items.iter().chain(node.not.iter()) {
        rules_of(sub, out);
    }
    for subs in [&node.one_of, &node.any_of, &node.all_of].into_iter().flatten() {
        for sub in subs {
            rules_of(sub, out);
        }
    }
}

fn numbers_of<'a>(v: &'a JsonValue, out: &mut Vec<&'a str>) {
    match v {
        JsonValue::Number(n) => out.push(&n.text),
        JsonValue::Array(xs) => xs.iter().for_each(|x| numbers_of(x, out)),
        JsonValue::Object(ps) => ps.iter().for_each(|(_, x)| numbers_of(x, out)),
        _ => {}
    }
}

fn outcome(r: &NumericRules, text: &str) -> Vec<String> {
    let n: f64 = text.parse().unwrap();
    let b = |o: &Option<String>| o.as_ref().map(|t| t.parse::<f64>().unwrap());
    let mut out = Vec::new();
    if let Some(m) = b(&r.minimum) {
        if n < m {
            out.push(format!("{n} < minimum {m}"));
        }
    }
    if let Some(m) = b(&r.maximum) {
        if n > m {
            out.push(format!("{n} > maximum {m}"));
        }
    }
    if let Some(m) = b(&r.exclusive_minimum) {
        if n <= m {
            out.push(format!("{n} <= exclusiveMinimum {m}"));
        }
    }
    if let Some(m) = b(&r.exclusive_maximum) {
        if n >= m {
            out.push(format!("{n} >= exclusiveMaximum {m}"));
        }
    }
    if let Some(m) = b(&r.multiple_of) {
        let ratio = n / m;
        if (ratio - ratio.round()).abs() > 1e-9 * ratio.abs().max(1.0) {
            out.push(format!("{n} not a multiple of {m}"));
        }
    }
    out
}

struct Compiled {
    schema: CompiledSchema,
}

impl Compiled {
    fn check(&self, text: &str) -> Vec<Violation> {
        let v = parse(text);
        let mut rules = Vec::new();
        rules_of(&self.schema.root, &mut rules);
        let mut nums = Vec::new();
        numbers_of(&v, &mut nums);
        let mut table = Vec::new();
        for r in &rules {
            for t in &nums {
                table.push(NumericOutcome {
                    rules: NumericRules {
                        minimum: r.minimum.clone(),
                        maximum: r.maximum.clone(),
                        exclusive_minimum: r.exclusive_minimum.clone(),
                        exclusive_maximum: r.exclusive_maximum.clone(),
                        multiple_of: r.multiple_of.clone(),
                    },
                    number: t.to_string(),
                    messages: outcome(r, t),
                });
            }
        }
        self.schema.check(&v, &table)
    }
}

fn compile(text: &str) -> Result<Compiled, CompileErr> {
    tau_runtime_core::schema::compile(&parse(text)).map(|schema| Compiled { schema })
}

#[test]
fn object_type_accepts_object_rejects_array() {
    let s = compile(r#"{ "type": "object" }"#).unwrap();
    assert!(s.check("{}").is_empty());
    assert!(!s.check("[]").is_empty());
}

#[test]
fn required_field_missing_is_a_violation() {
    let s = compile(r#"{"type": "object", "properties": { "x": { "type": "string" } }, "required": ["x"]}"#)
        .unwrap();
    assert!(s.check(r#"{ "x": "hi" }"#).is_empty());
    let bad = s.check("{}");
    assert_eq!(bad.len(), 1);
    assert!(bad[0].message.contains("x"));
}

#[test]
fn property_type_mismatch_is_a_violation() {
    let s = compile(r#"{"type": "object", "properties": { "x": { "type": "string" } }}"#).unwrap();
    assert!(!s.check(r#"{ "x": 42 }"#).is_empty());
}

#[test]
fn empty_schema_accepts_everything() {
    let s = compile("{}").unwrap();
    assert!(s.check(r#"{ "anything": [1,2,3] }"#).is_empty());
}

#[test]
fn malformed_type_array_fails_closed() {
    assert!(compile(r#"{ "type": [42, "string"] }"#).is_err());
}

#[test]
fn malformed_required_entry_fails_closed() {
    assert!(compile(r#"{ "type": "object", "required": [1, "x"] }"#).is_err());
    assert!(compile(r#"{ "type": "object", "required": "x" }"#).is_err());
}

#[test]
fn non_object_properties_fails_closed() {
    assert!(compile(r#"{ "type": "object", "properties": "oops" }"#).is_err());
}

#[test]
fn enum_and_const() {
    let s = compile(r#"{ "enum": ["a", "b"] }"#).unwrap();
    assert!(s.check(r#""a""#).is_empty());
    assert!(!s.check(r#""c""#).is_empty());
    let s = compile(r#"{ "const": "write" }"#).unwrap();
    assert!(s.check(r#""write""#).is_empty());
    assert!(!s.check(r#""edit""#).is_empty());
}

#[test]
fn numeric_bounds() {
    let s = compile(r#"{"type": "integer", "minimum": 1, "maximum": 10}"#).unwrap();
    assert!(s.check("5").is_empty());
    assert!(!s.check("0").is_empty());
    assert!(!s.check("11").is_empty());
    let s = compile(r#"{ "type": "number", "multipleOf": 2 }"#).unwrap();
    assert!(s.check("4").is_empty());
    assert!(!s.check("5").is_empty());
}

#[test]
fn additional_properties_false() {
    let s = compile(
        r#"{"type": "object", "properties": { "x": { "type": "number" } }, "additionalProperties": false}"#,
    )
    .unwrap();
    assert!(s.check(r#"{ "x": 1 }"#).is_empty());
    assert!(!s.check(r#"{ "x": 1, "y": 2 }"#).is_empty());
}

#[test]
fn additional_properties_schema_form_fails_closed() {
    assert!(compile(r#"{ "additionalProperties": { "type": "string" } }"#).is_err());
}

#[test]
fn exclusive_bounds_and_items() {
    let s = compile(r#"{ "type": "integer", "exclusiveMinimum": 0, "exclusiveMaximum": 10 }"#).unwrap();
    assert!(s.check("5").is_empty());
    assert!(!s.check("0").is_empty());
    assert!(!s.check("10").is_empty());
    let s = compile(r#"{ "type": "array", "items": { "type": "integer" } }"#).unwrap();
    assert!(s.check("[1, 2, 3]").is_empty());
    assert!(!s.check(r#"[1, "bad"]"#).is_empty());
}

#[test]
fn fractional_multiple_of_is_correct() {
    let s = compile(r#"{ "type": "number", "multipleOf": 0.1 }"#).unwrap();
    assert!(s.check("7").is_empty(), "7 is a multiple of 0.1");
    assert!(!s.check("7.05").is_empty());
}

#[test]
fn non_positive_multiple_of_fails_closed() {
    assert!(compile(r#"{ "multipleOf": 0 }"#).is_err());
    assert!(compile(r#"{ "multipleOf": -2 }"#).is_err());
}

#[test]
fn one_of_discriminated_union_like_fs_write() {
    let s = compile(
        r#"{
            "type": "object",
            "oneOf": [
                { "properties": { "mode": { "const": "write" }, "path": { "type": "string" } },
                  "required": ["mode", "path"], "additionalProperties": false },
                { "properties": { "mode": { "const": "edit" }, "old": { "type": "string" } },
                  "required": ["mode", "old"], "additionalProperties": false }
            ]
        }"#,
    )
    .unwrap();
    assert!(s.check(r#"{ "mode": "write", "path": "/a" }"#).is_empty());
    assert!(s.check(r#"{ "mode": "edit", "old": "x" }"#).is_empty());
    assert!(!s.check(r#"{ "mode": "write" }"#).is_empty());
}

#[test]
fn any_of_all_of_not() {
    let s = compile(r#"{ "anyOf": [ { "type": "string" }, { "type": "integer" } ] }"#).unwrap();
    assert!(s.check(r#""x""#).is_empty());
    assert!(s.check("3").is_empty());
    assert!(!s.check("true").is_empty());
    let s = compile(r#"{ "allOf": [ { "type": "integer" }, { "minimum": 0 } ] }"#).unwrap();
    assert!(s.check("5").is_empty());
    assert!(!s.check("-1").is_empty());
    let s = compile(r#"{ "not": { "type": "string" } }"#).unwrap();
    assert!(s.check("3").is_empty());
    assert!(!s.check(r#""x""#).is_empty());
}

#[test]
fn string_and_array_bounds() {
    let s = compile(r#"{"type": "string", "minLength": 2, "maxLength": 4}"#).unwrap();
    assert!(s.check(r#""abc""#).is_empty());
    assert!(!s.check(r#""a""#).is_empty());
    assert!(!s.check(r#""abcde""#).is_empty());
    let s = compile(r#"{"type": "array", "minItems": 1, "uniqueItems": true}"#).unwrap();
    assert!(s.check("[1, 2]").is_empty());
    assert!(!s.check("[]").is_empty());
    assert!(!s.check("[1, 1]").is_empty());
}

#[test]
fn unsupported_keywords_fail_closed() {
    for kw in ["pattern", "format", "$ref", "patternProperties", "if", "dependencies"] {
        let schema = JsonValue::Object(vec![
            ("type".to_string(), JsonValue::Str("string".into())),
            (kw.to_string(), JsonValue::Object(vec![])),
        ]);
        let err = match compile_schema(&schema, "") {
            Err(e) => e,
            Ok(_) => panic!("{kw}"),
        };
        assert_eq!(err.keyword, kw, "error should name the offending keyword");
        assert_eq!(err.pointer, "");
    }
}

#[test]
fn one_of_rejects_when_two_branches_match() {
    let s = compile(r#"{ "oneOf": [ { "minimum": 0 }, { "maximum": 10 } ] }"#).unwrap();
    assert!(!s.check("5").is_empty(), "value matching two oneOf branches must be rejected");
    assert!(s.check("15").is_empty());
}

#[test]
fn annotations_are_ignored_not_errors() {
    let s = compile(
        r#"{"type": "string", "title": "Name", "description": "the name", "default": "x", "examples": ["a"]}"#,
    )
    .expect("annotations must not error");
    assert!(s.check(r#""hi""#).is_empty());
}

#[test]
fn violations_are_located_and_worded_exactly() {
    let s = compile(
        r#"{"type": "object", "required": ["a"], "properties": {"a/b~c": {"type": ["string", "null"]},
            "list": {"items": {"enum": [1, "x", null]}}}, "additionalProperties": false}"#,
    )
    .unwrap();
    let out = s.check(r#"{"a/b~c": 3, "list": [1, 2], "zz": true}"#);
    let got: Vec<(String, String)> = out.into_iter().map(|v| (v.pointer, v.message)).collect();
    assert_eq!(
        got,
        vec![
            ("".to_string(), "missing required property 'a'".to_string()),
            ("/a~1b~0c".to_string(), "value does not match any allowed type [String, Null]".to_string()),
            ("/list/1".to_string(), "value not in enum [Number(1), String(\"x\"), Null]".to_string()),
            ("".to_string(), "unexpected additional property 'zz'".to_string()),
        ]
    );
    let s = compile(r#"{"const": {"k": [true, 1.5]}, "allOf": [{"type": "string"}]}"#).unwrap();
    let got: Vec<(String, String)> =
        s.check("3").into_iter().map(|v| (v.pointer, v.message)).collect();
    assert_eq!(
        got,
        vec![
            ("".to_string(), "value must equal const {\"k\":[true,1.5]}".to_string()),
            ("/allOf/0".to_string(), "value failed an allOf branch".to_string()),
        ]
    );
    let s = compile(r#"{"minimum": 2}"#).unwrap();
    let got: Vec<String> = s.check("1").into_iter().map(|v| v.message).collect();
    assert_eq!(got, vec!["1 < minimum 2".to_string()]);
}

#[test]
fn compile_errors_name_keyword_and_pointer() {
    let e = compile(r#"{"properties": {"p": {"items": {"type": "float"}}}}"#).err().unwrap();
    assert_eq!(
        (e.keyword.as_str(), e.pointer.as_str(), e.detail.as_str()),
        ("type", "/properties/p/items", "unknown type 'float'")
    );
    let e = compile(r#"{"anyOf": [true, false]}"#).err().unwrap();
    assert_eq!((e.pointer.as_str(), e.detail.as_str()), ("/anyOf/1", "schema node must be an object"));
    let e = compile(r#"{"enum": "x"}"#).err().unwrap();
    assert_eq!((e.keyword.as_str(), e.detail.as_str()), ("enum", "enum must be an array"));
}
