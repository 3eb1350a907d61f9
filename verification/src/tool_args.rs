//! The texts and rules of tool-argument validation: which keywords a
//! schema node may hold (the compile check fails closed on any other),
//! how a schema that fails to compile is reported, and the
//! self-instructive reason handed back to the model when its arguments
//! violate a tool's input schema.

use vstd::prelude::*;

use crate::error::ToolError;
use crate::text::str_eq;

verus! {

/// A single validation failure.
#[derive(Debug, Clone)]
pub struct Violation {
    /// JSON Pointer to the failing value.
    pub pointer: String,
    /// What is wrong there.
    pub message: String,
}

/// A schema that failed to compile.
#[derive(Debug, Clone)]
pub struct CompileErr {
    /// The offending keyword (empty for structural errors).
    pub keyword: String,
    /// JSON Pointer to the schema node that failed.
    pub pointer: String,
    /// What is wrong.
    pub detail: String,
}

/// A tool's input schema that is not a valid schema.
#[derive(Debug, Clone)]
pub struct SchemaCompileError {
    /// The compile diagnostic.
    pub kind: String,
    /// The first 200 characters of the declared schema.
    pub schema_excerpt: String,
}

/// A tool opts out of argument validation when its declared schema is
/// `null` or the empty object (given as compact JSON text).
pub open spec fn schema_opts_out(schema_json: Seq<char>) -> bool {
    schema_json == "null"@ || schema_json == "{}"@
}

/// Whether the declared schema (its compact JSON text) opts the tool out
/// of validation (see [`schema_opts_out`]).
pub fn opts_out_of_validation(schema_json: &str) -> (r: bool)
    ensures
        r == schema_opts_out(schema_json@),
{
    crate::text::str_eq(schema_json, "null") || crate::text::str_eq(schema_json, "{}")
}

/// The diagnostic of a compile failure.
pub open spec fn compile_error_kind(e: CompileErr) -> Seq<char> {
    if e.keyword@.len() == 0 {
        "schema invalid at "@ + e.pointer@ + ": "@ + e.detail@
    } else {
        "unsupported keyword '"@ + e.keyword@ + "' at "@ + e.pointer@ + ": "@ + e.detail@
    }
}

/// Reports a schema compile failure: the diagnostic names the keyword
/// (when there is one), the pointer and the detail; the excerpt is the
/// first 200 characters of the declared schema text.
pub fn schema_compile_error(err: &CompileErr, declared_schema_json: &str) -> (e: SchemaCompileError)
    ensures
        e.kind@ == compile_error_kind(*err),
        e.schema_excerpt@ == if declared_schema_json@.len() <= 200 {
            declared_schema_json@
        } else {
            declared_schema_json@.take(200)
        },
{
    let mut kind = String::new();
    if err.keyword.unicode_len() == 0 {
        kind.append("schema invalid at ");
    } else {
        kind.append("unsupported keyword '");
        kind.append(err.keyword.as_str());
        kind.append("' at ");
    }
    kind.append(err.pointer.as_str());
    kind.append(": ");
    kind.append(err.detail.as_str());
    let cs = crate::text::chars_of(declared_schema_json);
    let n = if cs.len() <= 200 {
        cs.len()
    } else {
        200
    };
    let excerpt = crate::text::string_from_char_range(&cs, 0, n);
    assert(declared_schema_json@.subrange(0, declared_schema_json@.len() as int) =~= declared_schema_json@);
    SchemaCompileError { kind, schema_excerpt: excerpt }
}

/// One violation as the reason lists it: `  <pointer>: <message>`.
pub open spec fn issue_line(v: Violation) -> Seq<char> {
    "  "@ + v.pointer@ + ": "@ + v.message@
}

/// The violation lines joined by newlines.
pub open spec fn issue_lines(vs: Seq<Violation>) -> Seq<char>
    decreases vs.len(),
{
    if vs.len() == 0 {
        seq![]
    } else if vs.len() == 1 {
        issue_line(vs[0])
    } else {
        issue_lines(vs.drop_last()) + "\n"@ + issue_line(vs.last())
    }
}

/// The reason handed back for arguments that violate the schema.
pub open spec fn failure_reason(
    tool_name: Seq<char>,
    args: Seq<char>,
    schema: Seq<char>,
    vs: Seq<Violation>,
) -> Seq<char> {
    tool_name + ": args validation failed.\n\nYou sent: "@ + args
        + "\n\nExpected (input_schema):\n"@ + schema + "\n\nSpecific issue(s):\n"@ + issue_lines(vs)
}

/// The reason a tool call's arguments are refused: `None` when the
/// validator found no violation; otherwise the self-instructive text
/// naming the tool, echoing the arguments (`args_repr`, their JSON text)
/// and the declared schema, and listing every violation.
pub fn args_failure_reason(
    tool_name: &str,
    args_repr: &str,
    declared_schema_json: &str,
    violations: &Vec<Violation>,
) -> (r: Option<String>)
    ensures
        violations@.len() == 0 ==> r is None,
        violations@.len() > 0 ==> (r matches Some(s) && s@ == failure_reason(
            tool_name@,
            args_repr@,
            declared_schema_json@,
            violations@,
        )),
{
    if violations.len() == 0 {
        return None;
    }
    let mut s = String::from_str(tool_name);
    s.append(": args validation failed.\n\nYou sent: ");
    s.append(args_repr);
    s.append("\n\nExpected (input_schema):\n");
    s.append(declared_schema_json);
    s.append("\n\nSpecific issue(s):\n");
    let ghost head = s@;
    let mut i: usize = 0;
    while i < violations.len()
        invariant
            i <= violations@.len(),
            s@ == head + issue_lines(violations@.take(i as int)),
        decreases violations@.len() - i,
    {
        let ghost prev = s@;
        if i > 0 {
            s.append("\n");
        }
        s.append("  ");
        s.append(violations[i].pointer.as_str());
        s.append(": ");
        s.append(violations[i].message.as_str());
        proof {
            let w = violations@.take(i + 1);
            assert(w.drop_last() =~= violations@.take(i as int));
            assert(w.last() == violations@[i as int]);
            if i == 0 {
                assert(violations@.take(0) =~= Seq::<Violation>::empty());
                assert(s@ =~= head + issue_lines(w));
            } else {
                assert(s@ =~= head + issue_lines(w));
            }
        }
        i = i + 1;
    }
    assert(violations@.take(violations@.len() as int) =~= violations@);
    Some(s)
}

/// `t` occurs in `s` at `i`.
pub open spec fn occurs_at(s: Seq<char>, t: Seq<char>, i: int) -> bool {
    0 <= i && i + t.len() <= s.len() && s.subrange(i, i + t.len()) == t
}

/// Every refusal reason carries the three mandatory parts: what was sent,
/// the expected input schema, and the specific issues.
pub proof fn law_failure_reason_is_self_instructive(
    tool_name: Seq<char>,
    args: Seq<char>,
    schema: Seq<char>,
    vs: Seq<Violation>,
)
    ensures
        exists|i: int| occurs_at(failure_reason(tool_name, args, schema, vs), "You sent: "@, i),
        exists|i: int|
            occurs_at(failure_reason(tool_name, args, schema, vs), "Expected (input_schema):"@, i),
        exists|i: int| occurs_at(failure_reason(tool_name, args, schema, vs), "Specific issue"@, i),
{
    reveal_strlit(": args validation failed.\n\nYou sent: ");
    reveal_strlit("You sent: ");
    reveal_strlit("\n\nExpected (input_schema):\n");
    reveal_strlit("Expected (input_schema):");
    reveal_strlit("\n\nSpecific issue(s):\n");
    reveal_strlit("Specific issue");
    let r = failure_reason(tool_name, args, schema, vs);
    let p1 = tool_name + ": args validation failed.\n\nYou sent: "@;
    let i1: int = (tool_name.len() + 27) as int;
    assert(r.subrange(i1, i1 + 10) =~= "You sent: "@);
    let p2 = p1 + args;
    let i2: int = (p2.len() + 2) as int;
    assert(r.subrange(i2, i2 + 24) =~= "Expected (input_schema):"@);
    let p3 = p2 + "\n\nExpected (input_schema):\n"@ + schema;
    let i3: int = (p3.len() + 2) as int;
    assert(r.subrange(i3, i3 + 14) =~= "Specific issue"@);
    assert(occurs_at(r, "You sent: "@, i1));
    assert(occurs_at(r, "Expected (input_schema):"@, i2));
    assert(occurs_at(r, "Specific issue"@, i3));
}

/// The keywords that the schema subset enforces.
pub open spec fn supported_keyword(k: Seq<char>) -> bool {
    k == "type"@
        || k == "properties"@
        || k == "required"@
        || k == "items"@
        || k == "additionalProperties"@
        || k == "enum"@
        || k == "const"@
        || k == "oneOf"@
        || k == "anyOf"@
        || k == "allOf"@
        || k == "not"@
        || k == "minimum"@
        || k == "maximum"@
        || k == "exclusiveMinimum"@
        || k == "exclusiveMaximum"@
        || k == "multipleOf"@
        || k == "minLength"@
        || k == "maxLength"@
        || k == "minItems"@
        || k == "maxItems"@
        || k == "uniqueItems"@
}

/// The annotations that the schema subset accepts and ignores.
pub open spec fn ignored_keyword(k: Seq<char>) -> bool {
    k == "title"@
        || k == "description"@
        || k == "default"@
        || k == "$comment"@
        || k == "examples"@
        || k == "$schema"@
        || k == "$id"@
}

/// A key that a schema node may hold.
pub open spec fn keyword_known(k: Seq<char>) -> bool {
    supported_keyword(k) || ignored_keyword(k)
}

/// Whether a schema node may hold the key `k` (see [`keyword_known`]).
pub fn is_keyword_known(k: &str) -> (r: bool)
    ensures
        r == keyword_known(k@),
{
    str_eq(k, "type")
        || str_eq(k, "properties")
        || str_eq(k, "required")
        || str_eq(k, "items")
        || str_eq(k, "additionalProperties")
        || str_eq(k, "enum")
        || str_eq(k, "const")
        || str_eq(k, "oneOf")
        || str_eq(k, "anyOf")
        || str_eq(k, "allOf")
        || str_eq(k, "not")
        || str_eq(k, "minimum")
        || str_eq(k, "maximum")
        || str_eq(k, "exclusiveMinimum")
        || str_eq(k, "exclusiveMaximum")
        || str_eq(k, "multipleOf")
        || str_eq(k, "minLength")
        || str_eq(k, "maxLength")
        || str_eq(k, "minItems")
        || str_eq(k, "maxItems")
        || str_eq(k, "uniqueItems")
        || str_eq(k, "title")
        || str_eq(k, "description")
        || str_eq(k, "default")
        || str_eq(k, "$comment")
        || str_eq(k, "examples")
        || str_eq(k, "$schema")
        || str_eq(k, "$id")
}

/// The compile check that fails closed: every key of a schema node (in
/// the order given) must be enforced or ignored by the subset; the first
/// that is neither is reported, at the node's `pointer`, as
/// `unsupported JSON-Schema keyword '<key>'`.
pub fn check_keywords(keys: &Vec<String>, pointer: &str) -> (r: Result<(), CompileErr>)
    ensures
        match r {
            Ok(()) => forall|i: int| 0 <= i < keys@.len() ==> keyword_known(#[trigger] keys@[i]@),
            Err(e) => exists|i: int|
                0 <= i < keys@.len() && !keyword_known(#[trigger] keys@[i]@) && (forall|j: int|
                    0 <= j < i ==> keyword_known(#[trigger] keys@[j]@)) && e.keyword@ == keys@[i]@
                    && e.pointer@ == pointer@ && e.detail@ == "unsupported JSON-Schema keyword '"@
                    + keys@[i]@ + "'"@,
        },
{
    let mut i: usize = 0;
    while i < keys.len()
        invariant
            i <= keys@.len(),
            forall|j: int| 0 <= j < i ==> keyword_known(#[trigger] keys@[j]@),
        decreases keys@.len() - i,
    {
        if !is_keyword_known(keys[i].as_str()) {
            let mut detail = String::from_str("unsupported JSON-Schema keyword '");
            detail.append(keys[i].as_str());
            detail.append("'");
            let e = CompileErr {
                keyword: keys[i].clone(),
                pointer: String::from_str(pointer),
                detail,
            };
            assert(!keyword_known(keys@[i as int]@));
            return Err(e);
        }
        i = i + 1;
    }
    Ok(())
}

/// A JSON type named by a schema's `type` keyword.
#[derive(Debug, Clone, Copy, PartialEq, Eq, Structural)]
pub enum JsonType {
    Object,
    Array,
    String,
    Number,
    Integer,
    Boolean,
    Null,
}

/// The JSON type a `type` entry names, if any.
pub open spec fn type_named(n: Seq<char>) -> Option<JsonType> {
    if n == "object"@ {
        Some(JsonType::Object)
    } else if n == "array"@ {
        Some(JsonType::Array)
    } else if n == "string"@ {
        Some(JsonType::String)
    } else if n == "number"@ {
        Some(JsonType::Number)
    } else if n == "integer"@ {
        Some(JsonType::Integer)
    } else if n == "boolean"@ {
        Some(JsonType::Boolean)
    } else if n == "null"@ {
        Some(JsonType::Null)
    } else {
        None
    }
}

/// Reads one entry of a `type` keyword at the schema node `pointer`: the
/// type it names, or the compile error `unknown type '<name>'`.
pub fn parse_type_name(name: &str, pointer: &str) -> (r: Result<JsonType, CompileErr>)
    ensures
        match type_named(name@) {
            Some(t) => r == Ok::<JsonType, CompileErr>(t),
            None => r matches Err(e) && e.keyword@ == "type"@ && e.pointer@ == pointer@ && e.detail@
                == "unknown type '"@ + name@ + "'"@,
        },
{
    let t = if str_eq(name, "object") {
        JsonType::Object
    } else if str_eq(name, "array") {
        JsonType::Array
    } else if str_eq(name, "string") {
        JsonType::String
    } else if str_eq(name, "number") {
        JsonType::Number
    } else if str_eq(name, "integer") {
        JsonType::Integer
    } else if str_eq(name, "boolean") {
        JsonType::Boolean
    } else if str_eq(name, "null") {
        JsonType::Null
    } else {
        let mut detail = String::from_str("unknown type '");
        detail.append(name);
        detail.append("'");
        return Err(CompileErr { keyword: String::from_str("type"), pointer: String::from_str(pointer), detail });
    };
    Ok(t)
}

/// The part of a tool's argument validator that decides: whether the
/// tool opted out of validation, and the declared schema text that every
/// refusal shows. The compiled rule tree that finds the violations is
/// checked beside it (its numeric keywords are floating point).
#[derive(Debug, Clone)]
pub struct ToolArgsValidator {
    /// The declared schema is `null` or the empty object.
    pub opted_out: bool,
    /// The declared schema as compact JSON text.
    pub declared_schema_json: String,
}

impl ToolArgsValidator {
    /// A validator for the declared schema (its compact JSON text), given
    /// what compiling its rule tree gave (`None`: it compiled, or it was
    /// not compiled because the schema opts out). A schema that opts out
    /// passes everything; one that failed to compile is reported.
    pub fn compile(declared_schema_json: String, build_error: Option<&CompileErr>) -> (r: Result<
        Self,
        SchemaCompileError,
    >)
        ensures
            schema_opts_out(declared_schema_json@) ==> (r matches Ok(v) && v.opted_out
                && v.declared_schema_json@ == declared_schema_json@),
            !schema_opts_out(declared_schema_json@) ==> match build_error {
                None => r matches Ok(v) && !v.opted_out && v.declared_schema_json@
                    == declared_schema_json@,
                Some(e) => r matches Err(se) && se.kind@ == compile_error_kind(*e)
                    && se.schema_excerpt@ == if declared_schema_json@.len() <= 200 {
                    declared_schema_json@
                } else {
                    declared_schema_json@.take(200)
                },
            },
    {
        if opts_out_of_validation(declared_schema_json.as_str()) {
            return Ok(ToolArgsValidator { opted_out: true, declared_schema_json });
        }
        match build_error {
            None => Ok(ToolArgsValidator { opted_out: false, declared_schema_json }),
            Some(e) => Err(schema_compile_error(e, declared_schema_json.as_str())),
        }
    }

    /// Validates a call's arguments (`args_repr`, their compact JSON
    /// text) given the violations the rule tree found: a tool that opted
    /// out, or arguments without violations, pass; otherwise the refusal
    /// is the self-instructive reason (see [`args_failure_reason`]).
    pub fn validate(&self, tool_name: &str, args_repr: &str, violations: &Vec<Violation>) -> (r: Result<
        (),
        String,
    >)
        ensures
            (self.opted_out || violations@.len() == 0) ==> r is Ok,
            (!self.opted_out && violations@.len() > 0) ==> (r matches Err(s) && s@ == failure_reason(
                tool_name@,
                args_repr@,
                self.declared_schema_json@,
                violations@,
            )),
    {
        if self.opted_out {
            return Ok(());
        }
        match args_failure_reason(tool_name, args_repr, self.declared_schema_json.as_str(), violations) {
            Some(reason) => Err(reason),
            None => Ok(()),
        }
    }
}

/// Validates a call's arguments (their compact JSON text `value`) with a
/// tool's validator, given the violations its rule tree found: the
/// arguments back when they pass, else `ToolError::BadArgs` carrying the
/// refusal reason.
pub fn validate_tool_args<'a>(
    value: &'a str,
    tool_name: &str,
    validator: &ToolArgsValidator,
    violations: &Vec<Violation>,
) -> (r: Result<&'a str, ToolError>)
    ensures
        (validator.opted_out || violations@.len() == 0) ==> r == Ok::<&str, ToolError>(value),
        (!validator.opted_out && violations@.len() > 0) ==> (r matches Err(ToolError::BadArgs { reason })
            && reason@ == failure_reason(
            tool_name@,
            value@,
            validator.declared_schema_json@,
            violations@,
        )),
{
    match validator.validate(tool_name, value, violations) {
        Ok(()) => Ok(value),
        Err(reason) => Err(ToolError::BadArgs { reason }),
    }
}

} // verus!
