//! The JSON-Schema subset that tool input schemas are written in: a
//! schema value is compiled into a rule tree, failing closed on anything
//! outside the subset, and a tool's arguments are checked against the
//! tree, each violation located by an RFC 6901 pointer.
//!
//! JSON numbers are held as their text. The numeric keywords (`minimum`,
//! `maximum`, `exclusiveMinimum`, `exclusiveMaximum`, `multipleOf`) are
//! decided in floating point by the caller, which hands their outcomes in
//! as a table; everything else is decided here.

use vstd::prelude::*;

use crate::context::{json_quote, json_string_literal};
use crate::text::{concat2, debug_str, decimal, str_debug, str_eq, u64_to_decimal};
use crate::tool_args::{
    is_keyword_known, keyword_known, parse_type_name, type_named, CompileErr,
    JsonType, Violation,
};

verus! {

/// A JSON number: its text as serde_json renders it, whether it is
/// integral (an integer, or a float without a fractional part), and
/// whether it is greater than zero.
#[derive(Debug)]
pub struct JsonNumber {
    pub text: String,
    pub integral: bool,
    pub positive: bool,
}

/// A JSON value. An object's entries are in key order, keys distinct.
#[derive(Debug)]
pub enum JsonValue {
    Null,
    Bool(bool),
    Number(JsonNumber),
    Str(String),
    Array(Vec<JsonValue>),
    Object(Vec<(String, JsonValue)>),
}

// ---------------------------------------------------------------------------
// Rendering
// ---------------------------------------------------------------------------

/// One more than the number of elements or entries of an array or
/// object; zero for any other value (a measure for walking a value).
pub open spec fn width(v: JsonValue) -> nat {
    match v {
        JsonValue::Array(xs) => xs@.len() + 1,
        JsonValue::Object(ps) => ps@.len() + 1,
        _ => 0,
    }
}

/// A value as serde_json's `Debug` shows it: `Null`, `Bool(true)`,
/// `Number(1)`, `String("a")`, `Array [..]`, `Object {"k": ..}`.
pub open spec fn json_debug(v: JsonValue) -> Seq<char>
    decreases v, width(v),
{
    match v {
        JsonValue::Null => "Null"@,
        JsonValue::Bool(b) => if b {
            "Bool(true)"@
        } else {
            "Bool(false)"@
        },
        JsonValue::Number(n) => "Number("@ + n.text@ + ")"@,
        JsonValue::Str(s) => "String("@ + str_debug(s@) + ")"@,
        JsonValue::Array(xs) => "Array ["@ + debug_items(v, xs@.len()) + "]"@,
        JsonValue::Object(ps) => "Object {"@ + debug_entries(v, ps@.len()) + "}"@,
    }
}

/// The first `k` elements of array `v`, as `Debug` lists them.
pub open spec fn debug_items(v: JsonValue, k: nat) -> Seq<char>
    decreases v, k,
{
    if v is Array && 0 < k <= v->Array_0@.len() {
        let e = json_debug(v->Array_0@[k - 1]);
        if k == 1 {
            e
        } else {
            debug_items(v, (k - 1) as nat) + ", "@ + e
        }
    } else {
        seq![]
    }
}

/// The first `k` entries of object `v`, as `Debug` lists them.
pub open spec fn debug_entries(v: JsonValue, k: nat) -> Seq<char>
    decreases v, k,
{
    if v is Object && 0 < k <= v->Object_0@.len() {
        let p = v->Object_0@[k - 1];
        let e = str_debug(p.0@) + ": "@ + json_debug(p.1);
        if k == 1 {
            e
        } else {
            debug_entries(v, (k - 1) as nat) + ", "@ + e
        }
    } else {
        seq![]
    }
}

/// A value as compact JSON text (serde_json's `Display`).
pub open spec fn json_text(v: JsonValue) -> Seq<char>
    decreases v, width(v),
{
    match v {
        JsonValue::Null => "null"@,
        JsonValue::Bool(b) => if b {
            "true"@
        } else {
            "false"@
        },
        JsonValue::Number(n) => n.text@,
        JsonValue::Str(s) => json_string_literal(s@),
        JsonValue::Array(xs) => "["@ + text_items(v, xs@.len()) + "]"@,
        JsonValue::Object(ps) => "{"@ + text_entries(v, ps@.len()) + "}"@,
    }
}

/// The first `k` elements of array `v`, as compact JSON.
pub open spec fn text_items(v: JsonValue, k: nat) -> Seq<char>
    decreases v, k,
{
    if v is Array && 0 < k <= v->Array_0@.len() {
        let e = json_text(v->Array_0@[k - 1]);
        if k == 1 {
            e
        } else {
            text_items(v, (k - 1) as nat) + ","@ + e
        }
    } else {
        seq![]
    }
}

/// The first `k` entries of object `v`, as compact JSON.
pub open spec fn text_entries(v: JsonValue, k: nat) -> Seq<char>
    decreases v, k,
{
    if v is Object && 0 < k <= v->Object_0@.len() {
        let p = v->Object_0@[k - 1];
        let e = json_string_literal(p.0@) + ":"@ + json_text(p.1);
        if k == 1 {
            e
        } else {
            text_entries(v, (k - 1) as nat) + ","@ + e
        }
    } else {
        seq![]
    }
}

fn debug_exec(v: &JsonValue) -> (r: String)
    ensures
        r@ == json_debug(*v),
    decreases v,
{
    match v {
        JsonValue::Null => String::from_str("Null"),
        JsonValue::Bool(b) => if *b {
            String::from_str("Bool(true)")
        } else {
            String::from_str("Bool(false)")
        },
        JsonValue::Number(n) => {
            let mut s = concat2("Number(", n.text.as_str());
            s.append(")");
            s
        },
        JsonValue::Str(t) => {
            let d = debug_str(t.as_str());
            let mut s = concat2("String(", d.as_str());
            s.append(")");
            s
        },
        JsonValue::Array(xs) => {
            let mut s = String::from_str("Array [");
            let ghost head = s@;
            let mut i: usize = 0;
            while i < xs.len()
                invariant
                    i <= xs@.len(),
                    *v == JsonValue::Array(*xs),
                    head == "Array ["@,
                    s@ == head + debug_items(*v, i as nat),
                decreases xs@.len() - i,
            {
                proof {
                    assert(decreases_to!(*v => xs@[i as int]));
                }
                let e = debug_exec(&xs[i]);
                if i > 0 {
                    s.append(", ");
                }
                s.append(e.as_str());
                i = i + 1;
            }
            s.append("]");
            s
        },
        JsonValue::Object(ps) => {
            let mut s = String::from_str("Object {");
            let ghost head = s@;
            let mut i: usize = 0;
            while i < ps.len()
                invariant
                    i <= ps@.len(),
                    *v == JsonValue::Object(*ps),
                    head == "Object {"@,
                    s@ == head + debug_entries(*v, i as nat),
                decreases ps@.len() - i,
            {
                proof {
                    assert(decreases_to!(*v => ps@[i as int].1));
                }
                let e = debug_exec(&ps[i].1);
                let k = debug_str(ps[i].0.as_str());
                if i > 0 {
                    s.append(", ");
                }
                s.append(k.as_str());
                s.append(": ");
                s.append(e.as_str());
                i = i + 1;
            }
            s.append("}");
            s
        },
    }
}

fn text_exec(v: &JsonValue) -> (r: String)
    ensures
        r@ == json_text(*v),
    decreases v,
{
    match v {
        JsonValue::Null => String::from_str("null"),
        JsonValue::Bool(b) => if *b {
            String::from_str("true")
        } else {
            String::from_str("false")
        },
        JsonValue::Number(n) => n.text.clone(),
        JsonValue::Str(t) => json_quote(t.as_str()),
        JsonValue::Array(xs) => {
            let mut s = String::from_str("[");
            let ghost head = s@;
            let mut i: usize = 0;
            while i < xs.len()
                invariant
                    i <= xs@.len(),
                    *v == JsonValue::Array(*xs),
                    head == "["@,
                    s@ == head + text_items(*v, i as nat),
                decreases xs@.len() - i,
            {
                proof {
                    assert(decreases_to!(*v => xs@[i as int]));
                }
                let e = text_exec(&xs[i]);
                if i > 0 {
                    s.append(",");
                }
                s.append(e.as_str());
                i = i + 1;
            }
            s.append("]");
            s
        },
        JsonValue::Object(ps) => {
            let mut s = String::from_str("{");
            let ghost head = s@;
            let mut i: usize = 0;
            while i < ps.len()
                invariant
                    i <= ps@.len(),
                    *v == JsonValue::Object(*ps),
                    head == "{"@,
                    s@ == head + text_entries(*v, i as nat),
                decreases ps@.len() - i,
            {
                proof {
                    assert(decreases_to!(*v => ps@[i as int].1));
                }
                let e = text_exec(&ps[i].1);
                let k = json_quote(ps[i].0.as_str());
                if i > 0 {
                    s.append(",");
                }
                s.append(k.as_str());
                s.append(":");
                s.append(e.as_str());
                i = i + 1;
            }
            s.append("}");
            s
        },
    }
}

/// The name `Debug` gives a JSON type.
pub open spec fn json_type_name(t: JsonType) -> Seq<char> {
    match t {
        JsonType::Object => "Object"@,
        JsonType::Array => "Array"@,
        JsonType::String => "String"@,
        JsonType::Number => "Number"@,
        JsonType::Integer => "Integer"@,
        JsonType::Boolean => "Boolean"@,
        JsonType::Null => "Null"@,
    }
}

/// The names of a list of types, separated by `, `.
pub open spec fn type_names(ts: Seq<JsonType>) -> Seq<char>
    decreases ts.len(),
{
    if ts.len() == 0 {
        seq![]
    } else if ts.len() == 1 {
        json_type_name(ts[0])
    } else {
        type_names(ts.drop_last()) + ", "@ + json_type_name(ts.last())
    }
}

fn json_type_name_exec(t: JsonType) -> (r: &'static str)
    ensures
        r@ == json_type_name(t),
{
    match t {
        JsonType::Object => "Object",
        JsonType::Array => "Array",
        JsonType::String => "String",
        JsonType::Number => "Number",
        JsonType::Integer => "Integer",
        JsonType::Boolean => "Boolean",
        JsonType::Null => "Null",
    }
}

fn types_debug(ts: &Vec<JsonType>) -> (r: String)
    ensures
        r@ == type_names(ts@),
{
    let mut s = String::new();
    let mut i: usize = 0;
    while i < ts.len()
        invariant
            i <= ts@.len(),
            s@ == type_names(ts@.take(i as int)),
        decreases ts@.len() - i,
    {
        assert(ts@.take(i + 1).drop_last() =~= ts@.take(i as int));
        if i > 0 {
            s.append(", ");
        }
        s.append(json_type_name_exec(ts[i]));
        i = i + 1;
    }
    assert(ts@.take(ts@.len() as int) =~= ts@);
    s
}

// ---------------------------------------------------------------------------
// Equality
// ---------------------------------------------------------------------------

/// Two number texts name the same number as serde_json compares them:
/// the same text, or the two zeros of floating point.
pub open spec fn same_number(a: Seq<char>, b: Seq<char>) -> bool {
    a == b || (a == "0.0"@ && b == "-0.0"@) || (a == "-0.0"@ && b == "0.0"@)
}

/// Two values are equal as serde_json compares them (objects entry by
/// entry, in key order).
pub open spec fn json_same(a: JsonValue, b: JsonValue) -> bool
    decreases a, width(a),
{
    match (a, b) {
        (JsonValue::Null, JsonValue::Null) => true,
        (JsonValue::Bool(x), JsonValue::Bool(y)) => x == y,
        (JsonValue::Number(x), JsonValue::Number(y)) => same_number(x.text@, y.text@),
        (JsonValue::Str(x), JsonValue::Str(y)) => x@ == y@,
        (JsonValue::Array(xs), JsonValue::Array(ys)) => xs@.len() == ys@.len() && same_items(
            a,
            b,
            xs@.len(),
        ),
        (JsonValue::Object(ps), JsonValue::Object(qs)) => ps@.len() == qs@.len() && same_entries(
            a,
            b,
            ps@.len(),
        ),
        _ => false,
    }
}

/// The first `k` elements of arrays `a` and `b` are pairwise equal.
pub open spec fn same_items(a: JsonValue, b: JsonValue, k: nat) -> bool
    decreases a, k,
{
    if a is Array && b is Array && 0 < k <= a->Array_0@.len() && k <= b->Array_0@.len() {
        same_items(a, b, (k - 1) as nat) && json_same(a->Array_0@[k - 1], b->Array_0@[k - 1])
    } else {
        true
    }
}

/// The first `k` entries of objects `a` and `b` have equal keys and
/// equal values.
pub open spec fn same_entries(a: JsonValue, b: JsonValue, k: nat) -> bool
    decreases a, k,
{
    if a is Object && b is Object && 0 < k <= a->Object_0@.len() && k <= b->Object_0@.len() {
        &&& same_entries(a, b, (k - 1) as nat)
        &&& a->Object_0@[k - 1].0@ == b->Object_0@[k - 1].0@
        &&& json_same(a->Object_0@[k - 1].1, b->Object_0@[k - 1].1)
    } else {
        true
    }
}

fn same_exec(a: &JsonValue, b: &JsonValue) -> (r: bool)
    ensures
        r == json_same(*a, *b),
    decreases a,
{
    match a {
        JsonValue::Null => match b {
            JsonValue::Null => true,
            _ => false,
        },
        JsonValue::Bool(x) => match b {
            JsonValue::Bool(y) => *x == *y,
            _ => false,
        },
        JsonValue::Number(x) => match b {
            JsonValue::Number(y) => {
                let (p, q) = (x.text.as_str(), y.text.as_str());
                str_eq(p, q) || (str_eq(p, "0.0") && str_eq(q, "-0.0")) || (str_eq(p, "-0.0")
                    && str_eq(q, "0.0"))
            },
            _ => false,
        },
        JsonValue::Str(x) => match b {
            JsonValue::Str(y) => str_eq(x.as_str(), y.as_str()),
            _ => false,
        },
        JsonValue::Array(xs) => match b {
            JsonValue::Array(ys) => {
                if xs.len() != ys.len() {
                    return false;
                }
                let mut i: usize = 0;
                while i < xs.len()
                    invariant
                        i <= xs@.len(),
                        xs@.len() == ys@.len(),
                        *a == JsonValue::Array(*xs),
                        *b == JsonValue::Array(*ys),
                        same_items(*a, *b, i as nat),
                    decreases xs@.len() - i,
                {
                    proof {
                        let ghost av = *a;
                        assert(decreases_to!(av => av->Array_0));
                        assert(decreases_to!(av->Array_0 => av->Array_0[i as int]));
                        assert(av->Array_0[i as int] == xs@[i as int]);
                    }
                    if !same_exec(&xs[i], &ys[i]) {
                        proof {
                            if same_items(*a, *b, xs@.len()) {
                                lemma_same_items_prefix(*a, *b, (i + 1) as nat, xs@.len());
                            }
                        }
                        return false;
                    }
                    i = i + 1;
                }
                true
            },
            _ => false,
        },
        JsonValue::Object(ps) => match b {
            JsonValue::Object(qs) => {
                if ps.len() != qs.len() {
                    return false;
                }
                let mut i: usize = 0;
                while i < ps.len()
                    invariant
                        i <= ps@.len(),
                        ps@.len() == qs@.len(),
                        *a == JsonValue::Object(*ps),
                        *b == JsonValue::Object(*qs),
                        same_entries(*a, *b, i as nat),
                    decreases ps@.len() - i,
                {
                    proof {
                        let ghost av = *a;
                        assert(decreases_to!(av => av->Object_0));
                        assert(decreases_to!(av->Object_0 => av->Object_0[i as int]));
                        assert(av->Object_0[i as int].1 == ps@[i as int].1);
                    }
                    if !str_eq(ps[i].0.as_str(), qs[i].0.as_str()) || !same_exec(&ps[i].1, &qs[i].1) {
                        proof {
                            if same_entries(*a, *b, ps@.len()) {
                                lemma_same_entries_prefix(*a, *b, (i + 1) as nat, ps@.len());
                            }
                        }
                        return false;
                    }
                    i = i + 1;
                }
                true
            },
            _ => false,
        },
    }
}

proof fn lemma_same_items_prefix(a: JsonValue, b: JsonValue, k: nat, n: nat)
    requires
        k <= n,
        a is Array,
        b is Array,
        n <= a->Array_0@.len(),
        n <= b->Array_0@.len(),
        same_items(a, b, n),
    ensures
        same_items(a, b, k),
    decreases n - k,
{
    if k < n {
        lemma_same_items_prefix(a, b, k + 1, n);
    }
}

proof fn lemma_same_entries_prefix(a: JsonValue, b: JsonValue, k: nat, n: nat)
    requires
        k <= n,
        a is Object,
        b is Object,
        n <= a->Object_0@.len(),
        n <= b->Object_0@.len(),
        same_entries(a, b, n),
    ensures
        same_entries(a, b, k),
    decreases n - k,
{
    if k < n {
        lemma_same_entries_prefix(a, b, k + 1, n);
    }
}

// ---------------------------------------------------------------------------
// The compiled rule tree
// ---------------------------------------------------------------------------

/// The numeric keywords of a schema node, each held as its number text.
#[derive(Debug)]
pub struct NumericRules {
    pub minimum: Option<String>,
    pub maximum: Option<String>,
    pub exclusive_minimum: Option<String>,
    pub exclusive_maximum: Option<String>,
    pub multiple_of: Option<String>,
}

/// How the numeric keywords `rules` judge the number `number`, as the
/// caller decided in floating point: the message of each keyword it
/// fails, in keyword order (`minimum`, `maximum`, `exclusiveMinimum`,
/// `exclusiveMaximum`, `multipleOf`).
#[derive(Debug)]
pub struct NumericOutcome {
    pub rules: NumericRules,
    pub number: String,
    pub messages: Vec<String>,
}

/// One node of a compiled schema. All constraints are optional and
/// combined with AND.
#[derive(Debug)]
pub struct SchemaNode {
    pub types: Option<Vec<JsonType>>,
    pub properties: Vec<(String, SchemaNode)>,
    pub required: Vec<String>,
    pub items: Option<Box<SchemaNode>>,
    pub additional_properties: Option<bool>,
    pub enum_values: Option<Vec<JsonValue>>,
    pub const_value: Option<JsonValue>,
    pub numeric: NumericRules,
    pub min_length: Option<u64>,
    pub max_length: Option<u64>,
    pub min_items: Option<u64>,
    pub max_items: Option<u64>,
    pub unique_items: Option<bool>,
    pub one_of: Option<Vec<SchemaNode>>,
    pub any_of: Option<Vec<SchemaNode>>,
    pub all_of: Option<Vec<SchemaNode>>,
    pub not: Option<Box<SchemaNode>>,
}

// ---------------------------------------------------------------------------
// Checking a value
// ---------------------------------------------------------------------------

/// A violation as a pair of its pointer and its message.
pub open spec fn viol_view(x: Violation) -> (Seq<char>, Seq<char>) {
    (x.pointer@, x.message@)
}

/// The violations of a list, as pointer and message pairs.
pub open spec fn viols_view(s: Seq<Violation>) -> Seq<(Seq<char>, Seq<char>)> {
    s.map_values(|x: Violation| viol_view(x))
}

/// One character of an RFC 6901 pointer segment: `~` as `~0`, `/` as
/// `~1`.
pub open spec fn escape_char(c: char) -> Seq<char> {
    if c == '~' {
        seq!['~', '0']
    } else if c == '/' {
        seq!['~', '1']
    } else {
        seq![c]
    }
}

/// A key as an RFC 6901 pointer segment.
pub open spec fn escape_segment(s: Seq<char>) -> Seq<char>
    decreases s.len(),
{
    if s.len() == 0 {
        seq![]
    } else {
        escape_segment(s.drop_last()) + escape_char(s.last())
    }
}

/// The pointer of a child: `ptr`, `/` and the segment.
pub open spec fn child_ptr(ptr: Seq<char>, seg: Seq<char>) -> Seq<char> {
    ptr + "/"@ + seg
}

/// A value has the JSON type `t` (`integer` takes an integral number).
pub open spec fn type_matches(t: JsonType, v: JsonValue) -> bool {
    match (t, v) {
        (JsonType::Object, JsonValue::Object(_)) => true,
        (JsonType::Array, JsonValue::Array(_)) => true,
        (JsonType::String, JsonValue::Str(_)) => true,
        (JsonType::Boolean, JsonValue::Bool(_)) => true,
        (JsonType::Null, JsonValue::Null) => true,
        (JsonType::Number, JsonValue::Number(_)) => true,
        (JsonType::Integer, JsonValue::Number(n)) => n.integral,
        _ => false,
    }
}

/// The view of an optional text.
pub open spec fn opt_text(o: Option<String>) -> Option<Seq<char>> {
    match o {
        Some(s) => Some(s@),
        None => None,
    }
}

/// Two sets of numeric keywords hold the same texts.
pub open spec fn rules_same(a: NumericRules, b: NumericRules) -> bool {
    &&& opt_text(a.minimum) == opt_text(b.minimum)
    &&& opt_text(a.maximum) == opt_text(b.maximum)
    &&& opt_text(a.exclusive_minimum) == opt_text(b.exclusive_minimum)
    &&& opt_text(a.exclusive_maximum) == opt_text(b.exclusive_maximum)
    &&& opt_text(a.multiple_of) == opt_text(b.multiple_of)
}

/// A node without numeric keywords.
pub open spec fn no_numeric_rules(r: NumericRules) -> bool {
    r.minimum is None && r.maximum is None && r.exclusive_minimum is None
        && r.exclusive_maximum is None && r.multiple_of is None
}

/// The first outcome of `table` for `rules` and the number `t`.
pub open spec fn find_outcome(table: Seq<NumericOutcome>, rules: NumericRules, t: Seq<char>) -> Option<
    NumericOutcome,
>
    decreases table.len(),
{
    if table.len() == 0 {
        None
    } else if rules_same(table[0].rules, rules) && table[0].number@ == t {
        Some(table[0])
    } else {
        find_outcome(table.drop_first(), rules, t)
    }
}

/// The views of a list of strings.
pub open spec fn texts(v: Seq<String>) -> Seq<Seq<char>> {
    v.map_values(|s: String| s@)
}

/// The messages the numeric keywords give the number `t` (none when the
/// node has none, or the table holds no outcome for them).
pub open spec fn numeric_messages(rules: NumericRules, t: Seq<char>, table: Seq<NumericOutcome>) -> Seq<
    Seq<char>,
> {
    if no_numeric_rules(rules) {
        seq![]
    } else {
        match find_outcome(table, rules, t) {
            Some(o) => texts(o.messages@),
            None => seq![],
        }
    }
}

/// Each message at `ptr`.
pub open spec fn at_ptr(ptr: Seq<char>, ms: Seq<Seq<char>>) -> Seq<(Seq<char>, Seq<char>)> {
    ms.map_values(|m: Seq<char>| (ptr, m))
}

/// One violation at `ptr` when `c` holds, else none.
pub open spec fn when(c: bool, ptr: Seq<char>, m: Seq<char>) -> Seq<(Seq<char>, Seq<char>)> {
    if c {
        seq![(ptr, m)]
    } else {
        seq![]
    }
}

/// Two elements of an array, the first before the second, are equal.
pub open spec fn has_duplicate(xs: Seq<JsonValue>) -> bool {
    exists|i: int, j: int| 0 <= i < j < xs.len() && json_same(#[trigger] xs[j], #[trigger] xs[i])
}

/// The number of elements of a value that is an array (else none).
pub open spec fn arr_len(v: JsonValue) -> nat {
    match v {
        JsonValue::Array(xs) => xs@.len(),
        _ => 0,
    }
}

/// The entry keyed `k` of an object's entries, if any.
pub open spec fn entry_of(ps: Seq<(String, JsonValue)>, k: Seq<char>) -> Option<JsonValue>
    decreases ps.len(),
{
    if ps.len() == 0 {
        None
    } else if ps[0].0@ == k {
        Some(ps[0].1)
    } else {
        entry_of(ps.drop_first(), k)
    }
}

/// Some property of the node is keyed `k`.
pub open spec fn has_property(node: SchemaNode, k: Seq<char>) -> bool {
    exists|i: int| 0 <= i < node.properties@.len() && (#[trigger] node.properties@[i]).0@ == k
}

/// The `type` violation: no listed type matches.
pub open spec fn type_violation(node: SchemaNode, v: JsonValue, ptr: Seq<char>) -> Seq<(Seq<char>, Seq<char>)> {
    match node.types {
        Some(ts) => when(
            !(exists|i: int| 0 <= i < ts@.len() && type_matches(#[trigger] ts@[i], v)),
            ptr,
            "value does not match any allowed type ["@ + type_names(ts@) + "]"@,
        ),
        None => seq![],
    }
}

/// The `enum` violation: no listed value equals `v`.
pub open spec fn enum_violation(node: SchemaNode, v: JsonValue, ptr: Seq<char>) -> Seq<(Seq<char>, Seq<char>)> {
    match node.enum_values {
        Some(vals) => when(
            !(exists|i: int| 0 <= i < vals@.len() && json_same(#[trigger] vals@[i], v)),
            ptr,
            "value not in enum ["@ + debug_items(JsonValue::Array(vals), vals@.len()) + "]"@,
        ),
        None => seq![],
    }
}

/// The `const` violation: the constant differs from `v`.
pub open spec fn const_violation(node: SchemaNode, v: JsonValue, ptr: Seq<char>) -> Seq<(Seq<char>, Seq<char>)> {
    match node.const_value {
        Some(c) => when(!json_same(c, v), ptr, "value must equal const "@ + json_text(c)),
        None => seq![],
    }
}

/// The numeric keywords' violations of a number.
pub open spec fn numeric_violations(
    node: SchemaNode,
    v: JsonValue,
    ptr: Seq<char>,
    table: Seq<NumericOutcome>,
) -> Seq<(Seq<char>, Seq<char>)> {
    match v {
        JsonValue::Number(n) => at_ptr(ptr, numeric_messages(node.numeric, n.text@, table)),
        _ => seq![],
    }
}

/// The length violations of a string (in characters).
pub open spec fn string_violations(node: SchemaNode, v: JsonValue, ptr: Seq<char>) -> Seq<(Seq<char>, Seq<char>)> {
    match v {
        JsonValue::Str(s) => {
            let len = s@.len();
            (match node.min_length {
                Some(m) => when(len < m, ptr, "string shorter than minLength "@ + decimal(m as nat)),
                None => seq![],
            }) + (match node.max_length {
                Some(m) => when(len > m, ptr, "string longer than maxLength "@ + decimal(m as nat)),
                None => seq![],
            })
        },
        _ => seq![],
    }
}

/// The length and uniqueness violations of an array.
pub open spec fn array_violations(node: SchemaNode, v: JsonValue, ptr: Seq<char>) -> Seq<(Seq<char>, Seq<char>)> {
    match v {
        JsonValue::Array(xs) => {
            let len = xs@.len();
            (match node.min_items {
                Some(m) => when(len < m, ptr, "fewer than minItems "@ + decimal(m as nat)),
                None => seq![],
            }) + (match node.max_items {
                Some(m) => when(len > m, ptr, "more than maxItems "@ + decimal(m as nat)),
                None => seq![],
            }) + when(
                node.unique_items == Some(true) && has_duplicate(xs@),
                ptr,
                "array items not unique"@,
            )
        },
        _ => seq![],
    }
}

/// The violations a node finds without descending: type, `enum`,
/// `const`, the numeric keywords, string length, array length and
/// uniqueness.
pub open spec fn local_violations(
    node: SchemaNode,
    v: JsonValue,
    ptr: Seq<char>,
    table: Seq<NumericOutcome>,
) -> Seq<(Seq<char>, Seq<char>)> {
    type_violation(node, v, ptr) + enum_violation(node, v, ptr) + const_violation(node, v, ptr)
        + numeric_violations(node, v, ptr, table) + string_violations(node, v, ptr)
        + array_violations(node, v, ptr)
}

/// The violations of `v` against `node`, located under `ptr`, keyword by
/// keyword: the node's own checks (see [`local_violations`]); each array
/// element against `items`; `oneOf` (exactly one branch must pass),
/// `anyOf` (some branch must pass), each failing `allOf` branch, `not`;
/// then, for an object, each missing `required` property, each present
/// property against its schema, and each key outside `properties` when
/// `additionalProperties` is false. Children are located under
/// `ptr/<index>` and `ptr/<key>` (the key escaped as RFC 6901 asks);
/// failing `allOf` branches at `ptr/allOf/<index>`.
pub open spec fn violations(
    node: SchemaNode,
    v: JsonValue,
    ptr: Seq<char>,
    table: Seq<NumericOutcome>,
) -> Seq<(Seq<char>, Seq<char>)>
    decreases node, 1nat, 0nat,
{
    let one = match node.one_of {
        Some(subs) => {
            let n = passing(node, v, table, 0, subs@.len());
            when(
                n != 1,
                ptr,
                "value must match exactly one oneOf branch, matched "@ + decimal(n),
            )
        },
        None => seq![],
    };
    let any = match node.any_of {
        Some(subs) => when(
            passing(node, v, table, 1, subs@.len()) == 0,
            ptr,
            "value matched no anyOf branch"@,
        ),
        None => seq![],
    };
    let all = match node.all_of {
        Some(subs) => all_of_violations(node, v, ptr, table, subs@.len()),
        None => seq![],
    };
    let not = match node.not {
        Some(sub) => when(
            violations(*sub, v, seq![], table).len() == 0,
            ptr,
            "value matched a `not` schema"@,
        ),
        None => seq![],
    };
    let obj = match v {
        JsonValue::Object(ps) => required_violations(node, ps@, ptr, node.required@.len())
            + property_violations(node, v, ptr, table, node.properties@.len())
            + additional_violations(node, ps@, ptr, ps@.len()),
        _ => seq![],
    };
    local_violations(node, v, ptr, table) + item_violations(node, v, ptr, table, arr_len(v))
        + one + any + all + not + obj
}

/// The violations of the first `k` elements of array `v` against the
/// node's `items`.
pub open spec fn item_violations(
    node: SchemaNode,
    v: JsonValue,
    ptr: Seq<char>,
    table: Seq<NumericOutcome>,
    k: nat,
) -> Seq<(Seq<char>, Seq<char>)>
    decreases node, 0nat, k,
{
    if node.items is Some && v is Array && 0 < k <= v->Array_0@.len() {
        item_violations(node, v, ptr, table, (k - 1) as nat) + violations(
            *node.items->Some_0,
            v->Array_0@[k - 1],
            child_ptr(ptr, decimal((k - 1) as nat)),
            table,
        )
    } else {
        seq![]
    }
}

/// The branches of a combinator (0: `oneOf`, 1: `anyOf`, otherwise
/// `allOf`).
pub open spec fn branches(node: SchemaNode, which: nat) -> Seq<SchemaNode> {
    match if which == 0 {
        node.one_of
    } else if which == 1 {
        node.any_of
    } else {
        node.all_of
    } {
        Some(subs) => subs@,
        None => seq![],
    }
}

/// How many of the first `k` branches of a combinator `v` passes.
pub open spec fn passing(node: SchemaNode, v: JsonValue, table: Seq<NumericOutcome>, which: nat, k: nat) -> nat
    decreases node, 0nat, k,
{
    if 0 < k <= branches(node, which).len() {
        passing(node, v, table, which, (k - 1) as nat) + if violations(
            branches(node, which)[k - 1],
            v,
            seq![],
            table,
        ).len() == 0 {
            1nat
        } else {
            0nat
        }
    } else {
        0
    }
}

/// A violation for each of the first `k` `allOf` branches that `v`
/// fails, at `ptr/allOf/<index>`.
pub open spec fn all_of_violations(
    node: SchemaNode,
    v: JsonValue,
    ptr: Seq<char>,
    table: Seq<NumericOutcome>,
    k: nat,
) -> Seq<(Seq<char>, Seq<char>)>
    decreases node, 0nat, k,
{
    if 0 < k <= branches(node, 2).len() {
        all_of_violations(node, v, ptr, table, (k - 1) as nat) + when(
            violations(branches(node, 2)[k - 1], v, seq![], table).len() != 0,
            ptr + "/allOf/"@ + decimal((k - 1) as nat),
            "value failed an allOf branch"@,
        )
    } else {
        seq![]
    }
}

/// A violation for each of the first `k` required properties missing
/// from the object's entries `ps`.
pub open spec fn required_violations(
    node: SchemaNode,
    ps: Seq<(String, JsonValue)>,
    ptr: Seq<char>,
    k: nat,
) -> Seq<(Seq<char>, Seq<char>)>
    decreases k,
{
    if 0 < k <= node.required@.len() {
        let r = node.required@[k - 1]@;
        required_violations(node, ps, ptr, (k - 1) as nat) + when(
            entry_of(ps, r) is None,
            ptr,
            "missing required property '"@ + r + "'"@,
        )
    } else {
        seq![]
    }
}

/// The violations of the present properties among the node's first `k`
/// properties, each against its schema.
pub open spec fn property_violations(
    node: SchemaNode,
    v: JsonValue,
    ptr: Seq<char>,
    table: Seq<NumericOutcome>,
    k: nat,
) -> Seq<(Seq<char>, Seq<char>)>
    decreases node, 0nat, k,
{
    if v is Object && 0 < k <= node.properties@.len() {
        let p = node.properties@[k - 1];
        property_violations(node, v, ptr, table, (k - 1) as nat) + match entry_of(
            v->Object_0@,
            p.0@,
        ) {
            Some(child) => violations(p.1, child, child_ptr(ptr, escape_segment(p.0@)), table),
            None => seq![],
        }
    } else {
        seq![]
    }
}

/// When `additionalProperties` is false, a violation for each of the
/// first `k` keys of the object's entries `ps` that is no property.
pub open spec fn additional_violations(
    node: SchemaNode,
    ps: Seq<(String, JsonValue)>,
    ptr: Seq<char>,
    k: nat,
) -> Seq<(Seq<char>, Seq<char>)>
    decreases k,
{
    if node.additional_properties == Some(false) && 0 < k <= ps.len() {
        let key = ps[k - 1].0@;
        additional_violations(node, ps, ptr, (k - 1) as nat) + when(
            !has_property(node, key),
            ptr,
            "unexpected additional property '"@ + key + "'"@,
        )
    } else {
        seq![]
    }
}

fn push_v(out: &mut Vec<Violation>, p: &str, m: String)
    ensures
        viols_view(final(out)@) == viols_view(old(out)@).push((p@, m@)),
{
    let ghost before = out@;
    out.push(Violation { pointer: String::from_str(p), message: m });
    assert(viols_view(out@) =~= viols_view(before).push((p@, m@)));
}

fn append_all(out: &mut Vec<Violation>, more: Vec<Violation>)
    ensures
        viols_view(final(out)@) == viols_view(old(out)@) + viols_view(more@),
{
    let ghost before = out@;
    let ghost extra = more@;
    let mut more = more;
    out.append(&mut more);
    assert(viols_view(out@) =~= viols_view(before) + viols_view(extra));
}

fn type_matches_exec(t: JsonType, v: &JsonValue) -> (r: bool)
    ensures
        r == type_matches(t, *v),
{
    match (t, v) {
        (JsonType::Object, JsonValue::Object(_)) => true,
        (JsonType::Array, JsonValue::Array(_)) => true,
        (JsonType::String, JsonValue::Str(_)) => true,
        (JsonType::Boolean, JsonValue::Bool(_)) => true,
        (JsonType::Null, JsonValue::Null) => true,
        (JsonType::Number, JsonValue::Number(_)) => true,
        (JsonType::Integer, JsonValue::Number(n)) => n.integral,
        _ => false,
    }
}

fn check_type(node: &SchemaNode, v: &JsonValue, ptr: &str, out: &mut Vec<Violation>)
    ensures
        viols_view(final(out)@) == viols_view(old(out)@) + type_violation(*node, *v, ptr@),
{
    if let Some(ts) = &node.types {
        let mut found = false;
        let mut i: usize = 0;
        while i < ts.len() && !found
            invariant
                i <= ts@.len(),
                found ==> exists|j: int| 0 <= j < ts@.len() && type_matches(#[trigger] ts@[j], *v),
                !found ==> forall|j: int| 0 <= j < i ==> !type_matches(#[trigger] ts@[j], *v),
            decreases ts@.len() - i,
        {
            if type_matches_exec(ts[i], v) {
                found = true;
            }
            i = i + 1;
        }
        if !found {
            let mut m = String::from_str("value does not match any allowed type [");
            let d = types_debug(ts);
            m.append(d.as_str());
            m.append("]");
            push_v(out, ptr, m);
        } else {
            assert(viols_view(out@) =~= viols_view(out@) + type_violation(*node, *v, ptr@));
        }
    } else {
        assert(viols_view(out@) =~= viols_view(out@) + type_violation(*node, *v, ptr@));
    }
}

fn check_enum(node: &SchemaNode, v: &JsonValue, ptr: &str, out: &mut Vec<Violation>)
    ensures
        viols_view(final(out)@) == viols_view(old(out)@) + enum_violation(*node, *v, ptr@),
{
    if let Some(vals) = &node.enum_values {
        let mut found = false;
        let mut i: usize = 0;
        while i < vals.len() && !found
            invariant
                i <= vals@.len(),
                found ==> exists|j: int| 0 <= j < vals@.len() && json_same(#[trigger] vals@[j], *v),
                !found ==> forall|j: int| 0 <= j < i ==> !json_same(#[trigger] vals@[j], *v),
            decreases vals@.len() - i,
        {
            if same_exec(&vals[i], v) {
                found = true;
            }
            i = i + 1;
        }
        if !found {
            let mut m = String::from_str("value not in enum [");
            let ghost whole = JsonValue::Array(*vals);
            let mut k: usize = 0;
            while k < vals.len()
                invariant
                    k <= vals@.len(),
                    whole == JsonValue::Array(*vals),
                    m@ == "value not in enum ["@ + debug_items(whole, k as nat),
                decreases vals@.len() - k,
            {
                let e = debug_exec(&vals[k]);
                if k > 0 {
                    m.append(", ");
                }
                m.append(e.as_str());
                k = k + 1;
            }
            m.append("]");
            push_v(out, ptr, m);
        } else {
            assert(viols_view(out@) =~= viols_view(out@) + enum_violation(*node, *v, ptr@));
        }
    } else {
        assert(viols_view(out@) =~= viols_view(out@) + enum_violation(*node, *v, ptr@));
    }
}

fn check_const(node: &SchemaNode, v: &JsonValue, ptr: &str, out: &mut Vec<Violation>)
    ensures
        viols_view(final(out)@) == viols_view(old(out)@) + const_violation(*node, *v, ptr@),
{
    if let Some(c) = &node.const_value {
        if !same_exec(c, v) {
            let t = text_exec(c);
            let m = concat2("value must equal const ", t.as_str());
            push_v(out, ptr, m);
            return;
        }
    }
    assert(viols_view(out@) =~= viols_view(out@) + const_violation(*node, *v, ptr@));
}

fn opt_text_eq(a: &Option<String>, b: &Option<String>) -> (r: bool)
    ensures
        r == (opt_text(*a) == opt_text(*b)),
{
    match (a, b) {
        (Some(x), Some(y)) => str_eq(x.as_str(), y.as_str()),
        (None, None) => true,
        _ => false,
    }
}

fn rules_same_exec(a: &NumericRules, b: &NumericRules) -> (r: bool)
    ensures
        r == rules_same(*a, *b),
{
    opt_text_eq(&a.minimum, &b.minimum) && opt_text_eq(&a.maximum, &b.maximum) && opt_text_eq(
        &a.exclusive_minimum,
        &b.exclusive_minimum,
    ) && opt_text_eq(&a.exclusive_maximum, &b.exclusive_maximum) && opt_text_eq(
        &a.multiple_of,
        &b.multiple_of,
    )
}

fn find_outcome_exec(table: &Vec<NumericOutcome>, rules: &NumericRules, t: &str) -> (r: Option<usize>)
    ensures
        match r {
            Some(i) => i < table@.len() && find_outcome(table@, *rules, t@) == Some(table@[i as int]),
            None => find_outcome(table@, *rules, t@) is None,
        },
{
    let mut i: usize = 0;
    assert(table@.skip(0) =~= table@);
    while i < table.len()
        invariant
            i <= table@.len(),
            find_outcome(table@, *rules, t@) == find_outcome(table@.skip(i as int), *rules, t@),
        decreases table@.len() - i,
    {
        assert(table@.skip(i as int).drop_first() =~= table@.skip(i + 1));
        assert(table@.skip(i as int)[0] == table@[i as int]);
        if rules_same_exec(&table[i].rules, rules) && str_eq(table[i].number.as_str(), t) {
            return Some(i);
        }
        i = i + 1;
    }
    None
}

fn check_numeric(
    node: &SchemaNode,
    v: &JsonValue,
    ptr: &str,
    table: &Vec<NumericOutcome>,
    out: &mut Vec<Violation>,
)
    ensures
        viols_view(final(out)@) == viols_view(old(out)@) + numeric_violations(*node, *v, ptr@, table@),
{
    if let JsonValue::Number(n) = v {
        let r = &node.numeric;
        let none = r.minimum.is_none() && r.maximum.is_none() && r.exclusive_minimum.is_none()
            && r.exclusive_maximum.is_none() && r.multiple_of.is_none();
        if !none {
            if let Some(i) = find_outcome_exec(table, r, n.text.as_str()) {
                let msgs = &table[i].messages;
                let ghost before = viols_view(out@);
                let mut j: usize = 0;
                while j < msgs.len()
                    invariant
                        j <= msgs@.len(),
                        viols_view(out@) == before + at_ptr(ptr@, texts(msgs@.take(j as int))),
                    decreases msgs@.len() - j,
                {
                    push_v(out, ptr, msgs[j].clone());
                    j = j + 1;
                    assert(at_ptr(ptr@, texts(msgs@.take(j as int))) =~= at_ptr(
                        ptr@,
                        texts(msgs@.take(j - 1)),
                    ).push((ptr@, msgs@[j - 1]@)));
                }
                assert(msgs@.take(msgs@.len() as int) =~= msgs@);
                return;
            }
        }
    }
    assert(viols_view(out@) =~= viols_view(out@) + numeric_violations(*node, *v, ptr@, table@));
}

fn check_string(node: &SchemaNode, v: &JsonValue, ptr: &str, out: &mut Vec<Violation>)
    ensures
        viols_view(final(out)@) == viols_view(old(out)@) + string_violations(*node, *v, ptr@),
{
    let ghost before = viols_view(out@);
    if let JsonValue::Str(s) = v {
        let len = s.as_str().unicode_len() as u64;
        if let Some(m) = node.min_length {
            if len < m {
                let d = u64_to_decimal(m);
                push_v(out, ptr, concat2("string shorter than minLength ", d.as_str()));
            }
        }
        if let Some(m) = node.max_length {
            if len > m {
                let d = u64_to_decimal(m);
                push_v(out, ptr, concat2("string longer than maxLength ", d.as_str()));
            }
        }
    }
    assert(viols_view(out@) =~= before + string_violations(*node, *v, ptr@));
}

fn has_duplicate_exec(xs: &Vec<JsonValue>) -> (r: bool)
    ensures
        r == has_duplicate(xs@),
{
    let mut i: usize = 0;
    while i < xs.len()
        invariant
            i <= xs@.len(),
            forall|a: int, b: int| 0 <= a < b < xs@.len() && a < i ==> !json_same(#[trigger] xs@[b], #[trigger] xs@[a]),
        decreases xs@.len() - i,
    {
        let mut j: usize = i + 1;
        while j < xs.len()
            invariant
                i < xs@.len(),
                i + 1 <= j <= xs@.len(),
                forall|a: int, b: int| 0 <= a < b < xs@.len() && a < i ==> !json_same(#[trigger] xs@[b], #[trigger] xs@[a]),
                forall|b: int| i < b < j ==> !json_same(#[trigger] xs@[b], xs@[i as int]),
            decreases xs@.len() - j,
        {
            if same_exec(&xs[j], &xs[i]) {
                assert(json_same(xs@[j as int], xs@[i as int]));
                return true;
            }
            j = j + 1;
        }
        i = i + 1;
    }
    false
}

fn check_array(node: &SchemaNode, v: &JsonValue, ptr: &str, out: &mut Vec<Violation>)
    ensures
        viols_view(final(out)@) == viols_view(old(out)@) + array_violations(*node, *v, ptr@),
{
    let ghost before = viols_view(out@);
    if let JsonValue::Array(xs) = v {
        let len = xs.len() as u64;
        if let Some(m) = node.min_items {
            if len < m {
                let d = u64_to_decimal(m);
                push_v(out, ptr, concat2("fewer than minItems ", d.as_str()));
            }
        }
        if let Some(m) = node.max_items {
            if len > m {
                let d = u64_to_decimal(m);
                push_v(out, ptr, concat2("more than maxItems ", d.as_str()));
            }
        }
        if node.unique_items == Some(true) {
            if has_duplicate_exec(xs) {
                push_v(out, ptr, String::from_str("array items not unique"));
            }
        }
    }
    assert(viols_view(out@) =~= before + array_violations(*node, *v, ptr@));
}

fn check_local(
    node: &SchemaNode,
    v: &JsonValue,
    ptr: &str,
    table: &Vec<NumericOutcome>,
    out: &mut Vec<Violation>,
)
    ensures
        viols_view(final(out)@) == viols_view(old(out)@) + local_violations(*node, *v, ptr@, table@),
{
    let ghost before = viols_view(out@);
    check_type(node, v, ptr, out);
    check_enum(node, v, ptr, out);
    check_const(node, v, ptr, out);
    check_numeric(node, v, ptr, table, out);
    check_string(node, v, ptr, out);
    check_array(node, v, ptr, out);
    assert(viols_view(out@) =~= before + local_violations(*node, *v, ptr@, table@));
}

fn escape_exec(s: &str) -> (r: String)
    ensures
        r@ == escape_segment(s@),
{
    let cs = crate::text::chars_of(s);
    let mut r = String::new();
    let mut i: usize = 0;
    while i < cs.len()
        invariant
            i <= cs@.len(),
            cs@ == s@,
            r@ == escape_segment(cs@.take(i as int)),
        decreases cs@.len() - i,
    {
        assert(cs@.take(i + 1).drop_last() =~= cs@.take(i as int));
        let c = cs[i];
        proof {
            reveal_strlit("~0");
            reveal_strlit("~1");
        }
        if c == '~' {
            r.append("~0");
        } else if c == '/' {
            r.append("~1");
        } else {
            crate::text::push_char(&mut r, c);
        }
        i = i + 1;
    }
    assert(cs@.take(cs@.len() as int) =~= cs@);
    r
}

fn entry_of_exec<'a>(ps: &'a Vec<(String, JsonValue)>, k: &str) -> (r: Option<&'a JsonValue>)
    ensures
        match r {
            Some(x) => entry_of(ps@, k@) == Some(*x),
            None => entry_of(ps@, k@) is None,
        },
{
    let mut i: usize = 0;
    assert(ps@.skip(0) =~= ps@);
    while i < ps.len()
        invariant
            i <= ps@.len(),
            entry_of(ps@, k@) == entry_of(ps@.skip(i as int), k@),
        decreases ps@.len() - i,
    {
        assert(ps@.skip(i as int).drop_first() =~= ps@.skip(i + 1));
        assert(ps@.skip(i as int)[0] == ps@[i as int]);
        if str_eq(ps[i].0.as_str(), k) {
            return Some(&ps[i].1);
        }
        i = i + 1;
    }
    None
}

fn has_property_exec(node: &SchemaNode, k: &str) -> (r: bool)
    ensures
        r == has_property(*node, k@),
{
    let mut i: usize = 0;
    while i < node.properties.len()
        invariant
            i <= node.properties@.len(),
            forall|j: int| 0 <= j < i ==> (#[trigger] node.properties@[j]).0@ != k@,
        decreases node.properties@.len() - i,
    {
        if str_eq(node.properties[i].0.as_str(), k) {
            assert(node.properties@[i as int].0@ == k@);
            return true;
        }
        i = i + 1;
    }
    false
}

fn index_ptr(ptr: &str, i: usize) -> (r: String)
    ensures
        r@ == child_ptr(ptr@, decimal(i as nat)),
{
    let mut r = concat2(ptr, "/");
    let d = u64_to_decimal(i as u64);
    r.append(d.as_str());
    r
}

fn check_items(node: &SchemaNode, v: &JsonValue, ptr: &str, table: &Vec<NumericOutcome>, out: &mut Vec<Violation>)
    ensures
        viols_view(final(out)@) == viols_view(old(out)@) + item_violations(*node, *v, ptr@, table@, arr_len(*v)),
    decreases node, 0nat,
{
    let ghost nd = *node;
    let ghost before = viols_view(out@);
    if let Some(it) = &node.items {
        if let JsonValue::Array(xs) = v {
            let mut i: usize = 0;
            while i < xs.len()
                invariant
                    i <= xs@.len(),
                    nd == *node,
                    node.items == Some(*it),
                    *v == JsonValue::Array(*xs),
                    viols_view(out@) == before + item_violations(nd, *v, ptr@, table@, i as nat),
                decreases xs@.len() - i,
            {
                proof {
                    assert(decreases_to!(nd => nd.items));
                }
                let cp = index_ptr(ptr, i);
                let sub = check_value(it, &xs[i], cp.as_str(), table);
                append_all(out, sub);
                i = i + 1;
            }
            return;
        }
    }
    assert(viols_view(out@) =~= before + item_violations(nd, *v, ptr@, table@, arr_len(*v)));
}

fn count_passing(node: &SchemaNode, v: &JsonValue, table: &Vec<NumericOutcome>, which: usize) -> (n: usize)
    requires
        which <= 1,
    ensures
        n == passing(*node, *v, table@, which as nat, branches(*node, which as nat).len()),
    decreases node, 0nat,
{
    let ghost nd = *node;
    let subs = if which == 0 {
        &node.one_of
    } else {
        &node.any_of
    };
    let empty = String::new();
    match subs {
        Some(subs) => {
            let mut n: usize = 0;
            let mut i: usize = 0;
            while i < subs.len()
                invariant
                    i <= subs@.len(),
                    n <= i,
                    nd == *node,
                    branches(nd, which as nat) == subs@,
                    (which == 0 && nd.one_of == Some(*subs)) || (which == 1 && nd.any_of == Some(
                        *subs,
                    )),
                    empty@ == Seq::<char>::empty(),
                    n == passing(nd, *v, table@, which as nat, i as nat),
                decreases subs@.len() - i,
            {
                proof {
                    if which == 0 {
                        assert(decreases_to!(nd => nd.one_of));
                        assert(decreases_to!(nd.one_of => nd.one_of->Some_0));
                        assert(decreases_to!(nd.one_of->Some_0 => nd.one_of->Some_0[i as int]));
                    } else {
                        assert(decreases_to!(nd => nd.any_of));
                        assert(decreases_to!(nd.any_of => nd.any_of->Some_0));
                        assert(decreases_to!(nd.any_of->Some_0 => nd.any_of->Some_0[i as int]));
                    }
                }
                let r = check_value(&subs[i], v, empty.as_str(), table);
                if r.len() == 0 {
                    n = n + 1;
                }
                i = i + 1;
            }
            n
        },
        None => 0,
    }
}

fn check_all_of(node: &SchemaNode, v: &JsonValue, ptr: &str, table: &Vec<NumericOutcome>, out: &mut Vec<Violation>)
    ensures
        viols_view(final(out)@) == viols_view(old(out)@) + all_of_violations(
            *node,
            *v,
            ptr@,
            table@,
            branches(*node, 2).len(),
        ),
    decreases node, 0nat,
{
    let ghost nd = *node;
    let ghost before = viols_view(out@);
    let empty = String::new();
    if let Some(subs) = &node.all_of {
        let mut i: usize = 0;
        while i < subs.len()
            invariant
                i <= subs@.len(),
                nd == *node,
                branches(nd, 2) == subs@,
                empty@ == Seq::<char>::empty(),
                viols_view(out@) == before + all_of_violations(nd, *v, ptr@, table@, i as nat),
            decreases subs@.len() - i,
        {
            proof {
                assert(decreases_to!(nd => nd.all_of));
                assert(decreases_to!(nd.all_of => nd.all_of->Some_0));
                assert(decreases_to!(nd.all_of->Some_0 => nd.all_of->Some_0[i as int]));
            }
            let r = check_value(&subs[i], v, empty.as_str(), table);
            if r.len() != 0 {
                let mut p = concat2(ptr, "/allOf/");
                let d = u64_to_decimal(i as u64);
                p.append(d.as_str());
                push_v(out, p.as_str(), String::from_str("value failed an allOf branch"));
            }
            i = i + 1;
        }
        return;
    }
    assert(viols_view(out@) =~= before + all_of_violations(nd, *v, ptr@, table@, branches(nd, 2).len()));
}

fn check_properties(
    node: &SchemaNode,
    v: &JsonValue,
    ptr: &str,
    table: &Vec<NumericOutcome>,
    out: &mut Vec<Violation>,
)
    ensures
        viols_view(final(out)@) == viols_view(old(out)@) + property_violations(
            *node,
            *v,
            ptr@,
            table@,
            node.properties@.len(),
        ),
    decreases node, 0nat,
{
    let ghost nd = *node;
    let ghost before = viols_view(out@);
    if let JsonValue::Object(ps) = v {
        let mut i: usize = 0;
        while i < node.properties.len()
            invariant
                i <= node.properties@.len(),
                nd == *node,
                *v == JsonValue::Object(*ps),
                viols_view(out@) == before + property_violations(nd, *v, ptr@, table@, i as nat),
            decreases node.properties@.len() - i,
        {
            let key = &node.properties[i].0;
            if let Some(child) = entry_of_exec(ps, key.as_str()) {
                proof {
                    assert(decreases_to!(nd => nd.properties));
                    assert(decreases_to!(nd.properties => nd.properties[i as int]));
                }
                let seg = escape_exec(key.as_str());
                let mut cp = concat2(ptr, "/");
                cp.append(seg.as_str());
                let sub = check_value(&node.properties[i].1, child, cp.as_str(), table);
                append_all(out, sub);
            }
            i = i + 1;
        }
        return;
    }
    assert(viols_view(out@) =~= before + property_violations(nd, *v, ptr@, table@, node.properties@.len()));
}

fn check_required(node: &SchemaNode, ps: &Vec<(String, JsonValue)>, ptr: &str, out: &mut Vec<Violation>)
    ensures
        viols_view(final(out)@) == viols_view(old(out)@) + required_violations(
            *node,
            ps@,
            ptr@,
            node.required@.len(),
        ),
{
    let ghost before = viols_view(out@);
    let mut i: usize = 0;
    while i < node.required.len()
        invariant
            i <= node.required@.len(),
            viols_view(out@) == before + required_violations(*node, ps@, ptr@, i as nat),
        decreases node.required@.len() - i,
    {
        let req = &node.required[i];
        if entry_of_exec(ps, req.as_str()).is_none() {
            let mut m = concat2("missing required property '", req.as_str());
            m.append("'");
            push_v(out, ptr, m);
        }
        i = i + 1;
    }
}

fn check_additional(node: &SchemaNode, ps: &Vec<(String, JsonValue)>, ptr: &str, out: &mut Vec<Violation>)
    ensures
        viols_view(final(out)@) == viols_view(old(out)@) + additional_violations(
            *node,
            ps@,
            ptr@,
            ps@.len(),
        ),
{
    let ghost before = viols_view(out@);
    if node.additional_properties == Some(false) {
        let mut i: usize = 0;
        while i < ps.len()
            invariant
                i <= ps@.len(),
                node.additional_properties == Some(false),
                viols_view(out@) == before + additional_violations(*node, ps@, ptr@, i as nat),
            decreases ps@.len() - i,
        {
            let key = &ps[i].0;
            if !has_property_exec(node, key.as_str()) {
                let mut m = concat2("unexpected additional property '", key.as_str());
                m.append("'");
                push_v(out, ptr, m);
            }
            i = i + 1;
        }
        return;
    }
    assert(viols_view(out@) =~= before + additional_violations(*node, ps@, ptr@, ps@.len()));
}

/// The `oneOf` violation (see [`violations`]).
pub open spec fn one_of_part(node: SchemaNode, v: JsonValue, ptr: Seq<char>, table: Seq<NumericOutcome>) -> Seq<(Seq<char>, Seq<char>)> {
    match node.one_of {
        Some(subs) => {
            let n = passing(node, v, table, 0, subs@.len());
            when(n != 1, ptr, "value must match exactly one oneOf branch, matched "@ + decimal(n))
        },
        None => seq![],
    }
}

/// The `anyOf` violation (see [`violations`]).
pub open spec fn any_of_part(node: SchemaNode, v: JsonValue, ptr: Seq<char>, table: Seq<NumericOutcome>) -> Seq<(Seq<char>, Seq<char>)> {
    match node.any_of {
        Some(subs) => when(
            passing(node, v, table, 1, subs@.len()) == 0,
            ptr,
            "value matched no anyOf branch"@,
        ),
        None => seq![],
    }
}

/// The `allOf` violations (see [`violations`]).
pub open spec fn all_of_part(node: SchemaNode, v: JsonValue, ptr: Seq<char>, table: Seq<NumericOutcome>) -> Seq<(Seq<char>, Seq<char>)> {
    match node.all_of {
        Some(subs) => all_of_violations(node, v, ptr, table, subs@.len()),
        None => seq![],
    }
}

/// The `not` violation (see [`violations`]).
pub open spec fn not_part(node: SchemaNode, v: JsonValue, ptr: Seq<char>, table: Seq<NumericOutcome>) -> Seq<(Seq<char>, Seq<char>)> {
    match node.not {
        Some(sub) => when(
            violations(*sub, v, seq![], table).len() == 0,
            ptr,
            "value matched a `not` schema"@,
        ),
        None => seq![],
    }
}

/// The object violations (see [`violations`]).
pub open spec fn object_part(node: SchemaNode, v: JsonValue, ptr: Seq<char>, table: Seq<NumericOutcome>) -> Seq<(Seq<char>, Seq<char>)> {
    match v {
        JsonValue::Object(ps) => required_violations(node, ps@, ptr, node.required@.len())
            + property_violations(node, v, ptr, table, node.properties@.len())
            + additional_violations(node, ps@, ptr, ps@.len()),
        _ => seq![],
    }
}

#[verifier::rlimit(40)]
proof fn lemma_violations_parts(node: SchemaNode, v: JsonValue, ptr: Seq<char>, table: Seq<NumericOutcome>)
    ensures
        violations(node, v, ptr, table) == local_violations(node, v, ptr, table) + item_violations(
            node,
            v,
            ptr,
            table,
            arr_len(v),
        ) + one_of_part(node, v, ptr, table) + any_of_part(node, v, ptr, table) + all_of_part(
            node,
            v,
            ptr,
            table,
        ) + not_part(node, v, ptr, table) + object_part(node, v, ptr, table),
{
}

/// Checks `v` against the compiled schema `node`, locating violations
/// under `ptr`; `table` holds the caller's outcomes of the numeric
/// keywords. The violations are exactly [`violations`], in its order.
#[verifier::rlimit(60)]
pub fn check_value(node: &SchemaNode, v: &JsonValue, ptr: &str, table: &Vec<NumericOutcome>) -> (out:
    Vec<Violation>)
    ensures
        viols_view(out@) == violations(*node, *v, ptr@, table@),
    decreases node, 1nat,
{
    let ghost nd = *node;
    let ghost vv = *v;
    let ghost one = one_of_part(nd, vv, ptr@, table@);
    let ghost any = any_of_part(nd, vv, ptr@, table@);
    let ghost all = all_of_part(nd, vv, ptr@, table@);
    let ghost not = not_part(nd, vv, ptr@, table@);
    let ghost obj = object_part(nd, vv, ptr@, table@);
    let mut out: Vec<Violation> = Vec::new();
    assert(viols_view(out@) =~= Seq::<(Seq<char>, Seq<char>)>::empty());
    check_local(node, v, ptr, table, &mut out);
    check_items(node, v, ptr, table, &mut out);
    let ghost p1 = viols_view(out@);
    assert(p1 =~= local_violations(nd, *v, ptr@, table@) + item_violations(nd, *v, ptr@, table@, arr_len(*v)));
    if node.one_of.is_some() {
        let n = count_passing(node, v, table, 0);
        if n != 1 {
            let mut m = String::from_str("value must match exactly one oneOf branch, matched ");
            let d = u64_to_decimal(n as u64);
            m.append(d.as_str());
            push_v(&mut out, ptr, m);
        }
    }
    let ghost p2 = viols_view(out@);
    assert(p2 =~= p1 + one);
    if node.any_of.is_some() {
        let n = count_passing(node, v, table, 1);
        if n == 0 {
            push_v(&mut out, ptr, String::from_str("value matched no anyOf branch"));
        }
    }
    let ghost p3 = viols_view(out@);
    assert(p3 =~= p2 + any);
    check_all_of(node, v, ptr, table, &mut out);
    let ghost p4 = viols_view(out@);
    assert(p4 =~= p3 + all);
    if let Some(sub) = &node.not {
        proof {
            assert(decreases_to!(nd => nd.not));
        }
        let empty = String::new();
        let r = check_value(sub, v, empty.as_str(), table);
        if r.len() == 0 {
            push_v(&mut out, ptr, String::from_str("value matched a `not` schema"));
        }
    }
    let ghost p5 = viols_view(out@);
    assert(p5 =~= p4 + not);
    if let JsonValue::Object(ps) = v {
        check_required(node, ps, ptr, &mut out);
        check_properties(node, v, ptr, table, &mut out);
        check_additional(node, ps, ptr, &mut out);
    }
    assert(viols_view(out@) =~= p5 + obj);
    proof {
        lemma_violations_parts(nd, vv, ptr@, table@);
    }
    out
}

// ---------------------------------------------------------------------------
// Copies
// ---------------------------------------------------------------------------

/// `b` is a copy of `a`: the same shape, texts and flags throughout.
pub open spec fn json_copy(a: JsonValue, b: JsonValue) -> bool
    decreases a, width(a),
{
    match (a, b) {
        (JsonValue::Null, JsonValue::Null) => true,
        (JsonValue::Bool(x), JsonValue::Bool(y)) => x == y,
        (JsonValue::Number(x), JsonValue::Number(y)) => x.text@ == y.text@ && x.integral
            == y.integral && x.positive == y.positive,
        (JsonValue::Str(x), JsonValue::Str(y)) => x@ == y@,
        (JsonValue::Array(xs), JsonValue::Array(ys)) => xs@.len() == ys@.len() && copy_items(
            a,
            b,
            xs@.len(),
        ),
        (JsonValue::Object(ps), JsonValue::Object(qs)) => ps@.len() == qs@.len() && copy_entries(
            a,
            b,
            ps@.len(),
        ),
        _ => false,
    }
}

/// The first `k` elements of array `b` copy those of `a`.
pub open spec fn copy_items(a: JsonValue, b: JsonValue, k: nat) -> bool
    decreases a, k,
{
    if a is Array && b is Array && 0 < k <= a->Array_0@.len() && k <= b->Array_0@.len() {
        copy_items(a, b, (k - 1) as nat) && json_copy(a->Array_0@[k - 1], b->Array_0@[k - 1])
    } else {
        true
    }
}

/// The first `k` entries of object `b` copy those of `a`.
pub open spec fn copy_entries(a: JsonValue, b: JsonValue, k: nat) -> bool
    decreases a, k,
{
    if a is Object && b is Object && 0 < k <= a->Object_0@.len() && k <= b->Object_0@.len() {
        &&& copy_entries(a, b, (k - 1) as nat)
        &&& a->Object_0@[k - 1].0@ == b->Object_0@[k - 1].0@
        &&& json_copy(a->Object_0@[k - 1].1, b->Object_0@[k - 1].1)
    } else {
        true
    }
}

/// A copy of a value.
pub fn copy_json(v: &JsonValue) -> (r: JsonValue)
    ensures
        json_copy(*v, r),
    decreases v,
{
    match v {
        JsonValue::Null => JsonValue::Null,
        JsonValue::Bool(b) => JsonValue::Bool(*b),
        JsonValue::Number(n) => JsonValue::Number(
            JsonNumber { text: n.text.clone(), integral: n.integral, positive: n.positive },
        ),
        JsonValue::Str(t) => JsonValue::Str(t.clone()),
        JsonValue::Array(xs) => {
            let mut out: Vec<JsonValue> = Vec::new();
            let mut i: usize = 0;
            while i < xs.len()
                invariant
                    i <= xs@.len(),
                    out@.len() == i,
                    *v == JsonValue::Array(*xs),
                    forall|j: int| 0 <= j < i ==> json_copy(xs@[j], #[trigger] out@[j]),
                decreases xs@.len() - i,
            {
                proof {
                    let ghost av = *v;
                    assert(decreases_to!(av => av->Array_0));
                    assert(decreases_to!(av->Array_0 => av->Array_0[i as int]));
                }
                let e = copy_json(&xs[i]);
                out.push(e);
                i = i + 1;
            }
            let r = JsonValue::Array(out);
            proof {
                lemma_copy_items(*v, r, xs@.len());
            }
            r
        },
        JsonValue::Object(ps) => {
            let mut out: Vec<(String, JsonValue)> = Vec::new();
            let mut i: usize = 0;
            while i < ps.len()
                invariant
                    i <= ps@.len(),
                    out@.len() == i,
                    *v == JsonValue::Object(*ps),
                    forall|j: int|
                        0 <= j < i ==> (#[trigger] out@[j]).0@ == ps@[j].0@ && json_copy(
                            ps@[j].1,
                            out@[j].1,
                        ),
                decreases ps@.len() - i,
            {
                proof {
                    let ghost av = *v;
                    assert(decreases_to!(av => av->Object_0));
                    assert(decreases_to!(av->Object_0 => av->Object_0[i as int]));
                }
                let e = copy_json(&ps[i].1);
                out.push((ps[i].0.clone(), e));
                i = i + 1;
            }
            let r = JsonValue::Object(out);
            proof {
                lemma_copy_entries(*v, r, ps@.len());
            }
            r
        },
    }
}

proof fn lemma_copy_items(a: JsonValue, b: JsonValue, k: nat)
    requires
        a is Array,
        b is Array,
        k <= a->Array_0@.len(),
        k <= b->Array_0@.len(),
        forall|j: int| 0 <= j < k ==> json_copy(a->Array_0@[j], #[trigger] b->Array_0@[j]),
    ensures
        copy_items(a, b, k),
    decreases k,
{
    if k > 0 {
        lemma_copy_items(a, b, (k - 1) as nat);
    }
}

proof fn lemma_copy_entries(a: JsonValue, b: JsonValue, k: nat)
    requires
        a is Object,
        b is Object,
        k <= a->Object_0@.len(),
        k <= b->Object_0@.len(),
        forall|j: int|
            0 <= j < k ==> (#[trigger] b->Object_0@[j]).0@ == a->Object_0@[j].0@ && json_copy(
                a->Object_0@[j].1,
                b->Object_0@[j].1,
            ),
    ensures
        copy_entries(a, b, k),
    decreases k,
{
    if k > 0 {
        lemma_copy_entries(a, b, (k - 1) as nat);
    }
}

// ---------------------------------------------------------------------------
// Compiling a schema
// ---------------------------------------------------------------------------

/// A compile error as keyword, pointer and detail.
pub open spec fn cerr(k: Seq<char>, p: Seq<char>, d: Seq<char>) -> Option<(Seq<char>, Seq<char>, Seq<char>)> {
    Some((k, p, d))
}

/// The first index at or after `i` of an entry keyed `k`.
pub open spec fn key_from(ps: Seq<(String, JsonValue)>, k: Seq<char>, i: int) -> Option<int>
    decreases ps.len() - i,
{
    if i < 0 || i >= ps.len() {
        None
    } else if ps[i].0@ == k {
        Some(i)
    } else {
        key_from(ps, k, i + 1)
    }
}

/// The index of the schema object's entry keyed `name` (-1 when absent).
pub open spec fn field_at(schema: JsonValue, name: Seq<char>) -> int {
    match schema {
        JsonValue::Object(ps) => match key_from(ps@, name, 0) {
            Some(j) => j,
            None => -1,
        },
        _ => -1,
    }
}

/// The schema object holds an entry keyed `name`.
pub open spec fn has_field(schema: JsonValue, name: Seq<char>) -> bool {
    schema is Object && 0 <= field_at(schema, name) < schema->Object_0@.len()
}

/// The value of the schema object's entry keyed `name`.
pub open spec fn fval(schema: JsonValue, name: Seq<char>) -> JsonValue {
    schema->Object_0@[field_at(schema, name)].1
}

/// The value of the entry keyed `name`, if any.
pub open spec fn field(schema: JsonValue, name: Seq<char>) -> Option<JsonValue> {
    if has_field(schema, name) {
        Some(fval(schema, name))
    } else {
        None
    }
}

/// The index of the first key at or after `i` outside the subset.
pub open spec fn unknown_from(ps: Seq<(String, JsonValue)>, i: int) -> Option<int>
    decreases ps.len() - i,
{
    if i < 0 || i >= ps.len() {
        None
    } else if !keyword_known(ps[i].0@) {
        Some(i)
    } else {
        unknown_from(ps, i + 1)
    }
}

/// The error of a `type` list's entries from index `i` on: a non-string
/// entry, or an unknown type name, whichever comes first.
pub open spec fn type_list_error(xs: Seq<JsonValue>, ptr: Seq<char>, i: int) -> Option<(Seq<char>, Seq<char>, Seq<char>)>
    decreases xs.len() - i,
{
    if i < 0 || i >= xs.len() {
        None
    } else {
        match xs[i] {
            JsonValue::Str(s) => if type_named(s@) is None {
                cerr("type"@, ptr, "unknown type '"@ + s@ + "'"@)
            } else {
                type_list_error(xs, ptr, i + 1)
            },
            _ => cerr("type"@, ptr, "type array must contain only strings"@),
        }
    }
}

/// The error of a `type` keyword, if any.
pub open spec fn type_error(t: Option<JsonValue>, ptr: Seq<char>) -> Option<(Seq<char>, Seq<char>, Seq<char>)> {
    match t {
        None => None,
        Some(JsonValue::Str(s)) => if type_named(s@) is None {
            cerr("type"@, ptr, "unknown type '"@ + s@ + "'"@)
        } else {
            None
        },
        Some(JsonValue::Array(xs)) => type_list_error(xs@, ptr, 0),
        Some(_) => cerr("type"@, ptr, "type must be a string or array of strings"@),
    }
}

/// Every element is a string.
pub open spec fn all_strings(xs: Seq<JsonValue>) -> bool {
    forall|i: int| 0 <= i < xs.len() ==> #[trigger] xs[i] is Str
}

/// The error of a `required` keyword, if any.
pub open spec fn required_error(r: Option<JsonValue>, ptr: Seq<char>) -> Option<(Seq<char>, Seq<char>, Seq<char>)> {
    match r {
        None => None,
        Some(JsonValue::Array(xs)) => if all_strings(xs@) {
            None
        } else {
            cerr("required"@, ptr, "required entries must be strings"@)
        },
        Some(_) => cerr("required"@, ptr, "required must be an array"@),
    }
}

/// The error of an `enum` keyword, if any.
pub open spec fn enum_error(e: Option<JsonValue>, ptr: Seq<char>) -> Option<(Seq<char>, Seq<char>, Seq<char>)> {
    match e {
        Some(JsonValue::Array(_)) => None,
        Some(_) => cerr("enum"@, ptr, "enum must be an array"@),
        None => None,
    }
}

/// The error of a `multipleOf` keyword, if any.
pub open spec fn multiple_of_error(m: Option<JsonValue>, ptr: Seq<char>) -> Option<(Seq<char>, Seq<char>, Seq<char>)> {
    match m {
        None => None,
        Some(JsonValue::Number(n)) => if n.positive {
            None
        } else {
            cerr("multipleOf"@, ptr, "multipleOf must be a positive number"@)
        },
        Some(_) => cerr("multipleOf"@, ptr, "multipleOf must be a positive number"@),
    }
}

/// The error of an `additionalProperties` keyword, if any.
pub open spec fn additional_error(a: Option<JsonValue>, ptr: Seq<char>) -> Option<(Seq<char>, Seq<char>, Seq<char>)> {
    match a {
        None => None,
        Some(JsonValue::Bool(_)) => None,
        Some(_) => cerr(
            "additionalProperties"@,
            ptr,
            "schema-form additionalProperties is unsupported in v1"@,
        ),
    }
}

/// The name of a combinator (0: `oneOf`, 1: `anyOf`, otherwise `allOf`).
pub open spec fn combo_name(which: nat) -> Seq<char> {
    if which == 0 {
        "oneOf"@
    } else if which == 1 {
        "anyOf"@
    } else {
        "allOf"@
    }
}

/// The first compile error of a schema node at `ptr`, if any: a node
/// that is neither an object nor `true`; else, in this order, the first
/// key outside the subset, a malformed `type`, the first error under
/// `properties` (or `properties` not an object), a malformed `required`,
/// an `enum` that is no array, a `multipleOf` that is no positive
/// number, the error under `items`, a schema-form
/// `additionalProperties`, the first error under `oneOf`, `anyOf`,
/// `allOf` (each given as an array), and the error under `not`.
pub open spec fn schema_error_at(schema: JsonValue, ptr: Seq<char>) -> Option<(Seq<char>, Seq<char>, Seq<char>)>
    decreases schema, 1nat, 0nat,
{
    match schema {
        JsonValue::Bool(b) => if b {
            None
        } else {
            cerr(""@, ptr, "schema node must be an object"@)
        },
        JsonValue::Object(ps) => {
            let e0 = match unknown_from(ps@, 0) {
                Some(i) => cerr(ps@[i].0@, ptr, "unsupported JSON-Schema keyword '"@ + ps@[i].0@ + "'"@),
                None => None,
            };
            let e1 = type_error(field(schema, "type"@), ptr);
            let e2 = if has_field(schema, "properties"@) {
                match fval(schema, "properties"@) {
                    JsonValue::Object(props) => props_error(schema, ptr, props@.len()),
                    _ => cerr("properties"@, ptr, "properties must be an object"@),
                }
            } else {
                None
            };
            let e3 = required_error(field(schema, "required"@), ptr);
            let e4 = enum_error(field(schema, "enum"@), ptr);
            let e5 = multiple_of_error(field(schema, "multipleOf"@), ptr);
            let e6 = if has_field(schema, "items"@) {
                schema_error_at(fval(schema, "items"@), ptr + "/items"@)
            } else {
                None
            };
            let e7 = additional_error(field(schema, "additionalProperties"@), ptr);
            let e8 = combo_error(schema, ptr, 0, combo_len(schema, 0));
            let e9 = combo_error(schema, ptr, 1, combo_len(schema, 1));
            let e10 = combo_error(schema, ptr, 2, combo_len(schema, 2));
            let e11 = if has_field(schema, "not"@) {
                schema_error_at(fval(schema, "not"@), ptr + "/not"@)
            } else {
                None
            };
            if e0 is Some {
                e0
            } else if e1 is Some {
                e1
            } else if e2 is Some {
                e2
            } else if e3 is Some {
                e3
            } else if e4 is Some {
                e4
            } else if e5 is Some {
                e5
            } else if e6 is Some {
                e6
            } else if e7 is Some {
                e7
            } else if e8 is Some {
                e8
            } else if e9 is Some {
                e9
            } else if e10 is Some {
                e10
            } else {
                e11
            }
        },
        _ => cerr(""@, ptr, "schema node must be an object"@),
    }
}

/// The first error among the first `k` property schemas.
pub open spec fn props_error(schema: JsonValue, ptr: Seq<char>, k: nat) -> Option<(Seq<char>, Seq<char>, Seq<char>)>
    decreases schema, 0nat, k,
{
    if has_field(schema, "properties"@) && fval(schema, "properties"@) is Object && 0 < k
        <= fval(schema, "properties"@)->Object_0@.len() {
        let prev = props_error(schema, ptr, (k - 1) as nat);
        if prev is Some {
            prev
        } else {
            let p = fval(schema, "properties"@)->Object_0@[k - 1];
            schema_error_at(p.1, ptr + "/properties/"@ + escape_segment(p.0@))
        }
    } else {
        None
    }
}

/// The number of branches of a combinator given as an array (else 0).
pub open spec fn combo_len(schema: JsonValue, which: nat) -> nat {
    if has_field(schema, combo_name(which)) && fval(schema, combo_name(which)) is Array {
        fval(schema, combo_name(which))->Array_0@.len()
    } else {
        0
    }
}

/// The first error among the first `k` branches of a combinator.
pub open spec fn combo_error(schema: JsonValue, ptr: Seq<char>, which: nat, k: nat) -> Option<(Seq<char>, Seq<char>, Seq<char>)>
    decreases schema, 0nat, k,
{
    if has_field(schema, combo_name(which)) && fval(schema, combo_name(which)) is Array && 0 < k
        <= fval(schema, combo_name(which))->Array_0@.len() {
        let prev = combo_error(schema, ptr, which, (k - 1) as nat);
        if prev is Some {
            prev
        } else {
            schema_error_at(
                fval(schema, combo_name(which))->Array_0@[k - 1],
                ptr + "/"@ + combo_name(which) + "/"@ + decimal((k - 1) as nat),
            )
        }
    } else {
        None
    }
}

/// The digits of a decimal text as a number.
pub open spec fn digits_value(s: Seq<char>) -> nat
    decreases s.len(),
{
    if s.len() == 0 {
        0
    } else {
        digits_value(s.drop_last()) * 10 + ((s.last() as u32) - ('0' as u32)) as nat
    }
}

/// Every character is a decimal digit, and there is one.
pub open spec fn all_digits(s: Seq<char>) -> bool {
    s.len() > 0 && forall|i: int| 0 <= i < s.len() ==> '0' <= #[trigger] s[i] && s[i] <= '9'
}

/// A number as serde_json's `as_u64` gives it: a non-negative integer
/// (whose text is all digits) that fits in 64 bits.
pub open spec fn number_u64(f: Option<JsonValue>) -> Option<u64> {
    match f {
        Some(JsonValue::Number(n)) => if all_digits(n.text@) && digits_value(n.text@) <= u64::MAX {
            Some(digits_value(n.text@) as u64)
        } else {
            None
        },
        _ => None,
    }
}

/// The text of a number, if the value is one.
pub open spec fn number_text(f: Option<JsonValue>) -> Option<Seq<char>> {
    match f {
        Some(JsonValue::Number(n)) => Some(n.text@),
        _ => None,
    }
}

/// A boolean, if the value is one.
pub open spec fn bool_of(f: Option<JsonValue>) -> Option<bool> {
    match f {
        Some(JsonValue::Bool(b)) => Some(b),
        _ => None,
    }
}

/// The types a `type` keyword lists.
pub open spec fn types_rel(t: JsonValue, ts: Seq<JsonType>) -> bool {
    match t {
        JsonValue::Str(s) => ts == seq![type_named(s@)->Some_0],
        JsonValue::Array(xs) => ts.len() == xs@.len() && forall|i: int|
            0 <= i < ts.len() ==> Some(#[trigger] ts[i]) == type_named(xs@[i]->Str_0@),
        _ => false,
    }
}

/// A combinator (0: `oneOf`, 1: `anyOf`, otherwise `allOf`) of a
/// compiled node, `subs`, is the schema's, each branch lowered, when the
/// schema gives it as an array; absent otherwise.
pub open spec fn combo_rel(schema: JsonValue, subs: Option<Vec<SchemaNode>>, which: nat) -> bool
    decreases schema, 0nat, 0nat,
{
    if has_field(schema, combo_name(which)) && fval(schema, combo_name(which)) is Array {
        &&& subs is Some
        &&& subs->Some_0@.len() == combo_len(schema, which)
        &&& forall|j: int|
            0 <= j < combo_len(schema, which) ==> lowered(
                fval(schema, combo_name(which))->Array_0@[j],
                #[trigger] subs->Some_0@[j],
            )
    } else {
        subs is None
    }
}

/// The node a bare `true` compiles to: no constraint at all.
pub open spec fn empty_node(n: SchemaNode) -> bool {
    &&& n.types is None
    &&& n.properties@.len() == 0
    &&& n.required@.len() == 0
    &&& n.items is None
    &&& n.additional_properties is None
    &&& n.enum_values is None
    &&& n.const_value is None
    &&& no_numeric_rules(n.numeric)
    &&& n.min_length is None && n.max_length is None
    &&& n.min_items is None && n.max_items is None
    &&& n.unique_items is None
    &&& n.one_of is None && n.any_of is None && n.all_of is None
    &&& n.not is None
}

/// The combinator of a node (0: `oneOf`, 1: `anyOf`, otherwise `allOf`).
pub open spec fn combo_of(n: SchemaNode, which: nat) -> Option<Vec<SchemaNode>> {
    if which == 0 {
        n.one_of
    } else if which == 1 {
        n.any_of
    } else {
        n.all_of
    }
}

/// `n` is what the schema `schema` (which compiles) lowers to: each
/// keyword's constraint, the property, item, branch and `not` schemas
/// lowered in turn; numbers of the numeric keywords kept as their text;
/// the length bounds as non-negative integers.
pub open spec fn lowered(schema: JsonValue, n: SchemaNode) -> bool
    decreases schema, 1nat, 0nat,
{
    match schema {
        JsonValue::Bool(_) => empty_node(n),
        JsonValue::Object(_) => {
            &&& match field(schema, "type"@) {
                Some(t) => n.types matches Some(ts) && types_rel(t, ts@),
                None => n.types is None,
            }
            &&& if has_field(schema, "properties"@) && fval(schema, "properties"@) is Object {
                &&& n.properties@.len() == fval(schema, "properties"@)->Object_0@.len()
                &&& forall|j: int|
                    0 <= j < n.properties@.len() ==> (#[trigger] n.properties@[j]).0@ == fval(
                        schema,
                        "properties"@,
                    )->Object_0@[j].0@ && lowered(
                        fval(schema, "properties"@)->Object_0@[j].1,
                        n.properties@[j].1,
                    )
            } else {
                n.properties@.len() == 0
            }
            &&& match field(schema, "required"@) {
                Some(JsonValue::Array(xs)) => n.required@.len() == xs@.len() && forall|i: int|
                    0 <= i < xs@.len() ==> (#[trigger] n.required@[i])@ == xs@[i]->Str_0@,
                _ => n.required@.len() == 0,
            }
            &&& if has_field(schema, "items"@) {
                n.items is Some && lowered(fval(schema, "items"@), *n.items->Some_0)
            } else {
                n.items is None
            }
            &&& n.additional_properties == bool_of(field(schema, "additionalProperties"@))
            &&& match field(schema, "enum"@) {
                Some(e) => n.enum_values matches Some(vs) && json_copy(e, JsonValue::Array(vs)),
                None => n.enum_values is None,
            }
            &&& match field(schema, "const"@) {
                Some(c) => n.const_value matches Some(cv) && json_copy(c, cv),
                None => n.const_value is None,
            }
            &&& opt_text(n.numeric.minimum) == number_text(field(schema, "minimum"@))
            &&& opt_text(n.numeric.maximum) == number_text(field(schema, "maximum"@))
            &&& opt_text(n.numeric.exclusive_minimum) == number_text(
                field(schema, "exclusiveMinimum"@),
            )
            &&& opt_text(n.numeric.exclusive_maximum) == number_text(
                field(schema, "exclusiveMaximum"@),
            )
            &&& opt_text(n.numeric.multiple_of) == number_text(field(schema, "multipleOf"@))
            &&& n.min_length == number_u64(field(schema, "minLength"@))
            &&& n.max_length == number_u64(field(schema, "maxLength"@))
            &&& n.min_items == number_u64(field(schema, "minItems"@))
            &&& n.max_items == number_u64(field(schema, "maxItems"@))
            &&& n.unique_items == bool_of(field(schema, "uniqueItems"@))
            &&& combo_rel(schema, combo_of(n, 0), 0)
            &&& combo_rel(schema, combo_of(n, 1), 1)
            &&& combo_rel(schema, combo_of(n, 2), 2)
            &&& if has_field(schema, "not"@) {
                n.not is Some && lowered(fval(schema, "not"@), *n.not->Some_0)
            } else {
                n.not is None
            }
        },
        _ => false,
    }
}

fn cerr_exec(keyword: &str, ptr: &str, detail: String) -> (e: CompileErr)
    ensures
        e.keyword@ == keyword@,
        e.pointer@ == ptr@,
        e.detail@ == detail@,
{
    CompileErr { keyword: String::from_str(keyword), pointer: String::from_str(ptr), detail }
}

fn field_index(schema: &JsonValue, name: &str) -> (r: Option<usize>)
    requires
        schema is Object,
    ensures
        match r {
            Some(j) => has_field(*schema, name@) && field_at(*schema, name@) == j as int,
            None => !has_field(*schema, name@),
        },
{
    match schema {
        JsonValue::Object(ps) => {
            let mut i: usize = 0;
            while i < ps.len()
                invariant
                    i <= ps@.len(),
                    *schema == JsonValue::Object(*ps),
                    key_from(ps@, name@, 0) == key_from(ps@, name@, i as int),
                decreases ps@.len() - i,
            {
                if str_eq(ps[i].0.as_str(), name) {
                    assert(key_from(ps@, name@, i as int) == Some(i as int));
                    assert(*schema == JsonValue::Object(*ps));
                    assert(field_at(*schema, name@) == i as int);
                    return Some(i);
                }
                i = i + 1;
            }
            assert(key_from(ps@, name@, ps@.len() as int) is None);
            None
        },
        _ => None,
    }
}

proof fn lemma_key_from_range(ps: Seq<(String, JsonValue)>, k: Seq<char>, i: int)
    ensures
        key_from(ps, k, i) matches Some(j) ==> 0 <= j < ps.len(),
    decreases ps.len() - i,
{
    if 0 <= i < ps.len() && ps[i].0@ != k {
        lemma_key_from_range(ps, k, i + 1);
    }
}

fn field_number_text(schema: &JsonValue, name: &str) -> (r: Option<String>)
    requires
        schema is Object,
    ensures
        opt_text(r) == number_text(field(*schema, name@)),
{
    match (schema, field_index(schema, name)) {
        (JsonValue::Object(ps), Some(j)) => match &ps[j].1 {
            JsonValue::Number(n) => Some(n.text.clone()),
            _ => None,
        },
        _ => None,
    }
}

fn field_bool(schema: &JsonValue, name: &str) -> (r: Option<bool>)
    requires
        schema is Object,
    ensures
        r == bool_of(field(*schema, name@)),
{
    match (schema, field_index(schema, name)) {
        (JsonValue::Object(ps), Some(j)) => match &ps[j].1 {
            JsonValue::Bool(b) => Some(*b),
            _ => None,
        },
        _ => None,
    }
}

fn digits_u64(t: &str) -> (r: Option<u64>)
    ensures
        r == (if all_digits(t@) && digits_value(t@) <= u64::MAX {
            Some(digits_value(t@) as u64)
        } else {
            None::<u64>
        }),
{
    let cs = crate::text::chars_of(t);
    if cs.len() == 0 {
        return None;
    }
    let mut v: u64 = 0;
    let mut i: usize = 0;
    while i < cs.len()
        invariant
            i <= cs@.len(),
            cs@ == t@,
            cs@.len() > 0,
            forall|j: int| 0 <= j < i ==> '0' <= #[trigger] cs@[j] && cs@[j] <= '9',
            v as nat == digits_value(cs@.take(i as int)),
        decreases cs@.len() - i,
    {
        let c = cs[i];
        assert(cs@.take(i + 1).drop_last() =~= cs@.take(i as int));
        if !('0' <= c && c <= '9') {
            assert(!all_digits(t@));
            return None;
        }
        let d = (c as u32 - '0' as u32) as u64;
        if v > (u64::MAX - d) / 10 {
            proof {
                assert(cs@.take(i + 1).last() == c);
                assert(digits_value(cs@.take(i + 1)) == v * 10 + d) by (nonlinear_arith)
                    requires
                        digits_value(cs@.take(i + 1)) == digits_value(cs@.take(i as int)) * 10 + d,
                        v as nat == digits_value(cs@.take(i as int)),
                ;
                assert(v * 10 + d > u64::MAX) by (nonlinear_arith)
                    requires
                        v > (u64::MAX - d) / 10,
                        d <= 9,
                ;
                lemma_digits_grow(cs@, (i + 1) as int);
            }
            return None;
        }
        v = v * 10 + d;
        i = i + 1;
    }
    assert(cs@.take(cs@.len() as int) =~= cs@);
    Some(v)
}

proof fn lemma_digits_grow(s: Seq<char>, k: int)
    requires
        0 <= k <= s.len(),
    ensures
        digits_value(s.take(k)) <= digits_value(s),
    decreases s.len() - k,
{
    if k < s.len() {
        lemma_digits_grow(s, k + 1);
        assert(s.take(k + 1).drop_last() =~= s.take(k));
        let p = digits_value(s.take(k));
        assert(digits_value(s.take(k + 1)) == p * 10 + ((s.take(k + 1).last() as u32) - ('0' as u32)) as nat);
        assert(p <= p * 10) by (nonlinear_arith);
    } else {
        assert(s.take(k) =~= s);
    }
}
fn field_u64(schema: &JsonValue, name: &str) -> (r: Option<u64>)
    requires
        schema is Object,
    ensures
        r == number_u64(field(*schema, name@)),
{
    match (schema, field_index(schema, name)) {
        (JsonValue::Object(ps), Some(j)) => match &ps[j].1 {
            JsonValue::Number(n) => digits_u64(n.text.as_str()),
            _ => None,
        },
        _ => None,
    }
}

fn first_unknown_exec(ps: &Vec<(String, JsonValue)>) -> (r: Option<usize>)
    ensures
        match r {
            Some(i) => i < ps@.len() && unknown_from(ps@, 0) == Some(i as int),
            None => unknown_from(ps@, 0) is None,
        },
{
    let mut i: usize = 0;
    while i < ps.len()
        invariant
            i <= ps@.len(),
            unknown_from(ps@, 0) == unknown_from(ps@, i as int),
        decreases ps@.len() - i,
    {
        if !is_keyword_known(ps[i].0.as_str()) {
            return Some(i);
        }
        i = i + 1;
    }
    None
}

fn compile_types(t: &JsonValue, ptr: &str) -> (r: Result<Vec<JsonType>, CompileErr>)
    ensures
        match type_error(Some(*t), ptr@) {
            Some(e) => r matches Err(err) && (err.keyword@, err.pointer@, err.detail@) == e,
            None => r matches Ok(ts) && types_rel(*t, ts@),
        },
{
    match t {
        JsonValue::Str(s) => match parse_type_name(s.as_str(), ptr) {
            Ok(ty) => {
                let mut v: Vec<JsonType> = Vec::new();
                v.push(ty);
                assert(v@ =~= seq![type_named(s@)->Some_0]);
                Ok(v)
            },
            Err(e) => Err(e),
        },
        JsonValue::Array(xs) => {
            let mut out: Vec<JsonType> = Vec::new();
            let mut i: usize = 0;
            while i < xs.len()
                invariant
                    i <= xs@.len(),
                    out@.len() == i,
                    *t == JsonValue::Array(*xs),
                    type_list_error(xs@, ptr@, 0) == type_list_error(xs@, ptr@, i as int),
                    forall|j: int| 0 <= j < i ==> Some(#[trigger] out@[j]) == type_named(xs@[j]->Str_0@),
                decreases xs@.len() - i,
            {
                match &xs[i] {
                    JsonValue::Str(s) => match parse_type_name(s.as_str(), ptr) {
                        Ok(ty) => {
                            out.push(ty);
                        },
                        Err(e) => {
                            return Err(e);
                        },
                    },
                    _ => {
                        return Err(
                            cerr_exec("type", ptr, String::from_str("type array must contain only strings")),
                        );
                    },
                }
                i = i + 1;
            }
            Ok(out)
        },
        _ => Err(cerr_exec("type", ptr, String::from_str("type must be a string or array of strings"))),
    }
}

fn compile_required(r: &JsonValue, ptr: &str) -> (res: Result<Vec<String>, CompileErr>)
    ensures
        match required_error(Some(*r), ptr@) {
            Some(e) => res matches Err(err) && (err.keyword@, err.pointer@, err.detail@) == e,
            None => res matches Ok(out) && r is Array && out@.len() == r->Array_0@.len() && forall|
                i: int,
            | 0 <= i < out@.len() ==> (#[trigger] out@[i])@ == r->Array_0@[i]->Str_0@,
        },
{
    match r {
        JsonValue::Array(xs) => {
            let mut out: Vec<String> = Vec::new();
            let mut i: usize = 0;
            while i < xs.len()
                invariant
                    i <= xs@.len(),
                    out@.len() == i,
                    *r == JsonValue::Array(*xs),
                    forall|j: int| 0 <= j < i ==> #[trigger] xs@[j] is Str,
                    forall|j: int| 0 <= j < i ==> (#[trigger] out@[j])@ == xs@[j]->Str_0@,
                decreases xs@.len() - i,
            {
                match &xs[i] {
                    JsonValue::Str(s) => {
                        out.push(s.clone());
                    },
                    _ => {
                        assert(!all_strings(xs@));
                        return Err(
                            cerr_exec("required", ptr, String::from_str("required entries must be strings")),
                        );
                    },
                }
                i = i + 1;
            }
            Ok(out)
        },
        _ => Err(cerr_exec("required", ptr, String::from_str("required must be an array"))),
    }
}

/// The error under `properties`, if any (see [`schema_error_at`]).
pub open spec fn props_stage(schema: JsonValue, ptr: Seq<char>) -> Option<(Seq<char>, Seq<char>, Seq<char>)> {
    if has_field(schema, "properties"@) {
        match fval(schema, "properties"@) {
            JsonValue::Object(props) => props_error(schema, ptr, props@.len()),
            _ => cerr("properties"@, ptr, "properties must be an object"@),
        }
    } else {
        None
    }
}

proof fn lemma_props_error_stays(schema: JsonValue, ptr: Seq<char>, i: nat, k: nat)
    requires
        i <= k,
        has_field(schema, "properties"@),
        fval(schema, "properties"@) is Object,
        k <= fval(schema, "properties"@)->Object_0@.len(),
        props_error(schema, ptr, i) is Some,
    ensures
        props_error(schema, ptr, k) == props_error(schema, ptr, i),
    decreases k - i,
{
    if i < k {
        lemma_props_error_stays(schema, ptr, i, (k - 1) as nat);
    }
}

proof fn lemma_combo_error_stays(schema: JsonValue, ptr: Seq<char>, which: nat, i: nat, k: nat)
    requires
        i <= k,
        has_field(schema, combo_name(which)),
        fval(schema, combo_name(which)) is Array,
        k <= fval(schema, combo_name(which))->Array_0@.len(),
        combo_error(schema, ptr, which, i) is Some,
    ensures
        combo_error(schema, ptr, which, k) == combo_error(schema, ptr, which, i),
    decreases k - i,
{
    if i < k {
        lemma_combo_error_stays(schema, ptr, which, i, (k - 1) as nat);
    }
}

fn compile_props(schema: &JsonValue, ptr: &str) -> (r: Result<Vec<(String, SchemaNode)>, CompileErr>)
    requires
        schema is Object,
    ensures
        match props_stage(*schema, ptr@) {
            Some(e) => r matches Err(err) && (err.keyword@, err.pointer@, err.detail@) == e,
            None => r matches Ok(out) && if has_field(*schema, "properties"@) && fval(
                *schema,
                "properties"@,
            ) is Object {
                &&& out@.len() == fval(*schema, "properties"@)->Object_0@.len()
                &&& forall|j: int|
                    0 <= j < out@.len() ==> (#[trigger] out@[j]).0@ == fval(
                        *schema,
                        "properties"@,
                    )->Object_0@[j].0@ && lowered(
                        fval(*schema, "properties"@)->Object_0@[j].1,
                        out@[j].1,
                    )
            } else {
                out@.len() == 0
            },
        },
    decreases schema, 0nat,
{
    let ghost sch = *schema;
    let mut out: Vec<(String, SchemaNode)> = Vec::new();
    match (schema, field_index(schema, "properties")) {
        (JsonValue::Object(ps), Some(fj)) => match &ps[fj].1 {
            JsonValue::Object(props) => {
                let ghost pv = sch->Object_0@[fj as int].1;
                assert(pv == JsonValue::Object(*props));
                let mut i: usize = 0;
                while i < props.len()
                    invariant
                        i <= props@.len(),
                        sch == *schema,
                        sch == JsonValue::Object(*ps),
                        has_field(sch, "properties"@),
                        field_at(sch, "properties"@) == fj as int,
                        fval(sch, "properties"@) == JsonValue::Object(*props),
                        out@.len() == i,
                        props_error(sch, ptr@, i as nat) is None,
                        forall|j: int|
                            0 <= j < i ==> (#[trigger] out@[j]).0@ == props@[j].0@ && lowered(
                                props@[j].1,
                                out@[j].1,
                            ),
                    decreases props@.len() - i,
                {
                    proof {
                        assert(decreases_to!(sch => sch->Object_0));
                        assert(decreases_to!(sch->Object_0 => sch->Object_0[fj as int]));
                        let pvv = sch->Object_0[fj as int].1;
                        assert(decreases_to!(pvv => pvv->Object_0));
                        assert(decreases_to!(pvv->Object_0 => pvv->Object_0[i as int]));
                    }
                    let seg = escape_exec(props[i].0.as_str());
                    let mut cp = concat2(ptr, "/properties/");
                    cp.append(seg.as_str());
                    match compile_schema(&props[i].1, cp.as_str()) {
                        Ok(n) => {
                            out.push((props[i].0.clone(), n));
                        },
                        Err(e) => {
                            proof {
                                lemma_props_error_stays(sch, ptr@, (i + 1) as nat, props@.len());
                            }
                            return Err(e);
                        },
                    }
                    i = i + 1;
                }
                Ok(out)
            },
            _ => Err(cerr_exec("properties", ptr, String::from_str("properties must be an object"))),
        },
        _ => Ok(out),
    }
}

/// The error under a combinator, if any (see [`schema_error_at`]).
pub open spec fn combo_stage(schema: JsonValue, ptr: Seq<char>, which: nat) -> Option<(Seq<char>, Seq<char>, Seq<char>)> {
    combo_error(schema, ptr, which, combo_len(schema, which))
}

fn compile_combo(schema: &JsonValue, ptr: &str, which: usize) -> (r: Result<Option<Vec<SchemaNode>>, CompileErr>)
    requires
        schema is Object,
        which <= 2,
    ensures
        match combo_stage(*schema, ptr@, which as nat) {
            Some(e) => r matches Err(err) && (err.keyword@, err.pointer@, err.detail@) == e,
            None => r matches Ok(subs) && combo_rel(*schema, subs, which as nat),
        },
    decreases schema, 0nat,
{
    let ghost sch = *schema;
    let name = if which == 0 {
        "oneOf"
    } else if which == 1 {
        "anyOf"
    } else {
        "allOf"
    };
    assert(name@ == combo_name(which as nat));
    match (schema, field_index(schema, name)) {
        (JsonValue::Object(ps), Some(fj)) => match &ps[fj].1 {
            JsonValue::Array(xs) => {
                let mut out: Vec<SchemaNode> = Vec::new();
                let mut i: usize = 0;
                while i < xs.len()
                    invariant
                        i <= xs@.len(),
                        which <= 2,
                        name@ == combo_name(which as nat),
                        sch == *schema,
                        sch == JsonValue::Object(*ps),
                        has_field(sch, combo_name(which as nat)),
                        field_at(sch, combo_name(which as nat)) == fj as int,
                        fval(sch, combo_name(which as nat)) == JsonValue::Array(*xs),
                        out@.len() == i,
                        combo_error(sch, ptr@, which as nat, i as nat) is None,
                        forall|j: int| 0 <= j < i ==> lowered(xs@[j], #[trigger] out@[j]),
                    decreases xs@.len() - i,
                {
                    proof {
                        assert(decreases_to!(sch => sch->Object_0));
                        assert(decreases_to!(sch->Object_0 => sch->Object_0[fj as int]));
                        let pvv = sch->Object_0[fj as int].1;
                        assert(decreases_to!(pvv => pvv->Array_0));
                        assert(decreases_to!(pvv->Array_0 => pvv->Array_0[i as int]));
                    }
                    let mut cp = concat2(ptr, "/");
                    cp.append(name);
                    cp.append("/");
                    let d = u64_to_decimal(i as u64);
                    cp.append(d.as_str());
                    match compile_schema(&xs[i], cp.as_str()) {
                        Ok(n) => {
                            out.push(n);
                        },
                        Err(e) => {
                            proof {
                                lemma_combo_error_stays(sch, ptr@, which as nat, (i + 1) as nat, xs@.len());
                            }
                            return Err(e);
                        },
                    }
                    i = i + 1;
                }
                Ok(Some(out))
            },
            _ => Ok(None),
        },
        _ => Ok(None),
    }
}

fn no_rules() -> (r: NumericRules)
    ensures
        no_numeric_rules(r),
{
    NumericRules {
        minimum: None,
        maximum: None,
        exclusive_minimum: None,
        exclusive_maximum: None,
        multiple_of: None,
    }
}

fn empty_schema_node() -> (n: SchemaNode)
    ensures
        empty_node(n),
{
    SchemaNode {
        types: None,
        properties: Vec::new(),
        required: Vec::new(),
        items: None,
        additional_properties: None,
        enum_values: None,
        const_value: None,
        numeric: no_rules(),
        min_length: None,
        max_length: None,
        min_items: None,
        max_items: None,
        unique_items: None,
        one_of: None,
        any_of: None,
        all_of: None,
        not: None,
    }
}

/// Compiles a schema value at the pointer `ptr` into a rule tree,
/// failing closed: the error is exactly the first that
/// [`schema_error_at`] names, and a schema without one compiles to the
/// node [`lowered`] describes.
#[verifier::rlimit(60)]
pub fn compile_schema(schema: &JsonValue, ptr: &str) -> (r: Result<SchemaNode, CompileErr>)
    ensures
        match schema_error_at(*schema, ptr@) {
            Some(e) => r matches Err(err) && (err.keyword@, err.pointer@, err.detail@) == e,
            None => r matches Ok(n) && lowered(*schema, n),
        },
    decreases schema, 1nat,
{
    let ghost sch = *schema;
    match schema {
        JsonValue::Bool(b) => {
            if *b {
                Ok(empty_schema_node())
            } else {
                Err(cerr_exec("", ptr, String::from_str("schema node must be an object")))
            }
        },
        JsonValue::Object(ps) => {
            if let Some(i) = first_unknown_exec(ps) {
                let mut d = concat2("unsupported JSON-Schema keyword '", ps[i].0.as_str());
                d.append("'");
                return Err(cerr_exec(ps[i].0.as_str(), ptr, d));
            }
            let types = match field_index(schema, "type") {
                Some(j) => match compile_types(&ps[j].1, ptr) {
                    Ok(ts) => Some(ts),
                    Err(e) => {
                        return Err(e);
                    },
                },
                None => None,
            };
            let properties = match compile_props(schema, ptr) {
                Ok(p) => p,
                Err(e) => {
                    return Err(e);
                },
            };
            let required = match field_index(schema, "required") {
                Some(j) => match compile_required(&ps[j].1, ptr) {
                    Ok(r) => r,
                    Err(e) => {
                        return Err(e);
                    },
                },
                None => Vec::new(),
            };
            let enum_values = match field_index(schema, "enum") {
                Some(j) => match &ps[j].1 {
                    JsonValue::Array(_) => match copy_json(&ps[j].1) {
                        JsonValue::Array(vs) => Some(vs),
                        _ => None,
                    },
                    _ => {
                        return Err(cerr_exec("enum", ptr, String::from_str("enum must be an array")));
                    },
                },
                None => None,
            };
            let const_value = match field_index(schema, "const") {
                Some(j) => Some(copy_json(&ps[j].1)),
                None => None,
            };
            let multiple_of = match field_index(schema, "multipleOf") {
                Some(j) => {
                    let ok = match &ps[j].1 {
                        JsonValue::Number(n) => n.positive,
                        _ => false,
                    };
                    if !ok {
                        return Err(
                            cerr_exec("multipleOf", ptr, String::from_str("multipleOf must be a positive number")),
                        );
                    }
                    field_number_text(schema, "multipleOf")
                },
                None => None,
            };
            let numeric = NumericRules {
                minimum: field_number_text(schema, "minimum"),
                maximum: field_number_text(schema, "maximum"),
                exclusive_minimum: field_number_text(schema, "exclusiveMinimum"),
                exclusive_maximum: field_number_text(schema, "exclusiveMaximum"),
                multiple_of,
            };
            let items = match field_index(schema, "items") {
                Some(j) => {
                    proof {
                        assert(decreases_to!(sch => sch->Object_0));
                        assert(decreases_to!(sch->Object_0 => sch->Object_0[j as int]));
                    }
                    let cp = concat2(ptr, "/items");
                    match compile_schema(&ps[j].1, cp.as_str()) {
                        Ok(n) => Some(Box::new(n)),
                        Err(e) => {
                            return Err(e);
                        },
                    }
                },
                None => None,
            };
            let additional_properties = match field_index(schema, "additionalProperties") {
                Some(j) => match &ps[j].1 {
                    JsonValue::Bool(b) => Some(*b),
                    _ => {
                        return Err(
                            cerr_exec(
                                "additionalProperties",
                                ptr,
                                String::from_str("schema-form additionalProperties is unsupported in v1"),
                            ),
                        );
                    },
                },
                None => None,
            };
            let one_of = match compile_combo(schema, ptr, 0) {
                Ok(s) => s,
                Err(e) => {
                    return Err(e);
                },
            };
            let any_of = match compile_combo(schema, ptr, 1) {
                Ok(s) => s,
                Err(e) => {
                    return Err(e);
                },
            };
            let all_of = match compile_combo(schema, ptr, 2) {
                Ok(s) => s,
                Err(e) => {
                    return Err(e);
                },
            };
            let not = match field_index(schema, "not") {
                Some(j) => {
                    proof {
                        assert(decreases_to!(sch => sch->Object_0));
                        assert(decreases_to!(sch->Object_0 => sch->Object_0[j as int]));
                    }
                    let cp = concat2(ptr, "/not");
                    match compile_schema(&ps[j].1, cp.as_str()) {
                        Ok(n) => Some(Box::new(n)),
                        Err(e) => {
                            return Err(e);
                        },
                    }
                },
                None => None,
            };
            let node = SchemaNode {
                types,
                properties,
                required,
                items,
                additional_properties,
                enum_values,
                const_value,
                numeric,
                min_length: field_u64(schema, "minLength"),
                max_length: field_u64(schema, "maxLength"),
                min_items: field_u64(schema, "minItems"),
                max_items: field_u64(schema, "maxItems"),
                unique_items: field_bool(schema, "uniqueItems"),
                one_of,
                any_of,
                all_of,
                not,
            };
            Ok(node)
        },
        _ => Err(cerr_exec("", ptr, String::from_str("schema node must be an object"))),
    }
}

proof fn lemma_unknown_from(ps: Seq<(String, JsonValue)>, i: int, k: int)
    requires
        0 <= k <= i < ps.len(),
        !keyword_known(ps[i].0@),
        forall|j: int| 0 <= j < i ==> keyword_known(#[trigger] ps[j].0@),
    ensures
        unknown_from(ps, k) == Some(i),
    decreases i - k,
{
    if k < i {
        lemma_unknown_from(ps, i, k + 1);
    }
}

/// The subset fails closed: a schema object holding a key that the
/// subset neither enforces nor ignores does not compile, and the error
/// names the first such key, at the node's pointer.
pub proof fn law_unknown_keyword_fails_closed(schema: JsonValue, ptr: Seq<char>, i: int)
    requires
        schema is Object,
        0 <= i < schema->Object_0@.len(),
        !keyword_known(schema->Object_0@[i].0@),
        forall|j: int| 0 <= j < i ==> keyword_known(#[trigger] schema->Object_0@[j].0@),
    ensures
        schema_error_at(schema, ptr) == Some(
            (
                schema->Object_0@[i].0@,
                ptr,
                "unsupported JSON-Schema keyword '"@ + schema->Object_0@[i].0@ + "'"@,
            ),
        ),
{
    lemma_unknown_from(schema->Object_0@, i, 0);
}

/// A compiled tool input schema: the root of its rule tree.
#[derive(Debug)]
pub struct CompiledSchema {
    pub root: SchemaNode,
}

impl CompiledSchema {
    /// Validates `value`, collecting every violation (none: valid), with
    /// the numeric keywords' outcomes from `numeric` (see
    /// [`check_value`]).
    pub fn check(&self, value: &JsonValue, numeric: &Vec<NumericOutcome>) -> (out: Vec<Violation>)
        ensures
            viols_view(out@) == violations(self.root, *value, seq![], numeric@),
    {
        let empty = String::new();
        check_value(&self.root, value, empty.as_str(), numeric)
    }
}

/// Compiles a schema value into a `CompiledSchema`, failing closed on any
/// keyword outside the subset (see [`compile_schema`], at the root
/// pointer).
pub fn compile(schema: &JsonValue) -> (r: Result<CompiledSchema, CompileErr>)
    ensures
        match schema_error_at(*schema, seq![]) {
            Some(e) => r matches Err(err) && (err.keyword@, err.pointer@, err.detail@) == e,
            None => r matches Ok(c) && lowered(*schema, c.root),
        },
{
    let empty = String::new();
    match compile_schema(schema, empty.as_str()) {
        Ok(root) => Ok(CompiledSchema { root }),
        Err(e) => Err(e),
    }
}

proof fn lemma_contains_right<T>(a: Seq<T>, b: Seq<T>, x: T)
    requires
        b.contains(x),
    ensures
        (a + b).contains(x),
{
    let k = choose|k: int| 0 <= k < b.len() && b[k] == x;
    assert((a + b)[a.len() + k] == x);
}

proof fn lemma_contains_left<T>(a: Seq<T>, b: Seq<T>, x: T)
    requires
        a.contains(x),
    ensures
        (a + b).contains(x),
{
    let k = choose|k: int| 0 <= k < a.len() && a[k] == x;
    assert((a + b)[k] == x);
}

proof fn lemma_items_contain(
    node: SchemaNode,
    v: JsonValue,
    ptr: Seq<char>,
    table: Seq<NumericOutcome>,
    k: nat,
    i: int,
    x: (Seq<char>, Seq<char>),
)
    requires
        node.items is Some,
        v is Array,
        0 <= i < k <= v->Array_0@.len(),
        violations(*node.items->Some_0, v->Array_0@[i], ptr + "/"@ + decimal(i as nat), table).contains(x),
    ensures
        item_violations(node, v, ptr, table, k).contains(x),
    decreases k,
{
    let prev = item_violations(node, v, ptr, table, (k - 1) as nat);
    let last = violations(
        *node.items->Some_0,
        v->Array_0@[k - 1],
        child_ptr(ptr, decimal((k - 1) as nat)),
        table,
    );
    assert(item_violations(node, v, ptr, table, k) == prev + last);
    if i < k - 1 {
        lemma_items_contain(node, v, ptr, table, (k - 1) as nat, i, x);
        lemma_contains_left(prev, last, x);
    } else {
        lemma_contains_right(prev, last, x);
    }
}

/// Every element of an array is checked against the node's `items`: each
/// violation that element `i` has against `items`, located under
/// `ptr/i`, is a violation of the array. So an array with an element
/// that `items` rejects is rejected, whichever element it is.
#[verifier::rlimit(40)]
pub proof fn law_items_check_every_element(
    node: SchemaNode,
    v: JsonValue,
    ptr: Seq<char>,
    table: Seq<NumericOutcome>,
    i: int,
    x: (Seq<char>, Seq<char>),
)
    requires
        node.items is Some,
        v is Array,
        0 <= i < v->Array_0@.len(),
        violations(*node.items->Some_0, v->Array_0@[i], ptr + "/"@ + decimal(i as nat), table).contains(x),
    ensures
        violations(node, v, ptr, table).contains(x),
{
    lemma_items_contain(node, v, ptr, table, arr_len(v), i, x);
    lemma_violations_parts(node, v, ptr, table);
    let l = local_violations(node, v, ptr, table);
    let i1 = item_violations(node, v, ptr, table, arr_len(v));
    let o1 = one_of_part(node, v, ptr, table);
    let a1 = any_of_part(node, v, ptr, table);
    let l1 = all_of_part(node, v, ptr, table);
    let n1 = not_part(node, v, ptr, table);
    let b1 = object_part(node, v, ptr, table);
    lemma_contains_right(l, i1, x);
    lemma_contains_left(l + i1, o1, x);
    lemma_contains_left(l + i1 + o1, a1, x);
    lemma_contains_left(l + i1 + o1 + a1, l1, x);
    lemma_contains_left(l + i1 + o1 + a1 + l1, n1, x);
    lemma_contains_left(l + i1 + o1 + a1 + l1 + n1, b1, x);
}

#[verifier::rlimit(40)]
proof fn lemma_object_part_in(
    node: SchemaNode,
    v: JsonValue,
    ptr: Seq<char>,
    table: Seq<NumericOutcome>,
    x: (Seq<char>, Seq<char>),
)
    requires
        object_part(node, v, ptr, table).contains(x),
    ensures
        violations(node, v, ptr, table).contains(x),
{
    lemma_violations_parts(node, v, ptr, table);
    let front = local_violations(node, v, ptr, table) + item_violations(node, v, ptr, table, arr_len(v))
        + one_of_part(node, v, ptr, table) + any_of_part(node, v, ptr, table) + all_of_part(
        node,
        v,
        ptr,
        table,
    ) + not_part(node, v, ptr, table);
    lemma_contains_right(front, object_part(node, v, ptr, table), x);
}

proof fn lemma_entry_absent(ps: Seq<(String, JsonValue)>, k: Seq<char>)
    requires
        forall|j: int| 0 <= j < ps.len() ==> (#[trigger] ps[j]).0@ != k,
    ensures
        entry_of(ps, k) is None,
    decreases ps.len(),
{
    if ps.len() > 0 {
        assert forall|j: int| 0 <= j < ps.drop_first().len() implies (#[trigger] ps.drop_first()[j]).0@
            != k by {
            assert(ps.drop_first()[j] == ps[j + 1]);
        }
        lemma_entry_absent(ps.drop_first(), k);
    }
}

proof fn lemma_entry_first(ps: Seq<(String, JsonValue)>, k: Seq<char>, j: int)
    requires
        0 <= j < ps.len(),
        ps[j].0@ == k,
        forall|m: int| 0 <= m < j ==> (#[trigger] ps[m]).0@ != k,
    ensures
        entry_of(ps, k) == Some(ps[j].1),
    decreases j,
{
    if j > 0 {
        assert forall|m: int| 0 <= m < j - 1 implies (#[trigger] ps.drop_first()[m]).0@ != k by {
            assert(ps.drop_first()[m] == ps[m + 1]);
        }
        assert(ps.drop_first()[j - 1] == ps[j]);
        lemma_entry_first(ps.drop_first(), k, j - 1);
    }
}

proof fn lemma_required_in(
    node: SchemaNode,
    ps: Seq<(String, JsonValue)>,
    ptr: Seq<char>,
    m: nat,
    k: int,
)
    requires
        0 <= k < m <= node.required@.len(),
        entry_of(ps, node.required@[k]@) is None,
    ensures
        required_violations(node, ps, ptr, m).contains(
            (ptr, "missing required property '"@ + node.required@[k]@ + "'"@),
        ),
    decreases m,
{
    let prev = required_violations(node, ps, ptr, (m - 1) as nat);
    let r = node.required@[m - 1]@;
    let last = when(entry_of(ps, r) is None, ptr, "missing required property '"@ + r + "'"@);
    assert(required_violations(node, ps, ptr, m) == prev + last);
    if k < m - 1 {
        lemma_required_in(node, ps, ptr, (m - 1) as nat, k);
        lemma_contains_left(prev, last, (ptr, "missing required property '"@ + node.required@[k]@ + "'"@));
    } else {
        assert(last[0] == (ptr, "missing required property '"@ + node.required@[k]@ + "'"@));
        lemma_contains_right(prev, last, (ptr, "missing required property '"@ + node.required@[k]@ + "'"@));
    }
}

/// A required property that the object lacks is reported, at the
/// object's pointer, as `missing required property '<name>'`.
#[verifier::rlimit(40)]
pub proof fn law_missing_required_reported(
    node: SchemaNode,
    ps: Vec<(String, JsonValue)>,
    ptr: Seq<char>,
    table: Seq<NumericOutcome>,
    k: int,
)
    requires
        0 <= k < node.required@.len(),
        forall|j: int| 0 <= j < ps@.len() ==> (#[trigger] ps@[j]).0@ != node.required@[k]@,
    ensures
        violations(node, JsonValue::Object(ps), ptr, table).contains(
            (ptr, "missing required property '"@ + node.required@[k]@ + "'"@),
        ),
{
    let v = JsonValue::Object(ps);
    let x = (ptr, "missing required property '"@ + node.required@[k]@ + "'"@);
    lemma_entry_absent(ps@, node.required@[k]@);
    lemma_required_in(node, ps@, ptr, node.required@.len(), k);
    let a = required_violations(node, ps@, ptr, node.required@.len());
    let b = property_violations(node, v, ptr, table, node.properties@.len());
    let c = additional_violations(node, ps@, ptr, ps@.len());
    lemma_contains_left(a, b, x);
    lemma_contains_left(a + b, c, x);
    assert(object_part(node, v, ptr, table) == a + b + c);
    lemma_object_part_in(node, v, ptr, table, x);
}

proof fn lemma_additional_in(node: SchemaNode, ps: Seq<(String, JsonValue)>, ptr: Seq<char>, m: nat, k: int)
    requires
        node.additional_properties == Some(false),
        0 <= k < m <= ps.len(),
        !has_property(node, ps[k].0@),
    ensures
        additional_violations(node, ps, ptr, m).contains(
            (ptr, "unexpected additional property '"@ + ps[k].0@ + "'"@),
        ),
    decreases m,
{
    let x = (ptr, "unexpected additional property '"@ + ps[k].0@ + "'"@);
    let prev = additional_violations(node, ps, ptr, (m - 1) as nat);
    let key = ps[m - 1].0@;
    let last = when(!has_property(node, key), ptr, "unexpected additional property '"@ + key + "'"@);
    assert(additional_violations(node, ps, ptr, m) == prev + last);
    if k < m - 1 {
        lemma_additional_in(node, ps, ptr, (m - 1) as nat, k);
        lemma_contains_left(prev, last, x);
    } else {
        assert(last[0] == x);
        lemma_contains_right(prev, last, x);
    }
}

/// With `additionalProperties` false, a key of the object that no
/// property of the node names is reported, at the object's pointer, as
/// `unexpected additional property '<key>'`.
#[verifier::rlimit(40)]
pub proof fn law_additional_property_reported(
    node: SchemaNode,
    ps: Vec<(String, JsonValue)>,
    ptr: Seq<char>,
    table: Seq<NumericOutcome>,
    k: int,
)
    requires
        node.additional_properties == Some(false),
        0 <= k < ps@.len(),
        forall|i: int| 0 <= i < node.properties@.len() ==> (#[trigger] node.properties@[i]).0@ != ps@[k].0@,
    ensures
        violations(node, JsonValue::Object(ps), ptr, table).contains(
            (ptr, "unexpected additional property '"@ + ps@[k].0@ + "'"@),
        ),
{
    let v = JsonValue::Object(ps);
    let x = (ptr, "unexpected additional property '"@ + ps@[k].0@ + "'"@);
    lemma_additional_in(node, ps@, ptr, ps@.len(), k);
    let a = required_violations(node, ps@, ptr, node.required@.len());
    let b = property_violations(node, v, ptr, table, node.properties@.len());
    let c = additional_violations(node, ps@, ptr, ps@.len());
    lemma_contains_right(a + b, c, x);
    assert(object_part(node, v, ptr, table) == a + b + c);
    lemma_object_part_in(node, v, ptr, table, x);
}

proof fn lemma_property_in(
    node: SchemaNode,
    v: JsonValue,
    ptr: Seq<char>,
    table: Seq<NumericOutcome>,
    m: nat,
    i: int,
    x: (Seq<char>, Seq<char>),
)
    requires
        v is Object,
        0 <= i < m <= node.properties@.len(),
        entry_of(v->Object_0@, node.properties@[i].0@) matches Some(child) && violations(
            node.properties@[i].1,
            child,
            ptr + "/"@ + escape_segment(node.properties@[i].0@),
            table,
        ).contains(x),
    ensures
        property_violations(node, v, ptr, table, m).contains(x),
    decreases m,
{
    let prev = property_violations(node, v, ptr, table, (m - 1) as nat);
    let p = node.properties@[m - 1];
    let last = match entry_of(v->Object_0@, p.0@) {
        Some(child) => violations(p.1, child, child_ptr(ptr, escape_segment(p.0@)), table),
        None => seq![],
    };
    assert(property_violations(node, v, ptr, table, m) == prev + last);
    if i < m - 1 {
        lemma_property_in(node, v, ptr, table, (m - 1) as nat, i, x);
        lemma_contains_left(prev, last, x);
    } else {
        lemma_contains_right(prev, last, x);
    }
}

/// Every property that the object holds is checked against its schema:
/// each violation of the value under the property's key (the first
/// entry with that key) against the property's schema, located under
/// `ptr/<key>` (the key escaped as RFC 6901 asks), is a violation of the
/// object.
#[verifier::rlimit(40)]
pub proof fn law_present_property_checked(
    node: SchemaNode,
    ps: Vec<(String, JsonValue)>,
    ptr: Seq<char>,
    table: Seq<NumericOutcome>,
    i: int,
    j: int,
    x: (Seq<char>, Seq<char>),
)
    requires
        0 <= i < node.properties@.len(),
        0 <= j < ps@.len(),
        ps@[j].0@ == node.properties@[i].0@,
        forall|m: int| 0 <= m < j ==> (#[trigger] ps@[m]).0@ != node.properties@[i].0@,
        violations(
            node.properties@[i].1,
            ps@[j].1,
            ptr + "/"@ + escape_segment(node.properties@[i].0@),
            table,
        ).contains(x),
    ensures
        violations(node, JsonValue::Object(ps), ptr, table).contains(x),
{
    let v = JsonValue::Object(ps);
    lemma_entry_first(ps@, node.properties@[i].0@, j);
    lemma_property_in(node, v, ptr, table, node.properties@.len(), i, x);
    let a = required_violations(node, ps@, ptr, node.required@.len());
    let b = property_violations(node, v, ptr, table, node.properties@.len());
    let c = additional_violations(node, ps@, ptr, ps@.len());
    lemma_contains_right(a, b, x);
    lemma_contains_left(a + b, c, x);
    assert(object_part(node, v, ptr, table) == a + b + c);
    lemma_object_part_in(node, v, ptr, table, x);
}

#[verifier::rlimit(40)]
proof fn lemma_local_in(
    node: SchemaNode,
    v: JsonValue,
    ptr: Seq<char>,
    table: Seq<NumericOutcome>,
    x: (Seq<char>, Seq<char>),
)
    requires
        local_violations(node, v, ptr, table).contains(x),
    ensures
        violations(node, v, ptr, table).contains(x),
{
    lemma_violations_parts(node, v, ptr, table);
    let l = local_violations(node, v, ptr, table);
    let i1 = item_violations(node, v, ptr, table, arr_len(v));
    let o1 = one_of_part(node, v, ptr, table);
    let a1 = any_of_part(node, v, ptr, table);
    let l1 = all_of_part(node, v, ptr, table);
    let n1 = not_part(node, v, ptr, table);
    let b1 = object_part(node, v, ptr, table);
    lemma_contains_left(l, i1, x);
    lemma_contains_left(l + i1, o1, x);
    lemma_contains_left(l + i1 + o1, a1, x);
    lemma_contains_left(l + i1 + o1 + a1, l1, x);
    lemma_contains_left(l + i1 + o1 + a1 + l1, n1, x);
    lemma_contains_left(l + i1 + o1 + a1 + l1 + n1, b1, x);
}

proof fn lemma_in_one<T>(a: Seq<T>, b: Seq<T>, c: Seq<T>, d: Seq<T>, e: Seq<T>, f: Seq<T>, x: T, which: int)
    requires
        0 <= which < 6,
        (if which == 0 {
            a
        } else if which == 1 {
            b
        } else if which == 2 {
            c
        } else if which == 3 {
            d
        } else if which == 4 {
            e
        } else {
            f
        }).contains(x),
    ensures
        (a + b + c + d + e + f).contains(x),
{
    if which == 0 {
        lemma_contains_left(a, b, x);
        lemma_contains_left(a + b, c, x);
        lemma_contains_left(a + b + c, d, x);
        lemma_contains_left(a + b + c + d, e, x);
        lemma_contains_left(a + b + c + d + e, f, x);
    } else if which == 1 {
        lemma_contains_right(a, b, x);
        lemma_contains_left(a + b, c, x);
        lemma_contains_left(a + b + c, d, x);
        lemma_contains_left(a + b + c + d, e, x);
        lemma_contains_left(a + b + c + d + e, f, x);
    } else if which == 2 {
        lemma_contains_right(a + b, c, x);
        lemma_contains_left(a + b + c, d, x);
        lemma_contains_left(a + b + c + d, e, x);
        lemma_contains_left(a + b + c + d + e, f, x);
    } else if which == 3 {
        lemma_contains_right(a + b + c, d, x);
        lemma_contains_left(a + b + c + d, e, x);
        lemma_contains_left(a + b + c + d + e, f, x);
    } else if which == 4 {
        lemma_contains_right(a + b + c + d, e, x);
        lemma_contains_left(a + b + c + d + e, f, x);
    } else {
        lemma_contains_right(a + b + c + d + e, f, x);
    }
}

/// The node's own checks are reported at its pointer: a value of none of
/// the listed types; a value equal to no listed `enum` value; a value
/// other than the `const`; a string shorter than `minLength` or longer
/// than `maxLength` characters; an array with fewer than `minItems` or
/// more than `maxItems` elements, or (with `uniqueItems`) two equal
/// elements — each with its own message.
#[verifier::rlimit(40)]
pub proof fn law_own_checks_reported(node: SchemaNode, v: JsonValue, ptr: Seq<char>, table: Seq<NumericOutcome>)
    ensures
        (node.types matches Some(ts) && forall|i: int|
            0 <= i < ts@.len() ==> !type_matches(#[trigger] ts@[i], v)) ==> violations(
            node,
            v,
            ptr,
            table,
        ).contains((ptr, "value does not match any allowed type ["@ + type_names(node.types->Some_0@) + "]"@)),
        (node.enum_values matches Some(vals) && forall|i: int|
            0 <= i < vals@.len() ==> !json_same(#[trigger] vals@[i], v)) ==> violations(
            node,
            v,
            ptr,
            table,
        ).contains(
            (
                ptr,
                "value not in enum ["@ + debug_items(
                    JsonValue::Array(node.enum_values->Some_0),
                    node.enum_values->Some_0@.len(),
                ) + "]"@,
            ),
        ),
        (node.const_value matches Some(c) && !json_same(c, v)) ==> violations(node, v, ptr, table).contains(
            (ptr, "value must equal const "@ + json_text(node.const_value->Some_0)),
        ),
        (v matches JsonValue::Str(s) && node.min_length matches Some(m) && s@.len() < m) ==> violations(
            node,
            v,
            ptr,
            table,
        ).contains((ptr, "string shorter than minLength "@ + decimal(node.min_length->Some_0 as nat))),
        (v matches JsonValue::Str(s) && node.max_length matches Some(m) && s@.len() > m) ==> violations(
            node,
            v,
            ptr,
            table,
        ).contains((ptr, "string longer than maxLength "@ + decimal(node.max_length->Some_0 as nat))),
        (v matches JsonValue::Array(xs) && node.min_items matches Some(m) && xs@.len() < m) ==> violations(
            node,
            v,
            ptr,
            table,
        ).contains((ptr, "fewer than minItems "@ + decimal(node.min_items->Some_0 as nat))),
        (v matches JsonValue::Array(xs) && node.max_items matches Some(m) && xs@.len() > m) ==> violations(
            node,
            v,
            ptr,
            table,
        ).contains((ptr, "more than maxItems "@ + decimal(node.max_items->Some_0 as nat))),
        (v matches JsonValue::Array(xs) && node.unique_items == Some(true) && exists|i: int, j: int|
            0 <= i < j < xs@.len() && json_same(#[trigger] xs@[j], #[trigger] xs@[i])) ==> violations(
            node,
            v,
            ptr,
            table,
        ).contains((ptr, "array items not unique"@)),
{
    let a = type_violation(node, v, ptr);
    let b = enum_violation(node, v, ptr);
    let c = const_violation(node, v, ptr);
    let d = numeric_violations(node, v, ptr, table);
    let e = string_violations(node, v, ptr);
    let f = array_violations(node, v, ptr);
    assert(local_violations(node, v, ptr, table) == a + b + c + d + e + f);
    if node.types matches Some(ts) && forall|i: int| 0 <= i < ts@.len() ==> !type_matches(#[trigger] ts@[i], v) {
        let x = (ptr, "value does not match any allowed type ["@ + type_names(node.types->Some_0@) + "]"@);
        assert(a[0] == x);
        lemma_in_one(a, b, c, d, e, f, x, 0);
        lemma_local_in(node, v, ptr, table, x);
    }
    if node.enum_values matches Some(vals) && forall|i: int| 0 <= i < vals@.len() ==> !json_same(#[trigger] vals@[i], v) {
        let x = (
            ptr,
            "value not in enum ["@ + debug_items(
                JsonValue::Array(node.enum_values->Some_0),
                node.enum_values->Some_0@.len(),
            ) + "]"@,
        );
        assert(b[0] == x);
        lemma_in_one(a, b, c, d, e, f, x, 1);
        lemma_local_in(node, v, ptr, table, x);
    }
    if node.const_value matches Some(cv) && !json_same(cv, v) {
        let x = (ptr, "value must equal const "@ + json_text(node.const_value->Some_0));
        assert(c[0] == x);
        lemma_in_one(a, b, c, d, e, f, x, 2);
        lemma_local_in(node, v, ptr, table, x);
    }
    if let JsonValue::Str(s) = v {
        let lo = match node.min_length {
            Some(m) => when(s@.len() < m, ptr, "string shorter than minLength "@ + decimal(m as nat)),
            None => seq![],
        };
        let hi = match node.max_length {
            Some(m) => when(s@.len() > m, ptr, "string longer than maxLength "@ + decimal(m as nat)),
            None => seq![],
        };
        assert(e == lo + hi);
        if node.min_length matches Some(m) && s@.len() < m {
            let x = (ptr, "string shorter than minLength "@ + decimal(node.min_length->Some_0 as nat));
            assert(lo[0] == x);
            lemma_contains_left(lo, hi, x);
            lemma_in_one(a, b, c, d, e, f, x, 4);
            lemma_local_in(node, v, ptr, table, x);
        }
        if node.max_length matches Some(m) && s@.len() > m {
            let x = (ptr, "string longer than maxLength "@ + decimal(node.max_length->Some_0 as nat));
            assert(hi[0] == x);
            lemma_contains_right(lo, hi, x);
            lemma_in_one(a, b, c, d, e, f, x, 4);
            lemma_local_in(node, v, ptr, table, x);
        }
    }
    if let JsonValue::Array(xs) = v {
        let lo = match node.min_items {
            Some(m) => when(xs@.len() < m, ptr, "fewer than minItems "@ + decimal(m as nat)),
            None => seq![],
        };
        let hi = match node.max_items {
            Some(m) => when(xs@.len() > m, ptr, "more than maxItems "@ + decimal(m as nat)),
            None => seq![],
        };
        let un = when(
            node.unique_items == Some(true) && has_duplicate(xs@),
            ptr,
            "array items not unique"@,
        );
        assert(f == lo + hi + un);
        if node.min_items matches Some(m) && xs@.len() < m {
            let x = (ptr, "fewer than minItems "@ + decimal(node.min_items->Some_0 as nat));
            assert(lo[0] == x);
            lemma_contains_left(lo, hi, x);
            lemma_contains_left(lo + hi, un, x);
            lemma_in_one(a, b, c, d, e, f, x, 5);
            lemma_local_in(node, v, ptr, table, x);
        }
        if node.max_items matches Some(m) && xs@.len() > m {
            let x = (ptr, "more than maxItems "@ + decimal(node.max_items->Some_0 as nat));
            assert(hi[0] == x);
            lemma_contains_right(lo, hi, x);
            lemma_contains_left(lo + hi, un, x);
            lemma_in_one(a, b, c, d, e, f, x, 5);
            lemma_local_in(node, v, ptr, table, x);
        }
        if node.unique_items == Some(true) && exists|i: int, j: int|
            0 <= i < j < xs@.len() && json_same(#[trigger] xs@[j], #[trigger] xs@[i]) {
            let x = (ptr, "array items not unique"@);
            assert(has_duplicate(xs@));
            assert(un[0] == x);
            lemma_contains_right(lo + hi, un, x);
            lemma_in_one(a, b, c, d, e, f, x, 5);
            lemma_local_in(node, v, ptr, table, x);
        }
    }
}

proof fn lemma_none_passing(node: SchemaNode, v: JsonValue, table: Seq<NumericOutcome>, which: nat, k: nat)
    requires
        k <= branches(node, which).len(),
        forall|i: int|
            0 <= i < branches(node, which).len() ==> violations(
                #[trigger] branches(node, which)[i],
                v,
                seq![],
                table,
            ).len() > 0,
    ensures
        passing(node, v, table, which, k) == 0,
    decreases k,
{
    if k > 0 {
        lemma_none_passing(node, v, table, which, (k - 1) as nat);
    }
}

proof fn lemma_all_of_in(
    node: SchemaNode,
    v: JsonValue,
    ptr: Seq<char>,
    table: Seq<NumericOutcome>,
    m: nat,
    i: int,
)
    requires
        0 <= i < m <= branches(node, 2).len(),
        violations(branches(node, 2)[i], v, seq![], table).len() != 0,
    ensures
        all_of_violations(node, v, ptr, table, m).contains(
            (ptr + "/allOf/"@ + decimal(i as nat), "value failed an allOf branch"@),
        ),
    decreases m,
{
    let x = (ptr + "/allOf/"@ + decimal(i as nat), "value failed an allOf branch"@);
    let prev = all_of_violations(node, v, ptr, table, (m - 1) as nat);
    let last = when(
        violations(branches(node, 2)[m - 1], v, seq![], table).len() != 0,
        ptr + "/allOf/"@ + decimal((m - 1) as nat),
        "value failed an allOf branch"@,
    );
    assert(all_of_violations(node, v, ptr, table, m) == prev + last);
    if i < m - 1 {
        lemma_all_of_in(node, v, ptr, table, (m - 1) as nat, i);
        lemma_contains_left(prev, last, x);
    } else {
        assert(last[0] == x);
        lemma_contains_right(prev, last, x);
    }
}

#[verifier::rlimit(40)]
proof fn lemma_combinator_in(
    node: SchemaNode,
    v: JsonValue,
    ptr: Seq<char>,
    table: Seq<NumericOutcome>,
    x: (Seq<char>, Seq<char>),
    which: int,
)
    requires
        0 <= which < 4,
        (if which == 0 {
            one_of_part(node, v, ptr, table)
        } else if which == 1 {
            any_of_part(node, v, ptr, table)
        } else if which == 2 {
            all_of_part(node, v, ptr, table)
        } else {
            not_part(node, v, ptr, table)
        }).contains(x),
    ensures
        violations(node, v, ptr, table).contains(x),
{
    lemma_violations_parts(node, v, ptr, table);
    let l = local_violations(node, v, ptr, table) + item_violations(node, v, ptr, table, arr_len(v));
    let o1 = one_of_part(node, v, ptr, table);
    let a1 = any_of_part(node, v, ptr, table);
    let l1 = all_of_part(node, v, ptr, table);
    let n1 = not_part(node, v, ptr, table);
    let b1 = object_part(node, v, ptr, table);
    if which == 0 {
        lemma_contains_right(l, o1, x);
        lemma_contains_left(l + o1, a1, x);
        lemma_contains_left(l + o1 + a1, l1, x);
        lemma_contains_left(l + o1 + a1 + l1, n1, x);
    } else if which == 1 {
        lemma_contains_right(l + o1, a1, x);
        lemma_contains_left(l + o1 + a1, l1, x);
        lemma_contains_left(l + o1 + a1 + l1, n1, x);
    } else if which == 2 {
        lemma_contains_right(l + o1 + a1, l1, x);
        lemma_contains_left(l + o1 + a1 + l1, n1, x);
    } else {
        lemma_contains_right(l + o1 + a1 + l1, n1, x);
    }
    lemma_contains_left(l + o1 + a1 + l1 + n1, b1, x);
}

/// The combinators are reported at the node's pointer: when no `oneOf`
/// branch accepts the value, `value must match exactly one oneOf branch,
/// matched 0`; when no `anyOf` branch does, `value matched no anyOf
/// branch`; each `allOf` branch that rejects it, at `ptr/allOf/<index>`;
/// and a `not` schema that accepts it.
#[verifier::rlimit(40)]
pub proof fn law_combinators_reported(node: SchemaNode, v: JsonValue, ptr: Seq<char>, table: Seq<NumericOutcome>)
    ensures
        (node.one_of matches Some(subs) && forall|i: int|
            0 <= i < subs@.len() ==> violations(#[trigger] subs@[i], v, seq![], table).len() > 0)
            ==> violations(node, v, ptr, table).contains(
            (ptr, "value must match exactly one oneOf branch, matched "@ + decimal(0)),
        ),
        (node.any_of matches Some(subs) && forall|i: int|
            0 <= i < subs@.len() ==> violations(#[trigger] subs@[i], v, seq![], table).len() > 0)
            ==> violations(node, v, ptr, table).contains((ptr, "value matched no anyOf branch"@)),
        forall|i: int|
            (node.all_of is Some && 0 <= i < node.all_of->Some_0@.len() && violations(
                #[trigger] node.all_of->Some_0@[i],
                v,
                seq![],
                table,
            ).len() > 0) ==> violations(node, v, ptr, table).contains(
                (ptr + "/allOf/"@ + decimal(i as nat), "value failed an allOf branch"@),
            ),
        (node.not matches Some(sub) && violations(*sub, v, seq![], table).len() == 0) ==> violations(
            node,
            v,
            ptr,
            table,
        ).contains((ptr, "value matched a `not` schema"@)),
{
    if node.one_of matches Some(subs) && forall|i: int|
        0 <= i < subs@.len() ==> violations(#[trigger] subs@[i], v, seq![], table).len() > 0 {
        lemma_none_passing(node, v, table, 0, branches(node, 0).len());
        let x = (ptr, "value must match exactly one oneOf branch, matched "@ + decimal(0));
        assert(one_of_part(node, v, ptr, table)[0] == x);
        lemma_combinator_in(node, v, ptr, table, x, 0);
    }
    if node.any_of matches Some(subs) && forall|i: int|
        0 <= i < subs@.len() ==> violations(#[trigger] subs@[i], v, seq![], table).len() > 0 {
        lemma_none_passing(node, v, table, 1, branches(node, 1).len());
        let x = (ptr, "value matched no anyOf branch"@);
        assert(any_of_part(node, v, ptr, table)[0] == x);
        lemma_combinator_in(node, v, ptr, table, x, 1);
    }
    assert forall|i: int|
        (node.all_of is Some && 0 <= i < node.all_of->Some_0@.len() && violations(
            #[trigger] node.all_of->Some_0@[i],
            v,
            seq![],
            table,
        ).len() > 0) implies violations(node, v, ptr, table).contains(
        (ptr + "/allOf/"@ + decimal(i as nat), "value failed an allOf branch"@),
    ) by {
        lemma_all_of_in(node, v, ptr, table, branches(node, 2).len(), i);
        lemma_combinator_in(
            node,
            v,
            ptr,
            table,
            (ptr + "/allOf/"@ + decimal(i as nat), "value failed an allOf branch"@),
            2,
        );
    }
    if node.not matches Some(sub) && violations(*sub, v, seq![], table).len() == 0 {
        let x = (ptr, "value matched a `not` schema"@);
        assert(not_part(node, v, ptr, table)[0] == x);
        lemma_combinator_in(node, v, ptr, table, x, 3);
    }
}

} // verus!
