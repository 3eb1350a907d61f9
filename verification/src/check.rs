//! Postcondition checks: the verdict a check reaches, how a judge's reply
//! and a predicate registry's answer become one, and the built-in judge
//! prompt.

use vstd::prelude::*;

use crate::artifact::ArtifactReader;
use crate::error::RuntimeError;
use crate::options::TokenUsage;
use crate::outcome::RunOutcome;
use crate::output_store::{template_text, OutputStore, StepValue};
use crate::text::{concat2, debug_str, decimal, str_debug, str_eq, u64_to_decimal};

verus! {

/// Outcome of evaluating a postcondition check.
#[derive(Debug, Clone, PartialEq)]
pub struct CheckVerdict {
    /// Whether the postcondition held.
    pub met: bool,
    /// Human-readable rationale, fed into the retry loop.
    pub rationale: String,
}

} // verus!

verus! {

/// The prompt of the built-in judge for criterion `must_satisfy`.
pub open spec fn judge_prompt_text(must_satisfy: Seq<char>) -> Seq<char> {
    "You are a strict evaluator. Judge whether the artifact below satisfies this criterion:\n\n"@
        + must_satisfy + "\n\nReply ONLY with JSON: {\"met\": bool, \"rationale\": string}."@
}

/// Builds the built-in judge prompt embedding `must_satisfy`; it asks
/// for a reply of exactly `{"met": bool, "rationale": string}`.
pub fn builtin_judge_prompt(must_satisfy: &str) -> (s: String)
    ensures
        s@ == judge_prompt_text(must_satisfy@),
{
    let mut s = String::from_str(
        "You are a strict evaluator. Judge whether the artifact below satisfies this criterion:\n\n",
    );
    s.append(must_satisfy);
    s.append("\n\nReply ONLY with JSON: {\"met\": bool, \"rationale\": string}.");
    s
}

/// A deliverable judge's reply as a check outcome: the `{met, rationale}`
/// object parsed from the trimmed reply when there was one (`parsed`;
/// a missing rationale reads as empty), else not met with the raw reply
/// as the rationale.
pub fn judge_reply_verdict(text: &str, parsed: Option<(bool, String)>) -> (v: CheckVerdict)
    ensures
        match parsed {
            Some((m, r)) => v.met == m && v.rationale@ == r@,
            None => !v.met && v.rationale@ == text@,
        },
{
    match parsed {
        Some((m, r)) => CheckVerdict { met: m, rationale: r },
        None => CheckVerdict { met: false, rationale: String::from_str(text) },
    }
}

/// What a predicate registry answered, as the kernel reads it: a bare
/// boolean; an object with its `met` field (when a boolean) and its
/// `rationale` field (when a string); or any other value, by its JSON
/// text.
#[derive(Debug)]
pub enum RegistryReply {
    /// A bare boolean.
    Bool(bool),
    /// An object.
    Object { met: Option<bool>, rationale: Option<String> },
    /// Any other value, rendered as JSON text.
    Other(String),
}

/// The synthesized rationale for a predicate answer `met`.
pub open spec fn returned_text(predicate: Seq<char>, met: bool) -> Seq<char> {
    "goal predicate "@ + predicate + if met {
        " returned true"@
    } else {
        " returned false"@
    }
}

/// The verdict a registry answer stands for; `predicate` is the rendered
/// goal predicate named in synthesized rationales.
pub open spec fn normalized(raw: RegistryReply, predicate: Seq<char>, v: CheckVerdict) -> bool {
    match raw {
        RegistryReply::Bool(b) => v.met == b && v.rationale@ == returned_text(predicate, b),
        RegistryReply::Object { met, rationale } => {
            let m = match met {
                Some(b) => b,
                None => false,
            };
            &&& v.met == m
            &&& v.rationale@ == match rationale {
                Some(r) => r@,
                None => returned_text(predicate, m),
            }
        },
        RegistryReply::Other(t) => !v.met && v.rationale@ == "goal predicate "@ + predicate
            + " returned unexpected shape: "@ + t@,
    }
}

fn returned_text_exec(predicate: &str, met: bool) -> (s: String)
    ensures
        s@ == returned_text(predicate@, met),
{
    let mut s = String::from_str("goal predicate ");
    s.append(predicate);
    if met {
        s.append(" returned true");
    } else {
        s.append(" returned false");
    }
    s
}

/// Normalizes a registry answer into a check outcome; a boolean is the
/// verdict; an object's `met` (default false) and `rationale` (default
/// synthesized) are used; anything else is not met.
pub fn normalize_verdict(raw: RegistryReply, predicate: &str) -> (v: CheckVerdict)
    ensures
        normalized(raw, predicate@, v),
{
    match raw {
        RegistryReply::Bool(b) => CheckVerdict { met: b, rationale: returned_text_exec(predicate, b) },
        RegistryReply::Object { met, rationale } => {
            let m = match met {
                Some(b) => b,
                None => false,
            };
            let r = match rationale {
                Some(r) => r,
                None => returned_text_exec(predicate, m),
            };
            CheckVerdict { met: m, rationale: r }
        },
        RegistryReply::Other(t) => {
            let mut s = String::from_str("goal predicate ");
            s.append(predicate);
            s.append(" returned unexpected shape: ");
            s.append(t.as_str());
            CheckVerdict { met: false, rationale: s }
        },
    }
}

/// A judge agent's structured verdict.
#[derive(Debug, Clone, PartialEq)]
pub struct Verdict {
    /// Did the artifact satisfy the criterion?
    pub met: bool,
    /// Why.
    pub rationale: String,
}

/// The number of `{` minus the number of `}` in `t`.
pub open spec fn brace_depth(t: Seq<char>) -> int
    decreases t.len(),
{
    if t.len() == 0 {
        0
    } else {
        brace_depth(t.drop_last()) + if t.last() == '{' {
            1int
        } else if t.last() == '}' {
            -1int
        } else {
            0int
        }
    }
}

/// `st` is the position of the first `{` of `s`.
pub open spec fn first_open(s: Seq<char>, st: int) -> bool {
    0 <= st < s.len() && s[st] == '{' && forall|j: int| 0 <= j < st ==> s[j] != '{'
}

/// `s[st..e]` is balanced and no shorter prefix of it from `st` is.
pub open spec fn closes_at(s: Seq<char>, st: int, e: int) -> bool {
    &&& st < e <= s.len()
    &&& brace_depth(s.subrange(st, e)) == 0
    &&& forall|k: int| st < k < e ==> brace_depth(#[trigger] s.subrange(st, k)) > 0
}

/// The first balanced top-level `{...}` of `s`: from the first `{` to
/// the first point where the braces balance, if they do.
pub open spec fn first_json_object_spec(s: Seq<char>) -> Option<Seq<char>> {
    if exists|st: int, e: int| first_open(s, st) && closes_at(s, st, e) {
        let (st, e) = choose|st: int, e: int| first_open(s, st) && closes_at(s, st, e);
        Some(s.subrange(st, e))
    } else {
        None
    }
}

/// The first `{` is unique, and so is the end of its balanced span.
pub proof fn lemma_first_object_unique(s: Seq<char>, st1: int, e1: int, st2: int, e2: int)
    requires
        first_open(s, st1),
        closes_at(s, st1, e1),
        first_open(s, st2),
        closes_at(s, st2, e2),
    ensures
        st1 == st2,
        e1 == e2,
{
    if st1 < st2 {
        assert(s[st1] != '{');
    }
    if st2 < st1 {
        assert(s[st2] != '{');
    }
    if e1 < e2 {
        assert(brace_depth(s.subrange(st1, e1)) > 0);
    }
    if e2 < e1 {
        assert(brace_depth(s.subrange(st2, e2)) > 0);
    }
}

/// Returns the first balanced top-level `{...}` of `s`, if any.
pub fn first_json_object(s: &str) -> (r: Option<String>)
    ensures
        match r {
            Some(o) => first_json_object_spec(s@) == Some(o@),
            None => first_json_object_spec(s@) is None,
        },
{
    let cs = crate::text::chars_of(s);
    let mut st: usize = 0;
    while st < cs.len() && cs[st] != '{'
        invariant
            cs@ == s@,
            st <= cs@.len(),
            forall|j: int| 0 <= j < st ==> cs@[j] != '{',
        decreases cs@.len() - st,
    {
        st = st + 1;
    }
    if st == cs.len() {
        proof {
            assert forall|a: int, b: int| !(first_open(s@, a) && closes_at(s@, a, b)) by {}
        }
        return None;
    }
    let mut depth: usize = 0;
    let mut i: usize = st;
    assert(s@.subrange(st as int, st as int) =~= Seq::<char>::empty());
    while i < cs.len()
        invariant
            cs@ == s@,
            first_open(s@, st as int),
            st <= i <= cs@.len(),
            depth as int == brace_depth(s@.subrange(st as int, i as int)),
            forall|k: int| st < k <= i ==> brace_depth(#[trigger] s@.subrange(st as int, k)) > 0,
            i > st ==> depth > 0,
            depth <= i - st,
        decreases cs@.len() - i,
    {
        let c = cs[i];
        assert(s@.subrange(st as int, i + 1).drop_last() =~= s@.subrange(st as int, i as int));
        assert(s@.subrange(st as int, i + 1).last() == c);
        if c == '{' {
            depth = depth + 1;
        } else if c == '}' {
            depth = depth - 1;
            if depth == 0 {
                let o = crate::text::string_from_char_range(&cs, st, i + 1);
                proof {
                    assert(closes_at(s@, st as int, i + 1));
                    assert forall|a: int, b: int|
                        first_open(s@, a) && closes_at(s@, a, b) implies a == st && b == i + 1 by {
                        lemma_first_object_unique(s@, a, b, st as int, i + 1);
                    }
                }
                return Some(o);
            }
        }
        i = i + 1;
    }
    proof {
        assert forall|a: int, b: int| !(first_open(s@, a) && closes_at(s@, a, b)) by {
            if first_open(s@, a) && closes_at(s@, a, b) {
                assert(a == st) by {
                    if a < st {
                        assert(s@[a] != '{');
                    }
                    if st < a {
                        assert(s@[st as int] != '{');
                    }
                }
                assert(brace_depth(s@.subrange(st as int, b)) > 0);
            }
        }
    }
    None
}

/// The verdict of a judge agent's final text: the verdict parsed from
/// the first `{...}` of the text (`parsed`, what deserializing that
/// object gave, `None` when nothing was extracted or it did not parse),
/// else not met, with the raw text in the rationale.
pub fn settle_verdict(text: &str, parsed: Option<Verdict>) -> (v: Verdict)
    ensures
        match parsed {
            Some(p) => v == p,
            None => !v.met && v.rationale@ == "judge returned unparseable verdict, raw text: "@ + text@,
        },
{
    match parsed {
        Some(p) => p,
        None => Verdict {
            met: false,
            rationale: concat2("judge returned unparseable verdict, raw text: ", text),
        },
    }
}

} // verus!

verus! {

/// What `String::from_utf8_lossy` makes of `b`.
pub uninterp spec fn utf8_lossy(b: Seq<u8>) -> Seq<char>;

/// Decodes bytes as UTF-8, replacing invalid sequences (std
/// `String::from_utf8_lossy`). Stated: the result is the named decoding
/// of `b`; for valid UTF-8 it is exactly the text `b` encodes, as std
/// documents.
#[verifier::external_body]
fn lossy_utf8(b: &[u8]) -> (r: String)
    ensures
        r@ == utf8_lossy(b@),
        vstd::utf8::valid_utf8(b@) ==> r@ == vstd::utf8::decode_utf8(b@),
{
    String::from_utf8_lossy(b).into_owned()
}

/// How many non-overlapping matches of the regex `pattern` `text` holds
/// (regex `find_iter`), or `None` when `pattern` does not compile.
pub uninterp spec fn regex_match_count(pattern: Seq<char>, text: Seq<char>) -> Option<usize>;

/// The rendered error of a regex pattern that does not compile.
pub uninterp spec fn regex_error(pattern: Seq<char>) -> Seq<char>;

/// Compiles `pattern` with `regex::Regex::new` and counts its matches in
/// `text` with `find_iter`. Stated: the count, or the rendered compile
/// error, is the named result of the two arguments.
#[verifier::external_body]
fn regex_count(pattern: &str, text: &str) -> (r: Result<usize, String>)
    ensures
        match regex_match_count(pattern@, text@) {
            Some(n) => r == Ok::<usize, String>(n),
            None => r matches Err(e) && e@ == regex_error(pattern@),
        },
{
    match regex::Regex::new(pattern) {
        Ok(re) => Ok(re.find_iter(text).count()),
        Err(e) => Err(e.to_string()),
    }
}

/// The rendered error of parsing `b` as JSON (`serde_json::from_slice`),
/// `None` when it parses.
pub uninterp spec fn json_bytes_error(b: Seq<u8>) -> Option<Seq<char>>;

/// The rendered error of parsing `s` as JSON (`serde_json::from_str`),
/// `None` when it parses.
pub uninterp spec fn json_text_error(s: Seq<char>) -> Option<Seq<char>>;

/// The rendered error of building a validator
/// (`jsonschema::options().build`) from the JSON value that the text
/// `schema` holds, `None` when it builds.
pub uninterp spec fn schema_build_error(schema: Seq<char>) -> Option<Seq<char>>;

/// Whether the validator built from the schema text `schema` accepts the
/// JSON instance `b` (`Validator::is_valid`). It names the combination of
/// parsing both (serde_json), building the validator and asking it
/// (jsonschema); each is a function of its input alone, since jsonschema
/// is built here without its remote-reference resolution, so the
/// combination is a function of the two texts.
pub uninterp spec fn schema_accepts(schema: Seq<char>, b: Seq<u8>) -> bool;

/// Parses `b` with `serde_json::from_slice`. Stated: the rendered error
/// is the named result of the bytes.
#[verifier::external_body]
fn json_bytes_check(b: &[u8]) -> (r: Option<String>)
    ensures
        match json_bytes_error(b@) {
            Some(e) => r matches Some(m) && m@ == e,
            None => r is None,
        },
{
    serde_json::from_slice::<serde_json::Value>(b).err().map(|e| e.to_string())
}

/// Parses `s` with `serde_json::from_str`. Stated: the rendered error is
/// the named result of the text.
#[verifier::external_body]
fn json_text_check(s: &str) -> (r: Option<String>)
    ensures
        match json_text_error(s@) {
            Some(e) => r matches Some(m) && m@ == e,
            None => r is None,
        },
{
    serde_json::from_str::<serde_json::Value>(s).err().map(|e| e.to_string())
}

/// Builds a validator with `jsonschema::options().build` from the JSON
/// value of `schema` (which parses, by `requires`). Stated: the rendered
/// build error is the named result of the schema text, when the call
/// returns. Left unsaid: that it returns on every schema; jsonschema's
/// build path holds `expect` and `unwrap` calls whose conditions are not
/// all traced here, so a panic on some schema is not ruled out.
#[verifier::external_body]
fn schema_build_check(schema: &str) -> (r: Option<String>)
    requires
        json_text_error(schema@) is None,
    ensures
        match schema_build_error(schema@) {
            Some(e) => r matches Some(m) && m@ == e,
            None => r is None,
        },
{
    match serde_json::from_str::<serde_json::Value>(schema) {
        Ok(v) => jsonschema::options().build(&v).err().map(|e| e.to_string()),
        Err(e) => Some(e.to_string()),
    }
}

/// Asks the validator built from `schema` whether it accepts the JSON
/// instance `b` (`Validator::is_valid`); both parse and the schema builds,
/// by `requires`. Stated: the answer is the named result of the two, when
/// the call returns. Left unsaid: that it returns on every instance;
/// jsonschema's keyword validators (its `pattern` matching among them)
/// hold `expect` and `unwrap` calls whose conditions are not all traced
/// here.
#[verifier::external_body]
fn schema_validates(schema: &str, b: &[u8]) -> (r: bool)
    requires
        json_bytes_error(b@) is None,
        json_text_error(schema@) is None,
        schema_build_error(schema@) is None,
    ensures
        r == schema_accepts(schema@, b@),
{
    match (serde_json::from_str::<serde_json::Value>(schema), serde_json::from_slice::<serde_json::Value>(b)) {
        (Ok(s), Ok(v)) => jsonschema::options().build(&s).map(|val| val.is_valid(&v)).unwrap_or(false),
        _ => false,
    }
}

/// A deterministic goal predicate over a locus's bytes; patterns are
/// regexes, `SchemaValid` holds the schema's JSON text.
#[derive(Debug)]
pub enum Predicate {
    /// The locus exists.
    Exists,
    /// The locus exists and is non-empty.
    NonEmpty,
    /// The locus's text equals this.
    Equals(String),
    /// The pattern matches somewhere.
    Matches(String),
    /// The pattern matches at least `min` times.
    MinCount { pattern: String, min: u64 },
    /// The locus is JSON valid under this schema.
    SchemaValid(String),
    /// A native predicate, dispatched elsewhere.
    NativeFn(String),
}

/// Rationale for a missing locus.
pub open spec fn missing_text() -> Seq<char> {
    "locus does not exist"@
}

/// What counting the matches of `pattern` in `bytes` gives: the count,
/// or the rationale of the failure.
pub open spec fn match_count_spec(pattern: Seq<char>, bytes: Option<Seq<u8>>) -> Result<
    usize,
    Seq<char>,
> {
    match bytes {
        None => Err(missing_text()),
        Some(b) => match regex_match_count(pattern, utf8_lossy(b)) {
            Some(n) => Ok(n),
            None => Err("invalid regex "@ + str_debug(pattern) + ": "@ + regex_error(pattern)),
        },
    }
}

/// What evaluating `pred` on the locus bytes gives: pass or fail, and why.
pub open spec fn predicate_result(pred: Predicate, bytes: Option<Seq<u8>>) -> (bool, Seq<char>) {
    match pred {
        Predicate::Exists => match bytes {
            Some(_) => (true, "locus exists"@),
            None => (false, missing_text()),
        },
        Predicate::NonEmpty => match bytes {
            Some(b) => if b.len() > 0 {
                (true, "locus is non-empty"@)
            } else {
                (false, "locus is empty"@)
            },
            None => (false, missing_text()),
        },
        Predicate::Equals(expected) => match bytes {
            Some(b) => if utf8_lossy(b) == expected@ {
                (true, "locus equals expected"@)
            } else {
                (false, "locus does not equal expected value"@)
            },
            None => (false, missing_text()),
        },
        Predicate::Matches(pattern) => match match_count_spec(pattern@, bytes) {
            Err(e) => (false, e),
            Ok(n) => if n >= 1 {
                (true, "pattern matched"@)
            } else {
                (false, "pattern "@ + str_debug(pattern@) + " did not match"@)
            },
        },
        Predicate::MinCount { pattern, min } => match match_count_spec(pattern@, bytes) {
            Err(e) => (false, e),
            Ok(n) => if n >= min {
                (true, decimal(n as nat) + " matches >= "@ + decimal(min as nat))
            } else {
                (
                    false,
                    decimal(n as nat) + " matches of "@ + str_debug(pattern@) + ", need >= "@
                        + decimal(min as nat),
                )
            },
        },
        Predicate::SchemaValid(schema) => match bytes {
            Some(b) => match json_bytes_error(b) {
                Some(e) => (false, "locus is not valid JSON: "@ + e),
                None => match json_text_error(schema@) {
                    Some(e) => (false, "invalid schema: "@ + e),
                    None => match schema_build_error(schema@) {
                        Some(e) => (false, "invalid schema: "@ + e),
                        None => if schema_accepts(schema@, b) {
                            (true, "instance is schema-valid"@)
                        } else {
                            (false, "instance does not satisfy schema"@)
                        },
                    },
                },
            },
            None => (false, missing_text()),
        },
        Predicate::NativeFn(_) => (
            false,
            "native-fn predicate must be dispatched via the deterministic registry"@,
        ),
    }
}

fn match_count(pattern: &str, bytes: Option<&[u8]>) -> (r: Result<usize, String>)
    ensures
        match match_count_spec(
            pattern@,
            match bytes {
                Some(b) => Some(b@),
                None => None,
            },
        ) {
            Ok(n) => r == Ok::<usize, String>(n),
            Err(e) => r matches Err(m) && m@ == e,
        },
{
    match bytes {
        None => Err(String::from_str("locus does not exist")),
        Some(b) => {
            let text = lossy_utf8(b);
            match regex_count(pattern, text.as_str()) {
                Ok(n) => Ok(n),
                Err(e) => {
                    let mut m = String::from_str("invalid regex ");
                    let d = debug_str(pattern);
                    m.append(d.as_str());
                    m.append(": ");
                    m.append(e.as_str());
                    Err(m)
                },
            }
        },
    }
}

/// Evaluates a goal predicate against the locus bytes (`None` when the
/// locus does not exist), giving pass or fail and a rationale.
pub fn eval_predicate(pred: &Predicate, bytes: Option<&[u8]>) -> (r: (bool, String))
    ensures
        ({
            let expected = predicate_result(
                *pred,
                match bytes {
                    Some(b) => Some(b@),
                    None => None,
                },
            );
            r.0 == expected.0 && r.1@ == expected.1
        }),
{
    match pred {
        Predicate::Exists => match bytes {
            Some(_) => (true, String::from_str("locus exists")),
            None => (false, String::from_str("locus does not exist")),
        },
        Predicate::NonEmpty => match bytes {
            Some(b) => if b.len() > 0 {
                (true, String::from_str("locus is non-empty"))
            } else {
                (false, String::from_str("locus is empty"))
            },
            None => (false, String::from_str("locus does not exist")),
        },
        Predicate::Equals(expected) => match bytes {
            Some(b) => {
                let actual = lossy_utf8(b);
                if str_eq(actual.as_str(), expected.as_str()) {
                    (true, String::from_str("locus equals expected"))
                } else {
                    (false, String::from_str("locus does not equal expected value"))
                }
            },
            None => (false, String::from_str("locus does not exist")),
        },
        Predicate::Matches(pattern) => match match_count(pattern.as_str(), bytes) {
            Err(e) => (false, e),
            Ok(n) => if n >= 1 {
                (true, String::from_str("pattern matched"))
            } else {
                let mut m = String::from_str("pattern ");
                let d = debug_str(pattern.as_str());
                m.append(d.as_str());
                m.append(" did not match");
                (false, m)
            },
        },
        Predicate::MinCount { pattern, min } => match match_count(pattern.as_str(), bytes) {
            Err(e) => (false, e),
            Ok(n) => {
                let mut m = u64_to_decimal(n as u64);
                if n as u64 >= *min {
                    m.append(" matches >= ");
                    let d = u64_to_decimal(*min);
                    m.append(d.as_str());
                    (true, m)
                } else {
                    m.append(" matches of ");
                    let d = debug_str(pattern.as_str());
                    m.append(d.as_str());
                    m.append(", need >= ");
                    let k = u64_to_decimal(*min);
                    m.append(k.as_str());
                    (false, m)
                }
            },
        },
        Predicate::SchemaValid(schema) => match bytes {
            Some(b) => match json_bytes_check(b) {
                Some(e) => (false, concat2("locus is not valid JSON: ", e.as_str())),
                None => match json_text_check(schema.as_str()) {
                    Some(e) => (false, concat2("invalid schema: ", e.as_str())),
                    None => match schema_build_check(schema.as_str()) {
                        Some(e) => (false, concat2("invalid schema: ", e.as_str())),
                        None => if schema_validates(schema.as_str(), b) {
                            (true, String::from_str("instance is schema-valid"))
                        } else {
                            (false, String::from_str("instance does not satisfy schema"))
                        },
                    },
                },
            },
            None => (false, String::from_str("locus does not exist")),
        },
        Predicate::NativeFn(_) => (
            false,
            String::from_str("native-fn predicate must be dispatched via the deterministic registry"),
        ),
    }
}


/// Where a check looks: a pipeline step's output, or a file path.
#[derive(Debug)]
pub enum Locus {
    /// The output of the step with this id.
    Output(String),
    /// The artifact at this path.
    Path(String),
}

/// The rendering of a locus by `{:?}`.
pub open spec fn locus_debug(l: Locus) -> Seq<char> {
    match l {
        Locus::Output(id) => "Output("@ + str_debug(id@) + ")"@,
        Locus::Path(p) => "Path("@ + str_debug(p@) + ")"@,
    }
}

/// Renders a locus as `{:?}` does (see [`locus_debug`]).
pub fn locus_to_debug(l: &Locus) -> (s: String)
    ensures
        s@ == locus_debug(*l),
{
    let (head, inner) = match l {
        Locus::Output(id) => ("Output(", id),
        Locus::Path(p) => ("Path(", p),
    };
    let mut s = String::from_str(head);
    let d = debug_str(inner.as_str());
    s.append(d.as_str());
    s.append(")");
    s
}

/// Whether a path-located artifact exists, and its text: present with
/// its bytes decoded (lossily) when bytes came back, absent when nothing
/// did; a read error passes through.
pub fn located_read(read: Result<Option<Vec<u8>>, RuntimeError>) -> (r: Result<
    (bool, Option<String>),
    RuntimeError,
>)
    ensures
        match read {
            Ok(Some(b)) => r matches Ok((p, Some(t))) && p && t@ == utf8_lossy(b@),
            Ok(None) => r matches Ok((p, None)) && !p,
            Err(e) => r matches Err(e2) && e2 == e,
        },
{
    match read {
        Ok(Some(b)) => Ok((true, Some(lossy_utf8(b.as_slice())))),
        Ok(None) => Ok((false, None)),
        Err(e) => Err(e),
    }
}

/// The text a stored output contributes.
fn output_text(v: &StepValue) -> (s: String)
    ensures
        s@ == template_text(*v),
{
    match v {
        StepValue::Str(t) => t.clone(),
        StepValue::Json(t) => t.clone(),
    }
}

/// Resolves a locus to whether its artifact exists and its text. A step
/// output is looked up in `store` (its template text); a path is read
/// through `reader`, and is an internal error when there is none.
pub fn resolve_locus<R: ArtifactReader>(locus: &Locus, store: &OutputStore, reader: Option<&R>) -> (r:
    Result<(bool, Option<String>), RuntimeError>)
    ensures
        locus matches Locus::Output(id) ==> match store.output(id@) {
            Some(v) => r matches Ok((p, Some(t))) && p && t@ == template_text(v),
            None => r matches Ok((p, None)) && !p,
        },
        locus matches Locus::Path(pth) ==> (reader is None ==> (r matches Err(
            RuntimeError::Internal { message },
        ) && message@ == "check needs an artifact reader to read "@ + pth@)),
        (locus is Path && reader is Some) ==> (r matches Ok((p, c)) ==> (p <==> c is Some)),
{
    match locus {
        Locus::Output(id) => match store.get(id.as_str()) {
            Some(v) => Ok((true, Some(output_text(v)))),
            None => Ok((false, None)),
        },
        Locus::Path(p) => match reader {
            None => Err(
                RuntimeError::Internal {
                    message: concat2("check needs an artifact reader to read ", p.as_str()),
                },
            ),
            Some(r) => {
                let read = r.read_path(p.as_str());
                located_read(read)
            },
        },
    }
}

/// The existence floor of a deliverable check: an absent artifact fails
/// the check without consulting the judge; a present one hands its text
/// (empty when it has none) on to the judge.
pub fn deliverable_floor(locus: &Locus, present: bool, content: Option<String>) -> (r: Result<
    String,
    CheckVerdict,
>)
    ensures
        !present ==> (r matches Err(v) && !v.met && v.rationale@ == "deliverable "@ + locus_debug(
            *locus,
        ) + " was not produced"@),
        present ==> (r matches Ok(a) && a@ == match content {
            Some(c) => c@,
            None => seq![],
        }),
{
    if !present {
        let mut t = String::from_str("deliverable ");
        let d = locus_to_debug(locus);
        t.append(d.as_str());
        t.append(" was not produced");
        Err(CheckVerdict { met: false, rationale: t })
    } else {
        match content {
            Some(c) => Ok(c),
            None => Ok(String::new()),
        }
    }
}

/// The agent a judge runs as: its id, system prompt and model.
#[derive(Debug)]
pub struct JudgeAgent {
    /// Agent id.
    pub id: String,
    /// System prompt.
    pub prompt: String,
    /// Model name.
    pub model: String,
}

/// The system prompt of the built-in judge.
pub open spec fn builtin_judge_instructions() -> Seq<char> {
    "You are a strict, terse deliverable evaluator. You are given a CRITERION and an ARTIFACT. Decide whether the artifact satisfies the criterion. Respond with ONLY a JSON object and nothing else, in exactly this shape: {\"met\": <true|false>, \"rationale\": \"<one sentence explaining why>\"}. Do not include any prose outside the JSON object."@
}

/// The built-in judge: id `__builtin_judge`, the built-in instructions,
/// and `model`, or the host's `default_model` when none is chosen.
pub fn builtin_judge_agent(model: Option<String>, default_model: &str) -> (a: JudgeAgent)
    ensures
        a.id@ == "__builtin_judge"@,
        a.prompt@ == builtin_judge_instructions(),
        a.model@ == match model {
            Some(m) => m@,
            None => default_model@,
        },
{
    JudgeAgent {
        id: String::from_str("__builtin_judge"),
        prompt: String::from_str(
            "You are a strict, terse deliverable evaluator. You are given a CRITERION and an ARTIFACT. Decide whether the artifact satisfies the criterion. Respond with ONLY a JSON object and nothing else, in exactly this shape: {\"met\": <true|false>, \"rationale\": \"<one sentence explaining why>\"}. Do not include any prose outside the JSON object.",
        ),
        model: match model {
            Some(m) => m,
            None => String::from_str(default_model),
        },
    }
}

/// The judge's user turn: the criterion, then the artifact's text
/// (decoded lossily), or `<artifact missing>` when there is none.
pub fn judge_user_turn(must_satisfy: &str, artifact: Option<&[u8]>) -> (s: String)
    ensures
        s@ == "CRITERION:\n"@ + must_satisfy@ + "\n\nARTIFACT:\n"@ + match artifact {
            Some(b) => utf8_lossy(b@),
            None => "<artifact missing>"@,
        },
{
    let mut s = String::from_str("CRITERION:\n");
    s.append(must_satisfy);
    s.append("\n\nARTIFACT:\n");
    match artifact {
        Some(b) => {
            let t = lossy_utf8(b);
            s.append(t.as_str());
        },
        None => s.append("<artifact missing>"),
    }
    s
}

/// The error for a judge agent the module does not hold.
pub fn missing_judge_error(id: &str) -> (e: RuntimeError)
    ensures
        e matches RuntimeError::Internal { message } && message@ == "judge agent "@ + id@
            + " not found (typecheck should have caught this)"@,
{
    let mut m = String::from_str("judge agent ");
    m.append(id);
    m.append(" not found (typecheck should have caught this)");
    RuntimeError::Internal { message: m }
}

/// The token usage a judge run is billed: its outcome's, completed or
/// failed.
pub fn judge_usage(outcome: &RunOutcome) -> (u: TokenUsage)
    ensures
        u == outcome.usage(),
{
    match outcome {
        RunOutcome::Completed { token_usage, .. } => *token_usage,
        RunOutcome::Failed { token_usage, .. } => *token_usage,
    }
}

/// When a goal predicate passes, over every locus: `Exists` when the
/// locus exists; `NonEmpty` when it exists and holds a byte; `Equals`
/// when its text (lossy UTF-8) has exactly the expected characters, no
/// more and no fewer; `Matches` when the pattern compiles and matches at
/// least once, `MinCount` at least `min` times; `SchemaValid` when the
/// locus is JSON, the schema builds and accepts it; a native predicate
/// never. A missing locus passes no predicate.
pub proof fn law_predicate_passes(pred: Predicate, bytes: Option<Seq<u8>>)
    ensures
        predicate_result(pred, bytes).0 <==> match pred {
            Predicate::Exists => bytes is Some,
            Predicate::NonEmpty => bytes matches Some(b) && b.len() > 0,
            Predicate::Equals(e) => bytes matches Some(b) && utf8_lossy(b).len() == e@.len()
                && forall|i: int| 0 <= i < e@.len() ==> #[trigger] utf8_lossy(b)[i] == e@[i],
            Predicate::Matches(p) => bytes matches Some(b) && regex_match_count(p@, utf8_lossy(b))
                matches Some(n) && n >= 1,
            Predicate::MinCount { pattern, min } => bytes matches Some(b) && regex_match_count(
                pattern@,
                utf8_lossy(b),
            ) matches Some(n) && n >= min,
            Predicate::SchemaValid(s) => bytes matches Some(b) && json_bytes_error(b) is None
                && json_text_error(s@) is None && schema_build_error(s@) is None && schema_accepts(
                s@,
                b,
            ),
            Predicate::NativeFn(_) => false,
        },
        bytes is None ==> !predicate_result(pred, bytes).0,
{
    match pred {
        Predicate::Equals(e) => {
            if let Some(b) = bytes {
                if utf8_lossy(b).len() == e@.len() && forall|i: int|
                    0 <= i < e@.len() ==> #[trigger] utf8_lossy(b)[i] == e@[i] {
                    assert(utf8_lossy(b) =~= e@);
                }
            }
        },
        _ => {},
    }
}

} // verus!
