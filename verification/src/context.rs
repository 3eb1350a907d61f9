//! Per-turn context transformers over the conversation, applied before
//! history is projected to the LLM: `trim_old`, `compact_tool_outputs`
//! and `fit_budget`, with the token estimator they budget against.
//!
//! A *turn* is one user text message plus the messages that follow it;
//! messages before the first user text belong to an implicit turn at
//! index 0. The last turn is the *live* turn and is never dropped or
//! compacted.

use vstd::prelude::*;

use crate::message::{
    clone_address, clone_message, is_turn_start, is_turn_start_exec, lemma_utf8_len_concat,
    messages_fit, payload_fits, str_bytes, text_fits, utf8_len, Message, MessagePayload,
};
use crate::ids::hex_digit;
use crate::text::{chars_of, decimal, str_eq, string_from_chars, u64_to_decimal};

verus! {

/// Estimates the token cost of one message. Implementations must be a
/// function of the message: `spec_estimate` names what `estimate` returns.
pub trait TokenEstimator {
    /// The estimate of `m`.
    spec fn spec_estimate(&self, m: Message) -> u32;

    /// Approximate token count for one message.
    fn estimate(&self, msg: &Message) -> (r: u32)
        requires
            payload_fits(msg.payload),
        ensures
            r == self.spec_estimate(*msg),
    ;
}

/// `ceil(bytes / 4)` plus a fixed per-message overhead of 4 tokens.
#[derive(Debug, Clone, Copy, Default)]
pub struct HeuristicEstimator;

/// Per-message structural overhead, in tokens.
pub const MESSAGE_OVERHEAD: u32 = 4;

/// The byte length of a payload as the heuristic counts it: text and
/// custom fields by their UTF-8 length, JSON values by the length of
/// their serialized text, lifecycle notices as nothing.
pub open spec fn payload_bytes(p: MessagePayload) -> nat {
    match p {
        MessagePayload::Text { content } => utf8_len(content@),
        MessagePayload::ToolCall { args } => utf8_len(args@),
        MessagePayload::ToolResult { body } => utf8_len(body@),
        MessagePayload::ToolError { kind, message, details } => utf8_len(kind@) + utf8_len(
            message@,
        ) + match details {
            Some(d) => utf8_len(d@),
            None => 0,
        },
        MessagePayload::Lifecycle(_) => 0,
        MessagePayload::Custom { kind, body } => utf8_len(kind@) + utf8_len(body@),
    }
}

/// `min(ceil(bytes / 4), u32::MAX)`, then the overhead added saturating.
pub open spec fn heuristic_tokens(bytes: nat) -> u32 {
    let approx: int = ((bytes + 3) / 4) as int;
    let clamped: int = if approx > u32::MAX { u32::MAX as int } else { approx };
    if clamped + MESSAGE_OVERHEAD > u32::MAX {
        u32::MAX
    } else {
        (clamped + MESSAGE_OVERHEAD) as u32
    }
}

impl HeuristicEstimator {
    fn payload_bytes(payload: &MessagePayload) -> (n: u128)
        requires
            payload_fits(*payload),
        ensures
            n == payload_bytes(*payload),
    {
        match payload {
            MessagePayload::Text { content } => str_bytes(content.as_str()) as u128,
            MessagePayload::ToolCall { args } => str_bytes(args.as_str()) as u128,
            MessagePayload::ToolResult { body } => str_bytes(body.as_str()) as u128,
            MessagePayload::ToolError { kind, message, details } => {
                let d: u128 = match details {
                    Some(d) => str_bytes(d.as_str()) as u128,
                    None => 0,
                };
                str_bytes(kind.as_str()) as u128 + str_bytes(message.as_str()) as u128 + d
            },
            MessagePayload::Lifecycle(_) => 0,
            MessagePayload::Custom { kind, body } => str_bytes(kind.as_str()) as u128 + str_bytes(
                body.as_str(),
            ) as u128,
        }
    }
}

impl TokenEstimator for HeuristicEstimator {
    open spec fn spec_estimate(&self, m: Message) -> u32 {
        heuristic_tokens(payload_bytes(m.payload))
    }

    fn estimate(&self, msg: &Message) -> (r: u32) {
        let bytes = Self::payload_bytes(&msg.payload);
        let q: u128 = bytes / 4 + if bytes % 4 != 0 {
            1u128
        } else {
            0u128
        };
        assert(q == (bytes + 3) / 4);
        let approx: u32 = if q > u32::MAX as u128 {
            u32::MAX
        } else {
            q as u32
        };
        approx.saturating_add(MESSAGE_OVERHEAD)
    }
}

/// The context handed to a transformer: the estimator and the agent's
/// system prompt, if any.
pub struct TransformCx<'a, E: TokenEstimator> {
    estimator: &'a E,
    system_prompt: Option<&'a str>,
}

impl<'a, E: TokenEstimator> TransformCx<'a, E> {
    /// The estimator this context carries.
    pub closed spec fn spec_estimator(&self) -> E {
        *self.estimator
    }

    /// The system prompt this context carries.
    pub closed spec fn prompt(&self) -> Option<Seq<char>> {
        match self.system_prompt {
            Some(s) => Some(s@),
            None => None,
        }
    }

    /// A context over `estimator` and `system_prompt`.
    pub fn pure(estimator: &'a E, system_prompt: Option<&'a str>) -> (cx: Self)
        ensures
            cx.spec_estimator() == *estimator,
            cx.prompt() == (match system_prompt {
                Some(s) => Some(s@),
                None => None::<Seq<char>>,
            }),
    {
        TransformCx { estimator, system_prompt }
    }

    /// Estimate one message's token cost.
    pub fn estimate_tokens(&self, msg: &Message) -> (r: u32)
        requires
            payload_fits(msg.payload),
        ensures
            r == self.spec_estimator().spec_estimate(*msg),
    {
        self.estimator.estimate(msg)
    }

    /// The agent's system prompt, if any.
    pub fn system_prompt(&self) -> (r: Option<&str>)
        ensures
            match r {
                Some(s) => self.prompt() == Some(s@),
                None => self.prompt() is None,
            },
    {
        self.system_prompt
    }
}

/// Error returned by a context transformer or the pipeline runner.
#[derive(Debug, Clone, PartialEq, Eq)]
pub enum ContextError {
    /// Protected content (system prompt + live turn) alone exceeds the budget.
    BudgetUnsatisfiable { protected_tokens: u32, max_tokens: u32 },
    /// A transformer failed internally.
    Transformer { name: String, detail: String },
}

/// The rendered message of a context error.
pub open spec fn context_error_text(e: ContextError) -> Seq<char> {
    match e {
        ContextError::BudgetUnsatisfiable { protected_tokens, max_tokens } =>
            "context budget unsatisfiable: protected "@ + decimal(protected_tokens as nat)
            + " tokens > max "@ + decimal(max_tokens as nat),
        ContextError::Transformer { name, detail } => "context transformer '"@ + name@
            + "' failed: "@ + detail@,
    }
}

impl ContextError {
    /// The rendered message.
    pub fn to_string(&self) -> (s: String)
        ensures
            s@ == context_error_text(*self),
    {
        match self {
            ContextError::BudgetUnsatisfiable { protected_tokens, max_tokens } => {
                let mut s = String::from_str("context budget unsatisfiable: protected ");
                let p = u64_to_decimal(*protected_tokens as u64);
                s.append(p.as_str());
                s.append(" tokens > max ");
                let m = u64_to_decimal(*max_tokens as u64);
                s.append(m.as_str());
                s
            },
            ContextError::Transformer { name, detail } => {
                let mut s = String::from_str("context transformer '");
                s.append(name.as_str());
                s.append("' failed: ");
                s.append(detail.as_str());
                s
            },
        }
    }
}

/// The indices below `n` of the messages that open a turn, ascending.
pub open spec fn user_turn_starts(msgs: Seq<Message>, n: nat) -> Seq<usize>
    decreases n,
{
    if n == 0 {
        seq![]
    } else {
        let prev = user_turn_starts(msgs, (n - 1) as nat);
        if is_turn_start(msgs[n - 1]) {
            prev.push((n - 1) as usize)
        } else {
            prev
        }
    }
}

/// The start index of each turn, ascending: the user text messages, with
/// an implicit turn at 0 first when the first message opens none.
pub open spec fn turn_starts(msgs: Seq<Message>) -> Seq<usize> {
    let s = user_turn_starts(msgs, msgs.len());
    if s.len() > 0 && s[0] == 0 {
        s
    } else {
        seq![0usize] + s
    }
}

/// The start of the live (last) turn.
pub open spec fn live_start(msgs: Seq<Message>) -> usize {
    turn_starts(msgs).last()
}

/// The turn starts below `n` are strictly ascending and below `n`.
pub proof fn lemma_user_turn_starts(msgs: Seq<Message>, n: nat)
    requires
        n <= usize::MAX,
    ensures
        forall|j: int|
            0 <= j < user_turn_starts(msgs, n).len() ==> user_turn_starts(msgs, n)[j] < n,
        forall|i: int, j: int|
            0 <= i < j < user_turn_starts(msgs, n).len() ==> user_turn_starts(msgs, n)[i]
                < user_turn_starts(msgs, n)[j],
        user_turn_starts(msgs, n).len() <= n,
    decreases n,
{
    if n > 0 {
        lemma_user_turn_starts(msgs, (n - 1) as nat);
    }
}

/// The turn starts are strictly ascending, begin at 0, and lie within
/// the message list.
pub proof fn lemma_turn_starts(msgs: Seq<Message>)
    requires
        msgs.len() <= usize::MAX,
    ensures
        turn_starts(msgs).len() >= 1,
        turn_starts(msgs)[0] == 0,
        turn_starts(msgs).len() <= msgs.len() + 1,
        forall|j: int|
            0 <= j < turn_starts(msgs).len() ==> turn_starts(msgs)[j] <= msgs.len(),
        forall|i: int, j: int|
            0 <= i < j < turn_starts(msgs).len() ==> turn_starts(msgs)[i] < turn_starts(
                msgs,
            )[j],
{
    lemma_user_turn_starts(msgs, msgs.len());
    let s = user_turn_starts(msgs, msgs.len());
    if !(s.len() > 0 && s[0] == 0) {
        let t = seq![0usize] + s;
        assert forall|i: int, j: int| 0 <= i < j < t.len() implies t[i] < t[j] by {
            if i > 0 {
                assert(t[i] == s[i - 1]);
            } else {
                assert(s[j - 1] > 0 || j - 1 > 0);
                if j - 1 > 0 {
                    assert(s[0] < s[j - 1]);
                }
            }
        }
    }
}

/// The turn start indices of `msgs`, ascending.
fn turn_starts_exec(msgs: &Vec<Message>) -> (starts: Vec<usize>)
    ensures
        starts@ == turn_starts(msgs@),
        msgs@.len() <= usize::MAX,
{
    let mut starts: Vec<usize> = Vec::new();
    let mut i: usize = 0;
    while i < msgs.len()
        invariant
            i <= msgs@.len(),
            starts@ == user_turn_starts(msgs@, i as nat),
        decreases msgs@.len() - i,
    {
        if is_turn_start_exec(&msgs[i]) {
            starts.push(i);
        }
        i = i + 1;
    }
    if !(starts.len() > 0 && starts[0] == 0) {
        starts.insert(0, 0);
        assert(starts@ =~= seq![0usize] + user_turn_starts(msgs@, msgs@.len()));
    }
    proof {
        lemma_turn_starts(msgs@);
    }
    starts
}

/// A transformer config entry: the key and, where the value is a
/// non-negative integer that fits in `u64`, that integer.
pub type ConfigEntry = (String, Option<u64>);

/// The integer under `key` in a config map (keys are unique), if the
/// entry exists and holds one.
pub open spec fn config_u64(cfg: Seq<ConfigEntry>, key: Seq<char>) -> Option<u64>
    decreases cfg.len(),
{
    if cfg.len() == 0 {
        None
    } else if cfg[0].0@ == key {
        cfg[0].1
    } else {
        config_u64(cfg.drop_first(), key)
    }
}

fn config_u64_exec(cfg: &Vec<ConfigEntry>, key: &str) -> (r: Option<u64>)
    ensures
        r == config_u64(cfg@, key@),
{
    let mut i: usize = 0;
    assert(cfg@.skip(0) =~= cfg@);
    while i < cfg.len()
        invariant
            i <= cfg@.len(),
            config_u64(cfg@, key@) == config_u64(cfg@.skip(i as int), key@),
        decreases cfg@.len() - i,
    {
        assert(cfg@.skip(i as int).drop_first() =~= cfg@.skip(i + 1));
        if str_eq(cfg[i].0.as_str(), key) {
            return cfg[i].1;
        }
        i = i + 1;
    }
    None
}

/// Drop all but the `keep_last_turns` most recent turns; `0` keeps
/// everything, and the live turn is always kept.
#[derive(Debug, Clone)]
pub struct TrimOld {
    /// Number of turns to retain, counting from the end.
    pub keep_last_turns: u32,
}

/// What `trim_old` keeps of `msgs`.
pub open spec fn trim_old(keep: u32, msgs: Seq<Message>) -> Seq<Message> {
    let starts = turn_starts(msgs);
    if keep == 0 || (starts.len() as u32) <= keep {
        msgs
    } else {
        msgs.skip(starts[starts.len() - keep] as int)
    }
}

impl TrimOld {
    /// Build from a transformer config: `keep_last_turns`, default 8,
    /// truncated to `u32`.
    pub fn from_config(cfg: &Vec<ConfigEntry>) -> (t: Self)
        ensures
            t.keep_last_turns == (match config_u64(cfg@, "keep_last_turns"@) {
                Some(v) => v as u32,
                None => 8u32,
            }),
    {
        let keep: u64 = match config_u64_exec(cfg, "keep_last_turns") {
            Some(v) => v,
            None => 8,
        };
        TrimOld { keep_last_turns: keep as u32 }
    }

    /// Keep the last `keep_last_turns` turns of `msgs`.
    pub fn apply(&self, msgs: Vec<Message>) -> (out: Vec<Message>)
        ensures
            out@ == trim_old(self.keep_last_turns, msgs@),
    {
        if self.keep_last_turns == 0 {
            return msgs;
        }
        let starts = turn_starts_exec(&msgs);
        if (starts.len() as u32) <= self.keep_last_turns {
            return msgs;
        }
        proof {
            lemma_turn_starts(msgs@);
        }
        let keep_from_turn = starts.len() - self.keep_last_turns as usize;
        let cut = starts[keep_from_turn];
        let mut msgs = msgs;
        let out = msgs.split_off(cut);
        out
    }
}

} // verus!

verus! {

/// How serde_json writes one character inside a string: `\"`, `\\`,
/// `\b`, `\f`, `\n`, `\r`, `\t` for those, `\u00XX` (lowercase hex)
/// for the other control characters, and any other character as it is.
pub open spec fn json_escape_char(c: char) -> Seq<char> {
    let n = c as u32;
    if c == '"' {
        seq!['\\', '"']
    } else if c == '\\' {
        seq!['\\', '\\']
    } else if n == 8 {
        seq!['\\', 'b']
    } else if n == 12 {
        seq!['\\', 'f']
    } else if c == '\n' {
        seq!['\\', 'n']
    } else if c == '\r' {
        seq!['\\', 'r']
    } else if c == '\t' {
        seq!['\\', 't']
    } else if n < 0x20 {
        seq!['\\', 'u', '0', '0', hex_digit((n / 16) as int), hex_digit((n % 16) as int)]
    } else {
        seq![c]
    }
}

/// The characters of `s`, each as serde_json writes it inside a string.
pub open spec fn json_escaped(s: Seq<char>) -> Seq<char>
    decreases s.len(),
{
    if s.len() == 0 {
        seq![]
    } else {
        json_escaped(s.drop_last()) + json_escape_char(s.last())
    }
}

/// The serialized JSON text of a JSON string holding `s`
/// (`serde_json::to_string` on a string): `s`, escaped, between double
/// quotes.
pub open spec fn json_string_literal(s: Seq<char>) -> Seq<char> {
    seq!['"'] + json_escaped(s) + seq!['"']
}

/// A character that JSON string serialization writes as it is: any but a
/// control character, `"` and `\`.
pub open spec fn json_plain_char(c: char) -> bool {
    c >= ' ' && c != '"' && c != '\\'
}

/// Serializes `s` as a JSON string (`serde_json::to_string` on `&str`,
/// whose escape table holds only the control characters, `"` and `\`).
/// Stated: the result is `s` escaped between double quotes
/// ([`json_string_literal`]), which is `s` itself between double quotes
/// where no character of `s` needs escaping. Serializing a string into
/// memory cannot fail.
#[verifier::external_body]
pub(crate) fn json_quote(s: &str) -> (r: String)
    ensures
        r@ == json_string_literal(s@),
        (forall|i: int| 0 <= i < s@.len() ==> json_plain_char(#[trigger] s@[i])) ==> r@ == seq![
            '"',
        ] + s@ + seq!['"'],
{
    serde_json::to_string(s).unwrap_or_default()
}

/// Truncate the JSON text of `ToolResult` bodies in non-live turns to
/// `max_bytes`.
#[derive(Debug, Clone)]
pub struct CompactToolOutputs {
    /// Maximum serialized byte length allowed for a tool-result body.
    pub max_bytes: usize,
}

/// How many leading characters of `s` fit in `max` bytes of UTF-8: the
/// characters are taken in order while the next one still fits.
pub open spec fn kept_chars(s: Seq<char>, max: int) -> nat
    decreases s.len(),
{
    if s.len() == 0 {
        0
    } else if utf8_len(seq![s[0]]) <= max {
        1 + kept_chars(s.drop_first(), max - utf8_len(seq![s[0]]))
    } else {
        0
    }
}

/// The longest character prefix of `s` whose UTF-8 encoding is at most
/// `max` bytes long.
pub open spec fn kept_prefix(s: Seq<char>, max: usize) -> Seq<char> {
    s.take(kept_chars(s, max as int) as int)
}

/// The kept prefix is at most `max` bytes long, and it is the longest
/// such prefix: one more character would exceed `max` bytes.
pub proof fn lemma_kept_prefix(s: Seq<char>, max: int)
    requires
        max >= 0,
    ensures
        kept_chars(s, max) <= s.len(),
        utf8_len(s.take(kept_chars(s, max) as int)) <= max,
        kept_chars(s, max) < s.len() ==> utf8_len(s.take(kept_chars(s, max) + 1int)) > max,
    decreases s.len(),
{
    let k = kept_chars(s, max);
    if s.len() == 0 {
        assert(s.take(0) =~= Seq::<char>::empty());
    } else {
        let w = utf8_len(seq![s[0]]);
        let rest = s.drop_first();
        if w <= max {
            lemma_kept_prefix(rest, max - w);
            let kr = kept_chars(rest, max - w);
            assert(s.take(k as int) =~= seq![s[0]] + rest.take(kr as int));
            lemma_utf8_len_concat(seq![s[0]], rest.take(kr as int));
            if k < s.len() {
                assert(s.take(k + 1int) =~= seq![s[0]] + rest.take(kr + 1int));
                lemma_utf8_len_concat(seq![s[0]], rest.take(kr + 1int));
            }
        } else {
            assert(s.take(0) =~= Seq::<char>::empty());
            assert(s.take(1) =~= seq![s[0]]);
        }
    }
}

/// The UTF-8 width of `c` (1 to 4 bytes).
fn char_width(c: char) -> (w: usize)
    ensures
        w == utf8_len(seq![c]),
        1 <= w <= 4,
{
    let u = c as u32;
    proof {
        vstd::utf8::char_is_scalar(c);
        let s1 = seq![c];
        assert(s1[0] == c);
        assert(s1.drop_first() =~= Seq::<char>::empty());
        assert(vstd::utf8::encode_utf8(Seq::<char>::empty()) == Seq::<u8>::empty());
        assert(vstd::utf8::encode_utf8(s1) == vstd::utf8::encode_scalar(c as u32)
            + vstd::utf8::encode_utf8(s1.drop_first()));
        assert(vstd::utf8::encode_utf8(s1) =~= vstd::utf8::encode_scalar(u));
    }
    if u <= 0x7F {
        1
    } else if u <= 0x7FF {
        2
    } else if u <= 0xFFFF {
        3
    } else {
        4
    }
}

/// The replacement text of an over-long body `s`:
/// `<kept prefix>…[truncated N bytes]…`, `N` the bytes dropped.
pub open spec fn truncation_marker(s: Seq<char>, max: usize) -> Seq<char> {
    let kept = kept_prefix(s, max);
    kept + "\u{2026}[truncated "@ + decimal((utf8_len(s) - utf8_len(kept)) as nat)
        + " bytes]\u{2026}"@
}

/// `o` is what `compact_tool_outputs` makes of message `m` at index `i`,
/// the live turn starting at `live`: a tool result before the live turn
/// whose body is longer than `max` bytes gets the serialized truncation
/// marker as its body; every other message is kept as it is.
pub open spec fn compacted(max: usize, live: usize, i: int, m: Message, o: Message) -> bool {
    match m.payload {
        MessagePayload::ToolResult { body } => if i < live && utf8_len(body@) > max {
            &&& o.id == m.id
            &&& o.timestamp_millis == m.timestamp_millis
            &&& o.sender == m.sender
            &&& o.recipient == m.recipient
            &&& o.payload matches MessagePayload::ToolResult { body: nb }
            &&& nb@ == json_string_literal(truncation_marker(body@, max))
        } else {
            o == m
        },
        _ => o == m,
    }
}

/// The body that replaces an over-long `body`.
fn truncated_body(body: &str, max: usize) -> (r: String)
    requires
        text_fits(body@),
        utf8_len(body@) > max,
    ensures
        r@ == json_string_literal(truncation_marker(body@, max)),
{
    let cs = chars_of(body);
    let mut kept_cs: Vec<char> = Vec::new();
    let mut used: usize = 0;
    let mut i: usize = 0;
    proof {
        assert(cs@.skip(0) =~= cs@);
        assert(cs@.take(0) =~= Seq::<char>::empty());
    }
    while i < cs.len() && char_width(cs[i]) <= max - used
        invariant
            cs@ == body@,
            i <= cs@.len(),
            used <= max,
            used == utf8_len(cs@.take(i as int)),
            kept_cs@ == cs@.take(i as int),
            kept_chars(cs@, max as int) == i + kept_chars(cs@.skip(i as int), max - used),
        decreases cs@.len() - i,
    {
        let w = char_width(cs[i]);
        let ghost rest = cs@.skip(i as int);
        assert(rest[0] == cs@[i as int]);
        assert(rest.drop_first() =~= cs@.skip(i + 1));
        proof {
            assert(cs@.take(i + 1) =~= cs@.take(i as int) + seq![cs@[i as int]]);
            lemma_utf8_len_concat(cs@.take(i as int), seq![cs@[i as int]]);
        }
        kept_cs.push(cs[i]);
        used = used + w;
        i = i + 1;
        assert(kept_cs@ =~= cs@.take(i as int));
    }
    proof {
        let rest = cs@.skip(i as int);
        if i == cs@.len() {
            assert(rest.len() == 0);
        } else {
            assert(rest[0] == cs@[i as int]);
        }
    }
    assert(kept_cs@ =~= kept_prefix(body@, max));
    let kept = string_from_chars(kept_cs.as_slice());
    proof {
        let k = kept_prefix(body@, max);
        assert(body@ =~= k + body@.skip(k.len() as int));
        lemma_utf8_len_concat(k, body@.skip(k.len() as int));
    }
    let dropped = str_bytes(body) - str_bytes(kept.as_str());
    let mut marker = kept;
    marker.append("\u{2026}[truncated ");
    let d = u64_to_decimal(dropped as u64);
    marker.append(d.as_str());
    marker.append(" bytes]\u{2026}");
    json_quote(marker.as_str())
}

impl CompactToolOutputs {
    /// Build from a transformer config: `max_bytes`, default 1024.
    pub fn from_config(cfg: &Vec<ConfigEntry>) -> (t: Self)
        ensures
            t.max_bytes == (match config_u64(cfg@, "max_bytes"@) {
                Some(v) => v as usize,
                None => 1024usize,
            }),
    {
        let max: u64 = match config_u64_exec(cfg, "max_bytes") {
            Some(v) => v,
            None => 1024,
        };
        CompactToolOutputs { max_bytes: max as usize }
    }

    /// Compact the tool results of every turn but the live one.
    pub fn apply(&self, msgs: Vec<Message>) -> (out: Vec<Message>)
        requires
            messages_fit(msgs@),
        ensures
            out@.len() == msgs@.len(),
            forall|i: int|
                0 <= i < msgs@.len() ==> compacted(
                    self.max_bytes,
                    live_start(msgs@),
                    i,
                    #[trigger] msgs@[i],
                    out@[i],
                ),
    {
        let starts = turn_starts_exec(&msgs);
        proof {
            lemma_turn_starts(msgs@);
        }
        let live = starts[starts.len() - 1];
        let mut out: Vec<Message> = Vec::new();
        let mut i: usize = 0;
        while i < msgs.len()
            invariant
                i <= msgs@.len(),
                live == live_start(msgs@),
                messages_fit(msgs@),
                out@.len() == i,
                forall|j: int|
                    0 <= j < i ==> compacted(
                        self.max_bytes,
                        live,
                        j,
                        #[trigger] msgs@[j],
                        out@[j],
                    ),
            decreases msgs@.len() - i,
        {
            let m = &msgs[i];
            assert(payload_fits(msgs@[i as int].payload));
            let mut replaced = false;
            if i < live {
                if let MessagePayload::ToolResult { body } = &m.payload {
                    if str_bytes(body.as_str()) > self.max_bytes {
                        let nb = truncated_body(body.as_str(), self.max_bytes);
                        out.push(
                            Message {
                                id: m.id.clone(),
                                timestamp_millis: m.timestamp_millis,
                                sender: clone_address(&m.sender),
                                recipient: clone_address(&m.recipient),
                                payload: MessagePayload::ToolResult { body: nb },
                            },
                        );
                        replaced = true;
                    }
                }
            }
            if !replaced {
                out.push(clone_message(m));
            }
            i = i + 1;
        }
        out
    }
}

/// The sum of the estimates of `ms`.
pub open spec fn est_sum<E: TokenEstimator>(e: E, ms: Seq<Message>) -> nat
    decreases ms.len(),
{
    if ms.len() == 0 {
        0
    } else {
        est_sum(e, ms.drop_last()) + (e.spec_estimate(ms.last()) as nat)
    }
}

/// The estimate of a concatenation is the sum of the estimates.
pub proof fn lemma_est_sum_concat<E: TokenEstimator>(e: E, a: Seq<Message>, b: Seq<Message>)
    ensures
        est_sum(e, a + b) == est_sum(e, a) + est_sum(e, b),
    decreases b.len(),
{
    if b.len() == 0 {
        assert(a + b =~= a);
    } else {
        assert((a + b).drop_last() =~= a + b.drop_last());
        assert((a + b).last() == b.last());
        lemma_est_sum_concat(e, a, b.drop_last());
    }
}

/// The system prompt's cost: `ceil(len / 4)` of its byte length
/// truncated to `u32`.
pub open spec fn prompt_tokens(p: Option<Seq<char>>) -> u32 {
    match p {
        Some(s) => (((utf8_len(s) as u32) + 3) / 4) as u32,
        None => 0,
    }
}

/// `a + b`, saturating at `u32::MAX`.
pub open spec fn sat_add_u32(a: u32, b: nat) -> u32 {
    if a + b > u32::MAX {
        u32::MAX
    } else {
        (a + b) as u32
    }
}

/// The tokens of what can never be dropped: system prompt and live turn.
pub open spec fn protected_tokens<E: TokenEstimator>(
    e: E,
    prompt: Option<Seq<char>>,
    msgs: Seq<Message>,
) -> u32 {
    sat_add_u32(prompt_tokens(prompt), est_sum(e, msgs.skip(live_start(msgs) as int)))
}

/// Cutting `msgs` before index `cut` ends the search: what is left fits
/// `max`, or `cut` is already the live turn.
pub open spec fn cut_fits<E: TokenEstimator>(
    e: E,
    prompt: Option<Seq<char>>,
    msgs: Seq<Message>,
    max: u32,
    cut: usize,
) -> bool {
    sat_add_u32(prompt_tokens(prompt), est_sum(e, msgs.skip(cut as int))) <= max || cut
        >= live_start(msgs)
}

/// Drop turns, oldest first, until the estimate fits `max_tokens`; the
/// system prompt and live turn are never dropped.
#[derive(Debug, Clone)]
pub struct FitBudget {
    /// Token budget.
    pub max_tokens: u32,
}

fn sum_estimates<E: TokenEstimator>(cx: &TransformCx<'_, E>, msgs: &Vec<Message>, from: usize) -> (r:
    u32)
    requires
        from <= msgs@.len(),
        messages_fit(msgs@),
        est_sum(cx.spec_estimator(), msgs@.skip(from as int)) <= u32::MAX,
    ensures
        r == est_sum(cx.spec_estimator(), msgs@.skip(from as int)),
{
    let ghost e = cx.spec_estimator();
    let mut acc: u32 = 0;
    let mut i: usize = from;
    assert(msgs@.subrange(from as int, from as int) =~= Seq::<Message>::empty());
    while i < msgs.len()
        invariant
            from <= i <= msgs@.len(),
            messages_fit(msgs@),
            e == cx.spec_estimator(),
            est_sum(e, msgs@.skip(from as int)) <= u32::MAX,
            acc == est_sum(e, msgs@.subrange(from as int, i as int)),
        decreases msgs@.len() - i,
    {
        assert(payload_fits(msgs@[i as int].payload));
        let x = cx.estimate_tokens(&msgs[i]);
        proof {
            let a = msgs@.subrange(from as int, i + 1);
            assert(a.drop_last() =~= msgs@.subrange(from as int, i as int));
            assert(msgs@.skip(from as int) =~= a + msgs@.subrange(i + 1, msgs@.len() as int));
            lemma_est_sum_concat(e, a, msgs@.subrange(i + 1, msgs@.len() as int));
        }
        acc = acc + x;
        i = i + 1;
    }
    assert(msgs@.subrange(from as int, msgs@.len() as int) =~= msgs@.skip(from as int));
    acc
}

impl FitBudget {
    /// Build from a transformer config: `max_tokens`, default 8192,
    /// truncated to `u32`.
    pub fn from_config(cfg: &Vec<ConfigEntry>) -> (t: Self)
        ensures
            t.max_tokens == (match config_u64(cfg@, "max_tokens"@) {
                Some(v) => v as u32,
                None => 8192u32,
            }),
    {
        let max: u64 = match config_u64_exec(cfg, "max_tokens") {
            Some(v) => v,
            None => 8192,
        };
        FitBudget { max_tokens: max as u32 }
    }

    /// Drop the oldest turns until the estimate fits, or fail when the
    /// protected content alone exceeds the budget. The token sums must
    /// not overflow `u32` (std panics on an overflowing sum).
    pub fn apply<E: TokenEstimator>(&self, cx: &TransformCx<'_, E>, msgs: Vec<Message>) -> (r:
        Result<Vec<Message>, ContextError>)
        requires
            messages_fit(msgs@),
            cx.prompt() matches Some(p) ==> text_fits(p),
            est_sum(cx.spec_estimator(), msgs@.skip(live_start(msgs@) as int)) <= u32::MAX,
            protected_tokens(cx.spec_estimator(), cx.prompt(), msgs@) <= self.max_tokens
                ==> est_sum(cx.spec_estimator(), msgs@) <= u32::MAX,
        ensures
            ({
                let e = cx.spec_estimator();
                let protected = protected_tokens(e, cx.prompt(), msgs@);
                let starts = turn_starts(msgs@);
                match r {
                    Err(err) => protected > self.max_tokens && err
                        == ContextError::BudgetUnsatisfiable {
                        protected_tokens: protected,
                        max_tokens: self.max_tokens,
                    },
                    Ok(out) => protected <= self.max_tokens && exists|k: int|
                        0 <= k < starts.len() && cut_fits(
                            e,
                            cx.prompt(),
                            msgs@,
                            self.max_tokens,
                            #[trigger] starts[k],
                        ) && (forall|j: int|
                            0 <= j < k ==> !cut_fits(
                                e,
                                cx.prompt(),
                                msgs@,
                                self.max_tokens,
                                #[trigger] starts[j],
                            )) && out@ == msgs@.skip(starts[k] as int),
                }
            }),
            r matches Ok(out) ==> exists|c: int|
                0 <= c <= live_start(msgs@) && out@ == #[trigger] msgs@.skip(c),
    {
        let ghost e = cx.spec_estimator();
        let sys_tokens: u32 = match cx.system_prompt() {
            Some(s) => {
                let n = str_bytes(s) as u32;
                n / 4 + if n % 4 != 0 {
                    1u32
                } else {
                    0u32
                }
            },
            None => 0,
        };
        assert(sys_tokens == prompt_tokens(cx.prompt()));
        let starts = turn_starts_exec(&msgs);
        proof {
            lemma_turn_starts(msgs@);
        }
        let live = starts[starts.len() - 1];
        let live_tokens = sum_estimates(cx, &msgs, live);
        let protected = sys_tokens.saturating_add(live_tokens);
        if protected > self.max_tokens {
            return Err(
                ContextError::BudgetUnsatisfiable {
                    protected_tokens: protected,
                    max_tokens: self.max_tokens,
                },
            );
        }
        let mut cut_turn: usize = 0;
        loop
            invariant
                cut_turn < starts@.len(),
                starts@.len() <= usize::MAX,
                starts@ == turn_starts(msgs@),
                starts@.len() >= 1,
                starts@[0] == 0,
                live == starts@.last(),
                live == live_start(msgs@),
                sys_tokens == prompt_tokens(cx.prompt()),
                e == cx.spec_estimator(),
                messages_fit(msgs@),
                est_sum(e, msgs@) <= u32::MAX,
                protected_tokens(e, cx.prompt(), msgs@) <= self.max_tokens,
                forall|j: int| 0 <= j < starts@.len() ==> starts@[j] <= msgs@.len(),
                forall|i: int, j: int| 0 <= i < j < starts@.len() ==> starts@[i] < starts@[j],
                forall|j: int|
                    0 <= j < cut_turn ==> !cut_fits(
                        e,
                        cx.prompt(),
                        msgs@,
                        self.max_tokens,
                        #[trigger] starts@[j],
                    ),
            decreases starts@.len() - cut_turn,
        {
            let cut = if cut_turn == 0 {
                0
            } else {
                starts[cut_turn]
            };
            assert(cut == starts@[cut_turn as int]);
            proof {
                assert(msgs@ =~= msgs@.take(cut as int) + msgs@.skip(cut as int));
                lemma_est_sum_concat(e, msgs@.take(cut as int), msgs@.skip(cut as int));
            }
            let rest = sum_estimates(cx, &msgs, cut);
            let total = sys_tokens.saturating_add(rest);
            if total <= self.max_tokens || cut >= live {
                assert(cut_fits(e, cx.prompt(), msgs@, self.max_tokens, starts@[cut_turn as int]));
                assert(cut <= live) by {
                    if cut_turn < starts@.len() - 1 {
                        assert(starts@[cut_turn as int] < starts@[starts@.len() - 1]);
                    }
                }
                let mut msgs = msgs;
                let out = msgs.split_off(cut);
                return Ok(out);
            }
            assert(cut_turn + 1 < starts@.len());
            cut_turn = cut_turn + 1;
        }
    }
}

} // verus!

verus! {

/// `trim_old` only ever drops a prefix of whole turns before the live
/// turn: what it keeps is `msgs` from some cut at or before the live turn.
pub proof fn law_trim_old_keeps_live_turn(keep: u32, msgs: Seq<Message>)
    requires
        msgs.len() <= usize::MAX,
    ensures
        exists|c: int| 0 <= c <= live_start(msgs) && trim_old(keep, msgs) == #[trigger] msgs.skip(c),
{
    lemma_turn_starts(msgs);
    let starts = turn_starts(msgs);
    if keep == 0 || (starts.len() as u32) <= keep {
        assert(msgs.skip(0) =~= msgs);
        assert(trim_old(keep, msgs) == msgs.skip(0));
    } else {
        let c = starts[starts.len() - keep] as int;
        if starts.len() - keep < starts.len() - 1 {
            assert(starts[starts.len() - keep] < starts[starts.len() - 1]);
        }
        assert(trim_old(keep, msgs) == msgs.skip(c));
    }
}

/// Compacting tool outputs never touches the live turn: every message
/// from the live turn's start on comes out as it went in, and so does
/// every message that is not an over-long tool result.
pub proof fn law_compact_keeps_live_turn(max: usize, msgs: Seq<Message>, out: Seq<Message>)
    requires
        msgs.len() <= usize::MAX,
        out.len() == msgs.len(),
        forall|i: int|
            0 <= i < msgs.len() ==> compacted(max, live_start(msgs), i, #[trigger] msgs[i], out[i]),
    ensures
        out.subrange(live_start(msgs) as int, out.len() as int) == msgs.subrange(
            live_start(msgs) as int,
            msgs.len() as int,
        ),
        forall|i: int|
            0 <= i < msgs.len() && !(msgs[i].payload is ToolResult) ==> #[trigger] out[i] == msgs[i],
{
    let live = live_start(msgs) as int;
    lemma_turn_starts(msgs);
    {
        assert forall|j: int| 0 <= j < msgs.len() - live implies out.subrange(live, out.len() as int)[j]
            == msgs.subrange(live, msgs.len() as int)[j] by {
            assert(compacted(max, live_start(msgs), live + j, msgs[live + j], out[live + j]));
        }
        assert(out.subrange(live, out.len() as int) =~= msgs.subrange(live, msgs.len() as int));
    }
    assert forall|i: int| 0 <= i < msgs.len() && !(msgs[i].payload is ToolResult) implies #[trigger] out[i]
        == msgs[i] by {
        assert(compacted(max, live_start(msgs), i, msgs[i], out[i]));
    }
}

/// `trim_old` with `keep_last_turns == 0` keeps everything.
pub proof fn law_trim_old_zero_keeps_all(msgs: Seq<Message>)
    ensures
        trim_old(0, msgs) == msgs,
{
}

} // verus!

verus! {

/// Whether a configured pipeline step names a builtin or a custom node.
#[derive(Debug, Clone, Copy, PartialEq, Eq, Structural)]
pub enum ContextNodeKind {
    /// One of the three builtins.
    Builtin,
    /// A user-supplied node, resolved through a registry.
    Custom,
}

/// One configured step of an agent's context pipeline.
#[derive(Debug)]
pub struct ContextStep {
    /// Transformer name.
    pub transformer: String,
    /// Builtin or custom.
    pub kind: ContextNodeKind,
    /// The step's config entries.
    pub config: Vec<ConfigEntry>,
}

/// A resolved pipeline node.
#[derive(Debug)]
pub enum ContextNode {
    /// `trim_old`.
    TrimOld(TrimOld),
    /// `compact_tool_outputs`.
    CompactToolOutputs(CompactToolOutputs),
    /// `fit_budget`.
    FitBudget(FitBudget),
    /// A custom node the registry resolves, by name.
    Custom(String),
}

/// The names the builtins answer to.
pub open spec fn is_builtin_name(n: Seq<char>) -> bool {
    n == "trim_old"@ || n == "compact_tool_outputs"@ || n == "fit_budget"@
}

/// A step resolves: a builtin with a known name, or a custom node the
/// registry (the names it resolves) holds.
pub open spec fn step_resolves(step: ContextStep, registry: Option<Seq<Seq<char>>>) -> bool {
    match step.kind {
        ContextNodeKind::Builtin => is_builtin_name(step.transformer@),
        ContextNodeKind::Custom => registry matches Some(names) && names.contains(step.transformer@),
    }
}

/// The error a step that does not resolve gives.
pub open spec fn step_error(step: ContextStep, registry: Option<Seq<Seq<char>>>) -> Seq<char> {
    match step.kind {
        ContextNodeKind::Builtin => "unknown builtin context transformer '"@ + step.transformer@
            + "'"@,
        ContextNodeKind::Custom => match registry {
            None => "custom context node '"@ + step.transformer@ + "' but no registry provided"@,
            Some(_) => "custom context node '"@ + step.transformer@ + "' not registered"@,
        },
    }
}

/// `node` is what a resolving `step` builds: the named builtin from the
/// step's config, or the named custom node.
pub open spec fn node_of(step: ContextStep, node: ContextNode) -> bool {
    match step.kind {
        ContextNodeKind::Builtin => if step.transformer@ == "trim_old"@ {
            node matches ContextNode::TrimOld(t) && t.keep_last_turns == (match config_u64(
                step.config@,
                "keep_last_turns"@,
            ) {
                Some(v) => v as u32,
                None => 8u32,
            })
        } else if step.transformer@ == "compact_tool_outputs"@ {
            node matches ContextNode::CompactToolOutputs(t) && t.max_bytes == (match config_u64(
                step.config@,
                "max_bytes"@,
            ) {
                Some(v) => v as usize,
                None => 1024usize,
            })
        } else {
            node matches ContextNode::FitBudget(t) && t.max_tokens == (match config_u64(
                step.config@,
                "max_tokens"@,
            ) {
                Some(v) => v as u32,
                None => 8192u32,
            })
        },
        ContextNodeKind::Custom => node matches ContextNode::Custom(n) && n@ == step.transformer@,
    }
}

fn contains_name(names: &Vec<String>, n: &str) -> (r: bool)
    ensures
        r == names@.map_values(|s: String| s@).contains(n@),
{
    let mut i: usize = 0;
    while i < names.len()
        invariant
            i <= names@.len(),
            forall|j: int| 0 <= j < i ==> names@[j]@ != n@,
        decreases names@.len() - i,
    {
        if str_eq(names[i].as_str(), n) {
            assert(names@.map_values(|s: String| s@)[i as int] == n@);
            return true;
        }
        i = i + 1;
    }
    false
}

/// Builds an agent's context pipeline from its configured steps: each
/// builtin by name from its config, each custom node through the
/// registry (`registry`: the names it resolves). The first step that
/// does not resolve fails the build with an internal error.
pub fn build_context_pipeline(steps: &Vec<ContextStep>, registry: Option<&Vec<String>>) -> (r:
    Result<Vec<ContextNode>, crate::error::RuntimeError>)
    ensures
        ({
            let reg = match registry {
                Some(v) => Some(v@.map_values(|s: String| s@)),
                None => None,
            };
            match r {
                Ok(out) => out@.len() == steps@.len() && forall|i: int|
                    0 <= i < steps@.len() ==> step_resolves(#[trigger] steps@[i], reg) && node_of(
                        steps@[i],
                        out@[i],
                    ),
                Err(e) => exists|k: int|
                    0 <= k < steps@.len() && !step_resolves(#[trigger] steps@[k], reg) && (forall|
                        i: int,
                    | 0 <= i < k ==> step_resolves(#[trigger] steps@[i], reg)) && (e matches crate::error::RuntimeError::Internal {
                        message,
                    } && message@ == step_error(steps@[k], reg)),
            }
        }),
{
    let ghost reg = match registry {
        Some(v) => Some(v@.map_values(|s: String| s@)),
        None => None,
    };
    let mut out: Vec<ContextNode> = Vec::new();
    let mut i: usize = 0;
    while i < steps.len()
        invariant
            i <= steps@.len(),
            reg == match registry {
                Some(v) => Some(v@.map_values(|s: String| s@)),
                None => None::<Seq<Seq<char>>>,
            },
            out@.len() == i,
            forall|j: int| 0 <= j < i ==> step_resolves(#[trigger] steps@[j], reg) && node_of(steps@[j], out@[j]),
        decreases steps@.len() - i,
    {
        let step = &steps[i];
        let name = step.transformer.as_str();
        let node = match step.kind {
            ContextNodeKind::Builtin => {
                if str_eq(name, "trim_old") {
                    ContextNode::TrimOld(TrimOld::from_config(&step.config))
                } else if str_eq(name, "compact_tool_outputs") {
                    ContextNode::CompactToolOutputs(CompactToolOutputs::from_config(&step.config))
                } else if str_eq(name, "fit_budget") {
                    ContextNode::FitBudget(FitBudget::from_config(&step.config))
                } else {
                    let mut m = String::from_str("unknown builtin context transformer '");
                    m.append(name);
                    m.append("'");
                    return Err(crate::error::RuntimeError::Internal { message: m });
                }
            },
            ContextNodeKind::Custom => match registry {
                None => {
                    let mut m = String::from_str("custom context node '");
                    m.append(name);
                    m.append("' but no registry provided");
                    return Err(crate::error::RuntimeError::Internal { message: m });
                },
                Some(names) => {
                    if contains_name(names, name) {
                        ContextNode::Custom(step.transformer.clone())
                    } else {
                        let mut m = String::from_str("custom context node '");
                        m.append(name);
                        m.append("' not registered");
                        return Err(crate::error::RuntimeError::Internal { message: m });
                    }
                },
            },
        };
        out.push(node);
        i = i + 1;
    }
    Ok(out)
}

impl ContextNode {
    /// The node's name: the builtin's own name, or the custom node's.
    pub fn name(&self) -> (s: String)
        ensures
            s@ == match *self {
                ContextNode::TrimOld(_) => "trim_old"@,
                ContextNode::CompactToolOutputs(_) => "compact_tool_outputs"@,
                ContextNode::FitBudget(_) => "fit_budget"@,
                ContextNode::Custom(n) => n@,
            },
    {
        match self {
            ContextNode::TrimOld(_) => String::from_str("trim_old"),
            ContextNode::CompactToolOutputs(_) => String::from_str("compact_tool_outputs"),
            ContextNode::FitBudget(_) => String::from_str("fit_budget"),
            ContextNode::Custom(n) => n.clone(),
        }
    }
}

proof fn lemma_user_starts_split(m: Seq<Message>, c: nat, n: nat)
    requires
        c <= n <= m.len(),
    ensures
        user_turn_starts(m, n).len() == user_turn_starts(m, c).len() + user_turn_starts(
            m.skip(c as int),
            (n - c) as nat,
        ).len(),
    decreases n,
{
    if n > c {
        lemma_user_starts_split(m, c, (n - 1) as nat);
        assert(m.skip(c as int)[(n - c - 1) as int] == m[n - 1]);
    }
}

proof fn lemma_user_starts_prefix(m: Seq<Message>, c: nat, n: nat)
    requires
        c <= n <= m.len(),
        n <= usize::MAX,
    ensures
        user_turn_starts(m, c).len() <= user_turn_starts(m, n).len(),
        forall|i: int|
            0 <= i < user_turn_starts(m, c).len() ==> #[trigger] user_turn_starts(m, n)[i]
                == user_turn_starts(m, c)[i],
        forall|i: int|
            user_turn_starts(m, c).len() <= i < user_turn_starts(m, n).len() ==> #[trigger] user_turn_starts(m, n)[i]
                >= c,
    decreases n,
{
    if n > c {
        lemma_user_starts_prefix(m, c, (n - 1) as nat);
    }
}

proof fn lemma_first_start_zero(m: Seq<Message>, n: nat)
    requires
        0 < n <= m.len(),
        n <= usize::MAX,
        is_turn_start(m[0]),
    ensures
        user_turn_starts(m, n).len() > 0,
        user_turn_starts(m, n)[0] == 0,
{
    lemma_user_starts_prefix(m, 1, n);
    assert(user_turn_starts(m, 0).len() == 0);
    assert(user_turn_starts(m, 1) =~= seq![0usize]);
}

/// The number of user turn starts below `c`, where `c` is the user turn
/// start at position `idx`, is `idx`.
proof fn lemma_starts_below(m: Seq<Message>, idx: int)
    requires
        m.len() <= usize::MAX,
        0 <= idx < user_turn_starts(m, m.len()).len(),
    ensures
        user_turn_starts(m, user_turn_starts(m, m.len())[idx] as nat).len() == idx,
{
    let u = user_turn_starts(m, m.len());
    let c = u[idx] as nat;
    lemma_user_turn_starts(m, m.len());
    lemma_user_turn_starts(m, c);
    lemma_user_starts_prefix(m, c, m.len());
    let w = user_turn_starts(m, c);
    if w.len() < idx {
        assert(u[w.len() as int] >= c);
        assert(u[w.len() as int] < u[idx]);
    } else if w.len() > idx {
        assert(u[idx] == w[idx]);
        assert(w[idx] < c);
    }
}

/// A user turn start opens a turn.
proof fn lemma_user_start_opens(m: Seq<Message>, n: nat, j: int)
    requires
        0 <= j < user_turn_starts(m, n).len(),
        n <= m.len(),
        m.len() <= usize::MAX,
    ensures
        user_turn_starts(m, n)[j] < m.len(),
        is_turn_start(m[user_turn_starts(m, n)[j] as int]),
    decreases n,
{
    if n > 0 {
        let prev = user_turn_starts(m, (n - 1) as nat);
        if j < prev.len() {
            lemma_user_start_opens(m, (n - 1) as nat, j);
        }
    }
}

/// `trim_old` keeps the last `keep` turns: with no limit, or no more turns
/// than the limit, the conversation stays whole; otherwise what is kept is
/// the conversation from the start of a turn on, and it holds exactly
/// `keep` turns. (Turns are counted in 32 bits, as the limit is.)
pub proof fn law_trim_old_keeps_last_turns(keep: u32, msgs: Seq<Message>)
    requires
        msgs.len() <= usize::MAX,
        turn_starts(msgs).len() <= u32::MAX,
    ensures
        (keep == 0 || turn_starts(msgs).len() <= keep) ==> trim_old(keep, msgs) == msgs,
        (keep > 0 && turn_starts(msgs).len() > keep) ==> ({
            &&& turn_starts(trim_old(keep, msgs)).len() == keep
            &&& exists|c: int|
                0 < c < msgs.len() && is_turn_start(msgs[c]) && trim_old(keep, msgs)
                    == #[trigger] msgs.skip(c)
        }),
{
    lemma_turn_starts(msgs);
    let starts = turn_starts(msgs);
    let u = user_turn_starts(msgs, msgs.len());
    lemma_user_turn_starts(msgs, msgs.len());
    if keep > 0 && starts.len() > keep {
        let j = starts.len() - keep;
        assert(j >= 1);
        let c = starts[j];
        // the position of `c` among the user turn starts
        let idx: int = if u.len() > 0 && u[0] == 0 {
            j
        } else {
            assert(starts =~= seq![0usize] + u);
            j - 1
        };
        assert(u[idx] == c);
        lemma_user_start_opens(msgs, msgs.len(), idx);
        if idx == 0 {
            assert(u[0] == 0 ==> starts == u);
        }
        assert(c > 0) by {
            assert(starts[0] == 0);
            assert(starts[0] < starts[j]);
        }
        let out = msgs.skip(c as int);
        assert(trim_old(keep, msgs) == out);
        lemma_starts_below(msgs, idx);
        lemma_user_starts_split(msgs, c as nat, msgs.len());
        assert(out.len() == msgs.len() - c);
        lemma_first_start_zero(out, out.len());
        assert(out[0] == msgs[c as int]);
        let uo = user_turn_starts(out, out.len());
        assert(uo.len() == u.len() - idx);
        assert(turn_starts(out) == uo);
        assert(trim_old(keep, msgs) == msgs.skip(c as int));
    }
}

} // verus!
