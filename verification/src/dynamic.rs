//! Dynamic-region spawn admission: the bounds accounting shared by every
//! `agent.<kind>.spawn` tool of one region, and the texts its admission check hands
//! back to the model.

use vstd::prelude::*;

use crate::skill::{replace_all, replace_all_exec};
use crate::text::{chars_of, concat2, decimal, string_from_char_range, u64_to_decimal};

verus! {

/// Per-region bounds accounting: spawns ever admitted, and spawns in
/// flight.
pub struct RegionCounters {
    max_spawns: u64,
    max_concurrency: u64,
    spawned: u64,
    in_flight: u64,
}

/// Typed admission refusal with the snapshot that explains it.
#[derive(Debug, Clone, Copy, PartialEq, Eq)]
pub enum AdmitError {
    /// The lifetime spawn budget `max_spawns` is exhausted.
    Bounds { spawned: u64, max: u64 },
    /// `max_concurrency` spawns are already in flight.
    Concurrency { in_flight: u64, max: u64 },
}

/// One `try_admit` step from `before` to `after` answering `r`: a bounds
/// refusal changes nothing; otherwise one `spawned` slot is reserved, and
/// either the spawn is admitted (index = slots reserved before, one more
/// in flight) or refused for concurrency (in-flight unchanged).
pub open spec fn admit_step(before: RegionCounters, after: RegionCounters, r: Result<u64, AdmitError>) -> bool {
    &&& after.spec_max_spawns() == before.spec_max_spawns()
    &&& after.spec_max_concurrency() == before.spec_max_concurrency()
    &&& before.spec_spawned() >= before.spec_max_spawns() ==> {
        &&& r == Err::<u64, AdmitError>(
            AdmitError::Bounds { spawned: before.spec_spawned(), max: before.spec_max_spawns() },
        )
        &&& after.spec_spawned() == before.spec_spawned()
        &&& after.spec_in_flight() == before.spec_in_flight()
    }
    &&& before.spec_spawned() < before.spec_max_spawns() ==> {
        &&& after.spec_spawned() == before.spec_spawned() + 1
        &&& if before.spec_in_flight() + 1 > before.spec_max_concurrency() {
            &&& r == Err::<u64, AdmitError>(
                AdmitError::Concurrency {
                    in_flight: before.spec_in_flight(),
                    max: before.spec_max_concurrency(),
                },
            )
            &&& after.spec_in_flight() == before.spec_in_flight()
        } else {
            &&& r == Ok::<u64, AdmitError>(before.spec_spawned())
            &&& after.spec_in_flight() == before.spec_in_flight() + 1
        }
    }
}

impl RegionCounters {
    /// Lifetime spawn budget.
    pub closed spec fn spec_max_spawns(&self) -> u64 {
        self.max_spawns
    }

    /// Concurrency bound.
    pub closed spec fn spec_max_concurrency(&self) -> u64 {
        self.max_concurrency
    }

    /// Spawns admitted so far (attempts refused for concurrency count too).
    pub closed spec fn spec_spawned(&self) -> u64 {
        self.spawned
    }

    /// Spawns currently in flight.
    pub closed spec fn spec_in_flight(&self) -> u64 {
        self.in_flight
    }

    /// Fresh counters with the given bounds.
    pub fn new(max_spawns: u64, max_concurrency: u64) -> (r: Self)
        ensures
            r.spec_max_spawns() == max_spawns,
            r.spec_max_concurrency() == max_concurrency,
            r.spec_spawned() == 0,
            r.spec_in_flight() == 0,
    {
        RegionCounters { max_spawns, max_concurrency, spawned: 0, in_flight: 0 }
    }

    /// The lifetime spawn budget.
    pub fn max_spawns(&self) -> (r: u64)
        ensures
            r == self.spec_max_spawns(),
    {
        self.max_spawns
    }

    /// Admits one spawn and returns its 0-based index, or refuses.
    ///
    /// A bounds refusal changes nothing. Otherwise a `spawned` slot is
    /// reserved; a concurrency refusal keeps that reservation (the budget
    /// counts attempts) but leaves `in_flight` as it was.
    pub fn try_admit(&mut self) -> (r: Result<u64, AdmitError>)
        requires
            old(self).spec_in_flight() < u64::MAX,
        ensures
            admit_step(*old(self), *final(self), r),
    {
        let cur = self.spawned;
        if cur >= self.max_spawns {
            return Err(AdmitError::Bounds { spawned: cur, max: self.max_spawns });
        }
        self.spawned = cur + 1;
        let in_flight = self.in_flight + 1;
        if in_flight > self.max_concurrency {
            return Err(AdmitError::Concurrency { in_flight: in_flight - 1, max: self.max_concurrency });
        }
        self.in_flight = in_flight;
        Ok(cur)
    }

    /// Marks one admitted spawn finished. Paired with every successful
    /// `try_admit`; the in-flight count wraps as an atomic decrement does.
    pub fn release(&mut self)
        ensures
            final(self).spec_max_spawns() == old(self).spec_max_spawns(),
            final(self).spec_max_concurrency() == old(self).spec_max_concurrency(),
            final(self).spec_spawned() == old(self).spec_spawned(),
            final(self).spec_in_flight() == (if old(self).spec_in_flight() == 0 {
                u64::MAX
            } else {
                (old(self).spec_in_flight() - 1) as u64
            }),
    {
        self.in_flight = self.in_flight.wrapping_sub(1);
    }
}

/// Admission never exceeds the budget: from counters within their bounds,
/// whatever `try_admit` returns, `spawned <= max_spawns` and
/// `in_flight <= max_concurrency` still hold, and a granted index is the
/// count of spawns admitted before it.
pub proof fn law_admission_stays_within_bounds(
    before: RegionCounters,
    after: RegionCounters,
    r: Result<u64, AdmitError>,
)
    requires
        before.spec_spawned() <= before.spec_max_spawns(),
        before.spec_in_flight() <= before.spec_max_concurrency(),
        admit_step(before, after, r),
    ensures
        after.spec_spawned() <= after.spec_max_spawns(),
        after.spec_in_flight() <= after.spec_max_concurrency(),
        after.spec_spawned() >= before.spec_spawned(),
        r matches Ok(n) ==> n == before.spec_spawned() && after.spec_spawned() == n + 1,
{
}

/// The tool name offered for spawning a `kind` child: `agent.<kind>.spawn`.
pub fn spawn_tool_name(kind: &str) -> (s: String)
    ensures
        s@ == "agent."@ + kind@ + ".spawn"@,
{
    let mut s = String::from_str("agent.");
    s.append(kind);
    s.append(".spawn");
    s
}

/// The id of the `n`-th child of `kind` in region `region_step`:
/// `<region>:<kind>#<n>`.
pub fn child_agent_id(region_step: &str, kind: &str, n: u64) -> (s: String)
    ensures
        s@ == region_step@ + ":"@ + kind@ + "#"@ + decimal(n as nat),
{
    let mut s = String::from_str(region_step);
    s.append(":");
    s.append(kind);
    s.append("#");
    let d = u64_to_decimal(n);
    s.append(d.as_str());
    s
}

/// The soft-deny text handed back to the model for a refused spawn.
pub open spec fn denial_message(region_step: Seq<char>, kind: Seq<char>, err: AdmitError) -> Seq<
    char,
> {
    match err {
        AdmitError::Bounds { spawned, max } => "spawn denied: region `"@ + region_step
            + "` max_spawns exhausted ("@ + decimal(spawned as nat) + "/"@ + decimal(max as nat)
            + ") \u{2014} kind `"@ + kind + "`; proceed with the results you have"@,
        AdmitError::Concurrency { in_flight, max } => "spawn denied: region `"@ + region_step
            + "` max_concurrency exceeded ("@ + decimal(in_flight as nat) + "/"@ + decimal(
            max as nat,
        ) + ") \u{2014} kind `"@ + kind + "`; proceed with the results you have"@,
    }
}

/// Renders the soft-deny text for a refused spawn.
pub fn admit_denial_text(region_step: &str, kind: &str, err: AdmitError) -> (s: String)
    ensures
        s@ == denial_message(region_step@, kind@, err),
{
    let (what, a, b) = match err {
        AdmitError::Bounds { spawned, max } => ("` max_spawns exhausted (", spawned, max),
        AdmitError::Concurrency { in_flight, max } => ("` max_concurrency exceeded (", in_flight, max),
    };
    let mut s = String::from_str("spawn denied: region `");
    s.append(region_step);
    s.append(what);
    let da = u64_to_decimal(a);
    s.append(da.as_str());
    s.append("/");
    let db = u64_to_decimal(b);
    s.append(db.as_str());
    s.append(") \u{2014} kind `");
    s.append(kind);
    s.append("`; proceed with the results you have");
    s
}

/// How a spawn tool call is admitted.
#[derive(Debug)]
pub enum SpawnGate {
    /// Refused: the error text handed back to the model.
    Reject(String),
    /// Admitted as the `index`-th spawn of the region, with this child id.
    Admit { child_id: String, index: u64 },
}

/// Admission of an `agent.<kind>.spawn` call: a call without a `message`
/// argument is refused without touching the counters; otherwise the
/// region's counters decide ([`RegionCounters::try_admit`]), a refusal
/// being explained by [`denial_message`] and an admission naming the
/// child `<region>:<kind>#<index>`.
pub fn spawn_gate(
    counters: &mut RegionCounters,
    tool_name: &str,
    region_step: &str,
    kind: &str,
    has_message: bool,
) -> (g: SpawnGate)
    requires
        old(counters).spec_in_flight() < u64::MAX,
    ensures
        !has_message ==> *final(counters) == *old(counters) && (g matches SpawnGate::Reject(t)
            && t@ == tool_name@ + ": missing required arg `message`"@),
        has_message ==> exists|r: Result<u64, AdmitError>|
            admit_step(*old(counters), *final(counters), r) && match r {
                Ok(n) => g matches SpawnGate::Admit { child_id, index } && index == n && child_id@
                    == region_step@ + ":"@ + kind@ + "#"@ + decimal(n as nat),
                Err(e) => g matches SpawnGate::Reject(t) && t@ == denial_message(
                    region_step@,
                    kind@,
                    e,
                ),
            },
{
    if !has_message {
        let mut t = String::from_str(tool_name);
        t.append(": missing required arg `message`");
        return SpawnGate::Reject(t);
    }
    let r = counters.try_admit();
    match r {
        Ok(n) => SpawnGate::Admit { child_id: child_agent_id(region_step, kind, n), index: n },
        Err(e) => SpawnGate::Reject(admit_denial_text(region_step, kind, e)),
    }
}

/// How a spawned child's run ended, as far as its result reads it.
#[derive(Debug)]
pub enum ChildRun {
    /// A kernel error, rendered.
    KernelError(String),
    /// An agent-level failure: the last assistant text, and the rendered
    /// status for when there is none.
    Failed { last_text: String, status: String },
    /// Completion with the last assistant text.
    Completed { last_text: String },
}

/// The tool result of a spawn: the child's last text on completion;
/// otherwise an error ``spawn `<id>` failed: <detail>``, the detail being
/// the kernel error, or the last text (the status when there is none).
pub fn spawn_result(child_id: &str, run: ChildRun) -> (r: (bool, String))
    ensures
        match run {
            ChildRun::KernelError(e) => r.0 && r.1@ == "spawn `"@ + child_id@ + "` failed: "@ + e@,
            ChildRun::Failed { last_text, status } => r.0 && r.1@ == "spawn `"@ + child_id@
                + "` failed: "@ + if last_text@.len() == 0 {
                status@
            } else {
                last_text@
            },
            ChildRun::Completed { last_text } => !r.0 && r.1@ == last_text@,
        },
{
    let failed = |detail: &str| -> (s: String)
        ensures
            s@ == "spawn `"@ + child_id@ + "` failed: "@ + detail@,
        {
            let mut s = String::from_str("spawn `");
            s.append(child_id);
            s.append("` failed: ");
            s.append(detail);
            s
        };
    match run {
        ChildRun::KernelError(e) => (true, failed(e.as_str())),
        ChildRun::Failed { last_text, status } => {
            if last_text.unicode_len() == 0 {
                (true, failed(status.as_str()))
            } else {
                (true, failed(last_text.as_str()))
            }
        },
        ChildRun::Completed { last_text } => (false, last_text),
    }
}

/// The id of a skill's child agent: the parent's id, `-skill-`, and the
/// skill's name with each `.` made a `-`.
pub fn skill_child_id(parent: &str, skill_name: &str) -> (r: String)
    ensures
        r@ == parent@ + "-skill-"@ + replace_all(skill_name@, "."@, "-"@),
{
    proof {
        reveal_strlit(".");
    }
    let safe = replace_all_exec(skill_name, ".", "-");
    let mut r = concat2(parent, "-skill-");
    r.append(safe.as_str());
    r
}

/// The ASCII lowercase of a character; any other character as it is.
pub open spec fn ascii_lower(c: char) -> char {
    if 'A' <= c && c <= 'Z' {
        (((c as u32) + 32) as u8) as char
    } else {
        c
    }
}

/// A character an id suffix keeps: an ASCII lowercase letter or digit.
pub open spec fn id_char(c: char) -> bool {
    ('a' <= c && c <= 'z') || ('0' <= c && c <= '9')
}

/// The characters of `s`, lowercased, that an id suffix keeps, in order.
pub open spec fn id_chars(s: Seq<char>) -> Seq<char>
    decreases s.len(),
{
    if s.len() == 0 {
        seq![]
    } else {
        let prev = id_chars(s.drop_last());
        if id_char(ascii_lower(s.last())) {
            prev.push(ascii_lower(s.last()))
        } else {
            prev
        }
    }
}

/// At most the first eight characters of `s`.
pub open spec fn first_eight(s: Seq<char>) -> Seq<char> {
    if s.len() <= 8 {
        s
    } else {
        s.take(8)
    }
}

/// The id of an `agent.<kind>.spawn` child: the parent's id, `-`, and the
/// first eight lowercase letters and digits of a fresh ULID's text
/// (lowercased; ULID text is ASCII).
pub fn spawn_child_id(parent: &str, ulid: &str) -> (r: String)
    requires
        forall|i: int| 0 <= i < ulid@.len() ==> (#[trigger] ulid@[i] as u32) < 128,
    ensures
        r@ == parent@ + "-"@ + first_eight(id_chars(ulid@)),
{
    let cs = chars_of(ulid);
    let mut kept: Vec<char> = Vec::new();
    let mut i: usize = 0;
    while i < cs.len()
        invariant
            i <= cs@.len(),
            cs@ == ulid@,
            kept@ == id_chars(cs@.take(i as int)),
        decreases cs@.len() - i,
    {
        assert(cs@.take(i + 1).drop_last() =~= cs@.take(i as int));
        assert(cs@.take(i + 1).last() == cs@[i as int]);
        let c = cs[i];
        let l = if 'A' <= c && c <= 'Z' {
            ((c as u32 + 32) as u8) as char
        } else {
            c
        };
        if ('a' <= l && l <= 'z') || ('0' <= l && l <= '9') {
            kept.push(l);
        }
        i = i + 1;
    }
    assert(cs@.take(cs@.len() as int) =~= cs@);
    let n = if kept.len() <= 8 {
        kept.len()
    } else {
        8
    };
    let suffix = string_from_char_range(&kept, 0, n);
    assert(kept@.subrange(0, n as int) =~= first_eight(kept@));
    let mut r = concat2(parent, "-");
    r.append(suffix.as_str());
    r
}

/// The text of a failed skill spawn, in its tool result and in the error
/// message added to the history: `skill spawn failed: <reason>`.
pub fn skill_spawn_failure(reason: &str) -> (r: String)
    ensures
        r@ == "skill spawn failed: "@ + reason@,
{
    concat2("skill spawn failed: ", reason)
}

} // verus!
