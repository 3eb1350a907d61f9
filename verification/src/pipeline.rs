//! The decisions of the pipeline executor: per-check attempt counting,
//! abort or rewind-to-gate on a failed check, the rejection feedback each
//! gate's agent step is shown, and loop convergence.
//!
//! Feedback is keyed by gate step, then by check id: a passing check
//! clears only its own entry, a failing one updates only its own, and a
//! gate's agent step sees its entries in ascending check-id order.

use vstd::prelude::*;

use crate::check::CheckVerdict;
use crate::error::RuntimeError;
use crate::text::{concat2, decimal, str_eq, u64_to_decimal};

verus! {

/// What a failed check does.
#[derive(Debug, Clone, Copy, PartialEq, Eq, Structural)]
pub enum OnFail {
    /// Abort the pipeline.
    Abort,
    /// Rewind to the check's gate step and retry.
    Retry,
}

/// A check's retry policy.
#[derive(Debug)]
pub struct RetryPolicy {
    /// What a failure does.
    pub on_fail: OnFail,
    /// Attempts allowed before the pipeline aborts.
    pub max_attempts: u32,
    /// The step a retry rewinds to.
    pub gate: String,
}

/// What the executor does after a check step.
#[derive(Debug)]
pub enum CheckStep {
    /// Go on with the next step.
    Advance,
    /// Rewind to the step at this index.
    RewindTo(usize),
    /// Abort the pipeline with this error.
    Abort(RuntimeError),
}

/// What the executor does after a loop pass.
#[derive(Debug)]
pub enum LoopStep {
    /// The loop's condition holds; go on with the next step.
    Converged,
    /// Run the body again, showing it this rejection rationale.
    Again(String),
    /// The loop ran out of passes.
    Exhausted(RuntimeError),
}

/// Lexicographic order of character sequences (code point by code
/// point; the order of their UTF-8 encodings too).
pub open spec fn seq_lt(a: Seq<char>, b: Seq<char>) -> bool
    decreases a.len(),
{
    if b.len() == 0 {
        false
    } else if a.len() == 0 {
        true
    } else if a[0] != b[0] {
        (a[0] as int) < (b[0] as int)
    } else {
        seq_lt(a.drop_first(), b.drop_first())
    }
}

/// `seq_lt` is irreflexive.
pub proof fn lemma_seq_lt_irreflexive(a: Seq<char>)
    ensures
        !seq_lt(a, a),
    decreases a.len(),
{
    if a.len() > 0 {
        lemma_seq_lt_irreflexive(a.drop_first());
    }
}

/// `seq_lt` is transitive.
pub proof fn lemma_seq_lt_transitive(a: Seq<char>, b: Seq<char>, c: Seq<char>)
    requires
        seq_lt(a, b),
        seq_lt(b, c),
    ensures
        seq_lt(a, c),
    decreases a.len(),
{
    if a.len() > 0 && b.len() > 0 && c.len() > 0 && a[0] == b[0] && b[0] == c[0] {
        lemma_seq_lt_transitive(a.drop_first(), b.drop_first(), c.drop_first());
    }
}

/// `seq_lt` is total on distinct sequences.
pub proof fn lemma_seq_lt_total(a: Seq<char>, b: Seq<char>)
    requires
        a != b,
    ensures
        seq_lt(a, b) || seq_lt(b, a),
    decreases a.len(),
{
    if a.len() > 0 && b.len() > 0 && a[0] == b[0] {
        if a.drop_first() == b.drop_first() {
            assert(a =~= seq![a[0]] + a.drop_first());
            assert(b =~= seq![b[0]] + b.drop_first());
        }
        lemma_seq_lt_total(a.drop_first(), b.drop_first());
    } else if a.len() == 0 && b.len() == 0 {
        assert(a =~= b);
    }
}

/// Whether `a` comes before `b` in [`seq_lt`] order.
pub fn str_lt(a: &str, b: &str) -> (r: bool)
    ensures
        r == seq_lt(a@, b@),
{
    let x = crate::text::chars_of(a);
    let y = crate::text::chars_of(b);
    let mut i: usize = 0;
    assert(a@.skip(0) =~= a@);
    assert(b@.skip(0) =~= b@);
    while i < x.len() && i < y.len()
        invariant
            x@ == a@,
            y@ == b@,
            i <= x@.len(),
            i <= y@.len(),
            forall|k: int| 0 <= k < i ==> x@[k] == y@[k],
            seq_lt(a@, b@) == seq_lt(a@.skip(i as int), b@.skip(i as int)),
        decreases x@.len() - i,
    {
        assert(a@.skip(i as int).drop_first() =~= a@.skip(i + 1));
        assert(b@.skip(i as int).drop_first() =~= b@.skip(i + 1));
        if x[i] != y[i] {
            return x[i] < y[i];
        }
        i = i + 1;
    }
    i < y.len()
}

/// The value under the first entry keyed `k`, if any.
pub open spec fn lookup<V>(s: Seq<(String, V)>, k: Seq<char>) -> Option<V>
    decreases s.len(),
{
    if s.len() == 0 {
        None
    } else if s[0].0@ == k {
        Some(s[0].1)
    } else {
        lookup(s.drop_first(), k)
    }
}

/// No entry of `s` is keyed `k`.
pub open spec fn key_absent<V>(s: Seq<(String, V)>, k: Seq<char>) -> bool {
    forall|j: int| 0 <= j < s.len() ==> (#[trigger] s[j]).0@ != k
}

/// Entry `p` is the first keyed `k`.
pub open spec fn first_keyed<V>(s: Seq<(String, V)>, p: int, k: Seq<char>) -> bool {
    &&& 0 <= p < s.len()
    &&& s[p].0@ == k
    &&& key_absent(s.take(p), k)
}

/// With no entry keyed `k`, the lookup finds nothing.
pub proof fn lemma_lookup_absent<V>(s: Seq<(String, V)>, k: Seq<char>)
    requires
        key_absent(s, k),
    ensures
        lookup(s, k) is None,
    decreases s.len(),
{
    if s.len() > 0 {
        assert(s[0].0@ != k);
        assert forall|j: int| 0 <= j < s.drop_first().len() implies (#[trigger] s.drop_first()[j]).0@
            != k by {
            assert(s.drop_first()[j] == s[j + 1]);
        }
        lemma_lookup_absent(s.drop_first(), k);
    }
}

/// The lookup finds the first entry keyed `k`.
pub proof fn lemma_lookup_first<V>(s: Seq<(String, V)>, p: int, k: Seq<char>)
    requires
        first_keyed(s, p, k),
    ensures
        lookup(s, k) == Some(s[p].1),
    decreases p,
{
    if p > 0 {
        assert(s.take(p)[0] == s[0]);
        assert(s[0].0@ != k);
        assert forall|j: int| 0 <= j < p - 1 implies (#[trigger] s.drop_first().take(p - 1)[j]).0@
            != k by {
            assert(s.drop_first().take(p - 1)[j] == s.take(p)[j + 1]);
        }
        lemma_lookup_first(s.drop_first(), p - 1, k);
    }
}

/// Removing an entry keyed otherwise than `k` leaves the lookup of `k`.
pub proof fn lemma_lookup_remove<V>(s: Seq<(String, V)>, p: int, k: Seq<char>)
    requires
        0 <= p < s.len(),
        s[p].0@ != k,
    ensures
        lookup(s.remove(p), k) == lookup(s, k),
    decreases p,
{
    if p > 0 {
        assert(s.remove(p)[0] == s[0]);
        if s[0].0@ != k {
            assert(s.remove(p).drop_first() =~= s.drop_first().remove(p - 1));
            lemma_lookup_remove(s.drop_first(), p - 1, k);
        }
    } else {
        assert(s.remove(0) =~= s.drop_first());
    }
}

/// Inserting an entry keyed otherwise than `k` leaves the lookup of `k`.
pub proof fn lemma_lookup_insert_other<V>(s: Seq<(String, V)>, p: int, e: (String, V), k: Seq<char>)
    requires
        0 <= p <= s.len(),
        e.0@ != k,
    ensures
        lookup(s.insert(p, e), k) == lookup(s, k),
    decreases p,
{
    if p > 0 {
        assert(s.insert(p, e)[0] == s[0]);
        if s[0].0@ != k {
            assert(s.insert(p, e).drop_first() =~= s.drop_first().insert(p - 1, e));
            lemma_lookup_insert_other(s.drop_first(), p - 1, e, k);
        }
    } else {
        assert(s.insert(0, e)[0] == e);
        assert(s.insert(0, e).drop_first() =~= s);
    }
}

/// Inserting an entry where no earlier one shares its key makes the
/// lookup of that key find it.
pub proof fn lemma_lookup_insert_first<V>(s: Seq<(String, V)>, p: int, e: (String, V))
    requires
        0 <= p <= s.len(),
        key_absent(s.take(p), e.0@),
    ensures
        lookup(s.insert(p, e), e.0@) == Some(e.1),
{
    let t = s.insert(p, e);
    assert(t[p] == e);
    assert forall|j: int| 0 <= j < p implies (#[trigger] t.take(p)[j]).0@ != e.0@ by {
        assert(t.take(p)[j] == s.take(p)[j]);
    }
    lemma_lookup_first(t, p, e.0@);
}

/// The attempts recorded for check `id` (0 when none).
pub open spec fn attempt_count(a: Seq<(String, u32)>, id: Seq<char>) -> nat {
    match lookup(a, id) {
        Some(n) => n as nat,
        None => 0,
    }
}

/// The feedback entries `(check id, rationale)` registered for `gate`.
pub open spec fn gate_entries(f: Seq<(String, Vec<(String, String)>)>, gate: Seq<char>) -> Seq<
    (String, String),
> {
    match lookup(f, gate) {
        Some(es) => es@,
        None => seq![],
    }
}

/// The rationale registered under check `id` among `entries`.
pub open spec fn entry_lookup(entries: Seq<(String, String)>, id: Seq<char>) -> Option<Seq<char>> {
    match lookup(entries, id) {
        Some(r) => Some(r@),
        None => None,
    }
}

/// The entries are in strictly ascending check-id order.
pub open spec fn entries_sorted(entries: Seq<(String, String)>) -> bool {
    forall|i: int, j: int|
        0 <= i < j < entries.len() ==> seq_lt(#[trigger] entries[i].0@, #[trigger] entries[j].0@)
}

/// Gate keys are distinct and each gate's entries sorted.
pub open spec fn feedback_wf(f: Seq<(String, Vec<(String, String)>)>) -> bool {
    &&& forall|i: int, j: int|
        0 <= i < j < f.len() ==> (#[trigger] f[i]).0@ != (#[trigger] f[j]).0@
    &&& forall|i: int| 0 <= i < f.len() ==> entries_sorted(#[trigger] f[i].1@)
}

/// The rationale registered for check `id` under `gate`.
pub open spec fn feedback_of(f: Seq<(String, Vec<(String, String)>)>, gate: Seq<char>, id: Seq<
    char,
>) -> Option<Seq<char>> {
    entry_lookup(gate_entries(f, gate), id)
}

/// The index of the first entry keyed `k`, if any.
pub fn find_key<V>(s: &Vec<(String, V)>, k: &str) -> (r: Option<usize>)
    ensures
        match r {
            Some(p) => first_keyed(s@, p as int, k@),
            None => key_absent(s@, k@),
        },
{
    let mut i: usize = 0;
    while i < s.len()
        invariant
            i <= s@.len(),
            key_absent(s@.take(i as int), k@),
        decreases s@.len() - i,
    {
        if str_eq(s[i].0.as_str(), k) {
            return Some(i);
        }
        proof {
            assert forall|j: int| 0 <= j < i + 1 implies (#[trigger] s@.take(i + 1)[j]).0@ != k@ by {
                if j < i {
                    assert(s@.take(i + 1)[j] == s@.take(i as int)[j]);
                }
            }
        }
        i = i + 1;
    }
    assert(s@.take(s@.len() as int) =~= s@);
    None
}

/// The executor's bookkeeping across the steps of one slice.
#[derive(Debug)]
pub struct PipelineCursor {
    attempts: Vec<(String, u32)>,
    feedback: Vec<(String, Vec<(String, String)>)>,
    pending_initial_feedback: Option<String>,
}

/// The prompt of a loop pass's first agent step that shows the prior
/// pass's rejection.
pub open spec fn loop_feedback_prompt(fb: Seq<char>) -> Seq<char> {
    "Previous attempt rejected: "@ + fb
}

/// The prompt that shows a gate's agent step one check's rejection.
pub open spec fn check_feedback_prompt(id: Seq<char>, fb: Seq<char>) -> Seq<char> {
    "Previous attempt rejected: (check '"@ + id + "') "@ + fb
}

/// The prompts shown for a list of feedback entries, in order.
pub open spec fn entry_prompts(entries: Seq<(String, String)>) -> Seq<Seq<char>>
    decreases entries.len(),
{
    if entries.len() == 0 {
        seq![]
    } else {
        entry_prompts(entries.drop_last()).push(
            check_feedback_prompt(entries.last().0@, entries.last().1@),
        )
    }
}

/// The views of a list of strings.
pub open spec fn views(v: Seq<String>) -> Seq<Seq<char>> {
    v.map_values(|s: String| s@)
}

/// The index of the last step whose id is `id`, if any (a later step
/// with the same id shadows an earlier one).
pub open spec fn last_index_of(ids: Seq<String>, id: Seq<char>) -> Option<int>
    decreases ids.len(),
{
    if ids.len() == 0 {
        None
    } else if ids.last()@ == id {
        Some(ids.len() - 1)
    } else {
        last_index_of(ids.drop_last(), id)
    }
}

fn last_index_of_exec(ids: &Vec<String>, id: &str) -> (r: Option<usize>)
    ensures
        match last_index_of(ids@, id@) {
            Some(k) => r == Some(k as usize),
            None => r is None,
        },
{
    let mut i: usize = ids.len();
    assert(ids@.take(i as int) =~= ids@);
    while i > 0
        invariant
            i <= ids@.len(),
            last_index_of(ids@, id@) == last_index_of(ids@.take(i as int), id@),
        decreases i,
    {
        assert(ids@.take(i as int).drop_last() =~= ids@.take(i - 1));
        if str_eq(ids[i - 1].as_str(), id) {
            return Some(i - 1);
        }
        i = i - 1;
    }
    assert(ids@.take(0) =~= Seq::<String>::empty());
    None
}

impl PipelineCursor {
    /// The attempts recorded per check id.
    pub closed spec fn attempts_view(&self) -> Seq<(String, u32)> {
        self.attempts@
    }

    /// The feedback registered per gate and check id.
    pub closed spec fn feedback_view(&self) -> Seq<(String, Vec<(String, String)>)> {
        self.feedback@
    }

    /// The loop rationale still to be shown, if any.
    pub closed spec fn pending_view(&self) -> Option<Seq<char>> {
        match self.pending_initial_feedback {
            Some(s) => Some(s@),
            None => None,
        }
    }

    /// The bookkeeping is well formed.
    pub closed spec fn wf(&self) -> bool {
        feedback_wf(self.feedback@)
    }

    /// A fresh slice: no attempts, no feedback, and the prior loop
    /// pass's rationale (if any) to show at the first agent step.
    pub fn new(initial_feedback: Option<String>) -> (c: Self)
        ensures
            c.wf(),
            forall|id: Seq<char>| attempt_count(c.attempts_view(), id) == 0,
            forall|g: Seq<char>, id: Seq<char>| feedback_of(c.feedback_view(), g, id) is None,
            c.pending_view() == (match initial_feedback {
                Some(s) => Some(s@),
                None => None::<Seq<char>>,
            }),
    {
        PipelineCursor {
            attempts: Vec::new(),
            feedback: Vec::new(),
            pending_initial_feedback: initial_feedback,
        }
    }
}


/// Puts `(id, r)` into sorted `es`: replaces the rationale of an entry
/// keyed `id`, or inserts a new entry at its place in the order.
fn insert_sorted(es: &mut Vec<(String, String)>, id: &str, r: String)
    requires
        entries_sorted(old(es)@),
    ensures
        entries_sorted(final(es)@),
        entry_lookup(final(es)@, id@) == Some(r@),
        forall|c: Seq<char>| c != id@ ==> entry_lookup(final(es)@, c) == entry_lookup(old(es)@, c),
{
    let mut p: usize = 0;
    while p < es.len() && str_lt(es[p].0.as_str(), id)
        invariant
            p <= es@.len(),
            forall|j: int| 0 <= j < p ==> seq_lt((#[trigger] es@[j]).0@, id@),
        decreases es@.len() - p,
    {
        p = p + 1;
    }
    let ghost s0 = es@;
    proof {
        assert forall|j: int| 0 <= j < p implies (#[trigger] s0.take(p as int)[j]).0@ != id@ by {
            assert(s0.take(p as int)[j] == s0[j]);
            lemma_seq_lt_irreflexive(id@);
        }
    }
    let same = p < es.len() && str_eq(es[p].0.as_str(), id);
    let e = (String::from_str(id), r);
    if same {
        let old_e = es.remove(p);
        let ghost s1 = es@;
        es.insert(p, e);
        proof {
            assert(s1.take(p as int) =~= s0.take(p as int));
            lemma_lookup_insert_first(s1, p as int, e);
            assert forall|c: Seq<char>| c != id@ implies entry_lookup(es@, c) == entry_lookup(s0, c) by {
                lemma_lookup_remove(s0, p as int, c);
                lemma_lookup_insert_other(s1, p as int, e, c);
            }
            assert forall|i: int, j: int| 0 <= i < j < es@.len() implies seq_lt(
                #[trigger] es@[i].0@,
                #[trigger] es@[j].0@,
            ) by {
                if i == p {
                    assert(es@[i].0@ == s0[i].0@);
                } else if j == p {
                    assert(es@[j].0@ == s0[j].0@);
                }
                assert(es@[i].0@ == s0[i].0@);
                assert(es@[j].0@ == s0[j].0@);
            }
        }
    } else {
        es.insert(p, e);
        proof {
            lemma_lookup_insert_first(s0, p as int, e);
            assert forall|c: Seq<char>| c != id@ implies entry_lookup(es@, c) == entry_lookup(s0, c) by {
                lemma_lookup_insert_other(s0, p as int, e, c);
            }
            if p < s0.len() {
                assert(s0[p as int].0@ != id@);
                lemma_seq_lt_total(s0[p as int].0@, id@);
            }
            assert forall|i: int, j: int| 0 <= i < j < es@.len() implies seq_lt(
                #[trigger] es@[i].0@,
                #[trigger] es@[j].0@,
            ) by {
                if j == p {
                    assert(es@[i] == s0[i]);
                } else if i == p {
                    assert(es@[j] == s0[j - 1]);
                    if j - 1 > p {
                        assert(seq_lt(s0[p as int].0@, s0[j - 1].0@));
                        lemma_seq_lt_transitive(id@, s0[p as int].0@, s0[j - 1].0@);
                    }
                } else if j < p {
                    assert(es@[i] == s0[i]);
                    assert(es@[j] == s0[j]);
                } else if i < p {
                    assert(es@[i] == s0[i]);
                    assert(es@[j] == s0[j - 1]);
                    assert(seq_lt(s0[i].0@, id@));
                    if j - 1 == p {
                        lemma_seq_lt_transitive(s0[i].0@, id@, s0[j - 1].0@);
                    } else {
                        assert(seq_lt(s0[p as int].0@, s0[j - 1].0@));
                        lemma_seq_lt_transitive(id@, s0[p as int].0@, s0[j - 1].0@);
                        lemma_seq_lt_transitive(s0[i].0@, id@, s0[j - 1].0@);
                    }
                } else {
                    assert(es@[i] == s0[i - 1]);
                    assert(es@[j] == s0[j - 1]);
                }
            }
        }
    }
}

/// Sorted entries hold at most one entry per key.
pub proof fn lemma_sorted_unique(es: Seq<(String, String)>, q: int)
    requires
        entries_sorted(es),
        0 <= q < es.len(),
    ensures
        forall|j: int| 0 <= j < es.len() && j != q ==> (#[trigger] es[j]).0@ != es[q].0@,
{
    assert forall|j: int| 0 <= j < es.len() && j != q implies (#[trigger] es[j]).0@ != es[q].0@ by {
        if j < q {
            assert(seq_lt(es[j].0@, es[q].0@));
            lemma_seq_lt_irreflexive(es[q].0@);
        } else {
            assert(seq_lt(es[q].0@, es[j].0@));
            lemma_seq_lt_irreflexive(es[q].0@);
        }
    }
}

impl PipelineCursor {
    /// How many times check `id` was evaluated.
    pub fn attempts_of(&self, id: &str) -> (n: u32)
        ensures
            n == attempt_count(self.attempts_view(), id@),
    {
        match find_key(&self.attempts, id) {
            Some(p) => {
                proof {
                    lemma_lookup_first(self.attempts@, p as int, id@);
                }
                self.attempts[p].1
            },
            None => {
                proof {
                    lemma_lookup_absent(self.attempts@, id@);
                }
                0
            },
        }
    }

    /// Counts one more evaluation of check `id` and returns the count
    /// (1 on the first evaluation).
    pub fn record_attempt(&mut self, id: &str) -> (attempt: u32)
        requires
            attempt_count(old(self).attempts_view(), id@) < u32::MAX,
        ensures
            attempt == attempt_count(old(self).attempts_view(), id@) + 1,
            attempt_count(final(self).attempts_view(), id@) == attempt,
            forall|c: Seq<char>|
                c != id@ ==> attempt_count(final(self).attempts_view(), c) == attempt_count(
                    old(self).attempts_view(),
                    c,
                ),
            final(self).feedback_view() == old(self).feedback_view(),
            final(self).pending_view() == old(self).pending_view(),
    {
        match find_key(&self.attempts, id) {
            Some(p) => {
                let ghost s0 = self.attempts@;
                proof {
                    lemma_lookup_first(s0, p as int, id@);
                }
                let (k, v) = self.attempts.remove(p);
                let ghost s1 = self.attempts@;
                let n = v + 1;
                let e = (k, n);
                self.attempts.insert(p, e);
                proof {
                    assert(s1.take(p as int) =~= s0.take(p as int));
                    lemma_lookup_insert_first(s1, p as int, e);
                    assert forall|c: Seq<char>| c != id@ implies attempt_count(self.attempts@, c)
                        == attempt_count(s0, c) by {
                        lemma_lookup_remove(s0, p as int, c);
                        lemma_lookup_insert_other(s1, p as int, e, c);
                    }
                }
                n
            },
            None => {
                let ghost s0 = self.attempts@;
                proof {
                    lemma_lookup_absent(s0, id@);
                }
                let e = (String::from_str(id), 1u32);
                self.attempts.push(e);
                proof {
                    assert(self.attempts@ =~= s0.insert(s0.len() as int, e));
                    assert(s0.take(s0.len() as int) =~= s0);
                    lemma_lookup_insert_first(s0, s0.len() as int, e);
                    assert forall|c: Seq<char>| c != id@ implies attempt_count(self.attempts@, c)
                        == attempt_count(s0, c) by {
                        lemma_lookup_insert_other(s0, s0.len() as int, e, c);
                    }
                }
                1
            },
        }
    }

    /// Clears the rationale of check `id` under `gate`, leaving every
    /// other entry.
    pub fn clear_feedback(&mut self, gate: &str, id: &str)
        requires
            old(self).wf(),
        ensures
            final(self).wf(),
            feedback_of(final(self).feedback_view(), gate@, id@) is None,
            forall|g: Seq<char>, c: Seq<char>|
                !(g == gate@ && c == id@) ==> feedback_of(final(self).feedback_view(), g, c)
                    == feedback_of(old(self).feedback_view(), g, c),
            final(self).attempts_view() == old(self).attempts_view(),
            final(self).pending_view() == old(self).pending_view(),
    {
        let ghost f0 = self.feedback@;
        match find_key(&self.feedback, gate) {
            None => {
                proof {
                    lemma_lookup_absent(f0, gate@);
                }
            },
            Some(gi) => {
                proof {
                    lemma_lookup_first(f0, gi as int, gate@);
                }
                let (g, mut es) = self.feedback.remove(gi);
                let ghost f1 = self.feedback@;
                let ghost es0 = es@;
                assert(entries_sorted(es0));
                match find_key(&es, id) {
                    Some(q) => {
                        proof {
                            lemma_sorted_unique(es0, q as int);
                        }
                        es.remove(q);
                        proof {
                            assert forall|j: int| 0 <= j < es@.len() implies (#[trigger] es@[j]).0@
                                != id@ by {
                                if j < q {
                                    assert(es@[j] == es0[j]);
                                } else {
                                    assert(es@[j] == es0[j + 1]);
                                }
                            }
                            lemma_lookup_absent(es@, id@);
                            assert forall|c: Seq<char>| c != id@ implies entry_lookup(es@, c)
                                == entry_lookup(es0, c) by {
                                lemma_lookup_remove(es0, q as int, c);
                            }
                            assert forall|i: int, j: int| 0 <= i < j < es@.len() implies seq_lt(
                                #[trigger] es@[i].0@,
                                #[trigger] es@[j].0@,
                            ) by {
                                let i0 = if i < q {
                                    i
                                } else {
                                    i + 1
                                };
                                let j0 = if j < q {
                                    j
                                } else {
                                    j + 1
                                };
                                assert(es@[i] == es0[i0]);
                                assert(es@[j] == es0[j0]);
                            }
                        }
                    },
                    None => {
                        proof {
                            lemma_lookup_absent(es0, id@);
                        }
                    },
                }
                proof {
                    assert forall|j: int| 0 <= j < f1.len() implies (#[trigger] f1[j]).0@ != gate@ by {
                        if j < gi {
                            assert(f1[j] == f0[j]);
                            assert(f0[j].0@ != f0[gi as int].0@);
                        } else {
                            assert(f1[j] == f0[j + 1]);
                            assert(f0[gi as int].0@ != f0[j + 1].0@);
                        }
                    }
                    assert forall|g2: Seq<char>| g2 != gate@ implies lookup(f1, g2) == lookup(f0, g2) by {
                        lemma_lookup_remove(f0, gi as int, g2);
                    }
                }
                if es.len() > 0 {
                    let e = (g, es);
                    self.feedback.insert(gi, e);
                    proof {
                        assert(f1.take(gi as int) =~= f0.take(gi as int));
                        lemma_lookup_insert_first(f1, gi as int, e);
                        assert forall|g2: Seq<char>| g2 != gate@ implies lookup(self.feedback@, g2)
                            == lookup(f0, g2) by {
                            lemma_lookup_insert_other(f1, gi as int, e, g2);
                        }
                        assert forall|i: int, j: int| 0 <= i < j < self.feedback@.len() implies (
                        #[trigger] self.feedback@[i]).0@ != (#[trigger] self.feedback@[j]).0@ by {
                            assert(self.feedback@[i].0@ == f0[i].0@);
                            assert(self.feedback@[j].0@ == f0[j].0@);
                        }
                        assert forall|i: int| 0 <= i < self.feedback@.len() implies entries_sorted(
                            #[trigger] self.feedback@[i].1@,
                        ) by {
                            if i != gi {
                                assert(self.feedback@[i] == f0[i]);
                            }
                        }
                    }
                } else {
                    proof {
                        lemma_lookup_absent(f1, gate@);
                        assert forall|c: Seq<char>| c != id@ implies entry_lookup(es0, c) is None by {
                            lemma_lookup_absent(es@, c);
                        }
                        assert forall|i: int, j: int| 0 <= i < j < f1.len() implies (
                        #[trigger] f1[i]).0@ != (#[trigger] f1[j]).0@ by {
                            let i0 = if i < gi {
                                i
                            } else {
                                i + 1
                            };
                            let j0 = if j < gi {
                                j
                            } else {
                                j + 1
                            };
                            assert(f1[i] == f0[i0]);
                            assert(f1[j] == f0[j0]);
                        }
                        assert forall|i: int| 0 <= i < f1.len() implies entries_sorted(
                            #[trigger] f1[i].1@,
                        ) by {
                            let i0 = if i < gi {
                                i
                            } else {
                                i + 1
                            };
                            assert(f1[i] == f0[i0]);
                        }
                    }
                }
            },
        }
    }
}


impl PipelineCursor {
    /// Registers `r` as the rationale of check `id` under `gate`,
    /// leaving every other entry.
    pub fn set_feedback(&mut self, gate: &str, id: &str, r: String)
        requires
            old(self).wf(),
        ensures
            final(self).wf(),
            feedback_of(final(self).feedback_view(), gate@, id@) == Some(r@),
            forall|g: Seq<char>, c: Seq<char>|
                !(g == gate@ && c == id@) ==> feedback_of(final(self).feedback_view(), g, c)
                    == feedback_of(old(self).feedback_view(), g, c),
            final(self).attempts_view() == old(self).attempts_view(),
            final(self).pending_view() == old(self).pending_view(),
    {
        let ghost f0 = self.feedback@;
        match find_key(&self.feedback, gate) {
            None => {
                proof {
                    lemma_lookup_absent(f0, gate@);
                }
                let mut es: Vec<(String, String)> = Vec::new();
                let ghost es0 = es@;
                insert_sorted(&mut es, id, r);
                proof {
                    assert forall|c: Seq<char>| c != id@ implies entry_lookup(es@, c) is None by {
                        lemma_lookup_absent(es0, c);
                    }
                }
                let e = (String::from_str(gate), es);
                self.feedback.push(e);
                proof {
                    assert(self.feedback@ =~= f0.insert(f0.len() as int, e));
                    assert(f0.take(f0.len() as int) =~= f0);
                    lemma_lookup_insert_first(f0, f0.len() as int, e);
                    assert forall|g2: Seq<char>| g2 != gate@ implies lookup(self.feedback@, g2) == lookup(
                        f0,
                        g2,
                    ) by {
                        lemma_lookup_insert_other(f0, f0.len() as int, e, g2);
                    }
                    assert forall|i: int, j: int| 0 <= i < j < self.feedback@.len() implies (
                    #[trigger] self.feedback@[i]).0@ != (#[trigger] self.feedback@[j]).0@ by {
                        if j == f0.len() {
                            assert(self.feedback@[i] == f0[i]);
                        } else {
                            assert(self.feedback@[i] == f0[i]);
                            assert(self.feedback@[j] == f0[j]);
                        }
                    }
                    assert forall|i: int| 0 <= i < self.feedback@.len() implies entries_sorted(
                        #[trigger] self.feedback@[i].1@,
                    ) by {
                        if i < f0.len() {
                            assert(self.feedback@[i] == f0[i]);
                        }
                    }
                }
            },
            Some(gi) => {
                proof {
                    lemma_lookup_first(f0, gi as int, gate@);
                }
                let (g, mut es) = self.feedback.remove(gi);
                let ghost f1 = self.feedback@;
                let ghost es0 = es@;
                insert_sorted(&mut es, id, r);
                let e = (g, es);
                self.feedback.insert(gi, e);
                proof {
                    assert(f1.take(gi as int) =~= f0.take(gi as int));
                    lemma_lookup_insert_first(f1, gi as int, e);
                    assert forall|g2: Seq<char>| g2 != gate@ implies lookup(self.feedback@, g2) == lookup(
                        f0,
                        g2,
                    ) by {
                        lemma_lookup_remove(f0, gi as int, g2);
                        lemma_lookup_insert_other(f1, gi as int, e, g2);
                    }
                    assert forall|i: int, j: int| 0 <= i < j < self.feedback@.len() implies (
                    #[trigger] self.feedback@[i]).0@ != (#[trigger] self.feedback@[j]).0@ by {
                        assert(self.feedback@[i].0@ == f0[i].0@);
                        assert(self.feedback@[j].0@ == f0[j].0@);
                    }
                    assert forall|i: int| 0 <= i < self.feedback@.len() implies entries_sorted(
                        #[trigger] self.feedback@[i].1@,
                    ) by {
                        if i != gi {
                            assert(self.feedback@[i] == f0[i]);
                        }
                    }
                }
            },
        }
    }

    /// Decides what follows an evaluated check. The check's attempt count
    /// goes up by one. A pass clears the check's feedback and advances. A
    /// failure aborts with `CheckFailed` when the policy aborts or the
    /// attempts are used up; otherwise the rationale is registered for the
    /// gate and the executor rewinds to that gate step (the last step with
    /// that id), or aborts with an internal error when no step has it.
    pub fn check_step(
        &mut self,
        check_id: &str,
        kind: &str,
        policy: &RetryPolicy,
        verdict: CheckVerdict,
        step_ids: &Vec<String>,
    ) -> (r: CheckStep)
        requires
            old(self).wf(),
            attempt_count(old(self).attempts_view(), check_id@) < u32::MAX,
        ensures
            final(self).wf(),
            ({
                let attempt = attempt_count(old(self).attempts_view(), check_id@) + 1;
                &&& attempt_count(final(self).attempts_view(), check_id@) == attempt
                &&& if verdict.met {
                    &&& r is Advance
                    &&& feedback_of(final(self).feedback_view(), policy.gate@, check_id@) is None
                } else if policy.on_fail == OnFail::Abort || attempt >= policy.max_attempts {
                    &&& r matches CheckStep::Abort(RuntimeError::CheckFailed {
                        id,
                        kind: k,
                        rationale,
                        attempt: a,
                    })
                    &&& id@ == check_id@ && k@ == kind@ && rationale@ == verdict.rationale@
                    &&& a == attempt
                    &&& final(self).feedback_view() == old(self).feedback_view()
                } else {
                    match last_index_of(step_ids@, policy.gate@) {
                        Some(gi) => {
                            &&& r == CheckStep::RewindTo(gi as usize)
                            &&& feedback_of(final(self).feedback_view(), policy.gate@, check_id@)
                                == Some(verdict.rationale@)
                        },
                        None => {
                            &&& r matches CheckStep::Abort(RuntimeError::Internal { message })
                            &&& message@ == "check "@ + check_id@ + " rewinds to unknown gate step "@
                                + policy.gate@
                            &&& final(self).feedback_view() == old(self).feedback_view()
                        },
                    }
                }
            }),
            forall|g: Seq<char>, c: Seq<char>|
                !(g == policy.gate@ && c == check_id@) ==> feedback_of(
                    final(self).feedback_view(),
                    g,
                    c,
                ) == feedback_of(old(self).feedback_view(), g, c),
            forall|c: Seq<char>|
                c != check_id@ ==> attempt_count(final(self).attempts_view(), c) == attempt_count(
                    old(self).attempts_view(),
                    c,
                ),
            final(self).pending_view() == old(self).pending_view(),
    {
        let attempt = self.record_attempt(check_id);
        if verdict.met {
            self.clear_feedback(policy.gate.as_str(), check_id);
            return CheckStep::Advance;
        }
        if policy.on_fail == OnFail::Abort || attempt >= policy.max_attempts {
            return CheckStep::Abort(
                RuntimeError::CheckFailed {
                    id: String::from_str(check_id),
                    kind: String::from_str(kind),
                    rationale: verdict.rationale,
                    attempt,
                },
            );
        }
        match last_index_of_exec(step_ids, policy.gate.as_str()) {
            None => {
                let mut m = String::from_str("check ");
                m.append(check_id);
                m.append(" rewinds to unknown gate step ");
                m.append(policy.gate.as_str());
                CheckStep::Abort(RuntimeError::Internal { message: m })
            },
            Some(gi) => {
                self.set_feedback(policy.gate.as_str(), check_id, verdict.rationale);
                CheckStep::RewindTo(gi)
            },
        }
    }

    /// The user turns an agent step starts with: the prior loop pass's
    /// rejection (shown once, at the first agent step of the slice), then
    /// one labelled rejection per check registered for this step as a
    /// gate, in ascending check-id order, then the step's rendered input.
    pub fn agent_step_prompts(&mut self, step_id: &str, rendered: &str) -> (r: Vec<String>)
        requires
            old(self).wf(),
        ensures
            final(self).wf(),
            views(r@) == (match old(self).pending_view() {
                Some(fb) => seq![loop_feedback_prompt(fb)],
                None => Seq::<Seq<char>>::empty(),
            }) + entry_prompts(gate_entries(old(self).feedback_view(), step_id@)) + seq![
                rendered@,
            ],
            entries_sorted(gate_entries(old(self).feedback_view(), step_id@)),
            final(self).pending_view() is None,
            final(self).feedback_view() == old(self).feedback_view(),
            final(self).attempts_view() == old(self).attempts_view(),
    {
        let mut out: Vec<String> = Vec::new();
        let pending = self.pending_initial_feedback.take();
        match pending {
            Some(fb) => {
                out.push(concat2("Previous attempt rejected: ", fb.as_str()));
            },
            None => {},
        }
        let ghost head = views(out@);
        assert(head == (match old(self).pending_view() {
            Some(fb) => seq![loop_feedback_prompt(fb)],
            None => Seq::<Seq<char>>::empty(),
        }));
        let ghost f0 = self.feedback@;
        match find_key(&self.feedback, step_id) {
            Some(gi) => {
                proof {
                    lemma_lookup_first(f0, gi as int, step_id@);
                    assert(entries_sorted(f0[gi as int].1@));
                }
                let es = &self.feedback[gi].1;
                let mut k: usize = 0;
                while k < es.len()
                    invariant
                        k <= es@.len(),
                        views(out@) == head + entry_prompts(es@.take(k as int)),
                    decreases es@.len() - k,
                {
                    let mut m = String::from_str("Previous attempt rejected: (check '");
                    m.append(es[k].0.as_str());
                    m.append("') ");
                    m.append(es[k].1.as_str());
                    assert(m@ =~= check_feedback_prompt(es@[k as int].0@, es@[k as int].1@));
                    let ghost prev = views(out@);
                    out.push(m);
                    proof {
                        assert(views(out@) =~= prev.push(check_feedback_prompt(es@[k as int].0@, es@[k as int].1@)));
                        assert(es@.take(k + 1).drop_last() =~= es@.take(k as int));
                        assert(es@.take(k + 1).last() == es@[k as int]);
                        assert(views(out@) =~= head + entry_prompts(es@.take(k + 1)));
                    }
                    k = k + 1;
                }
                assert(es@.take(es@.len() as int) =~= es@);
            },
            None => {
                proof {
                    lemma_lookup_absent(f0, step_id@);
                    assert(views(out@) =~= head + entry_prompts(Seq::<(String, String)>::empty()));
                }
            },
        }
        let ghost before = views(out@);
        out.push(String::from_str(rendered));
        assert(views(out@) =~= before + seq![rendered@]);
        out
    }
}

/// Whether a loop block runs at all: a loop of no passes is exhausted
/// before its body runs.
pub fn loop_may_run(passes_done: u32, max_iters: u32) -> (r: bool)
    ensures
        r == (passes_done < max_iters),
{
    passes_done < max_iters
}

/// Decides what follows a loop pass (`passes_done` passes so far, at
/// least one): converged when the condition holds; another pass, shown
/// the rejection, while passes remain; otherwise `LoopExhausted`.
pub fn loop_step(step_id: &str, passes_done: u32, max_iters: u32, verdict: CheckVerdict) -> (r:
    LoopStep)
    ensures
        verdict.met ==> r is Converged,
        !verdict.met && passes_done < max_iters ==> (r matches LoopStep::Again(fb) && fb@
            == verdict.rationale@),
        !verdict.met && passes_done >= max_iters ==> (r matches LoopStep::Exhausted(
            RuntimeError::LoopExhausted { step, max_iters: m },
        ) && step@ == step_id@ && m == max_iters),
{
    if verdict.met {
        LoopStep::Converged
    } else if passes_done < max_iters {
        LoopStep::Again(verdict.rationale)
    } else {
        LoopStep::Exhausted(
            RuntimeError::LoopExhausted { step: String::from_str(step_id), max_iters },
        )
    }
}

/// The output a tool step records: the tool's result body (JSON text)
/// when it has one, else an error naming step and tool when the tool
/// reported one, else JSON `null`.
pub fn tool_step_output(step_id: &str, tool_id: &str, body: Option<String>, error: Option<String>) -> (r:
    Result<String, RuntimeError>)
    ensures
        match body {
            Some(b) => r matches Ok(o) && o@ == b@,
            None => match error {
                Some(e) => r matches Err(RuntimeError::Internal { message }) && message@
                    == "pipeline step "@ + step_id@ + " (tool "@ + tool_id@ + ") errored: "@ + e@,
                None => r matches Ok(o) && o@ == "null"@,
            },
        },
{
    match body {
        Some(b) => Ok(b),
        None => match error {
            Some(e) => {
                let mut m = String::from_str("pipeline step ");
                m.append(step_id);
                m.append(" (tool ");
                m.append(tool_id);
                m.append(") errored: ");
                m.append(e.as_str());
                Err(RuntimeError::Internal { message: m })
            },
            None => Ok(String::from_str("null")),
        },
    }
}

} // verus!
