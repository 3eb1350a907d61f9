//! Run-scoped store of pipeline step outputs, keyed by step id, and the
//! text each output contributes to templates.

use vstd::prelude::*;

use crate::pipeline::{
    find_key, first_keyed, key_absent, lemma_lookup_absent, lemma_lookup_first,
    lemma_lookup_insert_first, lemma_lookup_insert_other, lemma_lookup_remove, lookup,
};

verus! {

/// A step output: a JSON string, or any other JSON value by its compact
/// text.
#[derive(Debug, Clone, PartialEq, Eq)]
pub enum StepValue {
    /// A JSON string.
    Str(String),
    /// Any other JSON value, rendered compactly.
    Json(String),
}

/// The text a value contributes to a template: a string's own text, any
/// other value's compact JSON.
pub open spec fn template_text(v: StepValue) -> Seq<char> {
    match v {
        StepValue::Str(s) => s@,
        StepValue::Json(t) => t@,
    }
}

/// The keys of `s` are distinct.
pub open spec fn keys_distinct<V>(s: Seq<(String, V)>) -> bool {
    forall|i: int, j: int| 0 <= i < j < s.len() ==> (#[trigger] s[i]).0@ != (#[trigger] s[j]).0@
}

/// Pipeline step outputs accumulated during a run.
#[derive(Debug)]
pub struct OutputStore {
    entries: Vec<(String, StepValue)>,
}

fn clone_value(v: &StepValue) -> (r: StepValue)
    ensures
        r == *v,
{
    match v {
        StepValue::Str(s) => StepValue::Str(s.clone()),
        StepValue::Json(t) => StepValue::Json(t.clone()),
    }
}

impl OutputStore {
    /// The output recorded under `id`, if any.
    pub closed spec fn output(&self, id: Seq<char>) -> Option<StepValue> {
        lookup(self.entries@, id)
    }

    /// The entries are keyed by distinct ids.
    pub closed spec fn wf(&self) -> bool {
        keys_distinct(self.entries@)
    }

    /// The ids recorded, in the order they were first recorded.
    pub closed spec fn ids(&self) -> Seq<Seq<char>> {
        self.entries@.map_values(|e: (String, StepValue)| e.0@)
    }

    /// An empty store.
    pub fn new() -> (s: Self)
        ensures
            s.wf(),
            forall|id: Seq<char>| s.output(id) is None,
    {
        OutputStore { entries: Vec::new() }
    }

    /// Records `id`'s output, replacing an earlier one.
    pub fn insert(&mut self, id: &str, value: StepValue)
        requires
            old(self).wf(),
        ensures
            final(self).wf(),
            final(self).output(id@) == Some(value),
            forall|k: Seq<char>| k != id@ ==> final(self).output(k) == old(self).output(k),
    {
        let ghost s0 = self.entries@;
        match find_key(&self.entries, id) {
            Some(p) => {
                let (k, _) = self.entries.remove(p);
                let ghost s1 = self.entries@;
                let e = (k, value);
                self.entries.insert(p, e);
                proof {
                    assert(s1.take(p as int) =~= s0.take(p as int));
                    lemma_lookup_insert_first(s1, p as int, e);
                    assert forall|c: Seq<char>| c != id@ implies lookup(self.entries@, c) == lookup(s0, c) by {
                        lemma_lookup_remove(s0, p as int, c);
                        lemma_lookup_insert_other(s1, p as int, e, c);
                    }
                    assert forall|i: int, j: int| 0 <= i < j < self.entries@.len() implies (
                    #[trigger] self.entries@[i]).0@ != (#[trigger] self.entries@[j]).0@ by {
                        assert(self.entries@[i].0@ == s0[i].0@);
                        assert(self.entries@[j].0@ == s0[j].0@);
                    }
                }
            },
            None => {
                let e = (String::from_str(id), value);
                self.entries.push(e);
                proof {
                    assert(self.entries@ =~= s0.insert(s0.len() as int, e));
                    assert(s0.take(s0.len() as int) =~= s0);
                    lemma_lookup_insert_first(s0, s0.len() as int, e);
                    assert forall|c: Seq<char>| c != id@ implies lookup(self.entries@, c) == lookup(s0, c) by {
                        lemma_lookup_insert_other(s0, s0.len() as int, e, c);
                    }
                    assert forall|i: int, j: int| 0 <= i < j < self.entries@.len() implies (
                    #[trigger] self.entries@[i]).0@ != (#[trigger] self.entries@[j]).0@ by {
                        if j == s0.len() {
                            assert(self.entries@[i] == s0[i]);
                        } else {
                            assert(self.entries@[i] == s0[i]);
                            assert(self.entries@[j] == s0[j]);
                        }
                    }
                }
            },
        }
    }

    /// The output recorded under `id`, if any.
    pub fn get(&self, id: &str) -> (r: Option<&StepValue>)
        ensures
            match r {
                Some(v) => self.output(id@) == Some(*v),
                None => self.output(id@) is None,
            },
    {
        match find_key(&self.entries, id) {
            Some(p) => {
                proof {
                    lemma_lookup_first(self.entries@, p as int, id@);
                }
                Some(&self.entries[p].1)
            },
            None => {
                proof {
                    lemma_lookup_absent(self.entries@, id@);
                }
                None
            },
        }
    }

    /// Merges another store's outputs into this one; on a shared id the
    /// other store's output wins.
    pub fn merge(&mut self, other: OutputStore)
        requires
            old(self).wf(),
            other.wf(),
        ensures
            final(self).wf(),
            forall|k: Seq<char>|
                #![trigger final(self).output(k)]
                final(self).output(k) == match other.output(k) {
                    Some(v) => Some(v),
                    None => old(self).output(k),
                },
    {
        let ghost base = *self;
        let mut i: usize = 0;
        while i < other.entries.len()
            invariant
                i <= other.entries@.len(),
                self.wf(),
                other.wf(),
                forall|k: Seq<char>|
                    #![trigger self.output(k)]
                    self.output(k) == match lookup(other.entries@.take(i as int), k) {
                        Some(v) => Some(v),
                        None => base.output(k),
                    },
            decreases other.entries@.len() - i,
        {
            let ghost t = other.entries@.take(i as int);
            let ghost e = other.entries@[i as int];
            proof {
                assert(other.entries@.take(i + 1) =~= t.insert(i as int, e));
                assert(key_absent(t, e.0@)) by {
                    assert forall|j: int| 0 <= j < t.len() implies (#[trigger] t[j]).0@ != e.0@ by {
                        assert(t[j] == other.entries@[j]);
                    }
                }
                assert(t.take(i as int) =~= t);
                lemma_lookup_insert_first(t, i as int, e);
                assert forall|c: Seq<char>| c != e.0@ implies lookup(other.entries@.take(i + 1), c)
                    == lookup(t, c) by {
                    lemma_lookup_insert_other(t, i as int, e, c);
                }
            }
            let v = clone_value(&other.entries[i].1);
            self.insert(other.entries[i].0.as_str(), v);
            i = i + 1;
        }
        proof {
            assert(other.entries@.take(other.entries@.len() as int) =~= other.entries@);
        }
    }

    /// The `id -> text` map templates read: every output under its id, a
    /// string as its own text and any other value as compact JSON.
    pub fn template_map(&self) -> (m: Vec<(String, String)>)
        ensures
            forall|k: Seq<char>|
                #![trigger self.output(k)]
                match self.output(k) {
                    Some(v) => lookup(m@, k) matches Some(t) && t@ == template_text(v),
                    None => lookup(m@, k) is None,
                },
    {
        let mut out: Vec<(String, String)> = Vec::new();
        let mut i: usize = 0;
        while i < self.entries.len()
            invariant
                i <= self.entries@.len(),
                out@.len() == i,
                forall|j: int|
                    0 <= j < i ==> (#[trigger] out@[j]).0@ == self.entries@[j].0@ && out@[j].1@
                        == template_text(self.entries@[j].1),
            decreases self.entries@.len() - i,
        {
            let t = match &self.entries[i].1 {
                StepValue::Str(s) => s.clone(),
                StepValue::Json(t) => t.clone(),
            };
            out.push((self.entries[i].0.clone(), t));
            i = i + 1;
        }
        proof {
            assert forall|k: Seq<char>| #![trigger self.output(k)] match self.output(k) {
                Some(v) => lookup(out@, k) matches Some(t) && t@ == template_text(v),
                None => lookup(out@, k) is None,
            } by {
                lemma_lookup_parallel(self.entries@, out@, k);
            }
        }
        out
    }
}

/// Two lists with the same keys in the same order look up at the same
/// positions.
proof fn lemma_lookup_parallel(a: Seq<(String, StepValue)>, b: Seq<(String, String)>, k: Seq<char>)
    requires
        a.len() == b.len(),
        forall|j: int|
            0 <= j < a.len() ==> (#[trigger] b[j]).0@ == a[j].0@ && b[j].1@ == template_text(a[j].1),
    ensures
        match lookup(a, k) {
            Some(v) => lookup(b, k) matches Some(t) && t@ == template_text(v),
            None => lookup(b, k) is None,
        },
    decreases a.len(),
{
    if a.len() > 0 {
        assert(b[0].0@ == a[0].0@);
        if a[0].0@ != k {
            assert forall|j: int| 0 <= j < a.drop_first().len() implies (
            #[trigger] b.drop_first()[j]).0@ == a.drop_first()[j].0@ && b.drop_first()[j].1@
                == template_text(a.drop_first()[j].1) by {
                assert(b.drop_first()[j] == b[j + 1]);
                assert(a.drop_first()[j] == a[j + 1]);
            }
            lemma_lookup_parallel(a.drop_first(), b.drop_first(), k);
        }
    }
}

} // verus!
