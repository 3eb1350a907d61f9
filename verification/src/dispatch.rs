//! Dispatch resolution: routing an address to a tool name, and looking
//! up LLM backends and tools in a runtime's registries.

use vstd::prelude::*;

use crate::error::{RuntimeError, ToolError};
use crate::message::Address;
use crate::pipeline::{lemma_seq_lt_total, lemma_seq_lt_transitive, seq_lt, str_lt};
use crate::text::str_eq;

verus! {

/// Converts a recipient address to a tool name: only tool addresses
/// route to tools.
pub fn address_to_tool_name(addr: &Address) -> (r: Option<&str>)
    ensures
        match *addr {
            Address::Tool(name) => r matches Some(s) && s@ == name@,
            _ => r is None,
        },
{
    match addr {
        Address::Tool(name) => Some(name.as_str()),
        _ => None,
    }
}

/// A registry entry keyed by name.
pub open spec fn names_of<V>(entries: Seq<(String, V)>) -> Seq<Seq<char>> {
    entries.map_values(|e: (String, V)| e.0@)
}

/// The registry holds `name` at index `i`.
pub open spec fn holds_at<V>(entries: Seq<(String, V)>, name: Seq<char>, i: int) -> bool {
    0 <= i < entries.len() && entries[i].0@ == name
}

/// The names are strictly ascending.
pub open spec fn names_sorted(v: Seq<Seq<char>>) -> bool {
    forall|i: int, j: int| 0 <= i < j < v.len() ==> seq_lt(#[trigger] v[i], #[trigger] v[j])
}

/// A runtime's plugin registries, each keyed by a distinct name: LLM
/// backends of type `B`, tools of type `T`.
pub struct Runtime<B, T> {
    llm_backends: Vec<(String, B)>,
    tools: Vec<(String, T)>,
}

impl<B, T> Runtime<B, T> {
    /// The backend registry.
    pub closed spec fn backends_view(&self) -> Seq<(String, B)> {
        self.llm_backends@
    }

    /// The tool registry.
    pub closed spec fn tools_view(&self) -> Seq<(String, T)> {
        self.tools@
    }

    /// Registry names are unique.
    pub closed spec fn wf(&self) -> bool {
        &&& forall|i: int, j: int|
            0 <= i < j < self.llm_backends@.len() ==> (#[trigger] self.llm_backends@[i]).0@
                != (#[trigger] self.llm_backends@[j]).0@
        &&& forall|i: int, j: int|
            0 <= i < j < self.tools@.len() ==> (#[trigger] self.tools@[i]).0@
                != (#[trigger] self.tools@[j]).0@
    }

    /// A runtime over the given registries; `None` when a name occurs
    /// twice in one registry.
    pub fn new(llm_backends: Vec<(String, B)>, tools: Vec<(String, T)>) -> (r: Option<Self>)
        ensures
            match r {
                Some(rt) => rt.wf() && rt.backends_view() == llm_backends@ && rt.tools_view()
                    == tools@,
                None => !(forall|i: int, j: int|
                    0 <= i < j < llm_backends@.len() ==> (#[trigger] llm_backends@[i]).0@
                        != (#[trigger] llm_backends@[j]).0@) || !(forall|i: int, j: int|
                    0 <= i < j < tools@.len() ==> (#[trigger] tools@[i]).0@
                        != (#[trigger] tools@[j]).0@),
            },
    {
        if distinct_names(&llm_backends) && distinct_names(&tools) {
            Some(Runtime { llm_backends, tools })
        } else {
            None
        }
    }

    /// Resolves an LLM backend by name, or fails with
    /// `LlmBackendNotRegistered` naming the agent and the backend.
    pub fn resolve_llm_backend(&self, agent_id: &str, backend_name: &str) -> (r: Result<
        &B,
        RuntimeError,
    >)
        ensures
            match r {
                Ok(b) => exists|i: int|
                    holds_at(self.backends_view(), backend_name@, i) && *b == self.backends_view()[i].1,
                Err(e) => (forall|i: int|
                    0 <= i < self.backends_view().len() ==> (#[trigger] self.backends_view()[i]).0@
                        != backend_name@) && (e matches RuntimeError::LlmBackendNotRegistered {
                    agent_id: a,
                    backend,
                } && a@ == agent_id@ && backend@ == backend_name@),
            },
    {
        let mut i: usize = 0;
        while i < self.llm_backends.len()
            invariant
                i <= self.llm_backends@.len(),
                forall|j: int| 0 <= j < i ==> (#[trigger] self.llm_backends@[j]).0@ != backend_name@,
            decreases self.llm_backends@.len() - i,
        {
            if str_eq(self.llm_backends[i].0.as_str(), backend_name) {
                assert(holds_at(self.backends_view(), backend_name@, i as int));
                return Ok(&self.llm_backends[i].1);
            }
            i = i + 1;
        }
        Err(
            RuntimeError::LlmBackendNotRegistered {
                agent_id: String::from_str(agent_id),
                backend: String::from_str(backend_name),
            },
        )
    }

    /// Resolves a tool by name, or fails with `ToolNotRegistered`
    /// carrying the registered tool names in ascending order.
    pub fn resolve_tool(&self, tool_name: &str) -> (r: Result<&T, RuntimeError>)
        requires
            self.wf(),
        ensures
            match r {
                Ok(t) => exists|i: int|
                    holds_at(self.tools_view(), tool_name@, i) && *t == self.tools_view()[i].1,
                Err(e) => (forall|i: int|
                    0 <= i < self.tools_view().len() ==> (#[trigger] self.tools_view()[i]).0@
                        != tool_name@) && (e matches RuntimeError::ToolNotRegistered {
                    tool_name: t,
                    registered,
                } && t@ == tool_name@ && names_sorted(
                    registered@.map_values(|s: String| s@),
                ) && registered@.map_values(|s: String| s@).to_multiset() == names_of(
                    self.tools_view(),
                ).to_multiset()),
            },
    {
        let mut i: usize = 0;
        while i < self.tools.len()
            invariant
                i <= self.tools@.len(),
                forall|j: int| 0 <= j < i ==> (#[trigger] self.tools@[j]).0@ != tool_name@,
            decreases self.tools@.len() - i,
        {
            if str_eq(self.tools[i].0.as_str(), tool_name) {
                assert(holds_at(self.tools_view(), tool_name@, i as int));
                return Ok(&self.tools[i].1);
            }
            i = i + 1;
        }
        let registered = sorted_names(&self.tools);
        Err(RuntimeError::ToolNotRegistered { tool_name: String::from_str(tool_name), registered })
    }
}

fn distinct_names<V>(v: &Vec<(String, V)>) -> (r: bool)
    ensures
        r == (forall|i: int, j: int|
            0 <= i < j < v@.len() ==> (#[trigger] v@[i]).0@ != (#[trigger] v@[j]).0@),
{
    let mut j: usize = 0;
    while j < v.len()
        invariant
            j <= v@.len(),
            forall|a: int, b: int| 0 <= a < b < j ==> (#[trigger] v@[a]).0@ != (#[trigger] v@[b]).0@,
        decreases v@.len() - j,
    {
        let mut i: usize = 0;
        while i < j
            invariant
                i <= j < v@.len(),
                forall|a: int, b: int| 0 <= a < b < j ==> (#[trigger] v@[a]).0@ != (#[trigger] v@[b]).0@,
                forall|a: int| 0 <= a < i ==> (#[trigger] v@[a]).0@ != v@[j as int].0@,
            decreases j - i,
        {
            if str_eq(v[i].0.as_str(), v[j].0.as_str()) {
                return false;
            }
            i = i + 1;
        }
        j = j + 1;
    }
    true
}

/// The names of a registry with distinct names, in ascending order.
fn sorted_names<V>(v: &Vec<(String, V)>) -> (r: Vec<String>)
    requires
        forall|i: int, j: int| 0 <= i < j < v@.len() ==> (#[trigger] v@[i]).0@ != (#[trigger] v@[j]).0@,
    ensures
        names_sorted(r@.map_values(|s: String| s@)),
        r@.map_values(|s: String| s@).to_multiset() == names_of(v@).to_multiset(),
{
    let mut out: Vec<String> = Vec::new();
    let mut k: usize = 0;
    assert(names_of(v@.take(0)) =~= Seq::<Seq<char>>::empty());
    assert(out@.map_values(|s: String| s@) =~= Seq::<Seq<char>>::empty());
    while k < v.len()
        invariant
            k <= v@.len(),
            forall|i: int, j: int| 0 <= i < j < v@.len() ==> (#[trigger] v@[i]).0@ != (#[trigger] v@[j]).0@,
            names_sorted(out@.map_values(|s: String| s@)),
            out@.map_values(|s: String| s@).to_multiset() == names_of(v@.take(k as int)).to_multiset(),
            forall|a: int| 0 <= a < out@.len() ==> exists|b: int| 0 <= b < k && (#[trigger] out@[a])@ == v@[b].0@,
        decreases v@.len() - k,
    {
        let name = &v[k].0;
        let mut p: usize = 0;
        while p < out.len() && str_lt(out[p].as_str(), name.as_str())
            invariant
                p <= out@.len(),
                forall|j: int| 0 <= j < p ==> seq_lt((#[trigger] out@[j])@, name@),
            decreases out@.len() - p,
        {
            p = p + 1;
        }
        let ghost o0 = out@.map_values(|s: String| s@);
        let ghost s0 = out@;
        proof {
            if p < out@.len() {
                assert(!seq_lt(out@[p as int]@, name@));
                let b = choose|b: int| 0 <= b < k && out@[p as int]@ == v@[b].0@;
                assert(v@[b].0@ != v@[k as int].0@);
                lemma_seq_lt_total(out@[p as int]@, name@);
            }
        }
        out.insert(p, name.clone());
        proof {
            let o1 = out@.map_values(|s: String| s@);
            assert(o1 =~= o0.insert(p as int, name@));
            assert(names_of(v@.take(k + 1)) =~= names_of(v@.take(k as int)).push(name@));
            let t = o0.insert(p as int, name@);
            o0.to_multiset_ensures();
            t.to_multiset_ensures();
            names_of(v@.take(k as int)).to_multiset_ensures();
            assert(t.remove(p as int) =~= o0);
            assert(t.to_multiset().count(name@) > 0) by {
                assert(t[p as int] == name@);
                assert(t.contains(name@));
            }
            assert(t.to_multiset() =~= o0.to_multiset().insert(name@));
            assert forall|i: int, j: int| 0 <= i < j < o1.len() implies seq_lt(
                #[trigger] o1[i],
                #[trigger] o1[j],
            ) by {
                if j == p {
                    assert(o1[i] == o0[i]);
                } else if i == p {
                    assert(o1[j] == o0[j - 1]);
                    if j - 1 > p {
                        assert(seq_lt(o0[p as int], o0[j - 1]));
                        lemma_seq_lt_transitive(name@, o0[p as int], o0[j - 1]);
                    }
                } else if j < p {
                    assert(o1[i] == o0[i]);
                    assert(o1[j] == o0[j]);
                } else if i < p {
                    assert(o1[i] == o0[i]);
                    assert(o1[j] == o0[j - 1]);
                    if j - 1 == p {
                        lemma_seq_lt_transitive(o0[i], name@, o0[j - 1]);
                    } else {
                        assert(seq_lt(o0[p as int], o0[j - 1]));
                        lemma_seq_lt_transitive(name@, o0[p as int], o0[j - 1]);
                        lemma_seq_lt_transitive(o0[i], name@, o0[j - 1]);
                    }
                } else {
                    assert(o1[i] == o0[i - 1]);
                    assert(o1[j] == o0[j - 1]);
                }
            }
            assert forall|a: int| 0 <= a < out@.len() implies exists|b: int|
                0 <= b < k + 1 && (#[trigger] out@[a])@ == v@[b].0@ by {
                if a < p {
                    assert(out@[a] == s0[a]);
                } else if a > p {
                    assert(out@[a] == s0[a - 1]);
                } else {
                    assert(out@[a]@ == v@[k as int].0@);
                }
            }
        }
        k = k + 1;
    }
    assert(v@.take(v@.len() as int) =~= v@);
    out
}

} // verus!

verus! {

/// What a capability resolver made of a package's declared grant.
#[derive(Debug)]
pub enum GrantResolution {
    /// The grants for the kernel's dispatch check and for tool sessions.
    Resolved { for_kernel: Vec<crate::capability::Capability>, for_session: Vec<crate::capability::Capability> },
    /// A project override tried to widen the grant.
    Expands { kind: String, reason: String },
}

/// `b` holds the same capabilities as `a`, in order.
pub open spec fn caps_eq(a: Seq<crate::capability::Capability>, b: Seq<crate::capability::Capability>) -> bool {
    a.len() == b.len() && forall|i: int| 0 <= i < a.len() ==> crate::capability::cap_eq(#[trigger] b[i], a[i])
}

fn clone_caps(v: &Vec<crate::capability::Capability>) -> (r: Vec<crate::capability::Capability>)
    ensures
        caps_eq(v@, r@),
{
    let mut out: Vec<crate::capability::Capability> = Vec::new();
    let mut i: usize = 0;
    while i < v.len()
        invariant
            i <= v@.len(),
            out@.len() == i,
            forall|j: int| 0 <= j < i ==> crate::capability::cap_eq(#[trigger] out@[j], v@[j]),
        decreases v@.len() - i,
    {
        out.push(crate::skill::clone_capability(&v[i]));
        i = i + 1;
    }
    out
}

/// The grants a run uses, for the kernel's dispatch check and for tool
/// sessions: a spawned child's override grant for both when there is
/// one; else what the capability resolver gave (`resolution`, `None`
/// when there is no resolver), a widening override failing the run;
/// else the package's declared capabilities for both.
pub fn effective_grants(
    override_grant: Option<&Vec<crate::capability::Capability>>,
    resolution: Option<GrantResolution>,
    manifest: &Vec<crate::capability::Capability>,
) -> (r: Result<(Vec<crate::capability::Capability>, Vec<crate::capability::Capability>), RuntimeError>)
    ensures
        match override_grant {
            Some(o) => r matches Ok((k, s)) && caps_eq(o@, k@) && caps_eq(o@, s@),
            None => match resolution {
                Some(GrantResolution::Resolved { for_kernel, for_session }) => r matches Ok((k, s))
                    && k@ == for_kernel@ && s@ == for_session@,
                Some(GrantResolution::Expands { kind, reason }) => r matches Err(
                    RuntimeError::CapabilityOverrideExpands { kind: k2, reason: r2 },
                ) && k2@ == kind@ && r2@ == reason@,
                None => r matches Ok((k, s)) && caps_eq(manifest@, k@) && caps_eq(manifest@, s@),
            },
        },
{
    match override_grant {
        Some(o) => Ok((clone_caps(o), clone_caps(o))),
        None => match resolution {
            Some(GrantResolution::Resolved { for_kernel, for_session }) => Ok((for_kernel, for_session)),
            Some(GrantResolution::Expands { kind, reason }) => Err(
                RuntimeError::CapabilityOverrideExpands { kind, reason },
            ),
            None => Ok((clone_caps(manifest), clone_caps(manifest))),
        },
    }
}

/// The message a direct tool invocation is refused with when the
/// package's grant leaves `missing` uncovered: `capability denied: ` and
/// the capability denial of agent `agent_id` (package `package_id`) for
/// `tool`, detailed by the missing capability.
pub open spec fn invocation_denial_text(
    agent_id: Seq<char>,
    package_id: Seq<char>,
    tool: Seq<char>,
    missing: crate::capability::Capability,
) -> Seq<char> {
    "capability denied: "@ + ("agent "@ + agent_id + " (package "@ + package_id
        + ") lacks capability `"@ + crate::capability::spec_kind_str(missing) + "` ("@
        + crate::capability::capability_debug_text(missing) + ") required to call tool `"@ + tool
        + "`"@)
}

/// The capability check of a direct tool invocation (outside an agent
/// run): allowed when the package's grant covers every capability the
/// tool requires; otherwise an internal error naming the first one left
/// uncovered.
pub fn invocation_check(
    agent_id: &str,
    package_id: &str,
    tool_name: &str,
    granted: &[crate::capability::Capability],
    required: &[crate::capability::Capability],
) -> (r: Result<(), RuntimeError>)
    ensures
        r is Ok <==> crate::capability::all_covered(granted@, required@),
        r matches Err(e) ==> exists|k: int|
            crate::attenuate::first_uncovered(granted@, required@, k) && (e
                matches RuntimeError::Internal { message } && message@ == invocation_denial_text(
                agent_id@,
                package_id@,
                tool_name@,
                required@[k],
            )),
{
    match crate::capability::check_capabilities(granted, required) {
        None => Ok(()),
        Some(missing) => {
            let kind = crate::capability::capability_kind_str(missing);
            let detail = crate::capability::capability_debug(missing);
            let denial = crate::error::CapabilityDenial::new(
                agent_id,
                package_id,
                tool_name,
                kind.as_str(),
                detail.as_str(),
            );
            let d = denial.to_string();
            let message = crate::text::concat2("capability denied: ", d.as_str());
            proof {
                let k = choose|k: int|
                    0 <= k < required@.len() && *missing == required@[k]
                        && !crate::capability::covered_by(granted@, required@[k]) && forall|i: int|
                        0 <= i < k ==> crate::capability::covered_by(granted@, #[trigger] required@[i]);
                assert(crate::attenuate::first_uncovered(granted@, required@, k));
                assert(message@ =~= invocation_denial_text(agent_id@, package_id@, tool_name@, required@[k]));
            }
            Err(RuntimeError::Internal { message })
        },
    }
}

/// What a direct tool invocation gives back: a session that failed to
/// open (`init`) is the run's tool error, and nothing was invoked;
/// otherwise (`invoked`: the invocation's result and the teardown's) the
/// invocation's own result, its error as the run's tool error. A failed
/// teardown never masks the result.
pub fn invocation_outcome<T>(
    init: Result<(), ToolError>,
    invoked: Option<(Result<T, ToolError>, Result<(), ToolError>)>,
) -> (r: Result<T, RuntimeError>)
    requires
        init is Ok <==> invoked is Some,
    ensures
        match init {
            Err(e) => r == Err::<T, RuntimeError>(RuntimeError::Tool(e)),
            Ok(()) => match invoked->Some_0.0 {
                Ok(v) => r == Ok::<T, RuntimeError>(v),
                Err(e) => r == Err::<T, RuntimeError>(RuntimeError::Tool(e)),
            },
        },
{
    match init {
        Err(e) => Err(RuntimeError::Tool(e)),
        Ok(()) => match invoked {
            Some((result, _teardown)) => match result {
                Ok(v) => Ok(v),
                Err(e) => Err(RuntimeError::Tool(e)),
            },
            None => Err(RuntimeError::Internal { message: String::new() }),
        },
    }
}

} // verus!
