//! Subflow capability attenuation. A child agent spawned through a
//! subflow tool runs under that tool's declared capabilities (the frame
//! grant): each of its tool calls is checked against the grant before it
//! reaches the dispatcher. Frames nest, outermost first, so a call passes
//! only when every enclosing frame covers what the called tool requires.

use vstd::prelude::*;

use crate::capability::{
    all_covered, capability_debug, capability_debug_text, capability_kind_str, check_capabilities,
    covered_by, spec_kind_str, Capability,
};
use crate::error::CapabilityDenial;
use crate::pipeline::{find_key, lemma_lookup_absent, lemma_lookup_first, lookup};

verus! {

/// One attenuation frame: the grant a subflow tool imposes, the subflow
/// tool that imposed it and the child agent running under it.
#[derive(Debug)]
pub struct AttenuationFrame {
    /// The subflow tool's declared capabilities.
    pub grant: Vec<Capability>,
    /// The subflow tool's id (the provenance of a denial).
    pub frame: String,
    /// The child agent's id.
    pub agent_id: String,
}

/// What a call to `tool` requires: the capabilities declared on the first
/// tool of that name; none when the module declares no such tool.
pub open spec fn tool_requirements(tools: Seq<(String, Vec<Capability>)>, tool: Seq<char>) -> Seq<
    Capability,
> {
    match lookup(tools, tool) {
        Some(v) => v@,
        None => seq![],
    }
}

/// `k` is the first capability of `required` that `granted` leaves
/// uncovered.
pub open spec fn first_uncovered(granted: Seq<Capability>, required: Seq<Capability>, k: int) -> bool {
    &&& 0 <= k < required.len()
    &&& !covered_by(granted, required[k])
    &&& forall|i: int| 0 <= i < k ==> covered_by(granted, #[trigger] required[i])
}

/// The message of a call denied by a frame: the capability denial of
/// agent `agent_id` (package `ir-agent`) for `tool`, detailed by the
/// missing capability, and the subflow that narrowed the grant.
pub open spec fn frame_denial_text(
    agent_id: Seq<char>,
    tool: Seq<char>,
    missing: Capability,
    frame: Seq<char>,
) -> Seq<char> {
    "agent "@ + agent_id + " (package "@ + "ir-agent"@ + ") lacks capability `"@ + spec_kind_str(missing)
        + "` ("@ + capability_debug_text(missing) + ") required to call tool `"@ + tool + "`"@
        + "; narrowed by subflow `"@ + frame + "`"@
}

/// Every frame of `frames` covers `required`.
pub open spec fn chain_admits(frames: Seq<AttenuationFrame>, required: Seq<Capability>) -> bool {
    forall|f: int| 0 <= f < frames.len() ==> all_covered((#[trigger] frames[f]).grant@, required)
}

/// The requirements of `tool` (empty when absent), copied out.
fn requirements_of<'a>(tools: &'a Vec<(String, Vec<Capability>)>, tool_name: &str) -> (r: &'a [Capability])
    ensures
        r@ == tool_requirements(tools@, tool_name@),
{
    match find_key(tools, tool_name) {
        Some(p) => {
            proof {
                lemma_lookup_first(tools@, p as int, tool_name@);
            }
            tools[p].1.as_slice()
        },
        None => {
            proof {
                lemma_lookup_absent(tools@, tool_name@);
            }
            &[]
        },
    }
}

/// Checks one call against one frame: `None` when the frame's grant
/// covers every capability the called tool requires (a tool the module
/// does not declare requires none), else the denial message for the first
/// requirement left uncovered.
pub fn frame_check(frame: &AttenuationFrame, tool_name: &str, tools: &Vec<(String, Vec<Capability>)>) -> (r:
    Option<String>)
    ensures
        r is None <==> all_covered(frame.grant@, tool_requirements(tools@, tool_name@)),
        r matches Some(t) ==> exists|k: int|
            first_uncovered(frame.grant@, tool_requirements(tools@, tool_name@), k) && t@
                == frame_denial_text(
                frame.agent_id@,
                tool_name@,
                tool_requirements(tools@, tool_name@)[k],
                frame.frame@,
            ),
{
    let required = requirements_of(tools, tool_name);
    match check_capabilities(frame.grant.as_slice(), required) {
        None => None,
        Some(missing) => {
            let kind = capability_kind_str(missing);
            let detail = capability_debug(missing);
            let denial = CapabilityDenial::new(
                frame.agent_id.as_str(),
                "ir-agent",
                tool_name,
                kind.as_str(),
                detail.as_str(),
            );
            let mut msg = denial.to_string();
            let ghost base = msg@;
            msg.append("; narrowed by subflow `");
            msg.append(frame.frame.as_str());
            msg.append("`");
            proof {
                let ghost k = choose|k: int|
                    0 <= k < required@.len() && *missing == required@[k] && !covered_by(
                        frame.grant@,
                        required@[k],
                    ) && forall|i: int| 0 <= i < k ==> covered_by(frame.grant@, #[trigger] required@[i]);
                assert(first_uncovered(frame.grant@, required@, k));
                assert(base == "agent "@ + frame.agent_id@ + " (package "@ + "ir-agent"@
                    + ") lacks capability `"@ + spec_kind_str(required@[k]) + "` ("@
                    + capability_debug_text(required@[k]) + ") required to call tool `"@ + tool_name@
                    + "`"@);
                assert(msg@ =~= frame_denial_text(frame.agent_id@, tool_name@, required@[k], frame.frame@));
            }
            Some(msg)
        },
    }
}

/// Checks one call against nested frames, outermost first, as the chain
/// of attenuating dispatchers does: the denial of the first frame that
/// does not cover the call, or `None` when every frame covers it.
pub fn chain_check(frames: &Vec<AttenuationFrame>, tool_name: &str, tools: &Vec<(String, Vec<Capability>)>) -> (r:
    Option<String>)
    ensures
        r is None <==> chain_admits(frames@, tool_requirements(tools@, tool_name@)),
        r matches Some(t) ==> exists|f: int, k: int|
            0 <= f < frames@.len() && chain_admits(
                frames@.take(f),
                tool_requirements(tools@, tool_name@),
            ) && first_uncovered(frames@[f].grant@, tool_requirements(tools@, tool_name@), k) && t@
                == frame_denial_text(
                frames@[f].agent_id@,
                tool_name@,
                tool_requirements(tools@, tool_name@)[k],
                frames@[f].frame@,
            ),
{
    let ghost req = tool_requirements(tools@, tool_name@);
    let mut i: usize = 0;
    while i < frames.len()
        invariant
            i <= frames@.len(),
            req == tool_requirements(tools@, tool_name@),
            chain_admits(frames@.take(i as int), req),
        decreases frames@.len() - i,
    {
        match frame_check(&frames[i], tool_name, tools) {
            Some(t) => {
                proof {
                    let k = choose|k: int|
                        first_uncovered(frames@[i as int].grant@, req, k) && t@ == frame_denial_text(
                            frames@[i as int].agent_id@,
                            tool_name@,
                            req[k],
                            frames@[i as int].frame@,
                        );
                    assert(!all_covered(frames@[i as int].grant@, req));
                    assert(!chain_admits(frames@, req));
                    assert(0 <= i < frames@.len() && chain_admits(frames@.take(i as int), req)
                        && first_uncovered(frames@[i as int].grant@, req, k));
                }
                return Some(t);
            },
            None => {},
        }
        proof {
            assert forall|f: int| 0 <= f < i + 1 implies all_covered(
                (#[trigger] frames@.take(i + 1)[f]).grant@,
                req,
            ) by {
                if f < i {
                    assert(frames@.take(i + 1)[f] == frames@.take(i as int)[f]);
                }
            }
        }
        i = i + 1;
    }
    assert(frames@.take(frames@.len() as int) =~= frames@);
    None
}

/// Nesting only narrows: a call passes frames `outer` and then `inner`
/// exactly when it passes `outer` and passes `inner`, so the frames
/// compose into the meet of their grants.
pub proof fn law_nested_frames_compose(
    outer: Seq<AttenuationFrame>,
    inner: Seq<AttenuationFrame>,
    required: Seq<Capability>,
)
    ensures
        chain_admits(outer + inner, required) <==> (chain_admits(outer, required) && chain_admits(
            inner,
            required,
        )),
{
    let all = outer + inner;
    if chain_admits(all, required) {
        assert forall|f: int| 0 <= f < outer.len() implies all_covered(
            (#[trigger] outer[f]).grant@,
            required,
        ) by {
            assert(all[f] == outer[f]);
        }
        assert forall|f: int| 0 <= f < inner.len() implies all_covered(
            (#[trigger] inner[f]).grant@,
            required,
        ) by {
            assert(all[outer.len() + f] == inner[f]);
        }
    }
    if chain_admits(outer, required) && chain_admits(inner, required) {
        assert forall|f: int| 0 <= f < all.len() implies all_covered(
            (#[trigger] all[f]).grant@,
            required,
        ) by {
            if f < outer.len() {
                assert(all[f] == outer[f]);
            } else {
                assert(all[f] == inner[f - outer.len()]);
            }
        }
    }
}

/// A tool that declares no capabilities passes every chain of frames.
pub proof fn law_undeclared_tool_passes(frames: Seq<AttenuationFrame>)
    ensures
        chain_admits(frames, seq![]),
{
}

} // verus!
