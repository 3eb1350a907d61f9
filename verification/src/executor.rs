//! The pipeline executor's walk over one slice of steps, as a state
//! machine. The host performs each action (evaluating a condition,
//! running a nested slice, rendering a step's input, running an agent or
//! a tool) and hands back what came of it as the next event; the walk
//! decides what follows: advance, rewind to a check's gate, run a loop
//! pass again, or end the slice.

use vstd::prelude::*;

use crate::check::CheckVerdict;
use crate::error::RuntimeError;
use crate::output_store::{OutputStore, StepValue};
use crate::pipeline::{
    attempt_count, check_feedback_prompt, entry_lookup, entry_prompts, feedback_of, gate_entries,
    last_index_of, loop_feedback_prompt, loop_step, lookup, views, CheckStep, LoopStep, OnFail, PipelineCursor, RetryPolicy,
};
use crate::text::concat2;

verus! {

/// What a pipeline step does, as far as the walk decides on it.
#[derive(Debug)]
pub enum StepKind {
    /// Evaluate a check (its id, its kind, `goal` or `deliverable`, and
    /// its retry policy).
    Check { check_id: String, kind: String, policy: RetryPolicy },
    /// Evaluate a condition and run one of two arms.
    Branch,
    /// Run a body up to `max_iters` times until a condition holds.
    Loop { max_iters: u32 },
    /// Run branches over snapshots of the store and merge them.
    Parallel,
    /// Wait for a resume signal (not supported).
    Suspend { resume_signal: String },
    /// Run an agent on the rendered input.
    Agent,
    /// Run a tool or a deterministic step on the rendered input.
    Work,
}

/// One step of a slice: its id and what it does.
#[derive(Debug)]
pub struct WalkStep {
    pub id: String,
    pub kind: StepKind,
}

/// Where the walk stands.
#[derive(Debug, Clone, Copy, PartialEq, Eq, Structural)]
pub enum WalkPhase {
    /// At the step `index`, about to enter it.
    Ready,
    /// A check is being evaluated.
    Evaluating,
    /// A branch condition is being evaluated.
    Branching,
    /// A branch arm runs.
    ArmRunning,
    /// A loop pass runs.
    LoopRunning,
    /// A loop condition is being evaluated.
    Until,
    /// Parallel branches run.
    Parallel,
    /// The step's input is being rendered.
    Rendering,
    /// The agent, tool or deterministic step runs.
    Running,
    /// The slice has ended.
    Done,
}

/// Which nested slice of a step to run.
#[derive(Debug, Clone, Copy, PartialEq, Eq, Structural)]
pub enum Arm {
    /// A branch's `then` arm.
    Then,
    /// A branch's `otherwise` arm.
    Otherwise,
    /// A loop's body.
    Body,
}

/// What the host hands back.
#[derive(Debug)]
pub enum WalkEvent {
    /// Begin, or the reported action is done.
    Next,
    /// The condition asked for was evaluated.
    Verdict(CheckVerdict),
    /// The nested slice (an arm, a loop pass, the parallel branches) ran.
    SliceDone,
    /// The step's input rendered to this text.
    Rendered(String),
    /// The step's input template failed to render; the rendered error.
    RenderFailed(String),
    /// The step ran and its output is stored.
    StepDone,
    /// The work asked for failed with this error.
    Failed(RuntimeError),
}

/// What the walk asks the host to do next.
#[derive(Debug)]
pub enum WalkAction {
    /// Evaluate the check, branch condition or loop condition of this step:
    /// hand back `Verdict` (or `Failed`).
    Evaluate { step: usize },
    /// Report that a check passed on this attempt, then hand back `Next`.
    CheckPassed { id: String, attempt: u32 },
    /// Report that a check failed on this attempt and the walk rewinds to
    /// the step at `rewind_to`, then hand back `Next`.
    CheckRetry { id: String, attempt: u32, rewind_to: usize },
    /// A check failed on this attempt and ends the slice with `error`.
    CheckAbort { id: String, attempt: u32, error: RuntimeError },
    /// Run this nested slice of the step (a loop pass shown `feedback`):
    /// hand back `SliceDone` (or `Failed`).
    RunArm { step: usize, arm: Arm, feedback: Option<String> },
    /// Run the step's parallel branches and merge their stores in order:
    /// hand back `SliceDone` (or `Failed`).
    RunParallel { step: usize },
    /// Render the step's input template: `Rendered` or `RenderFailed`.
    Render { step: usize },
    /// Run the step's agent on these user turns, store its answer:
    /// `StepDone` (or `Failed`).
    RunAgent { step: usize, prompts: Vec<String> },
    /// Run the step's tool or deterministic step on the rendered input,
    /// store its output: `StepDone` (or `Failed`).
    RunWork { step: usize, rendered: String },
    /// The slice ended.
    Finished(Result<(), RuntimeError>),
    /// Nothing to do: the event did not fit the phase (or the slice ended).
    Idle,
}

/// The walk over one slice of steps.
#[derive(Debug)]
pub struct SliceWalk {
    /// The slice's steps.
    pub steps: Vec<WalkStep>,
    /// Their ids, in order.
    pub ids: Vec<String>,
    /// The step the walk is at.
    pub index: usize,
    /// Attempts and feedback.
    pub cursor: PipelineCursor,
    /// Where the walk stands.
    pub phase: WalkPhase,
    /// Loop passes done at the current loop step.
    pub passes: u32,
}

/// The ids of a list of steps.
pub open spec fn step_ids(steps: Seq<WalkStep>) -> Seq<Seq<char>> {
    steps.map_values(|s: WalkStep| s.id@)
}

/// The phase fits the kind of step it stands at.
pub open spec fn phase_fits(p: WalkPhase, k: StepKind, passes: u32) -> bool {
    match p {
        WalkPhase::Evaluating => k is Check,
        WalkPhase::Branching | WalkPhase::ArmRunning => k is Branch,
        WalkPhase::LoopRunning => k matches StepKind::Loop { max_iters } && passes < max_iters,
        WalkPhase::Until => k matches StepKind::Loop { max_iters } && 1 <= passes <= max_iters,
        WalkPhase::Parallel => k is Parallel,
        WalkPhase::Rendering | WalkPhase::Running => k is Agent || k is Work,
        _ => true,
    }
}

/// `n` keeps the steps of `o`.
pub open spec fn same_slice(o: SliceWalk, n: SliceWalk) -> bool {
    n.steps == o.steps && n.ids == o.ids
}

/// `n` is `o` in phase `p`, at the same step, with the same bookkeeping.
pub open spec fn moved_to(o: SliceWalk, n: SliceWalk, p: WalkPhase) -> bool {
    &&& same_slice(o, n)
    &&& n.index == o.index
    &&& n.cursor == o.cursor
    &&& n.passes == o.passes
    &&& n.phase == p
}

/// The walk enters step `k` of `o`: the slice ends when no step is left;
/// a check, branch or loop condition is evaluated; a loop of no passes is
/// exhausted, else its body runs; parallel branches run; a suspend block
/// ends the slice with `SuspendNotImplemented`; any other step renders its
/// input.
pub open spec fn entered(o: SliceWalk, k: int, n: SliceWalk, a: WalkAction) -> bool {
    &&& same_slice(o, n)
    &&& n.index == k
    &&& n.cursor == o.cursor
    &&& n.phase != WalkPhase::LoopRunning ==> n.passes == o.passes
    &&& if k >= o.steps@.len() {
        n.phase == WalkPhase::Done && a == WalkAction::Finished(Ok(()))
    } else {
        let s = o.steps@[k];
        match s.kind {
            StepKind::Check { .. } => n.phase == WalkPhase::Evaluating && a == WalkAction::Evaluate {
                step: k as usize,
            },
            StepKind::Branch => n.phase == WalkPhase::Branching && a == WalkAction::Evaluate {
                step: k as usize,
            },
            StepKind::Loop { max_iters } => if max_iters == 0 {
                &&& n.phase == WalkPhase::Done
                &&& a matches WalkAction::Finished(
                    Err(RuntimeError::LoopExhausted { step, max_iters: m }),
                )
                &&& step@ == s.id@ && m == 0
            } else {
                &&& n.phase == WalkPhase::LoopRunning
                &&& n.passes == 0
                &&& a == WalkAction::RunArm { step: k as usize, arm: Arm::Body, feedback: None }
            },
            StepKind::Parallel => n.phase == WalkPhase::Parallel && a == WalkAction::RunParallel {
                step: k as usize,
            },
            StepKind::Suspend { resume_signal } => {
                &&& n.phase == WalkPhase::Done
                &&& a matches WalkAction::Finished(
                    Err(RuntimeError::SuspendNotImplemented { step, resume_signal: r }),
                )
                &&& step@ == s.id@ && r@ == resume_signal@
            },
            StepKind::Agent | StepKind::Work => n.phase == WalkPhase::Rendering && a
                == WalkAction::Render { step: k as usize },
        }
    }
}

/// What follows an evaluated check: its attempt count goes up by one; a
/// pass clears its feedback and advances; a failure under an aborting
/// policy, or on the last allowed attempt, ends the slice with
/// `CheckFailed`; otherwise the rationale is registered for its gate and
/// the walk rewinds to its gate step (an internal error when no step has
/// that id). No other check's count or feedback changes.
pub open spec fn check_decided(o: SliceWalk, v: CheckVerdict, n: SliceWalk, a: WalkAction) -> bool {
    match o.steps@[o.index as int].kind {
        StepKind::Check { check_id, kind, policy } => {
            let attempt = attempt_count(o.cursor.attempts_view(), check_id@) + 1;
            &&& same_slice(o, n)
            &&& n.passes == o.passes
            &&& attempt_count(n.cursor.attempts_view(), check_id@) == attempt
            &&& forall|c: Seq<char>|
                c != check_id@ ==> attempt_count(n.cursor.attempts_view(), c) == attempt_count(
                    o.cursor.attempts_view(),
                    c,
                )
            &&& forall|g: Seq<char>, c: Seq<char>|
                !(g == policy.gate@ && c == check_id@) ==> feedback_of(
                    n.cursor.feedback_view(),
                    g,
                    c,
                ) == feedback_of(o.cursor.feedback_view(), g, c)
            &&& n.cursor.pending_view() == o.cursor.pending_view()
            &&& if v.met {
                &&& n.index == o.index + 1
                &&& n.phase == WalkPhase::Ready
                &&& a matches WalkAction::CheckPassed { id, attempt: t }
                &&& id@ == check_id@ && t == attempt
                &&& feedback_of(n.cursor.feedback_view(), policy.gate@, check_id@) is None
            } else if policy.on_fail == OnFail::Abort || attempt >= policy.max_attempts {
                &&& n.phase == WalkPhase::Done
                &&& n.index == o.index
                &&& a matches WalkAction::CheckAbort {
                    id,
                    attempt: t,
                    error: RuntimeError::CheckFailed { id: eid, kind: k, rationale, attempt: ea },
                }
                &&& id@ == check_id@ && t == attempt && eid@ == check_id@ && k@ == kind@
                &&& rationale@ == v.rationale@ && ea == attempt
            } else {
                match last_index_of(o.ids@, policy.gate@) {
                    Some(gi) => {
                        &&& n.index == gi
                        &&& n.phase == WalkPhase::Ready
                        &&& a matches WalkAction::CheckRetry { id, attempt: t, rewind_to }
                        &&& id@ == check_id@ && t == attempt && rewind_to == gi
                        &&& feedback_of(n.cursor.feedback_view(), policy.gate@, check_id@) == Some(
                            v.rationale@,
                        )
                    },
                    None => {
                        &&& n.phase == WalkPhase::Done
                        &&& n.index == o.index
                        &&& a matches WalkAction::CheckAbort {
                            id,
                            attempt: t,
                            error: RuntimeError::Internal { message },
                        }
                        &&& id@ == check_id@ && t == attempt
                        &&& message@ == "check "@ + check_id@ + " rewinds to unknown gate step "@
                            + policy.gate@
                    },
                }
            }
        },
        _ => false,
    }
}

/// One step of the walk from `o` on event `e` to `n`, answering `a`.
///
/// In order: a check is evaluated and decided (`check_decided`); a branch
/// runs the arm its condition picks, then advances; a loop runs its body,
/// evaluates its condition after each pass, and advances once it holds,
/// runs another pass shown the rejection while passes remain, and ends
/// the slice with `LoopExhausted` otherwise; parallel branches run, then
/// the walk advances; an agent step gets its user turns (the pending loop
/// rejection, then one labelled rejection per check gated on it, then its
/// rendered input), a tool or deterministic step its rendered input, and
/// the walk advances once it has run. A failed render ends the slice with
/// an internal error naming the step; a failure handed back ends it with
/// that failure. After the end, and on an event that does not fit the
/// phase, nothing changes.
pub open spec fn walk_step_spec(o: SliceWalk, e: WalkEvent, n: SliceWalk, a: WalkAction) -> bool {
    let k = o.index as int;
    if o.phase == WalkPhase::Done {
        n == o && a is Idle
    } else {
        match e {
            WalkEvent::Next => if o.phase == WalkPhase::Ready {
                entered(o, k, n, a)
            } else {
                n == o && a is Idle
            },
            WalkEvent::Verdict(v) => if o.phase == WalkPhase::Evaluating {
                check_decided(o, v, n, a)
            } else if o.phase == WalkPhase::Branching {
                &&& moved_to(o, n, WalkPhase::ArmRunning)
                &&& a == WalkAction::RunArm {
                    step: o.index,
                    arm: if v.met {
                        Arm::Then
                    } else {
                        Arm::Otherwise
                    },
                    feedback: None,
                }
            } else if o.phase == WalkPhase::Until {
                match o.steps@[k].kind {
                    StepKind::Loop { max_iters } => if v.met {
                        entered(o, k + 1, n, a)
                    } else if o.passes < max_iters {
                        &&& same_slice(o, n) && n.index == o.index && n.cursor == o.cursor
                        &&& n.phase == WalkPhase::LoopRunning && n.passes == o.passes
                        &&& a matches WalkAction::RunArm { step, arm, feedback: Some(fb) }
                        &&& step == o.index && arm == Arm::Body && fb@ == v.rationale@
                    } else {
                        &&& moved_to(o, n, WalkPhase::Done)
                        &&& a matches WalkAction::Finished(
                            Err(RuntimeError::LoopExhausted { step, max_iters: m }),
                        )
                        &&& step@ == o.steps@[k].id@ && m == max_iters
                    },
                    _ => false,
                }
            } else {
                n == o && a is Idle
            },
            WalkEvent::SliceDone => if o.phase == WalkPhase::ArmRunning || o.phase
                == WalkPhase::Parallel {
                entered(o, k + 1, n, a)
            } else if o.phase == WalkPhase::LoopRunning {
                &&& same_slice(o, n) && n.index == o.index && n.cursor == o.cursor
                &&& n.phase == WalkPhase::Until && n.passes == o.passes + 1
                &&& a == WalkAction::Evaluate { step: o.index }
            } else {
                n == o && a is Idle
            },
            WalkEvent::Rendered(t) => if o.phase == WalkPhase::Rendering {
                match o.steps@[k].kind {
                    StepKind::Agent => {
                        let sid = o.steps@[k].id@;
                        &&& same_slice(o, n) && n.index == o.index && n.passes == o.passes
                        &&& n.phase == WalkPhase::Running
                        &&& n.cursor.wf()
                        &&& n.cursor.pending_view() is None
                        &&& n.cursor.feedback_view() == o.cursor.feedback_view()
                        &&& n.cursor.attempts_view() == o.cursor.attempts_view()
                        &&& a matches WalkAction::RunAgent { step, prompts }
                        &&& step == o.index
                        &&& views(prompts@) == (match o.cursor.pending_view() {
                            Some(fb) => seq![loop_feedback_prompt(fb)],
                            None => Seq::<Seq<char>>::empty(),
                        }) + entry_prompts(gate_entries(o.cursor.feedback_view(), sid)) + seq![t@]
                    },
                    _ => {
                        &&& moved_to(o, n, WalkPhase::Running)
                        &&& a matches WalkAction::RunWork { step, rendered }
                        &&& step == o.index && rendered@ == t@
                    },
                }
            } else {
                n == o && a is Idle
            },
            WalkEvent::RenderFailed(m) => if o.phase == WalkPhase::Rendering {
                &&& moved_to(o, n, WalkPhase::Done)
                &&& a matches WalkAction::Finished(Err(RuntimeError::Internal { message }))
                &&& message@ == "pipeline step "@ + o.steps@[k].id@ + ": "@ + m@
            } else {
                n == o && a is Idle
            },
            WalkEvent::StepDone => if o.phase == WalkPhase::Running {
                entered(o, k + 1, n, a)
            } else {
                n == o && a is Idle
            },
            WalkEvent::Failed(err) => if o.phase == WalkPhase::Ready {
                n == o && a is Idle
            } else {
                moved_to(o, n, WalkPhase::Done) && a == WalkAction::Finished(Err(err))
            },
        }
    }
}

impl SliceWalk {
    /// The walk is well formed: its ids are its steps' ids, and its phase
    /// fits the step it stands at.
    pub open spec fn wf(&self) -> bool {
        &&& self.cursor.wf()
        &&& views(self.ids@) == step_ids(self.steps@)
        &&& self.index <= self.steps@.len()
        &&& (self.phase != WalkPhase::Ready && self.phase != WalkPhase::Done) ==> (self.index
            < self.steps@.len() && phase_fits(
            self.phase,
            self.steps@[self.index as int].kind,
            self.passes,
        ))
    }

    /// The walk can take `e`: a check's verdict comes only while its
    /// attempt count can go up by one.
    pub open spec fn admits(&self, e: WalkEvent) -> bool {
        (self.phase == WalkPhase::Evaluating && e is Verdict && self.index < self.steps@.len())
            ==> match self.steps@[self.index as int].kind {
            StepKind::Check { check_id, .. } => attempt_count(
                self.cursor.attempts_view(),
                check_id@,
            ) < u32::MAX,
            _ => true,
        }
    }
}

impl SliceWalk {
    /// A walk over `steps` from the first, with no attempts and no
    /// feedback, showing `initial_feedback` (a prior loop pass's
    /// rejection) at the first agent step.
    pub fn new(steps: Vec<WalkStep>, initial_feedback: Option<String>) -> (w: SliceWalk)
        ensures
            w.wf(),
            w.steps@ == steps@,
            w.index == 0,
            w.phase == WalkPhase::Ready,
            forall|c: Seq<char>| attempt_count(w.cursor.attempts_view(), c) == 0,
            forall|g: Seq<char>, c: Seq<char>| feedback_of(w.cursor.feedback_view(), g, c) is None,
            w.cursor.pending_view() == (match initial_feedback {
                Some(s) => Some(s@),
                None => None::<Seq<char>>,
            }),
    {
        let mut ids: Vec<String> = Vec::new();
        let mut i: usize = 0;
        while i < steps.len()
            invariant
                i <= steps@.len(),
                ids@.len() == i,
                forall|j: int| 0 <= j < i ==> (#[trigger] ids@[j])@ == steps@[j].id@,
            decreases steps@.len() - i,
        {
            ids.push(steps[i].id.clone());
            i = i + 1;
        }
        assert(views(ids@) =~= step_ids(steps@));
        let cursor = PipelineCursor::new(initial_feedback);
        SliceWalk { steps, ids, index: 0, cursor, phase: WalkPhase::Ready, passes: 0 }
    }

    /// Whether the walk can take `e` (see `admits`).
    pub fn can_take(&self, e: &WalkEvent) -> (r: bool)
        requires
            self.wf(),
        ensures
            r == self.admits(*e),
    {
        if self.phase == WalkPhase::Evaluating && self.index < self.steps.len() {
            match e {
                WalkEvent::Verdict(_) => match &self.steps[self.index].kind {
                    StepKind::Check { check_id, .. } => self.cursor.attempts_of(check_id.as_str())
                        < u32::MAX,
                    _ => true,
                },
                _ => true,
            }
        } else {
            true
        }
    }
}

/// Enters step `k`.
fn enter(w: &mut SliceWalk, k: usize) -> (a: WalkAction)
    requires
        old(w).wf(),
        k <= old(w).steps@.len(),
    ensures
        final(w).wf(),
        entered(*old(w), k as int, *final(w), a),
{
    w.index = k;
    if k >= w.steps.len() {
        w.phase = WalkPhase::Done;
        return WalkAction::Finished(Ok(()));
    }
    match &w.steps[k].kind {
        StepKind::Check { .. } => {
            w.phase = WalkPhase::Evaluating;
            WalkAction::Evaluate { step: k }
        },
        StepKind::Branch => {
            w.phase = WalkPhase::Branching;
            WalkAction::Evaluate { step: k }
        },
        StepKind::Loop { max_iters } => {
            if *max_iters == 0 {
                w.phase = WalkPhase::Done;
                WalkAction::Finished(
                    Err(RuntimeError::LoopExhausted { step: w.steps[k].id.clone(), max_iters: 0 }),
                )
            } else {
                w.phase = WalkPhase::LoopRunning;
                w.passes = 0;
                WalkAction::RunArm { step: k, arm: Arm::Body, feedback: None }
            }
        },
        StepKind::Parallel => {
            w.phase = WalkPhase::Parallel;
            WalkAction::RunParallel { step: k }
        },
        StepKind::Suspend { resume_signal } => {
            w.phase = WalkPhase::Done;
            WalkAction::Finished(
                Err(
                    RuntimeError::SuspendNotImplemented {
                        step: w.steps[k].id.clone(),
                        resume_signal: resume_signal.clone(),
                    },
                ),
            )
        },
        StepKind::Agent | StepKind::Work => {
            w.phase = WalkPhase::Rendering;
            WalkAction::Render { step: k }
        },
    }
}

/// Decides on an evaluated check.
fn decide_check(w: &mut SliceWalk, v: CheckVerdict) -> (a: WalkAction)
    requires
        old(w).wf(),
        old(w).phase == WalkPhase::Evaluating,
        old(w).admits(WalkEvent::Verdict(v)),
    ensures
        final(w).wf(),
        check_decided(*old(w), v, *final(w), a),
{
    let k = w.index;
    let n_steps = w.steps.len();
    assert(k < n_steps);
    match &w.steps[k].kind {
        StepKind::Check { check_id, kind, policy } => {
            let attempt = w.cursor.attempts_of(check_id.as_str()) + 1;
            let r = w.cursor.check_step(check_id.as_str(), kind.as_str(), policy, v, &w.ids);
            match r {
                CheckStep::Advance => {
                    w.index = k + 1;
                    w.phase = WalkPhase::Ready;
                    WalkAction::CheckPassed { id: check_id.clone(), attempt }
                },
                CheckStep::RewindTo(g) => {
                    proof {
                        let gi = last_index_of(w.ids@, policy.gate@)->0;
                        lemma_last_index_in(w.ids@, policy.gate@);
                        assert(views(w.ids@).len() == w.ids@.len());
                        assert(step_ids(w.steps@).len() == w.steps@.len());
                    }
                    w.index = g;
                    w.phase = WalkPhase::Ready;
                    WalkAction::CheckRetry { id: check_id.clone(), attempt, rewind_to: g }
                },
                CheckStep::Abort(error) => {
                    w.phase = WalkPhase::Done;
                    WalkAction::CheckAbort { id: check_id.clone(), attempt, error }
                },
            }
        },
        _ => WalkAction::Idle,
    }
}

/// A found index is in range.
proof fn lemma_last_index_in(ids: Seq<String>, id: Seq<char>)
    ensures
        last_index_of(ids, id) matches Some(k) ==> 0 <= k < ids.len(),
    decreases ids.len(),
{
    if ids.len() > 0 && ids.last()@ != id {
        lemma_last_index_in(ids.drop_last(), id);
    }
}

/// One step of the walk: takes the host's event, updates the walk and
/// says what to do next.
pub fn walk_step(w: &mut SliceWalk, e: WalkEvent) -> (a: WalkAction)
    requires
        old(w).wf(),
        old(w).admits(e),
    ensures
        final(w).wf(),
        walk_step_spec(*old(w), e, *final(w), a),
{
    if w.phase == WalkPhase::Done {
        return WalkAction::Idle;
    }
    let k = w.index;
    let n_steps = w.steps.len();
    match e {
        WalkEvent::Next => {
            if w.phase == WalkPhase::Ready {
                enter(w, k)
            } else {
                WalkAction::Idle
            }
        },
        WalkEvent::Verdict(v) => {
            if w.phase == WalkPhase::Evaluating {
                decide_check(w, v)
            } else if w.phase == WalkPhase::Branching {
                w.phase = WalkPhase::ArmRunning;
                let arm = if v.met {
                    Arm::Then
                } else {
                    Arm::Otherwise
                };
                WalkAction::RunArm { step: k, arm, feedback: None }
            } else if w.phase == WalkPhase::Until {
                let max_iters = match &w.steps[k].kind {
                    StepKind::Loop { max_iters } => *max_iters,
                    _ => 0,
                };
                match loop_step(w.steps[k].id.as_str(), w.passes, max_iters, v) {
                    LoopStep::Converged => enter(w, k + 1),
                    LoopStep::Again(fb) => {
                        w.phase = WalkPhase::LoopRunning;
                        WalkAction::RunArm { step: k, arm: Arm::Body, feedback: Some(fb) }
                    },
                    LoopStep::Exhausted(err) => {
                        w.phase = WalkPhase::Done;
                        WalkAction::Finished(Err(err))
                    },
                }
            } else {
                WalkAction::Idle
            }
        },
        WalkEvent::SliceDone => {
            if w.phase == WalkPhase::ArmRunning || w.phase == WalkPhase::Parallel {
                enter(w, k + 1)
            } else if w.phase == WalkPhase::LoopRunning {
                w.passes = w.passes + 1;
                w.phase = WalkPhase::Until;
                WalkAction::Evaluate { step: k }
            } else {
                WalkAction::Idle
            }
        },
        WalkEvent::Rendered(t) => {
            if w.phase == WalkPhase::Rendering {
                let is_agent = match &w.steps[k].kind {
                    StepKind::Agent => true,
                    _ => false,
                };
                w.phase = WalkPhase::Running;
                if is_agent {
                    let prompts = w.cursor.agent_step_prompts(w.steps[k].id.as_str(), t.as_str());
                    WalkAction::RunAgent { step: k, prompts }
                } else {
                    WalkAction::RunWork { step: k, rendered: t }
                }
            } else {
                WalkAction::Idle
            }
        },
        WalkEvent::RenderFailed(m) => {
            if w.phase == WalkPhase::Rendering {
                w.phase = WalkPhase::Done;
                let mut message = concat2("pipeline step ", w.steps[k].id.as_str());
                message.append(": ");
                message.append(m.as_str());
                WalkAction::Finished(Err(RuntimeError::Internal { message }))
            } else {
                WalkAction::Idle
            }
        },
        WalkEvent::StepDone => {
            if w.phase == WalkPhase::Running {
                enter(w, k + 1)
            } else {
                WalkAction::Idle
            }
        },
        WalkEvent::Failed(err) => {
            if w.phase == WalkPhase::Ready {
                WalkAction::Idle
            } else {
                w.phase = WalkPhase::Done;
                WalkAction::Finished(Err(err))
            }
        },
    }
}

/// The check id and attempt of the evaluation that an action reports.
pub open spec fn evaluation_of(a: WalkAction) -> Option<(Seq<char>, u32)> {
    match a {
        WalkAction::CheckPassed { id, attempt } => Some((id@, attempt)),
        WalkAction::CheckRetry { id, attempt, .. } => Some((id@, attempt)),
        WalkAction::CheckAbort { id, attempt, .. } => Some((id@, attempt)),
        _ => None,
    }
}

/// One when `a` reports an evaluation of check `c`, else zero.
pub open spec fn evaluates(a: WalkAction, c: Seq<char>) -> nat {
    match evaluation_of(a) {
        Some((id, _)) => if id == c {
            1
        } else {
            0
        },
        None => 0,
    }
}

/// How many evaluations of check `c` the actions report.
pub open spec fn evaluations(actions: Seq<WalkAction>, c: Seq<char>) -> nat
    decreases actions.len(),
{
    if actions.len() == 0 {
        0
    } else {
        evaluations(actions.drop_last(), c) + evaluates(actions.last(), c)
    }
}

/// The evaluation that `a` reports, if any, carries as its attempt one
/// more than the evaluations of that check that `prior` reports.
pub open spec fn attempt_in_order(a: WalkAction, prior: Seq<WalkAction>) -> bool {
    match evaluation_of(a) {
        Some((c, t)) => t == evaluations(prior, c) + 1,
        None => true,
    }
}

/// Step `i` of a trace is a step of the walk.
pub open spec fn walk_step_at(
    walks: Seq<SliceWalk>,
    events: Seq<WalkEvent>,
    actions: Seq<WalkAction>,
    i: int,
) -> bool {
    &&& walks[i].wf()
    &&& walks[i].admits(events[i])
    &&& walk_step_spec(walks[i], events[i], walks[i + 1], actions[i])
    &&& walks[i + 1].wf()
}

/// `walks`, `events` and `actions` are a run of `walk_step` from a walk
/// with no attempts counted.
pub open spec fn walk_trace(
    walks: Seq<SliceWalk>,
    events: Seq<WalkEvent>,
    actions: Seq<WalkAction>,
) -> bool {
    &&& walks.len() == actions.len() + 1
    &&& events.len() == actions.len()
    &&& walks[0].wf()
    &&& forall|c: Seq<char>| attempt_count(walks[0].cursor.attempts_view(), c) == 0
    &&& forall|i: int| 0 <= i < actions.len() ==> #[trigger] walk_step_at(walks, events, actions, i)
}

proof fn lemma_step_counts(o: SliceWalk, e: WalkEvent, n: SliceWalk, a: WalkAction)
    requires
        o.wf(),
        walk_step_spec(o, e, n, a),
    ensures
        forall|c: Seq<char>|
            attempt_count(n.cursor.attempts_view(), c) == attempt_count(o.cursor.attempts_view(), c)
                + evaluates(a, c),
        match evaluation_of(a) {
            Some((c, t)) => t == attempt_count(o.cursor.attempts_view(), c) + 1,
            None => true,
        },
{
}

proof fn lemma_counts_prefix(
    walks: Seq<SliceWalk>,
    events: Seq<WalkEvent>,
    actions: Seq<WalkAction>,
    i: int,
)
    requires
        walk_trace(walks, events, actions),
        0 <= i <= actions.len(),
    ensures
        forall|c: Seq<char>|
            attempt_count(walks[i].cursor.attempts_view(), c) == evaluations(actions.take(i), c),
    decreases i,
{
    if i == 0 {
        assert(actions.take(0) =~= Seq::<WalkAction>::empty());
    } else {
        lemma_counts_prefix(walks, events, actions, i - 1);
        assert(walk_step_at(walks, events, actions, i - 1));
        lemma_step_counts(walks[i - 1], events[i - 1], walks[i], actions[i - 1]);
        let pre = actions.take(i);
        assert(pre.drop_last() =~= actions.take(i - 1));
        assert(pre.last() == actions[i - 1]);
        assert forall|c: Seq<char>|
            attempt_count(walks[i].cursor.attempts_view(), c) == evaluations(pre, c) by {
            assert(evaluations(pre, c) == evaluations(pre.drop_last(), c) + evaluates(pre.last(), c));
        }
    }
}

/// Attempts are counted per check across the whole slice, rewinds
/// included: each evaluation that the walk reports carries as its attempt
/// one more than the evaluations of the same check reported before it.
pub proof fn law_check_attempts_counted(
    walks: Seq<SliceWalk>,
    events: Seq<WalkEvent>,
    actions: Seq<WalkAction>,
)
    requires
        walk_trace(walks, events, actions),
    ensures
        forall|i: int|
            0 <= i < actions.len() ==> attempt_in_order(#[trigger] actions[i], actions.take(i)),
{
    assert forall|i: int| 0 <= i < actions.len() implies attempt_in_order(
        #[trigger] actions[i],
        actions.take(i),
    ) by {
        lemma_counts_prefix(walks, events, actions, i);
        assert(walk_step_at(walks, events, actions, i));
        lemma_step_counts(walks[i], events[i], walks[i + 1], actions[i]);
    }
}

/// A failed check retries within its budget: on attempt `t`, under a
/// retry policy with `t` below `max_attempts` and a gate step that
/// exists, the walk rewinds to its gate step (reporting `t`); under an aborting
/// policy, or once `t` reaches `max_attempts`, the slice ends with
/// `CheckFailed` carrying `t`. So a check that never passes is evaluated
/// `max_attempts` times in all, the last failure ending the slice.
pub proof fn law_failed_check_retry_or_abort(o: SliceWalk, v: CheckVerdict, n: SliceWalk, a: WalkAction)
    requires
        o.wf(),
        o.phase == WalkPhase::Evaluating,
        !v.met,
        walk_step_spec(o, WalkEvent::Verdict(v), n, a),
    ensures
        match o.steps@[o.index as int].kind {
            StepKind::Check { check_id, policy, .. } => {
                let t = attempt_count(o.cursor.attempts_view(), check_id@) + 1;
                &&& (policy.on_fail == OnFail::Retry && t < policy.max_attempts && last_index_of(
                    o.ids@,
                    policy.gate@,
                ) is Some) ==> (a matches WalkAction::CheckRetry { attempt, rewind_to, .. }
                    && attempt == t && rewind_to == last_index_of(o.ids@, policy.gate@)->0
                    && n.index == rewind_to && n.phase == WalkPhase::Ready)
                &&& (policy.on_fail == OnFail::Abort || t >= policy.max_attempts) ==> (
                a matches WalkAction::CheckAbort {
                    attempt,
                    error: RuntimeError::CheckFailed { attempt: ea, .. },
                    ..
                } && attempt == t && ea == t && n.phase == WalkPhase::Done)
            },
            _ => false,
        },
{
}

/// The index of the first failed branch, if any.
pub open spec fn first_failure(results: Seq<Result<OutputStore, RuntimeError>>) -> Option<int>
    decreases results.len(),
{
    if results.len() == 0 {
        None
    } else {
        match first_failure(results.drop_last()) {
            Some(i) => Some(i),
            None => if results.last() is Err {
                Some(results.len() - 1)
            } else {
                None
            },
        }
    }
}

/// The output under `k` once the branch stores of `results` (all of them
/// succeeded) are merged into `base` in index order, a later branch
/// winning on a shared id.
pub open spec fn merged_output(
    base: OutputStore,
    results: Seq<Result<OutputStore, RuntimeError>>,
    k: Seq<char>,
) -> Option<StepValue>
    decreases results.len(),
{
    if results.len() == 0 {
        base.output(k)
    } else {
        match results.last() {
            Ok(s) => match s.output(k) {
                Some(v) => Some(v),
                None => merged_output(base, results.drop_last(), k),
            },
            Err(_) => merged_output(base, results.drop_last(), k),
        }
    }
}

proof fn lemma_first_failure_prefix(results: Seq<Result<OutputStore, RuntimeError>>, i: int)
    requires
        0 <= i <= results.len(),
        first_failure(results) is None,
    ensures
        first_failure(results.take(i)) is None,
        forall|j: int| 0 <= j < i ==> results[j] is Ok,
    decreases results.len() - i,
{
    if i < results.len() {
        lemma_first_failure_prefix(results, i + 1);
        assert(results.take(i + 1).drop_last() =~= results.take(i));
    } else {
        assert(results.take(i) =~= results);
        lemma_no_failure_all_ok(results);
    }
}

proof fn lemma_no_failure_all_ok(results: Seq<Result<OutputStore, RuntimeError>>)
    requires
        first_failure(results) is None,
    ensures
        forall|j: int| 0 <= j < results.len() ==> results[j] is Ok,
    decreases results.len(),
{
    if results.len() > 0 {
        lemma_no_failure_all_ok(results.drop_last());
        assert forall|j: int| 0 <= j < results.len() implies results[j] is Ok by {
            if j < results.len() - 1 {
                assert(results.drop_last()[j] == results[j]);
            }
        }
    }
}

/// What a parallel block does with its branches' results, in index
/// order: the first failure is the block's error and nothing is merged;
/// when every branch succeeded, each branch's store is merged into the
/// shared store in index order (a later branch wins on a shared id).
pub fn merge_parallel(store: &mut OutputStore, results: Vec<Result<OutputStore, RuntimeError>>) -> (r:
    Result<(), RuntimeError>)
    requires
        old(store).wf(),
        forall|i: int| 0 <= i < results@.len() ==> (#[trigger] results@[i] matches Ok(s) ==> s.wf()),
    ensures
        match first_failure(results@) {
            Some(i) => r == Err::<(), RuntimeError>(results@[i]->Err_0) && *final(store) == *old(
                store,
            ),
            None => r is Ok && final(store).wf() && forall|k: Seq<char>|
                #![trigger final(store).output(k)]
                final(store).output(k) == merged_output(*old(store), results@, k),
        },
{
    let ghost all = results@;
    let mut i: usize = 0;
    while i < results.len()
        invariant
            i <= results@.len(),
            results@ == all,
            first_failure(all.take(i as int)) is None,
        decreases results@.len() - i,
    {
        assert(all.take(i + 1).drop_last() =~= all.take(i as int));
        if results[i].is_err() {
            assert(first_failure(all.take(i + 1)) == Some(i as int));
            proof {
                lemma_failure_extends(all, i as int + 1, i as int);
            }
            let mut rest = results;
            match rest.swap_remove(i) {
                Err(e) => {
                    return Err(e);
                },
                Ok(_) => {
                    return Ok(());
                },
            }
        }
        i = i + 1;
    }
    assert(all.take(all.len() as int) =~= all);
    proof {
        lemma_no_failure_all_ok(all);
    }
    let ghost base = *store;
    let n_all = results.len();
    let mut rest = results;
    let mut j: usize = 0;
    while rest.len() > 0
        invariant
            j + rest@.len() == all.len(),
            all.len() == n_all,
            rest@ == all.skip(j as int),
            store.wf(),
            forall|m: int| 0 <= m < all.len() ==> (#[trigger] all[m] matches Ok(s) ==> s.wf()),
            forall|m: int| 0 <= m < all.len() ==> #[trigger] all[m] is Ok,
            forall|k: Seq<char>|
                #![trigger store.output(k)]
                store.output(k) == merged_output(base, all.take(j as int), k),
        decreases rest@.len(),
    {
        assert(rest@[0] == all[j as int]);
        let next = rest.remove(0);
        assert(rest@ =~= all.skip(j + 1));
        assert(all.take(j + 1).drop_last() =~= all.take(j as int));
        assert(all.take(j + 1).last() == all[j as int]);
        match next {
            Ok(s) => {
                store.merge(s);
            },
            Err(_) => {},
        }
        j = j + 1;
    }
    assert(all.take(j as int) =~= all);
    Ok(())
}

proof fn lemma_failure_extends(results: Seq<Result<OutputStore, RuntimeError>>, n: int, f: int)
    requires
        0 <= f < n <= results.len(),
        first_failure(results.take(n)) == Some(f),
        results[f] is Err,
    ensures
        first_failure(results) == Some(f),
    decreases results.len() - n,
{
    if n < results.len() {
        assert(results.take(n + 1).drop_last() =~= results.take(n));
        lemma_failure_extends(results, n + 1, f);
    } else {
        assert(results.take(n) =~= results);
    }
}

proof fn lemma_lookup_found(s: Seq<(String, String)>, k: Seq<char>)
    requires
        lookup(s, k) is Some,
    ensures
        exists|j: int| 0 <= j < s.len() && (#[trigger] s[j]).0@ == k && Some(s[j].1) == lookup(s, k),
    decreases s.len(),
{
    if s[0].0@ != k {
        lemma_lookup_found(s.drop_first(), k);
        let j = choose|j: int|
            0 <= j < s.drop_first().len() && (#[trigger] s.drop_first()[j]).0@ == k && Some(
                s.drop_first()[j].1,
            ) == lookup(s.drop_first(), k);
        assert(s[j + 1] == s.drop_first()[j]);
    } else {
        assert(s[0].0@ == k);
    }
}

proof fn lemma_entry_prompts_len(es: Seq<(String, String)>)
    ensures
        entry_prompts(es).len() == es.len(),
    decreases es.len(),
{
    if es.len() > 0 {
        lemma_entry_prompts_len(es.drop_last());
    }
}

proof fn lemma_entry_prompts_at(es: Seq<(String, String)>, j: int)
    requires
        0 <= j < es.len(),
    ensures
        entry_prompts(es).len() == es.len(),
        entry_prompts(es)[j] == check_feedback_prompt(es[j].0@, es[j].1@),
    decreases es.len(),
{
    lemma_entry_prompts_len(es);
    lemma_entry_prompts_len(es.drop_last());
    if j < es.len() - 1 {
        lemma_entry_prompts_at(es.drop_last(), j);
        assert(es.drop_last()[j] == es[j]);
    } else {
        if es.len() > 1 {
            lemma_entry_prompts_at(es.drop_last(), 0);
        }
    }
}

proof fn lemma_step_keeps_feedback(
    o: SliceWalk,
    e: WalkEvent,
    n: SliceWalk,
    a: WalkAction,
    g: Seq<char>,
    c: Seq<char>,
)
    requires
        o.wf(),
        walk_step_spec(o, e, n, a),
        match evaluation_of(a) {
            Some((id, _)) => id != c,
            None => true,
        },
    ensures
        feedback_of(n.cursor.feedback_view(), g, c) == feedback_of(o.cursor.feedback_view(), g, c),
{
}

proof fn lemma_feedback_persists(
    walks: Seq<SliceWalk>,
    events: Seq<WalkEvent>,
    actions: Seq<WalkAction>,
    i: int,
    k: int,
    j: int,
    g: Seq<char>,
    c: Seq<char>,
    r: Seq<char>,
)
    requires
        walk_trace(walks, events, actions),
        0 <= i < k <= j < actions.len(),
        feedback_of(walks[i + 1].cursor.feedback_view(), g, c) == Some(r),
        forall|m: int|
            i < m < j ==> match evaluation_of(#[trigger] actions[m]) {
                Some((id, _)) => id != c,
                None => true,
            },
    ensures
        feedback_of(walks[k].cursor.feedback_view(), g, c) == Some(r),
    decreases k - i,
{
    if k > i + 1 {
        lemma_feedback_persists(walks, events, actions, i, k - 1, j, g, c, r);
        assert(walk_step_at(walks, events, actions, k - 1));
        assert(match evaluation_of(actions[k - 1]) {
            Some((id, _)) => id != c,
            None => true,
        });
        lemma_step_keeps_feedback(walks[k - 1], events[k - 1], walks[k], actions[k - 1], g, c);
    }
}

/// A failed check's rejection reaches its gate step: after a
/// `CheckRetry` of check `c` that rewound to its gate `g`, the next agent
/// step run at a step whose id is `g` (no evaluation of `c` between) is
/// shown the user turn `Previous attempt rejected: (check 'c') <the
/// rejection>` among its feedback turns, which come before its rendered
/// input.
pub proof fn law_rejection_reaches_gate(
    walks: Seq<SliceWalk>,
    events: Seq<WalkEvent>,
    actions: Seq<WalkAction>,
    i: int,
    j: int,
)
    requires
        walk_trace(walks, events, actions),
        0 <= i < j < actions.len(),
        actions[i] is CheckRetry,
        walks[i].phase == WalkPhase::Evaluating,
        events[i] is Verdict,
        forall|k: int|
            i < k < j ==> match evaluation_of(#[trigger] actions[k]) {
                Some((id, _)) => id != walks[i].steps@[walks[i].index as int].kind->check_id@,
                None => true,
            },
        actions[j] is RunAgent,
        walks[j].steps@[walks[j].index as int].id@ == walks[i].steps@[walks[i].index as int].kind->policy.gate@,
    ensures
        ({
            let c = walks[i].steps@[walks[i].index as int].kind->check_id@;
            let r = events[i]->Verdict_0.rationale@;
            let prompts = actions[j]->prompts@;
            exists|k: int|
                0 <= k < prompts.len() && (#[trigger] prompts[k])@ == check_feedback_prompt(c, r)
        }),
{
    let c = walks[i].steps@[walks[i].index as int].kind->check_id@;
    let g = walks[i].steps@[walks[i].index as int].kind->policy.gate@;
    let r = events[i]->Verdict_0.rationale@;
    assert(walk_step_at(walks, events, actions, i));
    assert(feedback_of(walks[i + 1].cursor.feedback_view(), g, c) == Some(r));
    lemma_feedback_persists(walks, events, actions, i, j, j, g, c, r);
    assert(walk_step_at(walks, events, actions, j));
    let o = walks[j];
    let es = gate_entries(o.cursor.feedback_view(), g);
    assert(entry_lookup(es, c) == Some(r));
    lemma_lookup_found(es, c);
    let q = choose|q: int| 0 <= q < es.len() && (#[trigger] es[q]).0@ == c && Some(es[q].1) == lookup(es, c);
    lemma_entry_prompts_at(es, q);
    let prompts = actions[j]->prompts@;
    let pre = match o.cursor.pending_view() {
        Some(fb) => seq![loop_feedback_prompt(fb)],
        None => Seq::<Seq<char>>::empty(),
    };
    let idx = pre.len() + q;
    assert(views(prompts).len() == prompts.len());
    assert(idx < views(prompts).len());
    assert(views(prompts)[idx] == check_feedback_prompt(c, r));
    assert(prompts[idx]@ == views(prompts)[idx]);
}

/// The walk of a module's pipeline: an internal error when the module
/// has none; otherwise a walk over its steps from the first, with no
/// prior feedback.
pub fn start_pipeline(steps: Option<Vec<WalkStep>>) -> (r: Result<SliceWalk, RuntimeError>)
    ensures
        match steps {
            None => r matches Err(RuntimeError::Internal { message }) && message@
                == "run_pipeline called on a module without a pipeline"@,
            Some(s) => r matches Ok(w) && w.wf() && w.steps@ == s@ && w.index == 0 && w.phase
                == WalkPhase::Ready && w.cursor.pending_view() is None && forall|c: Seq<char>|
                attempt_count(w.cursor.attempts_view(), c) == 0,
        },
{
    match steps {
        None => Err(
            RuntimeError::Internal {
                message: String::from_str("run_pipeline called on a module without a pipeline"),
            },
        ),
        Some(s) => Ok(SliceWalk::new(s, None)),
    }
}

} // verus!
