# tau_runtime_core

The decision kernel of the tau agent runtime, written in Verus. Every
function under `src/` carries a contract over a mathematical model of its
data (`Seq`, `Map`, spec functions) and is proved against it; the laws the
runtime promises (what a resume restores, that the live turn survives
context trimming, that nested subflow frames compose, that a tool is
offered exactly when a call to it would pass the capability check, ...)
are public proof functions.

Layout:

- `src/capability.rs`, `src/glob.rs`: the capability satisfies-relation
  and the path globs it rests on.
- `src/attenuate.rs`: subflow capability attenuation.
- `src/context.rs`: token estimation and the per-turn context
  transformers (`trim_old`, `compact_tool_outputs`, `fit_budget`).
- `src/agent_run.rs`, `src/agent_setup.rs`, `src/provider.rs`: the
  agent loop as a state machine (`agent_loop_step`: from the run's state
  and the host's event to the next state and action, with the event-stream
  laws: one terminal action, tool calls started and completed in pairs),
  the set-up of an agent run and the projection of the conversation onto
  the provider call shape.
- `src/executor.rs`, `src/pipeline.rs`, `src/check.rs`,
  `src/output_store.rs`, `src/artifact.rs`: the pipeline walk over a slice
  of steps as a state machine (`walk_step`, with the law that check
  attempts are counted across rewinds), the merge of parallel branches,
  its bookkeeping, postcondition checks and verdicts.
- `src/dynamic.rs`, `src/skill.rs`, `src/dispatch.rs`, `src/durable.rs`:
  spawn admission and child ids, skill resolution (scope narrowing and
  the capability subset law: a child's grant never exceeds its parent's),
  registry lookups, durability resolution.
- `src/schema.rs`, `src/tool_args.rs`: the JSON-Schema subset of tool
  input schemas (compiling a schema value fail-closed, checking a value
  with RFC 6901 pointers) and the argument validator built on it.
- `src/error.rs`, `src/outcome.rs`, `src/ids.rs`, `src/text.rs`,
  `src/message.rs`, `src/options.rs`, `src/trace.rs`, `src/tool_args.rs`:
  errors and their messages, outcomes, identifiers, shared text helpers
  and models.

Calls into outside crates (`serde_json`, `regex`, `globset`,
`jsonschema`, `uuid`, `ulid`, `chrono`) stand behind small trusted
wrappers whose contracts are stated in their doc comments.

`app/` holds what is not verified: the hosts that perform the agent
loop's and the pipeline walk's actions, the floating-point pacing and PID
controllers, the numeric keywords of the JSON-Schema subset (compared
as floating point, their outcomes handed to the library as a table), and the `serde` conversions between JSON values and
the library's models.
