//! Executor-agnostic decision kernel of the tau agent runtime: the
//! capability satisfies-relation and subflow attenuation, the per-turn
//! context transformers, the projection of the conversation onto the
//! provider call shape, verdict extraction, region admission counters,
//! durability resolution, skill scope narrowing and the step decisions of
//! the agent and pipeline loops, each stated as a contract over a
//! mathematical model.

pub mod agent_run;
pub mod agent_setup;
pub mod artifact;
pub mod attenuate;
pub mod capability;
pub mod check;
pub mod context;
pub mod dispatch;
pub mod durable;
pub mod dynamic;
pub mod error;
pub mod executor;
pub mod glob;
pub mod ids;
pub mod message;
pub mod options;
pub mod outcome;
pub mod output_store;
pub mod pipeline;
pub mod provider;
pub mod schema;
pub mod skill;
pub mod text;
pub mod tool_args;
pub mod trace;
