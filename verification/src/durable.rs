//! Per-target durability resolution: the concrete checkpoint granularity
//! and store a target gives a durability intent or explicit request, and
//! whether it can honor it.
//!
//! A target provides the file store iff it is a registered target; the
//! caller answers that lookup.

use vstd::prelude::*;

verus! {

/// When checkpoints are committed.
#[derive(Debug, Clone, Copy, PartialEq, Eq, Structural)]
pub enum CheckpointGranularity {
    /// At each turn boundary.
    PerTurn,
    /// After each tool call.
    PerToolCall,
}

/// Where checkpoints are kept.
#[derive(Debug, Clone, Copy, PartialEq, Eq, Structural)]
pub enum DurableStore {
    /// A file store.
    File,
}

/// An author's durability intent.
#[derive(Debug, Clone, Copy, PartialEq, Eq, Structural)]
pub enum DurabilityIntent {
    /// The run must survive restarts.
    SurviveRestarts,
}

/// A requested durability: an intent, or an explicit form.
#[derive(Debug, Clone, Copy, PartialEq, Eq, Structural)]
pub enum Durability {
    /// An intent, resolved per target.
    Intent(DurabilityIntent),
    /// An explicit granularity and store.
    Explicit { checkpoint: CheckpointGranularity, store: DurableStore },
}

/// Whether a target can honor a requested durability.
#[derive(Debug, Clone, PartialEq, Eq)]
pub enum Support {
    /// The target provides the resolved granularity and store.
    Honored,
    /// The target cannot durably provide the requested store.
    Unsupported { reason: String },
}

/// Concrete durability resolved for a target.
#[derive(Debug, Clone, PartialEq, Eq)]
pub struct ResolvedDurability {
    /// Resolved checkpoint granularity.
    pub checkpoint: CheckpointGranularity,
    /// Resolved durable store.
    pub store: DurableStore,
    /// Whether the target honors the request.
    pub support: Support,
    /// The intent, when the author used one.
    pub from_intent: Option<DurabilityIntent>,
}

/// Error of [`ResolvedDurability::require_supported`].
#[derive(Debug, Clone)]
pub struct DurabilityUnsupported {
    /// Why the target cannot honor the request.
    pub reason: String,
    /// The target, rendered.
    pub target: String,
}

/// The rendered message of a durability refusal.
pub open spec fn unsupported_text(e: DurabilityUnsupported) -> Seq<char> {
    "target `"@ + e.target@ + "` cannot honor the requested durability: "@ + e.reason@
}

impl DurabilityUnsupported {
    /// The rendered message: ``target `T` cannot honor the requested
    /// durability: R``.
    pub fn to_string(&self) -> (s: String)
        ensures
            s@ == unsupported_text(*self),
    {
        let mut s = String::from_str("target `");
        s.append(self.target.as_str());
        s.append("` cannot honor the requested durability: ");
        s.append(self.reason.as_str());
        s
    }
}

/// The resolution of `d` on a target that does (`provides_file`) or does
/// not provide the file store: an intent becomes per-turn file
/// checkpoints, honored iff the file store is there; an explicit form
/// resolves to itself, honored iff it asks for the file store and the
/// target has it.
pub open spec fn resolution(d: Durability, provides_file: bool, r: ResolvedDurability) -> bool {
    match d {
        Durability::Intent(intent) => {
            &&& r.checkpoint == CheckpointGranularity::PerTurn
            &&& r.store == DurableStore::File
            &&& r.from_intent == Some(intent)
            &&& if provides_file {
                r.support == Support::Honored
            } else {
                r.support matches Support::Unsupported { reason } && reason@
                    == "target has no durable file store for survive-restarts"@
            }
        },
        Durability::Explicit { checkpoint, store } => {
            &&& r.checkpoint == checkpoint
            &&& r.store == store
            &&& r.from_intent is None
            &&& if store == DurableStore::File && provides_file {
                r.support == Support::Honored
            } else {
                r.support matches Support::Unsupported { reason } && reason@
                    == "target has no durable file store"@
            }
        },
    }
}

/// Resolves a durability request against a target; `provides_file` says
/// whether the target is a registered one (every registered target has
/// the file store).
pub fn resolve_durability(d: &Durability, provides_file: bool) -> (r: ResolvedDurability)
    ensures
        resolution(*d, provides_file, r),
{
    match d {
        Durability::Intent(intent) => ResolvedDurability {
            checkpoint: CheckpointGranularity::PerTurn,
            store: DurableStore::File,
            support: if provides_file {
                Support::Honored
            } else {
                Support::Unsupported {
                    reason: String::from_str("target has no durable file store for survive-restarts"),
                }
            },
            from_intent: Some(*intent),
        },
        Durability::Explicit { checkpoint, store } => ResolvedDurability {
            checkpoint: *checkpoint,
            store: *store,
            support: match store {
                DurableStore::File => if provides_file {
                    Support::Honored
                } else {
                    Support::Unsupported { reason: String::from_str("target has no durable file store") }
                },
            },
            from_intent: None,
        },
    }
}

impl ResolvedDurability {
    /// Passes an honored resolution through; turns an unsupported one
    /// into an error naming the target (`target`, rendered) and reason.
    pub fn require_supported(self, target: &str) -> (r: Result<Self, DurabilityUnsupported>)
        ensures
            match self.support {
                Support::Honored => r == Ok::<Self, DurabilityUnsupported>(self),
                Support::Unsupported { reason } => r matches Err(e) && e.reason@ == reason@
                    && e.target@ == target@,
            },
    {
        match &self.support {
            Support::Honored => Ok(self),
            Support::Unsupported { reason } => Err(
                DurabilityUnsupported { reason: reason.clone(), target: String::from_str(target) },
            ),
        }
    }
}

/// An intent is honored exactly on the targets that provide the file
/// store, and always resolves to per-turn file checkpoints.
pub proof fn law_intent_honored_iff_file_store(
    intent: DurabilityIntent,
    provides_file: bool,
    r: ResolvedDurability,
)
    requires
        resolution(Durability::Intent(intent), provides_file, r),
    ensures
        (r.support == Support::Honored) <==> provides_file,
        r.checkpoint == CheckpointGranularity::PerTurn,
        r.store == DurableStore::File,
        r.from_intent == Some(intent),
{
}

/// An explicit durability request resolves to itself: whatever the
/// target, the resolved granularity and store are the requested ones, no
/// intent is recorded, and it is honored exactly on targets that provide
/// the file store.
pub proof fn law_explicit_resolves_to_itself(
    checkpoint: CheckpointGranularity,
    store: DurableStore,
    provides_file: bool,
    r: ResolvedDurability,
)
    requires
        resolution(Durability::Explicit { checkpoint, store }, provides_file, r),
    ensures
        r.checkpoint == checkpoint,
        r.store == store,
        r.from_intent is None,
        (r.support == Support::Honored) <==> provides_file,
{
}

} // verus!
