//! Token-usage accounting shared by run options and run outcomes.

use vstd::prelude::*;

verus! {

/// Token usage reported by the LLM backend, summed across a run.
/// `total_tokens` is `Some` when the backend reports a unified count.
#[derive(Debug, Clone, Copy, PartialEq, Eq)]
pub struct TokenUsage {
    /// Total input (prompt) tokens.
    pub input_tokens: u64,
    /// Total output (completion) tokens.
    pub output_tokens: u64,
    /// Unified count, when reported.
    pub total_tokens: Option<u64>,
}

/// `a + b`, clamped to `u64::MAX`.
pub open spec fn sat_add(a: u64, b: u64) -> u64 {
    if a + b > u64::MAX {
        u64::MAX
    } else {
        (a + b) as u64
    }
}

/// Sum of two optional totals: both present add (clamped); one present
/// keeps it; none stays none.
pub open spec fn sum_totals(a: Option<u64>, b: Option<u64>) -> Option<u64> {
    match (a, b) {
        (Some(x), Some(y)) => Some(sat_add(x, y)),
        (Some(x), None) => Some(x),
        (None, Some(y)) => Some(y),
        (None, None) => None,
    }
}

impl TokenUsage {
    /// All zeros, no unified count.
    pub fn default() -> (u: Self)
        ensures
            u.input_tokens == 0,
            u.output_tokens == 0,
            u.total_tokens is None,
    {
        TokenUsage { input_tokens: 0, output_tokens: 0, total_tokens: None }
    }

    /// Adds `other` into `self`, saturating each count at `u64::MAX`.
    pub fn add(&mut self, other: &TokenUsage)
        ensures
            final(self).input_tokens == sat_add(old(self).input_tokens, other.input_tokens),
            final(self).output_tokens == sat_add(old(self).output_tokens, other.output_tokens),
            final(self).total_tokens == sum_totals(old(self).total_tokens, other.total_tokens),
    {
        self.input_tokens = self.input_tokens.saturating_add(other.input_tokens);
        self.output_tokens = self.output_tokens.saturating_add(other.output_tokens);
        self.total_tokens = match (self.total_tokens, other.total_tokens) {
            (Some(x), Some(y)) => Some(x.saturating_add(y)),
            (Some(x), None) => Some(x),
            (None, Some(y)) => Some(y),
            (None, None) => None,
        };
    }
}

} // verus!
