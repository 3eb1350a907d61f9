//! Trace fan-out: every event emitted on a stream reaches every
//! subscriber registered on it.

use vstd::prelude::*;

verus! {

/// A sink for trace events of type `E`. Delivery is fire-and-forget: a
/// subscriber that cannot take an event drops it.
pub trait TraceSubscriber<E> {
    /// Delivers `event`.
    fn emit(&self, event: E);
}

/// A subscriber that discards every event.
#[derive(Debug, Clone, Copy, Default)]
pub struct NoopTraceSubscriber;

impl<E> TraceSubscriber<E> for NoopTraceSubscriber {
    fn emit(&self, event: E) {
    }
}

/// A fan-out over subscribers of type `S`.
pub struct TraceStream<S> {
    subscribers: Vec<S>,
}

impl<S> TraceStream<S> {
    /// The registered subscribers, in registration order.
    pub closed spec fn subscribers_view(&self) -> Seq<S> {
        self.subscribers@
    }

    /// A stream with no subscribers.
    pub fn new() -> (t: Self)
        ensures
            t.subscribers_view().len() == 0,
    {
        TraceStream { subscribers: Vec::new() }
    }

    /// Registers a subscriber after the existing ones.
    pub fn add_subscriber(&mut self, sub: S)
        ensures
            final(self).subscribers_view() == old(self).subscribers_view().push(sub),
    {
        self.subscribers.push(sub);
    }

    /// The number of registered subscribers.
    pub fn subscriber_count(&self) -> (n: usize)
        ensures
            n == self.subscribers_view().len(),
    {
        self.subscribers.len()
    }

    /// Fans `event` out: each subscriber, in registration order, gets a
    /// copy.
    pub fn emit<E: Clone>(&self, event: &E) where S: TraceSubscriber<E> {
        let mut i: usize = 0;
        while i < self.subscribers.len()
            invariant
                i <= self.subscribers@.len(),
            decreases self.subscribers@.len() - i,
        {
            self.subscribers[i].emit(event.clone());
            i = i + 1;
        }
    }
}

} // verus!
