use vstd::prelude::*;

verus! {

/// The user-facing choice of concurrency management for a pipeline.
#[derive(Clone, Copy, Debug, PartialEq, Eq, Structural)]
pub enum Concurrency {
    /// No in-flight cap at all; back-pressure comes from the rate limiter
    /// and the underlying transport alone.
    Unlimited,
    /// The in-flight cap is managed dynamically by the adaptive controller.
    Adaptive,
    /// A fixed in-flight cap; must be at least one.
    Fixed(usize),
}

/// The in-flight cap a concurrency choice resolves to: a fixed bound
/// carries its value, the other two modes impose none (adaptive mode
/// engages the controller instead of a static bound).
pub open spec fn concurrency_limit(c: Concurrency) -> Option<usize> {
    match c {
        Concurrency::Fixed(n) => Some(n),
        _ => None,
    }
}

impl Concurrency {
    pub fn parse_concurrency(&self) -> (r: Option<usize>)
        ensures
            r == concurrency_limit(*self),
    {
        match *self {
            Concurrency::Unlimited => None,
            Concurrency::Adaptive => None,
            Concurrency::Fixed(limit) => Some(limit),
        }
    }
}

/// Tuning for the adaptive concurrency controller.
///
/// Only the bounds that the limiter enforces are modelled: the limit the
/// controller starts from and the ceiling it may never exceed. The
/// controller's smoothing internals are outside this core.
#[derive(Clone, Copy, Debug, PartialEq, Eq, Structural)]
pub struct AdaptiveConcurrencySettings {
    /// The concurrency limit the controller starts out with.
    pub initial_concurrency: usize,
    /// The largest limit the controller may ever reach.
    pub max_concurrency_limit: usize,
}

/// The built-in tuning used when a configuration does not override it.
pub open spec fn default_adaptive_concurrency() -> AdaptiveConcurrencySettings {
    AdaptiveConcurrencySettings { initial_concurrency: 1, max_concurrency_limit: 200 }
}

impl Default for AdaptiveConcurrencySettings {
    fn default() -> (r: Self)
        ensures
            r == default_adaptive_concurrency(),
    {
        AdaptiveConcurrencySettings { initial_concurrency: 1, max_concurrency_limit: 200 }
    }
}

} // verus!
