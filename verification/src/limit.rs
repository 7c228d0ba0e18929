use vstd::prelude::*;

use crate::concurrency::AdaptiveConcurrencySettings;

verus! {

/// The in-flight limiter in front of one sender: a permit count that is
/// either pinned to a fixed bound or moved by the adaptive controller
/// within its configured bounds.
#[derive(Clone, Copy, Debug)]
pub struct AdaptiveConcurrencyLimit {
    /// Whether the limit is pinned (fixed mode) or adaptive.
    pub pinned: bool,
    /// The smallest limit the controller may reach.
    pub min_limit: usize,
    /// The largest limit the controller may reach.
    pub max_limit: usize,
    /// The limit that currently applies.
    pub current_limit: usize,
    /// How many calls are in flight right now.
    pub in_flight: usize,
}

impl AdaptiveConcurrencyLimit {
    /// The limiter's invariant: the limit stays inside its bounds, is
    /// never zero, never moves in fixed mode, and the in-flight count
    /// never exceeds it.
    pub open spec fn wf(self) -> bool {
        &&& 1 <= self.min_limit <= self.current_limit <= self.max_limit
        &&& self.in_flight <= self.current_limit
        &&& (self.pinned ==> self.min_limit == self.max_limit)
    }

    /// A fresh limiter. A fixed bound pins the limit to it; otherwise
    /// the adaptive controller starts from the configured initial limit,
    /// kept inside `1 ..= max_concurrency_limit`.
    pub fn build(concurrency: Option<usize>, adaptive: AdaptiveConcurrencySettings) -> (r: Self)
        requires
            concurrency is Some ==> concurrency->0 >= 1,
        ensures
            r.wf(),
            r.in_flight == 0,
            concurrency is Some ==> r.pinned && r.current_limit == concurrency->0,
            concurrency is None ==> !r.pinned && r.max_limit == if adaptive.max_concurrency_limit
                >= 1 {
                adaptive.max_concurrency_limit as int
            } else {
                1
            },
    {
        match concurrency {
            Some(n) => AdaptiveConcurrencyLimit {
                pinned: true,
                min_limit: n,
                max_limit: n,
                current_limit: n,
                in_flight: 0,
            },
            None => {
                let max = if adaptive.max_concurrency_limit >= 1 {
                    adaptive.max_concurrency_limit
                } else {
                    1
                };
                let initial = if adaptive.initial_concurrency < 1 {
                    1
                } else if adaptive.initial_concurrency > max {
                    max
                } else {
                    adaptive.initial_concurrency
                };
                AdaptiveConcurrencyLimit {
                    pinned: false,
                    min_limit: 1,
                    max_limit: max,
                    current_limit: initial,
                    in_flight: 0,
                }
            },
        }
    }

    /// Readiness: a permit is available exactly when the in-flight count
    /// is below the current limit.
    pub fn poll_ready(&self) -> (r: bool)
        ensures
            r == (self.in_flight < self.current_limit),
    {
        self.in_flight < self.current_limit
    }

    /// Take a permit for one call. Only a ready limiter may be asked.
    pub fn acquire(&mut self)
        requires
            old(self).wf(),
            old(self).in_flight < old(self).current_limit,
        ensures
            final(self).wf(),
            *final(self) == (AdaptiveConcurrencyLimit {
                in_flight: (old(self).in_flight + 1) as usize,
                ..*old(self)
            }),
    {
        self.in_flight = self.in_flight + 1;
    }

    /// Give the permit of a finished call back.
    pub fn release(&mut self)
        requires
            old(self).wf(),
            old(self).in_flight >= 1,
        ensures
            final(self).wf(),
            *final(self) == (AdaptiveConcurrencyLimit {
                in_flight: (old(self).in_flight - 1) as usize,
                ..*old(self)
            }),
    {
        self.in_flight = self.in_flight - 1;
    }

    /// Feed one completed call's outcome to the controller. A load-shed
    /// signal (a retriable failure) lowers the limit, anything else may
    /// raise it; the limit never leaves its bounds, never drops below
    /// the current in-flight count, and never moves at all in fixed
    /// mode.
    pub fn observe(&mut self, load_shed: bool)
        requires
            old(self).wf(),
        ensures
            final(self).wf(),
            final(self).pinned == old(self).pinned,
            final(self).min_limit == old(self).min_limit,
            final(self).max_limit == old(self).max_limit,
            final(self).in_flight == old(self).in_flight,
            old(self).pinned ==> final(self).current_limit == old(self).current_limit,
            final(self).current_limit >= old(self).in_flight,
    {
        if !self.pinned {
            if load_shed {
                let mut lowered = self.current_limit / 2;
                if lowered < self.min_limit {
                    lowered = self.min_limit;
                }
                if lowered < self.in_flight {
                    lowered = self.in_flight;
                }
                self.current_limit = lowered;
            } else {
                if self.current_limit < self.max_limit {
                    self.current_limit = self.current_limit + 1;
                }
            }
        }
    }
}

/// One possible move of the limiter: an admission, a completion, or a
/// controller adjustment, exactly as the executable operations describe
/// them.
pub open spec fn limiter_step(a: AdaptiveConcurrencyLimit, b: AdaptiveConcurrencyLimit) -> bool {
    ||| (a.in_flight < a.current_limit && b == (AdaptiveConcurrencyLimit {
        in_flight: (a.in_flight + 1) as usize,
        ..a
    }))
    ||| (a.in_flight >= 1 && b == (AdaptiveConcurrencyLimit {
        in_flight: (a.in_flight - 1) as usize,
        ..a
    }))
    ||| (b.pinned == a.pinned && b.min_limit == a.min_limit && b.max_limit == a.max_limit
        && b.in_flight == a.in_flight && a.min_limit <= b.current_limit <= a.max_limit
        && b.current_limit >= a.in_flight && (a.pinned ==> b.current_limit == a.current_limit))
}

/// At no instant of any run may the in-flight count exceed the current
/// concurrency limit: along any chain of limiter states that starts
/// well-formed and moves only by admissions, completions and controller
/// adjustments, every state keeps its in-flight count within the limit
/// that applies there — in fixed mode, within the configured bound.
pub proof fn lemma_in_flight_bounded(states: Seq<AdaptiveConcurrencyLimit>)
    requires
        states.len() >= 1,
        states[0].wf(),
        forall|i: int| 0 <= i < states.len() - 1 ==> #[trigger] limiter_step(states[i], states[i + 1]),
    ensures
        forall|i: int|
            0 <= i < states.len() ==> (#[trigger] states[i].in_flight) <= states[i].current_limit
                && states[i].wf(),
    decreases states.len(),
{
    if states.len() > 1 {
        let n = states.len() - 1;
        let prefix = states.drop_last();
        assert forall|i: int| 0 <= i < prefix.len() - 1 implies #[trigger] limiter_step(
            prefix[i],
            prefix[i + 1],
        ) by {
            assert(prefix[i] == states[i]);
            assert(prefix[i + 1] == states[i + 1]);
            assert(limiter_step(states[i], states[i + 1]));
        }
        lemma_in_flight_bounded(prefix);
        assert(limiter_step(states[n - 1], states[(n - 1) + 1]));
        assert(prefix[n - 1] == states[n - 1]);
        assert(prefix[n - 1].wf());
        assert(states[n].wf());
        assert forall|i: int| 0 <= i < states.len() implies (#[trigger] states[i].in_flight)
            <= states[i].current_limit && states[i].wf() by {
            if i < n {
                assert(prefix[i] == states[i]);
                assert(prefix[i].wf());
            }
        }
    }
}

/// Admission control over a sliding window: at most `limit` calls may
/// commence within any window of `window_secs`. When the window is
/// saturated, readiness is withheld, never failed.
#[derive(Clone, Copy, Debug)]
pub struct RateLimiter {
    /// The most calls allowed within one window.
    pub limit: u64,
    /// The width of the window, in seconds.
    pub window_secs: u64,
    /// When the current window opened, in seconds.
    pub window_start: u64,
    /// How many calls have commenced in the current window.
    pub used: u64,
}

/// The limiter once the clock has been consulted: a window that has
/// fully elapsed is replaced by a fresh one opening now.
pub open spec fn rolled(s: RateLimiter, now: u64) -> RateLimiter {
    if now >= s.window_start + s.window_secs {
        RateLimiter { window_start: now, used: 0, ..s }
    } else {
        s
    }
}

impl RateLimiter {
    /// The rate limiter's invariant: never more admissions recorded than
    /// the window allows.
    pub open spec fn wf(self) -> bool {
        self.used <= self.limit
    }

    /// A fresh limiter admitting `limit` calls per `window_secs`.
    pub fn build(limit: u64, window_secs: u64) -> (r: Self)
        ensures
            r.wf(),
            r == (RateLimiter { limit, window_secs, window_start: 0u64, used: 0u64 }),
    {
        RateLimiter { limit, window_secs, window_start: 0, used: 0 }
    }

    /// Ask for one admission at time `now`: the window is rolled if it
    /// has elapsed, and the call is admitted exactly when the window
    /// still has room.
    pub fn try_acquire(&mut self, now: u64) -> (admitted: bool)
        requires
            old(self).wf(),
            now >= old(self).window_start,
        ensures
            final(self).wf(),
            admitted == (rolled(*old(self), now).used < old(self).limit),
            *final(self) == if admitted {
                (RateLimiter {
                    used: (rolled(*old(self), now).used + 1) as u64,
                    ..rolled(*old(self), now)
                })
            } else {
                rolled(*old(self), now)
            },
    {
        if self.window_secs <= now - self.window_start {
            self.window_start = now;
            self.used = 0;
        }
        if self.used < self.limit {
            self.used = self.used + 1;
            true
        } else {
            false
        }
    }
}

} // verus!
