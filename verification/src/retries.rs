use vstd::prelude::*;

use crate::duration::Duration;

verus! {

/// How the computed backoff is randomized before sleeping.
#[derive(Clone, Copy, Debug, PartialEq, Eq, Structural)]
pub enum JitterMode {
    /// Sleep exactly the computed backoff.
    Off,
    /// Sleep a uniformly random span between zero and the computed backoff.
    Full,
}

impl Default for JitterMode {
    fn default() -> (r: Self)
        ensures
            r == JitterMode::Full,
    {
        JitterMode::Full
    }
}

/// The verdict of the caller-supplied classifier on a response that the
/// transport delivered successfully.
#[derive(Clone, Debug, PartialEq, Eq)]
pub enum RetryAction {
    /// The response counts as a success.
    Successful,
    /// The response should be retried, for the stated reason.
    Retry(String),
    /// The response is a failure that must not be retried.
    DontRetry(String),
}

/// The pluggable classification of errors and responses. Implementations
/// come from the caller of the pipeline; nothing is assumed about their
/// verdicts beyond the type.
pub trait RetryLogic {
    type Error;
    type Response;

    fn is_retriable_error(&self, error: &Self::Error) -> bool;

    fn should_retry_response(&self, response: &Self::Response) -> RetryAction;
}

/// Per-request retry state: how many retries are still allowed and the
/// last two backoff spans, from which the next one is the Fibonacci sum.
#[derive(Clone, Copy, Debug)]
pub struct FibonacciRetryPolicy<L> {
    pub remaining_attempts: usize,
    pub previous_duration: Duration,
    pub current_duration: Duration,
    pub max_duration: Duration,
    pub jitter_mode: JitterMode,
    pub logic: L,
}

/// One policy is the successor of another exactly when a retry has been
/// recorded against it: one fewer attempt remains and the backoff pair
/// has moved one step along the Fibonacci recurrence.
pub open spec fn advance_rel<L>(p: FibonacciRetryPolicy<L>, q: FibonacciRetryPolicy<L>) -> bool {
    &&& p.remaining_attempts >= 1
    &&& q.remaining_attempts == p.remaining_attempts - 1
    &&& q.previous_duration.secs == p.current_duration.secs
    &&& q.current_duration.secs == p.previous_duration.secs + p.current_duration.secs
    &&& q.max_duration == p.max_duration
    &&& q.jitter_mode == p.jitter_mode
}

/// The Fibonacci numbers, with fib(0) = 0 and fib(1) = 1.
pub open spec fn fib(n: nat) -> nat
    decreases n,
{
    if n == 0 {
        0
    } else if n == 1 {
        1
    } else {
        fib((n - 1) as nat) + fib((n - 2) as nat)
    }
}

impl<L> FibonacciRetryPolicy<L> {
    /// A fresh policy: the full attempt budget, a first backoff equal to
    /// the configured initial backoff, and a zero backoff before it.
    pub fn new(
        remaining_attempts: usize,
        initial_backoff: Duration,
        max_duration: Duration,
        logic: L,
        jitter_mode: JitterMode,
    ) -> (r: Self)
        ensures
            r.remaining_attempts == remaining_attempts,
            r.previous_duration.secs == 0,
            r.current_duration == initial_backoff,
            r.max_duration == max_duration,
            r.jitter_mode == jitter_mode,
    {
        FibonacciRetryPolicy {
            remaining_attempts,
            previous_duration: Duration::from_secs(0),
            current_duration: initial_backoff,
            max_duration,
            jitter_mode,
            logic,
        }
    }

    /// The backoff that the next retry will sleep for, before jitter.
    pub fn backoff(&self) -> (r: Duration)
        ensures
            r == self.current_duration,
    {
        self.current_duration
    }

    /// Whether the attempt budget is used up.
    pub fn is_exhausted(&self) -> (r: bool)
        ensures
            r == (self.remaining_attempts == 0),
    {
        self.remaining_attempts == 0
    }

    /// The state after one more retry: one fewer attempt remains, and the
    /// backoff pair advances along the Fibonacci recurrence. The sum
    /// saturates at the largest representable span.
    pub fn advance(self) -> (r: Self)
        requires
            self.remaining_attempts >= 1,
        ensures
            r.remaining_attempts == self.remaining_attempts - 1,
            r.previous_duration == self.current_duration,
            r.current_duration.secs == if self.previous_duration.secs + self.current_duration.secs
                <= u64::MAX {
                self.previous_duration.secs + self.current_duration.secs
            } else {
                u64::MAX as int
            },
            r.max_duration == self.max_duration,
            r.jitter_mode == self.jitter_mode,
            self.previous_duration.secs + self.current_duration.secs <= u64::MAX ==> advance_rel(
                self,
                r,
            ),
    {
        let next = self.previous_duration.saturating_add(self.current_duration);
        FibonacciRetryPolicy {
            remaining_attempts: self.remaining_attempts - 1,
            previous_duration: self.current_duration,
            current_duration: next,
            max_duration: self.max_duration,
            jitter_mode: self.jitter_mode,
            logic: self.logic,
        }
    }

    /// The span actually slept before a retry, given one random draw.
    /// Without jitter it is the computed backoff itself; with full jitter
    /// it is the draw folded uniformly into `0 ..= backoff`.
    pub fn jittered_backoff(&self, draw: u64) -> (r: Duration)
        ensures
            r.secs <= self.current_duration.secs || self.jitter_mode == JitterMode::Off,
            self.jitter_mode == JitterMode::Off ==> r == self.current_duration,
            self.jitter_mode == JitterMode::Full ==> r.secs == if self.current_duration.secs
                == u64::MAX {
                draw as int
            } else {
                draw as int % (self.current_duration.secs + 1)
            },
    {
        match self.jitter_mode {
            JitterMode::Off => self.current_duration,
            JitterMode::Full => {
                if self.current_duration.secs == u64::MAX {
                    Duration::from_secs(draw)
                } else {
                    Duration::from_secs(draw % (self.current_duration.secs + 1))
                }
            },
        }
    }
}

/// The pre-jitter backoff sequence is Fibonacci, scaled by the initial
/// backoff: along any chain of policies that starts fresh and advances
/// one retry at a time without saturating, the backoff of the n-th
/// policy is fib(n + 1) times the initial backoff, and the span before
/// it is fib(n) times the initial backoff.
pub proof fn lemma_backoff_sequence<L>(ps: Seq<FibonacciRetryPolicy<L>>, b0: nat)
    requires
        ps.len() >= 1,
        ps[0].previous_duration.secs == 0,
        ps[0].current_duration.secs == b0,
        forall|i: int| 0 <= i < ps.len() - 1 ==> #[trigger] advance_rel(ps[i], ps[i + 1]),
    ensures
        forall|i: int|
            0 <= i < ps.len() ==> #[trigger] ps[i].current_duration.secs == fib((i + 1) as nat)
                * b0 && ps[i].previous_duration.secs == fib(i as nat) * b0,
    decreases ps.len(),
{
    if ps.len() == 1 {
        assert(fib(1) == 1);
        assert(ps[0].current_duration.secs == 1 * b0) by (nonlinear_arith)
            requires
                ps[0].current_duration.secs == b0,
        ;
        assert(fib(0) == 0);
        assert(0 * b0 == 0);
        assert(ps[0].previous_duration.secs == fib(0) * b0);
    } else {
        let n = ps.len() - 1;
        let prefix = ps.drop_last();
        assert forall|i: int| 0 <= i < prefix.len() - 1 implies #[trigger] advance_rel(
            prefix[i],
            prefix[i + 1],
        ) by {
            assert(prefix[i] == ps[i]);
            assert(prefix[i + 1] == ps[i + 1]);
            assert(advance_rel(ps[i], ps[i + 1]));
        }
        lemma_backoff_sequence(prefix, b0);
        assert(advance_rel(ps[n - 1], ps[(n - 1) + 1]));
        assert(ps[(n - 1) + 1] == ps[n]);
        assert(prefix[n - 1] == ps[n - 1]);
        assert(prefix[n - 1].current_duration.secs == fib(((n - 1) + 1) as nat) * b0);
        assert(prefix[n - 1].previous_duration.secs == fib((n - 1) as nat) * b0);
        assert(fib((n + 1) as nat) == fib(n as nat) + fib((n - 1) as nat));
        assert((fib(n as nat) + fib((n - 1) as nat)) * b0 == fib(n as nat) * b0 + fib((n - 1) as nat)
            * b0) by (nonlinear_arith);
        assert(ps[n].current_duration.secs == fib((n + 1) as nat) * b0);
        assert(ps[n].previous_duration.secs == fib(n as nat) * b0);
        assert forall|i: int| 0 <= i < ps.len() implies (#[trigger] ps[i].current_duration.secs)
            == fib((i + 1) as nat) * b0 && ps[i].previous_duration.secs == fib(i as nat) * b0 by {
            if i < n {
                assert(prefix[i] == ps[i]);
                assert(prefix[i].current_duration.secs == fib((i + 1) as nat) * b0);
                assert(prefix[i].previous_duration.secs == fib(i as nat) * b0);
            }
        }
    }
}

/// One observed retry run of a single request, as pairs of (start time,
/// latency) for each attempt, measured from the first attempt. The
/// schedule the retry layer produces always satisfies this shape: the
/// first attempt starts at once, every retry starts no earlier than the
/// failure it follows, and the capped backoff sleep never lets a retry
/// start after the configured deadline.
pub open spec fn retry_trace_ok(trace: Seq<(u64, u64)>, max_duration: u64) -> bool {
    &&& trace.len() >= 1
    &&& trace[0].0 == 0
    &&& forall|i: int|
        1 <= i < trace.len() ==> (#[trigger] trace[i].0) <= max_duration && trace[i].0
            >= trace[i - 1].0 + trace[i - 1].1
}

/// For any retry sequence, the total wall time — from the first attempt
/// to the end of the last one — is at most the configured maximum retry
/// duration plus the latency of the last attempt.
pub proof fn lemma_retry_total_time_bounded(trace: Seq<(u64, u64)>, max_duration: u64)
    requires
        retry_trace_ok(trace, max_duration),
    ensures
        trace.last().0 + trace.last().1 <= max_duration + trace.last().1,
{
    if trace.len() > 1 {
        assert(trace[trace.len() - 1].0 <= max_duration);
    }
}

} // verus!
