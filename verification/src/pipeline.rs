use vstd::prelude::*;

use crate::config::TowerRequestSettings;
use crate::duration::Duration;
use crate::limit::rolled;
use crate::limit::AdaptiveConcurrencyLimit;
use crate::limit::RateLimiter;
use crate::retries::JitterMode;

verus! {

/// What one attempt of a request came back as, after the caller's
/// classifier has spoken: the transport's verdict reduced to success, a
/// failure that may be retried, a failure that must not be, or an
/// expired per-attempt deadline (always retriable).
#[derive(Clone, Copy, Debug, PartialEq, Eq, Structural)]
pub enum AttemptOutcome {
    /// The attempt succeeded.
    Success,
    /// The attempt failed; `retriable` is the classifier's verdict and
    /// `code` identifies the error for surfacing.
    Error { retriable: bool, code: u64 },
    /// The attempt ran into its per-attempt deadline.
    TimedOut,
}

/// The error surface of the pipeline, beyond what the caller's own
/// error type already says.
#[derive(Clone, Copy, Debug, PartialEq, Eq, Structural)]
pub enum PipelineError {
    /// The final attempt ran into its deadline and the retry budget was
    /// spent.
    Timeout,
    /// The retry budget was spent; carries the last error seen.
    RetriesExhausted(u64),
    /// The classifier ruled the error out of retrying.
    NonRetriable(u64),
}

/// Where one request stands between attempts.
#[derive(Clone, Copy, Debug, PartialEq, Eq, Structural)]
pub enum RequestPhase {
    /// An attempt is running.
    InFlight,
    /// Waiting out a backoff sleep; the attempt resumes at `0`.
    Sleeping(u64),
}

/// The per-request lifecycle state: created on ingress, carried across
/// retries, destroyed on a terminal outcome.
#[derive(Clone, Copy, Debug, PartialEq, Eq, Structural)]
pub struct RequestState {
    /// No retry may start after this instant, in seconds.
    pub deadline: u64,
    /// How many retries are still allowed.
    pub remaining_attempts: usize,
    /// The backoff before the current one, for the Fibonacci sum.
    pub previous_backoff: u64,
    /// The backoff the next retry will sleep for, before jitter.
    pub current_backoff: u64,
    /// Whether an attempt is running or a sleep is pending.
    pub phase: RequestPhase,
}

/// What the pipeline tells the driver after an attempt completes.
#[derive(Clone, Copy, Debug, PartialEq, Eq, Structural)]
pub enum Disposition {
    /// The request is done; the response stands.
    Delivered,
    /// Sleep, then re-issue the cloned request: the carried state says
    /// when and with what retry budget.
    RetryAt(RequestState),
    /// The request is done, unsuccessfully.
    Failed(PipelineError),
}

/// Whether an outcome is retried at all, budget permitting.
pub open spec fn outcome_retriable(o: AttemptOutcome) -> bool {
    match o {
        AttemptOutcome::Success => false,
        AttemptOutcome::Error { retriable, code } => retriable,
        AttemptOutcome::TimedOut => true,
    }
}

/// The error identity an outcome surfaces when it turns out terminal.
pub open spec fn outcome_code(o: AttemptOutcome) -> u64 {
    match o {
        AttemptOutcome::Error { retriable, code } => code,
        _ => 0,
    }
}

/// The terminal error when the retry budget is spent on this outcome:
/// an expired deadline surfaces as a timeout, anything else carries the
/// last error seen.
pub open spec fn exhausted_error(o: AttemptOutcome) -> PipelineError {
    match o {
        AttemptOutcome::TimedOut => PipelineError::Timeout,
        _ => PipelineError::RetriesExhausted(outcome_code(o)),
    }
}

/// When a sleeping request wakes, and zero for one in flight.
pub open spec fn wake_time(p: RequestPhase) -> int {
    match p {
        RequestPhase::Sleeping(w) => w as int,
        RequestPhase::InFlight => 0,
    }
}

/// The backoff sleep once jitter is applied: the computed backoff
/// itself without jitter, or the draw folded uniformly into
/// `0 ..= backoff` with full jitter.
pub open spec fn spec_jittered(backoff: u64, mode: JitterMode, draw: u64) -> int {
    match mode {
        JitterMode::Off => backoff as int,
        JitterMode::Full => if backoff == u64::MAX {
            draw as int
        } else {
            draw as int % (backoff as int + 1)
        },
    }
}

/// Addition clamped to the largest representable second count.
pub open spec fn sat_add(a: int, b: int) -> int {
    if a + b <= u64::MAX {
        a + b
    } else {
        u64::MAX as int
    }
}

/// The request state after one more retry is scheduled at time `now`:
/// one fewer attempt remains, the backoff pair advances along the
/// Fibonacci recurrence, and the request sleeps until the jittered
/// backoff has passed — capped so the retry never starts after the
/// request's deadline.
pub open spec fn next_request_state(
    req: RequestState,
    mode: JitterMode,
    draw: u64,
    now: u64,
) -> RequestState {
    let sleep = spec_jittered(req.current_backoff, mode, draw);
    let wake = if sat_add(now as int, sleep) <= req.deadline {
        sat_add(now as int, sleep)
    } else {
        req.deadline as int
    };
    RequestState {
        deadline: req.deadline,
        remaining_attempts: (req.remaining_attempts - 1) as usize,
        previous_backoff: req.current_backoff,
        current_backoff: sat_add(req.previous_backoff as int, req.current_backoff as int) as u64,
        phase: RequestPhase::Sleeping(wake as u64),
    }
}

/// What the retry policy decides once an attempt's classified outcome
/// is in at time `now`: success and non-retriable failures are
/// terminal; a retriable failure retries only while retries remain and
/// the deadline has not passed, and otherwise surfaces the last error
/// seen.
pub open spec fn retry_decision(
    req: RequestState,
    outcome: AttemptOutcome,
    mode: JitterMode,
    draw: u64,
    now: u64,
) -> Disposition {
    if outcome == AttemptOutcome::Success {
        Disposition::Delivered
    } else if !outcome_retriable(outcome) {
        Disposition::Failed(PipelineError::NonRetriable(outcome_code(outcome)))
    } else if req.remaining_attempts == 0 || now >= req.deadline {
        Disposition::Failed(exhausted_error(outcome))
    } else {
        Disposition::RetryAt(next_request_state(req, mode, draw, now))
    }
}

/// The retry policy's verdict on one completed attempt.
pub fn decide(req: RequestState, outcome: AttemptOutcome, mode: JitterMode, draw: u64, now: u64) -> (d:
    Disposition)
    ensures
        d == retry_decision(req, outcome, mode, draw, now),
{
    match outcome {
        AttemptOutcome::Success => Disposition::Delivered,
        AttemptOutcome::Error { retriable: false, code } => Disposition::Failed(
            PipelineError::NonRetriable(code),
        ),
        _ => {
            if req.remaining_attempts == 0 || now >= req.deadline {
                let e = match outcome {
                    AttemptOutcome::TimedOut => PipelineError::Timeout,
                    AttemptOutcome::Error { retriable: _, code } => PipelineError::RetriesExhausted(
                        code,
                    ),
                    AttemptOutcome::Success => PipelineError::RetriesExhausted(0),
                };
                Disposition::Failed(e)
            } else {
                let sleep = jittered_sleep(req.current_backoff, mode, draw);
                let unclamped = if now <= u64::MAX - sleep {
                    now + sleep
                } else {
                    u64::MAX
                };
                let wake = if unclamped <= req.deadline {
                    unclamped
                } else {
                    req.deadline
                };
                let next_backoff = if req.previous_backoff <= u64::MAX - req.current_backoff {
                    req.previous_backoff + req.current_backoff
                } else {
                    u64::MAX
                };
                Disposition::RetryAt(
                    RequestState {
                        deadline: req.deadline,
                        remaining_attempts: req.remaining_attempts - 1,
                        previous_backoff: req.current_backoff,
                        current_backoff: next_backoff,
                        phase: RequestPhase::Sleeping(wake),
                    },
                )
            }
        },
    }
}

/// Whether the rate limiter would admit a call at time `now`, once the
/// window is rolled.
pub open spec fn rolled_ready(rate: RateLimiter, now: u64) -> bool {
    rolled(rate, now).used < rate.limit
}

/// The single-endpoint pipeline, outermost layer first: rate limiting,
/// then the concurrency permit, then retry, then the per-attempt
/// timeout around the caller's sender.
///
/// The pipeline itself holds only pipeline-scoped state — the rate
/// window and the permit count; each request's retry state is the
/// `RequestState` handed out at ingress, and the sender, the sleeps and
/// the clock stay with the driver, which reports each attempt's
/// classified outcome.
#[derive(Clone, Copy, Debug)]
pub struct Svc {
    /// Admission control over the configured window.
    pub rate: RateLimiter,
    /// The in-flight permit count, fixed or adaptive.
    pub limiter: AdaptiveConcurrencyLimit,
    /// The per-attempt deadline.
    pub timeout: Duration,
    /// The retry budget each fresh request starts with.
    pub retry_attempts: usize,
    /// The first backoff of each fresh request, in seconds.
    pub retry_initial_backoff: u64,
    /// The cap on each request's whole retry series, in seconds.
    pub retry_max_duration: u64,
    /// How backoff sleeps are randomized.
    pub retry_jitter_mode: JitterMode,
}

impl Svc {
    pub open spec fn wf(self) -> bool {
        &&& self.rate.wf()
        &&& self.limiter.wf()
    }

    /// Assemble the pipeline from resolved settings. The order is
    /// deliberate: admission is policed before any work, a retry takes
    /// a fresh permit and a fresh outcome sample, each attempt gets its
    /// own timeout, and the retry deadline bounds the series.
    pub fn build(settings: &TowerRequestSettings) -> (r: Svc)
        requires
            settings.concurrency is Some ==> settings.concurrency->0 >= 1,
        ensures
            r.wf(),
            r.rate == (RateLimiter {
                limit: settings.rate_limit_num,
                window_secs: settings.rate_limit_duration.secs,
                window_start: 0u64,
                used: 0u64,
            }),
            r.limiter.in_flight == 0,
            settings.concurrency is Some ==> r.limiter.pinned && r.limiter.current_limit
                == settings.concurrency->0,
            settings.concurrency is None ==> !r.limiter.pinned,
            r.timeout == settings.timeout,
            r.retry_attempts == settings.retry_attempts,
            r.retry_initial_backoff == settings.retry_initial_backoff.secs,
            r.retry_max_duration == settings.retry_max_duration.secs,
            r.retry_jitter_mode == settings.retry_jitter_mode,
    {
        Svc {
            rate: RateLimiter::build(settings.rate_limit_num, settings.rate_limit_duration.secs),
            limiter: AdaptiveConcurrencyLimit::build(
                settings.concurrency,
                settings.adaptive_concurrency,
            ),
            timeout: settings.timeout,
            retry_attempts: settings.retry_attempts,
            retry_initial_backoff: settings.retry_initial_backoff.secs,
            retry_max_duration: settings.retry_max_duration.secs,
            retry_jitter_mode: settings.retry_jitter_mode,
        }
    }

    /// Readiness for a fresh request: a rate slot is open in the window
    /// that applies at `now`, and a concurrency permit is free.
    pub fn poll_ready(&self, now: u64) -> (r: bool)
        requires
            now >= self.rate.window_start,
        ensures
            r == (rolled(self.rate, now).used < self.rate.limit && self.limiter.in_flight
                < self.limiter.current_limit),
    {
        let rate_open = if self.rate.window_secs <= now - self.rate.window_start {
            0 < self.rate.limit
        } else {
            self.rate.used < self.rate.limit
        };
        rate_open && self.limiter.in_flight < self.limiter.current_limit
    }

    /// Admit one fresh request at time `now`: a rate slot and a permit
    /// are consumed, and the request starts its first attempt with the
    /// full retry budget, the configured initial backoff, and a
    /// deadline one maximum retry duration away.
    pub fn call(&mut self, now: u64) -> (req: RequestState)
        requires
            old(self).wf(),
            now >= old(self).rate.window_start,
            rolled(old(self).rate, now).used < old(self).rate.limit,
            old(self).limiter.in_flight < old(self).limiter.current_limit,
        ensures
            final(self).wf(),
            *final(self) == (Svc {
                rate: final(self).rate,
                limiter: final(self).limiter,
                ..*old(self)
            }),
            final(self).rate == (RateLimiter {
                used: (rolled(old(self).rate, now).used + 1) as u64,
                ..rolled(old(self).rate, now)
            }),
            final(self).limiter == (AdaptiveConcurrencyLimit {
                in_flight: (old(self).limiter.in_flight + 1) as usize,
                ..old(self).limiter
            }),
            req == (RequestState {
                deadline: sat_add(now as int, old(self).retry_max_duration as int) as u64,
                remaining_attempts: old(self).retry_attempts,
                previous_backoff: 0u64,
                current_backoff: old(self).retry_initial_backoff,
                phase: RequestPhase::InFlight,
            }),
    {
        let admitted = self.rate.try_acquire(now);
        self.limiter.acquire();
        let deadline = if now <= u64::MAX - self.retry_max_duration {
            now + self.retry_max_duration
        } else {
            u64::MAX
        };
        RequestState {
            deadline,
            remaining_attempts: self.retry_attempts,
            previous_backoff: 0,
            current_backoff: self.retry_initial_backoff,
            phase: RequestPhase::InFlight,
        }
    }

    /// The instant an attempt started at `started` gets cancelled if no
    /// verdict has arrived.
    pub fn attempt_deadline(&self, started: u64) -> (r: u64)
        ensures
            r == sat_add(started as int, self.timeout.secs as int),
    {
        if started <= u64::MAX - self.timeout.secs {
            started + self.timeout.secs
        } else {
            u64::MAX
        }
    }

    /// Record the classified outcome of one attempt at time `now`. The
    /// permit comes back, the controller hears about the outcome, and
    /// the retry policy decides: success and non-retriable failures are
    /// terminal; a retriable failure retries only while retries remain
    /// and the deadline has not passed, sleeping the jittered backoff —
    /// capped so the retry never starts after the deadline — and
    /// otherwise surfaces the last error seen.
    pub fn complete(&mut self, req: RequestState, outcome: AttemptOutcome, draw: u64, now: u64) -> (d:
        Disposition)
        requires
            old(self).wf(),
            req.phase == RequestPhase::InFlight,
            old(self).limiter.in_flight >= 1,
        ensures
            final(self).wf(),
            *final(self) == (Svc { limiter: final(self).limiter, ..*old(self) }),
            final(self).limiter.in_flight == old(self).limiter.in_flight - 1,
            final(self).limiter.pinned == old(self).limiter.pinned,
            final(self).limiter.min_limit == old(self).limiter.min_limit,
            final(self).limiter.max_limit == old(self).limiter.max_limit,
            old(self).limiter.pinned ==> final(self).limiter.current_limit == old(
                self,
            ).limiter.current_limit,
            d == retry_decision(req, outcome, old(self).retry_jitter_mode, draw, now),
            outcome == AttemptOutcome::Success ==> d == Disposition::Delivered,
            (outcome matches AttemptOutcome::Error { retriable: false, .. }) ==> d
                == Disposition::Failed(PipelineError::NonRetriable(outcome_code(outcome))),
            outcome_retriable(outcome) && (req.remaining_attempts == 0 || now >= req.deadline) ==> d
                == Disposition::Failed(exhausted_error(outcome)),
            outcome_retriable(outcome) && req.remaining_attempts >= 1 && now < req.deadline ==> d
                == Disposition::RetryAt(
                next_request_state(req, old(self).retry_jitter_mode, draw, now),
            ) && now <= wake_time(
                next_request_state(req, old(self).retry_jitter_mode, draw, now).phase,
            ) <= req.deadline,
    {
        self.limiter.release();
        self.limiter.observe(outcome_is_retriable(&outcome));
        decide(req, outcome, self.retry_jitter_mode, draw, now)
    }

    /// Re-issue a request whose backoff sleep has passed: a fresh
    /// permit is consumed — a retried attempt participates in load
    /// shedding exactly like a new one — and the attempt runs again.
    pub fn redrive(&mut self, req: RequestState, now: u64) -> (r: RequestState)
        requires
            old(self).wf(),
            req.phase is Sleeping,
            now >= wake_time(req.phase),
            old(self).limiter.in_flight < old(self).limiter.current_limit,
        ensures
            final(self).wf(),
            *final(self) == (Svc { limiter: final(self).limiter, ..*old(self) }),
            final(self).limiter == (AdaptiveConcurrencyLimit {
                in_flight: (old(self).limiter.in_flight + 1) as usize,
                ..old(self).limiter
            }),
            r == (RequestState { phase: RequestPhase::InFlight, ..req }),
    {
        self.limiter.acquire();
        RequestState { phase: RequestPhase::InFlight, ..req }
    }

    /// Abandon a request: its permit, if an attempt is running, comes
    /// back, and nothing is surfaced — cancellation is not an error.
    pub fn cancel(&mut self, req: RequestState)
        requires
            old(self).wf(),
            req.phase == RequestPhase::InFlight ==> old(self).limiter.in_flight >= 1,
        ensures
            final(self).wf(),
            *final(self) == (Svc { limiter: final(self).limiter, ..*old(self) }),
            final(self).limiter == if req.phase == RequestPhase::InFlight {
                (AdaptiveConcurrencyLimit {
                    in_flight: (old(self).limiter.in_flight - 1) as usize,
                    ..old(self).limiter
                })
            } else {
                old(self).limiter
            },
    {
        match req.phase {
            RequestPhase::InFlight => self.limiter.release(),
            RequestPhase::Sleeping(_) => (),
        }
    }
}

fn outcome_is_retriable(o: &AttemptOutcome) -> (r: bool)
    ensures
        r == outcome_retriable(*o),
{
    match o {
        AttemptOutcome::Success => false,
        AttemptOutcome::Error { retriable, code: _ } => *retriable,
        AttemptOutcome::TimedOut => true,
    }
}

fn jittered_sleep(backoff: u64, mode: JitterMode, draw: u64) -> (r: u64)
    ensures
        r == spec_jittered(backoff, mode, draw),
{
    match mode {
        JitterMode::Off => backoff,
        JitterMode::Full => {
            if backoff == u64::MAX {
                draw
            } else {
                draw % (backoff + 1)
            }
        },
    }
}

/// The assembly recipe of the single-endpoint pipeline: resolved
/// settings plus the caller's retry classifier, from which `layer`
/// produces the composed pipeline.
#[derive(Clone, Copy, Debug)]
pub struct TowerRequestLayer<L> {
    pub settings: TowerRequestSettings,
    pub retry_logic: L,
}

impl<L> TowerRequestLayer<L> {
    pub fn new(settings: TowerRequestSettings, retry_logic: L) -> (r: Self)
        ensures
            r.settings == settings,
    {
        TowerRequestLayer { settings, retry_logic }
    }

    /// Compose the pipeline around a sender, outermost layer first:
    /// rate limit, concurrency permit, retry, per-attempt timeout.
    pub fn layer(&self) -> (r: Svc)
        requires
            self.settings.concurrency is Some ==> self.settings.concurrency->0 >= 1,
        ensures
            r.wf(),
            r.limiter.in_flight == 0,
            r.rate.limit == self.settings.rate_limit_num,
            r.rate.window_secs == self.settings.rate_limit_duration.secs,
            self.settings.concurrency is Some ==> r.limiter.pinned && r.limiter.current_limit
                == self.settings.concurrency->0,
            r.timeout == self.settings.timeout,
            r.retry_attempts == self.settings.retry_attempts,
            r.retry_initial_backoff == self.settings.retry_initial_backoff.secs,
            r.retry_max_duration == self.settings.retry_max_duration.secs,
            r.retry_jitter_mode == self.settings.retry_jitter_mode,
    {
        Svc::build(&self.settings)
    }
}

} // verus!
