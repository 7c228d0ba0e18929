use vstd::prelude::*;

use crate::config::TowerRequestSettings;
use crate::limit::rolled;
use crate::limit::AdaptiveConcurrencyLimit;
use crate::limit::RateLimiter;
use crate::pipeline::retry_decision;
use crate::pipeline::rolled_ready;
use crate::pipeline::sat_add;
use crate::pipeline::AttemptOutcome;
use crate::pipeline::Disposition;
use crate::pipeline::RequestPhase;
use crate::pipeline::RequestState;
use crate::pipeline::wake_time;
use crate::retries::JitterMode;

verus! {

/// Health classification of one endpoint.
#[derive(Clone, Copy, Debug, PartialEq, Eq, Structural)]
pub enum HealthStatus {
    /// Not yet probed; treated as unhealthy for readiness.
    Unknown,
    /// The last probe or classified response was good.
    Healthy,
    /// The last probe or classified response was bad.
    Unhealthy,
}

/// The pluggable classification of live responses into health
/// verdicts. Implementations come from the caller; nothing is assumed
/// about their verdicts.
pub trait HealthLogic {
    type Response;

    fn is_healthy(&self, response: &Self::Response) -> HealthStatus;
}

/// Cadence of the background liveness probe of each endpoint.
#[derive(Clone, Copy, Debug, PartialEq, Eq, Structural)]
pub struct HealthConfig {
    /// Seconds between probes of one endpoint.
    pub probe_interval_secs: u64,
}

/// How one verdict moves an endpoint's health: a definite verdict
/// replaces the current state, an unknown one leaves it alone.
pub open spec fn next_health(current: HealthStatus, verdict: HealthStatus) -> HealthStatus {
    match verdict {
        HealthStatus::Unknown => current,
        v => v,
    }
}

/// One downstream replica as the balancer sees it: its health gate and
/// its own concurrency limiter. The label and the sender itself stay
/// with the driver, keyed by this record's position.
#[derive(Clone, Copy, Debug)]
pub struct Endpoint {
    /// The health gate; only a healthy endpoint reports ready.
    pub status: HealthStatus,
    /// The per-endpoint in-flight limiter — each replica's capacity is
    /// independent.
    pub limiter: AdaptiveConcurrencyLimit,
}

impl Endpoint {
    pub open spec fn wf(self) -> bool {
        self.limiter.wf()
    }

    /// An endpoint is ready when its health gate is open and a permit
    /// is free.
    pub open spec fn ready(self) -> bool {
        self.status == HealthStatus::Healthy && self.limiter.in_flight < self.limiter.current_limit
    }
}

/// The bounded queue in front of the balancer: it takes submissions
/// from many concurrent callers without serializing them on the
/// balancer's state, withholding readiness — never dropping — when
/// full. Payloads stay with the driver; the queue tracks occupancy.
#[derive(Clone, Copy, Debug)]
pub struct BoundedBuffer {
    /// How many requests the queue may hold.
    pub capacity: usize,
    /// How many it holds now.
    pub len: usize,
}

impl BoundedBuffer {
    pub open spec fn wf(self) -> bool {
        self.len <= self.capacity
    }

    /// Readiness for one more submission.
    pub fn poll_ready(&self) -> (r: bool)
        ensures
            r == (self.len < self.capacity),
    {
        self.len < self.capacity
    }

    /// Take one slot; only a ready queue may be asked.
    pub fn push(&mut self)
        requires
            old(self).wf(),
            old(self).len < old(self).capacity,
        ensures
            final(self).wf(),
            final(self).capacity == old(self).capacity,
            final(self).len == old(self).len + 1,
    {
        self.len = self.len + 1;
    }

    /// Hand one queued request over to the balancer.
    pub fn pop(&mut self)
        requires
            old(self).wf(),
            old(self).len >= 1,
        ensures
            final(self).wf(),
            final(self).capacity == old(self).capacity,
            final(self).len == old(self).len - 1,
    {
        self.len = self.len - 1;
    }
}

/// How many endpoints are currently healthy: the open gauge.
pub open spec fn healthy_count(s: Seq<Endpoint>) -> int
    decreases s.len(),
{
    if s.len() == 0 {
        0
    } else {
        healthy_count(s.drop_last()) + if s.last().status == HealthStatus::Healthy {
            1int
        } else {
            0int
        }
    }
}

/// The distributed pipeline, outermost layer first: rate limiting,
/// then retry — above the balancer, so a failed attempt against one
/// endpoint can be retried against another — then the bounded buffer,
/// then power-of-two-choices balancing over the per-endpoint chains,
/// each of which is a concurrency limiter over a health gate over the
/// per-attempt timeout around that replica's sender.
#[derive(Debug)]
pub struct DistributedService {
    /// Admission control for the whole pipeline.
    pub rate: RateLimiter,
    /// The bounded queue in front of the balancer.
    pub buffer: BoundedBuffer,
    /// The replicas, in discovery order.
    pub endpoints: Vec<Endpoint>,
    /// The replicas' labels, for diagnostics, parallel to `endpoints`.
    pub labels: Vec<String>,
    /// The probe cadence each endpoint's gate runs on.
    pub health: HealthConfig,
    /// The retry budget each fresh request starts with.
    pub retry_attempts: usize,
    /// The first backoff of each fresh request, in seconds.
    pub retry_initial_backoff: u64,
    /// The cap on each request's whole retry series, in seconds.
    pub retry_max_duration: u64,
    /// How backoff sleeps are randomized.
    pub retry_jitter_mode: JitterMode,
}

/// The pipeline-wide template — probe cadence and retry settings —
/// that no dispatch-path operation may touch.
pub open spec fn same_template(a: DistributedService, b: DistributedService) -> bool {
    &&& a.health == b.health
    &&& a.retry_attempts == b.retry_attempts
    &&& a.retry_initial_backoff == b.retry_initial_backoff
    &&& a.retry_max_duration == b.retry_max_duration
    &&& a.retry_jitter_mode == b.retry_jitter_mode
}

impl DistributedService {
    pub open spec fn wf(self) -> bool {
        &&& self.rate.wf()
        &&& self.buffer.wf()
        &&& self.buffer.capacity == self.endpoints@.len() * 200
        &&& self.labels@.len() == self.endpoints@.len()
        &&& forall|i: int| 0 <= i < self.endpoints@.len() ==> (#[trigger] self.endpoints@[i]).wf()
    }

    /// Readiness for a fresh request: a rate slot is open and the
    /// buffer has room.
    pub fn poll_ready(&self, now: u64) -> (r: bool)
        requires
            now >= self.rate.window_start,
        ensures
            r == (rolled_ready(self.rate, now) && self.buffer.len < self.buffer.capacity),
    {
        let rate_open = if self.rate.window_secs <= now - self.rate.window_start {
            0 < self.rate.limit
        } else {
            self.rate.used < self.rate.limit
        };
        rate_open && self.buffer.len < self.buffer.capacity
    }

    /// Admit one fresh request at time `now`: a rate slot and a buffer
    /// slot are consumed, and the request enters with the full retry
    /// budget and a deadline one maximum retry duration away. The
    /// balancer dispatches it to an endpoint separately.
    pub fn call(&mut self, now: u64) -> (req: RequestState)
        requires
            old(self).wf(),
            now >= old(self).rate.window_start,
            rolled_ready(old(self).rate, now),
            old(self).buffer.len < old(self).buffer.capacity,
        ensures
            final(self).wf(),
            final(self).endpoints == old(self).endpoints,
            final(self).labels == old(self).labels,
            final(self).buffer.len == old(self).buffer.len + 1,
            final(self).buffer.capacity == old(self).buffer.capacity,
            same_template(*old(self), *final(self)),
            final(self).rate == (RateLimiter {
                used: (rolled(old(self).rate, now).used + 1) as u64,
                ..rolled(old(self).rate, now)
            }),
            req == (RequestState {
                deadline: sat_add(now as int, old(self).retry_max_duration as int) as u64,
                remaining_attempts: old(self).retry_attempts,
                previous_backoff: 0u64,
                current_backoff: old(self).retry_initial_backoff,
                phase: RequestPhase::InFlight,
            }),
    {
        let admitted = self.rate.try_acquire(now);
        self.buffer.push();
        let deadline = if now <= u64::MAX - self.retry_max_duration {
            now + self.retry_max_duration
        } else {
            u64::MAX
        };
        RequestState {
            deadline,
            remaining_attempts: self.retry_attempts,
            previous_backoff: 0,
            current_backoff: self.retry_initial_backoff,
            phase: RequestPhase::InFlight,
        }
    }

    /// Whether endpoint `i` can take a dispatch right now.
    pub fn endpoint_ready(&self, i: usize) -> (r: bool)
        requires
            i < self.endpoints@.len(),
        ensures
            r == self.endpoints@[i as int].ready(),
    {
        let e = &self.endpoints[i];
        match e.status {
            HealthStatus::Healthy => e.limiter.in_flight < e.limiter.current_limit,
            _ => false,
        }
    }

    /// Power-of-two-choices selection between two drawn endpoints:
    /// whichever of the two is ready, and when both are, the one with
    /// the lower in-flight count — either on a tie. None is picked only
    /// when neither is ready.
    pub fn select(&self, a: usize, b: usize) -> (r: Option<usize>)
        requires
            a < self.endpoints@.len(),
            b < self.endpoints@.len(),
        ensures
            r is Some ==> r->0 < self.endpoints@.len() && self.endpoints@[r->0 as int].ready(),
            self.endpoints@[a as int].ready() && self.endpoints@[b as int].ready() ==> (r == Some(a)
                || r == Some(b)) && self.endpoints@[r->0 as int].limiter.in_flight
                <= self.endpoints@[if r == Some(a) { b as int } else { a as int }].limiter.in_flight,
            self.endpoints@[a as int].ready() && !self.endpoints@[b as int].ready() ==> r == Some(a),
            !self.endpoints@[a as int].ready() && self.endpoints@[b as int].ready() ==> r == Some(b),
            !self.endpoints@[a as int].ready() && !self.endpoints@[b as int].ready() ==> r is None,
    {
        let a_ready = self.endpoint_ready(a);
        let b_ready = self.endpoint_ready(b);
        if a_ready && b_ready {
            if self.endpoints[a].limiter.in_flight <= self.endpoints[b].limiter.in_flight {
                Some(a)
            } else {
                Some(b)
            }
        } else if a_ready {
            Some(a)
        } else if b_ready {
            Some(b)
        } else {
            None
        }
    }

    /// Hand one queued request to endpoint `i`: the buffer slot is
    /// given back and the endpoint's permit is taken.
    pub fn dispatch(&mut self, i: usize)
        requires
            old(self).wf(),
            i < old(self).endpoints@.len(),
            old(self).buffer.len >= 1,
            old(self).endpoints@[i as int].ready(),
        ensures
            final(self).wf(),
            final(self).rate == old(self).rate,
            final(self).labels == old(self).labels,
            same_template(*old(self), *final(self)),
            final(self).buffer.len == old(self).buffer.len - 1,
            final(self).buffer.capacity == old(self).buffer.capacity,
            final(self).endpoints@ == old(self).endpoints@.update(
                i as int,
                (Endpoint {
                    limiter: (AdaptiveConcurrencyLimit {
                        in_flight: (old(self).endpoints@[i as int].limiter.in_flight + 1) as usize,
                        ..old(self).endpoints@[i as int].limiter
                    }),
                    ..old(self).endpoints@[i as int]
                }),
            ),
    {
        self.buffer.pop();
        let e = &mut self.endpoints[i];
        e.limiter.acquire();
    }

    /// Record the classified outcome of one attempt that endpoint `i`
    /// carried, at time `now`: the endpoint's permit comes back, its
    /// controller hears about the outcome, its health gate hears the
    /// verdict, and the retry policy decides exactly as in the
    /// single-endpoint pipeline — a retry re-enters above the balancer,
    /// so it may land on a different endpoint.
    pub fn complete_at(
        &mut self,
        i: usize,
        req: RequestState,
        outcome: AttemptOutcome,
        verdict: HealthStatus,
        draw: u64,
        now: u64,
    ) -> (d: Disposition)
        requires
            old(self).wf(),
            i < old(self).endpoints@.len(),
            req.phase == RequestPhase::InFlight,
            old(self).endpoints@[i as int].limiter.in_flight >= 1,
        ensures
            final(self).wf(),
            final(self).rate == old(self).rate,
            final(self).labels == old(self).labels,
            final(self).buffer == old(self).buffer,
            same_template(*old(self), *final(self)),
            final(self).endpoints@.len() == old(self).endpoints@.len(),
            forall|j: int|
                0 <= j < old(self).endpoints@.len() && j != i ==> final(self).endpoints@[j] == old(
                    self,
                ).endpoints@[j],
            final(self).endpoints@[i as int].status == next_health(
                old(self).endpoints@[i as int].status,
                verdict,
            ),
            final(self).endpoints@[i as int].limiter.in_flight == old(
                self,
            ).endpoints@[i as int].limiter.in_flight - 1,
            old(self).endpoints@[i as int].limiter.pinned ==> final(self).endpoints@[
                i as int
            ].limiter.current_limit == old(self).endpoints@[i as int].limiter.current_limit,
            d == retry_decision(req, outcome, old(self).retry_jitter_mode, draw, now),
    {
        let e = &mut self.endpoints[i];
        e.limiter.release();
        let load_shed = match outcome {
            AttemptOutcome::Success => false,
            AttemptOutcome::Error { retriable, code: _ } => retriable,
            AttemptOutcome::TimedOut => true,
        };
        e.limiter.observe(load_shed);
        e.status = match verdict {
            HealthStatus::Unknown => e.status,
            v => v,
        };
        crate::pipeline::decide(req, outcome, self.retry_jitter_mode, draw, now)
    }

    /// Resubmit a request whose backoff sleep has passed: it re-enters
    /// the queue above the balancer, which will pick an endpoint anew.
    pub fn resubmit(&mut self, req: RequestState, now: u64) -> (r: RequestState)
        requires
            old(self).wf(),
            req.phase is Sleeping,
            now >= wake_time(req.phase),
            old(self).buffer.len < old(self).buffer.capacity,
        ensures
            final(self).wf(),
            final(self).rate == old(self).rate,
            final(self).endpoints == old(self).endpoints,
            final(self).labels == old(self).labels,
            same_template(*old(self), *final(self)),
            final(self).buffer.len == old(self).buffer.len + 1,
            final(self).buffer.capacity == old(self).buffer.capacity,
            r == (RequestState { phase: RequestPhase::InFlight, ..req }),
    {
        self.buffer.push();
        RequestState { phase: RequestPhase::InFlight, ..req }
    }

    /// Record one background probe's verdict on endpoint `i`. A
    /// definite verdict becomes the endpoint's health status, so the
    /// first successful probe makes an unprobed endpoint ready; an
    /// unknown verdict changes nothing.
    pub fn observe_probe(&mut self, i: usize, verdict: HealthStatus)
        requires
            old(self).wf(),
            i < old(self).endpoints@.len(),
        ensures
            final(self).wf(),
            final(self).rate == old(self).rate,
            final(self).labels == old(self).labels,
            final(self).buffer == old(self).buffer,
            same_template(*old(self), *final(self)),
            final(self).endpoints@ == old(self).endpoints@.update(
                i as int,
                (Endpoint {
                    status: next_health(old(self).endpoints@[i as int].status, verdict),
                    ..old(self).endpoints@[i as int]
                }),
            ),
    {
        let e = &mut self.endpoints[i];
        e.status = match verdict {
            HealthStatus::Unknown => e.status,
            v => v,
        };
    }

    /// The open gauge: how many endpoints are currently healthy.
    pub fn open_gauge(&self) -> (r: usize)
        ensures
            r == healthy_count(self.endpoints@),
    {
        let mut count: usize = 0;
        let mut i: usize = 0;
        while i < self.endpoints.len()
            invariant
                i <= self.endpoints@.len(),
                count == healthy_count(self.endpoints@.take(i as int)),
                count <= i,
            decreases self.endpoints@.len() - i,
        {
            proof {
                assert(self.endpoints@.take(i + 1).drop_last() =~= self.endpoints@.take(i as int));
                assert(self.endpoints@.take(i + 1).last() == self.endpoints@[i as int]);
            }
            let healthy = match self.endpoints[i].status {
                HealthStatus::Healthy => true,
                _ => false,
            };
            if healthy {
                count = count + 1;
            }
            i = i + 1;
        }
        proof {
            assert(self.endpoints@.take(self.endpoints@.len() as int) =~= self.endpoints@);
        }
        count
    }
}

impl TowerRequestSettings {
    /// Assemble the distributed pipeline over the labelled replicas:
    /// every endpoint starts unprobed with a fresh limiter of its own,
    /// the buffer holds two hundred slots per endpoint, and retry and
    /// rate limiting wrap the whole.
    pub fn distributed_service(&self, labels: Vec<String>, health_config: HealthConfig) -> (r:
        DistributedService)
        requires
            self.concurrency is Some ==> self.concurrency->0 >= 1,
            labels@.len() * 200 <= usize::MAX,
        ensures
            r.wf(),
            r.endpoints@.len() == labels@.len(),
            r.labels == labels,
            r.buffer.len == 0,
            r.buffer.capacity == labels@.len() * 200,
            r.health == health_config,
            forall|i: int|
                0 <= i < r.endpoints@.len() ==> (#[trigger] r.endpoints@[i]).status
                    == HealthStatus::Unknown && r.endpoints@[i].limiter.in_flight == 0,
            self.concurrency is Some ==> forall|i: int|
                0 <= i < r.endpoints@.len() ==> (#[trigger] r.endpoints@[i]).limiter.pinned
                    && r.endpoints@[i].limiter.current_limit == self.concurrency->0,
            r.rate == (RateLimiter {
                limit: self.rate_limit_num,
                window_secs: self.rate_limit_duration.secs,
                window_start: 0u64,
                used: 0u64,
            }),
            r.retry_attempts == self.retry_attempts,
            r.retry_initial_backoff == self.retry_initial_backoff.secs,
            r.retry_max_duration == self.retry_max_duration.secs,
            r.retry_jitter_mode == self.retry_jitter_mode,
    {
        let proto = AdaptiveConcurrencyLimit::build(self.concurrency, self.adaptive_concurrency);
        let n = labels.len();
        let mut endpoints: Vec<Endpoint> = Vec::new();
        let mut i: usize = 0;
        while i < n
            invariant
                i <= n,
                endpoints@.len() == i,
                proto.wf(),
                proto.in_flight == 0,
                self.concurrency is Some ==> proto.pinned && proto.current_limit
                    == self.concurrency->0,
                forall|j: int|
                    0 <= j < i ==> (#[trigger] endpoints@[j]) == (Endpoint {
                        status: HealthStatus::Unknown,
                        limiter: proto,
                    }),
            decreases n - i,
        {
            endpoints.push(Endpoint { status: HealthStatus::Unknown, limiter: proto });
            i = i + 1;
        }
        DistributedService {
            rate: RateLimiter::build(self.rate_limit_num, self.rate_limit_duration.secs),
            buffer: BoundedBuffer { capacity: n * 200, len: 0 },
            endpoints,
            labels,
            health: health_config,
            retry_attempts: self.retry_attempts,
            retry_initial_backoff: self.retry_initial_backoff.secs,
            retry_max_duration: self.retry_max_duration.secs,
            retry_jitter_mode: self.retry_jitter_mode,
        }
    }
}

} // verus!
