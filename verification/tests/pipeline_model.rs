use request_pipeline::concurrency::AdaptiveConcurrencySettings;
use request_pipeline::concurrency::Concurrency;
use request_pipeline::config::TowerRequestConfig;
use request_pipeline::limit::AdaptiveConcurrencyLimit;
use request_pipeline::limit::RateLimiter;
use request_pipeline::pipeline::AttemptOutcome;
use request_pipeline::pipeline::Disposition;
use request_pipeline::pipeline::PipelineError;
use request_pipeline::pipeline::RequestPhase;
use request_pipeline::pipeline::Svc;
use request_pipeline::pipeline::TowerRequestLayer;

fn fixed_svc(n: usize) -> Svc {
    let cfg = TowerRequestConfig {
        concurrency: Some(Concurrency::Fixed(n)),
        ..TowerRequestConfig::default()
    };
    let settings = cfg.unwrap_with(&TowerRequestConfig::default());
    Svc::build(&settings)
}

#[test]
fn retry_under_fixed_concurrency_keeps_order() {
    // Two batches through a pipeline capped at one in-flight request,
    // against a sender that errors once and then succeeds: the first
    // batch is retried with the same contents, and no later batch is
    // sent before the first one succeeds.
    let mut svc = fixed_svc(1);
    let batches: Vec<Vec<u64>> = vec![(0..10).collect(), (10..20).collect()];
    let mut sent: Vec<Vec<u64>> = Vec::new();
    let mut delay = true;
    let mut now: u64 = 0;
    for batch in &batches {
        assert!(svc.poll_ready(now));
        let mut req = svc.call(now);
        loop {
            // The in-flight count never exceeds the configured cap.
            assert!(svc.limiter.in_flight <= svc.limiter.current_limit);
            assert_eq!(svc.limiter.current_limit, 1);
            let outcome = if delay {
                delay = false;
                AttemptOutcome::Error { retriable: true, code: 1 }
            } else {
                sent.push(batch.clone());
                AttemptOutcome::Success
            };
            match svc.complete(req, outcome, 0, now) {
                Disposition::Delivered => break,
                Disposition::RetryAt(next) => {
                    let wake = match next.phase {
                        RequestPhase::Sleeping(w) => w,
                        RequestPhase::InFlight => panic!("retry should sleep"),
                    };
                    now = wake;
                    req = svc.redrive(next, now);
                },
                Disposition::Failed(e) => panic!("unexpected failure: {:?}", e),
            }
        }
    }
    assert_eq!(
        sent,
        vec![(0..10).collect::<Vec<u64>>(), (10..20).collect::<Vec<u64>>()]
    );
}

#[test]
fn fixed_concurrency_caps_in_flight() {
    // K = 5 callers against a cap of N = 3: exactly 3 get in.
    let mut svc = fixed_svc(3);
    let mut reqs = Vec::new();
    for _ in 0..5 {
        if svc.poll_ready(0) {
            reqs.push(svc.call(0));
        }
    }
    assert_eq!(reqs.len(), 3);
    assert_eq!(svc.limiter.in_flight, 3);
    assert!(!svc.poll_ready(0));
    // A completion frees a permit.
    let req = reqs.pop().unwrap();
    let d = svc.complete(req, AttemptOutcome::Success, 0, 0);
    assert_eq!(d, Disposition::Delivered);
    assert_eq!(svc.limiter.in_flight, 2);
    assert!(svc.poll_ready(0));
}

#[test]
fn retry_exhaustion_surfaces_last_error() {
    // A sender that always errors retriably, with 3 retries allowed:
    // 4 attempts in all, then the last error surfaces.
    let cfg = TowerRequestConfig {
        concurrency: Some(Concurrency::Fixed(1)),
        retry_attempts: Some(3),
        ..TowerRequestConfig::default()
    };
    let settings = cfg.unwrap_with(&TowerRequestConfig::default());
    let mut svc = Svc::build(&settings);
    let mut attempts: u64 = 0;
    let mut now: u64 = 0;
    assert!(svc.poll_ready(now));
    let mut req = svc.call(now);
    let err = loop {
        attempts += 1;
        match svc.complete(req, AttemptOutcome::Error { retriable: true, code: 9 }, 0, now) {
            Disposition::RetryAt(next) => {
                let wake = match next.phase {
                    RequestPhase::Sleeping(w) => w,
                    RequestPhase::InFlight => panic!("retry should sleep"),
                };
                now = wake;
                req = svc.redrive(next, now);
            },
            Disposition::Failed(e) => break e,
            Disposition::Delivered => panic!("sender never succeeds"),
        }
    };
    assert_eq!(attempts, 4);
    assert_eq!(err, PipelineError::RetriesExhausted(9));
}

#[test]
fn timeout_surfaces_as_timeout() {
    let cfg = TowerRequestConfig {
        concurrency: Some(Concurrency::Fixed(1)),
        retry_attempts: Some(0),
        ..TowerRequestConfig::default()
    };
    let settings = cfg.unwrap_with(&TowerRequestConfig::default());
    let mut svc = Svc::build(&settings);
    let req = svc.call(0);
    let d = svc.complete(req, AttemptOutcome::TimedOut, 0, 0);
    assert_eq!(d, Disposition::Failed(PipelineError::Timeout));
}

#[test]
fn non_retriable_error_passes_through() {
    let mut svc = fixed_svc(1);
    let req = svc.call(0);
    let d = svc.complete(req, AttemptOutcome::Error { retriable: false, code: 5 }, 0, 0);
    assert_eq!(d, Disposition::Failed(PipelineError::NonRetriable(5)));
}

#[test]
fn retry_never_scheduled_past_deadline() {
    // Total wall time stays within the retry budget plus the last
    // attempt: the backoff sleep is capped at the request's deadline.
    let cfg = TowerRequestConfig {
        concurrency: Some(Concurrency::Fixed(1)),
        retry_initial_backoff_secs: Some(10),
        retry_max_duration_secs: Some(30),
        retry_jitter_mode: request_pipeline::retries::JitterMode::Off,
        ..TowerRequestConfig::default()
    };
    let settings = cfg.unwrap_with(&TowerRequestConfig::default());
    let mut svc = Svc::build(&settings);
    let req = svc.call(0);
    assert_eq!(req.deadline, 30);
    match svc.complete(req, AttemptOutcome::Error { retriable: true, code: 1 }, 0, 25) {
        Disposition::RetryAt(next) => {
            assert_eq!(next.phase, RequestPhase::Sleeping(30));
        },
        other => panic!("expected a retry, got {:?}", other),
    }
}

#[test]
fn attempt_deadline_is_start_plus_timeout() {
    let cfg = TowerRequestConfig {
        timeout_secs: Some(60),
        ..TowerRequestConfig::default()
    };
    let settings = cfg.unwrap_with(&TowerRequestConfig::default());
    let svc = Svc::build(&settings);
    assert_eq!(svc.attempt_deadline(100), 160);
    assert_eq!(svc.attempt_deadline(u64::MAX - 10), u64::MAX);
}

#[test]
fn cancellation_releases_the_permit() {
    let mut svc = fixed_svc(1);
    let req = svc.call(0);
    assert_eq!(svc.limiter.in_flight, 1);
    svc.cancel(req);
    assert_eq!(svc.limiter.in_flight, 0);
    assert!(svc.poll_ready(0));
}

#[test]
fn rate_limiter_window() {
    let mut rl = RateLimiter::build(2, 1);
    assert!(rl.try_acquire(0));
    assert!(rl.try_acquire(0));
    assert!(!rl.try_acquire(0));
    // A new window opens a second later.
    assert!(rl.try_acquire(1));
    assert_eq!(rl.used, 1);
}

#[test]
fn rate_limit_gates_admission() {
    let cfg = TowerRequestConfig {
        concurrency: Some(Concurrency::Fixed(10)),
        rate_limit_num: Some(2),
        rate_limit_duration_secs: Some(1),
        ..TowerRequestConfig::default()
    };
    let settings = cfg.unwrap_with(&TowerRequestConfig::default());
    let mut svc = Svc::build(&settings);
    assert!(svc.poll_ready(0));
    let _a = svc.call(0);
    let _b = svc.call(0);
    assert!(!svc.poll_ready(0));
    assert!(svc.poll_ready(1));
}

#[test]
fn adaptive_limit_moves_within_bounds() {
    let mut l = AdaptiveConcurrencyLimit::build(
        None,
        AdaptiveConcurrencySettings { initial_concurrency: 8, max_concurrency_limit: 10 },
    );
    assert_eq!(l.current_limit, 8);
    // A load-shed signal halves the limit; a success raises it by one.
    l.observe(true);
    assert_eq!(l.current_limit, 4);
    l.observe(false);
    assert_eq!(l.current_limit, 5);
    for _ in 0..20 {
        l.observe(false);
    }
    assert_eq!(l.current_limit, 10);
    // A pinned limit never moves.
    let mut f = AdaptiveConcurrencyLimit::build(Some(3), AdaptiveConcurrencySettings::default());
    f.observe(true);
    assert_eq!(f.current_limit, 3);
    f.observe(false);
    assert_eq!(f.current_limit, 3);
}

#[test]
fn layer_builds_the_pipeline_from_settings() {
    let settings = TowerRequestConfig::empty()
        .concurrency(Concurrency::Fixed(7))
        .rate_limit_num(5)
        .rate_limit_duration_secs(2)
        .unwrap_with(&TowerRequestConfig::default());
    let layer = TowerRequestLayer::new(settings, ());
    let svc = layer.layer();
    assert_eq!(svc.limiter.current_limit, 7);
    assert_eq!(svc.rate.limit, 5);
    assert_eq!(svc.rate.window_secs, 2);
    assert_eq!(svc.retry_attempts, settings.retry_attempts);
}
