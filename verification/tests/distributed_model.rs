use request_pipeline::concurrency::Concurrency;
use request_pipeline::config::TowerRequestConfig;
use request_pipeline::distributed::DistributedService;
use request_pipeline::distributed::HealthConfig;
use request_pipeline::distributed::HealthStatus;
use request_pipeline::pipeline::AttemptOutcome;
use request_pipeline::pipeline::Disposition;
use request_pipeline::pipeline::RequestPhase;

fn two_endpoint_service() -> DistributedService {
    let settings = TowerRequestConfig::empty()
        .concurrency(Concurrency::Fixed(2))
        .unwrap_with(&TowerRequestConfig::default());
    settings.distributed_service(
        vec!["alpha".to_string(), "beta".to_string()],
        HealthConfig { probe_interval_secs: 5 },
    )
}

#[test]
fn endpoints_start_unknown_and_buffer_is_sized() {
    let ds = two_endpoint_service();
    assert_eq!(ds.endpoints.len(), 2);
    assert_eq!(ds.labels, vec!["alpha".to_string(), "beta".to_string()]);
    // Two hundred buffer slots per endpoint.
    assert_eq!(ds.buffer.capacity, 400);
    assert_eq!(ds.buffer.len, 0);
    // Unknown is treated as unhealthy for readiness.
    assert_eq!(ds.open_gauge(), 0);
    assert!(!ds.endpoint_ready(0));
    assert!(!ds.endpoint_ready(1));
}

#[test]
fn first_successful_probe_opens_the_gate() {
    let mut ds = two_endpoint_service();
    ds.observe_probe(0, HealthStatus::Healthy);
    assert_eq!(ds.open_gauge(), 1);
    assert!(ds.endpoint_ready(0));
    assert!(!ds.endpoint_ready(1));
    // An unknown verdict changes nothing.
    ds.observe_probe(0, HealthStatus::Unknown);
    assert!(ds.endpoint_ready(0));
    // A failed probe closes it again.
    ds.observe_probe(0, HealthStatus::Unhealthy);
    assert_eq!(ds.open_gauge(), 0);
    assert!(!ds.endpoint_ready(0));
}

#[test]
fn balancer_prefers_the_less_loaded_endpoint() {
    let mut ds = two_endpoint_service();
    ds.observe_probe(0, HealthStatus::Healthy);
    ds.observe_probe(1, HealthStatus::Healthy);
    // Put one request onto endpoint 0.
    let req = ds.call(0);
    assert_eq!(ds.buffer.len, 1);
    ds.dispatch(0);
    assert_eq!(ds.buffer.len, 0);
    assert_eq!(ds.endpoints[0].limiter.in_flight, 1);
    // Two ready endpoints: the one with fewer calls in flight wins.
    assert_eq!(ds.select(0, 1), Some(1));
    assert_eq!(ds.select(1, 0), Some(1));
    // Only one ready: that one; none ready: nothing.
    ds.observe_probe(1, HealthStatus::Unhealthy);
    assert_eq!(ds.select(0, 1), Some(0));
    ds.observe_probe(0, HealthStatus::Unhealthy);
    assert_eq!(ds.select(0, 1), None);
    // Clean up the in-flight attempt.
    ds.observe_probe(0, HealthStatus::Healthy);
    let d = ds.complete_at(0, req, AttemptOutcome::Success, HealthStatus::Healthy, 0, 0);
    assert_eq!(d, Disposition::Delivered);
    assert_eq!(ds.endpoints[0].limiter.in_flight, 0);
}

#[test]
fn retry_reenters_above_the_balancer() {
    let mut ds = two_endpoint_service();
    ds.observe_probe(0, HealthStatus::Healthy);
    ds.observe_probe(1, HealthStatus::Healthy);
    let req = ds.call(0);
    ds.dispatch(0);
    // The attempt fails retriably and the response marks the endpoint
    // unhealthy: the retry re-enters the queue and the balancer picks
    // the other endpoint.
    let d = ds.complete_at(
        0,
        req,
        AttemptOutcome::Error { retriable: true, code: 3 },
        HealthStatus::Unhealthy,
        0,
        0,
    );
    let next = match d {
        Disposition::RetryAt(next) => next,
        other => panic!("expected a retry, got {:?}", other),
    };
    assert!(!ds.endpoint_ready(0));
    let wake = match next.phase {
        RequestPhase::Sleeping(w) => w,
        RequestPhase::InFlight => panic!("retry should sleep"),
    };
    let req = ds.resubmit(next, wake);
    assert_eq!(ds.buffer.len, 1);
    assert_eq!(ds.select(0, 1), Some(1));
    ds.dispatch(1);
    let d = ds.complete_at(1, req, AttemptOutcome::Success, HealthStatus::Healthy, 0, wake);
    assert_eq!(d, Disposition::Delivered);
}
