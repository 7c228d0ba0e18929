use request_pipeline::config::TowerRequestConfig;
use request_pipeline::duration::Duration;
use request_pipeline::retries::FibonacciRetryPolicy;
use request_pipeline::retries::JitterMode;
use request_pipeline::retries::RetryAction;
use request_pipeline::retries::RetryLogic;

#[derive(Clone, Debug, Copy)]
struct RetryAlways;

impl RetryLogic for RetryAlways {
    type Error = u64;
    type Response = ();

    fn is_retriable_error(&self, _: &Self::Error) -> bool {
        true
    }

    fn should_retry_response(&self, _response: &Self::Response) -> RetryAction {
        RetryAction::Successful
    }
}

#[test]
fn backoff_sequence_is_fibonacci() {
    // b0 = initial backoff; b_{n+1} = b_n + b_{n-1}, with b_{-1} = 0.
    let p = FibonacciRetryPolicy::new(
        10,
        Duration::from_secs(1),
        Duration::from_secs(30),
        RetryAlways,
        JitterMode::Off,
    );
    assert_eq!(p.backoff(), Duration::from_secs(1));
    let p = p.advance();
    assert_eq!(p.backoff(), Duration::from_secs(1));
    let p = p.advance();
    assert_eq!(p.backoff(), Duration::from_secs(2));
    let p = p.advance();
    assert_eq!(p.backoff(), Duration::from_secs(3));
    let p = p.advance();
    assert_eq!(p.backoff(), Duration::from_secs(5));
    let p = p.advance();
    assert_eq!(p.backoff(), Duration::from_secs(8));
    assert_eq!(p.remaining_attempts, 5);
}

#[test]
fn backoff_scales_with_initial() {
    let p = FibonacciRetryPolicy::new(
        4,
        Duration::from_secs(3),
        Duration::from_secs(30),
        RetryAlways,
        JitterMode::Off,
    );
    let p = p.advance();
    assert_eq!(p.backoff(), Duration::from_secs(3));
    let p = p.advance();
    assert_eq!(p.backoff(), Duration::from_secs(6));
    let p = p.advance();
    assert_eq!(p.backoff(), Duration::from_secs(9));
}

#[test]
fn jitter_modes() {
    let p = FibonacciRetryPolicy::new(
        1,
        Duration::from_secs(10),
        Duration::from_secs(30),
        RetryAlways,
        JitterMode::Off,
    );
    // Without jitter the sleep is the backoff itself, whatever the draw.
    assert_eq!(p.jittered_backoff(25), Duration::from_secs(10));
    let p = FibonacciRetryPolicy::new(
        1,
        Duration::from_secs(10),
        Duration::from_secs(30),
        RetryAlways,
        JitterMode::Full,
    );
    // With full jitter the draw folds uniformly into 0 ..= backoff.
    assert_eq!(p.jittered_backoff(25), Duration::from_secs(25 % 11));
    assert_eq!(p.jittered_backoff(0), Duration::from_secs(0));
    assert_eq!(p.jittered_backoff(10), Duration::from_secs(10));
}

#[test]
fn exhaustion_counter() {
    let p = FibonacciRetryPolicy::new(
        1,
        Duration::from_secs(1),
        Duration::from_secs(30),
        RetryAlways,
        JitterMode::Off,
    );
    assert!(!p.is_exhausted());
    let p = p.advance();
    assert!(p.is_exhausted());
}

#[test]
fn retry_policy_from_settings() {
    let settings = TowerRequestConfig::empty()
        .retry_attempts(4)
        .retry_initial_backoff_secs(6)
        .retry_max_duration_secs(5)
        .unwrap_with(&TowerRequestConfig::default());
    let p = settings.retry_policy(RetryAlways);
    assert_eq!(p.remaining_attempts, 4);
    assert_eq!(p.previous_duration, Duration::from_secs(0));
    assert_eq!(p.current_duration, Duration::from_secs(6));
    assert_eq!(p.max_duration, Duration::from_secs(5));
    assert!(p.logic.is_retriable_error(&0));
    assert_eq!(p.logic.should_retry_response(&()), RetryAction::Successful);
}

#[test]
fn duration_saturates() {
    let d = Duration::from_secs(u64::MAX).saturating_add(Duration::from_secs(1));
    assert_eq!(d, Duration::from_secs(u64::MAX));
    let d = Duration::from_secs(2).saturating_add(Duration::from_secs(3));
    assert_eq!(d, Duration::from_secs(5));
}
