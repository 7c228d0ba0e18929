use request_pipeline::concurrency::Concurrency;
use request_pipeline::config::default_concurrency;
use request_pipeline::config::default_rate_limit_duration_secs;
use request_pipeline::config::default_rate_limit_num;
use request_pipeline::config::default_retry_attempts;
use request_pipeline::config::default_retry_initial_backoff_secs;
use request_pipeline::config::default_retry_max_duration_secs;
use request_pipeline::config::default_timeout_secs;
use request_pipeline::config::TowerRequestConfig;
use request_pipeline::duration::Duration;

#[test]
fn config_merging_defaults_concurrency_to_none_if_unset() {
    let cfg = TowerRequestConfig::default().unwrap_with(&TowerRequestConfig::default());

    assert_eq!(cfg.concurrency, None);
}

#[test]
fn populated_config_unwrap_with() {
    // Populate with values not equal to the global defaults.
    let cfg = TowerRequestConfig::parse(
        r#" concurrency = 16
            timeout_secs = 1
            rate_limit_duration_secs = 2
            rate_limit_num = 3
            retry_attempts = 4
            retry_max_duration_secs = 5
            retry_initial_backoff_secs = 6
        "#
        .as_bytes(),
    )
    .expect("Config failed to parse");

    // Merge with defaults
    let settings = cfg.unwrap_with(&TowerRequestConfig::default());
    assert_eq!(
        settings.concurrency,
        Concurrency::Fixed(16).parse_concurrency()
    );
    assert_eq!(settings.timeout, Duration::from_secs(1));
    assert_eq!(settings.rate_limit_duration, Duration::from_secs(2));
    assert_eq!(settings.rate_limit_num, 3);
    assert_eq!(settings.retry_attempts, 4);
    assert_eq!(settings.retry_max_duration, Duration::from_secs(5));
    assert_eq!(settings.retry_initial_backoff, Duration::from_secs(6));
}

#[test]
fn default_config_unwrap_with() {
    // Config with all global default values.
    // This is equivalent to the user explicitly specifying all of the values in their config.
    let cfg = TowerRequestConfig::default();

    // Merge with local default overrides.
    let settings = cfg.unwrap_with(&TowerRequestConfig {
        concurrency: Some(Concurrency::Fixed(16)),
        timeout_secs: Some(1),
        rate_limit_duration_secs: Some(2),
        rate_limit_num: Some(3),
        retry_attempts: Some(4),
        retry_max_duration_secs: Some(5),
        retry_initial_backoff_secs: Some(6),
        ..Default::default()
    });
    // Result should still be global default values.
    assert_eq!(
        settings.concurrency,
        default_concurrency().unwrap().parse_concurrency()
    );
    assert_eq!(
        settings.timeout,
        Duration::from_secs(default_timeout_secs().unwrap())
    );
    assert_eq!(
        settings.rate_limit_duration,
        Duration::from_secs(default_rate_limit_duration_secs().unwrap())
    );
    assert_eq!(settings.rate_limit_num, default_rate_limit_num().unwrap());
    assert_eq!(settings.retry_attempts, default_retry_attempts().unwrap());
    assert_eq!(
        settings.retry_max_duration,
        Duration::from_secs(default_retry_max_duration_secs().unwrap())
    );
    assert_eq!(
        settings.retry_initial_backoff,
        Duration::from_secs(default_retry_initial_backoff_secs().unwrap())
    );
}

#[test]
fn empty_config_unwrap_with() {
    let cfg = TowerRequestConfig::parse("".as_bytes()).expect("Empty config failed");
    // These values should be None by default so that we can differentiate between when the user sets them and
    // when they do not.
    assert_eq!(cfg.concurrency, None);
    assert_eq!(cfg.timeout_secs, None);
    assert_eq!(cfg.rate_limit_duration_secs, None);
    assert_eq!(cfg.rate_limit_num, None);
    assert_eq!(cfg.retry_attempts, None);
    assert_eq!(cfg.retry_max_duration_secs, None);
    assert_eq!(cfg.retry_initial_backoff_secs, None);

    // Merge with defaults
    let settings = cfg.unwrap_with(&TowerRequestConfig::default());
    assert_eq!(
        settings.concurrency,
        default_concurrency().unwrap().parse_concurrency()
    );
    assert_eq!(
        settings.timeout,
        Duration::from_secs(default_timeout_secs().unwrap())
    );
    assert_eq!(
        settings.rate_limit_duration,
        Duration::from_secs(default_rate_limit_duration_secs().unwrap())
    );
    assert_eq!(settings.rate_limit_num, default_rate_limit_num().unwrap());
    assert_eq!(settings.retry_attempts, default_retry_attempts().unwrap());
    assert_eq!(
        settings.retry_max_duration,
        Duration::from_secs(default_retry_max_duration_secs().unwrap())
    );
    assert_eq!(
        settings.retry_initial_backoff,
        Duration::from_secs(default_retry_initial_backoff_secs().unwrap())
    );

    // Merge with none values
    let settings = cfg.unwrap_with(&TowerRequestConfig {
        concurrency: None,
        timeout_secs: None,
        rate_limit_duration_secs: None,
        rate_limit_num: None,
        retry_attempts: None,
        retry_max_duration_secs: None,
        retry_initial_backoff_secs: None,
        ..Default::default()
    });
    assert_eq!(
        settings.timeout,
        Duration::from_secs(default_timeout_secs().unwrap())
    );
    assert_eq!(
        settings.rate_limit_duration,
        Duration::from_secs(default_rate_limit_duration_secs().unwrap())
    );
    assert_eq!(settings.rate_limit_num, default_rate_limit_num().unwrap());
    assert_eq!(settings.retry_attempts, default_retry_attempts().unwrap());
    assert_eq!(
        settings.retry_max_duration,
        Duration::from_secs(default_retry_max_duration_secs().unwrap())
    );
    assert_eq!(
        settings.retry_initial_backoff,
        Duration::from_secs(default_retry_initial_backoff_secs().unwrap())
    );

    // Merge with overrides
    let settings = cfg.unwrap_with(&TowerRequestConfig {
        concurrency: Some(Concurrency::Fixed(16)),
        timeout_secs: Some(1),
        rate_limit_duration_secs: Some(2),
        rate_limit_num: Some(3),
        retry_attempts: Some(4),
        retry_max_duration_secs: Some(5),
        retry_initial_backoff_secs: Some(6),
        ..Default::default()
    });
    assert_eq!(
        settings.concurrency,
        Concurrency::Fixed(16).parse_concurrency()
    );
    assert_eq!(settings.timeout, Duration::from_secs(1));
    assert_eq!(settings.rate_limit_duration, Duration::from_secs(2));
    assert_eq!(settings.rate_limit_num, 3);
    assert_eq!(settings.retry_attempts, 4);
    assert_eq!(settings.retry_max_duration, Duration::from_secs(5));
    assert_eq!(settings.retry_initial_backoff, Duration::from_secs(6));
}

#[test]
fn empty_merge_has_global_defaults() {
    let empty = TowerRequestConfig::empty();
    let settings = empty.unwrap_with(&TowerRequestConfig::empty());
    assert_eq!(settings.timeout, Duration::from_secs(60));
    assert_eq!(settings.rate_limit_duration, Duration::from_secs(1));
    assert_eq!(settings.rate_limit_num, i64::MAX as u64);
    assert_eq!(settings.retry_attempts, isize::MAX as usize);
    assert_eq!(settings.retry_max_duration, Duration::from_secs(30));
    assert_eq!(settings.retry_initial_backoff, Duration::from_secs(1));
    // The adaptive sentinel: no fixed cap.
    assert_eq!(settings.concurrency, None);
}

#[test]
fn builder_methods_set_fields() {
    let cfg = TowerRequestConfig::empty()
        .concurrency(Concurrency::Fixed(4))
        .timeout_secs(7)
        .rate_limit_duration_secs(8)
        .rate_limit_num(9)
        .retry_attempts(10)
        .retry_max_duration_secs(11)
        .retry_initial_backoff_secs(12);
    assert_eq!(cfg.concurrency, Some(Concurrency::Fixed(4)));
    assert_eq!(cfg.timeout_secs, Some(7));
    assert_eq!(cfg.rate_limit_duration_secs, Some(8));
    assert_eq!(cfg.rate_limit_num, Some(9));
    assert_eq!(cfg.retry_attempts, Some(10));
    assert_eq!(cfg.retry_max_duration_secs, Some(11));
    assert_eq!(cfg.retry_initial_backoff_secs, Some(12));
}
