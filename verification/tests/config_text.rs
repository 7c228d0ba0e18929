use request_pipeline::codec::ParseError;
use request_pipeline::concurrency::Concurrency;
use request_pipeline::config::TowerRequestConfig;
use request_pipeline::retries::JitterMode;

#[test]
fn concurrency_param_works() {
    let cfg = TowerRequestConfig::default();
    let text = cfg.serialize();
    TowerRequestConfig::parse(&text).expect("Default config failed");

    let cfg = TowerRequestConfig::parse("".as_bytes()).expect("Empty config failed");
    assert_eq!(cfg.concurrency, None);

    let cfg =
        TowerRequestConfig::parse("concurrency = 10".as_bytes()).expect("Fixed concurrency failed");
    assert_eq!(cfg.concurrency, Some(Concurrency::Fixed(10)));

    let cfg = TowerRequestConfig::parse(r#"concurrency = "adaptive""#.as_bytes())
        .expect("Adaptive concurrency setting failed");
    assert_eq!(cfg.concurrency, Some(Concurrency::Adaptive));

    let cfg = TowerRequestConfig::parse(r#"concurrency = "none""#.as_bytes())
        .expect("None concurrency setting failed");
    assert_eq!(cfg.concurrency, Some(Concurrency::Unlimited));

    TowerRequestConfig::parse(r#"concurrency = "broken""#.as_bytes())
        .expect_err("Invalid concurrency setting didn't fail");

    TowerRequestConfig::parse(r#"concurrency = 0"#.as_bytes())
        .expect_err("Invalid concurrency setting didn't fail on zero");

    TowerRequestConfig::parse(r#"concurrency = -9"#.as_bytes())
        .expect_err("Invalid concurrency setting didn't fail on negative number");
}

#[test]
fn default_config_round_trips() {
    let cfg = TowerRequestConfig::default();
    let text = cfg.serialize();
    let back = TowerRequestConfig::parse(&text).expect("Default config failed");
    assert_eq!(back, cfg);
}

#[test]
fn populated_config_round_trips() {
    let cfg = TowerRequestConfig::empty()
        .concurrency(Concurrency::Fixed(16))
        .timeout_secs(1)
        .rate_limit_num(3)
        .retry_attempts(4);
    let text = cfg.serialize();
    let back = TowerRequestConfig::parse(&text).expect("Round trip failed");
    assert_eq!(back, cfg);
}

#[test]
fn parse_error_variants() {
    assert_eq!(
        TowerRequestConfig::parse(r#"concurrency = "broken""#.as_bytes()),
        Err(ParseError::InvalidConcurrency)
    );
    assert_eq!(
        TowerRequestConfig::parse("concurrency = 0".as_bytes()),
        Err(ParseError::InvalidConcurrency)
    );
    assert_eq!(
        TowerRequestConfig::parse("concurrency = -9".as_bytes()),
        Err(ParseError::InvalidNumber)
    );
    assert_eq!(
        TowerRequestConfig::parse("timeout_secs = abc".as_bytes()),
        Err(ParseError::InvalidNumber)
    );
    // One past the largest representable count.
    assert_eq!(
        TowerRequestConfig::parse("timeout_secs = 18446744073709551616".as_bytes()),
        Err(ParseError::InvalidNumber)
    );
    assert_eq!(
        TowerRequestConfig::parse("unknown_setting = 1".as_bytes()),
        Err(ParseError::UnknownKey)
    );
    assert_eq!(
        TowerRequestConfig::parse("no equals sign here".as_bytes()),
        Err(ParseError::Syntax)
    );
    assert_eq!(
        TowerRequestConfig::parse(r#"retry_jitter_mode = "sometimes""#.as_bytes()),
        Err(ParseError::InvalidMode)
    );
}

#[test]
fn parse_exact_values() {
    let cfg = TowerRequestConfig::parse("timeout_secs = 12345".as_bytes()).expect("parse failed");
    assert_eq!(cfg.timeout_secs, Some(12345));
    // The largest representable count parses.
    let cfg = TowerRequestConfig::parse("rate_limit_num = 18446744073709551615".as_bytes())
        .expect("parse failed");
    assert_eq!(cfg.rate_limit_num, Some(u64::MAX));
    // Leading zeroes are digits too.
    let cfg = TowerRequestConfig::parse("timeout_secs = 007".as_bytes()).expect("parse failed");
    assert_eq!(cfg.timeout_secs, Some(7));
}

#[test]
fn parse_jitter_and_adaptive_keys() {
    let cfg = TowerRequestConfig::parse(r#"retry_jitter_mode = "none""#.as_bytes())
        .expect("parse failed");
    assert_eq!(cfg.retry_jitter_mode, JitterMode::Off);
    let cfg = TowerRequestConfig::parse(r#"retry_jitter_mode = "full""#.as_bytes())
        .expect("parse failed");
    assert_eq!(cfg.retry_jitter_mode, JitterMode::Full);
    let cfg = TowerRequestConfig::parse(
        "adaptive_concurrency.initial_concurrency = 5\nadaptive_concurrency.max_concurrency_limit = 50\n"
            .as_bytes(),
    )
    .expect("parse failed");
    assert_eq!(cfg.adaptive_concurrency.initial_concurrency, 5);
    assert_eq!(cfg.adaptive_concurrency.max_concurrency_limit, 50);
}

#[test]
fn serialize_emits_expected_text() {
    let cfg = TowerRequestConfig::empty().timeout_secs(42);
    let text = cfg.serialize();
    let expected = "timeout_secs = 42\nretry_jitter_mode = \"full\"\n\
                    adaptive_concurrency.initial_concurrency = 1\n\
                    adaptive_concurrency.max_concurrency_limit = 200\n";
    assert_eq!(text, expected.as_bytes());
}
