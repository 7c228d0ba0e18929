use vstd::prelude::*;

use crate::concurrency::concurrency_limit;
use crate::concurrency::default_adaptive_concurrency;
use crate::concurrency::AdaptiveConcurrencySettings;
use crate::concurrency::Concurrency;
use crate::duration::Duration;
use crate::retries::FibonacciRetryPolicy;
use crate::retries::JitterMode;
use crate::retries::RetryLogic;

verus! {

/// Middleware settings for outbound requests, as the user writes them.
///
/// Every field is optional: an absent field inherits first the
/// component's default and then the global default. The retry backoff
/// policy follows the Fibonacci sequence.
#[derive(Clone, Copy, Debug, PartialEq, Eq)]
pub struct TowerRequestConfig {
    /// The concurrency management mode.
    pub concurrency: Option<Concurrency>,
    /// The time a request can take before being aborted, in seconds.
    pub timeout_secs: Option<u64>,
    /// The time window used for the `rate_limit_num` option, in seconds.
    pub rate_limit_duration_secs: Option<u64>,
    /// The maximum number of requests allowed within the window.
    pub rate_limit_num: Option<u64>,
    /// The maximum number of retries to make for failed requests.
    pub retry_attempts: Option<usize>,
    /// The maximum amount of time to spend retrying, in seconds.
    pub retry_max_duration_secs: Option<u64>,
    /// The wait before the first retry, in seconds; later waits follow
    /// the Fibonacci sequence.
    pub retry_initial_backoff_secs: Option<u64>,
    /// How retry backoffs are randomized.
    pub retry_jitter_mode: JitterMode,
    /// Tuning for the adaptive concurrency controller.
    pub adaptive_concurrency: AdaptiveConcurrencySettings,
}

pub fn default_concurrency() -> (r: Option<Concurrency>)
    ensures
        r == Some(Concurrency::Adaptive),
{
    Some(Concurrency::Adaptive)
}

pub fn default_timeout_secs() -> (r: Option<u64>)
    ensures
        r == Some(60u64),
{
    Some(60)
}

pub fn default_rate_limit_duration_secs() -> (r: Option<u64>)
    ensures
        r == Some(1u64),
{
    Some(1)
}

pub fn default_rate_limit_num() -> (r: Option<u64>)
    ensures
        r == Some(i64::MAX as u64),
{
    Some(i64::MAX as u64)
}

pub fn default_retry_attempts() -> (r: Option<usize>)
    ensures
        r == Some(isize::MAX as usize),
{
    Some(isize::MAX as usize)
}

pub fn default_retry_max_duration_secs() -> (r: Option<u64>)
    ensures
        r == Some(30u64),
{
    Some(30)
}

pub fn default_retry_initial_backoff_secs() -> (r: Option<u64>)
    ensures
        r == Some(1u64),
{
    Some(1)
}

/// The global defaults: what an entirely explicit configuration that
/// changes nothing would spell out.
pub open spec fn default_config() -> TowerRequestConfig {
    TowerRequestConfig {
        concurrency: Some(Concurrency::Adaptive),
        timeout_secs: Some(60u64),
        rate_limit_duration_secs: Some(1u64),
        rate_limit_num: Some(i64::MAX as u64),
        retry_attempts: Some(isize::MAX as usize),
        retry_max_duration_secs: Some(30u64),
        retry_initial_backoff_secs: Some(1u64),
        retry_jitter_mode: JitterMode::Full,
        adaptive_concurrency: default_adaptive_concurrency(),
    }
}

/// A configuration with nothing set: every optional field absent, the
/// jitter mode and adaptive tuning at their built-in defaults.
pub open spec fn empty_config() -> TowerRequestConfig {
    TowerRequestConfig {
        concurrency: None,
        timeout_secs: None,
        rate_limit_duration_secs: None,
        rate_limit_num: None,
        retry_attempts: None,
        retry_max_duration_secs: None,
        retry_initial_backoff_secs: None,
        retry_jitter_mode: JitterMode::Full,
        adaptive_concurrency: default_adaptive_concurrency(),
    }
}

impl Default for TowerRequestConfig {
    fn default() -> (r: Self)
        ensures
            r == default_config(),
    {
        TowerRequestConfig {
            concurrency: default_concurrency(),
            timeout_secs: default_timeout_secs(),
            rate_limit_duration_secs: default_rate_limit_duration_secs(),
            rate_limit_num: default_rate_limit_num(),
            retry_attempts: default_retry_attempts(),
            retry_max_duration_secs: default_retry_max_duration_secs(),
            retry_initial_backoff_secs: default_retry_initial_backoff_secs(),
            retry_jitter_mode: JitterMode::Full,
            adaptive_concurrency: AdaptiveConcurrencySettings::default(),
        }
    }
}

impl TowerRequestConfig {
    /// A configuration with nothing set.
    pub fn empty() -> (r: Self)
        ensures
            r == empty_config(),
    {
        TowerRequestConfig {
            concurrency: None,
            timeout_secs: None,
            rate_limit_duration_secs: None,
            rate_limit_num: None,
            retry_attempts: None,
            retry_max_duration_secs: None,
            retry_initial_backoff_secs: None,
            retry_jitter_mode: JitterMode::Full,
            adaptive_concurrency: AdaptiveConcurrencySettings::default(),
        }
    }

    pub fn concurrency(self, concurrency: Concurrency) -> (r: Self)
        ensures
            r == (Self { concurrency: Some(concurrency), ..self }),
    {
        Self { concurrency: Some(concurrency), ..self }
    }

    pub fn timeout_secs(self, timeout_secs: u64) -> (r: Self)
        ensures
            r == (Self { timeout_secs: Some(timeout_secs), ..self }),
    {
        Self { timeout_secs: Some(timeout_secs), ..self }
    }

    pub fn rate_limit_duration_secs(self, rate_limit_duration_secs: u64) -> (r: Self)
        ensures
            r == (Self { rate_limit_duration_secs: Some(rate_limit_duration_secs), ..self }),
    {
        Self { rate_limit_duration_secs: Some(rate_limit_duration_secs), ..self }
    }

    pub fn rate_limit_num(self, rate_limit_num: u64) -> (r: Self)
        ensures
            r == (Self { rate_limit_num: Some(rate_limit_num), ..self }),
    {
        Self { rate_limit_num: Some(rate_limit_num), ..self }
    }

    pub fn retry_attempts(self, retry_attempts: usize) -> (r: Self)
        ensures
            r == (Self { retry_attempts: Some(retry_attempts), ..self }),
    {
        Self { retry_attempts: Some(retry_attempts), ..self }
    }

    pub fn retry_max_duration_secs(self, retry_max_duration_secs: u64) -> (r: Self)
        ensures
            r == (Self { retry_max_duration_secs: Some(retry_max_duration_secs), ..self }),
    {
        Self { retry_max_duration_secs: Some(retry_max_duration_secs), ..self }
    }

    pub fn retry_initial_backoff_secs(self, retry_initial_backoff_secs: u64) -> (r: Self)
        ensures
            r == (Self { retry_initial_backoff_secs: Some(retry_initial_backoff_secs), ..self }),
    {
        Self { retry_initial_backoff_secs: Some(retry_initial_backoff_secs), ..self }
    }

    /// Resolve this configuration against a component's defaults: for
    /// each field, the first present of the user's value, the
    /// component's value, and the global default.
    pub fn unwrap_with(&self, defaults: &Self) -> (r: TowerRequestSettings)
        ensures
            r == resolve_spec(*self, *defaults),
    {
        TowerRequestSettings {
            concurrency: pick_concurrency(self.concurrency, defaults.concurrency)
                .parse_concurrency(),
            timeout: Duration::from_secs(pick_u64(self.timeout_secs, defaults.timeout_secs, 60)),
            rate_limit_duration: Duration::from_secs(
                pick_u64(self.rate_limit_duration_secs, defaults.rate_limit_duration_secs, 1),
            ),
            rate_limit_num: pick_u64(self.rate_limit_num, defaults.rate_limit_num, i64::MAX as u64),
            retry_attempts: pick_usize(
                self.retry_attempts,
                defaults.retry_attempts,
                isize::MAX as usize,
            ),
            retry_max_duration: Duration::from_secs(
                pick_u64(self.retry_max_duration_secs, defaults.retry_max_duration_secs, 30),
            ),
            retry_initial_backoff: Duration::from_secs(
                pick_u64(
                    self.retry_initial_backoff_secs,
                    defaults.retry_initial_backoff_secs,
                    1,
                ),
            ),
            adaptive_concurrency: self.adaptive_concurrency,
            retry_jitter_mode: self.retry_jitter_mode,
        }
    }
}

/// The first present of a user value, a fallback value, and a default.
pub open spec fn first_present_u64(user: Option<u64>, fallback: Option<u64>, dflt: u64) -> u64 {
    match user {
        Some(v) => v,
        None => match fallback {
            Some(v) => v,
            None => dflt,
        },
    }
}

/// The first present of a user value, a fallback value, and a default.
pub open spec fn first_present_usize(
    user: Option<usize>,
    fallback: Option<usize>,
    dflt: usize,
) -> usize {
    match user {
        Some(v) => v,
        None => match fallback {
            Some(v) => v,
            None => dflt,
        },
    }
}

/// The first present of the user's and the component's concurrency
/// choice, falling back to adaptive management.
pub open spec fn first_present_concurrency(
    user: Option<Concurrency>,
    fallback: Option<Concurrency>,
) -> Concurrency {
    match user {
        Some(c) => c,
        None => match fallback {
            Some(c) => c,
            None => Concurrency::Adaptive,
        },
    }
}

fn pick_u64(user: Option<u64>, fallback: Option<u64>, dflt: u64) -> (r: u64)
    ensures
        r == first_present_u64(user, fallback, dflt),
{
    match user {
        Some(v) => v,
        None => match fallback {
            Some(v) => v,
            None => dflt,
        },
    }
}

fn pick_usize(user: Option<usize>, fallback: Option<usize>, dflt: usize) -> (r: usize)
    ensures
        r == first_present_usize(user, fallback, dflt),
{
    match user {
        Some(v) => v,
        None => match fallback {
            Some(v) => v,
            None => dflt,
        },
    }
}

fn pick_concurrency(user: Option<Concurrency>, fallback: Option<Concurrency>) -> (r: Concurrency)
    ensures
        r == first_present_concurrency(user, fallback),
{
    match user {
        Some(c) => c,
        None => match fallback {
            Some(c) => c,
            None => Concurrency::Adaptive,
        },
    }
}

/// What resolution returns: the three-tier choice applied to every
/// field, with the global defaults as the last tier.
pub open spec fn resolve_spec(
    user: TowerRequestConfig,
    comp: TowerRequestConfig,
) -> TowerRequestSettings {
    TowerRequestSettings {
        concurrency: concurrency_limit(first_present_concurrency(user.concurrency, comp.concurrency)),
        timeout: Duration { secs: first_present_u64(user.timeout_secs, comp.timeout_secs, 60) },
        rate_limit_duration: Duration {
            secs: first_present_u64(user.rate_limit_duration_secs, comp.rate_limit_duration_secs, 1),
        },
        rate_limit_num: first_present_u64(user.rate_limit_num, comp.rate_limit_num, i64::MAX as u64),
        retry_attempts: first_present_usize(
            user.retry_attempts,
            comp.retry_attempts,
            isize::MAX as usize,
        ),
        retry_max_duration: Duration {
            secs: first_present_u64(user.retry_max_duration_secs, comp.retry_max_duration_secs, 30),
        },
        retry_initial_backoff: Duration {
            secs: first_present_u64(
                user.retry_initial_backoff_secs,
                comp.retry_initial_backoff_secs,
                1,
            ),
        },
        adaptive_concurrency: user.adaptive_concurrency,
        retry_jitter_mode: user.retry_jitter_mode,
    }
}

/// Fully resolved settings: every field present. An absent concurrency
/// means no static cap (with adaptive management engaged when the
/// configuration asked for it).
#[derive(Clone, Copy, Debug, PartialEq, Eq)]
pub struct TowerRequestSettings {
    pub concurrency: Option<usize>,
    pub timeout: Duration,
    pub rate_limit_duration: Duration,
    pub rate_limit_num: u64,
    pub retry_attempts: usize,
    pub retry_max_duration: Duration,
    pub retry_initial_backoff: Duration,
    pub adaptive_concurrency: AdaptiveConcurrencySettings,
    pub retry_jitter_mode: JitterMode,
}

impl TowerRequestSettings {
    /// The retry state a fresh request starts from: the full attempt
    /// budget, the configured initial backoff, and the configured cap on
    /// the whole retry series.
    pub fn retry_policy<L: RetryLogic>(&self, logic: L) -> (r: FibonacciRetryPolicy<L>)
        ensures
            r.remaining_attempts == self.retry_attempts,
            r.previous_duration.secs == 0,
            r.current_duration == self.retry_initial_backoff,
            r.max_duration == self.retry_max_duration,
            r.jitter_mode == self.retry_jitter_mode,
    {
        FibonacciRetryPolicy::new(
            self.retry_attempts,
            self.retry_initial_backoff,
            self.retry_max_duration,
            logic,
            self.retry_jitter_mode,
        )
    }
}

/// Resolution is total: whatever the two configurations leave unset,
/// every resolved field is defined, the last tier being the global
/// defaults.
pub proof fn lemma_resolve_total(user: TowerRequestConfig, comp: TowerRequestConfig)
    ensures
        (user.timeout_secs is None && comp.timeout_secs is None) ==> resolve_spec(
            user,
            comp,
        ).timeout.secs == 60,
        (user.rate_limit_duration_secs is None && comp.rate_limit_duration_secs is None)
            ==> resolve_spec(user, comp).rate_limit_duration.secs == 1,
        (user.rate_limit_num is None && comp.rate_limit_num is None) ==> resolve_spec(
            user,
            comp,
        ).rate_limit_num == i64::MAX as u64,
        (user.retry_attempts is None && comp.retry_attempts is None) ==> resolve_spec(
            user,
            comp,
        ).retry_attempts == isize::MAX as usize,
        (user.retry_max_duration_secs is None && comp.retry_max_duration_secs is None)
            ==> resolve_spec(user, comp).retry_max_duration.secs == 30,
        (user.retry_initial_backoff_secs is None && comp.retry_initial_backoff_secs is None)
            ==> resolve_spec(user, comp).retry_initial_backoff.secs == 1,
        (user.concurrency is None && comp.concurrency is None) ==> resolve_spec(
            user,
            comp,
        ).concurrency is None,
{
}

/// The user's settings always win over the component's defaults.
pub proof fn lemma_resolve_user_wins(user: TowerRequestConfig, comp: TowerRequestConfig)
    ensures
        user.concurrency is Some ==> resolve_spec(user, comp).concurrency == concurrency_limit(
            user.concurrency->0,
        ),
        user.timeout_secs is Some ==> resolve_spec(user, comp).timeout.secs == user.timeout_secs->0,
        user.rate_limit_duration_secs is Some ==> resolve_spec(user, comp).rate_limit_duration.secs
            == user.rate_limit_duration_secs->0,
        user.rate_limit_num is Some ==> resolve_spec(user, comp).rate_limit_num
            == user.rate_limit_num->0,
        user.retry_attempts is Some ==> resolve_spec(user, comp).retry_attempts
            == user.retry_attempts->0,
        user.retry_max_duration_secs is Some ==> resolve_spec(user, comp).retry_max_duration.secs
            == user.retry_max_duration_secs->0,
        user.retry_initial_backoff_secs is Some ==> resolve_spec(
            user,
            comp,
        ).retry_initial_backoff.secs == user.retry_initial_backoff_secs->0,
        resolve_spec(user, comp).retry_jitter_mode == user.retry_jitter_mode,
        resolve_spec(user, comp).adaptive_concurrency == user.adaptive_concurrency,
{
}

/// Where the user leaves a field unset, the component's default wins
/// over the global one.
pub proof fn lemma_resolve_component_wins(user: TowerRequestConfig, comp: TowerRequestConfig)
    ensures
        (user.concurrency is None && comp.concurrency is Some) ==> resolve_spec(
            user,
            comp,
        ).concurrency == concurrency_limit(comp.concurrency->0),
        (user.timeout_secs is None && comp.timeout_secs is Some) ==> resolve_spec(
            user,
            comp,
        ).timeout.secs == comp.timeout_secs->0,
        (user.rate_limit_duration_secs is None && comp.rate_limit_duration_secs is Some)
            ==> resolve_spec(user, comp).rate_limit_duration.secs
            == comp.rate_limit_duration_secs->0,
        (user.rate_limit_num is None && comp.rate_limit_num is Some) ==> resolve_spec(
            user,
            comp,
        ).rate_limit_num == comp.rate_limit_num->0,
        (user.retry_attempts is None && comp.retry_attempts is Some) ==> resolve_spec(
            user,
            comp,
        ).retry_attempts == comp.retry_attempts->0,
        (user.retry_max_duration_secs is None && comp.retry_max_duration_secs is Some)
            ==> resolve_spec(user, comp).retry_max_duration.secs == comp.retry_max_duration_secs->0,
        (user.retry_initial_backoff_secs is None && comp.retry_initial_backoff_secs is Some)
            ==> resolve_spec(user, comp).retry_initial_backoff.secs
            == comp.retry_initial_backoff_secs->0,
{
}

} // verus!
