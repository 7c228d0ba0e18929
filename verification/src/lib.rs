//! The outbound request middleware core of a telemetry sink: the
//! configuration of timeouts, rate limits, retries and concurrency,
//! its three-tier resolution against component and global defaults,
//! and the layered pipeline those settings assemble — rate limiting
//! outside an in-flight permit count outside Fibonacci retry outside a
//! per-attempt timeout, and, in the distributed shape, health-gated
//! power-of-two-choices balancing across replicas behind a bounded
//! buffer.
//!
//! The pipeline is modelled as an explicit state machine: the driver
//! performs sends and sleeps, and every decision — admission, permit
//! accounting, retry scheduling, endpoint selection — is a verified
//! function of the state and the attempt's classified outcome.

pub mod codec;
pub mod concurrency;
pub mod config;
pub mod distributed;
pub mod duration;
pub mod limit;
pub mod pipeline;
pub mod retries;
