//! Readiness probing for network endpoints: validated targets, backoff,
//! policy checks and the decisions of the per-target retry loop.

pub mod outside;
pub mod text;
pub mod time;
pub mod error;
pub mod types;
pub mod target;
pub mod backoff;
pub mod security;
pub mod rate_limit;
pub mod probe;
pub mod zero_cost;
pub mod duration;
pub mod laws;
pub mod summary;
pub mod builders;
pub mod report;
pub mod presets;

pub use backoff::{
    calculate_next_interval, AsyncRetryStrategy, ConcurrentProgressStrategy, DefaultTargetChecker,
    LinearBackoffStrategy, WaitForAllStrategy, WaitForAnyStrategy,
};
pub use error::{ConnectionError, ErrorSource, HttpError, ResultExt, WaitForError};
pub use probe::{
    combine_any, policy_gate, summarize_all, wait_all_outcome, ProbeOutcome, ProbeState, ProbeStep,
    TargetResult, WaitConfig, WaitResult,
};
pub use rate_limit::RateLimiter;
pub use security::SecurityValidator;
pub use target::{HttpUrl, Target, TargetKind};
pub use time::{duration_to_millis_u64, ValidatedDuration};
pub use types::{Hostname, Port};
pub use zero_cost::{
    CapacityError, ChunkedTargets, ConstRetryStrategy, DynamicPort, ErrorMessage, RegisteredPort, SmallString,
    StringBuilder, TargetDisplay,
    ValidatedPort, WellKnownPort,
};
