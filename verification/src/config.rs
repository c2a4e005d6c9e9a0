//! Defaulting of caller-supplied fan-out parameters.
//!
//! Callers may leave the agent count and the timeouts unset; `None` and an
//! explicit zero both mean "use the default".  Resolution happens once at
//! the API boundary, so the coordinator loops only ever see settled values.

use vstd::prelude::*;

verus! {

/// Broadcast agent count used when the caller passes none or zero.
pub const DEFAULT_BROADCAST_REMOTE_AGENT_COUNT: u8 = 5;

/// Broadcast time budget (milliseconds) used when the caller passes none or
/// zero; a zero request additionally detaches the invocation.
pub const DEFAULT_BROADCAST_TIMEOUT_MS: u64 = 1000;

/// Multi-request quorum used when the caller passes none or zero.
pub const DEFAULT_MULTI_REQUEST_REMOTE_AGENT_COUNT: u8 = 2;

/// Multi-request hard deadline (milliseconds) used when the caller passes
/// none or zero.
pub const DEFAULT_MULTI_REQUEST_TIMEOUT_MS: u64 = 1000;

/// Multi-request race deadline (milliseconds) used when racing is enabled
/// and the caller passes none or zero.
pub const DEFAULT_MULTI_REQUEST_RACE_TIMEOUT_MS: u64 = 200;

/// Resolution of an optional agent count: `None` and `Some(0)` both fall
/// back to the default.
pub open spec fn spec_resolve_count(count: Option<u8>, fallback: u8) -> u8 {
    match count {
        Some(n) => if n == 0 {
            fallback
        } else {
            n
        },
        None => fallback,
    }
}

/// Resolution of an optional duration: `None` and `Some(0)` both fall back
/// to the default.
pub open spec fn spec_resolve_ms(ms: Option<u64>, fallback: u64) -> u64 {
    match ms {
        Some(t) => if t == 0 {
            fallback
        } else {
            t
        },
        None => fallback,
    }
}

/// Executable counterpart of [`spec_resolve_count`].
pub fn resolve_count(count: Option<u8>, fallback: u8) -> (r: u8)
    ensures
        r == spec_resolve_count(count, fallback),
{
    match count {
        Some(n) => if n == 0 {
            fallback
        } else {
            n
        },
        None => fallback,
    }
}

/// Executable counterpart of [`spec_resolve_ms`].
pub fn resolve_ms(ms: Option<u64>, fallback: u64) -> (r: u64)
    ensures
        r == spec_resolve_ms(ms, fallback),
{
    match ms {
        Some(t) => if t == 0 {
            fallback
        } else {
            t
        },
        None => fallback,
    }
}

} // verus!
