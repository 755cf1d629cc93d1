//! The clock: a monotonic instant from the `instant` crate, and the whole
//! seconds that have passed since one. Nothing is claimed of what it reads.

use instant::{Duration, Instant};
use vstd::prelude::*;

verus! {

#[verifier::external_type_specification]
#[verifier::external_body]
pub struct ExInstant(Instant);

/// Calls `instant::Instant::now`. Unproved, and nothing is claimed of the
/// instant it returns.
#[verifier::external_body]
pub(crate) fn now() -> Instant {
    Instant::now()
}

/// Calls `instant::Instant::saturating_duration_since`: the time from
/// `earlier` to `later`, and no time where `earlier` is the later of the two.
/// Unproved, and nothing is claimed of the duration it returns.
#[verifier::external_body]
pub(crate) fn duration_between(later: &Instant, earlier: &Instant) -> Duration {
    later.saturating_duration_since(*earlier)
}

/// `Duration::as_secs` of the standard library: the whole seconds of a
/// duration. Unproved, and nothing is claimed of their number.
pub assume_specification[ Duration::as_secs ](d: &Duration) -> u64;

/// The whole seconds that have passed since an instant; none where the
/// instant lies ahead of the clock.
pub(crate) fn secs_since(start: &Instant) -> u64 {
    let current = now();
    let passed = duration_between(&current, start);
    passed.as_secs()
}

} // verus!
