//! Conversion of measured durations to nanoseconds.
use vstd::prelude::*;

verus! {

/// Nanoseconds in one second.
pub const NANOS_PER_SEC: u64 = 1_000_000_000;

/// The length in nanoseconds of a duration of `secs` whole seconds and
/// `subsec_nanos` further nanoseconds; the total must fit in a `u64`.
pub fn dur_to_ns(secs: u64, subsec_nanos: u32) -> (ns: u64)
    requires
        secs * NANOS_PER_SEC + subsec_nanos <= u64::MAX,
    ensures
        ns == secs * NANOS_PER_SEC + subsec_nanos,
{
    assert(secs * NANOS_PER_SEC <= u64::MAX);
    secs * NANOS_PER_SEC + subsec_nanos as u64
}

} // verus!
