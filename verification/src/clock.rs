//! The monotonic clock of std.
use std::time::Instant;
use vstd::prelude::*;

verus! {

/// A reading of the monotonic clock: `std::time::Instant`.
#[verifier::external_type_specification]
#[verifier::external_body]
pub struct ExInstant(std::time::Instant);

/// `Instant::now` of std reads the clock; nothing is claimed of the reading.
pub assume_specification[ Instant::now ]() -> Instant
;

/// `Instant::elapsed` of std: the time since `when`, as a number of nanoseconds.
/// The result depends on the time of the call, so nothing is claimed of it.
#[verifier::external_body]
fn nanos_since(when: Instant) -> u128 {
    when.elapsed().as_nanos()
}

/// The clock may tell this number of nanoseconds as the time since `when`.
pub closed spec fn told_since(when: Instant, nanos: u128) -> bool {
    call_ensures(nanos_since, (when,), nanos)
}

fn ask<C: FnOnce(Instant) -> u128>(clock: C, when: Instant) -> (r: u128)
    requires
        clock.requires((when,)),
    ensures
        clock.ensures((when,), r),
{
    clock(when)
}

/// The clock may tell this moment as the present one.
pub open spec fn told_now(when: Instant) -> bool {
    call_ensures(Instant::now, (), when)
}

fn ask_now<C: FnOnce() -> Instant>(clock: C) -> (r: Instant)
    requires
        clock.requires(()),
    ensures
        clock.ensures((), r),
{
    clock()
}

/// The present moment, as the clock tells it now.
pub fn present_moment() -> (r: Instant)
    ensures
        told_now(r),
{
    ask_now(Instant::now)
}

/// The time since `when` in nanoseconds, as the clock tells it now.
pub fn elapsed_nanos(when: Instant) -> (r: u128)
    ensures
        told_since(when, r),
{
    ask(nanos_since, when)
}

} // verus!
