//! Arithmetic on coordinates: how far a thing gets in a given time, and
//! whether a coordinate can hold where it gets to.

use vstd::prelude::*;

verus! {

/// Tells whether a coordinate can hold `v`.
pub open spec fn on_grid(v: int) -> bool {
    i32::MIN <= v <= i32::MAX
}

/// Tells whether `rate` can be the product of two coordinates.
pub open spec fn is_rate(rate: int) -> bool {
    -0x4000_0000_0000_0000 <= rate <= 0x4000_0000_0000_0000
}

/// The distance per unit of time that a paddle makes at full `speed` times
/// `intent`.
pub(crate) fn rate_of(intent: i32, speed: i32) -> (rate: i64)
    ensures
        rate == intent * speed,
        is_rate(rate as int),
{
    assert(-0x4000_0000_0000_0000 <= intent * speed <= 0x4000_0000_0000_0000) by (nonlinear_arith)
        requires
            -0x8000_0000 <= intent <= 0x7fff_ffff,
            -0x8000_0000 <= speed <= 0x7fff_ffff,
    ;
    (intent as i64) * (speed as i64)
}

/// The place that a thing at `at` reaches at `rate` in the time `elapsed`.
pub(crate) fn advanced(at: i32, rate: i64, elapsed: u32) -> (to: i128)
    requires
        is_rate(rate as int),
    ensures
        to == at + rate * elapsed,
{
    assert(-0x4000_0000_0000_0000_0000_0000 <= rate * elapsed <= 0x4000_0000_0000_0000_0000_0000)
        by (nonlinear_arith)
        requires
            -0x4000_0000_0000_0000 <= rate <= 0x4000_0000_0000_0000,
            0 <= elapsed <= 0xffff_ffff,
    ;
    (at as i128) + (rate as i128) * (elapsed as i128)
}

/// Tells whether a coordinate can hold `to`.
pub(crate) fn fits(to: i128) -> (ok: bool)
    ensures
        ok == on_grid(to as int),
{
    -0x8000_0000 <= to && to <= 0x7fff_ffff
}

} // verus!
