//! Order of instants on the wrapping tick counter.
//!
//! An instant is later than another when the wrapping difference between
//! them, read as a signed 32-bit number, is positive; this orders instants
//! correctly as long as they are less than `2^31` ticks apart.
use vstd::prelude::*;
use core::cmp::Ordering;
use crate::os::time::{Instant, instant_after, signed_offset, offset_ticks};

verus! {

/// The order of `a` relative to `b` on the wrapping counter.
pub open spec fn tick_order(a: Instant, b: Instant) -> Option<Ordering> {
    let d = signed_offset(a.0, b.0);
    if d < 0 {
        Some(Ordering::Less)
    } else if d == 0 {
        Some(Ordering::Equal)
    } else {
        Some(Ordering::Greater)
    }
}

impl PartialOrd for Instant {
    fn partial_cmp(&self, other: &Self) -> (r: Option<Ordering>)
        ensures
            r == tick_order(*self, *other),
    {
        let d = offset_ticks(self.0, other.0);
        if d < 0 {
            Some(Ordering::Less)
        } else if d == 0 {
            Some(Ordering::Equal)
        } else {
            Some(Ordering::Greater)
        }
    }
}

impl vstd::std_specs::cmp::PartialOrdSpecImpl for Instant {
    open spec fn obeys_partial_cmp_spec() -> bool {
        true
    }

    open spec fn partial_cmp_spec(&self, other: &Self) -> Option<Ordering> {
        tick_order(*self, *other)
    }
}

/// Two instants compare equal exactly when they are the same instant, and
/// swapping them reverses the order unless they lie exactly half the
/// counter range apart (where each reads as earlier than the other).
pub proof fn lemma_tick_order_antisymmetric(a: Instant, b: Instant)
    ensures
        tick_order(a, b) == Some(Ordering::Equal) <==> a == b,
        signed_offset(a.0, b.0) != -0x8000_0000 ==> (tick_order(a, b) == Some(Ordering::Less)
            <==> tick_order(b, a) == Some(Ordering::Greater)),
{
}

/// An instant a positive number of ticks (less than half the counter
/// range) after `i` is later than `i`, even when the counter wrapped in
/// between.
pub proof fn lemma_step_is_later(i: Instant, ticks: int)
    requires
        0 < ticks < 0x8000_0000,
    ensures
        tick_order(instant_after(i, ticks), i) == Some(Ordering::Greater),
        tick_order(i, instant_after(i, ticks)) == Some(Ordering::Less),
{
}

} // verus!
