//! System-tick time: instants on a wrapping 32-bit tick counter, signed
//! offsets between them and millisecond durations.
use vstd::prelude::*;
use crate::glue::TICKS_FREQ;

verus! {

/// Number of ticks in a range of `2^32` values.
pub open spec fn tick_range() -> int {
    0x1_0000_0000
}

/// `a - b` on the wrapping tick counter, read as a two's complement
/// 32-bit number: the offset from `b` to `a` when the two are less than
/// `2^31` ticks apart.
pub open spec fn signed_offset(a: u32, b: u32) -> int {
    let d = vstd::wrapping::u32_specs::wrapping_sub(a, b);
    if d < 0x8000_0000 {
        d as int
    } else {
        d - tick_range()
    }
}

/// The computation of `signed_offset`.
pub fn offset_ticks(a: u32, b: u32) -> (r: i32)
    ensures
        r == signed_offset(a, b),
{
    let d = a.wrapping_sub(b);
    if d < 0x8000_0000 {
        d as i32
    } else {
        (d - 0x8000_0000) as i32 - 0x7fff_ffff - 1
    }
}

/// A point in time: the value of the system tick counter.
#[derive(Clone, Copy, Debug, PartialEq, Eq, Structural)]
pub struct Instant(pub u32);

impl Instant {
    pub fn as_ms(self) -> (r: u32)
        ensures
            r == self.0,
    {
        self.0
    }
}

/// A signed number of ticks between two instants.
pub struct Offset(i32);

impl View for Offset {
    type V = int;

    closed spec fn view(&self) -> int {
        self.0 as int
    }
}

impl Offset {
    fn from_ticks(ticks: i32) -> (r: Offset)
        ensures
            r@ == ticks,
    {
        Offset(ticks)
    }

    /// The offset as a duration; the offset must not be negative.
    pub fn as_duration(self) -> (r: Duration)
        requires
            self@ >= 0,
        ensures
            r@ == self@ * ticks_to_ms_ratio(),
    {
        Duration::from_ticks(self.0 as u32)
    }
}

/// A length of time in milliseconds.
#[derive(Debug)]
pub struct Duration(u32);

impl View for Duration {
    type V = int;

    /// The length in milliseconds.
    closed spec fn view(&self) -> int {
        self.0 as int
    }
}

/// Milliseconds per tick.
pub const TICKS_TO_MS: u32 = 1000 / TICKS_FREQ;

/// Ticks per millisecond.
pub const MS_TO_TICKS: u32 = TICKS_FREQ / 1000;

pub open spec fn ticks_to_ms_ratio() -> int {
    TICKS_TO_MS as int
}

pub open spec fn ms_to_ticks_ratio() -> int {
    MS_TO_TICKS as int
}

impl Duration {
    fn from_ticks(ticks: u32) -> (r: Duration)
        ensures
            r@ == ticks * ticks_to_ms_ratio(),
    {
        Duration(ticks * TICKS_TO_MS)
    }

    pub fn from_ms(ms: u32) -> (r: Duration)
        ensures
            r@ == ms,
    {
        Duration(ms)
    }

    fn as_ticks(self) -> (r: u32)
        ensures
            r == self@ * ms_to_ticks_ratio(),
    {
        self.0 * MS_TO_TICKS
    }

    pub fn as_ms(self) -> (r: u32)
        ensures
            r == self@,
    {
        self.0
    }
}

/// The instant `ticks` ticks after `i` on the wrapping counter.
pub open spec fn instant_after(i: Instant, ticks: int) -> Instant {
    Instant(((i.0 + ticks) % tick_range()) as u32)
}

impl core::ops::Add<Duration> for Instant {
    type Output = Instant;

    fn add(self, dur: Duration) -> (r: Instant)
        ensures
            r == instant_after(self, dur@ * ms_to_ticks_ratio()),
    {
        Instant(self.0.wrapping_add(dur.as_ticks()))
    }
}

impl vstd::std_specs::ops::AddSpecImpl<Duration> for Instant {
    open spec fn obeys_add_spec() -> bool {
        true
    }

    open spec fn add_req(self, rhs: Duration) -> bool {
        true
    }

    open spec fn add_spec(self, rhs: Duration) -> Instant {
        instant_after(self, rhs@ * ms_to_ticks_ratio())
    }
}

impl core::ops::Sub<Instant> for Instant {
    type Output = Offset;

    fn sub(self, rhs: Instant) -> (r: Offset)
        ensures
            r@ == signed_offset(self.0, rhs.0),
    {
        Offset::from_ticks(offset_ticks(self.0, rhs.0))
    }
}

impl vstd::std_specs::ops::SubSpecImpl<Instant> for Instant {
    open spec fn obeys_sub_spec() -> bool {
        true
    }

    open spec fn sub_req(self, rhs: Instant) -> bool {
        true
    }

    closed spec fn sub_spec(self, rhs: Instant) -> Offset {
        Offset(signed_offset(self.0, rhs.0) as i32)
    }
}

/// Going `ticks` forward from an instant and measuring the offset back to
/// it gives `ticks` again, for any step shorter than half the counter range
/// (also across the wrap of the counter).
pub proof fn lemma_after_then_offset(i: Instant, ticks: int)
    requires
        0 <= ticks < 0x8000_0000,
    ensures
        signed_offset(instant_after(i, ticks).0, i.0) == ticks,
{
}

/// Adding to `b` the duration that `a - b` gives lands on `a`, whenever `a`
/// is not earlier than `b`.
pub proof fn lemma_offset_then_after(a: Instant, b: Instant)
    requires
        signed_offset(a.0, b.0) >= 0,
    ensures
        instant_after(b, signed_offset(a.0, b.0) * ticks_to_ms_ratio() * ms_to_ticks_ratio()) == a,
{
    assert(ticks_to_ms_ratio() == 1 && ms_to_ticks_ratio() == 1);
    let d = signed_offset(a.0, b.0);
    assert(d * ticks_to_ms_ratio() * ms_to_ticks_ratio() == d);
    assert((b.0 + d) % tick_range() == a.0);
}

} // verus!
