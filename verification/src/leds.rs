//! Charlieplexed LEDs: nine LEDs on four pins, lit one at a time.
//!
//! Each LED sits between two of the pins; to light it the first pin of its
//! pair is driven low and the second high while the other pins float.
use vstd::prelude::*;

verus! {

pub const LED_SIZE: usize = 9;

/// Number of pins the LEDs are connected to.
pub const LED_PINS: usize = 4;

/// For each LED, the pin driven low and the pin driven high to light it.
pub const LED_LAYOUT: [(usize, usize); LED_SIZE] = [
    (0, 1),
    (1, 0),
    (1, 2),
    (2, 1),
    (2, 3),
    (3, 2),
    (1, 3),
    (3, 1),
    (0, 3),
];

/// The pin pair of LED `i` of the layout.
pub open spec fn layout(i: int) -> (usize, usize) {
    LED_LAYOUT@[i]
}

pub struct CharlieLedManager {
    led_state: [bool; LED_SIZE],
    current_led: Option<usize>,
}

impl CharlieLedManager {
    /// Requested on/off state of each LED.
    pub closed spec fn led_states(&self) -> Seq<bool> {
        self.led_state@
    }

    /// The LED of the layout driven last; `None` before the first `next`.
    pub closed spec fn current(&self) -> Option<usize> {
        self.current_led
    }

    /// One requested state per LED, and the scan position on the layout.
    pub closed spec fn wf(&self) -> bool {
        &&& self.led_states().len() == LED_SIZE
        &&& self.current_led matches Some(i) ==> i < LED_SIZE
    }

    /// Every manager holds one requested state per LED.
    pub proof fn lemma_led_states_len(&self)
        ensures
            self.led_states().len() == LED_SIZE,
    {
    }

    /// All LEDs off, scanning not started.
    pub fn new() -> (r: CharlieLedManager)
        ensures
            r.wf(),
            r.current() is None,
            r.led_states() == Seq::new(LED_SIZE as nat, |i: int| false),
    {
        CharlieLedManager { led_state: [false; LED_SIZE], current_led: None }
    }

    pub fn set_led(&mut self, led_id: usize, state: bool)
        requires
            led_id < LED_SIZE,
        ensures
            final(self).led_states() == old(self).led_states().update(led_id as int, state),
            final(self).led_states().len() == LED_SIZE,
            final(self).led_states()[led_id as int] == state,
            final(self).current() == old(self).current(),
            old(self).wf() ==> final(self).wf(),
    {
        self.led_state[led_id] = state;
    }

    /// Advances the scan to the next LED of the layout (the first one on
    /// the first call, wrapping around after the last) and returns the pin
    /// pair to drive: `(low, high)`.
    pub fn next(&mut self) -> (r: (usize, usize))
        requires
            old(self).wf(),
        ensures
            final(self).wf(),
            final(self).current() == Some(next_led(old(self).current())),
            r == layout(next_led(old(self).current()) as int),
            final(self).led_states() == old(self).led_states(),
    {
        let idx: usize = match self.current_led {
            Some(i) => if i + 1 < LED_SIZE {
                i + 1
            } else {
                0
            },
            None => 0,
        };
        self.current_led = Some(idx);
        LED_LAYOUT[idx]
    }
}

/// The LED after `current` in the scan.
pub open spec fn next_led(current: Option<usize>) -> usize {
    match current {
        Some(i) => if i + 1 < LED_SIZE {
            (i + 1) as usize
        } else {
            0
        },
        None => 0,
    }
}

/// The LED the scan is at after `n` calls of `next` from the start.
pub open spec fn scan_after(n: nat) -> Option<usize>
    decreases n,
{
    if n == 0 {
        None
    } else {
        Some(next_led(scan_after((n - 1) as nat)))
    }
}

/// The scan visits the LEDs in layout order and repeats every nine calls.
pub proof fn lemma_scan_cycles(n: nat)
    requires
        n > 0,
    ensures
        scan_after(n) == Some(((n - 1) % (LED_SIZE as int)) as usize),
        scan_after(n + LED_SIZE as nat) == scan_after(n),
    decreases n,
{
    lemma_scan_period(n);
    lemma_scan_period(n + LED_SIZE as nat);
}

proof fn lemma_scan_period(n: nat)
    requires
        n > 0,
    ensures
        scan_after(n) == Some(((n - 1) % (LED_SIZE as int)) as usize),
    decreases n,
{
    if n > 1 {
        lemma_scan_period((n - 1) as nat);
        let m: int = n - 2;
        assert(((m + 1) % 9 == if m % 9 + 1 < 9 { m % 9 + 1 } else { 0 })) by (nonlinear_arith)
            requires
                m >= 0,
        ;
        let prev = scan_after((n - 1) as nat);
        assert(prev == Some((m % 9) as usize));
        assert(scan_after(n) == Some(next_led(prev)));
    } else {
        assert(scan_after(1) == Some(next_led(scan_after(0))));
    }
}

/// Every LED sits between two different pins of the four.
pub proof fn lemma_layout_pins(i: int)
    requires
        0 <= i < LED_SIZE,
    ensures
        layout(i).0 < LED_PINS,
        layout(i).1 < LED_PINS,
        layout(i).0 != layout(i).1,
{
}

} // verus!
