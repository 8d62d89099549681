//! Quadrature decoder for the rotary encoder (two inputs A/B with pull-ups).
use vstd::prelude::*;

verus! {

/// Position of an A/B input pair in the Gray-code cycle
/// `00 -> 01 -> 11 -> 10 -> 00` that the encoder walks through when it
/// turns in the counting direction.
pub open spec fn phase(s: (bool, bool)) -> int {
    match s {
        (false, false) => 0,
        (false, true) => 1,
        (true, true) => 2,
        (true, false) => 3,
    }
}

/// The count one transition of the inputs yields: `1` for one step forward
/// in the Gray-code cycle, `-1` for one step back, `0` when the inputs did
/// not change or jumped two steps (a missed edge, which carries no direction).
pub open spec fn quadrature_step(old: (bool, bool), new: (bool, bool)) -> int {
    let d = (phase(new) - phase(old) + 4) % 4;
    if d == 1 {
        1
    } else if d == 3 {
        -1
    } else {
        0
    }
}

pub struct Encoder {
    state: (bool, bool),
}

impl View for Encoder {
    type V = (bool, bool);

    /// The last input pair the decoder has seen.
    closed spec fn view(&self) -> (bool, bool) {
        self.state
    }
}

impl Encoder {
    pub fn new() -> (r: Encoder)
        ensures
            r@ == (false, false),
    {
        return Encoder { state: (false, false) };
    }

    /// Feeds the current input pair; returns the count of that transition
    /// and remembers the pair for the next call.
    pub fn scan(&mut self, new_state: (bool, bool)) -> (change: i32)
        ensures
            change == quadrature_step(old(self)@, new_state),
            final(self)@ == new_state,
    {
        let mut change: i32 = 0;
        let (a, b) = new_state;

        match self.state {
            (false, true) => {
                if a && b {
                    change = 1;
                }
                if !a && !b {
                    change = -1;
                }
            },
            (false, false) => {
                if !a && b {
                    change = 1;
                }
                if a && !b {
                    change = -1;
                }
            },
            (true, false) => {
                if !a && !b {
                    change = 1;
                }
                if a && b {
                    change = -1;
                }
            },
            (true, true) => {
                if a && !b {
                    change = 1;
                }
                if !a && b {
                    change = -1;
                }
            },
        };

        self.state = new_state;

        return change;
    }
}

/// A transition yields one of `-1`, `0`, `1`; repeating the same input
/// yields `0`; and going back from `b` to `a` yields the opposite of going
/// from `a` to `b`.
pub proof fn lemma_scan_step_laws(a: (bool, bool), b: (bool, bool))
    ensures
        -1 <= quadrature_step(a, b) <= 1,
        quadrature_step(a, a) == 0,
        quadrature_step(b, a) == -quadrature_step(a, b),
{
}

/// Walking once around the Gray-code cycle in the counting direction
/// adds up to four counts, and walking it backwards to minus four.
pub proof fn lemma_full_turn(s: (bool, bool))
    ensures
        ({
            let s1 = next_phase(s);
            let s2 = next_phase(s1);
            let s3 = next_phase(s2);
            &&& next_phase(s3) == s
            &&& quadrature_step(s, s1) + quadrature_step(s1, s2) + quadrature_step(s2, s3)
                + quadrature_step(s3, s) == 4
            &&& quadrature_step(s, s3) + quadrature_step(s3, s2) + quadrature_step(s2, s1)
                + quadrature_step(s1, s) == -4
        }),
{
}

/// The input pair one step further along the Gray-code cycle.
pub open spec fn next_phase(s: (bool, bool)) -> (bool, bool) {
    match s {
        (false, false) => (false, true),
        (false, true) => (true, true),
        (true, true) => (true, false),
        (true, false) => (false, false),
    }
}

} // verus!
