//! Events that drive the global state.
use vstd::prelude::*;

verus! {

/// Direction of one encoder detent.
#[derive(PartialEq, Eq, Structural, Debug, Clone, Copy)]
pub enum JogDirection {
    Left,
    Right,
}

/// The front-panel buttons: the eight step buttons `S(0)`..`S(7)`,
/// `shift` and `play`.
#[derive(PartialEq, Eq, Structural, Debug, Clone, Copy)]
pub enum Buttons {
    S(usize),
    Shift,
    Play,
}

/// An event for the main loop.
#[derive(PartialEq, Eq, Structural, Debug, Clone, Copy)]
pub enum GlobalEvent {
    Jog(JogDirection),
    Wakeup,
    Info,
}

} // verus!
