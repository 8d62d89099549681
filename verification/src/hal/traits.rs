//! What the firmware needs from the board: pins, SPI, UART.
use vstd::prelude::*;

verus! {

/// A failed board call; `call` names it.
#[derive(Debug)]
pub struct Error {
    pub call: &'static str,
}

pub type Result<T> = core::result::Result<T, Error>;

/// Level of a digital pin: `Reset` is low, `SetHigh` is high.
#[derive(Debug, Clone, Copy, PartialEq, Eq, Structural)]
pub enum PinState {
    Reset,
    SetHigh,
}

/// A digital I/O pin of the board.
pub trait Pin {
    fn write(&mut self, state: PinState);

    fn toggle(&mut self);

    fn read(&self) -> PinState;
}

/// An SPI bus of the board.
pub trait SPI {
    fn write(&self, bytes: &[u8]) -> Result<()>;

    fn read(&self, bytes: &mut [u8]) -> Result<()>;

    fn exchange(&self, tx_bytes: &[u8], rx_bytes: &mut [u8]) -> Result<()>;
}

/// A UART of the board that text can be written to.
pub trait UART {
    fn write(&self, s: &str) -> Result<()>;
}

} // verus!
