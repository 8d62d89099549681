//! Board support: the interfaces the firmware uses and its start-up steps.
use vstd::prelude::*;

pub mod traits;

use self::traits::Result;

verus! {

/// Sets up the GPIO pins the firmware owns; none need setting up at present.
pub fn init_pins() -> (r: Result<()>)
    ensures
        r is Ok,
{
    Ok(())
}

/// Sets up the SPI bus; the bus is not in use at present.
pub fn spi_init_static() -> (r: Result<()>)
    ensures
        r is Ok,
{
    Ok(())
}

} // verus!
