//! Constants shared with the board support code.
use vstd::prelude::*;

verus! {

// Timer channel selectors of the PWM timer, as the board HAL numbers them.
pub const TIM_CHANNEL_1: u32 = 0x0000;
pub const TIM_CHANNEL_2: u32 = 0x0004;
pub const TIM_CHANNEL_3: u32 = 0x0008;
pub const TIM_CHANNEL_4: u32 = 0x000C;

/// Frequency of the RTOS system tick, in Hz (one tick per millisecond).
pub const TICKS_FREQ: u32 = 1000;

} // verus!
