//! Firmware logic of a step-sequencer synthesizer controller: encoder
//! decoding, sequencer state, LED multiplexing, time arithmetic and the
//! software timer table.
use vstd::prelude::*;

pub mod encoder;
pub mod glue;
pub mod hal;
pub mod leds;
pub mod os;
pub mod peripheral;
pub mod store;

use crate::encoder::{Encoder, quadrature_step};
use crate::store::{Buttons, GlobalEvent, JogDirection};

verus! {

/// The event one transition of the encoder inputs produces: a count of
/// `-1` is a detent to the right, `1` one to the left, `0` no event.
pub open spec fn jog_event(step: int) -> Option<GlobalEvent> {
    if step == -1 {
        Some(GlobalEvent::Jog(JogDirection::Right))
    } else if step == 1 {
        Some(GlobalEvent::Jog(JogDirection::Left))
    } else {
        None
    }
}

/// Decodes one edge of the encoder inputs (`1` is a high level) and gives
/// the event to send to the main loop, if any.
pub fn handle_input(encoder: &mut Encoder, enc1: u8, enc2: u8) -> (r: Option<GlobalEvent>)
    ensures
        final(encoder)@ == (enc1 == 1, enc2 == 1),
        r == jog_event(quadrature_step(old(encoder)@, (enc1 == 1, enc2 == 1))),
{
    let input = (enc1 == 1, enc2 == 1);
    let diff = encoder.scan(input);
    match diff {
        -1 => Some(GlobalEvent::Jog(JogDirection::Right)),
        1 => Some(GlobalEvent::Jog(JogDirection::Left)),
        _ => None,
    }
}

/// The button with number `button_id`: `0..=7` the step buttons, `8`
/// shift, `9` play; other numbers name no button.
pub open spec fn button_of(button_id: usize) -> Option<Buttons> {
    if button_id <= 7 {
        Some(Buttons::S(button_id))
    } else if button_id == 8 {
        Some(Buttons::Shift)
    } else if button_id == 9 {
        Some(Buttons::Play)
    } else {
        None
    }
}

/// Decodes a button edge: whether the button is down (any non-zero
/// state) and which button it is; `None` for an unknown button number.
pub fn handle_button(button_state: u8, button_id: usize) -> (r: Option<(bool, Buttons)>)
    ensures
        r is None <==> button_of(button_id) is None,
        r matches Some(p) ==> p == (button_state != 0, button_of(button_id).unwrap()),
{
    let button = if button_id <= 7 {
        Some(Buttons::S(button_id))
    } else if button_id == 8 {
        Some(Buttons::Shift)
    } else if button_id == 9 {
        Some(Buttons::Play)
    } else {
        None
    };
    match button {
        Some(button) => Some((button_state != 0, button)),
        None => None,
    }
}

} // verus!
