use rust_lib::encoder::Encoder;
use rust_lib::store::{Buttons, GlobalEvent, JogDirection};
use rust_lib::{handle_button, handle_input};

#[test]
fn it_works() {
    assert_eq!(2 + 2, 4);
}

#[test]
fn handle_input_turns_gray_steps_into_jogs() {
    let mut enc = Encoder::new();
    // 00 -> 01 is one step forward: a detent to the left
    assert_eq!(handle_input(&mut enc, 0, 1), Some(GlobalEvent::Jog(JogDirection::Left)));
    // 01 -> 00 is one step back: a detent to the right
    assert_eq!(handle_input(&mut enc, 0, 0), Some(GlobalEvent::Jog(JogDirection::Right)));
    // unchanged inputs give no event
    assert_eq!(handle_input(&mut enc, 0, 0), None);
    // any value other than 1 reads as low
    assert_eq!(handle_input(&mut enc, 2, 7), None);
    // a jump of two steps gives no event
    assert_eq!(handle_input(&mut enc, 1, 1), None);
}

#[test]
fn handle_button_maps_numbers_to_buttons() {
    for id in 0..8usize {
        assert_eq!(handle_button(1, id), Some((true, Buttons::S(id))));
    }
    assert_eq!(handle_button(0, 3), Some((false, Buttons::S(3))));
    assert_eq!(handle_button(5, 8), Some((true, Buttons::Shift)));
    assert_eq!(handle_button(0, 9), Some((false, Buttons::Play)));
    assert_eq!(handle_button(1, 10), None);
    assert_eq!(handle_button(1, usize::MAX), None);
}
