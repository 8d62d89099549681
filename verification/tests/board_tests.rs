use rust_lib::hal::traits::PinState;
use rust_lib::hal::{init_pins, spi_init_static};
use rust_lib::leds::{CharlieLedManager, LED_LAYOUT, LED_SIZE};
use rust_lib::peripheral::Static;
use rust_lib::glue::{TICKS_FREQ, TIM_CHANNEL_1, TIM_CHANNEL_4};

#[test]
fn led_scan_follows_layout_and_repeats() {
    let mut leds = CharlieLedManager::new();
    for round in 0..3 {
        for i in 0..LED_SIZE {
            let pair = leds.next();
            assert_eq!(pair, LED_LAYOUT[i], "round {} led {}", round, i);
        }
    }
}

#[test]
fn led_scan_starts_at_first_led() {
    let mut leds = CharlieLedManager::new();
    assert_eq!(leds.next(), (0, 1));
    assert_eq!(leds.next(), (1, 0));
}

#[test]
fn set_led_does_not_disturb_scan() {
    let mut leds = CharlieLedManager::new();
    leds.next();
    leds.set_led(0, true);
    leds.set_led(8, true);
    assert_eq!(leds.next(), (1, 0));
}

#[test]
fn layout_pins_differ() {
    for (low, high) in LED_LAYOUT.iter() {
        assert!(*low < 4 && *high < 4 && low != high);
    }
}

#[test]
fn static_init_then_get() {
    let mut s: Static<u32> = Static::new();
    assert!(s.get().is_none());
    s.init(42);
    assert_eq!(s.get(), Some(&42));
}

#[test]
fn board_init_succeeds() {
    assert!(init_pins().is_ok());
    assert!(spi_init_static().is_ok());
    assert_ne!(PinState::Reset, PinState::SetHigh);
    assert_eq!(TICKS_FREQ, 1000);
    assert_eq!(TIM_CHANNEL_1, 0);
    assert_eq!(TIM_CHANNEL_4, 0x0C);
}
