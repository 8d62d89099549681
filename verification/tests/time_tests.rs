use rust_lib::os::{Duration, Instant};

#[test]
fn duration_round_trips_milliseconds() {
    assert_eq!(Duration::from_ms(0).as_ms(), 0);
    assert_eq!(Duration::from_ms(1234).as_ms(), 1234);
    assert_eq!(Duration::from_ms(u32::MAX).as_ms(), u32::MAX);
}

#[test]
fn instant_plus_duration_adds_ticks() {
    let t = Instant(100) + Duration::from_ms(250);
    assert_eq!(t, Instant(350));
    assert_eq!(t.as_ms(), 350);
}

#[test]
fn instant_plus_duration_wraps_around() {
    let t = Instant(u32::MAX - 9) + Duration::from_ms(20);
    assert_eq!(t, Instant(10));
}

#[test]
fn offset_between_instants() {
    let d = (Instant(1000) - Instant(400)).as_duration();
    assert_eq!(d.as_ms(), 600);
    // across the wrap of the counter
    let d = (Instant(5) - Instant(u32::MAX - 4)).as_duration();
    assert_eq!(d.as_ms(), 10);
    let d = (Instant(7) - Instant(7)).as_duration();
    assert_eq!(d.as_ms(), 0);
}

#[test]
fn add_then_sub_gives_back_the_duration() {
    for base in [0u32, 1, 77, 0x7fff_ffff, 0x8000_0000, u32::MAX - 3, u32::MAX] {
        for ms in [0u32, 1, 1000, 0x7fff_ffff] {
            let later = Instant(base) + Duration::from_ms(ms);
            assert_eq!((later - Instant(base)).as_duration().as_ms(), ms);
        }
    }
}

#[test]
fn order_follows_the_wrapping_counter() {
    assert!(Instant(1) > Instant(0));
    assert!(Instant(0) < Instant(1));
    assert!(Instant(0) > Instant(u32::MAX));
    assert!(Instant(u32::MAX) > Instant(u32::MAX - 1));
    assert!(Instant(3) <= Instant(3));
    assert!(Instant(3) >= Instant(3));
    assert_eq!(Instant(3).partial_cmp(&Instant(3)), Some(core::cmp::Ordering::Equal));
    assert!(Instant(0x7fff_ffff) > Instant(0));
    assert!(Instant(0x8000_0001) < Instant(0));
}

#[test]
fn step_forward_is_later() {
    for base in [0u32, 12345, 0xffff_fff0, u32::MAX] {
        for ms in [1u32, 16, 0x7fff_ffff] {
            let i = Instant(base);
            let later = i + Duration::from_ms(ms);
            assert!(later > i);
            assert!(i < later);
        }
    }
}

#[test]
fn instants_half_a_range_apart_both_read_earlier() {
    let a = Instant(0);
    let b = Instant(0x8000_0000);
    assert!(a < b);
    assert!(b < a);
}
