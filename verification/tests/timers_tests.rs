use rust_lib::os::timers::{common_timeout, PendingTimer, PendingTimers, TimersInput, TimersState};
use rust_lib::os::Duration;
use rust_lib::os::{Instant, TimerId};

fn timer(id: u32, target: u32, tag: &'static str) -> PendingTimer<&'static str> {
    PendingTimer { id: TimerId(id), target: Instant(target), callback: tag }
}

#[test]
fn ids_are_handed_out_in_turn() {
    let mut st = TimersState::new();
    assert_eq!(st.get_next_id(), TimerId(0));
    assert_eq!(st.get_next_id(), TimerId(1));
    assert_eq!(st.get_next_id(), TimerId(2));
}

#[test]
fn empty_table_has_no_timeout() {
    let timers: PendingTimers<&'static str> = PendingTimers::new();
    assert!(timers.next_timeout(Instant(0)).is_none());
}

#[test]
fn next_timeout_waits_for_earliest_target() {
    let mut timers = PendingTimers::new();
    timers.push(timer(0, 500, "a"));
    timers.push(timer(1, 200, "b"));
    timers.push(timer(2, 900, "c"));
    assert_eq!(timers.next_timeout(Instant(100)).unwrap().as_ms(), 100);
    // a target already reached gives no wait
    assert_eq!(timers.next_timeout(Instant(300)).unwrap().as_ms(), 0);
}

#[test]
fn next_timeout_across_counter_wrap() {
    let mut timers = PendingTimers::new();
    timers.push(timer(0, 5, "after wrap"));
    timers.push(timer(1, u32::MAX - 5, "before wrap"));
    assert_eq!(timers.next_timeout(Instant(u32::MAX - 10)).unwrap().as_ms(), 5);
}

#[test]
fn advance_fires_due_timers_in_slot_order() {
    let mut timers = PendingTimers::new();
    timers.push(timer(0, 300, "late"));
    timers.push(timer(1, 100, "first"));
    timers.push(timer(2, 200, "second"));
    let fired = timers.advance_timers(Instant(200));
    assert_eq!(fired, vec!["first", "second"]);
    assert_eq!(timers.next_timeout(Instant(200)).unwrap().as_ms(), 100);
    let fired = timers.advance_timers(Instant(200));
    assert!(fired.is_empty());
    let fired = timers.advance_timers(Instant(300));
    assert_eq!(fired, vec!["late"]);
    assert!(timers.next_timeout(Instant(300)).is_none());
}

#[test]
fn cancel_removes_only_that_timer() {
    let mut timers = PendingTimers::new();
    timers.push(timer(0, 100, "keep"));
    timers.push(timer(1, 100, "drop"));
    timers.cancel(TimerId(1));
    timers.cancel(TimerId(42));
    let fired = timers.advance_timers(Instant(100));
    assert_eq!(fired, vec!["keep"]);
}

#[test]
fn push_then_cancel_restores_the_table() {
    let mut timers = PendingTimers::new();
    timers.handle_input(TimersInput::NewTimer(timer(7, 50, "x")));
    timers.handle_input(TimersInput::CancelTimer(TimerId(7)));
    assert!(timers.next_timeout(Instant(0)).is_none());
    assert!(timers.advance_timers(Instant(1000)).is_empty());
}

#[test]
fn full_table_drops_new_timers() {
    let mut timers = PendingTimers::new();
    for k in 0..7u32 {
        timers.push(timer(k, 1000 + k, "slot"));
    }
    timers.push(timer(99, 10, "dropped"));
    // the dropped timer would have been the earliest
    assert_eq!(timers.next_timeout(Instant(0)).unwrap().as_ms(), 1000);
    let fired = timers.advance_timers(Instant(5000));
    assert_eq!(fired.len(), 7);
    assert!(!fired.contains(&"dropped"));
}

#[test]
fn freed_slot_is_reused() {
    let mut timers = PendingTimers::new();
    for k in 0..7u32 {
        timers.push(timer(k, 1000, "slot"));
    }
    timers.cancel(TimerId(3));
    timers.push(timer(8, 20, "reused"));
    assert_eq!(timers.next_timeout(Instant(0)).unwrap().as_ms(), 20);
}

#[test]
fn common_timeout_targets_now_plus_duration() {
    let mut st = TimersState::new();
    assert_eq!(st.peek_next_id(), 0);
    let (id, input) = common_timeout(&mut st, Instant(u32::MAX - 1), Duration::from_ms(10), "cb");
    assert_eq!(id, TimerId(0));
    assert_eq!(st.peek_next_id(), 1);
    match input {
        TimersInput::NewTimer(t) => {
            assert_eq!(t.id, TimerId(0));
            assert_eq!(t.target, Instant(8));
            assert_eq!(t.callback, "cb");
        },
        TimersInput::CancelTimer(_) => panic!("expected a new timer"),
    }
    let (id2, _) = common_timeout(&mut st, Instant(0), Duration::from_ms(1), "cb2");
    assert_eq!(id2, TimerId(1));
}

#[test]
fn scheduled_timer_fires_at_its_target() {
    let mut st = TimersState::new();
    let mut timers = PendingTimers::new();
    let (_, input) = common_timeout(&mut st, Instant(1000), Duration::from_ms(50), "tick");
    timers.handle_input(input);
    assert_eq!(timers.next_timeout(Instant(1000)).unwrap().as_ms(), 50);
    assert!(timers.advance_timers(Instant(1049)).is_empty());
    assert_eq!(timers.advance_timers(Instant(1050)), vec!["tick"]);
}
