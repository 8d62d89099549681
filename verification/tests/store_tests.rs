use rust_lib::store::{GlobalEffect, GlobalEvent, GlobalState, JogDirection, Store, StoreState};
use rust_lib::os::TimerId;
use rust_lib::store::{safe_send_step, SendStep, SEND_RETRY};

fn lit(state: &GlobalState) -> Vec<usize> {
    let mut v = Vec::new();
    for i in 0..8 {
        if state.s_led[i] {
            v.push(i);
        }
    }
    if state.run_led {
        v.push(8);
    }
    v
}

fn jog(state: &mut GlobalState, dir: JogDirection, n: usize) {
    for _ in 0..n {
        let e = state.handle_event(GlobalEvent::Jog(dir));
        assert!(matches!(e, GlobalEffect::Nothing));
    }
}

fn cursor(state: &GlobalState) -> i8 {
    state.make_debug_info().sequencer_counter
}

#[test]
fn new_state_is_dark_and_at_rest() {
    let state = GlobalState::new();
    assert!(lit(&state).is_empty());
    let info = state.make_debug_info();
    assert_eq!(info.jog_absolute, 0);
    assert_eq!(info.sequencer_counter, 0);
}

#[test]
fn two_detents_do_not_move_the_cursor() {
    let mut state = GlobalState::new();
    jog(&mut state, JogDirection::Right, 2);
    assert_eq!(cursor(&state), 0);
    assert!(lit(&state).is_empty());
    assert_eq!(state.make_debug_info().jog_absolute, 2);
}

#[test]
fn three_detents_right_move_one_step() {
    let mut state = GlobalState::new();
    jog(&mut state, JogDirection::Right, 3);
    assert_eq!(cursor(&state), 1);
    assert_eq!(lit(&state), vec![1]);
    jog(&mut state, JogDirection::Right, 3);
    assert_eq!(cursor(&state), 2);
    assert_eq!(lit(&state), vec![2]);
}

#[test]
fn three_detents_left_at_first_step_stay_and_light_it() {
    let mut state = GlobalState::new();
    jog(&mut state, JogDirection::Left, 3);
    assert_eq!(cursor(&state), 0);
    assert_eq!(lit(&state), vec![0]);
    assert_eq!(state.make_debug_info().jog_absolute, -3);
}

#[test]
fn cursor_stops_at_run_position() {
    let mut state = GlobalState::new();
    jog(&mut state, JogDirection::Right, 3 * 8);
    assert_eq!(cursor(&state), 8);
    assert_eq!(lit(&state), vec![8]);
    jog(&mut state, JogDirection::Right, 3 * 5);
    assert_eq!(cursor(&state), 8);
    assert_eq!(lit(&state), vec![8]);
    jog(&mut state, JogDirection::Left, 3);
    assert_eq!(cursor(&state), 7);
    assert_eq!(lit(&state), vec![7]);
}

#[test]
fn back_and_forth_cancels_out() {
    let mut state = GlobalState::new();
    jog(&mut state, JogDirection::Right, 1);
    jog(&mut state, JogDirection::Left, 1);
    jog(&mut state, JogDirection::Left, 2);
    assert_eq!(cursor(&state), 0);
    assert!(lit(&state).is_empty());
    // the counter is at -2: one more detent to the left reaches the divider
    jog(&mut state, JogDirection::Left, 1);
    assert_eq!(lit(&state), vec![0]);
}

#[test]
fn info_hands_out_snapshot_and_timer_to_cancel() {
    let mut state = GlobalState::new();
    jog(&mut state, JogDirection::Right, 4);
    match state.handle_event(GlobalEvent::Info) {
        GlobalEffect::ShowInfo { info, cancel } => {
            assert_eq!(info.jog_absolute, 4);
            assert_eq!(info.sequencer_counter, 1);
            assert_eq!(cancel, None);
        },
        GlobalEffect::Nothing => panic!("Info must show info"),
    }
    state.set_info_timer(TimerId(5));
    match state.handle_event(GlobalEvent::Info) {
        GlobalEffect::ShowInfo { cancel, .. } => assert_eq!(cancel, Some(TimerId(5))),
        GlobalEffect::Nothing => panic!("Info must show info"),
    }
    match state.handle_event(GlobalEvent::Info) {
        GlobalEffect::ShowInfo { cancel, .. } => assert_eq!(cancel, None),
        GlobalEffect::Nothing => panic!("Info must show info"),
    }
}

#[test]
fn wakeup_changes_nothing() {
    let mut state = GlobalState::new();
    jog(&mut state, JogDirection::Right, 5);
    let e = state.handle_event(GlobalEvent::Wakeup);
    assert!(matches!(e, GlobalEffect::Nothing));
    assert_eq!(cursor(&state), 1);
    assert_eq!(lit(&state), vec![1]);
    assert_eq!(state.make_debug_info().jog_absolute, 5);
}

#[test]
fn store_shows_every_new_state_to_the_listener() {
    let mut shown: Vec<Vec<usize>> = Vec::new();
    {
        let mut store = Store::new(GlobalState::new(), |s: &GlobalState| shown.push(lit(s)));
        store.force_update();
        for _ in 0..3 {
            store.handle_event(GlobalEvent::Jog(JogDirection::Right));
        }
        let e = store.handle_event(GlobalEvent::Info);
        assert!(matches!(e, GlobalEffect::ShowInfo { .. }));
    }
    assert_eq!(shown.len(), 5);
    assert!(shown[0].is_empty());
    assert!(shown[2].is_empty());
    assert_eq!(shown[3], vec![1]);
    assert_eq!(shown[4], vec![1]);
}

#[test]
fn store_state_can_be_read_and_updated() {
    let mut store = Store::new(GlobalState::new(), |_s: &GlobalState| {});
    store.handle_event(GlobalEvent::Jog(JogDirection::Left));
    assert_eq!(store.get_state().make_debug_info().jog_absolute, -1);
    store.get_state_mut().set_info_timer(TimerId(9));
    match store.handle_event(GlobalEvent::Info) {
        GlobalEffect::ShowInfo { info, cancel } => {
            assert_eq!(cancel, Some(TimerId(9)));
            assert_eq!(info.jog_absolute, -1);
        },
        GlobalEffect::Nothing => panic!("Info must show info"),
    }
}

#[test]
fn send_retries_then_gives_up_at_the_limit() {
    assert_eq!(safe_send_step(1, true), SendStep::Sent);
    assert_eq!(safe_send_step(SEND_RETRY, true), SendStep::Sent);
    for k in 1..SEND_RETRY {
        assert_eq!(safe_send_step(k, false), SendStep::Retry);
    }
    assert_eq!(safe_send_step(SEND_RETRY, false), SendStep::GiveUp);
}

