//! The global state of the sequencer and how events change it.
//!
//! The encoder moves a sequencer cursor over eight steps and a ninth
//! "run" position: every `SEQUENCER_JOG_DIVIDER` detents in one direction
//! move the cursor by one, and the LEDs show where the cursor is.
use vstd::prelude::*;
use crate::os::TimerId;

pub mod action;
pub mod generic;

pub use self::action::{Buttons, GlobalEvent, JogDirection};
pub use self::generic::{Store, StoreState};

verus! {

/// Debounce and long-press tracking of a button.
#[derive(Debug)]
pub struct ButtonState {
    actual_state: bool,
    logic_state: bool,
    debounce_timer_id: Option<TimerId>,
    long_press_timer_id: Option<TimerId>,
    long_press_occurred: bool,
}

/// Detents of the encoder per move of the sequencer cursor.
pub const SEQUENCER_JOG_DIVIDER: i32 = 3;

/// Number of step LEDs.
pub const STEP_LEDS: usize = 8;

/// Position of the cursor that lights the run LED instead of a step LED.
pub const RUN_POSITION: i8 = 8;

#[derive(Debug)]
pub struct GlobalState {
    raw_encoder: i32,
    pub s_led: [bool; 8],
    pub run_led: bool,
    sequencer_encoder_counter: i32,
    sequencer_counter: i8,
    info_timer_id: Option<TimerId>,
}

/// A snapshot of the state for the debug port.
#[derive(Debug)]
pub struct DebugInfo {
    pub jog_absolute: i32,
    pub sequencer_counter: i8,
}

/// What the main loop has to do after an event.
#[derive(Debug)]
pub enum GlobalEffect {
    /// Nothing beyond showing the new state.
    Nothing,
    /// Send `info` to the debug-info task, cancel the timer `cancel` if
    /// there is one, and schedule the next `Info` event; the identifier of
    /// the new timer goes back through `GlobalState::set_info_timer`.
    ShowInfo { info: DebugInfo, cancel: Option<TimerId> },
}

/// Number of attempts to post an event to a full queue before giving up.
pub const SEND_RETRY: u8 = 10;

/// What to do after an attempt to post an event.
#[derive(Debug, PartialEq, Eq, Structural, Clone, Copy)]
pub enum SendStep {
    /// The event was posted.
    Sent,
    /// Wait a millisecond and try again.
    Retry,
    /// Wait a millisecond, then fail: every attempt was refused.
    GiveUp,
}

/// The decision after attempt number `attempt` (counting from 1).
pub open spec fn send_step(attempt: int, sent: bool) -> SendStep {
    if sent {
        SendStep::Sent
    } else if attempt < SEND_RETRY {
        SendStep::Retry
    } else {
        SendStep::GiveUp
    }
}

/// Decides, after attempt number `attempt` to post an event, whether the
/// event went out, another attempt follows, or posting has failed.
pub fn safe_send_step(attempt: u8, sent: bool) -> (r: SendStep)
    requires
        1 <= attempt <= SEND_RETRY,
    ensures
        r == send_step(attempt as int, sent),
{
    if sent {
        SendStep::Sent
    } else if attempt < SEND_RETRY {
        SendStep::Retry
    } else {
        SendStep::GiveUp
    }
}

/// Posting gives up only after `SEND_RETRY` refused attempts, and every
/// earlier refusal leads to another attempt.
pub proof fn lemma_send_gives_up_after_retries(attempt: int)
    requires
        1 <= attempt <= SEND_RETRY,
    ensures
        send_step(attempt, false) == SendStep::GiveUp <==> attempt == SEND_RETRY,
        attempt < SEND_RETRY ==> send_step(attempt, false) == SendStep::Retry,
        send_step(attempt, true) == SendStep::Sent,
{
}

/// `-1` for a detent to the left, `1` for one to the right.
pub open spec fn jog_delta(dir: JogDirection) -> int {
    match dir {
        JogDirection::Left => -1,
        JogDirection::Right => 1,
    }
}

/// The cursor after the detent counter reached `counter`: one step back at
/// `-SEQUENCER_JOG_DIVIDER` (not below 0), one step forward at
/// `SEQUENCER_JOG_DIVIDER` (not beyond the run position), else unchanged.
pub open spec fn moved_cursor(cursor: int, counter: int) -> int {
    if counter == -SEQUENCER_JOG_DIVIDER && cursor > 0 {
        cursor - 1
    } else if counter == SEQUENCER_JOG_DIVIDER && cursor + 1 <= RUN_POSITION {
        cursor + 1
    } else {
        cursor
    }
}

/// One detent in direction `dir` brings the detent counter to a divider.
pub open spec fn crosses_divider(counter: int, dir: JogDirection) -> bool {
    let c = counter + jog_delta(dir);
    c == SEQUENCER_JOG_DIVIDER || c == -SEQUENCER_JOG_DIVIDER
}

/// Detent counter and cursor after one detent in direction `dir`: when the
/// counter reaches a divider the cursor moves and the counter restarts at
/// zero, otherwise only the counter changes.
pub open spec fn jog_step(counter: int, cursor: int, dir: JogDirection) -> (int, int) {
    let c = counter + jog_delta(dir);
    if crosses_divider(counter, dir) {
        (0, moved_cursor(cursor, c))
    } else {
        (c, cursor)
    }
}

/// The LEDs show cursor position `cursor`: the step LED of that position is
/// lit, or the run LED at the run position, and every other LED is dark.
pub open spec fn leds_show(s_led: [bool; 8], run_led: bool, cursor: int) -> bool {
    &&& forall|i: int| 0 <= i < STEP_LEDS ==> s_led[i] == (i == cursor)
    &&& run_led == (cursor == RUN_POSITION)
}

impl GlobalState {
    /// Total detents turned so far (right minus left).
    pub closed spec fn jog_absolute(&self) -> int {
        self.raw_encoder as int
    }

    /// Detents counted towards the next move of the cursor.
    pub closed spec fn jog_counter(&self) -> int {
        self.sequencer_encoder_counter as int
    }

    /// Position of the sequencer cursor: `0..=7` a step, `8` the run position.
    pub closed spec fn cursor(&self) -> int {
        self.sequencer_counter as int
    }

    /// Which step LEDs are lit.
    pub closed spec fn step_leds(&self) -> [bool; 8] {
        self.s_led
    }

    /// Whether the run LED is lit.
    pub closed spec fn run_lit(&self) -> bool {
        self.run_led
    }

    /// The pending timer of the next `Info` event, if any.
    pub closed spec fn info_timer(&self) -> Option<TimerId> {
        self.info_timer_id
    }

    /// The detent counter stays strictly between the dividers and the
    /// cursor on `0..=8`.
    pub open spec fn wf(&self) -> bool {
        &&& -SEQUENCER_JOG_DIVIDER < self.jog_counter() < SEQUENCER_JOG_DIVIDER
        &&& 0 <= self.cursor() <= RUN_POSITION
    }

    pub fn new() -> (r: GlobalState)
        ensures
            r.wf(),
            r.jog_absolute() == 0,
            r.jog_counter() == 0,
            r.cursor() == 0,
            r.info_timer() is None,
            forall|i: int| 0 <= i < STEP_LEDS ==> !r.step_leds()[i],
            !r.run_lit(),
    {
        GlobalState {
            raw_encoder: 0,
            s_led: [false; 8],
            run_led: false,
            sequencer_encoder_counter: 0,
            sequencer_counter: 0,
            info_timer_id: None,
        }
    }

    fn on_jog(&mut self, dir: JogDirection)
        requires
            old(self).wf(),
            i32::MIN <= old(self).jog_absolute() + jog_delta(dir) <= i32::MAX,
        ensures
            final(self).wf(),
            final(self).jog_absolute() == old(self).jog_absolute() + jog_delta(dir),
            final(self).info_timer() == old(self).info_timer(),
            (final(self).jog_counter(), final(self).cursor()) == jog_step(
                old(self).jog_counter(),
                old(self).cursor(),
                dir,
            ),
            if crosses_divider(old(self).jog_counter(), dir) {
                leds_show(final(self).step_leds(), final(self).run_lit(), final(self).cursor())
            } else {
                &&& final(self).step_leds() == old(self).step_leds()
                &&& final(self).run_lit() == old(self).run_lit()
            },
    {
        match dir {
            JogDirection::Left => self.raw_encoder -= 1,
            JogDirection::Right => self.raw_encoder += 1,
        }

        match dir {
            JogDirection::Left => self.sequencer_encoder_counter -= 1,
            JogDirection::Right => self.sequencer_encoder_counter += 1,
        }

        if self.sequencer_encoder_counter == SEQUENCER_JOG_DIVIDER
            || self.sequencer_encoder_counter == -SEQUENCER_JOG_DIVIDER {
            if self.sequencer_encoder_counter == -SEQUENCER_JOG_DIVIDER {
                if self.sequencer_counter > 0 {
                    self.sequencer_counter -= 1;
                }
            }
            if self.sequencer_encoder_counter == SEQUENCER_JOG_DIVIDER {
                if self.sequencer_counter + 1 < 9 {
                    self.sequencer_counter += 1;
                }
            }

            let ghost before = *self;
            let mut i: usize = 0;
            while i < STEP_LEDS
                invariant
                    i <= STEP_LEDS,
                    forall|j: int| 0 <= j < i ==> !self.s_led[j],
                    self.raw_encoder == before.raw_encoder,
                    self.sequencer_encoder_counter == before.sequencer_encoder_counter,
                    self.sequencer_counter == before.sequencer_counter,
                    self.info_timer_id == before.info_timer_id,
                decreases STEP_LEDS - i,
            {
                self.s_led[i] = false;
                i += 1;
            }

            if self.sequencer_counter >= 0 && self.sequencer_counter < 8 {
                self.s_led[self.sequencer_counter as usize] = true;
            }

            self.run_led = self.sequencer_counter == RUN_POSITION;

            self.sequencer_encoder_counter = 0;
        }
    }

    /// The snapshot for the debug port.
    pub fn make_debug_info(&self) -> (r: DebugInfo)
        ensures
            r.jog_absolute == self.jog_absolute(),
            r.sequencer_counter == self.cursor(),
    {
        DebugInfo { jog_absolute: self.raw_encoder, sequencer_counter: self.sequencer_counter }
    }

    fn turn_on(&mut self)
        ensures
            *final(self) == *old(self),
    {
    }

    fn show_info(&mut self) -> (r: GlobalEffect)
        ensures
            r matches GlobalEffect::ShowInfo { info, cancel } && info.jog_absolute
                == old(self).jog_absolute() && info.sequencer_counter == old(self).cursor() && cancel
                == old(self).info_timer(),
            final(self).info_timer() is None,
            final(self).jog_absolute() == old(self).jog_absolute(),
            final(self).jog_counter() == old(self).jog_counter(),
            final(self).cursor() == old(self).cursor(),
            final(self).step_leds() == old(self).step_leds(),
            final(self).run_lit() == old(self).run_lit(),
    {
        let info = self.make_debug_info();
        let cancel = self.info_timer_id;
        self.info_timer_id = None;
        GlobalEffect::ShowInfo { info, cancel }
    }

    /// Records the timer that will deliver the next `Info` event.
    pub fn set_info_timer(&mut self, id: TimerId)
        ensures
            final(self).info_timer() == Some(id),
            final(self).jog_absolute() == old(self).jog_absolute(),
            final(self).jog_counter() == old(self).jog_counter(),
            final(self).cursor() == old(self).cursor(),
            final(self).step_leds() == old(self).step_leds(),
            final(self).run_lit() == old(self).run_lit(),
    {
        self.info_timer_id = Some(id);
    }
}

/// How one event changes the state from `pre` to `post` and what it asks
/// of the main loop: a detent moves the detent counter and cursor as
/// `jog_step` says (the LEDs then show the cursor whenever it was the
/// detent that reached a divider); `Info` hands out a debug snapshot and
/// the pending info timer to cancel; `Wakeup` changes nothing.
pub open spec fn event_transition(
    pre: GlobalState,
    event: GlobalEvent,
    post: GlobalState,
    effect: GlobalEffect,
) -> bool {
    &&& post.wf()
    &&& match event {
        GlobalEvent::Jog(dir) => {
            &&& effect is Nothing
            &&& post.jog_absolute() == pre.jog_absolute() + jog_delta(dir)
            &&& post.info_timer() == pre.info_timer()
            &&& (post.jog_counter(), post.cursor()) == jog_step(pre.jog_counter(), pre.cursor(), dir)
            &&& if crosses_divider(pre.jog_counter(), dir) {
                leds_show(post.step_leds(), post.run_lit(), post.cursor())
            } else {
                &&& post.step_leds() == pre.step_leds()
                &&& post.run_lit() == pre.run_lit()
            }
        },
        GlobalEvent::Wakeup => effect is Nothing && post == pre,
        GlobalEvent::Info => {
            &&& effect matches GlobalEffect::ShowInfo { info, cancel } && info.jog_absolute
                == pre.jog_absolute() && info.sequencer_counter == pre.cursor() && cancel
                == pre.info_timer()
            &&& post.info_timer() is None
            &&& post.jog_absolute() == pre.jog_absolute()
            &&& post.jog_counter() == pre.jog_counter()
            &&& post.cursor() == pre.cursor()
            &&& post.step_leds() == pre.step_leds()
            &&& post.run_lit() == pre.run_lit()
        },
    }
}

impl StoreState<GlobalEvent> for GlobalState {
    type Effect = GlobalEffect;

    /// A well-formed state takes every event, except a detent that would
    /// take the total detent count out of the `i32` range.
    open spec fn accepts(&self, event: GlobalEvent) -> bool {
        &&& self.wf()
        &&& event matches GlobalEvent::Jog(dir) ==> i32::MIN <= self.jog_absolute() + jog_delta(dir)
            <= i32::MAX
    }

    open spec fn transition(
        &self,
        event: GlobalEvent,
        next: GlobalState,
        effect: GlobalEffect,
    ) -> bool {
        event_transition(*self, event, next, effect)
    }

    fn handle_event(&mut self, event: GlobalEvent) -> (r: GlobalEffect) {
        match event {
            GlobalEvent::Jog(dir) => {
                self.on_jog(dir);
                GlobalEffect::Nothing
            },
            GlobalEvent::Wakeup => {
                self.turn_on();
                GlobalEffect::Nothing
            },
            GlobalEvent::Info => self.show_info(),
        }
    }
}

/// Every detent keeps the detent counter strictly between the dividers
/// and the cursor on `0..=8`.
pub proof fn lemma_jog_step_bounds(counter: int, cursor: int, dir: JogDirection)
    requires
        -SEQUENCER_JOG_DIVIDER < counter < SEQUENCER_JOG_DIVIDER,
        0 <= cursor <= RUN_POSITION,
    ensures
        -SEQUENCER_JOG_DIVIDER < jog_step(counter, cursor, dir).0 < SEQUENCER_JOG_DIVIDER,
        0 <= jog_step(counter, cursor, dir).1 <= RUN_POSITION,
{
}

/// From a counter at rest, three detents to the right move the cursor one
/// step forward (it stays at the run position), and three to the left move
/// it one step back (it stays at the first step); the counter is at rest again.
pub proof fn lemma_three_detents_move_one_step(cursor: int)
    requires
        0 <= cursor <= RUN_POSITION,
    ensures
        ({
            let r1 = jog_step(0, cursor, JogDirection::Right);
            let r2 = jog_step(r1.0, r1.1, JogDirection::Right);
            let r3 = jog_step(r2.0, r2.1, JogDirection::Right);
            r3 == (0int, if cursor < RUN_POSITION { cursor + 1 } else { cursor })
        }),
        ({
            let l1 = jog_step(0, cursor, JogDirection::Left);
            let l2 = jog_step(l1.0, l1.1, JogDirection::Left);
            let l3 = jog_step(l2.0, l2.1, JogDirection::Left);
            l3 == (0int, if cursor > 0 { cursor - 1 } else { cursor })
        }),
{
}

/// A detent to one side followed by a detent to the other side returns to
/// the same counter and cursor, as long as the first detent does not reach
/// a divider.
pub proof fn lemma_detent_back_and_forth(counter: int, cursor: int, dir: JogDirection)
    requires
        -SEQUENCER_JOG_DIVIDER < counter < SEQUENCER_JOG_DIVIDER,
        !crosses_divider(counter, dir),
    ensures
        ({
            let back = match dir {
                JogDirection::Left => JogDirection::Right,
                JogDirection::Right => JogDirection::Left,
            };
            let s1 = jog_step(counter, cursor, dir);
            jog_step(s1.0, s1.1, back) == (counter, cursor)
        }),
{
}

/// When the LEDs show a cursor position on `0..=8`, exactly one of the
/// nine LEDs is lit.
pub proof fn lemma_exactly_one_led(s_led: [bool; 8], run_led: bool, cursor: int)
    requires
        0 <= cursor <= RUN_POSITION,
        leds_show(s_led, run_led, cursor),
    ensures
        run_led || exists|i: int| 0 <= i < STEP_LEDS && s_led[i],
        forall|i: int, j: int| 0 <= i < j < STEP_LEDS ==> !(s_led[i] && s_led[j]),
        run_led ==> forall|i: int| 0 <= i < STEP_LEDS ==> !s_led[i],
{
    if cursor < RUN_POSITION {
        assert(s_led[cursor]);
    }
}

} // verus!
