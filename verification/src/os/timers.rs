//! Software timers: identifiers, the table of pending timers and the
//! decisions of the timer task (what to wait for, which timers fire).
//!
//! The timer task itself (waiting on its input queue and running the
//! callbacks of the timers that fired) is driven from outside: it asks
//! `PendingTimers::next_timeout` how long to wait, hands every input to
//! `PendingTimers::handle_input`, and runs what `advance_timers` returns.
use vstd::prelude::*;
use crate::os::time::{Duration, Instant, instant_after, ms_to_ticks_ratio, signed_offset, ticks_to_ms_ratio};

verus! {

/// Identifier of a scheduled timer.
#[derive(Copy, Clone, Debug, Eq, PartialEq, Structural)]
pub struct TimerId(pub u32);

/// Source of fresh timer identifiers.
pub struct TimersState {
    next_id: u32,
}

impl View for TimersState {
    type V = u32;

    /// The identifier the next call hands out.
    closed spec fn view(&self) -> u32 {
        self.next_id
    }
}

impl TimersState {
    pub fn new() -> (r: TimersState)
        ensures
            r@ == 0,
    {
        TimersState { next_id: 0 }
    }

    /// The identifier the next call of `get_next_id` hands out.
    pub fn peek_next_id(&self) -> (r: u32)
        ensures
            r == self@,
    {
        self.next_id
    }

    /// Hands out identifiers `0, 1, 2, ...` in turn.
    pub fn get_next_id(&mut self) -> (r: TimerId)
        requires
            old(self)@ < u32::MAX,
        ensures
            r == TimerId(old(self)@),
            final(self)@ == old(self)@ + 1,
    {
        let result = self.next_id;
        self.next_id += 1;
        TimerId(result)
    }
}

/// A timer waiting for its target instant; `callback` is what runs when
/// it fires.
pub struct PendingTimer<C> {
    pub id: TimerId,
    pub target: Instant,
    pub callback: C,
}

/// What the timer task receives: a timer to add, or one to cancel.
pub enum TimersInput<C> {
    NewTimer(PendingTimer<C>),
    CancelTimer(TimerId),
}

/// Number of slots in the timer table.
pub const TIMER_SLOTS: usize = 7;

/// The timers that have not fired yet, in a fixed table of slots.
pub struct PendingTimers<C> {
    timers: [Option<PendingTimer<C>>; TIMER_SLOTS],
}

/// `t` is due at `now`: its target is not later than `now`.
pub open spec fn is_due<C>(t: PendingTimer<C>, now: Instant) -> bool {
    signed_offset(t.target.0, now.0) <= 0
}

/// Slot `k` is the first free slot of `s`.
pub open spec fn is_first_free<C>(s: Seq<Option<PendingTimer<C>>>, k: int) -> bool {
    &&& 0 <= k < s.len()
    &&& s[k] is None
    &&& forall|j: int| 0 <= j < k ==> (#[trigger] s[j]) is Some
}

/// Every slot of `s` holds a timer.
pub open spec fn all_taken<C>(s: Seq<Option<PendingTimer<C>>>) -> bool {
    forall|j: int| 0 <= j < s.len() ==> (#[trigger] s[j]) is Some
}

/// Slot `k` of `s` holds a timer with identifier `id`.
pub open spec fn holds_id<C>(s: Seq<Option<PendingTimer<C>>>, k: int, id: TimerId) -> bool {
    &&& 0 <= k < s.len()
    &&& s[k] matches Some(t) && t.id == id
}

/// Slot `k` is the first slot of `s` that holds a timer with identifier `id`.
pub open spec fn is_first_match<C>(s: Seq<Option<PendingTimer<C>>>, id: TimerId, k: int) -> bool {
    &&& holds_id(s, k, id)
    &&& forall|j: int| 0 <= j < k ==> !holds_id(s, j, id)
}

/// No slot of `s` holds a timer with identifier `id`.
pub open spec fn no_match<C>(s: Seq<Option<PendingTimer<C>>>, id: TimerId) -> bool {
    forall|j: int| 0 <= j < s.len() ==> !holds_id(s, j, id)
}

/// The earliest target among the timers of `s`, scanning the slots in
/// order and keeping the earlier of the running candidate and each next
/// target (the candidate wins ties).
pub open spec fn earliest<C>(s: Seq<Option<PendingTimer<C>>>) -> Option<Instant>
    decreases s.len(),
{
    if s.len() == 0 {
        None
    } else {
        let prev = earliest(s.drop_last());
        match s.last() {
            None => prev,
            Some(t) => match prev {
                None => Some(t.target),
                Some(a) => if signed_offset(a.0, t.target.0) <= 0 {
                    Some(a)
                } else {
                    Some(t.target)
                },
            },
        }
    }
}

/// How many milliseconds there are from `now` to `target`; zero when
/// `target` is already reached.
pub open spec fn wait_ms(target: Instant, now: Instant) -> int {
    if signed_offset(target.0, now.0) <= 0 {
        0
    } else {
        signed_offset(target.0, now.0) * ticks_to_ms_ratio()
    }
}

/// The callbacks of the timers of `s` that are due at `now`, in slot order.
pub open spec fn due_callbacks<C>(s: Seq<Option<PendingTimer<C>>>, now: Instant) -> Seq<C>
    decreases s.len(),
{
    if s.len() == 0 {
        Seq::empty()
    } else {
        let prev = due_callbacks(s.drop_last(), now);
        match s.last() {
            Some(t) => if is_due(t, now) {
                prev.push(t.callback)
            } else {
                prev
            },
            None => prev,
        }
    }
}

/// The table after the timers due at `now` were taken out of it.
pub open spec fn without_due<C>(s: Seq<Option<PendingTimer<C>>>, now: Instant) -> Seq<
    Option<PendingTimer<C>>,
> {
    s.map_values(
        |o: Option<PendingTimer<C>>|
            match o {
                Some(t) => if is_due(t, now) {
                    None
                } else {
                    Some(t)
                },
                None => None,
            },
    )
}

impl<C> View for PendingTimers<C> {
    type V = Seq<Option<PendingTimer<C>>>;

    /// The slots, in order.
    closed spec fn view(&self) -> Seq<Option<PendingTimer<C>>> {
        self.timers@
    }
}

impl<C> PendingTimers<C> {
    pub fn new() -> (r: PendingTimers<C>)
        ensures
            r@.len() == TIMER_SLOTS,
            forall|j: int| 0 <= j < TIMER_SLOTS ==> (#[trigger] r@[j]) is None,
    {
        PendingTimers { timers: [None, None, None, None, None, None, None] }
    }

    /// How long the timer task may wait before the earliest pending timer
    /// is due; `None` when no timer is pending.
    pub fn next_timeout(&self, now: Instant) -> (r: Option<Duration>)
        ensures
            r is None <==> earliest(self@) is None,
            r matches Some(d) ==> d@ == wait_ms(earliest(self@).unwrap(), now),
            r matches Some(d) ==> {
                let off = signed_offset(earliest(self@).unwrap().0, now.0);
                &&& off > 0 ==> d@ == off * ticks_to_ms_ratio()
                &&& off <= 0 ==> d@ == 0
            },
            r matches Some(d) ==> ((forall|j: int|
                0 <= j < self@.len() ==> (#[trigger] self@[j] matches Some(t) ==> 0 <= signed_offset(
                    t.target.0,
                    now.0,
                ))) ==> forall|j: int|
                0 <= j < self@.len() ==> (#[trigger] self@[j] matches Some(t) ==> d@ <= wait_ms(
                    t.target,
                    now,
                ))),
            r matches Some(d) ==> exists|j: int|
                0 <= j < self@.len() && (#[trigger] self@[j] matches Some(t) && d@ == wait_ms(
                    t.target,
                    now,
                )),
    {
        let mut min: Option<Instant> = None;
        let mut i: usize = 0;
        while i < TIMER_SLOTS
            invariant
                i <= TIMER_SLOTS,
                self@.len() == TIMER_SLOTS,
                min == earliest(self@.take(i as int)),
            decreases TIMER_SLOTS - i,
        {
            proof {
                assert(self@.take(i as int + 1).drop_last() =~= self@.take(i as int));
            }
            match &self.timers[i] {
                Some(t) => {
                    let target = t.target;
                    min = match min {
                        None => Some(target),
                        Some(a) => if a <= target {
                            Some(a)
                        } else {
                            Some(target)
                        },
                    };
                },
                None => {},
            }
            i += 1;
        }
        proof {
            assert(self@.take(TIMER_SLOTS as int) =~= self@);
            lemma_earliest_is_a_target(self@);
            if let Some(e) = earliest(self@) {
                assert forall|j: int| 0 <= j < self@.len() && (forall|k: int|
                    0 <= k < self@.len() ==> (#[trigger] self@[k] matches Some(t) ==> 0 <= signed_offset(
                        t.target.0,
                        now.0,
                    ))) implies (#[trigger] self@[j] matches Some(t) ==> wait_ms(e, now) <= wait_ms(
                    t.target,
                    now,
                )) by {
                    lemma_earliest_is_minimum(self@, now);
                    if let Some(t) = self@[j] {
                        lemma_window_offset(e, t.target, now);
                        assert(ticks_to_ms_ratio() == 1);
                    }
                }
            }
        }
        match min {
            Some(target) => if target <= now {
                Some(Duration::from_ms(0))
            } else {
                Some((target - now).as_duration())
            },
            None => None,
        }
    }

    /// Puts `timer` into the first free slot; when every slot is taken the
    /// timer is dropped.
    pub fn push(&mut self, timer: PendingTimer<C>)
        ensures
            forall|k: int| is_first_free(old(self)@, k) ==> final(self)@ == old(self)@.update(k, Some(timer)),
            all_taken(old(self)@) ==> final(self)@ == old(self)@,
            final(self)@.len() == old(self)@.len(),
            forall|j: int|
                0 <= j < old(self)@.len() && #[trigger] final(self)@[j] != old(self)@[j] ==> (old(
                    self,
                )@[j] is None && final(self)@[j] == Some(timer)),
            !all_taken(old(self)@) ==> timers_in(final(self)@) == timers_in(old(self)@) + 1,
    {
        proof {
            lemma_push_adds_one(old(self)@, timer);
        }
        let mut i: usize = 0;
        while i < TIMER_SLOTS
            invariant
                i <= TIMER_SLOTS,
                self@ == old(self)@,
                self@.len() == TIMER_SLOTS,
                forall|j: int| 0 <= j < i ==> (#[trigger] self@[j]) is Some,
            decreases TIMER_SLOTS - i,
        {
            if self.timers[i].is_none() {
                proof {
                    assert(is_first_free(old(self)@, i as int));
                    lemma_timers_in_update(old(self)@, i as int, Some(timer));
                }
                self.timers[i] = Some(timer);
                return;
            }
            i += 1;
        }
    }

    /// Empties the first slot that holds a timer with identifier `id`;
    /// nothing changes when there is none.
    pub fn cancel(&mut self, id: TimerId)
        ensures
            forall|k: int| is_first_match(old(self)@, id, k) ==> final(self)@ == old(self)@.update(k, None),
            no_match(old(self)@, id) ==> final(self)@ == old(self)@,
            final(self)@.len() == old(self)@.len(),
            forall|j: int|
                0 <= j < old(self)@.len() && #[trigger] final(self)@[j] != old(self)@[j] ==> (old(
                    self,
                )@[j] matches Some(t) && t.id == id && final(self)@[j] is None),
            timers_in(final(self)@) + 1 >= timers_in(old(self)@),
    {
        proof {
            lemma_cancel_removes_at_most_one(old(self)@, id);
        }
        let mut i: usize = 0;
        while i < TIMER_SLOTS
            invariant
                i <= TIMER_SLOTS,
                self@ == old(self)@,
                self@.len() == TIMER_SLOTS,
                forall|j: int| 0 <= j < i ==> !holds_id(self@, j, id),
            decreases TIMER_SLOTS - i,
        {
            let found = match &self.timers[i] {
                Some(timer) => timer.id == id,
                None => false,
            };
            if found {
                proof {
                    assert(holds_id(old(self)@, i as int, id));
                    assert(is_first_match(old(self)@, id, i as int));
                    lemma_timers_in_update(old(self)@, i as int, None);
                    assert forall|k: int| is_first_match(old(self)@, id, k) implies k == i by {
                        if k < i {
                        } else if k > i {
                            assert(!holds_id(old(self)@, i as int, id));
                        }
                    }
                }
                self.timers[i] = None;
                return;
            }
            i += 1;
        }
    }

    pub fn handle_input(&mut self, event: TimersInput<C>)
        ensures
            event matches TimersInput::NewTimer(timer) ==> {
                &&& forall|k: int| is_first_free(old(self)@, k) ==> final(self)@ == old(self)@.update(k, Some(timer))
                &&& all_taken(old(self)@) ==> final(self)@ == old(self)@
            },
            event matches TimersInput::CancelTimer(id) ==> {
                &&& forall|k: int| is_first_match(old(self)@, id, k) ==> final(self)@ == old(self)@.update(k, None)
                &&& no_match(old(self)@, id) ==> final(self)@ == old(self)@
            },
    {
        match event {
            TimersInput::NewTimer(timer) => self.push(timer),
            TimersInput::CancelTimer(id) => self.cancel(id),
        }
    }

    /// Takes every timer that is due at `now` out of the table and returns
    /// their callbacks in slot order, for the caller to run.
    pub fn advance_timers(&mut self, now: Instant) -> (fired: Vec<C>)
        ensures
            final(self)@ == without_due(old(self)@, now),
            fired@ == due_callbacks(old(self)@, now),
            final(self)@.len() == old(self)@.len(),
            forall|j: int|
                0 <= j < old(self)@.len() ==> (#[trigger] old(self)@[j] matches Some(t) && !is_due(t, now)
                    ==> final(self)@[j] == old(self)@[j]),
            forall|j: int|
                0 <= j < old(self)@.len() ==> (#[trigger] old(self)@[j] matches Some(t) && is_due(t, now)
                    ==> final(self)@[j] is None),
            forall|j: int| 0 <= j < old(self)@.len() && #[trigger] old(self)@[j] is None ==> final(self)@[j] is None,
            fired@.len() + timers_in(final(self)@) == timers_in(old(self)@),
            fired@ == old(self)@.filter_map(due_callback_of(now)),
    {
        proof {
            lemma_fired_plus_left(old(self)@, now);
            lemma_due_callbacks_filter_map(old(self)@, now);
        }
        let mut fired: Vec<C> = Vec::new();
        let mut i: usize = 0;
        while i < TIMER_SLOTS
            invariant
                i <= TIMER_SLOTS,
                self@.len() == TIMER_SLOTS,
                old(self)@.len() == TIMER_SLOTS,
                forall|j: int| 0 <= j < i ==> #[trigger] self@[j] == without_due(old(self)@, now)[j],
                forall|j: int| i <= j < TIMER_SLOTS ==> #[trigger] self@[j] == old(self)@[j],
                fired@ == due_callbacks(old(self)@.take(i as int), now),
            decreases TIMER_SLOTS - i,
        {
            proof {
                assert(old(self)@.take(i as int + 1).drop_last() =~= old(self)@.take(i as int));
            }
            let due = match &self.timers[i] {
                Some(timer) => timer.target <= now,
                None => false,
            };
            if due {
                let taken = self.timers[i].take();
                match taken {
                    Some(timer) => fired.push(timer.callback),
                    None => {},
                }
            }
            i += 1;
        }
        proof {
            assert(old(self)@.take(TIMER_SLOTS as int) =~= old(self)@);
            assert(self@ =~= without_due(old(self)@, now));
        }
        fired
    }
}

/// Schedules `callback` to run `duration` after `now`: takes a fresh
/// identifier and gives the input for the timer task; the caller sends
/// that input and keeps the identifier to cancel the timer with.
pub fn common_timeout<C>(state: &mut TimersState, now: Instant, duration: Duration, callback: C) -> (r: (TimerId, TimersInput<C>))
    requires
        old(state)@ < u32::MAX,
    ensures
        final(state)@ == old(state)@ + 1,
        r.0 == TimerId(old(state)@),
        r.1 == TimersInput::NewTimer(
            (PendingTimer {
                id: r.0,
                target: instant_after(now, duration@ * ms_to_ticks_ratio()),
                callback,
            }),
        ),
{
    let target = now + duration;
    let id = state.get_next_id();
    (id, TimersInput::NewTimer(PendingTimer { id, target, callback }))
}

/// A timer scheduled a positive number of ticks (less than half the
/// counter range) after `now` is not due at `now`, is due at its target,
/// and stays due at any instant up to half the counter range after it.
pub proof fn lemma_due_at_target<C>(t: PendingTimer<C>, now: Instant, ticks: int, wait: int)
    requires
        0 < ticks < 0x8000_0000,
        t.target == instant_after(now, ticks),
        0 <= wait < 0x8000_0000,
    ensures
        !is_due(t, now),
        is_due(t, t.target),
        is_due(t, instant_after(t.target, wait)),
{
}

/// Number of slots of `s` that hold a timer.
pub open spec fn timers_in<C>(s: Seq<Option<PendingTimer<C>>>) -> nat
    decreases s.len(),
{
    if s.len() == 0 {
        0
    } else {
        timers_in(s.drop_last()) + if s.last() is Some {
            1nat
        } else {
            0nat
        }
    }
}

/// The callback a slot contributes when the table is advanced to `now`:
/// that of a due timer, nothing otherwise.
pub open spec fn due_callback_of<C>(now: Instant) -> spec_fn(Option<PendingTimer<C>>) -> Option<C> {
    |o: Option<PendingTimer<C>>|
        match o {
            Some(t) => if signed_offset(t.target.0, now.0) <= 0 {
                Some(t.callback)
            } else {
                None
            },
            None => None,
        }
}

/// Overwriting one slot changes the number of timers by what left and
/// what came in.
pub proof fn lemma_timers_in_update<C>(s: Seq<Option<PendingTimer<C>>>, k: int, v: Option<PendingTimer<C>>)
    requires
        0 <= k < s.len(),
    ensures
        timers_in(s.update(k, v)) + (if s[k] is Some { 1int } else { 0int }) == timers_in(s) + (if v is Some {
            1int
        } else {
            0int
        }),
    decreases s.len(),
{
    let u = s.update(k, v);
    if k == s.len() - 1 {
        assert(u.drop_last() =~= s.drop_last());
    } else {
        assert(u.drop_last() =~= s.drop_last().update(k, v));
        lemma_timers_in_update(s.drop_last(), k, v);
    }
}

/// Cancelling takes at most one timer out of the table, and only one with
/// the cancelled identifier: the first slot holding `id` holds a timer
/// with exactly that identifier, and emptying it leaves one timer fewer.
pub proof fn lemma_cancel_removes_at_most_one<C>(s: Seq<Option<PendingTimer<C>>>, id: TimerId)
    ensures
        forall|k: int| #[trigger]
            is_first_match(s, id, k) ==> (s[k] matches Some(t) && t.id == id) && timers_in(
                s.update(k, None),
            ) + 1 == timers_in(s),
        forall|j: int| 0 <= j < s.len() && (#[trigger] s[j] matches Some(t) && t.id != id) ==> !holds_id(s, j, id),
{
    assert forall|k: int| #[trigger] is_first_match(s, id, k) implies (s[k] matches Some(t) && t.id == id)
        && timers_in(s.update(k, None)) + 1 == timers_in(s) by {
        lemma_timers_in_update(s, k, None);
    }
}

/// Pushing into a table with a free slot adds exactly one timer and
/// touches no slot but that free one.
pub proof fn lemma_push_adds_one<C>(s: Seq<Option<PendingTimer<C>>>, t: PendingTimer<C>)
    ensures
        forall|k: int| #[trigger]
            is_first_free(s, k) ==> s[k] is None && timers_in(s.update(k, Some(t))) == timers_in(s) + 1,
        !all_taken(s) ==> exists|k: int| is_first_free(s, k),
    decreases s.len(),
{
    assert forall|k: int| #[trigger] is_first_free(s, k) implies s[k] is None && timers_in(s.update(k, Some(t)))
        == timers_in(s) + 1 by {
        lemma_timers_in_update(s, k, Some(t));
    }
    if !all_taken(s) {
        let j = choose|j: int| 0 <= j < s.len() && !(#[trigger] s[j] is Some);
        lemma_first_free_exists(s, j);
    }
}

proof fn lemma_first_free_exists<C>(s: Seq<Option<PendingTimer<C>>>, j: int)
    requires
        0 <= j < s.len(),
        s[j] is None,
    ensures
        exists|k: int| is_first_free(s, k),
    decreases j,
{
    if forall|i: int| 0 <= i < j ==> (#[trigger] s[i]) is Some {
        assert(is_first_free(s, j));
    } else {
        let i = choose|i: int| 0 <= i < j && !((#[trigger] s[i]) is Some);
        lemma_first_free_exists(s, i);
    }
}

/// Every timer that advancing takes out of the table comes back as a
/// callback: the callbacks returned plus the timers left make up all the
/// timers that were in the table.
pub proof fn lemma_fired_plus_left<C>(s: Seq<Option<PendingTimer<C>>>, now: Instant)
    ensures
        due_callbacks(s, now).len() + timers_in(without_due(s, now)) == timers_in(s),
    decreases s.len(),
{
    if s.len() > 0 {
        lemma_fired_plus_left(s.drop_last(), now);
        assert(without_due(s, now).drop_last() =~= without_due(s.drop_last(), now));
        assert(without_due(s, now).last() == without_due(s, now)[s.len() - 1]);
    }
}

/// The callbacks advancing returns are, in slot order, the callbacks of
/// exactly the timers that are due, one per due timer.
pub proof fn lemma_due_callbacks_filter_map<C>(s: Seq<Option<PendingTimer<C>>>, now: Instant)
    ensures
        due_callbacks(s, now) == s.filter_map(due_callback_of(now)),
    decreases s.len(),
{
    if s.len() > 0 {
        lemma_due_callbacks_filter_map(s.drop_last(), now);
        let prev = due_callbacks(s.drop_last(), now);
        match s.last() {
            Some(t) => if is_due(t, now) {
                assert(prev.push(t.callback) =~= prev + seq![t.callback]);
            },
            None => {},
        }
    }
}

/// Advancing leaves every timer that is not due in its slot, empties the
/// slots of the due timers and leaves empty slots empty.
pub proof fn lemma_advance_keeps_waiting_timers<C>(s: Seq<Option<PendingTimer<C>>>, now: Instant)
    ensures
        without_due(s, now).len() == s.len(),
        forall|j: int|
            0 <= j < s.len() ==> (#[trigger] s[j] matches Some(t) && !is_due(t, now) ==> without_due(s, now)[j]
                == s[j]),
        forall|j: int|
            0 <= j < s.len() ==> (#[trigger] s[j] matches Some(t) && is_due(t, now) ==> without_due(s, now)[j]
                is None),
        forall|j: int| 0 <= j < s.len() && #[trigger] s[j] is None ==> without_due(s, now)[j] is None,
{
}

/// The earliest target, when there is one, is the target of a timer in
/// the table.
pub proof fn lemma_earliest_is_a_target<C>(s: Seq<Option<PendingTimer<C>>>)
    ensures
        earliest(s) matches Some(e) ==> exists|j: int|
            0 <= j < s.len() && (#[trigger] s[j] matches Some(t) && t.target == e),
    decreases s.len(),
{
    if s.len() > 0 {
        let p = s.drop_last();
        lemma_earliest_is_a_target(p);
        let last = s.len() - 1;
        assert(s[last] == s.last());
        if let Some(e) = earliest(s) {
            if let Some(a) = earliest(p) {
                if e == a {
                    let j = choose|j: int| 0 <= j < p.len() && (#[trigger] p[j] matches Some(t) && t.target == a);
                    assert(s[j] == p[j]);
                }
            }
        }
    }
}

/// Waiting what `next_timeout` gives for a target not yet reached lands
/// exactly on that target; a target already reached gives no wait.
pub proof fn lemma_wait_reaches_target(target: Instant, now: Instant)
    ensures
        signed_offset(target.0, now.0) > 0 ==> instant_after(
            now,
            wait_ms(target, now) * ms_to_ticks_ratio(),
        ) == target,
        signed_offset(target.0, now.0) > 0 ==> 0 < wait_ms(target, now) < 0x8000_0000,
        signed_offset(target.0, now.0) <= 0 ==> wait_ms(target, now) == 0,
{
    assert(ticks_to_ms_ratio() == 1 && ms_to_ticks_ratio() == 1);
}

/// Pushing a timer whose identifier is not in the table and then
/// cancelling that identifier gives back the table as it was: the timer
/// went into the first free slot, and that slot is where the cancel finds it.
pub proof fn lemma_push_then_cancel<C>(s: Seq<Option<PendingTimer<C>>>, k: int, t: PendingTimer<C>)
    requires
        is_first_free(s, k),
        no_match(s, t.id),
    ensures
        is_first_match(s.update(k, Some(t)), t.id, k),
        s.update(k, Some(t)).update(k, None) == s,
{
    let s1 = s.update(k, Some(t));
    assert forall|j: int| 0 <= j < k implies !holds_id(s1, j, t.id) by {
        assert(s1[j] == s[j]);
        assert(!holds_id(s, j, t.id));
    }
    assert(s1.update(k, None) =~= s);
}

/// No timer is pending exactly when there is no earliest target.
pub proof fn lemma_earliest_none_iff_empty<C>(s: Seq<Option<PendingTimer<C>>>)
    ensures
        earliest(s) is None <==> forall|j: int| 0 <= j < s.len() ==> (#[trigger] s[j]) is None,
    decreases s.len(),
{
    if s.len() > 0 {
        lemma_earliest_none_iff_empty(s.drop_last());
        if earliest(s) is None {
            assert forall|j: int| 0 <= j < s.len() implies (#[trigger] s[j]) is None by {
                if j < s.len() - 1 {
                    assert(s.drop_last()[j] == s[j]);
                }
            }
        } else {
            if s.last() is None {
                let j = choose|j: int| 0 <= j < s.len() - 1 && !(#[trigger] s.drop_last()[j] is None);
                assert(s[j] == s.drop_last()[j]);
            }
        }
    }
}

/// Two instants that both lie less than half the counter range after
/// `base` are as far apart as their offsets from `base` say.
pub proof fn lemma_window_offset(x: Instant, y: Instant, base: Instant)
    requires
        0 <= signed_offset(x.0, base.0),
        0 <= signed_offset(y.0, base.0),
    ensures
        signed_offset(x.0, y.0) == signed_offset(x.0, base.0) - signed_offset(y.0, base.0),
{
}

/// When all pending targets lie in a window of less than half the counter
/// range after some instant `base`, the earliest target is one of the
/// targets and no target is earlier than it.
pub proof fn lemma_earliest_is_minimum<C>(s: Seq<Option<PendingTimer<C>>>, base: Instant)
    requires
        forall|j: int|
            0 <= j < s.len() ==> (#[trigger] s[j] matches Some(t) ==> 0 <= signed_offset(t.target.0, base.0)),
    ensures
        earliest(s) matches Some(e) ==> {
            &&& 0 <= signed_offset(e.0, base.0)
            &&& exists|j: int| 0 <= j < s.len() && (#[trigger] s[j] matches Some(t) && t.target == e)
            &&& forall|j: int|
                0 <= j < s.len() ==> (#[trigger] s[j] matches Some(t) ==> signed_offset(e.0, t.target.0) <= 0)
        },
    decreases s.len(),
{
    if s.len() > 0 {
        let p = s.drop_last();
        assert forall|j: int| 0 <= j < p.len() implies (#[trigger] p[j] matches Some(t) ==> 0 <= signed_offset(t.target.0, base.0)) by {
            assert(p[j] == s[j]);
        }
        lemma_earliest_is_minimum(p, base);
        let last = s.len() - 1;
        assert(s[last] == s.last());
        if let Some(e) = earliest(s) {
            match earliest(p) {
                Some(a) => {
                    let wa = choose|j: int| 0 <= j < p.len() && (#[trigger] p[j] matches Some(t) && t.target == a);
                    assert(s[wa] == p[wa]);
                    match s.last() {
                        Some(t) => {
                            lemma_window_offset(a, t.target, base);
                            assert forall|j: int| 0 <= j < s.len() implies (#[trigger] s[j] matches Some(u) ==> signed_offset(e.0, u.target.0) <= 0) by {
                                if j < last {
                                    assert(s[j] == p[j]);
                                    if let Some(u) = s[j] {
                                        lemma_window_offset(a, u.target, base);
                                        lemma_window_offset(e, u.target, base);
                                    }
                                }
                            }
                        },
                        None => {
                            assert forall|j: int| 0 <= j < s.len() implies (#[trigger] s[j] matches Some(u) ==> signed_offset(e.0, u.target.0) <= 0) by {
                                if j < last {
                                    assert(s[j] == p[j]);
                                }
                            }
                        },
                    }
                },
                None => {
                    lemma_earliest_none_iff_empty(p);
                    assert forall|j: int| 0 <= j < s.len() implies (#[trigger] s[j] matches Some(u) ==> signed_offset(e.0, u.target.0) <= 0) by {
                        if j < last {
                            assert(s[j] == p[j]);
                            assert(p[j] is None);
                        }
                    }
                },
            }
        }
    }
}

/// After the due timers were taken out, no timer left in the table is due.
pub proof fn lemma_nothing_due_after_advance<C>(s: Seq<Option<PendingTimer<C>>>, now: Instant)
    ensures
        without_due(s, now).len() == s.len(),
        forall|j: int|
            0 <= j < s.len() ==> (#[trigger] without_due(s, now)[j] matches Some(t) ==> !is_due(t, now)),
{
}

} // verus!
