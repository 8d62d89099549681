//! A store: a state, the events that change it, and a listener that is
//! shown every new state.
use vstd::prelude::*;
use core::marker::PhantomData;

verus! {

/// A state that events change; handling an event may ask the caller for
/// further work (`Effect`).
pub trait StoreState<Action>: Sized {
    type Effect;

    /// The events this state can take in its present form.
    spec fn accepts(&self, action: Action) -> bool;

    /// `next` and `effect` are what handling `action` in this state gives.
    spec fn transition(&self, action: Action, next: Self, effect: Self::Effect) -> bool;

    fn handle_event(&mut self, action: Action) -> (r: Self::Effect)
        requires
            old(self).accepts(action),
        ensures
            old(self).transition(action, *final(self), r),
    ;
}

pub struct Store<Action, State, Listener> where
    State: StoreState<Action>,
    Listener: FnMut(&State),
 {
    phantom_action: PhantomData<Action>,
    state: State,
    listener: Listener,
}

impl<A, S, L> Store<A, S, L> where S: StoreState<A>, L: FnMut(&S) {
    /// The present state.
    pub closed spec fn state(&self) -> S {
        self.state
    }

    /// The listener.
    pub closed spec fn listener(&self) -> L {
        self.listener
    }

    pub fn new(initial_state: S, listener: L) -> (r: Store<A, S, L>)
        ensures
            r.state() == initial_state,
            r.listener() == listener,
    {
        Store { phantom_action: PhantomData, state: initial_state, listener }
    }

    /// The present state.
    pub fn get_state(&self) -> (r: &S)
        ensures
            *r == self.state(),
    {
        &self.state
    }

    /// The present state, to change it outside of an event (the listener
    /// sees the change with the next event or `force_update`).
    pub fn get_state_mut(&mut self) -> (r: &mut S)
        ensures
            *r == old(self).state(),
            final(self).state() == *final(r),
            final(self).listener() == old(self).listener(),
    {
        &mut self.state
    }

    /// Shows the present state to the listener.
    pub fn force_update(&mut self)
        requires
            call_requires(old(self).listener(), (&old(self).state(),)),
        ensures
            final(self).state() == old(self).state(),
            final(self).listener() == old(self).listener(),
            call_ensures(old(self).listener(), (&old(self).state(),), ()),
    {
        (self.listener)(&self.state);
    }

    /// Handles one event: the state takes it in, then the listener is
    /// shown the new state. Returns what the state asks of the caller.
    pub fn handle_event(&mut self, event: A) -> (r: S::Effect)
        requires
            old(self).state().accepts(event),
            forall|s: &S| call_requires(old(self).listener(), (s,)),
        ensures
            old(self).state().transition(event, final(self).state(), r),
            final(self).listener() == old(self).listener(),
            call_ensures(old(self).listener(), (&final(self).state(),), ()),
    {
        let r = self.state.handle_event(event);
        proof {
            let shown = &self.state;
            assert(call_requires(old(self).listener(), (shown,)));
        }
        (self.listener)(&self.state);
        r
    }
}

} // verus!
