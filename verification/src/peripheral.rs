//! A cell that is set once at start-up and read afterwards.
use vstd::prelude::*;

verus! {

pub struct Static<T> {
    cell: Option<T>,
}

impl<T> View for Static<T> {
    type V = Option<T>;

    /// The value, once set.
    closed spec fn view(&self) -> Option<T> {
        self.cell
    }
}

impl<T> Static<T> {
    /// An empty cell.
    pub fn new() -> (r: Static<T>)
        ensures
            r@ is None,
    {
        Static { cell: None }
    }

    /// Sets the value; the cell must still be empty (setting it twice is a
    /// start-up error).
    pub fn init(&mut self, t: T)
        requires
            old(self)@ is None,
        ensures
            final(self)@ == Some(t),
    {
        self.cell = Some(t);
    }

    /// The value, if it was set.
    pub fn get(&self) -> (r: Option<&T>)
        ensures
            r matches Some(v) ==> self@ == Some(*v),
            r is None <==> self@ is None,
    {
        match &self.cell {
            Some(res) => Some(res),
            None => None,
        }
    }
}

/// A cell is set once: `init` takes only an empty cell and leaves it
/// holding `t`, and nothing else changes a cell, so from then on every
/// `get` gives `t` and a further `init` is ruled out.
pub proof fn lemma_set_once<T>(before: Static<T>, after: Static<T>, t: T)
    requires
        before@ is None,
        after@ == Some(t),
    ensures
        after@ is Some,
        after@.unwrap() == t,
        !(after@ is None),
        before@ != after@,
{
}

} // verus!
