//! Counting semaphore: the token bookkeeping.
//!
//! Waiting for a token is the caller's part: a task that finds no token
//! available blocks (on a condition variable, or in the RTOS) until a
//! `release` makes one available, and only then calls `acquire`.
use vstd::prelude::*;

verus! {

/// Tokens after one is taken.
pub open spec fn acquired(v: (nat, nat)) -> (nat, nat) {
    (v.0, (v.1 - 1) as nat)
}

/// Tokens after one is given back; `None` when all are already free.
pub open spec fn released(v: (nat, nat)) -> Option<(nat, nat)> {
    if v.1 == v.0 {
        None
    } else {
        Some((v.0, v.1 + 1))
    }
}

/// Tokens after `n` are given back, one by one, as long as that succeeds.
pub open spec fn released_times(v: (nat, nat), n: nat) -> Option<(nat, nat)>
    decreases n,
{
    if n == 0 {
        Some(v)
    } else {
        match released_times(v, (n - 1) as nat) {
            Some(w) => released(w),
            None => None,
        }
    }
}

pub struct Semaphore {
    count: u32,
    free: u32,
}

impl View for Semaphore {
    /// `(count, free)`: the number of tokens the semaphore was created with
    /// and the number not taken at present.
    type V = (nat, nat);

    closed spec fn view(&self) -> (nat, nat) {
        (self.count as nat, self.free as nat)
    }
}

impl Semaphore {
    /// At most `count` tokens are ever free.
    pub open spec fn wf(&self) -> bool {
        self@.1 <= self@.0
    }

    /// A semaphore with `count` tokens, all of them free.
    pub fn new(count: u32) -> (r: Result<Semaphore, ()>)
        ensures
            r matches Ok(s) && s.wf() && s@ == (count as nat, count as nat),
    {
        Ok(Semaphore { count, free: count })
    }

    /// A semaphore with `count` tokens, all of them taken.
    pub fn empty(count: u32) -> (r: Result<Semaphore, ()>)
        ensures
            r matches Ok(s) && s.wf() && s@ == (count as nat, 0nat),
    {
        let mut res = match Semaphore::new(count) {
            Ok(s) => s,
            Err(e) => return Err(e),
        };
        let mut i: u32 = 0;
        while i < count
            invariant
                i <= count,
                res.wf(),
                res@ == (count as nat, (count - i) as nat),
            decreases count - i,
        {
            // the semaphore was created full
            match res.acquire() {
                Ok(()) => {},
                Err(e) => return Err(e),
            }
            i += 1;
        }
        Ok(res)
    }

    /// Number of tokens that can be taken without waiting.
    pub fn available(&self) -> (r: u32)
        ensures
            r == self@.1,
    {
        self.free
    }

    /// Takes one token; a token must be free.
    pub fn acquire(&mut self) -> (r: Result<(), ()>)
        requires
            old(self).wf(),
            old(self)@.1 > 0,
        ensures
            r is Ok,
            final(self).wf(),
            final(self)@ == acquired(old(self)@),
    {
        self.free -= 1;
        Ok(())
    }

    /// Gives one token back; fails, changing nothing, when all tokens are
    /// already free.
    pub fn release(&mut self) -> (r: Result<(), ()>)
        requires
            old(self).wf(),
        ensures
            final(self).wf(),
            r is Err <==> released(old(self)@) is None,
            r is Err ==> final(self)@ == old(self)@,
            r is Ok ==> final(self)@ == released(old(self)@).unwrap(),
    {
        if self.free == self.count {
            // All tokens already released
            return Err(());
        }
        self.free += 1;
        Ok(())
    }
}

/// Giving back a token right after taking one restores the semaphore.
pub proof fn lemma_acquire_then_release(v: (nat, nat))
    requires
        0 < v.1 <= v.0,
    ensures
        released(acquired(v)) == Some(v),
{
}

/// A semaphore created empty with `count` tokens takes exactly `count`
/// releases to be full, and a release on a full semaphore fails.
pub proof fn lemma_release_until_full(count: nat, n: nat)
    requires
        n <= count,
    ensures
        released_times((count, 0nat), n) == Some((count, n)),
        released((count, count)) is None,
    decreases n,
{
    if n > 0 {
        lemma_release_until_full(count, (n - 1) as nat);
    }
}

} // verus!
