//! Sequential identifiers, one per thread.

use crate::id::Id;
use vstd::prelude::*;

verus! {

/// The counter after it has handed out one number: one more, and back to
/// zero after the largest number a machine word holds.
pub open spec fn bumped(next: usize) -> usize {
    if next == usize::MAX {
        0
    } else {
        (next + 1) as usize
    }
}

/// The number that the `k`-th newcomer gets (counted from zero) from a
/// counter that stands at `start`.
pub open spec fn assigned(start: usize, k: nat) -> usize
    decreases k,
{
    if k == 0 {
        start
    } else {
        bumped(assigned(start, (k - 1) as nat))
    }
}

/// The provider that numbers threads in the order in which they first ask.
///
/// It is a counter that starts at one. A thread that asks for the first time
/// takes the counter's number and keeps it in a cell of its own; from then
/// on it is told that number again and the counter is left alone.
pub struct ThreadLocality {
    next: usize,
}

impl View for ThreadLocality {
    type V = usize;

    closed spec fn view(&self) -> usize {
        self.next
    }
}

impl ThreadLocality {
    /// A counter that has not handed out any number yet.
    pub fn new() -> (counter: Self)
        ensures
            counter@ == 1,
    {
        ThreadLocality { next: 1 }
    }

    /// The identifier of the thread whose own cell is `cached`.
    ///
    /// A cell that holds a number answers with it and nothing changes. An
    /// empty cell takes the counter's number, and the counter moves on.
    pub fn current(&mut self, cached: &mut Option<usize>) -> (id: Id)
        ensures
            old(cached).is_some() ==> {
                &&& id@ == old(cached).unwrap()
                &&& *final(cached) == *old(cached)
                &&& final(self)@ == old(self)@
            },
            old(cached).is_none() ==> {
                &&& id@ == old(self)@
                &&& *final(cached) == Some(old(self)@)
                &&& final(self)@ == bumped(old(self)@)
            },
    {
        match *cached {
            Some(value) => Id::from_usize(value),
            None => {
                let value = self.next;
                self.next = value.wrapping_add(1);
                *cached = Some(value);
                Id::from_usize(value)
            },
        }
    }
}

/// As long as the counter has not run through every number, newcomers are
/// numbered upwards from where it stood.
pub proof fn lemma_assigned_counts_up(start: usize, k: nat)
    requires
        start + k <= usize::MAX,
    ensures
        assigned(start, k) == start + k,
    decreases k,
{
    if k > 0 {
        lemma_assigned_counts_up(start, (k - 1) as nat);
    }
}

/// No two threads are told the same number, as long as the counter has not
/// run through every number.
pub proof fn lemma_assigned_distinct(start: usize, i: nat, j: nat)
    requires
        i != j,
        start + i <= usize::MAX,
        start + j <= usize::MAX,
    ensures
        assigned(start, i) != assigned(start, j),
{
    lemma_assigned_counts_up(start, i);
    lemma_assigned_counts_up(start, j);
}

} // verus!
