use vstd::prelude::*;

verus! {

/// A counter that hands out consecutive numbers, starting at one.
pub struct CounterCell {
    counter: usize,
}

impl CounterCell {
    /// The number that was handed out last; zero when none was.
    pub closed spec fn value(&self) -> nat {
        self.counter as nat
    }

    pub fn new() -> (cell: CounterCell)
        ensures
            cell.value() == 0,
    {
        CounterCell { counter: 0 }
    }

    /// The number that was handed out last; zero when none was.
    pub fn get(&self) -> (count: usize)
        ensures
            count == self.value(),
    {
        self.counter
    }

    /// Hands out the next number.
    pub fn increment(&mut self) -> (count: usize)
        requires
            old(self).value() < usize::MAX,
        ensures
            count == old(self).value() + 1,
            final(self).value() == count,
    {
        self.counter = self.counter + 1;
        self.counter
    }
}

} // verus!
