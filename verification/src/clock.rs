//! The per-generation simulation clock: a tick counter with a fixed budget.

use vstd::prelude::*;

verus! {

/// Counts the simulation ticks of the current generation, up to a fixed
/// budget equal to the genome length.
pub struct SimulationClock {
    pub ticks: u64,
    pub budget: u64,
}

impl SimulationClock {
    /// A clock never counts past its budget.
    pub open spec fn wf(self) -> bool {
        self.ticks <= self.budget
    }

    /// A fresh clock at tick zero.
    pub fn new(budget: u64) -> (c: SimulationClock)
        ensures
            c.wf(),
            c.ticks == 0,
            c.budget == budget,
    {
        SimulationClock { ticks: 0, budget }
    }

    /// True once the whole tick budget has elapsed.
    pub fn is_expired(&self) -> (r: bool)
        ensures
            r == (self.ticks == self.budget),
    {
        self.ticks == self.budget
    }

    /// Advances the clock by one tick and reports whether the budget has
    /// now been reached.
    pub fn tick(&mut self) -> (reached: bool)
        requires
            old(self).wf(),
            old(self).ticks < old(self).budget,
        ensures
            final(self).wf(),
            final(self).ticks == old(self).ticks + 1,
            final(self).budget == old(self).budget,
            reached == (final(self).ticks == final(self).budget),
    {
        self.ticks = self.ticks + 1;
        self.ticks == self.budget
    }

    /// Zeroes the tick counter for the next generation.
    pub fn reset(&mut self)
        ensures
            final(self).wf(),
            final(self).ticks == 0,
            final(self).budget == old(self).budget,
    {
        self.ticks = 0;
    }
}

} // verus!
