//! The simulation root: one worm and one fruit, advanced frame by frame.

use vstd::prelude::*;
use crate::board::Position;
use crate::fruit::{Fruit, fruit_cell};
use crate::worm::{Worm, StepOutcome, stepped, same_but_clock, step_due, BASE_TICK_INTERVAL};
use crate::direction::Direction;

verus! {

/// The whole simulation state.
pub struct Game {
    pub worm: Worm,
    pub fruit: Fruit,
}

impl Game {
    /// Well-formedness: that of the worm.
    pub open spec fn wf(&self) -> bool {
        self.worm.wf()
    }

    /// Whether the game is well formed, for callers that Verus does not check.
    pub fn is_well_formed(&self) -> (r: bool)
        ensures
            r == self.wf(),
    {
        self.worm.is_well_formed()
    }

    /// A new game: a fresh worm and a fruit on a random fruit cell.
    pub fn new() -> (g: Game)
        ensures
            g.wf(),
            g.worm.direction == Direction::Right,
            g.worm.tick_interval == BASE_TICK_INTERVAL,
            g.worm.elapsed == 0,
            g.worm.head == (Position { x: 0, y: 0 }),
            g.worm.segments@.len() == 0,
            g.worm.level == 1,
            g.worm.max_level_reached == 1,
            fruit_cell(g.fruit.position),
    {
        let worm = Worm::new();
        let fruit = Fruit::place();
        Game { worm, fruit }
    }

    /// One movement step of the worm toward the fruit; a fruit that is eaten is
    /// replaced by `next`, otherwise it stays.
    pub fn step_with(&mut self, next: Fruit) -> (out: StepOutcome)
        requires
            old(self).wf(),
        ensures
            final(self).wf(),
            stepped(old(self).worm, final(self).worm, old(self).fruit.position, out),
            final(self).worm.elapsed == old(self).worm.elapsed,
            out == StepOutcome::Ate ==> final(self).fruit == next,
            out != StepOutcome::Ate ==> final(self).fruit == old(self).fruit,
    {
        let out = self.worm.step(self.fruit.position);
        if out == StepOutcome::Ate {
            self.fruit = next;
        }
        out
    }

    /// One movement step of the worm toward the fruit; a fruit that is eaten is
    /// placed anew on a random fruit cell, otherwise it stays.
    pub fn step(&mut self) -> (out: StepOutcome)
        requires
            old(self).wf(),
        ensures
            final(self).wf(),
            stepped(old(self).worm, final(self).worm, old(self).fruit.position, out),
            final(self).worm.elapsed == old(self).worm.elapsed,
            out == StepOutcome::Ate ==> fruit_cell(final(self).fruit.position),
            out != StepOutcome::Ate ==> final(self).fruit == old(self).fruit,
    {
        let next = Fruit::place();
        self.step_with(next)
    }

    /// One frame of `dt` nanoseconds: the clock gathers the time and, when a
    /// step is due, exactly one step is made and its outcome returned.
    pub fn frame(&mut self, dt: u64) -> (r: Option<StepOutcome>)
        requires
            old(self).wf(),
        ensures
            final(self).wf(),
            step_due(old(self).worm, dt) ==> final(self).worm.elapsed == 0 && match r {
                Some(out) => {
                    &&& stepped(old(self).worm, final(self).worm, old(self).fruit.position, out)
                    &&& out == StepOutcome::Ate ==> fruit_cell(final(self).fruit.position)
                    &&& out != StepOutcome::Ate ==> final(self).fruit == old(self).fruit
                },
                None => false,
            },
            !step_due(old(self).worm, dt) ==> {
                &&& r is None
                &&& final(self).worm.elapsed == old(self).worm.elapsed + dt
                &&& same_but_clock(old(self).worm, final(self).worm)
                &&& final(self).fruit == old(self).fruit
            },
    {
        if self.worm.advance_clock(dt) {
            Some(self.step())
        } else {
            None
        }
    }
}

} // verus!
