//! The worm: its state, the movement and growth engine, the tick scheduler and
//! the direction controller.

use vstd::prelude::*;
use crate::board::{Position, in_bounds, on_grid, position_on_board};
use crate::direction::{Direction, opposite_of, turned, next_head, advance};

verus! {

/// Time between two steps when the worm starts or restarts: half a second, in nanoseconds.
pub const BASE_TICK_INTERVAL: u64 = 500_000_000;

/// Length that the worm grows to, one segment per step, after a start or a reset.
pub const INITIAL_LENGTH: usize = 5;

/// Each fruit eaten multiplies the tick interval by `SPEED_UP_NUMERATOR / SPEED_UP_DENOMINATOR`,
/// rounded down to a whole nanosecond.
pub const SPEED_UP_NUMERATOR: u64 = 9;

/// See `SPEED_UP_NUMERATOR`.
pub const SPEED_UP_DENOMINATOR: u64 = 10;

/// What one movement step did.
#[derive(Clone, Copy, Debug, PartialEq, Eq, Structural)]
pub enum StepOutcome {
    /// The worm moved, and grew only if it was still short.
    Moved,
    /// The head reached the fruit: the worm grew, sped up and went up a level.
    Ate,
    /// The head ran into the body: the worm was reset.
    Collided,
}

/// The simulation state of the worm.
pub struct Worm {
    /// Current direction of travel.
    pub direction: Direction,
    /// Time between two steps, in nanoseconds.
    pub tick_interval: u64,
    /// Time gathered since the last step, in nanoseconds.
    pub elapsed: u64,
    /// Where the foremost segment goes; authoritative even while `segments` is empty.
    pub head: Position,
    /// Body segments; index 0 is the head, higher indices lie toward the tail.
    pub segments: Vec<Position>,
    /// Current level: one more than the fruit eaten since the last reset.
    pub level: u32,
    /// Highest level reached so far.
    pub max_level_reached: u32,
}

/// Whether every position of `s` lies within the bounds and on the grid.
pub open spec fn all_on_board(s: Seq<Position>) -> bool {
    forall|j: int| 0 <= j < s.len() ==> in_bounds(#[trigger] s[j]) && on_grid(s[j])
}

/// Whether shifting `segs` toward a head at `h` moves some segment other than
/// the foremost onto `h`: segment `i` takes the place of segment `i - 1`.
pub open spec fn collides(segs: Seq<Position>, h: Position) -> bool {
    exists|i: int| 1 <= i < segs.len() && #[trigger] segs[i - 1] == h
}

/// The segments after a follow-the-leader shift toward a new head at `h`.
pub open spec fn shifted(segs: Seq<Position>, h: Position) -> Seq<Position> {
    if segs.len() == 0 {
        segs
    } else {
        seq![h] + segs.subrange(0, segs.len() - 1)
    }
}

/// The position left free by a shift toward `h`: the old tail, or `h` when there
/// are no segments yet.
pub open spec fn vacated(segs: Seq<Position>, h: Position) -> Position {
    if segs.len() == 0 {
        h
    } else {
        segs.last()
    }
}

/// The segments after a shift toward `h` and growth: one segment at the vacated
/// place while shorter than `INITIAL_LENGTH`, and one more there if a fruit was eaten.
pub open spec fn regrown(segs: Seq<Position>, h: Position, ate: bool) -> Seq<Position> {
    let s = shifted(segs, h);
    let v = vacated(segs, h);
    let ramped = if segs.len() < INITIAL_LENGTH {
        s.push(v)
    } else {
        s
    };
    if ate {
        ramped.push(v)
    } else {
        ramped
    }
}

/// The tick interval after a fruit is eaten.
pub open spec fn sped_up(t: u64) -> u64 {
    (t as int * SPEED_UP_NUMERATOR as int / SPEED_UP_DENOMINATOR as int) as u64
}

/// The level after a fruit is eaten; it stays put at the largest `u32`.
pub open spec fn next_level(l: u32) -> u32 {
    if l < u32::MAX {
        (l + 1) as u32
    } else {
        l
    }
}

/// The relation between the worm before (`w0`) and after (`w1`) one movement
/// step with the fruit at `fruit`, and that step's outcome. The clock is not
/// part of it.
pub open spec fn stepped(w0: Worm, w1: Worm, fruit: Position, out: StepOutcome) -> bool {
    let h = next_head(w0.head, w0.direction);
    &&& w1.head == h
    &&& w1.direction == w0.direction
    &&& if collides(w0.segments@, h) {
        &&& out == StepOutcome::Collided
        &&& w1.segments@ == Seq::<Position>::empty()
        &&& w1.level == 1
        &&& w1.tick_interval == BASE_TICK_INTERVAL
        &&& w1.max_level_reached == w0.max_level_reached
    } else if h == fruit {
        &&& out == StepOutcome::Ate
        &&& w1.segments@ == regrown(w0.segments@, h, true)
        &&& w1.level == next_level(w0.level)
        &&& w1.tick_interval == sped_up(w0.tick_interval)
        &&& w1.max_level_reached == if next_level(w0.level) > w0.max_level_reached {
            next_level(w0.level)
        } else {
            w0.max_level_reached
        }
    } else {
        &&& out == StepOutcome::Moved
        &&& w1.segments@ == regrown(w0.segments@, h, false)
        &&& w1.level == w0.level
        &&& w1.tick_interval == w0.tick_interval
        &&& w1.max_level_reached == w0.max_level_reached
    }
}

/// Whether `w1` is `w0` with only the clock changed.
pub open spec fn same_but_clock(w0: Worm, w1: Worm) -> bool {
    &&& w1.direction == w0.direction
    &&& w1.tick_interval == w0.tick_interval
    &&& w1.head == w0.head
    &&& w1.segments@ == w0.segments@
    &&& w1.level == w0.level
    &&& w1.max_level_reached == w0.max_level_reached
}

/// Whether a step is due once `dt` more nanoseconds have passed.
pub open spec fn step_due(w: Worm, dt: u64) -> bool {
    w.elapsed + dt >= w.tick_interval
}

/// The direction requested by the keys held down in one frame: of several keys
/// held at once, the one checked last in the order right, left, down, up wins.
pub open spec fn keys_request(right: bool, left: bool, down: bool, up: bool) -> Option<Direction> {
    if up {
        Some(Direction::Up)
    } else if down {
        Some(Direction::Down)
    } else if left {
        Some(Direction::Left)
    } else if right {
        Some(Direction::Right)
    } else {
        None
    }
}

/// The direction after the keys held down in one frame: their one request goes
/// through the reversal guard once, against the direction `d` before the poll.
pub open spec fn keys_direction(d: Direction, right: bool, left: bool, down: bool, up: bool) -> Direction {
    match keys_request(right, left, down, up) {
        Some(requested) => turned(d, requested),
        None => d,
    }
}

impl Worm {
    /// Well-formedness: every position is legal and on the grid, and the level
    /// is at least one and at most the highest level reached.
    pub open spec fn wf(&self) -> bool {
        &&& in_bounds(self.head)
        &&& on_grid(self.head)
        &&& all_on_board(self.segments@)
        &&& 1 <= self.level <= self.max_level_reached
    }

    /// A worm at the origin heading right, with no segments yet, at level one
    /// and the base tick interval.
    pub fn new() -> (r: Worm)
        ensures
            r.wf(),
            r.direction == Direction::Right,
            r.tick_interval == BASE_TICK_INTERVAL,
            r.elapsed == 0,
            r.head == (Position { x: 0, y: 0 }),
            r.segments@.len() == 0,
            r.level == 1,
            r.max_level_reached == 1,
    {
        Worm {
            direction: Direction::Right,
            tick_interval: BASE_TICK_INTERVAL,
            elapsed: 0,
            head: Position::origin(),
            segments: Vec::new(),
            level: 1,
            max_level_reached: 1,
        }
    }
    /// Whether the worm is well formed, for callers that Verus does not check.
    pub fn is_well_formed(&self) -> (r: bool)
        ensures
            r == self.wf(),
    {
        if !(position_on_board(self.head) && 1 <= self.level && self.level <= self.max_level_reached) {
            return false;
        }
        let mut i: usize = 0;
        while i < self.segments.len()
            invariant
                0 <= i <= self.segments@.len(),
                forall|j: int| 0 <= j < i ==> in_bounds(#[trigger] self.segments@[j]) && on_grid(
                    self.segments@[j],
                ),
            decreases self.segments@.len() - i,
        {
            if !position_on_board(self.segments[i]) {
                return false;
            }
            i = i + 1;
        }
        true
    }

    /// Gathers `dt` nanoseconds of frame time and says whether a step is due:
    /// once the gathered time reaches the current tick interval. When it is due
    /// the gathered time starts again from zero, with no remainder carried and at
    /// most one step per call; otherwise it grows by `dt`.
    pub fn advance_clock(&mut self, dt: u64) -> (due: bool)
        ensures
            due == step_due(*old(self), dt),
            due ==> final(self).elapsed == 0,
            !due ==> final(self).elapsed == old(self).elapsed + dt,
            same_but_clock(*old(self), *final(self)),
    {
        if self.elapsed >= self.tick_interval || dt >= self.tick_interval - self.elapsed {
            self.elapsed = 0;
            true
        } else {
            self.elapsed = self.elapsed + dt;
            false
        }
    }

    /// Asks for a new direction; a direct reversal of the current one is ignored.
    pub fn set_direction(&mut self, requested: Direction)
        ensures
            final(self).direction == turned(old(self).direction, requested),
            final(self).tick_interval == old(self).tick_interval,
            final(self).elapsed == old(self).elapsed,
            final(self).head == old(self).head,
            final(self).segments@ == old(self).segments@,
            final(self).level == old(self).level,
            final(self).max_level_reached == old(self).max_level_reached,
    {
        self.direction = self.direction.turn(requested);
    }

    /// Applies the directional keys held down this frame: they make one request,
    /// the last held in the order right, left, down, up, and that request goes
    /// through the reversal guard once. A poll never reverses the worm.
    pub fn apply_keys(&mut self, right: bool, left: bool, down: bool, up: bool)
        ensures
            final(self).direction == keys_direction(old(self).direction, right, left, down, up),
            final(self).direction != opposite_of(old(self).direction),
            final(self).tick_interval == old(self).tick_interval,
            final(self).elapsed == old(self).elapsed,
            final(self).head == old(self).head,
            final(self).segments@ == old(self).segments@,
            final(self).level == old(self).level,
            final(self).max_level_reached == old(self).max_level_reached,
    {
        let request = if up {
            Some(Direction::Up)
        } else if down {
            Some(Direction::Down)
        } else if left {
            Some(Direction::Left)
        } else if right {
            Some(Direction::Right)
        } else {
            None
        };
        if let Some(requested) = request {
            self.set_direction(requested);
        }
    }

    /// Whether the highest level reached is worth showing beside the current
    /// one: only when it is higher.
    pub fn shows_max_level(&self) -> (r: bool)
        ensures
            r == (self.max_level_reached > self.level),
    {
        self.max_level_reached > self.level
    }

    /// One movement step with the fruit at `fruit`: the head advances one cell
    /// and wraps; the body shifts behind it, segment by segment, and a segment
    /// that would move onto the new head resets the worm (level one, base
    /// interval, no segments). Otherwise the worm grows at the vacated tail while
    /// shorter than `INITIAL_LENGTH`, and on reaching the fruit it grows once
    /// more, speeds up and goes up a level. The clock is left as it is.
    pub fn step(&mut self, fruit: Position) -> (out: StepOutcome)
        requires
            old(self).wf(),
        ensures
            final(self).wf(),
            stepped(*old(self), *final(self), fruit, out),
            final(self).elapsed == old(self).elapsed,
    {
        let ghost w0 = *self;
        let h = advance(self.head, self.direction);
        self.head = h;
        let n = self.segments.len();
        let mut carry = h;
        let mut i: usize = 0;
        let mut collided = false;
        while i < n
            invariant_except_break
                !collided,
            invariant
                0 <= i <= n,
                n == w0.segments@.len(),
                self.segments@.len() == n,
                self.head == h,
                h == next_head(w0.head, w0.direction),
                in_bounds(h) && on_grid(h),
                w0.wf(),
                self.direction == w0.direction,
                self.tick_interval == w0.tick_interval,
                self.elapsed == w0.elapsed,
                self.level == w0.level,
                self.max_level_reached == w0.max_level_reached,
                forall|j: int| 0 <= j < i ==> #[trigger] self.segments@[j] == if j == 0 {
                    h
                } else {
                    w0.segments@[j - 1]
                },
                forall|j: int| i <= j < n ==> #[trigger] self.segments@[j] == w0.segments@[j],
                carry == if i == 0 {
                    h
                } else {
                    w0.segments@[i - 1]
                },
                forall|j: int| 1 <= j < i ==> #[trigger] w0.segments@[j - 1] != h,
                collided ==> collides(w0.segments@, h),
            ensures
                collided ==> collides(w0.segments@, h),
                !collided ==> i == n,
                !collided ==> forall|j: int| 1 <= j < n ==> #[trigger] w0.segments@[j - 1] != h,
                self.segments@.len() == n,
                self.head == h,
                self.direction == w0.direction,
                self.tick_interval == w0.tick_interval,
                self.elapsed == w0.elapsed,
                self.level == w0.level,
                self.max_level_reached == w0.max_level_reached,
                !collided ==> forall|j: int| 0 <= j < n ==> #[trigger] self.segments@[j] == if j == 0 {
                    h
                } else {
                    w0.segments@[j - 1]
                },
                !collided ==> carry == if n == 0 {
                    h
                } else {
                    w0.segments@[n - 1]
                },
            decreases n - i,
        {
            if i > 0 && carry == h {
                assert(collides(w0.segments@, h)) by {
                    assert(w0.segments@[i as int - 1] == h);
                }
                collided = true;
                break;
            }
            let prev = self.segments[i];
            self.segments.set(i, carry);
            carry = prev;
            i = i + 1;
        }
        if collided {
            self.level = 1;
            self.tick_interval = BASE_TICK_INTERVAL;
            self.segments.clear();
            return StepOutcome::Collided;
        }
        assert(!collides(w0.segments@, h)) by {
            if collides(w0.segments@, h) {
                let k = choose|k: int| 1 <= k < w0.segments@.len() && #[trigger] w0.segments@[k - 1] == h;
                assert(w0.segments@[k - 1] != h);
            }
        }
        assert(self.segments@ =~= shifted(w0.segments@, h));
        assert(carry == vacated(w0.segments@, h));
        if n < INITIAL_LENGTH {
            self.segments.push(carry);
        }
        if h == fruit {
            let t = self.tick_interval as u128;
            let num = SPEED_UP_NUMERATOR as u128;
            let den = SPEED_UP_DENOMINATOR as u128;
            assert(t * num <= 9 * 0xffff_ffff_ffff_ffff && (t * num) as int / den as int <= t) by (nonlinear_arith)
                requires
                    t <= 0xffff_ffff_ffff_ffff,
                    num == 9,
                    den == 10,
            ;
            let slower = t * num / den;
            self.tick_interval = slower as u64;
            if self.level < u32::MAX {
                self.level = self.level + 1;
            }
            if self.level > self.max_level_reached {
                self.max_level_reached = self.level;
            }
            self.segments.push(carry);
            assert(self.segments@ =~= regrown(w0.segments@, h, true));
            StepOutcome::Ate
        } else {
            assert(self.segments@ =~= regrown(w0.segments@, h, false));
            StepOutcome::Moved
        }
    }
}

/// Whether `ws` is a run of movement steps: each worm state follows from the one
/// before it by a step with the fruit at `fruits[i]` and outcome `outs[i]`.
pub open spec fn is_run(ws: Seq<Worm>, fruits: Seq<Position>, outs: Seq<StepOutcome>) -> bool {
    &&& ws.len() == fruits.len() + 1
    &&& outs.len() == fruits.len()
    &&& forall|i: int|
        #![trigger outs[i]]
        0 <= i < fruits.len() ==> stepped(ws[i], ws[i + 1], fruits[i], outs[i])
}

/// A run with its last step taken off is a run.
proof fn lemma_run_prefix(ws: Seq<Worm>, fruits: Seq<Position>, outs: Seq<StepOutcome>)
    requires
        is_run(ws, fruits, outs),
        fruits.len() > 0,
    ensures
        is_run(ws.drop_last(), fruits.drop_last(), outs.drop_last()),
{
    let (ws1, fruits1, outs1) = (ws.drop_last(), fruits.drop_last(), outs.drop_last());
    assert forall|i: int| 0 <= i < fruits1.len() implies stepped(
        ws1[i],
        ws1[i + 1],
        fruits1[i],
        #[trigger] outs1[i],
    ) by {
        assert(outs[i] == outs1[i]);
    }
}

/// A step that neither collides nor grows moves each segment but the foremost
/// to where its predecessor was, and the foremost to the new head.
pub proof fn lemma_shift_follows_leader(w0: Worm, w1: Worm, fruit: Position, out: StepOutcome)
    requires
        stepped(w0, w1, fruit, out),
        out != StepOutcome::Collided,
        w1.segments@.len() == w0.segments@.len(),
    ensures
        forall|i: int| 1 <= i < w1.segments@.len() ==> #[trigger] w1.segments@[i] == w0.segments@[i - 1],
        w1.segments@.len() > 0 ==> w1.segments@[0] == w1.head,
{
}

/// A step in which the shift would move a segment other than the foremost onto
/// the new head resets the worm: level one, the base interval, no segments.
pub proof fn lemma_collision_resets(w0: Worm, w1: Worm, fruit: Position, out: StepOutcome)
    requires
        stepped(w0, w1, fruit, out),
        exists|i: int|
            1 <= i < w0.segments@.len() && #[trigger] w0.segments@[i - 1] == next_head(w0.head, w0.direction),
    ensures
        out == StepOutcome::Collided,
        w1.level == 1,
        w1.tick_interval == BASE_TICK_INTERVAL,
        w1.segments@.len() == 0,
{
}

/// In one step the highest level reached does not fall, and the level falls only
/// through a collision, and then to one.
pub proof fn lemma_levels_one_step(w0: Worm, w1: Worm, fruit: Position, out: StepOutcome)
    requires
        stepped(w0, w1, fruit, out),
    ensures
        w0.max_level_reached <= w1.max_level_reached,
        w1.level < w0.level ==> out == StepOutcome::Collided && w1.level == 1,
{
}

/// Over any run of steps the highest level reached never falls.
pub proof fn lemma_max_level_never_decreases(ws: Seq<Worm>, fruits: Seq<Position>, outs: Seq<StepOutcome>)
    requires
        is_run(ws, fruits, outs),
    ensures
        forall|i: int, j: int|
            0 <= i <= j < ws.len() ==> (#[trigger] ws[i]).max_level_reached <= (#[trigger] ws[j]).max_level_reached,
    decreases fruits.len(),
{
    if fruits.len() > 0 {
        let n = fruits.len() as int;
        lemma_run_prefix(ws, fruits, outs);
        lemma_max_level_never_decreases(ws.drop_last(), fruits.drop_last(), outs.drop_last());
        assert(outs[n - 1] == outs[n - 1]);
        lemma_levels_one_step(ws[n - 1], ws[n], fruits[n - 1], outs[n - 1]);
        assert forall|i: int, j: int| 0 <= i <= j < ws.len() implies (#[trigger] ws[i]).max_level_reached
            <= (#[trigger] ws[j]).max_level_reached by {
            let p = ws.drop_last();
            if j < n {
                assert(p[i] == ws[i] && p[j] == ws[j]);
            } else if i < n {
                assert(p[i] == ws[i] && p[n - 1] == ws[n - 1]);
            }
        }
    }
}

/// Eating a fruit multiplies the tick interval by the speed-up factor, rounded
/// down, which makes a positive interval strictly shorter.
pub proof fn lemma_eating_speeds_up(w0: Worm, w1: Worm, fruit: Position, out: StepOutcome)
    requires
        stepped(w0, w1, fruit, out),
        out == StepOutcome::Ate,
    ensures
        w1.tick_interval as int == w0.tick_interval as int * SPEED_UP_NUMERATOR as int
            / SPEED_UP_DENOMINATOR as int,
        w0.tick_interval > 0 ==> w1.tick_interval < w0.tick_interval,
{
    let t = w0.tick_interval as int;
    assert(0 <= t * 9 / 10 <= t && (t > 0 ==> t * 9 / 10 < t)) by (nonlinear_arith)
        requires
            t >= 0,
    ;
}

/// Over a run without collisions in which the interval stays positive, the
/// tick interval never grows, and after each fruit eaten it is strictly shorter
/// from then on.
#[verifier::spinoff_prover]
#[verifier::rlimit(40)]
pub proof fn lemma_interval_falls_across_meals(ws: Seq<Worm>, fruits: Seq<Position>, outs: Seq<StepOutcome>)
    requires
        is_run(ws, fruits, outs),
        forall|i: int| 0 <= i < outs.len() ==> #[trigger] outs[i] != StepOutcome::Collided,
        forall|i: int| 0 <= i < ws.len() ==> (#[trigger] ws[i]).tick_interval > 0,
    ensures
        forall|i: int, j: int|
            0 <= i <= j < ws.len() ==> (#[trigger] ws[j]).tick_interval <= (#[trigger] ws[i]).tick_interval,
        forall|i: int, j: int|
            0 <= i < j < ws.len() && outs[i] == StepOutcome::Ate ==> (#[trigger] ws[j]).tick_interval
                < (#[trigger] ws[i]).tick_interval,
    decreases fruits.len(),
{
    if fruits.len() > 0 {
        let n = fruits.len() as int;
        let p = ws.drop_last();
        lemma_run_prefix(ws, fruits, outs);
        assert forall|i: int| 0 <= i < outs.drop_last().len() implies #[trigger] outs.drop_last()[i]
            != StepOutcome::Collided by {
            assert(outs.drop_last()[i] == outs[i]);
        }
        assert forall|i: int| 0 <= i < p.len() implies (#[trigger] p[i]).tick_interval > 0 by {
            assert(p[i] == ws[i]);
        }
        lemma_interval_falls_across_meals(p, fruits.drop_last(), outs.drop_last());
        assert(stepped(ws[n - 1], ws[n], fruits[n - 1], outs[n - 1]));
        assert(outs[n - 1] != StepOutcome::Collided);
        if outs[n - 1] == StepOutcome::Ate {
            lemma_eating_speeds_up(ws[n - 1], ws[n], fruits[n - 1], outs[n - 1]);
        }
        assert(ws[n].tick_interval <= ws[n - 1].tick_interval);
        assert forall|i: int, j: int| 0 <= i <= j < ws.len() implies (#[trigger] ws[j]).tick_interval
            <= (#[trigger] ws[i]).tick_interval by {
            if j < n {
                assert(p[i] == ws[i] && p[j] == ws[j]);
            } else if i < n {
                assert(p[i] == ws[i] && p[n - 1] == ws[n - 1]);
            }
        }
        assert forall|i: int, j: int|
            0 <= i < j < ws.len() && outs[i] == StepOutcome::Ate implies (#[trigger] ws[j]).tick_interval
                < (#[trigger] ws[i]).tick_interval by {
            assert(outs.drop_last()[i] == outs[i] || i == n - 1);
            if j < n {
                assert(p[i] == ws[i] && p[j] == ws[j]);
            } else if i < n - 1 {
                assert(outs.drop_last()[i] == outs[i]);
                assert(p[i] == ws[i] && p[n - 1] == ws[n - 1]);
            } else {
                lemma_eating_speeds_up(ws[n - 1], ws[n], fruits[n - 1], outs[n - 1]);
            }
        }
    }
}

} // verus!
