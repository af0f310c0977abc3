//! The state a player keeps on the client, and the decisions of one physics step.

use crate::clock::Timestamp;
use crate::common::{Action, ActionState, Movement, BUFFER_CAPACITY};
use crate::ring::{pushed, ActionBuffer};
use vstd::prelude::*;

verus! {

/// Bits of the `f32` value `100.0`, the speed every player starts with.
pub const DEFAULT_SPEED_BITS: u32 = 0x42C8_0000;

/// The logic state of a player: its speed, the physics tick it is at, which
/// way it faces, and the movements it recorded, oldest first.
pub struct Player {
    /// Bits of the `f32` speed.
    pub speed_bits: u32,
    pub tick: usize,
    pub facing_right: bool,
    pub actions: ActionBuffer,
}

/// What a physics step does with the animation and the sprite.
#[derive(Clone, Copy, Debug, PartialEq, Eq, Structural)]
pub enum StepPlan {
    /// No input: play the idle animation, do not move.
    Idle,
    /// Some input: play the run animation, flip the sprite horizontally when
    /// `flip_h`, then move.
    Run { flip_h: bool },
}

/// The value of one input axis: `-1` when only the negative key is held, `1`
/// when only the positive one is, `0` otherwise.
pub open spec fn axis(negative: bool, positive: bool) -> i8 {
    if negative && !positive {
        -1i8
    } else if positive && !negative {
        1i8
    } else {
        0i8
    }
}

/// Which way a player faces after an input along `x`: left for a negative
/// input, right for a positive one, unchanged otherwise.
pub open spec fn next_facing(facing_right: bool, x: i8) -> bool {
    if x < 0 {
        false
    } else if x > 0 {
        true
    } else {
        facing_right
    }
}

/// The plan of a physics step of a player facing `facing_right` (before the
/// step) for `input`.
pub open spec fn plan_of(facing_right: bool, input: (i8, i8)) -> StepPlan {
    if input.0 == 0 && input.1 == 0 {
        StepPlan::Idle
    } else {
        StepPlan::Run { flip_h: !next_facing(facing_right, input.0) }
    }
}

/// The history a player's actions keep between physics steps, given the tick
/// `bound` that every recorded tick lies below: at most `BUFFER_CAPACITY`
/// actions, each with some input and not yet past `SentByClient`, their ticks
/// strictly increasing and below `bound`.
pub open spec fn history_ok(s: Seq<Action>, bound: int) -> bool {
    &&& s.len() <= BUFFER_CAPACITY
    &&& forall|i: int| 0 <= i < s.len() ==> (#[trigger] s[i]).has_input()
    &&& forall|i: int|
        0 <= i < s.len() ==> (#[trigger] s[i]).state() == ActionState::New || s[i].state()
            == ActionState::SentByClient
    &&& forall|i: int, j: int| 0 <= i < j < s.len() ==> (#[trigger] s[i]).tick() < (#[trigger] s[j]).tick()
    &&& forall|i: int| 0 <= i < s.len() ==> (#[trigger] s[i]).tick() < bound
}

/// A step that records a movement with some input, taken at tick `tick`,
/// keeps the history, now bounded by the next tick.
pub proof fn lemma_record_keeps_history(s: Seq<Action>, tick: int, a: Action)
    requires
        history_ok(s, tick),
        a.has_input(),
        a.state() == ActionState::New,
        a.tick() == tick,
    ensures
        history_ok(pushed(s, BUFFER_CAPACITY as nat, a), tick + 1),
{
    let r = pushed(s, BUFFER_CAPACITY as nat, a);
    if s.len() >= BUFFER_CAPACITY {
        let d = s.drop_first();
        assert(r =~= d.push(a));
        assert forall|i: int, j: int| 0 <= i < j < r.len() implies (#[trigger] r[i]).tick() < (
        #[trigger] r[j]).tick() by {
            if j < r.len() - 1 {
                assert(r[i] == s[i + 1] && r[j] == s[j + 1]);
            } else {
                assert(r[i] == s[i + 1]);
            }
        }
        assert forall|i: int| 0 <= i < r.len() implies (#[trigger] r[i]).has_input() && (r[i].state()
            == ActionState::New || r[i].state() == ActionState::SentByClient) && r[i].tick() < tick
            + 1 by {
            if i < r.len() - 1 {
                assert(r[i] == s[i + 1]);
            }
        }
    } else {
        assert(r =~= s.push(a));
        assert forall|i: int, j: int| 0 <= i < j < r.len() implies (#[trigger] r[i]).tick() < (
        #[trigger] r[j]).tick() by {
            if j < r.len() - 1 {
                assert(r[i] == s[i] && r[j] == s[j]);
            } else {
                assert(r[i] == s[i]);
            }
        }
        assert forall|i: int| 0 <= i < r.len() implies (#[trigger] r[i]).has_input() && (r[i].state()
            == ActionState::New || r[i].state() == ActionState::SentByClient) && r[i].tick() < tick
            + 1 by {
            if i < r.len() - 1 {
                assert(r[i] == s[i]);
            }
        }
    }
}

/// A step without a recorded movement keeps the history, now bounded by the
/// next tick.
pub proof fn lemma_idle_keeps_history(s: Seq<Action>, tick: int)
    requires
        history_ok(s, tick),
    ensures
        history_ok(s, tick + 1),
{
}

/// Turns the four direction keys into input axes `(x, y)`; `y` grows downwards.
pub fn input_axes(left: bool, right: bool, up: bool, down: bool) -> (r: (i8, i8))
    ensures
        r == (axis(left, right), axis(up, down)),
        -1 <= r.0 <= 1,
        -1 <= r.1 <= 1,
{
    let mut x: i8 = 0;
    let mut y: i8 = 0;
    if left {
        x = x - 1;
    }
    if right {
        x = x + 1;
    }
    if up {
        y = y - 1;
    }
    if down {
        y = y + 1;
    }
    (x, y)
}

impl Player {
    /// Well formed: the action buffer is well formed, with the shared capacity.
    pub open spec fn wf(&self) -> bool {
        &&& self.actions.wf()
        &&& self.actions.capacity() == BUFFER_CAPACITY
    }

    /// The player's actions keep their history, bounded by the current tick.
    pub open spec fn history_ok(&self) -> bool {
        history_ok(self.actions@, self.tick as int)
    }

    /// A player at tick 0, facing right, at the default speed, with no actions.
    pub fn new() -> (p: Player)
        ensures
            p.wf(),
            p.speed_bits == DEFAULT_SPEED_BITS,
            p.tick == 0,
            p.facing_right,
            p.actions@ == Seq::<Action>::empty(),
            p.history_ok(),
    {
        Player {
            speed_bits: DEFAULT_SPEED_BITS,
            tick: 0,
            facing_right: true,
            actions: ActionBuffer::new(BUFFER_CAPACITY),
        }
    }

    /// Decides the animation of a physics step and turns the player towards its
    /// horizontal input. Without input nothing changes.
    pub fn plan_step(&mut self, input: (i8, i8)) -> (plan: StepPlan)
        ensures
            plan == plan_of(old(self).facing_right, input),
            final(self).facing_right == (if input.0 == 0 && input.1 == 0 {
                old(self).facing_right
            } else {
                next_facing(old(self).facing_right, input.0)
            }),
            final(self).speed_bits == old(self).speed_bits,
            final(self).tick == old(self).tick,
            final(self).actions == old(self).actions,
            plan matches StepPlan::Run { flip_h } ==> flip_h == !final(self).facing_right,
            old(self).history_ok() ==> final(self).history_ok(),
    {
        if input.0 == 0 && input.1 == 0 {
            StepPlan::Idle
        } else {
            if self.facing_right && input.0 < 0 {
                self.facing_right = false;
            } else if !self.facing_right && input.0 > 0 {
                self.facing_right = true;
            }
            StepPlan::Run { flip_h: !self.facing_right }
        }
    }

    /// Records the movement of this tick, taken at `timestamp`: it is appended
    /// to the actions, dropping the oldest one when the buffer is full.
    pub fn record_movement_at(
        &mut self,
        delta_bits: u64,
        input: (i8, i8),
        pos_bits: (u32, u32),
        timestamp: Timestamp,
    )
        requires
            old(self).wf(),
        ensures
            final(self).wf(),
            final(self).actions@ == pushed(
                old(self).actions@,
                BUFFER_CAPACITY as nat,
                Action::Movement(
                    Movement::spec_at(old(self).tick, delta_bits, input, pos_bits, timestamp),
                ),
            ),
            final(self).tick == old(self).tick,
            final(self).facing_right == old(self).facing_right,
            final(self).speed_bits == old(self).speed_bits,
            old(self).history_ok() && !(input.0 == 0 && input.1 == 0) ==> history_ok(
                final(self).actions@,
                old(self).tick + 1,
            ),
    {
        let m = Movement::at(self.tick, delta_bits, input, pos_bits, timestamp);
        self.actions.push(Action::Movement(m));
        proof {
            if old(self).history_ok() && !(input.0 == 0 && input.1 == 0) {
                lemma_record_keeps_history(
                    old(self).actions@,
                    old(self).tick as int,
                    Action::Movement(m),
                );
            }
        }
    }

    /// Records the movement of this tick, stamped with the current time. Returns
    /// `false`, and records nothing, only when the system clock reads a time
    /// before the Unix epoch.
    pub fn record_movement(&mut self, delta_bits: u64, input: (i8, i8), pos_bits: (u32, u32)) -> (recorded:
        bool)
        requires
            old(self).wf(),
        ensures
            final(self).wf(),
            final(self).tick == old(self).tick,
            final(self).facing_right == old(self).facing_right,
            final(self).speed_bits == old(self).speed_bits,
            !recorded ==> final(self).actions@ == old(self).actions@,
            recorded ==> exists|t: Timestamp|
                t.wf() && final(self).actions@ == pushed(
                    old(self).actions@,
                    BUFFER_CAPACITY as nat,
                    Action::Movement(
                        #[trigger] Movement::spec_at(old(self).tick, delta_bits, input, pos_bits, t),
                    ),
                ),
            old(self).history_ok() && !(input.0 == 0 && input.1 == 0) ==> history_ok(
                final(self).actions@,
                old(self).tick + 1,
            ),
    {
        match Timestamp::now() {
            Some(t) => {
                self.record_movement_at(delta_bits, input, pos_bits, t);
                true
            },
            None => false,
        }
    }

    /// Ends the physics step: the player moves to the next tick.
    pub fn end_tick(&mut self)
        requires
            old(self).tick < usize::MAX,
        ensures
            final(self).tick == old(self).tick + 1,
            final(self).facing_right == old(self).facing_right,
            final(self).speed_bits == old(self).speed_bits,
            final(self).actions == old(self).actions,
            history_ok(old(self).actions@, old(self).tick + 1) ==> final(self).history_ok(),
    {
        self.tick = self.tick + 1;
    }
}

/// Facing follows the last horizontal input: after a step with input to the
/// left the player faces left, after one to the right it faces right, and the
/// sprite is flipped exactly when it faces left.
pub proof fn lemma_facing_follows_input(facing_right: bool, input: (i8, i8))
    ensures
        input.0 < 0 ==> plan_of(facing_right, input) == (StepPlan::Run { flip_h: true }),
        input.0 > 0 ==> plan_of(facing_right, input) == (StepPlan::Run { flip_h: false }),
        input.0 == 0 && input.1 != 0 ==> plan_of(facing_right, input) == (StepPlan::Run {
            flip_h: !facing_right,
        }),
{
}

} // verus!
