//! The values shared by the client and the server: actions, their states, and
//! the frames that carry them over the network.
//!
//! Floating-point quantities (a frame's time step, a position) are held as the
//! IEEE-754 bit patterns of the `f64` / `f32` values they stand for, so that the
//! logic here can carry them unchanged.

use crate::clock::Timestamp;
use vstd::prelude::*;

verus! {

/// How many actions a player's buffer keeps.
pub const BUFFER_CAPACITY: usize = 32;

/// The UDP port the server listens on.
pub const PORT: usize = 7614;

/// The protocol identifier that client and server must share.
pub const PROTOCOL_ID: u64 = 27;

/// Where an action stands in the client/server round trip.
#[derive(Clone, Copy, Debug, PartialEq, Eq, Structural)]
pub enum ActionState {
    New,
    SentByClient,
    ValidatedByServer,
    InValidatedByServer,
    ProcessedByClient,
}

/// One step of player movement, as recorded on the client.
#[derive(Clone, Copy, Debug, PartialEq, Eq)]
pub struct Movement {
    /// The client tick at which the step was taken.
    pub tick: usize,
    /// Bits of the `f64` time step of the frame.
    pub delta_bits: u64,
    /// The input axes, each in `-1..=1`.
    pub input: (i8, i8),
    /// Bits of the `f32` coordinates of the player after the step.
    pub pos_bits: (u32, u32),
    /// When the step was recorded.
    pub timestamp: Timestamp,
    pub state: ActionState,
}

/// Something a player did.
#[derive(Clone, Copy, Debug, PartialEq, Eq)]
pub enum Action {
    Movement(Movement),
}

/// A batch of actions sent in one network message.
#[derive(Clone, Debug, PartialEq, Eq)]
pub struct Frame {
    pub timestamp: Timestamp,
    pub messages: Vec<Action>,
}

impl Movement {
    /// The movement recorded at `timestamp`, in state `New`.
    pub open spec fn spec_at(
        tick: usize,
        delta_bits: u64,
        input: (i8, i8),
        pos_bits: (u32, u32),
        timestamp: Timestamp,
    ) -> Movement {
        Movement { tick, delta_bits, input, pos_bits, timestamp, state: ActionState::New }
    }

    /// Builds a new movement recorded at the given time.
    pub fn at(
        tick: usize,
        delta_bits: u64,
        input: (i8, i8),
        pos_bits: (u32, u32),
        timestamp: Timestamp,
    ) -> (m: Movement)
        ensures
            m == Movement::spec_at(tick, delta_bits, input, pos_bits, timestamp),
    {
        Movement { tick, delta_bits, input, pos_bits, timestamp, state: ActionState::New }
    }

    /// Builds a new movement stamped with the current time. `None` only when
    /// the system clock reads a time before the Unix epoch.
    pub fn new(tick: usize, delta_bits: u64, input: (i8, i8), pos_bits: (u32, u32)) -> (r: Option<
        Movement,
    >)
        ensures
            r matches Some(m) ==> m == Movement::spec_at(
                tick,
                delta_bits,
                input,
                pos_bits,
                m.timestamp,
            ) && m.timestamp.wf(),
    {
        match Timestamp::now() {
            Some(t) => Some(Movement::at(tick, delta_bits, input, pos_bits, t)),
            None => None,
        }
    }
}

impl Action {
    /// The state of the action.
    pub open spec fn state(self) -> ActionState {
        match self {
            Action::Movement(m) => m.state,
        }
    }

    /// The tick at which the action was recorded.
    pub open spec fn tick(self) -> usize {
        match self {
            Action::Movement(m) => m.tick,
        }
    }

    /// Whether the action carries some input.
    pub open spec fn has_input(self) -> bool {
        match self {
            Action::Movement(m) => !(m.input.0 == 0 && m.input.1 == 0),
        }
    }

    /// The same action, in another state.
    pub open spec fn with_state(self, s: ActionState) -> Action {
        match self {
            Action::Movement(m) => Action::Movement(Movement { state: s, ..m }),
        }
    }

    /// The state of the action.
    pub fn get_state(&self) -> (s: ActionState)
        ensures
            s == self.state(),
    {
        match self {
            Action::Movement(m) => m.state,
        }
    }

    /// Moves the action to another state, leaving everything else as it was.
    pub fn set_state(&mut self, s: ActionState)
        ensures
            *final(self) == old(self).with_state(s),
    {
        match self {
            Action::Movement(m) => {
                m.state = s;
            },
        }
    }
}

/// Changing an action's state changes nothing else: the result has the new
/// state, and its tick, time step, input, position and timestamp are those of
/// the action it came from.
pub proof fn lemma_with_state_changes_only_state(a: Action, s: ActionState)
    ensures
        match (a, a.with_state(s)) {
            (Action::Movement(m), Action::Movement(r)) => {
                &&& r.state == s
                &&& r.tick == m.tick
                &&& r.delta_bits == m.delta_bits
                &&& r.input == m.input
                &&& r.pos_bits == m.pos_bits
                &&& r.timestamp == m.timestamp
            },
        },
        a.with_state(a.state()) == a,
{
}

impl Frame {
    /// The frame of `messages` sent at `timestamp`.
    pub fn at(timestamp: Timestamp, messages: Vec<Action>) -> (f: Frame)
        ensures
            f.timestamp == timestamp,
            f.messages@ == messages@,
    {
        Frame { timestamp, messages }
    }

    /// The frame of `messages`, stamped with the current time. `None` only when
    /// the system clock reads a time before the Unix epoch.
    pub fn new(messages: Vec<Action>) -> (r: Option<Frame>)
        ensures
            r matches Some(f) ==> f.messages@ == messages@ && f.timestamp.wf(),
    {
        match Timestamp::now() {
            Some(t) => Some(Frame::at(t, messages)),
            None => None,
        }
    }
}

} // verus!
