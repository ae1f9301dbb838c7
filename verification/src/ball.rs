//! The balls of a game and their lifecycle.

use vstd::prelude::*;
use crate::world::BodyHandle;

verus! {

/// Number of balls in a rack: the white, the eight, seven reds, seven yellows.
pub const RACK_SIZE: usize = 16;

/// Number of balls in each colour group.
pub const GROUP_SIZE: u8 = 7;

/// The colour of an object ball.
#[derive(Clone, Copy, Debug, PartialEq, Eq, Structural)]
pub enum Color {
    Red,
    Yellow,
}

/// The logical identity of a ball. It stays the same when the ball's body is
/// removed from the physics world and created again.
#[derive(Clone, Copy, Debug, PartialEq, Eq, Structural)]
pub enum BallId {
    White,
    Eight,
    Group(Color, u8),
}

impl BallId {
    /// The identity names a ball of the rack.
    pub open spec fn valid(self) -> bool {
        match self {
            BallId::Group(_, index) => index < GROUP_SIZE,
            _ => true,
        }
    }

    /// The place of the ball in the registry: white, eight, reds, yellows.
    pub open spec fn slot(self) -> int {
        match self {
            BallId::White => 0,
            BallId::Eight => 1,
            BallId::Group(Color::Red, index) => 2 + index,
            BallId::Group(Color::Yellow, index) => 9 + index,
        }
    }

    /// The ball whose place in the registry is `slot`.
    pub open spec fn at(slot: int) -> BallId {
        if slot == 0 {
            BallId::White
        } else if slot == 1 {
            BallId::Eight
        } else if slot < 9 {
            BallId::Group(Color::Red, (slot - 2) as u8)
        } else {
            BallId::Group(Color::Yellow, (slot - 9) as u8)
        }
    }

    /// Identities and places correspond one to one.
    pub proof fn lemma_slots()
        ensures
            forall|id: BallId| #[trigger]
                id.valid() ==> 0 <= id.slot() < RACK_SIZE && BallId::at(id.slot()) == id,
            forall|slot: int|
                0 <= slot < RACK_SIZE ==> (#[trigger] BallId::at(slot)).valid() && BallId::at(
                    slot,
                ).slot() == slot,
    {
    }

    pub fn is_valid(&self) -> (r: bool)
        ensures
            r == self.valid(),
    {
        match self {
            BallId::Group(_, index) => *index < GROUP_SIZE,
            _ => true,
        }
    }

    /// The place of the ball in the registry.
    pub fn index(&self) -> (slot: usize)
        requires
            self.valid(),
        ensures
            slot == self.slot(),
            slot < RACK_SIZE,
    {
        match self {
            BallId::White => 0,
            BallId::Eight => 1,
            BallId::Group(Color::Red, index) => 2 + *index as usize,
            BallId::Group(Color::Yellow, index) => 9 + *index as usize,
        }
    }

    /// The ball whose place in the registry is `slot`.
    pub fn from_index(slot: usize) -> (id: BallId)
        requires
            slot < RACK_SIZE,
        ensures
            id == BallId::at(slot as int),
            id.valid(),
    {
        if slot == 0 {
            BallId::White
        } else if slot == 1 {
            BallId::Eight
        } else if slot < 9 {
            BallId::Group(Color::Red, (slot - 2) as u8)
        } else {
            BallId::Group(Color::Yellow, (slot - 9) as u8)
        }
    }
}

/// Where a ball stands in its lifecycle.
#[derive(Clone, Copy, Debug, PartialEq, Eq, Structural)]
pub enum BallState {
    /// Simulated as a dynamic body on the table.
    InPlay,
    /// Removed from play for good.
    Pocketed,
    /// Removed from play until it is placed on the table again. Only the
    /// white ball is ever in this state.
    AwaitingRespawn,
}

/// One ball of the registry.
#[derive(Clone, Copy, Debug, PartialEq, Eq, Structural)]
pub struct Ball {
    pub id: BallId,
    pub body: Option<BodyHandle>,
    pub state: BallState,
}

impl Ball {
    /// The ball has a body exactly while it is in play, and only the white
    /// ball waits for a respawn.
    pub open spec fn wf(self) -> bool {
        &&& self.id.valid()
        &&& self.body is Some <==> self.state == BallState::InPlay
        &&& self.id == BallId::White ==> self.state != BallState::Pocketed
        &&& self.id != BallId::White ==> self.state != BallState::AwaitingRespawn
    }

    /// The state a ball of this identity has once it left the table.
    pub open spec fn state_off_table(id: BallId) -> BallState {
        if id == BallId::White {
            BallState::AwaitingRespawn
        } else {
            BallState::Pocketed
        }
    }

    /// The ball as it is in play with the given body.
    pub open spec fn in_play(id: BallId, body: BodyHandle) -> Ball {
        Ball { id, body: Some(body), state: BallState::InPlay }
    }

    /// The ball as it is once it left the table.
    pub open spec fn off_table(id: BallId) -> Ball {
        Ball { id, body: None, state: Ball::state_off_table(id) }
    }
}

} // verus!
