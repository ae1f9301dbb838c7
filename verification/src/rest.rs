//! The rest of the table: which balls still move, the stabilizer that stops
//! the residual motion of a ball that fell asleep, and the shot, which is
//! struck only on a table at rest.

use vstd::prelude::*;
use crate::ball::{BallId, BallState};
use crate::scalar::{units, Scalar, Vector};
use crate::model::{holds, TableModel};
use crate::table::PoolTable;
use crate::world::{BodyHandle, Command};

verus! {

/// A velocity whose two components are both below this many units is
/// residual motion.
pub const REST_THRESHOLD: u32 = 150;

/// What the physics engine reports of one body after a step.
#[derive(Clone, Copy, Debug, PartialEq, Eq, Structural)]
pub struct BodyReading {
    pub body: BodyHandle,
    /// The engine simulates the body: it is not asleep.
    pub active: bool,
    /// The linear velocity of the body.
    pub velocity: Vector,
}

/// Some reading reports `body` as active.
pub open spec fn reported_active(readings: Seq<BodyReading>, body: BodyHandle) -> bool {
    exists|k: int|
        0 <= k < readings.len() && (#[trigger] readings[k]).body == body && readings[k].active
}

/// The velocity that stops a body.
pub open spec fn halt() -> Vector {
    Vector { x: Scalar { bits: 0 }, y: Scalar { bits: 0 } }
}

impl TableModel {
    /// The ball at place `slot` is in play and reported as active.
    pub open spec fn moves(self, readings: Seq<BodyReading>, slot: int) -> bool {
        &&& 0 <= slot < self.balls.len()
        &&& self.balls[slot].body matches Some(body)
        &&& reported_active(readings, body)
    }

    /// Some ball in play is reported as active.
    pub open spec fn has_force(self, readings: Seq<BodyReading>) -> bool {
        exists|slot: int| self.moves(readings, slot)
    }

    /// The reading is of a ball in play that fell asleep with a velocity that
    /// is not zero and below the threshold in both components.
    pub open spec fn needs_rest(self, reading: BodyReading) -> bool {
        &&& self.owner(reading.body) is Some
        &&& !reading.active
        &&& !reading.velocity.at_rest()
        &&& reading.velocity.below(units(REST_THRESHOLD as int))
    }

    /// The table after the stabilizer saw one reading.
    pub open spec fn speed_up_inactive_ball(self, reading: BodyReading) -> TableModel {
        if self.needs_rest(reading) {
            self.set_velocity(reading.body, halt())
        } else {
            self
        }
    }

    /// The command, if any, that the stabilizer issues for a reading.
    pub open spec fn rest_entry(self) -> spec_fn(BodyReading) -> Option<Command> {
        |reading: BodyReading|
            if self.needs_rest(reading) {
                Some(Command::SetVelocity { body: reading.body, velocity: halt() })
            } else {
                None
            }
    }

    /// The table after the stabilizer saw the readings, in their order.
    pub open spec fn speed_up_inactive_balls(self, readings: Seq<BodyReading>) -> TableModel {
        self.append(readings.filter_map(self.rest_entry()))
    }

    /// The velocity of the body of a reading once the stabilizer has run.
    pub open spec fn velocity_after(self, reading: BodyReading) -> Vector {
        if self.needs_rest(reading) {
            halt()
        } else {
            reading.velocity
        }
    }

    /// The table at the end of a step: the stabilizer runs while some ball
    /// still moves.
    pub open spec fn settle(self, readings: Seq<BodyReading>) -> TableModel {
        if self.has_force(readings) {
            self.speed_up_inactive_balls(readings)
        } else {
            self
        }
    }

    /// A shot can be struck: the table is at rest and the white ball is in
    /// play.
    pub open spec fn can_shoot(self, readings: Seq<BodyReading>) -> bool {
        &&& self.racked()
        &&& !self.has_force(readings)
        &&& self.ball(BallId::White).body is Some
    }

    /// The table after a shot was asked for: the white ball is given the
    /// velocity where a shot can be struck, and nothing happens where not.
    pub open spec fn shoot(self, readings: Seq<BodyReading>, velocity: Vector) -> TableModel {
        if self.can_shoot(readings) {
            self.set_velocity(self.ball(BallId::White).body->Some_0, velocity)
        } else {
            self
        }
    }

    /// The white ball is to be placed on its spot again: the table is at rest
    /// and the ball waits for it.
    pub open spec fn respawn_due(self, readings: Seq<BodyReading>) -> bool {
        &&& self.racked()
        &&& !self.has_force(readings)
        &&& self.ball(BallId::White).state == BallState::AwaitingRespawn
    }

    /// The table once the cue ball was asked for.
    pub open spec fn cue_ball(self, readings: Seq<BodyReading>) -> TableModel {
        if self.respawn_due(readings) {
            self.respawn_white()
        } else {
            self
        }
    }
}

impl PoolTable {
    /// Whether the engine reports the body as active. No body is not active.
    pub fn is_active(&self, handle: Option<BodyHandle>, readings: &Vec<BodyReading>) -> (r: bool)
        ensures
            r == (handle matches Some(body) && reported_active(readings@, body)),
    {
        if let Some(ball) = handle {
            let mut k: usize = 0;
            while k < readings.len()
                invariant
                    k <= readings.len(),
                    handle == Some(ball),
                    forall|j: int|
                        0 <= j < k ==> !((#[trigger] readings@[j]).body == ball
                            && readings@[j].active),
                decreases readings.len() - k,
            {
                if readings[k].body == ball && readings[k].active {
                    assert(readings@[k as int].body == ball && readings@[k as int].active);
                    return true;
                }
                k = k + 1;
            }
        }
        false
    }

    /// Whether any ball in play still moves: the rest invariant fails.
    pub fn has_force(&self, readings: &Vec<BodyReading>) -> (r: bool)
        ensures
            r == self@.has_force(readings@),
    {
        let balls = self.balls();
        let mut slot: usize = 0;
        while slot < balls.len()
            invariant
                slot <= balls.len(),
                balls@ == self@.balls,
                forall|j: int| 0 <= j < slot ==> !self@.moves(readings@, j),
            decreases balls.len() - slot,
        {
            if self.is_active(balls[slot].body, readings) {
                assert(self@.moves(readings@, slot as int));
                return true;
            }
            slot = slot + 1;
        }
        false
    }

    /// Stops the body of a reading where it is residual motion: the body of a
    /// ball in play that fell asleep with a velocity that is not zero and
    /// below the threshold in both components.
    pub fn speed_up_inactive_ball(&mut self, reading: &BodyReading)
        requires
            old(self)@.wf(),
        ensures
            final(self)@ == old(self)@.speed_up_inactive_ball(*reading),
            final(self)@.wf(),
    {
        if reading.active || self.ball_with_body(reading.body).is_none() {
            return;
        }
        let vel = reading.velocity;
        if vel.is_zero() {
            return;
        }
        let threshold = Scalar::from_whole(REST_THRESHOLD);
        if vel.is_within(&threshold) {
            self.set_velocity(reading.body, Vector::zero());
        }
    }

    /// Runs the stabilizer over the readings of one step.
    pub fn speed_up_inactive_balls(&mut self, readings: &Vec<BodyReading>)
        requires
            old(self)@.wf(),
        ensures
            final(self)@ == old(self)@.speed_up_inactive_balls(readings@),
            final(self)@.wf(),
    {
        let mut k: usize = 0;
        proof {
            assert(old(self)@.append(Seq::empty()) == old(self)@) by {
                assert(old(self)@.world.commands + Seq::<Command>::empty()
                    =~= old(self)@.world.commands);
            }
        }
        while k < readings.len()
            invariant
                k <= readings.len(),
                self@.wf(),
                old(self)@.wf(),
                self@ == old(self)@.append(
                    readings@.take(k as int).filter_map(old(self)@.rest_entry()),
                ),
            decreases readings.len() - k,
        {
            proof {
                let reading = readings@[k as int];
                readings@.lemma_filter_map_take_succ(old(self)@.rest_entry(), k as int);
                assert(self@.balls == old(self)@.balls);
                assert(self@.owner(reading.body) == old(self)@.owner(reading.body));
                if self@.owner(reading.body) is Some {
                    let slot = choose|slot: int| holds(self@.balls, slot, reading.body);
                    assert(self@.balls[slot].body == Some(reading.body));
                    assert(self@.world.bodies.contains(reading.body));
                }
                old(self)@.lemma_append_twice(
                    readings@.take(k as int).filter_map(old(self)@.rest_entry()),
                    match (old(self)@.rest_entry())(reading) {
                        Some(command) => seq![command],
                        None => Seq::empty(),
                    },
                );
            }
            self.speed_up_inactive_ball(&readings[k]);
            k = k + 1;
        }
        proof {
            assert(readings@.take(readings@.len() as int) == readings@);
        }
    }

    /// Ends a step: runs the stabilizer if some ball still moves.
    pub fn settle(&mut self, readings: &Vec<BodyReading>)
        requires
            old(self)@.wf(),
        ensures
            final(self)@ == old(self)@.settle(readings@),
            final(self)@.wf(),
    {
        if self.has_force(readings) {
            self.speed_up_inactive_balls(readings);
        }
    }

    /// The body of the white ball, against which the cue is aimed, once the
    /// table is at rest. A white ball that waits for its respawn is placed on
    /// its spot first. While a ball still moves there is no cue ball.
    pub fn cue_ball(&mut self, readings: &Vec<BodyReading>) -> (cue: Option<BodyHandle>)
        requires
            old(self)@.wf(),
            old(self)@.world.next < u64::MAX,
        ensures
            final(self)@ == old(self)@.cue_ball(readings@),
            final(self)@.wf(),
            cue == if old(self)@.racked() && !old(self)@.has_force(readings@) {
                final(self)@.ball(BallId::White).body
            } else {
                None
            },
            old(self)@.racked() && !old(self)@.has_force(readings@) ==> cue is Some,
    {
        if !self.is_racked() || self.has_force(readings) {
            return None;
        }
        let white = self.ball(BallId::White);
        match white.body {
            Some(body) => Some(body),
            None => {
                self.respawn_white();
                self.ball(BallId::White).body
            },
        }
    }

    /// Strikes the white ball: gives it the velocity `(cane_force_x,
    /// cane_force_y)`. The shot is refused, and nothing happens, while a
    /// ball still moves or the white ball is not in play.
    pub fn shoot(
        &mut self,
        readings: &Vec<BodyReading>,
        cane_force_x: Scalar,
        cane_force_y: Scalar,
    ) -> (struck: bool)
        requires
            old(self)@.wf(),
        ensures
            struck == old(self)@.can_shoot(readings@),
            final(self)@ == old(self)@.shoot(
                readings@,
                Vector { x: cane_force_x, y: cane_force_y },
            ),
            final(self)@.wf(),
    {
        if !self.is_racked() || self.has_force(readings) {
            return false;
        }
        match self.ball(BallId::White).body {
            Some(body) => {
                self.set_velocity(body, Vector::new(cane_force_x, cane_force_y));
                true
            },
            None => false,
        }
    }
}

} // verus!
