//! The pool table: the registry of its balls and the bodies that stand for
//! its pockets, cushions and balls in the physics world.

use vstd::prelude::*;
use crate::ball::{Ball, BallId, BallState, Color, RACK_SIZE};
use crate::gravity::ZGravity;
use crate::layout::{BALL_SIZE, BORDER, HEIGHT, HOLE_SIZE, MARGIN_LEFT, MARGIN_TOP, WIDTH};
use crate::model::{holds, TableModel};
use crate::scalar::Vector;
use crate::world::{BodyHandle, BodyKind, Command, World};

verus! {

/// The pool table.
pub struct PoolTable {
    world: World,
    z_gravity: ZGravity,
    holes: Vec<BodyHandle>,
    bounds: Vec<BodyHandle>,
    balls: Vec<Ball>,
}

impl View for PoolTable {
    type V = TableModel;

    closed spec fn view(&self) -> TableModel {
        TableModel {
            world: self.world@,
            z_gravity: self.z_gravity,
            holes: self.holes@,
            bounds: self.bounds@,
            balls: self.balls@,
        }
    }
}

impl PoolTable {
    /// A table without pockets, cushions or balls.
    pub fn new() -> (table: PoolTable)
        ensures
            table@ == TableModel::empty(),
            table@.wf(),
    {
        PoolTable {
            world: World::new(),
            z_gravity: ZGravity::new(),
            holes: Vec::with_capacity(6),
            bounds: Vec::new(),
            balls: Vec::new(),
        }
    }

    /// Whether `count` more bodies can be given a handle.
    pub fn has_room(&self, count: u64) -> (r: bool)
        ensures
            r == (self@.world.next + count <= u64::MAX),
    {
        self.world.has_room(count)
    }

    /// Whether the rack was set.
    pub fn is_racked(&self) -> (r: bool)
        ensures
            r == self@.racked(),
    {
        self.balls.len() == RACK_SIZE
    }

    /// The ball `id` as the registry holds it.
    pub fn ball(&self, id: BallId) -> (ball: Ball)
        requires
            self@.knows(id),
        ensures
            ball == self@.ball(id),
    {
        self.balls[id.index()]
    }

    /// The ball in play whose body is `body`, if there is one.
    pub fn ball_with_body(&self, body: BodyHandle) -> (id: Option<BallId>)
        requires
            self@.wf(),
        ensures
            id == self@.owner(body),
            id matches Some(found) ==> self@.knows(found) && self@.ball(found).body == Some(body),
    {
        let mut slot: usize = 0;
        while slot < self.balls.len()
            invariant
                slot <= self.balls.len(),
                self@.wf(),
                forall|j: int| 0 <= j < slot ==> !holds(self@.balls, j, body),
            decreases self.balls.len() - slot,
        {
            let ball = self.balls[slot];
            let found = match ball.body {
                Some(other) => other == body,
                None => false,
            };
            if found {
                proof {
                    self@.lemma_owner(slot as int, body);
                }
                return Some(ball.id);
            }
            slot = slot + 1;
        }
        None
    }

    /// Whether `body` is a pocket sensor.
    pub fn is_hole(&self, body: BodyHandle) -> (r: bool)
        ensures
            r == self@.holes.contains(body),
    {
        let mut k: usize = 0;
        while k < self.holes.len()
            invariant
                k <= self.holes.len(),
                forall|j: int| 0 <= j < k ==> self.holes@[j] != body,
            decreases self.holes.len() - k,
        {
            if self.holes[k] == body {
                return true;
            }
            k = k + 1;
        }
        false
    }

    /// The balls in play with their bodies: white, eight, reds, yellows.
    pub fn all_in_play(&self) -> (list: Vec<(BallId, BodyHandle)>)
        ensures
            list@ == self@.all_in_play(),
    {
        let mut list: Vec<(BallId, BodyHandle)> = Vec::new();
        let mut slot: usize = 0;
        while slot < self.balls.len()
            invariant
                slot <= self.balls.len(),
                list@ == self.balls@.take(slot as int).filter_map(TableModel::in_play_entry()),
            decreases self.balls.len() - slot,
        {
            let ball = self.balls[slot];
            proof {
                self.balls@.lemma_filter_map_take_succ(TableModel::in_play_entry(), slot as int);
            }
            if let Some(body) = ball.body {
                list.push((ball.id, body));
            }
            slot = slot + 1;
        }
        proof {
            assert(self.balls@.take(self.balls@.len() as int) == self.balls@);
        }
        list
    }

    /// The balls of the registry: white, eight, reds, yellows.
    pub fn balls(&self) -> (list: &Vec<Ball>)
        ensures
            list@ == self@.balls,
    {
        &self.balls
    }

    /// A copy of every ball of the registry with its state, for drawing.
    pub fn snapshot(&self) -> (list: Vec<Ball>)
        ensures
            list@ == self@.balls,
    {
        let mut list: Vec<Ball> = Vec::new();
        let mut slot: usize = 0;
        while slot < self.balls.len()
            invariant
                slot <= self.balls.len(),
                list@ == self.balls@.take(slot as int),
            decreases self.balls.len() - slot,
        {
            list.push(self.balls[slot]);
            slot = slot + 1;
        }
        list
    }

    /// The pocket sensors, in the order of their creation.
    pub fn holes(&self) -> (list: &Vec<BodyHandle>)
        ensures
            list@ == self@.holes,
    {
        &self.holes
    }

    /// The cushions, in the order of their creation.
    pub fn bounds(&self) -> (list: &Vec<BodyHandle>)
        ensures
            list@ == self@.bounds,
    {
        &self.bounds
    }

    /// The drag model of the table.
    pub fn z_gravity(&self) -> (gravity: ZGravity)
        ensures
            gravity == self@.z_gravity,
    {
        self.z_gravity
    }

    /// Whether every ball has a body exactly while it is in play.
    pub fn bodies_match_states(&self) -> (r: bool)
        ensures
            r == (forall|slot: int|
                0 <= slot < self@.balls.len() ==> ((#[trigger] self@.balls[slot]).body is Some
                    <==> self@.balls[slot].state == BallState::InPlay)),
            self@.wf() ==> r,
    {
        let mut slot: usize = 0;
        while slot < self.balls.len()
            invariant
                slot <= self.balls.len(),
                forall|j: int|
                    0 <= j < slot ==> ((#[trigger] self.balls@[j]).body is Some
                        <==> self.balls@[j].state == BallState::InPlay),
            decreases self.balls.len() - slot,
        {
            let ball = self.balls[slot];
            let in_play = match ball.state {
                BallState::InPlay => true,
                _ => false,
            };
            if ball.body.is_some() != in_play {
                proof {
                    if self@.wf() {
                        assert(self@.balls[slot as int].wf());
                    }
                }
                return false;
            }
            slot = slot + 1;
        }
        true
    }

    /// Hands over the commands recorded since the last call, oldest first.
    pub fn take_commands(&mut self) -> (commands: Vec<Command>)
        ensures
            commands@ == old(self)@.world.commands,
            final(self)@ == old(self)@.drained(),
    {
        self.world.take_commands()
    }

    /// Adds the body of a ball whose centre is at `(x, y)`. The body belongs
    /// to no ball of the registry.
    pub fn add_ball(&mut self, x: u32, y: u32) -> (body: BodyHandle)
        requires
            old(self)@.wf(),
            old(self)@.world.next < u64::MAX,
        ensures
            body == old(self)@.world.fresh(),
            final(self)@ == old(self)@.add_ball(x, y),
            final(self)@.wf(),
    {
        let body = self.world.add_body(BodyKind::Ball { x, y, radius: BALL_SIZE });
        proof {
            TableModel::lemma_grown(old(self)@, self@);
        }
        body
    }

    /// Adds a pocket sensor whose centre is at `(x, y)`. The sensor is
    /// smaller than the pocket as it is drawn, by half the width of a ball:
    /// a ball is pocketed once it has entered the pocket that far.
    pub fn add_hole(&mut self, x: u32, y: u32)
        requires
            old(self)@.wf(),
            old(self)@.world.next < u64::MAX,
        ensures
            final(self)@ == old(self)@.add_hole(
                BodyKind::Hole { x, y, radius: (HOLE_SIZE - BALL_SIZE / 2) as u32 },
            ),
            final(self)@.wf(),
    {
        let kind = BodyKind::Hole { x, y, radius: HOLE_SIZE - BALL_SIZE / 2 };
        let hole = self.world.add_body(kind);
        self.holes.push(hole);
        proof {
            TableModel::lemma_grown(old(self)@, self@);
        }
    }

    /// Adds a cushion, given by its centre and its half extents.
    pub fn add_bound(&mut self, center_x: u32, center_y: u32, width: u32, height: u32)
        requires
            old(self)@.wf(),
            old(self)@.world.next < u64::MAX,
        ensures
            final(self)@ == old(self)@.add_bound(
                BodyKind::Bound { center_x, center_y, half_width: width, half_height: height },
            ),
            final(self)@.wf(),
    {
        let kind = BodyKind::Bound { center_x, center_y, half_width: width, half_height: height };
        let bound = self.world.add_body(kind);
        self.bounds.push(bound);
        proof {
            TableModel::lemma_grown(old(self)@, self@);
        }
    }

    /// Sets the rack: creates the body of the white ball on its spot and the
    /// bodies of the fifteen object balls in a triangle, and registers every
    /// ball as in play.
    #[verifier::rlimit(30)]
    pub fn initialize_balls(&mut self)
        requires
            old(self)@.wf(),
            !old(self)@.racked(),
            old(self)@.world.next + 16 <= u64::MAX,
        ensures
            final(self)@ == old(self)@.rack(),
            final(self)@.wf(),
    {
        let center_y: u32 = MARGIN_TOP + BORDER + HEIGHT / 2;
        let white_ball_handle = self.add_ball(MARGIN_LEFT + BORDER + WIDTH / 4, center_y);

        let center_x: u32 = MARGIN_LEFT + BORDER + WIDTH * 3 / 4;

        //     r
        let ball_r1 = self.add_ball(center_x - 4 * BALL_SIZE, center_y);

        //    y r
        let ball_r2 = self.add_ball(center_x - 2 * BALL_SIZE, center_y - BALL_SIZE);
        let ball_y1 = self.add_ball(center_x - 2 * BALL_SIZE, center_y + BALL_SIZE);

        //   r b y
        let ball_y2 = self.add_ball(center_x, center_y - 2 * BALL_SIZE);
        let ball_8_handle = self.add_ball(center_x, center_y);
        let ball_r3 = self.add_ball(center_x, center_y + 2 * BALL_SIZE);

        //  y r y r
        let ball_r4 = self.add_ball(center_x + 2 * BALL_SIZE, center_y - 3 * BALL_SIZE);
        let ball_y3 = self.add_ball(center_x + 2 * BALL_SIZE, center_y - BALL_SIZE);
        let ball_r5 = self.add_ball(center_x + 2 * BALL_SIZE, center_y + BALL_SIZE);
        let ball_y4 = self.add_ball(center_x + 2 * BALL_SIZE, center_y + 3 * BALL_SIZE);

        // r y r y y
        let ball_y5 = self.add_ball(center_x + 4 * BALL_SIZE, center_y - 4 * BALL_SIZE);
        let ball_y6 = self.add_ball(center_x + 4 * BALL_SIZE, center_y - 2 * BALL_SIZE);
        let ball_r6 = self.add_ball(center_x + 4 * BALL_SIZE, center_y);
        let ball_y7 = self.add_ball(center_x + 4 * BALL_SIZE, center_y + 2 * BALL_SIZE);
        let ball_r7 = self.add_ball(center_x + 4 * BALL_SIZE, center_y + 4 * BALL_SIZE);

        let mut balls: Vec<Ball> = Vec::with_capacity(RACK_SIZE);
        balls.push(Self::in_play(BallId::White, white_ball_handle));
        balls.push(Self::in_play(BallId::Eight, ball_8_handle));
        balls.push(Self::in_play(BallId::Group(Color::Red, 0), ball_r1));
        balls.push(Self::in_play(BallId::Group(Color::Red, 1), ball_r2));
        balls.push(Self::in_play(BallId::Group(Color::Red, 2), ball_r3));
        balls.push(Self::in_play(BallId::Group(Color::Red, 3), ball_r4));
        balls.push(Self::in_play(BallId::Group(Color::Red, 4), ball_r5));
        balls.push(Self::in_play(BallId::Group(Color::Red, 5), ball_r6));
        balls.push(Self::in_play(BallId::Group(Color::Red, 6), ball_r7));
        balls.push(Self::in_play(BallId::Group(Color::Yellow, 0), ball_y1));
        balls.push(Self::in_play(BallId::Group(Color::Yellow, 1), ball_y2));
        balls.push(Self::in_play(BallId::Group(Color::Yellow, 2), ball_y3));
        balls.push(Self::in_play(BallId::Group(Color::Yellow, 3), ball_y4));
        balls.push(Self::in_play(BallId::Group(Color::Yellow, 4), ball_y5));
        balls.push(Self::in_play(BallId::Group(Color::Yellow, 5), ball_y6));
        balls.push(Self::in_play(BallId::Group(Color::Yellow, 6), ball_y7));
        self.balls = balls;

        proof {
            let goal = old(self)@.rack();
            assert(self@.world.bodies =~= goal.world.bodies);
            assert(self@.world.commands =~= goal.world.commands);
            assert(self@.balls =~= goal.balls);
            old(self)@.lemma_rack();
        }
    }

    fn in_play(id: BallId, body: BodyHandle) -> (ball: Ball)
        ensures
            ball == Ball::in_play(id, body),
    {
        Ball { id, body: Some(body), state: BallState::InPlay }
    }

    /// Takes the ball `id` out of play: removes its body and marks the ball as
    /// pocketed, or, the white ball, as waiting for its respawn. Nothing
    /// happens to a ball that is not in play.
    pub fn pocket(&mut self, id: BallId)
        requires
            old(self)@.wf(),
            old(self)@.knows(id),
        ensures
            final(self)@ == old(self)@.pocket(id),
            final(self)@.wf(),
    {
        let slot = id.index();
        let ball = self.balls[slot];
        if let Some(body) = ball.body {
            let state = match id {
                BallId::White => BallState::AwaitingRespawn,
                _ => BallState::Pocketed,
            };
            self.balls.set(slot, Ball { id, body: None, state });
            self.world.remove_body(body);
            proof {
                old(self)@.lemma_pocket(id);
            }
        }
    }

    /// Places the white ball on its spot again, with a new body.
    pub fn respawn_white(&mut self)
        requires
            old(self)@.wf(),
            old(self)@.racked(),
            old(self)@.ball(BallId::White).state == BallState::AwaitingRespawn,
            old(self)@.world.next < u64::MAX,
        ensures
            final(self)@ == old(self)@.respawn_white(),
            final(self)@.wf(),
    {
        let x: u32 = MARGIN_LEFT + BORDER + WIDTH / 4;
        let y: u32 = MARGIN_TOP + BORDER + HEIGHT / 2;
        let ball = self.add_ball(x, y);
        self.balls.set(0, Ball { id: BallId::White, body: Some(ball), state: BallState::InPlay });
        proof {
            old(self)@.lemma_respawn_white();
        }
    }

    /// Asks for the drag on `body`, unless the body no longer exists.
    pub(crate) fn drag(&mut self, body: BodyHandle)
        ensures
            final(self)@ == old(self)@.drag(body),
    {
        self.z_gravity.apply_force(&mut self.world, body);
    }

    /// Asks for the velocity of `body` to be set, unless the body no longer
    /// exists.
    pub(crate) fn set_velocity(&mut self, body: BodyHandle, velocity: Vector)
        ensures
            final(self)@ == old(self)@.set_velocity(body, velocity),
    {
        self.world.set_velocity(body, velocity);
    }
}

} // verus!
