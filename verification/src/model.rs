//! The mathematical content of the pool table: what it holds, when it is
//! well formed, and what each operation makes of it.

use vstd::prelude::*;
use crate::ball::{Ball, BallId, BallState, RACK_SIZE};
use crate::gravity::ZGravity;
use crate::layout::{lemma_rack_order, rack_layout, rack_order, white_spot, BALL_SIZE};
use crate::scalar::Vector;
use crate::world::{BodyHandle, BodyKind, Command, WorldModel};

verus! {

/// `body` is the body of the ball at place `slot` of `balls`.
pub open spec fn holds(balls: Seq<Ball>, slot: int, body: BodyHandle) -> bool {
    0 <= slot < balls.len() && balls[slot].body == Some(body)
}

/// The identity of a ball among `balls` whose body is `body`.
pub open spec fn holder(balls: Seq<Ball>, body: BodyHandle) -> Option<BallId> {
    if exists|slot: int| holds(balls, slot, body) {
        Some(BallId::at(choose|slot: int| holds(balls, slot, body)))
    } else {
        None
    }
}

/// The mathematical content of a `PoolTable`.
pub struct TableModel {
    pub world: WorldModel,
    pub z_gravity: ZGravity,
    /// The pocket sensors, in the order of their creation.
    pub holes: Seq<BodyHandle>,
    /// The cushions, in the order of their creation.
    pub bounds: Seq<BodyHandle>,
    /// The balls: none before the rack is set, then all sixteen, each at the
    /// place of its identity.
    pub balls: Seq<Ball>,
}

impl TableModel {
    /// Before the rack is set the registry is empty; then it holds the
    /// sixteen balls, each at its place and well formed.
    pub open spec fn registry_wf(self) -> bool {
        &&& self.balls.len() == 0 || self.balls.len() == RACK_SIZE
        &&& forall|i: int|
            0 <= i < self.balls.len() ==> (#[trigger] self.balls[i]).id == BallId::at(i)
                && self.balls[i].wf()
    }

    /// The body of every ball in play exists and is neither a pocket nor a
    /// cushion.
    pub open spec fn bodies_wf(self) -> bool {
        forall|i: int|
            0 <= i < self.balls.len() ==> ((#[trigger] self.balls[i]).body matches Some(body)
                ==> self.world.bodies.contains(body) && !self.holes.contains(body)
                && !self.bounds.contains(body))
    }

    /// No two balls share a body.
    pub open spec fn bodies_distinct(self) -> bool {
        forall|i: int, j: int|
            0 <= i < self.balls.len() && 0 <= j < self.balls.len() && i != j && (
            #[trigger] self.balls[i]).body is Some ==> self.balls[i].body != (
            #[trigger] self.balls[j]).body
    }

    /// Every pocket and every cushion exists.
    pub open spec fn fixtures_wf(self) -> bool {
        &&& forall|k: int|
            0 <= k < self.holes.len() ==> self.world.bodies.contains(#[trigger] self.holes[k])
        &&& forall|k: int|
            0 <= k < self.bounds.len() ==> self.world.bodies.contains(#[trigger] self.bounds[k])
    }

    /// The invariant of the table. Every ball has a body exactly while it is
    /// in play; the bodies of the balls in play exist, differ from each other
    /// and are neither pockets nor cushions.
    pub open spec fn wf(self) -> bool {
        &&& self.world.wf()
        &&& self.z_gravity.wf()
        &&& self.registry_wf()
        &&& self.bodies_wf()
        &&& self.bodies_distinct()
        &&& self.fixtures_wf()
    }

    /// The table before anything was put on it.
    pub open spec fn empty() -> TableModel {
        TableModel {
            world: WorldModel::empty(),
            z_gravity: ZGravity::standard(),
            holes: Seq::empty(),
            bounds: Seq::empty(),
            balls: Seq::empty(),
        }
    }

    /// The rack was set.
    pub open spec fn racked(self) -> bool {
        self.balls.len() == RACK_SIZE
    }

    /// The registry holds the ball `id`.
    pub open spec fn knows(self, id: BallId) -> bool {
        self.racked() && id.valid()
    }

    /// The ball `id` as the registry holds it.
    pub open spec fn ball(self, id: BallId) -> Ball {
        self.balls[id.slot()]
    }

    /// The ball in play whose body is `body`.
    pub open spec fn owner(self, body: BodyHandle) -> Option<BallId> {
        holder(self.balls, body)
    }

    /// What `all_in_play` lists of a ball: its identity and body, if it has
    /// one.
    pub open spec fn in_play_entry() -> spec_fn(Ball) -> Option<(BallId, BodyHandle)> {
        |ball: Ball|
            match ball.body {
                Some(body) => Some((ball.id, body)),
                None => None,
            }
    }

    /// The balls in play with their bodies, in the order of the registry.
    pub open spec fn all_in_play(self) -> Seq<(BallId, BodyHandle)> {
        self.balls.filter_map(Self::in_play_entry())
    }

    /// The table after `command` was recorded for `body`.
    pub open spec fn record(self, body: BodyHandle, command: Command) -> TableModel {
        TableModel { world: self.world.record(body, command), ..self }
    }

    /// The table after the commands were recorded.
    pub open spec fn append(self, commands: Seq<Command>) -> TableModel {
        TableModel {
            world: WorldModel { commands: self.world.commands + commands, ..self.world },
            ..self
        }
    }

    /// The table after the drag on `body` was asked for.
    pub open spec fn drag(self, body: BodyHandle) -> TableModel {
        self.record(body, Command::Drag { body, factor: self.z_gravity.factor })
    }

    /// The table after the velocity of `body` was set.
    pub open spec fn set_velocity(self, body: BodyHandle, velocity: Vector) -> TableModel {
        self.record(body, Command::SetVelocity { body, velocity })
    }

    /// The table after its commands were taken.
    pub open spec fn drained(self) -> TableModel {
        TableModel { world: self.world.drained(), ..self }
    }

    /// The table after the body of a ball was added at the given place.
    pub open spec fn add_ball(self, x: u32, y: u32) -> TableModel {
        TableModel { world: self.world.add(BodyKind::Ball { x, y, radius: BALL_SIZE }), ..self }
    }

    /// The table after a pocket sensor was added.
    pub open spec fn add_hole(self, kind: BodyKind) -> TableModel {
        TableModel {
            world: self.world.add(kind),
            holes: self.holes.push(self.world.fresh()),
            ..self
        }
    }

    /// The table after a cushion was added.
    pub open spec fn add_bound(self, kind: BodyKind) -> TableModel {
        TableModel {
            world: self.world.add(kind),
            bounds: self.bounds.push(self.world.fresh()),
            ..self
        }
    }

    /// The table after pocket sensors of the given kinds were added.
    pub open spec fn add_holes(self, kinds: Seq<BodyKind>) -> TableModel {
        TableModel {
            world: self.world.add_all(kinds),
            holes: self.holes + self.world.fresh_run(kinds.len()),
            ..self
        }
    }

    /// The table after cushions of the given kinds were added.
    pub open spec fn add_bounds(self, kinds: Seq<BodyKind>) -> TableModel {
        TableModel {
            world: self.world.add_all(kinds),
            bounds: self.bounds + self.world.fresh_run(kinds.len()),
            ..self
        }
    }

    /// The table after the rack was set: the sixteen bodies are created in
    /// the order of `rack_layout`, and every ball is in play.
    pub open spec fn rack(self) -> TableModel {
        TableModel {
            world: self.world.add_all(rack_layout()),
            balls: Seq::new(
                RACK_SIZE as nat,
                |slot: int|
                    Ball::in_play(
                        BallId::at(slot),
                        self.world.fresh_run(RACK_SIZE as nat)[rack_order()[slot]],
                    ),
            ),
            ..self
        }
    }

    /// The table after the ball `id` left play: its body is removed and the
    /// ball is pocketed, or, the white ball, waits for its respawn. A ball
    /// that is not in play stays as it is.
    pub open spec fn pocket(self, id: BallId) -> TableModel {
        match self.ball(id).body {
            Some(body) => TableModel {
                world: self.world.remove(body),
                balls: self.balls.update(id.slot(), Ball::off_table(id)),
                ..self
            },
            None => self,
        }
    }

    /// The table after the white ball was placed on its spot with a new body.
    pub open spec fn respawn_white(self) -> TableModel {
        TableModel {
            world: self.world.add(white_spot()),
            balls: self.balls.update(0, Ball::in_play(BallId::White, self.world.fresh())),
            ..self
        }
    }

    /// In a well-formed table the owner of a body is the one ball that has it.
    pub proof fn lemma_owner(self, slot: int, body: BodyHandle)
        requires
            self.wf(),
            holds(self.balls, slot, body),
        ensures
            self.owner(body) == Some(BallId::at(slot)),
            self.owner(body) == Some(self.balls[slot].id),
            self.knows(BallId::at(slot)),
            BallId::at(slot).slot() == slot,
    {
        let chosen = choose|other: int| holds(self.balls, other, body);
        assert(holds(self.balls, chosen, body));
        if chosen != slot {
            assert(self.balls[slot].body != self.balls[chosen].body);
        }
        BallId::lemma_slots();
    }

    /// Recording commands in two runs is recording them in one.
    pub proof fn lemma_append_twice(self, first: Seq<Command>, second: Seq<Command>)
        ensures
            self.append(first).append(second) == self.append(first + second),
            self.append(first).append(Seq::empty()) == self.append(first),
    {
        assert((self.world.commands + first) + second =~= self.world.commands + (first + second));
        assert((self.world.commands + first) + Seq::<Command>::empty() =~= self.world.commands
            + first);
    }

    /// A table stays well formed when a new body joins its world, alone or
    /// as a pocket or as a cushion.
    pub proof fn lemma_grown(before: TableModel, after: TableModel)
        requires
            before.wf(),
            before.world.next < u64::MAX,
            exists|kind: BodyKind| after.world == before.world.add(kind),
            after.z_gravity == before.z_gravity,
            after.balls == before.balls,
            after.holes == before.holes || after.holes == before.holes.push(before.world.fresh()),
            after.bounds == before.bounds || after.bounds == before.bounds.push(
                before.world.fresh(),
            ),
        ensures
            after.wf(),
    {
        let fresh = before.world.fresh();
        let old_bodies = before.world.bodies;
        let new_bodies = after.world.bodies;
        assert(new_bodies == old_bodies.push(fresh));
        assert forall|body: BodyHandle| old_bodies.contains(body) implies new_bodies.contains(
            body,
        ) && body != fresh by {
            let i = choose|i: int| 0 <= i < old_bodies.len() && old_bodies[i] == body;
            assert(new_bodies[i] == body);
        }
        assert(new_bodies[old_bodies.len() as int] == fresh);
        assert forall|a: int, b: int|
            0 <= a < new_bodies.len() && 0 <= b < new_bodies.len() && a != b implies new_bodies[a]
            != new_bodies[b] by {
            if a < old_bodies.len() {
                assert(old_bodies[a].id < fresh.id);
            }
            if b < old_bodies.len() {
                assert(old_bodies[b].id < fresh.id);
            }
        }
        assert forall|i: int| 0 <= i < after.balls.len() implies ((
        #[trigger] after.balls[i]).body matches Some(body) ==> new_bodies.contains(body)
            && !after.holes.contains(body) && !after.bounds.contains(body)) by {
            if let Some(body) = after.balls[i].body {
                assert(old_bodies.contains(body));
                if after.holes.contains(body) {
                    let k = choose|k: int| 0 <= k < after.holes.len() && after.holes[k] == body;
                    assert(before.holes[k] == body);
                }
                if after.bounds.contains(body) {
                    let k = choose|k: int| 0 <= k < after.bounds.len() && after.bounds[k] == body;
                    assert(before.bounds[k] == body);
                }
            }
        }
        assert forall|k: int| 0 <= k < after.holes.len() implies new_bodies.contains(
            #[trigger] after.holes[k],
        ) by {
            if k < before.holes.len() {
                assert(old_bodies.contains(before.holes[k]));
            }
        }
        assert forall|k: int| 0 <= k < after.bounds.len() implies new_bodies.contains(
            #[trigger] after.bounds[k],
        ) by {
            if k < before.bounds.len() {
                assert(old_bodies.contains(before.bounds[k]));
            }
        }
    }

    /// Setting the rack keeps the table well formed.
    pub proof fn lemma_rack(self)
        requires
            self.wf(),
            !self.racked(),
            self.world.next + 16 <= u64::MAX,
        ensures
            self.rack().wf(),
    {
        let after = self.rack();
        let run = self.world.fresh_run(16);
        self.world.lemma_add_all(rack_layout());
        lemma_rack_order();
        assert(rack_layout().len() == 16);
        assert forall|i: int| 0 <= i < after.balls.len() implies (#[trigger] after.balls[i]).id
            == BallId::at(i) && after.balls[i].wf() by {}
        assert forall|i: int| 0 <= i < after.balls.len() implies ((
        #[trigger] after.balls[i]).body matches Some(body) ==> after.world.bodies.contains(body)
            && !after.holes.contains(body) && !after.bounds.contains(body)) by {
            let body = run[rack_order()[i]];
            assert(after.balls[i].body == Some(body));
            assert(after.world.bodies.contains(body));
            if self.holes.contains(body) {
                let k = choose|k: int| 0 <= k < self.holes.len() && self.holes[k] == body;
                assert(self.world.bodies.contains(self.holes[k]));
            }
            if self.bounds.contains(body) {
                let k = choose|k: int| 0 <= k < self.bounds.len() && self.bounds[k] == body;
                assert(self.world.bodies.contains(self.bounds[k]));
            }
        }
        assert forall|i: int, j: int|
            0 <= i < after.balls.len() && 0 <= j < after.balls.len() && i != j && (
            #[trigger] after.balls[i]).body is Some implies after.balls[i].body != (
            #[trigger] after.balls[j]).body by {
            assert(rack_order()[i] != rack_order()[j]);
            assert(after.balls[i].body == Some(run[rack_order()[i]]));
            assert(after.balls[j].body == Some(run[rack_order()[j]]));
        }
        assert(after.fixtures_wf()) by {
            assert forall|k: int| 0 <= k < after.holes.len() implies after.world.bodies.contains(
                #[trigger] after.holes[k],
            ) by {
                assert(self.world.bodies.contains(self.holes[k]));
            }
            assert forall|k: int| 0 <= k < after.bounds.len() implies after.world.bodies.contains(
                #[trigger] after.bounds[k],
            ) by {
                assert(self.world.bodies.contains(self.bounds[k]));
            }
        }
    }

    /// Pocketing keeps the table well formed.
    pub proof fn lemma_pocket(self, id: BallId)
        requires
            self.wf(),
            self.knows(id),
        ensures
            self.pocket(id).wf(),
    {
        if let Some(body) = self.ball(id).body {
            let after = self.pocket(id);
            self.world.lemma_remove(body);
            assert forall|i: int| 0 <= i < after.balls.len() implies ((
            #[trigger] after.balls[i]).body matches Some(other) ==> after.world.bodies.contains(
                other,
            ) && !after.holes.contains(other) && !after.bounds.contains(other)) by {
                if i != id.slot() {
                    assert(after.balls[i] == self.balls[i]);
                    assert(self.balls[i].body != self.balls[id.slot()].body);
                }
            }
            assert forall|i: int, j: int|
                0 <= i < after.balls.len() && 0 <= j < after.balls.len() && i != j && (
                #[trigger] after.balls[i]).body is Some implies after.balls[i].body != (
                #[trigger] after.balls[j]).body by {
                if j != id.slot() {
                    assert(self.balls[i].body != self.balls[j].body);
                }
            }
            assert forall|k: int| 0 <= k < after.holes.len() implies after.world.bodies.contains(
                #[trigger] after.holes[k],
            ) by {
                assert(self.holes.contains(self.holes[k]));
            }
            assert forall|k: int| 0 <= k < after.bounds.len() implies after.world.bodies.contains(
                #[trigger] after.bounds[k],
            ) by {
                assert(self.bounds.contains(self.bounds[k]));
            }
        }
    }

    /// The respawn of the white ball keeps the table well formed.
    pub proof fn lemma_respawn_white(self)
        requires
            self.wf(),
            self.racked(),
            self.ball(BallId::White).state == BallState::AwaitingRespawn,
            self.world.next < u64::MAX,
        ensures
            self.respawn_white().wf(),
    {
        let after = self.respawn_white();
        let fresh = self.world.fresh();
        let grown = TableModel { world: after.world, ..self };
        Self::lemma_grown(self, grown);
        assert(after.fixtures_wf()) by {
            assert(grown.fixtures_wf());
            assert(after.holes == grown.holes && after.bounds == grown.bounds);
        }
        assert(!self.world.bodies.contains(fresh)) by {
            if self.world.bodies.contains(fresh) {
                let i = choose|i: int|
                    0 <= i < self.world.bodies.len() && self.world.bodies[i] == fresh;
                assert(self.world.bodies[i].id < self.world.next);
            }
        }
        assert(after.world.bodies[self.world.bodies.len() as int] == fresh);
        assert(!self.holes.contains(fresh)) by {
            if self.holes.contains(fresh) {
                let k = choose|k: int| 0 <= k < self.holes.len() && self.holes[k] == fresh;
                assert(self.world.bodies.contains(self.holes[k]));
            }
        }
        assert(!self.bounds.contains(fresh)) by {
            if self.bounds.contains(fresh) {
                let k = choose|k: int| 0 <= k < self.bounds.len() && self.bounds[k] == fresh;
                assert(self.world.bodies.contains(self.bounds[k]));
            }
        }
        assert forall|i: int| 0 <= i < after.balls.len() implies ((
        #[trigger] after.balls[i]).body matches Some(other) ==> after.world.bodies.contains(other)
            && !after.holes.contains(other) && !after.bounds.contains(other)) by {
            if i != 0 {
                assert(after.balls[i] == grown.balls[i]);
            }
        }
        assert forall|i: int, j: int|
            0 <= i < after.balls.len() && 0 <= j < after.balls.len() && i != j && (
            #[trigger] after.balls[i]).body is Some implies after.balls[i].body != (
            #[trigger] after.balls[j]).body by {
            if i != 0 && j != 0 {
                assert(self.balls[i].body != self.balls[j].body);
            } else if i == 0 {
                if let Some(other) = self.balls[j].body {
                    assert(self.world.bodies.contains(other));
                }
            } else {
                if let Some(other) = self.balls[i].body {
                    assert(self.world.bodies.contains(other));
                }
            }
        }
    }
}

} // verus!
