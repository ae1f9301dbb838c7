//! One step of the table, between the step of the physics engine and the
//! readings that end it.

use vstd::prelude::*;
use crate::ball::{Ball, BallId};
use crate::contact::ContactEvent;
use crate::layout::{world_limit_x, world_limit_y, BORDER, HEIGHT, MARGIN_LEFT, MARGIN_TOP, WIDTH};
use crate::scalar::{units, Scalar, Vector};
use crate::model::TableModel;
use crate::table::PoolTable;
use crate::world::Command;

verus! {

/// The position is on the table: both coordinates are numbers strictly
/// between zero and the far edge of the border.
pub open spec fn on_table(position: Vector) -> bool {
    &&& !position.x.nan()
    &&& 0 < position.x.value() < units(world_limit_x())
    &&& !position.y.nan()
    &&& 0 < position.y.value() < units(world_limit_y())
}

/// The drag command, if any, for a ball: one for every ball with a body.
pub open spec fn drag_entry(factor: Scalar) -> spec_fn(Ball) -> Option<Command> {
    |ball: Ball|
        match ball.body {
            Some(body) => Some(Command::Drag { body, factor }),
            None => None,
        }
}

impl TableModel {
    /// The white ball is in play and its position is known to be off the
    /// table.
    pub open spec fn white_left(self, white_position: Option<Vector>) -> bool {
        &&& self.racked()
        &&& self.ball(BallId::White).body is Some
        &&& white_position matches Some(position)
        &&& !on_table(position)
    }

    /// The table after the drag on every ball in play was asked for, in the
    /// order of the registry.
    pub open spec fn drag_all(self) -> TableModel {
        self.append(self.balls.filter_map(drag_entry(self.z_gravity.factor)))
    }

    /// The table after one step: a white ball that left the table leaves
    /// play; every ball in play is dragged; the contacts are resolved.
    pub open spec fn step(
        self,
        white_position: Option<Vector>,
        contacts: Seq<ContactEvent>,
    ) -> TableModel {
        let kept = if self.white_left(white_position) {
            self.pocket(BallId::White)
        } else {
            self
        };
        kept.drag_all().resolve_contacts(contacts)
    }

    /// A step keeps the table well formed and brings no ball back.
    pub proof fn lemma_step(self, white_position: Option<Vector>, contacts: Seq<ContactEvent>)
        requires
            self.wf(),
        ensures
            self.step(white_position, contacts).wf(),
            self.only_lost_balls(self.step(white_position, contacts)),
    {
        let kept = if self.white_left(white_position) {
            self.pocket(BallId::White)
        } else {
            self
        };
        if self.white_left(white_position) {
            self.lemma_pocket(BallId::White);
        }
        let dragged = kept.drag_all();
        dragged.lemma_drop_all(dragged.candidates(contacts));
        assert forall|slot: int|
            0 <= slot < self.balls.len() && (#[trigger] self.balls[slot]).body is None
            implies self.step(white_position, contacts).balls[slot] == self.balls[slot] by {
            assert(dragged.balls[slot] == self.balls[slot]);
        }
    }
}

impl PoolTable {
    /// Whether the position is on the table.
    pub fn in_world(&self, position: &Vector) -> (r: bool)
        ensures
            r == on_table(*position),
    {
        let limit_x = Scalar::from_whole(WIDTH + 2 * BORDER + MARGIN_LEFT);
        let limit_y = Scalar::from_whole(HEIGHT + 2 * BORDER + MARGIN_TOP);
        position.x.is_positive_below(&limit_x) && position.y.is_positive_below(&limit_y)
    }

    /// Asks for the drag on every ball in play.
    pub fn drag_all(&mut self)
        requires
            old(self)@.wf(),
        ensures
            final(self)@ == old(self)@.drag_all(),
            final(self)@.wf(),
    {
        let balls = self.snapshot();
        let ghost entry = drag_entry(self@.z_gravity.factor);
        proof {
            old(self)@.lemma_append_twice(Seq::empty(), Seq::empty());
            assert(old(self)@.append(Seq::empty()) == old(self)@) by {
                assert(old(self)@.world.commands + Seq::<Command>::empty()
                    =~= old(self)@.world.commands);
            }
        }
        let mut slot: usize = 0;
        while slot < balls.len()
            invariant
                slot <= balls.len(),
                balls@ == old(self)@.balls,
                old(self)@.wf(),
                entry == drag_entry(old(self)@.z_gravity.factor),
                self@ == old(self)@.append(balls@.take(slot as int).filter_map(entry)),
            decreases balls.len() - slot,
        {
            proof {
                balls@.lemma_filter_map_take_succ(entry, slot as int);
                old(self)@.lemma_append_twice(
                    balls@.take(slot as int).filter_map(entry),
                    match entry(balls@[slot as int]) {
                        Some(command) => seq![command],
                        None => Seq::empty(),
                    },
                );
            }
            if let Some(body) = balls[slot].body {
                proof {
                    assert(old(self)@.balls[slot as int].body == Some(body));
                    assert(self@.world.bodies.contains(body));
                }
                self.drag(body);
            }
            slot = slot + 1;
        }
        proof {
            assert(balls@.take(balls@.len() as int) == balls@);
        }
    }

    /// Advances the table by one step, after the physics engine made its own.
    /// `white_position` is the position of the white ball, where it is in
    /// play and the host wants a ball that left the table to count as
    /// pocketed; `contacts` are the contacts of this step of the engine.
    pub fn step(&mut self, white_position: Option<Vector>, contacts: &Vec<ContactEvent>)
        requires
            old(self)@.wf(),
        ensures
            final(self)@ == old(self)@.step(white_position, contacts@),
            final(self)@.wf(),
            old(self)@.only_lost_balls(final(self)@),
    {
        proof {
            old(self)@.lemma_step(white_position, contacts@);
        }
        if self.is_racked() {
            if let Some(ball) = self.ball(BallId::White).body {
                if let Some(position) = white_position {
                    if !self.in_world(&position) {
                        proof {
                            self@.lemma_owner(0, ball);
                        }
                        self.drop_ball(&ball);
                    }
                }
            }
        }
        self.drag_all();
        self.resolve_contacts(contacts);
    }
}

} // verus!
