//! The pocket event resolver: from the contacts that the physics engine
//! reports to the balls that leave play.

use vstd::prelude::*;
use crate::model::{holds, TableModel};
use crate::table::PoolTable;
use crate::world::BodyHandle;

verus! {

/// A contact between two bodies, as the physics engine reports it.
#[derive(Clone, Copy, Debug, PartialEq, Eq, Structural)]
pub enum ContactEvent {
    /// The two bodies began to touch.
    Started(BodyHandle, BodyHandle),
    /// The two bodies ceased to touch.
    Stopped(BodyHandle, BodyHandle),
}

/// The body that a contact sends to a pocket: where two bodies begin to
/// touch and exactly one of them is a pocket sensor, the other one.
pub open spec fn candidate(holes: Seq<BodyHandle>, event: ContactEvent) -> Option<BodyHandle> {
    match event {
        ContactEvent::Started(first, second) => {
            if holes.contains(first) && !holes.contains(second) {
                Some(second)
            } else if holes.contains(second) && !holes.contains(first) {
                Some(first)
            } else {
                None
            }
        },
        ContactEvent::Stopped(_, _) => None,
    }
}

/// `candidate` for given pockets, as a function of the event.
pub open spec fn candidate_of(holes: Seq<BodyHandle>) -> spec_fn(ContactEvent) -> Option<
    BodyHandle,
> {
    |event: ContactEvent| candidate(holes, event)
}

impl TableModel {
    /// The bodies that the contacts send to a pocket, in the order of the
    /// contacts.
    pub open spec fn candidates(self, contacts: Seq<ContactEvent>) -> Seq<BodyHandle> {
        contacts.filter_map(candidate_of(self.holes))
    }

    /// The table after `body` fell into a pocket: the ball that has this body
    /// leaves play. A body that belongs to no ball in play changes nothing.
    pub open spec fn drop_ball(self, body: BodyHandle) -> TableModel {
        match self.owner(body) {
            Some(id) => self.pocket(id),
            None => self,
        }
    }

    /// The table after the bodies fell into a pocket one after the other.
    pub open spec fn drop_all(self, bodies: Seq<BodyHandle>) -> TableModel
        decreases bodies.len(),
    {
        if bodies.len() == 0 {
            self
        } else {
            self.drop_all(bodies.drop_last()).drop_ball(bodies.last())
        }
    }

    /// The table after the contacts of one step were resolved.
    pub open spec fn resolve_contacts(self, contacts: Seq<ContactEvent>) -> TableModel {
        self.drop_all(self.candidates(contacts))
    }

    /// The two tables have the same pockets, cushions, drag and handles to
    /// issue, and every ball that was off the first table is as it was.
    pub open spec fn only_lost_balls(self, after: TableModel) -> bool {
        &&& after.holes == self.holes
        &&& after.bounds == self.bounds
        &&& after.z_gravity == self.z_gravity
        &&& after.world.next == self.world.next
        &&& after.balls.len() == self.balls.len()
        &&& forall|slot: int|
            0 <= slot < self.balls.len() && (#[trigger] self.balls[slot]).body is None
                ==> after.balls[slot] == self.balls[slot]
    }

    /// Dropping bodies keeps the table well formed and brings no ball back.
    pub proof fn lemma_drop_all(self, bodies: Seq<BodyHandle>)
        requires
            self.wf(),
        ensures
            self.drop_all(bodies).wf(),
            self.only_lost_balls(self.drop_all(bodies)),
        decreases bodies.len(),
    {
        if bodies.len() > 0 {
            let before = self.drop_all(bodies.drop_last());
            self.lemma_drop_all(bodies.drop_last());
            if let Some(id) = before.owner(bodies.last()) {
                let slot = choose|slot: int| holds(before.balls, slot, bodies.last());
                before.lemma_owner(slot, bodies.last());
                before.lemma_pocket(id);
                assert forall|other: int|
                    0 <= other < self.balls.len() && (#[trigger] self.balls[other]).body is None
                    implies before.pocket(id).balls[other] == self.balls[other] by {
                    assert(before.balls[other] == self.balls[other]);
                }
            }
        }
    }
}

impl PoolTable {
    /// The body that the contact sends to a pocket, if any.
    pub fn handle_contact_event(&self, event: &ContactEvent) -> (body: Option<BodyHandle>)
        ensures
            body == candidate(self@.holes, *event),
    {
        if let ContactEvent::Started(body1, body2) = *event {
            let hole1 = self.is_hole(body1);
            let hole2 = self.is_hole(body2);
            if hole1 && !hole2 {
                return Some(body2);
            }
            if hole2 && !hole1 {
                return Some(body1);
            }
        }
        None
    }

    /// Takes the ball whose body is `ball` out of play. Nothing happens where
    /// no ball in play has this body: the ball was dropped before, or the
    /// body never was a ball.
    pub fn drop_ball(&mut self, ball: &BodyHandle)
        requires
            old(self)@.wf(),
        ensures
            final(self)@ == old(self)@.drop_ball(*ball),
            final(self)@.wf(),
    {
        if let Some(id) = self.ball_with_body(*ball) {
            self.pocket(id);
        }
    }

    /// Resolves the contacts of one step: collects every body that a contact
    /// sends to a pocket, then drops them in that order.
    pub fn resolve_contacts(&mut self, contacts: &Vec<ContactEvent>)
        requires
            old(self)@.wf(),
        ensures
            final(self)@ == old(self)@.resolve_contacts(contacts@),
            final(self)@.wf(),
            old(self)@.only_lost_balls(final(self)@),
    {
        proof {
            old(self)@.lemma_drop_all(old(self)@.candidates(contacts@));
        }
        let mut balls: Vec<BodyHandle> = Vec::new();
        let mut i: usize = 0;
        while i < contacts.len()
            invariant
                i <= contacts.len(),
                balls@ == contacts@.take(i as int).filter_map(candidate_of(self@.holes)),
            decreases contacts.len() - i,
        {
            proof {
                contacts@.lemma_filter_map_take_succ(candidate_of(self@.holes), i as int);
            }
            if let Some(ball) = self.handle_contact_event(&contacts[i]) {
                balls.push(ball);
            }
            i = i + 1;
        }
        proof {
            assert(contacts@.take(contacts@.len() as int) == contacts@);
        }
        let mut k: usize = 0;
        while k < balls.len()
            invariant
                k <= balls.len(),
                self@.wf(),
                self@ == old(self)@.drop_all(balls@.take(k as int)),
            decreases balls.len() - k,
        {
            proof {
                assert(balls@.take(k + 1).drop_last() == balls@.take(k as int));
            }
            self.drop_ball(&balls[k]);
            k = k + 1;
        }
        proof {
            assert(balls@.take(balls@.len() as int) == balls@);
        }
    }
}

} // verus!
