//! What holds of the table whatever the game.

use vstd::prelude::*;
use crate::ball::{Ball, BallId, BallState};
use crate::rest::{BodyReading, REST_THRESHOLD};
use crate::scalar::{units, Vector};
use crate::model::TableModel;
use crate::world::BodyHandle;

verus! {

/// On a well-formed table a ball that was pocketed or that waits for its
/// respawn has no body, and a ball in play has one.
pub proof fn lemma_body_iff_in_play(table: TableModel)
    requires
        table.wf(),
    ensures
        forall|slot: int|
            0 <= slot < table.balls.len() ==> {
                let ball = #[trigger] table.balls[slot];
                &&& ball.state == BallState::Pocketed || ball.state == BallState::AwaitingRespawn
                    ==> ball.body is None
                &&& ball.state == BallState::InPlay ==> ball.body is Some
            },
{
    assert forall|slot: int| 0 <= slot < table.balls.len() implies {
        let ball = #[trigger] table.balls[slot];
        &&& ball.state == BallState::Pocketed || ball.state == BallState::AwaitingRespawn
            ==> ball.body is None
        &&& ball.state == BallState::InPlay ==> ball.body is Some
    } by {
        assert(table.balls[slot].wf());
    }
}

/// An element that a function maps to a value leaves that value behind
/// in the filtered and mapped sequence.
proof fn lemma_filter_map_keeps<A, B>(s: Seq<A>, f: spec_fn(A) -> Option<B>, i: int, b: B)
    requires
        0 <= i < s.len(),
        f(s[i]) == Some(b),
    ensures
        s.filter_map(f).contains(b),
    decreases s.len(),
{
    let rest = s.drop_last();
    let kept = rest.filter_map(f);
    if i == s.len() - 1 {
        assert((kept + seq![b])[kept.len() as int] == b);
    } else {
        lemma_filter_map_keeps(rest, f, i, b);
        let k = choose|k: int| 0 <= k < kept.len() && kept[k] == b;
        match f(s.last()) {
            Some(last) => {
                assert((kept + seq![last])[k] == b);
            },
            None => {},
        }
    }
}

/// A ball is listed among the balls in play, with its body, exactly while it
/// is in play.
pub proof fn lemma_listed_iff_in_play(table: TableModel, id: BallId, body: BodyHandle)
    requires
        table.wf(),
        table.knows(id),
    ensures
        table.all_in_play().contains((id, body)) <==> table.ball(id) == Ball::in_play(id, body),
{
    let entry = TableModel::in_play_entry();
    BallId::lemma_slots();
    assert(table.balls[id.slot()].wf());
    if table.all_in_play().contains((id, body)) {
        table.balls.lemma_filter_map_contains(entry, (id, body));
        let ball = choose|ball: Ball| #[trigger]
            table.balls.contains(ball) && entry(ball) == Some((id, body));
        let slot = choose|slot: int| 0 <= slot < table.balls.len() && table.balls[slot] == ball;
        assert(table.balls[slot].id == BallId::at(slot));
        assert(table.balls[slot].wf());
    }
    if table.ball(id) == Ball::in_play(id, body) {
        lemma_filter_map_keeps(table.balls, entry, id.slot(), (id, body));
    }
}

/// To pocket a ball twice is to pocket it once: the second time nothing
/// changes, neither the registry nor the commands.
pub proof fn lemma_pocket_idempotent(table: TableModel, id: BallId)
    requires
        table.wf(),
        table.knows(id),
    ensures
        table.pocket(id).pocket(id) == table.pocket(id),
        table.pocket(id).ball(id).body is None,
        table.pocket(id).ball(id).state != BallState::InPlay,
{
    assert(table.balls[id.slot()].wf());
}

/// The readings agree with an engine that puts a ball to sleep only once it
/// is slow, and that reports no ball as active that stands still: of every
/// reading of a ball in play, an active one has a velocity that is not zero,
/// and a sleeping one a velocity below the threshold in both components.
pub open spec fn readings_consistent(table: TableModel, readings: Seq<BodyReading>) -> bool {
    forall|k: int|
        0 <= k < readings.len() && table.owner((#[trigger] readings[k]).body) is Some ==> {
            &&& readings[k].active ==> !readings[k].velocity.at_rest()
            &&& !readings[k].active ==> readings[k].velocity.below(units(REST_THRESHOLD as int))
        }
}

/// Once the stabilizer has run, every reading of a ball in play shows the
/// zero velocity.
pub open spec fn all_at_rest(table: TableModel, readings: Seq<BodyReading>) -> bool {
    forall|k: int|
        0 <= k < readings.len() && table.owner((#[trigger] readings[k]).body) is Some
            ==> table.velocity_after(readings[k]).at_rest()
}

/// With consistent readings, no ball moves exactly if every ball in play
/// has the zero velocity once the stabilizer has run.
pub proof fn lemma_rest_iff_idle(table: TableModel, readings: Seq<BodyReading>)
    requires
        table.wf(),
        readings_consistent(table, readings),
    ensures
        !table.has_force(readings) <==> all_at_rest(table, readings),
{
    if table.has_force(readings) {
        let slot = choose|slot: int| table.moves(readings, slot);
        let body = table.balls[slot].body->Some_0;
        let k = choose|k: int|
            0 <= k < readings.len() && (#[trigger] readings[k]).body == body && readings[k].active;
        table.lemma_owner(slot, body);
        assert(table.owner(readings[k].body) is Some);
        assert(!table.velocity_after(readings[k]).at_rest());
    } else {
        assert forall|k: int|
            0 <= k < readings.len() && table.owner((#[trigger] readings[k]).body) is Some
            implies table.velocity_after(readings[k]).at_rest() by {
            let body = readings[k].body;
            let slot = choose|slot: int| crate::model::holds(table.balls, slot, body);
            if readings[k].active {
                assert(table.moves(readings, slot));
            }
        }
    }
}

/// A shot asked for while a ball still moves changes nothing: no velocity is
/// set, and the registry stays as it is.
pub proof fn lemma_shot_refused(table: TableModel, readings: Seq<BodyReading>, velocity: Vector)
    requires
        table.has_force(readings),
    ensures
        table.shoot(readings, velocity) == table,
{
}

} // verus!
