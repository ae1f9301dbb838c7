use pool_table::ball::{BallId, BallState, Color};
use pool_table::contact::ContactEvent;
use pool_table::gravity::ZGravity;
use pool_table::rest::BodyReading;
use pool_table::scalar::{Scalar, Vector};
use pool_table::table::PoolTable;
use pool_table::world::{BodyHandle, BodyKind, Command, World};

fn handle(id: u64) -> BodyHandle {
    BodyHandle { id }
}

fn vector(x: f32, y: f32) -> Vector {
    Vector::new(Scalar::from_bits(x.to_bits()), Scalar::from_bits(y.to_bits()))
}

fn drag(id: u64) -> Command {
    Command::Drag { body: handle(id), factor: Scalar::from_bits((-0.86f32).to_bits()) }
}

fn fresh_table() -> PoolTable {
    let mut table = PoolTable::new();
    table.initialize_world();
    table.take_commands();
    table
}

const REGISTRY_ORDER: [u64; 16] = [16, 21, 17, 18, 22, 23, 25, 29, 31, 19, 20, 24, 26, 27, 28, 30];

#[test]
fn in_world_agrees_with_floats() {
    let table = PoolTable::new();
    let xs: [f32; 12] = [
        -1.0, -0.0, 0.0, 1.0e-30, 1.0, 6420.0, 18559.998, 18560.0, 18561.0, 1.0e9,
        f32::NAN, f32::INFINITY,
    ];
    let ys: [f32; 12] = [
        -5.0, -0.0, 0.0, 1.0e-30, 2.0, 7560.0, 12119.999, 12120.0, 12121.0, 1.0e9,
        f32::NAN, f32::NEG_INFINITY,
    ];
    for x in xs {
        for y in ys {
            let expected = x > 0. && x < (15440.0 + 2. * 560. + 2000.) && y > 0.
                && y < (8000. + 2. * 560. + 3000.);
            assert_eq!(table.in_world(&vector(x, y)), expected, "{} {}", x, y);
        }
    }
}

#[test]
fn apply_force_asks_for_the_drag() {
    let mut world = World::new();
    let body = world.add_body(BodyKind::Ball { x: 1, y: 2, radius: 240 });
    world.take_commands();
    let mut gravity = ZGravity::new();
    gravity.apply_force(&mut world, body);
    assert_eq!(world.take_commands(), vec![drag(0)]);
    assert_eq!(gravity, ZGravity::new());
}

#[test]
fn apply_force_skips_a_body_that_is_gone() {
    let mut world = World::new();
    let body = world.add_body(BodyKind::Ball { x: 1, y: 2, radius: 240 });
    world.remove_body(body);
    world.take_commands();
    let mut gravity = ZGravity::new();
    gravity.apply_force(&mut world, body);
    gravity.apply_force(&mut world, handle(5));
    gravity.apply_force(&mut world, BodyHandle::ground());
    assert!(world.take_commands().is_empty());
}

#[test]
fn step_drags_every_ball_in_play() {
    let mut table = fresh_table();
    table.step(Some(vector(6420.0, 7560.0)), &Vec::new());
    let expected: Vec<Command> = REGISTRY_ORDER.iter().map(|id| drag(*id)).collect();
    assert_eq!(table.take_commands(), expected);
    assert!(table.bodies_match_states());
}

#[test]
fn step_drags_balls_at_rest_on_every_step() {
    let mut table = fresh_table();
    for _ in 0..3 {
        table.step(None, &Vec::new());
        assert_eq!(table.take_commands().len(), 16);
    }
}

#[test]
fn step_skips_pocketed_balls() {
    let mut table = fresh_table();
    table.pocket(BallId::Eight);
    table.pocket(BallId::Group(Color::Red, 0));
    table.take_commands();
    table.step(None, &Vec::new());
    let expected: Vec<Command> =
        REGISTRY_ORDER.iter().filter(|id| **id != 21 && **id != 17).map(|id| drag(*id)).collect();
    assert_eq!(table.take_commands(), expected);
}

#[test]
fn step_drags_before_it_resolves_contacts() {
    let mut table = fresh_table();
    table.step(
        Some(vector(100.0, 100.0)),
        &vec![
            ContactEvent::Started(handle(21), handle(4)),
            ContactEvent::Started(handle(5), handle(16)),
            ContactEvent::Started(handle(21), handle(5)),
        ],
    );
    let mut expected: Vec<Command> = REGISTRY_ORDER.iter().map(|id| drag(*id)).collect();
    expected.push(Command::Remove { body: handle(21) });
    expected.push(Command::Remove { body: handle(16) });
    assert_eq!(table.take_commands(), expected);
    assert_eq!(table.ball(BallId::Eight).state, BallState::Pocketed);
    assert_eq!(table.ball(BallId::White).state, BallState::AwaitingRespawn);
    assert_eq!(table.all_in_play().len(), 14);
    assert!(table.bodies_match_states());
    table.step(None, &vec![ContactEvent::Started(handle(21), handle(4))]);
    assert_eq!(table.take_commands().len(), 14);
}

#[test]
fn white_ball_off_the_table_is_pocketed() {
    for position in [
        vector(-10.0, 500.0),
        vector(0.0, 500.0),
        vector(18560.0, 500.0),
        vector(500.0, -1.0),
        vector(500.0, 12120.0),
        vector(f32::NAN, 500.0),
    ] {
        let mut table = fresh_table();
        table.step(Some(position), &Vec::new());
        let mut expected: Vec<Command> = vec![Command::Remove { body: handle(16) }];
        expected.extend(REGISTRY_ORDER.iter().skip(1).map(|id| drag(*id)));
        assert_eq!(table.take_commands(), expected);
        assert_eq!(table.ball(BallId::White).state, BallState::AwaitingRespawn);
        assert_eq!(table.ball(BallId::White).body, None);
        assert!(table.bodies_match_states());
    }
}

#[test]
fn white_ball_without_a_position_stays() {
    let mut table = fresh_table();
    table.step(None, &Vec::new());
    assert_eq!(table.ball(BallId::White).state, BallState::InPlay);
    assert_eq!(table.take_commands()[0], drag(16));
}

#[test]
fn step_before_the_rack_does_nothing() {
    let mut table = PoolTable::new();
    table.initialize_holes();
    table.initialize_bounds();
    table.take_commands();
    table.step(Some(vector(-1.0, -1.0)), &vec![ContactEvent::Started(handle(0), handle(7))]);
    assert!(table.take_commands().is_empty());
}

#[test]
fn game_keeps_the_registry_invariant() {
    let mut table = fresh_table();
    let asleep = |table: &PoolTable| -> Vec<BodyReading> {
        table
            .all_in_play()
            .iter()
            .map(|entry| BodyReading { body: entry.1, active: false, velocity: vector(3.0, 0.0) })
            .collect()
    };
    let mut pocket: u64 = 0;
    for round in 0..40u64 {
        let victim = table.all_in_play().get((round % 5) as usize).map(|entry| entry.1);
        let mut contacts: Vec<ContactEvent> = Vec::new();
        if let Some(body) = victim {
            if round % 3 == 0 {
                contacts.push(ContactEvent::Started(body, handle(pocket)));
                pocket = (pocket + 1) % 6;
            }
        }
        table.step(None, &contacts);
        assert!(table.bodies_match_states());
        let mut readings = asleep(&table);
        if round % 4 == 1 {
            if let Some(first) = readings.first_mut() {
                first.active = true;
            }
        }
        table.settle(&readings);
        assert!(table.bodies_match_states());
        let readings = asleep(&table);
        let cue = table.cue_ball(&readings);
        assert_eq!(cue, table.ball(BallId::White).body);
        assert!(cue.is_some());
        assert!(table.bodies_match_states());
        let in_play = table.all_in_play();
        for (position, entry) in in_play.iter().enumerate() {
            assert!(!table.is_hole(entry.1));
            assert!(in_play.iter().skip(position + 1).all(|other| other.1 != entry.1));
            assert_eq!(table.ball_with_body(entry.1), Some(entry.0));
        }
        for ball in table.snapshot() {
            if ball.id != BallId::White {
                assert_ne!(ball.state, BallState::AwaitingRespawn);
            } else {
                assert_ne!(ball.state, BallState::Pocketed);
            }
        }
        table.take_commands();
    }
    assert!(table.all_in_play().len() < 16);
}

#[test]
fn table_drags_with_the_tuned_factor() {
    let table = PoolTable::new();
    assert_eq!(table.z_gravity(), ZGravity::new());
    assert_eq!(table.z_gravity().factor.to_bits(), (-0.86f32).to_bits());
}
