use pool_table::ball::{BallId, BallState};
use pool_table::contact::ContactEvent;
use pool_table::rest::{BodyReading, REST_THRESHOLD};
use pool_table::scalar::{Scalar, Vector};
use pool_table::table::PoolTable;
use pool_table::world::{BodyHandle, BodyKind, Command};

fn handle(id: u64) -> BodyHandle {
    BodyHandle { id }
}

fn vector(x: f32, y: f32) -> Vector {
    Vector::new(Scalar::from_bits(x.to_bits()), Scalar::from_bits(y.to_bits()))
}

fn reading(id: u64, active: bool, x: f32, y: f32) -> BodyReading {
    BodyReading { body: handle(id), active, velocity: vector(x, y) }
}

fn halt(id: u64) -> Command {
    Command::SetVelocity { body: handle(id), velocity: vector(0.0, 0.0) }
}

fn fresh_table() -> PoolTable {
    let mut table = PoolTable::new();
    table.initialize_world();
    table.take_commands();
    table
}

fn asleep(table: &PoolTable) -> Vec<BodyReading> {
    table
        .all_in_play()
        .iter()
        .map(|entry| BodyReading { body: entry.1, active: false, velocity: vector(0.0, 0.0) })
        .collect()
}

const WHITE: u64 = 16;
const EIGHT: u64 = 21;

#[test]
fn threshold_is_a_hundred_and_fifty_units() {
    assert_eq!(REST_THRESHOLD, 150);
}

#[test]
fn fresh_rack_at_rest_takes_a_shot_of_no_power() {
    let mut table = fresh_table();
    let readings = asleep(&table);
    assert!(!table.has_force(&readings));
    let power: f32 = 0.0;
    let angle: f32 = 0.0;
    let speed = power.powf(1.5);
    let struck = table.shoot(
        &readings,
        Scalar::from_bits((speed * angle.cos()).to_bits()),
        Scalar::from_bits((speed * angle.sin()).to_bits()),
    );
    assert!(struck);
    let commands = table.take_commands();
    assert_eq!(commands, vec![halt(WHITE)]);
    match commands[0] {
        Command::SetVelocity { velocity, .. } => assert!(velocity.is_zero()),
        _ => unreachable!(),
    }
}

#[test]
fn shot_gives_the_white_ball_the_velocity() {
    let mut table = fresh_table();
    let readings = asleep(&table);
    let struck = table.shoot(
        &readings,
        Scalar::from_bits(1234.5f32.to_bits()),
        Scalar::from_bits((-77.25f32).to_bits()),
    );
    assert!(struck);
    assert_eq!(
        table.take_commands(),
        vec![Command::SetVelocity { body: handle(WHITE), velocity: vector(1234.5, -77.25) }]
    );
}

#[test]
fn shot_is_refused_while_a_ball_moves() {
    for moving in [WHITE, EIGHT, 17, 30] {
        let mut table = fresh_table();
        let mut readings = asleep(&table);
        for entry in readings.iter_mut() {
            if entry.body == handle(moving) {
                entry.active = true;
                entry.velocity = vector(300.0, -20.0);
            }
        }
        assert!(table.has_force(&readings));
        let before = table.snapshot();
        let struck = table.shoot(
            &readings,
            Scalar::from_bits(500.0f32.to_bits()),
            Scalar::from_bits(0.0f32.to_bits()),
        );
        assert!(!struck);
        assert!(table.take_commands().is_empty());
        assert_eq!(table.snapshot(), before);
    }
}

#[test]
fn shot_is_refused_without_the_white_ball() {
    let mut table = fresh_table();
    table.pocket(BallId::White);
    table.take_commands();
    let readings = asleep(&table);
    assert!(!table.has_force(&readings));
    assert!(!table.shoot(&readings, Scalar::from_whole(10), Scalar::from_whole(0)));
    assert!(table.take_commands().is_empty());
}

#[test]
fn shot_is_refused_before_the_rack() {
    let mut table = PoolTable::new();
    assert!(!table.shoot(&Vec::new(), Scalar::from_whole(10), Scalar::from_whole(0)));
    assert!(table.take_commands().is_empty());
}

#[test]
fn has_force_sees_only_balls_in_play() {
    let mut table = fresh_table();
    assert!(!table.has_force(&Vec::new()));
    assert!(!table.has_force(&vec![reading(0, true, 1.0, 1.0)]));
    assert!(!table.has_force(&vec![reading(6, true, 1.0, 1.0)]));
    assert!(!table.has_force(&vec![reading(77, true, 1.0, 1.0)]));
    assert!(!table.has_force(&vec![reading(EIGHT, false, 100.0, 1.0)]));
    assert!(table.has_force(&vec![reading(EIGHT, true, 0.0, 0.0)]));
    assert!(table.has_force(&vec![reading(EIGHT, false, 0.0, 0.0), reading(30, true, 5.0, 0.0)]));
    table.pocket(BallId::Eight);
    assert!(!table.has_force(&vec![reading(EIGHT, true, 10.0, 0.0)]));
}

#[test]
fn is_active_looks_the_body_up() {
    let table = fresh_table();
    let readings = vec![reading(WHITE, false, 0.0, 0.0), reading(EIGHT, true, 3.0, 4.0)];
    assert!(!table.is_active(None, &readings));
    assert!(!table.is_active(Some(handle(WHITE)), &readings));
    assert!(table.is_active(Some(handle(EIGHT)), &readings));
    assert!(!table.is_active(Some(handle(17)), &readings));
}

#[test]
fn sleeping_ball_with_residual_velocity_is_stopped() {
    let mut table = fresh_table();
    table.speed_up_inactive_ball(&reading(EIGHT, false, 120.0, 40.0));
    assert_eq!(table.take_commands(), vec![halt(EIGHT)]);
}

#[test]
fn sleeping_ball_above_the_threshold_is_left_alone() {
    let mut table = fresh_table();
    table.speed_up_inactive_ball(&reading(EIGHT, false, 200.0, 10.0));
    table.speed_up_inactive_ball(&reading(EIGHT, false, 10.0, -200.0));
    table.speed_up_inactive_ball(&reading(EIGHT, false, 150.0, 0.0));
    table.speed_up_inactive_ball(&reading(EIGHT, false, 0.0, -150.0));
    assert!(table.take_commands().is_empty());
}

#[test]
fn ball_at_rest_is_not_written() {
    let mut table = fresh_table();
    table.speed_up_inactive_ball(&reading(EIGHT, false, 0.0, 0.0));
    table.speed_up_inactive_ball(&reading(EIGHT, false, -0.0, 0.0));
    assert!(table.take_commands().is_empty());
}

#[test]
fn active_ball_is_not_stopped() {
    let mut table = fresh_table();
    table.speed_up_inactive_ball(&reading(EIGHT, true, 120.0, 40.0));
    assert!(table.take_commands().is_empty());
}

#[test]
fn stabilizer_ignores_bodies_that_are_no_ball_in_play() {
    let mut table = fresh_table();
    table.pocket(BallId::Eight);
    table.take_commands();
    table.speed_up_inactive_ball(&reading(EIGHT, false, 120.0, 40.0));
    table.speed_up_inactive_ball(&reading(0, false, 120.0, 40.0));
    table.speed_up_inactive_ball(&reading(6, false, 120.0, 40.0));
    table.speed_up_inactive_ball(&reading(500, false, 120.0, 40.0));
    assert!(table.take_commands().is_empty());
}

#[test]
fn stabilizer_stops_smallest_and_negative_velocities() {
    let mut table = fresh_table();
    table.speed_up_inactive_ball(&reading(17, false, f32::from_bits(1), 0.0));
    table.speed_up_inactive_ball(&reading(18, false, -149.9, 149.9));
    table.speed_up_inactive_ball(&reading(19, false, f32::NAN, 1.0));
    table.speed_up_inactive_ball(&reading(20, false, 1.0, f32::INFINITY));
    assert_eq!(table.take_commands(), vec![halt(17), halt(18)]);
}

#[test]
fn stabilizer_runs_over_the_readings_in_order() {
    let mut table = fresh_table();
    let readings = vec![
        reading(30, false, 1.0, 1.0),
        reading(WHITE, true, 300.0, 0.0),
        reading(EIGHT, false, 120.0, 40.0),
        reading(17, false, 200.0, 10.0),
        reading(18, false, 0.0, 0.0),
        reading(19, true, 10.0, 10.0),
        reading(20, false, -3.0, 0.0),
    ];
    table.speed_up_inactive_balls(&readings);
    assert_eq!(table.take_commands(), vec![halt(30), halt(EIGHT), halt(20)]);
}

#[test]
fn settle_runs_the_stabilizer_only_while_a_ball_moves() {
    let mut table = fresh_table();
    let quiet = vec![reading(EIGHT, false, 120.0, 40.0), reading(WHITE, false, 0.0, 0.0)];
    table.settle(&quiet);
    assert!(table.take_commands().is_empty());
    let busy = vec![reading(EIGHT, false, 120.0, 40.0), reading(WHITE, true, 500.0, 0.0)];
    table.settle(&busy);
    assert_eq!(table.take_commands(), vec![halt(EIGHT)]);
}

#[test]
fn no_force_exactly_when_all_velocities_are_zero_after_the_stabilizer() {
    let cases: Vec<Vec<BodyReading>> = vec![
        vec![reading(WHITE, false, 0.0, 0.0), reading(EIGHT, false, 120.0, 40.0)],
        vec![reading(WHITE, true, 400.0, 0.0), reading(EIGHT, false, 120.0, 40.0)],
        vec![reading(WHITE, false, 149.0, -149.0), reading(EIGHT, true, 0.5, 0.0)],
        vec![reading(17, false, 0.0, 0.0), reading(18, false, -0.0, 0.0)],
        vec![],
    ];
    for readings in cases {
        let mut table = fresh_table();
        let moving = table.has_force(&readings);
        table.speed_up_inactive_balls(&readings);
        let commands = table.take_commands();
        let all_zero = readings.iter().all(|entry| {
            entry.velocity.is_zero()
                || commands.contains(&Command::SetVelocity {
                    body: entry.body,
                    velocity: vector(0.0, 0.0),
                })
        });
        assert_eq!(!moving, all_zero);
    }
}

#[test]
fn cue_ball_is_the_white_ball_at_rest() {
    let mut table = fresh_table();
    let readings = asleep(&table);
    assert_eq!(table.cue_ball(&readings), Some(handle(WHITE)));
    assert!(table.take_commands().is_empty());
}

#[test]
fn cue_ball_is_missing_while_a_ball_moves() {
    let mut table = fresh_table();
    table.pocket(BallId::White);
    table.take_commands();
    assert_eq!(table.cue_ball(&vec![reading(EIGHT, true, 10.0, 0.0)]), None);
    assert!(table.take_commands().is_empty());
    assert_eq!(table.ball(BallId::White).state, BallState::AwaitingRespawn);
}

#[test]
fn cue_ball_respawns_the_white_ball_at_rest() {
    let mut table = fresh_table();
    table.resolve_contacts(&vec![ContactEvent::Started(handle(WHITE), handle(2))]);
    table.take_commands();
    let readings = asleep(&table);
    assert_eq!(table.cue_ball(&readings), Some(handle(32)));
    assert_eq!(
        table.take_commands(),
        vec![Command::Add {
            body: handle(32),
            kind: BodyKind::Ball { x: 6420, y: 7560, radius: 240 }
        }]
    );
    assert_eq!(table.ball(BallId::White).state, BallState::InPlay);
    assert!(table.bodies_match_states());
}

#[test]
fn cue_ball_is_missing_before_the_rack() {
    let mut table = PoolTable::new();
    assert_eq!(table.cue_ball(&Vec::new()), None);
    assert!(table.take_commands().is_empty());
}

#[test]
fn harder_shot_is_a_faster_shot() {
    let mut table = fresh_table();
    let readings = asleep(&table);
    let mut last: Option<f32> = None;
    let mut power: f32 = 0.0;
    while power <= 1400.0 {
        let speed = power.powf(1.5);
        assert!(table.shoot(&readings, scalar_of(speed), scalar_of(0.0)));
        let commands = table.take_commands();
        let given = match commands[0] {
            Command::SetVelocity { velocity, .. } => f32::from_bits(velocity.x.to_bits()),
            _ => unreachable!(),
        };
        assert_eq!(given, speed);
        if let Some(slower) = last {
            assert!(slower < given, "{} {}", slower, given);
        }
        last = Some(given);
        power += 10.0;
    }
    assert_eq!(last, Some(1400.0f32.powf(1.5)));
}

fn scalar_of(value: f32) -> Scalar {
    Scalar::from_bits(value.to_bits())
}
