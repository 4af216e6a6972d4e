use motion_sim::body::TrackedBody;
use motion_sim::motion::{Position, Velocity};
use motion_sim::text::{metres, metres_per_second};
use motion_sim::world::{list_players_system, move_positions_system, spawn_player_system, World};

#[test]
fn metres_of_whole_and_broken_lengths() {
    assert_eq!(metres(0), "0.0");
    assert_eq!(metres(1_000_000_000_000_000), "1.0");
    assert_eq!(metres(100_000_000_000_000), "0.1");
    assert_eq!(metres(1_500_000_000_000_000), "1.5");
    assert_eq!(metres(12_000_000_000_000_000), "12.0");
    assert_eq!(metres(1), "0.000000000000001");
    assert_eq!(metres(10), "0.00000000000001");
    assert_eq!(metres(1_000_000_000_000_001), "1.000000000000001");
    assert_eq!(metres(120_034_500_000_000_000), "120.0345");
    assert_eq!(metres(999_999_999_999_999), "0.999999999999999");
}

#[test]
fn metres_of_negative_lengths() {
    assert_eq!(metres(-1), "-0.000000000000001");
    assert_eq!(metres(-100_000_000_000_000), "-0.1");
    assert_eq!(metres(-2_000_000_000_000_000), "-2.0");
    assert_eq!(metres(-2_250_000_000_000_000), "-2.25");
}

#[test]
fn metres_at_the_bounds() {
    assert_eq!(metres(i128::MAX), "170141183460469231731687.303715884105727");
    assert_eq!(metres(i128::MIN), "-170141183460469231731687.303715884105728");
}

#[test]
fn metres_per_second_of_speeds() {
    assert_eq!(metres_per_second(0), "0.0");
    assert_eq!(metres_per_second(100_000), "0.1");
    assert_eq!(metres_per_second(1_000_000), "1.0");
    assert_eq!(metres_per_second(-1), "-0.000001");
    assert_eq!(metres_per_second(-3_141_590), "-3.14159");
    assert_eq!(metres_per_second(i64::MAX), "9223372036854.775807");
    assert_eq!(metres_per_second(i64::MIN), "-9223372036854.775808");
}

#[test]
fn position_and_velocity_as_text() {
    let position = Position { x: 0, y: 250_000_000_000_000, z: -1_000_000_000_000_000 };
    assert_eq!(position.to_text(), "0.0, 0.25, -1.0");
    let velocity = Velocity { x: 1, y: 100_000, z: -20_000_000 };
    assert_eq!(velocity.to_text(), "0.000001, 0.1, -20.0");
}

#[test]
fn log_line_names_the_body_and_its_state() {
    let body = TrackedBody::new(
        "Ada".to_string(),
        Position { x: 1_000_000_000_000_000, y: 0, z: -500_000_000_000_000 },
        Velocity { x: 0, y: -2_500_000, z: 7 },
    );
    assert_eq!(body.log_line(), "Player Ada pos(1.0, 0.0, -0.5) velocity(0.0, -2.5, 0.000007)");
}

#[test]
fn log_line_of_an_empty_name() {
    let body = TrackedBody::new(String::new(), Position::origin(), Velocity { x: 0, y: 0, z: 0 });
    assert_eq!(body.log_line(), "Player  pos(0.0, 0.0, 0.0) velocity(0.0, 0.0, 0.0)");
}

#[test]
fn player_line_after_one_second() {
    let mut world = World::new();
    spawn_player_system(&mut world);
    move_positions_system(&mut world, 1_000_000_000);
    let lines = list_players_system(&world);
    assert_eq!(lines.len(), 1);
    assert!(lines[0].contains("0.1"));
    assert!(lines[0].contains("Gustaw"));
    assert_eq!(lines[0], "Player Gustaw pos(0.0, 0.1, 0.0) velocity(0.0, 0.1, 0.0)");
}

#[test]
fn an_empty_world_reports_nothing() {
    let world = World::new();
    assert!(list_players_system(&world).is_empty());
}

#[test]
fn lines_come_in_the_order_of_creation() {
    let mut world = World::new();
    world.spawn(TrackedBody::new("b".to_string(), Position::origin(), Velocity { x: 0, y: 0, z: 0 }));
    spawn_player_system(&mut world);
    world.spawn(TrackedBody::new("a".to_string(), Position::origin(), Velocity { x: 0, y: 0, z: 0 }));
    let lines = list_players_system(&world);
    assert_eq!(
        lines,
        vec![
            "Player b pos(0.0, 0.0, 0.0) velocity(0.0, 0.0, 0.0)".to_string(),
            "Player Gustaw pos(0.0, 0.0, 0.0) velocity(0.0, 0.1, 0.0)".to_string(),
            "Player a pos(0.0, 0.0, 0.0) velocity(0.0, 0.0, 0.0)".to_string(),
        ]
    );
}

#[test]
fn different_positions_give_different_lines() {
    let still = Velocity { x: 0, y: 0, z: 0 };
    let points = [
        Position { x: 0, y: 0, z: 0 },
        Position { x: 1, y: 0, z: 0 },
        Position { x: -1, y: 0, z: 0 },
        Position { x: 0, y: 10, z: 0 },
        Position { x: 0, y: 100, z: 0 },
        Position { x: 0, y: 0, z: 1_000_000_000_000_000 },
        Position { x: 0, y: 0, z: 10_000_000_000_000_000 },
    ];
    for (i, a) in points.iter().enumerate() {
        for (j, b) in points.iter().enumerate() {
            let line_a = TrackedBody::new("p".to_string(), *a, still).log_line();
            let line_b = TrackedBody::new("p".to_string(), *b, still).log_line();
            assert_eq!(line_a == line_b, i == j);
        }
    }
}
