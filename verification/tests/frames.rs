use motion_sim::body::TrackedBody;
use motion_sim::motion::{Position, Velocity};
use motion_sim::world::{
    frame, list_players_system, move_positions_system, run_frames, spawn_player_system, World,
    PLAYER_NAME, PLAYER_RISE,
};

const SECOND: u64 = 1_000_000_000;

#[test]
fn startup_makes_one_player_at_rest_at_the_origin() {
    let mut world = World::new();
    assert_eq!(world.len(), 0);
    spawn_player_system(&mut world);
    assert_eq!(world.len(), 1);
    let player = world.body(0).unwrap();
    assert_eq!(player.name(), "Gustaw");
    assert_eq!(player.position(), Position { x: 0, y: 0, z: 0 });
    assert_eq!(player.velocity(), Velocity { x: 0, y: 100_000, z: 0 });
    assert_eq!(PLAYER_NAME, "Gustaw");
    assert_eq!(PLAYER_RISE, 100_000);
}

#[test]
fn body_beyond_the_last_is_none() {
    let mut world = World::new();
    assert!(world.body(0).is_none());
    spawn_player_system(&mut world);
    assert!(world.body(0).is_some());
    assert!(world.body(1).is_none());
    assert!(world.body(usize::MAX).is_none());
}

#[test]
fn spawn_returns_the_place_of_the_body() {
    let mut world = World::new();
    let still = Velocity { x: 0, y: 0, z: 0 };
    assert_eq!(world.spawn(TrackedBody::new("a".to_string(), Position::origin(), still)), 0);
    assert_eq!(world.spawn(TrackedBody::new("b".to_string(), Position::origin(), still)), 1);
    assert_eq!(world.body(1).unwrap().name(), "b");
    assert_eq!(world.body(0).unwrap().name(), "a");
}

#[test]
fn frame_reports_the_position_after_the_move() {
    let mut world = World::new();
    spawn_player_system(&mut world);
    let lines = frame(&mut world, SECOND);
    assert_eq!(lines, vec!["Player Gustaw pos(0.0, 0.1, 0.0) velocity(0.0, 0.1, 0.0)".to_string()]);
    assert_eq!(world.body(0).unwrap().position(), Position { x: 0, y: 100_000_000_000_000, z: 0 });
}

#[test]
fn kth_report_shows_the_position_after_k_moves() {
    let deltas: [u64; 5] = [SECOND, 2 * SECOND, 500_000_000, 0, 16_666_667];

    let mut world = World::new();
    spawn_player_system(&mut world);
    let reports = run_frames(&mut world, &deltas);
    assert_eq!(reports.len(), deltas.len());

    let mut stepped = World::new();
    spawn_player_system(&mut stepped);
    let before_any = list_players_system(&stepped);
    let mut after: Vec<Vec<String>> = Vec::new();
    for nanos in deltas {
        move_positions_system(&mut stepped, nanos);
        after.push(list_players_system(&stepped));
    }

    for k in 0..deltas.len() {
        assert_eq!(reports[k], after[k]);
    }
    assert_ne!(reports[0], before_any);
    assert_ne!(reports[0], after[1]);
    assert_ne!(reports[1], after[0]);
    assert_ne!(reports[1], after[2]);
    assert_eq!(
        stepped.body(0).unwrap().position(),
        world.body(0).unwrap().position()
    );
}

#[test]
fn reports_of_a_run_in_full() {
    let mut world = World::new();
    spawn_player_system(&mut world);
    let reports = run_frames(&mut world, &[SECOND, SECOND, 500_000_000]);
    assert_eq!(
        reports,
        vec![
            vec!["Player Gustaw pos(0.0, 0.1, 0.0) velocity(0.0, 0.1, 0.0)".to_string()],
            vec!["Player Gustaw pos(0.0, 0.2, 0.0) velocity(0.0, 0.1, 0.0)".to_string()],
            vec!["Player Gustaw pos(0.0, 0.25, 0.0) velocity(0.0, 0.1, 0.0)".to_string()],
        ]
    );
}

#[test]
fn a_run_without_frames_reports_nothing_and_moves_nothing() {
    let mut world = World::new();
    spawn_player_system(&mut world);
    let reports = run_frames(&mut world, &[]);
    assert!(reports.is_empty());
    assert_eq!(world.body(0).unwrap().position(), Position::origin());
}

#[test]
fn a_run_in_two_parts_ends_where_the_whole_run_ends() {
    let deltas: [u64; 4] = [3, 1_000, SECOND, 77];
    let mut whole = World::new();
    spawn_player_system(&mut whole);
    run_frames(&mut whole, &deltas);

    let mut parts = World::new();
    spawn_player_system(&mut parts);
    run_frames(&mut parts, &deltas[..1]);
    run_frames(&mut parts, &deltas[1..]);

    assert_eq!(parts.body(0).unwrap().position(), whole.body(0).unwrap().position());
    assert_eq!(list_players_system(&parts), list_players_system(&whole));
}
