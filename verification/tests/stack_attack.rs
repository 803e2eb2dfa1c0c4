use std::time::Duration;

use mini_games_server::proto::stack_attack as proto;
use mini_games_server::proto::stack_attack::{LineClearedEvent, StackAttackLobbySettings};
use mini_games_server::session_rng::SessionRng;
use mini_games_server::stack_attack::box_entity::BoxEntity;
use mini_games_server::identifiers::PlayerId;
use mini_games_server::stack_attack::game_state::{calculate_spawn_x, StackAttackGameState, WorkerSpawn, PATTERN_COUNT};
use mini_games_server::stack_attack::settings::{StackAttackSessionSettings, FIELD_HEIGHT, FIELD_WIDTH};
use mini_games_server::stack_attack::types::{
    CraneState, GameOverReason, HorizontalDirection, Point, WorkerState,
};

#[test]
fn spawn_columns_split_the_field_evenly() {
    assert_eq!(calculate_spawn_x(0, 1, 15), 8);
    assert_eq!(calculate_spawn_x(0, 2, 15), 5);
    assert_eq!(calculate_spawn_x(1, 2, 15), 10);
    assert_eq!(calculate_spawn_x(0, 3, 15), 4);
    assert_eq!(calculate_spawn_x(1, 3, 15), 8);
    assert_eq!(calculate_spawn_x(2, 3, 15), 11);
    assert_eq!(calculate_spawn_x(0, 4, 15), 3);
    assert_eq!(calculate_spawn_x(3, 4, 15), 12);
}

#[test]
fn spawn_columns_round_like_the_float_formula() {
    for total in 1..=4usize {
        for index in 0..total {
            let expected = (15.0_f32 / (total + 1) as f32 * (index + 1) as f32).round() as i32;
            assert_eq!(calculate_spawn_x(index, total, 15), expected);
        }
    }
}

#[test]
fn new_game_starts_at_level_one() {
    let state = StackAttackGameState::new(&[]);
    assert_eq!(state.score, 0);
    assert_eq!(state.lines_cleared, 0);
    assert_eq!(state.boxes_pushed, 0);
    assert!(!state.is_game_over());
    assert_eq!(state.game_over_reason, None);
    assert_eq!(state.difficulty_level, 1);
    assert_eq!(state.next_crane_id, 1);
}

#[test]
fn disconnect_ends_the_game() {
    let mut state = StackAttackGameState::new(&[]);
    state.handle_player_disconnect();
    assert!(state.is_game_over());
    assert_eq!(state.game_over_reason, Some(GameOverReason::PlayerDisconnected));
}

#[test]
fn difficulty_rises_every_150_ticks() {
    let mut state = StackAttackGameState::new(&[]);
    state.total_ticks = 149;
    state.update_difficulty();
    assert_eq!(state.difficulty_level, 1);
    state.total_ticks = 150;
    state.update_difficulty();
    assert_eq!(state.difficulty_level, 2);
    state.total_ticks = 1000;
    state.update_difficulty();
    assert_eq!(state.difficulty_level, 7);
}

#[test]
fn crane_pacing_by_level() {
    let mut state = StackAttackGameState::new(&[]);
    let expected = [(1, 15, 1), (2, 13, 1), (3, 11, 2), (5, 7, 3), (6, 5, 3), (7, 4, 4), (9, 4, 5), (20, 4, 5)];
    for (level, interval, cranes) in expected {
        state.difficulty_level = level;
        assert_eq!(state.get_current_crane_spawn_interval(), interval);
        assert_eq!(state.get_current_max_cranes(), cranes);
    }
}

#[test]
fn single_line_scores_100() {
    let mut state = StackAttackGameState::new(&[]);
    let events = state.award_cleared_lines(vec![9]);
    assert_eq!(state.score, 100);
    assert_eq!(state.lines_cleared, 1);
    assert_eq!(events, vec![LineClearedEvent { y: 9, points_earned: 100 }]);
}

#[test]
fn multi_line_clear_earns_a_bonus() {
    let mut state = StackAttackGameState::new(&[]);
    let events = state.award_cleared_lines(vec![9, 8, 7]);
    assert_eq!(state.score, 400);
    assert_eq!(state.lines_cleared, 3);
    assert_eq!(events.len(), 3);
    for (event, y) in events.iter().zip([9, 8, 7]) {
        assert_eq!(event.y, y);
        assert_eq!(event.points_earned, 150);
    }
}

#[test]
fn no_cleared_line_changes_nothing() {
    let mut state = StackAttackGameState::new(&[]);
    let events = state.award_cleared_lines(vec![]);
    assert!(events.is_empty());
    assert_eq!(state.score, 0);
}

#[test]
fn first_crane_comes_after_the_spawn_interval() {
    let mut state = StackAttackGameState::new(&[]);
    let mut rng = SessionRng::new(7);
    for tick in 1..15 {
        assert_eq!(state.maybe_spawn_crane(&mut rng, 0), None);
        assert_eq!(state.ticks_since_last_crane, tick);
    }
    let crane = state.maybe_spawn_crane(&mut rng, 0).unwrap();
    assert_eq!(crane.crane_id, 1);
    assert!(crane.start_x == -1 || crane.start_x == FIELD_WIDTH as i32);
    assert!(0 <= crane.target_x && crane.target_x < FIELD_WIDTH as i32);
    assert!(crane.pattern_id < PATTERN_COUNT);
    assert_eq!(state.ticks_since_last_crane, 0);
    assert_eq!(state.next_crane_id, 2);
}

#[test]
fn no_crane_while_the_field_holds_the_maximum() {
    let mut state = StackAttackGameState::new(&[]);
    let mut rng = SessionRng::new(7);
    state.ticks_since_last_crane = 100;
    assert_eq!(state.maybe_spawn_crane(&mut rng, 1), None);
    assert_eq!(state.ticks_since_last_crane, 101);
    assert_eq!(state.next_crane_id, 1);
}

#[test]
fn crane_spawns_repeat_for_one_seed() {
    let spawn = |seed: u64| {
        let mut state = StackAttackGameState::new(&[]);
        let mut rng = SessionRng::new(seed);
        state.ticks_since_last_crane = 20;
        state.maybe_spawn_crane(&mut rng, 0)
    };
    assert_eq!(spawn(42), spawn(42));
}

#[test]
fn directions_and_wire_values() {
    assert_eq!(HorizontalDirection::Left.dx(), -1);
    assert_eq!(HorizontalDirection::Right.dx(), 1);
    assert_eq!(HorizontalDirection::from_proto(proto::HorizontalDirection::Left), Some(HorizontalDirection::Left));
    assert_eq!(HorizontalDirection::from_proto(proto::HorizontalDirection::Right), Some(HorizontalDirection::Right));
    assert_eq!(HorizontalDirection::from_proto(proto::HorizontalDirection::Unspecified), None);
    assert_eq!(HorizontalDirection::Left.to_proto(), proto::HorizontalDirection::Left);
    assert_eq!(HorizontalDirection::Right.to_proto(), proto::HorizontalDirection::Right);
    assert_eq!(WorkerState::Jumping.to_proto(), proto::WorkerState::Jumping);
    assert_eq!(CraneState::Leaving.to_proto(), proto::CraneState::Leaving);
    assert_eq!(
        GameOverReason::BoxesReachedCeiling.to_proto(),
        proto::StackAttackGameEndReason::BoxesReachedCeiling
    );
}

#[test]
fn boxes_start_falling() {
    let b = BoxEntity::new(3, Point::new(4, 9), 2);
    assert!(b.falling);
    assert_eq!(b.to_proto(), proto::Box { id: 3, x: 4, y: 9, pattern_id: 2, falling: true });
}

#[test]
fn session_settings_are_fixed() {
    let settings = StackAttackSessionSettings;
    assert_eq!(settings.field_width(), FIELD_WIDTH);
    assert_eq!(settings.field_height(), FIELD_HEIGHT);
    assert_eq!(settings.tick_interval(), Duration::from_millis(200));
}

#[test]
fn lobby_validation() {
    let lobby = StackAttackLobbySettings {};
    assert!(lobby.validate(1).is_ok());
    assert!(lobby.validate(4).is_ok());
    assert_eq!(lobby.validate(0), Err("Stack Attack supports 1-4 players".to_string()));
    assert_eq!(lobby.validate(5), Err("Stack Attack supports 1-4 players".to_string()));
    assert!(lobby.validate_player_count(2).is_ok());
    assert_eq!(
        lobby.validate_player_count(0),
        Err("Stack Attack requires at least 1 player(s)".to_string())
    );
    assert_eq!(
        lobby.validate_player_count(5),
        Err("Stack Attack allows at most 4 players".to_string())
    );
}

fn players(ids: &[&str]) -> Vec<PlayerId> {
    ids.iter().map(|s| PlayerId::new(s.to_string())).collect()
}

#[test]
fn a_lone_worker_enters_mid_field() {
    let state = StackAttackGameState::new(&players(&["p1"]));
    assert_eq!(
        state.workers,
        vec![WorkerSpawn { player_id: PlayerId::new("p1".to_string()), position: Point::new(8, 0), index: 0 }]
    );
    assert_eq!(state.score, 0);
    assert!(!state.is_game_over());
    assert_eq!(state.difficulty_level, 1);
}

#[test]
fn workers_spread_across_the_field_in_player_order() {
    let state = StackAttackGameState::new(&players(&["a", "b", "c", "d"]));
    let columns: Vec<(String, i32, u32)> =
        state.workers.iter().map(|w| (w.player_id.to_string(), w.position.x, w.index)).collect();
    assert_eq!(
        columns,
        vec![
            ("a".to_string(), 3, 0),
            ("b".to_string(), 6, 1),
            ("c".to_string(), 9, 2),
            ("d".to_string(), 12, 3),
        ]
    );
    assert!(state.workers.iter().all(|w| w.position.y == 0));
}

#[test]
fn a_player_listed_twice_keeps_its_last_place() {
    let state = StackAttackGameState::new(&players(&["p1", "p2", "p1"]));
    assert_eq!(state.workers.len(), 2);
    let p1 = state.workers.iter().find(|w| w.player_id.as_str() == "p1").unwrap();
    assert_eq!((p1.position, p1.index), (Point::new(11, 0), 2));
    let p2 = state.workers.iter().find(|w| w.player_id.as_str() == "p2").unwrap();
    assert_eq!((p2.position, p2.index), (Point::new(8, 0), 1));
}

#[test]
fn a_game_without_players_has_no_workers() {
    let state = StackAttackGameState::new(&[]);
    assert!(state.workers.is_empty());
}
