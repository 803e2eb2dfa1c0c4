use mini_games_server::identifiers::PlayerId;
use mini_games_server::proto::replay::{ActionContent, Game, GameCommand, InReplayCommand, PlayerAction};
use mini_games_server::proto::snake::Direction as WireDirection;
use mini_games_server::proto::game_service::PlayerIdentity;
use mini_games_server::proto::snake as wire;
use mini_games_server::replay::actions::{
    apply_snake_action, apply_tictactoe_action, convert_direction, create_place_command, create_turn_command,
    extract_remove_pair_indices,
};
use mini_games_server::replay::state::{build_snake_proto_state, build_tictactoe_state, is_listed_bot};
use mini_games_server::snake::bot_controller::DeadSnakeBehavior;
use mini_games_server::replay::playback::{
    numbers_match_step, HighlightStep, Playback, PlaybackAction, PlaybackEvent, StepReport,
};
use mini_games_server::replay::session::{
    estimate_total_ticks, handle_replay_command, replay_game_type, replay_game_type_name, ReplayCommandResult,
};
use mini_games_server::replay_session;
use mini_games_server::snake::game::{DeathReason, Direction, FieldSize, GameState, Point, WallCollisionMode};
use mini_games_server::tictactoe::game_state::TicTacToeGameState;
use mini_games_server::tictactoe::types::{FirstPlayerMode, GameStatus, Mark};

fn pid(s: &str) -> PlayerId {
    PlayerId::new(s.to_string())
}

fn action(player_index: i32, content: Option<ActionContent>) -> PlayerAction {
    PlayerAction { tick: 0, player_index, content }
}

fn command(player_index: i32, c: GameCommand) -> PlayerAction {
    action(player_index, Some(ActionContent::Command(Some(c))))
}

#[test]
fn game_names() {
    assert_eq!(replay_game_type_name(Game::Snake), "Snake");
    assert_eq!(replay_game_type_name(Game::Tictactoe), "TicTacToe");
    assert_eq!(replay_game_type_name(Game::NumbersMatch), "NumbersMatch");
    assert_eq!(replay_game_type_name(Game::StackAttack), "StackAttack");
    assert_eq!(replay_game_type_name(Game::Puzzle2048), "Puzzle2048");
    assert_eq!(replay_game_type_name(Game::Unspecified), "Unknown");
}

#[test]
fn unknown_game_is_refused() {
    assert_eq!(replay_game_type(Game::Snake), Ok(Game::Snake));
    assert_eq!(replay_game_type(Game::Unspecified), Err("Unknown game type in replay".to_string()));
}

#[test]
fn replay_commands() {
    let mut paused = false;
    assert_eq!(handle_replay_command(&None, &mut paused), ReplayCommandResult::Nothing);
    assert_eq!(handle_replay_command(&Some(InReplayCommand::StepForward), &mut paused), ReplayCommandResult::Nothing);
    assert_eq!(handle_replay_command(&Some(InReplayCommand::Pause), &mut paused), ReplayCommandResult::StateChanged);
    assert!(paused);
    assert_eq!(handle_replay_command(&Some(InReplayCommand::StepForward), &mut paused), ReplayCommandResult::StepForward);
    assert!(paused);
    assert_eq!(
        handle_replay_command(&Some(InReplayCommand::SetSpeed { speed_bits: 2.0_f32.to_bits() }), &mut paused),
        ReplayCommandResult::SpeedChanged
    );
    assert_eq!(handle_replay_command(&Some(InReplayCommand::Resume), &mut paused), ReplayCommandResult::StateChanged);
    assert!(!paused);
    assert_eq!(handle_replay_command(&Some(InReplayCommand::Restart), &mut paused), ReplayCommandResult::Restart);
    assert!(!paused);
}

#[test]
fn tick_replays_span_one_past_the_last_tick() {
    assert_eq!(estimate_total_ticks(&[]), 0);
    assert_eq!(estimate_total_ticks(&[0, 0]), 0);
    assert_eq!(estimate_total_ticks(&[3, 9, 4]), 10);
    assert_eq!(estimate_total_ticks(&[-4, 2]), 3);
}

#[test]
fn stepped_replays_show_at_least_one_tick() {
    assert_eq!(replay_session::estimate_total_ticks(&[]), 1);
    assert_eq!(replay_session::estimate_total_ticks(&[0]), 1);
    assert_eq!(replay_session::estimate_total_ticks(&[3, 9, 4]), 9);
}

#[test]
fn playback_runs_pauses_and_steps() {
    let mut playback = Playback::new(3);
    assert_eq!(playback.on_event(PlaybackEvent::TimerFired), PlaybackAction::Advance);
    assert_eq!(playback.advanced(true, false, false), StepReport { position: 1, is_finished: false });
    assert_eq!(
        playback.on_event(PlaybackEvent::Command(Some(InReplayCommand::Pause))),
        PlaybackAction::ShowState
    );
    assert!(playback.is_paused);
    assert_eq!(playback.on_event(PlaybackEvent::TimerFired), PlaybackAction::Wait);
    assert_eq!(
        playback.on_event(PlaybackEvent::Command(Some(InReplayCommand::StepForward))),
        PlaybackAction::Advance
    );
    assert_eq!(playback.advanced(true, false, false), StepReport { position: 2, is_finished: false });
    assert_eq!(
        playback.on_event(PlaybackEvent::Command(Some(InReplayCommand::SetSpeed { speed_bits: 0 }))),
        PlaybackAction::Retime
    );
    assert_eq!(
        playback.on_event(PlaybackEvent::Command(Some(InReplayCommand::Resume))),
        PlaybackAction::ShowState
    );
    assert_eq!(playback.on_event(PlaybackEvent::TimerFired), PlaybackAction::Advance);
    assert_eq!(playback.advanced(true, false, false), StepReport { position: 3, is_finished: false });
    // The game goes on past the recording's estimate: the position shown stays at the total.
    assert_eq!(playback.advanced(true, false, true), StepReport { position: 3, is_finished: true });
    assert_eq!(playback.position, 4);
}

#[test]
fn finished_playback_only_restarts() {
    let mut playback = Playback::new(5);
    playback.advanced(false, true, false);
    assert!(playback.finished);
    assert_eq!(playback.position, 0);
    assert_eq!(playback.on_event(PlaybackEvent::TimerFired), PlaybackAction::Wait);
    assert_eq!(
        playback.on_event(PlaybackEvent::Command(Some(InReplayCommand::Pause))),
        PlaybackAction::Wait
    );
    assert!(!playback.is_paused);
    assert_eq!(
        playback.on_event(PlaybackEvent::Command(Some(InReplayCommand::Restart))),
        PlaybackAction::Restart
    );
}

#[test]
fn pause_then_resume_restores_the_playback() {
    let mut playback = Playback::new(5);
    playback.advanced(true, false, false);
    let before = playback;
    playback.on_event(PlaybackEvent::Command(Some(InReplayCommand::Pause)));
    playback.on_event(PlaybackEvent::Command(Some(InReplayCommand::Resume)));
    assert_eq!(playback, before);
}

fn snake_game() -> GameState {
    let mut game = GameState::new(FieldSize { width: 10, height: 10 }, WallCollisionMode::Death, 1);
    game.add_snake(pid("a"), Point::new(2, 5), Direction::Up);
    game.add_snake(pid("b"), Point::new(7, 5), Direction::Up);
    game
}

#[test]
fn recorded_snake_turns_and_disconnects() {
    let players = vec![pid("a"), pid("b")];
    let mut game = snake_game();
    apply_snake_action(&mut game, &command(1, GameCommand::SnakeTurn { direction: WireDirection::Left }), &players);
    assert_eq!(game.snakes[1].snake.pending_direction, Some(Direction::Left));
    assert_eq!(game.snakes[0].snake.pending_direction, None);

    apply_snake_action(&mut game, &action(0, Some(ActionContent::Disconnected)), &players);
    assert_eq!(game.snakes[0].snake.death_reason, Some(DeathReason::PlayerDisconnected));
    assert_eq!(game.game_end_reason, Some(DeathReason::PlayerDisconnected));
}

#[test]
fn unusable_snake_actions_are_ignored() {
    let players = vec![pid("a"), pid("b")];
    let mut game = snake_game();
    apply_snake_action(&mut game, &command(2, GameCommand::SnakeTurn { direction: WireDirection::Left }), &players);
    apply_snake_action(&mut game, &command(-1, GameCommand::SnakeTurn { direction: WireDirection::Left }), &players);
    apply_snake_action(
        &mut game,
        &command(0, GameCommand::SnakeTurn { direction: WireDirection::Unspecified }),
        &players,
    );
    apply_snake_action(&mut game, &command(0, GameCommand::TicTacToePlace { x: 0, y: 0 }), &players);
    apply_snake_action(&mut game, &action(0, None), &players);
    apply_snake_action(&mut game, &action(0, Some(ActionContent::Command(None))), &players);
    for entry in &game.snakes {
        assert_eq!(entry.snake.pending_direction, None);
        assert!(entry.snake.is_alive());
    }
    assert_eq!(game.game_end_reason, None);
}

#[test]
fn recorded_placements_replay_on_the_board() {
    let players = vec![pid("x"), pid("o")];
    let mut game = TicTacToeGameState::new(3, 3, 3, players.clone(), FirstPlayerMode::Host);
    apply_tictactoe_action(&mut game, &command(0, GameCommand::TicTacToePlace { x: 1, y: 1 }), &players);
    assert_eq!(game.board[1][1], Mark::X);
    assert_eq!(game.current_player, pid("o"));
    // Out of turn: refused, nothing changes.
    apply_tictactoe_action(&mut game, &command(0, GameCommand::TicTacToePlace { x: 0, y: 0 }), &players);
    assert_eq!(game.board[0][0], Mark::Empty);
    // Unknown player index and other games' commands are ignored.
    apply_tictactoe_action(&mut game, &command(5, GameCommand::TicTacToePlace { x: 0, y: 0 }), &players);
    apply_tictactoe_action(&mut game, &command(1, GameCommand::StackAttackJump), &players);
    assert_eq!(game.board[0][0], Mark::Empty);
    apply_tictactoe_action(&mut game, &command(1, GameCommand::TicTacToePlace { x: 0, y: 0 }), &players);
    assert_eq!(game.board[0][0], Mark::O);
    assert_eq!(game.status, GameStatus::InProgress);
    assert_eq!(game.last_move, Some((0, 0)));
}

#[test]
fn pair_removals_are_recognised() {
    let removal = command(0, GameCommand::NumbersMatchRemovePair { first_index: 4, second_index: 13 });
    assert_eq!(extract_remove_pair_indices(&removal), Some((4, 13)));
    assert_eq!(extract_remove_pair_indices(&command(0, GameCommand::NumbersMatchRefill)), None);
    assert_eq!(extract_remove_pair_indices(&action(0, Some(ActionContent::Disconnected))), None);
    assert_eq!(extract_remove_pair_indices(&action(0, None)), None);
}

fn identity(id: &str, is_bot: bool) -> PlayerIdentity {
    PlayerIdentity { player_id: id.to_string(), is_bot }
}

#[test]
fn bot_flags_come_from_the_first_listing() {
    let players = vec![identity("a", false), identity("bot", true), identity("bot", false)];
    assert!(is_listed_bot(&players, &pid("bot")));
    assert!(!is_listed_bot(&players, &pid("a")));
    assert!(!is_listed_bot(&players, &pid("missing")));
}

#[test]
fn snake_state_on_the_wire() {
    let mut game = snake_game();
    game.food_set.insert(Point::new(4, 4));
    game.kill_snake(&pid("b"), DeathReason::PlayerDisconnected);
    let players = vec![identity("a", false), identity("b", true)];
    let state = build_snake_proto_state(&game, &players, 12, 150, DeadSnakeBehavior::StayOnField);
    assert_eq!(state.tick, 12);
    assert_eq!(state.snakes.len(), 2);
    let a = &state.snakes[0];
    assert_eq!(a.identity, Some(identity("a", false)));
    assert_eq!(
        a.segments,
        vec![wire::Position { x: 2, y: 5 }, wire::Position { x: 2, y: 6 }, wire::Position { x: 2, y: 7 }]
    );
    assert!(a.alive);
    assert_eq!(a.score, 0);
    let b = &state.snakes[1];
    assert_eq!(b.identity, Some(identity("b", true)));
    assert!(!b.alive);
    assert_eq!(state.food, vec![wire::Position { x: 4, y: 4 }]);
    assert_eq!((state.field_width, state.field_height), (10, 10));
    assert_eq!(state.tick_interval_ms, 150);
    assert_eq!(state.wall_collision_mode, wire::WallCollisionMode::Death);
    assert_eq!(state.dead_snake_behavior, wire::DeadSnakeBehavior::StayOnField);
}

#[test]
fn tictactoe_state_on_the_wire() {
    let ids = vec![pid("x"), pid("o")];
    let mut game = TicTacToeGameState::new(3, 3, 3, ids, FirstPlayerMode::Host);
    game.place_mark(&pid("x"), 1, 2).unwrap();
    let players = vec![identity("x", true), identity("o", false)];
    let state = build_tictactoe_state(&game, &players);
    assert!(state.player_x.unwrap().is_bot);
    assert!(!state.player_o.unwrap().is_bot);
    let current = state.current_player.unwrap();
    assert_eq!(current.player_id, "o");
    assert!(!current.is_bot);
    assert_eq!(state.board.len(), 1);
    assert_eq!((state.board[0].x, state.board[0].y, state.board[0].mark), (1, 2, 2));
}

#[test]
fn recorded_commands_replay_as_played() {
    assert_eq!(create_turn_command(Direction::Down), GameCommand::SnakeTurn { direction: WireDirection::Down });
    assert_eq!(create_place_command(2, 1), GameCommand::TicTacToePlace { x: 2, y: 1 });

    let players = vec![pid("a"), pid("b")];
    let mut replayed = snake_game();
    let mut played = snake_game();
    apply_snake_action(&mut replayed, &command(0, create_turn_command(Direction::Right)), &players);
    played.set_snake_direction(&pid("a"), Direction::Right);
    assert_eq!(replayed.snakes[0].snake.pending_direction, played.snakes[0].snake.pending_direction);
    assert_eq!(replayed.snakes[0].snake.pending_direction, Some(Direction::Right));

    let ids = vec![pid("x"), pid("o")];
    let mut game = TicTacToeGameState::new(3, 3, 3, ids.clone(), FirstPlayerMode::Host);
    apply_tictactoe_action(&mut game, &command(0, create_place_command(2, 1)), &ids);
    assert_eq!(game.board[1][2], Mark::X);
}

#[test]
fn numbers_match_replay_highlights_removals_first() {
    let removal = command(0, GameCommand::NumbersMatchRemovePair { first_index: 1, second_index: 9 });
    let refill = command(0, GameCommand::NumbersMatchRefill);
    assert_eq!(numbers_match_step(None, Some(&removal)), HighlightStep::Highlight(1, 9));
    assert_eq!(numbers_match_step(Some((1, 9)), Some(&removal)), HighlightStep::ApplyHighlighted);
    assert_eq!(numbers_match_step(None, Some(&refill)), HighlightStep::Apply);
    assert_eq!(numbers_match_step(None, None), HighlightStep::Finish);
    assert_eq!(numbers_match_step(Some((1, 9)), None), HighlightStep::ApplyHighlighted);
}

#[test]
fn wire_directions() {
    assert_eq!(convert_direction(WireDirection::Up), Some(Direction::Up));
    assert_eq!(convert_direction(WireDirection::Down), Some(Direction::Down));
    assert_eq!(convert_direction(WireDirection::Left), Some(Direction::Left));
    assert_eq!(convert_direction(WireDirection::Right), Some(Direction::Right));
    assert_eq!(convert_direction(WireDirection::Unspecified), None);
}
