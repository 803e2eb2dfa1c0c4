use mini_games_server::connection::{
    connect_reply, not_connected_message, route_message, stream_step, HandleResult, MessageKind, Route, StreamReply,
};
use mini_games_server::game_over::{
    game_over_recipients, game_over_summary, play_again_notification, play_again_step, PlayAgainStatus,
};
use mini_games_server::identifiers::{ClientId, PlayerId};
use mini_games_server::snake::game::{Direction, FieldSize, GameState, Point, WallCollisionMode};

#[test]
fn version_mismatch_is_refused() {
    assert_eq!(
        route_message("1.0", "2.0", true, Some(MessageKind::Ping)),
        Route::Refuse("Version mismatch: client version '1.0', server version '2.0'".to_string())
    );
}

#[test]
fn messages_are_routed_by_connection_state() {
    assert_eq!(route_message("v", "v", false, None), Route::Ignore);
    assert_eq!(route_message("v", "v", false, Some(MessageKind::Connect)), Route::Connect);
    assert_eq!(
        route_message("v", "v", true, Some(MessageKind::Connect)),
        Route::Error("Already connected".to_string())
    );
    assert_eq!(route_message("v", "v", true, Some(MessageKind::Ping)), Route::Pong);
    assert_eq!(route_message("v", "v", false, Some(MessageKind::Ping)), Route::Ignore);
    assert_eq!(
        route_message("v", "v", false, Some(MessageKind::Disconnect)),
        Route::Close { was_connected: false }
    );
    assert_eq!(route_message("v", "v", true, Some(MessageKind::CreateLobby)), Route::Dispatch);
    assert_eq!(
        route_message("v", "v", false, Some(MessageKind::CreateLobby)),
        Route::Error("Not connected: cannot create lobby".to_string())
    );
    assert_eq!(
        route_message("v", "v", false, Some(MessageKind::InGame)),
        Route::Error("Not connected: cannot send in-game command".to_string())
    );
    assert_eq!(not_connected_message(MessageKind::WatchReplayTogether), "Not connected: cannot watch replay together");
}

#[test]
fn connect_answers() {
    let (ok, result) = connect_reply(true);
    assert!(ok.success);
    assert_eq!(ok.error_message, "");
    assert_eq!(result, HandleResult::Continue);
    let (refused, result) = connect_reply(false);
    assert!(!refused.success);
    assert_eq!(
        refused.error_message,
        "Client ID already connected. Only one connection per client ID is allowed."
    );
    assert_eq!(result, HandleResult::Disconnect);
}

#[test]
fn stream_steps() {
    assert_eq!(stream_step(false, MessageKind::Connect, Some(true)), (true, StreamReply::Nothing, false));
    assert_eq!(
        stream_step(false, MessageKind::Connect, Some(false)),
        (false, StreamReply::Error("Client ID already connected".to_string()), true)
    );
    assert_eq!(
        stream_step(true, MessageKind::Connect, None),
        (true, StreamReply::Error("Already connected".to_string()), false)
    );
    assert_eq!(stream_step(false, MessageKind::Ping, None), (false, StreamReply::Pong, false));
    assert_eq!(stream_step(true, MessageKind::Disconnect, None), (true, StreamReply::Nothing, true));
    assert_eq!(stream_step(true, MessageKind::Turn, None), (true, StreamReply::Handle, false));
    assert_eq!(
        stream_step(false, MessageKind::Turn, None),
        (false, StreamReply::Error("Not connected: cannot send turn".to_string()), false)
    );
}

fn pid(s: &str) -> PlayerId {
    PlayerId::new(s.to_string())
}

#[test]
fn game_over_scores_and_winner() {
    let mut game = GameState::new(FieldSize { width: 10, height: 10 }, WallCollisionMode::Death, 1);
    let (scores, winner) = game_over_summary(&game);
    assert!(scores.is_empty());
    assert_eq!(winner, "");
    game.add_snake(pid("a"), Point::new(2, 5), Direction::Up);
    game.add_snake(pid("b"), Point::new(5, 5), Direction::Up);
    game.add_snake(pid("c"), Point::new(8, 5), Direction::Up);
    game.snakes[0].snake.score = 3;
    game.snakes[1].snake.score = 5;
    game.snakes[2].snake.score = 5;
    let (scores, winner) = game_over_summary(&game);
    assert_eq!(scores.len(), 3);
    assert_eq!((scores[0].client_id.as_str(), scores[0].score), ("a", 3));
    assert_eq!((scores[1].client_id.as_str(), scores[1].score), ("b", 5));
    // Like `max_by_key`, the last of equal best scores wins.
    assert_eq!(winner, "c");
}

#[test]
fn game_over_goes_to_players_then_observers() {
    let r = game_over_recipients(&[pid("a"), pid("b")], &[pid("o")]);
    assert_eq!(
        r,
        vec![ClientId::new("a".to_string()), ClientId::new("b".to_string()), ClientId::new("o".to_string())]
    );
}

#[test]
fn play_again_votes() {
    let closed = play_again_notification(&PlayAgainStatus::NotAvailable);
    assert!(!closed.available && closed.ready_players.is_empty() && closed.pending_players.is_empty());
    let open = PlayAgainStatus::Available {
        ready_player_ids: vec!["a".to_string()],
        pending_player_ids: vec!["b".to_string()],
    };
    let (note, start) = play_again_step(&open);
    assert!(note.available && !start);
    assert_eq!(note.ready_players[0].player_id, "a");
    assert!(!note.pending_players[0].is_bot);
    let all_ready = PlayAgainStatus::Available {
        ready_player_ids: vec!["a".to_string(), "b".to_string()],
        pending_player_ids: vec![],
    };
    assert!(play_again_step(&all_ready).1);
    assert!(!play_again_step(&PlayAgainStatus::NotAvailable).1);
}
