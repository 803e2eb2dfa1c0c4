use mini_games_server::connection_tracker::ConnectionTracker;
use mini_games_server::game_over::PlayAgainStatus;
use mini_games_server::game_stream::{
    feed_step, game_stream_step, FeedStep, GameStreamAction, GameStreamEvent, GameStreamPhase,
};
use mini_games_server::identifiers::{ClientId, LobbyId, PlayerId, SessionId};
use mini_games_server::proto::replay::Game;
use mini_games_server::proto::snake::Direction as WireDirection;
use mini_games_server::replay::session::replay_can_start;
use mini_games_server::sessions::{
    game_over_step, GameEndMessage, GameOverAction, GameOverEvent, GameOverStage, SessionRegistry,
};
use mini_games_server::snake::game::{Direction, FieldSize, GameState, Point, WallCollisionMode};

fn cid(s: &str) -> ClientId {
    ClientId::new(s.to_string())
}

fn sid(s: &str) -> SessionId {
    SessionId::new(s.to_string())
}

fn pid(s: &str) -> PlayerId {
    PlayerId::new(s.to_string())
}

fn join(client: &str, session: &str) -> GameStreamPhase {
    let (p, a) = game_stream_step(GameStreamPhase::Waiting, GameStreamEvent::Connect(cid(client)));
    assert_eq!(a, GameStreamAction::AddClient(cid(client)));
    let (p, a) = game_stream_step(p, GameStreamEvent::Added(true));
    assert_eq!(a, GameStreamAction::FindSession(cid(client)));
    let (p, a) = game_stream_step(p, GameStreamEvent::SessionFound(Some(sid(session))));
    assert_eq!(a, GameStreamAction::StartFeed(sid(session)));
    assert_eq!(p, GameStreamPhase::Playing(cid(client), sid(session)));
    p
}

#[test]
fn a_turn_before_connecting_is_ignored() {
    let (p, a) = game_stream_step(GameStreamPhase::Waiting, GameStreamEvent::Turn(WireDirection::Up));
    assert_eq!((p, a), (GameStreamPhase::Waiting, GameStreamAction::Nothing));
}

#[test]
fn a_connected_client_steers_its_snake() {
    let p = join("c1", "s1");
    let (p, a) = game_stream_step(p, GameStreamEvent::Turn(WireDirection::Left));
    assert_eq!(a, GameStreamAction::SetDirection(sid("s1"), cid("c1"), Direction::Left));
    let (p, a) = game_stream_step(p, GameStreamEvent::Turn(WireDirection::Unspecified));
    assert_eq!(a, GameStreamAction::Nothing);
    assert_eq!(p, GameStreamPhase::Playing(cid("c1"), sid("s1")));
}

#[test]
fn a_second_connect_closes_the_stream() {
    let p = join("c1", "s1");
    let (p, a) = game_stream_step(p, GameStreamEvent::Connect(cid("c2")));
    assert_eq!((p, a), (GameStreamPhase::Closed, GameStreamAction::RemoveClientAndClose(cid("c1"))));
}

#[test]
fn a_duplicate_client_is_refused() {
    let (p, _) = game_stream_step(GameStreamPhase::Waiting, GameStreamEvent::Connect(cid("c1")));
    let (p, a) = game_stream_step(p, GameStreamEvent::Added(false));
    assert_eq!((p, a), (GameStreamPhase::Closed, GameStreamAction::Close));
}

#[test]
fn a_client_without_a_session_is_removed() {
    let (p, _) = game_stream_step(GameStreamPhase::Waiting, GameStreamEvent::Connect(cid("c1")));
    let (p, _) = game_stream_step(p, GameStreamEvent::Added(true));
    let (p, a) = game_stream_step(p, GameStreamEvent::SessionFound(None));
    assert_eq!((p, a), (GameStreamPhase::Closed, GameStreamAction::RemoveClientAndClose(cid("c1"))));
}

#[test]
fn leaving_or_losing_the_stream_removes_the_client() {
    let (p, a) = game_stream_step(join("c1", "s1"), GameStreamEvent::Disconnect);
    assert_eq!((p, a), (GameStreamPhase::Closed, GameStreamAction::RemoveClientAndClose(cid("c1"))));
    let (p, a) = game_stream_step(join("c1", "s1"), GameStreamEvent::Ended);
    assert_eq!((p, a), (GameStreamPhase::Closed, GameStreamAction::RemoveClientAndClose(cid("c1"))));
    let (p, a) = game_stream_step(GameStreamPhase::Waiting, GameStreamEvent::Disconnect);
    assert_eq!((p, a), (GameStreamPhase::Closed, GameStreamAction::Close));
}

#[test]
fn the_feed_ends_with_the_scores() {
    let mut game = GameState::new(FieldSize { width: 10, height: 10 }, WallCollisionMode::Death, 1);
    game.add_snake(pid("a"), Point::new(2, 5), Direction::Up);
    game.add_snake(pid("b"), Point::new(6, 5), Direction::Up);
    game.snakes[0].snake.score = 4;
    game.snakes[1].snake.score = 2;
    assert_eq!(feed_step(Some(&game), true, false), FeedStep::Continue);
    assert_eq!(feed_step(Some(&game), false, true), FeedStep::Stop);
    assert_eq!(feed_step(None, true, true), FeedStep::Stop);
    match feed_step(Some(&game), true, true) {
        FeedStep::Finish(scores, winner) => {
            let s: Vec<(String, u32)> = scores.iter().map(|e| (e.client_id.clone(), e.score)).collect();
            assert_eq!(s, vec![("a".to_string(), 4), ("b".to_string(), 2)]);
            assert_eq!(winner, "a");
        },
        other => panic!("unexpected {:?}", other),
    }
}

#[test]
fn the_registry_maps_human_clients_to_their_session() {
    let mut reg = SessionRegistry::new();
    reg.register(sid("s1"), &[pid("a"), pid("b")]);
    reg.register(sid("s2"), &[pid("c"), pid("a")]);
    assert!(reg.contains_session(&sid("s1")) && reg.contains_session(&sid("s2")));
    assert_eq!(reg.session_for_client(&cid("a")), Some(sid("s2")));
    assert_eq!(reg.session_for_client(&cid("b")), Some(sid("s1")));
    assert_eq!(reg.session_for_client(&cid("z")), None);
    reg.remove_session(&sid("s1"));
    assert!(!reg.contains_session(&sid("s1")));
    assert!(reg.contains_session(&sid("s2")));
    assert_eq!(reg.session_for_client(&cid("b")), None);
    assert_eq!(reg.session_for_client(&cid("a")), Some(sid("s2")));
    assert_eq!(reg.session_for_client(&cid("c")), Some(sid("s2")));
}

#[test]
fn closing_a_game_goes_in_order() {
    let s = sid("lobby-1");
    let (st, a1) = game_over_step(GameOverStage::Start, GameOverEvent::Begin, &s);
    assert_eq!(a1, vec![GameOverAction::Broadcast(GameEndMessage::GameOver), GameOverAction::FinalizeReplay]);
    let (st, a2) = game_over_step(st, GameOverEvent::ReplayReady(true), &s);
    assert_eq!(
        a2,
        vec![
            GameOverAction::Broadcast(GameEndMessage::ReplayFile),
            GameOverAction::EndLobbyGame(LobbyId::new("lobby-1".to_string())),
        ]
    );
    let (st, a3) = game_over_step(st, GameOverEvent::LobbyEnded(true), &s);
    assert_eq!(a3, vec![GameOverAction::QueryPlayAgain(LobbyId::new("lobby-1".to_string()))]);
    let status = PlayAgainStatus::Available { ready_player_ids: vec![], pending_player_ids: vec!["a".to_string()] };
    let (st, a4) = game_over_step(st, GameOverEvent::VoteStatus(Some(status)), &s);
    assert_eq!(st, GameOverStage::Done);
    assert_eq!(a4.len(), 2);
    match &a4[0] {
        GameOverAction::Broadcast(GameEndMessage::PlayAgainStatus(n)) => {
            assert!(n.available);
            assert_eq!(n.pending_players[0].player_id, "a");
        },
        other => panic!("unexpected {:?}", other),
    }
    assert_eq!(a4[1], GameOverAction::RemoveSession);
}

#[test]
fn a_lobby_that_cannot_end_still_loses_its_session() {
    let s = sid("lobby-2");
    let (st, _) = game_over_step(GameOverStage::Start, GameOverEvent::Begin, &s);
    let (st, a2) = game_over_step(st, GameOverEvent::ReplayReady(false), &s);
    assert_eq!(a2, vec![GameOverAction::EndLobbyGame(LobbyId::new("lobby-2".to_string()))]);
    let (st, a3) = game_over_step(st, GameOverEvent::LobbyEnded(false), &s);
    assert_eq!((st, a3), (GameOverStage::Done, vec![GameOverAction::RemoveSession]));
}

#[test]
fn replays_start_only_with_their_settings_and_players() {
    assert!(!replay_can_start(Game::StackAttack, None, 0));
    assert!(replay_can_start(Game::StackAttack, None, 1));
    assert!(replay_can_start(Game::Tictactoe, Some(Game::Tictactoe), 2));
    assert!(!replay_can_start(Game::Tictactoe, Some(Game::Tictactoe), 3));
    assert!(!replay_can_start(Game::Tictactoe, Some(Game::Snake), 2));
    assert!(replay_can_start(Game::Snake, Some(Game::Snake), 0));
    assert!(!replay_can_start(Game::Snake, None, 2));
    assert!(!replay_can_start(Game::Unspecified, Some(Game::Unspecified), 1));
}

#[test]
fn one_stream_per_client_and_kind() {
    let mut tracker = ConnectionTracker::new();
    assert!(tracker.add_game_client("c1"));
    assert!(!tracker.add_game_client("c1"));
    assert!(tracker.add_menu_client("c1"));
    assert!(tracker.add_game_client("c2"));
    tracker.remove_game_client("c1");
    assert!(tracker.add_game_client("c1"));
    assert!(!tracker.add_menu_client("c1"));
    tracker.remove_menu_client("c1");
    tracker.remove_menu_client("never-there");
    assert!(tracker.add_menu_client("c1"));
}
