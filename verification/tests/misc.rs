use mini_games_server::config::{config_from_read, config_write_result, FileContentConfigProvider, ReadOutcome};
use mini_games_server::identifiers::{BotId, ClientId, LobbyId, PlayerId, SessionId};
use mini_games_server::lobby::{validate_start_player_count, BotType, PlayerIdentity};
use mini_games_server::proto::replay::Game;
use mini_games_server::proto::numbers_match::{HintMode, NumbersMatchLobbySettings};
use mini_games_server::proto::puzzle2048::Puzzle2048LobbySettings;
use mini_games_server::proto::tictactoe::TicTacToeBotType;
use mini_games_server::session_rng::SessionRng;
use mini_games_server::snake::bot_controller::SnakeBotType;
use mini_games_server::text::{decimal_string, join};

#[test]
fn identifiers_keep_their_text() {
    let p = PlayerId::new("alice".to_string());
    assert_eq!(p.as_str(), "alice");
    assert_eq!(p.to_string(), "alice");
    assert!(p.same_as(&PlayerId::new("alice".to_string())));
    assert!(!p.same_as(&PlayerId::new("bob".to_string())));
    assert_eq!(p.clone(), p);
    assert_eq!(ClientId::new("c1".to_string()).as_str(), "c1");
    assert_eq!(LobbyId::new("l1".to_string()).to_string(), "l1");
    assert_eq!(SessionId::new("s1".to_string()).as_str(), "s1");
}

#[test]
fn bot_ids_become_player_ids() {
    let bot = BotId::new("bot-7".to_string());
    assert_eq!(bot.to_player_id(), PlayerId::new("bot-7".to_string()));
    assert_eq!(bot.to_string(), "bot-7");
}

#[test]
fn member_identity_on_the_wire() {
    let human = PlayerIdentity::Player(PlayerId::new("alice".to_string()));
    assert_eq!(human.client_id(), "alice");
    let wire = human.to_proto();
    assert_eq!(wire.player_id, "alice");
    assert!(!wire.is_bot);

    let bot = PlayerIdentity::Bot {
        id: BotId::new("bot-1".to_string()),
        bot_type: BotType::Snake(SnakeBotType::Efficient),
    };
    assert_eq!(bot.client_id(), "bot-1");
    let wire = bot.to_proto();
    assert_eq!(wire.player_id, "bot-1");
    assert!(wire.is_bot);

    let ttt = PlayerIdentity::Bot {
        id: BotId::new("bot-2".to_string()),
        bot_type: BotType::TicTacToe(TicTacToeBotType::TictactoeBotTypeMinimax),
    };
    assert!(ttt.to_proto().is_bot);
}

#[test]
fn decimal_notation() {
    assert_eq!(decimal_string(0), "0");
    assert_eq!(decimal_string(7), "7");
    assert_eq!(decimal_string(10), "10");
    assert_eq!(decimal_string(1234567890), "1234567890");
    assert_eq!(decimal_string(u64::MAX), u64::MAX.to_string());
    assert_eq!(join("ab", "cd"), "abcd");
}

#[test]
fn config_read_outcomes() {
    assert_eq!(config_from_read(ReadOutcome::Content("x = 1".to_string())), Ok(Some("x = 1".to_string())));
    assert_eq!(config_from_read(ReadOutcome::NotFound), Ok(None));
    assert_eq!(
        config_from_read(ReadOutcome::Failed("denied".to_string())),
        Err("Failed to read config file: denied".to_string())
    );
    assert_eq!(config_write_result(None), Ok(()));
    assert_eq!(
        config_write_result(Some("disk full".to_string())),
        Err("Failed to write config file: disk full".to_string())
    );
}

#[test]
fn file_provider_keeps_its_path() {
    let provider = FileContentConfigProvider::new("/etc/games.json".to_string());
    assert_eq!(provider.file_path(), "/etc/games.json");
}

fn puzzle(field_width: u32, field_height: u32, target_value: u32) -> Puzzle2048LobbySettings {
    Puzzle2048LobbySettings { field_width, field_height, target_value }
}

#[test]
fn puzzle_settings_validation() {
    assert!(puzzle(4, 4, 2048).validate(1).is_ok());
    assert!(puzzle(2, 10, 8).validate(1).is_ok());
    assert_eq!(
        puzzle(1, 4, 2048).validate(1),
        Err("Field width must be between 2 and 10, got 1".to_string())
    );
    assert_eq!(
        puzzle(11, 40, 2048).validate(1),
        Err("Field width must be between 2 and 10, got 11".to_string())
    );
    assert_eq!(
        puzzle(4, 12, 2048).validate(1),
        Err("Field height must be between 2 and 10, got 12".to_string())
    );
    assert_eq!(
        puzzle(4, 4, 4).validate(1),
        Err("Target value must be at least 8, got 4".to_string())
    );
    assert_eq!(
        puzzle(4, 4, 100).validate(1),
        Err("Target value must be a power of 2, got 100".to_string())
    );
    assert!(puzzle(4, 4, 1 << 31).validate(1).is_ok());
}

#[test]
fn numbers_match_settings_validation() {
    let ok = NumbersMatchLobbySettings { hint_mode: HintMode::Limited };
    assert!(ok.validate(1).is_ok());
    let bad = NumbersMatchLobbySettings { hint_mode: HintMode::Unspecified };
    assert_eq!(bad.validate(1), Err("Hint mode must be specified".to_string()));
    assert!(ok.validate_player_count(1).is_ok());
    assert_eq!(ok.validate_player_count(2), Err("NumbersMatch requires exactly 1 player".to_string()));
    assert_eq!(ok.validate_player_count(0), Err("NumbersMatch requires exactly 1 player".to_string()));
}

#[test]
fn seeded_generators_repeat() {
    let mut a = SessionRng::new(99);
    let mut b = SessionRng::new(99);
    assert_eq!(a.seed(), 99);
    for _ in 0..50 {
        let x = a.random_range(3, 17);
        assert_eq!(x, b.random_range(3, 17));
        assert!((3..17).contains(&x));
        let y = a.random_range_i32(-5, 5);
        assert_eq!(y, b.random_range_i32(-5, 5));
        assert!((-5..5).contains(&y));
        let z = a.random_range_u32(0, 8);
        assert_eq!(z, b.random_range_u32(0, 8));
        assert!(z < 8);
        assert_eq!(a.random_bool(), b.random_bool());
    }
    assert_eq!(a.seed(), 99);
}

#[test]
fn random_generator_remembers_its_seed() {
    let rng = SessionRng::from_random();
    let copy = SessionRng::new(rng.seed());
    assert_eq!(copy.seed(), rng.seed());
}

#[test]
fn starting_needs_the_right_number_of_players() {
    assert!(validate_start_player_count(Game::Tictactoe, 2).is_ok());
    assert_eq!(
        validate_start_player_count(Game::Tictactoe, 3),
        Err("TicTacToe requires exactly 2 players, but 3 are in the lobby".to_string())
    );
    assert!(validate_start_player_count(Game::Snake, 5).is_ok());
    assert_eq!(
        validate_start_player_count(Game::Snake, 0),
        Err("Cannot start game with no players".to_string())
    );
    assert!(validate_start_player_count(Game::NumbersMatch, 1).is_ok());
    assert_eq!(
        validate_start_player_count(Game::NumbersMatch, 2),
        Err("NumbersMatch requires exactly 1 player, but 2 are in the lobby".to_string())
    );
    assert!(validate_start_player_count(Game::StackAttack, 4).is_ok());
    assert_eq!(
        validate_start_player_count(Game::StackAttack, 0),
        Err("Stack Attack requires at least 1 player(s)".to_string())
    );
    assert_eq!(
        validate_start_player_count(Game::StackAttack, 12),
        Err("Stack Attack allows at most 4 players, but 12 are in the lobby".to_string())
    );
    assert!(validate_start_player_count(Game::Puzzle2048, 1).is_ok());
    assert_eq!(
        validate_start_player_count(Game::Puzzle2048, 0),
        Err("Puzzle 2048 requires exactly 1 player, but 0 are in the lobby".to_string())
    );
}
