use mini_games_server::identifiers::PlayerId;
use mini_games_server::proto::tictactoe::{
    CellMark, FirstPlayerMode as ProtoFirstPlayerMode, Position as WirePosition, TicTacToeBotType, TicTacToeLobbySettings,
};
use mini_games_server::tictactoe::board::{get_available_moves, is_valid_move};
use mini_games_server::tictactoe::bot_controller::{
    calculate_minimax_move, calculate_move, eval_delta_before_move, evaluate_board, BotInput,
};
use mini_games_server::tictactoe::game_state::TicTacToeGameState;
use mini_games_server::tictactoe::settings::TicTacToeSessionSettings;
use mini_games_server::tictactoe::types::{FirstPlayerMode, GameStatus, Mark, Position, WinningLine};
use mini_games_server::tictactoe::win_detector::check_win;

const E: Mark = Mark::Empty;
const X: Mark = Mark::X;
const O: Mark = Mark::O;

fn pid(s: &str) -> PlayerId {
    PlayerId::new(s.to_string())
}

fn new_game(width: usize, height: usize, win_count: usize) -> TicTacToeGameState {
    TicTacToeGameState::new(width, height, win_count, vec![pid("alice"), pid("bob")], FirstPlayerMode::Host)
}

#[test]
fn available_moves_are_empty_cells_in_row_major_order() {
    let board = vec![vec![X, E, O], vec![E, X, E], vec![O, O, E]];
    assert_eq!(get_available_moves(&board), vec![(1, 0), (0, 1), (2, 1), (2, 2)]);
}

#[test]
fn available_moves_of_full_board_is_empty() {
    let board = vec![vec![X, O], vec![O, X]];
    assert!(get_available_moves(&board).is_empty());
}

#[test]
fn valid_move_checks_bounds_and_emptiness() {
    let board = vec![vec![X, E, O], vec![E, X, E]];
    assert!(is_valid_move(&board, 1, 0));
    assert!(!is_valid_move(&board, 0, 0));
    assert!(!is_valid_move(&board, 3, 0));
    assert!(!is_valid_move(&board, 0, 2));
    assert!(!is_valid_move(&[], 0, 0));
}

#[test]
fn valid_moves_agree_with_available_moves() {
    let board = vec![vec![X, E, O], vec![E, X, E], vec![O, O, E]];
    let moves = get_available_moves(&board);
    for y in 0..4 {
        for x in 0..4 {
            assert_eq!(is_valid_move(&board, x, y), moves.contains(&(x, y)));
        }
    }
}

#[test]
fn check_win_finds_each_direction() {
    let horizontal = vec![vec![E, E, E], vec![O, O, O], vec![X, X, E]];
    assert_eq!(check_win(&horizontal, 3), Some(O));
    let vertical = vec![vec![X, O, E], vec![X, O, E], vec![X, E, E]];
    assert_eq!(check_win(&vertical, 3), Some(X));
    let diagonal = vec![vec![O, X, E], vec![X, O, E], vec![E, X, O]];
    assert_eq!(check_win(&diagonal, 3), Some(O));
    let anti_diagonal = vec![vec![E, E, X], vec![E, X, O], vec![X, O, E]];
    assert_eq!(check_win(&anti_diagonal, 3), Some(X));
}

#[test]
fn check_win_none_without_line() {
    let board = vec![vec![X, O, X], vec![X, O, O], vec![O, X, X]];
    assert_eq!(check_win(&board, 3), None);
    assert_eq!(check_win(&[], 3), None);
}

#[test]
fn check_win_respects_line_length() {
    let board = vec![vec![X, X, X, E], vec![E, E, E, E], vec![E, E, E, E], vec![E, E, E, E]];
    assert_eq!(check_win(&board, 4), None);
    assert_eq!(check_win(&board, 3), Some(X));
}

#[test]
fn check_win_reports_first_line_in_row_major_order() {
    let board = vec![vec![O, O, O], vec![X, X, X], vec![E, E, E]];
    assert_eq!(check_win(&board, 3), Some(O));
}

#[test]
fn new_game_is_empty_with_x_to_move() {
    let game = new_game(4, 3, 3);
    assert_eq!(game.board.len(), 3);
    assert!(game.board.iter().all(|row| row.len() == 4 && row.iter().all(|&c| c == E)));
    assert_eq!(game.player_x.as_str(), "alice");
    assert_eq!(game.player_o.as_str(), "bob");
    assert_eq!(game.current_player.as_str(), "alice");
    assert_eq!(game.current_mark, X);
    assert_eq!(game.status, GameStatus::InProgress);
    assert_eq!(game.last_move, None);
}

#[test]
fn random_first_player_mode_assigns_both_players() {
    let game = TicTacToeGameState::new(3, 3, 3, vec![pid("a"), pid("b")], FirstPlayerMode::Random);
    let x = game.player_x.as_str().to_string();
    let o = game.player_o.as_str().to_string();
    assert!((x == "a" && o == "b") || (x == "b" && o == "a"));
    assert_eq!(game.current_player.as_str(), x);
}

#[test]
fn place_mark_alternates_turns() {
    let mut game = new_game(3, 3, 3);
    assert_eq!(game.place_mark(&pid("alice"), 0, 0), Ok(()));
    assert_eq!(game.board[0][0], X);
    assert_eq!(game.current_mark, O);
    assert_eq!(game.current_player.as_str(), "bob");
    assert_eq!(game.last_move, Some((0, 0)));
    assert_eq!(game.place_mark(&pid("bob"), 1, 1), Ok(()));
    assert_eq!(game.board[1][1], O);
    assert_eq!(game.current_player.as_str(), "alice");
}

#[test]
fn place_mark_errors_leave_state_unchanged() {
    let mut game = new_game(3, 3, 3);
    assert_eq!(game.place_mark(&pid("bob"), 0, 0), Err("Not your turn".to_string()));
    assert_eq!(game.place_mark(&pid("alice"), 3, 0), Err("Position out of bounds".to_string()));
    assert_eq!(game.place_mark(&pid("alice"), 0, 3), Err("Position out of bounds".to_string()));
    game.place_mark(&pid("alice"), 0, 0).unwrap();
    assert_eq!(game.place_mark(&pid("bob"), 0, 0), Err("Cell is already marked".to_string()));
    assert_eq!(game.current_player.as_str(), "bob");
    assert_eq!(game.board[0][0], X);
}

#[test]
fn completing_a_line_wins_and_ends_the_game() {
    let mut game = new_game(3, 3, 3);
    for (player, x, y) in [("alice", 0, 0), ("bob", 0, 1), ("alice", 1, 0), ("bob", 1, 1), ("alice", 2, 0)] {
        game.place_mark(&pid(player), x, y).unwrap();
    }
    assert_eq!(game.status, GameStatus::XWon);
    assert_eq!(game.get_winner().unwrap().as_str(), "alice");
    assert_eq!(game.current_player.as_str(), "alice");
    assert_eq!(game.place_mark(&pid("alice"), 2, 2), Err("Game is already over".to_string()));
    assert_eq!(game.place_mark(&pid("bob"), 2, 2), Err("Game is already over".to_string()));
}

#[test]
fn o_can_win_too() {
    let mut game = new_game(3, 3, 3);
    for (player, x, y) in [("alice", 0, 0), ("bob", 2, 0), ("alice", 1, 0), ("bob", 2, 1), ("alice", 0, 2), ("bob", 2, 2)] {
        game.place_mark(&pid(player), x, y).unwrap();
    }
    assert_eq!(game.status, GameStatus::OWon);
    assert_eq!(game.get_winner().unwrap().as_str(), "bob");
}

#[test]
fn full_board_without_line_is_a_draw() {
    let mut game = new_game(3, 3, 3);
    let moves = [
        ("alice", 0, 0), ("bob", 1, 0), ("alice", 2, 0),
        ("bob", 1, 1), ("alice", 0, 1), ("bob", 2, 1),
        ("alice", 1, 2), ("bob", 0, 2), ("alice", 2, 2),
    ];
    for (player, x, y) in moves {
        game.place_mark(&pid(player), x, y).unwrap();
    }
    assert_eq!(game.status, GameStatus::Draw);
    assert!(game.get_winner().is_none());
}

#[test]
fn mark_and_status_codes() {
    assert_eq!(E.to_proto(), 1);
    assert_eq!(X.to_proto(), 2);
    assert_eq!(O.to_proto(), 3);
    assert_eq!(X.opponent(), Some(O));
    assert_eq!(O.opponent(), Some(X));
    assert_eq!(E.opponent(), None);
    assert_eq!(GameStatus::InProgress.to_proto(), 1);
    assert_eq!(GameStatus::XWon.to_proto(), 2);
    assert_eq!(GameStatus::OWon.to_proto(), 3);
    assert_eq!(GameStatus::Draw.to_proto(), 4);
}

#[test]
fn positions_and_lines_on_the_wire() {
    let p = Position::new(2, 5).to_proto();
    assert_eq!((p.x, p.y), (2, 5));
    let line = WinningLine::new(X, Position::new(0, 1), Position::new(2, 3));
    assert_eq!(line.mark, X);
    let w = line.to_proto();
    assert_eq!((w.start_x, w.start_y, w.end_x, w.end_y), (0, 1, 2, 3));
}

#[test]
fn minimax_completes_its_own_line() {
    let input = BotInput { board: vec![vec![X, X, E], vec![O, O, E], vec![E, E, E]], win_count: 3, current_mark: X };
    let p = calculate_minimax_move(&input).unwrap();
    assert_eq!((p.x, p.y), (2, 0));
}

#[test]
fn minimax_blocks_the_opponent() {
    let input = BotInput { board: vec![vec![O, O, E], vec![X, E, E], vec![E, E, X]], win_count: 3, current_mark: X };
    let p = calculate_minimax_move(&input).unwrap();
    assert_eq!((p.x, p.y), (2, 0));
}

#[test]
fn minimax_on_full_board_has_no_move() {
    let input = BotInput { board: vec![vec![X, O, X], vec![X, O, O], vec![O, X, X]], win_count: 3, current_mark: O };
    assert!(calculate_minimax_move(&input).is_none());
}

#[test]
fn minimax_picks_an_empty_cell_on_a_bigger_board() {
    let mut board = vec![vec![E; 5]; 5];
    board[2][2] = O;
    let input = BotInput { board: board.clone(), win_count: 4, current_mark: X };
    let p = calculate_minimax_move(&input).unwrap();
    assert_eq!(board[p.y][p.x], E);
}

#[test]
fn bot_kinds() {
    let board = vec![vec![X, E, E], vec![E, O, E], vec![E, E, E]];
    let input = || BotInput { board: board.clone(), win_count: 3, current_mark: X };
    assert!(calculate_move(TicTacToeBotType::TictactoeBotTypeUnspecified, input()).is_none());
    let p = calculate_move(TicTacToeBotType::TictactoeBotTypeRandom, input()).unwrap();
    assert_eq!(board[p.y][p.x], E);
    let q = calculate_move(TicTacToeBotType::TictactoeBotTypeMinimax, input()).unwrap();
    assert_eq!(board[q.y][q.x], E);
    let full = BotInput { board: vec![vec![X, O], vec![O, X]], win_count: 2, current_mark: X };
    assert!(calculate_move(TicTacToeBotType::TictactoeBotTypeRandom, full).is_none());
}

#[test]
fn bot_input_copies_the_game() {
    let mut game = new_game(3, 3, 3);
    game.place_mark(&pid("alice"), 1, 1).unwrap();
    let input = BotInput::from_game_state(&game);
    assert_eq!(input.board, game.board);
    assert_eq!(input.win_count, 3);
    assert_eq!(input.current_mark, O);
}

fn lobby(width: u32, height: u32, win_count: u32) -> TicTacToeLobbySettings {
    TicTacToeLobbySettings { field_width: width, field_height: height, win_count, first_player: ProtoFirstPlayerMode::Host }
}

#[test]
fn lobby_settings_validation() {
    assert_eq!(lobby(3, 3, 3).validate(2), Ok(()));
    assert_eq!(lobby(20, 5, 5).validate(2), Ok(()));
    assert_eq!(lobby(3, 3, 3).validate(3), Err("TicTacToe requires exactly 2 players".to_string()));
    assert_eq!(lobby(2, 3, 3).validate(2), Err("Field width must be between 3 and 20".to_string()));
    assert_eq!(lobby(21, 3, 3).validate(2), Err("Field width must be between 3 and 20".to_string()));
    assert_eq!(lobby(3, 21, 3).validate(2), Err("Field height must be between 3 and 20".to_string()));
    assert_eq!(lobby(3, 3, 2).validate(2), Err("Win count must be at least 3".to_string()));
    assert_eq!(
        lobby(10, 4, 5).validate(2),
        Err("Win count (5) cannot exceed minimum dimension (4)".to_string())
    );
}

#[test]
fn lobby_player_count_validation() {
    assert_eq!(lobby(3, 3, 3).validate_player_count(2), Ok(()));
    assert_eq!(
        lobby(3, 3, 3).validate_player_count(3),
        Err("TicTacToe requires exactly 2 players, got 3".to_string())
    );
    assert_eq!(
        lobby(3, 3, 3).validate_player_count(10),
        Err("TicTacToe requires exactly 2 players, got 10".to_string())
    );
}

#[test]
fn session_settings_from_lobby() {
    let s = TicTacToeSessionSettings::from(&lobby(7, 6, 4));
    assert_eq!((s.field_width, s.field_height, s.win_count), (7, 6, 4));
    assert_eq!(s.first_player_mode, FirstPlayerMode::Host);
    let mut random = lobby(3, 3, 3);
    random.first_player = ProtoFirstPlayerMode::Unspecified;
    assert_eq!(TicTacToeSessionSettings::from(&random).first_player_mode, FirstPlayerMode::Random);
    random.first_player = ProtoFirstPlayerMode::Random;
    assert_eq!(TicTacToeSessionSettings::from(&random).first_player_mode, FirstPlayerMode::Random);
}

#[test]
fn evaluation_of_simple_boards() {
    // X owns a whole row of an otherwise empty 3x3 board with lines of 3:
    // the row scores 9, each column through an X scores 1, and the
    // diagonals through the corner and centre X score 1 each.
    let board = vec![vec![X, X, X], vec![E, E, E], vec![E, E, E]];
    assert_eq!(evaluate_board(&board, X, 3), 9 + 3 + 2);
    assert_eq!(evaluate_board(&board, O, 3), -(9 + 3 + 2));
    let empty = vec![vec![E; 3]; 3];
    assert_eq!(evaluate_board(&empty, X, 3), 0);
}

#[test]
fn move_delta_is_the_change_of_the_evaluation() {
    let boards = vec![
        vec![vec![X, E, O], vec![E, X, E], vec![O, E, E]],
        vec![vec![E, E, E, E], vec![E, O, X, E], vec![E, E, E, E]],
        vec![vec![E; 5]; 5],
    ];
    for board in boards {
        for win_count in 1..=3 {
            for bot in [X, O] {
                for y in 0..board.len() {
                    for x in 0..board[0].len() {
                        if board[y][x] != E {
                            continue;
                        }
                        for mover in [X, O] {
                            let before = evaluate_board(&board, bot, win_count);
                            let delta = eval_delta_before_move(&board, bot, win_count, x, y, mover);
                            let mut after_board = board.clone();
                            after_board[y][x] = mover;
                            assert_eq!(evaluate_board(&after_board, bot, win_count), before + delta);
                        }
                    }
                }
            }
        }
    }
}

#[test]
fn game_state_on_the_wire() {
    let mut game = new_game(3, 3, 3);
    game.place_mark(&pid("alice"), 2, 0).unwrap();
    game.place_mark(&pid("bob"), 0, 1).unwrap();
    let wire = game.to_proto_state(false, true, false);
    assert_eq!(
        wire.board,
        vec![CellMark { x: 2, y: 0, mark: 2 }, CellMark { x: 0, y: 1, mark: 3 }]
    );
    assert_eq!((wire.field_width, wire.field_height, wire.win_count), (3, 3, 3));
    assert_eq!(wire.status, 1);
    let x = wire.player_x.unwrap();
    assert_eq!((x.player_id.as_str(), x.is_bot), ("alice", false));
    let o = wire.player_o.unwrap();
    assert_eq!((o.player_id.as_str(), o.is_bot), ("bob", true));
    let current = wire.current_player.unwrap();
    assert_eq!((current.player_id.as_str(), current.is_bot), ("alice", false));
    assert_eq!(wire.last_move, Some(WirePosition { x: 0, y: 1 }));
    let fresh = new_game(2, 2, 2).to_proto_state(false, false, false);
    assert!(fresh.board.is_empty());
    assert_eq!(fresh.last_move, None);
}

#[test]
fn minimax_takes_the_first_of_equally_good_moves() {
    // An empty 2x2 board with lines of 2: every move leads to a win at
    // the bot's next turn at best, so all values tie and the first cell
    // in row-major order is chosen.
    let input = BotInput { board: vec![vec![E, E], vec![E, E]], win_count: 2, current_mark: X };
    let chosen = calculate_minimax_move(&input).unwrap();
    assert_eq!((chosen.x, chosen.y), (0, 0));
}

#[test]
fn marks_stay_balanced_between_the_players() {
    let mut game = new_game(4, 4, 4);
    let moves = [(0, 0), (1, 0), (2, 0), (3, 0), (0, 1), (1, 1), (2, 1)];
    for (x, y) in moves {
        let player = game.current_player.clone();
        game.place_mark(&player, x, y).unwrap();
        let xs = game.board.iter().flatten().filter(|&&m| m == X).count();
        let os = game.board.iter().flatten().filter(|&&m| m == O).count();
        assert!(xs == os || xs == os + 1);
        assert_eq!(game.current_mark == X, xs == os);
    }
}
