use vstd::prelude::*;
use crate::identifiers::PlayerId;
use crate::session_rng::thread_rng_bool;
use super::types::{Mark, GameStatus, FirstPlayerMode, mark_code, status_code};
use crate::proto::tictactoe as proto;
use crate::proto::game_service::PlayerIdentity;
use super::board::{board_width, is_rectangular};
use super::win_detector::{check_win, winner_of, first_start, starts_line};

verus! {

/// Every cell of the board holds a mark.
pub open spec fn board_full(b: Seq<Vec<Mark>>) -> bool {
    forall|y: int, x: int| 0 <= y < b.len() && 0 <= x < b[y]@.len() ==> #[trigger] b[y]@[x] != Mark::Empty
}

/// The status a board is in: won by the mark of the first completed line,
/// otherwise drawn when full, otherwise in progress.
pub open spec fn status_after(b: Seq<Vec<Mark>>, w: int) -> GameStatus {
    match winner_of(b, w) {
        Some(Mark::X) => GameStatus::XWon,
        Some(Mark::O) => GameStatus::OWon,
        _ => if board_full(b) {
            GameStatus::Draw
        } else {
            GameStatus::InProgress
        },
    }
}

/// A board of `height` rows of `width` empty cells.
pub open spec fn empty_board(b: Seq<Vec<Mark>>, width: int, height: int) -> bool {
    &&& b.len() == height
    &&& forall|y: int| 0 <= y < height ==> (#[trigger] b[y])@.len() == width
    &&& forall|y: int, x: int| 0 <= y < height && 0 <= x < width ==> #[trigger] b[y]@[x] == Mark::Empty
}

/// The board after `m` is written at `(x, y)`.
pub open spec fn board_with(b: Seq<Vec<Mark>>, x: int, y: int, m: Mark) -> Seq<Seq<Mark>> {
    Seq::new(b.len(), |i: int| if i == y { b[i]@.update(x, m) } else { b[i]@ })
}

/// The rows of a board as sequences of marks.
pub open spec fn rows_of(b: Seq<Vec<Mark>>) -> Seq<Seq<Mark>> {
    Seq::new(b.len(), |i: int| b[i]@)
}

/// A winner is never the empty mark.
proof fn lemma_winner_not_empty(b: Seq<Vec<Mark>>, w: int)
    ensures
        winner_of(b, w) != Some(Mark::Empty),
{
    if exists|x: int, y: int| #[trigger] first_start(b, w, x, y) {
        let (x, y) = choose|x: int, y: int| #[trigger] first_start(b, w, x, y);
        assert(starts_line(b, w, x, y));
    }
}

/// `new` is `old` after its player to move put a mark at `(x, y)`: the
/// cell holds that mark, the move is the last one, the status is that of
/// the new board, and while the game goes on the other mark is to move.
pub open spec fn placed(old: TicTacToeGameState, new: TicTacToeGameState, x: usize, y: usize) -> bool {
    &&& rows_of(new.board@) == board_with(old.board@, x as int, y as int, old.current_mark)
    &&& new.last_move == Some((x, y))
    &&& new.status == status_after(new.board@, old.win_count as int)
    &&& new.width == old.width
    &&& new.height == old.height
    &&& new.win_count == old.win_count
    &&& new.player_x == old.player_x
    &&& new.player_o == old.player_o
    &&& new.status == GameStatus::InProgress ==> new.current_mark == super::types::opponent_of(
        old.current_mark,
    ).unwrap()
    &&& new.status != GameStatus::InProgress ==> new.current_mark == old.current_mark
        && new.current_player == old.current_player
}

/// The state of one tic-tac-toe game.
#[derive(Debug)]
pub struct TicTacToeGameState {
    pub board: Vec<Vec<Mark>>,
    pub width: usize,
    pub height: usize,
    pub win_count: usize,
    pub player_x: PlayerId,
    pub player_o: PlayerId,
    pub current_player: PlayerId,
    pub current_mark: Mark,
    pub status: GameStatus,
    pub last_move: Option<(usize, usize)>,
}

impl TicTacToeGameState {
    /// The board has `height` rows of `width` cells, the arithmetic on
    /// positions fits in `usize`, and the player to move owns the mark to
    /// place.
    pub open spec fn wf(&self) -> bool {
        &&& self.board@.len() == self.height
        &&& forall|y: int| 0 <= y < self.height ==> (#[trigger] self.board@[y])@.len() == self.width
        &&& self.width + self.win_count <= usize::MAX
        &&& self.height + self.win_count <= usize::MAX
        &&& self.current_mark != Mark::Empty
        &&& self.current_player@ == (if self.current_mark == Mark::X {
            self.player_x@
        } else {
            self.player_o@
        })
    }

    /// The game goes on, `player` is to move and `(x, y)` is an empty cell
    /// of the board.
    pub open spec fn can_place(&self, player: Seq<char>, x: int, y: int) -> bool {
        &&& self.status == GameStatus::InProgress
        &&& player == self.current_player@
        &&& 0 <= x < self.width
        &&& 0 <= y < self.height
        &&& self.board@[y]@[x] == Mark::Empty
    }

    /// A fresh game: an empty `width` x `height` board, X to move. With
    /// `Host` the first listed player plays X; with `Random` a coin flip
    /// decides which of the two plays X.
    pub fn new(
        width: usize,
        height: usize,
        win_count: usize,
        players: Vec<PlayerId>,
        first_player_mode: FirstPlayerMode,
    ) -> (r: Self)
        requires
            players@.len() == 2,
            width + win_count <= usize::MAX,
            height + win_count <= usize::MAX,
        ensures
            r.wf(),
            empty_board(r.board@, width as int, height as int),
            r.width == width,
            r.height == height,
            r.win_count == win_count,
            first_player_mode == FirstPlayerMode::Host ==> r.player_x@ == players@[0]@
                && r.player_o@ == players@[1]@,
            (r.player_x@ == players@[0]@ && r.player_o@ == players@[1]@) || (r.player_x@
                == players@[1]@ && r.player_o@ == players@[0]@),
            r.current_player@ == r.player_x@,
            r.current_mark == Mark::X,
            r.status == GameStatus::InProgress,
            r.last_move is None,
    {
        let (player_x, player_o) = match first_player_mode {
            FirstPlayerMode::Random => {
                if thread_rng_bool() {
                    (players[0].clone(), players[1].clone())
                } else {
                    (players[1].clone(), players[0].clone())
                }
            },
            FirstPlayerMode::Host => (players[0].clone(), players[1].clone()),
        };

        let current_player = player_x.clone();
        let mut board: Vec<Vec<Mark>> = Vec::new();
        let mut y: usize = 0;
        while y < height
            invariant
                0 <= y <= height,
                board@.len() == y,
                forall|yy: int| 0 <= yy < y ==> (#[trigger] board@[yy])@.len() == width,
                forall|yy: int, x: int|
                    0 <= yy < y && 0 <= x < width ==> #[trigger] board@[yy]@[x] == Mark::Empty,
            decreases height - y,
        {
            let mut row: Vec<Mark> = Vec::new();
            let mut x: usize = 0;
            while x < width
                invariant
                    0 <= x <= width,
                    row@.len() == x,
                    forall|xx: int| 0 <= xx < x ==> #[trigger] row@[xx] == Mark::Empty,
                decreases width - x,
            {
                row.push(Mark::Empty);
                x = x + 1;
            }
            board.push(row);
            y = y + 1;
        }

        Self {
            board,
            width,
            height,
            win_count,
            player_x,
            player_o,
            current_player,
            current_mark: Mark::X,
            status: GameStatus::InProgress,
            last_move: None,
        }
    }

    /// Places the current player's mark at `(x, y)`. Refused, with the
    /// state unchanged, when the game is over, when `player_id` is not the
    /// player to move, when the position lies outside the board, or when
    /// the cell is taken (checked in that order). Otherwise the mark is
    /// written, the status recomputed, and while the game goes on the turn
    /// passes to the other player.
    pub fn place_mark(&mut self, player_id: &PlayerId, x: usize, y: usize) -> (r: Result<(), String>)
        requires
            old(self).wf(),
        ensures
            final(self).wf(),
            old(self).status != GameStatus::InProgress ==> (r matches Err(e) && e@
                == "Game is already over"@),
            old(self).status == GameStatus::InProgress && player_id@ != old(self).current_player@
                ==> (r matches Err(e) && e@ == "Not your turn"@),
            old(self).status == GameStatus::InProgress && player_id@ == old(self).current_player@
                && (x >= old(self).width || y >= old(self).height) ==> (r matches Err(e) && e@
                == "Position out of bounds"@),
            old(self).status == GameStatus::InProgress && player_id@ == old(self).current_player@
                && x < old(self).width && y < old(self).height && old(self).board@[y as int]@[x as int]
                != Mark::Empty ==> (r matches Err(e) && e@ == "Cell is already marked"@),
            r is Ok <==> old(self).can_place(player_id@, x as int, y as int),
            r is Err ==> *final(self) == *old(self),
            r is Ok ==> placed(*old(self), *final(self), x, y),
    {
        if self.status != GameStatus::InProgress {
            return Err("Game is already over".to_owned());
        }
        if !player_id.same_as(&self.current_player) {
            return Err("Not your turn".to_owned());
        }
        if x >= self.width || y >= self.height {
            return Err("Position out of bounds".to_owned());
        }
        if self.board[y][x] != Mark::Empty {
            return Err("Cell is already marked".to_owned());
        }
        let ghost old_board = self.board@;
        let mark = self.current_mark;
        self.board[y][x] = mark;
        assert(rows_of(self.board@) =~= board_with(old_board, x as int, y as int, mark));
        self.last_move = Some((x, y));

        self.check_game_over();

        if self.status == GameStatus::InProgress {
            self.switch_turn();
        }
        Ok(())
    }

    fn switch_turn(&mut self)
        requires
            old(self).wf(),
        ensures
            final(self).wf(),
            final(self).board == old(self).board,
            final(self).width == old(self).width,
            final(self).height == old(self).height,
            final(self).win_count == old(self).win_count,
            final(self).player_x == old(self).player_x,
            final(self).player_o == old(self).player_o,
            final(self).status == old(self).status,
            final(self).last_move == old(self).last_move,
            final(self).current_mark == super::types::opponent_of(old(self).current_mark).unwrap(),
    {
        if self.current_mark == Mark::X {
            self.current_mark = Mark::O;
            self.current_player = self.player_o.clone();
        } else {
            self.current_mark = Mark::X;
            self.current_player = self.player_x.clone();
        }
    }

    fn check_game_over(&mut self)
        requires
            old(self).wf(),
        ensures
            final(self).wf(),
            final(self).board == old(self).board,
            final(self).width == old(self).width,
            final(self).height == old(self).height,
            final(self).win_count == old(self).win_count,
            final(self).player_x == old(self).player_x,
            final(self).player_o == old(self).player_o,
            final(self).current_mark == old(self).current_mark,
            final(self).current_player == old(self).current_player,
            final(self).last_move == old(self).last_move,
            status_after(old(self).board@, old(self).win_count as int) != GameStatus::InProgress
                ==> final(self).status == status_after(old(self).board@, old(self).win_count as int),
            status_after(old(self).board@, old(self).win_count as int) == GameStatus::InProgress
                ==> final(self).status == old(self).status,
    {
        proof {
            assert(is_rectangular(self.board@));
            if self.height > 0 {
                assert(self.board@[0]@.len() == self.width);
            }
            lemma_winner_not_empty(self.board@, self.win_count as int);
        }
        if let Some(winner_mark) = check_win(&self.board, self.win_count) {
            self.status = match winner_mark {
                Mark::X => GameStatus::XWon,
                Mark::O => GameStatus::OWon,
                Mark::Empty => GameStatus::InProgress,
            };
            return;
        }
        if self.is_board_full() {
            self.status = GameStatus::Draw;
        }
    }

    fn is_board_full(&self) -> (r: bool)
        ensures
            r == board_full(self.board@),
    {
        let mut y: usize = 0;
        while y < self.board.len()
            invariant
                0 <= y <= self.board@.len(),
                forall|yy: int, x: int|
                    0 <= yy < y && 0 <= x < self.board@[yy]@.len() ==> #[trigger] self.board@[yy]@[x]
                        != Mark::Empty,
            decreases self.board@.len() - y,
        {
            let row = &self.board[y];
            let mut x: usize = 0;
            while x < row.len()
                invariant
                    0 <= y < self.board@.len(),
                    row@ == self.board@[y as int]@,
                    0 <= x <= row@.len(),
                    forall|yy: int, xx: int|
                        (0 <= yy < y && 0 <= xx < self.board@[yy]@.len()) || (yy == y && 0 <= xx
                            < x) ==> #[trigger] self.board@[yy]@[xx] != Mark::Empty,
                decreases row@.len() - x,
            {
                if row[x] == Mark::Empty {
                    return false;
                }
                x = x + 1;
            }
            y = y + 1;
        }
        true
    }

    /// The winning player, if the game was won.
    pub fn get_winner(&self) -> (r: Option<PlayerId>)
        ensures
            self.status == GameStatus::XWon ==> (r matches Some(p) && p@ == self.player_x@),
            self.status == GameStatus::OWon ==> (r matches Some(p) && p@ == self.player_o@),
            self.status != GameStatus::XWon && self.status != GameStatus::OWon ==> r is None,
    {
        match self.status {
            GameStatus::XWon => Some(self.player_x.clone()),
            GameStatus::OWon => Some(self.player_o.clone()),
            _ => None,
        }
    }
}

/// The marked cells among the first `n` cells of row `y`, left to right.
pub open spec fn row_marks(row: Seq<Mark>, y: int, n: int) -> Seq<proto::CellMark>
    decreases n,
{
    if n <= 0 {
        Seq::empty()
    } else {
        row_marks(row, y, n - 1) + if row[n - 1] != Mark::Empty {
            seq![proto::CellMark { x: (n - 1) as u32, y: y as u32, mark: mark_code(row[n - 1]) }]
        } else {
            Seq::empty()
        }
    }
}

/// The marked cells of the first `n` rows, in row-major order.
pub open spec fn board_marks(b: Seq<Vec<Mark>>, n: int) -> Seq<proto::CellMark>
    decreases n,
{
    if n <= 0 {
        Seq::empty()
    } else {
        board_marks(b, n - 1) + row_marks(b[n - 1]@, n - 1, b[n - 1]@.len() as int)
    }
}

impl TicTacToeGameState {
    /// The game on the wire: every marked cell in row-major order with
    /// its mark's code, the sizes, the status code, the three players
    /// with the given bot flags, and the last move.
    pub fn to_proto_state(
        &self,
        player_x_is_bot: bool,
        player_o_is_bot: bool,
        current_player_is_bot: bool,
    ) -> (r: proto::TicTacToeGameState)
        ensures
            r.board@ == board_marks(self.board@, self.board@.len() as int),
            r.field_width == self.width as u32,
            r.field_height == self.height as u32,
            r.win_count == self.win_count as u32,
            r.status == status_code(self.status),
            r.player_x matches Some(p) && p.player_id@ == self.player_x@ && p.is_bot == player_x_is_bot,
            r.player_o matches Some(p) && p.player_id@ == self.player_o@ && p.is_bot == player_o_is_bot,
            r.current_player matches Some(p) && p.player_id@ == self.current_player@ && p.is_bot
                == current_player_is_bot,
            r.last_move == match self.last_move {
                Some((x, y)) => Some(proto::Position { x: x as u32, y: y as u32 }),
                None => None,
            },
    {
        let mut board: Vec<proto::CellMark> = Vec::new();
        let mut y: usize = 0;
        while y < self.board.len()
            invariant
                0 <= y <= self.board@.len(),
                board@ == board_marks(self.board@, y as int),
            decreases self.board@.len() - y,
        {
            let row = &self.board[y];
            let mut x: usize = 0;
            while x < row.len()
                invariant
                    row@ == self.board@[y as int]@,
                    0 <= y < self.board@.len(),
                    0 <= x <= row@.len(),
                    board@ == board_marks(self.board@, y as int) + row_marks(row@, y as int, x as int),
                decreases row@.len() - x,
            {
                let mark = row[x];
                if mark != Mark::Empty {
                    board.push(proto::CellMark { x: x as u32, y: y as u32, mark: mark.to_proto() });
                }
                proof {
                    if mark != Mark::Empty {
                        assert(board@ =~= board_marks(self.board@, y as int) + row_marks(row@, y as int, x + 1));
                    } else {
                        assert(board@ =~= board_marks(self.board@, y as int) + row_marks(row@, y as int, x + 1));
                    }
                }
                x = x + 1;
            }
            assert(board@ =~= board_marks(self.board@, y + 1));
            y = y + 1;
        }
        let last_move = match self.last_move {
            Some((x, y)) => Some(proto::Position { x: x as u32, y: y as u32 }),
            None => None,
        };
        proto::TicTacToeGameState {
            board,
            field_width: self.width as u32,
            field_height: self.height as u32,
            win_count: self.win_count as u32,
            status: self.status.to_proto(),
            player_x: Some(PlayerIdentity { player_id: self.player_x.to_string(), is_bot: player_x_is_bot }),
            player_o: Some(PlayerIdentity { player_id: self.player_o.to_string(), is_bot: player_o_is_bot }),
            current_player: Some(
                PlayerIdentity { player_id: self.current_player.to_string(), is_bot: current_player_is_bot },
            ),
            last_move,
        }
    }
}

} // verus!
