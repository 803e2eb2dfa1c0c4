//! The players take turns: X moves first, and the marks on the board stay
//! balanced between the two players.

use vstd::prelude::*;
use super::types::{Mark, GameStatus};
use super::game_state::{TicTacToeGameState, empty_board, placed, rows_of, board_with};
use super::incremental::{grid_sum, plus, point, lemma_grid_ext, lemma_grid_plus, lemma_grid_point, lemma_grid_zero};

verus! {

/// One for each cell of `g` holding `m`.
pub open spec fn holds(g: Seq<Seq<Mark>>, m: Mark) -> spec_fn(int, int) -> int {
    |a: int, b: int|
        if g[b][a] == m {
            1int
        } else {
            0
        }
}

/// The number of cells of the game's board holding `m`.
pub open spec fn mark_count(s: TicTacToeGameState, m: Mark) -> int {
    grid_sum(holds(rows_of(s.board@), m), s.height as int, s.width as int)
}

/// X has as many marks as O, or one more; while the game goes on, X is to
/// move exactly when the counts are equal.
pub open spec fn turns_balanced(s: TicTacToeGameState) -> bool {
    let xs = mark_count(s, Mark::X);
    let os = mark_count(s, Mark::O);
    &&& (xs == os || xs == os + 1)
    &&& s.status == GameStatus::InProgress ==> (s.current_mark == Mark::X <==> xs == os)
}

/// A fresh game, with X to move on an empty board, is balanced.
pub proof fn lemma_fresh_game_balanced(s: TicTacToeGameState)
    requires
        empty_board(s.board@, s.width as int, s.height as int),
        s.current_mark == Mark::X,
    ensures
        turns_balanced(s),
{
    let g = rows_of(s.board@);
    assert forall|a: int, b: int| 0 <= a < s.width && 0 <= b < s.height implies #[trigger] holds(g, Mark::X)(a, b)
        == 0 by {
        assert(s.board@[b]@[a] == Mark::Empty);
    }
    assert forall|a: int, b: int| 0 <= a < s.width && 0 <= b < s.height implies #[trigger] holds(g, Mark::O)(a, b)
        == 0 by {
        assert(s.board@[b]@[a] == Mark::Empty);
    }
    lemma_grid_zero(holds(g, Mark::X), s.height as int, s.width as int);
    lemma_grid_zero(holds(g, Mark::O), s.height as int, s.width as int);
}

/// Putting `m` on the empty cell `(x, y)` adds one to the count of `m` and
/// leaves the other counts alone.
proof fn lemma_count_after_mark(old: TicTacToeGameState, new: TicTacToeGameState, x: int, y: int, m: Mark, c: Mark)
    requires
        old.wf(),
        0 <= x < old.width,
        0 <= y < old.height,
        old.board@[y]@[x] == Mark::Empty,
        rows_of(new.board@) == board_with(old.board@, x, y, m),
        new.width == old.width,
        new.height == old.height,
        c != Mark::Empty,
    ensures
        mark_count(new, c) == mark_count(old, c) + if c == m {
            1int
        } else {
            0
        },
{
    let g = rows_of(old.board@);
    let gn = rows_of(new.board@);
    let h = old.height as int;
    let w = old.width as int;
    let bump = point(if c == m { 1int } else { 0 }, x, y);
    assert forall|a: int, b: int| 0 <= a < w && 0 <= b < h implies #[trigger] holds(gn, c)(a, b) == plus(
        holds(g, c),
        bump,
    )(a, b) by {
        assert(old.board@[b]@.len() == w);
        if b == y {
            assert(gn[b] == old.board@[y]@.update(x, m));
        } else {
            assert(gn[b] == old.board@[b]@);
        }
    }
    lemma_grid_ext(holds(gn, c), plus(holds(g, c), bump), h, w);
    lemma_grid_plus(holds(g, c), bump, h, w);
    lemma_grid_point(if c == m { 1int } else { 0 }, x, y, h, w);
}

/// Every accepted move keeps the turns balanced: X has as many marks as
/// O when X is to move, and one more when O is to move.
pub proof fn lemma_turns_alternate(old: TicTacToeGameState, new: TicTacToeGameState, x: usize, y: usize)
    requires
        old.wf(),
        turns_balanced(old),
        old.can_place(old.current_player@, x as int, y as int),
        placed(old, new, x, y),
    ensures
        turns_balanced(new),
{
    lemma_count_after_mark(old, new, x as int, y as int, old.current_mark, Mark::X);
    lemma_count_after_mark(old, new, x as int, y as int, old.current_mark, Mark::O);
}

} // verus!
