//! A win found through one cell is a win of the whole board.

use vstd::prelude::*;
use super::types::Mark;
use super::board::{board_width, is_rectangular};
use super::game_state::rows_of;
use super::win_detector::{
    dl_cell, dl_line, dr_cell, dr_line, h_cell, h_line, has_line, in_board, lemma_winner_iff_line, starts_line,
    v_cell, v_line, winner_of,
};
use super::bot_controller::{at, gw, inside, run_len, step, winner_at, line_through};

verus! {

/// The cells a run counts hold `m` and lie on the board.
proof fn lemma_run_cells(g: Seq<Seq<Mark>>, x: int, y: int, dx: int, dy: int, m: Mark, i: int, lim: int)
    ensures
        0 <= run_len(g, x, y, dx, dy, m, i, lim),
        i < lim ==> run_len(g, x, y, dx, dy, m, i, lim) <= lim - i,
        i >= lim ==> run_len(g, x, y, dx, dy, m, i, lim) == 0,
        forall|j: int|
            i <= j < i + run_len(g, x, y, dx, dy, m, i, lim) ==> inside(g, #[trigger] step(x, dx, j), step(y, dy, j))
                && at(g, step(x, dx, j), step(y, dy, j)) == m,
    decreases lim - i,
{
    if i < lim && inside(g, step(x, dx, i), step(y, dy, i)) && at(g, step(x, dx, i), step(y, dy, i)) == m {
        lemma_run_cells(g, x, y, dx, dy, m, i + 1, lim);
    }
}

/// A cell through which `w` equal marks run, in any of the four
/// directions, means the whole-board check finds a winner.
pub proof fn lemma_cell_win_is_board_win(b: Seq<Vec<Mark>>, w: int, x: int, y: int)
    requires
        is_rectangular(b),
        inside(rows_of(b), x, y),
        1 <= w,
        winner_at(rows_of(b), w, x, y) is Some,
    ensures
        winner_of(b, w) is Some,
{
    let g = rows_of(b);
    let m = at(g, x, y);
    assert(gw(g) == board_width(b));
    assert forall|yy: int, xx: int| 0 <= yy < b.len() implies #[trigger] at(g, xx, yy) == b[yy]@[xx] by {}
    assert forall|yy: int| 0 <= yy < b.len() implies #[trigger] b[yy]@.len() == board_width(b) by {}
    if line_through(g, x, y, 1, 0, w) {
        let a = run_len(g, x, y, 1, 0, m, 1, w);
        let c = run_len(g, x, y, -1, 0, m, 1, w);
        lemma_run_cells(g, x, y, 1, 0, m, 1, w);
        lemma_run_cells(g, x, y, -1, 0, m, 1, w);
        let sx = x - c;
        if c > 0 {
            assert(inside(g, step(x, -1, c), step(y, 0, c)));
        }
        if a > 0 {
            assert(inside(g, step(x, 1, a), step(y, 0, a)));
        }
        assert forall|i: int| 0 <= i < w implies #[trigger] h_cell(b, sx, y, i) == m by {
            let k = i - c;
            if k > 0 {
                assert(inside(g, step(x, 1, k), step(y, 0, k)));
            } else if k < 0 {
                assert(inside(g, step(x, -1, -k), step(y, 0, -k)));
            }
        }
        assert(in_board(b, sx, y) && starts_line(b, w, sx, y));
    } else if line_through(g, x, y, 0, 1, w) {
        let a = run_len(g, x, y, 0, 1, m, 1, w);
        let c = run_len(g, x, y, 0, -1, m, 1, w);
        lemma_run_cells(g, x, y, 0, 1, m, 1, w);
        lemma_run_cells(g, x, y, 0, -1, m, 1, w);
        let sy = y - c;
        if c > 0 {
            assert(inside(g, step(x, 0, c), step(y, -1, c)));
        }
        if a > 0 {
            assert(inside(g, step(x, 0, a), step(y, 1, a)));
        }
        assert forall|i: int| 0 <= i < w implies #[trigger] v_cell(b, x, sy, i) == m by {
            let k = i - c;
            if k > 0 {
                assert(inside(g, step(x, 0, k), step(y, 1, k)));
            } else if k < 0 {
                assert(inside(g, step(x, 0, -k), step(y, -1, -k)));
            }
        }
        assert(in_board(b, x, sy) && starts_line(b, w, x, sy));
    } else if line_through(g, x, y, 1, 1, w) {
        let a = run_len(g, x, y, 1, 1, m, 1, w);
        let c = run_len(g, x, y, -1, -1, m, 1, w);
        lemma_run_cells(g, x, y, 1, 1, m, 1, w);
        lemma_run_cells(g, x, y, -1, -1, m, 1, w);
        let sx = x - c;
        let sy = y - c;
        if c > 0 {
            assert(inside(g, step(x, -1, c), step(y, -1, c)));
        }
        if a > 0 {
            assert(inside(g, step(x, 1, a), step(y, 1, a)));
        }
        assert forall|i: int| 0 <= i < w implies #[trigger] dr_cell(b, sx, sy, i) == m by {
            let k = i - c;
            if k > 0 {
                assert(inside(g, step(x, 1, k), step(y, 1, k)));
            } else if k < 0 {
                assert(inside(g, step(x, -1, -k), step(y, -1, -k)));
            }
        }
        assert(in_board(b, sx, sy) && starts_line(b, w, sx, sy));
    } else {
        assert(line_through(g, x, y, 1, -1, w));
        let a = run_len(g, x, y, 1, -1, m, 1, w);
        let c = run_len(g, x, y, -1, 1, m, 1, w);
        lemma_run_cells(g, x, y, 1, -1, m, 1, w);
        lemma_run_cells(g, x, y, -1, 1, m, 1, w);
        let sx = x + a;
        let sy = y - a;
        if c > 0 {
            assert(inside(g, step(x, -1, c), step(y, 1, c)));
        }
        if a > 0 {
            assert(inside(g, step(x, 1, a), step(y, -1, a)));
        }
        assert forall|i: int| 0 <= i < w implies #[trigger] dl_cell(b, sx, sy, i) == m by {
            let k = a - i;
            if k > 0 {
                assert(inside(g, step(x, 1, k), step(y, -1, k)));
            } else if k < 0 {
                assert(inside(g, step(x, -1, -k), step(y, 1, -k)));
            }
        }
        assert(in_board(b, sx, sy) && starts_line(b, w, sx, sy));
    }
    assert(has_line(b, w));
    lemma_winner_iff_line(b, w);
}

} // verus!
