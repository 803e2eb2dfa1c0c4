use vstd::prelude::*;
use super::types::{Mark, Position, opponent_of};
use super::game_state::{rows_of, TicTacToeGameState};
use super::board::{get_available_moves, is_available, before};
use crate::proto::tictactoe::TicTacToeBotType;
use crate::session_rng::thread_rng_choose_cell;

verus! {

// ----- the board as a grid of marks -------------------------------------

/// Number of columns: the length of the first row.
pub open spec fn gw(g: Seq<Seq<Mark>>) -> int {
    if g.len() == 0 {
        0
    } else {
        g[0].len() as int
    }
}

/// Every row is as long as the first.
pub open spec fn rect(g: Seq<Seq<Mark>>) -> bool {
    forall|y: int| 0 <= y < g.len() ==> #[trigger] g[y].len() == gw(g)
}

pub open spec fn inside(g: Seq<Seq<Mark>>, x: int, y: int) -> bool {
    0 <= y < g.len() && 0 <= x < gw(g)
}

pub open spec fn at(g: Seq<Seq<Mark>>, x: int, y: int) -> Mark {
    g[y][x]
}

/// Coordinate `c` moved `i` steps in direction `delta` (one of -1, 0, 1).
pub open spec fn step(c: int, delta: int, i: int) -> int {
    if delta == 0 {
        c
    } else if delta > 0 {
        c + i
    } else {
        c - i
    }
}

/// The four line directions the bot scans, as `(dx, dy)`.
pub open spec fn dir_dx(d: int) -> int {
    if d == 1 {
        0
    } else {
        1
    }
}

pub open spec fn dir_dy(d: int) -> int {
    if d == 0 {
        0
    } else if d == 3 {
        -1
    } else {
        1
    }
}

pub open spec fn is_dir(dx: int, dy: int) -> bool {
    (dx == 1 && dy == 0) || (dx == 0 && dy == 1) || (dx == 1 && dy == 1) || (dx == 1 && dy == -1)
}

/// Bounds under which all the bot's `i32` arithmetic stays in range.
pub open spec fn bot_board_ok(g: Seq<Seq<Mark>>, w: int) -> bool {
    &&& rect(g)
    &&& g.len() <= 100
    &&& gw(g) <= 100
    &&& 1 <= w <= 100
}

/// How many of the first `n` cells of the line from `(sx, sy)` in
/// direction `(dx, dy)` hold `m`.
pub open spec fn count_eq(g: Seq<Seq<Mark>>, sx: int, sy: int, dx: int, dy: int, m: Mark, n: int) -> int
    decreases n,
{
    if n <= 0 {
        0
    } else {
        count_eq(g, sx, sy, dx, dy, m, n - 1) + if at(g, step(sx, dx, n - 1), step(sy, dy, n - 1))
            == m {
            1int
        } else {
            0int
        }
    }
}

/// How many of the first `n` cells of that line hold a mark other than `m`.
pub open spec fn count_foreign(
    g: Seq<Seq<Mark>>,
    sx: int,
    sy: int,
    dx: int,
    dy: int,
    m: Mark,
    n: int,
) -> int
    decreases n,
{
    if n <= 0 {
        0
    } else {
        count_foreign(g, sx, sy, dx, dy, m, n - 1) + {
            let c = at(g, step(sx, dx, n - 1), step(sy, dy, n - 1));
            if c != m && c != Mark::Empty {
                1int
            } else {
                0int
            }
        }
    }
}

/// The threat of a window: the square of the number of `m` marks when the
/// `w` cells from `(sx, sy)` fit on the board and hold no other mark.
pub open spec fn threat(g: Seq<Seq<Mark>>, sx: int, sy: int, dx: int, dy: int, m: Mark, w: int) -> int {
    if inside(g, step(sx, dx, w - 1), step(sy, dy, w - 1)) && count_foreign(g, sx, sy, dx, dy, m, w)
        == 0 {
        count_eq(g, sx, sy, dx, dy, m, w) * count_eq(g, sx, sy, dx, dy, m, w)
    } else {
        0
    }
}

/// Threats of the four windows starting at `(x, y)`.
pub open spec fn cell_threat(g: Seq<Seq<Mark>>, x: int, y: int, m: Mark, w: int) -> int {
    threat(g, x, y, 1, 0, m, w) + threat(g, x, y, 0, 1, m, w) + threat(g, x, y, 1, 1, m, w) + threat(
        g,
        x,
        y,
        1,
        -1,
        m,
        w,
    )
}

/// Sum of cell threats over the first `n` cells of row `y`.
pub open spec fn row_threat(g: Seq<Seq<Mark>>, y: int, m: Mark, w: int, n: int) -> int
    decreases n,
{
    if n <= 0 {
        0
    } else {
        row_threat(g, y, m, w, n - 1) + cell_threat(g, n - 1, y, m, w)
    }
}

/// Sum of cell threats over the first `n` rows.
pub open spec fn rows_threat(g: Seq<Seq<Mark>>, m: Mark, w: int, n: int) -> int
    decreases n,
{
    if n <= 0 {
        0
    } else {
        rows_threat(g, m, w, n - 1) + row_threat(g, n - 1, m, w, gw(g))
    }
}

/// Total threat of mark `m` over every window of the board.
pub open spec fn total_threat(g: Seq<Seq<Mark>>, m: Mark, w: int) -> int {
    rows_threat(g, m, w, g.len() as int)
}

/// The static evaluation of a board for the bot: its total threat minus
/// its opponent's.
pub open spec fn evaluation(g: Seq<Seq<Mark>>, bot: Mark, w: int) -> int {
    total_threat(g, bot, w) - total_threat(g, opponent_of(bot).unwrap(), w)
}

proof fn lemma_counts_bounded(g: Seq<Seq<Mark>>, sx: int, sy: int, dx: int, dy: int, m: Mark, n: int)
    ensures
        0 <= count_eq(g, sx, sy, dx, dy, m, n) <= if n < 0 { 0 } else { n },
        0 <= count_foreign(g, sx, sy, dx, dy, m, n) <= if n < 0 { 0 } else { n },
        count_eq(g, sx, sy, dx, dy, m, n) + count_foreign(g, sx, sy, dx, dy, m, n) <= if n < 0 {
            0
        } else {
            n
        },
    decreases n,
{
    if n > 0 {
        lemma_counts_bounded(g, sx, sy, dx, dy, m, n - 1);
    }
}

proof fn lemma_threat_bounded(g: Seq<Seq<Mark>>, sx: int, sy: int, dx: int, dy: int, m: Mark, w: int)
    requires
        1 <= w <= 100,
    ensures
        0 <= threat(g, sx, sy, dx, dy, m, w) <= 10000,
{
    lemma_counts_bounded(g, sx, sy, dx, dy, m, w);
    let c = count_eq(g, sx, sy, dx, dy, m, w);
    assert(0 <= c * c <= 10000) by (nonlinear_arith)
        requires
            0 <= c <= 100,
    ;
}

/// Every cell of a window that fits lies on the board.
proof fn lemma_window_inside(g: Seq<Seq<Mark>>, sx: int, sy: int, dx: int, dy: int, w: int, i: int)
    requires
        is_dir(dx, dy),
        inside(g, sx, sy),
        inside(g, step(sx, dx, w - 1), step(sy, dy, w - 1)),
        0 <= i < w,
    ensures
        inside(g, step(sx, dx, i), step(sy, dy, i)),
{
}

/// Threat of the window of `win_count` cells from `(start_x, start_y)` in
/// direction `(dx, dy)`: zero when it leaves the board or holds a foreign
/// mark, else the square of the number of `mark` cells.
fn check_line_threat(
    board: &[Vec<Mark>],
    start_x: usize,
    start_y: usize,
    dx: isize,
    dy: isize,
    mark: Mark,
    win_count: usize,
) -> (r: i32)
    requires
        bot_board_ok(rows_of(board@), win_count as int),
        inside(rows_of(board@), start_x as int, start_y as int),
        is_dir(dx as int, dy as int),
    ensures
        r == threat(rows_of(board@), start_x as int, start_y as int, dx as int, dy as int, mark, win_count as int),
        0 <= r <= 10000,
{
    let ghost g = rows_of(board@);
    let height = board.len();
    let width = board[0].len();
    let last = (win_count - 1) as isize;

    let end_x = start_x as isize + dx * last;
    let end_y = start_y as isize + dy * last;
    proof {
        lemma_threat_bounded(g, start_x as int, start_y as int, dx as int, dy as int, mark, win_count as int);
        assert(end_x == step(start_x as int, dx as int, win_count - 1));
        assert(end_y == step(start_y as int, dy as int, win_count - 1));
    }
    if end_x < 0 || end_y < 0 || end_x >= width as isize || end_y >= height as isize {
        return 0;
    }

    let mut count: i32 = 0;
    let mut i: usize = 0;
    while i < win_count
        invariant
            g == rows_of(board@),
            bot_board_ok(g, win_count as int),
            inside(g, start_x as int, start_y as int),
            inside(g, step(start_x as int, dx as int, win_count - 1), step(start_y as int, dy as int, win_count - 1)),
            is_dir(dx as int, dy as int),
            height == g.len(),
            width == gw(g),
            0 <= i <= win_count,
            count == count_eq(g, start_x as int, start_y as int, dx as int, dy as int, mark, i as int),
            count_foreign(g, start_x as int, start_y as int, dx as int, dy as int, mark, i as int) == 0,
        decreases win_count - i,
    {
        proof {
            lemma_window_inside(g, start_x as int, start_y as int, dx as int, dy as int, win_count as int, i as int);
            lemma_counts_bounded(g, start_x as int, start_y as int, dx as int, dy as int, mark, i as int);
        }
        let cy: usize = (start_y as isize + dy * (i as isize)) as usize;
        let cx: usize = (start_x as isize + dx * (i as isize)) as usize;
        assert(cx == step(start_x as int, dx as int, i as int));
        assert(cy == step(start_y as int, dy as int, i as int));
        assert(board@[cy as int]@.len() == width) by {
            assert(g[cy as int].len() == gw(g));
        }
        let cell = board[cy][cx];
        assert(cell == at(g, cx as int, cy as int));
        if cell == mark {
            count = count + 1;
        } else if cell != Mark::Empty {
            proof {
                assert(count_foreign(g, start_x as int, start_y as int, dx as int, dy as int, mark, i + 1) > 0) by {
                    lemma_counts_bounded(g, start_x as int, start_y as int, dx as int, dy as int, mark, i as int);
                }
                lemma_foreign_monotone(g, start_x as int, start_y as int, dx as int, dy as int, mark, i + 1, win_count as int);
            }
            return 0;
        }
        i = i + 1;
    }
    proof {
        lemma_counts_bounded(g, start_x as int, start_y as int, dx as int, dy as int, mark, win_count as int);
        assert(0 <= count * count <= 10000) by (nonlinear_arith)
            requires
                0 <= count <= 100,
        ;
    }
    count * count
}

proof fn lemma_foreign_monotone(g: Seq<Seq<Mark>>, sx: int, sy: int, dx: int, dy: int, m: Mark, a: int, b: int)
    requires
        0 <= a <= b,
    ensures
        count_foreign(g, sx, sy, dx, dy, m, a) <= count_foreign(g, sx, sy, dx, dy, m, b),
    decreases b - a,
{
    if a < b {
        lemma_foreign_monotone(g, sx, sy, dx, dy, m, a, b - 1);
    }
}

/// Total threat of `mark` over all windows of `win_count` cells.
fn count_threats(board: &[Vec<Mark>], mark: Mark, win_count: usize) -> (r: i32)
    requires
        bot_board_ok(rows_of(board@), win_count as int),
    ensures
        r == total_threat(rows_of(board@), mark, win_count as int),
        0 <= r <= 400_000_000,
{
    let ghost g = rows_of(board@);
    let height = board.len();
    if height == 0 {
        return 0;
    }
    let width = board[0].len();

    let mut score: i32 = 0;
    let mut y: usize = 0;
    while y < height
        invariant
            g == rows_of(board@),
            bot_board_ok(g, win_count as int),
            height == g.len(),
            width == gw(g),
            0 <= y <= height,
            score == rows_threat(g, mark, win_count as int, y as int),
            0 <= score <= 40000 * y * width,
        decreases height - y,
    {
        assert(40000 * y * width == 40000 * (y * width + 0)) by (nonlinear_arith);
        let mut x: usize = 0;
        while x < width
            invariant
                g == rows_of(board@),
                bot_board_ok(g, win_count as int),
                height == g.len(),
                width == gw(g),
                0 <= y < height,
                0 <= x <= width,
                score == rows_threat(g, mark, win_count as int, y as int) + row_threat(g, y as int, mark, win_count as int, x as int),
                0 <= score <= 40000 * (y * width + x),
            decreases width - x,
        {
            proof {
                assert(40000 * (y * width + x) + 40000 <= 400_000_000) by (nonlinear_arith)
                    requires
                        0 <= y < height <= 100,
                        0 <= x < width <= 100,
                ;
            }
            let t1 = check_line_threat(board, x, y, 1, 0, mark, win_count);
            let t2 = check_line_threat(board, x, y, 0, 1, mark, win_count);
            let t3 = check_line_threat(board, x, y, 1, 1, mark, win_count);
            let t4 = check_line_threat(board, x, y, 1, -1, mark, win_count);
            score = score + t1;
            score = score + t2;
            score = score + t3;
            score = score + t4;
            assert(40000 * (y * width + x) + 40000 == 40000 * (y * width + (x + 1))) by (nonlinear_arith);
            x = x + 1;
        }
        assert(40000 * (y * width + width) == 40000 * (y + 1) * width) by (nonlinear_arith);
        y = y + 1;
    }
    assert(40000 * height * width <= 400_000_000) by (nonlinear_arith)
        requires
            height <= 100,
            width <= 100,
    ;
    score
}

/// The bot's static evaluation of a board: its own threats minus its
/// opponent's.
pub fn evaluate_board(board: &[Vec<Mark>], bot_mark: Mark, win_count: usize) -> (r: i32)
    requires
        bot_board_ok(rows_of(board@), win_count as int),
        bot_mark != Mark::Empty,
    ensures
        r == evaluation(rows_of(board@), bot_mark, win_count as int),
        -400_000_000 <= r <= 400_000_000,
{
    let opponent_mark = bot_mark.opponent().unwrap();
    let bot_score = count_threats(board, bot_mark, win_count);
    let opponent_score = count_threats(board, opponent_mark, win_count);
    bot_score - opponent_score
}

// ----- incremental evaluation ------------------------------------------

/// Score of a window holding `bc` bot marks and `oc` opponent marks.
pub open spec fn window_value(bc: int, oc: int) -> int {
    if oc == 0 {
        bc * bc
    } else if bc == 0 {
        -(oc * oc)
    } else {
        0
    }
}

/// Score of that window once one more mark is added: a bot mark when
/// `bot_moves`, an opponent mark otherwise.
pub open spec fn value_after_move(bc: int, oc: int, bot_moves: bool) -> int {
    if bot_moves {
        if oc == 0 {
            (bc + 1) * (bc + 1)
        } else {
            0
        }
    } else {
        if bc == 0 {
            -((oc + 1) * (oc + 1))
        } else {
            0
        }
    }
}

/// Change of the score of the window that contains `(x, y)` at position
/// `off`, in direction `(dx, dy)`, when a mark is added at `(x, y)`; zero
/// when that window does not fit on the board.
pub open spec fn window_delta(
    g: Seq<Seq<Mark>>,
    x: int,
    y: int,
    dx: int,
    dy: int,
    off: int,
    bot: Mark,
    w: int,
    bot_moves: bool,
) -> int {
    let sx = step(x, dx, -off);
    let sy = step(y, dy, -off);
    if inside(g, sx, sy) && inside(g, step(sx, dx, w - 1), step(sy, dy, w - 1)) {
        let bc = count_eq(g, sx, sy, dx, dy, bot, w);
        let oc = count_foreign(g, sx, sy, dx, dy, bot, w);
        value_after_move(bc, oc, bot_moves) - window_value(bc, oc)
    } else {
        0
    }
}

/// Sum of the window changes over the first `n` windows through `(x, y)`
/// in direction `(dx, dy)`.
pub open spec fn dir_delta(
    g: Seq<Seq<Mark>>,
    x: int,
    y: int,
    dx: int,
    dy: int,
    bot: Mark,
    w: int,
    bot_moves: bool,
    n: int,
) -> int
    decreases n,
{
    if n <= 0 {
        0
    } else {
        dir_delta(g, x, y, dx, dy, bot, w, bot_moves, n - 1) + window_delta(
            g,
            x,
            y,
            dx,
            dy,
            n - 1,
            bot,
            w,
            bot_moves,
        )
    }
}

/// Sum of the window changes over the first `d` directions.
pub open spec fn dirs_delta(g: Seq<Seq<Mark>>, x: int, y: int, bot: Mark, w: int, bot_moves: bool, d: int) -> int
    decreases d,
{
    if d <= 0 {
        0
    } else {
        dirs_delta(g, x, y, bot, w, bot_moves, d - 1) + dir_delta(
            g,
            x,
            y,
            dir_dx(d - 1),
            dir_dy(d - 1),
            bot,
            w,
            bot_moves,
            w,
        )
    }
}

/// The change of the evaluation caused by a move at `(x, y)`: the sum of
/// the changes of every window through that cell.
pub open spec fn move_delta(g: Seq<Seq<Mark>>, x: int, y: int, bot: Mark, w: int, bot_moves: bool) -> int {
    dirs_delta(g, x, y, bot, w, bot_moves, 4)
}

fn direction(d: usize) -> (r: (isize, isize))
    requires
        d < 4,
    ensures
        r.0 == dir_dx(d as int),
        r.1 == dir_dy(d as int),
        is_dir(r.0 as int, r.1 as int),
{
    if d == 0 {
        (1, 0)
    } else if d == 1 {
        (0, 1)
    } else if d == 2 {
        (1, 1)
    } else {
        (1, -1)
    }
}

proof fn lemma_window_delta_bounded(
    g: Seq<Seq<Mark>>,
    x: int,
    y: int,
    dx: int,
    dy: int,
    off: int,
    bot: Mark,
    w: int,
    bm: bool,
)
    requires
        1 <= w <= 100,
    ensures
        -20201 <= window_delta(g, x, y, dx, dy, off, bot, w, bm) <= 20201,
{
    let sx = step(x, dx, -off);
    let sy = step(y, dy, -off);
    lemma_counts_bounded(g, sx, sy, dx, dy, bot, w);
    let bc = count_eq(g, sx, sy, dx, dy, bot, w);
    let oc = count_foreign(g, sx, sy, dx, dy, bot, w);
    assert(0 <= bc * bc <= 10000 && 0 <= oc * oc <= 10000 && 0 <= (bc + 1) * (bc + 1) <= 10201 && 0
        <= (oc + 1) * (oc + 1) <= 10201) by (nonlinear_arith)
        requires
            0 <= bc <= 100,
            0 <= oc <= 100,
    ;
}

/// Numbers of bot marks and of opponent marks among the `win_count` cells
/// of a window that fits on the board.
fn window_counts(
    board: &[Vec<Mark>],
    sx: usize,
    sy: usize,
    dx: isize,
    dy: isize,
    bot_mark: Mark,
    win_count: usize,
) -> (r: (i32, i32))
    requires
        bot_board_ok(rows_of(board@), win_count as int),
        is_dir(dx as int, dy as int),
        inside(rows_of(board@), sx as int, sy as int),
        inside(rows_of(board@), step(sx as int, dx as int, win_count - 1), step(sy as int, dy as int, win_count - 1)),
        bot_mark != Mark::Empty,
    ensures
        r.0 == count_eq(rows_of(board@), sx as int, sy as int, dx as int, dy as int, bot_mark, win_count as int),
        r.1 == count_foreign(rows_of(board@), sx as int, sy as int, dx as int, dy as int, bot_mark, win_count as int),
        0 <= r.0 <= 100,
        0 <= r.1 <= 100,
{
    let ghost g = rows_of(board@);
    let width = board[0].len();
    let mut bot_count: i32 = 0;
    let mut opp_count: i32 = 0;
    let mut i: usize = 0;
    while i < win_count
        invariant
            g == rows_of(board@),
            bot_board_ok(g, win_count as int),
            is_dir(dx as int, dy as int),
            width == gw(g),
            inside(g, sx as int, sy as int),
            inside(g, step(sx as int, dx as int, win_count - 1), step(sy as int, dy as int, win_count - 1)),
            bot_mark != Mark::Empty,
            0 <= i <= win_count,
            bot_count == count_eq(g, sx as int, sy as int, dx as int, dy as int, bot_mark, i as int),
            opp_count == count_foreign(g, sx as int, sy as int, dx as int, dy as int, bot_mark, i as int),
            0 <= bot_count <= i,
            0 <= opp_count <= i,
        decreases win_count - i,
    {
        proof {
            lemma_window_inside(g, sx as int, sy as int, dx as int, dy as int, win_count as int, i as int);
        }
        let cx: usize = (sx as isize + dx * (i as isize)) as usize;
        let cy: usize = (sy as isize + dy * (i as isize)) as usize;
        assert(cx == step(sx as int, dx as int, i as int));
        assert(cy == step(sy as int, dy as int, i as int));
        assert(board@[cy as int]@.len() == width) by {
            assert(g[cy as int].len() == gw(g));
        }
        let cell = board[cy][cx];
        assert(cell == at(g, cx as int, cy as int));
        if cell == Mark::Empty {
        } else if cell == bot_mark {
            bot_count = bot_count + 1;
        } else {
            opp_count = opp_count + 1;
        }
        i = i + 1;
    }
    (bot_count, opp_count)
}

/// The change of the bot's evaluation when `move_mark` is placed at
/// `(x, y)`, computed from the windows of `win_count` cells through it.
pub fn eval_delta_before_move(
    board: &[Vec<Mark>],
    bot_mark: Mark,
    win_count: usize,
    x: usize,
    y: usize,
    move_mark: Mark,
) -> (r: i32)
    requires
        bot_board_ok(rows_of(board@), win_count as int),
        inside(rows_of(board@), x as int, y as int),
        bot_mark != Mark::Empty,
    ensures
        r == move_delta(rows_of(board@), x as int, y as int, bot_mark, win_count as int, move_mark == bot_mark),
        -10_000_000 <= r <= 10_000_000,
{
    let ghost g = rows_of(board@);
    let ghost bm = move_mark == bot_mark;
    let height = board.len();
    let width = board[0].len();
    let mut delta: i32 = 0;
    let mut d: usize = 0;
    while d < 4
        invariant
            g == rows_of(board@),
            bm == (move_mark == bot_mark),
            bot_board_ok(g, win_count as int),
            inside(g, x as int, y as int),
            height == g.len(),
            width == gw(g),
            0 <= d <= 4,
            delta == dirs_delta(g, x as int, y as int, bot_mark, win_count as int, bm, d as int),
            bot_mark != Mark::Empty,
            -2_100_000 * d <= delta <= 2_100_000 * d,
        decreases 4 - d,
    {
        let (dx, dy) = direction(d);
        let mut offset: usize = 0;
        let mut dsum: i32 = 0;
        while offset < win_count
            invariant
                g == rows_of(board@),
                bm == (move_mark == bot_mark),
                bot_board_ok(g, win_count as int),
                inside(g, x as int, y as int),
                is_dir(dx as int, dy as int),
                height == g.len(),
                width == gw(g),
                0 <= offset <= win_count,
                dsum == dir_delta(g, x as int, y as int, dx as int, dy as int, bot_mark, win_count as int, bm, offset as int),
                bot_mark != Mark::Empty,
                -20201 * offset <= dsum <= 20201 * offset,
            decreases win_count - offset,
        {
            proof {
                lemma_window_delta_bounded(g, x as int, y as int, dx as int, dy as int, offset as int, bot_mark, win_count as int, bm);
            }
            let start_x = x as isize - dx * (offset as isize);
            let start_y = y as isize - dy * (offset as isize);
            let end_x = start_x + dx * (win_count as isize - 1);
            let end_y = start_y + dy * (win_count as isize - 1);
            let ghost sx = step(x as int, dx as int, -offset);
            let ghost sy = step(y as int, dy as int, -offset);
            assert(start_x == sx && start_y == sy);
            assert(end_x == step(sx, dx as int, win_count - 1) && end_y == step(sy, dy as int, win_count - 1));

            if start_x < 0 || start_y < 0 || end_x < 0 || end_y < 0 || start_x >= width as isize
                || start_y >= height as isize || end_x >= width as isize || end_y >= height as isize {
                offset = offset + 1;
                continue;
            }

            let (bot_count, opp_count) = window_counts(board, start_x as usize, start_y as usize, dx, dy, bot_mark, win_count);

            proof {
                assert(0 <= bot_count * bot_count <= 10000 && 0 <= opp_count * opp_count <= 10000 && 0
                    <= (bot_count + 1) * (bot_count + 1) <= 10201 && 0 <= (opp_count + 1) * (
                opp_count + 1) <= 10201) by (nonlinear_arith)
                    requires
                        0 <= bot_count <= 100,
                        0 <= opp_count <= 100,
                ;
            }
            let old_score = if opp_count == 0 {
                bot_count * bot_count
            } else if bot_count == 0 {
                -(opp_count * opp_count)
            } else {
                0
            };

            let new_score = if move_mark == bot_mark {
                if opp_count == 0 {
                    (bot_count + 1) * (bot_count + 1)
                } else {
                    0
                }
            } else {
                if bot_count == 0 {
                    -((opp_count + 1) * (opp_count + 1))
                } else {
                    0
                }
            };

            dsum = dsum + (new_score - old_score);
            offset = offset + 1;
        }
        assert(-20201 * win_count >= -2_100_000 && 20201 * win_count <= 2_100_000) by (nonlinear_arith)
            requires
                win_count <= 100,
        ;
        delta = delta + dsum;
        d = d + 1;
    }
    delta
}

// ----- wins through the last move --------------------------------------

/// Number of consecutive cells equal to `m`, starting `i` steps from
/// `(x, y)` in direction `(dx, dy)` and stopping before step `lim`.
pub open spec fn run_len(g: Seq<Seq<Mark>>, x: int, y: int, dx: int, dy: int, m: Mark, i: int, lim: int) -> int
    decreases lim - i,
{
    if i >= lim {
        0
    } else if inside(g, step(x, dx, i), step(y, dy, i)) && at(g, step(x, dx, i), step(y, dy, i)) == m {
        1 + run_len(g, x, y, dx, dy, m, i + 1, lim)
    } else {
        0
    }
}

/// At least `w` equal marks run through `(x, y)` along direction `(dx, dy)`
/// (looking at most `w - 1` cells each way).
pub open spec fn line_through(g: Seq<Seq<Mark>>, x: int, y: int, dx: int, dy: int, w: int) -> bool {
    let m = at(g, x, y);
    1 + run_len(g, x, y, dx, dy, m, 1, w) + run_len(g, x, y, -dx, -dy, m, 1, w) >= w
}

/// The mark at `(x, y)` when it completes a line of `w` through that cell.
pub open spec fn winner_at(g: Seq<Seq<Mark>>, w: int, x: int, y: int) -> Option<Mark> {
    let m = at(g, x, y);
    if m == Mark::Empty {
        None
    } else if line_through(g, x, y, 1, 0, w) || line_through(g, x, y, 0, 1, w) || line_through(
        g,
        x,
        y,
        1,
        1,
        w,
    ) || line_through(g, x, y, 1, -1, w) {
        Some(m)
    } else {
        None
    }
}

/// Length of the run of `mark` from `(x, y)` in direction `(dx, dy)`,
/// starting one step away and looking at most `win_count - 1` steps.
fn run_from(board: &[Vec<Mark>], win_count: usize, x: usize, y: usize, dx: isize, dy: isize, mark: Mark) -> (r: usize)
    requires
        bot_board_ok(rows_of(board@), win_count as int),
        inside(rows_of(board@), x as int, y as int),
        -1 <= dx <= 1,
        -1 <= dy <= 1,
    ensures
        r == run_len(rows_of(board@), x as int, y as int, dx as int, dy as int, mark, 1, win_count as int),
        r < 100,
{
    let ghost g = rows_of(board@);
    let height = board.len();
    let width = board[0].len();
    let win_count_i = win_count as isize;
    let mut i: isize = 1;
    while i < win_count_i
        invariant
            g == rows_of(board@),
            bot_board_ok(g, win_count as int),
            inside(g, x as int, y as int),
            -1 <= dx <= 1,
            -1 <= dy <= 1,
            height == g.len(),
            width == gw(g),
            win_count_i == win_count,
            1 <= i <= 100,
            i <= win_count || i == 1,
            run_len(g, x as int, y as int, dx as int, dy as int, mark, 1, win_count as int) == (i - 1)
                + run_len(g, x as int, y as int, dx as int, dy as int, mark, i as int, win_count as int),
        decreases win_count_i - i,
    {
        assert(-100 <= dx * i <= 100 && -100 <= dy * i <= 100) by (nonlinear_arith)
            requires
                -1 <= dx <= 1,
                -1 <= dy <= 1,
                1 <= i <= 100,
        ;
        let nx = x as isize + dx * i;
        let ny = y as isize + dy * i;
        assert(nx == step(x as int, dx as int, i as int)) by {
            if dx == 0 {
                assert(dx * i == 0);
            } else if dx == 1 {
                assert(dx * i == i);
            } else {
                assert(dx * i == -i) by (nonlinear_arith)
                    requires
                        dx == -1,
                ;
            }
        }
        assert(ny == step(y as int, dy as int, i as int)) by {
            if dy == 0 {
                assert(dy * i == 0);
            } else if dy == 1 {
                assert(dy * i == i);
            } else {
                assert(dy * i == -i) by (nonlinear_arith)
                    requires
                        dy == -1,
                ;
            }
        }
        if nx < 0 || ny < 0 || nx >= width as isize || ny >= height as isize {
            return (i - 1) as usize;
        }
        assert(board@[ny as int]@.len() == width) by {
            assert(g[ny as int].len() == gw(g));
        }
        if board[ny as usize][nx as usize] != mark {
            assert(at(g, nx as int, ny as int) != mark);
            return (i - 1) as usize;
        }
        i = i + 1;
    }
    (i - 1) as usize
}

/// The mark at `(x, y)` if it lies on a line of `win_count` equal marks.
fn check_win_at(board: &[Vec<Mark>], win_count: usize, x: usize, y: usize) -> (r: Option<Mark>)
    requires
        bot_board_ok(rows_of(board@), win_count as int),
        inside(rows_of(board@), x as int, y as int),
    ensures
        r == winner_at(rows_of(board@), win_count as int, x as int, y as int),
{
    let ghost g = rows_of(board@);
    assert(board@[y as int]@.len() == gw(g)) by {
        assert(g[y as int].len() == gw(g));
    }
    let mark = board[y][x];
    if mark == Mark::Empty {
        return None;
    }
    let mut d: usize = 0;
    while d < 4
        invariant
            g == rows_of(board@),
            bot_board_ok(g, win_count as int),
            inside(g, x as int, y as int),
            mark == at(g, x as int, y as int),
            mark != Mark::Empty,
            0 <= d <= 4,
            forall|k: int| 0 <= k < d ==> !line_through(g, x as int, y as int, #[trigger] dir_dx(k), dir_dy(k), win_count as int),
        decreases 4 - d,
    {
        let (dx, dy) = direction(d);
        let fwd = run_from(board, win_count, x, y, dx, dy, mark);
        let bwd = run_from(board, win_count, x, y, -dx, -dy, mark);
        if 1 + fwd + bwd >= win_count {
            assert(line_through(g, x as int, y as int, dir_dx(d as int), dir_dy(d as int), win_count as int));
            assert(winner_at(g, win_count as int, x as int, y as int) == Some(mark)) by {
                if d == 0 {
                    assert(line_through(g, x as int, y as int, 1, 0, win_count as int));
                } else if d == 1 {
                    assert(line_through(g, x as int, y as int, 0, 1, win_count as int));
                } else if d == 2 {
                    assert(line_through(g, x as int, y as int, 1, 1, win_count as int));
                } else {
                    assert(line_through(g, x as int, y as int, 1, -1, win_count as int));
                }
            }
            return Some(mark);
        }
        d = d + 1;
    }
    assert(!line_through(g, x as int, y as int, dir_dx(0), dir_dy(0), win_count as int));
    assert(!line_through(g, x as int, y as int, dir_dx(1), dir_dy(1), win_count as int));
    assert(!line_through(g, x as int, y as int, dir_dx(2), dir_dy(2), win_count as int));
    assert(!line_through(g, x as int, y as int, dir_dx(3), dir_dy(3), win_count as int));
    None
}

// ----- search depth ------------------------------------------------------

/// Empty cells among the first `n` cells of a row.
pub open spec fn row_empties(r: Seq<Mark>, n: int) -> int
    decreases n,
{
    if n <= 0 {
        0
    } else {
        row_empties(r, n - 1) + if r[n - 1] == Mark::Empty {
            1int
        } else {
            0int
        }
    }
}

/// Empty cells in the first `n` rows.
pub open spec fn grid_empties(g: Seq<Seq<Mark>>, n: int) -> int
    decreases n,
{
    if n <= 0 {
        0
    } else {
        grid_empties(g, n - 1) + row_empties(g[n - 1], g[n - 1].len() as int)
    }
}

/// Search depth for a board with `e` empty cells.
pub open spec fn depth_for(e: int) -> int {
    if e <= 4 {
        e
    } else if e <= 9 {
        6
    } else if e <= 16 {
        4
    } else if e <= 49 {
        3
    } else {
        2
    }
}

proof fn lemma_row_empties_bounded(r: Seq<Mark>, n: int)
    ensures
        0 <= row_empties(r, n) <= if n < 0 { 0 } else { n },
    decreases n,
{
    if n > 0 {
        lemma_row_empties_bounded(r, n - 1);
    }
}

/// How deep the bot searches: every remaining move when at most four
/// cells are empty, then shallower as the board gets emptier.
fn calculate_depth_limit(board: &[Vec<Mark>]) -> (r: usize)
    requires
        rect(rows_of(board@)),
        board@.len() <= 100,
        gw(rows_of(board@)) <= 100,
    ensures
        r == depth_for(grid_empties(rows_of(board@), board@.len() as int)),
        r <= 6,
{
    let ghost g = rows_of(board@);
    let mut empty_cells: usize = 0;
    let mut y: usize = 0;
    while y < board.len()
        invariant
            g == rows_of(board@),
            rect(g),
            board@.len() <= 100,
            gw(g) <= 100,
            0 <= y <= board@.len(),
            empty_cells == grid_empties(g, y as int),
            empty_cells <= y * 100,
        decreases board@.len() - y,
    {
        let row = &board[y];
        assert(row@ == g[y as int]);
        assert(row@.len() == gw(g));
        let mut x: usize = 0;
        let mut row_count: usize = 0;
        while x < row.len()
            invariant
                row@ == g[y as int],
                row@.len() <= 100,
                0 <= x <= row@.len(),
                row_count == row_empties(row@, x as int),
                row_count <= x,
            decreases row@.len() - x,
        {
            if row[x] == Mark::Empty {
                row_count = row_count + 1;
            }
            x = x + 1;
        }
        empty_cells = empty_cells + row_count;
        y = y + 1;
    }
    if empty_cells <= 4 {
        empty_cells
    } else if empty_cells <= 9 {
        6
    } else if empty_cells <= 16 {
        4
    } else if empty_cells <= 49 {
        3
    } else {
        2
    }
}

// ----- search --------------------------------------------------------------

/// No cell of the board is empty.
pub open spec fn no_empty(g: Seq<Seq<Mark>>) -> bool {
    forall|x: int, y: int| inside(g, x, y) ==> #[trigger] at(g, x, y) != Mark::Empty
}

/// The grid after `m` is written at `(x, y)`.
pub open spec fn grid_with(g: Seq<Seq<Mark>>, x: int, y: int, m: Mark) -> Seq<Seq<Mark>> {
    g.update(y, g[y].update(x, m))
}

/// Writes `m` at `(x, y)`.
fn set_cell(board: &mut Vec<Vec<Mark>>, x: usize, y: usize, m: Mark)
    requires
        y < old(board)@.len(),
        x < old(board)@[y as int]@.len(),
    ensures
        final(board)@.len() == old(board)@.len(),
        rows_of(final(board)@) == grid_with(rows_of(old(board)@), x as int, y as int, m),
{
    board[y][x] = m;
    assert(rows_of(board@) =~= grid_with(rows_of(old(board)@), x as int, y as int, m));
}

proof fn lemma_grid_with_shape(g: Seq<Seq<Mark>>, x: int, y: int, m: Mark, w: int)
    requires
        bot_board_ok(g, w),
        inside(g, x, y),
    ensures
        bot_board_ok(grid_with(g, x, y, m), w),
        gw(grid_with(g, x, y, m)) == gw(g),
        grid_with(g, x, y, m).len() == g.len(),
        forall|xx: int, yy: int| inside(g, xx, yy) <==> #[trigger] inside(grid_with(g, x, y, m), xx, yy),
        at(g, x, y) == Mark::Empty ==> grid_with(grid_with(g, x, y, m), x, y, Mark::Empty) == g,
{
    let g2 = grid_with(g, x, y, m);
    assert(g[y].len() == gw(g));
    assert forall|yy: int| 0 <= yy < g2.len() implies #[trigger] g2[yy].len() == gw(g2) by {
        assert(g[yy].len() == gw(g));
        if g.len() > 0 {
            assert(g[0].len() == gw(g));
        }
    }
    if at(g, x, y) == Mark::Empty {
        assert(grid_with(g2, x, y, Mark::Empty) =~= g) by {
            assert(g2[y].update(x, Mark::Empty) =~= g[y]);
        }
    }
}

/// The mark the player to move puts down: the bot's when maximizing, its
/// opponent's otherwise.
pub open spec fn mark_to_move(bot: Mark, maximizing: bool) -> Mark {
    if maximizing {
        bot
    } else {
        opponent_of(bot).unwrap()
    }
}

/// The value of the search at the position reached by the move at
/// `(lx, ly)`, `depth` moves below the root: a win completed by that move
/// scores `1000 - depth` for the bot and `depth - 1000` against it; at the
/// depth limit the running score `score` counts, which each move changes by
/// its `move_delta`; otherwise the best
/// value of a move on an empty cell for the player to move (the highest
/// when maximizing, the lowest otherwise), or 0 when no cell is empty.
pub open spec fn search_value(
    g: Seq<Seq<Mark>>,
    w: int,
    bot: Mark,
    depth: int,
    max_depth: int,
    maximizing: bool,
    lx: int,
    ly: int,
    score: int,
) -> int
    decreases max_depth - depth, g.len() + 1, 0int,
{
    match winner_at(g, w, lx, ly) {
        Some(m) => if m == bot {
            1000 - depth
        } else {
            depth - 1000
        },
        None => if depth >= max_depth {
            score
        } else {
            match search_fold(g, w, bot, depth, max_depth, maximizing, g.len() as int, 0, score) {
                Some(b) => b,
                None => 0,
            }
        },
    }
}

/// The best child value over the cells before `(x, y)` in row-major order
/// (the rows above `y`, then the first `x` cells of row `y`); `None` when
/// none of them is empty.
pub open spec fn search_fold(
    g: Seq<Seq<Mark>>,
    w: int,
    bot: Mark,
    depth: int,
    max_depth: int,
    maximizing: bool,
    y: int,
    x: int,
    score: int,
) -> Option<int>
    decreases max_depth - depth, y, x,
{
    if depth >= max_depth {
        None
    } else if x <= 0 {
        if y <= 0 {
            None
        } else {
            search_fold(g, w, bot, depth, max_depth, maximizing, y - 1, gw(g), score)
        }
    } else {
        let prev = search_fold(g, w, bot, depth, max_depth, maximizing, y, x - 1, score);
        let cx = x - 1;
        if at(g, cx, y) != Mark::Empty {
            prev
        } else {
            let v = search_value(
                grid_with(g, cx, y, mark_to_move(bot, maximizing)),
                w,
                bot,
                depth + 1,
                max_depth,
                !maximizing,
                cx,
                y,
                score + move_delta(g, cx, y, bot, w, maximizing),
            );
            match prev {
                None => Some(v),
                Some(b) => Some(
                    if maximizing {
                        if v > b {
                            v
                        } else {
                            b
                        }
                    } else {
                        if v < b {
                            v
                        } else {
                            b
                        }
                    },
                ),
            }
        }
    }
}

/// Later folds are at least as good for the player to move.
proof fn lemma_fold_monotone(
    g: Seq<Seq<Mark>>,
    w: int,
    bot: Mark,
    depth: int,
    max_depth: int,
    maximizing: bool,
    y1: int,
    x1: int,
    y2: int,
    x2: int,
    score: int,
)
    requires
        0 <= y1,
        0 <= x1 <= gw(g),
        0 <= x2 <= gw(g),
        y1 < y2 || (y1 == y2 && x1 <= x2),
        search_fold(g, w, bot, depth, max_depth, maximizing, y1, x1, score) is Some,
    ensures
        search_fold(g, w, bot, depth, max_depth, maximizing, y2, x2, score) is Some,
        maximizing ==> search_fold(g, w, bot, depth, max_depth, maximizing, y2, x2, score)->0 >= search_fold(
            g,
            w,
            bot,
            depth,
            max_depth,
            maximizing,
            y1,
            x1,
            score,
        )->0,
        !maximizing ==> search_fold(g, w, bot, depth, max_depth, maximizing, y2, x2, score)->0 <= search_fold(
            g,
            w,
            bot,
            depth,
            max_depth,
            maximizing,
            y1,
            x1,
            score,
        )->0,
    decreases y2, x2,
{
    if y1 == y2 && x1 == x2 {
    } else if x2 > 0 {
        lemma_fold_monotone(g, w, bot, depth, max_depth, maximizing, y1, x1, y2, x2 - 1, score);
    } else {
        lemma_fold_monotone(g, w, bot, depth, max_depth, maximizing, y1, x1, y2 - 1, gw(g), score);
    }
}

/// Alpha-beta search from the position reached by the move at
/// `(last_x, last_y)`, with running score `current_score`. Inside a
/// window `alpha < beta` the result is the search value; a value at
/// or below `alpha` yields a result at or below `alpha`, and one at or
/// above `beta` a result at or above `beta`. The board is handed back
/// unchanged.
fn minimax(
    board: &mut Vec<Vec<Mark>>,
    win_count: usize,
    depth: usize,
    max_depth: usize,
    is_maximizing: bool,
    bot_mark: Mark,
    alpha: i32,
    beta: i32,
    last_x: usize,
    last_y: usize,
    current_score: i32,
) -> (r: i32)
    requires
        bot_board_ok(rows_of(old(board)@), win_count as int),
        inside(rows_of(old(board)@), last_x as int, last_y as int),
        bot_mark != Mark::Empty,
        depth <= 6,
        max_depth <= 6,
        -500_000_000 - 10_000_000 * depth <= current_score <= 500_000_000 + 10_000_000 * depth,
    ensures
        final(board)@.len() == old(board)@.len(),
        rows_of(final(board)@) == rows_of(old(board)@),
        alpha < beta ==> ({
            let v = search_value(
                rows_of(old(board)@),
                win_count as int,
                bot_mark,
                depth as int,
                max_depth as int,
                is_maximizing,
                last_x as int,
                last_y as int,
                current_score as int,
            );
            &&& alpha < v < beta ==> r == v
            &&& v <= alpha ==> r <= alpha
            &&& v >= beta ==> r >= beta
        }),
        winner_at(rows_of(old(board)@), win_count as int, last_x as int, last_y as int) matches Some(m)
            ==> r == (if m == bot_mark {
            1000 - depth
        } else {
            -1000 + depth
        }),
        winner_at(rows_of(old(board)@), win_count as int, last_x as int, last_y as int) is None
            && depth >= max_depth ==> r == current_score,
        winner_at(rows_of(old(board)@), win_count as int, last_x as int, last_y as int) is None
            && depth < max_depth && no_empty(rows_of(old(board)@)) ==> r == 0,
        -600_000_000 <= r <= 600_000_000,
    decreases max_depth - depth,
{
    let ghost g = rows_of(board@);
    let ghost w = win_count as int;
    let ghost md = max_depth as int;
    let ghost sv = search_value(g, w, bot_mark, depth as int, md, is_maximizing, last_x as int, last_y as int, current_score as int);
    if let Some(winner) = check_win_at(board, win_count, last_x, last_y) {
        return if winner == bot_mark {
            1000 - depth as i32
        } else {
            -1000 + depth as i32
        };
    }

    if depth >= max_depth {
        return current_score;
    }

    let ghost exact = alpha < beta;
    let mut lo = alpha;
    let mut hi = beta;
    let height = board.len();
    let width = board[0].len();
    let move_mark = if is_maximizing {
        bot_mark
    } else {
        bot_mark.opponent().unwrap()
    };
    assert(move_mark == mark_to_move(bot_mark, is_maximizing));
    let mut best: i32 = if is_maximizing {
        i32::MIN
    } else {
        i32::MAX
    };

    let mut y: usize = 0;
    while y < height
        invariant
            g == rows_of(board@),
            g == rows_of(old(board)@),
            winner_at(g, w, last_x as int, last_y as int) is None,
            old(board)@.len() == height,
            board@.len() == height,
            bot_board_ok(g, win_count as int),
            height == g.len(),
            width == gw(g),
            bot_mark != Mark::Empty,
            move_mark != Mark::Empty,
            move_mark == mark_to_move(bot_mark, is_maximizing),
            w == win_count,
            md == max_depth,
            depth < max_depth <= 6,
            -500_000_000 - 10_000_000 * depth <= current_score <= 500_000_000 + 10_000_000 * depth,
            exact == (alpha < beta),
            sv == search_value(g, w, bot_mark, depth as int, md, is_maximizing, last_x as int, last_y as int, current_score as int),
            0 <= y <= height,
            best == (if is_maximizing { i32::MIN } else { i32::MAX }) <==> forall|xx: int, yy: int|
                0 <= yy < y && 0 <= xx < width ==> #[trigger] at(g, xx, yy) != Mark::Empty,
            best == (if is_maximizing { i32::MIN } else { i32::MAX }) || -600_000_000 <= best
                <= 600_000_000,
            ({
                let fo = search_fold(g, w, bot_mark, depth as int, md, is_maximizing, y as int, 0, current_score as int);
                &&& fo is None <==> best == (if is_maximizing { i32::MIN } else { i32::MAX })
                &&& is_maximizing ==> hi == beta
                &&& !is_maximizing ==> lo == alpha
                &&& exact ==> lo < hi
                &&& is_maximizing && fo is None ==> lo == alpha
                &&& !is_maximizing && fo is None ==> hi == beta
                &&& is_maximizing && fo is Some ==> lo == (if alpha >= best { alpha } else { best })
                &&& !is_maximizing && fo is Some ==> hi == (if beta <= best { beta } else { best })
                &&& exact && is_maximizing && fo is Some ==> {
                    &&& lo == (if alpha >= fo->0 { alpha as int } else { fo->0 })
                    &&& fo->0 < beta
                }
                &&& exact && !is_maximizing && fo is Some ==> {
                    &&& hi == (if beta <= fo->0 { beta as int } else { fo->0 })
                    &&& fo->0 > alpha
                }
            }),
        decreases height - y,
    {
        let mut x: usize = 0;
        while x < width
            invariant
                g == rows_of(board@),
                g == rows_of(old(board)@),
                winner_at(g, w, last_x as int, last_y as int) is None,
                old(board)@.len() == height,
                board@.len() == height,
                bot_board_ok(g, win_count as int),
                height == g.len(),
                width == gw(g),
                bot_mark != Mark::Empty,
                move_mark != Mark::Empty,
                move_mark == mark_to_move(bot_mark, is_maximizing),
                w == win_count,
                md == max_depth,
                depth < max_depth <= 6,
                -500_000_000 - 10_000_000 * depth <= current_score <= 500_000_000 + 10_000_000 * depth,
                exact == (alpha < beta),
                sv == search_value(g, w, bot_mark, depth as int, md, is_maximizing, last_x as int, last_y as int, current_score as int),
                0 <= y < height,
                0 <= x <= width,
                best == (if is_maximizing { i32::MIN } else { i32::MAX }) <==> forall|xx: int, yy: int|
                    (0 <= yy < y && 0 <= xx < width) || (yy == y && 0 <= xx < x) ==> #[trigger] at(g, xx, yy)
                        != Mark::Empty,
                best == (if is_maximizing { i32::MIN } else { i32::MAX }) || -600_000_000 <= best
                    <= 600_000_000,
                ({
                    let fo = search_fold(g, w, bot_mark, depth as int, md, is_maximizing, y as int, x as int, current_score as int);
                    &&& fo is None <==> best == (if is_maximizing { i32::MIN } else { i32::MAX })
                    &&& is_maximizing ==> hi == beta
                    &&& !is_maximizing ==> lo == alpha
                    &&& exact ==> lo < hi
                    &&& is_maximizing && fo is None ==> lo == alpha
                    &&& !is_maximizing && fo is None ==> hi == beta
                    &&& is_maximizing && fo is Some ==> lo == (if alpha >= best { alpha } else { best })
                    &&& !is_maximizing && fo is Some ==> hi == (if beta <= best { beta } else { best })
                    &&& exact && is_maximizing && fo is Some ==> {
                        &&& lo == (if alpha >= fo->0 { alpha as int } else { fo->0 })
                        &&& fo->0 < beta
                    }
                    &&& exact && !is_maximizing && fo is Some ==> {
                        &&& hi == (if beta <= fo->0 { beta as int } else { fo->0 })
                        &&& fo->0 > alpha
                    }
                }),
            decreases width - x,
        {
            assert(board@[y as int]@.len() == width) by {
                assert(g[y as int].len() == gw(g));
            }
            let ghost fo_prev = search_fold(g, w, bot_mark, depth as int, md, is_maximizing, y as int, x as int, current_score as int);
            if board[y][x] != Mark::Empty {
                assert(search_fold(g, w, bot_mark, depth as int, md, is_maximizing, y as int, x + 1, current_score as int) == fo_prev);
                x = x + 1;
                continue;
            }
            let ghost child = grid_with(g, x as int, y as int, move_mark);
            let ghost vj = search_value(
                child,
                w,
                bot_mark,
                depth + 1,
                md,
                !is_maximizing,
                x as int,
                y as int,
                current_score + move_delta(g, x as int, y as int, bot_mark, w, is_maximizing),
            );
            assert(search_fold(g, w, bot_mark, depth as int, md, is_maximizing, y as int, x + 1, current_score as int) == match fo_prev {
                None => Some(vj),
                Some(b) => Some(
                    if is_maximizing {
                        if vj > b {
                            vj
                        } else {
                            b
                        }
                    } else {
                        if vj < b {
                            vj
                        } else {
                            b
                        }
                    },
                ),
            });
            let delta = eval_delta_before_move(board, bot_mark, win_count, x, y, move_mark);
            assert(is_maximizing == (move_mark == bot_mark)) by {
                crate::tictactoe::types::lemma_opponent_involution(bot_mark);
            }
            set_cell(board, x, y, move_mark);
            proof {
                lemma_grid_with_shape(g, x as int, y as int, move_mark, win_count as int);
            }
            let eval = minimax(
                board,
                win_count,
                depth + 1,
                max_depth,
                !is_maximizing,
                bot_mark,
                lo,
                hi,
                x,
                y,
                current_score + delta,
            );
            assert(board@[y as int]@.len() == width) by {
                assert(rows_of(board@)[y as int].len() == width);
            }
            set_cell(board, x, y, Mark::Empty);
            if is_maximizing {
                if eval > best {
                    best = eval;
                }
                if eval > lo {
                    lo = eval;
                }
            } else {
                if eval < best {
                    best = eval;
                }
                if eval < hi {
                    hi = eval;
                }
            }
            if hi <= lo {
                proof {
                    lemma_fold_monotone(
                        g,
                        w,
                        bot_mark,
                        depth as int,
                        md,
                        is_maximizing,
                        y as int,
                        x + 1,
                        height as int,
                        0,
                        current_score as int,
                    );
                    let full = search_fold(g, w, bot_mark, depth as int, md, is_maximizing, height as int, 0, current_score as int);
                    assert(sv == full->0);
                    if exact {
                        if is_maximizing {
                            assert(vj >= beta);
                        } else {
                            assert(vj <= alpha);
                        }
                    }
                }
                return best;
            }
            x = x + 1;
        }
        assert(search_fold(g, w, bot_mark, depth as int, md, is_maximizing, y + 1, 0, current_score as int) == search_fold(
            g,
            w,
            bot_mark,
            depth as int,
            md,
            is_maximizing,
            y as int,
            width as int,
            current_score as int,
        ));
        y = y + 1;
    }
    if is_maximizing {
        if best == i32::MIN {
            0
        } else {
            best
        }
    } else {
        if best == i32::MAX {
            0
        } else {
            best
        }
    }
}

/// A copy of the board.
fn copy_board(board: &Vec<Vec<Mark>>) -> (r: Vec<Vec<Mark>>)
    ensures
        r@.len() == board@.len(),
        rows_of(r@) == rows_of(board@),
{
    let mut r: Vec<Vec<Mark>> = Vec::new();
    let mut y: usize = 0;
    while y < board.len()
        invariant
            0 <= y <= board@.len(),
            r@.len() == y,
            forall|yy: int| 0 <= yy < y ==> (#[trigger] r@[yy])@ == board@[yy]@,
        decreases board@.len() - y,
    {
        let row = board[y].clone();
        assert(row@ =~= board@[y as int]@);
        r.push(row);
        y = y + 1;
    }
    assert(rows_of(r@) =~= rows_of(board@));
    r
}

/// What the bot needs to know to choose a move.
pub struct BotInput {
    pub board: Vec<Vec<Mark>>,
    pub win_count: usize,
    pub current_mark: Mark,
}

impl BotInput {
    pub fn from_game_state(state: &TicTacToeGameState) -> (r: Self)
        ensures
            rows_of(r.board@) == rows_of(state.board@),
            r.board@.len() == state.board@.len(),
            r.win_count == state.win_count,
            r.current_mark == state.current_mark,
    {
        Self { board: copy_board(&state.board), win_count: state.win_count, current_mark: state.current_mark }
    }
}

/// Some cell of the board is empty.
pub open spec fn has_available(b: Seq<Vec<Mark>>) -> bool {
    exists|x: int, y: int| is_available(b, x, y)
}

/// How deep the bot searches on board `b`.
pub open spec fn search_depth(b: Seq<Vec<Mark>>) -> int {
    depth_for(grid_empties(rows_of(b), b.len() as int))
}

/// The search value of the bot's move at `(x, y)`: the value of the
/// position it leads to, with the opponent to move.
pub open spec fn move_value(b: Seq<Vec<Mark>>, w: int, bot: Mark, x: int, y: int) -> int {
    search_value(
        grid_with(rows_of(b), x, y, bot),
        w,
        bot,
        0,
        search_depth(b),
        false,
        x,
        y,
        evaluation(grid_with(rows_of(b), x, y, bot), bot, w),
    )
}

/// `(x, y)` is the first empty cell, in row-major order, whose move the
/// search values highest.
pub open spec fn minimax_choice(b: Seq<Vec<Mark>>, w: int, bot: Mark, x: int, y: int) -> bool {
    &&& is_available(b, x, y)
    &&& forall|qx: int, qy: int|
        is_available(b, qx, qy) ==> #[trigger] move_value(b, w, bot, qx, qy) <= move_value(b, w, bot, x, y)
    &&& forall|qx: int, qy: int|
        is_available(b, qx, qy) && before(qx, qy, x, y) ==> #[trigger] move_value(b, w, bot, qx, qy)
            < move_value(b, w, bot, x, y)
}

/// The move the search rates best for the player to move, trying the
/// empty cells in row-major order and keeping the first best one; `None`
/// when no cell is empty.
pub fn calculate_minimax_move(input: &BotInput) -> (r: Option<Position>)
    requires
        bot_board_ok(rows_of(input.board@), input.win_count as int),
        input.current_mark != Mark::Empty,
    ensures
        r is None <==> !has_available(input.board@),
        r matches Some(p) ==> minimax_choice(
            input.board@,
            input.win_count as int,
            input.current_mark,
            p.x as int,
            p.y as int,
        ),
{
    let bot_mark = input.current_mark;
    let available_moves = get_available_moves(&input.board);

    if available_moves.len() == 0 {
        assert forall|x: int, y: int| !is_available(input.board@, x, y) by {
            if is_available(input.board@, x, y) {
                assert(available_moves@.contains((x as usize, y as usize)));
            }
        }
        return None;
    }

    let depth_limit = calculate_depth_limit(&input.board);
    let mut board = copy_board(&input.board);
    let ghost g = rows_of(input.board@);
    let ghost b = input.board@;
    let ghost w = input.win_count as int;
    let initial_score = evaluate_board(&board, bot_mark, input.win_count);

    let mut best_move: Option<Position> = None;
    let mut best_score: i32 = i32::MIN;
    let ghost mut best_index: int = 0;

    let mut i: usize = 0;
    while i < available_moves.len()
        invariant
            g == rows_of(input.board@),
            g == rows_of(board@),
            b == input.board@,
            w == input.win_count,
            board@.len() == input.board@.len(),
            bot_board_ok(g, input.win_count as int),
            bot_mark == input.current_mark,
            bot_mark != Mark::Empty,
            depth_limit == search_depth(b),
            depth_limit <= 6,
            -400_000_000 <= initial_score <= 400_000_000,
            initial_score == evaluation(g, bot_mark, input.win_count as int),
            forall|k: int|
                0 <= k < available_moves@.len() ==> is_available(
                    input.board@,
                    (#[trigger] available_moves@[k]).0 as int,
                    available_moves@[k].1 as int,
                ),
            0 <= i <= available_moves@.len(),
            available_moves@.len() > 0,
            i == 0 ==> best_move is None && best_score == i32::MIN,
            i > 0 ==> {
                &&& 0 <= best_index < i
                &&& best_move == Some(
                    Position { x: available_moves@[best_index].0, y: available_moves@[best_index].1 },
                )
                &&& best_score == move_value(
                    b,
                    w,
                    bot_mark,
                    available_moves@[best_index].0 as int,
                    available_moves@[best_index].1 as int,
                )
                &&& forall|k: int|
                    0 <= k < i ==> #[trigger] move_value(
                        b,
                        w,
                        bot_mark,
                        available_moves@[k].0 as int,
                        available_moves@[k].1 as int,
                    ) <= best_score
                &&& forall|k: int|
                    0 <= k < best_index ==> #[trigger] move_value(
                        b,
                        w,
                        bot_mark,
                        available_moves@[k].0 as int,
                        available_moves@[k].1 as int,
                    ) < best_score
            },
        decreases available_moves@.len() - i,
    {
        let (x, y) = available_moves[i];
        assert(is_available(input.board@, x as int, y as int));
        assert(inside(g, x as int, y as int)) by {
            assert(g[y as int].len() == gw(g));
        }
        let delta = eval_delta_before_move(&board, bot_mark, input.win_count, x, y, bot_mark);
        proof {
            crate::tictactoe::incremental::lemma_move_delta_is_evaluation_change(
                g,
                x as int,
                y as int,
                bot_mark,
                input.win_count as int,
                true,
            );
        }
        set_cell(&mut board, x, y, bot_mark);
        proof {
            lemma_grid_with_shape(g, x as int, y as int, bot_mark, input.win_count as int);
        }
        let score = minimax(
            &mut board,
            input.win_count,
            0,
            depth_limit,
            false,
            bot_mark,
            i32::MIN,
            i32::MAX,
            x,
            y,
            initial_score + delta,
        );
        assert(score == move_value(b, w, bot_mark, x as int, y as int));
        assert(board@[y as int]@.len() == gw(g)) by {
            assert(rows_of(board@)[y as int].len() == gw(g));
        }
        set_cell(&mut board, x, y, Mark::Empty);

        if score > best_score {
            best_score = score;
            best_move = Some(Position::new(x, y));
            proof {
                best_index = i as int;
            }
        }
        i = i + 1;
    }
    assert(has_available(input.board@)) by {
        let p = available_moves@[0];
        assert(is_available(input.board@, p.0 as int, p.1 as int));
    }
    proof {
        let p = best_move.unwrap();
        assert forall|x: int, y: int| is_available(b, x, y) implies #[trigger] move_value(
            b,
            w,
            bot_mark,
            x,
            y,
        ) <= move_value(b, w, bot_mark, p.x as int, p.y as int) && (before(x, y, p.x as int, p.y as int)
            ==> move_value(b, w, bot_mark, x, y) < move_value(b, w, bot_mark, p.x as int, p.y as int)) by {
            assert(available_moves@.contains((x as usize, y as usize)));
            let k = choose|k: int| 0 <= k < available_moves@.len() && available_moves@[k] == (x as usize, y as usize);
            assert(move_value(b, w, bot_mark, available_moves@[k].0 as int, available_moves@[k].1 as int) <= best_score);
            if before(x, y, p.x as int, p.y as int) {
                if k >= best_index {
                    if k > best_index {
                        assert(before(
                            available_moves@[best_index].0 as int,
                            available_moves@[best_index].1 as int,
                            available_moves@[k].0 as int,
                            available_moves@[k].1 as int,
                        ));
                    }
                    assert(false);
                }
                assert(move_value(b, w, bot_mark, available_moves@[k].0 as int, available_moves@[k].1 as int) < best_score);
            }
        }
    }
    best_move
}

/// A uniformly chosen empty cell, or `None` when the board is full.
fn calculate_random_move(input: &BotInput) -> (r: Option<Position>)
    ensures
        r is None <==> !has_available(input.board@),
        r matches Some(p) ==> is_available(input.board@, p.x as int, p.y as int),
{
    let available_moves = get_available_moves(&input.board);
    proof {
        if has_available(input.board@) {
            let (x, y) = choose|x: int, y: int| is_available(input.board@, x, y);
            assert(available_moves@.contains((x as usize, y as usize)));
        }
    }
    match thread_rng_choose_cell(available_moves.as_slice()) {
        Some((x, y)) => {
            proof {
                let k = choose|k: int| 0 <= k < available_moves@.len() && available_moves@[k] == (x, y);
                assert(is_available(input.board@, available_moves@[k].0 as int, available_moves@[k].1 as int));
            }
            Some(Position::new(x, y))
        },
        None => {
            proof {
                if has_available(input.board@) {
                    let (x, y) = choose|x: int, y: int| is_available(input.board@, x, y);
                    assert(available_moves@.contains((x as usize, y as usize)));
                }
            }
            None
        },
    }
}

/// The move of a bot of the given kind: a random empty cell, or the
/// search's best; an unspecified kind makes no move.
pub fn calculate_move(bot_type: TicTacToeBotType, input: BotInput) -> (r: Option<Position>)
    requires
        bot_type == TicTacToeBotType::TictactoeBotTypeMinimax ==> bot_board_ok(
            rows_of(input.board@),
            input.win_count as int,
        ) && input.current_mark != Mark::Empty,
    ensures
        bot_type == TicTacToeBotType::TictactoeBotTypeUnspecified ==> r is None,
        bot_type != TicTacToeBotType::TictactoeBotTypeUnspecified ==> (r is None <==> !has_available(
            input.board@,
        )),
        r matches Some(p) ==> is_available(input.board@, p.x as int, p.y as int),
        bot_type == TicTacToeBotType::TictactoeBotTypeMinimax ==> (r matches Some(p) ==> minimax_choice(
            input.board@,
            input.win_count as int,
            input.current_mark,
            p.x as int,
            p.y as int,
        )),
{
    match bot_type {
        TicTacToeBotType::TictactoeBotTypeRandom => calculate_random_move(&input),
        TicTacToeBotType::TictactoeBotTypeMinimax => calculate_minimax_move(&input),
        _ => None,
    }
}

/// A run of `mark` over the cells `i .. k` steps away from `(x, y)` counts
/// at least `k - i` cells.
proof fn lemma_run_len_at_least(
    g: Seq<Seq<Mark>>,
    x: int,
    y: int,
    dx: int,
    dy: int,
    m: Mark,
    i: int,
    k: int,
    lim: int,
)
    requires
        i <= k <= lim,
        forall|j: int|
            i <= j < k ==> inside(g, step(x, dx, j), step(y, dy, j)) && #[trigger] at(g, step(x, dx, j), step(y, dy, j))
                == m,
    ensures
        run_len(g, x, y, dx, dy, m, i, lim) >= k - i,
    decreases lim - i,
{
    if i < k {
        assert(at(g, step(x, dx, i), step(y, dy, i)) == m);
        lemma_run_len_at_least(g, x, y, dx, dy, m, i + 1, k, lim);
    } else if i < lim {
        lemma_run_len_at_least(g, x, y, dx, dy, m, i + 1, i + 1, lim);
    }
}

/// Every line of `w` equal marks is seen: when the `w` cells from
/// `(x0, y0)` along any of the four directions (across, down, down-right,
/// up-right) all hold `m`, each of those cells is a winning cell of `m`.
pub proof fn lemma_line_of_marks_wins(
    g: Seq<Seq<Mark>>,
    w: int,
    x0: int,
    y0: int,
    dx: int,
    dy: int,
    t: int,
    m: Mark,
)
    requires
        is_dir(dx, dy),
        m != Mark::Empty,
        0 <= t < w,
        forall|k: int|
            0 <= k < w ==> inside(g, step(x0, dx, k), step(y0, dy, k)) && #[trigger] at(g, step(x0, dx, k), step(y0, dy, k))
                == m,
    ensures
        winner_at(g, w, step(x0, dx, t), step(y0, dy, t)) == Some(m),
{
    let x = step(x0, dx, t);
    let y = step(y0, dy, t);
    assert(at(g, x, y) == m);
    assert forall|j: int| 1 <= j < w - t implies inside(g, step(x, dx, j), step(y, dy, j)) && #[trigger] at(
        g,
        step(x, dx, j),
        step(y, dy, j),
    ) == m by {
        assert(step(x, dx, j) == step(x0, dx, t + j) && step(y, dy, j) == step(y0, dy, t + j));
        assert(at(g, step(x0, dx, t + j), step(y0, dy, t + j)) == m);
    }
    lemma_run_len_at_least(g, x, y, dx, dy, m, 1, w - t, w);
    assert forall|j: int| 1 <= j < t + 1 implies inside(g, step(x, -dx, j), step(y, -dy, j)) && #[trigger] at(
        g,
        step(x, -dx, j),
        step(y, -dy, j),
    ) == m by {
        assert(step(x, -dx, j) == step(x0, dx, t - j) && step(y, -dy, j) == step(y0, dy, t - j));
        assert(at(g, step(x0, dx, t - j), step(y0, dy, t - j)) == m);
    }
    lemma_run_len_at_least(g, x, y, -dx, -dy, m, 1, t + 1, w);
    assert(line_through(g, x, y, dx, dy, w));
}

/// A move that completes a line of `w` of the bot's marks, in any of the
/// four directions, wins at once: the search values it 1000.
pub proof fn lemma_winning_move_valued(
    b: Seq<Vec<Mark>>,
    w: int,
    bot: Mark,
    x0: int,
    y0: int,
    dx: int,
    dy: int,
    t: int,
)
    requires
        is_dir(dx, dy),
        bot != Mark::Empty,
        0 <= t < w,
        forall|k: int|
            0 <= k < w ==> inside(
                grid_with(rows_of(b), step(x0, dx, t), step(y0, dy, t), bot),
                step(x0, dx, k),
                step(y0, dy, k),
            ) && #[trigger] at(
                grid_with(rows_of(b), step(x0, dx, t), step(y0, dy, t), bot),
                step(x0, dx, k),
                step(y0, dy, k),
            ) == bot,
    ensures
        move_value(b, w, bot, step(x0, dx, t), step(y0, dy, t)) == 1000,
{
    let g = grid_with(rows_of(b), step(x0, dx, t), step(y0, dy, t), bot);
    lemma_line_of_marks_wins(g, w, x0, y0, dx, dy, t, bot);
}

} // verus!
