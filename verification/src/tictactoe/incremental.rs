//! Why the bot may score a position incrementally: the change a move makes
//! to the static evaluation is the sum of the changes of the windows
//! through the moved-on cell.

use vstd::prelude::*;
use super::types::{Mark, opponent_of};
use super::bot_controller::{
    at, count_eq, count_foreign, dir_delta, dir_dx, dir_dy, dirs_delta, evaluation, gw, inside, is_dir,
    move_delta, rect, row_threat, rows_threat, step, threat, cell_threat, window_delta, window_value,
};

verus! {

/// The board after mark `m` is put at `(x, y)`.
pub open spec fn put(g: Seq<Seq<Mark>>, x: int, y: int, m: Mark) -> Seq<Seq<Mark>> {
    g.update(y, g[y].update(x, m))
}

/// The mark a move puts down: the bot's own, or its opponent's.
pub open spec fn mover(bot: Mark, bot_moves: bool) -> Mark {
    if bot_moves {
        bot
    } else {
        opponent_of(bot).unwrap()
    }
}

// ----- sums over the cells of a grid -------------------------------------

/// `f(0, y) + ... + f(n - 1, y)`.
pub open spec fn row_sum(f: spec_fn(int, int) -> int, y: int, n: int) -> int
    decreases n,
{
    if n <= 0 {
        0
    } else {
        row_sum(f, y, n - 1) + f(n - 1, y)
    }
}

/// The sum of `f` over the first `h` rows of `w` cells.
pub open spec fn grid_sum(f: spec_fn(int, int) -> int, h: int, w: int) -> int
    decreases h,
{
    if h <= 0 {
        0
    } else {
        grid_sum(f, h - 1, w) + row_sum(f, h - 1, w)
    }
}

pub open spec fn minus(f: spec_fn(int, int) -> int, k: spec_fn(int, int) -> int) -> spec_fn(int, int) -> int {
    |a: int, b: int| f(a, b) - k(a, b)
}

pub open spec fn plus(f: spec_fn(int, int) -> int, k: spec_fn(int, int) -> int) -> spec_fn(int, int) -> int {
    |a: int, b: int| f(a, b) + k(a, b)
}

/// `c` at `(px, py)`, zero elsewhere.
pub open spec fn point(c: int, px: int, py: int) -> spec_fn(int, int) -> int {
    |a: int, b: int|
        if a == px && b == py {
            c
        } else {
            0
        }
}

proof fn lemma_row_ext(f: spec_fn(int, int) -> int, k: spec_fn(int, int) -> int, y: int, n: int)
    requires
        forall|a: int| 0 <= a < n ==> #[trigger] f(a, y) == k(a, y),
    ensures
        row_sum(f, y, n) == row_sum(k, y, n),
    decreases n,
{
    if n > 0 {
        lemma_row_ext(f, k, y, n - 1);
    }
}

pub(crate) proof fn lemma_grid_ext(f: spec_fn(int, int) -> int, k: spec_fn(int, int) -> int, h: int, w: int)
    requires
        forall|a: int, b: int| 0 <= a < w && 0 <= b < h ==> #[trigger] f(a, b) == k(a, b),
    ensures
        grid_sum(f, h, w) == grid_sum(k, h, w),
    decreases h,
{
    if h > 0 {
        lemma_grid_ext(f, k, h - 1, w);
        lemma_row_ext(f, k, h - 1, w);
    }
}

proof fn lemma_row_minus(f: spec_fn(int, int) -> int, k: spec_fn(int, int) -> int, y: int, n: int)
    ensures
        row_sum(minus(f, k), y, n) == row_sum(f, y, n) - row_sum(k, y, n),
    decreases n,
{
    if n > 0 {
        lemma_row_minus(f, k, y, n - 1);
    }
}

proof fn lemma_grid_minus(f: spec_fn(int, int) -> int, k: spec_fn(int, int) -> int, h: int, w: int)
    ensures
        grid_sum(minus(f, k), h, w) == grid_sum(f, h, w) - grid_sum(k, h, w),
    decreases h,
{
    if h > 0 {
        lemma_grid_minus(f, k, h - 1, w);
        lemma_row_minus(f, k, h - 1, w);
    }
}

proof fn lemma_row_plus(f: spec_fn(int, int) -> int, k: spec_fn(int, int) -> int, y: int, n: int)
    ensures
        row_sum(plus(f, k), y, n) == row_sum(f, y, n) + row_sum(k, y, n),
    decreases n,
{
    if n > 0 {
        lemma_row_plus(f, k, y, n - 1);
    }
}

pub(crate) proof fn lemma_grid_plus(f: spec_fn(int, int) -> int, k: spec_fn(int, int) -> int, h: int, w: int)
    ensures
        grid_sum(plus(f, k), h, w) == grid_sum(f, h, w) + grid_sum(k, h, w),
    decreases h,
{
    if h > 0 {
        lemma_grid_plus(f, k, h - 1, w);
        lemma_row_plus(f, k, h - 1, w);
    }
}

proof fn lemma_row_point(c: int, px: int, py: int, y: int, n: int)
    ensures
        row_sum(point(c, px, py), y, n) == if y == py && 0 <= px < n {
            c
        } else {
            0
        },
    decreases n,
{
    if n > 0 {
        lemma_row_point(c, px, py, y, n - 1);
    }
}

/// A function that is zero but at one cell sums to its value there, when
/// that cell lies in the grid.
pub(crate) proof fn lemma_grid_point(c: int, px: int, py: int, h: int, w: int)
    ensures
        grid_sum(point(c, px, py), h, w) == if 0 <= py < h && 0 <= px < w {
            c
        } else {
            0
        },
    decreases h,
{
    if h > 0 {
        lemma_grid_point(c, px, py, h - 1, w);
        lemma_row_point(c, px, py, h - 1, w);
    }
}

/// A function that is zero on the grid sums to zero.
pub(crate) proof fn lemma_grid_zero(f: spec_fn(int, int) -> int, h: int, w: int)
    requires
        forall|a: int, b: int| 0 <= a < w && 0 <= b < h ==> #[trigger] f(a, b) == 0,
    ensures
        grid_sum(f, h, w) == 0,
{
    lemma_grid_point(0, 0, 0, h, w);
    lemma_grid_ext(f, point(0, 0, 0), h, w);
}

// ----- the evaluation as a grid sum ---------------------------------------

/// The threats of mark `m` in the four windows starting at each cell.
pub open spec fn cell_threats(g: Seq<Seq<Mark>>, m: Mark, w: int) -> spec_fn(int, int) -> int {
    |a: int, b: int| cell_threat(g, a, b, m, w)
}

proof fn lemma_row_threat_sum(g: Seq<Seq<Mark>>, y: int, m: Mark, w: int, n: int)
    ensures
        row_threat(g, y, m, w, n) == row_sum(cell_threats(g, m, w), y, n),
    decreases n,
{
    if n > 0 {
        lemma_row_threat_sum(g, y, m, w, n - 1);
    }
}

proof fn lemma_total_threat_sum(g: Seq<Seq<Mark>>, m: Mark, w: int, n: int)
    ensures
        rows_threat(g, m, w, n) == grid_sum(cell_threats(g, m, w), n, gw(g)),
    decreases n,
{
    if n > 0 {
        lemma_total_threat_sum(g, m, w, n - 1);
        lemma_row_threat_sum(g, n - 1, m, w, gw(g));
    }
}

// ----- one window ---------------------------------------------------------

/// Counting the bot's opponent is counting the marks foreign to the bot,
/// and the other way round.
proof fn lemma_opponent_counts(g: Seq<Seq<Mark>>, a: int, b: int, dx: int, dy: int, bot: Mark, n: int)
    requires
        bot != Mark::Empty,
    ensures
        count_eq(g, a, b, dx, dy, opponent_of(bot).unwrap(), n) == count_foreign(g, a, b, dx, dy, bot, n),
        count_foreign(g, a, b, dx, dy, opponent_of(bot).unwrap(), n) == count_eq(g, a, b, dx, dy, bot, n),
    decreases n,
{
    if n > 0 {
        lemma_opponent_counts(g, a, b, dx, dy, bot, n - 1);
    }
}

/// The bot's threat minus its opponent's in a window that fits is the
/// window's value.
proof fn lemma_window_value(g: Seq<Seq<Mark>>, a: int, b: int, dx: int, dy: int, bot: Mark, w: int)
    requires
        bot != Mark::Empty,
        inside(g, step(a, dx, w - 1), step(b, dy, w - 1)),
    ensures
        threat(g, a, b, dx, dy, bot, w) - threat(g, a, b, dx, dy, opponent_of(bot).unwrap(), w) == window_value(
            count_eq(g, a, b, dx, dy, bot, w),
            count_foreign(g, a, b, dx, dy, bot, w),
        ),
{
    lemma_opponent_counts(g, a, b, dx, dy, bot, w);
    lemma_counts_nonneg(g, a, b, dx, dy, bot, w);
}

proof fn lemma_counts_nonneg(g: Seq<Seq<Mark>>, a: int, b: int, dx: int, dy: int, m: Mark, n: int)
    ensures
        count_eq(g, a, b, dx, dy, m, n) >= 0,
        count_foreign(g, a, b, dx, dy, m, n) >= 0,
    decreases n,
{
    if n > 0 {
        lemma_counts_nonneg(g, a, b, dx, dy, m, n - 1);
    }
}

/// The counts of a window after the move: the cell `hit` of the window (if
/// any, `-1` otherwise) is the moved-on empty cell, every other cell is
/// unchanged.
proof fn lemma_counts_after_move(
    g: Seq<Seq<Mark>>,
    x: int,
    y: int,
    bot: Mark,
    bot_moves: bool,
    a: int,
    b: int,
    dx: int,
    dy: int,
    w: int,
    hit: int,
    n: int,
)
    requires
        rect(g),
        inside(g, x, y),
        at(g, x, y) == Mark::Empty,
        bot != Mark::Empty,
        is_dir(dx, dy),
        inside(g, a, b),
        inside(g, step(a, dx, w - 1), step(b, dy, w - 1)),
        0 <= n <= w,
        forall|i: int| 0 <= i < w ==> ((#[trigger] step(a, dx, i) == x && step(b, dy, i) == y) <==> i == hit),
    ensures
        count_eq(put(g, x, y, mover(bot, bot_moves)), a, b, dx, dy, bot, n) == count_eq(g, a, b, dx, dy, bot, n)
            + if bot_moves && 0 <= hit < n {
            1int
        } else {
            0
        },
        count_foreign(put(g, x, y, mover(bot, bot_moves)), a, b, dx, dy, bot, n) == count_foreign(
            g,
            a,
            b,
            dx,
            dy,
            bot,
            n,
        ) + if !bot_moves && 0 <= hit < n {
            1int
        } else {
            0
        },
    decreases n,
{
    if n > 0 {
        lemma_counts_after_move(g, x, y, bot, bot_moves, a, b, dx, dy, w, hit, n - 1);
        let gp = put(g, x, y, mover(bot, bot_moves));
        let cx = step(a, dx, n - 1);
        let cy = step(b, dy, n - 1);
        assert(inside(g, cx, cy));
        assert(g[cy].len() == gw(g));
        if cx == x && cy == y {
            assert(n - 1 == hit);
            assert(at(gp, cx, cy) == mover(bot, bot_moves));
        } else {
            assert(n - 1 != hit);
            if cy == y {
                assert(gp[cy] == g[cy].update(x, mover(bot, bot_moves)));
            } else {
                assert(gp[cy] == g[cy]);
            }
            assert(at(gp, cx, cy) == at(g, cx, cy));
        }
    }
}

/// Coordinate `c` moved `i` steps back against direction `delta`.
pub open spec fn back(c: int, delta: int, i: int) -> int {
    step(c, delta, -i)
}

/// Sum, over the first `n` offsets, of `window_delta` at `(a, b)` when the
/// window at that offset starts at `(a, b)`, zero otherwise.
pub open spec fn offset_sum(
    g: Seq<Seq<Mark>>,
    x: int,
    y: int,
    dx: int,
    dy: int,
    bot: Mark,
    w: int,
    bot_moves: bool,
    a: int,
    b: int,
    n: int,
) -> int
    decreases n,
{
    if n <= 0 {
        0
    } else {
        offset_sum(g, x, y, dx, dy, bot, w, bot_moves, a, b, n - 1) + if a == back(x, dx, n - 1) && b
            == back(y, dy, n - 1) {
            window_delta(g, x, y, dx, dy, n - 1, bot, w, bot_moves)
        } else {
            0
        }
    }
}

/// At most one offset makes a window start at `(a, b)`; the offset sum is
/// that window's change, or zero.
proof fn lemma_offset_sum_single(
    g: Seq<Seq<Mark>>,
    x: int,
    y: int,
    dx: int,
    dy: int,
    bot: Mark,
    w: int,
    bot_moves: bool,
    a: int,
    b: int,
    hit: int,
    n: int,
)
    requires
        is_dir(dx, dy),
        0 <= n,
        forall|i: int| 0 <= i < n ==> ((a == #[trigger] back(x, dx, i) && b == back(y, dy, i)) <==> i == hit),
    ensures
        offset_sum(g, x, y, dx, dy, bot, w, bot_moves, a, b, n) == if 0 <= hit < n {
            window_delta(g, x, y, dx, dy, hit, bot, w, bot_moves)
        } else {
            0
        },
    decreases n,
{
    if n > 0 {
        lemma_offset_sum_single(g, x, y, dx, dy, bot, w, bot_moves, a, b, hit, n - 1);
        assert((a == back(x, dx, n - 1) && b == back(y, dy, n - 1)) <==> n - 1 == hit);
    }
}

/// The change of the bot's threat minus its opponent's in the window from
/// `(a, b)` in one direction is the offset sum at `(a, b)`.
proof fn lemma_window_change(
    g: Seq<Seq<Mark>>,
    x: int,
    y: int,
    bot: Mark,
    bot_moves: bool,
    w: int,
    a: int,
    b: int,
    dx: int,
    dy: int,
)
    requires
        rect(g),
        inside(g, x, y),
        at(g, x, y) == Mark::Empty,
        bot != Mark::Empty,
        1 <= w,
        is_dir(dx, dy),
        inside(g, a, b),
    ensures
        ({
            let gp = put(g, x, y, mover(bot, bot_moves));
            let opp = opponent_of(bot).unwrap();
            (threat(gp, a, b, dx, dy, bot, w) - threat(g, a, b, dx, dy, bot, w)) - (threat(
                gp,
                a,
                b,
                dx,
                dy,
                opp,
                w,
            ) - threat(g, a, b, dx, dy, opp, w)) == offset_sum(g, x, y, dx, dy, bot, w, bot_moves, a, b, w)
        }),
{
    let gp = put(g, x, y, mover(bot, bot_moves));
    let opp = opponent_of(bot).unwrap();
    assert(gp.len() == g.len());
    assert(gw(gp) == gw(g)) by {
        if y == 0 {
            assert(gp[0] == g[0].update(x, mover(bot, bot_moves)));
        } else {
            assert(gp[0] == g[0]);
        }
    }
    // The offset whose window starts at (a, b), if any.
    let hit = if exists|i: int| 0 <= i < w && a == back(x, dx, i) && b == back(y, dy, i) {
        choose|i: int| 0 <= i < w && a == back(x, dx, i) && b == back(y, dy, i)
    } else {
        -1
    };
    assert forall|i: int| 0 <= i < w implies ((a == back(x, dx, i) && b == back(y, dy, i)) <==> i == hit) by {
        if a == back(x, dx, i) && b == back(y, dy, i) {
            assert(0 <= hit < w && a == back(x, dx, hit) && b == back(y, dy, hit));
        }
    }
    assert forall|i: int| 0 <= i < w implies ((step(a, dx, i) == x && step(b, dy, i) == y) <==> i == hit) by {
        assert((step(a, dx, i) == x && step(b, dy, i) == y) <==> (a == back(x, dx, i) && b == back(y, dy, i)));
    }
    lemma_offset_sum_single(g, x, y, dx, dy, bot, w, bot_moves, a, b, hit, w);
    if inside(g, step(a, dx, w - 1), step(b, dy, w - 1)) {
        lemma_window_value(g, a, b, dx, dy, bot, w);
        lemma_window_value(gp, a, b, dx, dy, bot, w);
        lemma_counts_after_move(g, x, y, bot, bot_moves, a, b, dx, dy, w, hit, w);
        lemma_counts_nonneg(g, a, b, dx, dy, bot, w);
        if 0 <= hit < w {
            assert(back(x, dx, hit) == a && back(y, dy, hit) == b);
        }
    } else {
        assert(!inside(gp, step(a, dx, w - 1), step(b, dy, w - 1)));
        if 0 <= hit < w {
            assert(window_delta(g, x, y, dx, dy, hit, bot, w, bot_moves) == 0);
        }
    }
}

// ----- summing the window changes over the grid ----------------------------

/// Offset sums of the first `k` directions at each cell.
pub open spec fn dirs_offset_sum(
    g: Seq<Seq<Mark>>,
    x: int,
    y: int,
    bot: Mark,
    w: int,
    bot_moves: bool,
    a: int,
    b: int,
    k: int,
) -> int
    decreases k,
{
    if k <= 0 {
        0
    } else {
        dirs_offset_sum(g, x, y, bot, w, bot_moves, a, b, k - 1) + offset_sum(
            g,
            x,
            y,
            dir_dx(k - 1),
            dir_dy(k - 1),
            bot,
            w,
            bot_moves,
            a,
            b,
            w,
        )
    }
}

pub open spec fn offset_sums(
    g: Seq<Seq<Mark>>,
    x: int,
    y: int,
    dx: int,
    dy: int,
    bot: Mark,
    w: int,
    bot_moves: bool,
    n: int,
) -> spec_fn(int, int) -> int {
    |a: int, b: int| offset_sum(g, x, y, dx, dy, bot, w, bot_moves, a, b, n)
}

pub open spec fn dirs_offset_sums(
    g: Seq<Seq<Mark>>,
    x: int,
    y: int,
    bot: Mark,
    w: int,
    bot_moves: bool,
    k: int,
) -> spec_fn(int, int) -> int {
    |a: int, b: int| dirs_offset_sum(g, x, y, bot, w, bot_moves, a, b, k)
}

/// Summed over the grid, the offset sums of one direction give the
/// direction's share of the move delta.
proof fn lemma_offsets_over_grid(
    g: Seq<Seq<Mark>>,
    x: int,
    y: int,
    dx: int,
    dy: int,
    bot: Mark,
    w: int,
    bot_moves: bool,
    n: int,
)
    requires
        0 <= n,
    ensures
        grid_sum(offset_sums(g, x, y, dx, dy, bot, w, bot_moves, n), g.len() as int, gw(g)) == dir_delta(
            g,
            x,
            y,
            dx,
            dy,
            bot,
            w,
            bot_moves,
            n,
        ),
    decreases n,
{
    if n == 0 {
        lemma_grid_zero(offset_sums(g, x, y, dx, dy, bot, w, bot_moves, n), g.len() as int, gw(g));
    } else {
        lemma_offsets_over_grid(g, x, y, dx, dy, bot, w, bot_moves, n - 1);
        let sx = back(x, dx, n - 1);
        let sy = back(y, dy, n - 1);
        let c = window_delta(g, x, y, dx, dy, n - 1, bot, w, bot_moves);
        let prev = offset_sums(g, x, y, dx, dy, bot, w, bot_moves, n - 1);
        lemma_grid_plus(prev, point(c, sx, sy), g.len() as int, gw(g));
        lemma_grid_point(c, sx, sy, g.len() as int, gw(g));
        assert forall|a: int, b: int| 0 <= a < gw(g) && 0 <= b < g.len() implies #[trigger] offset_sums(
            g,
            x,
            y,
            dx,
            dy,
            bot,
            w,
            bot_moves,
            n,
        )(a, b) == plus(prev, point(c, sx, sy))(a, b) by {
            assert(offset_sum(g, x, y, dx, dy, bot, w, bot_moves, a, b, n) == offset_sum(
                g,
                x,
                y,
                dx,
                dy,
                bot,
                w,
                bot_moves,
                a,
                b,
                n - 1,
            ) + point(c, sx, sy)(a, b));
        }
        if !(0 <= sy < g.len() && 0 <= sx < gw(g)) {
            assert(!inside(g, sx, sy));
            assert(c == 0);
        }
        lemma_grid_ext(
            offset_sums(g, x, y, dx, dy, bot, w, bot_moves, n),
            plus(prev, point(c, sx, sy)),
            g.len() as int,
            gw(g),
        );
    }
}

proof fn lemma_dirs_over_grid(g: Seq<Seq<Mark>>, x: int, y: int, bot: Mark, w: int, bot_moves: bool, k: int)
    requires
        0 <= k,
        0 <= w,
    ensures
        grid_sum(dirs_offset_sums(g, x, y, bot, w, bot_moves, k), g.len() as int, gw(g)) == dirs_delta(
            g,
            x,
            y,
            bot,
            w,
            bot_moves,
            k,
        ),
    decreases k,
{
    if k == 0 {
        lemma_grid_zero(dirs_offset_sums(g, x, y, bot, w, bot_moves, k), g.len() as int, gw(g));
    } else {
        lemma_dirs_over_grid(g, x, y, bot, w, bot_moves, k - 1);
        let prev = dirs_offset_sums(g, x, y, bot, w, bot_moves, k - 1);
        let here = offset_sums(g, x, y, dir_dx(k - 1), dir_dy(k - 1), bot, w, bot_moves, w);
        lemma_offsets_over_grid(g, x, y, dir_dx(k - 1), dir_dy(k - 1), bot, w, bot_moves, w);
        lemma_grid_plus(prev, here, g.len() as int, gw(g));
        assert forall|a: int, b: int| 0 <= a < gw(g) && 0 <= b < g.len() implies #[trigger] dirs_offset_sums(
            g,
            x,
            y,
            bot,
            w,
            bot_moves,
            k,
        )(a, b) == plus(prev, here)(a, b) by {
            assert(dirs_offset_sum(g, x, y, bot, w, bot_moves, a, b, k) == dirs_offset_sum(
                g,
                x,
                y,
                bot,
                w,
                bot_moves,
                a,
                b,
                k - 1,
            ) + here(a, b));
        }
        lemma_grid_ext(dirs_offset_sums(g, x, y, bot, w, bot_moves, k), plus(prev, here), g.len() as int, gw(g));
    }
}

/// A move's incremental score is exactly the change it makes to the static
/// evaluation: for every empty cell of a rectangular board, the evaluation
/// of the board after the bot (or its opponent) moves there equals the
/// evaluation before plus `move_delta` of that move.
pub proof fn lemma_move_delta_is_evaluation_change(
    g: Seq<Seq<Mark>>,
    x: int,
    y: int,
    bot: Mark,
    w: int,
    bot_moves: bool,
)
    requires
        rect(g),
        inside(g, x, y),
        at(g, x, y) == Mark::Empty,
        bot != Mark::Empty,
        1 <= w,
    ensures
        evaluation(put(g, x, y, mover(bot, bot_moves)), bot, w) == evaluation(g, bot, w) + move_delta(
            g,
            x,
            y,
            bot,
            w,
            bot_moves,
        ),
{
    let gp = put(g, x, y, mover(bot, bot_moves));
    let opp = opponent_of(bot).unwrap();
    let h = g.len() as int;
    let wd = gw(g);
    assert(gp.len() == g.len());
    assert(gw(gp) == gw(g)) by {
        if y == 0 {
            assert(gp[0] == g[0].update(x, mover(bot, bot_moves)));
        } else {
            assert(gp[0] == g[0]);
        }
    }
    lemma_total_threat_sum(g, bot, w, h);
    lemma_total_threat_sum(g, opp, w, h);
    lemma_total_threat_sum(gp, bot, w, h);
    lemma_total_threat_sum(gp, opp, w, h);
    let db = minus(cell_threats(gp, bot, w), cell_threats(g, bot, w));
    let dopp = minus(cell_threats(gp, opp, w), cell_threats(g, opp, w));
    lemma_grid_minus(cell_threats(gp, bot, w), cell_threats(g, bot, w), h, wd);
    lemma_grid_minus(cell_threats(gp, opp, w), cell_threats(g, opp, w), h, wd);
    lemma_grid_minus(db, dopp, h, wd);
    assert forall|a: int, b: int| 0 <= a < wd && 0 <= b < h implies #[trigger] minus(db, dopp)(a, b)
        == dirs_offset_sums(g, x, y, bot, w, bot_moves, 4)(a, b) by {
        lemma_window_change(g, x, y, bot, bot_moves, w, a, b, 1, 0);
        lemma_window_change(g, x, y, bot, bot_moves, w, a, b, 0, 1);
        lemma_window_change(g, x, y, bot, bot_moves, w, a, b, 1, 1);
        lemma_window_change(g, x, y, bot, bot_moves, w, a, b, 1, -1);
        assert(dirs_offset_sum(g, x, y, bot, w, bot_moves, a, b, 0) == 0);
        assert(dirs_offset_sum(g, x, y, bot, w, bot_moves, a, b, 1) == offset_sum(g, x, y, 1, 0, bot, w, bot_moves, a, b, w));
        assert(dirs_offset_sum(g, x, y, bot, w, bot_moves, a, b, 2) == dirs_offset_sum(g, x, y, bot, w, bot_moves, a, b, 1)
            + offset_sum(g, x, y, 0, 1, bot, w, bot_moves, a, b, w));
        assert(dirs_offset_sum(g, x, y, bot, w, bot_moves, a, b, 3) == dirs_offset_sum(g, x, y, bot, w, bot_moves, a, b, 2)
            + offset_sum(g, x, y, 1, 1, bot, w, bot_moves, a, b, w));
        assert(dirs_offset_sum(g, x, y, bot, w, bot_moves, a, b, 4) == dirs_offset_sum(g, x, y, bot, w, bot_moves, a, b, 3)
            + offset_sum(g, x, y, 1, -1, bot, w, bot_moves, a, b, w));
    }
    lemma_grid_ext(minus(db, dopp), dirs_offset_sums(g, x, y, bot, w, bot_moves, 4), h, wd);
    lemma_dirs_over_grid(g, x, y, bot, w, bot_moves, 4);
}

} // verus!
