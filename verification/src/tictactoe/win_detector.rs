use vstd::prelude::*;
use super::types::Mark;
use super::board::{board_width, is_rectangular, before};

verus! {

/// `(x, y)` lies on the board (columns measured by the first row).
pub open spec fn in_board(b: Seq<Vec<Mark>>, x: int, y: int) -> bool {
    0 <= y < b.len() && 0 <= x < board_width(b)
}

/// The `i`-th cell of the horizontal line starting at `(x, y)`.
pub open spec fn h_cell(b: Seq<Vec<Mark>>, x: int, y: int, i: int) -> Mark {
    b[y]@[x + i]
}

/// The `i`-th cell of the vertical line starting at `(x, y)`.
pub open spec fn v_cell(b: Seq<Vec<Mark>>, x: int, y: int, i: int) -> Mark {
    b[y + i]@[x]
}

/// The `i`-th cell of the down-right diagonal starting at `(x, y)`.
pub open spec fn dr_cell(b: Seq<Vec<Mark>>, x: int, y: int, i: int) -> Mark {
    b[y + i]@[x + i]
}

/// The `i`-th cell of the down-left diagonal starting at `(x, y)`.
pub open spec fn dl_cell(b: Seq<Vec<Mark>>, x: int, y: int, i: int) -> Mark {
    b[y + i]@[x - i]
}

/// `w` cells to the right of and including `(x, y)` fit and all hold `m`.
pub open spec fn h_line(b: Seq<Vec<Mark>>, w: int, x: int, y: int, m: Mark) -> bool {
    &&& x + w <= board_width(b)
    &&& forall|i: int| 0 <= i < w ==> #[trigger] h_cell(b, x, y, i) == m
}

/// `w` cells downwards from `(x, y)` fit and all hold `m`.
pub open spec fn v_line(b: Seq<Vec<Mark>>, w: int, x: int, y: int, m: Mark) -> bool {
    &&& y + w <= b.len()
    &&& forall|i: int| 0 <= i < w ==> #[trigger] v_cell(b, x, y, i) == m
}

/// `w` cells down and to the right from `(x, y)` fit and all hold `m`.
pub open spec fn dr_line(b: Seq<Vec<Mark>>, w: int, x: int, y: int, m: Mark) -> bool {
    &&& x + w <= board_width(b)
    &&& y + w <= b.len()
    &&& forall|i: int| 0 <= i < w ==> #[trigger] dr_cell(b, x, y, i) == m
}

/// `w` cells down and to the left from `(x, y)` fit and all hold `m`.
pub open spec fn dl_line(b: Seq<Vec<Mark>>, w: int, x: int, y: int, m: Mark) -> bool {
    &&& x + 1 >= w
    &&& y + w <= b.len()
    &&& forall|i: int| 0 <= i < w ==> #[trigger] dl_cell(b, x, y, i) == m
}

/// A non-empty cell from which `w` equal marks run in one of the four
/// directions.
pub open spec fn starts_line(b: Seq<Vec<Mark>>, w: int, x: int, y: int) -> bool {
    let m = b[y]@[x];
    &&& m != Mark::Empty
    &&& (h_line(b, w, x, y, m) || v_line(b, w, x, y, m) || dr_line(b, w, x, y, m) || dl_line(
        b,
        w,
        x,
        y,
        m,
    ))
}

/// The first cell in row-major order that starts a line.
pub open spec fn first_start(b: Seq<Vec<Mark>>, w: int, x: int, y: int) -> bool {
    &&& in_board(b, x, y)
    &&& starts_line(b, w, x, y)
    &&& forall|x2: int, y2: int|
        in_board(b, x2, y2) && before(x2, y2, x, y) ==> !#[trigger] starts_line(b, w, x2, y2)
}

/// Some line of `w` equal non-empty marks lies on the board.
pub open spec fn has_line(b: Seq<Vec<Mark>>, w: int) -> bool {
    exists|x: int, y: int| in_board(b, x, y) && #[trigger] starts_line(b, w, x, y)
}

/// The winning mark: the mark of the first cell (row-major) that starts a
/// line, if any.
pub open spec fn winner_of(b: Seq<Vec<Mark>>, w: int) -> Option<Mark> {
    if exists|x: int, y: int| #[trigger] first_start(b, w, x, y) {
        let (x, y) = choose|x: int, y: int| #[trigger] first_start(b, w, x, y);
        Some(b[y]@[x])
    } else {
        None
    }
}

proof fn lemma_first_start_unique(b: Seq<Vec<Mark>>, w: int, x1: int, y1: int, x2: int, y2: int)
    requires
        first_start(b, w, x1, y1),
        first_start(b, w, x2, y2),
    ensures
        x1 == x2 && y1 == y2,
{
    if before(x1, y1, x2, y2) {
        assert(!starts_line(b, w, x1, y1));
    } else if before(x2, y2, x1, y1) {
        assert(!starts_line(b, w, x2, y2));
    }
}

/// A winner exists exactly when some line of `win_count` equal non-empty
/// marks lies on the board, and the winner is the mark of such a line.
pub proof fn lemma_winner_iff_line(b: Seq<Vec<Mark>>, w: int)
    requires
        is_rectangular(b),
    ensures
        winner_of(b, w) is Some <==> has_line(b, w),
        winner_of(b, w) is Some ==> exists|x: int, y: int|
            in_board(b, x, y) && #[trigger] starts_line(b, w, x, y) && b[y]@[x] == winner_of(
                b,
                w,
            ).unwrap(),
{
    if has_line(b, w) {
        let (x0, y0) = choose|x: int, y: int| in_board(b, x, y) && #[trigger] starts_line(b, w, x, y);
        lemma_first_exists(b, w, x0, y0);
    }
    if exists|x: int, y: int| #[trigger] first_start(b, w, x, y) {
        let (x, y) = choose|x: int, y: int| #[trigger] first_start(b, w, x, y);
        assert(in_board(b, x, y) && starts_line(b, w, x, y));
    }
}

/// If some cell starts a line, a first such cell exists.
proof fn lemma_first_exists(b: Seq<Vec<Mark>>, w: int, x0: int, y0: int)
    requires
        in_board(b, x0, y0),
        starts_line(b, w, x0, y0),
    ensures
        exists|x: int, y: int| #[trigger] first_start(b, w, x, y),
    decreases y0 * board_width(b) + x0, 0int,
{
    if first_start(b, w, x0, y0) {
    } else {
        let (x1, y1) = choose|x2: int, y2: int|
            in_board(b, x2, y2) && before(x2, y2, x0, y0) && #[trigger] starts_line(b, w, x2, y2);
        if y1 < y0 {
            assert(y1 * board_width(b) + x1 < y0 * board_width(b) + x0) by (nonlinear_arith)
                requires
                    0 <= x1 < board_width(b),
                    0 <= x0,
                    0 <= y1 < y0,
            ;
        }
        lemma_first_exists(b, w, x1, y1);
    }
}

/// The mark of the first cell, in row-major order, that starts a line of
/// `win_count` equal marks (horizontally, vertically or diagonally), or
/// `None` when no such line exists.
pub fn check_win(board: &[Vec<Mark>], win_count: usize) -> (r: Option<Mark>)
    requires
        is_rectangular(board@),
        board_width(board@) + win_count <= usize::MAX,
        board@.len() + win_count <= usize::MAX,
    ensures
        r == winner_of(board@, win_count as int),
{
    let height = board.len();
    if height == 0 {
        return None;
    }
    let width = board[0].len();
    let ghost b = board@;
    let ghost w = win_count as int;

    let mut y: usize = 0;
    while y < height
        invariant
            b == board@,
            w == win_count,
            height == b.len(),
            width == board_width(b),
            is_rectangular(b),
            width + win_count <= usize::MAX,
            height + win_count <= usize::MAX,
            0 <= y <= height,
            forall|x2: int, y2: int|
                in_board(b, x2, y2) && y2 < y ==> !#[trigger] starts_line(b, w, x2, y2),
        decreases height - y,
    {
        let mut x: usize = 0;
        while x < width
            invariant
                b == board@,
                w == win_count,
                height == b.len(),
                width == board_width(b),
                is_rectangular(b),
                width + win_count <= usize::MAX,
                height + win_count <= usize::MAX,
                0 <= y < height,
                0 <= x <= width,
                forall|x2: int, y2: int|
                    in_board(b, x2, y2) && (y2 < y || (y2 == y && x2 < x)) ==> !#[trigger] starts_line(
                        b,
                        w,
                        x2,
                        y2,
                    ),
            decreases width - x,
        {
            assert(b[y as int]@.len() == width);
            let mark = board[y][x];
            if mark != Mark::Empty {
                let found = check_horizontal(board, x, y, mark, win_count) || check_vertical(
                    board,
                    x,
                    y,
                    mark,
                    win_count,
                ) || check_diagonal_down_right(board, x, y, mark, win_count)
                    || check_diagonal_down_left(board, x, y, mark, win_count);
                if found {
                    proof {
                        assert(starts_line(b, w, x as int, y as int));
                        assert(first_start(b, w, x as int, y as int));
                        let (xc, yc) = choose|xx: int, yy: int| #[trigger] first_start(b, w, xx, yy);
                        lemma_first_start_unique(b, w, xc, yc, x as int, y as int);
                    }
                    return Some(mark);
                }
                assert(!starts_line(b, w, x as int, y as int));
            }
            x = x + 1;
        }
        y = y + 1;
    }
    proof {
        assert forall|xx: int, yy: int| !#[trigger] first_start(b, w, xx, yy) by {
            if first_start(b, w, xx, yy) {
                assert(!starts_line(b, w, xx, yy));
            }
        }
    }
    None
}

fn check_horizontal(board: &[Vec<Mark>], x: usize, y: usize, mark: Mark, win_count: usize) -> (r: bool)
    requires
        is_rectangular(board@),
        in_board(board@, x as int, y as int),
        board_width(board@) + win_count <= usize::MAX,
    ensures
        r == h_line(board@, win_count as int, x as int, y as int, mark),
{
    let width = board[0].len();
    if x + win_count > width {
        return false;
    }
    assert(board@[y as int]@.len() == width);
    let mut i: usize = 0;
    while i < win_count
        invariant
            is_rectangular(board@),
            in_board(board@, x as int, y as int),
            width == board_width(board@),
            x + win_count <= width,
            0 <= i <= win_count,
            forall|j: int| 0 <= j < i ==> #[trigger] h_cell(board@, x as int, y as int, j) == mark,
        decreases win_count - i,
    {
        assert(board@[y as int]@.len() == width);
        if board[y][x + i] != mark {
            assert(h_cell(board@, x as int, y as int, i as int) != mark);
            return false;
        }
        i = i + 1;
    }
    true
}

fn check_vertical(board: &[Vec<Mark>], x: usize, y: usize, mark: Mark, win_count: usize) -> (r: bool)
    requires
        is_rectangular(board@),
        in_board(board@, x as int, y as int),
        board@.len() + win_count <= usize::MAX,
    ensures
        r == v_line(board@, win_count as int, x as int, y as int, mark),
{
    let height = board.len();
    if y + win_count > height {
        return false;
    }
    let mut i: usize = 0;
    while i < win_count
        invariant
            is_rectangular(board@),
            in_board(board@, x as int, y as int),
            height == board@.len(),
            y + win_count <= height,
            0 <= i <= win_count,
            forall|j: int| 0 <= j < i ==> #[trigger] v_cell(board@, x as int, y as int, j) == mark,
        decreases win_count - i,
    {
        assert(board@[y + i]@.len() == board_width(board@));
        if board[y + i][x] != mark {
            assert(v_cell(board@, x as int, y as int, i as int) != mark);
            return false;
        }
        i = i + 1;
    }
    true
}

fn check_diagonal_down_right(
    board: &[Vec<Mark>],
    x: usize,
    y: usize,
    mark: Mark,
    win_count: usize,
) -> (r: bool)
    requires
        is_rectangular(board@),
        in_board(board@, x as int, y as int),
        board_width(board@) + win_count <= usize::MAX,
        board@.len() + win_count <= usize::MAX,
    ensures
        r == dr_line(board@, win_count as int, x as int, y as int, mark),
{
    let height = board.len();
    let width = board[0].len();
    if x + win_count > width || y + win_count > height {
        return false;
    }
    let mut i: usize = 0;
    while i < win_count
        invariant
            is_rectangular(board@),
            in_board(board@, x as int, y as int),
            height == board@.len(),
            width == board_width(board@),
            y + win_count <= height,
            x + win_count <= width,
            0 <= i <= win_count,
            forall|j: int| 0 <= j < i ==> #[trigger] dr_cell(board@, x as int, y as int, j) == mark,
        decreases win_count - i,
    {
        assert(board@[y + i]@.len() == width);
        if board[y + i][x + i] != mark {
            assert(dr_cell(board@, x as int, y as int, i as int) != mark);
            return false;
        }
        i = i + 1;
    }
    true
}

fn check_diagonal_down_left(
    board: &[Vec<Mark>],
    x: usize,
    y: usize,
    mark: Mark,
    win_count: usize,
) -> (r: bool)
    requires
        is_rectangular(board@),
        in_board(board@, x as int, y as int),
        board@.len() + win_count <= usize::MAX,
    ensures
        r == dl_line(board@, win_count as int, x as int, y as int, mark),
{
    let height = board.len();
    let width = board[0].len();
    assert(x < width);
    if x + 1 < win_count || y + win_count > height {
        return false;
    }
    let mut i: usize = 0;
    while i < win_count
        invariant
            is_rectangular(board@),
            in_board(board@, x as int, y as int),
            height == board@.len(),
            y + win_count <= height,
            x + 1 >= win_count,
            0 <= i <= win_count,
            forall|j: int| 0 <= j < i ==> #[trigger] dl_cell(board@, x as int, y as int, j) == mark,
        decreases win_count - i,
    {
        assert(board@[y + i]@.len() == board_width(board@));
        if board[y + i][x - i] != mark {
            assert(dl_cell(board@, x as int, y as int, i as int) != mark);
            return false;
        }
        i = i + 1;
    }
    true
}

} // verus!
