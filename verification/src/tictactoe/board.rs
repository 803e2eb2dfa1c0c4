use vstd::prelude::*;
use super::types::Mark;

verus! {

/// Number of columns of a board: the length of its first row.
pub open spec fn board_width(b: Seq<Vec<Mark>>) -> int {
    if b.len() == 0 {
        0
    } else {
        b[0]@.len() as int
    }
}

/// Every row has as many cells as the first one.
pub open spec fn is_rectangular(b: Seq<Vec<Mark>>) -> bool {
    forall|y: int| 0 <= y < b.len() ==> #[trigger] b[y]@.len() == board_width(b)
}

/// `(x, y)` is an empty cell of row `y`.
pub open spec fn is_available(b: Seq<Vec<Mark>>, x: int, y: int) -> bool {
    &&& 0 <= y < b.len()
    &&& 0 <= x < b[y]@.len()
    &&& b[y]@[x] == Mark::Empty
}

/// `(x1, y1)` comes strictly before `(x2, y2)` in row-major order.
pub open spec fn before(x1: int, y1: int, x2: int, y2: int) -> bool {
    y1 < y2 || (y1 == y2 && x1 < x2)
}

/// The verdict of `is_valid_move`: inside the first row's width, inside the
/// board, and empty.
pub open spec fn valid_move(b: Seq<Vec<Mark>>, x: int, y: int) -> bool {
    &&& 0 <= y < b.len()
    &&& 0 <= x < board_width(b)
    &&& b[y]@[x] == Mark::Empty
}

/// All empty cells as `(x, y)`, in row-major order, each exactly once.
pub fn get_available_moves(board: &[Vec<Mark>]) -> (moves: Vec<(usize, usize)>)
    ensures
        forall|i: int|
            0 <= i < moves@.len() ==> is_available(
                board@,
                (#[trigger] moves@[i]).0 as int,
                moves@[i].1 as int,
            ),
        forall|x: int, y: int|
            is_available(board@, x, y) ==> moves@.contains((x as usize, y as usize)),
        forall|i: int, j: int|
            0 <= i < j < moves@.len() ==> before(
                (#[trigger] moves@[i]).0 as int,
                moves@[i].1 as int,
                (#[trigger] moves@[j]).0 as int,
                moves@[j].1 as int,
            ),
{
    let mut moves: Vec<(usize, usize)> = Vec::new();
    let mut y: usize = 0;
    while y < board.len()
        invariant
            0 <= y <= board@.len(),
            forall|i: int|
                0 <= i < moves@.len() ==> is_available(
                    board@,
                    (#[trigger] moves@[i]).0 as int,
                    moves@[i].1 as int,
                ),
            forall|i: int| 0 <= i < moves@.len() ==> (#[trigger] moves@[i]).1 < y,
            forall|xx: int, yy: int|
                0 <= yy < y && is_available(board@, xx, yy) ==> moves@.contains(
                    (xx as usize, yy as usize),
                ),
            forall|i: int, j: int|
                0 <= i < j < moves@.len() ==> before(
                    (#[trigger] moves@[i]).0 as int,
                    moves@[i].1 as int,
                    (#[trigger] moves@[j]).0 as int,
                    moves@[j].1 as int,
                ),
        decreases board@.len() - y,
    {
        let row = &board[y];
        let mut x: usize = 0;
        while x < row.len()
            invariant
                0 <= y < board@.len(),
                row@ == board@[y as int]@,
                0 <= x <= row@.len(),
                forall|i: int|
                    0 <= i < moves@.len() ==> is_available(
                        board@,
                        (#[trigger] moves@[i]).0 as int,
                        moves@[i].1 as int,
                    ),
                forall|i: int|
                    0 <= i < moves@.len() ==> before(
                        (#[trigger] moves@[i]).0 as int,
                        moves@[i].1 as int,
                        x as int,
                        y as int,
                    ),
                forall|i: int| 0 <= i < moves@.len() ==> (#[trigger] moves@[i]).1 <= y,
                forall|xx: int, yy: int|
                    ((0 <= yy < y) || (yy == y && 0 <= xx < x)) && is_available(board@, xx, yy)
                        ==> moves@.contains((xx as usize, yy as usize)),
                forall|i: int, j: int|
                    0 <= i < j < moves@.len() ==> before(
                        (#[trigger] moves@[i]).0 as int,
                        moves@[i].1 as int,
                        (#[trigger] moves@[j]).0 as int,
                        moves@[j].1 as int,
                    ),
            decreases row@.len() - x,
        {
            if row[x] == Mark::Empty {
                let ghost old_moves = moves@;
                moves.push((x, y));
                assert forall|xx: int, yy: int|
                    ((0 <= yy < y) || (yy == y && 0 <= xx < x + 1)) && is_available(
                        board@,
                        xx,
                        yy,
                    ) implies moves@.contains((xx as usize, yy as usize)) by {
                    if yy == y && xx == x {
                        assert(moves@[moves@.len() - 1] == (xx as usize, yy as usize));
                    } else {
                        assert(old_moves.contains((xx as usize, yy as usize)));
                        let k = choose|k: int|
                            0 <= k < old_moves.len() && old_moves[k] == (
                                xx as usize,
                                yy as usize,
                            );
                        assert(moves@[k] == old_moves[k]);
                    }
                }
            } else {
                assert forall|xx: int, yy: int|
                    ((0 <= yy < y) || (yy == y && 0 <= xx < x + 1)) && is_available(
                        board@,
                        xx,
                        yy,
                    ) implies moves@.contains((xx as usize, yy as usize)) by {
                    if yy == y && xx == x {
                        assert(!is_available(board@, xx, yy));
                    }
                }
            }
            x = x + 1;
        }
        y = y + 1;
    }
    moves
}

/// Whether a mark may be placed at `(x, y)`: the position lies inside the
/// board (columns measured by the first row) and the cell is empty.
pub fn is_valid_move(board: &[Vec<Mark>], x: usize, y: usize) -> (r: bool)
    requires
        y < board@.len() && x < board_width(board@) ==> x < board@[y as int]@.len(),
    ensures
        r == valid_move(board@, x as int, y as int),
{
    if y >= board.len() {
        return false;
    }
    if x >= board[0].len() {
        return false;
    }
    board[y][x] == Mark::Empty
}

/// On a rectangular board a move is valid exactly when the cell is among
/// the available moves.
pub proof fn lemma_valid_move_iff_available(b: Seq<Vec<Mark>>, x: int, y: int)
    requires
        is_rectangular(b),
    ensures
        valid_move(b, x, y) <==> is_available(b, x, y),
{
    if 0 <= y < b.len() {
        assert(b[y]@.len() == board_width(b));
    }
}

} // verus!
