use vstd::prelude::*;
use super::game::{Point, Direction};

verus! {

/// Column spacing between the snakes of `total` players on a field
/// `width` cells wide.
pub open spec fn start_spacing(total: int, width: int) -> int {
    if total <= 2 {
        width / (total + 1)
    } else {
        width / total
    }
}

/// Start cell of player `index` of `total`: spread along the middle row,
/// the single player of a solo game in the middle, never past the last
/// column.
pub open spec fn start_position(index: int, total: int, width: int, height: int) -> Point {
    let x = if total == 1 {
        width / 2
    } else {
        (index + 1) * start_spacing(total, width)
    };
    Point { x: (if x <= width - 1 { x } else { width - 1 }) as usize, y: (height / 2) as usize }
}

/// Where the snake of player `index` of `total` starts.
pub fn calculate_start_position(index: usize, total: usize, width: usize, height: usize) -> (r: Point)
    requires
        width >= 1,
        index < usize::MAX,
        total != 1 ==> (index + 1) * start_spacing(total as int, width as int) <= usize::MAX,
    ensures
        r == start_position(index as int, total as int, width as int, height as int),
        r.x < width,
{
    let spacing = if total <= 2 {
        width / (total + 1)
    } else {
        width / total
    };
    assert(spacing == start_spacing(total as int, width as int));
    let x = if total == 1 {
        width / 2
    } else {
        (index + 1) * spacing
    };
    let y = height / 2;
    Point::new(if x <= width - 1 { x } else { width - 1 }, y)
}

/// Every snake starts heading up.
pub fn calculate_start_direction(_index: usize, _total: usize) -> (r: Direction)
    ensures
        r == Direction::Up,
{
    Direction::Up
}

/// Start cell of the snake of player `index` of `total` when a recorded
/// game is replayed: the same placement as in a live game.
pub fn calculate_snake_start_position(index: usize, total: usize, width: usize, height: usize) -> (r: Point)
    requires
        width >= 1,
        index < usize::MAX,
        total != 1 ==> (index + 1) * start_spacing(total as int, width as int) <= usize::MAX,
    ensures
        r == start_position(index as int, total as int, width as int, height as int),
        r.x < width,
{
    calculate_start_position(index, total, width, height)
}

} // verus!
