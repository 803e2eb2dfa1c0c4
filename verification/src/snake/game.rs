use vstd::prelude::*;
use std::collections::VecDeque;
use crate::identifiers::PlayerId;
use crate::session_rng::thread_rng_below;
use super::point_set::PointSet;

verus! {

/// A cell of the field.
#[derive(Clone, Copy, Debug, PartialEq, Eq, Hash, Structural)]
pub struct Point {
    pub x: usize,
    pub y: usize,
}

impl Point {
    pub fn new(x: usize, y: usize) -> (r: Self)
        ensures
            r.x == x,
            r.y == y,
    {
        Self { x, y }
    }
}

#[derive(Clone, Copy, Debug, PartialEq, Eq, Structural)]
pub enum Direction {
    Left,
    Right,
    Up,
    Down,
}

/// What hitting the edge of the field does.
#[derive(Clone, Copy, Debug, PartialEq, Eq, Structural)]
pub enum WallCollisionMode {
    Death,
    WrapAround,
}

#[derive(Clone, Copy, Debug, PartialEq, Eq, Structural)]
pub enum DeathReason {
    WallCollision,
    SelfCollision,
    OtherSnakeCollision,
    PlayerDisconnected,
}

/// Left and right, and up and down, are opposite directions.
pub open spec fn opposite(a: Direction, b: Direction) -> bool {
    ||| (a == Direction::Left && b == Direction::Right)
    ||| (a == Direction::Right && b == Direction::Left)
    ||| (a == Direction::Up && b == Direction::Down)
    ||| (a == Direction::Down && b == Direction::Up)
}

impl Direction {
    pub fn is_opposite(&self, other: &Direction) -> (r: bool)
        ensures
            r == opposite(*self, *other),
    {
        match (self, other) {
            (Direction::Left, Direction::Right) => true,
            (Direction::Right, Direction::Left) => true,
            (Direction::Up, Direction::Down) => true,
            (Direction::Down, Direction::Up) => true,
            _ => false,
        }
    }
}

/// Being opposite is symmetric and irreflexive, and every direction has
/// exactly one opposite.
pub proof fn lemma_opposite_laws(a: Direction, b: Direction, c: Direction)
    ensures
        opposite(a, b) == opposite(b, a),
        !opposite(a, a),
        opposite(a, b) && opposite(a, c) ==> b == c,
{
}

#[derive(Clone, Debug)]
pub struct FieldSize {
    pub width: usize,
    pub height: usize,
}

/// Offset from one body segment to the next one, behind the head, for a
/// snake heading in `d`.
pub open spec fn trail_dx(d: Direction) -> int {
    match d {
        Direction::Left => 1,
        Direction::Right => -1,
        _ => 0,
    }
}

pub open spec fn trail_dy(d: Direction) -> int {
    match d {
        Direction::Up => 1,
        Direction::Down => -1,
        _ => 0,
    }
}

/// `c + d` taken modulo `n`, for `d` in -1..=1.
pub open spec fn wrap_add(c: int, d: int, n: int) -> int {
    (c + d + n) % n
}

/// The segment that follows `p` in the body of a new snake heading `d`.
pub open spec fn next_segment(p: Point, d: Direction, width: int, height: int) -> Point {
    Point {
        x: wrap_add(p.x as int, trail_dx(d), width) as usize,
        y: wrap_add(p.y as int, trail_dy(d), height) as usize,
    }
}

/// One player's snake. The body runs from the head to the tail; `body_set`
/// is the set of cells it occupies, used for collision tests.
#[derive(Clone, Debug)]
pub struct Snake {
    pub body: VecDeque<Point>,
    pub body_set: PointSet,
    pub direction: Direction,
    pub pending_direction: Option<Direction>,
    pub death_reason: Option<DeathReason>,
    pub score: u32,
}

impl Snake {
    /// The body is not empty and its set is well kept.
    pub open spec fn wf(&self) -> bool {
        &&& self.body@.len() > 0
        &&& self.body_set.wf()
    }

    pub open spec fn alive(&self) -> bool {
        self.death_reason is None
    }

    pub open spec fn spec_head(&self) -> Point {
        self.body@[0]
    }

    pub open spec fn spec_tail(&self) -> Point {
        self.body@[self.body@.len() - 1]
    }

    /// A snake of three segments: the head at `start_pos`, then two more
    /// trailing away from `direction`, wrapping around the field.
    pub fn new(start_pos: Point, direction: Direction, field_size: &FieldSize) -> (r: Self)
        requires
            1 <= field_size.width <= 0x3fff_ffff,
            1 <= field_size.height <= 0x3fff_ffff,
            start_pos.x + field_size.width + 1 <= i32::MAX,
            start_pos.y + field_size.height + 1 <= i32::MAX,
        ensures
            r.wf(),
            r.body@ == seq![
                start_pos,
                next_segment(start_pos, direction, field_size.width as int, field_size.height as int),
                next_segment(
                    next_segment(start_pos, direction, field_size.width as int, field_size.height as int),
                    direction,
                    field_size.width as int,
                    field_size.height as int,
                ),
            ],
            r.body_set@ == r.body@.to_set(),
            r.direction == direction,
            r.pending_direction is None,
            r.death_reason is None,
            r.score == 0,
    {
        let mut body: VecDeque<Point> = VecDeque::new();
        let mut body_set = PointSet::new();

        let width = field_size.width;
        let height = field_size.height;
        let segment1 = start_pos;
        let segment2 = Self::trail(segment1, direction, width, height);
        let segment3 = Self::trail(segment2, direction, width, height);

        body.push_back(segment1);
        body.push_back(segment2);
        body.push_back(segment3);

        body_set.insert(segment1);
        body_set.insert(segment2);
        body_set.insert(segment3);
        assert(body@ =~= seq![segment1, segment2, segment3]);
        assert(body_set@ =~= body@.to_set()) by {
            assert forall|q: Point| body@.contains(q) <==> (q == segment1 || q == segment2 || q == segment3) by {
                if q == segment1 {
                    assert(body@[0] == q);
                }
                if q == segment2 {
                    assert(body@[1] == q);
                }
                if q == segment3 {
                    assert(body@[2] == q);
                }
            }
        }

        Self {
            body,
            body_set,
            direction,
            pending_direction: None,
            death_reason: None,
            score: 0,
        }
    }

    fn trail(p: Point, direction: Direction, width: usize, height: usize) -> (r: Point)
        requires
            1 <= width <= 0x3fff_ffff,
            1 <= height <= 0x3fff_ffff,
            p.x + width + 1 <= i32::MAX,
            p.y + height + 1 <= i32::MAX,
        ensures
            r == next_segment(p, direction, width as int, height as int),
            r.x < width,
            r.y < height,
    {
        let x = match direction {
            Direction::Left => (p.x + 1 + width) % width,
            Direction::Right => (p.x + width - 1) % width,
            _ => (p.x + width) % width,
        };
        let y = match direction {
            Direction::Up => (p.y + 1 + height) % height,
            Direction::Down => (p.y + height - 1) % height,
            _ => (p.y + height) % height,
        };
        Point::new(x, y)
    }

    pub fn is_alive(&self) -> (r: bool)
        ensures
            r == self.alive(),
    {
        self.death_reason.is_none()
    }

    /// The first segment of the body.
    pub fn head(&self) -> (r: Point)
        requires
            self.body@.len() > 0,
        ensures
            r == self.spec_head(),
    {
        self.body[0]
    }

    /// The last segment of the body.
    pub fn tail(&self) -> (r: Point)
        requires
            self.body@.len() > 0,
        ensures
            r == self.spec_tail(),
    {
        self.body[self.body.len() - 1]
    }
}

// ----- the game as a mathematical model ----------------------------------

/// A snake as plain values.
pub struct SnakeModel {
    pub body: Seq<Point>,
    pub cells: Set<Point>,
    pub direction: Direction,
    pub pending: Option<Direction>,
    pub death: Option<DeathReason>,
    pub score: int,
}

/// The changing part of a game as plain values: the snakes in the order
/// they move, the food, and the reason of the last death.
pub struct GameModel {
    pub snakes: Seq<SnakeModel>,
    pub food: Set<Point>,
    pub end: Option<DeathReason>,
}

/// The fixed rules of a game.
pub struct Rules {
    pub width: int,
    pub height: int,
    pub mode: WallCollisionMode,
}

pub open spec fn inc_wrap(v: int, max: int) -> int {
    if v + 1 >= max {
        0
    } else {
        v + 1
    }
}

pub open spec fn dec_wrap(v: int, max: int) -> int {
    if v == 0 {
        max - 1
    } else {
        v - 1
    }
}

/// The cell a head at `h` enters moving in `d`; `None` when it would leave
/// the field and walls kill.
pub open spec fn advance(h: Point, d: Direction, rules: Rules) -> Option<Point> {
    match rules.mode {
        WallCollisionMode::Death => match d {
            Direction::Up => if h.y == 0 {
                None
            } else {
                Some(Point { x: h.x, y: (h.y - 1) as usize })
            },
            Direction::Down => if h.y >= rules.height - 1 {
                None
            } else {
                Some(Point { x: h.x, y: (h.y + 1) as usize })
            },
            Direction::Left => if h.x == 0 {
                None
            } else {
                Some(Point { x: (h.x - 1) as usize, y: h.y })
            },
            Direction::Right => if h.x >= rules.width - 1 {
                None
            } else {
                Some(Point { x: (h.x + 1) as usize, y: h.y })
            },
        },
        WallCollisionMode::WrapAround => match d {
            Direction::Up => Some(Point { x: h.x, y: dec_wrap(h.y as int, rules.height) as usize }),
            Direction::Down => Some(Point { x: h.x, y: inc_wrap(h.y as int, rules.height) as usize }),
            Direction::Left => Some(Point { x: dec_wrap(h.x as int, rules.width) as usize, y: h.y }),
            Direction::Right => Some(Point { x: inc_wrap(h.x as int, rules.width) as usize, y: h.y }),
        },
    }
}

/// Another living snake occupies `p`.
pub open spec fn other_snake_at(gm: GameModel, i: int, p: Point) -> bool {
    exists|j: int|
        0 <= j < gm.snakes.len() && j != i && gm.snakes[j].death is None && #[trigger] gm.snakes[j].cells.contains(p)
}

/// Where snake `i` moves this tick, or why it dies: a wall; its own body
/// (entering the cell of its tail is allowed); another living snake.
pub open spec fn outcome(gm: GameModel, i: int, rules: Rules) -> Result<Point, DeathReason> {
    let s = gm.snakes[i];
    match advance(s.body[0], s.direction, rules) {
        None => Err(DeathReason::WallCollision),
        Some(p) => if s.cells.contains(p) && p != s.body.last() {
            Err(DeathReason::SelfCollision)
        } else if other_snake_at(gm, i, p) {
            Err(DeathReason::OtherSnakeCollision)
        } else {
            Ok(p)
        },
    }
}

/// The snake after its head enters `p`: it grows when it eats, otherwise
/// its tail cell is given up.
pub open spec fn moved(s: SnakeModel, p: Point, eats: bool) -> SnakeModel {
    if eats {
        SnakeModel { body: seq![p] + s.body, cells: s.cells.insert(p), score: s.score + 1, ..s }
    } else {
        SnakeModel {
            body: (seq![p] + s.body).drop_last(),
            cells: s.cells.insert(p).remove(s.body.last()),
            ..s
        }
    }
}

/// The game after snake `i` takes its step (a dead snake stays put).
pub open spec fn step_snake(gm: GameModel, i: int, rules: Rules) -> GameModel {
    let s = gm.snakes[i];
    if s.death is Some {
        gm
    } else {
        match outcome(gm, i, rules) {
            Err(r) => GameModel {
                snakes: gm.snakes.update(i, SnakeModel { death: Some(r), ..s }),
                end: Some(r),
                ..gm
            },
            Ok(p) => if gm.food.contains(p) {
                GameModel { snakes: gm.snakes.update(i, moved(s, p, true)), food: gm.food.remove(p), ..gm }
            } else {
                GameModel { snakes: gm.snakes.update(i, moved(s, p, false)), ..gm }
            },
        }
    }
}

/// The game after the first `n` snakes, in order, took their steps.
pub open spec fn step_all(gm: GameModel, n: int, rules: Rules) -> GameModel
    decreases n,
{
    if n <= 0 {
        gm
    } else {
        step_snake(step_all(gm, n - 1, rules), n - 1, rules)
    }
}

/// A living snake with a pending turn takes it.
pub open spec fn turned_snake(s: SnakeModel) -> SnakeModel {
    if s.death is None && s.pending is Some {
        SnakeModel { direction: s.pending.unwrap(), pending: None, ..s }
    } else {
        s
    }
}

pub open spec fn turned(gm: GameModel) -> GameModel {
    GameModel { snakes: gm.snakes.map_values(|s: SnakeModel| turned_snake(s)), ..gm }
}

/// One tick after the food was placed: pending turns are taken, then every
/// snake moves in order.
pub open spec fn tick(gm: GameModel, rules: Rules) -> GameModel {
    step_all(turned(gm), gm.snakes.len() as int, rules)
}

/// Food placement: nothing when the field already holds `max_food` pieces
/// or the spawn roll failed; otherwise possibly one piece on a cell free of
/// food and of every snake's cells.
pub open spec fn food_spawn_ok(gm: GameModel, food: Set<Point>, rules: Rules, max_food: int, roll: bool) -> bool {
    ||| food == gm.food
    ||| (gm.food.len() < max_food && roll && exists|p: Point|
        #![trigger food.contains(p)]
        {
            &&& food == gm.food.insert(p)
            &&& !gm.food.contains(p)
            &&& p.x < rules.width
            &&& p.y < rules.height
            &&& forall|j: int| 0 <= j < gm.snakes.len() ==> !(#[trigger] gm.snakes[j].cells.contains(p))
        })
}

impl Snake {
    pub open spec fn model(&self) -> SnakeModel {
        SnakeModel {
            body: self.body@,
            cells: self.body_set@,
            direction: self.direction,
            pending: self.pending_direction,
            death: self.death_reason,
            score: self.score as int,
        }
    }
}

/// A player's snake.
#[derive(Debug)]
pub struct SnakeEntry {
    pub player_id: PlayerId,
    pub snake: Snake,
}

/// The whole snake game: the snakes in the order they move, the food, and
/// the field. Two entries never share a player.
#[derive(Debug)]
pub struct GameState {
    pub snakes: Vec<SnakeEntry>,
    pub food_set: PointSet,
    pub field_size: FieldSize,
    pub wall_collision_mode: WallCollisionMode,
    pub max_food_count: usize,
    pub game_end_reason: Option<DeathReason>,
}

impl GameState {
    pub open spec fn model(&self) -> GameModel {
        GameModel {
            snakes: self.snakes@.map_values(|e: SnakeEntry| e.snake.model()),
            food: self.food_set@,
            end: self.game_end_reason,
        }
    }

    pub open spec fn rules(&self) -> Rules {
        Rules {
            width: self.field_size.width as int,
            height: self.field_size.height as int,
            mode: self.wall_collision_mode,
        }
    }

    /// The players, in the order their snakes move.
    pub open spec fn ids(&self) -> Seq<Seq<char>> {
        self.snakes@.map_values(|e: SnakeEntry| e.player_id@)
    }

    /// Field not empty, positions below `usize::MAX`, players unique,
    /// bodies not empty.
    pub open spec fn wf(&self) -> bool {
        &&& 1 <= self.field_size.width < usize::MAX
        &&& 1 <= self.field_size.height < usize::MAX
        &&& self.food_set.wf()
        &&& forall|i: int, j: int|
            0 <= i < j < self.snakes@.len() ==> self.snakes@[i].player_id@ != self.snakes@[j].player_id@
        &&& forall|i: int| 0 <= i < self.snakes@.len() ==> (#[trigger] self.snakes@[i]).snake.wf()
        &&& forall|i: int, k: int|
            0 <= i < self.snakes@.len() && 0 <= k < self.snakes@[i].snake.body@.len() ==> {
                let p = #[trigger] self.snakes@[i].snake.body@[k];
                p.x < usize::MAX && p.y < usize::MAX
            }
    }

    /// A game on the given field with no snakes and no food.
    pub fn new(field_size: FieldSize, wall_collision_mode: WallCollisionMode, max_food_count: usize) -> (r: Self)
        ensures
            r.snakes@.len() == 0,
            r.food_set@ == Set::<Point>::empty(),
            r.field_size == field_size,
            r.wall_collision_mode == wall_collision_mode,
            r.max_food_count == max_food_count,
            r.game_end_reason is None,
            1 <= field_size.width < usize::MAX && 1 <= field_size.height < usize::MAX ==> r.wf(),
    {
        Self {
            snakes: Vec::new(),
            food_set: PointSet::new(),
            field_size,
            wall_collision_mode,
            max_food_count,
            game_end_reason: None,
        }
    }

    /// `value + 1`, or 0 when that reaches `max`.
    pub fn wrapping_inc(value: usize, max: usize) -> (r: usize)
        requires
            value < usize::MAX,
        ensures
            r == inc_wrap(value as int, max as int),
    {
        if value + 1 >= max {
            0
        } else {
            value + 1
        }
    }

    /// `value - 1`, or `max - 1` when `value` is 0.
    pub fn wrapping_dec(value: usize, max: usize) -> (r: usize)
        requires
            value == 0 ==> max >= 1,
        ensures
            r == dec_wrap(value as int, max as int),
    {
        if value == 0 {
            max - 1
        } else {
            value - 1
        }
    }

    /// The position of `player_id` in the moving order.
    pub(crate) fn find(&self, player_id: &PlayerId) -> (r: Option<usize>)
        ensures
            r matches Some(i) ==> i < self.snakes@.len() && self.snakes@[i as int].player_id@ == player_id@,
            r is None ==> forall|i: int| 0 <= i < self.snakes@.len() ==> self.snakes@[i].player_id@ != player_id@,
    {
        let mut i: usize = 0;
        while i < self.snakes.len()
            invariant
                0 <= i <= self.snakes@.len(),
                forall|k: int| 0 <= k < i ==> self.snakes@[k].player_id@ != player_id@,
            decreases self.snakes@.len() - i,
        {
            if self.snakes[i].player_id.same_as(player_id) {
                return Some(i);
            }
            i = i + 1;
        }
        None
    }
}

/// The game after the snake of player `id` queued a turn to `d`: only a
/// living snake takes it, and never one that reverses its direction.
pub open spec fn turn_model(gm: GameModel, ids: Seq<Seq<char>>, id: Seq<char>, d: Direction) -> GameModel {
    GameModel {
        snakes: Seq::new(
            gm.snakes.len(),
            |i: int|
                {
                    let s = gm.snakes[i];
                    if ids[i] == id && s.death is None && !opposite(d, s.direction) {
                        SnakeModel { pending: Some(d), ..s }
                    } else {
                        s
                    }
                },
        ),
        ..gm
    }
}

/// The game after the snake of player `id` was killed for `reason`, which
/// then ends the game; unchanged when that player has no living snake.
pub open spec fn kill_model(gm: GameModel, ids: Seq<Seq<char>>, id: Seq<char>, reason: DeathReason) -> GameModel {
    if exists|i: int| 0 <= i < gm.snakes.len() && ids[i] == id && (#[trigger] gm.snakes[i]).death is None {
        GameModel {
            snakes: Seq::new(
                gm.snakes.len(),
                |i: int|
                    if ids[i] == id {
                        SnakeModel { death: Some(reason), ..gm.snakes[i] }
                    } else {
                        gm.snakes[i]
                    },
            ),
            end: Some(reason),
            ..gm
        }
    } else {
        gm
    }
}

/// The snake `Snake::new` builds, as plain values.
pub open spec fn fresh_snake(start: Point, d: Direction, width: int, height: int) -> SnakeModel {
    let body = seq![
        start,
        next_segment(start, d, width, height),
        next_segment(next_segment(start, d, width, height), d, width, height),
    ];
    SnakeModel { body, cells: body.to_set(), direction: d, pending: None, death: None, score: 0 }
}

impl GameState {
    /// Gives `player_id` a new snake at `start_pos` heading `direction`,
    /// replacing the snake the player had.
    pub fn add_snake(&mut self, player_id: PlayerId, start_pos: Point, direction: Direction)
        requires
            old(self).wf(),
            old(self).field_size.width <= 0x3fff_ffff,
            old(self).field_size.height <= 0x3fff_ffff,
            start_pos.x + old(self).field_size.width + 1 <= i32::MAX,
            start_pos.y + old(self).field_size.height + 1 <= i32::MAX,
        ensures
            final(self).wf(),
            final(self).food_set == old(self).food_set,
            final(self).field_size == old(self).field_size,
            final(self).wall_collision_mode == old(self).wall_collision_mode,
            final(self).max_food_count == old(self).max_food_count,
            final(self).game_end_reason == old(self).game_end_reason,
            old(self).ids().contains(player_id@) ==> {
                &&& final(self).ids() == old(self).ids()
                &&& forall|i: int|
                    0 <= i < old(self).snakes@.len() ==> #[trigger] final(self).model().snakes[i] == if old(
                        self,
                    ).ids()[i] == player_id@ {
                        fresh_snake(start_pos, direction, old(self).rules().width, old(self).rules().height)
                    } else {
                        old(self).model().snakes[i]
                    }
            },
            !old(self).ids().contains(player_id@) ==> {
                &&& final(self).ids() == old(self).ids().push(player_id@)
                &&& final(self).model().snakes == old(self).model().snakes.push(
                    fresh_snake(start_pos, direction, old(self).rules().width, old(self).rules().height),
                )
            },
    {
        let snake = Snake::new(start_pos, direction, &self.field_size);
        assert(snake.model() == fresh_snake(start_pos, direction, self.rules().width, self.rules().height));
        let ghost old_snakes = self.snakes@;
        match self.find(&player_id) {
            Some(i) => {
                assert(old(self).ids()[i as int] == player_id@);
                assert(old(self).ids().contains(player_id@));
                self.snakes.set(i, SnakeEntry { player_id, snake });
                assert(self.ids() =~= old(self).ids());
                proof {
                    assert forall|k: int| 0 <= k < old_snakes.len() && k != i implies old(self).ids()[k]
                        != self.snakes@[i as int].player_id@ by {
                        if k < i {
                            assert(old_snakes[k].player_id@ != old_snakes[i as int].player_id@);
                        } else {
                            assert(old_snakes[i as int].player_id@ != old_snakes[k].player_id@);
                        }
                    }
                }
            },
            None => {
                self.snakes.push(SnakeEntry { player_id, snake });
                assert(self.ids() =~= old(self).ids().push(player_id@));
                assert(self.model().snakes =~= old(self).model().snakes.push(
                    fresh_snake(start_pos, direction, old(self).rules().width, old(self).rules().height),
                ));
                assert(!old(self).ids().contains(player_id@)) by {
                    if old(self).ids().contains(player_id@) {
                        let k = choose|k: int| 0 <= k < old(self).ids().len() && old(self).ids()[k] == player_id@;
                        assert(old_snakes[k].player_id@ == player_id@);
                    }
                }
            },
        }
        proof {
            assert forall|i: int, k: int|
                0 <= i < self.snakes@.len() && 0 <= k < self.snakes@[i].snake.body@.len() implies {
                    let p = #[trigger] self.snakes@[i].snake.body@[k];
                    p.x < usize::MAX && p.y < usize::MAX
                } by {
                if self.snakes@[i].snake.body@ != old_snakes[i].snake.body@ || i >= old_snakes.len() {
                    assert(self.snakes@[i].snake.body@ == snake.body@);
                }
            }
        }
    }
}

impl GameState {
    /// Kills the player's snake for `reason` and records it as the reason
    /// the game ends; nothing happens when the player has no living snake.
    pub fn kill_snake(&mut self, player_id: &PlayerId, reason: DeathReason)
        requires
            old(self).wf(),
        ensures
            final(self).wf(),
            final(self).ids() == old(self).ids(),
            final(self).food_set == old(self).food_set,
            final(self).field_size == old(self).field_size,
            final(self).wall_collision_mode == old(self).wall_collision_mode,
            final(self).max_food_count == old(self).max_food_count,
            (exists|i: int|
                0 <= i < old(self).snakes@.len() && old(self).ids()[i] == player_id@
                    && old(self).model().snakes[i].death is None) ==> {
                &&& final(self).game_end_reason == Some(reason)
                &&& forall|i: int|
                    0 <= i < old(self).snakes@.len() ==> #[trigger] final(self).model().snakes[i] == if old(
                        self,
                    ).ids()[i] == player_id@ {
                        SnakeModel { death: Some(reason), ..old(self).model().snakes[i] }
                    } else {
                        old(self).model().snakes[i]
                    }
            },
            !(exists|i: int|
                0 <= i < old(self).snakes@.len() && old(self).ids()[i] == player_id@
                    && old(self).model().snakes[i].death is None) ==> final(self).model() == old(self).model(),
            final(self).model() == kill_model(old(self).model(), old(self).ids(), player_id@, reason),
    {
        if let Some(i) = self.find(player_id) {
            if self.snakes[i].snake.is_alive() {
                self.snakes[i].snake.death_reason = Some(reason);
                self.game_end_reason = Some(reason);
                proof {
                    assert(self.ids() =~= old(self).ids());
                    assert forall|k: int| 0 <= k < old(self).snakes@.len() && k != i implies old(self).ids()[k]
                        != player_id@ by {
                        if k < i {
                            assert(old(self).snakes@[k].player_id@ != old(self).snakes@[i as int].player_id@);
                        } else {
                            assert(old(self).snakes@[i as int].player_id@ != old(self).snakes@[k].player_id@);
                        }
                    }
                    assert(self.snakes@[i as int].snake.body@ == old(self).snakes@[i as int].snake.body@);
                    assert(old(self).ids()[i as int] == player_id@ && old(self).model().snakes[i as int].death is None);
                    assert(self.model().snakes =~= kill_model(old(self).model(), old(self).ids(), player_id@, reason).snakes);
                }
                return;
            }
            proof {
                assert forall|k: int| 0 <= k < old(self).snakes@.len() && old(self).ids()[k] == player_id@
                    implies old(self).model().snakes[k].death is Some by {
                    if k != i {
                        if k < i {
                            assert(old(self).snakes@[k].player_id@ != old(self).snakes@[i as int].player_id@);
                        } else {
                            assert(old(self).snakes@[i as int].player_id@ != old(self).snakes@[k].player_id@);
                        }
                    }
                }
            }
        }
        assert(self.model() =~= old(self).model());
        assert(self.model() == kill_model(old(self).model(), old(self).ids(), player_id@, reason));
    }

    /// Queues a turn for the player's living snake, unless it would reverse
    /// the snake's current direction.
    pub fn set_snake_direction(&mut self, player_id: &PlayerId, direction: Direction)
        requires
            old(self).wf(),
        ensures
            final(self).wf(),
            final(self).ids() == old(self).ids(),
            final(self).food_set == old(self).food_set,
            final(self).field_size == old(self).field_size,
            final(self).wall_collision_mode == old(self).wall_collision_mode,
            final(self).max_food_count == old(self).max_food_count,
            final(self).game_end_reason == old(self).game_end_reason,
            forall|i: int|
                0 <= i < old(self).snakes@.len() ==> #[trigger] final(self).model().snakes[i] == {
                    let s = old(self).model().snakes[i];
                    if old(self).ids()[i] == player_id@ && s.death is None && !opposite(direction, s.direction) {
                        SnakeModel { pending: Some(direction), ..s }
                    } else {
                        s
                    }
                },
            final(self).model().snakes.len() == old(self).model().snakes.len(),
            final(self).model() == turn_model(old(self).model(), old(self).ids(), player_id@, direction),
    {
        if let Some(i) = self.find(player_id) {
            if self.snakes[i].snake.is_alive() && !direction.is_opposite(&self.snakes[i].snake.direction) {
                self.snakes[i].snake.pending_direction = Some(direction);
                proof {
                    assert(self.ids() =~= old(self).ids());
                    assert(self.snakes@[i as int].snake.body@ == old(self).snakes@[i as int].snake.body@);
                }
            }
            proof {
                assert forall|k: int| 0 <= k < old(self).snakes@.len() && k != i implies old(self).ids()[k]
                    != player_id@ by {
                    if k < i {
                        assert(old(self).snakes@[k].player_id@ != old(self).snakes@[i as int].player_id@);
                    } else {
                        assert(old(self).snakes@[i as int].player_id@ != old(self).snakes@[k].player_id@);
                    }
                }
            }
        }
        assert(self.model().snakes =~= turn_model(old(self).model(), old(self).ids(), player_id@, direction).snakes);
    }
}

impl GameState {
    /// Where snake `i` moves this tick, or why it dies.
    fn next_head(&self, i: usize) -> (r: Result<Point, DeathReason>)
        requires
            self.wf(),
            i < self.snakes@.len(),
        ensures
            r == outcome(self.model(), i as int, self.rules()),
    {
        let ghost gm = self.model();
        let snake = &self.snakes[i].snake;
        assert(snake.model() == gm.snakes[i as int]);
        let head = snake.head();
        assert(head == snake.body@[0]);
        assert(head.x < usize::MAX && head.y < usize::MAX);
        let width = self.field_size.width;
        let height = self.field_size.height;
        let next_head = match self.wall_collision_mode {
            WallCollisionMode::Death => match snake.direction {
                Direction::Up => {
                    if head.y == 0 {
                        return Err(DeathReason::WallCollision);
                    }
                    Point::new(head.x, head.y - 1)
                },
                Direction::Down => {
                    if head.y >= height - 1 {
                        return Err(DeathReason::WallCollision);
                    }
                    Point::new(head.x, head.y + 1)
                },
                Direction::Left => {
                    if head.x == 0 {
                        return Err(DeathReason::WallCollision);
                    }
                    Point::new(head.x - 1, head.y)
                },
                Direction::Right => {
                    if head.x >= width - 1 {
                        return Err(DeathReason::WallCollision);
                    }
                    Point::new(head.x + 1, head.y)
                },
            },
            WallCollisionMode::WrapAround => match snake.direction {
                Direction::Up => Point::new(head.x, Self::wrapping_dec(head.y, height)),
                Direction::Down => Point::new(head.x, Self::wrapping_inc(head.y, height)),
                Direction::Left => Point::new(Self::wrapping_dec(head.x, width), head.y),
                Direction::Right => Point::new(Self::wrapping_inc(head.x, width), head.y),
            },
        };
        assert(advance(gm.snakes[i as int].body[0], gm.snakes[i as int].direction, self.rules()) == Some(next_head));

        if snake.body_set.contains(&next_head) && next_head != snake.tail() {
            return Err(DeathReason::SelfCollision);
        }

        let player_id = &self.snakes[i].player_id;
        let mut j: usize = 0;
        while j < self.snakes.len()
            invariant
                self.wf(),
                gm == self.model(),
                i < self.snakes@.len(),
                player_id@ == self.snakes@[i as int].player_id@,
                advance(gm.snakes[i as int].body[0], gm.snakes[i as int].direction, self.rules()) == Some(next_head),
                !(gm.snakes[i as int].cells.contains(next_head) && next_head != gm.snakes[i as int].body.last()),
                0 <= j <= self.snakes@.len(),
                forall|k: int|
                    0 <= k < j && k != i ==> !(gm.snakes[k].death is None && #[trigger] gm.snakes[k].cells.contains(
                        next_head,
                    )),
            decreases self.snakes@.len() - j,
        {
            let other = &self.snakes[j];
            assert(other.snake.model() == gm.snakes[j as int]);
            if other.player_id.same_as(player_id) {
                assert(j == i) by {
                    if j < i {
                        assert(self.snakes@[j as int].player_id@ != self.snakes@[i as int].player_id@);
                    } else if j > i {
                        assert(self.snakes@[i as int].player_id@ != self.snakes@[j as int].player_id@);
                    }
                }
                j = j + 1;
                continue;
            }
            if !other.snake.is_alive() {
                j = j + 1;
                continue;
            }
            if other.snake.body_set.contains(&next_head) {
                assert(other_snake_at(gm, i as int, next_head)) by {
                    assert(gm.snakes[j as int].cells.contains(next_head));
                }
                return Err(DeathReason::OtherSnakeCollision);
            }
            j = j + 1;
        }
        assert(!other_snake_at(gm, i as int, next_head));
        Ok(next_head)
    }
}

impl GameState {
    /// Moves snake `i` one cell when nothing kills it, eating food there;
    /// reports the cause of death otherwise, changing nothing.
    fn try_move_snake(&mut self, i: usize) -> (r: Result<(), DeathReason>)
        requires
            old(self).wf(),
            i < old(self).snakes@.len(),
            old(self).snakes@[i as int].snake.score < u32::MAX,
            old(self).snakes@[i as int].snake.death_reason is None,
        ensures
            final(self).wf(),
            final(self).ids() == old(self).ids(),
            final(self).field_size == old(self).field_size,
            final(self).wall_collision_mode == old(self).wall_collision_mode,
            final(self).max_food_count == old(self).max_food_count,
            r matches Err(e) ==> outcome(old(self).model(), i as int, old(self).rules()) == Err::<Point, DeathReason>(e)
                && *final(self) == *old(self),
            r is Ok ==> outcome(old(self).model(), i as int, old(self).rules()) is Ok && final(self).model()
                == step_snake(old(self).model(), i as int, old(self).rules()),
    {
        let next_head = match self.next_head(i) {
            Ok(p) => p,
            Err(e) => {
                return Err(e);
            },
        };
        let ghost gm = self.model();
        let ghost s = gm.snakes[i as int];
        let ghost old_snakes = self.snakes@;
        proof {
            assert(old_snakes[i as int].snake.model() == s);
        }
        self.snakes[i].snake.body.push_front(next_head);
        self.snakes[i].snake.body_set.insert(next_head);

        if self.food_set.contains(&next_head) {
            self.food_set.remove(&next_head);
            self.snakes[i].snake.score = self.snakes[i].snake.score + 1;
            proof {
                assert(self.snakes@[i as int].snake.model() == moved(s, next_head, true));
                assert(self.model().snakes =~= gm.snakes.update(i as int, moved(s, next_head, true)));
            }
        } else {
            let tail = self.snakes[i].snake.body.pop_back();
            match tail {
                Some(t) => {
                    self.snakes[i].snake.body_set.remove(&t);
                    proof {
                        assert(t == s.body.last());
                        assert(self.snakes@[i as int].snake.body@ =~= (seq![next_head] + s.body).drop_last());
                        assert(self.snakes@[i as int].snake.model() == moved(s, next_head, false));
                        assert(self.model().snakes =~= gm.snakes.update(i as int, moved(s, next_head, false)));
                    }
                },
                None => {},
            }
        }
        proof {
            assert(self.ids() =~= old(self).ids());
            assert forall|a: int, k: int|
                0 <= a < self.snakes@.len() && 0 <= k < self.snakes@[a].snake.body@.len() implies {
                    let p = #[trigger] self.snakes@[a].snake.body@[k];
                    p.x < usize::MAX && p.y < usize::MAX
                } by {
                if a == i {
                    if k > 0 {
                        assert(self.snakes@[a].snake.body@[k] == old_snakes[a].snake.body@[k - 1]);
                    }
                } else {
                    assert(self.snakes@[a] == old_snakes[a]);
                }
            }
            assert forall|a: int| 0 <= a < self.snakes@.len() implies (#[trigger] self.snakes@[a]).snake.wf() by {
                if a != i {
                    assert(self.snakes@[a] == old_snakes[a]);
                }
            }
        }
        Ok(())
    }
}

/// Every snake's score can still grow by one.
pub open spec fn scores_below_max(gm: GameModel) -> bool {
    forall|i: int| 0 <= i < gm.snakes.len() ==> #[trigger] gm.snakes[i].score < u32::MAX
}

impl GameState {
    /// When the field holds fewer than `max_food_count` pieces and the
    /// spawn roll succeeded, tries up to 100 random cells and puts food on
    /// the first one free of food and snakes.
    fn try_spawn_food(&mut self, spawn_roll: bool)
        requires
            old(self).wf(),
        ensures
            final(self).wf(),
            final(self).snakes == old(self).snakes,
            final(self).field_size == old(self).field_size,
            final(self).wall_collision_mode == old(self).wall_collision_mode,
            final(self).max_food_count == old(self).max_food_count,
            final(self).game_end_reason == old(self).game_end_reason,
            food_spawn_ok(old(self).model(), final(self).food_set@, old(self).rules(), old(self).max_food_count as int, spawn_roll),
    {
        proof {
            self.food_set.lemma_len();
        }
        if self.food_set.len() >= self.max_food_count {
            return;
        }
        if !spawn_roll {
            return;
        }
        let ghost gm = self.model();
        let mut attempt: usize = 0;
        while attempt < 100
            invariant
                self.wf(),
                *self == *old(self),
                gm == self.model(),
                gm.food.len() < self.max_food_count,
                spawn_roll,
            decreases 100 - attempt,
        {
            let x = thread_rng_below(self.field_size.width);
            let y = thread_rng_below(self.field_size.height);
            let pos = Point::new(x, y);

            if self.food_set.contains(&pos) {
                attempt = attempt + 1;
                continue;
            }

            let mut occupied = false;
            let mut j: usize = 0;
            while j < self.snakes.len() && !occupied
                invariant
                    self.wf(),
                    gm == self.model(),
                    0 <= j <= self.snakes@.len(),
                    forall|k: int| 0 <= k < j ==> !(#[trigger] gm.snakes[k].cells.contains(pos)),
                decreases self.snakes@.len() - j + if occupied { 0int } else { 1int },
            {
                assert(self.snakes@[j as int].snake.model() == gm.snakes[j as int]);
                if self.snakes[j].snake.body_set.contains(&pos) {
                    occupied = true;
                } else {
                    j = j + 1;
                }
            }

            if !occupied {
                self.food_set.insert(pos);
                assert(self.food_set@.contains(pos));
                assert(forall|k: int| 0 <= k < gm.snakes.len() ==> !(#[trigger] gm.snakes[k].cells.contains(pos)));
                return;
            }
            attempt = attempt + 1;
        }
    }

    /// Advances the game by one tick. Food is placed first (`spawn_roll`
    /// says whether the random draw fell below the spawn probability);
    /// then every living snake takes its pending turn; then the snakes move
    /// in order, each dying on a wall, on its own body or on another living
    /// snake, and growing when it eats.
    pub fn update(&mut self, spawn_roll: bool)
        requires
            old(self).wf(),
            scores_below_max(old(self).model()),
        ensures
            final(self).wf(),
            final(self).ids() == old(self).ids(),
            final(self).field_size == old(self).field_size,
            final(self).wall_collision_mode == old(self).wall_collision_mode,
            final(self).max_food_count == old(self).max_food_count,
            exists|food: Set<Point>|
                #![trigger food_spawn_ok(old(self).model(), food, old(self).rules(), old(self).max_food_count as int, spawn_roll)]
                food_spawn_ok(old(self).model(), food, old(self).rules(), old(self).max_food_count as int, spawn_roll)
                    && final(self).model() == tick(GameModel { food, ..old(self).model() }, old(self).rules()),
    {
        self.try_spawn_food(spawn_roll);
        let ghost gm0 = self.model();
        let ghost rules = self.rules();
        assert(gm0 == GameModel { food: self.food_set@, ..old(self).model() });

        let n = self.snakes.len();
        let mut i: usize = 0;
        while i < n
            invariant
                self.wf(),
                self.ids() == old(self).ids(),
                self.field_size == old(self).field_size,
                self.wall_collision_mode == old(self).wall_collision_mode,
                self.max_food_count == old(self).max_food_count,
                rules == self.rules(),
                n == self.snakes@.len(),
                n == gm0.snakes.len(),
                0 <= i <= n,
                self.model().food == gm0.food,
                self.model().end == gm0.end,
                forall|k: int| 0 <= k < n ==> #[trigger] self.model().snakes[k] == if k < i {
                    turned_snake(gm0.snakes[k])
                } else {
                    gm0.snakes[k]
                },
            decreases n - i,
        {
            if self.snakes[i].snake.is_alive() {
                if let Some(new_direction) = self.snakes[i].snake.pending_direction {
                    let ghost before = self.snakes@;
                    self.snakes[i].snake.direction = new_direction;
                    self.snakes[i].snake.pending_direction = None;
                    proof {
                        assert(self.ids() =~= old(self).ids());
                        assert forall|a: int| 0 <= a < n && a != i implies self.snakes@[a] == before[a] by {}
                        assert(self.snakes@[i as int].snake.body@ == before[i as int].snake.body@);
                    }
                }
            }
            i = i + 1;
        }
        let ghost gm1 = self.model();
        assert(gm1 == turned(gm0)) by {
            assert(gm1.snakes =~= turned(gm0).snakes);
        }

        let mut i: usize = 0;
        while i < n
            invariant
                self.wf(),
                self.ids() == old(self).ids(),
                self.field_size == old(self).field_size,
                self.wall_collision_mode == old(self).wall_collision_mode,
                self.max_food_count == old(self).max_food_count,
                rules == self.rules(),
                n == self.snakes@.len(),
                n == gm1.snakes.len(),
                0 <= i <= n,
                self.model() == step_all(gm1, i as int, rules),
                forall|k: int| i <= k < n ==> #[trigger] self.model().snakes[k] == gm1.snakes[k],
                scores_below_max(gm1),
            decreases n - i,
        {
            proof {
                lemma_step_all_keeps_later(gm1, i as int, rules);
                assert(self.model().snakes[i as int] == gm1.snakes[i as int]);
                assert(self.snakes@[i as int].snake.model() == self.model().snakes[i as int]);
            }
            if self.snakes[i].snake.is_alive() {
                match self.try_move_snake(i) {
                    Ok(()) => {},
                    Err(reason) => {
                        let ghost before = self.snakes@;
                        self.snakes[i].snake.death_reason = Some(reason);
                        self.game_end_reason = Some(reason);
                        proof {
                            assert(self.ids() =~= old(self).ids());
                            assert(self.snakes@[i as int].snake.body@ == before[i as int].snake.body@);
                            assert forall|a: int| 0 <= a < n && a != i implies self.snakes@[a] == before[a] by {}
                            assert(self.model().snakes =~= step_snake(step_all(gm1, i as int, rules), i as int, rules).snakes);
                        }
                    },
                }
            }
            proof {
                lemma_step_all_keeps_later(gm1, i + 1, rules);
            }
            i = i + 1;
        }
        assert(self.model() == tick(gm0, rules));
    }
}

/// Number of living snakes among the first `n`.
pub open spec fn living_count(snakes: Seq<SnakeModel>, n: int) -> int
    decreases n,
{
    if n <= 0 {
        0
    } else {
        living_count(snakes, n - 1) + if snakes[n - 1].death is None {
            1int
        } else {
            0
        }
    }
}

/// A round is over when a lone player's snake has died, or when at most
/// one snake of several is left alive.
pub open spec fn round_over(total_players: int, alive: int) -> bool {
    if total_players == 1 {
        alive == 0
    } else {
        alive <= 1
    }
}

proof fn lemma_living_count_bounds(snakes: Seq<SnakeModel>, n: int)
    requires
        0 <= n,
    ensures
        0 <= living_count(snakes, n) <= n,
    decreases n,
{
    if n > 0 {
        lemma_living_count_bounds(snakes, n - 1);
    }
}

impl GameState {
    /// The number of snakes still alive.
    pub fn alive_count(&self) -> (r: usize)
        ensures
            r == living_count(self.model().snakes, self.model().snakes.len() as int),
    {
        let mut count: usize = 0;
        let mut i: usize = 0;
        while i < self.snakes.len()
            invariant
                0 <= i <= self.snakes@.len(),
                count == living_count(self.model().snakes, i as int),
            decreases self.snakes@.len() - i,
        {
            proof {
                lemma_living_count_bounds(self.model().snakes, i as int);
            }
            if self.snakes[i].snake.is_alive() {
                count = count + 1;
            }
            i = i + 1;
        }
        count
    }

    /// Whether the round of `total_players` players is over.
    pub fn is_round_over(&self, total_players: usize) -> (r: bool)
        ensures
            r == round_over(total_players as int, living_count(self.model().snakes, self.model().snakes.len() as int)),
    {
        let alive = self.alive_count();
        if total_players == 1 {
            alive == 0
        } else {
            alive <= 1
        }
    }
}

/// Steps of the first `n` snakes leave the later snakes as they were.
proof fn lemma_step_all_keeps_later(gm: GameModel, n: int, rules: Rules)
    requires
        0 <= n <= gm.snakes.len(),
    ensures
        step_all(gm, n, rules).snakes.len() == gm.snakes.len(),
        forall|k: int| n <= k < gm.snakes.len() ==> #[trigger] step_all(gm, n, rules).snakes[k] == gm.snakes[k],
    decreases n,
{
    if n > 0 {
        lemma_step_all_keeps_later(gm, n - 1, rules);
    }
}

/// A step of one snake changes no other snake.
proof fn lemma_step_snake_frame(gm: GameModel, j: int, rules: Rules, i: int)
    requires
        0 <= j < gm.snakes.len(),
        0 <= i < gm.snakes.len(),
        i != j,
    ensures
        step_snake(gm, j, rules).snakes.len() == gm.snakes.len(),
        step_snake(gm, j, rules).snakes[i] == gm.snakes[i],
{
}

/// Once snake `k` has taken its step, the later steps leave it alone.
proof fn lemma_step_all_keeps_earlier(gm: GameModel, n: int, rules: Rules, k: int)
    requires
        0 <= k < n <= gm.snakes.len(),
    ensures
        step_all(gm, n, rules).snakes[k] == step_all(gm, k + 1, rules).snakes[k],
    decreases n,
{
    if n > k + 1 {
        lemma_step_all_keeps_earlier(gm, n - 1, rules, k);
        lemma_step_all_keeps_later(gm, n - 1, rules);
        lemma_step_snake_frame(step_all(gm, n - 1, rules), n - 1, rules, k);
    }
}

/// A dead snake stays as it is through a tick: it neither moves, turns,
/// nor scores.
pub proof fn lemma_dead_snake_stays(gm: GameModel, rules: Rules, i: int)
    requires
        0 <= i < gm.snakes.len(),
        gm.snakes[i].death is Some,
    ensures
        tick(gm, rules).snakes.len() == gm.snakes.len(),
        tick(gm, rules).snakes[i] == gm.snakes[i],
{
    let t = turned(gm);
    let n = gm.snakes.len() as int;
    assert(t.snakes[i] == gm.snakes[i]);
    lemma_step_all_keeps_later(t, i, rules);
    lemma_step_all_keeps_later(t, n, rules);
    lemma_step_all_keeps_earlier(t, n, rules, i);
}

/// In a tick every snake grows by exactly the points it scores, and by
/// at most one cell: a snake grows only when it eats.
pub proof fn lemma_growth_matches_score(gm: GameModel, rules: Rules, i: int)
    requires
        0 <= i < gm.snakes.len(),
    ensures
        tick(gm, rules).snakes.len() == gm.snakes.len(),
        ({
            let before = gm.snakes[i];
            let after = tick(gm, rules).snakes[i];
            &&& after.body.len() - before.body.len() == after.score - before.score
            &&& 0 <= after.score - before.score <= 1
        }),
{
    let t = turned(gm);
    let n = gm.snakes.len() as int;
    assert(t.snakes[i].body == gm.snakes[i].body && t.snakes[i].score == gm.snakes[i].score);
    lemma_step_all_keeps_later(t, i, rules);
    lemma_step_all_keeps_later(t, n, rules);
    lemma_step_all_keeps_earlier(t, n, rules, i);
    let pre = step_all(t, i, rules);
    assert(pre.snakes[i] == t.snakes[i]);
    assert(step_all(t, i + 1, rules) == step_snake(pre, i, rules));
}

/// Only living snakes block: when the cell ahead of snake `i` is inside
/// the field (or the field wraps) and is none of its own cells but its
/// tail, the snake moves there as long as every other snake holding that
/// cell is dead; a living other snake holding it kills the snake by
/// collision.
pub proof fn lemma_only_living_snakes_block(gm: GameModel, rules: Rules, i: int, p: Point)
    requires
        0 <= i < gm.snakes.len(),
        advance(gm.snakes[i].body[0], gm.snakes[i].direction, rules) == Some(p),
        !gm.snakes[i].cells.contains(p) || p == gm.snakes[i].body.last(),
    ensures
        (forall|j: int|
            0 <= j < gm.snakes.len() && j != i && #[trigger] gm.snakes[j].cells.contains(p) ==> gm.snakes[j].death
                is Some) ==> outcome(gm, i, rules) == Ok::<Point, DeathReason>(p),
        (exists|j: int|
            0 <= j < gm.snakes.len() && j != i && gm.snakes[j].death is None && #[trigger] gm.snakes[j].cells.contains(
                p,
            )) ==> outcome(gm, i, rules) == Err::<Point, DeathReason>(DeathReason::OtherSnakeCollision),
{
}

/// A snake runs into its own body, but not into the cell its tail is
/// leaving: when the cell ahead is one of its cells other than the tail,
/// it dies by self collision, whatever the other snakes do.
pub proof fn lemma_own_body_blocks(gm: GameModel, rules: Rules, i: int, p: Point)
    requires
        0 <= i < gm.snakes.len(),
        advance(gm.snakes[i].body[0], gm.snakes[i].direction, rules) == Some(p),
        gm.snakes[i].cells.contains(p),
        p != gm.snakes[i].body.last(),
    ensures
        outcome(gm, i, rules) == Err::<Point, DeathReason>(DeathReason::SelfCollision),
{
}

/// A step moves a head one cell. With deadly walls it stays on the field,
/// one cell away, and is refused exactly at the edge it heads for; on a
/// wrapping field it always lands on the field, and stepping back the
/// opposite way returns to the start.
pub proof fn lemma_advance_steps_one_cell(h: Point, d: Direction, e: Direction, rules: Rules)
    requires
        1 <= rules.width <= usize::MAX,
        1 <= rules.height <= usize::MAX,
        h.x < rules.width,
        h.y < rules.height,
    ensures
        rules.mode == WallCollisionMode::Death ==> match advance(h, d, rules) {
            Some(q) => q.x < rules.width && q.y < rules.height && (if q.x >= h.x {
                q.x - h.x
            } else {
                h.x - q.x
            }) + (if q.y >= h.y {
                q.y - h.y
            } else {
                h.y - q.y
            }) == 1,
            None => match d {
                Direction::Up => h.y == 0,
                Direction::Down => h.y == rules.height - 1,
                Direction::Left => h.x == 0,
                Direction::Right => h.x == rules.width - 1,
            },
        },
        rules.mode == WallCollisionMode::WrapAround ==> (advance(h, d, rules) matches Some(q) && q.x < rules.width
            && q.y < rules.height && (opposite(d, e) ==> advance(q, e, rules) == Some(h))),
{
}

} // verus!
