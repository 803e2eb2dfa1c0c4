use vstd::prelude::*;
use crate::identifiers::PlayerId;
use crate::session_rng::thread_rng_below;
use super::game::{GameState, Direction, Point, WallCollisionMode, opposite, advance, Rules};

verus! {

/// Kind of snake bot.
#[derive(Clone, Copy, Debug, PartialEq, Eq, Structural)]
pub enum SnakeBotType {
    Unspecified,
    Efficient,
    Random,
}

/// Whether dead snakes stay on the field as obstacles.
#[derive(Clone, Copy, Debug, PartialEq, Eq, Structural)]
pub enum DeadSnakeBehavior {
    Disappear,
    StayOnField,
}

/// Largest coordinate the bots handle; distances then stay exact.
pub const BOT_COORD_LIMIT: usize = 1_000_000;

/// The order in which the bot considers directions.
pub open spec fn dir_rank(d: Direction) -> int {
    match d {
        Direction::Up => 0,
        Direction::Down => 1,
        Direction::Left => 2,
        Direction::Right => 3,
    }
}

pub open spec fn abs_diff(a: int, b: int) -> int {
    if a >= b {
        a - b
    } else {
        b - a
    }
}

pub open spec fn min_int(a: int, b: int) -> int {
    if a <= b {
        a
    } else {
        b
    }
}

/// Manhattan distance, going around the edges when the field wraps.
pub open spec fn distance(a: Point, b: Point, rules: Rules) -> int {
    let dx = abs_diff(a.x as int, b.x as int);
    let dy = abs_diff(a.y as int, b.y as int);
    match rules.mode {
        WallCollisionMode::Death => dx + dy,
        WallCollisionMode::WrapAround => min_int(dx, rules.width - dx) + min_int(dy, rules.height - dy),
    }
}

/// `pos` is not blocked for snake `i`: its own body blocks except for its
/// tail cell (and not at all once it is dead); another snake's cells block
/// while it lives, or always when dead snakes stay on the field.
pub open spec fn safe_for(state: GameState, i: int, pos: Point, behavior: DeadSnakeBehavior) -> bool {
    forall|j: int|
        0 <= j < state.snakes@.len() ==> {
            let s = #[trigger] state.snakes@[j].snake;
            let checked = match behavior {
                DeadSnakeBehavior::Disappear => s.alive(),
                DeadSnakeBehavior::StayOnField => true,
            };
            checked ==> if j == i {
                !(s.alive() && s.body_set@.contains(pos) && pos != s.spec_tail())
            } else {
                !s.body_set@.contains(pos)
            }
        }
}

/// Direction `d` is allowed for snake `i` (not a reversal) and leads to a
/// safe cell.
pub open spec fn safe_dir(state: GameState, i: int, d: Direction, behavior: DeadSnakeBehavior) -> bool {
    let s = state.snakes@[i].snake;
    &&& !opposite(d, s.direction)
    &&& advance(s.spec_head(), d, state.rules()) matches Some(p) && safe_for(state, i, p, behavior)
}

pub open spec fn any_safe_dir(state: GameState, i: int, behavior: DeadSnakeBehavior) -> bool {
    safe_dir(state, i, Direction::Up, behavior) || safe_dir(state, i, Direction::Down, behavior)
        || safe_dir(state, i, Direction::Left, behavior) || safe_dir(state, i, Direction::Right, behavior)
}

/// The distance from the cell `d` leads to, to `target`.
pub open spec fn dir_distance(state: GameState, i: int, d: Direction, target: Point) -> int {
    distance(advance(state.snakes@[i].snake.spec_head(), d, state.rules()).unwrap(), target, state.rules())
}

/// `d` is the first safe direction, in the bot's order, that brings the
/// head closest to `target`.
pub open spec fn best_dir_toward(state: GameState, i: int, d: Direction, target: Point, behavior: DeadSnakeBehavior) -> bool {
    &&& safe_dir(state, i, d, behavior)
    &&& forall|e: Direction|
        #![trigger safe_dir(state, i, e, behavior)]
        safe_dir(state, i, e, behavior) ==> dir_distance(state, i, d, target) <= dir_distance(state, i, e, target)
            && (dir_rank(e) < dir_rank(d) ==> dir_distance(state, i, d, target) < dir_distance(state, i, e, target))
}

/// Coordinates within the bots' limit for every food piece and head.
pub open spec fn bot_bounds(state: GameState) -> bool {
    &&& state.field_size.width <= BOT_COORD_LIMIT
    &&& state.field_size.height <= BOT_COORD_LIMIT
    &&& forall|p: Point| state.food_set@.contains(p) ==> p.x <= BOT_COORD_LIMIT && p.y <= BOT_COORD_LIMIT
    &&& forall|i: int| 0 <= i < state.snakes@.len() ==> {
        let h = (#[trigger] state.snakes@[i]).snake.spec_head();
        h.x <= BOT_COORD_LIMIT && h.y <= BOT_COORD_LIMIT
    }
}

/// Index of the player's snake when it is alive.
pub open spec fn living_snake(state: GameState, player: Seq<char>, i: int) -> bool {
    0 <= i < state.snakes@.len() && state.ids()[i] == player && state.snakes@[i].snake.alive()
}

pub struct BotController;

impl BotController {
    /// The direction a bot of the given kind steers the player's snake;
    /// `None` when the player has no living snake, when the bot kind is
    /// unspecified, or, for the efficient bot, when there is no food.
    pub fn calculate_move(
        bot_type: SnakeBotType,
        player_id: &PlayerId,
        state: &GameState,
        dead_snake_behavior: DeadSnakeBehavior,
    ) -> (r: Option<Direction>)
        requires
            state.wf(),
            bot_bounds(*state),
        ensures
            bot_type == SnakeBotType::Unspecified ==> r is None,
            bot_type == SnakeBotType::Random ==> (r is Some <==> exists|i: int| living_snake(*state, player_id@, i)),
            bot_type == SnakeBotType::Efficient ==> (r is Some <==> (exists|i: int| living_snake(*state, player_id@, i))
                && state.food_set@.len() > 0),
            r matches Some(d) ==> exists|i: int| #[trigger] living_snake(*state, player_id@, i) && {
                ||| safe_dir(*state, i, d, dead_snake_behavior)
                ||| (!any_safe_dir(*state, i, dead_snake_behavior) && d == state.snakes@[i].snake.direction)
            },
            bot_type == SnakeBotType::Efficient ==> (r matches Some(d) ==> exists|i: int|
                #[trigger] living_snake(*state, player_id@, i) && (any_safe_dir(*state, i, dead_snake_behavior)
                    ==> exists|f: Point| #[trigger] state.food_set@.contains(f) && (forall|g: Point|
                        #[trigger] state.food_set@.contains(g) ==> distance(state.snakes@[i].snake.spec_head(), f, state.rules())
                            <= distance(state.snakes@[i].snake.spec_head(), g, state.rules())) && best_dir_toward(
                        *state,
                        i,
                        d,
                        f,
                        dead_snake_behavior,
                    ))),
    {
        match bot_type {
            SnakeBotType::Efficient => Self::efficient_pathfinding(player_id, state, dead_snake_behavior),
            SnakeBotType::Random => Self::random_valid_move(player_id, state, dead_snake_behavior),
            SnakeBotType::Unspecified => None,
        }
    }

    /// Moves toward the nearest food along the first safe direction that
    /// gets closest to it, or keeps the current direction when no direction
    /// is safe.
    fn efficient_pathfinding(player_id: &PlayerId, state: &GameState, behavior: DeadSnakeBehavior) -> (r: Option<Direction>)
        requires
            state.wf(),
            bot_bounds(*state),
        ensures
            r is Some <==> (exists|i: int| living_snake(*state, player_id@, i)) && state.food_set@.len() > 0,
            r matches Some(d) ==> exists|i: int| #[trigger] living_snake(*state, player_id@, i) && {
                ||| safe_dir(*state, i, d, behavior)
                ||| (!any_safe_dir(*state, i, behavior) && d == state.snakes@[i].snake.direction)
            },
            r matches Some(d) ==> exists|i: int|
                #[trigger] living_snake(*state, player_id@, i) && (any_safe_dir(*state, i, behavior)
                    ==> exists|f: Point| #[trigger] state.food_set@.contains(f) && (forall|g: Point|
                        #[trigger] state.food_set@.contains(g) ==> distance(state.snakes@[i].snake.spec_head(), f, state.rules())
                            <= distance(state.snakes@[i].snake.spec_head(), g, state.rules())) && best_dir_toward(
                        *state,
                        i,
                        d,
                        f,
                        behavior,
                    )),
    {
        let i = match state.find(player_id) {
            Some(i) => i,
            None => {
                proof { lemma_no_living(*state, player_id@); }
                return None;
            },
        };
        proof { lemma_found_index(*state, player_id@, i as int); }
        let snake = &state.snakes[i].snake;
        if !snake.is_alive() {
            return None;
        }
        let head = snake.head();
        let current_direction = snake.direction;

        let nearest_food = match Self::find_nearest_food(head, state) {
            Some(f) => f,
            None => {
                return None;
            },
        };

        let valid_directions = Self::get_valid_directions(current_direction);
        let mut best_dir: Option<Direction> = None;
        let mut best_distance: i64 = i64::MAX;
        let mut k: usize = 0;
        while k < valid_directions.len()
            invariant
                state.wf(),
                bot_bounds(*state),
                living_snake(*state, player_id@, i as int),
                head == state.snakes@[i as int].snake.spec_head(),
                current_direction == state.snakes@[i as int].snake.direction,
                valid_directions@ == valid_order(current_direction),
                0 <= k <= valid_directions@.len(),
                best_dir is None ==> best_distance == i64::MAX && forall|j: int| 0 <= j < k ==> !safe_dir(*state, i as int, #[trigger] valid_directions@[j], behavior),
                best_dir matches Some(b) ==> {
                    &&& safe_dir(*state, i as int, b, behavior)
                    &&& best_distance == dir_distance(*state, i as int, b, nearest_food)
                    &&& exists|j: int| 0 <= j < k && valid_directions@[j] == b
                    &&& forall|j: int| 0 <= j < k && #[trigger] safe_dir(*state, i as int, valid_directions@[j], behavior)
                        ==> best_distance <= dir_distance(*state, i as int, valid_directions@[j], nearest_food)
                            && (dir_rank(valid_directions@[j]) < dir_rank(b) ==> best_distance < dir_distance(
                            *state,
                            i as int,
                            valid_directions@[j],
                            nearest_food,
                        ))
                },
                best_distance < i64::MAX ==> best_dir is Some,
                state.food_set@.contains(nearest_food),
                forall|g: Point| #[trigger] state.food_set@.contains(g) ==> distance(head, nearest_food, state.rules())
                    <= distance(head, g, state.rules()),
                nearest_food.x <= BOT_COORD_LIMIT && nearest_food.y <= BOT_COORD_LIMIT,
            decreases valid_directions@.len() - k,
        {
            let dir = valid_directions[k];
            if let Some(next_pos) = Self::calculate_next_position(head, dir, state) {
                if Self::is_safe_position(next_pos, i, state, behavior) {
                    let distance = Self::manhattan_distance(next_pos, nearest_food, state);
                    if distance < best_distance {
                        best_distance = distance;
                        best_dir = Some(dir);
                    }
                }
            }
            proof { lemma_valid_order_ranks(current_direction); }
            k = k + 1;
        }
        match best_dir {
            Some(d) => {
                proof {
                    lemma_valid_order_ranks(current_direction);
                    assert forall|e: Direction| #[trigger] safe_dir(*state, i as int, e, behavior) implies dir_distance(
                        *state,
                        i as int,
                        d,
                        nearest_food,
                    ) <= dir_distance(*state, i as int, e, nearest_food) && (dir_rank(e) < dir_rank(d)
                        ==> dir_distance(*state, i as int, d, nearest_food) < dir_distance(
                        *state,
                        i as int,
                        e,
                        nearest_food,
                    )) by {
                        assert(valid_order(current_direction).contains(e));
                        let j = choose|j: int| 0 <= j < 3 && valid_order(current_direction)[j] == e;
                        assert(safe_dir(*state, i as int, valid_directions@[j], behavior));
                    }
                    assert(best_dir_toward(*state, i as int, d, nearest_food, behavior));
                    assert(living_snake(*state, player_id@, i as int));
                }
                Some(d)
            },
            None => {
                proof {
                    lemma_valid_order_complete(*state, i as int, behavior);
                }
                Self::random_valid_move(player_id, state, behavior)
            },
        }
    }

    /// A uniformly chosen safe direction; the current direction when none
    /// is safe.
    fn random_valid_move(player_id: &PlayerId, state: &GameState, behavior: DeadSnakeBehavior) -> (r: Option<Direction>)
        requires
            state.wf(),
        ensures
            r is Some <==> exists|i: int| living_snake(*state, player_id@, i),
            r matches Some(d) ==> exists|i: int| #[trigger] living_snake(*state, player_id@, i) && {
                ||| safe_dir(*state, i, d, behavior)
                ||| (!any_safe_dir(*state, i, behavior) && d == state.snakes@[i].snake.direction)
            },
    {
        let i = match state.find(player_id) {
            Some(i) => i,
            None => {
                proof { lemma_no_living(*state, player_id@); }
                return None;
            },
        };
        proof { lemma_found_index(*state, player_id@, i as int); }
        let snake = &state.snakes[i].snake;
        if !snake.is_alive() {
            return None;
        }
        let current_direction = snake.direction;
        let valid_directions = Self::get_valid_directions(current_direction);
        let head = snake.head();

        let mut safe_directions: Vec<Direction> = Vec::new();
        let mut k: usize = 0;
        while k < valid_directions.len()
            invariant
                state.wf(),
                living_snake(*state, player_id@, i as int),
                head == state.snakes@[i as int].snake.spec_head(),
                current_direction == state.snakes@[i as int].snake.direction,
                valid_directions@ == valid_order(current_direction),
                0 <= k <= valid_directions@.len(),
                forall|j: int| 0 <= j < safe_directions@.len() ==> safe_dir(*state, i as int, #[trigger] safe_directions@[j], behavior),
                safe_directions@.len() == 0 ==> forall|j: int| 0 <= j < k ==> !safe_dir(*state, i as int, #[trigger] valid_directions@[j], behavior),
            decreases valid_directions@.len() - k,
        {
            let dir = valid_directions[k];
            if let Some(next_pos) = Self::calculate_next_position(head, dir, state) {
                if Self::is_safe_position(next_pos, i, state, behavior) {
                    safe_directions.push(dir);
                }
            }
            k = k + 1;
        }

        if safe_directions.len() == 0 {
            proof { lemma_valid_order_complete(*state, i as int, behavior); }
            Some(current_direction)
        } else {
            let idx = thread_rng_below(safe_directions.len());
            Some(safe_directions[idx])
        }
    }

    /// The three directions that do not reverse `current`, in the order
    /// up, down, left, right.
    fn get_valid_directions(current: Direction) -> (r: Vec<Direction>)
        ensures
            r@ == valid_order(current),
    {
        let all = vec![Direction::Up, Direction::Down, Direction::Left, Direction::Right];
        let mut r: Vec<Direction> = Vec::new();
        let mut k: usize = 0;
        while k < all.len()
            invariant
                all@ == seq![Direction::Up, Direction::Down, Direction::Left, Direction::Right],
                0 <= k <= 4,
                r@ == all@.subrange(0, k as int).filter(|d: Direction| !opposite(d, current)),
            decreases 4 - k,
        {
            let d = all[k];
            proof {
                assert(all@.subrange(0, k + 1) == all@.subrange(0, k as int).push(d));
                reveal_with_fuel(Seq::filter, 1);
                assert(all@.subrange(0, k + 1).drop_last() == all@.subrange(0, k as int));
            }
            if !d.is_opposite(&current) {
                r.push(d);
            }
            k = k + 1;
        }
        assert(all@.subrange(0, 4) == all@);
        r
    }

    /// The food piece closest to `from` (the first one found among equally
    /// close pieces), or `None` when there is no food.
    fn find_nearest_food(from: Point, state: &GameState) -> (r: Option<Point>)
        requires
            state.wf(),
            bot_bounds(*state),
            from.x <= BOT_COORD_LIMIT && from.y <= BOT_COORD_LIMIT,
        ensures
            r is None <==> state.food_set@.len() == 0,
            r matches Some(f) ==> state.food_set@.contains(f) && forall|g: Point|
                #[trigger] state.food_set@.contains(g) ==> distance(from, f, state.rules()) <= distance(from, g, state.rules()),
    {
        let n = state.food_set.len();
        proof {
            state.food_set.lemma_len();
            state.food_set.lemma_elems();
        }
        if n == 0 {
            return None;
        }
        assert(state.food_set.elems().contains(state.food_set.elems()[0]));
        let mut best = state.food_set.get(0);
        let mut best_d = Self::manhattan_distance(from, best, state);
        let mut k: usize = 1;
        while k < n
            invariant
                state.wf(),
                bot_bounds(*state),
                from.x <= BOT_COORD_LIMIT && from.y <= BOT_COORD_LIMIT,
                n == state.food_set.elems().len(),
                n == state.food_set.spec_len(),
                forall|p: Point| state.food_set@.contains(p) <==> state.food_set.elems().contains(p),
                1 <= k <= n,
                state.food_set@.contains(best),
                best_d == distance(from, best, state.rules()),
                forall|j: int| 0 <= j < k ==> best_d <= distance(from, #[trigger] state.food_set.elems()[j], state.rules()),
            decreases n - k,
        {
            let f = state.food_set.get(k);
            assert(state.food_set.elems().contains(f));
            let d = Self::manhattan_distance(from, f, state);
            if d < best_d {
                best = f;
                best_d = d;
            }
            k = k + 1;
        }
        proof {
            assert forall|g: Point| #[trigger] state.food_set@.contains(g) implies distance(from, best, state.rules())
                <= distance(from, g, state.rules()) by {
                assert(state.food_set.elems().contains(g));
                let j = choose|j: int| 0 <= j < n && state.food_set.elems()[j] == g;
            }
        }
        Some(best)
    }

    /// Manhattan distance between two cells, wrapping around the edges when
    /// the field wraps.
    fn manhattan_distance(a: Point, b: Point, state: &GameState) -> (r: i64)
        requires
            a.x <= 2 * BOT_COORD_LIMIT && a.y <= 2 * BOT_COORD_LIMIT,
            b.x <= 2 * BOT_COORD_LIMIT && b.y <= 2 * BOT_COORD_LIMIT,
            state.field_size.width <= BOT_COORD_LIMIT,
            state.field_size.height <= BOT_COORD_LIMIT,
        ensures
            r == distance(a, b, state.rules()),
    {
        let dx: i64 = if a.x >= b.x { (a.x - b.x) as i64 } else { (b.x - a.x) as i64 };
        let dy: i64 = if a.y >= b.y { (a.y - b.y) as i64 } else { (b.y - a.y) as i64 };
        match state.wall_collision_mode {
            WallCollisionMode::Death => dx + dy,
            WallCollisionMode::WrapAround => {
                let width = state.field_size.width as i64;
                let height = state.field_size.height as i64;
                let wrapped_dx = width - dx;
                let wrapped_dy = height - dy;
                let min_dx = if dx <= wrapped_dx { dx } else { wrapped_dx };
                let min_dy = if dy <= wrapped_dy { dy } else { wrapped_dy };
                min_dx + min_dy
            },
        }
    }

    /// The cell reached from `from` moving in `direction`; `None` when it
    /// would leave the field and walls kill.
    fn calculate_next_position(from: Point, direction: Direction, state: &GameState) -> (r: Option<Point>)
        requires
            state.wf(),
            from.x < usize::MAX && from.y < usize::MAX,
        ensures
            r == advance(from, direction, state.rules()),
    {
        match state.wall_collision_mode {
            WallCollisionMode::Death => match direction {
                Direction::Up => if from.y > 0 { Some(Point::new(from.x, from.y - 1)) } else { None },
                Direction::Down => if from.y < state.field_size.height - 1 { Some(Point::new(from.x, from.y + 1)) } else { None },
                Direction::Left => if from.x > 0 { Some(Point::new(from.x - 1, from.y)) } else { None },
                Direction::Right => if from.x < state.field_size.width - 1 { Some(Point::new(from.x + 1, from.y)) } else { None },
            },
            WallCollisionMode::WrapAround => match direction {
                Direction::Up => Some(Point::new(from.x, GameState::wrapping_dec(from.y, state.field_size.height))),
                Direction::Down => Some(Point::new(from.x, GameState::wrapping_inc(from.y, state.field_size.height))),
                Direction::Left => Some(Point::new(GameState::wrapping_dec(from.x, state.field_size.width), from.y)),
                Direction::Right => Some(Point::new(GameState::wrapping_inc(from.x, state.field_size.width), from.y)),
            },
        }
    }

    /// Whether snake `i` can safely enter `pos`.
    fn is_safe_position(pos: Point, i: usize, state: &GameState, behavior: DeadSnakeBehavior) -> (r: bool)
        requires
            state.wf(),
            i < state.snakes@.len(),
        ensures
            r == safe_for(*state, i as int, pos, behavior),
    {
        let mut j: usize = 0;
        while j < state.snakes.len()
            invariant
                state.wf(),
                i < state.snakes@.len(),
                0 <= j <= state.snakes@.len(),
                forall|k: int| 0 <= k < j ==> {
                    let s = #[trigger] state.snakes@[k].snake;
                    let checked = match behavior {
                        DeadSnakeBehavior::Disappear => s.alive(),
                        DeadSnakeBehavior::StayOnField => true,
                    };
                    checked ==> if k == i {
                        !(s.alive() && s.body_set@.contains(pos) && pos != s.spec_tail())
                    } else {
                        !s.body_set@.contains(pos)
                    }
                },
            decreases state.snakes@.len() - j,
        {
            let snake = &state.snakes[j].snake;
            let should_check = match behavior {
                DeadSnakeBehavior::Disappear => snake.is_alive(),
                DeadSnakeBehavior::StayOnField => true,
            };
            if should_check {
                if j == i {
                    if snake.is_alive() && snake.body_set.contains(&pos) && pos != snake.tail() {
                        return false;
                    }
                } else if snake.body_set.contains(&pos) {
                    return false;
                }
            }
            j = j + 1;
        }
        true
    }
}

/// The directions that do not reverse `cur`, in the bot's order.
pub open spec fn valid_order(cur: Direction) -> Seq<Direction> {
    seq![Direction::Up, Direction::Down, Direction::Left, Direction::Right].filter(|d: Direction| !opposite(d, cur))
}

proof fn lemma_valid_order_ranks(cur: Direction)
    ensures
        valid_order(cur).len() == 3,
        forall|a: int, b: int| 0 <= a < b < 3 ==> dir_rank(valid_order(cur)[a]) < dir_rank(valid_order(cur)[b]),
        forall|d: Direction| !opposite(d, cur) <==> valid_order(cur).contains(d),
{
    reveal_with_fuel(Seq::filter, 5);
    let all = seq![Direction::Up, Direction::Down, Direction::Left, Direction::Right];
    assert(all.drop_last() == seq![Direction::Up, Direction::Down, Direction::Left]);
    assert(all.drop_last().drop_last() == seq![Direction::Up, Direction::Down]);
    assert(all.drop_last().drop_last().drop_last() == seq![Direction::Up]);
    assert(all.drop_last().drop_last().drop_last().drop_last() == Seq::<Direction>::empty());
    match cur {
        Direction::Up => {
            assert(valid_order(cur) == seq![Direction::Up, Direction::Left, Direction::Right]);
        },
        Direction::Down => {
            assert(valid_order(cur) == seq![Direction::Down, Direction::Left, Direction::Right]);
        },
        Direction::Left => {
            assert(valid_order(cur) == seq![Direction::Up, Direction::Down, Direction::Left]);
        },
        Direction::Right => {
            assert(valid_order(cur) == seq![Direction::Up, Direction::Down, Direction::Right]);
        },
    }
}

proof fn lemma_valid_order_complete(state: GameState, i: int, behavior: DeadSnakeBehavior)
    requires
        0 <= i < state.snakes@.len(),
        forall|j: int| 0 <= j < valid_order(state.snakes@[i].snake.direction).len() ==> !safe_dir(
            state,
            i,
            #[trigger] valid_order(state.snakes@[i].snake.direction)[j],
            behavior,
        ),
    ensures
        !any_safe_dir(state, i, behavior),
{
    let cur = state.snakes@[i].snake.direction;
    lemma_valid_order_ranks(cur);
    assert forall|d: Direction| !safe_dir(state, i, d, behavior) by {
        if !opposite(d, cur) {
            assert(valid_order(cur).contains(d));
            let j = choose|j: int| 0 <= j < valid_order(cur).len() && valid_order(cur)[j] == d;
        }
    }
}

proof fn lemma_no_living(state: GameState, player: Seq<char>)
    requires
        forall|i: int| 0 <= i < state.snakes@.len() ==> state.snakes@[i].player_id@ != player,
    ensures
        !exists|i: int| living_snake(state, player, i),
{
}

proof fn lemma_found_index(state: GameState, player: Seq<char>, i: int)
    requires
        state.wf(),
        0 <= i < state.snakes@.len(),
        state.snakes@[i].player_id@ == player,
    ensures
        state.ids()[i] == player,
        forall|j: int| living_snake(state, player, j) ==> j == i,
        !state.snakes@[i].snake.alive() ==> !exists|j: int| living_snake(state, player, j),
{
    assert forall|j: int| living_snake(state, player, j) implies j == i by {
        if j < i {
            assert(state.snakes@[j].player_id@ != state.snakes@[i].player_id@);
        } else if j > i {
            assert(state.snakes@[i].player_id@ != state.snakes@[j].player_id@);
        }
    }
}

/// On a wrapping field the distance between two cells goes around the
/// edges whenever that is shorter: it is symmetric, never exceeds half the
/// width plus half the height, and a cell's neighbour across an edge is
/// one step away, like any other neighbour.
pub proof fn lemma_wrapping_distance(a: Point, b: Point, rules: Rules, d: Direction)
    requires
        rules.mode == WallCollisionMode::WrapAround,
        rules.width <= usize::MAX,
        rules.height <= usize::MAX,
        a.x < rules.width && a.y < rules.height,
        b.x < rules.width && b.y < rules.height,
    ensures
        0 <= distance(a, b, rules) <= rules.width / 2 + rules.height / 2,
        distance(a, b, rules) == distance(b, a, rules),
        advance(a, d, rules) matches Some(q) && distance(a, q, rules) <= 1,
{
    let dx = abs_diff(a.x as int, b.x as int);
    let dy = abs_diff(a.y as int, b.y as int);
    assert(min_int(dx, rules.width - dx) <= rules.width / 2);
    assert(min_int(dy, rules.height - dy) <= rules.height / 2);
}

} // verus!
