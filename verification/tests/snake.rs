use mini_games_server::identifiers::PlayerId;
use mini_games_server::snake::bot_controller::{BotController, DeadSnakeBehavior, SnakeBotType};
use mini_games_server::snake::game::{
    DeathReason, Direction, FieldSize, GameState, Point, Snake, WallCollisionMode,
};
use mini_games_server::snake::point_set::PointSet;
use mini_games_server::snake::start::{
    calculate_snake_start_position, calculate_start_direction, calculate_start_position,
};

fn pid(s: &str) -> PlayerId {
    PlayerId::new(s.to_string())
}

fn field(width: usize, height: usize) -> FieldSize {
    FieldSize { width, height }
}

fn body(snake: &Snake) -> Vec<Point> {
    snake.body.iter().copied().collect()
}

fn p(x: usize, y: usize) -> Point {
    Point::new(x, y)
}

fn game_with(mode: WallCollisionMode, snakes: &[(&str, Point, Direction)]) -> GameState {
    let mut game = GameState::new(field(10, 10), mode, 1);
    for (id, start, dir) in snakes {
        game.add_snake(pid(id), *start, *dir);
    }
    game
}

fn snake_of<'a>(game: &'a GameState, id: &str) -> &'a Snake {
    &game.snakes.iter().find(|e| e.player_id.as_str() == id).unwrap().snake
}

#[test]
fn point_new_keeps_coordinates() {
    let q = Point::new(3, 7);
    assert_eq!((q.x, q.y), (3, 7));
}

#[test]
fn opposite_directions() {
    assert!(Direction::Up.is_opposite(&Direction::Down));
    assert!(Direction::Down.is_opposite(&Direction::Up));
    assert!(Direction::Left.is_opposite(&Direction::Right));
    assert!(Direction::Right.is_opposite(&Direction::Left));
    assert!(!Direction::Up.is_opposite(&Direction::Left));
    assert!(!Direction::Up.is_opposite(&Direction::Up));
}

#[test]
fn new_snake_trails_behind_its_head() {
    let size = field(10, 10);
    let up = Snake::new(p(5, 5), Direction::Up, &size);
    assert_eq!(body(&up), vec![p(5, 5), p(5, 6), p(5, 7)]);
    let right = Snake::new(p(5, 5), Direction::Right, &size);
    assert_eq!(body(&right), vec![p(5, 5), p(4, 5), p(3, 5)]);
    let left = Snake::new(p(5, 5), Direction::Left, &size);
    assert_eq!(body(&left), vec![p(5, 5), p(6, 5), p(7, 5)]);
    let down = Snake::new(p(5, 5), Direction::Down, &size);
    assert_eq!(body(&down), vec![p(5, 5), p(5, 4), p(5, 3)]);
    assert!(up.is_alive());
    assert_eq!(up.score, 0);
    assert_eq!(up.head(), p(5, 5));
    assert_eq!(up.tail(), p(5, 7));
    assert!(up.body_set.contains(&p(5, 6)));
    assert_eq!(up.body_set.len(), 3);
}

#[test]
fn new_snake_wraps_around_the_field() {
    let size = field(10, 10);
    let snake = Snake::new(p(5, 9), Direction::Up, &size);
    assert_eq!(body(&snake), vec![p(5, 9), p(5, 0), p(5, 1)]);
    let snake = Snake::new(p(0, 3), Direction::Right, &size);
    assert_eq!(body(&snake), vec![p(0, 3), p(9, 3), p(8, 3)]);
}

#[test]
fn wrapping_increment_and_decrement() {
    assert_eq!(GameState::wrapping_inc(3, 10), 4);
    assert_eq!(GameState::wrapping_inc(9, 10), 0);
    assert_eq!(GameState::wrapping_dec(3, 10), 2);
    assert_eq!(GameState::wrapping_dec(0, 10), 9);
}

#[test]
fn snake_moves_one_cell_per_tick() {
    let mut game = game_with(WallCollisionMode::Death, &[("a", p(5, 5), Direction::Up)]);
    game.update(false);
    assert_eq!(body(snake_of(&game, "a")), vec![p(5, 4), p(5, 5), p(5, 6)]);
    assert!(snake_of(&game, "a").is_alive());
    assert_eq!(game.game_end_reason, None);
}

#[test]
fn turns_take_effect_on_the_next_tick() {
    let mut game = game_with(WallCollisionMode::Death, &[("a", p(5, 5), Direction::Up)]);
    game.set_snake_direction(&pid("a"), Direction::Left);
    assert_eq!(snake_of(&game, "a").pending_direction, Some(Direction::Left));
    game.update(false);
    assert_eq!(snake_of(&game, "a").head(), p(4, 5));
    assert_eq!(snake_of(&game, "a").direction, Direction::Left);
    assert_eq!(snake_of(&game, "a").pending_direction, None);
}

#[test]
fn reversing_is_ignored() {
    let mut game = game_with(WallCollisionMode::Death, &[("a", p(5, 5), Direction::Up)]);
    game.set_snake_direction(&pid("a"), Direction::Down);
    assert_eq!(snake_of(&game, "a").pending_direction, None);
    game.update(false);
    assert_eq!(snake_of(&game, "a").head(), p(5, 4));
}

#[test]
fn turning_an_unknown_player_changes_nothing() {
    let mut game = game_with(WallCollisionMode::Death, &[("a", p(5, 5), Direction::Up)]);
    game.set_snake_direction(&pid("nobody"), Direction::Left);
    assert_eq!(snake_of(&game, "a").pending_direction, None);
}

#[test]
fn wall_kills_in_death_mode() {
    let mut game = game_with(WallCollisionMode::Death, &[("a", p(5, 0), Direction::Up)]);
    game.update(false);
    let snake = snake_of(&game, "a");
    assert!(!snake.is_alive());
    assert_eq!(snake.death_reason, Some(DeathReason::WallCollision));
    assert_eq!(game.game_end_reason, Some(DeathReason::WallCollision));
    assert_eq!(body(snake), vec![p(5, 0), p(5, 1), p(5, 2)]);
}

#[test]
fn wall_wraps_in_wrap_mode() {
    let mut game = game_with(WallCollisionMode::WrapAround, &[("a", p(5, 0), Direction::Up)]);
    game.update(false);
    let snake = snake_of(&game, "a");
    assert!(snake.is_alive());
    assert_eq!(snake.head(), p(5, 9));
}

#[test]
fn eating_grows_and_scores() {
    let mut game = game_with(WallCollisionMode::Death, &[("a", p(5, 5), Direction::Up)]);
    game.food_set.insert(p(5, 4));
    game.update(false);
    let snake = snake_of(&game, "a");
    assert_eq!(body(snake), vec![p(5, 4), p(5, 5), p(5, 6), p(5, 7)]);
    assert_eq!(snake.score, 1);
    assert_eq!(game.food_set.len(), 0);
}

#[test]
fn running_into_another_snake_kills() {
    let mut game = game_with(
        WallCollisionMode::Death,
        &[("a", p(2, 5), Direction::Right), ("b", p(3, 3), Direction::Up)],
    );
    // b's body covers (3,3), (3,4), (3,5); a's head enters (3,5).
    game.update(false);
    assert_eq!(snake_of(&game, "a").death_reason, Some(DeathReason::OtherSnakeCollision));
    assert!(snake_of(&game, "b").is_alive());
    assert_eq!(game.alive_count(), 1);
    assert!(game.is_round_over(2));
}

#[test]
fn food_spawn_uses_a_free_cell() {
    let mut game = game_with(WallCollisionMode::Death, &[("a", p(5, 5), Direction::Up)]);
    game.update(true);
    let snake = snake_of(&game, "a");
    // The piece is either still on the field or was eaten at once.
    assert_eq!(game.food_set.len() + snake.score as usize, 1);
    for i in 0..game.food_set.len() {
        let food = game.food_set.get(i);
        assert!(food.x < 10 && food.y < 10);
        assert!(!snake.body_set.contains(&food));
    }
}

#[test]
fn failed_spawn_roll_places_no_food() {
    let mut game = game_with(WallCollisionMode::Death, &[("a", p(5, 5), Direction::Up)]);
    game.update(false);
    assert_eq!(game.food_set.len(), 0);
}

#[test]
fn disconnect_kills_the_snake_and_ends_the_game() {
    let mut game = game_with(
        WallCollisionMode::Death,
        &[("a", p(2, 5), Direction::Up), ("b", p(7, 5), Direction::Up)],
    );
    game.kill_snake(&pid("b"), DeathReason::PlayerDisconnected);
    assert_eq!(snake_of(&game, "b").death_reason, Some(DeathReason::PlayerDisconnected));
    assert_eq!(game.game_end_reason, Some(DeathReason::PlayerDisconnected));
    assert!(snake_of(&game, "a").is_alive());
    // A dead snake cannot be killed again nor turned.
    game.kill_snake(&pid("b"), DeathReason::WallCollision);
    assert_eq!(snake_of(&game, "b").death_reason, Some(DeathReason::PlayerDisconnected));
    game.set_snake_direction(&pid("b"), Direction::Left);
    assert_eq!(snake_of(&game, "b").pending_direction, None);
}

#[test]
fn adding_a_snake_twice_replaces_it() {
    let mut game = game_with(WallCollisionMode::Death, &[("a", p(2, 5), Direction::Up)]);
    game.add_snake(pid("a"), p(7, 7), Direction::Left);
    assert_eq!(game.snakes.len(), 1);
    assert_eq!(body(snake_of(&game, "a")), vec![p(7, 7), p(8, 7), p(9, 7)]);
}

#[test]
fn round_over_rules() {
    let mut solo = game_with(WallCollisionMode::Death, &[("a", p(5, 5), Direction::Up)]);
    assert!(!solo.is_round_over(1));
    solo.kill_snake(&pid("a"), DeathReason::PlayerDisconnected);
    assert!(solo.is_round_over(1));

    let mut duel = game_with(
        WallCollisionMode::Death,
        &[("a", p(2, 5), Direction::Up), ("b", p(7, 5), Direction::Up)],
    );
    assert_eq!(duel.alive_count(), 2);
    assert!(!duel.is_round_over(2));
    duel.kill_snake(&pid("a"), DeathReason::PlayerDisconnected);
    assert!(duel.is_round_over(2));
}

#[test]
fn start_positions_spread_along_the_middle_row() {
    assert_eq!(calculate_start_position(0, 2, 30, 20), p(10, 10));
    assert_eq!(calculate_start_position(1, 2, 30, 20), p(20, 10));
    assert_eq!(calculate_start_position(0, 1, 30, 20), p(15, 10));
    assert_eq!(calculate_start_position(0, 3, 30, 20), p(10, 10));
    assert_eq!(calculate_start_position(2, 3, 30, 20), p(29, 10));
    assert_eq!(calculate_start_direction(0, 2), Direction::Up);
    assert_eq!(calculate_snake_start_position(1, 2, 30, 20), p(20, 10));
}

#[test]
fn bots_need_a_living_snake_and_a_known_kind() {
    let game = game_with(WallCollisionMode::Death, &[("bot", p(5, 5), Direction::Up)]);
    let behavior = DeadSnakeBehavior::Disappear;
    assert_eq!(BotController::calculate_move(SnakeBotType::Unspecified, &pid("bot"), &game, behavior), None);
    assert_eq!(BotController::calculate_move(SnakeBotType::Random, &pid("nobody"), &game, behavior), None);
    // No food: the efficient bot has nothing to aim at.
    assert_eq!(BotController::calculate_move(SnakeBotType::Efficient, &pid("bot"), &game, behavior), None);
    let d = BotController::calculate_move(SnakeBotType::Random, &pid("bot"), &game, behavior).unwrap();
    assert_ne!(d, Direction::Down);
}

#[test]
fn efficient_bot_heads_for_the_nearest_food() {
    let mut game = game_with(WallCollisionMode::Death, &[("bot", p(5, 5), Direction::Up)]);
    game.food_set.insert(p(1, 5));
    game.food_set.insert(p(9, 0));
    let d = BotController::calculate_move(
        SnakeBotType::Efficient,
        &pid("bot"),
        &game,
        DeadSnakeBehavior::Disappear,
    );
    assert_eq!(d, Some(Direction::Left));
}

#[test]
fn random_bot_avoids_the_wall() {
    let game = game_with(WallCollisionMode::Death, &[("bot", p(0, 0), Direction::Up)]);
    for _ in 0..20 {
        let d = BotController::calculate_move(
            SnakeBotType::Random,
            &pid("bot"),
            &game,
            DeadSnakeBehavior::Disappear,
        );
        assert_eq!(d, Some(Direction::Right));
    }
}

#[test]
fn point_set_keeps_unique_points() {
    let mut set = PointSet::new();
    assert!(set.insert(p(1, 1)));
    assert!(!set.insert(p(1, 1)));
    assert!(set.insert(p(2, 1)));
    assert_eq!(set.len(), 2);
    set.remove(&p(1, 1));
    assert!(!set.contains(&p(1, 1)));
    assert!(set.contains(&p(2, 1)));
    assert_eq!(set.len(), 1);
}

#[test]
fn dead_snakes_stay_in_place() {
    let mut game = game_with(
        WallCollisionMode::Death,
        &[("a", p(2, 5), Direction::Up), ("b", p(7, 5), Direction::Up)],
    );
    game.kill_snake(&pid("b"), DeathReason::PlayerDisconnected);
    let before = body(snake_of(&game, "b"));
    for _ in 0..3 {
        game.update(false);
    }
    assert_eq!(body(snake_of(&game, "b")), before);
    assert_eq!(snake_of(&game, "b").score, 0);
    assert_eq!(snake_of(&game, "a").head(), p(2, 2));
}

#[test]
fn snakes_grow_only_by_what_they_eat() {
    let mut game = game_with(WallCollisionMode::WrapAround, &[("a", p(5, 5), Direction::Up)]);
    game.food_set.insert(p(5, 3));
    for _ in 0..4 {
        let len = snake_of(&game, "a").body.len();
        let score = snake_of(&game, "a").score;
        game.update(false);
        let snake = snake_of(&game, "a");
        assert_eq!(snake.body.len() - len, (snake.score - score) as usize);
    }
    assert_eq!(snake_of(&game, "a").score, 1);
    assert_eq!(snake_of(&game, "a").body.len(), 4);
}
