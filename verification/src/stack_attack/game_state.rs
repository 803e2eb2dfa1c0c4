use vstd::prelude::*;
use super::types::{GameOverReason, Point};
use super::settings::{FIELD_WIDTH, MAX_PLAYERS};
use crate::identifiers::PlayerId;
use crate::proto::stack_attack::LineClearedEvent;
use crate::session_rng::SessionRng;

verus! {

pub const POINTS_PER_LINE: u32 = 100;
pub const POINTS_PER_MULTI_LINE_BONUS: u32 = 50;

pub const INITIAL_CRANE_SPAWN_INTERVAL_TICKS: u32 = 15;
pub const INITIAL_MAX_SIMULTANEOUS_CRANES: u32 = 1;
pub const TICKS_PER_DIFFICULTY_INCREASE: u32 = 150;
pub const MIN_CRANE_SPAWN_INTERVAL_TICKS: u32 = 4;
pub const MAX_SIMULTANEOUS_CRANES_CAP: u32 = 5;

pub const PATTERN_COUNT: u32 = 8;

/// Difficulty after `total_ticks` ticks: one level more every
/// `TICKS_PER_DIFFICULTY_INCREASE` ticks (the tick count taken modulo 2^32).
pub open spec fn difficulty_for(total_ticks: u64) -> int {
    1 + ((total_ticks as u32) as int) / (TICKS_PER_DIFFICULTY_INCREASE as int)
}

/// Ticks between crane spawns at a difficulty level: two fewer per level,
/// never below the minimum.
pub open spec fn spawn_interval_for(level: int) -> int {
    let reduction = (level - 1) * 2;
    let reduced = if reduction >= INITIAL_CRANE_SPAWN_INTERVAL_TICKS {
        0
    } else {
        INITIAL_CRANE_SPAWN_INTERVAL_TICKS - reduction
    };
    if reduced >= MIN_CRANE_SPAWN_INTERVAL_TICKS {
        reduced
    } else {
        MIN_CRANE_SPAWN_INTERVAL_TICKS as int
    }
}

/// Cranes allowed at once at a difficulty level: one more every two
/// levels, up to the cap.
pub open spec fn max_cranes_for(level: int) -> int {
    let n = INITIAL_MAX_SIMULTANEOUS_CRANES + (level - 1) / 2;
    if n <= MAX_SIMULTANEOUS_CRANES_CAP {
        n
    } else {
        MAX_SIMULTANEOUS_CRANES_CAP as int
    }
}

/// Points for clearing `n` rows at once: a base per row plus a bonus for
/// every row beyond the first.
pub open spec fn points_for_lines(n: int) -> int {
    n * POINTS_PER_LINE + if n > 1 {
        (n - 1) * POINTS_PER_MULTI_LINE_BONUS
    } else {
        0
    }
}

/// Points reported for each row of a clear of `n` rows.
pub open spec fn points_per_row(n: int) -> int {
    POINTS_PER_LINE + if n > 1 {
        POINTS_PER_MULTI_LINE_BONUS as int
    } else {
        0
    }
}

/// The game speeds up with time: level 1 for the first
/// `TICKS_PER_DIFFICULTY_INCREASE` ticks and one more for each such span
/// after; each level brings cranes two ticks sooner, never sooner than
/// `MIN_CRANE_SPAWN_INTERVAL_TICKS`, and every second level allows one more
/// crane at once, up to `MAX_SIMULTANEOUS_CRANES_CAP`.
pub proof fn lemma_pacing(t: u64, level: int)
    requires
        level >= 1,
    ensures
        (t as u32) < TICKS_PER_DIFFICULTY_INCREASE ==> difficulty_for(t) == 1,
        (t as u32) + TICKS_PER_DIFFICULTY_INCREASE <= u32::MAX ==> difficulty_for(
            ((t as u32) + TICKS_PER_DIFFICULTY_INCREASE) as u64,
        ) == difficulty_for(t) + 1,
        spawn_interval_for(1) == INITIAL_CRANE_SPAWN_INTERVAL_TICKS,
        spawn_interval_for(level + 1) == if spawn_interval_for(level) - 2 >= MIN_CRANE_SPAWN_INTERVAL_TICKS {
            spawn_interval_for(level) - 2
        } else {
            MIN_CRANE_SPAWN_INTERVAL_TICKS as int
        },
        MIN_CRANE_SPAWN_INTERVAL_TICKS <= spawn_interval_for(level) <= INITIAL_CRANE_SPAWN_INTERVAL_TICKS,
        max_cranes_for(1) == INITIAL_MAX_SIMULTANEOUS_CRANES,
        max_cranes_for(level + 2) == if max_cranes_for(level) + 1 <= MAX_SIMULTANEOUS_CRANES_CAP {
            max_cranes_for(level) + 1
        } else {
            MAX_SIMULTANEOUS_CRANES_CAP as int
        },
        INITIAL_MAX_SIMULTANEOUS_CRANES <= max_cranes_for(level) <= MAX_SIMULTANEOUS_CRANES_CAP,
{
    let u = t as u32;
    if u + TICKS_PER_DIFFICULTY_INCREASE <= u32::MAX {
        assert(((u + TICKS_PER_DIFFICULTY_INCREASE) as u64) as u32 == u + TICKS_PER_DIFFICULTY_INCREASE);
        assert((u + 150) / 150 == u / 150 + 1) by (nonlinear_arith);
    }
}

/// Clearing rows together pays a bonus: a single row earns
/// `POINTS_PER_LINE`; each further row of the same clear adds
/// `POINTS_PER_LINE` plus `POINTS_PER_MULTI_LINE_BONUS`. So a clear of
/// `n >= 2` rows earns the points its rows report minus one bonus, strictly
/// more than `n` rows cleared one at a time.
pub proof fn lemma_multi_line_bonus(n: int)
    requires
        n >= 1,
    ensures
        points_for_lines(1) == POINTS_PER_LINE,
        points_per_row(1) == POINTS_PER_LINE,
        points_for_lines(n + 1) == points_for_lines(n) + POINTS_PER_LINE + POINTS_PER_MULTI_LINE_BONUS,
        n >= 2 ==> points_for_lines(n) == n * points_per_row(n) - POINTS_PER_MULTI_LINE_BONUS,
        n >= 2 ==> points_for_lines(n) > n * POINTS_PER_LINE,
        points_for_lines(2) == 250,
{
    if n >= 2 {
        assert(points_per_row(n) == POINTS_PER_LINE + POINTS_PER_MULTI_LINE_BONUS);
    }
}

/// The x coordinate at which worker `index` of `total` enters: the
/// `index + 1`-th of `total` points splitting the width into `total + 1`
/// equal parts, rounded half up.
pub open spec fn spawn_x(index: int, total: int, field_width: int) -> int {
    (2 * field_width * (index + 1) + (total + 1)) / (2 * (total + 1))
}

/// On the game's field, the workers of a game enter at distinct columns
/// inside the field, left to right in the order they are listed.
pub proof fn lemma_spawn_columns_distinct(i: int, j: int, total: int)
    requires
        0 <= i < j < total <= 4,
    ensures
        0 <= spawn_x(i, total, FIELD_WIDTH as int),
        spawn_x(i, total, FIELD_WIDTH as int) < spawn_x(j, total, FIELD_WIDTH as int),
        spawn_x(j, total, FIELD_WIDTH as int) < FIELD_WIDTH,
{
    assert(FIELD_WIDTH == 15);
    if total == 2 {
        assert(spawn_x(0, 2, 15) == 5) by (nonlinear_arith);
        assert(spawn_x(1, 2, 15) == 10) by (nonlinear_arith);
    } else if total == 3 {
        assert(spawn_x(0, 3, 15) == 4) by (nonlinear_arith);
        assert(spawn_x(1, 3, 15) == 8) by (nonlinear_arith);
        assert(spawn_x(2, 3, 15) == 11) by (nonlinear_arith);
    } else {
        assert(spawn_x(0, 4, 15) == 3) by (nonlinear_arith);
        assert(spawn_x(1, 4, 15) == 6) by (nonlinear_arith);
        assert(spawn_x(2, 4, 15) == 9) by (nonlinear_arith);
        assert(spawn_x(3, 4, 15) == 12) by (nonlinear_arith);
    }
}

/// Where worker `index` of `total` enters the field.
pub fn calculate_spawn_x(index: usize, total: usize, field_width: u32) -> (r: i32)
    requires
        index < total,
        total <= 4,
        field_width <= 65536,
    ensures
        r == spawn_x(index as int, total as int, field_width as int),
{
    let segment_count = total as u64 + 1;
    assert(2 * (field_width as u64) * (index as u64 + 1) <= 2 * 65536 * 5) by (nonlinear_arith)
        requires
            field_width <= 65536,
            index < total <= 4,
    ;
    let numerator = 2 * (field_width as u64) * (index as u64 + 1) + segment_count;
    let d = 2 * segment_count;
    let q = numerator / d;
    assert(q <= numerator) by (nonlinear_arith)
        requires
            d >= 1,
            q == numerator / d,
    ;
    q as i32
}

/// A worker as it enters the game: its player, where it stands, and the
/// place of that player in the game's list of players.
#[derive(Debug, PartialEq, Eq)]
pub struct WorkerSpawn {
    pub player_id: PlayerId,
    pub position: Point,
    pub index: u32,
}

/// Whether one of `workers` belongs to player `p`.
pub open spec fn has_worker(workers: Seq<WorkerSpawn>, p: Seq<char>) -> bool {
    exists|i: int| 0 <= i < workers.len() && (#[trigger] workers[i]).player_id@ == p
}

/// Whether player `p` is among the first `n` of `players`.
pub open spec fn listed_upto(players: Seq<PlayerId>, n: int, p: Seq<char>) -> bool {
    exists|k: int| 0 <= k < n && (#[trigger] players[k])@ == p
}

/// `workers` holds the workers of the first `n` of `players`, each player
/// once: a player listed twice keeps the worker of its last place, which
/// enters on the floor at the column of that place among all `players`.
pub open spec fn spawned_upto(players: Seq<PlayerId>, n: int, workers: Seq<WorkerSpawn>) -> bool {
    &&& forall|i: int, j: int|
        0 <= i < j < workers.len() ==> (#[trigger] workers[i]).player_id@ != (#[trigger] workers[j]).player_id@
    &&& forall|p: Seq<char>| #[trigger] has_worker(workers, p) <==> listed_upto(players, n, p)
    &&& forall|i: int|
        0 <= i < workers.len() ==> {
            let k = (#[trigger] workers[i]).index as int;
            &&& 0 <= k < n
            &&& players[k]@ == workers[i].player_id@
            &&& forall|l: int| k < l < n ==> (#[trigger] players[l])@ != workers[i].player_id@
            &&& workers[i].position.x == spawn_x(k, players.len() as int, FIELD_WIDTH as int)
            &&& workers[i].position.y == 0
        }
}

/// `workers` holds one worker per player of `players`, placed as
/// `spawned_upto` says.
pub open spec fn spawned(players: Seq<PlayerId>, workers: Seq<WorkerSpawn>) -> bool {
    spawned_upto(players, players.len() as int, workers)
}

/// Where the worker of player `id` is, if there is one.
fn find_worker(workers: &Vec<WorkerSpawn>, id: &PlayerId) -> (r: Option<usize>)
    ensures
        r matches Some(i) ==> i < workers@.len() && workers@[i as int].player_id@ == id@,
        r is None ==> forall|k: int| 0 <= k < workers@.len() ==> (#[trigger] workers@[k]).player_id@ != id@,
{
    let mut i: usize = 0;
    while i < workers.len()
        invariant
            0 <= i <= workers@.len(),
            forall|k: int| 0 <= k < i ==> (#[trigger] workers@[k]).player_id@ != id@,
        decreases workers@.len() - i,
    {
        if workers[i].player_id.same_as(id) {
            return Some(i);
        }
        i = i + 1;
    }
    None
}

/// The workers of a new game, one per player.
fn spawn_workers(players: &[PlayerId]) -> (r: Vec<WorkerSpawn>)
    requires
        players@.len() <= MAX_PLAYERS,
    ensures
        spawned(players@, r@),
{
    let total = players.len();
    let mut workers: Vec<WorkerSpawn> = Vec::new();
    let mut idx: usize = 0;
    while idx < total
        invariant
            0 <= idx <= total,
            total == players@.len(),
            total <= MAX_PLAYERS,
            spawned_upto(players@, idx as int, workers@),
        decreases total - idx,
    {
        let x = calculate_spawn_x(idx, total, FIELD_WIDTH);
        let spawn = WorkerSpawn { player_id: players[idx].clone(), position: Point::new(x, 0), index: idx as u32 };
        let ghost id = players@[idx as int]@;
        let ghost before = workers@;
        let found = find_worker(&workers, &spawn.player_id);
        if let Some(i) = found {
            assert(workers@[i as int].player_id@ == id);
            workers.set(i, spawn);
            assert forall|a: int, b: int|
                0 <= a < b < workers@.len() implies (#[trigger] workers@[a]).player_id@ != (
                #[trigger] workers@[b]).player_id@ by {
                assert(before[a].player_id@ != before[b].player_id@);
            }
            assert forall|p: Seq<char>|
                #[trigger] has_worker(workers@, p) <==> listed_upto(players@, idx + 1, p) by {
                if has_worker(workers@, p) {
                    let w = choose|w: int| 0 <= w < workers@.len() && (#[trigger] workers@[w]).player_id@ == p;
                    assert(before[w].player_id@ == p);
                }
                if listed_upto(players@, idx + 1, p) {
                    let k = choose|k: int| 0 <= k < idx + 1 && (#[trigger] players@[k])@ == p;
                    if k < idx {
                        assert(listed_upto(players@, idx as int, p));
                        assert(has_worker(before, p));
                        let w = choose|w: int| 0 <= w < before.len() && (#[trigger] before[w]).player_id@ == p;
                        assert(workers@[w].player_id@ == p);
                    } else {
                        assert(workers@[i as int].player_id@ == p);
                    }
                }
            }
            assert forall|w: int| 0 <= w < workers@.len() implies {
                let k = (#[trigger] workers@[w]).index as int;
                &&& 0 <= k < idx + 1
                &&& players@[k]@ == workers@[w].player_id@
                &&& forall|l: int| k < l < idx + 1 ==> (#[trigger] players@[l])@ != workers@[w].player_id@
                &&& workers@[w].position.x == spawn_x(k, players@.len() as int, FIELD_WIDTH as int)
                &&& workers@[w].position.y == 0
            } by {
                if w != i {
                    assert(workers@[w] == before[w]);
                    assert(before[w].player_id@ != before[i as int].player_id@);
                }
            }
        } else {
            workers.push(spawn);
            assert forall|a: int, b: int|
                0 <= a < b < workers@.len() implies (#[trigger] workers@[a]).player_id@ != (
                #[trigger] workers@[b]).player_id@ by {
                if b == before.len() {
                    assert(before[a].player_id@ != id);
                } else {
                    assert(before[a] == workers@[a] && before[b] == workers@[b]);
                }
            }
            assert forall|p: Seq<char>|
                #[trigger] has_worker(workers@, p) <==> listed_upto(players@, idx + 1, p) by {
                if has_worker(workers@, p) {
                    let w = choose|w: int| 0 <= w < workers@.len() && (#[trigger] workers@[w]).player_id@ == p;
                    if w < before.len() {
                        assert(before[w].player_id@ == p);
                    } else {
                        assert(players@[idx as int]@ == p);
                    }
                }
                if listed_upto(players@, idx + 1, p) {
                    let k = choose|k: int| 0 <= k < idx + 1 && (#[trigger] players@[k])@ == p;
                    if k < idx {
                        assert(listed_upto(players@, idx as int, p));
                        assert(has_worker(before, p));
                        let w = choose|w: int| 0 <= w < before.len() && (#[trigger] before[w]).player_id@ == p;
                        assert(workers@[w].player_id@ == p);
                    } else {
                        assert(workers@[before.len() as int].player_id@ == p);
                    }
                }
            }
            assert forall|w: int| 0 <= w < workers@.len() implies {
                let k = (#[trigger] workers@[w]).index as int;
                &&& 0 <= k < idx + 1
                &&& players@[k]@ == workers@[w].player_id@
                &&& forall|l: int| k < l < idx + 1 ==> (#[trigger] players@[l])@ != workers@[w].player_id@
                &&& workers@[w].position.x == spawn_x(k, players@.len() as int, FIELD_WIDTH as int)
                &&& workers@[w].position.y == 0
            } by {
                if w < before.len() {
                    assert(workers@[w] == before[w]);
                    assert(before[w].player_id@ != id);
                }
            }
        }
        idx = idx + 1;
    }
    workers
}

/// The score and pacing state of a stack attack game.
#[derive(Debug)]
pub struct StackAttackGameState {
    pub workers: Vec<WorkerSpawn>,
    pub score: u32,
    pub lines_cleared: u32,
    pub boxes_pushed: u32,
    pub game_over: bool,
    pub game_over_reason: Option<GameOverReason>,
    pub difficulty_level: u32,
    pub total_ticks: u64,
    pub ticks_since_last_crane: u32,
    pub next_crane_id: u32,
}

/// A crane sent in: its id, the column it enters from (just outside the
/// field on the left or on the right), the column it drops its box over,
/// and the shape of that box.
#[derive(Debug, Clone, Copy, PartialEq, Eq)]
pub struct CraneSpawn {
    pub crane_id: u32,
    pub start_x: i32,
    pub target_x: i32,
    pub pattern_id: u32,
}

impl StackAttackGameState {
    /// A game that has not started: a worker per player on the floor,
    /// spread evenly across the field, no score, level 1. A game holds at
    /// most `MAX_PLAYERS` players, as its lobby settings enforce.
    pub fn new(players: &[PlayerId]) -> (r: Self)
        requires
            players@.len() <= MAX_PLAYERS,
        ensures
            spawned(players@, r.workers@),
            r.score == 0,
            r.lines_cleared == 0,
            r.boxes_pushed == 0,
            !r.game_over,
            r.game_over_reason is None,
            r.difficulty_level == 1,
            r.total_ticks == 0,
            r.ticks_since_last_crane == 0,
            r.next_crane_id == 1,
    {
        Self {
            workers: spawn_workers(players),
            score: 0,
            lines_cleared: 0,
            boxes_pushed: 0,
            game_over: false,
            game_over_reason: None,
            difficulty_level: 1,
            total_ticks: 0,
            ticks_since_last_crane: 0,
            next_crane_id: 1,
        }
    }

    /// A disconnect ends the game.
    pub fn handle_player_disconnect(&mut self)
        ensures
            final(self).game_over,
            final(self).game_over_reason == Some(GameOverReason::PlayerDisconnected),
            final(self).score == old(self).score,
            final(self).workers@ == old(self).workers@,
            final(self).lines_cleared == old(self).lines_cleared,
            final(self).boxes_pushed == old(self).boxes_pushed,
            final(self).difficulty_level == old(self).difficulty_level,
            final(self).total_ticks == old(self).total_ticks,
            final(self).ticks_since_last_crane == old(self).ticks_since_last_crane,
            final(self).next_crane_id == old(self).next_crane_id,
    {
        self.game_over = true;
        self.game_over_reason = Some(GameOverReason::PlayerDisconnected);
    }

    pub fn is_game_over(&self) -> (r: bool)
        ensures
            r == self.game_over,
    {
        self.game_over
    }

    /// Sets the difficulty level from the number of ticks played.
    pub fn update_difficulty(&mut self)
        ensures
            final(self).difficulty_level == difficulty_for(old(self).total_ticks),
            final(self).score == old(self).score,
            final(self).workers@ == old(self).workers@,
            final(self).lines_cleared == old(self).lines_cleared,
            final(self).boxes_pushed == old(self).boxes_pushed,
            final(self).game_over == old(self).game_over,
            final(self).game_over_reason == old(self).game_over_reason,
            final(self).total_ticks == old(self).total_ticks,
            final(self).ticks_since_last_crane == old(self).ticks_since_last_crane,
            final(self).next_crane_id == old(self).next_crane_id,
    {
        let new_level = 1 + (self.total_ticks as u32 / TICKS_PER_DIFFICULTY_INCREASE);
        self.difficulty_level = new_level;
    }

    /// Ticks between crane spawns at the current level.
    pub fn get_current_crane_spawn_interval(&self) -> (r: u32)
        requires
            1 <= self.difficulty_level <= 0x7fff_ffff,
        ensures
            r == spawn_interval_for(self.difficulty_level as int),
    {
        let reduction = (self.difficulty_level - 1) * 2;
        let reduced = INITIAL_CRANE_SPAWN_INTERVAL_TICKS.saturating_sub(reduction);
        if reduced >= MIN_CRANE_SPAWN_INTERVAL_TICKS {
            reduced
        } else {
            MIN_CRANE_SPAWN_INTERVAL_TICKS
        }
    }

    /// Cranes allowed at once at the current level.
    pub fn get_current_max_cranes(&self) -> (r: u32)
        requires
            self.difficulty_level >= 1,
        ensures
            r == max_cranes_for(self.difficulty_level as int),
    {
        let increase = (self.difficulty_level - 1) / 2;
        let n = INITIAL_MAX_SIMULTANEOUS_CRANES + increase;
        if n <= MAX_SIMULTANEOUS_CRANES_CAP {
            n
        } else {
            MAX_SIMULTANEOUS_CRANES_CAP
        }
    }

    /// Counts one more tick since the last crane and, once the spawn
    /// interval of the current level has passed and fewer than the level's
    /// maximum of cranes (`active_cranes`) are on the field, sends in a new
    /// crane: the next crane id, a random target column of the field, a
    /// random side to enter from, and a random box pattern. The tick count
    /// then starts again from zero.
    pub fn maybe_spawn_crane(&mut self, rng: &mut SessionRng, active_cranes: usize) -> (r: Option<CraneSpawn>)
        requires
            1 <= old(self).difficulty_level <= 0x7fff_ffff,
            old(self).ticks_since_last_crane < u32::MAX,
            old(self).next_crane_id < u32::MAX,
        ensures
            ({
                let t = old(self).ticks_since_last_crane + 1;
                let level = old(self).difficulty_level as int;
                let due = t >= spawn_interval_for(level) && active_cranes < max_cranes_for(level);
                &&& due ==> {
                    &&& r matches Some(c)
                    &&& c.crane_id == old(self).next_crane_id
                    &&& 0 <= c.target_x < FIELD_WIDTH
                    &&& (c.start_x == -1 || c.start_x == FIELD_WIDTH)
                    &&& c.pattern_id < PATTERN_COUNT
                    &&& final(self).ticks_since_last_crane == 0
                    &&& final(self).next_crane_id == old(self).next_crane_id + 1
                }
                &&& !due ==> {
                    &&& r is None
                    &&& final(self).ticks_since_last_crane == t
                    &&& final(self).next_crane_id == old(self).next_crane_id
                }
            }),
            final(self).score == old(self).score,
            final(self).workers@ == old(self).workers@,
            final(self).lines_cleared == old(self).lines_cleared,
            final(self).boxes_pushed == old(self).boxes_pushed,
            final(self).game_over == old(self).game_over,
            final(self).game_over_reason == old(self).game_over_reason,
            final(self).difficulty_level == old(self).difficulty_level,
            final(self).total_ticks == old(self).total_ticks,
            final(rng).seed() == old(rng).seed(),
    {
        self.ticks_since_last_crane = self.ticks_since_last_crane + 1;
        let spawn_interval = self.get_current_crane_spawn_interval();
        let max_cranes = self.get_current_max_cranes();
        if self.ticks_since_last_crane < spawn_interval {
            return None;
        }
        if active_cranes >= max_cranes as usize {
            return None;
        }
        self.ticks_since_last_crane = 0;

        let width = FIELD_WIDTH as i32;
        let target_x = rng.random_range_i32(0, width);
        let from_left: bool = rng.random_bool();
        let start_x = if from_left {
            -1
        } else {
            width
        };
        let pattern_id = rng.random_range_u32(0, PATTERN_COUNT);

        let crane_id = self.next_crane_id;
        self.next_crane_id = self.next_crane_id + 1;
        Some(CraneSpawn { crane_id, start_x, target_x, pattern_id })
    }

    /// Scores the rows `cleared` removed in one tick: the score grows by
    /// the points for that many rows, the cleared-row count by their
    /// number, and each row gets an event with its share of points.
    pub fn award_cleared_lines(&mut self, cleared: Vec<i32>) -> (events: Vec<LineClearedEvent>)
        requires
            cleared@.len() <= 1000,
            old(self).score + points_for_lines(cleared@.len() as int) <= u32::MAX,
            old(self).lines_cleared + cleared@.len() <= u32::MAX,
        ensures
            final(self).score == old(self).score + points_for_lines(cleared@.len() as int),
            final(self).lines_cleared == old(self).lines_cleared + cleared@.len(),
            final(self).workers@ == old(self).workers@,
            final(self).boxes_pushed == old(self).boxes_pushed,
            final(self).game_over == old(self).game_over,
            final(self).game_over_reason == old(self).game_over_reason,
            final(self).difficulty_level == old(self).difficulty_level,
            final(self).total_ticks == old(self).total_ticks,
            final(self).ticks_since_last_crane == old(self).ticks_since_last_crane,
            final(self).next_crane_id == old(self).next_crane_id,
            events@.len() == cleared@.len(),
            forall|k: int| 0 <= k < events@.len() ==> #[trigger] events@[k] == (LineClearedEvent {
                y: cleared@[k],
                points_earned: points_per_row(cleared@.len() as int) as u32,
            }),
    {
        let mut events: Vec<LineClearedEvent> = Vec::new();
        if cleared.len() == 0 {
            return events;
        }
        let line_count = cleared.len() as u32;
        let base_points = line_count * POINTS_PER_LINE;
        let bonus = if line_count > 1 {
            (line_count - 1) * POINTS_PER_MULTI_LINE_BONUS
        } else {
            0
        };
        let total_points = base_points + bonus;
        self.score = self.score + total_points;
        self.lines_cleared = self.lines_cleared + line_count;

        let points = POINTS_PER_LINE + if line_count > 1 {
            POINTS_PER_MULTI_LINE_BONUS
        } else {
            0
        };
        let mut k: usize = 0;
        while k < cleared.len()
            invariant
                0 <= k <= cleared@.len(),
                line_count == cleared@.len(),
                points == points_per_row(cleared@.len() as int),
                events@.len() == k,
                forall|j: int| 0 <= j < k ==> #[trigger] events@[j] == (LineClearedEvent {
                    y: cleared@[j],
                    points_earned: points_per_row(cleared@.len() as int) as u32,
                }),
            decreases cleared@.len() - k,
        {
            events.push(LineClearedEvent { y: cleared[k], points_earned: points });
            k = k + 1;
        }
        events
    }
}

} // verus!
