//! What players are told when a game ends: the scores and winner of a
//! snake game, who receives the news, and the state of the vote to play
//! again.

use vstd::prelude::*;
use vstd::string::StringExecFns;
use crate::identifiers::{ClientId, PlayerId};
use crate::proto::game_service::PlayerIdentity;
use crate::snake::game::GameState as SnakeGameState;

verus! {

/// A player's final score on the wire.
#[derive(Debug, Clone, PartialEq, Eq)]
pub struct ScoreEntry {
    pub client_id: String,
    pub score: u32,
}

/// Index of the last snake, among the first `n`, with the highest score;
/// -1 when `n` is 0.
pub open spec fn last_best(scores: Seq<u32>, n: int) -> int
    decreases n,
{
    if n <= 0 {
        -1
    } else {
        let prev = last_best(scores, n - 1);
        if prev < 0 || scores[n - 1] >= scores[prev] {
            n - 1
        } else {
            prev
        }
    }
}

proof fn lemma_last_best(scores: Seq<u32>, n: int)
    requires
        0 <= n <= scores.len(),
    ensures
        n == 0 <==> last_best(scores, n) == -1,
        n > 0 ==> 0 <= last_best(scores, n) < n,
        n > 0 ==> forall|k: int| 0 <= k < n ==> #[trigger] scores[k] <= scores[last_best(scores, n)],
    decreases n,
{
    if n > 0 {
        lemma_last_best(scores, n - 1);
    }
}

/// The scores of a snake game, in moving order.
pub open spec fn snake_scores(state: SnakeGameState) -> Seq<u32> {
    state.snakes@.map_values(|e: crate::snake::game::SnakeEntry| e.snake.score)
}

/// `scores` and `winner` sum up the end of `state`: one score entry per
/// snake, in moving order, and the player of the last snake with the
/// highest score, or the empty text when there are no snakes.
pub open spec fn is_summary(state: SnakeGameState, scores: Seq<ScoreEntry>, winner: Seq<char>) -> bool {
    &&& scores.len() == state.snakes@.len()
    &&& forall|i: int|
        0 <= i < state.snakes@.len() ==> (#[trigger] scores[i]).client_id@ == state.snakes@[i].player_id@
            && scores[i].score == state.snakes@[i].snake.score
    &&& state.snakes@.len() == 0 ==> winner == ""@
    &&& state.snakes@.len() > 0 ==> winner == state.snakes@[last_best(
        snake_scores(state),
        state.snakes@.len() as int,
    )].player_id@
}

/// The end of a snake game: one score entry per snake, in moving order,
/// and the winner, the player of the last snake with the highest score, or
/// the empty text when there are no snakes.
pub fn game_over_summary(state: &SnakeGameState) -> (r: (Vec<ScoreEntry>, String))
    ensures
        is_summary(*state, r.0@, r.1@),
        r.0@.len() == state.snakes@.len(),
        forall|i: int|
            0 <= i < state.snakes@.len() ==> (#[trigger] r.0@[i]).client_id@ == state.snakes@[i].player_id@
                && r.0@[i].score == state.snakes@[i].snake.score,
        state.snakes@.len() == 0 ==> r.1@ == ""@,
        state.snakes@.len() > 0 ==> r.1@ == state.snakes@[last_best(
            snake_scores(*state),
            state.snakes@.len() as int,
        )].player_id@,
        state.snakes@.len() > 0 ==> forall|k: int|
            0 <= k < state.snakes@.len() ==> #[trigger] state.snakes@[k].snake.score <= state.snakes@[last_best(
                snake_scores(*state),
                state.snakes@.len() as int,
            )].snake.score,
{
    let ghost scores = snake_scores(*state);
    let mut entries: Vec<ScoreEntry> = Vec::new();
    let mut best: usize = 0;
    let mut i: usize = 0;
    while i < state.snakes.len()
        invariant
            0 <= i <= state.snakes@.len(),
            scores == snake_scores(*state),
            entries@.len() == i,
            forall|k: int|
                0 <= k < i ==> (#[trigger] entries@[k]).client_id@ == state.snakes@[k].player_id@
                    && entries@[k].score == state.snakes@[k].snake.score,
            i > 0 ==> best == last_best(scores, i as int),
        decreases state.snakes@.len() - i,
    {
        proof {
            lemma_last_best(scores, i as int);
        }
        let entry = &state.snakes[i];
        if i == 0 || entry.snake.score >= state.snakes[best].snake.score {
            best = i;
        }
        entries.push(ScoreEntry { client_id: entry.player_id.to_string(), score: entry.snake.score });
        i = i + 1;
    }
    proof {
        lemma_last_best(scores, i as int);
        assert forall|k: int| 0 <= k < state.snakes@.len() implies #[trigger] state.snakes@[k].snake.score
            <= state.snakes@[last_best(scores, i as int)].snake.score by {
            assert(scores[k] == state.snakes@[k].snake.score);
        }
    }
    let winner = if state.snakes.len() == 0 {
        String::from_str("")
    } else {
        state.snakes[best].player_id.to_string()
    };
    (entries, winner)
}

/// Who hears that a game ended: its human players, then its observers.
pub fn game_over_recipients(humans: &[PlayerId], observers: &[PlayerId]) -> (r: Vec<ClientId>)
    ensures
        r@.len() == humans@.len() + observers@.len(),
        forall|i: int| 0 <= i < humans@.len() ==> (#[trigger] r@[i])@ == humans@[i]@,
        forall|i: int|
            0 <= i < observers@.len() ==> (#[trigger] r@[humans@.len() + i])@ == observers@[i]@,
{
    let mut r: Vec<ClientId> = Vec::new();
    let mut i: usize = 0;
    while i < humans.len()
        invariant
            0 <= i <= humans@.len(),
            r@.len() == i,
            forall|k: int| 0 <= k < i ==> (#[trigger] r@[k])@ == humans@[k]@,
        decreases humans@.len() - i,
    {
        r.push(ClientId::new(humans[i].to_string()));
        i = i + 1;
    }
    let mut j: usize = 0;
    while j < observers.len()
        invariant
            0 <= j <= observers@.len(),
            r@.len() == humans@.len() + j,
            forall|k: int| 0 <= k < humans@.len() ==> (#[trigger] r@[k])@ == humans@[k]@,
            forall|k: int| 0 <= k < j ==> (#[trigger] r@[humans@.len() + k])@ == observers@[k]@,
        decreases observers@.len() - j,
    {
        r.push(ClientId::new(observers[j].to_string()));
        j = j + 1;
    }
    r
}

/// The vote to play again after a game: not open, or open with the
/// players who agreed and those still to answer.
#[derive(Debug, Clone, PartialEq, Eq)]
pub enum PlayAgainStatus {
    NotAvailable,
    Available { ready_player_ids: Vec<String>, pending_player_ids: Vec<String> },
}

/// The vote on the wire.
#[derive(Debug, Clone, PartialEq, Eq)]
pub struct PlayAgainStatusNotification {
    pub ready_players: Vec<PlayerIdentity>,
    pub pending_players: Vec<PlayerIdentity>,
    pub available: bool,
}

/// `ps` lists the human players named by `ids`, in order.
pub open spec fn humans_named(ps: Seq<PlayerIdentity>, ids: Seq<String>) -> bool {
    &&& ps.len() == ids.len()
    &&& forall|i: int| 0 <= i < ids.len() ==> (#[trigger] ps[i]).player_id@ == ids[i]@ && !ps[i].is_bot
}

fn humans_of(ids: &Vec<String>) -> (r: Vec<PlayerIdentity>)
    ensures
        humans_named(r@, ids@),
{
    let mut r: Vec<PlayerIdentity> = Vec::new();
    let mut i: usize = 0;
    while i < ids.len()
        invariant
            0 <= i <= ids@.len(),
            r@.len() == i,
            forall|k: int| 0 <= k < i ==> (#[trigger] r@[k]).player_id@ == ids@[k]@ && !r@[k].is_bot,
        decreases ids@.len() - i,
    {
        r.push(PlayerIdentity { player_id: ids[i].clone(), is_bot: false });
        i = i + 1;
    }
    r
}

/// `n` puts `status` on the wire: the agreed and pending players as
/// humans, and whether a vote is open at all.
pub open spec fn notifies(status: PlayAgainStatus, n: PlayAgainStatusNotification) -> bool {
    match status {
        PlayAgainStatus::NotAvailable => n.ready_players@.len() == 0 && n.pending_players@.len() == 0
            && !n.available,
        PlayAgainStatus::Available { ready_player_ids, pending_player_ids } => humans_named(
            n.ready_players@,
            ready_player_ids@,
        ) && humans_named(n.pending_players@, pending_player_ids@) && n.available,
    }
}

/// The vote on the wire: the agreed and pending players as humans, and
/// whether a vote is open at all.
pub fn play_again_notification(status: &PlayAgainStatus) -> (r: PlayAgainStatusNotification)
    ensures
        notifies(*status, r),
        status is NotAvailable ==> r.ready_players@.len() == 0 && r.pending_players@.len() == 0 && !r.available,
        status matches PlayAgainStatus::Available { ready_player_ids, pending_player_ids } ==> humans_named(
            r.ready_players@,
            ready_player_ids@,
        ) && humans_named(r.pending_players@, pending_player_ids@) && r.available,
{
    match status {
        PlayAgainStatus::NotAvailable => PlayAgainStatusNotification {
            ready_players: Vec::new(),
            pending_players: Vec::new(),
            available: false,
        },
        PlayAgainStatus::Available { ready_player_ids, pending_player_ids } => PlayAgainStatusNotification {
            ready_players: humans_of(ready_player_ids),
            pending_players: humans_of(pending_player_ids),
            available: true,
        },
    }
}

/// After a vote to play again: what the lobby is told, and whether the
/// next game starts, which it does once the vote is open and nobody is
/// still to answer.
pub fn play_again_step(status: &PlayAgainStatus) -> (r: (PlayAgainStatusNotification, bool))
    ensures
        status is NotAvailable ==> r.0.ready_players@.len() == 0 && r.0.pending_players@.len() == 0
            && !r.0.available,
        status matches PlayAgainStatus::Available { ready_player_ids, pending_player_ids } ==> humans_named(
            r.0.ready_players@,
            ready_player_ids@,
        ) && humans_named(r.0.pending_players@, pending_player_ids@) && r.0.available,
        r.1 <==> (status matches PlayAgainStatus::Available { pending_player_ids, .. } && pending_player_ids@.len()
            == 0),
{
    let notification = play_again_notification(status);
    let start = match status {
        PlayAgainStatus::Available { pending_player_ids, .. } => pending_player_ids.len() == 0,
        PlayAgainStatus::NotAvailable => false,
    };
    (notification, start)
}

} // verus!
