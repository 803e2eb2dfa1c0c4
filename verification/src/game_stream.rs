//! The game stream of a snake session: how a client joins it, steers its
//! snake and leaves, and when the feed of states ends with the scores.
//! The transport performs each action and hands back what came of it.

use vstd::prelude::*;
use crate::identifiers::{ClientId, SessionId};
use crate::proto::snake::Direction as WireDirection;
use crate::replay::actions::{convert_direction, snake_direction_of};
use crate::snake::game::{Direction, GameState as SnakeGameState};
use crate::game_over::{ScoreEntry, game_over_summary, is_summary};

verus! {

/// Where a game stream stands.
#[derive(Debug, PartialEq, Eq)]
pub enum GameStreamPhase {
    /// No client has connected yet.
    Waiting,
    /// The connection tracker was asked to add this client.
    Adding(ClientId),
    /// The client was added; its session is being looked up.
    Finding(ClientId),
    /// The client plays in this session.
    Playing(ClientId, SessionId),
    /// The stream is over.
    Closed,
}

/// What reaches a game stream: a client message, or the answer to the
/// last action.
#[derive(Debug, PartialEq, Eq)]
pub enum GameStreamEvent {
    /// The client asks to join, under this id.
    Connect(ClientId),
    /// The client leaves.
    Disconnect,
    /// The client turns its snake.
    Turn(WireDirection),
    /// Whether the tracker added the client.
    Added(bool),
    /// The client's session, if it has one.
    SessionFound(Option<SessionId>),
    /// The incoming stream ended or failed.
    Ended,
}

/// What the transport does next.
#[derive(Debug, PartialEq, Eq)]
pub enum GameStreamAction {
    Nothing,
    /// Ask the connection tracker to add this game client.
    AddClient(ClientId),
    /// Look up the session of this client.
    FindSession(ClientId),
    /// Start sending the states of this session.
    StartFeed(SessionId),
    /// Steer the client's snake in its session.
    SetDirection(SessionId, ClientId, Direction),
    /// Remove the client from the tracker and close the stream.
    RemoveClientAndClose(ClientId),
    /// Close the stream.
    Close,
}

/// The events a phase can receive: the tracker's answer while adding, the
/// session lookup's answer while finding, client messages otherwise, and
/// nothing once closed.
pub open spec fn stream_expects(phase: GameStreamPhase, event: GameStreamEvent) -> bool {
    match phase {
        GameStreamPhase::Adding(_) => event is Added,
        GameStreamPhase::Finding(_) => event is SessionFound,
        GameStreamPhase::Closed => false,
        _ => !(event is Added) && !(event is SessionFound),
    }
}

/// One step of a game stream. Before a client has joined, a connect asks
/// the tracker to add it, a turn is ignored, and a disconnect or the end of
/// the input closes the stream. A client the tracker refuses closes it; an
/// added client without a session is removed and the stream closes; with a
/// session, the client plays and its feed starts. While playing, a turn
/// with a direction steers the snake (an unspecified one is ignored), and a
/// second connect, a disconnect or the end of the input removes the client
/// and closes the stream.
pub open spec fn stream_moved(
    phase: GameStreamPhase,
    event: GameStreamEvent,
    next: GameStreamPhase,
    action: GameStreamAction,
) -> bool {
    match phase {
        GameStreamPhase::Waiting => match event {
            GameStreamEvent::Connect(c) => (next matches GameStreamPhase::Adding(a) && a@ == c@) && (
            action matches GameStreamAction::AddClient(b) && b@ == c@),
            GameStreamEvent::Turn(_) => next is Waiting && action is Nothing,
            _ => next is Closed && action is Close,
        },
        GameStreamPhase::Adding(c) => match event {
            GameStreamEvent::Added(true) => (next matches GameStreamPhase::Finding(a) && a@ == c@) && (
            action matches GameStreamAction::FindSession(b) && b@ == c@),
            _ => next is Closed && action is Close,
        },
        GameStreamPhase::Finding(c) => match event {
            GameStreamEvent::SessionFound(Some(s)) => (next matches GameStreamPhase::Playing(a, t) && a@
                == c@ && t@ == s@) && (action matches GameStreamAction::StartFeed(u) && u@ == s@),
            _ => next is Closed && (action matches GameStreamAction::RemoveClientAndClose(b) && b@ == c@),
        },
        GameStreamPhase::Playing(c, s) => match event {
            GameStreamEvent::Turn(d) => next == phase && match snake_direction_of(d) {
                Some(dir) => action matches GameStreamAction::SetDirection(t, b, e) && t@ == s@ && b@ == c@
                    && e == dir,
                None => action is Nothing,
            },
            _ => next is Closed && (action matches GameStreamAction::RemoveClientAndClose(b) && b@ == c@),
        },
        GameStreamPhase::Closed => next is Closed && action is Close,
    }
}

/// One step of a game stream: the next phase and what the transport does.
pub fn game_stream_step(phase: GameStreamPhase, event: GameStreamEvent) -> (r: (
    GameStreamPhase,
    GameStreamAction,
))
    requires
        stream_expects(phase, event),
    ensures
        stream_moved(phase, event, r.0, r.1),
{
    match phase {
        GameStreamPhase::Waiting => match event {
            GameStreamEvent::Connect(c) => {
                let a = c.clone();
                (GameStreamPhase::Adding(c), GameStreamAction::AddClient(a))
            },
            GameStreamEvent::Turn(_) => (GameStreamPhase::Waiting, GameStreamAction::Nothing),
            _ => (GameStreamPhase::Closed, GameStreamAction::Close),
        },
        GameStreamPhase::Adding(c) => match event {
            GameStreamEvent::Added(true) => {
                let a = c.clone();
                (GameStreamPhase::Finding(c), GameStreamAction::FindSession(a))
            },
            _ => (GameStreamPhase::Closed, GameStreamAction::Close),
        },
        GameStreamPhase::Finding(c) => match event {
            GameStreamEvent::SessionFound(Some(s)) => {
                let t = s.clone();
                (GameStreamPhase::Playing(c, s), GameStreamAction::StartFeed(t))
            },
            _ => (GameStreamPhase::Closed, GameStreamAction::RemoveClientAndClose(c)),
        },
        GameStreamPhase::Playing(c, s) => match event {
            GameStreamEvent::Turn(d) => {
                let action = match convert_direction(d) {
                    Some(dir) => GameStreamAction::SetDirection(s.clone(), c.clone(), dir),
                    None => GameStreamAction::Nothing,
                };
                (GameStreamPhase::Playing(c, s), action)
            },
            _ => (GameStreamPhase::Closed, GameStreamAction::RemoveClientAndClose(c)),
        },
        GameStreamPhase::Closed => (GameStreamPhase::Closed, GameStreamAction::Close),
    }
}

/// What the state feed does after a tick.
#[derive(Debug, PartialEq, Eq)]
pub enum FeedStep {
    /// Wait for the next tick.
    Continue,
    /// Stop sending.
    Stop,
    /// Send the end of the game, these scores and this winner, then stop.
    Finish(Vec<ScoreEntry>, String),
}

/// The feed after a tick: `state` is the session's state, none once the
/// session is gone; `sent` says whether the state reached the client and
/// `over` whether the game has ended. A gone session or a closed client
/// stops the feed; a finished game ends it with its scores and winner,
/// right after its last state; otherwise the feed goes on.
pub fn feed_step(state: Option<&SnakeGameState>, sent: bool, over: bool) -> (r: FeedStep)
    ensures
        state is None || !sent ==> r is Stop,
        state is Some && sent && !over ==> r is Continue,
        state matches Some(st) ==> (sent && over ==> (r matches FeedStep::Finish(scores, winner)
            && is_summary(*st, scores@, winner@))),
{
    match state {
        None => FeedStep::Stop,
        Some(st) => {
            if !sent {
                FeedStep::Stop
            } else if !over {
                FeedStep::Continue
            } else {
                let (scores, winner) = game_over_summary(st);
                FeedStep::Finish(scores, winner)
            }
        },
    }
}

} // verus!
