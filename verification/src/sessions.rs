//! The registry of running game sessions, which maps each human client to
//! its session, and the steps that close a session when its game is over.

use vstd::prelude::*;
use crate::identifiers::{ClientId, LobbyId, PlayerId, SessionId};
use crate::game_over::{PlayAgainStatus, PlayAgainStatusNotification, notifies, play_again_notification};

verus! {

/// The running sessions and the session of each human client.
#[derive(Debug)]
pub struct SessionRegistry {
    sessions: Vec<SessionId>,
    clients: Vec<(ClientId, SessionId)>,
}

/// Whether `ids` names `c`.
pub open spec fn names(ids: Seq<PlayerId>, c: Seq<char>) -> bool {
    exists|k: int| 0 <= k < ids.len() && (#[trigger] ids[k])@ == c
}

impl SessionRegistry {
    /// No session is listed twice and no client is mapped twice.
    pub closed spec fn wf(&self) -> bool {
        &&& forall|i: int, j: int|
            0 <= i < j < self.sessions@.len() ==> (#[trigger] self.sessions@[i])@ != (#[trigger] self.sessions@[j])@
        &&& forall|i: int, j: int|
            0 <= i < j < self.clients@.len() ==> (#[trigger] self.clients@[i]).0@ != (#[trigger] self.clients@[j]).0@
    }

    /// Whether a session with this id runs.
    pub closed spec fn has_session(&self, s: Seq<char>) -> bool {
        exists|i: int| 0 <= i < self.sessions@.len() && (#[trigger] self.sessions@[i])@ == s
    }

    /// Whether client `c` is mapped to session `t`.
    pub closed spec fn maps(&self, c: Seq<char>, t: Seq<char>) -> bool {
        exists|i: int|
            0 <= i < self.clients@.len() && (#[trigger] self.clients@[i]).0@ == c && self.clients@[i].1@ == t
    }

    /// A client is mapped to at most one session.
    pub proof fn lemma_one_session_per_client(&self, c: Seq<char>, t1: Seq<char>, t2: Seq<char>)
        requires
            self.wf(),
            self.maps(c, t1),
            self.maps(c, t2),
        ensures
            t1 == t2,
    {
        let i = choose|i: int|
            0 <= i < self.clients@.len() && (#[trigger] self.clients@[i]).0@ == c && self.clients@[i].1@ == t1;
        let j = choose|j: int|
            0 <= j < self.clients@.len() && (#[trigger] self.clients@[j]).0@ == c && self.clients@[j].1@ == t2;
        if i < j {
            assert(self.clients@[i].0@ != self.clients@[j].0@);
        } else if j < i {
            assert(self.clients@[j].0@ != self.clients@[i].0@);
        }
    }

    /// An empty registry.
    pub fn new() -> (r: Self)
        ensures
            r.wf(),
            forall|s: Seq<char>| !r.has_session(s),
            forall|c: Seq<char>, t: Seq<char>| !r.maps(c, t),
    {
        SessionRegistry { sessions: Vec::new(), clients: Vec::new() }
    }

    /// Whether a session with this id runs.
    pub fn contains_session(&self, session_id: &SessionId) -> (r: bool)
        ensures
            r == self.has_session(session_id@),
    {
        let mut i: usize = 0;
        while i < self.sessions.len()
            invariant
                0 <= i <= self.sessions@.len(),
                forall|k: int| 0 <= k < i ==> (#[trigger] self.sessions@[k])@ != session_id@,
            decreases self.sessions@.len() - i,
        {
            if self.sessions[i].0 == session_id.0 {
                return true;
            }
            i = i + 1;
        }
        false
    }

    /// The session of a client, if it has one.
    pub fn session_for_client(&self, client_id: &ClientId) -> (r: Option<SessionId>)
        requires
            self.wf(),
        ensures
            r matches Some(t) ==> self.maps(client_id@, t@),
            r is None ==> forall|t: Seq<char>| !self.maps(client_id@, t),
    {
        let mut i: usize = 0;
        while i < self.clients.len()
            invariant
                0 <= i <= self.clients@.len(),
                forall|k: int| 0 <= k < i ==> (#[trigger] self.clients@[k]).0@ != client_id@,
            decreases self.clients@.len() - i,
        {
            if self.clients[i].0.0 == client_id.0 {
                return Some(self.clients[i].1.clone());
            }
            i = i + 1;
        }
        None
    }

    fn map_client(&mut self, client_id: ClientId, session_id: &SessionId)
        requires
            old(self).wf(),
        ensures
            final(self).wf(),
            final(self).sessions@ == old(self).sessions@,
            forall|c: Seq<char>, t: Seq<char>|
                final(self).maps(c, t) <==> if c == client_id@ {
                    t == session_id@
                } else {
                    old(self).maps(c, t)
                },
    {
        let mut i: usize = 0;
        while i < self.clients.len()
            invariant
                0 <= i <= self.clients@.len(),
                self.clients@ == old(self).clients@,
                self.sessions@ == old(self).sessions@,
                old(self).wf(),
                forall|k: int| 0 <= k < i ==> (#[trigger] self.clients@[k]).0@ != client_id@,
            decreases self.clients@.len() - i,
        {
            if self.clients[i].0.0 == client_id.0 {
                let ghost before = self.clients@;
                self.clients.set(i, (client_id, session_id.clone()));
                assert forall|k: int| 0 <= k < before.len() implies (#[trigger] self.clients@[k]).0@ == before[k].0@ by {
                    if k == i {
                        assert(self.clients@[k].0@ == before[i as int].0@);
                    }
                }
                assert forall|c: Seq<char>, t: Seq<char>|
                    self.maps(c, t) <==> if c == before[i as int].0@ {
                        t == session_id@
                    } else {
                        old(self).maps(c, t)
                    } by {
                    if c == before[i as int].0@ {
                        if self.maps(c, t) {
                            let k = choose|k: int|
                                0 <= k < self.clients@.len() && (#[trigger] self.clients@[k]).0@ == c
                                    && self.clients@[k].1@ == t;
                            if k != i {
                                assert(before[k].0@ == before[i as int].0@);
                            }
                        }
                        if t == session_id@ {
                            assert(self.clients@[i as int].0@ == c);
                        }
                    } else {
                        if self.maps(c, t) {
                            let k = choose|k: int|
                                0 <= k < self.clients@.len() && (#[trigger] self.clients@[k]).0@ == c
                                    && self.clients@[k].1@ == t;
                            assert(before[k].0@ == c);
                        }
                        if old(self).maps(c, t) {
                            let k = choose|k: int|
                                0 <= k < before.len() && (#[trigger] before[k]).0@ == c && before[k].1@ == t;
                            assert(self.clients@[k].0@ == c);
                        }
                    }
                }
                return;
            }
            i = i + 1;
        }
        let ghost before = self.clients@;
        self.clients.push((client_id, session_id.clone()));
        assert forall|a: int, b: int|
            0 <= a < b < self.clients@.len() implies (#[trigger] self.clients@[a]).0@ != (
            #[trigger] self.clients@[b]).0@ by {
            if b == before.len() {
                assert(before[a].0@ != client_id@);
            } else {
                assert(before[a] == self.clients@[a] && before[b] == self.clients@[b]);
            }
        }
        assert forall|c: Seq<char>, t: Seq<char>|
            self.maps(c, t) <==> if c == client_id@ {
                t == session_id@
            } else {
                old(self).maps(c, t)
            } by {
            if self.maps(c, t) {
                let k = choose|k: int|
                    0 <= k < self.clients@.len() && (#[trigger] self.clients@[k]).0@ == c && self.clients@[k].1@ == t;
                if k < before.len() {
                    assert(before[k].0@ == c);
                }
            }
            if c == client_id@ && t == session_id@ {
                assert(self.clients@[before.len() as int].0@ == c);
            }
            if c != client_id@ && old(self).maps(c, t) {
                let k = choose|k: int| 0 <= k < before.len() && (#[trigger] before[k]).0@ == c && before[k].1@ == t;
                assert(self.clients@[k].0@ == c);
            }
        }
    }

    /// Registers a session and maps each of its human players, as a client,
    /// to it; a client already mapped elsewhere is moved to this session.
    pub fn register(&mut self, session_id: SessionId, human_players: &[PlayerId])
        requires
            old(self).wf(),
        ensures
            final(self).wf(),
            forall|s: Seq<char>| final(self).has_session(s) <==> old(self).has_session(s) || s == session_id@,
            forall|c: Seq<char>, t: Seq<char>|
                final(self).maps(c, t) <==> if names(human_players@, c) {
                    t == session_id@
                } else {
                    old(self).maps(c, t)
                },
    {
        if !self.contains_session(&session_id) {
            let ghost before = self.sessions@;
            self.sessions.push(session_id.clone());
            assert forall|a: int, b: int|
                0 <= a < b < self.sessions@.len() implies (#[trigger] self.sessions@[a])@ != (
                #[trigger] self.sessions@[b])@ by {
                if b == before.len() {
                    assert(before[a] == self.sessions@[a]);
                } else {
                    assert(before[a] == self.sessions@[a] && before[b] == self.sessions@[b]);
                }
            }
            assert forall|s: Seq<char>| self.has_session(s) <==> old(self).has_session(s) || s == session_id@ by {
                if self.has_session(s) {
                    let k = choose|k: int| 0 <= k < self.sessions@.len() && (#[trigger] self.sessions@[k])@ == s;
                    if k < before.len() {
                        assert(before[k] == self.sessions@[k]);
                    }
                }
                if old(self).has_session(s) {
                    let k = choose|k: int| 0 <= k < before.len() && (#[trigger] before[k])@ == s;
                    assert(self.sessions@[k] == before[k]);
                }
                if s == session_id@ {
                    assert(self.sessions@[before.len() as int]@ == s);
                }
            }
        }
        let ghost sessions_now = self.sessions@;
        assert(self.clients@ == old(self).clients@);
        assert forall|c: Seq<char>, t: Seq<char>| self.maps(c, t) <==> old(self).maps(c, t) by {}
        assert forall|c: Seq<char>| !names(human_players@.subrange(0, 0), c) by {}
        let mut j: usize = 0;
        while j < human_players.len()
            invariant
                0 <= j <= human_players@.len(),
                self.wf(),
                self.sessions@ == sessions_now,
                forall|s: Seq<char>| self.has_session(s) <==> old(self).has_session(s) || s == session_id@,
                forall|c: Seq<char>, t: Seq<char>|
                    self.maps(c, t) <==> if names(human_players@.subrange(0, j as int), c) {
                        t == session_id@
                    } else {
                        old(self).maps(c, t)
                    },
            decreases human_players@.len() - j,
        {
            let ghost prev = human_players@.subrange(0, j as int);
            let ghost next = human_players@.subrange(0, j + 1);
            let c = ClientId::new(human_players[j].to_string());
            self.map_client(c, &session_id);
            assert forall|c: Seq<char>| names(next, c) <==> names(prev, c) || c == human_players@[j as int]@ by {
                if names(next, c) {
                    let k = choose|k: int| 0 <= k < next.len() && (#[trigger] next[k])@ == c;
                    if k < j {
                        assert(prev[k] == next[k]);
                    }
                }
                if names(prev, c) {
                    let k = choose|k: int| 0 <= k < prev.len() && (#[trigger] prev[k])@ == c;
                    assert(next[k] == prev[k]);
                }
                if c == human_players@[j as int]@ {
                    assert(next[j as int] == human_players@[j as int]);
                }
            }
            j = j + 1;
        }
        assert(human_players@.subrange(0, j as int) =~= human_players@);
    }

    /// Removes a session, and every client mapped to it.
    pub fn remove_session(&mut self, session_id: &SessionId)
        requires
            old(self).wf(),
        ensures
            final(self).wf(),
            forall|s: Seq<char>| final(self).has_session(s) <==> old(self).has_session(s) && s != session_id@,
            forall|c: Seq<char>, t: Seq<char>| final(self).maps(c, t) <==> old(self).maps(c, t) && t != session_id@,
    {
        let ghost old_sessions = self.sessions@;
        let ghost old_clients = self.clients@;
        let mut kept_sessions: Vec<SessionId> = Vec::new();
        let ghost mut sidx: Seq<int> = Seq::empty();
        let mut i: usize = 0;
        while i < self.sessions.len()
            invariant
                0 <= i <= self.sessions@.len(),
                self.sessions@ == old_sessions,
                self.clients@ == old_clients,
                old(self).sessions@ == old_sessions,
                old(self).clients@ == old_clients,
                old(self).wf(),
                sidx.len() == kept_sessions@.len(),
                forall|k: int| 0 <= k < sidx.len() ==> 0 <= #[trigger] sidx[k] < i,
                forall|k: int, l: int| 0 <= k < l < sidx.len() ==> #[trigger] sidx[k] < #[trigger] sidx[l],
                forall|k: int|
                    0 <= k < kept_sessions@.len() ==> (#[trigger] kept_sessions@[k])@ == old_sessions[sidx[k]]@
                        && kept_sessions@[k]@ != session_id@,
                forall|m: int|
                    0 <= m < i && old_sessions[m]@ != session_id@ ==> exists|k: int|
                        0 <= k < sidx.len() && #[trigger] sidx[k] == m,
            decreases self.sessions@.len() - i,
        {
            if self.sessions[i].0 != session_id.0 {
                kept_sessions.push(self.sessions[i].clone());
                proof {
                    let ghost prev = sidx;
                    sidx = sidx.push(i as int);
                    assert(sidx[sidx.len() - 1] == i as int);
                    assert forall|m: int|
                        0 <= m < i + 1 && old_sessions[m]@ != session_id@ implies exists|k: int|
                            0 <= k < sidx.len() && #[trigger] sidx[k] == m by {
                        if m < i {
                            let k = choose|k: int| 0 <= k < prev.len() && #[trigger] prev[k] == m;
                            assert(sidx[k] == prev[k]);
                        } else {
                            assert(sidx[sidx.len() - 1] == m);
                        }
                    }
                }
            }
            i = i + 1;
        }
        let mut kept_clients: Vec<(ClientId, SessionId)> = Vec::new();
        let ghost mut cidx: Seq<int> = Seq::empty();
        let mut j: usize = 0;
        while j < self.clients.len()
            invariant
                0 <= j <= self.clients@.len(),
                self.clients@ == old_clients,
                old(self).clients@ == old_clients,
                old(self).wf(),
                cidx.len() == kept_clients@.len(),
                forall|k: int| 0 <= k < cidx.len() ==> 0 <= #[trigger] cidx[k] < j,
                forall|k: int, l: int| 0 <= k < l < cidx.len() ==> #[trigger] cidx[k] < #[trigger] cidx[l],
                forall|k: int|
                    0 <= k < kept_clients@.len() ==> (#[trigger] kept_clients@[k]).0@ == old_clients[cidx[k]].0@
                        && kept_clients@[k].1@ == old_clients[cidx[k]].1@ && kept_clients@[k].1@ != session_id@,
                forall|m: int|
                    0 <= m < j && old_clients[m].1@ != session_id@ ==> exists|k: int|
                        0 <= k < cidx.len() && #[trigger] cidx[k] == m,
            decreases self.clients@.len() - j,
        {
            if self.clients[j].1.0 != session_id.0 {
                let entry = (self.clients[j].0.clone(), self.clients[j].1.clone());
                kept_clients.push(entry);
                proof {
                    let ghost prev = cidx;
                    cidx = cidx.push(j as int);
                    assert(cidx[cidx.len() - 1] == j as int);
                    assert forall|m: int|
                        0 <= m < j + 1 && old_clients[m].1@ != session_id@ implies exists|k: int|
                            0 <= k < cidx.len() && #[trigger] cidx[k] == m by {
                        if m < j {
                            let k = choose|k: int| 0 <= k < prev.len() && #[trigger] prev[k] == m;
                            assert(cidx[k] == prev[k]);
                        } else {
                            assert(cidx[cidx.len() - 1] == m);
                        }
                    }
                }
            }
            j = j + 1;
        }
        self.sessions = kept_sessions;
        self.clients = kept_clients;
        assert forall|a: int, b: int|
            0 <= a < b < self.sessions@.len() implies (#[trigger] self.sessions@[a])@ != (
            #[trigger] self.sessions@[b])@ by {
            assert(sidx[a] < sidx[b]);
            assert(old_sessions[sidx[a]]@ != old_sessions[sidx[b]]@);
        }
        assert forall|a: int, b: int|
            0 <= a < b < self.clients@.len() implies (#[trigger] self.clients@[a]).0@ != (
            #[trigger] self.clients@[b]).0@ by {
            assert(cidx[a] < cidx[b]);
            assert(old_clients[cidx[a]].0@ != old_clients[cidx[b]].0@);
        }
        assert forall|s: Seq<char>| self.has_session(s) <==> old(self).has_session(s) && s != session_id@ by {
            if self.has_session(s) {
                let k = choose|k: int| 0 <= k < self.sessions@.len() && (#[trigger] self.sessions@[k])@ == s;
                assert(old_sessions[sidx[k]]@ == s);
            }
            if old(self).has_session(s) && s != session_id@ {
                let m = choose|m: int| 0 <= m < old_sessions.len() && (#[trigger] old_sessions[m])@ == s;
                let k = choose|k: int| 0 <= k < sidx.len() && #[trigger] sidx[k] == m;
                assert(self.sessions@[k]@ == s);
            }
        }
        assert forall|c: Seq<char>, t: Seq<char>| self.maps(c, t) <==> old(self).maps(c, t) && t != session_id@ by {
            if self.maps(c, t) {
                let k = choose|k: int|
                    0 <= k < self.clients@.len() && (#[trigger] self.clients@[k]).0@ == c && self.clients@[k].1@ == t;
                assert(old_clients[cidx[k]].0@ == c);
            }
            if old(self).maps(c, t) && t != session_id@ {
                let m = choose|m: int|
                    0 <= m < old_clients.len() && (#[trigger] old_clients[m]).0@ == c && old_clients[m].1@ == t;
                let k = choose|k: int| 0 <= k < cidx.len() && #[trigger] cidx[k] == m;
                assert(self.clients@[k].0@ == c);
            }
        }
    }
}

/// A message that the end of a game brings to its human players and
/// observers.
#[derive(Debug, PartialEq, Eq)]
pub enum GameEndMessage {
    /// The notification the game ended with.
    GameOver,
    /// The game's replay file.
    ReplayFile,
    /// The vote to play again.
    PlayAgainStatus(PlayAgainStatusNotification),
}

/// What closing a finished game does next.
#[derive(Debug, PartialEq, Eq)]
pub enum GameOverAction {
    /// Send this to the game's human players, then its observers.
    Broadcast(GameEndMessage),
    /// Finish the game's replay, if it records one.
    FinalizeReplay,
    /// End the game of the lobby of this name.
    EndLobbyGame(LobbyId),
    /// Ask the lobby of this name for its vote to play again.
    QueryPlayAgain(LobbyId),
    /// Remove the session and its clients from the registry.
    RemoveSession,
}

/// How far closing a finished game has come.
#[derive(Debug, Clone, Copy, PartialEq, Eq, Structural)]
pub enum GameOverStage {
    Start,
    Finalizing,
    EndingLobby,
    AskingVote,
    Done,
}

/// What reaches the closing of a finished game: the start, then the answer
/// to the last action.
#[derive(Debug, PartialEq, Eq)]
pub enum GameOverEvent {
    Begin,
    /// Whether a replay file came out.
    ReplayReady(bool),
    /// Whether the lobby's game could be ended.
    LobbyEnded(bool),
    /// The lobby's vote to play again; none when the lobby is gone or did
    /// not answer.
    VoteStatus(Option<PlayAgainStatus>),
}

/// The event each stage waits for.
pub open spec fn game_over_expects(stage: GameOverStage, event: GameOverEvent) -> bool {
    match stage {
        GameOverStage::Start => event is Begin,
        GameOverStage::Finalizing => event is ReplayReady,
        GameOverStage::EndingLobby => event is LobbyEnded,
        GameOverStage::AskingVote => event is VoteStatus,
        GameOverStage::Done => false,
    }
}

/// The place of an action in the closing of a game.
pub open spec fn rank(a: GameOverAction) -> int {
    match a {
        GameOverAction::Broadcast(GameEndMessage::GameOver) => 0,
        GameOverAction::FinalizeReplay => 1,
        GameOverAction::Broadcast(GameEndMessage::ReplayFile) => 2,
        GameOverAction::EndLobbyGame(_) => 3,
        GameOverAction::QueryPlayAgain(_) => 4,
        GameOverAction::Broadcast(GameEndMessage::PlayAgainStatus(_)) => 5,
        GameOverAction::RemoveSession => 6,
    }
}

/// One step of closing the finished game of session `sid`. It starts by
/// sending the game over notice and finishing the replay; a replay file
/// that came out is sent next, and the lobby named like the session ends
/// its game. Once it has, the lobby's vote to play again is asked for and,
/// if the lobby answers, sent. Whether or not the lobby's game could be
/// ended, the session is removed last.
pub open spec fn game_over_moved(
    stage: GameOverStage,
    event: GameOverEvent,
    sid: Seq<char>,
    next: GameOverStage,
    acts: Seq<GameOverAction>,
) -> bool {
    match (stage, event) {
        (GameOverStage::Start, _) => next == GameOverStage::Finalizing && acts.len() == 2 && acts[0]
            == GameOverAction::Broadcast(GameEndMessage::GameOver) && acts[1] == GameOverAction::FinalizeReplay,
        (GameOverStage::Finalizing, GameOverEvent::ReplayReady(ready)) => next == GameOverStage::EndingLobby
            && if ready {
            acts.len() == 2 && acts[0] == GameOverAction::Broadcast(GameEndMessage::ReplayFile) && (
            acts[1] matches GameOverAction::EndLobbyGame(l) && l@ == sid)
        } else {
            acts.len() == 1 && (acts[0] matches GameOverAction::EndLobbyGame(l) && l@ == sid)
        },
        (GameOverStage::EndingLobby, GameOverEvent::LobbyEnded(ended)) => if ended {
            next == GameOverStage::AskingVote && acts.len() == 1 && (acts[0] matches GameOverAction::QueryPlayAgain(
                l,
            ) && l@ == sid)
        } else {
            next == GameOverStage::Done && acts.len() == 1 && acts[0] == GameOverAction::RemoveSession
        },
        (GameOverStage::AskingVote, GameOverEvent::VoteStatus(status)) => next == GameOverStage::Done
            && match status {
            Some(st) => acts.len() == 2 && (acts[0] matches GameOverAction::Broadcast(
                GameEndMessage::PlayAgainStatus(n),
            ) && notifies(st, n)) && acts[1] == GameOverAction::RemoveSession,
            None => acts.len() == 1 && acts[0] == GameOverAction::RemoveSession,
        },
        _ => false,
    }
}

/// One step of closing the finished game of a session.
pub fn game_over_step(stage: GameOverStage, event: GameOverEvent, session_id: &SessionId) -> (r: (
    GameOverStage,
    Vec<GameOverAction>,
))
    requires
        game_over_expects(stage, event),
    ensures
        game_over_moved(stage, event, session_id@, r.0, r.1@),
{
    let mut acts: Vec<GameOverAction> = Vec::new();
    match stage {
        GameOverStage::Start => {
            acts.push(GameOverAction::Broadcast(GameEndMessage::GameOver));
            acts.push(GameOverAction::FinalizeReplay);
            (GameOverStage::Finalizing, acts)
        },
        GameOverStage::Finalizing => {
            if let GameOverEvent::ReplayReady(true) = event {
                acts.push(GameOverAction::Broadcast(GameEndMessage::ReplayFile));
            }
            acts.push(GameOverAction::EndLobbyGame(LobbyId::new(session_id.to_string())));
            (GameOverStage::EndingLobby, acts)
        },
        GameOverStage::EndingLobby => {
            if let GameOverEvent::LobbyEnded(true) = event {
                acts.push(GameOverAction::QueryPlayAgain(LobbyId::new(session_id.to_string())));
                (GameOverStage::AskingVote, acts)
            } else {
                acts.push(GameOverAction::RemoveSession);
                (GameOverStage::Done, acts)
            }
        },
        _ => {
            if let GameOverEvent::VoteStatus(Some(st)) = event {
                acts.push(GameOverAction::Broadcast(GameEndMessage::PlayAgainStatus(play_again_notification(&st))));
            }
            acts.push(GameOverAction::RemoveSession);
            (GameOverStage::Done, acts)
        },
    }
}

/// The places of the actions that close a game, in order: the game over
/// notice, the replay, the replay file if one came out, the end of the
/// lobby's game, then, if it ended, the request for the vote and the vote
/// if the lobby answered, and the removal of the session.
pub open spec fn closing_ranks(ready: bool, ended: bool, answered: bool) -> Seq<int> {
    seq![0int, 1int] + (if ready {
        seq![2int]
    } else {
        seq![]
    }) + seq![3int] + (if ended {
        seq![4int] + if answered {
            seq![5int]
        } else {
            seq![]
        }
    } else {
        seq![]
    }) + seq![6int]
}

/// Closing a finished game, step by step: whatever the replay, the lobby
/// and its vote answer, the players hear of the game's end first, the
/// replay file comes before the vote, each action happens at most once, the
/// session is removed last and the closing is then done.
pub proof fn lemma_game_over_order(
    sid: Seq<char>,
    ready: bool,
    ended: bool,
    status: Option<PlayAgainStatus>,
    s1: GameOverStage,
    s2: GameOverStage,
    s3: GameOverStage,
    s4: GameOverStage,
    a1: Seq<GameOverAction>,
    a2: Seq<GameOverAction>,
    a3: Seq<GameOverAction>,
    a4: Seq<GameOverAction>,
)
    requires
        game_over_moved(GameOverStage::Start, GameOverEvent::Begin, sid, s1, a1),
        game_over_moved(s1, GameOverEvent::ReplayReady(ready), sid, s2, a2),
        game_over_moved(s2, GameOverEvent::LobbyEnded(ended), sid, s3, a3),
        ended ==> game_over_moved(s3, GameOverEvent::VoteStatus(status), sid, s4, a4),
    ensures
        (if ended { s4 } else { s3 }) == GameOverStage::Done,
        (a1 + a2 + a3 + (if ended { a4 } else { seq![] })).map_values(|a: GameOverAction| rank(a))
            == closing_ranks(ready, ended, status is Some),
{
    let all = a1 + a2 + a3 + (if ended { a4 } else { seq![] });
    let ranks = closing_ranks(ready, ended, status is Some);
    assert(all.len() == ranks.len());
    assert forall|i: int| 0 <= i < all.len() implies rank(#[trigger] all[i]) == ranks[i] by {
        if i < 2 {
            assert(all[i] == a1[i]);
        } else if i < 2 + a2.len() {
            assert(all[i] == a2[i - 2]);
        } else if i < 2 + a2.len() + a3.len() {
            assert(all[i] == a3[i - 2 - a2.len()]);
        } else {
            assert(all[i] == a4[i - 2 - a2.len() - a3.len()]);
        }
    }
    assert(all.map_values(|a: GameOverAction| rank(a)) =~= ranks);
}

} // verus!
