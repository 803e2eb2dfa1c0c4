//! The decisions of a running replay: when to advance, what to show, and
//! when it is over. The runner performs each action (waiting, applying
//! recorded actions to the game, sending states) and hands back events.

use vstd::prelude::*;
use crate::proto::replay::InReplayCommand;
use crate::proto::replay::PlayerAction;
use super::actions::{extract_remove_pair_indices, remove_pair_of};
use super::session::{ReplayCommandResult, handle_replay_command};

verus! {

/// Something that happened to a running replay.
#[derive(Debug, Clone, Copy, PartialEq, Eq, Structural)]
pub enum PlaybackEvent {
    /// The delay before the next step ran out.
    TimerFired,
    /// A viewer sent a command.
    Command(Option<InReplayCommand>),
}

/// What the runner does next.
#[derive(Debug, Clone, Copy, PartialEq, Eq, Structural)]
pub enum PlaybackAction {
    /// Nothing: wait for the next event.
    Wait,
    /// Apply the next recorded step to the game, then report it with
    /// `Playback::advanced`.
    Advance,
    /// Send the current state, at the unclamped position, as not finished.
    ShowState,
    /// The speed changed: restart the step timer.
    Retime,
    /// Start the replay over from the beginning.
    Restart,
}

/// What the viewers are told after a step.
#[derive(Debug, Clone, Copy, PartialEq, Eq, Structural)]
pub struct StepReport {
    pub position: u64,
    pub is_finished: bool,
}

/// The progress of a replay being shown: whether it is paused, how many
/// steps were taken out of how many, and whether it has finished.
#[derive(Debug, Clone, Copy, PartialEq, Eq, Structural)]
pub struct Playback {
    pub is_paused: bool,
    pub position: u64,
    pub total: u64,
    pub finished: bool,
}

/// The state and action after an event. A finished replay only listens
/// for a restart. Otherwise the timer advances an unpaused replay, and a
/// command acts as `handle_replay_command` says: a pause or resume is
/// shown, a new speed retimes the step timer, a step while paused
/// advances, a restart restarts.
pub open spec fn playback_step(p: Playback, e: PlaybackEvent) -> (Playback, PlaybackAction) {
    if p.finished {
        match e {
            PlaybackEvent::Command(Some(InReplayCommand::Restart)) => (p, PlaybackAction::Restart),
            _ => (p, PlaybackAction::Wait),
        }
    } else {
        match e {
            PlaybackEvent::TimerFired => (p, if p.is_paused {
                PlaybackAction::Wait
            } else {
                PlaybackAction::Advance
            }),
            PlaybackEvent::Command(c) => match c {
                None => (p, PlaybackAction::Wait),
                Some(InReplayCommand::Pause) => (Playback { is_paused: true, ..p }, PlaybackAction::ShowState),
                Some(InReplayCommand::Resume) => (
                    Playback { is_paused: false, ..p },
                    PlaybackAction::ShowState,
                ),
                Some(InReplayCommand::SetSpeed { .. }) => (p, PlaybackAction::Retime),
                Some(InReplayCommand::StepForward) => (p, if p.is_paused {
                    PlaybackAction::Advance
                } else {
                    PlaybackAction::Wait
                }),
                Some(InReplayCommand::Restart) => (p, PlaybackAction::Restart),
            },
        }
    }
}

impl Playback {
    /// A replay of `total` steps, running, at its start.
    pub fn new(total: u64) -> (r: Self)
        ensures
            r == (Playback { is_paused: false, position: 0, total, finished: false }),
    {
        Playback { is_paused: false, position: 0, total, finished: false }
    }

    /// Takes one event and says what to do.
    pub fn on_event(&mut self, event: PlaybackEvent) -> (r: PlaybackAction)
        ensures
            (*final(self), r) == playback_step(*old(self), event),
    {
        if self.finished {
            return match event {
                PlaybackEvent::Command(Some(InReplayCommand::Restart)) => PlaybackAction::Restart,
                _ => PlaybackAction::Wait,
            };
        }
        match event {
            PlaybackEvent::TimerFired => {
                if self.is_paused {
                    PlaybackAction::Wait
                } else {
                    PlaybackAction::Advance
                }
            },
            PlaybackEvent::Command(cmd) => {
                let mut paused = self.is_paused;
                let result = handle_replay_command(&cmd, &mut paused);
                self.is_paused = paused;
                match result {
                    ReplayCommandResult::Nothing => PlaybackAction::Wait,
                    ReplayCommandResult::StateChanged => PlaybackAction::ShowState,
                    ReplayCommandResult::SpeedChanged => PlaybackAction::Retime,
                    ReplayCommandResult::StepForward => PlaybackAction::Advance,
                    ReplayCommandResult::Restart => PlaybackAction::Restart,
                }
            },
        }
    }

    /// Records a step taken after `Advance`: the position moves on when a
    /// step was made (`moved`), the reported position never exceeds the
    /// total, and the replay is finished when the game is over or the
    /// recording is exhausted.
    pub fn advanced(&mut self, moved: bool, game_over: bool, source_exhausted: bool) -> (r: StepReport)
        requires
            old(self).position < u64::MAX,
        ensures
            final(self).position == old(self).position + if moved {
                1int
            } else {
                0
            },
            final(self).is_paused == old(self).is_paused,
            final(self).total == old(self).total,
            final(self).finished == (game_over || source_exhausted),
            r.position == if final(self).position <= old(self).total {
                final(self).position
            } else {
                old(self).total
            },
            r.is_finished == (game_over || source_exhausted),
    {
        if moved {
            self.position = self.position + 1;
        }
        self.finished = game_over || source_exhausted;
        let position = if self.position <= self.total {
            self.position
        } else {
            self.total
        };
        StepReport { position, is_finished: self.finished }
    }
}

/// The next step of a numbers match replay.
#[derive(Debug, Clone, Copy, PartialEq, Eq, Structural)]
pub enum HighlightStep {
    /// Apply the action whose pair is highlighted, then clear the highlight.
    ApplyHighlighted,
    /// Highlight the pair the next action removes, and apply it at the
    /// following step.
    Highlight(u32, u32),
    /// Apply the next action at once.
    Apply,
    /// Nothing is left to show.
    Finish,
}

/// A pending highlight is followed by the action it announced; a pair
/// removal is highlighted before it is applied; any other action is
/// applied at once; with no action left the replay finishes.
pub open spec fn highlight_step(pending: Option<(u32, u32)>, next: Option<PlayerAction>) -> HighlightStep {
    match pending {
        Some(_) => HighlightStep::ApplyHighlighted,
        None => match next {
            None => HighlightStep::Finish,
            Some(a) => match remove_pair_of(a) {
                Some((first, second)) => HighlightStep::Highlight(first, second),
                None => HighlightStep::Apply,
            },
        },
    }
}

/// Decides the next step of a numbers match replay from the pending
/// highlight and the next recorded action, if any.
pub fn numbers_match_step(pending: Option<(u32, u32)>, next: Option<&PlayerAction>) -> (r: HighlightStep)
    ensures
        r == highlight_step(
            pending,
            match next {
                Some(a) => Some(*a),
                None => None,
            },
        ),
{
    if pending.is_some() {
        return HighlightStep::ApplyHighlighted;
    }
    match next {
        None => HighlightStep::Finish,
        Some(action) => match extract_remove_pair_indices(action) {
            Some((first, second)) => HighlightStep::Highlight(first, second),
            None => HighlightStep::Apply,
        },
    }
}

/// A paused replay never advances on its own: only a step command moves
/// it, and no event leaves it finished or changes its position.
pub proof fn lemma_paused_replay_waits(p: Playback, e: PlaybackEvent)
    requires
        p.is_paused,
        !p.finished,
    ensures
        playback_step(p, e).1 == PlaybackAction::Advance <==> e == PlaybackEvent::Command(
            Some(InReplayCommand::StepForward),
        ),
        playback_step(p, e).0.position == p.position,
        !playback_step(p, e).0.finished,
{
}

/// Pausing and then resuming a running replay gives back the state it
/// was in.
pub proof fn lemma_pause_resume_round_trip(p: Playback)
    requires
        !p.is_paused,
        !p.finished,
    ensures
        playback_step(
            playback_step(p, PlaybackEvent::Command(Some(InReplayCommand::Pause))).0,
            PlaybackEvent::Command(Some(InReplayCommand::Resume)),
        ).0 == p,
{
}

} // verus!
