//! The game-state machine and the score record of one play session.

use vstd::prelude::*;
use crate::units::{whole_pixels, whole_pixels_spec};

verus! {

/// Where the game stands; it starts in `MainMenu`.
#[derive(Clone, Copy, Debug, PartialEq, Eq, Structural)]
pub enum GameState {
    MainMenu,
    Playing,
    Paused,
    GameOver,
}

/// What can move the game from one state to another.
#[derive(Clone, Copy, Debug, PartialEq, Eq, Structural)]
pub enum Signal {
    /// The confirm key went down: start, resume or restart.
    Confirm,
    /// The pause key went down.
    Pause,
    /// The avatar touched an obstacle.
    TerminalCollision,
}

/// The state machine's current state and the two counters.
#[derive(Clone, Copy, Debug, PartialEq, Eq, Structural)]
pub struct Session {
    pub state: GameState,
    /// Points of the current life.
    pub score: u32,
    /// Best score seen, this session or before.
    pub high_score: u32,
}

impl GameState {
    /// The state that `signal` leads to; a signal that means nothing in this
    /// state leaves it as it is.
    pub open spec fn after_spec(self, signal: Signal) -> GameState {
        match (self, signal) {
            (GameState::MainMenu, Signal::Confirm) => GameState::Playing,
            (GameState::Playing, Signal::Pause) => GameState::Paused,
            (GameState::Playing, Signal::TerminalCollision) => GameState::GameOver,
            (GameState::Paused, Signal::Confirm) => GameState::Playing,
            (GameState::GameOver, Signal::Confirm) => GameState::MainMenu,
            _ => self,
        }
    }

    /// The state that `signal` leads to.
    pub fn after(self, signal: Signal) -> (next: GameState)
        ensures
            next == self.after_spec(signal),
    {
        match (self, signal) {
            (GameState::MainMenu, Signal::Confirm) => GameState::Playing,
            (GameState::Playing, Signal::Pause) => GameState::Paused,
            (GameState::Playing, Signal::TerminalCollision) => GameState::GameOver,
            (GameState::Paused, Signal::Confirm) => GameState::Playing,
            (GameState::GameOver, Signal::Confirm) => GameState::MainMenu,
            _ => self,
        }
    }
}

/// `a + b`, held to the range of a counter.
pub open spec fn capped_sum(a: int, b: int) -> int {
    if a + b > u32::MAX {
        u32::MAX as int
    } else {
        a + b
    }
}

impl Session {
    /// The high score is no lower than the score.
    pub open spec fn wf(self) -> bool {
        self.high_score >= self.score
    }

    /// The session a process starts with: in the menu, nothing scored, the
    /// high score as it was stored.
    pub open spec fn new_spec(high_score: u32) -> Session {
        Session { state: GameState::MainMenu, score: 0, high_score }
    }

    /// The session after `hits` destructive hits worth `points` in all: the
    /// score grows by the points and stops at the counter's end, and once
    /// anything was hit the high score is no lower than the score.
    pub open spec fn awarded_spec(self, points: nat, hits: nat) -> Session {
        let score = capped_sum(self.score as int, points as int) as u32;
        Session {
            state: self.state,
            score,
            high_score: if hits > 0 && score > self.high_score {
                score
            } else {
                self.high_score
            },
        }
    }

    /// The session with the score back at zero and the state set.
    pub open spec fn restarted_spec(self, state: GameState) -> Session {
        Session { state, score: 0, high_score: self.high_score }
    }

    /// The session a process starts with.
    pub fn new(high_score: u32) -> (session: Session)
        ensures
            session == Session::new_spec(high_score),
            session.wf(),
    {
        Session { state: GameState::MainMenu, score: 0, high_score }
    }

    /// Credits one destroyed obstacle of the given size: its size in whole
    /// pixels is added to the score, and the high score follows the score.
    pub fn award(&mut self, obstacle_size: u32)
        ensures
            *final(self) == old(self).awarded_spec(
                whole_pixels_spec(obstacle_size as int) as nat,
                1,
            ),
    {
        let points: u32 = whole_pixels(obstacle_size);
        self.score = self.score.saturating_add(points);
        if self.score > self.high_score {
            self.high_score = self.score;
        }
    }

    /// Whether a terminal collision in this frame has to be followed by a
    /// write of the high score: only when the score of the life that ends is
    /// the high score.
    pub open spec fn record_due_spec(self) -> bool {
        self.score == self.high_score
    }

    /// Whether a terminal collision in this frame has to be followed by a
    /// write of the high score.
    pub fn record_due(&self) -> (due: bool)
        ensures
            due == self.record_due_spec(),
    {
        self.score == self.high_score
    }
}

/// Awards add up: hits credited one after another are credited as their
/// sum, as long as points come with hits.
pub proof fn lemma_awards_add_up(
    session: Session,
    points: nat,
    hits: nat,
    more_points: nat,
    more_hits: nat,
)
    requires
        more_points > 0 ==> more_hits > 0,
    ensures
        session.awarded_spec(points, hits).awarded_spec(more_points, more_hits)
            == session.awarded_spec(points + more_points, hits + more_hits),
        session.awarded_spec(0, 0) == session,
{
}

} // verus!
