//! The whole state of a game and the function that advances it by a frame.

use vstd::prelude::*;
use crate::avatar::{
    centered, centered_spec, confine, confined_spec, shot, shot_spec, steer, steered_spec, touches,
    touches_any, Input, Playfield,
};
use crate::entity::Entity;
use crate::laws::{
    lemma_frame_keeps_sound, lemma_high_score_bounds_score, lemma_points_need_hits,
};
use crate::session::{GameState, Session, Signal};
use crate::simulation::{
    advance_obstacles, advance_projectiles, ascended_all, bursts_for, descended_all, hit_total,
    kept, obstacles_after_hits, points_for, projectiles_after_hits, purge_obstacles,
    purge_projectiles, resolve_hits, Burst, Keep,
};
use crate::spawner::{roll_spawn, spawnable};

verus! {

/// Everything a frame reads and changes.
#[derive(Clone, Debug)]
pub struct World {
    pub session: Session,
    pub avatar: Entity,
    pub obstacles: Vec<Entity>,
    pub projectiles: Vec<Entity>,
}

/// A `World` as contracts see it.
pub struct WorldView {
    pub session: Session,
    pub avatar: Entity,
    pub obstacles: Seq<Entity>,
    pub projectiles: Seq<Entity>,
}

impl View for World {
    type V = WorldView;

    open spec fn view(&self) -> WorldView {
        WorldView {
            session: self.session,
            avatar: self.avatar,
            obstacles: self.obstacles@,
            projectiles: self.projectiles@,
        }
    }
}

/// What a frame asks of the caller.
#[derive(Clone, Debug)]
pub struct Outcome {
    /// Bursts to show, in the order the hits were found.
    pub bursts: Vec<Burst>,
    /// The high score to write to storage, if this frame set a record and
    /// ended the life.
    pub persist: Option<u32>,
    /// The player asked to leave.
    pub quit: bool,
}

/// An `Outcome` as contracts see it.
pub struct OutcomeView {
    pub bursts: Seq<Burst>,
    pub persist: Option<u32>,
    pub quit: bool,
}

impl View for Outcome {
    type V = OutcomeView;

    open spec fn view(&self) -> OutcomeView {
        OutcomeView { bursts: self.bursts@, persist: self.persist, quit: self.quit }
    }
}

/// Every entity of the list takes up room and is not struck.
pub open spec fn all_sound(list: Seq<Entity>) -> bool {
    forall|i: int| 0 <= i < list.len() ==> (#[trigger] list[i]).has_extent() && !list[i].collided
}

/// The outcome of a frame that asks for nothing.
pub open spec fn idle() -> OutcomeView {
    OutcomeView { bursts: Seq::empty(), persist: None, quit: false }
}

impl WorldView {
    /// The state between frames is sound: the high score bounds the score,
    /// every entity takes up room, and no struck entity is left in a list.
    pub open spec fn sound(self) -> bool {
        &&& self.session.wf()
        &&& self.avatar.has_extent()
        &&& all_sound(self.obstacles)
        &&& all_sound(self.projectiles)
    }

    /// The world with its state machine moved by `signal`.
    pub open spec fn signalled(self, signal: Signal) -> WorldView {
        WorldView {
            session: Session { state: self.session.state.after_spec(signal), ..self.session },
            ..self
        }
    }

    /// The world as a game starts from the menu: no obstacles, no
    /// projectiles, the avatar in the middle, nothing scored.
    pub open spec fn started(self, field: Playfield) -> WorldView {
        WorldView {
            session: self.session.restarted_spec(
                self.session.state.after_spec(Signal::Confirm),
            ),
            avatar: Entity { x: centered_spec(field).x, y: centered_spec(field).y, ..self.avatar },
            obstacles: Seq::empty(),
            projectiles: Seq::empty(),
        }
    }

    /// The obstacles of a frame in play once the newcomer has joined and all
    /// have fallen.
    pub open spec fn fallen(self, dt_micros: u32, newcomer: Option<Entity>) -> Seq<Entity> {
        descended_all(
            match newcomer {
                Some(e) => self.obstacles.push(e),
                None => self.obstacles,
            },
            dt_micros,
        )
    }

    /// The projectiles of a frame in play once all have risen and those
    /// beyond the top edge are gone.
    pub open spec fn flying(self, dt_micros: u32) -> Seq<Entity> {
        kept(ascended_all(self.projectiles, dt_micros), Keep::InFlight)
    }

    /// A frame in play: the newcomer joins, obstacles fall, projectiles rise
    /// and are culled, hits are marked and scored, the struck and the
    /// departed are purged, the avatar moves and fires, is tested against
    /// the remaining obstacles, and is held on the field.
    pub open spec fn played(
        self,
        input: Input,
        dt_micros: u32,
        field: Playfield,
        newcomer: Option<Entity>,
    ) -> (WorldView, OutcomeView) {
        let fallen = self.fallen(dt_micros, newcomer);
        let flying = self.flying(dt_micros);
        let session = self.session.awarded_spec(
            points_for(fallen, flying),
            hit_total(fallen, flying),
        );
        let obstacles = kept(
            obstacles_after_hits(fallen, flying),
            Keep::Standing { height: field.height },
        );
        let unstruck = kept(projectiles_after_hits(fallen, flying), Keep::Unstruck);
        let avatar = steered_spec(self.avatar, input, dt_micros);
        let terminal = touches_any(avatar, obstacles);
        let signalled = if terminal {
            session.state.after_spec(Signal::TerminalCollision)
        } else if input.pause {
            session.state.after_spec(Signal::Pause)
        } else {
            session.state
        };
        (
            WorldView {
                session: Session { state: signalled, ..session },
                avatar: confined_spec(avatar, field),
                obstacles,
                projectiles: if input.fire {
                    unstruck.push(shot_spec(avatar))
                } else {
                    unstruck
                },
            },
            OutcomeView {
                bursts: bursts_for(fallen, flying),
                persist: if terminal && session.record_due_spec() {
                    Some(session.high_score)
                } else {
                    None
                },
                quit: false,
            },
        )
    }

    /// One frame. In the menu, quit ends the process and confirm starts a
    /// game. In play the simulation runs. Paused or over, confirm alone
    /// does anything. Only a frame in play takes a newcomer.
    pub open spec fn stepped(
        self,
        input: Input,
        dt_micros: u32,
        field: Playfield,
        newcomer: Option<Entity>,
    ) -> (WorldView, OutcomeView) {
        match self.session.state {
            GameState::MainMenu => if input.quit {
                (self, OutcomeView { quit: true, ..idle() })
            } else if input.confirm {
                (self.started(field), idle())
            } else {
                (self, idle())
            },
            GameState::Playing => self.played(input, dt_micros, field, newcomer),
            GameState::Paused | GameState::GameOver => if input.confirm {
                (self.signalled(Signal::Confirm), idle())
            } else {
                (self, idle())
            },
        }
    }

    /// The newcomer is one that a frame of this world can be given by the
    /// spawner: none outside play, and in play none or one that the spawner
    /// hands out for the field.
    pub open spec fn admits(self, newcomer: Option<Entity>, field: Playfield) -> bool {
        match newcomer {
            None => true,
            Some(e) => self.session.state == GameState::Playing && spawnable(e, field.width),
        }
    }
}

impl World {
    /// The world a process starts with: in the menu, the avatar in the
    /// middle of the field, the high score as it was stored.
    pub fn new(high_score: u32, field: Playfield) -> (world: World)
        ensures
            world@ == (WorldView {
                session: Session::new_spec(high_score),
                avatar: centered_spec(field),
                obstacles: Seq::empty(),
                projectiles: Seq::empty(),
            }),
    {
        World {
            session: Session::new(high_score),
            avatar: centered(field),
            obstacles: Vec::new(),
            projectiles: Vec::new(),
        }
    }

    /// Starts a game: clears both lists, puts the avatar in the middle of
    /// the field, sets the score to zero and lets the confirm signal move
    /// the state machine.
    pub fn start(&mut self, field: Playfield)
        ensures
            final(self)@ == old(self)@.started(field),
    {
        let middle: Entity = centered(field);
        self.obstacles.clear();
        self.projectiles.clear();
        self.avatar.x = middle.x;
        self.avatar.y = middle.y;
        self.session.score = 0;
        self.session.state = self.session.state.after(Signal::Confirm);
    }

    /// Runs the simulation for one frame, whatever the state: spawn,
    /// movement, hits, purge, steering, terminal test and clamp, in this
    /// order.
    pub fn play(
        &mut self,
        input: Input,
        dt_micros: u32,
        field: Playfield,
        newcomer: Option<Entity>,
    ) -> (outcome: Outcome)
        ensures
            (final(self)@, outcome@) == old(self)@.played(input, dt_micros, field, newcomer),
    {
        match newcomer {
            Some(e) => {
                self.obstacles.push(e);
            },
            None => {},
        }
        advance_obstacles(&mut self.obstacles, dt_micros);
        advance_projectiles(&mut self.projectiles, dt_micros);
        let bursts: Vec<Burst> = resolve_hits(
            &mut self.obstacles,
            &mut self.projectiles,
            &mut self.session,
        );
        purge_obstacles(&mut self.obstacles, field.height);
        purge_projectiles(&mut self.projectiles);
        steer(&mut self.avatar, input, dt_micros);
        if input.fire {
            let projectile: Entity = shot(&self.avatar);
            self.projectiles.push(projectile);
        }
        let terminal: bool = touches(&self.avatar, &self.obstacles);
        let mut persist: Option<u32> = None;
        if terminal {
            if self.session.record_due() {
                persist = Some(self.session.high_score);
            }
            self.session.state = self.session.state.after(Signal::TerminalCollision);
        } else if input.pause {
            self.session.state = self.session.state.after(Signal::Pause);
        }
        confine(&mut self.avatar, field);
        Outcome { bursts, persist, quit: false }
    }

    /// Advances the world by one frame, given the input sampled for it, the
    /// time since the last frame, the extent of the field and the obstacle,
    /// if any, that the spawner has handed out for this frame.
    pub fn step(
        &mut self,
        input: Input,
        dt_micros: u32,
        field: Playfield,
        newcomer: Option<Entity>,
    ) -> (outcome: Outcome)
        ensures
            (final(self)@, outcome@) == old(self)@.stepped(input, dt_micros, field, newcomer),
    {
        match self.session.state {
            GameState::MainMenu => {
                if input.quit {
                    return Outcome { bursts: Vec::new(), persist: None, quit: true };
                }
                if input.confirm {
                    self.start(field);
                }
            },
            GameState::Playing => {
                return self.play(input, dt_micros, field, newcomer);
            },
            GameState::Paused | GameState::GameOver => {
                if input.confirm {
                    self.session.state = self.session.state.after(Signal::Confirm);
                }
            },
        }
        Outcome { bursts: Vec::new(), persist: None, quit: false }
    }

    /// Advances the world by one frame, rolling the spawner's dice when the
    /// game is in play.
    pub fn tick(&mut self, input: Input, dt_micros: u32, field: Playfield) -> (outcome: Outcome)
        ensures
            exists|newcomer: Option<Entity>|
                old(self)@.admits(newcomer, field) && (final(self)@, outcome@) == #[trigger] old(
                    self,
                )@.stepped(input, dt_micros, field, newcomer),
            old(self).session.state != GameState::MainMenu ==> final(self).session.score >= old(
                self,
            ).session.score,
            old(self).session.wf() ==> final(self).session.wf(),
            final(self).session.high_score >= old(self).session.high_score,
            old(self)@.sound() ==> final(self)@.sound(),
    {
        let newcomer: Option<Entity> = match self.session.state {
            GameState::Playing => roll_spawn(field.width),
            _ => None,
        };
        proof {
            lemma_points_need_hits(self@.fallen(dt_micros, newcomer), self@.flying(dt_micros));
            if self.session.wf() {
                lemma_high_score_bounds_score(self@, input, dt_micros, field, newcomer);
            }
            if self@.sound() {
                lemma_frame_keeps_sound(self@, input, dt_micros, field, newcomer);
            }
        }
        self.step(input, dt_micros, field, newcomer)
    }
}

} // verus!
