//! What holds of the simulation as a whole, proved from the definitions of
//! its parts.

use vstd::prelude::*;
use crate::avatar::{steered_spec, touches_any, Input, Playfield, PROJECTILE_SIZE};
use crate::entity::Entity;
use crate::session::{GameState, Session};
use crate::simulation::{
    ascended_all, hit_total, kept, obstacles_after_hits, points_for, projectiles_after_hits, Keep,
};
use crate::world::WorldView;

verus! {

/// What a kept list holds: entities of the list that the rule keeps.
pub proof fn lemma_kept_members(list: Seq<Entity>, rule: Keep)
    ensures
        kept(list, rule).len() <= list.len(),
        forall|i: int|
            0 <= i < kept(list, rule).len() ==> rule.admits(#[trigger] kept(list, rule)[i])
                && list.contains(kept(list, rule)[i]),
    decreases list.len(),
{
    reveal(Seq::filter);
    if list.len() > 0 {
        lemma_kept_members(list.drop_last(), rule);
        let front = kept(list.drop_last(), rule);
        assert forall|i: int| 0 <= i < kept(list, rule).len() implies rule.admits(
            #[trigger] kept(list, rule)[i],
        ) && list.contains(kept(list, rule)[i]) by {
            if i < front.len() {
                let e = front[i];
                assert(list.drop_last().contains(e));
                let k = choose|k: int| 0 <= k < list.drop_last().len() && list.drop_last()[k] == e;
                assert(list[k] == e);
            } else {
                assert(list[list.len() - 1] == kept(list, rule)[i]);
            }
        }
    }
}

/// A list in which the rule keeps everything is kept as it is.
pub proof fn lemma_kept_whole(list: Seq<Entity>, rule: Keep)
    requires
        forall|i: int| 0 <= i < list.len() ==> rule.admits(#[trigger] list[i]),
    ensures
        kept(list, rule) == list,
    decreases list.len(),
{
    reveal(Seq::filter);
    if list.len() > 0 {
        lemma_kept_whole(list.drop_last(), rule);
        assert(list.drop_last().push(list.last()) =~= list);
    }
}

/// Purging is idempotent: a second pass by the same rule removes nothing. In
/// particular a frame without obstacles and projectiles stays without them,
/// however often it is purged.
pub proof fn lemma_purge_idempotent(list: Seq<Entity>, rule: Keep)
    ensures
        kept(kept(list, rule), rule) == kept(list, rule),
        kept(Seq::<Entity>::empty(), rule) == Seq::<Entity>::empty(),
        kept(kept(Seq::<Entity>::empty(), rule), rule) == Seq::<Entity>::empty(),
{
    lemma_kept_members(list, rule);
    lemma_kept_whole(kept(list, rule), rule);
    lemma_kept_whole(Seq::<Entity>::empty(), rule);
}

/// An obstacle below the bottom edge by more than its size is purged,
/// struck or not.
pub proof fn lemma_departed_is_purged(list: Seq<Entity>, height: u32, e: Entity)
    requires
        e.y > height + e.size,
    ensures
        !kept(list, (Keep::Standing { height })).contains(e),
{
    lemma_kept_members(list, Keep::Standing { height });
}

/// Points are scored by hits only.
pub proof fn lemma_points_need_hits(obstacles: Seq<Entity>, projectiles: Seq<Entity>)
    ensures
        hit_total(obstacles, projectiles) == 0 ==> points_for(obstacles, projectiles) == 0,
    decreases obstacles.len(),
{
    if obstacles.len() > 0 {
        lemma_points_need_hits(obstacles.drop_last(), projectiles);
    }
}

/// Within a life the score never decreases: a frame in any state but the
/// menu, where a new game sets it back to zero, leaves the score as it was
/// or raises it.
pub proof fn lemma_score_monotone(
    world: WorldView,
    input: Input,
    dt_micros: u32,
    field: Playfield,
    newcomer: Option<Entity>,
)
    requires
        world.session.state != GameState::MainMenu,
    ensures
        world.stepped(input, dt_micros, field, newcomer).0.session.score >= world.session.score,
{
}

/// A frame keeps the high score at or above the score, and never lowers
/// the high score.
pub proof fn lemma_high_score_bounds_score(
    world: WorldView,
    input: Input,
    dt_micros: u32,
    field: Playfield,
    newcomer: Option<Entity>,
)
    requires
        world.session.wf(),
    ensures
        world.stepped(input, dt_micros, field, newcomer).0.session.wf(),
        world.stepped(input, dt_micros, field, newcomer).0.session.high_score
            >= world.session.high_score,
{
    lemma_points_need_hits(world.fallen(dt_micros, newcomer), world.flying(dt_micros));
}

/// What one frame is given.
pub struct Frame {
    pub input: Input,
    pub dt_micros: u32,
    pub field: Playfield,
    pub newcomer: Option<Entity>,
}

/// The world after the frames, one after another.
pub open spec fn run(world: WorldView, frames: Seq<Frame>) -> WorldView
    decreases frames.len(),
{
    if frames.len() == 0 {
        world
    } else {
        run(world, frames.drop_last()).stepped(
            frames.last().input,
            frames.last().dt_micros,
            frames.last().field,
            frames.last().newcomer,
        ).0
    }
}

/// No frame of the run starts in the menu, where a new game would set the
/// score back.
pub open spec fn one_life(world: WorldView, frames: Seq<Frame>) -> bool
    decreases frames.len(),
{
    frames.len() > 0 ==> one_life(world, frames.drop_last()) && run(
        world,
        frames.drop_last(),
    ).session.state != GameState::MainMenu
}

/// Through any number of frames of one life the score never decreases.
pub proof fn lemma_score_monotone_throughout(world: WorldView, frames: Seq<Frame>)
    requires
        one_life(world, frames),
    ensures
        run(world, frames).session.score >= world.session.score,
    decreases frames.len(),
{
    if frames.len() > 0 {
        lemma_score_monotone_throughout(world, frames.drop_last());
        lemma_score_monotone(
            run(world, frames.drop_last()),
            frames.last().input,
            frames.last().dt_micros,
            frames.last().field,
            frames.last().newcomer,
        );
    }
}

/// After any number of frames the high score is at or above the score, and
/// at or above what it was.
pub proof fn lemma_high_score_holds_throughout(world: WorldView, frames: Seq<Frame>)
    requires
        world.session.wf(),
    ensures
        run(world, frames).session.wf(),
        run(world, frames).session.high_score >= world.session.high_score,
    decreases frames.len(),
{
    if frames.len() > 0 {
        lemma_high_score_holds_throughout(world, frames.drop_last());
        lemma_high_score_bounds_score(
            run(world, frames.drop_last()),
            frames.last().input,
            frames.last().dt_micros,
            frames.last().field,
            frames.last().newcomer,
        );
    }
}

/// A frame keeps the state sound: the high score bounds the score, what was
/// struck in the frame is gone when it ends, and nothing without extent has
/// come in.
pub proof fn lemma_frame_keeps_sound(
    world: WorldView,
    input: Input,
    dt_micros: u32,
    field: Playfield,
    newcomer: Option<Entity>,
)
    requires
        world.sound(),
        newcomer matches Some(e) ==> e.has_extent(),
    ensures
        world.stepped(input, dt_micros, field, newcomer).0.sound(),
{
    lemma_high_score_bounds_score(world, input, dt_micros, field, newcomer);
    if world.session.state == GameState::Playing {
        let fallen = world.fallen(dt_micros, newcomer);
        let flying = world.flying(dt_micros);
        let after = world.played(input, dt_micros, field, newcomer).0;
        let marked = obstacles_after_hits(fallen, flying);
        let rule = Keep::Standing { height: field.height };
        lemma_kept_members(marked, rule);
        assert forall|i: int| 0 <= i < after.obstacles.len() implies {
            &&& (#[trigger] after.obstacles[i]).has_extent()
            &&& !after.obstacles[i].collided
        } by {
            let e = after.obstacles[i];
            assert(marked.contains(e));
            let k = choose|k: int| 0 <= k < marked.len() && marked[k] == e;
            assert(fallen[k].size > 0);
        }
        let risen = ascended_all(world.projectiles, dt_micros);
        lemma_kept_members(risen, Keep::InFlight);
        let shots = projectiles_after_hits(fallen, flying);
        lemma_kept_members(shots, Keep::Unstruck);
        let unstruck = kept(shots, Keep::Unstruck);
        assert forall|i: int| 0 <= i < after.projectiles.len() implies {
            &&& (#[trigger] after.projectiles[i]).has_extent()
            &&& !after.projectiles[i].collided
        } by {
            if i < unstruck.len() {
                let e = unstruck[i];
                assert(shots.contains(e));
                let k = choose|k: int| 0 <= k < shots.len() && shots[k] == e;
                assert(risen.contains(flying[k]));
                let j = choose|j: int| 0 <= j < risen.len() && risen[j] == flying[k];
                assert(world.projectiles[j].has_extent());
            } else {
                assert(PROJECTILE_SIZE > 0);
            }
        }
    }
}

/// No entity outlives the frame in which it leaves the field: after a frame
/// in play every obstacle is at most its size below the bottom edge, and
/// every projectile but one fired in this frame at most half its size above
/// the top edge.
pub proof fn lemma_frame_leaves_no_departed(
    world: WorldView,
    input: Input,
    dt_micros: u32,
    field: Playfield,
    newcomer: Option<Entity>,
)
    requires
        world.session.state == GameState::Playing,
    ensures
        ({
            let after = world.stepped(input, dt_micros, field, newcomer).0;
            let fired: int = if input.fire {
                1
            } else {
                0
            };
            &&& forall|i: int|
                0 <= i < after.obstacles.len() ==> (#[trigger] after.obstacles[i]).y
                    <= field.height + after.obstacles[i].size
            &&& forall|i: int|
                0 <= i < after.projectiles.len() - fired ==> Keep::InFlight.admits(
                    #[trigger] after.projectiles[i],
                )
        }),
{
    let fallen = world.fallen(dt_micros, newcomer);
    let flying = world.flying(dt_micros);
    let after = world.stepped(input, dt_micros, field, newcomer).0;
    lemma_kept_members(
        obstacles_after_hits(fallen, flying),
        Keep::Standing { height: field.height },
    );
    lemma_kept_members(ascended_all(world.projectiles, dt_micros), Keep::InFlight);
    let shots = projectiles_after_hits(fallen, flying);
    lemma_kept_members(shots, Keep::Unstruck);
    let unstruck = kept(shots, Keep::Unstruck);
    assert forall|i: int| 0 <= i < unstruck.len() implies Keep::InFlight.admits(
        #[trigger] unstruck[i],
    ) by {
        let e = unstruck[i];
        assert(shots.contains(e));
        let k = choose|k: int| 0 <= k < shots.len() && shots[k] == e;
        assert(Keep::InFlight.admits(flying[k]));
    }
    assert forall|i: int| 0 <= i < unstruck.len() implies after.projectiles[i] == unstruck[i] by {
    }
}

/// The avatar is never marked and never changes its outline: a frame moves
/// it and nothing else.
pub proof fn lemma_avatar_only_moves(
    world: WorldView,
    input: Input,
    dt_micros: u32,
    field: Playfield,
    newcomer: Option<Entity>,
)
    ensures
        ({
            let after = world.stepped(input, dt_micros, field, newcomer).0.avatar;
            after == Entity { x: after.x, y: after.y, ..world.avatar }
        }),
{
}

/// A frame in play ends the game exactly when the avatar, moved but not yet
/// held to the field, overlaps an obstacle that the purge has left. The
/// collision itself scores nothing, and the high score is handed out for
/// storing only in such a frame, and only when the score has reached it.
pub proof fn lemma_terminal_collision(
    world: WorldView,
    input: Input,
    dt_micros: u32,
    field: Playfield,
    newcomer: Option<Entity>,
)
    requires
        world.session.state == GameState::Playing,
    ensures
        ({
            let (after, outcome) = world.stepped(input, dt_micros, field, newcomer);
            let touched = touches_any(
                steered_spec(world.avatar, input, dt_micros),
                after.obstacles,
            );
            &&& after.session.state == GameState::GameOver <==> touched
            &&& after.session.state == GameState::Paused <==> !touched && input.pause
            &&& outcome.persist is Some <==> touched && after.session.score
                == after.session.high_score
            &&& outcome.persist matches Some(record) ==> record == after.session.high_score
            &&& hit_total(world.fallen(dt_micros, newcomer), world.flying(dt_micros)) == 0
                ==> after.session.score == world.session.score && after.session.high_score
                == world.session.high_score
        }),
{
    lemma_points_need_hits(world.fallen(dt_micros, newcomer), world.flying(dt_micros));
}

/// While the game is paused or over, and in the menu until a game starts, a
/// frame changes nothing but the state: no movement, no spawn, no hit.
pub proof fn lemma_frozen_outside_play(
    world: WorldView,
    input: Input,
    dt_micros: u32,
    field: Playfield,
    newcomer: Option<Entity>,
)
    requires
        world.session.state != GameState::Playing,
        world.session.state == GameState::MainMenu ==> !input.confirm || input.quit,
    ensures
        ({
            let (after, outcome) = world.stepped(input, dt_micros, field, newcomer);
            &&& after == WorldView {
                session: Session { state: after.session.state, ..world.session },
                ..world
            }
            &&& outcome.bursts.len() == 0
            &&& outcome.persist is None
        }),
{
}

} // verus!
