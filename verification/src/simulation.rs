//! The phases of a frame in play that work on the entity lists: movement,
//! culling, hits and purge. Each is a total function of the lists.

use vstd::prelude::*;
use crate::entity::Entity;
use crate::session::Session;
use crate::units::{whole_pixels, whole_pixels_spec};

verus! {

/// The rule by which a pass over a list keeps or drops an entity.
#[derive(Clone, Copy, Debug, PartialEq, Eq, Structural)]
pub enum Keep {
    /// A projectile stays until its centre is above the top edge by more
    /// than half its size.
    InFlight,
    /// An obstacle stays while it is not struck and its centre is not below
    /// the bottom edge by more than its size.
    Standing { height: u32 },
    /// A projectile stays while it is not struck.
    Unstruck,
}

impl Keep {
    /// The rule keeps `e`.
    pub open spec fn admits(self, e: Entity) -> bool {
        match self {
            Keep::InFlight => 2 * e.y >= -(e.size as int),
            Keep::Standing { height } => !e.collided && e.y <= height + e.size,
            Keep::Unstruck => !e.collided,
        }
    }

    /// Whether the rule keeps `e`.
    pub fn test(&self, e: &Entity) -> (stays: bool)
        ensures
            stays == self.admits(*e),
    {
        match self {
            Keep::InFlight => 2 * (e.y as i64) >= -(e.size as i64),
            Keep::Standing { height } => !e.collided && e.y as i64 <= *height as i64 + e.size as i64,
            Keep::Unstruck => !e.collided,
        }
    }
}

/// The entities of `list` that `rule` keeps, in their order.
pub open spec fn kept(list: Seq<Entity>, rule: Keep) -> Seq<Entity> {
    list.filter(|e: Entity| rule.admits(e))
}

/// Every entity of `list` after falling for `dt_micros`.
pub open spec fn descended_all(list: Seq<Entity>, dt_micros: u32) -> Seq<Entity> {
    Seq::new(list.len(), |i: int| list[i].descended_spec(dt_micros))
}

/// Every entity of `list` after rising for `dt_micros`.
pub open spec fn ascended_all(list: Seq<Entity>, dt_micros: u32) -> Seq<Entity> {
    Seq::new(list.len(), |i: int| list[i].ascended_spec(dt_micros))
}

/// Drops from `list` what `rule` does not keep; the rest stays in order.
pub fn retain(list: &mut Vec<Entity>, rule: Keep)
    ensures
        final(list)@ == kept(old(list)@, rule),
{
    let mut staying: Vec<Entity> = Vec::new();
    let mut i: usize = 0;
    proof {
        reveal(Seq::filter);
        assert(list@.take(0) =~= Seq::<Entity>::empty());
    }
    while i < list.len()
        invariant
            i <= list.len(),
            list@ == old(list)@,
            staying@ == kept(list@.take(i as int), rule),
        decreases list.len() - i,
    {
        let e: Entity = list[i];
        proof {
            assert(list@.take(i + 1) =~= list@.take(i as int).push(e));
            list@.take(i as int).lemma_filter_push(e, |e: Entity| rule.admits(e));
        }
        if rule.test(&e) {
            staying.push(e);
        }
        i = i + 1;
    }
    proof {
        assert(list@.take(list.len() as int) =~= list@);
    }
    *list = staying;
}

/// Lets every obstacle fall for `dt_micros`.
pub fn advance_obstacles(obstacles: &mut Vec<Entity>, dt_micros: u32)
    ensures
        final(obstacles)@ == descended_all(old(obstacles)@, dt_micros),
{
    let mut i: usize = 0;
    while i < obstacles.len()
        invariant
            i <= obstacles.len(),
            obstacles.len() == old(obstacles).len(),
            forall|k: int| 0 <= k < i ==> obstacles[k] == old(obstacles)[k].descended_spec(dt_micros),
            forall|k: int| i <= k < obstacles.len() ==> obstacles[k] == old(obstacles)[k],
        decreases obstacles.len() - i,
    {
        let moved: Entity = obstacles[i].descended(dt_micros);
        obstacles[i] = moved;
        i = i + 1;
    }
    assert(obstacles@ =~= descended_all(old(obstacles)@, dt_micros));
}

/// Lets every projectile rise for `dt_micros`, then drops those that have
/// left through the top edge.
pub fn advance_projectiles(projectiles: &mut Vec<Entity>, dt_micros: u32)
    ensures
        final(projectiles)@ == kept(ascended_all(old(projectiles)@, dt_micros), Keep::InFlight),
{
    let mut i: usize = 0;
    while i < projectiles.len()
        invariant
            i <= projectiles.len(),
            projectiles.len() == old(projectiles).len(),
            forall|k: int| 0 <= k < i ==> projectiles[k] == old(projectiles)[k].ascended_spec(dt_micros),
            forall|k: int| i <= k < projectiles.len() ==> projectiles[k] == old(projectiles)[k],
        decreases projectiles.len() - i,
    {
        let moved: Entity = projectiles[i].ascended(dt_micros);
        projectiles[i] = moved;
        i = i + 1;
    }
    assert(projectiles@ =~= ascended_all(old(projectiles)@, dt_micros));
    retain(projectiles, Keep::InFlight);
}

/// Removes the obstacles that were struck or have left through the bottom
/// edge of a playfield of the given height.
pub fn purge_obstacles(obstacles: &mut Vec<Entity>, height: u32)
    ensures
        final(obstacles)@ == kept(old(obstacles)@, (Keep::Standing { height })),
{
    retain(obstacles, Keep::Standing { height });
}

/// Removes the projectiles that were struck.
pub fn purge_projectiles(projectiles: &mut Vec<Entity>)
    ensures
        final(projectiles)@ == kept(old(projectiles)@, Keep::Unstruck),
{
    retain(projectiles, Keep::Unstruck);
}

/// A request to the renderer for a decorative burst where an obstacle was
/// destroyed.
#[derive(Clone, Copy, Debug, PartialEq, Eq, Structural)]
pub struct Burst {
    pub x: i32,
    pub y: i32,
    /// Particles to emit: two for each pixel of the obstacle's size.
    pub particles: u32,
}

/// The burst that the destruction of `obstacle` asks for.
pub open spec fn burst_of(obstacle: Entity) -> Burst {
    Burst {
        x: obstacle.x,
        y: obstacle.y,
        particles: (2 * whole_pixels_spec(obstacle.size as int)) as u32,
    }
}

/// `e`, with the `collided` flag raised where `hit` holds.
pub open spec fn struck_if(e: Entity, hit: bool) -> Entity {
    if hit {
        e.struck_spec()
    } else {
        e
    }
}

/// How many of `projectiles` overlap `obstacle`.
pub open spec fn hits_on(obstacle: Entity, projectiles: Seq<Entity>) -> nat
    decreases projectiles.len(),
{
    if projectiles.len() == 0 {
        0
    } else {
        hits_on(obstacle, projectiles.drop_last()) + if projectiles.last().overlaps(obstacle) {
            1nat
        } else {
            0nat
        }
    }
}

/// How many of `obstacles` the `projectile` overlaps.
pub open spec fn hits_by(projectile: Entity, obstacles: Seq<Entity>) -> nat
    decreases obstacles.len(),
{
    if obstacles.len() == 0 {
        0
    } else {
        hits_by(projectile, obstacles.drop_last()) + if projectile.overlaps(obstacles.last()) {
            1nat
        } else {
            0nat
        }
    }
}

/// How many pairs of an obstacle and a projectile overlap.
pub open spec fn hit_total(obstacles: Seq<Entity>, projectiles: Seq<Entity>) -> nat
    decreases obstacles.len(),
{
    if obstacles.len() == 0 {
        0
    } else {
        hit_total(obstacles.drop_last(), projectiles) + hits_on(obstacles.last(), projectiles)
    }
}

/// The points that the overlapping pairs are worth: for each pair the
/// obstacle's size in whole pixels. An obstacle that several projectiles
/// overlap in one frame counts once for each of them.
pub open spec fn points_for(obstacles: Seq<Entity>, projectiles: Seq<Entity>) -> nat
    decreases obstacles.len(),
{
    if obstacles.len() == 0 {
        0
    } else {
        points_for(obstacles.drop_last(), projectiles) + hits_on(obstacles.last(), projectiles)
            * (whole_pixels_spec(obstacles.last().size as int) as nat)
    }
}

/// `count` bursts for one obstacle.
pub open spec fn bursts_of(obstacle: Entity, count: nat) -> Seq<Burst> {
    Seq::new(count, |k: int| burst_of(obstacle))
}

/// The bursts that the overlapping pairs ask for: one for each pair, at the
/// obstacle, obstacle by obstacle.
pub open spec fn bursts_for(obstacles: Seq<Entity>, projectiles: Seq<Entity>) -> Seq<Burst>
    decreases obstacles.len(),
{
    if obstacles.len() == 0 {
        Seq::empty()
    } else {
        bursts_for(obstacles.drop_last(), projectiles) + bursts_of(
            obstacles.last(),
            hits_on(obstacles.last(), projectiles),
        )
    }
}

/// The obstacles after the hit pass: those that a projectile overlaps are
/// marked.
pub open spec fn obstacles_after_hits(obstacles: Seq<Entity>, projectiles: Seq<Entity>) -> Seq<
    Entity,
> {
    Seq::new(
        obstacles.len(),
        |i: int| struck_if(obstacles[i], hits_on(obstacles[i], projectiles) > 0),
    )
}

/// The projectiles after the hit pass: those that overlap an obstacle are
/// marked.
pub open spec fn projectiles_after_hits(obstacles: Seq<Entity>, projectiles: Seq<Entity>) -> Seq<
    Entity,
> {
    Seq::new(
        projectiles.len(),
        |j: int| struck_if(projectiles[j], hits_by(projectiles[j], obstacles) > 0),
    )
}

/// The two entities have the same outline in the same place.
pub open spec fn same_outline(a: Entity, b: Entity) -> bool {
    a.kind == b.kind && a.x == b.x && a.y == b.y && a.size == b.size
}

/// The count of hits on an obstacle looks at outlines only.
proof fn lemma_hits_on_by_outline(obstacle: Entity, ps: Seq<Entity>, qs: Seq<Entity>)
    requires
        ps.len() == qs.len(),
        forall|j: int| 0 <= j < ps.len() ==> same_outline(#[trigger] ps[j], qs[j]),
    ensures
        hits_on(obstacle, ps) == hits_on(obstacle, qs),
    decreases ps.len(),
{
    if ps.len() > 0 {
        lemma_hits_on_by_outline(obstacle, ps.drop_last(), qs.drop_last());
    }
}

/// Tests one obstacle against every projectile: each overlap marks both,
/// credits the obstacle and asks for a burst.
fn strike(
    obstacle: &mut Entity,
    projectiles: &mut Vec<Entity>,
    session: &mut Session,
    bursts: &mut Vec<Burst>,
)
    ensures
        *final(obstacle) == struck_if(
            *old(obstacle),
            hits_on(*old(obstacle), old(projectiles)@) > 0,
        ),
        final(projectiles).len() == old(projectiles).len(),
        forall|j: int|
            0 <= j < old(projectiles).len() ==> #[trigger] final(projectiles)[j] == struck_if(
                old(projectiles)[j],
                old(projectiles)[j].overlaps(*old(obstacle)),
            ),
        *final(session) == old(session).awarded_spec(
            hits_on(*old(obstacle), old(projectiles)@) * (whole_pixels_spec(
                old(obstacle).size as int,
            ) as nat),
            hits_on(*old(obstacle), old(projectiles)@),
        ),
        final(bursts)@ == old(bursts)@ + bursts_of(
            *old(obstacle),
            hits_on(*old(obstacle), old(projectiles)@),
        ),
{
    let ghost target: Entity = *obstacle;
    let ghost worth: nat = whole_pixels_spec(target.size as int) as nat;
    let pixels: u32 = whole_pixels(obstacle.size);
    let mut j: usize = 0;
    proof {
        assert(projectiles@.take(0) =~= Seq::<Entity>::empty());
        assert(bursts@ =~= old(bursts)@ + bursts_of(target, 0));
    }
    while j < projectiles.len()
        invariant
            j <= projectiles.len(),
            projectiles.len() == old(projectiles).len(),
            pixels == worth,
            worth == whole_pixels_spec(target.size as int),
            target == *old(obstacle),
            *obstacle == struck_if(target, hits_on(target, old(projectiles)@.take(j as int)) > 0),
            forall|k: int|
                0 <= k < j ==> #[trigger] projectiles[k] == struck_if(
                    old(projectiles)[k],
                    old(projectiles)[k].overlaps(target),
                ),
            forall|k: int| j <= k < projectiles.len() ==> projectiles[k] == old(projectiles)[k],
            *session == old(session).awarded_spec(
                hits_on(target, old(projectiles)@.take(j as int)) * worth,
                hits_on(target, old(projectiles)@.take(j as int)),
            ),
            bursts@ == old(bursts)@ + bursts_of(
                target,
                hits_on(target, old(projectiles)@.take(j as int)),
            ),
        decreases projectiles.len() - j,
    {
        let ghost before: nat = hits_on(target, old(projectiles)@.take(j as int));
        proof {
            assert(old(projectiles)@.take(j + 1).drop_last() =~= old(projectiles)@.take(j as int));
        }
        let projectile: Entity = projectiles[j];
        if projectile.collides_with(obstacle) {
            projectiles[j] = projectile.struck();
            *obstacle = obstacle.struck();
            session.award(obstacle.size);
            bursts.push(Burst { x: obstacle.x, y: obstacle.y, particles: 2 * pixels });
            proof {
                crate::session::lemma_awards_add_up(*old(session), before * worth, before, worth, 1);
                assert((before + 1) * worth == before * worth + worth) by (nonlinear_arith);
                assert(bursts@ =~= old(bursts)@ + bursts_of(target, before + 1));
            }
        }
        j = j + 1;
    }
    proof {
        assert(old(projectiles)@.take(projectiles.len() as int) =~= old(projectiles)@);
    }
}

/// Tests every obstacle against every projectile. Each overlapping pair
/// marks both entities, adds the obstacle's size in whole pixels to the
/// score, lets the high score follow, and asks for a burst at the obstacle.
/// Nothing is removed here.
pub fn resolve_hits(
    obstacles: &mut Vec<Entity>,
    projectiles: &mut Vec<Entity>,
    session: &mut Session,
) -> (bursts: Vec<Burst>)
    ensures
        final(obstacles)@ == obstacles_after_hits(old(obstacles)@, old(projectiles)@),
        final(projectiles)@ == projectiles_after_hits(old(obstacles)@, old(projectiles)@),
        *final(session) == old(session).awarded_spec(
            points_for(old(obstacles)@, old(projectiles)@),
            hit_total(old(obstacles)@, old(projectiles)@),
        ),
        bursts@ == bursts_for(old(obstacles)@, old(projectiles)@),
{
    let mut bursts: Vec<Burst> = Vec::new();
    let mut i: usize = 0;
    proof {
        assert(old(obstacles)@.take(0) =~= Seq::<Entity>::empty());
        crate::session::lemma_awards_add_up(*old(session), 0, 0, 0, 0);
    }
    while i < obstacles.len()
        invariant
            i <= obstacles.len(),
            obstacles.len() == old(obstacles).len(),
            projectiles.len() == old(projectiles).len(),
            forall|k: int|
                0 <= k < i ==> #[trigger] obstacles[k] == struck_if(
                    old(obstacles)[k],
                    hits_on(old(obstacles)[k], old(projectiles)@) > 0,
                ),
            forall|k: int| i <= k < obstacles.len() ==> obstacles[k] == old(obstacles)[k],
            forall|j: int|
                0 <= j < projectiles.len() ==> #[trigger] projectiles[j] == struck_if(
                    old(projectiles)[j],
                    hits_by(old(projectiles)[j], old(obstacles)@.take(i as int)) > 0,
                ),
            *session == old(session).awarded_spec(
                points_for(old(obstacles)@.take(i as int), old(projectiles)@),
                hit_total(old(obstacles)@.take(i as int), old(projectiles)@),
            ),
            bursts@ == bursts_for(old(obstacles)@.take(i as int), old(projectiles)@),
        decreases obstacles.len() - i,
    {
        let ghost target: Entity = old(obstacles)[i as int];
        let ghost shots: Seq<Entity> = projectiles@;
        let ghost credited: Session = *session;
        let ghost count: nat = hits_on(target, old(projectiles)@);
        let ghost worth: nat = whole_pixels_spec(target.size as int) as nat;
        proof {
            assert(old(obstacles)@.take(i + 1).drop_last() =~= old(obstacles)@.take(i as int));
            lemma_hits_on_by_outline(target, shots, old(projectiles)@);
        }
        let mut obstacle: Entity = obstacles[i];
        strike(&mut obstacle, projectiles, session, &mut bursts);
        obstacles[i] = obstacle;
        proof {
            crate::session::lemma_awards_add_up(
                *old(session),
                points_for(old(obstacles)@.take(i as int), old(projectiles)@),
                hit_total(old(obstacles)@.take(i as int), old(projectiles)@),
                count * worth,
                count,
            );
            assert(count * worth > 0 ==> count > 0) by (nonlinear_arith);
            assert forall|j: int| 0 <= j < projectiles.len() implies #[trigger] projectiles[j]
                == struck_if(
                old(projectiles)[j],
                hits_by(old(projectiles)[j], old(obstacles)@.take(i + 1)) > 0,
            ) by {
                assert(projectiles[j] == struck_if(shots[j], shots[j].overlaps(target)));
            }
        }
        i = i + 1;
    }
    proof {
        assert(old(obstacles)@.take(obstacles.len() as int) =~= old(obstacles)@);
        assert(obstacles@ =~= obstacles_after_hits(old(obstacles)@, old(projectiles)@));
        assert(projectiles@ =~= projectiles_after_hits(old(obstacles)@, old(projectiles)@));
    }
    bursts
}

} // verus!
