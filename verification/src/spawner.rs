//! The obstacle spawner: a stateless roll of the dice, once a frame.
//!
//! The draws come from the generator that the caller has seeded; they are
//! the only part of the library that is not a function of its arguments.
//! What is built from them is.

use macroquad::rand::ChooseRandom;
use vstd::prelude::*;
use crate::avatar::margin_spec;
use crate::entity::{Entity, ShapeKind, Tint};
use crate::units::{saturate, saturate_spec};

verus! {

/// The roll that decides on a spawn is drawn between zero and this.
pub const SPAWN_ROLL_LIMIT: i32 = 99;

/// A roll of at least this much spawns an obstacle: four frames in a
/// hundred.
pub const SPAWN_THRESHOLD: i32 = 95;

/// Smallest side of a new obstacle, in units.
pub const MIN_OBSTACLE_SIZE: i32 = 16_000;

/// Largest side of a new obstacle, in units.
pub const MAX_OBSTACLE_SIZE: i32 = 64_000;

/// Slowest fall of a new obstacle, in units per second.
pub const MIN_OBSTACLE_SPEED: i32 = 50_000;

/// Fastest fall of a new obstacle, in units per second.
pub const MAX_OBSTACLE_SPEED: i32 = 150_000;

/// Draws a number with `macroquad::rand::gen_range`, from the generator
/// shared by the process. Trusted: the number lies between the two bounds,
/// both included, whichever of them is the lower. (The generator scales a
/// fraction below one to the distance between the bounds and rounds toward
/// zero, so the upper bound itself is rare but possible.)
#[verifier::external_body]
fn draw_between(low: i32, high: i32) -> (drawn: i32)
    ensures
        low <= high ==> low <= drawn <= high,
        high <= low ==> high <= drawn <= low,
{
    macroquad::rand::gen_range(low, high)
}

/// Picks an entry of `palette` with `ChooseRandom::choose` of
/// `macroquad::rand`, from the generator shared by the process. Trusted:
/// what is picked, if anything, is an entry of the palette.
#[verifier::external_body]
fn pick(palette: &Vec<Tint>) -> (picked: Option<Tint>)
    ensures
        picked matches Some(tint) ==> palette@.contains(tint),
{
    palette.choose().copied()
}

/// The colours an obstacle can have.
pub open spec fn palette_spec() -> Seq<Tint> {
    seq![Tint::DarkPurple, Tint::Red, Tint::Magenta]
}

/// The roll asks for a spawn.
pub open spec fn spawn_due_spec(roll: i32) -> bool {
    roll >= SPAWN_THRESHOLD
}

/// The horizontal positions at which an obstacle of the given size lies
/// wholly on a field of the given width: from half the size to the width
/// less half the size, each end held to the coordinate range.
pub open spec fn lane_spec(size: u32, width: u32) -> (int, int) {
    (saturate_spec(margin_spec(size)), saturate_spec(width - margin_spec(size)))
}

/// The obstacle built from the draws: a square just above the top edge,
/// falling. Without a colour it gets the first of the palette.
pub open spec fn obstacle_spec(size: u32, speed: i32, x: i32, tint: Option<Tint>) -> Entity {
    Entity {
        kind: ShapeKind::Rectangle,
        x,
        y: saturate_spec(-(size as int)) as i32,
        size,
        speed,
        tint: match tint {
            Some(t) => t,
            None => Tint::DarkPurple,
        },
        collided: false,
    }
}

/// `e` is what the spawner can hand out for a field of the given width.
pub open spec fn spawnable(e: Entity, width: u32) -> bool {
    &&& e.kind == ShapeKind::Rectangle
    &&& MIN_OBSTACLE_SIZE <= e.size <= MAX_OBSTACLE_SIZE
    &&& MIN_OBSTACLE_SPEED <= e.speed <= MAX_OBSTACLE_SPEED
    &&& e.y == -(e.size as int)
    &&& {
        let (low, high) = lane_spec(e.size, width);
        low <= e.x <= high || high <= e.x <= low
    }
    &&& palette_spec().contains(e.tint)
    &&& !e.collided
}

/// The colours an obstacle can have.
pub fn palette() -> (tints: Vec<Tint>)
    ensures
        tints@ == palette_spec(),
{
    let mut tints: Vec<Tint> = Vec::new();
    tints.push(Tint::DarkPurple);
    tints.push(Tint::Red);
    tints.push(Tint::Magenta);
    assert(tints@ =~= palette_spec());
    tints
}

/// Whether the roll asks for a spawn.
pub fn spawn_due(roll: i32) -> (due: bool)
    ensures
        due == spawn_due_spec(roll),
{
    roll >= SPAWN_THRESHOLD
}

/// The horizontal positions at which an obstacle of the given size lies
/// wholly on a field of the given width.
pub fn lane(size: u32, width: u32) -> (ends: (i32, i32))
    ensures
        (ends.0 as int, ends.1 as int) == lane_spec(size, width),
{
    let margin: i128 = (size as i128 + 1) / 2;
    (saturate(margin), saturate(width as i128 - margin))
}

/// The obstacle built from the draws.
pub fn obstacle(size: u32, speed: i32, x: i32, tint: Option<Tint>) -> (e: Entity)
    ensures
        e == obstacle_spec(size, speed, x, tint),
{
    Entity {
        kind: ShapeKind::Rectangle,
        x,
        y: saturate(-(size as i128)),
        size,
        speed,
        tint: match tint {
            Some(t) => t,
            None => Tint::DarkPurple,
        },
        collided: false,
    }
}

/// Rolls the dice for one frame. With the roll in favour, draws size, speed,
/// position and colour, and hands out the obstacle built from them.
pub fn roll_spawn(width: u32) -> (newcomer: Option<Entity>)
    ensures
        newcomer matches Some(e) ==> spawnable(e, width),
{
    let roll: i32 = draw_between(0, SPAWN_ROLL_LIMIT);
    if !spawn_due(roll) {
        return None;
    }
    let size: u32 = draw_between(MIN_OBSTACLE_SIZE, MAX_OBSTACLE_SIZE) as u32;
    let speed: i32 = draw_between(MIN_OBSTACLE_SPEED, MAX_OBSTACLE_SPEED);
    let ends: (i32, i32) = lane(size, width);
    let x: i32 = draw_between(ends.0, ends.1);
    let tints: Vec<Tint> = palette();
    let tint: Option<Tint> = pick(&tints);
    let e: Entity = obstacle(size, speed, x, tint);
    proof {
        assert(palette_spec()[0] == Tint::DarkPurple);
    }
    Some(e)
}

/// On a field wider than the largest obstacle, what the spawner hands out
/// takes up room and lies between the left and the right edge.
pub proof fn lemma_spawnable_on_field(e: Entity, width: u32)
    requires
        spawnable(e, width),
        MAX_OBSTACLE_SIZE < width <= i32::MAX,
    ensures
        e.has_extent(),
        0 <= 2 * e.x - e.size,
        2 * e.x + e.size <= 2 * width,
{
}

} // verus!
