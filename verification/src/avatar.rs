//! The player's avatar: steering, firing, the terminal test and the clamp
//! that keeps it on the playfield.

use vstd::prelude::*;
use crate::entity::{Entity, ShapeKind, Tint};
use crate::geometry::{clamp, clamp_spec};
use crate::units::{saturate, saturate_spec, travel, travel_spec};

verus! {

/// Speed of the avatar along either axis, in units per second.
pub const AVATAR_SPEED: i32 = 300_000;

/// Radius of the avatar, in units.
pub const AVATAR_SIZE: u32 = 16_000;

/// Radius of a projectile, in units.
pub const PROJECTILE_SIZE: u32 = 32_000;

/// The signals sampled at the start of a frame. The four directions say
/// whether the key is held; the others whether it went down in this frame.
#[derive(Clone, Copy, Debug, PartialEq, Eq, Structural)]
pub struct Input {
    pub left: bool,
    pub right: bool,
    pub up: bool,
    pub down: bool,
    pub fire: bool,
    pub pause: bool,
    pub confirm: bool,
    pub quit: bool,
}

/// Extent of the playfield, in units. Its top left corner is the origin.
#[derive(Clone, Copy, Debug, PartialEq, Eq, Structural)]
pub struct Playfield {
    pub width: u32,
    pub height: u32,
}

/// Half of `size`, rounded up: the distance kept between a centre and the
/// edges of the field.
pub open spec fn margin_spec(size: u32) -> int {
    (size + 1) / 2
}

/// `position` held to `[margin, extent - margin]`, then to the coordinate
/// range.
pub open spec fn confined_coord(position: i32, size: u32, extent: u32) -> int {
    saturate_spec(clamp_spec(position as int, margin_spec(size), extent - margin_spec(size)))
}

/// The avatar as a game starts: a yellow circle in the middle of the field.
pub open spec fn centered_spec(field: Playfield) -> Entity {
    Entity {
        kind: ShapeKind::Circle,
        x: (field.width / 2) as i32,
        y: (field.height / 2) as i32,
        size: AVATAR_SIZE,
        speed: AVATAR_SPEED,
        tint: Tint::Yellow,
        collided: false,
    }
}

/// The avatar after the held directions have moved it for `dt_micros`: right,
/// then left, then down, then up, each by the distance covered at
/// `AVATAR_SPEED`.
pub open spec fn steered_spec(avatar: Entity, input: Input, dt_micros: u32) -> Entity {
    let step = travel_spec(AVATAR_SPEED as int, dt_micros as int);
    let a = if input.right {
        avatar.shifted_spec(step, 0)
    } else {
        avatar
    };
    let b = if input.left {
        a.shifted_spec(-step, 0)
    } else {
        a
    };
    let c = if input.down {
        b.shifted_spec(0, step)
    } else {
        b
    };
    if input.up {
        c.shifted_spec(0, -step)
    } else {
        c
    }
}

/// The projectile that the avatar fires: a red circle at the avatar's
/// position, twice as fast as the avatar.
pub open spec fn shot_spec(avatar: Entity) -> Entity {
    Entity {
        kind: ShapeKind::Circle,
        x: avatar.x,
        y: avatar.y,
        size: PROJECTILE_SIZE,
        speed: saturate_spec(2 * avatar.speed) as i32,
        tint: Tint::Red,
        collided: false,
    }
}

/// The avatar overlaps one of `obstacles`.
pub open spec fn touches_any(avatar: Entity, obstacles: Seq<Entity>) -> bool {
    exists|i: int| 0 <= i < obstacles.len() && avatar.overlaps(#[trigger] obstacles[i])
}

/// The avatar with its centre held inside the field, half its size away
/// from each edge.
pub open spec fn confined_spec(avatar: Entity, field: Playfield) -> Entity {
    Entity {
        x: confined_coord(avatar.x, avatar.size, field.width) as i32,
        y: confined_coord(avatar.y, avatar.size, field.height) as i32,
        ..avatar
    }
}

/// The avatar as a game starts.
pub fn centered(field: Playfield) -> (avatar: Entity)
    ensures
        avatar == centered_spec(field),
{
    Entity {
        kind: ShapeKind::Circle,
        x: (field.width / 2) as i32,
        y: (field.height / 2) as i32,
        size: AVATAR_SIZE,
        speed: AVATAR_SPEED,
        tint: Tint::Yellow,
        collided: false,
    }
}

/// Moves the avatar by the held directions for `dt_micros`.
pub fn steer(avatar: &mut Entity, input: Input, dt_micros: u32)
    ensures
        *final(avatar) == steered_spec(*old(avatar), input, dt_micros),
{
    let step: i64 = travel(AVATAR_SPEED, dt_micros);
    if input.right {
        *avatar = avatar.shifted(step, 0);
    }
    if input.left {
        *avatar = avatar.shifted(-step, 0);
    }
    if input.down {
        *avatar = avatar.shifted(0, step);
    }
    if input.up {
        *avatar = avatar.shifted(0, -step);
    }
}

/// The projectile that the avatar fires.
pub fn shot(avatar: &Entity) -> (projectile: Entity)
    ensures
        projectile == shot_spec(*avatar),
{
    Entity {
        kind: ShapeKind::Circle,
        x: avatar.x,
        y: avatar.y,
        size: PROJECTILE_SIZE,
        speed: saturate(2 * (avatar.speed as i128)),
        tint: Tint::Red,
        collided: false,
    }
}

/// Whether the avatar overlaps one of `obstacles`.
pub fn touches(avatar: &Entity, obstacles: &Vec<Entity>) -> (hit: bool)
    ensures
        hit == touches_any(*avatar, obstacles@),
{
    let mut i: usize = 0;
    while i < obstacles.len()
        invariant
            i <= obstacles.len(),
            forall|k: int| 0 <= k < i ==> !avatar.overlaps(#[trigger] obstacles[k]),
        decreases obstacles.len() - i,
    {
        if avatar.collides_with(&obstacles[i]) {
            return true;
        }
        i = i + 1;
    }
    false
}

/// One coordinate of the avatar held inside the field.
fn confine_coord(position: i32, size: u32, extent: u32) -> (held: i32)
    ensures
        held == confined_coord(position, size, extent),
{
    let margin: i128 = (size as i128 + 1) / 2;
    saturate(clamp(position as i128, margin, extent as i128 - margin))
}

/// Holds the avatar's centre inside the field, half its size away from each
/// edge.
pub fn confine(avatar: &mut Entity, field: Playfield)
    ensures
        *final(avatar) == confined_spec(*old(avatar), field),
{
    avatar.x = confine_coord(avatar.x, avatar.size, field.width);
    avatar.y = confine_coord(avatar.y, avatar.size, field.height);
}

/// On a field larger than the avatar's size, the confined avatar keeps half
/// its size from every edge.
pub proof fn lemma_confined_inside(avatar: Entity, field: Playfield)
    requires
        avatar.size < field.width,
        avatar.size < field.height,
        field.width <= i32::MAX,
        field.height <= i32::MAX,
    ensures
        0 <= 2 * confined_spec(avatar, field).x - avatar.size,
        2 * confined_spec(avatar, field).x + avatar.size <= 2 * field.width,
        0 <= 2 * confined_spec(avatar, field).y - avatar.size,
        2 * confined_spec(avatar, field).y + avatar.size <= 2 * field.height,
{
}

} // verus!
