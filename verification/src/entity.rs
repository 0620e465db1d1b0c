//! The entity record shared by the avatar, the obstacles and the projectiles.

use vstd::prelude::*;
use crate::geometry::{
    lemma_circles_overlap_iff_within_reach, lemma_circles_overlap_symmetric,
    lemma_rects_overlap_symmetric, Circle, Rect,
};
use crate::units::{saturate, saturate_spec, travel, travel_spec};

verus! {

/// The outline an entity is hit by.
#[derive(Clone, Copy, Debug, PartialEq, Eq, Structural)]
pub enum ShapeKind {
    /// A disc whose radius is the entity's size.
    Circle,
    /// A square whose side is the entity's size.
    Rectangle,
}

/// The colour an entity is drawn in; the simulation only carries it.
#[derive(Clone, Copy, Debug, PartialEq, Eq, Structural)]
pub enum Tint {
    DarkPurple,
    Red,
    Magenta,
    Yellow,
}

/// One obstacle, projectile or avatar.
#[derive(Clone, Copy, Debug, PartialEq, Eq, Structural)]
pub struct Entity {
    pub kind: ShapeKind,
    /// Centre, in units.
    pub x: i32,
    /// Centre, in units; grows downward.
    pub y: i32,
    /// Radius of a circle, side of a rectangle, in units.
    pub size: u32,
    /// Units per second along the vertical axis.
    pub speed: i32,
    pub tint: Tint,
    /// Set in the frame a destructive hit is found; such an entity is gone
    /// when the frame ends.
    pub collided: bool,
}

impl Entity {
    /// The entity takes up room.
    pub open spec fn has_extent(self) -> bool {
        self.size > 0
    }

    /// The disc of radius `size` around the centre.
    pub open spec fn circle_spec(self) -> Circle {
        Circle { x: self.x, y: self.y, r: self.size }
    }

    /// The square of side `size` around the centre.
    pub open spec fn rect_spec(self) -> Rect {
        Rect { x: self.x, y: self.y, side: self.size }
    }

    /// The two outlines share a point.
    pub open spec fn overlaps(self, other: Entity) -> bool {
        match (self.kind, other.kind) {
            (ShapeKind::Circle, ShapeKind::Circle) => self.circle_spec().overlaps_spec(
                other.circle_spec(),
            ),
            (ShapeKind::Circle, ShapeKind::Rectangle) => self.circle_spec().overlaps_rect_spec(
                other.rect_spec(),
            ),
            (ShapeKind::Rectangle, ShapeKind::Circle) => other.circle_spec().overlaps_rect_spec(
                self.rect_spec(),
            ),
            (ShapeKind::Rectangle, ShapeKind::Rectangle) => self.rect_spec().overlaps_spec(
                other.rect_spec(),
            ),
        }
    }

    /// The entity with its centre shifted by `(dx, dy)`, each coordinate held
    /// to the coordinate range.
    pub open spec fn shifted_spec(self, dx: int, dy: int) -> Entity {
        Entity { x: saturate_spec(self.x + dx) as i32, y: saturate_spec(self.y + dy) as i32, ..self }
    }

    /// The entity after falling for `dt_micros`.
    pub open spec fn descended_spec(self, dt_micros: u32) -> Entity {
        self.shifted_spec(0, travel_spec(self.speed as int, dt_micros as int))
    }

    /// The entity after rising for `dt_micros`.
    pub open spec fn ascended_spec(self, dt_micros: u32) -> Entity {
        self.shifted_spec(0, -travel_spec(self.speed as int, dt_micros as int))
    }

    /// The entity with the `collided` flag raised.
    pub open spec fn struck_spec(self) -> Entity {
        Entity { collided: true, ..self }
    }

    /// The disc of radius `size` around the centre.
    pub fn circle(&self) -> (disc: Circle)
        ensures
            disc == self.circle_spec(),
    {
        Circle { x: self.x, y: self.y, r: self.size }
    }

    /// The square of side `size` around the centre.
    pub fn rect(&self) -> (square: Rect)
        ensures
            square == self.rect_spec(),
    {
        Rect { x: self.x, y: self.y, side: self.size }
    }

    /// Whether the two outlines share a point.
    pub fn collides_with(&self, other: &Entity) -> (hit: bool)
        ensures
            hit == self.overlaps(*other),
    {
        match (self.kind, other.kind) {
            (ShapeKind::Circle, ShapeKind::Circle) => self.circle().overlaps(&other.circle()),
            (ShapeKind::Circle, ShapeKind::Rectangle) => self.circle().overlaps_rect(&other.rect()),
            (ShapeKind::Rectangle, ShapeKind::Circle) => other.circle().overlaps_rect(&self.rect()),
            (ShapeKind::Rectangle, ShapeKind::Rectangle) => self.rect().overlaps(&other.rect()),
        }
    }

    /// The entity with its centre shifted by `(dx, dy)`.
    pub fn shifted(&self, dx: i64, dy: i64) -> (moved: Entity)
        ensures
            moved == self.shifted_spec(dx as int, dy as int),
    {
        Entity {
            kind: self.kind,
            x: saturate(self.x as i128 + dx as i128),
            y: saturate(self.y as i128 + dy as i128),
            size: self.size,
            speed: self.speed,
            tint: self.tint,
            collided: self.collided,
        }
    }

    /// The entity after falling for `dt_micros`.
    pub fn descended(&self, dt_micros: u32) -> (moved: Entity)
        ensures
            moved == self.descended_spec(dt_micros),
    {
        self.shifted(0, travel(self.speed, dt_micros))
    }

    /// The entity after rising for `dt_micros`.
    pub fn ascended(&self, dt_micros: u32) -> (moved: Entity)
        ensures
            moved == self.ascended_spec(dt_micros),
    {
        self.shifted(0, -travel(self.speed, dt_micros))
    }

    /// The entity with the `collided` flag raised.
    pub fn struck(&self) -> (marked: Entity)
        ensures
            marked == self.struck_spec(),
    {
        Entity {
            kind: self.kind,
            x: self.x,
            y: self.y,
            size: self.size,
            speed: self.speed,
            tint: self.tint,
            collided: true,
        }
    }
}

/// Overlap is symmetric: whichever of two entities is asked, the answer is
/// the same.
pub proof fn lemma_overlaps_symmetric(a: Entity, b: Entity)
    ensures
        a.overlaps(b) == b.overlaps(a),
{
    lemma_circles_overlap_symmetric(a.circle_spec(), b.circle_spec());
    lemma_rects_overlap_symmetric(a.rect_spec(), b.rect_spec());
}

/// Two circles overlap exactly when the distance between their centres is
/// at most the sum of their radii, the distance being compared by its
/// square; circles that only touch overlap. Where the distance is a whole
/// number `d`, that is `d <= r1 + r2`.
pub proof fn lemma_circles_overlap_iff_close(a: Entity, b: Entity, d: nat)
    requires
        a.kind == ShapeKind::Circle,
        b.kind == ShapeKind::Circle,
    ensures
        a.overlaps(b) <==> (a.x - b.x) * (a.x - b.x) + (a.y - b.y) * (a.y - b.y) <= (a.size
            + b.size) * (a.size + b.size),
        d * d == (a.x - b.x) * (a.x - b.x) + (a.y - b.y) * (a.y - b.y) ==> (a.overlaps(b) <==> d
            <= a.size + b.size),
{
    lemma_circles_overlap_iff_within_reach(a.circle_spec(), b.circle_spec(), d);
}

/// Overlap looks at the outline only: raising the `collided` flag on either
/// side changes nothing.
pub proof fn lemma_overlaps_ignores_flag(a: Entity, b: Entity)
    ensures
        a.struck_spec().overlaps(b) == a.overlaps(b),
        a.overlaps(b.struck_spec()) == a.overlaps(b),
{
}

} // verus!
