//! Overlap tests between discs and axis-aligned squares.
//!
//! Centres are whole units. The edges of a square of odd side fall between two
//! units, so edges and the distances to them are stated in half-units.

use vstd::prelude::*;

verus! {

/// A disc: centre and radius.
#[derive(Clone, Copy, Debug, PartialEq, Eq, Structural)]
pub struct Circle {
    pub x: i32,
    pub y: i32,
    pub r: u32,
}

/// An axis-aligned square: centre and side length.
#[derive(Clone, Copy, Debug, PartialEq, Eq, Structural)]
pub struct Rect {
    pub x: i32,
    pub y: i32,
    pub side: u32,
}

/// `value` held to `[low, high]`. Where the bounds cross, a value below `low`
/// gives `low` and any other gives `high`.
pub open spec fn clamp_spec(value: int, low: int, high: int) -> int {
    if value < low {
        low
    } else if value > high {
        high
    } else {
        value
    }
}

/// Squared Euclidean length of the vector `(dx, dy)`.
pub open spec fn norm_sq(dx: int, dy: int) -> int {
    dx * dx + dy * dy
}

impl Rect {
    /// Left edge, in half-units.
    pub open spec fn left2(self) -> int {
        2 * self.x - self.side
    }

    /// Right edge, in half-units.
    pub open spec fn right2(self) -> int {
        2 * self.x + self.side
    }

    /// Top edge, in half-units.
    pub open spec fn top2(self) -> int {
        2 * self.y - self.side
    }

    /// Bottom edge, in half-units.
    pub open spec fn bottom2(self) -> int {
        2 * self.y + self.side
    }

    /// The two squares share a point: their intervals meet on both axes.
    pub open spec fn overlaps_spec(self, other: Rect) -> bool {
        &&& self.left2() <= other.right2()
        &&& self.right2() >= other.left2()
        &&& self.top2() <= other.bottom2()
        &&& self.bottom2() >= other.top2()
    }

    /// Whether the two squares share a point.
    pub fn overlaps(&self, other: &Rect) -> (hit: bool)
        ensures
            hit == self.overlaps_spec(*other),
    {
        let ax: i64 = 2 * (self.x as i64);
        let ay: i64 = 2 * (self.y as i64);
        let a: i64 = self.side as i64;
        let bx: i64 = 2 * (other.x as i64);
        let by: i64 = 2 * (other.y as i64);
        let b: i64 = other.side as i64;
        ax - a <= bx + b && ax + a >= bx - b && ay - a <= by + b && ay + a >= by - b
    }
}

impl Circle {
    /// Squared distance between the two centres.
    pub open spec fn center_dist_sq(self, other: Circle) -> int {
        norm_sq(self.x - other.x, self.y - other.y)
    }

    /// The centres are no further apart than the radii reach together.
    pub open spec fn overlaps_spec(self, other: Circle) -> bool {
        self.center_dist_sq(other) <= (self.r + other.r) * (self.r + other.r)
    }

    /// Squared distance, in half-units, from the centre to the nearest point
    /// of `rect`.
    pub open spec fn rect_dist_sq2(self, rect: Rect) -> int {
        let nx = clamp_spec(2 * self.x, rect.left2(), rect.right2());
        let ny = clamp_spec(2 * self.y, rect.top2(), rect.bottom2());
        norm_sq(2 * self.x - nx, 2 * self.y - ny)
    }

    /// The point of `rect` nearest to the centre lies within the radius.
    pub open spec fn overlaps_rect_spec(self, rect: Rect) -> bool {
        self.rect_dist_sq2(rect) <= (2 * self.r) * (2 * self.r)
    }

    /// Whether the two discs share a point; discs that only touch do.
    pub fn overlaps(&self, other: &Circle) -> (hit: bool)
        ensures
            hit == self.overlaps_spec(*other),
    {
        let dx: i128 = self.x as i128 - other.x as i128;
        let dy: i128 = self.y as i128 - other.y as i128;
        let reach: i128 = self.r as i128 + other.r as i128;
        assert(0 <= dx * dx <= 0x1_0000_0000_0000_0000) by (nonlinear_arith)
            requires
                -0x1_0000_0000 <= dx <= 0x1_0000_0000,
        ;
        assert(0 <= dy * dy <= 0x1_0000_0000_0000_0000) by (nonlinear_arith)
            requires
                -0x1_0000_0000 <= dy <= 0x1_0000_0000,
        ;
        assert(0 <= reach * reach <= 0x4_0000_0000_0000_0000) by (nonlinear_arith)
            requires
                0 <= reach <= 0x2_0000_0000,
        ;
        dx * dx + dy * dy <= reach * reach
    }

    /// Whether the disc and the square share a point.
    pub fn overlaps_rect(&self, rect: &Rect) -> (hit: bool)
        ensures
            hit == self.overlaps_rect_spec(*rect),
    {
        let cx: i128 = 2 * (self.x as i128);
        let cy: i128 = 2 * (self.y as i128);
        let half: i128 = rect.side as i128;
        let nx: i128 = clamp(cx, 2 * (rect.x as i128) - half, 2 * (rect.x as i128) + half);
        let ny: i128 = clamp(cy, 2 * (rect.y as i128) - half, 2 * (rect.y as i128) + half);
        let dx: i128 = cx - nx;
        let dy: i128 = cy - ny;
        let reach: i128 = 2 * (self.r as i128);
        assert(0 <= dx * dx <= 0x100_0000_0000_0000_0000) by (nonlinear_arith)
            requires
                -0x10_0000_0000 <= dx <= 0x10_0000_0000,
        ;
        assert(0 <= dy * dy <= 0x100_0000_0000_0000_0000) by (nonlinear_arith)
            requires
                -0x10_0000_0000 <= dy <= 0x10_0000_0000,
        ;
        assert(0 <= reach * reach <= 0x4_0000_0000_0000_0000) by (nonlinear_arith)
            requires
                0 <= reach <= 0x2_0000_0000,
        ;
        dx * dx + dy * dy <= reach * reach
    }
}

/// `value` held to `[low, high]`. Where the bounds cross, a value below `low`
/// gives `low` and any other gives `high`.
pub fn clamp(value: i128, low: i128, high: i128) -> (held: i128)
    ensures
        held == clamp_spec(value as int, low as int, high as int),
{
    if value < low {
        low
    } else if value > high {
        high
    } else {
        value
    }
}

/// A vector and its opposite have the same length.
pub proof fn lemma_norm_sq_mirrored(dx: int, dy: int)
    ensures
        norm_sq(-dx, -dy) == norm_sq(dx, dy),
{
    assert((-dx) * (-dx) == dx * dx) by (nonlinear_arith);
    assert((-dy) * (-dy) == dy * dy) by (nonlinear_arith);
}

/// Overlap of two discs does not depend on which is asked.
pub proof fn lemma_circles_overlap_symmetric(a: Circle, b: Circle)
    ensures
        a.overlaps_spec(b) == b.overlaps_spec(a),
{
    lemma_norm_sq_mirrored(a.x - b.x, a.y - b.y);
    assert((a.r + b.r) * (a.r + b.r) == (b.r + a.r) * (b.r + a.r));
}

/// Overlap of two squares does not depend on which is asked.
pub proof fn lemma_rects_overlap_symmetric(a: Rect, b: Rect)
    ensures
        a.overlaps_spec(b) == b.overlaps_spec(a),
{
}

/// Two discs overlap exactly when their centres are no further apart than
/// the sum of the radii, the distance being compared by its square. Where
/// the distance is a whole number `d`, that is `d <= r1 + r2`: discs that
/// only touch overlap.
pub proof fn lemma_circles_overlap_iff_within_reach(a: Circle, b: Circle, d: nat)
    ensures
        a.overlaps_spec(b) <==> a.center_dist_sq(b) <= (a.r + b.r) * (a.r + b.r),
        d * d == a.center_dist_sq(b) ==> (a.overlaps_spec(b) <==> d <= a.r + b.r),
{
    let reach: int = a.r + b.r;
    if d * d == a.center_dist_sq(b) {
        if d <= reach {
            assert(d * d <= reach * reach) by (nonlinear_arith)
                requires
                    0 <= d <= reach,
            ;
        } else {
            assert(d * d > reach * reach) by (nonlinear_arith)
                requires
                    0 <= reach < d,
            ;
        }
    }
}

impl Rect {
    /// The point `(px, py)`, in half-units, lies in the square, edges
    /// included.
    pub open spec fn holds2(self, px: int, py: int) -> bool {
        self.left2() <= px <= self.right2() && self.top2() <= py <= self.bottom2()
    }
}

/// Two squares overlap exactly when some point lies in both.
pub proof fn lemma_rects_overlap_iff_share_point(a: Rect, b: Rect)
    ensures
        a.overlaps_spec(b) <==> exists|px: int, py: int|
            #![trigger a.holds2(px, py), b.holds2(px, py)]
            a.holds2(px, py) && b.holds2(px, py),
{
    if a.overlaps_spec(b) {
        let px = if a.left2() >= b.left2() {
            a.left2()
        } else {
            b.left2()
        };
        let py = if a.top2() >= b.top2() {
            a.top2()
        } else {
            b.top2()
        };
        assert(a.holds2(px, py) && b.holds2(px, py));
    }
}

/// No point of a square is nearer to a disc's centre than the one the
/// overlap test measures, so a disc and a square overlap exactly when some
/// point of the square lies within the radius.
pub proof fn lemma_nearest_point(disc: Circle, rect: Rect, px: int, py: int)
    requires
        rect.holds2(px, py),
    ensures
        disc.rect_dist_sq2(rect) <= norm_sq(2 * disc.x - px, 2 * disc.y - py),
        norm_sq(2 * disc.x - px, 2 * disc.y - py) <= (2 * disc.r) * (2 * disc.r)
            ==> disc.overlaps_rect_spec(rect),
        rect.holds2(
            clamp_spec(2 * disc.x, rect.left2(), rect.right2()),
            clamp_spec(2 * disc.y, rect.top2(), rect.bottom2()),
        ),
{
    let nx = clamp_spec(2 * disc.x, rect.left2(), rect.right2());
    let ny = clamp_spec(2 * disc.y, rect.top2(), rect.bottom2());
    let ax = 2 * disc.x - nx;
    let ay = 2 * disc.y - ny;
    let bx = 2 * disc.x - px;
    let by = 2 * disc.y - py;
    assert(ax * ax <= bx * bx) by (nonlinear_arith)
        requires
            (0 <= ax <= bx) || (bx <= ax <= 0),
    ;
    assert(ay * ay <= by * by) by (nonlinear_arith)
        requires
            (0 <= ay <= by) || (by <= ay <= 0),
    ;
}

/// A shape of size zero is a point: it overlaps a disc exactly when it lies
/// within the radius, and a square exactly when it lies between the edges.
pub proof fn lemma_point_containment(point: Circle, disc: Circle, square: Rect)
    requires
        point.r == 0,
    ensures
        point.overlaps_spec(disc) <==> point.center_dist_sq(disc) <= disc.r * disc.r,
        point.overlaps_rect_spec(square) <==> {
            &&& square.left2() <= 2 * point.x <= square.right2()
            &&& square.top2() <= 2 * point.y <= square.bottom2()
        },
{
    let nx = clamp_spec(2 * point.x, square.left2(), square.right2());
    let ny = clamp_spec(2 * point.y, square.top2(), square.bottom2());
    let dx = 2 * point.x - nx;
    let dy = 2 * point.y - ny;
    assert(dx * dx >= 0 && (dx != 0 ==> dx * dx > 0)) by (nonlinear_arith);
    assert(dy * dy >= 0 && (dy != 0 ==> dy * dy > 0)) by (nonlinear_arith);
    assert((2 * point.r) * (2 * point.r) == 0) by (nonlinear_arith)
        requires
            point.r == 0,
    ;
    assert((point.r + disc.r) * (point.r + disc.r) == disc.r * disc.r) by (nonlinear_arith)
        requires
            point.r == 0,
    ;
}

} // verus!
