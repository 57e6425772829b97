use vstd::prelude::*;

verus! {

/// Largest magnitude of a coordinate or an extent.
pub const COORD_LIMIT: i64 = 1_000_000_000;

/// A position on the playfield.
#[derive(Clone, Copy, Debug, PartialEq, Eq, Structural)]
pub struct Point {
    pub x: i64,
    pub y: i64,
}

impl Point {
    pub open spec fn in_bounds(self) -> bool {
        -COORD_LIMIT <= self.x <= COORD_LIMIT && -COORD_LIMIT <= self.y <= COORD_LIMIT
    }
}

/// Width and height of a bounding box, already scaled by the magnitude of
/// the body's scale factor.
#[derive(Clone, Copy, Debug, PartialEq, Eq, Structural)]
pub struct Extent {
    pub w: i64,
    pub h: i64,
}

impl Extent {
    pub open spec fn in_bounds(self) -> bool {
        0 <= self.w <= COORD_LIMIT && 0 <= self.h <= COORD_LIMIT
    }
}

/// An axis-aligned box centred on `center`.
#[derive(Clone, Copy, Debug, PartialEq, Eq, Structural)]
pub struct Body {
    pub center: Point,
    pub size: Extent,
}

impl Body {
    pub open spec fn in_bounds(self) -> bool {
        self.center.in_bounds() && self.size.in_bounds()
    }
}

/// The open intervals `ca ± sa/2` and `cb ± sb/2` intersect (stated on
/// doubled coordinates, so that no halving is needed).
pub open spec fn spans_overlap(ca: int, sa: int, cb: int, sb: int) -> bool {
    2 * ca - sa < 2 * cb + sb && 2 * cb - sb < 2 * ca + sa
}

/// Two boxes overlap when their spans overlap on both axes.
pub open spec fn boxes_overlap(a: Body, b: Body) -> bool {
    spans_overlap(a.center.x as int, a.size.w as int, b.center.x as int, b.size.w as int)
        && spans_overlap(a.center.y as int, a.size.h as int, b.center.y as int, b.size.h as int)
}

fn span_overlap(ca: i64, sa: i64, cb: i64, sb: i64) -> (r: bool)
    requires
        -COORD_LIMIT <= ca <= COORD_LIMIT,
        -COORD_LIMIT <= cb <= COORD_LIMIT,
        0 <= sa <= COORD_LIMIT,
        0 <= sb <= COORD_LIMIT,
    ensures
        r == spans_overlap(ca as int, sa as int, cb as int, sb as int),
{
    2 * ca - sa < 2 * cb + sb && 2 * cb - sb < 2 * ca + sa
}

/// Axis-aligned bounding-box hit test.
pub fn collide(a: &Body, b: &Body) -> (r: bool)
    requires
        a.in_bounds(),
        b.in_bounds(),
    ensures
        r == boxes_overlap(*a, *b),
{
    span_overlap(a.center.x, a.size.w, b.center.x, b.size.w)
        && span_overlap(a.center.y, a.size.h, b.center.y, b.size.h)
}

} // verus!
