use geo::{Contains, Intersects};
use vstd::prelude::*;

verus! {

/// Coordinates handed to the geometric predicates stay within this bound, so
/// that the exact integer orientation tests cannot overflow.
pub const WORLD_LIMIT: i64 = 0x2000_0000;

pub open spec fn in_world(c: int) -> bool {
    -WORLD_LIMIT <= c <= WORLD_LIMIT
}

pub open spec fn pair_in_world(p: (i64, i64)) -> bool {
    in_world(p.0 as int) && in_world(p.1 as int)
}

pub open spec fn ring_in_world(ring: Seq<(i64, i64)>) -> bool {
    forall|i: int| 0 <= i < ring.len() ==> #[trigger] pair_in_world(ring[i])
}

/// Whether a point lies strictly inside a closed ring, by the nonzero winding
/// rule.
pub uninterp spec fn polygon_contains(ring: Seq<(i64, i64)>, p: (i64, i64)) -> bool;

/// Whether the closed axis-aligned rectangle `lo..=hi` and the polygon bounded
/// by a ring share at least one point.
pub uninterp spec fn rect_meets_polygon(lo: (i64, i64), hi: (i64, i64), ring: Seq<(i64, i64)>) -> bool;

/// Relies on geo's `Contains<Coord>` for `Polygon` (a winding-number test that
/// reports `Inside` only for interior points).
#[verifier::external_body]
pub(crate) fn ring_contains(ring: &Vec<(i64, i64)>, p: (i64, i64)) -> (r: bool)
    requires
        ring_in_world(ring@),
        pair_in_world(p),
    ensures
        r == polygon_contains(ring@, p),
{
    let poly = geo::Polygon::new(geo::LineString::from(ring.clone()), vec![]);
    poly.contains(&geo::Coord { x: p.0, y: p.1 })
}

/// Relies on geo's `Intersects<Polygon>` for `Rect`: true when the closed
/// rectangle and the polygon share a point. `lo` is the rectangle's minimum
/// corner and `hi` its maximum corner.
#[verifier::external_body]
pub(crate) fn rect_intersects_ring(lo: (i64, i64), hi: (i64, i64), ring: &Vec<(i64, i64)>) -> (r: bool)
    requires
        pair_in_world(lo),
        pair_in_world(hi),
        ring_in_world(ring@),
    ensures
        r == rect_meets_polygon(lo, hi, ring@),
{
    let rect = geo::Rect::new(geo::Coord { x: lo.0, y: lo.1 }, geo::Coord { x: hi.0, y: hi.1 });
    let poly = geo::Polygon::new(geo::LineString::from(ring.clone()), vec![]);
    rect.intersects(&poly)
}

/// A point in integer world units.
#[derive(Clone, Copy, Debug, PartialEq, Eq, Structural)]
pub struct Point {
    pub x: i64,
    pub y: i64,
}

impl Point {
    pub fn new(x: i64, y: i64) -> (r: Point)
        ensures
            r.x == x,
            r.y == y,
    {
        Point { x, y }
    }

    pub open spec fn pair(self) -> (i64, i64) {
        (self.x, self.y)
    }
}

/// A closed axis-aligned rectangle, `lo` its minimum corner and `hi` its
/// maximum corner.
#[derive(Clone, Copy, Debug, PartialEq, Eq, Structural)]
pub struct Region {
    pub lo: Point,
    pub hi: Point,
}

pub open spec fn min_of(a: i64, b: i64) -> i64 {
    if a <= b { a } else { b }
}

pub open spec fn max_of(a: i64, b: i64) -> i64 {
    if a <= b { b } else { a }
}

impl Region {
    pub open spec fn wf(self) -> bool {
        self.lo.x <= self.hi.x && self.lo.y <= self.hi.y
    }

    /// The rectangle whose opposite corners are `a` and `b`.
    pub open spec fn spanning_spec(a: Point, b: Point) -> Region {
        Region {
            lo: Point { x: min_of(a.x, b.x), y: min_of(a.y, b.y) },
            hi: Point { x: max_of(a.x, b.x), y: max_of(a.y, b.y) },
        }
    }

    pub open spec fn holds(self, p: (int, int)) -> bool {
        self.lo.x <= p.0 <= self.hi.x && self.lo.y <= p.1 <= self.hi.y
    }

    /// Every point of `other` is a point of `self`.
    pub open spec fn encloses(self, other: Region) -> bool {
        forall|p: (int, int)| #[trigger] other.holds(p) ==> self.holds(p)
    }

    pub fn spanning(a: Point, b: Point) -> (r: Region)
        ensures
            r == Region::spanning_spec(a, b),
            r.wf(),
    {
        let lo = Point { x: if a.x <= b.x { a.x } else { b.x }, y: if a.y <= b.y { a.y } else { b.y } };
        let hi = Point { x: if a.x <= b.x { b.x } else { a.x }, y: if a.y <= b.y { b.y } else { a.y } };
        Region { lo, hi }
    }

    pub open spec fn width_spec(self) -> int {
        self.hi.x - self.lo.x
    }

    pub open spec fn height_spec(self) -> int {
        self.hi.y - self.lo.y
    }
}

} // verus!
