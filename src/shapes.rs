use crate::geometry::{
    pair_in_world, polygon_contains, rect_intersects_ring, rect_meets_polygon, ring_contains,
    ring_in_world, Point, Region, WORLD_LIMIT,
};
use vstd::prelude::*;

verus! {

/// What kind of layout record a shape was imported from.
#[derive(Clone, Copy, Debug, PartialEq, Eq, Structural)]
pub enum ShapeKind {
    Rect,
    Poly,
    Path,
}

/// One live shape: its outline is a closed ring relative to `position`.
#[derive(Clone, Debug)]
pub struct ShapeRecord {
    pub id: u64,
    pub layer: u8,
    pub kind: ShapeKind,
    pub ring: Vec<Point>,
    pub position: Point,
    pub visible: bool,
}

/// A ring point moved by an offset, in unbounded integers.
pub open spec fn shifted(p: Point, by: Point) -> (int, int) {
    (p.x + by.x, p.y + by.y)
}

impl ShapeRecord {
    /// Every vertex of the outline, moved to the shape's position, lies in the
    /// world square.
    pub open spec fn placed_fits(self) -> bool {
        forall|i: int|
            0 <= i < self.ring@.len() ==> {
                let q = #[trigger] shifted(self.ring@[i], self.position);
                -WORLD_LIMIT <= q.0 <= WORLD_LIMIT && -WORLD_LIMIT <= q.1 <= WORLD_LIMIT
            }
    }

    /// The outline moved to the shape's position.
    pub open spec fn placed(self) -> Seq<(i64, i64)> {
        self.ring@.map_values(|p: Point| ((p.x + self.position.x) as i64, (p.y + self.position.y) as i64))
    }

    /// The cursor point `p` picks this shape.
    pub open spec fn hit(self, p: Point) -> bool {
        &&& self.visible
        &&& self.placed_fits()
        &&& pair_in_world(p.pair())
        &&& polygon_contains(self.placed(), p.pair())
    }

    /// The shape's placed outline meets the closed rectangle `r`.
    pub open spec fn meets(self, r: Region) -> bool {
        &&& self.placed_fits()
        &&& pair_in_world(r.lo.pair())
        &&& pair_in_world(r.hi.pair())
        &&& rect_meets_polygon(r.lo.pair(), r.hi.pair(), self.placed())
    }

    /// The outline moved to the shape's position, or `None` where a vertex
    /// would leave the world square.
    pub fn placed_ring(&self) -> (r: Option<Vec<(i64, i64)>>)
        ensures
            r.is_some() == self.placed_fits(),
            r.is_some() ==> r.unwrap()@ == self.placed(),
            r.is_some() ==> ring_in_world(r.unwrap()@),
    {
        let mut out: Vec<(i64, i64)> = Vec::new();
        let mut i: usize = 0;
        while i < self.ring.len()
            invariant
                i <= self.ring@.len(),
                out@.len() == i,
                forall|j: int| 0 <= j < i ==> {
                    let q = #[trigger] shifted(self.ring@[j], self.position);
                    -WORLD_LIMIT <= q.0 <= WORLD_LIMIT && -WORLD_LIMIT <= q.1 <= WORLD_LIMIT
                },
                forall|j: int| 0 <= j < i ==> out@[j] == self.placed()[j],
                ring_in_world(out@),
            decreases self.ring@.len() - i,
        {
            let p = self.ring[i];
            let x: i128 = p.x as i128 + self.position.x as i128;
            let y: i128 = p.y as i128 + self.position.y as i128;
            if x < -(WORLD_LIMIT as i128) || x > WORLD_LIMIT as i128 || y < -(WORLD_LIMIT as i128)
                || y > WORLD_LIMIT as i128 {
                assert(!({
                    let q = shifted(self.ring@[i as int], self.position);
                    -WORLD_LIMIT <= q.0 <= WORLD_LIMIT && -WORLD_LIMIT <= q.1 <= WORLD_LIMIT
                }));
                return None;
            }
            out.push((x as i64, y as i64));
            i = i + 1;
        }
        assert(out@ =~= self.placed());
        Some(out)
    }

    /// Whether the cursor point `p` picks this shape.
    pub fn is_hit(&self, p: Point) -> (r: bool)
        ensures
            r == self.hit(p),
    {
        if !self.visible || p.x < -WORLD_LIMIT || p.x > WORLD_LIMIT || p.y < -WORLD_LIMIT || p.y
            > WORLD_LIMIT {
            return false;
        }
        match self.placed_ring() {
            None => false,
            Some(ring) => ring_contains(&ring, (p.x, p.y)),
        }
    }

    /// Whether the placed outline meets the closed rectangle `r`.
    pub fn is_met_by(&self, r: Region) -> (b: bool)
        ensures
            b == self.meets(r),
    {
        if r.lo.x < -WORLD_LIMIT || r.lo.x > WORLD_LIMIT || r.lo.y < -WORLD_LIMIT || r.lo.y
            > WORLD_LIMIT || r.hi.x < -WORLD_LIMIT || r.hi.x > WORLD_LIMIT || r.hi.y < -WORLD_LIMIT
            || r.hi.y > WORLD_LIMIT {
            return false;
        }
        match self.placed_ring() {
            None => false,
            Some(ring) => rect_intersects_ring((r.lo.x, r.lo.y), (r.hi.x, r.hi.y), &ring),
        }
    }
}

/// The outline of a rectangle: its four corners, counter-clockwise from the
/// minimum corner.
pub open spec fn rect_outline_spec(lo: Point, hi: Point) -> Seq<Point> {
    seq![lo, Point { x: hi.x, y: lo.y }, hi, Point { x: lo.x, y: hi.y }]
}

/// The outline of the rectangle with minimum corner `lo` and maximum corner
/// `hi`.
pub fn rect_outline(lo: Point, hi: Point) -> (r: Vec<Point>)
    ensures
        r@ == rect_outline_spec(lo, hi),
{
    let r = vec![lo, Point { x: hi.x, y: lo.y }, hi, Point { x: lo.x, y: hi.y }];
    assert(r@ =~= rect_outline_spec(lo, hi));
    r
}

/// The point of a path's outline on the forward side of vertex `k`: a
/// vertical segment (to the next vertex, cyclically) is widened to the right,
/// any other segment downward.
pub open spec fn path_side(points: Seq<Point>, k: int, half: int, forward: bool) -> Point {
    let p0 = points[k];
    let p1 = points[(k + 1) % (points.len() as int)];
    let s = if forward { half } else { -half };
    if p0.x == p1.x {
        Point { x: (p0.x + s) as i64, y: p0.y }
    } else {
        Point { x: p0.x, y: (p0.y - s) as i64 }
    }
}

/// The closed outline of a Manhattan path of width `2 * half`: the forward
/// side of every vertex in order, then the backward side in reverse order.
pub open spec fn path_outline_spec(points: Seq<Point>, half: int) -> Seq<Point> {
    let n = points.len() as int;
    Seq::new(
        (2 * n) as nat,
        |k: int| if k < n { path_side(points, k, half, true) } else { path_side(points, 2 * n - 1 - k, half, false) },
    )
}

/// Widening every vertex by `half` on either side stays within `i64`.
pub open spec fn path_fits(points: Seq<Point>, half: int) -> bool {
    forall|k: int|
        0 <= k < points.len() ==> i64::MIN + half <= (#[trigger] points[k]).x <= i64::MAX - half && i64::MIN + half
            <= points[k].y <= i64::MAX - half
}

/// The polygon that stands for a routed path of even `width`.
pub fn path_outline(points: &Vec<Point>, width: u32) -> (r: Vec<Point>)
    requires
        width % 2 == 0,
        path_fits(points@, (width / 2) as int),
    ensures
        r@ == path_outline_spec(points@, (width / 2) as int),
{
    let n = points.len();
    let half: i64 = (width / 2) as i64;
    let mut forward: Vec<Point> = Vec::new();
    let mut backward: Vec<Point> = Vec::new();
    let mut k: usize = 0;
    while k < n
        invariant
            n == points@.len(),
            half == (width / 2) as int,
            path_fits(points@, half as int),
            k <= n,
            forward@.len() == k,
            backward@.len() == k,
            forall|j: int| 0 <= j < k ==> forward@[j] == path_side(points@, j, half as int, true),
            forall|j: int| 0 <= j < k ==> backward@[j] == path_side(points@, j, half as int, false),
        decreases n - k,
    {
        let p0 = points[k];
        let p1 = points[(k + 1) % n];
        if p0.x == p1.x {
            forward.push(Point { x: p0.x + half, y: p0.y });
            backward.push(Point { x: p0.x - half, y: p0.y });
        } else {
            forward.push(Point { x: p0.x, y: p0.y - half });
            backward.push(Point { x: p0.x, y: p0.y + half });
        }
        k = k + 1;
    }
    let mut out = forward;
    let mut j: usize = n;
    while j > 0
        invariant
            n == points@.len(),
            backward@.len() == n,
            j <= n,
            out@.len() == n + (n - j),
            forall|m: int| 0 <= m < n ==> out@[m] == path_side(points@, m, half as int, true),
            forall|m: int| n <= m < out@.len() ==> out@[m] == path_side(points@, 2 * n - 1 - m, half as int, false),
            forall|m: int| 0 <= m < n ==> backward@[m] == path_side(points@, m, half as int, false),
        decreases j,
    {
        out.push(backward[j - 1]);
        j = j - 1;
    }
    assert(out@ =~= path_outline_spec(points@, half as int));
    out
}

} // verus!
