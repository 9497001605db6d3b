use crate::geometry::Point;
use crate::shapes::ShapeRecord;
use vstd::prelude::*;

verus! {

pub open spec fn fits_i64(v: int) -> bool {
    i64::MIN <= v <= i64::MAX
}

/// The shape moved by `(dx, dy)`.
pub open spec fn moved(s: ShapeRecord, dx: int, dy: int) -> ShapeRecord {
    ShapeRecord {
        id: s.id,
        layer: s.layer,
        kind: s.kind,
        ring: s.ring,
        position: Point { x: (s.position.x + dx) as i64, y: (s.position.y + dy) as i64 },
        visible: s.visible,
    }
}

/// Every shape whose id is in `ids` moved by `(dx, dy)`; the others as they
/// were.
pub open spec fn shift_all(shapes: Seq<ShapeRecord>, ids: Set<u64>, dx: int, dy: int) -> Seq<ShapeRecord> {
    Seq::new(shapes.len(), |i: int| if ids.contains(shapes[i].id) { moved(shapes[i], dx, dy) } else { shapes[i] })
}

/// Moving the shapes of `ids` by `(dx, dy)` keeps every coordinate within
/// `i64`.
pub open spec fn shift_fits(shapes: Seq<ShapeRecord>, ids: Set<u64>, dx: int, dy: int) -> bool {
    forall|i: int|
        0 <= i < shapes.len() && #[trigger] ids.contains(shapes[i].id) ==> fits_i64(shapes[i].position.x + dx)
            && fits_i64(shapes[i].position.y + dy)
}

/// Whether moving the shapes of `ids` by `(dx, dy)` keeps every coordinate
/// within `i64`.
pub fn can_shift(shapes: &Vec<ShapeRecord>, ids: &Vec<u64>, dx: i128, dy: i128) -> (r: bool)
    ensures
        r == shift_fits(shapes@, ids@.to_set(), dx as int, dy as int),
{
    let mut i: usize = 0;
    while i < shapes.len()
        invariant
            i <= shapes@.len(),
            forall|j: int|
                0 <= j < i && #[trigger] ids@.to_set().contains(shapes@[j].id) ==> fits_i64(shapes@[j].position.x + dx)
                    && fits_i64(shapes@[j].position.y + dy),
        decreases shapes@.len() - i,
    {
        if crate::selection::contains_id(ids, shapes[i].id) {
            assert(ids@.to_set().contains(shapes@[i as int].id));
            if dx < -0x1_0000_0000_0000_0000 || dx > 0x1_0000_0000_0000_0000 || dy < -0x1_0000_0000_0000_0000
                || dy > 0x1_0000_0000_0000_0000 {
                return false;
            }
            let x: i128 = shapes[i].position.x as i128 + dx;
            let y: i128 = shapes[i].position.y as i128 + dy;
            if x < i64::MIN as i128 || x > i64::MAX as i128 || y < i64::MIN as i128 || y > i64::MAX as i128 {
                return false;
            }
        }
        i = i + 1;
    }
    true
}

/// Moves every shape whose id is in `ids` by `(dx, dy)`. Ids with no shape
/// are skipped.
pub fn shift_shapes(shapes: &mut Vec<ShapeRecord>, ids: &Vec<u64>, dx: i128, dy: i128)
    requires
        shift_fits(old(shapes)@, ids@.to_set(), dx as int, dy as int),
    ensures
        final(shapes)@ == shift_all(old(shapes)@, ids@.to_set(), dx as int, dy as int),
{
    let ghost start = shapes@;
    let mut i: usize = 0;
    while i < shapes.len()
        invariant
            i <= shapes@.len(),
            shapes@.len() == start.len(),
            shift_fits(start, ids@.to_set(), dx as int, dy as int),
            forall|j: int| 0 <= j < i ==> shapes@[j] == shift_all(start, ids@.to_set(), dx as int, dy as int)[j],
            forall|j: int| i <= j < shapes@.len() ==> shapes@[j] == start[j],
        decreases shapes@.len() - i,
    {
        if crate::selection::contains_id(ids, shapes[i].id) {
            let p = shapes[i].position;
            assert(ids@.to_set().contains(start[i as int].id));
            let x: i128 = p.x as i128 + dx;
            let y: i128 = p.y as i128 + dy;
            shapes[i].position = Point { x: x as i64, y: y as i64 };
        }
        i = i + 1;
    }
    proof {
        assert(shapes@ =~= shift_all(start, ids@.to_set(), dx as int, dy as int));
    }
}

/// The cursor's frame-to-frame movement: zero on the first frame of a drag.
pub open spec fn drag_delta(last: Option<Point>, cursor: Point) -> (int, int) {
    match last {
        Some(l) => (cursor.x - l.x, cursor.y - l.y),
        None => (0, 0),
    }
}

/// Moves every dragging shape by the cursor's movement since the last frame
/// while the primary button is held. The last cursor position is forgotten
/// when the button is up or nothing is being dragged, so that no stale delta
/// is applied when a drag resumes.
pub fn click_and_drag_shape_system(
    last: &mut Option<Point>,
    shapes: &mut Vec<ShapeRecord>,
    dragging: &Vec<u64>,
    cursor: Point,
    button_held: bool,
)
    requires
        button_held && dragging@.len() > 0 ==> shift_fits(
            old(shapes)@,
            dragging@.to_set(),
            drag_delta(*old(last), cursor).0,
            drag_delta(*old(last), cursor).1,
        ),
    ensures
        button_held && dragging@.len() > 0 ==> final(shapes)@ == shift_all(
            old(shapes)@,
            dragging@.to_set(),
            drag_delta(*old(last), cursor).0,
            drag_delta(*old(last), cursor).1,
        ) && *final(last) == Some(cursor),
        !(button_held && dragging@.len() > 0) ==> final(shapes)@ == old(shapes)@ && *final(last) is None,
{
    if button_held && dragging.len() > 0 {
        let (dx, dy): (i128, i128) = match *last {
            Some(l) => (cursor.x as i128 - l.x as i128, cursor.y as i128 - l.y as i128),
            None => (0, 0),
        };
        shift_shapes(shapes, dragging, dx, dy);
        *last = Some(cursor);
    } else {
        *last = None;
    }
}

/// Two successive moves of the same shapes are one move by the summed
/// displacement: the frames of a drag add up to its net displacement.
pub proof fn lemma_shifts_compose(shapes: Seq<ShapeRecord>, ids: Set<u64>, dx1: int, dy1: int, dx2: int, dy2: int)
    requires
        shift_fits(shapes, ids, dx1, dy1),
        shift_fits(shift_all(shapes, ids, dx1, dy1), ids, dx2, dy2),
    ensures
        shift_fits(shapes, ids, dx1 + dx2, dy1 + dy2),
        shift_all(shift_all(shapes, ids, dx1, dy1), ids, dx2, dy2) == shift_all(shapes, ids, dx1 + dx2, dy1 + dy2),
{
    let once = shift_all(shapes, ids, dx1, dy1);
    assert forall|i: int| 0 <= i < shapes.len() && #[trigger] ids.contains(shapes[i].id) implies fits_i64(
        shapes[i].position.x + (dx1 + dx2),
    ) && fits_i64(shapes[i].position.y + (dy1 + dy2)) by {
        assert(once[i].id == shapes[i].id);
        assert(ids.contains(once[i].id));
    }
    assert(shift_all(once, ids, dx2, dy2) =~= shift_all(shapes, ids, dx1 + dx2, dy1 + dy2));
}

} // verus!
