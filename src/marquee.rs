use crate::geometry::{Point, Region};
use crate::gesture::Interaction;
use crate::selection::{contains_id, without_id, SelectionState};
use crate::shapes::{ShapeKind, ShapeRecord};
use vstd::prelude::*;

verus! {

/// The change of the marquee's width and height on its latest update.
#[derive(Clone, Copy, Debug, PartialEq, Eq, Structural)]
pub struct DeltaWidthHeight {
    pub x: i128,
    pub y: i128,
}

/// A rubber-band selection region anchored where its drag began.
#[derive(Clone, Copy, Debug, PartialEq, Eq, Structural)]
pub struct SelectionBox {
    pub anchor: Point,
    pub rect: Region,
    pub delta: DeltaWidthHeight,
}

/// The marquee takes part in selection: rectangles and polygons, not paths.
pub open spec fn marquee_kind(s: ShapeRecord) -> bool {
    s.kind != ShapeKind::Path
}

/// Ids of the shapes that the marquee drops from the selection when it
/// shrinks: rectangles and polygons that no longer meet the region.
pub open spec fn marquee_drops(shapes: Seq<ShapeRecord>, r: Region) -> Set<u64> {
    Set::new(|id: u64| exists|i: int| 0 <= i < shapes.len() && #[trigger] shapes[i].id == id && marquee_kind(shapes[i]) && !shapes[i].meets(r))
}

/// Ids of the shapes that the marquee adds to the selection when it grows:
/// visible rectangles and polygons that meet the region.
pub open spec fn marquee_catches(shapes: Seq<ShapeRecord>, r: Region) -> Set<u64> {
    Set::new(|id: u64| exists|i: int| 0 <= i < shapes.len() && #[trigger] shapes[i].id == id && marquee_kind(shapes[i]) && shapes[i].visible && shapes[i].meets(r))
}

impl SelectionBox {
    pub open spec fn shrinking(&self) -> bool {
        self.delta.x < 0 || self.delta.y < 0
    }

    /// A region of no extent at the anchor.
    pub fn new(anchor: Point) -> (r: SelectionBox)
        ensures
            r.anchor == anchor,
            r.rect == Region::spanning_spec(anchor, anchor),
            r.delta == (DeltaWidthHeight { x: 0, y: 0 }),
    {
        SelectionBox { anchor, rect: Region::spanning(anchor, anchor), delta: DeltaWidthHeight { x: 0, y: 0 } }
    }
}

/// Starts a marquee on a drag start with the modifier held, deselecting
/// everything; drops it on a drag end.
pub fn spawn_despawn_selection_box_system(
    marquee: &mut Option<SelectionBox>,
    state: &mut SelectionState,
    ev: Interaction,
    modifier: bool,
    anchor: Point,
)
    requires
        old(state).wf(),
    ensures
        final(state).wf(),
        final(state).hovered == old(state).hovered,
        ev == Interaction::DragStart && modifier ==> *final(marquee) == Some(
            (SelectionBox {
                anchor,
                rect: Region::spanning_spec(anchor, anchor),
                delta: DeltaWidthHeight { x: 0, y: 0 },
            }),
        ) && final(state).selected_set() == Set::<u64>::empty() && final(state).dragging_set() == Set::<
            u64,
        >::empty(),
        ev == Interaction::DragEnd ==> *final(marquee) is None && *final(state) == *old(state),
        !(ev == Interaction::DragStart && modifier) && ev != Interaction::DragEnd ==> *final(marquee) == *old(
            marquee,
        ) && *final(state) == *old(state),
{
    if ev == Interaction::DragStart && modifier {
        *marquee = Some(SelectionBox::new(anchor));
        state.clear_selected();
    } else if ev == Interaction::DragEnd {
        *marquee = None;
    }
}

/// Stretches the marquee from its anchor to the cursor and records how its
/// width and height changed.
pub fn draw_selection_box_system(b: &mut SelectionBox, cursor: Point)
    requires
        old(b).rect.wf(),
    ensures
        final(b).anchor == old(b).anchor,
        final(b).rect == Region::spanning_spec(cursor, old(b).anchor),
        final(b).delta.x == final(b).rect.width_spec() - old(b).rect.width_spec(),
        final(b).delta.y == final(b).rect.height_spec() - old(b).rect.height_spec(),
{
    let r = Region::spanning(cursor, b.anchor);
    let dx: i128 = (r.hi.x as i128 - r.lo.x as i128) - (b.rect.hi.x as i128 - b.rect.lo.x as i128);
    let dy: i128 = (r.hi.y as i128 - r.lo.y as i128) - (b.rect.hi.y as i128 - b.rect.lo.y as i128);
    b.rect = r;
    b.delta = DeltaWidthHeight { x: dx, y: dy };
}

/// Updates the selection from the marquee. When the region shrank on either
/// axis, selected rectangles and polygons that no longer meet it are
/// deselected; otherwise every visible rectangle and polygon that meets it is
/// selected.
pub fn selection_box_selection_system(b: &SelectionBox, shapes: &Vec<ShapeRecord>, state: &mut SelectionState)
    requires
        old(state).wf(),
    ensures
        final(state).wf(),
        final(state).hovered == old(state).hovered,
        b.shrinking() ==> final(state).selected_set() == old(state).selected_set().difference(
            marquee_drops(shapes@, b.rect),
        ) && final(state).dragging_set() == old(state).dragging_set().difference(
            marquee_drops(shapes@, b.rect),
        ),
        !b.shrinking() ==> final(state).selected_set() == old(state).selected_set().union(
            marquee_catches(shapes@, b.rect),
        ) && final(state).dragging_set() == old(state).dragging_set(),
        !b.shrinking() ==> old(state).selected_set().subset_of(final(state).selected_set()),
        !b.shrinking() ==> final(state).dragging == old(state).dragging,
{
    let shrinking = b.delta.x < 0 || b.delta.y < 0;
    let mut i: usize = 0;
    while i < shapes.len()
        invariant
            i <= shapes@.len(),
            shrinking == b.shrinking(),
            state.wf(),
            state.hovered == old(state).hovered,
            shrinking ==> state.selected_set() == old(state).selected_set().difference(
                marquee_drops(shapes@.take(i as int), b.rect),
            ) && state.dragging_set() == old(state).dragging_set().difference(
                marquee_drops(shapes@.take(i as int), b.rect),
            ),
            !shrinking ==> state.selected_set() == old(state).selected_set().union(
                marquee_catches(shapes@.take(i as int), b.rect),
            ) && state.dragging == old(state).dragging,
        decreases shapes@.len() - i,
    {
        let s = &shapes[i];
        let ghost prefix = shapes@.take(i as int);
        let ghost next = shapes@.take(i + 1);
        proof {
            assert(next.len() == i + 1);
            assert forall|k: int| 0 <= k < i implies next[k] == prefix[k] by {}
            assert(next[i as int] == shapes@[i as int]);
        }
        if s.kind != ShapeKind::Path {
            if shrinking {
                if !s.is_met_by(b.rect) {
                    state.selected = without_id(&state.selected, s.id);
                    state.dragging = without_id(&state.dragging, s.id);
                }
                proof {
                    assert(marquee_drops(next, b.rect) =~= if !s.meets(b.rect) {
                        marquee_drops(prefix, b.rect).insert(s.id)
                    } else {
                        marquee_drops(prefix, b.rect)
                    }) by {
                        assert forall|id: u64| #[trigger] marquee_drops(next, b.rect).contains(id) <==> (if !s.meets(b.rect) {
                            marquee_drops(prefix, b.rect).insert(s.id)
                        } else {
                            marquee_drops(prefix, b.rect)
                        }).contains(id) by {
                            if marquee_drops(next, b.rect).contains(id) {
                                let k = choose|k: int| 0 <= k < next.len() && #[trigger] next[k].id == id && marquee_kind(next[k]) && !next[k].meets(b.rect);
                                if k < i {
                                    assert(prefix[k].id == id);
                                }
                            }
                            if marquee_drops(prefix, b.rect).contains(id) {
                                let k = choose|k: int| 0 <= k < prefix.len() && #[trigger] prefix[k].id == id && marquee_kind(prefix[k]) && !prefix[k].meets(b.rect);
                                assert(next[k].id == id);
                            }
                            if !s.meets(b.rect) && id == s.id {
                                assert(next[i as int].id == id);
                            }
                        }
                    }
                    assert(state.selected_set() =~= old(state).selected_set().difference(marquee_drops(next, b.rect)));
                    assert(state.dragging_set() =~= old(state).dragging_set().difference(marquee_drops(next, b.rect)));
                }
            } else {
                let caught = s.visible && s.is_met_by(b.rect);
                let ghost before_sel = state.selected_set();
                let ghost before_seq = state.selected@;
                let already = if caught { contains_id(&state.selected, s.id) } else { false };
                if caught && !already {
                    state.selected.push(s.id);
                    proof {
                        before_seq.lemma_push_to_set_commute(s.id);
                        assert(state.selected@ == before_seq.push(s.id));
                    }
                }
                proof {
                    if caught {
                        if already {
                            assert(before_sel.contains(s.id));
                        }
                        assert(state.selected_set() =~= before_sel.insert(s.id));
                    }
                    assert(marquee_catches(next, b.rect) =~= if caught {
                        marquee_catches(prefix, b.rect).insert(s.id)
                    } else {
                        marquee_catches(prefix, b.rect)
                    }) by {
                        assert forall|id: u64| #[trigger] marquee_catches(next, b.rect).contains(id) <==> (if caught {
                            marquee_catches(prefix, b.rect).insert(s.id)
                        } else {
                            marquee_catches(prefix, b.rect)
                        }).contains(id) by {
                            if marquee_catches(next, b.rect).contains(id) {
                                let k = choose|k: int| 0 <= k < next.len() && #[trigger] next[k].id == id && marquee_kind(next[k]) && next[k].visible && next[k].meets(b.rect);
                                if k < i {
                                    assert(prefix[k].id == id);
                                }
                            }
                            if marquee_catches(prefix, b.rect).contains(id) {
                                let k = choose|k: int| 0 <= k < prefix.len() && #[trigger] prefix[k].id == id && marquee_kind(prefix[k]) && prefix[k].visible && prefix[k].meets(b.rect);
                                assert(next[k].id == id);
                            }
                            if caught && id == s.id {
                                assert(next[i as int].id == id);
                            }
                        }
                    }
                    assert(state.selected_set() =~= old(state).selected_set().union(marquee_catches(next, b.rect)));
                }
            }
        } else {
            proof {
                assert(marquee_drops(next, b.rect) =~= marquee_drops(prefix, b.rect)) by {
                    assert forall|id: u64| #[trigger] marquee_drops(next, b.rect).contains(id) <==> marquee_drops(prefix, b.rect).contains(id) by {
                        if marquee_drops(next, b.rect).contains(id) {
                            let k = choose|k: int| 0 <= k < next.len() && #[trigger] next[k].id == id && marquee_kind(next[k]) && !next[k].meets(b.rect);
                            assert(k < i);
                            assert(prefix[k].id == id);
                        }
                        if marquee_drops(prefix, b.rect).contains(id) {
                            let k = choose|k: int| 0 <= k < prefix.len() && #[trigger] prefix[k].id == id && marquee_kind(prefix[k]) && !prefix[k].meets(b.rect);
                            assert(next[k].id == id);
                        }
                    }
                }
                assert(marquee_catches(next, b.rect) =~= marquee_catches(prefix, b.rect)) by {
                    assert forall|id: u64| #[trigger] marquee_catches(next, b.rect).contains(id) <==> marquee_catches(prefix, b.rect).contains(id) by {
                        if marquee_catches(next, b.rect).contains(id) {
                            let k = choose|k: int| 0 <= k < next.len() && #[trigger] next[k].id == id && marquee_kind(next[k]) && next[k].visible && next[k].meets(b.rect);
                            assert(k < i);
                            assert(prefix[k].id == id);
                        }
                        if marquee_catches(prefix, b.rect).contains(id) {
                            let k = choose|k: int| 0 <= k < prefix.len() && #[trigger] prefix[k].id == id && marquee_kind(prefix[k]) && prefix[k].visible && prefix[k].meets(b.rect);
                            assert(next[k].id == id);
                        }
                    }
                }
            }
        }
        i = i + 1;
    }
    proof {
        assert(shapes@.take(shapes@.len() as int) =~= shapes@);
    }
}

/// While the cursor stays on the same side of the anchor on each axis, a
/// marquee update whose width and height did not shrink yields a region that
/// encloses the previous one.
pub proof fn lemma_growing_marquee_encloses(anchor: Point, before: Point, after: Point)
    requires
        (before.x <= anchor.x && after.x <= anchor.x) || (before.x >= anchor.x && after.x >= anchor.x),
        (before.y <= anchor.y && after.y <= anchor.y) || (before.y >= anchor.y && after.y >= anchor.y),
        Region::spanning_spec(after, anchor).width_spec() >= Region::spanning_spec(before, anchor).width_spec(),
        Region::spanning_spec(after, anchor).height_spec() >= Region::spanning_spec(before, anchor).height_spec(),
    ensures
        Region::spanning_spec(after, anchor).encloses(Region::spanning_spec(before, anchor)),
{
}

} // verus!
