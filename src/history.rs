use crate::drag::{shift_all, shift_fits, shift_shapes};
use crate::geometry::Point;
use crate::gesture::Interaction;
use crate::shapes::ShapeRecord;
use vstd::prelude::*;

verus! {

/// Bound on a recorded displacement: the difference of two `i64` positions.
pub const DELTA_LIMIT: i128 = 0x1_0000_0000_0000_0000;

/// The net displacement of one completed drag.
#[derive(Clone, Copy, Debug, PartialEq, Eq, Structural)]
pub struct TranslateAction {
    pub x: i128,
    pub y: i128,
}

/// One undoable step: the displacement and the shapes it moved.
#[derive(Clone, Debug)]
pub struct AtomicAction {
    pub action: TranslateAction,
    pub entities: Vec<u64>,
}

/// Which way to step through the history.
#[derive(Clone, Copy, Debug, PartialEq, Eq, Structural)]
pub enum UndoRedoEvent {
    Undo,
    Redo,
}

/// Where the first dragging shape stood when its drag began.
#[derive(Clone, Copy, Debug, PartialEq, Eq, Structural)]
pub struct PreDragPosEvent {
    pub entity: u64,
    pub pos: Point,
}

/// What the recorder remembers during a drag: the first dragging shape's
/// starting position and the shapes that were dragging when it began.
#[derive(Clone, Debug)]
pub struct DragRecord {
    pub start: Option<PreDragPosEvent>,
    pub entities: Vec<u64>,
}

/// The log of completed drags. `offset` counts the actions currently
/// applied: undo reverses `actions[offset - 1]`, redo re-applies
/// `actions[offset]`.
#[derive(Clone, Debug)]
pub struct UndoRedoHistory {
    pub offset: usize,
    pub actions: Vec<AtomicAction>,
}

pub open spec fn action_wf(a: AtomicAction) -> bool {
    -DELTA_LIMIT <= a.action.x <= DELTA_LIMIT && -DELTA_LIMIT <= a.action.y <= DELTA_LIMIT
}

pub open spec fn ids_of(a: AtomicAction) -> Set<u64> {
    a.entities@.to_set()
}

/// The position of the first shape with id `id`, if any.
pub open spec fn position_of(shapes: Seq<ShapeRecord>, id: u64) -> Option<Point>
    decreases shapes.len(),
{
    if shapes.len() == 0 {
        None
    } else if shapes[0].id == id {
        Some(shapes[0].position)
    } else {
        position_of(shapes.drop_first(), id)
    }
}

/// The position of the first shape with id `id`, if any.
pub fn find_position(shapes: &Vec<ShapeRecord>, id: u64) -> (r: Option<Point>)
    ensures
        r == position_of(shapes@, id),
{
    let mut i: usize = 0;
    assert(shapes@.subrange(0, shapes@.len() as int) =~= shapes@);
    while i < shapes.len()
        invariant
            i <= shapes@.len(),
            position_of(shapes@, id) == position_of(shapes@.subrange(i as int, shapes@.len() as int), id),
        decreases shapes@.len() - i,
    {
        proof {
            let rest = shapes@.subrange(i as int, shapes@.len() as int);
            assert(rest.drop_first() =~= shapes@.subrange(i + 1, shapes@.len() as int));
        }
        if shapes[i].id == id {
            return Some(shapes[i].position);
        }
        i = i + 1;
    }
    proof {
        assert(shapes@.subrange(i as int, shapes@.len() as int) =~= Seq::<ShapeRecord>::empty());
    }
    None
}

impl UndoRedoHistory {
    pub open spec fn wf(&self) -> bool {
        &&& self.offset <= self.actions@.len()
        &&& forall|i: int| 0 <= i < self.actions@.len() ==> action_wf(#[trigger] self.actions@[i])
    }

    pub fn new() -> (r: UndoRedoHistory)
        ensures
            r.wf(),
            r.offset == 0,
            r.actions@.len() == 0,
    {
        UndoRedoHistory { offset: 0, actions: Vec::new() }
    }

    /// Appends an action after the ones currently applied. Actions that had
    /// been undone are dropped first, so a new drag ends the redo chain.
    pub fn record(&mut self, action: AtomicAction)
        requires
            old(self).wf(),
            action_wf(action),
        ensures
            final(self).wf(),
            final(self).actions@ == old(self).actions@.subrange(0, old(self).offset as int).push(action),
            final(self).offset == old(self).offset + 1,
    {
        self.actions.truncate(self.offset);
        self.actions.push(action);
        let n = self.actions.len();
        assert(self.offset < n);
        self.offset = self.offset + 1;
    }

    /// Reverses the last applied action on the shapes it moved.
    pub fn undo_action(&mut self, shapes: &mut Vec<ShapeRecord>)
        requires
            old(self).wf(),
            old(self).offset > 0,
            ({
                let a = old(self).actions@[old(self).offset - 1];
                shift_fits(old(shapes)@, ids_of(a), -a.action.x, -a.action.y)
            }),
        ensures
            final(self).wf(),
            final(self).actions@ == old(self).actions@,
            final(self).offset == old(self).offset - 1,
            ({
                let a = old(self).actions@[old(self).offset - 1];
                final(shapes)@ == shift_all(old(shapes)@, ids_of(a), -a.action.x, -a.action.y)
            }),
    {
        let a = &self.actions[self.offset - 1];
        assert(action_wf(self.actions@[self.offset - 1]));
        shift_shapes(shapes, &a.entities, -a.action.x, -a.action.y);
        self.offset = self.offset - 1;
    }

    /// Re-applies the first action that is not applied.
    pub fn redo_action(&mut self, shapes: &mut Vec<ShapeRecord>)
        requires
            old(self).wf(),
            old(self).offset < old(self).actions@.len(),
            ({
                let a = old(self).actions@[old(self).offset as int];
                shift_fits(old(shapes)@, ids_of(a), a.action.x as int, a.action.y as int)
            }),
        ensures
            final(self).wf(),
            final(self).actions@ == old(self).actions@,
            final(self).offset == old(self).offset + 1,
            ({
                let a = old(self).actions@[old(self).offset as int];
                final(shapes)@ == shift_all(old(shapes)@, ids_of(a), a.action.x as int, a.action.y as int)
            }),
    {
        let n = self.actions.len();
        let a = &self.actions[self.offset];
        shift_shapes(shapes, &a.entities, a.action.x, a.action.y);
        assert(self.offset < n);
        self.offset = self.offset + 1;
    }

    /// Whether an undo would move shapes outside the `i64` range.
    pub open spec fn undo_fits(&self, shapes: Seq<ShapeRecord>) -> bool {
        self.offset > 0 ==> {
            let a = self.actions@[self.offset - 1];
            shift_fits(shapes, ids_of(a), -a.action.x, -a.action.y)
        }
    }

    /// Whether a redo would move shapes outside the `i64` range.
    pub open spec fn redo_fits(&self, shapes: Seq<ShapeRecord>) -> bool {
        self.offset < self.actions@.len() ==> {
            let a = self.actions@[self.offset as int];
            shift_fits(shapes, ids_of(a), a.action.x as int, a.action.y as int)
        }
    }
}

/// Maps the key chord to a history step: control with a fresh `Z` undoes,
/// and redoes when shift is held too.
pub fn undo_redo_key_combo_system(ctrl_held: bool, z_just_pressed: bool, shift_held: bool) -> (r: Option<UndoRedoEvent>)
    ensures
        r == if ctrl_held && z_just_pressed {
            Some(if shift_held { UndoRedoEvent::Redo } else { UndoRedoEvent::Undo })
        } else {
            None::<UndoRedoEvent>
        },
{
    if ctrl_held && z_just_pressed {
        if shift_held {
            Some(UndoRedoEvent::Redo)
        } else {
            Some(UndoRedoEvent::Undo)
        }
    } else {
        None
    }
}

/// Undoes or redoes one action; either is a no-op at its end of the history.
pub fn undo_redo_system(history: &mut UndoRedoHistory, shapes: &mut Vec<ShapeRecord>, ev: UndoRedoEvent)
    requires
        old(history).wf(),
        ev == UndoRedoEvent::Undo ==> old(history).undo_fits(old(shapes)@),
        ev == UndoRedoEvent::Redo ==> old(history).redo_fits(old(shapes)@),
    ensures
        final(history).wf(),
        final(history).actions@ == old(history).actions@,
        ev == UndoRedoEvent::Undo && old(history).offset > 0 ==> final(history).offset == old(history).offset - 1
            && ({
            let a = old(history).actions@[old(history).offset - 1];
            final(shapes)@ == shift_all(old(shapes)@, ids_of(a), -a.action.x, -a.action.y)
        }),
        ev == UndoRedoEvent::Redo && old(history).offset < old(history).actions@.len() ==> final(history).offset
            == old(history).offset + 1 && ({
            let a = old(history).actions@[old(history).offset as int];
            final(shapes)@ == shift_all(old(shapes)@, ids_of(a), a.action.x as int, a.action.y as int)
        }),
        (ev == UndoRedoEvent::Undo && old(history).offset == 0) || (ev == UndoRedoEvent::Redo && old(
            history,
        ).offset == old(history).actions@.len()) ==> final(history).offset == old(history).offset
            && final(shapes)@ == old(shapes)@,
{
    match ev {
        UndoRedoEvent::Undo => {
            if history.offset > 0 && history.actions.len() > 0 {
                history.undo_action(shapes);
            }
        },
        UndoRedoEvent::Redo => {
            if history.actions.len() > 0 && history.offset < history.actions.len() {
                history.redo_action(shapes);
            }
        },
    }
}

/// The starting position of the first dragging shape, reported when a drag
/// begins; `None` when nothing is dragging or that shape is gone.
pub fn dragged_shape_initial_pos_system(shapes: &Vec<ShapeRecord>, dragging: &Vec<u64>) -> (r: Option<PreDragPosEvent>)
    ensures
        dragging@.len() == 0 ==> r is None,
        dragging@.len() > 0 ==> r == match position_of(shapes@, dragging@[0]) {
            Some(p) => Some(PreDragPosEvent { entity: dragging@[0], pos: p }),
            None => None::<PreDragPosEvent>,
        },
{
    if dragging.len() == 0 {
        return None;
    }
    let id = dragging[0];
    match find_position(shapes, id) {
        Some(p) => Some(PreDragPosEvent { entity: id, pos: p }),
        None => None,
    }
}

impl DragRecord {
    pub fn new() -> (r: DragRecord)
        ensures
            r.start is None,
            r.entities@.len() == 0,
    {
        DragRecord { start: None, entities: Vec::new() }
    }
}

/// The displacement a drag end records: that of the first dragging shape
/// since the drag began, if its start was reported and the shape still exists.
pub open spec fn completed_delta(start: Option<PreDragPosEvent>, shapes: Seq<ShapeRecord>) -> Option<TranslateAction> {
    match start {
        None => None,
        Some(s) => match position_of(shapes, s.entity) {
            None => None,
            Some(now) => Some(TranslateAction { x: (now.x - s.pos.x) as i128, y: (now.y - s.pos.y) as i128 }),
        },
    }
}

/// Tracks a drag from start to end and records it in the history.
///
/// A reported starting position is remembered. On a drag start the dragging
/// shapes are remembered. On a drag end with remembered shapes, the first
/// dragging shape's displacement since the start is recorded for all of them
/// (provided that shape still exists), and the remembered shapes are cleared.
pub fn undo_redo_tracking_system(
    history: &mut UndoRedoHistory,
    rec: &mut DragRecord,
    ev: Option<Interaction>,
    pre: Option<PreDragPosEvent>,
    dragging: &Vec<u64>,
    shapes: &Vec<ShapeRecord>,
)
    requires
        old(history).wf(),
    ensures
        final(history).wf(),
        final(rec).start == if pre is Some { pre } else { old(rec).start },
        ev == Some(Interaction::DragStart) ==> final(rec).entities@ == dragging@ && *final(history) == *old(
            history,
        ),
        ev == Some(Interaction::DragEnd) ==> final(rec).entities@.len() == 0,
        ev == Some(Interaction::DragEnd) && old(rec).entities@.len() > 0 && completed_delta(final(rec).start, shapes@)
            is Some ==> {
            let o = old(history).offset as int;
            &&& final(history).offset == o + 1
            &&& final(history).actions@.len() == o + 1
            &&& final(history).actions@.subrange(0, o) == old(history).actions@.subrange(0, o)
            &&& Some(final(history).actions@[o].action) == completed_delta(final(rec).start, shapes@)
            &&& final(history).actions@[o].entities@ == old(rec).entities@
        },
        ev == Some(Interaction::DragEnd) && !(old(rec).entities@.len() > 0 && completed_delta(final(rec).start, shapes@)
            is Some) ==> *final(history) == *old(history),
        ev != Some(Interaction::DragStart) && ev != Some(Interaction::DragEnd) ==> final(rec).entities
            == old(rec).entities && *final(history) == *old(history),
{
    if pre.is_some() {
        rec.start = pre;
    }
    match ev {
        Some(Interaction::DragStart) => {
            rec.entities = dragging.clone();
            proof {
                assert(rec.entities@ =~= dragging@);
            }
        },
        Some(Interaction::DragEnd) => {
            if rec.entities.len() > 0 {
                if let Some(s) = rec.start {
                    if let Some(now) = find_position(shapes, s.entity) {
                        let entities = rec.entities.clone();
                        assert(entities@ =~= old(rec).entities@);
                        rec.entities = Vec::new();
                        let action = AtomicAction {
                            action: TranslateAction {
                                x: now.x as i128 - s.pos.x as i128,
                                y: now.y as i128 - s.pos.y as i128,
                            },
                            entities,
                        };
                        history.record(action);
                        proof {
                            let o = old(history).offset as int;
                            assert(history.actions@.subrange(0, o) =~= old(history).actions@.subrange(0, o));
                        }
                        return;
                    }
                }
                rec.entities = Vec::new();
            }
        },
        _ => {},
    }
}

/// Undoing right after a drag that moved the shapes of the last applied
/// action by its displacement puts every shape back where it was before the
/// drag, and the undo stays within range; redoing then restores the positions
/// after the drag.
pub proof fn lemma_undo_redo_round_trip(hist: UndoRedoHistory, before: Seq<ShapeRecord>, after: Seq<ShapeRecord>)
    requires
        hist.wf(),
        hist.offset > 0,
        ({
            let a = hist.actions@[hist.offset - 1];
            shift_fits(before, ids_of(a), a.action.x as int, a.action.y as int) && after == shift_all(
                before,
                ids_of(a),
                a.action.x as int,
                a.action.y as int,
            )
        }),
    ensures
        hist.undo_fits(after),
        ({
            let a = hist.actions@[hist.offset - 1];
            let undone = shift_all(after, ids_of(a), -a.action.x, -a.action.y);
            &&& undone == before
            &&& shift_fits(undone, ids_of(a), a.action.x as int, a.action.y as int)
            &&& shift_all(undone, ids_of(a), a.action.x as int, a.action.y as int) == after
        }),
{
    let a = hist.actions@[hist.offset - 1];
    let ids = ids_of(a);
    let dx = a.action.x as int;
    let dy = a.action.y as int;
    let undone = shift_all(after, ids, -dx, -dy);
    assert forall|i: int| 0 <= i < before.len() implies #[trigger] undone[i] == before[i] by {
        if ids.contains(before[i].id) {
            assert(before[i].position.x + dx + -dx == before[i].position.x);
        }
    }
    assert(undone =~= before);
}

} // verus!
