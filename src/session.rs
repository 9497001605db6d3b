use crate::drag::{can_shift, click_and_drag_shape_system, drag_delta, shift_all, shift_fits};
use crate::geometry::{Point, Region};
use crate::gesture::{
    initialize_pointer_event_determination, press_spec, resolve_pointer_event_determination,
    resolve_spec, Interaction, PointerInitialPos, PointerSample,
};
use crate::history::{
    completed_delta, dragged_shape_initial_pos_system, ids_of, position_of, undo_redo_system,
    undo_redo_tracking_system, DragRecord, PreDragPosEvent, UndoRedoEvent, UndoRedoHistory,
};
use crate::marquee::{
    draw_selection_box_system, marquee_catches, marquee_drops, selection_box_selection_system,
    spawn_despawn_selection_box_system, DeltaWidthHeight, SelectionBox,
};
use crate::selection::{select_clicked_system, select_transition, set_hovered_system, SelectionState};
use crate::shapes::ShapeRecord;
use crate::stack::{cursor_hover_detect_system, cycle_shape_stack_hover_system, hits, ShapeStack};
use vstd::prelude::*;

verus! {

/// One frame of input, in the units the engine works in.
#[derive(Clone, Copy, Debug)]
pub struct FrameInput {
    /// The pointer in window pixels, for gesture classification.
    pub pointer: PointerSample,
    /// The cursor in world units.
    pub cursor: Point,
    /// Where the current press began, in world units: a new marquee's anchor.
    pub anchor: Point,
    pub cursor_moved: bool,
    pub button_held: bool,
    /// The multi-select modifier key is held.
    pub modifier: bool,
    /// The keys that step the cycle offset up and down were pressed.
    pub cycle_forward: bool,
    pub cycle_backward: bool,
}

/// The state of one editing session: the live shapes and every component
/// that works on them.
pub struct EditingSession {
    pub shapes: Vec<ShapeRecord>,
    pub stack: ShapeStack,
    pub selection: SelectionState,
    pub pointer: PointerInitialPos,
    pub marquee: Option<SelectionBox>,
    pub last_drag: Option<Point>,
    pub record: DragRecord,
    pub history: UndoRedoHistory,
}

/// The cycle offset after the frame's cycle keys; it stops at the ends of
/// `isize`.
pub open spec fn stepped_offset(offset: isize, input: FrameInput) -> int {
    if input.cycle_forward {
        if offset < isize::MAX { offset + 1 } else { offset as int }
    } else if input.cycle_backward {
        if offset > isize::MIN { offset - 1 } else { offset as int }
    } else {
        offset as int
    }
}

/// The stack is rebuilt when the cursor moved with the button up and no
/// marquee active.
pub open spec fn rebuilds(input: FrameInput, marquee: Option<SelectionBox>) -> bool {
    input.cursor_moved && !input.button_held && marquee is None
}

/// The marquee after the frame's gesture, before it follows the cursor.
pub open spec fn marquee_after_gesture(m: Option<SelectionBox>, ev: Option<Interaction>, input: FrameInput) -> Option<SelectionBox> {
    if ev == Some(Interaction::DragStart) && input.modifier {
        Some(
            SelectionBox {
                anchor: input.anchor,
                rect: Region::spanning_spec(input.anchor, input.anchor),
                delta: DeltaWidthHeight { x: 0, y: 0 },
            },
        )
    } else if ev == Some(Interaction::DragEnd) {
        None
    } else {
        m
    }
}

/// The (selected, dragging) sets after the frame's gesture and any marquee
/// it starts.
pub open spec fn sets_after_gesture(
    hovered: Option<u64>,
    sel: Set<u64>,
    drag: Set<u64>,
    ev: Option<Interaction>,
    modifier: bool,
) -> (Set<u64>, Set<u64>) {
    match ev {
        None => (sel, drag),
        Some(e) => if e == Interaction::DragStart && modifier {
            (Set::empty(), Set::empty())
        } else {
            select_transition(hovered, sel, drag, e, modifier)
        },
    }
}

/// The marquee stretched to the cursor.
pub open spec fn drawn(b: SelectionBox, cursor: Point) -> SelectionBox {
    let r = Region::spanning_spec(cursor, b.anchor);
    SelectionBox {
        anchor: b.anchor,
        rect: r,
        delta: DeltaWidthHeight {
            x: (r.width_spec() - b.rect.width_spec()) as i128,
            y: (r.height_spec() - b.rect.height_spec()) as i128,
        },
    }
}

/// The remembered drag start after a drag start: the first dragging shape
/// and where it stood, if it exists; otherwise what was remembered before.
pub open spec fn start_of_drag(
    before: Option<PreDragPosEvent>,
    shapes: Seq<ShapeRecord>,
    dragging: Seq<u64>,
) -> Option<PreDragPosEvent> {
    if dragging.len() > 0 && position_of(shapes, dragging[0]) is Some {
        Some(PreDragPosEvent { entity: dragging[0], pos: position_of(shapes, dragging[0]).unwrap() })
    } else {
        before
    }
}

impl EditingSession {
    pub open spec fn wf(&self) -> bool {
        &&& self.stack.wf()
        &&& self.selection.wf()
        &&& self.history.wf()
        &&& (self.marquee matches Some(b) ==> b.rect.wf())
    }

    /// A session over the given shapes, with nothing hovered, selected or
    /// recorded.
    pub fn new(shapes: Vec<ShapeRecord>) -> (r: EditingSession)
        ensures
            r.wf(),
            r.shapes@ == shapes@,
            r.stack.offset == 0,
            r.stack.entries().len() == 0,
            r.selection.hovered is None,
            r.selection.selected_set() == Set::<u64>::empty(),
            r.selection.dragging_set() == Set::<u64>::empty(),
            r.pointer.pos is None,
            r.marquee is None,
            r.last_drag is None,
            r.history.offset == 0,
            r.history.actions@.len() == 0,
    {
        EditingSession {
            shapes,
            stack: ShapeStack::new(),
            selection: SelectionState::new(),
            pointer: PointerInitialPos::new(),
            marquee: None,
            last_drag: None,
            record: DragRecord::new(),
            history: UndoRedoHistory::new(),
        }
    }

    /// Replaces the shapes wholesale, as when a new cell is loaded: the
    /// stack, the hover, the selection, any drag and any marquee are reset;
    /// the history is kept.
    pub fn load_shapes(&mut self, shapes: Vec<ShapeRecord>)
        requires
            old(self).wf(),
        ensures
            final(self).wf(),
            final(self).shapes@ == shapes@,
            final(self).stack.offset == 0,
            final(self).stack.entries().len() == 0,
            final(self).selection.hovered is None,
            final(self).selection.selected_set() == Set::<u64>::empty(),
            final(self).selection.dragging_set() == Set::<u64>::empty(),
            final(self).marquee is None,
            final(self).last_drag is None,
            final(self).record.entities@.len() == 0,
            final(self).history == old(self).history,
    {
        self.shapes = shapes;
        self.stack = ShapeStack::new();
        self.selection = SelectionState::new();
        self.marquee = None;
        self.last_drag = None;
        self.record = DragRecord::new();
    }

    /// Runs one frame: cycle keys, hover, gesture, selection and marquee,
    /// drag, and history, in that order. Returns the frame's gesture.
    ///
    /// A drag frame that would move a shape outside the `i64` range moves
    /// nothing.
    pub fn tick(&mut self, input: FrameInput) -> (r: Option<Interaction>)
        requires
            old(self).wf(),
        ensures
            final(self).wf(),
            final(self).stack.offset == stepped_offset(old(self).stack.offset, input),
            rebuilds(input, old(self).marquee) ==> final(self).stack.entries().to_multiset() == hits(
                old(self).shapes@,
                input.cursor,
            ).to_multiset(),
            !rebuilds(input, old(self).marquee) ==> final(self).stack.entries() == old(self).stack.entries(),
            final(self).selection.hovered == final(self).stack.hover_spec(),
            (final(self).pointer, r) == resolve_spec(press_spec(old(self).pointer, input.pointer), input.pointer),
            ({
                let (sel, drag) = sets_after_gesture(
                    final(self).selection.hovered,
                    old(self).selection.selected_set(),
                    old(self).selection.dragging_set(),
                    r,
                    input.modifier,
                );
                match marquee_after_gesture(old(self).marquee, r, input) {
                    None => {
                        &&& final(self).marquee is None
                        &&& final(self).selection.selected_set() == sel
                        &&& final(self).selection.dragging_set() == drag
                    },
                    Some(b) => {
                        let d = drawn(b, input.cursor);
                        &&& final(self).marquee == Some(d)
                        &&& d.shrinking() ==> final(self).selection.selected_set() == sel.difference(
                            marquee_drops(old(self).shapes@, d.rect),
                        ) && final(self).selection.dragging_set() == drag.difference(
                            marquee_drops(old(self).shapes@, d.rect),
                        )
                        &&& !d.shrinking() ==> final(self).selection.selected_set() == sel.union(
                            marquee_catches(old(self).shapes@, d.rect),
                        ) && final(self).selection.dragging_set() == drag
                    },
                }
            }),
            ({
                let ids = final(self).selection.dragging_set();
                let (dx, dy) = drag_delta(old(self).last_drag, input.cursor);
                if input.button_held && ids.len() > 0 {
                    if shift_fits(old(self).shapes@, ids, dx, dy) {
                        final(self).shapes@ == shift_all(old(self).shapes@, ids, dx, dy)
                            && final(self).last_drag == Some(input.cursor)
                    } else {
                        final(self).shapes@ == old(self).shapes@ && final(self).last_drag == old(self).last_drag
                    }
                } else {
                    final(self).shapes@ == old(self).shapes@ && final(self).last_drag is None
                }
            }),
            r == Some(Interaction::DragStart) ==> final(self).record.entities@ == final(self).selection.dragging@
                && final(self).history == old(self).history && final(self).record.start == start_of_drag(
                old(self).record.start,
                old(self).shapes@,
                final(self).selection.dragging@,
            ),
            r == Some(Interaction::DragEnd) ==> final(self).record.entities@.len() == 0 && final(self).record.start
                == old(self).record.start,
            r == Some(Interaction::DragEnd) && old(self).record.entities@.len() > 0 && completed_delta(
                old(self).record.start,
                final(self).shapes@,
            ) is Some ==> {
                let o = old(self).history.offset as int;
                &&& final(self).history.offset == o + 1
                &&& final(self).history.actions@.len() == o + 1
                &&& final(self).history.actions@.subrange(0, o) == old(self).history.actions@.subrange(0, o)
                &&& Some(final(self).history.actions@[o].action) == completed_delta(
                    old(self).record.start,
                    final(self).shapes@,
                )
                &&& final(self).history.actions@[o].entities@ == old(self).record.entities@
            },
            r == Some(Interaction::DragEnd) && !(old(self).record.entities@.len() > 0 && completed_delta(
                old(self).record.start,
                final(self).shapes@,
            ) is Some) ==> final(self).history == old(self).history,
            r != Some(Interaction::DragStart) && r != Some(Interaction::DragEnd) ==> final(self).record
                == old(self).record && final(self).history == old(self).history,
    {
        let forward = input.cycle_forward && self.stack.offset < isize::MAX;
        let backward = !input.cycle_forward && input.cycle_backward && self.stack.offset > isize::MIN;
        cycle_shape_stack_hover_system(&mut self.stack, forward, backward);
        cursor_hover_detect_system(
            &mut self.stack,
            &self.shapes,
            input.cursor,
            input.cursor_moved,
            input.button_held,
            self.marquee.is_some(),
        );
        set_hovered_system(&mut self.selection, &self.stack);

        initialize_pointer_event_determination(&mut self.pointer, &input.pointer);
        let ev = resolve_pointer_event_determination(&mut self.pointer, &input.pointer);

        if let Some(e) = ev {
            select_clicked_system(&mut self.selection, e, input.modifier);
            spawn_despawn_selection_box_system(&mut self.marquee, &mut self.selection, e, input.modifier, input.anchor);
        }

        if let Some(b) = &mut self.marquee {
            draw_selection_box_system(b, input.cursor);
            selection_box_selection_system(b, &self.shapes, &mut self.selection);
        }

        let pre = if ev == Some(Interaction::DragStart) {
            dragged_shape_initial_pos_system(&self.shapes, &self.selection.dragging)
        } else {
            None
        };

        proof {
            self.selection.dragging@.unique_seq_to_set();
        }
        let held_drag = input.button_held && self.selection.dragging.len() > 0;
        let fits = if held_drag {
            let (dx, dy): (i128, i128) = match self.last_drag {
                Some(l) => (input.cursor.x as i128 - l.x as i128, input.cursor.y as i128 - l.y as i128),
                None => (0, 0),
            };
            can_shift(&self.shapes, &self.selection.dragging, dx, dy)
        } else {
            true
        };
        if fits {
            click_and_drag_shape_system(
                &mut self.last_drag,
                &mut self.shapes,
                &self.selection.dragging,
                input.cursor,
                input.button_held,
            );
        }

        undo_redo_tracking_system(
            &mut self.history,
            &mut self.record,
            ev,
            pre,
            &self.selection.dragging,
            &self.shapes,
        );
        ev
    }

    /// Whether the history step would keep every moved shape within `i64`.
    pub open spec fn step_fits(&self, ev: UndoRedoEvent) -> bool {
        match ev {
            UndoRedoEvent::Undo => self.history.undo_fits(self.shapes@),
            UndoRedoEvent::Redo => self.history.redo_fits(self.shapes@),
        }
    }

    /// Undoes or redoes one action on the session's shapes. A step that would
    /// move a shape outside the `i64` range, or that runs off an end of the
    /// history, does nothing.
    pub fn undo_redo(&mut self, ev: UndoRedoEvent)
        requires
            old(self).wf(),
        ensures
            final(self).wf(),
            final(self).history.actions@ == old(self).history.actions@,
            !old(self).step_fits(ev) ==> final(self).history == old(self).history && final(self).shapes@ == old(self).shapes@,
            old(self).step_fits(ev) && ev == UndoRedoEvent::Undo && old(self).history.offset > 0 ==> final(self).history.offset == old(self).history.offset - 1 && ({
                let a = old(self).history.actions@[old(self).history.offset - 1];
                final(self).shapes@ == shift_all(old(self).shapes@, ids_of(a), -a.action.x, -a.action.y)
            }),
            old(self).step_fits(ev) && ev == UndoRedoEvent::Redo && old(self).history.offset < old(self).history.actions@.len() ==> final(self).history.offset == old(self).history.offset + 1 && ({
                let a = old(self).history.actions@[old(self).history.offset as int];
                final(self).shapes@ == shift_all(old(self).shapes@, ids_of(a), a.action.x as int, a.action.y as int)
            }),
            (ev == UndoRedoEvent::Undo && old(self).history.offset == 0) || (ev == UndoRedoEvent::Redo && old(self).history.offset == old(self).history.actions@.len()) ==> final(self).history.offset == old(self).history.offset
                && final(self).shapes@ == old(self).shapes@,
    {
        let fits = match ev {
            UndoRedoEvent::Undo => if self.history.offset > 0 {
                let a = &self.history.actions[self.history.offset - 1];
                proof {
                    assert(crate::history::action_wf(self.history.actions@[self.history.offset - 1]));
                }
                can_shift(&self.shapes, &a.entities, -a.action.x, -a.action.y)
            } else {
                true
            },
            UndoRedoEvent::Redo => if self.history.offset < self.history.actions.len() {
                let a = &self.history.actions[self.history.offset];
                can_shift(&self.shapes, &a.entities, a.action.x, a.action.y)
            } else {
                true
            },
        };
        if fits {
            undo_redo_system(&mut self.history, &mut self.shapes, ev);
        }
    }
}

} // verus!
