use crate::gesture::Interaction;
use crate::stack::ShapeStack;
use vstd::prelude::*;

verus! {

/// Whether `x` is among the ids of `v`.
pub fn contains_id(v: &Vec<u64>, x: u64) -> (r: bool)
    ensures
        r == v@.contains(x),
{
    let mut i: usize = 0;
    while i < v.len()
        invariant
            i <= v@.len(),
            forall|j: int| 0 <= j < i ==> v@[j] != x,
        decreases v@.len() - i,
    {
        if v[i] == x {
            return true;
        }
        i = i + 1;
    }
    false
}

/// The ids of `v` without `x`, in their order.
pub fn without_id(v: &Vec<u64>, x: u64) -> (r: Vec<u64>)
    requires
        v@.no_duplicates(),
    ensures
        r@.no_duplicates(),
        r@.to_set() == v@.to_set().remove(x),
{
    let mut out: Vec<u64> = Vec::new();
    let mut i: usize = 0;
    while i < v.len()
        invariant
            i <= v@.len(),
            v@.no_duplicates(),
            out@.no_duplicates(),
            forall|k: int| 0 <= k < out@.len() ==> #[trigger] out@[k] != x && exists|j: int| 0 <= j < i && v@[j] == out@[k],
            forall|j: int| 0 <= j < i && #[trigger] v@[j] != x ==> out@.contains(v@[j]),
        decreases v@.len() - i,
    {
        let y = v[i];
        if y != x {
            let ghost prev = out@;
            proof {
                assert forall|k: int| 0 <= k < prev.len() implies prev[k] != y by {
                    let j = choose|j: int| 0 <= j < i && v@[j] == prev[k];
                    assert(v@[j] != v@[i as int]);
                }
            }
            out.push(y);
            proof {
                assert forall|k: int| 0 <= k < out@.len() implies #[trigger] out@[k] != x && exists|j: int| 0 <= j < i + 1 && v@[j] == out@[k] by {
                    if k < prev.len() {
                        assert(out@[k] == prev[k]);
                        let j = choose|j: int| 0 <= j < i && v@[j] == prev[k];
                    } else {
                        assert(v@[i as int] == out@[k]);
                    }
                }
                assert forall|j: int| 0 <= j < i + 1 && #[trigger] v@[j] != x implies out@.contains(v@[j]) by {
                    if j < i {
                        let k = choose|k: int| 0 <= k < prev.len() && prev[k] == v@[j];
                        assert(out@[k] == v@[j]);
                    } else {
                        assert(out@[prev.len() as int] == v@[j]);
                    }
                }
            }
        }
        i = i + 1;
    }
    proof {
        assert(out@.to_set() =~= v@.to_set().remove(x)) by {
            assert forall|z: u64| out@.to_set().contains(z) <==> v@.to_set().remove(x).contains(z) by {
                if v@.contains(z) && z != x {
                    let j = choose|j: int| 0 <= j < v@.len() && v@[j] == z;
                }
                if out@.contains(z) {
                    let k = choose|k: int| 0 <= k < out@.len() && out@[k] == z;
                    let j = choose|j: int| 0 <= j < i && v@[j] == out@[k];
                }
            }
        }
    }
    out
}

/// The sets (selected, dragging) after one gesture, from the hovered shape,
/// the sets before it, and whether the multi-select modifier is held.
pub open spec fn select_transition(
    hovered: Option<u64>,
    sel: Set<u64>,
    drag: Set<u64>,
    ev: Interaction,
    modifier: bool,
) -> (Set<u64>, Set<u64>) {
    match hovered {
        None => (Set::empty(), Set::empty()),
        Some(h) => if ev == Interaction::DragEnd {
            (sel, Set::empty())
        } else if modifier {
            if ev == Interaction::Click {
                if sel.contains(h) {
                    (sel.remove(h), drag.remove(h))
                } else {
                    (sel.insert(h), drag)
                }
            } else {
                (sel, drag)
            }
        } else if ev == Interaction::DragStart {
            if sel.contains(h) {
                (sel, sel)
            } else {
                (set![h], set![h])
            }
        } else if sel.len() > 1 {
            if sel.contains(h) {
                (set![h], drag.intersect(set![h]))
            } else {
                (Set::empty(), Set::empty())
            }
        } else if sel.contains(h) {
            (Set::empty(), Set::empty())
        } else {
            (set![h], Set::empty())
        },
    }
}

/// The hovered, selected and dragging shapes. Selected and dragging hold
/// each id at most once, and every dragging shape is selected.
#[derive(Clone, Debug)]
pub struct SelectionState {
    pub hovered: Option<u64>,
    pub selected: Vec<u64>,
    pub dragging: Vec<u64>,
}

impl SelectionState {
    pub open spec fn selected_set(&self) -> Set<u64> {
        self.selected@.to_set()
    }

    pub open spec fn dragging_set(&self) -> Set<u64> {
        self.dragging@.to_set()
    }

    pub open spec fn wf(&self) -> bool {
        &&& self.selected@.no_duplicates()
        &&& self.dragging@.no_duplicates()
        &&& self.dragging_set().subset_of(self.selected_set())
    }

    pub fn new() -> (r: SelectionState)
        ensures
            r.wf(),
            r.hovered is None,
            r.selected_set() == Set::<u64>::empty(),
            r.dragging_set() == Set::<u64>::empty(),
    {
        let r = SelectionState { hovered: None, selected: Vec::new(), dragging: Vec::new() };
        proof {
            assert(r.selected_set() =~= Set::<u64>::empty());
            assert(r.dragging_set() =~= Set::<u64>::empty());
        }
        r
    }

    /// Whether the shape is selected.
    pub fn is_selected(&self, id: u64) -> (r: bool)
        ensures
            r == self.selected_set().contains(id),
    {
        contains_id(&self.selected, id)
    }

    /// Whether the shape is being dragged.
    pub fn is_dragging(&self, id: u64) -> (r: bool)
        ensures
            r == self.dragging_set().contains(id),
    {
        contains_id(&self.dragging, id)
    }

    /// Deselects everything, which also ends any drag.
    pub fn clear_selected(&mut self)
        ensures
            final(self).wf(),
            final(self).hovered == old(self).hovered,
            final(self).selected_set() == Set::<u64>::empty(),
            final(self).dragging_set() == Set::<u64>::empty(),
    {
        self.selected = Vec::new();
        self.dragging = Vec::new();
        proof {
            assert(self.selected_set() =~= Set::<u64>::empty());
            assert(self.dragging_set() =~= Set::<u64>::empty());
        }
    }

    /// Selects only `h`, dragging it too when `drag` is set.
    fn select_only(&mut self, h: u64, drag: bool)
        ensures
            final(self).wf(),
            final(self).hovered == old(self).hovered,
            final(self).selected_set() == set![h],
            final(self).dragging_set() == if drag { set![h] } else { Set::<u64>::empty() },
    {
        self.selected = vec![h];
        self.dragging = if drag { vec![h] } else { Vec::new() };
        proof {
            assert(self.selected_set() =~= set![h]);
            if drag {
                assert(self.dragging_set() =~= set![h]);
            } else {
                assert(self.dragging_set() =~= Set::<u64>::empty());
            }
        }
    }
}

/// How prominently a shape is drawn: selection outranks hover.
#[derive(Clone, Copy, Debug, PartialEq, Eq, Structural)]
pub enum Highlight {
    Plain,
    Hovered,
    Selected,
}

impl SelectionState {
    pub open spec fn highlight_spec(&self, id: u64) -> Highlight {
        if self.selected_set().contains(id) {
            Highlight::Selected
        } else if self.hovered == Some(id) {
            Highlight::Hovered
        } else {
            Highlight::Plain
        }
    }

    /// The highlight that the shape is drawn with.
    pub fn highlight_of(&self, id: u64) -> (r: Highlight)
        ensures
            r == self.highlight_spec(id),
    {
        if contains_id(&self.selected, id) {
            Highlight::Selected
        } else if self.hovered == Some(id) {
            Highlight::Hovered
        } else {
            Highlight::Plain
        }
    }
}

/// Clears the stack, the hover, the selection and every drag, as a new
/// library replaces the geometry wholesale.
pub fn reset_state_on_new_lib_import(stack: &mut ShapeStack, state: &mut SelectionState)
    ensures
        final(stack).wf(),
        final(stack).offset == 0,
        final(stack).entries().len() == 0,
        final(state).wf(),
        final(state).hovered is None,
        final(state).selected_set() == Set::<u64>::empty(),
        final(state).dragging_set() == Set::<u64>::empty(),
{
    *stack = ShapeStack::new();
    *state = SelectionState::new();
}

/// Clears the stack and its cycle offset as a new cell is loaded.
pub fn reset_state_on_new_cell_import(stack: &mut ShapeStack)
    ensures
        final(stack).wf(),
        final(stack).offset == 0,
        final(stack).entries().len() == 0,
{
    *stack = ShapeStack::new();
}

/// Updates the hovered shape from the z-order stack.
pub fn set_hovered_system(state: &mut SelectionState, stack: &ShapeStack)
    ensures
        final(state).hovered == stack.hover_spec(),
        final(state).selected == old(state).selected,
        final(state).dragging == old(state).dragging,
{
    state.hovered = stack.hovered();
}

/// Applies one gesture to the selected and dragging sets.
///
/// With nothing hovered every gesture deselects everything. A drag end stops
/// every drag. With the modifier held a click toggles the hovered shape's
/// membership. Without it, a drag start on a selected shape drags the whole
/// selection and on any other shape makes that shape the only one selected
/// and dragged; a click keeps only the hovered shape of a multi-selection,
/// deselects a single selected shape that is clicked again, and otherwise
/// selects the hovered shape alone.
pub fn select_clicked_system(state: &mut SelectionState, ev: Interaction, modifier: bool)
    requires
        old(state).wf(),
    ensures
        final(state).wf(),
        final(state).hovered == old(state).hovered,
        (final(state).selected_set(), final(state).dragging_set()) == select_transition(
            old(state).hovered,
            old(state).selected_set(),
            old(state).dragging_set(),
            ev,
            modifier,
        ),
{
    proof {
        state.selected@.unique_seq_to_set();
    }
    let h = match state.hovered {
        None => {
            state.clear_selected();
            return;
        },
        Some(h) => h,
    };
    if ev == Interaction::DragEnd {
        state.dragging = Vec::new();
        proof {
            assert(state.dragging_set() =~= Set::<u64>::empty());
        }
        return;
    }
    let was_selected = contains_id(&state.selected, h);
    if modifier {
        if ev == Interaction::Click {
            if was_selected {
                state.selected = without_id(&state.selected, h);
                state.dragging = without_id(&state.dragging, h);
            } else {
                state.selected.push(h);
                proof {
                    old(state).selected@.lemma_push_to_set_commute(h);
                    assert(state.selected@.no_duplicates()) by {
                        assert(state.selected@.drop_last() == old(state).selected@);
                    }
                }
            }
        }
        return;
    }
    if ev == Interaction::DragStart {
        if was_selected {
            state.dragging = state.selected.clone();
            proof {
                assert(state.dragging@ =~= state.selected@);
            }
        } else {
            state.select_only(h, true);
        }
    } else if state.selected.len() > 1 {
        if was_selected {
            let keep_drag = contains_id(&state.dragging, h);
            state.select_only(h, keep_drag);
            proof {
                if keep_drag {
                    assert(set![h] =~= old(state).dragging_set().intersect(set![h]));
                } else {
                    assert(Set::<u64>::empty() =~= old(state).dragging_set().intersect(set![h]));
                }
            }
        } else {
            state.clear_selected();
        }
    } else if was_selected {
        state.clear_selected();
    } else {
        state.select_only(h, false);
    }
}

} // verus!
