use vstd::prelude::*;

verus! {

/// A press travels further than this squared distance (in window pixels)
/// before it counts as a drag.
pub const DRAG_THRESHOLD_SQ: i128 = 10;

/// A discrete gesture produced from raw pointer input.
#[derive(Clone, Copy, Debug, PartialEq, Eq, Structural)]
pub enum Interaction {
    Click,
    DragStart,
    DragEnd,
}

/// One frame of raw pointer input. `cursor` is the pointer position in window
/// pixels, `None` when the pointer is outside the window; `width` and `height`
/// bound the viewport.
#[derive(Clone, Copy, Debug)]
pub struct PointerSample {
    pub just_pressed: bool,
    pub just_released: bool,
    pub over_ui: bool,
    pub cursor: Option<(i32, i32)>,
    pub width: i32,
    pub height: i32,
}

/// The classifier's memory between frames: where the current press began
/// (`None` while idle) and whether it has already been reported as a drag.
#[derive(Clone, Copy, Debug)]
pub struct PointerInitialPos {
    pub pos: Option<(i32, i32)>,
    pub drag_started: bool,
}

pub open spec fn in_viewport(s: PointerSample) -> bool {
    match s.cursor {
        Some(c) => 0 <= c.0 <= s.width && 0 <= c.1 <= s.height,
        None => false,
    }
}

pub open spec fn sq_dist(a: (i32, i32), b: (i32, i32)) -> int {
    (a.0 - b.0) * (a.0 - b.0) + (a.1 - b.1) * (a.1 - b.1)
}

pub open spec fn idle() -> PointerInitialPos {
    PointerInitialPos { pos: None, drag_started: false }
}

/// One step of the classifier on a frame: the next memory and the gesture
/// emitted, if any.
pub open spec fn resolve_spec(st: PointerInitialPos, s: PointerSample) -> (PointerInitialPos, Option<Interaction>) {
    match st.pos {
        None => (st, None),
        Some(init) => if !in_viewport(s) {
            (idle(), if st.drag_started { Some(Interaction::DragEnd) } else { None })
        } else {
            let d = sq_dist(s.cursor.unwrap(), init);
            if s.just_released {
                (
                    idle(),
                    if st.drag_started {
                        Some(Interaction::DragEnd)
                    } else if d < DRAG_THRESHOLD_SQ {
                        Some(Interaction::Click)
                    } else {
                        None
                    },
                )
            } else if d > DRAG_THRESHOLD_SQ && !st.drag_started {
                (PointerInitialPos { pos: st.pos, drag_started: true }, Some(Interaction::DragStart))
            } else {
                (st, None)
            }
        },
    }
}

/// The memory after a frame's press edge: a fresh press that is not over the
/// UI surface and has a cursor position starts being tracked there.
pub open spec fn press_spec(st: PointerInitialPos, s: PointerSample) -> PointerInitialPos {
    if s.just_pressed && !s.over_ui && s.cursor is Some {
        PointerInitialPos { pos: s.cursor, drag_started: st.drag_started }
    } else {
        st
    }
}

/// The gestures emitted over a run of frames from a given memory.
pub open spec fn run_events(st: PointerInitialPos, samples: Seq<PointerSample>) -> Seq<Option<Interaction>>
    decreases samples.len(),
{
    if samples.len() == 0 {
        Seq::empty()
    } else {
        let (next, e) = resolve_spec(st, samples[0]);
        seq![e].add(run_events(next, samples.subrange(1, samples.len() as int)))
    }
}

impl PointerInitialPos {
    pub fn new() -> (r: PointerInitialPos)
        ensures
            r == idle(),
    {
        PointerInitialPos { pos: None, drag_started: false }
    }
}

fn squared_distance(a: (i32, i32), b: (i32, i32)) -> (r: i128)
    ensures
        r == sq_dist(a, b),
{
    let dx: i128 = a.0 as i128 - b.0 as i128;
    let dy: i128 = a.1 as i128 - b.1 as i128;
    assert(dx * dx <= 0x1_0000_0000_0000_0000) by (nonlinear_arith)
        requires
            -0x1_0000_0000 <= dx <= 0x1_0000_0000,
    ;
    assert(dy * dy <= 0x1_0000_0000_0000_0000) by (nonlinear_arith)
        requires
            -0x1_0000_0000 <= dy <= 0x1_0000_0000,
    ;
    assert(dx * dx >= 0 && dy * dy >= 0) by (nonlinear_arith);
    dx * dx + dy * dy
}

/// Starts tracking a press: on a fresh press that is not over the UI surface,
/// remembers where it began.
pub fn initialize_pointer_event_determination(st: &mut PointerInitialPos, s: &PointerSample)
    ensures
        *final(st) == press_spec(*old(st), *s),
{
    if s.just_pressed && !s.over_ui {
        if let Some(c) = s.cursor {
            st.pos = Some(c);
        }
    }
}

/// Classifies one frame of a tracked press into at most one gesture.
pub fn resolve_pointer_event_determination(st: &mut PointerInitialPos, s: &PointerSample) -> (r: Option<Interaction>)
    ensures
        (*final(st), r) == resolve_spec(*old(st), *s),
{
    match st.pos {
        None => None,
        Some(init) => {
            let inside = match s.cursor {
                Some(c) => 0 <= c.0 && c.0 <= s.width && 0 <= c.1 && c.1 <= s.height,
                None => false,
            };
            if !inside {
                let e = if st.drag_started { Some(Interaction::DragEnd) } else { None };
                *st = PointerInitialPos { pos: None, drag_started: false };
                return e;
            }
            let cur = s.cursor.unwrap();
            let d = squared_distance(cur, init);
            if s.just_released {
                let e = if st.drag_started {
                    Some(Interaction::DragEnd)
                } else if d < DRAG_THRESHOLD_SQ {
                    Some(Interaction::Click)
                } else {
                    None
                };
                *st = PointerInitialPos { pos: None, drag_started: false };
                e
            } else if d > DRAG_THRESHOLD_SQ && !st.drag_started {
                st.drag_started = true;
                Some(Interaction::DragStart)
            } else {
                None
            }
        },
    }
}

/// A press that stays within the click radius and is released inside the
/// viewport yields a click at the release and no other gesture: never a drag.
pub proof fn lemma_short_press_is_click(init: (i32, i32), held: Seq<PointerSample>, release: PointerSample)
    requires
        forall|k: int| 0 <= k < held.len() ==> {
            &&& in_viewport(#[trigger] held[k])
            &&& !held[k].just_released
            &&& sq_dist(held[k].cursor.unwrap(), init) < DRAG_THRESHOLD_SQ
        },
        in_viewport(release),
        release.just_released,
        sq_dist(release.cursor.unwrap(), init) < DRAG_THRESHOLD_SQ,
    ensures
        ({
            let ev = run_events(PointerInitialPos { pos: Some(init), drag_started: false }, held.push(release));
            &&& ev.len() == held.len() + 1
            &&& forall|k: int| 0 <= k < held.len() ==> #[trigger] ev[k] is None
            &&& ev[held.len() as int] == Some(Interaction::Click)
        }),
    decreases held.len(),
{
    let st = PointerInitialPos { pos: Some(init), drag_started: false };
    let all = held.push(release);
    if held.len() == 0 {
        assert(all.subrange(1, all.len() as int) =~= Seq::<PointerSample>::empty());
        assert(all[0] == release);
        assert(run_events(idle(), Seq::<PointerSample>::empty()) =~= Seq::<Option<Interaction>>::empty());
    } else {
        assert(all[0] == held[0]);
        let rest = held.subrange(1, held.len() as int);
        assert(all.subrange(1, all.len() as int) =~= rest.push(release));
        assert forall|k: int| 0 <= k < rest.len() implies {
            &&& in_viewport(#[trigger] rest[k])
            &&& !rest[k].just_released
            &&& sq_dist(rest[k].cursor.unwrap(), init) < DRAG_THRESHOLD_SQ
        } by {
            assert(rest[k] == held[k + 1]);
        }
        assert(in_viewport(held[0]));
        lemma_short_press_is_click(init, rest, release);
        let ev = run_events(st, all);
        assert forall|k: int| 0 <= k < held.len() implies #[trigger] ev[k] is None by {
            if k > 0 {
                assert(ev[k] == run_events(st, rest.push(release))[k - 1]);
            }
        }
        assert(ev[held.len() as int] == run_events(st, rest.push(release))[held.len() - 1]);
    }
}

/// The frames of a press that has already been reported as a drag: each held
/// frame emits nothing and the release inside the viewport emits the drag's
/// end.
proof fn lemma_dragging_press_ends_once(init: (i32, i32), held: Seq<PointerSample>, release: PointerSample)
    requires
        forall|k: int| 0 <= k < held.len() ==> in_viewport(#[trigger] held[k]) && !held[k].just_released,
        in_viewport(release),
        release.just_released,
    ensures
        ({
            let ev = run_events(PointerInitialPos { pos: Some(init), drag_started: true }, held.push(release));
            &&& ev.len() == held.len() + 1
            &&& forall|k: int| 0 <= k < held.len() ==> #[trigger] ev[k] is None
            &&& ev[held.len() as int] == Some(Interaction::DragEnd)
        }),
    decreases held.len(),
{
    let st = PointerInitialPos { pos: Some(init), drag_started: true };
    let all = held.push(release);
    if held.len() == 0 {
        assert(all.subrange(1, all.len() as int) =~= Seq::<PointerSample>::empty());
        assert(all[0] == release);
        assert(run_events(idle(), Seq::<PointerSample>::empty()) =~= Seq::<Option<Interaction>>::empty());
    } else {
        assert(all[0] == held[0]);
        let rest = held.subrange(1, held.len() as int);
        assert(all.subrange(1, all.len() as int) =~= rest.push(release));
        assert forall|k: int| 0 <= k < rest.len() implies in_viewport(#[trigger] rest[k]) && !rest[k].just_released by {
            assert(rest[k] == held[k + 1]);
        }
        assert(in_viewport(held[0]));
        lemma_dragging_press_ends_once(init, rest, release);
        let ev = run_events(st, all);
        assert forall|k: int| 0 <= k < held.len() implies #[trigger] ev[k] is None by {
            if k > 0 {
                assert(ev[k] == run_events(st, rest.push(release))[k - 1]);
            }
        }
        assert(ev[held.len() as int] == run_events(st, rest.push(release))[held.len() - 1]);
    }
}

/// A press that travels beyond the click radius while held inside the
/// viewport, and is then released inside it, yields exactly one drag start
/// (on the first frame beyond the radius) and exactly one drag end (at the
/// release), and no other gesture.
pub proof fn lemma_long_press_is_one_drag(
    init: (i32, i32),
    held: Seq<PointerSample>,
    release: PointerSample,
    first: int,
)
    requires
        forall|k: int| 0 <= k < held.len() ==> in_viewport(#[trigger] held[k]) && !held[k].just_released,
        0 <= first < held.len(),
        sq_dist(held[first].cursor.unwrap(), init) > DRAG_THRESHOLD_SQ,
        forall|k: int| 0 <= k < first ==> sq_dist(#[trigger] held[k].cursor.unwrap(), init) <= DRAG_THRESHOLD_SQ,
        in_viewport(release),
        release.just_released,
    ensures
        ({
            let ev = run_events(PointerInitialPos { pos: Some(init), drag_started: false }, held.push(release));
            &&& ev.len() == held.len() + 1
            &&& ev[first] == Some(Interaction::DragStart)
            &&& forall|k: int| 0 <= k < held.len() && k != first ==> #[trigger] ev[k] is None
            &&& ev[held.len() as int] == Some(Interaction::DragEnd)
        }),
    decreases held.len(),
{
    let st = PointerInitialPos { pos: Some(init), drag_started: false };
    let all = held.push(release);
    let rest = held.subrange(1, held.len() as int);
    assert(all.subrange(1, all.len() as int) =~= rest.push(release));
    assert forall|k: int| 0 <= k < rest.len() implies in_viewport(#[trigger] rest[k]) && !rest[k].just_released by {
        assert(rest[k] == held[k + 1]);
    }
    assert(in_viewport(held[0]));
    let ev = run_events(st, all);
    if first == 0 {
        lemma_dragging_press_ends_once(init, rest, release);
        let tail = run_events(PointerInitialPos { pos: Some(init), drag_started: true }, rest.push(release));
        assert forall|k: int| 0 <= k < held.len() && k != first implies #[trigger] ev[k] is None by {
            assert(ev[k] == tail[k - 1]);
        }
        assert(ev[held.len() as int] == tail[held.len() - 1]);
    } else {
        assert forall|k: int| 0 <= k < first - 1 implies sq_dist(#[trigger] rest[k].cursor.unwrap(), init)
            <= DRAG_THRESHOLD_SQ by {
            assert(rest[k] == held[k + 1]);
        }
        assert(rest[first - 1] == held[first]);
        lemma_long_press_is_one_drag(init, rest, release, first - 1);
        let tail = run_events(st, rest.push(release));
        assert forall|k: int| 0 <= k < held.len() && k != first implies #[trigger] ev[k] is None by {
            if k > 0 {
                assert(ev[k] == tail[k - 1]);
            }
        }
        assert(ev[first] == tail[first - 1]);
        assert(ev[held.len() as int] == tail[held.len() - 1]);
    }
}

} // verus!
