use doug::{
    EditingSession, FrameInput,
    click_and_drag_shape_system, cursor_hover_detect_system, cycle_shape_stack_hover_system,
    draw_selection_box_system, dragged_shape_initial_pos_system, MeasuredTree,
    initialize_pointer_event_determination, layer_zindex_stepthru_system, path_outline, rect_outline,
    resolve_pointer_event_determination, set_layer_visibility_system, LayersUIState,
    select_clicked_system, selection_box_selection_system, set_hovered_system,
    spawn_despawn_selection_box_system, undo_redo_key_combo_system, undo_redo_system,
    undo_redo_tracking_system, DragRecord, Highlight, Interaction, Point, PointerInitialPos,
    PointerSample, Region, SelectionBox, SelectionState, ShapeKind, ShapeRecord, ShapeStack,
    UndoRedoEvent, UndoRedoHistory, WORLD_LIMIT,
};

fn square(id: u64, layer: u8, lo: (i64, i64), hi: (i64, i64)) -> ShapeRecord {
    ShapeRecord {
        id,
        layer,
        kind: ShapeKind::Rect,
        ring: vec![
            Point::new(lo.0, lo.1),
            Point::new(hi.0, lo.1),
            Point::new(hi.0, hi.1),
            Point::new(lo.0, hi.1),
        ],
        position: Point::new(0, 0),
        visible: true,
    }
}

fn sorted(v: &[u64]) -> Vec<u64> {
    let mut v = v.to_vec();
    v.sort();
    v
}

fn sample(pressed: bool, released: bool, x: i32, y: i32) -> PointerSample {
    PointerSample {
        just_pressed: pressed,
        just_released: released,
        over_ui: false,
        cursor: Some((x, y)),
        width: 800,
        height: 600,
    }
}

fn hovered_at(shapes: &Vec<ShapeRecord>, p: Point) -> (ShapeStack, SelectionState) {
    let mut stack = ShapeStack::new();
    stack.rebuild(shapes, p);
    let mut state = SelectionState::new();
    set_hovered_system(&mut state, &stack);
    (stack, state)
}

#[test]
fn overlapping_shapes_cycle_from_top_layer_down() {
    let shapes = vec![square(1, 0, (0, 0), (10, 10)), square(2, 1, (0, 0), (10, 10))];
    let (mut stack, _) = hovered_at(&shapes, Point::new(5, 5));
    assert_eq!(stack.len(), 2);
    assert_eq!(stack.hovered(), Some(2));
    cycle_shape_stack_hover_system(&mut stack, true, false);
    assert_eq!(stack.offset, 1);
    assert_eq!(stack.hovered(), Some(1));
}

#[test]
fn top_hover_is_highest_layer() {
    let shapes = vec![
        square(1, 3, (0, 0), (10, 10)),
        square(2, 7, (0, 0), (10, 10)),
        square(3, 9, (20, 20), (30, 30)),
        square(4, 5, (0, 0), (10, 10)),
    ];
    let (stack, state) = hovered_at(&shapes, Point::new(5, 5));
    assert_eq!(stack.len(), 3);
    assert_eq!(stack.hovered(), Some(2));
    assert_eq!(state.hovered, Some(2));
}

#[test]
fn nothing_under_cursor_hovers_nothing() {
    let shapes = vec![square(1, 0, (0, 0), (10, 10))];
    let (stack, state) = hovered_at(&shapes, Point::new(50, 50));
    assert_eq!(stack.len(), 0);
    assert_eq!(state.hovered, None);
}

#[test]
fn hidden_shapes_are_not_picked() {
    let mut hidden = square(2, 4, (0, 0), (10, 10));
    hidden.visible = false;
    let shapes = vec![square(1, 0, (0, 0), (10, 10)), hidden];
    let (stack, _) = hovered_at(&shapes, Point::new(5, 5));
    assert_eq!(stack.hovered(), Some(1));
}

#[test]
fn shapes_are_picked_at_their_position() {
    let mut moved = square(1, 0, (0, 0), (10, 10));
    moved.position = Point::new(100, 0);
    let shapes = vec![moved];
    assert!(!shapes[0].is_hit(Point::new(5, 5)));
    assert!(shapes[0].is_hit(Point::new(105, 5)));
}

#[test]
fn polygon_hit_test_is_interior_only() {
    let tri = ShapeRecord {
        id: 1,
        layer: 0,
        kind: ShapeKind::Poly,
        ring: vec![Point::new(0, 0), Point::new(10, 0), Point::new(0, 10)],
        position: Point::new(0, 0),
        visible: true,
    };
    assert!(tri.is_hit(Point::new(2, 2)));
    assert!(!tri.is_hit(Point::new(8, 8)));
    assert!(!tri.is_hit(Point::new(0, 5)));
}

#[test]
fn cycling_by_stack_size_is_periodic() {
    let shapes = vec![
        square(1, 0, (0, 0), (10, 10)),
        square(2, 1, (0, 0), (10, 10)),
        square(3, 2, (0, 0), (10, 10)),
    ];
    let (mut stack, _) = hovered_at(&shapes, Point::new(5, 5));
    for base in -7isize..7 {
        stack.offset = base;
        let h = stack.hovered();
        stack.offset = base + 3;
        assert_eq!(stack.hovered(), h);
    }
    stack.offset = -1;
    assert_eq!(stack.hovered(), Some(1));
    stack.offset = -4;
    assert_eq!(stack.hovered(), Some(1));
}

#[test]
fn stack_rebuild_waits_for_button_and_marquee() {
    let shapes = vec![square(1, 0, (0, 0), (10, 10))];
    let mut stack = ShapeStack::new();
    cursor_hover_detect_system(&mut stack, &shapes, Point::new(5, 5), true, true, false);
    assert_eq!(stack.len(), 0);
    cursor_hover_detect_system(&mut stack, &shapes, Point::new(5, 5), true, false, true);
    assert_eq!(stack.len(), 0);
    cursor_hover_detect_system(&mut stack, &shapes, Point::new(5, 5), false, false, false);
    assert_eq!(stack.len(), 0);
    cursor_hover_detect_system(&mut stack, &shapes, Point::new(5, 5), true, false, false);
    assert_eq!(stack.len(), 1);
}

#[test]
fn drag_start_selects_and_drags_hovered() {
    let mut state = SelectionState::new();
    state.hovered = Some(1);
    select_clicked_system(&mut state, Interaction::DragStart, false);
    assert_eq!(state.selected, vec![1]);
    assert_eq!(state.dragging, vec![1]);
}

#[test]
fn drag_moves_shape_and_undo_restores_it() {
    let mut shapes = vec![square(1, 0, (0, 0), (10, 10))];
    let mut state = SelectionState::new();
    state.hovered = Some(1);
    let mut history = UndoRedoHistory::new();
    let mut rec = DragRecord::new();
    let mut last: Option<Point> = None;

    select_clicked_system(&mut state, Interaction::DragStart, false);
    let pre = dragged_shape_initial_pos_system(&shapes, &state.dragging);
    assert_eq!(pre.map(|p| p.pos), Some(Point::new(0, 0)));
    click_and_drag_shape_system(&mut last, &mut shapes, &state.dragging, Point::new(5, 5), true);
    undo_redo_tracking_system(&mut history, &mut rec, Some(Interaction::DragStart), pre, &state.dragging, &shapes);
    assert_eq!(shapes[0].position, Point::new(0, 0));

    click_and_drag_shape_system(&mut last, &mut shapes, &state.dragging, Point::new(8, 9), true);
    assert_eq!(shapes[0].position, Point::new(3, 4));
    click_and_drag_shape_system(&mut last, &mut shapes, &state.dragging, Point::new(11, 13), true);
    assert_eq!(shapes[0].position, Point::new(6, 8));

    select_clicked_system(&mut state, Interaction::DragEnd, false);
    click_and_drag_shape_system(&mut last, &mut shapes, &state.dragging, Point::new(11, 13), false);
    undo_redo_tracking_system(&mut history, &mut rec, Some(Interaction::DragEnd), None, &state.dragging, &shapes);
    assert_eq!(state.dragging, Vec::<u64>::new());
    assert_eq!(state.selected, vec![1]);
    assert_eq!(history.offset, 1);
    assert_eq!(history.actions.len(), 1);
    assert_eq!((history.actions[0].action.x, history.actions[0].action.y), (6, 8));
    assert_eq!(history.actions[0].entities, vec![1]);

    undo_redo_system(&mut history, &mut shapes, UndoRedoEvent::Undo);
    assert_eq!(shapes[0].position, Point::new(0, 0));
    assert_eq!(history.offset, 0);

    undo_redo_system(&mut history, &mut shapes, UndoRedoEvent::Redo);
    assert_eq!(shapes[0].position, Point::new(6, 8));
    assert_eq!(history.offset, 1);
}

#[test]
fn undo_and_redo_at_the_ends_do_nothing() {
    let mut shapes = vec![square(1, 0, (0, 0), (10, 10))];
    let mut history = UndoRedoHistory::new();
    undo_redo_system(&mut history, &mut shapes, UndoRedoEvent::Undo);
    undo_redo_system(&mut history, &mut shapes, UndoRedoEvent::Redo);
    assert_eq!(history.offset, 0);
    assert_eq!(shapes[0].position, Point::new(0, 0));
}

#[test]
fn group_drag_moves_every_selected_shape() {
    let mut shapes = vec![square(1, 0, (0, 0), (10, 10)), square(2, 0, (20, 20), (30, 30)), square(3, 0, (40, 40), (50, 50))];
    let mut state = SelectionState::new();
    state.hovered = Some(2);
    state.selected = vec![1, 2];
    select_clicked_system(&mut state, Interaction::DragStart, false);
    assert_eq!(sorted(&state.dragging), vec![1, 2]);
    let mut last = None;
    click_and_drag_shape_system(&mut last, &mut shapes, &state.dragging, Point::new(0, 0), true);
    click_and_drag_shape_system(&mut last, &mut shapes, &state.dragging, Point::new(-2, 7), true);
    assert_eq!(shapes[0].position, Point::new(-2, 7));
    assert_eq!(shapes[1].position, Point::new(-2, 7));
    assert_eq!(shapes[2].position, Point::new(0, 0));
}

#[test]
fn drag_forgets_last_position_when_nothing_drags() {
    let mut shapes = vec![square(1, 0, (0, 0), (10, 10))];
    let mut last = Some(Point::new(1, 1));
    click_and_drag_shape_system(&mut last, &mut shapes, &vec![], Point::new(9, 9), true);
    assert_eq!(last, None);
    click_and_drag_shape_system(&mut last, &mut shapes, &vec![1], Point::new(20, 20), true);
    assert_eq!(shapes[0].position, Point::new(0, 0));
    assert_eq!(last, Some(Point::new(20, 20)));
}

#[test]
fn new_drag_after_undo_drops_redo_chain() {
    let mut shapes = vec![square(1, 0, (0, 0), (10, 10))];
    let mut history = UndoRedoHistory::new();
    let mut rec = DragRecord::new();
    let ids = vec![1u64];
    for (target, expected_len) in [((4i64, 0i64), 1usize), ((0, 9), 2)] {
        let pre = dragged_shape_initial_pos_system(&shapes, &ids);
        undo_redo_tracking_system(&mut history, &mut rec, Some(Interaction::DragStart), pre, &ids, &shapes);
        shapes[0].position = Point::new(shapes[0].position.x + target.0, shapes[0].position.y + target.1);
        undo_redo_tracking_system(&mut history, &mut rec, Some(Interaction::DragEnd), None, &ids, &shapes);
        assert_eq!(history.actions.len(), expected_len);
    }
    undo_redo_system(&mut history, &mut shapes, UndoRedoEvent::Undo);
    undo_redo_system(&mut history, &mut shapes, UndoRedoEvent::Undo);
    assert_eq!(shapes[0].position, Point::new(0, 0));
    let pre = dragged_shape_initial_pos_system(&shapes, &ids);
    undo_redo_tracking_system(&mut history, &mut rec, Some(Interaction::DragStart), pre, &ids, &shapes);
    shapes[0].position = Point::new(1, 1);
    undo_redo_tracking_system(&mut history, &mut rec, Some(Interaction::DragEnd), None, &ids, &shapes);
    assert_eq!(history.actions.len(), 1);
    assert_eq!(history.offset, 1);
    undo_redo_system(&mut history, &mut shapes, UndoRedoEvent::Redo);
    assert_eq!(shapes[0].position, Point::new(1, 1));
}

#[test]
fn drag_end_without_drag_records_nothing() {
    let shapes = vec![square(1, 0, (0, 0), (10, 10))];
    let mut history = UndoRedoHistory::new();
    let mut rec = DragRecord::new();
    undo_redo_tracking_system(&mut history, &mut rec, Some(Interaction::DragEnd), None, &vec![], &shapes);
    assert_eq!(history.actions.len(), 0);
    assert_eq!(history.offset, 0);
}

#[test]
fn modifier_click_toggles_membership() {
    let mut state = SelectionState::new();
    state.hovered = Some(3);
    select_clicked_system(&mut state, Interaction::Click, true);
    assert_eq!(state.selected, vec![3]);
    select_clicked_system(&mut state, Interaction::Click, true);
    assert_eq!(state.selected, Vec::<u64>::new());
}

#[test]
fn modifier_clicks_build_a_multi_selection() {
    let mut state = SelectionState::new();
    for id in [1u64, 2, 3] {
        state.hovered = Some(id);
        select_clicked_system(&mut state, Interaction::Click, true);
    }
    assert_eq!(sorted(&state.selected), vec![1, 2, 3]);
    state.hovered = Some(2);
    select_clicked_system(&mut state, Interaction::Click, false);
    assert_eq!(state.selected, vec![2]);
}

#[test]
fn click_outside_multi_selection_clears_it() {
    let mut state = SelectionState::new();
    state.selected = vec![1, 2];
    state.hovered = Some(9);
    select_clicked_system(&mut state, Interaction::Click, false);
    assert_eq!(state.selected, Vec::<u64>::new());
}

#[test]
fn single_selection_click_rules() {
    let mut state = SelectionState::new();
    state.hovered = Some(4);
    select_clicked_system(&mut state, Interaction::Click, false);
    assert_eq!(state.selected, vec![4]);
    state.hovered = Some(5);
    select_clicked_system(&mut state, Interaction::Click, false);
    assert_eq!(state.selected, vec![5]);
    select_clicked_system(&mut state, Interaction::Click, false);
    assert_eq!(state.selected, Vec::<u64>::new());
}

#[test]
fn drag_start_on_unselected_shape_replaces_selection() {
    let mut state = SelectionState::new();
    state.selected = vec![1, 2];
    state.hovered = Some(7);
    select_clicked_system(&mut state, Interaction::DragStart, false);
    assert_eq!(state.selected, vec![7]);
    assert_eq!(state.dragging, vec![7]);
}

#[test]
fn gesture_with_nothing_hovered_deselects_all() {
    let mut state = SelectionState::new();
    state.selected = vec![1, 2];
    select_clicked_system(&mut state, Interaction::Click, false);
    assert_eq!(state.selected, Vec::<u64>::new());
    assert_eq!(state.dragging, Vec::<u64>::new());
}

#[test]
fn highlight_prefers_selection_over_hover() {
    let mut state = SelectionState::new();
    state.hovered = Some(1);
    assert_eq!(state.highlight_of(1), Highlight::Hovered);
    assert_eq!(state.highlight_of(2), Highlight::Plain);
    state.selected = vec![1];
    assert_eq!(state.highlight_of(1), Highlight::Selected);
}

fn marquee_world() -> Vec<ShapeRecord> {
    vec![
        square(10, 0, (10, 10), (20, 20)),
        square(11, 0, (30, 30), (40, 40)),
        square(12, 0, (200, 200), (210, 210)),
    ]
}

#[test]
fn marquee_selects_then_deselects_on_shrink() {
    let shapes = marquee_world();
    let mut state = SelectionState::new();
    state.selected = vec![12];
    let mut marquee: Option<SelectionBox> = None;
    spawn_despawn_selection_box_system(&mut marquee, &mut state, Interaction::DragStart, true, Point::new(50, 50));
    assert_eq!(state.selected, Vec::<u64>::new());
    let mut b = marquee.unwrap();
    assert_eq!(b.rect, Region { lo: Point::new(50, 50), hi: Point::new(50, 50) });

    draw_selection_box_system(&mut b, Point::new(5, 5));
    assert_eq!((b.delta.x, b.delta.y), (45, 45));
    selection_box_selection_system(&b, &shapes, &mut state);
    assert_eq!(sorted(&state.selected), vec![10, 11]);

    draw_selection_box_system(&mut b, Point::new(25, 25));
    assert_eq!((b.delta.x, b.delta.y), (-20, -20));
    selection_box_selection_system(&b, &shapes, &mut state);
    assert_eq!(state.selected, vec![11]);

    let mut marquee = Some(b);
    spawn_despawn_selection_box_system(&mut marquee, &mut state, Interaction::DragEnd, true, Point::new(0, 0));
    assert!(marquee.is_none());
}

#[test]
fn marquee_growth_keeps_selection_and_encloses() {
    let shapes = marquee_world();
    let mut state = SelectionState::new();
    let mut b = SelectionBox::new(Point::new(0, 0));
    draw_selection_box_system(&mut b, Point::new(25, 25));
    selection_box_selection_system(&b, &shapes, &mut state);
    assert_eq!(state.selected, vec![10]);
    let before = b.rect;
    draw_selection_box_system(&mut b, Point::new(35, 35));
    assert!(b.delta.x >= 0 && b.delta.y >= 0);
    assert!(b.rect.lo.x <= before.lo.x && b.rect.hi.x >= before.hi.x);
    assert!(b.rect.lo.y <= before.lo.y && b.rect.hi.y >= before.hi.y);
    selection_box_selection_system(&b, &shapes, &mut state);
    assert_eq!(sorted(&state.selected), vec![10, 11]);
}

#[test]
fn marquee_skips_paths_and_hidden_shapes() {
    let mut path = square(20, 0, (10, 10), (20, 20));
    path.kind = ShapeKind::Path;
    let mut hidden = square(21, 0, (10, 10), (20, 20));
    hidden.visible = false;
    let shapes = vec![path, hidden];
    let mut state = SelectionState::new();
    let mut b = SelectionBox::new(Point::new(0, 0));
    draw_selection_box_system(&mut b, Point::new(30, 30));
    selection_box_selection_system(&b, &shapes, &mut state);
    assert_eq!(state.selected, Vec::<u64>::new());
}

#[test]
fn region_meets_polygon_only_when_touching() {
    let tri = ShapeRecord {
        id: 1,
        layer: 0,
        kind: ShapeKind::Poly,
        ring: vec![Point::new(0, 0), Point::new(10, 0), Point::new(0, 10)],
        position: Point::new(0, 0),
        visible: true,
    };
    let far = Region { lo: Point::new(8, 8), hi: Point::new(12, 12) };
    let near = Region { lo: Point::new(4, 4), hi: Point::new(12, 12) };
    assert!(!tri.is_met_by(far));
    assert!(tri.is_met_by(near));
}

#[test]
fn short_press_is_a_click() {
    let mut st = PointerInitialPos::new();
    let press = sample(true, false, 100, 100);
    initialize_pointer_event_determination(&mut st, &press);
    assert_eq!(resolve_pointer_event_determination(&mut st, &press), None);
    assert_eq!(resolve_pointer_event_determination(&mut st, &sample(false, false, 102, 101)), None);
    assert_eq!(resolve_pointer_event_determination(&mut st, &sample(false, true, 102, 102)), Some(Interaction::Click));
    assert_eq!(st.pos, None);
}

#[test]
fn long_press_is_one_drag() {
    let mut st = PointerInitialPos::new();
    let press = sample(true, false, 100, 100);
    initialize_pointer_event_determination(&mut st, &press);
    let mut events = vec![];
    for s in [press, sample(false, false, 102, 102), sample(false, false, 104, 100), sample(false, false, 140, 120), sample(false, false, 100, 100), sample(false, true, 100, 101)] {
        events.push(resolve_pointer_event_determination(&mut st, &s));
    }
    assert_eq!(events, vec![None, None, Some(Interaction::DragStart), None, None, Some(Interaction::DragEnd)]);
    assert!(!st.drag_started);
}

#[test]
fn press_over_ui_is_ignored() {
    let mut st = PointerInitialPos::new();
    let mut press = sample(true, false, 10, 10);
    press.over_ui = true;
    initialize_pointer_event_determination(&mut st, &press);
    assert_eq!(st.pos, None);
    assert_eq!(resolve_pointer_event_determination(&mut st, &sample(false, true, 10, 10)), None);
}

#[test]
fn leaving_viewport_ends_drag() {
    let mut st = PointerInitialPos::new();
    initialize_pointer_event_determination(&mut st, &sample(true, false, 10, 10));
    assert_eq!(resolve_pointer_event_determination(&mut st, &sample(false, false, 30, 10)), Some(Interaction::DragStart));
    assert_eq!(resolve_pointer_event_determination(&mut st, &sample(false, false, 900, 10)), Some(Interaction::DragEnd));
    assert_eq!(st.pos, None);
    initialize_pointer_event_determination(&mut st, &sample(true, false, 10, 10));
    let mut outside = sample(false, false, 0, 0);
    outside.cursor = None;
    assert_eq!(resolve_pointer_event_determination(&mut st, &outside), None);
    assert_eq!(st.pos, None);
}

#[test]
fn squared_distance_of_exactly_ten_is_neither() {
    let mut st = PointerInitialPos::new();
    initialize_pointer_event_determination(&mut st, &sample(true, false, 0, 0));
    assert_eq!(resolve_pointer_event_determination(&mut st, &sample(false, false, 3, 1)), None);
    assert_eq!(resolve_pointer_event_determination(&mut st, &sample(false, true, 3, 1)), None);
}

#[test]
fn key_chords_map_to_history_steps() {
    assert_eq!(undo_redo_key_combo_system(true, true, false), Some(UndoRedoEvent::Undo));
    assert_eq!(undo_redo_key_combo_system(true, true, true), Some(UndoRedoEvent::Redo));
    assert_eq!(undo_redo_key_combo_system(false, true, true), None);
    assert_eq!(undo_redo_key_combo_system(true, false, false), None);
}

#[test]
fn measured_tree_reports_root_measure() {
    let leaf: MeasuredTree<u32, &str> = MeasuredTree::Leaf { measure: 3, val: "a" };
    assert_eq!(leaf.cached_measure(), Some(3));
    let node = MeasuredTree::Node { measure: 7u32, left: Box::new(leaf), right: Box::new(MeasuredTree::Empty) };
    assert_eq!(node.cached_measure(), Some(7));
    let empty: MeasuredTree<u32, &str> = MeasuredTree::Empty;
    assert_eq!(empty.cached_measure(), None);
}

fn panel(flags: &[(bool, u8)]) -> LayersUIState {
    LayersUIState { layers: flags.iter().map(|&(v, l)| (v, l, format!("layer{l}"))).collect() }
}

fn flags_of(state: &LayersUIState) -> Vec<bool> {
    state.layers.iter().map(|r| r.0).collect()
}

#[test]
fn stepping_hides_last_shown_and_shows_first_hidden() {
    let mut state = panel(&[(true, 1), (false, 2), (true, 3), (false, 4)]);
    layer_zindex_stepthru_system(&mut state, true, false);
    assert_eq!(flags_of(&state), vec![true, false, false, false]);
    layer_zindex_stepthru_system(&mut state, false, true);
    assert_eq!(flags_of(&state), vec![true, true, false, false]);
    assert_eq!(state.layers[1].2, "layer2");
    let mut none_shown = panel(&[(false, 1)]);
    layer_zindex_stepthru_system(&mut none_shown, true, false);
    assert_eq!(flags_of(&none_shown), vec![false]);
}

#[test]
fn changed_layer_flags_apply_to_their_shapes() {
    let mut shapes = vec![square(1, 1, (0, 0), (1, 1)), square(2, 2, (0, 0), (1, 1)), square(3, 1, (0, 0), (1, 1))];
    let mut prev: Vec<(bool, u8)> = Vec::new();
    let mut state = panel(&[(true, 1), (true, 2)]);
    set_layer_visibility_system(&state.layers, &mut prev, &mut shapes);
    assert_eq!(prev, vec![(true, 1), (true, 2)]);
    state.layers[0].0 = false;
    set_layer_visibility_system(&state.layers, &mut prev, &mut shapes);
    let vis: Vec<bool> = shapes.iter().map(|s| s.visible).collect();
    assert_eq!(vis, vec![false, true, false]);
    state.layers[0].0 = true;
    set_layer_visibility_system(&state.layers, &mut prev, &mut shapes);
    assert!(shapes.iter().all(|s| s.visible));
}

#[test]
fn rect_outline_lists_corners_counter_clockwise() {
    let ring = rect_outline(Point::new(1, 2), Point::new(5, 7));
    assert_eq!(ring, vec![Point::new(1, 2), Point::new(5, 2), Point::new(5, 7), Point::new(1, 7)]);
}

#[test]
fn path_outline_widens_segments() {
    let straight = path_outline(&vec![Point::new(0, 0), Point::new(10, 0)], 4);
    assert_eq!(straight, vec![Point::new(0, -2), Point::new(10, -2), Point::new(10, 2), Point::new(0, 2)]);
    let vertical = path_outline(&vec![Point::new(0, 0), Point::new(0, 10)], 2);
    assert_eq!(vertical, vec![Point::new(1, 0), Point::new(1, 10), Point::new(-1, 10), Point::new(-1, 0)]);
    let path = ShapeRecord {
        id: 1,
        layer: 0,
        kind: ShapeKind::Path,
        ring: straight,
        position: Point::new(0, 0),
        visible: true,
    };
    assert!(path.is_hit(Point::new(5, 1)));
    assert!(!path.is_hit(Point::new(5, 3)));
}

#[test]
fn same_layer_ties_go_to_higher_id() {
    let shapes = vec![square(9, 2, (0, 0), (10, 10)), square(4, 2, (0, 0), (10, 10))];
    let (mut stack, _) = hovered_at(&shapes, Point::new(5, 5));
    assert_eq!(stack.hovered(), Some(9));
    cycle_shape_stack_hover_system(&mut stack, true, false);
    assert_eq!(stack.hovered(), Some(4));
    cycle_shape_stack_hover_system(&mut stack, false, true);
    cycle_shape_stack_hover_system(&mut stack, false, true);
    assert_eq!(stack.offset, -1);
    assert_eq!(stack.hovered(), Some(4));
}

#[test]
fn shapes_beyond_world_square_are_never_picked() {
    let mut far = square(1, 0, (0, 0), (10, 10));
    far.position = Point::new(WORLD_LIMIT, 0);
    assert!(!far.is_hit(Point::new(WORLD_LIMIT + 5, 5)));
    assert!(!far.is_met_by(Region { lo: Point::new(0, 0), hi: Point::new(WORLD_LIMIT, 20) }));
    let near = square(2, 0, (WORLD_LIMIT - 10, 0), (WORLD_LIMIT, 10));
    assert!(near.is_hit(Point::new(WORLD_LIMIT - 5, 5)));
}

fn frame(pressed: bool, released: bool, held: bool, pixel: (i32, i32), modifier: bool, anchor: Point) -> FrameInput {
    FrameInput {
        pointer: sample(pressed, released, pixel.0, pixel.1),
        cursor: Point::new(pixel.0 as i64, pixel.1 as i64),
        anchor,
        cursor_moved: true,
        button_held: held,
        modifier,
        cycle_forward: false,
        cycle_backward: false,
    }
}

#[test]
fn session_drag_then_undo_and_redo() {
    let mut session = EditingSession::new(vec![square(1, 0, (0, 0), (10, 10)), square(2, 1, (20, 20), (30, 30))]);
    let origin = Point::new(5, 5);
    assert_eq!(session.tick(frame(false, false, false, (5, 5), false, origin)), None);
    assert_eq!(session.selection.hovered, Some(1));
    assert_eq!(session.tick(frame(true, false, true, (5, 5), false, origin)), None);
    assert_eq!(session.tick(frame(false, false, true, (8, 9), false, origin)), Some(Interaction::DragStart));
    assert_eq!(session.selection.selected, vec![1]);
    assert_eq!(session.selection.dragging, vec![1]);
    assert_eq!(session.shapes[0].position, Point::new(0, 0));
    assert_eq!(session.tick(frame(false, false, true, (11, 13), false, origin)), None);
    assert_eq!(session.shapes[0].position, Point::new(3, 4));
    assert_eq!(session.tick(frame(false, true, false, (11, 13), false, origin)), Some(Interaction::DragEnd));
    assert_eq!(session.selection.dragging, Vec::<u64>::new());
    assert_eq!(session.selection.selected, vec![1]);
    assert_eq!(session.history.actions.len(), 1);
    assert_eq!((session.history.actions[0].action.x, session.history.actions[0].action.y), (3, 4));
    assert_eq!(session.shapes[1].position, Point::new(0, 0));

    session.undo_redo(UndoRedoEvent::Undo);
    assert_eq!(session.shapes[0].position, Point::new(0, 0));
    assert_eq!(session.history.offset, 0);
    session.undo_redo(UndoRedoEvent::Undo);
    assert_eq!(session.history.offset, 0);
    session.undo_redo(UndoRedoEvent::Redo);
    assert_eq!(session.shapes[0].position, Point::new(3, 4));
    assert_eq!(session.history.offset, 1);
}

#[test]
fn session_click_and_cycle() {
    let mut session = EditingSession::new(vec![square(1, 0, (0, 0), (10, 10)), square(2, 1, (0, 0), (10, 10))]);
    let p = Point::new(5, 5);
    session.tick(frame(false, false, false, (5, 5), false, p));
    assert_eq!(session.selection.hovered, Some(2));
    let mut keys = frame(false, false, false, (5, 5), false, p);
    keys.cycle_forward = true;
    keys.cursor_moved = false;
    session.tick(keys);
    assert_eq!(session.stack.offset, 1);
    assert_eq!(session.selection.hovered, Some(1));
    session.tick(frame(true, false, true, (5, 5), false, p));
    assert_eq!(session.tick(frame(false, true, false, (6, 6), false, p)), Some(Interaction::Click));
    assert_eq!(session.selection.selected, vec![1]);
}

#[test]
fn session_marquee_round() {
    let mut session = EditingSession::new(vec![square(10, 0, (10, 10), (20, 20)), square(11, 0, (30, 30), (40, 40))]);
    let anchor = Point::new(50, 50);
    session.tick(frame(false, false, false, (50, 50), true, anchor));
    session.tick(frame(true, false, true, (50, 50), true, anchor));
    assert_eq!(session.tick(frame(false, false, true, (5, 5), true, anchor)), Some(Interaction::DragStart));
    assert!(session.marquee.is_some());
    assert_eq!(sorted(&session.selection.selected), vec![10, 11]);
    session.tick(frame(false, false, true, (25, 25), true, anchor));
    assert_eq!(session.selection.selected, vec![11]);
    assert_eq!(session.tick(frame(false, true, false, (25, 25), true, anchor)), Some(Interaction::DragEnd));
    assert!(session.marquee.is_none());
    assert_eq!(session.history.actions.len(), 0);
}

#[test]
fn loading_shapes_resets_everything_but_history() {
    let mut session = EditingSession::new(vec![square(1, 0, (0, 0), (10, 10))]);
    session.tick(frame(false, false, false, (5, 5), false, Point::new(5, 5)));
    session.selection.selected = vec![1];
    session.stack.offset = 3;
    session.load_shapes(vec![square(7, 0, (0, 0), (4, 4))]);
    assert_eq!(session.stack.offset, 0);
    assert_eq!(session.stack.len(), 0);
    assert_eq!(session.selection.hovered, None);
    assert_eq!(session.selection.selected, Vec::<u64>::new());
    assert_eq!(session.shapes.len(), 1);
}
