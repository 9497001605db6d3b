//! Interactive selection and editing engine for a 2-D layout viewer.
//!
//! The engine turns pointer samples into gestures, resolves which of several
//! overlapping shapes the cursor means, keeps the hovered / selected / dragging
//! sets consistent, grows and shrinks a marquee selection, translates dragged
//! shapes and records every completed drag in an undo/redo history.
//!
//! Coordinates are integer world units. Geometric tests run on the world
//! square `-WORLD_LIMIT..=WORLD_LIMIT`; a shape that reaches beyond it is never
//! picked by the cursor nor caught by the marquee.
pub mod drag;
pub mod geometry;
pub mod gesture;
pub mod history;
pub mod layers;
pub mod marquee;
pub mod measured_tree;
pub mod selection;
pub mod session;
pub mod shapes;
pub mod stack;

pub use drag::{can_shift, click_and_drag_shape_system, shift_shapes};
pub use geometry::{Point, Region, WORLD_LIMIT};
pub use gesture::{
    initialize_pointer_event_determination, resolve_pointer_event_determination, Interaction,
    PointerInitialPos, PointerSample,
};
pub use history::{
    dragged_shape_initial_pos_system, undo_redo_key_combo_system, undo_redo_system,
    undo_redo_tracking_system, AtomicAction, DragRecord, PreDragPosEvent, TranslateAction,
    UndoRedoEvent, UndoRedoHistory,
};
pub use layers::{layer_zindex_stepthru_system, set_layer_visibility_system, LayersUIState};
pub use marquee::{
    draw_selection_box_system, selection_box_selection_system, spawn_despawn_selection_box_system,
    DeltaWidthHeight, SelectionBox,
};
pub use measured_tree::{Measured, MeasuredTree};
pub use selection::{
    reset_state_on_new_cell_import, reset_state_on_new_lib_import, select_clicked_system,
    set_hovered_system, Highlight, SelectionState,
};
pub use session::{EditingSession, FrameInput};
pub use shapes::{path_outline, rect_outline, ShapeKind, ShapeRecord};
pub use stack::{cursor_hover_detect_system, cycle_shape_stack_hover_system, Shape, ShapeStack};
