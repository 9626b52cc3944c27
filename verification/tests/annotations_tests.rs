use snappea::annotations::{handle_draw_msg, AnnotationKind, AnnotationState, DrawAction, DrawMode, DrawMsg, HistoryEntry};

#[derive(Clone, Copy, Debug, PartialEq)]
struct Shape {
    start_x: f32,
    start_y: f32,
    end_x: f32,
    end_y: f32,
    magnification: f32,
}

fn magnifier(cx: f32, cy: f32, r: f32, zoom: f32) -> HistoryEntry<Shape> {
    HistoryEntry {
        kind: AnnotationKind::Magnifier,
        data: Shape { start_x: cx - r, start_y: cy - r, end_x: cx + r, end_y: cy + r, magnification: zoom },
    }
}

fn arrow() -> HistoryEntry<Shape> {
    HistoryEntry {
        kind: AnnotationKind::Arrow,
        data: Shape { start_x: 0.0, start_y: 0.0, end_x: 10.0, end_y: 10.0, magnification: 0.0 },
    }
}

fn redact() -> HistoryEntry<Shape> {
    HistoryEntry {
        kind: AnnotationKind::Redact,
        data: Shape { start_x: 1.0, start_y: 1.0, end_x: 5.0, end_y: 5.0, magnification: 0.0 },
    }
}

type State = AnnotationState<Shape, (f32, f32)>;

#[test]
fn edit_selected_magnifier_targets_correct_unified_entry() {
    let mut st: State = AnnotationState::new();
    // Interleave an arrow between two magnifiers to exercise index mapping
    st.add(magnifier(100.0, 100.0, 50.0, 2.0));
    st.add(arrow());
    st.add(magnifier(300.0, 300.0, 40.0, 3.0));
    st.rebuild_arrays();

    assert_eq!(st.magnifiers.len(), 2);

    // Select the SECOND magnifier and change its zoom
    st.selected_magnifier = Some(1);
    st.edit_selected_magnifier(|m| Shape { magnification: 7.5, ..m });

    // Flat array updated
    assert_eq!(st.magnifiers[1].magnification, 7.5);
    assert_eq!(st.magnifiers[0].magnification, 2.0);
    // Unified (source of truth) updated at the right index (annotations[2])
    match st.annotations[2].kind {
        AnnotationKind::Magnifier => assert_eq!(st.annotations[2].data.magnification, 7.5),
        other => panic!("expected magnifier, got {other:?}"),
    }
    // The arrow in between is untouched
    assert!(matches!(st.annotations[1].kind, AnnotationKind::Arrow));
}

#[test]
fn selection_cleared_when_index_becomes_invalid() {
    let mut st: State = AnnotationState::new();
    st.add(magnifier(10.0, 10.0, 5.0, 2.0));
    st.rebuild_arrays();
    st.selected_magnifier = Some(0);
    // Undo removes the magnifier; selection must not dangle
    st.undo();
    assert_eq!(st.selected_magnifier, None);
}

#[test]
fn undo_then_redo_restores_the_arrays() {
    let mut st: State = AnnotationState::new();
    st.add(arrow());
    st.add(redact());
    st.rebuild_arrays();
    assert_eq!(st.arrows.len(), 1);
    assert_eq!(st.redactions.len(), 1);
    st.undo();
    assert_eq!(st.annotation_index, 1);
    assert_eq!(st.redactions.len(), 0);
    assert_eq!(st.arrows.len(), 1);
    st.redo();
    assert_eq!(st.annotation_index, 2);
    assert_eq!(st.redactions.len(), 1);
    // Redo at the end of the history does nothing.
    st.redo();
    assert_eq!(st.annotation_index, 2);
}

#[test]
fn undo_at_the_start_does_nothing() {
    let mut st: State = AnnotationState::new();
    st.undo();
    assert_eq!(st.annotation_index, 0);
    assert!(st.annotations.is_empty());
}

#[test]
fn adding_after_undo_drops_the_redo_history() {
    let mut st: State = AnnotationState::new();
    st.add(arrow());
    st.add(redact());
    st.undo();
    st.add(magnifier(1.0, 1.0, 1.0, 2.0));
    assert_eq!(st.annotations.len(), 2);
    assert_eq!(st.annotation_index, 2);
    assert!(matches!(st.annotations[1].kind, AnnotationKind::Magnifier));
    st.redo();
    assert_eq!(st.annotation_index, 2);
}

#[test]
fn clearing_shapes_keeps_redactions_and_the_reverse() {
    let mut st: State = AnnotationState::new();
    st.add(arrow());
    st.add(redact());
    st.add(magnifier(1.0, 1.0, 1.0, 2.0));
    st.rebuild_arrays();
    st.clear_shapes();
    assert_eq!(st.annotations.len(), 1);
    assert!(matches!(st.annotations[0].kind, AnnotationKind::Redact));
    assert!(st.arrows.is_empty());
    assert!(st.magnifiers.is_empty());
    assert_eq!(st.redactions.len(), 1);

    let mut st2: State = AnnotationState::new();
    st2.add(arrow());
    st2.add(redact());
    st2.rebuild_arrays();
    st2.clear_redactions();
    assert_eq!(st2.annotations.len(), 1);
    assert!(matches!(st2.annotations[0].kind, AnnotationKind::Arrow));
    assert!(st2.redactions.is_empty());
}

#[test]
fn clear_all_empties_everything() {
    let mut st: State = AnnotationState::new();
    st.add(arrow());
    st.arrow_mode = true;
    st.clear_all();
    assert!(st.annotations.is_empty());
    assert_eq!(st.annotation_index, 0);
    assert!(!st.arrow_mode);
}

#[test]
fn shape_and_redaction_kinds() {
    assert!(AnnotationKind::Arrow.is_shape());
    assert!(AnnotationKind::Magnifier.is_shape());
    assert!(!AnnotationKind::Pixelate.is_shape());
    assert!(AnnotationKind::Pixelate.is_redaction());
    assert!(AnnotationKind::Redact.is_redaction());
    assert!(!AnnotationKind::Circle.is_redaction());
}

#[test]
fn switching_a_tool_on_switches_the_others_off() {
    let mut st: State = AnnotationState::new();
    assert!(st.toggle_mode(DrawMode::Arrow));
    st.start_drawing(DrawMode::Arrow, (1.0, 2.0));
    assert!(st.toggle_mode(DrawMode::Redact));
    assert!(st.redact_mode);
    assert!(!st.arrow_mode);
    assert_eq!(st.arrow_drawing, None);
    // Switching it off again drops its drawing.
    st.start_drawing(DrawMode::Redact, (3.0, 4.0));
    assert_eq!(st.redact_drawing, Some((3.0, 4.0)));
    assert!(!st.toggle_mode(DrawMode::Redact));
    assert_eq!(st.redact_drawing, None);
}

#[test]
fn drawing_starts_only_when_the_tool_is_on() {
    let mut st: State = AnnotationState::new();
    st.start_drawing(DrawMode::Circle, (1.0, 1.0));
    assert_eq!(st.circle_drawing, None);
    st.toggle_mode(DrawMode::Circle);
    st.start_drawing(DrawMode::Circle, (1.0, 1.0));
    assert_eq!(st.finish_drawing(DrawMode::Circle), Some((1.0, 1.0)));
    assert_eq!(st.finish_drawing(DrawMode::Circle), None);
    assert!(st.circle_mode);
}

#[test]
fn disable_all_modes_keeps_the_selection() {
    let mut st: State = AnnotationState::new();
    st.add(magnifier(1.0, 1.0, 1.0, 2.0));
    st.rebuild_arrays();
    st.selected_magnifier = Some(0);
    st.toggle_mode(DrawMode::Pixelate);
    st.disable_all_modes();
    assert!(!st.pixelate_mode);
    assert_eq!(st.selected_magnifier, Some(0));
    assert_eq!(st.selected_magnifier_unified_index(), Some(0));
    assert_eq!(st.selected_magnifier_data().unwrap().magnification, 2.0);
}

fn build(m: DrawMode, start: (f32, f32), end: (f32, f32)) -> Shape {
    let zoom = if m == DrawMode::Pixelate { 8.0 } else { 0.0 };
    Shape { start_x: start.0, start_y: start.1, end_x: end.0, end_y: end.1, magnification: zoom }
}

#[test]
fn drawing_an_arrow_through_messages() {
    let mut st: State = AnnotationState::new();
    assert!(handle_draw_msg(&mut st, DrawMsg::Arrow(DrawAction::ModeToggle), build));
    assert!(!handle_draw_msg(&mut st, DrawMsg::Arrow(DrawAction::Start((1.0, 2.0))), build));
    assert_eq!(st.arrow_drawing, Some((1.0, 2.0)));
    assert!(!handle_draw_msg(&mut st, DrawMsg::Arrow(DrawAction::End((3.0, 4.0))), build));
    let drawn = Shape { start_x: 1.0, start_y: 2.0, end_x: 3.0, end_y: 4.0, magnification: 0.0 };
    assert_eq!(st.arrows, vec![drawn]);
    assert_eq!(st.annotations.len(), 1);
    assert_eq!(st.annotations[0].kind, AnnotationKind::Arrow);
    assert_eq!(st.annotations[0].data, drawn);
    assert_eq!(st.annotation_index, 1);
    assert!(st.arrow_mode);
    assert_eq!(st.arrow_drawing, None);
    // Toggling it again switches it off and asks for nothing to be cleared.
    assert!(!handle_draw_msg(&mut st, DrawMsg::Arrow(DrawAction::ModeToggle), build));
    assert!(!st.arrow_mode);
}

#[test]
fn release_without_press_and_press_with_tool_off_change_nothing() {
    let mut st: State = AnnotationState::new();
    assert!(!handle_draw_msg(&mut st, DrawMsg::Redact(DrawAction::Start((1.0, 1.0))), build));
    assert_eq!(st.redact_drawing, None);
    assert!(!handle_draw_msg(&mut st, DrawMsg::Redact(DrawAction::End((5.0, 5.0))), build));
    assert!(st.annotations.is_empty());
    assert!(st.redactions.is_empty());
}

#[test]
fn switching_tools_through_messages_drops_the_other_drawing() {
    let mut st: State = AnnotationState::new();
    handle_draw_msg(&mut st, DrawMsg::Circle(DrawAction::ModeToggle), build);
    handle_draw_msg(&mut st, DrawMsg::Circle(DrawAction::Start((0.0, 0.0))), build);
    assert!(handle_draw_msg(&mut st, DrawMsg::Pixelate(DrawAction::ModeToggle), build));
    assert!(!st.circle_mode);
    assert_eq!(st.circle_drawing, None);
    assert!(st.pixelate_mode);
    handle_draw_msg(&mut st, DrawMsg::Pixelate(DrawAction::Start((2.0, 2.0))), build);
    handle_draw_msg(&mut st, DrawMsg::Pixelate(DrawAction::End((6.0, 6.0))), build);
    assert_eq!(st.pixelations.len(), 1);
    assert_eq!(st.pixelations[0].magnification, 8.0);
    assert_eq!(st.annotations[0].kind, AnnotationKind::Pixelate);
}

#[test]
fn history_messages_undo_redo_and_clear() {
    let mut st: State = AnnotationState::new();
    handle_draw_msg(&mut st, DrawMsg::Rectangle(DrawAction::ModeToggle), build);
    handle_draw_msg(&mut st, DrawMsg::Rectangle(DrawAction::Start((0.0, 0.0))), build);
    handle_draw_msg(&mut st, DrawMsg::Rectangle(DrawAction::End((1.0, 1.0))), build);
    st.add(redact());
    st.rebuild_arrays();
    assert!(!handle_draw_msg(&mut st, DrawMsg::Undo, build));
    assert_eq!(st.annotation_index, 1);
    assert!(st.redactions.is_empty());
    assert!(!handle_draw_msg(&mut st, DrawMsg::Redo, build));
    assert_eq!(st.redactions.len(), 1);
    assert!(!handle_draw_msg(&mut st, DrawMsg::ClearShapes, build));
    assert!(st.rect_outlines.is_empty());
    assert_eq!(st.annotations.len(), 1);
    assert_eq!(st.annotations[0].kind, AnnotationKind::Redact);
    assert!(!handle_draw_msg(&mut st, DrawMsg::ClearRedactions, build));
    assert!(st.annotations.is_empty());
    assert!(st.redactions.is_empty());
}

#[test]
fn adding_keeps_the_modes_and_drawings() {
    let mut st: State = AnnotationState::new();
    st.toggle_mode(DrawMode::Arrow);
    st.start_drawing(DrawMode::Arrow, (3.0, 3.0));
    st.add(redact());
    assert!(st.arrow_mode);
    assert_eq!(st.arrow_drawing, Some((3.0, 3.0)));
    assert!(!st.redact_mode);
}
