use snappea::capture::{abgr_to_rgba, shm_buffer_len, use_dmabuf_path, RecordingLoop, MAX_CONSECUTIVE_ERRORS};
use snappea::geometry::Rect;
use snappea::record_target::{
    choice_region, find_output, localize_region, record_target, select_record_output, window_global_index, OutputInfo,
};
use snappea::ocr::{needs_fallback_overlay, ocr_result_text, stored_ocr_text};
use snappea::selection::{choice_change, location_from_index, Choice, ChoiceChange, DragState, ImageSaveLocation};

fn out(name: &str, x: i32, y: i32, w: u32, h: u32) -> OutputInfo {
    OutputInfo { name: name.to_string(), logical_pos: (x, y), logical_size: (w, h) }
}

fn screens() -> Vec<OutputInfo> {
    vec![out("DP-1", 0, 0, 1920, 1080), out("DP-2", 1920, 0, 2560, 1440)]
}

#[test]
fn the_screen_with_most_overlap_is_recorded() {
    let outs = screens();
    // Mostly on DP-2.
    assert_eq!(select_record_output((1900, 100, 400, 300), &outs), Some(1));
    // Mostly on DP-1.
    assert_eq!(select_record_output((1500, 100, 430, 300), &outs), Some(0));
    // Equal overlap: the later screen wins.
    assert_eq!(select_record_output((1820, 0, 200, 100), &outs), Some(1));
    // Off every screen.
    assert_eq!(select_record_output((-500, -500, 100, 100), &outs), None);
}

#[test]
fn regions_are_moved_into_the_screen_and_clipped() {
    let dp2 = out("DP-2", 1920, 0, 2560, 1440);
    assert_eq!(localize_region((1900, 100, 400, 300), &dp2), (0, 100, 400, 300));
    assert_eq!(localize_region((4400, 1400, 400, 300), &dp2), (2480, 1400, 80, 40));
}

#[test]
fn record_targets() {
    let outs = screens();
    let t = record_target((1900, 100, 400, 300), &outs);
    assert_eq!(t.output_name, "DP-2");
    assert_eq!(t.region, (0, 100, 400, 300));
    assert_eq!(t.logical_size, (2560, 1440));
    let off = record_target((-500, -500, 100, 100), &outs);
    assert_eq!(off.output_name, "DP-1");
    assert_eq!(off.region, (-500, -500, 100, 100));
    let none = record_target((0, 0, 10, 10), &Vec::new());
    assert_eq!(none.output_name, "Unknown");
    assert_eq!(none.logical_size, (1920, 1080));
}

#[test]
fn the_recorded_region_of_each_selection() {
    let outs = screens();
    let rect = Choice::Rectangle(Rect::new(10, 20, 110, 70), DragState::Idle);
    assert_eq!(choice_region(&rect, &outs), Some((10, 20, 100, 50)));
    let empty = Choice::Rectangle(Rect::new(10, 20, 10, 70), DragState::Idle);
    assert_eq!(choice_region(&empty, &outs), None);
    assert_eq!(choice_region(&Choice::Output(Some("DP-2".to_string())), &outs), Some((1920, 0, 2560, 1440)));
    assert_eq!(choice_region(&Choice::Output(Some("HDMI-9".to_string())), &outs), None);
    assert_eq!(choice_region(&Choice::Output(None), &outs), None);
    assert_eq!(choice_region(&Choice::Window("DP-1".to_string(), Some(0)), &outs), Some((0, 0, 1920, 1080)));
    assert_eq!(choice_region(&Choice::Window("DP-1".to_string(), None), &outs), None);
    assert_eq!(find_output(&outs, "DP-2"), Some(1));
}

#[test]
fn window_indices_recorded_at_capture_time() {
    let idx = vec![("DP-1".to_string(), vec![4, 7]), ("DP-2".to_string(), vec![])];
    assert_eq!(window_global_index(&idx, "DP-1", 1), Some(7));
    assert_eq!(window_global_index(&idx, "DP-1", 2), None);
    assert_eq!(window_global_index(&idx, "DP-2", 0), None);
    assert_eq!(window_global_index(&idx, "DP-3", 0), None);
}

#[test]
fn frame_timestamps() {
    let mut l = RecordingLoop::new();
    assert_eq!(l.next_timestamp(60), 0);
    assert!(!l.record_capture(true));
    assert!(!l.record_capture(true));
    assert!(!l.record_capture(true));
    assert_eq!(l.next_timestamp(60), 50_000_000);
    assert_eq!(l.next_timestamp(30), 100_000_000);
}

#[test]
fn ten_errors_in_a_row_stop_the_recording() {
    let mut l = RecordingLoop::new();
    for _ in 0..9 {
        assert!(!l.record_capture(false));
    }
    // A captured frame resets the run.
    assert!(!l.record_capture(true));
    assert_eq!(l.consecutive_errors, 0);
    for i in 1..=MAX_CONSECUTIVE_ERRORS {
        let stop = l.record_capture(false);
        assert_eq!(stop, i == 10);
    }
    assert_eq!(l.frame_count, 1);
}

#[test]
fn captured_frames_are_reordered_to_rgba() {
    let frame = vec![1, 2, 3, 4, 5, 6, 7, 8, 9];
    assert_eq!(abgr_to_rgba(&frame), vec![4, 3, 2, 1, 8, 7, 6, 5]);
    assert_eq!(shm_buffer_len(1920, 1080), 1920 * 1080 * 4);
    assert!(use_dmabuf_path(true, true, true));
    assert!(!use_dmabuf_path(true, false, true));
}

#[test]
fn selection_changes_clear_what_they_should() {
    let r = |l| Choice::Rectangle(Rect::new(l, 0, 10, 10), DragState::Idle);
    assert_eq!(choice_change(&r(0), &r(0)), ChoiceChange { clear_transient: false, clear_annotations: true });
    assert_eq!(choice_change(&r(0), &r(1)), ChoiceChange { clear_transient: true, clear_annotations: true });
    let dragging = Choice::Rectangle(Rect::new(0, 0, 10, 10), DragState::SE);
    assert_eq!(choice_change(&r(0), &dragging), ChoiceChange { clear_transient: true, clear_annotations: false });
    let confirmed = Choice::Output(Some("DP-1".to_string()));
    assert_eq!(choice_change(&r(0), &confirmed), ChoiceChange { clear_transient: false, clear_annotations: false });
    assert_eq!(
        choice_change(&confirmed, &Choice::Output(None)),
        ChoiceChange { clear_transient: false, clear_annotations: true }
    );
    assert_eq!(location_from_index(0, ImageSaveLocation::Pictures), ImageSaveLocation::Clipboard);
    assert_eq!(location_from_index(2, ImageSaveLocation::Pictures), ImageSaveLocation::Documents);
    assert_eq!(location_from_index(9, ImageSaveLocation::Documents), ImageSaveLocation::Documents);
}

#[test]
fn ocr_result_texts() {
    assert_eq!(ocr_result_text("  hi\n"), "hi");
    assert_eq!(ocr_result_text(" \n "), "No text detected");
    assert!(needs_fallback_overlay(true, "hi"));
    assert!(!needs_fallback_overlay(false, "hi"));
    assert!(!needs_fallback_overlay(true, "No text detected"));
    assert_eq!(stored_ocr_text("hi"), Some("hi".to_string()));
    assert_eq!(stored_ocr_text("No text detected"), None);
    assert_eq!(stored_ocr_text(""), None);
}
