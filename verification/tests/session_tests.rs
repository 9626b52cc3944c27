use snappea::cli::{
    command_for_second_launch, control_method, launch_mode, parse_record_args, record_request_complete, LaunchMode,
};
use snappea::config::{Container, ToolbarPosition};
use snappea::geometry::Rect;
use snappea::keys::{Key, Modifiers, NamedKey};
use snappea::paths::{default_custom_save_path, get_img_path, image_save_dir, join_path, recording_output_path};
use snappea::portal::{
    initial_action, screenshot_response, PortalResponse, ScreenshotOptions, ScreenshotResult, PORTAL_RESPONSE_CANCELLED,
    PORTAL_RESPONSE_OTHER, PORTAL_RESPONSE_SUCCESS,
};
use snappea::recording::{RecordingError, RecordingHandle, RecordingSlot, RecordingState};
use snappea::selection::{Action, Choice, Direction, DragState, ImageSaveLocation, SelectMsg, SessionState};
use snappea::shortcuts::{handle_key_event, ShortcutContext, ShortcutMsg};
use snappea::ui::{
    handle_tray_action, pencil_right_click_action, toolbar_menu_label, PencilState, PopupState, ToolPopupAction,
    TrayAction, TrayOutcome,
};

fn strings(v: &[&str]) -> Vec<String> {
    v.iter().map(|s| s.to_string()).collect()
}

fn session(choice: Choice, focused: usize) -> SessionState {
    SessionState {
        choice,
        action: Action::ReturnPath,
        location: ImageSaveLocation::Pictures,
        focused_output_index: focused,
        also_copy_to_clipboard: false,
        has_mouse_entered: false,
    }
}

#[test]
fn navigation_wraps_around_the_screens_and_round_trips() {
    let names = strings(&["DP-1", "DP-2", "HDMI-1"]);
    let mut s = session(Choice::Output(None), 0);
    assert!(!s.handle_select(SelectMsg::Navigate(Direction::Left), &names));
    assert_eq!(s.focused_output_index, 2);
    s.handle_select(SelectMsg::Navigate(Direction::Right), &names);
    assert_eq!(s.focused_output_index, 0);
    s.handle_select(SelectMsg::Navigate(Direction::Down), &names);
    assert_eq!(s.focused_output_index, 1);
    s.handle_select(SelectMsg::Navigate(Direction::Up), &names);
    assert_eq!(s.focused_output_index, 0);
}

#[test]
fn navigation_outside_the_picker_does_nothing() {
    let names = strings(&["DP-1", "DP-2"]);
    let mut s = session(Choice::Rectangle(Rect::default(), DragState::Idle), 1);
    s.handle_select(SelectMsg::Navigate(Direction::Right), &names);
    assert_eq!(s.focused_output_index, 1);
    let mut none = session(Choice::Output(None), 0);
    none.handle_select(SelectMsg::Navigate(Direction::Right), &Vec::new());
    assert_eq!(none.focused_output_index, 0);
}

#[test]
fn confirming_locks_in_the_highlighted_screen() {
    let names = strings(&["DP-1", "DP-2"]);
    let mut s = session(Choice::Output(None), 1);
    assert!(!s.handle_select(SelectMsg::Confirm, &names));
    match &s.choice {
        Choice::Output(Some(name)) => assert_eq!(name, "DP-2"),
        other => panic!("expected a confirmed screen, got {other:?}"),
    }
    // A dangling focus confirms nothing.
    let mut t = session(Choice::Output(None), 5);
    t.handle_select(SelectMsg::Confirm, &names);
    assert!(matches!(t.choice, Choice::Output(None)));
}

#[test]
fn region_and_screen_modes() {
    let names = strings(&["DP-1"]);
    let mut s = session(Choice::Output(Some("DP-1".to_string())), 0);
    // Switching modes asks for the transient state to be cleared.
    assert!(s.handle_select(SelectMsg::RegionMode, &names));
    match s.choice {
        Choice::Rectangle(r, d) => {
            assert_eq!(r, Rect::default());
            assert_eq!(d, DragState::Idle);
        }
        ref other => panic!("expected a rectangle, got {other:?}"),
    }
    assert!(s.handle_select(SelectMsg::ScreenMode(3), &names));
    assert!(matches!(s.choice, Choice::Output(None)));
    assert_eq!(s.focused_output_index, 3);
    assert!(s.has_mouse_entered);
}

#[test]
fn drag_state_codes_round_trip() {
    for v in 0u8..=8 {
        let d = DragState::from(v);
        assert_eq!(u8::from(d), v);
    }
    assert_eq!(DragState::from(9u8), DragState::Idle);
    assert_eq!(DragState::from(255u8), DragState::Idle);
    assert_eq!(DragState::from(1u8), DragState::NW);
    assert_eq!(u8::from(DragState::W), 8);
}

fn ctx(choice: &Choice) -> ShortcutContext {
    ShortcutContext::new(choice, false, false, false, false)
}

#[test]
fn escape_always_cancels() {
    let c = Choice::Output(None);
    let m = Modifiers::default();
    assert_eq!(handle_key_event(ctx(&c), &Key::Named(NamedKey::Escape), m, 0), Some(ShortcutMsg::Cancel));
    assert_eq!(
        handle_key_event(ctx(&c), &Key::Named(NamedKey::Escape), Modifiers::ctrl(), 0),
        Some(ShortcutMsg::Cancel)
    );
}

#[test]
fn enter_confirms_in_the_picker_and_copies_otherwise() {
    let picker = Choice::Output(None);
    let confirmed = Choice::Output(Some("DP-1".to_string()));
    let enter = Key::Named(NamedKey::Enter);
    assert_eq!(handle_key_event(ctx(&picker), &enter, Modifiers::default(), 0), Some(ShortcutMsg::Confirm));
    assert_eq!(handle_key_event(ctx(&confirmed), &enter, Modifiers::default(), 0), Some(ShortcutMsg::CopyToClipboard));
    assert_eq!(handle_key_event(ctx(&confirmed), &enter, Modifiers::ctrl(), 0), Some(ShortcutMsg::SaveToPictures));
}

#[test]
fn shortcut_table_rows() {
    let sel = Choice::Rectangle(Rect::new(0, 0, 10, 10), DragState::Idle);
    let c = |s: &str| Key::Character(s.to_string());
    let none = Modifiers::default();
    assert_eq!(
        handle_key_event(ctx(&sel), &c("h"), Modifiers::ctrl(), 0),
        Some(ShortcutMsg::ToolbarPosition(ToolbarPosition::Left))
    );
    assert_eq!(handle_key_event(ctx(&sel), &c("z"), Modifiers::ctrl(), 0), Some(ShortcutMsg::Undo));
    let ctrl_shift = Modifiers { control: true, shift: true, alt: false, logo: false };
    assert_eq!(handle_key_event(ctx(&sel), &c("z"), ctrl_shift, 0), Some(ShortcutMsg::Redo));
    assert_eq!(handle_key_event(ctx(&sel), &c("a"), none, 0), Some(ShortcutMsg::ShapeModeToggle));
    assert_eq!(handle_key_event(ctx(&sel), &c("A"), Modifiers::shift(), 0), Some(ShortcutMsg::CycleShapeTool));
    assert_eq!(handle_key_event(ctx(&sel), &c("o"), none, 0), Some(ShortcutMsg::OcrRequested));
    assert_eq!(handle_key_event(ctx(&sel), &c("s"), none, 4), Some(ShortcutMsg::ScreenMode(4)));
    assert_eq!(handle_key_event(ctx(&sel), &c("x"), none, 0), None);
}

#[test]
fn actions_need_a_selection() {
    let empty = Choice::Rectangle(Rect::default(), DragState::Idle);
    let c = |s: &str| Key::Character(s.to_string());
    assert_eq!(handle_key_event(ctx(&empty), &c("a"), Modifiers::default(), 0), None);
    assert_eq!(handle_key_event(ctx(&empty), &c("q"), Modifiers::default(), 0), None);
    // Mode switches still work without a selection.
    assert_eq!(handle_key_event(ctx(&empty), &c("r"), Modifiers::default(), 0), Some(ShortcutMsg::RegionMode));
}

#[test]
fn pencil_popup_and_drawing_mode_are_opposites() {
    let mut p = PencilState { pencil_popup_open: false, annotation_mode: true };
    p.apply_popup_action(ToolPopupAction::Toggle);
    assert!(p.pencil_popup_open);
    assert!(!p.annotation_mode);
    p.apply_popup_action(pencil_right_click_action(p.pencil_popup_open));
    assert!(!p.pencil_popup_open);
    assert!(p.annotation_mode);
    p.apply_popup_action(ToolPopupAction::Close);
    assert!(!p.pencil_popup_open);
    p.apply_popup_action(ToolPopupAction::Open);
    assert!(p.pencil_popup_open && !p.annotation_mode);
    assert_eq!(pencil_right_click_action(true), ToolPopupAction::Close);
    assert_eq!(pencil_right_click_action(false), ToolPopupAction::Open);
}

#[test]
fn close_all_popups_closes_everything() {
    let mut p = PopupState {
        shape_popup_open: true,
        redact_popup_open: true,
        magnifier_popup_open: true,
        settings_drawer_open: true,
        pencil_popup_open: true,
    };
    p.close_all_popups();
    assert_eq!(
        p,
        PopupState {
            shape_popup_open: false,
            redact_popup_open: false,
            magnifier_popup_open: false,
            settings_drawer_open: false,
            pencil_popup_open: false,
        }
    );
}

#[test]
fn tray_actions() {
    assert_eq!(handle_tray_action(TrayAction::StopRecording, true), TrayOutcome::StopRecording);
    assert_eq!(handle_tray_action(TrayAction::ToggleToolbar, true), TrayOutcome::SetToolbarVisible(false));
    assert_eq!(handle_tray_action(TrayAction::ToggleToolbar, false), TrayOutcome::SetToolbarVisible(true));
    assert_eq!(toolbar_menu_label(true), "Hide Toolbar");
    assert_eq!(toolbar_menu_label(false), "Show Toolbar");
}

#[test]
fn portal_codes_and_responses() {
    assert_eq!(PortalResponse::Success(()).code(), PORTAL_RESPONSE_SUCCESS);
    assert_eq!(PortalResponse::<()>::Cancelled.code(), PORTAL_RESPONSE_CANCELLED);
    assert_eq!(PortalResponse::<()>::Other.code(), PORTAL_RESPONSE_OTHER);
    assert_eq!((PORTAL_RESPONSE_SUCCESS, PORTAL_RESPONSE_CANCELLED, PORTAL_RESPONSE_OTHER), (0, 1, 2));
    match screenshot_response(true, Some("/home/u/a.png".to_string())) {
        PortalResponse::Success(r) => assert_eq!(r.uri, "file:////home/u/a.png"),
        other => panic!("expected success, got {other:?}"),
    }
    match screenshot_response(true, None) {
        PortalResponse::Success(r) => assert_eq!(r.uri, "clipboard:///"),
        other => panic!("expected success, got {other:?}"),
    }
    assert!(matches!(screenshot_response(false, None), PortalResponse::Other));
    assert_eq!(ScreenshotResult::new("x".to_string()).uri, "x");
}

#[test]
fn choosing_a_destination_copies_to_the_clipboard() {
    let mut o = ScreenshotOptions { modal: None, interactive: Some(true), choose_destination: None };
    assert_eq!(initial_action(&o), Action::ReturnPath);
    o.choose_destination = Some(false);
    assert_eq!(initial_action(&o), Action::ReturnPath);
    o.choose_destination = Some(true);
    assert_eq!(initial_action(&o), Action::SaveToClipboard);
}

fn state(name: &str) -> RecordingState {
    RecordingState {
        output_file: format!("/tmp/{name}.mp4"),
        region: (0, 0, 100, 100),
        output_name: "DP-1".to_string(),
        started_at: "2024-01-01T00:00:00+00:00".to_string(),
    }
}

#[test]
fn stopping_hands_back_the_recording_once() {
    let mut slot: RecordingSlot<u32> = RecordingSlot::new();
    assert!(!slot.is_recording());
    assert!(slot.get_recording_state().is_none());
    slot.set_recording(RecordingHandle { control: 7, state: state("a") });
    assert!(slot.is_recording());
    assert_eq!(slot.get_recording_state().unwrap().output_file, "/tmp/a.mp4");
    let h = slot.stop_recording().unwrap();
    assert_eq!(h.control, 7);
    assert!(!slot.is_recording());
    assert_eq!(slot.stop_recording().err(), Some(RecordingError::NoActiveRecording));
}

#[test]
fn a_new_recording_replaces_the_old_one() {
    let mut slot: RecordingSlot<u32> = RecordingSlot::new();
    slot.set_recording(RecordingHandle { control: 1, state: state("a") });
    slot.set_recording(RecordingHandle { control: 2, state: state("b") });
    assert_eq!(slot.get_recording_state().unwrap().output_file, "/tmp/b.mp4");
    assert_eq!(slot.stop_recording().unwrap().control, 2);
}

#[test]
fn cancelling_without_a_recording_is_refused() {
    let mut slot: RecordingSlot<u32> = RecordingSlot::new();
    assert_eq!(slot.cancel_recording().err(), Some(RecordingError::NoActiveRecording));
    slot.set_recording(RecordingHandle { control: 3, state: state("c") });
    assert_eq!(slot.cancel_recording().unwrap().state.output_file, "/tmp/c.mp4");
    assert!(!slot.is_recording());
}

#[test]
fn record_arguments_are_scanned() {
    let args = strings(&[
        "--output", "/tmp/x.mkv", "--output-name", "DP-1", "--region", "-5,10,640,480", "--logical-size",
        "1920,1080", "--encoder", "x264enc", "--container", "Mkv", "--framerate", "30", "--toplevel-index", "2",
        "--show-cursor", "--bogus",
    ]);
    let r = parse_record_args(&args);
    assert_eq!(r.output_file.as_deref(), Some("/tmp/x.mkv"));
    assert_eq!(r.output_name.as_deref(), Some("DP-1"));
    assert_eq!(r.region, Some((-5, 10, 640, 480)));
    assert_eq!(r.logical_size, Some((1920, 1080)));
    assert_eq!(r.encoder.as_deref(), Some("x264enc"));
    assert_eq!(r.container, Container::Mkv);
    assert_eq!(r.framerate, 30);
    assert_eq!(r.toplevel_index, Some(2));
    assert!(r.show_cursor);
    assert!(record_request_complete(&r));
}

#[test]
fn bad_record_arguments_fall_back_to_defaults() {
    let args = strings(&["--region", "1,2,3", "--framerate", "fast", "--container", "Avi", "--output"]);
    let r = parse_record_args(&args);
    assert_eq!(r.region, None);
    assert_eq!(r.framerate, 60);
    assert_eq!(r.container, Container::Mp4);
    assert_eq!(r.output_file, None);
    assert!(!record_request_complete(&r));
}

#[test]
fn launch_modes_and_control_commands() {
    assert_eq!(launch_mode(&strings(&["snappea", "--help"])), LaunchMode::Help);
    assert_eq!(launch_mode(&strings(&["snappea", "-h"])), LaunchMode::Help);
    assert_eq!(launch_mode(&strings(&["snappea", "--portal"])), LaunchMode::Portal);
    assert_eq!(launch_mode(&strings(&["snappea", "--record", "--output", "x"])), LaunchMode::Record);
    assert_eq!(launch_mode(&strings(&["snappea"])), LaunchMode::Screenshot);
    assert_eq!(launch_mode(&strings(&["snappea", "--other"])), LaunchMode::Screenshot);
    assert_eq!(command_for_second_launch(true), "toggle-recording");
    assert_eq!(command_for_second_launch(false), "screenshot");
    assert_eq!(control_method("screenshot"), "TakeScreenshot");
    assert_eq!(control_method("toggle-recording"), "ToggleRecording");
    assert_eq!(control_method("quit"), "Quit");
    assert_eq!(control_method("nonsense"), "TakeScreenshot");
}

#[test]
fn paths_are_joined_as_pathbuf_does() {
    assert_eq!(join_path("/home/u", "Pictures"), "/home/u/Pictures");
    assert_eq!(join_path("/home/u/", "Pictures"), "/home/u/Pictures");
    assert_eq!(join_path("", "a.png"), "a.png");
    assert_eq!(join_path("/home/u", "/etc"), "/etc");
}

#[test]
fn screenshot_folders_fall_back_to_the_home_folder() {
    let pics = Some("/p".to_string());
    let home = Some("/home/u".to_string());
    assert_eq!(image_save_dir(ImageSaveLocation::Pictures, pics.clone(), None, home.clone()), Some("/p".to_string()));
    assert_eq!(
        image_save_dir(ImageSaveLocation::Documents, pics.clone(), None, home.clone()),
        Some("/home/u/Documents".to_string())
    );
    assert_eq!(image_save_dir(ImageSaveLocation::Clipboard, pics.clone(), None, home.clone()), None);
    assert_eq!(image_save_dir(ImageSaveLocation::Pictures, None, None, None), None);
    assert_eq!(
        get_img_path(ImageSaveLocation::Pictures, None, None, home, "2024-05-06_07-08-09"),
        Some("/home/u/Pictures/Screenshot_2024-05-06_07-08-09.png".to_string())
    );
}

#[test]
fn recordings_go_to_the_videos_folder() {
    assert_eq!(
        recording_output_path(Some("/v".to_string()), Some("/h".to_string()), "T", Container::Webm),
        "/v/recording-T.webm"
    );
    assert_eq!(recording_output_path(None, Some("/h".to_string()), "T", Container::Mp4), "/h/recording-T.mp4");
    assert_eq!(recording_output_path(None, None, "T", Container::Mkv), "./recording-T.mkv");
    assert_eq!(default_custom_save_path(None), ".");
    assert_eq!(default_custom_save_path(Some("/p".to_string())), "/p");
}
