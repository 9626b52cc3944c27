//! Toolbar popups, the pencil popup during recording, settings tabs and the
//! tray menu: the small state machines behind the overlay's controls.
use vstd::prelude::*;

verus! {

/// Tool popup actions.
#[derive(Debug, Clone, Copy, PartialEq, Eq, Structural)]
pub enum ToolPopupAction {
    /// Toggle popup visibility
    Toggle,
    /// Open popup
    Open,
    /// Close popup
    Close,
}

/// Whether a popup is open after `action`, given whether it was open.
pub open spec fn popup_open_after(open: bool, action: ToolPopupAction) -> bool {
    match action {
        ToolPopupAction::Toggle => !open,
        ToolPopupAction::Open => true,
        ToolPopupAction::Close => false,
    }
}

/// The pencil tool while recording: its config popup and whether strokes are
/// being drawn.
#[derive(Debug, Clone, Copy, PartialEq, Eq, Structural)]
pub struct PencilState {
    /// Whether the pencil config popup is open
    pub pencil_popup_open: bool,
    /// Whether annotation (drawing) mode is active
    pub annotation_mode: bool,
}

impl PencilState {
    /// Apply a popup action. Opening the popup turns drawing off (no
    /// accidental strokes under the popup); closing it turns drawing on, ready
    /// to draw.
    pub fn apply_popup_action(&mut self, action: ToolPopupAction)
        ensures
            final(self).pencil_popup_open == popup_open_after(old(self).pencil_popup_open, action),
            final(self).annotation_mode == !final(self).pencil_popup_open,
    {
        let open = match action {
            ToolPopupAction::Toggle => !self.pencil_popup_open,
            ToolPopupAction::Open => true,
            ToolPopupAction::Close => false,
        };
        self.pencil_popup_open = open;
        self.annotation_mode = !open;
    }
}

/// A right click on the pencil button closes its popup when open and opens
/// it otherwise.
pub fn pencil_right_click_action(popup_open: bool) -> (a: ToolPopupAction)
    ensures
        a == (if popup_open {
            ToolPopupAction::Close
        } else {
            ToolPopupAction::Open
        }),
{
    if popup_open {
        ToolPopupAction::Close
    } else {
        ToolPopupAction::Open
    }
}

/// Law: a right click on the pencil button acts as a toggle of its popup,
/// and toggling twice restores the popup's state.
pub proof fn law_pencil_popup_toggle(open: bool)
    ensures
        popup_open_after(
            open,
            if open {
                ToolPopupAction::Close
            } else {
                ToolPopupAction::Open
            },
        ) == popup_open_after(open, ToolPopupAction::Toggle),
        popup_open_after(popup_open_after(open, ToolPopupAction::Toggle), ToolPopupAction::Toggle)
            == open,
{
}

/// The overlay's popups and settings drawer.
#[derive(Debug, Clone, Copy, PartialEq, Eq, Structural)]
pub struct PopupState {
    pub shape_popup_open: bool,
    pub redact_popup_open: bool,
    /// Magnifier annotation tool: whether its config popup is open
    pub magnifier_popup_open: bool,
    pub settings_drawer_open: bool,
    /// Whether pencil popup is open during recording
    pub pencil_popup_open: bool,
}

impl PopupState {
    /// Close every popup and the settings drawer.
    pub fn close_all_popups(&mut self)
        ensures
            !final(self).shape_popup_open,
            !final(self).redact_popup_open,
            !final(self).magnifier_popup_open,
            !final(self).settings_drawer_open,
            !final(self).pencil_popup_open,
    {
        self.shape_popup_open = false;
        self.redact_popup_open = false;
        self.magnifier_popup_open = false;
        self.settings_drawer_open = false;
        self.pencil_popup_open = false;
    }
}

/// The tabs of the settings drawer.
#[derive(Clone, Copy, Debug, PartialEq, Eq, Structural)]
pub enum SettingsTab {
    General,
    Picture,
    Video,
}

/// Actions that can be triggered from the tray menu.
#[derive(Debug, Clone, Copy, PartialEq, Eq, Structural)]
pub enum TrayAction {
    /// Stop the current recording
    StopRecording,
    /// Toggle toolbar visibility
    ToggleToolbar,
}

/// What the application does on a tray action.
#[derive(Debug, Clone, Copy, PartialEq, Eq, Structural)]
pub enum TrayOutcome {
    /// Shut the tray down and stop the recording.
    StopRecording,
    /// Show or hide the recording toolbar (the new visibility).
    SetToolbarVisible(bool),
}

/// Decide what a tray action does, given whether the toolbar is visible.
pub fn handle_tray_action(action: TrayAction, toolbar_visible: bool) -> (o: TrayOutcome)
    ensures
        o == match action {
            TrayAction::StopRecording => TrayOutcome::StopRecording,
            TrayAction::ToggleToolbar => TrayOutcome::SetToolbarVisible(!toolbar_visible),
        },
{
    match action {
        TrayAction::StopRecording => TrayOutcome::StopRecording,
        TrayAction::ToggleToolbar => TrayOutcome::SetToolbarVisible(!toolbar_visible),
    }
}

/// The label of the tray's toolbar item: it offers the opposite of the
/// toolbar's current visibility.
pub open spec fn spec_toolbar_menu_label(toolbar_visible: bool) -> Seq<char> {
    if toolbar_visible {
        "Hide Toolbar"@
    } else {
        "Show Toolbar"@
    }
}

/// The label of the tray's toolbar item.
pub fn toolbar_menu_label(toolbar_visible: bool) -> (s: &'static str)
    ensures
        s@ == spec_toolbar_menu_label(toolbar_visible),
{
    if toolbar_visible {
        "Hide Toolbar"
    } else {
        "Show Toolbar"
    }
}

} // verus!
