//! Keyboard shortcuts of the capture screen: which message a key press
//! sends, given the state of the session.
use vstd::prelude::*;
use crate::config::ToolbarPosition;
use crate::keys::{is_single_char, Key, KeyView, Modifiers, NamedKey};
use crate::selection::{choice_measurable, spec_has_selection, spec_in_screen_picker, Choice};

verus! {

/// What the shortcuts depend on in the session.
#[derive(Debug, Clone, Copy, PartialEq, Eq, Structural)]
pub struct ShortcutContext {
    /// A complete selection exists (a non-empty rectangle or a confirmed screen)
    pub has_selection: bool,
    pub arrow_mode: bool,
    pub redact_mode: bool,
    /// The screen picker is open (no screen confirmed yet)
    pub in_screen_picker: bool,
    /// OCR has produced text
    pub has_ocr_result: bool,
    /// QR codes were found
    pub has_qr_result: bool,
}

impl ShortcutContext {
    /// The shortcut context of a session.
    pub fn new(
        choice: &Choice,
        arrow_mode: bool,
        redact_mode: bool,
        has_ocr_result: bool,
        has_qr_result: bool,
    ) -> (c: ShortcutContext)
        requires
            choice_measurable(*choice),
        ensures
            c.has_selection == spec_has_selection(*choice),
            c.in_screen_picker == spec_in_screen_picker(*choice),
            c.arrow_mode == arrow_mode,
            c.redact_mode == redact_mode,
            c.has_ocr_result == has_ocr_result,
            c.has_qr_result == has_qr_result,
    {
        ShortcutContext {
            has_selection: choice.has_selection(),
            arrow_mode,
            redact_mode,
            in_screen_picker: choice.in_screen_picker(),
            has_ocr_result,
            has_qr_result,
        }
    }
}

/// The messages a shortcut sends.
#[derive(Debug, Clone, Copy, PartialEq, Eq, Structural)]
pub enum ShortcutMsg {
    ToolbarPosition(ToolbarPosition),
    Undo,
    Redo,
    SaveToPictures,
    Cancel,
    Confirm,
    CopyToClipboard,
    NavigateLeft,
    NavigateRight,
    CycleShapeTool,
    ShapeModeToggle,
    CycleRedactTool,
    RedactToolModeToggle,
    OcrCopyAndClose,
    OcrRequested,
    QrCopyAndClose,
    QrRequested,
    RecordRegion,
    RegionMode,
    /// Screen mode on the screen where the key was pressed
    ScreenMode(usize),
}

/// The key is the one-character string `c`.
pub open spec fn is_char(k: KeyView, c: char) -> bool {
    k == KeyView::Character(seq![c])
}

/// The key is the named key `n`.
pub open spec fn is_named(k: KeyView, n: NamedKey) -> bool {
    k == KeyView::Named(n)
}

/// The shortcut table, first matching row first.
pub open spec fn spec_shortcut(ctx: ShortcutContext, k: KeyView, m: Modifiers, current_output_index: usize) -> Option<ShortcutMsg> {
    let ctrl = m.control;
    let shift = m.shift;
    let picker = ctx.in_screen_picker;
    let sel = ctx.has_selection;
    if (is_char(k, 'h') && ctrl) || (is_named(k, NamedKey::ArrowLeft) && ctrl) {
        Some(ShortcutMsg::ToolbarPosition(ToolbarPosition::Left))
    } else if (is_char(k, 'j') && ctrl) || (is_named(k, NamedKey::ArrowDown) && ctrl) {
        Some(ShortcutMsg::ToolbarPosition(ToolbarPosition::Bottom))
    } else if (is_char(k, 'k') && ctrl) || (is_named(k, NamedKey::ArrowUp) && ctrl) {
        Some(ShortcutMsg::ToolbarPosition(ToolbarPosition::Top))
    } else if (is_char(k, 'l') && ctrl) || (is_named(k, NamedKey::ArrowRight) && ctrl) {
        Some(ShortcutMsg::ToolbarPosition(ToolbarPosition::Right))
    } else if is_char(k, 'z') && ctrl && !shift {
        Some(ShortcutMsg::Undo)
    } else if (is_char(k, 'y') && ctrl) || (is_char(k, 'z') && ctrl && shift) {
        Some(ShortcutMsg::Redo)
    } else if is_named(k, NamedKey::Enter) && ctrl {
        Some(ShortcutMsg::SaveToPictures)
    } else if is_named(k, NamedKey::Escape) {
        Some(ShortcutMsg::Cancel)
    } else if (is_named(k, NamedKey::Space) || is_named(k, NamedKey::Enter)) && picker {
        Some(ShortcutMsg::Confirm)
    } else if is_named(k, NamedKey::Enter) {
        Some(ShortcutMsg::CopyToClipboard)
    } else if (is_char(k, 'h') || is_named(k, NamedKey::ArrowLeft)) && picker {
        Some(ShortcutMsg::NavigateLeft)
    } else if (is_char(k, 'l') || is_named(k, NamedKey::ArrowRight)) && picker {
        Some(ShortcutMsg::NavigateRight)
    } else if (is_char(k, 'a') || is_char(k, 'A')) && shift && sel {
        Some(ShortcutMsg::CycleShapeTool)
    } else if is_char(k, 'a') && sel {
        Some(ShortcutMsg::ShapeModeToggle)
    } else if is_char(k, 'D') && shift && sel {
        Some(ShortcutMsg::CycleRedactTool)
    } else if is_char(k, 'd') && sel {
        Some(ShortcutMsg::RedactToolModeToggle)
    } else if is_char(k, 'o') && ctx.has_ocr_result {
        Some(ShortcutMsg::OcrCopyAndClose)
    } else if is_char(k, 'o') && sel {
        Some(ShortcutMsg::OcrRequested)
    } else if is_char(k, 'q') && ctx.has_qr_result {
        Some(ShortcutMsg::QrCopyAndClose)
    } else if is_char(k, 'q') && sel {
        Some(ShortcutMsg::QrRequested)
    } else if is_char(k, 'R') && shift && sel {
        Some(ShortcutMsg::RecordRegion)
    } else if is_char(k, 'r') && !ctx.arrow_mode && !ctx.redact_mode {
        Some(ShortcutMsg::RegionMode)
    } else if is_char(k, 's') && !ctx.arrow_mode && !ctx.redact_mode {
        Some(ShortcutMsg::ScreenMode(current_output_index))
    } else {
        None
    }
}

/// Whether the key is the one-character string `c`.
fn key_is_char(key: &Key, c: char) -> (b: bool)
    ensures
        b == is_char(key@, c),
{
    match key {
        Key::Character(s) => is_single_char(s.as_str(), c),
        _ => false,
    }
}

/// Whether the key is the named key `n`.
fn key_is_named(key: &Key, n: NamedKey) -> (b: bool)
    ensures
        b == is_named(key@, n),
{
    match key {
        Key::Named(k) => *k == n,
        _ => false,
    }
}

/// The message a key press sends on the capture screen, if any.
pub fn handle_key_event(ctx: ShortcutContext, key: &Key, modifiers: Modifiers, current_output_index: usize) -> (r:
    Option<ShortcutMsg>)
    ensures
        r == spec_shortcut(ctx, key@, modifiers, current_output_index),
{
    let ctrl = modifiers.control;
    let shift = modifiers.shift;
    let picker = ctx.in_screen_picker;
    let sel = ctx.has_selection;
    if (key_is_char(key, 'h') && ctrl) || (key_is_named(key, NamedKey::ArrowLeft) && ctrl) {
        Some(ShortcutMsg::ToolbarPosition(ToolbarPosition::Left))
    } else if (key_is_char(key, 'j') && ctrl) || (key_is_named(key, NamedKey::ArrowDown) && ctrl) {
        Some(ShortcutMsg::ToolbarPosition(ToolbarPosition::Bottom))
    } else if (key_is_char(key, 'k') && ctrl) || (key_is_named(key, NamedKey::ArrowUp) && ctrl) {
        Some(ShortcutMsg::ToolbarPosition(ToolbarPosition::Top))
    } else if (key_is_char(key, 'l') && ctrl) || (key_is_named(key, NamedKey::ArrowRight) && ctrl) {
        Some(ShortcutMsg::ToolbarPosition(ToolbarPosition::Right))
    } else if key_is_char(key, 'z') && ctrl && !shift {
        Some(ShortcutMsg::Undo)
    } else if (key_is_char(key, 'y') && ctrl) || (key_is_char(key, 'z') && ctrl && shift) {
        Some(ShortcutMsg::Redo)
    } else if key_is_named(key, NamedKey::Enter) && ctrl {
        Some(ShortcutMsg::SaveToPictures)
    } else if key_is_named(key, NamedKey::Escape) {
        Some(ShortcutMsg::Cancel)
    } else if (key_is_named(key, NamedKey::Space) || key_is_named(key, NamedKey::Enter)) && picker {
        Some(ShortcutMsg::Confirm)
    } else if key_is_named(key, NamedKey::Enter) {
        Some(ShortcutMsg::CopyToClipboard)
    } else if (key_is_char(key, 'h') || key_is_named(key, NamedKey::ArrowLeft)) && picker {
        Some(ShortcutMsg::NavigateLeft)
    } else if (key_is_char(key, 'l') || key_is_named(key, NamedKey::ArrowRight)) && picker {
        Some(ShortcutMsg::NavigateRight)
    } else if (key_is_char(key, 'a') || key_is_char(key, 'A')) && shift && sel {
        Some(ShortcutMsg::CycleShapeTool)
    } else if key_is_char(key, 'a') && sel {
        Some(ShortcutMsg::ShapeModeToggle)
    } else if key_is_char(key, 'D') && shift && sel {
        Some(ShortcutMsg::CycleRedactTool)
    } else if key_is_char(key, 'd') && sel {
        Some(ShortcutMsg::RedactToolModeToggle)
    } else if key_is_char(key, 'o') && ctx.has_ocr_result {
        Some(ShortcutMsg::OcrCopyAndClose)
    } else if key_is_char(key, 'o') && sel {
        Some(ShortcutMsg::OcrRequested)
    } else if key_is_char(key, 'q') && ctx.has_qr_result {
        Some(ShortcutMsg::QrCopyAndClose)
    } else if key_is_char(key, 'q') && sel {
        Some(ShortcutMsg::QrRequested)
    } else if key_is_char(key, 'R') && shift && sel {
        Some(ShortcutMsg::RecordRegion)
    } else if key_is_char(key, 'r') && !ctx.arrow_mode && !ctx.redact_mode {
        Some(ShortcutMsg::RegionMode)
    } else if key_is_char(key, 's') && !ctx.arrow_mode && !ctx.redact_mode {
        Some(ShortcutMsg::ScreenMode(current_output_index))
    } else {
        None
    }
}

/// Law: Escape always cancels, whatever the session state and the
/// modifiers held.
pub proof fn law_escape_cancels(ctx: ShortcutContext, m: Modifiers, idx: usize)
    ensures
        spec_shortcut(ctx, KeyView::Named(NamedKey::Escape), m, idx) == Some(ShortcutMsg::Cancel),
{
}

/// Law: without a complete selection, no annotation, OCR, QR or recording
/// shortcut starts a new action.
pub proof fn law_actions_need_selection(ctx: ShortcutContext, k: KeyView, m: Modifiers, idx: usize)
    requires
        !ctx.has_selection,
    ensures
        spec_shortcut(ctx, k, m, idx) != Some(ShortcutMsg::CycleShapeTool),
        spec_shortcut(ctx, k, m, idx) != Some(ShortcutMsg::ShapeModeToggle),
        spec_shortcut(ctx, k, m, idx) != Some(ShortcutMsg::CycleRedactTool),
        spec_shortcut(ctx, k, m, idx) != Some(ShortcutMsg::RedactToolModeToggle),
        spec_shortcut(ctx, k, m, idx) != Some(ShortcutMsg::OcrRequested),
        spec_shortcut(ctx, k, m, idx) != Some(ShortcutMsg::QrRequested),
        spec_shortcut(ctx, k, m, idx) != Some(ShortcutMsg::RecordRegion),
{
}

/// Law: screen navigation and confirmation happen only in the screen picker.
pub proof fn law_navigation_only_in_picker(ctx: ShortcutContext, k: KeyView, m: Modifiers, idx: usize)
    requires
        !ctx.in_screen_picker,
    ensures
        spec_shortcut(ctx, k, m, idx) != Some(ShortcutMsg::NavigateLeft),
        spec_shortcut(ctx, k, m, idx) != Some(ShortcutMsg::NavigateRight),
        spec_shortcut(ctx, k, m, idx) != Some(ShortcutMsg::Confirm),
{
}

/// Law: in every session state, Ctrl+Y (with or without Shift) and
/// Ctrl+Shift+Z redo and Ctrl+Z undoes; and only those keys undo or redo:
/// undo is Ctrl+Z without Shift, redo is Ctrl+Y or Ctrl+Shift+Z.
pub proof fn law_undo_redo_keys(ctx: ShortcutContext, k: KeyView, m: Modifiers, idx: usize)
    ensures
        m.control ==> spec_shortcut(ctx, KeyView::Character(seq!['y']), m, idx) == Some(
            ShortcutMsg::Redo,
        ),
        (m.control && m.shift) ==> spec_shortcut(ctx, KeyView::Character(seq!['z']), m, idx) == Some(
            ShortcutMsg::Redo,
        ),
        (m.control && !m.shift) ==> spec_shortcut(ctx, KeyView::Character(seq!['z']), m, idx) == Some(
            ShortcutMsg::Undo,
        ),
        spec_shortcut(ctx, k, m, idx) == Some(ShortcutMsg::Undo) ==> k == KeyView::Character(seq!['z'])
            && m.control && !m.shift,
        spec_shortcut(ctx, k, m, idx) == Some(ShortcutMsg::Redo) ==> m.control && (k
            == KeyView::Character(seq!['y']) || (k == KeyView::Character(seq!['z']) && m.shift)),
{
    let y = seq!['y'];
    let z = seq!['z'];
    assert(y[0] == 'y' && z[0] == 'z');
    assert(y != seq!['h'] && y != seq!['j'] && y != seq!['k'] && y != seq!['l'] && y != z) by {
        assert(seq!['h'][0] == 'h' && seq!['j'][0] == 'j' && seq!['k'][0] == 'k' && seq!['l'][0] == 'l');
    }
    assert(z != seq!['h'] && z != seq!['j'] && z != seq!['k'] && z != seq!['l']) by {
        assert(seq!['h'][0] == 'h' && seq!['j'][0] == 'j' && seq!['k'][0] == 'k' && seq!['l'][0] == 'l');
    }
}

} // verus!
