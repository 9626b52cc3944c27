//! Selection state of a capture session: what is selected (a rectangle, a
//! screen, a window), and how keyboard navigation moves between screens.
use vstd::prelude::*;
use crate::geometry::{fits_i32, Rect};

verus! {

/// Drag state for rectangle selection handles.
#[derive(Debug, Clone, Copy, PartialEq, Eq, Structural)]
pub enum DragState {
    /// No handle is being dragged
    Idle,
    /// North-West corner
    NW,
    /// North edge
    N,
    /// North-East corner
    NE,
    /// East edge
    E,
    /// South-East corner
    SE,
    /// South edge
    S,
    /// South-West corner
    SW,
    /// West edge
    W,
}

impl Default for DragState {
    fn default() -> (r: DragState)
        ensures
            r == DragState::Idle,
    {
        DragState::Idle
    }
}

/// The code of each drag state.
pub open spec fn spec_drag_code(d: DragState) -> u8 {
    match d {
        DragState::Idle => 0,
        DragState::NW => 1,
        DragState::N => 2,
        DragState::NE => 3,
        DragState::E => 4,
        DragState::SE => 5,
        DragState::S => 6,
        DragState::SW => 7,
        DragState::W => 8,
    }
}

/// The drag state of each code; unknown codes mean no drag.
pub open spec fn spec_drag_of_code(v: u8) -> DragState {
    if v == 1 {
        DragState::NW
    } else if v == 2 {
        DragState::N
    } else if v == 3 {
        DragState::NE
    } else if v == 4 {
        DragState::E
    } else if v == 5 {
        DragState::SE
    } else if v == 6 {
        DragState::S
    } else if v == 7 {
        DragState::SW
    } else if v == 8 {
        DragState::W
    } else {
        DragState::Idle
    }
}

impl DragState {
    /// Decode a drag state; codes above 8 mean no drag.
    pub fn from_u8(state: u8) -> (d: DragState)
        ensures
            d == spec_drag_of_code(state),
    {
        match state {
            0 => DragState::Idle,
            1 => DragState::NW,
            2 => DragState::N,
            3 => DragState::NE,
            4 => DragState::E,
            5 => DragState::SE,
            6 => DragState::S,
            7 => DragState::SW,
            8 => DragState::W,
            _ => DragState::Idle,
        }
    }

    /// Encode a drag state.
    pub fn to_u8(self) -> (v: u8)
        ensures
            v == spec_drag_code(self),
    {
        match self {
            DragState::Idle => 0,
            DragState::NW => 1,
            DragState::N => 2,
            DragState::NE => 3,
            DragState::E => 4,
            DragState::SE => 5,
            DragState::S => 6,
            DragState::SW => 7,
            DragState::W => 8,
        }
    }
}

impl From<u8> for DragState {
    fn from(state: u8) -> (d: DragState) {
        DragState::from_u8(state)
    }
}

impl vstd::std_specs::convert::FromSpecImpl<u8> for DragState {
    open spec fn obeys_from_spec() -> bool {
        true
    }

    open spec fn from_spec(v: u8) -> DragState {
        spec_drag_of_code(v)
    }
}

impl From<DragState> for u8 {
    fn from(state: DragState) -> (v: u8) {
        state.to_u8()
    }
}

impl vstd::std_specs::convert::FromSpecImpl<DragState> for u8 {
    open spec fn obeys_from_spec() -> bool {
        true
    }

    open spec fn from_spec(v: DragState) -> u8 {
        spec_drag_code(v)
    }
}

/// Law: decoding an encoded drag state gives it back, and codes 0 to 8 are
/// exactly the encodings.
pub proof fn law_drag_code_round_trip(d: DragState, v: u8)
    ensures
        spec_drag_of_code(spec_drag_code(d)) == d,
        v <= 8 ==> spec_drag_code(spec_drag_of_code(v)) == v,
        v > 8 ==> spec_drag_of_code(v) == DragState::Idle,
{
}

/// Selection mode choice.
#[derive(Debug, Clone)]
pub enum Choice {
    /// Output selection: None = picker mode (selecting), Some = confirmed (screen locked in)
    Output(Option<String>),
    /// Rectangle selection with current rect and drag state
    Rectangle(Rect, DragState),
    /// Window selection: output name and optional window index
    Window(String, Option<usize>),
}

/// Action to perform after screenshot capture.
#[derive(Debug, Clone, Copy, PartialEq, Eq, Structural)]
pub enum Action {
    /// Return the path to the screenshot file (portal default)
    ReturnPath,
    /// Save to clipboard
    SaveToClipboard,
}

impl Default for Action {
    fn default() -> (r: Action)
        ensures
            r == Action::ReturnPath,
    {
        Action::ReturnPath
    }
}

/// Where to save the screenshot image.
#[derive(Debug, Clone, Copy, PartialEq, Eq, Structural)]
pub enum ImageSaveLocation {
    /// Copy to clipboard only
    Clipboard,
    /// Save to Pictures folder
    Pictures,
    /// Save to Documents folder
    Documents,
}

impl Default for ImageSaveLocation {
    fn default() -> (r: ImageSaveLocation)
        ensures
            r == ImageSaveLocation::Pictures,
    {
        ImageSaveLocation::Pictures
    }
}

/// Whether the choice is the screen picker (no screen confirmed yet).
pub open spec fn spec_in_screen_picker(c: Choice) -> bool {
    c matches Choice::Output(None)
}

/// Whether a choice is a complete selection: a rectangle with non-zero
/// width and height, or a confirmed screen.
pub open spec fn spec_has_selection(c: Choice) -> bool {
    match c {
        Choice::Rectangle(r, _) => r.spec_width() != 0 && r.spec_height() != 0,
        Choice::Output(o) => o is Some,
        Choice::Window(_, _) => false,
    }
}

/// A choice whose rectangle (if any) has a width and height that fit an `i32`.
pub open spec fn choice_measurable(c: Choice) -> bool {
    c matches Choice::Rectangle(r, _) ==> fits_i32(r.spec_width()) && fits_i32(r.spec_height())
}

impl Choice {
    /// Whether this is the screen picker.
    pub fn in_screen_picker(&self) -> (b: bool)
        ensures
            b == spec_in_screen_picker(*self),
    {
        match self {
            Choice::Output(None) => true,
            _ => false,
        }
    }

    /// Whether this is a complete selection (only a confirmed screen counts
    /// among screens).
    pub fn has_selection(&self) -> (b: bool)
        requires
            choice_measurable(*self),
        ensures
            b == spec_has_selection(*self),
    {
        match self {
            Choice::Rectangle(r, _) => r.dimensions().is_some(),
            Choice::Output(Some(_)) => true,
            _ => false,
        }
    }
}

/// The selection part of a capture session.
#[derive(Debug, Clone)]
pub struct SessionState {
    pub choice: Choice,
    pub action: Action,
    pub location: ImageSaveLocation,
    pub focused_output_index: usize,
    pub also_copy_to_clipboard: bool,
    /// Whether the mouse has entered any output yet (used to avoid showing wrong initial highlight)
    pub has_mouse_entered: bool,
}

/// The focused screen after moving left among `count` screens (wrapping).
pub open spec fn spec_left(i: int, count: int) -> int {
    if i == 0 {
        count - 1
    } else {
        i - 1
    }
}

/// The focused screen after moving right among `count` screens (wrapping).
pub open spec fn spec_right(i: int, count: int) -> int {
    (i + 1) % count
}

impl SessionState {
    /// Switch to rectangle selection with a fresh, empty rectangle.
    pub fn select_region_mode(&mut self)
        ensures
            final(self).choice == Choice::Rectangle(
                Rect { left: 0, top: 0, right: 0, bottom: 0 },
                DragState::Idle,
            ),
            final(self).focused_output_index == old(self).focused_output_index,
            final(self).has_mouse_entered == old(self).has_mouse_entered,
            final(self).action == old(self).action,
            final(self).location == old(self).location,
            final(self).also_copy_to_clipboard == old(self).also_copy_to_clipboard,
    {
        self.choice = Choice::Rectangle(Rect::default(), DragState::default());
    }

    /// Open the screen picker with the screen `output_index` highlighted
    /// (the screen where the request was made, so the mouse counts as entered).
    pub fn select_screen_mode(&mut self, output_index: usize)
        ensures
            final(self).choice == Choice::Output(None),
            final(self).focused_output_index == output_index,
            final(self).has_mouse_entered,
            final(self).action == old(self).action,
            final(self).location == old(self).location,
            final(self).also_copy_to_clipboard == old(self).also_copy_to_clipboard,
    {
        self.choice = Choice::Output(None);
        self.focused_output_index = output_index;
        self.has_mouse_entered = true;
    }

    /// In the screen picker, highlight the previous screen (wrapping);
    /// otherwise nothing changes.
    pub fn navigate_left(&mut self, output_count: usize)
        ensures
            final(self).action == old(self).action,
            final(self).location == old(self).location,
            final(self).also_copy_to_clipboard == old(self).also_copy_to_clipboard,
            final(self).choice == old(self).choice,
            (output_count > 0 && spec_in_screen_picker(old(self).choice)) ==> final(self).focused_output_index == spec_left(
                old(self).focused_output_index as int,
                output_count as int,
            ),
            !(output_count > 0 && spec_in_screen_picker(old(self).choice))
                ==> final(self).focused_output_index == old(self).focused_output_index,
            final(self).has_mouse_entered == old(self).has_mouse_entered,
    {
        if output_count > 0 && self.choice.in_screen_picker() {
            self.focused_output_index = if self.focused_output_index == 0 {
                output_count - 1
            } else {
                self.focused_output_index - 1
            };
        }
    }

    /// In the screen picker, highlight the next screen (wrapping); otherwise
    /// nothing changes.
    pub fn navigate_right(&mut self, output_count: usize)
        requires
            old(self).focused_output_index < usize::MAX,
        ensures
            final(self).action == old(self).action,
            final(self).location == old(self).location,
            final(self).also_copy_to_clipboard == old(self).also_copy_to_clipboard,
            final(self).choice == old(self).choice,
            (output_count > 0 && spec_in_screen_picker(old(self).choice)) ==> final(self).focused_output_index == spec_right(
                old(self).focused_output_index as int,
                output_count as int,
            ),
            !(output_count > 0 && spec_in_screen_picker(old(self).choice))
                ==> final(self).focused_output_index == old(self).focused_output_index,
            final(self).has_mouse_entered == old(self).has_mouse_entered,
    {
        if output_count > 0 && self.choice.in_screen_picker() {
            self.focused_output_index = (self.focused_output_index + 1) % output_count;
        }
    }

    /// In the screen picker, confirm the highlighted screen (if it exists),
    /// locking in its name; otherwise nothing changes.
    pub fn confirm_selection(&mut self, output_names: &Vec<String>)
        ensures
            final(self).action == old(self).action,
            final(self).location == old(self).location,
            final(self).also_copy_to_clipboard == old(self).also_copy_to_clipboard,
            (spec_in_screen_picker(old(self).choice) && old(self).focused_output_index
                < output_names@.len()) ==> (final(self).choice matches Choice::Output(Some(name))
                && name@ == output_names@[old(self).focused_output_index as int]@),
            !(spec_in_screen_picker(old(self).choice) && old(self).focused_output_index
                < output_names@.len()) ==> final(self).choice == old(self).choice,
            final(self).focused_output_index == old(self).focused_output_index,
            final(self).has_mouse_entered == old(self).has_mouse_entered,
    {
        if self.choice.in_screen_picker() && self.focused_output_index < output_names.len() {
            let name = output_names[self.focused_output_index].clone();
            self.choice = Choice::Output(Some(name));
        }
    }
}

/// Navigation direction for keyboard navigation.
#[derive(Debug, Clone, Copy, PartialEq, Eq, Structural)]
pub enum Direction {
    Left,
    Right,
    Up,
    Down,
}

/// Selection mode and navigation messages.
#[derive(Debug, Clone, Copy, PartialEq, Eq, Structural)]
pub enum SelectMsg {
    /// Switch to rectangle selection mode
    RegionMode,
    /// Select screen at index
    ScreenMode(usize),
    /// Navigate in direction
    Navigate(Direction),
    /// Confirm current selection
    Confirm,
}

/// Up moves like Left and Down like Right.
pub open spec fn moves_back(d: Direction) -> bool {
    d == Direction::Left || d == Direction::Up
}

impl SessionState {
    /// Apply a selection message; `output_names` are the screens, in order.
    /// Returns whether the transient state (the annotations, the recognized
    /// text and QR codes, and the popups) is to be cleared: switching to
    /// region selection or to the screen picker clears it.
    pub fn handle_select(&mut self, msg: SelectMsg, output_names: &Vec<String>) -> (clear_transient: bool)
        requires
            old(self).focused_output_index < usize::MAX,
        ensures
            clear_transient == (msg == SelectMsg::RegionMode || msg is ScreenMode),
            final(self).action == old(self).action,
            final(self).location == old(self).location,
            final(self).also_copy_to_clipboard == old(self).also_copy_to_clipboard,
            msg == SelectMsg::RegionMode ==> {
                &&& final(self).choice == Choice::Rectangle(
                    Rect { left: 0, top: 0, right: 0, bottom: 0 },
                    DragState::Idle,
                )
                &&& final(self).focused_output_index == old(self).focused_output_index
                &&& final(self).has_mouse_entered == old(self).has_mouse_entered
            },
            msg matches SelectMsg::ScreenMode(i) ==> {
                &&& final(self).choice == Choice::Output(None)
                &&& final(self).focused_output_index == i
                &&& final(self).has_mouse_entered
            },
            msg matches SelectMsg::Navigate(d) ==> {
                let count = output_names@.len() as int;
                let old_focus = old(self).focused_output_index as int;
                &&& final(self).choice == old(self).choice
                &&& final(self).has_mouse_entered == old(self).has_mouse_entered
                &&& final(self).focused_output_index == if count > 0 && spec_in_screen_picker(
                    old(self).choice,
                ) {
                    if moves_back(d) {
                        spec_left(old_focus, count)
                    } else {
                        spec_right(old_focus, count)
                    }
                } else {
                    old_focus
                }
            },
            msg == SelectMsg::Confirm ==> {
                &&& (spec_in_screen_picker(old(self).choice) && old(self).focused_output_index
                    < output_names@.len()) ==> (final(self).choice matches Choice::Output(Some(name))
                    && name@ == output_names@[old(self).focused_output_index as int]@)
                &&& !(spec_in_screen_picker(old(self).choice) && old(self).focused_output_index
                    < output_names@.len()) ==> final(self).choice == old(self).choice
                &&& final(self).focused_output_index == old(self).focused_output_index
                &&& final(self).has_mouse_entered == old(self).has_mouse_entered
            },
    {
        match msg {
            SelectMsg::RegionMode => {
                self.select_region_mode();
                true
            },
            SelectMsg::ScreenMode(i) => {
                self.select_screen_mode(i);
                true
            },
            SelectMsg::Navigate(d) => {
                match d {
                    Direction::Left => self.navigate_left(output_names.len()),
                    Direction::Up => self.navigate_left(output_names.len()),
                    Direction::Right => self.navigate_right(output_names.len()),
                    Direction::Down => self.navigate_right(output_names.len()),
                }
                false
            },
            SelectMsg::Confirm => {
                self.confirm_selection(output_names);
                false
            },
        }
    }
}

/// What a change of selection clears.
#[derive(Debug, Clone, Copy, PartialEq, Eq, Structural)]
pub struct ChoiceChange {
    /// Clear the transient state: the annotations, the recognized text and
    /// QR codes, and the popups
    pub clear_transient: bool,
    /// Clear the annotations and close the popups
    pub clear_annotations: bool,
}

/// A new rectangle selection clears the transient state when the rectangle
/// moved or a handle is being dragged; switching to a fresh rectangle, to
/// the window picker or to the screen picker also clears the annotations.
pub open spec fn spec_choice_change(old: Choice, new: Choice) -> ChoiceChange {
    ChoiceChange {
        clear_transient: match new {
            Choice::Rectangle(nr, ns) => (old matches Choice::Rectangle(or, _) && or != nr) || ns
                != DragState::Idle,
            _ => false,
        },
        clear_annotations: match new {
            Choice::Rectangle(_, ns) => ns == DragState::Idle,
            Choice::Window(_, w) => w is None,
            Choice::Output(o) => o is None,
        },
    }
}

/// What a change of selection from `old` to `new` clears.
pub fn choice_change(old: &Choice, new: &Choice) -> (c: ChoiceChange)
    ensures
        c == spec_choice_change(*old, *new),
{
    let clear_transient = match new {
        Choice::Rectangle(nr, ns) => {
            let moved = match old {
                Choice::Rectangle(or, _) => or.left != nr.left || or.top != nr.top || or.right
                    != nr.right || or.bottom != nr.bottom,
                _ => false,
            };
            moved || *ns != DragState::Idle
        },
        _ => false,
    };
    let clear_annotations = match new {
        Choice::Rectangle(_, ns) => *ns == DragState::Idle,
        Choice::Window(_, w) => w.is_none(),
        Choice::Output(o) => o.is_none(),
    };
    ChoiceChange { clear_transient, clear_annotations }
}

/// The save location picked by its position in the list (clipboard,
/// pictures, documents); any other position keeps the current one.
pub fn location_from_index(index: usize, current: ImageSaveLocation) -> (l: ImageSaveLocation)
    ensures
        l == (if index == 0 {
            ImageSaveLocation::Clipboard
        } else if index == 1 {
            ImageSaveLocation::Pictures
        } else if index == 2 {
            ImageSaveLocation::Documents
        } else {
            current
        }),
{
    if index == 0 {
        ImageSaveLocation::Clipboard
    } else if index == 1 {
        ImageSaveLocation::Pictures
    } else if index == 2 {
        ImageSaveLocation::Documents
    } else {
        current
    }
}

/// Law: in the screen picker, moving right then left (or left then right)
/// returns to the screen that was highlighted.
pub proof fn law_navigation_round_trip(i: int, count: int)
    requires
        0 <= i < count,
    ensures
        spec_left(spec_right(i, count), count) == i,
        spec_right(spec_left(i, count), count) == i,
        0 <= spec_right(i, count) < count,
        0 <= spec_left(i, count) < count,
{
    if i + 1 < count {
        assert((i + 1) % count == i + 1) by (nonlinear_arith)
            requires
                0 <= i + 1 < count,
        ;
    } else {
        assert((i + 1) % count == 0) by (nonlinear_arith)
            requires
                i + 1 == count,
                count > 0,
        ;
    }
    if i == 0 {
        assert((count - 1 + 1) % count == 0) by (nonlinear_arith)
            requires
                count > 0,
        ;
    } else {
        assert((i - 1 + 1) % count == i) by (nonlinear_arith)
            requires
                0 < i < count,
        ;
    }
}

} // verus!
