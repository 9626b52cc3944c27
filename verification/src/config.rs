//! Settings types: tools, toolbar position, save locations, video
//! containers, and the user-rebindable copy shortcut.
use vstd::prelude::*;
use vstd::string::*;
use crate::keys::{is_blank, is_single_char, lowercase, spec_is_blank, to_lowercase, to_uppercase, uppercase, Key, KeyView, Modifiers, NamedKey};

verus! {

/// Save location choice for UI selection.
#[derive(Debug, Clone, Copy, PartialEq, Eq, Structural)]
pub enum SaveLocationChoice {
    Pictures,
    Documents,
    Custom,
}

impl Default for SaveLocationChoice {
    fn default() -> (r: SaveLocationChoice)
        ensures
            r == SaveLocationChoice::Pictures,
    {
        SaveLocationChoice::Pictures
    }
}

/// Save location choice for videos.
#[derive(Debug, Clone, Copy, PartialEq, Eq, Structural)]
pub enum VideoSaveLocationChoice {
    Videos,
    Custom,
}

impl Default for VideoSaveLocationChoice {
    fn default() -> (r: VideoSaveLocationChoice)
        ensures
            r == VideoSaveLocationChoice::Videos,
    {
        VideoSaveLocationChoice::Videos
    }
}

/// Shape annotation tool type (for split button selection).
#[derive(Debug, Clone, Copy, PartialEq, Eq, Structural)]
pub enum ShapeTool {
    Arrow,
    Line,
    Circle,
    Rectangle,
    Pencil,
    Text,
}

impl Default for ShapeTool {
    fn default() -> (r: ShapeTool)
        ensures
            r == ShapeTool::Arrow,
    {
        ShapeTool::Arrow
    }
}

/// Every shape tool, in the order shown in the picker and cycled by `next()`.
pub open spec fn spec_all_tools() -> Seq<ShapeTool> {
    seq![
        ShapeTool::Arrow,
        ShapeTool::Line,
        ShapeTool::Circle,
        ShapeTool::Rectangle,
        ShapeTool::Pencil,
        ShapeTool::Text,
    ]
}

impl ShapeTool {
    /// Every shape tool, in the order shown in the picker and cycled by `next()`.
    pub const ALL: [ShapeTool; 6] = [
        ShapeTool::Arrow,
        ShapeTool::Line,
        ShapeTool::Circle,
        ShapeTool::Rectangle,
        ShapeTool::Pencil,
        ShapeTool::Text,
    ];

    /// Number of shape tools (used for the split-button option indicator).
    pub const COUNT: usize = 6;

    /// Position of this tool in the cycle.
    pub open spec fn spec_index(self) -> int {
        match self {
            ShapeTool::Arrow => 0,
            ShapeTool::Line => 1,
            ShapeTool::Circle => 2,
            ShapeTool::Rectangle => 3,
            ShapeTool::Pencil => 4,
            ShapeTool::Text => 5,
        }
    }

    /// The next tool of the cycle.
    pub open spec fn spec_next(self) -> ShapeTool {
        spec_all_tools()[(self.spec_index() + 1) % 6]
    }

    /// Get the next shape tool in the cycle.
    pub fn next(self) -> (t: ShapeTool)
        ensures
            t == self.spec_next(),
    {
        let i = self.index();
        let all = Self::all_tools();
        all[(i + 1) % Self::COUNT]
    }

    /// Every shape tool, in cycle order.
    pub fn all_tools() -> (a: [ShapeTool; 6])
        ensures
            a@ == spec_all_tools(),
    {
        let a = [
            ShapeTool::Arrow,
            ShapeTool::Line,
            ShapeTool::Circle,
            ShapeTool::Rectangle,
            ShapeTool::Pencil,
            ShapeTool::Text,
        ];
        assert(a@ =~= spec_all_tools());
        a
    }

    /// Position of this tool in the cycle (for the split-button indicator).
    pub fn index(self) -> (i: usize)
        ensures
            i == self.spec_index(),
            spec_all_tools()[i as int] == self,
    {
        match self {
            ShapeTool::Arrow => 0,
            ShapeTool::Line => 1,
            ShapeTool::Circle => 2,
            ShapeTool::Rectangle => 3,
            ShapeTool::Pencil => 4,
            ShapeTool::Text => 5,
        }
    }

    /// Freedesktop symbolic icon name for this tool.
    pub fn icon_name(self) -> (s: &'static str)
        ensures
            s@ == spec_icon_name(self),
    {
        match self {
            ShapeTool::Arrow => "insert-arrow-symbolic",
            ShapeTool::Line => "insert-line-symbolic",
            ShapeTool::Circle => "insert-ellipse-symbolic",
            ShapeTool::Rectangle => "insert-rectangle-symbolic",
            ShapeTool::Pencil => "insert-drawing-symbolic",
            ShapeTool::Text => "insert-text-symbolic",
        }
    }

    /// Message id of the short label shown next to the icon in the tool picker.
    pub fn label(self) -> (s: &'static str)
        ensures
            self == ShapeTool::Arrow ==> s@ == "arrow"@,
            self == ShapeTool::Line ==> s@ == "line"@,
            self == ShapeTool::Circle ==> s@ == "oval-circle"@,
            self == ShapeTool::Rectangle ==> s@ == "rectangle-square"@,
            self == ShapeTool::Pencil ==> s@ == "pencil"@,
            self == ShapeTool::Text ==> s@ == "text"@,
    {
        match self {
            ShapeTool::Arrow => "arrow",
            ShapeTool::Line => "line",
            ShapeTool::Circle => "oval-circle",
            ShapeTool::Rectangle => "rectangle-square",
            ShapeTool::Pencil => "pencil",
            ShapeTool::Text => "text",
        }
    }

    /// Message id of the tooltip text for this shape tool.
    pub fn tooltip(self) -> (s: &'static str)
        ensures
            self == ShapeTool::Arrow ==> s@ == "draw-arrow"@,
            self == ShapeTool::Line ==> s@ == "draw-line"@,
            self == ShapeTool::Circle ==> s@ == "draw-circle"@,
            self == ShapeTool::Rectangle ==> s@ == "draw-rectangle"@,
            self == ShapeTool::Pencil ==> s@ == "draw-pencil"@,
            self == ShapeTool::Text ==> s@ == "draw-text"@,
    {
        match self {
            ShapeTool::Arrow => "draw-arrow",
            ShapeTool::Line => "draw-line",
            ShapeTool::Circle => "draw-circle",
            ShapeTool::Rectangle => "draw-rectangle",
            ShapeTool::Pencil => "draw-pencil",
            ShapeTool::Text => "draw-text",
        }
    }
}

/// The icon name of each tool.
pub open spec fn spec_icon_name(t: ShapeTool) -> Seq<char> {
    match t {
        ShapeTool::Arrow => "insert-arrow-symbolic"@,
        ShapeTool::Line => "insert-line-symbolic"@,
        ShapeTool::Circle => "insert-ellipse-symbolic"@,
        ShapeTool::Rectangle => "insert-rectangle-symbolic"@,
        ShapeTool::Pencil => "insert-drawing-symbolic"@,
        ShapeTool::Text => "insert-text-symbolic"@,
    }
}

/// `next` applied `n` times.
pub open spec fn next_n(t: ShapeTool, n: nat) -> ShapeTool
    decreases n,
{
    if n == 0 {
        t
    } else {
        next_n(t, (n - 1) as nat).spec_next()
    }
}

/// The tool at position `p` of the cycle has index `p`.
proof fn lemma_index_of_position(p: int)
    requires
        0 <= p < 6,
    ensures
        spec_all_tools()[p].spec_index() == p,
{
}

/// Law: the tool cycle visits every tool: starting from any tool, the
/// `k`-th step is the tool `k` places further in the list.
pub proof fn law_tool_cycle(t: ShapeTool, k: nat)
    ensures
        next_n(t, k) == spec_all_tools()[(t.spec_index() + k) % 6],
    decreases k,
{
    if k > 0 {
        law_tool_cycle(t, (k - 1) as nat);
        let i = t.spec_index();
        let p = (i + k - 1) % 6;
        lemma_index_of_position(p);
        assert((p + 1) % 6 == (i + k) % 6) by (nonlinear_arith)
            requires
                p == (i + k - 1) % 6,
                k > 0,
                0 <= i < 6,
        ;
    } else {
        assert(t.spec_index() % 6 == t.spec_index());
    }
}

/// Law: a full cycle of `COUNT` steps comes back to the starting tool.
pub proof fn law_full_cycle_returns(t: ShapeTool)
    ensures
        next_n(t, 6) == t,
{
    law_tool_cycle(t, 6);
    assert((t.spec_index() + 6) % 6 == t.spec_index());
}

/// Law: the index of a tool is its position in `ALL`, and distinct tools
/// have distinct positions and distinct icons.
pub proof fn law_tools_distinct(a: ShapeTool, b: ShapeTool)
    ensures
        spec_all_tools()[a.spec_index()] == a,
        0 <= a.spec_index() < 6,
        a != b ==> a.spec_index() != b.spec_index(),
        a != b ==> spec_icon_name(a) != spec_icon_name(b),
{
    reveal_strlit("insert-arrow-symbolic");
    reveal_strlit("insert-line-symbolic");
    reveal_strlit("insert-ellipse-symbolic");
    reveal_strlit("insert-rectangle-symbolic");
    reveal_strlit("insert-drawing-symbolic");
    reveal_strlit("insert-text-symbolic");
    if a != b {
        assert(spec_icon_name(a)[7] != spec_icon_name(b)[7] || spec_icon_name(a).len() != spec_icon_name(
            b,
        ).len());
    }
}

/// Toolbar position on screen.
#[derive(Debug, Clone, Copy, PartialEq, Eq, Structural)]
pub enum ToolbarPosition {
    Top,
    Bottom,
    Left,
    Right,
}

impl Default for ToolbarPosition {
    fn default() -> (r: ToolbarPosition)
        ensures
            r == ToolbarPosition::Bottom,
    {
        ToolbarPosition::Bottom
    }
}

/// Redaction tool type (for split button selection).
#[derive(Debug, Clone, Copy, PartialEq, Eq, Structural)]
pub enum RedactTool {
    Redact,
    Pixelate,
}

impl Default for RedactTool {
    fn default() -> (r: RedactTool)
        ensures
            r == RedactTool::Redact,
    {
        RedactTool::Redact
    }
}

impl RedactTool {
    /// Get the next redact tool in the cycle.
    pub fn next(self) -> (t: RedactTool)
        ensures
            t != self,
    {
        match self {
            RedactTool::Redact => RedactTool::Pixelate,
            RedactTool::Pixelate => RedactTool::Redact,
        }
    }

    /// Message id of the tooltip text for this redact tool.
    pub fn tooltip(self) -> (s: &'static str)
        ensures
            self == RedactTool::Redact ==> s@ == "redact-tool"@,
            self == RedactTool::Pixelate ==> s@ == "pixelate-tool"@,
    {
        match self {
            RedactTool::Redact => "redact-tool",
            RedactTool::Pixelate => "pixelate-tool",
        }
    }

    /// Get the index of this tool (for indicator dots).
    pub fn index(self) -> (i: usize)
        ensures
            self == RedactTool::Redact ==> i == 0,
            self == RedactTool::Pixelate ==> i == 1,
    {
        match self {
            RedactTool::Redact => 0,
            RedactTool::Pixelate => 1,
        }
    }
}

/// Video container format.
#[derive(Debug, Clone, Copy, PartialEq, Eq, Structural)]
pub enum Container {
    Mp4,
    Webm,
    Mkv,
}

impl Default for Container {
    fn default() -> (r: Container)
        ensures
            r == Container::Mp4,
    {
        Container::Mp4
    }
}

/// The file extension of a container format.
pub open spec fn spec_extension(c: Container) -> Seq<char> {
    match c {
        Container::Mp4 => "mp4"@,
        Container::Webm => "webm"@,
        Container::Mkv => "mkv"@,
    }
}

impl Container {
    /// Get file extension for this container.
    pub fn extension(&self) -> (s: &'static str)
        ensures
            s@ == spec_extension(*self),
    {
        match self {
            Container::Mp4 => "mp4",
            Container::Webm => "webm",
            Container::Mkv => "mkv",
        }
    }

    /// Get GStreamer muxer element name.
    pub fn muxer_element(&self) -> (s: &'static str)
        ensures
            *self == Container::Mp4 ==> s@ == "mp4mux"@,
            *self == Container::Webm ==> s@ == "webmmux"@,
            *self == Container::Mkv ==> s@ == "matroskamux"@,
    {
        match self {
            Container::Mp4 => "mp4mux",
            Container::Webm => "webmmux",
            Container::Mkv => "matroskamux",
        }
    }
}

/// A named (non-character) key that may be bound to an action.
///
/// Only keys that make sense as a shortcut are listed; everything else
/// converts to `None`, which keeps unbindable keys out of the config.
#[derive(Debug, Clone, Copy, PartialEq, Eq, Structural)]
pub enum BindNamed {
    Enter,
    Space,
    Tab,
    Backspace,
    Delete,
    Insert,
    Home,
    End,
    PageUp,
    PageDown,
    F1,
    F2,
    F3,
    F4,
    F5,
    F6,
    F7,
    F8,
    F9,
    F10,
    F11,
    F12,
}

/// The bindable key of a named key. Space is not among them: it arrives
/// as the character `" "` and is folded in by [`BindKey::from_key`].
pub open spec fn spec_from_named(n: NamedKey) -> Option<BindNamed> {
    match n {
        NamedKey::Enter => Some(BindNamed::Enter),
        NamedKey::Tab => Some(BindNamed::Tab),
        NamedKey::Backspace => Some(BindNamed::Backspace),
        NamedKey::Delete => Some(BindNamed::Delete),
        NamedKey::Insert => Some(BindNamed::Insert),
        NamedKey::Home => Some(BindNamed::Home),
        NamedKey::End => Some(BindNamed::End),
        NamedKey::PageUp => Some(BindNamed::PageUp),
        NamedKey::PageDown => Some(BindNamed::PageDown),
        NamedKey::F1 => Some(BindNamed::F1),
        NamedKey::F2 => Some(BindNamed::F2),
        NamedKey::F3 => Some(BindNamed::F3),
        NamedKey::F4 => Some(BindNamed::F4),
        NamedKey::F5 => Some(BindNamed::F5),
        NamedKey::F6 => Some(BindNamed::F6),
        NamedKey::F7 => Some(BindNamed::F7),
        NamedKey::F8 => Some(BindNamed::F8),
        NamedKey::F9 => Some(BindNamed::F9),
        NamedKey::F10 => Some(BindNamed::F10),
        NamedKey::F11 => Some(BindNamed::F11),
        NamedKey::F12 => Some(BindNamed::F12),
        _ => None,
    }
}

impl BindNamed {
    /// Convert a named key into a bindable one, or `None` if it cannot be bound.
    pub fn from_named(named: NamedKey) -> (r: Option<BindNamed>)
        ensures
            r == spec_from_named(named),
    {
        match named {
            NamedKey::Enter => Some(BindNamed::Enter),
            NamedKey::Tab => Some(BindNamed::Tab),
            NamedKey::Backspace => Some(BindNamed::Backspace),
            NamedKey::Delete => Some(BindNamed::Delete),
            NamedKey::Insert => Some(BindNamed::Insert),
            NamedKey::Home => Some(BindNamed::Home),
            NamedKey::End => Some(BindNamed::End),
            NamedKey::PageUp => Some(BindNamed::PageUp),
            NamedKey::PageDown => Some(BindNamed::PageDown),
            NamedKey::F1 => Some(BindNamed::F1),
            NamedKey::F2 => Some(BindNamed::F2),
            NamedKey::F3 => Some(BindNamed::F3),
            NamedKey::F4 => Some(BindNamed::F4),
            NamedKey::F5 => Some(BindNamed::F5),
            NamedKey::F6 => Some(BindNamed::F6),
            NamedKey::F7 => Some(BindNamed::F7),
            NamedKey::F8 => Some(BindNamed::F8),
            NamedKey::F9 => Some(BindNamed::F9),
            NamedKey::F10 => Some(BindNamed::F10),
            NamedKey::F11 => Some(BindNamed::F11),
            NamedKey::F12 => Some(BindNamed::F12),
            _ => None,
        }
    }

    /// Human-readable name for tooltips and the settings button.
    pub fn label(self) -> (s: &'static str)
        ensures
            s@ == spec_bind_label(self),
    {
        match self {
            BindNamed::Enter => "Enter",
            BindNamed::Space => "Space",
            BindNamed::Tab => "Tab",
            BindNamed::Backspace => "Backspace",
            BindNamed::Delete => "Delete",
            BindNamed::Insert => "Insert",
            BindNamed::Home => "Home",
            BindNamed::End => "End",
            BindNamed::PageUp => "PageUp",
            BindNamed::PageDown => "PageDown",
            BindNamed::F1 => "F1",
            BindNamed::F2 => "F2",
            BindNamed::F3 => "F3",
            BindNamed::F4 => "F4",
            BindNamed::F5 => "F5",
            BindNamed::F6 => "F6",
            BindNamed::F7 => "F7",
            BindNamed::F8 => "F8",
            BindNamed::F9 => "F9",
            BindNamed::F10 => "F10",
            BindNamed::F11 => "F11",
            BindNamed::F12 => "F12",
        }
    }
}

/// The label of each bindable named key.
pub open spec fn spec_bind_label(n: BindNamed) -> Seq<char> {
    match n {
        BindNamed::Enter => "Enter"@,
        BindNamed::Space => "Space"@,
        BindNamed::Tab => "Tab"@,
        BindNamed::Backspace => "Backspace"@,
        BindNamed::Delete => "Delete"@,
        BindNamed::Insert => "Insert"@,
        BindNamed::Home => "Home"@,
        BindNamed::End => "End"@,
        BindNamed::PageUp => "PageUp"@,
        BindNamed::PageDown => "PageDown"@,
        BindNamed::F1 => "F1"@,
        BindNamed::F2 => "F2"@,
        BindNamed::F3 => "F3"@,
        BindNamed::F4 => "F4"@,
        BindNamed::F5 => "F5"@,
        BindNamed::F6 => "F6"@,
        BindNamed::F7 => "F7"@,
        BindNamed::F8 => "F8"@,
        BindNamed::F9 => "F9"@,
        BindNamed::F10 => "F10"@,
        BindNamed::F11 => "F11"@,
        BindNamed::F12 => "F12"@,
    }
}

/// The key half of a binding, without modifiers.
#[derive(Debug, Clone, PartialEq, Eq)]
pub enum BindKey {
    Named(BindNamed),
    /// A printable character, always stored lowercase: case is carried by
    /// the binding's `shift` flag instead.
    Character(String),
}

/// The mathematical value of a bindable key.
pub enum BindKeyView {
    Named(BindNamed),
    Character(Seq<char>),
}

impl View for BindKey {
    type V = BindKeyView;

    open spec fn view(&self) -> BindKeyView {
        match self {
            BindKey::Named(n) => BindKeyView::Named(*n),
            BindKey::Character(s) => BindKeyView::Character(s@),
        }
    }
}

/// The bindable key of a key press: named keys through
/// [`spec_from_named`], the space character as the named key Space, any
/// other non-blank character string in lowercase; nothing otherwise.
pub open spec fn spec_from_key(k: KeyView) -> Option<BindKeyView> {
    match k {
        KeyView::Named(n) => match spec_from_named(n) {
            Some(b) => Some(BindKeyView::Named(b)),
            None => None,
        },
        KeyView::Character(c) => if c == seq![' '] {
            Some(BindKeyView::Named(BindNamed::Space))
        } else if !spec_is_blank(c) {
            Some(BindKeyView::Character(lowercase(c)))
        } else {
            None
        },
        KeyView::Unidentified => None,
    }
}

impl BindKey {
    /// Normalise a live key press into a bindable key, or `None` if this key
    /// can't be a shortcut (bare modifiers, media keys, dead keys).
    pub fn from_key(key: &Key) -> (r: Option<BindKey>)
        ensures
            r matches Some(b) ==> spec_from_key(key@) == Some(b@),
            r is None ==> spec_from_key(key@) is None,
    {
        match key {
            Key::Named(n) => match BindNamed::from_named(*n) {
                Some(b) => Some(BindKey::Named(b)),
                None => None,
            },
            Key::Character(c) => {
                if is_single_char(c.as_str(), ' ') {
                    Some(BindKey::Named(BindNamed::Space))
                } else if !is_blank(c.as_str()) {
                    Some(BindKey::Character(to_lowercase(c.as_str())))
                } else {
                    None
                }
            },
            Key::Unidentified => None,
        }
    }

    /// Whether two bindable keys are the same key.
    pub fn same_as(&self, other: &BindKey) -> (b: bool)
        ensures
            b == (self@ == other@),
    {
        match (self, other) {
            (BindKey::Named(x), BindKey::Named(y)) => *x == *y,
            (BindKey::Character(x), BindKey::Character(y)) => *x == *y,
            _ => false,
        }
    }
}

/// A user-rebindable keyboard shortcut.
#[derive(Debug, Clone, PartialEq, Eq)]
pub struct KeyBinding {
    pub key: BindKey,
    pub ctrl: bool,
    pub shift: bool,
    pub alt: bool,
}

/// Whether a key press with modifiers triggers a binding.
pub open spec fn spec_matches(b: KeyBinding, key: KeyView, m: Modifiers) -> bool {
    &&& b.ctrl == m.control
    &&& b.alt == m.alt
    &&& b.shift == m.shift
    &&& spec_from_key(key) == Some(b.key@)
}

/// The binding made from a key press, or `None` if the key may not be bound:
/// Escape, Ctrl+Enter, and every key without a bindable form.
pub open spec fn spec_from_event(key: KeyView, m: Modifiers) -> Option<(BindKeyView, bool, bool, bool)> {
    if key == KeyView::Named(NamedKey::Escape) {
        None
    } else {
        match spec_from_key(key) {
            None => None,
            Some(b) => if b == BindKeyView::Named(BindNamed::Enter) && m.control {
                None
            } else {
                Some((b, m.control, m.shift, m.alt))
            },
        }
    }
}

/// The display name of a binding: "Ctrl+", "Alt+", "Shift+" as held, then
/// the key's label, a character key in uppercase.
pub open spec fn spec_display_name(b: KeyBinding) -> Seq<char> {
    (if b.ctrl { "Ctrl+"@ } else { Seq::empty() }) + (if b.alt { "Alt+"@ } else { Seq::empty() }) + (
    if b.shift { "Shift+"@ } else { Seq::empty() }) + match b.key@ {
        BindKeyView::Named(n) => spec_bind_label(n),
        BindKeyView::Character(c) => uppercase(c),
    }
}

impl KeyBinding {
    /// A plain named key with no modifiers.
    pub fn plain(key: BindNamed) -> (b: KeyBinding)
        ensures
            b.key@ == BindKeyView::Named(key),
            !b.ctrl && !b.shift && !b.alt,
    {
        KeyBinding { key: BindKey::Named(key), ctrl: false, shift: false, alt: false }
    }

    /// Does this live key press trigger the binding?
    pub fn matches(&self, key: &Key, modifiers: Modifiers) -> (r: bool)
        ensures
            r == spec_matches(*self, key@, modifiers),
    {
        if self.ctrl != modifiers.control || self.alt != modifiers.alt || self.shift
            != modifiers.shift {
            return false;
        }
        match BindKey::from_key(key) {
            Some(pressed) => pressed.same_as(&self.key),
            None => false,
        }
    }

    /// Build a binding from a live key press, or `None` if this key may not
    /// be bound. Escape and Ctrl+Enter are refused because the shortcut table
    /// matches them before the configurable copy shortcut.
    pub fn from_event(key: &Key, modifiers: Modifiers) -> (r: Option<KeyBinding>)
        ensures
            r matches Some(b) ==> spec_from_event(key@, modifiers) == Some(
                (b.key@, b.ctrl, b.shift, b.alt),
            ),
            r is None ==> spec_from_event(key@, modifiers) is None,
    {
        match key {
            Key::Named(NamedKey::Escape) => { return None; },
            _ => {},
        }
        let bind = match BindKey::from_key(key) {
            Some(b) => b,
            None => { return None; },
        };
        let is_enter = match &bind {
            BindKey::Named(BindNamed::Enter) => true,
            _ => false,
        };
        if is_enter && modifiers.control {
            return None;
        }
        Some(KeyBinding { key: bind, ctrl: modifiers.control, shift: modifiers.shift, alt: modifiers.alt })
    }

    /// "Enter", "Ctrl+Shift+C": for the toolbar tooltip and settings button.
    pub fn display_name(&self) -> (s: String)
        ensures
            s@ == spec_display_name(*self),
    {
        let mut out = String::new();
        if self.ctrl {
            out.append("Ctrl+");
        }
        if self.alt {
            out.append("Alt+");
        }
        if self.shift {
            out.append("Shift+");
        }
        match &self.key {
            BindKey::Named(n) => out.append(n.label()),
            BindKey::Character(c) => {
                let up = to_uppercase(c.as_str());
                out.append(up.as_str());
            },
        }
        proof {
            assert(out@ =~= spec_display_name(*self));
        }
        out
    }
}

/// Law: a binding made from a key press is triggered by that same key press.
pub proof fn law_binding_matches_its_event(key: KeyView, m: Modifiers, b: KeyBinding)
    requires
        spec_from_event(key, m) == Some((b.key@, b.ctrl, b.shift, b.alt)),
    ensures
        spec_matches(b, key, m),
{
}

/// Law: a binding fires only under exactly its modifiers.
pub proof fn law_modifiers_must_match(b: KeyBinding, key: KeyView, m: Modifiers)
    requires
        spec_matches(b, key, m),
    ensures
        m.control == b.ctrl && m.shift == b.shift && m.alt == b.alt,
{
}

/// The key that copies the selection by default: plain Enter.
pub fn default_copy_shortcut() -> (b: KeyBinding)
    ensures
        b.key@ == BindKeyView::Named(BindNamed::Enter),
        !b.ctrl && !b.shift && !b.alt,
{
    KeyBinding::plain(BindNamed::Enter)
}

/// The default delay, in seconds, of the delayed-screenshot button.
pub fn default_capture_delay_secs() -> (s: u32)
    ensures
        s == 3,
{
    3
}

/// Settings held as integers, flags and choices, with their defaults.
pub struct GeneralSettings {
    pub magnifier_enabled: bool,
    pub save_location: SaveLocationChoice,
    pub video_save_location: VideoSaveLocationChoice,
    pub copy_to_clipboard_on_save: bool,
    pub primary_shape_tool: ShapeTool,
    pub shape_shadow: bool,
    pub primary_redact_tool: RedactTool,
    pub pixelation_block_size: u32,
    pub capture_delay_secs: u32,
    pub toolbar_position: ToolbarPosition,
    pub video_encoder: Option<String>,
    pub video_container: Container,
    pub video_framerate: u32,
    pub video_show_cursor: bool,
    pub hide_toolbar_to_tray: bool,
    pub copy_shortcut: KeyBinding,
}

impl GeneralSettings {
    /// The defaults: magnifier on, save to Pictures, arrow tool with shadow,
    /// solid redaction, 16-pixel pixelation blocks, 3-second delay, toolbar
    /// at the bottom, auto-detected encoder, MP4 at 60 fps with the cursor
    /// shown, and Enter to copy.
    pub fn defaults() -> (s: GeneralSettings)
        ensures
            s.magnifier_enabled,
            s.save_location == SaveLocationChoice::Pictures,
            s.video_save_location == VideoSaveLocationChoice::Videos,
            !s.copy_to_clipboard_on_save,
            s.primary_shape_tool == ShapeTool::Arrow,
            s.shape_shadow,
            s.primary_redact_tool == RedactTool::Redact,
            s.pixelation_block_size == 16,
            s.capture_delay_secs == 3,
            s.toolbar_position == ToolbarPosition::Bottom,
            s.video_encoder is None,
            s.video_container == Container::Mp4,
            s.video_framerate == 60,
            s.video_show_cursor,
            !s.hide_toolbar_to_tray,
            s.copy_shortcut.key@ == BindKeyView::Named(BindNamed::Enter),
            !s.copy_shortcut.ctrl && !s.copy_shortcut.shift && !s.copy_shortcut.alt,
    {
        GeneralSettings {
            magnifier_enabled: true,
            save_location: SaveLocationChoice::Pictures,
            video_save_location: VideoSaveLocationChoice::Videos,
            copy_to_clipboard_on_save: false,
            primary_shape_tool: ShapeTool::Arrow,
            shape_shadow: true,
            primary_redact_tool: RedactTool::Redact,
            pixelation_block_size: 16,
            capture_delay_secs: default_capture_delay_secs(),
            toolbar_position: ToolbarPosition::Bottom,
            video_encoder: None,
            video_container: Container::Mp4,
            video_framerate: 60,
            video_show_cursor: true,
            hide_toolbar_to_tray: false,
            copy_shortcut: default_copy_shortcut(),
        }
    }
}

} // verus!
