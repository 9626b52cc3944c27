//! A model of keyboard input: the key pressed and the modifiers held.
//!
//! The UI toolkit's key events are converted into these types at the edge of
//! the program; every keyboard decision is made on them.
use vstd::prelude::*;
use vstd::string::*;

verus! {

/// A named (non-character) key.
#[derive(Debug, Clone, Copy, PartialEq, Eq, Structural)]
pub enum NamedKey {
    Enter,
    Space,
    Tab,
    Backspace,
    Delete,
    Insert,
    Home,
    End,
    PageUp,
    PageDown,
    F1,
    F2,
    F3,
    F4,
    F5,
    F6,
    F7,
    F8,
    F9,
    F10,
    F11,
    F12,
    Escape,
    Control,
    Shift,
    Alt,
    Super,
    ArrowLeft,
    ArrowRight,
    ArrowUp,
    ArrowDown,
    /// Any other named key (media keys, dead keys, ...)
    Other,
}

/// A key press: a named key, a character string, or an unidentified key.
#[derive(Debug, Clone, PartialEq, Eq)]
pub enum Key {
    Named(NamedKey),
    Character(String),
    Unidentified,
}

/// The mathematical value of a key press.
pub enum KeyView {
    Named(NamedKey),
    Character(Seq<char>),
    Unidentified,
}

impl View for Key {
    type V = KeyView;

    open spec fn view(&self) -> KeyView {
        match self {
            Key::Named(n) => KeyView::Named(*n),
            Key::Character(s) => KeyView::Character(s@),
            Key::Unidentified => KeyView::Unidentified,
        }
    }
}

/// The modifier keys held during a key press.
#[derive(Debug, Clone, Copy, PartialEq, Eq, Structural)]
pub struct Modifiers {
    pub control: bool,
    pub shift: bool,
    pub alt: bool,
    pub logo: bool,
}

impl Default for Modifiers {
    fn default() -> (m: Modifiers)
        ensures
            !m.control && !m.shift && !m.alt && !m.logo,
    {
        Modifiers { control: false, shift: false, alt: false, logo: false }
    }
}

impl Modifiers {
    /// No modifier held.
    pub fn none() -> (m: Modifiers)
        ensures
            !m.control && !m.shift && !m.alt && !m.logo,
    {
        Modifiers { control: false, shift: false, alt: false, logo: false }
    }

    /// Only Control held.
    pub fn ctrl() -> (m: Modifiers)
        ensures
            m.control && !m.shift && !m.alt && !m.logo,
    {
        Modifiers { control: true, shift: false, alt: false, logo: false }
    }

    /// Only Shift held.
    pub fn shift() -> (m: Modifiers)
        ensures
            !m.control && m.shift && !m.alt && !m.logo,
    {
        Modifiers { control: false, shift: true, alt: false, logo: false }
    }
}

/// The Unicode `White_Space` property, which `char::is_whitespace` and
/// `str::trim` test.
pub open spec fn spec_is_whitespace(c: char) -> bool {
    let v = c as u32;
    (0x09 <= v <= 0x0D) || v == 0x20 || v == 0x85 || v == 0xA0 || v == 0x1680 || (0x2000 <= v
        <= 0x200A) || v == 0x2028 || v == 0x2029 || v == 0x202F || v == 0x205F || v == 0x3000
}

/// Whether a character is white space (the Unicode `White_Space` property).
pub fn is_whitespace(c: char) -> (b: bool)
    ensures
        b == spec_is_whitespace(c),
{
    let v = c as u32;
    (0x09 <= v && v <= 0x0D) || v == 0x20 || v == 0x85 || v == 0xA0 || v == 0x1680 || (0x2000 <= v
        && v <= 0x200A) || v == 0x2028 || v == 0x2029 || v == 0x202F || v == 0x205F || v == 0x3000
}

/// Every character of `s` is white space (so `s` trims to nothing).
pub open spec fn spec_is_blank(s: Seq<char>) -> bool {
    forall|i: int| 0 <= i < s.len() ==> spec_is_whitespace(#[trigger] s[i])
}

/// Whether a string trims to the empty string.
pub fn is_blank(s: &str) -> (b: bool)
    ensures
        b == spec_is_blank(s@),
{
    let n = s.unicode_len();
    let mut i: usize = 0;
    while i < n
        invariant
            n == s@.len(),
            0 <= i <= n,
            forall|j: int| 0 <= j < i ==> spec_is_whitespace(#[trigger] s@[j]),
        decreases n - i,
    {
        if !is_whitespace(s.get_char(i)) {
            return false;
        }
        i = i + 1;
    }
    true
}

/// Whether `s` is exactly the one character `c`.
pub fn is_single_char(s: &str, c: char) -> (b: bool)
    ensures
        b == (s@ == seq![c]),
{
    let n = s.unicode_len();
    if n != 1 {
        proof {
            if s@ == seq![c] {
                assert(s@.len() == 1);
            }
        }
        return false;
    }
    let d = s.get_char(0);
    proof {
        if d == c {
            assert(s@ =~= seq![c]);
        }
    }
    d == c
}

/// The lowercase mapping of a string (`str::to_lowercase`).
pub uninterp spec fn lowercase(s: Seq<char>) -> Seq<char>;

/// The uppercase mapping of a string (`str::to_uppercase`).
pub uninterp spec fn uppercase(s: Seq<char>) -> Seq<char>;

/// Calls `str::to_lowercase`; the contract names its result, which depends
/// on the string alone, `lowercase(s@)`. What the mapping is (the Unicode
/// case tables) is left unsaid.
#[verifier::external_body]
pub(crate) fn to_lowercase(s: &str) -> (r: String)
    ensures
        r@ == lowercase(s@),
{
    s.to_lowercase()
}

/// Calls `str::to_uppercase`; the contract names its result, which depends
/// on the string alone, `uppercase(s@)`. What the mapping is (the Unicode
/// case tables) is left unsaid.
#[verifier::external_body]
pub(crate) fn to_uppercase(s: &str) -> (r: String)
    ensures
        r@ == uppercase(s@),
{
    s.to_uppercase()
}

} // verus!
