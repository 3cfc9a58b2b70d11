//! Keyboard events as plain values, and the events of the classic loop.
//!
//! The terminal backend delivers its own key events; the binary converts
//! them into these types before handing them to the library.

use vstd::prelude::*;

verus! {

/// A key on the keyboard.
#[derive(Debug, Clone, Copy, PartialEq, Eq, Hash, Structural)]
pub enum KeyCode {
    Char(char),
    Enter,
    Esc,
    Backspace,
    Delete,
    Left,
    Right,
    Up,
    Down,
    Home,
    End,
    PageUp,
    PageDown,
    Tab,
    BackTab,
    /// A function key, by number.
    F(u8),
    /// Any other key.
    Other,
}

/// The modifier keys held with a key.
#[derive(Debug, Clone, Copy, PartialEq, Eq, Hash, Structural)]
pub struct KeyModifiers {
    pub shift: bool,
    pub control: bool,
    pub alt: bool,
}

impl KeyModifiers {
    /// No modifier.
    pub fn none() -> (m: KeyModifiers)
        ensures
            !m.shift && !m.control && !m.alt,
    {
        KeyModifiers { shift: false, control: false, alt: false }
    }

    /// Control alone.
    pub fn control() -> (m: KeyModifiers)
        ensures
            !m.shift && m.control && !m.alt,
    {
        KeyModifiers { shift: false, control: true, alt: false }
    }

    /// Shift alone.
    pub fn shift() -> (m: KeyModifiers)
        ensures
            m.shift && !m.control && !m.alt,
    {
        KeyModifiers { shift: true, control: false, alt: false }
    }

    /// Alt alone.
    pub fn alt() -> (m: KeyModifiers)
        ensures
            !m.shift && !m.control && m.alt,
    {
        KeyModifiers { shift: false, control: false, alt: true }
    }

    /// Whether no modifier is held.
    pub open spec fn is_none(self) -> bool {
        !self.shift && !self.control && !self.alt
    }

    /// Whether every modifier of `other` is held in `self`.
    pub fn contains(&self, other: KeyModifiers) -> (b: bool)
        ensures
            b == ((other.shift ==> self.shift) && (other.control ==> self.control) && (other.alt
                ==> self.alt)),
    {
        (!other.shift || self.shift) && (!other.control || self.control) && (!other.alt
            || self.alt)
    }
}

/// A key press with its modifiers.
#[derive(Debug, Clone, Copy, PartialEq, Eq, Hash, Structural)]
pub struct KeyEvent {
    pub code: KeyCode,
    pub modifiers: KeyModifiers,
}

impl KeyEvent {
    /// A key press with the given modifiers.
    pub fn new(code: KeyCode, modifiers: KeyModifiers) -> (e: KeyEvent)
        ensures
            e.code == code,
            e.modifiers == modifiers,
    {
        KeyEvent { code, modifiers }
    }

    /// A key press without modifiers.
    pub fn from_code(code: KeyCode) -> (e: KeyEvent)
        ensures
            e.code == code,
            e.modifiers.is_none(),
    {
        KeyEvent { code, modifiers: KeyModifiers::none() }
    }
}

/// `event` is `code` pressed without any modifier.
pub open spec fn spec_key_match(event: KeyEvent, code: KeyCode) -> bool {
    event.code == code && event.modifiers.is_none()
}

/// `event` is Control held with `c`.
pub open spec fn spec_is_ctrl_c(event: KeyEvent) -> bool {
    event.code == KeyCode::Char('c') && event.modifiers.control
}

/// Whether a key event is exactly the given key, without modifiers.
pub fn key_match(event: &KeyEvent, code: KeyCode) -> (b: bool)
    ensures
        b == spec_key_match(*event, code),
{
    event.code == code && event.modifiers == KeyModifiers::none()
}

/// Whether Ctrl+C was pressed (other modifiers may be held too).
pub fn is_ctrl_c(event: &KeyEvent) -> (b: bool)
    ensures
        b == spec_is_ctrl_c(*event),
{
    event.code == KeyCode::Char('c') && event.modifiers.contains(KeyModifiers::control())
}

/// An event of the classic event loop.
#[derive(Debug, Clone, Copy, PartialEq, Eq, Structural)]
pub enum AppEvent {
    /// Key press.
    Key(KeyEvent),
    /// Periodic tick.
    Tick,
    /// Terminal resized to the given width and height.
    Resize(u16, u16),
    /// Mouse event (not acted on).
    Mouse,
}

} // verus!
