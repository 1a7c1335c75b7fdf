//! Keyboard and mouse input as the terminal user interface receives it.
use vstd::prelude::*;
use crate::input::KeyCode::{
    BackTab, Backspace, Char, Delete, Down, End, Enter, Esc, Home, Insert, Left, Other, PageDown, PageUp, Right, Tab,
    Up, F,
};
use crossterm::event::{Event, KeyCode as Ct, KeyEvent, KeyModifiers};
use terminput::Encoding;
use terminput_crossterm::to_terminput;

verus! {

/// The key that was pressed.
#[derive(Clone, Copy, Debug, PartialEq, Eq, Structural)]
pub enum KeyCode {
    Char(char),
    Enter,
    Esc,
    Backspace,
    Delete,
    Up,
    Down,
    Left,
    Right,
    Home,
    End,
    PageUp,
    PageDown,
    Tab,
    BackTab,
    Insert,
    /// A function key: `F(1)` is F1.
    F(u8),
    /// Any other key (lock keys, media keys, lone modifiers, ...); it has
    /// no xterm encoding.
    Other,
}

/// The shift modifier bit.
pub const SHIFT: u8 = 1;
/// The control modifier bit.
pub const CONTROL: u8 = 2;
/// The alt modifier bit.
pub const ALT: u8 = 4;

/// A key press: the key and the held modifiers as bits (shift 1, control
/// 2, alt 4, super 8, hyper 16, meta 32).
#[derive(Clone, Copy, Debug)]
pub struct KeyInput {
    pub code: KeyCode,
    pub modifiers: u8,
}

/// Name for the bytes an xterm sends for a key pressed with the given
/// modifiers (as `terminput` encodes it), or `None` where it has no
/// encoding.
pub uninterp spec fn xterm_encoding(code: KeyCode, modifiers: u8) -> Option<Seq<u8>>;

/// Ctrl with a character whose code point ends in the byte 0xFF (such as
/// `ÿ`): terminput's xterm encoder adds one to that byte, which overflows,
/// so such a key is treated as having no encoding.
pub open spec fn overflowing_ctrl_key(code: KeyCode, modifiers: u8) -> bool {
    modifiers & CONTROL != 0 && (code matches KeyCode::Char(c) && (c as u32) % 256 == 255)
}

/// Whether a key is Ctrl with a character whose code point ends in 0xFF
/// (see `overflowing_ctrl_key`).
pub fn is_overflowing_ctrl_key(code: KeyCode, modifiers: u8) -> (b: bool)
    ensures
        b == overflowing_ctrl_key(code, modifiers),
{
    modifiers & CONTROL != 0 && match code {
        KeyCode::Char(c) => (c as u32) % 256 == 255,
        _ => false,
    }
}

/// The bytes sent for a key: its xterm encoding, except that a Ctrl key
/// that would overflow the encoder has none.
pub open spec fn sent_encoding(code: KeyCode, modifiers: u8) -> Option<Seq<u8>> {
    if overflowing_ctrl_key(code, modifiers) {
        None
    } else {
        xterm_encoding(code, modifiers)
    }
}

/// Calls `terminput_crossterm::to_terminput` on the key press that
/// crossterm's `KeyEvent::new` makes of the key and modifiers, then
/// `Event::encode` with the xterm encoding (in a 16-byte buffer).  The
/// result is the name `xterm_encoding` of the key and modifiers; `Other`
/// is handed over as crossterm's `Null`, which the conversion refuses.
#[verifier::external_body]
pub(crate) fn xterm_bytes(code: KeyCode, modifiers: u8) -> (r: Option<Vec<u8>>)
    requires
        !overflowing_ctrl_key(code, modifiers),
    ensures
        match r {
            Some(v) => xterm_encoding(code, modifiers) == Some(v@),
            None => xterm_encoding(code, modifiers) is None,
        },
{
    let c = match code {
        Char(ch) => Ct::Char(ch), F(n) => Ct::F(n), Enter => Ct::Enter, Esc => Ct::Esc,
        Backspace => Ct::Backspace, Delete => Ct::Delete, Up => Ct::Up, Down => Ct::Down,
        Left => Ct::Left, Right => Ct::Right, Home => Ct::Home, End => Ct::End,
        PageUp => Ct::PageUp, PageDown => Ct::PageDown, Tab => Ct::Tab,
        BackTab => Ct::BackTab, Insert => Ct::Insert, Other => Ct::Null,
    };
    let mut buf = [0u8; 16];
    let n = to_terminput(Event::Key(KeyEvent::new(c, KeyModifiers::from_bits_truncate(modifiers))))
        .ok()?
        .encode(&mut buf, Encoding::Xterm)
        .ok()?;
    Some(buf[..n].to_vec())
}

/// What the mouse did.
#[derive(Clone, Copy, Debug, PartialEq, Eq, Structural)]
pub enum MouseKind {
    Down,
    Up,
    Drag,
    Moved,
    ScrollDown,
    ScrollUp,
    Other,
}

/// A mouse event at a screen cell.
#[derive(Clone, Copy, Debug, PartialEq, Eq, Structural)]
pub struct MouseInput {
    pub kind: MouseKind,
    pub column: u16,
    pub row: u16,
}

/// A rectangle of screen cells.
#[derive(Clone, Copy, Debug, PartialEq, Eq, Structural)]
pub struct Rect {
    pub x: u16,
    pub y: u16,
    pub width: u16,
    pub height: u16,
}

impl Default for Rect {
    fn default() -> (r: Self)
        ensures
            r == (Rect { x: 0, y: 0, width: 0, height: 0 }),
    {
        Rect { x: 0, y: 0, width: 0, height: 0 }
    }
}

} // verus!
