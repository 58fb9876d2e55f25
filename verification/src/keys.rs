//! Keyboard input as the panels read it, and the bytes a key sends to a
//! terminal.

use vstd::prelude::*;
use vstd::utf8::encode_utf8;
use crate::text::push_char;

verus! {

/// Which key was pressed.
#[derive(Debug, Clone, Copy, PartialEq, Eq, Structural)]
pub enum KeyCode {
    Backspace,
    Enter,
    Left,
    Right,
    Up,
    Down,
    Home,
    End,
    PageUp,
    PageDown,
    Tab,
    BackTab,
    Delete,
    Insert,
    /// A function key, by number.
    F(u8),
    /// A character.
    Char(char),
    Esc,
    /// Any other key.
    Other,
}

/// The modifier keys held with a key.
#[derive(Debug, Clone, Copy, PartialEq, Eq, Structural)]
pub struct KeyModifiers {
    pub shift: bool,
    pub control: bool,
    pub alt: bool,
    /// The platform key (Cmd, Windows).
    pub super_key: bool,
}

impl KeyModifiers {
    /// No modifier held.
    pub fn none() -> (m: Self)
        ensures
            !m.shift && !m.control && !m.alt && !m.super_key,
    {
        KeyModifiers { shift: false, control: false, alt: false, super_key: false }
    }

    /// Only Control held.
    pub fn control() -> (m: Self)
        ensures
            !m.shift && m.control && !m.alt && !m.super_key,
    {
        KeyModifiers { shift: false, control: true, alt: false, super_key: false }
    }

    /// Only Shift held.
    pub fn shift() -> (m: Self)
        ensures
            m.shift && !m.control && !m.alt && !m.super_key,
    {
        KeyModifiers { shift: true, control: false, alt: false, super_key: false }
    }

    /// Only Alt held.
    pub fn alt() -> (m: Self)
        ensures
            !m.shift && !m.control && m.alt && !m.super_key,
    {
        KeyModifiers { shift: false, control: false, alt: true, super_key: false }
    }
}

/// A key press.
#[derive(Debug, Clone, Copy, PartialEq, Eq, Structural)]
pub struct KeyEvent {
    pub code: KeyCode,
    pub modifiers: KeyModifiers,
}

impl KeyEvent {
    /// A key press with modifiers.
    pub fn new(code: KeyCode, modifiers: KeyModifiers) -> (k: Self)
        ensures
            k.code == code,
            k.modifiers == modifiers,
    {
        KeyEvent { code, modifiers }
    }

    /// A key press without modifiers.
    pub fn plain(code: KeyCode) -> (k: Self)
        ensures
            k.code == code,
            !k.modifiers.shift && !k.modifiers.control && !k.modifiers.alt && !k.modifiers.super_key,
    {
        KeyEvent { code, modifiers: KeyModifiers::none() }
    }
}

/// The ASCII lowercase form of a character (others unchanged).
pub open spec fn ascii_lower(c: char) -> int {
    if 'A' <= c && c <= 'Z' { (c as u32) + 32 } else { c as u32 as int }
}

/// The control byte that Ctrl and a character send: the low byte of the
/// character's ASCII lowercase form, less 96 (wrapping), so that Ctrl+A
/// sends 1.
pub open spec fn control_byte(c: char) -> u8 {
    (((ascii_lower(c) % 256) + 256 - 96) % 256) as u8
}

/// The escape sequence of a function key (none beyond F12).
pub open spec fn function_key_bytes(n: u8) -> Seq<u8> {
    if n == 1 { seq![0x1bu8, 0x4f, 0x50] }
    else if n == 2 { seq![0x1bu8, 0x4f, 0x51] }
    else if n == 3 { seq![0x1bu8, 0x4f, 0x52] }
    else if n == 4 { seq![0x1bu8, 0x4f, 0x53] }
    else if n == 5 { seq![0x1bu8, 0x5b, 0x31, 0x35, 0x7e] }
    else if n == 6 { seq![0x1bu8, 0x5b, 0x31, 0x37, 0x7e] }
    else if n == 7 { seq![0x1bu8, 0x5b, 0x31, 0x38, 0x7e] }
    else if n == 8 { seq![0x1bu8, 0x5b, 0x31, 0x39, 0x7e] }
    else if n == 9 { seq![0x1bu8, 0x5b, 0x32, 0x30, 0x7e] }
    else if n == 10 { seq![0x1bu8, 0x5b, 0x32, 0x31, 0x7e] }
    else if n == 11 { seq![0x1bu8, 0x5b, 0x32, 0x33, 0x7e] }
    else if n == 12 { seq![0x1bu8, 0x5b, 0x32, 0x34, 0x7e] }
    else { seq![] }
}

/// The bytes a key sends to a terminal: a character as UTF-8 (its control
/// byte with Ctrl), the usual control bytes and VT escape sequences for the
/// others, nothing for keys without one.
pub open spec fn key_bytes(code: KeyCode, control: bool) -> Seq<u8> {
    match code {
        KeyCode::Char(c) => if control { seq![control_byte(c)] } else { encode_utf8(seq![c]) },
        KeyCode::Enter => seq![0x0du8],
        KeyCode::Backspace => seq![0x7fu8],
        KeyCode::Tab => seq![0x09u8],
        KeyCode::Esc => seq![0x1bu8],
        KeyCode::Up => seq![0x1bu8, 0x5b, 0x41],
        KeyCode::Down => seq![0x1bu8, 0x5b, 0x42],
        KeyCode::Right => seq![0x1bu8, 0x5b, 0x43],
        KeyCode::Left => seq![0x1bu8, 0x5b, 0x44],
        KeyCode::Home => seq![0x1bu8, 0x5b, 0x48],
        KeyCode::End => seq![0x1bu8, 0x5b, 0x46],
        KeyCode::PageUp => seq![0x1bu8, 0x5b, 0x35, 0x7e],
        KeyCode::PageDown => seq![0x1bu8, 0x5b, 0x36, 0x7e],
        KeyCode::Delete => seq![0x1bu8, 0x5b, 0x33, 0x7e],
        KeyCode::Insert => seq![0x1bu8, 0x5b, 0x32, 0x7e],
        KeyCode::F(n) => function_key_bytes(n),
        _ => seq![],
    }
}

fn bytes_of(s: &[u8]) -> (v: Vec<u8>)
    ensures
        v@ == s@,
{
    let mut v: Vec<u8> = Vec::new();
    let mut i: usize = 0;
    while i < s.len()
        invariant
            i <= s@.len(),
            v@ == s@.subrange(0, i as int),
        decreases s@.len() - i,
    {
        v.push(s[i]);
        i = i + 1;
        assert(v@ =~= s@.subrange(0, i as int));
    }
    assert(v@ =~= s@);
    v
}

/// The bytes a key sends to a terminal.
pub fn key_to_bytes(code: KeyCode, modifiers: KeyModifiers) -> (v: Vec<u8>)
    ensures
        v@ == key_bytes(code, modifiers.control),
{
    match code {
        KeyCode::Char(c) => {
            if modifiers.control {
                let lower: u32 = if 'A' <= c && c <= 'Z' { (c as u32) + 32 } else { c as u32 };
                let low: u32 = lower % 256;
                let b: u8 = ((low + 256 - 96) % 256) as u8;
                let mut v: Vec<u8> = Vec::new();
                v.push(b);
                assert(v@ =~= seq![control_byte(c)]);
                v
            } else {
                let mut s = String::new();
                push_char(&mut s, c);
                assert(s@ =~= seq![c]);
                let v = bytes_of(s.as_str().as_bytes());
                v
            }
        },
        KeyCode::Enter => vec![0x0du8],
        KeyCode::Backspace => vec![0x7fu8],
        KeyCode::Tab => vec![0x09u8],
        KeyCode::Esc => vec![0x1bu8],
        KeyCode::Up => vec![0x1bu8, 0x5b, 0x41],
        KeyCode::Down => vec![0x1bu8, 0x5b, 0x42],
        KeyCode::Right => vec![0x1bu8, 0x5b, 0x43],
        KeyCode::Left => vec![0x1bu8, 0x5b, 0x44],
        KeyCode::Home => vec![0x1bu8, 0x5b, 0x48],
        KeyCode::End => vec![0x1bu8, 0x5b, 0x46],
        KeyCode::PageUp => vec![0x1bu8, 0x5b, 0x35, 0x7e],
        KeyCode::PageDown => vec![0x1bu8, 0x5b, 0x36, 0x7e],
        KeyCode::Delete => vec![0x1bu8, 0x5b, 0x33, 0x7e],
        KeyCode::Insert => vec![0x1bu8, 0x5b, 0x32, 0x7e],
        KeyCode::F(n) => {
            if n == 1 { vec![0x1bu8, 0x4f, 0x50] }
            else if n == 2 { vec![0x1bu8, 0x4f, 0x51] }
            else if n == 3 { vec![0x1bu8, 0x4f, 0x52] }
            else if n == 4 { vec![0x1bu8, 0x4f, 0x53] }
            else if n == 5 { vec![0x1bu8, 0x5b, 0x31, 0x35, 0x7e] }
            else if n == 6 { vec![0x1bu8, 0x5b, 0x31, 0x37, 0x7e] }
            else if n == 7 { vec![0x1bu8, 0x5b, 0x31, 0x38, 0x7e] }
            else if n == 8 { vec![0x1bu8, 0x5b, 0x31, 0x39, 0x7e] }
            else if n == 9 { vec![0x1bu8, 0x5b, 0x32, 0x30, 0x7e] }
            else if n == 10 { vec![0x1bu8, 0x5b, 0x32, 0x31, 0x7e] }
            else if n == 11 { vec![0x1bu8, 0x5b, 0x32, 0x33, 0x7e] }
            else if n == 12 { vec![0x1bu8, 0x5b, 0x32, 0x34, 0x7e] }
            else { Vec::new() }
        },
        _ => Vec::new(),
    }
}

} // verus!
