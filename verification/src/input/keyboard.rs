//! Keyboard handling: key events to the bytes a terminal program expects.

use vstd::prelude::*;
use vstd::utf8::encode_utf8;
use crate::render::window::{KeyCode, Modifiers};
use crate::term::terminal::TerminalModes;
use crate::text::{char_utf8_bytes, u64_to_decimal_bytes, decimal_bytes};

verus! {

/// Keyboard handler: the modes that change what keys send.
#[derive(Debug, Clone, Copy, PartialEq, Eq, Structural)]
pub struct KeyboardHandler {
    /// Application cursor key mode (DECCKM).
    pub application_cursor: bool,
    /// Application keypad mode (DECKPAM/DECKPNM).
    pub application_keypad: bool,
    /// Bracketed paste mode.
    pub bracketed_paste: bool,
}

/// `ESC [ 2 0 0 ~`
pub open spec fn paste_start() -> Seq<u8> {
    seq![0x1bu8, 0x5b, 0x32, 0x30, 0x30, 0x7e]
}

/// `ESC [ 2 0 1 ~`
pub open spec fn paste_end() -> Seq<u8> {
    seq![0x1bu8, 0x5b, 0x32, 0x30, 0x31, 0x7e]
}

/// ASCII lowercase of a character.
pub open spec fn ascii_lower(c: char) -> char {
    if 'A' <= c && c <= 'Z' { ((c as u32) + 32) as char } else { c }
}

/// The control code Ctrl plus a character sends, if any.
pub open spec fn ctrl_code(c: char) -> Option<u8> {
    let l = ascii_lower(c);
    if 'a' <= l && l <= 'z' { Some(((l as u32) - 0x61 + 1) as u8) }
    else if l == ' ' { Some(0) }
    else if l == '[' { Some(27) }
    else if l == '\\' { Some(28) }
    else if l == ']' { Some(29) }
    else if l == '^' { Some(30) }
    else if l == '_' { Some(31) }
    else { None }
}

/// The bytes a typed character sends: its control code with Ctrl (when it
/// has one), ESC then its UTF-8 with Alt, else its UTF-8.
pub open spec fn char_bytes(c: char, m: Modifiers) -> Seq<u8> {
    if m.ctrl && ctrl_code(c).is_some() {
        seq![ctrl_code(c).unwrap()]
    } else if m.alt {
        seq![0x1bu8] + encode_utf8(seq![c])
    } else {
        encode_utf8(seq![c])
    }
}

/// The xterm modifier parameter: 1 + shift + 2 alt + 4 ctrl + 8 meta.
pub open spec fn modifier_param(m: Modifiers) -> int {
    1 + (if m.shift { 1int } else { 0 }) + (if m.alt { 2int } else { 0 }) + (if m.ctrl { 4int } else { 0 }) + (if m.meta { 8int } else { 0 })
}

/// A CSI sequence with the modifier parameter added: `ESC [ N ~` becomes
/// `ESC [ N ; m ~`, `ESC [ X` becomes `ESC [ 1 ; m X`; anything else, and
/// any sequence when no modifier counts, stays as it is.
pub open spec fn with_modifiers(b: Seq<u8>, m: Modifiers) -> Seq<u8> {
    let p = modifier_param(m);
    if p == 1 {
        b
    } else if b.len() >= 3 && b.last() == 0x7e {
        seq![b[0], b[1]] + b.subrange(2, b.len() - 1) + seq![0x3bu8] + decimal_bytes(p as nat) + seq![0x7eu8]
    } else if b.len() == 3 {
        seq![b[0], b[1], 0x31u8, 0x3b] + decimal_bytes(p as nat) + seq![b[2]]
    } else {
        b
    }
}

/// The sequence a special key sends before modifiers (cursor keys use `O`
/// in application cursor mode).
pub open spec fn key_sequence(key: KeyCode, app_cursor: bool, m: Modifiers) -> Seq<u8> {
    let p: u8 = if app_cursor { 0x4f } else { 0x5b };
    match key {
        KeyCode::Up => seq![0x1bu8, p, 0x41],
        KeyCode::Down => seq![0x1bu8, p, 0x42],
        KeyCode::Right => seq![0x1bu8, p, 0x43],
        KeyCode::Left => seq![0x1bu8, p, 0x44],
        KeyCode::Home => seq![0x1bu8, 0x5b, 0x48],
        KeyCode::End => seq![0x1bu8, 0x5b, 0x46],
        KeyCode::PageUp => seq![0x1bu8, 0x5b, 0x35, 0x7e],
        KeyCode::PageDown => seq![0x1bu8, 0x5b, 0x36, 0x7e],
        KeyCode::Insert => seq![0x1bu8, 0x5b, 0x32, 0x7e],
        KeyCode::Delete => seq![0x1bu8, 0x5b, 0x33, 0x7e],
        KeyCode::Backspace => seq![0x7fu8],
        KeyCode::Tab => if m.shift { seq![0x1bu8, 0x5b, 0x5a] } else { seq![0x09u8] },
        KeyCode::Enter => seq![0x0du8],
        KeyCode::Escape => seq![0x1bu8],
        KeyCode::Space => seq![0x20u8],
        KeyCode::F1 => seq![0x1bu8, 0x4f, 0x50],
        KeyCode::F2 => seq![0x1bu8, 0x4f, 0x51],
        KeyCode::F3 => seq![0x1bu8, 0x4f, 0x52],
        KeyCode::F4 => seq![0x1bu8, 0x4f, 0x53],
        KeyCode::F5 => seq![0x1bu8, 0x5b, 0x31, 0x35, 0x7e],
        KeyCode::F6 => seq![0x1bu8, 0x5b, 0x31, 0x37, 0x7e],
        KeyCode::F7 => seq![0x1bu8, 0x5b, 0x31, 0x38, 0x7e],
        KeyCode::F8 => seq![0x1bu8, 0x5b, 0x31, 0x39, 0x7e],
        KeyCode::F9 => seq![0x1bu8, 0x5b, 0x32, 0x30, 0x7e],
        KeyCode::F10 => seq![0x1bu8, 0x5b, 0x32, 0x31, 0x7e],
        KeyCode::F11 => seq![0x1bu8, 0x5b, 0x32, 0x33, 0x7e],
        KeyCode::F12 => seq![0x1bu8, 0x5b, 0x32, 0x34, 0x7e],
        KeyCode::Character(c) => char_bytes(c, m),
    }
}

/// The bytes a key sends: a character as typed; a special key's sequence,
/// with the modifiers added to CSI sequences (not to Tab).
pub open spec fn key_bytes(key: KeyCode, app_cursor: bool, m: Modifiers) -> Seq<u8> {
    match key {
        KeyCode::Character(c) => char_bytes(c, m),
        _ => {
            let b = key_sequence(key, app_cursor, m);
            if (m.ctrl || m.alt || m.shift) && b.len() > 2 && b[1] == 0x5b && key != KeyCode::Tab {
                with_modifiers(b, m)
            } else {
                b
            }
        },
    }
}

fn ascii_lower_exec(c: char) -> (l: char)
    ensures l == ascii_lower(c),
{
    if 'A' <= c && c <= 'Z' {
        let lower: [char; 26] = ['a', 'b', 'c', 'd', 'e', 'f', 'g', 'h', 'i', 'j', 'k', 'l', 'm',
            'n', 'o', 'p', 'q', 'r', 's', 't', 'u', 'v', 'w', 'x', 'y', 'z'];
        let i: usize = (c as u32 - 0x41) as usize;
        assert(forall|j: int| 0 <= j < 26 ==> (#[trigger] lower@[j]) as u32 == 0x61 + j);
        lower[i]
    } else {
        c
    }
}

fn ctrl_code_exec(c: char) -> (r: Option<u8>)
    ensures r == ctrl_code(c),
{
    let l = ascii_lower_exec(c);
    if 'a' <= l && l <= 'z' {
        Some((l as u32 - 0x61 + 1) as u8)
    } else if l == ' ' {
        Some(0)
    } else if l == '[' {
        Some(27)
    } else if l == '\\' {
        Some(28)
    } else if l == ']' {
        Some(29)
    } else if l == '^' {
        Some(30)
    } else if l == '_' {
        Some(31)
    } else {
        None
    }
}

fn bytes_of(s: &[u8]) -> (v: Vec<u8>)
    ensures v@ == s@,
{
    let mut v: Vec<u8> = Vec::new();
    v.extend_from_slice(s);
    v
}

/// Add the modifier parameter to a CSI sequence.
#[verifier::rlimit(40)]
fn add_modifiers(bytes: &[u8], modifiers: &Modifiers) -> (r: Vec<u8>)
    requires
        bytes@.len() >= 2,
    ensures
        r@ == with_modifiers(bytes@, *modifiers),
{
    let mut modifier: u64 = 1;
    if modifiers.shift { modifier = modifier + 1; }
    if modifiers.alt { modifier = modifier + 2; }
    if modifiers.ctrl { modifier = modifier + 4; }
    if modifiers.meta { modifier = modifier + 8; }
    if modifier == 1 {
        return bytes_of(bytes);
    }
    let n = bytes.len();
    let mut result: Vec<u8> = Vec::new();
    result.push(bytes[0]);
    result.push(bytes[1]);
    if n >= 3 && bytes[n - 1] == 0x7e {
        let mut i: usize = 2;
        while i < n - 1
            invariant
                2 <= i <= n - 1,
                n == bytes@.len(),
                result@ =~= seq![bytes@[0], bytes@[1]] + bytes@.subrange(2, i as int),
            decreases n - 1 - i,
        {
            result.push(bytes[i]);
            i = i + 1;
        }
        result.push(0x3b);
        let mut digits = u64_to_decimal_bytes(modifier);
        result.append(&mut digits);
        result.push(0x7e);
        assert(result@ =~= with_modifiers(bytes@, *modifiers));
        result
    } else if n == 3 {
        result.push(0x31);
        result.push(0x3b);
        let mut digits = u64_to_decimal_bytes(modifier);
        result.append(&mut digits);
        result.push(bytes[2]);
        assert(result@ =~= with_modifiers(bytes@, *modifiers));
        result
    } else {
        bytes_of(bytes)
    }
}

impl KeyboardHandler {
    pub fn new() -> (h: Self)
        ensures h == (KeyboardHandler { application_cursor: false, application_keypad: false, bracketed_paste: false }),
    {
        KeyboardHandler { application_cursor: false, application_keypad: false, bracketed_paste: false }
    }

    /// Take the key modes from the terminal.
    pub fn sync_modes(&mut self, modes: &TerminalModes)
        ensures
            *final(self) == (KeyboardHandler {
                application_cursor: modes.application_cursor,
                application_keypad: modes.application_keypad,
                bracketed_paste: modes.bracketed_paste,
            }),
    {
        self.application_cursor = modes.application_cursor;
        self.application_keypad = modes.application_keypad;
        self.bracketed_paste = modes.bracketed_paste;
    }

    /// The sequence that starts a bracketed paste, in bracketed paste mode.
    pub fn bracketed_paste_start(&self) -> (s: Option<Vec<u8>>)
        ensures
            s.is_some() == self.bracketed_paste,
            s.is_some() ==> s.unwrap()@ == paste_start(),
    {
        if self.bracketed_paste {
            let v: Vec<u8> = vec![0x1bu8, 0x5b, 0x32, 0x30, 0x30, 0x7e];
            assert(v@ =~= paste_start());
            Some(v)
        } else {
            None
        }
    }

    /// The sequence that ends a bracketed paste, in bracketed paste mode.
    pub fn bracketed_paste_end(&self) -> (s: Option<Vec<u8>>)
        ensures
            s.is_some() == self.bracketed_paste,
            s.is_some() ==> s.unwrap()@ == paste_end(),
    {
        if self.bracketed_paste {
            let v: Vec<u8> = vec![0x1bu8, 0x5b, 0x32, 0x30, 0x31, 0x7e];
            assert(v@ =~= paste_end());
            Some(v)
        } else {
            None
        }
    }

    /// The bytes a typed character sends.
    pub fn char_to_bytes(&self, c: char, modifiers: &Modifiers) -> (b: Vec<u8>)
        ensures b@ == char_bytes(c, *modifiers),
    {
        if modifiers.ctrl {
            if let Some(code) = ctrl_code_exec(c) {
                let v: Vec<u8> = vec![code];
                assert(v@ =~= seq![code]);
                return v;
            }
        }
        if modifiers.alt {
            let mut bytes: Vec<u8> = vec![0x1bu8];
            let mut enc = char_utf8_bytes(c);
            bytes.append(&mut enc);
            assert(bytes@ =~= seq![0x1bu8] + encode_utf8(seq![c]));
            return bytes;
        }
        char_utf8_bytes(c)
    }

    /// The bytes a key sends.
    pub fn key_to_bytes(&self, key: KeyCode, modifiers: &Modifiers) -> (b: Option<Vec<u8>>)
        ensures
            b.is_some(),
            b.unwrap()@ == key_bytes(key, self.application_cursor, *modifiers),
    {
        let p: u8 = if self.application_cursor { 0x4f } else { 0x5b };
        let bytes: Vec<u8> = match key {
            KeyCode::Up => vec![0x1bu8, p, 0x41],
            KeyCode::Down => vec![0x1bu8, p, 0x42],
            KeyCode::Right => vec![0x1bu8, p, 0x43],
            KeyCode::Left => vec![0x1bu8, p, 0x44],
            KeyCode::Home => vec![0x1bu8, 0x5b, 0x48],
            KeyCode::End => vec![0x1bu8, 0x5b, 0x46],
            KeyCode::PageUp => vec![0x1bu8, 0x5b, 0x35, 0x7e],
            KeyCode::PageDown => vec![0x1bu8, 0x5b, 0x36, 0x7e],
            KeyCode::Insert => vec![0x1bu8, 0x5b, 0x32, 0x7e],
            KeyCode::Delete => vec![0x1bu8, 0x5b, 0x33, 0x7e],
            KeyCode::Backspace => vec![0x7fu8],
            KeyCode::Tab => if modifiers.shift { vec![0x1bu8, 0x5b, 0x5a] } else { vec![0x09u8] },
            KeyCode::Enter => vec![0x0du8],
            KeyCode::Escape => vec![0x1bu8],
            KeyCode::Space => vec![0x20u8],
            KeyCode::F1 => vec![0x1bu8, 0x4f, 0x50],
            KeyCode::F2 => vec![0x1bu8, 0x4f, 0x51],
            KeyCode::F3 => vec![0x1bu8, 0x4f, 0x52],
            KeyCode::F4 => vec![0x1bu8, 0x4f, 0x53],
            KeyCode::F5 => vec![0x1bu8, 0x5b, 0x31, 0x35, 0x7e],
            KeyCode::F6 => vec![0x1bu8, 0x5b, 0x31, 0x37, 0x7e],
            KeyCode::F7 => vec![0x1bu8, 0x5b, 0x31, 0x38, 0x7e],
            KeyCode::F8 => vec![0x1bu8, 0x5b, 0x31, 0x39, 0x7e],
            KeyCode::F9 => vec![0x1bu8, 0x5b, 0x32, 0x30, 0x7e],
            KeyCode::F10 => vec![0x1bu8, 0x5b, 0x32, 0x31, 0x7e],
            KeyCode::F11 => vec![0x1bu8, 0x5b, 0x32, 0x33, 0x7e],
            KeyCode::F12 => vec![0x1bu8, 0x5b, 0x32, 0x34, 0x7e],
            KeyCode::Character(c) => return Some(self.char_to_bytes(c, modifiers)),
        };
        assert(bytes@ =~= key_sequence(key, self.application_cursor, *modifiers));
        let is_tab = match key {
            KeyCode::Tab => true,
            _ => false,
        };
        let should_add_mods = (modifiers.ctrl || modifiers.alt || modifiers.shift)
            && bytes.len() > 2 && bytes[1] == 0x5b && !is_tab;
        if should_add_mods {
            Some(add_modifiers(bytes.as_slice(), modifiers))
        } else {
            Some(bytes)
        }
    }
}

impl Default for KeyboardHandler {
    fn default() -> (h: Self)
        ensures h == (KeyboardHandler { application_cursor: false, application_keypad: false, bracketed_paste: false }),
    {
        Self::new()
    }
}


/// The editing keys send the VT220 sequences `ESC [ N ~` that name them by
/// number: Insert 2, Delete 3, PageUp 5, PageDown 6. With modifiers the
/// number stays in place and the sequence still ends in `~`; without any it
/// is exactly those four bytes. So PageUp and PageDown (and the other two)
/// never send each other's sequence, whatever the modifiers and cursor mode.
pub proof fn law_editing_key_sequences(app_cursor: bool, m: Modifiers)
    ensures
        forall|k: KeyCode, n: u8| #![trigger key_bytes(k, app_cursor, m), vt220_number(k, n)] vt220_number(k, n) ==> {
            let b = key_bytes(k, app_cursor, m);
            &&& b.len() >= 4
            &&& b[0] == 0x1b && b[1] == 0x5b && b[2] == n && b.last() == 0x7e
            &&& (!m.shift && !m.alt && !m.ctrl) ==> b == seq![0x1bu8, 0x5b, n, 0x7e]
        },
        key_bytes(KeyCode::PageUp, app_cursor, m) != key_bytes(KeyCode::PageDown, app_cursor, m),
        key_bytes(KeyCode::Insert, app_cursor, m) != key_bytes(KeyCode::Delete, app_cursor, m),
{
    assert forall|k: KeyCode, n: u8| #![trigger key_bytes(k, app_cursor, m), vt220_number(k, n)] vt220_number(k, n) implies {
        let b = key_bytes(k, app_cursor, m);
        &&& b.len() >= 4
        &&& b[0] == 0x1b && b[1] == 0x5b && b[2] == n && b.last() == 0x7e
        &&& (!m.shift && !m.alt && !m.ctrl) ==> b == seq![0x1bu8, 0x5b, n, 0x7e]
    } by {
        let s = seq![0x1bu8, 0x5b, n, 0x7e];
        assert(key_sequence(k, app_cursor, m) == s);
        if (m.ctrl || m.alt || m.shift) {
            let p = modifier_param(m);
            assert(p != 1);
            let b = with_modifiers(s, m);
            assert(b == seq![s[0], s[1]] + s.subrange(2, 3) + seq![0x3bu8] + decimal_bytes(p as nat) + seq![0x7eu8]);
            assert(b[2] == n);
        }
    }
    assert(vt220_number(KeyCode::PageUp, 0x35) && vt220_number(KeyCode::PageDown, 0x36));
    assert(key_bytes(KeyCode::PageUp, app_cursor, m)[2] != key_bytes(KeyCode::PageDown, app_cursor, m)[2]);
    assert(vt220_number(KeyCode::Insert, 0x32) && vt220_number(KeyCode::Delete, 0x33));
    assert(key_bytes(KeyCode::Insert, app_cursor, m)[2] != key_bytes(KeyCode::Delete, app_cursor, m)[2]);
}

/// The VT220 number of an editing key, as the ASCII digit `n`.
pub open spec fn vt220_number(k: KeyCode, n: u8) -> bool {
    ||| (k == KeyCode::Insert && n == 0x32)
    ||| (k == KeyCode::Delete && n == 0x33)
    ||| (k == KeyCode::PageUp && n == 0x35)
    ||| (k == KeyCode::PageDown && n == 0x36)
}


/// An arrow key without modifiers sends `ESC [` (or `ESC O` in application
/// cursor mode) and a final letter; fed back as a CSI sequence, that letter
/// moves the cursor one cell in the arrow's direction. So the keys and the
/// cursor-movement sequences agree on which letter means which direction.
pub proof fn law_arrow_keys_move_cursor(app_cursor: bool)
    ensures ({
        let m = Modifiers { shift: false, ctrl: false, alt: false, meta: false };
        let lead: u8 = if app_cursor { 0x4f } else { 0x5b };
        let moves = |k: KeyCode| crate::ansi::csi::csi_calls_spec(Seq::<u16>::empty(), Seq::<u8>::empty(),
            key_bytes(k, app_cursor, m)[2] as char);
        &&& forall|k: KeyCode| #![trigger key_bytes(k, app_cursor, m)]
            (k == KeyCode::Up || k == KeyCode::Down || k == KeyCode::Right || k == KeyCode::Left) ==> {
                &&& key_bytes(k, app_cursor, m).len() == 3
                &&& key_bytes(k, app_cursor, m)[0] == 0x1b
                &&& key_bytes(k, app_cursor, m)[1] == lead
            }
        &&& moves(KeyCode::Up) == seq![crate::ansi::csi::CsiCall::MoveUp(1)]
        &&& moves(KeyCode::Down) == seq![crate::ansi::csi::CsiCall::MoveDown(1)]
        &&& moves(KeyCode::Right) == seq![crate::ansi::csi::CsiCall::MoveForward(1)]
        &&& moves(KeyCode::Left) == seq![crate::ansi::csi::CsiCall::MoveBackward(1)]
    }),
{
    let m = Modifiers { shift: false, ctrl: false, alt: false, meta: false };
    assert(key_bytes(KeyCode::Up, app_cursor, m)[2] as char == 'A');
    assert(key_bytes(KeyCode::Down, app_cursor, m)[2] as char == 'B');
    assert(key_bytes(KeyCode::Right, app_cursor, m)[2] as char == 'C');
    assert(key_bytes(KeyCode::Left, app_cursor, m)[2] as char == 'D');
}

} // verus!
