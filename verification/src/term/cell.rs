//! Terminal cell representation with grapheme cluster support.

use vstd::prelude::*;
use crate::text::{chars_of, string_from_chars};

verus! {

/// RGB color.
#[derive(Clone, Copy, Debug, PartialEq, Eq, Default, Structural)]
pub struct Color {
    pub r: u8,
    pub g: u8,
    pub b: u8,
}

/// The color with the given components, as a value.
pub open spec fn rgb(r: u8, g: u8, b: u8) -> Color {
    Color { r, g, b }
}

/// Value of a hexadecimal digit, if the character is one.
pub open spec fn hex_digit_value(c: char) -> Option<u8> {
    if '0' <= c && c <= '9' {
        Some((c as u32 - '0' as u32) as u8)
    } else if 'a' <= c && c <= 'f' {
        Some((c as u32 - 'a' as u32 + 10) as u8)
    } else if 'A' <= c && c <= 'F' {
        Some((c as u32 - 'A' as u32 + 10) as u8)
    } else {
        None
    }
}

/// A two-character field read as an unsigned hexadecimal byte: two hex digits,
/// or a `+` sign followed by one hex digit (as Rust's radix parser accepts).
pub open spec fn hex_pair_value(a: char, b: char) -> Option<u8> {
    if a == '+' {
        hex_digit_value(b)
    } else {
        match (hex_digit_value(a), hex_digit_value(b)) {
            (Some(x), Some(y)) => Some((x * 16 + y) as u8),
            _ => None,
        }
    }
}

/// The sequence with all leading occurrences of `c` removed.
pub open spec fn strip_leading(s: Seq<char>, c: char) -> Seq<char>
    decreases s.len(),
{
    if s.len() > 0 && s[0] == c {
        strip_leading(s.drop_first(), c)
    } else {
        s
    }
}

/// Six hexadecimal characters read as an RGB color.
pub open spec fn hex_color_value(h: Seq<char>) -> Option<Color> {
    if h.len() != 6 {
        None
    } else {
        match (hex_pair_value(h[0], h[1]), hex_pair_value(h[2], h[3]), hex_pair_value(h[4], h[5])) {
            (Some(r), Some(g), Some(b)) => Some(rgb(r, g, b)),
            _ => None,
        }
    }
}

/// The default 16-entry ANSI palette.
pub open spec fn default_palette_color(i: int) -> Color {
    if i == 0 { rgb(0x28, 0x2a, 0x2e) }
    else if i == 1 { rgb(0xa5, 0x42, 0x42) }
    else if i == 2 { rgb(0x8c, 0x94, 0x40) }
    else if i == 3 { rgb(0xde, 0x93, 0x5f) }
    else if i == 4 { rgb(0x5f, 0x81, 0x9d) }
    else if i == 5 { rgb(0x85, 0x67, 0x8f) }
    else if i == 6 { rgb(0x5e, 0x8d, 0x87) }
    else if i == 7 { rgb(0x70, 0x78, 0x80) }
    else if i == 8 { rgb(0x37, 0x3b, 0x41) }
    else if i == 9 { rgb(0xcc, 0x66, 0x66) }
    else if i == 10 { rgb(0xb5, 0xbd, 0x68) }
    else if i == 11 { rgb(0xf0, 0xc6, 0x74) }
    else if i == 12 { rgb(0x81, 0xa2, 0xbe) }
    else if i == 13 { rgb(0xb2, 0x94, 0xbb) }
    else if i == 14 { rgb(0x8a, 0xbe, 0xb7) }
    else { rgb(0xc5, 0xc8, 0xc6) }
}

/// Color palette for the 16 ANSI colors (configurable).
#[derive(Clone, Copy, Debug)]
pub struct ColorPalette {
    /// 16 ANSI colors (0-7 normal, 8-15 bright).
    pub colors: [Color; 16],
}

/// The color a palette gives for an index: its entry below 16, white above.
pub open spec fn palette_lookup(p: ColorPalette, index: u8) -> Color {
    if index < 16 { p.colors@[index as int] } else { rgb(255, 255, 255) }
}

/// Color of a 256-color code of 16 or more: the 6x6x6 cube, then 24 grays.
pub open spec fn extended_color(code: u8) -> Color {
    if code < 232 {
        let idx = code - 16;
        let r = (idx / 36) % 6;
        let g = (idx / 6) % 6;
        let b = idx % 6;
        rgb(
            (if r == 0 { 0 } else { 55 + r * 40 }) as u8,
            (if g == 0 { 0 } else { 55 + g * 40 }) as u8,
            (if b == 0 { 0 } else { 55 + b * 40 }) as u8,
        )
    } else {
        let gray = (8 + (code - 232) * 10) as u8;
        rgb(gray, gray, gray)
    }
}

/// Color of a 256-color code, the first 16 taken from the palette.
pub open spec fn color_256_value(code: u8, p: ColorPalette) -> Color {
    if code < 16 { palette_lookup(p, code) } else { extended_color(code) }
}

/// Color of a 256-color code with the default palette.
pub open spec fn default_color_256(code: u8) -> Color {
    if code < 16 { default_palette_color(code as int) } else { extended_color(code) }
}

/// The default palette, as a value.
pub open spec fn is_default_palette(p: ColorPalette) -> bool {
    forall|i: int| 0 <= i < 16 ==> #[trigger] p.colors@[i] == default_palette_color(i)
}

impl ColorPalette {
    /// Create a palette from sixteen configured colors.
    pub fn from_config(
        black: Color, red: Color, green: Color, yellow: Color,
        blue: Color, magenta: Color, cyan: Color, white: Color,
        bright_black: Color, bright_red: Color, bright_green: Color, bright_yellow: Color,
        bright_blue: Color, bright_magenta: Color, bright_cyan: Color, bright_white: Color,
    ) -> (p: Self)
        ensures
            p.colors@ == seq![black, red, green, yellow, blue, magenta, cyan, white,
                bright_black, bright_red, bright_green, bright_yellow,
                bright_blue, bright_magenta, bright_cyan, bright_white],
    {
        let p = ColorPalette {
            colors: [
                black, red, green, yellow, blue, magenta, cyan, white,
                bright_black, bright_red, bright_green, bright_yellow,
                bright_blue, bright_magenta, bright_cyan, bright_white,
            ],
        };
        assert(p.colors@ =~= seq![black, red, green, yellow, blue, magenta, cyan, white,
                bright_black, bright_red, bright_green, bright_yellow,
                bright_blue, bright_magenta, bright_cyan, bright_white]);
        p
    }

    /// Get color by ANSI index (0-15); other indices give white.
    pub fn get(&self, index: u8) -> (c: Color)
        ensures
            c == palette_lookup(*self, index),
    {
        if index < 16 {
            self.colors[index as usize]
        } else {
            Color::rgb(255, 255, 255)
        }
    }

    /// Set color by ANSI index (0-15); other indices are ignored.
    pub fn set(&mut self, index: u8, color: Color)
        ensures
            index < 16 ==> final(self).colors@ == old(self).colors@.update(index as int, color),
            index >= 16 ==> *final(self) == *old(self),
    {
        if index < 16 {
            self.colors[index as usize] = color;
        }
    }
}

impl Default for ColorPalette {
    fn default() -> (p: Self)
        ensures
            is_default_palette(p),
    {
        let p = ColorPalette {
            colors: [
                Color::rgb(0x28, 0x2a, 0x2e),
                Color::rgb(0xa5, 0x42, 0x42),
                Color::rgb(0x8c, 0x94, 0x40),
                Color::rgb(0xde, 0x93, 0x5f),
                Color::rgb(0x5f, 0x81, 0x9d),
                Color::rgb(0x85, 0x67, 0x8f),
                Color::rgb(0x5e, 0x8d, 0x87),
                Color::rgb(0x70, 0x78, 0x80),
                Color::rgb(0x37, 0x3b, 0x41),
                Color::rgb(0xcc, 0x66, 0x66),
                Color::rgb(0xb5, 0xbd, 0x68),
                Color::rgb(0xf0, 0xc6, 0x74),
                Color::rgb(0x81, 0xa2, 0xbe),
                Color::rgb(0xb2, 0x94, 0xbb),
                Color::rgb(0x8a, 0xbe, 0xb7),
                Color::rgb(0xc5, 0xc8, 0xc6),
            ],
        };
        assert forall|i: int| 0 <= i < 16 implies #[trigger] p.colors@[i] == default_palette_color(i) by {
            if i == 0 {} else if i == 1 {} else if i == 2 {} else if i == 3 {}
            else if i == 4 {} else if i == 5 {} else if i == 6 {} else if i == 7 {}
            else if i == 8 {} else if i == 9 {} else if i == 10 {} else if i == 11 {}
            else if i == 12 {} else if i == 13 {} else if i == 14 {} else {}
        }
        p
    }
}

/// Cell attribute flags (a set of bits).
#[derive(Clone, Copy, Debug, PartialEq, Eq, Default, Structural)]
pub struct CellFlags {
    pub bits: u16,
}

pub open spec fn flag_set(bits: u16) -> CellFlags {
    CellFlags { bits }
}

impl CellFlags {
    pub fn from_bits(bits: u16) -> (f: CellFlags)
        ensures f.bits == bits,
    {
        CellFlags { bits }
    }

    pub fn empty() -> (f: CellFlags)
        ensures f.bits == 0,
    {
        CellFlags { bits: 0 }
    }

    pub fn bold() -> (f: CellFlags) ensures f.bits == 0x001 { CellFlags { bits: 0x001 } }
    pub fn dim() -> (f: CellFlags) ensures f.bits == 0x002 { CellFlags { bits: 0x002 } }
    pub fn italic() -> (f: CellFlags) ensures f.bits == 0x004 { CellFlags { bits: 0x004 } }
    pub fn underline() -> (f: CellFlags) ensures f.bits == 0x008 { CellFlags { bits: 0x008 } }
    pub fn blink() -> (f: CellFlags) ensures f.bits == 0x010 { CellFlags { bits: 0x010 } }
    pub fn inverse() -> (f: CellFlags) ensures f.bits == 0x020 { CellFlags { bits: 0x020 } }
    pub fn hidden() -> (f: CellFlags) ensures f.bits == 0x040 { CellFlags { bits: 0x040 } }
    pub fn strikethrough() -> (f: CellFlags) ensures f.bits == 0x080 { CellFlags { bits: 0x080 } }
    pub fn wide() -> (f: CellFlags) ensures f.bits == 0x100 { CellFlags { bits: 0x100 } }
    pub fn wide_spacer() -> (f: CellFlags) ensures f.bits == 0x200 { CellFlags { bits: 0x200 } }

    /// No flag is set.
    pub fn is_empty(&self) -> (b: bool)
        ensures b == (self.bits == 0),
    {
        self.bits == 0
    }

    /// Every flag of `other` is set in `self`.
    pub fn contains(&self, other: CellFlags) -> (b: bool)
        ensures b == (self.bits & other.bits == other.bits),
    {
        self.bits & other.bits == other.bits
    }

    /// Set the flags of `other`.
    pub fn insert(&mut self, other: CellFlags)
        ensures final(self).bits == old(self).bits | other.bits,
    {
        self.bits = self.bits | other.bits;
    }

    /// Clear the flags of `other`.
    pub fn remove(&mut self, other: CellFlags)
        ensures final(self).bits == old(self).bits & !other.bits,
    {
        self.bits = self.bits & !other.bits;
    }

    /// The flags set in either.
    pub fn union(self, other: CellFlags) -> (f: CellFlags)
        ensures f.bits == self.bits | other.bits,
    {
        CellFlags { bits: self.bits | other.bits }
    }
}

impl core::ops::BitOr for CellFlags {
    type Output = CellFlags;

    fn bitor(self, other: CellFlags) -> (f: CellFlags)
        ensures f.bits == self.bits | other.bits,
    {
        CellFlags { bits: self.bits | other.bits }
    }
}

impl vstd::std_specs::ops::BitOrSpecImpl for CellFlags {
    open spec fn obeys_bitor_spec() -> bool {
        true
    }

    open spec fn bitor_req(self, rhs: CellFlags) -> bool {
        true
    }

    open spec fn bitor_spec(self, rhs: CellFlags) -> CellFlags {
        CellFlags { bits: self.bits | rhs.bits }
    }
}

/// Grapheme cluster storage for multi-codepoint characters.
///
/// Key `k > 0` names `graphemes[k - 1]`; key 0 means "single character".
#[derive(Clone, Debug)]
pub struct GraphemeStorage {
    pub graphemes: Vec<String>,
}

/// Abstract content of the storage: key-indexed grapheme texts.
pub open spec fn storage_view(s: GraphemeStorage) -> Seq<Seq<char>> {
    s.graphemes@.map_values(|g: String| g@)
}

impl GraphemeStorage {
    pub fn new() -> (s: Self)
        ensures storage_view(s).len() == 0,
    {
        GraphemeStorage { graphemes: Vec::new() }
    }

    /// Store a grapheme cluster and return its key (the existing key if it is
    /// already stored).
    pub fn store(&mut self, grapheme: &str) -> (key: u32)
        requires
            old(self).graphemes.len() < u32::MAX,
        ensures
            key > 0,
            key as int <= storage_view(*final(self)).len(),
            storage_view(*final(self))[key - 1] == grapheme@,
            (exists|i: int| 0 <= i < storage_view(*old(self)).len() && storage_view(*old(self))[i] == grapheme@)
                ==> storage_view(*final(self)) == storage_view(*old(self)),
            !(exists|i: int| 0 <= i < storage_view(*old(self)).len() && storage_view(*old(self))[i] == grapheme@)
                ==> storage_view(*final(self)) == storage_view(*old(self)).push(grapheme@)
                    && key as int == storage_view(*final(self)).len(),
    {
        let target = string_from_chars(&chars_of(grapheme));
        let mut i: usize = 0;
        while i < self.graphemes.len()
            invariant
                0 <= i <= self.graphemes.len(),
                target@ == grapheme@,
                *self == *old(self),
                self.graphemes.len() < u32::MAX,
                forall|j: int| 0 <= j < i ==> storage_view(*self)[j] != grapheme@,
            decreases self.graphemes.len() - i,
        {
            if self.graphemes[i] == target {
                return (i + 1) as u32;
            }
            i = i + 1;
        }
        self.graphemes.push(target);
        assert(storage_view(*self) =~= storage_view(*old(self)).push(grapheme@));
        self.graphemes.len() as u32
    }

    /// Get grapheme by key.
    pub fn get(&self, key: u32) -> (g: Option<&str>)
        ensures
            (key > 0 && key as int <= storage_view(*self).len()) ==> g.is_some() && g.unwrap()@ == storage_view(*self)[key - 1],
            !(key > 0 && key as int <= storage_view(*self).len()) ==> g.is_none(),
    {
        if key > 0 && (key as usize) <= self.graphemes.len() {
            Some(self.graphemes[(key - 1) as usize].as_str())
        } else {
            None
        }
    }

    /// Clear storage.
    pub fn clear(&mut self)
        ensures storage_view(*final(self)).len() == 0,
    {
        self.graphemes.clear();
    }

    /// Number of stored graphemes.
    pub fn len(&self) -> (n: usize)
        ensures n == storage_view(*self).len(),
    {
        self.graphemes.len()
    }

    /// Check if empty.
    pub fn is_empty(&self) -> (b: bool)
        ensures b == (storage_view(*self).len() == 0),
    {
        self.graphemes.len() == 0
    }
}

impl Default for GraphemeStorage {
    fn default() -> (s: Self)
        ensures storage_view(s).len() == 0,
    {
        GraphemeStorage::new()
    }
}

/// Create a new grapheme storage.
pub fn new_grapheme_storage() -> (s: GraphemeStorage)
    ensures storage_view(s).len() == 0,
{
    GraphemeStorage::new()
}

/// Single terminal cell.
#[derive(Clone, Copy, Debug, PartialEq, Eq, Structural)]
pub struct Cell {
    /// Primary character (first codepoint of grapheme).
    pub c: char,
    /// Grapheme key for multi-codepoint clusters (0 = single char only).
    pub grapheme_key: u32,
    pub fg: Color,
    pub bg: Color,
    pub flags: CellFlags,
    /// Hyperlink ID (0 = no link).
    pub hyperlink_id: u32,
}

/// The blank cell: a space, white on black, no flags, no link.
pub open spec fn blank_cell() -> Cell {
    Cell { c: ' ', grapheme_key: 0, fg: rgb(255, 255, 255), bg: rgb(0, 0, 0), flags: flag_set(0), hyperlink_id: 0 }
}

impl Color {
    pub fn rgb(r: u8, g: u8, b: u8) -> (c: Self)
        ensures c == rgb(r, g, b),
    {
        Color { r, g, b }
    }

    /// Parse a hex color string (with or without leading `#`).
    pub fn from_hex(hex: &str) -> (c: Option<Self>)
        ensures c == hex_color_value(strip_leading(hex@, '#')),
    {
        let chars = chars_of(hex);
        let mut start: usize = 0;
        assert(hex@.skip(0) =~= hex@);
        while start < chars.len() && chars[start] == '#'
            invariant
                0 <= start <= chars.len(),
                chars@ == hex@,
                strip_leading(hex@, '#') == strip_leading(hex@.skip(start as int), '#'),
            decreases chars.len() - start,
        {
            assert(hex@.skip(start as int).drop_first() =~= hex@.skip(start + 1));
            start = start + 1;
        }
        let ghost rest = hex@.skip(start as int);
        assert(strip_leading(rest, '#') == rest);
        if chars.len() - start != 6 {
            return None;
        }
        let r = hex_pair(chars[start], chars[start + 1]);
        let g = hex_pair(chars[start + 2], chars[start + 3]);
        let b = hex_pair(chars[start + 4], chars[start + 5]);
        assert(rest[0] == chars@[start as int] && rest[5] == chars@[start + 5]);
        match (r, g, b) {
            (Some(r), Some(g), Some(b)) => Some(Color::rgb(r, g, b)),
            _ => None,
        }
    }

    /// Convert an 8-color ANSI code to RGB with the default palette.
    pub fn from_ansi(code: u8) -> (c: Self)
        ensures
            code < 8 ==> c == default_palette_color(code as int),
            code >= 8 ==> c == rgb(255, 255, 255),
    {
        Self::from_ansi_with_palette(code, &ColorPalette::default())
    }

    /// Convert an 8-color ANSI code to RGB using the palette.
    pub fn from_ansi_with_palette(code: u8, palette: &ColorPalette) -> (c: Self)
        ensures
            code < 8 ==> c == palette.colors@[code as int],
            code >= 8 ==> c == rgb(255, 255, 255),
    {
        if code < 8 {
            palette.get(code)
        } else {
            Self::rgb(255, 255, 255)
        }
    }

    /// Convert a 256-color code to RGB with the default palette.
    pub fn from_256(code: u8) -> (c: Self)
        ensures
            c == default_color_256(code),
    {
        let p = ColorPalette::default();
        let c = Self::from_256_with_palette(code, &p);
        if code < 16 {
            assert(p.colors@[code as int] == default_palette_color(code as int));
        }
        c
    }

    /// Convert a 256-color code to RGB, the first 16 from the palette.
    pub fn from_256_with_palette(code: u8, palette: &ColorPalette) -> (c: Self)
        ensures
            c == color_256_value(code, *palette),
    {
        if code < 16 {
            palette.get(code)
        } else if code < 232 {
            let idx: u8 = code - 16;
            let r: u8 = (idx / 36) % 6;
            let g: u8 = (idx / 6) % 6;
            let b: u8 = idx % 6;
            Self::rgb(
                if r == 0 { 0 } else { 55 + r * 40 },
                if g == 0 { 0 } else { 55 + g * 40 },
                if b == 0 { 0 } else { 55 + b * 40 },
            )
        } else {
            let gray: u8 = 8 + (code - 232) * 10;
            Self::rgb(gray, gray, gray)
        }
    }
}

/// Parse one hexadecimal digit.
fn hex_digit(c: char) -> (v: Option<u8>)
    ensures v == hex_digit_value(c),
{
    if '0' <= c && c <= '9' {
        Some((c as u32 - '0' as u32) as u8)
    } else if 'a' <= c && c <= 'f' {
        Some((c as u32 - 'a' as u32 + 10) as u8)
    } else if 'A' <= c && c <= 'F' {
        Some((c as u32 - 'A' as u32 + 10) as u8)
    } else {
        None
    }
}

/// Parse a two-character hexadecimal byte field.
pub fn hex_pair(a: char, b: char) -> (v: Option<u8>)
    ensures v == hex_pair_value(a, b),
{
    if a == '+' {
        hex_digit(b)
    } else {
        match (hex_digit(a), hex_digit(b)) {
            (Some(x), Some(y)) => Some(x * 16 + y),
            _ => None,
        }
    }
}

impl Cell {
    /// Create a new cell holding a single character.
    pub fn new(c: char) -> (cell: Self)
        ensures cell == (Cell { c: c, ..blank_cell() }),
    {
        Cell { c, grapheme_key: 0, fg: Color::rgb(255, 255, 255), bg: Color::rgb(0, 0, 0), flags: CellFlags::empty(), hyperlink_id: 0 }
    }

    /// Create a cell with a grapheme cluster key.
    pub fn with_grapheme(c: char, grapheme_key: u32) -> (cell: Self)
        ensures cell == (Cell { c: c, grapheme_key: grapheme_key, ..blank_cell() }),
    {
        Cell { c, grapheme_key, fg: Color::rgb(255, 255, 255), bg: Color::rgb(0, 0, 0), flags: CellFlags::empty(), hyperlink_id: 0 }
    }

    /// Create an empty cell.
    pub fn empty() -> (cell: Self)
        ensures cell == blank_cell(),
    {
        Cell { c: ' ', grapheme_key: 0, fg: Color::rgb(255, 255, 255), bg: Color::rgb(0, 0, 0), flags: CellFlags::empty(), hyperlink_id: 0 }
    }

    /// A space with no grapheme, no flags and no link.
    pub fn is_empty(&self) -> (b: bool)
        ensures b == (self.c == ' ' && self.grapheme_key == 0 && self.flags.bits == 0 && self.hyperlink_id == 0),
    {
        self.c == ' ' && self.grapheme_key == 0 && self.flags.is_empty() && self.hyperlink_id == 0
    }

    /// Reset the cell to empty.
    pub fn reset(&mut self)
        ensures *final(self) == blank_cell(),
    {
        *self = Cell::empty();
    }

    pub fn has_hyperlink(&self) -> (b: bool)
        ensures b == (self.hyperlink_id != 0),
    {
        self.hyperlink_id != 0
    }

    pub fn has_grapheme(&self) -> (b: bool)
        ensures b == (self.grapheme_key != 0),
    {
        self.grapheme_key != 0
    }

    /// The display character (first char of grapheme or single char).
    pub fn display_char(&self) -> (c: char)
        ensures c == self.c,
    {
        self.c
    }

    pub fn c(&self) -> (c: char)
        ensures c == self.c,
    {
        self.c
    }

    /// Set the cell content from a character, dropping any grapheme.
    pub fn set_char(&mut self, c: char)
        ensures *final(self) == (Cell { c: c, grapheme_key: 0, ..*old(self) }),
    {
        self.c = c;
        self.grapheme_key = 0;
    }
}

impl Default for Cell {
    fn default() -> (cell: Self)
        ensures cell == blank_cell(),
    {
        Cell::empty()
    }
}

} // verus!
