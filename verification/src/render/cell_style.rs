//! How a grid cell is drawn: its colors after the defaults, search
//! highlights, inverse video, selection, the cursor, dim, hidden and blink
//! attributes, and what is drawn over its background. Pixel positions are
//! left to the renderer.

use vstd::prelude::*;
use crate::term::cell::{Cell, CellFlags, Color, rgb};
use crate::term::cursor::CursorShape;
use crate::config::{parse_hex_rgb, readable_hex, scheme_color};
use crate::text::{chars_of, concat_string, u64_to_decimal, decimal_digits, utf8_len, chars_in_bytes, prefix_of_bytes};

verus! {

/// How a cell is drawn.
#[derive(Debug, Clone, Copy, PartialEq, Eq, Structural)]
pub struct CellStyle {
    pub fg: Color,
    pub bg: Color,
    /// The cell is a wide character's first half and spans two columns.
    pub wide: bool,
    /// A bar or underline cursor is drawn over the cell.
    pub cursor_mark: Option<CursorShape>,
    /// The cell's character is drawn.
    pub glyph: bool,
    pub underline: bool,
    pub strikethrough: bool,
}

/// Whether all the bits of `flag` are set.
pub open spec fn has_flag(f: CellFlags, flag: u16) -> bool {
    f.bits & flag == flag
}

/// The color at half strength.
pub open spec fn dimmed(c: Color) -> Color {
    rgb(c.r / 2, c.g / 2, c.b / 2)
}

/// The colors a cell is drawn with.
pub open spec fn cell_colors(cell: Cell, cursor_block: bool, selected: bool, search_match: bool, current_match: bool,
    default_fg: Color, default_bg: Color, cursor_color: Color, blink_visible: bool) -> (Color, Color)
{
    let fg0 = if cell.fg == rgb(255, 255, 255) && cell.flags.bits == 0 { default_fg } else { cell.fg };
    let bg0 = if cell.bg == rgb(0, 0, 0) && cell.flags.bits == 0 { default_bg } else { cell.bg };
    let (fg1, bg1) = if current_match { (rgb(0, 0, 0), rgb(255, 153, 0)) }
        else if search_match { (rgb(0, 0, 0), rgb(255, 255, 77)) }
        else { (fg0, bg0) };
    let (fg2, bg2) = if has_flag(cell.flags, 0x020) && !search_match { (bg1, fg1) } else { (fg1, bg1) };
    let (fg3, bg3) = if selected && !search_match { (bg2, fg2) } else { (fg2, bg2) };
    let (fg4, bg4) = if cursor_block { (default_bg, cursor_color) } else { (fg3, bg3) };
    let fg5 = if has_flag(cell.flags, 0x002) { dimmed(fg4) } else { fg4 };
    let fg6 = if has_flag(cell.flags, 0x040) { bg4 } else { fg5 };
    let fg7 = if has_flag(cell.flags, 0x010) && !blink_visible { bg4 } else { fg6 };
    (fg7, bg4)
}

/// How a cell is drawn; nothing for the second half of a wide character.
/// The cell's colors start from its own, the defaults standing in for
/// plain white on black; a search match turns it black on yellow (the
/// current match black on orange); inverse video and selection swap the
/// colors (not in a match); a block cursor draws it in the background
/// color on the cursor color; dim halves the foreground; hidden text, and
/// blinking text in its off phase, takes the background color. A bar or
/// underline cursor is marked; the character is drawn unless the cell is
/// blank; underline and strikethrough follow the attributes.
pub open spec fn style_of(cell: Cell, cursor_here: bool, shape: CursorShape, selected: bool, search_match: bool,
    current_match: bool, default_fg: Color, default_bg: Color, cursor_color: Color, blink_visible: bool) -> Option<CellStyle>
{
    if has_flag(cell.flags, 0x200) {
        None
    } else {
        let (fg, bg) = cell_colors(cell, cursor_here && shape == CursorShape::Block, selected, search_match, current_match,
            default_fg, default_bg, cursor_color, blink_visible);
        Some(CellStyle {
            fg,
            bg,
            wide: has_flag(cell.flags, 0x100),
            cursor_mark: if cursor_here && shape != CursorShape::Block { Some(shape) } else { None },
            glyph: !(cell.c == ' ' && cell.grapheme_key == 0 && cell.flags.bits == 0 && cell.hyperlink_id == 0),
            underline: has_flag(cell.flags, 0x008),
            strikethrough: has_flag(cell.flags, 0x080),
        })
    }
}

/// How the cell is drawn (see `style_of`).
pub fn cell_style(cell: &Cell, cursor_here: bool, shape: CursorShape, selected: bool, search_match: bool,
    current_match: bool, default_fg: Color, default_bg: Color, cursor_color: Color, blink_visible: bool) -> (s: Option<CellStyle>)
    ensures
        s == style_of(*cell, cursor_here, shape, selected, search_match, current_match, default_fg, default_bg,
            cursor_color, blink_visible),
{
    if cell.flags.contains(CellFlags::wide_spacer()) {
        return None;
    }
    let plain = cell.flags.is_empty();
    let mut fg = if cell.fg == Color::rgb(255, 255, 255) && plain { default_fg } else { cell.fg };
    let mut bg = if cell.bg == Color::rgb(0, 0, 0) && plain { default_bg } else { cell.bg };
    if current_match {
        bg = Color::rgb(255, 153, 0);
        fg = Color::rgb(0, 0, 0);
    } else if search_match {
        bg = Color::rgb(255, 255, 77);
        fg = Color::rgb(0, 0, 0);
    }
    if cell.flags.contains(CellFlags::inverse()) && !search_match {
        let t = fg;
        fg = bg;
        bg = t;
    }
    if selected && !search_match {
        let t = fg;
        fg = bg;
        bg = t;
    }
    let block = cursor_here && shape == CursorShape::Block;
    if block {
        bg = cursor_color;
        fg = default_bg;
    }
    if cell.flags.contains(CellFlags::dim()) {
        fg = Color::rgb(fg.r / 2, fg.g / 2, fg.b / 2);
    }
    if cell.flags.contains(CellFlags::hidden()) {
        fg = bg;
    }
    if cell.flags.contains(CellFlags::blink()) && !blink_visible {
        fg = bg;
    }
    Some(CellStyle {
        fg,
        bg,
        wide: cell.flags.contains(CellFlags::wide()),
        cursor_mark: if cursor_here && shape != CursorShape::Block { Some(shape) } else { None },
        glyph: !cell.is_empty(),
        underline: cell.flags.contains(CellFlags::underline()),
        strikethrough: cell.flags.contains(CellFlags::strikethrough()),
    })
}

/// Whether a search match covers the cell, and whether it is the current
/// one: the first match on `row` whose columns `start..end` hold `col`.
pub open spec fn search_hit_of(matches: Seq<(u16, u16, u16)>, current: Option<usize>, row: u16, col: u16) -> (bool, bool)
    decreases matches.len(),
{
    if matches.len() == 0 {
        (false, false)
    } else {
        let earlier = search_hit_of(matches.drop_last(), current, row, col);
        let (r, start, end) = matches.last();
        if earlier.0 {
            earlier
        } else if r == row && start <= col && col < end {
            (true, current == Some((matches.len() - 1) as usize))
        } else {
            (false, false)
        }
    }
}

/// Whether a search match covers the cell (see `search_hit_of`).
pub fn search_hit(matches: &[(u16, u16, u16)], current: Option<usize>, row: u16, col: u16) -> (r: (bool, bool))
    ensures
        r == search_hit_of(matches@, current, row, col),
{
    let mut i: usize = 0;
    proof { assert(matches@.take(0) =~= Seq::<(u16, u16, u16)>::empty()); }
    while i < matches.len()
        invariant
            i <= matches@.len(),
            search_hit_of(matches@.take(i as int), current, row, col) == (false, false),
        decreases matches@.len() - i,
    {
        let (r, start, end) = matches[i];
        proof {
            assert(matches@.take(i + 1).drop_last() =~= matches@.take(i as int));
            assert(matches@.take(i + 1).last() == matches@[i as int]);
        }
        if r == row && start <= col && col < end {
            let cur = match current {
                Some(c) => c == i,
                None => false,
            };
            proof { lemma_search_hit_found(matches@, i as int, current, row, col); }
            return (true, cur);
        }
        i = i + 1;
    }
    proof { assert(matches@.take(i as int) =~= matches@); }
    (false, false)
}

proof fn lemma_search_hit_found(matches: Seq<(u16, u16, u16)>, i: int, current: Option<usize>, row: u16, col: u16)
    requires
        0 <= i < matches.len(),
        search_hit_of(matches.take(i), current, row, col) == (false, false),
        matches[i].0 == row && matches[i].1 <= col && col < matches[i].2,
    ensures
        search_hit_of(matches, current, row, col) == (true, current == Some(i as usize)),
    decreases matches.len() - i,
{
    if i == matches.len() - 1 {
        assert(matches.drop_last() =~= matches.take(i));
    } else {
        assert(matches.drop_last().take(i) =~= matches.take(i));
        lemma_search_hit_found(matches.drop_last(), i, current, row, col);
    }
}

/// The glyph variant a cell's attributes ask for: 1 for bold, 2 for italic.
pub open spec fn glyph_flags_of(f: CellFlags) -> u8 {
    ((if has_flag(f, 0x001) { 1int } else { 0int }) + (if has_flag(f, 0x004) { 2int } else { 0int })) as u8
}

/// The glyph variant for the attributes (see `glyph_flags_of`).
pub fn glyph_flags(f: CellFlags) -> (g: u8)
    ensures
        g == glyph_flags_of(f),
{
    let mut g: u8 = 0;
    if f.contains(CellFlags::bold()) {
        g = g + 1;
    }
    if f.contains(CellFlags::italic()) {
        g = g + 2;
    }
    g
}

/// A color from a hexadecimal string (see `scheme_color`).
pub fn parse_hex_color(hex: &str) -> (c: Color)
    requires
        readable_hex(hex@),
    ensures
        c == scheme_color(hex@),
{
    let (r, g, b) = parse_hex_rgb(hex);
    Color::rgb(r, g, b)
}

} // verus!

verus! {

/// A window's label in the status bar: `[index:name]`, the name cut to its
/// first 10 bytes when longer.
pub open spec fn status_label_of(index: usize, name: Seq<char>) -> Seq<char> {
    let shown = if utf8_len(name) > 10 { name.take(chars_in_bytes(name, 10)->0 as int) } else { name };
    "["@ + decimal_digits(index as nat) + ":"@ + shown + "]"@
}

fn utf8_length(s: &[char]) -> (n: usize)
    requires
        s@.len() <= usize::MAX / 4,
    ensures
        n == utf8_len(s@),
{
    let mut n: usize = 0;
    let mut i: usize = 0;
    proof { assert(s@.take(0) =~= Seq::<char>::empty()); }
    while i < s.len()
        invariant
            i <= s@.len(),
            s@.len() <= usize::MAX / 4,
            n == utf8_len(s@.take(i as int)),
            n <= 4 * i,
        decreases s@.len() - i,
    {
        let c = s[i];
        let w: usize = if (c as u32) < 0x80 { 1 } else if (c as u32) < 0x800 { 2 } else if (c as u32) < 0x10000 { 3 } else { 4 };
        proof {
            assert(s@.take(i + 1).drop_last() =~= s@.take(i as int));
            assert(s@.take(i + 1).last() == c);
        }
        n = n + w;
        i = i + 1;
    }
    proof { assert(s@.take(i as int) =~= s@); }
    n
}

/// The status-bar label of the window at `index` named `name` (see
/// `status_label_of`).
pub fn status_label(index: usize, name: &str) -> (s: String)
    requires
        name@.len() <= usize::MAX / 4,
        utf8_len(name@) > 10 ==> chars_in_bytes(name@, 10) is Some,
    ensures
        s@ == status_label_of(index, name@),
{
    let n = chars_of(name);
    let shown: Vec<char> = if utf8_length(n.as_slice()) > 10 {
        match prefix_of_bytes(n.as_slice(), 10) {
            Some(p) => p,
            None => Vec::new(),
        }
    } else {
        n
    };
    let open = chars_of("[");
    let digits = u64_to_decimal(index as u64);
    let a = concat_string(open.as_slice(), digits.as_slice());
    let a = chars_of(a.as_str());
    let colon = chars_of(":");
    let b = concat_string(a.as_slice(), colon.as_slice());
    let b = chars_of(b.as_str());
    let c = concat_string(b.as_slice(), shown.as_slice());
    let c = chars_of(c.as_str());
    let close = chars_of("]");
    concat_string(c.as_slice(), close.as_slice())
}

/// The search label at the right of the status bar.
pub fn search_label(query: &str) -> (s: String)
    ensures
        s@ == "Search: "@ + query@ + "_"@,
{
    let a = chars_of("Search: ");
    let q = chars_of(query);
    let b = concat_string(a.as_slice(), q.as_slice());
    let b = chars_of(b.as_str());
    let u = chars_of("_");
    concat_string(b.as_slice(), u.as_slice())
}

} // verus!
