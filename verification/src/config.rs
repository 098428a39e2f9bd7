//! Configuration values the terminal computes with: the color scheme and its
//! 256-color palette, scrollback size and the multiplexer key bindings.

use vstd::prelude::*;
use vstd::utf8::encode_utf8;
use crate::term::cell::{Color, ColorPalette, rgb, strip_leading, extended_color, hex_color_value, hex_pair_value,
    hex_digit_value, color_256_value};
use crate::text::{chars_of, string_from_chars, str_utf8_bytes, lowercase, to_lowercase, split_on, split_chars, word_is};

verus! {

/// Colors of the configuration, as hexadecimal `#rrggbb` strings.
#[derive(Debug, Clone)]
pub struct ColorScheme {
    pub foreground: String,
    pub background: String,
    pub cursor: String,
    pub black: String,
    pub red: String,
    pub green: String,
    pub yellow: String,
    pub blue: String,
    pub magenta: String,
    pub cyan: String,
    pub white: String,
    pub bright_black: String,
    pub bright_red: String,
    pub bright_green: String,
    pub bright_yellow: String,
    pub bright_blue: String,
    pub bright_magenta: String,
    pub bright_cyan: String,
    pub bright_white: String,
}

/// The value of an ASCII hexadecimal digit byte.
pub open spec fn hex_byte_value(b: u8) -> Option<u8> {
    if 0x30 <= b <= 0x39 {
        Some((b - 0x30) as u8)
    } else if 0x61 <= b <= 0x66 {
        Some((b - 0x61 + 10) as u8)
    } else if 0x41 <= b <= 0x46 {
        Some((b - 0x41 + 10) as u8)
    } else {
        None
    }
}

/// `u8::from_str_radix(_, 16)` on two bytes, 255 where it fails: an optional
/// `+` and hexadecimal digits.
pub open spec fn radix16_pair(b0: u8, b1: u8) -> u8 {
    if b0 == 0x2b {
        match hex_byte_value(b1) {
            Some(v) => v,
            None => 255,
        }
    } else {
        match (hex_byte_value(b0), hex_byte_value(b1)) {
            (Some(x), Some(y)) => (x * 16 + y) as u8,
            _ => 255,
        }
    }
}

/// Whether byte `i` starts a character (or ends the text).
pub open spec fn char_boundary(b: Seq<u8>, i: int) -> bool {
    i == b.len() || b[i] < 0x80 || b[i] >= 0xc0
}

/// The UTF-8 bytes of a color string after its leading `#`s.
pub open spec fn hex_bytes(s: Seq<char>) -> Seq<u8> {
    encode_utf8(strip_leading(s, '#'))
}

/// A color string the scheme can read without failing: when it has six or
/// more bytes after the `#`s, bytes 2, 4 and 6 start characters.
pub open spec fn readable_hex(s: Seq<char>) -> bool {
    let b = hex_bytes(s);
    b.len() >= 6 ==> char_boundary(b, 2) && char_boundary(b, 4) && char_boundary(b, 6)
}

/// The color a scheme string gives: the three byte pairs after the `#`s
/// read in base 16 (255 for a pair that does not read), or white when fewer
/// than six bytes are there.
pub open spec fn scheme_color(s: Seq<char>) -> Color {
    let b = hex_bytes(s);
    if b.len() >= 6 {
        rgb(radix16_pair(b[0], b[1]), radix16_pair(b[2], b[3]), radix16_pair(b[4], b[5]))
    } else {
        rgb(255, 255, 255)
    }
}

proof fn lemma_hex_pair(a: char, b: char, v: u8)
    requires
        hex_pair_value(a, b) == Some(v),
    ensures
        '\0' <= a <= '\u{7f}',
        '\0' <= b <= '\u{7f}',
        radix16_pair(a as u8, b as u8) == v,
{
    assert(hex_digit_value(b).is_some());
    if a != '+' {
        assert(hex_digit_value(a).is_some());
    }
}

/// A color string that `Color::from_hex` reads (six hexadecimal digits after
/// the `#`s) is the color the scheme reads from it.
pub proof fn lemma_scheme_color_from_hex(s: Seq<char>, c: Color)
    requires
        hex_color_value(strip_leading(s, '#')) == Some(c),
    ensures
        scheme_color(s) == c,
{
    let h = strip_leading(s, '#');
    assert(h.len() == 6);
    let r = hex_pair_value(h[0], h[1]).unwrap();
    let g = hex_pair_value(h[2], h[3]).unwrap();
    let b = hex_pair_value(h[4], h[5]).unwrap();
    lemma_hex_pair(h[0], h[1], r);
    lemma_hex_pair(h[2], h[3], g);
    lemma_hex_pair(h[4], h[5], b);
    assert(vstd::utf8::is_ascii_chars(h));
    vstd::utf8::is_ascii_chars_encode_utf8(h);
    let e = hex_bytes(s);
    assert(e.len() == 6);
    assert(e[0] == h[0] as u8 && e[1] == h[1] as u8 && e[2] == h[2] as u8);
    assert(e[3] == h[3] as u8 && e[4] == h[4] as u8 && e[5] == h[5] as u8);
}

/// The palette of a scheme whose 16 colors are `#rrggbb` strings
/// (`build_palette`) is the 256-color palette over the colors
/// `Color::from_hex` reads from them: entry `i` is what
/// `Color::from_256_with_palette` gives for `i`.
pub proof fn law_build_palette(cs: &ColorScheme, p: Seq<Color>, pal: ColorPalette)
    requires
        p.len() == 256,
        forall|i: int| 0 <= i < 16 ==> #[trigger] p[i] == scheme_color(scheme_colors(cs)[i]),
        forall|i: int| 16 <= i < 256 ==> #[trigger] p[i] == extended_color(i as u8),
        forall|i: int| 0 <= i < 16 ==> hex_color_value(strip_leading(#[trigger] scheme_colors(cs)[i], '#')) == Some(pal.colors@[i]),
    ensures
        forall|i: int| 0 <= i < 256 ==> #[trigger] p[i] == color_256_value(i as u8, pal),
{
    assert forall|i: int| 0 <= i < 256 implies #[trigger] p[i] == color_256_value(i as u8, pal) by {
        if i < 16 {
            lemma_scheme_color_from_hex(scheme_colors(cs)[i], pal.colors@[i]);
        }
    }
}

/// The 16 configured colors in palette order.
pub open spec fn scheme_colors(c: &ColorScheme) -> Seq<Seq<char>> {
    seq![c.black@, c.red@, c.green@, c.yellow@, c.blue@, c.magenta@, c.cyan@, c.white@,
        c.bright_black@, c.bright_red@, c.bright_green@, c.bright_yellow@, c.bright_blue@,
        c.bright_magenta@, c.bright_cyan@, c.bright_white@]
}

fn hex_byte(b: u8) -> (v: Option<u8>)
    ensures
        v == hex_byte_value(b),
{
    if 0x30 <= b && b <= 0x39 {
        Some(b - 0x30)
    } else if 0x61 <= b && b <= 0x66 {
        Some(b - 0x61 + 10)
    } else if 0x41 <= b && b <= 0x46 {
        Some(b - 0x41 + 10)
    } else {
        None
    }
}

fn radix16(b0: u8, b1: u8) -> (v: u8)
    ensures
        v == radix16_pair(b0, b1),
{
    if b0 == 0x2b {
        match hex_byte(b1) {
            Some(v) => v,
            None => 255,
        }
    } else {
        match (hex_byte(b0), hex_byte(b1)) {
            (Some(x), Some(y)) => x * 16 + y,
            _ => 255,
        }
    }
}

/// Read a hexadecimal color string (see `scheme_color`).
pub fn parse_hex_rgb(hex: &str) -> (c: (u8, u8, u8))
    requires
        readable_hex(hex@),
    ensures
        rgb(c.0, c.1, c.2) == scheme_color(hex@),
{
    let cs = chars_of(hex);
    let mut start: usize = 0;
    proof {
        assert(cs@.skip(0) =~= cs@);
    }
    while start < cs.len() && cs[start] == '#'
        invariant
            start <= cs@.len(),
            strip_leading(cs@, '#') == strip_leading(cs@.skip(start as int), '#'),
        decreases cs@.len() - start,
    {
        proof {
            assert(cs@.skip(start as int).drop_first() =~= cs@.skip(start as int + 1));
        }
        start += 1;
    }
    let rest = crate::text::chars_between(cs.as_slice(), start, cs.len());
    proof {
        assert(rest@ =~= cs@.skip(start as int));
        assert(strip_leading(rest@, '#') == rest@);
    }
    let s = string_from_chars(rest.as_slice());
    let b = str_utf8_bytes(s.as_str());
    if b.len() >= 6 {
        (radix16(b[0], b[1]), radix16(b[2], b[3]), radix16(b[4], b[5]))
    } else {
        (255, 255, 255)
    }
}

impl ColorScheme {
    /// Whether every color string can be read (see `readable_hex`).
    pub open spec fn readable(&self) -> bool {
        forall|i: int| 0 <= i < 16 ==> readable_hex(#[trigger] scheme_colors(self)[i])
    }

    /// Read a hexadecimal color string (see `scheme_color`).
    pub fn parse_hex(&self, hex: &str) -> (c: (u8, u8, u8))
        requires
            readable_hex(hex@),
        ensures
            rgb(c.0, c.1, c.2) == scheme_color(hex@),
    {
        parse_hex_rgb(hex)
    }

    /// The 256-color palette: the 16 configured colors, then the 6x6x6 color
    /// cube and the 24 grays.
    pub fn build_palette(&self) -> (p: Vec<Color>)
        requires
            self.readable(),
        ensures
            p@.len() == 256,
            forall|i: int| 0 <= i < 16 ==> #[trigger] p@[i] == scheme_color(scheme_colors(self)[i]),
            forall|i: int| 16 <= i < 256 ==> #[trigger] p@[i] == extended_color(i as u8),
    {
        let mut palette: Vec<Color> = Vec::new();
        let colors: [&String; 16] = [
            &self.black, &self.red, &self.green, &self.yellow, &self.blue, &self.magenta, &self.cyan, &self.white,
            &self.bright_black, &self.bright_red, &self.bright_green, &self.bright_yellow, &self.bright_blue,
            &self.bright_magenta, &self.bright_cyan, &self.bright_white,
        ];
        let mut i: usize = 0;
        while i < 16
            invariant
                self.readable(),
                i <= 16,
                palette@.len() == i,
                forall|j: int| 0 <= j < 16 ==> (#[trigger] colors@[j])@ == scheme_colors(self)[j],
                forall|j: int| 0 <= j < i ==> #[trigger] palette@[j] == scheme_color(scheme_colors(self)[j]),
            decreases 16 - i,
        {
            let (r, g, b) = self.parse_hex(colors[i].as_str());
            palette.push(Color::rgb(r, g, b));
            i += 1;
        }
        let mut code: usize = 16;
        while code < 256
            invariant
                16 <= code <= 256,
                palette@.len() == code,
                forall|j: int| 0 <= j < 16 ==> #[trigger] palette@[j] == scheme_color(scheme_colors(self)[j]),
                forall|j: int| 16 <= j < code ==> #[trigger] palette@[j] == extended_color(j as u8),
            decreases 256 - code,
        {
            palette.push(Color::from_256(code as u8));
            code += 1;
        }
        palette
    }
}

impl Default for ColorScheme {
    fn default() -> (c: ColorScheme)
        ensures
            c.foreground@ == "#c5c8c6"@,
            c.background@ == "#1d1f21"@,
            c.black@ == "#282a2e"@,
            c.red@ == "#a54242"@,
            c.bright_white@ == "#c5c8c6"@,
    {
        ColorScheme {
            foreground: "#c5c8c6".to_string(),
            background: "#1d1f21".to_string(),
            cursor: "#c5c8c6".to_string(),
            black: "#282a2e".to_string(),
            red: "#a54242".to_string(),
            green: "#8c9440".to_string(),
            yellow: "#de935f".to_string(),
            blue: "#5f819d".to_string(),
            magenta: "#85678f".to_string(),
            cyan: "#5e8d87".to_string(),
            white: "#707880".to_string(),
            bright_black: "#373b41".to_string(),
            bright_red: "#cc6666".to_string(),
            bright_green: "#b5bd68".to_string(),
            bright_yellow: "#f0c674".to_string(),
            bright_blue: "#81a2be".to_string(),
            bright_magenta: "#b294bb".to_string(),
            bright_cyan: "#8abeb7".to_string(),
            bright_white: "#c5c8c6".to_string(),
        }
    }
}

/// Scrollback settings.
#[derive(Debug, Clone, Copy, PartialEq, Eq, Structural)]
pub struct ScrollbackConfig {
    pub lines: usize,
}

impl Default for ScrollbackConfig {
    fn default() -> (c: ScrollbackConfig)
        ensures
            c.lines == 10000,
    {
        ScrollbackConfig { lines: 10000 }
    }
}

/// Multiplexer key bindings.
#[derive(Debug, Clone)]
pub struct KeybindsConfig {
    /// Prefix key for multiplexer commands, such as `ctrl+b`.
    pub prefix: String,
    /// Custom bindings: action name and key combination, in order.
    pub custom: Vec<(String, String)>,
}

/// The effect of one lowercased piece of the prefix string; the rest of
/// (`ctrl`, `alt`, `shift`, `key`) stays.
pub open spec fn prefix_part(st: (bool, bool, bool, Option<char>), p: Seq<char>) -> (bool, bool, bool, Option<char>) {
    if p == "ctrl"@ || p == "control"@ {
        (true, st.1, st.2, st.3)
    } else if p == "alt"@ || p == "meta"@ || p == "option"@ {
        (st.0, true, st.2, st.3)
    } else if p == "shift"@ {
        (st.0, st.1, true, st.3)
    } else if p.len() == 1 && (p[0] as u32) < 0x80 {
        (st.0, st.1, st.2, Some(p[0]))
    } else {
        st
    }
}

/// The pieces, split on `+`, each lowercased, applied left to right.
pub open spec fn prefix_fold(parts: Seq<Seq<char>>) -> (bool, bool, bool, Option<char>)
    decreases parts.len(),
{
    if parts.len() == 0 {
        (false, false, false, None)
    } else {
        prefix_part(prefix_fold(parts.drop_last()), lowercase(parts.last()))
    }
}

impl Default for KeybindsConfig {
    fn default() -> (c: KeybindsConfig)
        ensures
            c.prefix@ == "ctrl+b"@,
            c.custom@.len() == 0,
    {
        KeybindsConfig { prefix: "ctrl+b".to_string(), custom: Vec::new() }
    }
}

impl KeybindsConfig {
    /// The prefix key as (ctrl, alt, shift, key); none when no piece names a
    /// one-character key.
    pub fn parse_prefix(&self) -> (r: Option<(bool, bool, bool, char)>)
        ensures
            ({
                let st = prefix_fold(split_on(self.prefix@, '+'));
                r == match st.3 {
                    Some(k) => Some((st.0, st.1, st.2, k)),
                    None => None,
                }
            }),
    {
        let cs = chars_of(self.prefix.as_str());
        let parts = split_chars(cs.as_slice(), '+');
        let ghost all = split_on(cs@, '+');
        let mut st: (bool, bool, bool, Option<char>) = (false, false, false, None);
        let mut i: usize = 0;
        while i < parts.len()
            invariant
                parts@.len() == all.len(),
                forall|j: int| 0 <= j < parts@.len() ==> #[trigger] parts@[j]@ == all[j],
                i <= parts@.len(),
                st == prefix_fold(all.subrange(0, i as int)),
            decreases parts@.len() - i,
        {
            let text = string_from_chars(parts[i].as_slice());
            let lowered = to_lowercase(text.as_str());
            let p = chars_of(lowered.as_str());
            let p = p.as_slice();
            proof {
                assert(all.subrange(0, i as int + 1).drop_last() =~= all.subrange(0, i as int));
            }
            st = if word_is(p, "ctrl") || word_is(p, "control") {
                (true, st.1, st.2, st.3)
            } else if word_is(p, "alt") || word_is(p, "meta") || word_is(p, "option") {
                (st.0, true, st.2, st.3)
            } else if word_is(p, "shift") {
                (st.0, st.1, true, st.3)
            } else if p.len() == 1 && (p[0] as u32) < 0x80 {
                (st.0, st.1, st.2, Some(p[0]))
            } else {
                st
            };
            i += 1;
        }
        proof {
            assert(all.subrange(0, all.len() as int) =~= all);
        }
        match st.3 {
            Some(k) => Some((st.0, st.1, st.2, k)),
            None => None,
        }
    }
}

} // verus!

verus! {

/// Window decoration style.
#[derive(Debug, Clone, Copy, PartialEq, Eq, Structural)]
pub enum Decorations {
    /// The standard title bar and borders.
    Full,
    /// No decorations.
    Off,
    /// Decorations over a transparent window.
    Transparent,
}

impl Default for Decorations {
    fn default() -> (d: Decorations)
        ensures
            d == Decorations::Full,
    {
        Decorations::Full
    }
}

/// The style a name gives, in any case: `full`, `none` or `transparent`;
/// any other name gives `Full`.
pub open spec fn decorations_named(lower: Seq<char>) -> Decorations {
    if lower == "none"@ {
        Decorations::Off
    } else if lower == "transparent"@ {
        Decorations::Transparent
    } else {
        Decorations::Full
    }
}

impl Decorations {
    /// The style named by `name` (see `decorations_named`; the name is
    /// lowercased first).
    pub fn from_name(name: &str) -> (d: Decorations)
        ensures
            d == decorations_named(lowercase(name@)),
    {
        let lower = to_lowercase(name);
        let l = chars_of(lower.as_str());
        if word_is(l.as_slice(), "none") {
            Decorations::Off
        } else if word_is(l.as_slice(), "transparent") {
            Decorations::Transparent
        } else {
            Decorations::Full
        }
    }
}

/// The shell and size of the terminal.
pub struct TerminalConfig {
    pub shell: String,
    pub cols: u16,
    pub rows: u16,
}

impl TerminalConfig {
    /// The defaults: the shell `$SHELL` names (`env_shell`, which the caller
    /// reads) or `/bin/sh`, and 80 by 24 cells.
    pub fn default_for(env_shell: Option<String>) -> (c: TerminalConfig)
        ensures
            c.shell@ == (match env_shell { Some(s) => s@, None => "/bin/sh"@ }),
            c.cols == 80,
            c.rows == 24,
    {
        let shell = match env_shell {
            Some(s) => s,
            None => "/bin/sh".to_string(),
        };
        TerminalConfig { shell, cols: 80, rows: 24 }
    }
}

} // verus!
