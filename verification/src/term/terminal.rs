//! Terminal state combining grid, cursor and parser.

use vstd::prelude::*;
use crate::ansi::handler::{Attr, Handler};
use crate::ansi::parser::{Action, ActionModel, Parser, ParserModel, State, parser_step, char_absorbed};
use crate::ansi::csi;
use crate::ansi::csi::CsiCall;
use crate::ansi::osc;
use crate::ansi::osc::OscCallModel;
use crate::ansi::kitty::KittyDecoder;
use crate::render::sixel::SixelDecoder;

use super::cell::{Cell, CellFlags, Color, ColorPalette, GraphemeStorage, blank_cell, rgb, flag_set,
    color_256_value, is_default_palette, storage_view};
use super::cursor::{Cursor, CursorShape, SavedCursor, initial_cursor, sat_sub, min_int, clamped_advance,
    saved_of, restored, decscusr_applied};
use super::grid::{Grid, Row, blank_row, blank_rows, scrolled_rows, region_scrolled_up, region_scrolled_down};
use crate::text::{string_from_chars, chars_of, utf8_decode, u64_to_decimal_bytes, decimal_bytes, to_lowercase, lowercase, str_utf8_bytes};
use vstd::utf8::{encode_utf8, valid_utf8, decode_utf8};

verus! {

/// Sixel image placed in the terminal.
#[derive(Debug, Clone)]
pub struct SixelPlacement {
    /// Image data (RGBA).
    pub data: Vec<u8>,
    /// Image width in pixels.
    pub width: u32,
    /// Image height in pixels.
    pub height: u32,
    /// Column where the image starts.
    pub col: u16,
    /// Row where the image starts.
    pub row: u16,
}

/// Mouse tracking mode.
#[derive(Debug, Clone, Copy, PartialEq, Eq, Structural)]
pub enum MouseMode {
    /// No mouse tracking.
    Off,
    /// Button press only.
    X10,
    /// Button press/release.
    Normal,
    /// Press/release and motion while pressed.
    ButtonMotion,
    /// All motion events.
    AnyMotion,
    /// SGR extended coordinates.
    Sgr,
}

impl Default for MouseMode {
    fn default() -> (m: Self)
        ensures m == MouseMode::Off,
    {
        MouseMode::Off
    }
}

/// Terminal mode flags.
#[derive(Debug, Clone, Copy, PartialEq, Eq, Structural)]
pub struct TerminalModes {
    /// DECCKM - application cursor keys.
    pub application_cursor: bool,
    /// DECKPAM/DECKPNM - application keypad mode.
    pub application_keypad: bool,
    /// DECAWM - auto-wrap mode.
    pub auto_wrap: bool,
    /// DECOM - origin mode (cursor relative to the scroll region).
    pub origin_mode: bool,
    /// DECTCEM - cursor visible.
    pub cursor_visible: bool,
    /// LNM - line feed / new line mode.
    pub linefeed_mode: bool,
    /// Bracketed paste mode.
    pub bracketed_paste: bool,
    /// Focus reporting.
    pub focus_reporting: bool,
    /// Mouse tracking mode.
    pub mouse_tracking: MouseMode,
    /// Alternate screen buffer active.
    pub alternate_screen: bool,
}

/// All modes off, no mouse tracking.
pub open spec fn default_modes() -> TerminalModes {
    TerminalModes {
        application_cursor: false,
        application_keypad: false,
        auto_wrap: false,
        origin_mode: false,
        cursor_visible: false,
        linefeed_mode: false,
        bracketed_paste: false,
        focus_reporting: false,
        mouse_tracking: MouseMode::Off,
        alternate_screen: false,
    }
}

/// The modes of a fresh (or reset) terminal: visible cursor and auto-wrap.
pub open spec fn initial_modes() -> TerminalModes {
    TerminalModes { cursor_visible: true, auto_wrap: true, ..default_modes() }
}

impl Default for TerminalModes {
    fn default() -> (m: Self)
        ensures m == default_modes(),
    {
        TerminalModes {
            application_cursor: false,
            application_keypad: false,
            auto_wrap: false,
            origin_mode: false,
            cursor_visible: false,
            linefeed_mode: false,
            bracketed_paste: false,
            focus_reporting: false,
            mouse_tracking: MouseMode::Off,
            alternate_screen: false,
        }
    }
}

fn initial_modes_exec() -> (m: TerminalModes)
    ensures m == initial_modes(),
{
    TerminalModes { cursor_visible: true, auto_wrap: true, ..TerminalModes::default() }
}

/// Character set for G0-G3 designation.
#[derive(Debug, Clone, Copy, PartialEq, Eq, Structural)]
pub enum Charset {
    /// US ASCII (B).
    Ascii,
    /// DEC Special Graphics / line drawing (0).
    DecSpecialGraphics,
    /// UK (A).
    Uk,
    /// DEC Supplemental (%).
    DecSupplemental,
}

impl Default for Charset {
    fn default() -> (c: Self)
        ensures c == Charset::Ascii,
    {
        Charset::Ascii
    }
}

/// Which charset slot is active.
#[derive(Debug, Clone, Copy, PartialEq, Eq, Structural)]
pub enum CharsetSlot {
    G0,
    G1,
    G2,
    G3,
}

impl Default for CharsetSlot {
    fn default() -> (s: Self)
        ensures s == CharsetSlot::G0,
    {
        CharsetSlot::G0
    }
}

/// The charset a designation byte names.
pub open spec fn charset_of_byte(byte: u8) -> Charset {
    if byte == 0x42 { Charset::Ascii }
    else if byte == 0x30 { Charset::DecSpecialGraphics }
    else if byte == 0x41 { Charset::Uk }
    else if byte == 0x3c || byte == 0x25 { Charset::DecSupplemental }
    else { Charset::Ascii }
}

/// Charset for a designation byte: `B` ASCII, `0` DEC line drawing, `A` UK,
/// `<` or `%` DEC supplemental, anything else ASCII.
fn charset_from_byte(byte: u8) -> (c: Charset)
    ensures c == charset_of_byte(byte),
{
    if byte == 0x42 {
        Charset::Ascii
    } else if byte == 0x30 {
        Charset::DecSpecialGraphics
    } else if byte == 0x41 {
        Charset::Uk
    } else if byte == 0x3c || byte == 0x25 {
        Charset::DecSupplemental
    } else {
        Charset::Ascii
    }
}

/// The DEC Special Graphics (line drawing) form of a character.
pub open spec fn dec_special(c: char) -> char {
    if c == 'j' { '┘' }
    else if c == 'k' { '┐' }
    else if c == 'l' { '┌' }
    else if c == 'm' { '└' }
    else if c == 'n' { '┼' }
    else if c == 'q' { '─' }
    else if c == 't' { '├' }
    else if c == 'u' { '┤' }
    else if c == 'v' { '┴' }
    else if c == 'w' { '┬' }
    else if c == 'x' { '│' }
    else if c == 'a' { '▒' }
    else if c == 'f' { '°' }
    else if c == 'g' { '±' }
    else if c == 'h' { '░' }
    else if c == 'i' { '␋' }
    else if c == 'o' { '⎺' }
    else if c == 'p' { '⎻' }
    else if c == 'r' { '⎼' }
    else if c == 's' { '⎽' }
    else if c == '`' { '◆' }
    else if c == '~' { '·' }
    else if c == 'y' { '≤' }
    else if c == 'z' { '≥' }
    else if c == '{' { 'π' }
    else if c == '|' { '≠' }
    else if c == '}' { '£' }
    else { c }
}

/// DEC Special Graphics character mapping (line drawing characters).
fn translate_dec_special(c: char) -> (r: char)
    ensures r == dec_special(c),
{
    if c == 'j' { '┘' }
    else if c == 'k' { '┐' }
    else if c == 'l' { '┌' }
    else if c == 'm' { '└' }
    else if c == 'n' { '┼' }
    else if c == 'q' { '─' }
    else if c == 't' { '├' }
    else if c == 'u' { '┤' }
    else if c == 'v' { '┴' }
    else if c == 'w' { '┬' }
    else if c == 'x' { '│' }
    else if c == 'a' { '▒' }
    else if c == 'f' { '°' }
    else if c == 'g' { '±' }
    else if c == 'h' { '░' }
    else if c == 'i' { '␋' }
    else if c == 'o' { '⎺' }
    else if c == 'p' { '⎻' }
    else if c == 'r' { '⎼' }
    else if c == 's' { '⎽' }
    else if c == '`' { '◆' }
    else if c == '~' { '·' }
    else if c == 'y' { '≤' }
    else if c == 'z' { '≥' }
    else if c == '{' { 'π' }
    else if c == '|' { '≠' }
    else if c == '}' { '£' }
    else { c }
}

/// Active hyperlink.
#[derive(Debug, Clone, PartialEq, Eq)]
pub struct Hyperlink {
    pub id: Option<String>,
    pub url: String,
}

/// Stored hyperlink, referenced by cells through its id.
#[derive(Debug, Clone)]
pub struct StoredHyperlink {
    pub id: u32,
    pub url: String,
    pub id_str: Option<String>,
}

/// Bell event for notification.
#[derive(Debug, Clone, Copy, PartialEq, Eq, Structural)]
pub enum BellEvent {
    /// Visual bell - flash the screen.
    Visual,
    /// Audible bell - system beep.
    Audible,
    /// Both visual and audible.
    Both,
}

/// Shell integration prompt region markers (OSC 133).
#[derive(Debug, Clone, Copy)]
pub struct PromptRegion {
    /// Start position of the prompt.
    pub prompt_start: Option<(u16, u16)>,
    /// Start position of the command input.
    pub command_start: Option<(u16, u16)>,
    /// Start position of the command output.
    pub output_start: Option<(u16, u16)>,
    /// Exit code of the last command.
    pub last_exit_code: Option<i32>,
}

impl Default for PromptRegion {
    fn default() -> (p: Self)
        ensures
            p.prompt_start.is_none(),
            p.command_start.is_none(),
            p.output_start.is_none(),
            p.last_exit_code.is_none(),
    {
        PromptRegion { prompt_start: None, command_start: None, output_start: None, last_exit_code: None }
    }
}

/// Clipboard operation request (OSC 52).
#[derive(Debug, Clone)]
pub struct ClipboardRequest {
    /// Selection target (c=clipboard, p=primary, ...).
    pub selection: char,
    /// Data to set (None = query, Some("") = clear, Some(data) = set).
    pub data: Option<String>,
}

/// Search match position.
#[derive(Debug, Clone, Copy, PartialEq, Eq, Structural)]
pub struct SearchMatch {
    /// Column (byte offset in the lowercased line).
    pub col: u16,
    /// Row: 0.. for the screen, -1, -2, ... for scrollback (most recent first).
    pub row: i32,
    /// Length of the match in bytes.
    pub len: u16,
}

/// Scrollback search state.
#[derive(Debug, Clone)]
pub struct SearchState {
    /// Current search query.
    pub query: String,
    /// All matches found.
    pub matches: Vec<SearchMatch>,
    /// Index of the current match.
    pub current_match: usize,
    /// Whether a search is active.
    pub active: bool,
}

impl Default for SearchState {
    fn default() -> (s: Self)
        ensures
            s.query@.len() == 0,
            s.matches@.len() == 0,
            s.current_match == 0,
            !s.active,
    {
        SearchState { query: String::new(), matches: Vec::new(), current_match: 0, active: false }
    }
}

/// Tab stops every 8 columns.
pub open spec fn default_tab_stops(n: int) -> Seq<bool> {
    Seq::new(n as nat, |i: int| i % 8 == 0)
}

/// Default text foreground (light gray).
pub open spec fn default_fg() -> Color {
    rgb(204, 204, 204)
}

/// Default text background (black).
pub open spec fn default_bg() -> Color {
    rgb(0, 0, 0)
}

fn default_fg_exec() -> (c: Color)
    ensures c == default_fg(),
{
    Color::rgb(204, 204, 204)
}

fn default_bg_exec() -> (c: Color)
    ensures c == default_bg(),
{
    Color::rgb(0, 0, 0)
}

/// Complete terminal state.
pub struct Terminal {
    /// Screen grid in use (primary, or alternate while that is active).
    pub grid: Grid,
    /// The other screen grid.
    pub alt_grid: Grid,
    pub cursor: Cursor,
    /// Saved cursor for the primary screen.
    pub saved_cursor: Option<SavedCursor>,
    /// Saved cursor for the alternate screen.
    pub alt_saved_cursor: Option<SavedCursor>,
    pub parser: Parser,
    pub title: String,
    pub icon_name: String,
    /// Scroll region top line.
    pub scroll_top: u16,
    /// Scroll region bottom line.
    pub scroll_bottom: u16,
    pub tab_stops: Vec<bool>,
    /// Bytes of an incomplete UTF-8 sequence, kept for the next input.
    pub utf8_buffer: Vec<u8>,
    pub modes: TerminalModes,
    pub sixel_images: Vec<SixelPlacement>,
    /// Sixel decoder for DCS sequences (its palette carries over between images).
    pub sixel_decoder: SixelDecoder,
    /// Current hyperlink (OSC 8).
    pub current_hyperlink: Option<Hyperlink>,
    /// Hyperlink id written into cells (0 = none).
    pub current_hyperlink_id: u32,
    /// Next hyperlink id to assign.
    pub next_hyperlink_id: u32,
    /// Stored hyperlinks, in the order they were made.
    pub hyperlinks: Vec<StoredHyperlink>,
    /// Working directory (OSC 7).
    pub working_directory: Option<String>,
    pub pending_bell: Option<BellEvent>,
    pub prompt_region: PromptRegion,
    /// Clipboard requests (OSC 52) not yet taken by the application.
    pub clipboard_requests: Vec<ClipboardRequest>,
    /// Cell height in pixels, for placing images.
    pub cell_height_pixels: u32,
    pub search: SearchState,
    pub charset_g0: Charset,
    pub charset_g1: Charset,
    pub charset_g2: Charset,
    pub charset_g3: Charset,
    pub active_charset: CharsetSlot,
    /// Bytes the terminal answers to the program (for the PTY), not yet taken.
    pub responses: Vec<u8>,
    pub color_palette: ColorPalette,
    /// Grapheme clusters of several code points, referenced by cells.
    pub grapheme_storage: GraphemeStorage,
    /// Scrollback viewport offset (0 = live view).
    pub viewport_offset: usize,
    /// Whether the blinking cursor is currently in its visible phase.
    pub cursor_blink_on: bool,
    pub cols: u16,
    pub rows: u16,
}

impl Terminal {
    /// Well-formed: both grids have the terminal's size, the scroll region
    /// lies within the screen and there is one tab stop flag per column.
    pub open spec fn wf(&self) -> bool {
        &&& self.grid.wf()
        &&& self.alt_grid.wf()
        &&& self.grid.cols == self.cols
        &&& self.grid.lines == self.rows
        &&& self.alt_grid.cols == self.cols
        &&& self.alt_grid.lines == self.rows
        &&& self.scroll_bottom as int <= sat_sub(self.rows as int, 1)
        &&& self.tab_stops@.len() == self.cols as int
        &&& self.utf8_buffer@.len() < 4
        &&& self.sixel_decoder.wf()
    }

    /// The visible screen rows.
    pub open spec fn screen(&self) -> Seq<Seq<Cell>> {
        self.grid.view_rows()
    }

    /// The cursor lies on the screen (the column may be one past the last,
    /// where the next character wraps).
    pub open spec fn cursor_on_screen(&self) -> bool {
        self.cursor.line < self.rows && self.cursor.col <= self.cols
    }

    /// Create a terminal of `cols` x `rows` cells keeping up to `scrollback`
    /// lines of history (the alternate screen keeps none).
    pub fn new(cols: u16, rows: u16, scrollback: usize) -> (t: Self)
        ensures
            t.wf(),
            t.cols == cols,
            t.rows == rows,
            t.screen() == blank_rows(rows as int, cols as int),
            t.grid.view_scrollback().len() == 0,
            t.grid.scrollback_limit == scrollback,
            t.alt_grid.scrollback_limit == 0,
            t.cursor == initial_cursor(),
            t.modes == initial_modes(),
            t.scroll_top == 0,
            t.scroll_bottom as int == sat_sub(rows as int, 1),
            t.tab_stops@ == default_tab_stops(cols as int),
            t.viewport_offset == 0,
            t.saved_cursor.is_none(),
            t.pending_bell.is_none(),
            t.current_hyperlink.is_none(),
            t.current_hyperlink_id == 0,
            t.next_hyperlink_id == 1,
            t.hyperlinks@.len() == 0,
            t.title@.len() == 0,
            t.icon_name@.len() == 0,
            t.charset_g0 == Charset::Ascii,
            t.charset_g1 == Charset::DecSpecialGraphics,
            t.charset_g2 == Charset::Ascii,
            t.charset_g3 == Charset::Ascii,
            t.active_charset == CharsetSlot::G0,
            t.cell_height_pixels == 16,
            t.responses@.len() == 0,
            t.sixel_images@.len() == 0,
            is_default_palette(t.color_palette),
            storage_view(t.grapheme_storage).len() == 0,
            t.utf8_buffer@.len() == 0,
            !t.search.active,
    {
        let mut tab_stops: Vec<bool> = Vec::new();
        let mut i: u16 = 0;
        while i < cols
            invariant
                0 <= i <= cols,
                tab_stops@ =~= default_tab_stops(i as int),
            decreases cols - i,
        {
            tab_stops.push(i % 8 == 0);
            i = i + 1;
        }
        Terminal {
            grid: Grid::new(cols, rows, scrollback),
            alt_grid: Grid::new(cols, rows, 0),
            cursor: Cursor::new(),
            saved_cursor: None,
            alt_saved_cursor: None,
            parser: Parser::new(),
            title: String::new(),
            icon_name: String::new(),
            scroll_top: 0,
            scroll_bottom: rows.saturating_sub(1),
            tab_stops,
            utf8_buffer: Vec::new(),
            modes: initial_modes_exec(),
            sixel_images: Vec::new(),
            sixel_decoder: SixelDecoder::new(),
            current_hyperlink: None,
            current_hyperlink_id: 0,
            next_hyperlink_id: 1,
            hyperlinks: Vec::new(),
            working_directory: None,
            pending_bell: None,
            prompt_region: PromptRegion::default(),
            clipboard_requests: Vec::new(),
            cell_height_pixels: 16,
            search: SearchState::default(),
            charset_g0: Charset::Ascii,
            charset_g1: Charset::DecSpecialGraphics,
            charset_g2: Charset::Ascii,
            charset_g3: Charset::Ascii,
            active_charset: CharsetSlot::G0,
            responses: Vec::new(),
            color_palette: ColorPalette::default(),
            grapheme_storage: GraphemeStorage::new(),
            viewport_offset: 0,
            cursor_blink_on: true,
            cols,
            rows,
        }
    }

    /// Take the bytes the terminal has answered (device reports and the
    /// like), leaving none behind; the application writes them to the PTY.
    pub fn take_responses(&mut self) -> (r: Vec<u8>)
        ensures
            r@ == old(self).responses@,
            final(self).responses@.len() == 0,
            final(self).wf() == old(self).wf(),
    {
        let mut out: Vec<u8> = Vec::new();
        std::mem::swap(&mut out, &mut self.responses);
        out
    }

    /// Take the clipboard requests (OSC 52) made so far, oldest first.
    pub fn take_clipboard_requests(&mut self) -> (r: Vec<ClipboardRequest>)
        ensures
            r@ == old(self).clipboard_requests@,
            final(self).clipboard_requests@.len() == 0,
            final(self).wf() == old(self).wf(),
    {
        let mut out: Vec<ClipboardRequest> = Vec::new();
        std::mem::swap(&mut out, &mut self.clipboard_requests);
        out
    }

    /// Set the color palette.
    pub fn set_color_palette(&mut self, palette: ColorPalette)
        ensures *final(self) == (Terminal { color_palette: palette, ..*old(self) }),
    {
        self.color_palette = palette;
    }

    /// The color palette.
    pub fn color_palette(&self) -> (p: &ColorPalette)
        ensures *p == self.color_palette,
    {
        &self.color_palette
    }

    /// The grapheme storage.
    pub fn grapheme_storage(&self) -> (g: &GraphemeStorage)
        ensures *g == self.grapheme_storage,
    {
        &self.grapheme_storage
    }

    /// The grapheme cluster stored under `key`; none for key 0.
    pub fn get_grapheme(&self, key: u32) -> (g: Option<String>)
        ensures
            (key > 0 && key as int <= storage_view(self.grapheme_storage).len()) ==>
                g.is_some() && g.unwrap()@ == storage_view(self.grapheme_storage)[key - 1],
            !(key > 0 && key as int <= storage_view(self.grapheme_storage).len()) ==> g.is_none(),
    {
        if key == 0 {
            return None;
        }
        match self.grapheme_storage.get(key) {
            Some(s) => Some(string_from_chars(&chars_of(s))),
            None => None,
        }
    }

    /// The search state.
    pub fn search(&self) -> (s: &SearchState)
        ensures *s == self.search,
    {
        &self.search
    }

    /// Go to the next search match, wrapping around.
    pub fn search_next(&mut self)
        ensures
            old(self).search.matches@.len() > 0 ==> *final(self) == (Terminal {
                search: SearchState {
                    current_match: ((old(self).search.current_match + 1) % (old(self).search.matches@.len() as int)) as usize,
                    ..old(self).search
                },
                ..*old(self)
            }),
            old(self).search.matches@.len() == 0 ==> *final(self) == *old(self),
    {
        if self.search.matches.len() > 0 {
            let n = self.search.matches.len();
            let next: usize = if self.search.current_match >= n - 1 {
                if self.search.current_match == n - 1 { 0 } else { ((self.search.current_match % n) + 1) % n }
            } else {
                self.search.current_match + 1
            };
            proof {
                let c = old(self).search.current_match as int;
                let m = n as int;
                if c > m - 1 {
                    assert(((c % m) + 1) % m == (c + 1) % m) by (nonlinear_arith)
                        requires m > 0, c >= 0;
                } else if c == m - 1 {
                    assert((c + 1) % m == 0) by (nonlinear_arith)
                        requires m > 0, c == m - 1;
                } else {
                    assert((c + 1) % m == c + 1) by (nonlinear_arith)
                        requires m > 0, 0 <= c, c + 1 < m;
                }
            }
            self.search.current_match = next;
        }
    }

    /// Go to the previous search match, wrapping around.
    pub fn search_prev(&mut self)
        ensures
            old(self).search.matches@.len() > 0 ==> *final(self) == (Terminal {
                search: SearchState {
                    current_match: (if old(self).search.current_match == 0 {
                        old(self).search.matches@.len() - 1
                    } else {
                        old(self).search.current_match - 1
                    }) as usize,
                    ..old(self).search
                },
                ..*old(self)
            }),
            old(self).search.matches@.len() == 0 ==> *final(self) == *old(self),
    {
        if self.search.matches.len() > 0 {
            if self.search.current_match == 0 {
                self.search.current_match = self.search.matches.len() - 1;
            } else {
                self.search.current_match = self.search.current_match - 1;
            }
        }
    }

    /// Cancel the search.
    pub fn search_cancel(&mut self)
        ensures
            !final(self).search.active,
            final(self).search.query@.len() == 0,
            final(self).search.matches@.len() == 0,
            final(self).search.current_match == 0,
            *final(self) == (Terminal { search: final(self).search, ..*old(self) }),
    {
        self.search.active = false;
        self.search.query = String::new();
        self.search.matches.clear();
        self.search.current_match = 0;
    }

    /// The current search match, while a search is active and has matches.
    pub fn current_search_match(&self) -> (m: Option<&SearchMatch>)
        ensures
            (self.search.active && self.search.matches@.len() > 0 && self.search.current_match < self.search.matches@.len())
                ==> m == Some(&self.search.matches@[self.search.current_match as int]),
            !(self.search.active && self.search.matches@.len() > 0 && self.search.current_match < self.search.matches@.len())
                ==> m.is_none(),
    {
        if self.search.active && self.search.matches.len() > 0 && self.search.current_match < self.search.matches.len() {
            Some(&self.search.matches[self.search.current_match])
        } else {
            None
        }
    }

    /// Set the cell height in pixels (from font metrics), used to place images.
    pub fn set_cell_height(&mut self, height: u32)
        ensures *final(self) == (Terminal { cell_height_pixels: height, ..*old(self) }),
    {
        self.cell_height_pixels = height;
    }

    /// The stored hyperlink with this id (the latest one made with it).
    pub fn hyperlink(&self, id: u32) -> (h: Option<&StoredHyperlink>)
        ensures
            h.is_some() == (exists|i: int| 0 <= i < self.hyperlinks@.len() && #[trigger] self.hyperlinks@[i].id == id),
            h.is_some() ==> h.unwrap().id == id,
            h.is_some() ==> (exists|i: int| 0 <= i < self.hyperlinks@.len() && self.hyperlinks@[i] == *h.unwrap()
                && forall|j: int| i < j < self.hyperlinks@.len() ==> #[trigger] self.hyperlinks@[j].id != id),
    {
        let mut i: usize = self.hyperlinks.len();
        while i > 0
            invariant
                0 <= i <= self.hyperlinks@.len(),
                forall|j: int| i <= j < self.hyperlinks@.len() ==> #[trigger] self.hyperlinks@[j].id != id,
            decreases i,
        {
            if self.hyperlinks[i - 1].id == id {
                return Some(&self.hyperlinks[i - 1]);
            }
            i = i - 1;
        }
        None
    }

    /// The stored hyperlink of the cell at (`col`, `row`), if it has one.
    pub fn get_cell_hyperlink(&self, col: u16, row: u16) -> (h: Option<&StoredHyperlink>)
        requires
            self.wf(),
        ensures
            !(col < self.cols && row < self.rows) ==> h.is_none(),
            (col < self.cols && row < self.rows && self.grid.cell_at(col as int, row as int).hyperlink_id == 0) ==> h.is_none(),
            h.is_some() ==> h.unwrap().id == self.grid.cell_at(col as int, row as int).hyperlink_id,
            (col < self.cols && row < self.rows && self.grid.cell_at(col as int, row as int).hyperlink_id != 0
                && (exists|i: int| 0 <= i < self.hyperlinks@.len()
                    && #[trigger] self.hyperlinks@[i].id == self.grid.cell_at(col as int, row as int).hyperlink_id)) ==> h.is_some(),
    {
        if col < self.grid.cols() && row < self.grid.lines() {
            let cell = self.grid.cell(col, row);
            if cell.hyperlink_id != 0 {
                return self.hyperlink(cell.hyperlink_id);
            }
        }
        None
    }

    /// The prompt region for shell integration.
    pub fn prompt_region(&self) -> (p: &PromptRegion)
        ensures *p == self.prompt_region,
    {
        &self.prompt_region
    }

    /// Advance the cursor blink by one phase: a blinking cursor toggles
    /// between shown and hidden and the call answers that a redraw is due; a
    /// steady cursor stays shown.
    pub fn update_cursor_blink(&mut self) -> (changed: bool)
        ensures
            changed == old(self).cursor.blinking,
            old(self).cursor.blinking ==> *final(self) == (Terminal { cursor_blink_on: !old(self).cursor_blink_on, ..*old(self) }),
            !old(self).cursor.blinking ==> *final(self) == (Terminal { cursor_blink_on: true, ..*old(self) }),
    {
        if self.cursor.blinking {
            self.cursor_blink_on = !self.cursor_blink_on;
            true
        } else {
            self.cursor_blink_on = true;
            false
        }
    }

    /// Show the cursor again and restart its blink (on a key press).
    pub fn reset_cursor_blink(&mut self)
        ensures *final(self) == (Terminal { cursor_blink_on: true, ..*old(self) }),
    {
        self.cursor_blink_on = true;
    }

    /// Take the pending bell event.
    pub fn take_pending_bell(&mut self) -> (b: Option<BellEvent>)
        ensures
            b == old(self).pending_bell,
            *final(self) == (Terminal { pending_bell: None, ..*old(self) }),
    {
        let b = self.pending_bell;
        self.pending_bell = None;
        b
    }

    /// Whether a bell is pending.
    pub fn has_pending_bell(&self) -> (b: bool)
        ensures b == self.pending_bell.is_some(),
    {
        self.pending_bell.is_some()
    }

    /// Whether the alternate screen is in use.
    pub fn is_alternate_screen(&self) -> (b: bool)
        ensures b == self.modes.alternate_screen,
    {
        self.modes.alternate_screen
    }

    /// Set a tab stop at the cursor column (HTS); nothing past the last column.
    pub fn set_tab_stop(&mut self)
        ensures
            (old(self).cursor.col as int) < old(self).tab_stops@.len() ==>
                *final(self) == (Terminal { tab_stops: final(self).tab_stops, ..*old(self) })
                && final(self).tab_stops@ == old(self).tab_stops@.update(old(self).cursor.col as int, true),
            (old(self).cursor.col as int) >= old(self).tab_stops@.len() ==> *final(self) == *old(self),
    {
        let col = self.cursor.col as usize;
        if col < self.tab_stops.len() {
            self.tab_stops.set(col, true);
        }
    }

    /// The terminal modes.
    pub fn modes(&self) -> (m: &TerminalModes)
        ensures *m == self.modes,
    {
        &self.modes
    }

    /// Mutable access to the terminal modes.
    pub fn modes_mut(&mut self) -> (m: &mut TerminalModes)
        ensures
            *m == old(self).modes,
            *final(self) == (Terminal { modes: *final(m), ..*old(self) }),
    {
        &mut self.modes
    }

    /// The placed images.
    pub fn sixel_images(&self) -> (s: &[SixelPlacement])
        ensures s@ == self.sixel_images@,
    {
        self.sixel_images.as_slice()
    }

    /// Remove all placed images.
    pub fn clear_sixel_images(&mut self)
        ensures
            final(self).sixel_images@.len() == 0,
            *final(self) == (Terminal { sixel_images: final(self).sixel_images, ..*old(self) }),
    {
        self.sixel_images.clear();
    }

    /// The current hyperlink.
    pub fn current_hyperlink(&self) -> (h: Option<&Hyperlink>)
        ensures
            h.is_some() == self.current_hyperlink.is_some(),
            h.is_some() ==> *h.unwrap() == self.current_hyperlink.unwrap(),
    {
        match &self.current_hyperlink {
            Some(h) => Some(h),
            None => None,
        }
    }

    /// The working directory reported by the shell (OSC 7).
    pub fn working_directory(&self) -> (d: Option<&str>)
        ensures
            d.is_some() == self.working_directory.is_some(),
            d.is_some() ==> d.unwrap()@ == self.working_directory.unwrap()@,
    {
        match &self.working_directory {
            Some(s) => Some(s.as_str()),
            None => None,
        }
    }

    /// Whether the view shows history rather than the live screen.
    pub fn is_viewing_scrollback(&self) -> (b: bool)
        ensures b == (self.viewport_offset > 0),
    {
        self.viewport_offset > 0
    }

    /// How many lines the view is scrolled back.
    pub fn viewport_offset(&self) -> (o: usize)
        ensures o == self.viewport_offset,
    {
        self.viewport_offset
    }

    /// Scroll the view up into history by `lines`, at most to the oldest line.
    pub fn scroll_viewport_up(&mut self, lines: usize)
        ensures
            final(self).viewport_offset as int == min_int(old(self).viewport_offset + lines,
                old(self).grid.view_scrollback().len() as int),
            *final(self) == (Terminal { viewport_offset: final(self).viewport_offset, ..*old(self) }),
    {
        let max_offset = self.grid.scrollback_len();
        let target: usize = self.viewport_offset.saturating_add(lines);
        proof {
            if self.viewport_offset + lines > usize::MAX {
                assert(max_offset <= usize::MAX);
            }
        }
        self.viewport_offset = if target < max_offset { target } else { max_offset };
    }

    /// Scroll the view down toward the live screen by `lines`.
    pub fn scroll_viewport_down(&mut self, lines: usize)
        ensures
            final(self).viewport_offset as int == sat_sub(old(self).viewport_offset as int, lines as int),
            *final(self) == (Terminal { viewport_offset: final(self).viewport_offset, ..*old(self) }),
    {
        self.viewport_offset = self.viewport_offset.saturating_sub(lines);
    }

    /// Back to the live view.
    pub fn reset_viewport(&mut self)
        ensures *final(self) == (Terminal { viewport_offset: 0, ..*old(self) }),
    {
        self.viewport_offset = 0;
    }

    /// View the oldest history line at the top.
    pub fn scroll_viewport_to_top(&mut self)
        ensures
            final(self).viewport_offset as int == old(self).grid.view_scrollback().len(),
            *final(self) == (Terminal { viewport_offset: final(self).viewport_offset, ..*old(self) }),
    {
        self.viewport_offset = self.grid.scrollback_len();
    }

    /// Back to the live view.
    pub fn scroll_viewport_to_bottom(&mut self)
        ensures *final(self) == (Terminal { viewport_offset: 0, ..*old(self) }),
    {
        self.viewport_offset = 0;
    }

    /// The grid in use.
    pub fn grid(&self) -> (g: &Grid)
        ensures *g == self.grid,
    {
        &self.grid
    }

    /// Mutable access to the grid in use.
    pub fn grid_mut(&mut self) -> (g: &mut Grid)
        ensures
            *g == old(self).grid,
            *final(self) == (Terminal { grid: *final(g), ..*old(self) }),
    {
        &mut self.grid
    }

    /// The cursor.
    pub fn cursor(&self) -> (c: &Cursor)
        ensures *c == self.cursor,
    {
        &self.cursor
    }

    /// Mutable access to the cursor.
    pub fn cursor_mut(&mut self) -> (c: &mut Cursor)
        ensures
            *c == old(self).cursor,
            *final(self) == (Terminal { cursor: *final(c), ..*old(self) }),
    {
        &mut self.cursor
    }

    /// The window title.
    pub fn title(&self) -> (t: &str)
        ensures t@ == self.title@,
    {
        self.title.as_str()
    }

    /// The icon name.
    pub fn icon_name(&self) -> (t: &str)
        ensures t@ == self.icon_name@,
    {
        self.icon_name.as_str()
    }

    /// Set the cursor shape.
    pub fn set_cursor_shape(&mut self, shape: CursorShape)
        ensures *final(self) == (Terminal { cursor: Cursor { shape: shape, ..old(self).cursor }, ..*old(self) }),
    {
        self.cursor.shape = shape;
    }
}


/// The scroll region is the whole screen.
pub open spec fn full_screen_region(t: Terminal) -> bool {
    t.scroll_top == 0 && t.scroll_bottom as int == sat_sub(t.rows as int, 1)
}

/// The screen after scrolling the scroll region up by `n` lines: the whole
/// screen scrolls into the scrollback when the region is the screen; a
/// smaller region of two lines or more moves within itself.
pub open spec fn screen_scrolled_up(t: Terminal, n: int) -> Seq<Seq<Cell>> {
    if full_screen_region(t) {
        if t.rows > 0 { scrolled_rows(t.screen(), n, t.cols as int) } else { t.screen() }
    } else if t.scroll_top < t.scroll_bottom {
        region_scrolled_up(t.screen(), t.scroll_top as int, t.scroll_bottom as int, n, t.cols as int)
    } else {
        t.screen()
    }
}

/// The screen after scrolling the scroll region down by `n` lines.
pub open spec fn screen_scrolled_down(t: Terminal, n: int) -> (Seq<Seq<Cell>>, Seq<Seq<Cell>>) {
    if full_screen_region(t) {
        super::grid::history_pulled(t.screen(), t.grid.view_scrollback(), n)
    } else if t.scroll_top < t.scroll_bottom {
        (region_scrolled_down(t.screen(), t.scroll_top as int, t.scroll_bottom as int, n, t.cols as int), t.grid.view_scrollback())
    } else {
        (t.screen(), t.grid.view_scrollback())
    }
}

/// Rows of cell height `ch` (at least 1) that an image of height `h` covers.
pub open spec fn image_rows(h: u32, ch: u32) -> int {
    let c: int = if ch == 0 { 1 } else { ch as int };
    (h + c - 1) / c
}

/// An image stays while some of it is on a screen of `rows` lines.
pub open spec fn image_kept(img: SixelPlacement, ch: u32, rows: u16) -> bool {
    img.row + image_rows(img.height, ch) > 0 && img.row < rows
}

/// Images after the screen scrolled up `n` lines: each moves up, and those
/// that left the screen are dropped.
pub open spec fn scrolled_images(s: Seq<SixelPlacement>, n: u16, ch: u32, rows: u16) -> Seq<SixelPlacement>
    decreases s.len(),
{
    if s.len() == 0 {
        s
    } else {
        let prev = scrolled_images(s.drop_last(), n, ch, rows);
        let img = SixelPlacement { row: sat_sub(s.last().row as int, n as int) as u16, ..s.last() };
        if image_kept(img, ch, rows) { prev.push(img) } else { prev }
    }
}

/// Images whose row is below `line` (`below`), or above it (`!below`).
pub open spec fn images_beside(s: Seq<SixelPlacement>, line: u16, below: bool) -> Seq<SixelPlacement>
    decreases s.len(),
{
    if s.len() == 0 {
        s
    } else {
        let prev = images_beside(s.drop_last(), line, below);
        let keep = if below { s.last().row < line } else { s.last().row > line };
        if keep { prev.push(s.last()) } else { prev }
    }
}

/// A row with the cells from `start` up to, not including, `end` reset.
pub open spec fn erased_cells(row: Seq<Cell>, start: int, end: int) -> Seq<Cell> {
    Seq::new(row.len(), |c: int| if start <= c < end { blank_cell() } else { row[c] })
}

/// A row with `n` blanks inserted at `col`, the cells pushed off the end lost.
pub open spec fn inserted_blanks(row: Seq<Cell>, col: int, n: int) -> Seq<Cell> {
    Seq::new(row.len(), |c: int| if c < col { row[c] } else if c < col + n { blank_cell() } else { row[c - n] })
}

/// A row with `n` cells deleted at `col`: cells from `col` on move left by
/// `n`, and the last `n` cells are reset.
pub open spec fn deleted_cells(row: Seq<Cell>, col: int, n: int) -> Seq<Cell> {
    Seq::new(row.len(), |c: int| if c >= sat_sub(row.len() as int, n) { blank_cell() } else if c >= col { row[c + n] } else { row[c] })
}

/// The charset in the active slot.
pub open spec fn active_charset_of(t: Terminal) -> Charset {
    match t.active_charset {
        CharsetSlot::G0 => t.charset_g0,
        CharsetSlot::G1 => t.charset_g1,
        CharsetSlot::G2 => t.charset_g2,
        CharsetSlot::G3 => t.charset_g3,
    }
}

/// A character as the active charset shows it.
pub open spec fn translated(t: Terminal, c: char) -> char {
    if active_charset_of(t) == Charset::DecSpecialGraphics { dec_special(c) } else { c }
}

/// The columns a printed character advances: its display width, 1 for a
/// character without one.
pub open spec fn print_width(c: char) -> int {
    match crate::text::char_display_width(c) {
        Some(w) => w as int,
        None => 1,
    }
}

/// The line a cursor on line `line` moves to on a line feed.
pub open spec fn line_after_feed(t: Terminal) -> int {
    if t.cursor.line >= t.scroll_bottom { t.cursor.line as int } else { t.cursor.line + 1 }
}

/// The terminal just before a character is printed: at the right margin the
/// cursor wraps to the next line (scrolling at the region's bottom) with
/// auto-wrap on, and stays on the last column with it off.
pub open spec fn wrapped_cursor(t: Terminal) -> Cursor {
    if t.cursor.col < t.cols {
        t.cursor
    } else if t.modes.auto_wrap {
        Cursor { col: 0, line: line_after_feed(t) as u16, ..t.cursor }
    } else {
        Cursor { col: sat_sub(t.cols as int, 1) as u16, ..t.cursor }
    }
}

pub open spec fn wrapped_screen(t: Terminal) -> Seq<Seq<Cell>> {
    if t.cursor.col >= t.cols && t.modes.auto_wrap && t.cursor.line >= t.scroll_bottom {
        screen_scrolled_up(t, 1)
    } else {
        t.screen()
    }
}

/// The cell a printed character fills.
pub open spec fn printed_cell(t: Terminal, c: char, key: u32) -> Cell {
    let ch = translated(t, c);
    Cell {
        c: ch,
        grapheme_key: key,
        fg: t.cursor.fg,
        bg: t.cursor.bg,
        flags: if print_width(ch) > 1 { flag_set(t.cursor.flags.bits | 0x100) } else { t.cursor.flags },
        hyperlink_id: t.current_hyperlink_id,
    }
}

/// The row after printing `cell` at `col`; a wide character also turns the
/// next cell, if any, into its spacer.
pub open spec fn printed_row(row: Seq<Cell>, col: int, cell: Cell, wide: bool, link: u32) -> Seq<Cell> {
    let r1 = row.update(col, cell);
    if wide && col + 1 < row.len() {
        r1.update(col + 1, Cell { c: ' ', grapheme_key: 0, flags: flag_set(0x200), hyperlink_id: link, ..row[col + 1] })
    } else {
        r1
    }
}


/// An edit of one screen line.
#[derive(Debug, Clone, Copy, PartialEq, Eq, Structural)]
pub enum LineEdit {
    /// Reset the cells from the first column up to, not including, the second.
    Erase(u32, u32),
    /// Insert blanks: at a column, how many.
    Insert(u32, u32),
    /// Delete cells: at a column, how many.
    Delete(u32, u32),
}

/// A line after an edit.
pub open spec fn edited_row(row: Seq<Cell>, e: LineEdit) -> Seq<Cell> {
    match e {
        LineEdit::Erase(start, end) => erased_cells(row, start as int, end as int),
        LineEdit::Insert(col, n) => inserted_blanks(row, col as int, n as int),
        LineEdit::Delete(col, n) => deleted_cells(row, col as int, n as int),
    }
}

impl Terminal {
    /// Move every image up `n` rows and drop the ones that left the screen.
    fn scroll_images_up(&mut self, n: u16)
        ensures
            final(self).sixel_images@ == scrolled_images(old(self).sixel_images@, n, old(self).cell_height_pixels, old(self).grid.lines),
            *final(self) == (Terminal { sixel_images: final(self).sixel_images, ..*old(self) }),
    {
        let mut rest: Vec<SixelPlacement> = Vec::new();
        std::mem::swap(&mut rest, &mut self.sixel_images);
        let ghost orig = rest@;
        let ch: u64 = if self.cell_height_pixels == 0 { 1 } else { self.cell_height_pixels as u64 };
        let rows = self.grid.lines();
        let ghost mut k: int = 0;
        while rest.len() > 0
            invariant
                0 <= k <= orig.len(),
                rest@ == orig.skip(k),
                orig == old(self).sixel_images@,
                rows == old(self).grid.lines,
                ch as int == (if old(self).cell_height_pixels == 0 { 1 } else { old(self).cell_height_pixels as int }),
                self.sixel_images@ == scrolled_images(orig.take(k), n, old(self).cell_height_pixels, rows),
                *self == (Terminal { sixel_images: self.sixel_images, ..*old(self) }),
            decreases rest.len(),
        {
            let mut img = rest.remove(0);
            proof {
                assert(orig.take(k + 1).drop_last() =~= orig.take(k));
                assert(orig.take(k + 1).last() == orig[k]);
            }
            img.row = img.row.saturating_sub(n);
            let img_rows: u64 = (img.height as u64 + ch - 1) / ch;
            let end_row: u64 = img.row as u64 + img_rows;
            if end_row > 0 && img.row < rows {
                self.sixel_images.push(img);
            }
            proof {
                k = k + 1;
                assert(rest@ =~= orig.skip(k));
            }
        }
        proof {
            assert(orig.take(k) =~= orig);
        }
    }

    /// Keep the images whose row is below `line` (`below`) or above it.
    fn keep_images_beside(&mut self, line: u16, below: bool)
        ensures
            final(self).sixel_images@ == images_beside(old(self).sixel_images@, line, below),
            *final(self) == (Terminal { sixel_images: final(self).sixel_images, ..*old(self) }),
    {
        let mut rest: Vec<SixelPlacement> = Vec::new();
        std::mem::swap(&mut rest, &mut self.sixel_images);
        let ghost orig = rest@;
        let ghost mut k: int = 0;
        while rest.len() > 0
            invariant
                0 <= k <= orig.len(),
                rest@ == orig.skip(k),
                orig == old(self).sixel_images@,
                self.sixel_images@ == images_beside(orig.take(k), line, below),
                *self == (Terminal { sixel_images: self.sixel_images, ..*old(self) }),
            decreases rest.len(),
        {
            let img = rest.remove(0);
            proof {
                assert(orig.take(k + 1).drop_last() =~= orig.take(k));
                assert(orig.take(k + 1).last() == orig[k]);
            }
            let keep = if below { img.row < line } else { img.row > line };
            if keep {
                self.sixel_images.push(img);
            }
            proof {
                k = k + 1;
                assert(rest@ =~= orig.skip(k));
            }
        }
        proof {
            assert(orig.take(k) =~= orig);
        }
    }

    /// Apply an edit to one screen line; lines off the screen are left alone.
    fn edit_line(&mut self, line: u16, e: LineEdit)
        requires
            old(self).wf(),
        ensures
            final(self).wf(),
            line < old(self).rows ==> final(self).screen() == old(self).screen().update(line as int, edited_row(old(self).screen()[line as int], e)),
            line >= old(self).rows ==> final(self).screen() == old(self).screen(),
            final(self).grid.scrollback == old(self).grid.scrollback,
            final(self).grid.scrollback_limit == old(self).grid.scrollback_limit,
            *final(self) == (Terminal { grid: final(self).grid, ..*old(self) }),
    {
        if line >= self.grid.lines() {
            return;
        }
        let cols = self.grid.cols();
        let ghost row = self.screen()[line as int];
        let ghost target = edited_row(row, e);
        assert(row.len() == cols as int) by {
            assert(self.grid.rows@[line as int].cells@.len() == cols as int);
        }
        let mut cells: Vec<Cell> = Vec::new();
        let mut c: u16 = 0;
        while c < cols
            invariant
                0 <= c <= cols,
                cols == self.cols,
                self.wf(),
                line < self.rows,
                *self == *old(self),
                row == self.screen()[line as int],
                row.len() == cols as int,
                target == edited_row(row, e),
                cells@ =~= target.take(c as int),
            decreases cols - c,
        {
            let c32 = c as u32;
            let cell: Cell = match e {
                LineEdit::Erase(start, end) => {
                    if start <= c32 && c32 < end { Cell::empty() } else { *self.grid.cell(c, line) }
                }
                LineEdit::Insert(col, n) => {
                    if c32 < col {
                        *self.grid.cell(c, line)
                    } else if c32 - col < n {
                        Cell::empty()
                    } else {
                        *self.grid.cell((c32 - n) as u16, line)
                    }
                }
                LineEdit::Delete(col, n) => {
                    let keep_end: u32 = if (cols as u32) > n { cols as u32 - n } else { 0 };
                    if c32 >= keep_end {
                        Cell::empty()
                    } else if c32 >= col {
                        *self.grid.cell((c32 + n) as u16, line)
                    } else {
                        *self.grid.cell(c, line)
                    }
                }
            };
            assert(cell == target[c as int]);
            cells.push(cell);
            c = c + 1;
        }
        assert(cells@ =~= target);
        self.grid.set_row(line, Row { cells });
    }

    /// The character as the active charset shows it.
    fn translate_char(&self, c: char) -> (r: char)
        ensures r == translated(*self, c),
    {
        let charset = match self.active_charset {
            CharsetSlot::G0 => self.charset_g0,
            CharsetSlot::G1 => self.charset_g1,
            CharsetSlot::G2 => self.charset_g2,
            CharsetSlot::G3 => self.charset_g3,
        };
        match charset {
            Charset::DecSpecialGraphics => translate_dec_special(c),
            _ => c,
        }
    }
}


/// The line `goto` and `goto_line` move to: relative to the scroll region
/// (and kept in it) in origin mode, else kept on the screen.
pub open spec fn target_line(t: Terminal, line: u16) -> int {
    if t.modes.origin_mode {
        min_int(t.scroll_top + line, t.scroll_bottom as int)
    } else {
        min_int(line as int, sat_sub(t.rows as int, 1))
    }
}

/// The column `goto` and `goto_col` move to, kept on the screen.
pub open spec fn target_col(t: Terminal, col: u16) -> int {
    min_int(col as int, sat_sub(t.cols as int, 1))
}

impl Terminal {
    fn target_line_exec(&self, line: u16) -> (l: u16)
        requires self.wf(),
        ensures l as int == target_line(*self, line),
    {
        if self.modes.origin_mode {
            let t: u32 = self.scroll_top as u32 + line as u32;
            if t < self.scroll_bottom as u32 { t as u16 } else { self.scroll_bottom }
        } else {
            let last = self.grid.lines().saturating_sub(1);
            if line < last { line } else { last }
        }
    }

    fn target_col_exec(&self, col: u16) -> (c: u16)
        requires self.wf(),
        ensures c as int == target_col(*self, col),
    {
        let last = self.grid.cols().saturating_sub(1);
        if col < last { col } else { last }
    }
}

/// What a CSI call does to a terminal: the relation between the terminal
/// before (`a`) and after (`b`) the handler method the call names.
pub open spec fn csi_applied_to(a: Terminal, call: CsiCall, b: Terminal) -> bool {
    match call {
        CsiCall::MoveUp(n) => {
            &&& b == (Terminal { cursor: Cursor { line: sat_sub(a.cursor.line as int, n as int) as u16, ..a.cursor }, ..a })
        },
        CsiCall::MoveDown(n) => {
            &&& b == (Terminal {
                    cursor: Cursor { line: clamped_advance(a.cursor.line as int, n as int, a.rows as int) as u16, ..a.cursor },
                    ..a
                })
        },
        CsiCall::MoveForward(n) => {
            &&& b == (Terminal {
                    cursor: Cursor { col: clamped_advance(a.cursor.col as int, n as int, a.cols as int) as u16, ..a.cursor },
                    ..a
                })
        },
        CsiCall::MoveBackward(n) => {
            &&& b == (Terminal { cursor: Cursor { col: sat_sub(a.cursor.col as int, n as int) as u16, ..a.cursor }, ..a })
        },
        CsiCall::MoveDownAndCr(n) => {
            &&& b == (Terminal {
                    cursor: Cursor { col: 0, line: clamped_advance(a.cursor.line as int, n as int, a.rows as int) as u16, ..a.cursor },
                    ..a
                })
        },
        CsiCall::MoveUpAndCr(n) => {
            &&& b == (Terminal {
                    cursor: Cursor { col: 0, line: sat_sub(a.cursor.line as int, n as int) as u16, ..a.cursor },
                    ..a
                })
        },
        CsiCall::GotoCol(col) => {
            &&& b == (Terminal { cursor: Cursor { col: target_col(a, col) as u16, ..a.cursor }, ..a })
        },
        CsiCall::GotoLine(line) => {
            &&& b == (Terminal { cursor: Cursor { line: target_line(a, line) as u16, ..a.cursor }, ..a })
        },
        CsiCall::Goto(line, col) => {
            &&& b == (Terminal {
                    cursor: Cursor { line: target_line(a, line) as u16, col: target_col(a, col) as u16, ..a.cursor },
                    ..a
                })
        },
        CsiCall::EraseInDisplay(mode) => {
            &&& mode == 0 && a.cursor.line < a.rows ==> forall|l: int| 0 <= l < a.rows ==>
                    #[trigger] b.screen()[l] == (if l < a.cursor.line { a.screen()[l] }
                        else if l == a.cursor.line { erased_cells(a.screen()[l], a.cursor.col as int, a.cols as int) }
                        else { blank_row(a.cols as int) })
            &&& mode == 1 && a.cursor.line < a.rows ==> forall|l: int| 0 <= l < a.rows ==>
                    #[trigger] b.screen()[l] == (if l < a.cursor.line { blank_row(a.cols as int) }
                        else if l == a.cursor.line { erased_cells(a.screen()[l], 0, a.cursor.col + 1) }
                        else { a.screen()[l] })
            &&& (mode == 2 || mode == 3) ==> b.screen() == blank_rows(a.rows as int, a.cols as int)
            &&& mode == 0 ==> b.sixel_images@ == images_beside(a.sixel_images@, a.cursor.line, true)
            &&& mode == 1 ==> b.sixel_images@ == images_beside(a.sixel_images@, a.cursor.line, false)
            &&& (mode == 2 || mode == 3) ==> b.sixel_images@.len() == 0
            &&& mode > 3 ==> b.screen() == a.screen() && b.sixel_images@ == a.sixel_images@
            &&& b.grid.view_scrollback() == a.grid.view_scrollback()
            &&& b == (Terminal { grid: b.grid, sixel_images: b.sixel_images, ..a })
        },
        CsiCall::EraseInLine(mode) => {
            &&& (mode <= 2 && a.cursor.line < a.rows) ==> b.screen() == a.screen().update(a.cursor.line as int,
                    erased_cells(a.screen()[a.cursor.line as int],
                        if mode == 0 { a.cursor.col as int } else { 0 },
                        if mode == 1 { a.cursor.col + 1 } else { a.cols as int }))
            &&& (mode > 2 || a.cursor.line >= a.rows) ==> b.screen() == a.screen()
            &&& b.grid.scrollback == a.grid.scrollback
            &&& b == (Terminal { grid: b.grid, ..a })
        },
        CsiCall::EraseChars(n) => {
            &&& a.cursor.line < a.rows ==> b.screen() == a.screen().update(a.cursor.line as int,
                    erased_cells(a.screen()[a.cursor.line as int], a.cursor.col as int, a.cursor.col + n))
            &&& a.cursor.line >= a.rows ==> b.screen() == a.screen()
            &&& b.grid.scrollback == a.grid.scrollback
            &&& b == (Terminal { grid: b.grid, ..a })
        },
        CsiCall::InsertBlank(n) => {
            &&& a.cursor.line < a.rows ==> b.screen() == a.screen().update(a.cursor.line as int,
                    inserted_blanks(a.screen()[a.cursor.line as int], a.cursor.col as int, n as int))
            &&& a.cursor.line >= a.rows ==> b.screen() == a.screen()
            &&& b.grid.scrollback == a.grid.scrollback
            &&& b == (Terminal { grid: b.grid, ..a })
        },
        CsiCall::DeleteChars(n) => {
            &&& a.cursor.line < a.rows ==> b.screen() == a.screen().update(a.cursor.line as int,
                    deleted_cells(a.screen()[a.cursor.line as int], a.cursor.col as int, n as int))
            &&& a.cursor.line >= a.rows ==> b.screen() == a.screen()
            &&& b.grid.scrollback == a.grid.scrollback
            &&& b == (Terminal { grid: b.grid, ..a })
        },
        CsiCall::InsertLines(n) => {
            &&& (a.cursor.line <= a.scroll_bottom && a.rows > 0) ==> b.screen()
                    == region_scrolled_down(a.screen(), a.cursor.line as int, a.scroll_bottom as int, n as int, a.cols as int)
            &&& !(a.cursor.line <= a.scroll_bottom && a.rows > 0) ==> b.screen() == a.screen()
            &&& b.grid.scrollback == a.grid.scrollback
            &&& b == (Terminal { grid: b.grid, ..a })
        },
        CsiCall::DeleteLines(n) => {
            &&& (a.cursor.line <= a.scroll_bottom && a.rows > 0) ==> b.screen()
                    == region_scrolled_up(a.screen(), a.cursor.line as int, a.scroll_bottom as int, n as int, a.cols as int)
            &&& !(a.cursor.line <= a.scroll_bottom && a.rows > 0) ==> b.screen() == a.screen()
            &&& b.grid.scrollback == a.grid.scrollback
            &&& b == (Terminal { grid: b.grid, ..a })
        },
        CsiCall::ScrollUp(n) => {
            &&& b.screen() == screen_scrolled_up(a, n as int)
            &&& (full_screen_region(a) && a.rows > 0) ==> b.grid.view_scrollback()
                    == super::grid::scrolled_history(a.grid.view_scrollback(), a.screen(), n as int,
                        a.cols as int, a.grid.scrollback_limit as int)
            &&& (!full_screen_region(a) && a.scroll_top > 0) ==>
                    b.grid.view_scrollback() == a.grid.view_scrollback()
            &&& b.grid.scrollback_limit == a.grid.scrollback_limit
            &&& b.sixel_images@ == scrolled_images(a.sixel_images@, n, a.cell_height_pixels, a.rows)
            &&& b == (Terminal { grid: b.grid, sixel_images: b.sixel_images, ..a })
        },
        CsiCall::ScrollDown(n) => {
            &&& (full_screen_region(a) && a.rows > 0) ==> b.screen()
                    == screen_scrolled_down(a, n as int).0.map_values(|r: Seq<Cell>| super::grid::resized_row(r, a.cols as int))
                    && b.grid.view_scrollback() == screen_scrolled_down(a, n as int).1
            &&& !full_screen_region(a) ==> b.screen() == screen_scrolled_down(a, n as int).0
                    && b.grid.view_scrollback() == a.grid.view_scrollback()
            &&& (full_screen_region(a) && a.rows == 0) ==> b.grid == a.grid
            &&& b == (Terminal { grid: b.grid, ..a })
        },
        CsiCall::SetScrollRegion(top, bottom) => {
            &&& b.scroll_top as int == region_of(a.rows, top, bottom).0
            &&& b.scroll_bottom as int == region_of(a.rows, top, bottom).1
            &&& a.modes.origin_mode ==> b.cursor == (Cursor { col: 0, line: b.scroll_top, ..a.cursor })
            &&& !a.modes.origin_mode ==> b.cursor == a.cursor
            &&& b == (Terminal { scroll_top: b.scroll_top, scroll_bottom: b.scroll_bottom, cursor: b.cursor, ..a })
        },
        CsiCall::ClearTab(mode) => {
            &&& (mode == 0 && (a.cursor.col as int) < a.tab_stops@.len()) ==>
                    b.tab_stops@ == a.tab_stops@.update(a.cursor.col as int, false)
            &&& mode == 3 ==> b.tab_stops@ == Seq::new(a.tab_stops@.len(), |i: int| false)
            &&& !((mode == 0 && (a.cursor.col as int) < a.tab_stops@.len()) || mode == 3) ==>
                    b.tab_stops@ == a.tab_stops@
            &&& b == (Terminal { tab_stops: b.tab_stops, ..a })
        },
        CsiCall::SetAttr(attr) => {
            &&& b.cursor == attr_applied(a.cursor, attr, a.color_palette)
            &&& b == (Terminal { cursor: b.cursor, ..a })
        },
        CsiCall::SetMode(mode, enable) => {
            &&& mode_set(a, b, mode, enable)
        },
        CsiCall::SaveCursor => {
            &&& b == (Terminal { saved_cursor: Some(saved_of(a.cursor)), ..a })
        },
        CsiCall::RestoreCursor => {
            &&& a.saved_cursor.is_some() ==>
                    b == (Terminal { cursor: restored(a.cursor, a.saved_cursor.unwrap()), ..a })
            &&& a.saved_cursor.is_none() ==> b == a
        },
    }
}

/// What an OSC call does to a terminal (see `csi_applied_to`).
pub open spec fn osc_applied_to(a: Terminal, call: OscCallModel, b: Terminal) -> bool {
    match call {
        OscCallModel::SetTitle(title) => {
            &&& b.title@ == title
            &&& b == (Terminal { title: b.title, ..a })
        },
        OscCallModel::SetWorkingDirectory(path) => {
            &&& b.working_directory.is_some()
            &&& b.working_directory.unwrap()@ == path
            &&& b == (Terminal { working_directory: b.working_directory, ..a })
        },
        OscCallModel::SetHyperlink(id, url) => {
            &&& (url.is_some() && url.unwrap().len() > 0) ==> {
                    &&& b.hyperlinks@ == a.hyperlinks@.push(b.hyperlinks@.last())
                    &&& b.hyperlinks@.last().id == a.next_hyperlink_id
                    &&& b.hyperlinks@.last().url@ == url.unwrap()
                    &&& b.hyperlinks@.last().id_str.is_some() == id.is_some()
                    &&& (id.is_some() ==> b.hyperlinks@.last().id_str.unwrap()@ == id.unwrap())
                    &&& b.current_hyperlink_id == a.next_hyperlink_id
                    &&& b.next_hyperlink_id == (if a.next_hyperlink_id == u32::MAX { 0 } else { a.next_hyperlink_id + 1 })
                    &&& b.current_hyperlink.is_some()
                    &&& b.current_hyperlink.unwrap().url@ == url.unwrap()
                    &&& b.current_hyperlink.unwrap().id.is_some() == id.is_some()
                    &&& (id.is_some() ==> b.current_hyperlink.unwrap().id.unwrap()@ == id.unwrap())
                    &&& b == (Terminal {
                            hyperlinks: b.hyperlinks,
                            current_hyperlink: b.current_hyperlink,
                            current_hyperlink_id: b.current_hyperlink_id,
                            next_hyperlink_id: b.next_hyperlink_id,
                            ..a
                        })
                }
            &&& !(url.is_some() && url.unwrap().len() > 0) ==>
                    b == (Terminal { current_hyperlink: None, current_hyperlink_id: 0, ..a })
        },
        OscCallModel::Clipboard(clipboard, data) => {
            &&& b.clipboard_requests@.len() == a.clipboard_requests@.len() + 1
            &&& b.clipboard_requests@.drop_last() == a.clipboard_requests@
            &&& b.clipboard_requests@.last().selection == clipboard
            &&& b.clipboard_requests@.last().data.is_some() == data.is_some()
            &&& data.is_some() ==> b.clipboard_requests@.last().data.unwrap()@ == data.unwrap()
            &&& b == (Terminal { clipboard_requests: b.clipboard_requests, ..a })
        },
    }
}

impl Handler for Terminal {
    open spec fn inv(&self) -> bool {
        self.wf()
    }

    open spec fn csi_effect(&self, call: CsiCall, next: Self) -> bool {
        csi_applied_to(*self, call, next)
    }

    open spec fn osc_effect(&self, call: OscCallModel, next: Self) -> bool {
        osc_applied_to(*self, call, next)
    }

    fn input(&mut self, c: char)
        ensures
            final(self).cursor == (Cursor {
                col: min_int(wrapped_cursor(*old(self)).col + print_width(translated(*old(self), c)), u16::MAX as int) as u16,
                ..wrapped_cursor(*old(self))
            }),
            (wrapped_cursor(*old(self)).line < old(self).rows && wrapped_cursor(*old(self)).col < old(self).cols) ==>
                final(self).screen() == wrapped_screen(*old(self)).update(wrapped_cursor(*old(self)).line as int,
                    printed_row(wrapped_screen(*old(self))[wrapped_cursor(*old(self)).line as int], wrapped_cursor(*old(self)).col as int,
                        printed_cell(*old(self), c, 0), print_width(translated(*old(self), c)) > 1, old(self).current_hyperlink_id)),
            !(wrapped_cursor(*old(self)).line < old(self).rows && wrapped_cursor(*old(self)).col < old(self).cols) ==>
                final(self).screen() == wrapped_screen(*old(self)),
            *final(self) == (Terminal { grid: final(self).grid, cursor: final(self).cursor, sixel_images: final(self).sixel_images, ..*old(self) }),
    {
        self.write_char_with_grapheme(c, 0);
    }

    fn goto(&mut self, line: u16, col: u16)
        ensures
            *final(self) == (Terminal {
                cursor: Cursor { line: target_line(*old(self), line) as u16, col: target_col(*old(self), col) as u16, ..old(self).cursor },
                ..*old(self)
            }),
    {
        let l = self.target_line_exec(line);
        let c = self.target_col_exec(col);
        self.cursor.line = l;
        self.cursor.col = c;
    }

    fn goto_line(&mut self, line: u16)
        ensures
            *final(self) == (Terminal { cursor: Cursor { line: target_line(*old(self), line) as u16, ..old(self).cursor }, ..*old(self) }),
    {
        let l = self.target_line_exec(line);
        self.cursor.line = l;
    }

    fn goto_col(&mut self, col: u16)
        ensures
            *final(self) == (Terminal { cursor: Cursor { col: target_col(*old(self), col) as u16, ..old(self).cursor }, ..*old(self) }),
    {
        let c = self.target_col_exec(col);
        self.cursor.col = c;
    }

    fn move_up(&mut self, n: u16)
        ensures
            *final(self) == (Terminal { cursor: Cursor { line: sat_sub(old(self).cursor.line as int, n as int) as u16, ..old(self).cursor }, ..*old(self) }),
    {
        self.cursor.move_up(n);
    }

    fn move_down(&mut self, n: u16)
        ensures
            *final(self) == (Terminal {
                cursor: Cursor { line: clamped_advance(old(self).cursor.line as int, n as int, old(self).rows as int) as u16, ..old(self).cursor },
                ..*old(self)
            }),
    {
        let target: u32 = self.cursor.line as u32 + n as u32;
        let last: u32 = self.grid.lines().saturating_sub(1) as u32;
        self.cursor.line = if target < last { target as u16 } else { last as u16 };
    }

    fn move_forward(&mut self, n: u16)
        ensures
            *final(self) == (Terminal {
                cursor: Cursor { col: clamped_advance(old(self).cursor.col as int, n as int, old(self).cols as int) as u16, ..old(self).cursor },
                ..*old(self)
            }),
    {
        let target: u32 = self.cursor.col as u32 + n as u32;
        let last: u32 = self.grid.cols().saturating_sub(1) as u32;
        self.cursor.col = if target < last { target as u16 } else { last as u16 };
    }

    fn move_backward(&mut self, n: u16)
        ensures
            *final(self) == (Terminal { cursor: Cursor { col: sat_sub(old(self).cursor.col as int, n as int) as u16, ..old(self).cursor }, ..*old(self) }),
    {
        self.cursor.move_left(n);
    }

    fn move_down_and_cr(&mut self, n: u16)
        ensures
            *final(self) == (Terminal {
                cursor: Cursor { col: 0, line: clamped_advance(old(self).cursor.line as int, n as int, old(self).rows as int) as u16, ..old(self).cursor },
                ..*old(self)
            }),
    {
        self.cursor.col = 0;
        let target: u32 = self.cursor.line as u32 + n as u32;
        let last: u32 = self.grid.lines().saturating_sub(1) as u32;
        self.cursor.line = if target < last { target as u16 } else { last as u16 };
    }

    fn move_up_and_cr(&mut self, n: u16)
        ensures
            *final(self) == (Terminal {
                cursor: Cursor { col: 0, line: sat_sub(old(self).cursor.line as int, n as int) as u16, ..old(self).cursor },
                ..*old(self)
            }),
    {
        self.cursor.col = 0;
        self.cursor.move_up(n);
    }

    fn insert_blank(&mut self, n: u16)
        ensures
            old(self).cursor.line < old(self).rows ==> final(self).screen() == old(self).screen().update(old(self).cursor.line as int,
                inserted_blanks(old(self).screen()[old(self).cursor.line as int], old(self).cursor.col as int, n as int)),
            old(self).cursor.line >= old(self).rows ==> final(self).screen() == old(self).screen(),
            final(self).grid.scrollback == old(self).grid.scrollback,
            *final(self) == (Terminal { grid: final(self).grid, ..*old(self) }),
    {
        let line = self.cursor.line;
        let col = self.cursor.col;
        self.edit_line(line, LineEdit::Insert(col as u32, n as u32));
    }

    fn newline(&mut self)
        ensures
            final(self).cursor == (Cursor {
                col: if old(self).modes.linefeed_mode { 0 } else { old(self).cursor.col },
                line: line_after_feed(*old(self)) as u16,
                ..old(self).cursor
            }),
            old(self).cursor.line >= old(self).scroll_bottom ==> final(self).screen() == screen_scrolled_up(*old(self), 1),
            old(self).cursor.line < old(self).scroll_bottom ==> final(self).grid == old(self).grid,
            *final(self) == (Terminal { grid: final(self).grid, cursor: final(self).cursor, sixel_images: final(self).sixel_images, ..*old(self) }),
    {
        if self.modes.linefeed_mode {
            self.carriage_return();
        }
        self.linefeed();
    }

    fn carriage_return(&mut self)
        ensures
            *final(self) == (Terminal { cursor: Cursor { col: 0, ..old(self).cursor }, ..*old(self) }),
    {
        self.cursor.carriage_return();
    }

    fn backspace(&mut self)
        ensures
            *final(self) == (Terminal { cursor: Cursor { col: sat_sub(old(self).cursor.col as int, 1) as u16, ..old(self).cursor }, ..*old(self) }),
    {
        self.cursor.move_left(1);
    }

    fn tab(&mut self)
        ensures
            final(self).cursor.col as int == min_int(next_tab_stop(old(self).tab_stops@, old(self).cursor.col + 1, old(self).cols as int),
                sat_sub(old(self).cols as int, 1)),
            *final(self) == (Terminal { cursor: Cursor { col: final(self).cursor.col, ..old(self).cursor }, ..*old(self) }),
    {
        let cols = self.grid.cols() as usize;
        let mut col: usize = self.cursor.col as usize + 1;
        while col < cols && !self.tab_stops[col]
            invariant
                self.wf(),
                *self == *old(self),
                cols == self.cols as int,
                old(self).cursor.col + 1 <= col <= cols || col == old(self).cursor.col + 1,
                next_tab_stop(self.tab_stops@, old(self).cursor.col + 1, cols as int) == next_tab_stop(self.tab_stops@, col as int, cols as int),
            decreases cols - col,
        {
            col = col + 1;
        }
        let last = self.grid.cols().saturating_sub(1);
        let target: u16 = if col < last as usize { col as u16 } else { last };
        self.cursor.col = target;
    }

    fn erase_chars(&mut self, n: u16)
        ensures
            old(self).cursor.line < old(self).rows ==> final(self).screen() == old(self).screen().update(old(self).cursor.line as int,
                erased_cells(old(self).screen()[old(self).cursor.line as int], old(self).cursor.col as int, old(self).cursor.col + n)),
            old(self).cursor.line >= old(self).rows ==> final(self).screen() == old(self).screen(),
            final(self).grid.scrollback == old(self).grid.scrollback,
            *final(self) == (Terminal { grid: final(self).grid, ..*old(self) }),
    {
        let line = self.cursor.line;
        let col = self.cursor.col;
        self.edit_line(line, LineEdit::Erase(col as u32, col as u32 + n as u32));
    }

    fn delete_chars(&mut self, n: u16)
        ensures
            old(self).cursor.line < old(self).rows ==> final(self).screen() == old(self).screen().update(old(self).cursor.line as int,
                deleted_cells(old(self).screen()[old(self).cursor.line as int], old(self).cursor.col as int, n as int)),
            old(self).cursor.line >= old(self).rows ==> final(self).screen() == old(self).screen(),
            final(self).grid.scrollback == old(self).grid.scrollback,
            *final(self) == (Terminal { grid: final(self).grid, ..*old(self) }),
    {
        let line = self.cursor.line;
        let col = self.cursor.col;
        proof {
            assert(old(self).cursor.line < old(self).rows ==> old(self).screen()[old(self).cursor.line as int].len() == old(self).cols) by {
                if old(self).cursor.line < old(self).rows {
                    assert(old(self).grid.rows@[old(self).cursor.line as int].cells@.len() == old(self).cols as int);
                }
            }
        }
        self.edit_line(line, LineEdit::Delete(col as u32, n as u32));
    }

    fn erase_in_line(&mut self, mode: u16)
        ensures
            (mode <= 2 && old(self).cursor.line < old(self).rows) ==> final(self).screen() == old(self).screen().update(old(self).cursor.line as int,
                erased_cells(old(self).screen()[old(self).cursor.line as int],
                    if mode == 0 { old(self).cursor.col as int } else { 0 },
                    if mode == 1 { old(self).cursor.col + 1 } else { old(self).cols as int })),
            (mode > 2 || old(self).cursor.line >= old(self).rows) ==> final(self).screen() == old(self).screen(),
            final(self).grid.scrollback == old(self).grid.scrollback,
            *final(self) == (Terminal { grid: final(self).grid, ..*old(self) }),
    {
        let cols = self.grid.cols() as u32;
        let line = self.cursor.line;
        let col = self.cursor.col as u32;
        if mode == 0 {
            self.edit_line(line, LineEdit::Erase(col, cols));
        } else if mode == 1 {
            self.edit_line(line, LineEdit::Erase(0, col + 1));
        } else if mode == 2 {
            self.edit_line(line, LineEdit::Erase(0, cols));
        }
    }

    fn erase_in_display(&mut self, mode: u16)
        ensures
            mode == 0 && old(self).cursor.line < old(self).rows ==> forall|l: int| 0 <= l < old(self).rows ==>
                #[trigger] final(self).screen()[l] == (if l < old(self).cursor.line { old(self).screen()[l] }
                    else if l == old(self).cursor.line { erased_cells(old(self).screen()[l], old(self).cursor.col as int, old(self).cols as int) }
                    else { blank_row(old(self).cols as int) }),
            mode == 1 && old(self).cursor.line < old(self).rows ==> forall|l: int| 0 <= l < old(self).rows ==>
                #[trigger] final(self).screen()[l] == (if l < old(self).cursor.line { blank_row(old(self).cols as int) }
                    else if l == old(self).cursor.line { erased_cells(old(self).screen()[l], 0, old(self).cursor.col + 1) }
                    else { old(self).screen()[l] }),
            (mode == 2 || mode == 3) ==> final(self).screen() == blank_rows(old(self).rows as int, old(self).cols as int),
            mode == 0 ==> final(self).sixel_images@ == images_beside(old(self).sixel_images@, old(self).cursor.line, true),
            mode == 1 ==> final(self).sixel_images@ == images_beside(old(self).sixel_images@, old(self).cursor.line, false),
            (mode == 2 || mode == 3) ==> final(self).sixel_images@.len() == 0,
            mode > 3 ==> final(self).screen() == old(self).screen() && final(self).sixel_images@ == old(self).sixel_images@,
            final(self).grid.view_scrollback() == old(self).grid.view_scrollback(),
            *final(self) == (Terminal { grid: final(self).grid, sixel_images: final(self).sixel_images, ..*old(self) }),
    {
        if mode == 0 {
            self.erase_below();
        } else if mode == 1 {
            self.erase_above();
        } else if mode == 2 || mode == 3 {
            self.grid.clear();
            self.sixel_images.clear();
        }
    }

    #[verifier::rlimit(80)]
    fn insert_lines(&mut self, n: u16)
        ensures
            (old(self).cursor.line <= old(self).scroll_bottom && old(self).rows > 0) ==> final(self).screen()
                == region_scrolled_down(old(self).screen(), old(self).cursor.line as int, old(self).scroll_bottom as int, n as int, old(self).cols as int),
            !(old(self).cursor.line <= old(self).scroll_bottom && old(self).rows > 0) ==> final(self).screen() == old(self).screen(),
            final(self).grid.scrollback == old(self).grid.scrollback,
            *final(self) == (Terminal { grid: final(self).grid, ..*old(self) }),
    {
        let line = self.cursor.line;
        if line > self.scroll_bottom || self.grid.lines() == 0 {
            return;
        }
        let bottom = self.scroll_bottom;
        self.grid.insert_region_lines(line, bottom, n as usize);
    }

    #[verifier::rlimit(80)]
    fn delete_lines(&mut self, n: u16)
        ensures
            (old(self).cursor.line <= old(self).scroll_bottom && old(self).rows > 0) ==> final(self).screen()
                == region_scrolled_up(old(self).screen(), old(self).cursor.line as int, old(self).scroll_bottom as int, n as int, old(self).cols as int),
            !(old(self).cursor.line <= old(self).scroll_bottom && old(self).rows > 0) ==> final(self).screen() == old(self).screen(),
            final(self).grid.scrollback == old(self).grid.scrollback,
            *final(self) == (Terminal { grid: final(self).grid, ..*old(self) }),
    {
        let line = self.cursor.line;
        if line > self.scroll_bottom || self.grid.lines() == 0 {
            return;
        }
        let bottom = self.scroll_bottom;
        self.grid.remove_region_lines(line, bottom, n as usize);
    }

    fn clear_tab(&mut self, mode: u16)
        ensures
            (mode == 0 && (old(self).cursor.col as int) < old(self).tab_stops@.len()) ==>
                final(self).tab_stops@ == old(self).tab_stops@.update(old(self).cursor.col as int, false),
            mode == 3 ==> final(self).tab_stops@ == Seq::new(old(self).tab_stops@.len(), |i: int| false),
            !((mode == 0 && (old(self).cursor.col as int) < old(self).tab_stops@.len()) || mode == 3) ==>
                final(self).tab_stops@ == old(self).tab_stops@,
            *final(self) == (Terminal { tab_stops: final(self).tab_stops, ..*old(self) }),
    {
        if mode == 0 {
            let col = self.cursor.col as usize;
            if col < self.tab_stops.len() {
                self.tab_stops.set(col, false);
            }
        } else if mode == 3 {
            let n = self.tab_stops.len();
            let mut i: usize = 0;
            while i < n
                invariant
                    0 <= i <= n,
                    n == self.tab_stops@.len(),
                    n == old(self).tab_stops@.len(),
                    forall|j: int| 0 <= j < i ==> !#[trigger] self.tab_stops@[j],
                    *self == (Terminal { tab_stops: self.tab_stops, ..*old(self) }),
                decreases n - i,
            {
                self.tab_stops.set(i, false);
                i = i + 1;
            }
            assert(self.tab_stops@ =~= Seq::new(old(self).tab_stops@.len(), |i: int| false));
        }
    }

    fn set_attr(&mut self, attr: Attr)
        ensures
            final(self).cursor == attr_applied(old(self).cursor, attr, old(self).color_palette),
            *final(self) == (Terminal { cursor: final(self).cursor, ..*old(self) }),
    {
        match attr {
            Attr::Reset => {
                self.cursor.fg = default_fg_exec();
                self.cursor.bg = default_bg_exec();
                self.cursor.flags = CellFlags::empty();
            }
            Attr::Bold => self.cursor.flags.insert(CellFlags::bold()),
            Attr::Dim => self.cursor.flags.insert(CellFlags::dim()),
            Attr::Italic => self.cursor.flags.insert(CellFlags::italic()),
            Attr::Underline => self.cursor.flags.insert(CellFlags::underline()),
            Attr::Blink => self.cursor.flags.insert(CellFlags::blink()),
            Attr::Inverse => self.cursor.flags.insert(CellFlags::inverse()),
            Attr::Hidden => self.cursor.flags.insert(CellFlags::hidden()),
            Attr::Strike => self.cursor.flags.insert(CellFlags::strikethrough()),
            Attr::CancelBold => self.cursor.flags.remove(CellFlags::bold()),
            Attr::CancelDim => self.cursor.flags.remove(CellFlags::dim()),
            Attr::CancelItalic => self.cursor.flags.remove(CellFlags::italic()),
            Attr::CancelUnderline => self.cursor.flags.remove(CellFlags::underline()),
            Attr::CancelBlink => self.cursor.flags.remove(CellFlags::blink()),
            Attr::CancelInverse => self.cursor.flags.remove(CellFlags::inverse()),
            Attr::CancelHidden => self.cursor.flags.remove(CellFlags::hidden()),
            Attr::CancelStrike => self.cursor.flags.remove(CellFlags::strikethrough()),
            Attr::Foreground(c) => self.cursor.fg = c,
            Attr::Background(c) => self.cursor.bg = c,
            Attr::ForegroundIndex(idx) => {
                self.cursor.fg = Color::from_256_with_palette(idx, &self.color_palette);
            }
            Attr::BackgroundIndex(idx) => {
                self.cursor.bg = Color::from_256_with_palette(idx, &self.color_palette);
            }
            Attr::DefaultForeground => self.cursor.fg = default_fg_exec(),
            Attr::DefaultBackground => self.cursor.bg = default_bg_exec(),
        }
    }

    fn set_title(&mut self, title: &str)
        ensures
            final(self).title@ == title@,
            *final(self) == (Terminal { title: final(self).title, ..*old(self) }),
    {
        self.title = string_from_chars(&chars_of(title));
    }

    fn bell(&mut self)
        ensures
            *final(self) == (Terminal { pending_bell: Some(BellEvent::Both), ..*old(self) }),
    {
        self.pending_bell = Some(BellEvent::Both);
    }

    fn reset(&mut self)
        ensures
            final(self).cursor == initial_cursor(),
            final(self).screen() == blank_rows(old(self).rows as int, old(self).cols as int),
            final(self).modes == initial_modes(),
            final(self).scroll_top == 0,
            final(self).scroll_bottom as int == sat_sub(old(self).rows as int, 1),
            final(self).title@.len() == 0,
            final(self).icon_name@.len() == 0,
            final(self).current_hyperlink.is_none(),
            final(self).current_hyperlink_id == 0,
            final(self).viewport_offset == 0,
            final(self).tab_stops@ == default_tab_stops(old(self).cols as int),
            final(self).charset_g0 == Charset::Ascii,
            final(self).charset_g1 == Charset::DecSpecialGraphics,
            final(self).charset_g2 == Charset::Ascii,
            final(self).charset_g3 == Charset::Ascii,
            final(self).active_charset == CharsetSlot::G0,
            old(self).modes.alternate_screen ==> final(self).alt_grid == old(self).grid,
            !old(self).modes.alternate_screen ==> final(self).alt_grid == old(self).alt_grid,
            final(self).cols == old(self).cols,
            final(self).rows == old(self).rows,
            final(self).hyperlinks == old(self).hyperlinks,
            final(self).sixel_images == old(self).sixel_images,
            final(self).responses == old(self).responses,
            final(self).parser == old(self).parser,
    {
        if self.modes.alternate_screen {
            self.switch_to_primary_screen();
        }
        self.cursor = Cursor::new();
        self.grid.clear();
        self.scroll_top = 0;
        self.scroll_bottom = self.grid.lines().saturating_sub(1);
        self.title = String::new();
        self.icon_name = String::new();
        self.modes = initial_modes_exec();
        self.current_hyperlink = None;
        self.current_hyperlink_id = 0;
        self.viewport_offset = 0;
        self.reset_tab_stops();
        self.charset_g0 = Charset::Ascii;
        self.charset_g1 = Charset::DecSpecialGraphics;
        self.charset_g2 = Charset::Ascii;
        self.charset_g3 = Charset::Ascii;
        self.active_charset = CharsetSlot::G0;
    }

    fn save_cursor(&mut self)
        ensures
            *final(self) == (Terminal { saved_cursor: Some(saved_of(old(self).cursor)), ..*old(self) }),
    {
        self.saved_cursor = Some(self.cursor.save());
    }

    fn restore_cursor(&mut self)
        ensures
            old(self).saved_cursor.is_some() ==>
                *final(self) == (Terminal { cursor: restored(old(self).cursor, old(self).saved_cursor.unwrap()), ..*old(self) }),
            old(self).saved_cursor.is_none() ==> *final(self) == *old(self),
    {
        if let Some(saved) = self.saved_cursor {
            self.cursor.restore(&saved);
        }
    }

    #[verifier::rlimit(50)]
    fn set_scroll_region(&mut self, top: u16, bottom: u16)
        ensures
            final(self).scroll_top as int == region_of(old(self).rows, top, bottom).0,
            final(self).scroll_bottom as int == region_of(old(self).rows, top, bottom).1,
            old(self).modes.origin_mode ==> final(self).cursor == (Cursor { col: 0, line: final(self).scroll_top, ..old(self).cursor }),
            !old(self).modes.origin_mode ==> final(self).cursor == old(self).cursor,
            *final(self) == (Terminal { scroll_top: final(self).scroll_top, scroll_bottom: final(self).scroll_bottom, cursor: final(self).cursor, ..*old(self) }),
    {
        let (t, b) = region_exec(self.grid.lines(), top, bottom);
        self.scroll_top = t;
        self.scroll_bottom = b;
        if self.modes.origin_mode {
            self.cursor.col = 0;
            self.cursor.line = self.scroll_top;
        }
    }

    fn scroll_up(&mut self, n: u16)
        ensures
            final(self).screen() == screen_scrolled_up(*old(self), n as int),
            (full_screen_region(*old(self)) && old(self).rows > 0) ==> final(self).grid.view_scrollback()
                == super::grid::scrolled_history(old(self).grid.view_scrollback(), old(self).screen(), n as int,
                    old(self).cols as int, old(self).grid.scrollback_limit as int),
            (!full_screen_region(*old(self)) && old(self).scroll_top > 0) ==>
                final(self).grid.view_scrollback() == old(self).grid.view_scrollback(),
            final(self).grid.scrollback_limit == old(self).grid.scrollback_limit,
            final(self).sixel_images@ == scrolled_images(old(self).sixel_images@, n, old(self).cell_height_pixels, old(self).rows),
            *final(self) == (Terminal { grid: final(self).grid, sixel_images: final(self).sixel_images, ..*old(self) }),
    {
        let last = self.grid.lines().saturating_sub(1);
        if self.scroll_top == 0 && self.scroll_bottom == last {
            if self.grid.lines() > 0 {
                self.grid.scroll_up(n as usize);
            }
        } else {
            let top = self.scroll_top;
            let bottom = self.scroll_bottom;
            self.grid.scroll_region_up(top, bottom, n as usize);
        }
        self.scroll_images_up(n);
    }

    fn scroll_down(&mut self, n: u16)
        ensures
            (full_screen_region(*old(self)) && old(self).rows > 0) ==> final(self).screen()
                == screen_scrolled_down(*old(self), n as int).0.map_values(|r: Seq<Cell>| super::grid::resized_row(r, old(self).cols as int))
                && final(self).grid.view_scrollback() == screen_scrolled_down(*old(self), n as int).1,
            !full_screen_region(*old(self)) ==> final(self).screen() == screen_scrolled_down(*old(self), n as int).0
                && final(self).grid.view_scrollback() == old(self).grid.view_scrollback(),
            (full_screen_region(*old(self)) && old(self).rows == 0) ==> final(self).grid == old(self).grid,
            *final(self) == (Terminal { grid: final(self).grid, ..*old(self) }),
    {
        let last = self.grid.lines().saturating_sub(1);
        if self.scroll_top == 0 && self.scroll_bottom == last {
            if self.grid.lines() > 0 {
                self.grid.scroll_down(n as usize);
                self.grid.fit_rows();
            }
        } else {
            let top = self.scroll_top;
            let bottom = self.scroll_bottom;
            self.grid.scroll_region_down(top, bottom, n as usize);
        }
    }

    fn set_cursor_visible(&mut self, visible: bool)
        ensures
            *final(self) == (Terminal {
                cursor: Cursor { visible: visible, ..old(self).cursor },
                modes: TerminalModes { cursor_visible: visible, ..old(self).modes },
                ..*old(self)
            }),
    {
        self.cursor.visible = visible;
        self.modes.cursor_visible = visible;
    }

    fn reverse_index(&mut self)
        ensures
            old(self).cursor.line == old(self).scroll_top ==> final(self).cursor == old(self).cursor
                && *final(self) == (Terminal { grid: final(self).grid, ..*old(self) }),
            old(self).cursor.line == old(self).scroll_top && !full_screen_region(*old(self)) ==>
                final(self).screen() == screen_scrolled_down(*old(self), 1).0,
            old(self).cursor.line != old(self).scroll_top ==>
                *final(self) == (Terminal { cursor: Cursor { line: sat_sub(old(self).cursor.line as int, 1) as u16, ..old(self).cursor }, ..*old(self) }),
    {
        if self.cursor.line == self.scroll_top {
            self.scroll_down(1);
        } else {
            self.cursor.move_up(1);
        }
    }

    fn linefeed(&mut self)
        ensures
            old(self).cursor.line >= old(self).scroll_bottom ==> final(self).cursor == old(self).cursor
                && final(self).screen() == screen_scrolled_up(*old(self), 1)
                && final(self).sixel_images@ == scrolled_images(old(self).sixel_images@, 1, old(self).cell_height_pixels, old(self).rows)
                && *final(self) == (Terminal { grid: final(self).grid, sixel_images: final(self).sixel_images, ..*old(self) }),
            old(self).cursor.line < old(self).scroll_bottom ==>
                *final(self) == (Terminal { cursor: Cursor { line: (old(self).cursor.line + 1) as u16, ..old(self).cursor }, ..*old(self) }),
    {
        if self.cursor.line >= self.scroll_bottom {
            self.scroll_up(1);
        } else {
            self.cursor.line = self.cursor.line + 1;
        }
    }

    fn set_mode(&mut self, mode: u16, enable: bool)
        ensures
            mode_set(*old(self), *final(self), mode, enable),
    {
        if mode == 47 || mode == 1047 || mode == 1049 {
            self.set_screen_mode(mode, enable);
        } else if mode == 6 || mode == 25 {
            self.set_cursor_mode(mode, enable);
        } else {
            self.set_flag_mode(mode, enable);
        }
    }

    fn set_hyperlink(&mut self, id: Option<&str>, url: Option<&str>)
        ensures
            (url.is_some() && url.unwrap()@.len() > 0) ==> {
                &&& final(self).hyperlinks@ == old(self).hyperlinks@.push(final(self).hyperlinks@.last())
                &&& final(self).hyperlinks@.last().id == old(self).next_hyperlink_id
                &&& final(self).hyperlinks@.last().url@ == url.unwrap()@
                &&& final(self).hyperlinks@.last().id_str.is_some() == id.is_some()
                &&& (id.is_some() ==> final(self).hyperlinks@.last().id_str.unwrap()@ == id.unwrap()@)
                &&& final(self).current_hyperlink_id == old(self).next_hyperlink_id
                &&& final(self).next_hyperlink_id == (if old(self).next_hyperlink_id == u32::MAX { 0 } else { old(self).next_hyperlink_id + 1 })
                &&& final(self).current_hyperlink.is_some()
                &&& final(self).current_hyperlink.unwrap().url@ == url.unwrap()@
                &&& final(self).current_hyperlink.unwrap().id.is_some() == id.is_some()
                &&& (id.is_some() ==> final(self).current_hyperlink.unwrap().id.unwrap()@ == id.unwrap()@)
                &&& *final(self) == (Terminal {
                        hyperlinks: final(self).hyperlinks,
                        current_hyperlink: final(self).current_hyperlink,
                        current_hyperlink_id: final(self).current_hyperlink_id,
                        next_hyperlink_id: final(self).next_hyperlink_id,
                        ..*old(self)
                    })
            },
            !(url.is_some() && url.unwrap()@.len() > 0) ==>
                *final(self) == (Terminal { current_hyperlink: None, current_hyperlink_id: 0, ..*old(self) }),
    {
        match url {
            Some(u) => {
                if u.unicode_len() > 0 {
                    let hyperlink_id = self.next_hyperlink_id;
                    self.next_hyperlink_id = self.next_hyperlink_id.wrapping_add(1);
                    let id_str: Option<String> = match id {
                        Some(i) => Some(string_from_chars(&chars_of(i))),
                        None => None,
                    };
                    let id_copy: Option<String> = match id {
                        Some(i) => Some(string_from_chars(&chars_of(i))),
                        None => None,
                    };
                    self.hyperlinks.push(StoredHyperlink { id: hyperlink_id, url: string_from_chars(&chars_of(u)), id_str });
                    self.current_hyperlink_id = hyperlink_id;
                    self.current_hyperlink = Some(Hyperlink { id: id_copy, url: string_from_chars(&chars_of(u)) });
                    return;
                }
            }
            None => {}
        }
        self.current_hyperlink = None;
        self.current_hyperlink_id = 0;
    }

    fn set_working_directory(&mut self, path: &str)
        ensures
            final(self).working_directory.is_some(),
            final(self).working_directory.unwrap()@ == path@,
            *final(self) == (Terminal { working_directory: final(self).working_directory, ..*old(self) }),
    {
        self.working_directory = Some(string_from_chars(&chars_of(path)));
    }

    fn clipboard(&mut self, clipboard: char, data: Option<&str>)
        ensures
            final(self).clipboard_requests@.len() == old(self).clipboard_requests@.len() + 1,
            final(self).clipboard_requests@.drop_last() == old(self).clipboard_requests@,
            final(self).clipboard_requests@.last().selection == clipboard,
            final(self).clipboard_requests@.last().data.is_some() == data.is_some(),
            data.is_some() ==> final(self).clipboard_requests@.last().data.unwrap()@ == data.unwrap()@,
            *final(self) == (Terminal { clipboard_requests: final(self).clipboard_requests, ..*old(self) }),
    {
        self.record_clipboard(clipboard, data);
    }

    fn set_tab_stop(&mut self)
        ensures
            (old(self).cursor.col as int) < old(self).tab_stops@.len() ==>
                *final(self) == (Terminal { tab_stops: final(self).tab_stops, ..*old(self) })
                && final(self).tab_stops@ == old(self).tab_stops@.update(old(self).cursor.col as int, true),
            (old(self).cursor.col as int) >= old(self).tab_stops@.len() ==> *final(self) == *old(self),
    {
        Terminal::set_tab_stop(self);
    }

    fn set_cursor_shape(&mut self, shape: u16)
        ensures
            *final(self) == (Terminal { cursor: decscusr_applied(old(self).cursor, shape), ..*old(self) }),
    {
        self.cursor.set_shape_decscusr(shape);
    }

    fn primary_device_attributes(&mut self)
        ensures
            final(self).responses@ == old(self).responses@ + primary_da_response(),
            *final(self) == (Terminal { responses: final(self).responses, ..*old(self) }),
    {
        let r: [u8; 23] = [0x1b, 0x5b, 0x3f, 0x36, 0x32, 0x3b, 0x31, 0x3b, 0x32, 0x3b, 0x34, 0x3b, 0x36,
            0x3b, 0x39, 0x3b, 0x31, 0x35, 0x3b, 0x32, 0x32, 0x63, 0x00];
        let mut v: Vec<u8> = Vec::new();
        let mut i: usize = 0;
        while i < 22
            invariant 0 <= i <= 22, v@ =~= r@.take(i as int),
            decreases 22 - i,
        {
            v.push(r[i]);
            i = i + 1;
        }
        assert(v@ =~= primary_da_response());
        self.respond(&v);
    }

    fn secondary_device_attributes(&mut self)
        ensures
            final(self).responses@ == old(self).responses@ + seq![0x1bu8, 0x5b, 0x3e, 0x31, 0x3b, 0x31, 0x30, 0x30, 0x3b, 0x30, 0x63],
            *final(self) == (Terminal { responses: final(self).responses, ..*old(self) }),
    {
        let v: Vec<u8> = vec![0x1bu8, 0x5b, 0x3e, 0x31, 0x3b, 0x31, 0x30, 0x30, 0x3b, 0x30, 0x63];
        self.respond(&v);
    }

    fn tertiary_device_attributes(&mut self)
        ensures
            final(self).responses@ == old(self).responses@ + seq![0x1bu8, 0x50, 0x21, 0x7c, 0x30, 0x30, 0x30, 0x30, 0x30, 0x30, 0x30, 0x30, 0x1b, 0x5c],
            *final(self) == (Terminal { responses: final(self).responses, ..*old(self) }),
    {
        let v: Vec<u8> = vec![0x1bu8, 0x50, 0x21, 0x7c, 0x30, 0x30, 0x30, 0x30, 0x30, 0x30, 0x30, 0x30, 0x1b, 0x5c];
        self.respond(&v);
    }

    fn device_status_report(&mut self, mode: u16)
        ensures
            mode == 5 ==> final(self).responses@ == old(self).responses@ + seq![0x1bu8, 0x5b, 0x30, 0x6e],
            mode == 6 ==> final(self).responses@ == old(self).responses@ + cursor_position_report(old(self).cursor),
            (mode != 5 && mode != 6) ==> final(self).responses@ == old(self).responses@,
            *final(self) == (Terminal { responses: final(self).responses, ..*old(self) }),
    {
        if mode == 5 {
            let v: Vec<u8> = vec![0x1bu8, 0x5b, 0x30, 0x6e];
            self.respond(&v);
        } else if mode == 6 {
            let mut v: Vec<u8> = vec![0x1bu8, 0x5b];
            let mut line = u64_to_decimal_bytes(self.cursor.line as u64 + 1);
            v.append(&mut line);
            v.push(0x3b);
            let mut col = u64_to_decimal_bytes(self.cursor.col as u64 + 1);
            v.append(&mut col);
            v.push(0x52);
            assert(v@ =~= cursor_position_report(self.cursor));
            self.respond(&v);
        }
    }

    fn designate_g0(&mut self, charset: char)
        ensures
            *final(self) == (Terminal { charset_g0: charset_of_byte(charset as u32 as u8), ..*old(self) }),
    {
        self.charset_g0 = charset_from_byte(charset as u32 as u8);
    }

    fn designate_g1(&mut self, charset: char)
        ensures
            *final(self) == (Terminal { charset_g1: charset_of_byte(charset as u32 as u8), ..*old(self) }),
    {
        self.charset_g1 = charset_from_byte(charset as u32 as u8);
    }

    fn shift_in(&mut self)
        ensures
            *final(self) == (Terminal { active_charset: CharsetSlot::G0, ..*old(self) }),
    {
        self.active_charset = CharsetSlot::G0;
    }

    fn shift_out(&mut self)
        ensures
            *final(self) == (Terminal { active_charset: CharsetSlot::G1, ..*old(self) }),
    {
        self.active_charset = CharsetSlot::G1;
    }

    fn soft_reset(&mut self)
        ensures
            final(self).cursor == initial_cursor(),
            final(self).saved_cursor.is_none(),
            final(self).modes == initial_modes(),
            final(self).scroll_top == 0,
            final(self).scroll_bottom as int == sat_sub(old(self).rows as int, 1),
            final(self).charset_g0 == Charset::Ascii,
            final(self).charset_g1 == Charset::DecSpecialGraphics,
            final(self).charset_g2 == Charset::Ascii,
            final(self).charset_g3 == Charset::Ascii,
            final(self).active_charset == CharsetSlot::G0,
            final(self).current_hyperlink.is_none(),
            final(self).current_hyperlink_id == 0,
            final(self).tab_stops@ == default_tab_stops(old(self).cols as int),
            *final(self) == (Terminal {
                cursor: final(self).cursor,
                saved_cursor: final(self).saved_cursor,
                modes: final(self).modes,
                scroll_top: final(self).scroll_top,
                scroll_bottom: final(self).scroll_bottom,
                charset_g0: final(self).charset_g0,
                charset_g1: final(self).charset_g1,
                charset_g2: final(self).charset_g2,
                charset_g3: final(self).charset_g3,
                active_charset: final(self).active_charset,
                current_hyperlink: final(self).current_hyperlink,
                current_hyperlink_id: final(self).current_hyperlink_id,
                tab_stops: final(self).tab_stops,
                ..*old(self)
            }),
    {
        self.cursor = Cursor::new();
        self.saved_cursor = None;
        self.modes = initial_modes_exec();
        self.scroll_top = 0;
        self.scroll_bottom = self.grid.lines().saturating_sub(1);
        self.charset_g0 = Charset::Ascii;
        self.charset_g1 = Charset::DecSpecialGraphics;
        self.charset_g2 = Charset::Ascii;
        self.charset_g3 = Charset::Ascii;
        self.active_charset = CharsetSlot::G0;
        self.current_hyperlink = None;
        self.current_hyperlink_id = 0;
        self.reset_tab_stops();
    }

    fn request_terminal_parameters(&mut self, mode: u16)
        ensures
            mode <= 1 ==> final(self).responses@ == old(self).responses@ + parameters_report(mode),
            mode > 1 ==> final(self).responses@ == old(self).responses@,
            *final(self) == (Terminal { responses: final(self).responses, ..*old(self) }),
    {
        if mode <= 1 {
            let mut v: Vec<u8> = vec![0x1bu8, 0x5b];
            let mut m = u64_to_decimal_bytes(mode as u64 + 2);
            v.append(&mut m);
            let mut tail: Vec<u8> = vec![0x3bu8, 0x31, 0x3b, 0x31, 0x3b, 0x31, 0x31, 0x32, 0x3b, 0x31, 0x31, 0x32, 0x3b, 0x31, 0x3b, 0x30, 0x78];
            v.append(&mut tail);
            assert(v@ =~= parameters_report(mode));
            self.respond(&v);
        }
    }

    fn write_to_pty(&mut self, data: &[u8])
        ensures
            final(self).responses@ == old(self).responses@ + data@,
            *final(self) == (Terminal { responses: final(self).responses, ..*old(self) }),
    {
        self.respond(data);
    }
}

/// The first column from `from` on with a tab stop, or `cols` when none.
pub open spec fn next_tab_stop(stops: Seq<bool>, from: int, cols: int) -> int
    decreases cols - from,
{
    if from >= cols || (0 <= from < stops.len() && stops[from]) { from } else { next_tab_stop(stops, from + 1, cols) }
}


/// The cursor after one SGR attribute.
pub open spec fn attr_applied(c: Cursor, attr: Attr, palette: ColorPalette) -> Cursor {
    match attr {
        Attr::Reset => Cursor { fg: default_fg(), bg: default_bg(), flags: flag_set(0), ..c },
        Attr::Bold => Cursor { flags: flag_set(c.flags.bits | 0x001), ..c },
        Attr::Dim => Cursor { flags: flag_set(c.flags.bits | 0x002), ..c },
        Attr::Italic => Cursor { flags: flag_set(c.flags.bits | 0x004), ..c },
        Attr::Underline => Cursor { flags: flag_set(c.flags.bits | 0x008), ..c },
        Attr::Blink => Cursor { flags: flag_set(c.flags.bits | 0x010), ..c },
        Attr::Inverse => Cursor { flags: flag_set(c.flags.bits | 0x020), ..c },
        Attr::Hidden => Cursor { flags: flag_set(c.flags.bits | 0x040), ..c },
        Attr::Strike => Cursor { flags: flag_set(c.flags.bits | 0x080), ..c },
        Attr::CancelBold => Cursor { flags: flag_set(c.flags.bits & !0x001u16), ..c },
        Attr::CancelDim => Cursor { flags: flag_set(c.flags.bits & !0x002u16), ..c },
        Attr::CancelItalic => Cursor { flags: flag_set(c.flags.bits & !0x004u16), ..c },
        Attr::CancelUnderline => Cursor { flags: flag_set(c.flags.bits & !0x008u16), ..c },
        Attr::CancelBlink => Cursor { flags: flag_set(c.flags.bits & !0x010u16), ..c },
        Attr::CancelInverse => Cursor { flags: flag_set(c.flags.bits & !0x020u16), ..c },
        Attr::CancelHidden => Cursor { flags: flag_set(c.flags.bits & !0x040u16), ..c },
        Attr::CancelStrike => Cursor { flags: flag_set(c.flags.bits & !0x080u16), ..c },
        Attr::Foreground(col) => Cursor { fg: col, ..c },
        Attr::Background(col) => Cursor { bg: col, ..c },
        Attr::ForegroundIndex(i) => Cursor { fg: color_256_value(i, palette), ..c },
        Attr::BackgroundIndex(i) => Cursor { bg: color_256_value(i, palette), ..c },
        Attr::DefaultForeground => Cursor { fg: default_fg(), ..c },
        Attr::DefaultBackground => Cursor { bg: default_bg(), ..c },
    }
}

/// The scroll region `set_scroll_region` makes: 1-based `top` and `bottom`
/// (0 = last line) kept on the screen, swapped when upside down.
pub open spec fn region_of(rows: u16, top: u16, bottom: u16) -> (int, int) {
    let last = sat_sub(rows as int, 1);
    let t = min_int(sat_sub(top as int, 1), last);
    let b = if bottom == 0 { last } else { min_int(sat_sub(bottom as int, 1), last) };
    if t > b { (b, t) } else { (t, b) }
}

/// DA1 answer: a VT220 with color, sixel and the usual extensions.
pub open spec fn primary_da_response() -> Seq<u8> {
    seq![0x1bu8, 0x5b, 0x3f, 0x36, 0x32, 0x3b, 0x31, 0x3b, 0x32, 0x3b, 0x34, 0x3b, 0x36,
        0x3b, 0x39, 0x3b, 0x31, 0x35, 0x3b, 0x32, 0x32, 0x63]
}

/// `ESC [ line ; col R` with 1-based position.
pub open spec fn cursor_position_report(c: Cursor) -> Seq<u8> {
    seq![0x1bu8, 0x5b] + decimal_bytes((c.line + 1) as nat) + seq![0x3bu8]
        + decimal_bytes((c.col + 1) as nat) + seq![0x52u8]
}

/// DECREQTPARM answer for mode 0 or 1.
pub open spec fn parameters_report(mode: u16) -> Seq<u8> {
    seq![0x1bu8, 0x5b] + decimal_bytes((mode + 2) as nat)
        + seq![0x3bu8, 0x31, 0x3b, 0x31, 0x3b, 0x31, 0x31, 0x32, 0x3b, 0x31, 0x31, 0x32, 0x3b, 0x31, 0x3b, 0x30, 0x78]
}

/// What a mode that only sets a flag does to the modes (unknown modes
/// change nothing).
pub open spec fn flag_modes(m: TerminalModes, mode: u16, enable: bool) -> TerminalModes {
    if mode == 1 {
        TerminalModes { application_cursor: enable, ..m }
    } else if mode == 7 {
        TerminalModes { auto_wrap: enable, ..m }
    } else if mode == 20 {
        TerminalModes { linefeed_mode: enable, ..m }
    } else if mode == 1000 {
        TerminalModes { mouse_tracking: if enable { MouseMode::X10 } else { MouseMode::Off }, ..m }
    } else if mode == 1002 {
        TerminalModes { mouse_tracking: if enable { MouseMode::ButtonMotion } else { MouseMode::Off }, ..m }
    } else if mode == 1003 {
        TerminalModes { mouse_tracking: if enable { MouseMode::AnyMotion } else { MouseMode::Off }, ..m }
    } else if mode == 1004 {
        TerminalModes { focus_reporting: enable, ..m }
    } else if mode == 1006 {
        if enable { TerminalModes { mouse_tracking: MouseMode::Sgr, ..m } } else { m }
    } else if mode == 2004 {
        TerminalModes { bracketed_paste: enable, ..m }
    } else {
        m
    }
}

/// What `set_mode` does to the terminal.
pub open spec fn mode_set(t: Terminal, u: Terminal, mode: u16, enable: bool) -> bool {
    if mode == 6 {
        u == (Terminal {
            modes: TerminalModes { origin_mode: enable, ..t.modes },
            cursor: Cursor { col: 0, line: if enable { t.scroll_top } else { 0 }, ..t.cursor },
            ..t
        })
    } else if mode == 25 {
        u == (Terminal { modes: TerminalModes { cursor_visible: enable, ..t.modes }, cursor: Cursor { visible: enable, ..t.cursor }, ..t })
    } else if mode == 47 {
        if enable { entered_alternate(t, u) } else { left_alternate(t, u) }
    } else if mode == 1047 || mode == 1049 {
        if enable {
            &&& u.modes.alternate_screen
            &&& u.wf()
            &&& (!t.modes.alternate_screen ==> u.alt_grid == t.grid)
            &&& (t.modes.alternate_screen ==> u.alt_grid == t.alt_grid)
            &&& u.screen() == blank_rows(t.rows as int, t.cols as int)
            &&& (mode == 1049 ==> u.saved_cursor == Some(saved_of(t.cursor)))
        } else {
            &&& !u.modes.alternate_screen
            &&& u.wf()
            &&& (t.modes.alternate_screen ==> u.grid == t.alt_grid)
            &&& (!t.modes.alternate_screen ==> u.grid == t.grid)
        }
    } else {
        u == (Terminal { modes: flag_modes(t.modes, mode, enable), ..t })
    }
}

fn flag_modes_exec(m: TerminalModes, mode: u16, enable: bool) -> (r: TerminalModes)
    ensures r == flag_modes(m, mode, enable),
{
    let mut m = m;
    if mode == 1 {
        m.application_cursor = enable;
    } else if mode == 7 {
        m.auto_wrap = enable;
    } else if mode == 20 {
        m.linefeed_mode = enable;
    } else if mode == 1000 {
        m.mouse_tracking = if enable { MouseMode::X10 } else { MouseMode::Off };
    } else if mode == 1002 {
        m.mouse_tracking = if enable { MouseMode::ButtonMotion } else { MouseMode::Off };
    } else if mode == 1003 {
        m.mouse_tracking = if enable { MouseMode::AnyMotion } else { MouseMode::Off };
    } else if mode == 1004 {
        m.focus_reporting = enable;
    } else if mode == 1006 {
        if enable {
            m.mouse_tracking = MouseMode::Sgr;
        }
    } else if mode == 2004 {
        m.bracketed_paste = enable;
    }
    m
}

/// Switching to the alternate screen: the screen in use is put aside and
/// a cleared one takes its place, with the cursor at home and the primary
/// cursor saved. Nothing happens when it is already in use.
pub open spec fn entered_alternate(t: Terminal, u: Terminal) -> bool {
    if t.modes.alternate_screen {
        u == t
    } else {
        &&& u.modes == (TerminalModes { alternate_screen: true, ..t.modes })
        &&& u.saved_cursor == Some(saved_of(t.cursor))
        &&& u.alt_grid == t.grid
        &&& u.grid.wf()
        &&& u.grid.cols == t.alt_grid.cols
        &&& u.grid.lines == t.alt_grid.lines
        &&& u.grid.scrollback_limit == t.alt_grid.scrollback_limit
        &&& u.screen() == blank_rows(t.alt_grid.lines as int, t.alt_grid.cols as int)
        &&& u.grid.view_scrollback() == t.alt_grid.view_scrollback()
        &&& u.cursor == (Cursor { col: 0, line: 0, ..t.cursor })
        &&& u == (Terminal { modes: u.modes, saved_cursor: u.saved_cursor, alt_grid: u.alt_grid, grid: u.grid,
                cursor: u.cursor, viewport_offset: 0, ..t })
    }
}

/// Switching back to the primary screen: the primary grid returns, the
/// alternate cursor is saved and the primary one restored.
pub open spec fn left_alternate(t: Terminal, u: Terminal) -> bool {
    if !t.modes.alternate_screen {
        u == t
    } else {
        &&& u.modes == (TerminalModes { alternate_screen: false, ..t.modes })
        &&& u.alt_saved_cursor == Some(saved_of(t.cursor))
        &&& u.grid == t.alt_grid
        &&& u.alt_grid == t.grid
        &&& u.cursor == (match t.saved_cursor { Some(s) => restored(t.cursor, s), None => t.cursor })
        &&& u == (Terminal { modes: u.modes, alt_saved_cursor: u.alt_saved_cursor, grid: u.grid, alt_grid: u.alt_grid,
                cursor: u.cursor, ..t })
    }
}

impl Terminal {
    /// The modes that only set a flag.
    fn set_flag_mode(&mut self, mode: u16, enable: bool)
        requires
            old(self).wf(),
            mode != 47 && mode != 1047 && mode != 1049 && mode != 6 && mode != 25,
        ensures
            final(self).wf(),
            mode_set(*old(self), *final(self), mode, enable),
    {
        self.modes = flag_modes_exec(self.modes, mode, enable);
    }

    /// Origin mode (6) and cursor visibility (25).
    fn set_cursor_mode(&mut self, mode: u16, enable: bool)
        requires
            old(self).wf(),
            mode == 6 || mode == 25,
        ensures
            final(self).wf(),
            mode_set(*old(self), *final(self), mode, enable),
    {
        if mode == 6 {
            self.modes.origin_mode = enable;
            self.cursor.col = 0;
            self.cursor.line = if enable { self.scroll_top } else { 0 };
        } else {
            self.cursor.visible = enable;
            self.modes.cursor_visible = enable;
        }
    }

    /// The alternate screen modes (47, 1047, 1049).
    #[verifier::rlimit(50)]
    fn set_screen_mode(&mut self, mode: u16, enable: bool)
        requires
            old(self).wf(),
            mode == 47 || mode == 1047 || mode == 1049,
        ensures
            final(self).wf(),
            mode_set(*old(self), *final(self), mode, enable),
    {
        if mode == 47 {
            if enable { self.switch_to_alternate_screen(); } else { self.switch_to_primary_screen(); }
        } else if mode == 1047 {
            if enable {
                self.switch_to_alternate_screen();
                self.grid.clear();
            } else {
                self.switch_to_primary_screen();
            }
        } else {
            if enable {
                self.save_cursor();
                self.switch_to_alternate_screen();
                self.grid.clear();
            } else {
                self.switch_to_primary_screen();
                self.restore_cursor();
            }
        }
    }

    /// Erase from the cursor to the end of the screen, and the images below
    /// the cursor line's top.
    #[verifier::rlimit(50)]
    fn erase_below(&mut self)
        requires
            old(self).wf(),
        ensures
            final(self).wf(),
            old(self).cursor.line < old(self).rows ==> forall|l: int| 0 <= l < old(self).rows ==>
                #[trigger] final(self).screen()[l] == (if l < old(self).cursor.line { old(self).screen()[l] }
                    else if l == old(self).cursor.line { erased_cells(old(self).screen()[l], old(self).cursor.col as int, old(self).cols as int) }
                    else { blank_row(old(self).cols as int) }),
            final(self).sixel_images@ == images_beside(old(self).sixel_images@, old(self).cursor.line, true),
            final(self).grid.view_scrollback() == old(self).grid.view_scrollback(),
            *final(self) == (Terminal { grid: final(self).grid, sixel_images: final(self).sixel_images, ..*old(self) }),
    {
        let rows = self.grid.lines();
        let cursor_line = self.cursor.line;
        self.erase_in_line(0);
        self.clear_lines(cursor_line as u32 + 1, rows as u32);
        self.keep_images_beside(cursor_line, true);
    }

    /// Erase from the start of the screen to the cursor, and the images
    /// above the cursor line.
    #[verifier::rlimit(50)]
    fn erase_above(&mut self)
        requires
            old(self).wf(),
        ensures
            final(self).wf(),
            old(self).cursor.line < old(self).rows ==> forall|l: int| 0 <= l < old(self).rows ==>
                #[trigger] final(self).screen()[l] == (if l < old(self).cursor.line { blank_row(old(self).cols as int) }
                    else if l == old(self).cursor.line { erased_cells(old(self).screen()[l], 0, old(self).cursor.col + 1) }
                    else { old(self).screen()[l] }),
            final(self).sixel_images@ == images_beside(old(self).sixel_images@, old(self).cursor.line, false),
            final(self).grid.view_scrollback() == old(self).grid.view_scrollback(),
            *final(self) == (Terminal { grid: final(self).grid, sixel_images: final(self).sixel_images, ..*old(self) }),
    {
        let cursor_line = self.cursor.line;
        self.clear_lines(0, cursor_line as u32);
        self.erase_in_line(1);
        self.keep_images_beside(cursor_line, false);
    }

    /// Before printing: wrap at the right margin (auto-wrap), or stay on the
    /// last column.
    #[verifier::rlimit(50)]
    fn wrap_for_print(&mut self)
        requires
            old(self).wf(),
        ensures
            final(self).wf(),
            final(self).cursor == wrapped_cursor(*old(self)),
            final(self).screen() == wrapped_screen(*old(self)),
            *final(self) == (Terminal { grid: final(self).grid, cursor: final(self).cursor, sixel_images: final(self).sixel_images, ..*old(self) }),
    {
        let cols = self.grid.cols();
        if self.cursor.col >= cols {
            if self.modes.auto_wrap {
                self.cursor.col = 0;
                if self.cursor.line >= self.scroll_bottom {
                    self.scroll_up(1);
                } else {
                    self.cursor.line = self.cursor.line + 1;
                }
            } else {
                self.cursor.col = cols.saturating_sub(1);
            }
        }
    }

    /// Fill the cell under the cursor (and the spacer after a wide
    /// character); off the screen nothing is written.
    #[verifier::rlimit(50)]
    fn put_cell(&mut self, c: char, grapheme_key: u32, wide: bool)
        requires
            old(self).wf(),
        ensures
            final(self).wf(),
            (old(self).cursor.line < old(self).rows && old(self).cursor.col < old(self).cols) ==>
                final(self).screen() == old(self).screen().update(old(self).cursor.line as int,
                    printed_row(old(self).screen()[old(self).cursor.line as int], old(self).cursor.col as int,
                        Cell {
                            c: c,
                            grapheme_key: grapheme_key,
                            fg: old(self).cursor.fg,
                            bg: old(self).cursor.bg,
                            flags: if wide { flag_set(old(self).cursor.flags.bits | 0x100) } else { old(self).cursor.flags },
                            hyperlink_id: old(self).current_hyperlink_id,
                        },
                        wide, old(self).current_hyperlink_id)),
            !(old(self).cursor.line < old(self).rows && old(self).cursor.col < old(self).cols) ==>
                final(self).screen() == old(self).screen(),
            *final(self) == (Terminal { grid: final(self).grid, ..*old(self) }),
    {
        let cols = self.grid.cols();
        let line = self.cursor.line;
        let col = self.cursor.col;
        if line < self.grid.lines() && col < cols {
            let mut flags = self.cursor.flags;
            if wide {
                flags = flags.union(CellFlags::wide());
            }
            let cell = Cell {
                c,
                grapheme_key,
                fg: self.cursor.fg,
                bg: self.cursor.bg,
                flags,
                hyperlink_id: self.current_hyperlink_id,
            };
            assert(self.grid.rows@[line as int].cells@.len() == cols as int);
            let ghost before = self.screen();
            self.grid.set_cell(col, line, cell);
            if wide && (col as u32) + 1 < cols as u32 {
                let mut spacer: Cell = *self.grid.cell(col + 1, line);
                spacer.c = ' ';
                spacer.grapheme_key = 0;
                spacer.flags = CellFlags::wide_spacer();
                spacer.hyperlink_id = self.current_hyperlink_id;
                self.grid.set_cell(col + 1, line, spacer);
                assert(self.screen()[line as int] =~= printed_row(before[line as int], col as int, cell, wide, self.current_hyperlink_id));
            } else {
                assert(self.screen()[line as int] =~= printed_row(before[line as int], col as int, cell, wide, self.current_hyperlink_id));
            }
            assert(self.screen() =~= before.update(line as int, printed_row(before[line as int], col as int, cell, wide, self.current_hyperlink_id)));
        }
    }

    /// Queue a clipboard request for the application.
    fn record_clipboard(&mut self, selection: char, data: Option<&str>)
        ensures
            final(self).clipboard_requests@.len() == old(self).clipboard_requests@.len() + 1,
            final(self).clipboard_requests@.drop_last() == old(self).clipboard_requests@,
            final(self).clipboard_requests@.last().selection == selection,
            final(self).clipboard_requests@.last().data.is_some() == data.is_some(),
            data.is_some() ==> final(self).clipboard_requests@.last().data.unwrap()@ == data.unwrap()@,
            *final(self) == (Terminal { clipboard_requests: final(self).clipboard_requests, ..*old(self) }),
    {
        let d: Option<String> = match data {
            Some(s) => Some(string_from_chars(&chars_of(s))),
            None => None,
        };
        let req = ClipboardRequest { selection, data: d };
        self.clipboard_requests.push(req);
    }

    /// Clear the screen lines from `from` up to, not including, `to`.
    fn clear_lines(&mut self, from: u32, to: u32)
        requires
            old(self).wf(),
        ensures
            final(self).wf(),
            forall|l: int| 0 <= l < old(self).rows ==> #[trigger] final(self).screen()[l]
                == (if from <= l < to { blank_row(old(self).cols as int) } else { old(self).screen()[l] }),
            final(self).screen().len() == old(self).screen().len(),
            final(self).grid.scrollback == old(self).grid.scrollback,
            *final(self) == (Terminal { grid: final(self).grid, ..*old(self) }),
    {
        let rows = self.grid.lines() as u32;
        let end: u32 = if to < rows { to } else { rows };
        let mut line: u32 = from;
        while line < end
            invariant
                self.wf(),
                end <= self.rows,
                from <= line,
                line <= end || line == from,
                self.grid.scrollback == old(self).grid.scrollback,
                *self == (Terminal { grid: self.grid, ..*old(self) }),
                self.screen().len() == old(self).rows,
                forall|l: int| 0 <= l < old(self).rows ==> #[trigger] self.screen()[l]
                    == (if from <= l < line { blank_row(old(self).cols as int) } else { old(self).screen()[l] }),
            decreases end - line,
        {
            self.grid.clear_line(line as u16);
            line = line + 1;
        }
    }

    /// Append bytes to the answers for the program.
    fn respond(&mut self, data: &[u8])
        ensures
            final(self).responses@ == old(self).responses@ + data@,
            *final(self) == (Terminal { responses: final(self).responses, ..*old(self) }),
    {
        self.responses.extend_from_slice(data);
    }

    /// Tab stops back to every 8 columns.
    fn reset_tab_stops(&mut self)
        ensures
            final(self).tab_stops@ == default_tab_stops(old(self).tab_stops@.len() as int),
            *final(self) == (Terminal { tab_stops: final(self).tab_stops, ..*old(self) }),
    {
        let n = self.tab_stops.len();
        let mut i: usize = 0;
        while i < n
            invariant
                0 <= i <= n,
                n == self.tab_stops@.len(),
                n == old(self).tab_stops@.len(),
                forall|j: int| 0 <= j < i ==> #[trigger] self.tab_stops@[j] == (j % 8 == 0),
                *self == (Terminal { tab_stops: self.tab_stops, ..*old(self) }),
            decreases n - i,
        {
            self.tab_stops.set(i, i % 8 == 0);
            i = i + 1;
        }
        assert(self.tab_stops@ =~= default_tab_stops(n as int));
    }

    /// Switch to the alternate screen buffer.
    fn switch_to_alternate_screen(&mut self)
        requires
            old(self).wf(),
        ensures
            final(self).wf(),
            entered_alternate(*old(self), *final(self)),
    {
        if self.modes.alternate_screen {
            return;
        }
        self.modes.alternate_screen = true;
        self.saved_cursor = Some(self.cursor.save());
        std::mem::swap(&mut self.grid, &mut self.alt_grid);
        self.grid.clear();
        self.cursor.col = 0;
        self.cursor.line = 0;
        self.viewport_offset = 0;
    }

    /// Switch back to the primary screen buffer.
    fn switch_to_primary_screen(&mut self)
        requires
            old(self).wf(),
        ensures
            final(self).wf(),
            left_alternate(*old(self), *final(self)),
    {
        if !self.modes.alternate_screen {
            return;
        }
        self.modes.alternate_screen = false;
        self.alt_saved_cursor = Some(self.cursor.save());
        std::mem::swap(&mut self.grid, &mut self.alt_grid);
        if let Some(saved) = self.saved_cursor {
            self.cursor.restore(&saved);
        }
    }

    /// Print a character with its grapheme key at the cursor, wrapping first
    /// at the right margin, and advance the cursor by its width.
    #[verifier::rlimit(50)]
    fn write_char_with_grapheme(&mut self, c: char, grapheme_key: u32)
        requires
            old(self).wf(),
        ensures
            final(self).wf(),
            final(self).cursor == (Cursor {
                col: min_int(wrapped_cursor(*old(self)).col + print_width(translated(*old(self), c)), u16::MAX as int) as u16,
                ..wrapped_cursor(*old(self))
            }),
            (wrapped_cursor(*old(self)).line < old(self).rows && wrapped_cursor(*old(self)).col < old(self).cols) ==>
                final(self).screen() == wrapped_screen(*old(self)).update(wrapped_cursor(*old(self)).line as int,
                    printed_row(wrapped_screen(*old(self))[wrapped_cursor(*old(self)).line as int], wrapped_cursor(*old(self)).col as int,
                        printed_cell(*old(self), c, grapheme_key), print_width(translated(*old(self), c)) > 1, old(self).current_hyperlink_id)),
            !(wrapped_cursor(*old(self)).line < old(self).rows && wrapped_cursor(*old(self)).col < old(self).cols) ==>
                final(self).screen() == wrapped_screen(*old(self)),
            *final(self) == (Terminal { grid: final(self).grid, cursor: final(self).cursor, sixel_images: final(self).sixel_images, ..*old(self) }),
    {
        let c = self.translate_char(c);
        let w: usize = match crate::text::char_width(c) {
            Some(w) => w,
            None => 1,
        };
        let width: u16 = w as u16;
        self.wrap_for_print();
        self.put_cell(c, grapheme_key, width > 1);
        self.cursor.col = self.cursor.col.saturating_add(width);
    }
}

fn region_exec(rows: u16, top: u16, bottom: u16) -> (r: (u16, u16))
    ensures
        r.0 as int == region_of(rows, top, bottom).0,
        r.1 as int == region_of(rows, top, bottom).1,
{
    let last = rows.saturating_sub(1);
    let t0 = top.saturating_sub(1);
    let t: u16 = if t0 < last { t0 } else { last };
    let b: u16 = if bottom == 0 {
        last
    } else {
        let b0 = bottom.saturating_sub(1);
        if b0 < last { b0 } else { last }
    };
    if t > b { (b, t) } else { (t, b) }
}

/// The code `code` when the flags of `mask` are set.
pub open spec fn flag_code(bits: u16, mask: u16, code: u8) -> Seq<u8> {
    if bits & mask == mask { seq![code] } else { seq![] }
}

/// The SGR codes of the set attribute flags, in order: bold 1, dim 2,
/// italic 3, underline 4, blink 5, inverse 7, hidden 8, strikethrough 9.
pub open spec fn flag_codes(bits: u16) -> Seq<u8> {
    flag_code(bits, 0x001, 0x31) + flag_code(bits, 0x002, 0x32) + flag_code(bits, 0x004, 0x33)
        + flag_code(bits, 0x008, 0x34) + flag_code(bits, 0x010, 0x35) + flag_code(bits, 0x020, 0x37)
        + flag_code(bits, 0x040, 0x38) + flag_code(bits, 0x080, 0x39)
}

fn push_flag_code(v: &mut Vec<u8>, bits: u16, mask: u16, code: u8)
    ensures final(v)@ == old(v)@ + flag_code(bits, mask, code),
{
    if bits & mask == mask {
        v.push(code);
    }
    assert(final(v)@ =~= old(v)@ + flag_code(bits, mask, code));
}

/// Single-digit codes joined by `;`, or `0` when there are none.
pub open spec fn joined_codes(codes: Seq<u8>) -> Seq<u8>
    decreases codes.len(),
{
    if codes.len() == 0 {
        seq![0x30u8]
    } else if codes.len() == 1 {
        codes
    } else {
        joined_codes(codes.drop_last()) + seq![0x3bu8, codes.last()]
    }
}

/// `ESC P 1 $ r`, the start of a valid DECRQSS answer.
pub open spec fn decrqss_ok() -> Seq<u8> {
    seq![0x1bu8, 0x50, 0x31, 0x24, 0x72]
}

/// `ESC \`, the string terminator.
pub open spec fn string_terminator() -> Seq<u8> {
    seq![0x1bu8, 0x5c]
}

/// The DECSCUSR code of the cursor's shape and blinking.
pub open spec fn cursor_style_code(c: Cursor) -> u8 {
    match c.shape {
        CursorShape::Block => if c.blinking { 1 } else { 2 },
        CursorShape::Underline => if c.blinking { 3 } else { 4 },
        CursorShape::Beam => if c.blinking { 5 } else { 6 },
    }
}

/// The answer to a DECRQSS request: the cursor style (` q`), the scroll
/// region (`r`), the SGR attributes (`m`) or the conformance level (`"p`);
/// anything else is answered as invalid.
pub open spec fn decrqss_reply(t: Terminal, request: Seq<u8>) -> Seq<u8> {
    if request == seq![0x20u8, 0x71] {
        decrqss_ok() + seq![(0x30 + cursor_style_code(t.cursor)) as u8, 0x20, 0x71] + string_terminator()
    } else if request == seq![0x72u8] {
        decrqss_ok() + decimal_bytes((t.scroll_top + 1) as nat) + seq![0x3bu8]
            + decimal_bytes((t.scroll_bottom + 1) as nat) + seq![0x72u8] + string_terminator()
    } else if request == seq![0x6du8] {
        decrqss_ok() + joined_codes(flag_codes(t.cursor.flags.bits)) + seq![0x6du8] + string_terminator()
    } else if request == seq![0x22u8, 0x70] {
        decrqss_ok() + seq![0x36u8, 0x34, 0x3b, 0x31, 0x22, 0x70] + string_terminator()
    } else {
        seq![0x1bu8, 0x50, 0x30, 0x24, 0x72, 0x1b, 0x5c]
    }
}

fn flag_codes_exec(bits: u16) -> (v: Vec<u8>)
    ensures v@ == flag_codes(bits),
{
    let mut v: Vec<u8> = Vec::new();
    push_flag_code(&mut v, bits, 0x001, 0x31);
    push_flag_code(&mut v, bits, 0x002, 0x32);
    push_flag_code(&mut v, bits, 0x004, 0x33);
    push_flag_code(&mut v, bits, 0x008, 0x34);
    push_flag_code(&mut v, bits, 0x010, 0x35);
    push_flag_code(&mut v, bits, 0x020, 0x37);
    push_flag_code(&mut v, bits, 0x040, 0x38);
    push_flag_code(&mut v, bits, 0x080, 0x39);
    assert(v@ =~= flag_codes(bits));
    v
}

fn joined_codes_exec(codes: &Vec<u8>) -> (v: Vec<u8>)
    ensures v@ == joined_codes(codes@),
{
    if codes.len() == 0 {
        let v: Vec<u8> = vec![0x30u8];
        assert(v@ =~= joined_codes(codes@));
        return v;
    }
    let mut v: Vec<u8> = Vec::new();
    v.push(codes[0]);
    let mut i: usize = 1;
    assert(codes@.take(1) =~= seq![codes@[0]]);
    while i < codes.len()
        invariant
            1 <= i <= codes.len(),
            v@ == joined_codes(codes@.take(i as int)),
        decreases codes.len() - i,
    {
        v.push(0x3b);
        v.push(codes[i]);
        assert(codes@.take(i + 1).drop_last() =~= codes@.take(i as int));
        assert(v@ =~= joined_codes(codes@.take(i as int)) + seq![0x3bu8, codes@[i as int]]);
        i = i + 1;
    }
    assert(codes@.take(codes.len() as int) =~= codes@);
    v
}

fn bytes_equal(a: &[u8], b: &[u8]) -> (r: bool)
    ensures r == (a@ == b@),
{
    if a.len() != b.len() {
        return false;
    }
    let mut i: usize = 0;
    while i < a.len()
        invariant
            0 <= i <= a.len(),
            a.len() == b.len(),
            forall|j: int| 0 <= j < i ==> a@[j] == b@[j],
        decreases a.len() - i,
    {
        if a[i] != b[i] {
            return false;
        }
        i = i + 1;
    }
    assert(a@ =~= b@);
    true
}

impl Terminal {
    /// The answer to a DECRQSS request.
    pub fn decrqss_response(&self, request: &[u8]) -> (r: Vec<u8>)
        ensures r@ == decrqss_reply(*self, request@),
    {
        let sq: [u8; 2] = [0x20, 0x71];
        let sr: [u8; 1] = [0x72];
        let sm: [u8; 1] = [0x6d];
        let sp: [u8; 2] = [0x22, 0x70];
        let mut v: Vec<u8> = vec![0x1bu8, 0x50, 0x31, 0x24, 0x72];
        if bytes_equal(request, &sq) {
            assert(request@ == seq![0x20u8, 0x71]) by { assert(sq@ =~= seq![0x20u8, 0x71]); }
            let style: u8 = match self.cursor.shape {
                CursorShape::Block => if self.cursor.blinking { 1 } else { 2 },
                CursorShape::Underline => if self.cursor.blinking { 3 } else { 4 },
                CursorShape::Beam => if self.cursor.blinking { 5 } else { 6 },
            };
            v.push(0x30 + style);
            v.push(0x20);
            v.push(0x71);
            v.push(0x1b);
            v.push(0x5c);
            assert(v@ =~= decrqss_reply(*self, request@));
            v
        } else if bytes_equal(request, &sr) {
            assert(request@ == seq![0x72u8]) by { assert(sr@ =~= seq![0x72u8]); }
            assert(request@ != seq![0x20u8, 0x71]);
            let mut top = u64_to_decimal_bytes(self.scroll_top as u64 + 1);
            v.append(&mut top);
            v.push(0x3b);
            let mut bottom = u64_to_decimal_bytes(self.scroll_bottom as u64 + 1);
            v.append(&mut bottom);
            v.push(0x72);
            v.push(0x1b);
            v.push(0x5c);
            assert(v@ =~= decrqss_reply(*self, request@));
            v
        } else if bytes_equal(request, &sm) {
            assert(request@ == seq![0x6du8]) by { assert(sm@ =~= seq![0x6du8]); }
            assert(request@ != seq![0x20u8, 0x71]);
            assert(request@ != seq![0x72u8]);
            let codes = flag_codes_exec(self.cursor.flags.bits);
            let mut joined = joined_codes_exec(&codes);
            v.append(&mut joined);
            v.push(0x6d);
            v.push(0x1b);
            v.push(0x5c);
            assert(v@ =~= decrqss_reply(*self, request@));
            v
        } else if bytes_equal(request, &sp) {
            assert(request@ == seq![0x22u8, 0x70]) by { assert(sp@ =~= seq![0x22u8, 0x70]); }
            assert(request@ != seq![0x20u8, 0x71]);
            assert(request@ != seq![0x72u8]);
            assert(request@ != seq![0x6du8]);
            let mut tail: Vec<u8> = vec![0x36u8, 0x34, 0x3b, 0x31, 0x22, 0x70, 0x1b, 0x5c];
            v.append(&mut tail);
            assert(v@ =~= decrqss_reply(*self, request@));
            v
        } else {
            assert(sq@ =~= seq![0x20u8, 0x71]);
            assert(sr@ =~= seq![0x72u8]);
            assert(sm@ =~= seq![0x6du8]);
            assert(sp@ =~= seq![0x22u8, 0x70]);
            let r: Vec<u8> = vec![0x1bu8, 0x50, 0x30, 0x24, 0x72, 0x1b, 0x5c];
            assert(r@ =~= decrqss_reply(*self, request@));
            r
        }
    }

    /// Answer a DECRQSS request to the program.
    fn handle_decrqss(&mut self, request: &[u8])
        ensures
            final(self).responses@ == old(self).responses@ + decrqss_reply(*old(self), request@),
            *final(self) == (Terminal { responses: final(self).responses, ..*old(self) }),
    {
        let r = self.decrqss_response(request);
        self.respond(&r);
    }

    /// Fill the screen with `E` (DECALN); only the characters change.
    fn fill_alignment(&mut self)
        requires
            old(self).wf(),
        ensures
            final(self).wf(),
            final(self).screen().len() == old(self).screen().len(),
            forall|l: int, c: int| 0 <= l < old(self).rows && 0 <= c < old(self).cols ==>
                #[trigger] final(self).screen()[l][c] == (Cell { c: 'E', ..old(self).screen()[l][c] }),
            forall|l: int| 0 <= l < old(self).rows ==> #[trigger] final(self).screen()[l].len() == old(self).cols,
            *final(self) == (Terminal { grid: final(self).grid, ..*old(self) }),
    {
        let rows = self.grid.lines();
        let cols = self.grid.cols();
        let mut line: u16 = 0;
        while line < rows
            invariant
                0 <= line <= rows,
                rows == self.rows,
                cols == self.cols,
                self.wf(),
                self.screen().len() == rows,
                *self == (Terminal { grid: self.grid, ..*old(self) }),
                forall|l: int, c: int| 0 <= l < rows && 0 <= c < cols ==>
                    #[trigger] self.screen()[l][c] == (if l < line { Cell { c: 'E', ..old(self).screen()[l][c] } } else { old(self).screen()[l][c] }),
                forall|l: int| 0 <= l < rows ==> #[trigger] self.screen()[l].len() == cols,
            decreases rows - line,
        {
            let mut cells: Vec<Cell> = Vec::new();
            let mut c: u16 = 0;
            assert(self.grid.rows@[line as int].cells@.len() == cols as int);
            while c < cols
                invariant
                    0 <= c <= cols,
                    line < rows,
                    rows == self.rows,
                    cols == self.cols,
                    self.wf(),
                    self.screen()[line as int].len() == cols,
                    cells@.len() == c,
                    forall|j: int| 0 <= j < c ==> #[trigger] cells@[j] == (Cell { c: 'E', ..self.screen()[line as int][j] }),
                decreases cols - c,
            {
                let mut cell = *self.grid.cell(c, line);
                cell.c = 'E';
                cells.push(cell);
                c = c + 1;
            }
            let ghost before = self.screen();
            self.grid.set_row(line, Row { cells });
            line = line + 1;
        }
    }

    /// An ESC sequence with intermediates: charset designation for G0-G3
    /// (`(`, `)`, `*`, `+`) and the screen alignment test (`# 8`).
    pub fn execute_esc(&mut self, intermediates: &[u8], final_byte: u8)
        requires
            old(self).wf(),
        ensures
            final(self).wf(),
            intermediates@.len() > 0 && intermediates@[0] == 0x28 ==>
                *final(self) == (Terminal { charset_g0: charset_of_byte(final_byte), ..*old(self) }),
            intermediates@.len() > 0 && intermediates@[0] == 0x29 ==>
                *final(self) == (Terminal { charset_g1: charset_of_byte(final_byte), ..*old(self) }),
            intermediates@.len() > 0 && intermediates@[0] == 0x2a ==>
                *final(self) == (Terminal { charset_g2: charset_of_byte(final_byte), ..*old(self) }),
            intermediates@.len() > 0 && intermediates@[0] == 0x2b ==>
                *final(self) == (Terminal { charset_g3: charset_of_byte(final_byte), ..*old(self) }),
            intermediates@.len() > 0 && intermediates@[0] == 0x23 && final_byte == 0x38 ==>
                forall|l: int, c: int| 0 <= l < old(self).rows && 0 <= c < old(self).cols ==>
                    #[trigger] final(self).screen()[l][c] == (Cell { c: 'E', ..old(self).screen()[l][c] }),
            !(intermediates@.len() > 0 && (intermediates@[0] == 0x28 || intermediates@[0] == 0x29
                || intermediates@[0] == 0x2a || intermediates@[0] == 0x2b
                || (intermediates@[0] == 0x23 && final_byte == 0x38))) ==> *final(self) == *old(self),
    {
        if intermediates.len() == 0 {
            return;
        }
        let first = intermediates[0];
        if first == 0x28 {
            self.charset_g0 = charset_from_byte(final_byte);
        } else if first == 0x29 {
            self.charset_g1 = charset_from_byte(final_byte);
        } else if first == 0x2a {
            self.charset_g2 = charset_from_byte(final_byte);
        } else if first == 0x2b {
            self.charset_g3 = charset_from_byte(final_byte);
        } else if first == 0x23 && final_byte == 0x38 {
            self.fill_alignment();
        }
    }

    /// A control character, or the final byte of a plain ESC sequence.
    #[verifier::rlimit(60)]
    fn execute_control(&mut self, byte: u8)
        requires
            old(self).wf(),
        ensures
            final(self).wf(),
            byte == 0x07 ==> *final(self) == (Terminal { pending_bell: Some(BellEvent::Both), ..*old(self) }),
            byte == 0x0e ==> *final(self) == (Terminal { active_charset: CharsetSlot::G1, ..*old(self) }),
            byte == 0x0f ==> *final(self) == (Terminal { active_charset: CharsetSlot::G0, ..*old(self) }),
            byte == 0x0d ==> *final(self) == (Terminal { cursor: Cursor { col: 0, ..old(self).cursor }, ..*old(self) }),
            byte == 0x08 ==> *final(self) == (Terminal { cursor: Cursor { col: sat_sub(old(self).cursor.col as int, 1) as u16, ..old(self).cursor }, ..*old(self) }),
            byte == 0x37 ==> *final(self) == (Terminal { saved_cursor: Some(saved_of(old(self).cursor)), ..*old(self) }),
            byte == 0x3d ==> *final(self) == (Terminal { modes: TerminalModes { application_keypad: true, ..old(self).modes }, ..*old(self) }),
            byte == 0x3e ==> *final(self) == (Terminal { modes: TerminalModes { application_keypad: false, ..old(self).modes }, ..*old(self) }),
            (byte == 0x0a || byte == 0x0b || byte == 0x0c || byte == 0x44) && old(self).cursor.line < old(self).scroll_bottom ==>
                *final(self) == (Terminal { cursor: Cursor { line: (old(self).cursor.line + 1) as u16, ..old(self).cursor }, ..*old(self) }),
            (byte == 0x0a || byte == 0x0b || byte == 0x0c || byte == 0x44) && old(self).cursor.line >= old(self).scroll_bottom ==>
                final(self).screen() == screen_scrolled_up(*old(self), 1) && final(self).cursor == old(self).cursor,
            !(byte == 0x07 || byte == 0x08 || byte == 0x09 || byte == 0x0a || byte == 0x0b || byte == 0x0c || byte == 0x0d
                || byte == 0x0e || byte == 0x0f || byte == 0x37 || byte == 0x38 || byte == 0x63 || byte == 0x44
                || byte == 0x45 || byte == 0x48 || byte == 0x4d || byte == 0x3d || byte == 0x3e) ==> *final(self) == *old(self),
    {
        if byte == 0x07 {
            self.bell();
        } else if byte == 0x08 {
            self.backspace();
        } else if byte == 0x09 {
            self.tab();
        } else if byte == 0x0a || byte == 0x0b || byte == 0x0c {
            self.linefeed();
        } else if byte == 0x0d {
            self.carriage_return();
        } else if byte == 0x0e {
            self.active_charset = CharsetSlot::G1;
        } else if byte == 0x0f {
            self.active_charset = CharsetSlot::G0;
        } else if byte == 0x37 {
            self.save_cursor();
        } else if byte == 0x38 {
            self.restore_cursor();
        } else if byte == 0x63 {
            self.reset();
        } else if byte == 0x44 {
            self.linefeed();
        } else if byte == 0x45 {
            self.carriage_return();
            self.linefeed();
        } else if byte == 0x48 {
            Terminal::set_tab_stop(self);
        } else if byte == 0x4d {
            self.reverse_index();
        } else if byte == 0x3d {
            self.modes.application_keypad = true;
        } else if byte == 0x3e {
            self.modes.application_keypad = false;
        }
    }
}

/// Item to process after UTF-8 decoding.
#[derive(Clone, Copy)]
pub enum ProcessItem {
    Byte(u8),
    /// Character with its grapheme key (0 = a single code point).
    Char(char, u32),
}

/// What printing `c` with grapheme key `key` does to a terminal
/// (`input_grapheme`).
pub open spec fn grapheme_printed(a: Terminal, c: char, key: u32, b: Terminal) -> bool {
    &&& b.cursor == (Cursor {
            col: min_int(wrapped_cursor(a).col + print_width(translated(a, c)), u16::MAX as int) as u16,
            ..wrapped_cursor(a)
        })
    &&& (wrapped_cursor(a).line < a.rows && wrapped_cursor(a).col < a.cols) ==>
            b.screen() == wrapped_screen(a).update(wrapped_cursor(a).line as int,
                printed_row(wrapped_screen(a)[wrapped_cursor(a).line as int], wrapped_cursor(a).col as int,
                    printed_cell(a, c, key), print_width(translated(a, c)) > 1, a.current_hyperlink_id))
    &&& !(wrapped_cursor(a).line < a.rows && wrapped_cursor(a).col < a.cols) ==>
            b.screen() == wrapped_screen(a)
    &&& b == (Terminal { grid: b.grid, cursor: b.cursor, sixel_images: b.sixel_images, ..a })
}

/// Whether a byte goes to the parser as it is (C0 controls, ESC, DEL).
pub open spec fn is_control_byte(b: u8) -> bool {
    b < 0x20 || b == 0x1b || b == 0x7f
}

/// The items of `buf` from `i` on, and where the scan stops: control bytes
/// one by one; a UTF-8 sequence as its character (with no grapheme key) when
/// it is valid, nothing when not; a sequence the end cuts short stops the
/// scan there.
pub open spec fn scan_items(buf: Seq<u8>, i: int) -> (Seq<ProcessItem>, int)
    decreases buf.len() - i,
{
    if i < 0 || i >= buf.len() {
        (seq![], i)
    } else if is_control_byte(buf[i]) {
        let r = scan_items(buf, i + 1);
        (seq![ProcessItem::Byte(buf[i])] + r.0, r.1)
    } else if i + utf8_length(buf[i]) > buf.len() {
        (seq![], i)
    } else {
        let chunk = buf.subrange(i, i + utf8_length(buf[i]));
        let r = scan_items(buf, i + utf8_length(buf[i]));
        if valid_utf8(chunk) {
            (seq![ProcessItem::Char(decode_utf8(chunk)[0], 0)] + r.0, r.1)
        } else {
            r
        }
    }
}

/// The parser after a character reaches it, and the action it yields: in
/// the ground state it is left to the caller; an ASCII character inside a
/// sequence is fed as its byte; another one is absorbed.
pub open spec fn char_parser(p: ParserModel, c: char) -> (ParserModel, Option<ActionModel>) {
    if p.state == State::Ground {
        (p, None)
    } else if (c as u32) < 0x80 {
        parser_step(p, c as u8)
    } else {
        (char_absorbed(p, c), None)
    }
}

/// What a character of the output does to a terminal: the action the parser
/// yields is carried out; with none, the character is printed when the
/// parser is (back) in the ground state, unless it ended an escape (the `\`
/// of a string terminator).
pub open spec fn char_fed(a: Terminal, c: char, key: u32, b: Terminal) -> bool {
    let (p, act) = char_parser(a.parser@, c);
    exists|m: Terminal| {
        &&& #[trigger] parser_moved(a, m, p)
        &&& match act {
            Some(x) => executed(m, x, b),
            None => if p.state == State::Ground && a.parser.state != State::Escape { grapheme_printed(m, c, key, b) } else { b == m },
        }
    }
}

/// What one item does to a terminal.
pub open spec fn item_step(a: Terminal, item: ProcessItem, b: Terminal) -> bool {
    match item {
        ProcessItem::Byte(x) => byte_fed(a, x, b),
        ProcessItem::Char(c, key) => char_fed(a, c, key, b),
    }
}

/// Each state of `tr` is the one before it after the next of `items`.
pub open spec fn items_trace(tr: Seq<Terminal>, items: Seq<ProcessItem>) -> bool {
    &&& tr.len() == items.len() + 1
    &&& forall|j: int| 0 <= j < items.len() ==> #[trigger] item_step(tr[j], items[j], tr[j + 1])
}

/// The items, one after the other, lead from `a` to `b`.
pub open spec fn items_run(a: Terminal, items: Seq<ProcessItem>, b: Terminal) -> bool {
    exists|tr: Seq<Terminal>| {
        &&& tr[0] == a
        &&& tr.last() == b
        &&& #[trigger] items_trace(tr, items)
    }
}

/// `s` is `a` viewing the live screen with `rest` waiting in the buffer.
pub open spec fn output_started(a: Terminal, rest: Seq<u8>, s: Terminal) -> bool {
    &&& s.utf8_buffer@ == rest
    &&& s == (Terminal { utf8_buffer: s.utf8_buffer, viewport_offset: 0, ..a })
}

/// What `process` makes of `bytes`: after what waited in the buffer they are
/// scanned into items (`scan_items`); what the scan leaves waits for the
/// next call, the view returns to the live screen, and the items are
/// carried out in order.
pub open spec fn output_processed(a: Terminal, bytes: Seq<u8>, b: Terminal) -> bool {
    let buf = a.utf8_buffer@ + bytes;
    let scan = scan_items(buf, 0);
    exists|s: Terminal| #[trigger] output_started(a, buf.skip(scan.1), s) && items_run(s, scan.0, b)
}

/// A whole UTF-8 sequence, of the length its first byte announces, holds
/// one character.
proof fn lemma_one_sequence(chunk: Seq<u8>)
    requires
        chunk.len() > 0,
        chunk.len() == utf8_length(chunk[0]),
        valid_utf8(chunk),
    ensures
        decode_utf8(chunk).len() == 1,
{
    assert(vstd::utf8::valid_first_scalar(chunk));
    assert(vstd::utf8::length_of_first_scalar(chunk) == chunk.len());
    let rest = vstd::utf8::pop_first_scalar(chunk);
    assert(rest =~= Seq::<u8>::empty());
    assert(valid_utf8(rest));
    assert(decode_utf8(rest) =~= Seq::<char>::empty());
}

proof fn lemma_concat_len(g: Seq<Seq<char>>)
    requires
        forall|i: int| 0 <= i < g.len() ==> #[trigger] g[i].len() > 0,
    ensures
        crate::text::concat_chars(g).len() >= g.len(),
    decreases g.len(),
{
    if g.len() > 0 {
        let h = g.drop_last();
        assert forall|i: int| 0 <= i < h.len() implies #[trigger] h[i].len() > 0 by {
            assert(h[i] == g[i]);
        }
        lemma_concat_len(h);
    }
}

/// Non-empty parts that make up one character: there is one, that character.
proof fn lemma_single_cluster(g: Seq<Seq<char>>, c: char)
    requires
        crate::text::concat_chars(g) == seq![c],
        forall|i: int| 0 <= i < g.len() ==> #[trigger] g[i].len() > 0,
    ensures
        g.len() == 1,
        g[0] == seq![c],
{
    lemma_concat_len(g);
    if g.len() == 0 {
        assert(crate::text::concat_chars(g) =~= Seq::<char>::empty());
    }
    assert(g.len() == 1);
    assert(crate::text::concat_chars(g.drop_last()) =~= Seq::<char>::empty());
    assert(crate::text::concat_chars(g) =~= g[0]);
}

/// The length a UTF-8 sequence announces in its first byte (1 for a byte
/// that cannot start one).
pub open spec fn utf8_length(byte: u8) -> int {
    if byte < 0x80 { 1 } else if byte < 0xc0 { 1 } else if byte < 0xe0 { 2 } else if byte < 0xf0 { 3 } else { 4 }
}

/// Get the length of a UTF-8 sequence from its first byte.
fn utf8_sequence_length(byte: u8) -> (n: usize)
    ensures
        n as int == utf8_length(byte),
        1 <= n <= 4,
{
    if byte < 0x80 {
        1
    } else if byte < 0xC0 {
        1
    } else if byte < 0xE0 {
        2
    } else if byte < 0xF0 {
        3
    } else {
        4
    }
}

fn copy_range(s: &Vec<u8>, from: usize, to: usize) -> (v: Vec<u8>)
    requires from <= to <= s.len(),
    ensures v@ == s@.subrange(from as int, to as int),
{
    let mut v: Vec<u8> = Vec::new();
    let mut i: usize = from;
    while i < to
        invariant
            from <= i <= to,
            to <= s.len(),
            v@ =~= s@.subrange(from as int, i as int),
        decreases to - i,
    {
        v.push(s[i]);
        i = i + 1;
    }
    v
}

/// One line feed (`linefeed`): at or below the scroll region's bottom the
/// region scrolls up a line, with the images; above it the cursor moves down.
pub open spec fn line_fed(a: Terminal, b: Terminal) -> bool {
    &&& a.cursor.line >= a.scroll_bottom ==> {
        &&& b.cursor == a.cursor
        &&& b.screen() == screen_scrolled_up(a, 1)
        &&& b.sixel_images@ == scrolled_images(a.sixel_images@, 1, a.cell_height_pixels, a.rows)
        &&& b == (Terminal { grid: b.grid, sixel_images: b.sixel_images, ..a })
    }
    &&& a.cursor.line < a.scroll_bottom ==> b == (Terminal { cursor: Cursor { line: (a.cursor.line + 1) as u16, ..a.cursor }, ..a })
}

/// Each state of `tr` is the one before it after a line feed.
pub open spec fn feed_trace(tr: Seq<Terminal>) -> bool {
    forall|i: int| 0 <= i < tr.len() - 1 ==> #[trigger] line_fed(tr[i], tr[i + 1])
}

/// What printing `c` does to a terminal (`input`).
pub open spec fn printed_to(a: Terminal, c: char, b: Terminal) -> bool {
    &&& b.cursor == (Cursor {
            col: min_int(wrapped_cursor(a).col + print_width(translated(a, c)), u16::MAX as int) as u16,
            ..wrapped_cursor(a)
        })
    &&& (wrapped_cursor(a).line < a.rows && wrapped_cursor(a).col < a.cols) ==>
            b.screen() == wrapped_screen(a).update(wrapped_cursor(a).line as int,
                printed_row(wrapped_screen(a)[wrapped_cursor(a).line as int], wrapped_cursor(a).col as int,
                    printed_cell(a, c, 0), print_width(translated(a, c)) > 1, a.current_hyperlink_id))
    &&& !(wrapped_cursor(a).line < a.rows && wrapped_cursor(a).col < a.cols) ==>
            b.screen() == wrapped_screen(a)
    &&& b == (Terminal { grid: b.grid, cursor: b.cursor, sixel_images: b.sixel_images, ..a })
}

/// What a control byte, or the final byte of a plain ESC sequence, does to a
/// terminal (`execute_control`).
pub open spec fn control_applied(a: Terminal, byte: u8, b: Terminal) -> bool {
    &&& byte == 0x07 ==> b == (Terminal { pending_bell: Some(BellEvent::Both), ..a })
    &&& byte == 0x0e ==> b == (Terminal { active_charset: CharsetSlot::G1, ..a })
    &&& byte == 0x0f ==> b == (Terminal { active_charset: CharsetSlot::G0, ..a })
    &&& byte == 0x0d ==> b == (Terminal { cursor: Cursor { col: 0, ..a.cursor }, ..a })
    &&& byte == 0x08 ==> b == (Terminal { cursor: Cursor { col: sat_sub(a.cursor.col as int, 1) as u16, ..a.cursor }, ..a })
    &&& byte == 0x37 ==> b == (Terminal { saved_cursor: Some(saved_of(a.cursor)), ..a })
    &&& byte == 0x3d ==> b == (Terminal { modes: TerminalModes { application_keypad: true, ..a.modes }, ..a })
    &&& byte == 0x3e ==> b == (Terminal { modes: TerminalModes { application_keypad: false, ..a.modes }, ..a })
    &&& (byte == 0x0a || byte == 0x0b || byte == 0x0c || byte == 0x44) && a.cursor.line < a.scroll_bottom ==>
            b == (Terminal { cursor: Cursor { line: (a.cursor.line + 1) as u16, ..a.cursor }, ..a })
    &&& (byte == 0x0a || byte == 0x0b || byte == 0x0c || byte == 0x44) && a.cursor.line >= a.scroll_bottom ==>
            b.screen() == screen_scrolled_up(a, 1) && b.cursor == a.cursor
    &&& !(byte == 0x07 || byte == 0x08 || byte == 0x09 || byte == 0x0a || byte == 0x0b || byte == 0x0c || byte == 0x0d
            || byte == 0x0e || byte == 0x0f || byte == 0x37 || byte == 0x38 || byte == 0x63 || byte == 0x44
            || byte == 0x45 || byte == 0x48 || byte == 0x4d || byte == 0x3d || byte == 0x3e) ==> b == a
}

/// What a DCS string does to a terminal (`handle_dcs`): an empty one
/// nothing; a DECRQSS request (`$ q`) has its reply added to the responses.
pub open spec fn dcs_applied(a: Terminal, intermediates: Seq<u8>, data: Seq<u8>, b: Terminal) -> bool {
    &&& data.len() == 0 ==> b == a
    &&& (data.len() > 0 && intermediates == seq![0x24u8] && data[0] == 0x71) ==>
            b.responses@ == a.responses@ + decrqss_reply(a, data.skip(1))
            && b == (Terminal { responses: b.responses, ..a })
}

/// What one parsed action does to a terminal (`execute`).
pub open spec fn executed(a: Terminal, action: ActionModel, b: Terminal) -> bool {
    match action {
        ActionModel::Print(c) => printed_to(a, c, b),
        ActionModel::Execute(byte) => control_applied(a, byte, b),
        ActionModel::CsiDispatch { params, intermediates, action } =>
            csi::calls_run(a, csi::csi_calls_spec(params, intermediates, action), b),
        ActionModel::OscDispatch(parts) => match osc::osc_call_spec(parts) {
            Some(call) => osc_applied_to(a, call, b),
            None => b == a,
        },
        ActionModel::DcsDispatch { params, intermediates, data } => dcs_applied(a, intermediates, data, b),
    }
}

/// `m` is `a` with its parser moved to `p`.
pub open spec fn parser_moved(a: Terminal, m: Terminal, p: ParserModel) -> bool {
    &&& m.parser@ == p
    &&& m == (Terminal { parser: m.parser, ..a })
}

/// What feeding one byte does to a terminal (`feed_byte`): the parser takes
/// the byte, and the action it yields, if any, is carried out.
pub open spec fn byte_fed(a: Terminal, byte: u8, b: Terminal) -> bool {
    let (p, act) = parser_step(a.parser@, byte);
    exists|m: Terminal| {
        &&& #[trigger] parser_moved(a, m, p)
        &&& match act {
            Some(x) => executed(m, x, b),
            None => b == m,
        }
    }
}

/// Each state of `tr` is the one before it after the next of `bytes`.
pub open spec fn fed_trace(tr: Seq<Terminal>, bytes: Seq<u8>) -> bool {
    &&& tr.len() == bytes.len() + 1
    &&& forall|i: int| 0 <= i < bytes.len() ==> #[trigger] byte_fed(tr[i], bytes[i], tr[i + 1])
}

/// Feeding `bytes` one after the other leads from `a` to `b`.
pub open spec fn bytes_fed(a: Terminal, bytes: Seq<u8>, b: Terminal) -> bool {
    exists|tr: Seq<Terminal>| {
        &&& tr[0] == a
        &&& tr.last() == b
        &&& #[trigger] fed_trace(tr, bytes)
    }
}

/// The rows a resize leaves in the tab stops: the old flags cut or padded
/// with unset ones, then every 8th column set.
pub open spec fn resized_tab_stops(old_stops: Seq<bool>, cols: int) -> Seq<bool> {
    Seq::new(cols as nat, |i: int| i % 8 == 0 || (i < old_stops.len() && old_stops[i]))
}

/// The cell shown at (`col`, `row`) of the view: the live screen at offset 0;
/// scrolled back, history rows first and then the screen.
pub open spec fn viewport_cell(t: Terminal, col: int, row: int) -> Option<Cell> {
    let sb = t.grid.view_scrollback();
    if t.viewport_offset == 0 {
        if row < t.rows && col < t.cols { Some(t.screen()[row][col]) } else { None }
    } else if t.viewport_offset > sb.len() {
        None
    } else {
        let total = row + (sb.len() - t.viewport_offset);
        if total < sb.len() {
            let r = sb[total];
            if col < r.len() { Some(r[col]) } else { None }
        } else {
            let g = total - sb.len();
            if g < t.rows && col < t.cols { Some(t.screen()[g][col]) } else { None }
        }
    }
}

impl Terminal {
    /// Carry out one parsed action.
    fn execute(&mut self, action: Action)
        requires
            old(self).wf(),
        ensures
            final(self).wf(),
            executed(*old(self), action@, *final(self)),
    {
        let ghost view = action@;
        match action {
            Action::Print(c) => {
                self.input(c);
                assert(executed(*old(self), view, *self));
            }
            Action::Execute(byte) => {
                self.execute_control(byte);
                assert(executed(*old(self), view, *self));
            }
            Action::CsiDispatch { params, intermediates, action: final_char } => {
                let ps = params.as_slice();
                let is = intermediates.as_slice();
                csi::dispatch(self, ps, is, final_char);
                assert(ps@ == params@ && is@ == intermediates@);
                assert(executed(*old(self), view, *self));
            }
            Action::OscDispatch(params) => {
                osc::dispatch(self, params.as_slice());
                assert(osc::params_view(params@) =~= params@.map_values(|p: Vec<u8>| p@));
                assert(executed(*old(self), view, *self));
            }
            Action::DcsDispatch { params, intermediates, data } => {
                self.handle_dcs(params.as_slice(), intermediates.as_slice(), data.as_slice());
                assert(executed(*old(self), view, *self));
            }
        }
    }

    /// Feed one byte to the parser and carry out what it yields.
    fn feed_byte(&mut self, byte: u8)
        requires
            old(self).wf(),
        ensures
            final(self).wf(),
            byte_fed(*old(self), byte, *final(self)),
    {
        let r = self.parser.advance(byte);
        let ghost mid = *self;
        assert(parser_moved(*old(self), mid, parser_step(old(self).parser@, byte).0));
        if let Some(action) = r {
            self.execute(action);
        }
    }

    /// Process output of the program: bytes are decoded as UTF-8 (a sequence
    /// cut at the end waits in the buffer for the next call), control bytes
    /// go to the parser, and characters go to the parser inside a sequence
    /// or to the screen outside one. The view returns to the live screen.
    pub fn process(&mut self, bytes: &[u8])
        requires
            old(self).wf(),
        ensures
            final(self).wf(),
            final(self).utf8_buffer@.len() < 4,
            output_processed(*old(self), bytes@, *final(self)),
    {
        if self.viewport_offset > 0 {
            self.viewport_offset = 0;
        }
        self.utf8_buffer.extend_from_slice(bytes);
        let ghost pre = *self;
        let ghost buf = self.utf8_buffer@;
        assert(buf =~= old(self).utf8_buffer@ + bytes@);
        let ghost scan = scan_items(buf, 0);
        let mut items: Vec<ProcessItem> = Vec::new();
        let n = self.utf8_buffer.len();
        let mut i: usize = 0;
        let mut done = false;
        while i < n && !done
            invariant
                0 <= i <= n,
                n == self.utf8_buffer.len(),
                buf == self.utf8_buffer@,
                scan == scan_items(buf, 0),
                *self == pre,
                done ==> n - i < 4,
                done ==> scan_items(buf, i as int) == (Seq::<ProcessItem>::empty(), i as int),
                items@ + scan_items(buf, i as int).0 == scan.0,
                scan_items(buf, i as int).1 == scan.1,
            decreases n - i + (if done { 0int } else { 1 }),
        {
            let byte = self.utf8_buffer[i];
            if byte < 0x20 || byte == 0x1b || byte == 0x7f {
                let ghost before = items@;
                items.push(ProcessItem::Byte(byte));
                proof {
                    assert(items@ + scan_items(buf, i + 1).0 =~= before + scan_items(buf, i as int).0);
                }
                i = i + 1;
            } else {
                let seq_len = utf8_sequence_length(byte);
                if seq_len > n - i {
                    done = true;
                } else {
                    let ghost before = items@;
                    let chunk = copy_range(&self.utf8_buffer, i, i + seq_len);
                    if let Some(text) = utf8_decode(chunk.as_slice()) {
                        proof {
                            lemma_one_sequence(chunk@);
                        }
                        let ghost ch = decode_utf8(chunk@)[0];
                        assert(text@ =~= seq![ch]);
                        let clusters = crate::text::graphemes_of(text.as_str());
                        proof {
                            let g = clusters@.map_values(|p: String| p@);
                            assert forall|t: int| 0 <= t < g.len() implies #[trigger] g[t].len() > 0 by {
                                assert(g[t] == clusters@[t]@);
                            }
                            lemma_single_cluster(g, ch);
                            assert(clusters@[0]@ == g[0]);
                        }
                        let mut k: usize = 0;
                        while k < clusters.len()
                            invariant
                                0 <= k <= clusters.len(),
                                clusters@.len() == 1,
                                clusters@[0]@ == seq![ch],
                                *self == pre,
                                n == self.utf8_buffer.len(),
                                k == 0 ==> items@ == before,
                                k == 1 ==> items@ == before.push(ProcessItem::Char(ch, 0)),
                            decreases clusters.len() - k,
                        {
                            let cs = chars_of(clusters[k].as_str());
                            if cs.len() > 0 {
                                let key: u32 = if cs.len() > 1 && self.grapheme_storage.len() < 0xffff_fffe {
                                    self.grapheme_storage.store(clusters[k].as_str())
                                } else {
                                    0
                                };
                                items.push(ProcessItem::Char(cs[0], key));
                            }
                            k = k + 1;
                        }
                        proof {
                            assert(items@ + scan_items(buf, i + seq_len).0 =~= before + scan_items(buf, i as int).0);
                        }
                    }
                    i = i + seq_len;
                }
            }
        }
        let rest = copy_range(&self.utf8_buffer, i, n);
        assert(rest@.len() < 4);
        self.utf8_buffer = rest;
        proof {
            assert(items@ =~= scan.0);
            assert(rest@ =~= buf.skip(scan.1));
        }
        let ghost started = *self;
        assert(output_started(*old(self), buf.skip(scan.1), started));
        let ghost mut tr: Seq<Terminal> = seq![*self];
        let mut j: usize = 0;
        while j < items.len()
            invariant
                0 <= j <= items.len(),
                self.wf(),
                self.utf8_buffer@.len() < 4,
                tr[0] == started,
                tr.last() == *self,
                items_trace(tr, items@.take(j as int)),
            decreases items.len() - j,
        {
            let ghost prev = *self;
            match items[j] {
                ProcessItem::Byte(byte) => {
                    self.feed_byte(byte);
                }
                ProcessItem::Char(c, key) => {
                    let was_escape = self.parser.state == State::Escape;
                    let r = self.parser.advance_char(c);
                    let ghost mid = *self;
                    assert(parser_moved(prev, mid, char_parser(prev.parser@, c).0));
                    if let Some(action) = r {
                        self.execute(action);
                    } else if self.parser.is_ground() && !was_escape {
                        self.input_grapheme(c, key);
                    }
                    assert(char_fed(prev, c, key, *self));
                }
            }
            proof {
                let t2 = tr.push(*self);
                let i2 = items@.take(j + 1);
                assert forall|x: int| 0 <= x < i2.len() implies #[trigger] item_step(t2[x], i2[x], t2[x + 1]) by {
                    if x < j {
                        assert(item_step(tr[x], items@.take(j as int)[x], tr[x + 1]));
                    } else {
                        assert(t2[x] == prev);
                    }
                }
                tr = t2;
            }
            j = j + 1;
        }
        assert(items@.take(j as int) =~= items@);
        assert(items_trace(tr, scan.0));
    }

    /// Process bytes one by one through the parser, without UTF-8 decoding.
    pub fn process_raw(&mut self, bytes: &[u8])
        requires
            old(self).wf(),
        ensures
            final(self).wf(),
            bytes_fed(*old(self), bytes@, *final(self)),
    {
        let ghost mut tr: Seq<Terminal> = seq![*self];
        let mut i: usize = 0;
        while i < bytes.len()
            invariant
                0 <= i <= bytes.len(),
                self.wf(),
                tr[0] == *old(self),
                tr.last() == *self,
                fed_trace(tr, bytes@.take(i as int)),
            decreases bytes.len() - i,
        {
            let ghost prev = *self;
            self.feed_byte(bytes[i]);
            proof {
                let t2 = tr.push(*self);
                let b2 = bytes@.take(i + 1);
                assert forall|j: int| 0 <= j < b2.len() implies #[trigger] byte_fed(t2[j], b2[j], t2[j + 1]) by {
                    if j < i {
                        assert(byte_fed(tr[j], bytes@.take(i as int)[j], tr[j + 1]));
                    } else {
                        assert(t2[j] == prev);
                    }
                }
                tr = t2;
            }
            i = i + 1;
        }
        assert(bytes@.take(i as int) =~= bytes@);
        assert(fed_trace(tr, bytes@));
    }

    /// Print a character with a grapheme cluster key.
    pub fn input_grapheme(&mut self, c: char, grapheme_key: u32)
        requires
            old(self).wf(),
        ensures
            final(self).wf(),
            final(self).cursor == (Cursor {
                col: min_int(wrapped_cursor(*old(self)).col + print_width(translated(*old(self), c)), u16::MAX as int) as u16,
                ..wrapped_cursor(*old(self))
            }),
            (wrapped_cursor(*old(self)).line < old(self).rows && wrapped_cursor(*old(self)).col < old(self).cols) ==>
                final(self).screen() == wrapped_screen(*old(self)).update(wrapped_cursor(*old(self)).line as int,
                    printed_row(wrapped_screen(*old(self))[wrapped_cursor(*old(self)).line as int], wrapped_cursor(*old(self)).col as int,
                        printed_cell(*old(self), c, grapheme_key), print_width(translated(*old(self), c)) > 1, old(self).current_hyperlink_id)),
            !(wrapped_cursor(*old(self)).line < old(self).rows && wrapped_cursor(*old(self)).col < old(self).cols) ==>
                final(self).screen() == wrapped_screen(*old(self)),
            *final(self) == (Terminal { grid: final(self).grid, cursor: final(self).cursor, sixel_images: final(self).sixel_images, ..*old(self) }),
    {
        self.write_char_with_grapheme(c, grapheme_key);
    }

    /// Resize the terminal: both screens take the new size, the scroll
    /// region becomes the whole height (its top stays), tab stops follow
    /// the new width, the cursor is kept on the screen and the view returns
    /// to the live screen.
    pub fn resize(&mut self, cols: u16, rows: u16)
        requires
            old(self).wf(),
        ensures
            final(self).wf(),
            final(self).cols == cols,
            final(self).rows == rows,
            final(self).grid.cols == cols,
            final(self).grid.lines == rows,
            final(self).scroll_top == old(self).scroll_top,
            final(self).scroll_bottom as int == sat_sub(rows as int, 1),
            final(self).tab_stops@ == resized_tab_stops(old(self).tab_stops@, cols as int),
            final(self).cursor == (Cursor {
                col: min_int(old(self).cursor.col as int, sat_sub(cols as int, 1)) as u16,
                line: min_int(old(self).cursor.line as int, sat_sub(rows as int, 1)) as u16,
                ..old(self).cursor
            }),
            final(self).viewport_offset == 0,
            rows >= old(self).rows ==> final(self).screen()
                == old(self).screen().map_values(|r: Seq<Cell>| super::grid::resized_row(r, cols as int))
                    + blank_rows(rows - old(self).rows, cols as int),
            rows < old(self).rows ==> final(self).screen()
                == old(self).screen().map_values(|r: Seq<Cell>| super::grid::resized_row(r, cols as int)).skip(old(self).rows - rows),
    {
        self.cols = cols;
        self.rows = rows;
        self.grid.resize(cols, rows);
        self.alt_grid.resize(cols, rows);
        self.scroll_bottom = rows.saturating_sub(1);
        self.tab_stops.resize(cols as usize, false);
        let n = self.tab_stops.len();
        let ghost resized = self.tab_stops@;
        let ghost pre = *self;
        let mut i: usize = 0;
        while i < n
            invariant
                0 <= i <= n,
                *self == (Terminal { tab_stops: self.tab_stops, ..pre }),
                n == cols as int,
                n == self.tab_stops@.len(),
                resized.len() == n,
                forall|j: int| 0 <= j < n ==> #[trigger] resized[j] == (j < old(self).tab_stops@.len() && old(self).tab_stops@[j]),
                forall|j: int| 0 <= j < n ==> #[trigger] self.tab_stops@[j] == (if j < i && j % 8 == 0 { true } else { resized[j] }),
            decreases n - i,
        {
            if i % 8 == 0 {
                self.tab_stops.set(i, true);
            }
            i = i + 1;
        }
        assert(self.tab_stops@ =~= resized_tab_stops(old(self).tab_stops@, cols as int));
        let last_col = cols.saturating_sub(1);
        let last_line = rows.saturating_sub(1);
        if self.cursor.col > last_col {
            self.cursor.col = last_col;
        }
        if self.cursor.line > last_line {
            self.cursor.line = last_line;
        }
        self.viewport_offset = 0;
    }

    /// The cell to show at (`col`, `viewport_row`) of the view.
    pub fn get_viewport_cell(&self, col: u16, viewport_row: u16) -> (c: Option<&Cell>)
        requires
            self.wf(),
        ensures
            match c {
                Some(c) => viewport_cell(*self, col as int, viewport_row as int) == Some(*c),
                None => viewport_cell(*self, col as int, viewport_row as int).is_none(),
            },
    {
        let sb_len = self.grid.scrollback_len();
        if self.viewport_offset == 0 {
            if viewport_row < self.grid.lines() && col < self.grid.cols() {
                assert(self.grid.rows@[viewport_row as int].cells@.len() == self.cols as int);
                Some(self.grid.cell(col, viewport_row))
            } else {
                None
            }
        } else if self.viewport_offset > sb_len {
            None
        } else {
            let offset = self.viewport_offset;
            if (viewport_row as usize) < offset {
                match self.grid.scrollback_row(offset - viewport_row as usize - 1) {
                    Some(row) => {
                        if (col as usize) < row.cells.len() {
                            Some(&row.cells[col as usize])
                        } else {
                            None
                        }
                    }
                    None => None,
                }
            } else {
                let grid_row = viewport_row as usize - offset;
                if grid_row < self.grid.lines() as usize && col < self.grid.cols() {
                    assert(self.grid.rows@[grid_row as int].cells@.len() == self.cols as int);
                    Some(self.grid.cell(col, grid_row as u16))
                } else {
                    None
                }
            }
        }
    }

    /// Place an image at the cursor and move the cursor down past it (one
    /// line feed per cell row it covers).
    fn place_image(&mut self, data: Vec<u8>, width: u32, height: u32)
        requires
            old(self).wf(),
        ensures
            final(self).wf(),
            exists|tr: Seq<Terminal>| {
                &&& tr.len() == image_rows(height, old(self).cell_height_pixels) + 1
                &&& tr[0].sixel_images@ == old(self).sixel_images@.push(
                    SixelPlacement { data, width, height, col: old(self).cursor.col, row: old(self).cursor.line })
                &&& tr[0] == (Terminal { sixel_images: tr[0].sixel_images, ..*old(self) })
                &&& tr.last() == *final(self)
                &&& #[trigger] feed_trace(tr)
            },
    {
        let placement = SixelPlacement { data, width, height, col: self.cursor.col, row: self.cursor.line };
        self.sixel_images.push(placement);
        let ghost placed = *self;
        let ghost mut tr: Seq<Terminal> = seq![*self];
        let cell_height: u64 = if self.cell_height_pixels == 0 { 1 } else { self.cell_height_pixels as u64 };
        let rows_needed: u64 = (height as u64 + cell_height - 1) / cell_height;
        assert(rows_needed == image_rows(height, old(self).cell_height_pixels));
        let mut k: u64 = 0;
        while k < rows_needed
            invariant
                0 <= k <= rows_needed,
                self.wf(),
                tr.len() == k + 1,
                tr[0] == placed,
                tr.last() == *self,
                feed_trace(tr),
            decreases rows_needed - k,
        {
            let ghost prev = *self;
            self.linefeed();
            proof {
                let t2 = tr.push(*self);
                assert forall|i: int| 0 <= i < t2.len() - 1 implies #[trigger] line_fed(t2[i], t2[i + 1]) by {
                    if i < tr.len() - 1 {
                        assert(line_fed(tr[i], tr[i + 1]));
                    } else {
                        assert(t2[i] == prev);
                    }
                }
                tr = t2;
            }
            k = k + 1;
        }
        assert(placed.sixel_images@ == old(self).sixel_images@.push(
            SixelPlacement { data, width, height, col: old(self).cursor.col, row: old(self).cursor.line }));
        assert(feed_trace(tr));
    }

    /// Handle a DCS string: DECRQSS requests (`$ q`) are answered, Kitty
    /// graphics (`G`) and sixel data are decoded and placed at the cursor.
    fn handle_dcs(&mut self, params: &[u16], intermediates: &[u8], data: &[u8])
        requires
            old(self).wf(),
        ensures
            final(self).wf(),
            data@.len() == 0 ==> *final(self) == *old(self),
            (data@.len() > 0 && intermediates@ == seq![0x24u8] && data@[0] == 0x71) ==>
                final(self).responses@ == old(self).responses@ + decrqss_reply(*old(self), data@.skip(1))
                && *final(self) == (Terminal { responses: final(self).responses, ..*old(self) }),
    {
        if data.len() == 0 {
            return;
        }
        if intermediates.len() == 1 && intermediates[0] == 0x24 && data[0] == 0x71 {
            assert(intermediates@ =~= seq![0x24u8]);
            let request = copy_range_slice(data, 1, data.len());
            assert(request@ =~= data@.skip(1));
            self.handle_decrqss(request.as_slice());
            return;
        }
        proof {
            if intermediates@ == seq![0x24u8] {
                assert(intermediates@.len() == 1 && intermediates@[0] == 0x24);
            }
        }
        if data[0] == 0x47 || (intermediates.len() > 0 && intermediates[0] == 0x47) {
            let payload = copy_range_slice(data, 1, data.len());
            let mut decoder = KittyDecoder::new();
            match decoder.parse(payload.as_slice()) {
                Ok(Some(image)) => {
                    self.place_image(image.data, image.width, image.height);
                }
                _ => {}
            }
            return;
        }
        self.sixel_decoder.reset();
        self.sixel_decoder.decode(data);
        let image = self.sixel_decoder.take_image();
        if image.width > 0 && image.height > 0 {
            self.place_image(image.data, image.width, image.height);
        }
    }
}

fn copy_range_slice(s: &[u8], from: usize, to: usize) -> (v: Vec<u8>)
    requires from <= to <= s.len(),
    ensures v@ == s@.subrange(from as int, to as int),
{
    let mut v: Vec<u8> = Vec::new();
    let mut i: usize = from;
    while i < to
        invariant
            from <= i <= to,
            to <= s.len(),
            v@ =~= s@.subrange(from as int, i as int),
        decreases to - i,
    {
        v.push(s[i]);
        i = i + 1;
    }
    v
}

/// The characters of a row of cells.
pub open spec fn line_text(row: Seq<Cell>) -> Seq<char> {
    row.map_values(|c: Cell| c.c)
}

/// The UTF-8 bytes of a row's text in lowercase.
pub open spec fn lowered_line(row: Seq<Cell>) -> Seq<u8> {
    encode_utf8(lowercase(line_text(row)))
}

/// `q` occurs in `h` at byte `i`.
pub open spec fn occurs_at(h: Seq<u8>, q: Seq<u8>, i: int) -> bool {
    0 <= i && i + q.len() <= h.len() && h.subrange(i, i + q.len()) == q
}

/// The positions below `n` where `q` occurs in `h`, ascending.
pub open spec fn occurrences_below(h: Seq<u8>, q: Seq<u8>, n: int) -> Seq<int>
    decreases n,
{
    if n <= 0 {
        seq![]
    } else {
        occurrences_below(h, q, n - 1) + (if occurs_at(h, q, n - 1) { seq![n - 1] } else { seq![] })
    }
}

/// The matches of `q` in one lowercased line, which is row `row`.
pub open spec fn row_matches(h: Seq<u8>, q: Seq<u8>, row: i32) -> Seq<SearchMatch> {
    occurrences_below(h, q, h.len() as int).map_values(|p: int| SearchMatch { col: p as u16, row: row, len: q.len() as u16 })
}

/// The matches in the first `k` screen rows, row by row.
pub open spec fn screen_matches(rows: Seq<Seq<Cell>>, q: Seq<u8>, k: int) -> Seq<SearchMatch>
    decreases k,
{
    if k <= 0 {
        seq![]
    } else {
        screen_matches(rows, q, k - 1) + row_matches(lowered_line(rows[k - 1]), q, (k - 1) as i32)
    }
}

/// The row id of the history line `offset` places back: -1 for the most recent.
pub open spec fn history_row_id(offset: int) -> i32 {
    (-offset - 1) as i32
}

/// The matches in the `k` most recent history lines, most recent first.
pub open spec fn history_matches(sb: Seq<Seq<Cell>>, q: Seq<u8>, k: int) -> Seq<SearchMatch>
    decreases k,
{
    if k <= 0 {
        seq![]
    } else {
        history_matches(sb, q, k - 1)
            + row_matches(lowered_line(sb[sb.len() - k]), q, history_row_id(k - 1))
    }
}

/// All matches of a query: the screen top to bottom, then the history from
/// the most recent line back, each line left to right.
pub open spec fn all_matches(t: Terminal, query: Seq<char>) -> Seq<SearchMatch> {
    let q = encode_utf8(lowercase(query));
    screen_matches(t.screen(), q, t.rows as int) + history_matches(t.grid.view_scrollback(), q, t.grid.view_scrollback().len() as int)
}

fn occurs_at_exec(h: &[u8], q: &[u8], i: usize) -> (r: bool)
    ensures r == occurs_at(h@, q@, i as int),
{
    if i > h.len() || q.len() > h.len() - i {
        return false;
    }
    let mut k: usize = 0;
    while k < q.len()
        invariant
            0 <= k <= q.len(),
            i + q.len() <= h.len(),
            forall|j: int| 0 <= j < k ==> h@[i + j] == q@[j],
        decreases q.len() - k,
    {
        if h[i + k] != q[k] {
            assert(h@.subrange(i as int, i + q.len())[k as int] != q@[k as int]);
            return false;
        }
        k = k + 1;
    }
    assert(h@.subrange(i as int, i + q.len()) =~= q@);
    true
}

/// The positions where `q` occurs in `h`, ascending.
fn find_occurrences(h: &[u8], q: &[u8]) -> (v: Vec<usize>)
    ensures v@.map_values(|p: usize| p as int) == occurrences_below(h@, q@, h@.len() as int),
{
    let mut v: Vec<usize> = Vec::new();
    let mut i: usize = 0;
    while i < h.len()
        invariant
            0 <= i <= h.len(),
            v@.map_values(|p: usize| p as int) == occurrences_below(h@, q@, i as int),
        decreases h.len() - i,
    {
        let ghost prev = v@;
        if occurs_at_exec(h, q, i) {
            v.push(i);
            assert(v@.map_values(|p: usize| p as int) =~= prev.map_values(|p: usize| p as int) + seq![i as int]);
        } else {
            assert(v@.map_values(|p: usize| p as int) =~= prev.map_values(|p: usize| p as int) + Seq::<int>::empty());
        }
        i = i + 1;
    }
    v
}

impl Terminal {
    /// The lowercased UTF-8 text of cells.
    fn lowered_cells(cells: &[Cell]) -> (v: Vec<u8>)
        ensures v@ == lowered_line(cells@),
    {
        let mut chars: Vec<char> = Vec::new();
        let mut k: usize = 0;
        while k < cells.len()
            invariant
                0 <= k <= cells.len(),
                chars@ =~= line_text(cells@.take(k as int)),
            decreases cells.len() - k,
        {
            chars.push(cells[k].c);
            k = k + 1;
        }
        assert(cells@.take(cells.len() as int) =~= cells@);
        let text = string_from_chars(chars.as_slice());
        let lower = to_lowercase(text.as_str());
        str_utf8_bytes(lower.as_str())
    }

    /// Add the matches of `q` in one line.
    fn push_row_matches(matches: &mut Vec<SearchMatch>, cells: &[Cell], q: &Vec<u8>, row: i32)
        ensures final(matches)@ == old(matches)@ + row_matches(lowered_line(cells@), q@, row),
    {
        let line = Terminal::lowered_cells(cells);
        let positions = find_occurrences(line.as_slice(), q.as_slice());
        let ghost start = matches@;
        let mut k: usize = 0;
        while k < positions.len()
            invariant
                0 <= k <= positions.len(),
                positions@.map_values(|p: usize| p as int) == occurrences_below(line@, q@, line@.len() as int),
                line@ == lowered_line(cells@),
                matches@ =~= start + row_matches(line@, q@, row).take(k as int),
            decreases positions.len() - k,
        {
            let p = positions[k];
            assert(row_matches(line@, q@, row)[k as int] == SearchMatch { col: p as u16, row: row, len: q@.len() as u16 }) by {
                assert(positions@.map_values(|p: usize| p as int)[k as int] == p as int);
            }
            matches.push(SearchMatch { col: p as u16, row, len: q.len() as u16 });
            assert(row_matches(line@, q@, row).take(k + 1) =~= row_matches(line@, q@, row).take(k as int).push(
                SearchMatch { col: p as u16, row: row, len: q@.len() as u16 }));
            k = k + 1;
        }
        assert(row_matches(line@, q@, row).take(positions.len() as int) =~= row_matches(line@, q@, row));
    }

    /// Recompute the matches of the current query over the screen and the
    /// history, back at the first match.
    pub fn search_update(&mut self)
        requires
            old(self).wf(),
        ensures
            final(self).wf(),
            final(self).search.current_match == 0,
            final(self).search.query == old(self).search.query,
            final(self).search.active == old(self).search.active,
            old(self).search.query@.len() == 0 ==> final(self).search.matches@.len() == 0,
            old(self).search.query@.len() > 0 ==> final(self).search.matches@ == all_matches(*old(self), old(self).search.query@),
            *final(self) == (Terminal { search: final(self).search, ..*old(self) }),
    {
        self.search.matches.clear();
        self.search.current_match = 0;
        if self.search.query.unicode_len() == 0 {
            return;
        }
        let lower = to_lowercase(self.search.query.as_str());
        let q = str_utf8_bytes(lower.as_str());
        let ghost qs = q@;
        let mut matches: Vec<SearchMatch> = Vec::new();
        let lines = self.grid.lines();
        let mut row: u16 = 0;
        while row < lines
            invariant
                0 <= row <= lines,
                lines == self.rows,
                self.wf(),
                *self == (Terminal { search: self.search, ..*old(self) }),
                q@ == qs,
                qs == encode_utf8(lowercase(old(self).search.query@)),
                matches@ == screen_matches(self.screen(), qs, row as int),
            decreases lines - row,
        {
            let cells = &self.grid.rows[row as usize].cells;
            assert(cells@ == self.screen()[row as int]);
            Terminal::push_row_matches(&mut matches, cells.as_slice(), &q, row as i32);
            row = row + 1;
        }
        let sb_len = self.grid.scrollback_len();
        let mut offset: usize = 0;
        while offset < sb_len
            invariant
                0 <= offset <= sb_len,
                sb_len == self.grid.view_scrollback().len(),
                self.wf(),
                *self == (Terminal { search: self.search, ..*old(self) }),
                q@ == qs,
                qs == encode_utf8(lowercase(old(self).search.query@)),
                matches@ == screen_matches(self.screen(), qs, self.rows as int)
                    + history_matches(self.grid.view_scrollback(), qs, offset as int),
            decreases sb_len - offset,
        {
            match self.grid.scrollback_row(offset) {
                Some(row_data) => {
                    let id: i32 = (-(offset as i128) - 1) as i32;
                    assert(id == history_row_id(offset as int));
                    let ghost before = matches@;
                    Terminal::push_row_matches(&mut matches, row_data.cells.as_slice(), &q, id);
                    assert(self.grid.view_scrollback().len() - (offset + 1) == super::grid::history_index(sb_len as int, offset as int));
                    assert(matches@ =~= screen_matches(self.screen(), qs, self.rows as int)
                        + history_matches(self.grid.view_scrollback(), qs, offset + 1));
                }
                None => {}
            }
            offset = offset + 1;
        }
        self.search.matches = matches;
    }

    /// Start an incremental search for `query`.
    pub fn search_start(&mut self, query: &str)
        requires
            old(self).wf(),
        ensures
            final(self).wf(),
            final(self).search.query@ == query@,
            final(self).search.active,
            final(self).search.current_match == 0,
            query@.len() == 0 ==> final(self).search.matches@.len() == 0,
            query@.len() > 0 ==> final(self).search.matches@ == all_matches(*old(self), query@),
            *final(self) == (Terminal { search: final(self).search, ..*old(self) }),
    {
        self.search.query = string_from_chars(&chars_of(query));
        self.search.active = true;
        self.search_update();
    }
}


/// Switching to the alternate screen and straight back gives the primary
/// screen back as it was, with the modes and the cursor position it had.
pub proof fn law_alternate_screen_round_trip(t: Terminal, on_alt: Terminal, back: Terminal)
    requires
        !t.modes.alternate_screen,
        entered_alternate(t, on_alt),
        left_alternate(on_alt, back),
    ensures
        back.grid == t.grid,
        back.modes == t.modes,
        back.cursor.col == t.cursor.col,
        back.cursor.line == t.cursor.line,
        back.alt_grid.view_scrollback() == t.alt_grid.view_scrollback(),
{
}


/// The rendition attributes each set (and their cancels each clear) their
/// own cell flag, leaving every other flag and the colors as they were:
/// bold 0x001, dim 0x002, italic 0x004, underline 0x008, blink 0x010,
/// inverse 0x020, hidden 0x040, strikethrough 0x080 (the bits `CellFlags`
/// names). After italic the glyph asks for the italic face, and after bold
/// for the bold one.
pub proof fn law_rendition_flags(c: Cursor, pal: ColorPalette)
    ensures
        forall|a: Attr, bit: u16| #![trigger attr_applied(c, a, pal), flag_of(a, bit)] flag_of(a, bit) ==> {
            let n = attr_applied(c, a, pal);
            &&& n.flags.bits & bit == bit
            &&& n.flags.bits & !bit == c.flags.bits & !bit
            &&& n == (Cursor { flags: n.flags, ..c })
        },
        forall|a: Attr, bit: u16| #![trigger attr_applied(c, a, pal), cancel_of(a, bit)] cancel_of(a, bit) ==> {
            let n = attr_applied(c, a, pal);
            &&& n.flags.bits & bit == 0
            &&& n.flags.bits & !bit == c.flags.bits & !bit
            &&& n == (Cursor { flags: n.flags, ..c })
        },
        crate::render::cell_style::glyph_flags_of(attr_applied(c, Attr::Italic, pal).flags) & 2 == 2,
        crate::render::cell_style::glyph_flags_of(attr_applied(c, Attr::Bold, pal).flags) & 1 == 1,
{
    lemma_or_bits();
    assert forall|a: Attr, bit: u16| #![trigger attr_applied(c, a, pal), flag_of(a, bit)] flag_of(a, bit) implies {
        let n = attr_applied(c, a, pal);
        &&& n.flags.bits & bit == bit
        &&& n.flags.bits & !bit == c.flags.bits & !bit
        &&& n == (Cursor { flags: n.flags, ..c })
    } by {
        assert(attr_applied(c, a, pal).flags.bits == c.flags.bits | bit);
    }
    assert forall|a: Attr, bit: u16| #![trigger attr_applied(c, a, pal), cancel_of(a, bit)] cancel_of(a, bit) implies {
        let n = attr_applied(c, a, pal);
        &&& n.flags.bits & bit == 0
        &&& n.flags.bits & !bit == c.flags.bits & !bit
        &&& n == (Cursor { flags: n.flags, ..c })
    } by {
        assert(attr_applied(c, a, pal).flags.bits == c.flags.bits & !bit);
    }
    let x = c.flags.bits;
    let i = x | 0x004u16;
    let bo = x | 0x001u16;
    assert(i & 0x004u16 == 0x004u16 && bo & 0x001u16 == 0x001u16) by (bit_vector)
        requires i == x | 0x004u16, bo == x | 0x001u16;
    let gi = crate::render::cell_style::glyph_flags_of(attr_applied(c, Attr::Italic, pal).flags);
    let gb = crate::render::cell_style::glyph_flags_of(attr_applied(c, Attr::Bold, pal).flags);
    assert(gi == 2 || gi == 3);
    assert(gb == 1 || gb == 3);
    assert(gi & 2 == 2 && gb & 1 == 1) by (bit_vector)
        requires gi == 2 || gi == 3, gb == 1 || gb == 3;
}

proof fn lemma_or_bits()
    ensures
        forall|x: u16, m: u16| #[trigger] (x | m) & m == m,
        forall|x: u16, m: u16| #[trigger] ((x | m) & !m) == x & !m,
        forall|x: u16, m: u16| #[trigger] ((x & !m) & m) == 0,
        forall|x: u16, m: u16| #[trigger] ((x & !m) & !m) == x & !m,
{
    assert forall|x: u16, m: u16| #[trigger] (x | m) & m == m by {
        assert((x | m) & m == m) by (bit_vector);
    }
    assert forall|x: u16, m: u16| #[trigger] ((x | m) & !m) == x & !m by {
        assert(((x | m) & !m) == x & !m) by (bit_vector);
    }
    assert forall|x: u16, m: u16| #[trigger] ((x & !m) & m) == 0 by {
        assert(((x & !m) & m) == 0) by (bit_vector);
    }
    assert forall|x: u16, m: u16| #[trigger] ((x & !m) & !m) == x & !m by {
        assert(((x & !m) & !m) == x & !m) by (bit_vector);
    }
}

/// The cell flag a rendition attribute sets.
pub open spec fn flag_of(a: Attr, bit: u16) -> bool {
    ||| (a == Attr::Bold && bit == 0x001)
    ||| (a == Attr::Dim && bit == 0x002)
    ||| (a == Attr::Italic && bit == 0x004)
    ||| (a == Attr::Underline && bit == 0x008)
    ||| (a == Attr::Blink && bit == 0x010)
    ||| (a == Attr::Inverse && bit == 0x020)
    ||| (a == Attr::Hidden && bit == 0x040)
    ||| (a == Attr::Strike && bit == 0x080)
}

/// The cell flag a cancelling rendition attribute clears.
pub open spec fn cancel_of(a: Attr, bit: u16) -> bool {
    ||| (a == Attr::CancelBold && bit == 0x001)
    ||| (a == Attr::CancelDim && bit == 0x002)
    ||| (a == Attr::CancelItalic && bit == 0x004)
    ||| (a == Attr::CancelUnderline && bit == 0x008)
    ||| (a == Attr::CancelBlink && bit == 0x010)
    ||| (a == Attr::CancelInverse && bit == 0x020)
    ||| (a == Attr::CancelHidden && bit == 0x040)
    ||| (a == Attr::CancelStrike && bit == 0x080)
}


proof fn lemma_region_down(rows: Seq<Seq<Cell>>, t: int, bt: int, k: int, cols: int)
    requires
        0 <= t <= bt < rows.len(),
        k >= 0,
    ensures
        region_scrolled_down(rows, t, bt, k, cols).len() == rows.len(),
        forall|i: int| 0 <= i < rows.len() && (i < t || i > bt)
            ==> #[trigger] region_scrolled_down(rows, t, bt, k, cols)[i] == rows[i],
        forall|i: int| t <= i <= bt && i < t + k
            ==> #[trigger] region_scrolled_down(rows, t, bt, k, cols)[i] == blank_row(cols),
        forall|i: int| t + k <= i <= bt
            ==> #[trigger] region_scrolled_down(rows, t, bt, k, cols)[i] == rows[i - k],
    decreases k,
{
    if k > 0 {
        lemma_region_down(rows, t, bt, k - 1, cols);
        let x = region_scrolled_down(rows, t, bt, k - 1, cols);
        let r = region_scrolled_down(rows, t, bt, k, cols);
        assert(r == x.remove(bt).insert(t, blank_row(cols)));
        assert forall|i: int| t < i <= bt implies #[trigger] r[i] == x[i - 1] by {}
        assert forall|i: int| 0 <= i < rows.len() && (i < t || i > bt) implies #[trigger] r[i] == x[i] by {}
    } else {
        assert(region_scrolled_down(rows, t, bt, 0, cols) == rows);
    }
}

proof fn lemma_region_up(rows: Seq<Seq<Cell>>, t: int, bt: int, k: int, cols: int)
    requires
        0 <= t <= bt < rows.len(),
        k >= 0,
    ensures
        region_scrolled_up(rows, t, bt, k, cols).len() == rows.len(),
        forall|i: int| 0 <= i < rows.len() && (i < t || i > bt)
            ==> #[trigger] region_scrolled_up(rows, t, bt, k, cols)[i] == rows[i],
        forall|i: int| t <= i <= bt && i > bt - k
            ==> #[trigger] region_scrolled_up(rows, t, bt, k, cols)[i] == blank_row(cols),
        forall|i: int| t <= i <= bt - k
            ==> #[trigger] region_scrolled_up(rows, t, bt, k, cols)[i] == rows[i + k],
    decreases k,
{
    if k > 0 {
        lemma_region_up(rows, t, bt, k - 1, cols);
        let x = region_scrolled_up(rows, t, bt, k - 1, cols);
        let r = region_scrolled_up(rows, t, bt, k, cols);
        assert(r == x.remove(t).insert(bt, blank_row(cols)));
        assert forall|i: int| t <= i < bt implies #[trigger] r[i] == x[i + 1] by {}
        assert forall|i: int| 0 <= i < rows.len() && (i < t || i > bt) implies #[trigger] r[i] == x[i] by {}
    } else {
        assert(region_scrolled_up(rows, t, bt, 0, cols) == rows);
    }
}

proof fn lemma_single_call(a: Terminal, call: CsiCall, b: Terminal)
    requires
        csi::calls_run(a, seq![call], b),
    ensures
        csi_applied_to(a, call, b),
{
    let tr = choose|tr: Seq<Terminal>| tr[0] == a && tr.last() == b && #[trigger] csi::calls_made(tr, seq![call]);
    assert(tr.len() == 2);
    let j: int = 0;
    assert(tr[j].csi_effect(seq![call][j], tr[j + 1]));
    assert(tr[1] == tr.last());
}

/// Insert Line (`CSI Ps L`) and Delete Line (`CSI Ps M`) with the cursor
/// inside the scroll region, for a count of `Ps` lines (at least one):
/// inserting puts that many blank lines at the cursor's line and moves the
/// lines from the cursor down by the count, up to the region's bottom;
/// deleting moves the lines below the deleted ones up by the count and
/// brings as many blank lines in at the region's bottom. Lines above the
/// cursor and below the region stay, and the screen keeps its height.
pub proof fn law_insert_delete_lines(a: Terminal, b: Terminal, params: Seq<u16>, action: char)
    requires
        a.wf(),
        a.rows > 0,
        a.cursor.line <= a.scroll_bottom,
        action == 'L' || action == 'M',
        csi::calls_run(a, csi::csi_calls_spec(params, Seq::<u8>::empty(), action), b),
    ensures ({
        let n = if params.len() > 0 && params[0] >= 1 { params[0] as int } else { 1 };
        let line = a.cursor.line as int;
        let bottom = a.scroll_bottom as int;
        &&& b.screen().len() == a.screen().len()
        &&& forall|i: int| 0 <= i < a.screen().len() && (i < line || i > bottom)
            ==> #[trigger] b.screen()[i] == a.screen()[i]
        &&& action == 'L' ==> {
            &&& forall|i: int| line <= i <= bottom && i < line + n ==> #[trigger] b.screen()[i] == blank_row(a.cols as int)
            &&& forall|i: int| line + n <= i <= bottom ==> #[trigger] b.screen()[i] == a.screen()[i - n]
        }
        &&& action == 'M' ==> {
            &&& forall|i: int| line <= i <= bottom && i > bottom - n ==> #[trigger] b.screen()[i] == blank_row(a.cols as int)
            &&& forall|i: int| line <= i <= bottom - n ==> #[trigger] b.screen()[i] == a.screen()[i + n]
        }
    }),
{
    let line = a.cursor.line as int;
    let bottom = a.scroll_bottom as int;
    let n = csi::count_param(params);
    assert(a.screen().len() == a.rows);
    if action == 'L' {
        assert(csi::csi_calls_spec(params, Seq::<u8>::empty(), action) == seq![CsiCall::InsertLines(n)]);
        lemma_single_call(a, CsiCall::InsertLines(n), b);
        lemma_region_down(a.screen(), line, bottom, n as int, a.cols as int);
    } else {
        assert(csi::csi_calls_spec(params, Seq::<u8>::empty(), action) == seq![CsiCall::DeleteLines(n)]);
        lemma_single_call(a, CsiCall::DeleteLines(n), b);
        lemma_region_up(a.screen(), line, bottom, n as int, a.cols as int);
    }
}

} // verus!
