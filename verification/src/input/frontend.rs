//! The terminal window's key handling: copy mode, scrollback paging, the
//! multiplexer prefix and its commands, copy and paste shortcuts, and keys
//! sent to the program. The window system and the programs are driven by
//! the owner, which carries out what a key asks for.

use vstd::prelude::*;
use crate::render::window::{KeyCode, Modifiers};
use crate::input::commands::{
    PrefixAction, prefix_action, prefix_command, CopyModeCommand, copy_mode_key, copy_mode_move, ViewportMove,
    scrollback_key, scrollback_move,
};
use crate::input::keyboard::{key_bytes, KeyboardHandler};
use crate::term::grid::Grid;
use crate::term::selection::{SelectionManager, Selection, SelectionType, Point, active_selection, selection_text};
use crate::term::terminal::Terminal;
use crate::term::cursor::{min_int, sat_sub};
use crate::mux::session::Session;
use crate::mux::pane::{Pane, PaneId};
use crate::mux::window::{WindowId, SplitDirection, next_index, prev_index, pane_closed_layout};
use crate::text::{lowercase, to_lowercase, chars_of, string_from_chars};
use crate::input::mouse::MouseButton;

verus! {

/// The key-handling state of the terminal window.
pub struct FrontEnd {
    /// The prefix key was pressed and a command may follow.
    pub prefix_active: bool,
    /// When the prefix key was pressed, in nanoseconds on the owner's clock.
    pub prefix_time: Option<u128>,
    /// Keys move a cursor over the screen to select text.
    pub copy_mode: bool,
    /// The copy-mode cursor (column, row).
    pub copy_mode_cursor: (u16, u16),
    /// Only the active pane is shown.
    pub pane_zoomed: bool,
    /// The window should close.
    pub should_exit: bool,
    pub selection: SelectionManager,
    /// The left button is held down.
    pub mouse_pressed: bool,
}

/// What the owner does after a key.
pub enum KeyOutcome {
    /// Nothing more.
    Done,
    /// Copy the text to the clipboard.
    Copy(String),
    /// Paste the clipboard into the active pane's program.
    Paste,
    /// Write the bytes to the active pane's program.
    Write(Vec<u8>),
    /// Start the shell in the new pane.
    Spawn(PaneId),
    /// The pane was closed; stop its program.
    Closed(PaneId),
}

/// Whether the session has an active pane.
pub open spec fn has_active_pane(s: Session) -> bool {
    s.windows@.len() > 0 && s.windows@[s.active_window_idx as int].panes@.len() > 0
}

/// The active pane of the active window.
pub open spec fn active_pane_of(s: Session) -> Pane {
    let w = s.windows@[s.active_window_idx as int];
    w.panes@[w.active_pane as int]
}

/// `s1` is `s0` with only the window at `a` changed.
pub open spec fn same_except_window(s0: Session, s1: Session, a: int) -> bool {
    &&& s1.windows@.len() == s0.windows@.len()
    &&& forall|j: int| 0 <= j < s0.windows@.len() && j != a ==> #[trigger] s1.windows@[j] == s0.windows@[j]
    &&& s1 == (Session { windows: s1.windows, ..s0 })
}

/// `s1` is `s0` with the active pane replaced by `p`.
pub open spec fn with_active_pane(s0: Session, s1: Session, p: Pane) -> bool {
    let a = s0.active_window_idx as int;
    let w0 = s0.windows@[a];
    let w1 = s1.windows@[a];
    &&& same_except_window(s0, s1, a)
    &&& w1.panes@ == w0.panes@.update(w0.active_pane as int, p)
    &&& w1.id == w0.id && w1.name == w0.name && w1.splits == w0.splits && w1.active_pane == w0.active_pane
}

/// The terminal with its view at `offset` lines into the scrollback.
pub open spec fn with_offset(t: Terminal, offset: usize) -> Terminal {
    Terminal { viewport_offset: offset, ..t }
}

/// The pane with its terminal's view at `offset`.
pub open spec fn pane_with_offset(p: Pane, offset: usize) -> Pane {
    Pane { terminal: with_offset(p.terminal, offset), ..p }
}

/// Where a scrollback move leaves the view.
pub open spec fn offset_after(m: ViewportMove, t: Terminal) -> int {
    match m {
        ViewportMove::Up(n) => min_int(t.viewport_offset + n, t.grid.view_scrollback().len() as int),
        ViewportMove::Down(n) => sat_sub(t.viewport_offset as int, n as int),
        ViewportMove::Top => t.grid.view_scrollback().len() as int,
        ViewportMove::Bottom => 0,
    }
}

/// Any key but a scrollback key brings the active pane's view back to the
/// live screen.
pub open spec fn view_reset(s0: Session, s1: Session) -> bool {
    if has_active_pane(s0) && active_pane_of(s0).terminal.viewport_offset > 0 {
        with_active_pane(s0, s1, pane_with_offset(active_pane_of(s0), 0))
    } else {
        s1 == s0
    }
}

/// Whether a key is the prefix key `prefix` (control, alt, shift, key):
/// the modifiers agree and the key's character lowercases to the key.
pub open spec fn prefix_matches(prefix: Option<(bool, bool, bool, char)>, key: KeyCode, mods: Modifiers) -> bool {
    match prefix {
        Some((c, a, s, k)) => mods.ctrl == c && mods.alt == a && mods.shift == s && match key {
            KeyCode::Character(ch) => lowercase(seq![ch]).len() > 0 && lowercase(seq![ch])[0] == k,
            _ => false,
        },
        None => false,
    }
}

/// The copy-mode bounds: the last column and row of the grid, or 79 and 23
/// without one.
pub open spec fn copy_bounds(grid: Option<Grid>) -> (u16, u16) {
    match grid {
        Some(g) => (sat_sub(g.cols as int, 1) as u16, sat_sub(g.lines as int, 1) as u16),
        None => (79u16, 23u16),
    }
}

/// The selection with its moving end at `p`, if there is one.
pub open spec fn moved_selection(sel: Option<Selection>, p: (u16, u16)) -> Option<Selection> {
    match sel {
        Some(s) => Some(Selection { current: Point { col: p.0, line: p.1 }, ..s }),
        None => None,
    }
}

/// What a copy-mode key does: the cursor moves (see `copy_mode_move`) and
/// the selection's end follows it; `v` starts a selection at the cursor;
/// `y` and Enter copy the selection's text and leave copy mode; `q` and
/// Escape leave it; leaving clears the selection.
pub open spec fn copy_mode_effect(f0: FrontEnd, grid: Option<Grid>, key: KeyCode, f1: FrontEnd, text: Option<String>) -> bool {
    let (cur, cmd) = copy_mode_move(f0.copy_mode_cursor, key, copy_bounds(grid));
    &&& f1.copy_mode_cursor == cur
    &&& f1.prefix_active == f0.prefix_active && f1.prefix_time == f0.prefix_time
    &&& f1.pane_zoomed == f0.pane_zoomed && f1.should_exit == f0.should_exit
    &&& match cmd {
        CopyModeCommand::Move => f1.copy_mode == f0.copy_mode && f1.selection.selection == moved_selection(f0.selection.selection, cur)
            && text is None,
        CopyModeCommand::StartSelection => f1.copy_mode == f0.copy_mode
            && f1.selection.selection == Some(Selection { selection_type: SelectionType::Normal,
                anchor: Point { col: cur.0, line: cur.1 }, current: Point { col: cur.0, line: cur.1 }, active: true })
            && text is None,
        CopyModeCommand::Yank => !f1.copy_mode && f1.selection.selection is None
            && (match grid {
                Some(g) => match active_selection(f0.selection) {
                    Some(sel) => text matches Some(t) && t@ == selection_text(sel, g.view_rows(), g.cols as int, g.lines as int),
                    None => text is None,
                },
                None => text is None,
            }),
        CopyModeCommand::Exit => !f1.copy_mode && f1.selection.selection is None && text is None,
    }
}

/// The front end with the prefix forgotten.
pub open spec fn prefix_cleared(f: FrontEnd) -> FrontEnd {
    FrontEnd { prefix_active: false, prefix_time: None, ..f }
}

/// What a prefix command does to the session and the front end, and what
/// the owner is left to do.
pub open spec fn prefix_effect(a: PrefixAction, s0: Session, s1: Session, f0: FrontEnd, f1: FrontEnd, out: KeyOutcome) -> bool {
    let ai = s0.active_window_idx as int;
    match a {
        PrefixAction::NewWindow => {
            &&& f1 == f0
            &&& out == KeyOutcome::Spawn(PaneId(s0.next_pane_id))
            &&& s1.windows@.len() == s0.windows@.len() + 1
            &&& forall|i: int| 0 <= i < s0.windows@.len() ==> #[trigger] s1.windows@[i] == s0.windows@[i]
            &&& s1.windows@.last().id == WindowId(s0.next_window_id)
            &&& s1.windows@.last().name@ == "new"@
            &&& s1.windows@.last().panes@.len() == 1
            &&& s1.windows@.last().panes@[0].id == PaneId(s0.next_pane_id)
            &&& s1.active_window_idx == s0.windows@.len()
            &&& s1.next_window_id == s0.next_window_id + 1
            &&& s1.next_pane_id == s0.next_pane_id + 1
        },
        PrefixAction::SplitHorizontal | PrefixAction::SplitVertical => {
            let w0 = s0.windows@[ai];
            let w1 = s1.windows@[ai];
            &&& f1 == f0
            &&& s1.next_pane_id == s0.next_pane_id + 1
            &&& s0.windows@.len() == 0 ==> out == KeyOutcome::Done && s1 == (Session { next_pane_id: s1.next_pane_id, ..s0 })
            &&& s0.windows@.len() > 0 ==> {
                &&& out == KeyOutcome::Spawn(PaneId(s0.next_pane_id))
                &&& same_except_window(s0, Session { next_pane_id: s0.next_pane_id, ..s1 }, ai)
                &&& w1.panes@.drop_last() == w0.panes@
                &&& w1.panes@.len() == w0.panes@.len() + 1
                &&& w1.panes@.last().id == PaneId(s0.next_pane_id)
                &&& w1.active_pane == w0.panes@.len()
                &&& w1.id == w0.id && w1.name == w0.name
            }
        },
        PrefixAction::NextWindow => f1 == f0 && out == KeyOutcome::Done
            && s1 == (Session { active_window_idx: next_index(ai, s0.windows@.len() as int) as usize, ..s0 }),
        PrefixAction::PrevWindow => f1 == f0 && out == KeyOutcome::Done
            && s1 == (Session { active_window_idx: prev_index(ai, s0.windows@.len() as int) as usize, ..s0 }),
        PrefixAction::SelectWindow(i) => f1 == f0 && out == KeyOutcome::Done
            && s1 == (if i < s0.windows@.len() { Session { active_window_idx: i, ..s0 } } else { s0 }),
        PrefixAction::ClosePane => {
            let w0 = s0.windows@[ai];
            let w1 = s1.windows@[ai];
            &&& f1 == f0
            &&& !has_active_pane(s0) ==> out == KeyOutcome::Done && s1 == s0
            &&& has_active_pane(s0) ==> {
                &&& out == KeyOutcome::Closed(active_pane_of(s0).id)
                &&& same_except_window(s0, s1, ai)
                &&& w1.panes@ == w0.panes@.remove(w0.active_pane as int)
                &&& pane_closed_layout(w0, w1)
                &&& w1.id == w0.id && w1.name == w0.name
            }
        },
        PrefixAction::Detach => f1 == (FrontEnd { should_exit: true, ..f0 }) && s1 == s0 && out == KeyOutcome::Done,
        PrefixAction::ZoomPane => f1 == (FrontEnd { pane_zoomed: !f0.pane_zoomed, ..f0 }) && s1 == s0 && out == KeyOutcome::Done,
        PrefixAction::CopyMode => {
            &&& s1 == s0 && out == KeyOutcome::Done
            &&& has_active_pane(s0) ==> {
                let c = active_pane_of(s0).terminal.cursor;
                f1 == (FrontEnd { copy_mode: true, copy_mode_cursor: (c.col, c.line),
                    selection: SelectionManager { selection: Some(Selection { selection_type: SelectionType::Normal,
                        anchor: Point { col: c.col, line: c.line }, current: Point { col: c.col, line: c.line }, active: true }) },
                    ..f0 })
            }
            &&& !has_active_pane(s0) ==> f1 == (FrontEnd { copy_mode: true, ..f0 })
        },
        PrefixAction::FocusPaneUp | PrefixAction::FocusPaneLeft | PrefixAction::FocusPaneDown | PrefixAction::FocusPaneRight => {
            let w0 = s0.windows@[ai];
            let w1 = s1.windows@[ai];
            let back = (a == PrefixAction::FocusPaneUp || a == PrefixAction::FocusPaneLeft);
            &&& f1 == f0 && out == KeyOutcome::Done
            &&& s0.windows@.len() == 0 ==> s1 == s0
            &&& s0.windows@.len() > 0 ==> {
                &&& same_except_window(s0, s1, ai)
                &&& w1.panes == w0.panes && w1.id == w0.id && w1.name == w0.name && w1.splits == w0.splits
                &&& w1.active_pane == (if back { prev_index(w0.active_pane as int, w0.panes@.len() as int) }
                        else { next_index(w0.active_pane as int, w0.panes@.len() as int) })
            }
        },
    }
}

} // verus!

verus! {

/// Whether a key is the prefix key (see `prefix_matches`).
pub fn is_prefix_key(prefix: Option<(bool, bool, bool, char)>, key: KeyCode, mods: Modifiers) -> (b: bool)
    ensures
        b == prefix_matches(prefix, key, mods),
{
    match prefix {
        Some((c, a, s, k)) => {
            if mods.ctrl == c && mods.alt == a && mods.shift == s {
                match key {
                    KeyCode::Character(ch) => {
                        let mut one: Vec<char> = Vec::new();
                        one.push(ch);
                        let text = string_from_chars(one.as_slice());
                        proof { assert(text@ =~= seq![ch]); }
                        let lower = to_lowercase(text.as_str());
                        let l = chars_of(lower.as_str());
                        l.len() > 0 && l[0] == k
                    }
                    _ => false,
                }
            } else {
                false
            }
        }
        None => false,
    }
}

impl FrontEnd {
    /// The state a window starts in: no prefix, no copy mode, no zoom, no
    /// selection.
    pub fn new() -> (f: FrontEnd)
        ensures
            !f.prefix_active && f.prefix_time.is_none(),
            !f.copy_mode && f.copy_mode_cursor == (0u16, 0u16),
            !f.pane_zoomed && !f.should_exit,
            f.selection.selection.is_none(),
            !f.mouse_pressed,
    {
        FrontEnd {
            prefix_active: false,
            prefix_time: None,
            copy_mode: false,
            copy_mode_cursor: (0, 0),
            pane_zoomed: false,
            should_exit: false,
            selection: SelectionManager::new(),
            mouse_pressed: false,
        }
    }

    /// A key in copy mode, over the active pane's grid (none without a
    /// pane); returns the text to copy, if the key yanked some.
    pub fn copy_mode_input(&mut self, key: KeyCode, grid: Option<&Grid>) -> (text: Option<String>)
        requires
            grid matches Some(g) ==> g.wf(),
        ensures
            copy_mode_effect(*old(self), match grid { Some(g) => Some(*g), None => None }, key, *final(self), text),
    {
        let max: (u16, u16) = match grid {
            Some(g) => (if g.cols() > 0 { g.cols() - 1 } else { 0 }, if g.lines() > 0 { g.lines() - 1 } else { 0 }),
            None => (79, 23),
        };
        let (cursor, cmd) = copy_mode_key(self.copy_mode_cursor, key, max);
        self.copy_mode_cursor = cursor;
        let mut text: Option<String> = None;
        match cmd {
            CopyModeCommand::Move => {}
            CopyModeCommand::StartSelection => {
                self.selection.start_normal(cursor.0, cursor.1);
            }
            CopyModeCommand::Yank => {
                match grid {
                    Some(g) => {
                        text = self.selection.extract_text(g);
                    }
                    None => {}
                }
                self.copy_mode = false;
                self.selection.clear();
            }
            CopyModeCommand::Exit => {
                self.copy_mode = false;
                self.selection.clear();
            }
        }
        self.selection.update(cursor.0, cursor.1);
        text
    }
}

} // verus!

verus! {

/// The session has room for the ids a command takes: a new window takes a
/// window id and a pane id, a split a pane id.
pub open spec fn room_for(a: PrefixAction, s: Session) -> bool {
    match a {
        PrefixAction::NewWindow => s.next_window_id < u32::MAX && s.next_pane_id < u32::MAX,
        PrefixAction::SplitHorizontal | PrefixAction::SplitVertical => s.next_pane_id < u32::MAX,
        _ => true,
    }
}

impl FrontEnd {
    /// Carry out a prefix command on the session (see `prefix_effect`).
    pub fn execute_prefix_action(&mut self, session: &mut Session, action: PrefixAction) -> (out: KeyOutcome)
        requires
            old(session).wf(),
            room_for(action, *old(session)),
        ensures
            final(session).wf(),
            prefix_effect(action, *old(session), *final(session), *old(self), *final(self), out),
    {
        match action {
            PrefixAction::NewWindow => {
                let pane_id = PaneId::new(session.next_pane_id);
                let _ = session.create_window("new".to_string());
                let last = session.windows.len() - 1;
                let _ = session.set_active_window(last);
                KeyOutcome::Spawn(pane_id)
            }
            PrefixAction::SplitHorizontal => {
                match session.split_pane(SplitDirection::Horizontal) {
                    Some(id) => KeyOutcome::Spawn(id),
                    None => KeyOutcome::Done,
                }
            }
            PrefixAction::SplitVertical => {
                match session.split_pane(SplitDirection::Vertical) {
                    Some(id) => KeyOutcome::Spawn(id),
                    None => KeyOutcome::Done,
                }
            }
            PrefixAction::NextWindow => {
                session.focus_next_window();
                KeyOutcome::Done
            }
            PrefixAction::PrevWindow => {
                session.focus_prev_window();
                KeyOutcome::Done
            }
            PrefixAction::SelectWindow(i) => {
                let _ = session.set_active_window(i);
                KeyOutcome::Done
            }
            PrefixAction::ClosePane => {
                match session.close_active_pane() {
                    Some(id) => KeyOutcome::Closed(id),
                    None => KeyOutcome::Done,
                }
            }
            PrefixAction::Detach => {
                self.should_exit = true;
                KeyOutcome::Done
            }
            PrefixAction::ZoomPane => {
                self.pane_zoomed = !self.pane_zoomed;
                KeyOutcome::Done
            }
            PrefixAction::CopyMode => {
                self.copy_mode = true;
                match session.active_pane() {
                    Some(p) => {
                        let c = p.terminal().cursor();
                        self.copy_mode_cursor = (c.col, c.line);
                        self.selection.start_normal(c.col, c.line);
                    }
                    None => {}
                }
                KeyOutcome::Done
            }
            PrefixAction::FocusPaneUp | PrefixAction::FocusPaneLeft => {
                session.focus_pane(true);
                KeyOutcome::Done
            }
            PrefixAction::FocusPaneDown | PrefixAction::FocusPaneRight => {
                session.focus_pane(false);
                KeyOutcome::Done
            }
        }
    }
}

} // verus!

verus! {

/// Which way a key goes.
pub enum KeyPath {
    /// A copy-mode key.
    CopyMode,
    /// A scrollback key.
    Scroll(ViewportMove),
    /// The prefix key.
    Arm,
    /// A command after the prefix.
    Command(PrefixAction),
    /// Ctrl+Shift+`c`: copy the selection.
    CopySelection,
    /// Ctrl+Shift+`v`: paste.
    Paste,
    /// A key for the program.
    Send,
    /// A key with nowhere to go.
    Ignore,
}

/// The text an outcome copies.
pub open spec fn copied(out: KeyOutcome) -> Option<String> {
    match out {
        KeyOutcome::Copy(t) => Some(t),
        _ => None,
    }
}

/// The way a key goes: in copy mode it is a copy-mode key; else a
/// scrollback key scrolls the active pane; else the prefix key arms the
/// prefix; else after the prefix a command key runs its command; else
/// Ctrl+Shift+`c` copies and Ctrl+Shift+`v` pastes; else the key goes to the
/// active pane's program.
pub open spec fn key_path(f: FrontEnd, s: Session, key: KeyCode, mods: Modifiers, prefix: Option<(bool, bool, bool, char)>) -> KeyPath {
    if f.copy_mode {
        KeyPath::CopyMode
    } else if has_active_pane(s) && scrollback_move(key, mods, active_pane_of(s).terminal.modes.alternate_screen,
        active_pane_of(s).terminal.grid.lines as usize) is Some {
        KeyPath::Scroll(scrollback_move(key, mods, active_pane_of(s).terminal.modes.alternate_screen,
            active_pane_of(s).terminal.grid.lines as usize)->0)
    } else if prefix_matches(prefix, key, mods) {
        KeyPath::Arm
    } else if f.prefix_active && prefix_command(key) is Some {
        KeyPath::Command(prefix_command(key)->0)
    } else if mods.ctrl && !mods.alt && mods.shift && key == KeyCode::Character('c') {
        KeyPath::CopySelection
    } else if mods.ctrl && !mods.alt && mods.shift && key == KeyCode::Character('v') {
        KeyPath::Paste
    } else if has_active_pane(s) {
        KeyPath::Send
    } else {
        KeyPath::Ignore
    }
}

/// The front end after the prefix was looked at: a pending prefix is used
/// up by the next key that is not itself the prefix.
pub open spec fn after_prefix(f: FrontEnd) -> FrontEnd {
    if f.prefix_active { prefix_cleared(f) } else { f }
}

/// What the key handler may be asked: a key that copies the selection needs
/// an active pane, and a command that makes a pane needs room for its ids.
pub open spec fn key_allowed(f: FrontEnd, s: Session, key: KeyCode, mods: Modifiers, prefix: Option<(bool, bool, bool, char)>) -> bool {
    match key_path(f, s, key, mods, prefix) {
        KeyPath::CopySelection => has_active_pane(s),
        KeyPath::Command(a) => room_for(a, s),
        _ => true,
    }
}

/// What a key does (see `key_path`).
pub open spec fn key_effect(f0: FrontEnd, s0: Session, key: KeyCode, mods: Modifiers, now: u128,
    prefix: Option<(bool, bool, bool, char)>, f1: FrontEnd, s1: Session, out: KeyOutcome) -> bool
{
    match key_path(f0, s0, key, mods, prefix) {
        KeyPath::CopyMode => {
            let grid = if has_active_pane(s0) { Some(active_pane_of(s0).terminal.grid) } else { None };
            &&& s1 == s0
            &&& (out is Done || out is Copy)
            &&& copy_mode_effect(f0, grid, key, f1, copied(out))
        },
        KeyPath::Scroll(m) => {
            &&& f1 == f0 && out == KeyOutcome::Done
            &&& with_active_pane(s0, s1, pane_with_offset(active_pane_of(s0), offset_after(m, active_pane_of(s0).terminal) as usize))
        },
        KeyPath::Arm => f1 == (FrontEnd { prefix_active: true, prefix_time: Some(now), ..f0 })
            && out == KeyOutcome::Done && view_reset(s0, s1),
        KeyPath::Command(a) => exists|mid: Session| view_reset(s0, mid) && prefix_effect(a, mid, s1, prefix_cleared(f0), f1, out),
        KeyPath::CopySelection => {
            let g = active_pane_of(s0).terminal.grid;
            &&& f1 == after_prefix(f0) && view_reset(s0, s1)
            &&& match active_selection(f0.selection) {
                Some(sel) => out matches KeyOutcome::Copy(t) && t@ == selection_text(sel, g.view_rows(), g.cols as int, g.lines as int),
                None => out == KeyOutcome::Done,
            }
        },
        KeyPath::Paste => f1 == after_prefix(f0) && view_reset(s0, s1) && out == KeyOutcome::Paste,
        KeyPath::Send => f1 == after_prefix(f0) && view_reset(s0, s1)
            && (out matches KeyOutcome::Write(b) && b@ == key_bytes(key, active_pane_of(s0).keyboard.application_cursor, mods)),
        KeyPath::Ignore => f1 == after_prefix(f0) && view_reset(s0, s1) && out == KeyOutcome::Done,
    }
}

/// Resetting the view keeps the active pane, but for its view.
proof fn lemma_view_reset_pane(s0: Session, s1: Session)
    requires
        s0.wf(),
        view_reset(s0, s1),
    ensures
        has_active_pane(s1) == has_active_pane(s0),
        has_active_pane(s0) ==> active_pane_of(s1) == pane_with_offset(active_pane_of(s0), 0),
{
    if has_active_pane(s0) {
        let a = s0.active_window_idx as int;
        let w0 = s0.windows@[a];
        assert(w0.wf());
        if active_pane_of(s0).terminal.viewport_offset > 0 {
            let w1 = s1.windows@[a];
            assert(w1.panes@[w0.active_pane as int] == pane_with_offset(active_pane_of(s0), 0));
        } else {
            assert(pane_with_offset(active_pane_of(s0), 0) == active_pane_of(s0));
        }
    }
}

/// The active pane of a well-formed session is well formed.
proof fn lemma_active_pane_wf(s: Session)
    requires
        s.wf(),
        has_active_pane(s),
    ensures
        active_pane_of(s).wf(),
        active_pane_of(s).terminal.grid.wf(),
{
    let w = s.windows@[s.active_window_idx as int];
    assert(w.wf());
    assert(w.panes@[w.active_pane as int].wf());
}

/// Replacing the active pane by one with its id keeps a session well formed.
proof fn lemma_with_active_pane_wf(s0: Session, s1: Session, p: Pane)
    requires
        s0.wf(),
        has_active_pane(s0),
        with_active_pane(s0, s1, p),
        p.wf(),
        p.id == active_pane_of(s0).id,
    ensures
        s1.wf(),
{
    let a = s0.active_window_idx as int;
    let ow = s0.windows@;
    let ws = s1.windows@;
    let ap = ow[a].active_pane as int;
    assert(ow[a].wf());
    assert forall|w: int, k: int| 0 <= w < ws.len() && 0 <= k < ws[w].panes@.len()
        implies #[trigger] ws[w].panes@[k].id == ow[w].panes@[k].id by {
        if w != a { assert(ws[w] == ow[w]); }
    }
    assert forall|w: int| 0 <= w < ws.len() implies #[trigger] ws[w].wf() by {
        if w != a {
            assert(ws[w] == ow[w]);
        } else {
            assert forall|k: int| 0 <= k < ws[w].panes@.len() implies #[trigger] ws[w].panes@[k].wf() by {
                if k != ap { assert(ws[w].panes@[k] == ow[w].panes@[k]); }
            }
            assert forall|i: int, j: int| 0 <= i < ws[w].panes@.len() && 0 <= j < ws[w].panes@.len() && i != j
                implies #[trigger] ws[w].panes@[i].id != #[trigger] ws[w].panes@[j].id by {
                assert(ws[w].panes@[i].id == ow[w].panes@[i].id);
                assert(ws[w].panes@[j].id == ow[w].panes@[j].id);
            }
        }
    }
    assert forall|x: int, y: int| 0 <= x < y < ws.len() implies #[trigger] ws[x].id.0 < #[trigger] ws[y].id.0 by {
        assert(ws[x].id == ow[x].id);
        assert(ws[y].id == ow[y].id);
    }
    assert forall|x: int| 0 <= x < ws.len() implies #[trigger] ws[x].id.0 < s1.next_window_id by {
        assert(ws[x].id == ow[x].id);
    }
    assert forall|w: int, k: int| 0 <= w < ws.len() && 0 <= k < ws[w].panes@.len()
        implies #[trigger] ws[w].panes@[k].id.0 < s1.next_pane_id by {
        assert(ws[w].panes@[k].id == ow[w].panes@[k].id);
        assert(ow[w].panes@[k].id.0 < s0.next_pane_id);
    }
    assert forall|w1: int, k1: int, w2: int, k2: int|
        0 <= w1 < ws.len() && 0 <= w2 < ws.len() && w1 != w2
        && 0 <= k1 < ws[w1].panes@.len() && 0 <= k2 < ws[w2].panes@.len()
        implies #[trigger] ws[w1].panes@[k1].id != #[trigger] ws[w2].panes@[k2].id by {
        assert(ws[w1].panes@[k1].id == ow[w1].panes@[k1].id);
        assert(ws[w2].panes@[k2].id == ow[w2].panes@[k2].id);
        assert(ow[w1].panes@[k1].id != ow[w2].panes@[k2].id);
    }
}

/// Whether the session has an active pane.
fn has_active_pane_exec(s: &Session) -> (b: bool)
    requires
        s.wf(),
    ensures
        b == has_active_pane(*s),
{
    s.active_pane().is_some()
}

impl FrontEnd {
    /// Bring the active pane's view back to the live screen.
    fn reset_view(session: &mut Session)
        requires
            old(session).wf(),
        ensures
            final(session).wf(),
            view_reset(*old(session), *final(session)),
    {
        let viewing = match session.active_pane() {
            Some(p) => p.terminal().is_viewing_scrollback(),
            None => false,
        };
        if viewing {
            let ghost s0 = *session;
            match session.active_pane_mut() {
                Some(p) => {
                    p.terminal_mut().reset_viewport();
                }
                None => {}
            }
            proof {
                lemma_active_pane_wf(s0);
                lemma_with_active_pane_wf(s0, *session, pane_with_offset(active_pane_of(s0), 0));
            }
        }
    }

    /// Handle a key press: `key` with `mods` at time `now` (nanoseconds on
    /// the owner's clock), the prefix key being `prefix` (see `key_path` and
    /// `key_effect`).
    pub fn handle_key(&mut self, session: &mut Session, key: KeyCode, mods: Modifiers, now: u128,
        prefix: Option<(bool, bool, bool, char)>) -> (out: KeyOutcome)
        requires
            old(session).wf(),
            key_allowed(*old(self), *old(session), key, mods, prefix),
        ensures
            final(session).wf(),
            key_effect(*old(self), *old(session), key, mods, now, prefix, *final(self), *final(session), out),
    {
        if has_active_pane_exec(session) {
            proof { lemma_active_pane_wf(*session); }
        }
        if self.copy_mode {
            let ghost g = if has_active_pane(*session) { Some(active_pane_of(*session).terminal.grid) } else { None };
            let text = match session.active_pane() {
                Some(p) => self.copy_mode_input(key, Some(p.terminal().grid())),
                None => self.copy_mode_input(key, None),
            };
            assert(copy_mode_effect(*old(self), g, key, *self, text));
            let out = match text {
                Some(t) => KeyOutcome::Copy(t),
                None => KeyOutcome::Done,
            };
            return out;
        }
        let scroll: Option<ViewportMove> = match session.active_pane() {
            Some(p) => scrollback_key(key, mods, p.terminal().is_alternate_screen(), p.terminal().grid().lines() as usize),
            None => None,
        };
        match scroll {
            Some(m) => {
                let ghost s0 = *session;
                match session.active_pane_mut() {
                    Some(p) => {
                        let t = p.terminal_mut();
                        match m {
                            ViewportMove::Up(n) => t.scroll_viewport_up(n),
                            ViewportMove::Down(n) => t.scroll_viewport_down(n),
                            ViewportMove::Top => t.scroll_viewport_to_top(),
                            ViewportMove::Bottom => t.scroll_viewport_to_bottom(),
                        }
                    }
                    None => {}
                }
                proof {
                    let p0 = active_pane_of(s0);
                    lemma_active_pane_wf(s0);
                    lemma_with_active_pane_wf(s0, *session, pane_with_offset(p0, offset_after(m, p0.terminal) as usize));
                }
                return KeyOutcome::Done;
            }
            None => {}
        }
        Self::reset_view(session);
        if is_prefix_key(prefix, key, mods) {
            self.prefix_active = true;
            self.prefix_time = Some(now);
            return KeyOutcome::Done;
        }
        if self.prefix_active {
            match self.prefix_time {
                Some(t) => {
                    if now >= t && now - t > 2_000_000_000 {
                        self.prefix_active = false;
                        self.prefix_time = None;
                    }
                }
                None => {}
            }
            let action = prefix_action(key);
            self.prefix_active = false;
            self.prefix_time = None;
            match action {
                Some(a) => {
                    return self.execute_prefix_action(session, a);
                }
                None => {}
            }
        }
        proof {
            lemma_view_reset_pane(*old(session), *session);
            if has_active_pane(*session) { lemma_active_pane_wf(*session); }
        }
        if mods.ctrl && !mods.alt && mods.shift && key == KeyCode::Character('c') {
            let text = match session.active_pane() {
                Some(p) => self.selection.extract_text(p.terminal().grid()),
                None => None,
            };
            return match text {
                Some(t) => KeyOutcome::Copy(t),
                None => KeyOutcome::Done,
            };
        }
        if mods.ctrl && !mods.alt && mods.shift && key == KeyCode::Character('v') {
            return KeyOutcome::Paste;
        }
        proof { lemma_view_reset_pane(*old(session), *session); }
        match session.active_pane() {
            Some(p) => match p.keyboard().key_to_bytes(key, &mods) {
                Some(b) => KeyOutcome::Write(b),
                None => KeyOutcome::Done,
            },
            None => KeyOutcome::Done,
        }
    }
}

} // verus!

verus! {

/// What the owner does after a mouse button.
pub enum MouseOutcome {
    /// Nothing more.
    Done,
    /// Open the link.
    OpenUrl(String),
    /// Paste the clipboard into the active pane's program, between
    /// bracketed-paste markers when `bracketed`.
    Paste { bracketed: bool },
}

/// The id of the link on the active pane's cell, if it is in the screen.
pub open spec fn link_id_at(s: Session, cell: (u16, u16)) -> u32 {
    let t = active_pane_of(s).terminal;
    if cell.0 < t.cols && cell.1 < t.rows { t.grid.cell_at(cell.0 as int, cell.1 as int).hyperlink_id } else { 0 }
}

/// What a mouse button does. With Ctrl, a left press on a link opens it
/// and does nothing else. Otherwise a left press holds the button, starts a
/// selection at the cell (with Shift, moves the selection's end there) and
/// brings the active pane's view back to the live screen; a left release
/// lets the button go; a middle press pastes (bracketed when the program
/// asked for it); a right press moves the selection's end to the cell.
pub open spec fn mouse_effect(f0: FrontEnd, s0: Session, button: MouseButton, pressed: bool, cell: (u16, u16),
    shift: bool, ctrl: bool, f1: FrontEnd, s1: Session, out: MouseOutcome) -> bool
{
    match (button, pressed) {
        (MouseButton::Left, true) => {
            ||| (out is OpenUrl && ctrl && has_active_pane(s0) && link_id_at(s0, cell) != 0 && f1 == f0 && s1 == s0)
            ||| (out == MouseOutcome::Done
                && !(ctrl && has_active_pane(s0) && (exists|i: int| 0 <= i < active_pane_of(s0).terminal.hyperlinks@.len()
                    && #[trigger] active_pane_of(s0).terminal.hyperlinks@[i].id == link_id_at(s0, cell)) && link_id_at(s0, cell) != 0)
                && f1 == (FrontEnd { mouse_pressed: true, selection: f1.selection, ..f0 })
                && f1.selection.selection == (if shift { moved_selection(f0.selection.selection, cell) } else {
                    Some(Selection { selection_type: SelectionType::Normal, anchor: Point { col: cell.0, line: cell.1 },
                        current: Point { col: cell.0, line: cell.1 }, active: true }) })
                && (if has_active_pane(s0) { with_active_pane(s0, s1, pane_with_offset(active_pane_of(s0), 0)) } else { s1 == s0 }))
        },
        (MouseButton::Left, false) => out == MouseOutcome::Done && s1 == s0 && f1 == (FrontEnd { mouse_pressed: false, ..f0 }),
        (MouseButton::Middle, true) => s1 == s0 && f1 == f0
            && out == (if has_active_pane(s0) { MouseOutcome::Paste { bracketed: active_pane_of(s0).keyboard.bracketed_paste } } else { MouseOutcome::Done }),
        (MouseButton::Right, true) => out == MouseOutcome::Done && s1 == s0
            && f1 == (FrontEnd { selection: SelectionManager { selection: moved_selection(f0.selection.selection, cell) }, ..f0 }),
        _ => out == MouseOutcome::Done && s1 == s0 && f1 == f0,
    }
}

impl FrontEnd {
    /// Handle a mouse button at the cell `cell` (see `mouse_effect`).
    pub fn handle_mouse_button(&mut self, session: &mut Session, button: MouseButton, pressed: bool, cell: (u16, u16),
        shift: bool, ctrl: bool) -> (out: MouseOutcome)
        requires
            old(session).wf(),
        ensures
            final(session).wf(),
            mouse_effect(*old(self), *old(session), button, pressed, cell, shift, ctrl, *final(self), *final(session), out),
    {
        if has_active_pane_exec(session) {
            proof { lemma_active_pane_wf(*session); }
        }
        match (button, pressed) {
            (MouseButton::Left, true) => {
                if ctrl {
                    let link = match session.active_pane() {
                        Some(p) => match p.terminal().get_cell_hyperlink(cell.0, cell.1) {
                            Some(h) => Some(h.url.as_str().to_string()),
                            None => None,
                        },
                        None => None,
                    };
                    match link {
                        Some(u) => {
                            return MouseOutcome::OpenUrl(u);
                        }
                        None => {}
                    }
                }
                self.mouse_pressed = true;
                if shift {
                    self.selection.update(cell.0, cell.1);
                } else {
                    self.selection.start_normal(cell.0, cell.1);
                }
                let ghost s0 = *session;
                if has_active_pane_exec(session) {
                    match session.active_pane_mut() {
                        Some(p) => {
                            p.terminal_mut().reset_viewport();
                        }
                        None => {}
                    }
                    proof {
                        lemma_with_active_pane_wf(s0, *session, pane_with_offset(active_pane_of(s0), 0));
                    }
                }
                MouseOutcome::Done
            }
            (MouseButton::Left, false) => {
                self.mouse_pressed = false;
                MouseOutcome::Done
            }
            (MouseButton::Middle, true) => {
                match session.active_pane() {
                    Some(p) => MouseOutcome::Paste { bracketed: p.keyboard().bracketed_paste },
                    None => MouseOutcome::Done,
                }
            }
            (MouseButton::Right, true) => {
                self.selection.update(cell.0, cell.1);
                MouseOutcome::Done
            }
            _ => MouseOutcome::Done,
        }
    }

    /// The mouse moved to the cell: while the left button is held, the
    /// selection's end follows it.
    pub fn handle_mouse_move(&mut self, cell: (u16, u16))
        ensures
            old(self).mouse_pressed ==> *final(self) == (FrontEnd {
                selection: SelectionManager { selection: moved_selection(old(self).selection.selection, cell) }, ..*old(self) }),
            !old(self).mouse_pressed ==> *final(self) == *old(self),
    {
        if self.mouse_pressed {
            self.selection.update(cell.0, cell.1);
        }
    }
}

} // verus!

verus! {

/// The active pane after its output was read: its bell taken, its keyboard
/// following the terminal's modes.
pub open spec fn pane_after_output(p: Pane) -> Pane {
    Pane {
        terminal: Terminal { pending_bell: None, ..p.terminal },
        keyboard: KeyboardHandler {
            application_cursor: p.terminal.modes.application_cursor,
            application_keypad: p.terminal.modes.application_keypad,
            bracketed_paste: p.terminal.modes.bracketed_paste,
        },
        ..p
    }
}

/// After output was read: take the active pane's pending bell (returning
/// whether there was one) and bring its keyboard in line with its
/// terminal's modes.
pub fn after_output(session: &mut Session) -> (rang: bool)
    requires
        old(session).wf(),
    ensures
        final(session).wf(),
        has_active_pane(*old(session)) ==> rang == active_pane_of(*old(session)).terminal.pending_bell.is_some()
            && with_active_pane(*old(session), *final(session), pane_after_output(active_pane_of(*old(session)))),
        !has_active_pane(*old(session)) ==> !rang && *final(session) == *old(session),
{
    if !has_active_pane_exec(session) {
        return false;
    }
    let ghost s0 = *session;
    proof { lemma_active_pane_wf(s0); }
    let mut rang = false;
    match session.active_pane_mut() {
        Some(p) => {
            rang = p.terminal_mut().take_pending_bell().is_some();
            let modes = *p.terminal().modes();
            p.keyboard_mut().sync_modes(&modes);
        }
        None => {}
    }
    proof {
        lemma_with_active_pane_wf(s0, *session, pane_after_output(active_pane_of(s0)));
    }
    rang
}

} // verus!

verus! {

impl FrontEnd {
    /// Whether `handle_key` can take the key (see `key_allowed`): the owner
    /// asks before handing it over.
    pub fn accepts_key(&self, session: &Session, key: KeyCode, mods: Modifiers, prefix: Option<(bool, bool, bool, char)>) -> (b: bool)
        requires
            session.wf(),
        ensures
            b == key_allowed(*self, *session, key, mods, prefix),
    {
        if self.copy_mode {
            return true;
        }
        let has_pane = has_active_pane_exec(session);
        if has_pane {
            proof { lemma_active_pane_wf(*session); }
        }
        let scroll: Option<ViewportMove> = match session.active_pane() {
            Some(p) => scrollback_key(key, mods, p.terminal().is_alternate_screen(), p.terminal().grid().lines() as usize),
            None => None,
        };
        if scroll.is_some() {
            return true;
        }
        if is_prefix_key(prefix, key, mods) {
            return true;
        }
        if self.prefix_active {
            match prefix_action(key) {
                Some(a) => {
                    return match a {
                        PrefixAction::NewWindow => session.next_window_id < u32::MAX && session.next_pane_id < u32::MAX,
                        PrefixAction::SplitHorizontal | PrefixAction::SplitVertical => session.next_pane_id < u32::MAX,
                        _ => true,
                    };
                }
                None => {}
            }
        }
        if mods.ctrl && !mods.alt && mods.shift && key == KeyCode::Character('c') {
            return has_pane;
        }
        true
    }
}

} // verus!
