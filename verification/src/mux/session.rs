//! Sessions: windows of panes, one window active, with the defaults new
//! panes are made with.

use vstd::prelude::*;
use crate::text::{chars_of, concat_string, u64_to_decimal, decimal_digits, path_join, join_path};
use crate::mux::window::{Window, WindowId, SplitDirection, has_pane, resized, with_palette, next_index, prev_index,
    pane_closed_layout};
use crate::error::Result;
use crate::mux::pane::{Pane, PaneId};
use crate::term::cell::ColorPalette;

verus! {

/// Unique identifier for a session.
#[derive(Debug, Clone, Copy, PartialEq, Eq, Hash, Structural)]
pub struct SessionId(pub u32);

impl SessionId {
    pub fn new(id: u32) -> (s: SessionId)
        ensures
            s == SessionId(id),
    {
        SessionId(id)
    }

    /// `session:` and the number.
    pub fn to_string(&self) -> (s: String)
        ensures
            s@ == "session:"@ + decimal_digits(self.0 as nat),
    {
        let p = chars_of("session:");
        let d = u64_to_decimal(self.0 as u64);
        concat_string(p.as_slice(), d.as_slice())
    }
}

/// What is saved of a session.
#[derive(Debug)]
pub struct SessionState {
    pub id: u32,
    pub name: String,
    pub window_count: usize,
    pub window_names: Vec<String>,
    pub active_window_idx: usize,
    pub shell: String,
    pub cols: u16,
    pub rows: u16,
    pub scrollback: usize,
}

/// A session.
pub struct Session {
    pub id: SessionId,
    pub name: String,
    pub windows: Vec<Window>,
    pub active_window_idx: usize,
    /// The id the next pane gets; every pane made so far has a smaller one.
    pub next_pane_id: u32,
    /// The id the next window gets; every window made so far has a smaller one.
    pub next_window_id: u32,
    pub default_shell: String,
    pub default_cols: u16,
    pub default_rows: u16,
    pub scrollback: usize,
    /// The palette new panes are given.
    pub color_palette: Option<ColorPalette>,
}

/// The shell a session runs: the one `$SHELL` names, else `/bin/sh`.
pub open spec fn shell_or_default(env_shell: Option<Seq<char>>) -> Seq<char> {
    match env_shell {
        Some(s) => s,
        None => "/bin/sh"@,
    }
}

pub open spec fn windows_wf(ws: Seq<Window>) -> bool {
    forall|w: int| 0 <= w < ws.len() ==> #[trigger] ws[w].wf()
}

/// Windows stand in the order they were made: their ids increase, and all
/// are below `next`.
pub open spec fn window_ids_increasing(ws: Seq<Window>, next: u32) -> bool {
    &&& forall|a: int, b: int| 0 <= a < b < ws.len() ==> #[trigger] ws[a].id.0 < #[trigger] ws[b].id.0
    &&& forall|a: int| 0 <= a < ws.len() ==> #[trigger] ws[a].id.0 < next
}

/// Every pane's id is below `next`.
pub open spec fn pane_ids_below(ws: Seq<Window>, next: u32) -> bool {
    forall|w: int, k: int| 0 <= w < ws.len() && 0 <= k < ws[w].panes@.len() ==> #[trigger] ws[w].panes@[k].id.0 < next
}

/// Panes of different windows have different ids.
pub open spec fn pane_ids_apart(ws: Seq<Window>) -> bool {
    forall|w1: int, k1: int, w2: int, k2: int|
        0 <= w1 < ws.len() && 0 <= w2 < ws.len() && w1 != w2
        && 0 <= k1 < ws[w1].panes@.len() && 0 <= k2 < ws[w2].panes@.len()
        ==> #[trigger] ws[w1].panes@[k1].id != #[trigger] ws[w2].panes@[k2].id
}

/// The window has the shape it had: id, name, splits, focus, and its panes' ids.
pub open spec fn same_shape(nw: Window, ow: Window) -> bool {
    &&& nw.id == ow.id && nw.name == ow.name && nw.splits == ow.splits && nw.active_pane == ow.active_pane
    &&& nw.panes@.len() == ow.panes@.len()
    &&& forall|k: int| 0 <= k < nw.panes@.len() ==> #[trigger] nw.panes@[k].id == ow.panes@[k].id
}

/// The window has its shape and every pane has the size.
pub open spec fn window_resized(nw: Window, ow: Window, cols: u16, rows: u16) -> bool {
    &&& same_shape(nw, ow)
    &&& forall|k: int| 0 <= k < nw.panes@.len() ==> #[trigger] resized(nw.panes@[k], cols, rows)
}

/// Where session sockets and states are kept: `basilisk` in the runtime
/// directory, or in `/tmp`.
pub open spec fn socket_dir_of(runtime_dir: Option<Seq<char>>) -> Seq<char> {
    path_join(match runtime_dir { Some(d) => d, None => "/tmp"@ }, "basilisk"@)
}

/// Whether some window holds a pane with the id.
pub open spec fn session_has_pane(ws: Seq<Window>, id: PaneId) -> bool {
    exists|w: int| 0 <= w < ws.len() && #[trigger] has_pane(ws[w].panes@, id)
}

/// A pane as a session makes it: its program not started, the session's
/// size and scrollback, and the session's palette if it has one.
pub open spec fn fresh_pane(p: Pane, id: PaneId, cols: u16, rows: u16, scrollback: usize, palette: Option<ColorPalette>) -> bool {
    &&& p.wf()
    &&& p.id == id
    &&& p.cols == cols && p.rows == rows
    &&& p.terminal.cols == cols && p.terminal.rows == rows
    &&& p.terminal.grid.scrollback_limit == scrollback
    &&& !p.exited
    &&& (palette matches Some(c) ==> p.terminal.color_palette == c)
}

/// Removing a window keeps the session's invariants on its windows.
proof fn lemma_remove_window(ws: Seq<Window>, i: int, nw: u32, np: u32)
    requires
        0 <= i < ws.len(),
        windows_wf(ws),
        window_ids_increasing(ws, nw),
        pane_ids_below(ws, np),
        pane_ids_apart(ws),
    ensures
        windows_wf(ws.remove(i)),
        window_ids_increasing(ws.remove(i), nw),
        pane_ids_below(ws.remove(i), np),
        pane_ids_apart(ws.remove(i)),
{
    let r = ws.remove(i);
    assert forall|w: int| 0 <= w < r.len() implies #[trigger] r[w] == ws[if w < i { w } else { w + 1 }] by {}
    assert forall|w: int| 0 <= w < r.len() implies #[trigger] r[w].wf() by {
        assert(r[w] == ws[if w < i { w } else { w + 1 }]);
    }
    assert forall|a: int, b: int| 0 <= a < b < r.len() implies #[trigger] r[a].id.0 < #[trigger] r[b].id.0 by {
        assert(r[a] == ws[if a < i { a } else { a + 1 }]);
        assert(r[b] == ws[if b < i { b } else { b + 1 }]);
    }
    assert forall|a: int| 0 <= a < r.len() implies #[trigger] r[a].id.0 < nw by {
        assert(r[a] == ws[if a < i { a } else { a + 1 }]);
    }
    assert forall|w: int, k: int| 0 <= w < r.len() && 0 <= k < r[w].panes@.len() implies #[trigger] r[w].panes@[k].id.0 < np by {
        let ow = if w < i { w } else { w + 1 };
        assert(r[w] == ws[ow]);
        assert(ws[ow].panes@[k].id.0 < np);
    }
    assert forall|w1: int, k1: int, w2: int, k2: int|
        0 <= w1 < r.len() && 0 <= w2 < r.len() && w1 != w2
        && 0 <= k1 < r[w1].panes@.len() && 0 <= k2 < r[w2].panes@.len()
        implies #[trigger] r[w1].panes@[k1].id != #[trigger] r[w2].panes@[k2].id by {
        let o1 = if w1 < i { w1 } else { w1 + 1 };
        let o2 = if w2 < i { w2 } else { w2 + 1 };
        assert(r[w1] == ws[o1]);
        assert(r[w2] == ws[o2]);
        assert(ws[o1].panes@[k1].id != ws[o2].panes@[k2].id);
    }
}

impl Session {
    pub open spec fn wf(&self) -> bool {
        &&& windows_wf(self.windows@)
        &&& window_ids_increasing(self.windows@, self.next_window_id)
        &&& pane_ids_below(self.windows@, self.next_pane_id)
        &&& pane_ids_apart(self.windows@)
        &&& self.windows@.len() > 0 ==> self.active_window_idx < self.windows@.len()
        &&& self.windows@.len() == 0 ==> self.active_window_idx == 0
    }

    /// The window index of the window with the id.
    pub open spec fn window_index(&self, id: WindowId) -> Option<int> {
        if exists|i: int| 0 <= i < self.windows@.len() && self.windows@[i].id == id {
            Some(choose|i: int| 0 <= i < self.windows@.len() && self.windows@[i].id == id)
        } else {
            None
        }
    }

    /// An empty session: no windows, 80 by 24 cells, 10000 lines of
    /// scrollback, running the shell `$SHELL` names (`env_shell`) or `/bin/sh`.
    pub fn new(id: SessionId, name: String, env_shell: Option<String>) -> (s: Session)
        ensures
            s.wf(),
            s.id == id,
            s.name == name,
            s.windows@.len() == 0,
            s.active_window_idx == 0,
            s.next_pane_id == 1,
            s.next_window_id == 1,
            s.default_shell@ == shell_or_default(match env_shell { Some(e) => Some(e@), None => None }),
            s.default_cols == 80,
            s.default_rows == 24,
            s.scrollback == 10000,
            s.color_palette.is_none(),
    {
        let shell = match env_shell {
            Some(e) => e,
            None => "/bin/sh".to_string(),
        };
        Session {
            id,
            name,
            windows: Vec::new(),
            active_window_idx: 0,
            next_pane_id: 1,
            next_window_id: 1,
            default_shell: shell,
            default_cols: 80,
            default_rows: 24,
            scrollback: 10000,
            color_palette: None,
        }
    }

    /// A session of the given size with one window, `main`.
    pub fn with_window(id: SessionId, name: String, cols: u16, rows: u16, env_shell: Option<String>) -> (s: Session)
        ensures
            s.wf(),
            s.id == id,
            s.name == name,
            s.default_cols == cols,
            s.default_rows == rows,
            s.windows@.len() == 1,
            s.windows@[0].id == WindowId(1),
            s.windows@[0].name@ == "main"@,
            s.windows@[0].panes@.len() == 1,
            fresh_pane(s.windows@[0].panes@[0], PaneId(1), cols, rows, 10000, None),
            s.active_window_idx == 0,
            s.next_pane_id == 2,
            s.next_window_id == 2,
            s.default_shell@ == shell_or_default(match env_shell { Some(e) => Some(e@), None => None }),
    {
        let mut s = Session::new(id, name, env_shell);
        s.default_cols = cols;
        s.default_rows = rows;
        let _ = s.create_window("main".to_string());
        s
    }

    pub fn id(&self) -> (i: SessionId)
        ensures
            i == self.id,
    {
        self.id
    }

    pub fn name(&self) -> (n: &str)
        ensures
            n@ == self.name@,
    {
        self.name.as_str()
    }

    pub fn set_name(&mut self, name: &str)
        ensures
            final(self).name@ == name@,
            *final(self) == (Session { name: final(self).name, ..*old(self) }),
    {
        self.name = name.to_string();
    }

    pub fn windows(&self) -> (w: &[Window])
        ensures
            w@ == self.windows@,
    {
        self.windows.as_slice()
    }

    pub fn window_count(&self) -> (n: usize)
        ensures
            n == self.windows@.len(),
    {
        self.windows.len()
    }

    pub fn is_empty(&self) -> (b: bool)
        ensures
            b == (self.windows@.len() == 0),
    {
        self.windows.len() == 0
    }

    pub fn active_window_index(&self) -> (i: usize)
        ensures
            i == self.active_window_idx,
    {
        self.active_window_idx
    }

    /// The active window; none in a session without windows.
    pub fn active_window(&self) -> (w: Option<&Window>)
        requires
            self.wf(),
        ensures
            self.windows@.len() == 0 ==> w.is_none(),
            self.windows@.len() > 0 ==> w == Some(&self.windows@[self.active_window_idx as int]),
    {
        if self.active_window_idx < self.windows.len() {
            Some(&self.windows[self.active_window_idx])
        } else {
            None
        }
    }

    /// Make the window at `index` active; false, and nothing changes, when
    /// there is none there.
    pub fn set_active_window(&mut self, index: usize) -> (ok: bool)
        requires
            old(self).wf(),
        ensures
            final(self).wf(),
            ok == (index < old(self).windows@.len()),
            ok ==> *final(self) == (Session { active_window_idx: index, ..*old(self) }),
            !ok ==> *final(self) == *old(self),
    {
        if index < self.windows.len() {
            self.active_window_idx = index;
            true
        } else {
            false
        }
    }

    /// Where the window with the id stands.
    pub fn window_position(&self, id: WindowId) -> (r: Option<usize>)
        ensures
            r matches Some(i) ==> i < self.windows@.len() && self.windows@[i as int].id == id,
            r is None ==> forall|i: int| 0 <= i < self.windows@.len() ==> #[trigger] self.windows@[i].id != id,
    {
        let mut i: usize = 0;
        while i < self.windows.len()
            invariant
                i <= self.windows@.len(),
                forall|k: int| 0 <= k < i ==> #[trigger] self.windows@[k].id != id,
            decreases self.windows@.len() - i,
        {
            if self.windows[i].id == id {
                return Some(i);
            }
            i = i + 1;
        }
        None
    }

    /// Make the window with the id active; false, and nothing changes, when
    /// there is none.
    pub fn set_active_window_by_id(&mut self, id: WindowId) -> (ok: bool)
        requires
            old(self).wf(),
        ensures
            final(self).wf(),
            ok == (exists|i: int| 0 <= i < old(self).windows@.len() && #[trigger] old(self).windows@[i].id == id),
            ok ==> final(self).windows@[final(self).active_window_idx as int].id == id
                && *final(self) == (Session { active_window_idx: final(self).active_window_idx, ..*old(self) }),
            !ok ==> *final(self) == *old(self),
    {
        match self.window_position(id) {
            Some(i) => {
                self.active_window_idx = i;
                true
            }
            None => false,
        }
    }

    /// The window with the id.
    pub fn window(&self, id: WindowId) -> (w: Option<&Window>)
        ensures
            w matches Some(x) ==> x.id == id && exists|i: int| 0 <= i < self.windows@.len() && self.windows@[i] == *x,
            w is None ==> forall|i: int| 0 <= i < self.windows@.len() ==> #[trigger] self.windows@[i].id != id,
    {
        match self.window_position(id) {
            Some(i) => Some(&self.windows[i]),
            None => None,
        }
    }

    /// Give the focus to the next window, after the last the first.
    pub fn focus_next_window(&mut self)
        requires
            old(self).wf(),
        ensures
            final(self).wf(),
            final(self).active_window_idx == next_index(old(self).active_window_idx as int, old(self).windows@.len() as int),
            *final(self) == (Session { active_window_idx: final(self).active_window_idx, ..*old(self) }),
    {
        if self.windows.len() > 0 {
            self.active_window_idx = (self.active_window_idx + 1) % self.windows.len();
        }
    }

    /// Give the focus to the previous window, before the first the last.
    pub fn focus_prev_window(&mut self)
        requires
            old(self).wf(),
        ensures
            final(self).wf(),
            final(self).active_window_idx == prev_index(old(self).active_window_idx as int, old(self).windows@.len() as int),
            *final(self) == (Session { active_window_idx: final(self).active_window_idx, ..*old(self) }),
    {
        if self.windows.len() > 0 {
            if self.active_window_idx == 0 {
                self.active_window_idx = self.windows.len() - 1;
            } else {
                self.active_window_idx = self.active_window_idx - 1;
            }
        }
    }

    /// A new pane with the next id, the session's size, scrollback and palette.
    fn new_pane(&mut self) -> (p: Pane)
        requires
            old(self).next_pane_id < u32::MAX,
        ensures
            fresh_pane(p, PaneId(old(self).next_pane_id), old(self).default_cols, old(self).default_rows,
                old(self).scrollback, old(self).color_palette),
            *final(self) == (Session { next_pane_id: (old(self).next_pane_id + 1) as u32, ..*old(self) }),
    {
        let pane_id = PaneId::new(self.next_pane_id);
        self.next_pane_id = self.next_pane_id + 1;
        let mut pane = Pane::new(pane_id, self.default_cols, self.default_rows, self.scrollback);
        match self.color_palette {
            Some(palette) => pane.set_color_palette(palette),
            None => {}
        }
        pane
    }

    /// Add a window named `name` holding one new pane; returns its id. The
    /// pane's program is not started.
    pub fn create_window(&mut self, name: String) -> (id: WindowId)
        requires
            old(self).wf(),
            old(self).next_window_id < u32::MAX,
            old(self).next_pane_id < u32::MAX,
        ensures
            final(self).wf(),
            id == WindowId(old(self).next_window_id),
            final(self).windows@.len() == old(self).windows@.len() + 1,
            forall|i: int| 0 <= i < old(self).windows@.len() ==> #[trigger] final(self).windows@[i] == old(self).windows@[i],
            final(self).windows@.last().id == id,
            final(self).windows@.last().name == name,
            final(self).windows@.last().panes@.len() == 1,
            fresh_pane(final(self).windows@.last().panes@[0], PaneId(old(self).next_pane_id), old(self).default_cols,
                old(self).default_rows, old(self).scrollback, old(self).color_palette),
            final(self).next_window_id == old(self).next_window_id + 1,
            final(self).next_pane_id == old(self).next_pane_id + 1,
            final(self).active_window_idx == old(self).active_window_idx,
            final(self).id == old(self).id,
            final(self).name == old(self).name,
            final(self).default_shell == old(self).default_shell,
            final(self).default_cols == old(self).default_cols,
            final(self).default_rows == old(self).default_rows,
            final(self).scrollback == old(self).scrollback,
            final(self).color_palette == old(self).color_palette,
    {
        let window_id = WindowId::new(self.next_window_id);
        self.next_window_id = self.next_window_id + 1;
        let pane = self.new_pane();
        let window = Window::new(window_id, name, pane);
        self.windows.push(window);
        let ghost ws = self.windows@;
        let ghost n = ws.len() - 1;
        assert(windows_wf(ws)) by {
            assert forall|w: int| 0 <= w < ws.len() implies #[trigger] ws[w].wf() by {
                if w < n { assert(ws[w] == old(self).windows@[w]); }
            }
        }
        assert(window_ids_increasing(ws, self.next_window_id)) by {
            assert forall|a: int, b: int| 0 <= a < b < ws.len() implies #[trigger] ws[a].id.0 < #[trigger] ws[b].id.0 by {
                assert(ws[a] == old(self).windows@[a]);
                if b < n { assert(ws[b] == old(self).windows@[b]); }
            }
            assert forall|a: int| 0 <= a < ws.len() implies #[trigger] ws[a].id.0 < self.next_window_id by {
                if a < n { assert(ws[a] == old(self).windows@[a]); }
            }
        }
        assert(pane_ids_below(ws, self.next_pane_id)) by {
            assert forall|w: int, k: int| 0 <= w < ws.len() && 0 <= k < ws[w].panes@.len()
                implies #[trigger] ws[w].panes@[k].id.0 < self.next_pane_id by {
                if w < n { assert(ws[w] == old(self).windows@[w]); }
            }
        }
        assert(pane_ids_apart(ws)) by {
            assert forall|w1: int, k1: int, w2: int, k2: int|
                0 <= w1 < ws.len() && 0 <= w2 < ws.len() && w1 != w2
                && 0 <= k1 < ws[w1].panes@.len() && 0 <= k2 < ws[w2].panes@.len()
                implies #[trigger] ws[w1].panes@[k1].id != #[trigger] ws[w2].panes@[k2].id by {
                if w1 < n {
                    assert(ws[w1] == old(self).windows@[w1]);
                    assert(old(self).windows@[w1].panes@[k1].id.0 < old(self).next_pane_id);
                } else {
                    assert(ws[w1].panes@[k1].id.0 == old(self).next_pane_id);
                }
                if w2 < n {
                    assert(ws[w2] == old(self).windows@[w2]);
                    assert(old(self).windows@[w2].panes@[k2].id.0 < old(self).next_pane_id);
                } else {
                    assert(ws[w2].panes@[k2].id.0 == old(self).next_pane_id);
                }
            }
        }
        window_id
    }
    /// Close the window with the id; false, and nothing changes, when there
    /// is none. The active index stays unless it would point past the last
    /// window, then it moves to the last.
    pub fn close_window(&mut self, id: WindowId) -> (closed: bool)
        requires
            old(self).wf(),
        ensures
            final(self).wf(),
            closed == (exists|i: int| 0 <= i < old(self).windows@.len() && #[trigger] old(self).windows@[i].id == id),
            !closed ==> *final(self) == *old(self),
            closed ==> exists|i: int| 0 <= i < old(self).windows@.len() && #[trigger] old(self).windows@[i].id == id
                && final(self).windows@ == old(self).windows@.remove(i),
            closed ==> final(self).active_window_idx == (if old(self).active_window_idx >= final(self).windows@.len()
                && final(self).windows@.len() > 0 { (final(self).windows@.len() - 1) as usize } else { old(self).active_window_idx }),
            *final(self) == (Session { windows: final(self).windows, active_window_idx: final(self).active_window_idx, ..*old(self) }),
    {
        match self.window_position(id) {
            Some(i) => {
                self.windows.remove(i);
                proof { lemma_remove_window(old(self).windows@, i as int, self.next_window_id, self.next_pane_id); }
                if self.active_window_idx >= self.windows.len() && self.windows.len() > 0 {
                    self.active_window_idx = self.windows.len() - 1;
                }
                true
            }
            None => false,
        }
    }

    /// Split the active window's active pane: a new pane joins the active
    /// window and takes the focus; returns its id. The pane's id is used up
    /// even when there is no active window, and then nothing else changes.
    /// The pane's program is not started.
    pub fn split_pane(&mut self, direction: SplitDirection) -> (r: Option<PaneId>)
        requires
            old(self).wf(),
            old(self).next_pane_id < u32::MAX,
        ensures
            final(self).wf(),
            final(self).next_pane_id == old(self).next_pane_id + 1,
            old(self).windows@.len() == 0 ==> r.is_none()
                && *final(self) == (Session { next_pane_id: final(self).next_pane_id, ..*old(self) }),
            old(self).windows@.len() > 0 ==> {
                let a = old(self).active_window_idx as int;
                let w = final(self).windows@[a];
                &&& r == Some(PaneId(old(self).next_pane_id))
                &&& final(self).windows@.len() == old(self).windows@.len()
                &&& forall|i: int| 0 <= i < old(self).windows@.len() && i != a ==> #[trigger] final(self).windows@[i] == old(self).windows@[i]
                &&& w.panes@.len() == old(self).windows@[a].panes@.len() + 1
                &&& w.panes@.drop_last() == old(self).windows@[a].panes@
                &&& fresh_pane(w.panes@.last(), PaneId(old(self).next_pane_id), old(self).default_cols,
                        old(self).default_rows, old(self).scrollback, old(self).color_palette)
                &&& w.active_pane == old(self).windows@[a].panes@.len()
                &&& w.splits@ == (if old(self).windows@[a].panes@.len() == 0 { old(self).windows@[a].splits@ }
                        else { old(self).windows@[a].splits@.push(direction) })
                &&& w.id == old(self).windows@[a].id
                &&& w.name == old(self).windows@[a].name
                &&& *final(self) == (Session { windows: final(self).windows, next_pane_id: final(self).next_pane_id, ..*old(self) })
            },
    {
        let pane = self.new_pane();
        let pane_id = pane.id;
        if self.active_window_idx < self.windows.len() {
            let a = self.active_window_idx;
            proof {
                assert forall|k: int| 0 <= k < self.windows@[a as int].panes@.len()
                    implies #[trigger] self.windows@[a as int].panes@[k].id != pane_id by {
                    assert(self.windows@[a as int].panes@[k].id.0 < old(self).next_pane_id);
                }
            }
            self.windows[a].add_pane(pane, direction);
            proof {
                let ws = self.windows@;
                let ow = old(self).windows@;
                assert(windows_wf(ws)) by {
                    assert forall|w: int| 0 <= w < ws.len() implies #[trigger] ws[w].wf() by {
                        if w != a { assert(ws[w] == ow[w]); }
                    }
                }
                assert(window_ids_increasing(ws, self.next_window_id)) by {
                    assert forall|x: int, y: int| 0 <= x < y < ws.len() implies #[trigger] ws[x].id.0 < #[trigger] ws[y].id.0 by {
                        assert(ws[x].id == ow[x].id);
                        assert(ws[y].id == ow[y].id);
                    }
                    assert forall|x: int| 0 <= x < ws.len() implies #[trigger] ws[x].id.0 < self.next_window_id by {
                        assert(ws[x].id == ow[x].id);
                    }
                }
                assert(pane_ids_below(ws, self.next_pane_id)) by {
                    assert forall|w: int, k: int| 0 <= w < ws.len() && 0 <= k < ws[w].panes@.len()
                        implies #[trigger] ws[w].panes@[k].id.0 < self.next_pane_id by {
                        if w != a {
                            assert(ws[w] == ow[w]);
                            assert(ow[w].panes@[k].id.0 < old(self).next_pane_id);
                        } else if k < ow[a as int].panes@.len() {
                            assert(ws[w].panes@[k] == ow[w].panes@[k]);
                            assert(ow[w].panes@[k].id.0 < old(self).next_pane_id);
                        }
                    }
                }
                assert(pane_ids_apart(ws)) by {
                    assert forall|w1: int, k1: int, w2: int, k2: int|
                        0 <= w1 < ws.len() && 0 <= w2 < ws.len() && w1 != w2
                        && 0 <= k1 < ws[w1].panes@.len() && 0 <= k2 < ws[w2].panes@.len()
                        implies #[trigger] ws[w1].panes@[k1].id != #[trigger] ws[w2].panes@[k2].id by {
                        if w1 != a {
                            assert(ws[w1] == ow[w1]);
                            assert(ow[w1].panes@[k1].id.0 < old(self).next_pane_id);
                        } else if k1 < ow[a as int].panes@.len() {
                            assert(ws[w1].panes@[k1] == ow[w1].panes@[k1]);
                        }
                        if w2 != a {
                            assert(ws[w2] == ow[w2]);
                            assert(ow[w2].panes@[k2].id.0 < old(self).next_pane_id);
                        } else if k2 < ow[a as int].panes@.len() {
                            assert(ws[w2].panes@[k2] == ow[w2].panes@[k2]);
                        }
                        if w1 != a && w2 != a {
                            assert(ow[w1].panes@[k1].id != ow[w2].panes@[k2].id);
                        }
                    }
                }
                assert(self.windows@[a as int].panes@.drop_last() =~= ow[a as int].panes@);
            }
            Some(pane_id)
        } else {
            None
        }
    }

    pub fn set_shell(&mut self, shell: &str)
        ensures
            final(self).default_shell@ == shell@,
            *final(self) == (Session { default_shell: final(self).default_shell, ..*old(self) }),
    {
        self.default_shell = shell.to_string();
    }

    pub fn shell(&self) -> (s: &str)
        ensures
            s@ == self.default_shell@,
    {
        self.default_shell.as_str()
    }
    /// Make `cols` by `rows` the size of new panes and resize every pane.
    pub fn resize(&mut self, cols: u16, rows: u16) -> (r: Result<()>)
        requires
            old(self).wf(),
        ensures
            final(self).wf(),
            r.is_ok(),
            final(self).windows@.len() == old(self).windows@.len(),
            forall|w: int| 0 <= w < final(self).windows@.len() ==> #[trigger] window_resized(final(self).windows@[w], old(self).windows@[w], cols, rows),
            *final(self) == (Session { windows: final(self).windows, default_cols: cols, default_rows: rows, ..*old(self) }),
    {
        self.default_cols = cols;
        self.default_rows = rows;
        let mut i: usize = 0;
        while i < self.windows.len()
            invariant
                i <= self.windows@.len(),
                self.windows@.len() == old(self).windows@.len(),
                *self == (Session { windows: self.windows, default_cols: cols, default_rows: rows, ..*old(self) }),
                forall|w: int| 0 <= w < self.windows@.len() ==> #[trigger] self.windows@[w].wf(),
                forall|w: int| 0 <= w < self.windows@.len() ==> #[trigger] same_shape(self.windows@[w], old(self).windows@[w]),
                forall|w: int| 0 <= w < i ==> #[trigger] window_resized(self.windows@[w], old(self).windows@[w], cols, rows),
            decreases self.windows@.len() - i,
        {
            let ghost prev = self.windows@;
            proof {
                assert(same_shape(prev[i as int], old(self).windows@[i as int]));
            }
            let _ = self.windows[i].resize(cols, rows);
            proof {
                assert forall|w: int| 0 <= w < self.windows@.len() implies #[trigger] same_shape(self.windows@[w], old(self).windows@[w]) by {
                    if w != i { assert(self.windows@[w] == prev[w]); }
                }
                assert forall|w: int| 0 <= w < i + 1 implies #[trigger] window_resized(self.windows@[w], old(self).windows@[w], cols, rows) by {
                    if w != i { assert(self.windows@[w] == prev[w]); }
                }
            }
            i = i + 1;
        }
        proof {
            let ws = self.windows@;
            let ow = old(self).windows@;
            assert forall|x: int, y: int| 0 <= x < y < ws.len() implies #[trigger] ws[x].id.0 < #[trigger] ws[y].id.0 by {
                assert(same_shape(ws[x], ow[x]));
                assert(same_shape(ws[y], ow[y]));
            }
            assert forall|x: int| 0 <= x < ws.len() implies #[trigger] ws[x].id.0 < self.next_window_id by {
                assert(same_shape(ws[x], ow[x]));
            }
            assert forall|w: int, k: int| 0 <= w < ws.len() && 0 <= k < ws[w].panes@.len()
                implies #[trigger] ws[w].panes@[k].id.0 < self.next_pane_id by {
                assert(same_shape(ws[w], ow[w]));
                assert(ws[w].panes@[k].id == ow[w].panes@[k].id);
                assert(ow[w].panes@[k].id.0 < old(self).next_pane_id);
            }
            assert forall|w1: int, k1: int, w2: int, k2: int|
                0 <= w1 < ws.len() && 0 <= w2 < ws.len() && w1 != w2
                && 0 <= k1 < ws[w1].panes@.len() && 0 <= k2 < ws[w2].panes@.len()
                implies #[trigger] ws[w1].panes@[k1].id != #[trigger] ws[w2].panes@[k2].id by {
                assert(same_shape(ws[w1], ow[w1]));
                assert(same_shape(ws[w2], ow[w2]));
                assert(ws[w1].panes@[k1].id == ow[w1].panes@[k1].id);
                assert(ws[w2].panes@[k2].id == ow[w2].panes@[k2].id);
                assert(ow[w1].panes@[k1].id != ow[w2].panes@[k2].id);
            }
        }
        Ok(())
    }

    /// What is saved of the session.
    pub fn to_state(&self) -> (st: SessionState)
        ensures
            st.id == self.id.0,
            st.name@ == self.name@,
            st.window_count == self.windows@.len(),
            st.window_names@.len() == self.windows@.len(),
            forall|i: int| 0 <= i < self.windows@.len() ==> #[trigger] st.window_names@[i]@ == self.windows@[i].name@,
            st.active_window_idx == self.active_window_idx,
            st.shell@ == self.default_shell@,
            st.cols == self.default_cols,
            st.rows == self.default_rows,
            st.scrollback == self.scrollback,
    {
        let mut names: Vec<String> = Vec::new();
        let mut i: usize = 0;
        while i < self.windows.len()
            invariant
                i <= self.windows@.len(),
                names@.len() == i,
                forall|k: int| 0 <= k < i ==> #[trigger] names@[k]@ == self.windows@[k].name@,
            decreases self.windows@.len() - i,
        {
            names.push(self.windows[i].name().to_string());
            i = i + 1;
        }
        SessionState {
            id: self.id.0,
            name: self.name.as_str().to_string(),
            window_count: self.windows.len(),
            window_names: names,
            active_window_idx: self.active_window_idx,
            shell: self.default_shell.as_str().to_string(),
            cols: self.default_cols,
            rows: self.default_rows,
            scrollback: self.scrollback,
        }
    }

    /// The pane with the id and the window holding it.
    pub fn find_pane(&self, pane_id: PaneId) -> (r: Option<(&Window, &Pane)>)
        requires
            self.wf(),
        ensures
            r is None <==> !session_has_pane(self.windows@, pane_id),
            r matches Some((w, p)) ==> p.id == pane_id,
            r matches Some((w, p)) ==> exists|i: int, k: int| #![trigger self.windows@[i], w.panes@[k]]
                0 <= i < self.windows@.len() && self.windows@[i] == *w && 0 <= k < w.panes@.len() && w.panes@[k] == *p,
    {
        let mut i: usize = 0;
        while i < self.windows.len()
            invariant
                self.wf(),
                i <= self.windows@.len(),
                forall|w: int| 0 <= w < i ==> !#[trigger] has_pane(self.windows@[w].panes@, pane_id),
            decreases self.windows@.len() - i,
        {
            let w = &self.windows[i];
            match w.position_of(pane_id) {
                Some(k) => {
                    proof {
                        assert(has_pane(self.windows@[i as int].panes@, pane_id));
                        assert(0 <= i < self.windows@.len() && self.windows@[i as int] == *w
                            && 0 <= k < w.panes@.len() && w.panes@[k as int] == w.panes@[k as int]);
                    }
                    let pane = &w.panes[k];
                    assert(pane.id == pane_id);
                    let r = Some((w, pane));
                    assert(r matches Some((ww, pp)) && ww == w && pp == pane);
                    assert(self.windows@[i as int] == *w && w.panes@[k as int] == *pane);
                    return r;
                }
                None => {}
            }
            i = i + 1;
        }
        None
    }
    /// Give every pane the palette, and keep it for panes made later.
    pub fn apply_color_palette(&mut self, palette: &ColorPalette)
        requires
            old(self).wf(),
        ensures
            final(self).wf(),
            final(self).color_palette == Some(*palette),
            final(self).windows@.len() == old(self).windows@.len(),
            forall|w: int| 0 <= w < final(self).windows@.len() ==> #[trigger] same_shape(final(self).windows@[w], old(self).windows@[w]),
            forall|w: int, k: int| 0 <= w < final(self).windows@.len() && 0 <= k < final(self).windows@[w].panes@.len()
                ==> #[trigger] final(self).windows@[w].panes@[k] == with_palette(old(self).windows@[w].panes@[k], *palette),
            *final(self) == (Session { windows: final(self).windows, color_palette: Some(*palette), ..*old(self) }),
    {
        self.color_palette = Some(*palette);
        let mut i: usize = 0;
        while i < self.windows.len()
            invariant
                i <= self.windows@.len(),
                self.windows@.len() == old(self).windows@.len(),
                *self == (Session { windows: self.windows, color_palette: Some(*palette), ..*old(self) }),
                forall|w: int| 0 <= w < self.windows@.len() ==> #[trigger] self.windows@[w].wf(),
                forall|w: int| 0 <= w < self.windows@.len() ==> #[trigger] same_shape(self.windows@[w], old(self).windows@[w]),
                forall|w: int, k: int| 0 <= w < i && 0 <= k < self.windows@[w].panes@.len()
                    ==> #[trigger] self.windows@[w].panes@[k] == with_palette(old(self).windows@[w].panes@[k], *palette),
                forall|w: int| i <= w < self.windows@.len() ==> #[trigger] self.windows@[w] == old(self).windows@[w],
            decreases self.windows@.len() - i,
        {
            let ghost prev = self.windows@;
            self.windows[i].set_color_palette(*palette);
            proof {
                assert forall|w: int| 0 <= w < self.windows@.len() implies #[trigger] same_shape(self.windows@[w], old(self).windows@[w]) by {
                    if w != i {
                        assert(self.windows@[w] == prev[w]);
                    } else {
                        assert(prev[w] == old(self).windows@[w]);
                        assert forall|k: int| 0 <= k < self.windows@[w].panes@.len()
                            implies #[trigger] self.windows@[w].panes@[k].id == old(self).windows@[w].panes@[k].id by {
                            assert(self.windows@[w].panes@[k] == with_palette(prev[w].panes@[k], *palette));
                        }
                    }
                }
                assert forall|w: int, k: int| 0 <= w < i + 1 && 0 <= k < self.windows@[w].panes@.len()
                    implies #[trigger] self.windows@[w].panes@[k] == with_palette(old(self).windows@[w].panes@[k], *palette) by {
                    if w != i {
                        assert(self.windows@[w] == prev[w]);
                    } else {
                        assert(prev[w] == old(self).windows@[w]);
                    }
                }
                assert forall|w: int| i + 1 <= w < self.windows@.len() implies #[trigger] self.windows@[w] == old(self).windows@[w] by {
                    assert(self.windows@[w] == prev[w]);
                }
            }
            i = i + 1;
        }
        proof {
            let ws = self.windows@;
            let ow = old(self).windows@;
            assert forall|x: int, y: int| 0 <= x < y < ws.len() implies #[trigger] ws[x].id.0 < #[trigger] ws[y].id.0 by {
                assert(same_shape(ws[x], ow[x]));
                assert(same_shape(ws[y], ow[y]));
            }
            assert forall|x: int| 0 <= x < ws.len() implies #[trigger] ws[x].id.0 < self.next_window_id by {
                assert(same_shape(ws[x], ow[x]));
            }
            assert forall|w: int, k: int| 0 <= w < ws.len() && 0 <= k < ws[w].panes@.len()
                implies #[trigger] ws[w].panes@[k].id.0 < self.next_pane_id by {
                assert(same_shape(ws[w], ow[w]));
                assert(ws[w].panes@[k].id == ow[w].panes@[k].id);
                assert(ow[w].panes@[k].id.0 < old(self).next_pane_id);
            }
            assert forall|w1: int, k1: int, w2: int, k2: int|
                0 <= w1 < ws.len() && 0 <= w2 < ws.len() && w1 != w2
                && 0 <= k1 < ws[w1].panes@.len() && 0 <= k2 < ws[w2].panes@.len()
                implies #[trigger] ws[w1].panes@[k1].id != #[trigger] ws[w2].panes@[k2].id by {
                assert(same_shape(ws[w1], ow[w1]));
                assert(same_shape(ws[w2], ow[w2]));
                assert(ws[w1].panes@[k1].id == ow[w1].panes@[k1].id);
                assert(ws[w2].panes@[k2].id == ow[w2].panes@[k2].id);
                assert(ow[w1].panes@[k1].id != ow[w2].panes@[k2].id);
            }
        }
    }

    /// The active window, to change.
    pub fn active_window_mut(&mut self) -> (w: Option<&mut Window>)
        requires
            old(self).wf(),
        ensures
            old(self).windows@.len() == 0 ==> w.is_none() && *final(self) == *old(self),
            old(self).windows@.len() > 0 ==> w.is_some()
                && *w.unwrap() == old(self).windows@[old(self).active_window_idx as int]
                && final(self).windows@ == old(self).windows@.update(old(self).active_window_idx as int, *final(w.unwrap()))
                && *final(self) == (Session { windows: final(self).windows, ..*old(self) }),
    {
        if self.active_window_idx < self.windows.len() {
            Some(&mut self.windows[self.active_window_idx])
        } else {
            None
        }
    }

    /// The window with the id, to change.
    pub fn window_mut(&mut self, id: WindowId) -> (w: Option<&mut Window>)
        ensures
            w is None ==> *final(self) == *old(self)
                && forall|i: int| 0 <= i < old(self).windows@.len() ==> #[trigger] old(self).windows@[i].id != id,
            w is Some ==> w.unwrap().id == id && exists|i: int| 0 <= i < old(self).windows@.len()
                && old(self).windows@[i] == *w.unwrap()
                && final(self).windows@ == old(self).windows@.update(i, *final(w.unwrap()))
                && *final(self) == (Session { windows: final(self).windows, ..*old(self) }),
    {
        match self.window_position(id) {
            Some(i) => Some(&mut self.windows[i]),
            None => None,
        }
    }

    /// The windows, to change.
    pub fn windows_mut(&mut self) -> (w: &mut [Window])
        ensures
            w@ == old(self).windows@,
            final(self).windows@ == final(w)@,
            *final(self) == (Session { windows: final(self).windows, ..*old(self) }),
    {
        self.windows.as_mut_slice()
    }

    /// The active pane of the active window.
    pub fn active_pane(&self) -> (p: Option<&Pane>)
        requires
            self.wf(),
        ensures
            (self.windows@.len() == 0 || self.windows@[self.active_window_idx as int].panes@.len() == 0) ==> p.is_none(),
            self.windows@.len() > 0 && self.windows@[self.active_window_idx as int].panes@.len() > 0 ==> {
                let w = self.windows@[self.active_window_idx as int];
                p == Some(&w.panes@[w.active_pane as int])
            },
    {
        match self.active_window() {
            Some(w) => w.active_pane(),
            None => None,
        }
    }

    /// The active pane of the active window, to change.
    pub fn active_pane_mut(&mut self) -> (p: Option<&mut Pane>)
        requires
            old(self).wf(),
        ensures
            (old(self).windows@.len() == 0 || old(self).windows@[old(self).active_window_idx as int].panes@.len() == 0)
                ==> p.is_none() && final(self).windows@ == old(self).windows@
                    && *final(self) == (Session { windows: final(self).windows, ..*old(self) }),
            old(self).windows@.len() > 0 && old(self).windows@[old(self).active_window_idx as int].panes@.len() > 0 ==> {
                let a = old(self).active_window_idx as int;
                let ow = old(self).windows@[a];
                let nw = final(self).windows@[a];
                &&& p.is_some()
                &&& *p.unwrap() == ow.panes@[ow.active_pane as int]
                &&& final(self).windows@.len() == old(self).windows@.len()
                &&& forall|j: int| 0 <= j < old(self).windows@.len() && j != a ==> #[trigger] final(self).windows@[j] == old(self).windows@[j]
                &&& nw.panes@ == ow.panes@.update(ow.active_pane as int, *final(p.unwrap()))
                &&& nw.id == ow.id && nw.name == ow.name && nw.splits == ow.splits && nw.active_pane == ow.active_pane
                &&& *final(self) == (Session { windows: final(self).windows, ..*old(self) })
            },
    {
        if self.active_window_idx < self.windows.len() {
            let a = self.active_window_idx;
            self.windows[a].active_pane_mut()
        } else {
            None
        }
    }

    /// The pane with the id, to change.
    pub fn find_pane_mut(&mut self, pane_id: PaneId) -> (p: Option<&mut Pane>)
        requires
            old(self).wf(),
        ensures
            p is None <==> !session_has_pane(old(self).windows@, pane_id),
            p is None ==> *final(self) == *old(self),
            p is Some ==> p.unwrap().id == pane_id && exists|i: int, k: int| #![trigger old(self).windows@[i].panes@[k]] {
                let ow = old(self).windows@[i];
                let nw = final(self).windows@[i];
                &&& 0 <= i < old(self).windows@.len() && 0 <= k < ow.panes@.len()
                &&& ow.panes@[k] == *p.unwrap()
                &&& final(self).windows@.len() == old(self).windows@.len()
                &&& (forall|j: int| 0 <= j < old(self).windows@.len() && j != i ==> #[trigger] final(self).windows@[j] == old(self).windows@[j])
                &&& nw.panes@ == ow.panes@.update(k, *final(p.unwrap()))
                &&& nw.id == ow.id && nw.name == ow.name && nw.splits == ow.splits && nw.active_pane == ow.active_pane
                &&& *final(self) == (Session { windows: final(self).windows, ..*old(self) })
            },
    {
        let mut i: usize = 0;
        while i < self.windows.len()
            invariant
                i <= self.windows@.len(),
                *self == *old(self),
                self.wf(),
                forall|w: int| 0 <= w < i ==> !#[trigger] has_pane(self.windows@[w].panes@, pane_id),
            decreases self.windows@.len() - i,
        {
            match self.windows[i].position_of(pane_id) {
                Some(_) => {
                    proof {
                        assert(has_pane(self.windows@[i as int].panes@, pane_id));
                        assert(self.windows@[i as int].wf());
                    }
                    return self.windows[i].pane_mut(pane_id);
                }
                None => {}
            }
            i = i + 1;
        }
        None
    }
    /// The directory session sockets and states are kept in, for the
    /// runtime directory `runtime_dir` (`$XDG_RUNTIME_DIR`, which the caller
    /// reads): `basilisk` in it, or in `/tmp`.
    pub fn socket_dir(runtime_dir: Option<&str>) -> (s: String)
        ensures
            s@ == socket_dir_of(match runtime_dir { Some(d) => Some(d@), None => None }),
    {
        proof { reveal_strlit("basilisk"); }
        let base = match runtime_dir {
            Some(d) => d.to_string(),
            None => "/tmp".to_string(),
        };
        join_path(base.as_str(), "basilisk")
    }

    /// The file the session's state is saved in: `session-N.json` in the
    /// socket directory.
    pub fn state_path(&self, runtime_dir: Option<&str>) -> (s: String)
        ensures
            s@ == path_join(socket_dir_of(match runtime_dir { Some(d) => Some(d@), None => None }),
                "session-"@ + decimal_digits(self.id.0 as nat) + ".json"@),
    {
        let dir = Self::socket_dir(runtime_dir);
        let p = chars_of("session-");
        let d = u64_to_decimal(self.id.0 as u64);
        let a = concat_string(p.as_slice(), d.as_slice());
        let a = chars_of(a.as_str());
        let e = chars_of(".json");
        let name = concat_string(a.as_slice(), e.as_slice());
        proof {
            reveal_strlit("session-");
            assert(name@[0] == 's');
        }
        join_path(dir.as_str(), name.as_str())
    }
    /// Close the active pane of the active window; returns its id, or none
    /// when there is no active pane.
    pub fn close_active_pane(&mut self) -> (r: Option<PaneId>)
        requires
            old(self).wf(),
        ensures
            final(self).wf(),
            (old(self).windows@.len() == 0 || old(self).windows@[old(self).active_window_idx as int].panes@.len() == 0)
                ==> r is None && *final(self) == *old(self),
            old(self).windows@.len() > 0 && old(self).windows@[old(self).active_window_idx as int].panes@.len() > 0 ==> {
                let a = old(self).active_window_idx as int;
                let w0 = old(self).windows@[a];
                let w1 = final(self).windows@[a];
                &&& r == Some(w0.panes@[w0.active_pane as int].id)
                &&& final(self).windows@.len() == old(self).windows@.len()
                &&& forall|j: int| 0 <= j < old(self).windows@.len() && j != a ==> #[trigger] final(self).windows@[j] == old(self).windows@[j]
                &&& w1.panes@ == w0.panes@.remove(w0.active_pane as int)
                &&& pane_closed_layout(w0, w1)
                &&& w1.id == w0.id && w1.name == w0.name
                &&& *final(self) == (Session { windows: final(self).windows, ..*old(self) })
            },
    {
        if self.active_window_idx >= self.windows.len() {
            return None;
        }
        let a = self.active_window_idx;
        let ap = self.windows[a].active_pane;
        proof { assert(self.windows@[a as int].wf()); }
        if ap >= self.windows[a].panes.len() {
            return None;
        }
        let id = self.windows[a].panes[ap].id;
        let ghost ow = self.windows@;
        proof { assert(ow[a as int].wf()); }
        let removed = self.windows[a].remove_pane(id);
        proof {
            let w0 = ow[a as int];
            let w1 = self.windows@[a as int];
            assert(w0.panes@[ap as int].id == id);
            assert(has_pane(w0.panes@, id));
            let i = choose|i: int| 0 <= i < w0.panes@.len() && w0.panes@[i].id == id
                && w1.panes@ == w0.panes@.remove(i)
                && w1.splits@ == (if w0.splits@.len() == 0 { w0.splits@ } else if i == 0 { w0.splits@.remove(0) } else { w0.splits@.remove(i - 1) });
            if i != ap as int {
                assert(w0.panes@[i].id != w0.panes@[ap as int].id);
            }
            let ws = self.windows@;
            assert forall|w: int| 0 <= w < ws.len() implies #[trigger] ws[w].wf() by {
                if w != a { assert(ws[w] == ow[w]); }
            }
            assert forall|x: int, y: int| 0 <= x < y < ws.len() implies #[trigger] ws[x].id.0 < #[trigger] ws[y].id.0 by {
                assert(ws[x].id == ow[x].id);
                assert(ws[y].id == ow[y].id);
            }
            assert forall|x: int| 0 <= x < ws.len() implies #[trigger] ws[x].id.0 < self.next_window_id by {
                assert(ws[x].id == ow[x].id);
            }
            assert forall|w: int, k: int| 0 <= w < ws.len() && 0 <= k < ws[w].panes@.len()
                implies #[trigger] ws[w].panes@[k].id.0 < self.next_pane_id by {
                if w != a {
                    assert(ws[w] == ow[w]);
                    assert(ow[w].panes@[k].id.0 < self.next_pane_id);
                } else {
                    let ok = if k < i { k } else { k + 1 };
                    assert(ws[w].panes@[k] == ow[w].panes@[ok]);
                    assert(ow[w].panes@[ok].id.0 < self.next_pane_id);
                }
            }
            assert forall|w1: int, k1: int, w2: int, k2: int|
                0 <= w1 < ws.len() && 0 <= w2 < ws.len() && w1 != w2
                && 0 <= k1 < ws[w1].panes@.len() && 0 <= k2 < ws[w2].panes@.len()
                implies #[trigger] ws[w1].panes@[k1].id != #[trigger] ws[w2].panes@[k2].id by {
                let o1 = if w1 == a && k1 >= i { k1 + 1 } else { k1 };
                let o2 = if w2 == a && k2 >= i { k2 + 1 } else { k2 };
                if w1 != a { assert(ws[w1] == ow[w1]); } else { assert(ws[w1].panes@[k1] == ow[w1].panes@[o1]); }
                if w2 != a { assert(ws[w2] == ow[w2]); } else { assert(ws[w2].panes@[k2] == ow[w2].panes@[o2]); }
                assert(ow[w1].panes@[o1].id != ow[w2].panes@[o2].id);
            }
        }
        Some(id)
    }

    /// Give the focus in the active window to the previous pane (`back`)
    /// or the next one.
    pub fn focus_pane(&mut self, back: bool)
        requires
            old(self).wf(),
        ensures
            final(self).wf(),
            old(self).windows@.len() == 0 ==> *final(self) == *old(self),
            old(self).windows@.len() > 0 ==> {
                let a = old(self).active_window_idx as int;
                let w0 = old(self).windows@[a];
                let w1 = final(self).windows@[a];
                &&& final(self).windows@.len() == old(self).windows@.len()
                &&& forall|j: int| 0 <= j < old(self).windows@.len() && j != a ==> #[trigger] final(self).windows@[j] == old(self).windows@[j]
                &&& w1.panes == w0.panes && w1.id == w0.id && w1.name == w0.name && w1.splits == w0.splits
                &&& w1.active_pane == (if back { prev_index(w0.active_pane as int, w0.panes@.len() as int) }
                        else { next_index(w0.active_pane as int, w0.panes@.len() as int) })
                &&& *final(self) == (Session { windows: final(self).windows, ..*old(self) })
            },
    {
        if self.active_window_idx >= self.windows.len() {
            return;
        }
        let a = self.active_window_idx;
        let ghost ow = self.windows@;
        proof { assert(ow[a as int].wf()); }
        if back {
            self.windows[a].focus_prev();
        } else {
            self.windows[a].focus_next();
        }
        proof {
            let ws = self.windows@;
            assert forall|w: int| 0 <= w < ws.len() implies #[trigger] ws[w].wf() by {
                if w != a { assert(ws[w] == ow[w]); }
            }
            assert forall|x: int, y: int| 0 <= x < y < ws.len() implies #[trigger] ws[x].id.0 < #[trigger] ws[y].id.0 by {
                assert(ws[x].id == ow[x].id);
                assert(ws[y].id == ow[y].id);
            }
            assert forall|x: int| 0 <= x < ws.len() implies #[trigger] ws[x].id.0 < self.next_window_id by {
                assert(ws[x].id == ow[x].id);
            }
            assert forall|w: int, k: int| 0 <= w < ws.len() && 0 <= k < ws[w].panes@.len()
                implies #[trigger] ws[w].panes@[k].id.0 < self.next_pane_id by {
                assert(ws[w].panes == ow[w].panes);
                assert(ow[w].panes@[k].id.0 < self.next_pane_id);
            }
            assert forall|w1: int, k1: int, w2: int, k2: int|
                0 <= w1 < ws.len() && 0 <= w2 < ws.len() && w1 != w2
                && 0 <= k1 < ws[w1].panes@.len() && 0 <= k2 < ws[w2].panes@.len()
                implies #[trigger] ws[w1].panes@[k1].id != #[trigger] ws[w2].panes@[k2].id by {
                assert(ws[w1].panes == ow[w1].panes);
                assert(ws[w2].panes == ow[w2].panes);
                assert(ow[w1].panes@[k1].id != ow[w2].panes@[k2].id);
            }
        }
    }
}

} // verus!
