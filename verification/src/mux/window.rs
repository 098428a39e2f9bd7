//! Windows (tabs): panes split off one another, one of them active.

use vstd::prelude::*;
use crate::mux::pane::{Pane, PaneId};
use crate::error::Result;
use crate::term::cell::ColorPalette;
use crate::term::terminal::Terminal;

verus! {

/// Unique identifier for a window within its session.
#[derive(Debug, Clone, Copy, PartialEq, Eq, Hash, Structural)]
pub struct WindowId(pub u32);

impl WindowId {
    pub fn new(id: u32) -> (w: WindowId)
        ensures
            w == WindowId(id),
    {
        WindowId(id)
    }
}

/// How a pane was split off the one before it.
#[derive(Debug, Clone, Copy, PartialEq, Eq, Structural)]
pub enum SplitDirection {
    Horizontal,
    Vertical,
}

/// A window.
pub struct Window {
    pub id: WindowId,
    pub name: String,
    /// The panes, in the order they were made.
    pub panes: Vec<Pane>,
    /// `splits[i]` is how pane `i + 1` was split off.
    pub splits: Vec<SplitDirection>,
    /// Index of the pane that has the focus.
    pub active_pane: usize,
}

/// No two of the panes share an id.
pub open spec fn pane_ids_distinct(panes: Seq<Pane>) -> bool {
    forall|i: int, j: int| 0 <= i < panes.len() && 0 <= j < panes.len() && i != j ==> #[trigger] panes[i].id != #[trigger] panes[j].id
}

/// Whether some pane has the id.
pub open spec fn has_pane(panes: Seq<Pane>, id: PaneId) -> bool {
    exists|i: int| 0 <= i < panes.len() && #[trigger] panes[i].id == id
}

/// The pane and its terminal have the size.
pub open spec fn resized(p: Pane, cols: u16, rows: u16) -> bool {
    p.cols == cols && p.rows == rows && p.terminal.cols == cols && p.terminal.rows == rows
}

/// The index after `i` among `n`, after the last the first.
pub open spec fn next_index(i: int, n: int) -> int {
    if n == 0 { 0 } else { (i + 1) % n }
}

/// The index before `i` among `n`, before the first the last.
pub open spec fn prev_index(i: int, n: int) -> int {
    if n == 0 { 0 } else if i == 0 { n - 1 } else { i - 1 }
}

/// Moving to the next index and then to the previous one comes back.
pub proof fn law_next_then_prev(i: int, n: int)
    requires
        0 <= i < n,
    ensures
        prev_index(next_index(i, n), n) == i,
        next_index(prev_index(i, n), n) == i,
{
    if i + 1 < n {
        assert((i + 1) % n == i + 1) by (nonlinear_arith) requires 0 <= i + 1 < n;
    } else {
        assert((i + 1) % n == 0) by (nonlinear_arith) requires i + 1 == n, n > 0;
    }
    if i == 0 {
        assert((n - 1 + 1) % n == 0) by (nonlinear_arith) requires n > 0;
    } else {
        assert((i - 1 + 1) % n == i) by (nonlinear_arith) requires 0 < i < n;
    }
}

/// The pane with its terminal given the palette.
pub open spec fn with_palette(p: Pane, palette: ColorPalette) -> Pane {
    Pane { terminal: Terminal { color_palette: palette, ..p.terminal }, ..p }
}

/// The layout after the active pane of `w0` closed (`remove_pane` on it):
/// the split of the pane that takes its place goes (the first split for the
/// first pane), and the focus stays at its index, or moves to the last pane
/// when that index is gone.
pub open spec fn pane_closed_layout(w0: Window, w1: Window) -> bool {
    let i = w0.active_pane as int;
    &&& w1.splits@ == (if w0.splits@.len() == 0 { w0.splits@ } else if i == 0 { w0.splits@.remove(0) } else { w0.splits@.remove(i - 1) })
    &&& w1.active_pane == (if w0.active_pane >= w1.panes@.len() && w1.panes@.len() > 0 { (w1.panes@.len() - 1) as usize }
        else if w1.panes@.len() == 0 { 0 } else { w0.active_pane })
}

impl Window {
    pub open spec fn wf(&self) -> bool {
        &&& self.panes@.len() > 0 ==> self.active_pane < self.panes@.len()
        &&& self.panes@.len() == 0 ==> self.active_pane == 0
        &&& self.panes@.len() > 0 ==> self.splits@.len() + 1 == self.panes@.len()
        &&& self.panes@.len() == 0 ==> self.splits@.len() == 0
        &&& forall|i: int| 0 <= i < self.panes@.len() ==> #[trigger] self.panes@[i].wf()
        &&& pane_ids_distinct(self.panes@)
    }

    /// A window holding one pane.
    pub fn new(id: WindowId, name: String, initial: Pane) -> (w: Window)
        requires
            initial.wf(),
        ensures
            w.wf(),
            w.id == id,
            w.name == name,
            w.panes@ == seq![initial],
            w.splits@.len() == 0,
            w.active_pane == 0,
    {
        let mut panes: Vec<Pane> = Vec::new();
        panes.push(initial);
        Window { id, name, panes, splits: Vec::new(), active_pane: 0 }
    }

    pub fn id(&self) -> (i: WindowId)
        ensures
            i == self.id,
    {
        self.id
    }

    pub fn name(&self) -> (n: &str)
        ensures
            n@ == self.name@,
    {
        self.name.as_str()
    }

    pub fn panes(&self) -> (p: &[Pane])
        ensures
            p@ == self.panes@,
    {
        self.panes.as_slice()
    }

    pub fn pane_count(&self) -> (n: usize)
        ensures
            n == self.panes@.len(),
    {
        self.panes.len()
    }

    /// How each pane after the first was split off.
    pub fn splits(&self) -> (s: &[SplitDirection])
        ensures
            s@ == self.splits@,
    {
        self.splits.as_slice()
    }

    /// The index of the pane with the focus.
    pub fn active_pane_index(&self) -> (i: usize)
        ensures
            i == self.active_pane,
    {
        self.active_pane
    }

    /// The pane with the focus; none when the window has no pane.
    pub fn active_pane(&self) -> (p: Option<&Pane>)
        requires
            self.wf(),
        ensures
            self.panes@.len() == 0 ==> p.is_none(),
            self.panes@.len() > 0 ==> p == Some(&self.panes@[self.active_pane as int]),
    {
        if self.active_pane < self.panes.len() {
            Some(&self.panes[self.active_pane])
        } else {
            None
        }
    }

    /// The pane with the focus, to change.
    pub fn active_pane_mut(&mut self) -> (p: Option<&mut Pane>)
        requires
            old(self).wf(),
        ensures
            old(self).panes@.len() == 0 ==> p.is_none() && *final(self) == *old(self),
            old(self).panes@.len() > 0 ==> p.is_some()
                && *p.unwrap() == old(self).panes@[old(self).active_pane as int]
                && final(self).panes@ == old(self).panes@.update(old(self).active_pane as int, *final(p.unwrap()))
                && final(self).active_pane == old(self).active_pane
                && final(self).splits == old(self).splits
                && final(self).id == old(self).id
                && final(self).name == old(self).name,
    {
        if self.active_pane < self.panes.len() {
            Some(&mut self.panes[self.active_pane])
        } else {
            None
        }
    }
    /// Where the pane with the id stands.
    pub fn position_of(&self, id: PaneId) -> (r: Option<usize>)
        ensures
            r matches Some(i) ==> i < self.panes@.len() && self.panes@[i as int].id == id,
            r is None ==> !has_pane(self.panes@, id),
    {
        let mut i: usize = 0;
        while i < self.panes.len()
            invariant
                i <= self.panes@.len(),
                forall|k: int| 0 <= k < i ==> self.panes@[k].id != id,
            decreases self.panes@.len() - i,
        {
            if self.panes[i].id == id {
                return Some(i);
            }
            i = i + 1;
        }
        None
    }

    /// The pane with the id, if the window holds it.
    pub fn pane(&self, id: PaneId) -> (p: Option<&Pane>)
        requires
            self.wf(),
        ensures
            !has_pane(self.panes@, id) ==> p.is_none(),
            has_pane(self.panes@, id) ==> (p matches Some(q) && q.id == id
                && exists|i: int| 0 <= i < self.panes@.len() && self.panes@[i] == *q),
    {
        match self.position_of(id) {
            Some(i) => Some(&self.panes[i]),
            None => None,
        }
    }

    /// The pane with the id, to change.
    pub fn pane_mut(&mut self, id: PaneId) -> (p: Option<&mut Pane>)
        requires
            old(self).wf(),
        ensures
            !has_pane(old(self).panes@, id) ==> p.is_none() && *final(self) == *old(self),
            has_pane(old(self).panes@, id) ==> p.is_some() && p.unwrap().id == id
                && exists|i: int| 0 <= i < old(self).panes@.len()
                    && old(self).panes@[i] == *p.unwrap()
                    && final(self).panes@ == old(self).panes@.update(i, *final(p.unwrap())),
            final(self).active_pane == old(self).active_pane,
            final(self).splits == old(self).splits,
            final(self).id == old(self).id,
            final(self).name == old(self).name,
    {
        match self.position_of(id) {
            Some(i) => Some(&mut self.panes[i]),
            None => None,
        }
    }

    /// Add a pane split off the others in `direction`; it takes the focus.
    /// In a window without panes it is the first, and no split is recorded.
    pub fn add_pane(&mut self, pane: Pane, direction: SplitDirection)
        requires
            old(self).wf(),
            pane.wf(),
            !has_pane(old(self).panes@, pane.id),
        ensures
            final(self).wf(),
            final(self).panes@ == old(self).panes@.push(pane),
            final(self).splits@ == (if old(self).panes@.len() == 0 { old(self).splits@ } else { old(self).splits@.push(direction) }),
            final(self).active_pane == old(self).panes@.len(),
            final(self).id == old(self).id,
            final(self).name == old(self).name,
    {
        if self.panes.len() > 0 {
            self.splits.push(direction);
        }
        self.panes.push(pane);
        self.active_pane = self.panes.len() - 1;
        assert(pane_ids_distinct(self.panes@)) by {
            assert forall|i: int, j: int| 0 <= i < self.panes@.len() && 0 <= j < self.panes@.len() && i != j
                implies #[trigger] self.panes@[i].id != #[trigger] self.panes@[j].id by {
                if i == self.panes@.len() - 1 {
                    assert(old(self).panes@[j] == self.panes@[j]);
                } else if j == self.panes@.len() - 1 {
                    assert(old(self).panes@[i] == self.panes@[i]);
                }
            }
        }
    }

    /// Remove the pane with the id; the split that made it goes with it (for
    /// the first pane, the split of the pane that takes its place). The focus
    /// stays at its index, or moves to the last pane when that index is gone.
    /// Returns whether the pane was there.
    pub fn remove_pane(&mut self, id: PaneId) -> (removed: bool)
        requires
            old(self).wf(),
        ensures
            final(self).wf(),
            removed == has_pane(old(self).panes@, id),
            !removed ==> *final(self) == *old(self),
            removed ==> exists|i: int| 0 <= i < old(self).panes@.len()
                && old(self).panes@[i].id == id
                && final(self).panes@ == old(self).panes@.remove(i)
                && final(self).splits@ == (if old(self).splits@.len() == 0 { old(self).splits@ }
                    else if i == 0 { old(self).splits@.remove(0) } else { old(self).splits@.remove(i - 1) }),
            removed ==> final(self).active_pane == (if old(self).active_pane >= final(self).panes@.len() && final(self).panes@.len() > 0 {
                (final(self).panes@.len() - 1) as usize } else if final(self).panes@.len() == 0 { 0 } else { old(self).active_pane }),
            final(self).id == old(self).id,
            final(self).name == old(self).name,
    {
        match self.position_of(id) {
            Some(i) => {
                let ghost old_panes = self.panes@;
                self.panes.remove(i);
                if self.splits.len() > 0 {
                    if i == 0 {
                        self.splits.remove(0);
                    } else {
                        self.splits.remove(i - 1);
                    }
                }
                if self.panes.len() == 0 {
                    self.active_pane = 0;
                } else if self.active_pane >= self.panes.len() {
                    self.active_pane = self.panes.len() - 1;
                }
                assert forall|k: int| 0 <= k < self.panes@.len() implies #[trigger] self.panes@[k].wf() by {
                    if k < i { assert(self.panes@[k] == old_panes[k]); } else { assert(self.panes@[k] == old_panes[k + 1]); }
                }
                assert(pane_ids_distinct(self.panes@)) by {
                    assert forall|a: int, b: int| 0 <= a < self.panes@.len() && 0 <= b < self.panes@.len() && a != b
                        implies #[trigger] self.panes@[a].id != #[trigger] self.panes@[b].id by {
                        let oa = if a < i { a } else { a + 1 };
                        let ob = if b < i { b } else { b + 1 };
                        assert(self.panes@[a] == old_panes[oa]);
                        assert(self.panes@[b] == old_panes[ob]);
                    }
                }
                true
            }
            None => false,
        }
    }

    /// Give the focus to the next pane, after the last the first.
    pub fn focus_next(&mut self)
        requires
            old(self).wf(),
        ensures
            final(self).wf(),
            final(self).active_pane == next_index(old(self).active_pane as int, old(self).panes@.len() as int),
            final(self).panes == old(self).panes,
            final(self).splits == old(self).splits,
            final(self).id == old(self).id,
            final(self).name == old(self).name,
    {
        if self.panes.len() > 0 {
            self.active_pane = (self.active_pane + 1) % self.panes.len();
        }
    }

    /// Give the focus to the previous pane, before the first the last.
    pub fn focus_prev(&mut self)
        requires
            old(self).wf(),
        ensures
            final(self).wf(),
            final(self).active_pane == prev_index(old(self).active_pane as int, old(self).panes@.len() as int),
            final(self).panes == old(self).panes,
            final(self).splits == old(self).splits,
            final(self).id == old(self).id,
            final(self).name == old(self).name,
    {
        if self.panes.len() > 0 {
            if self.active_pane == 0 {
                self.active_pane = self.panes.len() - 1;
            } else {
                self.active_pane = self.active_pane - 1;
            }
        }
    }
    /// Resize every pane.
    pub fn resize(&mut self, cols: u16, rows: u16) -> (r: Result<()>)
        requires
            old(self).wf(),
        ensures
            final(self).wf(),
            r.is_ok(),
            final(self).panes@.len() == old(self).panes@.len(),
            forall|k: int| 0 <= k < final(self).panes@.len() ==> #[trigger] resized(final(self).panes@[k], cols, rows),
            forall|k: int| 0 <= k < final(self).panes@.len() ==> #[trigger] final(self).panes@[k].id == old(self).panes@[k].id,
            final(self).active_pane == old(self).active_pane,
            final(self).splits == old(self).splits,
            final(self).id == old(self).id,
            final(self).name == old(self).name,
    {
        let mut i: usize = 0;
        while i < self.panes.len()
            invariant
                i <= self.panes@.len(),
                self.panes@.len() == old(self).panes@.len(),
                self.active_pane == old(self).active_pane,
                self.splits == old(self).splits,
                self.id == old(self).id,
                self.name == old(self).name,
                forall|k: int| 0 <= k < self.panes@.len() ==> #[trigger] self.panes@[k].wf(),
                forall|k: int| 0 <= k < self.panes@.len() ==> #[trigger] self.panes@[k].id == old(self).panes@[k].id,
                forall|k: int| 0 <= k < i ==> #[trigger] resized(self.panes@[k], cols, rows),
            decreases self.panes@.len() - i,
        {
            let _ = self.panes[i].resize(cols, rows);
            i = i + 1;
        }
        assert(pane_ids_distinct(self.panes@)) by {
            assert forall|a: int, b: int| 0 <= a < self.panes@.len() && 0 <= b < self.panes@.len() && a != b
                implies #[trigger] self.panes@[a].id != #[trigger] self.panes@[b].id by {
                assert(self.panes@[a].id == old(self).panes@[a].id);
                assert(self.panes@[b].id == old(self).panes@[b].id);
            }
        }
        Ok(())
    }
    /// Give every pane the palette.
    pub fn set_color_palette(&mut self, palette: ColorPalette)
        requires
            old(self).wf(),
        ensures
            final(self).wf(),
            final(self).panes@.len() == old(self).panes@.len(),
            forall|k: int| 0 <= k < final(self).panes@.len() ==> #[trigger] final(self).panes@[k] == with_palette(old(self).panes@[k], palette),
            final(self).active_pane == old(self).active_pane,
            final(self).splits == old(self).splits,
            final(self).id == old(self).id,
            final(self).name == old(self).name,
    {
        let mut i: usize = 0;
        while i < self.panes.len()
            invariant
                i <= self.panes@.len(),
                self.panes@.len() == old(self).panes@.len(),
                self.active_pane == old(self).active_pane,
                self.splits == old(self).splits,
                self.id == old(self).id,
                self.name == old(self).name,
                forall|k: int| 0 <= k < self.panes@.len() ==> #[trigger] self.panes@[k].wf(),
                forall|k: int| 0 <= k < i ==> #[trigger] self.panes@[k] == with_palette(old(self).panes@[k], palette),
                forall|k: int| i <= k < self.panes@.len() ==> #[trigger] self.panes@[k] == old(self).panes@[k],
            decreases self.panes@.len() - i,
        {
            self.panes[i].set_color_palette(palette);
            i = i + 1;
        }
        assert(pane_ids_distinct(self.panes@)) by {
            assert forall|a: int, b: int| 0 <= a < self.panes@.len() && 0 <= b < self.panes@.len() && a != b
                implies #[trigger] self.panes@[a].id != #[trigger] self.panes@[b].id by {
                assert(self.panes@[a] == with_palette(old(self).panes@[a], palette));
                assert(self.panes@[b] == with_palette(old(self).panes@[b], palette));
            }
        }
    }
}

} // verus!
