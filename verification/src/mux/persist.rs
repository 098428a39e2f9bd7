//! Session persistence: the plain-text form of a pane's lines, the saved
//! session records, and the external multiplexer a session may run under.

use vstd::prelude::*;
use crate::term::cell::Cell;
use crate::term::grid::{Grid, history_index};
use crate::text::{trim_end, string_from_chars, chars_of, concat_string, path_join, join_path, decimal_digits, u64_to_decimal};

verus! {

/// A saved line: its text with trailing white space removed.
#[derive(Debug, Clone)]
pub struct ScrollbackLine {
    /// Plain text content.
    pub text: String,
    /// Whether the line had formatting (only the raw text is stored).
    pub has_formatting: bool,
}

/// A pane's lines, saved.
#[derive(Debug, Clone)]
pub struct PaneScrollback {
    pub pane_id: u32,
    /// Scrollback lines (most recent first), then the screen lines.
    pub lines: Vec<ScrollbackLine>,
    pub cursor_row: u16,
    pub cursor_col: u16,
}

/// The characters of a row of cells.
pub open spec fn cells_text(cells: Seq<Cell>) -> Seq<char> {
    cells.map_values(|c: Cell| c.c)
}

/// The saved text of a pane: each scrollback row from the most recent back,
/// then each screen row top to bottom, trailing white space trimmed.
pub open spec fn saved_lines(scrollback: Seq<Seq<Cell>>, screen: Seq<Seq<Cell>>) -> Seq<Seq<char>> {
    Seq::new(scrollback.len(), |i: int| trim_end(cells_text(scrollback[history_index(scrollback.len() as int, i)])))
        + Seq::new(screen.len(), |i: int| trim_end(cells_text(screen[i])))
}

fn row_text(cells: &[Cell]) -> (s: String)
    ensures
        s@ == trim_end(cells_text(cells@)),
{
    let mut v: Vec<char> = Vec::new();
    let mut i: usize = 0;
    while i < cells.len()
        invariant
            i <= cells@.len(),
            v@ == cells_text(cells@.subrange(0, i as int)),
        decreases cells@.len() - i,
    {
        v.push(cells[i].c);
        i += 1;
        proof {
            assert(v@ =~= cells_text(cells@.subrange(0, i as int)));
        }
    }
    proof {
        assert(cells@.subrange(0, cells@.len() as int) =~= cells@);
        assert(v@.subrange(0, v@.len() as int) =~= v@);
    }
    let mut end: usize = v.len();
    while end > 0 && crate::text::is_white_space_exec(v[end - 1])
        invariant
            end <= v@.len(),
            trim_end(v@.subrange(0, end as int)) == trim_end(v@),
        decreases end,
    {
        proof {
            assert(v@.subrange(0, end as int).drop_last() =~= v@.subrange(0, end - 1));
        }
        end -= 1;
    }
    let kept = crate::text::chars_between(v.as_slice(), 0, end);
    proof {
        assert(trim_end(v@.subrange(0, end as int)) == v@.subrange(0, end as int));
    }
    string_from_chars(kept.as_slice())
}

impl PaneScrollback {
    /// The saved lines of a grid (see `saved_lines`), the cursor at the origin.
    pub fn from_grid(pane_id: u32, grid: &Grid) -> (p: PaneScrollback)
        requires
            grid.wf(),
        ensures
            p.pane_id == pane_id,
            p.cursor_row == 0,
            p.cursor_col == 0,
            p.lines@.len() == grid.view_scrollback().len() + grid.lines,
            forall|i: int| 0 <= i < p.lines@.len() ==> (#[trigger] p.lines@[i]).has_formatting
                && p.lines@[i].text@ == saved_lines(grid.view_scrollback(), grid.view_rows())[i],
    {
        let mut lines: Vec<ScrollbackLine> = Vec::new();
        let ghost all = saved_lines(grid.view_scrollback(), grid.view_rows());
        let n = grid.scrollback_len();
        let mut i: usize = 0;
        while i < n
            invariant
                grid.wf(),
                n == grid.view_scrollback().len(),
                all == saved_lines(grid.view_scrollback(), grid.view_rows()),
                i <= n,
                lines@.len() == i,
                forall|k: int| 0 <= k < i ==> (#[trigger] lines@[k]).has_formatting && lines@[k].text@ == all[k],
            decreases n - i,
        {
            match grid.scrollback_row(i) {
                Some(row) => {
                    let text = row_text(row.cells.as_slice());
                    lines.push(ScrollbackLine { text, has_formatting: true });
                },
                None => {},
            }
            i += 1;
        }
        let rows = grid.lines();
        let mut l: u16 = 0;
        while l < rows
            invariant
                grid.wf(),
                rows == grid.lines,
                n == grid.view_scrollback().len(),
                all == saved_lines(grid.view_scrollback(), grid.view_rows()),
                l <= rows,
                lines@.len() == n + l,
                forall|k: int| 0 <= k < n + l ==> (#[trigger] lines@[k]).has_formatting && lines@[k].text@ == all[k],
            decreases rows - l,
        {
            let row = grid.row(l);
            let text = row_text(row.cells.as_slice());
            lines.push(ScrollbackLine { text, has_formatting: true });
            l += 1;
        }
        PaneScrollback { pane_id, lines, cursor_row: 0, cursor_col: 0 }
    }

    /// Number of saved lines.
    pub fn len(&self) -> (n: usize)
        ensures
            n == self.lines@.len(),
    {
        self.lines.len()
    }

    pub fn is_empty(&self) -> (b: bool)
        ensures
            b == (self.lines@.len() == 0),
    {
        self.lines.len() == 0
    }
}

/// A saved window.
#[derive(Debug, Clone)]
pub struct PersistedWindow {
    pub name: String,
    /// Pane scrollbacks.
    pub panes: Vec<PaneScrollback>,
    pub active_pane: usize,
}

/// A saved session with its windows and their scrollback.
#[derive(Debug, Clone)]
pub struct PersistedSession {
    pub id: u32,
    pub name: String,
    pub shell: String,
    pub cols: u16,
    pub rows: u16,
    pub windows: Vec<PersistedWindow>,
    pub active_window: usize,
    /// Creation time, seconds since the epoch.
    pub created_at: u64,
    /// Last save time, seconds since the epoch.
    pub saved_at: u64,
}

/// An external terminal multiplexer around this one.
#[derive(Debug, Clone, Copy, PartialEq, Eq, Structural)]
pub enum ExternalMux {
    /// tmux session detected.
    Tmux,
    /// GNU screen detected.
    Screen,
    /// No external multiplexer.
    Absent,
}

impl ExternalMux {
    /// The multiplexer told by the environment: tmux when `TMUX` is set,
    /// else screen when `STY` is set (the caller reads both).
    pub fn detect(tmux_set: bool, sty_set: bool) -> (m: ExternalMux)
        ensures
            m == (if tmux_set { ExternalMux::Tmux } else if sty_set { ExternalMux::Screen } else { ExternalMux::Absent }),
    {
        if tmux_set {
            ExternalMux::Tmux
        } else if sty_set {
            ExternalMux::Screen
        } else {
            ExternalMux::Absent
        }
    }

    /// The multiplexer's name.
    pub fn name(&self) -> (s: &'static str)
        ensures
            s@ == match *self {
                ExternalMux::Tmux => "tmux"@,
                ExternalMux::Screen => "screen"@,
                ExternalMux::Absent => "none"@,
            },
    {
        match self {
            ExternalMux::Tmux => "tmux",
            ExternalMux::Screen => "screen",
            ExternalMux::Absent => "none",
        }
    }

    /// Whether a multiplexer is running.
    pub fn is_active(&self) -> (b: bool)
        ensures
            b == (*self != ExternalMux::Absent),
    {
        match self {
            ExternalMux::Absent => false,
            _ => true,
        }
    }

    /// The command that lists its sessions.
    pub fn list_command(&self) -> (c: Option<&'static str>)
        ensures
            match *self {
                ExternalMux::Tmux => c.is_some() && c.unwrap()@ == "tmux list-sessions"@,
                ExternalMux::Screen => c.is_some() && c.unwrap()@ == "screen -ls"@,
                ExternalMux::Absent => c.is_none(),
            },
    {
        match self {
            ExternalMux::Tmux => Some("tmux list-sessions"),
            ExternalMux::Screen => Some("screen -ls"),
            ExternalMux::Absent => None,
        }
    }

    /// The command that attaches to a session.
    pub fn attach_command(&self, session: &str) -> (c: Option<String>)
        ensures
            match *self {
                ExternalMux::Tmux => c.is_some() && c.unwrap()@ == "tmux attach -t "@ + session@,
                ExternalMux::Screen => c.is_some() && c.unwrap()@ == "screen -r "@ + session@,
                ExternalMux::Absent => c.is_none(),
            },
    {
        let s = chars_of(session);
        match self {
            ExternalMux::Tmux => {
                let p = chars_of("tmux attach -t ");
                Some(concat_string(p.as_slice(), s.as_slice()))
            },
            ExternalMux::Screen => {
                let p = chars_of("screen -r ");
                Some(concat_string(p.as_slice(), s.as_slice()))
            },
            ExternalMux::Absent => None,
        }
    }
}

} // verus!

verus! {

/// `dirs::data_local_dir`: the user's local data directory, if one can be
/// found, as text (lossily, where the path is not Unicode). It depends on
/// the environment; nothing is stated of it.
#[verifier::external_body]
fn data_local_dir() -> Option<String> {
    dirs::data_local_dir().map(|p| p.to_string_lossy().into_owned())
}

/// Where saved sessions are kept: `basilisk/sessions` in the local data
/// directory, or in the current directory when there is none.
pub open spec fn persist_dir_of(data_dir: Option<Seq<char>>) -> Seq<char> {
    let base = match data_dir {
        Some(d) => d,
        None => "."@,
    };
    path_join(path_join(base, "basilisk"@), "sessions"@)
}

/// The file a session is saved in: its number and `.json`.
pub open spec fn session_file_of(data_dir: Option<Seq<char>>, id: u32) -> Seq<char> {
    path_join(persist_dir_of(data_dir), decimal_digits(id as nat) + ".json"@)
}

impl PersistedSession {
    /// The directory saved sessions are kept in, for the local data
    /// directory `data_dir` (see `persist_dir_of`).
    pub fn persist_dir_for(data_dir: Option<&str>) -> (s: String)
        ensures
            s@ == persist_dir_of(match data_dir { Some(d) => Some(d@), None => None }),
    {
        proof {
            reveal_strlit("basilisk");
            reveal_strlit("sessions");
        }
        let base = match data_dir {
            Some(d) => d.to_string(),
            None => ".".to_string(),
        };
        let b = join_path(base.as_str(), "basilisk");
        join_path(b.as_str(), "sessions")
    }

    /// The directory saved sessions are kept in.
    pub fn persist_dir() -> (s: String)
        ensures
            exists|d: Option<Seq<char>>| s@ == persist_dir_of(d),
    {
        match data_local_dir() {
            Some(d) => Self::persist_dir_for(Some(d.as_str())),
            None => Self::persist_dir_for(None),
        }
    }

    /// The file session `session_id` is saved in, for the local data
    /// directory `data_dir`.
    pub fn path_for_in(data_dir: Option<&str>, session_id: u32) -> (s: String)
        ensures
            s@ == session_file_of(match data_dir { Some(d) => Some(d@), None => None }, session_id),
    {
        let dir = Self::persist_dir_for(data_dir);
        let digits = u64_to_decimal(session_id as u64);
        let ext = chars_of(".json");
        let name = concat_string(digits.as_slice(), ext.as_slice());
        proof {
            assert(name@.len() > 0);
            assert(name@[0] == digits@[0]);
            lemma_decimal_digits_digit(session_id as nat);
        }
        join_path(dir.as_str(), name.as_str())
    }

    /// The file session `session_id` is saved in.
    pub fn path_for(session_id: u32) -> (s: String)
        ensures
            exists|d: Option<Seq<char>>| s@ == session_file_of(d, session_id),
    {
        match data_local_dir() {
            Some(d) => Self::path_for_in(Some(d.as_str()), session_id),
            None => Self::path_for_in(None, session_id),
        }
    }
}

/// A number's decimal text starts with a digit.
proof fn lemma_decimal_digits_digit(n: nat)
    ensures
        decimal_digits(n).len() > 0,
        '0' <= decimal_digits(n)[0] <= '9',
    decreases n,
{
    if n >= 10 {
        lemma_decimal_digits_digit(n / 10);
    }
}

} // verus!
