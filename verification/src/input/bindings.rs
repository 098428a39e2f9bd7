//! Key bindings: key combinations mapped to multiplexer actions.

use vstd::prelude::*;
use crate::text::{
    chars_of, to_lowercase, lowercase, trim, trim_chars, split_on, split_chars, word_is,
    lemma_split_on_nonempty,
};

verus! {

/// Actions that can be bound to keys.
#[derive(Clone, Copy, Debug, PartialEq, Eq, Structural)]
pub enum Action {
    NewWindow,
    ClosePane,
    SplitHorizontal,
    SplitVertical,
    NextWindow,
    PrevWindow,
    Copy,
    Paste,
    Detach,
    ZoomPane,
    CopyMode,
    Search,
    ScrollUp,
    ScrollDown,
    ScrollPageUp,
    ScrollPageDown,
    ScrollToTop,
    ScrollToBottom,
    FocusPaneUp,
    FocusPaneDown,
    FocusPaneLeft,
    FocusPaneRight,
    SelectWindow(usize),
}

/// A parsed key combination.
#[derive(Clone, Copy, Debug, PartialEq, Eq, Hash, Structural)]
pub struct KeyCombo {
    pub ctrl: bool,
    pub alt: bool,
    pub shift: bool,
    pub key: char,
}

/// What the pieces of a combination string have set so far.
#[derive(Clone, Copy, Debug, PartialEq, Eq, Structural)]
pub struct ComboParts {
    pub ctrl: bool,
    pub alt: bool,
    pub shift: bool,
    pub key: Option<char>,
}

pub open spec fn no_parts() -> ComboParts {
    ComboParts { ctrl: false, alt: false, shift: false, key: None }
}

/// The effect of one trimmed, lowercased piece of a combination string.
pub open spec fn apply_part(st: ComboParts, p: Seq<char>) -> ComboParts {
    if p == "ctrl"@ || p == "control"@ {
        ComboParts { ctrl: true, ..st }
    } else if p == "alt"@ || p == "meta"@ || p == "option"@ {
        ComboParts { alt: true, ..st }
    } else if p == "shift"@ {
        ComboParts { shift: true, ..st }
    } else if p.len() == 1 && (p[0] as u32) < 0x80 {
        ComboParts { key: Some(p[0]), ..st }
    } else if p == "space"@ {
        ComboParts { key: Some(' '), ..st }
    } else if p == "enter"@ || p == "return"@ {
        ComboParts { key: Some('\n'), ..st }
    } else if p == "tab"@ {
        ComboParts { key: Some('\t'), ..st }
    } else if p == "escape"@ || p == "esc"@ {
        ComboParts { key: Some('\x1b'), ..st }
    } else {
        st
    }
}

/// The pieces applied left to right, each trimmed.
pub open spec fn fold_parts(parts: Seq<Seq<char>>) -> ComboParts
    decreases parts.len(),
{
    if parts.len() == 0 {
        no_parts()
    } else {
        apply_part(fold_parts(parts.drop_last()), trim(parts.last()))
    }
}

/// The combination a string such as `"ctrl+shift+c"` names: the string is
/// lowercased, split on `+`, and each trimmed piece read as a modifier or key.
/// There is none when no piece names a key.
pub open spec fn combo_of(s: Seq<char>) -> Option<KeyCombo> {
    let st = fold_parts(split_on(lowercase(s), '+'));
    match st.key {
        Some(k) => Some(KeyCombo { ctrl: st.ctrl, alt: st.alt, shift: st.shift, key: k }),
        None => None,
    }
}

fn apply_part_exec(st: ComboParts, p: &[char]) -> (r: ComboParts)
    ensures r == apply_part(st, p@),
{
    if word_is(p, "ctrl") || word_is(p, "control") {
        ComboParts { ctrl: true, ..st }
    } else if word_is(p, "alt") || word_is(p, "meta") || word_is(p, "option") {
        ComboParts { alt: true, ..st }
    } else if word_is(p, "shift") {
        ComboParts { shift: true, ..st }
    } else if p.len() == 1 && (p[0] as u32) < 0x80 {
        ComboParts { key: Some(p[0]), ..st }
    } else if word_is(p, "space") {
        ComboParts { key: Some(' '), ..st }
    } else if word_is(p, "enter") || word_is(p, "return") {
        ComboParts { key: Some('\n'), ..st }
    } else if word_is(p, "tab") {
        ComboParts { key: Some('\t'), ..st }
    } else if word_is(p, "escape") || word_is(p, "esc") {
        ComboParts { key: Some('\x1b'), ..st }
    } else {
        st
    }
}

impl KeyCombo {
    /// Parse a key combination string like `"ctrl+shift+c"`.
    pub fn parse(s: &str) -> (r: Option<KeyCombo>)
        ensures r == combo_of(s@),
    {
        let lowered = to_lowercase(s);
        let cs = chars_of(lowered.as_str());
        let parts = split_chars(cs.as_slice(), '+');
        let ghost all = split_on(cs@, '+');
        let mut st = ComboParts { ctrl: false, alt: false, shift: false, key: None };
        let mut i: usize = 0;
        while i < parts.len()
            invariant
                parts@.len() == all.len(),
                forall|j: int| 0 <= j < parts@.len() ==> #[trigger] parts@[j]@ == all[j],
                i <= parts@.len(),
                st == fold_parts(all.subrange(0, i as int)),
            decreases parts@.len() - i,
        {
            let p = trim_chars(parts[i].as_slice());
            proof {
                assert(all.subrange(0, i as int + 1).drop_last() =~= all.subrange(0, i as int));
            }
            st = apply_part_exec(st, p.as_slice());
            i += 1;
        }
        proof {
            assert(all.subrange(0, all.len() as int) =~= all);
        }
        match st.key {
            Some(k) => Some(KeyCombo { ctrl: st.ctrl, alt: st.alt, shift: st.shift, key: k }),
            None => None,
        }
    }
}

/// The action a configuration name stands for, the name lowercased first.
pub open spec fn action_named(l: Seq<char>) -> Option<Action> {
    if l == "new_window"@ || l == "newwindow"@ {
        Some(Action::NewWindow)
    } else if l == "close_pane"@ || l == "closepane"@ {
        Some(Action::ClosePane)
    } else if l == "split_horizontal"@ || l == "splithorizontal"@ || l == "hsplit"@ {
        Some(Action::SplitHorizontal)
    } else if l == "split_vertical"@ || l == "splitvertical"@ || l == "vsplit"@ {
        Some(Action::SplitVertical)
    } else if l == "next_window"@ || l == "nextwindow"@ {
        Some(Action::NextWindow)
    } else if l == "prev_window"@ || l == "prevwindow"@ {
        Some(Action::PrevWindow)
    } else if l == "copy"@ {
        Some(Action::Copy)
    } else if l == "paste"@ {
        Some(Action::Paste)
    } else if l == "detach"@ {
        Some(Action::Detach)
    } else if l == "zoom_pane"@ || l == "zoompane"@ || l == "zoom"@ {
        Some(Action::ZoomPane)
    } else if l == "copy_mode"@ || l == "copymode"@ {
        Some(Action::CopyMode)
    } else if l == "search"@ {
        Some(Action::Search)
    } else if l == "scroll_up"@ || l == "scrollup"@ {
        Some(Action::ScrollUp)
    } else if l == "scroll_down"@ || l == "scrolldown"@ {
        Some(Action::ScrollDown)
    } else if l == "scroll_page_up"@ || l == "scrollpageup"@ || l == "pageup"@ {
        Some(Action::ScrollPageUp)
    } else if l == "scroll_page_down"@ || l == "scrollpagedown"@ || l == "pagedown"@ {
        Some(Action::ScrollPageDown)
    } else if l == "scroll_to_top"@ || l == "scrolltotop"@ {
        Some(Action::ScrollToTop)
    } else if l == "scroll_to_bottom"@ || l == "scrolltobottom"@ {
        Some(Action::ScrollToBottom)
    } else {
        None
    }
}

/// Parse an action name from the configuration.
pub fn parse_action(name: &str) -> (r: Option<Action>)
    ensures r == action_named(lowercase(name@)),
{
    let lowered = to_lowercase(name);
    let l = chars_of(lowered.as_str());
    let l = l.as_slice();
    if word_is(l, "new_window") || word_is(l, "newwindow") {
        Some(Action::NewWindow)
    } else if word_is(l, "close_pane") || word_is(l, "closepane") {
        Some(Action::ClosePane)
    } else if word_is(l, "split_horizontal") || word_is(l, "splithorizontal") || word_is(l, "hsplit") {
        Some(Action::SplitHorizontal)
    } else if word_is(l, "split_vertical") || word_is(l, "splitvertical") || word_is(l, "vsplit") {
        Some(Action::SplitVertical)
    } else if word_is(l, "next_window") || word_is(l, "nextwindow") {
        Some(Action::NextWindow)
    } else if word_is(l, "prev_window") || word_is(l, "prevwindow") {
        Some(Action::PrevWindow)
    } else if word_is(l, "copy") {
        Some(Action::Copy)
    } else if word_is(l, "paste") {
        Some(Action::Paste)
    } else if word_is(l, "detach") {
        Some(Action::Detach)
    } else if word_is(l, "zoom_pane") || word_is(l, "zoompane") || word_is(l, "zoom") {
        Some(Action::ZoomPane)
    } else if word_is(l, "copy_mode") || word_is(l, "copymode") {
        Some(Action::CopyMode)
    } else if word_is(l, "search") {
        Some(Action::Search)
    } else if word_is(l, "scroll_up") || word_is(l, "scrollup") {
        Some(Action::ScrollUp)
    } else if word_is(l, "scroll_down") || word_is(l, "scrolldown") {
        Some(Action::ScrollDown)
    } else if word_is(l, "scroll_page_up") || word_is(l, "scrollpageup") || word_is(l, "pageup") {
        Some(Action::ScrollPageUp)
    } else if word_is(l, "scroll_page_down") || word_is(l, "scrollpagedown") || word_is(l, "pagedown") {
        Some(Action::ScrollPageDown)
    } else if word_is(l, "scroll_to_top") || word_is(l, "scrolltotop") {
        Some(Action::ScrollToTop)
    } else if word_is(l, "scroll_to_bottom") || word_is(l, "scrolltobottom") {
        Some(Action::ScrollToBottom)
    } else {
        None
    }
}

/// One binding: a key combination and its action.
#[derive(Clone, Copy, Debug, PartialEq, Eq, Structural)]
pub struct Binding {
    pub combo: KeyCombo,
    pub action: Action,
}

/// The map a list of bindings stands for, later entries over earlier ones.
pub open spec fn bindings_map(s: Seq<Binding>) -> Map<KeyCombo, Action>
    decreases s.len(),
{
    if s.len() == 0 {
        Map::empty()
    } else {
        bindings_map(s.drop_last()).insert(s.last().combo, s.last().action)
    }
}

/// No key combination is bound twice.
pub open spec fn combos_distinct(s: Seq<Binding>) -> bool {
    forall|i: int, j: int| 0 <= i < s.len() && 0 <= j < s.len() && i != j ==> s[i].combo != s[j].combo
}

proof fn lemma_map_dom(s: Seq<Binding>, k: KeyCombo)
    ensures
        bindings_map(s).dom().contains(k) <==> exists|i: int| 0 <= i < s.len() && (#[trigger] s[i]).combo == k,
    decreases s.len(),
{
    if s.len() > 0 {
        lemma_map_dom(s.drop_last(), k);
        if bindings_map(s).dom().contains(k) && s.last().combo != k {
            let i = choose|i: int| 0 <= i < s.len() - 1 && (#[trigger] s.drop_last()[i]).combo == k;
            assert(s[i] == s.drop_last()[i]);
        }
        if exists|i: int| 0 <= i < s.len() && (#[trigger] s[i]).combo == k {
            let i = choose|i: int| 0 <= i < s.len() && (#[trigger] s[i]).combo == k;
            if i < s.len() - 1 {
                assert(s.drop_last()[i] == s[i]);
            }
        }
    }
}

proof fn lemma_map_at(s: Seq<Binding>, i: int)
    requires
        combos_distinct(s),
        0 <= i < s.len(),
    ensures
        bindings_map(s).dom().contains(s[i].combo),
        bindings_map(s)[s[i].combo] == s[i].action,
    decreases s.len(),
{
    if i < s.len() - 1 {
        let t = s.drop_last();
        assert(t[i] == s[i]);
        assert(combos_distinct(t)) by {
            assert forall|a: int, b: int| 0 <= a < t.len() && 0 <= b < t.len() && a != b implies t[a].combo != t[b].combo by {
                assert(t[a] == s[a] && t[b] == s[b]);
            }
        }
        lemma_map_at(t, i);
        assert(s.last() == s[s.len() - 1]);
    }
}

proof fn lemma_map_update(s: Seq<Binding>, i: int, a: Action)
    requires
        combos_distinct(s),
        0 <= i < s.len(),
    ensures
        bindings_map(s.update(i, Binding { combo: s[i].combo, action: a }))
            == bindings_map(s).insert(s[i].combo, a),
    decreases s.len(),
{
    let b = Binding { combo: s[i].combo, action: a };
    let u = s.update(i, b);
    let t = s.drop_last();
    if i == s.len() - 1 {
        assert(u.drop_last() =~= t);
        assert(bindings_map(u) =~= bindings_map(s).insert(s[i].combo, a));
    } else {
        assert(combos_distinct(t)) by {
            assert forall|x: int, y: int| 0 <= x < t.len() && 0 <= y < t.len() && x != y implies t[x].combo != t[y].combo by {
                assert(t[x] == s[x] && t[y] == s[y]);
            }
        }
        assert(t[i] == s[i]);
        lemma_map_update(t, i, a);
        assert(u.drop_last() =~= t.update(i, b));
        assert(s.last().combo != s[i].combo);
        assert(bindings_map(u) =~= bindings_map(s).insert(s[i].combo, a));
    }
}

/// Key bindings: each key combination bound to at most one action.
pub struct Bindings {
    pub entries: Vec<Binding>,
}

impl View for Bindings {
    type V = Map<KeyCombo, Action>;

    open spec fn view(&self) -> Map<KeyCombo, Action> {
        bindings_map(self.entries@)
    }
}

/// The bindings that hold without configuration: Ctrl+Shift+C copies,
/// Ctrl+Shift+V pastes, Ctrl+Shift+F searches, Ctrl+Shift+N opens a window
/// and Ctrl+Shift+H splits horizontally.
pub open spec fn default_map() -> Map<KeyCombo, Action> {
    map![
        KeyCombo { ctrl: true, alt: false, shift: true, key: 'c' } => Action::Copy,
        KeyCombo { ctrl: true, alt: false, shift: true, key: 'v' } => Action::Paste,
        KeyCombo { ctrl: true, alt: false, shift: true, key: 'f' } => Action::Search,
        KeyCombo { ctrl: true, alt: false, shift: true, key: 'n' } => Action::NewWindow,
        KeyCombo { ctrl: true, alt: false, shift: true, key: 'h' } => Action::SplitHorizontal
    ]
}

/// The bindings a configuration gives: the defaults, then each pair of an
/// action name and a combination string in turn, where both parse.
pub open spec fn config_map(c: Seq<(String, String)>) -> Map<KeyCombo, Action>
    decreases c.len(),
{
    if c.len() == 0 {
        default_map()
    } else {
        let m = config_map(c.drop_last());
        match (combo_of(c.last().1@), action_named(lowercase(c.last().0@))) {
            (Some(k), Some(a)) => m.insert(k, a),
            _ => m,
        }
    }
}

/// The action a configured pair binds to `k`, if it binds `k`: both the
/// action name and the combination parse, and the combination is `k`.
pub open spec fn pair_binds(p: (String, String), k: KeyCombo) -> Option<Action> {
    match (combo_of(p.1@), action_named(lowercase(p.0@))) {
        (Some(c), Some(a)) => if c == k { Some(a) } else { None },
        _ => None,
    }
}

/// The bindings a configuration gives (`from_config`): a combination that
/// no pair binds keeps its default binding (or none); one that some pair
/// binds goes to the action of the last pair that binds it.
pub proof fn law_config_bindings(c: Seq<(String, String)>, k: KeyCombo)
    ensures
        (forall|i: int| 0 <= i < c.len() ==> #[trigger] pair_binds(c[i], k).is_none()) ==> {
            &&& config_map(c).contains_key(k) == default_map().contains_key(k)
            &&& default_map().contains_key(k) ==> config_map(c)[k] == default_map()[k]
        },
        forall|i: int| 0 <= i < c.len() && (#[trigger] pair_binds(c[i], k)).is_some()
            && (forall|j: int| i < j < c.len() ==> #[trigger] pair_binds(c[j], k).is_none()) ==> {
            &&& config_map(c).contains_key(k)
            &&& config_map(c)[k] == pair_binds(c[i], k).unwrap()
        },
    decreases c.len(),
{
    if c.len() > 0 {
        let d = c.drop_last();
        law_config_bindings(d, k);
        let last = c.len() - 1;
        assert(c.last() == c[last]);
        assert forall|i: int| 0 <= i < d.len() implies #[trigger] pair_binds(d[i], k) == pair_binds(c[i], k) by {
            assert(d[i] == c[i]);
        }
        if pair_binds(c[last], k).is_none() {
            assert(config_map(c).contains_key(k) == config_map(d).contains_key(k));
            assert(config_map(d).contains_key(k) ==> config_map(c)[k] == config_map(d)[k]);
            assert forall|i: int| 0 <= i < c.len() && (#[trigger] pair_binds(c[i], k)).is_some()
                && (forall|j: int| i < j < c.len() ==> #[trigger] pair_binds(c[j], k).is_none()) implies {
                &&& config_map(c).contains_key(k)
                &&& config_map(c)[k] == pair_binds(c[i], k).unwrap()
            } by {
                assert(i < last);
                assert(pair_binds(d[i], k).is_some());
                assert forall|j: int| i < j < d.len() implies #[trigger] pair_binds(d[j], k).is_none() by {
                    assert(pair_binds(c[j], k).is_none());
                }
            }
        } else {
            assert(config_map(c) == config_map(d).insert(k, pair_binds(c[last], k).unwrap()));
            assert forall|i: int| 0 <= i < c.len() && (#[trigger] pair_binds(c[i], k)).is_some()
                && (forall|j: int| i < j < c.len() ==> #[trigger] pair_binds(c[j], k).is_none()) implies {
                &&& config_map(c).contains_key(k)
                &&& config_map(c)[k] == pair_binds(c[i], k).unwrap()
            } by {
                if i < last {
                    assert(pair_binds(c[last], k).is_none());
                }
            }
        }
    }
}

impl Bindings {
    pub open spec fn wf(&self) -> bool {
        combos_distinct(self.entries@)
    }

    /// No bindings at all.
    pub fn new() -> (b: Bindings)
        ensures
            b.wf(),
            b@ == Map::<KeyCombo, Action>::empty(),
    {
        Bindings { entries: Vec::new() }
    }

    /// The default bindings (keys that need no prefix).
    pub fn default_bindings() -> (b: Bindings)
        ensures
            b.wf(),
            b@ == default_map(),
    {
        let mut b = Bindings::new();
        b.bind(KeyCombo { ctrl: true, alt: false, shift: true, key: 'c' }, Action::Copy);
        b.bind(KeyCombo { ctrl: true, alt: false, shift: true, key: 'v' }, Action::Paste);
        b.bind(KeyCombo { ctrl: true, alt: false, shift: true, key: 'f' }, Action::Search);
        b.bind(KeyCombo { ctrl: true, alt: false, shift: true, key: 'n' }, Action::NewWindow);
        b.bind(KeyCombo { ctrl: true, alt: false, shift: true, key: 'h' }, Action::SplitHorizontal);
        proof {
            assert(b@ =~= default_map());
        }
        b
    }

    /// The defaults with each configured pair `(action name, combination)`
    /// bound in turn; pairs where either does not parse are passed over.
    pub fn from_config(config: &[(String, String)]) -> (b: Bindings)
        ensures
            b.wf(),
            b@ == config_map(config@),
    {
        let mut b = Bindings::default_bindings();
        let mut i: usize = 0;
        while i < config.len()
            invariant
                i <= config@.len(),
                b.wf(),
                b@ == config_map(config@.subrange(0, i as int)),
            decreases config@.len() - i,
        {
            let ghost pre = config@.subrange(0, i as int);
            proof {
                assert(config@.subrange(0, i as int + 1).drop_last() =~= pre);
            }
            let combo = KeyCombo::parse(config[i].1.as_str());
            let action = parse_action(config[i].0.as_str());
            match (combo, action) {
                (Some(k), Some(a)) => b.bind(k, a),
                _ => {},
            }
            i += 1;
        }
        proof {
            assert(config@.subrange(0, config@.len() as int) =~= config@);
        }
        b
    }

    /// Bind a key combination to an action, replacing any earlier binding.
    pub fn bind(&mut self, combo: KeyCombo, action: Action)
        requires
            old(self).wf(),
        ensures
            final(self).wf(),
            final(self)@ == old(self)@.insert(combo, action),
    {
        let mut i: usize = 0;
        while i < self.entries.len()
            invariant
                i <= self.entries@.len(),
                *self == *old(self),
                self.wf(),
                forall|j: int| 0 <= j < i ==> (#[trigger] self.entries@[j]).combo != combo,
            decreases self.entries@.len() - i,
        {
            if self.entries[i].combo == combo {
                proof {
                    lemma_map_update(self.entries@, i as int, action);
                }
                self.entries.set(i, Binding { combo, action });
                return;
            }
            i += 1;
        }
        self.entries.push(Binding { combo, action });
        proof {
            assert(self.entries@.drop_last() =~= old(self).entries@);
        }
    }

    /// The action bound to a key combination, if any.
    pub fn get(&self, combo: &KeyCombo) -> (r: Option<&Action>)
        requires
            self.wf(),
        ensures
            match r {
                Some(a) => self@.dom().contains(*combo) && self@[*combo] == *a,
                None => !self@.dom().contains(*combo),
            },
    {
        let mut i: usize = 0;
        while i < self.entries.len()
            invariant
                i <= self.entries@.len(),
                self.wf(),
                forall|j: int| 0 <= j < i ==> (#[trigger] self.entries@[j]).combo != *combo,
            decreases self.entries@.len() - i,
        {
            if self.entries[i].combo == *combo {
                proof {
                    lemma_map_at(self.entries@, i as int);
                }
                return Some(&self.entries[i].action);
            }
            i += 1;
        }
        proof {
            lemma_map_dom(self.entries@, *combo);
        }
        None
    }

    /// Whether a key combination is bound.
    pub fn is_bound(&self, combo: &KeyCombo) -> (b: bool)
        requires
            self.wf(),
        ensures
            b == self@.dom().contains(*combo),
    {
        self.get(combo).is_some()
    }
}

impl Default for Bindings {
    fn default() -> (b: Bindings)
        ensures
            b.wf(),
            b@ == default_map(),
    {
        Bindings::default_bindings()
    }
}

/// After binding a combination, looking it up gives the action just bound,
/// and every other combination keeps the action it had.
pub proof fn law_get_after_bind(before: Map<KeyCombo, Action>, after: Map<KeyCombo, Action>, combo: KeyCombo, action: Action)
    requires
        after == before.insert(combo, action),
    ensures
        after.dom().contains(combo) && after[combo] == action,
        forall|k: KeyCombo| k != combo ==> (after.dom().contains(k) == before.dom().contains(k)
            && (before.dom().contains(k) ==> after[k] == before[k])),
{
}

} // verus!
