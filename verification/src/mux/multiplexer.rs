//! The multiplexer: the sessions it manages and the one attached.

use vstd::prelude::*;
use crate::mux::session::{Session, SessionId, shell_or_default};
use crate::text::{chars_of, chars_eq, concat_string, u64_to_decimal, decimal_digits};
use crate::error::Result;
use crate::mux::window::{next_index, prev_index};

verus! {

/// The multiplexer. Sessions stand in the order they were made.
pub struct Multiplexer {
    pub sessions: Vec<Session>,
    pub attached: Option<SessionId>,
    /// The id the next session gets; every session made so far has a smaller one.
    pub next_id: u32,
    pub default_shell: String,
    /// What `$SHELL` held; sessions are made with it.
    pub env_shell: Option<String>,
}

/// The value of an optional string.
pub open spec fn opt_view(o: Option<String>) -> Option<Seq<char>> {
    match o {
        Some(s) => Some(s@),
        None => None,
    }
}

/// Whether a session has the id.
pub open spec fn has_session_id(ss: Seq<Session>, id: SessionId) -> bool {
    exists|i: int| 0 <= i < ss.len() && #[trigger] ss[i].id == id
}

/// The ids of the sessions, in order.
pub open spec fn ids_of(ss: Seq<Session>) -> Seq<SessionId> {
    ss.map_values(|s: Session| s.id)
}

/// The name a session gets when none is given: `session-` and its number.
pub open spec fn default_session_name(id: u32) -> Seq<char> {
    "session-"@ + decimal_digits(id as nat)
}

impl Multiplexer {
    pub open spec fn wf(&self) -> bool {
        &&& forall|a: int, b: int| 0 <= a < b < self.sessions@.len() ==> #[trigger] self.sessions@[a].id.0 < #[trigger] self.sessions@[b].id.0
        &&& forall|a: int| 0 <= a < self.sessions@.len() ==> #[trigger] self.sessions@[a].id.0 < self.next_id
        &&& (self.attached matches Some(id) ==> has_session_id(self.sessions@, id))
    }

    /// A multiplexer without sessions; its shell is the one `$SHELL` names
    /// (`env_shell`), else `/bin/sh`.
    pub fn new(env_shell: Option<String>) -> (m: Multiplexer)
        ensures
            m.wf(),
            m.sessions@.len() == 0,
            m.attached.is_none(),
            m.next_id == 0,
            m.default_shell@ == shell_or_default(opt_view(env_shell)),
            opt_view(m.env_shell) == opt_view(env_shell),
    {
        let shell = match &env_shell {
            Some(e) => e.as_str().to_string(),
            None => "/bin/sh".to_string(),
        };
        Multiplexer { sessions: Vec::new(), attached: None, next_id: 0, default_shell: shell, env_shell }
    }

    /// A multiplexer without sessions whose shell is `shell`.
    pub fn with_shell(shell: String, env_shell: Option<String>) -> (m: Multiplexer)
        ensures
            m.wf(),
            m.sessions@.len() == 0,
            m.attached.is_none(),
            m.next_id == 0,
            m.default_shell == shell,
            opt_view(m.env_shell) == opt_view(env_shell),
    {
        Multiplexer { sessions: Vec::new(), attached: None, next_id: 0, default_shell: shell, env_shell }
    }

    /// Where the session with the id stands.
    pub fn position_of(&self, id: SessionId) -> (r: Option<usize>)
        ensures
            r matches Some(i) ==> i < self.sessions@.len() && self.sessions@[i as int].id == id,
            r is None ==> !has_session_id(self.sessions@, id),
    {
        let mut i: usize = 0;
        while i < self.sessions.len()
            invariant
                i <= self.sessions@.len(),
                forall|k: int| 0 <= k < i ==> #[trigger] self.sessions@[k].id != id,
            decreases self.sessions@.len() - i,
        {
            if self.sessions[i].id == id {
                return Some(i);
            }
            i = i + 1;
        }
        None
    }

    /// Where the first session with the name stands.
    pub fn position_by_name(&self, name: &str) -> (r: Option<usize>)
        ensures
            r matches Some(i) ==> i < self.sessions@.len() && self.sessions@[i as int].name@ == name@
                && forall|k: int| 0 <= k < i ==> #[trigger] self.sessions@[k].name@ != name@,
            r is None ==> forall|k: int| 0 <= k < self.sessions@.len() ==> #[trigger] self.sessions@[k].name@ != name@,
    {
        let target = chars_of(name);
        let mut i: usize = 0;
        while i < self.sessions.len()
            invariant
                i <= self.sessions@.len(),
                target@ == name@,
                forall|k: int| 0 <= k < i ==> #[trigger] self.sessions@[k].name@ != name@,
            decreases self.sessions@.len() - i,
        {
            let n = chars_of(self.sessions[i].name());
            if chars_eq(n.as_slice(), target.as_slice()) {
                return Some(i);
            }
            i = i + 1;
        }
        None
    }

    /// Make a session named `name`, or `session-N` for its id N, without
    /// windows; it is attached when none was. Returns its id.
    pub fn create_session(&mut self, name: Option<String>) -> (r: Result<SessionId>)
        requires
            old(self).wf(),
            old(self).next_id < u32::MAX,
        ensures
            final(self).wf(),
            r == Ok::<SessionId, crate::error::Error>(SessionId(old(self).next_id)),
            final(self).next_id == old(self).next_id + 1,
            final(self).sessions@.len() == old(self).sessions@.len() + 1,
            forall|i: int| 0 <= i < old(self).sessions@.len() ==> #[trigger] final(self).sessions@[i] == old(self).sessions@[i],
            final(self).sessions@.last().wf(),
            final(self).sessions@.last().id == SessionId(old(self).next_id),
            final(self).sessions@.last().name@ == (match name { Some(n) => n@, None => default_session_name(old(self).next_id) }),
            final(self).sessions@.last().windows@.len() == 0,
            final(self).sessions@.last().default_shell@ == shell_or_default(opt_view(old(self).env_shell)),
            final(self).attached == (match old(self).attached { Some(a) => Some(a), None => Some(SessionId(old(self).next_id)) }),
            final(self).default_shell == old(self).default_shell,
            final(self).env_shell == old(self).env_shell,
    {
        let id = SessionId::new(self.next_id);
        self.next_id = self.next_id + 1;
        let session_name = match name {
            Some(n) => n,
            None => {
                let p = chars_of("session-");
                let d = u64_to_decimal(id.0 as u64);
                concat_string(p.as_slice(), d.as_slice())
            }
        };
        let env = match &self.env_shell {
            Some(e) => Some(e.as_str().to_string()),
            None => None,
        };
        let session = Session::new(id, session_name, env);
        self.sessions.push(session);
        if self.attached.is_none() {
            self.attached = Some(id);
        }
        proof {
            let ss = self.sessions@;
            let n = ss.len() - 1;
            assert forall|a: int, b: int| 0 <= a < b < ss.len() implies #[trigger] ss[a].id.0 < #[trigger] ss[b].id.0 by {
                assert(ss[a] == old(self).sessions@[a]);
                if b < n { assert(ss[b] == old(self).sessions@[b]); }
            }
            assert forall|a: int| 0 <= a < ss.len() implies #[trigger] ss[a].id.0 < self.next_id by {
                if a < n { assert(ss[a] == old(self).sessions@[a]); }
            }
            match self.attached {
                Some(a) => {
                    if a == id {
                        assert(ss[n].id == a);
                    } else {
                        let k = choose|k: int| 0 <= k < old(self).sessions@.len() && #[trigger] old(self).sessions@[k].id == a;
                        assert(ss[k].id == a);
                    }
                }
                None => {}
            }
        }
        Ok(id)
    }

    /// Remove the session with the id; when it was attached, the first
    /// session left is attached, or none. Returns whether it was there.
    pub fn destroy_session(&mut self, id: SessionId) -> (removed: bool)
        requires
            old(self).wf(),
        ensures
            final(self).wf(),
            removed == has_session_id(old(self).sessions@, id),
            !removed ==> *final(self) == *old(self),
            removed ==> exists|i: int| 0 <= i < old(self).sessions@.len() && #[trigger] old(self).sessions@[i].id == id
                && final(self).sessions@ == old(self).sessions@.remove(i),
            removed ==> final(self).attached == (if old(self).attached == Some(id) {
                if final(self).sessions@.len() == 0 { None } else { Some(final(self).sessions@[0].id) } } else { old(self).attached }),
            final(self).next_id == old(self).next_id,
            final(self).default_shell == old(self).default_shell,
            final(self).env_shell == old(self).env_shell,
    {
        match self.position_of(id) {
            Some(i) => {
                let ghost os = self.sessions@;
                self.sessions.remove(i);
                if self.attached == Some(id) {
                    if self.sessions.len() == 0 {
                        self.attached = None;
                    } else {
                        self.attached = Some(self.sessions[0].id);
                    }
                }
                proof {
                    let ss = self.sessions@;
                    assert forall|w: int| 0 <= w < ss.len() implies #[trigger] ss[w] == os[if w < i { w } else { w + 1 }] by {}
                    assert forall|a: int, b: int| 0 <= a < b < ss.len() implies #[trigger] ss[a].id.0 < #[trigger] ss[b].id.0 by {
                        assert(ss[a] == os[if a < i { a } else { a + 1 }]);
                        assert(ss[b] == os[if b < i { b } else { b + 1 }]);
                    }
                    assert forall|a: int| 0 <= a < ss.len() implies #[trigger] ss[a].id.0 < self.next_id by {
                        assert(ss[a] == os[if a < i { a } else { a + 1 }]);
                    }
                    match self.attached {
                        Some(a) => {
                            if old(self).attached == Some(id) {
                                assert(ss[0].id == a);
                            } else {
                                let k = choose|k: int| 0 <= k < os.len() && #[trigger] os[k].id == a;
                                assert(k != i);
                                let nk = if k < i { k } else { k - 1 };
                                assert(ss[nk] == os[k]);
                            }
                        }
                        None => {}
                    }
                }
                true
            }
            None => false,
        }
    }

    /// Attach the session with the id; false, and nothing changes, when
    /// there is none.
    pub fn attach(&mut self, id: SessionId) -> (ok: bool)
        requires
            old(self).wf(),
        ensures
            final(self).wf(),
            ok == has_session_id(old(self).sessions@, id),
            ok ==> *final(self) == (Multiplexer { attached: Some(id), ..*old(self) }),
            !ok ==> *final(self) == *old(self),
    {
        match self.position_of(id) {
            Some(_) => {
                self.attached = Some(id);
                true
            }
            None => false,
        }
    }

    /// Attach the first session with the name; false, and nothing changes,
    /// when there is none.
    pub fn attach_by_name(&mut self, name: &str) -> (ok: bool)
        requires
            old(self).wf(),
        ensures
            final(self).wf(),
            ok == (exists|i: int| 0 <= i < old(self).sessions@.len() && #[trigger] old(self).sessions@[i].name@ == name@),
            ok ==> exists|i: int| 0 <= i < old(self).sessions@.len() && #[trigger] old(self).sessions@[i].name@ == name@
                && (forall|k: int| 0 <= k < i ==> #[trigger] old(self).sessions@[k].name@ != name@)
                && *final(self) == (Multiplexer { attached: Some(old(self).sessions@[i].id), ..*old(self) }),
            !ok ==> *final(self) == *old(self),
    {
        match self.position_by_name(name) {
            Some(i) => {
                let id = self.sessions[i].id;
                self.attached = Some(id);
                proof { assert(self.sessions@[i as int].id == id); }
                true
            }
            None => false,
        }
    }

    /// Detach; returns the session that was attached.
    pub fn detach(&mut self) -> (r: Option<SessionId>)
        requires
            old(self).wf(),
        ensures
            final(self).wf(),
            r == old(self).attached,
            *final(self) == (Multiplexer { attached: None, ..*old(self) }),
    {
        let r = self.attached;
        self.attached = None;
        r
    }

    pub fn attached_id(&self) -> (r: Option<SessionId>)
        ensures
            r == self.attached,
    {
        self.attached
    }

    pub fn session_count(&self) -> (n: usize)
        ensures
            n == self.sessions@.len(),
    {
        self.sessions.len()
    }

    pub fn has_session(&self, id: SessionId) -> (b: bool)
        ensures
            b == has_session_id(self.sessions@, id),
    {
        self.position_of(id).is_some()
    }

    /// The session with the id.
    pub fn get_session(&self, id: SessionId) -> (s: Option<&Session>)
        ensures
            s is None <==> !has_session_id(self.sessions@, id),
            s matches Some(x) ==> x.id == id && exists|i: int| 0 <= i < self.sessions@.len() && self.sessions@[i] == *x,
    {
        match self.position_of(id) {
            Some(i) => Some(&self.sessions[i]),
            None => None,
        }
    }

    /// The session with the id, to change.
    pub fn get_session_mut(&mut self, id: SessionId) -> (s: Option<&mut Session>)
        ensures
            s is None <==> !has_session_id(old(self).sessions@, id),
            s is None ==> *final(self) == *old(self),
            s is Some ==> s.unwrap().id == id && exists|i: int| 0 <= i < old(self).sessions@.len()
                && old(self).sessions@[i] == *s.unwrap()
                && final(self).sessions@ == old(self).sessions@.update(i, *final(s.unwrap()))
                && *final(self) == (Multiplexer { sessions: final(self).sessions, ..*old(self) }),
    {
        match self.position_of(id) {
            Some(i) => Some(&mut self.sessions[i]),
            None => None,
        }
    }

    /// The attached session.
    pub fn attached_session(&self) -> (s: Option<&Session>)
        requires
            self.wf(),
        ensures
            self.attached is None ==> s is None,
            self.attached matches Some(id) ==> (s matches Some(x) && x.id == id
                && exists|i: int| 0 <= i < self.sessions@.len() && self.sessions@[i] == *x),
    {
        match self.attached {
            Some(id) => self.get_session(id),
            None => None,
        }
    }

    /// The attached session, to change.
    pub fn attached_session_mut(&mut self) -> (s: Option<&mut Session>)
        requires
            old(self).wf(),
        ensures
            old(self).attached is None ==> s is None && *final(self) == *old(self),
            old(self).attached matches Some(id) ==> (s is Some && s.unwrap().id == id && exists|i: int| 0 <= i < old(self).sessions@.len()
                && old(self).sessions@[i] == *s.unwrap()
                && final(self).sessions@ == old(self).sessions@.update(i, *final(s.unwrap()))
                && *final(self) == (Multiplexer { sessions: final(self).sessions, ..*old(self) })),
    {
        match self.attached {
            Some(id) => self.get_session_mut(id),
            None => None,
        }
    }

    /// The first session with the name.
    pub fn get_session_by_name(&self, name: &str) -> (s: Option<&Session>)
        ensures
            s is None <==> forall|k: int| 0 <= k < self.sessions@.len() ==> #[trigger] self.sessions@[k].name@ != name@,
            s matches Some(x) ==> exists|i: int| 0 <= i < self.sessions@.len() && self.sessions@[i] == *x
                && x.name@ == name@ && forall|k: int| 0 <= k < i ==> #[trigger] self.sessions@[k].name@ != name@,
    {
        match self.position_by_name(name) {
            Some(i) => Some(&self.sessions[i]),
            None => None,
        }
    }

    /// The sessions' ids, in order.
    pub fn session_ids(&self) -> (v: Vec<SessionId>)
        ensures
            v@ == ids_of(self.sessions@),
    {
        let mut v: Vec<SessionId> = Vec::new();
        let mut i: usize = 0;
        while i < self.sessions.len()
            invariant
                i <= self.sessions@.len(),
                v@ == ids_of(self.sessions@.subrange(0, i as int)),
            decreases self.sessions@.len() - i,
        {
            v.push(self.sessions[i].id);
            i = i + 1;
            proof { assert(ids_of(self.sessions@.subrange(0, i as int)) =~= v@); }
        }
        proof { assert(self.sessions@.subrange(0, i as int) =~= self.sessions@); }
        v
    }

    /// Each session's id and name, in order.
    pub fn list_sessions(&self) -> (v: Vec<(SessionId, String)>)
        ensures
            v@.len() == self.sessions@.len(),
            forall|i: int| 0 <= i < v@.len() ==> #[trigger] v@[i].0 == self.sessions@[i].id && v@[i].1@ == self.sessions@[i].name@,
    {
        let mut v: Vec<(SessionId, String)> = Vec::new();
        let mut i: usize = 0;
        while i < self.sessions.len()
            invariant
                i <= self.sessions@.len(),
                v@.len() == i,
                forall|k: int| 0 <= k < i ==> #[trigger] v@[k].0 == self.sessions@[k].id && v@[k].1@ == self.sessions@[k].name@,
            decreases self.sessions@.len() - i,
        {
            v.push((self.sessions[i].id, self.sessions[i].name().to_string()));
            i = i + 1;
        }
        v
    }

    /// Attach the session after the attached one, after the last the first;
    /// with none attached, the first. Nothing changes without sessions.
    pub fn next_session(&mut self)
        requires
            old(self).wf(),
        ensures
            final(self).wf(),
            *final(self) == (Multiplexer { attached: final(self).attached, ..*old(self) }),
            old(self).sessions@.len() == 0 ==> final(self).attached == old(self).attached,
            old(self).sessions@.len() > 0 ==> final(self).attached == Some(match old(self).attached {
                None => old(self).sessions@[0].id,
                Some(cur) => old(self).sessions@[next_index(index_of_id(old(self).sessions@, cur), old(self).sessions@.len() as int)].id,
            }),
    {
        if self.sessions.len() == 0 {
            return;
        }
        match self.attached {
            Some(cur) => {
                match self.position_of(cur) {
                    Some(pos) => {
                        proof { lemma_index_of_id(self.sessions@, pos as int); }
                        let next = (pos + 1) % self.sessions.len();
                        self.attached = Some(self.sessions[next].id);
                    }
                    None => {}
                }
            }
            None => {
                self.attached = Some(self.sessions[0].id);
            }
        }
    }

    /// Attach the session before the attached one, before the first the
    /// last; with none attached, the last. Nothing changes without sessions.
    pub fn prev_session(&mut self)
        requires
            old(self).wf(),
        ensures
            final(self).wf(),
            *final(self) == (Multiplexer { attached: final(self).attached, ..*old(self) }),
            old(self).sessions@.len() == 0 ==> final(self).attached == old(self).attached,
            old(self).sessions@.len() > 0 ==> final(self).attached == Some(match old(self).attached {
                None => old(self).sessions@.last().id,
                Some(cur) => old(self).sessions@[prev_index(index_of_id(old(self).sessions@, cur), old(self).sessions@.len() as int)].id,
            }),
    {
        if self.sessions.len() == 0 {
            return;
        }
        match self.attached {
            Some(cur) => {
                match self.position_of(cur) {
                    Some(pos) => {
                        proof { lemma_index_of_id(self.sessions@, pos as int); }
                        let prev = if pos == 0 { self.sessions.len() - 1 } else { pos - 1 };
                        self.attached = Some(self.sessions[prev].id);
                    }
                    None => {}
                }
            }
            None => {
                self.attached = Some(self.sessions[self.sessions.len() - 1].id);
            }
        }
    }
}

/// The index of the session with the id (ids being distinct, there is one
/// at most).
pub open spec fn index_of_id(ss: Seq<Session>, id: SessionId) -> int {
    choose|i: int| 0 <= i < ss.len() && ss[i].id == id
}

proof fn lemma_index_of_id(ss: Seq<Session>, pos: int)
    requires
        0 <= pos < ss.len(),
        forall|a: int, b: int| 0 <= a < b < ss.len() ==> #[trigger] ss[a].id.0 < #[trigger] ss[b].id.0,
    ensures
        index_of_id(ss, ss[pos].id) == pos,
{
    let id = ss[pos].id;
    assert(0 <= pos < ss.len() && ss[pos].id == id);
    let j = index_of_id(ss, id);
    if j < pos {
        assert(ss[j].id.0 < ss[pos].id.0);
    } else if j > pos {
        assert(ss[pos].id.0 < ss[j].id.0);
    }
}

} // verus!
