//! Tracks connected receivers and the UDP address each one is reachable at.
//!
//! The lock around it and the channel that wakes a handshake waiting for its
//! punch belong to the program; which session a punch belongs to, whether the
//! handshake still waits for it, and where media goes are decided here.

use vstd::prelude::*;

use crate::ids::random_u64;
use crate::net::Endpoint;

verus! {

pub type SessionId = u64;

struct Session {
    id: SessionId,
    name: String,
    media: Option<Endpoint>,
    /// The handshake is still waiting to hear where the receiver's punch
    /// came from.
    punch_pending: bool,
}

/// A session as plain values.
pub struct SessionView {
    pub id: SessionId,
    pub name: Seq<char>,
    pub media: Option<(Seq<char>, u16, bool)>,
    pub punch_pending: bool,
}

impl Session {
    spec fn view(self) -> SessionView {
        SessionView {
            id: self.id,
            name: self.name@,
            media: match self.media {
                Some(e) => Some(e.addr()),
                None => None,
            },
            punch_pending: self.punch_pending,
        }
    }
}

/// The outcome of a punch.
pub enum Attached {
    /// No open session has that id.
    Unknown,
    /// The session's address is updated; its handshake already knew one.
    Updated,
    /// The session's first punch: its handshake is waiting to hear the address.
    First,
}

/// Where session `id` stands among `entries`.
pub open spec fn index_of(entries: Seq<SessionView>, id: SessionId) -> Option<int> {
    if exists|i: int| 0 <= i < entries.len() && entries[i].id == id {
        Some(choose|i: int| 0 <= i < entries.len() && entries[i].id == id)
    } else {
        None
    }
}

pub open spec fn distinct_ids(entries: Seq<SessionView>) -> bool {
    forall|i: int, j: int|
        0 <= i < entries.len() && 0 <= j < entries.len() && i != j ==> entries[i].id != entries[j].id
}

/// The sessions after `id` is opened for `name`: a fresh entry, replacing one
/// with the same id where there is one.
pub open spec fn opened(entries: Seq<SessionView>, id: SessionId, name: Seq<char>) -> Seq<SessionView> {
    let fresh = SessionView { id, name, media: None, punch_pending: true };
    match index_of(entries, id) {
        Some(i) => entries.update(i, fresh),
        None => entries.push(fresh),
    }
}

/// The sessions after a punch for `id` arrived from `addr`.
pub open spec fn attached(entries: Seq<SessionView>, id: SessionId, addr: (Seq<char>, u16, bool)) -> Seq<SessionView> {
    match index_of(entries, id) {
        Some(i) => entries.update(i, SessionView { media: Some(addr), punch_pending: false, ..entries[i] }),
        None => entries,
    }
}

/// The media addresses of the sessions that have one, in order.
pub open spec fn medias(entries: Seq<SessionView>) -> Seq<(Seq<char>, u16, bool)>
    decreases entries.len(),
{
    if entries.len() == 0 {
        Seq::empty()
    } else {
        let rest = medias(entries.drop_last());
        match entries.last().media {
            Some(a) => rest.push(a),
            None => rest,
        }
    }
}

pub open spec fn addrs(v: Seq<Endpoint>) -> Seq<(Seq<char>, u16, bool)> {
    v.map_values(|e: Endpoint| e.addr())
}

pub struct Registry {
    sessions: Vec<Session>,
    static_targets: Vec<Endpoint>,
}

impl Registry {
    #[verifier::type_invariant]
    spec fn ids_are_distinct(self) -> bool {
        distinct_ids(self.entries())
    }

    /// The open sessions, oldest first.
    pub closed spec fn entries(self) -> Seq<SessionView> {
        self.sessions@.map_values(|s: Session| s.view())
    }

    /// Receivers that always get media, without a handshake.
    pub closed spec fn statics(self) -> Seq<(Seq<char>, u16, bool)> {
        addrs(self.static_targets@)
    }

    /// Everywhere a packet goes: the static receivers, then every session
    /// that has been reached.
    pub open spec fn targets_spec(self) -> Seq<(Seq<char>, u16, bool)> {
        self.statics() + medias(self.entries())
    }

    pub fn new() -> (r: Self)
        ensures
            r.entries() == Seq::<SessionView>::empty(),
            r.statics() == Seq::<(Seq<char>, u16, bool)>::empty(),
    {
        let r = Registry { sessions: Vec::new(), static_targets: Vec::new() };
        assert(r.entries() =~= Seq::<SessionView>::empty());
        assert(r.statics() =~= Seq::<(Seq<char>, u16, bool)>::empty());
        r
    }

    fn find(&self, id: SessionId) -> (r: Option<usize>)
        ensures
            match r {
                Some(i) => index_of(self.entries(), id) == Some(i as int),
                None => index_of(self.entries(), id) is None,
            },
    {
        proof {
            use_type_invariant(self);
        }
        let mut i: usize = 0;
        while i < self.sessions.len()
            invariant
                i <= self.sessions@.len(),
                distinct_ids(self.entries()),
                forall|j: int| 0 <= j < i ==> self.entries()[j].id != id,
            decreases self.sessions@.len() - i,
        {
            if self.sessions[i].id == id {
                proof {
                    let e = self.entries();
                    assert(e[i as int].id == id);
                    let c = choose|k: int| 0 <= k < e.len() && e[k].id == id;
                    assert(c == i);
                }
                return Some(i);
            }
            i += 1;
        }
        None
    }

    /// Reserves session `id` for the receiver called `name`; its handshake
    /// waits for the punch.
    pub fn open_with(&mut self, id: SessionId, name: String)
        ensures
            final(self).entries() == opened(old(self).entries(), id, name@),
            final(self).statics() == old(self).statics(),
    {
        proof {
            use_type_invariant(&*self);
        }
        let fresh = Session { id, name, media: None, punch_pending: true };
        let ghost e = self.entries();
        match self.find(id) {
            Some(i) => {
                let mut sessions: Vec<Session> = Vec::new();
                std::mem::swap(&mut sessions, &mut self.sessions);
                sessions.set(i, fresh);
                assert(sessions@.map_values(|s: Session| s.view()) =~= opened(e, id, fresh.name@));
                self.sessions = sessions;
            },
            None => {
                let mut sessions: Vec<Session> = Vec::new();
                std::mem::swap(&mut sessions, &mut self.sessions);
                sessions.push(fresh);
                assert(sessions@.map_values(|s: Session| s.view()) =~= opened(e, id, fresh.name@));
                self.sessions = sessions;
            },
        }
    }

    /// Reserves a session under a fresh random id and returns the id, or
    /// `None`, with nothing reserved, when the system has no randomness to
    /// give.
    pub fn open(&mut self, name: String) -> (r: Option<SessionId>)
        ensures
            match r {
                Some(id) => final(self).entries() == opened(old(self).entries(), id, name@),
                None => final(self).entries() == old(self).entries(),
            },
            final(self).statics() == old(self).statics(),
    {
        let id = random_u64()?;
        self.open_with(id, name);
        Some(id)
    }

    /// Records that session `id`'s receiver is reachable at `addr`.
    pub fn attach_media(&mut self, id: SessionId, addr: Endpoint) -> (r: Attached)
        ensures
            final(self).entries() == attached(old(self).entries(), id, addr.addr()),
            final(self).statics() == old(self).statics(),
            match index_of(old(self).entries(), id) {
                None => r is Unknown,
                Some(i) => if old(self).entries()[i].punch_pending {
                    r is First
                } else {
                    r is Updated
                },
            },
    {
        proof {
            use_type_invariant(&*self);
        }
        let ghost e = self.entries();
        let ghost a = addr.addr();
        match self.find(id) {
            None => Attached::Unknown,
            Some(i) => {
                let mut sessions: Vec<Session> = Vec::new();
                std::mem::swap(&mut sessions, &mut self.sessions);
                let old_session = sessions.remove(i);
                let first = old_session.punch_pending;
                let updated = Session {
                    id: old_session.id,
                    name: old_session.name,
                    media: Some(addr),
                    punch_pending: false,
                };
                sessions.insert(i, updated);
                assert(sessions@.map_values(|s: Session| s.view()) =~= attached(e, id, a));
                self.sessions = sessions;
                if first {
                    Attached::First
                } else {
                    Attached::Updated
                }
            },
        }
    }

    /// Ends session `id`, returning the name of the receiver it belonged to.
    pub fn close(&mut self, id: SessionId) -> (r: Option<String>)
        ensures
            match index_of(old(self).entries(), id) {
                None => r is None && final(self).entries() == old(self).entries(),
                Some(i) => {
                    &&& r matches Some(n) && n@ == old(self).entries()[i].name
                    &&& final(self).entries() == old(self).entries().remove(i)
                },
            },
            final(self).statics() == old(self).statics(),
    {
        proof {
            use_type_invariant(&*self);
        }
        let ghost e = self.entries();
        match self.find(id) {
            None => None,
            Some(i) => {
                let mut sessions: Vec<Session> = Vec::new();
                std::mem::swap(&mut sessions, &mut self.sessions);
                let gone = sessions.remove(i);
                assert(sessions@.map_values(|s: Session| s.view()) =~= e.remove(i as int));
                proof {
                    assert forall|a: int, b: int|
                        0 <= a < e.len() - 1 && 0 <= b < e.len() - 1 && a != b implies e.remove(
                        i as int,
                    )[a].id != e.remove(i as int)[b].id by {
                        let a2 = if a < i { a } else { a + 1 };
                        let b2 = if b < i { b } else { b + 1 };
                        assert(e.remove(i as int)[a] == e[a2]);
                        assert(e.remove(i as int)[b] == e[b2]);
                    }
                }
                self.sessions = sessions;
                Some(gone.name)
            },
        }
    }

    pub fn add_static_target(&mut self, addr: Endpoint)
        ensures
            final(self).statics() == old(self).statics().push(addr.addr()),
            final(self).entries() == old(self).entries(),
    {
        proof {
            use_type_invariant(&*self);
        }
        let ghost a = addr.addr();
        let mut targets: Vec<Endpoint> = Vec::new();
        std::mem::swap(&mut targets, &mut self.static_targets);
        let ghost before = targets@;
        targets.push(addr);
        assert(addrs(targets@) =~= addrs(before).push(a));
        self.static_targets = targets;
    }

    /// Every address a packet goes to: the static receivers, then each
    /// session that has been reached, oldest first.
    pub fn targets(&self) -> (r: Vec<Endpoint>)
        ensures
            addrs(r@) == self.targets_spec(),
    {
        let mut out: Vec<Endpoint> = Vec::new();
        let mut i: usize = 0;
        while i < self.static_targets.len()
            invariant
                i <= self.static_targets@.len(),
                addrs(out@) == addrs(self.static_targets@).take(i as int),
            decreases self.static_targets@.len() - i,
        {
            let e = self.static_targets[i].clone();
            assert(e.addr() == self.static_targets@[i as int].addr());
            let ghost before = out@;
            out.push(e);
            assert(out@ == before.push(e));
            assert(addrs(out@) =~= addrs(before).push(e.addr()));
            assert(addrs(out@) =~= addrs(self.static_targets@).take(i + 1));
            i += 1;
        }
        assert(addrs(self.static_targets@).take(i as int) =~= self.statics());
        let ghost entries = self.entries();
        let mut j: usize = 0;
        assert(entries.take(0) =~= Seq::<SessionView>::empty());
        assert(addrs(out@) =~= self.statics() + medias(entries.take(0)));
        while j < self.sessions.len()
            invariant
                entries == self.entries(),
                j <= self.sessions@.len(),
                addrs(out@) == self.statics() + medias(entries.take(j as int)),
            decreases self.sessions@.len() - j,
        {
            assert(entries.take(j + 1).drop_last() =~= entries.take(j as int));
            assert(entries.take(j + 1).last() == self.sessions@[j as int].view());
            match &self.sessions[j].media {
                Some(m) => {
                    let c = m.clone();
                    assert(c.addr() == m.addr());
                    let ghost before = out@;
                    out.push(c);
                    assert(addrs(out@) =~= addrs(before).push(c.addr()));
                    assert(addrs(out@) =~= self.statics() + medias(entries.take(j + 1)));
                },
                None => {},
            }
            j += 1;
        }
        assert(entries.take(j as int) =~= entries);
        out
    }
}

/// Once a punch has told a session's handshake where its receiver is, a
/// later punch for it never does so again, and the address it brings is
/// among the targets either way.
pub proof fn lemma_punch_wakes_the_handshake_once(
    entries: Seq<SessionView>,
    id: SessionId,
    first: (Seq<char>, u16, bool),
    second: (Seq<char>, u16, bool),
)
    requires
        distinct_ids(entries),
        index_of(entries, id) is Some,
    ensures
        ({
            let after = attached(entries, id, first);
            &&& index_of(after, id) is Some
            &&& !after[index_of(after, id).unwrap()].punch_pending
            &&& medias(attached(after, id, second)).contains(second)
        }),
{
    let i = index_of(entries, id).unwrap();
    let after = attached(entries, id, first);
    assert(after[i].id == id);
    assert(index_of(after, id) is Some);
    let k = index_of(after, id).unwrap();
    assert(after[k].id == id);
    if k != i {
        assert(entries[k].id == after[k].id);
    }
    assert(after[k].punch_pending == false);
    lemma_media_listed(after, id, second);
}

proof fn lemma_media_listed(entries: Seq<SessionView>, id: SessionId, addr: (Seq<char>, u16, bool))
    requires
        index_of(entries, id) is Some,
    ensures
        medias(attached(entries, id, addr)).contains(addr),
{
    let i = index_of(entries, id).unwrap();
    let after = attached(entries, id, addr);
    assert(after[i].media == Some(addr));
    lemma_medias_contains(after, i);
}

proof fn lemma_medias_contains(entries: Seq<SessionView>, i: int)
    requires
        0 <= i < entries.len(),
        entries[i].media is Some,
    ensures
        medias(entries).contains(entries[i].media.unwrap()),
    decreases entries.len(),
{
    let a = entries[i].media.unwrap();
    let rest = medias(entries.drop_last());
    if i == entries.len() - 1 {
        assert(medias(entries) == rest.push(a));
        assert(medias(entries)[rest.len() as int] == a);
    } else {
        assert(entries.drop_last()[i] == entries[i]);
        lemma_medias_contains(entries.drop_last(), i);
        let k = choose|k: int| 0 <= k < rest.len() && rest[k] == a;
        match entries.last().media {
            Some(b) => {
                assert(medias(entries)[k] == a);
            },
            None => {},
        }
    }
}

} // verus!
