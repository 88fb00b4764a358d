//! In-memory sessions keyed by an identifier carried in a cookie.
use vstd::prelude::*;
use crate::clock::now_secs;
use crate::params::{lookup, ParamMap};
use crate::text::{eq_str, hex, lemma_tagged_hex_injective, push_hex};

verus! {

/// Identifier, creation time, last access, expiry (seconds since the epoch) and data.
pub type SessionView = (Seq<char>, u64, u64, u64, Seq<(Seq<char>, Seq<char>)>);

/// The identifier issued for clock reading `t` and serial number `c`.
pub open spec fn session_id_text(t: nat, c: nat) -> Seq<char> {
    hex(t) + "_"@ + hex(c)
}

/// `now + secs`, saturating.
pub open spec fn later(now: u64, secs: u64) -> u64 {
    if now as nat + secs as nat > u64::MAX { u64::MAX } else { (now + secs) as u64 }
}

fn later_exec(now: u64, secs: u64) -> (r: u64)
    ensures
        r == later(now, secs),
{
    if now > u64::MAX - secs {
        u64::MAX
    } else {
        now + secs
    }
}

/// One session.
#[derive(Debug, Clone)]
pub struct Session {
    pub id: String,
    pub data: ParamMap,
    pub created_at: u64,
    pub last_access: u64,
    pub expires_at: u64,
}

impl View for Session {
    type V = SessionView;

    open spec fn view(&self) -> SessionView {
        (self.id@, self.created_at, self.last_access, self.expires_at, self.data@)
    }
}

impl Session {
    /// Expired at `now`: strictly past its expiry.
    pub fn is_expired_at(&self, now: u64) -> (r: bool)
        ensures
            r == (now > self.expires_at),
    {
        now > self.expires_at
    }

    /// Expired by the wall clock.
    pub fn is_expired(&self) -> (r: bool)
        ensures
            self.expires_at == u64::MAX ==> !r,
    {
        self.is_expired_at(now_secs())
    }

    pub fn get(&self, key: &str) -> (r: Option<&String>)
        ensures
            match r {
                Some(v) => lookup(self.data@, key@) == Some(v@),
                None => lookup(self.data@, key@) is None,
            },
    {
        self.data.get(key)
    }

    pub fn set(&mut self, key: String, value: String)
        ensures
            final(self).data@ == old(self).data@.push((key@, value@)),
            final(self).id == old(self).id,
            final(self).created_at == old(self).created_at,
            final(self).last_access == old(self).last_access,
            final(self).expires_at == old(self).expires_at,
    {
        self.data.insert(key, value);
    }

    pub fn remove(&mut self, key: &str) -> (r: Option<String>)
        ensures
            match r {
                Some(v) => lookup(old(self).data@, key@) == Some(v@),
                None => lookup(old(self).data@, key@) is None,
            },
            lookup(final(self).data@, key@) is None,
            forall|k: Seq<char>| k != key@ ==> lookup(final(self).data@, k) == lookup(old(self).data@, k),
            final(self).id == old(self).id,
            final(self).expires_at == old(self).expires_at,
    {
        self.data.remove(key)
    }

    pub fn clear(&mut self)
        ensures
            final(self).data@ == Seq::<(Seq<char>, Seq<char>)>::empty(),
            final(self).id == old(self).id,
            final(self).expires_at == old(self).expires_at,
    {
        self.data.clear();
    }

    /// A copy of the session.
    pub fn copy(&self) -> (r: Session)
        ensures
            r@ == self@,
    {
        Session {
            id: self.id.clone(),
            data: self.data.copy(),
            created_at: self.created_at,
            last_access: self.last_access,
            expires_at: self.expires_at,
        }
    }
}

/// Sessions, the timeout each access extends them by, and the cookie naming them.
pub struct SessionManager {
    sessions: Vec<Session>,
    timeout_secs: u64,
    cookie_name: String,
    next_serial: u64,
    issued: Ghost<Set<Seq<char>>>,
}

/// Position of the session with identifier `id`.
pub open spec fn index_of(ss: Seq<SessionView>, id: Seq<char>, i: int) -> bool {
    0 <= i < ss.len() && ss[i].0 == id
}

/// A session with identifier `id` exists and has not expired at `now`.
pub open spec fn live(ss: Seq<SessionView>, id: Seq<char>, now: u64) -> bool {
    exists|i: int| index_of(ss, id, i) && now <= ss[i].3
}

/// The characters of an optional string.
pub open spec fn opt_view(o: Option<&str>) -> Option<Seq<char>> {
    match o {
        Some(s) => Some(s@),
        None => None,
    }
}

/// A session after an access at `now`: last access `now`, expiry slid by the timeout.
pub open spec fn touched(v: SessionView, now: u64, timeout: u64) -> SessionView {
    (v.0, v.1, now, later(now, timeout), v.4)
}

/// A new session created at `now`, with no data.
pub open spec fn fresh_session(id: Seq<char>, now: u64, timeout: u64) -> SessionView {
    (id, now, now, later(now, timeout), Seq::<(Seq<char>, Seq<char>)>::empty())
}

/// The sessions still live at `now`, in order.
pub open spec fn keep_live(ss: Seq<SessionView>, now: u64) -> Seq<SessionView>
    decreases ss.len(),
{
    if ss.len() == 0 {
        ss
    } else if now <= ss.last().3 {
        keep_live(ss.drop_last(), now).push(ss.last())
    } else {
        keep_live(ss.drop_last(), now)
    }
}

/// What `get_or_create_session` does at clock reading `now`: a live session
/// named by the cookie is kept and touched, nothing added or removed; else a
/// new, empty session under a never-issued, non-empty identifier is added.
pub open spec fn get_or_create_outcome(
    before: SessionManager,
    after: SessionManager,
    id: Option<Seq<char>>,
    now: u64,
    r: Seq<char>,
) -> bool {
    &&& after.timeout() == before.timeout()
    &&& after.cookie_name_spec() == before.cookie_name_spec()
    &&& live(after.sessions(), r, now)
    &&& if id is Some && live(before.sessions(), id.unwrap(), now) {
        &&& r == id.unwrap()
        &&& after.issued() == before.issued()
        &&& exists|i: int|
            index_of(before.sessions(), r, i) && after.sessions() == before.sessions().update(
                i,
                touched(before.sessions()[i], now, before.timeout()),
            )
    } else {
        &&& r.len() > 0
        &&& !before.issued().contains(r)
        &&& after.issued() == before.issued().insert(r)
        &&& after.sessions() == before.sessions().push(fresh_session(r, now, before.timeout()))
    }
}

/// What `get_session` returns at `now`: a copy of the live session, its expiry slid.
pub open spec fn get_outcome(before: SessionManager, after: SessionManager, id: Seq<char>, now: u64, r: Option<
    SessionView,
>) -> bool {
    &&& after.issued() == before.issued()
    &&& (r is Some <==> live(before.sessions(), id, now))
    &&& r matches Some(v) ==> v.0 == id && v.2 == now && v.3 == later(now, before.timeout())
}

/// The view of an optional session.
pub open spec fn opt_session(r: Option<Session>) -> Option<SessionView> {
    match r {
        Some(s) => Some(s@),
        None => None,
    }
}

/// What `update_session` does at `now`: succeeds exactly on a live session, which then holds the pair.
pub open spec fn update_outcome(
    before: SessionManager,
    after: SessionManager,
    id: Seq<char>,
    key: Seq<char>,
    value: Seq<char>,
    now: u64,
    ok: bool,
) -> bool {
    &&& after.issued() == before.issued()
    &&& (ok <==> live(before.sessions(), id, now))
    &&& ok ==> exists|i: int|
        index_of(after.sessions(), id, i) && lookup(after.sessions()[i].4, key) == Some(value)
}

impl SessionManager {
    /// The sessions held, in creation order.
    pub closed spec fn sessions(&self) -> Seq<SessionView> {
        self.sessions@.map_values(|s: Session| s@)
    }

    /// Every identifier this manager has ever handed out.
    pub closed spec fn issued(&self) -> Set<Seq<char>> {
        self.issued@
    }

    pub closed spec fn timeout(&self) -> u64 {
        self.timeout_secs
    }

    /// More identifiers can be issued.
    pub closed spec fn can_issue(&self) -> bool {
        self.next_serial < u64::MAX
    }

    pub closed spec fn wf(&self) -> bool {
        &&& forall|i: int, j: int|
            0 <= i < self.sessions@.len() && 0 <= j < self.sessions@.len() && i != j
                ==> #[trigger] self.sessions@[i].id@ != #[trigger] self.sessions@[j].id@
        &&& forall|i: int|
            0 <= i < self.sessions@.len() ==> self.issued@.contains(#[trigger] self.sessions@[i].id@)
        &&& forall|s: Seq<char>|
            #[trigger] self.issued@.contains(s) ==> exists|t: nat, c: nat|
                c < self.next_serial && s == session_id_text(t, c)
    }

    /// A manager with the `session_id` cookie.
    pub fn new(timeout_secs: u64) -> (r: SessionManager)
        ensures
            r.wf(),
            r.sessions().len() == 0,
            r.issued().is_empty(),
            r.timeout() == timeout_secs,
            r.can_issue(),
            r.cookie_name_spec() == "session_id"@,
    {
        SessionManager::with_cookie_name(timeout_secs, "session_id".to_owned())
    }

    pub fn with_cookie_name(timeout_secs: u64, cookie_name: String) -> (r: SessionManager)
        ensures
            r.wf(),
            r.sessions().len() == 0,
            r.issued().is_empty(),
            r.timeout() == timeout_secs,
            r.can_issue(),
            r.cookie_name_spec() == cookie_name@,
    {
        let r = SessionManager {
            sessions: Vec::new(),
            timeout_secs,
            cookie_name,
            next_serial: 0,
            issued: Ghost(Set::empty()),
        };
        assert(r.issued@ =~= Set::<Seq<char>>::empty());
        r
    }

    pub closed spec fn cookie_name_spec(&self) -> Seq<char> {
        self.cookie_name@
    }

    fn find(&self, id: &str) -> (r: Option<usize>)
        ensures
            match r {
                Some(i) => index_of(self.sessions(), id@, i as int),
                None => forall|i: int| 0 <= i < self.sessions().len() ==> !index_of(self.sessions(), id@, i),
            },
    {
        let n = self.sessions.len();
        let mut i: usize = 0;
        while i < n
            invariant
                n == self.sessions@.len(),
                i <= n,
                forall|j: int| 0 <= j < i ==> !index_of(self.sessions(), id@, j),
            decreases n - i,
        {
            if eq_str(self.sessions[i].id.as_str(), id) {
                return Some(i);
            }
            i = i + 1;
        }
        None
    }

    /// Starts a session at clock reading `now` under an identifier never issued before.
    pub fn create_session_at(&mut self, now: u64) -> (r: String)
        requires
            old(self).wf(),
            old(self).can_issue(),
        ensures
            final(self).wf(),
            r@.len() > 0,
            !old(self).issued().contains(r@),
            final(self).issued() == old(self).issued().insert(r@),
            final(self).sessions() == old(self).sessions().push(
                (r@, now, now, later(now, old(self).timeout()), Seq::<(Seq<char>, Seq<char>)>::empty()),
            ),
            final(self).timeout() == old(self).timeout(),
            final(self).cookie_name_spec() == old(self).cookie_name_spec(),
    {
        let serial = self.next_serial;
        let mut id = String::new();
        push_hex(&mut id, now);
        id.append("_");
        push_hex(&mut id, serial);
        proof {
            assert(id@ =~= session_id_text(now as nat, serial as nat));
            crate::text::lemma_hex_shape(now as nat);
            if self.issued@.contains(id@) {
                let (t, c) = choose|t: nat, c: nat| c < self.next_serial && id@ == session_id_text(t, c);
                lemma_tagged_hex_injective(t, c, now as nat, serial as nat);
            }
        }
        let session = Session {
            id: id.clone(),
            data: ParamMap::new(),
            created_at: now,
            last_access: now,
            expires_at: later_exec(now, self.timeout_secs),
        };
        let ghost old_issued = self.issued@;
        self.sessions.push(session);
        self.next_serial = serial + 1;
        self.issued = Ghost(old_issued.insert(id@));
        proof {
            assert(self.sessions() =~= old(self).sessions().push(session@));
            assert forall|s: Seq<char>| #[trigger] self.issued@.contains(s) implies exists|t: nat, c: nat|
                c < self.next_serial && s == session_id_text(t, c) by {
                if s != id@ {
                    assert(old_issued.contains(s));
                    let (t, c) = choose|t: nat, c: nat| c < old(self).next_serial && s == session_id_text(t, c);
                    assert(c < self.next_serial && s == session_id_text(t, c));
                } else {
                    assert(serial < self.next_serial && s == session_id_text(now as nat, serial as nat));
                }
            }
            assert forall|i: int, j: int|
                0 <= i < self.sessions@.len() && 0 <= j < self.sessions@.len() && i != j
                    implies #[trigger] self.sessions@[i].id@ != #[trigger] self.sessions@[j].id@ by {
                let last = self.sessions@.len() - 1;
                if i == last {
                    assert(old_issued.contains(self.sessions@[j].id@));
                } else if j == last {
                    assert(old_issued.contains(self.sessions@[i].id@));
                } else {
                    assert(self.sessions@[i] == old(self).sessions@[i]);
                    assert(self.sessions@[j] == old(self).sessions@[j]);
                }
            }
            assert forall|i: int| 0 <= i < self.sessions@.len() implies self.issued@.contains(
                #[trigger] self.sessions@[i].id@,
            ) by {
                if i < self.sessions@.len() - 1 {
                    assert(self.sessions@[i] == old(self).sessions@[i]);
                }
            }
        }
        id
    }

    /// Starts a session now.
    pub fn create_session(&mut self) -> (r: String)
        requires
            old(self).wf(),
            old(self).can_issue(),
        ensures
            final(self).wf(),
            !old(self).issued().contains(r@),
            final(self).issued() == old(self).issued().insert(r@),
            r@.len() > 0,
            exists|now: u64| final(self).sessions() == old(self).sessions().push(#[trigger] fresh_session(r@, now, old(self).timeout())),
    {
        let now = now_secs();
        let r = self.create_session_at(now);
        assert(self.sessions() == old(self).sessions().push(fresh_session(r@, now, old(self).timeout())));
        r
    }

    /// Extends session `i` from `now` by the timeout.
    fn touch_at(&mut self, i: usize, now: u64)
        requires
            old(self).wf(),
            i < old(self).sessions().len(),
        ensures
            final(self).wf(),
            final(self).sessions@.len() == old(self).sessions@.len(),
            final(self).issued() == old(self).issued(),
            final(self).timeout() == old(self).timeout(),
            final(self).cookie_name_spec() == old(self).cookie_name_spec(),
            final(self).sessions() == old(self).sessions().update(
                i as int,
                (
                    old(self).sessions()[i as int].0,
                    old(self).sessions()[i as int].1,
                    now,
                    later(now, old(self).timeout()),
                    old(self).sessions()[i as int].4,
                ),
            ),
    {
        let mut s = self.sessions.remove(i);
        s.last_access = now;
        s.expires_at = later_exec(now, self.timeout_secs);
        self.sessions.insert(i, s);
        proof {
            assert(self.sessions() =~= old(self).sessions().update(
                i as int,
                (
                    old(self).sessions()[i as int].0,
                    old(self).sessions()[i as int].1,
                    now,
                    later(now, old(self).timeout()),
                    old(self).sessions()[i as int].4,
                ),
            ));
            assert forall|a: int, b: int|
                0 <= a < self.sessions@.len() && 0 <= b < self.sessions@.len() && a != b
                    implies #[trigger] self.sessions@[a].id@ != #[trigger] self.sessions@[b].id@ by {
                assert(self.sessions@[a].id@ == old(self).sessions@[a].id@);
                assert(self.sessions@[b].id@ == old(self).sessions@[b].id@);
            }
            assert forall|a: int| 0 <= a < self.sessions@.len() implies self.issued@.contains(
                #[trigger] self.sessions@[a].id@,
            ) by {
                assert(self.sessions@[a].id@ == old(self).sessions@[a].id@);
            }
        }
    }

    /// Drops session `i`.
    fn drop_at(&mut self, i: usize)
        requires
            old(self).wf(),
            i < old(self).sessions().len(),
        ensures
            final(self).wf(),
            final(self).sessions@.len() == old(self).sessions@.len() - 1,
            final(self).issued() == old(self).issued(),
            final(self).timeout() == old(self).timeout(),
            final(self).cookie_name_spec() == old(self).cookie_name_spec(),
            final(self).sessions() == old(self).sessions().remove(i as int),
    {
        self.sessions.remove(i);
        proof {
            assert(self.sessions() =~= old(self).sessions().remove(i as int));
            assert forall|a: int, b: int|
                0 <= a < self.sessions@.len() && 0 <= b < self.sessions@.len() && a != b
                    implies #[trigger] self.sessions@[a].id@ != #[trigger] self.sessions@[b].id@ by {
                let a2 = if a < i { a } else { a + 1 };
                let b2 = if b < i { b } else { b + 1 };
                assert(self.sessions@[a] == old(self).sessions@[a2]);
                assert(self.sessions@[b] == old(self).sessions@[b2]);
            }
            assert forall|a: int| 0 <= a < self.sessions@.len() implies self.issued@.contains(
                #[trigger] self.sessions@[a].id@,
            ) by {
                let a2 = if a < i { a } else { a + 1 };
                assert(self.sessions@[a] == old(self).sessions@[a2]);
            }
        }
    }

    /// The session a request belongs to at clock reading `now`: the one its
    /// cookie names when that session is live (its expiry then slides), else a
    /// new session under an identifier never issued before.
    pub fn get_or_create_session_at(&mut self, session_id: Option<&str>, now: u64) -> (r: String)
        requires
            old(self).wf(),
            old(self).can_issue(),
        ensures
            final(self).wf(),
            get_or_create_outcome(
                *old(self),
                *final(self),
                opt_view(session_id),
                now,
                r@,
            ),
    {
        if let Some(id) = session_id {
            if let Some(i) = self.find(id) {
                if now <= self.sessions[i].expires_at {
                    self.touch_at(i, now);
                    assert(index_of(self.sessions(), id@, i as int));
                    proof {
                        assert(later(now, self.timeout()) >= now);
                        assert(live(old(self).sessions(), id@, now));
                        assert(index_of(old(self).sessions(), id@, i as int));
                    }
                    return id.to_owned();
                }
                assert(!live(old(self).sessions(), id@, now)) by {
                    if live(old(self).sessions(), id@, now) {
                        let j = choose|j: int| index_of(old(self).sessions(), id@, j) && now <= old(self).sessions()[j].3;
                        if j != i {
                            assert(old(self).sessions@[j].id@ != old(self).sessions@[i as int].id@);
                        }
                    }
                }
            }
        }
        let r = self.create_session_at(now);
        assert(index_of(self.sessions(), r@, self.sessions().len() - 1));
        r
    }

    /// As `get_or_create_session_at`, by the wall clock; always `Some`.
    pub fn get_or_create_session(&mut self, session_id: Option<&str>) -> (r: Option<String>)
        requires
            old(self).wf(),
            old(self).can_issue(),
        ensures
            final(self).wf(),
            r is Some,
            exists|now: u64|
                #[trigger] get_or_create_outcome(
                    *old(self),
                    *final(self),
                    opt_view(session_id),
                    now,
                    r.unwrap()@,
                ),
    {
        let now = now_secs();
        let r = self.get_or_create_session_at(session_id, now);
        let res = Some(r);
        assert(get_or_create_outcome(*old(self), *self, opt_view(session_id), now, res.unwrap()@));
        res
    }

    /// A copy of session `id` at `now`, its expiry extended; an expired one is dropped.
    pub fn get_session_at(&mut self, session_id: &str, now: u64) -> (r: Option<Session>)
        requires
            old(self).wf(),
        ensures
            final(self).wf(),
            final(self).issued() == old(self).issued(),
            r is Some <==> live(old(self).sessions(), session_id@, now),
            r matches Some(s) ==> s.id@ == session_id@ && s.expires_at == later(now, old(self).timeout())
                && s.last_access == now,
            get_outcome(*old(self), *final(self), session_id@, now, opt_session(r)),
    {
        match self.find(session_id) {
            Some(i) => {
                if now > self.sessions[i].expires_at {
                    assert(!live(old(self).sessions(), session_id@, now)) by {
                        if live(old(self).sessions(), session_id@, now) {
                            let j = choose|j: int| index_of(old(self).sessions(), session_id@, j) && now <= old(self).sessions()[j].3;
                            if j != i {
                                assert(old(self).sessions@[j].id@ != old(self).sessions@[i as int].id@);
                            }
                        }
                    }
                    self.drop_at(i);
                    return None;
                }
                self.touch_at(i, now);
                let s = self.sessions[i].copy();
                assert(s@ == self.sessions()[i as int]);
                Some(s)
            },
            None => None,
        }
    }

    pub fn get_session(&mut self, session_id: &str) -> (r: Option<Session>)
        requires
            old(self).wf(),
        ensures
            final(self).wf(),
            r matches Some(s) ==> s.id@ == session_id@,
            exists|now: u64| #[trigger] get_outcome(*old(self), *final(self), session_id@, now, opt_session(r)),
    {
        let now = now_secs();
        let r = self.get_session_at(session_id, now);
        assert(get_outcome(*old(self), *self, session_id@, now, opt_session(r)));
        r
    }

    /// Stores `key = value` in live session `id` at `now`.
    pub fn update_session_at(&mut self, session_id: &str, key: String, value: String, now: u64) -> (r:
        Result<(), String>)
        requires
            old(self).wf(),
        ensures
            final(self).wf(),
            final(self).issued() == old(self).issued(),
            r is Ok <==> live(old(self).sessions(), session_id@, now),
            r is Ok ==> exists|i: int|
                index_of(final(self).sessions(), session_id@, i) && lookup(final(self).sessions()[i].4, key@)
                    == Some(value@),
            update_outcome(*old(self), *final(self), session_id@, key@, value@, now, r is Ok),
    {
        match self.find(session_id) {
            Some(i) => {
                if now > self.sessions[i].expires_at {
                    assert(!live(old(self).sessions(), session_id@, now)) by {
                        if live(old(self).sessions(), session_id@, now) {
                            let j = choose|j: int| index_of(old(self).sessions(), session_id@, j) && now <= old(self).sessions()[j].3;
                            if j != i {
                                assert(old(self).sessions@[j].id@ != old(self).sessions@[i as int].id@);
                            }
                        }
                    }
                    self.drop_at(i);
                    return Err("Session expired".to_owned());
                }
                self.touch_at(i, now);
                let ghost mid = self.sessions();
                let mut s = self.sessions.remove(i);
                s.set(key, value);
                self.sessions.insert(i, s);
                proof {
                    assert(self.sessions()[i as int].4 == mid[i as int].4.push((key@, value@)));
                    assert(index_of(self.sessions(), session_id@, i as int));
                    assert forall|a: int, b: int|
                        0 <= a < self.sessions@.len() && 0 <= b < self.sessions@.len() && a != b
                            implies #[trigger] self.sessions@[a].id@ != #[trigger] self.sessions@[b].id@ by {
                        assert(self.sessions()[a].0 == mid[a].0);
                        assert(self.sessions()[b].0 == mid[b].0);
                    }
                    assert forall|a: int| 0 <= a < self.sessions@.len() implies self.issued@.contains(
                        #[trigger] self.sessions@[a].id@,
                    ) by {
                        assert(self.sessions()[a].0 == mid[a].0);
                    }
                }
                Ok(())
            },
            None => Err("Session not found".to_owned()),
        }
    }

    pub fn update_session(&mut self, session_id: &str, key: String, value: String) -> (r: Result<(), String>)
        requires
            old(self).wf(),
        ensures
            final(self).wf(),
            exists|now: u64| #[trigger] update_outcome(*old(self), *final(self), session_id@, key@, value@, now, r is Ok),
    {
        let now = now_secs();
        let ghost kv = (key@, value@);
        let r = self.update_session_at(session_id, key, value, now);
        assert(update_outcome(*old(self), *self, session_id@, kv.0, kv.1, now, r is Ok));
        r
    }

    /// Removes `key` from live session `id` at `now`, returning its value.
    pub fn remove_from_session_at(&mut self, session_id: &str, key: &str, now: u64) -> (r: Result<
        Option<String>,
        String,
    >)
        requires
            old(self).wf(),
        ensures
            final(self).wf(),
            final(self).issued() == old(self).issued(),
            r is Ok <==> live(old(self).sessions(), session_id@, now),
    {
        match self.find(session_id) {
            Some(i) => {
                if now > self.sessions[i].expires_at {
                    assert(!live(old(self).sessions(), session_id@, now)) by {
                        if live(old(self).sessions(), session_id@, now) {
                            let j = choose|j: int| index_of(old(self).sessions(), session_id@, j) && now <= old(self).sessions()[j].3;
                            if j != i {
                                assert(old(self).sessions@[j].id@ != old(self).sessions@[i as int].id@);
                            }
                        }
                    }
                    self.drop_at(i);
                    return Err("Session expired".to_owned());
                }
                self.touch_at(i, now);
                let ghost mid = self.sessions();
                let mut s = self.sessions.remove(i);
                let v = s.remove(key);
                self.sessions.insert(i, s);
                proof {
                    assert forall|a: int, b: int|
                        0 <= a < self.sessions@.len() && 0 <= b < self.sessions@.len() && a != b
                            implies #[trigger] self.sessions@[a].id@ != #[trigger] self.sessions@[b].id@ by {
                        assert(self.sessions()[a].0 == mid[a].0);
                        assert(self.sessions()[b].0 == mid[b].0);
                    }
                    assert forall|a: int| 0 <= a < self.sessions@.len() implies self.issued@.contains(
                        #[trigger] self.sessions@[a].id@,
                    ) by {
                        assert(self.sessions()[a].0 == mid[a].0);
                    }
                }
                Ok(v)
            },
            None => Err("Session not found".to_owned()),
        }
    }

    pub fn remove_from_session(&mut self, session_id: &str, key: &str) -> (r: Result<Option<String>, String>)
        requires
            old(self).wf(),
        ensures
            final(self).wf(),
    {
        let now = now_secs();
        self.remove_from_session_at(session_id, key, now)
    }

    /// Ends session `id`.
    pub fn delete_session(&mut self, session_id: &str)
        requires
            old(self).wf(),
        ensures
            final(self).wf(),
            forall|i: int| 0 <= i < final(self).sessions().len() ==> !index_of(final(self).sessions(), session_id@, i),
    {
        match self.find(session_id) {
            Some(i) => {
                self.drop_at(i);
                assert forall|a: int| 0 <= a < self.sessions().len() implies !index_of(self.sessions(), session_id@, a) by {
                    let a2 = if a < i { a } else { a + 1 };
                    assert(self.sessions()[a] == old(self).sessions()[a2]);
                    assert(old(self).sessions@[a2].id@ != old(self).sessions@[i as int].id@);
                }
            },
            None => {},
        }
    }

    /// Drops every session expired at `now`; returns how many went.
    pub fn cleanup_expired_at(&mut self, now: u64) -> (r: usize)
        requires
            old(self).wf(),
        ensures
            final(self).wf(),
            final(self).issued() == old(self).issued(),
            r + final(self).sessions().len() == old(self).sessions().len(),
            forall|i: int| 0 <= i < final(self).sessions().len() ==> now <= #[trigger] final(self).sessions()[i].3,
            final(self).sessions() == keep_live(old(self).sessions(), now),
    {
        let ghost o = old(self).sessions();
        let ghost mut j: int = 0;
        let total = self.sessions.len();
        let mut removed: usize = 0;
        let mut i: usize = 0;
        while i < self.sessions.len()
            invariant
                total == old(self).sessions@.len(),
                self.wf(),
                self.issued() == old(self).issued(),
                i <= self.sessions@.len(),
                removed + self.sessions@.len() == old(self).sessions@.len(),
                forall|k: int| 0 <= k < i ==> now <= #[trigger] self.sessions()[k].3,
                o == old(self).sessions(),
                0 <= j <= o.len(),
                i == keep_live(o.subrange(0, j), now).len(),
                self.sessions() == keep_live(o.subrange(0, j), now) + o.subrange(j, o.len() as int),
            decreases self.sessions@.len() - i,
        {
            let ghost kl = keep_live(o.subrange(0, j), now);
            assert(self.sessions()[i as int] == o[j]);
            assert(o.subrange(0, j + 1).drop_last() =~= o.subrange(0, j));
            if now > self.sessions[i].expires_at {
                let ghost before = self.sessions();
                self.drop_at(i);
                removed = removed + 1;
                assert forall|k: int| 0 <= k < i implies now <= #[trigger] self.sessions()[k].3 by {
                    assert(self.sessions()[k] == before[k]);
                }
                proof {
                    assert(self.sessions() =~= kl + o.subrange(j + 1, o.len() as int));
                    j = j + 1;
                }
            } else {
                i = i + 1;
                proof {
                    assert(kl.push(o[j]) + o.subrange(j + 1, o.len() as int) =~= kl + o.subrange(j, o.len() as int));
                    j = j + 1;
                }
            }
        }
        proof {
            assert(j == o.len()) by {
                assert(self.sessions().len() == i);
            }
            assert(o.subrange(0, j) =~= o);
            assert(self.sessions() =~= keep_live(o, now));
        }
        removed
    }

    pub fn cleanup_expired(&mut self) -> (r: usize)
        requires
            old(self).wf(),
        ensures
            final(self).wf(),
            r + final(self).sessions().len() == old(self).sessions().len(),
            exists|now: u64| final(self).sessions() == #[trigger] keep_live(old(self).sessions(), now),
    {
        let now = now_secs();
        let r = self.cleanup_expired_at(now);
        assert(self.sessions() == keep_live(old(self).sessions(), now));
        r
    }

    pub fn cookie_name(&self) -> (r: &str)
        ensures
            r@ == self.cookie_name_spec(),
    {
        self.cookie_name.as_str()
    }

    pub fn timeout_secs(&self) -> (r: u64)
        ensures
            r == self.timeout(),
    {
        self.timeout_secs
    }

    /// Whether another identifier can be issued.
    pub fn has_capacity(&self) -> (r: bool)
        ensures
            r == self.can_issue(),
    {
        self.next_serial < u64::MAX
    }
}

} // verus!
