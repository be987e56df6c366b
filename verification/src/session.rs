//! MCP sessions: creation, lookup, activity tracking and expiry after an
//! idle time-to-live. Times are nanoseconds on the store's monotonic clock,
//! counted from the store's creation.
use vstd::prelude::*;
use std::time::Instant;
use crate::text::str_eq;

verus! {

#[verifier::external_type_specification]
#[verifier::external_body]
pub struct ExInstant(Instant);

/// `Instant::now`: a reading of the monotonic clock. Nothing is promised of it.
#[verifier::external_body]
fn clock_origin() -> Instant {
    Instant::now()
}

/// `Instant::elapsed`, in nanoseconds: the time since `origin`. It depends on
/// the clock, so nothing is promised of its value.
#[verifier::external_body]
fn clock_nanos_since(origin: &Instant) -> u64 {
    origin.elapsed().as_nanos() as u64
}

/// Client information from an initialize request.
#[derive(Debug, Clone)]
pub struct ClientInfo {
    pub name: String,
    pub version: String,
}

/// Whether the client's tool list may change.
#[derive(Debug, Clone, Copy)]
pub struct ToolsCapability {
    pub list_changed: Option<bool>,
}

/// Whether the client's resource list may change.
#[derive(Debug, Clone, Copy)]
pub struct ResourcesCapability {
    pub list_changed: Option<bool>,
}

/// Capabilities announced by a client.
#[derive(Debug, Clone, Copy)]
pub struct Capabilities {
    pub tools: Option<ToolsCapability>,
    pub resources: Option<ResourcesCapability>,
}

impl Capabilities {
    /// No capability announced.
    pub fn default() -> (r: Capabilities)
        ensures
            r.tools is None,
            r.resources is None,
    {
        Capabilities { tools: None, resources: None }
    }
}

impl ClientInfo {
    /// A copy of this client information.
    pub fn duplicate(&self) -> (r: ClientInfo)
        ensures
            r == *self,
    {
        ClientInfo { name: self.name.clone(), version: self.version.clone() }
    }
}

/// One MCP session.
#[derive(Debug, Clone)]
pub struct Session {
    pub session_id: String,
    pub client_info: ClientInfo,
    pub client_capabilities: Capabilities,
    pub protocol_version: String,
    /// Nanoseconds on the store's clock when the session was created.
    pub created_at: u64,
    /// Nanoseconds on the store's clock of the last activity.
    pub last_active_at: u64,
    pub initialized: bool,
}

impl Session {
    /// A copy of this session.
    pub fn duplicate(&self) -> (r: Session)
        ensures
            r == *self,
    {
        Session {
            session_id: self.session_id.clone(),
            client_info: self.client_info.duplicate(),
            client_capabilities: self.client_capabilities,
            protocol_version: self.protocol_version.clone(),
            created_at: self.created_at,
            last_active_at: self.last_active_at,
            initialized: self.initialized,
        }
    }
}

/// Index of the session with id `id` in `s`, or -1.
pub open spec fn find_session(s: Seq<Session>, id: Seq<char>) -> int
    decreases s.len(),
{
    if s.len() == 0 {
        -1
    } else if s.last().session_id@ == id {
        s.len() - 1
    } else {
        find_session(s.drop_last(), id)
    }
}

/// A session idle for longer than `ttl_secs` seconds at time `now`.
pub open spec fn expired(now: u64, ttl_secs: u64, s: Session) -> bool {
    now > s.last_active_at + ttl_secs * 1_000_000_000
}

/// The sessions left after removing those expired at `now`.
pub open spec fn live_sessions(s: Seq<Session>, now: u64, ttl_secs: u64) -> Seq<Session> {
    s.filter(|x: Session| !expired(now, ttl_secs, x))
}

/// Session store for MCP sessions.
pub struct SessionStore {
    /// The sessions, each id at most once.
    pub sessions: Vec<Session>,
    /// Idle time after which a session expires, in seconds.
    pub session_ttl_secs: u64,
    /// The origin of the store's clock.
    pub clock: Instant,
}

proof fn lemma_find_session(s: Seq<Session>, id: Seq<char>)
    ensures
        -1 <= find_session(s, id) < s.len(),
        find_session(s, id) >= 0 ==> s[find_session(s, id)].session_id@ == id,
        find_session(s, id) == -1 ==> forall|k: int| 0 <= k < s.len() ==> (#[trigger] s[k]).session_id@ != id,
        forall|k: int| find_session(s, id) < k < s.len() ==> (#[trigger] s[k]).session_id@ != id,
    decreases s.len(),
{
    if s.len() > 0 {
        lemma_find_session(s.drop_last(), id);
        assert forall|k: int| 0 <= k < s.len() - 1 implies s.drop_last()[k] == #[trigger] s[k] by {}
    }
}


/// Session ids in `s` are distinct.
pub open spec fn ids_distinct(s: Seq<Session>) -> bool {
    forall|i: int, j: int| 0 <= i < j < s.len() ==> (#[trigger] s[i]).session_id@ != (#[trigger] s[j]).session_id@
}

proof fn lemma_find_is_index(s: Seq<Session>, i: int)
    requires
        ids_distinct(s),
        0 <= i < s.len(),
    ensures
        find_session(s, s[i].session_id@) == i,
{
    let id = s[i].session_id@;
    lemma_find_session(s, id);
    let k = find_session(s, id);
    if k == -1 {
        assert(s[i].session_id@ != id);
    }
    if k < i {
        assert(s[i].session_id@ != id);
    }
    if k > i {
        assert(s[i].session_id@ != s[k].session_id@);
    }
}

/// After a session is created, looking its id up finds exactly that
/// session, whether it was new or replaced one with the same id.
pub proof fn lemma_session_read_after_create(s: Seq<Session>, r: Session)
    requires
        ids_distinct(s),
    ensures
        ({
            let k = find_session(s, r.session_id@);
            let t = if k >= 0 { s.update(k, r) } else { s.push(r) };
            &&& ids_distinct(t)
            &&& find_session(t, r.session_id@) >= 0
            &&& t[find_session(t, r.session_id@)] == r
        }),
{
    lemma_find_session(s, r.session_id@);
    let k = find_session(s, r.session_id@);
    let t = if k >= 0 { s.update(k, r) } else { s.push(r) };
    assert forall|i: int, j: int| 0 <= i < j < t.len() implies (#[trigger] t[i]).session_id@ != (#[trigger] t[j]).session_id@ by {
        if k >= 0 {
            assert(t[i].session_id@ == s[i].session_id@);
            assert(t[j].session_id@ == s[j].session_id@);
        } else if j == s.len() {
            assert(t[i] == s[i]);
        } else {
            assert(t[i] == s[i] && t[j] == s[j]);
        }
    }
    let idx = if k >= 0 { k } else { s.len() as int };
    assert(t[idx] == r);
    lemma_find_is_index(t, idx);
}

/// After a session is removed, looking its id up finds nothing.
pub proof fn lemma_session_gone_after_remove(s: Seq<Session>, id: Seq<char>)
    requires
        ids_distinct(s),
        find_session(s, id) >= 0,
    ensures
        find_session(s.remove(find_session(s, id)), id) < 0,
{
    lemma_find_session(s, id);
    let k = find_session(s, id);
    let t = s.remove(k);
    lemma_find_session(t, id);
    if find_session(t, id) >= 0 {
        let m = find_session(t, id);
        let b = if m < k { m } else { m + 1 };
        assert(t[m] == s[b]);
        assert(s[b].session_id@ == id);
        if b < k {
            assert(s[b].session_id@ != s[k].session_id@);
        } else {
            assert(s[k].session_id@ != s[b].session_id@);
        }
    }
}

/// Once a session is marked initialized, looking its id up finds that
/// same session, now initialized, and every other session is unchanged.
pub proof fn lemma_initialized_after_mark(s: Seq<Session>, id: Seq<char>)
    requires
        ids_distinct(s),
        find_session(s, id) >= 0,
    ensures
        ({
            let k = find_session(s, id);
            let t = s.update(k, Session { initialized: true, ..s[k] });
            &&& ids_distinct(t)
            &&& find_session(t, id) == k
            &&& t[k].initialized
            &&& forall|j: int| 0 <= j < s.len() && j != k ==> t[j] == s[j]
        }),
{
    lemma_find_session(s, id);
    let k = find_session(s, id);
    let t = s.update(k, Session { initialized: true, ..s[k] });
    assert forall|i: int, j: int| 0 <= i < j < t.len() implies (#[trigger] t[i]).session_id@ != (#[trigger] t[j]).session_id@ by {
        assert(t[i].session_id@ == s[i].session_id@);
        assert(t[j].session_id@ == s[j].session_id@);
    }
    assert(t[k].session_id@ == id);
    lemma_find_is_index(t, k);
}

/// Creating (or replacing) a session leaves the lookup of every other id
/// as it was.
pub proof fn lemma_create_keeps_others(s: Seq<Session>, r: Session, id: Seq<char>)
    requires
        ids_distinct(s),
        id != r.session_id@,
    ensures
        ({
            let k = find_session(s, r.session_id@);
            let t = if k >= 0 { s.update(k, r) } else { s.push(r) };
            &&& (find_session(t, id) >= 0 <==> find_session(s, id) >= 0)
            &&& find_session(s, id) >= 0 ==> t[find_session(t, id)] == s[find_session(s, id)]
        }),
{
    lemma_session_read_after_create(s, r);
    lemma_find_session(s, r.session_id@);
    let k = find_session(s, r.session_id@);
    let t = if k >= 0 { s.update(k, r) } else { s.push(r) };
    lemma_find_session(s, id);
    lemma_find_session(t, id);
    let a = find_session(s, id);
    if a >= 0 {
        assert(a != k);
        assert(t[a] == s[a]);
        lemma_find_is_index(t, a);
    }
    let b = find_session(t, id);
    if b >= 0 {
        if b < s.len() {
            assert(b != k);
            assert(t[b] == s[b]);
            lemma_find_is_index(s, b);
        } else {
            assert(t[b] == r);
        }
    }
}

/// Removing a session leaves the lookup of every other id as it was.
pub proof fn lemma_remove_keeps_others(s: Seq<Session>, removed: Seq<char>, id: Seq<char>)
    requires
        ids_distinct(s),
        find_session(s, removed) >= 0,
        id != removed,
    ensures
        ({
            let t = s.remove(find_session(s, removed));
            &&& (find_session(t, id) >= 0 <==> find_session(s, id) >= 0)
            &&& find_session(s, id) >= 0 ==> t[find_session(t, id)] == s[find_session(s, id)]
        }),
{
    lemma_find_session(s, removed);
    let k = find_session(s, removed);
    let t = s.remove(k);
    assert forall|i: int, j: int| 0 <= i < j < t.len() implies (#[trigger] t[i]).session_id@ != (#[trigger] t[j]).session_id@ by {
        let bi = if i < k { i } else { i + 1 };
        let bj = if j < k { j } else { j + 1 };
        assert(t[i] == s[bi] && t[j] == s[bj]);
    }
    lemma_find_session(s, id);
    lemma_find_session(t, id);
    let a = find_session(s, id);
    if a >= 0 {
        assert(a != k);
        let ta = if a < k { a } else { a - 1 };
        assert(t[ta] == s[a]);
        lemma_find_is_index(t, ta);
    }
    let b = find_session(t, id);
    if b >= 0 {
        let sb = if b < k { b } else { b + 1 };
        assert(t[b] == s[sb]);
        lemma_find_is_index(s, sb);
    }
}

proof fn lemma_filter_all_kept(t: Seq<Session>, p: spec_fn(Session) -> bool)
    requires
        forall|i: int| 0 <= i < t.len() ==> p(#[trigger] t[i]),
    ensures
        t.filter(p) == t,
    decreases t.len(),
{
    reveal(Seq::filter);
    if t.len() > 0 {
        lemma_filter_all_kept(t.drop_last(), p);
        assert(t.drop_last().push(t.last()) =~= t);
    }
}

/// Cleaning up twice at the same time removes nothing the first cleanup
/// kept.
pub proof fn lemma_cleanup_idempotent(s: Seq<Session>, now: u64, ttl: u64)
    ensures
        live_sessions(live_sessions(s, now, ttl), now, ttl) == live_sessions(s, now, ttl),
{
    let f = |y: Session| !expired(now, ttl, y);
    let t = s.filter(f);
    assert(t == live_sessions(s, now, ttl));
    assert forall|i: int| 0 <= i < t.len() implies f(#[trigger] t[i]) by {
        s.lemma_filter_pred(f, i);
    }
    lemma_filter_all_kept(t, f);
}

/// Cleaning up at a time keeps exactly the sessions still alive then: none
/// of the kept sessions is expired, and no live session is dropped.
pub proof fn lemma_cleanup_keeps_live(s: Seq<Session>, now: u64, ttl: u64, x: Session)
    ensures
        live_sessions(s, now, ttl).contains(x) <==> (s.contains(x) && !expired(now, ttl, x)),
{
    let f = |y: Session| !expired(now, ttl, y);
    let t = s.filter(f);
    assert(t == live_sessions(s, now, ttl));
    if t.contains(x) {
        s.lemma_filter_contains_rev(f, x);
        let a = choose|a: int| 0 <= a < t.len() && t[a] == x;
        s.lemma_filter_pred(f, a);
    }
    if s.contains(x) && f(x) {
        let i = choose|i: int| 0 <= i < s.len() && s[i] == x;
        s.lemma_filter_contains(f, i);
    }
}

impl SessionStore {
    /// Session ids are distinct.
    pub open spec fn wf(&self) -> bool {
        forall|i: int, j: int| 0 <= i < j < self.sessions@.len()
            ==> (#[trigger] self.sessions@[i]).session_id@ != (#[trigger] self.sessions@[j]).session_id@
    }

    /// A store with the default idle time-to-live of 30 minutes.
    pub fn new() -> (r: SessionStore)
        ensures
            r.wf(),
            r.sessions@.len() == 0,
            r.session_ttl_secs == 1800,
    {
        Self::with_ttl_seconds(1800)
    }

    /// A store whose sessions expire after `session_ttl_seconds` idle seconds.
    pub fn with_ttl_seconds(session_ttl_seconds: u64) -> (r: SessionStore)
        ensures
            r.wf(),
            r.sessions@.len() == 0,
            r.session_ttl_secs == session_ttl_seconds,
    {
        SessionStore { sessions: Vec::new(), session_ttl_secs: session_ttl_seconds, clock: clock_origin() }
    }

    fn find(&self, session_id: &str) -> (r: Option<usize>)
        ensures
            match r {
                None => find_session(self.sessions@, session_id@) == -1,
                Some(k) => find_session(self.sessions@, session_id@) == k as int,
            },
    {
        let mut k = self.sessions.len();
        assert(self.sessions@.subrange(0, k as int) =~= self.sessions@);
        while k > 0
            invariant
                k <= self.sessions@.len(),
                find_session(self.sessions@, session_id@) == find_session(self.sessions@.subrange(0, k as int), session_id@),
            decreases k,
        {
            let ghost pre = self.sessions@.subrange(0, k as int);
            assert(pre.drop_last() =~= self.sessions@.subrange(0, k - 1));
            if str_eq(self.sessions[k - 1].session_id.as_str(), session_id) {
                return Some(k - 1);
            }
            k = k - 1;
        }
        assert(self.sessions@.subrange(0, 0) =~= Seq::<Session>::empty());
        None
    }

    /// Creates a session at time `now`, replacing any session with the same id.
    pub fn create_session_at(
        &mut self,
        session_id: String,
        client_info: ClientInfo,
        client_capabilities: Capabilities,
        protocol_version: String,
        now: u64,
    ) -> (r: Session)
        requires
            old(self).wf(),
        ensures
            final(self).wf(),
            final(self).session_ttl_secs == old(self).session_ttl_secs,
            r.session_id == session_id && r.client_info == client_info
                && r.client_capabilities == client_capabilities && r.protocol_version == protocol_version
                && r.created_at == now && r.last_active_at == now && !r.initialized,
            ({
                let k = find_session(old(self).sessions@, session_id@);
                &&& k >= 0 ==> final(self).sessions@ == old(self).sessions@.update(k, r)
                &&& k < 0 ==> final(self).sessions@ == old(self).sessions@.push(r)
            }),
    {
        proof {
            lemma_find_session(self.sessions@, session_id@);
        }
        let session = Session {
            session_id,
            client_info,
            client_capabilities,
            protocol_version,
            created_at: now,
            last_active_at: now,
            initialized: false,
        };
        let stored = session.duplicate();
        match self.find(session.session_id.as_str()) {
            Some(k) => {
                self.sessions.set(k, stored);
            },
            None => {
                self.sessions.push(stored);
            },
        }
        session
    }

    /// Creates a session now, replacing any session with the same id.
    pub fn create_session(
        &mut self,
        session_id: String,
        client_info: ClientInfo,
        client_capabilities: Capabilities,
        protocol_version: String,
    ) -> (r: Session)
        requires
            old(self).wf(),
        ensures
            final(self).wf(),
            final(self).session_ttl_secs == old(self).session_ttl_secs,
            r.session_id == session_id && r.client_info == client_info
                && r.client_capabilities == client_capabilities && r.protocol_version == protocol_version
                && r.created_at == r.last_active_at && !r.initialized,
            ({
                let k = find_session(old(self).sessions@, session_id@);
                &&& k >= 0 ==> final(self).sessions@ == old(self).sessions@.update(k, r)
                &&& k < 0 ==> final(self).sessions@ == old(self).sessions@.push(r)
            }),
    {
        let now = clock_nanos_since(&self.clock);
        self.create_session_at(session_id, client_info, client_capabilities, protocol_version, now)
    }

    /// The session with the given id.
    pub fn get_session(&self, session_id: &str) -> (r: Option<Session>)
        ensures
            ({
                let k = find_session(self.sessions@, session_id@);
                &&& k >= 0 ==> r == Some(self.sessions@[k])
                &&& k < 0 ==> r is None
            }),
    {
        proof {
            lemma_find_session(self.sessions@, session_id@);
        }
        match self.find(session_id) {
            Some(k) => Some(self.sessions[k].duplicate()),
            None => None,
        }
    }

    /// Records activity at time `now`; false if there is no such session.
    pub fn update_activity_at(&mut self, session_id: &str, now: u64) -> (r: bool)
        requires
            old(self).wf(),
        ensures
            final(self).wf(),
            final(self).session_ttl_secs == old(self).session_ttl_secs,
            ({
                let k = find_session(old(self).sessions@, session_id@);
                &&& r == (k >= 0)
                &&& k >= 0 ==> final(self).sessions@ == old(self).sessions@.update(k,
                    Session { last_active_at: now, ..old(self).sessions@[k] })
                &&& k < 0 ==> final(self).sessions@ == old(self).sessions@
            }),
    {
        proof {
            lemma_find_session(self.sessions@, session_id@);
        }
        match self.find(session_id) {
            Some(k) => {
                let mut s = self.sessions[k].duplicate();
                s.last_active_at = now;
                self.sessions.set(k, s);
                true
            },
            None => false,
        }
    }

    /// Records activity now; false if there is no such session.
    pub fn update_activity(&mut self, session_id: &str) -> (r: bool)
        requires
            old(self).wf(),
        ensures
            final(self).wf(),
            final(self).session_ttl_secs == old(self).session_ttl_secs,
            ({
                let k = find_session(old(self).sessions@, session_id@);
                &&& r == (k >= 0)
                &&& k >= 0 ==> final(self).sessions@.len() == old(self).sessions@.len()
                    && (forall|j: int| 0 <= j < old(self).sessions@.len() && j != k
                        ==> final(self).sessions@[j] == old(self).sessions@[j])
                    && final(self).sessions@[k] == Session {
                        last_active_at: final(self).sessions@[k].last_active_at, ..old(self).sessions@[k] }
                &&& k < 0 ==> final(self).sessions@ == old(self).sessions@
            }),
    {
        proof {
            lemma_find_session(self.sessions@, session_id@);
        }
        let now = clock_nanos_since(&self.clock);
        self.update_activity_at(session_id, now)
    }

    /// Marks a session initialized; false if there is no such session.
    pub fn mark_initialized(&mut self, session_id: &str) -> (r: bool)
        requires
            old(self).wf(),
        ensures
            final(self).wf(),
            final(self).session_ttl_secs == old(self).session_ttl_secs,
            ({
                let k = find_session(old(self).sessions@, session_id@);
                &&& r == (k >= 0)
                &&& k >= 0 ==> final(self).sessions@ == old(self).sessions@.update(k,
                    Session { initialized: true, ..old(self).sessions@[k] })
                &&& k < 0 ==> final(self).sessions@ == old(self).sessions@
            }),
    {
        proof {
            lemma_find_session(self.sessions@, session_id@);
        }
        match self.find(session_id) {
            Some(k) => {
                let mut s = self.sessions[k].duplicate();
                s.initialized = true;
                self.sessions.set(k, s);
                true
            },
            None => false,
        }
    }

    /// Removes a session; false if there was none.
    pub fn remove_session(&mut self, session_id: &str) -> (r: bool)
        requires
            old(self).wf(),
        ensures
            final(self).wf(),
            final(self).session_ttl_secs == old(self).session_ttl_secs,
            ({
                let k = find_session(old(self).sessions@, session_id@);
                &&& r == (k >= 0)
                &&& k >= 0 ==> final(self).sessions@ == old(self).sessions@.remove(k)
                &&& k < 0 ==> final(self).sessions@ == old(self).sessions@
            }),
    {
        proof {
            lemma_find_session(self.sessions@, session_id@);
        }
        match self.find(session_id) {
            Some(k) => {
                let ghost before = self.sessions@;
                self.sessions.remove(k);
                proof {
                    let after = self.sessions@;
                    assert forall|i: int, j: int| 0 <= i < j < after.len()
                        implies (#[trigger] after[i]).session_id@ != (#[trigger] after[j]).session_id@ by {
                        let bi = if i < k { i } else { i + 1 };
                        let bj = if j < k { j } else { j + 1 };
                        assert(after[i] == before[bi] && after[j] == before[bj]);
                    }
                }
                true
            },
            None => false,
        }
    }

    /// Removes every session idle for longer than the time-to-live at time `now`.
    pub fn cleanup_expired_sessions_at(&mut self, now: u64)
        requires
            old(self).wf(),
        ensures
            final(self).wf(),
            final(self).session_ttl_secs == old(self).session_ttl_secs,
            final(self).sessions@ == live_sessions(old(self).sessions@, now, old(self).session_ttl_secs),
    {
        let ttl = self.session_ttl_secs;
        let ghost old_sessions = self.sessions@;
        let mut kept: Vec<Session> = Vec::new();
        let mut i: usize = 0;
        while i < self.sessions.len()
            invariant
                i <= self.sessions@.len(),
                self.sessions@ == old_sessions,
                ttl == self.session_ttl_secs,
                kept@ == old_sessions.subrange(0, i as int).filter(|x: Session| !expired(now, ttl, x)),
            decreases self.sessions@.len() - i,
        {
            let s = &self.sessions[i];
            let limit: u128 = s.last_active_at as u128 + (ttl as u128) * 1_000_000_000u128;
            proof {
                reveal(Seq::filter);
                assert(old_sessions.subrange(0, i + 1).drop_last() =~= old_sessions.subrange(0, i as int));
                assert(old_sessions.subrange(0, i + 1).last() == old_sessions[i as int]);
            }
            if !((now as u128) > limit) {
                kept.push(s.duplicate());
            }
            i = i + 1;
        }
        proof {
            assert(old_sessions.subrange(0, old_sessions.len() as int) =~= old_sessions);
            let f = |x: Session| !expired(now, ttl, x);
            assert forall|a: int, b: int| 0 <= a < b < kept@.len()
                implies (#[trigger] kept@[a]).session_id@ != (#[trigger] kept@[b]).session_id@ by {
                lemma_filter_preserves_distinct(old_sessions, f, a, b);
            }
        }
        self.sessions = kept;
    }

    /// Removes every session idle for longer than the time-to-live now.
    pub fn cleanup_expired_sessions(&mut self)
        requires
            old(self).wf(),
        ensures
            final(self).wf(),
            final(self).session_ttl_secs == old(self).session_ttl_secs,
            exists|now: u64| final(self).sessions@ == live_sessions(old(self).sessions@, now, old(self).session_ttl_secs),
    {
        let now = clock_nanos_since(&self.clock);
        self.cleanup_expired_sessions_at(now);
    }
}

/// Filtering keeps distinct ids distinct.
proof fn lemma_filter_preserves_distinct(s: Seq<Session>, f: spec_fn(Session) -> bool, a: int, b: int)
    requires
        forall|i: int, j: int| 0 <= i < j < s.len() ==> (#[trigger] s[i]).session_id@ != (#[trigger] s[j]).session_id@,
        0 <= a < b < s.filter(f).len(),
    ensures
        s.filter(f)[a].session_id@ != s.filter(f)[b].session_id@,
    decreases s.len(),
{
    reveal(Seq::filter);
    let rest = s.drop_last();
    let fr = rest.filter(f);
    assert forall|i: int, j: int| 0 <= i < j < rest.len() implies (#[trigger] rest[i]).session_id@ != (#[trigger] rest[j]).session_id@ by {
        assert(rest[i] == s[i] && rest[j] == s[j]);
    }
    if f(s.last()) {
        assert(s.filter(f) == fr.push(s.last()));
        if b == fr.len() {
            // the last kept element comes from the last position; the other from earlier
            lemma_filter_elem_from(rest, f, a);
            let i = choose|i: int| 0 <= i < rest.len() && rest[i] == fr[a];
            assert(s[i] == fr[a]);
            assert(s[s.len() - 1] == s.last());
        } else {
            lemma_filter_preserves_distinct(rest, f, a, b);
        }
    } else {
        assert(s.filter(f) == fr);
        lemma_filter_preserves_distinct(rest, f, a, b);
    }
}

/// Each kept element is an element of the sequence it was taken from.
proof fn lemma_filter_elem_from(s: Seq<Session>, f: spec_fn(Session) -> bool, a: int)
    requires
        0 <= a < s.filter(f).len(),
    ensures
        exists|i: int| 0 <= i < s.len() && s[i] == s.filter(f)[a],
{
    s.lemma_filter_contains_rev(f, s.filter(f)[a]);
    assert(s.filter(f).contains(s.filter(f)[a]));
}

} // verus!
