//! Downgrade-canary validation and per-session configuration pinning.
use vstd::prelude::*;
use crate::assoc::{
    lemma_to_map_dom, lemma_to_map_index, lemma_to_map_len, lemma_to_map_push, lemma_to_map_remove,
    lemma_to_map_update, lemma_unique_push, to_map, unique_keys,
};
use crate::error::{Error, PeerMisbehaved};
use crate::state::ClientHelloConfig;
use crate::types::ProtocolVersion;

verus! {

/// Last 8 bytes of the server random of a TLS 1.3 server negotiating TLS 1.2.
pub const TLS12_DOWNGRADE_CANARY: [u8; 8] = [0x44, 0x4F, 0x57, 0x4E, 0x47, 0x52, 0x44, 0x01];

/// Last 8 bytes of the server random of a TLS 1.3 server negotiating TLS 1.1 or older.
pub const TLS11_DOWNGRADE_CANARY: [u8; 8] = [0x44, 0x4F, 0x57, 0x4E, 0x47, 0x52, 0x44, 0x00];

/// "DOWNGRD" followed by `last`.
pub open spec fn canary(last: u8) -> Seq<u8> {
    seq![0x44u8, 0x4Fu8, 0x57u8, 0x4Eu8, 0x47u8, 0x52u8, 0x44u8, last]
}

/// What the inspection of a server random gives.
pub open spec fn downgrade_check(r: Seq<u8>, expected: ProtocolVersion, negotiated: ProtocolVersion) -> Option<PeerMisbehaved> {
    if expected != ProtocolVersion::TLSv1_3 {
        None
    } else if r.len() != 32 {
        Some(PeerMisbehaved::IllegalServerRandom)
    } else if negotiated == ProtocolVersion::TLSv1_2 && r.subrange(24, 32) == canary(1) {
        Some(PeerMisbehaved::AttemptedDowngradeToTls12WhenTls13IsSupported)
    } else if (negotiated == ProtocolVersion::TLSv1_1 || negotiated == ProtocolVersion::TLSv1_0)
        && r.subrange(24, 32) == canary(0) {
        Some(PeerMisbehaved::AttemptedDowngradeToTls12WhenTls13IsSupported)
    } else {
        None
    }
}

fn tail_is_canary(r: &[u8], last: u8) -> (b: bool)
    requires
        r@.len() == 32,
    ensures
        b == (r@.subrange(24, 32) == canary(last)),
{
    let c: [u8; 8] = [0x44, 0x4F, 0x57, 0x4E, 0x47, 0x52, 0x44, last];
    assert(c@ =~= canary(last));
    let mut i: usize = 0;
    while i < 8
        invariant
            i <= 8,
            r@.len() == 32,
            c@ == canary(last),
            forall|j: int| 0 <= j < i ==> r@[24 + j] == c@[j],
        decreases 8 - i,
    {
        if r[24 + i] != c[i] {
            assert(r@.subrange(24, 32)[i as int] != canary(last)[i as int]);
            return false;
        }
        i = i + 1;
    }
    assert(r@.subrange(24, 32) =~= canary(last));
    true
}

/// Inspects the server random for the RFC 8446 downgrade canaries.
pub fn validate_downgrade_protection(
    server_random: &[u8],
    expected_version: ProtocolVersion,
    negotiated_version: ProtocolVersion,
) -> (r: Result<(), Error>)
    ensures
        match downgrade_check(server_random@, expected_version, negotiated_version) {
            None => r is Ok,
            Some(k) => r matches Err(Error::PeerMisbehaved(k2)) && k2 == k,
        },
{
    if expected_version != ProtocolVersion::TLSv1_3 {
        return Ok(());
    }
    if server_random.len() != 32 {
        return Err(Error::PeerMisbehaved(PeerMisbehaved::IllegalServerRandom));
    }
    if negotiated_version == ProtocolVersion::TLSv1_2 && tail_is_canary(server_random, 0x01) {
        return Err(Error::PeerMisbehaved(PeerMisbehaved::AttemptedDowngradeToTls12WhenTls13IsSupported));
    }
    if (negotiated_version == ProtocolVersion::TLSv1_1 || negotiated_version == ProtocolVersion::TLSv1_0)
        && tail_is_canary(server_random, 0x00) {
        return Err(Error::PeerMisbehaved(PeerMisbehaved::AttemptedDowngradeToTls12WhenTls13IsSupported));
    }
    Ok(())
}

/// A server random that ends in the TLS 1.2 canary is refused when TLS 1.3 was expected
/// and TLS 1.2 negotiated; one that ends in no canary is accepted.
pub proof fn lemma_downgrade_detection(r: Seq<u8>)
    requires
        r.len() == 32,
    ensures
        r.subrange(24, 32) == canary(1) ==> downgrade_check(r, ProtocolVersion::TLSv1_3, ProtocolVersion::TLSv1_2)
            == Some(PeerMisbehaved::AttemptedDowngradeToTls12WhenTls13IsSupported),
        r.subrange(24, 32) != canary(1) && r.subrange(24, 32) != canary(0) ==> forall|v: ProtocolVersion|
            downgrade_check(r, ProtocolVersion::TLSv1_3, v) is None,
{
}

/// A session identifier: opaque bytes.
#[derive(Debug, Clone, PartialEq, Eq, Hash, PartialOrd, Ord)]
pub struct SessionId(pub Vec<u8>);

impl View for SessionId {
    type V = Seq<u8>;

    open spec fn view(&self) -> Seq<u8> {
        self.0@
    }
}

impl SessionId {
    pub fn new(bytes: Vec<u8>) -> (r: Self)
        ensures
            r@ == bytes@,
    {
        SessionId(bytes)
    }

    pub fn empty() -> (r: Self)
        ensures
            r@.len() == 0,
    {
        SessionId(Vec::new())
    }

    pub fn is_empty(&self) -> (r: bool)
        ensures
            r == (self@.len() == 0),
    {
        self.0.len() == 0
    }

    pub fn as_bytes(&self) -> (r: &[u8])
        ensures
            r@ == self@,
    {
        self.0.as_slice()
    }

    /// Whether both hold the same bytes.
    pub fn same(&self, o: &SessionId) -> (r: bool)
        ensures
            r == (self@ == o@),
    {
        if self.0.len() != o.0.len() {
            return false;
        }
        let mut i: usize = 0;
        while i < self.0.len()
            invariant
                i <= self@.len(),
                self@.len() == o@.len(),
                forall|j: int| 0 <= j < i ==> self@[j] == o@[j],
            decreases self@.len() - i,
        {
            if self.0[i] != o.0[i] {
                return false;
            }
            i = i + 1;
        }
        assert(self@ =~= o@);
        true
    }

    pub fn duplicate(&self) -> (r: Self)
        ensures
            r@ == self@,
    {
        SessionId(crate::state::copy_vec(&self.0))
    }
}

/// What is known of one session.
#[derive(Debug, Clone)]
pub struct SessionState {
    /// The configuration pinned for the session's lifetime.
    pub config: ClientHelloConfig,
    pub ticket: Option<Vec<u8>>,
    pub established: bool,
    pub resume_count: u32,
}

impl SessionState {
    pub fn new(config: ClientHelloConfig) -> (r: Self)
        ensures
            r.config == config,
            r.ticket is None,
            !r.established,
            r.resume_count == 0,
    {
        SessionState { config, ticket: None, established: false, resume_count: 0 }
    }

    pub fn mark_established(&mut self)
        ensures
            *final(self) == (SessionState { established: true, ..*old(self) }),
    {
        self.established = true;
    }

    pub fn set_ticket(&mut self, ticket: Vec<u8>)
        ensures
            *final(self) == (SessionState { ticket: Some(ticket), ..*old(self) }),
    {
        self.ticket = Some(ticket);
    }

    /// One more resumption; the count stays at its maximum once there.
    pub fn increment_resume_count(&mut self)
        ensures
            *final(self) == (SessionState {
                resume_count: if old(self).resume_count < u32::MAX { (old(self).resume_count + 1) as u32 } else { old(self).resume_count },
                ..*old(self)
            }),
    {
        if self.resume_count < u32::MAX {
            self.resume_count = self.resume_count + 1;
        }
    }
}

/// The id/state pairs of a tracker as plain values.
pub open spec fn skv(s: Seq<(SessionId, SessionState)>) -> Seq<(Seq<u8>, SessionState)> {
    s.map_values(|p: (SessionId, SessionState)| (p.0@, p.1))
}

/// Sessions by id, bounded in number, evicting the oldest first.
pub struct SessionStateTracker {
    sessions: Vec<(SessionId, SessionState)>,
    max_sessions: usize,
}

impl SessionStateTracker {
    /// The tracked sessions by id.
    pub closed spec fn view(&self) -> Map<Seq<u8>, SessionState> {
        to_map(skv(self.sessions@))
    }

    /// The ids in the order they were first recorded, oldest first.
    pub closed spec fn order(&self) -> Seq<Seq<u8>> {
        self.sessions@.map_values(|p: (SessionId, SessionState)| p.0@)
    }

    pub closed spec fn spec_max(&self) -> nat {
        self.max_sessions as nat
    }

    pub closed spec fn wf(&self) -> bool {
        &&& unique_keys(skv(self.sessions@))
        &&& self.sessions@.len() <= self.max_sessions
    }

    /// The order lists each tracked id once, and only tracked ids.
    pub proof fn lemma_order_matches(&self)
        requires
            self.wf(),
        ensures
            self.order().len() == self.view().dom().len(),
            forall|k: Seq<u8>| self.order().contains(k) <==> self.view().contains_key(k),
            forall|i: int, j: int| 0 <= i < j < self.order().len() ==> self.order()[i] != self.order()[j],
    {
        self.lemma_size();
        let s = skv(self.sessions@);
        assert forall|k: Seq<u8>| self.order().contains(k) <==> self.view().contains_key(k) by {
            lemma_to_map_dom(s, k);
            if self.order().contains(k) {
                let i = choose|i: int| 0 <= i < self.order().len() && self.order()[i] == k;
                assert(s[i].0 == k);
            }
            if self.view().contains_key(k) {
                let i = choose|i: int| 0 <= i < s.len() && s[i].0 == k;
                assert(self.order()[i] == k);
            }
        }
        assert forall|i: int, j: int| 0 <= i < j < self.order().len() implies self.order()[i] != self.order()[j] by {
            assert(s[i].0 == self.order()[i] && s[j].0 == self.order()[j]);
        }
    }

    proof fn lemma_size(&self)
        requires
            self.wf(),
        ensures
            self.view().dom().finite(),
            self.view().dom().len() == self.sessions@.len(),
            self.view().dom().len() <= self.spec_max(),
    {
        lemma_to_map_len(skv(self.sessions@));
    }

    /// An empty tracker holding at most `max_sessions` sessions.
    pub fn new(max_sessions: usize) -> (r: Self)
        ensures
            r.wf(),
            r.order().len() == 0,
            r.view() == Map::<Seq<u8>, SessionState>::empty(),
            r.spec_max() == max_sessions,
    {
        SessionStateTracker { sessions: Vec::new(), max_sessions }
    }

    pub fn size(&self) -> (r: usize)
        requires
            self.wf(),
        ensures
            self.view().dom().finite(),
            r == self.view().dom().len(),
            r <= self.spec_max(),
    {
        proof { self.lemma_size(); }
        self.sessions.len()
    }

    pub fn is_empty(&self) -> (r: bool)
        requires
            self.wf(),
        ensures
            r == (self.view().dom().len() == 0),
    {
        proof { self.lemma_size(); }
        self.sessions.len() == 0
    }

    fn find(&self, id: &SessionId) -> (r: Option<usize>)
        requires
            self.wf(),
        ensures
            match r {
                Some(i) => i < self.sessions@.len() && self.sessions@[i as int].0@ == id@
                    && self.view().contains_key(id@) && self.view()[id@] == self.sessions@[i as int].1,
                None => !self.view().contains_key(id@),
            },
    {
        let mut i: usize = 0;
        while i < self.sessions.len()
            invariant
                self.wf(),
                i <= self.sessions@.len(),
                forall|j: int| 0 <= j < i ==> self.sessions@[j].0@ != id@,
            decreases self.sessions@.len() - i,
        {
            if self.sessions[i].0.same(id) {
                proof {
                    assert(skv(self.sessions@)[i as int] == (self.sessions@[i as int].0@, self.sessions@[i as int].1));
                    lemma_to_map_index(skv(self.sessions@), i as int);
                }
                return Some(i);
            }
            i = i + 1;
        }
        proof {
            lemma_to_map_dom(skv(self.sessions@), id@);
            if self.view().contains_key(id@) {
                let j = choose|j: int| 0 <= j < skv(self.sessions@).len() && skv(self.sessions@)[j].0 == id@;
                assert(self.sessions@[j].0@ == id@);
            }
        }
        None
    }

    /// Replaces the state at position `i`, keeping its id.
    fn replace_at(&mut self, i: usize, st: SessionState)
        requires
            old(self).wf(),
            i < old(self).sessions@.len(),
        ensures
            final(self).wf(),
            final(self).view() == old(self).view().insert(old(self).sessions@[i as int].0@, st),
            final(self).order() == old(self).order(),
            final(self).max_sessions == old(self).max_sessions,
    {
        let ghost s0 = skv(old(self).sessions@);
        let (id, _) = self.sessions.remove(i);
        self.sessions.insert(i, (id, st));
        proof {
            assert(skv(self.sessions@) =~= s0.update(i as int, (s0[i as int].0, st)));
            lemma_to_map_update(s0, i as int, st);
            assert(self.order() =~= old(self).order());
        }
    }

    /// Pins `config` for `id`. A new id in a full tracker first evicts the oldest session;
    /// a known id is reset to a fresh state with the new config. A tracker of size zero
    /// stores nothing.
    pub fn record_session(&mut self, session_id: &SessionId, config: ClientHelloConfig)
        requires
            old(self).wf(),
        ensures
            final(self).wf(),
            final(self).spec_max() == old(self).spec_max(),
            old(self).spec_max() == 0 ==> final(self).view() == old(self).view(),
            old(self).spec_max() > 0 ==> {
                let k = session_id@;
                let st = final(self).view()[k];
                &&& final(self).view().contains_key(k)
                &&& st.config == config && st.ticket is None && !st.established && st.resume_count == 0
            },
            old(self).spec_max() > 0 && !old(self).view().contains_key(session_id@)
                && old(self).view().dom().len() >= old(self).spec_max()
                ==> final(self).view() == old(self).view().remove(old(self).order()[0]).insert(
                    session_id@,
                    final(self).view()[session_id@],
                ),
            old(self).spec_max() > 0 && (old(self).view().contains_key(session_id@)
                || old(self).view().dom().len() < old(self).spec_max())
                ==> final(self).view() == old(self).view().insert(session_id@, final(self).view()[session_id@]),
            old(self).spec_max() == 0 || old(self).view().contains_key(session_id@) ==> final(self).order() == old(self).order(),
            old(self).spec_max() > 0 && !old(self).view().contains_key(session_id@)
                && old(self).view().dom().len() < old(self).spec_max()
                ==> final(self).order() == old(self).order().push(session_id@),
            old(self).spec_max() > 0 && !old(self).view().contains_key(session_id@)
                && old(self).view().dom().len() >= old(self).spec_max()
                ==> final(self).order() == old(self).order().drop_first().push(session_id@),
    {
        if self.max_sessions == 0 {
            return;
        }
        proof { self.lemma_size(); }
        let st = SessionState::new(config);
        match self.find(session_id) {
            Some(i) => {
                self.replace_at(i, st);
            },
            None => {
                if self.sessions.len() >= self.max_sessions {
                    proof {
                        assert(skv(self.sessions@).remove(0) =~= skv(self.sessions@.remove(0)));
                        lemma_to_map_remove(skv(self.sessions@), 0);
                        assert(self.order()[0] == skv(self.sessions@)[0].0);
                    }
                    self.sessions.remove(0);
                    assert(self.order() =~= old(self).order().drop_first());
                }
                let ghost before = self.view();
                proof {
                    lemma_to_map_dom(skv(self.sessions@), session_id@);
                    if before.contains_key(session_id@) {
                        let j = choose|j: int| 0 <= j < skv(self.sessions@).len() && skv(self.sessions@)[j].0 == session_id@;
                        lemma_to_map_index(skv(self.sessions@), j);
                    }
                }
                let ghost sv = st;
                let ghost s0 = skv(self.sessions@);
                let ghost o0 = self.order();
                self.sessions.push((session_id.duplicate(), st));
                proof {
                    assert(self.order() =~= o0.push(session_id@));
                    assert(skv(self.sessions@) =~= s0.push((session_id@, sv)));
                    lemma_to_map_push(s0, session_id@, sv);
                    lemma_unique_push(s0, session_id@, sv);
                    lemma_to_map_len(s0);
                    lemma_to_map_len(skv(old(self).sessions@));
                }
            },
        }
    }

    /// The configuration pinned for `id`.
    pub fn get_session_config(&self, session_id: &SessionId) -> (r: Option<&ClientHelloConfig>)
        requires
            self.wf(),
        ensures
            r is Some <==> self.view().contains_key(session_id@),
            r matches Some(c) ==> *c == self.view()[session_id@].config,
    {
        match self.find(session_id) {
            Some(i) => Some(&self.sessions[i].1.config),
            None => None,
        }
    }

    /// Marks the session as established; nothing happens for an unknown id.
    pub fn mark_established(&mut self, session_id: &SessionId)
        requires
            old(self).wf(),
        ensures
            final(self).wf(),
            final(self).spec_max() == old(self).spec_max(),
            old(self).view().contains_key(session_id@) ==> final(self).view() == old(self).view().insert(
                session_id@,
                SessionState { established: true, ..old(self).view()[session_id@] },
            ),
            !old(self).view().contains_key(session_id@) ==> final(self).view() == old(self).view(),
            final(self).order() == old(self).order(),
    {
        match self.find(session_id) {
            Some(i) => {
                let ghost s0 = skv(old(self).sessions@);
                let (id, mut st) = self.sessions.remove(i);
                st.mark_established();
                let ghost sv = st;
                self.sessions.insert(i, (id, st));
                proof {
                    assert(skv(self.sessions@) =~= s0.update(i as int, (s0[i as int].0, sv)));
                    lemma_to_map_update(s0, i as int, sv);
                }
            },
            None => {},
        }
    }

    /// Stores a session ticket; nothing happens for an unknown id.
    pub fn record_ticket(&mut self, session_id: &SessionId, ticket: Vec<u8>)
        requires
            old(self).wf(),
        ensures
            final(self).wf(),
            final(self).spec_max() == old(self).spec_max(),
            old(self).view().contains_key(session_id@) ==> final(self).view() == old(self).view().insert(
                session_id@,
                SessionState { ticket: Some(ticket), ..old(self).view()[session_id@] },
            ),
            !old(self).view().contains_key(session_id@) ==> final(self).view() == old(self).view(),
            final(self).order() == old(self).order(),
    {
        match self.find(session_id) {
            Some(i) => {
                let ghost s0 = skv(old(self).sessions@);
                let (id, mut st) = self.sessions.remove(i);
                st.set_ticket(ticket);
                let ghost sv = st;
                self.sessions.insert(i, (id, st));
                proof {
                    assert(skv(self.sessions@) =~= s0.update(i as int, (s0[i as int].0, sv)));
                    lemma_to_map_update(s0, i as int, sv);
                }
            },
            None => {},
        }
    }

    /// Counts one resumption; nothing happens for an unknown id.
    pub fn record_resumption(&mut self, session_id: &SessionId)
        requires
            old(self).wf(),
        ensures
            final(self).wf(),
            final(self).spec_max() == old(self).spec_max(),
            old(self).view().contains_key(session_id@) ==> {
                let a = old(self).view()[session_id@];
                final(self).view() == old(self).view().insert(
                    session_id@,
                    SessionState {
                        resume_count: if a.resume_count < u32::MAX { (a.resume_count + 1) as u32 } else { a.resume_count },
                        ..a
                    },
                )
            },
            !old(self).view().contains_key(session_id@) ==> final(self).view() == old(self).view(),
            final(self).order() == old(self).order(),
    {
        match self.find(session_id) {
            Some(i) => {
                let ghost s0 = skv(old(self).sessions@);
                let (id, mut st) = self.sessions.remove(i);
                st.increment_resume_count();
                let ghost sv = st;
                self.sessions.insert(i, (id, st));
                proof {
                    assert(skv(self.sessions@) =~= s0.update(i as int, (s0[i as int].0, sv)));
                    lemma_to_map_update(s0, i as int, sv);
                }
            },
            None => {},
        }
    }

    /// `(established, resume_count, has_ticket)` for `id`.
    pub fn get_session_stats(&self, session_id: &SessionId) -> (r: Option<(bool, u32, bool)>)
        requires
            self.wf(),
        ensures
            r is Some <==> self.view().contains_key(session_id@),
            r matches Some(t) ==> {
                let st = self.view()[session_id@];
                t.0 == st.established && t.1 == st.resume_count && t.2 == st.ticket is Some
            },
    {
        match self.find(session_id) {
            Some(i) => {
                let st = &self.sessions[i].1;
                Some((st.established, st.resume_count, st.ticket.is_some()))
            },
            None => None,
        }
    }

    /// Drops every session.
    pub fn clear(&mut self)
        ensures
            final(self).wf(),
            final(self).view() == Map::<Seq<u8>, SessionState>::empty(),
            final(self).spec_max() == old(self).spec_max(),
            final(self).order().len() == 0,
    {
        self.sessions.clear();
        assert(skv(self.sessions@) =~= seq![]);
    }

    /// Drops the session `id`; says whether there was one.
    pub fn remove_session(&mut self, session_id: &SessionId) -> (r: bool)
        requires
            old(self).wf(),
        ensures
            final(self).wf(),
            r == old(self).view().contains_key(session_id@),
            final(self).view() == old(self).view().remove(session_id@),
            final(self).spec_max() == old(self).spec_max(),
            !r ==> final(self).order() == old(self).order(),
            r ==> exists|i: int| 0 <= i < old(self).order().len() && old(self).order()[i] == session_id@
                && final(self).order() == #[trigger] old(self).order().remove(i),
    {
        match self.find(session_id) {
            Some(i) => {
                proof {
                    assert(skv(self.sessions@).remove(i as int) =~= skv(self.sessions@.remove(i as int)));
                    lemma_to_map_remove(skv(self.sessions@), i as int);
                }
                let ghost o0 = self.order();
                self.sessions.remove(i);
                assert(self.order() =~= o0.remove(i as int));
                true
            },
            None => {
                assert(old(self).view().remove(session_id@) =~= old(self).view());
                false
            },
        }
    }

    /// Every tracked id, once each.
    pub fn get_all_sessions(&self) -> (r: Vec<SessionId>)
        requires
            self.wf(),
        ensures
            r@.len() == self.view().dom().len(),
            forall|i: int| 0 <= i < r@.len() ==> self.view().contains_key(#[trigger] r@[i]@),
            forall|k| #[trigger] self.view().contains_key(k) ==> exists|i: int| 0 <= i < r@.len() && r@[i]@ == k,
    {
        let mut r: Vec<SessionId> = Vec::new();
        let mut i: usize = 0;
        while i < self.sessions.len()
            invariant
                i <= self.sessions@.len(),
                r@.len() == i,
                forall|j: int| 0 <= j < i ==> (#[trigger] r@[j])@ == self.sessions@[j].0@,
            decreases self.sessions@.len() - i,
        {
            r.push(self.sessions[i].0.duplicate());
            i = i + 1;
        }
        proof {
            self.lemma_size();
            let s = skv(self.sessions@);
            assert forall|i: int| 0 <= i < r@.len() implies self.view().contains_key(#[trigger] r@[i]@) by {
                lemma_to_map_index(s, i);
            }
            assert forall|k| #[trigger] self.view().contains_key(k) implies exists|i: int| 0 <= i < r@.len() && r@[i]@ == k by {
                lemma_to_map_dom(s, k);
                let j = choose|j: int| 0 <= j < s.len() && s[j].0 == k;
                assert(r@[j]@ == k);
            }
        }
        r
    }
}

/// After a ticket is recorded for a tracked session, its statistics report a ticket;
/// each recorded resumption raises the count by one until it reaches its maximum.
pub proof fn lemma_ticket_and_resumption(st: SessionState, ticket: Vec<u8>)
    ensures
        (SessionState { ticket: Some(ticket), ..st }).ticket is Some,
        st.resume_count < u32::MAX ==> (SessionState { resume_count: (st.resume_count + 1) as u32, ..st }).resume_count
            == st.resume_count + 1,
{
}

/// Marking, ticket recording and resumption leave a session's pinned configuration as recorded.
pub proof fn lemma_config_pinned(st: SessionState, ticket: Vec<u8>)
    ensures
        (SessionState { established: true, ..st }).config == st.config,
        (SessionState { ticket: Some(ticket), ..st }).config == st.config,
        (SessionState { resume_count: if st.resume_count < u32::MAX { (st.resume_count + 1) as u32 } else { st.resume_count }, ..st }).config
            == st.config,
{
}

} // verus!
