//! Sign-in sessions of the HTTP API: a session is created unauthorized with
//! a nonce, and is authorized by a message signed by the user's wallet that
//! carries that nonce and the server's domain. Sessions expire.
use vstd::prelude::*;

use super::error::Error;
use crate::git_server::server::new_rng;
use crate::oid::hex_encode;
use crate::text::{lower_seq, lowercase_ascii, str_eq};

verus! {

/// A point in time: seconds since the epoch, and nanoseconds within that second.
#[derive(Debug, Clone, Copy, PartialEq, Eq, Structural)]
pub struct Timestamp {
    pub secs: i64,
    pub nanos: u32,
}

/// `a` is not later than `b`.
pub open spec fn not_later(a: Timestamp, b: Timestamp) -> bool {
    a.secs < b.secs || (a.secs == b.secs && a.nanos <= b.nanos)
}

/// Whether `a` is not later than `b`.
pub fn is_not_later(a: Timestamp, b: Timestamp) -> (r: bool)
    ensures
        r == not_later(a, b),
{
    a.secs < b.secs || (a.secs == b.secs && a.nanos <= b.nanos)
}

/// Seconds an unauthorized session waits for its sign-in.
pub const UNAUTHORIZED_SESSIONS_EXPIRATION: i64 = 60;

/// When a session created at `now` expires unless signed in: a minute later.
pub fn session_expiration(now: Timestamp) -> (r: Timestamp)
    requires
        now.secs <= i64::MAX - UNAUTHORIZED_SESSIONS_EXPIRATION,
    ensures
        r.secs == now.secs + UNAUTHORIZED_SESSIONS_EXPIRATION,
        r.nanos == now.nanos,
{
    Timestamp { secs: now.secs + UNAUTHORIZED_SESSIONS_EXPIRATION, nanos: now.nanos }
}

/// An authorized session: the sign-in message that authorized it.
#[derive(Debug, Clone)]
pub struct Session {
    pub domain: String,
    pub address: [u8; 20],
    pub statement: String,
    pub uri: String,
    pub version: u64,
    pub chain_id: u64,
    pub nonce: String,
    pub issued_at: Timestamp,
    pub expiration_time: Option<Timestamp>,
    pub resources: Vec<String>,
}

/// A sign-in message (Sign-In with Ethereum), as plain values.
#[derive(Debug, Clone)]
pub struct SignInMessage {
    /// The domain of the message, an authority (`host[:port]`).
    pub domain: String,
    /// The host of that authority, without user info or port (`Authority::host`).
    pub domain_host: String,
    pub address: [u8; 20],
    pub statement: Option<String>,
    pub uri: String,
    pub version: u64,
    pub chain_id: u64,
    pub nonce: String,
    pub issued_at: Timestamp,
    pub expiration_time: Option<Timestamp>,
    pub resources: Vec<String>,
}

impl Session {
    /// The session that a sign-in message authorizes: the message must carry
    /// a statement. The session keeps the host of the message's domain.
    pub fn from_message(message: SignInMessage) -> (r: Result<Session, Error>)
        ensures
            message.statement is None ==> (r matches Err(Error::Auth(why)) && why@ == "No statement found"@),
            message.statement matches Some(st) ==> (r matches Ok(s) && s.statement@ == st@ && s.nonce@
                == message.nonce@ && s.domain@ == message.domain_host@ && s.address == message.address
                && s.expiration_time == message.expiration_time && s.issued_at == message.issued_at
                && s.uri@ == message.uri@ && s.version == message.version && s.chain_id == message.chain_id
                && s.resources@ == message.resources@),
    {
        let statement = match message.statement {
            Some(s) => s,
            None => return Err(Error::Auth("No statement found")),
        };
        Ok(
            Session {
                domain: message.domain_host,
                address: message.address,
                statement,
                uri: message.uri,
                version: message.version,
                chain_id: message.chain_id,
                nonce: message.nonce,
                issued_at: message.issued_at,
                expiration_time: message.expiration_time,
                resources: message.resources,
            },
        )
    }
}

/// Two sessions hold the same values.
pub open spec fn same_session(a: Session, b: Session) -> bool {
    &&& a.domain@ == b.domain@
    &&& a.address == b.address
    &&& a.statement@ == b.statement@
    &&& a.uri@ == b.uri@
    &&& a.version == b.version
    &&& a.chain_id == b.chain_id
    &&& a.nonce@ == b.nonce@
    &&& a.issued_at == b.issued_at
    &&& a.expiration_time == b.expiration_time
    &&& crate::text::views(a.resources@) == crate::text::views(b.resources@)
}

/// A copy of a session.
pub fn copy_session(s: &Session) -> (r: Session)
    ensures
        same_session(r, *s),
{
    let mut resources: Vec<String> = Vec::new();
    let mut i: usize = 0;
    while i < s.resources.len()
        invariant
            i <= s.resources@.len(),
            crate::text::views(resources@) == crate::text::views(s.resources@).take(i as int),
        decreases s.resources@.len() - i,
    {
        let ghost before = resources@;
        resources.push(s.resources[i].clone());
        assert(crate::text::views(resources@) =~= crate::text::views(before).push(s.resources@[i as int]@));
        assert(crate::text::views(s.resources@).take(i + 1) =~= crate::text::views(s.resources@).take(i as int).push(s.resources@[i as int]@));
        i = i + 1;
    }
    assert(crate::text::views(s.resources@).take(i as int) =~= crate::text::views(s.resources@));
    Session {
        domain: s.domain.clone(),
        address: s.address,
        statement: s.statement.clone(),
        uri: s.uri.clone(),
        version: s.version,
        chain_id: s.chain_id,
        nonce: s.nonce.clone(),
        issued_at: s.issued_at,
        expiration_time: s.expiration_time,
        resources,
    }
}

/// `s` is the session that the message `m` with the statement `st` authorizes.
pub open spec fn session_of(s: Session, m: SignInMessage, st: String) -> bool {
    &&& s.statement@ == st@
    &&& s.nonce@ == m.nonce@
    &&& s.domain@ == m.domain_host@
    &&& s.address == m.address
    &&& s.expiration_time == m.expiration_time
    &&& s.issued_at == m.issued_at
    &&& s.uri@ == m.uri@
    &&& s.version == m.version
    &&& s.chain_id == m.chain_id
    &&& s.resources@ == m.resources@
}

/// The state of a session.
#[derive(Debug, Clone)]
pub enum AuthState {
    /// Signed in.
    Authorized(Session),
    /// Waiting for a sign-in message with this nonce, until the expiration time.
    Unauthorized { nonce: String, expiration_time: Timestamp },
}

/// A session in this state has expired at time `now`: its expiration time
/// is not later than `now` (an authorized session without one never expires).
pub open spec fn expired(state: AuthState, now: Timestamp) -> bool {
    match state {
        AuthState::Authorized(s) => match s.expiration_time {
            Some(t) => not_later(t, now),
            None => false,
        },
        AuthState::Unauthorized { expiration_time, .. } => not_later(expiration_time, now),
    }
}

/// The sessions that have not expired at time `now`, in order.
pub open spec fn live(entries: Seq<(String, AuthState)>, now: Timestamp) -> Seq<(String, AuthState)> {
    entries.filter(|e: (String, AuthState)| !expired(e.1, now))
}

/// The state of the session `id` in a list of sessions.
pub open spec fn lookup(entries: Seq<(String, AuthState)>, id: Seq<char>) -> Option<AuthState>
    decreases entries.len(),
{
    if entries.len() == 0 {
        None
    } else if entries.last().0@ == id {
        Some(entries.last().1)
    } else {
        lookup(entries.drop_last(), id)
    }
}

/// No session id occurs twice.
pub open spec fn distinct_ids(entries: Seq<(String, AuthState)>) -> bool {
    forall|i: int, j: int|
        0 <= i < entries.len() && 0 <= j < entries.len() && i != j ==> entries[i].0@ != entries[j].0@
}

/// The lowercase hexadecimal digits.
pub open spec fn is_lower_hex(c: char) -> bool {
    ('0' <= c && c <= '9') || ('a' <= c && c <= 'f')
}

/// A random byte (`fastrand::Rng::u8`); any byte may come.
#[verifier::external_body]
fn random_byte(rng: &fastrand::Rng) -> u8 {
    rng.u8(..)
}

/// The text is a URI authority (`host[:port]`, with optional user info).
pub uninterp spec fn authority_ok(host: Seq<char>) -> bool;

/// An authority (`http::uri::Authority::from_str`): `None` when the text is
/// not one, as named by `authority_ok`; an authority keeps the text it was
/// read from.
#[verifier::external_body]
fn parse_authority(host: &str) -> (r: Option<String>)
    ensures
        r is Some <==> authority_ok(host@),
        r matches Some(t) ==> t@ == host@,
{
    match host.parse::<warp::http::uri::Authority>() {
        Ok(a) => Some(a.as_str().to_owned()),
        Err(_) => None,
    }
}

/// The sessions, each under its id.
#[derive(Debug)]
pub struct Sessions {
    entries: Vec<(String, AuthState)>,
}

impl Sessions {
    /// The sessions, in the order they were created.
    pub closed spec fn entries(&self) -> Seq<(String, AuthState)> {
        self.entries@
    }

    /// Well-formedness: no id occurs twice.
    pub open spec fn wf(&self) -> bool {
        distinct_ids(self.entries())
    }

    /// No sessions.
    pub fn new() -> (r: Self)
        ensures
            r.wf(),
            r.entries().len() == 0,
    {
        Sessions { entries: Vec::new() }
    }

    /// The position of the session `id`.
    fn position(&self, id: &str) -> (r: Option<usize>)
        requires
            self.wf(),
        ensures
            r matches Some(i) ==> i < self.entries().len() && self.entries()[i as int].0@ == id@,
            r is None ==> forall|i: int| 0 <= i < self.entries().len() ==> #[trigger] self.entries()[i].0@ != id@,
    {
        let mut i: usize = 0;
        while i < self.entries.len()
            invariant
                i <= self.entries@.len(),
                forall|j: int| 0 <= j < i ==> #[trigger] self.entries@[j].0@ != id@,
            decreases self.entries@.len() - i,
        {
            if str_eq(self.entries[i].0.as_str(), id) {
                return Some(i);
            }
            i = i + 1;
        }
        None
    }

    /// The state of the session `id`.
    pub fn get(&self, id: &str) -> (r: Option<&AuthState>)
        requires
            self.wf(),
        ensures
            r matches Some(s) ==> lookup(self.entries(), id@) == Some(*s),
            r is None ==> lookup(self.entries(), id@) is None,
    {
        match self.position(id) {
            Some(i) => {
                proof {
                    lemma_lookup_at(self.entries(), id@, i as int);
                }
                Some(&self.entries[i].1)
            },
            None => {
                proof {
                    lemma_lookup_none(self.entries(), id@);
                }
                None
            },
        }
    }

    /// Puts `state` under `id`, replacing the state it had.
    pub fn insert(&mut self, id: String, state: AuthState)
        requires
            old(self).wf(),
        ensures
            final(self).wf(),
            lookup(final(self).entries(), id@) == Some(state),
            forall|k: Seq<char>| k != id@ ==> lookup(#[trigger] final(self).entries(), k) == lookup(old(self).entries(), k),
    {
        let ghost before = self.entries@;
        match self.position(id.as_str()) {
            Some(i) => {
                let ghost key = id@;
                self.entries.set(i, (id, state));
                proof {
                    assert(self.entries@ == before.update(i as int, (self.entries@[i as int].0, state)));
                    lemma_lookup_update(before, i as int, self.entries@[i as int].0, state);
                }
            },
            None => {
                let ghost key = id@;
                self.entries.push((id, state));
                proof {
                    assert(self.entries@.drop_last() =~= before);
                    assert forall|k: Seq<char>| k != key implies lookup(#[trigger] self.entries@, k) == lookup(before, k) by {
                    }
                    assert forall|a: int, b: int|
                        0 <= a < self.entries@.len() && 0 <= b < self.entries@.len() && a != b implies self.entries@[a].0@ != self.entries@[b].0@ by {
                        if a == before.len() {
                            assert(before[b].0@ != key);
                        } else if b == before.len() {
                            assert(before[a].0@ != key);
                        }
                    }
                }
            },
        }
    }

    /// Removes the sessions that expired at time `now`; the others stay, in order.
    pub fn cleanup(&mut self, now: Timestamp)
        requires
            old(self).wf(),
        ensures
            final(self).wf(),
            final(self).entries() == live(old(self).entries(), now),
    {
        let ghost initial = self.entries@;
        let mut kept: Vec<(String, AuthState)> = Vec::new();
        let mut rest: Vec<(String, AuthState)> = Vec::new();
        std::mem::swap(&mut rest, &mut self.entries);
        let total = rest.len();
        let mut n: usize = 0;
        while rest.len() > 0
            invariant
                initial.len() == total,
                n <= initial.len(),
                rest@ == initial.skip(n as int),
                rest@.len() == initial.len() - n,
                kept@ == initial.take(n as int).filter(|e: (String, AuthState)| !expired(e.1, now)),
            decreases rest@.len(),
        {
            let e = rest.remove(0);
            proof {
                reveal(Seq::filter);
                assert(e == initial[n as int]);
                assert(rest@ =~= initial.skip(n + 1));
                assert(initial.take(n + 1).drop_last() =~= initial.take(n as int));
                assert(initial.take(n + 1).last() == initial[n as int]);
            }
            let gone = match &e.1 {
                AuthState::Authorized(s) => match s.expiration_time {
                    Some(t) => is_not_later(t, now),
                    None => false,
                },
                AuthState::Unauthorized { expiration_time, .. } => is_not_later(*expiration_time, now),
            };
            if !gone {
                kept.push(e);
            }
            n = n + 1;
        }
        proof {
            assert(initial.take(n as int) =~= initial);
            lemma_filter_distinct(initial, now);
        }
        self.entries = kept;
    }

    /// Creates an unauthorized session, expiring at `expiration_time`, for the
    /// sign-in nonce `nonce`, under a fresh random id: 32 random bytes in
    /// hexadecimal. Returns the id and the nonce.
    pub fn create(&mut self, nonce: String, expiration_time: Timestamp) -> (r: (String, String))
        requires
            old(self).wf(),
        ensures
            final(self).wf(),
            r.0@.len() == 64,
            forall|i: int| 0 <= i < 64 ==> is_lower_hex(#[trigger] r.0@[i]),
            r.1@ == nonce@,
            lookup(final(self).entries(), r.0@) matches Some(AuthState::Unauthorized { nonce: n, expiration_time: t })
                && n@ == nonce@ && t == expiration_time,
            forall|k: Seq<char>| k != r.0@ ==> lookup(#[trigger] final(self).entries(), k) == lookup(old(self).entries(), k),
    {
        let rng = new_rng();
        let mut bytes: Vec<u8> = Vec::new();
        let mut i: usize = 0;
        while i < 32
            invariant
                i <= 32,
                bytes@.len() == i,
            decreases 32 - i,
        {
            bytes.push(random_byte(&rng));
            i = i + 1;
        }
        let id = hex_encode(bytes.as_slice());
        proof {
            crate::oid::lemma_hex_lower_len(bytes@);
        }
        let state = AuthState::Unauthorized { nonce: nonce.clone(), expiration_time };
        self.insert(id.clone(), state);
        (id, nonce)
    }

    /// Signs the session `id` in with a sign-in message, given the outcome of
    /// reading the message, the server's domain (`RADICLE_DOMAIN`) and the
    /// outcome of verifying the message's signature and validity times. The
    /// session must exist and wait for a sign-in; the message must carry its
    /// nonce and the server's domain (compared without regard to ASCII case),
    /// verify, and carry a statement. The session is then authorized.
    pub fn sign_in(
        &mut self,
        id: &str,
        message: Result<SignInMessage, String>,
        host: Result<String, String>,
        verification: Result<(), String>,
    ) -> (r: Result<Session, Error>)
        requires
            old(self).wf(),
        ensures
            final(self).wf(),
            match lookup(old(self).entries(), id@) {
                None => r matches Err(Error::NotFound),
                Some(AuthState::Authorized(_)) => r matches Err(Error::Auth(why)) && why@
                    == "Session already authorized"@,
                Some(AuthState::Unauthorized { nonce, .. }) => match message {
                    Err(m) => r == Err::<Session, Error>(Error::SiweParse(m)),
                    Ok(msg) => match host {
                        Err(h) => r == Err::<Session, Error>(Error::Other(h)),
                        Ok(h) => if msg.nonce@ != nonce@ {
                            r matches Err(Error::Auth(why)) && why@ == "Invalid nonce"@
                        } else if !authority_ok(h@) {
                            r matches Err(Error::Auth(why)) && why@ == "Invalid host"@
                        } else if lower_seq(h@) != lower_seq(msg.domain@) {
                            r matches Err(Error::Auth(why)) && why@ == "Invalid domain"@
                        } else {
                            match verification {
                                Err(v) => r == Err::<Session, Error>(Error::SiweVerification(v)),
                                Ok(()) => match msg.statement {
                                    None => r matches Err(Error::Auth(why)) && why@ == "No statement found"@,
                                    Some(st) => r matches Ok(s) && session_of(s, msg, st) && (lookup(
                                        final(self).entries(),
                                        id@,
                                    ) matches Some(AuthState::Authorized(t)) && same_session(t, s)),
                                },
                            }
                        },
                    },
                },
            },
            r is Err ==> final(self).entries() == old(self).entries(),
            r is Ok ==> forall|k: Seq<char>| k != id@ ==> lookup(#[trigger] final(self).entries(), k) == lookup(old(self).entries(), k),
    {
        let expected = match self.get(id) {
            None => return Err(Error::NotFound),
            Some(AuthState::Authorized(_)) => return Err(Error::Auth("Session already authorized")),
            Some(AuthState::Unauthorized { nonce, .. }) => nonce.clone(),
        };
        let message = match message {
            Ok(m) => m,
            Err(e) => return Err(Error::SiweParse(e)),
        };
        let host = match host {
            Ok(h) => h,
            Err(e) => return Err(Error::Other(e)),
        };
        if !str_eq(expected.as_str(), message.nonce.as_str()) {
            return Err(Error::Auth("Invalid nonce"));
        }
        let authority = match parse_authority(host.as_str()) {
            Some(a) => a,
            None => return Err(Error::Auth("Invalid host")),
        };
        let a = lowercase_ascii(authority.as_str());
        let d = lowercase_ascii(message.domain.as_str());
        if !str_eq(a.as_str(), d.as_str()) {
            return Err(Error::Auth("Invalid domain"));
        }
        if let Err(e) = verification {
            return Err(Error::SiweVerification(e));
        }
        let session = Session::from_message(message)?;
        let stored = copy_session(&session);
        self.insert(id.to_owned(), AuthState::Authorized(stored));
        Ok(session)
    }
}

/// After a cleanup at time `now`, no remaining session has expired at `now`,
/// and every session that had not expired remains.
pub proof fn law_cleanup_keeps_exactly_the_live_sessions(entries: Seq<(String, AuthState)>, now: Timestamp)
    ensures
        forall|i: int| 0 <= i < live(entries, now).len() ==> !expired(#[trigger] live(entries, now)[i].1, now),
        forall|i: int| 0 <= i < entries.len() && !expired(#[trigger] entries[i].1, now) ==> live(entries, now).contains(entries[i]),
{
    let p = |e: (String, AuthState)| !expired(e.1, now);
    assert forall|i: int| 0 <= i < live(entries, now).len() implies !expired(#[trigger] live(entries, now)[i].1, now) by {
        entries.lemma_filter_pred(p, i);
    }
    assert forall|i: int| 0 <= i < entries.len() && !expired(#[trigger] entries[i].1, now) implies live(entries, now).contains(entries[i]) by {
        entries.lemma_filter_contains(p, i);
    }
}

/// The state found at position `i` is the state of its id.
proof fn lemma_lookup_at(entries: Seq<(String, AuthState)>, id: Seq<char>, i: int)
    requires
        distinct_ids(entries),
        0 <= i < entries.len(),
        entries[i].0@ == id,
    ensures
        lookup(entries, id) == Some(entries[i].1),
    decreases entries.len(),
{
    if i < entries.len() - 1 {
        assert(entries.last().0@ != id);
        let init = entries.drop_last();
        assert(distinct_ids(init)) by {
            assert forall|a: int, b: int| 0 <= a < init.len() && 0 <= b < init.len() && a != b implies init[a].0@ != init[b].0@ by {
                assert(init[a] == entries[a] && init[b] == entries[b]);
            }
        }
        assert(init[i] == entries[i]);
        lemma_lookup_at(init, id, i);
    }
}

/// An id at no position has no state.
proof fn lemma_lookup_none(entries: Seq<(String, AuthState)>, id: Seq<char>)
    requires
        forall|i: int| 0 <= i < entries.len() ==> #[trigger] entries[i].0@ != id,
    ensures
        lookup(entries, id) is None,
    decreases entries.len(),
{
    if entries.len() > 0 {
        let init = entries.drop_last();
        assert forall|i: int| 0 <= i < init.len() implies #[trigger] init[i].0@ != id by {
            assert(init[i] == entries[i]);
        }
        assert(entries[entries.len() - 1].0@ != id);
        lemma_lookup_none(init, id);
    }
}

/// Replacing the state at position `i` (same id) changes the state of that id only.
proof fn lemma_lookup_update(entries: Seq<(String, AuthState)>, i: int, key: String, state: AuthState)
    requires
        distinct_ids(entries),
        0 <= i < entries.len(),
        entries[i].0@ == key@,
    ensures
        distinct_ids(entries.update(i, (key, state))),
        lookup(entries.update(i, (key, state)), key@) == Some(state),
        forall|k: Seq<char>| k != key@ ==> lookup(#[trigger] entries.update(i, (key, state)), k) == lookup(entries, k),
    decreases entries.len(),
{
    let u = entries.update(i, (key, state));
    assert(distinct_ids(u)) by {
        assert forall|a: int, b: int| 0 <= a < u.len() && 0 <= b < u.len() && a != b implies u[a].0@ != u[b].0@ by {
            assert(u[a].0@ == entries[a].0@);
            assert(u[b].0@ == entries[b].0@);
        }
    }
    lemma_lookup_at(u, key@, i);
    assert forall|k: Seq<char>| k != key@ implies lookup(#[trigger] entries.update(i, (key, state)), k) == lookup(entries, k) by {
        lemma_lookup_other(entries, i, key, state, k);
    }
}

proof fn lemma_lookup_other(entries: Seq<(String, AuthState)>, i: int, key: String, state: AuthState, k: Seq<char>)
    requires
        0 <= i < entries.len(),
        entries[i].0@ == key@,
        k != key@,
    ensures
        lookup(entries.update(i, (key, state)), k) == lookup(entries, k),
    decreases entries.len(),
{
    let u = entries.update(i, (key, state));
    if i < entries.len() - 1 {
        assert(u.drop_last() =~= entries.drop_last().update(i, (key, state)));
        assert(u.last() == entries.last());
        lemma_lookup_other(entries.drop_last(), i, key, state, k);
    } else {
        assert(u.drop_last() =~= entries.drop_last());
    }
}

/// Keeping some of the sessions keeps the ids distinct.
proof fn lemma_filter_distinct(entries: Seq<(String, AuthState)>, now: Timestamp)
    requires
        distinct_ids(entries),
    ensures
        distinct_ids(entries.filter(|e: (String, AuthState)| !expired(e.1, now))),
{
    let f = entries.filter(|e: (String, AuthState)| !expired(e.1, now));
    assert forall|a: int, b: int| 0 <= a < f.len() && 0 <= b < f.len() && a != b implies f[a].0@ != f[b].0@ by {
        lemma_filter_injective(entries, now, a, b);
    }
}

/// Each kept session is a session of the list.
proof fn lemma_filter_index(entries: Seq<(String, AuthState)>, now: Timestamp, a: int)
    requires
        0 <= a < entries.filter(|e: (String, AuthState)| !expired(e.1, now)).len(),
    ensures
        exists|ia: int| 0 <= ia < entries.len() && entries[ia] == entries.filter(|e: (String, AuthState)| !expired(e.1, now))[a],
{
    let p = |e: (String, AuthState)| !expired(e.1, now);
    let f = entries.filter(p);
    assert(f.contains(f[a]));
    entries.lemma_filter_contains_rev(p, f[a]);
}

/// Two kept sessions at different places come from different places.
proof fn lemma_filter_injective(entries: Seq<(String, AuthState)>, now: Timestamp, a: int, b: int)
    requires
        distinct_ids(entries),
        0 <= a < entries.filter(|e: (String, AuthState)| !expired(e.1, now)).len(),
        0 <= b < entries.filter(|e: (String, AuthState)| !expired(e.1, now)).len(),
        a != b,
    ensures
        entries.filter(|e: (String, AuthState)| !expired(e.1, now))[a].0@ != entries.filter(|e: (String, AuthState)| !expired(e.1, now))[b].0@,
    decreases entries.len(),
{
    reveal(Seq::filter);
    let p = |e: (String, AuthState)| !expired(e.1, now);
    let init = entries.drop_last();
    let fi = init.filter(p);
    assert(distinct_ids(init)) by {
        assert forall|x: int, y: int| 0 <= x < init.len() && 0 <= y < init.len() && x != y implies init[x].0@ != init[y].0@ by {
            assert(init[x] == entries[x] && init[y] == entries[y]);
        }
    }
    if p(entries.last()) {
        let f = fi.push(entries.last());
        assert(entries.filter(p) == f);
        if a < fi.len() && b < fi.len() {
            lemma_filter_injective(init, now, a, b);
        } else {
            let other = if a < fi.len() { a } else { b };
            lemma_filter_index(init, now, other);
            let io = choose|io: int| 0 <= io < init.len() && init[io] == fi[other];
            assert(entries[io] == init[io]);
            assert(entries[io].0@ != entries[entries.len() - 1].0@);
        }
    } else {
        assert(entries.filter(p) == fi);
        lemma_filter_injective(init, now, a, b);
    }
}

/// When sessions expire: an authorized session with an expiration time
/// expires once that time is reached, one without an expiration time never
/// does, and a session waiting for its sign-in expires once its deadline is
/// reached.
pub proof fn law_session_expiry(s: Session, nonce: String, deadline: Timestamp, now: Timestamp)
    ensures
        s.expiration_time is None ==> !expired(AuthState::Authorized(s), now),
        s.expiration_time matches Some(t) ==> (expired(AuthState::Authorized(s), now) <==> (t.secs < now.secs || (
        t.secs == now.secs && t.nanos <= now.nanos))),
        expired(AuthState::Unauthorized { nonce, expiration_time: deadline }, now) <==> (deadline.secs < now.secs || (
        deadline.secs == now.secs && deadline.nanos <= now.nanos)),
{
}

proof fn lemma_lookup_absent(entries: Seq<(String, AuthState)>, id: Seq<char>)
    requires
        forall|i: int| 0 <= i < entries.len() ==> (#[trigger] entries[i]).0@ != id,
    ensures
        lookup(entries, id) is None,
    decreases entries.len(),
{
    if entries.len() > 0 {
        let init = entries.drop_last();
        assert forall|i: int| 0 <= i < init.len() implies (#[trigger] init[i]).0@ != id by {
            assert(init[i] == entries[i]);
        }
        lemma_lookup_absent(init, id);
        assert(entries.last() == entries[entries.len() - 1]);
    }
}

/// Cleaning up at time `now` keeps exactly the sessions that have not
/// expired: looking a session up afterwards finds it as before if it had not
/// expired, and finds nothing if it had (or was never there). In particular a
/// signed-in session without an expiration time is never cleaned up.
pub proof fn law_cleanup_keeps_what_has_not_expired(entries: Seq<(String, AuthState)>, now: Timestamp, id: Seq<char>)
    requires
        distinct_ids(entries),
    ensures
        lookup(live(entries, now), id) == (match lookup(entries, id) {
            Some(st) => if expired(st, now) {
                None
            } else {
                Some(st)
            },
            None => None,
        }),
        (lookup(entries, id) matches Some(AuthState::Authorized(s)) && s.expiration_time is None) ==> lookup(
            live(entries, now),
            id,
        ) == lookup(entries, id),
    decreases entries.len(),
{
    reveal(Seq::filter);
    if entries.len() > 0 {
        let init = entries.drop_last();
        let e = entries.last();
        assert(distinct_ids(init)) by {
            assert forall|i: int, j: int|
                0 <= i < init.len() && 0 <= j < init.len() && i != j implies init[i].0@ != init[j].0@ by {
                assert(init[i] == entries[i]);
                assert(init[j] == entries[j]);
            }
        }
        law_cleanup_keeps_what_has_not_expired(init, now, id);
        let p = |x: (String, AuthState)| !expired(x.1, now);
        assert(live(entries, now) == (if p(e) {
            live(init, now).push(e)
        } else {
            live(init, now)
        }));
        if e.0@ == id {
            assert forall|i: int| 0 <= i < init.len() implies (#[trigger] init[i]).0@ != id by {
                assert(init[i] == entries[i]);
                assert(e == entries[entries.len() - 1]);
            }
            lemma_lookup_absent(init, id);
            if p(e) {
                assert(live(entries, now).last() == e);
                assert(live(entries, now).drop_last() =~= live(init, now));
            }
        } else if p(e) {
            assert(live(entries, now).last() == e);
            assert(live(entries, now).drop_last() =~= live(init, now));
        }
    }
}

} // verus!
