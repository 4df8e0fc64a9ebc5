//! Shard and session bookkeeping: whether a shard has its READY payload, and
//! the sessions that clients open by IDENTIFY and take up again by RESUME.
use std::sync::Arc;
use vstd::prelude::*;

use crate::text::str_eq;

verus! {

/// Manager for the READY state of a shard: the shard is ready while it holds
/// the READY payload that it received last.
pub struct Ready<T> {
    inner: Option<T>,
}

impl<T> Ready<T> {
    /// The READY payload held, if the shard is ready.
    pub closed spec fn payload(&self) -> Option<T> {
        self.inner
    }

    pub fn new() -> (r: Self)
        ensures
            r.payload() is None,
    {
        Ready { inner: None }
    }

    pub fn is_ready(&self) -> (r: bool)
        ensures
            r == self.payload() is Some,
    {
        self.inner.is_some()
    }

    pub fn set_ready(&mut self, payload: T)
        ensures
            final(self).payload() == Some(payload),
    {
        self.inner = Some(payload);
    }

    pub fn set_not_ready(&mut self)
        ensures
            final(self).payload() is None,
    {
        self.inner = None;
    }

    /// The READY payload, once the shard is ready.
    pub fn ready_payload(&self) -> (r: Option<&T>)
        ensures
            match r {
                None => self.payload() is None,
                Some(p) => self.payload() == Some(*p),
            },
    {
        match &self.inner {
            None => None,
            Some(p) => Some(p),
        }
    }
}

/// A session initiated by a client.
#[derive(Clone, Copy, Debug, PartialEq, Eq)]
pub struct Session {
    /// Shard ID that this session is for.
    pub shard_id: u64,
    /// Compression as requested in IDENTIFY.
    pub compress: Option<bool>,
}

/// The sessions of all clients, by session ID.
pub struct Sessions {
    entries: Vec<(String, Session)>,
}

/// The map that a list of entries denotes, a later entry for a key winning.
pub open spec fn entries_map(s: Seq<(String, Session)>) -> Map<Seq<char>, Session>
    decreases s.len(),
{
    if s.len() == 0 {
        Map::empty()
    } else {
        entries_map(s.drop_last()).insert(s.last().0@, s.last().1)
    }
}

pub open spec fn keys_distinct(s: Seq<(String, Session)>) -> bool {
    forall|i: int, j: int| 0 <= i < j < s.len() ==> s[i].0@ != s[j].0@
}

proof fn lemma_entries_map_lookup(s: Seq<(String, Session)>, i: int)
    requires
        keys_distinct(s),
        0 <= i < s.len(),
    ensures
        entries_map(s).contains_key(s[i].0@),
        entries_map(s)[s[i].0@] == s[i].1,
    decreases s.len(),
{
    if i < s.len() - 1 {
        lemma_entries_map_lookup(s.drop_last(), i);
    }
}

proof fn lemma_entries_map_absent(s: Seq<(String, Session)>, k: Seq<char>)
    requires
        forall|i: int| 0 <= i < s.len() ==> s[i].0@ != k,
    ensures
        !entries_map(s).contains_key(k),
    decreases s.len(),
{
    if s.len() > 0 {
        lemma_entries_map_absent(s.drop_last(), k);
    }
}

proof fn lemma_entries_map_update(s: Seq<(String, Session)>, i: int, e: (String, Session))
    requires
        keys_distinct(s),
        0 <= i < s.len(),
        s[i].0@ == e.0@,
    ensures
        entries_map(s.update(i, e)) == entries_map(s).insert(e.0@, e.1),
    decreases s.len(),
{
    let t = s.update(i, e);
    if i == s.len() - 1 {
        assert(t.drop_last() =~= s.drop_last());
        assert(entries_map(t) =~= entries_map(s).insert(e.0@, e.1));
    } else {
        lemma_entries_map_update(s.drop_last(), i, e);
        assert(t.drop_last() =~= s.drop_last().update(i, e));
        assert(s.last().0@ != e.0@);
        assert(entries_map(t) =~= entries_map(s).insert(e.0@, e.1));
    }
}

impl View for Sessions {
    type V = Map<Seq<char>, Session>;

    closed spec fn view(&self) -> Map<Seq<char>, Session> {
        entries_map(self.entries@)
    }
}

/// A session ID character: an ASCII letter or digit.
pub open spec fn is_id_char(c: char) -> bool {
    ||| 'A' <= c <= 'Z'
    ||| 'a' <= c <= 'z'
    ||| '0' <= c <= '9'
}

/// A session ID: 32 ASCII letters and digits.
pub open spec fn is_session_id(id: Seq<char>) -> bool {
    id.len() == 32 && forall|i: int| 0 <= i < id.len() ==> is_id_char(#[trigger] id[i])
}

#[verifier::external_type_specification]
#[verifier::external_body]
pub struct ExThreadRng(rand::rngs::ThreadRng);

/// `rand::thread_rng`: the thread-local random number generator.
#[verifier::external_body]
fn thread_rng() -> rand::rngs::ThreadRng {
    rand::thread_rng()
}

/// `Rng::sample` of `rand::distributions::Alphanumeric`: a byte drawn from the
/// ASCII letters and digits, as that distribution's documentation states.
#[verifier::external_body]
fn sample_alphanumeric(rng: &mut rand::rngs::ThreadRng) -> (c: u8)
    ensures
        is_id_char(c as char),
{
    rand::Rng::sample(rng, rand::distributions::Alphanumeric)
}

/// `String::from_utf8`, on bytes that are ASCII: the string of those
/// characters.
#[verifier::external_body]
fn ascii_string(bytes: Vec<u8>) -> (r: String)
    requires
        forall|i: int| 0 <= i < bytes@.len() ==> bytes@[i] < 128,
    ensures
        r@ == bytes@.map_values(|b: u8| b as char),
{
    String::from_utf8(bytes).unwrap()
}

impl Sessions {
    spec fn wf(&self) -> bool {
        keys_distinct(self.entries@)
    }

    pub fn new() -> (r: Self)
        ensures
            r@ == Map::<Seq<char>, Session>::empty(),
    {
        Sessions { entries: Vec::new() }
    }

    /// Get a session by its ID.
    pub fn get_session(&self, session_id: &str) -> (r: Option<Session>)
        ensures
            r == (if self@.contains_key(session_id@) {
                Some(self@[session_id@])
            } else {
                None
            }),
    {
        proof {
            use_type_invariant(self);
        }
        let n = self.entries.len();
        let mut i: usize = 0;
        while i < n
            invariant
                n == self.entries@.len(),
                i <= n,
                keys_distinct(self.entries@),
                forall|j: int| 0 <= j < i ==> self.entries@[j].0@ != session_id@,
            decreases n - i,
        {
            if str_eq(self.entries[i].0.as_str(), session_id) {
                proof {
                    lemma_entries_map_lookup(self.entries@, i as int);
                }
                return Some(self.entries[i].1);
            }
            i = i + 1;
        }
        proof {
            lemma_entries_map_absent(self.entries@, session_id@);
        }
        None
    }

    /// Inserts or replaces the session under `session_id`.
    fn insert(&mut self, session_id: String, session: Session)
        ensures
            final(self)@ == old(self)@.insert(session_id@, session),
    {
        proof {
            use_type_invariant(&*self);
        }
        let n = self.entries.len();
        let mut i: usize = 0;
        while i < n
            invariant
                n == self.entries@.len(),
                i <= n,
                keys_distinct(self.entries@),
                self.entries@ == old(self).entries@,
                forall|j: int| 0 <= j < i ==> self.entries@[j].0@ != session_id@,
            decreases n - i,
        {
            if str_eq(self.entries[i].0.as_str(), session_id.as_str()) {
                let ghost before = self.entries@;
                let mut entries = Vec::new();
                std::mem::swap(&mut entries, &mut self.entries);
                proof {
                    lemma_entries_map_update(before, i as int, (session_id, session));
                }
                entries.set(i, (session_id, session));
                assert(keys_distinct(entries@)) by {
                    assert forall|a: int, b: int| 0 <= a < b < entries@.len() implies entries@[a].0@
                        != entries@[b].0@ by {
                        assert(before[a].0@ != before[b].0@);
                    }
                }
                self.entries = entries;
                return ;
            }
            i = i + 1;
        }
        let ghost before = self.entries@;
        let mut entries = Vec::new();
        std::mem::swap(&mut entries, &mut self.entries);
        entries.push((session_id, session));
        assert(entries@.drop_last() =~= before);
        assert(keys_distinct(entries@)) by {
            assert forall|a: int, b: int| 0 <= a < b < entries@.len() implies entries@[a].0@
                != entries@[b].0@ by {
                if b < before.len() {
                    assert(before[a].0@ != before[b].0@);
                } else {
                    assert(before[a].0@ != session_id@);
                }
            }
        }
        self.entries = entries;
    }

    /// Create a new session under a fresh random ID of 32 ASCII letters and
    /// digits, and return that ID.
    pub fn create_session(&mut self, session: Session) -> (session_id: String)
        ensures
            is_session_id(session_id@),
            final(self)@ == old(self)@.insert(session_id@, session),
    {
        let mut rng = thread_rng();
        let mut bytes: Vec<u8> = Vec::new();
        let mut k: usize = 0;
        while k < 32
            invariant
                k <= 32,
                bytes@.len() == k,
                forall|i: int| 0 <= i < k ==> is_id_char(#[trigger] bytes@[i] as char),
            decreases 32 - k,
        {
            let c = sample_alphanumeric(&mut rng);
            bytes.push(c);
            k = k + 1;
        }
        let session_id = ascii_string(bytes);
        self.insert(session_id.clone(), session);
        session_id
    }
}

impl Sessions {
    #[verifier::type_invariant]
    spec fn inv(&self) -> bool {
        self.wf()
    }
}

/// A session that was created is found under its ID, and the other
/// sessions stay as they were: what `create_session` stores,
/// `get_session` gives back.
pub proof fn lemma_created_session_found(
    before: Map<Seq<char>, Session>,
    after: Map<Seq<char>, Session>,
    session_id: Seq<char>,
    session: Session,
)
    requires
        after == before.insert(session_id, session),
    ensures
        after.contains_key(session_id),
        after[session_id] == session,
        forall|other: Seq<char>|
            other != session_id ==> (after.contains_key(other) == before.contains_key(other) && (
            before.contains_key(other) ==> after[other] == before[other])),
{
}

/// Global state for all shards managed by the proxy.
pub struct Inner<S> {
    /// State of all shards managed by the proxy.
    pub shards: Vec<Arc<S>>,
    /// Total shard count.
    pub shard_count: u64,
    /// All sessions active in the proxy.
    pub sessions: Sessions,
}

impl<S> Inner<S> {
    /// Get a session by its ID.
    pub fn get_session(&self, session_id: &str) -> (r: Option<Session>)
        ensures
            r == (if self.sessions@.contains_key(session_id@) {
                Some(self.sessions@[session_id@])
            } else {
                None
            }),
    {
        self.sessions.get_session(session_id)
    }

    /// Create a new session.
    pub fn create_session(&mut self, session: Session) -> (session_id: String)
        ensures
            is_session_id(session_id@),
            final(self).sessions@ == old(self).sessions@.insert(session_id@, session),
            final(self).shards == old(self).shards,
            final(self).shard_count == old(self).shard_count,
    {
        self.sessions.create_session(session)
    }
}

/// The position in the proxy's shard list of the shard whose ID is
/// `shard_id`, given the shards' IDs in list order: the first one with that
/// ID, or none if the proxy does not run that shard.
pub fn shard_position(shard_ids: &[u64], shard_id: u64) -> (r: Option<usize>)
    ensures
        match r {
            Some(i) => i < shard_ids@.len() && shard_ids@[i as int] == shard_id && forall|j: int|
                0 <= j < i ==> shard_ids@[j] != shard_id,
            None => !shard_ids@.contains(shard_id),
        },
{
    let n = shard_ids.len();
    let mut i: usize = 0;
    while i < n
        invariant
            n == shard_ids@.len(),
            i <= n,
            forall|j: int| 0 <= j < i ==> shard_ids@[j] != shard_id,
        decreases n - i,
    {
        if shard_ids[i] == shard_id {
            return Some(i);
        }
        i = i + 1;
    }
    None
}

} // verus!
