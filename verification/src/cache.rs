//! How the proxy rebuilds a shard's guild state for a new client from its
//! cache: the READY lists every guild as unavailable, and then every guild
//! gets a GUILD_CREATE, or a GUILD_DELETE when it is unavailable, each with
//! the client's next sequence number.
use vstd::prelude::*;

use crate::config::Cache;

verus! {

/// A cached guild: its ID and its `unavailable` flag.
pub type GuildEntry = (u64, Option<bool>);

/// A guild that Discord reported unavailable.
pub open spec fn is_unavailable(g: GuildEntry) -> bool {
    g.1 == Some(true)
}

/// The guild IDs that the READY lists: the cached guilds that are not
/// unavailable, then the guilds known only as unavailable.
pub open spec fn ready_guilds_spec(guilds: Seq<GuildEntry>, unavailable: Seq<u64>) -> Seq<u64> {
    guilds.filter(|g: GuildEntry| !is_unavailable(g)).map_values(|g: GuildEntry| g.0) + unavailable
}

/// Plans the READY for a new client: the guild IDs that it lists (each one
/// marked unavailable in the payload), and the READY's sequence number, the
/// next one after `sequence`.
pub fn ready_plan(guilds: &Vec<GuildEntry>, unavailable: &Vec<u64>, sequence: usize) -> (r: (
    Vec<u64>,
    usize,
))
    requires
        sequence < usize::MAX,
    ensures
        r.0@ == ready_guilds_spec(guilds@, unavailable@),
        r.1 == sequence + 1,
{
    let ghost keep = |g: GuildEntry| !is_unavailable(g);
    let ghost id = |g: GuildEntry| g.0;
    let mut ids: Vec<u64> = Vec::new();
    let n = guilds.len();
    let mut i: usize = 0;
    while i < n
        invariant
            n == guilds@.len(),
            i <= n,
            keep == (|g: GuildEntry| !is_unavailable(g)),
            id == (|g: GuildEntry| g.0),
            ids@ == guilds@.subrange(0, i as int).filter(keep).map_values(id),
        decreases n - i,
    {
        let ghost prefix = guilds@.subrange(0, i as int);
        let ghost next = guilds@.subrange(0, i + 1);
        assert(next.drop_last() =~= prefix);
        reveal_with_fuel(Seq::<_>::filter, 1);
        let g = guilds[i];
        assert(next.last() == g);
        assert(next.len() > 0);
        if g.1 != Some(true) {
            ids.push(g.0);
            assert(keep(g));
            assert(next.filter(keep) == prefix.filter(keep).push(g));
        } else {
            assert(!keep(g));
            assert(next.filter(keep) == prefix.filter(keep));
        }
        assert(next.filter(keep).map_values(id) =~= ids@);
        i = i + 1;
    }
    assert(guilds@.subrange(0, n as int) =~= guilds@);
    let ghost before = ids@;
    let m = unavailable.len();
    let mut j: usize = 0;
    while j < m
        invariant
            m == unavailable@.len(),
            j <= m,
            ids@ == before + unavailable@.subrange(0, j as int),
        decreases m - j,
    {
        ids.push(unavailable[j]);
        j = j + 1;
        assert(ids@ =~= before + unavailable@.subrange(0, j as int));
    }
    assert(unavailable@.subrange(0, m as int) =~= unavailable@);
    (ids, sequence + 1)
}

/// The payload that a cached guild is sent as.
#[derive(Clone, Copy, Debug, PartialEq, Eq)]
pub enum GuildPayloadKind {
    /// The guild with all its cached channels, members, roles and so on.
    GuildCreate,
    /// The guild is unavailable.
    GuildDelete,
}

pub open spec fn payload_kind(unavailable: Option<bool>) -> GuildPayloadKind {
    if unavailable == Some(true) {
        GuildPayloadKind::GuildDelete
    } else {
        GuildPayloadKind::GuildCreate
    }
}

/// Plans the guild payloads for a new client, one per cached guild (given
/// by its `unavailable` flag) in the cache's order: its kind and its
/// sequence number, counting on from `sequence`. Returns the plan and the
/// last sequence number used.
pub fn guild_payloads_plan(unavailable: &Vec<Option<bool>>, sequence: usize) -> (r: (
    Vec<(GuildPayloadKind, usize)>,
    usize,
))
    requires
        sequence + unavailable@.len() <= usize::MAX,
    ensures
        r.0@.len() == unavailable@.len(),
        forall|i: int|
            0 <= i < unavailable@.len() ==> #[trigger] r.0@[i] == (
                payload_kind(unavailable@[i]),
                (sequence + i + 1) as usize,
            ),
        r.1 == sequence + unavailable@.len(),
{
    let mut plan: Vec<(GuildPayloadKind, usize)> = Vec::new();
    let mut seq = sequence;
    let n = unavailable.len();
    let mut i: usize = 0;
    while i < n
        invariant
            n == unavailable@.len(),
            i <= n,
            sequence + n <= usize::MAX,
            seq == sequence + i,
            plan@.len() == i,
            forall|j: int|
                0 <= j < i ==> #[trigger] plan@[j] == (
                    payload_kind(unavailable@[j]),
                    (sequence + j + 1) as usize,
                ),
        decreases n - i,
    {
        seq = seq + 1;
        let kind = if unavailable[i] == Some(true) {
            GuildPayloadKind::GuildDelete
        } else {
            GuildPayloadKind::GuildCreate
        };
        plan.push((kind, seq));
        i = i + 1;
    }
    (plan, seq)
}

/// Splits a guild's cached channels, given by whether each is a thread, into
/// the positions of the channels that are not threads and of those that are,
/// each in order: a GUILD_CREATE lists them apart.
pub fn split_threads(is_thread: &Vec<bool>) -> (r: (Vec<usize>, Vec<usize>))
    ensures
        forall|k: int| 0 <= k < r.0@.len() ==> r.0@[k] < is_thread@.len() && !is_thread@[r.0@[k] as int],
        forall|k: int| 0 <= k < r.1@.len() ==> r.1@[k] < is_thread@.len() && is_thread@[r.1@[k] as int],
        forall|k: int, l: int| 0 <= k < l < r.0@.len() ==> r.0@[k] < r.0@[l],
        forall|k: int, l: int| 0 <= k < l < r.1@.len() ==> r.1@[k] < r.1@[l],
        r.0@.len() + r.1@.len() == is_thread@.len(),
{
    let mut channels: Vec<usize> = Vec::new();
    let mut threads: Vec<usize> = Vec::new();
    let n = is_thread.len();
    let mut i: usize = 0;
    while i < n
        invariant
            n == is_thread@.len(),
            i <= n,
            forall|k: int| 0 <= k < channels@.len() ==> channels@[k] < i && !is_thread@[channels@[k] as int],
            forall|k: int| 0 <= k < threads@.len() ==> threads@[k] < i && is_thread@[threads@[k] as int],
            forall|k: int, l: int| 0 <= k < l < channels@.len() ==> channels@[k] < channels@[l],
            forall|k: int, l: int| 0 <= k < l < threads@.len() ==> threads@[k] < threads@[l],
            channels@.len() + threads@.len() == i,
        decreases n - i,
    {
        if is_thread[i] {
            threads.push(i);
        } else {
            channels.push(i);
        }
        i = i + 1;
    }
    (channels, threads)
}

/// Whether the cached member of user `id` goes into a guild payload: every
/// member when the configuration caches members, and otherwise only the
/// current user's own member when it caches that.
pub open spec fn member_sent(cache: Cache, current_user: Option<u64>, id: u64) -> bool {
    cache.members || (cache.current_member && current_user == Some(id))
}

/// Filtering by a predicate that every element meets keeps the whole
/// sequence.
proof fn lemma_filter_keeps_all(ids: Seq<u64>, keep: spec_fn(u64) -> bool)
    requires
        forall|i: int| 0 <= i < ids.len() ==> keep(#[trigger] ids[i]),
    ensures
        ids.filter(keep) == ids,
    decreases ids.len(),
{
    reveal_with_fuel(Seq::<_>::filter, 1);
    if ids.len() > 0 {
        let rest = ids.drop_last();
        assert forall|i: int| 0 <= i < rest.len() implies keep(#[trigger] rest[i]) by {
            assert(rest[i] == ids[i]);
        }
        lemma_filter_keeps_all(rest, keep);
        assert(keep(ids[ids.len() - 1]));
        assert(rest.push(ids.last()) =~= ids);
    }
}

/// Which cached members a guild payload lists, over all configurations:
/// every one, in the cache's order, when members are cached; otherwise only
/// the current user's own member, and only when the current member is
/// cached; none when neither is.
pub proof fn lemma_members_sent(cache: Cache, ids: Seq<u64>, current_user: Option<u64>)
    ensures
        ({
            let sent = ids.filter(|id: u64| member_sent(cache, current_user, id));
            &&& cache.members ==> sent == ids
            &&& !cache.members && !cache.current_member ==> sent.len() == 0
            &&& !cache.members ==> forall|i: int|
                0 <= i < sent.len() ==> current_user == Some(#[trigger] sent[i])
            &&& cache.current_member ==> forall|i: int|
                0 <= i < ids.len() && current_user == Some(#[trigger] ids[i]) ==> sent.contains(
                    ids[i],
                )
        }),
{
    let keep = |id: u64| member_sent(cache, current_user, id);
    let sent = ids.filter(keep);
    broadcast use vstd::seq_lib::group_filter_ensures;
    if cache.members {
        lemma_filter_keeps_all(ids, keep);
    }
    if !cache.members {
        assert forall|i: int| 0 <= i < sent.len() implies current_user == Some(
            #[trigger] sent[i],
        ) by {
            assert(keep(sent[i]));
        }
        if !cache.current_member && sent.len() > 0 {
            assert(keep(sent[0]));
        }
    }
    if cache.current_member {
        assert forall|i: int| 0 <= i < ids.len() && current_user == Some(#[trigger] ids[i]) implies sent.contains(
            ids[i],
        ) by {
            assert(keep(ids[i]));
        }
    }
}

/// The cached members, given by their user IDs in the cache's order, that a
/// guild payload lists, in that order.
pub fn members_to_send(cache: Cache, member_ids: &Vec<u64>, current_user: Option<u64>) -> (r: Vec<
    u64,
>)
    ensures
        r@ == member_ids@.filter(|id: u64| member_sent(cache, current_user, id)),
        cache.members ==> r@ == member_ids@,
        !cache.members ==> forall|i: int| 0 <= i < r@.len() ==> current_user == Some(#[trigger] r@[i]),
        !cache.members && !cache.current_member ==> r@.len() == 0,
        cache.current_member ==> forall|i: int|
            0 <= i < member_ids@.len() && current_user == Some(#[trigger] member_ids@[i])
                ==> r@.contains(member_ids@[i]),
{
    proof {
        lemma_members_sent(cache, member_ids@, current_user);
    }
    let ghost keep = |id: u64| member_sent(cache, current_user, id);
    let mut kept: Vec<u64> = Vec::new();
    let n = member_ids.len();
    let mut i: usize = 0;
    while i < n
        invariant
            n == member_ids@.len(),
            i <= n,
            keep == (|id: u64| member_sent(cache, current_user, id)),
            kept@ == member_ids@.subrange(0, i as int).filter(keep),
        decreases n - i,
    {
        let ghost prefix = member_ids@.subrange(0, i as int);
        let ghost next = member_ids@.subrange(0, i + 1);
        assert(next.drop_last() =~= prefix);
        reveal_with_fuel(Seq::<_>::filter, 1);
        let id = member_ids[i];
        assert(next.last() == id);
        assert(next.len() > 0);
        let is_current = match current_user {
            Some(me) => me == id,
            None => false,
        };
        if cache.members || (cache.current_member && is_current) {
            kept.push(id);
            assert(keep(id));
            assert(next.filter(keep) == prefix.filter(keep).push(id));
        } else {
            assert(!keep(id));
            assert(next.filter(keep) == prefix.filter(keep));
        }
        i = i + 1;
    }
    assert(member_ids@.subrange(0, n as int) =~= member_ids@);
    kept
}

/// A gateway event, as far as the unavailable guilds are concerned.
pub enum GuildEvent {
    /// READY, with the IDs of the guilds that it lists.
    Ready { guilds: Vec<u64> },
    /// A guild became unavailable.
    Unavailable(u64),
    /// A guild arrived, available.
    Available(u64),
    /// Anything else.
    Other,
}

/// The unavailable guilds after `event`, from `before`.
pub open spec fn after_guild_event(before: Set<u64>, event: GuildEvent) -> Set<u64> {
    match event {
        GuildEvent::Ready { guilds } => before.union(guilds@.to_set()),
        GuildEvent::Unavailable(id) => before.insert(id),
        GuildEvent::Available(id) => before.remove(id),
        GuildEvent::Other => before,
    }
}

/// The guilds of a shard that Discord reported unavailable and that have
/// not come back since, each once.
pub struct UnavailableGuilds {
    ids: Vec<u64>,
}

impl View for UnavailableGuilds {
    type V = Set<u64>;

    closed spec fn view(&self) -> Set<u64> {
        self.ids@.to_set()
    }
}

impl UnavailableGuilds {
    #[verifier::type_invariant]
    spec fn inv(&self) -> bool {
        self.ids@.no_duplicates()
    }

    /// No guild is unavailable.
    pub fn new() -> (r: Self)
        ensures
            r@ == Set::<u64>::empty(),
    {
        let r = UnavailableGuilds { ids: Vec::new() };
        assert(r@ =~= Set::<u64>::empty());
        r
    }

    /// The position of `id` in the list, if it is there.
    fn position(&self, id: u64) -> (r: Option<usize>)
        ensures
            match r {
                Some(i) => i < self.ids@.len() && self.ids@[i as int] == id,
                None => !self.ids@.contains(id),
            },
    {
        let n = self.ids.len();
        let mut i: usize = 0;
        while i < n
            invariant
                n == self.ids@.len(),
                i <= n,
                forall|j: int| 0 <= j < i ==> self.ids@[j] != id,
            decreases n - i,
        {
            if self.ids[i] == id {
                return Some(i);
            }
            i = i + 1;
        }
        None
    }

    /// Discord reported guild `id` unavailable.
    pub fn mark_unavailable(&mut self, id: u64)
        ensures
            final(self)@ == old(self)@.insert(id),
    {
        proof {
            use_type_invariant(&*self);
        }
        if self.position(id).is_none() {
            let ghost before = self.ids@;
            let mut ids = Vec::new();
            std::mem::swap(&mut ids, &mut self.ids);
            ids.push(id);
            proof {
                assert forall|a: int, b: int| 0 <= a < b < ids@.len() implies ids@[a] != ids@[b] by {
                    if b == before.len() {
                        assert(before.contains(before[a]));
                    }
                }
            }
            self.ids = ids;
            proof {
                assert forall|x: u64| self.ids@.contains(x) <==> before.contains(x) || x == id by {
                    if self.ids@.contains(x) {
                        let k = choose|k: int| 0 <= k < self.ids@.len() && self.ids@[k] == x;
                        if k < before.len() {
                            assert(before[k] == x);
                        }
                    }
                    if before.contains(x) {
                        let k = choose|k: int| 0 <= k < before.len() && before[k] == x;
                        assert(self.ids@[k] == x);
                    }
                    if x == id {
                        assert(self.ids@[before.len() as int] == x);
                    }
                }
                assert(self.ids@.to_set() =~= before.to_set().insert(id));
            }
        } else {
            proof {
                assert(self.ids@.to_set() =~= self.ids@.to_set().insert(id));
            }
        }
    }

    /// Guild `id` is available again.
    pub fn mark_available(&mut self, id: u64)
        ensures
            final(self)@ == old(self)@.remove(id),
    {
        proof {
            use_type_invariant(&*self);
        }
        match self.position(id) {
            None => {
                proof {
                    assert(self.ids@.to_set() =~= self.ids@.to_set().remove(id));
                }
            },
            Some(i) => {
                let ghost before = self.ids@;
                let mut ids = Vec::new();
                std::mem::swap(&mut ids, &mut self.ids);
                ids.remove(i);
                proof {
                    let after = ids@;
                    assert(after =~= before.remove(i as int));
                    assert forall|a: int, b: int| 0 <= a < b < after.len() implies after[a]
                        != after[b] by {
                        let ka = if a < i { a } else { a + 1 };
                        let kb = if b < i { b } else { b + 1 };
                        assert(after[a] == before[ka] && after[b] == before[kb]);
                    }
                }
                self.ids = ids;
                proof {
                    let after = self.ids@;
                    assert(after =~= before.remove(i as int));
                    assert forall|x: u64| after.contains(x) <==> before.contains(x) && x != id by {
                        if after.contains(x) {
                            let k = choose|k: int| 0 <= k < after.len() && after[k] == x;
                            if k < i {
                                assert(before[k] == x);
                            } else {
                                assert(before[k + 1] == x);
                            }
                        }
                        if before.contains(x) && x != id {
                            let k = choose|k: int| 0 <= k < before.len() && before[k] == x;
                            if k < i {
                                assert(after[k] == x);
                            } else {
                                assert(k != i);
                                assert(after[k - 1] == x);
                            }
                        }
                    }
                    assert(after.to_set() =~= before.to_set().remove(id));
                }
            },
        }
    }

    /// Follows a gateway event: READY reports all its guilds unavailable
    /// until they arrive, an unavailable guild is added, and a guild that
    /// arrives is removed.
    pub fn apply(&mut self, event: &GuildEvent)
        ensures
            final(self)@ == after_guild_event(old(self)@, *event),
    {
        match event {
            GuildEvent::Ready { guilds } => {
                let ghost start = self@;
                let n = guilds.len();
                let mut i: usize = 0;
                while i < n
                    invariant
                        n == guilds@.len(),
                        i <= n,
                        self@ == start.union(guilds@.subrange(0, i as int).to_set()),
                    decreases n - i,
                {
                    let ghost before = self@;
                    self.mark_unavailable(guilds[i]);
                    proof {
                        let prev = guilds@.subrange(0, i as int);
                        let next = guilds@.subrange(0, i + 1);
                        assert forall|x: u64| next.to_set().contains(x) <==> prev.to_set().insert(
                            guilds@[i as int],
                        ).contains(x) by {
                            if next.contains(x) {
                                let k = choose|k: int| 0 <= k < next.len() && next[k] == x;
                                if k < i {
                                    assert(prev[k] == x);
                                }
                            }
                            if prev.contains(x) {
                                let k = choose|k: int| 0 <= k < prev.len() && prev[k] == x;
                                assert(next[k] == x);
                            }
                            if x == guilds@[i as int] {
                                assert(next[i as int] == x);
                            }
                        }
                        assert(next.to_set() =~= prev.to_set().insert(guilds@[i as int]));
                        assert(self@ =~= start.union(next.to_set()));
                    }
                    i = i + 1;
                }
                proof {
                    assert(guilds@.subrange(0, n as int) =~= guilds@);
                }
            },
            GuildEvent::Unavailable(id) => self.mark_unavailable(*id),
            GuildEvent::Available(id) => self.mark_available(*id),
            GuildEvent::Other => {},
        }
    }

    /// The unavailable guilds' IDs, each once, in the order they were
    /// reported.
    pub fn ids(&self) -> (r: Vec<u64>)
        ensures
            r@.no_duplicates(),
            r@.to_set() == self@,
    {
        proof {
            use_type_invariant(self);
        }
        self.ids.clone()
    }
}

} // verus!
