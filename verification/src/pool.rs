//! Peer connection pool.
//!
//! The pool's job is to:
//!
//! 1. Keep the channels to peers in sync with the set of consumer instances visible
//!    in the latest cluster map.
//! 2. Reject self-lookups with `ClientError::NoResolution`.
//! 3. Expose cheap `resolve(id)` for the forwarding path.
//!
//! A channel is whatever the caller dials with; the pool hands it out and never looks
//! inside.

use vstd::prelude::*;

use crate::cluster::{ClusterMap, ClusterView};
use crate::dialer::{dialed_by, dials_all, DialCall, Dialer};
use crate::error::{ClientError, ErrorView};
use crate::ids::{Endpoint, InstanceId};
use crate::seqs::{lemma_filter_holds, lemma_filter_no_duplicates, lemma_filter_take_next};
use crate::table::Table;
use crate::text::{has_prefix, starts_with};
use crate::uris::{endpoint_uri, parsed_endpoint};

verus! {

struct PoolEntry<C> {
    endpoint: Endpoint,
    channel: C,
}

/// What the pool holds for a peer.
#[verifier::ext_equal]
pub struct PeerView<C> {
    pub endpoint: Seq<char>,
    pub channel: C,
}

impl<C> View for PoolEntry<C> {
    type V = PeerView<C>;

    closed spec fn view(&self) -> PeerView<C> {
        PeerView { endpoint: self.endpoint@, channel: self.channel }
    }
}

/// The channels to the peers of an instance.
pub struct ConnectionPool<C> {
    self_id: InstanceId,
    entries: Table<InstanceId, PoolEntry<C>>,
}

/// What a [`ConnectionPool`] stands for.
#[verifier::ext_equal]
pub struct PoolView<C> {
    pub self_id: u128,
    pub entries: Map<u128, PeerView<C>>,
}

impl<C> View for ConnectionPool<C> {
    type V = PoolView<C>;

    closed spec fn view(&self) -> PoolView<C> {
        PoolView {
            self_id: self.self_id@,
            entries: self.entries@.map_values(|e: PoolEntry<C>| e@),
        }
    }
}

impl<C> PoolView<C> {
    /// What is held for a peer, if anything.
    pub open spec fn peer(self, id: u128) -> Option<PeerView<C>> {
        if self.entries.contains_key(id) {
            Some(self.entries[id])
        } else {
            None
        }
    }

    /// The channel to a peer. There is none to the instance itself.
    pub open spec fn resolved(self, id: u128) -> Result<C, ErrorView> {
        if id != self.self_id && self.entries.contains_key(id) {
            Ok(self.entries[id].channel)
        } else {
            Err(ErrorView::NoResolution)
        }
    }
}

/// Whether the consumer noted under `k` is a peer with the given id that advertises
/// an endpoint.
pub open spec fn is_peer(m: ClusterView, self_id: u128, k: u128, id: u128) -> bool {
    &&& m.consumers.contains_key(k)
    &&& m.consumers[k].consumer.id == id
    &&& id != self_id
    &&& m.consumers[k].consumer.endpoint.len() > 0
}

/// The id and the endpoint that the consumer noted under `k` advertises.
pub open spec fn advertised(m: ClusterView, k: u128) -> (u128, Seq<char>) {
    (m.consumers[k].consumer.id, m.consumers[k].consumer.endpoint)
}

/// Whether the consumer noted under `k` is a peer to which no channel is held.
pub open spec fn is_new<C>(m: ClusterView, pool: PoolView<C>, k: u128) -> bool {
    let (id, _) = advertised(m, k);
    is_peer(m, pool.self_id, k, id) && pool.peer(id) is None
}

/// Whether the consumer noted under `k` is a peer to which a channel is held, but to
/// another endpoint than it advertises.
pub open spec fn has_moved<C>(m: ClusterView, pool: PoolView<C>, k: u128) -> bool {
    let (id, endpoint) = advertised(m, k);
    &&& is_peer(m, pool.self_id, k, id)
    &&& pool.peer(id) matches Some(held) && held.endpoint != endpoint
}

/// Whether the consumer noted under `k` has to be dialed.
pub open spec fn needs_dial<C>(m: ClusterView, pool: PoolView<C>, k: u128) -> bool {
    is_new(m, pool, k) || has_moved(m, pool, k)
}

/// Whether a list names exactly what has to be dialed for a cluster: one item for each
/// consumer that needs it, and no other; all new peers come before all that moved.
pub open spec fn is_plan<C>(
    m: ClusterView,
    pool: PoolView<C>,
    todo: Seq<(u128, Seq<char>)>,
) -> bool {
    exists|keys: Seq<u128>| #[trigger]
        lists(m, keys) && todo == news_of(m, pool, keys) + moves_of(m, pool, keys)
}

/// Whether a sequence holds each key of the consumers once.
pub open spec fn lists(m: ClusterView, keys: Seq<u128>) -> bool {
    keys.no_duplicates() && keys.to_set() == m.consumers.dom()
}

/// The new peers, in the order of the keys.
pub open spec fn news_of<C>(m: ClusterView, pool: PoolView<C>, keys: Seq<u128>) -> Seq<
    (u128, Seq<char>),
> {
    keys.filter(|k: u128| is_new(m, pool, k)).map_values(|k: u128| advertised(m, k))
}

/// The peers that moved, in the order of the keys.
pub open spec fn moves_of<C>(m: ClusterView, pool: PoolView<C>, keys: Seq<u128>) -> Seq<
    (u128, Seq<char>),
> {
    keys.filter(|k: u128| has_moved(m, pool, k)).map_values(|k: u128| advertised(m, k))
}

/// What is held after items were dialed with these outcomes: a channel replaces what
/// was held for the id, and a failure changes nothing.
pub open spec fn connected<C>(
    entries: Map<u128, PeerView<C>>,
    todo: Seq<(u128, Seq<char>)>,
    calls: Seq<DialCall<C>>,
) -> Map<u128, PeerView<C>>
    decreases todo.len(),
{
    if todo.len() == 0 {
        entries
    } else {
        let before = connected(entries, todo.drop_last(), calls.drop_last());
        match calls.last().outcome {
            Ok(channel) => before.insert(
                todo.last().0,
                PeerView { endpoint: todo.last().1, channel },
            ),
            Err(_) => before,
        }
    }
}

/// The ids of the peers that advertise an endpoint.
pub open spec fn peer_ids(m: ClusterView, self_id: u128) -> Set<u128> {
    Set::new(|id: u128| exists|k: u128| #[trigger] is_peer(m, self_id, k, id))
}

/// The pool after items were dialed with these outcomes: only peers that advertise an
/// endpoint are held.
pub open spec fn settled<C>(
    before: PoolView<C>,
    m: ClusterView,
    todo: Seq<(u128, Seq<char>)>,
    calls: Seq<DialCall<C>>,
) -> PoolView<C> {
    PoolView {
        self_id: before.self_id,
        entries: connected(before.entries, todo, calls).restrict(peer_ids(m, before.self_id)),
    }
}

/// Whether calls are exactly those that a plan asks for, in its order: each item is
/// dialed once, and nothing else is.
pub open spec fn carries_out<C>(calls: Seq<DialCall<C>>, todo: Seq<(u128, Seq<char>)>) -> bool {
    &&& calls.len() == todo.len()
    &&& forall|i: int| 0 <= i < todo.len() ==> (#[trigger] calls[i]).endpoint == todo[i].1
}

/// Whether a pool was brought in sync with a cluster by these calls.
pub open spec fn synced<C>(
    before: PoolView<C>,
    m: ClusterView,
    calls: Seq<DialCall<C>>,
    after: PoolView<C>,
) -> bool {
    exists|todo: Seq<(u128, Seq<char>)>| #[trigger]
        is_plan(m, before, todo) && carries_out(calls, todo) && after == settled(
            before,
            m,
            todo,
            calls,
        )
}

/// The peers that are there, and those that have to be dialed, the new ones first.
pub struct Plan {
    pub seen: Table<InstanceId, ()>,
    pub to_dial: Vec<(InstanceId, Endpoint)>,
}

/// What a list of ids and endpoints stands for.
pub open spec fn addresses(list: Seq<(InstanceId, Endpoint)>) -> Seq<(u128, Seq<char>)> {
    list.map_values(|item: (InstanceId, Endpoint)| (item.0@, item.1@))
}

impl<C> ConnectionPool<C> {
    /// Compares the peers of a cluster with those that are held: which are there, and
    /// which have to be dialed.
    pub fn plan(&self, cluster: &ClusterMap) -> (plan: Plan)
        ensures
            plan.seen@.dom() == peer_ids(cluster@, self@.self_id),
            is_plan(cluster@, self@, addresses(plan.to_dial@)),
    {
        let ghost m = cluster@;
        let mut seen: Table<InstanceId, ()> = Table::new();
        let mut to_add: Vec<(InstanceId, Endpoint)> = Vec::new();
        let mut to_rebuild: Vec<(InstanceId, Endpoint)> = Vec::new();
        let n = cluster.consumers.len();
        let ghost keys = cluster.consumers.keys();
        let ghost new = |k: u128| is_new(m, self@, k);
        let ghost moved = |k: u128| has_moved(m, self@, k);
        let mut i: usize = 0;
        proof {
            reveal(Seq::filter);
            assert(keys.take(0) =~= Seq::empty());
            assert(addresses(to_add@) =~= news_of(m, self@, keys.take(0)));
            assert(addresses(to_rebuild@) =~= moves_of(m, self@, keys.take(0)));
        }
        while i < n
            invariant
                i <= n,
                n == keys.len(),
                keys == cluster.consumers.keys(),
                m == cluster@,
                new == (|k: u128| is_new(m, self@, k)),
                moved == (|k: u128| has_moved(m, self@, k)),
                forall|x: int| 0 <= x < keys.len() ==> m.consumers.contains_key(#[trigger] keys[x]),
                forall|id: u128| #[trigger]
                    seen@.dom().contains(id) ==> exists|k: u128| #[trigger]
                        is_peer(m, self@.self_id, k, id),
                forall|x: int, id: u128|
                    0 <= x < i && #[trigger] is_peer(m, self@.self_id, keys[x], id)
                        ==> seen@.dom().contains(id),
                addresses(to_add@) == news_of(m, self@, keys.take(i as int)),
                addresses(to_rebuild@) == moves_of(m, self@, keys.take(i as int)),
            decreases n - i,
        {
            let consumer = &cluster.consumers.value_at(i).consumer;
            let id: InstanceId = consumer.id;
            let ghost k = keys[i as int];
            let ghost adds = to_add@;
            let ghost rebuilds = to_rebuild@;
            assert(m.consumers[k].consumer == consumer@);
            if id.0 != self.self_id.0 && !consumer.endpoint.is_empty() {
                assert(is_peer(m, self@.self_id, k, id@));
                seen.insert(id, ());
                match self.entries.get(&id) {
                    Some(existing) => if existing.endpoint != consumer.endpoint {
                        to_rebuild.push((id, consumer.endpoint.clone()));
                        assert(addresses(to_rebuild@) =~= addresses(rebuilds).push(
                            advertised(m, k),
                        ));
                    },
                    None => {
                        to_add.push((id, consumer.endpoint.clone()));
                        assert(addresses(to_add@) =~= addresses(adds).push(advertised(m, k)));
                    },
                }
            }
            proof {
                lemma_filter_take_next(keys, new, i as int);
                lemma_filter_take_next(keys, moved, i as int);
                let f = |k: u128| advertised(m, k);
                let a = keys.take(i as int).filter(new);
                assert(a.push(k).map_values(f) =~= a.map_values(f).push(advertised(m, k)));
                let b = keys.take(i as int).filter(moved);
                assert(b.push(k).map_values(f) =~= b.map_values(f).push(advertised(m, k)));
            }
            i = i + 1;
        }
        proof {
            assert(keys.take(i as int) =~= keys);
            assert forall|id: u128| #[trigger]
                seen@.dom().contains(id) <==> peer_ids(m, self@.self_id).contains(id) by {
                if peer_ids(m, self@.self_id).contains(id) {
                    let k = choose|k: u128| #[trigger] is_peer(m, self@.self_id, k, id);
                    assert(cluster.consumers@.dom().contains(k));
                    let x = choose|x: int| 0 <= x < keys.len() && keys[x] == k;
                    assert(is_peer(m, self@.self_id, keys[x], id));
                }
            }
            assert(seen@.dom() =~= peer_ids(m, self@.self_id));
            assert forall|k: u128| #[trigger] keys.to_set().contains(k) <==> m.consumers.dom().contains(
                k,
            ) by {
                assert(cluster.consumers@.dom().contains(k) <==> keys.contains(k));
            }
            assert(keys.to_set() =~= m.consumers.dom());
            assert(lists(m, keys));
        }
        let ghost news = to_add@;
        let ghost moves = to_rebuild@;
        let mut to_dial = to_add;
        to_dial.append(&mut to_rebuild);
        assert(addresses(to_dial@) =~= addresses(news) + addresses(moves));
        Plan { seen, to_dial }
    }

    /// Drops every peer that is not among those given.
    fn retain(&mut self, seen: &Table<InstanceId, ()>)
        ensures
            final(self)@.self_id == old(self)@.self_id,
            final(self)@.entries == old(self)@.entries.restrict(seen@.dom()),
    {
        let ghost before = self@;
        let mut gone: Vec<InstanceId> = Vec::new();
        let n = self.entries.len();
        let ghost keys = self.entries.keys();
        let mut i: usize = 0;
        while i < n
            invariant
                i <= n,
                n == keys.len(),
                keys == self.entries.keys(),
                forall|j: int|
                    0 <= j < gone@.len() ==> !seen@.dom().contains((#[trigger] gone@[j])@),
                forall|x: int|
                    0 <= x < i && !seen@.dom().contains(#[trigger] keys[x]) ==> exists|j: int|
                        0 <= j < gone@.len() && (#[trigger] gone@[j])@ == keys[x],
            decreases n - i,
        {
            let ghost list = gone@;
            let id: InstanceId = *self.entries.key_at(i);
            if !seen.contains(&id) {
                gone.push(id);
                assert(gone@[list.len() as int]@ == keys[i as int]);
            }
            proof {
                assert forall|x: int|
                    0 <= x < i + 1 && !seen@.dom().contains(#[trigger] keys[x]) implies exists|
                    j: int,
                | 0 <= j < gone@.len() && (#[trigger] gone@[j])@ == keys[x] by {
                    if x < i {
                        let j = choose|j: int|
                            0 <= j < list.len() && (#[trigger] list[j])@ == keys[x];
                        assert(gone@[j] == list[j]);
                    }
                }
            }
            i = i + 1;
        }
        proof {
            assert forall|id: u128| #[trigger]
                before.entries.contains_key(id) && !seen@.dom().contains(id) implies exists|j: int|
                0 <= j < gone@.len() && (#[trigger] gone@[j])@ == id by {
                assert(self.entries@.dom().contains(id));
                let x = choose|x: int| 0 <= x < keys.len() && keys[x] == id;
                assert(!seen@.dom().contains(keys[x]));
            }
        }
        let mut d: usize = 0;
        while d < gone.len()
            invariant
                d <= gone@.len(),
                self@.self_id == before.self_id,
                forall|j: int|
                    0 <= j < gone@.len() ==> !seen@.dom().contains((#[trigger] gone@[j])@),
                forall|id: u128| #[trigger]
                    self@.entries.contains_key(id) ==> before.entries.contains_key(id)
                        && self@.entries[id] == before.entries[id],
                forall|id: u128| #[trigger]
                    before.entries.contains_key(id) && seen@.dom().contains(id)
                        ==> self@.entries.contains_key(id),
                forall|j: int|
                    0 <= j < d ==> !self@.entries.contains_key((#[trigger] gone@[j])@),
            decreases gone@.len() - d,
        {
            let ghost last = self@.entries;
            self.entries.remove(&gone[d]);
            assert(self@.entries =~= last.remove(gone@[d as int]@));
            d = d + 1;
        }
        proof {
            let goal = before.entries.restrict(seen@.dom());
            assert forall|id: u128| #[trigger]
                self@.entries.contains_key(id) <==> goal.contains_key(id) by {
                if before.entries.contains_key(id) && !seen@.dom().contains(id) {
                    let j = choose|j: int| 0 <= j < gone@.len() && (#[trigger] gone@[j])@ == id;
                    assert(!self@.entries.contains_key(gone@[j]@));
                }
            }
            assert(self@.entries =~= goal);
        }
    }
}

impl<C> ConnectionPool<C> {
    /// A pool without peers.
    pub fn new(self_id: InstanceId) -> (p: Self)
        ensures
            p@ == (PoolView { self_id: self_id@, entries: Map::<u128, PeerView<C>>::empty() }),
    {
        let p = ConnectionPool { self_id, entries: Table::new() };
        assert(p@.entries =~= Map::<u128, PeerView<C>>::empty());
        p
    }

    /// The id of the instance that the pool belongs to.
    pub fn self_id(&self) -> (r: &InstanceId)
        ensures
            r@ == self@.self_id,
    {
        &self.self_id
    }

    /// Resolve a peer by instance id.
    pub fn resolve(&self, id: &InstanceId) -> (r: Result<&C, ClientError>)
        ensures
            match r {
                Ok(c) => self@.resolved(id@) == Ok::<C, ErrorView>(*c),
                Err(e) => self@.resolved(id@) == Err::<C, ErrorView>(e@),
            },
    {
        if id.0 == self.self_id.0 {
            return Err(ClientError::NoResolution);
        }
        match self.entries.get(id) {
            Some(e) => Ok(&e.channel),
            None => Err(ClientError::NoResolution),
        }
    }

    /// Apply the current cluster membership: dial new peers, drop departed ones,
    /// rebuild channels whose advertised endpoint has changed. A peer that cannot be
    /// dialed is left as it was; one that advertises no endpoint is skipped.
    pub fn apply_cluster<F: Fn(&Endpoint) -> Result<C, ClientError>>(
        &mut self,
        cluster: &ClusterMap,
        dialer: &mut Dialer<'_, C, F>,
    )
        requires
            dials_all(old(dialer).dial()),
        ensures
            final(dialer).dial() == old(dialer).dial(),
            old(dialer)@.is_prefix_of(final(dialer)@),
            forall|i: int|
                old(dialer)@.len() <= i < final(dialer)@.len() ==> dialed_by(
                    old(dialer).dial(),
                    #[trigger] final(dialer)@[i],
                ),
            synced(
                old(self)@,
                cluster@,
                final(dialer)@.skip(old(dialer)@.len() as int),
                final(self)@,
            ),
    {
        let ghost before = self@;
        let ghost dialed = dialer@;
        let plan = self.plan(cluster);
        let ghost todo = addresses(plan.to_dial@);
        let ghost mut calls: Seq<DialCall<C>> = Seq::empty();
        let mut i: usize = 0;
        proof {
            assert(todo.take(0) =~= Seq::empty());
            assert(dialed + calls =~= dialed);
        }
        while i < plan.to_dial.len()
            invariant
                i <= todo.len(),
                todo == addresses(plan.to_dial@),
                dialed == old(dialer)@,
                dials_all(dialer.dial()),
                dialer.dial() == old(dialer).dial(),
                dialer@ == dialed + calls,
                calls.len() == i,
                forall|j: int| 0 <= j < i ==> (#[trigger] calls[j]).endpoint == todo[j].1,
                forall|j: int| 0 <= j < i ==> dialed_by(old(dialer).dial(), #[trigger] calls[j]),
                self@.self_id == before.self_id,
                self@.entries == connected(before.entries, todo.take(i as int), calls),
            decreases todo.len() - i,
        {
            let ghost last = self@;
            let ghost so_far = calls;
            let id: InstanceId = plan.to_dial[i].0;
            let endpoint = plan.to_dial[i].1.clone();
            let outcome = dialer.call(&endpoint);
            proof {
                calls = calls.push(DialCall { endpoint: endpoint@, outcome });
                assert(dialed + calls =~= (dialed + so_far).push(calls.last()));
                assert(todo.take(i + 1).drop_last() =~= todo.take(i as int));
                assert(calls.drop_last() =~= so_far);
                assert(todo[i as int] == (id@, endpoint@));
            }
            match outcome {
                Ok(channel) => {
                    self.entries.insert(id, PoolEntry { endpoint, channel });
                    assert(self@.entries =~= last.entries.insert(
                        id@,
                        PeerView { endpoint: endpoint@, channel },
                    ));
                },
                Err(_) => {},
            }
            i = i + 1;
        }
        self.retain(&plan.seen);
        proof {
            assert(todo.take(i as int) =~= todo);
            assert((dialed + calls).skip(dialed.len() as int) =~= calls);
            assert(carries_out(calls, todo));
            assert(self@ == settled(before, cluster@, todo, calls));
            assert forall|j: int| dialed.len() <= j < dialer@.len() implies dialed_by(
                old(dialer).dial(),
                #[trigger] dialer@[j],
            ) by {
                assert(dialer@[j] == calls[j - dialed.len()]);
            }
        }
    }

    /// How many peers are held.
    pub fn len(&self) -> (n: usize)
        ensures
            n == self@.entries.len(),
            self@.entries.dom().finite(),
    {
        let n = self.entries.len();
        assert(self@.entries.dom() =~= self.entries@.dom());
        n
    }

    /// Whether no peer is held.
    pub fn is_empty(&self) -> (r: bool)
        ensures
            r == (self@.entries == Map::<u128, PeerView<C>>::empty()),
    {
        let n = self.len();
        proof {
            if n == 0 {
                assert(self@.entries =~= Map::<u128, PeerView<C>>::empty());
            }
        }
        n == 0
    }
}

// ---------- Dialing ----------

/// A peer's address as a URL: one without a scheme is taken to be insecure HTTP.
pub open spec fn normalized(s: Seq<char>) -> Seq<char> {
    if has_prefix(s, "http://"@) || has_prefix(s, "https://"@) {
        s
    } else {
        "http://"@ + s
    }
}

/// The URL of a peer's address (host:port or full URL).
pub fn normalize_endpoint(s: &str) -> (r: String)
    ensures
        r@ == normalized(s@),
{
    if starts_with(s, "http://") || starts_with(s, "https://") {
        s.to_owned()
    } else {
        "http://".to_owned().concat(s)
    }
}

/// What reading a peer's address comes to.
pub fn dial_result(parsed: Result<String, String>) -> (r: Result<String, ClientError>)
    ensures
        match parsed {
            Ok(uri) => r == Ok::<String, ClientError>(uri),
            Err(reason) => r == Err::<String, ClientError>(ClientError::TransportSetup(reason)),
        },
{
    match parsed {
        Ok(uri) => Ok(uri),
        Err(reason) => Err(ClientError::TransportSetup(reason)),
    }
}

/// The URI to dial for a peer's address. The connection itself is insecure HTTP/2
/// unless the caller dials otherwise.
pub fn default_dial(endpoint: &Endpoint) -> (r: Result<String, ClientError>)
    ensures
        match parsed_endpoint(normalized(endpoint@)) {
            Some(uri) => r matches Ok(s) && s@ == uri,
            None => r matches Err(e) && e@ == ErrorView::TransportSetup("invalid URI"@),
        },
{
    dial_result(endpoint_uri(normalize_endpoint(endpoint.as_str())))
}

// ---------- Laws ----------

/// An instance has no channel to itself.
pub proof fn law_pool_never_resolves_itself<C>(p: PoolView<C>)
    ensures
        p.resolved(p.self_id) == Err::<C, ErrorView>(ErrorView::NoResolution),
{
}

/// Whether the consumers of a cluster are noted under their own ids.
pub open spec fn keyed(m: ClusterView) -> bool {
    forall|k: u128| #[trigger] m.consumers.contains_key(k) ==> m.consumers[k].consumer.id == k
}

/// Whether no call failed.
pub open spec fn all_connect<C>(calls: Seq<DialCall<C>>) -> bool {
    forall|i: int| 0 <= i < calls.len() ==> (#[trigger] calls[i]).outcome is Ok
}

/// What a plan holds.
proof fn lemma_plan_holds<C>(
    m: ClusterView,
    pool: PoolView<C>,
    todo: Seq<(u128, Seq<char>)>,
    item: (u128, Seq<char>),
)
    requires
        is_plan(m, pool, todo),
    ensures
        todo.contains(item) <==> exists|k: u128| #[trigger]
            needs_dial(m, pool, k) && advertised(m, k) == item,
{
    let keys = choose|keys: Seq<u128>| #[trigger]
        lists(m, keys) && todo == news_of(m, pool, keys) + moves_of(m, pool, keys);
    let new = |k: u128| is_new(m, pool, k);
    let moved = |k: u128| has_moved(m, pool, k);
    let kept = keys.filter(new) + keys.filter(moved);
    assert(todo =~= kept.map_values(|k: u128| advertised(m, k)));
    if todo.contains(item) {
        let i = choose|i: int| 0 <= i < todo.len() && todo[i] == item;
        lemma_dialed_keys(m, pool, keys, kept[i]);
        assert(kept.contains(kept[i]));
        assert(needs_dial(m, pool, kept[i]));
    }
    if exists|k: u128| #[trigger] needs_dial(m, pool, k) && advertised(m, k) == item {
        let k = choose|k: u128| #[trigger] needs_dial(m, pool, k) && advertised(m, k) == item;
        assert(keys.to_set().contains(k));
        lemma_dialed_keys(m, pool, keys, k);
        let i = choose|i: int| 0 <= i < kept.len() && kept[i] == k;
        assert(todo[i] == item);
    }
}

/// Which keys a plan is made of.
proof fn lemma_dialed_keys<C>(m: ClusterView, pool: PoolView<C>, keys: Seq<u128>, k: u128)
    requires
        lists(m, keys),
    ensures
        ({
            let kept = keys.filter(|k: u128| is_new(m, pool, k)) + keys.filter(
                |k: u128| has_moved(m, pool, k),
            );
            &&& kept.contains(k) <==> needs_dial(m, pool, k)
            &&& kept.no_duplicates()
        }),
{
    let new = |k: u128| is_new(m, pool, k);
    let moved = |k: u128| has_moved(m, pool, k);
    let a = keys.filter(new);
    let b = keys.filter(moved);
    lemma_filter_holds(keys, new, k);
    lemma_filter_holds(keys, moved, k);
    assert(keys.to_set().contains(k) <==> m.consumers.contains_key(k));
    if (a + b).contains(k) {
        let i = choose|i: int| 0 <= i < (a + b).len() && (a + b)[i] == k;
        if i < a.len() {
            assert(a[i] == k);
        } else {
            assert(b[i - a.len()] == k);
        }
    }
    if a.contains(k) {
        let i = choose|i: int| 0 <= i < a.len() && a[i] == k;
        assert((a + b)[i] == k);
    }
    if b.contains(k) {
        let i = choose|i: int| 0 <= i < b.len() && b[i] == k;
        assert((a + b)[a.len() + i] == k);
    }
    lemma_filter_no_duplicates(keys, new);
    lemma_filter_no_duplicates(keys, moved);
    assert forall|i: int, j: int|
        0 <= i < (a + b).len() && 0 <= j < (a + b).len() && i != j implies (a + b)[i] != (a
        + b)[j] by {
        if i < a.len() && j >= a.len() {
            lemma_filter_holds(keys, new, a[i]);
            lemma_filter_holds(keys, moved, b[j - a.len()]);
            assert(a.contains(a[i]) && b.contains(b[j - a.len()]));
        }
        if j < a.len() && i >= a.len() {
            lemma_filter_holds(keys, new, a[j]);
            lemma_filter_holds(keys, moved, b[i - a.len()]);
            assert(a.contains(a[j]) && b.contains(b[i - a.len()]));
        }
    }
}

/// What is held for an id that was not dialed stays.
proof fn lemma_connected_elsewhere<C>(
    entries: Map<u128, PeerView<C>>,
    todo: Seq<(u128, Seq<char>)>,
    calls: Seq<DialCall<C>>,
    id: u128,
)
    requires
        calls.len() == todo.len(),
        forall|i: int| 0 <= i < todo.len() ==> (#[trigger] todo[i]).0 != id,
    ensures
        connected(entries, todo, calls).contains_key(id) == entries.contains_key(id),
        entries.contains_key(id) ==> connected(entries, todo, calls)[id] == entries[id],
    decreases todo.len(),
{
    if todo.len() > 0 {
        assert forall|i: int| 0 <= i < todo.drop_last().len() implies (
        #[trigger] todo.drop_last()[i]).0 != id by {
            assert(todo.drop_last()[i] == todo[i]);
        }
        lemma_connected_elsewhere(entries, todo.drop_last(), calls.drop_last(), id);
        assert(todo[todo.len() - 1].0 != id);
    }
}

/// Where no call failed, what is held for an id that was dialed is a channel to one of
/// the endpoints dialed for it.
proof fn lemma_connected_here<C>(
    entries: Map<u128, PeerView<C>>,
    todo: Seq<(u128, Seq<char>)>,
    calls: Seq<DialCall<C>>,
    i: int,
)
    requires
        calls.len() == todo.len(),
        all_connect(calls),
        0 <= i < todo.len(),
    ensures
        connected(entries, todo, calls).contains_key(todo[i].0),
        todo.contains((todo[i].0, connected(entries, todo, calls)[todo[i].0].endpoint)),
    decreases todo.len(),
{
    let last = todo.len() - 1;
    let id = todo[i].0;
    assert(calls[last].outcome is Ok);
    if todo[last].0 == id {
        assert(todo[last] == (id, connected(entries, todo, calls)[id].endpoint));
    } else {
        let front = todo.drop_last();
        assert(front[i] == todo[i]);
        assert forall|j: int| 0 <= j < calls.drop_last().len() implies (
        #[trigger] calls.drop_last()[j]).outcome is Ok by {
            assert(calls.drop_last()[j] == calls[j]);
        }
        lemma_connected_here(entries, front, calls.drop_last(), i);
        let item = (id, connected(entries, front, calls.drop_last())[id].endpoint);
        let j = choose|j: int| 0 <= j < front.len() && front[j] == item;
        assert(todo[j] == item);
    }
}

/// After a pool is brought in sync, an id resolves only where a peer of that id
/// advertises an endpoint; whoever departed is dropped.
pub proof fn law_only_advertised_peers_resolve<C>(
    before: PoolView<C>,
    m: ClusterView,
    calls: Seq<DialCall<C>>,
    after: PoolView<C>,
    id: u128,
)
    requires
        synced(before, m, calls, after),
        forall|k: u128| !#[trigger] is_peer(m, before.self_id, k, id),
    ensures
        after.resolved(id) == Err::<C, ErrorView>(ErrorView::NoResolution),
{
}

/// A peer whose endpoint has not changed keeps its channel.
pub proof fn law_unchanged_endpoint_keeps_its_channel<C>(
    before: PoolView<C>,
    m: ClusterView,
    calls: Seq<DialCall<C>>,
    after: PoolView<C>,
    k: u128,
    id: u128,
)
    requires
        synced(before, m, calls, after),
        is_peer(m, before.self_id, k, id),
        before.entries.contains_key(id),
        forall|other: u128| #[trigger]
            is_peer(m, before.self_id, other, id) ==> m.consumers[other].consumer.endpoint
                == before.entries[id].endpoint,
    ensures
        after.peer(id) == before.peer(id),
{
    let todo = choose|todo: Seq<(u128, Seq<char>)>| #[trigger]
        is_plan(m, before, todo) && carries_out(calls, todo) && after == settled(
            before,
            m,
            todo,
            calls,
        );
    assert forall|i: int| 0 <= i < todo.len() implies (#[trigger] todo[i]).0 != id by {
        lemma_plan_holds(m, before, todo, todo[i]);
        assert(todo.contains(todo[i]));
    }
    lemma_connected_elsewhere(before.entries, todo, calls, id);
    assert(peer_ids(m, before.self_id).contains(id));
}

/// Where no dial fails, every peer that advertises an endpoint resolves.
pub proof fn law_dialable_peers_resolve<C>(
    before: PoolView<C>,
    m: ClusterView,
    calls: Seq<DialCall<C>>,
    after: PoolView<C>,
    k: u128,
    id: u128,
)
    requires
        synced(before, m, calls, after),
        is_peer(m, before.self_id, k, id),
        all_connect(calls),
    ensures
        after.resolved(id) is Ok,
{
    let todo = choose|todo: Seq<(u128, Seq<char>)>| #[trigger]
        is_plan(m, before, todo) && carries_out(calls, todo) && after == settled(
            before,
            m,
            todo,
            calls,
        );
    assert(peer_ids(m, before.self_id).contains(id));
    if exists|i: int| 0 <= i < todo.len() && (#[trigger] todo[i]).0 == id {
        let i = choose|i: int| 0 <= i < todo.len() && (#[trigger] todo[i]).0 == id;
        lemma_connected_here(before.entries, todo, calls, i);
    } else {
        let item = advertised(m, k);
        lemma_plan_holds(m, before, todo, item);
        if needs_dial(m, before, k) {
            let j = choose|j: int| 0 <= j < todo.len() && todo[j] == item;
            assert(todo[j].0 == id);
        }
        lemma_connected_elsewhere(before.entries, todo, calls, id);
    }
}

/// Where consumers are noted under their own ids and no dial fails, the pool holds
/// exactly the other consumers that advertise an endpoint, each with a channel to that
/// endpoint.
pub proof fn law_pool_holds_exactly_the_advertised_peers<C>(
    before: PoolView<C>,
    m: ClusterView,
    calls: Seq<DialCall<C>>,
    after: PoolView<C>,
    id: u128,
)
    requires
        synced(before, m, calls, after),
        keyed(m),
        all_connect(calls),
    ensures
        after.entries.contains_key(id) <==> is_peer(m, before.self_id, id, id),
        after.entries.contains_key(id) ==> after.entries[id].endpoint
            == m.consumers[id].consumer.endpoint,
        is_peer(m, before.self_id, id, id) ==> after.resolved(id) is Ok,
{
    let todo = choose|todo: Seq<(u128, Seq<char>)>| #[trigger]
        is_plan(m, before, todo) && carries_out(calls, todo) && after == settled(
            before,
            m,
            todo,
            calls,
        );
    let ids = peer_ids(m, before.self_id);
    assert(ids.contains(id) <==> is_peer(m, before.self_id, id, id)) by {
        if ids.contains(id) {
            let k = choose|k: u128| #[trigger] is_peer(m, before.self_id, k, id);
            assert(k == id);
        }
    }
    if is_peer(m, before.self_id, id, id) {
        let item = advertised(m, id);
        lemma_plan_holds(m, before, todo, item);
        if needs_dial(m, before, id) {
            let i = choose|i: int| 0 <= i < todo.len() && todo[i] == item;
            lemma_connected_here(before.entries, todo, calls, i);
            let held = connected(before.entries, todo, calls)[id].endpoint;
            lemma_plan_holds(m, before, todo, (id, held));
        } else {
            assert forall|i: int| 0 <= i < todo.len() implies (#[trigger] todo[i]).0 != id by {
                lemma_plan_holds(m, before, todo, todo[i]);
                assert(todo.contains(todo[i]));
            }
            lemma_connected_elsewhere(before.entries, todo, calls, id);
        }
    }
}

/// Where consumers are noted under their own ids, each other consumer that advertises
/// an endpoint and is held under no channel, or under one to another endpoint, is
/// dialed once, at that endpoint; new ones are dialed before any that moved, and nothing
/// else is dialed.
pub proof fn law_each_new_or_changed_peer_is_dialed_once<C>(
    before: PoolView<C>,
    m: ClusterView,
    calls: Seq<DialCall<C>>,
    after: PoolView<C>,
)
    requires
        synced(before, m, calls, after),
        keyed(m),
    ensures
        exists|ids: Seq<u128>|
            {
                &&& ids.no_duplicates()
                &&& forall|id: u128| #[trigger] ids.contains(id) <==> needs_dial(m, before, id)
                &&& forall|i: int, j: int|
                    0 <= i < j < ids.len() && has_moved(m, before, #[trigger] ids[i])
                        ==> has_moved(m, before, #[trigger] ids[j])
                &&& #[trigger] calls_at(m, calls, ids)
            },
{
    let todo = choose|todo: Seq<(u128, Seq<char>)>| #[trigger]
        is_plan(m, before, todo) && carries_out(calls, todo) && after == settled(
            before,
            m,
            todo,
            calls,
        );
    let keys = choose|keys: Seq<u128>| #[trigger]
        lists(m, keys) && todo == news_of(m, before, keys) + moves_of(m, before, keys);
    let new = |k: u128| is_new(m, before, k);
    let moved = |k: u128| has_moved(m, before, k);
    let ids = keys.filter(new) + keys.filter(moved);
    lemma_dialed_keys(m, before, keys, 0);
    assert forall|id: u128| #[trigger] ids.contains(id) <==> needs_dial(m, before, id) by {
        lemma_dialed_keys(m, before, keys, id);
    }
    assert forall|i: int| 0 <= i < calls.len() implies (#[trigger] calls[i]).endpoint
        == m.consumers[ids[i]].consumer.endpoint by {
        assert(todo[i] == advertised(m, ids[i]));
    }
    assert forall|i: int, j: int|
        0 <= i < j < ids.len() && has_moved(m, before, #[trigger] ids[i]) implies has_moved(
        m,
        before,
        #[trigger] ids[j],
    ) by {
        let a = keys.filter(new);
        let b = keys.filter(moved);
        if i < a.len() {
            lemma_filter_holds(keys, new, a[i]);
            assert(a.contains(a[i]));
        } else {
            lemma_filter_holds(keys, moved, b[j - a.len()]);
            assert(b.contains(b[j - a.len()]));
        }
    }
    assert(calls_at(m, calls, ids));
}

/// Whether calls were made at the endpoints that consumers advertise, one for each.
pub open spec fn calls_at<C>(m: ClusterView, calls: Seq<DialCall<C>>, ids: Seq<u128>) -> bool {
    &&& calls.len() == ids.len()
    &&& forall|i: int|
        0 <= i < calls.len() ==> (#[trigger] calls[i]).endpoint
            == m.consumers[ids[i]].consumer.endpoint
}

/// Where consumers are noted under their own ids and no dial failed, applying the same
/// cluster again dials nothing and changes nothing.
pub proof fn law_applying_again_changes_nothing<C>(
    before: PoolView<C>,
    m: ClusterView,
    calls: Seq<DialCall<C>>,
    after: PoolView<C>,
    more_calls: Seq<DialCall<C>>,
    again: PoolView<C>,
)
    requires
        synced(before, m, calls, after),
        keyed(m),
        all_connect(calls),
        synced(after, m, more_calls, again),
    ensures
        more_calls.len() == 0,
        again == after,
{
    let todo = choose|todo: Seq<(u128, Seq<char>)>| #[trigger]
        is_plan(m, after, todo) && carries_out(more_calls, todo) && again == settled(
            after,
            m,
            todo,
            more_calls,
        );
    if todo.len() > 0 {
        lemma_plan_holds(m, after, todo, todo[0]);
        assert(todo.contains(todo[0]));
        let k = choose|k: u128| #[trigger] needs_dial(m, after, k) && advertised(m, k) == todo[0];
        law_pool_holds_exactly_the_advertised_peers(before, m, calls, after, k);
    }
    assert forall|id: u128| #[trigger] again.entries.contains_key(id) <==> after.entries.contains_key(
        id,
    ) by {
        if after.entries.contains_key(id) {
            law_pool_holds_exactly_the_advertised_peers(before, m, calls, after, id);
            assert(is_peer(m, after.self_id, id, id));
            assert(peer_ids(m, after.self_id).contains(id));
        }
    }
    assert(again.entries =~= after.entries);
}

// ---------- What is held and dialed, consumer by consumer ----------

/// An address with a scheme is dialed as it is; any other is taken to be insecure HTTP.
pub proof fn law_addresses_have_a_scheme(s: &str, r: String, again: String, url: &str)
    requires
        call_ensures(normalize_endpoint, (s,), r),
        url@ == r@,
        call_ensures(normalize_endpoint, (url,), again),
    ensures
        (exists|rest: Seq<char>| s@ == #[trigger] ("http://"@ + rest)) || (exists|rest: Seq<char>|
            s@ == #[trigger] ("https://"@ + rest)) ==> r@ == s@,
        (forall|rest: Seq<char>| s@ != #[trigger] ("http://"@ + rest)) && (forall|rest: Seq<char>|
            s@ != #[trigger] ("https://"@ + rest)) ==> r@ == "http://"@ + s@,
        again@ == r@,
{
    lemma_prefix_is_start(s@, "http://"@);
    lemma_prefix_is_start(s@, "https://"@);
    lemma_prefix_is_start(r@, "http://"@);
    lemma_prefix_is_start(r@, "https://"@);
}

proof fn lemma_prefix_is_start(s: Seq<char>, prefix: Seq<char>)
    ensures
        has_prefix(s, prefix) <==> exists|rest: Seq<char>| s == #[trigger] (prefix + rest),
{
    if has_prefix(s, prefix) {
        assert(s =~= prefix + s.skip(prefix.len() as int));
    }
    if exists|rest: Seq<char>| s == #[trigger] (prefix + rest) {
        let rest = choose|rest: Seq<char>| s == #[trigger] (prefix + rest);
        assert((prefix + rest).take(prefix.len() as int) =~= prefix);
    }
}

/// What reading an address gives is passed on: its URI, or the reason why it has none.
pub proof fn law_dialing_passes_on_what_was_read(
    parsed: Result<String, String>,
    r: Result<String, ClientError>,
)
    requires
        call_ensures(dial_result, (parsed,), r),
    ensures
        parsed matches Ok(uri) ==> (r matches Ok(u) && u@ == uri@),
        parsed matches Err(why) ==> (r matches Err(ClientError::TransportSetup(w)) && w@ == why@),
{
}

/// An address is dialed by its URL: an address and its URL are read alike.
pub proof fn law_address_is_dialed_by_its_url(
    e: &Endpoint,
    text: &str,
    url: String,
    r: Result<String, ClientError>,
)
    requires
        call_ensures(default_dial, (e,), r),
        text@ == e.0@,
        call_ensures(normalize_endpoint, (text,), url),
    ensures
        r is Ok <==> parsed_endpoint(url@) is Some,
        r matches Ok(uri) ==> parsed_endpoint(url@) == Some(uri@),
        r is Err ==> r->Err_0 is TransportSetup,
{
}

/// A peer resolves exactly where a channel to it is held and it is not the instance
/// itself, and to that channel.
pub proof fn law_peer_resolves_to_its_channel<C>(
    pool: &ConnectionPool<C>,
    id: &InstanceId,
    r: Result<&C, ClientError>,
)
    requires
        call_ensures(ConnectionPool::<C>::resolve, (pool, id), r),
    ensures
        id.0 != pool@.self_id && pool@.entries.contains_key(id.0) ==> (r matches Ok(c) && *c
            == pool@.entries[id.0].channel),
        id.0 == pool@.self_id || !pool@.entries.contains_key(id.0) ==> (r matches Err(
            ClientError::NoResolution,
        )),
{
}

/// A plan names a consumer exactly where it is another instance that advertises an
/// endpoint to which no channel is held, and names it with that id and that endpoint; and
/// it has seen every other instance that advertises an endpoint.
pub proof fn law_plan_names_who_has_to_be_dialed<C>(
    pool: &ConnectionPool<C>,
    cluster: &ClusterMap,
    plan: Plan,
    k: u128,
)
    requires
        call_ensures(ConnectionPool::<C>::plan, (pool, cluster), plan),
        cluster@.consumers.contains_key(k),
    ensures
        ({
            let i = cluster@.consumers[k].consumer;
            let other = i.id != pool@.self_id && i.endpoint.len() > 0;
            let held = pool@.entries.contains_key(i.id) && pool@.entries[i.id].endpoint
                == i.endpoint;
            &&& other && !held ==> addresses(plan.to_dial@).contains((i.id, i.endpoint))
            &&& other ==> plan.seen@.dom().contains(i.id)
        }),
{
    let item = advertised(cluster@, k);
    lemma_plan_holds(cluster@, pool@, addresses(plan.to_dial@), item);
    if is_peer(cluster@, pool@.self_id, k, item.0) {
        assert(peer_ids(cluster@, pool@.self_id).contains(item.0));
        if !(pool@.entries.contains_key(item.0) && pool@.entries[item.0].endpoint == item.1) {
            assert(needs_dial(cluster@, pool@, k));
        }
    }
}

/// Whatever a plan names is what some other instance advertises and no channel is held
/// to, and whomever it has seen is such an instance.
pub proof fn law_plan_names_nobody_else<C>(
    pool: &ConnectionPool<C>,
    cluster: &ClusterMap,
    plan: Plan,
    id: u128,
    endpoint: Seq<char>,
)
    requires
        call_ensures(ConnectionPool::<C>::plan, (pool, cluster), plan),
    ensures
        addresses(plan.to_dial@).contains((id, endpoint)) ==> {
            &&& id != pool@.self_id
            &&& endpoint.len() > 0
            &&& !(pool@.entries.contains_key(id) && pool@.entries[id].endpoint == endpoint)
            &&& exists|k: u128| #[trigger]
                cluster@.consumers.contains_key(k) && cluster@.consumers[k].consumer.id == id
                    && cluster@.consumers[k].consumer.endpoint == endpoint
        },
        plan.seen@.dom().contains(id) ==> id != pool@.self_id && exists|k: u128| #[trigger]
            cluster@.consumers.contains_key(k) && cluster@.consumers[k].consumer.id == id
                && cluster@.consumers[k].consumer.endpoint.len() > 0,
{
    lemma_plan_holds(cluster@, pool@, addresses(plan.to_dial@), (id, endpoint));
    if addresses(plan.to_dial@).contains((id, endpoint)) {
        let k = choose|k: u128| #[trigger]
            needs_dial(cluster@, pool@, k) && advertised(cluster@, k) == (id, endpoint);
        assert(cluster@.consumers.contains_key(k));
    }
    if plan.seen@.dom().contains(id) {
        assert(peer_ids(cluster@, pool@.self_id).contains(id));
        let k = choose|k: u128| #[trigger] is_peer(cluster@, pool@.self_id, k, id);
        assert(cluster@.consumers.contains_key(k));
    }
}

/// What applying a cluster makes of one consumer that is noted under its own id: one that
/// advertises nothing, or the instance itself, is not held; one that is held under its
/// endpoint stays as it is; any other is held under what was dialed for it, and where
/// that failed, as it was.
pub proof fn law_each_consumer_is_held_as_it_should<C, F: Fn(&Endpoint) -> Result<C, ClientError>>(
    pool: &mut ConnectionPool<C>,
    cluster: &ClusterMap,
    dialer: &mut Dialer<'_, C, F>,
    id: u128,
)
    requires
        call_ensures(ConnectionPool::<C>::apply_cluster::<F>, (pool, cluster, dialer), ()),
        keyed(cluster@),
    ensures
        ({
            let before = old(pool)@.entries;
            let after = final(pool)@.entries;
            let known = cluster@.consumers.contains_key(id);
            let endpoint = cluster@.consumers[id].consumer.endpoint;
            let peer = known && id != old(pool)@.self_id && endpoint.len() > 0;
            let held = before.contains_key(id) && before[id].endpoint == endpoint;
            &&& final(pool)@.self_id == old(pool)@.self_id
            &&& !peer ==> !after.contains_key(id)
            &&& peer && held ==> after.contains_key(id) && after[id] == before[id]
            &&& peer && !held ==> exists|i: int|
                old(dialer)@.len() <= i < final(dialer)@.len() && (#[trigger] final(
                    dialer
                )@[i]).endpoint == endpoint && match final(dialer)@[i].outcome {
                    Ok(channel) => after.contains_key(id) && after[id].endpoint == endpoint
                        && after[id].channel == channel,
                    Err(_) => after.contains_key(id) == before.contains_key(id) && (
                    before.contains_key(id) ==> after[id] == before[id]),
                }
        }),
{
    let m = cluster@;
    let before = old(pool)@;
    let calls = final(dialer)@.skip(old(dialer)@.len() as int);
    let todo = choose|todo: Seq<(u128, Seq<char>)>| #[trigger]
        is_plan(m, before, todo) && carries_out(calls, todo) && final(pool)@ == settled(
            before,
            m,
            todo,
            calls,
        );
    let peer = is_peer(m, before.self_id, id, id);
    assert(peer_ids(m, before.self_id).contains(id) <==> peer) by {
        if peer_ids(m, before.self_id).contains(id) {
            let k = choose|k: u128| #[trigger] is_peer(m, before.self_id, k, id);
            assert(k == id);
        }
    }
    if peer {
        let item = advertised(m, id);
        if needs_dial(m, before, id) {
            lemma_plan_holds(m, before, todo, item);
            let i = choose|i: int| 0 <= i < todo.len() && todo[i] == item;
            assert forall|j: int| 0 <= j < todo.len() && j != i implies (#[trigger] todo[j]).0
                != id by {
                lemma_plan_is_unique(m, before, todo, i, j);
            }
            lemma_connected_once(before.entries, todo, calls, i);
            assert(final(dialer)@[old(dialer)@.len() + i] == calls[i]);
        } else {
            assert forall|i: int| 0 <= i < todo.len() implies (#[trigger] todo[i]).0 != id by {
                lemma_plan_holds(m, before, todo, todo[i]);
                assert(todo.contains(todo[i]));
            }
            lemma_connected_elsewhere(before.entries, todo, calls, id);
        }
    }
}

/// Where consumers are noted under their own ids, a plan names nobody twice.
proof fn lemma_plan_is_unique<C>(
    m: ClusterView,
    pool: PoolView<C>,
    todo: Seq<(u128, Seq<char>)>,
    i: int,
    j: int,
)
    requires
        is_plan(m, pool, todo),
        keyed(m),
        0 <= i < todo.len(),
        0 <= j < todo.len(),
        i != j,
    ensures
        todo[i].0 != todo[j].0,
{
    let keys = choose|keys: Seq<u128>| #[trigger]
        lists(m, keys) && todo == news_of(m, pool, keys) + moves_of(m, pool, keys);
    let kept = keys.filter(|k: u128| is_new(m, pool, k)) + keys.filter(
        |k: u128| has_moved(m, pool, k),
    );
    assert(todo =~= kept.map_values(|k: u128| advertised(m, k)));
    lemma_dialed_keys(m, pool, keys, kept[i]);
    lemma_dialed_keys(m, pool, keys, kept[j]);
    assert(kept.contains(kept[i]) && kept.contains(kept[j]));
}

/// What is held for an id that was dialed once.
proof fn lemma_connected_once<C>(
    entries: Map<u128, PeerView<C>>,
    todo: Seq<(u128, Seq<char>)>,
    calls: Seq<DialCall<C>>,
    i: int,
)
    requires
        calls.len() == todo.len(),
        0 <= i < todo.len(),
        forall|j: int| 0 <= j < todo.len() && j != i ==> (#[trigger] todo[j]).0 != todo[i].0,
    ensures
        ({
            let after = connected(entries, todo, calls);
            let id = todo[i].0;
            match calls[i].outcome {
                Ok(channel) => after.contains_key(id) && after[id] == (PeerView {
                    endpoint: todo[i].1,
                    channel,
                }),
                Err(_) => after.contains_key(id) == entries.contains_key(id) && (
                entries.contains_key(id) ==> after[id] == entries[id]),
            }
        }),
    decreases todo.len(),
{
    let last = todo.len() - 1;
    let front = todo.drop_last();
    if i == last {
        assert forall|j: int| 0 <= j < front.len() implies (#[trigger] front[j]).0 != todo[i].0 by {
            assert(front[j] == todo[j]);
        }
        lemma_connected_elsewhere(entries, front, calls.drop_last(), todo[i].0);
    } else {
        assert(front[i] == todo[i]);
        assert(calls.drop_last()[i] == calls[i]);
        assert(todo[last].0 != todo[i].0);
        assert forall|j: int| 0 <= j < front.len() && j != i implies (#[trigger] front[j]).0
            != front[i].0 by {
            assert(front[j] == todo[j]);
        }
        lemma_connected_once(entries, front, calls.drop_last(), i);
    }
}

/// A pool knows whose it is, and is empty at first.
pub proof fn law_new_pool_is_empty<C>(id: InstanceId, pool: ConnectionPool<C>, n: usize, e: bool)
    requires
        call_ensures(ConnectionPool::<C>::new, (id,), pool),
        call_ensures(ConnectionPool::<C>::len, (&pool,), n),
        call_ensures(ConnectionPool::<C>::is_empty, (&pool,), e),
    ensures
        pool@.self_id == id.0,
        forall|k: u128| !#[trigger] pool@.entries.contains_key(k),
        n == 0,
        e,
{
}

} // verus!
