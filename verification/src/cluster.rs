//! Immutable cluster snapshot.
//!
//! The server is authoritative: the client mirrors the view that the server sends,
//! for lookups and to enumerate consumers, and does not check it.

use vstd::prelude::*;

use crate::cluster_model::{
    applied, assigned, changed, covers, empty_cluster, found, goes_from, off_shards, serves,
    shards_of, snapshot_of, texts, unserved, wanted_states, with_assignment, with_assignments,
    with_consumer, with_grant, with_grants, with_shards, with_update, with_updates,
    without_consumer, without_consumers, without_grants,
};
use crate::cluster_pb::{Assignment, Change, ClusterMessage, ClusterMsg, GrantInfo, Snapshot};
use crate::error::{ClientError, ErrorView};
use crate::ids::{
    ConsumerId, GrantId, GrantState, Instance, InstanceId, InstanceView, QualifiedDomainKey,
    QualifiedDomainName, Shard, ShardView,
};
use crate::pb;
use crate::seqs::{
    lemma_filter_all, lemma_filter_same, lemma_filter_take_next, lemma_filter_twice,
};
use crate::table::Table;
use crate::text;
use crate::text::Order;
use crate::time::SystemTime;
use crate::wrap::{
    grant_state_from_i32, read_instance, read_peer, read_shard, timestamp_to_system_time, yields,
};

verus! {

// ---------- The map and its view ----------

/// Which version of the cluster a map shows.
#[derive(Debug)]
pub struct ClusterId {
    pub version: i64,
    pub origin: Option<Instance>,
    pub timestamp: SystemTime,
}

/// What a [`ClusterId`] stands for.
#[verifier::ext_equal]
pub struct ClusterIdView {
    pub version: i64,
    pub origin: Option<InstanceView>,
    pub timestamp: int,
}

impl View for ClusterId {
    type V = ClusterIdView;

    open spec fn view(&self) -> ClusterIdView {
        ClusterIdView {
            version: self.version,
            origin: match self.origin {
                Some(i) => Some(i@),
                None => None,
            },
            timestamp: self.timestamp@,
        }
    }
}

impl Clone for ClusterId {
    fn clone(&self) -> (r: Self)
        ensures
            r == *self,
    {
        let origin = match &self.origin {
            Some(i) => Some(i.clone()),
            None => None,
        };
        ClusterId { version: self.version, origin, timestamp: self.timestamp }
    }
}

/// A grant as the cluster sees it.
#[derive(Debug)]
pub struct GrantEntry {
    pub id: GrantId,
    pub shard: Shard,
    pub state: GrantState,
    pub consumer: ConsumerId,
}

/// What a [`GrantEntry`] stands for.
#[verifier::ext_equal]
pub struct GrantView {
    pub id: Seq<char>,
    pub shard: ShardView,
    pub state: GrantState,
    pub consumer: u128,
}

impl View for GrantEntry {
    type V = GrantView;

    open spec fn view(&self) -> GrantView {
        GrantView {
            id: self.id@,
            shard: self.shard@,
            state: self.state,
            consumer: self.consumer@,
        }
    }
}

impl Clone for GrantEntry {
    fn clone(&self) -> (r: Self)
        ensures
            r == *self,
    {
        GrantEntry {
            id: self.id.clone(),
            shard: self.shard.clone(),
            state: self.state,
            consumer: self.consumer,
        }
    }
}

/// A consumer with the ids of its grants, in the order in which they came.
#[derive(Debug)]
pub struct ConsumerEntry {
    pub consumer: Instance,
    pub grants: Vec<GrantId>,
}

/// What a [`ConsumerEntry`] stands for.
#[verifier::ext_equal]
pub struct ConsumerView {
    pub consumer: InstanceView,
    pub grants: Seq<Seq<char>>,
}

/// The texts of a list of grant ids.
pub open spec fn id_texts(ids: Seq<GrantId>) -> Seq<Seq<char>> {
    ids.map_values(|g: GrantId| g@)
}

impl View for ConsumerEntry {
    type V = ConsumerView;

    open spec fn view(&self) -> ConsumerView {
        ConsumerView { consumer: self.consumer@, grants: id_texts(self.grants@) }
    }
}

impl Clone for ConsumerEntry {
    fn clone(&self) -> (r: Self)
        ensures
            r@ == self@,
    {
        let mut grants: Vec<GrantId> = Vec::new();
        let mut i: usize = 0;
        while i < self.grants.len()
            invariant
                i <= self.grants@.len(),
                grants@ == self.grants@.take(i as int),
            decreases self.grants@.len() - i,
        {
            grants.push(self.grants[i].clone());
            i = i + 1;
            assert(grants@ =~= self.grants@.take(i as int));
        }
        assert(grants@ =~= self.grants@);
        ConsumerEntry { consumer: self.consumer.clone(), grants }
    }
}

/// The cluster as last heard of: its consumers, its grants and its shards.
#[derive(Debug)]
pub struct ClusterMap {
    pub id: ClusterId,
    pub consumers: Table<ConsumerId, ConsumerEntry>,
    pub grants: Table<GrantId, GrantEntry>,
    pub shards: Vec<Shard>,
}

/// What a [`ClusterMap`] stands for.
#[verifier::ext_equal]
pub struct ClusterView {
    pub id: ClusterIdView,
    pub consumers: Map<u128, ConsumerView>,
    pub grants: Map<Seq<char>, GrantView>,
    pub shards: Seq<ShardView>,
}

/// What a list of shards stands for.
pub open spec fn shard_views(shards: Seq<Shard>) -> Seq<ShardView> {
    shards.map_values(|s: Shard| s@)
}

impl View for ClusterMap {
    type V = ClusterView;

    open spec fn view(&self) -> ClusterView {
        ClusterView {
            id: self.id@,
            consumers: self.consumers@.map_values(|c: ConsumerEntry| c@),
            grants: self.grants@.map_values(|g: GrantEntry| g@),
            shards: shard_views(self.shards@),
        }
    }
}

fn clone_shards(shards: &Vec<Shard>) -> (r: Vec<Shard>)
    ensures
        r@ == shards@,
{
    let mut out: Vec<Shard> = Vec::new();
    let mut i: usize = 0;
    while i < shards.len()
        invariant
            i <= shards@.len(),
            out@ == shards@.take(i as int),
        decreases shards@.len() - i,
    {
        out.push(shards[i].clone());
        i = i + 1;
        assert(out@ =~= shards@.take(i as int));
    }
    assert(out@ =~= shards@);
    out
}

impl Clone for ClusterMap {
    fn clone(&self) -> (r: Self)
        ensures
            r@ == self@,
            r.id == self.id,
    {
        let r = ClusterMap {
            id: self.id.clone(),
            consumers: self.consumers.clone(),
            grants: self.grants.clone(),
            shards: clone_shards(&self.shards),
        };
        proof {
            assert(r@.consumers =~= self@.consumers);
            assert(r@.grants =~= self@.grants);
        }
        r
    }
}

// ---------- Reading ----------

/// Reads a list of shards.
pub fn decode_shards(raw: &Vec<pb::Shard>) -> (r: Result<Vec<Shard>, ClientError>)
    ensures
        match r {
            Ok(list) => shards_of(raw@) == Ok::<Seq<ShardView>, ErrorView>(shard_views(list@)),
            Err(e) => shards_of(raw@) == Err::<Seq<ShardView>, ErrorView>(e@),
        },
{
    let mut out: Vec<Shard> = Vec::new();
    let mut i: usize = 0;
    assert(shard_views(out@) =~= Seq::<ShardView>::empty());
    while i < raw.len()
        invariant
            i <= raw@.len(),
            shards_of(raw@.take(i as int)) == Ok::<Seq<ShardView>, ErrorView>(shard_views(out@)),
        decreases raw@.len() - i,
    {
        let ghost front = raw@.take(i as int);
        assert(raw@.take(i + 1).drop_last() =~= front);
        match read_shard(&raw[i]) {
            Ok(s) => {
                let ghost before = shard_views(out@);
                out.push(s);
                assert(shard_views(out@) =~= before.push(s@));
            },
            Err(e) => {
                proof {
                    lemma_shards_error(raw@, i as int, e@);
                }
                return Err(e);
            },
        }
        i = i + 1;
    }
    assert(raw@.take(i as int) =~= raw@);
    Ok(out)
}

/// An error in a list of shards stays the error of every longer list.
proof fn lemma_shards_error(raw: Seq<pb::Shard>, i: int, e: ErrorView)
    requires
        0 <= i < raw.len(),
        shards_of(raw.take(i + 1)) == Err::<Seq<ShardView>, ErrorView>(e),
    ensures
        shards_of(raw) == Err::<Seq<ShardView>, ErrorView>(e),
    decreases raw.len(),
{
    if i + 1 == raw.len() {
        assert(raw.take(i + 1) =~= raw);
    } else {
        assert(raw.drop_last().take(i + 1) =~= raw.take(i + 1));
        lemma_shards_error(raw.drop_last(), i, e);
    }
}

/// Whether a shard covers a key.
pub fn shard_covers(shard: &Shard, key: &QualifiedDomainKey) -> (r: bool)
    ensures
        r == covers(shard@, key@),
{
    if shard.domain != key.domain {
        return false;
    }
    if !shard.region.is_empty() && shard.region != key.key.region {
        return false;
    }
    if !shard.from.as_str().is_empty() {
        match text::compare(key.key.key.as_str(), shard.from.as_str()) {
            Order::Less => {
                return false;
            },
            _ => {},
        }
    }
    if !shard.to.as_str().is_empty() {
        match text::compare(key.key.key.as_str(), shard.to.as_str()) {
            Order::Less => {},
            _ => {
                return false;
            },
        }
    }
    true
}

fn contains_shard(shards: &Vec<Shard>, s: &Shard) -> (r: bool)
    ensures
        r == shard_views(shards@).contains(s@),
{
    let ghost views = shard_views(shards@);
    let mut i: usize = 0;
    while i < shards.len()
        invariant
            i <= shards@.len(),
            views == shard_views(shards@),
            forall|j: int| 0 <= j < i ==> #[trigger] views[j] != s@,
        decreases shards@.len() - i,
    {
        if shards[i] == *s {
            assert(views[i as int] == s@);
            return true;
        }
        i = i + 1;
    }
    false
}

impl ClusterMap {
    /// The cluster before anything was heard of it.
    pub fn empty() -> (r: Self)
        ensures
            r@ == empty_cluster(),
    {
        let r = ClusterMap {
            id: ClusterId { version: 0, origin: None, timestamp: SystemTime::unix_epoch() },
            consumers: Table::new(),
            grants: Table::new(),
            shards: Vec::new(),
        };
        proof {
            assert(r@.consumers =~= Map::empty());
            assert(r@.grants =~= Map::empty());
            assert(r@.shards =~= Seq::empty());
        }
        r
    }

    /// Finds a grant for a key, by the first state that some grant serves it in. With
    /// no states given, those of an owner or a former owner are considered. Where
    /// several grants serve a key in the same state, any of them may be found.
    pub fn lookup(&self, key: &QualifiedDomainKey, states: &[GrantState]) -> (r: Option<&GrantEntry>)
        ensures
            match r {
                Some(g) => exists|gid: Seq<char>|
                    self@.grants.contains_key(gid) && self@.grants[gid] == g@ && #[trigger] found(
                        self@,
                        key@,
                        wanted_states(states@),
                        gid,
                    ),
                None => unserved(self@, key@, wanted_states(states@)),
            },
    {
        let default_list: [GrantState; 4] = [
            GrantState::Active,
            GrantState::Revoked,
            GrantState::AllocatedLoaded,
            GrantState::RevokedUnloaded,
        ];
        let wanted: &[GrantState] = if states.len() == 0 {
            &default_list
        } else {
            states
        };
        assert(wanted@ =~= wanted_states(states@));
        let n = self.grants.len();
        let mut i: usize = 0;
        while i < wanted.len()
            invariant
                i <= wanted@.len(),
                wanted@ == wanted_states(states@),
                n == self.grants.keys().len(),
                forall|k: Seq<char>| #[trigger]
                    self.grants@.dom().contains(k) <==> self.grants.keys().contains(k),
                forall|j: int, other: Seq<char>|
                    0 <= j < i ==> !#[trigger] serves(self@, other, key@, wanted@[j]),
            decreases wanted@.len() - i,
        {
            let state: GrantState = wanted[i];
            let mut k: usize = 0;
            while k < n
                invariant
                    k <= n,
                    i < wanted@.len(),
                    state == wanted@[i as int],
                    wanted@ == wanted_states(states@),
                    n == self.grants.keys().len(),
                    forall|x: int|
                        0 <= x < k ==> !serves(
                            self@,
                            #[trigger] self.grants.keys()[x],
                            key@,
                            state,
                        ),
                    forall|j: int, other: Seq<char>|
                        0 <= j < i ==> !#[trigger] serves(self@, other, key@, wanted@[j]),
                decreases n - k,
            {
                let g = self.grants.value_at(k);
                if g.state == state && shard_covers(&g.shard, key) {
                    proof {
                        let gid = self.grants.keys()[k as int];
                        assert(serves(self@, gid, key@, wanted@[i as int]));
                        assert(found(self@, key@, wanted@, gid));
                    }
                    return Some(g);
                }
                k = k + 1;
            }
            proof {
                assert forall|other: Seq<char>| !serves(self@, other, key@, state) by {
                    if self@.grants.contains_key(other) {
                        assert(self.grants@.dom().contains(other));
                        let x = choose|x: int|
                            0 <= x < self.grants.keys().len() && self.grants.keys()[x] == other;
                        assert(!serves(self@, self.grants.keys()[x], key@, state));
                    }
                }
            }
            i = i + 1;
        }
        None
    }

    /// The shards of a domain.
    pub fn shards_for_domain(&self, domain: &QualifiedDomainName) -> (r: Vec<&Shard>)
        ensures
            r@.map_values(|s: &Shard| s@) == self@.shards.filter(
                |s: ShardView| s.domain == domain@,
            ),
    {
        let mut out: Vec<&Shard> = Vec::new();
        let ghost views = self@.shards;
        let ghost p = |s: ShardView| s.domain == domain@;
        let ghost f = |s: &Shard| s@;
        let mut i: usize = 0;
        proof {
            reveal(Seq::filter);
            assert(out@.map_values(f) =~= views.take(0).filter(p));
        }
        while i < self.shards.len()
            invariant
                i <= self.shards@.len(),
                views == shard_views(self.shards@),
                p == (|s: ShardView| s.domain == domain@),
                f == (|s: &Shard| s@),
                out@.map_values(f) == views.take(i as int).filter(p),
            decreases self.shards@.len() - i,
        {
            let ghost before = out@.map_values(f);
            proof {
                lemma_filter_take_next(views, p, i as int);
            }
            if self.shards[i].domain == *domain {
                out.push(&self.shards[i]);
                assert(out@.map_values(f) =~= before.push(views[i as int]));
            }
            i = i + 1;
        }
        assert(views.take(i as int) =~= views);
        out
    }
}

// ---------- Changing ----------

/// A cluster with the entry of one consumer put in.
spec fn holding(m: ClusterView, cid: u128, c: ConsumerView) -> ClusterView {
    ClusterView { consumers: m.consumers.insert(cid, c), ..m }
}

proof fn lemma_with_grants_error(
    m: ClusterView,
    cid: u128,
    grants: Seq<GrantInfo>,
    i: int,
    e: ErrorView,
)
    requires
        0 <= i < grants.len(),
        with_grants(m, cid, grants.take(i + 1)) == Err::<ClusterView, ErrorView>(e),
    ensures
        with_grants(m, cid, grants) == Err::<ClusterView, ErrorView>(e),
    decreases grants.len(),
{
    if i + 1 == grants.len() {
        assert(grants.take(i + 1) =~= grants);
    } else {
        assert(grants.drop_last().take(i + 1) =~= grants.take(i + 1));
        lemma_with_grants_error(m, cid, grants.drop_last(), i, e);
    }
}

/// Makes a consumer known and gives it grants.
pub fn assign_consumer(map: ClusterMap, consumer: Instance, grants: &Vec<GrantInfo>) -> (r: Result<
    ClusterMap,
    ClientError,
>)
    ensures
        yields(r, assigned(map@, consumer@, grants@)),
{
    let cid: ConsumerId = consumer.id;
    let ghost m0 = with_consumer(map@, consumer@);
    let mut next = map;
    let mut entry = match next.consumers.remove(&cid) {
        Some(e) => e,
        None => ConsumerEntry { consumer, grants: Vec::new() },
    };
    proof {
        assert(id_texts(Seq::<GrantId>::empty()) =~= Seq::empty());
        assert(holding(next@, cid@, entry@).consumers =~= m0.consumers);
        assert(grants@.take(0) =~= Seq::empty());
    }
    let mut i: usize = 0;
    while i < grants.len()
        invariant
            m0 == with_consumer(map@, consumer@),
            cid@ == consumer@.id,
            i <= grants@.len(),
            with_grants(m0, cid@, grants@.take(i as int)) == Ok::<ClusterView, ErrorView>(
                holding(next@, cid@, entry@),
            ),
        decreases grants@.len() - i,
    {
        let g = &grants[i];
        let ghost before = holding(next@, cid@, entry@);
        proof {
            assert(grants@.take(i + 1).drop_last() =~= grants@.take(i as int));
            assert(with_grants(m0, cid@, grants@.take(i + 1)) == with_grant(before, cid@, *g));
        }
        let raw = match &g.shard {
            Some(raw) => raw,
            None => {
                let e = ClientError::InvalidMessage("GrantInfo without shard".to_owned());
                proof {
                    lemma_with_grants_error(m0, cid@, grants@, i as int, e@);
                }
                return Err(e);
            },
        };
        let shard = match read_shard(raw) {
            Ok(shard) => shard,
            Err(e) => {
                proof {
                    lemma_with_grants_error(m0, cid@, grants@, i as int, e@);
                }
                return Err(e);
            },
        };
        let gid = GrantId(g.id.clone());
        let state = grant_state_from_i32(g.state);
        let ghost ids = entry.grants@;
        let ghost fresh = GrantEntry { id: gid, shard, state, consumer: cid };
        entry.grants.push(gid.clone());
        next.grants.insert(gid.clone(), GrantEntry { id: gid, shard, state, consumer: cid });
        proof {
            assert(id_texts(entry.grants@) =~= id_texts(ids).push(g.id@));
            assert(next@.grants =~= before.grants.insert(g.id@, fresh@));
            let after = holding(next@, cid@, entry@);
            assert(after.consumers =~= before.consumers.insert(cid@, entry@));
        }
        i = i + 1;
    }
    let ghost done = holding(next@, cid@, entry@);
    next.consumers.insert(cid, entry);
    proof {
        assert(grants@.take(i as int) =~= grants@);
        assert(next@.consumers =~= done.consumers);
    }
    Ok(next)
}

/// Applies an assignment.
pub fn apply_assignment(map: ClusterMap, assign: &Assignment) -> (r: Result<
    ClusterMap,
    ClientError,
>)
    ensures
        yields(r, with_assignment(map@, *assign)),
{
    match &assign.consumer {
        None => Err(ClientError::InvalidMessage("Assignment without consumer".to_owned())),
        Some(raw) => match read_peer(raw) {
            Err(e) => Err(e),
            Ok(consumer) => assign_consumer(map, consumer, &assign.grants),
        },
    }
}

proof fn lemma_with_assignments_error(m: ClusterView, list: Seq<Assignment>, i: int, e: ErrorView)
    requires
        0 <= i < list.len(),
        with_assignments(m, list.take(i + 1)) == Err::<ClusterView, ErrorView>(e),
    ensures
        with_assignments(m, list) == Err::<ClusterView, ErrorView>(e),
    decreases list.len(),
{
    if i + 1 == list.len() {
        assert(list.take(i + 1) =~= list);
    } else {
        assert(list.drop_last().take(i + 1) =~= list.take(i + 1));
        lemma_with_assignments_error(m, list.drop_last(), i, e);
    }
}

fn apply_assignments(map: ClusterMap, list: &Vec<Assignment>) -> (r: Result<
    ClusterMap,
    ClientError,
>)
    ensures
        yields(r, with_assignments(map@, list@)),
{
    let ghost m0 = map@;
    let mut next = map;
    let mut i: usize = 0;
    assert(list@.take(0) =~= Seq::empty());
    while i < list.len()
        invariant
            m0 == map@,
            i <= list@.len(),
            with_assignments(m0, list@.take(i as int)) == Ok::<ClusterView, ErrorView>(next@),
        decreases list@.len() - i,
    {
        assert(list@.take(i + 1).drop_last() =~= list@.take(i as int));
        next = match apply_assignment(next, &list[i]) {
            Ok(done) => done,
            Err(e) => {
                proof {
                    lemma_with_assignments_error(m0, list@, i as int, e@);
                }
                return Err(e);
            },
        };
        i = i + 1;
    }
    assert(list@.take(i as int) =~= list@);
    Ok(next)
}

/// Gives a known grant a new state and, where one comes with it, a new shard.
pub fn update_grant(map: ClusterMap, g: &GrantInfo) -> (r: Result<ClusterMap, ClientError>)
    ensures
        yields(r, with_update(map@, *g)),
{
    let gid = GrantId(g.id.clone());
    let ghost m0 = map@;
    let mut map = map;
    match map.grants.remove(&gid) {
        None => {
            assert(map@.grants =~= m0.grants);
            Ok(map)
        },
        Some(entry) => {
            let mut entry = entry;
            if let Some(raw) = &g.shard {
                match read_shard(raw) {
                    Ok(shard) => {
                        entry.shard = shard;
                    },
                    Err(e) => {
                        return Err(e);
                    },
                }
            }
            entry.state = grant_state_from_i32(g.state);
            map.grants.insert(gid, entry);
            assert(map@.grants =~= m0.grants.insert(g.id@, entry@));
            Ok(map)
        },
    }
}

proof fn lemma_with_updates_error(m: ClusterView, list: Seq<GrantInfo>, i: int, e: ErrorView)
    requires
        0 <= i < list.len(),
        with_updates(m, list.take(i + 1)) == Err::<ClusterView, ErrorView>(e),
    ensures
        with_updates(m, list) == Err::<ClusterView, ErrorView>(e),
    decreases list.len(),
{
    if i + 1 == list.len() {
        assert(list.take(i + 1) =~= list);
    } else {
        assert(list.drop_last().take(i + 1) =~= list.take(i + 1));
        lemma_with_updates_error(m, list.drop_last(), i, e);
    }
}

fn update_grants(map: ClusterMap, list: &Vec<GrantInfo>) -> (r: Result<ClusterMap, ClientError>)
    ensures
        yields(r, with_updates(map@, list@)),
{
    let ghost m0 = map@;
    let mut next = map;
    let mut i: usize = 0;
    assert(list@.take(0) =~= Seq::empty());
    while i < list.len()
        invariant
            m0 == map@,
            i <= list@.len(),
            with_updates(m0, list@.take(i as int)) == Ok::<ClusterView, ErrorView>(next@),
        decreases list@.len() - i,
    {
        assert(list@.take(i + 1).drop_last() =~= list@.take(i as int));
        next = match update_grant(next, &list[i]) {
            Ok(done) => done,
            Err(e) => {
                proof {
                    lemma_with_updates_error(m0, list@, i as int, e@);
                }
                return Err(e);
            },
        };
        i = i + 1;
    }
    assert(list@.take(i as int) =~= list@);
    Ok(next)
}

/// Ending one grant more after others.
proof fn lemma_without_one_more(m: ClusterView, gone: Set<Seq<char>>, gid: Seq<char>)
    ensures
        without_grants(without_grants(m, gone), set![gid]) == without_grants(
            m,
            gone.insert(gid),
        ),
{
    let first = without_grants(m, gone);
    let left = without_grants(first, set![gid]);
    let right = without_grants(m, gone.insert(gid));
    assert(left.grants =~= right.grants);
    assert forall|c: u128| #[trigger] m.consumers.contains_key(c) implies left.consumers[c]
        == right.consumers[c] by {
        let ids = m.consumers[c].grants;
        let p = |x: Seq<char>| !goes_from(m, gone, c, x);
        let q = |x: Seq<char>| !goes_from(first, set![gid], c, x);
        let both = |x: Seq<char>| p(x) && q(x);
        let all = |x: Seq<char>| !goes_from(m, gone.insert(gid), c, x);
        lemma_filter_twice(ids, p, q);
        lemma_filter_same(ids, both, all);
        assert(first.consumers[c].grants == ids.filter(p));
    }
    assert(left.consumers =~= right.consumers);
}

/// Ending no grant changes nothing.
proof fn lemma_without_none(m: ClusterView)
    ensures
        without_grants(m, Set::empty()) == m,
{
    let left = without_grants(m, Set::empty());
    assert(left.grants =~= m.grants);
    assert forall|c: u128| #[trigger] m.consumers.contains_key(c) implies left.consumers[c]
        == m.consumers[c] by {
        lemma_filter_all(
            m.consumers[c].grants,
            |x: Seq<char>| !goes_from(m, Set::empty(), c, x),
        );
    }
    assert(left.consumers =~= m.consumers);
}

/// The ids of a list other than one.
fn ids_without(ids: &Vec<GrantId>, gid: &GrantId) -> (r: Vec<GrantId>)
    ensures
        id_texts(r@) == id_texts(ids@).filter(|x: Seq<char>| x != gid@),
{
    let mut out: Vec<GrantId> = Vec::new();
    let ghost all = id_texts(ids@);
    let ghost p = |x: Seq<char>| x != gid@;
    let mut i: usize = 0;
    proof {
        reveal(Seq::filter);
        assert(id_texts(out@) =~= all.take(0).filter(p));
    }
    while i < ids.len()
        invariant
            i <= ids@.len(),
            all == id_texts(ids@),
            p == (|x: Seq<char>| x != gid@),
            id_texts(out@) == all.take(i as int).filter(p),
        decreases ids@.len() - i,
    {
        let ghost before = id_texts(out@);
        proof {
            lemma_filter_take_next(all, p, i as int);
        }
        if ids[i] != *gid {
            out.push(ids[i].clone());
            assert(id_texts(out@) =~= before.push(all[i as int]));
        }
        i = i + 1;
    }
    assert(all.take(i as int) =~= all);
    out
}

/// Ends a grant.
pub fn drop_grant(map: &mut ClusterMap, gid: &GrantId)
    ensures
        final(map)@ == without_grants(old(map)@, set![gid@]),
{
    let ghost m0 = map@;
    let ghost goal = without_grants(m0, set![gid@]);
    match map.grants.remove(gid) {
        None => {
            proof {
                assert forall|c: u128| #[trigger] m0.consumers.contains_key(c) implies goal.consumers[c]
                    == m0.consumers[c] by {
                    lemma_filter_all(
                        m0.consumers[c].grants,
                        |x: Seq<char>| !goes_from(m0, set![gid@], c, x),
                    );
                }
                assert(goal.consumers =~= m0.consumers);
                assert(map@.grants =~= goal.grants);
            }
        },
        Some(entry) => {
            let ghost holder = entry.consumer@;
            assert(map@.grants =~= goal.grants);
            proof {
                assert forall|c: u128| #[trigger]
                    m0.consumers.contains_key(c) && c != holder implies goal.consumers[c]
                    == m0.consumers[c] by {
                    lemma_filter_all(
                        m0.consumers[c].grants,
                        |x: Seq<char>| !goes_from(m0, set![gid@], c, x),
                    );
                }
            }
            match map.consumers.remove(&entry.consumer) {
                None => {
                    assert(map@.consumers =~= goal.consumers);
                },
                Some(c) => {
                    let grants = ids_without(&c.grants, gid);
                    proof {
                        lemma_filter_same(
                            id_texts(c.grants@),
                            |x: Seq<char>| x != gid@,
                            |x: Seq<char>| !goes_from(m0, set![gid@], holder, x),
                        );
                    }
                    map.consumers.insert(
                        entry.consumer,
                        ConsumerEntry { consumer: c.consumer, grants },
                    );
                    assert(map@.consumers =~= goal.consumers);
                },
            }
        },
    }
}

/// Ends the grants of a list.
fn drop_grants(map: &mut ClusterMap, ids: &Vec<GrantId>)
    ensures
        final(map)@ == without_grants(old(map)@, id_texts(ids@).to_set()),
{
    let ghost m0 = map@;
    let ghost all = id_texts(ids@);
    let mut i: usize = 0;
    proof {
        lemma_without_none(m0);
        assert(all.take(0).to_set() =~= Set::empty());
    }
    while i < ids.len()
        invariant
            i <= ids@.len(),
            all == id_texts(ids@),
            map@ == without_grants(m0, all.take(i as int).to_set()),
        decreases ids@.len() - i,
    {
        proof {
            lemma_without_one_more(m0, all.take(i as int).to_set(), all[i as int]);
            lemma_take_set(all, i as int);
        }
        drop_grant(map, &ids[i]);
        i = i + 1;
    }
    assert(all.take(i as int) =~= all);
}

proof fn lemma_take_set<A>(s: Seq<A>, i: int)
    requires
        0 <= i < s.len(),
    ensures
        s.take(i + 1).to_set() == s.take(i).to_set().insert(s[i]),
{
    let a = s.take(i + 1);
    let b = s.take(i);
    assert forall|x: A| #[trigger] a.to_set().contains(x) <==> b.to_set().insert(s[i]).contains(
        x,
    ) by {
        if a.contains(x) {
            let j = choose|j: int| 0 <= j < a.len() && a[j] == x;
            if j < i {
                assert(b[j] == x);
            }
        }
        if b.contains(x) {
            let j = choose|j: int| 0 <= j < b.len() && b[j] == x;
            assert(a[j] == x);
        }
        assert(a[i] == s[i]);
    }
    assert(a.to_set() =~= b.to_set().insert(s[i]));
}

/// Removes a consumer, and with it the grants that were noted with it.
pub fn remove_consumer(map: &mut ClusterMap, cid: &ConsumerId)
    ensures
        final(map)@ == without_consumer(old(map)@, cid@),
{
    let ghost m0 = map@;
    match map.consumers.remove(cid) {
        None => {
            assert(map@.consumers =~= m0.consumers);
        },
        Some(entry) => {
            assert(map@.consumers =~= m0.consumers.remove(cid@));
            let ghost all = id_texts(entry.grants@);
            let mut i: usize = 0;
            let ghost m1 = map@;
            assert(all.take(0).to_set() =~= Set::empty());
            assert(m1.grants.remove_keys(all.take(0).to_set()) =~= m1.grants);
            while i < entry.grants.len()
                invariant
                    i <= entry.grants@.len(),
                    all == id_texts(entry.grants@),
                    map@ == (ClusterView {
                        grants: m1.grants.remove_keys(all.take(i as int).to_set()),
                        ..m1
                    }),
                decreases entry.grants@.len() - i,
            {
                proof {
                    lemma_take_set(all, i as int);
                }
                let ghost before = map@;
                map.grants.remove(&entry.grants[i]);
                i = i + 1;
                assert(map@.grants =~= before.grants.remove(all[i - 1]));
                assert(map@.grants =~= m1.grants.remove_keys(all.take(i as int).to_set()));
            }
            assert(all.take(i as int) =~= all);
        },
    }
}

fn remove_consumers(map: &mut ClusterMap, list: &Vec<String>)
    ensures
        final(map)@ == without_consumers(old(map)@, texts(list@)),
{
    let ghost m0 = map@;
    let ghost all = texts(list@);
    let mut i: usize = 0;
    assert(all.take(0) =~= Seq::empty());
    while i < list.len()
        invariant
            i <= list@.len(),
            all == texts(list@),
            map@ == without_consumers(m0, all.take(i as int)),
        decreases list@.len() - i,
    {
        proof {
            assert(all.take(i + 1).drop_last() =~= all.take(i as int));
            assert(all.take(i + 1).last() == all[i as int]);
        }
        match InstanceId::try_from(list[i].as_str()) {
            Ok(id) => {
                remove_consumer(map, &id);
            },
            Err(_) => {},
        }
        i = i + 1;
    }
    assert(all.take(i as int) =~= all);
}

/// Sets the list of shards and ends the grants on shards that are no longer present.
pub fn set_shards(map: &mut ClusterMap, shards: Vec<Shard>)
    ensures
        final(map)@ == with_shards(old(map)@, shard_views(shards@)),
{
    let ghost m0 = map@;
    let ghost views = shard_views(shards@);
    let n = map.grants.len();
    let mut doomed: Vec<GrantId> = Vec::new();
    let mut i: usize = 0;
    let ghost keys = map.grants.keys();
    while i < n
        invariant
            i <= n,
            n == keys.len(),
            keys == map.grants.keys(),
            views == shard_views(shards@),
            m0 == map@,
            forall|x: int|
                0 <= x < doomed@.len() ==> off_shards(m0, views).contains(
                    (#[trigger] doomed@[x])@,
                ),
            forall|x: int|
                0 <= x < i && off_shards(m0, views).contains(#[trigger] keys[x]) ==> id_texts(
                    doomed@,
                ).contains(keys[x]),
        decreases n - i,
    {
        let ghost before = doomed@;
        if !contains_shard(&shards, &map.grants.value_at(i).shard) {
            doomed.push(map.grants.key_at(i).clone());
            assert(id_texts(doomed@)[before.len() as int] == keys[i as int]);
        }
        proof {
            assert forall|x: int|
                0 <= x < i + 1 && off_shards(m0, views).contains(#[trigger] keys[x]) implies id_texts(
                doomed@,
            ).contains(keys[x]) by {
                if x < i {
                    let y = choose|y: int|
                        0 <= y < id_texts(before).len() && id_texts(before)[y] == keys[x];
                    assert(id_texts(doomed@)[y] == keys[x]);
                } else {
                    assert(map.grants@.dom().contains(keys[x]));
                }
            }
        }
        i = i + 1;
    }
    proof {
        assert forall|k: Seq<char>| #[trigger]
            id_texts(doomed@).to_set().contains(k) <==> off_shards(m0, views).contains(k) by {
            if off_shards(m0, views).contains(k) {
                assert(map.grants@.dom().contains(k));
                let x = choose|x: int| 0 <= x < keys.len() && keys[x] == k;
                assert(off_shards(m0, views).contains(keys[x]));
            }
            if id_texts(doomed@).contains(k) {
                let y = choose|y: int|
                    0 <= y < id_texts(doomed@).len() && id_texts(doomed@)[y] == k;
                assert(doomed@[y]@ == k);
            }
        }
        assert(id_texts(doomed@).to_set() =~= off_shards(m0, views));
    }
    map.shards = shards;
    drop_grants(map, &doomed);
}

fn grant_ids(list: &Vec<String>) -> (r: Vec<GrantId>)
    ensures
        id_texts(r@) == texts(list@),
{
    let mut out: Vec<GrantId> = Vec::new();
    let mut i: usize = 0;
    while i < list.len()
        invariant
            i <= list@.len(),
            out@.len() == i,
            forall|j: int| 0 <= j < i ==> (#[trigger] out@[j])@ == list@[j]@,
        decreases list@.len() - i,
    {
        out.push(GrantId(list[i].clone()));
        i = i + 1;
    }
    assert(id_texts(out@) =~= texts(list@));
    out
}

impl ClusterMap {
    /// Apply a server-sent `ClusterMessage` to produce a new snapshot.
    /// Does not mutate `self`.
    pub fn apply(&self, msg: ClusterMessage) -> (r: Result<Self, ClientError>)
        ensures
            yields(r, applied(self@, msg)),
    {
        let timestamp = match &msg.timestamp {
            Some(ts) => timestamp_to_system_time(ts),
            None => SystemTime::unix_epoch(),
        };
        let version: i64 = msg.version;
        match &msg.msg {
            Some(ClusterMsg::Snapshot(snap)) => apply_snapshot(snap, version, timestamp),
            Some(ClusterMsg::Change(change)) => self.apply_change(change, version, timestamp),
            None => Err(
                ClientError::InvalidMessage("ClusterMessage without a variant".to_owned()),
            ),
        }
    }

    /// Apply a change to produce a new snapshot with the given version and time.
    /// Does not mutate `self`.
    pub fn apply_change(&self, change: &Change, version: i64, timestamp: SystemTime) -> (r: Result<
        Self,
        ClientError,
    >)
        ensures
            yields(r, changed(self@, *change, version, timestamp@)),
    {
        let mut next = self.clone();
        next.id = ClusterId { version, origin: next.id.origin, timestamp };

        if let Some(list) = &change.shards {
            match decode_shards(&list.shards) {
                Ok(shards) => {
                    set_shards(&mut next, shards);
                },
                Err(e) => {
                    return Err(e);
                },
            }
        }
        if let Some(list) = &change.assign {
            next = match apply_assignments(next, &list.assignments) {
                Ok(next) => next,
                Err(e) => {
                    return Err(e);
                },
            };
        }
        if let Some(list) = &change.update {
            next = match update_grants(next, &list.grants) {
                Ok(next) => next,
                Err(e) => {
                    return Err(e);
                },
            };
        }
        if let Some(list) = &change.unassign {
            let ids = grant_ids(&list.grants);
            drop_grants(&mut next, &ids);
        }
        if let Some(list) = &change.remove {
            remove_consumers(&mut next, &list.consumers);
        }
        Ok(next)
    }
}

/// Builds the map that a snapshot shows.
pub fn apply_snapshot(snap: &Snapshot, version: i64, timestamp: SystemTime) -> (r: Result<
    ClusterMap,
    ClientError,
>)
    ensures
        yields(r, snapshot_of(*snap, version, timestamp@)),
{
    let shards = match decode_shards(&snap.shards) {
        Ok(shards) => shards,
        Err(e) => {
            return Err(e);
        },
    };
    let origin = match &snap.origin {
        None => None,
        Some(raw) => match read_instance(raw) {
            Ok(i) => Some(i),
            Err(e) => {
                return Err(e);
            },
        },
    };
    let out = ClusterMap {
        id: ClusterId { version, origin, timestamp },
        consumers: Table::new(),
        grants: Table::new(),
        shards,
    };
    proof {
        assert(out@.consumers =~= Map::empty());
        assert(out@.grants =~= Map::empty());
    }
    apply_assignments(out, &snap.assignments)
}

} // verus!
