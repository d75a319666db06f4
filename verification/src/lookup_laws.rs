//! What a lookup finds, in terms of shards, keys and states.

use vstd::prelude::*;

use crate::cluster::{shard_covers, ClusterMap, ClusterView, GrantEntry};
use crate::cluster_model::{found, serves, wanted_states};
use crate::error::{ClientError, ErrorView};
use crate::ids::{
    domain_text, DomainView, GrantState, Location, QualifiedDomainKey, QualifiedDomainName,
    QualifiedKeyView, Shard, ShardView,
};
use crate::pool::ConnectionPool;
use crate::remote::{RemoteCall, RemoteFn};
use crate::resolver::{owns, resolver_states, resolves, unowned, DomainResolver};
use crate::seqs::lemma_filter_holds;
use crate::text::{law_text_lt_total, lemma_text_lt_irreflexive, lemma_text_lt_transitive, text_lt};

verus! {

// ---------- Shards ----------

/// A shard covers only keys of its domain, and one with a region only keys of that
/// region.
pub proof fn law_shard_covers_its_own_domain_and_region(
    shard: &Shard,
    key: &QualifiedDomainKey,
    r: bool,
)
    requires
        call_ensures(shard_covers, (shard, key), r),
        r,
    ensures
        shard.domain.name.0@ == key.domain.name.0@,
        shard.domain.service.tenant.0@ == key.domain.service.tenant.0@,
        shard.domain.service.service.0@ == key.domain.service.service.0@,
        shard.region.0@.len() > 0 ==> shard.region.0@ == key.key.region.0@,
{
    assert(shard@.domain == key@.domain);
    assert(shard@.domain.service == key@.domain.service);
}

/// A shard with an upper bound covers no key that is not below it, and one with a lower
/// bound no key below it, whatever its region and its kind.
pub proof fn law_shard_covers_within_its_bounds(shard: &Shard, key: &QualifiedDomainKey, r: bool)
    requires
        call_ensures(shard_covers, (shard, key), r),
        r,
    ensures
        shard.to@.len() > 0 ==> text_lt(key.key.key@, shard.to@),
        shard.from@.len() > 0 ==> !text_lt(key.key.key@, shard.from@),
{
}

/// A shard covers every key of its domain that its region and its bounds do not shut
/// out.
pub proof fn law_shard_covers_all_between_its_bounds(
    shard: &Shard,
    key: &QualifiedDomainKey,
    r: bool,
)
    requires
        call_ensures(shard_covers, (shard, key), r),
        shard.domain@ == key.domain@,
        shard.region.0@.len() == 0 || shard.region.0@ == key.key.region.0@,
        shard.from@.len() == 0 || shard.from@ == key.key.key@ || text_lt(
            shard.from@,
            key.key.key@,
        ),
        shard.to@.len() == 0 || text_lt(key.key.key@, shard.to@),
    ensures
        r,
{
    let k = key.key.key@;
    if shard.from@.len() > 0 {
        lemma_text_lt_irreflexive(k);
        if text_lt(k, shard.from@) && text_lt(shard.from@, k) {
            lemma_text_lt_transitive(k, shard.from@, k);
        }
    }
}

/// Whether a key is covered does not depend on the kind of the shard.
pub proof fn law_kind_does_not_matter(
    a: &Shard,
    b: &Shard,
    key: &QualifiedDomainKey,
    x: bool,
    y: bool,
)
    requires
        call_ensures(shard_covers, (a, key), x),
        call_ensures(shard_covers, (b, key), y),
        a.domain@ == b.domain@,
        a.region.0@ == b.region.0@,
        a.from@ == b.from@,
        a.to@ == b.to@,
    ensures
        x == y,
{
}

/// Two shards whose key ranges are disjoint, one ending where the other begins or
/// before, never cover the same key, whatever their regions.
pub proof fn law_disjoint_shards_share_no_key(
    low: &Shard,
    high: &Shard,
    key: &QualifiedDomainKey,
    x: bool,
    y: bool,
)
    requires
        call_ensures(shard_covers, (low, key), x),
        call_ensures(shard_covers, (high, key), y),
        low.to@.len() > 0,
        high.from@.len() > 0,
        low.to@ == high.from@ || text_lt(low.to@, high.from@),
    ensures
        !(x && y),
{
    if x && text_lt(low.to@, high.from@) {
        lemma_text_lt_transitive(key.key.key@, low.to@, high.from@);
    }
}

/// Two shards of one domain and one region of which one begins where the other ends
/// leave out no key between them: a key of that domain and region that is at or above
/// the lower bound of the first and below the upper bound of the second is covered by
/// one of them.
pub proof fn law_adjacent_shards_leave_no_gap(
    low: &Shard,
    high: &Shard,
    key: &QualifiedDomainKey,
    x: bool,
    y: bool,
)
    requires
        call_ensures(shard_covers, (low, key), x),
        call_ensures(shard_covers, (high, key), y),
        low.domain@ == key.domain@,
        high.domain@ == key.domain@,
        low.region.0@.len() == 0 || low.region.0@ == key.key.region.0@,
        high.region.0@ == low.region.0@,
        low.to@ == high.from@,
        low.from@.len() == 0 || !text_lt(key.key.key@, low.from@),
        high.to@.len() == 0 || text_lt(key.key.key@, high.to@),
    ensures
        x || y,
{
}

/// A wider shard covers whatever a narrower one does: without a bound, or with a bound
/// further out, no key is lost.
pub proof fn law_wider_shard_covers_more(
    narrow: &Shard,
    wide: &Shard,
    key: &QualifiedDomainKey,
    x: bool,
    y: bool,
)
    requires
        call_ensures(shard_covers, (narrow, key), x),
        call_ensures(shard_covers, (wide, key), y),
        narrow.domain@ == wide.domain@,
        wide.region.0@.len() == 0 || wide.region.0@ == narrow.region.0@,
        wide.from@.len() == 0 || (narrow.from@.len() > 0 && !text_lt(narrow.from@, wide.from@)),
        wide.to@.len() == 0 || (narrow.to@.len() > 0 && !text_lt(wide.to@, narrow.to@)),
        x,
    ensures
        y,
{
    let k = key.key.key@;
    if wide.from@.len() > 0 && text_lt(k, wide.from@) {
        law_text_lt_total(wide.from@, narrow.from@);
        if text_lt(wide.from@, narrow.from@) {
            lemma_text_lt_transitive(k, wide.from@, narrow.from@);
        }
    }
    if wide.to@.len() > 0 && !text_lt(k, wide.to@) {
        law_text_lt_total(narrow.to@, wide.to@);
        if text_lt(narrow.to@, wide.to@) {
            lemma_text_lt_transitive(k, narrow.to@, wide.to@);
        }
    }
}

// ---------- Lookups ----------

/// Whether a key lies in a shard: in its domain, in its region where it has one, and
/// between its bounds where it has them.
pub open spec fn lies_in(k: QualifiedKeyView, s: ShardView) -> bool {
    &&& k.domain == s.domain
    &&& s.region.len() > 0 ==> k.key.region == s.region
    &&& s.from.len() > 0 ==> !text_lt(k.key.key, s.from)
    &&& s.to.len() > 0 ==> text_lt(k.key.key, s.to)
}

/// Whether some grant in a state is on a shard in which a key lies.
pub open spec fn is_in_state(m: ClusterView, k: QualifiedKeyView, state: GrantState) -> bool {
    exists|g: Seq<char>| #[trigger]
        m.grants.contains_key(g) && m.grants[g].state == state && lies_in(k, m.grants[g].shard)
}

/// What a lookup gives is a grant of the cluster on a shard in which the key lies, in one
/// of the states that were asked for.
pub proof fn law_lookup_gives_a_grant_that_owns_the_key(
    m: &ClusterMap,
    key: &QualifiedDomainKey,
    states: &[GrantState],
    g: &GrantEntry,
)
    requires
        call_ensures(ClusterMap::lookup, (m, key, states), Some(g)),
    ensures
        exists|id: Seq<char>| #[trigger] m@.grants.contains_key(id) && m@.grants[id] == g@,
        lies_in(key@, g@.shard),
        is_in_state(m@, key@, g.state),
        states@.len() > 0 ==> states@.contains(g.state),
        states@.len() == 0 ==> g.state is Active || g.state is Revoked || g.state is AllocatedLoaded
            || g.state is RevokedUnloaded,
{
    let wanted = wanted_states(states@);
    let gid = choose|gid: Seq<char>|
        m@.grants.contains_key(gid) && m@.grants[gid] == g@
            && #[trigger] found(m@, key@, wanted, gid);
    let i = choose|i: int|
        {
            &&& 0 <= i < wanted.len()
            &&& serves(m@, gid, key@, #[trigger] wanted[i])
            &&& forall|j: int, other: Seq<char>|
                0 <= j < i ==> !#[trigger] serves(m@, other, key@, wanted[j])
        };
    assert(wanted[i] == g.state);
}

/// A lookup prefers earlier states: it never gives a grant in a state where the key is
/// owned in one that was asked for earlier.
pub proof fn law_lookup_prefers_earlier_states(
    m: &ClusterMap,
    key: &QualifiedDomainKey,
    states: &[GrantState],
    g: &GrantEntry,
    j: int,
)
    requires
        call_ensures(ClusterMap::lookup, (m, key, states), Some(g)),
        0 <= j < states@.len(),
        is_in_state(m@, key@, states@[j]),
    ensures
        exists|i: int| 0 <= i <= j && #[trigger] states@[i] == g.state,
{
    let wanted = wanted_states(states@);
    let gid = choose|gid: Seq<char>|
        m@.grants.contains_key(gid) && m@.grants[gid] == g@
            && #[trigger] found(m@, key@, wanted, gid);
    let i = choose|i: int|
        {
            &&& 0 <= i < wanted.len()
            &&& serves(m@, gid, key@, #[trigger] wanted[i])
            &&& forall|j: int, other: Seq<char>|
                0 <= j < i ==> !#[trigger] serves(m@, other, key@, wanted[j])
        };
    assert(states@[i] == g.state);
    let h = choose|h: Seq<char>| #[trigger]
        m@.grants.contains_key(h) && m@.grants[h].state == states@[j] && lies_in(
            key@,
            m@.grants[h].shard,
        );
    assert(serves(m@, h, key@, wanted[j]));
}

/// A lookup comes back empty only where the key is owned in none of the states that were
/// asked for.
pub proof fn law_lookup_misses_nothing(
    m: &ClusterMap,
    key: &QualifiedDomainKey,
    states: &[GrantState],
    r: Option<&GrantEntry>,
    j: int,
)
    requires
        call_ensures(ClusterMap::lookup, (m, key, states), r),
        0 <= j < states@.len(),
        is_in_state(m@, key@, states@[j]),
    ensures
        r is Some,
{
    let h = choose|h: Seq<char>| #[trigger]
        m@.grants.contains_key(h) && m@.grants[h].state == states@[j] && lies_in(
            key@,
            m@.grants[h].shard,
        );
    let wanted = wanted_states(states@);
    assert(serves(m@, h, key@, wanted[j]));
}

/// A lookup that names no states looks for an active grant first, then for one that is
/// revoked, then for one that is loaded, then for one that is unloaded, and finds nothing
/// exactly where there is none of these.
pub proof fn law_lookup_without_states(
    m: &ClusterMap,
    key: &QualifiedDomainKey,
    states: &[GrantState],
    r: Option<&GrantEntry>,
)
    requires
        call_ensures(ClusterMap::lookup, (m, key, states), r),
        states@.len() == 0,
    ensures
        ({
            let active = is_in_state(m@, key@, GrantState::Active);
            let revoked = is_in_state(m@, key@, GrantState::Revoked);
            let loaded = is_in_state(m@, key@, GrantState::AllocatedLoaded);
            let unloaded = is_in_state(m@, key@, GrantState::RevokedUnloaded);
            &&& r is None <==> !active && !revoked && !loaded && !unloaded
            &&& active ==> r->Some_0.state is Active
            &&& !active && revoked ==> r->Some_0.state is Revoked
            &&& !active && !revoked && loaded ==> r->Some_0.state is AllocatedLoaded
            &&& !active && !revoked && !loaded && unloaded ==> r->Some_0.state is RevokedUnloaded
        }),
{
    let wanted = wanted_states(states@);
    assert(wanted[0] == GrantState::Active);
    assert(wanted[1] == GrantState::Revoked);
    assert(wanted[2] == GrantState::AllocatedLoaded);
    assert(wanted[3] == GrantState::RevokedUnloaded);
    lemma_in_state_serves(m@, key@, GrantState::Active);
    lemma_in_state_serves(m@, key@, GrantState::Revoked);
    lemma_in_state_serves(m@, key@, GrantState::AllocatedLoaded);
    lemma_in_state_serves(m@, key@, GrantState::RevokedUnloaded);
    if let Some(g) = r {
        law_lookup_gives_a_grant_that_owns_the_key(m, key, states, g);
        let gid = choose|gid: Seq<char>|
            m@.grants.contains_key(gid) && m@.grants[gid] == g@
                && #[trigger] found(m@, key@, wanted, gid);
        let i = choose|i: int|
            {
                &&& 0 <= i < wanted.len()
                &&& serves(m@, gid, key@, #[trigger] wanted[i])
                &&& forall|j: int, other: Seq<char>|
                    0 <= j < i ==> !#[trigger] serves(
                        m@,
                        other,
                        key@,
                        wanted[j],
                    )
            };
        assert(wanted[i] == g.state);
    }
}

proof fn lemma_in_state_serves(m: ClusterView, k: QualifiedKeyView, state: GrantState)
    ensures
        is_in_state(m, k, state) <==> exists|g: Seq<char>| #[trigger]
            serves(m, g, k, state),
{
    if is_in_state(m, k, state) {
        let h = choose|h: Seq<char>| #[trigger]
            m.grants.contains_key(h) && m.grants[h].state == state && lies_in(
                k,
                m.grants[h].shard,
            );
        assert(serves(m, h, k, state));
    }
    if exists|g: Seq<char>| #[trigger] serves(m, g, k, state) {
        let h = choose|g: Seq<char>| #[trigger] serves(m, g, k, state);
        assert(m.grants.contains_key(h));
    }
}

/// The shards of a domain are all those of the cluster with that domain, in order.
pub proof fn law_shards_of_a_domain(
    m: &ClusterMap,
    domain: &QualifiedDomainName,
    r: Vec<&Shard>,
    s: ShardView,
)
    requires
        call_ensures(ClusterMap::shards_for_domain, (m, domain), r),
    ensures
        r@.map_values(|s: &Shard| s@).contains(s) <==> m@.shards.contains(s) && s.domain == domain@,
        forall|i: int| 0 <= i < r@.len() ==> (#[trigger] r@[i])@.domain == domain@,
{
    let views = r@.map_values(|s: &Shard| s@);
    let p = |s: ShardView| s.domain == domain@;
    lemma_filter_holds(m@.shards, p, s);
    assert forall|i: int| 0 <= i < r@.len() implies (#[trigger] r@[i])@.domain == domain@ by {
        lemma_filter_holds(m@.shards, p, views[i]);
        assert(views.contains(views[i]));
    }
}

// ---------- Resolving ----------

/// The grants of which a resolver takes one: the active ones on the key's shards, without
/// those the loaded ones, and without those the revoked ones.
pub open spec fn is_owner(m: ClusterView, k: QualifiedKeyView, g: Seq<char>) -> bool {
    &&& m.grants.contains_key(g)
    &&& lies_in(k, m.grants[g].shard)
    &&& match m.grants[g].state {
        GrantState::Active => true,
        GrantState::AllocatedLoaded => !is_in_state(m, k, GrantState::Active),
        GrantState::Revoked => !is_in_state(m, k, GrantState::Active) && !is_in_state(
            m,
            k,
            GrantState::AllocatedLoaded,
        ),
        _ => false,
    }
}

proof fn lemma_owner_is_found(m: ClusterView, k: QualifiedKeyView, g: Seq<char>)
    ensures
        is_owner(m, k, g) <==> found(
            m,
            k,
            resolver_states(),
            g,
        ),
        is_owner(m, k, g) ==> !unowned(m, k),
{
    let states = resolver_states();
    assert(states[0] == GrantState::Active);
    assert(states[1] == GrantState::AllocatedLoaded);
    assert(states[2] == GrantState::Revoked);
    lemma_in_state_serves(m, k, GrantState::Active);
    lemma_in_state_serves(m, k, GrantState::AllocatedLoaded);
    lemma_in_state_serves(m, k, GrantState::Revoked);
    if is_owner(m, k, g) {
        let i: int = match m.grants[g].state {
            GrantState::Active => 0,
            GrantState::AllocatedLoaded => 1,
            _ => 2,
        };
        assert(serves(m, g, k, states[i]));
        assert forall|j: int, other: Seq<char>| 0 <= j < i implies !#[trigger] serves(
            m,
            other,
            k,
            states[j],
        ) by {
            if serves(m, other, k, states[j]) {
                assert(is_in_state(m, k, states[j]));
            }
        }
    }
    if found(m, k, states, g) {
        let i = choose|i: int|
            {
                &&& 0 <= i < states.len()
                &&& serves(m, g, k, #[trigger] states[i])
                &&& forall|j: int, other: Seq<char>|
                    0 <= j < i ==> !#[trigger] serves(m, other, k, states[j])
            };
        assert(m.grants[g].state == states[i]);
        if i > 0 && is_in_state(m, k, states[0]) {
            let h = choose|h: Seq<char>| #[trigger]
                serves(m, h, k, states[0]);
            assert(!serves(m, h, k, states[0]));
        }
        if i > 1 && is_in_state(m, k, states[1]) {
            let h = choose|h: Seq<char>| #[trigger]
                serves(m, h, k, states[1]);
            assert(!serves(m, h, k, states[1]));
        }
    }
}

/// A key of the resolver's domain resolves to the channel that the pool holds to the
/// holder of an owning grant: active, or without that loaded, or without that revoked
/// and still draining.
pub proof fn law_owned_key_resolves_to_its_owner<C>(
    resolver: &DomainResolver,
    m: &ClusterMap,
    pool: &ConnectionPool<C>,
    key: &QualifiedDomainKey,
    r: Result<&C, ClientError>,
    owned: Seq<char>,
)
    requires
        call_ensures(DomainResolver::channel::<C>, (resolver, m, pool, key), r),
        key@.domain == resolver@,
        is_owner(m@, key@, owned),
    ensures
        exists|g: Seq<char>| #[trigger]
            is_owner(m@, key@, g) && {
                let c = m@.grants[g].consumer;
                if c != pool@.self_id && pool@.entries.contains_key(c) {
                    r matches Ok(channel) && *channel == pool@.entries[c].channel
                } else {
                    r matches Err(ClientError::NoResolution)
                }
            },
{
    lemma_owner_is_found(m@, key@, owned);
    let out: Result<C, ErrorView> = match r {
        Ok(c) => Ok(*c),
        Err(e) => Err(e@),
    };
    let c = choose|c: u128| #[trigger]
        owns(m@, key@, c) && out == pool@.resolved(c);
    let g = choose|g: Seq<char>| #[trigger]
        found(m@, key@, resolver_states(), g)
            && m@.grants[g].consumer == c;
    lemma_owner_is_found(m@, key@, g);
}

/// A key that only one grant owns resolves to the holder of that grant, wherever the
/// pool holds a channel to it: whether the grant is active, loaded or revoked.
pub proof fn law_sole_owner_is_resolved<C>(
    resolver: &DomainResolver,
    m: &ClusterMap,
    pool: &ConnectionPool<C>,
    key: &QualifiedDomainKey,
    r: Result<&C, ClientError>,
    sole: Seq<char>,
)
    requires
        call_ensures(DomainResolver::channel::<C>, (resolver, m, pool, key), r),
        key@.domain == resolver@,
        m@.grants.contains_key(sole),
        lies_in(key@, m@.grants[sole].shard),
        m@.grants[sole].state is Active || m@.grants[sole].state is AllocatedLoaded
            || m@.grants[sole].state is Revoked,
        forall|g: Seq<char>| #[trigger]
            m@.grants.contains_key(g) && g != sole ==> !lies_in(key@, m@.grants[g].shard),
        m@.grants[sole].consumer != pool@.self_id,
        pool@.entries.contains_key(m@.grants[sole].consumer),
    ensures
        r matches Ok(channel) && *channel == pool@.entries[m@.grants[sole].consumer].channel,
{
    assert(is_owner(m@, key@, sole));
    law_owned_key_resolves_to_its_owner(resolver, m, pool, key, r, sole);
}

/// A key that no grant owns has no resolution and no location: grants that are only
/// allocated, unloaded or in no known state do not count.
pub proof fn law_unowned_key_is_not_resolved<C>(
    resolver: &DomainResolver,
    m: &ClusterMap,
    pool: &ConnectionPool<C>,
    key: &QualifiedDomainKey,
    r: Result<&C, ClientError>,
    place: Option<Location>,
)
    requires
        call_ensures(DomainResolver::channel::<C>, (resolver, m, pool, key), r),
        call_ensures(DomainResolver::location, (resolver, m, key), place),
        key@.domain == resolver@,
        forall|g: Seq<char>| !#[trigger] is_owner(m@, key@, g),
    ensures
        r matches Err(ClientError::NoResolution),
        place is None,
{
    assert forall|c: u128| !#[trigger] owns(m@, key@, c) by {
        if owns(m@, key@, c) {
            let g = choose|g: Seq<char>| #[trigger]
                found(m@, key@, resolver_states(), g)
                    && m@.grants[g].consumer == c;
            lemma_owner_is_found(m@, key@, g);
        }
    }
}

/// A key of another domain is refused, and the error names both domains.
pub proof fn law_foreign_key_is_refused<C>(
    resolver: &DomainResolver,
    m: &ClusterMap,
    pool: &ConnectionPool<C>,
    key: &QualifiedDomainKey,
    r: Result<&C, ClientError>,
)
    requires
        call_ensures(DomainResolver::channel::<C>, (resolver, m, pool, key), r),
        key@.domain != resolver@,
    ensures
        r matches Err(ClientError::InvalidMessage(text)) && text@
            == "resolver domain mismatch: "@ + domain_words(resolver@) + " vs "@ + domain_words(
            key@.domain,
        ),
{
    assert(domain_text(resolver@) =~= domain_words(resolver@));
    assert(domain_text(key@.domain) =~= domain_words(key@.domain));
}

/// A domain in words: its tenant, its service and its name.
pub open spec fn domain_words(d: DomainView) -> Seq<char> {
    d.service.tenant + "/"@ + d.service.service + "/"@ + d.name
}

/// The location of a key is that of the holder of an owning grant; there is none only
/// where no grant owns the key or the holder of one is not known.
pub proof fn law_location_is_that_of_an_owner(
    resolver: &DomainResolver,
    m: &ClusterMap,
    key: &QualifiedDomainKey,
    r: Option<Location>,
    owned: Seq<char>,
)
    requires
        call_ensures(DomainResolver::location, (resolver, m, key), r),
        is_owner(m@, key@, owned),
    ensures
        exists|g: Seq<char>| #[trigger]
            is_owner(m@, key@, g) && {
                let c = m@.grants[g].consumer;
                if m@.consumers.contains_key(c) {
                    r matches Some(l) && l@ == m@.consumers[c].consumer.location
                } else {
                    r is None
                }
            },
{
    lemma_owner_is_found(m@, key@, owned);
    let c = choose|c: u128| #[trigger]
        owns(m@, key@, c) && match r {
            Some(l) => m@.consumers.contains_key(c) && m@.consumers[c].consumer.location == l@,
            None => !m@.consumers.contains_key(c),
        };
    let g = choose|g: Seq<char>| #[trigger]
        found(m@, key@, resolver_states(), g)
            && m@.grants[g].consumer == c;
    lemma_owner_is_found(m@, key@, g);
}

/// A resolver is for the domain that it was made for.
pub proof fn law_resolver_keeps_its_domain(
    domain: QualifiedDomainName,
    resolver: DomainResolver,
    shown: &QualifiedDomainName,
)
    requires
        call_ensures(DomainResolver::new, (domain,), resolver),
        call_ensures(DomainResolver::domain, (&resolver,), shown),
    ensures
        resolver@ == domain@,
        shown@ == domain@,
{
}

/// A client is made once, from the channel that the pool holds to the holder of an
/// owning grant; on an error none is made.
pub proof fn law_client_is_made_from_the_owners_channel<C, T, F: Fn(&C) -> T>(
    resolver: &DomainResolver,
    m: &ClusterMap,
    pool: &ConnectionPool<C>,
    key: &QualifiedDomainKey,
    remote_fn: &mut RemoteFn<'_, C, T, F>,
    r: Result<T, ClientError>,
)
    requires
        call_ensures(DomainResolver::resolve::<C, T, F>, (resolver, m, pool, key, remote_fn), r),
    ensures
        r matches Ok(client) ==> {
            &&& key@.domain == resolver@
            &&& final(remote_fn)@.len() == old(remote_fn)@.len() + 1
            &&& final(remote_fn)@.drop_last() == old(remote_fn)@
            &&& final(remote_fn)@.last().client == client
            &&& call_ensures(
                old(remote_fn).make(),
                (&final(remote_fn)@.last().channel,),
                client,
            )
            &&& exists|g: Seq<char>| #[trigger]
                is_owner(m@, key@, g) && {
                    let c = m@.grants[g].consumer;
                    &&& c != pool@.self_id
                    &&& pool@.entries.contains_key(c)
                    &&& pool@.entries[c].channel == final(remote_fn)@.last().channel
                }
        },
        r is Err ==> final(remote_fn)@ == old(remote_fn)@,
        r is Err && key@.domain == resolver@ ==> r->Err_0 is NoResolution,
        r is Err && key@.domain == resolver@ ==> (forall|g: Seq<char>| !#[trigger] is_owner(m@, key@, g))
            || exists|g: Seq<char>| #[trigger]
            is_owner(m@, key@, g) && {
                let c = m@.grants[g].consumer;
                c == pool@.self_id || !pool@.entries.contains_key(c)
            },
        r is Err && key@.domain != resolver@ ==> r->Err_0 is InvalidMessage,
{
    let domain = resolver@;
    if let Ok(client) = r {
        let ch = choose|ch: C| #[trigger]
            resolves(domain, m@, pool@, key@, Ok(ch)) && call_ensures(
                old(remote_fn).make(),
                (&ch,),
                client,
            ) && final(remote_fn)@ == old(remote_fn)@.push(
                RemoteCall { channel: ch, client },
            );
        let c = choose|c: u128| #[trigger]
            owns(m@, key@, c) && Ok::<C, ErrorView>(ch)
                == pool@.resolved(c);
        let g = choose|g: Seq<char>| #[trigger]
            found(m@, key@, resolver_states(), g)
                && m@.grants[g].consumer == c;
        lemma_owner_is_found(m@, key@, g);
        assert(final(remote_fn)@.drop_last() =~= old(remote_fn)@);
    } else if key@.domain == domain {
        if !unowned(m@, key@) {
            let out: Result<C, ErrorView> = Err(r->Err_0@);
            let c = choose|c: u128| #[trigger]
                owns(m@, key@, c) && out == pool@.resolved(c);
            let g = choose|g: Seq<char>| #[trigger]
                found(m@, key@, resolver_states(), g)
                    && m@.grants[g].consumer == c;
            lemma_owner_is_found(m@, key@, g);
        } else {
            assert forall|g: Seq<char>| !#[trigger] is_owner(m@, key@, g) by {
                lemma_owner_is_found(m@, key@, g);
            }
        }
    }
}

} // verus!
