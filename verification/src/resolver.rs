//! Domain resolver: cluster lookup and pool.
//!
//! Given a `QualifiedDomainKey`, finds the owning consumer in a cluster snapshot and
//! the channel to it.

use vstd::prelude::*;

use crate::cluster::{ClusterMap, ClusterView};
use crate::cluster_laws::consistent;
use crate::cluster_model::{found, serves, unserved};
use crate::error::{ClientError, ErrorView};
use crate::ids::{
    domain_text, DomainView, GrantState, Location, QualifiedDomainKey, QualifiedDomainName,
    QualifiedKeyView,
};
use crate::pool::{ConnectionPool, PoolView};
use crate::remote::{RemoteCall, RemoteFn};

verus! {

/// Resolves the keys of one domain.
pub struct DomainResolver {
    domain: QualifiedDomainName,
    /// Grant states to consider during lookup, in priority order.
    preferred_states: Vec<GrantState>,
}

/// The grant states that a resolver considers, in priority order.
pub open spec fn resolver_states() -> Seq<GrantState> {
    seq![GrantState::Active, GrantState::AllocatedLoaded, GrantState::Revoked]
}

/// The view is the domain.
impl View for DomainResolver {
    type V = DomainView;

    closed spec fn view(&self) -> DomainView {
        self.domain@
    }
}

/// Whether a consumer owns a key as far as a resolver sees.
pub open spec fn owns(m: ClusterView, k: QualifiedKeyView, consumer: u128) -> bool {
    exists|gid: Seq<char>| #[trigger]
        found(m, k, resolver_states(), gid) && m.grants[gid].consumer == consumer
}

/// Whether nobody owns a key as far as a resolver sees.
pub open spec fn unowned(m: ClusterView, k: QualifiedKeyView) -> bool {
    unserved(m, k, resolver_states())
}

/// The text of the error for a key of another domain.
pub open spec fn domain_mismatch(mine: DomainView, other: DomainView) -> ErrorView {
    ErrorView::InvalidMessage(
        "resolver domain mismatch: "@ + domain_text(mine) + " vs "@ + domain_text(other),
    )
}

impl DomainResolver {
    #[verifier::type_invariant]
    spec fn has_states(self) -> bool {
        self.preferred_states@ == resolver_states()
    }

    /// A resolver for a domain.
    pub fn new(domain: QualifiedDomainName) -> (r: Self)
        ensures
            r@ == domain@,
    {
        let mut preferred_states: Vec<GrantState> = Vec::new();
        preferred_states.push(GrantState::Active);
        preferred_states.push(GrantState::AllocatedLoaded);
        preferred_states.push(GrantState::Revoked);
        assert(preferred_states@ =~= resolver_states());
        DomainResolver { domain, preferred_states }
    }

    /// The domain.
    pub fn domain(&self) -> (r: &QualifiedDomainName)
        ensures
            r@ == self@,
    {
        &self.domain
    }

    /// Look up the owning consumer's location without dialing.
    pub fn location(&self, cluster: &ClusterMap, key: &QualifiedDomainKey) -> (r: Option<Location>)
        ensures
            match r {
                Some(l) => exists|c: u128| #[trigger]
                    owns(cluster@, key@, c) && cluster@.consumers.contains_key(c)
                        && cluster@.consumers[c].consumer.location == l@,
                None => unowned(cluster@, key@) || exists|c: u128| #[trigger]
                    owns(cluster@, key@, c) && !cluster@.consumers.contains_key(c),
            },
    {
        proof {
            use_type_invariant(self);
        }
        match cluster.lookup(key, self.preferred_states.as_slice()) {
            None => None,
            Some(g) => {
                assert(owns(cluster@, key@, g@.consumer));
                match cluster.consumers.get(&g.consumer) {
                    Some(c) => {
                        let l = c.consumer.location.clone();
                        assert(cluster@.consumers[g@.consumer] == c@);
                        Some(l)
                    },
                    None => None,
                }
            },
        }
    }

    /// Resolve to a client of the owner, which `remote_fn` makes from the channel to it;
    /// it is called once on success, and not at all on an error.
    /// Returns `NoResolution` if the key is not owned, is owned by this consumer (caller
    /// should use the local path), or the peer hasn't advertised a server endpoint.
    pub fn resolve<C, T, F: Fn(&C) -> T>(
        &self,
        cluster: &ClusterMap,
        pool: &ConnectionPool<C>,
        key: &QualifiedDomainKey,
        remote_fn: &mut RemoteFn<'_, C, T, F>,
    ) -> (r: Result<T, ClientError>)
        requires
            forall|c: C| #[trigger] call_requires(old(remote_fn).make(), (&c,)),
        ensures
            final(remote_fn).make() == old(remote_fn).make(),
            match r {
                Ok(client) => exists|c: C| #[trigger]
                    resolves(self@, cluster@, pool@, key@, Ok(c)) && call_ensures(
                        old(remote_fn).make(),
                        (&c,),
                        client,
                    ) && final(remote_fn)@ == old(remote_fn)@.push(
                        RemoteCall { channel: c, client },
                    ),
                Err(e) => {
                    &&& resolves(self@, cluster@, pool@, key@, Err(e@))
                    &&& final(remote_fn)@ == old(remote_fn)@
                },
            },
    {
        match self.channel(cluster, pool, key) {
            Ok(channel) => {
                let client = remote_fn.call(channel);
                assert(resolves(self@, cluster@, pool@, key@, Ok(*channel)));
                Ok(client)
            },
            Err(e) => Err(e),
        }
    }

    /// The channel to the owner of a key.
    pub fn channel<'a, C>(
        &self,
        cluster: &ClusterMap,
        pool: &'a ConnectionPool<C>,
        key: &QualifiedDomainKey,
    ) -> (r: Result<&'a C, ClientError>)
        ensures
            resolves(
                self@,
                cluster@,
                pool@,
                key@,
                match r {
                    Ok(c) => Ok(*c),
                    Err(e) => Err(e@),
                },
            ),
    {
        proof {
            use_type_invariant(self);
        }
        if key.domain != self.domain {
            return Err(
                ClientError::InvalidMessage(
                    "resolver domain mismatch: ".to_owned().concat(
                        self.domain.to_string().as_str(),
                    ).concat(" vs ").concat(key.domain.to_string().as_str()),
                ),
            );
        }
        match cluster.lookup(key, self.preferred_states.as_slice()) {
            None => Err(ClientError::NoResolution),
            Some(g) => {
                assert(owns(cluster@, key@, g@.consumer));
                pool.resolve(&g.consumer)
            },
        }
    }
}

/// Whether resolving a key may come to a result: a key of another domain is refused;
/// otherwise the pool decides on the owner, and without an owner there is no
/// resolution.
pub open spec fn resolves<C>(
    domain: DomainView,
    m: ClusterView,
    pool: PoolView<C>,
    k: QualifiedKeyView,
    r: Result<C, ErrorView>,
) -> bool {
    if k.domain != domain {
        r == Err::<C, ErrorView>(domain_mismatch(domain, k.domain))
    } else if unowned(m, k) {
        r == Err::<C, ErrorView>(ErrorView::NoResolution)
    } else {
        exists|c: u128| #[trigger] owns(m, k, c) && r == pool.resolved(c)
    }
}

/// A key that this consumer itself owns, and nobody else, has no resolution.
pub proof fn law_own_keys_have_no_resolution<C>(
    domain: DomainView,
    m: ClusterView,
    pool: PoolView<C>,
    k: QualifiedKeyView,
    r: Result<C, ErrorView>,
)
    requires
        k.domain == domain,
        resolves(domain, m, pool, k, r),
        forall|c: u128| #[trigger] owns(m, k, c) ==> c == pool.self_id,
    ensures
        r == Err::<C, ErrorView>(ErrorView::NoResolution),
{
}

/// A key that some consumer serves as active resolves to a consumer that does.
pub proof fn law_active_owner_is_preferred<C>(
    domain: DomainView,
    m: ClusterView,
    pool: PoolView<C>,
    k: QualifiedKeyView,
    r: Result<C, ErrorView>,
    active: Seq<char>,
)
    requires
        k.domain == domain,
        resolves(domain, m, pool, k, r),
        serves(m, active, k, GrantState::Active),
    ensures
        exists|gid: Seq<char>| #[trigger]
            serves(m, gid, k, GrantState::Active) && r == pool.resolved(
                m.grants[gid].consumer,
            ),
{
    let states = resolver_states();
    assert(states[0] == GrantState::Active);
    assert(serves(m, active, k, states[0]));
    let c = choose|c: u128| #[trigger] owns(m, k, c) && r == pool.resolved(c);
    let gid = choose|gid: Seq<char>| #[trigger]
        found(m, k, states, gid) && m.grants[gid].consumer == c;
    let i = choose|i: int|
        {
            &&& 0 <= i < states.len()
            &&& serves(m, gid, k, #[trigger] states[i])
            &&& forall|j: int, other: Seq<char>|
                0 <= j < i ==> !#[trigger] serves(m, other, k, states[j])
        };
    assert(i == 0);
    assert(serves(m, gid, k, GrantState::Active));
}

/// In a consistent cluster the owner of a key is known, so a key that is owned has a
/// location.
pub proof fn law_owners_are_known(m: ClusterView, k: QualifiedKeyView, c: u128)
    requires
        consistent(m),
        owns(m, k, c),
    ensures
        m.consumers.contains_key(c),
{
}

} // verus!
