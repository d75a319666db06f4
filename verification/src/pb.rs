//! Wire messages of the model: names, keys, shards and grants.
//!
//! These mirror the fields of the protocol's messages. A nested message may be
//! absent on the wire, so it is an `Option`; an enumeration travels as a number.

use vstd::prelude::*;

use crate::location_pb;

verus! {

/// Seconds and nanoseconds from the Unix epoch.
#[derive(Copy, Clone, Debug, PartialEq, Eq, Structural)]
pub struct Timestamp {
    pub seconds: i64,
    pub nanos: i32,
}

/// An instance with its peer endpoint.
#[derive(Clone, Debug, PartialEq, Eq)]
pub struct Instance {
    pub instance: Option<location_pb::Instance>,
    pub endpoint: String,
}

/// A service with its tenant.
#[derive(Debug, PartialEq, Eq)]
pub struct QualifiedServiceName {
    pub tenant: String,
    pub service: String,
}

impl Clone for QualifiedServiceName {
    fn clone(&self) -> (r: Self)
        ensures
            r == *self,
    {
        QualifiedServiceName { tenant: self.tenant.clone(), service: self.service.clone() }
    }
}

/// A domain with its service.
#[derive(Debug, PartialEq, Eq)]
pub struct QualifiedDomainName {
    pub service: Option<QualifiedServiceName>,
    pub name: String,
}

impl Clone for QualifiedDomainName {
    fn clone(&self) -> (r: Self)
        ensures
            r == *self,
    {
        let service = match &self.service {
            Some(s) => Some(s.clone()),
            None => None,
        };
        QualifiedDomainName { service, name: self.name.clone() }
    }
}

/// A key within a domain.
#[derive(Clone, Debug, PartialEq, Eq)]
pub struct DomainKey {
    pub region: String,
    pub key: String,
}

/// A key with its domain.
#[derive(Clone, Debug, PartialEq, Eq)]
pub struct QualifiedDomainKey {
    pub domain: Option<QualifiedDomainName>,
    pub key: Option<DomainKey>,
}

/// A label for a key of a domain.
#[derive(Clone, Debug, PartialEq, Eq)]
pub struct DomainKeyName {
    pub domain: String,
    pub name: String,
}

/// How a domain is sharded.
#[derive(Copy, Clone, Debug, PartialEq, Eq, Structural)]
pub enum DomainType {
    Invalid,
    Unit,
    Global,
    Regional,
}

impl DomainType {
    /// The number that stands for a domain type on the wire.
    pub open spec fn number(self) -> i32 {
        match self {
            DomainType::Invalid => 0,
            DomainType::Unit => 1,
            DomainType::Global => 2,
            DomainType::Regional => 3,
        }
    }

    /// The number that stands for this domain type.
    pub fn to_i32(self) -> (v: i32)
        ensures
            v == self.number(),
    {
        match self {
            DomainType::Invalid => 0,
            DomainType::Unit => 1,
            DomainType::Global => 2,
            DomainType::Regional => 3,
        }
    }

    /// The domain type that a number stands for, if there is one.
    pub fn from_i32(v: i32) -> (r: Option<DomainType>)
        ensures
            match r {
                Some(d) => d.number() == v,
                None => forall|d: DomainType| #![trigger d.number()] d.number() != v,
            },
    {
        match v {
            0 => Some(DomainType::Invalid),
            1 => Some(DomainType::Unit),
            2 => Some(DomainType::Global),
            3 => Some(DomainType::Regional),
            _ => None,
        }
    }
}

/// The life-cycle state of a grant.
#[derive(Copy, Clone, Debug, PartialEq, Eq, Structural)]
pub enum GrantState {
    Unknown,
    Active,
    Allocated,
    Revoked,
    AllocatedLoaded,
    RevokedUnloaded,
}

impl GrantState {
    /// The number that stands for a grant state on the wire.
    pub open spec fn number(self) -> i32 {
        match self {
            GrantState::Unknown => 0,
            GrantState::Active => 1,
            GrantState::Allocated => 2,
            GrantState::Revoked => 3,
            GrantState::AllocatedLoaded => 4,
            GrantState::RevokedUnloaded => 5,
        }
    }

    /// The number that stands for this grant state.
    pub fn to_i32(self) -> (v: i32)
        ensures
            v == self.number(),
    {
        match self {
            GrantState::Unknown => 0,
            GrantState::Active => 1,
            GrantState::Allocated => 2,
            GrantState::Revoked => 3,
            GrantState::AllocatedLoaded => 4,
            GrantState::RevokedUnloaded => 5,
        }
    }

    /// The grant state that a number stands for, if there is one.
    pub fn from_i32(v: i32) -> (r: Option<GrantState>)
        ensures
            match r {
                Some(s) => s.number() == v,
                None => forall|s: GrantState| #![trigger s.number()] s.number() != v,
            },
    {
        match v {
            0 => Some(GrantState::Unknown),
            1 => Some(GrantState::Active),
            2 => Some(GrantState::Allocated),
            3 => Some(GrantState::Revoked),
            4 => Some(GrantState::AllocatedLoaded),
            5 => Some(GrantState::RevokedUnloaded),
            _ => None,
        }
    }
}

/// A range of a domain's keys. `kind` is the number of a [`DomainType`].
#[derive(Debug, PartialEq, Eq)]
pub struct Shard {
    pub domain: Option<QualifiedDomainName>,
    pub kind: i32,
    pub region: String,
    pub from: String,
    pub to: String,
}

impl Clone for Shard {
    fn clone(&self) -> (r: Self)
        ensures
            r == *self,
    {
        let domain = match &self.domain {
            Some(d) => Some(d.clone()),
            None => None,
        };
        Shard {
            domain,
            kind: self.kind,
            region: self.region.clone(),
            from: self.from.clone(),
            to: self.to.clone(),
        }
    }
}

/// A shard given to a consumer until `lease`. `state` is the number of a
/// [`GrantState`].
#[derive(Debug, PartialEq, Eq)]
pub struct Grant {
    pub id: String,
    pub shard: Option<Shard>,
    pub state: i32,
    pub lease: Option<Timestamp>,
}

impl Clone for Grant {
    fn clone(&self) -> (r: Self)
        ensures
            r == *self,
    {
        let shard = match &self.shard {
            Some(s) => Some(s.clone()),
            None => None,
        };
        Grant { id: self.id.clone(), shard, state: self.state, lease: self.lease }
    }
}

} // verus!
