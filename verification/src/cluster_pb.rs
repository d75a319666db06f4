//! Wire messages on the state of the cluster.

use vstd::prelude::*;

use crate::location_pb;
use crate::pb::{Instance, Shard, Timestamp};

verus! {

/// A new view of the cluster, or what changed in the last one.
#[derive(Clone, Debug, PartialEq, Eq)]
pub struct ClusterMessage {
    pub id: String,
    pub version: i64,
    pub timestamp: Option<Timestamp>,
    pub msg: Option<ClusterMsg>,
}

/// What a [`ClusterMessage`] carries.
#[derive(Clone, Debug, PartialEq, Eq)]
pub enum ClusterMsg {
    Snapshot(Snapshot),
    Change(Change),
}

/// The whole state of the cluster.
#[derive(Clone, Debug, PartialEq, Eq)]
pub struct Snapshot {
    pub shards: Vec<Shard>,
    pub origin: Option<location_pb::Instance>,
    pub assignments: Vec<Assignment>,
}

/// What changed since the last message. The parts apply in the order of the
/// fields.
#[derive(Clone, Debug, PartialEq, Eq)]
pub struct Change {
    pub shards: Option<Shards>,
    pub assign: Option<Assign>,
    pub update: Option<Update>,
    pub unassign: Option<Unassign>,
    pub remove: Option<Remove>,
}

/// The shards that there are now.
#[derive(Clone, Debug, PartialEq, Eq)]
pub struct Shards {
    pub shards: Vec<Shard>,
}

/// Grants that were given.
#[derive(Clone, Debug, PartialEq, Eq)]
pub struct Assign {
    pub assignments: Vec<Assignment>,
}

/// Grants with a new state.
#[derive(Clone, Debug, PartialEq, Eq)]
pub struct Update {
    pub grants: Vec<GrantInfo>,
}

/// Grants that ended, by id.
#[derive(Clone, Debug, PartialEq, Eq)]
pub struct Unassign {
    pub grants: Vec<String>,
}

/// Consumers that left, by id.
#[derive(Clone, Debug, PartialEq, Eq)]
pub struct Remove {
    pub consumers: Vec<String>,
}

/// The grants of one consumer.
#[derive(Clone, Debug, PartialEq, Eq)]
pub struct Assignment {
    pub consumer: Option<Instance>,
    pub grants: Vec<GrantInfo>,
}

/// A grant as the cluster sees it. `state` is the number of a grant state.
#[derive(Clone, Debug, PartialEq, Eq)]
pub struct GrantInfo {
    pub id: String,
    pub shard: Option<Shard>,
    pub state: i32,
}

} // verus!
