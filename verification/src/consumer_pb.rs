//! Wire messages between a consumer and the coordinator.

use vstd::prelude::*;

use crate::cluster_pb::ClusterMessage;
use crate::pb::{DomainKeyName, Grant, Instance, QualifiedDomainName, QualifiedServiceName};
use crate::pb::Timestamp;
use crate::session_pb;

verus! {

/// A frame of the join stream.
#[derive(Clone, Debug, PartialEq, Eq)]
pub struct JoinMessage {
    pub msg: Option<JoinMsg>,
}

/// What a [`JoinMessage`] carries.
#[derive(Clone, Debug, PartialEq, Eq)]
pub enum JoinMsg {
    Session(session_pb::Message),
    Consumer(ConsumerMessage),
}

/// A frame past the session layer.
#[derive(Clone, Debug, PartialEq, Eq)]
pub struct ConsumerMessage {
    pub msg: Option<ConsumerMsg>,
}

/// What a [`ConsumerMessage`] carries.
#[derive(Clone, Debug, PartialEq, Eq)]
pub enum ConsumerMsg {
    Cluster(ClusterMessage),
    Client(ClientMessage),
}

/// A message on the grants of this consumer.
#[derive(Clone, Debug, PartialEq, Eq)]
pub struct ClientMessage {
    pub msg: Option<ClientMsg>,
}

/// What a [`ClientMessage`] carries.
#[derive(Clone, Debug, PartialEq, Eq)]
pub enum ClientMsg {
    Register(Register),
    Deregister(Deregister),
    Assign(Assign),
    Promote(Promote),
    Revoke(Revoke),
    Released(Released),
    Update(Update),
    Notify(Notify),
    Extend(Extend),
    Status(StatusReport),
}

/// The consumer joins a service.
#[derive(Clone, Debug, PartialEq, Eq)]
pub struct Register {
    pub consumer: Option<Instance>,
    pub service: Option<QualifiedServiceName>,
    pub domains: Vec<QualifiedDomainName>,
    pub active: Vec<Grant>,
    pub options: Option<RegisterOptions>,
}

/// What a consumer asks for when it joins.
#[derive(Clone, Debug, PartialEq, Eq)]
pub struct RegisterOptions {
    pub names: Vec<DomainKeyName>,
    pub capacity_limit: u64,
}

/// The consumer leaves.
#[derive(Clone, Debug, PartialEq, Eq)]
pub struct Deregister {}

/// The coordinator gives grants.
#[derive(Clone, Debug, PartialEq, Eq)]
pub struct Assign {
    pub grants: Vec<Grant>,
}

/// The coordinator makes grants active.
#[derive(Clone, Debug, PartialEq, Eq)]
pub struct Promote {
    pub grants: Vec<Grant>,
}

/// The coordinator takes grants back, or the consumer asks it to.
#[derive(Clone, Debug, PartialEq, Eq)]
pub struct Revoke {
    pub grants: Vec<Grant>,
}

/// The consumer let go of grants.
#[derive(Clone, Debug, PartialEq, Eq)]
pub struct Released {
    pub grants: Vec<Grant>,
}

/// The consumer reports a grant's new state.
#[derive(Clone, Debug, PartialEq, Eq)]
pub struct Update {
    pub grant: Option<Grant>,
}

/// The coordinator passes on the new state of a grant's counterpart.
#[derive(Clone, Debug, PartialEq, Eq)]
pub struct Notify {
    pub target: Option<Grant>,
    pub update: Option<Grant>,
}

/// The coordinator extends all leases but those of revoked grants.
#[derive(Clone, Debug, PartialEq, Eq)]
pub struct Extend {
    pub lease: Option<Timestamp>,
}

/// The consumer reports its grants.
#[derive(Clone, Debug, PartialEq, Eq)]
pub struct StatusReport {
    pub active: Vec<Grant>,
}

} // verus!
