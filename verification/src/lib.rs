//! Client for a work splitter's data plane.
//!
//! A coordinator splits domains into shards and grants the shards to consumers. This
//! library holds what a consumer decides: everything in it is a function of plain
//! values, and sockets, clocks, tasks and locks belong to whoever calls it.
//!
//! # Module map
//!
//! - [`consumer`] — what a consumer makes of a join stream.
//! - [`ownership`] — per-grant lifecycle signals ([`Ownership`], [`Loader`],
//!   [`Unloader`]) and the `wait_for_*` helpers.
//! - [`cluster`] — immutable cluster-view snapshots ([`ClusterMap`]).
//! - [`pool`] (with [`dialer`]) — peer [`ConnectionPool`] keyed on `InstanceId`.
//! - [`dispatcher`] — which filter of a chain takes up a grant.
//! - [`processor`] — the handover of a grant, step by step.
//! - [`proxy`] (with [`inquiry`]), [`resolver`] (with [`remote`]) and [`retry`] — local and
//!   remote request routing with ownership-aware retries.
//! - [`session`] — the session sub-protocol.
//! - [`wrap`] — between wire messages ([`pb`], [`location_pb`], [`session_pb`],
//!   [`cluster_pb`], [`consumer_pb`]) and the types of [`ids`].
//! - [`peer`] — rules of a peer server.
//!
//! What messages mean is written down in [`cluster_model`] and [`consumer_model`], and
//! what holds of every sequence of them in [`cluster_laws`] and [`consumer_laws`]. What
//! single operations do, grant by grant and part by part, is stated in [`change_laws`],
//! [`driver_laws`], [`lookup_laws`] and [`wire_laws`].

pub mod change_laws;
pub mod cluster;
pub mod cluster_laws;
pub mod cluster_model;
pub mod cluster_pb;
pub mod consumer;
pub mod consumer_laws;
pub mod consumer_model;
pub mod consumer_pb;
pub mod dialer;
pub mod dispatcher;
pub mod driver_laws;
pub mod error;
pub mod grant_map;
pub mod ids;
pub mod inquiry;
pub mod latch;
pub mod location_pb;
pub mod lookup_laws;
pub mod names;
pub mod ownership;
pub mod pb;
pub mod peer;
pub mod pool;
pub mod processor;
pub mod proxy;
pub mod remote;
pub mod resolver;
pub mod retry;
pub mod seqs;
pub mod session;
pub mod session_pb;
pub mod statuses;
pub mod table;
pub mod text;
pub mod time;
pub mod uris;
pub mod uuids;
pub mod wire_laws;
pub mod wrap;

pub use cluster::{ClusterId, ClusterMap, ConsumerEntry, GrantEntry};
pub use consumer::{ConsumerOptions, Driver, GrantEvent};
pub use error::{ClientError, Result};
pub use grant_map::GrantMap;
pub use ids::{
    ConsumerId, DomainKey, DomainKeyName, DomainName, DomainType, Endpoint, GrantId, GrantState,
    Instance, InstanceId, InstanceName, Location, NodeName, QualifiedDomainKey,
    QualifiedDomainName, QualifiedServiceName, Region, ServiceName, Shard, TenantName,
};
pub use latch::{Latch, LatchReader};
pub use ownership::{Loader, Ownership, OwnershipState, Unloader};
pub use pool::ConnectionPool;
pub use processor::{GrantRun, RecordingRange};
pub use proxy::Proxy;
pub use resolver::DomainResolver;
pub use retry::OwnershipBackoff;
