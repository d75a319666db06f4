//! Wire messages of the session sub-protocol.

use vstd::prelude::*;

use crate::location_pb;
use crate::pb::Timestamp;

verus! {

/// A session frame.
#[derive(Clone, Debug, PartialEq, Eq)]
pub struct Message {
    pub request: Option<Request>,
}

/// What a session frame asks or answers.
#[derive(Clone, Debug, PartialEq, Eq)]
pub enum Request {
    Establish(Establish),
    Established(Established),
    Heartbeat(Heartbeat),
    Ack(HeartbeatAck),
    Closed(Closed),
}

/// A client opens a session.
#[derive(Clone, Debug, PartialEq, Eq)]
pub struct Establish {
    pub client: Option<location_pb::Instance>,
    pub id: String,
}

/// The server confirms a session until `ttl`.
#[derive(Clone, Debug, PartialEq, Eq)]
pub struct Established {
    pub ttl: Option<Timestamp>,
    pub server: Option<location_pb::Instance>,
}

/// A client is still there.
#[derive(Clone, Debug, PartialEq, Eq)]
pub struct Heartbeat {
    pub now: Option<Timestamp>,
}

/// The server extends a session until `ttl`.
#[derive(Clone, Debug, PartialEq, Eq)]
pub struct HeartbeatAck {
    pub ttl: Option<Timestamp>,
}

/// Either side ends a session.
#[derive(Clone, Debug, PartialEq, Eq)]
pub struct Closed {
    pub error: String,
}

} // verus!
