//! Wire messages on where instances run.

use vstd::prelude::*;

use crate::pb::Timestamp;

verus! {

/// A location.
#[derive(Clone, Debug, PartialEq, Eq)]
pub struct Location {
    pub region: String,
    pub node: String,
}

/// An instance without its peer endpoint.
#[derive(Clone, Debug, PartialEq, Eq)]
pub struct Instance {
    pub id: String,
    pub location: Option<Location>,
    pub created: Option<Timestamp>,
    pub name: String,
}

} // verus!
