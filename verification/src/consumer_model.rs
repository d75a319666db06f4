//! What a consumer makes of what it hears: functions on the view of its driver.

use vstd::prelude::*;

use crate::cluster::ClusterView;
use crate::cluster_model::applied;
use crate::cluster_pb::ClusterMessage;
use crate::consumer_pb::{
    ClientMessage, ClientMsg, ConsumerMsg, Extend, JoinMessage, JoinMsg, Notify, Register,
};
use crate::error::ErrorView;
use crate::ids::{GrantState, ShardView};
use crate::location_pb;
use crate::ownership::{fresh_ownership, revoked_state, OwnershipView};
use crate::pb;
use crate::pb::{Grant, Timestamp};
use crate::session::{event_of, SessionEventView};
use crate::session_pb;
use crate::time::MAX_TIME_NANOS;
use crate::wrap::{grant_state_of, shard_of, time_of, timestamp_of};

verus! {

/// The lease of a grant that comes without one, in nanoseconds.
pub const DEFAULT_LEASE_NANOS: u128 = 30_000_000_000;

/// What the driver knows of a grant.
#[verifier::ext_equal]
pub struct ActiveGrantView {
    /// The grant as it was assigned.
    pub assigned: Grant,
    /// The grant as the coordinator last sent it.
    pub pb_grant: Grant,
    pub ownership: OwnershipView,
    /// Whether the coordinator has asked for the grant to be revoked.
    pub revoked: bool,
}

/// What is told to whoever follows the grants.
#[verifier::ext_equal]
pub enum GrantEventView {
    Assigned { id: Seq<char>, shard: ShardView, ownership: OwnershipView },
    Removed { id: Seq<char>, ownership: OwnershipView },
}

/// What a driver has to say: to the coordinator, or to whoever follows the grants.
#[verifier::ext_equal]
pub enum EffectView {
    Send(OutboundView),
    Tell(GrantEventView),
}

/// What a frame says that a consumer sends.
#[verifier::ext_equal]
pub enum OutboundView {
    Establish { client: Option<location_pb::Instance>, id: Seq<char> },
    Heartbeat { now: Option<Timestamp> },
    Closed { error: Seq<char> },
    Register(Register),
    Deregister,
    Update { grant: Option<Grant> },
    Revoke { grants: Seq<Grant> },
    /// A frame of a kind that a consumer does not send.
    Foreign,
}

/// What a frame says that a consumer sends.
pub open spec fn outbound_of(m: JoinMessage) -> OutboundView {
    match m.msg {
        Some(JoinMsg::Session(s)) => match s.request {
            Some(session_pb::Request::Establish(e)) => OutboundView::Establish {
                client: e.client,
                id: e.id@,
            },
            Some(session_pb::Request::Heartbeat(h)) => OutboundView::Heartbeat { now: h.now },
            Some(session_pb::Request::Closed(c)) => OutboundView::Closed { error: c.error@ },
            _ => OutboundView::Foreign,
        },
        Some(JoinMsg::Consumer(c)) => match c.msg {
            Some(ConsumerMsg::Client(client)) => match client.msg {
                Some(ClientMsg::Register(r)) => OutboundView::Register(r),
                Some(ClientMsg::Deregister(_)) => OutboundView::Deregister,
                Some(ClientMsg::Update(u)) => OutboundView::Update { grant: u.grant },
                Some(ClientMsg::Revoke(r)) => OutboundView::Revoke { grants: r.grants@ },
                _ => OutboundView::Foreign,
            },
            _ => OutboundView::Foreign,
        },
        None => OutboundView::Foreign,
    }
}

/// A signal that the user of a grant gives.
#[derive(Copy, Clone, Debug, PartialEq, Eq, Structural)]
pub enum Signal {
    /// Loading has finished.
    Load,
    /// Unloading has finished.
    Unload,
    /// The grant should be revoked.
    RequestRevoke,
}

/// What a driver knows, and what it has to tell.
#[verifier::ext_equal]
pub struct DriverView {
    pub grants: Map<Seq<char>, ActiveGrantView>,
    pub cluster: ClusterView,
    /// Whether the cluster has changed since it was last taken.
    pub cluster_news: bool,
    /// Whether the driver has stopped.
    pub closed: bool,
    /// What has to be sent and told, in this order.
    pub outbox: Seq<EffectView>,
}

/// When the lease of a grant ends that comes at a time.
pub open spec fn lease_end(g: Grant, now: int) -> int {
    match g.lease {
        Some(ts) => time_of(ts),
        None => now + DEFAULT_LEASE_NANOS,
    }
}

/// The shard of a grant, where it has one that is valid.
pub open spec fn shard_of_grant(g: Grant) -> Option<ShardView> {
    match g.shard {
        None => None,
        Some(raw) => match shard_of(raw) {
            Ok(s) => Some(s),
            Err(_) => None,
        },
    }
}

/// The entry of a grant that is assigned at a time.
pub open spec fn fresh_entry(g: Grant, now: int) -> ActiveGrantView {
    let state = grant_state_of(g.state);
    ActiveGrantView {
        assigned: g,
        pb_grant: g,
        ownership: fresh_ownership(state, lease_end(g, now), now),
        revoked: revoked_state(state),
    }
}

/// A grant in another state.
pub open spec fn in_state(g: Grant, state: pb::GrantState) -> Grant {
    Grant { state: state.number(), ..g }
}

impl ActiveGrantView {
    /// The entry after the coordinator promotes the grant.
    pub open spec fn promoted(self, g: Grant) -> ActiveGrantView {
        ActiveGrantView { pb_grant: g, ownership: self.ownership.activated(), ..self }
    }

    /// The entry after the coordinator revokes the grant.
    pub open spec fn after_revoke(self, g: Grant) -> ActiveGrantView {
        let leased = match g.lease {
            Some(ts) => self.ownership.leased_until(time_of(ts)),
            None => self.ownership,
        };
        ActiveGrantView {
            pb_grant: g,
            revoked: true,
            ownership: leased.after_revoke(),
            ..self
        }
    }

    /// The entry after news of the counterpart.
    pub open spec fn notified(self, update: Grant) -> ActiveGrantView {
        ActiveGrantView {
            ownership: match grant_state_of(update.state) {
                GrantState::AllocatedLoaded => self.ownership.after_counterpart_loaded(),
                GrantState::RevokedUnloaded => self.ownership.after_counterpart_unloaded(),
                _ => self.ownership,
            },
            ..self
        }
    }

    /// The entry after a lease was extended: a grant on its way out keeps its lease.
    pub open spec fn extended(self, until: int) -> ActiveGrantView {
        if self.revoked {
            self
        } else {
            ActiveGrantView { ownership: self.ownership.leased_until(until), ..self }
        }
    }

    /// The entry after a signal of the user.
    pub open spec fn signalled(self, s: Signal) -> ActiveGrantView {
        ActiveGrantView {
            ownership: match s {
                Signal::Load => self.ownership.after_load(),
                Signal::Unload => self.ownership.after_unload(),
                Signal::RequestRevoke => self.ownership.asked_to_revoke(),
            },
            ..self
        }
    }

    /// Whether a signal was given before.
    pub open spec fn has_signalled(self, s: Signal) -> bool {
        match s {
            Signal::Load => self.ownership.loader.load,
            Signal::Unload => self.ownership.unloader.unload,
            Signal::RequestRevoke => self.ownership.revoke_requested,
        }
    }

    /// What the coordinator is told of a signal.
    pub open spec fn report(self, s: Signal) -> OutboundView {
        match s {
            Signal::Load => OutboundView::Update {
                grant: Some(in_state(self.assigned, pb::GrantState::AllocatedLoaded)),
            },
            Signal::Unload => OutboundView::Update {
                grant: Some(in_state(self.assigned, pb::GrantState::RevokedUnloaded)),
            },
            Signal::RequestRevoke => OutboundView::Revoke { grants: seq![self.assigned] },
        }
    }
}

impl DriverView {
    /// A known grant has another entry.
    pub open spec fn with_entry(self, id: Seq<char>, e: ActiveGrantView) -> DriverView {
        DriverView { grants: self.grants.insert(id, e), ..self }
    }

    /// A grant is forgotten. Its ownership has expired, and this is told.
    pub open spec fn without(self, id: Seq<char>) -> DriverView {
        if self.grants.contains_key(id) {
            DriverView {
                grants: self.grants.remove(id),
                outbox: self.outbox.push(self.farewell(id)),
                ..self
            }
        } else {
            self
        }
    }

    /// A grant is assigned. One of the same id is forgotten first. One without a
    /// valid shard is passed over.
    pub open spec fn assigned(self, g: Grant, now: int) -> DriverView {
        match shard_of_grant(g) {
            None => self,
            Some(shard) => {
                let before = self.without(g.id@);
                let entry = fresh_entry(g, now);
                DriverView {
                    grants: before.grants.insert(g.id@, entry),
                    outbox: before.outbox.push(
                        EffectView::Tell(
                            GrantEventView::Assigned {
                                id: g.id@,
                                shard,
                                ownership: entry.ownership,
                            },
                        ),
                    ),
                    ..before
                }
            },
        }
    }

    /// Grants are assigned, one after the other.
    pub open spec fn assigned_all(self, grants: Seq<Grant>, now: int) -> DriverView
        decreases grants.len(),
    {
        if grants.len() == 0 {
            self
        } else {
            self.assigned_all(grants.drop_last(), now).assigned(grants.last(), now)
        }
    }

    /// A grant is promoted; one that is not known is passed over.
    pub open spec fn promoted(self, g: Grant) -> DriverView {
        if self.grants.contains_key(g.id@) {
            self.with_entry(g.id@, self.grants[g.id@].promoted(g))
        } else {
            self
        }
    }

    /// Grants are promoted, one after the other.
    pub open spec fn promoted_all(self, grants: Seq<Grant>) -> DriverView
        decreases grants.len(),
    {
        if grants.len() == 0 {
            self
        } else {
            self.promoted_all(grants.drop_last()).promoted(grants.last())
        }
    }

    /// A grant is revoked; one that is not known is passed over.
    pub open spec fn after_revoke(self, g: Grant) -> DriverView {
        if self.grants.contains_key(g.id@) {
            self.with_entry(g.id@, self.grants[g.id@].after_revoke(g))
        } else {
            self
        }
    }

    /// Grants are revoked, one after the other.
    pub open spec fn revoked_all(self, grants: Seq<Grant>) -> DriverView
        decreases grants.len(),
    {
        if grants.len() == 0 {
            self
        } else {
            self.revoked_all(grants.drop_last()).after_revoke(grants.last())
        }
    }

    /// News of the counterpart of a grant; of one that is not known they are passed
    /// over.
    pub open spec fn notified(self, n: Notify) -> DriverView {
        match n.target {
            None => self,
            Some(target) => match n.update {
                None => self,
                Some(update) => if self.grants.contains_key(target.id@) {
                    self.with_entry(target.id@, self.grants[target.id@].notified(update))
                } else {
                    self
                },
            },
        }
    }

    /// The leases of all grants that are not on their way out are extended.
    pub open spec fn extended(self, e: Extend) -> DriverView {
        match e.lease {
            None => self,
            Some(ts) => DriverView {
                grants: self.grants.map_values(|a: ActiveGrantView| a.extended(time_of(ts))),
                ..self
            },
        }
    }

    /// What a message of the coordinator to this client does. Kinds that only a
    /// consumer sends are passed over.
    pub open spec fn told(self, msg: ClientMessage, now: int) -> DriverView {
        match msg.msg {
            None => self,
            Some(ClientMsg::Assign(a)) => self.assigned_all(a.grants@, now),
            Some(ClientMsg::Promote(p)) => self.promoted_all(p.grants@),
            Some(ClientMsg::Revoke(r)) => self.revoked_all(r.grants@),
            Some(ClientMsg::Notify(n)) => self.notified(n),
            Some(ClientMsg::Extend(e)) => self.extended(e),
            Some(ClientMsg::Register(_)) => self,
            Some(ClientMsg::Deregister(_)) => self,
            Some(ClientMsg::Released(_)) => self,
            Some(ClientMsg::Update(_)) => self,
            Some(ClientMsg::Status(_)) => self,
        }
    }

    /// What a message about the cluster does. One that cannot be taken up is passed
    /// over.
    pub open spec fn reclustered(self, msg: ClusterMessage) -> DriverView {
        match applied(self.cluster, msg) {
            Ok(cluster) => DriverView { cluster, cluster_news: true, ..self },
            Err(_) => self,
        }
    }

    /// What an inbound frame does to what the driver knows.
    pub open spec fn heard(self, join: JoinMessage, now: int) -> DriverView {
        match join.msg {
            Some(JoinMsg::Consumer(c)) => match c.msg {
                Some(ConsumerMsg::Cluster(cm)) => self.reclustered(cm),
                Some(ConsumerMsg::Client(client)) => self.told(client, now),
                None => self,
            },
            _ => self,
        }
    }

    /// A signal of the user: the first of its kind is reported to the coordinator,
    /// unless the grant has expired. On a grant that is not known nothing happens.
    pub open spec fn signalled(self, id: Seq<char>, s: Signal) -> DriverView {
        if self.grants.contains_key(id) {
            let e = self.grants[id];
            let next = self.with_entry(id, e.signalled(s));
            if e.has_signalled(s) || e.ownership.expired {
                next
            } else {
                next.sending(e.report(s))
            }
        } else {
            self
        }
    }

    /// A look at the clock for one grant.
    pub open spec fn timed(self, id: Seq<char>, now: int) -> DriverView {
        if self.grants.contains_key(id) {
            let e = self.grants[id];
            self.with_entry(id, ActiveGrantView { ownership: e.ownership.at(now), ..e })
        } else {
            self
        }
    }

    /// Something has to be sent.
    pub open spec fn sending(self, m: OutboundView) -> DriverView {
        DriverView { outbox: self.outbox.push(EffectView::Send(m)), ..self }
    }

    /// Whether a driver has become another by stopping: every grant is forgotten,
    /// which is told once of each, and the driver is closed.
    pub open spec fn stops_as(self, end: DriverView) -> bool {
        exists|ids: Seq<Seq<char>>|
            {
                &&& ids.no_duplicates()
                &&& ids.to_set() == self.grants.dom()
                &&& end == #[trigger] self.stopped(ids)
            }
    }

    /// The driver after its grants are forgotten in an order.
    pub open spec fn stopped(self, ids: Seq<Seq<char>>) -> DriverView {
        DriverView {
            grants: Map::empty(),
            closed: true,
            outbox: self.outbox + ids.map_values(|id: Seq<char>| self.farewell(id)),
            ..self
        }
    }

    /// What is told when a grant is forgotten.
    pub open spec fn farewell(self, id: Seq<char>) -> EffectView {
        EffectView::Tell(
            GrantEventView::Removed { id, ownership: self.grants[id].ownership.after_expiry() },
        )
    }
}

/// Whether the default lease of a grant that comes at a time can be expressed, where
/// the grant needs one.
pub open spec fn lease_fits(g: Grant, now: int) -> bool {
    shard_of_grant(g) is Some && g.lease is None ==> now + DEFAULT_LEASE_NANOS <= MAX_TIME_NANOS
}

/// Whether the default leases of the grants that a client message assigns can be
/// expressed.
pub open spec fn leases_fit(msg: ClientMessage, now: int) -> bool {
    msg.msg matches Some(ClientMsg::Assign(a)) ==> forall|i: int|
        0 <= i < a.grants@.len() ==> lease_fits(#[trigger] a.grants@[i], now)
}

/// Whether the default leases of the grants that a frame assigns can be expressed.
pub open spec fn frame_fits(join: JoinMessage, now: int) -> bool {
    match join.msg {
        Some(JoinMsg::Consumer(c)) => match c.msg {
            Some(ConsumerMsg::Client(client)) => leases_fit(client, now),
            _ => true,
        },
        _ => true,
    }
}

/// The end of the lease of the session that an inbound frame brings, or the error
/// with which it ends the session.
pub open spec fn session_news(join: JoinMessage) -> Result<Option<int>, ErrorView> {
    match join.msg {
        Some(JoinMsg::Session(s)) => match event_of(s) {
            Some(SessionEventView::Established { ttl }) => Ok(Some(ttl)),
            Some(SessionEventView::HeartbeatAck { ttl }) => Ok(Some(ttl)),
            Some(SessionEventView::Closed { error }) => Err(ErrorView::SessionClosed(error)),
            None => Ok(None),
        },
        _ => Ok(None),
    }
}

/// The frame that keeps the session alive.
pub open spec fn heartbeat_at(now: int) -> OutboundView {
    OutboundView::Heartbeat { now: Some(timestamp_of(now)) }
}

} // verus!
