//! Consumer driver: what a consumer makes of a join stream, with the per-grant
//! ownership state machine.
//!
//! On each inbound client message the driver changes its grant table and closes the
//! appropriate ownership latches, and notes a [`GrantEvent`] for whoever follows the
//! grants. Signals of the user (loaded, unloaded, please revoke) become outbound
//! messages. Events and messages wait in the driver, in order, until they are taken, and
//! so do news of the cluster; sending them, the clock and the stream itself are the caller's.

use vstd::prelude::*;

use crate::cluster::{id_texts, ClusterMap};
use crate::cluster_model::empty_cluster;
use crate::consumer_model::{
    frame_fits, heartbeat_at, in_state, lease_fits, leases_fit, outbound_of, session_news,
    ActiveGrantView, DriverView, EffectView, GrantEventView, OutboundView,
};
use crate::consumer_pb::{
    ClientMessage, ClientMsg, ConsumerMessage, ConsumerMsg, Deregister, Extend, JoinMessage,
    JoinMsg, Notify, Register, RegisterOptions, Revoke, Update,
};
use crate::error::{ClientError, ErrorView, Status};
use crate::ids::{
    DomainKeyName, GrantId, GrantState, Instance, InstanceView, QualifiedServiceName, ServiceView,
    Shard,
};
use crate::location_pb;
use crate::ownership::{Ownership, OwnershipState, TimerStep};
use crate::pb;
use crate::pb::Grant;
use crate::session;
use crate::session::{heartbeat_due, SessionEvent};
use crate::table::Table;
use crate::time::{Duration, SystemTime};
use crate::uuids::{hyphenated, is_v4, random_uuid, uuid_text};
use crate::wrap::{
    encodes_instance, encodes_peer, grant_state_from_i32, read_shard, service_of,
    timestamp_to_system_time,
};

pub use crate::consumer_model::Signal;

verus! {

/// User-facing options for joining.
#[derive(Clone, Debug)]
pub struct ConsumerOptions {
    pub key_names: Vec<DomainKeyName>,
    pub capacity_limit: u64,
}

impl Default for ConsumerOptions {
    fn default() -> (o: Self)
        ensures
            o.key_names@ == Seq::<DomainKeyName>::empty(),
            o.capacity_limit == 0,
    {
        ConsumerOptions { key_names: Vec::new(), capacity_limit: 0 }
    }
}

impl ConsumerOptions {
    /// The options with one more key name.
    pub fn with_key_name(self, name: DomainKeyName) -> (o: Self)
        ensures
            o.key_names@ == self.key_names@.push(name),
            o.capacity_limit == self.capacity_limit,
    {
        let mut o = self;
        o.key_names.push(name);
        o
    }

    /// The options with another capacity limit.
    pub fn with_capacity_limit(self, limit: u64) -> (o: Self)
        ensures
            o.key_names == self.key_names,
            o.capacity_limit == limit,
    {
        ConsumerOptions { key_names: self.key_names, capacity_limit: limit }
    }
}

/// Noted whenever the grant table changes.
#[derive(Clone, Debug)]
pub enum GrantEvent {
    /// A grant is there, with what its ownership starts as.
    Assigned { id: GrantId, shard: Shard, ownership: OwnershipState },
    /// A grant is gone, with what its ownership ended as.
    Removed { id: GrantId, ownership: OwnershipState },
}

impl View for GrantEvent {
    type V = GrantEventView;

    open spec fn view(&self) -> GrantEventView {
        match *self {
            GrantEvent::Assigned { id, shard, ownership } => GrantEventView::Assigned {
                id: id@,
                shard: shard@,
                ownership: ownership@,
            },
            GrantEvent::Removed { id, ownership } => GrantEventView::Removed {
                id: id@,
                ownership: ownership@,
            },
        }
    }
}

/// What a driver has to say.
pub enum Effect {
    /// A frame to the coordinator.
    Send(JoinMessage),
    /// An event to whoever follows the grants.
    Tell(GrantEvent),
}

impl View for Effect {
    type V = EffectView;

    open spec fn view(&self) -> EffectView {
        match *self {
            Effect::Send(m) => EffectView::Send(outbound_of(m)),
            Effect::Tell(e) => EffectView::Tell(e@),
        }
    }
}

/// What the loop around a join stream woke up to.
pub enum Heard {
    /// The user wants to stop.
    Shutdown,
    /// A heartbeat is due.
    Tick,
    /// A frame came in.
    Frame(JoinMessage),
    /// The stream failed.
    Failed(Status),
    /// The stream ended.
    Ended,
    /// A heartbeat could not be sent.
    Unsent,
}

/// How the loop around a join stream goes on.
pub enum Flow {
    /// As before.
    Continue,
    /// Heartbeats are due at this interval from now on.
    Heartbeat(Duration),
    /// The loop ends with this result.
    Exit(Result<(), ClientError>),
}

struct ActiveGrant {
    assigned: Grant,
    pb_grant: Grant,
    ownership: Ownership,
    /// Whether the coordinator has asked us to revoke this grant. Tracked so that
    /// an extension refreshes only grants that are not revoked.
    revoked: bool,
}

impl View for ActiveGrant {
    type V = ActiveGrantView;

    closed spec fn view(&self) -> ActiveGrantView {
        ActiveGrantView {
            assigned: self.assigned,
            pb_grant: self.pb_grant,
            ownership: self.ownership@,
            revoked: self.revoked,
        }
    }
}

/// The state of a consumer on a join stream.
pub struct Driver {
    grants: Table<GrantId, ActiveGrant>,
    cluster: ClusterMap,
    cluster_news: bool,
    closed: bool,
    outbox: Vec<Effect>,
}

impl View for Driver {
    type V = DriverView;

    closed spec fn view(&self) -> DriverView {
        DriverView {
            grants: self.grants@.map_values(|a: ActiveGrant| a@),
            cluster: self.cluster@,
            cluster_news: self.cluster_news,
            closed: self.closed,
            outbox: effect_views(self.outbox@),
        }
    }
}

/// What a list of effects says.
pub open spec fn effect_views(effects: Seq<Effect>) -> Seq<EffectView> {
    effects.map_values(|e: Effect| e@)
}

// ---------- Outbound messages ----------

/// A client message inside a join stream.
pub open spec fn client_frame(msg: ClientMsg) -> JoinMessage {
    JoinMessage {
        msg: Some(
            JoinMsg::Consumer(
                ConsumerMessage {
                    msg: Some(ConsumerMsg::Client(ClientMessage { msg: Some(msg) })),
                },
            ),
        ),
    }
}

fn wrap_client(msg: ClientMsg) -> (r: JoinMessage)
    ensures
        r == client_frame(msg),
{
    JoinMessage {
        msg: Some(
            JoinMsg::Consumer(
                ConsumerMessage {
                    msg: Some(ConsumerMsg::Client(ClientMessage { msg: Some(msg) })),
                },
            ),
        ),
    }
}

/// The frame that tells of a grant in another state.
pub fn update_frame(grant: &Grant, state: pb::GrantState) -> (r: JoinMessage)
    ensures
        outbound_of(r) == (OutboundView::Update { grant: Some(in_state(*grant, state)) }),
{
    let updated = Grant {
        id: grant.id.clone(),
        shard: grant.shard.clone(),
        state: state.to_i32(),
        lease: grant.lease,
    };
    wrap_client(ClientMsg::Update(Update { grant: Some(updated) }))
}

/// The frame that asks for a grant to be revoked.
pub fn revoke_frame(grant: &Grant) -> (r: JoinMessage)
    ensures
        outbound_of(r) == (OutboundView::Revoke { grants: seq![*grant] }),
{
    let mut grants: Vec<Grant> = Vec::new();
    grants.push(grant.clone());
    assert(grants@ =~= seq![*grant]);
    wrap_client(ClientMsg::Revoke(Revoke { grants }))
}

/// Whether a registration is the one of a consumer of a service with options: it
/// names no domains and no grants, and passes the options on.
pub open spec fn registers(
    r: Register,
    consumer: InstanceView,
    service: ServiceView,
    key_names: Seq<DomainKeyName>,
    capacity_limit: u64,
) -> bool {
    &&& r.consumer matches Some(p) && encodes_peer(p, consumer)
    &&& r.service matches Some(s) && service_of(s) == service
    &&& r.domains@.len() == 0
    &&& r.active@.len() == 0
    &&& r.options matches Some(o) && {
        &&& o.capacity_limit == capacity_limit
        &&& o.names@.len() == key_names.len()
        &&& forall|i: int|
            0 <= i < key_names.len() ==> {
                &&& (#[trigger] o.names@[i]).domain == key_names[i].domain.0
                &&& o.names@[i].name == key_names[i].name
            }
    }
}

/// The frame that registers a consumer.
pub fn build_register(
    consumer: Instance,
    service: QualifiedServiceName,
    opts: &ConsumerOptions,
) -> (r: JoinMessage)
    ensures
        outbound_of(r) matches OutboundView::Register(reg) && registers(
            reg,
            consumer@,
            service@,
            opts.key_names@,
            opts.capacity_limit,
        ),
{
    let mut names: Vec<pb::DomainKeyName> = Vec::new();
    let mut i: usize = 0;
    while i < opts.key_names.len()
        invariant
            i <= opts.key_names@.len(),
            names@.len() == i,
            forall|j: int|
                0 <= j < i ==> {
                    &&& (#[trigger] names@[j]).domain == opts.key_names@[j].domain.0
                    &&& names@[j].name == opts.key_names@[j].name
                },
        decreases opts.key_names@.len() - i,
    {
        names.push(pb::DomainKeyName::from(opts.key_names[i].clone()));
        i = i + 1;
    }
    let register = Register {
        consumer: Some(pb::Instance::from(consumer)),
        service: Some(pb::QualifiedServiceName::from(service)),
        domains: Vec::new(),
        active: Vec::new(),
        options: Some(RegisterOptions { names, capacity_limit: opts.capacity_limit }),
    };
    wrap_client(ClientMsg::Register(register))
}

/// Whether two frames open a join stream: the consumer asks for a session, and then
/// registers.
pub open spec fn opens(
    frames: Seq<EffectView>,
    session_id: Seq<char>,
    consumer: InstanceView,
    service: ServiceView,
    key_names: Seq<DomainKeyName>,
    capacity_limit: u64,
) -> bool {
    &&& frames.len() == 2
    &&& frames[0] matches EffectView::Send(OutboundView::Establish { client, id }) && {
        &&& client matches Some(c) && encodes_instance(c, consumer)
        &&& id == session_id
    }
    &&& frames[1] matches EffectView::Send(OutboundView::Register(reg)) && registers(
        reg,
        consumer,
        service,
        key_names,
        capacity_limit,
    )
}

/// A driver that has heard nothing yet.
pub open spec fn idle_driver(outbox: Seq<EffectView>) -> DriverView {
    DriverView {
        grants: Map::empty(),
        cluster: empty_cluster(),
        cluster_news: false,
        closed: false,
        outbox,
    }
}

impl Driver {
    /// A driver for a session with a given id, with the frames that open the stream
    /// ready to be sent, so that the server does not have to wait for them.
    pub fn with_session(
        session_id: String,
        consumer: Instance,
        service: QualifiedServiceName,
        opts: &ConsumerOptions,
    ) -> (d: Self)
        ensures
            d@ == idle_driver(d@.outbox),
            opens(
                d@.outbox,
                session_id@,
                consumer@,
                service@,
                opts.key_names@,
                opts.capacity_limit,
            ),
    {
        let mut outbox: Vec<Effect> = Vec::new();
        outbox.push(
            Effect::Send(
                session::establish_frame(
                    location_pb::Instance::from(consumer.clone()),
                    session_id,
                ),
            ),
        );
        outbox.push(Effect::Send(build_register(consumer, service, opts)));
        let d = Driver {
            grants: Table::new(),
            cluster: ClusterMap::empty(),
            cluster_news: false,
            closed: false,
            outbox,
        };
        proof {
            assert(d@.grants =~= Map::empty());
        }
        d
    }

    /// A driver for a session of its own, with the frames that open the stream ready
    /// to be sent. The id of the session is a random UUID.
    pub fn new(consumer: Instance, service: QualifiedServiceName, opts: &ConsumerOptions) -> (d:
        Self)
        ensures
            d@ == idle_driver(d@.outbox),
            exists|id: u128| #[trigger]
                is_v4(id) && opens(
                    d@.outbox,
                    hyphenated(id),
                    consumer@,
                    service@,
                    opts.key_names@,
                    opts.capacity_limit,
                ),
    {
        let id: u128 = random_uuid();
        assert(is_v4(id));
        Driver::with_session(uuid_text(id), consumer, service, opts)
    }
}

// ---------- Taking what waits ----------

impl Driver {
    /// Takes what has to be sent and told. It is to be carried out in this order.
    pub fn take_outbox(&mut self) -> (r: Vec<Effect>)
        ensures
            effect_views(r@) == old(self)@.outbox,
            final(self)@ == (DriverView { outbox: Seq::empty(), ..old(self)@ }),
    {
        let mut out: Vec<Effect> = Vec::new();
        std::mem::swap(&mut out, &mut self.outbox);
        assert(effect_views(self.outbox@) =~= Seq::empty());
        out
    }

    /// Takes the cluster, where it has changed since it was last taken.
    pub fn take_cluster(&mut self) -> (r: Option<ClusterMap>)
        ensures
            match r {
                Some(c) => old(self)@.cluster_news && c@ == old(self)@.cluster,
                None => !old(self)@.cluster_news,
            },
            final(self)@ == (DriverView { cluster_news: false, ..old(self)@ }),
    {
        if self.cluster_news {
            self.cluster_news = false;
            Some(self.cluster.clone())
        } else {
            None
        }
    }

    /// The cluster as it is known.
    pub fn cluster(&self) -> (r: &ClusterMap)
        ensures
            r@ == self@.cluster,
    {
        &self.cluster
    }

    /// Whether the driver has stopped.
    pub fn is_closed(&self) -> (r: bool)
        ensures
            r == self@.closed,
    {
        self.closed
    }

    /// What the ownership of a grant that is known is like now.
    pub fn ownership(&self, id: &GrantId) -> (r: Option<OwnershipState>)
        ensures
            match r {
                Some(o) => self@.grants.contains_key(id@) && o@ == self@.grants[id@].ownership,
                None => !self@.grants.contains_key(id@),
            },
    {
        match self.grants.get(id) {
            Some(e) => Some(e.ownership.snapshot()),
            None => None,
        }
    }
}

// ---------- Changing ----------

impl Driver {
    fn tell(&mut self, e: GrantEvent)
        ensures
            final(self)@ == (DriverView {
                outbox: old(self)@.outbox.push(EffectView::Tell(e@)),
                ..old(self)@
            }),
    {
        let ghost before = self.outbox@;
        self.outbox.push(Effect::Tell(e));
        assert(effect_views(self.outbox@) =~= effect_views(before).push(EffectView::Tell(e@)));
    }

    fn send(&mut self, m: JoinMessage)
        ensures
            final(self)@ == old(self)@.sending(outbound_of(m)),
    {
        let ghost before = self.outbox@;
        self.outbox.push(Effect::Send(m));
        assert(effect_views(self.outbox@) =~= effect_views(before).push(
            EffectView::Send(outbound_of(m)),
        ));
    }

    fn take_entry(&mut self, id: &GrantId) -> (r: Option<ActiveGrant>)
        ensures
            match r {
                Some(e) => old(self)@.grants.contains_key(id@) && e@ == old(self)@.grants[id@],
                None => !old(self)@.grants.contains_key(id@),
            },
            final(self)@ == (DriverView {
                grants: old(self)@.grants.remove(id@),
                ..old(self)@
            }),
    {
        let ghost before = self@.grants;
        let e = self.grants.remove(id);
        assert(self@.grants =~= before.remove(id@));
        e
    }

    fn put_entry(&mut self, id: GrantId, e: ActiveGrant)
        ensures
            final(self)@ == old(self)@.with_entry(id@, e@),
    {
        let ghost before = self@.grants;
        self.grants.insert(id, e);
        assert(self@.grants =~= before.insert(id@, e@));
    }

    /// Forgets a grant.
    pub fn remove_grant(&mut self, id: GrantId)
        ensures
            final(self)@ == old(self)@.without(id@),
    {
        let ghost before = self@;
        match self.take_entry(&id) {
            Some(entry) => {
                let mut ownership = entry.ownership;
                ownership.expire();
                self.tell(GrantEvent::Removed { id, ownership: ownership.snapshot() });
            },
            None => {
                assert(self@.grants =~= before.grants);
            },
        }
    }

    fn on_assign(&mut self, g: Grant, now: SystemTime)
        requires
            lease_fits(g, now@),
        ensures
            final(self)@ == old(self)@.assigned(g, now@),
    {
        let ghost before = self@;
        let shard = match &g.shard {
            None => {
                return ;
            },
            Some(raw) => match read_shard(raw) {
                Ok(shard) => shard,
                Err(_) => {
                    return ;
                },
            },
        };
        let id = GrantId(g.id.clone());
        let state = grant_state_from_i32(g.state);
        let expiration = match &g.lease {
            Some(ts) => timestamp_to_system_time(ts),
            None => now.plus(Duration::from_secs(30)),
        };

        // A grant that is assigned again is a new grant: the old entry goes.
        if self.grants.contains(&id) {
            self.remove_grant(id.clone());
        } else {
            assert(!before.grants.contains_key(id@));
        }
        assert(self@ == before.without(id@));

        let ownership = Ownership::new(state, expiration, now);
        let revoked = match state {
            GrantState::Revoked | GrantState::RevokedUnloaded => true,
            _ => false,
        };
        let state_now = ownership.snapshot();
        let entry = ActiveGrant { assigned: g.clone(), pb_grant: g, ownership, revoked };
        self.put_entry(id.clone(), entry);
        self.tell(GrantEvent::Assigned { id, shard, ownership: state_now });
    }

    fn on_promote(&mut self, g: Grant)
        ensures
            final(self)@ == old(self)@.promoted(g),
    {
        let ghost before = self@;
        let id = GrantId(g.id.clone());
        match self.take_entry(&id) {
            Some(entry) => {
                let mut entry = entry;
                entry.pb_grant = g;
                entry.ownership.activate();
                self.put_entry(id, entry);
                assert(self@.grants =~= before.promoted(g).grants);
            },
            None => {
                assert(self@.grants =~= before.grants);
            },
        }
    }

    fn on_revoke(&mut self, g: Grant)
        ensures
            final(self)@ == old(self)@.after_revoke(g),
    {
        let ghost before = self@;
        let id = GrantId(g.id.clone());
        match self.take_entry(&id) {
            Some(entry) => {
                let mut entry = entry;
                entry.revoked = true;
                if let Some(ts) = &g.lease {
                    entry.ownership.set_expiration(timestamp_to_system_time(ts));
                }
                entry.pb_grant = g;
                entry.ownership.revoke();
                self.put_entry(id, entry);
                assert(self@.grants =~= before.after_revoke(g).grants);
            },
            None => {
                assert(self@.grants =~= before.grants);
            },
        }
    }

    fn on_notify(&mut self, n: Notify)
        ensures
            final(self)@ == old(self)@.notified(n),
    {
        let ghost before = self@;
        let target = match n.target {
            Some(target) => target,
            None => {
                return ;
            },
        };
        let update = match n.update {
            Some(update) => update,
            None => {
                return ;
            },
        };
        let id = GrantId(target.id);
        match self.take_entry(&id) {
            Some(entry) => {
                let mut entry = entry;
                match grant_state_from_i32(update.state) {
                    // Counterpart now loaded: our unloader may proceed.
                    GrantState::AllocatedLoaded => {
                        entry.ownership.counterpart_loaded();
                    },
                    // Counterpart now unloaded: our loader may proceed.
                    GrantState::RevokedUnloaded => {
                        entry.ownership.counterpart_unloaded();
                    },
                    _ => {},
                }
                self.put_entry(id, entry);
                assert(self@.grants =~= before.notified(n).grants);
            },
            None => {
                assert(self@.grants =~= before.grants);
            },
        }
    }

    fn on_extend(&mut self, e: Extend)
        ensures
            final(self)@ == old(self)@.extended(e),
    {
        let new_lease = match &e.lease {
            Some(ts) => timestamp_to_system_time(ts),
            None => {
                return ;
            },
        };
        let ghost before = self@;
        let ids = self.ids();
        let ghost keys = id_texts(ids@);
        let mut i: usize = 0;
        while i < ids.len()
            invariant
                i <= ids@.len(),
                keys == id_texts(ids@),
                keys.no_duplicates(),
                keys.to_set() == before.grants.dom(),
                self@ == (DriverView { grants: self@.grants, ..before }),
                self@.grants.dom() == before.grants.dom(),
                forall|j: int|
                    0 <= j < i ==> self@.grants[#[trigger] keys[j]]
                        == before.grants[keys[j]].extended(new_lease@),
                forall|j: int|
                    i <= j < keys.len() ==> self@.grants[#[trigger] keys[j]]
                        == before.grants[keys[j]],
            decreases ids@.len() - i,
        {
            let ghost last = self@.grants;
            assert(keys.to_set().contains(keys[i as int]));
            assert(ids@[i as int]@ == keys[i as int]);
            match self.take_entry(&ids[i]) {
                Some(entry) => {
                    let mut entry = entry;
                    if !entry.revoked {
                        entry.ownership.set_expiration(new_lease);
                    }
                    self.put_entry(ids[i].clone(), entry);
                    proof {
                        let k = keys[i as int];
                        assert(self@.grants =~= last.insert(
                            k,
                            before.grants[k].extended(new_lease@),
                        ));
                        assert(self@.grants.dom() =~= before.grants.dom());
                    }
                },
                None => {},
            }
            i = i + 1;
        }
        proof {
            let goal = before.extended(e).grants;
            assert forall|k: Seq<char>| #[trigger] goal.contains_key(k) implies self@.grants[k]
                == goal[k] by {
                assert(keys.to_set().contains(k));
                let j = choose|j: int| 0 <= j < keys.len() && keys[j] == k;
                assert(self@.grants[keys[j]] == before.grants[k].extended(new_lease@));
            }
            assert(self@.grants =~= goal);
        }
    }

    /// The ids of the grants that are known, each once.
    pub fn ids(&self) -> (r: Vec<GrantId>)
        ensures
            id_texts(r@).no_duplicates(),
            id_texts(r@).to_set() == self@.grants.dom(),
    {
        let n = self.grants.len();
        let ghost keys = self.grants.keys();
        let mut out: Vec<GrantId> = Vec::new();
        let mut i: usize = 0;
        while i < n
            invariant
                i <= n,
                n == keys.len(),
                keys == self.grants.keys(),
                out@.len() == i,
                forall|j: int| 0 <= j < i ==> (#[trigger] out@[j])@ == keys[j],
            decreases n - i,
        {
            out.push(self.grants.key_at(i).clone());
            i = i + 1;
        }
        proof {
            assert(id_texts(out@) =~= keys);
            assert(keys.to_set() =~= self@.grants.dom());
        }
        out
    }
}

// ---------- Hearing ----------

impl Driver {
    /// Takes up a message of the coordinator to this client.
    pub fn handle_client_message(&mut self, msg: ClientMessage, now: SystemTime)
        requires
            leases_fit(msg, now@),
        ensures
            final(self)@ == old(self)@.told(msg, now@),
    {
        let variant = match msg.msg {
            Some(variant) => variant,
            None => {
                return ;
            },
        };
        match variant {
            ClientMsg::Assign(a) => self.assign_all(&a.grants, now),
            ClientMsg::Promote(p) => self.promote_all(&p.grants),
            ClientMsg::Revoke(r) => self.revoke_all(&r.grants),
            ClientMsg::Notify(n) => self.on_notify(n),
            ClientMsg::Extend(e) => self.on_extend(e),
            // From a consumer to the coordinator only.
            ClientMsg::Register(_) => {},
            ClientMsg::Deregister(_) => {},
            ClientMsg::Released(_) => {},
            ClientMsg::Update(_) => {},
            ClientMsg::Status(_) => {},
        }
    }

    fn assign_all(&mut self, grants: &Vec<Grant>, now: SystemTime)
        requires
            forall|i: int| 0 <= i < grants@.len() ==> lease_fits(#[trigger] grants@[i], now@),
        ensures
            final(self)@ == old(self)@.assigned_all(grants@, now@),
    {
        let ghost before = self@;
        let mut i: usize = 0;
        assert(grants@.take(0) =~= Seq::empty());
        while i < grants.len()
            invariant
                i <= grants@.len(),
                forall|i: int| 0 <= i < grants@.len() ==> lease_fits(#[trigger] grants@[i], now@),
                self@ == before.assigned_all(grants@.take(i as int), now@),
            decreases grants@.len() - i,
        {
            assert(grants@.take(i + 1).drop_last() =~= grants@.take(i as int));
            self.on_assign(grants[i].clone(), now);
            i = i + 1;
        }
        assert(grants@.take(i as int) =~= grants@);
    }

    fn promote_all(&mut self, grants: &Vec<Grant>)
        ensures
            final(self)@ == old(self)@.promoted_all(grants@),
    {
        let ghost before = self@;
        let mut i: usize = 0;
        assert(grants@.take(0) =~= Seq::empty());
        while i < grants.len()
            invariant
                i <= grants@.len(),
                self@ == before.promoted_all(grants@.take(i as int)),
            decreases grants@.len() - i,
        {
            assert(grants@.take(i + 1).drop_last() =~= grants@.take(i as int));
            self.on_promote(grants[i].clone());
            i = i + 1;
        }
        assert(grants@.take(i as int) =~= grants@);
    }

    fn revoke_all(&mut self, grants: &Vec<Grant>)
        ensures
            final(self)@ == old(self)@.revoked_all(grants@),
    {
        let ghost before = self@;
        let mut i: usize = 0;
        assert(grants@.take(0) =~= Seq::empty());
        while i < grants.len()
            invariant
                i <= grants@.len(),
                self@ == before.revoked_all(grants@.take(i as int)),
            decreases grants@.len() - i,
        {
            assert(grants@.take(i + 1).drop_last() =~= grants@.take(i as int));
            self.on_revoke(grants[i].clone());
            i = i + 1;
        }
        assert(grants@.take(i as int) =~= grants@);
    }

    /// Takes up an inbound frame. Gives the end of the session's lease where the
    /// frame brings one, and the error with which the server closes the session.
    pub fn handle_inbound(&mut self, join: JoinMessage, now: SystemTime) -> (r: Result<
        Option<SystemTime>,
        ClientError,
    >)
        requires
            frame_fits(join, now@),
        ensures
            final(self)@ == old(self)@.heard(join, now@),
            match r {
                Ok(Some(ttl)) => session_news(join) == Ok::<Option<int>, ErrorView>(Some(ttl@)),
                Ok(None) => session_news(join) == Ok::<Option<int>, ErrorView>(None),
                Err(e) => session_news(join) == Err::<Option<int>, ErrorView>(e@),
            },
    {
        match join.msg {
            None => Ok(None),
            Some(JoinMsg::Session(session_msg)) => match session::classify(&session_msg) {
                Some(SessionEvent::Established { ttl }) => Ok(Some(ttl)),
                Some(SessionEvent::HeartbeatAck { ttl }) => Ok(Some(ttl)),
                Some(SessionEvent::Closed { error }) => Err(ClientError::SessionClosed(error)),
                None => Ok(None),
            },
            Some(JoinMsg::Consumer(c)) => {
                match c.msg {
                    Some(ConsumerMsg::Cluster(cm)) => {
                        match self.cluster.apply(cm) {
                            Ok(next) => {
                                self.cluster = next;
                                self.cluster_news = true;
                            },
                            Err(_) => {},
                        }
                    },
                    Some(ConsumerMsg::Client(client)) => {
                        self.handle_client_message(client, now);
                    },
                    None => {},
                }
                Ok(None)
            },
        }
    }

    /// Forgets every grant and closes the driver.
    pub fn stop(&mut self)
        ensures
            old(self)@.stops_as(final(self)@),
    {
        let ghost before = self@;
        let ids = self.ids();
        let ghost keys = id_texts(ids@);
        let ghost said = keys.map_values(|id: Seq<char>| before.farewell(id));
        let mut i: usize = 0;
        assert(before.outbox + said.take(0) =~= before.outbox);
        while i < ids.len()
            invariant
                i <= ids@.len(),
                keys == id_texts(ids@),
                keys.no_duplicates(),
                keys.to_set() == before.grants.dom(),
                said == keys.map_values(|id: Seq<char>| before.farewell(id)),
                self@ == (DriverView {
                    grants: self@.grants,
                    outbox: before.outbox + said.take(i as int),
                    ..before
                }),
                forall|k: Seq<char>| #[trigger]
                    self@.grants.contains_key(k) ==> before.grants.contains_key(k)
                        && self@.grants[k] == before.grants[k],
                forall|j: int|
                    0 <= j < i ==> !self@.grants.contains_key(#[trigger] keys[j]),
                forall|j: int|
                    i <= j < keys.len() ==> self@.grants.contains_key(#[trigger] keys[j]),
            decreases ids@.len() - i,
        {
            proof {
                assert(ids@[i as int]@ == keys[i as int]);
                assert(self@.grants.contains_key(keys[i as int]));
                assert(said.take(i + 1) =~= said.take(i as int).push(said[i as int]));
                assert(before.outbox + said.take(i + 1) =~= (before.outbox + said.take(
                    i as int,
                )).push(said[i as int]));
            }
            self.remove_grant(ids[i].clone());
            i = i + 1;
        }
        self.closed = true;
        proof {
            assert(said.take(i as int) =~= said);
            assert forall|k: Seq<char>| !#[trigger] self@.grants.contains_key(k) by {
                if self@.grants.contains_key(k) {
                    assert(keys.to_set().contains(k));
                    let j = choose|j: int| 0 <= j < keys.len() && keys[j] == k;
                    assert(!self@.grants.contains_key(keys[j]));
                }
            }
            assert(self@.grants =~= Map::empty());
            assert(self@ == before.stopped(keys));
        }
    }

    /// One turn of the loop around a join stream.
    pub fn step(&mut self, heard: Heard, now: SystemTime) -> (r: Flow)
        requires
            heard matches Heard::Frame(join) ==> frame_fits(join, now@),
        ensures
            turn(old(self)@, heard, now@, final(self)@, r),
    {
        match heard {
            Heard::Shutdown => {
                self.send(wrap_client(ClientMsg::Deregister(Deregister {  })));
                self.send(session::closed_frame("client shutdown"));
                self.stop();
                Flow::Exit(Ok(()))
            },
            Heard::Tick => {
                self.send(session::heartbeat_frame(now));
                Flow::Continue
            },
            Heard::Frame(join) => match self.handle_inbound(join, now) {
                Ok(Some(ttl)) => Flow::Heartbeat(session::heartbeat_delay(ttl, now)),
                Ok(None) => Flow::Continue,
                Err(e) => {
                    self.stop();
                    Flow::Exit(Err(e))
                },
            },
            Heard::Failed(status) => {
                self.stop();
                Flow::Exit(Err(ClientError::Transport(status)))
            },
            Heard::Ended => {
                self.stop();
                Flow::Exit(Err(ClientError::SessionClosed("stream ended".to_owned())))
            },
            Heard::Unsent => {
                self.stop();
                Flow::Exit(Err(ClientError::SessionClosed("outbound dropped".to_owned())))
            },
        }
    }

    /// Takes up a signal of the user of a grant.
    pub fn signal(&mut self, id: &GrantId, s: Signal)
        ensures
            final(self)@ == old(self)@.signalled(id@, s),
    {
        let ghost before = self@;
        match self.take_entry(id) {
            Some(entry) => {
                let mut entry = entry;
                let first = match s {
                    Signal::Load => entry.ownership.load(),
                    Signal::Unload => entry.ownership.unload(),
                    Signal::RequestRevoke => entry.ownership.request_revoke(),
                };
                let report = first && !entry.ownership.expired().is_closed();
                if report {
                    let m = match s {
                        Signal::Load => update_frame(
                            &entry.assigned,
                            pb::GrantState::AllocatedLoaded,
                        ),
                        Signal::Unload => update_frame(
                            &entry.assigned,
                            pb::GrantState::RevokedUnloaded,
                        ),
                        Signal::RequestRevoke => revoke_frame(&entry.assigned),
                    };
                    self.send(m);
                }
                self.put_entry(id.clone(), entry);
                assert(self@.grants =~= before.signalled(id@, s).grants);
            },
            None => {
                assert(self@.grants =~= before.grants);
            },
        }
    }

    /// One look of the expiration timer of a grant at the clock. The timer of a
    /// grant that is not known is done.
    pub fn timer(&mut self, id: &GrantId, now: SystemTime) -> (r: TimerStep)
        ensures
            final(self)@ == old(self)@.timed(id@, now@),
            match r {
                TimerStep::Stop => final(self)@.grants.contains_key(id@)
                    ==> final(self)@.grants[id@].ownership.expired,
                TimerStep::Sleep(d) => {
                    &&& final(self)@.grants.contains_key(id@)
                    &&& !final(self)@.grants[id@].ownership.expired
                    &&& d@ == final(self)@.grants[id@].ownership.expiration - now@
                    &&& d@ > 0
                },
            },
    {
        let ghost before = self@;
        match self.take_entry(id) {
            Some(entry) => {
                let mut entry = entry;
                let r = entry.ownership.timer_step(now);
                self.put_entry(id.clone(), entry);
                assert(self@.grants =~= before.timed(id@, now@).grants);
                r
            },
            None => {
                assert(self@.grants =~= before.grants);
                TimerStep::Stop
            },
        }
    }
}

/// Whether a turn of the loop around a join stream, on what it heard, takes a driver
/// from one state to another and goes on in a way. However the loop ends, the driver
/// stops.
pub open spec fn turn(
    d: DriverView,
    heard: Heard,
    now: int,
    next: DriverView,
    flow: Flow,
) -> bool {
    match heard {
        Heard::Shutdown => {
            &&& d.sending(OutboundView::Deregister).sending(
                OutboundView::Closed { error: "client shutdown"@ },
            ).stops_as(next)
            &&& flow matches Flow::Exit(Ok(()))
        },
        Heard::Tick => {
            &&& next == d.sending(heartbeat_at(now))
            &&& flow is Continue
        },
        Heard::Frame(join) => match session_news(join) {
            Ok(Some(ttl)) => {
                &&& next == d.heard(join, now)
                &&& flow matches Flow::Heartbeat(delay) && delay@ == heartbeat_due(ttl, now)
            },
            Ok(None) => {
                &&& next == d.heard(join, now)
                &&& flow is Continue
            },
            Err(error) => {
                &&& d.stops_as(next)
                &&& flow matches Flow::Exit(Err(e)) && e@ == error
            },
        },
        Heard::Failed(status) => {
            &&& d.stops_as(next)
            &&& flow matches Flow::Exit(Err(e)) && e@ == ErrorView::Transport(status@)
        },
        Heard::Ended => {
            &&& d.stops_as(next)
            &&& flow matches Flow::Exit(Err(e)) && e@ == ErrorView::SessionClosed("stream ended"@)
        },
        Heard::Unsent => {
            &&& d.stops_as(next)
            &&& flow matches Flow::Exit(Err(e)) && e@ == ErrorView::SessionClosed(
                "outbound dropped"@,
            )
        },
    }
}

/// How the task of a join stream ended.
pub enum TaskEnd {
    /// It had ended before.
    Gone,
    /// It ended with this result.
    Done(Result<(), ClientError>),
    /// It was cancelled.
    Cancelled,
    /// It broke off.
    Broken(String),
}

/// What shutting a join stream down comes to.
pub fn shutdown_result(end: TaskEnd) -> (r: Result<(), ClientError>)
    ensures
        r == match end {
            TaskEnd::Gone => Ok(()),
            TaskEnd::Done(result) => result,
            TaskEnd::Cancelled => Ok(()),
            TaskEnd::Broken(m) => Err(ClientError::SessionClosed(m)),
        },
{
    match end {
        TaskEnd::Gone => Ok(()),
        TaskEnd::Done(result) => result,
        TaskEnd::Cancelled => Ok(()),
        TaskEnd::Broken(m) => Err(ClientError::SessionClosed(m)),
    }
}

} // verus!
