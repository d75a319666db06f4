//! Conversions between wire messages and domain types.
//!
//! A conversion that can fail is a `TryFrom`; it fails with
//! [`ClientError::InvalidMessage`] where a required field is missing. One that only
//! changes the shape is a `From`.

use vstd::prelude::*;
use vstd::string::*;

use crate::error::{ClientError, ErrorView};
use crate::ids::{
    DomainKey, DomainKeyName, DomainName, DomainType, DomainView, Endpoint, GrantState, Instance,
    InstanceId, InstanceName, InstanceView, InvalidInstanceId, KeyView, Location, LocationView,
    NodeName, QualifiedDomainKey, QualifiedDomainName, QualifiedKeyView, QualifiedServiceName,
    Region, ServiceName, ServiceView, Shard, ShardView, TenantName,
};
use crate::location_pb;
use crate::pb;
use crate::pb::Timestamp;
use crate::time::{SystemTime, NANOS_PER_SEC};
use crate::uuids::{hyphenated, parsed_uuid, reads_as};

verus! {

// ---------- Required fields ----------

/// The error on a missing field.
pub open spec fn missing(field: Seq<char>) -> ErrorView {
    ErrorView::InvalidMessage("missing field: "@ + field)
}

/// The value of a field that must be there.
pub fn required<T>(value: Option<T>, field: &str) -> (r: Result<T, ClientError>)
    ensures
        match r {
            Ok(v) => value == Some(v),
            Err(e) => value is None && e@ == missing(field@),
        },
{
    match value {
        Some(v) => Ok(v),
        None => Err(ClientError::InvalidMessage("missing field: ".to_owned().concat(field))),
    }
}

// ---------- Time ----------

/// The point of time that a timestamp stands for; negative parts count as zero.
pub open spec fn time_of(ts: Timestamp) -> int {
    let secs: int = if ts.seconds < 0 { 0 } else { ts.seconds as int };
    let nanos: int = if ts.nanos < 0 { 0 } else { ts.nanos as int };
    secs * NANOS_PER_SEC + nanos
}

/// The timestamp of a point of time; one before the epoch counts as the epoch.
pub open spec fn timestamp_of(t: int) -> Timestamp {
    if t < 0 {
        Timestamp { seconds: 0, nanos: 0 }
    } else {
        Timestamp {
            seconds: (t / NANOS_PER_SEC as int) as i64,
            nanos: (t % NANOS_PER_SEC as int) as i32,
        }
    }
}

pub fn timestamp_to_system_time(ts: &Timestamp) -> (t: SystemTime)
    ensures
        t@ == time_of(*ts),
{
    let secs: i64 = if ts.seconds < 0 { 0 } else { ts.seconds };
    let nanos: i32 = if ts.nanos < 0 { 0 } else { ts.nanos };
    let total: i128 = (secs as i128) * 1_000_000_000 + nanos as i128;
    match SystemTime::from_epoch_nanos(total) {
        Some(t) => t,
        None => SystemTime::unix_epoch(),
    }
}

pub fn system_time_to_timestamp(t: SystemTime) -> (ts: Timestamp)
    ensures
        ts == timestamp_of(t@),
{
    match t.duration_since(SystemTime::unix_epoch()) {
        Some(d) => {
            let secs: u64 = d.as_secs();
            let nanos: u32 = d.subsec_nanos();
            proof {
                lemma_cast_through(secs);
            }
            Timestamp {
                seconds: #[verifier::truncate]
                (secs as i64),
                nanos: nanos as i32,
            }
        },
        None => Timestamp { seconds: 0, nanos: 0 },
    }
}

proof fn lemma_cast_through(secs: u64)
    ensures
        (secs as int) as i64 == secs as i64,
{
}

/// A point of time between the epoch and the last second of a timestamp is read
/// back from its timestamp.
pub proof fn law_time_survives_the_wire(t: int)
    requires
        0 <= t < (i64::MAX + 1) * NANOS_PER_SEC,
    ensures
        time_of(timestamp_of(t)) == t,
{
}

/// A timestamp with no negative part and less than a second of nanoseconds is
/// written again as it was read.
pub proof fn law_timestamp_survives_the_clock(ts: Timestamp)
    requires
        ts.seconds >= 0,
        0 <= ts.nanos < NANOS_PER_SEC,
    ensures
        timestamp_of(time_of(ts)) == ts,
{
}

/// A point of time before the epoch travels as the epoch.
pub proof fn law_times_before_the_epoch_travel_as_the_epoch(t: int)
    requires
        t < 0,
    ensures
        time_of(timestamp_of(t)) == 0,
{
}

// ---------- Location / Instance ----------

impl From<location_pb::Location> for Location {
    fn from(p: location_pb::Location) -> (r: Self) {
        Location { region: Region(p.region), node: NodeName(p.node) }
    }
}

impl vstd::std_specs::convert::FromSpecImpl<location_pb::Location> for Location {
    open spec fn obeys_from_spec() -> bool {
        true
    }

    open spec fn from_spec(p: location_pb::Location) -> Self {
        Location { region: Region(p.region), node: NodeName(p.node) }
    }
}

impl From<Location> for location_pb::Location {
    fn from(p: Location) -> (r: Self) {
        location_pb::Location { region: p.region.0, node: p.node.0 }
    }
}

impl vstd::std_specs::convert::FromSpecImpl<Location> for location_pb::Location {
    open spec fn obeys_from_spec() -> bool {
        true
    }

    open spec fn from_spec(p: Location) -> Self {
        location_pb::Location { region: p.region.0, node: p.node.0 }
    }
}

/// What a location on the wire stands for; an absent one is the empty location.
pub open spec fn location_of(p: Option<location_pb::Location>) -> LocationView {
    match p {
        Some(l) => LocationView { region: l.region@, node: l.node@ },
        None => LocationView { region: Seq::empty(), node: Seq::empty() },
    }
}

/// The error on a text that is no instance id.
pub open spec fn bad_instance_id(id: Seq<char>, reason: Seq<char>) -> ErrorView {
    ErrorView::InvalidMessage("invalid instance id '"@ + id + "': "@ + reason)
}

/// What an instance on the wire stands for, given what its id reads as. It has no
/// endpoint.
pub open spec fn instance_with_id(
    p: location_pb::Instance,
    parsed: Result<u128, Seq<char>>,
) -> Result<InstanceView, ErrorView> {
    match p.created {
        None => Err(missing("location.Instance.created"@)),
        Some(created) => match parsed {
            Err(reason) => Err(bad_instance_id(p.id@, reason)),
            Ok(id) => Ok(
                InstanceView {
                    id,
                    location: location_of(p.location),
                    name: p.name@,
                    created: time_of(created),
                    endpoint: Seq::empty(),
                },
            ),
        },
    }
}

/// What an instance on the wire stands for.
pub open spec fn instance_of(p: location_pb::Instance) -> Result<InstanceView, ErrorView> {
    instance_with_id(p, parsed_uuid(p.id@))
}

/// What an instance with an endpoint on the wire stands for.
pub open spec fn peer_of(p: pb::Instance) -> Result<InstanceView, ErrorView> {
    match p.instance {
        None => Err(missing("Instance.instance"@)),
        Some(inner) => match instance_of(inner) {
            Err(e) => Err(e),
            Ok(i) => Ok(InstanceView { endpoint: p.endpoint@, ..i }),
        },
    }
}

/// Whether a result is the one that a view describes.
pub open spec fn yields<T: View>(r: Result<T, ClientError>, v: Result<T::V, ErrorView>) -> bool {
    match r {
        Ok(x) => v == Ok::<T::V, ErrorView>(x@),
        Err(e) => v == Err::<T::V, ErrorView>(e@),
    }
}

/// The view of what reading an id gave.
pub open spec fn id_view(parsed: Result<InstanceId, InvalidInstanceId>) -> Result<u128, Seq<char>> {
    match parsed {
        Ok(id) => Ok(id@),
        Err(e) => Err(e.reason@),
    }
}

/// Builds an instance from its wire form and what its id read as.
pub fn build_instance(
    p: &location_pb::Instance,
    parsed: Result<InstanceId, InvalidInstanceId>,
) -> (r: Result<Instance, ClientError>)
    ensures
        yields(r, instance_with_id(*p, id_view(parsed))),
{
    let created = match required(p.created, "location.Instance.created") {
        Ok(c) => c,
        Err(e) => {
            return Err(e);
        },
    };
    let id = match parsed {
        Ok(id) => id,
        Err(e) => {
            let head = "invalid instance id '".to_owned().concat(p.id.as_str());
            return Err(
                ClientError::InvalidMessage(head.concat("': ").concat(e.reason.as_str())),
            );
        },
    };
    let location = match &p.location {
        Some(l) => Location {
            region: Region(l.region.clone()),
            node: NodeName(l.node.clone()),
        },
        None => Location::default(),
    };
    Ok(
        Instance {
            id,
            location,
            name: InstanceName(p.name.clone()),
            created: timestamp_to_system_time(&created),
            endpoint: Endpoint::default(),
        },
    )
}

/// Reads an instance without an endpoint.
pub fn read_instance(p: &location_pb::Instance) -> (r: Result<Instance, ClientError>)
    ensures
        yields(r, instance_of(*p)),
{
    let parsed = InstanceId::try_from(p.id.as_str());
    build_instance(p, parsed)
}

/// Reads an instance with its endpoint.
pub fn read_peer(p: &pb::Instance) -> (r: Result<Instance, ClientError>)
    ensures
        yields(r, peer_of(*p)),
{
    match &p.instance {
        None => required(None, "Instance.instance"),
        Some(inner) => match read_instance(inner) {
            Err(e) => Err(e),
            Ok(i) => Ok(Instance { endpoint: Endpoint(p.endpoint.clone()), ..i }),
        },
    }
}

impl TryFrom<location_pb::Instance> for Instance {
    type Error = ClientError;

    fn try_from(p: location_pb::Instance) -> (r: Result<Self, ClientError>)
        ensures
            yields(r, instance_of(p)),
    {
        read_instance(&p)
    }
}

impl vstd::std_specs::convert::TryFromSpecImpl<location_pb::Instance> for Instance {
    open spec fn obeys_try_from_spec() -> bool {
        false
    }

    open spec fn try_from_spec(p: location_pb::Instance) -> Result<Self, ClientError> {
        choose|r: Result<Self, ClientError>| yields(r, instance_of(p))
    }
}

impl TryFrom<pb::Instance> for Instance {
    type Error = ClientError;

    fn try_from(p: pb::Instance) -> (r: Result<Self, ClientError>)
        ensures
            yields(r, peer_of(p)),
    {
        read_peer(&p)
    }
}

impl vstd::std_specs::convert::TryFromSpecImpl<pb::Instance> for Instance {
    open spec fn obeys_try_from_spec() -> bool {
        false
    }

    open spec fn try_from_spec(p: pb::Instance) -> Result<Self, ClientError> {
        choose|r: Result<Self, ClientError>| yields(r, peer_of(p))
    }
}

/// Whether a wire message is the one of an instance. Its id is the hyphenated form,
/// which reads back as that id.
pub open spec fn encodes_instance(p: location_pb::Instance, i: InstanceView) -> bool {
    &&& p.id@ == hyphenated(i.id)
    &&& reads_as(p.id@, i.id)
    &&& p.location is Some
    &&& location_of(p.location) == i.location
    &&& p.created == Some(timestamp_of(i.created))
    &&& p.name@ == i.name
}

/// Whether a wire message is the one of an instance with its endpoint.
pub open spec fn encodes_peer(p: pb::Instance, i: InstanceView) -> bool {
    &&& p.instance matches Some(inner)
    &&& encodes_instance(inner, i)
    &&& p.endpoint@ == i.endpoint
}

impl From<Instance> for location_pb::Instance {
    fn from(i: Instance) -> (r: Self)
        ensures
            encodes_instance(r, i@),
    {
        let id = i.id.to_string();
        let created = system_time_to_timestamp(i.created);
        location_pb::Instance {
            id,
            location: Some(i.location.into()),
            created: Some(created),
            name: i.name.into_string(),
        }
    }
}

impl vstd::std_specs::convert::FromSpecImpl<Instance> for location_pb::Instance {
    open spec fn obeys_from_spec() -> bool {
        false
    }

    open spec fn from_spec(i: Instance) -> Self {
        choose|r: location_pb::Instance| encodes_instance(r, i@)
    }
}

impl From<Instance> for pb::Instance {
    fn from(i: Instance) -> (r: Self)
        ensures
            encodes_peer(r, i@),
    {
        let endpoint = i.endpoint.clone().into_string();
        let inner = location_pb::Instance::from(i);
        pb::Instance { instance: Some(inner), endpoint }
    }
}

impl vstd::std_specs::convert::FromSpecImpl<Instance> for pb::Instance {
    open spec fn obeys_from_spec() -> bool {
        false
    }

    open spec fn from_spec(i: Instance) -> Self {
        choose|r: pb::Instance| encodes_peer(r, i@)
    }
}

/// An instance that came to be at or after the epoch is read back from its wire
/// message, endpoint and all.
pub proof fn law_instance_survives_the_wire(p: pb::Instance, i: InstanceView)
    requires
        encodes_peer(p, i),
        0 <= i.created < (i64::MAX + 1) * NANOS_PER_SEC,
    ensures
        peer_of(p) == Ok::<InstanceView, ErrorView>(i),
{
    law_time_survives_the_wire(i.created);
}

// ---------- Names / Keys ----------

impl From<pb::QualifiedServiceName> for QualifiedServiceName {
    fn from(p: pb::QualifiedServiceName) -> (r: Self) {
        QualifiedServiceName { tenant: TenantName(p.tenant), service: ServiceName(p.service) }
    }
}

impl vstd::std_specs::convert::FromSpecImpl<pb::QualifiedServiceName> for QualifiedServiceName {
    open spec fn obeys_from_spec() -> bool {
        true
    }

    open spec fn from_spec(p: pb::QualifiedServiceName) -> Self {
        QualifiedServiceName { tenant: TenantName(p.tenant), service: ServiceName(p.service) }
    }
}

impl From<QualifiedServiceName> for pb::QualifiedServiceName {
    fn from(p: QualifiedServiceName) -> (r: Self) {
        pb::QualifiedServiceName { tenant: p.tenant.0, service: p.service.0 }
    }
}

impl vstd::std_specs::convert::FromSpecImpl<QualifiedServiceName> for pb::QualifiedServiceName {
    open spec fn obeys_from_spec() -> bool {
        true
    }

    open spec fn from_spec(p: QualifiedServiceName) -> Self {
        pb::QualifiedServiceName { tenant: p.tenant.0, service: p.service.0 }
    }
}

/// What a service name on the wire stands for.
pub open spec fn service_of(p: pb::QualifiedServiceName) -> ServiceView {
    ServiceView { tenant: p.tenant@, service: p.service@ }
}

/// What a domain name on the wire stands for.
pub open spec fn domain_of(p: pb::QualifiedDomainName) -> Result<DomainView, ErrorView> {
    match p.service {
        None => Err(missing("QualifiedDomainName.service"@)),
        Some(s) => Ok(DomainView { service: service_of(s), name: p.name@ }),
    }
}

/// Reads a domain name.
pub fn read_domain(p: &pb::QualifiedDomainName) -> (r: Result<QualifiedDomainName, ClientError>)
    ensures
        yields(r, domain_of(*p)),
{
    match &p.service {
        None => required(None, "QualifiedDomainName.service"),
        Some(s) => Ok(
            QualifiedDomainName { service: s.clone().into(), name: DomainName(p.name.clone()) },
        ),
    }
}

impl TryFrom<pb::QualifiedDomainName> for QualifiedDomainName {
    type Error = ClientError;

    fn try_from(p: pb::QualifiedDomainName) -> (r: Result<Self, ClientError>)
        ensures
            yields(r, domain_of(p)),
    {
        read_domain(&p)
    }
}

impl vstd::std_specs::convert::TryFromSpecImpl<pb::QualifiedDomainName> for QualifiedDomainName {
    open spec fn obeys_try_from_spec() -> bool {
        false
    }

    open spec fn try_from_spec(p: pb::QualifiedDomainName) -> Result<Self, ClientError> {
        choose|r: Result<Self, ClientError>| yields(r, domain_of(p))
    }
}

impl From<QualifiedDomainName> for pb::QualifiedDomainName {
    fn from(p: QualifiedDomainName) -> (r: Self) {
        pb::QualifiedDomainName { service: Some(p.service.into()), name: p.name.into_string() }
    }
}

impl vstd::std_specs::convert::FromSpecImpl<QualifiedDomainName> for pb::QualifiedDomainName {
    open spec fn obeys_from_spec() -> bool {
        true
    }

    open spec fn from_spec(p: QualifiedDomainName) -> Self {
        pb::QualifiedDomainName {
            service: Some(<pb::QualifiedServiceName as vstd::std_specs::convert::FromSpec<QualifiedServiceName>>::from_spec(p.service)),
            name: p.name.0,
        }
    }
}

impl From<pb::DomainKey> for DomainKey {
    fn from(p: pb::DomainKey) -> (r: Self) {
        DomainKey { region: Region(p.region), key: p.key }
    }
}

impl vstd::std_specs::convert::FromSpecImpl<pb::DomainKey> for DomainKey {
    open spec fn obeys_from_spec() -> bool {
        true
    }

    open spec fn from_spec(p: pb::DomainKey) -> Self {
        DomainKey { region: Region(p.region), key: p.key }
    }
}

impl From<DomainKey> for pb::DomainKey {
    fn from(p: DomainKey) -> (r: Self) {
        pb::DomainKey { region: p.region.0, key: p.key }
    }
}

impl vstd::std_specs::convert::FromSpecImpl<DomainKey> for pb::DomainKey {
    open spec fn obeys_from_spec() -> bool {
        true
    }

    open spec fn from_spec(p: DomainKey) -> Self {
        pb::DomainKey { region: p.region.0, key: p.key }
    }
}

/// What a key on the wire stands for; an absent one is the empty key.
pub open spec fn key_of(p: Option<pb::DomainKey>) -> KeyView {
    match p {
        Some(k) => KeyView { region: k.region@, key: k.key@ },
        None => KeyView { region: Seq::empty(), key: Seq::empty() },
    }
}

/// What a qualified key on the wire stands for.
pub open spec fn qualified_key_of(p: pb::QualifiedDomainKey) -> Result<
    QualifiedKeyView,
    ErrorView,
> {
    match p.domain {
        None => Err(missing("QualifiedDomainKey.domain"@)),
        Some(d) => match domain_of(d) {
            Err(e) => Err(e),
            Ok(domain) => Ok(QualifiedKeyView { domain, key: key_of(p.key) }),
        },
    }
}

/// Reads a qualified key.
pub fn read_qualified_key(p: &pb::QualifiedDomainKey) -> (r: Result<
    QualifiedDomainKey,
    ClientError,
>)
    ensures
        yields(r, qualified_key_of(*p)),
{
    match &p.domain {
        None => required(None, "QualifiedDomainKey.domain"),
        Some(d) => match read_domain(d) {
            Err(e) => Err(e),
            Ok(domain) => {
                let key = match &p.key {
                    Some(k) => DomainKey {
                        region: Region(k.region.clone()),
                        key: k.key.clone(),
                    },
                    None => DomainKey::default(),
                };
                Ok(QualifiedDomainKey { domain, key })
            },
        },
    }
}

impl TryFrom<pb::QualifiedDomainKey> for QualifiedDomainKey {
    type Error = ClientError;

    fn try_from(p: pb::QualifiedDomainKey) -> (r: Result<Self, ClientError>)
        ensures
            yields(r, qualified_key_of(p)),
    {
        read_qualified_key(&p)
    }
}

impl vstd::std_specs::convert::TryFromSpecImpl<pb::QualifiedDomainKey> for QualifiedDomainKey {
    open spec fn obeys_try_from_spec() -> bool {
        false
    }

    open spec fn try_from_spec(p: pb::QualifiedDomainKey) -> Result<Self, ClientError> {
        choose|r: Result<Self, ClientError>| yields(r, qualified_key_of(p))
    }
}

impl From<QualifiedDomainKey> for pb::QualifiedDomainKey {
    fn from(p: QualifiedDomainKey) -> (r: Self) {
        pb::QualifiedDomainKey { domain: Some(p.domain.into()), key: Some(p.key.into()) }
    }
}

impl vstd::std_specs::convert::FromSpecImpl<QualifiedDomainKey> for pb::QualifiedDomainKey {
    open spec fn obeys_from_spec() -> bool {
        true
    }

    open spec fn from_spec(p: QualifiedDomainKey) -> Self {
        pb::QualifiedDomainKey {
            domain: Some(
                <pb::QualifiedDomainName as vstd::std_specs::convert::FromSpec<QualifiedDomainName>>::from_spec(p.domain),
            ),
            key: Some(<pb::DomainKey as vstd::std_specs::convert::FromSpec<DomainKey>>::from_spec(p.key)),
        }
    }
}

impl From<pb::DomainKeyName> for DomainKeyName {
    fn from(p: pb::DomainKeyName) -> (r: Self) {
        DomainKeyName { domain: DomainName(p.domain), name: p.name }
    }
}

impl vstd::std_specs::convert::FromSpecImpl<pb::DomainKeyName> for DomainKeyName {
    open spec fn obeys_from_spec() -> bool {
        true
    }

    open spec fn from_spec(p: pb::DomainKeyName) -> Self {
        DomainKeyName { domain: DomainName(p.domain), name: p.name }
    }
}

impl From<DomainKeyName> for pb::DomainKeyName {
    fn from(p: DomainKeyName) -> (r: Self) {
        pb::DomainKeyName { domain: p.domain.0, name: p.name }
    }
}

impl vstd::std_specs::convert::FromSpecImpl<DomainKeyName> for pb::DomainKeyName {
    open spec fn obeys_from_spec() -> bool {
        true
    }

    open spec fn from_spec(p: DomainKeyName) -> Self {
        pb::DomainKeyName { domain: p.domain.0, name: p.name }
    }
}

/// A qualified service name is read back from its wire message.
pub proof fn law_service_survives_the_wire(q: QualifiedServiceName)
    ensures
        service_of(<pb::QualifiedServiceName as vstd::std_specs::convert::FromSpec<QualifiedServiceName>>::from_spec(q)) == q@,
{
}

/// A qualified domain name is read back from its wire message.
pub proof fn law_domain_survives_the_wire(d: QualifiedDomainName)
    ensures
        domain_of(<pb::QualifiedDomainName as vstd::std_specs::convert::FromSpec<QualifiedDomainName>>::from_spec(d)) == Ok::<
            DomainView,
            ErrorView,
        >(d@),
{
}

/// A qualified key is read back from its wire message.
pub proof fn law_qualified_key_survives_the_wire(k: QualifiedDomainKey)
    ensures
        qualified_key_of(<pb::QualifiedDomainKey as vstd::std_specs::convert::FromSpec<QualifiedDomainKey>>::from_spec(k))
            == Ok::<QualifiedKeyView, ErrorView>(k@),
{
}

// ---------- Enums ----------

impl From<pb::DomainType> for DomainType {
    fn from(p: pb::DomainType) -> (r: Self) {
        match p {
            pb::DomainType::Invalid => DomainType::Invalid,
            pb::DomainType::Unit => DomainType::Unit,
            pb::DomainType::Global => DomainType::Global,
            pb::DomainType::Regional => DomainType::Regional,
        }
    }
}

impl vstd::std_specs::convert::FromSpecImpl<pb::DomainType> for DomainType {
    open spec fn obeys_from_spec() -> bool {
        true
    }

    open spec fn from_spec(p: pb::DomainType) -> Self {
        match p {
            pb::DomainType::Invalid => DomainType::Invalid,
            pb::DomainType::Unit => DomainType::Unit,
            pb::DomainType::Global => DomainType::Global,
            pb::DomainType::Regional => DomainType::Regional,
        }
    }
}

impl From<DomainType> for pb::DomainType {
    fn from(p: DomainType) -> (r: Self) {
        match p {
            DomainType::Invalid => pb::DomainType::Invalid,
            DomainType::Unit => pb::DomainType::Unit,
            DomainType::Global => pb::DomainType::Global,
            DomainType::Regional => pb::DomainType::Regional,
        }
    }
}

impl vstd::std_specs::convert::FromSpecImpl<DomainType> for pb::DomainType {
    open spec fn obeys_from_spec() -> bool {
        true
    }

    open spec fn from_spec(p: DomainType) -> Self {
        match p {
            DomainType::Invalid => pb::DomainType::Invalid,
            DomainType::Unit => pb::DomainType::Unit,
            DomainType::Global => pb::DomainType::Global,
            DomainType::Regional => pb::DomainType::Regional,
        }
    }
}

/// The domain type that a number on the wire stands for; an unknown number is
/// `Invalid`.
pub open spec fn domain_type_of(v: i32) -> DomainType {
    if v == 1 {
        DomainType::Unit
    } else if v == 2 {
        DomainType::Global
    } else if v == 3 {
        DomainType::Regional
    } else {
        DomainType::Invalid
    }
}

pub fn domain_type_from_i32(v: i32) -> (r: DomainType)
    ensures
        r == domain_type_of(v),
{
    match pb::DomainType::from_i32(v) {
        Some(d) => d.into(),
        None => {
            proof {
                assert(pb::DomainType::Invalid.number() != v);
                assert(pb::DomainType::Unit.number() != v);
                assert(pb::DomainType::Global.number() != v);
                assert(pb::DomainType::Regional.number() != v);
            }
            DomainType::Invalid
        },
    }
}

impl From<pb::GrantState> for GrantState {
    fn from(p: pb::GrantState) -> (r: Self) {
        match p {
            pb::GrantState::Unknown => GrantState::Unknown,
            pb::GrantState::Active => GrantState::Active,
            pb::GrantState::Allocated => GrantState::Allocated,
            pb::GrantState::Revoked => GrantState::Revoked,
            pb::GrantState::AllocatedLoaded => GrantState::AllocatedLoaded,
            pb::GrantState::RevokedUnloaded => GrantState::RevokedUnloaded,
        }
    }
}

impl vstd::std_specs::convert::FromSpecImpl<pb::GrantState> for GrantState {
    open spec fn obeys_from_spec() -> bool {
        true
    }

    open spec fn from_spec(p: pb::GrantState) -> Self {
        match p {
            pb::GrantState::Unknown => GrantState::Unknown,
            pb::GrantState::Active => GrantState::Active,
            pb::GrantState::Allocated => GrantState::Allocated,
            pb::GrantState::Revoked => GrantState::Revoked,
            pb::GrantState::AllocatedLoaded => GrantState::AllocatedLoaded,
            pb::GrantState::RevokedUnloaded => GrantState::RevokedUnloaded,
        }
    }
}

impl From<GrantState> for pb::GrantState {
    fn from(p: GrantState) -> (r: Self) {
        match p {
            GrantState::Unknown => pb::GrantState::Unknown,
            GrantState::Active => pb::GrantState::Active,
            GrantState::Allocated => pb::GrantState::Allocated,
            GrantState::Revoked => pb::GrantState::Revoked,
            GrantState::AllocatedLoaded => pb::GrantState::AllocatedLoaded,
            GrantState::RevokedUnloaded => pb::GrantState::RevokedUnloaded,
        }
    }
}

impl vstd::std_specs::convert::FromSpecImpl<GrantState> for pb::GrantState {
    open spec fn obeys_from_spec() -> bool {
        true
    }

    open spec fn from_spec(p: GrantState) -> Self {
        match p {
            GrantState::Unknown => pb::GrantState::Unknown,
            GrantState::Active => pb::GrantState::Active,
            GrantState::Allocated => pb::GrantState::Allocated,
            GrantState::Revoked => pb::GrantState::Revoked,
            GrantState::AllocatedLoaded => pb::GrantState::AllocatedLoaded,
            GrantState::RevokedUnloaded => pb::GrantState::RevokedUnloaded,
        }
    }
}

/// The grant state that a number on the wire stands for; an unknown number is
/// `Unknown`.
pub open spec fn grant_state_of(v: i32) -> GrantState {
    if v == 1 {
        GrantState::Active
    } else if v == 2 {
        GrantState::Allocated
    } else if v == 3 {
        GrantState::Revoked
    } else if v == 4 {
        GrantState::AllocatedLoaded
    } else if v == 5 {
        GrantState::RevokedUnloaded
    } else {
        GrantState::Unknown
    }
}

pub fn grant_state_from_i32(v: i32) -> (r: GrantState)
    ensures
        r == grant_state_of(v),
{
    match pb::GrantState::from_i32(v) {
        Some(s) => s.into(),
        None => {
            proof {
                assert(pb::GrantState::Unknown.number() != v);
                assert(pb::GrantState::Active.number() != v);
                assert(pb::GrantState::Allocated.number() != v);
                assert(pb::GrantState::Revoked.number() != v);
                assert(pb::GrantState::AllocatedLoaded.number() != v);
                assert(pb::GrantState::RevokedUnloaded.number() != v);
            }
            GrantState::Unknown
        },
    }
}

/// Every domain type is read back from its number.
pub proof fn law_domain_type_survives_the_wire(d: DomainType)
    ensures
        domain_type_of(<pb::DomainType as vstd::std_specs::convert::FromSpec<DomainType>>::from_spec(d).number()) == d,
{
}

/// Every grant state is read back from its number.
pub proof fn law_grant_state_survives_the_wire(s: GrantState)
    ensures
        grant_state_of(<pb::GrantState as vstd::std_specs::convert::FromSpec<GrantState>>::from_spec(s).number()) == s,
{
}

// ---------- Shard ----------

/// What a shard on the wire stands for.
pub open spec fn shard_of(p: pb::Shard) -> Result<ShardView, ErrorView> {
    match p.domain {
        None => Err(missing("Shard.domain"@)),
        Some(d) => match domain_of(d) {
            Err(e) => Err(e),
            Ok(domain) => Ok(
                ShardView {
                    domain,
                    kind: domain_type_of(p.kind),
                    region: p.region@,
                    from: p.from@,
                    to: p.to@,
                },
            ),
        },
    }
}

/// Reads a shard.
pub fn read_shard(p: &pb::Shard) -> (r: Result<Shard, ClientError>)
    ensures
        yields(r, shard_of(*p)),
{
    match &p.domain {
        None => required(None, "Shard.domain"),
        Some(d) => match read_domain(d) {
            Err(e) => Err(e),
            Ok(domain) => Ok(
                Shard {
                    domain,
                    kind: domain_type_from_i32(p.kind),
                    region: Region(p.region.clone()),
                    from: p.from.clone(),
                    to: p.to.clone(),
                },
            ),
        },
    }
}

impl TryFrom<pb::Shard> for Shard {
    type Error = ClientError;

    fn try_from(p: pb::Shard) -> (r: Result<Self, ClientError>)
        ensures
            yields(r, shard_of(p)),
    {
        read_shard(&p)
    }
}

impl vstd::std_specs::convert::TryFromSpecImpl<pb::Shard> for Shard {
    open spec fn obeys_try_from_spec() -> bool {
        false
    }

    open spec fn try_from_spec(p: pb::Shard) -> Result<Self, ClientError> {
        choose|r: Result<Self, ClientError>| yields(r, shard_of(p))
    }
}

impl From<Shard> for pb::Shard {
    fn from(p: Shard) -> (r: Self) {
        let kind: pb::DomainType = p.kind.into();
        pb::Shard {
            domain: Some(p.domain.into()),
            kind: kind.to_i32(),
            region: p.region.into_string(),
            from: p.from,
            to: p.to,
        }
    }
}

impl vstd::std_specs::convert::FromSpecImpl<Shard> for pb::Shard {
    open spec fn obeys_from_spec() -> bool {
        true
    }

    open spec fn from_spec(p: Shard) -> Self {
        pb::Shard {
            domain: Some(
                <pb::QualifiedDomainName as vstd::std_specs::convert::FromSpec<QualifiedDomainName>>::from_spec(p.domain),
            ),
            kind: <pb::DomainType as vstd::std_specs::convert::FromSpec<DomainType>>::from_spec(p.kind).number(),
            region: p.region.0,
            from: p.from,
            to: p.to,
        }
    }
}

/// A shard is read back from its wire message.
pub proof fn law_shard_survives_the_wire(s: Shard)
    ensures
        shard_of(<pb::Shard as vstd::std_specs::convert::FromSpec<Shard>>::from_spec(s)) == Ok::<ShardView, ErrorView>(s@),
{
    law_domain_survives_the_wire(s.domain);
    law_domain_type_survives_the_wire(s.kind);
}

/// A field that is there gives its value; one that is not gives an error that names it.
pub proof fn law_missing_field_is_named<T>(
    value: Option<T>,
    field: &str,
    r: Result<T, ClientError>,
)
    requires
        call_ensures(required::<T>, (value, field), r),
    ensures
        r is Ok <==> value is Some,
        r matches Ok(v) ==> value == Some(v),
        r matches Err(e) ==> e@ == ErrorView::InvalidMessage("missing field: "@ + field@),
{
}

} // verus!
