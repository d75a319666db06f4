//! Domain types used throughout the client.
//!
//! The view of a type is a ghost record of what it stands for, with texts as
//! sequences of characters; two values are equal where their views are.

use vstd::prelude::*;
use vstd::string::*;

use crate::table::TableKey;
use crate::text;
use crate::text::Order;
use crate::time::SystemTime;
use crate::uuids::{parse_uuid, random_uuid, uuid_text};
#[allow(unused_imports)]
use crate::uuids::{hyphenated, is_v4, parsed_uuid, reads_as};

pub use crate::names::{
    DomainName, Endpoint, GrantId, InstanceName, NodeName, Region, ServiceName, TenantName,
};

verus! {

/// Globally-unique identifier for a consumer instance: the number of a UUID. `new`
/// makes a fresh random one; `try_from` reads one from its text.
#[derive(Copy, Clone, Debug, PartialEq, Eq, Hash, Structural)]
pub struct InstanceId(pub u128);

/// Consumer identity equals instance identity.
pub type ConsumerId = InstanceId;

impl View for InstanceId {
    type V = u128;

    open spec fn view(&self) -> u128 {
        self.0
    }
}

/// Why a text is no instance id.
#[derive(Clone, Debug, PartialEq, Eq)]
pub struct InvalidInstanceId {
    pub reason: String,
}

impl InstanceId {
    /// Generates a fresh random id.
    pub fn new() -> (r: Self)
        ensures
            is_v4(r@),
    {
        InstanceId(random_uuid())
    }

    /// The number of the UUID.
    pub fn as_u128(&self) -> (r: u128)
        ensures
            r == self@,
    {
        self.0
    }

    /// The hyphenated form of the id. `try_from` reads it back.
    pub fn to_string(&self) -> (r: String)
        ensures
            r@ == hyphenated(self@),
            reads_as(r@, self@),
    {
        uuid_text(self.0)
    }
}

impl Default for InstanceId {
    fn default() -> (r: Self)
        ensures
            is_v4(r@),
    {
        Self::new()
    }
}

impl TryFrom<&str> for InstanceId {
    type Error = InvalidInstanceId;

    fn try_from(s: &str) -> (r: Result<Self, InvalidInstanceId>)
        ensures
            match r {
                Ok(id) => reads_as(s@, id@),
                Err(e) => parsed_uuid(s@) matches Err(m) && m == e.reason@,
            },
    {
        match parse_uuid(s) {
            Ok(v) => Ok(InstanceId(v)),
            Err(reason) => Err(InvalidInstanceId { reason }),
        }
    }
}

impl vstd::std_specs::convert::TryFromSpecImpl<&str> for InstanceId {
    open spec fn obeys_try_from_spec() -> bool {
        false
    }

    open spec fn try_from_spec(s: &str) -> Result<Self, InvalidInstanceId> {
        match parsed_uuid(s@) {
            Ok(v) => Ok(InstanceId(v)),
            Err(m) => Err(choose|e: InvalidInstanceId| e.reason@ == m),
        }
    }
}

impl TryFrom<String> for InstanceId {
    type Error = InvalidInstanceId;

    fn try_from(s: String) -> (r: Result<Self, InvalidInstanceId>)
        ensures
            match r {
                Ok(id) => reads_as(s@, id@),
                Err(e) => parsed_uuid(s@) matches Err(m) && m == e.reason@,
            },
    {
        InstanceId::try_from(s.as_str())
    }
}

impl vstd::std_specs::convert::TryFromSpecImpl<String> for InstanceId {
    open spec fn obeys_try_from_spec() -> bool {
        false
    }

    open spec fn try_from_spec(s: String) -> Result<Self, InvalidInstanceId> {
        match parsed_uuid(s@) {
            Ok(v) => Ok(InstanceId(v)),
            Err(m) => Err(choose|e: InvalidInstanceId| e.reason@ == m),
        }
    }
}

impl std::str::FromStr for InstanceId {
    type Err = InvalidInstanceId;

    fn from_str(s: &str) -> (r: Result<Self, InvalidInstanceId>)
        ensures
            match r {
                Ok(id) => reads_as(s@, id@),
                Err(e) => parsed_uuid(s@) matches Err(m) && m == e.reason@,
            },
    {
        InstanceId::try_from(s)
    }
}

impl From<u128> for InstanceId {
    fn from(v: u128) -> (r: Self) {
        InstanceId(v)
    }
}

impl vstd::std_specs::convert::FromSpecImpl<u128> for InstanceId {
    open spec fn obeys_from_spec() -> bool {
        true
    }

    open spec fn from_spec(v: u128) -> Self {
        InstanceId(v)
    }
}

impl TableKey for InstanceId {
    type Value = u128;

    open spec fn key(&self) -> u128 {
        self.0
    }

    open spec fn lt(a: u128, b: u128) -> bool {
        a < b
    }

    proof fn lt_irreflexive(a: u128) {
    }

    proof fn lt_transitive(a: u128, b: u128, c: u128) {
    }

    fn order(&self, other: &Self) -> (r: Order) {
        if self.0 < other.0 {
            Order::Less
        } else if self.0 == other.0 {
            Order::Equal
        } else {
            Order::Greater
        }
    }

    fn copy_key(&self) -> (r: Self) {
        *self
    }
}

/// Where an instance runs.
#[derive(Debug, Hash)]
pub struct Location {
    pub region: Region,
    pub node: NodeName,
}

/// What a [`Location`] stands for.
#[verifier::ext_equal]
pub struct LocationView {
    pub region: Seq<char>,
    pub node: Seq<char>,
}

impl View for Location {
    type V = LocationView;

    open spec fn view(&self) -> LocationView {
        LocationView {
            region: self.region@,
            node: self.node@,
        }
    }
}

impl Clone for Location {
    fn clone(&self) -> (r: Self)
        ensures
            r == *self,
    {
        Location {
            region: self.region.clone(),
            node: self.node.clone(),
        }
    }
}

impl PartialEq for Location {
    fn eq(&self, other: &Self) -> (r: bool) {
        self.region == other.region
            && self.node == other.node
    }
}

impl vstd::std_specs::cmp::PartialEqSpecImpl for Location {
    open spec fn obeys_eq_spec() -> bool {
        true
    }

    open spec fn eq_spec(&self, other: &Self) -> bool {
        self@ == other@
    }
}

impl Eq for Location {

}

/// The text of a location: `region/node`.
pub open spec fn location_text(l: LocationView) -> Seq<char> {
    l.region + "/"@ + l.node
}

impl Location {
    pub fn new<R: Into<Region>, N: Into<NodeName>>(region: R, node: N) -> (r: Self)
        ensures
            call_ensures(<R as Into<Region>>::into, (region,), r.region),
            call_ensures(<N as Into<NodeName>>::into, (node,), r.node),
    {
        Location { region: region.into(), node: node.into() }
    }

    /// `region/node`.
    pub fn to_string(&self) -> (r: String)
        ensures
            r@ == location_text(self@),
    {
        self.region.to_string().concat("/").concat(self.node.as_str())
    }
}

impl Default for Location {
    fn default() -> (r: Self)
        ensures
            r@.region == Seq::<char>::empty(),
            r@.node == Seq::<char>::empty(),
    {
        Location { region: Region::default(), node: NodeName::default() }
    }
}

/// Addressable consumer instance with its peer endpoint.
#[derive(Debug)]
pub struct Instance {
    pub id: InstanceId,
    pub location: Location,
    pub name: InstanceName,
    pub created: SystemTime,
    pub endpoint: Endpoint,
}

/// What a [`Instance`] stands for.
#[verifier::ext_equal]
pub struct InstanceView {
    pub id: u128,
    pub location: LocationView,
    pub name: Seq<char>,
    pub created: int,
    pub endpoint: Seq<char>,
}

impl View for Instance {
    type V = InstanceView;

    open spec fn view(&self) -> InstanceView {
        InstanceView {
            id: self.id@,
            location: self.location@,
            name: self.name@,
            created: self.created@,
            endpoint: self.endpoint@,
        }
    }
}

impl Clone for Instance {
    fn clone(&self) -> (r: Self)
        ensures
            r == *self,
    {
        Instance {
            id: self.id,
            location: self.location.clone(),
            name: self.name.clone(),
            created: self.created,
            endpoint: self.endpoint.clone(),
        }
    }
}

impl PartialEq for Instance {
    fn eq(&self, other: &Self) -> (r: bool) {
        self.id == other.id
            && self.location == other.location
            && self.name == other.name
            && self.created.same(other.created)
            && self.endpoint == other.endpoint
    }
}

impl vstd::std_specs::cmp::PartialEqSpecImpl for Instance {
    open spec fn obeys_eq_spec() -> bool {
        true
    }

    open spec fn eq_spec(&self, other: &Self) -> bool {
        self@ == other@
    }
}

impl Eq for Instance {

}

impl Instance {
    /// `id@region/node`.
    pub fn to_string(&self) -> (r: String)
        ensures
            r@ == hyphenated(self@.id) + "@"@ + location_text(self@.location),
    {
        let place = self.location.to_string();
        self.id.to_string().concat("@").concat(place.as_str())
    }
}

/// A service with its tenant.
#[derive(Debug, Hash)]
pub struct QualifiedServiceName {
    pub tenant: TenantName,
    pub service: ServiceName,
}

/// What a [`QualifiedServiceName`] stands for.
#[verifier::ext_equal]
pub struct ServiceView {
    pub tenant: Seq<char>,
    pub service: Seq<char>,
}

impl View for QualifiedServiceName {
    type V = ServiceView;

    open spec fn view(&self) -> ServiceView {
        ServiceView {
            tenant: self.tenant@,
            service: self.service@,
        }
    }
}

impl Clone for QualifiedServiceName {
    fn clone(&self) -> (r: Self)
        ensures
            r == *self,
    {
        QualifiedServiceName {
            tenant: self.tenant.clone(),
            service: self.service.clone(),
        }
    }
}

impl PartialEq for QualifiedServiceName {
    fn eq(&self, other: &Self) -> (r: bool) {
        self.tenant == other.tenant
            && self.service == other.service
    }
}

impl vstd::std_specs::cmp::PartialEqSpecImpl for QualifiedServiceName {
    open spec fn obeys_eq_spec() -> bool {
        true
    }

    open spec fn eq_spec(&self, other: &Self) -> bool {
        self@ == other@
    }
}

impl Eq for QualifiedServiceName {

}

/// The text of a qualified service name: `tenant/service`.
pub open spec fn service_text(s: ServiceView) -> Seq<char> {
    s.tenant + "/"@ + s.service
}

/// What `tenant/service` reads as: the text is cut at its first slash, and neither
/// part may be empty.
pub open spec fn parsed_service(s: Seq<char>) -> Option<ServiceView> {
    if !s.contains('/') {
        None
    } else {
        let i = s.index_of_first('/')->0;
        let tenant = s.take(i);
        let service = s.skip(i + 1);
        if tenant.len() == 0 || service.len() == 0 {
            None
        } else {
            Some(ServiceView { tenant, service })
        }
    }
}

proof fn lemma_first_slash(s: Seq<char>, head: Seq<char>, tail: Seq<char>)
    requires
        s == head.push('/') + tail,
        !head.contains('/'),
    ensures
        s.contains('/'),
        s.index_of_first('/') == Some(head.len() as int),
        s.take(head.len() as int) == head,
        s.skip(head.len() as int + 1) == tail,
{
    assert(s[head.len() as int] == '/');
    s.index_of_first_ensures('/');
    let i = s.index_of_first('/')->0;
    if i < head.len() {
        assert(s[i] == head[i]);
    }
    assert(s.take(head.len() as int) =~= head);
    assert(s.skip(head.len() as int + 1) =~= tail);
}

/// A qualified service name whose tenant holds no slash, with neither part empty,
/// is read back from its text.
pub proof fn law_service_text_parses_back(q: ServiceView)
    requires
        q.tenant.len() > 0,
        q.service.len() > 0,
        !q.tenant.contains('/'),
    ensures
        parsed_service(service_text(q)) == Some(q),
{
    reveal_strlit("/");
    assert(service_text(q) =~= q.tenant.push('/') + q.service);
    lemma_first_slash(service_text(q), q.tenant, q.service);
}

/// Every text that reads as a qualified service name is that name's text.
pub proof fn law_parsed_service_has_that_text(s: Seq<char>)
    requires
        parsed_service(s) is Some,
    ensures
        service_text(parsed_service(s)->0) == s,
{
    reveal_strlit("/");
    s.index_of_first_ensures('/');
    assert(service_text(parsed_service(s)->0) =~= s);
}

impl QualifiedServiceName {
    pub fn new<T: Into<TenantName>, S: Into<ServiceName>>(tenant: T, service: S) -> (r: Self)
        ensures
            call_ensures(<T as Into<TenantName>>::into, (tenant,), r.tenant),
            call_ensures(<S as Into<ServiceName>>::into, (service,), r.service),
    {
        QualifiedServiceName { tenant: tenant.into(), service: service.into() }
    }

    /// Parse `tenant/service`.
    pub fn parse(s: &str) -> (r: Option<Self>)
        ensures
            match r {
                Some(q) => parsed_service(s@) == Some(q@),
                None => parsed_service(s@) is None,
            },
    {
        match text::split_once(s, '/') {
            None => None,
            Some((tenant, service)) => {
                proof {
                    lemma_first_slash(s@, tenant@, service@);
                }
                if tenant.is_empty() || service.is_empty() {
                    return None;
                }
                Some(Self::new(tenant, service))
            },
        }
    }

    /// `tenant/service`.
    pub fn to_string(&self) -> (r: String)
        ensures
            r@ == service_text(self@),
    {
        self.tenant.to_string().concat("/").concat(self.service.as_str())
    }
}

/// A domain with its service.
#[derive(Debug, Hash)]
pub struct QualifiedDomainName {
    pub service: QualifiedServiceName,
    pub name: DomainName,
}

/// What a [`QualifiedDomainName`] stands for.
#[verifier::ext_equal]
pub struct DomainView {
    pub service: ServiceView,
    pub name: Seq<char>,
}

impl View for QualifiedDomainName {
    type V = DomainView;

    open spec fn view(&self) -> DomainView {
        DomainView {
            service: self.service@,
            name: self.name@,
        }
    }
}

impl Clone for QualifiedDomainName {
    fn clone(&self) -> (r: Self)
        ensures
            r == *self,
    {
        QualifiedDomainName {
            service: self.service.clone(),
            name: self.name.clone(),
        }
    }
}

impl PartialEq for QualifiedDomainName {
    fn eq(&self, other: &Self) -> (r: bool) {
        self.service == other.service
            && self.name == other.name
    }
}

impl vstd::std_specs::cmp::PartialEqSpecImpl for QualifiedDomainName {
    open spec fn obeys_eq_spec() -> bool {
        true
    }

    open spec fn eq_spec(&self, other: &Self) -> bool {
        self@ == other@
    }
}

impl Eq for QualifiedDomainName {

}

/// The text of a qualified domain name: `tenant/service/domain`.
pub open spec fn domain_text(d: DomainView) -> Seq<char> {
    service_text(d.service) + "/"@ + d.name
}

impl QualifiedDomainName {
    /// `tenant/service/domain`.
    pub fn to_string(&self) -> (r: String)
        ensures
            r@ == domain_text(self@),
    {
        self.service.to_string().concat("/").concat(self.name.as_str())
    }
}

/// A key within a domain.
#[derive(Debug, Hash)]
pub struct DomainKey {
    pub region: Region,
    /// The key itself (usually a UUID or hashable string). Left as a plain `String`
    /// because the payload is user-defined.
    pub key: String,
}

/// What a [`DomainKey`] stands for.
#[verifier::ext_equal]
pub struct KeyView {
    pub region: Seq<char>,
    pub key: Seq<char>,
}

impl View for DomainKey {
    type V = KeyView;

    open spec fn view(&self) -> KeyView {
        KeyView {
            region: self.region@,
            key: self.key@,
        }
    }
}

impl Clone for DomainKey {
    fn clone(&self) -> (r: Self)
        ensures
            r == *self,
    {
        DomainKey {
            region: self.region.clone(),
            key: self.key.clone(),
        }
    }
}

impl PartialEq for DomainKey {
    fn eq(&self, other: &Self) -> (r: bool) {
        self.region == other.region
            && self.key == other.key
    }
}

impl vstd::std_specs::cmp::PartialEqSpecImpl for DomainKey {
    open spec fn obeys_eq_spec() -> bool {
        true
    }

    open spec fn eq_spec(&self, other: &Self) -> bool {
        self@ == other@
    }
}

impl Eq for DomainKey {

}

impl Default for DomainKey {
    fn default() -> (r: Self)
        ensures
            r@.region == Seq::<char>::empty(),
            r@.key == Seq::<char>::empty(),
    {
        DomainKey { region: Region::default(), key: String::new() }
    }
}

/// A key with its domain.
#[derive(Debug, Hash)]
pub struct QualifiedDomainKey {
    pub domain: QualifiedDomainName,
    pub key: DomainKey,
}

/// What a [`QualifiedDomainKey`] stands for.
#[verifier::ext_equal]
pub struct QualifiedKeyView {
    pub domain: DomainView,
    pub key: KeyView,
}

impl View for QualifiedDomainKey {
    type V = QualifiedKeyView;

    open spec fn view(&self) -> QualifiedKeyView {
        QualifiedKeyView {
            domain: self.domain@,
            key: self.key@,
        }
    }
}

impl Clone for QualifiedDomainKey {
    fn clone(&self) -> (r: Self)
        ensures
            r == *self,
    {
        QualifiedDomainKey {
            domain: self.domain.clone(),
            key: self.key.clone(),
        }
    }
}

impl PartialEq for QualifiedDomainKey {
    fn eq(&self, other: &Self) -> (r: bool) {
        self.domain == other.domain
            && self.key == other.key
    }
}

impl vstd::std_specs::cmp::PartialEqSpecImpl for QualifiedDomainKey {
    open spec fn obeys_eq_spec() -> bool {
        true
    }

    open spec fn eq_spec(&self, other: &Self) -> bool {
        self@ == other@
    }
}

impl Eq for QualifiedDomainKey {

}

/// How a domain is sharded.
#[derive(Copy, Clone, Debug, PartialEq, Eq, Hash, Structural)]
pub enum DomainType {
    Invalid,
    Unit,
    Global,
    Regional,
}

/// The life-cycle state of a grant.
#[derive(Copy, Clone, Debug, PartialEq, Eq, Hash, Structural)]
pub enum GrantState {
    Unknown,
    Active,
    Allocated,
    Revoked,
    AllocatedLoaded,
    RevokedUnloaded,
}

/// A range of a domain's keys.
#[derive(Debug, Hash)]
pub struct Shard {
    pub domain: QualifiedDomainName,
    pub kind: DomainType,
    pub region: Region,
    /// Inclusive lower bound of the UUID range this shard covers.
    pub from: String,
    /// Exclusive upper bound of the UUID range this shard covers.
    pub to: String,
}

/// What a [`Shard`] stands for.
#[verifier::ext_equal]
pub struct ShardView {
    pub domain: DomainView,
    pub kind: DomainType,
    pub region: Seq<char>,
    pub from: Seq<char>,
    pub to: Seq<char>,
}

impl View for Shard {
    type V = ShardView;

    open spec fn view(&self) -> ShardView {
        ShardView {
            domain: self.domain@,
            kind: self.kind,
            region: self.region@,
            from: self.from@,
            to: self.to@,
        }
    }
}

impl Clone for Shard {
    fn clone(&self) -> (r: Self)
        ensures
            r == *self,
    {
        Shard {
            domain: self.domain.clone(),
            kind: self.kind,
            region: self.region.clone(),
            from: self.from.clone(),
            to: self.to.clone(),
        }
    }
}

impl PartialEq for Shard {
    fn eq(&self, other: &Self) -> (r: bool) {
        self.domain == other.domain
            && self.kind == other.kind
            && self.region == other.region
            && self.from == other.from
            && self.to == other.to
    }
}

impl vstd::std_specs::cmp::PartialEqSpecImpl for Shard {
    open spec fn obeys_eq_spec() -> bool {
        true
    }

    open spec fn eq_spec(&self, other: &Self) -> bool {
        self@ == other@
    }
}

impl Eq for Shard {

}

impl Shard {
    /// `tenant/service/domain[from..to]`.
    pub fn to_string(&self) -> (r: String)
        ensures
            r@ == domain_text(self@.domain) + "["@ + self@.from + ".."@ + self@.to + "]"@,
    {
        self.domain.to_string().concat("[").concat(self.from.as_str()).concat("..").concat(
            self.to.as_str(),
        ).concat("]")
    }
}

/// Named key variant offered when a consumer registers. `domain` is the bare domain
/// name (not qualified); `name` is the label attached to the key.
#[derive(Debug, Hash)]
pub struct DomainKeyName {
    pub domain: DomainName,
    pub name: String,
}

/// What a [`DomainKeyName`] stands for.
#[verifier::ext_equal]
pub struct KeyNameView {
    pub domain: Seq<char>,
    pub name: Seq<char>,
}

impl View for DomainKeyName {
    type V = KeyNameView;

    open spec fn view(&self) -> KeyNameView {
        KeyNameView {
            domain: self.domain@,
            name: self.name@,
        }
    }
}

impl Clone for DomainKeyName {
    fn clone(&self) -> (r: Self)
        ensures
            r == *self,
    {
        DomainKeyName {
            domain: self.domain.clone(),
            name: self.name.clone(),
        }
    }
}

impl PartialEq for DomainKeyName {
    fn eq(&self, other: &Self) -> (r: bool) {
        self.domain == other.domain
            && self.name == other.name
    }
}

impl vstd::std_specs::cmp::PartialEqSpecImpl for DomainKeyName {
    open spec fn obeys_eq_spec() -> bool {
        true
    }

    open spec fn eq_spec(&self, other: &Self) -> bool {
        self@ == other@
    }
}

impl Eq for DomainKeyName {

}

} // verus!
