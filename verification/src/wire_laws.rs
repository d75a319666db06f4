//! What the parts of wire messages stand for, part by part.

use vstd::prelude::*;

use crate::error::ClientError;
use crate::ids::{
    law_parsed_service_has_that_text, law_service_text_parses_back, service_text, DomainKeyName,
    DomainType, GrantState, Instance, InstanceId, InvalidInstanceId, Location, QualifiedDomainKey,
    QualifiedDomainName, QualifiedServiceName, ServiceView, Shard,
};
use crate::location_pb;
use crate::pb;
use crate::pb::Timestamp;
use crate::time::SystemTime;
use crate::uuids::{hyphenated, parsed_uuid};
use crate::wrap::{
    build_instance, domain_type_from_i32, grant_state_from_i32, key_of, law_shard_survives_the_wire,
    location_of, read_domain, read_instance, read_peer, read_qualified_key, read_shard, service_of,
    system_time_to_timestamp, timestamp_to_system_time,
};

verus! {

/// Whether a result is the error on a bad message with this text.
pub open spec fn refused<T>(r: Result<T, ClientError>, text: Seq<char>) -> bool {
    r matches Err(ClientError::InvalidMessage(m)) && m@ == text
}

/// A timestamp counts its seconds and its nanoseconds from the epoch, and a part that is
/// negative counts as nothing.
pub proof fn law_timestamp_counts_from_the_epoch(ts: Timestamp, t: SystemTime)
    requires
        call_ensures(timestamp_to_system_time, (&ts,), t),
    ensures
        ts.seconds >= 0 && ts.nanos >= 0 ==> t@ == ts.seconds * 1_000_000_000 + ts.nanos,
        ts.seconds < 0 && ts.nanos >= 0 ==> t@ == ts.nanos,
        ts.seconds >= 0 && ts.nanos < 0 ==> t@ == ts.seconds * 1_000_000_000,
        ts.seconds < 0 && ts.nanos < 0 ==> t@ == 0,
{
}

/// A point of time within the range of a timestamp is written in whole seconds and what
/// is left of a second; one before the epoch is written as the epoch.
pub proof fn law_time_is_written_in_seconds(t: SystemTime, ts: Timestamp)
    requires
        call_ensures(system_time_to_timestamp, (t,), ts),
    ensures
        t@ < 0 ==> ts.seconds == 0 && ts.nanos == 0,
        0 <= t@ < (i64::MAX + 1) * 1_000_000_000 ==> {
            &&& 0 <= ts.nanos < 1_000_000_000
            &&& ts.seconds * 1_000_000_000 + ts.nanos == t@
        },
{
}

/// An instance is read part by part: id, location (none counts as empty), name and time
/// of creation. It has no endpoint. It is refused where the time of creation is missing,
/// and otherwise exactly where its id is no id.
pub proof fn law_instance_is_read_part_by_part(
    p: &location_pb::Instance,
    parsed: Result<InstanceId, InvalidInstanceId>,
    r: Result<Instance, ClientError>,
)
    requires
        call_ensures(build_instance, (p, parsed), r),
    ensures
        p.created is None ==> refused(r, "missing field: "@ + "location.Instance.created"@),
        p.created is Some && parsed is Err ==> refused(
            r,
            "invalid instance id '"@ + p.id@ + "': "@ + parsed->Err_0.reason@,
        ),
        p.created is Some && parsed is Ok ==> {
            &&& r matches Ok(i) && {
                &&& i.id == parsed->Ok_0
                &&& i.name.0@ == p.name@
                &&& i.endpoint.0@.len() == 0
                &&& forall|t: SystemTime| #[trigger]
                    call_ensures(timestamp_to_system_time, (&p.created->Some_0,), t) ==> i.created@
                        == t@
                &&& p.location matches Some(l) ==> i.location.region.0@ == l.region@
                    && i.location.node.0@ == l.node@
                &&& p.location is None ==> i.location.region.0@.len() == 0
                    && i.location.node.0@.len() == 0
            }
        },
{
}

/// The id of an instance is read as a UUID.
pub proof fn law_instance_id_is_a_uuid(
    p: &location_pb::Instance,
    parsed: Result<InstanceId, InvalidInstanceId>,
    r: Result<Instance, ClientError>,
    built: Result<Instance, ClientError>,
)
    requires
        call_ensures(read_instance, (p,), r),
        call_ensures(build_instance, (p, parsed), built),
        match parsed {
            Ok(id) => parsed_uuid(p.id@) == Ok::<u128, Seq<char>>(id.0),
            Err(e) => parsed_uuid(p.id@) == Err::<u128, Seq<char>>(e.reason@),
        },
    ensures
        r is Ok <==> built is Ok,
        r matches Ok(i) ==> i@ == built->Ok_0@,
        r matches Err(e) ==> e@ == built->Err_0@,
{
}

/// An instance with an endpoint is the instance inside it, with that endpoint. It is
/// refused without an instance inside, and as the instance inside is.
pub proof fn law_peer_is_an_instance_with_an_endpoint(
    p: &pb::Instance,
    r: Result<Instance, ClientError>,
    inner: Result<Instance, ClientError>,
)
    requires
        call_ensures(read_peer, (p,), r),
        p.instance is Some ==> call_ensures(read_instance, (&p.instance->Some_0,), inner),
    ensures
        p.instance is None ==> refused(r, "missing field: "@ + "Instance.instance"@),
        p.instance is Some && inner is Err ==> r is Err && r->Err_0@ == inner->Err_0@,
        p.instance is Some && inner is Ok ==> {
            &&& r is Ok
            &&& r->Ok_0.endpoint.0@ == p.endpoint@
            &&& r->Ok_0.id == inner->Ok_0.id
            &&& r->Ok_0.name.0@ == inner->Ok_0.name.0@
            &&& r->Ok_0.created@ == inner->Ok_0.created@
            &&& r->Ok_0.location.region.0@ == inner->Ok_0.location.region.0@
            &&& r->Ok_0.location.node.0@ == inner->Ok_0.location.node.0@
        },
{
    if p.instance is Some && inner is Ok {
        let a = r->Ok_0@;
        let b = inner->Ok_0@;
        assert(a.location == b.location);
    }
}

/// A domain name is read with its service, and is refused without one.
pub proof fn law_domain_is_read_part_by_part(
    p: &pb::QualifiedDomainName,
    r: Result<QualifiedDomainName, ClientError>,
)
    requires
        call_ensures(read_domain, (p,), r),
    ensures
        p.service is None ==> refused(r, "missing field: "@ + "QualifiedDomainName.service"@),
        p.service matches Some(s) ==> {
            &&& r is Ok
            &&& r->Ok_0.name.0@ == p.name@
            &&& r->Ok_0.service.tenant.0@ == s.tenant@
            &&& r->Ok_0.service.service.0@ == s.service@
        },
{
    if p.service is Some {
        assert(r->Ok_0@.service == service_of(p.service->Some_0));
    }
}

/// A qualified key is read with its domain; a key that is missing counts as empty. It is
/// refused without a domain, and as its domain is.
pub proof fn law_key_is_read_part_by_part(
    p: &pb::QualifiedDomainKey,
    r: Result<QualifiedDomainKey, ClientError>,
    domain: Result<QualifiedDomainName, ClientError>,
)
    requires
        call_ensures(read_qualified_key, (p,), r),
        p.domain is Some ==> call_ensures(read_domain, (&p.domain->Some_0,), domain),
    ensures
        p.domain is None ==> refused(r, "missing field: "@ + "QualifiedDomainKey.domain"@),
        p.domain is Some && domain is Err ==> r is Err && r->Err_0@ == domain->Err_0@,
        p.domain is Some && domain is Ok ==> {
            &&& r is Ok
            &&& r->Ok_0.domain@ == domain->Ok_0@
            &&& p.key matches Some(k) ==> r->Ok_0.key.region.0@ == k.region@ && r->Ok_0.key.key@
                == k.key@
            &&& p.key is None ==> r->Ok_0.key.region.0@.len() == 0 && r->Ok_0.key.key@.len() == 0
        },
{
    if p.domain is Some && domain is Ok {
        assert(r->Ok_0@.key == key_of(p.key));
    }
}

/// A shard is read part by part: domain, kind, region and both bounds. It is refused
/// without a domain, and as its domain is.
pub proof fn law_shard_is_read_part_by_part(
    p: &pb::Shard,
    r: Result<Shard, ClientError>,
    domain: Result<QualifiedDomainName, ClientError>,
)
    requires
        call_ensures(read_shard, (p,), r),
        p.domain is Some ==> call_ensures(read_domain, (&p.domain->Some_0,), domain),
    ensures
        p.domain is None ==> refused(r, "missing field: "@ + "Shard.domain"@),
        p.domain is Some && domain is Err ==> r is Err && r->Err_0@ == domain->Err_0@,
        p.domain is Some && domain is Ok ==> {
            &&& r is Ok
            &&& r->Ok_0.domain@ == domain->Ok_0@
            &&& r->Ok_0.region.0@ == p.region@
            &&& r->Ok_0.from@ == p.from@
            &&& r->Ok_0.to@ == p.to@
            &&& forall|kind: DomainType| #[trigger]
                call_ensures(domain_type_from_i32, (p.kind,), kind) ==> r->Ok_0.kind == kind
        },
{
}

/// The numbers of grant states: the five that are known, and everything else.
pub proof fn law_grant_states_have_their_numbers(v: i32, r: GrantState)
    requires
        call_ensures(grant_state_from_i32, (v,), r),
    ensures
        r is Active <==> v == 1,
        r is Allocated <==> v == 2,
        r is Revoked <==> v == 3,
        r is AllocatedLoaded <==> v == 4,
        r is RevokedUnloaded <==> v == 5,
        r is Unknown <==> v < 1 || v > 5,
{
}

/// The numbers of domain types: the three that are valid, and everything else.
pub proof fn law_domain_types_have_their_numbers(v: i32, r: DomainType)
    requires
        call_ensures(domain_type_from_i32, (v,), r),
    ensures
        r is Unit <==> v == 1,
        r is Global <==> v == 2,
        r is Regional <==> v == 3,
        r is Invalid <==> v < 1 || v > 3,
{
}

/// A state or a type is written as the number from which it is read.
pub proof fn law_numbers_are_written_as_read(
    s: pb::GrantState,
    d: pb::DomainType,
    x: i32,
    y: i32,
    s_again: Option<pb::GrantState>,
    d_again: Option<pb::DomainType>,
)
    requires
        call_ensures(pb::GrantState::to_i32, (s,), x),
        call_ensures(pb::DomainType::to_i32, (d,), y),
        call_ensures(pb::GrantState::from_i32, (x,), s_again),
        call_ensures(pb::DomainType::from_i32, (y,), d_again),
    ensures
        s_again == Some(s),
        d_again == Some(d),
        s is Active <==> x == 1,
        s is Allocated <==> x == 2,
        s is Revoked <==> x == 3,
        s is AllocatedLoaded <==> x == 4,
        s is RevokedUnloaded <==> x == 5,
        s is Unknown <==> x == 0,
        d is Unit <==> y == 1,
        d is Global <==> y == 2,
        d is Regional <==> y == 3,
        d is Invalid <==> y == 0,
{
    if s_again is None {
        assert(s.number() != x);
    }
    if d_again is None {
        assert(d.number() != y);
    }
}

/// A location, an instance, a service, a domain and a shard are each written with their
/// parts in order.
pub proof fn law_texts_show_the_parts(
    l: &Location,
    i: &Instance,
    q: &QualifiedServiceName,
    d: &QualifiedDomainName,
    s: &Shard,
    lt: String,
    it: String,
    qt: String,
    dt: String,
    st: String,
)
    requires
        call_ensures(Location::to_string, (l,), lt),
        call_ensures(Instance::to_string, (i,), it),
        call_ensures(QualifiedServiceName::to_string, (q,), qt),
        call_ensures(QualifiedDomainName::to_string, (d,), dt),
        call_ensures(Shard::to_string, (s,), st),
    ensures
        lt@ == l.region.0@ + "/"@ + l.node.0@,
        it@ == hyphenated(i.id.0) + "@"@ + (i.location.region.0@ + "/"@ + i.location.node.0@),
        qt@ == q.tenant.0@ + "/"@ + q.service.0@,
        dt@ == d.service.tenant.0@ + "/"@ + d.service.service.0@ + "/"@ + d.name.0@,
        st@ == s.domain.service.tenant.0@ + "/"@ + s.domain.service.service.0@ + "/"@
            + s.domain.name.0@ + "["@ + s.from@ + ".."@ + s.to@ + "]"@,
{
}

/// A text is read as a qualified service name exactly where it has something before and
/// something after its first slash, and these are the two parts.
pub proof fn law_service_is_cut_at_the_first_slash(s: &str, r: Option<QualifiedServiceName>)
    requires
        call_ensures(QualifiedServiceName::parse, (s,), r),
    ensures
        r matches Some(q) ==> {
            &&& s@ == q.tenant.0@ + "/"@ + q.service.0@
            &&& !q.tenant.0@.contains('/')
            &&& q.tenant.0@.len() > 0
            &&& q.service.0@.len() > 0
        },
        r is None ==> forall|a: Seq<char>, b: Seq<char>|
            a.len() > 0 && b.len() > 0 && !a.contains('/') ==> s@ != #[trigger] (a + "/"@ + b),
{
    reveal_strlit("/");
    if let Some(q) = r {
        law_parsed_service_has_that_text(s@);
        s@.index_of_first_ensures('/');
        assert(service_text(q@) =~= q.tenant.0@ + "/"@ + q.service.0@);
        let i = s@.index_of_first('/')->0;
        assert(q.tenant.0@ == s@.take(i));
        if q.tenant.0@.contains('/') {
            let j = choose|j: int| 0 <= j < q.tenant.0@.len() && q.tenant.0@[j] == '/';
            assert(s@[j] == '/');
        }
    } else {
        assert forall|a: Seq<char>, b: Seq<char>|
            a.len() > 0 && b.len() > 0 && !a.contains('/') implies s@ != #[trigger] (a + "/"@
            + b) by {
            if s@ == a + "/"@ + b {
                let q = ServiceView { tenant: a, service: b };
                law_service_text_parses_back(q);
                assert(service_text(q) =~= s@);
            }
        }
    }
}

/// An id is read from a text, and a text is written for an id, that stand for each
/// other.
pub proof fn law_ids_are_read_as_written(
    id: InstanceId,
    text: String,
    again: &str,
    r: Result<InstanceId, InvalidInstanceId>,
)
    requires
        call_ensures(InstanceId::to_string, (&id,), text),
        again@ == text@,
        call_ensures(<InstanceId as TryFrom<&str>>::try_from, (again,), r),
    ensures
        r == Ok::<InstanceId, InvalidInstanceId>(id),
        text@ == hyphenated(id.0),
        text@.len() == 36,
{
}

/// The name of a key travels as it is, both ways.
pub proof fn law_key_names_travel_as_they_are(n: DomainKeyName, raw: pb::DomainKeyName)
    requires
        call_ensures(<pb::DomainKeyName as From<DomainKeyName>>::from, (n,), raw),
    ensures
        raw.domain@ == n.domain.0@,
        raw.name@ == n.name@,
{
}

/// A shard travels part by part: domain, number of its kind, region and both bounds.
pub proof fn law_shard_is_written_part_by_part(s: Shard, raw: pb::Shard, back: Result<Shard, ClientError>)
    requires
        call_ensures(<pb::Shard as From<Shard>>::from, (s,), raw),
        call_ensures(read_shard, (&raw,), back),
    ensures
        raw.from@ == s.from@,
        raw.to@ == s.to@,
        raw.region@ == s.region.0@,
        back is Ok,
        back->Ok_0@ == s@,
{
    law_shard_survives_the_wire(s);
}

/// Two locations are equal exactly where both parts are.
pub proof fn law_equal_locations(a: &Location, b: &Location, r: bool)
    requires
        call_ensures(<Location as PartialEq>::eq, (a, b), r),
    ensures
        r == {
            &&& a.region.0@ == b.region.0@
            &&& a.node.0@ == b.node.0@
        },
{
    assert(r == (a@ =~= b@));
}

/// Two instances are equal exactly where all their parts are.
pub proof fn law_equal_instances(a: &Instance, b: &Instance, r: bool)
    requires
        call_ensures(<Instance as PartialEq>::eq, (a, b), r),
    ensures
        r == {
            &&& a.id.0 == b.id.0
            &&& a.location.region.0@ == b.location.region.0@
            &&& a.location.node.0@ == b.location.node.0@
            &&& a.name.0@ == b.name.0@
            &&& a.created@ == b.created@
            &&& a.endpoint.0@ == b.endpoint.0@
        },
{
    assert(r == (a@ =~= b@));
}

/// Two qualified service names are equal exactly where both parts are.
pub proof fn law_equal_services(a: &QualifiedServiceName, b: &QualifiedServiceName, r: bool)
    requires
        call_ensures(<QualifiedServiceName as PartialEq>::eq, (a, b), r),
    ensures
        r == {
            &&& a.tenant.0@ == b.tenant.0@
            &&& a.service.0@ == b.service.0@
        },
{
    assert(r == (a@ =~= b@));
}

/// Two qualified domain names are equal exactly where all their parts are.
pub proof fn law_equal_domains(a: &QualifiedDomainName, b: &QualifiedDomainName, r: bool)
    requires
        call_ensures(<QualifiedDomainName as PartialEq>::eq, (a, b), r),
    ensures
        r == {
            &&& a.service.tenant.0@ == b.service.tenant.0@
            &&& a.service.service.0@ == b.service.service.0@
            &&& a.name.0@ == b.name.0@
        },
{
    assert(r == (a@ =~= b@));
}

/// Two qualified keys are equal exactly where all their parts are.
pub proof fn law_equal_keys(a: &QualifiedDomainKey, b: &QualifiedDomainKey, r: bool)
    requires
        call_ensures(<QualifiedDomainKey as PartialEq>::eq, (a, b), r),
    ensures
        r == {
            &&& a.domain.service.tenant.0@ == b.domain.service.tenant.0@
            &&& a.domain.service.service.0@ == b.domain.service.service.0@
            &&& a.domain.name.0@ == b.domain.name.0@
            &&& a.key.region.0@ == b.key.region.0@
            &&& a.key.key@ == b.key.key@
        },
{
    assert(r == (a@ =~= b@));
}

/// Two shards are equal exactly where all their parts are.
pub proof fn law_equal_shards(a: &Shard, b: &Shard, r: bool)
    requires
        call_ensures(<Shard as PartialEq>::eq, (a, b), r),
    ensures
        r == {
            &&& a.domain.service.tenant.0@ == b.domain.service.tenant.0@
            &&& a.domain.service.service.0@ == b.domain.service.service.0@
            &&& a.domain.name.0@ == b.domain.name.0@
            &&& a.kind == b.kind
            &&& a.region.0@ == b.region.0@
            &&& a.from@ == b.from@
            &&& a.to@ == b.to@
        },
{
    assert(r == (a@ =~= b@));
}

/// Two key names are equal exactly where both parts are.
pub proof fn law_equal_key_names(a: &DomainKeyName, b: &DomainKeyName, r: bool)
    requires
        call_ensures(<DomainKeyName as PartialEq>::eq, (a, b), r),
    ensures
        r == {
            &&& a.domain.0@ == b.domain.0@
            &&& a.name@ == b.name@
        },
{
    assert(r == (a@ =~= b@));
}

/// Locations, services, domains and keys are written with each part as it is, and
/// locations, services and keys are read so.
pub proof fn law_names_travel_part_by_part(
    l: Location,
    lp: location_pb::Location,
    l2: Location,
    q: QualifiedServiceName,
    qp: pb::QualifiedServiceName,
    q2: QualifiedServiceName,
    d: QualifiedDomainName,
    dp: pb::QualifiedDomainName,
    k: QualifiedDomainKey,
    kp: pb::QualifiedDomainKey,
)
    requires
        call_ensures(<location_pb::Location as From<Location>>::from, (l,), lp),
        call_ensures(<Location as From<location_pb::Location>>::from, (lp,), l2),
        call_ensures(<pb::QualifiedServiceName as From<QualifiedServiceName>>::from, (q,), qp),
        call_ensures(<QualifiedServiceName as From<pb::QualifiedServiceName>>::from, (qp,), q2),
        call_ensures(<pb::QualifiedDomainName as From<QualifiedDomainName>>::from, (d,), dp),
        call_ensures(<pb::QualifiedDomainKey as From<QualifiedDomainKey>>::from, (k,), kp),
    ensures
        lp.region@ == l.region.0@,
        lp.node@ == l.node.0@,
        l2@ == l@,
        qp.tenant@ == q.tenant.0@,
        qp.service@ == q.service.0@,
        q2@ == q@,
        dp.name@ == d.name.0@,
        dp.service matches Some(s) && s.tenant@ == d.service.tenant.0@ && s.service@
            == d.service.service.0@,
        kp.domain matches Some(kd) && kd.name@ == k.domain.name.0@,
        kp.key matches Some(kk) && kk.region@ == k.key.region.0@ && kk.key@ == k.key.key@,
{
}

/// An instance is written with each part as it is: its id in hyphenated form, its
/// location, its name, its time of creation and, outside, its endpoint.
pub proof fn law_instance_is_written_part_by_part(i: Instance, p: pb::Instance, ts: Timestamp)
    requires
        call_ensures(<pb::Instance as From<Instance>>::from, (i,), p),
        call_ensures(system_time_to_timestamp, (i.created,), ts),
    ensures
        p.endpoint@ == i.endpoint.0@,
        p.instance matches Some(q) && {
            &&& q.id@ == hyphenated(i.id.0)
            &&& q.name@ == i.name.0@
            &&& q.created == Some(ts)
            &&& q.location matches Some(l) && l.region@ == i.location.region.0@ && l.node@
                == i.location.node.0@
        },
{
    let q = p.instance->Some_0;
    assert(location_of(q.location) == i@.location);
}

} // verus!
