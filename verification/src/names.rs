//! Names: strings wrapped in a type of their own.
//!
//! Identifier-like fields are wrapped in newtypes (e.g. [`TenantName`],
//! [`ServiceName`], [`Region`]) so that the type system rejects a tenant where a
//! service was expected. The view of a wrapper is the text that it holds, and two
//! wrappers are equal where their texts are.

use vstd::prelude::*;

use crate::table::TableKey;
use crate::text;
use crate::text::Order;

verus! {

/// Unique identifier of a grant. Grants are assigned by the server, so an id comes
/// from the server and is never made here.
#[derive(Debug, Hash)]
pub struct GrantId(pub String);

impl View for GrantId {
    type V = Seq<char>;

    open spec fn view(&self) -> Seq<char> {
        self.0@
    }
}

impl GrantId {
    /// Wraps a string.
    pub fn new<S: Into<String>>(s: S) -> (r: Self)
        ensures
            call_ensures(<S as Into<String>>::into, (s,), r.0),
    {
        GrantId(s.into())
    }

    /// The wrapped string.
    pub fn as_str(&self) -> (r: &str)
        ensures
            r@ == self@,
    {
        self.0.as_str()
    }

    /// Unwraps the string.
    pub fn into_string(self) -> (r: String)
        ensures
            r == self.0,
    {
        self.0
    }

    /// Whether the string is empty.
    pub fn is_empty(&self) -> (r: bool)
        ensures
            r == (self@.len() == 0),
    {
        self.0.as_str().is_empty()
    }

    /// The string as text.
    pub fn to_string(&self) -> (r: String)
        ensures
            r@ == self@,
    {
        self.0.clone()
    }
}

impl Clone for GrantId {
    fn clone(&self) -> (r: Self)
        ensures
            r == *self,
    {
        GrantId(self.0.clone())
    }
}

impl PartialEq for GrantId {
    fn eq(&self, other: &Self) -> (r: bool) {
        self.0 == other.0
    }
}

impl vstd::std_specs::cmp::PartialEqSpecImpl for GrantId {
    open spec fn obeys_eq_spec() -> bool {
        true
    }

    open spec fn eq_spec(&self, other: &Self) -> bool {
        self@ == other@
    }
}

impl Eq for GrantId {

}

impl Default for GrantId {
    fn default() -> (r: Self)
        ensures
            r@ == Seq::<char>::empty(),
    {
        GrantId(String::new())
    }
}

impl From<String> for GrantId {
    fn from(s: String) -> (r: Self) {
        GrantId(s)
    }
}

impl vstd::std_specs::convert::FromSpecImpl<String> for GrantId {
    open spec fn obeys_from_spec() -> bool {
        true
    }

    open spec fn from_spec(s: String) -> Self {
        GrantId(s)
    }
}

impl AsRef<str> for GrantId {
    fn as_ref(&self) -> (r: &str)
        ensures
            r@ == self@,
    {
        self.0.as_str()
    }
}

impl From<&str> for GrantId {
    fn from(s: &str) -> (r: Self)
        ensures
            r@ == s@,
    {
        GrantId(s.to_owned())
    }
}

impl vstd::std_specs::convert::FromSpecImpl<&str> for GrantId {
    open spec fn obeys_from_spec() -> bool {
        false
    }

    open spec fn from_spec(s: &str) -> Self {
        choose|r: GrantId| r@ == s@
    }
}

/// A deployment region (e.g. `us-east-1`, `local`).
#[derive(Debug, Hash)]
pub struct Region(pub String);

impl View for Region {
    type V = Seq<char>;

    open spec fn view(&self) -> Seq<char> {
        self.0@
    }
}

impl Region {
    /// Wraps a string.
    pub fn new<S: Into<String>>(s: S) -> (r: Self)
        ensures
            call_ensures(<S as Into<String>>::into, (s,), r.0),
    {
        Region(s.into())
    }

    /// The wrapped string.
    pub fn as_str(&self) -> (r: &str)
        ensures
            r@ == self@,
    {
        self.0.as_str()
    }

    /// Unwraps the string.
    pub fn into_string(self) -> (r: String)
        ensures
            r == self.0,
    {
        self.0
    }

    /// Whether the string is empty.
    pub fn is_empty(&self) -> (r: bool)
        ensures
            r == (self@.len() == 0),
    {
        self.0.as_str().is_empty()
    }

    /// The string as text.
    pub fn to_string(&self) -> (r: String)
        ensures
            r@ == self@,
    {
        self.0.clone()
    }
}

impl Clone for Region {
    fn clone(&self) -> (r: Self)
        ensures
            r == *self,
    {
        Region(self.0.clone())
    }
}

impl PartialEq for Region {
    fn eq(&self, other: &Self) -> (r: bool) {
        self.0 == other.0
    }
}

impl vstd::std_specs::cmp::PartialEqSpecImpl for Region {
    open spec fn obeys_eq_spec() -> bool {
        true
    }

    open spec fn eq_spec(&self, other: &Self) -> bool {
        self@ == other@
    }
}

impl Eq for Region {

}

impl Default for Region {
    fn default() -> (r: Self)
        ensures
            r@ == Seq::<char>::empty(),
    {
        Region(String::new())
    }
}

impl From<String> for Region {
    fn from(s: String) -> (r: Self) {
        Region(s)
    }
}

impl vstd::std_specs::convert::FromSpecImpl<String> for Region {
    open spec fn obeys_from_spec() -> bool {
        true
    }

    open spec fn from_spec(s: String) -> Self {
        Region(s)
    }
}

impl AsRef<str> for Region {
    fn as_ref(&self) -> (r: &str)
        ensures
            r@ == self@,
    {
        self.0.as_str()
    }
}

impl From<&str> for Region {
    fn from(s: &str) -> (r: Self)
        ensures
            r@ == s@,
    {
        Region(s.to_owned())
    }
}

impl vstd::std_specs::convert::FromSpecImpl<&str> for Region {
    open spec fn obeys_from_spec() -> bool {
        false
    }

    open spec fn from_spec(s: &str) -> Self {
        choose|r: Region| r@ == s@
    }
}

/// A node or pod name within a region.
#[derive(Debug, Hash)]
pub struct NodeName(pub String);

impl View for NodeName {
    type V = Seq<char>;

    open spec fn view(&self) -> Seq<char> {
        self.0@
    }
}

impl NodeName {
    /// Wraps a string.
    pub fn new<S: Into<String>>(s: S) -> (r: Self)
        ensures
            call_ensures(<S as Into<String>>::into, (s,), r.0),
    {
        NodeName(s.into())
    }

    /// The wrapped string.
    pub fn as_str(&self) -> (r: &str)
        ensures
            r@ == self@,
    {
        self.0.as_str()
    }

    /// Unwraps the string.
    pub fn into_string(self) -> (r: String)
        ensures
            r == self.0,
    {
        self.0
    }

    /// Whether the string is empty.
    pub fn is_empty(&self) -> (r: bool)
        ensures
            r == (self@.len() == 0),
    {
        self.0.as_str().is_empty()
    }

    /// The string as text.
    pub fn to_string(&self) -> (r: String)
        ensures
            r@ == self@,
    {
        self.0.clone()
    }
}

impl Clone for NodeName {
    fn clone(&self) -> (r: Self)
        ensures
            r == *self,
    {
        NodeName(self.0.clone())
    }
}

impl PartialEq for NodeName {
    fn eq(&self, other: &Self) -> (r: bool) {
        self.0 == other.0
    }
}

impl vstd::std_specs::cmp::PartialEqSpecImpl for NodeName {
    open spec fn obeys_eq_spec() -> bool {
        true
    }

    open spec fn eq_spec(&self, other: &Self) -> bool {
        self@ == other@
    }
}

impl Eq for NodeName {

}

impl Default for NodeName {
    fn default() -> (r: Self)
        ensures
            r@ == Seq::<char>::empty(),
    {
        NodeName(String::new())
    }
}

impl From<String> for NodeName {
    fn from(s: String) -> (r: Self) {
        NodeName(s)
    }
}

impl vstd::std_specs::convert::FromSpecImpl<String> for NodeName {
    open spec fn obeys_from_spec() -> bool {
        true
    }

    open spec fn from_spec(s: String) -> Self {
        NodeName(s)
    }
}

impl AsRef<str> for NodeName {
    fn as_ref(&self) -> (r: &str)
        ensures
            r@ == self@,
    {
        self.0.as_str()
    }
}

impl From<&str> for NodeName {
    fn from(s: &str) -> (r: Self)
        ensures
            r@ == s@,
    {
        NodeName(s.to_owned())
    }
}

impl vstd::std_specs::convert::FromSpecImpl<&str> for NodeName {
    open spec fn obeys_from_spec() -> bool {
        false
    }

    open spec fn from_spec(s: &str) -> Self {
        choose|r: NodeName| r@ == s@
    }
}

/// A tenant namespace.
#[derive(Debug, Hash)]
pub struct TenantName(pub String);

impl View for TenantName {
    type V = Seq<char>;

    open spec fn view(&self) -> Seq<char> {
        self.0@
    }
}

impl TenantName {
    /// Wraps a string.
    pub fn new<S: Into<String>>(s: S) -> (r: Self)
        ensures
            call_ensures(<S as Into<String>>::into, (s,), r.0),
    {
        TenantName(s.into())
    }

    /// The wrapped string.
    pub fn as_str(&self) -> (r: &str)
        ensures
            r@ == self@,
    {
        self.0.as_str()
    }

    /// Unwraps the string.
    pub fn into_string(self) -> (r: String)
        ensures
            r == self.0,
    {
        self.0
    }

    /// Whether the string is empty.
    pub fn is_empty(&self) -> (r: bool)
        ensures
            r == (self@.len() == 0),
    {
        self.0.as_str().is_empty()
    }

    /// The string as text.
    pub fn to_string(&self) -> (r: String)
        ensures
            r@ == self@,
    {
        self.0.clone()
    }
}

impl Clone for TenantName {
    fn clone(&self) -> (r: Self)
        ensures
            r == *self,
    {
        TenantName(self.0.clone())
    }
}

impl PartialEq for TenantName {
    fn eq(&self, other: &Self) -> (r: bool) {
        self.0 == other.0
    }
}

impl vstd::std_specs::cmp::PartialEqSpecImpl for TenantName {
    open spec fn obeys_eq_spec() -> bool {
        true
    }

    open spec fn eq_spec(&self, other: &Self) -> bool {
        self@ == other@
    }
}

impl Eq for TenantName {

}

impl Default for TenantName {
    fn default() -> (r: Self)
        ensures
            r@ == Seq::<char>::empty(),
    {
        TenantName(String::new())
    }
}

impl From<String> for TenantName {
    fn from(s: String) -> (r: Self) {
        TenantName(s)
    }
}

impl vstd::std_specs::convert::FromSpecImpl<String> for TenantName {
    open spec fn obeys_from_spec() -> bool {
        true
    }

    open spec fn from_spec(s: String) -> Self {
        TenantName(s)
    }
}

impl AsRef<str> for TenantName {
    fn as_ref(&self) -> (r: &str)
        ensures
            r@ == self@,
    {
        self.0.as_str()
    }
}

impl From<&str> for TenantName {
    fn from(s: &str) -> (r: Self)
        ensures
            r@ == s@,
    {
        TenantName(s.to_owned())
    }
}

impl vstd::std_specs::convert::FromSpecImpl<&str> for TenantName {
    open spec fn obeys_from_spec() -> bool {
        false
    }

    open spec fn from_spec(s: &str) -> Self {
        choose|r: TenantName| r@ == s@
    }
}

/// A service namespace within a tenant.
#[derive(Debug, Hash)]
pub struct ServiceName(pub String);

impl View for ServiceName {
    type V = Seq<char>;

    open spec fn view(&self) -> Seq<char> {
        self.0@
    }
}

impl ServiceName {
    /// Wraps a string.
    pub fn new<S: Into<String>>(s: S) -> (r: Self)
        ensures
            call_ensures(<S as Into<String>>::into, (s,), r.0),
    {
        ServiceName(s.into())
    }

    /// The wrapped string.
    pub fn as_str(&self) -> (r: &str)
        ensures
            r@ == self@,
    {
        self.0.as_str()
    }

    /// Unwraps the string.
    pub fn into_string(self) -> (r: String)
        ensures
            r == self.0,
    {
        self.0
    }

    /// Whether the string is empty.
    pub fn is_empty(&self) -> (r: bool)
        ensures
            r == (self@.len() == 0),
    {
        self.0.as_str().is_empty()
    }

    /// The string as text.
    pub fn to_string(&self) -> (r: String)
        ensures
            r@ == self@,
    {
        self.0.clone()
    }
}

impl Clone for ServiceName {
    fn clone(&self) -> (r: Self)
        ensures
            r == *self,
    {
        ServiceName(self.0.clone())
    }
}

impl PartialEq for ServiceName {
    fn eq(&self, other: &Self) -> (r: bool) {
        self.0 == other.0
    }
}

impl vstd::std_specs::cmp::PartialEqSpecImpl for ServiceName {
    open spec fn obeys_eq_spec() -> bool {
        true
    }

    open spec fn eq_spec(&self, other: &Self) -> bool {
        self@ == other@
    }
}

impl Eq for ServiceName {

}

impl Default for ServiceName {
    fn default() -> (r: Self)
        ensures
            r@ == Seq::<char>::empty(),
    {
        ServiceName(String::new())
    }
}

impl From<String> for ServiceName {
    fn from(s: String) -> (r: Self) {
        ServiceName(s)
    }
}

impl vstd::std_specs::convert::FromSpecImpl<String> for ServiceName {
    open spec fn obeys_from_spec() -> bool {
        true
    }

    open spec fn from_spec(s: String) -> Self {
        ServiceName(s)
    }
}

impl AsRef<str> for ServiceName {
    fn as_ref(&self) -> (r: &str)
        ensures
            r@ == self@,
    {
        self.0.as_str()
    }
}

impl From<&str> for ServiceName {
    fn from(s: &str) -> (r: Self)
        ensures
            r@ == s@,
    {
        ServiceName(s.to_owned())
    }
}

impl vstd::std_specs::convert::FromSpecImpl<&str> for ServiceName {
    open spec fn obeys_from_spec() -> bool {
        false
    }

    open spec fn from_spec(s: &str) -> Self {
        choose|r: ServiceName| r@ == s@
    }
}

/// A domain namespace within a service.
#[derive(Debug, Hash)]
pub struct DomainName(pub String);

impl View for DomainName {
    type V = Seq<char>;

    open spec fn view(&self) -> Seq<char> {
        self.0@
    }
}

impl DomainName {
    /// Wraps a string.
    pub fn new<S: Into<String>>(s: S) -> (r: Self)
        ensures
            call_ensures(<S as Into<String>>::into, (s,), r.0),
    {
        DomainName(s.into())
    }

    /// The wrapped string.
    pub fn as_str(&self) -> (r: &str)
        ensures
            r@ == self@,
    {
        self.0.as_str()
    }

    /// Unwraps the string.
    pub fn into_string(self) -> (r: String)
        ensures
            r == self.0,
    {
        self.0
    }

    /// Whether the string is empty.
    pub fn is_empty(&self) -> (r: bool)
        ensures
            r == (self@.len() == 0),
    {
        self.0.as_str().is_empty()
    }

    /// The string as text.
    pub fn to_string(&self) -> (r: String)
        ensures
            r@ == self@,
    {
        self.0.clone()
    }
}

impl Clone for DomainName {
    fn clone(&self) -> (r: Self)
        ensures
            r == *self,
    {
        DomainName(self.0.clone())
    }
}

impl PartialEq for DomainName {
    fn eq(&self, other: &Self) -> (r: bool) {
        self.0 == other.0
    }
}

impl vstd::std_specs::cmp::PartialEqSpecImpl for DomainName {
    open spec fn obeys_eq_spec() -> bool {
        true
    }

    open spec fn eq_spec(&self, other: &Self) -> bool {
        self@ == other@
    }
}

impl Eq for DomainName {

}

impl Default for DomainName {
    fn default() -> (r: Self)
        ensures
            r@ == Seq::<char>::empty(),
    {
        DomainName(String::new())
    }
}

impl From<String> for DomainName {
    fn from(s: String) -> (r: Self) {
        DomainName(s)
    }
}

impl vstd::std_specs::convert::FromSpecImpl<String> for DomainName {
    open spec fn obeys_from_spec() -> bool {
        true
    }

    open spec fn from_spec(s: String) -> Self {
        DomainName(s)
    }
}

impl AsRef<str> for DomainName {
    fn as_ref(&self) -> (r: &str)
        ensures
            r@ == self@,
    {
        self.0.as_str()
    }
}

impl From<&str> for DomainName {
    fn from(s: &str) -> (r: Self)
        ensures
            r@ == s@,
    {
        DomainName(s.to_owned())
    }
}

impl vstd::std_specs::convert::FromSpecImpl<&str> for DomainName {
    open spec fn obeys_from_spec() -> bool {
        false
    }

    open spec fn from_spec(s: &str) -> Self {
        choose|r: DomainName| r@ == s@
    }
}

/// A dial-able peer endpoint (e.g. `host:port` or `http://host:port`).
#[derive(Debug, Hash)]
pub struct Endpoint(pub String);

impl View for Endpoint {
    type V = Seq<char>;

    open spec fn view(&self) -> Seq<char> {
        self.0@
    }
}

impl Endpoint {
    /// Wraps a string.
    pub fn new<S: Into<String>>(s: S) -> (r: Self)
        ensures
            call_ensures(<S as Into<String>>::into, (s,), r.0),
    {
        Endpoint(s.into())
    }

    /// The wrapped string.
    pub fn as_str(&self) -> (r: &str)
        ensures
            r@ == self@,
    {
        self.0.as_str()
    }

    /// Unwraps the string.
    pub fn into_string(self) -> (r: String)
        ensures
            r == self.0,
    {
        self.0
    }

    /// Whether the string is empty.
    pub fn is_empty(&self) -> (r: bool)
        ensures
            r == (self@.len() == 0),
    {
        self.0.as_str().is_empty()
    }

    /// The string as text.
    pub fn to_string(&self) -> (r: String)
        ensures
            r@ == self@,
    {
        self.0.clone()
    }
}

impl Clone for Endpoint {
    fn clone(&self) -> (r: Self)
        ensures
            r == *self,
    {
        Endpoint(self.0.clone())
    }
}

impl PartialEq for Endpoint {
    fn eq(&self, other: &Self) -> (r: bool) {
        self.0 == other.0
    }
}

impl vstd::std_specs::cmp::PartialEqSpecImpl for Endpoint {
    open spec fn obeys_eq_spec() -> bool {
        true
    }

    open spec fn eq_spec(&self, other: &Self) -> bool {
        self@ == other@
    }
}

impl Eq for Endpoint {

}

impl Default for Endpoint {
    fn default() -> (r: Self)
        ensures
            r@ == Seq::<char>::empty(),
    {
        Endpoint(String::new())
    }
}

impl From<String> for Endpoint {
    fn from(s: String) -> (r: Self) {
        Endpoint(s)
    }
}

impl vstd::std_specs::convert::FromSpecImpl<String> for Endpoint {
    open spec fn obeys_from_spec() -> bool {
        true
    }

    open spec fn from_spec(s: String) -> Self {
        Endpoint(s)
    }
}

impl AsRef<str> for Endpoint {
    fn as_ref(&self) -> (r: &str)
        ensures
            r@ == self@,
    {
        self.0.as_str()
    }
}

impl From<&str> for Endpoint {
    fn from(s: &str) -> (r: Self)
        ensures
            r@ == s@,
    {
        Endpoint(s.to_owned())
    }
}

impl vstd::std_specs::convert::FromSpecImpl<&str> for Endpoint {
    open spec fn obeys_from_spec() -> bool {
        false
    }

    open spec fn from_spec(s: &str) -> Self {
        choose|r: Endpoint| r@ == s@
    }
}

/// Human-readable instance name. Informational only.
#[derive(Debug, Hash)]
pub struct InstanceName(pub String);

impl View for InstanceName {
    type V = Seq<char>;

    open spec fn view(&self) -> Seq<char> {
        self.0@
    }
}

impl InstanceName {
    /// Wraps a string.
    pub fn new<S: Into<String>>(s: S) -> (r: Self)
        ensures
            call_ensures(<S as Into<String>>::into, (s,), r.0),
    {
        InstanceName(s.into())
    }

    /// The wrapped string.
    pub fn as_str(&self) -> (r: &str)
        ensures
            r@ == self@,
    {
        self.0.as_str()
    }

    /// Unwraps the string.
    pub fn into_string(self) -> (r: String)
        ensures
            r == self.0,
    {
        self.0
    }

    /// Whether the string is empty.
    pub fn is_empty(&self) -> (r: bool)
        ensures
            r == (self@.len() == 0),
    {
        self.0.as_str().is_empty()
    }

    /// The string as text.
    pub fn to_string(&self) -> (r: String)
        ensures
            r@ == self@,
    {
        self.0.clone()
    }
}

impl Clone for InstanceName {
    fn clone(&self) -> (r: Self)
        ensures
            r == *self,
    {
        InstanceName(self.0.clone())
    }
}

impl PartialEq for InstanceName {
    fn eq(&self, other: &Self) -> (r: bool) {
        self.0 == other.0
    }
}

impl vstd::std_specs::cmp::PartialEqSpecImpl for InstanceName {
    open spec fn obeys_eq_spec() -> bool {
        true
    }

    open spec fn eq_spec(&self, other: &Self) -> bool {
        self@ == other@
    }
}

impl Eq for InstanceName {

}

impl Default for InstanceName {
    fn default() -> (r: Self)
        ensures
            r@ == Seq::<char>::empty(),
    {
        InstanceName(String::new())
    }
}

impl From<String> for InstanceName {
    fn from(s: String) -> (r: Self) {
        InstanceName(s)
    }
}

impl vstd::std_specs::convert::FromSpecImpl<String> for InstanceName {
    open spec fn obeys_from_spec() -> bool {
        true
    }

    open spec fn from_spec(s: String) -> Self {
        InstanceName(s)
    }
}

impl AsRef<str> for InstanceName {
    fn as_ref(&self) -> (r: &str)
        ensures
            r@ == self@,
    {
        self.0.as_str()
    }
}

impl From<&str> for InstanceName {
    fn from(s: &str) -> (r: Self)
        ensures
            r@ == s@,
    {
        InstanceName(s.to_owned())
    }
}

impl vstd::std_specs::convert::FromSpecImpl<&str> for InstanceName {
    open spec fn obeys_from_spec() -> bool {
        false
    }

    open spec fn from_spec(s: &str) -> Self {
        choose|r: InstanceName| r@ == s@
    }
}

impl TableKey for GrantId {
    type Value = Seq<char>;

    open spec fn key(&self) -> Seq<char> {
        self@
    }

    open spec fn lt(a: Seq<char>, b: Seq<char>) -> bool {
        text::text_lt(a, b)
    }

    proof fn lt_irreflexive(a: Seq<char>) {
        text::lemma_text_lt_irreflexive(a);
    }

    proof fn lt_transitive(a: Seq<char>, b: Seq<char>, c: Seq<char>) {
        text::lemma_text_lt_transitive(a, b, c);
    }

    fn order(&self, other: &Self) -> (r: Order) {
        text::compare(self.0.as_str(), other.0.as_str())
    }

    fn copy_key(&self) -> (r: Self) {
        self.clone()
    }
}

// ---------- Laws ----------

/// A [`GrantId`] holds the text that it was made from, whichever way it was made, and gives
/// that text back; two are equal exactly where their texts are.
pub proof fn law_grant_id_holds_its_text(
    s: &str,
    a: GrantId,
    b: GrantId,
    shown: &str,
    text: String,
    out: String,
    empty: bool,
    same: bool,
    none: GrantId,
)
    requires
        call_ensures(GrantId::new::<&str>, (s,), a),
        call_ensures(<GrantId as From<&str>>::from, (s,), b),
        call_ensures(GrantId::as_str, (&a,), shown),
        call_ensures(GrantId::to_string, (&a,), text),
        call_ensures(GrantId::into_string, (a,), out),
        call_ensures(GrantId::is_empty, (&a,), empty),
        call_ensures(<GrantId as PartialEq>::eq, (&a, &none), same),
        call_ensures(<GrantId as Default>::default, (), none),
    ensures
        a.0@ == s@,
        b.0@ == s@,
        shown@ == s@,
        text@ == s@,
        out@ == s@,
        empty <==> s@.len() == 0,
        none.0@.len() == 0,
        same <==> s@ == none.0@,
{
}

/// A [`Region`] holds the text that it was made from, whichever way it was made, and gives
/// that text back; two are equal exactly where their texts are.
pub proof fn law_region_holds_its_text(
    s: &str,
    a: Region,
    b: Region,
    shown: &str,
    text: String,
    out: String,
    empty: bool,
    same: bool,
    none: Region,
)
    requires
        call_ensures(Region::new::<&str>, (s,), a),
        call_ensures(<Region as From<&str>>::from, (s,), b),
        call_ensures(Region::as_str, (&a,), shown),
        call_ensures(Region::to_string, (&a,), text),
        call_ensures(Region::into_string, (a,), out),
        call_ensures(Region::is_empty, (&a,), empty),
        call_ensures(<Region as PartialEq>::eq, (&a, &none), same),
        call_ensures(<Region as Default>::default, (), none),
    ensures
        a.0@ == s@,
        b.0@ == s@,
        shown@ == s@,
        text@ == s@,
        out@ == s@,
        empty <==> s@.len() == 0,
        none.0@.len() == 0,
        same <==> s@ == none.0@,
{
}

/// A [`NodeName`] holds the text that it was made from, whichever way it was made, and gives
/// that text back; two are equal exactly where their texts are.
pub proof fn law_node_name_holds_its_text(
    s: &str,
    a: NodeName,
    b: NodeName,
    shown: &str,
    text: String,
    out: String,
    empty: bool,
    same: bool,
    none: NodeName,
)
    requires
        call_ensures(NodeName::new::<&str>, (s,), a),
        call_ensures(<NodeName as From<&str>>::from, (s,), b),
        call_ensures(NodeName::as_str, (&a,), shown),
        call_ensures(NodeName::to_string, (&a,), text),
        call_ensures(NodeName::into_string, (a,), out),
        call_ensures(NodeName::is_empty, (&a,), empty),
        call_ensures(<NodeName as PartialEq>::eq, (&a, &none), same),
        call_ensures(<NodeName as Default>::default, (), none),
    ensures
        a.0@ == s@,
        b.0@ == s@,
        shown@ == s@,
        text@ == s@,
        out@ == s@,
        empty <==> s@.len() == 0,
        none.0@.len() == 0,
        same <==> s@ == none.0@,
{
}

/// A [`TenantName`] holds the text that it was made from, whichever way it was made, and gives
/// that text back; two are equal exactly where their texts are.
pub proof fn law_tenant_name_holds_its_text(
    s: &str,
    a: TenantName,
    b: TenantName,
    shown: &str,
    text: String,
    out: String,
    empty: bool,
    same: bool,
    none: TenantName,
)
    requires
        call_ensures(TenantName::new::<&str>, (s,), a),
        call_ensures(<TenantName as From<&str>>::from, (s,), b),
        call_ensures(TenantName::as_str, (&a,), shown),
        call_ensures(TenantName::to_string, (&a,), text),
        call_ensures(TenantName::into_string, (a,), out),
        call_ensures(TenantName::is_empty, (&a,), empty),
        call_ensures(<TenantName as PartialEq>::eq, (&a, &none), same),
        call_ensures(<TenantName as Default>::default, (), none),
    ensures
        a.0@ == s@,
        b.0@ == s@,
        shown@ == s@,
        text@ == s@,
        out@ == s@,
        empty <==> s@.len() == 0,
        none.0@.len() == 0,
        same <==> s@ == none.0@,
{
}

/// A [`ServiceName`] holds the text that it was made from, whichever way it was made, and gives
/// that text back; two are equal exactly where their texts are.
pub proof fn law_service_name_holds_its_text(
    s: &str,
    a: ServiceName,
    b: ServiceName,
    shown: &str,
    text: String,
    out: String,
    empty: bool,
    same: bool,
    none: ServiceName,
)
    requires
        call_ensures(ServiceName::new::<&str>, (s,), a),
        call_ensures(<ServiceName as From<&str>>::from, (s,), b),
        call_ensures(ServiceName::as_str, (&a,), shown),
        call_ensures(ServiceName::to_string, (&a,), text),
        call_ensures(ServiceName::into_string, (a,), out),
        call_ensures(ServiceName::is_empty, (&a,), empty),
        call_ensures(<ServiceName as PartialEq>::eq, (&a, &none), same),
        call_ensures(<ServiceName as Default>::default, (), none),
    ensures
        a.0@ == s@,
        b.0@ == s@,
        shown@ == s@,
        text@ == s@,
        out@ == s@,
        empty <==> s@.len() == 0,
        none.0@.len() == 0,
        same <==> s@ == none.0@,
{
}

/// A [`DomainName`] holds the text that it was made from, whichever way it was made, and gives
/// that text back; two are equal exactly where their texts are.
pub proof fn law_domain_name_holds_its_text(
    s: &str,
    a: DomainName,
    b: DomainName,
    shown: &str,
    text: String,
    out: String,
    empty: bool,
    same: bool,
    none: DomainName,
)
    requires
        call_ensures(DomainName::new::<&str>, (s,), a),
        call_ensures(<DomainName as From<&str>>::from, (s,), b),
        call_ensures(DomainName::as_str, (&a,), shown),
        call_ensures(DomainName::to_string, (&a,), text),
        call_ensures(DomainName::into_string, (a,), out),
        call_ensures(DomainName::is_empty, (&a,), empty),
        call_ensures(<DomainName as PartialEq>::eq, (&a, &none), same),
        call_ensures(<DomainName as Default>::default, (), none),
    ensures
        a.0@ == s@,
        b.0@ == s@,
        shown@ == s@,
        text@ == s@,
        out@ == s@,
        empty <==> s@.len() == 0,
        none.0@.len() == 0,
        same <==> s@ == none.0@,
{
}

/// A [`Endpoint`] holds the text that it was made from, whichever way it was made, and gives
/// that text back; two are equal exactly where their texts are.
pub proof fn law_endpoint_holds_its_text(
    s: &str,
    a: Endpoint,
    b: Endpoint,
    shown: &str,
    text: String,
    out: String,
    empty: bool,
    same: bool,
    none: Endpoint,
)
    requires
        call_ensures(Endpoint::new::<&str>, (s,), a),
        call_ensures(<Endpoint as From<&str>>::from, (s,), b),
        call_ensures(Endpoint::as_str, (&a,), shown),
        call_ensures(Endpoint::to_string, (&a,), text),
        call_ensures(Endpoint::into_string, (a,), out),
        call_ensures(Endpoint::is_empty, (&a,), empty),
        call_ensures(<Endpoint as PartialEq>::eq, (&a, &none), same),
        call_ensures(<Endpoint as Default>::default, (), none),
    ensures
        a.0@ == s@,
        b.0@ == s@,
        shown@ == s@,
        text@ == s@,
        out@ == s@,
        empty <==> s@.len() == 0,
        none.0@.len() == 0,
        same <==> s@ == none.0@,
{
}

/// A [`InstanceName`] holds the text that it was made from, whichever way it was made, and gives
/// that text back; two are equal exactly where their texts are.
pub proof fn law_instance_name_holds_its_text(
    s: &str,
    a: InstanceName,
    b: InstanceName,
    shown: &str,
    text: String,
    out: String,
    empty: bool,
    same: bool,
    none: InstanceName,
)
    requires
        call_ensures(InstanceName::new::<&str>, (s,), a),
        call_ensures(<InstanceName as From<&str>>::from, (s,), b),
        call_ensures(InstanceName::as_str, (&a,), shown),
        call_ensures(InstanceName::to_string, (&a,), text),
        call_ensures(InstanceName::into_string, (a,), out),
        call_ensures(InstanceName::is_empty, (&a,), empty),
        call_ensures(<InstanceName as PartialEq>::eq, (&a, &none), same),
        call_ensures(<InstanceName as Default>::default, (), none),
    ensures
        a.0@ == s@,
        b.0@ == s@,
        shown@ == s@,
        text@ == s@,
        out@ == s@,
        empty <==> s@.len() == 0,
        none.0@.len() == 0,
        same <==> s@ == none.0@,
{
}

} // verus!
