//! UUID generation: random v4 identifiers and name-based v5 identifiers
//! under the RFC namespaces. The identifiers themselves are opaque outside
//! values; what is stated of them is their textual shape.

use vstd::prelude::*;

verus! {

/// Declares the identifier type so it can be handed around and printed.
#[verifier::external_type_specification]
#[verifier::external_body]
pub struct ExUuid(::uuid::Uuid);

/// Relies on `::uuid::Uuid::new_v4`: a fresh random identifier. Nothing is
/// promised of the value.
pub assume_specification[ ::uuid::Uuid::new_v4 ]() -> ::uuid::Uuid
;

/// Relies on `::uuid::Uuid::new_v5`: the SHA-1 name-based identifier for a
/// namespace and a name.
pub assume_specification[ ::uuid::Uuid::new_v5 ](namespace: &::uuid::Uuid, name: &[u8]) -> ::uuid::Uuid
;

/// Relies on uuid's display form: hyphenated, 36 characters.
#[verifier::external_body]
fn uuid_to_string(u: &::uuid::Uuid) -> (r: String)
    ensures
        r@.len() == 36,
{
    u.to_string()
}

/// Relies on `::uuid::Uuid::NAMESPACE_DNS`, the RFC namespace for names
/// from the domain name system.
#[verifier::external_body]
fn ns_dns() -> ::uuid::Uuid {
    ::uuid::Uuid::NAMESPACE_DNS
}

/// Relies on `::uuid::Uuid::NAMESPACE_OID`, the RFC namespace for ISO OIDs.
#[verifier::external_body]
fn ns_oid() -> ::uuid::Uuid {
    ::uuid::Uuid::NAMESPACE_OID
}

/// Relies on `::uuid::Uuid::NAMESPACE_URL`, the RFC namespace for URLs.
#[verifier::external_body]
fn ns_url() -> ::uuid::Uuid {
    ::uuid::Uuid::NAMESPACE_URL
}

/// The hyphenated v5 identifier for a name under the DNS namespace: a
/// pure function of the name.
pub uninterp spec fn uuid_v5_dns_of(name: Seq<u8>) -> Seq<char>;

/// The hyphenated v5 identifier for a name under the OID namespace.
pub uninterp spec fn uuid_v5_oid_of(name: Seq<u8>) -> Seq<char>;

/// The hyphenated v5 identifier for a name under the URL namespace.
pub uninterp spec fn uuid_v5_url_of(name: Seq<u8>) -> Seq<char>;

/// Relies on `uuid::Uuid::new_v5` under `NAMESPACE_DNS` and uuid's display
/// form: a SHA-1 name-based identifier, a pure function of the name;
/// hyphenated, 36 characters.
#[verifier::external_body]
fn uuid_v5_dns_str(name: &[u8]) -> (r: String)
    ensures
        r@ == uuid_v5_dns_of(name@),
        r@.len() == 36,
{
    ::uuid::Uuid::new_v5(&::uuid::Uuid::NAMESPACE_DNS, name).to_string()
}

/// Relies on `uuid::Uuid::new_v5` under `NAMESPACE_OID` and uuid's display
/// form: a pure function of the name; hyphenated, 36 characters.
#[verifier::external_body]
fn uuid_v5_oid_str(name: &[u8]) -> (r: String)
    ensures
        r@ == uuid_v5_oid_of(name@),
        r@.len() == 36,
{
    ::uuid::Uuid::new_v5(&::uuid::Uuid::NAMESPACE_OID, name).to_string()
}

/// Relies on `uuid::Uuid::new_v5` under `NAMESPACE_URL` and uuid's display
/// form: a pure function of the name; hyphenated, 36 characters.
#[verifier::external_body]
fn uuid_v5_url_str(name: &[u8]) -> (r: String)
    ensures
        r@ == uuid_v5_url_of(name@),
        r@.len() == 36,
{
    ::uuid::Uuid::new_v5(&::uuid::Uuid::NAMESPACE_URL, name).to_string()
}

/// The namespace a v5 identifier is derived under.
#[allow(non_camel_case_types)]
pub enum UuidV5Namespace {
    DNS,
    OID,
    URL,
    X500,
}

/// A fresh random v4 identifier.
pub fn v4_raw() -> ::uuid::Uuid {
    ::uuid::Uuid::new_v4()
}

/// A fresh random v4 identifier, hyphenated.
pub fn v4() -> (r: String)
    ensures
        r@.len() == 36,
{
    uuid_to_string(&v4_raw())
}

/// The v5 identifier for `name` under the chosen namespace.
pub fn v5_raw(ns: UuidV5Namespace, name: &[u8]) -> ::uuid::Uuid {
    match ns {
        UuidV5Namespace::DNS => ::uuid::Uuid::new_v5(&ns_dns(), name),
        UuidV5Namespace::OID => ::uuid::Uuid::new_v5(&ns_oid(), name),
        UuidV5Namespace::URL => ::uuid::Uuid::new_v5(&ns_url(), name),
        UuidV5Namespace::X500 => ::uuid::Uuid::new_v5(&ns_dns(), name),
    }
}

/// The v5 identifier for `name` under the chosen namespace, hyphenated:
/// deterministic per namespace and name. The X500 namespace maps to the
/// DNS constant, as the contract states.
pub fn v5(ns: UuidV5Namespace, name: &[u8]) -> (r: String)
    ensures
        r@.len() == 36,
        r@ == (match ns {
            UuidV5Namespace::DNS => uuid_v5_dns_of(name@),
            UuidV5Namespace::OID => uuid_v5_oid_of(name@),
            UuidV5Namespace::URL => uuid_v5_url_of(name@),
            UuidV5Namespace::X500 => uuid_v5_dns_of(name@),
        }),
{
    match ns {
        UuidV5Namespace::DNS => uuid_v5_dns_str(name),
        UuidV5Namespace::OID => uuid_v5_oid_str(name),
        UuidV5Namespace::URL => uuid_v5_url_str(name),
        UuidV5Namespace::X500 => uuid_v5_dns_str(name),
    }
}

} // verus!
