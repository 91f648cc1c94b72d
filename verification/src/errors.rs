//! Error types of the library.

use vstd::prelude::*;

verus! {

/// Failures of DNS-record maintenance, kept distinct up to the caller so
/// that each kind can map to its own exit path.
#[derive(Clone, Copy, Debug, PartialEq, Eq, Structural)]
pub enum OvhDnsUpdaterError {
    /// The endpoint identifier is not in the fixed allow-list.
    OvhLoginError,
    /// No registrable root could be found in the given domain name.
    IncorrectDomainNameFormat,
    /// A record lookup could not be carried out.
    OvhDomainRetrievingError,
    /// A provider response could not be decoded.
    IncorrectAPIResponseFormat,
    /// The lookup did not name exactly one record.
    DomainZoneEntryDoesntExist,
    /// The record update was not acknowledged.
    OvhDomainUpdatingError,
}

/// Failures of public-IP discovery, one connection and one decoding error
/// per IP version.
#[derive(Clone, Copy, Debug, PartialEq, Eq, Structural)]
pub enum PublicIpRetrieverError {
    Ip4ConnectionError,
    Ip6ConnectionError,
    Ip4ParseError,
    Ip6ParseError,
}

/// Failure of the comma-separated IP-echo record format.
#[derive(Clone, Copy, Debug, PartialEq, Eq, Structural)]
pub enum IpMeRetrieverError {
    /// The response held no second comma-separated field.
    ComaSeparatedFieldsError,
}

} // verus!
