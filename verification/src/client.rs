//! The signed API client: the endpoint allow-list, the credential set, the
//! clock-delta computation, and the construction of signed requests.
//!
//! Network transport is not done here: a caller performs each request that
//! a [`SignedRequest`] describes and hands the response body back to the
//! functions that decode it.

use vstd::prelude::*;
use vstd::string::StringExecFns;

use crate::signing::{signature, spec_signature};
use crate::text::{spec_parse_u64, parse_u64, str_eq, u64_to_string, spec_dec_string};

verus! {

// ---------------------------------------------------------------------------
// endpoint allow-list
// ---------------------------------------------------------------------------

/// The fixed mapping from endpoint identifiers to API base URLs; every
/// other identifier is rejected at construction.
pub open spec fn spec_endpoint_base_url(id: Seq<char>) -> Option<Seq<char>> {
    if id == "ovh-eu"@ {
        Some("https://eu.api.ovh.com/1.0"@)
    } else if id == "ovh-us"@ {
        Some("https://api.us.ovhcloud.com/1.0"@)
    } else if id == "ovh-ca"@ {
        Some("https://ca.api.ovh.com/1.0"@)
    } else if id == "kimsufi-eu"@ {
        Some("https://eu.api.kimsufi.com/1.0"@)
    } else if id == "kimsufi-ca"@ {
        Some("https://ca.api.kimsufi.com/1.0"@)
    } else if id == "soyoustart-eu"@ {
        Some("https://eu.api.soyoustart.com/1.0"@)
    } else if id == "soyoustart-ca"@ {
        Some("https://ca.api.soyoustart.com/1.0"@)
    } else {
        None
    }
}

pub fn endpoint_base_url(id: &str) -> (r: Option<&'static str>)
    ensures
        match r {
            Some(u) => spec_endpoint_base_url(id@) == Some(u@),
            None => spec_endpoint_base_url(id@) is None,
        },
{
    if str_eq(id, "ovh-eu") {
        Some("https://eu.api.ovh.com/1.0")
    } else if str_eq(id, "ovh-us") {
        Some("https://api.us.ovhcloud.com/1.0")
    } else if str_eq(id, "ovh-ca") {
        Some("https://ca.api.ovh.com/1.0")
    } else if str_eq(id, "kimsufi-eu") {
        Some("https://eu.api.kimsufi.com/1.0")
    } else if str_eq(id, "kimsufi-ca") {
        Some("https://ca.api.kimsufi.com/1.0")
    } else if str_eq(id, "soyoustart-eu") {
        Some("https://eu.api.soyoustart.com/1.0")
    } else if str_eq(id, "soyoustart-ca") {
        Some("https://ca.api.soyoustart.com/1.0")
    } else {
        None
    }
}

// ---------------------------------------------------------------------------
// the client
// ---------------------------------------------------------------------------

/// An immutable credential set bound to one API endpoint.
pub struct OvhClient {
    pub endpoint_base: String,
    pub application_key: String,
    pub application_secret: String,
    pub consumer_key: String,
}

impl OvhClient {
    /// Accepts exactly the identifiers of the allow-list and keeps the four
    /// credential strings unchanged.
    pub fn new(
        endpoint: &str,
        application_key: &str,
        application_secret: &str,
        consumer_key: &str,
    ) -> (r: Option<OvhClient>)
        ensures
            (r is Some) == (spec_endpoint_base_url(endpoint@) is Some),
            r matches Some(c) ==> spec_endpoint_base_url(endpoint@) == Some(c.endpoint_base@)
                && c.application_key@ == application_key@ && c.application_secret@
                == application_secret@ && c.consumer_key@ == consumer_key@,
    {
        match endpoint_base_url(endpoint) {
            None => None,
            Some(base) => Some(
                OvhClient {
                    endpoint_base: base.to_owned(),
                    application_key: application_key.to_owned(),
                    application_secret: application_secret.to_owned(),
                    consumer_key: consumer_key.to_owned(),
                },
            ),
        }
    }

    /// The absolute URL of an API path.
    pub fn url(&self, path: &str) -> (r: String)
        ensures
            r@ == self.endpoint_base@ + path@,
    {
        let mut u = self.endpoint_base.clone();
        u.append(path);
        u
    }
}

// ---------------------------------------------------------------------------
// clock delta and timestamp
// ---------------------------------------------------------------------------

/// Signed difference between the server clock and the local clock, exact
/// when it fits a machine integer.
pub fn compute_time_delta(server_time: u64, local_time: u64) -> (r: Option<i64>)
    ensures
        r matches Some(d) ==> d == server_time - local_time,
        (r is Some) == (i64::MIN <= server_time - local_time <= i64::MAX),
{
    if server_time >= local_time {
        let d: u64 = server_time - local_time;
        if d > 0x7fff_ffff_ffff_ffffu64 {
            None
        } else {
            Some(d as i64)
        }
    } else {
        let d: u64 = local_time - server_time;
        if d <= 0x7fff_ffff_ffff_ffffu64 {
            Some(-(d as i64))
        } else if d == 0x8000_0000_0000_0000u64 {
            Some(i64::MIN)
        } else {
            None
        }
    }
}

/// The timestamp carried by a signed call: the local clock corrected by the
/// delta, when that sum is representable.
pub fn signed_timestamp(local_time: u64, delta: i64) -> (r: Option<u64>)
    ensures
        r matches Some(t) ==> t == local_time + delta,
        (r is Some) == (0 <= local_time + delta <= u64::MAX),
{
    if delta >= 0 {
        let d: u64 = delta as u64;
        if local_time > u64::MAX - d {
            None
        } else {
            Some(local_time + d)
        }
    } else {
        let m: u64 = if delta == i64::MIN {
            0x8000_0000_0000_0000u64
        } else {
            (-delta) as u64
        };
        if local_time < m {
            None
        } else {
            Some(local_time - m)
        }
    }
}

/// Decimal rendering of a timestamp, as the signature scheme hashes it.
pub fn timestamp_string(t: u64) -> (r: String)
    ensures
        r@ == spec_dec_string(t as nat),
{
    u64_to_string(t)
}

/// Reads the server-time response body: plain decimal Unix seconds.
pub fn parse_server_time(body: &str) -> (r: Option<u64>)
    ensures
        r == spec_parse_u64(body@),
{
    parse_u64(body)
}

// ---------------------------------------------------------------------------
// signed requests
// ---------------------------------------------------------------------------

/// Everything a transport needs to perform one API call.  The body is the
/// very byte string that was hashed for the signature header, so the signed
/// text and the transmitted text cannot drift apart.
pub struct SignedRequest {
    pub method: String,
    pub url: String,
    pub body: String,
    pub headers: Vec<(String, String)>,
}

/// Headers of an authenticated call: the application key always, the three
/// sensitive signature headers, and a JSON content type exactly when a body
/// is present.
pub open spec fn spec_signed_headers(
    application_key: Seq<char>,
    application_secret: Seq<char>,
    consumer_key: Seq<char>,
    method: Seq<char>,
    url: Seq<char>,
    body: Seq<char>,
    timestamp: Seq<char>,
) -> Seq<(Seq<char>, Seq<char>)> {
    let base = seq![
        ("X-Ovh-Application"@, application_key),
        ("X-Ovh-Consumer"@, consumer_key),
        ("X-Ovh-Timestamp"@, timestamp),
        (
            "X-Ovh-Signature"@,
            spec_signature(application_secret, consumer_key, method, url, body, timestamp),
        ),
    ];
    if body.len() > 0 {
        base.push(("Content-Type"@, "application/json"@))
    } else {
        base
    }
}

impl OvhClient {
    /// Builds an authenticated request: URL from the endpoint base, the
    /// body passed through unchanged, and the signature computed over
    /// exactly these method, URL, body and timestamp.
    pub fn signed_request(&self, method: &str, path: &str, body: &str, timestamp: &str) -> (r:
        SignedRequest)
        ensures
            r.method@ == method@,
            r.url@ == self.endpoint_base@ + path@,
            r.body@ == body@,
            r.headers.deep_view() == spec_signed_headers(
                self.application_key@,
                self.application_secret@,
                self.consumer_key@,
                method@,
                self.endpoint_base@ + path@,
                body@,
                timestamp@,
            ),
    {
        let url = self.url(path);
        let sig = signature(
            self.application_secret.as_str(),
            self.consumer_key.as_str(),
            method,
            url.as_str(),
            body,
            timestamp,
        );
        let mut headers: Vec<(String, String)> = Vec::new();
        headers.push(("X-Ovh-Application".to_owned(), self.application_key.clone()));
        headers.push(("X-Ovh-Consumer".to_owned(), self.consumer_key.clone()));
        headers.push(("X-Ovh-Timestamp".to_owned(), timestamp.to_owned()));
        headers.push(("X-Ovh-Signature".to_owned(), sig));
        let body_len = body.unicode_len();
        if body_len > 0 {
            headers.push(("Content-Type".to_owned(), "application/json".to_owned()));
        }
        let r = SignedRequest { method: method.to_owned(), url, body: body.to_owned(), headers };
        proof {
            assert(r.headers.deep_view() =~= spec_signed_headers(
                self.application_key@,
                self.application_secret@,
                self.consumer_key@,
                method@,
                self.endpoint_base@ + path@,
                body@,
                timestamp@,
            ));
        }
        r
    }

    /// Builds the one unauthenticated call: a GET carrying only the
    /// application key header and no body.
    pub fn unauth_request(&self, path: &str) -> (r: SignedRequest)
        ensures
            r.method@ == "GET"@,
            r.url@ == self.endpoint_base@ + path@,
            r.body@.len() == 0,
            r.headers.deep_view() == seq![("X-Ovh-Application"@, self.application_key@)],
    {
        let url = self.url(path);
        let mut headers: Vec<(String, String)> = Vec::new();
        headers.push(("X-Ovh-Application".to_owned(), self.application_key.clone()));
        let r = SignedRequest {
            method: "GET".to_owned(),
            url,
            body: String::new(),
            headers,
        };
        proof {
            assert(r.headers.deep_view() =~= seq![
                ("X-Ovh-Application"@, self.application_key@),
            ]);
        }
        r
    }
}

/// A record update is acknowledged only by an exact HTTP 200; any other
/// status is a provider error even when transport succeeded.
pub fn update_status_ok(status: u16) -> (r: bool)
    ensures
        r == (status == 200),
{
    status == 200
}

} // verus!
