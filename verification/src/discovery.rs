//! Public-IP discovery: a fixed roster of independent IP-echo services,
//! one decoder per response shape, and the first-success rule that picks
//! the winner among concurrently completed fetches.
//!
//! The fetches themselves are performed outside the crate; each outcome is
//! handed in as a plain value and every decision made on it is verified.

use vstd::prelude::*;
use vstd::string::StringExecFns;

use crate::errors::{IpMeRetrieverError, PublicIpRetrieverError};
use crate::ip_addr::{
    IpAddress, IpVersion, spec_parse_ip, parse_ip_str, spec_parse_error, parse_error,
    spec_connection_error, connection_error,
};
use crate::json::{spec_json_string_member, json_string_member};
use crate::text::{spec_split, split_char};

verus! {

broadcast use vstd::string::group_string_axioms;

// ---------------------------------------------------------------------------
// response decodings
// ---------------------------------------------------------------------------

/// The three response shapes found on the roster.
#[derive(Clone, Copy, Debug, PartialEq, Eq, Structural)]
pub enum DecodeKind {
    /// The body is the address text itself.
    PlainText,
    /// The body is a comma-separated record whose second field is the
    /// address.
    CommaSeparated,
    /// The body is a JSON object whose `ip` member is the address.
    IpJson,
}

/// Second comma-separated field of an IP-echo record such as
/// `IPv4,203.0.113.7,v1.1,,,`.
pub fn parse_coma_separated_fields(text: &str) -> (r: Result<String, IpMeRetrieverError>)
    ensures
        (r is Ok) == (spec_split(text@, ',').len() > 1),
        r matches Ok(f) ==> f@ == spec_split(text@, ',')[1],
        r matches Err(e) ==> e == IpMeRetrieverError::ComaSeparatedFieldsError,
{
    let fields = split_char(text, ',');
    if fields.len() > 1 {
        let f = fields[1].clone();
        proof {
            assert(fields.deep_view()[1] == fields@[1]@);
        }
        Ok(f)
    } else {
        Err(IpMeRetrieverError::ComaSeparatedFieldsError)
    }
}

/// The address a response body denotes under a decoding, for a version.
pub open spec fn spec_decode_body(
    kind: DecodeKind,
    version: IpVersion,
    body: Seq<char>,
) -> Option<IpAddress> {
    match kind {
        DecodeKind::PlainText => spec_parse_ip(version, body),
        DecodeKind::CommaSeparated => {
            let parts = spec_split(body, ',');
            if parts.len() > 1 {
                spec_parse_ip(version, parts[1])
            } else {
                None
            }
        },
        DecodeKind::IpJson => match spec_json_string_member(body, "ip"@) {
            Some(t) => spec_parse_ip(version, t),
            None => None,
        },
    }
}

/// Decodes one provider's response body; every failure collapses into the
/// requested version's decoding error.
pub fn decode_provider_body(kind: DecodeKind, version: IpVersion, body: &str) -> (r: Result<
    IpAddress,
    PublicIpRetrieverError,
>)
    ensures
        (r is Ok) == (spec_decode_body(kind, version, body@) is Some),
        r matches Ok(a) ==> spec_decode_body(kind, version, body@) == Some(a) && a.spec_version()
            == version,
        r matches Err(e) ==> e == spec_parse_error(version),
{
    match kind {
        DecodeKind::PlainText => parse_ip_str(version, body),
        DecodeKind::CommaSeparated => match parse_coma_separated_fields(body) {
            Ok(f) => parse_ip_str(version, f.as_str()),
            Err(_) => Err(parse_error(version)),
        },
        DecodeKind::IpJson => match json_string_member(body, "ip") {
            Some(t) => parse_ip_str(version, t.as_str()),
            None => Err(parse_error(version)),
        },
    }
}

// ---------------------------------------------------------------------------
// one provider's outcome
// ---------------------------------------------------------------------------

/// What one fetch produced, as the transport hands it over: no response at
/// all, a response whose body could not be read, or a body.
pub enum ProviderResponse {
    NoConnection,
    Unreadable,
    Body(String),
}

/// Classifies one provider's fetch: no response is the version's
/// connection error, an unreadable or undecodable response its decoding
/// error, and a well-formed body the address it denotes.
pub fn provider_outcome(kind: DecodeKind, version: IpVersion, response: &ProviderResponse) -> (r:
    Result<IpAddress, PublicIpRetrieverError>)
    ensures
        match response {
            ProviderResponse::NoConnection => r matches Err(e) && e == spec_connection_error(
                version,
            ),
            ProviderResponse::Unreadable => r matches Err(e) && e == spec_parse_error(version),
            ProviderResponse::Body(b) => {
                &&& (r is Ok) == (spec_decode_body(kind, version, b@) is Some)
                &&& (r matches Ok(a) ==> spec_decode_body(kind, version, b@) == Some(a)
                    && a.spec_version() == version)
                &&& (r matches Err(e) ==> e == spec_parse_error(version))
            },
        },
{
    match response {
        ProviderResponse::NoConnection => Err(connection_error(version)),
        ProviderResponse::Unreadable => Err(parse_error(version)),
        ProviderResponse::Body(b) => decode_provider_body(kind, version, b.as_str()),
    }
}

// ---------------------------------------------------------------------------
// the roster
// ---------------------------------------------------------------------------

/// One IP-echo service: its decoding and its URL for each version.
pub struct ProviderSpec {
    pub decode: DecodeKind,
    pub url_v4: String,
    pub url_v6: String,
}

/// The engine that asks every roster service concurrently and takes the
/// first successful answer.
pub struct IpRetrieverFromFasterService {
    pub providers: Vec<ProviderSpec>,
}

impl IpRetrieverFromFasterService {
    /// The fixed roster: four independent services, one per known
    /// response shape, each with its two per-version URLs.
    pub fn new() -> (r: Self)
        ensures
            r.providers@.len() == 4,
            r.providers@[0].decode == DecodeKind::CommaSeparated,
            r.providers@[0].url_v4@ == "https://ip4.me/api/"@,
            r.providers@[0].url_v6@ == "https://ip6only.me/api/"@,
            r.providers@[1].decode == DecodeKind::IpJson,
            r.providers@[1].url_v4@ == "https://api.ipify.org?format=json"@,
            r.providers@[1].url_v6@ == "https://api6.ipify.org?format=json"@,
            r.providers@[2].decode == DecodeKind::PlainText,
            r.providers@[2].url_v4@ == "https://ipv4.lafibre.info/ip.php"@,
            r.providers@[2].url_v6@ == "https://ipv6.lafibre.info/ip.php"@,
            r.providers@[3].decode == DecodeKind::PlainText,
            r.providers@[3].url_v4@ == "https://v4.ident.me/"@,
            r.providers@[3].url_v6@ == "https://v6.ident.me/"@,
    {
        let mut providers: Vec<ProviderSpec> = Vec::new();
        providers.push(
            ProviderSpec {
                decode: DecodeKind::CommaSeparated,
                url_v4: "https://ip4.me/api/".to_owned(),
                url_v6: "https://ip6only.me/api/".to_owned(),
            },
        );
        providers.push(
            ProviderSpec {
                decode: DecodeKind::IpJson,
                url_v4: "https://api.ipify.org?format=json".to_owned(),
                url_v6: "https://api6.ipify.org?format=json".to_owned(),
            },
        );
        providers.push(
            ProviderSpec {
                decode: DecodeKind::PlainText,
                url_v4: "https://ipv4.lafibre.info/ip.php".to_owned(),
                url_v6: "https://ipv6.lafibre.info/ip.php".to_owned(),
            },
        );
        providers.push(
            ProviderSpec {
                decode: DecodeKind::PlainText,
                url_v4: "https://v4.ident.me/".to_owned(),
                url_v6: "https://v6.ident.me/".to_owned(),
            },
        );
        IpRetrieverFromFasterService { providers }
    }

    /// How many services are on the roster.
    pub fn provider_count(&self) -> (r: usize)
        ensures
            r == self.providers@.len(),
    {
        self.providers.len()
    }

    /// The URL one service is asked for one version.
    pub fn provider_url(&self, index: usize, version: IpVersion) -> (r: &str)
        requires
            index < self.providers@.len(),
        ensures
            r@ == (match version {
                IpVersion::V4 => self.providers@[index as int].url_v4@,
                IpVersion::V6 => self.providers@[index as int].url_v6@,
            }),
    {
        match version {
            IpVersion::V4 => self.providers[index].url_v4.as_str(),
            IpVersion::V6 => self.providers[index].url_v6.as_str(),
        }
    }

    /// Classifies one service's fetch outcome under that service's
    /// decoding.
    pub fn decode_for(&self, index: usize, version: IpVersion, response: &ProviderResponse) -> (r:
        Result<IpAddress, PublicIpRetrieverError>)
        requires
            index < self.providers@.len(),
        ensures
            match response {
                ProviderResponse::NoConnection => r matches Err(e) && e == spec_connection_error(
                    version,
                ),
                ProviderResponse::Unreadable => r matches Err(e) && e == spec_parse_error(version),
                ProviderResponse::Body(b) => {
                    &&& (r is Ok) == (spec_decode_body(
                        self.providers@[index as int].decode,
                        version,
                        b@,
                    ) is Some)
                    &&& (r matches Ok(a) ==> spec_decode_body(
                        self.providers@[index as int].decode,
                        version,
                        b@,
                    ) == Some(a) && a.spec_version() == version)
                    &&& (r matches Err(e) ==> e == spec_parse_error(version))
                },
            },
    {
        provider_outcome(self.providers[index].decode, version, response)
    }
}

// ---------------------------------------------------------------------------
// first success wins
// ---------------------------------------------------------------------------

/// The engine's result over outcomes listed in completion order: the
/// address of the earliest success, or nothing when every fetch failed.
pub open spec fn spec_first_success(
    outcomes: Seq<Result<IpAddress, PublicIpRetrieverError>>,
) -> Option<IpAddress>
    decreases outcomes.len(),
{
    if outcomes.len() == 0 {
        None
    } else {
        match outcomes[0] {
            Ok(a) => Some(a),
            Err(_) => spec_first_success(outcomes.drop_first()),
        }
    }
}

/// Discovery law, success side: when the outcome at `i` is the earliest
/// success, the engine returns exactly its address — later outcomes,
/// successful or not, change nothing.
pub proof fn lemma_first_success_at(
    outcomes: Seq<Result<IpAddress, PublicIpRetrieverError>>,
    i: int,
)
    requires
        0 <= i < outcomes.len(),
        outcomes[i] is Ok,
        forall|j: int| 0 <= j < i ==> (#[trigger] outcomes[j]) is Err,
    ensures
        spec_first_success(outcomes) == Some(outcomes[i]->Ok_0),
    decreases outcomes.len(),
{
    if i == 0 {
    } else {
        assert(outcomes[0] is Err);
        lemma_first_success_at(outcomes.drop_first(), i - 1);
    }
}

/// Discovery law, failure side: the engine reports plain absence exactly
/// when every provider failed; no per-provider error is ever raised.
pub proof fn lemma_first_success_none(outcomes: Seq<Result<IpAddress, PublicIpRetrieverError>>)
    ensures
        (spec_first_success(outcomes) is None) == (forall|j: int|
            0 <= j < outcomes.len() ==> (#[trigger] outcomes[j]) is Err),
    decreases outcomes.len(),
{
    if outcomes.len() == 0 {
    } else {
        lemma_first_success_none(outcomes.drop_first());
        assert forall|j: int| 1 <= j < outcomes.len() implies #[trigger] outcomes[j]
            == outcomes.drop_first()[j - 1] by {}
    }
}

/// Resolves a list of outcomes, in completion order, to the first
/// successful address.
pub fn first_success(outcomes: &Vec<Result<IpAddress, PublicIpRetrieverError>>) -> (r: Option<
    IpAddress,
>)
    ensures
        r == spec_first_success(outcomes@),
{
    let mut i: usize = 0;
    while i < outcomes.len()
        invariant
            0 <= i <= outcomes@.len(),
            forall|j: int| 0 <= j < i ==> (#[trigger] outcomes@[j]) is Err,
        decreases outcomes@.len() - i,
    {
        match &outcomes[i] {
            Ok(a) => {
                proof {
                    lemma_first_success_at(outcomes@, i as int);
                }
                return Some(*a);
            },
            Err(_) => {},
        }
        i = i + 1;
    }
    proof {
        lemma_first_success_none(outcomes@);
    }
    None
}

} // verus!
