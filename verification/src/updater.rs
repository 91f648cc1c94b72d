//! Record reconciliation: locating the one record of a (root, subdomain,
//! field type) triple, reading its current target, and deciding and
//! describing the update that brings it to the discovered address.
//!
//! Every operation looks the record id up afresh; nothing is cached across
//! calls, so concurrent outside edits are seen at the next lookup.

use vstd::prelude::*;
use vstd::string::StringExecFns;

use crate::client::{OvhClient, spec_endpoint_base_url};
use crate::errors::OvhDnsUpdaterError;
use crate::ip_addr::{
    IpAddress, IpVersion, spec_parse_ip, parse_ip_str, spec_format_ip, format_ip,
    spec_format_ipv6, spec_hex_u16_string,
};
use crate::json::{
    spec_parse_id_list, parse_id_list, spec_json_string_member, json_string_member,
    spec_update_body, update_body, json_plain_text, is_json_plain,
};
use crate::text::{
    spec_dec_string, u64_to_string, lemma_dec_string_digits, is_dec_digit,
};

verus! {

broadcast use vstd::string::group_string_axioms;

// ---------------------------------------------------------------------------
// the updater and its API paths
// ---------------------------------------------------------------------------

/// DNS field type discriminator of each IP version.
pub open spec fn spec_field_type(v: IpVersion) -> Seq<char> {
    match v {
        IpVersion::V4 => "A"@,
        IpVersion::V6 => "AAAA"@,
    }
}

pub fn field_type(v: IpVersion) -> (r: &'static str)
    ensures
        r@ == spec_field_type(v),
{
    match v {
        IpVersion::V4 => "A",
        IpVersion::V6 => "AAAA",
    }
}

/// Maintains address records through one signed API client.
pub struct OvhDnsUpdater {
    pub ovh_client: OvhClient,
}

impl OvhDnsUpdater {
    /// Fails with the login error exactly when the endpoint identifier is
    /// not in the allow-list.
    pub fn new(
        ovh_endpoint: &str,
        ovh_application_key: &str,
        ovh_application_secret: &str,
        ovh_consumer_key: &str,
    ) -> (r: Result<Self, OvhDnsUpdaterError>)
        ensures
            (r is Ok) == (spec_endpoint_base_url(ovh_endpoint@) is Some),
            r matches Ok(u) ==> spec_endpoint_base_url(ovh_endpoint@) == Some(
                u.ovh_client.endpoint_base@,
            ) && u.ovh_client.application_key@ == ovh_application_key@
                && u.ovh_client.application_secret@ == ovh_application_secret@
                && u.ovh_client.consumer_key@ == ovh_consumer_key@,
            r matches Err(e) ==> e == OvhDnsUpdaterError::OvhLoginError,
    {
        match OvhClient::new(
            ovh_endpoint,
            ovh_application_key,
            ovh_application_secret,
            ovh_consumer_key,
        ) {
            Some(client) => Ok(OvhDnsUpdater { ovh_client: client }),
            None => Err(OvhDnsUpdaterError::OvhLoginError),
        }
    }

    /// API path that lists the ids of the records matching a field type
    /// and subdomain in a zone.
    pub fn record_query_path(root: &str, sub: &str, version: IpVersion) -> (r: String)
        ensures
            r@ == "/domain/zone/"@ + root@ + "/record?fieldType="@ + spec_field_type(version)
                + "&subDomain="@ + sub@,
    {
        let mut p: String = "/domain/zone/".to_owned();
        p.append(root);
        p.append("/record?fieldType=");
        p.append(field_type(version));
        p.append("&subDomain=");
        p.append(sub);
        proof {
            assert(p@ =~= "/domain/zone/"@ + root@ + "/record?fieldType="@ + spec_field_type(
                version,
            ) + "&subDomain="@ + sub@);
        }
        p
    }

    /// API path of one record's detail, by id.
    pub fn record_detail_path(root: &str, id: u64) -> (r: String)
        ensures
            r@ == "/domain/zone/"@ + root@ + "/record/"@ + spec_dec_string(id as nat),
    {
        let mut p: String = "/domain/zone/".to_owned();
        p.append(root);
        p.append("/record/");
        let ids = u64_to_string(id);
        p.append(ids.as_str());
        proof {
            assert(p@ =~= "/domain/zone/"@ + root@ + "/record/"@ + spec_dec_string(id as nat));
        }
        p
    }
}

// ---------------------------------------------------------------------------
// choosing the record
// ---------------------------------------------------------------------------

impl OvhDnsUpdater {
    /// The lookup must name exactly one record: zero or several matches
    /// are reported as an error, never guessed at.
    pub fn unique_record_id(ids: &Vec<u64>) -> (r: Result<u64, OvhDnsUpdaterError>)
        ensures
            (r is Ok) == (ids@.len() == 1),
            r matches Ok(id) ==> id == ids@[0],
            r matches Err(e) ==> e == OvhDnsUpdaterError::DomainZoneEntryDoesntExist,
    {
        if ids.len() == 1 {
            Ok(ids[0])
        } else {
            Err(OvhDnsUpdaterError::DomainZoneEntryDoesntExist)
        }
    }

    /// Reads the id-list response and requires exactly one match: a body
    /// that is no id array is a format error, and any count but one is a
    /// missing or ambiguous zone entry.
    pub fn record_id_from_body(body: &str) -> (r: Result<u64, OvhDnsUpdaterError>)
        ensures
            (r is Ok) == (spec_parse_id_list(body@) matches Some(ids) && ids.len() == 1),
            r matches Ok(id) ==> spec_parse_id_list(body@) == Some(seq![id]),
            r matches Err(e) ==> (if spec_parse_id_list(body@) is None {
                e == OvhDnsUpdaterError::IncorrectAPIResponseFormat
            } else {
                e == OvhDnsUpdaterError::DomainZoneEntryDoesntExist
            }),
    {
        match parse_id_list(body) {
            None => Err(OvhDnsUpdaterError::IncorrectAPIResponseFormat),
            Some(ids) => {
                let r = Self::unique_record_id(&ids);
                proof {
                    if ids@.len() == 1 {
                        assert(ids@ =~= seq![ids@[0]]);
                    }
                }
                r
            },
        }
    }

    /// Reads the record-detail response and parses its `target` member as
    /// an address of the requested version; a missing member or an
    /// unparseable target is a format error, distinct from transport
    /// failures.
    pub fn target_from_detail_body(body: &str, version: IpVersion) -> (r: Result<
        IpAddress,
        OvhDnsUpdaterError,
    >)
        ensures
            (r is Ok) == (spec_json_string_member(body@, "target"@) matches Some(t)
                && spec_parse_ip(version, t) is Some),
            r matches Ok(a) ==> spec_json_string_member(body@, "target"@) matches Some(t)
                && spec_parse_ip(version, t) == Some(a) && a.spec_version() == version,
            r matches Err(e) ==> e == OvhDnsUpdaterError::IncorrectAPIResponseFormat,
    {
        match json_string_member(body, "target") {
            None => Err(OvhDnsUpdaterError::IncorrectAPIResponseFormat),
            Some(t) => match parse_ip_str(version, t.as_str()) {
                Ok(a) => Ok(a),
                Err(_) => Err(OvhDnsUpdaterError::IncorrectAPIResponseFormat),
            },
        }
    }
}

impl OvhDnsUpdater {
    /// Resolves the record id from a lookup outcome: a failed transport is
    /// a retrieval error, and the body is then read as
    /// [`Self::record_id_from_body`] describes.
    pub fn record_id_from_response(body: Option<&str>) -> (r: Result<u64, OvhDnsUpdaterError>)
        ensures
            body is None ==> r == Err::<u64, OvhDnsUpdaterError>(
                OvhDnsUpdaterError::OvhDomainRetrievingError,
            ),
            body matches Some(b) ==> {
                &&& (r is Ok) == (spec_parse_id_list(b@) matches Some(ids) && ids.len() == 1)
                &&& (r matches Ok(id) ==> spec_parse_id_list(b@) == Some(seq![id]))
                &&& (r matches Err(e) ==> (if spec_parse_id_list(b@) is None {
                    e == OvhDnsUpdaterError::IncorrectAPIResponseFormat
                } else {
                    e == OvhDnsUpdaterError::DomainZoneEntryDoesntExist
                }))
            },
    {
        match body {
            None => Err(OvhDnsUpdaterError::OvhDomainRetrievingError),
            Some(b) => Self::record_id_from_body(b),
        }
    }

    /// Resolves the record target from a detail outcome: a failed
    /// transport is a retrieval error, and the body is then read as
    /// [`Self::target_from_detail_body`] describes.
    pub fn target_from_detail_response(body: Option<&str>, version: IpVersion) -> (r: Result<
        IpAddress,
        OvhDnsUpdaterError,
    >)
        ensures
            body is None ==> r == Err::<IpAddress, OvhDnsUpdaterError>(
                OvhDnsUpdaterError::OvhDomainRetrievingError,
            ),
            body matches Some(b) ==> {
                &&& (r is Ok) == (spec_json_string_member(b@, "target"@) matches Some(t)
                    && spec_parse_ip(version, t) is Some)
                &&& (r matches Ok(a) ==> spec_json_string_member(b@, "target"@) matches Some(t)
                    && spec_parse_ip(version, t) == Some(a) && a.spec_version() == version)
                &&& (r matches Err(e) ==> e == OvhDnsUpdaterError::IncorrectAPIResponseFormat)
            },
    {
        match body {
            None => Err(OvhDnsUpdaterError::OvhDomainRetrievingError),
            Some(b) => Self::target_from_detail_body(b, version),
        }
    }

    /// Judges the update call: only a transported response with status
    /// exactly 200 counts as success; everything else is the update error.
    pub fn update_result(status: Option<u16>) -> (r: Result<(), OvhDnsUpdaterError>)
        ensures
            (r is Ok) == (status == Some(200u16)),
            r matches Err(e) ==> e == OvhDnsUpdaterError::OvhDomainUpdatingError,
    {
        match status {
            Some(code) => {
                if crate::client::update_status_ok(code) {
                    Ok(())
                } else {
                    Err(OvhDnsUpdaterError::OvhDomainUpdatingError)
                }
            },
            None => Err(OvhDnsUpdaterError::OvhDomainUpdatingError),
        }
    }
}

// ---------------------------------------------------------------------------
// the update

// ---------------------------------------------------------------------------

proof fn lemma_plain_concat(a: Seq<char>, b: Seq<char>)
    requires
        json_plain_text(a),
        json_plain_text(b),
    ensures
        json_plain_text(a + b),
{
    assert forall|i: int| 0 <= i < (a + b).len() implies ((#[trigger] (a + b)[i]) != '"' && (a
        + b)[i] != '\\' && (a + b)[i] as u32 >= 32) by {
        if i < a.len() {
            assert((a + b)[i] == a[i]);
        } else {
            assert((a + b)[i] == b[i - a.len()]);
        }
    }
}

proof fn lemma_dec_string_plain(n: nat)
    ensures
        json_plain_text(spec_dec_string(n)),
{
    lemma_dec_string_digits(n);
    assert forall|i: int| 0 <= i < spec_dec_string(n).len() implies ((#[trigger] spec_dec_string(
        n,
    )[i]) != '"' && spec_dec_string(n)[i] != '\\' && spec_dec_string(n)[i] as u32 >= 32) by {
        assert(is_dec_digit(spec_dec_string(n)[i]));
    }
}

proof fn lemma_hex_string_plain(n: nat)
    ensures
        json_plain_text(spec_hex_u16_string(n)),
    decreases n,
{
    if n < 16 {
    } else {
        lemma_hex_string_plain(n / 16);
        assert forall|i: int| 0 <= i < spec_hex_u16_string(n).len() implies ((
        #[trigger] spec_hex_u16_string(n)[i]) != '"' && spec_hex_u16_string(n)[i] != '\\'
            && spec_hex_u16_string(n)[i] as u32 >= 32) by {
            if i < spec_hex_u16_string(n / 16).len() {
                assert(spec_hex_u16_string(n)[i] == spec_hex_u16_string(n / 16)[i]);
            }
        }
    }
}

/// The canonical text of any address needs no JSON escaping.
pub proof fn lemma_format_ip_plain(a: IpAddress)
    ensures
        json_plain_text(spec_format_ip(a)),
{
    match a {
        IpAddress::V4(x) => {
            lemma_dec_string_plain(x.a as nat);
            lemma_dec_string_plain(x.b as nat);
            lemma_dec_string_plain(x.c as nat);
            lemma_dec_string_plain(x.d as nat);
            assert(json_plain_text(seq!['.']));
            lemma_plain_concat(spec_dec_string(x.a as nat), seq!['.']);
            lemma_plain_concat(spec_dec_string(x.a as nat) + seq!['.'], spec_dec_string(x.b as nat));
            lemma_plain_concat(
                spec_dec_string(x.a as nat) + seq!['.'] + spec_dec_string(x.b as nat),
                seq!['.'],
            );
            lemma_plain_concat(
                spec_dec_string(x.a as nat) + seq!['.'] + spec_dec_string(x.b as nat) + seq!['.'],
                spec_dec_string(x.c as nat),
            );
            lemma_plain_concat(
                spec_dec_string(x.a as nat) + seq!['.'] + spec_dec_string(x.b as nat) + seq!['.']
                    + spec_dec_string(x.c as nat),
                seq!['.'],
            );
            lemma_plain_concat(
                spec_dec_string(x.a as nat) + seq!['.'] + spec_dec_string(x.b as nat) + seq!['.']
                    + spec_dec_string(x.c as nat) + seq!['.'],
                spec_dec_string(x.d as nat),
            );
        },
        IpAddress::V6(x) => {
            lemma_hex_string_plain(x.g0 as nat);
            lemma_hex_string_plain(x.g1 as nat);
            lemma_hex_string_plain(x.g2 as nat);
            lemma_hex_string_plain(x.g3 as nat);
            lemma_hex_string_plain(x.g4 as nat);
            lemma_hex_string_plain(x.g5 as nat);
            lemma_hex_string_plain(x.g6 as nat);
            lemma_hex_string_plain(x.g7 as nat);
            assert(json_plain_text(seq![':']));
            let h0 = spec_hex_u16_string(x.g0 as nat);
            let h1 = spec_hex_u16_string(x.g1 as nat);
            let h2 = spec_hex_u16_string(x.g2 as nat);
            let h3 = spec_hex_u16_string(x.g3 as nat);
            let h4 = spec_hex_u16_string(x.g4 as nat);
            let h5 = spec_hex_u16_string(x.g5 as nat);
            let h6 = spec_hex_u16_string(x.g6 as nat);
            let h7 = spec_hex_u16_string(x.g7 as nat);
            lemma_plain_concat(h6, h7);
            lemma_plain_concat(seq![':'], h6 + h7);
            let u6 = h6 + seq![':'] + h7;
            assert(json_plain_text(u6)) by {
                lemma_plain_concat(h6, seq![':']);
                lemma_plain_concat(h6 + seq![':'], h7);
            }
            let u5 = h5 + seq![':'] + u6;
            assert(json_plain_text(u5)) by {
                lemma_plain_concat(h5, seq![':']);
                lemma_plain_concat(h5 + seq![':'], u6);
            }
            let u4 = h4 + seq![':'] + u5;
            assert(json_plain_text(u4)) by {
                lemma_plain_concat(h4, seq![':']);
                lemma_plain_concat(h4 + seq![':'], u5);
            }
            let u3 = h3 + seq![':'] + u4;
            assert(json_plain_text(u3)) by {
                lemma_plain_concat(h3, seq![':']);
                lemma_plain_concat(h3 + seq![':'], u4);
            }
            let u2 = h2 + seq![':'] + u3;
            assert(json_plain_text(u2)) by {
                lemma_plain_concat(h2, seq![':']);
                lemma_plain_concat(h2 + seq![':'], u3);
            }
            let u1 = h1 + seq![':'] + u2;
            assert(json_plain_text(u1)) by {
                lemma_plain_concat(h1, seq![':']);
                lemma_plain_concat(h1 + seq![':'], u2);
            }
            assert(json_plain_text(h0 + seq![':'] + u1)) by {
                lemma_plain_concat(h0, seq![':']);
                lemma_plain_concat(h0 + seq![':'], u1);
            }
            assert(spec_format_ipv6(x) == h0 + seq![':'] + u1);
        },
    }
}

impl OvhDnsUpdater {
    /// Builds the update request body that sets a record to an address:
    /// the canonical text of the address as target, a TTL of zero, and the
    /// subdomain unchanged.  Fails only on a subdomain that would need
    /// JSON escaping.
    pub fn update_body_for(sub: &str, address: &IpAddress) -> (r: Result<
        String,
        OvhDnsUpdaterError,
    >)
        ensures
            (r is Ok) == json_plain_text(sub@),
            r matches Ok(b) ==> b@ == spec_update_body(sub@, spec_format_ip(*address)),
            r matches Err(e) ==> e == OvhDnsUpdaterError::IncorrectDomainNameFormat,
    {
        if !is_json_plain(sub) {
            return Err(OvhDnsUpdaterError::IncorrectDomainNameFormat);
        }
        let target = format_ip(address);
        proof {
            lemma_format_ip_plain(*address);
        }
        Ok(update_body(sub, target.as_str()))
    }
}

// ---------------------------------------------------------------------------
// what an update does to a record
// ---------------------------------------------------------------------------

/// The fields of a record that an update touches.
pub struct RecordState {
    pub sub_domain: Seq<char>,
    pub target: Seq<char>,
    pub ttl: nat,
}

/// Applying a target fixes the record completely — subdomain, target and a
/// TTL of zero — whatever state it held before.
pub open spec fn spec_apply_target(
    prior: RecordState,
    sub: Seq<char>,
    target: Seq<char>,
) -> RecordState {
    RecordState { sub_domain: sub, target: target, ttl: 0 }
}

/// Update idempotence: applying the same target twice leaves the record in
/// exactly the state one application gives, whatever it held before.
pub proof fn lemma_apply_target_idempotent(prior: RecordState, sub: Seq<char>, target: Seq<char>)
    ensures
        spec_apply_target(spec_apply_target(prior, sub, target), sub, target) == spec_apply_target(
            prior,
            sub,
            target,
        ),
{
}

// ---------------------------------------------------------------------------
// the reconciliation decision
// ---------------------------------------------------------------------------

/// What one run does for one version once both addresses are known.
pub enum UpdateDecision {
    /// The record already holds the discovered address: no update call.
    AlreadyUpToDate,
    /// One update call, carrying this target text.
    Update(String),
}

/// An update happens exactly when the discovered and the recorded address
/// differ; its target is the canonical text of the discovered address.
pub fn reconcile_action(discovered: &IpAddress, recorded: &IpAddress) -> (r: UpdateDecision)
    ensures
        (r is AlreadyUpToDate) == (discovered == recorded),
        r matches UpdateDecision::Update(t) ==> t@ == spec_format_ip(*discovered) && discovered
            != recorded,
{
    if discovered == recorded {
        UpdateDecision::AlreadyUpToDate
    } else {
        UpdateDecision::Update(format_ip(discovered))
    }
}

/// The bare comparison the orchestrator acts on.
pub fn needs_update(discovered: &IpAddress, recorded: &IpAddress) -> (r: bool)
    ensures
        r == (discovered != recorded),
{
    discovered != recorded
}

} // verus!
