use ovh_dns_updater::discovery::{
    decode_provider_body, first_success, parse_coma_separated_fields, provider_outcome,
    DecodeKind, IpRetrieverFromFasterService, ProviderResponse,
};
use ovh_dns_updater::errors::{IpMeRetrieverError, PublicIpRetrieverError};
use ovh_dns_updater::ip_addr::{IpAddress, IpVersion, Ipv4Address, Ipv6Address};

#[test]
fn the_roster_has_four_services() {
    let engine = IpRetrieverFromFasterService::new();
    assert_eq!(engine.provider_count(), 4);
    assert_eq!(engine.provider_url(0, IpVersion::V4), "https://ip4.me/api/");
    assert_eq!(engine.provider_url(0, IpVersion::V6), "https://ip6only.me/api/");
    assert_eq!(engine.provider_url(1, IpVersion::V4), "https://api.ipify.org?format=json");
    assert_eq!(engine.provider_url(1, IpVersion::V6), "https://api6.ipify.org?format=json");
    assert_eq!(engine.provider_url(2, IpVersion::V4), "https://ipv4.lafibre.info/ip.php");
    assert_eq!(engine.provider_url(2, IpVersion::V6), "https://ipv6.lafibre.info/ip.php");
    assert_eq!(engine.provider_url(3, IpVersion::V4), "https://v4.ident.me/");
    assert_eq!(engine.provider_url(3, IpVersion::V6), "https://v6.ident.me/");
}

#[test]
fn comma_separated_records() {
    assert_eq!(
        parse_coma_separated_fields("IPv4,203.0.113.7,v1.1,,,remainder").unwrap(),
        "203.0.113.7"
    );
    assert_eq!(parse_coma_separated_fields("a,b").unwrap(), "b");
    assert!(matches!(
        parse_coma_separated_fields("no-comma-here"),
        Err(IpMeRetrieverError::ComaSeparatedFieldsError)
    ));
}

#[test]
fn each_decoding_normalizes_to_an_address() {
    assert_eq!(
        decode_provider_body(DecodeKind::PlainText, IpVersion::V4, "203.0.113.7"),
        Ok(IpAddress::V4(Ipv4Address::new(203, 0, 113, 7)))
    );
    assert_eq!(
        decode_provider_body(DecodeKind::CommaSeparated, IpVersion::V4, "IPv4,203.0.113.7,v1.1,,,"),
        Ok(IpAddress::V4(Ipv4Address::new(203, 0, 113, 7)))
    );
    assert_eq!(
        decode_provider_body(DecodeKind::IpJson, IpVersion::V4, "{\"ip\":\"203.0.113.7\"}"),
        Ok(IpAddress::V4(Ipv4Address::new(203, 0, 113, 7)))
    );
    assert_eq!(
        decode_provider_body(DecodeKind::PlainText, IpVersion::V6, "2001:db8::1"),
        Ok(IpAddress::V6(Ipv6Address::new(0x2001, 0xdb8, 0, 0, 0, 0, 0, 1)))
    );
}

#[test]
fn decoding_failures_collapse_to_the_version_error() {
    assert_eq!(
        decode_provider_body(DecodeKind::PlainText, IpVersion::V4, "not an address"),
        Err(PublicIpRetrieverError::Ip4ParseError)
    );
    assert_eq!(
        decode_provider_body(DecodeKind::CommaSeparated, IpVersion::V6, "lonely field"),
        Err(PublicIpRetrieverError::Ip6ParseError)
    );
    assert_eq!(
        decode_provider_body(DecodeKind::IpJson, IpVersion::V4, "{\"address\":\"203.0.113.7\"}"),
        Err(PublicIpRetrieverError::Ip4ParseError)
    );
}

#[test]
fn outcome_classification_keeps_connection_and_parse_apart() {
    assert_eq!(
        provider_outcome(DecodeKind::PlainText, IpVersion::V4, &ProviderResponse::NoConnection),
        Err(PublicIpRetrieverError::Ip4ConnectionError)
    );
    assert_eq!(
        provider_outcome(DecodeKind::PlainText, IpVersion::V6, &ProviderResponse::NoConnection),
        Err(PublicIpRetrieverError::Ip6ConnectionError)
    );
    assert_eq!(
        provider_outcome(DecodeKind::PlainText, IpVersion::V4, &ProviderResponse::Unreadable),
        Err(PublicIpRetrieverError::Ip4ParseError)
    );
    assert_eq!(
        provider_outcome(DecodeKind::PlainText, IpVersion::V6, &ProviderResponse::Unreadable),
        Err(PublicIpRetrieverError::Ip6ParseError)
    );
    assert_eq!(
        provider_outcome(
            DecodeKind::PlainText,
            IpVersion::V4,
            &ProviderResponse::Body("203.0.113.7".to_string())
        ),
        Ok(IpAddress::V4(Ipv4Address::new(203, 0, 113, 7)))
    );
}

#[test]
fn first_success_takes_the_earliest_winner() {
    let x = IpAddress::V4(Ipv4Address::new(203, 0, 113, 7));
    let y = IpAddress::V4(Ipv4Address::new(203, 0, 113, 9));
    // Provider P answered first with X; provider Q later with Y.
    let outcomes = vec![
        Err(PublicIpRetrieverError::Ip4ConnectionError),
        Ok(x),
        Ok(y),
    ];
    assert_eq!(first_success(&outcomes), Some(x));
    let outcomes = vec![Ok(y), Ok(x)];
    assert_eq!(first_success(&outcomes), Some(y));
}

#[test]
fn all_failures_mean_plain_absence() {
    let outcomes = vec![
        Err(PublicIpRetrieverError::Ip4ConnectionError),
        Err(PublicIpRetrieverError::Ip4ParseError),
        Err(PublicIpRetrieverError::Ip4ConnectionError),
        Err(PublicIpRetrieverError::Ip4ParseError),
    ];
    assert_eq!(first_success(&outcomes), None);
    assert_eq!(first_success(&vec![]), None);
}
