use ovh_dns_updater::errors::PublicIpRetrieverError;
use ovh_dns_updater::ip_addr::{
    format_ip, format_ipv4, format_ipv6, parse_ip_str, parse_ipv4_str, parse_ipv6_str, IpAddress,
    IpVersion, Ipv4Address, Ipv6Address,
};

#[test]
fn test_parse_ipv4_str() {
    let ip = "1.1.1.1";
    let ip = parse_ipv4_str(ip);
    assert!(ip.is_ok());
    let ip = ip.unwrap();
    assert_eq!(ip, Ipv4Address::new(1, 1, 1, 1));
    let ip = "1.1.1.1a";
    let ip = parse_ipv4_str(ip);
    assert!(ip.is_err());
}

#[test]
fn test_parse_ipv6_str() {
    let ip = "2001:0db8:85a3::8a2e:0370:7334";
    let ip = parse_ipv6_str(ip);
    assert!(ip.is_ok());
    let ip = ip.unwrap();
    assert_eq!(
        ip,
        Ipv6Address::new(0x2001, 0xdb8, 0x85a3, 0, 0, 0x8a2e, 0x370, 0x7334)
    );
    let ip = "2001:0db8:85a3:0000:0000:8a2e:0370:7334a";
    let ip = parse_ipv6_str(ip);
    assert!(ip.is_err());
}

#[test]
fn parse_ipv4_rejects_bad_octets() {
    assert_eq!(
        parse_ipv4_str("256.1.1.1"),
        Err(PublicIpRetrieverError::Ip4ParseError)
    );
    assert_eq!(
        parse_ipv4_str("1.1.1"),
        Err(PublicIpRetrieverError::Ip4ParseError)
    );
    assert_eq!(
        parse_ipv4_str("1.1.1.1.1"),
        Err(PublicIpRetrieverError::Ip4ParseError)
    );
    assert_eq!(parse_ipv4_str(""), Err(PublicIpRetrieverError::Ip4ParseError));
}

#[test]
fn parse_ipv6_variants() {
    assert_eq!(
        parse_ipv6_str("::1").unwrap(),
        Ipv6Address::new(0, 0, 0, 0, 0, 0, 0, 1)
    );
    assert_eq!(
        parse_ipv6_str("::").unwrap(),
        Ipv6Address::new(0, 0, 0, 0, 0, 0, 0, 0)
    );
    assert_eq!(
        parse_ipv6_str("fe80::").unwrap(),
        Ipv6Address::new(0xfe80, 0, 0, 0, 0, 0, 0, 0)
    );
    assert_eq!(
        parse_ipv6_str("1:2:3:4:5:6:7:8").unwrap(),
        Ipv6Address::new(1, 2, 3, 4, 5, 6, 7, 8)
    );
    assert_eq!(
        parse_ipv6_str("1:2:3:4:5:6:7"),
        Err(PublicIpRetrieverError::Ip6ParseError)
    );
    assert_eq!(
        parse_ipv6_str("1::2::3"),
        Err(PublicIpRetrieverError::Ip6ParseError)
    );
    assert_eq!(
        parse_ipv6_str("1:2:3:4:5:6:7:8:9"),
        Err(PublicIpRetrieverError::Ip6ParseError)
    );
    assert_eq!(parse_ipv6_str(""), Err(PublicIpRetrieverError::Ip6ParseError));
    assert_eq!(
        parse_ipv6_str(":::"),
        Err(PublicIpRetrieverError::Ip6ParseError)
    );
}

#[test]
fn format_round_trips() {
    let v4 = Ipv4Address::new(203, 0, 113, 7);
    assert_eq!(format_ipv4(&v4), "203.0.113.7");
    assert_eq!(parse_ipv4_str(&format_ipv4(&v4)).unwrap(), v4);

    let v6 = Ipv6Address::new(0x2001, 0xdb8, 0, 0, 0, 0, 0, 1);
    assert_eq!(format_ipv6(&v6), "2001:db8:0:0:0:0:0:1");
    assert_eq!(parse_ipv6_str(&format_ipv6(&v6)).unwrap(), v6);
}

#[test]
fn versioned_parse_and_format() {
    let a = parse_ip_str(IpVersion::V4, "203.0.113.9").unwrap();
    assert_eq!(a, IpAddress::V4(Ipv4Address::new(203, 0, 113, 9)));
    assert_eq!(format_ip(&a), "203.0.113.9");
    assert_eq!(
        parse_ip_str(IpVersion::V6, "203.0.113.9"),
        Err(PublicIpRetrieverError::Ip6ParseError)
    );
    let b = parse_ip_str(IpVersion::V6, "::1").unwrap();
    assert_eq!(format_ip(&b), "0:0:0:0:0:0:0:1");
}
