use ovh_dns_updater::errors::OvhDnsUpdaterError;
use ovh_dns_updater::ip_addr::{IpAddress, IpVersion, Ipv4Address, Ipv6Address};
use ovh_dns_updater::updater::{field_type, reconcile_action, needs_update, OvhDnsUpdater, UpdateDecision};

#[test]
fn construction_checks_the_endpoint() {
    let u = OvhDnsUpdater::new("ovh-eu", "ak", "as", "ck").unwrap();
    assert_eq!(u.ovh_client.endpoint_base, "https://eu.api.ovh.com/1.0");
    assert_eq!(
        OvhDnsUpdater::new("elsewhere", "ak", "as", "ck").err(),
        Some(OvhDnsUpdaterError::OvhLoginError)
    );
}

#[test]
fn field_types() {
    assert_eq!(field_type(IpVersion::V4), "A");
    assert_eq!(field_type(IpVersion::V6), "AAAA");
}

#[test]
fn api_paths_are_exact() {
    assert_eq!(
        OvhDnsUpdater::record_query_path("example.com", "sub", IpVersion::V4),
        "/domain/zone/example.com/record?fieldType=A&subDomain=sub"
    );
    assert_eq!(
        OvhDnsUpdater::record_query_path("example.com", "", IpVersion::V6),
        "/domain/zone/example.com/record?fieldType=AAAA&subDomain="
    );
    assert_eq!(
        OvhDnsUpdater::record_detail_path("example.com", 4242),
        "/domain/zone/example.com/record/4242"
    );
}

#[test]
fn exactly_one_record_id_is_required() {
    assert_eq!(OvhDnsUpdater::record_id_from_body("[42]"), Ok(42));
    assert_eq!(
        OvhDnsUpdater::record_id_from_body("[]"),
        Err(OvhDnsUpdaterError::DomainZoneEntryDoesntExist)
    );
    assert_eq!(
        OvhDnsUpdater::record_id_from_body("[1,2]"),
        Err(OvhDnsUpdaterError::DomainZoneEntryDoesntExist)
    );
    assert_eq!(
        OvhDnsUpdater::record_id_from_body("not json"),
        Err(OvhDnsUpdaterError::IncorrectAPIResponseFormat)
    );
}

#[test]
fn transport_failures_stay_distinct() {
    assert_eq!(
        OvhDnsUpdater::record_id_from_response(None),
        Err(OvhDnsUpdaterError::OvhDomainRetrievingError)
    );
    assert_eq!(OvhDnsUpdater::record_id_from_response(Some("[7]")), Ok(7));
    assert_eq!(
        OvhDnsUpdater::target_from_detail_response(None, IpVersion::V4),
        Err(OvhDnsUpdaterError::OvhDomainRetrievingError)
    );
}

#[test]
fn target_comes_from_the_detail_body() {
    let body = "{\"subDomain\":\"sub\",\"zone\":\"example.com\",\"fieldType\":\"A\",\"id\":42,\"ttl\":0,\"target\":\"203.0.113.7\"}";
    assert_eq!(
        OvhDnsUpdater::target_from_detail_body(body, IpVersion::V4),
        Ok(IpAddress::V4(Ipv4Address::new(203, 0, 113, 7)))
    );
    assert_eq!(
        OvhDnsUpdater::target_from_detail_body(body, IpVersion::V6),
        Err(OvhDnsUpdaterError::IncorrectAPIResponseFormat)
    );
    assert_eq!(
        OvhDnsUpdater::target_from_detail_body("{\"ttl\":0}", IpVersion::V4),
        Err(OvhDnsUpdaterError::IncorrectAPIResponseFormat)
    );
    let v6 = "{\"target\":\"2001:db8::1\",\"ttl\":0}";
    assert_eq!(
        OvhDnsUpdater::target_from_detail_body(v6, IpVersion::V6),
        Ok(IpAddress::V6(Ipv6Address::new(0x2001, 0xdb8, 0, 0, 0, 0, 0, 1)))
    );
}

#[test]
fn update_body_fixes_target_and_ttl() {
    let addr = IpAddress::V4(Ipv4Address::new(203, 0, 113, 9));
    assert_eq!(
        OvhDnsUpdater::update_body_for("sub", &addr).unwrap(),
        "{\"subDomain\":\"sub\",\"target\":\"203.0.113.9\",\"ttl\":0}"
    );
    assert_eq!(
        OvhDnsUpdater::update_body_for("bad\"sub", &addr),
        Err(OvhDnsUpdaterError::IncorrectDomainNameFormat)
    );
}

#[test]
fn applying_the_same_target_twice_builds_the_same_update() {
    let addr = IpAddress::V4(Ipv4Address::new(203, 0, 113, 9));
    let first = OvhDnsUpdater::update_body_for("sub", &addr).unwrap();
    let second = OvhDnsUpdater::update_body_for("sub", &addr).unwrap();
    assert_eq!(first, second);
    // Each update run also resolves the record id afresh: the same lookup
    // response is read again in full.
    assert_eq!(OvhDnsUpdater::record_id_from_body("[7]"), Ok(7));
    assert_eq!(OvhDnsUpdater::record_id_from_body("[7]"), Ok(7));
}

#[test]
fn update_result_accepts_only_200() {
    assert_eq!(OvhDnsUpdater::update_result(Some(200)), Ok(()));
    assert_eq!(
        OvhDnsUpdater::update_result(Some(500)),
        Err(OvhDnsUpdaterError::OvhDomainUpdatingError)
    );
    assert_eq!(
        OvhDnsUpdater::update_result(None),
        Err(OvhDnsUpdaterError::OvhDomainUpdatingError)
    );
}

#[test]
fn equal_addresses_mean_no_update() {
    let discovered = IpAddress::V4(Ipv4Address::new(203, 0, 113, 7));
    let recorded = IpAddress::V4(Ipv4Address::new(203, 0, 113, 7));
    assert!(!needs_update(&discovered, &recorded));
    assert!(matches!(
        reconcile_action(&discovered, &recorded),
        UpdateDecision::AlreadyUpToDate
    ));
}

#[test]
fn differing_addresses_mean_one_update_with_the_discovered_target() {
    let discovered = IpAddress::V4(Ipv4Address::new(203, 0, 113, 9));
    let recorded = IpAddress::V4(Ipv4Address::new(203, 0, 113, 7));
    assert!(needs_update(&discovered, &recorded));
    match reconcile_action(&discovered, &recorded) {
        UpdateDecision::Update(target) => {
            assert_eq!(target, "203.0.113.9");
            let body = OvhDnsUpdater::update_body_for("sub", &discovered).unwrap();
            assert_eq!(body, "{\"subDomain\":\"sub\",\"target\":\"203.0.113.9\",\"ttl\":0}");
        }
        UpdateDecision::AlreadyUpToDate => panic!("an update was due"),
    }
}
