use ovh_dns_updater::domain::separate_root_and_sub_domain;
use ovh_dns_updater::errors::OvhDnsUpdaterError;

#[test]
fn test_separate_root_and_sub_domain() {
    assert_eq!(
        separate_root_and_sub_domain("sub.example.com").unwrap(),
        ("example.com".to_string(), "sub".to_string())
    );
    assert_eq!(
        separate_root_and_sub_domain("example.com").unwrap(),
        ("example.com".to_string(), "".to_string())
    );
    assert_eq!(
        separate_root_and_sub_domain("sub.sub.example.com").unwrap(),
        ("example.com".to_string(), "sub.sub".to_string())
    );
    assert_eq!(
        separate_root_and_sub_domain("sub"),
        Err(OvhDnsUpdaterError::IncorrectDomainNameFormat)
    );
}

#[test]
fn splits_public_suffix_roots() {
    let (root, sub) = separate_root_and_sub_domain("a.b.example.co.uk").unwrap();
    assert_eq!(root, "example.co.uk");
    assert_eq!(sub, "a.b");
}

#[test]
fn rejects_empty_domain() {
    assert_eq!(
        separate_root_and_sub_domain(""),
        Err(OvhDnsUpdaterError::IncorrectDomainNameFormat)
    );
}
