use ovh_dns_updater::client::{
    compute_time_delta, endpoint_base_url, parse_server_time, signed_timestamp, timestamp_string,
    update_status_ok, OvhClient,
};

#[test]
fn endpoint_table_is_exact() {
    assert_eq!(endpoint_base_url("ovh-eu"), Some("https://eu.api.ovh.com/1.0"));
    assert_eq!(endpoint_base_url("ovh-us"), Some("https://api.us.ovhcloud.com/1.0"));
    assert_eq!(endpoint_base_url("ovh-ca"), Some("https://ca.api.ovh.com/1.0"));
    assert_eq!(endpoint_base_url("kimsufi-eu"), Some("https://eu.api.kimsufi.com/1.0"));
    assert_eq!(endpoint_base_url("kimsufi-ca"), Some("https://ca.api.kimsufi.com/1.0"));
    assert_eq!(endpoint_base_url("soyoustart-eu"), Some("https://eu.api.soyoustart.com/1.0"));
    assert_eq!(endpoint_base_url("soyoustart-ca"), Some("https://ca.api.soyoustart.com/1.0"));
    assert_eq!(endpoint_base_url("ovh-moon"), None);
    assert_eq!(endpoint_base_url(""), None);
}

#[test]
fn client_construction() {
    let c = OvhClient::new("ovh-eu", "ak", "as", "ck").unwrap();
    assert_eq!(c.endpoint_base, "https://eu.api.ovh.com/1.0");
    assert_eq!(c.application_key, "ak");
    assert_eq!(c.application_secret, "as");
    assert_eq!(c.consumer_key, "ck");
    assert!(OvhClient::new("nowhere", "ak", "as", "ck").is_none());
}

#[test]
fn url_concatenates_base_and_path() {
    let c = OvhClient::new("ovh-eu", "ak", "as", "ck").unwrap();
    assert_eq!(c.url("/auth/time"), "https://eu.api.ovh.com/1.0/auth/time");
}

#[test]
fn time_delta_is_signed() {
    assert_eq!(compute_time_delta(1700000010, 1700000000), Some(10));
    assert_eq!(compute_time_delta(1700000000, 1700000010), Some(-10));
    assert_eq!(compute_time_delta(5, 5), Some(0));
    assert_eq!(compute_time_delta(u64::MAX, 0), None);
}

#[test]
fn timestamp_applies_delta() {
    assert_eq!(signed_timestamp(1700000000, 10), Some(1700000010));
    assert_eq!(signed_timestamp(1700000000, -10), Some(1699999990));
    assert_eq!(signed_timestamp(5, -6), None);
    assert_eq!(signed_timestamp(u64::MAX, 1), None);
    assert_eq!(timestamp_string(1700000010), "1700000010");
}

#[test]
fn server_time_parsing() {
    assert_eq!(parse_server_time("1700000000"), Some(1700000000));
    assert_eq!(parse_server_time("0"), Some(0));
    assert_eq!(parse_server_time(""), None);
    assert_eq!(parse_server_time("17e9"), None);
    assert_eq!(parse_server_time("99999999999999999999999"), None);
}

#[test]
fn signed_request_headers() {
    let c = OvhClient::new("ovh-eu", "app-key", "app-secret", "consumer-key").unwrap();
    let r = c.signed_request("GET", "/domain/zone/example.com/record/1", "", "1700000000");
    assert_eq!(r.method, "GET");
    assert_eq!(r.url, "https://eu.api.ovh.com/1.0/domain/zone/example.com/record/1");
    assert_eq!(r.body, "");
    assert_eq!(r.headers.len(), 4);
    assert_eq!(r.headers[0].0, "X-Ovh-Application");
    assert_eq!(r.headers[0].1, "app-key");
    assert_eq!(r.headers[1].0, "X-Ovh-Consumer");
    assert_eq!(r.headers[1].1, "consumer-key");
    assert_eq!(r.headers[2].0, "X-Ovh-Timestamp");
    assert_eq!(r.headers[2].1, "1700000000");
    assert_eq!(r.headers[3].0, "X-Ovh-Signature");
    assert!(r.headers[3].1.starts_with("$1$"));
    assert_eq!(r.headers[3].1.len(), 43);
}

#[test]
fn signed_request_with_body_has_content_type() {
    let c = OvhClient::new("ovh-eu", "app-key", "app-secret", "consumer-key").unwrap();
    let r = c.signed_request("PUT", "/x", "{\"ttl\":0}", "1700000000");
    assert_eq!(r.body, "{\"ttl\":0}");
    assert_eq!(r.headers.len(), 5);
    assert_eq!(r.headers[4].0, "Content-Type");
    assert_eq!(r.headers[4].1, "application/json");
}

#[test]
fn unauth_request_carries_only_the_application_key() {
    let c = OvhClient::new("ovh-eu", "app-key", "app-secret", "consumer-key").unwrap();
    let r = c.unauth_request("/auth/time");
    assert_eq!(r.method, "GET");
    assert_eq!(r.url, "https://eu.api.ovh.com/1.0/auth/time");
    assert_eq!(r.body, "");
    assert_eq!(r.headers.len(), 1);
    assert_eq!(r.headers[0].0, "X-Ovh-Application");
    assert_eq!(r.headers[0].1, "app-key");
}

#[test]
fn only_status_200_is_success() {
    assert!(update_status_ok(200));
    assert!(!update_status_ok(201));
    assert!(!update_status_ok(404));
    assert!(!update_status_ok(500));
}
