use ovh_dns_updater::json::{is_json_plain, json_string_member, parse_id_list, update_body};

#[test]
fn string_member_of_flat_object() {
    assert_eq!(
        json_string_member("{\"ip\":\"203.0.113.7\"}", "ip"),
        Some("203.0.113.7".to_string())
    );
    assert_eq!(
        json_string_member("  { \"ip\" : \"203.0.113.7\" }  ", "ip"),
        Some("203.0.113.7".to_string())
    );
    assert_eq!(json_string_member("{\"ip\":\"x\"}", "target"), None);
    assert_eq!(json_string_member("{}", "ip"), None);
    assert_eq!(json_string_member("", "ip"), None);
    assert_eq!(json_string_member("[1,2]", "ip"), None);
}

#[test]
fn string_member_skips_number_members() {
    let body = "{\"subDomain\":\"sub\",\"zone\":\"example.com\",\"fieldType\":\"A\",\"id\":42,\"ttl\":0,\"target\":\"203.0.113.7\"}";
    assert_eq!(json_string_member(body, "target"), Some("203.0.113.7".to_string()));
    assert_eq!(json_string_member(body, "zone"), Some("example.com".to_string()));
    assert_eq!(json_string_member(body, "id"), None);
}

#[test]
fn string_member_rejects_broken_objects() {
    assert_eq!(json_string_member("{\"a\":\"x\"", "a"), None);
    assert_eq!(json_string_member("{\"a\":\"x\"} trailing", "a"), None);
    assert_eq!(json_string_member("{\"a\":\"x\\n\"}", "a"), None);
    assert_eq!(json_string_member("{\"a\":}", "a"), None);
    assert_eq!(json_string_member("{\"a\" \"x\"}", "a"), None);
}

#[test]
fn first_of_duplicate_keys_wins() {
    assert_eq!(
        json_string_member("{\"a\":\"one\",\"a\":\"two\"}", "a"),
        Some("one".to_string())
    );
}

#[test]
fn id_arrays() {
    assert_eq!(parse_id_list("[]"), Some(vec![]));
    assert_eq!(parse_id_list("[42]"), Some(vec![42]));
    assert_eq!(parse_id_list("[1,2,3]"), Some(vec![1, 2, 3]));
    assert_eq!(parse_id_list(" [ 1 , 2 ] "), Some(vec![1, 2]));
    assert_eq!(parse_id_list("[1,2]x"), None);
    assert_eq!(parse_id_list("[1,]"), None);
    assert_eq!(parse_id_list("[a]"), None);
    assert_eq!(parse_id_list("nonsense"), None);
    assert_eq!(parse_id_list("[99999999999999999999999]"), None);
    assert_eq!(parse_id_list("[18446744073709551615]"), Some(vec![u64::MAX]));
}

#[test]
fn update_body_is_exact() {
    assert_eq!(
        update_body("sub", "203.0.113.9"),
        "{\"subDomain\":\"sub\",\"target\":\"203.0.113.9\",\"ttl\":0}"
    );
    assert_eq!(
        update_body("", "0:0:0:0:0:0:0:1"),
        "{\"subDomain\":\"\",\"target\":\"0:0:0:0:0:0:0:1\",\"ttl\":0}"
    );
}

#[test]
fn update_body_round_trips_through_the_reader() {
    let body = update_body("sub.sub", "203.0.113.9");
    assert_eq!(json_string_member(&body, "target"), Some("203.0.113.9".to_string()));
    assert_eq!(json_string_member(&body, "subDomain"), Some("sub.sub".to_string()));
}

#[test]
fn plain_text_check() {
    assert!(is_json_plain("sub.example.com"));
    assert!(is_json_plain("203.0.113.9"));
    assert!(is_json_plain(""));
    assert!(!is_json_plain("a\"b"));
    assert!(!is_json_plain("a\\b"));
    assert!(!is_json_plain("a\nb"));
}
