use doiget_core::{Ref, Safekey};
use sha2::Digest;

fn key(s: &str) -> Safekey {
    Ref::parse(s).expect("parses").safekey()
}

#[test]
fn safekey_truncates_long_inputs_with_sha256_suffix() {
    let raw = format!("10.1234/{}", "a".repeat(220));
    let k = key(&raw);
    let s = k.as_str();
    assert_eq!(s.len(), 201, "expected 201-char truncated key, got {}: {}", s.len(), s);
    assert_eq!(&s[192..193], "_", "expected '_' separator at byte 192");
    let hash_part = &s[193..];
    assert_eq!(hash_part.len(), 8, "hash suffix must be 8 hex chars");
    assert!(
        hash_part.chars().all(|c| c.is_ascii_hexdigit() && !c.is_ascii_uppercase()),
        "hash suffix must be lowercase hex: {}",
        hash_part
    );
    let key2 = key(&raw);
    assert_eq!(s, key2.as_str(), "safekey must be deterministic");
    let digest = sha2::Sha256::digest(format!("doi_{raw}").as_bytes());
    let expected_hash = format!(
        "{:02x}{:02x}{:02x}{:02x}",
        digest[0], digest[1], digest[2], digest[3]
    );
    assert_eq!(hash_part, expected_hash, "hash must match SHA-256 of raw form");
}

#[test]
fn safekeys_of_common_references() {
    assert_eq!(key("10.1234/example").as_str(), "doi_10.1234_example");
    assert_eq!(key("arxiv:2401.12345v2").as_str(), "arxiv_2401.12345v2");
    assert_eq!(key("cond-mat/9501001").as_str(), "arxiv_cond-mat_9501001");
    assert_eq!(
        key("10.1016/S0370-1573(98)00122-3").as_str(),
        "doi_10.1016_S0370-1573_98_00122-3"
    );
    assert_eq!(key("10.1234/a//b").as_str(), "doi_10.1234_a_b");
    assert_eq!(key("10.1234/a/").as_str(), "doi_10.1234_a");
}

#[test]
fn kinds_never_share_a_key() {
    assert_ne!(key("10.1234/arxiv").as_str(), key("2401.12345").as_str());
    assert!(key("10.1234/x").as_str().starts_with("doi_"));
    assert!(key("2401.12345").as_str().starts_with("arxiv_"));
}
