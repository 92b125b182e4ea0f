use doiget_core::json::Json;
use doiget_core::{CanonicalRef, Ref, SourceType};
use sha2::{Digest, Sha256};

fn reference_digest_hex(source_type: &str, source_id: &str, resolver: &str, version: Option<&str>) -> String {
    let mut buf: Vec<u8> = Vec::new();
    buf.extend_from_slice(source_type.as_bytes());
    buf.push(0);
    buf.extend_from_slice(source_id.as_bytes());
    buf.push(0);
    buf.extend_from_slice(resolver.as_bytes());
    buf.push(0);
    if let Some(v) = version {
        buf.extend_from_slice(v.as_bytes());
    }
    hex::encode(Sha256::digest(&buf))
}

#[test]
fn digest_matches_reference_doi_crossref_no_version() {
    let c = CanonicalRef::new(SourceType::Doi, "10.1234/foo", "crossref", None);
    let expected = reference_digest_hex("doi", "10.1234/foo", "crossref", None);
    assert_eq!(c.digest_hex(), expected);
}

#[test]
fn digest_matches_reference_doi_unpaywall_no_version() {
    let c = CanonicalRef::new(SourceType::Doi, "10.1234/foo", "unpaywall", None);
    let expected = reference_digest_hex("doi", "10.1234/foo", "unpaywall", None);
    assert_eq!(c.digest_hex(), expected);
    let c_cross = CanonicalRef::new(SourceType::Doi, "10.1234/foo", "crossref", None);
    assert_ne!(c.digest_hex(), c_cross.digest_hex());
}

#[test]
fn digest_matches_reference_doi_oa_publisher_no_version() {
    let c = CanonicalRef::new(SourceType::Doi, "10.1234/foo", "oa-publisher", None);
    let expected = reference_digest_hex("doi", "10.1234/foo", "oa-publisher", None);
    assert_eq!(c.digest_hex(), expected);
}

#[test]
fn digest_matches_reference_arxiv_no_version() {
    let c = CanonicalRef::new(SourceType::Arxiv, "2401.12345", "arxiv", None);
    let expected = reference_digest_hex("arxiv", "2401.12345", "arxiv", None);
    assert_eq!(c.digest_hex(), expected);
}

#[test]
fn digest_matches_reference_arxiv_with_version_v2() {
    let c = CanonicalRef::new(SourceType::Arxiv, "2401.12345", "arxiv", Some("v2".into()));
    let expected = reference_digest_hex("arxiv", "2401.12345", "arxiv", Some("v2"));
    assert_eq!(c.digest_hex(), expected);
    let c_none = CanonicalRef::new(SourceType::Arxiv, "2401.12345", "arxiv", None);
    assert_ne!(c.digest_hex(), c_none.digest_hex());
}

#[test]
fn digest_matches_reference_arxiv_with_version_v10() {
    let c = CanonicalRef::new(SourceType::Arxiv, "2401.12345", "arxiv", Some("v10".into()));
    let expected = reference_digest_hex("arxiv", "2401.12345", "arxiv", Some("v10"));
    assert_eq!(c.digest_hex(), expected);
}

#[test]
fn digest_matches_reference_doi_crossref_with_snapshot_date() {
    let c = CanonicalRef::new(
        SourceType::Doi,
        "10.1234/foo",
        "crossref",
        Some("2026-05-12".into()),
    );
    let expected = reference_digest_hex("doi", "10.1234/foo", "crossref", Some("2026-05-12"));
    assert_eq!(c.digest_hex(), expected);
}

#[test]
fn digest_matches_reference_real_publisher_doi() {
    let c = CanonicalRef::new(
        SourceType::Doi,
        "10.1103/PhysRevLett.130.200601",
        "oa-publisher",
        None,
    );
    let expected = reference_digest_hex(
        "doi",
        "10.1103/PhysRevLett.130.200601",
        "oa-publisher",
        None,
    );
    assert_eq!(c.digest_hex(), expected);
}

#[test]
fn digest_some_empty_string_version_equals_none_version() {
    let c_some_empty = CanonicalRef::new(
        SourceType::Doi,
        "10.1234/foo",
        "crossref",
        Some(String::new()),
    );
    let c_none = CanonicalRef::new(SourceType::Doi, "10.1234/foo", "crossref", None);
    assert_eq!(c_some_empty.digest_hex(), c_none.digest_hex());
}

#[test]
fn digest_matches_reference_old_style_arxiv() {
    let c = CanonicalRef::new(SourceType::Arxiv, "cond-mat/9501001", "arxiv", None);
    let expected = reference_digest_hex("arxiv", "cond-mat/9501001", "arxiv", None);
    assert_eq!(c.digest_hex(), expected);
}

#[test]
fn digest_hex_is_64_lowercase_hex_chars() {
    let c = CanonicalRef::new(SourceType::Doi, "10.1234/foo", "crossref", None);
    let s = c.digest_hex();
    assert_eq!(s.len(), 64);
    assert!(
        s.chars()
            .all(|ch| ch.is_ascii_hexdigit() && !ch.is_ascii_uppercase()),
        "digest_hex must be lowercase ASCII hex, got {s}"
    );
}

#[test]
fn ref_promote_doi_round_trip() {
    let r = Ref::parse("10.1234/foo").expect("doi");
    let c = r.promote("crossref", None);
    assert!(matches!(c.source_type, SourceType::Doi));
    assert_eq!(c.source_id, "10.1234/foo");
    assert_eq!(c.resolver_profile, "crossref");
    assert!(c.version.is_none());
}

#[test]
fn ref_promote_arxiv_with_version_round_trip() {
    let r = Ref::parse("2401.12345").expect("arxiv");
    let c = r.promote("arxiv", Some("v2"));
    assert!(matches!(c.source_type, SourceType::Arxiv));
    assert_eq!(c.source_id, "2401.12345");
    assert_eq!(c.resolver_profile, "arxiv");
    assert_eq!(c.version.as_deref(), Some("v2"));
}

#[test]
fn ref_promote_then_digest_matches_direct_construction() {
    let r = Ref::parse("10.1234/foo").expect("doi");
    let c_promoted = r.promote("crossref", None);
    let c_direct = CanonicalRef::new(SourceType::Doi, "10.1234/foo", "crossref", None);
    assert_eq!(c_promoted.digest_hex(), c_direct.digest_hex());
}

#[test]
fn source_type_serializes_lowercase() {
    assert_eq!(SourceType::Doi.as_wire_str(), "doi");
    assert_eq!(SourceType::Arxiv.as_wire_str(), "arxiv");
}

#[test]
fn digest_of_a_known_identity() {
    let c = CanonicalRef::new(SourceType::Doi, "10.1234/foo", "crossref", None);
    assert_eq!(c.digest()[..], Sha256::digest(b"doi\x0010.1234/foo\0crossref\0")[..]);
}

#[test]
fn identities_that_differ_in_one_part_have_other_digests() {
    let base = CanonicalRef::new(SourceType::Doi, "10.1234/foo", "crossref", None).digest_hex();
    for other in [
        CanonicalRef::new(SourceType::Arxiv, "10.1234/foo", "crossref", None),
        CanonicalRef::new(SourceType::Doi, "10.1234/fo", "crossref", None),
        CanonicalRef::new(SourceType::Doi, "10.1234/foo", "unpaywall", None),
        CanonicalRef::new(SourceType::Doi, "10.1234/foo", "crossref", Some("v1".to_string())),
    ] {
        assert_ne!(base, other.digest_hex());
    }
}

#[test]
fn identities_that_differ_have_other_digests() {
    let digest = |id: &str, profile: &str, version: Option<&str>| {
        CanonicalRef::new(SourceType::Doi, id, profile, version.map(str::to_string)).digest_hex()
    };
    let base = digest("10.1234/ab", "c", None);
    assert_ne!(base, digest("10.1234/a", "bc", None));
    assert_ne!(base, digest("10.1234/ab", "c", Some("1")));
    assert_ne!(
        base,
        CanonicalRef::new(SourceType::Arxiv, "10.1234/ab", "c", None).digest_hex()
    );
}

#[test]
fn identities_have_a_json_form() {
    let c = CanonicalRef::new(SourceType::Arxiv, "2401.12345", "arxiv", None);
    assert_eq!(CanonicalRef::from_value(&c.to_value()), Some(c.clone()));
    let d = CanonicalRef::new(SourceType::Doi, "10.1/x", "crossref", Some("v2".to_string()));
    assert_eq!(CanonicalRef::from_value(&d.to_value()), Some(d));
    assert_eq!(CanonicalRef::from_value(&Json::Null), None);
    let Json::Object(members) = c.to_value() else { panic!("an object") };
    let text = |s: &str| Json::Text(s.to_string());
    assert_eq!(
        members,
        vec![
            ("source_type".to_string(), text("arxiv")),
            ("source_id".to_string(), text("2401.12345")),
            ("resolver_profile".to_string(), text("arxiv")),
            ("version".to_string(), Json::Null),
        ]
    );
}
