use doiget_core::credentials::{
    load, load_or_default, parse, path, permission_advisory, read_tables, Advisory, Credentials,
    CredentialsError, FileOutcome, RawEntry, TomlFault,
};

type Parsed = Result<Option<Vec<(String, RawEntry)>>, TomlFault>;

fn parsed(text: &str) -> Parsed {
    let doc = toml::from_str::<toml::Table>(text).map_err(|e| TomlFault {
        offset: e.span().map(|s| s.start),
        message: e.message().to_string(),
    })?;
    Ok(doc.get("tdm").and_then(|v| v.as_table()).map(|tables| {
        tables
            .iter()
            .map(|(name, v)| {
                let entry = RawEntry {
                    api_key: v.get("api_key").and_then(|k| k.as_str()).map(str::to_string),
                    agreed: v.get("agreed").and_then(|k| k.as_bool()),
                };
                (name.clone(), entry)
            })
            .collect()
    }))
}

fn p() -> &'static str {
    "/tmp/credentials.toml"
}

fn read(text: &str) -> Result<Credentials, CredentialsError> {
    parse(text, p(), parsed(text))
}

fn ok(text: &str) -> Credentials {
    match read(text) {
        Ok(c) => c,
        Err(e) => panic!("well-formed credentials.toml: {}", e.message()),
    }
}

#[test]
fn an_api_key_is_read_per_publisher() {
    let c = ok("[tdm.elsevier]\napi_key = \"abc\"\n\n[tdm.aps]\napi_key = \"def\"\n");
    assert_eq!(c.api_key("elsevier"), Some("abc"));
    assert_eq!(c.api_key("aps"), Some("def"));
    assert_eq!(c.api_key("springer"), None);
    assert_eq!(c.len(), 2);
}

#[test]
fn agreed_in_the_file_grants_nothing() {
    let c = ok("[tdm.elsevier]\napi_key = \"abc\"\nagreed = true\n");
    assert_eq!(
        c.api_key("elsevier"),
        Some("abc"),
        "the key is still read; only the agreement is refused"
    );
}

#[test]
fn a_blank_key_is_treated_as_unset() {
    let c = ok("[tdm.aps]\napi_key = \"   \"\n");
    assert!(c.is_empty(), "a blank key cannot authenticate");
}

#[test]
fn agreed_in_the_file_is_reported() {
    let c = ok("[tdm.elsevier]\napi_key = \"abc\"\nagreed = true\n");
    assert_eq!(
        c.advisories(),
        [Advisory::AgreedIgnored {
            publisher: "elsevier".to_string()
        }]
    );
}

#[test]
fn an_unknown_publisher_is_reported() {
    let c = ok("[tdm.wiley]\napi_key = \"abc\"\n");
    assert_eq!(
        c.advisories(),
        [Advisory::UnknownPublisher {
            publisher: "wiley".to_string()
        }]
    );
}

#[test]
fn a_malformed_file_is_a_reportable_error_not_a_silent_empty_set() {
    match read("this is not toml = = =") {
        Err(CredentialsError::Parse { path, .. }) => {
            assert!(path.contains("credentials.toml"), "path: {path}");
        }
        _ => panic!("expected a Parse error naming the file"),
    }
}

#[test]
fn a_parse_error_names_the_position_without_quoting_the_line() {
    let secret = "sk-do-not-print-me";
    let text = format!("[tdm.elsevier]\napi_key = \"{secret}\n");
    let e = match read(&text) {
        Err(e) => e,
        Ok(_) => panic!("an unterminated string must not parse"),
    };
    let rendered = e.message();
    assert!(!rendered.contains(secret), "the key leaked: {rendered}");
    assert!(!format!("{e:?}").contains(secret), "the key leaked through Debug: {e:?}");
    assert!(rendered.contains(":2:"), "the position is still named: {rendered}");
}

#[test]
fn a_present_but_blank_key_is_reported_not_silently_dropped() {
    for text in ["[tdm.aps]\napi_key = \"\"\n", "[tdm.aps]\napi_key = \"   \"\n"] {
        let c = ok(text);
        assert!(c.is_empty(), "{text:?} must grant no key");
        assert_eq!(
            c.advisories(),
            [Advisory::BlankKey {
                publisher: "aps".to_string()
            }],
            "{text:?} must be reported, not dropped"
        );
    }
}

#[test]
fn an_absent_key_is_not_an_advisory() {
    let c = ok("[tdm.aps]\n");
    assert!(c.is_empty());
    assert!(c.advisories().is_empty(), "{:?}", c.advisories());
}

#[test]
fn an_unknown_publisher_table_is_skipped() {
    assert!(
        ok("[tdm.wiley]\napi_key = \"abc\"\n").is_empty(),
        "unknown publishers grant nothing"
    );
}

#[test]
fn an_absent_tdm_table_is_not_an_error() {
    assert!(ok("[something_else]\nx = 1\n").is_empty());
    assert!(ok("").is_empty());
}

#[test]
fn a_clean_file_produces_no_advisories() {
    let c = ok("[tdm.elsevier]\napi_key = \"abc\"\n");
    assert!(c.advisories().is_empty(), "{:?}", c.advisories());
}

#[test]
fn keys_lose_the_white_space_around_them() {
    let c = ok("[tdm.ieee]\napi_key = \"  k 1\\t\"\n");
    assert_eq!(c.api_key("ieee"), Some("k 1"));
}

#[test]
fn positions_count_lines_and_characters() {
    let fault = |offset| TomlFault { offset, message: "m".to_string() };
    let text = "ab\nあいx";
    let at = |offset| match parse(text, "f", Err(fault(offset))) {
        Err(CredentialsError::Parse { line, column, .. }) => (line, column),
        _ => panic!("expected a parse error"),
    };
    assert_eq!(at(None), (1, 1));
    assert_eq!(at(Some(0)), (1, 1));
    assert_eq!(at(Some(2)), (1, 3));
    assert_eq!(at(Some(3)), (2, 1));
    assert_eq!(at(Some(6)), (2, 2));
    assert_eq!(at(Some(9)), (2, 3));
    assert_eq!(at(Some(999)), (2, 4));
}

#[test]
fn errors_render_on_one_line() {
    let io = CredentialsError::Io { path: "p".to_string(), message: "denied".to_string() };
    assert_eq!(io.message(), "p: denied");
    let bad = CredentialsError::Parse {
        path: "p".to_string(),
        line: 12,
        column: 3,
        message: "oops".to_string(),
    };
    assert_eq!(bad.message(), "p:12:3: oops");
}

#[test]
fn permissions_beyond_the_owner_are_reported_first() {
    assert!(permission_advisory("f", 0o100600).is_none());
    assert!(permission_advisory("f", 0o100700).is_none());
    let a = permission_advisory("f", 0o100644).expect("readable by others");
    assert_eq!(a, Advisory::InsecurePermissions { path: "f".to_string(), mode: 0o644 });
    assert_eq!(
        a.message(),
        "credentials.toml is readable beyond its owner (mode 0644); it holds publisher API keys. Run: chmod 600 f"
    );
    let text = "[tdm.aps]\nagreed = true\n";
    let file = FileOutcome::Read {
        text: text.to_string(),
        parsed: parsed(text),
        mode: Some(0o640),
    };
    let c = match load("f", file) {
        Ok(c) => c,
        Err(e) => panic!("{}", e.message()),
    };
    assert_eq!(c.advisories().len(), 2);
    assert!(matches!(c.advisories()[0], Advisory::InsecurePermissions { mode: 0o640, .. }));
    assert!(matches!(c.advisories()[1], Advisory::AgreedIgnored { .. }));
}

#[test]
fn advisories_say_what_to_do() {
    let agreed = Advisory::AgreedIgnored { publisher: "aps".to_string() };
    assert!(agreed.message().contains("(DOIGET_AGREE_TDM_APS=1)"), "{}", agreed.message());
    let unknown = Advisory::UnknownPublisher { publisher: "wiley".to_string() };
    assert!(unknown
        .message()
        .ends_with("expected one of [\"elsevier\", \"aps\", \"springer\", \"ieee\"]"));
    let blank = Advisory::BlankKey { publisher: "aps".to_string() };
    assert!(blank.message().starts_with("credentials.toml sets [tdm.aps] api_key to a blank value"));
}

#[test]
fn a_missing_file_gives_no_keys_and_a_broken_one_none_either() {
    assert!(matches!(load("f", FileOutcome::Missing), Ok(c) if c.is_empty()));
    let failed = FileOutcome::Failed { message: "denied".to_string() };
    let e = match load("f", failed) {
        Err(e) => e,
        Ok(_) => panic!("an unreadable file is an error"),
    };
    assert_eq!(e.message(), "f: denied");
    assert!(load_or_default(Some(Err(e))).is_empty());
    assert!(load_or_default(None).is_empty());
    assert_eq!(load_or_default(Some(Ok(ok("[tdm.aps]\napi_key = \"k\"\n")))).len(), 1);
}

#[test]
fn logs_name_publishers_and_hide_keys() {
    let c = ok("[tdm.aps]\napi_key = \"secret\"\nagreed = true\n[tdm.\"wi\u{e9}\"]\n[tdm.ieee]\napi_key = \"k\"\n");
    let text = c.debug_text();
    assert!(!text.contains("secret"), "{text}");
    assert_eq!(
        text,
        format!(
            "Credentials {{ keys: [\"aps: <redacted>\", \"ieee: <redacted>\"], advisories: {:?} }}",
            c.advisories()
        )
    );
    let odd = Advisory::InsecurePermissions { path: "a\"b\n".to_string(), mode: 0o644 };
    assert_eq!(odd.debug_text(), format!("{odd:?}"));
    let blank = Advisory::BlankKey { publisher: "aps".to_string() };
    assert_eq!(blank.debug_text(), format!("{blank:?}"));
}

#[test]
fn the_file_lies_below_the_configurations() {
    assert_eq!(path("/home/u/.config"), "/home/u/.config/doiget/credentials.toml");
}

#[test]
fn keys_are_counted_by_publisher() {
    let entry = |k: &str| RawEntry { api_key: Some(k.to_string()), agreed: None };
    let c = read_tables(&vec![
        ("aps".to_string(), entry("first")),
        ("ieee".to_string(), entry("i")),
        ("aps".to_string(), entry("second")),
        ("acs".to_string(), entry("x")),
    ]);
    assert_eq!(c.len(), 2);
    assert!(!c.is_empty());
    assert_eq!(c.api_key("aps"), Some("second"));
    assert_eq!(c.api_key("acs"), None);
    let names = ["elsevier", "aps", "springer", "ieee"];
    assert_eq!(c.len(), names.iter().filter(|n| c.api_key(n).is_some()).count());
    let copy = c.clone();
    assert_eq!(copy.api_key("ieee"), Some("i"));
    assert_eq!(copy.advisories(), c.advisories());
    assert_eq!(Credentials::default().len(), 0);
}

#[test]
fn lookups_answer_from_the_table_of_the_publisher() {
    let tables = "[tdm.elsevier]\napi_key = \" abc \"\nagreed = true\n\n[tdm.aps]\napi_key = \" \"\n\n[tdm.wiley]\napi_key = \"w\"\n";
    let c = ok(tables);
    assert_eq!(c.api_key("elsevier"), Some("abc"));
    assert_eq!(c.api_key("aps"), None, "blank");
    assert_eq!(c.api_key("wiley"), None, "not known");
    assert_eq!(c.api_key("ieee"), None, "no table");
    assert_eq!(ok(&tables.replace("agreed = true\n", "")).api_key("elsevier"), Some("abc"));
}
