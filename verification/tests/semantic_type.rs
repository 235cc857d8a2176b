use conflic::model::semantic_type::{normalize_boolean, parse_port, parse_version, PortSpec, SemanticType, VersionSpec};

#[test]
fn test_parse_port_single() {
    assert_eq!(parse_port("8080"), Some(PortSpec::Single(8080)));
}

#[test]
fn test_parse_port_mapping() {
    assert_eq!(
        parse_port("3000:8080"),
        Some(PortSpec::Mapping {
            host: 3000,
            container: 8080
        })
    );
}

#[test]
fn test_parse_port_mapping_with_host_ip() {
    assert_eq!(
        parse_port("127.0.0.1:3000:8080"),
        Some(PortSpec::Mapping {
            host: 3000,
            container: 8080
        })
    );
}

#[test]
fn test_parse_port_mapping_with_host_range() {
    assert_eq!(parse_port("8000-9000:80"), Some(PortSpec::Single(80)));
}

#[test]
fn test_parse_port_mapping_with_container_range() {
    assert_eq!(
        parse_port("9090-9091:8080-8081"),
        Some(PortSpec::Range(8080, 8081))
    );
}

#[test]
fn test_parse_port_host_ip_without_host_port_is_rejected() {
    assert_eq!(parse_port("127.0.0.1:8080"), None);
}

#[test]
fn test_normalize_boolean() {
    assert_eq!(normalize_boolean("true"), Some(true));
    assert_eq!(normalize_boolean("yes"), Some(true));
    assert_eq!(normalize_boolean("on"), Some(true));
    assert_eq!(normalize_boolean("1"), Some(true));
    assert_eq!(normalize_boolean("false"), Some(false));
    assert_eq!(normalize_boolean("no"), Some(false));
    assert_eq!(normalize_boolean("off"), Some(false));
    assert_eq!(normalize_boolean("0"), Some(false));
    assert_eq!(normalize_boolean("maybe"), None);
}

#[test]
fn port_protocol_suffix_and_whitespace_are_ignored() {
    assert_eq!(parse_port("  8080/TCP "), Some(PortSpec::Single(8080)));
    assert_eq!(parse_port("53/udp"), Some(PortSpec::Single(53)));
    assert_eq!(parse_port("8080/sctp"), None);
    assert_eq!(parse_port("70000"), None);
    assert_eq!(parse_port("+80"), Some(PortSpec::Single(80)));
    assert_eq!(parse_port(""), None);
}

#[test]
fn port_text_round_trips() {
    assert_eq!(PortSpec::Single(80).to_text(), "80");
    assert_eq!(PortSpec::Range(8000, 8010).to_text(), "8000-8010");
    assert_eq!(
        PortSpec::Mapping {
            host: 3000,
            container: 8080
        }
        .to_text(),
        "3000:8080"
    );
    assert_eq!(parse_port(&PortSpec::Range(1, 2).to_text()), Some(PortSpec::Range(1, 2)));
}

#[test]
fn boolean_words_ignore_case_and_padding() {
    assert_eq!(normalize_boolean(" Enabled "), Some(true));
    assert_eq!(normalize_boolean("DISABLE"), Some(false));
    assert_eq!(normalize_boolean("\tOFF\n"), Some(false));
    assert_eq!(normalize_boolean("yess"), None);
}

#[test]
fn test_parse_exact_version() {
    match parse_version("20.11.0") {
        VersionSpec::Exact(v) => {
            assert_eq!(v.major, 20);
            assert_eq!(v.minor, 11);
            assert_eq!(v.patch, 0);
        },
        other => panic!("Expected Exact, got {:?}", other),
    }
}

#[test]
fn test_parse_range_version() {
    match parse_version(">=18 <20") {
        VersionSpec::Range(_) => {},
        other => panic!("Expected Range, got {:?}", other),
    }
}

#[test]
fn test_parse_caret_version() {
    match parse_version("^20") {
        VersionSpec::Range(_) => {},
        other => panic!("Expected Range, got {:?}", other),
    }
}

#[test]
fn test_parse_docker_tag() {
    match parse_version("22-alpine") {
        VersionSpec::DockerTag { version, variant } => {
            assert_eq!(version, "22");
            assert_eq!(variant, Some("alpine".to_string()));
        },
        other => panic!("Expected DockerTag, got {:?}", other),
    }
}

#[test]
fn version_texts_display_like_their_sources() {
    assert_eq!(parse_version(" 1.2.3-beta.1+build.5 ").to_text(), "1.2.3-beta.1+build.5");
    assert_eq!(parse_version("3.12-slim-bookworm").to_text(), "3.12-slim-bookworm");
    assert_eq!(VersionSpec::Partial { major: 3, minor: Some(12) }.to_text(), "3.12");
    assert_eq!(VersionSpec::Partial { major: 20, minor: None }.to_text(), "20");
    match parse_version("latest") {
        VersionSpec::Unparsed(s) => assert_eq!(s, "latest"),
        other => panic!("Expected Unparsed, got {:?}", other),
    }
    assert_eq!(SemanticType::Boolean(true).to_text(), "true");
    assert_eq!(SemanticType::StringValue("x".to_string()).to_text(), "x");
}

#[test]
fn boolean_words_ignore_ascii_case_and_surrounding_spaces() {
    for word in ["true", "Yes", "off", "Enabled", "0", "maybe"] {
        let expected = conflic::model::normalize_boolean(word);
        assert_eq!(conflic::model::normalize_boolean(&word.to_uppercase()), expected);
        assert_eq!(conflic::model::normalize_boolean(&format!(" {} ", word)), expected);
    }
    assert_eq!(conflic::model::normalize_boolean(" ON "), Some(true));
    assert_eq!(conflic::model::normalize_boolean("DISABLE"), Some(false));
}
