use conflic::fix::planner::{
    all_values_mutually_equivalent, build_exact_json_string_fix, build_json_string_fix, extractor_target_name,
    winner_values_equivalent, winner_versions_equivalent,
};
use conflic::fix::render::{
    render_declared_version_string, render_docker_expose_token, render_docker_tag, render_dotnet_target_framework,
    render_exact_file_version, render_exactish_version_token, render_major_minor_version, render_port_value,
    ExactFileFlavor,
};
use conflic::fix::{ambiguous_docker_expose_lines, FileFormat, FixOperation};
use conflic::model::{
    parse_version, Authority, ConceptResult, ConfigAssertion, PortSpec, SemanticConcept, SemanticType, SourceLocation, VersionSpec,
};

fn winner(raw: &str, value: SemanticType) -> ConfigAssertion {
    ConfigAssertion::new(
        SemanticConcept::node_version(),
        value,
        raw.to_string(),
        SourceLocation { file: "Dockerfile".to_string(), line: 1, column: 0, key_path: String::new() },
        Authority::Enforced,
        "node-version-dockerfile",
    )
}

fn version(raw: &str) -> ConfigAssertion {
    winner(raw, SemanticType::Version(parse_version(raw)))
}

#[test]
fn exactish_tokens_by_kind_of_version() {
    assert_eq!(render_exactish_version_token(&version("20.11.0")).as_deref(), Some("20.11.0"));
    assert_eq!(render_exactish_version_token(&version("22-alpine")).as_deref(), Some("22"));
    assert_eq!(render_exactish_version_token(&version("^20")), None);
    let partial = winner("3.12", SemanticType::Version(VersionSpec::Partial { major: 3, minor: Some(12) }));
    assert_eq!(render_exactish_version_token(&partial).as_deref(), Some("3.12"));
    let major = winner("20", SemanticType::Version(VersionSpec::Partial { major: 20, minor: None }));
    assert_eq!(render_exactish_version_token(&major).as_deref(), Some("20"));
    let unparsed = winner("x", SemanticType::Version(VersionSpec::Unparsed(" 1.2 ".to_string())));
    assert_eq!(render_exactish_version_token(&unparsed).as_deref(), Some("1.2"));
    let words = winner("x", SemanticType::Version(VersionSpec::Unparsed("lts".to_string())));
    assert_eq!(render_exactish_version_token(&words), None);
    assert_eq!(render_exactish_version_token(&winner("8080", SemanticType::Port(PortSpec::Single(8080)))), None);
}

#[test]
fn declared_strings_keep_ranges_as_written() {
    assert_eq!(render_declared_version_string(&version(" ^20 ")).as_deref(), Some("^20"));
    assert_eq!(render_declared_version_string(&version("20.11.0")).as_deref(), Some("20.11.0"));
    assert_eq!(render_declared_version_string(&version("22-alpine")).as_deref(), Some("22"));
}

#[test]
fn version_files_keep_their_spelling() {
    let w = version("20.11.0");
    assert_eq!(render_exact_file_version(&w, "v18.0.0", ExactFileFlavor::Node), Ok("v20.11.0".to_string()));
    assert_eq!(render_exact_file_version(&w, "18.0.0", ExactFileFlavor::Node), Ok("20.11.0".to_string()));
    assert_eq!(render_exact_file_version(&w, " ruby-3.2.0", ExactFileFlavor::Ruby), Ok("ruby-20.11.0".to_string()));
    assert_eq!(render_exact_file_version(&w, "v1", ExactFileFlavor::Plain), Ok("20.11.0".to_string()));
    let err = render_exact_file_version(&version("^20"), "18", ExactFileFlavor::Node).unwrap_err();
    assert!(err.contains("not an exact version token"));
}

#[test]
fn dotnet_frameworks_keep_platform_suffix() {
    let w = version("8.0.100");
    assert_eq!(render_major_minor_version(&w).as_deref(), Some("8.0"));
    assert_eq!(render_dotnet_target_framework(&w, "net6.0-windows").as_deref(), Some("net8.0-windows"));
    assert_eq!(render_dotnet_target_framework(&w, "net6.0").as_deref(), Some("net8.0"));
    let major = winner("8", SemanticType::Version(VersionSpec::Partial { major: 8, minor: None }));
    assert_eq!(render_major_minor_version(&major).as_deref(), Some("8.0"));
    assert_eq!(render_dotnet_target_framework(&winner("x", SemanticType::Boolean(true)), "net6.0"), None);
}

#[test]
fn docker_tags_and_ports() {
    assert_eq!(render_docker_tag(&version("22-alpine"), "18-slim").as_deref(), Some("22-alpine"));
    assert_eq!(render_docker_tag(&version("20.11.0"), "18-slim").as_deref(), Some("20.11.0-slim"));
    assert_eq!(render_docker_tag(&version("20.11.0"), "18").as_deref(), Some("20.11.0"));
    assert_eq!(render_port_value(&SemanticType::Port(PortSpec::Range(8000, 8010))).as_deref(), Some("8000-8010"));
    assert_eq!(
        render_port_value(&SemanticType::Port(PortSpec::Mapping { host: 80, container: 8080 })).as_deref(),
        Some("8080")
    );
    assert_eq!(render_docker_expose_token(&SemanticType::Port(PortSpec::Single(3000)), "8080/udp").as_deref(), Some("3000/udp"));
    assert_eq!(render_docker_expose_token(&SemanticType::Boolean(false), "8080"), None);
}

#[test]
fn winner_equivalence() {
    assert!(winner_versions_equivalent(&parse_version("20.11.0"), &parse_version(" 20.11.0")));
    assert!(!winner_versions_equivalent(&parse_version("20.11.0"), &parse_version("20.11.1")));
    assert!(winner_versions_equivalent(&parse_version("22-alpine"), &parse_version("22-alpine")));
    assert!(!winner_versions_equivalent(&parse_version("22-alpine"), &parse_version("22-slim")));
    assert!(winner_values_equivalent(
        &SemanticType::Port(PortSpec::Range(9000, 8000)),
        &SemanticType::Port(PortSpec::Range(8000, 9000))
    ));
    assert!(!winner_values_equivalent(&SemanticType::Path("a".into()), &SemanticType::Path("a".into())));
    let a = version("20.11.0");
    let b = version("20.11.0");
    let c = version("18.0.0");
    assert!(all_values_mutually_equivalent(&[&a, &b]));
    assert!(!all_values_mutually_equivalent(&[&a, &b, &c]));
    assert!(all_values_mutually_equivalent(&[]));
}

#[test]
fn json_fixes_and_target_names() {
    match build_json_string_fix(&version("^20"), &["engines", "node"]) {
        Ok((value, FixOperation::ReplaceJsonString { path, value: v })) => {
            assert_eq!(value, "^20");
            assert_eq!(v, "^20");
            assert_eq!(path, vec!["engines".to_string(), "node".to_string()]);
        },
        _ => panic!("expected a JSON fix"),
    }
    assert!(build_exact_json_string_fix(&version("^20"), &["sdk", "version"]).is_err());
    let mut target = version("18");
    assert_eq!(extractor_target_name(&target, &FileFormat::Yaml), "YAML");
    target.source.key_path = "jobs.build".to_string();
    assert_eq!(extractor_target_name(&target, &FileFormat::Yaml), "YAML jobs.build");
}

fn expose(file: &str, line: usize, port: u16) -> ConfigAssertion {
    ConfigAssertion::new(
        SemanticConcept::app_port(),
        SemanticType::Port(PortSpec::Single(port)),
        port.to_string(),
        SourceLocation { file: file.to_string(), line, column: 0, key_path: String::new() },
        Authority::Enforced,
        "port-dockerfile",
    )
}

#[test]
fn ambiguous_expose_lines_are_those_with_several_tokens() {
    let mut env = expose(".env", 3, 80);
    env.extractor_id = "port-env".to_string();
    let cr = ConceptResult {
        concept: SemanticConcept::app_port(),
        assertions: vec![
            expose("Dockerfile", 5, 80),
            expose("Dockerfile", 5, 443),
            expose("./Dockerfile", 7, 9090),
            expose("Dockerfile", 7, 8080),
            env.clone(),
            env,
        ],
        findings: vec![],
    };
    let lines = ambiguous_docker_expose_lines(&cr);
    // A leading `./` makes another path, as `Path` compares them.
    assert_eq!(lines, vec![("Dockerfile".to_string(), 5)]);
}
