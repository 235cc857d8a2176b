use conflic::fix::docker_from::render_docker_from_arguments;
use conflic::fix::operation::build_fix_operation;
use conflic::fix::{FileFormat, FixOperation};
use conflic::model::{
    parse_port, parse_version, Authority, ConfigAssertion, SemanticConcept, SemanticType, SourceLocation, SourceSpan,
};

fn assertion(raw: &str, value: SemanticType, extractor: &str, key_path: &str) -> ConfigAssertion {
    ConfigAssertion::new(
        SemanticConcept::node_version(),
        value,
        raw.to_string(),
        SourceLocation { file: "f".to_string(), line: 1, column: 0, key_path: key_path.to_string() },
        Authority::Declared,
        extractor,
    )
}

fn version(raw: &str, extractor: &str) -> ConfigAssertion {
    assertion(raw, SemanticType::Version(parse_version(raw)), extractor, "")
}

#[test]
fn nvmrc_keeps_its_v_prefix() {
    let winner = version("20.11.0", "node-version-dockerfile");
    let target = version("v18.0.0", "node-version-nvmrc");
    let (value, op) = build_fix_operation(&winner, &target, FileFormat::PlainText).unwrap();
    assert_eq!(value, "v20.11.0");
    assert!(matches!(op, FixOperation::ReplaceWholeFileValue { ref value } if value == "v20.11.0"));
}

#[test]
fn package_json_engines_get_a_json_string_edit() {
    let winner = version("20.11.0", "node-version-dockerfile");
    let target = version(">=18", "node-version-package-json");
    let (_, op) = build_fix_operation(&winner, &target, FileFormat::Json).unwrap();
    match op {
        FixOperation::ReplaceJsonString { path, .. } => assert_eq!(path, vec!["engines".to_string(), "node".to_string()]),
        _ => panic!("expected a JSON string edit"),
    }
}

#[test]
fn matrix_and_unknown_targets_are_refused() {
    let winner = version("20", "node-version-dockerfile");
    let matrix = version("18", "node-version-ci").with_matrix(true);
    assert_eq!(build_fix_operation(&winner, &matrix, FileFormat::Yaml).unwrap_err(), "matrix values are not auto-fixed");
    let ci = assertion("18", SemanticType::Version(parse_version("18")), "node-version-ci", "jobs.build");
    assert_eq!(
        build_fix_operation(&winner, &ci, FileFormat::Yaml).unwrap_err(),
        "auto-fix is not supported for YAML jobs.build targets"
    );
}

#[test]
fn pom_needs_a_source_span() {
    let winner = version("21", "java-version-dockerfile");
    let target = version("17", "java-version-pom");
    assert_eq!(
        build_fix_operation(&winner, &target, FileFormat::PlainText).unwrap_err(),
        "missing exact XML source span for pom.xml value"
    );
    let span = SourceSpan { start: 10, end: 12, line: 3, column: 4, end_line: 3, end_column: 6 };
    let (_, op) = build_fix_operation(&winner, &target.with_span(span), FileFormat::PlainText).unwrap();
    assert!(matches!(op, FixOperation::ReplaceTextRange { start: 10, end: 12, ref value } if value == "21"));
}

#[test]
fn env_ports_refuse_default_expressions() {
    let winner = assertion("8080", SemanticType::Port(parse_port("8080").unwrap()), "port-dockerfile", "");
    let target = assertion("${PORT:-3000}", SemanticType::Port(parse_port("3000").unwrap()), "port-env", "PORT");
    assert_eq!(
        build_fix_operation(&winner, &target, FileFormat::Env).unwrap_err(),
        "environment-default expressions are not auto-rewritten; manual update required"
    );
    let plain = assertion("3000", SemanticType::Port(parse_port("3000").unwrap()), "port-env", "PORT");
    let (value, op) = build_fix_operation(&winner, &plain, FileFormat::Env).unwrap();
    assert_eq!(value, "8080");
    assert!(matches!(op, FixOperation::ReplaceEnvValue { ref key, .. } if key == "PORT"));
}

#[test]
fn docker_from_arguments_keep_options_and_stage_name() {
    let winner = version("20.11.0", "node-version-nvmrc");
    assert_eq!(
        render_docker_from_arguments(&winner, "--platform=linux/amd64 node:18-alpine AS build").as_deref(),
        Some("--platform=linux/amd64 node:20.11.0-alpine AS build")
    );
    assert_eq!(render_docker_from_arguments(&winner, "registry:5000/node").as_deref(), None);
    assert_eq!(render_docker_from_arguments(&winner, "node@sha256:abc").as_deref(), None);
    let target = version("node:18", "node-version-dockerfile");
    let target = ConfigAssertion { raw_value: "node:18".to_string(), ..target };
    let (value, op) = build_fix_operation(&winner, &target, FileFormat::Dockerfile).unwrap();
    assert_eq!(value, "node:20.11.0");
    assert!(matches!(op, FixOperation::ReplaceDockerFromArguments { .. }));
}
