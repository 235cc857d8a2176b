use conflic::cli::SeverityFilter;
use conflic::config::{
    concept_matches_selector, default_authority, default_category, default_format, default_severity, default_value_type, generate_template,
    ConflicConfig, CustomSourceConfig, IgnoreRule,
};
use conflic::extract::custom::CustomExtractor;
use conflic::extract::port::strip_port_protocol;
use conflic::model::{ConceptCategory, SemanticConcept, Severity};

#[test]
fn config_defaults_match_documented_values() {
    assert_eq!(default_category(), "custom");
    assert_eq!(default_value_type(), "string");
    assert_eq!(default_authority(), "declared");
    assert_eq!(default_severity(), "warning");
    assert_eq!(default_format(), "terminal");
}

#[test]
fn skip_concepts_are_matched_exactly() {
    let mut config = ConflicConfig::default();
    config.conflic.skip_concepts = vec!["node-version".to_string(), "app-port".to_string()];
    assert!(config.should_skip_concept("node-version"));
    assert!(config.should_skip_concept("app-port"));
    assert!(!config.should_skip_concept("node"));
    assert!(!config.should_skip_concept("python-version"));
}

#[test]
fn skip_concepts_accept_short_aliases() {
    let mut config = ConflicConfig::default();
    config.conflic.skip_concepts = vec!["node".to_string(), "port".to_string()];
    assert!(config.should_skip_concept("node-version"));
    assert!(config.should_skip_concept("app-port"));
    assert!(!config.should_skip_concept("node-pkg-manager"));
    assert!(!config.should_skip_concept("python-version"));
    assert!(concept_matches_selector("python-version", "python"));
    assert!(concept_matches_selector("redis-version", "redis-version"));
    assert!(!concept_matches_selector("python-version", "py"));
}

#[test]
fn ignore_rule_with_single_file_matches_either_side() {
    let mut config = ConflicConfig::default();
    config.ignore.push(IgnoreRule {
        rule: Some("VER001".to_string()),
        files: None,
        file: Some("legacy/Dockerfile".to_string()),
        reason: None,
    });
    assert!(config.should_ignore_finding("VER001", "/w/legacy/Dockerfile", "/w/.nvmrc"));
    assert!(config.should_ignore_finding("VER001", "/w/.nvmrc", "/w/legacy/Dockerfile"));
    assert!(!config.should_ignore_finding("VER002", "/w/legacy/Dockerfile", "/w/.nvmrc"));
    // Suffixes are compared by whole path components.
    assert!(!config.should_ignore_finding("VER001", "/w/notlegacy/Dockerfile", "/w/.nvmrc"));
}

#[test]
fn ignore_rule_with_files_needs_both_sides() {
    let mut config = ConflicConfig::default();
    config.ignore.push(IgnoreRule {
        rule: None,
        files: Some(vec![".nvmrc".to_string(), "Dockerfile".to_string()]),
        file: None,
        reason: Some("known".to_string()),
    });
    assert!(config.should_ignore_finding("ANY", "/w/.nvmrc", "/w/Dockerfile"));
    assert!(!config.should_ignore_finding("ANY", "/w/.nvmrc", "/w/package.json"));
}

#[test]
fn template_starts_with_the_conflic_table_comment() {
    let t = generate_template();
    assert!(t.starts_with("# conflic configuration\n"));
    assert!(t.contains("[conflic]"));
}

#[test]
fn severity_filter_names_its_severity() {
    assert_eq!(SeverityFilter::Error.to_severity(), Severity::Error);
    assert_eq!(SeverityFilter::Warning.to_severity(), Severity::Warning);
    assert_eq!(SeverityFilter::Info.to_severity(), Severity::Info);
}

#[test]
fn port_protocol_suffix_is_removed() {
    assert_eq!(strip_port_protocol(" 8080/tcp "), "8080");
    assert_eq!(strip_port_protocol("53/UDP"), "53");
    assert_eq!(strip_port_protocol("8080/sctp"), "8080/sctp");
    assert_eq!(strip_port_protocol("3000"), "3000");
}

#[test]
fn custom_source_matches_name_or_prefix() {
    let source = CustomSourceConfig {
        file: ".env".to_string(),
        format: "env".to_string(),
        path: None,
        key: Some("PORT".to_string()),
        pattern: None,
        authority: "declared".to_string(),
    };
    assert!(CustomExtractor::source_matches(&source, ".env"));
    assert!(CustomExtractor::source_matches(&source, ".env.local"));
    assert!(!CustomExtractor::source_matches(&source, "app.env"));
}

#[test]
fn concept_constructors_name_their_concepts() {
    let ts = SemanticConcept::ts_strict_mode();
    assert_eq!(ts.id, "ts-strict-mode");
    assert_eq!(ts.display_name, "TypeScript Strict Mode");
    assert_eq!(ts.category, ConceptCategory::StrictMode);
    let pm = SemanticConcept::node_package_manager();
    assert_eq!(pm.id, "node-pkg-manager");
    assert_eq!(pm.category, ConceptCategory::PackageManager);
}
