use conflic::config::{CustomExtractorConfig, CustomSourceConfig};
use conflic::extract::custom::{compile_source, config_diagnostic, CompiledCustomSource};
use conflic::model::Severity;

fn extractor() -> CustomExtractorConfig {
    CustomExtractorConfig {
        concept: "node-version".to_string(),
        display_name: "Node Version".to_string(),
        category: "runtime-version".to_string(),
        value_type: "version".to_string(),
        source: vec![],
    }
}

fn source(file: &str, format: &str, pattern: Option<&str>) -> CustomSourceConfig {
    CustomSourceConfig {
        file: file.to_string(),
        format: format.to_string(),
        path: None,
        key: None,
        pattern: pattern.map(|p| p.to_string()),
        authority: "declared".to_string(),
    }
}

fn compiled(file: &str) -> CompiledCustomSource {
    match compile_source(source(file, "plain", None), &extractor(), 0, None) {
        Ok(c) => c,
        Err(d) => panic!("unexpected diagnostic: {}", d.message),
    }
}

#[test]
fn plain_source_compiles_unchanged() {
    let c = compiled(".nvmrc");
    assert_eq!(c.normalized_file, ".nvmrc");
    assert!(!c.is_glob);
    assert_eq!(c.relative_glob, None);
    assert_eq!(c.config.file, ".nvmrc");
    assert_eq!(c.config.format, "plain");
}

#[test]
fn backslashes_are_normalized() {
    let c = compiled("config\\app.env");
    assert_eq!(c.normalized_file, "config/app.env");
    assert!(!c.is_glob);
}

#[test]
fn unknown_format_is_a_config_error() {
    let r = compile_source(source(".nvmrc", "xml", None), &extractor(), 2, None);
    let d = r.err().expect("diagnostic");
    assert_eq!(d.severity, Severity::Error);
    assert_eq!(d.rule_id, "CONFIG001");
    assert_eq!(d.file, ".conflic.toml");
    assert_eq!(
        d.message,
        "Custom extractor 'node-version' source 3 has invalid source format 'xml'. Expected one of: json, yaml, toml, env, plain, dockerfile"
    );
}

#[test]
fn every_supported_format_is_accepted() {
    for format in ["json", "yaml", "toml", "env", "plain", "dockerfile"] {
        assert!(compile_source(source("f", format, None), &extractor(), 0, None).is_ok());
    }
}

#[test]
fn invalid_file_glob_is_reported() {
    let r = compile_source(source("[abc", "yaml", None), &extractor(), 0, Some("/repo/.conflic.toml"));
    let d = r.err().expect("diagnostic");
    assert_eq!(d.file, "/repo/.conflic.toml");
    assert_eq!(d.rule_id, "CONFIG001");
    assert_eq!(
        d.message,
        "Custom extractor 'node-version' source 1 has invalid file glob '[abc': error parsing glob '[abc': unclosed character class; missing ']'"
    );
}

#[test]
fn invalid_path_glob_is_reported() {
    let r = compile_source(source("\\[x", "yaml", None), &extractor(), 0, None);
    let d = r.err().expect("diagnostic");
    assert_eq!(
        d.message,
        "Custom extractor 'node-version' source 1 has invalid path glob '\\[x': error parsing glob '/[x': unclosed character class; missing ']'"
    );
}

#[test]
fn invalid_regex_pattern_is_reported() {
    let r = compile_source(source(".nvmrc", "plain", Some("v(")), &extractor(), 1, None);
    let d = r.err().expect("diagnostic");
    assert_eq!(d.severity, Severity::Error);
    assert!(d.message.starts_with("Custom extractor 'node-version' source 2 has invalid regex pattern 'v(': regex parse error"));
}

#[test]
fn valid_regex_pattern_compiles() {
    assert!(compile_source(source(".nvmrc", "plain", Some("v(\\d+)")), &extractor(), 0, None).is_ok());
}

#[test]
fn relative_glob_is_added_below_the_root() {
    let c = compiled("./config/*.yml");
    assert!(c.is_glob);
    assert_eq!(c.relative_glob.as_deref(), Some("**/config/*.yml"));
    assert_eq!(compiled("**/x.yml").relative_glob, None);
    assert_eq!(compiled("/abs/*.yml").relative_glob, None);
}

#[test]
fn glob_matches_file_names() {
    let c = compiled("*.env");
    assert!(c.matches_filename(".env"));
    assert!(c.matches_filename("app.env"));
    assert!(!c.matches_filename("app.txt"));
    assert!(c.matches_path("app.env", "/repo/app.env"));
}

#[test]
fn plain_name_matches_exactly() {
    let c = compiled(".nvmrc");
    assert!(c.matches_filename(".nvmrc"));
    assert!(!c.matches_filename(".nvmrc.bak"));
    assert!(!c.matches_path("other", "/repo/.nvmrc"));
}

#[test]
fn plain_path_matches_by_suffix() {
    let c = compiled("config/app.env");
    assert!(c.matches_path("app.env", "/repo/config/app.env"));
    assert!(c.matches_path("app.env", "C:\\repo\\config\\app.env"));
    assert!(!c.matches_path("app.env", "/repo/other/app.env"));
}

#[test]
fn glob_path_matches_at_any_depth() {
    let c = compiled("config/*.yml");
    assert!(c.matches_path("a.yml", "/repo/config/a.yml"));
    assert!(c.matches_path("a.yml", "config/a.yml"));
    assert!(!c.matches_path("a.yml", "/repo/other/a.yml"));
}

#[test]
fn config_diagnostic_falls_back_to_default_file() {
    let d = config_diagnostic(None, "bad".to_string());
    assert_eq!(d.file, ".conflic.toml");
    assert_eq!(d.message, "bad");
    assert_eq!(d.rule_id, "CONFIG001");
    assert_eq!(d.severity, Severity::Error);
}
