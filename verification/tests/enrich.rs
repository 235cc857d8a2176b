use conflic::enrich::{
    builtin_registry, concept_to_family, days_between, extract_cycle_from_assertion, lookup_metadata,
    parse_date_to_days, parse_eol_window_rule, RegistryDb, VersionLifecycle,
};
use conflic::model::{
    parse_version, Authority, ConceptCategory, ConfigAssertion, SemanticConcept, SemanticType, SourceLocation,
    VersionSpec,
};

#[test]
fn test_builtin_registry_has_node() {
    let db = builtin_registry();
    assert!(db.contains_family("node"));
    let node = db.family("node").unwrap();
    assert!(node.iter().any(|lc| lc.cycle == "22"));
}

#[test]
fn test_builtin_registry_has_python() {
    let db = builtin_registry();
    assert!(db.contains_family("python"));
    let python = db.family("python").unwrap();
    assert!(python.iter().any(|lc| lc.cycle == "3.12"));
}

#[test]
fn test_parse_eol_window_rule() {
    assert_eq!(parse_eol_window_rule("eol-window >= 90"), Some(90));
    assert_eq!(parse_eol_window_rule("eol-window >= 30"), Some(30));
    assert_eq!(parse_eol_window_rule(">= 20"), None);
    assert_eq!(parse_eol_window_rule("eol-window"), None);
}

#[test]
fn test_days_between() {
    assert!(days_between("2025-01-01", "2025-01-31").unwrap() > 0);
    assert!(days_between("2025-06-01", "2025-01-01").unwrap() < 0);
}

#[test]
fn test_concept_to_family() {
    assert_eq!(concept_to_family("node-version"), "node");
    assert_eq!(concept_to_family("python-version"), "python");
    assert_eq!(concept_to_family("custom-version"), "custom");
}

#[test]
fn registry_lookup_misses_unknown_family() {
    let db = builtin_registry();
    assert!(!db.contains_family("ruby"));
    assert!(db.family("go").is_none());
    assert_eq!(db.updated_at.as_deref(), Some("2025-01-01T00:00:00Z"));
    let node = db.family("node").unwrap();
    assert_eq!(node.len(), 4);
    assert_eq!(node[1].eol_date.as_deref(), Some("2025-04-30"));
}

#[test]
fn date_day_numbers() {
    assert_eq!(parse_date_to_days("2025-01-31"), Some(2025 * 365 + 30 + 31));
    assert_eq!(parse_date_to_days("2025-01"), None);
    assert_eq!(parse_date_to_days("2025-x-01"), None);
    assert_eq!(days_between("2025-01-01", "2025-01-31"), Some(30));
    assert_eq!(days_between("bad", "2025-01-31"), None);
}

#[test]
fn family_strips_every_trailing_version_suffix() {
    assert_eq!(concept_to_family("app-port"), "app-port");
    assert_eq!(concept_to_family("x-version-version"), "x");
    assert_eq!(concept_to_family("-version"), "");
}

#[test]
fn eol_rule_tolerates_spacing() {
    assert_eq!(parse_eol_window_rule("  eol-window>=7  "), Some(7));
    assert_eq!(parse_eol_window_rule("eol-window >= -1"), None);
    assert_eq!(parse_eol_window_rule("eol-window >= 4294967296"), None);
}

#[test]
fn cycle_metadata_from_the_registry() {
    let db = conflic::enrich::builtin_registry();
    let meta = conflic::enrich::lookup_cycle_metadata("node-version", "18", &db, "2025-03-01").unwrap();
    assert_eq!(meta.eol_date.as_deref(), Some("2025-04-30"));
    assert!(!meta.deprecated);
    assert!(meta.lts);
    let old = conflic::enrich::lookup_cycle_metadata("node-version", "18", &db, "2025-05-01").unwrap();
    assert!(old.deprecated);
    let on_the_day = conflic::enrich::lookup_cycle_metadata("node-version", "18", &db, "2025-04-30").unwrap();
    assert!(on_the_day.deprecated);
    assert!(conflic::enrich::lookup_cycle_metadata("node-version", "7", &db, "2025-03-01").is_none());
    assert!(conflic::enrich::lookup_cycle_metadata("rust-version", "1", &db, "2025-03-01").is_none());
}

fn make_assertion(raw: &str) -> ConfigAssertion {
    let parsed = parse_version(raw);
    ConfigAssertion {
        concept: SemanticConcept {
            id: "node-version".into(),
            display_name: "Node.js Version".into(),
            category: ConceptCategory::RuntimeVersion,
        },
        value: SemanticType::Version(parsed),
        raw_value: raw.into(),
        source: SourceLocation { file: ".nvmrc".into(), line: 1, column: 0, key_path: "".into() },
        span: None,
        authority: Authority::Declared,
        extractor_id: "test".into(),
        is_matrix: false,
    }
}

fn make_registry() -> RegistryDb {
    let mut db = RegistryDb::default();
    db.families.push((
        "node".into(),
        vec![
            VersionLifecycle {
                cycle: "18".into(),
                release_date: Some("2022-04-19".into()),
                eol_date: Some("2025-04-30".into()),
                lts: true,
                latest_patch: Some("18.20.4".into()),
            },
            VersionLifecycle {
                cycle: "20".into(),
                release_date: Some("2023-04-18".into()),
                eol_date: Some("2026-04-30".into()),
                lts: true,
                latest_patch: Some("20.18.0".into()),
            },
        ],
    ));
    db
}

#[test]
fn test_lookup_metadata_found() {
    let a = make_assertion("18.20.0");
    let db = make_registry();

    let meta = lookup_metadata(&a, &db, "2025-03-01").unwrap();
    assert_eq!(meta.eol_date.as_deref(), Some("2025-04-30"));
    assert!(!meta.deprecated);
    assert!(meta.lts);
}

#[test]
fn test_lookup_metadata_deprecated() {
    let a = make_assertion("18.20.0");
    let db = make_registry();

    let meta = lookup_metadata(&a, &db, "2025-05-01").unwrap();
    assert!(meta.deprecated);
}

#[test]
fn cycle_of_assertion_by_kind_of_version() {
    assert_eq!(extract_cycle_from_assertion(&make_assertion("20.11.0")), "20");
    assert_eq!(extract_cycle_from_assertion(&make_assertion("22-alpine")), "22");
    let mut tag = make_assertion("x");
    tag.value = SemanticType::Version(VersionSpec::DockerTag { version: "3.12".into(), variant: Some("slim".into()) });
    assert_eq!(extract_cycle_from_assertion(&tag), "3");
    let mut partial = make_assertion(" 3.12 ");
    partial.value = SemanticType::Version(VersionSpec::Partial { major: 3, minor: Some(12) });
    assert_eq!(extract_cycle_from_assertion(&partial), "3");
    let mut plain = make_assertion(" 3.12 ");
    plain.value = SemanticType::StringValue("3.12".into());
    assert_eq!(extract_cycle_from_assertion(&plain), "3");
    assert!(lookup_metadata(&make_assertion("16"), &make_registry(), "2025-01-01").is_none());
}

fn eol_policy(message: Option<&str>) -> conflic::config::PolicyConfig {
    conflic::config::PolicyConfig {
        id: "EOL001".into(),
        concept: "node-version".into(),
        rule: "eol-window >= 90".into(),
        severity: "warning".into(),
        message: message.map(String::from),
    }
}

#[test]
fn test_eol_window_policy() {
    let a = make_assertion("18");
    let db = make_registry();
    let mut results = vec![conflic::model::ConceptResult {
        concept: a.concept.clone(),
        assertions: vec![a],
        findings: vec![],
    }];
    let mut config = conflic::config::ConflicConfig::default();
    config.policy.push(eol_policy(Some("Upgrade to a supported LTS version")));
    conflic::enrich::annotate_assertions(&mut results, &db, &config, "2025-03-01");
    assert!(!results[0].findings.is_empty(), "Should produce EOL warning when within window");
    assert_eq!(results[0].findings[0].rule_id, "EOL001");
}

#[test]
fn test_eol_window_policy_not_triggered_when_far() {
    let a = make_assertion("20");
    let db = make_registry();
    let mut results = vec![conflic::model::ConceptResult {
        concept: a.concept.clone(),
        assertions: vec![a],
        findings: vec![],
    }];
    let mut config = conflic::config::ConflicConfig::default();
    config.policy.push(eol_policy(None));
    conflic::enrich::annotate_assertions(&mut results, &db, &config, "2025-03-01");
    assert!(results[0].findings.is_empty(), "Node 20 EOL is far away, should not trigger");
}

#[test]
fn eol_finding_text_and_past_end_of_life() {
    let db = make_registry();
    let mut config = conflic::config::ConflicConfig::default();
    config.policy.push(eol_policy(Some("Upgrade")));
    let mut results = vec![conflic::model::ConceptResult {
        concept: make_assertion("18").concept.clone(),
        assertions: vec![make_assertion("18")],
        findings: vec![],
    }];
    conflic::enrich::annotate_assertions(&mut results, &db, &config, "2025-03-01");
    let f = &results[0].findings[0];
    // 2025-04-30 is 59 approximate days after 2025-03-01 (30-day months).
    assert_eq!(f.explanation, "\"18\" reaches end-of-life in 59 days (EOL: 2025-04-30): Upgrade");
    assert_eq!(f.right.raw_value, "eol-window >= 90");
    assert_eq!(f.right.source.key_path, "eol.node-version");
    assert_eq!(f.right.source.file, ".conflic-registry-cache.json");
    assert_eq!(f.right.extractor_id, "registry-enrichment");
    assert!(matches!(f.right.value, conflic::model::SemanticType::StringValue(ref s) if s == "EOL: 2025-04-30, latest: 18.20.4"));
    let mut later = vec![conflic::model::ConceptResult {
        concept: make_assertion("18").concept.clone(),
        assertions: vec![make_assertion("18")],
        findings: vec![],
    }];
    config.policy[0].severity = "ERROR".into();
    config.policy[0].message = None;
    conflic::enrich::annotate_assertions(&mut later, &db, &config, "2025-06-01");
    assert_eq!(later[0].findings[0].explanation, "\"18\" has reached end-of-life (EOL: 2025-04-30)");
    assert_eq!(later[0].findings[0].severity, conflic::model::Severity::Error);
}
