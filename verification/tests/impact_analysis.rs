use conflic::impact_analysis::analyze_impact;
use conflic::model::{
    Authority, ConceptCategory, ConceptResult, ConfigAssertion, Finding, ScanResult, SemanticConcept, SemanticType,
    Severity, SourceLocation,
};

fn make_assertion(concept_id: &str, file: &str, raw: &str) -> ConfigAssertion {
    ConfigAssertion {
        concept: SemanticConcept {
            id: concept_id.into(),
            display_name: concept_id.into(),
            category: ConceptCategory::RuntimeVersion,
        },
        value: SemanticType::StringValue(raw.into()),
        raw_value: raw.into(),
        source: SourceLocation { file: file.into(), line: 1, column: 0, key_path: "".into() },
        span: None,
        authority: Authority::Declared,
        extractor_id: "test".into(),
        is_matrix: false,
    }
}

fn python_and_pip() -> ScanResult {
    let a1 = make_assertion("python-version", ".python-version", "3.12");
    let a2 = make_assertion("pip-version", "requirements.txt", "21.0");
    ScanResult {
        concept_results: vec![
            ConceptResult { concept: a1.concept.clone(), assertions: vec![a1], findings: vec![] },
            ConceptResult { concept: a2.concept.clone(), assertions: vec![a2], findings: vec![] },
        ],
        parse_diagnostics: vec![],
    }
}

#[test]
fn test_impact_direct_peers() {
    let a1 = make_assertion("node-version", "a/.nvmrc", "20");
    let a2 = make_assertion("node-version", "a/Dockerfile", "18");
    let result = ScanResult {
        concept_results: vec![ConceptResult { concept: a1.concept.clone(), assertions: vec![a1, a2], findings: vec![] }],
        parse_diagnostics: vec![],
    };
    let report = analyze_impact(&result, &["a/.nvmrc".to_string()], ".", &[]);
    assert_eq!(report.root_changes.len(), 1);
    assert_eq!(report.direct_impacts.len(), 1);
    assert_eq!(report.blast_radius.concepts_affected, 1);
}

#[test]
fn test_impact_transitive_via_concept_rules() {
    let result = python_and_pip();
    let rules = [("python-version".to_string(), "pip-version".to_string())];
    let report = analyze_impact(&result, &[".python-version".to_string()], ".", &rules);
    assert_eq!(report.root_changes.len(), 1);
    assert!(!report.transitive_impacts.is_empty());
    assert!(report.affected_concepts.contains(&"pip-version".to_string()));
}

#[test]
fn test_impact_no_change_empty_report() {
    let result = ScanResult { concept_results: vec![], parse_diagnostics: vec![] };
    let report = analyze_impact(&result, &[], ".", &[]);
    assert!(report.root_changes.is_empty());
    assert!(report.direct_impacts.is_empty());
    assert_eq!(report.blast_radius.files_affected, 0);
}

#[test]
fn impact_report_details() {
    let mut result = python_and_pip();
    let left = make_assertion("pip-version", "requirements.txt", "21.0");
    let right = make_assertion("pip-version", "Pipfile", "22.0");
    result.concept_results[1].findings.push(Finding {
        severity: Severity::Warning,
        left,
        right,
        explanation: String::new(),
        rule_id: "VER001".into(),
    });
    // An alias in the rule, and a changed path spelled twice.
    let rules = [("python-version".to_string(), "pip".to_string())];
    let changed = [".python-version".to_string(), "./.python-version".to_string()];
    let report = analyze_impact(&result, &changed, "/w", &rules);
    assert_eq!(report.root_changes.len(), 1);
    assert_eq!(report.root_changes[0].path, "/w/.python-version");
    assert_eq!(report.root_changes[0].concept_ids, vec!["python-version".to_string()]);
    assert_eq!(report.root_changes[0].reason, "directly changed");
    assert_eq!(report.transitive_impacts.len(), 1);
    assert_eq!(report.transitive_impacts[0].path, "requirements.txt");
    assert_eq!(report.transitive_impacts[0].concept_ids, vec!["pip-version".to_string()]);
    assert_eq!(report.transitive_impacts[0].reason, "transitively affected via concept rule 'pip'");
    assert_eq!(report.affected_concepts, vec!["pip-version".to_string(), "python-version".to_string()]);
    assert_eq!(report.blast_radius.files_affected, 2);
    assert_eq!(report.blast_radius.worst_severity, Some(Severity::Warning));
}
