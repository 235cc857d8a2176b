use conflic::model::{
    Authority, ConceptCategory, ConceptResult, ConfigAssertion, ScanResult, SemanticConcept, SemanticType,
    SourceLocation,
};
use conflic::drift::{
    capture_baseline, compare_to_baseline, compute_drift, BaselineComparison, BaselineExpectation, OrganizationalBaseline, extract_major, matches_tolerance, render_drift_report, BaselineDriftEntry, BaselineDriftReport,
    DriftKind,
};

#[test]
fn test_matches_tolerance() {
    assert!(matches_tolerance("20.11.0", "20.x"));
    assert!(matches_tolerance("20.18.0", "20.x"));
    assert!(!matches_tolerance("18.0.0", "20.x"));
    assert!(matches_tolerance("3.12.1", "3.12.*"));
}

#[test]
fn drift_exact_when_trimmed_values_agree() {
    assert_eq!(compute_drift(" 20.11.0 ", "20.11.0", None), DriftKind::Exact);
    assert_eq!(compute_drift("20", "20", Some("18.x")), DriftKind::Exact);
}

#[test]
fn drift_minor_for_same_major_or_tolerated() {
    assert_eq!(compute_drift("20.11.0", "20.18.0", None), DriftKind::Minor);
    assert_eq!(compute_drift("20.11.0", "20.18.0", Some("20.x")), DriftKind::Minor);
    assert_eq!(compute_drift("abc", "xyz", Some("*")), DriftKind::Minor);
}

#[test]
fn drift_major_otherwise() {
    assert_eq!(compute_drift("20", "18", None), DriftKind::Major);
    assert_eq!(compute_drift("20", "18", Some("20.x")), DriftKind::Major);
    // Same major version, but outside the tolerance.
    assert_eq!(compute_drift("20.11.0", "20.18.0", Some("20.11.x")), DriftKind::Major);
    assert_eq!(compute_drift("lts", "latest", None), DriftKind::Major);
}

#[test]
fn major_version_extraction() {
    assert_eq!(extract_major(" 20.11.0"), Some(20));
    assert_eq!(extract_major("3"), Some(3));
    assert_eq!(extract_major("v3.1"), None);
    assert_eq!(extract_major(""), None);
}

fn entry(concept: &str, expected: &str, actual: &str, kind: DriftKind) -> BaselineDriftEntry {
    BaselineDriftEntry {
        concept: concept.to_string(),
        expected: expected.to_string(),
        actual: actual.to_string(),
        drift_kind: kind,
        files: vec![],
    }
}

#[test]
fn drift_report_without_color_lists_entries_and_score() {
    let report = BaselineDriftReport {
        entries: vec![
            entry("node-version", "20", "20", DriftKind::Exact),
            entry("python-version", "3.12", "(missing)", DriftKind::Missing),
        ],
        conformance_percent: 50,
    };
    let text = render_drift_report(&report, true);
    let expected = format!(
        "conflic v0.1.0 - baseline drift report\n\n  {:<25} {:<15} {:<15} {}\n{}\n  {:<25} {:<15} {:<15} {}\n  {:<25} {:<15} {:<15} {}\n\nConformance score: 50%\n",
        "Concept", "Expected", "Actual", "Drift",
        "-".repeat(75),
        "node-version", "20", "20", "OK",
        "python-version", "3.12", "(missing)", "MISSING",
    );
    assert_eq!(text, expected);
}

#[test]
fn drift_report_colors_labels_and_score() {
    let report = BaselineDriftReport {
        entries: vec![entry("node-version", "20", "18", DriftKind::Major), entry("go-version", "1.22", "1.21", DriftKind::Minor)],
        conformance_percent: 85,
    };
    let text = render_drift_report(&report, false);
    assert!(text.contains("\u{1b}[31mMAJOR\u{1b}[39m"));
    assert!(text.contains("\u{1b}[33mMINOR\u{1b}[39m"));
    assert!(text.contains("\u{1b}[2m---"));
    assert!(text.ends_with("\u{1b}[1mConformance score\u{1b}[0m: \u{1b}[32m85%\u{1b}[39m\n"));
    let low = BaselineDriftReport { entries: vec![], conformance_percent: 49 };
    assert!(render_drift_report(&low, false).ends_with("\u{1b}[31m49%\u{1b}[39m\n"));
    let mid = BaselineDriftReport { entries: vec![], conformance_percent: 50 };
    assert!(render_drift_report(&mid, false).ends_with("\u{1b}[33m50%\u{1b}[39m\n"));
}

fn make_assertion(concept_id: &str, file: &str, raw: &str) -> ConfigAssertion {
    ConfigAssertion {
        concept: SemanticConcept {
            id: concept_id.into(),
            display_name: concept_id.into(),
            category: ConceptCategory::RuntimeVersion,
        },
        value: SemanticType::StringValue(raw.into()),
        raw_value: raw.into(),
        source: SourceLocation { file: file.into(), line: 1, column: 0, key_path: "".into() },
        span: None,
        authority: Authority::Declared,
        extractor_id: "test".into(),
        is_matrix: false,
    }
}

#[test]
fn test_capture_baseline() {
    let a = make_assertion("node-version", ".nvmrc", "20");
    let result = ScanResult {
        concept_results: vec![ConceptResult { concept: a.concept.clone(), assertions: vec![a], findings: vec![] }],
        parse_diagnostics: vec![],
    };

    let baseline = capture_baseline(&result);
    assert_eq!(baseline.expectation.len(), 1);
    assert_eq!(baseline.expectation[0].concept, "node-version");
    assert_eq!(baseline.expectation[0].expected, "20");
}

fn one_result(a: ConfigAssertion) -> ScanResult {
    ScanResult {
        concept_results: vec![ConceptResult { concept: a.concept.clone(), assertions: vec![a], findings: vec![] }],
        parse_diagnostics: vec![],
    }
}

fn expecting(concept: &str, expected: &str, tolerance: Option<&str>) -> OrganizationalBaseline {
    OrganizationalBaseline {
        version: None,
        created_at: None,
        expectation: vec![BaselineExpectation {
            concept: concept.into(),
            expected: expected.into(),
            tolerance: tolerance.map(String::from),
        }],
    }
}

/// The conformance score: the share of expectations met exactly, 1 when
/// there is none.
fn score(c: &BaselineComparison) -> f64 {
    if c.total == 0 {
        1.0
    } else {
        c.conformant as f64 / c.total as f64
    }
}

#[test]
fn test_exact_conformance() {
    let result = one_result(make_assertion("node-version", ".nvmrc", "20"));
    let report = compare_to_baseline(&result, &expecting("node-version", "20", None));
    assert_eq!(score(&report), 1.0);
    assert_eq!(report.entries[0].drift_kind, DriftKind::Exact);
}

#[test]
fn test_major_drift() {
    let result = one_result(make_assertion("node-version", ".nvmrc", "18"));
    let report = compare_to_baseline(&result, &expecting("node-version", "20", None));
    assert_eq!(score(&report), 0.0);
    assert_eq!(report.entries[0].drift_kind, DriftKind::Major);
}

#[test]
fn test_minor_drift_with_tolerance() {
    let result = one_result(make_assertion("node-version", ".nvmrc", "20.11.0"));
    let report = compare_to_baseline(&result, &expecting("node-version", "20.18.0", Some("20.x")));
    assert_eq!(report.entries[0].drift_kind, DriftKind::Minor);
}

#[test]
fn test_missing_concept() {
    let result = ScanResult { concept_results: vec![], parse_diagnostics: vec![] };
    let report = compare_to_baseline(&result, &expecting("node-version", "20", None));
    assert_eq!(report.entries[0].drift_kind, DriftKind::Missing);
    assert_eq!(score(&report), 0.0);
}

#[test]
fn baseline_comparison_resolves_aliases_and_lists_files() {
    let mut high = make_assertion("node-version", "Dockerfile", "20");
    high.authority = Authority::Enforced;
    let low = make_assertion("node-version", ".nvmrc", "18");
    let result = ScanResult {
        concept_results: vec![ConceptResult { concept: low.concept.clone(), assertions: vec![low, high], findings: vec![] }],
        parse_diagnostics: vec![],
    };
    let report = compare_to_baseline(&result, &expecting("node", "20", None));
    assert_eq!(report.entries[0].concept, "node");
    assert_eq!(report.entries[0].actual, "20");
    assert_eq!(report.entries[0].drift_kind, DriftKind::Exact);
    assert_eq!(report.entries[0].files, vec![".nvmrc".to_string(), "Dockerfile".to_string()]);
    assert_eq!((report.conformant, report.total), (1, 1));
}
