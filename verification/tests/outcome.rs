use conflic::fix::{FileFormat, FixOperation, FixPlan, FixProposal, UnfixableItem};
use conflic::model::{
    parse_version, Authority, ConceptResult, ConfigAssertion, Finding, ScanResult, SemanticConcept, SemanticType,
    Severity, SourceLocation,
};
use conflic::outcome::{exit_code, filter_fix_plan_by_concept, filter_scan_result_by_concepts, should_print_report};

fn assertion(concept: SemanticConcept, raw: &str) -> ConfigAssertion {
    ConfigAssertion::new(
        concept,
        SemanticType::Version(parse_version(raw)),
        raw.to_string(),
        SourceLocation { file: "f".to_string(), line: 1, column: 0, key_path: String::new() },
        Authority::Declared,
        "test",
    )
}

fn result_with(severities: &[Severity]) -> ScanResult {
    let a = assertion(SemanticConcept::node_version(), "18");
    let b = assertion(SemanticConcept::node_version(), "20");
    let findings = severities
        .iter()
        .map(|s| Finding {
            severity: *s,
            left: a.clone(),
            right: b.clone(),
            explanation: String::new(),
            rule_id: "VER001".to_string(),
        })
        .collect();
    ScanResult {
        concept_results: vec![
            ConceptResult { concept: SemanticConcept::node_version(), assertions: vec![a, b], findings },
            ConceptResult { concept: SemanticConcept::python_version(), assertions: vec![], findings: vec![] },
            ConceptResult { concept: SemanticConcept::app_port(), assertions: vec![], findings: vec![] },
        ],
        parse_diagnostics: vec![],
    }
}

#[test]
fn exit_codes_follow_the_worst_finding() {
    assert_eq!(exit_code(&result_with(&[Severity::Warning, Severity::Error]), Severity::Warning), 1);
    assert_eq!(exit_code(&result_with(&[Severity::Warning]), Severity::Warning), 2);
    assert_eq!(exit_code(&result_with(&[Severity::Warning]), Severity::Info), 2);
    assert_eq!(exit_code(&result_with(&[Severity::Warning]), Severity::Error), 0);
    assert_eq!(exit_code(&result_with(&[Severity::Info]), Severity::Info), 0);
    assert_eq!(exit_code(&result_with(&[]), Severity::Info), 0);
}

#[test]
fn quiet_runs_print_only_reportable_findings() {
    assert!(should_print_report(false, &result_with(&[]), Severity::Error));
    assert!(!should_print_report(true, &result_with(&[Severity::Warning]), Severity::Error));
    assert!(should_print_report(true, &result_with(&[Severity::Error]), Severity::Error));
}

#[test]
fn checked_concepts_accept_aliases() {
    let mut r = result_with(&[]);
    filter_scan_result_by_concepts(&mut r, &["node".to_string(), "port".to_string()]);
    let ids: Vec<&str> = r.concept_results.iter().map(|cr| cr.concept.id.as_str()).collect();
    assert_eq!(ids, vec!["node-version", "app-port"]);
}

#[test]
fn fix_plans_keep_the_selected_concept() {
    let proposal = |concept: SemanticConcept| FixProposal {
        file: "/w/.nvmrc".to_string(),
        concept,
        current_raw: "18".to_string(),
        proposed_raw: "20".to_string(),
        key_path: String::new(),
        line: 1,
        authority_winner: "Dockerfile".to_string(),
        winner_file: "Dockerfile".to_string(),
        format: FileFormat::PlainText,
        operation: FixOperation::ReplaceWholeFileValue { value: "20".to_string() },
    };
    let mut plan = FixPlan {
        proposals: vec![proposal(SemanticConcept::python_version()), proposal(SemanticConcept::node_version())],
        unfixable: vec![
            UnfixableItem { concept: SemanticConcept::node_version(), reason: "a".to_string() },
            UnfixableItem { concept: SemanticConcept::go_version(), reason: "b".to_string() },
        ],
    };
    filter_fix_plan_by_concept(&mut plan, "node");
    assert_eq!(plan.proposals.len(), 1);
    assert_eq!(plan.proposals[0].concept.id, "node-version");
    assert_eq!(plan.unfixable.len(), 1);
    assert_eq!(plan.unfixable[0].reason, "a");
}
