use conflic::fix::plan::{fix_winner, plan_fixes};
use conflic::fix::{FileFormat, FixOperation};
use conflic::model::{
    parse_port, parse_version, Authority, ConceptCategory, ConceptResult, ConfigAssertion, Finding, ScanResult,
    SemanticConcept, SemanticType, Severity, SourceLocation,
};

fn concept() -> SemanticConcept {
    SemanticConcept {
        id: "node-version".into(),
        display_name: "Node.js Version".into(),
        category: ConceptCategory::RuntimeVersion,
    }
}

fn assertion(extractor_id: &str, file: &str, raw_value: &str, value: SemanticType, authority: Authority) -> ConfigAssertion {
    ConfigAssertion {
        concept: concept(),
        value,
        raw_value: raw_value.into(),
        source: SourceLocation { file: file.into(), line: 1, column: 0, key_path: String::new() },
        span: None,
        authority,
        extractor_id: extractor_id.into(),
        is_matrix: false,
    }
}

fn finding(severity: Severity, left: ConfigAssertion, right: ConfigAssertion, explanation: &str, rule: &str) -> Finding {
    Finding { severity, left, right, explanation: explanation.into(), rule_id: rule.into() }
}

fn one_concept(assertions: Vec<ConfigAssertion>, findings: Vec<Finding>) -> ScanResult {
    ScanResult {
        concept_results: vec![ConceptResult { concept: concept(), assertions, findings }],
        parse_diagnostics: vec![],
    }
}

#[test]
fn test_plan_fixes_refuses_range_for_exact_version_file() {
    let winner = assertion(
        "node-version-package-json",
        "package.json",
        "^20",
        SemanticType::Version(parse_version("^20")),
        Authority::Declared,
    );
    let target = assertion(
        "node-version-nvmrc",
        ".nvmrc",
        "18",
        SemanticType::Version(parse_version("18")),
        Authority::Advisory,
    );
    let result = one_concept(
        vec![winner.clone(), target.clone()],
        vec![finding(Severity::Error, winner, target, "contradiction", "TEST001")],
    );
    let formats = vec![vec![FileFormat::Json, FileFormat::PlainText]];
    let compatible = vec![vec![true, false]];
    let plan = plan_fixes(&result, &formats, &compatible);
    assert!(plan.proposals.is_empty(), "unsafe fix should be rejected");
    assert_eq!(plan.unfixable.len(), 1);
    assert!(
        plan.unfixable[0].reason.contains("not an exact version token"),
        "expected exact-version rejection, got {}",
        plan.unfixable[0].reason
    );
}

#[test]
fn test_plan_fixes_refuses_ambiguous_top_authority_ranges() {
    let left = assertion(
        "node-version-package-json",
        "packages/a/package.json",
        ">=18 <20",
        SemanticType::Version(parse_version(">=18 <20")),
        Authority::Declared,
    );
    let middle = assertion(
        "node-version-package-json",
        "packages/b/package.json",
        ">=19 <21",
        SemanticType::Version(parse_version(">=19 <21")),
        Authority::Declared,
    );
    let right = assertion(
        "node-version-package-json",
        "packages/c/package.json",
        ">=20 <22",
        SemanticType::Version(parse_version(">=20 <22")),
        Authority::Declared,
    );
    let result = one_concept(
        vec![left.clone(), middle, right.clone()],
        vec![finding(
            Severity::Warning,
            left,
            right,
            "ranges \">=18.0.0 <20.0.0\" and \">=20.0.0 <22.0.0\" do not overlap",
            "VER001",
        )],
    );
    let formats = vec![vec![FileFormat::Json; 3]];
    let compatible = vec![vec![false, false, true]];
    let plan = plan_fixes(&result, &formats, &compatible);
    assert!(
        plan.proposals.is_empty(),
        "ambiguous top-authority ranges should not produce auto-fix proposals: {:?}",
        plan.proposals
    );
    assert_eq!(plan.unfixable.len(), 1);
    assert!(
        plan.unfixable[0].reason.contains("Multiple declared assertions disagree"),
        "expected explicit ambiguity warning, got {:?}",
        plan.unfixable
    );
}

#[test]
fn test_plan_fixes_refuses_overlapping_top_authority_ranges() {
    let left = assertion(
        "node-version-ci",
        ".github/workflows/ci-a.yml",
        ">=18 <20",
        SemanticType::Version(parse_version(">=18 <20")),
        Authority::Enforced,
    );
    let right = assertion(
        "node-version-ci",
        ".github/workflows/ci-b.yml",
        ">=19 <21",
        SemanticType::Version(parse_version(">=19 <21")),
        Authority::Enforced,
    );
    let target = assertion(
        "node-version-package-json",
        "package.json",
        "22",
        SemanticType::Version(parse_version("22")),
        Authority::Declared,
    );
    let result = one_concept(
        vec![left.clone(), right.clone(), target.clone()],
        vec![
            finding(
                Severity::Error,
                left.clone(),
                target.clone(),
                "\"22.0.0\" does not satisfy \">=18.0.0 <20.0.0\"",
                "VER001",
            ),
            finding(Severity::Error, right, target, "\"22.0.0\" does not satisfy \">=19.0.0 <21.0.0\"", "VER001"),
        ],
    );
    let formats = vec![vec![FileFormat::Yaml, FileFormat::Yaml, FileFormat::Json]];
    let compatible = vec![vec![true, true, false]];
    let plan = plan_fixes(&result, &formats, &compatible);
    assert!(
        plan.proposals.is_empty(),
        "overlapping top-authority ranges should not produce arbitrary auto-fix proposals: {:?}",
        plan.proposals
    );
    assert_eq!(plan.unfixable.len(), 1);
    assert!(
        plan.unfixable[0].reason.contains("Multiple enforced assertions disagree"),
        "expected overlapping winners to be treated as ambiguous, got {:?}",
        plan.unfixable
    );
}

#[test]
fn lower_authority_value_gets_a_proposal_from_the_winner() {
    let winner = assertion(
        "node-version-dockerfile",
        "Dockerfile",
        "20.11.0",
        SemanticType::Version(parse_version("20.11.0")),
        Authority::Enforced,
    );
    let target = assertion(
        "node-version-nvmrc",
        ".nvmrc",
        "18",
        SemanticType::Version(parse_version("18")),
        Authority::Advisory,
    );
    let result = one_concept(
        vec![target.clone(), winner.clone()],
        vec![finding(Severity::Error, winner, target, "contradiction", "VER001")],
    );
    let formats = vec![vec![FileFormat::PlainText, FileFormat::Dockerfile]];
    let compatible = vec![vec![false, true]];
    let plan = plan_fixes(&result, &formats, &compatible);
    assert!(plan.unfixable.is_empty());
    assert_eq!(plan.proposals.len(), 1);
    let p = &plan.proposals[0];
    assert_eq!(p.file, ".nvmrc");
    assert_eq!(p.current_raw, "18");
    assert_eq!(p.proposed_raw, "20.11.0");
    assert_eq!(p.authority_winner, "enforced (Dockerfile)");
    assert_eq!(p.winner_file, "Dockerfile");
    assert_eq!(p.line, 1);
    assert_eq!(p.format, FileFormat::PlainText);
    assert!(matches!(p.operation, FixOperation::ReplaceWholeFileValue { ref value } if value == "20.11.0"));
}

#[test]
fn compatible_values_and_concepts_without_findings_get_nothing() {
    let winner = assertion(
        "node-version-dockerfile",
        "Dockerfile",
        "20.11.0",
        SemanticType::Version(parse_version("20.11.0")),
        Authority::Enforced,
    );
    let target = assertion(
        "node-version-nvmrc",
        ".nvmrc",
        "20",
        SemanticType::Version(parse_version("20")),
        Authority::Advisory,
    );
    let with_finding = one_concept(
        vec![winner.clone(), target.clone()],
        vec![finding(Severity::Info, winner.clone(), target.clone(), "note", "VER002")],
    );
    let plan = plan_fixes(&with_finding, &[vec![FileFormat::Dockerfile, FileFormat::PlainText]], &[vec![true, true]]);
    assert!(plan.proposals.is_empty() && plan.unfixable.is_empty());

    let without_findings = one_concept(vec![winner, target], vec![]);
    let plan =
        plan_fixes(&without_findings, &[vec![FileFormat::Dockerfile, FileFormat::PlainText]], &[vec![false, false]]);
    assert!(plan.proposals.is_empty() && plan.unfixable.is_empty());
}

#[test]
fn unsupported_target_reason_names_file_line_and_extractor() {
    let winner = assertion(
        "node-version-dockerfile",
        "Dockerfile",
        "20",
        SemanticType::Version(parse_version("20")),
        Authority::Enforced,
    );
    let mut target = assertion(
        "node-version-ci",
        ".github/workflows/ci.yml",
        "18",
        SemanticType::Version(parse_version("18")),
        Authority::Declared,
    );
    target.source.line = 7;
    target.source.key_path = "jobs.build".into();
    let result = one_concept(
        vec![winner.clone(), target.clone()],
        vec![finding(Severity::Error, winner, target, "contradiction", "VER001")],
    );
    let plan = plan_fixes(&result, &[vec![FileFormat::Dockerfile, FileFormat::Yaml]], &[vec![true, false]]);
    assert!(plan.proposals.is_empty());
    assert_eq!(plan.unfixable.len(), 1);
    assert_eq!(
        plan.unfixable[0].reason,
        ".github/workflows/ci.yml [7:node-version-ci]: auto-fix is not supported for YAML jobs.build targets"
    );
}

#[test]
fn multi_port_expose_line_is_reported_once() {
    let port = |raw: &str, authority: Authority, extractor: &str, file: &str| {
        let mut a = assertion(extractor, file, raw, SemanticType::Port(parse_port(raw).unwrap()), authority);
        a.source.line = 3;
        a
    };
    let winner = port("8080", Authority::Enforced, "port-env", ".env");
    let first = port("3000", Authority::Declared, "port-dockerfile", "Dockerfile");
    let second = port("3001", Authority::Declared, "port-dockerfile", "Dockerfile");
    let result = one_concept(
        vec![winner.clone(), first.clone(), second],
        vec![finding(Severity::Error, winner, first, "contradiction", "PORT001")],
    );
    let formats = vec![vec![FileFormat::Env, FileFormat::Dockerfile, FileFormat::Dockerfile]];
    let plan = plan_fixes(&result, &formats, &[vec![true, false, false]]);
    assert!(plan.proposals.is_empty());
    assert_eq!(plan.unfixable.len(), 1);
    assert_eq!(
        plan.unfixable[0].reason,
        "Dockerfile:3 [port-dockerfile]: Dockerfile EXPOSE line contains multiple port tokens; manual update required"
    );
}

#[test]
fn winner_is_the_last_of_the_highest_authority_outside_a_matrix() {
    let v = |file: &str, authority: Authority, matrix: bool| {
        let mut a = assertion("x", file, "20", SemanticType::Version(parse_version("20")), authority);
        a.is_matrix = matrix;
        a
    };
    let cr = ConceptResult {
        concept: concept(),
        assertions: vec![
            v("a", Authority::Enforced, false),
            v("b", Authority::Enforced, true),
            v("c", Authority::Enforced, false),
            v("d", Authority::Declared, false),
        ],
        findings: vec![],
    };
    assert_eq!(fix_winner(&cr), Some(2));
    let empty = ConceptResult { concept: concept(), assertions: vec![], findings: vec![] };
    assert_eq!(fix_winner(&empty), None);
}
