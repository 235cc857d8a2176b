use conflic::config::{ConceptRuleConfig, ConceptRuleThen, ConceptRuleWhen, ConflicConfig};
use conflic::graph::evaluate_concept_rules;
use conflic::model::{
    parse_version, Authority, ConceptCategory, ConceptResult, ConfigAssertion, SemanticConcept, SemanticType,
    Severity, SourceLocation,
};

fn make_assertion(concept_id: &str, display_name: &str, file: &str, raw: &str) -> ConfigAssertion {
    ConfigAssertion {
        concept: SemanticConcept {
            id: concept_id.into(),
            display_name: display_name.into(),
            category: ConceptCategory::RuntimeVersion,
        },
        value: SemanticType::Version(parse_version(raw)),
        raw_value: raw.into(),
        source: SourceLocation { file: file.into(), line: 1, column: 0, key_path: "".into() },
        span: None,
        authority: Authority::Declared,
        extractor_id: "test".into(),
        is_matrix: false,
    }
}

fn make_rule(
    id: &str,
    when_concept: &str,
    when_matches: &str,
    then_concept: &str,
    then_requires: &str,
    severity: &str,
    message: Option<&str>,
) -> ConceptRuleConfig {
    ConceptRuleConfig {
        id: id.into(),
        when: ConceptRuleWhen { concept: when_concept.into(), matches: when_matches.into() },
        requirement: ConceptRuleThen { concept: then_concept.into(), requires: then_requires.into() },
        severity: severity.into(),
        message: message.map(String::from),
    }
}

fn result_of(a: ConfigAssertion) -> ConceptResult {
    ConceptResult { concept: a.concept.clone(), assertions: vec![a], findings: vec![] }
}

fn evaluate(results: &mut Vec<ConceptResult>, config: &ConflicConfig) {
    evaluate_concept_rules(results, &config.concept_rule, ".conflic.toml");
}

#[test]
fn test_cross_concept_rule_triggers_violation() {
    let python = make_assertion("python-version", "Python Version", ".python-version", "3.12");
    let pip = make_assertion("pip-version", "pip Version", "requirements.txt", "21.0.0");
    let mut results = vec![result_of(python), result_of(pip)];
    let mut config = ConflicConfig::default();
    config.concept_rule.push(make_rule(
        "XCON001",
        "python-version",
        ">=3.12",
        "pip-version",
        ">=22.3",
        "warning",
        Some("Python 3.12 requires pip 22.3+"),
    ));
    evaluate(&mut results, &config);
    let pip_result = results.iter().find(|cr| cr.concept.id == "pip-version").unwrap();
    assert_eq!(pip_result.findings.len(), 1);
    assert_eq!(pip_result.findings[0].rule_id, "XCON001");
    assert_eq!(pip_result.findings[0].severity, Severity::Warning);
    assert!(pip_result.findings[0].explanation.contains("Python 3.12 requires pip 22.3+"));
}

#[test]
fn test_cross_concept_rule_no_violation_when_satisfied() {
    let python = make_assertion("python-version", "Python Version", ".python-version", "3.12");
    let pip = make_assertion("pip-version", "pip Version", "requirements.txt", "23.0.0");
    let mut results = vec![result_of(python), result_of(pip)];
    let mut config = ConflicConfig::default();
    config.concept_rule.push(make_rule("XCON001", "python-version", ">=3.12", "pip-version", ">=22.3", "warning", None));
    evaluate(&mut results, &config);
    let pip_result = results.iter().find(|cr| cr.concept.id == "pip-version").unwrap();
    assert!(pip_result.findings.is_empty());
}

#[test]
fn test_cross_concept_rule_not_triggered_when_condition_not_met() {
    let python = make_assertion("python-version", "Python Version", ".python-version", "3.10");
    let pip = make_assertion("pip-version", "pip Version", "requirements.txt", "21.0.0");
    let mut results = vec![result_of(python), result_of(pip)];
    let mut config = ConflicConfig::default();
    config.concept_rule.push(make_rule("XCON001", "python-version", ">=3.12", "pip-version", ">=22.3", "warning", None));
    evaluate(&mut results, &config);
    let pip_result = results.iter().find(|cr| cr.concept.id == "pip-version").unwrap();
    assert!(pip_result.findings.is_empty(), "Rule should not trigger for Python 3.10");
}

#[test]
fn test_cross_concept_rule_with_alias() {
    let python = make_assertion("python-version", "Python Version", ".python-version", "3.12");
    let pip = make_assertion("pip-version", "pip Version", "requirements.txt", "21.0.0");
    let mut results = vec![result_of(python), result_of(pip)];
    let mut config = ConflicConfig::default();
    config.concept_rule.push(make_rule("XCON001", "python", ">=3.12", "pip-version", ">=22.3", "error", None));
    evaluate(&mut results, &config);
    let pip_result = results.iter().find(|cr| cr.concept.id == "pip-version").unwrap();
    assert_eq!(pip_result.findings.len(), 1, "Should trigger via alias");
}

#[test]
fn test_cross_concept_rule_deduplicates_same_file_value() {
    let python = make_assertion("python-version", "Python Version", ".python-version", "3.12");
    let mut pip1 = make_assertion("pip-version", "pip Version", "req.txt", "21.0.0");
    let mut pip2 = make_assertion("pip-version", "pip Version", "req.txt", "21.0.0");
    pip2.source.line = 5;
    pip1.source.file = "req.txt".into();
    pip2.source.file = "req.txt".into();
    let mut results = vec![
        result_of(python),
        ConceptResult { concept: pip1.concept.clone(), assertions: vec![pip1, pip2], findings: vec![] },
    ];
    let mut config = ConflicConfig::default();
    config.concept_rule.push(make_rule("XCON001", "python-version", ">=3.12", "pip-version", ">=22.3", "warning", None));
    evaluate(&mut results, &config);
    let pip_result = results.iter().find(|cr| cr.concept.id == "pip-version").unwrap();
    assert_eq!(pip_result.findings.len(), 1, "Should deduplicate same file+value");
}

#[test]
fn test_cross_concept_rule_missing_then_concept_no_panic() {
    let python = make_assertion("python-version", "Python Version", ".python-version", "3.12");
    let mut results = vec![result_of(python)];
    let mut config = ConflicConfig::default();
    config.concept_rule.push(make_rule(
        "XCON001",
        "python-version",
        ">=3.12",
        "nonexistent-concept",
        ">=1.0",
        "warning",
        None,
    ));
    evaluate(&mut results, &config);
}

#[test]
fn test_cross_concept_exact_match_trigger() {
    let node = make_assertion("node-version", "Node.js Version", ".nvmrc", "20");
    let npm = make_assertion("npm-version", "npm Version", "package.json", "6.0.0");
    let mut results = vec![result_of(node), result_of(npm)];
    let mut config = ConflicConfig::default();
    config.concept_rule.push(make_rule(
        "XCON002",
        "node-version",
        ">=20",
        "npm-version",
        ">=8",
        "error",
        Some("Node 20 requires npm 8+"),
    ));
    evaluate(&mut results, &config);
    let npm_result = results.iter().find(|cr| cr.concept.id == "npm-version").unwrap();
    assert_eq!(npm_result.findings.len(), 1);
    assert_eq!(npm_result.findings[0].severity, Severity::Error);
}

#[test]
fn rule_finding_holds_the_requirement_and_the_exact_text() {
    let node = make_assertion("node-version", "Node.js Version", ".nvmrc", "20");
    let mut npm = make_assertion("npm-version", "npm Version", "package.json", "6.0.0");
    npm.value = SemanticType::StringValue("6.0.0".into());
    let mut results = vec![result_of(node), result_of(npm)];
    let rules = vec![make_rule("XCON003", "node", "20", "npm", "7.0.0", "info", None)];
    evaluate_concept_rules(&mut results, &rules, "/repo/.conflic.toml");
    let f = &results[1].findings[0];
    assert_eq!(f.explanation, "\"6.0.0\" violates cross-concept constraint \"7.0.0\"");
    assert_eq!(f.severity, Severity::Info);
    assert_eq!(f.right.raw_value, "7.0.0");
    assert_eq!(f.right.source.file, "/repo/.conflic.toml");
    assert_eq!(f.right.source.key_path, "concept_rule.XCON003");
    assert_eq!(f.right.extractor_id, "concept-rule");
    assert_eq!(f.right.authority, Authority::Enforced);
    assert_eq!(f.left.raw_value, "6.0.0");
    // The condition "20" (every 20.x version) is not met by " 18 ".
    let node18 = make_assertion("node-version", "Node.js Version", ".nvmrc", " 18 ");
    let npm = make_assertion("npm-version", "npm Version", "package.json", "6.0.0");
    let mut results = vec![result_of(node18), result_of(npm)];
    evaluate_concept_rules(&mut results, &rules, "/repo/.conflic.toml");
    assert!(results[1].findings.is_empty());
}
