use conflic::lsp::diagnostics::{add_finding_diagnostics, make_range, scan_result_to_diagnostics};
use conflic::model::{
    parse_version, Authority, ConceptResult, ConfigAssertion, Finding, ScanResult, SemanticConcept, SemanticType,
    Severity, SourceLocation,
};

fn assertion(file: &str, line: usize, raw: &str, authority: Authority) -> ConfigAssertion {
    ConfigAssertion::new(
        SemanticConcept::node_version(),
        SemanticType::Version(parse_version(raw)),
        raw.to_string(),
        SourceLocation { file: file.to_string(), line, column: 0, key_path: String::new() },
        authority,
        "x",
    )
}

fn finding(left: ConfigAssertion, right: ConfigAssertion) -> Finding {
    Finding { severity: Severity::Error, left, right, explanation: "differ".into(), rule_id: "VER001".into() }
}

#[test]
fn each_side_gets_a_diagnostic_pointing_at_the_other() {
    let f = finding(
        assertion("/repo/.nvmrc", 1, "18", Authority::Advisory),
        assertion("/repo/Dockerfile", 3, "20", Authority::Enforced),
    );
    let mut map = Vec::new();
    add_finding_diagnostics(&f, &mut map);
    assert_eq!(map.len(), 2);
    assert_eq!(map[0].0, "/repo/.nvmrc");
    let left = &map[0].1[0];
    assert_eq!(left.message, "Node.js Version: 18 conflicts with 20 in Dockerfile");
    assert_eq!(left.code, "VER001");
    assert_eq!(left.source, "conflic");
    assert_eq!(left.severity, Severity::Error);
    assert_eq!(left.range, make_range(1));
    let related = left.related_information.as_ref().unwrap();
    assert_eq!(related.len(), 1);
    assert_eq!(related[0].file, "/repo/Dockerfile");
    assert_eq!(related[0].range.start.line, 2);
    assert_eq!(related[0].message, "Node.js Version = 20 (enforced)");
    assert_eq!(map[1].0, "/repo/Dockerfile");
    assert_eq!(map[1].1[0].message, "Node.js Version: 20 conflicts with 18 in .nvmrc");
    assert_eq!(map[1].1[0].related_information.as_ref().unwrap()[0].message, "Node.js Version = 18 (advisory)");
}

#[test]
fn relative_paths_get_no_diagnostic_and_no_related_place() {
    let f = finding(
        assertion("/repo/.nvmrc", 1, "18", Authority::Advisory),
        assertion("Dockerfile", 3, "20", Authority::Enforced),
    );
    let mut map = Vec::new();
    add_finding_diagnostics(&f, &mut map);
    assert_eq!(map.len(), 1);
    assert!(map[0].1[0].related_information.is_none());
}

#[test]
fn diagnostics_of_one_file_share_its_entry() {
    let a = assertion("/repo/.nvmrc", 1, "18", Authority::Advisory);
    let result = ScanResult {
        concept_results: vec![ConceptResult {
            concept: SemanticConcept::node_version(),
            assertions: vec![],
            findings: vec![
                finding(a.clone(), assertion("/repo/Dockerfile", 3, "20", Authority::Enforced)),
                finding(a, assertion("/repo//package.json", 5, "22", Authority::Declared)),
            ],
        }],
        parse_diagnostics: vec![],
    };
    let map = scan_result_to_diagnostics(&result);
    assert_eq!(map.len(), 3);
    assert_eq!(map[0].0, "/repo/.nvmrc");
    assert_eq!(map[0].1.len(), 2);
    assert_eq!(map[0].1[1].message, "Node.js Version: 18 conflicts with 22 in package.json");
    assert_eq!(map[2].0, "/repo//package.json");
}
