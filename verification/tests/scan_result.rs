use conflic::baseline::{filter_baselined, generate_baseline, Baseline, FindingFingerprint};
use conflic::drift::capture_baseline;
use conflic::git::GitError;
use conflic::history::{
    annotate_findings, commit_timestamp_from_output, filter_since, head_info_from_output, BlameInfo, FindingKey, GitHeadInfo, ScanHistory,
};
use conflic::text::parse_i64;
use conflic::lsp::navigation::{find_assertion_at_position, find_concept_at_position};
use conflic::lsp::text_document::Position;
use conflic::model::{
    parse_version, Authority, ConceptResult, ConfigAssertion, Finding, ParseDiagnostic, ScanResult, SemanticType, SemanticConcept, Severity, SourceLocation,
    SourceSpan,
};

fn location(file: &str, line: usize, key_path: &str) -> SourceLocation {
    SourceLocation { file: file.to_string(), line, column: 0, key_path: key_path.to_string() }
}

fn assertion(concept: SemanticConcept, file: &str, raw: &str, authority: Authority) -> ConfigAssertion {
    ConfigAssertion::new(
        concept,
        SemanticType::Version(parse_version(raw)),
        raw.to_string(),
        location(file, 1, ""),
        authority,
        "test-extractor",
    )
}

fn finding(severity: Severity, rule: &str, left: ConfigAssertion, right: ConfigAssertion) -> Finding {
    Finding { severity, left, right, explanation: "values differ".to_string(), rule_id: rule.to_string() }
}

fn sample_result() -> ScanResult {
    let nvmrc = assertion(SemanticConcept::node_version(), "app/.nvmrc", "18", Authority::Advisory);
    let docker = assertion(SemanticConcept::node_version(), "app/Dockerfile", "20", Authority::Enforced);
    let ci = assertion(SemanticConcept::node_version(), "ci.yml", "22", Authority::Enforced);
    let py = assertion(SemanticConcept::python_version(), ".python-version", "3.12", Authority::Advisory);
    let node = ConceptResult {
        concept: SemanticConcept::node_version(),
        assertions: vec![nvmrc.clone(), docker.clone(), ci.clone()],
        findings: vec![
            finding(Severity::Error, "VER001", nvmrc.clone(), docker.clone()),
            finding(Severity::Warning, "VER002", nvmrc.clone(), ci.clone()),
        ],
    };
    let python = ConceptResult { concept: SemanticConcept::python_version(), assertions: vec![py], findings: vec![] };
    let go = ConceptResult { concept: SemanticConcept::go_version(), assertions: vec![], findings: vec![] };
    let diagnostic = ParseDiagnostic {
        severity: Severity::Warning,
        file: "bad.json".to_string(),
        message: "expected value".to_string(),
        rule_id: "PARSE001".to_string(),
    };
    ScanResult { concept_results: vec![node, python, go], parse_diagnostics: vec![diagnostic] }
}

#[test]
fn config_assertion_spans_move_the_source_position() {
    let a = assertion(SemanticConcept::node_version(), ".nvmrc", "20", Authority::Advisory);
    assert!(a.span.is_none());
    assert!(!a.is_matrix);
    assert_eq!(a.extractor_id, "test-extractor");
    let span = SourceSpan { start: 3, end: 5, line: 4, column: 7, end_line: 4, end_column: 9 };
    let b = a.clone().with_span(span);
    assert_eq!(b.source.line, 4);
    assert_eq!(b.source.column, 7);
    assert_eq!(b.span, Some(span));
    let c = a.clone().with_optional_span(None);
    assert_eq!(c.source.line, 1);
    assert!(c.span.is_none());
    assert!(a.with_matrix(true).is_matrix);
}

#[test]
fn scan_result_counts_findings_by_severity() {
    let result = sample_result();
    assert_eq!(result.error_count(), 1);
    assert_eq!(result.warning_count(), 1);
    assert_eq!(result.info_count(), 0);
    assert!(result.has_findings_at_or_above(Severity::Warning));
    assert!(result.has_findings_at_or_above(Severity::Error));
    let empty = ScanResult { concept_results: vec![], parse_diagnostics: vec![] };
    assert!(!empty.has_findings_at_or_above(Severity::Info));
}

#[test]
fn fingerprints_use_file_names_and_key_paths() {
    let result = sample_result();
    let fp = FindingFingerprint::from_finding(&result.concept_results[0].findings[0]);
    assert_eq!(fp.rule_id, "VER001");
    assert_eq!(fp.concept, "node-version");
    assert_eq!(fp.left_file, ".nvmrc");
    assert_eq!(fp.right_file, "Dockerfile");
    assert_eq!(fp.left_key_path, "");
    assert_eq!(fp.severity, "error");
    assert_eq!(fp.left_value, "18");
    assert_eq!(fp.right_value, "20");
}

#[test]
fn baseline_catches_changed_values_and_severities() {
    let baseline = generate_baseline(&sample_result());
    let mut changed = sample_result();
    changed.concept_results[0].findings[0].left.raw_value = "16".to_string();
    changed.concept_results[0].findings[1].severity = Severity::Error;
    filter_baselined(&mut changed, &baseline);
    assert_eq!(changed.concept_results[0].findings.len(), 2);
}

#[test]
fn baseline_of_a_scan_suppresses_all_of_its_findings() {
    let result = sample_result();
    let baseline = generate_baseline(&result);
    assert_eq!(baseline.version, "0.1.0");
    assert_eq!(baseline.fingerprints.len(), 2);
    let mut again = sample_result();
    filter_baselined(&mut again, &baseline);
    assert_eq!(again.concept_results.len(), 3);
    assert!(again.concept_results.iter().all(|cr| cr.findings.is_empty()));
    assert_eq!(again.concept_results[0].assertions.len(), 3);
    assert_eq!(again.parse_diagnostics.len(), 1);
    assert_eq!(again.parse_diagnostics[0].file, "bad.json");
}

#[test]
fn baseline_keeps_new_findings() {
    let result = sample_result();
    let mut baseline = generate_baseline(&result);
    baseline.fingerprints.remove(1);
    let mut again = sample_result();
    filter_baselined(&mut again, &baseline);
    assert_eq!(again.concept_results[0].findings.len(), 1);
    assert_eq!(again.concept_results[0].findings[0].rule_id, "VER002");
    let empty = Baseline { version: "0.1.0".to_string(), fingerprints: vec![] };
    let mut untouched = sample_result();
    filter_baselined(&mut untouched, &empty);
    assert_eq!(untouched.concept_results[0].findings.len(), 2);
}

#[test]
fn capture_baseline_takes_highest_authority_last_of_equals() {
    let result = sample_result();
    let baseline = capture_baseline(&result);
    assert_eq!(baseline.version.as_deref(), Some("0.1.0"));
    assert!(baseline.created_at.is_none());
    assert_eq!(baseline.expectation.len(), 2);
    assert_eq!(baseline.expectation[0].concept, "node-version");
    // Two enforced assertions: the last one wins, as with `max_by_key`.
    assert_eq!(baseline.expectation[0].expected, "22");
    assert!(baseline.expectation[0].tolerance.is_none());
    assert_eq!(baseline.expectation[1].concept, "python-version");
    assert_eq!(baseline.expectation[1].expected, "3.12");
}

#[test]
fn record_scan_appends_a_snapshot_of_the_findings() {
    let result = sample_result();
    let mut history = ScanHistory::default();
    let head = GitHeadInfo { sha: "abc123".to_string(), author: "Dev".to_string(), timestamp: "1700000000".to_string() };
    history.record_scan(&result, head);
    assert_eq!(history.snapshots.len(), 1);
    let s = &history.snapshots[0];
    assert_eq!(s.commit_sha, "abc123");
    assert_eq!(s.author, "Dev");
    assert_eq!(s.timestamp, "1700000000");
    assert_eq!((s.errors, s.warnings, s.info), (1, 1, 0));
    assert_eq!(s.findings.len(), 2);
    assert_eq!(s.findings[0].severity, "error");
    assert_eq!(s.findings[0].concept_id, "node-version");
    assert_eq!(s.findings[0].left_file, "app/.nvmrc");
    assert_eq!(s.findings[0].right_value, "20");
    assert_eq!(s.findings[1].severity, "warning");
}

#[test]
fn head_info_reads_three_lines_or_falls_back() {
    let h = head_info_from_output(true, b"  deadbeef\nJane Doe\n1700000000\n");
    assert_eq!((h.sha.as_str(), h.author.as_str(), h.timestamp.as_str()), ("deadbeef", "Jane Doe", "1700000000"));
    let short = head_info_from_output(true, b"deadbeef\nJane\n");
    assert_eq!((short.sha.as_str(), short.author.as_str(), short.timestamp.as_str()), ("unknown", "unknown", "0"));
    let failed = head_info_from_output(false, b"a\nb\nc\n");
    assert_eq!(failed.sha, "unknown");
}

#[test]
fn finding_key_uses_files_and_raw_values() {
    let result = sample_result();
    let k = FindingKey::from_finding(&result.concept_results[0].findings[1]);
    assert_eq!(k.rule_id, "VER002");
    assert_eq!(k.left_file, "app/.nvmrc");
    assert_eq!(k.right_file, "ci.yml");
    assert_eq!(k.left_value, "18");
    assert_eq!(k.right_value, "22");
}

#[test]
fn navigation_finds_first_assertion_and_concept_under_cursor() {
    let result = sample_result();
    // Assertions without span cover their whole (one-based) line 1.
    let p = Position { line: 0, character: 3 };
    let a = find_assertion_at_position(&result, "app/./Dockerfile", &p).expect("an assertion");
    assert_eq!(a.raw_value, "20");
    let cr = find_concept_at_position(&result, ".python-version", &p).expect("a concept");
    assert_eq!(cr.concept.id, "python-version");
    assert!(find_assertion_at_position(&result, "app/Dockerfile", &Position { line: 1, character: 0 }).is_none());
    assert!(find_concept_at_position(&result, "other.txt", &p).is_none());
}

fn blame(ts: &str) -> Option<BlameInfo> {
    Some(BlameInfo { commit_sha: "abc".to_string(), author: "Dev".to_string(), timestamp: ts.to_string() })
}

#[test]
fn filter_since_drops_findings_blamed_before_the_commit() {
    let mut result = sample_result();
    let report = filter_since(&mut result, "1700000000", &[blame("1600000000"), blame("1800000000")]);
    assert_eq!((report.kept, report.filtered), (1, 1));
    assert_eq!(result.concept_results[0].findings.len(), 1);
    assert_eq!(result.concept_results[0].findings[0].rule_id, "VER002");
    assert_eq!(result.concept_results[0].assertions.len(), 3);
}

#[test]
fn filter_since_keeps_findings_without_usable_times() {
    let mut result = sample_result();
    let report = filter_since(&mut result, "1700000000", &[None, blame("not-a-time")]);
    assert_eq!((report.kept, report.filtered), (2, 0));
    let mut result = sample_result();
    let report = filter_since(&mut result, "HEAD~1", &[blame("1"), blame("2")]);
    assert_eq!((report.kept, report.filtered), (2, 0));
    // Findings past the end of the blames keep too.
    let mut result = sample_result();
    let report = filter_since(&mut result, "1700000000", &[blame("1700000000")]);
    assert_eq!((report.kept, report.filtered), (2, 0));
}

#[test]
fn commit_timestamp_output_is_trimmed_or_an_error() {
    match commit_timestamp_from_output("main", true, b" 1700000000\n", b"") {
        Ok(t) => assert_eq!(t, "1700000000"),
        Err(_) => panic!("expected a time"),
    }
    match commit_timestamp_from_output("nope", false, b"", b"fatal: bad revision\n") {
        Err(GitError::CommandFailed { command, stderr }) => {
            assert_eq!(command, "git log -1 --format=%ct nope");
            assert_eq!(stderr, "fatal: bad revision");
        },
        _ => panic!("expected a failure"),
    }
}

#[test]
fn parse_i64_follows_std() {
    let chars = |s: &str| s.chars().collect::<Vec<char>>();
    for s in ["0", "+17", "-17", "9223372036854775807", "-9223372036854775808", "", "-", "+", "1a", "-+1", "9223372036854775808", " 1"] {
        assert_eq!(parse_i64(&chars(s)), s.parse::<i64>().ok(), "input {:?}", s);
    }
}

#[test]
fn annotate_findings_maps_keys_to_blames_last_wins() {
    let mut result = sample_result();
    // A third finding with the same key as the first.
    let dup = result.concept_results[0].findings[0].clone();
    result.concept_results[1].findings.push(dup);
    let ann = annotate_findings(&result, &[blame("1"), None, blame("3")]);
    assert_eq!(ann.len(), 1);
    assert_eq!(ann[0].0.rule_id, "VER001");
    assert_eq!(ann[0].1.timestamp, "3");
    let none = annotate_findings(&result, &[]);
    assert!(none.is_empty());
    let both = annotate_findings(&result, &[blame("1"), blame("2")]);
    assert_eq!(both.len(), 2);
}
