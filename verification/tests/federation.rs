use conflic::federation::{
    detect_cross_repo_drift, generate_federation_template, render_federation_report,
    resolve_repo_path, run_federation, summarize, FederationConfig, FederationReport,
    FederationSummary, GroupAssertion, RepoOutcome, RepoScanResult, RepositoryEntry, ScannedValue,
};
use conflic::model::Authority;
use std::path::PathBuf;

fn value(group: &str, concept: &str, repo: &str, authority: Authority, raw: &str, file: &str) -> GroupAssertion {
    GroupAssertion {
        group: group.to_string(),
        concept_id: concept.to_string(),
        repo: repo.to_string(),
        authority,
        raw_value: raw.to_string(),
        file: file.to_string(),
    }
}

#[test]
fn test_resolve_repo_path_relative() {
    let resolved = resolve_repo_path("/home/user/workspace", "../api");
    assert_eq!(PathBuf::from(resolved), PathBuf::from("/home/user/workspace/../api"));
}

#[test]
fn test_resolve_repo_path_absolute() {
    let resolved = resolve_repo_path("/home/user/workspace", "/opt/repos/api");
    assert_eq!(PathBuf::from(resolved), PathBuf::from("/opt/repos/api"));
}

#[test]
fn resolve_repo_path_from_an_empty_or_slashed_directory() {
    assert_eq!(resolve_repo_path("", "../api"), "../api");
    assert_eq!(resolve_repo_path("/srv/", "api"), "/srv/api");
}

#[test]
fn test_generate_federation_template() {
    let template = generate_federation_template();
    assert!(template.contains("[[repository]]"));
    assert!(template.contains("name ="));
    assert!(template.contains("path ="));
    assert!(template.contains("group ="));
}

#[test]
fn test_detect_cross_repo_drift() {
    let values = vec![
        value("backend", "node-version", "api", Authority::Advisory, "18", ".nvmrc"),
        value("backend", "node-version", "web", Authority::Advisory, "20", ".nvmrc"),
    ];
    let drifts = detect_cross_repo_drift(&values);
    assert_eq!(drifts.len(), 1);
    assert_eq!(drifts[0].concept_id, "node-version");
    assert_eq!(drifts[0].group, "backend");
    assert_eq!(drifts[0].entries.len(), 2);
}

#[test]
fn test_no_drift_when_same_values() {
    let values = vec![
        value("backend", "node-version", "api", Authority::Advisory, "20", ".nvmrc"),
        value("backend", "node-version", "web", Authority::Advisory, "20", ".nvmrc"),
    ];
    let drifts = detect_cross_repo_drift(&values);
    assert!(drifts.is_empty());
}

#[test]
fn drift_compares_each_repository_at_its_highest_authority() {
    // In "api", the enforced Dockerfile wins over the advisory .nvmrc, so
    // both repositories agree on 20 and there is no drift.
    let values = vec![
        value("backend", "node-version", "api", Authority::Advisory, "18", ".nvmrc"),
        value("backend", "node-version", "api", Authority::Enforced, "20", "Dockerfile"),
        value("backend", "node-version", "web", Authority::Declared, "20", "package.json"),
    ];
    assert!(detect_cross_repo_drift(&values).is_empty());
}

#[test]
fn drift_takes_the_later_value_among_equal_authorities() {
    let values = vec![
        value("g", "c", "a", Authority::Declared, "1", "x"),
        value("g", "c", "a", Authority::Declared, "2", "y"),
        value("g", "c", "b", Authority::Declared, "1", "z"),
    ];
    let drifts = detect_cross_repo_drift(&values);
    assert_eq!(drifts.len(), 1);
    assert_eq!(drifts[0].entries[0].repo, "a");
    assert_eq!(drifts[0].entries[0].value, "2");
    assert_eq!(drifts[0].entries[0].file, "y");
    assert_eq!(drifts[0].entries[1].repo, "b");
}

#[test]
fn drifts_are_ordered_by_group_then_concept() {
    let values = vec![
        value("zeta", "a", "r1", Authority::Advisory, "1", "f"),
        value("zeta", "a", "r2", Authority::Advisory, "2", "f"),
        value("alpha", "b", "r1", Authority::Advisory, "1", "f"),
        value("alpha", "b", "r2", Authority::Advisory, "2", "f"),
        value("alpha", "a", "r1", Authority::Advisory, "1", "f"),
        value("alpha", "a", "r2", Authority::Advisory, "3", "f"),
        value("beta", "a", "r1", Authority::Advisory, "1", "f"),
    ];
    let drifts = detect_cross_repo_drift(&values);
    let keys: Vec<(String, String)> =
        drifts.iter().map(|d| (d.group.clone(), d.concept_id.clone())).collect();
    assert_eq!(
        keys,
        vec![
            ("alpha".to_string(), "a".to_string()),
            ("alpha".to_string(), "b".to_string()),
            ("zeta".to_string(), "a".to_string()),
        ]
    );
}

fn empty_report() -> FederationReport {
    FederationReport {
        repo_results: vec![],
        cross_repo_drift: vec![],
        summary: FederationSummary {
            repos_scanned: 0,
            repos_with_errors: 0,
            total_errors: 0,
            total_warnings: 0,
            cross_repo_drifts: 0,
        },
    }
}

#[test]
fn test_render_federation_report_empty() {
    let output = render_federation_report(&empty_report(), true);
    assert!(output.contains("federation report"));
    assert!(output.contains("0 repo(s) scanned"));
}

#[test]
fn federation_report_pads_its_table_columns() {
    let mut report = empty_report();
    report.repo_results.push(RepoScanResult {
        name: "api".into(),
        group: None,
        path: "../api".into(),
        errors: 1,
        warnings: 0,
        info: 12,
        scan_error: None,
    });
    let output = render_federation_report(&report, true);
    let expected_header = format!(
        "  {:<25} {:<15} {:>6} {:>6} {:>6}  {}\n",
        "Repository", "Group", "Errors", "Warns", "Info", "Status"
    );
    let expected_row = format!(
        "  {:<25} {:<15} {:>6} {:>6} {:>6}  {}\n",
        "api", "-", 1, 0, 12, "HAS ERRORS"
    );
    assert!(output.contains(&expected_header));
    assert!(output.contains(&expected_row));
    assert!(output.contains(&"-".repeat(85)));
}

#[test]
fn federation_report_colors_the_status() {
    let mut report = empty_report();
    report.repo_results.push(RepoScanResult {
        name: "web".into(),
        group: Some("frontend".into()),
        path: "../web".into(),
        errors: 0,
        warnings: 0,
        info: 0,
        scan_error: None,
    });
    let output = render_federation_report(&report, false);
    assert!(output.contains("\x1b[32mOK\x1b[39m"));
    assert!(output.contains("\x1b[1mSummary\x1b[0m: "));
}

fn entry(name: &str, path: &str, group: Option<&str>) -> RepositoryEntry {
    RepositoryEntry { name: name.into(), path: path.into(), group: group.map(|g| g.to_string()) }
}

#[test]
fn run_federation_reports_each_repository_and_the_drift() {
    let config = FederationConfig {
        repository: vec![
            entry("a", "repo-a", Some("services")),
            entry("b", "/abs/repo-b", Some("services")),
            entry("c", "missing", None),
            entry("d", "broken", None),
        ],
    };
    let outcomes = vec![
        RepoOutcome::Scanned {
            errors: 0,
            warnings: 2,
            info: 1,
            values: vec![ScannedValue {
                concept_id: "node-version".into(),
                authority: Authority::Advisory,
                raw_value: "18".into(),
                file: "repo-a/.nvmrc".into(),
            }],
        },
        RepoOutcome::Scanned {
            errors: 3,
            warnings: 0,
            info: 0,
            values: vec![ScannedValue {
                concept_id: "node-version".into(),
                authority: Authority::Advisory,
                raw_value: "20".into(),
                file: "repo-b/.nvmrc".into(),
            }],
        },
        RepoOutcome::NotFound,
        RepoOutcome::Failed { message: "scan failed".into() },
    ];
    let report = run_federation("/work", &config, &outcomes);
    assert_eq!(report.repo_results.len(), 4);
    assert_eq!(report.repo_results[0].warnings, 2);
    assert_eq!(report.repo_results[1].errors, 3);
    assert_eq!(
        report.repo_results[2].scan_error.as_deref(),
        Some("Repository path not found: /work/missing")
    );
    assert_eq!(report.repo_results[3].scan_error.as_deref(), Some("scan failed"));
    assert_eq!(report.cross_repo_drift.len(), 1);
    assert_eq!(report.cross_repo_drift[0].group, "services");
    assert_eq!(report.summary.repos_scanned, 4);
    assert_eq!(report.summary.repos_with_errors, 3);
    assert_eq!(report.summary.total_errors, 3);
    assert_eq!(report.summary.total_warnings, 2);
    assert_eq!(report.summary.cross_repo_drifts, 1);
}

#[test]
fn summary_counts_failed_repositories_once() {
    let results = vec![RepoScanResult {
        name: "x".into(),
        group: None,
        path: "x".into(),
        errors: 2,
        warnings: 1,
        info: 0,
        scan_error: Some("boom".into()),
    }];
    let s = summarize(&results, 0);
    assert_eq!(s.repos_with_errors, 1);
    assert_eq!(s.total_errors, 2);
    assert_eq!(s.total_warnings, 1);
}
