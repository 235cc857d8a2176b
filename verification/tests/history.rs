use conflic::history::{
    diff_findings, parse_blame_output, FindingKey, FindingRecord, ScanHistory, ScanSnapshot,
};

fn record(concept: &str, left: &str, lv: &str, right: &str, rv: &str) -> FindingRecord {
    FindingRecord {
        rule_id: "VER001".into(),
        concept_id: concept.into(),
        severity: "error".into(),
        left_file: left.into(),
        left_value: lv.into(),
        right_file: right.into(),
        right_value: rv.into(),
    }
}

#[test]
fn test_parse_blame_output() {
    let output = r#"abc1234567890def1234567890abc1234567890de 1 1 1
author John Doe
author-mail <john@example.com>
author-time 1700000000
author-tz +0000
committer John Doe
committer-mail <john@example.com>
committer-time 1700000000
committer-tz +0000
summary Initial commit
filename .nvmrc
	20
"#;
    let blame = parse_blame_output(output).unwrap();
    assert_eq!(
        blame.commit_sha,
        "abc1234567890def1234567890abc1234567890de"
    );
    assert_eq!(blame.author, "John Doe");
    assert_eq!(blame.timestamp, "1700000000");
}

#[test]
fn test_diff_findings_detects_new_and_resolved() {
    let prev = vec![FindingRecord {
        rule_id: "VER001".into(),
        concept_id: "node-version".into(),
        severity: "error".into(),
        left_file: ".nvmrc".into(),
        left_value: "18".into(),
        right_file: "Dockerfile".into(),
        right_value: "20".into(),
    }];

    let current = vec![FindingRecord {
        rule_id: "VER001".into(),
        concept_id: "python-version".into(),
        severity: "warning".into(),
        left_file: ".python-version".into(),
        left_value: "3.10".into(),
        right_file: "pyproject.toml".into(),
        right_value: "3.12".into(),
    }];

    let (new, resolved) = diff_findings(&prev, &current);

    assert_eq!(new.len(), 1);
    assert_eq!(new[0].concept_id, "python-version");
    assert_eq!(resolved.len(), 1);
    assert_eq!(resolved[0].concept_id, "node-version");
}

#[test]
fn test_scan_history_default_is_empty() {
    let history = ScanHistory::default();
    assert!(history.snapshots.is_empty());
}

#[test]
fn test_trend_report_empty_history() {
    let history = ScanHistory::default();
    let trend = history.trend();
    assert!(trend.snapshots.is_empty());
    assert!(trend.new_findings.is_empty());
    assert!(trend.resolved_findings.is_empty());
}

#[test]
fn test_trend_report_with_snapshots() {
    let history = ScanHistory {
        snapshots: vec![
            ScanSnapshot {
                commit_sha: "abc123".into(),
                author: "test".into(),
                timestamp: "1700000000".into(),
                errors: 2,
                warnings: 1,
                info: 0,
                findings: vec![FindingRecord {
                    rule_id: "VER001".into(),
                    concept_id: "node-version".into(),
                    severity: "error".into(),
                    left_file: ".nvmrc".into(),
                    left_value: "18".into(),
                    right_file: "Dockerfile".into(),
                    right_value: "20".into(),
                }],
            },
            ScanSnapshot {
                commit_sha: "def456".into(),
                author: "test".into(),
                timestamp: "1700001000".into(),
                errors: 0,
                warnings: 0,
                info: 0,
                findings: vec![],
            },
        ],
    };

    let trend = history.trend();
    assert_eq!(trend.snapshots.len(), 2);
    assert_eq!(trend.resolved_findings.len(), 1);
    assert_eq!(trend.new_findings.len(), 0);
}

#[test]
fn test_finding_key_dedup() {
    let f1 = FindingRecord {
        rule_id: "VER001".into(),
        concept_id: "node-version".into(),
        severity: "error".into(),
        left_file: "a".into(),
        left_value: "18".into(),
        right_file: "b".into(),
        right_value: "20".into(),
    };
    let f2 = f1.clone();
    assert_eq!(FindingKey::from_record(&f1), FindingKey::from_record(&f2));
}

#[test]
fn diff_ignores_concept_and_severity_in_keys() {
    let mut moved = record("node-version", "a", "18", "b", "20");
    moved.severity = "warning".into();
    moved.concept_id = "other".into();
    let (new, resolved) = diff_findings(&[record("node-version", "a", "18", "b", "20")], &[moved]);
    assert!(new.is_empty());
    assert!(resolved.is_empty());
}

#[test]
fn diff_of_a_list_with_itself_is_empty() {
    let rs = vec![record("x", "a", "1", "b", "2"), record("y", "c", "3", "d", "4")];
    let (new, resolved) = diff_findings(&rs, &rs);
    assert!(new.is_empty() && resolved.is_empty());
}

#[test]
fn trend_totals_add_counts() {
    let history = ScanHistory {
        snapshots: vec![ScanSnapshot {
            commit_sha: "c".into(),
            author: "a".into(),
            timestamp: "1".into(),
            errors: 2,
            warnings: 3,
            info: 4,
            findings: vec![],
        }],
    };
    let trend = history.trend();
    assert_eq!(trend.snapshots[0].total, 9);
    assert_eq!(trend.snapshots[0].commit_sha, "c");
}

#[test]
fn blame_without_long_line_has_no_commit() {
    assert!(parse_blame_output("author Jane\nauthor-time 5\n").is_none());
    assert!(parse_blame_output("").is_none());
    let all_space = " ".repeat(45);
    assert!(parse_blame_output(&all_space).is_none());
    let b = parse_blame_output(&format!("{} 1 1\nauthor Jane\r\n", "f".repeat(40))).unwrap();
    assert_eq!(b.author, "Jane");
    assert_eq!(b.timestamp, "");
}

#[test]
fn test_render_trend_no_history() {
    let trend = conflic::history::TrendReport { snapshots: vec![], new_findings: vec![], resolved_findings: vec![] };
    let output = conflic::history::render_trend(&trend, true);
    assert!(output.contains("No scan history found"));
}

#[test]
fn test_render_trend_with_data() {
    let trend = conflic::history::TrendReport {
        snapshots: vec![conflic::history::TrendEntry {
            commit_sha: "abc1234567890".into(),
            timestamp: "1700000000".into(),
            errors: 1,
            warnings: 2,
            info: 0,
            total: 3,
        }],
        new_findings: vec![],
        resolved_findings: vec![],
    };
    let output = conflic::history::render_trend(&trend, true);
    assert!(output.contains("abc1234567"));
    assert!(output.contains("trend report"));
}

#[test]
fn trend_rows_are_padded_like_the_header() {
    let trend = conflic::history::TrendReport {
        snapshots: vec![conflic::history::TrendEntry {
            commit_sha: "abc1234567890".into(),
            timestamp: "1700000000".into(),
            errors: 1,
            warnings: 2,
            info: 0,
            total: 3,
        }],
        new_findings: vec![],
        resolved_findings: vec![],
    };
    let output = conflic::history::render_trend(&trend, true);
    let row = format!("  {:<12} {:<20} {:>6} {:>6} {:>6} {:>6}\n", "abc1234567", "1700000000", 1, 2, 0, 3);
    assert!(output.contains(&row));
}
