use conflic::fix::patcher::{
    apply_env_fix, apply_line_based_fix, apply_single_fix, apply_text_range_fix, line_info,
    patch_file, proposal_files, proposal_start_offset, render_dry_run, replace_whole_file_value,
};
use conflic::fix::planner::{format_name, is_numeric_version_token, normalized_port_interval, numeric_major_minor};
use conflic::fix::{FileFormat, FixOperation, FixPlan, FixProposal, UnfixableItem};
use conflic::model::{PortSpec, SemanticConcept};

fn proposal(file: &str, format: FileFormat, line: usize, key: &str, current: &str, proposed: &str) -> FixProposal {
    FixProposal {
        file: file.to_string(),
        concept: SemanticConcept::node_version(),
        current_raw: current.to_string(),
        proposed_raw: proposed.to_string(),
        key_path: key.to_string(),
        line,
        authority_winner: "Dockerfile (enforced)".to_string(),
        winner_file: "Dockerfile".to_string(),
        format,
        operation: FixOperation::ReplaceWholeFileValue { value: proposed.to_string() },
    }
}

#[test]
fn dry_run_of_an_empty_plan() {
    let plan = FixPlan { proposals: vec![], unfixable: vec![] };
    assert_eq!(render_dry_run(&plan, true, None), "No fixes needed — all assertions are consistent.\n");
}

#[test]
fn dry_run_groups_proposals_by_concept() {
    let mut python = proposal("/w/.python-version", FileFormat::PlainText, 1, "", "3.10", "3.12");
    python.concept = SemanticConcept::python_version();
    let plan = FixPlan {
        proposals: vec![
            python,
            proposal("/w/.nvmrc", FileFormat::PlainText, 1, "", "18", "20"),
            proposal("/w/package.json", FileFormat::Json, 3, "engines.node", ">=18", ">=20"),
        ],
        unfixable: vec![UnfixableItem { concept: SemanticConcept::go_version(), reason: "ambiguous".into() }],
    };
    let out = render_dry_run(&plan, true, Some("/w"));
    let expected = [
        "conflic v0.1.0 — fix preview\n\n",
        "Node.js Version\n  Authority winner: Dockerfile (enforced)\n\n",
        "  .nvmrc:1\n  - 18\n  + 20\n\n",
        "  package.json:3 (engines.node)\n  - >=18\n  + >=20\n\n",
        "Python Version\n  Authority winner: Dockerfile (enforced)\n\n",
        "  .python-version:1\n  - 3.10\n  + 3.12\n\n",
        "Unfixable (manual resolution needed):\n  Go Version: ambiguous\n\n",
        &"─".repeat(50),
        "\n3 fix(es) proposed, 1 unfixable\nRun `conflic fix` to apply.\n",
    ]
    .concat();
    assert_eq!(out, expected);
}

#[test]
fn dry_run_keeps_paths_outside_the_working_directory() {
    let plan = FixPlan { proposals: vec![proposal("/other/.nvmrc", FileFormat::PlainText, 1, "", "18", "20")], unfixable: vec![] };
    let out = render_dry_run(&plan, false, Some("/w"));
    assert!(out.contains("\x1b[36m/other/.nvmrc\x1b[39m:1\n"));
    assert!(out.contains("\x1b[31m- 18\x1b[39m"));
    assert!(out.contains("\x1b[32m+ 20\x1b[39m"));
}

#[test]
fn plain_text_files_get_the_value_and_a_newline() {
    let p = proposal(".nvmrc", FileFormat::PlainText, 1, "", "18", "20");
    assert_eq!(apply_single_fix("18", &p), "20\n");
}

#[test]
fn env_fix_replaces_the_value_of_the_key() {
    let p = proposal(".env", FileFormat::Env, 2, "PORT", "3000", "8080");
    assert_eq!(apply_env_fix("A=1\n PORT =3000\r\nB=2", &p), "A=1\n PORT =8080\nB=2");
    assert_eq!(apply_single_fix("PORT=1\n", &p), "PORT=8080\n");
}

#[test]
fn line_based_fix_replaces_only_the_first_occurrence_on_the_line() {
    let p = proposal("a.yaml", FileFormat::Yaml, 2, "", "18", "20");
    assert_eq!(apply_line_based_fix("x: 18\ny: 18 18\n", &p), "x: 18\ny: 20 18\n");
    let missing = proposal("a.yaml", FileFormat::Yaml, 9, "", "18", "20");
    assert_eq!(apply_line_based_fix("x: 18\n", &missing), "x: 18\n");
    let docker = proposal("Dockerfile", FileFormat::Dockerfile, 1, "", "node:18", "node:20");
    assert_eq!(apply_single_fix("FROM node:18\n", &docker), "FROM node:20\n");
}

#[test]
fn a_file_is_patched_from_its_last_line_up() {
    let ps = vec![
        proposal("a.yaml", FileFormat::Yaml, 1, "", "1", "111"),
        proposal("b.yaml", FileFormat::Yaml, 1, "", "x", "y"),
        proposal("a.yaml", FileFormat::Yaml, 2, "", "2", "222"),
    ];
    assert_eq!(patch_file("v: 1\nw: 2\n", &ps, "a.yaml"), "v: 111\nw: 222\n");
    assert_eq!(proposal_files(&ps), vec!["a.yaml".to_string(), "b.yaml".to_string()]);
}

#[test]
fn whole_file_values_keep_the_final_newline() {
    assert_eq!(replace_whole_file_value("18\n", "20"), "20\n");
    assert_eq!(replace_whole_file_value("18", "20"), "20");
}

#[test]
fn text_ranges_are_replaced_or_refused() {
    assert_eq!(apply_text_range_fix("FROM node:18\n", 5, 12, "node:20"), Ok("FROM node:20\n".to_string()));
    assert_eq!(
        apply_text_range_fix("abc", 2, 9, "x"),
        Err("text replacement range 2..9 is out of bounds for content length 3".to_string())
    );
    assert!(apply_text_range_fix("abc", 2, 1, "x").is_err());
}

#[test]
fn start_offsets_of_proposals() {
    let mut p = proposal("a", FileFormat::Json, 4, "", "", "");
    assert_eq!(proposal_start_offset(&p), 4);
    p.operation = FixOperation::ReplaceTextRange { start: 17, end: 20, value: "x".into() };
    assert_eq!(proposal_start_offset(&p), 17);
}

#[test]
fn lines_are_found_across_line_break_styles() {
    let info = line_info("a\r\nbb\rccc\nd", 3).unwrap();
    assert_eq!((info.start, info.end, info.text.as_str()), (6, 9, "ccc"));
    let last = line_info("a\n", 2).unwrap();
    assert_eq!((last.start, last.end, last.text.as_str()), (2, 2, ""));
    assert_eq!(line_info("a\n", 3).unwrap_err(), "Target line 3 is out of range");
    assert_eq!(line_info("a", 0).unwrap_err(), "Target line 0 is out of range");
}

#[test]
fn planner_helpers() {
    assert_eq!(format_name(&FileFormat::PlainText), "plain-text");
    assert_eq!(normalized_port_interval(&PortSpec::Range(90, 80)), (80, 90));
    assert_eq!(normalized_port_interval(&PortSpec::Mapping { host: 1, container: 2 }), (2, 2));
    assert_eq!(numeric_major_minor("20.11.1"), Some("20.11".to_string()));
    assert_eq!(numeric_major_minor("20"), Some("20.0".to_string()));
    assert_eq!(numeric_major_minor("v20"), None);
    assert!(is_numeric_version_token("3.12"));
    assert!(!is_numeric_version_token("..."));
    assert!(!is_numeric_version_token(""));
}
