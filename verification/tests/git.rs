use conflic::git::{changed_files_commands, format_command, git_changed_files, git_command_path_lines, parse_git_path_output, validate_git_diff_ref, GitError};
use std::path::PathBuf;

fn as_paths(v: Vec<String>) -> Vec<PathBuf> {
    v.into_iter().map(PathBuf::from).collect()
}

#[test]
fn test_parse_git_path_output_supports_nul_terminated_entries() {
    let output = b"package.json\0unicode-\xC3\xA9/.nvmrc\0";
    let parsed = parse_git_path_output(output, true);
    assert_eq!(
        as_paths(parsed),
        vec![PathBuf::from("package.json"), PathBuf::from("unicode-é/.nvmrc")]
    );
}

#[test]
fn test_parse_git_path_output_preserves_significant_whitespace() {
    let output = b" pkg/settings.json\0trailing-space /.env\0";
    let parsed = parse_git_path_output(output, true);
    assert_eq!(
        as_paths(parsed),
        vec![PathBuf::from(" pkg/settings.json"), PathBuf::from("trailing-space /.env")]
    );
}

#[test]
fn newline_listings_drop_carriage_returns_and_empty_entries() {
    let parsed = parse_git_path_output(b"a.txt\r\n\nb.txt\n", false);
    assert_eq!(parsed, vec!["a.txt".to_string(), "b.txt".to_string()]);
}

#[test]
fn option_like_refs_are_refused() {
    let err = validate_git_diff_ref("--output=owned.txt").unwrap_err();
    assert!(err.to_text().contains("must not start with '-'"));
    assert!(validate_git_diff_ref("HEAD").is_ok());
    let err = git_changed_files("-x", b"a\0", b"").unwrap_err();
    assert!(matches!(err, GitError::InvalidDiffRef { .. }));
}

#[test]
fn changed_files_are_merged_in_path_order_without_duplicates() {
    let files = git_changed_files("HEAD", b"b/c.txt\0a-b\0a/b\0", b"a/b\0new.txt\0").unwrap();
    let mut expected = std::collections::BTreeSet::new();
    for p in ["b/c.txt", "a-b", "a/b", "a/b", "new.txt"] {
        expected.insert(PathBuf::from(p));
    }
    assert_eq!(as_paths(files), expected.into_iter().collect::<Vec<_>>());
}

#[test]
fn commands_print_with_spaces_and_failures_keep_stderr() {
    assert_eq!(format_command(&["diff", "--name-only", "-z"]), "diff --name-only -z");
    let err = git_command_path_lines(&["ls-files", "-z"], false, b"", b"  fatal: bad\n").unwrap_err();
    match err {
        GitError::CommandFailed { command, stderr } => {
            assert_eq!(command, "ls-files -z");
            assert_eq!(stderr, "fatal: bad");
        }
        _ => panic!("expected a failed command"),
    }
    let ok = git_command_path_lines(&["ls-files", "-z"], true, b"x\0y\0", b"").unwrap();
    assert_eq!(ok, vec!["x".to_string(), "y".to_string()]);
}

#[test]
fn changed_files_commands_refuse_option_like_refs_before_any_command() {
    match changed_files_commands("--output=owned.txt") {
        Err(e) => {
            assert!(e.to_text().contains("must not start with '-'"));
            assert!(matches!(e, GitError::InvalidDiffRef { ref value } if value == "--output=owned.txt"));
        }
        Ok(_) => panic!("an option-like ref must be refused"),
    }
    let (diff, untracked) = changed_files_commands("origin/main").unwrap();
    assert_eq!(diff, vec!["diff", "--name-only", "-z", "origin/main", "--"]);
    assert_eq!(untracked, vec!["ls-files", "--others", "--exclude-standard", "-z"]);
}
