use conflic::fix::patcher::apply::{
    apply_docker_expose_fix, apply_gemfile_fix, apply_go_mod_fix, apply_tool_versions_fix, rewrite_target_line,
    LineRewrite,
};

#[test]
fn go_mod_directive_version_is_replaced() {
    let content = "module example.com/app\n\ngo 1.21\n\nrequire x v1\n";
    assert_eq!(
        apply_go_mod_fix(content, 3, "1.22").unwrap(),
        "module example.com/app\n\ngo 1.22\n\nrequire x v1\n"
    );
}

#[test]
fn go_mod_fix_refuses_other_lines() {
    let content = "module example.com/app\n\ngo 1.21\n";
    assert_eq!(apply_go_mod_fix(content, 1, "1.22").unwrap_err(), "Line 1 is not a go.mod go directive");
}

#[test]
fn rewrite_refuses_missing_lines() {
    assert_eq!(apply_go_mod_fix("go 1.21\n", 5, "1.22").unwrap_err(), "Target line 5 is out of range");
    assert_eq!(apply_go_mod_fix("go 1.21\n", 0, "1.22").unwrap_err(), "Target line 0 is out of range");
}

#[test]
fn rewrite_keeps_crlf_breaks() {
    assert_eq!(apply_go_mod_fix("go 1.21\r\nmodule x\r\n", 1, "1.22").unwrap(), "go 1.22\r\nmodule x\r\n");
}

#[test]
fn tool_versions_entry_keeps_its_comment() {
    let content = "nodejs 18.0.0 # pinned\nruby 3.2.0\n";
    assert_eq!(
        apply_tool_versions_fix(content, 1, "20.0.0").unwrap(),
        "nodejs 20.0.0 # pinned\nruby 3.2.0\n"
    );
    assert_eq!(
        apply_tool_versions_fix("nodejs\n", 1, "20.0.0").unwrap_err(),
        "Line 1 is not a .tool-versions entry"
    );
}

#[test]
fn gemfile_ruby_directive_is_replaced() {
    let content = "source 'https://rubygems.org'\nruby '3.1.0'\n";
    assert_eq!(
        apply_gemfile_fix(content, 2, "3.3.0").unwrap(),
        "source 'https://rubygems.org'\nruby '3.3.0'\n"
    );
    assert_eq!(apply_gemfile_fix(content, 1, "3.3.0").unwrap_err(), "Line 1 is not a Gemfile ruby directive");
}

#[test]
fn expose_token_is_replaced_and_tokens_rejoined() {
    let content = "FROM node:20\nEXPOSE 80  443/tcp\n";
    assert_eq!(
        apply_docker_expose_fix(content, 2, "80", "8080").unwrap(),
        "FROM node:20\nEXPOSE 8080 443/tcp\n"
    );
}

#[test]
fn expose_fix_errors() {
    let content = "FROM node:20\nEXPOSE 80\n";
    assert_eq!(
        apply_docker_expose_fix(content, 2, "9000", "8080").unwrap_err(),
        "Line 2 did not contain EXPOSE token 9000"
    );
    assert_eq!(
        apply_docker_expose_fix(content, 1, "80", "8080").unwrap_err(),
        "Line 1 is not a Dockerfile EXPOSE instruction"
    );
}

#[test]
fn rewrite_target_line_changes_only_that_line() {
    let content = "a 1\nb 2\nc 3";
    let out = rewrite_target_line(content, 3, &LineRewrite::ToolVersionsEntry { value: "9".to_string() }).unwrap();
    assert_eq!(out, "a 1\nb 2\nc 9");
}
