//! The edit that brings a target assertion to the winner's value, chosen by
//! the extractor that read the target.
use vstd::prelude::*;
use vstd::string::*;
use super::{FileFormat, FixOperation};
use super::docker_from::{docker_from_arguments_s, render_docker_from_arguments};
use super::planner::{build_exact_json_string_fix, build_json_string_fix, extractor_target_name, json_field_message, target_name_s};
use super::render::{
    declared_s, dotnet_target_framework_s, exact_file_version_s, exactish_s, expose_token_s, port_value_s,
    render_docker_expose_token, render_dotnet_target_framework, render_exact_file_version,
    render_exactish_version_token, render_port_value, ExactFileFlavor,
};
use crate::model::ConfigAssertion;
use crate::text::{contains_s, push_str, str_contains, str_eq};

verus! {

/// An edit, its texts taken as character sequences.
pub enum FixOperationView {
    WholeFileValue(Seq<char>),
    EnvValue(Seq<char>, Seq<char>),
    JsonString(Seq<Seq<char>>, Seq<char>),
    GoModVersion(Seq<char>),
    ToolVersionsValue(Seq<char>),
    GemfileRubyVersion(Seq<char>),
    TextRange(usize, usize, Seq<char>),
    DockerFromArguments(Seq<char>),
    DockerExposeToken(Seq<char>, Seq<char>),
}

/// The view of an edit.
pub open spec fn operation_view(op: FixOperation) -> FixOperationView {
    match op {
        FixOperation::ReplaceWholeFileValue { value } => FixOperationView::WholeFileValue(value@),
        FixOperation::ReplaceEnvValue { key, value } => FixOperationView::EnvValue(key@, value@),
        FixOperation::ReplaceJsonString { path, value } => FixOperationView::JsonString(
            path@.map_values(|p: String| p@),
            value@,
        ),
        FixOperation::ReplaceGoModVersion { value } => FixOperationView::GoModVersion(value@),
        FixOperation::ReplaceToolVersionsValue { value } => FixOperationView::ToolVersionsValue(value@),
        FixOperation::ReplaceGemfileRubyVersion { value } => FixOperationView::GemfileRubyVersion(value@),
        FixOperation::ReplaceTextRange { start, end, value } => FixOperationView::TextRange(start, end, value@),
        FixOperation::ReplaceDockerFromArguments { arguments } => FixOperationView::DockerFromArguments(arguments@),
        FixOperation::ReplaceDockerExposeToken { current, value } => FixOperationView::DockerExposeToken(
            current@,
            value@,
        ),
    }
}

/// The view of the result of `build_fix_operation`.
pub open spec fn fix_view(r: Result<(String, FixOperation), String>) -> Result<(Seq<char>, FixOperationView), Seq<char>> {
    match r {
        Ok((v, op)) => Ok((v@, operation_view(op))),
        Err(e) => Err(e@),
    }
}

/// A rendered value and the edit made of it, or `msg` when there is none.
pub open spec fn with_value(
    v: Option<Seq<char>>,
    msg: Seq<char>,
    op: spec_fn(Seq<char>) -> FixOperationView,
) -> Result<(Seq<char>, FixOperationView), Seq<char>> {
    match v {
        None => Err(msg),
        Some(x) => Ok((x, op(x))),
    }
}

/// A version file's new value as a whole-file edit.
pub open spec fn whole_file_s(r: Result<Seq<char>, Seq<char>>) -> Result<(Seq<char>, FixOperationView), Seq<char>> {
    match r {
        Ok(v) => Ok((v, FixOperationView::WholeFileValue(v))),
        Err(e) => Err(e),
    }
}

/// A rendered value written over the byte range of the target's source
/// span; `span_msg` when the target has no span.
pub open spec fn range_fix_s(
    v: Option<Seq<char>>,
    msg: Seq<char>,
    target: ConfigAssertion,
    span_msg: Seq<char>,
) -> Result<(Seq<char>, FixOperationView), Seq<char>> {
    match v {
        None => Err(msg),
        Some(x) => match target.span {
            None => Err(span_msg),
            Some(sp) => Ok((x, FixOperationView::TextRange(sp.start, sp.end, x))),
        },
    }
}

/// Whether an extractor reads a Dockerfile `FROM` version.
pub open spec fn is_dockerfile_version_id(id: Seq<char>) -> bool {
    ||| id == "node-version-dockerfile"@
    ||| id == "python-version-dockerfile"@
    ||| id == "ruby-version-dockerfile"@
    ||| id == "java-version-dockerfile"@
    ||| id == "go-version-dockerfile"@
    ||| id == "dotnet-version-dockerfile"@
}

/// Whether an extractor reads a `.tool-versions` version.
pub open spec fn is_tool_versions_id(id: Seq<char>) -> bool {
    ||| id == "node-version-tool-versions"@
    ||| id == "ruby-version-tool-versions"@
    ||| id == "java-version-tool-versions"@
}

/// The edit that brings `target` to the winner's value, by the extractor
/// that read the target, with the new value it writes; or why it cannot be
/// made.
pub open spec fn fix_operation_s(winner: ConfigAssertion, target: ConfigAssertion, format: FileFormat) -> Result<
    (Seq<char>, FixOperationView),
    Seq<char>,
> {
    let id = target.extractor_id@;
    let wv = winner.value;
    let wr = winner.raw_value@;
    let cur = target.raw_value@;
    if target.is_matrix {
        Err("matrix values are not auto-fixed"@)
    } else if id == "node-version-nvmrc"@ {
        whole_file_s(exact_file_version_s(wv, wr, cur, ExactFileFlavor::Node))
    } else if id == "python-version-file"@ {
        whole_file_s(exact_file_version_s(wv, wr, cur, ExactFileFlavor::Plain))
    } else if id == "ruby-version-file"@ {
        whole_file_s(exact_file_version_s(wv, wr, cur, ExactFileFlavor::Ruby))
    } else if id == "node-version-package-json"@ {
        with_value(
            declared_s(wv, wr),
            json_field_message(),
            |x: Seq<char>| FixOperationView::JsonString(seq!["engines"@, "node"@], x),
        )
    } else if id == "dotnet-version-global-json"@ {
        with_value(
            exactish_s(wv, wr),
            json_field_message(),
            |x: Seq<char>| FixOperationView::JsonString(seq!["sdk"@, "version"@], x),
        )
    } else if id == "go-version-gomod"@ {
        with_value(
            exactish_s(wv, wr),
            "winner cannot be represented safely in go.mod; manual update required"@,
            |x: Seq<char>| FixOperationView::GoModVersion(x),
        )
    } else if is_tool_versions_id(id) {
        with_value(
            exactish_s(wv, wr),
            "winner cannot be represented safely in .tool-versions"@,
            |x: Seq<char>| FixOperationView::ToolVersionsValue(x),
        )
    } else if id == "ruby-version-gemfile"@ {
        with_value(
            exactish_s(wv, wr),
            "winner cannot be represented safely in Gemfile; manual update required"@,
            |x: Seq<char>| FixOperationView::GemfileRubyVersion(x),
        )
    } else if id == "java-version-pom"@ {
        range_fix_s(
            exactish_s(wv, wr),
            "winner cannot be represented safely in pom.xml; manual update required"@,
            target,
            "missing exact XML source span for pom.xml value"@,
        )
    } else if id == "dotnet-version-csproj"@ {
        range_fix_s(
            dotnet_target_framework_s(wv, wr, cur),
            "winner cannot be rendered safely as a TargetFramework value"@,
            target,
            "missing exact XML source span for .csproj value"@,
        )
    } else if is_dockerfile_version_id(id) {
        with_value(
            docker_from_arguments_s(wv, wr, cur),
            "winner cannot be rendered safely as a Docker image tag"@,
            |x: Seq<char>| FixOperationView::DockerFromArguments(x),
        )
    } else if id == "port-env"@ {
        if contains_s(cur, "${"@) {
            Err("environment-default expressions are not auto-rewritten; manual update required"@)
        } else {
            with_value(
                port_value_s(wv),
                "winner cannot be represented safely as an env port value"@,
                |x: Seq<char>| FixOperationView::EnvValue(target.source.key_path@, x),
            )
        }
    } else if id == "port-dockerfile"@ {
        with_value(
            expose_token_s(wv, cur),
            "winner cannot be represented safely in Dockerfile EXPOSE"@,
            |x: Seq<char>| FixOperationView::DockerExposeToken(cur, x),
        )
    } else {
        Err("auto-fix is not supported for "@ + target_name_s(target, format) + " targets"@)
    }
}

fn whole_file(r: Result<String, String>) -> (out: Result<(String, FixOperation), String>)
    ensures
        fix_view(out) == whole_file_s(match r {
            Ok(v) => Ok(v@),
            Err(e) => Err(e@),
        }),
{
    match r {
        Ok(value) => Ok((value.clone(), FixOperation::ReplaceWholeFileValue { value })),
        Err(e) => Err(e),
    }
}

fn range_fix(v: Option<String>, msg: &str, target: &ConfigAssertion, span_msg: &str) -> (out: Result<
    (String, FixOperation),
    String,
>)
    ensures
        fix_view(out) == range_fix_s(
            match v {
                Some(x) => Some(x@),
                None => None,
            },
            msg@,
            *target,
            span_msg@,
        ),
{
    match v {
        None => Err(String::from_str(msg)),
        Some(value) => match target.span {
            None => Err(String::from_str(span_msg)),
            Some(sp) => Ok((value.clone(), FixOperation::ReplaceTextRange { start: sp.start, end: sp.end, value })),
        },
    }
}

/// The edit that brings `target` to the winner's value, with the new value
/// it writes, or why it cannot be made.
pub fn build_fix_operation(winner: &ConfigAssertion, target: &ConfigAssertion, format: FileFormat) -> (r: Result<
    (String, FixOperation),
    String,
>)
    ensures
        fix_view(r) == fix_operation_s(*winner, *target, format),
{
    let id = target.extractor_id.as_str();
    if target.is_matrix {
        return Err(String::from_str("matrix values are not auto-fixed"));
    }
    if str_eq(id, "node-version-nvmrc") {
        return whole_file(render_exact_file_version(winner, target.raw_value.as_str(), ExactFileFlavor::Node));
    }
    if str_eq(id, "python-version-file") {
        return whole_file(render_exact_file_version(winner, target.raw_value.as_str(), ExactFileFlavor::Plain));
    }
    if str_eq(id, "ruby-version-file") {
        return whole_file(render_exact_file_version(winner, target.raw_value.as_str(), ExactFileFlavor::Ruby));
    }
    if str_eq(id, "node-version-package-json") {
        let path: [&str; 2] = ["engines", "node"];
        let r = build_json_string_fix(winner, &path);
        proof {
            if r is Ok {
                let op = r->Ok_0.1;
                assert(op->path@.map_values(|q: String| q@) =~= seq!["engines"@, "node"@]);
            }
        }
        return r;
    }
    if str_eq(id, "dotnet-version-global-json") {
        let path: [&str; 2] = ["sdk", "version"];
        let r = build_exact_json_string_fix(winner, &path);
        proof {
            if r is Ok {
                let op = r->Ok_0.1;
                assert(op->path@.map_values(|q: String| q@) =~= seq!["sdk"@, "version"@]);
            }
        }
        return r;
    }
    if str_eq(id, "go-version-gomod") {
        return match render_exactish_version_token(winner) {
            Some(value) => Ok((value.clone(), FixOperation::ReplaceGoModVersion { value })),
            None => Err(String::from_str("winner cannot be represented safely in go.mod; manual update required")),
        };
    }
    if str_eq(id, "node-version-tool-versions") || str_eq(id, "ruby-version-tool-versions") || str_eq(
        id,
        "java-version-tool-versions",
    ) {
        return match render_exactish_version_token(winner) {
            Some(value) => Ok((value.clone(), FixOperation::ReplaceToolVersionsValue { value })),
            None => Err(String::from_str("winner cannot be represented safely in .tool-versions")),
        };
    }
    if str_eq(id, "ruby-version-gemfile") {
        return match render_exactish_version_token(winner) {
            Some(value) => Ok((value.clone(), FixOperation::ReplaceGemfileRubyVersion { value })),
            None => Err(String::from_str("winner cannot be represented safely in Gemfile; manual update required")),
        };
    }
    if str_eq(id, "java-version-pom") {
        return range_fix(
            render_exactish_version_token(winner),
            "winner cannot be represented safely in pom.xml; manual update required",
            target,
            "missing exact XML source span for pom.xml value",
        );
    }
    if str_eq(id, "dotnet-version-csproj") {
        return range_fix(
            render_dotnet_target_framework(winner, target.raw_value.as_str()),
            "winner cannot be rendered safely as a TargetFramework value",
            target,
            "missing exact XML source span for .csproj value",
        );
    }
    if str_eq(id, "node-version-dockerfile") || str_eq(id, "python-version-dockerfile") || str_eq(
        id,
        "ruby-version-dockerfile",
    ) || str_eq(id, "java-version-dockerfile") || str_eq(id, "go-version-dockerfile") || str_eq(
        id,
        "dotnet-version-dockerfile",
    ) {
        return match render_docker_from_arguments(winner, target.raw_value.as_str()) {
            Some(arguments) => Ok((arguments.clone(), FixOperation::ReplaceDockerFromArguments { arguments })),
            None => Err(String::from_str("winner cannot be rendered safely as a Docker image tag")),
        };
    }
    if str_eq(id, "port-env") {
        if str_contains(target.raw_value.as_str(), "${") {
            return Err(
                String::from_str(
                    "environment-default expressions are not auto-rewritten; manual update required",
                ),
            );
        }
        return match render_port_value(&winner.value) {
            Some(value) => Ok(
                (value.clone(), FixOperation::ReplaceEnvValue { key: target.source.key_path.clone(), value }),
            ),
            None => Err(String::from_str("winner cannot be represented safely as an env port value")),
        };
    }
    if str_eq(id, "port-dockerfile") {
        return match render_docker_expose_token(&winner.value, target.raw_value.as_str()) {
            Some(value) => Ok(
                (value.clone(), FixOperation::ReplaceDockerExposeToken { current: target.raw_value.clone(), value }),
            ),
            None => Err(String::from_str("winner cannot be represented safely in Dockerfile EXPOSE")),
        };
    }
    let mut msg = String::from_str("auto-fix is not supported for ");
    let name = extractor_target_name(target, &format);
    push_str(&mut msg, name.as_str());
    push_str(&mut msg, " targets");
    Err(msg)
}

} // verus!
