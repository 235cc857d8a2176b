//! Runtime versions named by Lambda runtimes, tool-version lines, CI paths
//! and plain version files.
use vstd::prelude::*;
use vstd::string::*;
use crate::model::{ConceptCategory, SemanticConcept};
use crate::pathing::{components, path_components};
use crate::text::{
    chars_eq_str, first_word_bounds, first_word_s, from_chars, slice_chars, starts_with_chars,
    starts_with_s, str_eq, strs_view, to_chars, trim_end_matches_chars, trim_end_matches_s, trim_start_s, vv,
};

verus! {

/// `s` without the prefix `p`, when it starts with it (`str::strip_prefix`).
pub open spec fn strip_prefix_s(s: Seq<char>, p: Seq<char>) -> Option<Seq<char>> {
    if starts_with_s(s, p) {
        Some(s.skip(p.len() as int))
    } else {
        None
    }
}

/// `s` without the prefix `p`, when it starts with it.
pub fn strip_prefix(s: &str, p: &str) -> (r: Option<String>)
    ensures
        match r {
            Some(t) => strip_prefix_s(s@, p@) == Some(t@),
            None => strip_prefix_s(s@, p@) is None,
        },
{
    let cs = to_chars(s);
    let ps = to_chars(p);
    if starts_with_chars(cs.as_slice(), ps.as_slice()) {
        let rest = slice_chars(cs.as_slice(), ps.len(), cs.len());
        assert(rest@ == cs@.skip(ps@.len() as int));
        Some(from_chars(rest.as_slice()))
    } else {
        None
    }
}

/// The version in a Node.js Lambda runtime: `nodejs20.x` is `20`.
pub open spec fn nodejs_runtime_version_s(rt: Seq<char>) -> Option<Seq<char>> {
    match strip_prefix_s(rt, "nodejs"@) {
        Some(v) => Some(trim_end_matches_s(v, ".x"@)),
        None => None,
    }
}

/// The version in a Go Lambda runtime (`go1.x` is `1`), which must begin
/// with a digit.
pub open spec fn go_runtime_version_s(rt: Seq<char>) -> Option<Seq<char>> {
    match strip_prefix_s(rt, "go"@) {
        Some(v) => if v.len() > 0 && '0' <= v[0] <= '9' {
            Some(trim_end_matches_s(v, ".x"@))
        } else {
            None
        },
        None => None,
    }
}

/// The version in a .NET Lambda runtime (`dotnet8`, `dotnetcore3.1`), which
/// must begin with a digit.
pub open spec fn dotnet_runtime_version_s(rt: Seq<char>) -> Option<Seq<char>> {
    let v = match strip_prefix_s(rt, "dotnetcore"@) {
        Some(v) => Some(v),
        None => strip_prefix_s(rt, "dotnet"@),
    };
    match v {
        Some(v) => if v.len() > 0 && '0' <= v[0] <= '9' {
            Some(v)
        } else {
            None
        },
        None => None,
    }
}

fn trim_x_suffix(v: &str) -> (r: String)
    ensures
        r@ == trim_end_matches_s(v@, ".x"@),
{
    let cs = to_chars(v);
    let p = to_chars(".x");
    proof {
        reveal_strlit(".x");
    }
    let t = trim_end_matches_chars(cs.as_slice(), p.as_slice());
    from_chars(t.as_slice())
}

fn starts_with_digit(v: &str) -> (r: bool)
    ensures
        r == (v@.len() > 0 && '0' <= v@[0] <= '9'),
{
    let cs = to_chars(v);
    cs.len() > 0 && '0' <= cs[0] && cs[0] <= '9'
}

/// "nodejs20.x" -> "20", "nodejs18.x" -> "18"
pub fn extract_nodejs_version(runtime: &str) -> (r: Option<String>)
    ensures
        match r {
            Some(t) => nodejs_runtime_version_s(runtime@) == Some(t@),
            None => nodejs_runtime_version_s(runtime@) is None,
        },
{
    match strip_prefix(runtime, "nodejs") {
        Some(v) => Some(trim_x_suffix(v.as_str())),
        None => None,
    }
}

/// "python3.12" -> "3.12"
pub fn extract_python_version(runtime: &str) -> (r: Option<String>)
    ensures
        match r {
            Some(t) => strip_prefix_s(runtime@, "python"@) == Some(t@),
            None => strip_prefix_s(runtime@, "python"@) is None,
        },
{
    strip_prefix(runtime, "python")
}

/// "java21" -> "21"
pub fn extract_java_version(runtime: &str) -> (r: Option<String>)
    ensures
        match r {
            Some(t) => strip_prefix_s(runtime@, "java"@) == Some(t@),
            None => strip_prefix_s(runtime@, "java"@) is None,
        },
{
    strip_prefix(runtime, "java")
}

/// "ruby3.3" -> "3.3"
pub fn extract_ruby_version(runtime: &str) -> (r: Option<String>)
    ensures
        match r {
            Some(t) => strip_prefix_s(runtime@, "ruby"@) == Some(t@),
            None => strip_prefix_s(runtime@, "ruby"@) is None,
        },
{
    strip_prefix(runtime, "ruby")
}

/// "go1.x" -> "1"; "provided.al2023" is not Go.
pub fn extract_go_version(runtime: &str) -> (r: Option<String>)
    ensures
        match r {
            Some(t) => go_runtime_version_s(runtime@) == Some(t@),
            None => go_runtime_version_s(runtime@) is None,
        },
{
    let v = match strip_prefix(runtime, "go") {
        Some(v) => v,
        None => return None,
    };
    if starts_with_digit(v.as_str()) {
        Some(trim_x_suffix(v.as_str()))
    } else {
        None
    }
}

/// "dotnet8" -> "8", "dotnetcore3.1" -> "3.1"
pub fn extract_dotnet_version(runtime: &str) -> (r: Option<String>)
    ensures
        match r {
            Some(t) => dotnet_runtime_version_s(runtime@) == Some(t@),
            None => dotnet_runtime_version_s(runtime@) is None,
        },
{
    let v = match strip_prefix(runtime, "dotnetcore") {
        Some(v) => v,
        None => match strip_prefix(runtime, "dotnet") {
            Some(v) => v,
            None => return None,
        },
    };
    if starts_with_digit(v.as_str()) {
        Some(v)
    } else {
        None
    }
}

/// The second whitespace-separated word of `s`, if any.
pub open spec fn second_word_s(s: Seq<char>) -> Option<Seq<char>> {
    match first_word_s(s) {
        Some(w) => first_word_s(trim_start_s(s).skip(w.len() as int)),
        None => None,
    }
}

/// The value of a `tool value` line when the tool is one of `tool_names`.
pub open spec fn tool_line_value_s(line: Seq<char>, tool_names: Seq<Seq<char>>) -> Option<Seq<char>> {
    match (first_word_s(line), second_word_s(line)) {
        (Some(tool), Some(value)) => if tool_names.contains(tool) {
            Some(value)
        } else {
            None
        },
        _ => None,
    }
}

/// The value on a `.tool-versions` line for one of the tools named.
pub fn line_value_for_tool(line: &str, tool_names: &[&str]) -> (r: Option<String>)
    ensures
        match r {
            Some(v) => tool_line_value_s(line@, strs_view(tool_names@)) == Some(v@),
            None => tool_line_value_s(line@, strs_view(tool_names@)) is None,
        },
{
    let ghost names = strs_view(tool_names@);
    let cs = to_chars(line);
    let (a, b) = match first_word_bounds(cs.as_slice()) {
        None => return None,
        Some(ab) => ab,
    };
    let rest = slice_chars(cs.as_slice(), b, cs.len());
    proof {
        assert(rest@ == trim_start_s(cs@).skip(cs@.subrange(a as int, b as int).len() as int));
    }
    let (c, d) = match first_word_bounds(rest.as_slice()) {
        None => return None,
        Some(cd) => cd,
    };
    let tool = from_chars(slice_chars(cs.as_slice(), a, b).as_slice());
    let value = from_chars(slice_chars(rest.as_slice(), c, d).as_slice());
    assert(first_word_s(line@) == Some(tool@));
    assert(second_word_s(line@) == Some(value@));
    let mut found = false;
    let mut i: usize = 0;
    while i < tool_names.len()
        invariant
            i <= tool_names.len(),
            names == strs_view(tool_names@),
            found ==> names.contains(tool@),
            !found ==> forall|k: int| 0 <= k < i ==> names[k] != tool@,
        decreases tool_names.len() - i,
    {
        if str_eq(tool.as_str(), tool_names[i]) {
            assert(names[i as int] == tool@);
            found = true;
        }
        i = i + 1;
    }
    if found {
        Some(value)
    } else {
        proof {
            if names.contains(tool@) {
                let k = choose|k: int| 0 <= k < names.len() && names[k] == tool@;
                assert(names[k] != tool@);
            }
        }
        None
    }
}

/// Whether a path is a CI configuration: named `.gitlab-ci.yml`, or with a
/// `.github/workflows` pair of components, or a `.circleci` component, or
/// inside a `.gitlab-ci` directory.
pub open spec fn is_ci_config_path_s(path: Seq<char>) -> bool {
    let cs = path_components(path);
    (cs.len() > 0 && cs.last() == ".gitlab-ci.yml"@) || exists|i: int|
        0 <= i < cs.len() && (#[trigger] cs[i] == ".circleci"@ || (i > 0 && cs[i - 1] == ".github"@
            && cs[i] == "workflows"@) || (cs[i] == ".gitlab-ci"@ && i + 1 < cs.len()))
}

/// Whether the file at `path` is a CI configuration file.
pub fn is_ci_config_path(path: &str) -> (r: bool)
    ensures
        r == is_ci_config_path_s(path@),
{
    let pc = to_chars(path);
    let cs = components(pc.as_slice());
    let ghost cv = vv(cs@);
    if cs.len() > 0 && chars_eq_str(cs[cs.len() - 1].as_slice(), ".gitlab-ci.yml") {
        assert(cv.last() == cs@[cs.len() - 1]@);
        return true;
    }
    proof {
        if cv.len() > 0 {
            assert(cv.last() == cs@[cs.len() - 1]@);
        }
    }
    let mut saw_dot_github = false;
    let mut i: usize = 0;
    while i < cs.len()
        invariant
            i <= cs.len(),
            cv == vv(cs@),
            cv == path_components(path@),
            saw_dot_github == (i > 0 && cv[i - 1] == ".github"@),
            forall|k: int|
                0 <= k < i ==> !(#[trigger] cv[k] == ".circleci"@ || (k > 0 && cv[k - 1]
                    == ".github"@ && cv[k] == "workflows"@) || (cv[k] == ".gitlab-ci"@ && k + 1 < cv.len())),
        decreases cs.len() - i,
    {
        let comp = cs[i].as_slice();
        let is_wf = chars_eq_str(comp, "workflows");
        let is_cc = chars_eq_str(comp, ".circleci");
        let is_gh = chars_eq_str(comp, ".github");
        assert(comp@ == cv[i as int]);
        if saw_dot_github && is_wf {
            return true;
        }
        if is_cc {
            return true;
        }
        if i + 1 < cs.len() && chars_eq_str(comp, ".gitlab-ci") {
            return true;
        }
        saw_dot_github = is_gh;
        i = i + 1;
    }
    false
}

/// The runtimes whose versions several extractors read.
#[derive(Debug, Clone, Copy, PartialEq, Eq, Structural)]
pub enum RuntimeVersionKind {
    Node,
    Python,
    Go,
    Java,
    Ruby,
}

impl RuntimeVersionKind {
    /// The id of the concept of the runtime's version.
    pub open spec fn concept_id(self) -> Seq<char> {
        match self {
            RuntimeVersionKind::Node => "node-version"@,
            RuntimeVersionKind::Python => "python-version"@,
            RuntimeVersionKind::Go => "go-version"@,
            RuntimeVersionKind::Java => "java-version"@,
            RuntimeVersionKind::Ruby => "ruby-version"@,
        }
    }

    /// The concept of the runtime's version.
    pub fn concept(self) -> (r: SemanticConcept)
        ensures
            r.id@ == self.concept_id(),
            r.category == ConceptCategory::RuntimeVersion,
    {
        match self {
            RuntimeVersionKind::Node => SemanticConcept::node_version(),
            RuntimeVersionKind::Python => SemanticConcept::python_version(),
            RuntimeVersionKind::Go => SemanticConcept::go_version(),
            RuntimeVersionKind::Java => SemanticConcept::java_version(),
            RuntimeVersionKind::Ruby => SemanticConcept::ruby_version(),
        }
    }
}

/// How a plain version file's text is normalized before it is parsed.
#[derive(Debug, Clone, Copy, PartialEq, Eq)]
pub enum PlainTextNormalizer {
    Identity,
    StripPrefixChar(char),
    StripPrefix(&'static str),
}

impl PlainTextNormalizer {
    /// The text after normalization: a matching prefix removed.
    pub open spec fn normalized(self, raw: Seq<char>) -> Seq<char> {
        match self {
            PlainTextNormalizer::Identity => raw,
            PlainTextNormalizer::StripPrefixChar(c) => if raw.len() > 0 && raw[0] == c {
                raw.drop_first()
            } else {
                raw
            },
            PlainTextNormalizer::StripPrefix(p) => match strip_prefix_s(raw, p@) {
                Some(v) => v,
                None => raw,
            },
        }
    }

    /// Normalize the text of a plain version file.
    pub fn normalize(self, raw: &str) -> (r: String)
        ensures
            r@ == self.normalized(raw@),
    {
        match self {
            PlainTextNormalizer::Identity => String::from_str(raw),
            PlainTextNormalizer::StripPrefixChar(c) => {
                let cs = to_chars(raw);
                if cs.len() > 0 && cs[0] == c {
                    let rest = slice_chars(cs.as_slice(), 1, cs.len());
                    assert(rest@ == cs@.drop_first());
                    from_chars(rest.as_slice())
                } else {
                    String::from_str(raw)
                }
            },
            PlainTextNormalizer::StripPrefix(p) => match strip_prefix(raw, p) {
                Some(v) => v,
                None => String::from_str(raw),
            },
        }
    }
}


} // verus!
