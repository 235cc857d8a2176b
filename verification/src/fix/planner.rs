//! Small decisions of fix planning: format names, port intervals and
//! version tokens.
use vstd::prelude::*;
use vstd::string::*;
use super::{FileFormat, FixOperation};
use super::render::{declared_s, exactish_s, render_declared_version_string, render_exactish_version_token};
use crate::model::semantic_type::VersionView;
use crate::model::{ConfigAssertion, PortSpec, SemanticType, VersionSpec};
use crate::text::{str_eq, trim_s};
use crate::text::{from_chars, is_digit, slice_chars, split_chars, split_s, to_chars, trim_chars, vv};

verus! {

/// The name of a file format, as messages print it.
pub open spec fn format_name_s(f: FileFormat) -> Seq<char> {
    match f {
        FileFormat::Json => "JSON"@,
        FileFormat::Yaml => "YAML"@,
        FileFormat::Toml => "TOML"@,
        FileFormat::Dockerfile => "Dockerfile"@,
        FileFormat::Env => "env"@,
        FileFormat::PlainText => "plain-text"@,
    }
}

/// The name of a file format.
pub fn format_name(format: &FileFormat) -> (r: &'static str)
    ensures
        r@ == format_name_s(*format),
{
    match format {
        FileFormat::Json => "JSON",
        FileFormat::Yaml => "YAML",
        FileFormat::Toml => "TOML",
        FileFormat::Dockerfile => "Dockerfile",
        FileFormat::Env => "env",
        FileFormat::PlainText => "plain-text",
    }
}

/// The interval of container ports a port denotes: a range in ascending
/// order, a mapping by its container port.
pub fn normalized_port_interval(port: &PortSpec) -> (r: (u16, u16))
    ensures
        r == match *port {
            PortSpec::Single(v) => (v, v),
            PortSpec::Range(a, b) => if a <= b {
                (a, b)
            } else {
                (b, a)
            },
            PortSpec::Mapping { container, .. } => (container, container),
        },
{
    match port {
        PortSpec::Single(value) => (*value, *value),
        PortSpec::Range(start, end) => if *start <= *end {
            (*start, *end)
        } else {
            (*end, *start)
        },
        PortSpec::Mapping { container, .. } => (*container, *container),
    }
}

/// Every character is an ASCII digit (true of the empty text).
pub open spec fn digits_only(s: Seq<char>) -> bool {
    forall|i: int| 0 <= i < s.len() ==> is_digit(#[trigger] s[i])
}

/// `major.minor` of a version whose first two `.`-pieces are digits only
/// (the minor is `0` when there is none).
pub open spec fn numeric_major_minor_s(raw: Seq<char>) -> Option<Seq<char>> {
    let parts = split_s(raw, '.');
    let major = parts[0];
    let minor = if parts.len() > 1 {
        parts[1]
    } else {
        "0"@
    };
    if digits_only(major) && digits_only(minor) {
        Some(major + "."@ + minor)
    } else {
        None
    }
}

fn all_digit_chars(s: &[char]) -> (r: bool)
    ensures
        r == digits_only(s@),
{
    let mut i: usize = 0;
    while i < s.len()
        invariant
            i <= s.len(),
            forall|k: int| 0 <= k < i ==> is_digit(#[trigger] s@[k]),
        decreases s.len() - i,
    {
        if !('0' <= s[i] && s[i] <= '9') {
            assert(!is_digit(s@[i as int]));
            return false;
        }
        i = i + 1;
    }
    true
}

/// The `major.minor` of a numeric version.
pub fn numeric_major_minor(raw: &str) -> (r: Option<String>)
    ensures
        match r {
            Some(v) => numeric_major_minor_s(raw@) == Some(v@),
            None => numeric_major_minor_s(raw@) is None,
        },
{
    let cs = to_chars(raw);
    let parts = split_chars(cs.as_slice(), '.');
    let ghost pv = vv(parts@);
    proof {
        crate::text::lemma_split_len(raw@, '.');
    }
    assert(pv[0] == parts@[0]@);
    if !all_digit_chars(parts[0].as_slice()) {
        return None;
    }
    let zero = to_chars("0");
    let minor = if parts.len() > 1 {
        assert(pv[1] == parts@[1]@);
        slice_chars(parts[1].as_slice(), 0, parts[1].len())
    } else {
        zero
    };
    proof {
        reveal_strlit("0");
        if parts.len() > 1 {
            assert(parts@[1]@.subrange(0, parts@[1]@.len() as int) == parts@[1]@);
        }
    }
    if !all_digit_chars(minor.as_slice()) {
        return None;
    }
    let mut out = from_chars(parts[0].as_slice());
    crate::text::push_str(&mut out, ".");
    crate::text::push_chars(&mut out, minor.as_slice());
    Some(out)
}

/// A version token of digits and dots with at least one digit.
pub open spec fn numeric_version_token_s(raw: Seq<char>) -> bool {
    raw.len() > 0 && (forall|i: int| 0 <= i < raw.len() ==> is_digit(#[trigger] raw[i]) || raw[i] == '.')
        && exists|i: int| 0 <= i < raw.len() && is_digit(#[trigger] raw[i])
}

/// Whether a token is digits and dots, with at least one digit.
pub fn is_numeric_version_token(raw: &str) -> (r: bool)
    ensures
        r == numeric_version_token_s(raw@),
{
    let cs = to_chars(raw);
    if cs.len() == 0 {
        return false;
    }
    let mut any = false;
    let mut i: usize = 0;
    while i < cs.len()
        invariant
            i <= cs.len(),
            cs@ == raw@,
            forall|k: int| 0 <= k < i ==> is_digit(#[trigger] cs@[k]) || cs@[k] == '.',
            any == exists|k: int| 0 <= k < i && is_digit(#[trigger] cs@[k]),
        decreases cs.len() - i,
    {
        let c = cs[i];
        if !(('0' <= c && c <= '9') || c == '.') {
            assert(!(is_digit(cs@[i as int]) || cs@[i as int] == '.'));
            return false;
        }
        if '0' <= c && c <= '9' {
            assert(is_digit(cs@[i as int]));
            any = true;
        }
        i = i + 1;
    }
    any
}


/// The interval of container ports of a port specification.
pub open spec fn port_interval_s(p: PortSpec) -> (u16, u16) {
    match p {
        PortSpec::Single(v) => (v, v),
        PortSpec::Range(a, b) => if a <= b {
            (a, b)
        } else {
            (b, a)
        },
        PortSpec::Mapping { container, .. } => (container, container),
    }
}

/// Two versions are interchangeable as a fix winner: the same kind of
/// specification with the same parts (unparsed texts up to surrounding
/// whitespace).
pub open spec fn winner_versions_equivalent_s(a: VersionView, b: VersionView) -> bool {
    match (a, b) {
        (VersionView::Exact(x), VersionView::Exact(y)) => x == y,
        (VersionView::Partial(m1, n1), VersionView::Partial(m2, n2)) => m1 == m2 && n1 == n2,
        (VersionView::Range(x), VersionView::Range(y)) => x == y,
        (VersionView::DockerTag(v1, t1), VersionView::DockerTag(v2, t2)) => v1 == v2 && t1 == t2,
        (VersionView::Unparsed(x), VersionView::Unparsed(y)) => trim_s(x) == trim_s(y),
        _ => false,
    }
}

/// Two values are interchangeable as a fix winner: equivalent versions,
/// ports over the same container interval, equal booleans or equal
/// strings.
pub open spec fn winner_values_equivalent_s(a: SemanticType, b: SemanticType) -> bool {
    match (a, b) {
        (SemanticType::Version(x), SemanticType::Version(y)) => winner_versions_equivalent_s(x@, y@),
        (SemanticType::Port(x), SemanticType::Port(y)) => port_interval_s(x) == port_interval_s(y),
        (SemanticType::Boolean(x), SemanticType::Boolean(y)) => x == y,
        (SemanticType::StringValue(x), SemanticType::StringValue(y)) => x@ == y@,
        _ => false,
    }
}

fn opt_str_eq(a: &Option<String>, b: &Option<String>) -> (r: bool)
    ensures
        r == (crate::model::semantic_type::opt_view(*a) == crate::model::semantic_type::opt_view(*b)),
{
    match (a, b) {
        (Some(x), Some(y)) => str_eq(x.as_str(), y.as_str()),
        (None, None) => true,
        _ => false,
    }
}

fn trimmed_eq(a: &str, b: &str) -> (r: bool)
    ensures
        r == (trim_s(a@) == trim_s(b@)),
{
    let x = trim_chars(to_chars(a).as_slice());
    let y = trim_chars(to_chars(b).as_slice());
    crate::text::chars_eq(x.as_slice(), y.as_slice())
}

/// Whether two versions are interchangeable as a fix winner.
pub fn winner_versions_equivalent(a: &VersionSpec, b: &VersionSpec) -> (r: bool)
    ensures
        r == winner_versions_equivalent_s(a@, b@),
{
    match (a, b) {
        (VersionSpec::Exact(x), VersionSpec::Exact(y)) => {
            x.major == y.major && x.minor == y.minor && x.patch == y.patch && str_eq(x.pre.as_str(), y.pre.as_str())
                && str_eq(x.build.as_str(), y.build.as_str())
        },
        (VersionSpec::Partial { major: m1, minor: n1 }, VersionSpec::Partial { major: m2, minor: n2 }) => {
            *m1 == *m2 && match (n1, n2) {
                (Some(p), Some(q)) => *p == *q,
                (None, None) => true,
                _ => false,
            }
        },
        (VersionSpec::Range(x), VersionSpec::Range(y)) => str_eq(x.as_str(), y.as_str()),
        (
            VersionSpec::DockerTag { version: v1, variant: t1 },
            VersionSpec::DockerTag { version: v2, variant: t2 },
        ) => str_eq(v1.as_str(), v2.as_str()) && opt_str_eq(t1, t2),
        (VersionSpec::Unparsed(x), VersionSpec::Unparsed(y)) => trimmed_eq(x.as_str(), y.as_str()),
        _ => false,
    }
}

/// Whether two values are interchangeable as a fix winner.
pub fn winner_values_equivalent(a: &SemanticType, b: &SemanticType) -> (r: bool)
    ensures
        r == winner_values_equivalent_s(*a, *b),
{
    match (a, b) {
        (SemanticType::Version(x), SemanticType::Version(y)) => winner_versions_equivalent(x, y),
        (SemanticType::Port(x), SemanticType::Port(y)) => {
            let (p, q) = normalized_port_interval(x);
            let (u, v) = normalized_port_interval(y);
            p == u && q == v
        },
        (SemanticType::Boolean(x), SemanticType::Boolean(y)) => *x == *y,
        (SemanticType::StringValue(x), SemanticType::StringValue(y)) => str_eq(x.as_str(), y.as_str()),
        _ => false,
    }
}

/// Whether every two of the assertions have interchangeable values.
pub fn all_values_mutually_equivalent(assertions: &[&ConfigAssertion]) -> (r: bool)
    ensures
        r == forall|i: int, j: int|
            0 <= i < j < assertions@.len() ==> winner_values_equivalent_s(
                #[trigger] assertions@[i].value,
                #[trigger] assertions@[j].value,
            ),
{
    let mut i: usize = 0;
    while i < assertions.len()
        invariant
            i <= assertions.len(),
            forall|p: int, q: int|
                0 <= p < i && p < q < assertions@.len() ==> winner_values_equivalent_s(
                    #[trigger] assertions@[p].value,
                    #[trigger] assertions@[q].value,
                ),
        decreases assertions.len() - i,
    {
        let mut j: usize = i + 1;
        while j < assertions.len()
            invariant
                i < assertions.len(),
                i + 1 <= j <= assertions.len(),
                forall|p: int, q: int|
                    0 <= p < i && p < q < assertions@.len() ==> winner_values_equivalent_s(
                        #[trigger] assertions@[p].value,
                        #[trigger] assertions@[q].value,
                    ),
                forall|q: int| i < q < j ==> winner_values_equivalent_s(assertions@[i as int].value, #[trigger] assertions@[q].value),
            decreases assertions.len() - j,
        {
            if !winner_values_equivalent(&assertions[i].value, &assertions[j].value) {
                return false;
            }
            j = j + 1;
        }
        i = i + 1;
    }
    true
}

fn owned_path(path: &[&str]) -> (r: Vec<String>)
    ensures
        r@.len() == path@.len(),
        forall|k: int| 0 <= k < path@.len() ==> #[trigger] r@[k]@ == path@[k]@,
{
    let mut out: Vec<String> = Vec::new();
    let mut i: usize = 0;
    while i < path.len()
        invariant
            i <= path.len(),
            out@.len() == i,
            forall|k: int| 0 <= k < i ==> #[trigger] out@[k]@ == path@[k]@,
        decreases path.len() - i,
    {
        out.push(String::from_str(path[i]));
        i = i + 1;
    }
    out
}

/// The message when a JSON field cannot take the winner.
pub open spec fn json_field_message() -> Seq<char> {
    "winner cannot be represented safely in this JSON field; manual update required"@
}

/// A fix of the JSON string at `path` to the winner's declared version
/// string: the new value and the edit, or why it cannot be made.
pub fn build_json_string_fix(winner: &ConfigAssertion, path: &[&str]) -> (r: Result<(String, FixOperation), String>)
    ensures
        match r {
            Ok((v, op)) => declared_s(winner.value, winner.raw_value@) == Some(v@) && (op matches FixOperation::ReplaceJsonString {
                path: p,
                value,
            } && value@ == v@ && p@.len() == path@.len() && forall|k: int|
                0 <= k < path@.len() ==> #[trigger] p@[k]@ == path@[k]@),
            Err(e) => declared_s(winner.value, winner.raw_value@) is None && e@ == json_field_message(),
        },
{
    match render_declared_version_string(winner) {
        Some(value) => {
            let p = owned_path(path);
            Ok((value.clone(), FixOperation::ReplaceJsonString { path: p, value }))
        },
        None => Err(String::from_str("winner cannot be represented safely in this JSON field; manual update required")),
    }
}

/// A fix of the JSON string at `path` to the winner's exact version token:
/// the new value and the edit, or why it cannot be made.
pub fn build_exact_json_string_fix(winner: &ConfigAssertion, path: &[&str]) -> (r: Result<(String, FixOperation), String>)
    ensures
        match r {
            Ok((v, op)) => exactish_s(winner.value, winner.raw_value@) == Some(v@) && (op matches FixOperation::ReplaceJsonString {
                path: p,
                value,
            } && value@ == v@ && p@.len() == path@.len() && forall|k: int|
                0 <= k < path@.len() ==> #[trigger] p@[k]@ == path@[k]@),
            Err(e) => exactish_s(winner.value, winner.raw_value@) is None && e@ == json_field_message(),
        },
{
    match render_exactish_version_token(winner) {
        Some(value) => {
            let p = owned_path(path);
            Ok((value.clone(), FixOperation::ReplaceJsonString { path: p, value }))
        },
        None => Err(String::from_str("winner cannot be represented safely in this JSON field; manual update required")),
    }
}

/// How a target is named in messages: its format, then its key path when
/// it has one.
pub open spec fn target_name_s(target: ConfigAssertion, format: FileFormat) -> Seq<char> {
    if target.source.key_path@.len() > 0 {
        format_name_s(format) + " "@ + target.source.key_path@
    } else {
        format_name_s(format)
    }
}

/// How a target is named in messages.
pub fn extractor_target_name(target: &ConfigAssertion, format: &FileFormat) -> (r: String)
    ensures
        r@ == target_name_s(*target, *format),
{
    let mut out = String::from_str(format_name(format));
    if to_chars(target.source.key_path.as_str()).len() > 0 {
        crate::text::push_str(&mut out, " ");
        crate::text::push_str(&mut out, target.source.key_path.as_str());
    }
    out
}

} // verus!
