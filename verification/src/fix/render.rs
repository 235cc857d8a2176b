//! How a winning value is written into another file: exact version tokens,
//! `major.minor` versions, .NET target frameworks, Docker tags and ports.
use vstd::prelude::*;
use vstd::string::*;
use super::planner::{is_numeric_version_token, numeric_major_minor, numeric_major_minor_s, numeric_version_token_s};
use crate::model::semantic_type::{exact_text_s, VersionView};
use crate::model::{ConfigAssertion, PortSpec, SemanticType, VersionSpec};
use crate::text::{
    decimal_s, find_char, find_s, lemma_find_none, from_chars, push_chars, push_decimal, push_str, slice_chars, starts_with_chars,
    starts_with_s, to_chars, trim_bounds, trim_chars, trim_s, trim_start_s,
};

verus! {

/// How a version file spells the version it holds.
#[derive(Debug, Clone, Copy, PartialEq, Eq, Structural)]
pub enum ExactFileFlavor {
    /// The bare version.
    Plain,
    /// A leading `v` is kept.
    Node,
    /// A leading `ruby-` is kept.
    Ruby,
}

/// The text, when it is a numeric version token.
pub open spec fn numeric_token_or_none(t: Seq<char>) -> Option<Seq<char>> {
    if numeric_version_token_s(t) {
        Some(t)
    } else {
        None
    }
}

/// The winner as an exact version token: the exact version, `major.minor`
/// or `major`, the Docker tag's version, or a range or unparsed text that
/// is digits and dots.
pub open spec fn exactish_s(value: SemanticType, raw: Seq<char>) -> Option<Seq<char>> {
    match value {
        SemanticType::Version(x) => match x@ {
            VersionView::Exact(e) => Some(exact_text_s(e)),
            VersionView::Partial(m, minor) => match minor {
                Some(n) => Some(decimal_s(m as nat) + "."@ + decimal_s(n as nat)),
                None => Some(decimal_s(m as nat)),
            },
            VersionView::DockerTag(v, _) => Some(v),
            VersionView::Range(_) => numeric_token_or_none(trim_s(raw)),
            VersionView::Unparsed(u) => numeric_token_or_none(trim_s(u)),
        },
        _ => None,
    }
}

/// The winner as a declared version string: a range as written, a Docker
/// tag's version, else the exact version token.
pub open spec fn declared_s(value: SemanticType, raw: Seq<char>) -> Option<Seq<char>> {
    match value {
        SemanticType::Version(x) => match x@ {
            VersionView::Range(_) => Some(trim_s(raw)),
            VersionView::DockerTag(v, _) => Some(v),
            _ => exactish_s(value, raw),
        },
        _ => None,
    }
}

/// The winner as `major.minor` (a missing minor reads `0`).
pub open spec fn major_minor_s(value: SemanticType, raw: Seq<char>) -> Option<Seq<char>> {
    match value {
        SemanticType::Version(x) => match x@ {
            VersionView::Exact(e) => Some(decimal_s(e.0 as nat) + "."@ + decimal_s(e.1 as nat)),
            VersionView::Partial(m, minor) => match minor {
                Some(n) => Some(decimal_s(m as nat) + "."@ + decimal_s(n as nat)),
                None => Some(decimal_s(m as nat) + ".0"@),
            },
            VersionView::DockerTag(v, _) => numeric_major_minor_s(trim_s(v)),
            VersionView::Unparsed(v) => numeric_major_minor_s(trim_s(v)),
            VersionView::Range(_) => numeric_major_minor_s(trim_s(raw)),
        },
        _ => None,
    }
}

/// `c` and what follows the first `c` of `s`, or nothing without one.
pub open spec fn suffix_from_s(s: Seq<char>, c: char) -> Seq<char> {
    match find_s(s, c) {
        Some(i) => seq![c] + s.skip(i + 1),
        None => Seq::empty(),
    }
}

/// The message when a version file cannot take the winner.
pub open spec fn not_exact_message() -> Seq<char> {
    "winner is not an exact version token, so this file cannot be auto-fixed safely"@
}

/// The value of a version file for the winner, in the file's spelling.
pub open spec fn exact_file_version_s(value: SemanticType, raw: Seq<char>, current: Seq<char>, flavor: ExactFileFlavor) -> Result<
    Seq<char>,
    Seq<char>,
> {
    match exactish_s(value, raw) {
        None => Err(not_exact_message()),
        Some(base) => Ok(
            match flavor {
                ExactFileFlavor::Plain => base,
                ExactFileFlavor::Node => if starts_with_s(trim_start_s(current), "v"@) {
                    "v"@ + base
                } else {
                    base
                },
                ExactFileFlavor::Ruby => if starts_with_s(trim_start_s(current), "ruby-"@) {
                    "ruby-"@ + base
                } else {
                    base
                },
            },
        ),
    }
}

/// The .NET target framework for the winner: `net`, its `major.minor`, and
/// the current value's suffix from its first `-` (after a leading `net`).
pub open spec fn dotnet_target_framework_s(value: SemanticType, raw: Seq<char>, current: Seq<char>) -> Option<Seq<char>> {
    let rest = if starts_with_s(current, "net"@) {
        current.skip(3)
    } else {
        current
    };
    match major_minor_s(value, raw) {
        Some(v) => Some("net"@ + v + suffix_from_s(rest, '-')),
        None => None,
    }
}

/// The Docker tag for the winner: its own tag, or its exact version with
/// the current tag's suffix from the first `-`.
pub open spec fn docker_tag_for_s(value: SemanticType, raw: Seq<char>, current_tag: Seq<char>) -> Option<Seq<char>> {
    match value {
        SemanticType::Version(x) => match x@ {
            VersionView::DockerTag(v, variant) => match variant {
                Some(var) => Some(v + "-"@ + var),
                None => Some(v),
            },
            _ => match exactish_s(value, raw) {
                Some(ver) => Some(ver + suffix_from_s(current_tag, '-')),
                None => None,
            },
        },
        _ => None,
    }
}

/// A winner that is not a Docker tag of its own is written as its exact
/// version followed by the current tag from its first `-` on: the whole
/// variant is kept (`3.11-slim-bookworm` becomes `<version>-slim-bookworm`),
/// and a tag without `-` becomes the bare version.
pub proof fn law_docker_tag_keeps_variant_from_first_dash(value: SemanticType, raw: Seq<char>, current_tag: Seq<char>)
    requires
        value matches SemanticType::Version(x) && !(x@ is DockerTag),
        exactish_s(value, raw) is Some,
    ensures
        match docker_tag_for_s(value, raw, current_tag) {
            Some(t) => {
                let ver = exactish_s(value, raw)->0;
                let rest = t.skip(ver.len() as int);
                let head = current_tag.take(current_tag.len() - rest.len());
                &&& ver.len() <= t.len()
                &&& t.take(ver.len() as int) == ver
                &&& rest.len() <= current_tag.len()
                &&& head + rest == current_tag
                &&& !head.contains('-')
                &&& (rest.len() == 0 || rest[0] == '-')
                &&& (current_tag.contains('-') ==> rest.len() > 0)
            },
            None => false,
        },
{
    let ver = exactish_s(value, raw)->0;
    lemma_find_none(current_tag, '-');
    let t = docker_tag_for_s(value, raw, current_tag)->0;
    match find_s(current_tag, '-') {
        Some(i) => {
            let rest = seq!['-'] + current_tag.skip(i + 1);
            assert(t == ver + rest);
            assert(t.skip(ver.len() as int) =~= rest);
            assert(t.take(ver.len() as int) =~= ver);
            assert(current_tag.take(current_tag.len() - rest.len()) =~= current_tag.take(i));
            assert(current_tag.take(i) + rest =~= current_tag);
        },
        None => {
            assert(t =~= ver + Seq::<char>::empty());
            assert(t.skip(ver.len() as int) =~= Seq::<char>::empty());
            assert(t.take(ver.len() as int) =~= ver);
            assert(current_tag.take(current_tag.len() as int) =~= current_tag);
            assert(current_tag.take(current_tag.len() as int) + Seq::<char>::empty() =~= current_tag);
        },
    }
}

/// A port value as an env or EXPOSE value: the port, the range, or a
/// mapping's container port.
pub open spec fn port_value_s(value: SemanticType) -> Option<Seq<char>> {
    match value {
        SemanticType::Port(p) => match p {
            PortSpec::Single(v) => Some(decimal_s(v as nat)),
            PortSpec::Range(a, b) => Some(decimal_s(a as nat) + "-"@ + decimal_s(b as nat)),
            PortSpec::Mapping { container, .. } => Some(decimal_s(container as nat)),
        },
        _ => None,
    }
}

/// An EXPOSE token for the port, keeping the current token's `/protocol`.
pub open spec fn expose_token_s(value: SemanticType, current: Seq<char>) -> Option<Seq<char>> {
    match port_value_s(value) {
        Some(b) => Some(b + suffix_from_s(current, '/')),
        None => None,
    }
}

fn suffix_from(s: &[char], c: char) -> (r: Vec<char>)
    ensures
        r@ == suffix_from_s(s@, c),
{
    match find_char(s, c) {
        Some(i) => {
            let mut out: Vec<char> = Vec::new();
            out.push(c);
            let mut j: usize = i + 1;
            while j < s.len()
                invariant
                    i < j <= s.len(),
                    out@ == seq![c] + s@.subrange(i + 1, j as int),
                decreases s.len() - j,
            {
                out.push(s[j]);
                j = j + 1;
                assert(out@ =~= seq![c] + s@.subrange(i + 1, j as int));
            }
            assert(s@.subrange(i + 1, s.len() as int) == s@.skip(i + 1));
            out
        },
        None => Vec::new(),
    }
}

fn trimmed(s: &str) -> (r: String)
    ensures
        r@ == trim_s(s@),
{
    let cs = to_chars(s);
    let t = trim_chars(cs.as_slice());
    from_chars(t.as_slice())
}

fn numeric_token_or_none_of(t: String) -> (r: Option<String>)
    ensures
        match r {
            Some(v) => numeric_token_or_none(t@) == Some(v@),
            None => numeric_token_or_none(t@) is None,
        },
{
    if is_numeric_version_token(t.as_str()) {
        Some(t)
    } else {
        None
    }
}

fn partial_text(major: u64, minor: Option<u64>, zero_minor: bool) -> (r: String)
    ensures
        r@ == match minor {
            Some(n) => decimal_s(major as nat) + "."@ + decimal_s(n as nat),
            None => if zero_minor {
                decimal_s(major as nat) + ".0"@
            } else {
                decimal_s(major as nat)
            },
        },
{
    let mut out = String::new();
    push_decimal(&mut out, major);
    match minor {
        Some(n) => {
            push_str(&mut out, ".");
            push_decimal(&mut out, n);
        },
        None => {
            if zero_minor {
                push_str(&mut out, ".0");
            }
        },
    }
    out
}

/// The winner as an exact version token, when it is one.
pub fn render_exactish_version_token(winner: &ConfigAssertion) -> (r: Option<String>)
    ensures
        match r {
            Some(v) => exactish_s(winner.value, winner.raw_value@) == Some(v@),
            None => exactish_s(winner.value, winner.raw_value@) is None,
        },
{
    match &winner.value {
        SemanticType::Version(x) => match x {
            VersionSpec::Exact(v) => Some(v.to_text()),
            VersionSpec::Partial { major, minor } => Some(partial_text(*major, *minor, false)),
            VersionSpec::DockerTag { version, .. } => Some(version.clone()),
            VersionSpec::Range(_) => numeric_token_or_none_of(trimmed(winner.raw_value.as_str())),
            VersionSpec::Unparsed(u) => numeric_token_or_none_of(trimmed(u.as_str())),
        },
        _ => None,
    }
}

/// The winner as a version string for a declared field: a range as
/// written, a Docker tag's version, else the exact version token.
pub fn render_declared_version_string(winner: &ConfigAssertion) -> (r: Option<String>)
    ensures
        match r {
            Some(v) => declared_s(winner.value, winner.raw_value@) == Some(v@),
            None => declared_s(winner.value, winner.raw_value@) is None,
        },
{
    match &winner.value {
        SemanticType::Version(x) => match x {
            VersionSpec::Range(_) => Some(trimmed(winner.raw_value.as_str())),
            VersionSpec::DockerTag { version, .. } => Some(version.clone()),
            _ => render_exactish_version_token(winner),
        },
        _ => None,
    }
}

/// The value of a version file for the winner, keeping the file's `v` or
/// `ruby-` spelling.
pub fn render_exact_file_version(winner: &ConfigAssertion, current_raw: &str, flavor: ExactFileFlavor) -> (r: Result<
    String,
    String,
>)
    ensures
        match r {
            Ok(v) => exact_file_version_s(winner.value, winner.raw_value@, current_raw@, flavor) == Ok::<
                Seq<char>,
                Seq<char>,
            >(v@),
            Err(e) => exact_file_version_s(winner.value, winner.raw_value@, current_raw@, flavor) == Err::<
                Seq<char>,
                Seq<char>,
            >(e@),
        },
{
    let base = match render_exactish_version_token(winner) {
        Some(b) => b,
        None => {
            return Err(String::from_str("winner is not an exact version token, so this file cannot be auto-fixed safely"));
        },
    };
    let cs = to_chars(current_raw);
    let (a, _) = trim_bounds(cs.as_slice());
    let lead = slice_chars(cs.as_slice(), a, cs.len());
    assert(lead@ == trim_start_s(current_raw@));
    match flavor {
        ExactFileFlavor::Plain => Ok(base),
        ExactFileFlavor::Node => {
            let v = to_chars("v");
            if starts_with_chars(lead.as_slice(), v.as_slice()) {
                let mut out = String::from_str("v");
                push_str(&mut out, base.as_str());
                Ok(out)
            } else {
                Ok(base)
            }
        },
        ExactFileFlavor::Ruby => {
            let p = to_chars("ruby-");
            if starts_with_chars(lead.as_slice(), p.as_slice()) {
                let mut out = String::from_str("ruby-");
                push_str(&mut out, base.as_str());
                Ok(out)
            } else {
                Ok(base)
            }
        },
    }
}

/// The winner as `major.minor`.
pub fn render_major_minor_version(winner: &ConfigAssertion) -> (r: Option<String>)
    ensures
        match r {
            Some(v) => major_minor_s(winner.value, winner.raw_value@) == Some(v@),
            None => major_minor_s(winner.value, winner.raw_value@) is None,
        },
{
    match &winner.value {
        SemanticType::Version(x) => match x {
            VersionSpec::Exact(v) => Some(partial_text(v.major, Some(v.minor), false)),
            VersionSpec::Partial { major, minor } => Some(partial_text(*major, *minor, true)),
            VersionSpec::DockerTag { version, .. } => numeric_major_minor(trimmed(version.as_str()).as_str()),
            VersionSpec::Unparsed(version) => numeric_major_minor(trimmed(version.as_str()).as_str()),
            VersionSpec::Range(_) => numeric_major_minor(trimmed(winner.raw_value.as_str()).as_str()),
        },
        _ => None,
    }
}

/// The .NET target framework for the winner, keeping the current value's
/// platform suffix.
pub fn render_dotnet_target_framework(winner: &ConfigAssertion, current_raw: &str) -> (r: Option<String>)
    ensures
        match r {
            Some(v) => dotnet_target_framework_s(winner.value, winner.raw_value@, current_raw@) == Some(v@),
            None => dotnet_target_framework_s(winner.value, winner.raw_value@, current_raw@) is None,
        },
{
    let version = match render_major_minor_version(winner) {
        Some(v) => v,
        None => return None,
    };
    let cs = to_chars(current_raw);
    let net = to_chars("net");
    let rest = if starts_with_chars(cs.as_slice(), net.as_slice()) {
        proof {
            reveal_strlit("net");
        }
        slice_chars(cs.as_slice(), 3, cs.len())
    } else {
        cs
    };
    proof {
        reveal_strlit("net");
        if starts_with_s(current_raw@, "net"@) {
            assert(current_raw@.subrange(3, current_raw@.len() as int) == current_raw@.skip(3));
        }
    }
    let suffix = suffix_from(rest.as_slice(), '-');
    let mut out = String::from_str("net");
    push_str(&mut out, version.as_str());
    push_chars(&mut out, suffix.as_slice());
    Some(out)
}

/// The Docker tag for the winner, keeping the current tag's variant
/// suffix when the winner has no tag of its own.
pub fn render_docker_tag(winner: &ConfigAssertion, current_tag: &str) -> (r: Option<String>)
    ensures
        match r {
            Some(v) => docker_tag_for_s(winner.value, winner.raw_value@, current_tag@) == Some(v@),
            None => docker_tag_for_s(winner.value, winner.raw_value@, current_tag@) is None,
        },
{
    match &winner.value {
        SemanticType::Version(x) => match x {
            VersionSpec::DockerTag { version, variant } => match variant {
                Some(var) => {
                    let mut out = version.clone();
                    push_str(&mut out, "-");
                    push_str(&mut out, var.as_str());
                    Some(out)
                },
                None => Some(version.clone()),
            },
            _ => match render_exactish_version_token(winner) {
                Some(ver) => {
                    let cs = to_chars(current_tag);
                    let suffix = suffix_from(cs.as_slice(), '-');
                    let mut out = ver;
                    push_chars(&mut out, suffix.as_slice());
                    Some(out)
                },
                None => None,
            },
        },
        _ => None,
    }
}

/// A port value as an env or EXPOSE value.
pub fn render_port_value(value: &SemanticType) -> (r: Option<String>)
    ensures
        match r {
            Some(v) => port_value_s(*value) == Some(v@),
            None => port_value_s(*value) is None,
        },
{
    match value {
        SemanticType::Port(p) => {
            let mut out = String::new();
            match p {
                PortSpec::Single(v) => push_decimal(&mut out, *v as u64),
                PortSpec::Range(a, b) => {
                    push_decimal(&mut out, *a as u64);
                    push_str(&mut out, "-");
                    push_decimal(&mut out, *b as u64);
                },
                PortSpec::Mapping { container, .. } => push_decimal(&mut out, *container as u64),
            }
            Some(out)
        },
        _ => None,
    }
}

/// An EXPOSE token for the port, keeping the current token's protocol.
pub fn render_docker_expose_token(value: &SemanticType, current_token: &str) -> (r: Option<String>)
    ensures
        match r {
            Some(v) => expose_token_s(*value, current_token@) == Some(v@),
            None => expose_token_s(*value, current_token@) is None,
        },
{
    let base = match render_port_value(value) {
        Some(b) => b,
        None => return None,
    };
    let cs = to_chars(current_token);
    let suffix = suffix_from(cs.as_slice(), '/');
    let mut out = base;
    push_chars(&mut out, suffix.as_slice());
    Some(out)
}

} // verus!
