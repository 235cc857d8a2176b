//! Runtime versions and ports from Terraform (`.tf`) files, read from the
//! text of `runtime = "..."`, `image = "..."`, `container_port = N` and
//! `port = N` assignments.
use vstd::prelude::*;
use vstd::string::*;
use super::catalog::{TerraformPortExtractor, TerraformVersionExtractor};
use super::image::{find_line_in_text, line_of_s, split_image_tag, split_image_tag_s};
use super::port::port_assertion;
use super::runtime::{
    dotnet_runtime_version_s, extract_dotnet_version, extract_go_version, extract_java_version,
    extract_nodejs_version, extract_python_version, extract_ruby_version, go_runtime_version_s,
    nodejs_runtime_version_s, strip_prefix_s,
};
use super::versions::{has_version, located};
use crate::model::{Authority, ConfigAssertion, PortSpec, SemanticConcept, SemanticType, SourceLocation};
use crate::model::semantic_type::opt_view;
use crate::parse::ParsedFile;
use crate::pattern::{group_s, match_group, matches_view, regex_all_captures, regex_all_captures_result};
use crate::text::{decimal_s, ends_with_s, parse_uint, parse_uint_s, push_decimal, starts_with_s, str_ends_with, str_eq, str_starts_with, to_chars};

verus! {

/// A `runtime = "..."` assignment (AWS Lambda, Cloud Functions).
pub const TF_RUNTIME_PATTERN: &'static str = r#"(?i)runtime\s*=\s*"([^"]+)""#;

/// An `image = "..."` assignment (container resources).
pub const TF_IMAGE_PATTERN: &'static str = r#"(?i)image\s*=\s*"([^"]+)""#;

/// A `container_port = N` assignment.
pub const TF_CONTAINER_PORT_PATTERN: &'static str = r#"(?i)container_port\s*=\s*(\d+)"#;

/// A `host_port = N` or `port = N` assignment.
pub const TF_PORT_PATTERN: &'static str = r#"(?i)(?:host_port|port)\s*=\s*(\d+)"#;

/// The runtimes that Terraform files name.
#[derive(Debug, Clone, Copy, PartialEq, Eq, Structural)]
pub enum TfRuntime {
    Node,
    Python,
    Java,
    Ruby,
    Go,
    Dotnet,
}

/// The concept of a runtime's version.
pub open spec fn tf_concept_id(k: TfRuntime) -> Seq<char> {
    match k {
        TfRuntime::Node => "node-version"@,
        TfRuntime::Python => "python-version"@,
        TfRuntime::Java => "java-version"@,
        TfRuntime::Ruby => "ruby-version"@,
        TfRuntime::Go => "go-version"@,
        TfRuntime::Dotnet => "dotnet-version"@,
    }
}

pub(crate) fn tf_concept(k: TfRuntime) -> (r: SemanticConcept)
    ensures
        r.id@ == tf_concept_id(k),
{
    match k {
        TfRuntime::Node => SemanticConcept::node_version(),
        TfRuntime::Python => SemanticConcept::python_version(),
        TfRuntime::Java => SemanticConcept::java_version(),
        TfRuntime::Ruby => SemanticConcept::ruby_version(),
        TfRuntime::Go => SemanticConcept::go_version(),
        TfRuntime::Dotnet => SemanticConcept::dotnet_version(),
    }
}

/// The runtime and version of a Lambda runtime identifier
/// (`nodejs20.x`, `python3.12`, `java21`, `ruby3.3`, `go1.x`, `dotnet8`),
/// by the first prefix, in that order, that the identifier starts with and
/// whose version it yields.
pub open spec fn lambda_runtime_s(rt: Seq<char>) -> Option<(TfRuntime, Seq<char>)> {
    if starts_with_s(rt, "nodejs"@) && nodejs_runtime_version_s(rt) is Some {
        Some((TfRuntime::Node, nodejs_runtime_version_s(rt)->0))
    } else if starts_with_s(rt, "python"@) && strip_prefix_s(rt, "python"@) is Some {
        Some((TfRuntime::Python, strip_prefix_s(rt, "python"@)->0))
    } else if starts_with_s(rt, "java"@) && strip_prefix_s(rt, "java"@) is Some {
        Some((TfRuntime::Java, strip_prefix_s(rt, "java"@)->0))
    } else if starts_with_s(rt, "ruby"@) && strip_prefix_s(rt, "ruby"@) is Some {
        Some((TfRuntime::Ruby, strip_prefix_s(rt, "ruby"@)->0))
    } else if starts_with_s(rt, "go"@) && go_runtime_version_s(rt) is Some {
        Some((TfRuntime::Go, go_runtime_version_s(rt)->0))
    } else if starts_with_s(rt, "dotnet"@) && dotnet_runtime_version_s(rt) is Some {
        Some((TfRuntime::Dotnet, dotnet_runtime_version_s(rt)->0))
    } else {
        None
    }
}

/// The image name is the known name or ends with `/` and it.
pub open spec fn names_image(name: Seq<char>, known: Seq<char>) -> bool {
    name == known || ends_with_s(name, "/"@ + known)
}

/// The runtime and tag of a container image of a known runtime image
/// (`node`, `python`, `golang`, `openjdk`, `eclipse-temurin`, `ruby`).
pub open spec fn image_runtime_s(image: Seq<char>) -> Option<(TfRuntime, Seq<char>)> {
    match split_image_tag_s(image) {
        None => None,
        Some((name, tag)) => if names_image(name, "node"@) {
            Some((TfRuntime::Node, tag))
        } else if names_image(name, "python"@) {
            Some((TfRuntime::Python, tag))
        } else if names_image(name, "golang"@) {
            Some((TfRuntime::Go, tag))
        } else if names_image(name, "openjdk"@) {
            Some((TfRuntime::Java, tag))
        } else if names_image(name, "eclipse-temurin"@) {
            Some((TfRuntime::Java, tag))
        } else if names_image(name, "ruby"@) {
            Some((TfRuntime::Ruby, tag))
        } else {
            None
        },
    }
}

/// A version found: runtime, version text, line and key path.
pub type TfFound = (TfRuntime, Seq<char>, usize, Seq<char>);

/// The versions of the matches of a pattern, each read by `read` from
/// group 1, at the line of the first line that holds the whole match.
pub open spec fn found_s(
    ms: Seq<Seq<Option<Seq<char>>>>,
    raw: Seq<char>,
    images: bool,
) -> Seq<TfFound>
    decreases ms.len(),
{
    if ms.len() == 0 {
        Seq::empty()
    } else {
        let rest = found_s(ms.drop_last(), raw, images);
        let m = ms.last();
        match (group_s(m, 1), group_s(m, 0)) {
            (Some(v), Some(whole)) => match (if images {
                image_runtime_s(v)
            } else {
                lambda_runtime_s(v)
            }) {
                Some((k, ver)) => rest.push(
                    (k, ver, line_of_s(raw, whole) as usize, if images {
                        "image"@
                    } else {
                        "runtime"@
                    }),
                ),
                None => rest,
            },
            _ => rest,
        }
    }
}

/// The versions of a Terraform file: the runtimes, then the images.
pub open spec fn tf_versions_s(raw: Seq<char>) -> Seq<TfFound> {
    (match regex_all_captures_result(TF_RUNTIME_PATTERN@, raw) {
        Some(ms) => found_s(ms, raw, false),
        None => Seq::empty(),
    }) + (match regex_all_captures_result(TF_IMAGE_PATTERN@, raw) {
        Some(ms) => found_s(ms, raw, true),
        None => Seq::empty(),
    })
}

/// The assertion of a found version.
pub open spec fn tf_version_ok(a: ConfigAssertion, f: TfFound, file: Seq<char>) -> bool {
    &&& located(a, tf_concept_id(f.0), f.1, file, f.2, f.3, Authority::Enforced, "iac-terraform-version"@)
    &&& has_version(a, f.1)
}

pub(crate) fn names_image_exec(name: &str, known: &str) -> (r: bool)
    ensures
        r == names_image(name@, known@),
{
    let mut slash_known = String::from_str("/");
    crate::text::push_str(&mut slash_known, known);
    str_eq(name, known) || str_ends_with(name, slash_known.as_str())
}

fn lambda_runtime(rt: &str) -> (r: Option<(TfRuntime, String)>)
    ensures
        match r {
            Some((k, v)) => lambda_runtime_s(rt@) == Some((k, v@)),
            None => lambda_runtime_s(rt@) is None,
        },
{
    if str_starts_with(rt, "nodejs") {
        if let Some(v) = extract_nodejs_version(rt) {
            return Some((TfRuntime::Node, v));
        }
    }
    if str_starts_with(rt, "python") {
        if let Some(v) = extract_python_version(rt) {
            return Some((TfRuntime::Python, v));
        }
    }
    if str_starts_with(rt, "java") {
        if let Some(v) = extract_java_version(rt) {
            return Some((TfRuntime::Java, v));
        }
    }
    if str_starts_with(rt, "ruby") {
        if let Some(v) = extract_ruby_version(rt) {
            return Some((TfRuntime::Ruby, v));
        }
    }
    if str_starts_with(rt, "go") {
        if let Some(v) = extract_go_version(rt) {
            return Some((TfRuntime::Go, v));
        }
    }
    if str_starts_with(rt, "dotnet") {
        if let Some(v) = extract_dotnet_version(rt) {
            return Some((TfRuntime::Dotnet, v));
        }
    }
    None
}

fn image_runtime(image: &str) -> (r: Option<(TfRuntime, String)>)
    ensures
        match r {
            Some((k, v)) => image_runtime_s(image@) == Some((k, v@)),
            None => image_runtime_s(image@) is None,
        },
{
    let (name, tag) = match split_image_tag(image) {
        Some(p) => p,
        None => return None,
    };
    let n = name.as_str();
    if names_image_exec(n, "node") {
        Some((TfRuntime::Node, tag))
    } else if names_image_exec(n, "python") {
        Some((TfRuntime::Python, tag))
    } else if names_image_exec(n, "golang") {
        Some((TfRuntime::Go, tag))
    } else if names_image_exec(n, "openjdk") {
        Some((TfRuntime::Java, tag))
    } else if names_image_exec(n, "eclipse-temurin") {
        Some((TfRuntime::Java, tag))
    } else if names_image_exec(n, "ruby") {
        Some((TfRuntime::Ruby, tag))
    } else {
        None
    }
}

fn push_found(
    ms: &Vec<Vec<Option<String>>>,
    raw: &str,
    images: bool,
    file: &str,
    out: &mut Vec<ConfigAssertion>,
    base: Ghost<Seq<TfFound>>,
)
    requires
        old(out)@.len() == base@.len(),
        forall|k: int| 0 <= k < base@.len() ==> tf_version_ok(#[trigger] old(out)@[k], base@[k], file@),
    ensures
        ({
            let all = base@ + found_s(matches_view(ms@), raw@, images);
            &&& final(out)@.len() == all.len()
            &&& forall|k: int| 0 <= k < all.len() ==> tf_version_ok(#[trigger] final(out)@[k], all[k], file@)
        }),
{
    let ghost mv = matches_view(ms@);
    let mut i: usize = 0;
    while i < ms.len()
        invariant
            i <= ms.len(),
            mv == matches_view(ms@),
            out@.len() == (base@ + found_s(mv.take(i as int), raw@, images)).len(),
            forall|k: int|
                0 <= k < out@.len() ==> tf_version_ok(
                    #[trigger] out@[k],
                    (base@ + found_s(mv.take(i as int), raw@, images))[k],
                    file@,
                ),
        decreases ms.len() - i,
    {
        proof {
            assert(mv.take(i + 1).drop_last() == mv.take(i as int));
            assert(mv.take(i + 1).last() == mv[i as int]);
        }
        let ghost before = base@ + found_s(mv.take(i as int), raw@, images);
        let g1 = match_group(&ms[i], 1);
        let g0 = match_group(&ms[i], 0);
        match (g1, g0) {
            (Some(v), Some(whole)) => {
                let kv = if images {
                    image_runtime(v.as_str())
                } else {
                    lambda_runtime(v.as_str())
                };
                match kv {
                    Some((k, ver)) => {
                        let line = find_line_in_text(raw, whole.as_str());
                        let key = if images {
                            String::from_str("image")
                        } else {
                            String::from_str("runtime")
                        };
                        let a = ConfigAssertion::new(
                            tf_concept(k),
                            SemanticType::Version(crate::model::parse_version(ver.as_str())),
                            ver,
                            SourceLocation { file: String::from_str(file), line, column: 0, key_path: key },
                            Authority::Enforced,
                            "iac-terraform-version",
                        );
                        let ghost prev = out@;
                        out.push(a);
                        proof {
                            let after = base@ + found_s(mv.take(i + 1), raw@, images);
                            assert(after =~= before.push(after.last()));
                            assert forall|k2: int| 0 <= k2 < out@.len() implies tf_version_ok(
                                #[trigger] out@[k2],
                                after[k2],
                                file@,
                            ) by {
                                if k2 < prev.len() {
                                    assert(out@[k2] == prev[k2]);
                                    assert(after[k2] == before[k2]);
                                }
                            }
                        }
                    },
                    None => {
                        proof {
                            assert(base@ + found_s(mv.take(i + 1), raw@, images) == before);
                        }
                    },
                }
            },
            _ => {
                proof {
                    assert(base@ + found_s(mv.take(i + 1), raw@, images) == before);
                }
            },
        }
        i = i + 1;
    }
    assert(mv.take(ms.len() as int) == mv);
}

impl TerraformVersionExtractor {
    /// The runtime versions of a Terraform file's text: every `runtime =
    /// "..."` that names a known Lambda runtime, then every `image = "..."`
    /// of a known runtime image, each at the first line that holds its
    /// assignment.
    pub fn extract(&self, file: &ParsedFile) -> (r: Vec<ConfigAssertion>)
        ensures
            r@.len() == tf_versions_s(file.raw_text@).len(),
            forall|k: int|
                0 <= k < r@.len() ==> tf_version_ok(#[trigger] r@[k], tf_versions_s(file.raw_text@)[k], file.path@),
    {
        let raw = file.raw_text.as_str();
        let mut out: Vec<ConfigAssertion> = Vec::new();
        let ghost empty = Seq::<TfFound>::empty();
        let ghost first = match regex_all_captures_result(TF_RUNTIME_PATTERN@, raw@) {
            Some(ms) => found_s(ms, raw@, false),
            None => Seq::empty(),
        };
        match regex_all_captures(TF_RUNTIME_PATTERN, raw) {
            Some(ms) => {
                push_found(&ms, raw, false, file.path.as_str(), &mut out, Ghost(empty));
                assert(empty + found_s(matches_view(ms@), raw@, false) =~= first);
            },
            None => {},
        }
        let ghost second = match regex_all_captures_result(TF_IMAGE_PATTERN@, raw@) {
            Some(ms) => found_s(ms, raw@, true),
            None => Seq::empty(),
        };
        match regex_all_captures(TF_IMAGE_PATTERN, raw) {
            Some(ms) => {
                push_found(&ms, raw, true, file.path.as_str(), &mut out, Ghost(first));
            },
            None => {
                assert(first + second =~= first);
            },
        }
        out
    }
}

// ---------------------------------------------------------------------
// Ports
// ---------------------------------------------------------------------

/// A port found: the port, its line, its key path and its authority.
pub type TfPort = (u16, usize, Seq<char>, Authority);

/// The ports of the matches of a pattern, added to `base`: each group 1
/// that reads as a `u16`, at the first line that holds the whole match;
/// with `dedup`, a port at a line that an earlier port already has is
/// left out.
pub open spec fn ports_s(
    ms: Seq<Seq<Option<Seq<char>>>>,
    raw: Seq<char>,
    base: Seq<TfPort>,
    key: Seq<char>,
    authority: Authority,
    dedup: bool,
) -> Seq<TfPort>
    decreases ms.len(),
{
    if ms.len() == 0 {
        base
    } else {
        let rest = ports_s(ms.drop_last(), raw, base, key, authority, dedup);
        let m = ms.last();
        match (group_s(m, 1), group_s(m, 0)) {
            (Some(d), Some(whole)) => match parse_uint_s(d, 0xffff) {
                Some(p) => {
                    let line = line_of_s(raw, whole) as usize;
                    if dedup && exists|k: int| 0 <= k < rest.len() && #[trigger] rest[k].1 == line {
                        rest
                    } else {
                        rest.push((p as u16, line, key, authority))
                    }
                },
                None => rest,
            },
            _ => rest,
        }
    }
}

/// The ports of a Terraform file: every `container_port` (enforced), then
/// every `host_port` or `port` (declared) at a line without an earlier
/// port.
pub open spec fn tf_ports_s(raw: Seq<char>) -> Seq<TfPort> {
    let first = match regex_all_captures_result(TF_CONTAINER_PORT_PATTERN@, raw) {
        Some(ms) => ports_s(ms, raw, Seq::empty(), "container_port"@, Authority::Enforced, false),
        None => Seq::empty(),
    };
    match regex_all_captures_result(TF_PORT_PATTERN@, raw) {
        Some(ms) => ports_s(ms, raw, first, "port"@, Authority::Declared, true),
        None => first,
    }
}

/// The assertion of a found port.
pub open spec fn tf_port_ok(a: ConfigAssertion, f: TfPort, file: Seq<char>) -> bool {
    &&& located(a, "app-port"@, decimal_s(f.0 as nat), file, f.1, f.2, f.3, "iac-terraform-port"@)
    &&& a.value == SemanticType::Port(PortSpec::Single(f.0))
}

fn push_ports(
    ms: &Vec<Vec<Option<String>>>,
    raw: &str,
    key: &str,
    authority: Authority,
    dedup: bool,
    file: &str,
    out: &mut Vec<ConfigAssertion>,
    base: Ghost<Seq<TfPort>>,
)
    requires
        old(out)@.len() == base@.len(),
        forall|k: int| 0 <= k < base@.len() ==> tf_port_ok(#[trigger] old(out)@[k], base@[k], file@),
    ensures
        ({
            let all = ports_s(matches_view(ms@), raw@, base@, key@, authority, dedup);
            &&& final(out)@.len() == all.len()
            &&& forall|k: int| 0 <= k < all.len() ==> tf_port_ok(#[trigger] final(out)@[k], all[k], file@)
        }),
{
    let ghost mv = matches_view(ms@);
    let mut i: usize = 0;
    while i < ms.len()
        invariant
            i <= ms.len(),
            mv == matches_view(ms@),
            out@.len() == ports_s(mv.take(i as int), raw@, base@, key@, authority, dedup).len(),
            forall|k: int|
                0 <= k < out@.len() ==> tf_port_ok(
                    #[trigger] out@[k],
                    ports_s(mv.take(i as int), raw@, base@, key@, authority, dedup)[k],
                    file@,
                ),
        decreases ms.len() - i,
    {
        proof {
            assert(mv.take(i + 1).drop_last() == mv.take(i as int));
            assert(mv.take(i + 1).last() == mv[i as int]);
        }
        let ghost before = ports_s(mv.take(i as int), raw@, base@, key@, authority, dedup);
        let g1 = match_group(&ms[i], 1);
        let g0 = match_group(&ms[i], 0);
        if let (Some(d), Some(whole)) = (g1, g0) {
            let dc = to_chars(d.as_str());
            if let Some(p) = parse_uint(dc.as_slice(), 0xffff) {
                let line = find_line_in_text(raw, whole.as_str());
                let mut seen = false;
                if dedup {
                    let mut j: usize = 0;
                    while j < out.len()
                        invariant
                            j <= out.len(),
                            out@.len() == before.len(),
                            forall|k: int| 0 <= k < out@.len() ==> tf_port_ok(#[trigger] out@[k], before[k], file@),
                            seen == exists|k: int| 0 <= k < j && #[trigger] before[k].1 == line,
                        decreases out.len() - j,
                    {
                        assert(tf_port_ok(out@[j as int], before[j as int], file@));
                        if out[j].source.line == line {
                            seen = true;
                        }
                        proof {
                            if before[j as int].1 == line {
                                assert(seen);
                            }
                            if seen && before[j as int].1 != line {
                                let k = choose|k: int| 0 <= k < j && #[trigger] before[k].1 == line;
                                assert(0 <= k < j + 1);
                            }
                        }
                        j = j + 1;
                    }
                }
                if !seen {
                    let mut text = String::new();
                    push_decimal(&mut text, p);
                    let port: u16 = p as u16;
                    let a = port_assertion(
                        PortSpec::Single(port),
                        text,
                        file,
                        line,
                        String::from_str(key),
                        authority,
                        "iac-terraform-port",
                    );
                    let ghost prev = out@;
                    out.push(a);
                    proof {
                        let after = ports_s(mv.take(i + 1), raw@, base@, key@, authority, dedup);
                        assert(after =~= before.push(after.last()));
                        assert forall|k2: int| 0 <= k2 < out@.len() implies tf_port_ok(
                            #[trigger] out@[k2],
                            after[k2],
                            file@,
                        ) by {
                            if k2 < prev.len() {
                                assert(out@[k2] == prev[k2]);
                                assert(after[k2] == before[k2]);
                            }
                        }
                    }
                } else {
                    proof {
                        assert(ports_s(mv.take(i + 1), raw@, base@, key@, authority, dedup) == before);
                    }
                }
            } else {
                proof {
                    assert(ports_s(mv.take(i + 1), raw@, base@, key@, authority, dedup) == before);
                }
            }
        } else {
            proof {
                assert(ports_s(mv.take(i + 1), raw@, base@, key@, authority, dedup) == before);
            }
        }
        i = i + 1;
    }
    assert(mv.take(ms.len() as int) == mv);
}

impl TerraformPortExtractor {
    /// The ports of a Terraform file's text: every `container_port = N`
    /// (enforced), then every `host_port = N` or `port = N` (declared) at a
    /// line that no earlier port has, each at the first line that holds its
    /// assignment.
    pub fn extract(&self, file: &ParsedFile) -> (r: Vec<ConfigAssertion>)
        ensures
            r@.len() == tf_ports_s(file.raw_text@).len(),
            forall|k: int| 0 <= k < r@.len() ==> tf_port_ok(#[trigger] r@[k], tf_ports_s(file.raw_text@)[k], file.path@),
    {
        let raw = file.raw_text.as_str();
        let mut out: Vec<ConfigAssertion> = Vec::new();
        let ghost first = match regex_all_captures_result(TF_CONTAINER_PORT_PATTERN@, raw@) {
            Some(ms) => ports_s(ms, raw@, Seq::empty(), "container_port"@, Authority::Enforced, false),
            None => Seq::empty(),
        };
        match regex_all_captures(TF_CONTAINER_PORT_PATTERN, raw) {
            Some(ms) => {
                push_ports(&ms, raw, "container_port", Authority::Enforced, false, file.path.as_str(), &mut out, Ghost(Seq::empty()));
            },
            None => {},
        }
        match regex_all_captures(TF_PORT_PATTERN, raw) {
            Some(ms) => {
                push_ports(&ms, raw, "port", Authority::Declared, true, file.path.as_str(), &mut out, Ghost(first));
            },
            None => {},
        }
        out
    }
}

} // verus!
