//! Runtime versions and ports from Helm `values.yaml` files, read from the
//! values tree: `image.repository` / `image.tag` pairs and `port`-like keys,
//! at any depth of nested mappings.
use vstd::prelude::*;
use vstd::string::*;
use super::catalog::{HelmValuesPortExtractor, HelmValuesVersionExtractor};
use super::image::{find_line_in_text, line_of_s};
use super::kubernetes::{mget, mget_s, oref, text_s, ManifestValue, K8sPort};
use super::port::port_assertion;
use super::terraform::{names_image, names_image_exec, tf_concept, tf_concept_id, TfFound, TfRuntime};
use super::versions::{has_version, located};
use crate::model::{Authority, ConfigAssertion, PortSpec, SemanticType, SourceLocation};
use crate::parse::ParsedFile;
use crate::text::{chars_eq, decimal_s, parse_uint, parse_uint_s, push_decimal, push_str, str_eq, to_chars};

verus! {

/// A key under a prefix: the key itself at the top, else `prefix.key`.
pub open spec fn join_key_s(prefix: Seq<char>, key: Seq<char>) -> Seq<char> {
    if prefix.len() == 0 {
        key
    } else {
        prefix + "."@ + key
    }
}

/// The runtime of an image repository, by the first of `node`, `python`,
/// `golang`, `openjdk`, `eclipse-temurin`, `amazoncorretto`, `ruby` and the
/// .NET `sdk`, `aspnet` and `runtime` images of `mcr.microsoft.com` that
/// the repository is or ends with.
pub open spec fn helm_runtime_s(repo: Seq<char>) -> Option<TfRuntime> {
    if names_image(repo, "node"@) {
        Some(TfRuntime::Node)
    } else if names_image(repo, "python"@) {
        Some(TfRuntime::Python)
    } else if names_image(repo, "golang"@) {
        Some(TfRuntime::Go)
    } else if names_image(repo, "openjdk"@) || names_image(repo, "eclipse-temurin"@) || names_image(
        repo,
        "amazoncorretto"@,
    ) {
        Some(TfRuntime::Java)
    } else if names_image(repo, "ruby"@) {
        Some(TfRuntime::Ruby)
    } else if names_image(repo, "mcr.microsoft.com/dotnet/sdk"@) || names_image(
        repo,
        "mcr.microsoft.com/dotnet/aspnet"@,
    ) || names_image(repo, "mcr.microsoft.com/dotnet/runtime"@) {
        Some(TfRuntime::Dotnet)
    } else {
        None
    }
}

/// The version of a mapping's own `image`: when `image` is a mapping with a
/// string `tag` and a `repository` (missing: empty) of a known runtime, the
/// tag, at the first line that holds it, under `<prefix>.image.tag`.
pub open spec fn own_image_s(v: ManifestValue, prefix: Seq<char>, raw: Seq<char>) -> Seq<TfFound> {
    match mget_s(v, "image"@) {
        Some(ManifestValue::Mapping(ies)) => {
            let img = ManifestValue::Mapping(ies);
            let repo = match text_s(mget_s(img, "repository"@)) {
                Some(t) => t,
                None => ""@,
            };
            match text_s(mget_s(img, "tag"@)) {
                Some(tag) => match helm_runtime_s(repo) {
                    Some(k) => seq![(k, tag, line_of_s(raw, tag) as usize, join_key_s(prefix, "image.tag"@))],
                    None => seq![],
                },
                None => seq![],
            }
        },
        _ => seq![],
    }
}

/// The image versions of a values mapping: its own image, then those of
/// its nested mappings in entry order (the entry `image` aside), each
/// under the prefix extended by the entry's key.
pub open spec fn helm_images_s(v: ManifestValue, prefix: Seq<char>, raw: Seq<char>) -> Seq<TfFound>
    decreases v,
{
    match v {
        ManifestValue::Mapping(es) => own_image_s(v, prefix, raw) + child_images_s(es@, prefix, raw),
        _ => seq![],
    }
}

/// The image versions of the nested mappings among the entries.
pub open spec fn child_images_s(es: Seq<(String, ManifestValue)>, prefix: Seq<char>, raw: Seq<char>) -> Seq<TfFound>
    decreases es,
{
    if es.len() == 0 {
        seq![]
    } else {
        let e = es.last();
        child_images_s(es.drop_last(), prefix, raw) + if e.0@ != "image"@ && e.1 is Mapping {
            helm_images_s(e.1, join_key_s(prefix, e.0@), raw)
        } else {
            seq![]
        }
    }
}

/// The assertion of a version found in Helm values.
pub open spec fn helm_version_ok(a: ConfigAssertion, f: TfFound, file: Seq<char>) -> bool {
    &&& located(a, tf_concept_id(f.0), f.1, file, f.2, f.3, Authority::Declared, "iac-helm-version"@)
    &&& has_version(a, f.1)
}

/// The number a value gives: a non-negative integer, or a string that
/// `str::parse::<u64>` reads.
pub open spec fn port_number_s(o: Option<ManifestValue>) -> Option<nat> {
    match o {
        Some(ManifestValue::Number(n)) => Some(n as nat),
        Some(ManifestValue::Text(t)) => parse_uint_s(t@, u64::MAX as nat),
        _ => None,
    }
}

/// The port under `key` of a mapping, when its number fits in 16 bits, at
/// the first line that holds the number's digits, under `<prefix>.key`.
pub open spec fn own_port_s(v: ManifestValue, key: Seq<char>, prefix: Seq<char>, raw: Seq<char>) -> Seq<K8sPort> {
    match port_number_s(mget_s(v, key)) {
        Some(p) => if p <= 65535 {
            seq![(p as u16, line_of_s(raw, decimal_s(p)) as usize, join_key_s(prefix, key))]
        } else {
            seq![]
        },
        None => seq![],
    }
}

/// The ports a mapping holds itself: `port`, `containerPort`, `targetPort`,
/// `servicePort`, in that order.
#[verifier::opaque]
pub open spec fn own_ports_s(v: ManifestValue, prefix: Seq<char>, raw: Seq<char>) -> Seq<K8sPort> {
    own_port_s(v, "port"@, prefix, raw) + own_port_s(v, "containerPort"@, prefix, raw) + own_port_s(
        v,
        "targetPort"@,
        prefix,
        raw,
    ) + own_port_s(v, "servicePort"@, prefix, raw)
}

/// The ports of a values mapping: its own, then those of its nested
/// mappings in entry order, each under the prefix extended by the entry's
/// key.
pub open spec fn helm_ports_s(v: ManifestValue, prefix: Seq<char>, raw: Seq<char>) -> Seq<K8sPort>
    decreases v,
{
    match v {
        ManifestValue::Mapping(es) => {
            let own = own_ports_s(v, prefix, raw);
            own + child_ports_s(es@, prefix, raw)
        },
        _ => seq![],
    }
}

/// The ports of the nested mappings among the entries.
pub open spec fn child_ports_s(es: Seq<(String, ManifestValue)>, prefix: Seq<char>, raw: Seq<char>) -> Seq<K8sPort>
    decreases es,
{
    if es.len() == 0 {
        seq![]
    } else {
        let e = es.last();
        child_ports_s(es.drop_last(), prefix, raw) + if e.1 is Mapping {
            helm_ports_s(e.1, join_key_s(prefix, e.0@), raw)
        } else {
            seq![]
        }
    }
}

/// The assertion of a port found in Helm values.
pub open spec fn helm_port_ok(a: ConfigAssertion, f: K8sPort, file: Seq<char>) -> bool {
    &&& located(a, "app-port"@, decimal_s(f.0 as nat), file, f.1, f.2, Authority::Declared, "iac-helm-port"@)
    &&& a.value == SemanticType::Port(PortSpec::Single(f.0))
}

proof fn lemma_entry_decreases(v: ManifestValue, es: Vec<(String, ManifestValue)>, i: int)
    requires
        v == ManifestValue::Mapping(es),
        0 <= i < es@.len(),
    ensures
        decreases_to!(v => es@[i].1),
{
    let ent = es@[i];
    assert(decreases_to!(v => v->Mapping_0));
    assert(decreases_to!(es => es@));
    assert(decreases_to!(es@ => es@[i]));
    assert(decreases_to!(ent => ent.1));
}

fn join_key(prefix: &str, key: &str) -> (r: String)
    ensures
        r@ == join_key_s(prefix@, key@),
{
    let mut out = String::new();
    if prefix.unicode_len() > 0 {
        push_str(&mut out, prefix);
        push_str(&mut out, ".");
    }
    push_str(&mut out, key);
    proof {
        reveal_strlit("");
    }
    assert(""@ + key@ =~= key@);
    out
}

fn helm_runtime(repo: &str) -> (r: Option<TfRuntime>)
    ensures
        r == helm_runtime_s(repo@),
{
    if names_image_exec(repo, "node") {
        Some(TfRuntime::Node)
    } else if names_image_exec(repo, "python") {
        Some(TfRuntime::Python)
    } else if names_image_exec(repo, "golang") {
        Some(TfRuntime::Go)
    } else if names_image_exec(repo, "openjdk") || names_image_exec(repo, "eclipse-temurin") || names_image_exec(
        repo,
        "amazoncorretto",
    ) {
        Some(TfRuntime::Java)
    } else if names_image_exec(repo, "ruby") {
        Some(TfRuntime::Ruby)
    } else if names_image_exec(repo, "mcr.microsoft.com/dotnet/sdk") || names_image_exec(
        repo,
        "mcr.microsoft.com/dotnet/aspnet",
    ) || names_image_exec(repo, "mcr.microsoft.com/dotnet/runtime") {
        Some(TfRuntime::Dotnet)
    } else {
        None
    }
}

fn own_image(v: &ManifestValue, prefix: &str, raw: &str) -> (r: Option<(TfRuntime, String, usize, String)>)
    ensures
        match r {
            Some((k, tag, line, kp)) => own_image_s(*v, prefix@, raw@) == seq![(k, tag@, line, kp@)],
            None => own_image_s(*v, prefix@, raw@) == Seq::<TfFound>::empty(),
        },
{
    match mget(v, "image") {
        Some(img) => match img {
            ManifestValue::Mapping(_) => {
                proof {
                    reveal_strlit("");
                }
                let repo: &str = match mget(img, "repository") {
                    Some(ManifestValue::Text(t)) => t.as_str(),
                    _ => "",
                };
                match mget(img, "tag") {
                    Some(ManifestValue::Text(tag)) => match helm_runtime(repo) {
                        Some(k) => {
                            let line = find_line_in_text(raw, tag.as_str());
                            let kp = join_key(prefix, "image.tag");
                            Some((k, tag.clone(), line, kp))
                        },
                        None => None,
                    },
                    _ => None,
                }
            },
            _ => None,
        },
        None => None,
    }
}

fn push_helm_images(
    v: &ManifestValue,
    prefix: &str,
    raw: &str,
    file: &str,
    out: &mut Vec<ConfigAssertion>,
    base: Ghost<Seq<TfFound>>,
)
    requires
        old(out)@.len() == base@.len(),
        forall|k: int| 0 <= k < base@.len() ==> helm_version_ok(#[trigger] old(out)@[k], base@[k], file@),
    ensures
        ({
            let all = base@ + helm_images_s(*v, prefix@, raw@);
            &&& final(out)@.len() == all.len()
            &&& forall|k: int| 0 <= k < all.len() ==> helm_version_ok(#[trigger] final(out)@[k], all[k], file@)
        }),
    decreases v,
{
    match v {
        ManifestValue::Mapping(es) => {
            let ghost b0 = base@ + own_image_s(*v, prefix@, raw@);
            match own_image(v, prefix, raw) {
                Some((k, tag, line, kp)) => {
                    let a = ConfigAssertion::new(
                        tf_concept(k),
                        SemanticType::Version(crate::model::parse_version(tag.as_str())),
                        tag,
                        SourceLocation { file: String::from_str(file), line, column: 0, key_path: kp },
                        Authority::Declared,
                        "iac-helm-version",
                    );
                    let ghost prev = out@;
                    out.push(a);
                    proof {
                        assert(b0 =~= base@.push(b0.last()));
                        assert forall|k2: int| 0 <= k2 < out@.len() implies helm_version_ok(
                            #[trigger] out@[k2],
                            b0[k2],
                            file@,
                        ) by {
                            if k2 < prev.len() {
                                assert(out@[k2] == prev[k2]);
                                assert(b0[k2] == base@[k2]);
                            }
                        }
                    }
                },
                None => {
                    assert(b0 =~= base@);
                },
            }
            let mut i: usize = 0;
            assert(b0 + child_images_s(es@.take(0), prefix@, raw@) =~= b0);
            while i < es.len()
                invariant
                    i <= es@.len(),
                    *v == ManifestValue::Mapping(*es),
                    b0 == base@ + own_image_s(*v, prefix@, raw@),
                    out@.len() == (b0 + child_images_s(es@.take(i as int), prefix@, raw@)).len(),
                    forall|k: int|
                        0 <= k < out@.len() ==> helm_version_ok(
                            #[trigger] out@[k],
                            (b0 + child_images_s(es@.take(i as int), prefix@, raw@))[k],
                            file@,
                        ),
                decreases es@.len() - i,
            {
                proof {
                    assert(es@.take(i + 1).drop_last() == es@.take(i as int));
                    assert(es@.take(i + 1).last() == es@[i as int]);
                    reveal_strlit("image");
                }
                let ghost before = b0 + child_images_s(es@.take(i as int), prefix@, raw@);
                let e = &es[i];
                let nested = match &e.1 {
                    ManifestValue::Mapping(_) => true,
                    _ => false,
                };
                if !str_eq(e.0.as_str(), "image") && nested {
                    let kp = join_key(prefix, e.0.as_str());
                    proof {
                        lemma_entry_decreases(*v, *es, i as int);
                    }
                    push_helm_images(&e.1, kp.as_str(), raw, file, out, Ghost(before));
                    proof {
                        assert(before + helm_images_s(e.1, kp@, raw@) =~= b0 + child_images_s(
                            es@.take(i + 1),
                            prefix@,
                            raw@,
                        ));
                    }
                } else {
                    proof {
                        assert(b0 + child_images_s(es@.take(i + 1), prefix@, raw@) =~= before);
                    }
                }
                i = i + 1;
            }
            proof {
                assert(es@.take(es@.len() as int) == es@);
                assert(b0 + child_images_s(es@, prefix@, raw@) =~= base@ + helm_images_s(*v, prefix@, raw@));
            }
        },
        _ => {
            assert(base@ + helm_images_s(*v, prefix@, raw@) =~= base@);
        },
    }
}

impl HelmValuesVersionExtractor {
    /// The runtime versions of a Helm values tree: `helm_images_s` from the
    /// top with an empty prefix, as declared versions.
    pub fn extract_from_values(&self, value: &ManifestValue, file: &ParsedFile) -> (r: Vec<ConfigAssertion>)
        ensures
            r@.len() == helm_images_s(*value, ""@, file.raw_text@).len(),
            forall|k: int|
                0 <= k < r@.len() ==> helm_version_ok(
                    #[trigger] r@[k],
                    helm_images_s(*value, ""@, file.raw_text@)[k],
                    file.path@,
                ),
    {
        let mut out: Vec<ConfigAssertion> = Vec::new();
        proof {
            reveal_strlit("");
        }
        push_helm_images(value, "", file.raw_text.as_str(), file.path.as_str(), &mut out, Ghost(Seq::empty()));
        assert(Seq::<TfFound>::empty() + helm_images_s(*value, ""@, file.raw_text@) =~= helm_images_s(
            *value,
            ""@,
            file.raw_text@,
        ));
        out
    }
}

fn port_number(o: Option<&ManifestValue>) -> (r: Option<u64>)
    ensures
        match r {
            Some(n) => port_number_s(oref(o)) == Some(n as nat),
            None => port_number_s(oref(o)) is None,
        },
{
    match o {
        Some(ManifestValue::Number(n)) => Some(*n),
        Some(ManifestValue::Text(t)) => {
            let c = to_chars(t.as_str());
            parse_uint(c.as_slice(), u64::MAX)
        },
        _ => None,
    }
}

fn push_own_port(
    v: &ManifestValue,
    key: &str,
    prefix: &str,
    raw: &str,
    file: &str,
    out: &mut Vec<ConfigAssertion>,
    base: Ghost<Seq<K8sPort>>,
)
    requires
        old(out)@.len() == base@.len(),
        forall|k: int| 0 <= k < base@.len() ==> helm_port_ok(#[trigger] old(out)@[k], base@[k], file@),
    ensures
        ({
            let all = base@ + own_port_s(*v, key@, prefix@, raw@);
            &&& final(out)@.len() == all.len()
            &&& forall|k: int| 0 <= k < all.len() ==> helm_port_ok(#[trigger] final(out)@[k], all[k], file@)
        }),
{
    let ghost all = base@ + own_port_s(*v, key@, prefix@, raw@);
    match port_number(mget(v, key)) {
        Some(p) => {
            if p <= 65535 {
                let port: u16 = p as u16;
                let mut digits = String::new();
                push_decimal(&mut digits, p);
                let line = find_line_in_text(raw, digits.as_str());
                let mut rawv = String::new();
                push_decimal(&mut rawv, port as u64);
                let a = port_assertion(
                    PortSpec::Single(port),
                    rawv,
                    file,
                    line,
                    join_key(prefix, key),
                    Authority::Declared,
                    "iac-helm-port",
                );
                let ghost prev = out@;
                out.push(a);
                proof {
                    assert(all =~= base@.push(all.last()));
                    assert forall|k2: int| 0 <= k2 < out@.len() implies helm_port_ok(
                        #[trigger] out@[k2],
                        all[k2],
                        file@,
                    ) by {
                        if k2 < prev.len() {
                            assert(out@[k2] == prev[k2]);
                            assert(all[k2] == base@[k2]);
                        }
                    }
                }
            } else {
                assert(all =~= base@);
            }
        },
        None => {
            assert(all =~= base@);
        },
    }
}

#[verifier::rlimit(30)]
fn push_own_ports(
    v: &ManifestValue,
    prefix: &str,
    raw: &str,
    file: &str,
    out: &mut Vec<ConfigAssertion>,
    base: Ghost<Seq<K8sPort>>,
)
    requires
        old(out)@.len() == base@.len(),
        forall|k: int| 0 <= k < base@.len() ==> helm_port_ok(#[trigger] old(out)@[k], base@[k], file@),
    ensures
        ({
            let all = base@ + own_ports_s(*v, prefix@, raw@);
            &&& final(out)@.len() == all.len()
            &&& forall|k: int| 0 <= k < all.len() ==> helm_port_ok(#[trigger] final(out)@[k], all[k], file@)
        }),
{
    proof {
        reveal_strlit("port");
        reveal_strlit("containerPort");
        reveal_strlit("targetPort");
        reveal_strlit("servicePort");
    }
    let ghost p1 = base@ + own_port_s(*v, "port"@, prefix@, raw@);
    let ghost p2 = p1 + own_port_s(*v, "containerPort"@, prefix@, raw@);
    let ghost p3 = p2 + own_port_s(*v, "targetPort"@, prefix@, raw@);
    let ghost p4 = p3 + own_port_s(*v, "servicePort"@, prefix@, raw@);
    push_own_port(v, "port", prefix, raw, file, out, base);
    push_own_port(v, "containerPort", prefix, raw, file, out, Ghost(p1));
    push_own_port(v, "targetPort", prefix, raw, file, out, Ghost(p2));
    push_own_port(v, "servicePort", prefix, raw, file, out, Ghost(p3));
    assert(p4 =~= base@ + own_ports_s(*v, prefix@, raw@)) by {
        reveal(own_ports_s);
    }
}

fn push_helm_ports(
    v: &ManifestValue,
    prefix: &str,
    raw: &str,
    file: &str,
    out: &mut Vec<ConfigAssertion>,
    base: Ghost<Seq<K8sPort>>,
)
    requires
        old(out)@.len() == base@.len(),
        forall|k: int| 0 <= k < base@.len() ==> helm_port_ok(#[trigger] old(out)@[k], base@[k], file@),
    ensures
        ({
            let all = base@ + helm_ports_s(*v, prefix@, raw@);
            &&& final(out)@.len() == all.len()
            &&& forall|k: int| 0 <= k < all.len() ==> helm_port_ok(#[trigger] final(out)@[k], all[k], file@)
        }),
    decreases v,
{
    match v {
        ManifestValue::Mapping(es) => {
            let ghost b0 = base@ + own_ports_s(*v, prefix@, raw@);
            push_own_ports(v, prefix, raw, file, out, base);
            let mut i: usize = 0;
            assert(b0 + child_ports_s(es@.take(0), prefix@, raw@) =~= b0);
            while i < es.len()
                invariant
                    i <= es@.len(),
                    *v == ManifestValue::Mapping(*es),
                    b0 == base@ + own_ports_s(*v, prefix@, raw@),
                    out@.len() == (b0 + child_ports_s(es@.take(i as int), prefix@, raw@)).len(),
                    forall|k: int|
                        0 <= k < out@.len() ==> helm_port_ok(
                            #[trigger] out@[k],
                            (b0 + child_ports_s(es@.take(i as int), prefix@, raw@))[k],
                            file@,
                        ),
                decreases es@.len() - i,
            {
                proof {
                    assert(es@.take(i + 1).drop_last() == es@.take(i as int));
                    assert(es@.take(i + 1).last() == es@[i as int]);
                }
                let ghost before = b0 + child_ports_s(es@.take(i as int), prefix@, raw@);
                let e = &es[i];
                let nested = match &e.1 {
                    ManifestValue::Mapping(_) => true,
                    _ => false,
                };
                if nested {
                    let kp = join_key(prefix, e.0.as_str());
                    proof {
                        lemma_entry_decreases(*v, *es, i as int);
                    }
                    push_helm_ports(&e.1, kp.as_str(), raw, file, out, Ghost(before));
                    proof {
                        assert(before + helm_ports_s(e.1, kp@, raw@) =~= b0 + child_ports_s(
                            es@.take(i + 1),
                            prefix@,
                            raw@,
                        ));
                    }
                } else {
                    proof {
                        assert(b0 + child_ports_s(es@.take(i + 1), prefix@, raw@) =~= before);
                    }
                }
                i = i + 1;
            }
            proof {
                assert(es@.take(es@.len() as int) == es@);
                assert(b0 + child_ports_s(es@, prefix@, raw@) =~= base@ + helm_ports_s(*v, prefix@, raw@));
            }
        },
        _ => {
            assert(base@ + helm_ports_s(*v, prefix@, raw@) =~= base@);
        },
    }
}

impl HelmValuesPortExtractor {
    /// The ports of a Helm values tree: `helm_ports_s` from the top with an
    /// empty prefix, as declared ports.
    pub fn extract_from_values(&self, value: &ManifestValue, file: &ParsedFile) -> (r: Vec<ConfigAssertion>)
        ensures
            r@.len() == helm_ports_s(*value, ""@, file.raw_text@).len(),
            forall|k: int|
                0 <= k < r@.len() ==> helm_port_ok(#[trigger] r@[k], helm_ports_s(*value, ""@, file.raw_text@)[k], file.path@),
    {
        let mut out: Vec<ConfigAssertion> = Vec::new();
        proof {
            reveal_strlit("");
        }
        push_helm_ports(value, "", file.raw_text.as_str(), file.path.as_str(), &mut out, Ghost(Seq::empty()));
        assert(Seq::<K8sPort>::empty() + helm_ports_s(*value, ""@, file.raw_text@) =~= helm_ports_s(
            *value,
            ""@,
            file.raw_text@,
        ));
        out
    }
}

} // verus!
