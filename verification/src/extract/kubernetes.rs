//! Runtime versions and ports from Kubernetes manifests, read from the
//! manifest's YAML tree: the images of workload containers, their
//! `containerPort`s, and the `targetPort`s of a Service.
use vstd::prelude::*;
use vstd::string::*;
use super::catalog::{KubernetesPortExtractor, KubernetesVersionExtractor};
use super::image::{find_line_in_text, line_of_s, split_image_tag, split_image_tag_s};
use super::port::port_assertion;
use super::terraform::{names_image, names_image_exec, tf_concept, tf_concept_id, TfFound, TfRuntime};
use super::versions::{has_version, located};
use crate::model::{Authority, ConfigAssertion, PortSpec, SemanticType, SourceLocation};
use crate::parse::ParsedFile;
use crate::text::{chars_eq, decimal_s, push_decimal, push_str, str_eq, to_chars};

verus! {

/// A node of a parsed YAML, JSON or TOML document, as far as the
/// extractors read it.
#[derive(Debug)]
pub enum ManifestValue {
    /// A string.
    Text(String),
    /// A non-negative integer.
    Number(u64),
    /// Any other number (negative or fractional), as the parser displays it.
    Decimal(String),
    /// A boolean.
    Bool(bool),
    /// A sequence.
    List(Vec<ManifestValue>),
    /// A mapping: its entries in the order the parser hands them out, keys
    /// unique.
    Mapping(Vec<(String, ManifestValue)>),
    /// A null.
    Null,
    /// Anything else (a TOML date or time).
    Other,
}

/// The first entry, from entry `i` on, with the key.
pub open spec fn key_index_s(es: Seq<(String, ManifestValue)>, key: Seq<char>, i: int) -> Option<int>
    decreases es.len() - i,
{
    if i < 0 || i >= es.len() {
        None
    } else if es[i].0@ == key {
        Some(i)
    } else {
        key_index_s(es, key, i + 1)
    }
}

/// The value under a key of a mapping; nothing for other values.
pub open spec fn mget_s(v: ManifestValue, key: Seq<char>) -> Option<ManifestValue> {
    match v {
        ManifestValue::Mapping(es) => match key_index_s(es@, key, 0) {
            Some(k) => Some(es@[k].1),
            None => None,
        },
        _ => None,
    }
}

/// The value under a key of an optional mapping.
pub open spec fn oget_s(o: Option<ManifestValue>, key: Seq<char>) -> Option<ManifestValue> {
    match o {
        Some(v) => mget_s(v, key),
        None => None,
    }
}

/// The items of an optional sequence; none for anything else.
pub open spec fn list_s(o: Option<ManifestValue>) -> Seq<ManifestValue> {
    match o {
        Some(ManifestValue::List(xs)) => xs@,
        _ => seq![],
    }
}

/// The text of an optional string.
pub open spec fn text_s(o: Option<ManifestValue>) -> Option<Seq<char>> {
    match o {
        Some(ManifestValue::Text(t)) => Some(t@),
        _ => None,
    }
}

/// The manifest's `kind`, or the empty text.
pub open spec fn kind_s(v: ManifestValue) -> Seq<char> {
    match text_s(mget_s(v, "kind"@)) {
        Some(t) => t,
        None => ""@,
    }
}

/// A kind of workload, whose pods run containers.
pub open spec fn is_workload_kind(k: Seq<char>) -> bool {
    ||| k == "Deployment"@
    ||| k == "StatefulSet"@
    ||| k == "Job"@
    ||| k == "CronJob"@
    ||| k == "Pod"@
    ||| k == "DaemonSet"@
    ||| k == "ReplicaSet"@
}

/// The containers of a manifest: those of `spec.containers`, then of
/// `spec.template.spec.containers`, then of
/// `spec.jobTemplate.spec.template.spec.containers`.
pub open spec fn containers_s(v: ManifestValue) -> Seq<ManifestValue> {
    let spec = mget_s(v, "spec"@);
    let pod = oget_s(oget_s(oget_s(spec, "template"@), "spec"@), "containers"@);
    let job = oget_s(
        oget_s(oget_s(oget_s(oget_s(spec, "jobTemplate"@), "spec"@), "template"@), "spec"@),
        "containers"@,
    );
    list_s(oget_s(spec, "containers"@)) + list_s(pod) + list_s(job)
}

/// The runtime and tag of a container image of a known runtime image, by
/// the first of `node`, `python`, `golang`, `openjdk`, `eclipse-temurin`,
/// `amazoncorretto`, `ruby` and the .NET `sdk`, `aspnet` and `runtime`
/// images of `mcr.microsoft.com` that the image's name is or ends with.
pub open spec fn k8s_image_runtime_s(image: Seq<char>) -> Option<(TfRuntime, Seq<char>)> {
    match split_image_tag_s(image) {
        None => None,
        Some((name, tag)) => if names_image(name, "node"@) {
            Some((TfRuntime::Node, tag))
        } else if names_image(name, "python"@) {
            Some((TfRuntime::Python, tag))
        } else if names_image(name, "golang"@) {
            Some((TfRuntime::Go, tag))
        } else if names_image(name, "openjdk"@) || names_image(name, "eclipse-temurin"@) || names_image(
            name,
            "amazoncorretto"@,
        ) {
            Some((TfRuntime::Java, tag))
        } else if names_image(name, "ruby"@) {
            Some((TfRuntime::Ruby, tag))
        } else if names_image(name, "mcr.microsoft.com/dotnet/sdk"@) || names_image(
            name,
            "mcr.microsoft.com/dotnet/aspnet"@,
        ) || names_image(name, "mcr.microsoft.com/dotnet/runtime"@) {
            Some((TfRuntime::Dotnet, tag))
        } else {
            None
        },
    }
}

/// The version a container's image gives, at the first line of the text
/// that holds the image.
pub open spec fn container_version_s(c: ManifestValue, raw: Seq<char>, kind: Seq<char>) -> Seq<TfFound> {
    match text_s(mget_s(c, "image"@)) {
        Some(img) => match k8s_image_runtime_s(img) {
            Some((k, tag)) => seq![(k, tag, line_of_s(raw, img) as usize, kind + ".containers.image"@)],
            None => seq![],
        },
        None => seq![],
    }
}

/// The versions of the containers, in order.
pub open spec fn container_versions_s(cs: Seq<ManifestValue>, raw: Seq<char>, kind: Seq<char>) -> Seq<TfFound>
    decreases cs.len(),
{
    if cs.len() == 0 {
        seq![]
    } else {
        container_versions_s(cs.drop_last(), raw, kind) + container_version_s(cs.last(), raw, kind)
    }
}

/// The runtime versions of a workload manifest's containers; none for
/// other manifests.
pub open spec fn k8s_versions_s(v: ManifestValue, raw: Seq<char>) -> Seq<TfFound> {
    let k = kind_s(v);
    if is_workload_kind(k) {
        container_versions_s(containers_s(v), raw, k)
    } else {
        seq![]
    }
}

/// The assertion of a version found in a manifest.
pub open spec fn k8s_version_ok(a: ConfigAssertion, f: TfFound, file: Seq<char>) -> bool {
    &&& located(a, tf_concept_id(f.0), f.1, file, f.2, f.3, Authority::Enforced, "iac-kubernetes-version"@)
    &&& has_version(a, f.1)
}

/// A port found: the port, its line and its key path.
pub type K8sPort = (u16, usize, Seq<char>);

/// The port under `field` of a port entry, when it is an integer that fits
/// in 16 bits, at the first line of the text that holds its digits.
pub open spec fn port_entry_s(p: ManifestValue, field: Seq<char>, key_path: Seq<char>, raw: Seq<char>) -> Seq<K8sPort> {
    match mget_s(p, field) {
        Some(ManifestValue::Number(n)) => if n <= 65535 {
            seq![(n as u16, line_of_s(raw, decimal_s(n as nat)) as usize, key_path)]
        } else {
            seq![]
        },
        _ => seq![],
    }
}

/// The ports of the port entries, in order.
pub open spec fn port_entries_s(ps: Seq<ManifestValue>, field: Seq<char>, key_path: Seq<char>, raw: Seq<char>) -> Seq<
    K8sPort,
>
    decreases ps.len(),
{
    if ps.len() == 0 {
        seq![]
    } else {
        port_entries_s(ps.drop_last(), field, key_path, raw) + port_entry_s(ps.last(), field, key_path, raw)
    }
}

/// The `containerPort`s of the containers' `ports`, in order.
pub open spec fn container_ports_s(cs: Seq<ManifestValue>, raw: Seq<char>) -> Seq<K8sPort>
    decreases cs.len(),
{
    if cs.len() == 0 {
        seq![]
    } else {
        container_ports_s(cs.drop_last(), raw) + port_entries_s(
            list_s(mget_s(cs.last(), "ports"@)),
            "containerPort"@,
            "spec.containers.ports.containerPort"@,
            raw,
        )
    }
}

/// The ports of a manifest: the `containerPort`s of a workload's
/// containers, then the `targetPort`s of a Service's `spec.ports`.
pub open spec fn k8s_ports_s(v: ManifestValue, raw: Seq<char>) -> Seq<K8sPort> {
    let k = kind_s(v);
    (if is_workload_kind(k) {
        container_ports_s(containers_s(v), raw)
    } else {
        seq![]
    }) + (if k == "Service"@ {
        port_entries_s(
            list_s(oget_s(mget_s(v, "spec"@), "ports"@)),
            "targetPort"@,
            "spec.ports.targetPort"@,
            raw,
        )
    } else {
        seq![]
    })
}

/// The assertion of a port found in a manifest.
pub open spec fn k8s_port_ok(a: ConfigAssertion, f: K8sPort, file: Seq<char>) -> bool {
    &&& located(a, "app-port"@, decimal_s(f.0 as nat), file, f.1, f.2, Authority::Enforced, "iac-kubernetes-port"@)
    &&& a.value == SemanticType::Port(PortSpec::Single(f.0))
}

proof fn lemma_versions_concat(a: Seq<ManifestValue>, b: Seq<ManifestValue>, raw: Seq<char>, kind: Seq<char>)
    ensures
        container_versions_s(a + b, raw, kind) == container_versions_s(a, raw, kind) + container_versions_s(
            b,
            raw,
            kind,
        ),
    decreases b.len(),
{
    if b.len() == 0 {
        assert(a + b =~= a);
        assert(container_versions_s(a, raw, kind) + seq![] =~= container_versions_s(a, raw, kind));
    } else {
        lemma_versions_concat(a, b.drop_last(), raw, kind);
        assert((a + b).drop_last() =~= a + b.drop_last());
        assert((a + b).last() == b.last());
    }
}

proof fn lemma_ports_concat(a: Seq<ManifestValue>, b: Seq<ManifestValue>, raw: Seq<char>)
    ensures
        container_ports_s(a + b, raw) == container_ports_s(a, raw) + container_ports_s(b, raw),
    decreases b.len(),
{
    if b.len() == 0 {
        assert(a + b =~= a);
        assert(container_ports_s(a, raw) + seq![] =~= container_ports_s(a, raw));
    } else {
        lemma_ports_concat(a, b.drop_last(), raw);
        assert((a + b).drop_last() =~= a + b.drop_last());
        assert((a + b).last() == b.last());
    }
}

pub open spec fn oref(r: Option<&ManifestValue>) -> Option<ManifestValue> {
    match r {
        Some(c) => Some(*c),
        None => None,
    }
}

pub(crate) fn mget<'a>(v: &'a ManifestValue, key: &str) -> (r: Option<&'a ManifestValue>)
    ensures
        oref(r) == mget_s(*v, key@),
{
    match v {
        ManifestValue::Mapping(es) => {
            let kc = to_chars(key);
            let mut i: usize = 0;
            while i < es.len()
                invariant
                    i <= es.len(),
                    *v == ManifestValue::Mapping(*es),
                    kc@ == key@,
                    key_index_s(es@, key@, 0) == key_index_s(es@, key@, i as int),
                decreases es.len() - i,
            {
                let k = to_chars(es[i].0.as_str());
                if chars_eq(k.as_slice(), kc.as_slice()) {
                    return Some(&es[i].1);
                }
                i = i + 1;
            }
            None
        },
        _ => None,
    }
}

pub(crate) fn oget<'a>(o: Option<&'a ManifestValue>, key: &str) -> (r: Option<&'a ManifestValue>)
    ensures
        oref(r) == oget_s(oref(o), key@),
{
    match o {
        Some(v) => mget(v, key),
        None => None,
    }
}

pub(crate) fn list_of<'a>(o: Option<&'a ManifestValue>) -> (r: Option<&'a Vec<ManifestValue>>)
    ensures
        list_s(oref(o)) == match r {
            Some(xs) => xs@,
            None => seq![],
        },
{
    match o {
        Some(ManifestValue::List(xs)) => Some(xs),
        _ => None,
    }
}

fn kind_of(v: &ManifestValue) -> (r: String)
    ensures
        r@ == kind_s(*v),
{
    match mget(v, "kind") {
        Some(ManifestValue::Text(t)) => t.clone(),
        _ => {
            proof {
                reveal_strlit("");
            }
            String::from_str("")
        },
    }
}

fn is_workload(k: &str) -> (r: bool)
    ensures
        r == is_workload_kind(k@),
{
    str_eq(k, "Deployment") || str_eq(k, "StatefulSet") || str_eq(k, "Job") || str_eq(k, "CronJob") || str_eq(
        k,
        "Pod",
    ) || str_eq(k, "DaemonSet") || str_eq(k, "ReplicaSet")
}

fn k8s_image_runtime(image: &str) -> (r: Option<(TfRuntime, String)>)
    ensures
        match r {
            Some((k, v)) => k8s_image_runtime_s(image@) == Some((k, v@)),
            None => k8s_image_runtime_s(image@) is None,
        },
{
    let (name, tag) = match split_image_tag(image) {
        Some(p) => p,
        None => return None,
    };
    let n = name.as_str();
    if names_image_exec(n, "node") {
        Some((TfRuntime::Node, tag))
    } else if names_image_exec(n, "python") {
        Some((TfRuntime::Python, tag))
    } else if names_image_exec(n, "golang") {
        Some((TfRuntime::Go, tag))
    } else if names_image_exec(n, "openjdk") || names_image_exec(n, "eclipse-temurin") || names_image_exec(
        n,
        "amazoncorretto",
    ) {
        Some((TfRuntime::Java, tag))
    } else if names_image_exec(n, "ruby") {
        Some((TfRuntime::Ruby, tag))
    } else if names_image_exec(n, "mcr.microsoft.com/dotnet/sdk") || names_image_exec(
        n,
        "mcr.microsoft.com/dotnet/aspnet",
    ) || names_image_exec(n, "mcr.microsoft.com/dotnet/runtime") {
        Some((TfRuntime::Dotnet, tag))
    } else {
        None
    }
}

/// The version a container's image gives, as `container_version_s` has it.
fn container_version(c: &ManifestValue, raw: &str, kind: &str) -> (r: Option<(TfRuntime, String, usize, String)>)
    ensures
        match r {
            Some((k, tag, line, kp)) => container_version_s(*c, raw@, kind@) == seq![(k, tag@, line, kp@)],
            None => container_version_s(*c, raw@, kind@) == Seq::<TfFound>::empty(),
        },
{
    match mget(c, "image") {
        Some(ManifestValue::Text(img)) => match k8s_image_runtime(img.as_str()) {
            Some((k, tag)) => {
                let line = find_line_in_text(raw, img.as_str());
                let mut kp = String::new();
                push_str(&mut kp, kind);
                push_str(&mut kp, ".containers.image");
                Some((k, tag, line, kp))
            },
            None => None,
        },
        _ => None,
    }
}

fn push_container_versions(
    cs: &Vec<ManifestValue>,
    raw: &str,
    kind: &str,
    file: &str,
    out: &mut Vec<ConfigAssertion>,
    base: Ghost<Seq<TfFound>>,
)
    requires
        old(out)@.len() == base@.len(),
        forall|k: int| 0 <= k < base@.len() ==> k8s_version_ok(#[trigger] old(out)@[k], base@[k], file@),
    ensures
        ({
            let all = base@ + container_versions_s(cs@, raw@, kind@);
            &&& final(out)@.len() == all.len()
            &&& forall|k: int| 0 <= k < all.len() ==> k8s_version_ok(#[trigger] final(out)@[k], all[k], file@)
        }),
{
    let mut i: usize = 0;
    while i < cs.len()
        invariant
            i <= cs@.len(),
            out@.len() == (base@ + container_versions_s(cs@.take(i as int), raw@, kind@)).len(),
            forall|k: int|
                0 <= k < out@.len() ==> k8s_version_ok(
                    #[trigger] out@[k],
                    (base@ + container_versions_s(cs@.take(i as int), raw@, kind@))[k],
                    file@,
                ),
        decreases cs@.len() - i,
    {
        proof {
            assert(cs@.take(i + 1).drop_last() == cs@.take(i as int));
            assert(cs@.take(i + 1).last() == cs@[i as int]);
        }
        let ghost before = base@ + container_versions_s(cs@.take(i as int), raw@, kind@);
        match container_version(&cs[i], raw, kind) {
            Some((k, tag, line, kp)) => {
                let a = ConfigAssertion::new(
                    tf_concept(k),
                    SemanticType::Version(crate::model::parse_version(tag.as_str())),
                    tag,
                    SourceLocation { file: String::from_str(file), line, column: 0, key_path: kp },
                    Authority::Enforced,
                    "iac-kubernetes-version",
                );
                let ghost prev = out@;
                out.push(a);
                proof {
                    let after = base@ + container_versions_s(cs@.take(i + 1), raw@, kind@);
                    assert(after =~= before.push(after.last()));
                    assert forall|k2: int| 0 <= k2 < out@.len() implies k8s_version_ok(
                        #[trigger] out@[k2],
                        after[k2],
                        file@,
                    ) by {
                        if k2 < prev.len() {
                            assert(out@[k2] == prev[k2]);
                            assert(after[k2] == before[k2]);
                        }
                    }
                }
            },
            None => {
                proof {
                    assert(base@ + container_versions_s(cs@.take(i + 1), raw@, kind@) =~= before);
                }
            },
        }
        i = i + 1;
    }
    assert(cs@.take(cs@.len() as int) == cs@);
}

fn push_versions_of(
    list: Option<&Vec<ManifestValue>>,
    raw: &str,
    kind: &str,
    file: &str,
    out: &mut Vec<ConfigAssertion>,
    base: Ghost<Seq<TfFound>>,
)
    requires
        old(out)@.len() == base@.len(),
        forall|k: int| 0 <= k < base@.len() ==> k8s_version_ok(#[trigger] old(out)@[k], base@[k], file@),
    ensures
        ({
            let cs = match list {
                Some(xs) => xs@,
                None => seq![],
            };
            let all = base@ + container_versions_s(cs, raw@, kind@);
            &&& final(out)@.len() == all.len()
            &&& forall|k: int| 0 <= k < all.len() ==> k8s_version_ok(#[trigger] final(out)@[k], all[k], file@)
        }),
{
    match list {
        Some(xs) => push_container_versions(xs, raw, kind, file, out, base),
        None => {
            assert(base@ + container_versions_s(seq![], raw@, kind@) =~= base@);
        },
    }
}

impl KubernetesVersionExtractor {
    /// The runtime versions of a workload manifest: for each container, in
    /// the order of `containers_s`, whose image is a known runtime image,
    /// the image's tag as a version, at the first line that holds the
    /// image, under the key path `<kind>.containers.image`. Other manifests
    /// give none.
    pub fn extract_from_manifest(&self, value: &ManifestValue, file: &ParsedFile) -> (r: Vec<ConfigAssertion>)
        ensures
            r@.len() == k8s_versions_s(*value, file.raw_text@).len(),
            forall|k: int|
                0 <= k < r@.len() ==> k8s_version_ok(
                    #[trigger] r@[k],
                    k8s_versions_s(*value, file.raw_text@)[k],
                    file.path@,
                ),
    {
        let mut out: Vec<ConfigAssertion> = Vec::new();
        let kind = kind_of(value);
        if !is_workload(kind.as_str()) {
            return out;
        }
        let raw = file.raw_text.as_str();
        let path = file.path.as_str();
        let k = kind.as_str();
        let spec = mget(value, "spec");
        let l1 = list_of(oget(spec, "containers"));
        let l2 = list_of(oget(oget(oget(spec, "template"), "spec"), "containers"));
        let l3 = list_of(
            oget(oget(oget(oget(oget(spec, "jobTemplate"), "spec"), "template"), "spec"), "containers"),
        );
        let ghost s1 = match l1 {
            Some(xs) => xs@,
            None => seq![],
        };
        let ghost s2 = match l2 {
            Some(xs) => xs@,
            None => seq![],
        };
        let ghost s3 = match l3 {
            Some(xs) => xs@,
            None => seq![],
        };
        let ghost e = Seq::<TfFound>::empty();
        push_versions_of(l1, raw, k, path, &mut out, Ghost(e));
        let ghost b1 = e + container_versions_s(s1, raw@, k@);
        push_versions_of(l2, raw, k, path, &mut out, Ghost(b1));
        let ghost b2 = b1 + container_versions_s(s2, raw@, k@);
        push_versions_of(l3, raw, k, path, &mut out, Ghost(b2));
        proof {
            assert(containers_s(*value) == s1 + s2 + s3);
            lemma_versions_concat(s1 + s2, s3, raw@, k@);
            lemma_versions_concat(s1, s2, raw@, k@);
            assert(b2 + container_versions_s(s3, raw@, k@) =~= k8s_versions_s(*value, file.raw_text@));
        }
        out
    }
}

fn push_port_entries(
    ps: &Vec<ManifestValue>,
    field: &str,
    key_path: &str,
    raw: &str,
    file: &str,
    out: &mut Vec<ConfigAssertion>,
    base: Ghost<Seq<K8sPort>>,
)
    requires
        old(out)@.len() == base@.len(),
        forall|k: int| 0 <= k < base@.len() ==> k8s_port_ok(#[trigger] old(out)@[k], base@[k], file@),
    ensures
        ({
            let all = base@ + port_entries_s(ps@, field@, key_path@, raw@);
            &&& final(out)@.len() == all.len()
            &&& forall|k: int| 0 <= k < all.len() ==> k8s_port_ok(#[trigger] final(out)@[k], all[k], file@)
        }),
{
    let mut i: usize = 0;
    while i < ps.len()
        invariant
            i <= ps@.len(),
            out@.len() == (base@ + port_entries_s(ps@.take(i as int), field@, key_path@, raw@)).len(),
            forall|k: int|
                0 <= k < out@.len() ==> k8s_port_ok(
                    #[trigger] out@[k],
                    (base@ + port_entries_s(ps@.take(i as int), field@, key_path@, raw@))[k],
                    file@,
                ),
        decreases ps@.len() - i,
    {
        proof {
            assert(ps@.take(i + 1).drop_last() == ps@.take(i as int));
            assert(ps@.take(i + 1).last() == ps@[i as int]);
        }
        let ghost before = base@ + port_entries_s(ps@.take(i as int), field@, key_path@, raw@);
        match mget(&ps[i], field) {
            Some(ManifestValue::Number(n)) if *n <= 65535 => {
                let port: u16 = *n as u16;
                let mut digits = String::new();
                push_decimal(&mut digits, *n);
                let line = find_line_in_text(raw, digits.as_str());
                let mut rawv = String::new();
                push_decimal(&mut rawv, port as u64);
                let a = port_assertion(
                    PortSpec::Single(port),
                    rawv,
                    file,
                    line,
                    String::from_str(key_path),
                    Authority::Enforced,
                    "iac-kubernetes-port",
                );
                let ghost prev = out@;
                out.push(a);
                proof {
                    let after = base@ + port_entries_s(ps@.take(i + 1), field@, key_path@, raw@);
                    assert(after =~= before.push(after.last()));
                    assert forall|k2: int| 0 <= k2 < out@.len() implies k8s_port_ok(
                        #[trigger] out@[k2],
                        after[k2],
                        file@,
                    ) by {
                        if k2 < prev.len() {
                            assert(out@[k2] == prev[k2]);
                            assert(after[k2] == before[k2]);
                        }
                    }
                }
            },
            _ => {
                proof {
                    assert(base@ + port_entries_s(ps@.take(i + 1), field@, key_path@, raw@) =~= before);
                }
            },
        }
        i = i + 1;
    }
    assert(ps@.take(ps@.len() as int) == ps@);
}

fn push_entries_of(
    list: Option<&Vec<ManifestValue>>,
    field: &str,
    key_path: &str,
    raw: &str,
    file: &str,
    out: &mut Vec<ConfigAssertion>,
    base: Ghost<Seq<K8sPort>>,
)
    requires
        old(out)@.len() == base@.len(),
        forall|k: int| 0 <= k < base@.len() ==> k8s_port_ok(#[trigger] old(out)@[k], base@[k], file@),
    ensures
        ({
            let ps = match list {
                Some(xs) => xs@,
                None => seq![],
            };
            let all = base@ + port_entries_s(ps, field@, key_path@, raw@);
            &&& final(out)@.len() == all.len()
            &&& forall|k: int| 0 <= k < all.len() ==> k8s_port_ok(#[trigger] final(out)@[k], all[k], file@)
        }),
{
    match list {
        Some(xs) => push_port_entries(xs, field, key_path, raw, file, out, base),
        None => {
            assert(base@ + port_entries_s(seq![], field@, key_path@, raw@) =~= base@);
        },
    }
}

fn push_container_ports(
    cs: &Vec<ManifestValue>,
    raw: &str,
    file: &str,
    out: &mut Vec<ConfigAssertion>,
    base: Ghost<Seq<K8sPort>>,
)
    requires
        old(out)@.len() == base@.len(),
        forall|k: int| 0 <= k < base@.len() ==> k8s_port_ok(#[trigger] old(out)@[k], base@[k], file@),
    ensures
        ({
            let all = base@ + container_ports_s(cs@, raw@);
            &&& final(out)@.len() == all.len()
            &&& forall|k: int| 0 <= k < all.len() ==> k8s_port_ok(#[trigger] final(out)@[k], all[k], file@)
        }),
{
    let mut i: usize = 0;
    while i < cs.len()
        invariant
            i <= cs@.len(),
            out@.len() == (base@ + container_ports_s(cs@.take(i as int), raw@)).len(),
            forall|k: int|
                0 <= k < out@.len() ==> k8s_port_ok(
                    #[trigger] out@[k],
                    (base@ + container_ports_s(cs@.take(i as int), raw@))[k],
                    file@,
                ),
        decreases cs@.len() - i,
    {
        proof {
            assert(cs@.take(i + 1).drop_last() == cs@.take(i as int));
            assert(cs@.take(i + 1).last() == cs@[i as int]);
            reveal_strlit("containerPort");
            reveal_strlit("spec.containers.ports.containerPort");
        }
        let ghost before = base@ + container_ports_s(cs@.take(i as int), raw@);
        let ports = list_of(mget(&cs[i], "ports"));
        push_entries_of(ports, "containerPort", "spec.containers.ports.containerPort", raw, file, out, Ghost(before));
        proof {
            let ps = match ports {
                Some(xs) => xs@,
                None => seq![],
            };
            assert(before + port_entries_s(ps, "containerPort"@, "spec.containers.ports.containerPort"@, raw@)
                =~= base@ + container_ports_s(cs@.take(i + 1), raw@));
        }
        i = i + 1;
    }
    assert(cs@.take(cs@.len() as int) == cs@);
}

fn push_ports_of(
    list: Option<&Vec<ManifestValue>>,
    raw: &str,
    file: &str,
    out: &mut Vec<ConfigAssertion>,
    base: Ghost<Seq<K8sPort>>,
)
    requires
        old(out)@.len() == base@.len(),
        forall|k: int| 0 <= k < base@.len() ==> k8s_port_ok(#[trigger] old(out)@[k], base@[k], file@),
    ensures
        ({
            let cs = match list {
                Some(xs) => xs@,
                None => seq![],
            };
            let all = base@ + container_ports_s(cs, raw@);
            &&& final(out)@.len() == all.len()
            &&& forall|k: int| 0 <= k < all.len() ==> k8s_port_ok(#[trigger] final(out)@[k], all[k], file@)
        }),
{
    match list {
        Some(xs) => push_container_ports(xs, raw, file, out, base),
        None => {
            assert(base@ + container_ports_s(seq![], raw@) =~= base@);
        },
    }
}

impl KubernetesPortExtractor {
    /// The ports of a manifest: for a workload, each `containerPort` of
    /// each container's `ports` (containers in the order of
    /// `containers_s`); for a Service, each `targetPort` of `spec.ports`;
    /// each only when it is an integer that fits in 16 bits, at the first
    /// line that holds its digits.
    pub fn extract_from_manifest(&self, value: &ManifestValue, file: &ParsedFile) -> (r: Vec<ConfigAssertion>)
        ensures
            r@.len() == k8s_ports_s(*value, file.raw_text@).len(),
            forall|k: int|
                0 <= k < r@.len() ==> k8s_port_ok(#[trigger] r@[k], k8s_ports_s(*value, file.raw_text@)[k], file.path@),
    {
        let mut out: Vec<ConfigAssertion> = Vec::new();
        let kind = kind_of(value);
        let raw = file.raw_text.as_str();
        let path = file.path.as_str();
        let spec = mget(value, "spec");
        let ghost e = Seq::<K8sPort>::empty();
        let ghost workload: Seq<K8sPort> = if is_workload_kind(kind@) {
            container_ports_s(containers_s(*value), raw@)
        } else {
            seq![]
        };
        if is_workload(kind.as_str()) {
            let l1 = list_of(oget(spec, "containers"));
            let l2 = list_of(oget(oget(oget(spec, "template"), "spec"), "containers"));
            let l3 = list_of(
                oget(oget(oget(oget(oget(spec, "jobTemplate"), "spec"), "template"), "spec"), "containers"),
            );
            let ghost s1 = match l1 {
                Some(xs) => xs@,
                None => seq![],
            };
            let ghost s2 = match l2 {
                Some(xs) => xs@,
                None => seq![],
            };
            let ghost s3 = match l3 {
                Some(xs) => xs@,
                None => seq![],
            };
            push_ports_of(l1, raw, path, &mut out, Ghost(e));
            let ghost b1 = e + container_ports_s(s1, raw@);
            push_ports_of(l2, raw, path, &mut out, Ghost(b1));
            let ghost b2 = b1 + container_ports_s(s2, raw@);
            push_ports_of(l3, raw, path, &mut out, Ghost(b2));
            proof {
                assert(containers_s(*value) == s1 + s2 + s3);
                lemma_ports_concat(s1 + s2, s3, raw@);
                lemma_ports_concat(s1, s2, raw@);
                assert(b2 + container_ports_s(s3, raw@) =~= workload);
            }
        } else {
            assert(e =~= workload);
        }
        proof {
            reveal_strlit("Service");
            reveal_strlit("targetPort");
            reveal_strlit("spec.ports.targetPort");
        }
        if str_eq(kind.as_str(), "Service") {
            let ps = list_of(oget(spec, "ports"));
            push_entries_of(ps, "targetPort", "spec.ports.targetPort", raw, path, &mut out, Ghost(workload));
        } else {
            assert(workload + seq![] =~= workload);
        }
        out
    }
}

} // verus!

verus! {

/// One of the kinds whose pods run containers, as the extractor documents
/// them.
pub open spec fn documented_workload_kind(k: Seq<char>) -> bool {
    ||| k == "Deployment"@
    ||| k == "StatefulSet"@
    ||| k == "DaemonSet"@
    ||| k == "ReplicaSet"@
    ||| k == "Job"@
    ||| k == "CronJob"@
    ||| k == "Pod"@
}

proof fn lemma_versions_differ_only_in_kind(cs: Seq<ManifestValue>, raw: Seq<char>, k1: Seq<char>, k2: Seq<char>)
    ensures
        container_versions_s(cs, raw, k1).len() == container_versions_s(cs, raw, k2).len(),
        forall|i: int|
            0 <= i < container_versions_s(cs, raw, k1).len() ==> {
                let a = #[trigger] container_versions_s(cs, raw, k1)[i];
                let b = container_versions_s(cs, raw, k2)[i];
                &&& a.0 == b.0
                &&& a.1 == b.1
                &&& a.2 == b.2
                &&& a.3 == k1 + ".containers.image"@
                &&& b.3 == k2 + ".containers.image"@
            },
    decreases cs.len(),
{
    if cs.len() > 0 {
        lemma_versions_differ_only_in_kind(cs.drop_last(), raw, k1, k2);
    }
}

proof fn lemma_not_service(k: Seq<char>)
    requires
        documented_workload_kind(k),
    ensures
        k != "Service"@,
{
    reveal_strlit("Service");
    reveal_strlit("Deployment");
    reveal_strlit("StatefulSet");
    reveal_strlit("DaemonSet");
    reveal_strlit("ReplicaSet");
    reveal_strlit("Job");
    reveal_strlit("CronJob");
    reveal_strlit("Pod");
    assert("Service"@.len() == 7);
    if k == "CronJob"@ {
        assert(k[0] != "Service"@[0]);
    } else {
        assert(k.len() != 7);
    }
}

/// Every documented workload kind (Deployment, StatefulSet, DaemonSet,
/// ReplicaSet, Job, CronJob, Pod) is read from its containers, and read
/// alike: its versions are those of its containers and its ports their
/// `containerPort`s; two such manifests with the same containers give the
/// same ports, and the same runtimes and tags at the same lines, told
/// apart only by the kind that starts each version's key path.
pub proof fn law_workload_kinds_read_alike(v: ManifestValue, w: ManifestValue, raw: Seq<char>)
    requires
        documented_workload_kind(kind_s(v)),
        documented_workload_kind(kind_s(w)),
        containers_s(v) == containers_s(w),
    ensures
        k8s_versions_s(v, raw) == container_versions_s(containers_s(v), raw, kind_s(v)),
        k8s_ports_s(v, raw) == container_ports_s(containers_s(v), raw),
        k8s_ports_s(v, raw) == k8s_ports_s(w, raw),
        k8s_versions_s(v, raw).len() == k8s_versions_s(w, raw).len(),
        forall|i: int|
            0 <= i < k8s_versions_s(v, raw).len() ==> {
                let a = #[trigger] k8s_versions_s(v, raw)[i];
                let b = k8s_versions_s(w, raw)[i];
                &&& a.0 == b.0
                &&& a.1 == b.1
                &&& a.2 == b.2
                &&& a.3 == kind_s(v) + ".containers.image"@
                &&& b.3 == kind_s(w) + ".containers.image"@
            },
{
    lemma_not_service(kind_s(v));
    lemma_not_service(kind_s(w));
    assert(k8s_ports_s(v, raw) =~= container_ports_s(containers_s(v), raw));
    assert(k8s_ports_s(w, raw) =~= container_ports_s(containers_s(w), raw));
    lemma_versions_differ_only_in_kind(containers_s(v), raw, kind_s(v), kind_s(w));
}

/// A manifest of any other kind (a Service, a ConfigMap, ...) gives no
/// runtime versions, whatever containers it names.
pub proof fn law_other_kinds_give_no_versions(v: ManifestValue, raw: Seq<char>)
    requires
        !documented_workload_kind(kind_s(v)),
    ensures
        k8s_versions_s(v, raw) == Seq::<TfFound>::empty(),
{
}

} // verus!
