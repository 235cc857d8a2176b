//! Ports of docker-compose `ports` entries, short and long form, and the
//! defaults of `${VAR:-default}` references.
use vstd::prelude::*;
use vstd::string::*;
use crate::model::semantic_type::{
    parse_port, parse_port_fragment, parse_port_s, parse_u16_chars, port_fragment_s, port_u16_s,
    strip_protocol, strip_protocol_s, PortSpec,
};
use crate::text::{
    chars_eq_ignore_ascii_case, decimal_chars, decimal_s, eq_ignore_ascii_case_s, from_chars,
    push_str, to_chars, trim_chars, trim_s, vv,
};
use crate::pattern::{captured_group, captured_group_s};
use super::catalog::{DockerfilePortExtractor, EnvPortExtractor};
use super::versions::located;
use crate::model::{Authority, ConfigAssertion, SemanticConcept, SemanticType, SourceLocation};
use crate::parse::{DockerInstruction, EnvEntry, FileContent, ParsedFile};
use crate::text::{lemma_split_len, split_chars, split_s, str_eq, to_uppercase, unicode_uppercase, words, words_s};

verus! {

// ---------------------------------------------------------------------
// Short syntax: `[HOST:]HOST_PORT:CONTAINER_PORT[/PROTOCOL]`
// ---------------------------------------------------------------------

/// The scan of `s` for `:` separators outside `[...]`: the pieces done, the
/// piece under way, and the bracket depth (which never goes below zero).
pub open spec fn compose_scan(s: Seq<char>) -> (Seq<Seq<char>>, Seq<char>, nat)
    decreases s.len(),
{
    if s.len() == 0 {
        (Seq::empty(), Seq::empty(), 0)
    } else {
        let (done, cur, depth) = compose_scan(s.drop_last());
        let c = s.last();
        if c == '[' {
            (done, cur.push(c), depth + 1)
        } else if c == ']' {
            (done, cur.push(c), if depth > 0 {
                (depth - 1) as nat
            } else {
                0
            })
        } else if c == ':' && depth == 0 {
            (done.push(cur), Seq::empty(), depth)
        } else {
            (done, cur.push(c), depth)
        }
    }
}

/// Each piece trimmed.
pub open spec fn trim_all(ps: Seq<Seq<char>>) -> Seq<Seq<char>> {
    ps.map_values(|p: Seq<char>| trim_s(p))
}

/// The trimmed segments of a compose port between top-level `:` separators
/// (a bracketed IPv6 address is one segment).
pub open spec fn compose_segments_s(s: Seq<char>) -> Seq<Seq<char>> {
    let (done, cur, depth) = compose_scan(s);
    trim_all(done.push(cur))
}

/// The port of the published part and the container part of a short entry:
/// two single ports make a mapping, otherwise the container part stands;
/// the published part must parse.
pub open spec fn compose_short_port_spec_s(published: Seq<char>, container: PortSpec) -> Option<
    PortSpec,
> {
    match port_fragment_s(published) {
        None => None,
        Some(p) => match (p, container) {
            (PortSpec::Single(host), PortSpec::Single(c)) => Some(
                PortSpec::Mapping { host, container: c },
            ),
            _ => Some(container),
        },
    }
}

/// The port of a short-syntax compose entry: the last segment is the
/// container part, the one before it the published part.
pub open spec fn compose_short_port_s(raw: Seq<char>) -> Option<PortSpec> {
    let segs = compose_segments_s(strip_protocol_s(trim_s(raw)));
    if segs.len() <= 1 {
        if segs.len() == 0 {
            None
        } else {
            port_fragment_s(segs[0])
        }
    } else {
        match port_fragment_s(segs.last()) {
            None => None,
            Some(container) => compose_short_port_spec_s(segs[segs.len() - 2], container),
        }
    }
}

/// Split a compose port at its top-level `:` separators, trimming each segment.
pub fn split_compose_port_segments(raw: &[char]) -> (r: Vec<Vec<char>>)
    ensures
        vv(r@) == compose_segments_s(raw@),
{
    let mut done: Vec<Vec<char>> = Vec::new();
    let mut cur: Vec<char> = Vec::new();
    let mut depth: usize = 0;
    let mut i: usize = 0;
    while i < raw.len()
        invariant
            i <= raw.len(),
            depth <= i,
            (vv(done@), cur@, depth as nat) == compose_scan(raw@.take(i as int)),
        decreases raw.len() - i,
    {
        let c = raw[i];
        proof {
            assert(raw@.take(i + 1).drop_last() == raw@.take(i as int));
            assert(raw@.take(i + 1).last() == c);
        }
        if c == '[' {
            cur.push(c);
            depth = depth + 1;
        } else if c == ']' {
            cur.push(c);
            if depth > 0 {
                depth = depth - 1;
            }
        } else if c == ':' && depth == 0 {
            let ghost d0 = vv(done@);
            let piece = cur;
            cur = Vec::new();
            done.push(piece);
            proof {
                assert(vv(done@) =~= d0.push(piece@));
            }
        } else {
            cur.push(c);
        }
        i = i + 1;
    }
    assert(raw@.take(raw.len() as int) == raw@);
    let ghost d0 = vv(done@);
    let last = cur;
    done.push(last);
    assert(vv(done@) =~= d0.push(last@));
    let ghost pieces = vv(done@);
    let mut out: Vec<Vec<char>> = Vec::new();
    let mut k: usize = 0;
    while k < done.len()
        invariant
            k <= done.len(),
            pieces == vv(done@),
            vv(out@) == trim_all(pieces.take(k as int)),
        decreases done.len() - k,
    {
        let ghost o = vv(out@);
        let t = trim_chars(done[k].as_slice());
        out.push(t);
        proof {
            assert(vv(out@) =~= o.push(trim_s(pieces[k as int])));
            assert(trim_all(pieces.take(k + 1)) =~= trim_all(pieces.take(k as int)).push(
                trim_s(pieces[k as int]),
            ));
        }
        k = k + 1;
    }
    assert(pieces.take(done.len() as int) == pieces);
    out
}

/// The raw value without a final `/tcp` or `/udp`, trimmed first.
pub fn strip_port_protocol(raw: &str) -> (r: String)
    ensures
        r@ == strip_protocol_s(trim_s(raw@)),
{
    let cs = to_chars(raw);
    let t = trim_chars(cs.as_slice());
    let s = strip_protocol(t.as_slice());
    from_chars(s.as_slice())
}

/// A compose port fragment: a single port or a `start-end` range.
pub fn parse_compose_port_fragment(raw: &str) -> (r: Option<PortSpec>)
    ensures
        r == port_fragment_s(raw@),
{
    let cs = to_chars(raw);
    parse_port_fragment(cs.as_slice())
}

/// The port of a published part and a parsed container part.
pub fn compose_short_port_spec(published: &str, container: PortSpec) -> (r: Option<PortSpec>)
    ensures
        r == compose_short_port_spec_s(published@, container),
{
    let p = match parse_compose_port_fragment(published) {
        None => return None,
        Some(p) => p,
    };
    match (p, container) {
        (PortSpec::Single(host), PortSpec::Single(c)) => Some(PortSpec::Mapping { host, container: c }),
        _ => Some(container),
    }
}

/// Parse a short-syntax compose port.
pub fn parse_compose_short_port(raw: &str) -> (r: Option<PortSpec>)
    ensures
        r == compose_short_port_s(raw@),
{
    let cs = to_chars(raw);
    let t = trim_chars(cs.as_slice());
    let stripped = strip_protocol(t.as_slice());
    let segs = split_compose_port_segments(stripped.as_slice());
    let ghost sv = vv(segs@);
    if segs.len() == 0 {
        return None;
    }
    if segs.len() == 1 {
        assert(sv[0] == segs@[0]@);
        return parse_port_fragment(segs[0].as_slice());
    }
    let n = segs.len();
    assert(sv.last() == segs@[n - 1]@);
    assert(sv[n - 2] == segs@[n - 2]@);
    let container = match parse_port_fragment(segs[n - 1].as_slice()) {
        None => return None,
        Some(c) => c,
    };
    let published = from_chars(segs[n - 2].as_slice());
    compose_short_port_spec(published.as_str(), container)
}

// ---------------------------------------------------------------------
// Long syntax and entries
// ---------------------------------------------------------------------

/// A `target` or `published` value: a number or a string.
#[derive(Debug, Clone)]
pub enum ComposePortValue {
    Number(u16),
    String(String),
}

/// A long-syntax compose port.
#[derive(Debug, Clone)]
pub struct ComposePortMapping {
    pub target: ComposePortValue,
    pub published: Option<ComposePortValue>,
    pub protocol: Option<String>,
}

/// A compose `ports` entry: a string, a number or a mapping.
#[derive(Debug, Clone)]
pub enum ComposePortEntry {
    Scalar(String),
    Number(u16),
    Mapping(ComposePortMapping),
}

impl ComposePortValue {
    /// The value as it is displayed.
    pub open spec fn shown(&self) -> Seq<char> {
        match self {
            ComposePortValue::Number(v) => decimal_s(*v as nat),
            ComposePortValue::String(v) => v@,
        }
    }

    /// The value as a port number, a string trimmed first.
    pub open spec fn port(&self) -> Option<u16> {
        match self {
            ComposePortValue::Number(v) => Some(*v),
            ComposePortValue::String(v) => port_u16_s(trim_s(v@)),
        }
    }

    /// The value as it is displayed.
    pub fn display(&self) -> (r: String)
        ensures
            r@ == self.shown(),
    {
        match self {
            ComposePortValue::Number(v) => {
                let d = decimal_chars(*v as u64);
                from_chars(d.as_slice())
            },
            ComposePortValue::String(v) => v.clone(),
        }
    }

    /// The value as a port number.
    pub fn as_u16(&self) -> (r: Option<u16>)
        ensures
            r == self.port(),
    {
        match self {
            ComposePortValue::Number(v) => Some(*v),
            ComposePortValue::String(v) => {
                let cs = to_chars(v.as_str());
                let t = trim_chars(cs.as_slice());
                parse_u16_chars(t.as_slice())
            },
        }
    }
}

/// A parsed entry as (raw value, port, lines to look for it by).
pub type PortEntryView = (Seq<char>, PortSpec, Seq<Seq<char>>);

pub open spec fn strings_view(v: Seq<String>) -> Seq<Seq<char>> {
    v.map_values(|s: String| s@)
}

pub open spec fn entry_result_view(r: Option<(String, PortSpec, Vec<String>)>) -> Option<PortEntryView> {
    match r {
        Some((raw, port, hints)) => Some((raw@, port, strings_view(hints@))),
        None => None,
    }
}

/// `/protocol` for a protocol other than TCP, nothing otherwise.
pub open spec fn protocol_suffix_s(protocol: Option<String>) -> Seq<char> {
    match protocol {
        Some(p) => if p@.len() > 0 && !eq_ignore_ascii_case_s(p@, "tcp"@) {
            "/"@ + p@
        } else {
            Seq::empty()
        },
        None => Seq::empty(),
    }
}

/// A long-syntax port: the target must be a port number; a published port
/// number makes a mapping, a published range leaves the target alone, and
/// anything else there is refused.
pub open spec fn long_form_port_s(m: ComposePortMapping) -> Option<PortEntryView> {
    match m.target.port() {
        None => None,
        Some(target) => {
            let td = m.target.shown();
            let suffix = protocol_suffix_s(m.protocol);
            match m.published {
                Some(pb) => {
                    let pd = pb.shown();
                    let port = match pb.port() {
                        Some(host) => Some(PortSpec::Mapping { host, container: target }),
                        None => if parse_port_s(pd) is Some {
                            Some(PortSpec::Single(target))
                        } else {
                            None
                        },
                    };
                    match port {
                        None => None,
                        Some(port) => Some(
                            (
                                pd + ":"@ + td + suffix,
                                port,
                                seq!["published: "@ + pd, "target: "@ + td, pd, td],
                            ),
                        ),
                    }
                },
                None => Some((td + suffix, PortSpec::Single(target), seq!["target: "@ + td, td])),
            }
        },
    }
}

/// A compose `ports` entry parsed: scalars by the short syntax, mappings by
/// the long one.
pub open spec fn port_entry_s(e: ComposePortEntry) -> Option<PortEntryView> {
    match e {
        ComposePortEntry::Scalar(raw) => match compose_short_port_s(raw@) {
            Some(p) => Some((raw@, p, seq![raw@])),
            None => None,
        },
        ComposePortEntry::Number(n) => match compose_short_port_s(decimal_s(n as nat)) {
            Some(p) => Some((decimal_s(n as nat), p, seq![decimal_s(n as nat)])),
            None => None,
        },
        ComposePortEntry::Mapping(m) => long_form_port_s(m),
    }
}

fn protocol_suffix(protocol: &Option<String>) -> (r: String)
    ensures
        r@ == protocol_suffix_s(*protocol),
{
    match protocol {
        Some(p) => {
            let cs = to_chars(p.as_str());
            let tcp = to_chars("tcp");
            if cs.len() > 0 && !chars_eq_ignore_ascii_case(cs.as_slice(), tcp.as_slice()) {
                let mut out = String::from_str("/");
                push_str(&mut out, p.as_str());
                out
            } else {
                String::new()
            }
        },
        None => String::new(),
    }
}

fn prefixed(prefix: &str, s: &str) -> (r: String)
    ensures
        r@ == prefix@ + s@,
{
    let mut out = String::from_str(prefix);
    push_str(&mut out, s);
    out
}

/// Parse a long-syntax compose port.
pub fn parse_compose_long_form_port(mapping: &ComposePortMapping) -> (r: Option<(String, PortSpec, Vec<String>)>)
    ensures
        entry_result_view(r) == long_form_port_s(*mapping),
{
    let target = match mapping.target.as_u16() {
        None => return None,
        Some(t) => t,
    };
    let td = mapping.target.display();
    let suffix = protocol_suffix(&mapping.protocol);
    match &mapping.published {
        Some(pb) => {
            let pd = pb.display();
            let port = match pb.as_u16() {
                Some(host) => PortSpec::Mapping { host, container: target },
                None => {
                    if parse_port(pd.as_str()).is_some() {
                        PortSpec::Single(target)
                    } else {
                        return None;
                    }
                },
            };
            let mut raw = String::new();
            push_str(&mut raw, pd.as_str());
            push_str(&mut raw, ":");
            push_str(&mut raw, td.as_str());
            push_str(&mut raw, suffix.as_str());
            let mut hints: Vec<String> = Vec::new();
            hints.push(prefixed("published: ", pd.as_str()));
            hints.push(prefixed("target: ", td.as_str()));
            hints.push(pd.clone());
            hints.push(td.clone());
            let r = Some((raw, port, hints));
            assert(entry_result_view(r) =~= long_form_port_s(*mapping));
            r
        },
        None => {
            let mut raw = String::new();
            push_str(&mut raw, td.as_str());
            push_str(&mut raw, suffix.as_str());
            let mut hints: Vec<String> = Vec::new();
            hints.push(prefixed("target: ", td.as_str()));
            hints.push(td.clone());
            let r = Some((raw, PortSpec::Single(target), hints));
            assert(entry_result_view(r) =~= long_form_port_s(*mapping));
            r
        },
    }
}

/// Parse a compose `ports` entry into its raw value, port, and the texts
/// to look for its line by.
pub fn parse_compose_port_entry(entry: &ComposePortEntry) -> (r: Option<(String, PortSpec, Vec<String>)>)
    ensures
        entry_result_view(r) == port_entry_s(*entry),
{
    match entry {
        ComposePortEntry::Scalar(raw) => match parse_compose_short_port(raw.as_str()) {
            Some(port) => {
                let mut hints: Vec<String> = Vec::new();
                hints.push(raw.clone());
                let r = Some((raw.clone(), port, hints));
                assert(entry_result_view(r) =~= port_entry_s(*entry));
                r
            },
            None => None,
        },
        ComposePortEntry::Number(n) => {
            let d = decimal_chars(*n as u64);
            let raw = from_chars(d.as_slice());
            match parse_compose_short_port(raw.as_str()) {
                Some(port) => {
                    let mut hints: Vec<String> = Vec::new();
                    hints.push(raw.clone());
                    let r = Some((raw, port, hints));
                    assert(entry_result_view(r) =~= port_entry_s(*entry));
                    r
                },
                None => None,
            }
        },
        ComposePortEntry::Mapping(m) => parse_compose_long_form_port(m),
    }
}

// ---------------------------------------------------------------------
// `${VAR:-default}`
// ---------------------------------------------------------------------

/// The `${VAR:-default}` form of a value.
pub const ENV_DEFAULT_PATTERN: &'static str = r"\$\{(\w+):-([^}]*)\}";

/// The default of the first `${VAR:-default}` in the text: group 2 of the
/// first match of `ENV_DEFAULT_PATTERN`, if the pattern matches.
pub open spec fn env_default_capture(raw: Seq<char>) -> Option<Seq<char>> {
    captured_group_s(ENV_DEFAULT_PATTERN@, raw, 2)
}

fn capture_env_default(raw: &str) -> (r: Option<String>)
    ensures
        match r {
            Some(v) => env_default_capture(raw@) == Some(v@),
            None => env_default_capture(raw@) is None,
        },
{
    captured_group(ENV_DEFAULT_PATTERN, raw, 2)
}

/// Resolve ${VAR:-default} to the default value.
pub fn resolve_env_default(raw: &str) -> (r: Option<String>)
    ensures
        match r {
            Some(v) => env_default_capture(raw@) == Some(v@),
            None => env_default_capture(raw@) is None,
        },
{
    capture_env_default(raw)
}


// ---------------------------------------------------------------------
// Ports of env files and Dockerfile EXPOSE lines
// ---------------------------------------------------------------------

/// An application port assertion.
pub fn port_assertion(
    port: PortSpec,
    raw: String,
    file: &str,
    line: usize,
    key_path: String,
    authority: Authority,
    extractor_id: &str,
) -> (r: ConfigAssertion)
    ensures
        located(r, "app-port"@, raw@, file@, line, key_path@, authority, extractor_id@),
        r.value == SemanticType::Port(port),
{
    ConfigAssertion::new(
        SemanticConcept::app_port(),
        SemanticType::Port(port),
        raw,
        SourceLocation { file: String::from_str(file), line, column: 0, key_path },
        authority,
        extractor_id,
    )
}

/// An env key that names the application port, in any case.
pub open spec fn port_key_s(key: Seq<char>) -> bool {
    let u = unicode_uppercase(key);
    u == "PORT"@ || u == "APP_PORT"@ || u == "SERVER_PORT"@
}

/// The port of an env entry: its key names the port, and its value (or the
/// default of a `${VAR:-default}` value) is a port.
pub open spec fn env_port_s(e: EnvEntry) -> Option<PortSpec> {
    if port_key_s(e.key@) {
        let resolved = match env_default_capture(e.value@) {
            Some(d) => d,
            None => e.value@,
        };
        parse_port_s(resolved)
    } else {
        None
    }
}

/// The env entries with a port, each with it, in order.
pub open spec fn env_port_hits(es: Seq<EnvEntry>) -> Seq<(EnvEntry, PortSpec)>
    decreases es.len(),
{
    if es.len() == 0 {
        Seq::empty()
    } else {
        let rest = env_port_hits(es.drop_last());
        match env_port_s(es.last()) {
            Some(p) => rest.push((es.last(), p)),
            None => rest,
        }
    }
}

/// One declared port assertion per env entry with a port: the entry's
/// value as raw text, at its line, keyed by its key.
pub open spec fn env_ports_ok(r: Seq<ConfigAssertion>, es: Seq<EnvEntry>, file: Seq<char>) -> bool {
    let hits = env_port_hits(es);
    &&& r.len() == hits.len()
    &&& forall|k: int|
        0 <= k < r.len() ==> {
            &&& located(
                #[trigger] r[k],
                "app-port"@,
                hits[k].0.value@,
                file,
                hits[k].0.line,
                hits[k].0.key@,
                Authority::Declared,
                "port-env"@,
            )
            &&& r[k].value == SemanticType::Port(hits[k].1)
        }
}

impl EnvPortExtractor {
    /// The ports of an env file's `PORT`, `APP_PORT` and `SERVER_PORT`
    /// entries.
    pub fn extract(&self, file: &ParsedFile) -> (r: Vec<ConfigAssertion>)
        ensures
            match file.content {
                FileContent::Env(es) => env_ports_ok(r@, es@, file.path@),
                _ => r@.len() == 0,
            },
    {
        let mut out: Vec<ConfigAssertion> = Vec::new();
        let es = match &file.content {
            FileContent::Env(es) => es,
            _ => return out,
        };
        let mut i: usize = 0;
        while i < es.len()
            invariant
                i <= es.len(),
                file.content == FileContent::Env(*es),
                env_ports_ok(out@, es@.take(i as int), file.path@),
            decreases es.len() - i,
        {
            proof {
                assert(es@.take(i + 1).drop_last() == es@.take(i as int));
                assert(es@.take(i + 1).last() == es@[i as int]);
            }
            let e = &es[i];
            let upper = to_uppercase(e.key.as_str());
            proof {
                reveal_strlit("PORT");
                reveal_strlit("APP_PORT");
                reveal_strlit("SERVER_PORT");
            }
            if str_eq(upper.as_str(), "PORT") || str_eq(upper.as_str(), "APP_PORT") || str_eq(
                upper.as_str(),
                "SERVER_PORT",
            ) {
                let resolved = match resolve_env_default(e.value.as_str()) {
                    Some(d) => d,
                    None => e.value.clone(),
                };
                match parse_port(resolved.as_str()) {
                    Some(port) => {
                        let a = port_assertion(
                            port,
                            e.value.clone(),
                            file.path.as_str(),
                            e.line,
                            e.key.clone(),
                            Authority::Declared,
                            self.id(),
                        );
                        let ghost prev = out@;
                        out.push(a);
                        proof {
                            let hits = env_port_hits(es@.take(i + 1));
                            assert forall|k: int| 0 <= k < out@.len() implies {
                                &&& located(
                                    #[trigger] out@[k],
                                    "app-port"@,
                                    hits[k].0.value@,
                                    file.path@,
                                    hits[k].0.line,
                                    hits[k].0.key@,
                                    Authority::Declared,
                                    "port-env"@,
                                )
                                &&& out@[k].value == SemanticType::Port(hits[k].1)
                            } by {
                                if k < prev.len() {
                                    assert(out@[k] == prev[k]);
                                }
                            }
                        }
                    },
                    None => {},
                }
            }
            i = i + 1;
        }
        assert(es@.take(es.len() as int) == es@);
        out
    }
}

/// The port of an `EXPOSE` token: the token up to its first `/`, as a port.
pub open spec fn expose_port_s(token: Seq<char>) -> Option<PortSpec> {
    parse_port_s(split_s(token, '/')[0])
}

/// The tokens of an `EXPOSE` line that are ports, each with it, in order.
pub open spec fn expose_token_hits(ws: Seq<Seq<char>>) -> Seq<(Seq<char>, PortSpec)>
    decreases ws.len(),
{
    if ws.len() == 0 {
        Seq::empty()
    } else {
        let rest = expose_token_hits(ws.drop_last());
        match expose_port_s(ws.last()) {
            Some(p) => rest.push((ws.last(), p)),
            None => rest,
        }
    }
}

/// The port tokens of the `EXPOSE` instructions, with their lines, in order.
pub open spec fn expose_hits(xs: Seq<DockerInstruction>) -> Seq<(Seq<char>, usize, PortSpec)>
    decreases xs.len(),
{
    if xs.len() == 0 {
        Seq::empty()
    } else {
        let x = xs.last();
        expose_hits(xs.drop_last()) + if x.instruction@ == "EXPOSE"@ {
            expose_token_hits(words_s(x.arguments@)).map_values(
                |h: (Seq<char>, PortSpec)| (h.0, x.line, h.1),
            )
        } else {
            Seq::empty()
        }
    }
}

/// One declared port assertion per port token of the `EXPOSE` lines: the
/// token as raw text, at the instruction's line, keyed `EXPOSE`.
pub open spec fn expose_ports_ok(r: Seq<ConfigAssertion>, xs: Seq<DockerInstruction>, file: Seq<char>) -> bool {
    let hits = expose_hits(xs);
    &&& r.len() == hits.len()
    &&& forall|k: int|
        0 <= k < r.len() ==> {
            &&& located(
                #[trigger] r[k],
                "app-port"@,
                hits[k].0,
                file,
                hits[k].1,
                "EXPOSE"@,
                Authority::Declared,
                "port-dockerfile"@,
            )
            &&& r[k].value == SemanticType::Port(hits[k].2)
        }
}

fn expose_port(token: &[char]) -> (r: Option<PortSpec>)
    ensures
        r == expose_port_s(token@),
{
    let parts = split_chars(token, '/');
    proof {
        lemma_split_len(token@, '/');
        assert(vv(parts@)[0] == parts@[0]@);
    }
    let clean = from_chars(parts[0].as_slice());
    parse_port(clean.as_str())
}

impl DockerfilePortExtractor {
    /// The ports of a Dockerfile's `EXPOSE` lines, one per port token.
    pub fn extract(&self, file: &ParsedFile) -> (r: Vec<ConfigAssertion>)
        ensures
            match file.content {
                FileContent::Dockerfile(xs) => expose_ports_ok(r@, xs@, file.path@),
                _ => r@.len() == 0,
            },
    {
        let mut out: Vec<ConfigAssertion> = Vec::new();
        let xs = match &file.content {
            FileContent::Dockerfile(xs) => xs,
            _ => return out,
        };
        let mut i: usize = 0;
        while i < xs.len()
            invariant
                i <= xs.len(),
                file.content == FileContent::Dockerfile(*xs),
                expose_ports_ok(out@, xs@.take(i as int), file.path@),
            decreases xs.len() - i,
        {
            proof {
                assert(xs@.take(i + 1).drop_last() == xs@.take(i as int));
                assert(xs@.take(i + 1).last() == xs@[i as int]);
            }
            let x = &xs[i];
            let ghost before = expose_hits(xs@.take(i as int));
            let ghost base = out@;
            if str_eq(x.instruction.as_str(), "EXPOSE") {
                let ws = words(to_chars(x.arguments.as_str()).as_slice());
                let ghost wv = vv(ws@);
                let mut j: usize = 0;
                while j < ws.len()
                    invariant
                        j <= ws.len(),
                        wv == vv(ws@),
                        wv == words_s(x.arguments@),
                        base.len() == before.len(),
                        out@.len() == base.len() + expose_token_hits(wv.take(j as int)).len(),
                        forall|k: int| 0 <= k < base.len() ==> #[trigger] out@[k] == base[k],
                        forall|k: int|
                            0 <= k < expose_token_hits(wv.take(j as int)).len() ==> {
                                let h = #[trigger] expose_token_hits(wv.take(j as int))[k];
                                &&& located(
                                    out@[base.len() + k],
                                    "app-port"@,
                                    h.0,
                                    file.path@,
                                    x.line,
                                    "EXPOSE"@,
                                    Authority::Declared,
                                    "port-dockerfile"@,
                                )
                                &&& out@[base.len() + k].value == SemanticType::Port(h.1)
                            },
                    decreases ws.len() - j,
                {
                    proof {
                        assert(wv.take(j + 1).drop_last() == wv.take(j as int));
                        assert(wv.take(j + 1).last() == wv[j as int]);
                        assert(wv[j as int] == ws@[j as int]@);
                    }
                    match expose_port(ws[j].as_slice()) {
                        Some(port) => {
                            let a = port_assertion(
                                port,
                                from_chars(ws[j].as_slice()),
                                file.path.as_str(),
                                x.line,
                                String::from_str("EXPOSE"),
                                Authority::Declared,
                                self.id(),
                            );
                            let ghost prev = out@;
                            out.push(a);
                            proof {
                                let hs = expose_token_hits(wv.take(j + 1));
                                assert forall|k: int| 0 <= k < hs.len() implies {
                                    let h = #[trigger] hs[k];
                                    &&& located(
                                        out@[base.len() + k],
                                        "app-port"@,
                                        h.0,
                                        file.path@,
                                        x.line,
                                        "EXPOSE"@,
                                        Authority::Declared,
                                        "port-dockerfile"@,
                                    )
                                    &&& out@[base.len() + k].value == SemanticType::Port(h.1)
                                } by {
                                    if k < hs.len() - 1 {
                                        assert(out@[base.len() + k] == prev[base.len() + k]);
                                    }
                                }
                            }
                        },
                        None => {},
                    }
                    j = j + 1;
                }
                proof {
                    assert(wv.take(ws.len() as int) == wv);
                    let add = expose_token_hits(wv).map_values(
                        |h: (Seq<char>, PortSpec)| (h.0, x.line, h.1),
                    );
                    let hits = expose_hits(xs@.take(i + 1));
                    assert(hits == before + add);
                    assert forall|k: int| 0 <= k < out@.len() implies {
                        &&& located(
                            #[trigger] out@[k],
                            "app-port"@,
                            hits[k].0,
                            file.path@,
                            hits[k].1,
                            "EXPOSE"@,
                            Authority::Declared,
                            "port-dockerfile"@,
                        )
                        &&& out@[k].value == SemanticType::Port(hits[k].2)
                    } by {
                        if k < base.len() {
                            assert(out@[k] == base[k]);
                            assert(hits[k] == before[k]);
                        } else {
                            let q = k - base.len();
                            assert(hits[k] == add[q]);
                            assert(expose_token_hits(wv)[q] == expose_token_hits(wv.take(ws.len() as int))[q]);
                        }
                    }
                }
            } else {
                proof {
                    let hits = expose_hits(xs@.take(i + 1));
                    assert(hits =~= before);
                }
            }
            i = i + 1;
        }
        assert(xs@.take(xs.len() as int) == xs@);
        out
    }
}

} // verus!
