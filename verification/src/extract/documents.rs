//! Extractors that read a value at a fixed place of a parsed JSON, YAML or
//! TOML document: TypeScript strict mode (`tsconfig.json`, ESLint rules),
//! `engines.node` of `package.json`, `sdk.version` of `global.json` and the
//! Python requirement of `pyproject.toml`.
use vstd::prelude::*;
use vstd::string::*;
use super::catalog::{
    DockerComposePortExtractor, EslintStrictExtractor, GlobalJsonExtractor, PackageJsonNodeExtractor,
    PyprojectExtractor, TsconfigStrictExtractor,
};
use super::port::{
    entry_result_view, parse_compose_port_entry, port_assertion, port_entry_s, ComposePortEntry,
    ComposePortMapping, ComposePortValue,
};
use super::image::{find_line_in_text, line_of_s};
use super::kubernetes::{mget, mget_s, oget, oget_s, oref, text_s, ManifestValue};
use super::python_version::{parse_python_requires, python_requires_text_s};
use super::versions::{has_version, located};
use crate::model::semantic_type::parse_version_s;
use crate::model::{parse_version, Authority, ConfigAssertion, PortSpec, SemanticConcept, SemanticType, SourceLocation};
use crate::parse::ParsedFile;
use crate::text::{contains_chars, contains_s, lines_of, lines_s, push_str, str_eq, to_chars, vv};

verus! {

/// `"key"`: a key as a JSON document writes it.
pub open spec fn quoted_s(key: Seq<char>) -> Seq<char> {
    "\""@ + key + "\""@
}

fn quoted(key: &str) -> (r: String)
    ensures
        r@ == quoted_s(key@),
{
    let mut out = String::from_str("\"");
    proof {
        reveal_strlit("\"");
    }
    push_str(&mut out, key);
    push_str(&mut out, "\"");
    out
}

/// The string at a path of two keys.
pub open spec fn text_at2_s(v: ManifestValue, a: Seq<char>, b: Seq<char>) -> Option<Seq<char>> {
    text_s(oget_s(mget_s(v, a), b))
}

fn text_at2<'a>(v: &'a ManifestValue, a: &str, b: &str) -> (r: Option<&'a String>)
    ensures
        match r {
            Some(t) => text_at2_s(*v, a@, b@) == Some(t@),
            None => text_at2_s(*v, a@, b@) is None,
        },
{
    match oget(mget(v, a), b) {
        Some(ManifestValue::Text(t)) => Some(t),
        _ => None,
    }
}

// ---------------------------------------------------------------------
// tsconfig.json
// ---------------------------------------------------------------------

/// What `tsconfig.json` says of strict mode: the boolean
/// `compilerOptions.strict` of the configuration after its `extends` chain
/// is merged (`resolved`), with the line and key path of its own
/// `compilerOptions.strict` when the file itself (`local`) has one, else
/// of its `extends`.
pub open spec fn ts_strict_s(resolved: ManifestValue, local: ManifestValue, raw: Seq<char>) -> Option<
    (bool, usize, Seq<char>),
> {
    match oget_s(mget_s(resolved, "compilerOptions"@), "strict"@) {
        Some(ManifestValue::Bool(b)) => {
            if oget_s(mget_s(local, "compilerOptions"@), "strict"@) is Some {
                Some((b, line_of_s(raw, quoted_s("strict"@)) as usize, "compilerOptions.strict"@))
            } else {
                Some((b, line_of_s(raw, quoted_s("extends"@)) as usize, "compilerOptions.strict (inherited)"@))
            }
        },
        _ => None,
    }
}

/// The assertion of a strict-mode flag.
pub open spec fn strict_ok(a: ConfigAssertion, b: bool, line: usize, key: Seq<char>, file: Seq<char>, extractor: Seq<char>) -> bool {
    &&& located(
        a,
        "ts-strict-mode"@,
        if b {
            "true"@
        } else {
            "false"@
        },
        file,
        line,
        key,
        Authority::Enforced,
        extractor,
    )
    &&& a.value == SemanticType::Boolean(b)
}

impl TsconfigStrictExtractor {
    /// The strict-mode flag of a `tsconfig.json`: `resolved` is the file's
    /// document with its `extends` chain merged in, `local` the file's own
    /// document.
    pub fn extract_from_value(&self, resolved: &ManifestValue, local: &ManifestValue, file: &ParsedFile) -> (r: Vec<
        ConfigAssertion,
    >)
        ensures
            match ts_strict_s(*resolved, *local, file.raw_text@) {
                Some((b, line, key)) => r@.len() == 1 && strict_ok(r@[0], b, line, key, file.path@, "ts-strict-tsconfig"@),
                None => r@.len() == 0,
            },
    {
        let mut out: Vec<ConfigAssertion> = Vec::new();
        proof {
            reveal_strlit("true");
            reveal_strlit("false");
        }
        match oget(mget(resolved, "compilerOptions"), "strict") {
            Some(ManifestValue::Bool(b)) => {
                let is_local = oget(mget(local, "compilerOptions"), "strict").is_some();
                let (line, key) = if is_local {
                    let q = quoted("strict");
                    (find_line_in_text(file.raw_text.as_str(), q.as_str()), String::from_str("compilerOptions.strict"))
                } else {
                    let q = quoted("extends");
                    (
                        find_line_in_text(file.raw_text.as_str(), q.as_str()),
                        String::from_str("compilerOptions.strict (inherited)"),
                    )
                };
                let raw = if *b {
                    String::from_str("true")
                } else {
                    String::from_str("false")
                };
                out.push(
                    ConfigAssertion::new(
                        SemanticConcept::ts_strict_mode(),
                        SemanticType::Boolean(*b),
                        raw,
                        SourceLocation { file: file.path.clone(), line, column: 0, key_path: key },
                        Authority::Enforced,
                        "ts-strict-tsconfig",
                    ),
                );
            },
            _ => {},
        }
        out
    }
}

// ---------------------------------------------------------------------
// ESLint
// ---------------------------------------------------------------------

/// The ESLint rules that turning off weakens TypeScript strictness.
pub open spec fn strict_rule_names() -> Seq<Seq<char>> {
    seq![
        "@typescript-eslint/strict-boolean-expressions"@,
        "@typescript-eslint/strict-type-checked"@,
        "@typescript-eslint/no-explicit-any"@,
    ]
}

/// A rule setting that turns the rule off: `"off"`, `"0"` or `0`, or a
/// list whose first item is `"off"` or `0`.
pub open spec fn is_off_s(v: ManifestValue) -> bool {
    match v {
        ManifestValue::Text(s) => s@ == "off"@ || s@ == "0"@,
        ManifestValue::Number(n) => n == 0,
        ManifestValue::List(xs) => xs@.len() > 0 && match xs@[0] {
            ManifestValue::Text(s) => s@ == "off"@,
            ManifestValue::Number(n) => n == 0,
            _ => false,
        },
        _ => false,
    }
}

/// The strict rules, in the order of `strict_rule_names`, that the
/// document's `rules` mapping turns off.
pub open spec fn eslint_off_s(v: ManifestValue, n: int) -> Seq<Seq<char>>
    decreases n,
{
    if n <= 0 {
        seq![]
    } else {
        let name = strict_rule_names()[n - 1];
        eslint_off_s(v, n - 1) + match mget_s(v, "rules"@) {
            Some(ManifestValue::Mapping(es)) => match mget_s(ManifestValue::Mapping(es), name) {
                Some(x) => if is_off_s(x) {
                    seq![name]
                } else {
                    seq![]
                },
                None => seq![],
            },
            _ => seq![],
        }
    }
}

/// The assertion of a strict rule turned off.
pub open spec fn eslint_ok(a: ConfigAssertion, name: Seq<char>, raw: Seq<char>, file: Seq<char>) -> bool {
    &&& located(
        a,
        "ts-strict-mode"@,
        name + ": off"@,
        file,
        line_of_s(raw, name) as usize,
        "rules."@ + name,
        Authority::Enforced,
        "ts-strict-eslint"@,
    )
    &&& a.value == SemanticType::Boolean(false)
}

fn is_off(v: &ManifestValue) -> (r: bool)
    ensures
        r == is_off_s(*v),
{
    match v {
        ManifestValue::Text(s) => str_eq(s.as_str(), "off") || str_eq(s.as_str(), "0"),
        ManifestValue::Number(n) => *n == 0,
        ManifestValue::List(xs) => xs.len() > 0 && match &xs[0] {
            ManifestValue::Text(s) => str_eq(s.as_str(), "off"),
            ManifestValue::Number(n) => *n == 0,
            _ => false,
        },
        _ => false,
    }
}

impl EslintStrictExtractor {
    /// The strict rules that an ESLint configuration turns off (its
    /// document, with its `extends` chain merged in for JSON), in the order
    /// of `strict_rule_names`.
    pub fn extract_from_value(&self, value: &ManifestValue, file: &ParsedFile) -> (r: Vec<ConfigAssertion>)
        ensures
            r@.len() == eslint_off_s(*value, 3).len(),
            forall|k: int|
                0 <= k < r@.len() ==> eslint_ok(#[trigger] r@[k], eslint_off_s(*value, 3)[k], file.raw_text@, file.path@),
    {
        let names: [&str; 3] = [
            "@typescript-eslint/strict-boolean-expressions",
            "@typescript-eslint/strict-type-checked",
            "@typescript-eslint/no-explicit-any",
        ];
        proof {
            reveal_strlit("@typescript-eslint/strict-boolean-expressions");
            reveal_strlit("@typescript-eslint/strict-type-checked");
            reveal_strlit("@typescript-eslint/no-explicit-any");
        }
        let mut out: Vec<ConfigAssertion> = Vec::new();
        let rules = mget(value, "rules");
        let mut i: usize = 0;
        while i < 3
            invariant
                i <= 3,
                names@.len() == 3,
                forall|j: int| 0 <= j < 3 ==> (#[trigger] names@[j])@ == strict_rule_names()[j],
                oref(rules) == mget_s(*value, "rules"@),
                out@.len() == eslint_off_s(*value, i as int).len(),
                forall|k: int|
                    0 <= k < out@.len() ==> eslint_ok(
                        #[trigger] out@[k],
                        eslint_off_s(*value, i as int)[k],
                        file.raw_text@,
                        file.path@,
                    ),
            decreases 3 - i,
        {
            let name = names[i];
            let ghost before = eslint_off_s(*value, i as int);
            let mut hit = false;
            match rules {
                Some(m) => match m {
                    ManifestValue::Mapping(_) => match mget(m, name) {
                        Some(x) => {
                            hit = is_off(x);
                        },
                        None => {},
                    },
                    _ => {},
                },
                None => {},
            }
            if hit {
                let mut raw = String::from_str(name);
                push_str(&mut raw, ": off");
                let mut key = String::from_str("rules.");
                proof {
                    reveal_strlit("rules.");
                }
                push_str(&mut key, name);
                let line = find_line_in_text(file.raw_text.as_str(), name);
                let a = ConfigAssertion::new(
                    SemanticConcept::ts_strict_mode(),
                    SemanticType::Boolean(false),
                    raw,
                    SourceLocation { file: file.path.clone(), line, column: 0, key_path: key },
                    Authority::Enforced,
                    "ts-strict-eslint",
                );
                let ghost prev = out@;
                out.push(a);
                proof {
                    let after = eslint_off_s(*value, i + 1);
                    assert(after == before.push(name@));
                    assert forall|k: int| 0 <= k < out@.len() implies eslint_ok(
                        #[trigger] out@[k],
                        after[k],
                        file.raw_text@,
                        file.path@,
                    ) by {
                        if k < prev.len() {
                            assert(out@[k] == prev[k]);
                        }
                    }
                }
            } else {
                proof {
                    assert(eslint_off_s(*value, i + 1) =~= before);
                }
            }
            i = i + 1;
        }
        out
    }
}

// ---------------------------------------------------------------------
// package.json, global.json, pyproject.toml
// ---------------------------------------------------------------------

/// A version assertion at a place of a document.
pub open spec fn doc_version_ok(
    a: ConfigAssertion,
    concept_id: Seq<char>,
    raw: Seq<char>,
    version_text: Seq<char>,
    file: Seq<char>,
    line: usize,
    key: Seq<char>,
    authority: Authority,
    extractor: Seq<char>,
) -> bool {
    &&& located(a, concept_id, raw, file, line, key, authority, extractor)
    &&& has_version(a, version_text)
}

impl PackageJsonNodeExtractor {
    /// The Node.js version of a `package.json`: the string `engines.node`,
    /// at the line of its key.
    pub fn extract_from_value(&self, value: &ManifestValue, file: &ParsedFile) -> (r: Vec<ConfigAssertion>)
        ensures
            match text_at2_s(*value, "engines"@, "node"@) {
                Some(t) => r@.len() == 1 && doc_version_ok(
                    r@[0],
                    "node-version"@,
                    t,
                    t,
                    file.path@,
                    line_of_s(file.raw_text@, quoted_s("node"@)) as usize,
                    "engines.node"@,
                    Authority::Declared,
                    "node-version-package-json"@,
                ),
                None => r@.len() == 0,
            },
    {
        let mut out: Vec<ConfigAssertion> = Vec::new();
        match text_at2(value, "engines", "node") {
            Some(t) => {
                let q = quoted("node");
                let line = find_line_in_text(file.raw_text.as_str(), q.as_str());
                out.push(
                    ConfigAssertion::new(
                        SemanticConcept::node_version(),
                        SemanticType::Version(parse_version(t.as_str())),
                        t.clone(),
                        SourceLocation {
                            file: file.path.clone(),
                            line,
                            column: 0,
                            key_path: String::from_str("engines.node"),
                        },
                        Authority::Declared,
                        "node-version-package-json",
                    ),
                );
            },
            None => {},
        }
        out
    }
}

impl GlobalJsonExtractor {
    /// The .NET SDK version of a `global.json`: the string `sdk.version`, at
    /// the line of its key.
    pub fn extract_from_value(&self, value: &ManifestValue, file: &ParsedFile) -> (r: Vec<ConfigAssertion>)
        ensures
            match text_at2_s(*value, "sdk"@, "version"@) {
                Some(t) => r@.len() == 1 && doc_version_ok(
                    r@[0],
                    "dotnet-version"@,
                    t,
                    t,
                    file.path@,
                    line_of_s(file.raw_text@, quoted_s("version"@)) as usize,
                    "sdk.version"@,
                    Authority::Enforced,
                    "dotnet-version-global-json"@,
                ),
                None => r@.len() == 0,
            },
    {
        let mut out: Vec<ConfigAssertion> = Vec::new();
        match text_at2(value, "sdk", "version") {
            Some(t) => {
                let q = quoted("version");
                let line = find_line_in_text(file.raw_text.as_str(), q.as_str());
                out.push(
                    ConfigAssertion::new(
                        SemanticConcept::dotnet_version(),
                        SemanticType::Version(parse_version(t.as_str())),
                        t.clone(),
                        SourceLocation {
                            file: file.path.clone(),
                            line,
                            column: 0,
                            key_path: String::from_str("sdk.version"),
                        },
                        Authority::Enforced,
                        "dotnet-version-global-json",
                    ),
                );
            },
            None => {},
        }
        out
    }
}

/// The Python requirement of a `pyproject.toml`: the string
/// `project.requires-python`, else the string
/// `tool.poetry.dependencies.python`, with the key that the line is found
/// by and the key path.
pub open spec fn pyproject_s(v: ManifestValue) -> Option<(Seq<char>, Seq<char>, Seq<char>)> {
    match text_at2_s(v, "project"@, "requires-python"@) {
        Some(t) => Some((t, "requires-python"@, "project.requires-python"@)),
        None => match text_s(oget_s(oget_s(oget_s(mget_s(v, "tool"@), "poetry"@), "dependencies"@), "python"@)) {
            Some(t) => Some((t, "python"@, "tool.poetry.dependencies.python"@)),
            None => None,
        },
    }
}

impl PyprojectExtractor {
    /// The Python version a `pyproject.toml` requires, read as
    /// `parse_python_requires` reads it, at the first line that holds its
    /// key.
    pub fn extract_from_value(&self, value: &ManifestValue, file: &ParsedFile) -> (r: Vec<ConfigAssertion>)
        ensures
            match pyproject_s(*value) {
                Some((t, k, key)) => r@.len() == 1 && doc_version_ok(
                    r@[0],
                    "python-version"@,
                    t,
                    python_requires_text_s(t),
                    file.path@,
                    line_of_s(file.raw_text@, k) as usize,
                    key,
                    Authority::Declared,
                    "python-version-pyproject"@,
                ),
                None => r@.len() == 0,
            },
    {
        let mut out: Vec<ConfigAssertion> = Vec::new();
        let found: Option<(&String, &str, &str)> = match text_at2(value, "project", "requires-python") {
            Some(t) => Some((t, "requires-python", "project.requires-python")),
            None => match oget(oget(oget(mget(value, "tool"), "poetry"), "dependencies"), "python") {
                Some(ManifestValue::Text(t)) => Some((t, "python", "tool.poetry.dependencies.python")),
                _ => None,
            },
        };
        match found {
            Some((t, k, key)) => {
                let line = find_line_in_text(file.raw_text.as_str(), k);
                out.push(
                    ConfigAssertion::new(
                        SemanticConcept::python_version(),
                        SemanticType::Version(parse_python_requires(t.as_str())),
                        t.clone(),
                        SourceLocation { file: file.path.clone(), line, column: 0, key_path: String::from_str(key) },
                        Authority::Declared,
                        "python-version-pyproject",
                    ),
                );
            },
            None => {},
        }
        out
    }
}

// ---------------------------------------------------------------------
// docker-compose ports
// ---------------------------------------------------------------------

/// A `target` or `published` value as the compose port reader takes it: an
/// integer that fits in 16 bits, or a string.
pub open spec fn compose_value_s(v: ManifestValue) -> Option<ComposePortValue> {
    match v {
        ManifestValue::Number(n) => if n <= 65535 {
            Some(ComposePortValue::Number(n as u16))
        } else {
            None
        },
        ManifestValue::Text(s) => Some(ComposePortValue::String(s)),
        _ => None,
    }
}

/// An optional value: absent or null reads as none; anything else must
/// read as a value (else the entry does not read).
pub open spec fn optional_value_s(o: Option<ManifestValue>) -> Option<Option<ComposePortValue>> {
    match o {
        None => Some(None),
        Some(ManifestValue::Null) => Some(None),
        Some(x) => match compose_value_s(x) {
            Some(p) => Some(Some(p)),
            None => None,
        },
    }
}

/// An optional string, read as `optional_value_s` reads values.
pub open spec fn optional_text_s(o: Option<ManifestValue>) -> Option<Option<String>> {
    match o {
        None => Some(None),
        Some(ManifestValue::Null) => Some(None),
        Some(ManifestValue::Text(s)) => Some(Some(s)),
        Some(_) => None,
    }
}

/// A `ports` entry as the compose port reader takes it: a string, an
/// integer that fits in 16 bits, or a mapping with a `target` and optional
/// `published` and `protocol`; nothing when it does not read.
pub open spec fn compose_entry_s(v: ManifestValue) -> Option<ComposePortEntry> {
    match v {
        ManifestValue::Text(s) => Some(ComposePortEntry::Scalar(s)),
        ManifestValue::Number(n) => if n <= 65535 {
            Some(ComposePortEntry::Number(n as u16))
        } else {
            None
        },
        ManifestValue::Mapping(_) => match mget_s(v, "target"@) {
            Some(t) => match (compose_value_s(t), optional_value_s(mget_s(v, "published"@)), optional_text_s(
                mget_s(v, "protocol"@),
            )) {
                (Some(target), Some(published), Some(protocol)) => Some(
                    ComposePortEntry::Mapping(ComposePortMapping { target, published, protocol }),
                ),
                _ => None,
            },
            None => None,
        },
        _ => None,
    }
}

/// Some line of the text holds `h`.
pub open spec fn in_some_line_s(raw: Seq<char>, h: Seq<char>) -> bool {
    exists|i: int| 0 <= i < lines_s(raw).len() && #[trigger] contains_s(lines_s(raw)[i], h)
}

/// The line of the first hint that some line holds, at its first such
/// line; 1 when none does.
pub open spec fn hint_line_s(raw: Seq<char>, hints: Seq<Seq<char>>) -> nat
    decreases hints.len(),
{
    if hints.len() == 0 {
        1
    } else if in_some_line_s(raw, hints[0]) {
        line_of_s(raw, hints[0])
    } else {
        hint_line_s(raw, hints.drop_first())
    }
}

/// A port found: its raw value, the port and its line.
pub type ComposeFound = (Seq<char>, PortSpec, usize);

/// The ports of the entries of a `ports` list, in order.
pub open spec fn entry_ports_s(ps: Seq<ManifestValue>, raw: Seq<char>) -> Seq<ComposeFound>
    decreases ps.len(),
{
    if ps.len() == 0 {
        seq![]
    } else {
        entry_ports_s(ps.drop_last(), raw) + match compose_entry_s(ps.last()) {
            Some(e) => match port_entry_s(e) {
                Some((rv, port, hints)) => seq![(rv, port, hint_line_s(raw, hints) as usize)],
                None => seq![],
            },
            None => seq![],
        }
    }
}

/// The ports of the services, in order: those of each service's `ports`
/// list.
pub open spec fn services_ports_s(ses: Seq<(String, ManifestValue)>, raw: Seq<char>) -> Seq<ComposeFound>
    decreases ses.len(),
{
    if ses.len() == 0 {
        seq![]
    } else {
        services_ports_s(ses.drop_last(), raw) + match mget_s(ses.last().1, "ports"@) {
            Some(ManifestValue::List(ps)) => entry_ports_s(ps@, raw),
            _ => seq![],
        }
    }
}

/// The ports of a compose document: those of its `services` mapping.
pub open spec fn compose_ports_s(v: ManifestValue, raw: Seq<char>) -> Seq<ComposeFound> {
    match mget_s(v, "services"@) {
        Some(ManifestValue::Mapping(ses)) => services_ports_s(ses@, raw),
        _ => seq![],
    }
}

/// The assertion of a compose port.
pub open spec fn compose_port_ok(a: ConfigAssertion, f: ComposeFound, file: Seq<char>) -> bool {
    &&& located(a, "app-port"@, f.0, file, f.2, "services.*.ports"@, Authority::Enforced, "port-docker-compose"@)
    &&& a.value == SemanticType::Port(f.1)
}

fn compose_value(v: &ManifestValue) -> (r: Option<ComposePortValue>)
    ensures
        r == compose_value_s(*v),
{
    match v {
        ManifestValue::Number(n) => if *n <= 65535 {
            Some(ComposePortValue::Number(*n as u16))
        } else {
            None
        },
        ManifestValue::Text(s) => Some(ComposePortValue::String(s.clone())),
        _ => None,
    }
}

fn compose_entry(v: &ManifestValue) -> (r: Option<ComposePortEntry>)
    ensures
        r == compose_entry_s(*v),
{
    match v {
        ManifestValue::Text(s) => Some(ComposePortEntry::Scalar(s.clone())),
        ManifestValue::Number(n) => if *n <= 65535 {
            Some(ComposePortEntry::Number(*n as u16))
        } else {
            None
        },
        ManifestValue::Mapping(_) => {
            let target = match mget(v, "target") {
                Some(t) => match compose_value(t) {
                    Some(x) => x,
                    None => return None,
                },
                None => return None,
            };
            let published: Option<ComposePortValue> = match mget(v, "published") {
                None => None,
                Some(ManifestValue::Null) => None,
                Some(x) => match compose_value(x) {
                    Some(p) => Some(p),
                    None => return None,
                },
            };
            let protocol: Option<String> = match mget(v, "protocol") {
                None => None,
                Some(ManifestValue::Null) => None,
                Some(ManifestValue::Text(s)) => Some(s.clone()),
                Some(_) => return None,
            };
            Some(ComposePortEntry::Mapping(ComposePortMapping { target, published, protocol }))
        },
        _ => None,
    }
}

fn in_some_line(raw: &str, h: &str) -> (r: bool)
    ensures
        r == in_some_line_s(raw@, h@),
{
    let ls = lines_of(raw);
    let ghost lv = vv(ls@);
    let hc = to_chars(h);
    let mut i: usize = 0;
    while i < ls.len()
        invariant
            i <= ls@.len(),
            lv == vv(ls@),
            lv == lines_s(raw@),
            hc@ == h@,
            forall|j: int| 0 <= j < i ==> !#[trigger] contains_s(lv[j], h@),
        decreases ls@.len() - i,
    {
        assert(lv[i as int] == ls@[i as int]@);
        if contains_chars(ls[i].as_slice(), hc.as_slice()) {
            assert(contains_s(lines_s(raw@)[i as int], h@));
            return true;
        }
        i = i + 1;
    }
    false
}

fn hint_line(raw: &str, hints: &Vec<String>) -> (r: usize)
    ensures
        r == hint_line_s(raw@, hints@.map_values(|s: String| s@)),
{
    let ghost hv = hints@.map_values(|s: String| s@);
    let mut i: usize = 0;
    assert(hv.skip(0) =~= hv);
    while i < hints.len()
        invariant
            i <= hints@.len(),
            hv == hints@.map_values(|s: String| s@),
            hint_line_s(raw@, hv) == hint_line_s(raw@, hv.skip(i as int)),
        decreases hints@.len() - i,
    {
        proof {
            assert(hv.skip(i as int)[0] == hints@[i as int]@);
            assert(hv.skip(i as int).drop_first() =~= hv.skip(i + 1));
        }
        if in_some_line(raw, hints[i].as_str()) {
            return find_line_in_text(raw, hints[i].as_str());
        }
        i = i + 1;
    }
    assert(hv.skip(hints@.len() as int).len() == 0);
    1
}

fn push_entry_ports(
    ps: &Vec<ManifestValue>,
    raw: &str,
    file: &str,
    out: &mut Vec<ConfigAssertion>,
    base: Ghost<Seq<ComposeFound>>,
)
    requires
        old(out)@.len() == base@.len(),
        forall|k: int| 0 <= k < base@.len() ==> compose_port_ok(#[trigger] old(out)@[k], base@[k], file@),
    ensures
        ({
            let all = base@ + entry_ports_s(ps@, raw@);
            &&& final(out)@.len() == all.len()
            &&& forall|k: int| 0 <= k < all.len() ==> compose_port_ok(#[trigger] final(out)@[k], all[k], file@)
        }),
{
    let mut i: usize = 0;
    assert(base@ + entry_ports_s(ps@.take(0), raw@) =~= base@);
    while i < ps.len()
        invariant
            i <= ps@.len(),
            out@.len() == (base@ + entry_ports_s(ps@.take(i as int), raw@)).len(),
            forall|k: int|
                0 <= k < out@.len() ==> compose_port_ok(
                    #[trigger] out@[k],
                    (base@ + entry_ports_s(ps@.take(i as int), raw@))[k],
                    file@,
                ),
        decreases ps@.len() - i,
    {
        proof {
            assert(ps@.take(i + 1).drop_last() == ps@.take(i as int));
            assert(ps@.take(i + 1).last() == ps@[i as int]);
            reveal_strlit("services.*.ports");
        }
        let ghost before = base@ + entry_ports_s(ps@.take(i as int), raw@);
        let mut pushed = false;
        match compose_entry(&ps[i]) {
            Some(e) => {
                let parsed = parse_compose_port_entry(&e);
                match parsed {
                    Some((rv, port, hints)) => {
                        let line = hint_line(raw, &hints);
                        let a = port_assertion(
                            port,
                            rv,
                            file,
                            line,
                            String::from_str("services.*.ports"),
                            Authority::Enforced,
                            "port-docker-compose",
                        );
                        let ghost prev = out@;
                        out.push(a);
                        pushed = true;
                        proof {
                            let after = base@ + entry_ports_s(ps@.take(i + 1), raw@);
                            assert(entry_result_view(parsed) == port_entry_s(e));
                            assert(after =~= before.push(after.last()));
                            assert forall|k: int| 0 <= k < out@.len() implies compose_port_ok(
                                #[trigger] out@[k],
                                after[k],
                                file@,
                            ) by {
                                if k < prev.len() {
                                    assert(out@[k] == prev[k]);
                                    assert(after[k] == before[k]);
                                }
                            }
                        }
                    },
                    None => {},
                }
            },
            None => {},
        }
        if !pushed {
            assert(base@ + entry_ports_s(ps@.take(i + 1), raw@) =~= before);
        }
        i = i + 1;
    }
    assert(ps@.take(ps@.len() as int) == ps@);
}

impl DockerComposePortExtractor {
    /// The ports of a compose document: each `ports` entry of each service
    /// that reads as a port, at the line of its first hint, under the key
    /// path `services.*.ports`.
    pub fn extract_from_value(&self, value: &ManifestValue, file: &ParsedFile) -> (r: Vec<ConfigAssertion>)
        ensures
            r@.len() == compose_ports_s(*value, file.raw_text@).len(),
            forall|k: int|
                0 <= k < r@.len() ==> compose_port_ok(
                    #[trigger] r@[k],
                    compose_ports_s(*value, file.raw_text@)[k],
                    file.path@,
                ),
    {
        let raw = file.raw_text.as_str();
        let path = file.path.as_str();
        let mut out: Vec<ConfigAssertion> = Vec::new();
        match mget(value, "services") {
            Some(ManifestValue::Mapping(ses)) => {
                let mut i: usize = 0;
                assert(services_ports_s(ses@.take(0), raw@) =~= Seq::<ComposeFound>::empty());
                while i < ses.len()
                    invariant
                        i <= ses@.len(),
                        out@.len() == services_ports_s(ses@.take(i as int), raw@).len(),
                        forall|k: int|
                            0 <= k < out@.len() ==> compose_port_ok(
                                #[trigger] out@[k],
                                services_ports_s(ses@.take(i as int), raw@)[k],
                                path@,
                            ),
                    decreases ses@.len() - i,
                {
                    proof {
                        assert(ses@.take(i + 1).drop_last() == ses@.take(i as int));
                        assert(ses@.take(i + 1).last() == ses@[i as int]);
                    }
                    let ghost before = services_ports_s(ses@.take(i as int), raw@);
                    match mget(&ses[i].1, "ports") {
                        Some(ManifestValue::List(ps)) => {
                            push_entry_ports(ps, raw, path, &mut out, Ghost(before));
                        },
                        _ => {
                            assert(services_ports_s(ses@.take(i + 1), raw@) =~= before);
                        },
                    }
                    i = i + 1;
                }
                assert(ses@.take(ses@.len() as int) == ses@);
            },
            _ => {},
        }
        out
    }
}

} // verus!
