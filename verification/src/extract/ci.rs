//! Runtime versions from CI workflow files (GitHub Actions, GitLab CI,
//! CircleCI), read from the parsed YAML tree: every `<runtime>-version` or
//! `<runtime>_version` key at any depth, a list under it being a matrix.
use vstd::prelude::*;
use vstd::string::*;
use super::catalog::{CiJavaExtractor, CiNodeExtractor, CiPythonExtractor, CiRubyExtractor};
use super::image::{find_line_in_text, line_of_s};
use super::kubernetes::ManifestValue;
use super::runtime::{is_ci_config_path, is_ci_config_path_s, RuntimeVersionKind};
use super::versions::has_version;
use crate::model::{parse_version, Authority, ConfigAssertion, SemanticType, SourceLocation};
use crate::parse::ParsedFile;
use crate::pathing::{components, path_components};
use crate::text::{
    chars_eq_str, contains_chars, contains_s, decimal_s, lines_of, lines_s, push_decimal, push_str, str_contains,
    str_eq, to_chars, vv,
};

verus! {

/// How a CI extractor reads a workflow.
#[derive(Debug, Clone, Copy)]
pub struct CiReader {
    pub runtime: RuntimeVersionKind,
    /// Booleans under a version key are read as `true` / `false`.
    pub bools: bool,
    /// A value's line is found by its key and the value, not by its key alone.
    pub value_line: bool,
    /// Keys at the top level of the document are read too, not only those
    /// inside its top-level values.
    pub scan_root: bool,
}

/// The two keys a runtime's version goes by: `<name>-version` and
/// `<name>_version`.
pub open spec fn ci_keys(k: RuntimeVersionKind) -> (Seq<char>, Seq<char>) {
    match k {
        RuntimeVersionKind::Node => ("node-version"@, "node_version"@),
        RuntimeVersionKind::Python => ("python-version"@, "python_version"@),
        RuntimeVersionKind::Go => ("go-version"@, "go_version"@),
        RuntimeVersionKind::Java => ("java-version"@, "java_version"@),
        RuntimeVersionKind::Ruby => ("ruby-version"@, "ruby_version"@),
    }
}

/// The id of a runtime's CI extractor.
pub open spec fn ci_extractor_id(k: RuntimeVersionKind) -> Seq<char> {
    match k {
        RuntimeVersionKind::Node => "node-version-ci"@,
        RuntimeVersionKind::Python => "python-version-ci"@,
        RuntimeVersionKind::Go => "go-version-ci"@,
        RuntimeVersionKind::Java => "java-version-ci"@,
        RuntimeVersionKind::Ruby => "ruby-version-ci"@,
    }
}

pub open spec fn is_ci_key(key: Seq<char>, r: CiReader) -> bool {
    key == ci_keys(r.runtime).0 || key == ci_keys(r.runtime).1
}

/// The text of a scalar version value: a string, a number as it displays,
/// and, when the reader takes them, a boolean.
pub open spec fn scalar_s(v: ManifestValue, bools: bool) -> Option<Seq<char>> {
    match v {
        ManifestValue::Text(s) => Some(s@),
        ManifestValue::Number(n) => Some(decimal_s(n as nat)),
        ManifestValue::Decimal(t) => Some(t@),
        ManifestValue::Bool(b) => if bools {
            Some(
                if b {
                    "true"@
                } else {
                    "false"@
                },
            )
        } else {
            None
        },
        _ => None,
    }
}

/// The first line, from line `i` on (0-based), that holds both texts.
pub open spec fn kv_line_from_s(ls: Seq<Seq<char>>, key: Seq<char>, value: Seq<char>, i: int) -> Option<int>
    decreases ls.len() - i,
{
    if i < 0 || i >= ls.len() {
        None
    } else if contains_s(ls[i], key) && contains_s(ls[i], value) {
        Some(i)
    } else {
        kv_line_from_s(ls, key, value, i + 1)
    }
}

/// The line of a value: with `value_line`, the first line (1-based) that
/// holds both the key and the value, else the first line that holds the
/// key (1 when none does).
pub open spec fn found_line_s(r: CiReader, raw: Seq<char>, key: Seq<char>, value: Seq<char>) -> usize {
    if r.value_line {
        match kv_line_from_s(lines_s(raw), key, value, 0) {
            Some(i) => (i + 1) as usize,
            None => line_of_s(raw, key) as usize,
        }
    } else {
        line_of_s(raw, key) as usize
    }
}

/// A version found: its text, line, key path and whether it is a matrix
/// entry.
pub type CiFound = (Seq<char>, usize, Seq<char>, bool);

/// The scalar items of a list under a version key, as matrix entries.
pub open spec fn matrix_items_s(xs: Seq<ManifestValue>, key: Seq<char>, r: CiReader, raw: Seq<char>) -> Seq<CiFound>
    decreases xs.len(),
{
    if xs.len() == 0 {
        seq![]
    } else {
        matrix_items_s(xs.drop_last(), key, r, raw) + match scalar_s(xs.last(), r.bools) {
            Some(t) => seq![(t, found_line_s(r, raw, key, t), "matrix."@ + key, true)],
            None => seq![],
        }
    }
}

/// The versions under a version key: the items of a list, or a scalar.
pub open spec fn key_values_s(v: ManifestValue, key: Seq<char>, r: CiReader, raw: Seq<char>) -> Seq<CiFound> {
    match v {
        ManifestValue::List(xs) => matrix_items_s(xs@, key, r, raw),
        _ => match scalar_s(v, r.bools) {
            Some(t) => seq![(t, found_line_s(r, raw, key, t), key, false)],
            None => seq![],
        },
    }
}

/// The versions of a node: under its version keys, and within its other
/// entries and items, in order.
pub open spec fn collect_s(v: ManifestValue, r: CiReader, raw: Seq<char>) -> Seq<CiFound>
    decreases v,
{
    match v {
        ManifestValue::Mapping(es) => entries_s(es@, r, raw),
        ManifestValue::List(xs) => items_s(xs@, r, raw),
        _ => seq![],
    }
}

/// The versions of the entries of a mapping.
pub open spec fn entries_s(es: Seq<(String, ManifestValue)>, r: CiReader, raw: Seq<char>) -> Seq<CiFound>
    decreases es,
{
    if es.len() == 0 {
        seq![]
    } else {
        let e = es.last();
        entries_s(es.drop_last(), r, raw) + if is_ci_key(e.0@, r) {
            key_values_s(e.1, e.0@, r, raw)
        } else {
            collect_s(e.1, r, raw)
        }
    }
}

/// The versions of the items of a list.
pub open spec fn items_s(xs: Seq<ManifestValue>, r: CiReader, raw: Seq<char>) -> Seq<CiFound>
    decreases xs,
{
    if xs.len() == 0 {
        seq![]
    } else {
        items_s(xs.drop_last(), r, raw) + collect_s(xs.last(), r, raw)
    }
}

/// The versions within the values of a mapping's entries (their keys not
/// read).
pub open spec fn values_s(es: Seq<(String, ManifestValue)>, r: CiReader, raw: Seq<char>) -> Seq<CiFound>
    decreases es.len(),
{
    if es.len() == 0 {
        seq![]
    } else {
        values_s(es.drop_last(), r, raw) + collect_s(es.last().1, r, raw)
    }
}

/// The versions of a workflow document.
pub open spec fn ci_versions_s(v: ManifestValue, r: CiReader, raw: Seq<char>) -> Seq<CiFound> {
    if r.scan_root {
        collect_s(v, r, raw)
    } else {
        match v {
            ManifestValue::Mapping(es) => values_s(es@, r, raw),
            _ => seq![],
        }
    }
}

/// The assertion of a version found in a workflow.
pub open spec fn ci_ok(a: ConfigAssertion, f: CiFound, r: CiReader, file: Seq<char>) -> bool {
    &&& a.concept.id@ == r.runtime.concept_id()
    &&& a.raw_value@ == f.0
    &&& a.source.file@ == file
    &&& a.source.line == f.1
    &&& a.source.column == 0
    &&& a.source.key_path@ == f.2
    &&& a.span is None
    &&& a.authority == Authority::Enforced
    &&& a.extractor_id@ == ci_extractor_id(r.runtime)
    &&& a.is_matrix == f.3
    &&& has_version(a, f.0)
}

proof fn lemma_entry_decreases(v: ManifestValue, es: Vec<(String, ManifestValue)>, i: int)
    requires
        v == ManifestValue::Mapping(es),
        0 <= i < es@.len(),
    ensures
        decreases_to!(v => es@[i].1),
{
    let ent = es@[i];
    assert(decreases_to!(v => v->Mapping_0));
    assert(decreases_to!(es => es@));
    assert(decreases_to!(es@ => es@[i]));
    assert(decreases_to!(ent => ent.1));
}

proof fn lemma_item_decreases(v: ManifestValue, xs: Vec<ManifestValue>, i: int)
    requires
        v == ManifestValue::List(xs),
        0 <= i < xs@.len(),
    ensures
        decreases_to!(v => xs@[i]),
{
    assert(decreases_to!(v => v->List_0));
    assert(decreases_to!(xs => xs@));
    assert(decreases_to!(xs@ => xs@[i]));
}

fn ci_key_names(k: RuntimeVersionKind) -> (r: (&'static str, &'static str))
    ensures
        (r.0@, r.1@) == ci_keys(k),
{
    match k {
        RuntimeVersionKind::Node => ("node-version", "node_version"),
        RuntimeVersionKind::Python => ("python-version", "python_version"),
        RuntimeVersionKind::Go => ("go-version", "go_version"),
        RuntimeVersionKind::Java => ("java-version", "java_version"),
        RuntimeVersionKind::Ruby => ("ruby-version", "ruby_version"),
    }
}

fn ci_id(k: RuntimeVersionKind) -> (r: &'static str)
    ensures
        r@ == ci_extractor_id(k),
{
    match k {
        RuntimeVersionKind::Node => "node-version-ci",
        RuntimeVersionKind::Python => "python-version-ci",
        RuntimeVersionKind::Go => "go-version-ci",
        RuntimeVersionKind::Java => "java-version-ci",
        RuntimeVersionKind::Ruby => "ruby-version-ci",
    }
}

fn scalar(v: &ManifestValue, bools: bool) -> (r: Option<String>)
    ensures
        match r {
            Some(t) => scalar_s(*v, bools) == Some(t@),
            None => scalar_s(*v, bools) is None,
        },
{
    match v {
        ManifestValue::Text(s) => Some(s.clone()),
        ManifestValue::Number(n) => {
            let mut out = String::new();
            push_decimal(&mut out, *n);
            proof {
                reveal_strlit("");
            }
            assert(""@ + decimal_s(*n as nat) =~= decimal_s(*n as nat));
            Some(out)
        },
        ManifestValue::Decimal(t) => Some(t.clone()),
        ManifestValue::Bool(b) => {
            if bools {
                proof {
                    reveal_strlit("true");
                    reveal_strlit("false");
                }
                if *b {
                    Some(String::from_str("true"))
                } else {
                    Some(String::from_str("false"))
                }
            } else {
                None
            }
        },
        _ => None,
    }
}

fn found_line(r: CiReader, raw: &str, key: &str, value: &str) -> (line: usize)
    ensures
        line == found_line_s(r, raw@, key@, value@),
{
    if r.value_line {
        let ls = lines_of(raw);
        let ghost lv = vv(ls@);
        let kc = to_chars(key);
        let vc = to_chars(value);
        let mut i: usize = 0;
        while i < ls.len()
            invariant
                i <= ls@.len(),
                lv == vv(ls@),
                lv == lines_s(raw@),
                kc@ == key@,
                vc@ == value@,
                r.value_line,
                kv_line_from_s(lv, key@, value@, 0) == kv_line_from_s(lv, key@, value@, i as int),
            decreases ls@.len() - i,
        {
            assert(lv[i as int] == ls@[i as int]@);
            if contains_chars(ls[i].as_slice(), kc.as_slice()) && contains_chars(ls[i].as_slice(), vc.as_slice()) {
                assert(kv_line_from_s(lv, key@, value@, i as int) == Some(i as int));
                return i + 1;
            }
            i = i + 1;
        }
        find_line_in_text(raw, key)
    } else {
        find_line_in_text(raw, key)
    }
}

fn push_found(
    f: (String, usize, String, bool),
    r: CiReader,
    file: &str,
    out: &mut Vec<ConfigAssertion>,
    base: Ghost<Seq<CiFound>>,
)
    requires
        old(out)@.len() == base@.len(),
        forall|k: int| 0 <= k < base@.len() ==> ci_ok(#[trigger] old(out)@[k], base@[k], r, file@),
    ensures
        ({
            let all = base@.push((f.0@, f.1, f.2@, f.3));
            &&& final(out)@.len() == all.len()
            &&& forall|k: int| 0 <= k < all.len() ==> ci_ok(#[trigger] final(out)@[k], all[k], r, file@)
        }),
{
    let ghost fv = (f.0@, f.1, f.2@, f.3);
    let (text, line, key, matrix) = f;
    let mut a = ConfigAssertion::new(
        r.runtime.concept(),
        SemanticType::Version(parse_version(text.as_str())),
        text,
        SourceLocation { file: String::from_str(file), line, column: 0, key_path: key },
        Authority::Enforced,
        ci_id(r.runtime),
    );
    a.is_matrix = matrix;
    let ghost prev = out@;
    out.push(a);
    proof {
        let all = base@.push(fv);
        assert forall|k: int| 0 <= k < all.len() implies ci_ok(#[trigger] out@[k], all[k], r, file@) by {
            if k < prev.len() {
                assert(out@[k] == prev[k]);
            }
        }
    }
}

fn push_matrix_items(
    xs: &Vec<ManifestValue>,
    key: &str,
    r: CiReader,
    raw: &str,
    file: &str,
    out: &mut Vec<ConfigAssertion>,
    base: Ghost<Seq<CiFound>>,
)
    requires
        old(out)@.len() == base@.len(),
        forall|k: int| 0 <= k < base@.len() ==> ci_ok(#[trigger] old(out)@[k], base@[k], r, file@),
    ensures
        ({
            let all = base@ + matrix_items_s(xs@, key@, r, raw@);
            &&& final(out)@.len() == all.len()
            &&& forall|k: int| 0 <= k < all.len() ==> ci_ok(#[trigger] final(out)@[k], all[k], r, file@)
        }),
{
    let mut i: usize = 0;
    assert(base@ + matrix_items_s(xs@.take(0), key@, r, raw@) =~= base@);
    while i < xs.len()
        invariant
            i <= xs@.len(),
            out@.len() == (base@ + matrix_items_s(xs@.take(i as int), key@, r, raw@)).len(),
            forall|k: int|
                0 <= k < out@.len() ==> ci_ok(
                    #[trigger] out@[k],
                    (base@ + matrix_items_s(xs@.take(i as int), key@, r, raw@))[k],
                    r,
                    file@,
                ),
        decreases xs@.len() - i,
    {
        proof {
            assert(xs@.take(i + 1).drop_last() == xs@.take(i as int));
            assert(xs@.take(i + 1).last() == xs@[i as int]);
            reveal_strlit("matrix.");
        }
        let ghost before = base@ + matrix_items_s(xs@.take(i as int), key@, r, raw@);
        match scalar(&xs[i], r.bools) {
            Some(t) => {
                let line = found_line(r, raw, key, t.as_str());
                let mut kp = String::from_str("matrix.");
                push_str(&mut kp, key);
                push_found((t, line, kp, true), r, file, out, Ghost(before));
                assert(before.push((t@, line, kp@, true)) =~= base@ + matrix_items_s(xs@.take(i + 1), key@, r, raw@));
            },
            None => {
                assert(base@ + matrix_items_s(xs@.take(i + 1), key@, r, raw@) =~= before);
            },
        }
        i = i + 1;
    }
    assert(xs@.take(xs@.len() as int) == xs@);
}

fn push_key_values(
    v: &ManifestValue,
    key: &str,
    r: CiReader,
    raw: &str,
    file: &str,
    out: &mut Vec<ConfigAssertion>,
    base: Ghost<Seq<CiFound>>,
)
    requires
        old(out)@.len() == base@.len(),
        forall|k: int| 0 <= k < base@.len() ==> ci_ok(#[trigger] old(out)@[k], base@[k], r, file@),
    ensures
        ({
            let all = base@ + key_values_s(*v, key@, r, raw@);
            &&& final(out)@.len() == all.len()
            &&& forall|k: int| 0 <= k < all.len() ==> ci_ok(#[trigger] final(out)@[k], all[k], r, file@)
        }),
{
    match v {
        ManifestValue::List(xs) => push_matrix_items(xs, key, r, raw, file, out, base),
        _ => {
            match scalar(v, r.bools) {
                Some(t) => {
                    let line = found_line(r, raw, key, t.as_str());
                    let kp = String::from_str(key);
                    push_found((t, line, kp, false), r, file, out, base);
                    assert(base@.push((t@, line, kp@, false)) =~= base@ + key_values_s(*v, key@, r, raw@));
                },
                None => {
                    assert(base@ + key_values_s(*v, key@, r, raw@) =~= base@);
                },
            }
        },
    }
}

fn push_collect(
    v: &ManifestValue,
    r: CiReader,
    raw: &str,
    file: &str,
    out: &mut Vec<ConfigAssertion>,
    base: Ghost<Seq<CiFound>>,
)
    requires
        old(out)@.len() == base@.len(),
        forall|k: int| 0 <= k < base@.len() ==> ci_ok(#[trigger] old(out)@[k], base@[k], r, file@),
    ensures
        ({
            let all = base@ + collect_s(*v, r, raw@);
            &&& final(out)@.len() == all.len()
            &&& forall|k: int| 0 <= k < all.len() ==> ci_ok(#[trigger] final(out)@[k], all[k], r, file@)
        }),
    decreases v,
{
    match v {
        ManifestValue::Mapping(es) => {
            let (ka, kb) = ci_key_names(r.runtime);
            let mut i: usize = 0;
            assert(base@ + entries_s(es@.take(0), r, raw@) =~= base@);
            while i < es.len()
                invariant
                    i <= es@.len(),
                    *v == ManifestValue::Mapping(*es),
                    (ka@, kb@) == ci_keys(r.runtime),
                    out@.len() == (base@ + entries_s(es@.take(i as int), r, raw@)).len(),
                    forall|k: int|
                        0 <= k < out@.len() ==> ci_ok(
                            #[trigger] out@[k],
                            (base@ + entries_s(es@.take(i as int), r, raw@))[k],
                            r,
                            file@,
                        ),
                decreases es@.len() - i,
            {
                proof {
                    assert(es@.take(i + 1).drop_last() == es@.take(i as int));
                    assert(es@.take(i + 1).last() == es@[i as int]);
                }
                let ghost before = base@ + entries_s(es@.take(i as int), r, raw@);
                let e = &es[i];
                if str_eq(e.0.as_str(), ka) || str_eq(e.0.as_str(), kb) {
                    push_key_values(&e.1, e.0.as_str(), r, raw, file, out, Ghost(before));
                } else {
                    proof {
                        lemma_entry_decreases(*v, *es, i as int);
                    }
                    push_collect(&e.1, r, raw, file, out, Ghost(before));
                }
                proof {
                    assert(before + (if is_ci_key(e.0@, r) {
                        key_values_s(e.1, e.0@, r, raw@)
                    } else {
                        collect_s(e.1, r, raw@)
                    }) =~= base@ + entries_s(es@.take(i + 1), r, raw@));
                }
                i = i + 1;
            }
            proof {
                assert(es@.take(es@.len() as int) == es@);
            }
        },
        ManifestValue::List(xs) => {
            let mut i: usize = 0;
            assert(base@ + items_s(xs@.take(0), r, raw@) =~= base@);
            while i < xs.len()
                invariant
                    i <= xs@.len(),
                    *v == ManifestValue::List(*xs),
                    out@.len() == (base@ + items_s(xs@.take(i as int), r, raw@)).len(),
                    forall|k: int|
                        0 <= k < out@.len() ==> ci_ok(
                            #[trigger] out@[k],
                            (base@ + items_s(xs@.take(i as int), r, raw@))[k],
                            r,
                            file@,
                        ),
                decreases xs@.len() - i,
            {
                proof {
                    assert(xs@.take(i + 1).drop_last() == xs@.take(i as int));
                    assert(xs@.take(i + 1).last() == xs@[i as int]);
                    lemma_item_decreases(*v, *xs, i as int);
                }
                let ghost before = base@ + items_s(xs@.take(i as int), r, raw@);
                push_collect(&xs[i], r, raw, file, out, Ghost(before));
                proof {
                    assert(before + collect_s(xs@[i as int], r, raw@) =~= base@ + items_s(xs@.take(i + 1), r, raw@));
                }
                i = i + 1;
            }
            proof {
                assert(xs@.take(xs@.len() as int) == xs@);
            }
        },
        _ => {
            assert(base@ + collect_s(*v, r, raw@) =~= base@);
        },
    }
}

/// The versions of a workflow document, as `ci_versions_s` reads them.
pub fn extract_ci_versions(value: &ManifestValue, r: CiReader, file: &ParsedFile) -> (out: Vec<ConfigAssertion>)
    ensures
        out@.len() == ci_versions_s(*value, r, file.raw_text@).len(),
        forall|k: int|
            0 <= k < out@.len() ==> ci_ok(#[trigger] out@[k], ci_versions_s(*value, r, file.raw_text@)[k], r, file.path@),
{
    let raw = file.raw_text.as_str();
    let path = file.path.as_str();
    let mut out: Vec<ConfigAssertion> = Vec::new();
    let ghost e = Seq::<CiFound>::empty();
    if r.scan_root {
        push_collect(value, r, raw, path, &mut out, Ghost(e));
        assert(e + collect_s(*value, r, raw@) =~= ci_versions_s(*value, r, raw@));
    } else {
        match value {
            ManifestValue::Mapping(es) => {
                let mut i: usize = 0;
                assert(values_s(es@.take(0), r, raw@) =~= e);
                while i < es.len()
                    invariant
                        i <= es@.len(),
                        out@.len() == values_s(es@.take(i as int), r, raw@).len(),
                        forall|k: int|
                            0 <= k < out@.len() ==> ci_ok(
                                #[trigger] out@[k],
                                values_s(es@.take(i as int), r, raw@)[k],
                                r,
                                path@,
                            ),
                    decreases es@.len() - i,
                {
                    proof {
                        assert(es@.take(i + 1).drop_last() == es@.take(i as int));
                        assert(es@.take(i + 1).last() == es@[i as int]);
                    }
                    let ghost before = values_s(es@.take(i as int), r, raw@);
                    push_collect(&es[i].1, r, raw, path, &mut out, Ghost(before));
                    i = i + 1;
                }
                assert(es@.take(es@.len() as int) == es@);
            },
            _ => {},
        }
    }
    out
}

/// The path of a workflow as the Node.js and Ruby CI extractors recognize
/// it: under `.github/workflows` (either separator) or `.circleci`, or
/// named `.gitlab-ci.yml`.
pub open spec fn legacy_ci_path_s(path: Seq<char>) -> bool {
    let cs = path_components(path);
    ||| contains_s(path, ".github/workflows"@)
    ||| contains_s(path, ".github\\workflows"@)
    ||| contains_s(path, ".circleci"@)
    ||| (cs.len() > 0 && cs.last() == ".gitlab-ci.yml"@)
}

fn legacy_ci_path(path: &str) -> (r: bool)
    ensures
        r == legacy_ci_path_s(path@),
{
    let pc = to_chars(path);
    let cs = components(pc.as_slice());
    let last = if cs.len() > 0 {
        assert(vv(cs@)[cs@.len() - 1] == cs@[cs@.len() - 1]@);
        chars_eq_str(cs[cs.len() - 1].as_slice(), ".gitlab-ci.yml")
    } else {
        false
    };
    str_contains(path, ".github/workflows") || str_contains(path, ".github\\workflows") || str_contains(
        path,
        ".circleci",
    ) || last
}

/// The reader of the Node.js CI extractor.
pub open spec fn node_reader() -> CiReader {
    CiReader { runtime: RuntimeVersionKind::Node, bools: true, value_line: false, scan_root: false }
}

/// The reader of the Ruby CI extractor.
pub open spec fn ruby_reader() -> CiReader {
    CiReader { runtime: RuntimeVersionKind::Ruby, bools: true, value_line: false, scan_root: true }
}

/// The reader of the Python CI extractor.
pub open spec fn python_reader() -> CiReader {
    CiReader { runtime: RuntimeVersionKind::Python, bools: false, value_line: true, scan_root: true }
}

/// The reader of the Java CI extractor.
pub open spec fn java_reader() -> CiReader {
    CiReader { runtime: RuntimeVersionKind::Java, bools: false, value_line: true, scan_root: true }
}

/// The versions of a workflow when its path is a CI path, else none.
pub open spec fn ci_file_versions_s(v: ManifestValue, r: CiReader, path_ok: bool, raw: Seq<char>) -> Seq<CiFound> {
    if path_ok {
        ci_versions_s(v, r, raw)
    } else {
        seq![]
    }
}

impl CiNodeExtractor {
    /// The Node.js versions of a workflow: `node-version` / `node_version`
    /// keys inside the document's top-level values, when the path is a CI
    /// path (`legacy_ci_path_s`).
    pub fn extract_from_value(&self, value: &ManifestValue, file: &ParsedFile) -> (r: Vec<ConfigAssertion>)
        ensures
            ({
                let fs = ci_file_versions_s(*value, node_reader(), legacy_ci_path_s(file.path@), file.raw_text@);
                &&& r@.len() == fs.len()
                &&& forall|k: int| 0 <= k < r@.len() ==> ci_ok(#[trigger] r@[k], fs[k], node_reader(), file.path@)
            }),
    {
        if legacy_ci_path(file.path.as_str()) {
            extract_ci_versions(
                value,
                CiReader { runtime: RuntimeVersionKind::Node, bools: true, value_line: false, scan_root: false },
                file,
            )
        } else {
            Vec::new()
        }
    }
}

impl CiRubyExtractor {
    /// The Ruby versions of a workflow: `ruby-version` / `ruby_version` keys
    /// anywhere in the document, when the path is a CI path
    /// (`legacy_ci_path_s`).
    pub fn extract_from_value(&self, value: &ManifestValue, file: &ParsedFile) -> (r: Vec<ConfigAssertion>)
        ensures
            ({
                let fs = ci_file_versions_s(*value, ruby_reader(), legacy_ci_path_s(file.path@), file.raw_text@);
                &&& r@.len() == fs.len()
                &&& forall|k: int| 0 <= k < r@.len() ==> ci_ok(#[trigger] r@[k], fs[k], ruby_reader(), file.path@)
            }),
    {
        if legacy_ci_path(file.path.as_str()) {
            extract_ci_versions(
                value,
                CiReader { runtime: RuntimeVersionKind::Ruby, bools: true, value_line: false, scan_root: true },
                file,
            )
        } else {
            Vec::new()
        }
    }
}

impl CiPythonExtractor {
    /// The Python versions of a workflow: `python-version` /
    /// `python_version` keys anywhere in the document (strings and numbers),
    /// when the path is a CI configuration path.
    pub fn extract_from_value(&self, value: &ManifestValue, file: &ParsedFile) -> (r: Vec<ConfigAssertion>)
        ensures
            ({
                let fs = ci_file_versions_s(*value, python_reader(), is_ci_config_path_s(file.path@), file.raw_text@);
                &&& r@.len() == fs.len()
                &&& forall|k: int| 0 <= k < r@.len() ==> ci_ok(#[trigger] r@[k], fs[k], python_reader(), file.path@)
            }),
    {
        if is_ci_config_path(file.path.as_str()) {
            extract_ci_versions(
                value,
                CiReader { runtime: RuntimeVersionKind::Python, bools: false, value_line: true, scan_root: true },
                file,
            )
        } else {
            Vec::new()
        }
    }
}

impl CiJavaExtractor {
    /// The Java versions of a workflow: `java-version` / `java_version`
    /// keys anywhere in the document (strings and numbers), when the path
    /// is a CI configuration path.
    pub fn extract_from_value(&self, value: &ManifestValue, file: &ParsedFile) -> (r: Vec<ConfigAssertion>)
        ensures
            ({
                let fs = ci_file_versions_s(*value, java_reader(), is_ci_config_path_s(file.path@), file.raw_text@);
                &&& r@.len() == fs.len()
                &&& forall|k: int| 0 <= k < r@.len() ==> ci_ok(#[trigger] r@[k], fs[k], java_reader(), file.path@)
            }),
    {
        if is_ci_config_path(file.path.as_str()) {
            extract_ci_versions(
                value,
                CiReader { runtime: RuntimeVersionKind::Java, bools: false, value_line: true, scan_root: true },
                file,
            )
        } else {
            Vec::new()
        }
    }
}

} // verus!
