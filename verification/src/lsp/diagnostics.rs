//! Diagnostics of the language server: for each finding, one diagnostic
//! on each side's file, pointing at the other side.
use vstd::prelude::*;
use vstd::string::*;
use crate::lsp::text_document::{Position, Range};
use crate::model::{ConfigAssertion, Finding, ScanResult, Severity};
use crate::model::finding::findings_of;
use crate::pathing::{components, path_components, path_eq, path_same};
use crate::text::{chars_eq_str, from_chars, push_chars, push_str, to_chars, vv};

verus! {

/// The editor range of a one-based source line: its zero-based line, from
/// the first column to the largest column there is.
pub open spec fn line_range_s(line: usize) -> Range {
    let l = #[verifier::truncate] ((if line > 0 { line - 1 } else { 0 }) as u32);
    Range { start: Position { line: l, character: 0 }, end: Position { line: l, character: u32::MAX } }
}

/// The whole of a one-based source line, as a zero-based editor range:
/// from its first column to the largest column there is.
pub fn make_range(line: usize) -> (r: Range)
    ensures
        r == line_range_s(line),
        r.start.line == r.end.line,
        r.start.line == #[verifier::truncate] ((if line > 0 { line - 1 } else { 0 }) as u32),
        r.start.character == 0,
        r.end.character == u32::MAX,
{
    let zero_based: usize = if line > 0 {
        line - 1
    } else {
        0
    };
    let l: u32 = #[verifier::truncate] (zero_based as u32);
    Range { start: Position { line: l, character: 0 }, end: Position { line: l, character: u32::MAX } }
}

/// A place that a diagnostic relates to, with a note.
#[derive(Debug, Clone)]
pub struct RelatedInformation {
    /// The file, as path text.
    pub file: String,
    pub range: Range,
    pub message: String,
}

/// A diagnostic of a file.
#[derive(Debug, Clone)]
pub struct FileDiagnostic {
    pub range: Range,
    pub severity: Severity,
    /// The rule id.
    pub code: String,
    /// The tool that reports it (`conflic`).
    pub source: String,
    pub message: String,
    pub related_information: Option<Vec<RelatedInformation>>,
}

/// A related place, its texts taken as character sequences.
pub struct RelatedView {
    pub file: Seq<char>,
    pub range: Range,
    pub message: Seq<char>,
}

/// A diagnostic, its texts taken as character sequences.
pub struct DiagnosticView {
    pub range: Range,
    pub severity: Severity,
    pub code: Seq<char>,
    pub source: Seq<char>,
    pub message: Seq<char>,
    pub related: Option<Seq<RelatedView>>,
}

pub open spec fn related_view(r: RelatedInformation) -> RelatedView {
    RelatedView { file: r.file@, range: r.range, message: r.message@ }
}

pub open spec fn diagnostic_view(d: FileDiagnostic) -> DiagnosticView {
    DiagnosticView {
        range: d.range,
        severity: d.severity,
        code: d.code@,
        source: d.source@,
        message: d.message@,
        related: match d.related_information {
            Some(v) => Some(v@.map_values(|r: RelatedInformation| related_view(r))),
            None => None,
        },
    }
}

/// The views of diagnostics.
pub open spec fn diags_view(ds: Seq<FileDiagnostic>) -> Seq<DiagnosticView> {
    ds.map_values(|d: FileDiagnostic| diagnostic_view(d))
}

/// The diagnostics of each file, keyed by its path text.
pub open spec fn diagnostics_view(m: Seq<(String, Vec<FileDiagnostic>)>) -> Seq<(Seq<char>, Seq<DiagnosticView>)> {
    m.map_values(|e: (String, Vec<FileDiagnostic>)| (e.0@, diags_view(e.1@)))
}

/// No two files of the map are the same path.
pub open spec fn keys_distinct(m: Seq<(Seq<char>, Seq<DiagnosticView>)>) -> bool {
    forall|i: int, j: int| 0 <= i < j < m.len() ==> !path_eq(#[trigger] m[i].0, #[trigger] m[j].0)
}

/// A file URI can be made of the path: it is absolute (`Url::from_file_path`
/// on Unix).
pub open spec fn has_file_uri(p: Seq<char>) -> bool {
    p.len() > 0 && p[0] == '/'
}

/// The last component of a path when it is a name (`Path::file_name`), or
/// the empty text.
pub open spec fn file_name_text_s(p: Seq<char>) -> Seq<char> {
    let c = path_components(p);
    if c.len() == 0 || c.last() == "/"@ || c.last() == "."@ || c.last() == ".."@ {
        ""@
    } else {
        c.last()
    }
}

/// `<concept>: <value> conflicts with <other value> in <other file name>`.
pub open spec fn side_message_s(a: ConfigAssertion, other: ConfigAssertion) -> Seq<char> {
    a.concept.display_name@ + ": "@ + a.raw_value@ + " conflicts with "@ + other.raw_value@ + " in "@
        + file_name_text_s(other.source.file@)
}

/// `<concept> = <value> (<authority>)`.
pub open spec fn related_message_s(o: ConfigAssertion) -> Seq<char> {
    o.concept.display_name@ + " = "@ + o.raw_value@ + " ("@ + o.authority.label() + ")"@
}

/// The diagnostic of a finding on the file of `a`, the other side being
/// `other`: related to the other side's line when its file has a URI.
pub open spec fn side_diagnostic_s(f: Finding, a: ConfigAssertion, other: ConfigAssertion) -> DiagnosticView {
    DiagnosticView {
        range: line_range_s(a.source.line),
        severity: f.severity,
        code: f.rule_id@,
        source: "conflic"@,
        message: side_message_s(a, other),
        related: if has_file_uri(other.source.file@) {
            Some(
                seq![
                    RelatedView {
                        file: other.source.file@,
                        range: line_range_s(other.source.line),
                        message: related_message_s(other),
                    },
                ],
            )
        } else {
            None
        },
    }
}

/// The first entry whose file is the same path as `key`.
pub open spec fn key_index_s(m: Seq<(Seq<char>, Seq<DiagnosticView>)>, key: Seq<char>) -> Option<int> {
    if exists|i: int| 0 <= i < m.len() && path_eq(#[trigger] m[i].0, key) {
        Some(choose|i: int| 0 <= i < m.len() && path_eq(#[trigger] m[i].0, key))
    } else {
        None
    }
}

/// The map with `d` added to the file `key`: at the end of its entry, or
/// in a new last entry.
pub open spec fn with_diagnostic_s(
    m: Seq<(Seq<char>, Seq<DiagnosticView>)>,
    key: Seq<char>,
    d: DiagnosticView,
) -> Seq<(Seq<char>, Seq<DiagnosticView>)> {
    match key_index_s(m, key) {
        Some(i) => m.update(i, (m[i].0, m[i].1.push(d))),
        None => m.push((key, seq![d])),
    }
}

/// The map with the diagnostics of a finding: one on the left side's file
/// and one on the right side's, each only when that file has a URI.
pub open spec fn finding_diagnostics_s(
    m: Seq<(Seq<char>, Seq<DiagnosticView>)>,
    f: Finding,
) -> Seq<(Seq<char>, Seq<DiagnosticView>)> {
    let m1 = if has_file_uri(f.left.source.file@) {
        with_diagnostic_s(m, f.left.source.file@, side_diagnostic_s(f, f.left, f.right))
    } else {
        m
    };
    if has_file_uri(f.right.source.file@) {
        with_diagnostic_s(m1, f.right.source.file@, side_diagnostic_s(f, f.right, f.left))
    } else {
        m1
    }
}

fn has_uri(p: &str) -> (r: bool)
    ensures
        r == has_file_uri(p@),
{
    let c = to_chars(p);
    c.len() > 0 && c[0] == '/'
}

fn file_name_text(p: &str) -> (r: String)
    ensures
        r@ == file_name_text_s(p@),
{
    let pc = to_chars(p);
    let cs = components(pc.as_slice());
    proof {
        reveal_strlit("");
        reveal_strlit("/");
        reveal_strlit(".");
        reveal_strlit("..");
    }
    if cs.len() == 0 {
        return String::new();
    }
    let last = &cs[cs.len() - 1];
    proof {
        assert(vv(cs@)[cs@.len() - 1] == last@);
    }
    if chars_eq_str(last.as_slice(), "/") || chars_eq_str(last.as_slice(), ".") || chars_eq_str(last.as_slice(), "..") {
        String::new()
    } else {
        from_chars(last.as_slice())
    }
}

fn related_message(o: &ConfigAssertion) -> (r: String)
    ensures
        r@ == related_message_s(*o),
{
    let mut m = String::new();
    push_str(&mut m, o.concept.display_name.as_str());
    push_str(&mut m, " = ");
    push_str(&mut m, o.raw_value.as_str());
    push_str(&mut m, " (");
    let label = o.authority.to_text();
    push_str(&mut m, label.as_str());
    push_str(&mut m, ")");
    m
}

/// The diagnostic of a finding on the file of `a`, the other side being
/// `other`.
pub fn side_diagnostic(f: &Finding, a: &ConfigAssertion, other: &ConfigAssertion) -> (r: FileDiagnostic)
    ensures
        diagnostic_view(r) == side_diagnostic_s(*f, *a, *other),
{
    let mut message = String::new();
    push_str(&mut message, a.concept.display_name.as_str());
    push_str(&mut message, ": ");
    push_str(&mut message, a.raw_value.as_str());
    push_str(&mut message, " conflicts with ");
    push_str(&mut message, other.raw_value.as_str());
    push_str(&mut message, " in ");
    let name = file_name_text(other.source.file.as_str());
    push_str(&mut message, name.as_str());
    let related = if has_uri(other.source.file.as_str()) {
        let mut v: Vec<RelatedInformation> = Vec::new();
        v.push(
            RelatedInformation {
                file: other.source.file.clone(),
                range: make_range(other.source.line),
                message: related_message(other),
            },
        );
        proof {
            assert(v@.map_values(|r: RelatedInformation| related_view(r)) =~= seq![
                RelatedView {
                    file: other.source.file@,
                    range: line_range_s(other.source.line),
                    message: related_message_s(*other),
                },
            ]);
        }
        Some(v)
    } else {
        None
    };
    proof {
        reveal_strlit("conflic");
    }
    FileDiagnostic {
        range: make_range(a.source.line),
        severity: f.severity,
        code: f.rule_id.clone(),
        source: String::from_str("conflic"),
        message,
        related_information: related,
    }
}

/// Add a diagnostic to the file `key`: at the end of its entry, or in a new
/// last entry.
pub fn add_diagnostic(diagnostics: &mut Vec<(String, Vec<FileDiagnostic>)>, key: &str, d: FileDiagnostic)
    requires
        keys_distinct(diagnostics_view(old(diagnostics)@)),
    ensures
        diagnostics_view(final(diagnostics)@) == with_diagnostic_s(
            diagnostics_view(old(diagnostics)@),
            key@,
            diagnostic_view(d),
        ),
        keys_distinct(diagnostics_view(final(diagnostics)@)),
{
    let ghost mv = diagnostics_view(diagnostics@);
    let ghost orig = diagnostics@;
    let ghost dv = diagnostic_view(d);
    let mut i: usize = 0;
    while i < diagnostics.len()
        invariant
            i <= diagnostics@.len(),
            diagnostics@ == orig,
            orig == old(diagnostics)@,
            mv == diagnostics_view(orig),
            dv == diagnostic_view(d),
            keys_distinct(mv),
            forall|j: int| 0 <= j < i ==> !path_eq(#[trigger] mv[j].0, key@),
        decreases diagnostics@.len() - i,
    {
        if path_same(diagnostics[i].0.as_str(), key) {
            proof {
                assert(mv[i as int].0 == diagnostics@[i as int].0@);
                assert(path_eq(mv[i as int].0, key@));
                let c = choose|c: int| 0 <= c < mv.len() && path_eq(#[trigger] mv[c].0, key@);
                if c != i {
                    if c < i {
                        assert(!path_eq(mv[c].0, key@));
                    } else {
                        assert(!path_eq(mv[i as int].0, mv[c].0));
                    }
                }
                assert(key_index_s(mv, key@) == Some(i as int));
            }
            let (k, mut ds) = diagnostics.remove(i);
            let ghost before = ds@;
            assert(before == orig[i as int].1@);
            assert(k@ == orig[i as int].0@);
            ds.push(d);
            diagnostics.insert(i, (k, ds));
            proof {
                assert(diagnostics@ =~= orig.update(i as int, (k, ds)));
                let want = mv.update(i as int, (mv[i as int].0, mv[i as int].1.push(dv)));
                assert(diags_view(ds@) =~= mv[i as int].1.push(dv)) by {
                    assert(diags_view(before) == mv[i as int].1);
                    assert(ds@ == before.push(d));
                }
                assert(diagnostics_view(diagnostics@) =~= want) by {
                    assert forall|j: int| 0 <= j < want.len() implies diagnostics_view(diagnostics@)[j] == want[j] by {
                        if j != i {
                            assert(diagnostics@[j] == orig[j]);
                        }
                    }
                }
                assert forall|p: int, q: int| 0 <= p < q < want.len() implies !path_eq(
                    #[trigger] want[p].0,
                    #[trigger] want[q].0,
                ) by {
                    assert(want[p].0 == mv[p].0 && want[q].0 == mv[q].0);
                }
            }
            return;
        }
        proof {
            assert(mv[i as int].0 == diagnostics@[i as int].0@);
        }
        i = i + 1;
    }
    proof {
        assert(!exists|c: int| 0 <= c < mv.len() && path_eq(#[trigger] mv[c].0, key@));
        assert(key_index_s(mv, key@) is None);
    }
    let mut ds: Vec<FileDiagnostic> = Vec::new();
    ds.push(d);
    let ghost prev = diagnostics@;
    assert(prev == orig);
    diagnostics.push((String::from_str(key), ds));
    proof {
        let want = mv.push((key@, seq![dv]));
        assert(diags_view(ds@) =~= seq![dv]);
        assert(diagnostics_view(diagnostics@) =~= want) by {
            assert forall|j: int| 0 <= j < want.len() implies diagnostics_view(diagnostics@)[j] == want[j] by {
                if j < prev.len() {
                    assert(diagnostics@[j] == prev[j]);
                }
            }
        }
        assert forall|p: int, q: int| 0 <= p < q < want.len() implies !path_eq(
            #[trigger] want[p].0,
            #[trigger] want[q].0,
        ) by {
            if q == mv.len() {
                assert(want[p].0 == mv[p].0);
            } else {
                assert(want[p].0 == mv[p].0 && want[q].0 == mv[q].0);
            }
        }
    }
}

/// Add the diagnostics of a finding: one on the left side's file, related
/// to the right side, and one on the right side's file, related to the
/// left side; each only when that file's path is absolute (what a file
/// URI is made of).
pub fn add_finding_diagnostics(finding: &Finding, diagnostics: &mut Vec<(String, Vec<FileDiagnostic>)>)
    requires
        keys_distinct(diagnostics_view(old(diagnostics)@)),
    ensures
        diagnostics_view(final(diagnostics)@) == finding_diagnostics_s(diagnostics_view(old(diagnostics)@), *finding),
        keys_distinct(diagnostics_view(final(diagnostics)@)),
{
    if has_uri(finding.left.source.file.as_str()) {
        let d = side_diagnostic(finding, &finding.left, &finding.right);
        add_diagnostic(diagnostics, finding.left.source.file.as_str(), d);
    }
    if has_uri(finding.right.source.file.as_str()) {
        let d = side_diagnostic(finding, &finding.right, &finding.left);
        add_diagnostic(diagnostics, finding.right.source.file.as_str(), d);
    }
}

/// The map with the diagnostics of the findings, in order.
pub open spec fn fold_diagnostics_s(
    m: Seq<(Seq<char>, Seq<DiagnosticView>)>,
    fs: Seq<Finding>,
) -> Seq<(Seq<char>, Seq<DiagnosticView>)>
    decreases fs.len(),
{
    if fs.len() == 0 {
        m
    } else {
        finding_diagnostics_s(fold_diagnostics_s(m, fs.drop_last()), fs.last())
    }
}

/// The diagnostics of a scan, grouped by file: those of every finding of
/// every concept result, in order, each file's entry made at its first
/// diagnostic.
pub fn scan_result_to_diagnostics(result: &ScanResult) -> (r: Vec<(String, Vec<FileDiagnostic>)>)
    ensures
        diagnostics_view(r@) == fold_diagnostics_s(seq![], findings_of(result.concept_results@)),
        keys_distinct(diagnostics_view(r@)),
{
    let crs = &result.concept_results;
    let mut out: Vec<(String, Vec<FileDiagnostic>)> = Vec::new();
    proof {
        assert(diagnostics_view(out@) =~= seq![]);
        assert(crs@.take(0) =~= seq![]);
    }
    let mut c: usize = 0;
    while c < crs.len()
        invariant
            c <= crs@.len(),
            crs == &result.concept_results,
            diagnostics_view(out@) == fold_diagnostics_s(seq![], findings_of(crs@.take(c as int))),
            keys_distinct(diagnostics_view(out@)),
        decreases crs@.len() - c,
    {
        let fs = &crs[c].findings;
        let ghost a = findings_of(crs@.take(c as int));
        let mut j: usize = 0;
        assert(a + fs@.take(0) =~= a);
        while j < fs.len()
            invariant
                j <= fs@.len(),
                diagnostics_view(out@) == fold_diagnostics_s(seq![], a + fs@.take(j as int)),
                keys_distinct(diagnostics_view(out@)),
            decreases fs@.len() - j,
        {
            proof {
                assert((a + fs@.take(j + 1)).drop_last() =~= a + fs@.take(j as int));
                assert((a + fs@.take(j + 1)).last() == fs@[j as int]);
            }
            add_finding_diagnostics(&fs[j], &mut out);
            j = j + 1;
        }
        proof {
            assert(crs@.take(c + 1).drop_last() =~= crs@.take(c as int));
            assert(crs@.take(c + 1).last() == crs@[c as int]);
            assert(a + fs@.take(fs@.len() as int) =~= findings_of(crs@.take(c + 1)));
        }
        c = c + 1;
    }
    assert(crs@.take(crs@.len() as int) =~= crs@);
    out
}

} // verus!
