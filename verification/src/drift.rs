//! Drift of a repository's values from an organizational baseline.
use vstd::prelude::*;
use crate::fix::patcher::{repeat_char, repeat_s, PKG_VERSION};
use crate::config::{concept_matches_selector, selects_s};
use crate::git::strings_view;
use crate::model::semantic_type::opt_view;
use crate::model::{ConceptResult, ConfigAssertion, ScanResult};
use crate::style::{bold, bold_s, dimmed, dimmed_s, fg_s, green, red, yellow};
use crate::text::{
    chars_eq, chars_eq_str, decimal_s, lemma_split_len, pad_right_s, parse_uint, parse_uint_s, push_decimal, push_pad_right, push_str, split_chars, split_s, to_chars, trim_chars, trim_s, vv,
};

verus! {

/// How much a value has drifted from the expected baseline.
#[derive(Debug, Clone, Copy, PartialEq, Eq, Structural)]
pub enum DriftKind {
    /// Value matches the expected baseline exactly.
    Exact,
    /// Minor drift (e.g. patch version difference).
    Minor,
    /// Major drift (e.g. different major version).
    Major,
    /// Concept expected but no assertion found.
    Missing,
}

/// A single expectation in the organizational baseline.
#[derive(Debug, Clone)]
pub struct BaselineExpectation {
    /// Concept ID this expectation applies to.
    pub concept: String,
    /// The expected value.
    pub expected: String,
    /// Optional tolerance (e.g. "20.x" for any 20.x version).
    pub tolerance: Option<String>,
}

/// The organizational baseline definition.
#[derive(Debug, Clone, Default)]
pub struct OrganizationalBaseline {
    /// Human-readable version identifier for this baseline.
    pub version: Option<String>,
    /// When this baseline was created.
    pub created_at: Option<String>,
    /// The expected values for each concept.
    pub expectation: Vec<BaselineExpectation>,
}

/// A single entry in the drift report.
#[derive(Debug, Clone)]
pub struct BaselineDriftEntry {
    pub concept: String,
    pub expected: String,
    pub actual: String,
    pub drift_kind: DriftKind,
    /// The files that assert the concept.
    pub files: Vec<String>,
}

/// The complete drift report for a single repository.
#[derive(Debug, Clone)]
pub struct BaselineDriftReport {
    pub entries: Vec<BaselineDriftEntry>,
    /// The conformance score in whole percent (0 to 100), rounded.
    pub conformance_percent: u32,
}

/// `tolerance` accepts `actual`: on every position both have, split at
/// `.`, the tolerance part is `x`, `*`, or the actual part itself.
pub open spec fn matches_tolerance_s(actual: Seq<char>, tolerance: Seq<char>) -> bool {
    let tp = split_s(tolerance, '.');
    let ap = split_s(actual, '.');
    forall|i: int| 0 <= i < tp.len() && i < ap.len() ==> #[trigger] part_tolerated(tp[i], ap[i])
}

/// One tolerance part accepts one actual part.
pub open spec fn part_tolerated(t: Seq<char>, a: Seq<char>) -> bool {
    t == "x"@ || t == "*"@ || t == a
}

/// The major version: the number before the first `.` of the trimmed value.
pub open spec fn extract_major_s(version: Seq<char>) -> Option<nat> {
    parse_uint_s(split_s(trim_s(version), '.')[0], 0xffff_ffff_ffff_ffff)
}

/// The drift of `actual` from `expected`: exact when they agree up to
/// surrounding whitespace; with a tolerance, minor when the tolerance
/// accepts `actual` and major when it does not; without one, minor when
/// both have the same major version, major otherwise.
pub open spec fn drift_s(expected: Seq<char>, actual: Seq<char>, tolerance: Option<Seq<char>>) -> DriftKind {
    if trim_s(expected) == trim_s(actual) {
        DriftKind::Exact
    } else if tolerance is Some {
        if matches_tolerance_s(actual, tolerance->0) {
            DriftKind::Minor
        } else {
            DriftKind::Major
        }
    } else if extract_major_s(expected) is Some && extract_major_s(expected) == extract_major_s(
        actual,
    ) {
        DriftKind::Minor
    } else {
        DriftKind::Major
    }
}

/// Compute drift between expected and actual values.
pub fn compute_drift(expected: &str, actual: &str, tolerance: Option<&str>) -> (r: DriftKind)
    ensures
        r == drift_s(
            expected@,
            actual@,
            match tolerance {
                Some(t) => Some(t@),
                None => None,
            },
        ),
{
    let e = to_chars(expected);
    let a = to_chars(actual);
    let et = trim_chars(e.as_slice());
    let at = trim_chars(a.as_slice());
    if chars_eq(et.as_slice(), at.as_slice()) {
        return DriftKind::Exact;
    }
    if let Some(t) = tolerance {
        if matches_tolerance(actual, t) {
            return DriftKind::Minor;
        }
        return DriftKind::Major;
    }
    let em = extract_major(expected);
    let am = extract_major(actual);
    match (em, am) {
        (Some(x), Some(y)) => {
            if x == y {
                return DriftKind::Minor;
            }
        },
        _ => {},
    }
    DriftKind::Major
}

/// Check if an actual value matches a tolerance pattern like "20.x".
pub fn matches_tolerance(actual: &str, tolerance: &str) -> (r: bool)
    ensures
        r == matches_tolerance_s(actual@, tolerance@),
{
    let tc = to_chars(tolerance);
    let ac = to_chars(actual);
    let tp = split_chars(tc.as_slice(), '.');
    let ap = split_chars(ac.as_slice(), '.');
    let ghost tps = split_s(tolerance@, '.');
    let ghost aps = split_s(actual@, '.');
    let mut i: usize = 0;
    while i < tp.len() && i < ap.len()
        invariant
            vv(tp@) == tps,
            vv(ap@) == aps,
            tps == split_s(tolerance@, '.'),
            aps == split_s(actual@, '.'),
            i <= tp.len(),
            forall|j: int| 0 <= j < i && j < aps.len() ==> #[trigger] part_tolerated(tps[j], aps[j]),
        decreases tp.len() - i,
    {
        let t = tp[i].as_slice();
        assert(tps[i as int] == t@);
        assert(aps[i as int] == ap@[i as int]@);
        if !(chars_eq_str(t, "x") || chars_eq_str(t, "*")) {
            if !chars_eq(t, ap[i].as_slice()) {
                assert(!part_tolerated(tps[i as int], aps[i as int]));
                return false;
            }
        }
        i = i + 1;
    }
    true
}

/// Extract the major version number from a version string.
pub fn extract_major(version: &str) -> (r: Option<u64>)
    ensures
        r == (match extract_major_s(version@) {
            Some(v) => Some(v as u64),
            None => None::<u64>,
        }),
{
    let c = to_chars(version);
    let t = trim_chars(c.as_slice());
    let parts = split_chars(t.as_slice(), '.');
    proof {
        lemma_split_len(t@, '.');
    }
    assert(vv(parts@)[0] == parts@[0]@);
    parse_uint(parts[0].as_slice(), 0xffff_ffff_ffff_ffff)
}

/// Values that agree up to surrounding whitespace never drift, whatever the tolerance.
pub proof fn law_trimmed_equal_is_exact(
    expected: Seq<char>,
    actual: Seq<char>,
    tolerance: Option<Seq<char>>,
)
    ensures
        (drift_s(expected, actual, tolerance) == DriftKind::Exact) == (trim_s(expected) == trim_s(
            actual,
        )),
        drift_s(expected, actual, tolerance) != DriftKind::Missing,
{
}

/// A value that the tolerance accepts drifts at most by a minor step.
pub proof fn law_tolerated_is_not_major(expected: Seq<char>, actual: Seq<char>, tolerance: Seq<char>)
    requires
        matches_tolerance_s(actual, tolerance),
    ensures
        drift_s(expected, actual, Some(tolerance)) != DriftKind::Major,
{
}

/// A value that differs from the expected one and that the tolerance does
/// not accept drifts by a major step.
pub proof fn law_outside_tolerance_is_major(expected: Seq<char>, actual: Seq<char>, tolerance: Seq<char>)
    requires
        trim_s(expected) != trim_s(actual),
        !matches_tolerance_s(actual, tolerance),
    ensures
        drift_s(expected, actual, Some(tolerance)) == DriftKind::Major,
{
}

// ---------------------------------------------------------------------
// The terminal report
// ---------------------------------------------------------------------

/// Text in an ANSI foreground color, or plain without color.
pub open spec fn tinted_s(t: Seq<char>, code: Seq<char>, no_color: bool) -> Seq<char> {
    if no_color {
        t
    } else {
        fg_s(code, t)
    }
}

/// The label of a drift kind: OK in green, MINOR in yellow, MAJOR and
/// MISSING in red.
pub open spec fn drift_label_s(k: DriftKind, no_color: bool) -> Seq<char> {
    match k {
        DriftKind::Exact => tinted_s("OK"@, "32"@, no_color),
        DriftKind::Minor => tinted_s("MINOR"@, "33"@, no_color),
        DriftKind::Major => tinted_s("MAJOR"@, "31"@, no_color),
        DriftKind::Missing => tinted_s("MISSING"@, "31"@, no_color),
    }
}

/// One row of the table: concept, expected and actual in columns of 25,
/// 15 and 15 characters, then the drift.
pub open spec fn drift_row_s(concept: Seq<char>, expected: Seq<char>, actual: Seq<char>, drift: Seq<char>) -> Seq<
    char,
> {
    "  "@ + pad_right_s(concept, 25) + " "@ + pad_right_s(expected, 15) + " "@ + pad_right_s(actual, 15) + " "@
        + drift + "\n"@
}

/// The rows of the entries, in order.
pub open spec fn drift_rows_s(es: Seq<BaselineDriftEntry>, no_color: bool) -> Seq<char>
    decreases es.len(),
{
    if es.len() == 0 {
        Seq::empty()
    } else {
        let e = es.last();
        drift_rows_s(es.drop_last(), no_color) + drift_row_s(
            e.concept@,
            e.expected@,
            e.actual@,
            drift_label_s(e.drift_kind, no_color),
        )
    }
}

/// The score line: green from 80%, yellow from 50%, red below.
pub open spec fn score_line_s(pct: nat, no_color: bool) -> Seq<char> {
    if no_color {
        "Conformance score: "@ + decimal_s(pct) + "%\n"@
    } else {
        let score = decimal_s(pct) + "%"@;
        let code = if pct >= 80 {
            "32"@
        } else if pct >= 50 {
            "33"@
        } else {
            "31"@
        };
        bold_s("Conformance score"@) + ": "@ + fg_s(code, score) + "\n"@
    }
}

/// The title, the column heads and the rule under them.
pub open spec fn drift_header_s(no_color: bool) -> Seq<char> {
    let sep = repeat_s('-', 75);
    "conflic v"@ + PKG_VERSION@ + " - baseline drift report\n\n"@ + drift_row_s(
        "Concept"@,
        "Expected"@,
        "Actual"@,
        "Drift"@,
    ) + (if no_color {
        sep
    } else {
        dimmed_s(sep)
    }) + "\n"@
}

/// The text of the terminal drift report.
pub open spec fn drift_report_s(report: BaselineDriftReport, no_color: bool) -> Seq<char> {
    drift_header_s(no_color) + drift_rows_s(report.entries@, no_color) + "\n"@ + score_line_s(
        report.conformance_percent as nat,
        no_color,
    )
}

fn push_tinted(out: &mut String, t: &str, code: u8, no_color: bool)
    requires
        code == 31 || code == 32 || code == 33,
    ensures
        final(out)@ == old(out)@ + tinted_s(
            t@,
            if code == 31 {
                "31"@
            } else if code == 32 {
                "32"@
            } else {
                "33"@
            },
            no_color,
        ),
{
    if no_color {
        push_str(out, t);
    } else if code == 31 {
        let c = red(t);
        push_str(out, c.as_str());
    } else if code == 32 {
        let c = green(t);
        push_str(out, c.as_str());
    } else {
        let c = yellow(t);
        push_str(out, c.as_str());
    }
}

fn push_drift_row(out: &mut String, e: &BaselineDriftEntry, no_color: bool)
    ensures
        final(out)@ == old(out)@ + drift_row_s(
            e.concept@,
            e.expected@,
            e.actual@,
            drift_label_s(e.drift_kind, no_color),
        ),
{
    push_str(out, "  ");
    push_pad_right(out, e.concept.as_str(), 25);
    push_str(out, " ");
    push_pad_right(out, e.expected.as_str(), 15);
    push_str(out, " ");
    push_pad_right(out, e.actual.as_str(), 15);
    push_str(out, " ");
    match e.drift_kind {
        DriftKind::Exact => push_tinted(out, "OK", 32, no_color),
        DriftKind::Minor => push_tinted(out, "MINOR", 33, no_color),
        DriftKind::Major => push_tinted(out, "MAJOR", 31, no_color),
        DriftKind::Missing => push_tinted(out, "MISSING", 31, no_color),
    }
    push_str(out, "\n");
    assert(final(out)@ =~= old(out)@ + drift_row_s(
        e.concept@,
        e.expected@,
        e.actual@,
        drift_label_s(e.drift_kind, no_color),
    ));
}

fn push_score_line(out: &mut String, pct: u32, no_color: bool)
    ensures
        final(out)@ == old(out)@ + score_line_s(pct as nat, no_color),
{
    if no_color {
        push_str(out, "Conformance score: ");
        push_decimal(out, pct as u64);
        push_str(out, "%\n");
    } else {
        let mut score = String::new();
        push_decimal(&mut score, pct as u64);
        push_str(&mut score, "%");
        let b = bold("Conformance score");
        push_str(out, b.as_str());
        push_str(out, ": ");
        if pct >= 80 {
            push_tinted(out, score.as_str(), 32, false);
        } else if pct >= 50 {
            push_tinted(out, score.as_str(), 33, false);
        } else {
            push_tinted(out, score.as_str(), 31, false);
        }
        push_str(out, "\n");
    }
    assert(final(out)@ =~= old(out)@ + score_line_s(pct as nat, no_color));
}

fn push_drift_header(out: &mut String, no_color: bool)
    ensures
        final(out)@ == old(out)@ + drift_header_s(no_color),
{
    push_str(out, "conflic v");
    push_str(out, PKG_VERSION);
    push_str(out, " - baseline drift report\n\n");
    push_str(out, "  ");
    push_pad_right(out, "Concept", 25);
    push_str(out, " ");
    push_pad_right(out, "Expected", 15);
    push_str(out, " ");
    push_pad_right(out, "Actual", 15);
    push_str(out, " ");
    push_str(out, "Drift");
    push_str(out, "\n");
    let sep = repeat_char('-', 75);
    if no_color {
        push_str(out, sep.as_str());
    } else {
        let d = dimmed(sep.as_str());
        push_str(out, d.as_str());
    }
    push_str(out, "\n");
    assert(final(out)@ =~= old(out)@ + drift_header_s(no_color));
}

/// Render drift report for terminal output.
pub fn render_drift_report(report: &BaselineDriftReport, no_color: bool) -> (r: String)
    ensures
        r@ == drift_report_s(*report, no_color),
{
    let mut out = String::new();
    push_drift_header(&mut out, no_color);
    let ghost head = out@;
    let es = &report.entries;
    let mut i: usize = 0;
    while i < es.len()
        invariant
            i <= es.len(),
            es == &report.entries,
            out@ == head + drift_rows_s(es@.take(i as int), no_color),
        decreases es.len() - i,
    {
        proof {
            assert(es@.take(i + 1).drop_last() == es@.take(i as int));
            assert(es@.take(i + 1).last() == es@[i as int]);
        }
        push_drift_row(&mut out, &es[i], no_color);
        i = i + 1;
    }
    assert(es@.take(es.len() as int) == es@);
    push_str(&mut out, "\n");
    push_score_line(&mut out, report.conformance_percent, no_color);
    assert(out@ =~= drift_report_s(*report, no_color));
    out
}

// ---------------------------------------------------------------------
// Capturing a baseline
// ---------------------------------------------------------------------

/// The assertion of highest authority; of several with the highest, the
/// last.
pub open spec fn best_assertion(xs: Seq<ConfigAssertion>) -> ConfigAssertion
    recommends
        xs.len() > 0,
    decreases xs.len(),
{
    if xs.len() <= 1 {
        xs[0]
    } else {
        let b = best_assertion(xs.drop_last());
        if xs.last().authority.rank() >= b.authority.rank() {
            xs.last()
        } else {
            b
        }
    }
}

/// The (concept, expected value) of every concept result that has
/// assertions, in order: the value of its best assertion.
pub open spec fn captured_s(crs: Seq<ConceptResult>) -> Seq<(Seq<char>, Seq<char>)>
    decreases crs.len(),
{
    if crs.len() == 0 {
        Seq::empty()
    } else {
        let rest = captured_s(crs.drop_last());
        let cr = crs.last();
        if cr.assertions@.len() == 0 {
            rest
        } else {
            rest.push((cr.concept.id@, best_assertion(cr.assertions@).raw_value@))
        }
    }
}

fn best_raw_value(xs: &Vec<ConfigAssertion>) -> (r: String)
    requires
        xs@.len() > 0,
    ensures
        r@ == best_assertion(xs@).raw_value@,
{
    let mut best: usize = 0;
    let mut i: usize = 1;
    while i < xs.len()
        invariant
            1 <= i <= xs.len(),
            best < i,
            xs@.take(i as int).len() > 0,
            best_assertion(xs@.take(i as int)) == xs@[best as int],
        decreases xs.len() - i,
    {
        proof {
            assert(xs@.take(i + 1).drop_last() == xs@.take(i as int));
            assert(xs@.take(i + 1).last() == xs@[i as int]);
        }
        if xs[i].authority.rank_u8() >= xs[best].authority.rank_u8() {
            best = i;
        }
        i = i + 1;
    }
    assert(xs@.take(xs.len() as int) == xs@);
    xs[best].raw_value.clone()
}

/// Capture the current state of all concepts as an organizational
/// baseline: for every concept with assertions, the raw value of its
/// highest-authority assertion (the last of equals), without tolerance.
pub fn capture_baseline(result: &ScanResult) -> (r: OrganizationalBaseline)
    ensures
        r.version matches Some(v) && v@ == PKG_VERSION@,
        r.created_at is None,
        r.expectation@.len() == captured_s(result.concept_results@).len(),
        forall|k: int|
            0 <= k < r.expectation@.len() ==> {
                let e = #[trigger] r.expectation@[k];
                &&& e.concept@ == captured_s(result.concept_results@)[k].0
                &&& e.expected@ == captured_s(result.concept_results@)[k].1
                &&& e.tolerance is None
            },
{
    let crs = &result.concept_results;
    let mut expectations: Vec<BaselineExpectation> = Vec::new();
    let mut i: usize = 0;
    while i < crs.len()
        invariant
            i <= crs.len(),
            crs == &result.concept_results,
            expectations@.len() == captured_s(crs@.take(i as int)).len(),
            forall|k: int|
                0 <= k < expectations@.len() ==> {
                    let e = #[trigger] expectations@[k];
                    &&& e.concept@ == captured_s(crs@.take(i as int))[k].0
                    &&& e.expected@ == captured_s(crs@.take(i as int))[k].1
                    &&& e.tolerance is None
                },
        decreases crs.len() - i,
    {
        proof {
            assert(crs@.take(i + 1).drop_last() == crs@.take(i as int));
            assert(crs@.take(i + 1).last() == crs@[i as int]);
        }
        let cr = &crs[i];
        if cr.assertions.len() > 0 {
            let expected = best_raw_value(&cr.assertions);
            expectations.push(BaselineExpectation { concept: cr.concept.id.clone(), expected, tolerance: None });
        }
        i = i + 1;
    }
    assert(crs@.take(crs.len() as int) == crs@);
    OrganizationalBaseline {
        version: Some(String::from_str(PKG_VERSION)),
        created_at: None,
        expectation: expectations,
    }
}


// ---------------------------------------------------------------------
// Conformance to a baseline
// ---------------------------------------------------------------------

/// The assertions of every concept result of the concept `id`, in order.
pub open spec fn concept_assertions_s(crs: Seq<ConceptResult>, id: Seq<char>) -> Seq<ConfigAssertion>
    decreases crs.len(),
{
    if crs.len() == 0 {
        Seq::empty()
    } else {
        let rest = concept_assertions_s(crs.drop_last(), id);
        if crs.last().concept.id@ == id {
            rest + crs.last().assertions@
        } else {
            rest
        }
    }
}

/// The concept of the first result, in order, that has assertions and
/// that the selector picks.
pub open spec fn first_selected_s(crs: Seq<ConceptResult>, selector: Seq<char>) -> Option<Seq<char>>
    decreases crs.len(),
{
    if crs.len() == 0 {
        None
    } else if crs[0].assertions@.len() > 0 && selects_s(crs[0].concept.id@, selector) {
        Some(crs[0].concept.id@)
    } else {
        first_selected_s(crs.drop_first(), selector)
    }
}

/// The concept an expectation names: itself when it has assertions, else
/// the first concept with assertions that it picks as an alias, else
/// itself.
pub open spec fn resolved_concept_s(crs: Seq<ConceptResult>, concept: Seq<char>) -> Seq<char> {
    if concept_assertions_s(crs, concept).len() > 0 {
        concept
    } else {
        match first_selected_s(crs, concept) {
            Some(id) => id,
            None => concept,
        }
    }
}

/// The entry of an expectation: missing when its concept has no
/// assertion; else the value of the highest-authority assertion (the last
/// of equals), its drift from the expected value, and the files of all
/// assertions of the concept.
pub open spec fn drift_entry_ok(en: BaselineDriftEntry, crs: Seq<ConceptResult>, e: BaselineExpectation) -> bool {
    let xs = concept_assertions_s(crs, resolved_concept_s(crs, e.concept@));
    &&& en.concept@ == e.concept@
    &&& en.expected@ == e.expected@
    &&& if xs.len() == 0 {
        &&& en.actual@ == "(missing)"@
        &&& en.drift_kind == DriftKind::Missing
        &&& en.files@.len() == 0
    } else {
        let b = best_assertion(xs);
        &&& en.actual@ == b.raw_value@
        &&& en.drift_kind == drift_s(e.expected@, b.raw_value@, opt_view(e.tolerance))
        &&& strings_view(en.files@) == xs.map_values(|a: ConfigAssertion| a.source.file@)
    }
}

/// The number of entries that drift not at all.
pub open spec fn exact_count(es: Seq<BaselineDriftEntry>) -> nat
    decreases es.len(),
{
    if es.len() == 0 {
        0
    } else {
        exact_count(es.drop_last()) + (if es.last().drift_kind == DriftKind::Exact {
            1nat
        } else {
            0nat
        })
    }
}

/// The comparison of a scan with a baseline: an entry per expectation, and
/// the number of expectations met exactly out of all of them (their ratio
/// is the conformance score; 1 when there is no expectation).
#[derive(Debug, Clone)]
pub struct BaselineComparison {
    pub entries: Vec<BaselineDriftEntry>,
    pub conformant: usize,
    pub total: usize,
}

proof fn lemma_concept_assertions_step(crs: Seq<ConceptResult>, id: Seq<char>, i: int)
    requires
        0 <= i < crs.len(),
    ensures
        concept_assertions_s(crs.take(i + 1), id) == if crs[i].concept.id@ == id {
            concept_assertions_s(crs.take(i), id) + crs[i].assertions@
        } else {
            concept_assertions_s(crs.take(i), id)
        },
{
    assert(crs.take(i + 1).drop_last() == crs.take(i));
    assert(crs.take(i + 1).last() == crs[i]);
}

/// Whether the concept `id` has assertions.
fn has_assertions(crs: &Vec<ConceptResult>, id: &str) -> (r: bool)
    ensures
        r == (concept_assertions_s(crs@, id@).len() > 0),
{
    let mut i: usize = 0;
    while i < crs.len()
        invariant
            i <= crs.len(),
            concept_assertions_s(crs@.take(i as int), id@).len() == 0,
        decreases crs.len() - i,
    {
        proof {
            lemma_concept_assertions_step(crs@, id@, i as int);
        }
        if crate::text::str_eq(crs[i].concept.id.as_str(), id) && crs[i].assertions.len() > 0 {
            proof {
                lemma_concept_assertions_prefix_len(crs@, id@, i + 1);
            }
            return true;
        }
        i = i + 1;
    }
    assert(crs@.take(crs.len() as int) == crs@);
    false
}

proof fn lemma_concept_assertions_prefix_len(crs: Seq<ConceptResult>, id: Seq<char>, k: int)
    requires
        0 <= k <= crs.len(),
    ensures
        concept_assertions_s(crs.take(k), id).len() <= concept_assertions_s(crs, id).len(),
    decreases crs.len() - k,
{
    if k < crs.len() {
        lemma_concept_assertions_prefix_len(crs, id, k + 1);
        lemma_concept_assertions_step(crs, id, k);
    } else {
        assert(crs.take(k) == crs);
    }
}

/// The concept an expectation names, resolved as `resolved_concept_s`.
fn resolve_concept_id(crs: &Vec<ConceptResult>, concept: &str) -> (r: String)
    ensures
        r@ == resolved_concept_s(crs@, concept@),
{
    if has_assertions(crs, concept) {
        return String::from_str(concept);
    }
    assert(crs@.skip(0) == crs@);
    let mut i: usize = 0;
    while i < crs.len()
        invariant
            i <= crs.len(),
            first_selected_s(crs@, concept@) == first_selected_s(crs@.skip(i as int), concept@),
            concept_assertions_s(crs@, concept@).len() == 0,
        decreases crs.len() - i,
    {
        proof {
            assert(crs@.skip(i as int)[0] == crs@[i as int]);
            assert(crs@.skip(i as int).drop_first() == crs@.skip(i + 1));
        }
        let cr = &crs[i];
        if cr.assertions.len() > 0 && concept_matches_selector(cr.concept.id.as_str(), concept) {
            return cr.concept.id.clone();
        }
        i = i + 1;
    }
    proof {
        assert(crs@.skip(crs.len() as int).len() == 0);
    }
    String::from_str(concept)
}

/// The entry of one expectation.
fn drift_entry(crs: &Vec<ConceptResult>, e: &BaselineExpectation) -> (r: BaselineDriftEntry)
    ensures
        drift_entry_ok(r, crs@, *e),
{
    let id = resolve_concept_id(crs, e.concept.as_str());
    let ghost xs_all = concept_assertions_s(crs@, id@);
    let mut best: Option<&ConfigAssertion> = None;
    let mut files: Vec<String> = Vec::new();
    let ghost mut flat: Seq<ConfigAssertion> = Seq::empty();
    let mut i: usize = 0;
    while i < crs.len()
        invariant
            i <= crs.len(),
            flat == concept_assertions_s(crs@.take(i as int), id@),
            best is None <==> flat.len() == 0,
            best matches Some(b) ==> *b == best_assertion(flat),
            strings_view(files@) == flat.map_values(|a: ConfigAssertion| a.source.file@),
        decreases crs.len() - i,
    {
        proof {
            lemma_concept_assertions_step(crs@, id@, i as int);
        }
        let cr = &crs[i];
        if crate::text::str_eq(cr.concept.id.as_str(), id.as_str()) {
            let xs = &cr.assertions;
            let ghost start = flat;
            let mut j: usize = 0;
            while j < xs.len()
                invariant
                    j <= xs.len(),
                    xs == &crs@[i as int].assertions,
                    flat == start + xs@.take(j as int),
                    best is None <==> flat.len() == 0,
                    best matches Some(b) ==> *b == best_assertion(flat),
                    strings_view(files@) == flat.map_values(|a: ConfigAssertion| a.source.file@),
                decreases xs.len() - j,
            {
                let a = &xs[j];
                let ghost prev = flat;
                proof {
                    flat = flat.push(*a);
                    assert(start + xs@.take(j + 1) =~= prev.push(xs@[j as int]));
                    assert(flat.drop_last() == prev);
                    assert(flat.last() == *a);
                }
                best = match best {
                    None => Some(a),
                    Some(b) => if a.authority.rank_u8() >= b.authority.rank_u8() {
                        Some(a)
                    } else {
                        Some(b)
                    },
                };
                let ghost fv = strings_view(files@);
                files.push(a.source.file.clone());
                proof {
                    assert(strings_view(files@) =~= fv.push(a.source.file@));
                    assert(flat.map_values(|x: ConfigAssertion| x.source.file@) =~= prev.map_values(
                        |x: ConfigAssertion| x.source.file@,
                    ).push(a.source.file@));
                }
                j = j + 1;
            }
            assert(xs@.take(xs.len() as int) == xs@);
        }
        i = i + 1;
    }
    assert(crs@.take(crs.len() as int) == crs@);
    match best {
        None => BaselineDriftEntry {
            concept: e.concept.clone(),
            expected: e.expected.clone(),
            actual: String::from_str("(missing)"),
            drift_kind: DriftKind::Missing,
            files: Vec::new(),
        },
        Some(b) => {
            let tol: Option<&str> = match &e.tolerance {
                Some(t) => Some(t.as_str()),
                None => None,
            };
            let kind = compute_drift(e.expected.as_str(), b.raw_value.as_str(), tol);
            BaselineDriftEntry {
                concept: e.concept.clone(),
                expected: e.expected.clone(),
                actual: b.raw_value.clone(),
                drift_kind: kind,
                files,
            }
        },
    }
}

/// Compare a scan with an organizational baseline: for each expectation,
/// in order, its entry, and how many expectations are met exactly.
pub fn compare_to_baseline(result: &ScanResult, baseline: &OrganizationalBaseline) -> (r: BaselineComparison)
    ensures
        r.entries@.len() == baseline.expectation@.len(),
        forall|k: int|
            0 <= k < r.entries@.len() ==> drift_entry_ok(
                #[trigger] r.entries@[k],
                result.concept_results@,
                baseline.expectation@[k],
            ),
        r.conformant == exact_count(r.entries@),
        r.total == baseline.expectation@.len(),
{
    let es = &baseline.expectation;
    let mut entries: Vec<BaselineDriftEntry> = Vec::new();
    let mut conformant: usize = 0;
    let mut i: usize = 0;
    while i < es.len()
        invariant
            i <= es.len(),
            es == &baseline.expectation,
            entries@.len() == i,
            conformant == exact_count(entries@),
            conformant <= i,
            forall|k: int|
                0 <= k < i ==> drift_entry_ok(#[trigger] entries@[k], result.concept_results@, es@[k]),
        decreases es.len() - i,
    {
        let en = drift_entry(&result.concept_results, &es[i]);
        let exact = match en.drift_kind {
            DriftKind::Exact => true,
            _ => false,
        };
        let ghost prev = entries@;
        entries.push(en);
        proof {
            assert(entries@.drop_last() == prev);
        }
        if exact {
            conformant = conformant + 1;
        }
        i = i + 1;
    }
    BaselineComparison { entries, conformant, total: es.len() }
}

} // verus!
