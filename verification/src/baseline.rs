//! Baselines: the known findings that a scan suppresses, fingerprinted
//! independently of line numbers.
use vstd::prelude::*;
use vstd::string::*;
use crate::fix::patcher::PKG_VERSION;
use crate::model::finding::{findings_of, ConceptResult, Finding, ScanResult};
use crate::pathing::{comp_rank, components, path_components};
use crate::history::{severity_name, severity_text};
use crate::text::{from_chars, reversed_vec, str_eq, to_chars, vv};

verus! {

/// A baseline file that records known findings to suppress.
#[derive(Debug, Clone)]
pub struct Baseline {
    pub version: String,
    pub fingerprints: Vec<FindingFingerprint>,
}

/// A stable fingerprint for a finding, independent of line numbers: its
/// rule, concept and severity, and the file, key path and value of each
/// side.
#[derive(Debug, Clone)]
pub struct FindingFingerprint {
    pub rule_id: String,
    pub concept: String,
    pub severity: String,
    pub left_file: String,
    pub left_key_path: String,
    pub left_value: String,
    pub right_file: String,
    pub right_key_path: String,
    pub right_value: String,
}

/// The file name of a path (`Path::file_name`): its last component when
/// that is a name, else the whole path text.
pub open spec fn filename_s(path: Seq<char>) -> Seq<char> {
    let cs = path_components(path);
    if cs.len() > 0 && comp_rank(cs.last()) == 4 {
        cs.last()
    } else {
        path
    }
}

/// Extract just the filename from a path for stable fingerprinting, so
/// that fingerprints do not depend on the machine or working directory.
pub fn filename_of(path: &str) -> (r: String)
    ensures
        r@ == filename_s(path@),
{
    let pc = to_chars(path);
    let cs = components(pc.as_slice());
    let ghost cv = vv(cs@);
    if cs.len() > 0 {
        let last = &cs[cs.len() - 1];
        assert(cv.last() == last@);
        let is_name = !(crate::text::chars_eq_str(last.as_slice(), "/") || crate::text::chars_eq_str(
            last.as_slice(),
            ".",
        ) || crate::text::chars_eq_str(last.as_slice(), ".."));
        if is_name {
            return from_chars(last.as_slice());
        }
    }
    String::from_str(path)
}


/// The fingerprint of a finding, as the nine texts it is made of.
pub open spec fn fingerprint_key_s(f: Finding) -> Seq<Seq<char>> {
    seq![
        f.rule_id@,
        f.left.concept.id@,
        severity_name(f.severity),
        filename_s(f.left.source.file@),
        f.left.source.key_path@,
        f.left.raw_value@,
        filename_s(f.right.source.file@),
        f.right.source.key_path@,
        f.right.raw_value@,
    ]
}

impl FindingFingerprint {
    /// The nine texts of the fingerprint.
    pub open spec fn key(self) -> Seq<Seq<char>> {
        seq![
            self.rule_id@,
            self.concept@,
            self.severity@,
            self.left_file@,
            self.left_key_path@,
            self.left_value@,
            self.right_file@,
            self.right_key_path@,
            self.right_value@,
        ]
    }

    /// The fingerprint of a finding: its rule, concept and severity, and
    /// the file name, key path and value of both sides.
    pub fn from_finding(finding: &Finding) -> (r: Self)
        ensures
            r.key() == fingerprint_key_s(*finding),
            r.rule_id@ == finding.rule_id@,
            r.concept@ == finding.left.concept.id@,
            r.severity@ == severity_name(finding.severity),
            r.left_file@ == filename_s(finding.left.source.file@),
            r.left_key_path@ == finding.left.source.key_path@,
            r.left_value@ == finding.left.raw_value@,
            r.right_file@ == filename_s(finding.right.source.file@),
            r.right_key_path@ == finding.right.source.key_path@,
            r.right_value@ == finding.right.raw_value@,
    {
        let r = FindingFingerprint {
            rule_id: finding.rule_id.clone(),
            concept: finding.left.concept.id.clone(),
            severity: severity_text(finding.severity),
            left_file: filename_of(finding.left.source.file.as_str()),
            left_key_path: finding.left.source.key_path.clone(),
            left_value: finding.left.raw_value.clone(),
            right_file: filename_of(finding.right.source.file.as_str()),
            right_key_path: finding.right.source.key_path.clone(),
            right_value: finding.right.raw_value.clone(),
        };
        assert(r.key() =~= fingerprint_key_s(*finding));
        r
    }

    fn same(&self, other: &FindingFingerprint) -> (r: bool)
        ensures
            r == (self.key() == other.key()),
    {
        let r = str_eq(self.rule_id.as_str(), other.rule_id.as_str()) && str_eq(
            self.concept.as_str(),
            other.concept.as_str(),
        ) && str_eq(self.severity.as_str(), other.severity.as_str()) && str_eq(
            self.left_file.as_str(),
            other.left_file.as_str(),
        ) && str_eq(self.left_key_path.as_str(), other.left_key_path.as_str()) && str_eq(
            self.left_value.as_str(),
            other.left_value.as_str(),
        ) && str_eq(self.right_file.as_str(), other.right_file.as_str()) && str_eq(
            self.right_key_path.as_str(),
            other.right_key_path.as_str(),
        ) && str_eq(
            self.right_value.as_str(),
            other.right_value.as_str(),
        );
        proof {
            if r {
                assert(self.key() =~= other.key());
            } else if self.key() == other.key() {
                assert(self.key()[0] == other.key()[0]);
                assert(self.key()[1] == other.key()[1]);
                assert(self.key()[2] == other.key()[2]);
                assert(self.key()[3] == other.key()[3]);
                assert(self.key()[4] == other.key()[4]);
                assert(self.key()[5] == other.key()[5]);
                assert(self.key()[6] == other.key()[6]);
                assert(self.key()[7] == other.key()[7]);
                assert(self.key()[8] == other.key()[8]);
            }
        }
        r
    }
}

/// The fingerprints of a baseline, as their texts.
pub open spec fn baseline_keys(fps: Seq<FindingFingerprint>) -> Seq<Seq<Seq<char>>> {
    fps.map_values(|f: FindingFingerprint| f.key())
}

/// The findings whose fingerprint is not among `known`, in order.
pub open spec fn kept_findings_s(fs: Seq<Finding>, known: Seq<Seq<Seq<char>>>) -> Seq<Finding>
    decreases fs.len(),
{
    if fs.len() == 0 {
        Seq::empty()
    } else {
        let rest = kept_findings_s(fs.drop_last(), known);
        if known.contains(fingerprint_key_s(fs.last())) {
            rest
        } else {
            rest.push(fs.last())
        }
    }
}

/// Generate a baseline from current scan results: the fingerprint of every
/// finding, in order, under this library's version.
pub fn generate_baseline(result: &ScanResult) -> (r: Baseline)
    ensures
        r.version@ == PKG_VERSION@,
        baseline_keys(r.fingerprints@) == result.all_findings().map_values(|f: Finding| fingerprint_key_s(f)),
{
    let crs = &result.concept_results;
    let mut fingerprints: Vec<FindingFingerprint> = Vec::new();
    let mut i: usize = 0;
    while i < crs.len()
        invariant
            i <= crs.len(),
            crs == &result.concept_results,
            baseline_keys(fingerprints@) == findings_of(crs@.take(i as int)).map_values(
                |f: Finding| fingerprint_key_s(f),
            ),
        decreases crs.len() - i,
    {
        proof {
            assert(crs@.take(i + 1).drop_last() == crs@.take(i as int));
            assert(crs@.take(i + 1).last() == crs@[i as int]);
        }
        let fs = &crs[i].findings;
        let ghost before = findings_of(crs@.take(i as int));
        let mut j: usize = 0;
        while j < fs.len()
            invariant
                j <= fs.len(),
                fs == &crs@[i as int].findings,
                baseline_keys(fingerprints@) == (before + fs@.take(j as int)).map_values(
                    |f: Finding| fingerprint_key_s(f),
                ),
            decreases fs.len() - j,
        {
            let fp = FindingFingerprint::from_finding(&fs[j]);
            let ghost prev = fingerprints@;
            let ghost k = fp.key();
            fingerprints.push(fp);
            j = j + 1;
            proof {
                let seen = before + fs@.take(j - 1);
                assert(before + fs@.take(j as int) =~= seen.push(fs@[j - 1]));
                assert(baseline_keys(fingerprints@) =~= baseline_keys(prev).push(k));
                assert(seen.push(fs@[j - 1]).map_values(|f: Finding| fingerprint_key_s(f)) =~= seen.map_values(
                    |f: Finding| fingerprint_key_s(f),
                ).push(fingerprint_key_s(fs@[j - 1])));
            }
        }
        assert(fs@.take(fs.len() as int) == fs@);
        i = i + 1;
    }
    assert(crs@.take(crs.len() as int) == crs@);
    Baseline { version: String::from_str(PKG_VERSION), fingerprints }
}

fn is_known(known: &Vec<FindingFingerprint>, fp: &FindingFingerprint) -> (r: bool)
    ensures
        r == baseline_keys(known@).contains(fp.key()),
{
    let ghost keys = baseline_keys(known@);
    let mut i: usize = 0;
    while i < known.len()
        invariant
            i <= known.len(),
            keys == baseline_keys(known@),
            forall|k: int| 0 <= k < i ==> keys[k] != fp.key(),
        decreases known.len() - i,
    {
        if known[i].same(fp) {
            assert(keys[i as int] == fp.key());
            return true;
        }
        i = i + 1;
    }
    proof {
        if keys.contains(fp.key()) {
            let k = choose|k: int| 0 <= k < keys.len() && keys[k] == fp.key();
            assert(keys[k] != fp.key());
        }
    }
    false
}

fn filter_findings(findings: Vec<Finding>, known: &Vec<FindingFingerprint>) -> (r: Vec<Finding>)
    ensures
        r@ == kept_findings_s(findings@, baseline_keys(known@)),
{
    let ghost orig = findings@;
    let ghost n = orig.len();
    let count: usize = findings.len();
    assert(n == count);
    let mut rest = reversed_vec(findings);
    let mut out: Vec<Finding> = Vec::new();
    let mut i: usize = 0;
    while rest.len() > 0
        invariant
            n == orig.len(),
            n <= usize::MAX,
            i + rest@.len() == n,
            forall|k: int| 0 <= k < rest@.len() ==> #[trigger] rest@[k] == orig[n - 1 - k],
            out@ == kept_findings_s(orig.take(i as int), baseline_keys(known@)),
        decreases rest@.len(),
    {
        let f = rest.pop().unwrap();
        assert(f == orig[i as int]);
        proof {
            assert(orig.take(i + 1).drop_last() == orig.take(i as int));
            assert(orig.take(i + 1).last() == f);
        }
        let fp = FindingFingerprint::from_finding(&f);
        if !is_known(known, &fp) {
            out.push(f);
        }
        i = i + 1;
    }
    assert(orig.take(n as int) == orig);
    out
}

/// Filter findings, removing any that match the baseline: every concept
/// result keeps, in order, exactly the findings whose fingerprint the
/// baseline does not record.
pub fn filter_baselined(result: &mut ScanResult, baseline: &Baseline)
    ensures
        final(result).parse_diagnostics == old(result).parse_diagnostics,
        final(result).concept_results@.len() == old(result).concept_results@.len(),
        forall|i: int|
            0 <= i < old(result).concept_results@.len() ==> {
                let a = #[trigger] final(result).concept_results@[i];
                let b = old(result).concept_results@[i];
                &&& a.concept == b.concept
                &&& a.assertions == b.assertions
                &&& a.findings@ == kept_findings_s(b.findings@, baseline_keys(baseline.fingerprints@))
            },
{
    let mut taken: Vec<ConceptResult> = Vec::new();
    std::mem::swap(&mut taken, &mut result.concept_results);
    let ghost orig = taken@;
    let ghost n = orig.len();
    let count: usize = taken.len();
    assert(n == count);
    let mut rest = reversed_vec(taken);
    let mut out: Vec<ConceptResult> = Vec::new();
    let mut i: usize = 0;
    while rest.len() > 0
        invariant
            n == orig.len(),
            n <= usize::MAX,
            i + rest@.len() == n,
            forall|k: int| 0 <= k < rest@.len() ==> #[trigger] rest@[k] == orig[n - 1 - k],
            out@.len() == i,
            forall|k: int|
                0 <= k < i ==> {
                    let a = #[trigger] out@[k];
                    let b = orig[k];
                    &&& a.concept == b.concept
                    &&& a.assertions == b.assertions
                    &&& a.findings@ == kept_findings_s(b.findings@, baseline_keys(baseline.fingerprints@))
                },
        decreases rest@.len(),
    {
        let cr = rest.pop().unwrap();
        assert(cr == orig[i as int]);
        let ConceptResult { concept, assertions, findings } = cr;
        let kept = filter_findings(findings, &baseline.fingerprints);
        out.push(ConceptResult { concept, assertions, findings: kept });
        i = i + 1;
    }
    result.concept_results = out;
}


/// A baseline made from a set of findings suppresses every one of them:
/// filtering those findings against their own fingerprints keeps none.
pub proof fn law_baseline_suppresses_its_own_findings(fs: Seq<Finding>, known: Seq<Seq<Seq<char>>>)
    requires
        forall|k: int| 0 <= k < fs.len() ==> known.contains(#[trigger] fingerprint_key_s(fs[k])),
    ensures
        kept_findings_s(fs, known) == Seq::<Finding>::empty(),
    decreases fs.len(),
{
    if fs.len() > 0 {
        assert forall|k: int| 0 <= k < fs.drop_last().len() implies known.contains(
            #[trigger] fingerprint_key_s(fs.drop_last()[k]),
        ) by {
            assert(fs.drop_last()[k] == fs[k]);
        }
        law_baseline_suppresses_its_own_findings(fs.drop_last(), known);
        assert(known.contains(fingerprint_key_s(fs[fs.len() - 1])));
    }
}

/// Filtering keeps exactly the findings whose fingerprint the baseline does
/// not record: a new finding is still reported, a known one never is.
pub proof fn law_filter_keeps_exactly_unknown_findings(fs: Seq<Finding>, known: Seq<Seq<Seq<char>>>, f: Finding)
    ensures
        kept_findings_s(fs, known).contains(f) <==> (fs.contains(f) && !known.contains(fingerprint_key_s(f))),
    decreases fs.len(),
{
    if fs.len() > 0 {
        law_filter_keeps_exactly_unknown_findings(fs.drop_last(), known, f);
        let rest = kept_findings_s(fs.drop_last(), known);
        let x = fs.last();
        if fs.contains(f) && !fs.drop_last().contains(f) {
            let k = choose|k: int| 0 <= k < fs.len() && fs[k] == f;
            if k < fs.len() - 1 {
                assert(fs.drop_last()[k] == f);
            }
        }
        if fs.drop_last().contains(f) {
            let k = choose|k: int| 0 <= k < fs.drop_last().len() && fs.drop_last()[k] == f;
            assert(fs[k] == f);
        }
        if !known.contains(fingerprint_key_s(x)) {
            assert(rest.push(x).last() == x);
            if rest.contains(f) {
                let k = choose|k: int| 0 <= k < rest.len() && rest[k] == f;
                assert(rest.push(x)[k] == f);
            }
            if rest.push(x).contains(f) && f != x {
                let k = choose|k: int| 0 <= k < rest.push(x).len() && rest.push(x)[k] == f;
                assert(rest[k] == f);
            }
        }
    }
}


proof fn lemma_result_findings_in_all(crs: Seq<ConceptResult>, i: int, j: int)
    requires
        0 <= i < crs.len(),
        0 <= j < crs[i].findings@.len(),
    ensures
        findings_of(crs).contains(crs[i].findings@[j]),
    decreases crs.len(),
{
    let all = findings_of(crs);
    if i == crs.len() - 1 {
        let before = findings_of(crs.drop_last());
        assert(all[before.len() + j] == crs[i].findings@[j]);
    } else {
        lemma_result_findings_in_all(crs.drop_last(), i, j);
        let before = findings_of(crs.drop_last());
        let k = choose|k: int| 0 <= k < before.len() && before[k] == crs[i].findings@[j];
        assert(all[k] == before[k]);
    }
}

/// Saving the current findings as a baseline and then filtering the same
/// scan against it leaves no finding in any concept result.
pub proof fn law_update_then_filter_suppresses_all(result: ScanResult, baseline: Baseline)
    requires
        baseline_keys(baseline.fingerprints@) == result.all_findings().map_values(
            |f: Finding| fingerprint_key_s(f),
        ),
    ensures
        forall|i: int|
            0 <= i < result.concept_results@.len() ==> kept_findings_s(
                #[trigger] result.concept_results@[i].findings@,
                baseline_keys(baseline.fingerprints@),
            ) == Seq::<Finding>::empty(),
{
    let known = baseline_keys(baseline.fingerprints@);
    let all = result.all_findings();
    assert forall|i: int| 0 <= i < result.concept_results@.len() implies kept_findings_s(
        #[trigger] result.concept_results@[i].findings@,
        known,
    ) == Seq::<Finding>::empty() by {
        let fs = result.concept_results@[i].findings@;
        assert forall|j: int| 0 <= j < fs.len() implies known.contains(#[trigger] fingerprint_key_s(fs[j])) by {
            lemma_result_findings_in_all(result.concept_results@, i, j);
            let k = choose|k: int| 0 <= k < all.len() && all[k] == fs[j];
            assert(known[k] == fingerprint_key_s(all[k]));
        }
        law_baseline_suppresses_its_own_findings(fs, known);
    }
}

} // verus!

verus! {

/// A finding whose left or right key path differs from that of every
/// finding a baseline was made of is still reported after filtering: the
/// fingerprint tells the two sides' key paths apart, so a contradiction
/// found under another key (such as another build stage) is not hidden.
pub proof fn law_changed_key_path_is_reported(fs: Seq<Finding>, baselined: Seq<Finding>, f: Finding)
    requires
        fs.contains(f),
        forall|j: int|
            0 <= j < baselined.len() ==> (#[trigger] baselined[j]).left.source.key_path@ != f.left.source.key_path@
                || baselined[j].right.source.key_path@ != f.right.source.key_path@,
    ensures
        kept_findings_s(fs, baselined.map_values(|g: Finding| fingerprint_key_s(g))).contains(f),
{
    let known = baselined.map_values(|g: Finding| fingerprint_key_s(g));
    if known.contains(fingerprint_key_s(f)) {
        let k = choose|k: int| 0 <= k < known.len() && known[k] == fingerprint_key_s(f);
        let g = baselined[k];
        assert(known[k] == fingerprint_key_s(g));
        assert(fingerprint_key_s(g)[4] == fingerprint_key_s(f)[4]);
        assert(fingerprint_key_s(g)[7] == fingerprint_key_s(f)[7]);
    }
    law_filter_keeps_exactly_unknown_findings(fs, known, f);
}

/// A finding whose severity, or the value of either side, differs from
/// that of every finding a baseline was made of is still reported after
/// filtering: a changed contradiction is not hidden by the baseline.
pub proof fn law_changed_value_or_severity_is_reported(fs: Seq<Finding>, baselined: Seq<Finding>, f: Finding)
    requires
        fs.contains(f),
        forall|j: int|
            0 <= j < baselined.len() ==> (#[trigger] baselined[j]).severity != f.severity || baselined[j].left.raw_value@
                != f.left.raw_value@ || baselined[j].right.raw_value@ != f.right.raw_value@,
    ensures
        kept_findings_s(fs, baselined.map_values(|g: Finding| fingerprint_key_s(g))).contains(f),
{
    let known = baselined.map_values(|g: Finding| fingerprint_key_s(g));
    if known.contains(fingerprint_key_s(f)) {
        let k = choose|k: int| 0 <= k < known.len() && known[k] == fingerprint_key_s(f);
        let g = baselined[k];
        assert(known[k] == fingerprint_key_s(g));
        assert(fingerprint_key_s(g)[2] == fingerprint_key_s(f)[2]);
        assert(fingerprint_key_s(g)[5] == fingerprint_key_s(f)[5]);
        assert(fingerprint_key_s(g)[8] == fingerprint_key_s(f)[8]);
        reveal_strlit("info");
        reveal_strlit("warning");
        reveal_strlit("error");
        assert(severity_name(g.severity).len() == severity_name(f.severity).len());
        assert(g.severity == f.severity);
    }
    law_filter_keeps_exactly_unknown_findings(fs, known, f);
}

} // verus!
