//! Severity of a finding.
use vstd::prelude::*;
use vstd::string::*;
use super::assertion::ConfigAssertion;
use super::concept::SemanticConcept;
use super::semantic_type::lower_s;
use crate::text::{chars_eq_str, to_ascii_lower, to_chars, trim_chars, trim_s};

verus! {

/// Severity of a finding, ordered `Info < Warning < Error`.
#[derive(Debug, Clone, Copy, PartialEq, Eq, Structural, Hash, PartialOrd, Ord)]
pub enum Severity {
    Info,
    Warning,
    Error,
}

impl Severity {
    /// The position of the severity in the order `Info < Warning < Error`.
    pub open spec fn rank(self) -> nat {
        match self {
            Severity::Info => 0,
            Severity::Warning => 1,
            Severity::Error => 2,
        }
    }

    /// The upper-case label of the severity.
    pub open spec fn label(self) -> Seq<char> {
        match self {
            Severity::Info => "INFO"@,
            Severity::Warning => "WARNING"@,
            Severity::Error => "ERROR"@,
        }
    }

    /// The upper-case label of the severity (`INFO`, `WARNING`, `ERROR`).
    pub fn to_text(&self) -> (r: String)
        ensures
            r@ == self.label(),
    {
        match self {
            Severity::Info => String::from_str("INFO"),
            Severity::Warning => String::from_str("WARNING"),
            Severity::Error => String::from_str("ERROR"),
        }
    }

    /// Whether `self` is at least as severe as `other`.
    pub fn at_least(&self, other: &Severity) -> (r: bool)
        ensures
            r == (self.rank() >= other.rank()),
    {
        let a: u8 = match self {
            Severity::Info => 0,
            Severity::Warning => 1,
            Severity::Error => 2,
        };
        let b: u8 = match other {
            Severity::Info => 0,
            Severity::Warning => 1,
            Severity::Error => 2,
        };
        a >= b
    }
}

/// The severity a rule names (`error`, `warning`, `info`, in any ASCII
/// case, surrounding whitespace ignored); anything else is an error.
pub open spec fn parse_severity_s(s: Seq<char>) -> Severity {
    let t = lower_s(trim_s(s));
    if t == "warning"@ {
        Severity::Warning
    } else if t == "info"@ {
        Severity::Info
    } else {
        Severity::Error
    }
}

/// The severity a rule names.
pub fn parse_severity(severity: &str) -> (r: Severity)
    ensures
        r == parse_severity_s(severity@),
{
    let cs = to_chars(severity);
    let t = trim_chars(cs.as_slice());
    let mut low: Vec<char> = Vec::new();
    let mut i: usize = 0;
    while i < t.len()
        invariant
            i <= t.len(),
            low@ == lower_s(t@).take(i as int),
        decreases t.len() - i,
    {
        low.push(to_ascii_lower(t[i]));
        i = i + 1;
        assert(low@ =~= lower_s(t@).take(i as int));
    }
    assert(lower_s(t@).take(t.len() as int) =~= lower_s(t@));
    proof {
        reveal_strlit("error");
        reveal_strlit("warning");
        reveal_strlit("info");
    }
    if chars_eq_str(low.as_slice(), "error") {
        Severity::Error
    } else if chars_eq_str(low.as_slice(), "warning") {
        Severity::Warning
    } else if chars_eq_str(low.as_slice(), "info") {
        Severity::Info
    } else {
        Severity::Error
    }
}


/// A single contradiction finding between two assertions.
#[derive(Debug, Clone)]
pub struct Finding {
    pub severity: Severity,
    pub left: ConfigAssertion,
    pub right: ConfigAssertion,
    pub explanation: String,
    pub rule_id: String,
}

/// All comparison results for a single semantic concept.
#[derive(Debug)]
pub struct ConceptResult {
    pub concept: SemanticConcept,
    pub assertions: Vec<ConfigAssertion>,
    pub findings: Vec<Finding>,
}

/// A problem met while reading a file or the configuration, reported
/// beside the findings.
#[derive(Debug, Clone)]
pub struct ParseDiagnostic {
    pub severity: Severity,
    /// The file, as path text.
    pub file: String,
    pub message: String,
    pub rule_id: String,
}

/// The overall scan result.
#[derive(Debug)]
pub struct ScanResult {
    pub concept_results: Vec<ConceptResult>,
    pub parse_diagnostics: Vec<ParseDiagnostic>,
}

/// The findings of all concept results, in order.
pub open spec fn findings_of(crs: Seq<ConceptResult>) -> Seq<Finding>
    decreases crs.len(),
{
    if crs.len() == 0 {
        Seq::empty()
    } else {
        findings_of(crs.drop_last()) + crs.last().findings@
    }
}

/// How many of the findings have the severity.
pub open spec fn count_severity(fs: Seq<Finding>, sev: Severity) -> nat
    decreases fs.len(),
{
    if fs.len() == 0 {
        0
    } else {
        count_severity(fs.drop_last(), sev) + if fs.last().severity == sev {
            1nat
        } else {
            0nat
        }
    }
}

pub proof fn lemma_count_severity_append(a: Seq<Finding>, b: Seq<Finding>, sev: Severity)
    ensures
        count_severity(a + b, sev) == count_severity(a, sev) + count_severity(b, sev),
        count_severity(b, sev) <= b.len(),
    decreases b.len(),
{
    if b.len() == 0 {
        assert(a + b == a);
    } else {
        lemma_count_severity_append(a, b.drop_last(), sev);
        assert((a + b).drop_last() == a + b.drop_last());
    }
}

impl ScanResult {
    /// All findings of the scan, in order.
    pub open spec fn all_findings(self) -> Seq<Finding> {
        findings_of(self.concept_results@)
    }

    fn count_with_severity(&self, sev: Severity) -> (r: usize)
        requires
            self.all_findings().len() <= usize::MAX,
        ensures
            r == count_severity(self.all_findings(), sev),
    {
        let crs = &self.concept_results;
        let mut total: usize = 0;
        let mut i: usize = 0;
        while i < crs.len()
            invariant
                i <= crs.len(),
                crs == &self.concept_results,
                findings_of(crs@).len() <= usize::MAX,
                total == count_severity(findings_of(crs@.take(i as int)), sev),
                total <= findings_of(crs@.take(i as int)).len(),
            decreases crs.len() - i,
        {
            proof {
                assert(crs@.take(i + 1).drop_last() == crs@.take(i as int));
                assert(crs@.take(i + 1).last() == crs@[i as int]);
                lemma_findings_prefix_len(crs@, i + 1);
            }
            let fs = &crs[i].findings;
            let ghost before = findings_of(crs@.take(i as int));
            let mut j: usize = 0;
            while j < fs.len()
                invariant
                    j <= fs.len(),
                    fs == &crs@[i as int].findings,
                    before.len() + fs@.len() <= usize::MAX,
                    total == count_severity(before, sev) + count_severity(fs@.take(j as int), sev),
                    total <= before.len() + j,
                decreases fs.len() - j,
            {
                proof {
                    assert(fs@.take(j + 1).drop_last() == fs@.take(j as int));
                    assert(fs@.take(j + 1).last() == fs@[j as int]);
                }
                if fs[j].severity == sev {
                    total = total + 1;
                }
                j = j + 1;
            }
            proof {
                assert(fs@.take(fs.len() as int) == fs@);
                lemma_count_severity_append(before, fs@, sev);
            }
            i = i + 1;
        }
        assert(crs@.take(crs.len() as int) == crs@);
        total
    }

    /// The number of findings with severity `Error`.
    pub fn error_count(&self) -> (r: usize)
        requires
            self.all_findings().len() <= usize::MAX,
        ensures
            r == count_severity(self.all_findings(), Severity::Error),
    {
        self.count_with_severity(Severity::Error)
    }

    /// The number of findings with severity `Warning`.
    pub fn warning_count(&self) -> (r: usize)
        requires
            self.all_findings().len() <= usize::MAX,
        ensures
            r == count_severity(self.all_findings(), Severity::Warning),
    {
        self.count_with_severity(Severity::Warning)
    }

    /// The number of findings with severity `Info`.
    pub fn info_count(&self) -> (r: usize)
        requires
            self.all_findings().len() <= usize::MAX,
        ensures
            r == count_severity(self.all_findings(), Severity::Info),
    {
        self.count_with_severity(Severity::Info)
    }

    /// Whether some finding is at least as severe as `min_severity`.
    pub fn has_findings_at_or_above(&self, min_severity: Severity) -> (r: bool)
        ensures
            r == exists|k: int|
                0 <= k < self.all_findings().len() && #[trigger] self.all_findings()[k].severity.rank()
                    >= min_severity.rank(),
    {
        let crs = &self.concept_results;
        let mut i: usize = 0;
        while i < crs.len()
            invariant
                i <= crs.len(),
                crs == &self.concept_results,
                forall|k: int|
                    0 <= k < findings_of(crs@.take(i as int)).len() ==> #[trigger] findings_of(
                        crs@.take(i as int),
                    )[k].severity.rank() < min_severity.rank(),
            decreases crs.len() - i,
        {
            proof {
                assert(crs@.take(i + 1).drop_last() == crs@.take(i as int));
                assert(crs@.take(i + 1).last() == crs@[i as int]);
            }
            let fs = &crs[i].findings;
            let ghost before = findings_of(crs@.take(i as int));
            let ghost after = findings_of(crs@.take(i + 1));
            assert(after == before + fs@);
            let mut j: usize = 0;
            while j < fs.len()
                invariant
                    j <= fs.len(),
                    i < crs.len(),
                    crs == &self.concept_results,
                    fs == &crs@[i as int].findings,
                    before == findings_of(crs@.take(i as int)),
                    after == findings_of(crs@.take(i + 1)),
                    after == before + fs@,
                    forall|k: int| 0 <= k < before.len() ==> #[trigger] before[k].severity.rank() < min_severity.rank(),
                    forall|k: int| 0 <= k < j ==> #[trigger] fs@[k].severity.rank() < min_severity.rank(),
                decreases fs.len() - j,
            {
                if fs[j].severity.at_least(&min_severity) {
                    proof {
                        lemma_findings_of_full(crs@, i as int);
                        assert(after[before.len() + j] == fs@[j as int]);
                        lemma_findings_prefix_embeds(crs@, i + 1, before.len() + j);
                        let k = before.len() + j;
                        assert(self.all_findings()[k] == fs@[j as int]);
                        assert(self.all_findings()[k].severity.rank() >= min_severity.rank());
                    }
                    return true;
                }
                j = j + 1;
            }
            proof {
                assert forall|k: int| 0 <= k < after.len() implies #[trigger] after[k].severity.rank()
                    < min_severity.rank() by {
                    if k >= before.len() {
                        assert(after[k] == fs@[k - before.len()]);
                    } else {
                        assert(after[k] == before[k]);
                    }
                }
            }
            i = i + 1;
        }
        assert(crs@.take(crs.len() as int) == crs@);
        false
    }
}

proof fn lemma_findings_prefix_len(crs: Seq<ConceptResult>, i: int)
    requires
        0 <= i <= crs.len(),
    ensures
        findings_of(crs.take(i)).len() <= findings_of(crs).len(),
    decreases crs.len() - i,
{
    if i < crs.len() {
        lemma_findings_prefix_len(crs, i + 1);
        assert(crs.take(i + 1).drop_last() == crs.take(i));
    } else {
        assert(crs.take(i) == crs);
    }
}

proof fn lemma_findings_of_full(crs: Seq<ConceptResult>, i: int)
    requires
        0 <= i < crs.len(),
    ensures
        findings_of(crs.take(i + 1)) == findings_of(crs.take(i)) + crs[i].findings@,
{
    assert(crs.take(i + 1).drop_last() == crs.take(i));
}

/// The findings of a prefix of the concept results start the findings of all.
proof fn lemma_findings_prefix_embeds(crs: Seq<ConceptResult>, i: int, k: int)
    requires
        0 <= i <= crs.len(),
        0 <= k < findings_of(crs.take(i)).len(),
    ensures
        k < findings_of(crs).len(),
        findings_of(crs)[k] == findings_of(crs.take(i))[k],
    decreases crs.len() - i,
{
    if i < crs.len() {
        assert(crs.take(i + 1).drop_last() == crs.take(i));
        let a = findings_of(crs.take(i));
        let b = findings_of(crs.take(i + 1));
        assert(b == a + crs.take(i + 1).last().findings@);
        assert(b[k] == a[k]);
        lemma_findings_prefix_embeds(crs, i + 1, k);
    } else {
        assert(crs.take(i) == crs);
    }
}

} // verus!
