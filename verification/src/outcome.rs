//! The decisions of a command-line run after a scan: which concepts and
//! fixes to keep, whether to print the report, and the exit code.
use vstd::prelude::*;
use vstd::string::*;
use crate::config::{concept_matches_selector, selects_s};
use crate::fix::{FixPlan, FixProposal, UnfixableItem};
use crate::model::finding::{count_severity, ConceptResult, ScanResult};
use crate::model::Severity;
use crate::text::reversed_vec;

verus! {

/// Some selector picks the concept.
pub open spec fn selected_by_any(id: Seq<char>, selectors: Seq<String>) -> bool {
    exists|k: int| 0 <= k < selectors.len() && selects_s(id, #[trigger] selectors[k]@)
}

/// The concept results that some selector picks, in order.
pub open spec fn checked_results_s(crs: Seq<ConceptResult>, selectors: Seq<String>) -> Seq<ConceptResult>
    decreases crs.len(),
{
    if crs.len() == 0 {
        Seq::empty()
    } else {
        let rest = checked_results_s(crs.drop_last(), selectors);
        if selected_by_any(crs.last().concept.id@, selectors) {
            rest.push(crs.last())
        } else {
            rest
        }
    }
}

/// The proposals of concepts that the selector picks, in order.
pub open spec fn selected_proposals_s(ps: Seq<FixProposal>, selector: Seq<char>) -> Seq<FixProposal>
    decreases ps.len(),
{
    if ps.len() == 0 {
        Seq::empty()
    } else {
        let rest = selected_proposals_s(ps.drop_last(), selector);
        if selects_s(ps.last().concept.id@, selector) {
            rest.push(ps.last())
        } else {
            rest
        }
    }
}

/// The unfixable items of concepts that the selector picks, in order.
pub open spec fn selected_unfixable_s(us: Seq<UnfixableItem>, selector: Seq<char>) -> Seq<UnfixableItem>
    decreases us.len(),
{
    if us.len() == 0 {
        Seq::empty()
    } else {
        let rest = selected_unfixable_s(us.drop_last(), selector);
        if selects_s(us.last().concept.id@, selector) {
            rest.push(us.last())
        } else {
            rest
        }
    }
}

fn any_selects(id: &str, selectors: &[String]) -> (r: bool)
    ensures
        r == selected_by_any(id@, selectors@),
{
    let mut k: usize = 0;
    while k < selectors.len()
        invariant
            k <= selectors.len(),
            forall|j: int| 0 <= j < k ==> !selects_s(id@, #[trigger] selectors@[j]@),
        decreases selectors.len() - k,
    {
        if concept_matches_selector(id, selectors[k].as_str()) {
            return true;
        }
        k = k + 1;
    }
    false
}

/// Keep only the concept results that some of the checked concepts (ids
/// or short aliases) picks, in order; the diagnostics stay.
pub fn filter_scan_result_by_concepts(result: &mut ScanResult, checked_concepts: &[String])
    ensures
        final(result).parse_diagnostics == old(result).parse_diagnostics,
        final(result).concept_results@ == checked_results_s(old(result).concept_results@, checked_concepts@),
{
    let mut taken: Vec<ConceptResult> = Vec::new();
    std::mem::swap(&mut taken, &mut result.concept_results);
    let ghost orig = taken@;
    let ghost n = orig.len();
    let count: usize = taken.len();
    assert(n == count);
    let mut rest = reversed_vec(taken);
    let mut out: Vec<ConceptResult> = Vec::new();
    let mut i: usize = 0;
    while rest.len() > 0
        invariant
            n == orig.len(),
            n <= usize::MAX,
            i + rest@.len() == n,
            forall|k: int| 0 <= k < rest@.len() ==> #[trigger] rest@[k] == orig[n - 1 - k],
            out@ == checked_results_s(orig.take(i as int), checked_concepts@),
        decreases rest@.len(),
    {
        let cr = rest.pop().unwrap();
        assert(cr == orig[i as int]);
        proof {
            assert(orig.take(i + 1).drop_last() == orig.take(i as int));
            assert(orig.take(i + 1).last() == cr);
        }
        if any_selects(cr.concept.id.as_str(), checked_concepts) {
            out.push(cr);
        }
        i = i + 1;
    }
    assert(orig.take(n as int) == orig);
    result.concept_results = out;
}

fn keep_proposals(ps: Vec<FixProposal>, concept_id: &str) -> (r: Vec<FixProposal>)
    ensures
        r@ == selected_proposals_s(ps@, concept_id@),
{
    let ghost orig = ps@;
    let ghost n = orig.len();
    let count: usize = ps.len();
    assert(n == count);
    let mut rest = reversed_vec(ps);
    let mut out: Vec<FixProposal> = Vec::new();
    let mut i: usize = 0;
    while rest.len() > 0
        invariant
            n == orig.len(),
            n <= usize::MAX,
            i + rest@.len() == n,
            forall|k: int| 0 <= k < rest@.len() ==> #[trigger] rest@[k] == orig[n - 1 - k],
            out@ == selected_proposals_s(orig.take(i as int), concept_id@),
        decreases rest@.len(),
    {
        let p = rest.pop().unwrap();
        assert(p == orig[i as int]);
        proof {
            assert(orig.take(i + 1).drop_last() == orig.take(i as int));
            assert(orig.take(i + 1).last() == p);
        }
        if concept_matches_selector(p.concept.id.as_str(), concept_id) {
            out.push(p);
        }
        i = i + 1;
    }
    assert(orig.take(n as int) == orig);
    out
}

fn keep_unfixable(us: Vec<UnfixableItem>, concept_id: &str) -> (r: Vec<UnfixableItem>)
    ensures
        r@ == selected_unfixable_s(us@, concept_id@),
{
    let ghost orig = us@;
    let ghost n = orig.len();
    let count: usize = us.len();
    assert(n == count);
    let mut rest = reversed_vec(us);
    let mut out: Vec<UnfixableItem> = Vec::new();
    let mut i: usize = 0;
    while rest.len() > 0
        invariant
            n == orig.len(),
            n <= usize::MAX,
            i + rest@.len() == n,
            forall|k: int| 0 <= k < rest@.len() ==> #[trigger] rest@[k] == orig[n - 1 - k],
            out@ == selected_unfixable_s(orig.take(i as int), concept_id@),
        decreases rest@.len(),
    {
        let u = rest.pop().unwrap();
        assert(u == orig[i as int]);
        proof {
            assert(orig.take(i + 1).drop_last() == orig.take(i as int));
            assert(orig.take(i + 1).last() == u);
        }
        if concept_matches_selector(u.concept.id.as_str(), concept_id) {
            out.push(u);
        }
        i = i + 1;
    }
    assert(orig.take(n as int) == orig);
    out
}

/// Keep only the proposals and unfixable items of the concept that
/// `concept_id` (an id or a short alias) picks, in order.
pub fn filter_fix_plan_by_concept(plan: &mut FixPlan, concept_id: &str)
    ensures
        final(plan).proposals@ == selected_proposals_s(old(plan).proposals@, concept_id@),
        final(plan).unfixable@ == selected_unfixable_s(old(plan).unfixable@, concept_id@),
{
    let mut ps: Vec<FixProposal> = Vec::new();
    std::mem::swap(&mut ps, &mut plan.proposals);
    plan.proposals = keep_proposals(ps, concept_id);
    let mut us: Vec<UnfixableItem> = Vec::new();
    std::mem::swap(&mut us, &mut plan.unfixable);
    plan.unfixable = keep_unfixable(us, concept_id);
}

/// The exit code of a run: 1 with any error finding, else 2 with any
/// warning when warnings are reported (the minimum severity is at most
/// warning), else 0.
pub open spec fn exit_code_s(result: ScanResult, min_severity: Severity) -> u8 {
    if count_severity(result.all_findings(), Severity::Error) > 0 {
        1
    } else if count_severity(result.all_findings(), Severity::Warning) > 0 && min_severity.rank()
        <= Severity::Warning.rank() {
        2
    } else {
        0
    }
}

/// The exit code of a run over its scan result.
pub fn exit_code(result: &ScanResult, min_severity: Severity) -> (r: u8)
    requires
        result.all_findings().len() <= usize::MAX,
    ensures
        r == exit_code_s(*result, min_severity),
{
    if result.error_count() > 0 {
        1
    } else if result.warning_count() > 0 && Severity::Warning.at_least(&min_severity) {
        2
    } else {
        0
    }
}

/// Whether the report is printed: always unless quiet, and when quiet only
/// if some finding is at least as severe as the minimum severity.
pub fn should_print_report(quiet: bool, result: &ScanResult, min_severity: Severity) -> (r: bool)
    ensures
        r == (!quiet || exists|k: int|
            0 <= k < result.all_findings().len() && #[trigger] result.all_findings()[k].severity.rank()
                >= min_severity.rank()),
{
    !quiet || result.has_findings_at_or_above(min_severity)
}

} // verus!
