//! Which extracted value an editor position points at.
use vstd::prelude::*;
use crate::lsp::text_document::Position;
use crate::model::{ConceptResult, ConfigAssertion, ScanResult, SourceLocation, SourceSpan};
use crate::pathing::{path_eq, path_same};

verus! {

/// `n - 1`, or 0 for 0.
pub open spec fn minus_one(n: usize) -> int {
    if n > 0 {
        n - 1
    } else {
        0
    }
}

/// A zero-based position lies in a value: within its one-based span
/// (start inclusive, end column exclusive), or, without a span, anywhere
/// on its line.
pub open spec fn span_contains_s(span: Option<SourceSpan>, source_line: usize, p: Position) -> bool {
    let line = p.line as int;
    let character = p.character as int;
    match span {
        Some(s) => {
            &&& minus_one(s.line) <= line <= minus_one(s.end_line)
            &&& (line == minus_one(s.line) ==> character >= minus_one(s.column))
            &&& (line == minus_one(s.end_line) ==> character < minus_one(s.end_column))
        },
        None => line == minus_one(source_line),
    }
}

/// Check whether a cursor position falls within an assertion's span.
pub fn span_contains_position(span: Option<&SourceSpan>, source: &SourceLocation, position: &Position) -> (r: bool)
    ensures
        r == span_contains_s(
            match span {
                Some(s) => Some(*s),
                None => None,
            },
            source.line,
            *position,
        ),
{
    let line = position.line as usize;
    let character = position.character as usize;
    match span {
        Some(span) => {
            let start_line = span.line.saturating_sub(1);
            let start_col = span.column.saturating_sub(1);
            let end_line = span.end_line.saturating_sub(1);
            let end_col = span.end_column.saturating_sub(1);
            if line < start_line || line > end_line {
                return false;
            }
            if line == start_line && character < start_col {
                return false;
            }
            if line == end_line && character >= end_col {
                return false;
            }
            true
        },
        None => {
            let source_line = source.line.saturating_sub(1);
            line == source_line
        },
    }
}


/// An assertion of the file `file` lies under the position.
pub open spec fn at_position(a: ConfigAssertion, file: Seq<char>, p: Position) -> bool {
    path_eq(a.source.file@, file) && span_contains_s(a.span, a.source.line, p)
}

/// The assertions of all concept results, in order.
pub open spec fn assertions_of(crs: Seq<ConceptResult>) -> Seq<ConfigAssertion>
    decreases crs.len(),
{
    if crs.len() == 0 {
        Seq::empty()
    } else {
        assertions_of(crs.drop_last()) + crs.last().assertions@
    }
}

/// Some assertion of the concept result lies under the position.
pub open spec fn concept_at_position(cr: ConceptResult, file: Seq<char>, p: Position) -> bool {
    exists|k: int| 0 <= k < cr.assertions@.len() && at_position(#[trigger] cr.assertions@[k], file, p)
}

fn span_of(a: &ConfigAssertion) -> (r: Option<&SourceSpan>)
    ensures
        match r {
            Some(s) => a.span == Some(*s),
            None => a.span is None,
        },
{
    match &a.span {
        Some(s) => Some(s),
        None => None,
    }
}

fn assertion_at(a: &ConfigAssertion, file_path: &str, position: &Position) -> (r: bool)
    ensures
        r == at_position(*a, file_path@, *position),
{
    path_same(a.source.file.as_str(), file_path) && span_contains_position(span_of(a), &a.source, position)
}

/// The first assertion of the file, over all concept results in order,
/// that lies under the cursor position.
pub fn find_assertion_at_position<'a>(
    scan_result: &'a ScanResult,
    file_path: &str,
    position: &Position,
) -> (r: Option<&'a ConfigAssertion>)
    ensures
        match r {
            Some(a) => exists|k: int|
                0 <= k < assertions_of(scan_result.concept_results@).len()
                    && #[trigger] assertions_of(scan_result.concept_results@)[k] == *a
                    && at_position(*a, file_path@, *position)
                    && forall|j: int| 0 <= j < k ==> !at_position(
                        #[trigger] assertions_of(scan_result.concept_results@)[j],
                        file_path@,
                        *position,
                    ),
            None => forall|k: int|
                0 <= k < assertions_of(scan_result.concept_results@).len() ==> !at_position(
                    #[trigger] assertions_of(scan_result.concept_results@)[k],
                    file_path@,
                    *position,
                ),
        },
{
    let crs = &scan_result.concept_results;
    let ghost all = assertions_of(crs@);
    let mut i: usize = 0;
    while i < crs.len()
        invariant
            i <= crs.len(),
            crs == &scan_result.concept_results,
            all == assertions_of(crs@),
            forall|k: int|
                0 <= k < assertions_of(crs@.take(i as int)).len() ==> !at_position(
                    #[trigger] assertions_of(crs@.take(i as int))[k],
                    file_path@,
                    *position,
                ),
        decreases crs.len() - i,
    {
        proof {
            assert(crs@.take(i + 1).drop_last() == crs@.take(i as int));
            assert(crs@.take(i + 1).last() == crs@[i as int]);
        }
        let xs = &crs[i].assertions;
        let ghost before = assertions_of(crs@.take(i as int));
        let mut j: usize = 0;
        while j < xs.len()
            invariant
                j <= xs.len(),
                i < crs.len(),
                crs == &scan_result.concept_results,
                all == assertions_of(crs@),
                xs == &crs@[i as int].assertions,
                before == assertions_of(crs@.take(i as int)),
                forall|k: int| 0 <= k < before.len() ==> !at_position(#[trigger] before[k], file_path@, *position),
                forall|k: int| 0 <= k < j ==> !at_position(#[trigger] xs@[k], file_path@, *position),
            decreases xs.len() - j,
        {
            if assertion_at(&xs[j], file_path, position) {
                proof {
                    let k = before.len() + j;
                    let after = assertions_of(crs@.take(i + 1));
                    assert(crs@.take(i + 1).drop_last() == crs@.take(i as int));
                    assert(crs@.take(i + 1).last() == crs@[i as int]);
                    assert(after == before + xs@);
                    lemma_assertions_prefix_embeds(crs@, i + 1, k);
                    assert(all[k] == xs@[j as int]);
                    assert forall|q: int| 0 <= q < k implies !at_position(#[trigger] all[q], file_path@, *position) by {
                        lemma_assertions_prefix_embeds(crs@, i + 1, q);
                        if q < before.len() {
                            assert(after[q] == before[q]);
                        } else {
                            assert(after[q] == xs@[q - before.len()]);
                        }
                    }
                }
                return Some(&xs[j]);
            }
            j = j + 1;
        }
        proof {
            let after = assertions_of(crs@.take(i + 1));
            assert(after == before + xs@);
            assert forall|k: int| 0 <= k < after.len() implies !at_position(#[trigger] after[k], file_path@, *position) by {
                if k < before.len() {
                    assert(after[k] == before[k]);
                } else {
                    assert(after[k] == xs@[k - before.len()]);
                }
            }
        }
        i = i + 1;
    }
    assert(crs@.take(crs.len() as int) == crs@);
    None
}

/// The first concept result with an assertion of the file under the cursor
/// position.
pub fn find_concept_at_position<'a>(
    scan_result: &'a ScanResult,
    file_path: &str,
    position: &Position,
) -> (r: Option<&'a ConceptResult>)
    ensures
        match r {
            Some(cr) => exists|i: int|
                0 <= i < scan_result.concept_results@.len() && #[trigger] scan_result.concept_results@[i] == *cr
                    && concept_at_position(*cr, file_path@, *position) && forall|j: int|
                    0 <= j < i ==> !concept_at_position(
                        #[trigger] scan_result.concept_results@[j],
                        file_path@,
                        *position,
                    ),
            None => forall|i: int|
                0 <= i < scan_result.concept_results@.len() ==> !concept_at_position(
                    #[trigger] scan_result.concept_results@[i],
                    file_path@,
                    *position,
                ),
        },
{
    let crs = &scan_result.concept_results;
    let mut i: usize = 0;
    while i < crs.len()
        invariant
            i <= crs.len(),
            crs == &scan_result.concept_results,
            forall|q: int| 0 <= q < i ==> !concept_at_position(#[trigger] crs@[q], file_path@, *position),
        decreases crs.len() - i,
    {
        let xs = &crs[i].assertions;
        let mut j: usize = 0;
        while j < xs.len()
            invariant
                j <= xs.len(),
                i < crs.len(),
                crs == &scan_result.concept_results,
                xs == &crs@[i as int].assertions,
                forall|q: int| 0 <= q < i ==> !concept_at_position(#[trigger] crs@[q], file_path@, *position),
                forall|k: int| 0 <= k < j ==> !at_position(#[trigger] xs@[k], file_path@, *position),
            decreases xs.len() - j,
        {
            if assertion_at(&xs[j], file_path, position) {
                assert(concept_at_position(crs@[i as int], file_path@, *position));
                assert(scan_result.concept_results@[i as int] == crs@[i as int]);
                return Some(&crs[i]);
            }
            j = j + 1;
        }
        proof {
            if concept_at_position(crs@[i as int], file_path@, *position) {
                let k = choose|k: int| 0 <= k < xs@.len() && at_position(#[trigger] xs@[k], file_path@, *position);
                assert(!at_position(xs@[k], file_path@, *position));
            }
        }
        i = i + 1;
    }
    None
}

/// The assertions of a prefix of the concept results start the assertions
/// of all of them.
proof fn lemma_assertions_prefix_embeds(crs: Seq<ConceptResult>, i: int, k: int)
    requires
        0 <= i <= crs.len(),
        0 <= k < assertions_of(crs.take(i)).len(),
    ensures
        k < assertions_of(crs).len(),
        assertions_of(crs)[k] == assertions_of(crs.take(i))[k],
    decreases crs.len() - i,
{
    if i < crs.len() {
        assert(crs.take(i + 1).drop_last() == crs.take(i));
        let a = assertions_of(crs.take(i));
        let b = assertions_of(crs.take(i + 1));
        assert(b == a + crs.take(i + 1).last().assertions@);
        assert(b[k] == a[k]);
        lemma_assertions_prefix_embeds(crs, i + 1, k);
    } else {
        assert(crs.take(i) == crs);
    }
}

} // verus!
