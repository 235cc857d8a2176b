//! Quick fixes that the language server offers for the proposals of a fix
//! plan.
use vstd::prelude::*;
use vstd::string::*;
use crate::fix::{FixPlan, FixProposal};
use crate::lsp::text_document::{Position, Range};
use crate::pathing::{path_eq, path_same};
use crate::text::{contains_s, find_sub, from_chars, lines_of, lines_s, occurs_at, push_chars, push_str, slice_chars, to_chars, vv};

verus! {

/// A quick fix: its title and the one edit it makes (the whole line of the
/// proposal, replaced by `new_text`, the line with the proposed value in
/// place of the current one).
#[derive(Debug, Clone)]
pub struct CodeAction {
    pub title: String,
    pub edit_range: Range,
    pub new_text: String,
}

/// The zero-based line of a one-based proposal line.
pub open spec fn proposal_line_s(line: usize) -> u32 {
    #[verifier::truncate] ((if line > 0 { line - 1 } else { 0 }) as u32)
}

/// The title of the quick fix of a proposal.
pub open spec fn action_title_s(p: FixProposal) -> Seq<char> {
    "Fix "@ + p.concept.display_name@ + ": change '"@ + p.current_raw@ + "' to '"@ + p.proposed_raw@ + "'"@
}

/// The first position at which `p` occurs in `s`.
pub open spec fn first_occurrence_s(s: Seq<char>, p: Seq<char>) -> int {
    choose|i: int| occurs_at(s, p, i) && forall|j: int| 0 <= j < i ==> !occurs_at(s, p, j)
}

/// The line with the first occurrence of `current` replaced by `proposed`.
pub open spec fn replaced_line_s(line: Seq<char>, current: Seq<char>, proposed: Seq<char>) -> Seq<char> {
    let k = first_occurrence_s(line, current);
    line.take(k) + proposed + line.skip(k + current.len())
}

/// The text of the document line of a proposal.
pub open spec fn proposal_text_line(p: FixProposal, document: Seq<char>) -> Seq<char> {
    lines_s(document)[proposal_line_s(p.line) as int]
}

/// The proposal is for the file, its line lies in the range, and that line
/// of the document holds the current value.
pub open spec fn offered(p: FixProposal, file: Seq<char>, document: Seq<char>, range: Range) -> bool {
    &&& path_eq(p.file@, file)
    &&& range.start.line <= proposal_line_s(p.line) <= range.end.line
    &&& proposal_line_s(p.line) < lines_s(document).len()
    &&& contains_s(proposal_text_line(p, document), p.current_raw@)
}

/// The proposals offered, in order.
pub open spec fn offered_s(ps: Seq<FixProposal>, file: Seq<char>, document: Seq<char>, range: Range) -> Seq<FixProposal>
    decreases ps.len(),
{
    if ps.len() == 0 {
        Seq::empty()
    } else {
        let rest = offered_s(ps.drop_last(), file, document, range);
        if offered(ps.last(), file, document, range) {
            rest.push(ps.last())
        } else {
            rest
        }
    }
}

/// The quick fix of a proposal: it replaces the proposal's line by the same
/// line with the proposed value in place of the current one.
pub open spec fn action_of(a: CodeAction, p: FixProposal, document: Seq<char>) -> bool {
    let l = proposal_line_s(p.line);
    &&& a.title@ == action_title_s(p)
    &&& a.edit_range == (Range { start: Position { line: l, character: 0 }, end: Position { line: l, character: u32::MAX } })
    &&& a.new_text@ == replaced_line_s(proposal_text_line(p, document), p.current_raw@, p.proposed_raw@)
}

fn action_for(p: &FixProposal, line: &[char]) -> (r: Option<CodeAction>)
    ensures
        contains_s(line@, p.current_raw@) ==> (r matches Some(a) && a.title@ == action_title_s(*p)
            && a.edit_range == (Range {
            start: Position { line: proposal_line_s(p.line), character: 0 },
            end: Position { line: proposal_line_s(p.line), character: u32::MAX },
        }) && a.new_text@ == replaced_line_s(line@, p.current_raw@, p.proposed_raw@)),
        !contains_s(line@, p.current_raw@) ==> r is None,
{
    let cur = to_chars(p.current_raw.as_str());
    let k = match find_sub(line, cur.as_slice()) {
        Some(k) => k,
        None => return None,
    };
    proof {
        let c = first_occurrence_s(line@, cur@);
        assert(occurs_at(line@, cur@, k as int));
        assert(occurs_at(line@, cur@, c) && forall|j: int| 0 <= j < c ==> !occurs_at(line@, cur@, j));
        if c < k {
            assert(!occurs_at(line@, cur@, c));
        }
        if c > k {
            assert(!occurs_at(line@, cur@, k as int));
        }
        assert(c == k);
    }
    let l: u32 = if p.line > 0 {
        #[verifier::truncate] ((p.line - 1) as u32)
    } else {
        0
    };
    let mut title = String::from_str("Fix ");
    push_str(&mut title, p.concept.display_name.as_str());
    push_str(&mut title, ": change '");
    push_str(&mut title, p.current_raw.as_str());
    push_str(&mut title, "' to '");
    push_str(&mut title, p.proposed_raw.as_str());
    push_str(&mut title, "'");
    let n: usize = cur.len();
    assert(k + n <= line@.len());
    assert(line@.len() == line.len());
    let end: usize = k + n;
    let head = slice_chars(line, 0, k);
    let tail = slice_chars(line, end, line.len());
    let mut new_text = from_chars(head.as_slice());
    push_str(&mut new_text, p.proposed_raw.as_str());
    push_chars(&mut new_text, tail.as_slice());
    Some(CodeAction {
        title,
        edit_range: Range { start: Position { line: l, character: 0 }, end: Position { line: l, character: u32::MAX } },
        new_text,
    })
}

/// Generate code actions (quick fixes) from the fix plan for a file, its
/// current text and a range: one per proposal for the file whose line lies
/// in the range and holds the proposal's current value, in order, each
/// replacing that value on the line by the proposed one.
pub fn proposals_to_code_actions(plan: &FixPlan, file_path: &str, document: &str, range: &Range) -> (r: Vec<CodeAction>)
    ensures
        r@.len() == offered_s(plan.proposals@, file_path@, document@, *range).len(),
        forall|k: int|
            0 <= k < r@.len() ==> action_of(
                #[trigger] r@[k],
                offered_s(plan.proposals@, file_path@, document@, *range)[k],
                document@,
            ),
{
    let ps = &plan.proposals;
    let doc_lines = lines_of(document);
    let ghost dl = lines_s(document@);
    let mut out: Vec<CodeAction> = Vec::new();
    let mut i: usize = 0;
    while i < ps.len()
        invariant
            i <= ps.len(),
            ps == &plan.proposals,
            vv(doc_lines@) == dl,
            dl == lines_s(document@),
            out@.len() == offered_s(ps@.take(i as int), file_path@, document@, *range).len(),
            forall|k: int|
                0 <= k < out@.len() ==> action_of(
                    #[trigger] out@[k],
                    offered_s(ps@.take(i as int), file_path@, document@, *range)[k],
                    document@,
                ),
        decreases ps.len() - i,
    {
        proof {
            assert(ps@.take(i + 1).drop_last() == ps@.take(i as int));
            assert(ps@.take(i + 1).last() == ps@[i as int]);
        }
        let p = &ps[i];
        let l: u32 = if p.line > 0 {
            #[verifier::truncate] ((p.line - 1) as u32)
        } else {
            0
        };
        if path_same(p.file.as_str(), file_path) && range.start.line <= l && l <= range.end.line
            && (l as usize) < doc_lines.len() {
            let line = &doc_lines[l as usize];
            assert(line@ == dl[l as int]);
            let ghost prev = out@;
            match action_for(p, line.as_slice()) {
                Some(a) => {
                    out.push(a);
                    proof {
                        assert forall|k: int| 0 <= k < out@.len() implies action_of(
                            #[trigger] out@[k],
                            offered_s(ps@.take(i + 1), file_path@, document@, *range)[k],
                            document@,
                        ) by {
                            if k < prev.len() {
                                assert(out@[k] == prev[k]);
                            }
                        }
                    }
                },
                None => {},
            }
        }
        i = i + 1;
    }
    assert(ps@.take(ps.len() as int) == ps@);
    out
}

} // verus!
