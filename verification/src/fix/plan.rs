//! Planning fixes: for each contradicted concept, the highest-authority
//! assertion wins and every other assertion whose value differs from it is
//! proposed for an edit, or reported as not fixable.
use vstd::prelude::*;
use vstd::string::*;
use super::{count_expose, expose_count, is_expose, is_expose_token, same_line_key};
use super::{FileFormat, FixPlan, FixProposal, UnfixableItem};
use super::operation::{build_fix_operation, fix_operation_s, operation_view, FixOperationView};
use super::planner::{winner_values_equivalent, winner_values_equivalent_s};
use crate::model::{ConceptCategory, ConceptResult, ConfigAssertion, ScanResult, SemanticConcept, SemanticType};
use crate::pathing::path_same;
use crate::text::{decimal_s, push_decimal, push_str, str_eq};

verus! {

/// A fix proposal, its texts taken as character sequences.
pub struct ProposalView {
    pub file: Seq<char>,
    pub concept: SemanticConcept,
    pub current_raw: Seq<char>,
    pub proposed_raw: Seq<char>,
    pub key_path: Seq<char>,
    pub line: usize,
    pub authority_winner: Seq<char>,
    pub winner_file: Seq<char>,
    pub format: FileFormat,
    pub operation: FixOperationView,
}

/// An item that cannot be fixed, its reason taken as a character sequence.
pub struct UnfixableView {
    pub concept: SemanticConcept,
    pub reason: Seq<char>,
}

pub open spec fn proposal_view(p: FixProposal) -> ProposalView {
    ProposalView {
        file: p.file@,
        concept: p.concept,
        current_raw: p.current_raw@,
        proposed_raw: p.proposed_raw@,
        key_path: p.key_path@,
        line: p.line,
        authority_winner: p.authority_winner@,
        winner_file: p.winner_file@,
        format: p.format,
        operation: operation_view(p.operation),
    }
}

pub open spec fn unfixable_view(u: UnfixableItem) -> UnfixableView {
    UnfixableView { concept: u.concept, reason: u.reason@ }
}

pub open spec fn proposals_view(ps: Seq<FixProposal>) -> Seq<ProposalView> {
    ps.map_values(|p: FixProposal| proposal_view(p))
}

pub open spec fn unfixables_view(us: Seq<UnfixableItem>) -> Seq<UnfixableView> {
    us.map_values(|u: UnfixableItem| unfixable_view(u))
}

/// The view of a plan: its proposals and its unfixable items, in order.
pub open spec fn plan_view(plan: FixPlan) -> (Seq<ProposalView>, Seq<UnfixableView>) {
    (proposals_view(plan.proposals@), unfixables_view(plan.unfixable@))
}

/// How an assertion ranks in the choice of the winner: by authority, and
/// among equal authorities a value outside a CI matrix before one inside.
pub open spec fn fix_rank(a: ConfigAssertion) -> int {
    2 * a.authority.rank() + if a.is_matrix {
        0int
    } else {
        1int
    }
}

/// The position of the winner: the last assertion of the highest rank.
pub open spec fn winner_index_s(xs: Seq<ConfigAssertion>) -> int
    decreases xs.len(),
{
    if xs.len() <= 1 {
        0
    } else {
        let b = winner_index_s(xs.drop_last());
        if fix_rank(xs.last()) >= fix_rank(xs[b]) {
            xs.len() - 1
        } else {
            b
        }
    }
}

/// Whether a value already agrees with the winner's: versions and ports as
/// the version and port solver found them (`solved`), booleans and strings
/// by equality; values of other or differing kinds never agree.
pub open spec fn values_equivalent_s(a: SemanticType, b: SemanticType, solved: bool) -> bool {
    match (a, b) {
        (SemanticType::Version(_), SemanticType::Version(_)) => solved,
        (SemanticType::Port(_), SemanticType::Port(_)) => solved,
        (SemanticType::Boolean(x), SemanticType::Boolean(y)) => x == y,
        (SemanticType::StringValue(x), SemanticType::StringValue(y)) => x@ == y@,
        _ => false,
    }
}

/// How many assertions have the authority `auth`.
pub open spec fn top_count_s(xs: Seq<ConfigAssertion>, auth: crate::model::Authority) -> nat
    decreases xs.len(),
{
    if xs.len() == 0 {
        0
    } else {
        top_count_s(xs.drop_last(), auth) + if xs.last().authority == auth {
            1nat
        } else {
            0nat
        }
    }
}

/// Every two assertions of authority `auth` have interchangeable values.
pub open spec fn top_agree_s(xs: Seq<ConfigAssertion>, auth: crate::model::Authority) -> bool {
    forall|p: int, q: int|
        0 <= p < q < xs.len() && xs[p].authority == auth && xs[q].authority == auth ==> winner_values_equivalent_s(
            #[trigger] xs[p].value,
            #[trigger] xs[q].value,
        )
}

/// The assertion at `i` differs from the winner at `w` and is a port token
/// of a Dockerfile `EXPOSE` line that holds several of them.
pub open spec fn ambiguous_expose_s(xs: Seq<ConfigAssertion>, w: int, compat: Seq<bool>, i: int) -> bool {
    &&& i != w
    &&& !values_equivalent_s(xs[i].value, xs[w].value, compat[i])
    &&& is_expose_token(xs[i])
    &&& expose_count(xs, xs[i].source.file@, xs[i].source.line) > 1
}

/// An earlier assertion already stood for the same ambiguous line.
pub open spec fn reported_before_s(xs: Seq<ConfigAssertion>, w: int, compat: Seq<bool>, i: int) -> bool {
    exists|j: int|
        0 <= j < i && #[trigger] ambiguous_expose_s(xs, w, compat, j) && same_line_key(
            (xs[j].source.file@, xs[j].source.line),
            (xs[i].source.file@, xs[i].source.line),
        )
}

pub open spec fn expose_reason_s(a: ConfigAssertion) -> Seq<char> {
    a.source.file@ + ":"@ + decimal_s(a.source.line as nat) + " ["@ + a.extractor_id@
        + "]: Dockerfile EXPOSE line contains multiple port tokens; manual update required"@
}

pub open spec fn failed_reason_s(a: ConfigAssertion, e: Seq<char>) -> Seq<char> {
    a.source.file@ + " ["@ + decimal_s(a.source.line as nat) + ":"@ + a.extractor_id@ + "]: "@ + e
}

pub open spec fn authority_winner_s(win: ConfigAssertion) -> Seq<char> {
    win.authority.label() + " ("@ + win.source.file@ + ")"@
}

pub open spec fn disagree_reason_s(auth: crate::model::Authority) -> Seq<char> {
    "Multiple "@ + auth.label() + " assertions disagree; manual resolution needed"@
}

/// What the assertion at `i` adds to the plan, the winner being at `w`.
pub open spec fn item_s(
    cr: ConceptResult,
    w: int,
    fmts: Seq<FileFormat>,
    compat: Seq<bool>,
    i: int,
) -> (Seq<ProposalView>, Seq<UnfixableView>) {
    let xs = cr.assertions@;
    let a = xs[i];
    let win = xs[w];
    if i == w || values_equivalent_s(a.value, win.value, compat[i]) {
        (seq![], seq![])
    } else if is_expose_token(a) && expose_count(xs, a.source.file@, a.source.line) > 1 {
        if reported_before_s(xs, w, compat, i) {
            (seq![], seq![])
        } else {
            (seq![], seq![UnfixableView { concept: cr.concept, reason: expose_reason_s(a) }])
        }
    } else {
        match fix_operation_s(win, a, fmts[i]) {
            Ok((v, op)) => (
                seq![
                    ProposalView {
                        file: a.source.file@,
                        concept: cr.concept,
                        current_raw: a.raw_value@,
                        proposed_raw: v,
                        key_path: a.source.key_path@,
                        line: a.source.line,
                        authority_winner: authority_winner_s(win),
                        winner_file: win.source.file@,
                        format: fmts[i],
                        operation: op,
                    },
                ],
                seq![],
            ),
            Err(e) => (seq![], seq![UnfixableView { concept: cr.concept, reason: failed_reason_s(a, e) }]),
        }
    }
}

/// What the first `n` assertions add to the plan.
pub open spec fn items_s(cr: ConceptResult, w: int, fmts: Seq<FileFormat>, compat: Seq<bool>, n: int) -> (
    Seq<ProposalView>,
    Seq<UnfixableView>,
)
    decreases n,
{
    if n <= 0 {
        (seq![], seq![])
    } else {
        let (p, u) = items_s(cr, w, fmts, compat, n - 1);
        let (p2, u2) = item_s(cr, w, fmts, compat, n - 1);
        (p + p2, u + u2)
    }
}

/// What a concept result adds to the plan: nothing unless it has findings
/// and two assertions; one unfixable item when the assertions of the
/// winner's authority disagree; else the item of each assertion in order.
pub open spec fn concept_plan_s(cr: ConceptResult, fmts: Seq<FileFormat>, compat: Seq<bool>) -> (
    Seq<ProposalView>,
    Seq<UnfixableView>,
) {
    let xs = cr.assertions@;
    if cr.findings@.len() == 0 || xs.len() < 2 {
        (seq![], seq![])
    } else {
        let w = winner_index_s(xs);
        let auth = xs[w].authority;
        if !top_agree_s(xs, auth) && top_count_s(xs, auth) > 1 {
            (seq![], seq![UnfixableView { concept: cr.concept, reason: disagree_reason_s(auth) }])
        } else {
            items_s(cr, w, fmts, compat, xs.len() as int)
        }
    }
}

/// The plan of the concept results, in order; `fmts` and `compats` hold,
/// per concept result and assertion, the file format of the assertion's
/// file and whether the solver found its value compatible with the
/// winner's.
pub open spec fn fix_plan_s(crs: Seq<ConceptResult>, fmts: Seq<Seq<FileFormat>>, compats: Seq<Seq<bool>>) -> (
    Seq<ProposalView>,
    Seq<UnfixableView>,
)
    decreases crs.len(),
{
    if crs.len() == 0 {
        (seq![], seq![])
    } else {
        let (p, u) = fix_plan_s(crs.drop_last(), fmts.drop_last(), compats.drop_last());
        let (p2, u2) = concept_plan_s(crs.last(), fmts.last(), compats.last());
        (p + p2, u + u2)
    }
}

proof fn lemma_winner_in_range(xs: Seq<ConfigAssertion>)
    requires
        xs.len() > 0,
    ensures
        0 <= winner_index_s(xs) < xs.len(),
    decreases xs.len(),
{
    if xs.len() > 1 {
        lemma_winner_in_range(xs.drop_last());
    }
}

fn fix_rank_exec(a: &ConfigAssertion) -> (r: u8)
    ensures
        r == fix_rank(*a),
{
    let m: u8 = if a.is_matrix {
        0
    } else {
        1
    };
    2 * a.authority.rank_u8() + m
}

fn winner_index(xs: &Vec<ConfigAssertion>) -> (w: usize)
    requires
        xs@.len() > 0,
    ensures
        w == winner_index_s(xs@),
        w < xs@.len(),
{
    let mut best: usize = 0;
    let mut i: usize = 1;
    while i < xs.len()
        invariant
            1 <= i <= xs@.len(),
            best < i,
            best == winner_index_s(xs@.take(i as int)),
        decreases xs@.len() - i,
    {
        proof {
            assert(xs@.take(i + 1).drop_last() == xs@.take(i as int));
            assert(xs@.take(i + 1).last() == xs@[i as int]);
            assert(xs@.take(i + 1)[best as int] == xs@[best as int]);
        }
        if fix_rank_exec(&xs[i]) >= fix_rank_exec(&xs[best]) {
            best = i;
        }
        i = i + 1;
    }
    assert(xs@.take(xs@.len() as int) == xs@);
    best
}

/// The position of the assertion that wins a concept result's fixes (the
/// last of the highest authority, a value outside a CI matrix before one
/// inside), or `None` when it has no assertions.
pub fn fix_winner(cr: &ConceptResult) -> (r: Option<usize>)
    ensures
        cr.assertions@.len() == 0 ==> r is None,
        cr.assertions@.len() > 0 ==> r == Some(winner_index_s(cr.assertions@) as usize),
        r matches Some(w) ==> w < cr.assertions@.len(),
{
    if cr.assertions.len() == 0 {
        None
    } else {
        Some(winner_index(&cr.assertions))
    }
}

fn values_equivalent(a: &SemanticType, b: &SemanticType, solved: bool) -> (r: bool)
    ensures
        r == values_equivalent_s(*a, *b, solved),
{
    match (a, b) {
        (SemanticType::Version(_), SemanticType::Version(_)) => solved,
        (SemanticType::Port(_), SemanticType::Port(_)) => solved,
        (SemanticType::Boolean(x), SemanticType::Boolean(y)) => *x == *y,
        (SemanticType::StringValue(x), SemanticType::StringValue(y)) => str_eq(x.as_str(), y.as_str()),
        _ => false,
    }
}

fn top_count(xs: &Vec<ConfigAssertion>, auth: crate::model::Authority) -> (r: usize)
    ensures
        r == top_count_s(xs@, auth),
{
    let mut n: usize = 0;
    let mut i: usize = 0;
    while i < xs.len()
        invariant
            i <= xs@.len(),
            n <= i,
            n == top_count_s(xs@.take(i as int), auth),
        decreases xs@.len() - i,
    {
        proof {
            assert(xs@.take(i + 1).drop_last() == xs@.take(i as int));
            assert(xs@.take(i + 1).last() == xs@[i as int]);
        }
        if xs[i].authority == auth {
            n = n + 1;
        }
        i = i + 1;
    }
    assert(xs@.take(xs@.len() as int) == xs@);
    n
}

fn top_agree(xs: &Vec<ConfigAssertion>, auth: crate::model::Authority) -> (r: bool)
    ensures
        r == top_agree_s(xs@, auth),
{
    let mut p: usize = 0;
    while p < xs.len()
        invariant
            p <= xs@.len(),
            forall|a: int, b: int|
                0 <= a < p && a < b < xs@.len() && xs@[a].authority == auth && xs@[b].authority == auth
                    ==> winner_values_equivalent_s(#[trigger] xs@[a].value, #[trigger] xs@[b].value),
        decreases xs@.len() - p,
    {
        if xs[p].authority == auth {
            let mut q: usize = p + 1;
            while q < xs.len()
                invariant
                    p < xs@.len(),
                    p + 1 <= q <= xs@.len(),
                    xs@[p as int].authority == auth,
                    forall|a: int, b: int|
                        0 <= a < p && a < b < xs@.len() && xs@[a].authority == auth && xs@[b].authority == auth
                            ==> winner_values_equivalent_s(#[trigger] xs@[a].value, #[trigger] xs@[b].value),
                    forall|b: int|
                        p < b < q && xs@[b].authority == auth ==> winner_values_equivalent_s(
                            xs@[p as int].value,
                            #[trigger] xs@[b].value,
                        ),
                decreases xs@.len() - q,
            {
                if xs[q].authority == auth && !winner_values_equivalent(&xs[p].value, &xs[q].value) {
                    return false;
                }
                q = q + 1;
            }
        }
        p = p + 1;
    }
    true
}

fn copy_concept(c: &SemanticConcept) -> (r: SemanticConcept)
    ensures
        r == *c,
{
    let category = match &c.category {
        ConceptCategory::RuntimeVersion => ConceptCategory::RuntimeVersion,
        ConceptCategory::Port => ConceptCategory::Port,
        ConceptCategory::StrictMode => ConceptCategory::StrictMode,
        ConceptCategory::BuildTool => ConceptCategory::BuildTool,
        ConceptCategory::PackageManager => ConceptCategory::PackageManager,
        ConceptCategory::Custom(s) => ConceptCategory::Custom(s.clone()),
    };
    SemanticConcept { id: c.id.clone(), display_name: c.display_name.clone(), category }
}

fn ambiguous_expose(xs: &Vec<ConfigAssertion>, w: usize, compat: &Vec<bool>, i: usize) -> (r: bool)
    requires
        w < xs@.len(),
        i < xs@.len(),
        compat@.len() == xs@.len(),
    ensures
        r == ambiguous_expose_s(xs@, w as int, compat@, i as int),
{
    let a = &xs[i];
    i != w && !values_equivalent(&a.value, &xs[w].value, compat[i]) && is_expose(a) && count_expose(
        xs,
        a.source.file.as_str(),
        a.source.line,
    ) > 1
}

fn reported_before(xs: &Vec<ConfigAssertion>, w: usize, compat: &Vec<bool>, i: usize) -> (r: bool)
    requires
        w < xs@.len(),
        i < xs@.len(),
        compat@.len() == xs@.len(),
    ensures
        r == reported_before_s(xs@, w as int, compat@, i as int),
{
    let file = xs[i].source.file.as_str();
    let line = xs[i].source.line;
    let mut j: usize = 0;
    while j < i
        invariant
            j <= i < xs@.len(),
            w < xs@.len(),
            compat@.len() == xs@.len(),
            file@ == xs@[i as int].source.file@,
            line == xs@[i as int].source.line,
            forall|q: int|
                0 <= q < j ==> !(#[trigger] ambiguous_expose_s(xs@, w as int, compat@, q) && same_line_key(
                    (xs@[q].source.file@, xs@[q].source.line),
                    (xs@[i as int].source.file@, xs@[i as int].source.line),
                )),
        decreases i - j,
    {
        if ambiguous_expose(xs, w, compat, j) && path_same(xs[j].source.file.as_str(), file) && xs[j].source.line
            == line {
            assert(ambiguous_expose_s(xs@, w as int, compat@, j as int));
            return true;
        }
        j = j + 1;
    }
    false
}

proof fn lemma_views_push_proposal(ps: Seq<FixProposal>, p: FixProposal)
    ensures
        proposals_view(ps.push(p)) == proposals_view(ps) + seq![proposal_view(p)],
{
    assert(proposals_view(ps.push(p)) =~= proposals_view(ps) + seq![proposal_view(p)]);
}

proof fn lemma_views_push_unfixable(us: Seq<UnfixableItem>, u: UnfixableItem)
    ensures
        unfixables_view(us.push(u)) == unfixables_view(us) + seq![unfixable_view(u)],
{
    assert(unfixables_view(us.push(u)) =~= unfixables_view(us) + seq![unfixable_view(u)]);
}

fn push_unfixable(unfixable: &mut Vec<UnfixableItem>, concept: &SemanticConcept, reason: String)
    ensures
        unfixables_view(final(unfixable)@) == unfixables_view(old(unfixable)@) + seq![
            UnfixableView { concept: *concept, reason: reason@ },
        ],
{
    let ghost prev = unfixable@;
    let item = UnfixableItem { concept: copy_concept(concept), reason };
    unfixable.push(item);
    proof {
        lemma_views_push_unfixable(prev, item);
    }
}

/// Add to the plan what the assertion at `i` adds, the winner being at `w`.
fn plan_item(
    cr: &ConceptResult,
    w: usize,
    formats: &Vec<FileFormat>,
    compat: &Vec<bool>,
    i: usize,
    proposals: &mut Vec<FixProposal>,
    unfixable: &mut Vec<UnfixableItem>,
)
    requires
        w < cr.assertions@.len(),
        i < cr.assertions@.len(),
        formats@.len() == cr.assertions@.len(),
        compat@.len() == cr.assertions@.len(),
    ensures
        proposals_view(final(proposals)@) == proposals_view(old(proposals)@) + item_s(
            *cr,
            w as int,
            formats@,
            compat@,
            i as int,
        ).0,
        unfixables_view(final(unfixable)@) == unfixables_view(old(unfixable)@) + item_s(
            *cr,
            w as int,
            formats@,
            compat@,
            i as int,
        ).1,
{
    let xs = &cr.assertions;
    let a = &xs[i];
    let win = &xs[w];
    let ghost pv = proposals_view(proposals@);
    let ghost uv = unfixables_view(unfixable@);
    if i == w || values_equivalent(&a.value, &win.value, compat[i]) {
        assert(pv + seq![] == pv);
        assert(uv + seq![] == uv);
        return;
    }
    if is_expose(a) && count_expose(xs, a.source.file.as_str(), a.source.line) > 1 {
        if !reported_before(xs, w, compat, i) {
            let mut reason = String::new();
            push_str(&mut reason, a.source.file.as_str());
            push_str(&mut reason, ":");
            push_decimal(&mut reason, a.source.line as u64);
            push_str(&mut reason, " [");
            push_str(&mut reason, a.extractor_id.as_str());
            push_str(&mut reason, "]: Dockerfile EXPOSE line contains multiple port tokens; manual update required");
            assert(reason@ == expose_reason_s(*a));
            push_unfixable(unfixable, &cr.concept, reason);
        } else {
            assert(uv + seq![] == uv);
        }
        assert(pv + seq![] == pv);
        return;
    }
    match build_fix_operation(win, a, formats[i]) {
        Ok((proposed_raw, operation)) => {
            let mut authority_winner = win.authority.to_text();
            push_str(&mut authority_winner, " (");
            push_str(&mut authority_winner, win.source.file.as_str());
            push_str(&mut authority_winner, ")");
            let p = FixProposal {
                file: a.source.file.clone(),
                concept: copy_concept(&cr.concept),
                current_raw: a.raw_value.clone(),
                proposed_raw,
                key_path: a.source.key_path.clone(),
                line: a.source.line,
                authority_winner,
                winner_file: win.source.file.clone(),
                format: formats[i],
                operation,
            };
            let ghost prev = proposals@;
            proposals.push(p);
            proof {
                lemma_views_push_proposal(prev, p);
                assert(uv + seq![] == uv);
            }
        },
        Err(e) => {
            let mut reason = String::new();
            push_str(&mut reason, a.source.file.as_str());
            push_str(&mut reason, " [");
            push_decimal(&mut reason, a.source.line as u64);
            push_str(&mut reason, ":");
            push_str(&mut reason, a.extractor_id.as_str());
            push_str(&mut reason, "]: ");
            push_str(&mut reason, e.as_str());
            assert(reason@ == failed_reason_s(*a, e@));
            push_unfixable(unfixable, &cr.concept, reason);
            assert(pv + seq![] == pv);
        },
    }
}

/// Add to the plan what a concept result adds.
fn plan_concept(
    cr: &ConceptResult,
    formats: &Vec<FileFormat>,
    compat: &Vec<bool>,
    proposals: &mut Vec<FixProposal>,
    unfixable: &mut Vec<UnfixableItem>,
)
    requires
        formats@.len() == cr.assertions@.len(),
        compat@.len() == cr.assertions@.len(),
    ensures
        proposals_view(final(proposals)@) == proposals_view(old(proposals)@) + concept_plan_s(
            *cr,
            formats@,
            compat@,
        ).0,
        unfixables_view(final(unfixable)@) == unfixables_view(old(unfixable)@) + concept_plan_s(
            *cr,
            formats@,
            compat@,
        ).1,
{
    let ghost pv = proposals_view(proposals@);
    let ghost uv = unfixables_view(unfixable@);
    let xs = &cr.assertions;
    if cr.findings.len() == 0 || xs.len() < 2 {
        assert(pv + seq![] == pv);
        assert(uv + seq![] == uv);
        return;
    }
    let w = winner_index(xs);
    let auth = xs[w].authority;
    if !top_agree(xs, auth) && top_count(xs, auth) > 1 {
        let mut reason = String::from_str("Multiple ");
        proof {
            reveal_strlit("Multiple ");
        }
        let label = auth.to_text();
        push_str(&mut reason, label.as_str());
        push_str(&mut reason, " assertions disagree; manual resolution needed");
        assert(reason@ == disagree_reason_s(auth));
        push_unfixable(unfixable, &cr.concept, reason);
        assert(pv + seq![] == pv);
        return;
    }
    let mut i: usize = 0;
    while i < xs.len()
        invariant
            i <= xs@.len(),
            w < xs@.len(),
            xs == &cr.assertions,
            w == winner_index_s(xs@),
            formats@.len() == xs@.len(),
            compat@.len() == xs@.len(),
            proposals_view(proposals@) == pv + items_s(*cr, w as int, formats@, compat@, i as int).0,
            unfixables_view(unfixable@) == uv + items_s(*cr, w as int, formats@, compat@, i as int).1,
        decreases xs@.len() - i,
    {
        let ghost p0 = proposals_view(proposals@);
        let ghost u0 = unfixables_view(unfixable@);
        plan_item(cr, w, formats, compat, i, proposals, unfixable);
        proof {
            let prev = items_s(*cr, w as int, formats@, compat@, i as int);
            let it = item_s(*cr, w as int, formats@, compat@, i as int);
            assert(items_s(*cr, w as int, formats@, compat@, i + 1) == (prev.0 + it.0, prev.1 + it.1));
            assert(pv + (prev.0 + it.0) == (pv + prev.0) + it.0);
            assert(uv + (prev.1 + it.1) == (uv + prev.1) + it.1);
        }
        i = i + 1;
    }
}

/// The fix plan of a scan: for each concept result with findings and at
/// least two assertions, the highest-authority assertion wins (the last of
/// them, a value outside a CI matrix before one inside); when the
/// assertions of that authority disagree the concept is not fixable; else
/// every other assertion whose value differs from the winner's gets a
/// proposal, or an unfixable item that says why not. `formats` holds the
/// file format of each assertion's file, and `solver_compatible` whether
/// the version and port solver finds each assertion's value compatible
/// with its concept's winner, per concept result and assertion.
pub fn plan_fixes(result: &ScanResult, formats: &[Vec<FileFormat>], solver_compatible: &[Vec<bool>]) -> (plan: FixPlan)
    requires
        formats@.len() == result.concept_results@.len(),
        solver_compatible@.len() == result.concept_results@.len(),
        forall|c: int|
            0 <= c < result.concept_results@.len() ==> (#[trigger] formats@[c])@.len()
                == result.concept_results@[c].assertions@.len(),
        forall|c: int|
            0 <= c < result.concept_results@.len() ==> (#[trigger] solver_compatible@[c])@.len()
                == result.concept_results@[c].assertions@.len(),
    ensures
        plan_view(plan) == fix_plan_s(
            result.concept_results@,
            formats@.map_values(|v: Vec<FileFormat>| v@),
            solver_compatible@.map_values(|v: Vec<bool>| v@),
        ),
{
    let crs = &result.concept_results;
    let ghost fv = formats@.map_values(|v: Vec<FileFormat>| v@);
    let ghost cv = solver_compatible@.map_values(|v: Vec<bool>| v@);
    let mut proposals: Vec<FixProposal> = Vec::new();
    let mut unfixable: Vec<UnfixableItem> = Vec::new();
    let mut c: usize = 0;
    proof {
        assert(proposals_view(proposals@) =~= seq![]);
        assert(unfixables_view(unfixable@) =~= seq![]);
        assert(crs@.take(0) =~= seq![]);
    }
    while c < crs.len()
        invariant
            c <= crs@.len(),
            crs == &result.concept_results,
            formats@.len() == crs@.len(),
            solver_compatible@.len() == crs@.len(),
            fv == formats@.map_values(|v: Vec<FileFormat>| v@),
            cv == solver_compatible@.map_values(|v: Vec<bool>| v@),
            forall|k: int| 0 <= k < crs@.len() ==> (#[trigger] formats@[k])@.len() == crs@[k].assertions@.len(),
            forall|k: int|
                0 <= k < crs@.len() ==> (#[trigger] solver_compatible@[k])@.len() == crs@[k].assertions@.len(),
            (proposals_view(proposals@), unfixables_view(unfixable@)) == fix_plan_s(
                crs@.take(c as int),
                fv.take(c as int),
                cv.take(c as int),
            ),
        decreases crs@.len() - c,
    {
        let ghost prev = fix_plan_s(crs@.take(c as int), fv.take(c as int), cv.take(c as int));
        let ghost p0 = proposals_view(proposals@);
        let ghost u0 = unfixables_view(unfixable@);
        let cr = &crs[c];
        let f = &formats[c];
        let k = &solver_compatible[c];
        plan_concept(cr, f, k, &mut proposals, &mut unfixable);
        proof {
            assert(crs@.take(c + 1).drop_last() =~= crs@.take(c as int));
            assert(fv.take(c + 1).drop_last() =~= fv.take(c as int));
            assert(cv.take(c + 1).drop_last() =~= cv.take(c as int));
            assert(crs@.take(c + 1).last() == crs@[c as int]);
            assert(fv.take(c + 1).last() == fv[c as int]);
            assert(cv.take(c + 1).last() == cv[c as int]);
            assert(fv[c as int] == formats@[c as int]@);
            assert(cv[c as int] == solver_compatible@[c as int]@);
        }
        c = c + 1;
    }
    proof {
        assert(crs@.take(crs@.len() as int) =~= crs@);
        assert(fv.take(crs@.len() as int) =~= fv);
        assert(cv.take(crs@.len() as int) =~= cv);
    }
    FixPlan { proposals, unfixable }
}

} // verus!
