//! Rendering a fix plan, and applying single proposals to file content.
use vstd::prelude::*;
use vstd::string::*;
use super::{FileFormat, FixOperation, FixPlan, FixProposal, UnfixableItem};
use vstd::utf8::{decode_utf8, encode_utf8, is_char_boundary};
use crate::pathing::{components, path_components};
use crate::style::{bold, bold_s, cyan, dimmed, dimmed_s, fg_s, green, red, yellow};
use crate::text::{
    chars_eq, chars_lt, contains_chars, contains_s, decimal_s, find_char, find_s, find_sub, join_chars, join_s, lines_of, lines_s, lemma_seq_lt_total, occurs_at, push_char, push_decimal, push_str, seq_lt, slice_chars, str_eq, to_chars, trim_chars, trim_s, vv, from_chars,
};

pub mod apply;

verus! {

/// The version of this library, as reports print it.
pub const PKG_VERSION: &'static str = "0.1.0";

/// Result of applying fixes.
#[derive(Debug)]
pub struct ApplyResult {
    pub files_modified: Vec<String>,
    pub files_backed_up: Vec<String>,
    pub errors: Vec<(String, String)>,
}

// ---------------------------------------------------------------------
// The dry-run preview
// ---------------------------------------------------------------------

/// `x` inserted into the sorted sequence `s`, unless it is already there.
pub open spec fn insert_sorted(s: Seq<Seq<char>>, x: Seq<char>) -> Seq<Seq<char>>
    decreases s.len(),
{
    if s.len() == 0 {
        seq![x]
    } else if x == s[0] {
        s
    } else if seq_lt(x, s[0]) {
        seq![x] + s
    } else {
        seq![s[0]] + insert_sorted(s.drop_first(), x)
    }
}

/// The distinct concept names of the proposals, in ascending order.
pub open spec fn sorted_names(ps: Seq<FixProposal>) -> Seq<Seq<char>>
    decreases ps.len(),
{
    if ps.len() == 0 {
        Seq::empty()
    } else {
        insert_sorted(sorted_names(ps.drop_last()), ps.last().concept.display_name@)
    }
}

/// The proposals of the concept named `name`, in plan order.
pub open spec fn group_of(ps: Seq<FixProposal>, name: Seq<char>) -> Seq<FixProposal>
    decreases ps.len(),
{
    if ps.len() == 0 {
        Seq::empty()
    } else {
        let init = group_of(ps.drop_last(), name);
        if ps.last().concept.display_name@ == name {
            init.push(ps.last())
        } else {
            init
        }
    }
}

/// The path as the preview shows it: relative to `cwd` when `cwd`'s
/// components begin the path's components, the path text otherwise.
pub open spec fn display_path_s(file: Seq<char>, cwd: Option<Seq<char>>) -> Seq<char> {
    match cwd {
        Some(c) => {
            let pc = path_components(file);
            let cc = path_components(c);
            if cc.len() <= pc.len() && pc.take(cc.len() as int) == cc {
                join_s(pc.skip(cc.len() as int), "/"@)
            } else {
                file
            }
        },
        None => file,
    }
}

pub open spec fn key_info_s(key_path: Seq<char>) -> Seq<char> {
    if key_path.len() == 0 {
        Seq::empty()
    } else {
        " ("@ + key_path + ")"@
    }
}

/// The line locating a proposal: path, line number and key path.
pub open spec fn location_line_s(p: FixProposal, no_color: bool, cwd: Option<Seq<char>>) -> Seq<char> {
    let path = display_path_s(p.file@, cwd);
    let loc = if no_color {
        path
    } else {
        fg_s("36"@, path)
    };
    "  "@ + loc + ":"@ + decimal_s(p.line as nat) + key_info_s(p.key_path@) + "\n"@
}

/// A removed (`added` false, red) or added (green) line of a proposal.
pub open spec fn change_line_s(added: bool, raw: Seq<char>, no_color: bool) -> Seq<char> {
    let body = (if added {
        "+ "@
    } else {
        "- "@
    }) + raw;
    "  "@ + (if no_color {
        body
    } else {
        fg_s(
            if added {
                "32"@
            } else {
                "31"@
            },
            body,
        )
    }) + "\n"@
}

/// The lines that preview one proposal.
pub open spec fn proposal_text_s(p: FixProposal, no_color: bool, cwd: Option<Seq<char>>) -> Seq<char> {
    location_line_s(p, no_color, cwd) + change_line_s(false, p.current_raw@, no_color)
        + change_line_s(true, p.proposed_raw@, no_color) + "\n"@
}

pub open spec fn proposals_text_s(ps: Seq<FixProposal>, no_color: bool, cwd: Option<Seq<char>>) -> Seq<char>
    decreases ps.len(),
{
    if ps.len() == 0 {
        Seq::empty()
    } else {
        proposals_text_s(ps.drop_last(), no_color, cwd) + proposal_text_s(ps.last(), no_color, cwd)
    }
}

/// The line naming the authority winner of a concept's first proposal.
pub open spec fn winner_line_s(p: FixProposal, no_color: bool) -> Seq<char> {
    let w = p.authority_winner@;
    "  Authority winner: "@ + (if no_color {
        w
    } else {
        fg_s("32"@, w)
    }) + "\n\n"@
}

/// The body of a concept's section: the winner line, then the proposals.
pub open spec fn group_body_s(g: Seq<FixProposal>, no_color: bool, cwd: Option<Seq<char>>) -> Seq<char> {
    (if g.len() > 0 {
        winner_line_s(g[0], no_color)
    } else {
        Seq::empty()
    }) + proposals_text_s(g, no_color, cwd)
}

/// The section of one concept: its name, the authority winner of its first
/// proposal, and its proposals.
pub open spec fn group_text_s(
    ps: Seq<FixProposal>,
    no_color: bool,
    cwd: Option<Seq<char>>,
    name: Seq<char>,
) -> Seq<char> {
    (if no_color {
        name
    } else {
        bold_s(name)
    }) + "\n"@ + group_body_s(group_of(ps, name), no_color, cwd)
}

proof fn lemma_group_body_push(g: Seq<FixProposal>, p: FixProposal, no_color: bool, cwd: Option<Seq<char>>)
    ensures
        group_body_s(g.push(p), no_color, cwd) == group_body_s(g, no_color, cwd) + (if g.len() == 0 {
            winner_line_s(p, no_color)
        } else {
            Seq::empty()
        }) + proposal_text_s(p, no_color, cwd),
{
    assert(g.push(p).drop_last() =~= g);
    assert(g.push(p)[0] == (if g.len() == 0 { p } else { g[0] }));
    if g.len() == 0 {
        assert(proposals_text_s(g, no_color, cwd) =~= Seq::empty());
        assert(group_body_s(g.push(p), no_color, cwd) =~= group_body_s(g, no_color, cwd)
            + winner_line_s(p, no_color) + proposal_text_s(p, no_color, cwd));
    } else {
        assert(group_body_s(g.push(p), no_color, cwd) =~= group_body_s(g, no_color, cwd)
            + proposal_text_s(p, no_color, cwd));
    }
}

pub open spec fn groups_text_s(
    ps: Seq<FixProposal>,
    no_color: bool,
    cwd: Option<Seq<char>>,
    names: Seq<Seq<char>>,
) -> Seq<char>
    decreases names.len(),
{
    if names.len() == 0 {
        Seq::empty()
    } else {
        groups_text_s(ps, no_color, cwd, names.drop_last()) + group_text_s(
            ps,
            no_color,
            cwd,
            names.last(),
        )
    }
}

pub open spec fn unfixable_lines_s(items: Seq<UnfixableItem>) -> Seq<char>
    decreases items.len(),
{
    if items.len() == 0 {
        Seq::empty()
    } else {
        unfixable_lines_s(items.drop_last()) + "  "@ + items.last().concept.display_name@ + ": "@
            + items.last().reason@ + "\n"@
    }
}

/// `n` copies of `c`.
pub open spec fn repeat_s(c: char, n: nat) -> Seq<char>
    decreases n,
{
    if n == 0 {
        Seq::empty()
    } else {
        repeat_s(c, (n - 1) as nat).push(c)
    }
}

/// The section listing the contradictions that cannot be fixed, if any.
pub open spec fn unfixable_section_s(us: Seq<UnfixableItem>, no_color: bool) -> Seq<char> {
    if us.len() > 0 {
        let t = "Unfixable (manual resolution needed):"@;
        (if no_color {
            t
        } else {
            fg_s("33"@, t)
        }) + "\n"@ + unfixable_lines_s(us) + "\n"@
    } else {
        Seq::empty()
    }
}

/// The separator and the summary counts closing the preview.
pub open spec fn footer_s(fixes: nat, unfixable: nat, no_color: bool) -> Seq<char> {
    let sep = repeat_s('─', 50);
    (if no_color {
        sep
    } else {
        dimmed_s(sep)
    }) + "\n"@ + decimal_s(fixes) + " fix(es) proposed, "@ + decimal_s(unfixable)
        + " unfixable\n"@ + (if fixes > 0 {
        "Run `conflic fix` to apply.\n"@
    } else {
        Seq::empty()
    })
}

/// The text of the dry-run preview of a fix plan.
pub open spec fn dry_run_s(plan: FixPlan, no_color: bool, cwd: Option<Seq<char>>) -> Seq<char> {
    let ps = plan.proposals@;
    let us = plan.unfixable@;
    if ps.len() == 0 && us.len() == 0 {
        "No fixes needed — all assertions are consistent.\n"@
    } else {
        "conflic v"@ + PKG_VERSION@ + " — fix preview\n\n"@ + groups_text_s(
            ps,
            no_color,
            cwd,
            sorted_names(ps),
        ) + unfixable_section_s(us, no_color) + footer_s(ps.len(), us.len(), no_color)
    }
}

proof fn lemma_insert_sorted_at(s: Seq<Seq<char>>, x: Seq<char>, i: int)
    requires
        0 <= i <= s.len(),
        forall|j: int| 0 <= j < i ==> seq_lt(#[trigger] s[j], x),
        i == s.len() || !seq_lt(s[i], x),
    ensures
        insert_sorted(s, x) == (if i < s.len() && s[i] == x {
            s
        } else {
            s.insert(i, x)
        }),
    decreases i,
{
    if i == 0 {
        if s.len() > 0 {
            lemma_seq_lt_total(s[0], x);
            lemma_seq_lt_total(x, s[0]);
            if x != s[0] {
                assert(seq![x] + s =~= s.insert(0, x));
            }
        } else {
            assert(seq![x] =~= s.insert(0, x));
        }
    } else {
        lemma_seq_lt_total(s[0], x);
        let t = s.drop_first();
        assert forall|j: int| 0 <= j < i - 1 implies seq_lt(#[trigger] t[j], x) by {
            assert(t[j] == s[j + 1]);
        }
        if i < s.len() {
            assert(t[i - 1] == s[i]);
        }
        lemma_insert_sorted_at(t, x, i - 1);
        if i < s.len() && s[i] == x {
            assert(seq![s[0]] + t =~= s);
        } else {
            assert(seq![s[0]] + t.insert(i - 1, x) =~= s.insert(i, x));
        }
    }
}

/// Insert `x` into the ascending list `names` unless it is there.
pub(crate) fn insert_name(names: &mut Vec<Vec<char>>, x: Vec<char>)
    ensures
        vv(final(names)@) == insert_sorted(vv(old(names)@), x@),
{
    let ghost s = vv(names@);
    let mut i: usize = 0;
    while i < names.len() && chars_lt(names[i].as_slice(), x.as_slice())
        invariant
            i <= names.len(),
            s == vv(names@),
            forall|j: int| 0 <= j < i ==> seq_lt(#[trigger] s[j], x@),
        decreases names.len() - i,
    {
        i = i + 1;
    }
    proof {
        if i < names.len() {
            assert(s[i as int] == names@[i as int]@);
        }
        lemma_insert_sorted_at(s, x@, i as int);
    }
    if i < names.len() && chars_eq(names[i].as_slice(), x.as_slice()) {
        return;
    }
    names.insert(i, x);
    proof {
        assert(vv(names@) =~= s.insert(i as int, x@));
    }
}

/// The distinct concept names of the proposals, ascending.
fn proposal_names(ps: &[FixProposal]) -> (r: Vec<Vec<char>>)
    ensures
        vv(r@) == sorted_names(ps@),
{
    let mut names: Vec<Vec<char>> = Vec::new();
    let mut i: usize = 0;
    while i < ps.len()
        invariant
            i <= ps.len(),
            vv(names@) == sorted_names(ps@.take(i as int)),
        decreases ps.len() - i,
    {
        proof {
            assert(ps@.take(i + 1).drop_last() == ps@.take(i as int));
            assert(ps@.take(i + 1).last() == ps@[i as int]);
        }
        let x = to_chars(ps[i].concept.display_name.as_str());
        insert_name(&mut names, x);
        i = i + 1;
    }
    assert(ps@.take(ps.len() as int) == ps@);
    names
}

/// The path as the preview shows it.
fn display_path(file: &str, cwd: Option<&str>) -> (r: String)
    ensures
        r@ == display_path_s(
            file@,
            match cwd {
                Some(c) => Some(c@),
                None => None,
            },
        ),
{
    match cwd {
        None => String::from_str(file),
        Some(c) => {
            let fc = to_chars(file);
            let cc0 = to_chars(c);
            let pc = components(fc.as_slice());
            let cc = components(cc0.as_slice());
            let ghost pv = vv(pc@);
            let ghost cv = vv(cc@);
            if cc.len() > pc.len() {
                return String::from_str(file);
            }
            let mut i: usize = 0;
            while i < cc.len()
                invariant
                    i <= cc.len() <= pc.len(),
                    cwd == Some(c),
                    pv == path_components(file@),
                    cv == path_components(c@),
                    pv == vv(pc@),
                    cv == vv(cc@),
                    forall|j: int| 0 <= j < i ==> pv[j] == cv[j],
                decreases cc.len() - i,
            {
                if !chars_eq(pc[i].as_slice(), cc[i].as_slice()) {
                    proof {
                        assert(pv.take(cc.len() as int)[i as int] == pv[i as int]);
                        assert(pv.take(cc.len() as int) != cv);
                    }
                    return String::from_str(file);
                }
                i = i + 1;
            }
            assert(pv.take(cc.len() as int) =~= cv);
            let rest = slice_vecs(pc.as_slice(), cc.len());
            let sep = to_chars("/");
            let r = join_chars(rest.as_slice(), sep.as_slice());
            r
        },
    }
}

/// Copies of `v[from..]`.
fn slice_vecs(v: &[Vec<char>], from: usize) -> (r: Vec<Vec<char>>)
    requires
        from <= v.len(),
    ensures
        vv(r@) == vv(v@).skip(from as int),
{
    let mut out: Vec<Vec<char>> = Vec::new();
    let mut i = from;
    while i < v.len()
        invariant
            from <= i <= v.len(),
            vv(out@) == vv(v@).subrange(from as int, i as int),
        decreases v.len() - i,
    {
        let ghost o = vv(out@);
        let piece = slice_chars(v[i].as_slice(), 0, v[i].len());
        proof {
            assert(v@[i as int]@.subrange(0, v@[i as int]@.len() as int) == v@[i as int]@);
        }
        out.push(piece);
        proof {
            assert(vv(out@) =~= o.push(v@[i as int]@));
            assert(vv(v@).subrange(from as int, i + 1) =~= vv(v@).subrange(from as int, i as int).push(
                v@[i as int]@,
            ));
        }
        i = i + 1;
    }
    out
}

fn push_location_line(out: &mut String, p: &FixProposal, no_color: bool, cwd: Option<&str>)
    ensures
        final(out)@ == old(out)@ + location_line_s(
            *p,
            no_color,
            match cwd {
                Some(c) => Some(c@),
                None => None,
            },
        ),
{
    let path = display_path(p.file.as_str(), cwd);
    push_str(out, "  ");
    if no_color {
        push_str(out, path.as_str());
    } else {
        let c = cyan(path.as_str());
        push_str(out, c.as_str());
    }
    push_str(out, ":");
    push_decimal(out, p.line as u64);
    if !p.key_path.as_str().is_empty() {
        push_str(out, " (");
        push_str(out, p.key_path.as_str());
        push_str(out, ")");
    }
    push_str(out, "\n");
    proof {
        assert(final(out)@ =~= old(out)@ + location_line_s(
            *p,
            no_color,
            match cwd {
                Some(c) => Some(c@),
                None => None,
            },
        ));
    }
}

fn push_change_line(out: &mut String, added: bool, raw: &str, no_color: bool)
    ensures
        final(out)@ == old(out)@ + change_line_s(added, raw@, no_color),
{
    let mut body = if added {
        String::from_str("+ ")
    } else {
        String::from_str("- ")
    };
    push_str(&mut body, raw);
    push_str(out, "  ");
    if no_color {
        push_str(out, body.as_str());
    } else if added {
        let g = green(body.as_str());
        push_str(out, g.as_str());
    } else {
        let r = red(body.as_str());
        push_str(out, r.as_str());
    }
    push_str(out, "\n");
    proof {
        reveal_strlit("+ ");
        reveal_strlit("- ");
        assert(final(out)@ =~= old(out)@ + change_line_s(added, raw@, no_color));
    }
}

fn push_proposal(out: &mut String, p: &FixProposal, no_color: bool, cwd: Option<&str>)
    ensures
        final(out)@ == old(out)@ + proposal_text_s(
            *p,
            no_color,
            match cwd {
                Some(c) => Some(c@),
                None => None,
            },
        ),
{
    push_location_line(out, p, no_color, cwd);
    push_change_line(out, false, p.current_raw.as_str(), no_color);
    push_change_line(out, true, p.proposed_raw.as_str(), no_color);
    push_str(out, "\n");
    proof {
        assert(final(out)@ =~= old(out)@ + proposal_text_s(
            *p,
            no_color,
            match cwd {
                Some(c) => Some(c@),
                None => None,
            },
        ));
    }
}

/// A proposal of a concept's section, after the winner line when it is the
/// section's first.
fn push_member(out: &mut String, p: &FixProposal, first: bool, no_color: bool, cwd: Option<&str>)
    ensures
        final(out)@ == old(out)@ + (if first {
            winner_line_s(*p, no_color)
        } else {
            Seq::empty()
        }) + proposal_text_s(
            *p,
            no_color,
            match cwd {
                Some(c) => Some(c@),
                None => None,
            },
        ),
{
    let ghost start = out@;
    if first {
        push_str(out, "  Authority winner: ");
        if no_color {
            push_str(out, p.authority_winner.as_str());
        } else {
            let w = green(p.authority_winner.as_str());
            push_str(out, w.as_str());
        }
        push_str(out, "\n\n");
        assert(out@ =~= start + winner_line_s(*p, no_color));
    } else {
        assert(out@ =~= start + Seq::empty());
    }
    push_proposal(out, p, no_color, cwd);
}

#[verifier::spinoff_prover]
#[verifier::rlimit(40)]
fn push_group(out: &mut String, ps: &[FixProposal], no_color: bool, cwd: Option<&str>, name: &[char])
    ensures
        final(out)@ == old(out)@ + group_text_s(
            ps@,
            no_color,
            match cwd {
                Some(c) => Some(c@),
                None => None,
            },
            name@,
        ),
{
    let ghost cw = match cwd {
        Some(c) => Some(c@),
        None => None::<Seq<char>>,
    };
    let title = crate::text::from_chars(name);
    if no_color {
        push_str(out, title.as_str());
    } else {
        let b = bold(title.as_str());
        push_str(out, b.as_str());
    }
    push_str(out, "\n");
    let ghost after_title = out@;
    let mut first = true;
    let mut i: usize = 0;
    while i < ps.len()
        invariant
            i <= ps.len(),
            cw == (match cwd {
                Some(c) => Some(c@),
                None => None::<Seq<char>>,
            }),
            first == (group_of(ps@.take(i as int), name@).len() == 0),
            out@ == after_title + group_body_s(group_of(ps@.take(i as int), name@), no_color, cw),
        decreases ps.len() - i,
    {
        let p = &ps[i];
        let ghost g0 = group_of(ps@.take(i as int), name@);
        proof {
            assert(ps@.take(i + 1).drop_last() == ps@.take(i as int));
            assert(ps@.take(i + 1).last() == ps@[i as int]);
        }
        let pn = to_chars(p.concept.display_name.as_str());
        if chars_eq(pn.as_slice(), name) {
            let ghost before = out@;
            push_member(out, p, first, no_color, cwd);
            first = false;
            proof {
                lemma_group_body_push(g0, *p, no_color, cw);
                assert(group_of(ps@.take(i + 1), name@) == g0.push(*p));
                assert(out@ =~= after_title + group_body_s(g0.push(*p), no_color, cw));
            }
        } else {
            proof {
                assert(group_of(ps@.take(i + 1), name@) == g0);
            }
        }
        i = i + 1;
    }
    assert(ps@.take(ps.len() as int) == ps@);
}

proof fn lemma_group_prefix(ps: Seq<FixProposal>, name: Seq<char>)
    ensures
        group_of(ps, name).len() <= ps.len(),
    decreases ps.len(),
{
    if ps.len() > 0 {
        lemma_group_prefix(ps.drop_last(), name);
    }
}

#[verifier::spinoff_prover]
fn push_groups(out: &mut String, ps: &[FixProposal], no_color: bool, cwd: Option<&str>)
    ensures
        final(out)@ == old(out)@ + groups_text_s(
            ps@,
            no_color,
            match cwd {
                Some(c) => Some(c@),
                None => None,
            },
            sorted_names(ps@),
        ),
{
    let ghost cw = match cwd {
        Some(c) => Some(c@),
        None => None::<Seq<char>>,
    };
    let ghost start = out@;
    let names = proposal_names(ps);
    let ghost nv = vv(names@);
    let mut k: usize = 0;
    while k < names.len()
        invariant
            k <= names.len(),
            nv == vv(names@),
            nv == sorted_names(ps@),
            cw == (match cwd {
                Some(c) => Some(c@),
                None => None::<Seq<char>>,
            }),
            out@ == start + groups_text_s(ps@, no_color, cw, nv.take(k as int)),
        decreases names.len() - k,
    {
        proof {
            assert(nv.take(k + 1).drop_last() == nv.take(k as int));
            assert(nv.take(k + 1).last() == names@[k as int]@);
        }
        push_group(out, ps, no_color, cwd, names[k].as_slice());
        k = k + 1;
    }
    assert(nv.take(names.len() as int) == nv);
}

fn push_unfixable(out: &mut String, us: &[UnfixableItem], no_color: bool)
    ensures
        final(out)@ == old(out)@ + unfixable_section_s(us@, no_color),
{
    if us.len() == 0 {
        assert(old(out)@ + unfixable_section_s(us@, no_color) =~= old(out)@);
        return;
    }
    let ghost start = out@;
    if no_color {
        push_str(out, "Unfixable (manual resolution needed):");
    } else {
        let y = yellow("Unfixable (manual resolution needed):");
        push_str(out, y.as_str());
    }
    push_str(out, "\n");
    let ghost before_items = out@;
    let mut j: usize = 0;
    while j < us.len()
        invariant
            j <= us.len(),
            out@ == before_items + unfixable_lines_s(us@.take(j as int)),
        decreases us.len() - j,
    {
        let item = &us[j];
        proof {
            assert(us@.take(j + 1).drop_last() == us@.take(j as int));
            assert(us@.take(j + 1).last() == us@[j as int]);
        }
        push_str(out, "  ");
        push_str(out, item.concept.display_name.as_str());
        push_str(out, ": ");
        push_str(out, item.reason.as_str());
        push_str(out, "\n");
        j = j + 1;
    }
    assert(us@.take(us.len() as int) == us@);
    push_str(out, "\n");
    assert(out@ =~= start + unfixable_section_s(us@, no_color));
}

fn push_footer(out: &mut String, fixes: usize, unfixable: usize, no_color: bool)
    ensures
        final(out)@ == old(out)@ + footer_s(fixes as nat, unfixable as nat, no_color),
{
    let sep = repeat_char('─', 50);
    if no_color {
        push_str(out, sep.as_str());
    } else {
        let d = dimmed(sep.as_str());
        push_str(out, d.as_str());
    }
    push_str(out, "\n");
    push_decimal(out, fixes as u64);
    push_str(out, " fix(es) proposed, ");
    push_decimal(out, unfixable as u64);
    push_str(out, " unfixable\n");
    if fixes > 0 {
        push_str(out, "Run `conflic fix` to apply.\n");
    }
    assert(final(out)@ =~= old(out)@ + footer_s(fixes as nat, unfixable as nat, no_color));
}

/// Render a dry-run preview of the fix plan: proposals grouped by concept
/// name in ascending order, then the unfixable items and a summary. Paths
/// are shown relative to `cwd` when it is given and begins them.
pub fn render_dry_run(plan: &FixPlan, no_color: bool, cwd: Option<&str>) -> (r: String)
    ensures
        r@ == dry_run_s(
            *plan,
            no_color,
            match cwd {
                Some(c) => Some(c@),
                None => None,
            },
        ),
{
    let mut out = String::new();
    if plan.proposals.len() == 0 && plan.unfixable.len() == 0 {
        push_str(&mut out, "No fixes needed — all assertions are consistent.\n");
        return out;
    }
    push_str(&mut out, "conflic v");
    push_str(&mut out, PKG_VERSION);
    push_str(&mut out, " — fix preview\n\n");
    push_groups(&mut out, plan.proposals.as_slice(), no_color, cwd);
    push_unfixable(&mut out, plan.unfixable.as_slice(), no_color);
    push_footer(&mut out, plan.proposals.len(), plan.unfixable.len(), no_color);
    assert(out@ =~= dry_run_s(
        *plan,
        no_color,
        match cwd {
            Some(c) => Some(c@),
            None => None,
        },
    ));
    out
}

/// `n` copies of `c`.
pub(crate) fn repeat_char(c: char, n: usize) -> (r: String)
    ensures
        r@ == repeat_s(c, n as nat),
{
    let mut out = String::new();
    let mut i: usize = 0;
    while i < n
        invariant
            i <= n,
            out@ == repeat_s(c, i as nat),
        decreases n - i,
    {
        push_char(&mut out, c);
        i = i + 1;
    }
    out
}

// ---------------------------------------------------------------------
// Applying a proposal to file content
// ---------------------------------------------------------------------

/// The first position where `p` occurs in `s`, when it does.
pub open spec fn first_occurrence_s(s: Seq<char>, p: Seq<char>) -> Option<int> {
    if contains_s(s, p) {
        Some(choose|i: int| occurs_at(s, p, i) && forall|j: int| 0 <= j < i ==> !occurs_at(s, p, j))
    } else {
        None
    }
}

/// `s` with its first occurrence of `p` replaced by `rep` (`str::replacen(p, rep, 1)`).
pub open spec fn replace_first_s(s: Seq<char>, p: Seq<char>, rep: Seq<char>) -> Seq<char> {
    match first_occurrence_s(s, p) {
        Some(i) => s.take(i) + rep + s.skip(i + p.len()),
        None => s,
    }
}

/// Lines joined with `\n`, with a final `\n` when the original content had one.
pub open spec fn rejoin_s(content: Seq<char>, lines: Seq<Seq<char>>) -> Seq<char> {
    join_s(lines, "\n"@) + (if content.len() > 0 && content.last() == '\n' {
        "\n"@
    } else {
        Seq::empty()
    })
}

/// An `.env` line: a `KEY=...` whose trimmed key is `key` gets the new value.
pub open spec fn env_line_s(line: Seq<char>, key: Seq<char>, value: Seq<char>) -> Seq<char> {
    match find_s(line, '=') {
        Some(i) => if trim_s(line.take(i)) == key {
            line.take(i) + "="@ + value
        } else {
            line
        },
        None => line,
    }
}

pub open spec fn env_lines_s(lines: Seq<Seq<char>>, key: Seq<char>, value: Seq<char>) -> Seq<Seq<char>> {
    lines.map_values(|l: Seq<char>| env_line_s(l, key, value))
}

/// The `.env` content with the proposal's key set to the proposed value.
pub open spec fn env_fix_s(content: Seq<char>, p: FixProposal) -> Seq<char> {
    rejoin_s(content, env_lines_s(lines_s(content), p.key_path@, p.proposed_raw@))
}

/// A line of the content: on the proposal's line (1-based), the first
/// occurrence of the current value is replaced by the proposed one.
pub open spec fn target_line_s(line: Seq<char>, n: int, p: FixProposal) -> Seq<char> {
    if n + 1 == p.line && contains_s(line, p.current_raw@) {
        replace_first_s(line, p.current_raw@, p.proposed_raw@)
    } else {
        line
    }
}

pub open spec fn target_lines_s(lines: Seq<Seq<char>>, p: FixProposal) -> Seq<Seq<char>> {
    Seq::new(lines.len(), |n: int| target_line_s(lines[n], n, p))
}

/// The content with the value on the proposal's line replaced.
pub open spec fn line_fix_s(content: Seq<char>, p: FixProposal) -> Seq<char> {
    rejoin_s(content, target_lines_s(lines_s(content), p))
}

/// The content after one proposal, by the format of its file.
pub open spec fn single_fix_s(content: Seq<char>, p: FixProposal) -> Seq<char> {
    match p.format {
        FileFormat::PlainText => p.proposed_raw@ + "\n"@,
        FileFormat::Env => env_fix_s(content, p),
        _ => line_fix_s(content, p),
    }
}

fn replace_first(s: &[char], p: &[char], rep: &[char]) -> (r: Vec<char>)
    ensures
        r@ == replace_first_s(s@, p@, rep@),
{
    match find_sub(s, p) {
        Some(i) => {
            proof {
                let k = choose|k: int|
                    occurs_at(s@, p@, k) && forall|j: int| 0 <= j < k ==> !occurs_at(s@, p@, j);
                if k < i {
                    assert(!occurs_at(s@, p@, k));
                }
                if k > i {
                    assert(!occurs_at(s@, p@, i as int));
                }
            }
            let mut out = slice_chars(s, 0, i);
            let mut j: usize = 0;
            let ghost head = out@;
            while j < rep.len()
                invariant
                    j <= rep.len(),
                    out@ == head + rep@.take(j as int),
                decreases rep.len() - j,
            {
                out.push(rep[j]);
                j = j + 1;
                assert(out@ =~= head + rep@.take(j as int));
            }
            assert(rep@.take(rep.len() as int) == rep@);
            let ghost mid = out@;
            let mut k: usize = i + p.len();
            while k < s.len()
                invariant
                    i + p.len() <= k <= s.len(),
                    out@ == mid + s@.subrange(i + p.len(), k as int),
                decreases s.len() - k,
            {
                out.push(s[k]);
                k = k + 1;
                assert(out@ =~= mid + s@.subrange(i + p.len(), k as int));
            }
            assert(out@ =~= replace_first_s(s@, p@, rep@));
            out
        },
        None => slice_chars(s, 0, s.len()),
    }
}

fn rejoin(content: &str, lines: &[Vec<char>]) -> (r: String)
    ensures
        r@ == rejoin_s(content@, vv(lines@)),
{
    let mut out = join_chars(lines, to_chars("\n").as_slice());
    let cs = to_chars(content);
    if cs.len() > 0 && cs[cs.len() - 1] == '\n' {
        push_str(&mut out, "\n");
    }
    proof {
        reveal_strlit("\n");
        if cs@.len() > 0 {
            assert(cs@.last() == cs@[cs.len() - 1]);
        }
    }
    out
}

/// Fix an ENV file: find KEY=value and replace the value portion.
pub fn apply_env_fix(content: &str, proposal: &FixProposal) -> (r: String)
    ensures
        r@ == env_fix_s(content@, *proposal),
{
    let lines = lines_of(content);
    let ghost lv = vv(lines@);
    let key = to_chars(proposal.key_path.as_str());
    let value = to_chars(proposal.proposed_raw.as_str());
    let mut out: Vec<Vec<char>> = Vec::new();
    let mut i: usize = 0;
    while i < lines.len()
        invariant
            i <= lines.len(),
            lv == vv(lines@),
            key@ == proposal.key_path@,
            value@ == proposal.proposed_raw@,
            vv(out@) == env_lines_s(lv.take(i as int), key@, value@),
        decreases lines.len() - i,
    {
        let line = lines[i].as_slice();
        let ghost o = vv(out@);
        let new_line = match find_char(line, '=') {
            Some(k) => {
                let head = slice_chars(line, 0, k);
                let t = trim_chars(head.as_slice());
                if chars_eq(t.as_slice(), key.as_slice()) {
                    let mut nl = head;
                    nl.push('=');
                    let ghost h = nl@;
                    let mut j: usize = 0;
                    while j < value.len()
                        invariant
                            j <= value.len(),
                            nl@ == h + value@.take(j as int),
                        decreases value.len() - j,
                    {
                        nl.push(value[j]);
                        j = j + 1;
                        assert(nl@ =~= h + value@.take(j as int));
                    }
                    assert(value@.take(value.len() as int) == value@);
                    proof {
                        reveal_strlit("=");
                        assert(nl@ =~= line@.take(k as int) + "="@ + value@);
                    }
                    nl
                } else {
                    slice_chars(line, 0, line.len())
                }
            },
            None => slice_chars(line, 0, line.len()),
        };
        assert(new_line@ == env_line_s(lv[i as int], key@, value@)) by {
            assert(line@.subrange(0, line@.len() as int) == line@);
        }
        out.push(new_line);
        proof {
            assert(vv(out@) =~= o.push(env_line_s(lv[i as int], key@, value@)));
            assert(env_lines_s(lv.take(i + 1), key@, value@) =~= env_lines_s(lv.take(i as int), key@, value@).push(
                env_line_s(lv[i as int], key@, value@),
            ));
        }
        i = i + 1;
    }
    assert(lv.take(lines.len() as int) == lv);
    rejoin(content, out.as_slice())
}

fn fix_target_line(line: &[char], n: usize, p: &FixProposal, cur: &[char], new: &[char]) -> (r: Vec<char>)
    requires
        cur@ == p.current_raw@,
        new@ == p.proposed_raw@,
    ensures
        r@ == target_line_s(line@, n as int, *p),
{
    let hit = n < usize::MAX && n + 1 == p.line && contains_chars(line, cur);
    if hit {
        replace_first(line, cur, new)
    } else {
        let r = slice_chars(line, 0, line.len());
        assert(line@.subrange(0, line@.len() as int) == line@);
        r
    }
}

fn fix_lines(lines: &Vec<Vec<char>>, proposal: &FixProposal) -> (r: Vec<Vec<char>>)
    ensures
        vv(r@) == target_lines_s(vv(lines@), *proposal),
{
    let ghost lv = vv(lines@);
    let cur = to_chars(proposal.current_raw.as_str());
    let new = to_chars(proposal.proposed_raw.as_str());
    let mut out: Vec<Vec<char>> = Vec::new();
    let mut i: usize = 0;
    while i < lines.len()
        invariant
            i <= lines.len(),
            lv == vv(lines@),
            cur@ == proposal.current_raw@,
            new@ == proposal.proposed_raw@,
            vv(out@) == target_lines_s(lv.take(i as int), *proposal),
        decreases lines.len() - i,
    {
        let ghost o = vv(out@);
        let new_line = fix_target_line(lines[i].as_slice(), i, proposal, cur.as_slice(), new.as_slice());
        out.push(new_line);
        proof {
            let t = target_line_s(lv[i as int], i as int, *proposal);
            assert(vv(out@) =~= o.push(t));
            assert(target_lines_s(lv.take(i + 1), *proposal) =~= target_lines_s(lv.take(i as int), *proposal).push(t));
        }
        i = i + 1;
    }
    assert(lv.take(lines.len() as int) == lv);
    out
}

/// Line-based fix for JSON/YAML/TOML: find the current value on the target
/// line and replace it.
pub fn apply_line_based_fix(content: &str, proposal: &FixProposal) -> (r: String)
    ensures
        r@ == line_fix_s(content@, *proposal),
{
    let lines = lines_of(content);
    let out = fix_lines(&lines, proposal);
    rejoin(content, out.as_slice())
}

/// Fix a Dockerfile: replace the image tag on the `FROM` line, as the
/// line-based fix does.
pub fn apply_dockerfile_fix(content: &str, proposal: &FixProposal) -> (r: String)
    ensures
        r@ == line_fix_s(content@, *proposal),
{
    apply_line_based_fix(content, proposal)
}

/// Apply a single fix to file content, returning the modified content.
pub fn apply_single_fix(content: &str, proposal: &FixProposal) -> (r: String)
    ensures
        r@ == single_fix_s(content@, *proposal),
{
    match proposal.format {
        FileFormat::PlainText => {
            let mut out = proposal.proposed_raw.clone();
            push_str(&mut out, "\n");
            out
        },
        FileFormat::Env => apply_env_fix(content, proposal),
        FileFormat::Json | FileFormat::Yaml | FileFormat::Toml => apply_line_based_fix(content, proposal),
        FileFormat::Dockerfile => apply_dockerfile_fix(content, proposal),
    }
}

// ---------------------------------------------------------------------
// Whole-file values, byte ranges and target lines
// ---------------------------------------------------------------------

/// The new content of a file that holds only a value: the value, with the
/// old content's final newline kept.
pub open spec fn whole_file_value_s(content: Seq<char>, value: Seq<char>) -> Seq<char> {
    value + (if content.len() > 0 && content.last() == '\n' {
        "\n"@
    } else {
        Seq::empty()
    })
}

/// Replace the whole content of a single-value file.
pub fn replace_whole_file_value(content: &str, value: &str) -> (r: String)
    ensures
        r@ == whole_file_value_s(content@, value@),
{
    let mut out = String::from_str(value);
    let cs = to_chars(content);
    if cs.len() > 0 && cs[cs.len() - 1] == '\n' {
        push_str(&mut out, "\n");
    }
    proof {
        reveal_strlit("\n");
        if cs@.len() > 0 {
            assert(cs@.last() == cs@[cs.len() - 1]);
        }
    }
    out
}

/// Where in its file a proposal applies: the start of its byte range, or
/// its line.
pub fn proposal_start_offset(proposal: &FixProposal) -> (r: usize)
    ensures
        r == match proposal.operation {
            FixOperation::ReplaceTextRange { start, .. } => start,
            _ => proposal.line,
        },
{
    match &proposal.operation {
        FixOperation::ReplaceTextRange { start, .. } => *start,
        _ => proposal.line,
    }
}

/// The message for a byte range outside the content.
pub open spec fn range_error_s(start: nat, end: nat, len: nat) -> Seq<char> {
    "text replacement range "@ + decimal_s(start) + ".."@ + decimal_s(end)
        + " is out of bounds for content length "@ + decimal_s(len)
}

/// Replace the bytes `start..end` of the content with `value`; a range
/// that is reversed or runs past the end is refused.
pub fn apply_text_range_fix(content: &str, start: usize, end: usize, value: &str) -> (r: Result<String, String>)
    requires
        content.spec_bytes().len() <= usize::MAX,
        start <= end <= content.spec_bytes().len() ==> is_char_boundary(content.spec_bytes(), start as int)
            && is_char_boundary(content.spec_bytes(), end as int),
    ensures
        (start > end || end > content.spec_bytes().len()) ==> (r matches Err(m) && m@ == range_error_s(
            start as nat,
            end as nat,
            content.spec_bytes().len(),
        )),
        (start <= end <= content.spec_bytes().len()) ==> (r matches Ok(t) && t@ == decode_utf8(
            content.spec_bytes().take(start as int),
        ) + value@ + decode_utf8(content.spec_bytes().skip(end as int))),
{
    let n = content.len();
    if start > end || end > n {
        let mut m = String::from_str("text replacement range ");
        push_decimal(&mut m, start as u64);
        push_str(&mut m, "..");
        push_decimal(&mut m, end as u64);
        push_str(&mut m, " is out of bounds for content length ");
        push_decimal(&mut m, n as u64);
        return Err(m);
    }
    let (head, _) = content.split_at(start);
    let (_, tail) = content.split_at(end);
    proof {
        broadcast use vstd::utf8::encode_utf8_decode_utf8;
        assert(head.spec_bytes() == content.spec_bytes().take(start as int));
        assert(tail.spec_bytes() == content.spec_bytes().skip(end as int));
        assert(decode_utf8(encode_utf8(head@)) == head@);
        assert(decode_utf8(encode_utf8(tail@)) == tail@);
    }
    let mut out = String::from_str(head);
    push_str(&mut out, value);
    push_str(&mut out, tail);
    Ok(out)
}

/// A line break character.
pub open spec fn is_break(c: char) -> bool {
    c == '\r' || c == '\n'
}

/// The first line break at or after `i`.
pub open spec fn first_break_s(s: Seq<char>, i: int) -> Option<int>
    decreases s.len() - i,
{
    if i < 0 || i >= s.len() {
        None
    } else if is_break(s[i]) {
        Some(i)
    } else {
        first_break_s(s, i + 1)
    }
}

/// The length of the line break at `j`: `\r\n` counts as one break.
pub open spec fn break_len_s(s: Seq<char>, j: int) -> int {
    if s[j] == '\r' && j + 1 < s.len() && s[j + 1] == '\n' {
        2
    } else {
        1
    }
}

/// Where line `k` (1-based) of `s` starts, lines ending at `\n`, `\r` or
/// `\r\n`; `None` when `s` has fewer lines.
pub open spec fn line_start_s(s: Seq<char>, k: nat) -> Option<int>
    decreases k,
{
    if k <= 1 {
        Some(0)
    } else {
        match line_start_s(s, (k - 1) as nat) {
            None => None,
            Some(st) => match first_break_s(s, st) {
                None => None,
                Some(j) => Some(j + break_len_s(s, j)),
            },
        }
    }
}

/// Where the line starting at `st` ends (before its break).
pub open spec fn line_end_s(s: Seq<char>, st: int) -> int {
    match first_break_s(s, st) {
        Some(j) => j,
        None => s.len() as int,
    }
}

proof fn lemma_first_break_at(s: Seq<char>, i: int, j: int)
    requires
        0 <= i <= j <= s.len(),
        forall|k: int| i <= k < j ==> !is_break(#[trigger] s[k]),
    ensures
        first_break_s(s, i) == (if j < s.len() && is_break(s[j]) {
            Some(j)
        } else {
            first_break_s(s, j)
        }),
    decreases j - i,
{
    if i < j {
        lemma_first_break_at(s, i + 1, j);
    }
}

proof fn lemma_line_start_none(s: Seq<char>, k: nat, m: nat)
    requires
        1 <= k <= m,
        line_start_s(s, k) is None,
    ensures
        line_start_s(s, m) is None,
    decreases m - k,
{
    if k < m {
        lemma_line_start_none(s, k + 1, m);
    }
}

/// A line of the content: its bounds, in characters, and its text.
#[derive(Debug, Clone)]
pub struct LineInfo {
    pub start: usize,
    pub end: usize,
    pub text: String,
}

/// The message for a line that the content does not have.
pub open spec fn line_error_s(target_line: nat) -> Seq<char> {
    if target_line == 0 {
        "Target line 0 is out of range"@
    } else {
        "Target line "@ + decimal_s(target_line) + " is out of range"@
    }
}

/// Find line `target_line` (1-based) of the content, lines ending at `\n`,
/// `\r` or `\r\n`.
pub fn line_info(content: &str, target_line: usize) -> (r: Result<LineInfo, String>)
    ensures
        match (if target_line == 0 {
            None
        } else {
            line_start_s(content@, target_line as nat)
        }) {
            None => r matches Err(m) && m@ == line_error_s(target_line as nat),
            Some(st) => r matches Ok(info) && info.start == st && info.end == line_end_s(
                content@,
                st,
            ) && info.text@ == content@.subrange(st, info.end as int),
        },
{
    if target_line == 0 {
        return Err(String::from_str("Target line 0 is out of range"));
    }
    let s = to_chars(content);
    let mut line: usize = 1;
    let mut start: usize = 0;
    let mut index: usize = 0;
    while line < target_line && index < s.len()
        invariant
            1 <= line <= target_line,
            start <= index <= s.len(),
            s@ == content@,
            line_start_s(s@, line as nat) == Some(start as int),
            forall|k: int| start <= k < index ==> !is_break(#[trigger] s@[k]),
        decreases s.len() - index,
    {
        let c = s[index];
        if c == '\r' || c == '\n' {
            proof {
                lemma_first_break_at(s@, start as int, index as int);
            }
            line = line + 1;
            if c == '\r' && index + 1 < s.len() && s[index + 1] == '\n' {
                index = index + 2;
            } else {
                index = index + 1;
            }
            start = index;
        } else {
            index = index + 1;
        }
    }
    if line != target_line {
        proof {
            lemma_first_break_at(s@, start as int, index as int);
            assert(first_break_s(s@, index as int) is None);
            assert(line_start_s(s@, (line + 1) as nat) is None);
            lemma_line_start_none(s@, (line + 1) as nat, target_line as nat);
        }
        let mut m = String::from_str("Target line ");
        push_decimal(&mut m, target_line as u64);
        push_str(&mut m, " is out of range");
        return Err(m);
    }
    let mut end = start;
    while end < s.len() && s[end] != '\r' && s[end] != '\n'
        invariant
            start <= end <= s.len(),
            forall|k: int| start <= k < end ==> !is_break(#[trigger] s@[k]),
        decreases s.len() - end,
    {
        end = end + 1;
    }
    proof {
        lemma_first_break_at(s@, start as int, end as int);
        if end == s.len() {
            assert(first_break_s(s@, end as int) is None);
        }
    }
    let text = from_chars(slice_chars(s.as_slice(), start, end).as_slice());
    Ok(LineInfo { start, end, text })
}

// ---------------------------------------------------------------------
// Patching one file with its proposals
// ---------------------------------------------------------------------

/// `x` placed after every proposal whose line is not below its own, in a
/// sequence ordered by line, highest first.
pub open spec fn insert_by_line_desc(s: Seq<FixProposal>, x: FixProposal) -> Seq<FixProposal>
    decreases s.len(),
{
    if s.len() == 0 {
        seq![x]
    } else if s.last().line >= x.line {
        s.push(x)
    } else {
        insert_by_line_desc(s.drop_last(), x).push(s.last())
    }
}

/// The proposals ordered by line, highest first; equal lines keep their
/// order (a stable sort), so that a file is patched from bottom to top.
pub open spec fn sort_by_line_desc(ps: Seq<FixProposal>) -> Seq<FixProposal>
    decreases ps.len(),
{
    if ps.len() == 0 {
        Seq::empty()
    } else {
        insert_by_line_desc(sort_by_line_desc(ps.drop_last()), ps.last())
    }
}

/// The proposals for the file `file`, in plan order.
pub open spec fn for_file(ps: Seq<FixProposal>, file: Seq<char>) -> Seq<FixProposal>
    decreases ps.len(),
{
    if ps.len() == 0 {
        Seq::empty()
    } else if ps.last().file@ == file {
        for_file(ps.drop_last(), file).push(ps.last())
    } else {
        for_file(ps.drop_last(), file)
    }
}

/// The content after each proposal in turn.
pub open spec fn fold_fixes_s(content: Seq<char>, ps: Seq<FixProposal>) -> Seq<char>
    decreases ps.len(),
{
    if ps.len() == 0 {
        content
    } else {
        single_fix_s(fold_fixes_s(content, ps.drop_last()), ps.last())
    }
}

/// The new content of `file`: its proposals applied from the highest line down.
pub open spec fn patched_file_s(content: Seq<char>, ps: Seq<FixProposal>, file: Seq<char>) -> Seq<char> {
    fold_fixes_s(content, sort_by_line_desc(for_file(ps, file)))
}

/// The proposals at the positions `idx`.
pub open spec fn proposals_at(ps: Seq<FixProposal>, idx: Seq<usize>) -> Seq<FixProposal> {
    idx.map_values(|i: usize| ps[i as int])
}

proof fn lemma_insert_by_line_at(s: Seq<FixProposal>, x: FixProposal, p: int)
    requires
        0 <= p <= s.len(),
        forall|k: int| 0 <= k < p ==> (#[trigger] s[k]).line >= x.line,
        forall|k: int| p <= k < s.len() ==> (#[trigger] s[k]).line < x.line,
    ensures
        insert_by_line_desc(s, x) == s.insert(p, x),
    decreases s.len(),
{
    if s.len() == 0 {
        assert(seq![x] =~= s.insert(p, x));
    } else if p == s.len() {
        assert(s.push(x) =~= s.insert(p, x));
    } else {
        let t = s.drop_last();
        lemma_insert_by_line_at(t, x, p);
        assert(t.insert(p, x).push(s.last()) =~= s.insert(p, x));
    }
}

/// The positions of the file's proposals, ordered by line, highest first.
fn file_order(ps: &[FixProposal], file: &str) -> (r: Vec<usize>)
    ensures
        proposals_at(ps@, r@) == sort_by_line_desc(for_file(ps@, file@)),
        forall|j: int| 0 <= j < r@.len() ==> r@[j] < ps.len(),
{
    let mut order: Vec<usize> = Vec::new();
    let mut i: usize = 0;
    while i < ps.len()
        invariant
            i <= ps.len(),
            proposals_at(ps@, order@) == sort_by_line_desc(for_file(ps@.take(i as int), file@)),
            forall|j: int| 0 <= j < order@.len() ==> order@[j] < ps.len(),
            forall|j: int, k: int|
                0 <= j < k < order@.len() ==> ps@[order@[j] as int].line >= ps@[order@[k] as int].line,
        decreases ps.len() - i,
    {
        proof {
            assert(ps@.take(i + 1).drop_last() == ps@.take(i as int));
            assert(ps@.take(i + 1).last() == ps@[i as int]);
        }
        let same = str_eq(ps[i].file.as_str(), file);
        if !same {
            assert(for_file(ps@.take(i + 1), file@) == for_file(ps@.take(i as int), file@));
        } else {
            let ghost f = for_file(ps@.take(i as int), file@).push(ps@[i as int]);
            assert(for_file(ps@.take(i + 1), file@) == f);
            assert(f.drop_last() =~= for_file(ps@.take(i as int), file@));
            assert(f.last() == ps@[i as int]);
            assert(sort_by_line_desc(for_file(ps@.take(i + 1), file@)) == insert_by_line_desc(
                sort_by_line_desc(for_file(ps@.take(i as int), file@)),
                ps@[i as int],
            ));
        }
        if same {
            let ghost s = proposals_at(ps@, order@);
            let line = ps[i].line;
            let mut p: usize = order.len();
            while p > 0 && ps[order[p - 1]].line < line
                invariant
                    p <= order.len(),
                    i < ps.len(),
                    line == ps@[i as int].line,
                    s == proposals_at(ps@, order@),
                    forall|j: int| 0 <= j < order@.len() ==> order@[j] < ps.len(),
                    forall|k: int| p <= k < order@.len() ==> (#[trigger] s[k]).line < line,
                decreases p,
            {
                p = p - 1;
            }
            proof {
                assert forall|k: int| 0 <= k < p implies (#[trigger] s[k]).line >= line by {
                    if p > 0 {
                        assert(s[p - 1].line >= line);
                        assert(ps@[order@[k] as int].line >= ps@[order@[p - 1] as int].line);
                    }
                }
                lemma_insert_by_line_at(s, ps@[i as int], p as int);
            }
            order.insert(p, i);
            proof {
                assert(proposals_at(ps@, order@) =~= s.insert(p as int, ps@[i as int]));
                assert forall|j: int, k: int|
                    0 <= j < k < order@.len() implies ps@[order@[j] as int].line >= ps@[order@[k] as int].line by {
                    let t = proposals_at(ps@, order@);
                    assert(t[j] == ps@[order@[j] as int]);
                    assert(t[k] == ps@[order@[k] as int]);
                }
            }
        }
        i = i + 1;
    }
    assert(ps@.take(ps.len() as int) == ps@);
    order
}

/// Apply the proposals for `file` to its content, from the highest line down.
#[verifier::spinoff_prover]
#[verifier::rlimit(40)]
pub fn patch_file(content: &str, ps: &[FixProposal], file: &str) -> (r: String)
    ensures
        r@ == patched_file_s(content@, ps@, file@),
{
    let order = file_order(ps, file);
    let ghost sorted = proposals_at(ps@, order@);
    let mut out = String::from_str(content);
    let mut k: usize = 0;
    while k < order.len()
        invariant
            k <= order.len(),
            sorted == proposals_at(ps@, order@),
            forall|j: int| 0 <= j < order@.len() ==> order@[j] < ps.len(),
            out@ == fold_fixes_s(content@, sorted.take(k as int)),
        decreases order.len() - k,
    {
        proof {
            assert(sorted.take(k + 1).drop_last() == sorted.take(k as int));
            assert(sorted.take(k + 1).last() == ps@[order@[k as int] as int]);
        }
        out = apply_single_fix(out.as_str(), &ps[order[k]]);
        k = k + 1;
    }
    assert(sorted.take(order.len() as int) == sorted);
    out
}

/// The distinct files of the proposals, in order of first appearance.
pub open spec fn distinct_files_s(ps: Seq<FixProposal>) -> Seq<Seq<char>>
    decreases ps.len(),
{
    if ps.len() == 0 {
        Seq::empty()
    } else {
        let init = distinct_files_s(ps.drop_last());
        if init.contains(ps.last().file@) {
            init
        } else {
            init.push(ps.last().file@)
        }
    }
}

/// The files that the proposals edit, each once, in order of first appearance.
pub fn proposal_files(ps: &[FixProposal]) -> (r: Vec<String>)
    ensures
        r@.map_values(|f: String| f@) == distinct_files_s(ps@),
{
    let mut out: Vec<String> = Vec::new();
    let mut i: usize = 0;
    while i < ps.len()
        invariant
            i <= ps.len(),
            out@.map_values(|f: String| f@) == distinct_files_s(ps@.take(i as int)),
        decreases ps.len() - i,
    {
        let ghost fv = out@.map_values(|f: String| f@);
        proof {
            assert(ps@.take(i + 1).drop_last() == ps@.take(i as int));
            assert(ps@.take(i + 1).last() == ps@[i as int]);
        }
        let f = ps[i].file.as_str();
        let mut j: usize = 0;
        let mut seen = false;
        while j < out.len()
            invariant
                j <= out.len(),
                fv == out@.map_values(|f: String| f@),
                seen ==> fv.contains(f@),
                !seen ==> forall|k: int| 0 <= k < j ==> fv[k] != f@,
            decreases out.len() - j,
        {
            if str_eq(out[j].as_str(), f) {
                assert(fv[j as int] == f@);
                seen = true;
            }
            j = j + 1;
        }
        if !seen {
            proof {
                if fv.contains(f@) {
                    let k = choose|k: int| 0 <= k < fv.len() && fv[k] == f@;
                    assert(fv[k] != f@);
                }
            }
            out.push(ps[i].file.clone());
            assert(out@.map_values(|f: String| f@) =~= fv.push(f@));
        }
        i = i + 1;
    }
    assert(ps@.take(ps.len() as int) == ps@);
    out
}

// ---------------------------------------------------------------------
// Laws of patching
// ---------------------------------------------------------------------

/// Replacing a byte range of the content with the text it holds gives the
/// content back (what `apply_text_range_fix` makes of its own range).
pub proof fn law_range_replaced_by_its_text(content: Seq<char>, start: int, end: int)
    requires
        0 <= start <= end <= encode_utf8(content).len(),
        is_char_boundary(encode_utf8(content), start),
        is_char_boundary(encode_utf8(content), end),
    ensures
        decode_utf8(encode_utf8(content).take(start)) + decode_utf8(
            encode_utf8(content).subrange(start, end),
        ) + decode_utf8(encode_utf8(content).skip(end)) == content,
{
    let b = encode_utf8(content);
    vstd::utf8::encode_utf8_valid_utf8(content);
    vstd::utf8::encode_utf8_decode_utf8(content);
    vstd::utf8::decode_utf8_split(b, end);
    vstd::utf8::valid_utf8_split(b, end);
    let p = b.subrange(0, end);
    if start < end {
        vstd::utf8::is_char_boundary_iff_not_is_continuation_byte(b, start);
        vstd::utf8::is_char_boundary_iff_not_is_continuation_byte(p, start);
        assert(p[start] == b[start]);
    } else {
        vstd::utf8::is_char_boundary_start_end_of_seq(p);
    }
    vstd::utf8::decode_utf8_split(p, start);
    assert(p.subrange(0, start) =~= b.take(start));
    assert(p.subrange(start, p.len() as int) =~= b.subrange(start, end));
    assert(b.subrange(end, b.len() as int) =~= b.skip(end));
}

/// Insertion keeps proposals ordered by line, highest first, and adds one.
proof fn lemma_insert_by_line_sorted(s: Seq<FixProposal>, x: FixProposal)
    requires
        forall|i: int, j: int| 0 <= i < j < s.len() ==> (#[trigger] s[i]).line >= (#[trigger] s[j]).line,
    ensures
        insert_by_line_desc(s, x).len() == s.len() + 1,
        forall|i: int, j: int|
            0 <= i < j < insert_by_line_desc(s, x).len() ==> (#[trigger] insert_by_line_desc(s, x)[i]).line
                >= (#[trigger] insert_by_line_desc(s, x)[j]).line,
        forall|i: int|
            0 <= i < insert_by_line_desc(s, x).len() ==> (#[trigger] insert_by_line_desc(s, x)[i]).line
                >= x.line || insert_by_line_desc(s, x)[i] == x || s.contains(insert_by_line_desc(s, x)[i]),
    decreases s.len(),
{
    if s.len() > 0 && s.last().line < x.line {
        let t = s.drop_last();
        assert forall|i: int, j: int| 0 <= i < j < t.len() implies (#[trigger] t[i]).line >= (#[trigger] t[j]).line by {
            assert(t[i] == s[i] && t[j] == s[j]);
        }
        lemma_insert_by_line_sorted(t, x);
        let r = insert_by_line_desc(s, x);
        let rt = insert_by_line_desc(t, x);
        assert forall|i: int, j: int| 0 <= i < j < r.len() implies (#[trigger] r[i]).line >= (#[trigger] r[j]).line by {
            if j == r.len() - 1 {
                assert(r[j] == s.last());
                assert(r[i] == rt[i]);
                if rt[i] == x {
                } else if t.contains(rt[i]) {
                    let k = choose|k: int| 0 <= k < t.len() && t[k] == rt[i];
                    assert(s[k] == t[k]);
                    assert(s[s.len() - 1] == s.last());
                } else {
                }
            } else {
                assert(r[i] == rt[i] && r[j] == rt[j]);
            }
        }
        assert forall|i: int| 0 <= i < r.len() implies (#[trigger] r[i]).line >= x.line || r[i] == x || s.contains(r[i]) by {
            if i == r.len() - 1 {
                assert(s[s.len() - 1] == r[i]);
            } else {
                assert(r[i] == rt[i]);
                if t.contains(rt[i]) {
                    let k = choose|k: int| 0 <= k < t.len() && t[k] == rt[i];
                    assert(s[k] == t[k]);
                }
            }
        }
    } else {
        let r = insert_by_line_desc(s, x);
        assert forall|i: int| 0 <= i < r.len() implies (#[trigger] r[i]).line >= x.line || r[i] == x || s.contains(r[i]) by {
            if i < s.len() {
                assert(r[i] == s[i]);
            }
        }
    }
}

/// A file is patched from its last line up: the proposals for it are
/// applied in order of line, highest first, and all of them are applied.
pub proof fn law_patch_order(ps: Seq<FixProposal>)
    ensures
        sort_by_line_desc(ps).len() == ps.len(),
        forall|i: int, j: int|
            0 <= i < j < sort_by_line_desc(ps).len() ==> (#[trigger] sort_by_line_desc(ps)[i]).line
                >= (#[trigger] sort_by_line_desc(ps)[j]).line,
    decreases ps.len(),
{
    if ps.len() > 0 {
        law_patch_order(ps.drop_last());
        lemma_insert_by_line_sorted(sort_by_line_desc(ps.drop_last()), ps.last());
    }
}

/// A file that no proposal names is left as it is.
pub proof fn law_unnamed_file_unchanged(content: Seq<char>, ps: Seq<FixProposal>, file: Seq<char>)
    requires
        forall|i: int| 0 <= i < ps.len() ==> (#[trigger] ps[i]).file@ != file,
    ensures
        patched_file_s(content, ps, file) == content,
    decreases ps.len(),
{
    if ps.len() > 0 {
        let init = ps.drop_last();
        assert forall|i: int| 0 <= i < init.len() implies (#[trigger] init[i]).file@ != file by {
            assert(init[i] == ps[i]);
        }
        law_unnamed_file_unchanged(content, init, file);
        assert(ps[ps.len() - 1].file@ != file);
    }
}

} // verus!
