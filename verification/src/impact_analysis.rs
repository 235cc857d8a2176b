//! Impact analysis: which concepts and files a set of changed files
//! reaches, directly and through cross-concept rules.
use vstd::prelude::*;
use vstd::string::*;
use crate::config::{concept_matches_selector, selects_s};
use crate::fix::patcher::{insert_name, insert_sorted};
use crate::impact::{BlastRadius, ImpactReport, ImpactedFile};
use crate::model::finding::{ConceptResult, Finding, ScanResult};
use crate::model::Severity;
use crate::pathing::{path_eq, path_join, path_join_s, path_same};
use crate::text::{from_chars, push_str, str_eq, to_chars, vv};

verus! {

/// A concept id and the file of one of its assertions.
pub type Entry = (Seq<char>, Seq<char>);

/// An impacted file: its path, its concepts and the reason.
pub type ImpactView = (Seq<char>, Seq<Seq<char>>, Seq<char>);

/// The (concept, file) of every assertion, concept result by concept
/// result, in order.
pub open spec fn entries_s(crs: Seq<ConceptResult>) -> Seq<Entry>
    decreases crs.len(),
{
    if crs.len() == 0 {
        Seq::empty()
    } else {
        let cr = crs.last();
        entries_s(crs.drop_last()) + cr.assertions@.map_values(
            |a: crate::model::ConfigAssertion| (cr.concept.id@, a.source.file@),
        )
    }
}

/// A path as the workspace sees it: joined onto the root (`Path::join`,
/// so an absolute path stays as it is).
pub open spec fn norm_s(root: Seq<char>, p: Seq<char>) -> Seq<char> {
    path_join_s(root, p)
}

/// The file is one of the changed files.
pub open spec fn changed_s(root: Seq<char>, changed: Seq<Seq<char>>, file: Seq<char>) -> bool {
    exists|k: int| 0 <= k < changed.len() && path_eq(norm_s(root, file), #[trigger] norm_s(root, changed[k]))
}

/// The concepts of the assertions in changed files, each once, in order of
/// first appearance.
pub open spec fn direct_s(es: Seq<Entry>, root: Seq<char>, changed: Seq<Seq<char>>) -> Seq<Seq<char>>
    decreases es.len(),
{
    if es.len() == 0 {
        Seq::empty()
    } else {
        let d = direct_s(es.drop_last(), root, changed);
        let e = es.last();
        if changed_s(root, changed, e.1) && !d.contains(e.0) {
            d.push(e.0)
        } else {
            d
        }
    }
}

/// The concepts of the assertions in the file `p`, each once, in order.
pub open spec fn ids_for_path_s(es: Seq<Entry>, root: Seq<char>, p: Seq<char>) -> Seq<Seq<char>>
    decreases es.len(),
{
    if es.len() == 0 {
        Seq::empty()
    } else {
        let d = ids_for_path_s(es.drop_last(), root, p);
        let e = es.last();
        if path_eq(norm_s(root, e.1), norm_s(root, p)) && !d.contains(e.0) {
            d.push(e.0)
        } else {
            d
        }
    }
}

/// The changed file `ch[i]` names the same path as an earlier one.
pub open spec fn repeated_s(ch: Seq<Seq<char>>, root: Seq<char>, i: int) -> bool {
    exists|j: int| 0 <= j < i && path_eq(#[trigger] norm_s(root, ch[j]), norm_s(root, ch[i]))
}

/// The root changes: each changed path once (first spelling), joined onto
/// the root, with its concepts, when it has any.
pub open spec fn root_changes_s(ch: Seq<Seq<char>>, es: Seq<Entry>, root: Seq<char>) -> Seq<ImpactView>
    decreases ch.len(),
{
    if ch.len() == 0 {
        Seq::empty()
    } else {
        let rest = root_changes_s(ch.drop_last(), es, root);
        let c = ch.last();
        let ids = ids_for_path_s(es, root, c);
        if repeated_s(ch, root, ch.len() - 1) || ids.len() == 0 {
            rest
        } else {
            rest.push((norm_s(root, c), ids, "directly changed"@))
        }
    }
}

/// The entries of one concept, in order.
pub open spec fn with_id_s(es: Seq<Entry>, id: Seq<char>) -> Seq<Entry>
    decreases es.len(),
{
    if es.len() == 0 {
        Seq::empty()
    } else {
        let rest = with_id_s(es.drop_last(), id);
        if es.last().0 == id {
            rest.push(es.last())
        } else {
            rest
        }
    }
}

/// The entries of the concepts, concept by concept.
pub open spec fn candidates_s(ids: Seq<Seq<char>>, es: Seq<Entry>) -> Seq<Entry>
    decreases ids.len(),
{
    if ids.len() == 0 {
        Seq::empty()
    } else {
        candidates_s(ids.drop_last(), es) + with_id_s(es, ids.last())
    }
}

/// Some impacted file names the path.
pub open spec fn path_in_s(out: Seq<ImpactView>, root: Seq<char>, p: Seq<char>) -> bool {
    exists|k: int| 0 <= k < out.len() && path_eq(#[trigger] norm_s(root, out[k].0), norm_s(root, p))
}

/// The peers of the changed files: the files of the directly affected
/// concepts that are not changed themselves, each path once.
pub open spec fn direct_impacts_s(cs: Seq<Entry>, root: Seq<char>, ch: Seq<Seq<char>>) -> Seq<ImpactView>
    decreases cs.len(),
{
    if cs.len() == 0 {
        Seq::empty()
    } else {
        let out = direct_impacts_s(cs.drop_last(), root, ch);
        let e = cs.last();
        if !changed_s(root, ch, e.1) && !path_in_s(out, root, e.1) {
            out.push((e.1, seq![e.0], "shares concept '"@ + e.0 + "'"@))
        } else {
            out
        }
    }
}

/// The first concept with assertions, in order, that the name picks as a
/// selector.
pub open spec fn first_selected_entry_s(es: Seq<Entry>, name: Seq<char>) -> Option<Seq<char>>
    decreases es.len(),
{
    if es.len() == 0 {
        None
    } else if selects_s(es[0].0, name) {
        Some(es[0].0)
    } else {
        first_selected_entry_s(es.drop_first(), name)
    }
}

/// The concept a rule names: itself when it has assertions, else the first
/// concept with assertions that it picks as an alias, else itself.
pub open spec fn resolve_s(es: Seq<Entry>, name: Seq<char>) -> Seq<char> {
    if with_id_s(es, name).len() > 0 {
        name
    } else {
        match first_selected_entry_s(es, name) {
            Some(id) => id,
            None => name,
        }
    }
}

/// The files of a concept reached through the rule `rule_then`: those not
/// changed and not already among the peers.
pub open spec fn transitive_files_s(
    xs: Seq<Entry>,
    concept: Seq<char>,
    rule_then: Seq<char>,
    root: Seq<char>,
    ch: Seq<Seq<char>>,
    peers: Seq<ImpactView>,
) -> Seq<ImpactView>
    decreases xs.len(),
{
    if xs.len() == 0 {
        Seq::empty()
    } else {
        let rest = transitive_files_s(xs.drop_last(), concept, rule_then, root, ch, peers);
        let e = xs.last();
        if !changed_s(root, ch, e.1) && !path_in_s(peers, root, e.1) {
            rest.push((e.1, seq![concept], "transitively affected via concept rule '"@ + rule_then + "'"@))
        } else {
            rest
        }
    }
}

/// The concepts reached so far, in order of discovery, and the files
/// reached through rules.
pub type SearchState = (Seq<Seq<char>>, Seq<ImpactView>);

/// The rules, in order, applied to the concept `x`: each rule whose
/// `when` concept is `x` reaches its `then` concept (resolved), which,
/// when new, joins the search with its files.
pub open spec fn apply_rules_s(
    rules: Seq<(Seq<char>, Seq<char>)>,
    x: Seq<char>,
    st: SearchState,
    es: Seq<Entry>,
    root: Seq<char>,
    ch: Seq<Seq<char>>,
    peers: Seq<ImpactView>,
) -> SearchState
    decreases rules.len(),
{
    if rules.len() == 0 {
        st
    } else {
        let s = apply_rules_s(rules.drop_last(), x, st, es, root, ch, peers);
        let (w, t) = rules.last();
        if w == x {
            let r = resolve_s(es, t);
            if s.0.contains(r) {
                s
            } else {
                (s.0.push(r), s.1 + transitive_files_s(with_id_s(es, r), r, t, root, ch, peers))
            }
        } else {
            s
        }
    }
}

/// The breadth-first search through the rules: the concepts of the state
/// from position `k` on are expanded in order, at most `fuel` of them.
pub open spec fn search_s(
    rules: Seq<(Seq<char>, Seq<char>)>,
    st: SearchState,
    k: nat,
    fuel: nat,
    es: Seq<Entry>,
    root: Seq<char>,
    ch: Seq<Seq<char>>,
    peers: Seq<ImpactView>,
) -> SearchState
    decreases fuel,
{
    if fuel == 0 || k >= st.0.len() {
        st
    } else {
        search_s(rules, apply_rules_s(rules, st.0[k as int], st, es, root, ch, peers), k + 1, (fuel - 1) as nat, es, root, ch, peers)
    }
}

/// The view of an impacted file.
pub open spec fn impact_view(f: ImpactedFile) -> ImpactView {
    (f.path@, f.concept_ids@.map_values(|s: String| s@), f.reason@)
}

/// The views of impacted files.
pub open spec fn impacts_view(fs: Seq<ImpactedFile>) -> Seq<ImpactView> {
    fs.map_values(|f: ImpactedFile| impact_view(f))
}

/// The views of entries.
pub open spec fn entries_view(v: Seq<(String, String)>) -> Seq<Entry> {
    v.map_values(|p: (String, String)| (p.0@, p.1@))
}

/// The views of rules.
pub open spec fn rules_view(v: Seq<(String, String)>) -> Seq<(Seq<char>, Seq<char>)> {
    v.map_values(|p: (String, String)| (p.0@, p.1@))
}

fn entries(crs: &Vec<ConceptResult>) -> (r: Vec<(String, String)>)
    ensures
        entries_view(r@) == entries_s(crs@),
{
    let mut out: Vec<(String, String)> = Vec::new();
    let mut i: usize = 0;
    while i < crs.len()
        invariant
            i <= crs.len(),
            entries_view(out@) == entries_s(crs@.take(i as int)),
        decreases crs.len() - i,
    {
        proof {
            assert(crs@.take(i + 1).drop_last() == crs@.take(i as int));
            assert(crs@.take(i + 1).last() == crs@[i as int]);
        }
        let cr = &crs[i];
        let ghost before = entries_view(out@);
        let mut j: usize = 0;
        while j < cr.assertions.len()
            invariant
                j <= cr.assertions.len(),
                cr == &crs@[i as int],
                entries_view(out@) == before + cr.assertions@.take(j as int).map_values(
                    |a: crate::model::ConfigAssertion| (cr.concept.id@, a.source.file@),
                ),
            decreases cr.assertions.len() - j,
        {
            let ghost prev = entries_view(out@);
            out.push((cr.concept.id.clone(), cr.assertions[j].source.file.clone()));
            proof {
                assert(entries_view(out@) =~= prev.push((cr.concept.id@, cr.assertions@[j as int].source.file@)));
                assert(cr.assertions@.take(j + 1).map_values(
                    |a: crate::model::ConfigAssertion| (cr.concept.id@, a.source.file@),
                ) =~= cr.assertions@.take(j as int).map_values(
                    |a: crate::model::ConfigAssertion| (cr.concept.id@, a.source.file@),
                ).push((cr.concept.id@, cr.assertions@[j as int].source.file@)));
            }
            j = j + 1;
        }
        assert(cr.assertions@.take(cr.assertions.len() as int) == cr.assertions@);
        i = i + 1;
    }
    assert(crs@.take(crs.len() as int) == crs@);
    out
}

fn is_changed(root: &str, changed: &[String], file: &str) -> (r: bool)
    ensures
        r == changed_s(root@, changed@.map_values(|s: String| s@), file@),
{
    let ghost ch = changed@.map_values(|s: String| s@);
    let nf = path_join(root, file);
    let mut k: usize = 0;
    while k < changed.len()
        invariant
            k <= changed.len(),
            ch == changed@.map_values(|s: String| s@),
            nf@ == norm_s(root@, file@),
            forall|j: int| 0 <= j < k ==> !path_eq(nf@, #[trigger] norm_s(root@, ch[j])),
        decreases changed.len() - k,
    {
        let nc = path_join(root, changed[k].as_str());
        assert(ch[k as int] == changed@[k as int]@);
        if path_same(nf.as_str(), nc.as_str()) {
            assert(path_eq(norm_s(root@, file@), norm_s(root@, ch[k as int])));
            return true;
        }
        k = k + 1;
    }
    false
}

fn contains_text(v: &Vec<String>, x: &str) -> (r: bool)
    ensures
        r == v@.map_values(|s: String| s@).contains(x@),
{
    let ghost vs = v@.map_values(|s: String| s@);
    let mut k: usize = 0;
    while k < v.len()
        invariant
            k <= v.len(),
            vs == v@.map_values(|s: String| s@),
            forall|j: int| 0 <= j < k ==> vs[j] != x@,
        decreases v.len() - k,
    {
        if str_eq(v[k].as_str(), x) {
            assert(vs[k as int] == x@);
            return true;
        }
        k = k + 1;
    }
    false
}


/// The texts of strings.
pub open spec fn sv(v: Seq<String>) -> Seq<Seq<char>> {
    v.map_values(|s: String| s@)
}

proof fn lemma_take_step<A>(s: Seq<A>, i: int)
    requires
        0 <= i < s.len(),
    ensures
        s.take(i + 1).drop_last() == s.take(i),
        s.take(i + 1).last() == s[i],
{
}

fn direct(es: &Vec<(String, String)>, root: &str, changed: &[String]) -> (r: Vec<String>)
    ensures
        sv(r@) == direct_s(entries_view(es@), root@, sv(changed@)),
{
    let ghost ev = entries_view(es@);
    let mut out: Vec<String> = Vec::new();
    let mut i: usize = 0;
    while i < es.len()
        invariant
            i <= es.len(),
            ev == entries_view(es@),
            sv(out@) == direct_s(ev.take(i as int), root@, sv(changed@)),
        decreases es.len() - i,
    {
        proof {
            lemma_take_step(ev, i as int);
        }
        let e = &es[i];
        if is_changed(root, changed, e.1.as_str()) && !contains_text(&out, e.0.as_str()) {
            let ghost prev = sv(out@);
            out.push(e.0.clone());
            assert(sv(out@) =~= prev.push(e.0@));
        }
        i = i + 1;
    }
    assert(ev.take(es.len() as int) == ev);
    out
}

fn ids_for_path(es: &Vec<(String, String)>, root: &str, p: &str) -> (r: Vec<String>)
    ensures
        sv(r@) == ids_for_path_s(entries_view(es@), root@, p@),
{
    let ghost ev = entries_view(es@);
    let np = path_join(root, p);
    let mut out: Vec<String> = Vec::new();
    let mut i: usize = 0;
    while i < es.len()
        invariant
            i <= es.len(),
            ev == entries_view(es@),
            np@ == norm_s(root@, p@),
            sv(out@) == ids_for_path_s(ev.take(i as int), root@, p@),
        decreases es.len() - i,
    {
        proof {
            lemma_take_step(ev, i as int);
        }
        let e = &es[i];
        let ne = path_join(root, e.1.as_str());
        if path_same(ne.as_str(), np.as_str()) && !contains_text(&out, e.0.as_str()) {
            let ghost prev = sv(out@);
            out.push(e.0.clone());
            assert(sv(out@) =~= prev.push(e.0@));
        }
        i = i + 1;
    }
    assert(ev.take(es.len() as int) == ev);
    out
}

fn root_changes(changed: &[String], es: &Vec<(String, String)>, root: &str) -> (r: Vec<ImpactedFile>)
    ensures
        impacts_view(r@) == root_changes_s(sv(changed@), entries_view(es@), root@),
{
    let ghost ch = sv(changed@);
    let mut out: Vec<ImpactedFile> = Vec::new();
    let mut i: usize = 0;
    while i < changed.len()
        invariant
            i <= changed.len(),
            ch == sv(changed@),
            impacts_view(out@) == root_changes_s(ch.take(i as int), entries_view(es@), root@),
        decreases changed.len() - i,
    {
        proof {
            lemma_take_step(ch, i as int);
        }
        let ghost pre = ch.take(i + 1);
        let nc = path_join(root, changed[i].as_str());
        let mut repeated = false;
        let mut j: usize = 0;
        while j < i
            invariant
                j <= i < changed.len(),
                ch == sv(changed@),
                pre == ch.take(i + 1),
                nc@ == norm_s(root@, ch[i as int]),
                repeated == exists|m: int| 0 <= m < j && path_eq(#[trigger] norm_s(root@, pre[m]), norm_s(root@, pre[i as int])),
            decreases i - j,
        {
            let nj = path_join(root, changed[j].as_str());
            assert(pre[j as int] == ch[j as int]);
            assert(pre[i as int] == ch[i as int]);
            if path_same(nj.as_str(), nc.as_str()) {
                repeated = true;
            }
            proof {
                if path_eq(norm_s(root@, pre[j as int]), norm_s(root@, pre[i as int])) {
                    assert(repeated);
                }
                if repeated && !path_eq(norm_s(root@, pre[j as int]), norm_s(root@, pre[i as int])) {
                    let m = choose|m: int| 0 <= m < j && path_eq(#[trigger] norm_s(root@, pre[m]), norm_s(root@, pre[i as int]));
                    assert(0 <= m < j + 1);
                }
            }
            j = j + 1;
        }
        assert(repeated == repeated_s(pre, root@, pre.len() - 1));
        assert(pre.last() == ch[i as int]);
        let ids = ids_for_path(es, root, changed[i].as_str());
        if !repeated && ids.len() > 0 {
            let ghost prev = impacts_view(out@);
            out.push(ImpactedFile { path: nc, concept_ids: ids, reason: String::from_str("directly changed") });
            assert(impacts_view(out@) =~= prev.push(impact_view(out@.last())));
        }
        i = i + 1;
    }
    assert(ch.take(changed.len() as int) == ch);
    out
}

fn with_id(es: &Vec<(String, String)>, id: &str) -> (r: Vec<(String, String)>)
    ensures
        entries_view(r@) == with_id_s(entries_view(es@), id@),
{
    let ghost ev = entries_view(es@);
    let mut out: Vec<(String, String)> = Vec::new();
    let mut i: usize = 0;
    while i < es.len()
        invariant
            i <= es.len(),
            ev == entries_view(es@),
            entries_view(out@) == with_id_s(ev.take(i as int), id@),
        decreases es.len() - i,
    {
        proof {
            lemma_take_step(ev, i as int);
        }
        if str_eq(es[i].0.as_str(), id) {
            let ghost prev = entries_view(out@);
            out.push((es[i].0.clone(), es[i].1.clone()));
            assert(entries_view(out@) =~= prev.push(ev[i as int]));
        }
        i = i + 1;
    }
    assert(ev.take(es.len() as int) == ev);
    out
}

fn candidates(ids: &Vec<String>, es: &Vec<(String, String)>) -> (r: Vec<(String, String)>)
    ensures
        entries_view(r@) == candidates_s(sv(ids@), entries_view(es@)),
{
    let ghost iv = sv(ids@);
    let mut out: Vec<(String, String)> = Vec::new();
    let mut i: usize = 0;
    while i < ids.len()
        invariant
            i <= ids.len(),
            iv == sv(ids@),
            entries_view(out@) == candidates_s(iv.take(i as int), entries_view(es@)),
        decreases ids.len() - i,
    {
        proof {
            lemma_take_step(iv, i as int);
        }
        let mut more = with_id(es, ids[i].as_str());
        let ghost prev = entries_view(out@);
        let ghost add = entries_view(more@);
        out.append(&mut more);
        assert(entries_view(out@) =~= prev + add);
        i = i + 1;
    }
    assert(iv.take(ids.len() as int) == iv);
    out
}

fn path_in(out: &Vec<ImpactedFile>, root: &str, p: &str) -> (r: bool)
    ensures
        r == path_in_s(impacts_view(out@), root@, p@),
{
    let ghost ov = impacts_view(out@);
    let np = path_join(root, p);
    let mut k: usize = 0;
    while k < out.len()
        invariant
            k <= out.len(),
            ov == impacts_view(out@),
            np@ == norm_s(root@, p@),
            forall|j: int| 0 <= j < k ==> !path_eq(#[trigger] norm_s(root@, ov[j].0), np@),
        decreases out.len() - k,
    {
        let nk = path_join(root, out[k].path.as_str());
        assert(ov[k as int].0 == out@[k as int].path@);
        if path_same(nk.as_str(), np.as_str()) {
            assert(path_eq(norm_s(root@, ov[k as int].0), norm_s(root@, p@)));
            return true;
        }
        k = k + 1;
    }
    false
}

fn quoted_reason(head: &str, name: &str) -> (r: String)
    ensures
        r@ == head@ + name@ + "'"@,
{
    let mut s = String::from_str(head);
    push_str(&mut s, name);
    push_str(&mut s, "'");
    s
}

fn one_id(id: &String) -> (r: Vec<String>)
    ensures
        sv(r@) == seq![id@],
{
    let mut v: Vec<String> = Vec::new();
    v.push(id.clone());
    assert(sv(v@) =~= seq![id@]);
    v
}

fn direct_impacts(cands: &Vec<(String, String)>, root: &str, changed: &[String]) -> (r: Vec<ImpactedFile>)
    ensures
        impacts_view(r@) == direct_impacts_s(entries_view(cands@), root@, sv(changed@)),
{
    let ghost cv = entries_view(cands@);
    let mut out: Vec<ImpactedFile> = Vec::new();
    let mut i: usize = 0;
    while i < cands.len()
        invariant
            i <= cands.len(),
            cv == entries_view(cands@),
            impacts_view(out@) == direct_impacts_s(cv.take(i as int), root@, sv(changed@)),
        decreases cands.len() - i,
    {
        proof {
            lemma_take_step(cv, i as int);
        }
        let e = &cands[i];
        if !is_changed(root, changed, e.1.as_str()) && !path_in(&out, root, e.1.as_str()) {
            let ghost prev = impacts_view(out@);
            let f = ImpactedFile {
                path: e.1.clone(),
                concept_ids: one_id(&e.0),
                reason: quoted_reason("shares concept '", e.0.as_str()),
            };
            out.push(f);
            assert(impacts_view(out@) =~= prev.push(impact_view(out@.last())));
        }
        i = i + 1;
    }
    assert(cv.take(cands.len() as int) == cv);
    out
}


fn resolve(es: &Vec<(String, String)>, name: &str) -> (r: String)
    ensures
        r@ == resolve_s(entries_view(es@), name@),
{
    let ghost ev = entries_view(es@);
    let own = with_id(es, name);
    if own.len() > 0 {
        return String::from_str(name);
    }
    assert(ev.skip(0) == ev);
    let mut k: usize = 0;
    while k < es.len()
        invariant
            k <= es.len(),
            ev == entries_view(es@),
            with_id_s(ev, name@).len() == 0,
            first_selected_entry_s(ev, name@) == first_selected_entry_s(ev.skip(k as int), name@),
        decreases es.len() - k,
    {
        proof {
            assert(ev.skip(k as int)[0] == ev[k as int]);
            assert(ev.skip(k as int).drop_first() == ev.skip(k + 1));
        }
        if concept_matches_selector(es[k].0.as_str(), name) {
            return es[k].0.clone();
        }
        k = k + 1;
    }
    assert(ev.skip(es.len() as int).len() == 0);
    String::from_str(name)
}

fn transitive_files(
    xs: &Vec<(String, String)>,
    concept: &String,
    rule_then: &str,
    root: &str,
    changed: &[String],
    peers: &Vec<ImpactedFile>,
    out: &mut Vec<ImpactedFile>,
)
    ensures
        impacts_view(final(out)@) == impacts_view(old(out)@) + transitive_files_s(
            entries_view(xs@),
            concept@,
            rule_then@,
            root@,
            sv(changed@),
            impacts_view(peers@),
        ),
{
    let ghost xv = entries_view(xs@);
    let ghost start = impacts_view(out@);
    let mut i: usize = 0;
    while i < xs.len()
        invariant
            i <= xs.len(),
            xv == entries_view(xs@),
            impacts_view(out@) == start + transitive_files_s(
                xv.take(i as int),
                concept@,
                rule_then@,
                root@,
                sv(changed@),
                impacts_view(peers@),
            ),
        decreases xs.len() - i,
    {
        proof {
            lemma_take_step(xv, i as int);
        }
        let e = &xs[i];
        if !is_changed(root, changed, e.1.as_str()) && !path_in(peers, root, e.1.as_str()) {
            let ghost prev = impacts_view(out@);
            let f = ImpactedFile {
                path: e.1.clone(),
                concept_ids: one_id(concept),
                reason: quoted_reason("transitively affected via concept rule '", rule_then),
            };
            out.push(f);
            assert(impacts_view(out@) =~= prev.push(impact_view(out@.last())));
        }
        i = i + 1;
    }
    assert(xv.take(xs.len() as int) == xv);
}

fn apply_rules(
    rules: &[(String, String)],
    x: &str,
    visited: &mut Vec<String>,
    out: &mut Vec<ImpactedFile>,
    es: &Vec<(String, String)>,
    root: &str,
    changed: &[String],
    peers: &Vec<ImpactedFile>,
)
    ensures
        (sv(final(visited)@), impacts_view(final(out)@)) == apply_rules_s(
            rules_view(rules@),
            x@,
            (sv(old(visited)@), impacts_view(old(out)@)),
            entries_view(es@),
            root@,
            sv(changed@),
            impacts_view(peers@),
        ),
{
    let ghost rv = rules_view(rules@);
    let ghost st0: SearchState = (sv(visited@), impacts_view(out@));
    let mut j: usize = 0;
    while j < rules.len()
        invariant
            j <= rules.len(),
            rv == rules_view(rules@),
            (sv(visited@), impacts_view(out@)) == apply_rules_s(
                rv.take(j as int),
                x@,
                st0,
                entries_view(es@),
                root@,
                sv(changed@),
                impacts_view(peers@),
            ),
        decreases rules.len() - j,
    {
        proof {
            lemma_take_step(rv, j as int);
        }
        let rule = &rules[j];
        if str_eq(rule.0.as_str(), x) {
            let r = resolve(es, rule.1.as_str());
            if !contains_text(visited, r.as_str()) {
                let ghost pv = sv(visited@);
                visited.push(r.clone());
                assert(sv(visited@) =~= pv.push(r@));
                let xs = with_id(es, r.as_str());
                transitive_files(&xs, &r, rule.1.as_str(), root, changed, peers, out);
            }
        }
        j = j + 1;
    }
    assert(rv.take(rules.len() as int) == rv);
}

/// How many concepts the search expands at most: every concept that
/// joins it beyond the direct ones comes through a rule.
pub open spec fn search_fuel(direct: nat, rules: nat) -> nat {
    if direct + rules > usize::MAX {
        usize::MAX as nat
    } else {
        direct + rules
    }
}

/// The ascending, duplicate-free list of the concepts.
pub open spec fn sorted_ids_s(vs: Seq<Seq<char>>) -> Seq<Seq<char>>
    decreases vs.len(),
{
    if vs.len() == 0 {
        Seq::empty()
    } else {
        insert_sorted(sorted_ids_s(vs.drop_last()), vs.last())
    }
}

/// The more severe of a severity so far and another one.
pub open spec fn max_severity(w: Option<Severity>, s: Severity) -> Option<Severity> {
    match w {
        None => Some(s),
        Some(a) => if s.rank() >= a.rank() {
            Some(s)
        } else {
            Some(a)
        },
    }
}

/// The most severe of the findings and of `w`.
pub open spec fn worst_of_findings(fs: Seq<Finding>, w: Option<Severity>) -> Option<Severity>
    decreases fs.len(),
{
    if fs.len() == 0 {
        w
    } else {
        max_severity(worst_of_findings(fs.drop_last(), w), fs.last().severity)
    }
}

/// The most severe finding of the concepts that are among `affected`.
pub open spec fn worst_s(crs: Seq<ConceptResult>, affected: Seq<Seq<char>>) -> Option<Severity>
    decreases crs.len(),
{
    if crs.len() == 0 {
        None
    } else {
        let w = worst_s(crs.drop_last(), affected);
        if affected.contains(crs.last().concept.id@) {
            worst_of_findings(crs.last().findings@, w)
        } else {
            w
        }
    }
}

fn sorted_ids(vs: &Vec<String>) -> (r: Vec<String>)
    ensures
        sv(r@) == sorted_ids_s(sv(vs@)),
{
    let ghost v = sv(vs@);
    let mut names: Vec<Vec<char>> = Vec::new();
    let mut i: usize = 0;
    while i < vs.len()
        invariant
            i <= vs.len(),
            v == sv(vs@),
            vv(names@) == sorted_ids_s(v.take(i as int)),
        decreases vs.len() - i,
    {
        proof {
            lemma_take_step(v, i as int);
        }
        insert_name(&mut names, to_chars(vs[i].as_str()));
        i = i + 1;
    }
    assert(v.take(vs.len() as int) == v);
    let mut out: Vec<String> = Vec::new();
    let mut k: usize = 0;
    while k < names.len()
        invariant
            k <= names.len(),
            sv(out@) == vv(names@).take(k as int),
        decreases names.len() - k,
    {
        let ghost prev = sv(out@);
        out.push(from_chars(names[k].as_slice()));
        assert(sv(out@) =~= prev.push(names@[k as int]@));
        assert(vv(names@).take(k + 1) =~= vv(names@).take(k as int).push(names@[k as int]@));
        k = k + 1;
    }
    assert(vv(names@).take(names.len() as int) == vv(names@));
    out
}

fn worst(crs: &Vec<ConceptResult>, affected: &Vec<String>) -> (r: Option<Severity>)
    ensures
        r == worst_s(crs@, sv(affected@)),
{
    let mut w: Option<Severity> = None;
    let mut i: usize = 0;
    while i < crs.len()
        invariant
            i <= crs.len(),
            w == worst_s(crs@.take(i as int), sv(affected@)),
        decreases crs.len() - i,
    {
        proof {
            lemma_take_step(crs@, i as int);
        }
        let cr = &crs[i];
        if contains_text(affected, cr.concept.id.as_str()) {
            let ghost w0 = w;
            let mut j: usize = 0;
            while j < cr.findings.len()
                invariant
                    j <= cr.findings.len(),
                    cr == &crs@[i as int],
                    w == worst_of_findings(cr.findings@.take(j as int), w0),
                decreases cr.findings.len() - j,
            {
                proof {
                    lemma_take_step(cr.findings@, j as int);
                }
                let s = cr.findings[j].severity;
                w = match w {
                    None => Some(s),
                    Some(a) => if s.at_least(&a) {
                        Some(s)
                    } else {
                        Some(a)
                    },
                };
                j = j + 1;
            }
            assert(cr.findings@.take(cr.findings.len() as int) == cr.findings@);
        }
        i = i + 1;
    }
    assert(crs@.take(crs.len() as int) == crs@);
    w
}

/// The impact of changed files on a scan: the root changes (each changed
/// path with the concepts asserted in it), the direct impacts (the other
/// files of those concepts), the transitive impacts (the files of concepts
/// reached through the cross-concept rules `(when, then)`, breadth first),
/// the affected concepts in ascending order, and the blast radius. Paths
/// are compared after joining them onto `root`.
pub fn analyze_impact(scan: &ScanResult, changed: &[String], root: &str, rules: &[(String, String)]) -> (r: ImpactReport)
    ensures
        ({
            let es = entries_s(scan.concept_results@);
            let ch = sv(changed@);
            let direct = direct_s(es, root@, ch);
            let peers = direct_impacts_s(candidates_s(direct, es), root@, ch);
            let found = search_s(
                rules_view(rules@),
                (direct, Seq::empty()),
                0,
                search_fuel(direct.len(), rules@.len()),
                es,
                root@,
                ch,
                peers,
            );
            &&& impacts_view(r.root_changes@) == root_changes_s(ch, es, root@)
            &&& impacts_view(r.direct_impacts@) == peers
            &&& impacts_view(r.transitive_impacts@) == found.1
            &&& sv(r.affected_concepts@) == sorted_ids_s(found.0)
            &&& r.blast_radius.files_affected == if r.root_changes@.len() + r.direct_impacts@.len()
                + r.transitive_impacts@.len() > usize::MAX {
                usize::MAX as int
            } else {
                (r.root_changes@.len() + r.direct_impacts@.len() + r.transitive_impacts@.len()) as int
            }
            &&& r.blast_radius.concepts_affected == r.affected_concepts@.len()
            &&& r.blast_radius.worst_severity == worst_s(scan.concept_results@, sv(r.affected_concepts@))
        }),
{
    let es = entries(&scan.concept_results);
    let root_list = root_changes(changed, &es, root);
    let direct_ids = direct(&es, root, changed);
    let cands = candidates(&direct_ids, &es);
    let peers = direct_impacts(&cands, root, changed);
    let fuel: usize = if direct_ids.len() <= usize::MAX - rules.len() {
        direct_ids.len() + rules.len()
    } else {
        usize::MAX
    };
    let ghost rv = rules_view(rules@);
    let ghost init: SearchState = (sv(direct_ids@), Seq::<ImpactView>::empty());
    let mut visited: Vec<String> = direct_ids;
    let mut trans: Vec<ImpactedFile> = Vec::new();
    let ghost esv = entries_view(es@);
    let ghost pv = impacts_view(peers@);
    let ghost ch = sv(changed@);
    assert(impacts_view(trans@) =~= Seq::<ImpactView>::empty());
    let mut k: usize = 0;
    while k < visited.len() && k < fuel
        invariant
            k <= fuel,
            rv == rules_view(rules@),
            esv == entries_view(es@),
            pv == impacts_view(peers@),
            ch == sv(changed@),
            search_s(rv, init, 0, fuel as nat, esv, root@, ch, pv) == search_s(
                rv,
                (sv(visited@), impacts_view(trans@)),
                k as nat,
                (fuel - k) as nat,
                esv,
                root@,
                ch,
                pv,
            ),
        decreases fuel - k,
    {
        let x = visited[k].clone();
        assert(sv(visited@)[k as int] == x@);
        let ghost st: SearchState = (sv(visited@), impacts_view(trans@));
        apply_rules(rules, x.as_str(), &mut visited, &mut trans, &es, root, changed, &peers);
        assert(search_s(rv, st, k as nat, (fuel - k) as nat, esv, root@, ch, pv) == search_s(
            rv,
            (sv(visited@), impacts_view(trans@)),
            (k + 1) as nat,
            (fuel - k - 1) as nat,
            esv,
            root@,
            ch,
            pv,
        ));
        k = k + 1;
    }
    let affected = sorted_ids(&visited);
    let worst_severity = worst(&scan.concept_results, &affected);
    let a = root_list.len();
    let b = peers.len();
    let c = trans.len();
    let files_affected: usize = if a <= usize::MAX - b && a + b <= usize::MAX - c {
        a + b + c
    } else {
        usize::MAX
    };
    let concepts_affected = affected.len();
    ImpactReport {
        root_changes: root_list,
        direct_impacts: peers,
        transitive_impacts: trans,
        affected_concepts: affected,
        blast_radius: BlastRadius { files_affected, concepts_affected, worst_severity },
    }
}

} // verus!
