//! Federated scanning: several repositories, and the values of a concept
//! that differ between repositories of one group.
use vstd::prelude::*;
use vstd::string::*;
use crate::model::Authority;
use crate::pathing::{path_join, path_join_s};
use crate::fix::patcher::{repeat_char, repeat_s, PKG_VERSION};
use crate::style::{bold, bold_s, dimmed, dimmed_s, fg_s, green, red, yellow};
use crate::text::{
    chars_lt, decimal_chars, decimal_s, from_chars, lemma_seq_lt_total, pad_left_s, pad_right_s,
    push_decimal, push_pad_left, push_pad_right, push_str, seq_lt, str_eq, to_chars,
};

verus! {

/// Configuration for federated scanning across multiple repositories.
#[derive(Debug, Clone)]
pub struct FederationConfig {
    pub repository: Vec<RepositoryEntry>,
}

/// A single repository in the federation.
#[derive(Debug, Clone)]
pub struct RepositoryEntry {
    pub name: String,
    pub path: String,
    pub group: Option<String>,
}

/// Result of scanning a single repository in a federation.
#[derive(Debug, Clone)]
pub struct RepoScanResult {
    pub name: String,
    pub group: Option<String>,
    pub path: String,
    pub errors: usize,
    pub warnings: usize,
    pub info: usize,
    pub scan_error: Option<String>,
}

/// Cross-repo drift: same concept has different values across repos in the same group.
#[derive(Debug, Clone)]
pub struct CrossRepoDrift {
    pub concept_id: String,
    pub group: String,
    pub entries: Vec<DriftEntry>,
}

/// A single entry in a cross-repo drift finding.
#[derive(Debug, Clone)]
pub struct DriftEntry {
    pub repo: String,
    pub file: String,
    pub value: String,
}

/// The complete federation report.
#[derive(Debug, Clone)]
pub struct FederationReport {
    pub repo_results: Vec<RepoScanResult>,
    pub cross_repo_drift: Vec<CrossRepoDrift>,
    pub summary: FederationSummary,
}

/// Summary statistics for the federation scan.
#[derive(Debug, Clone, Copy, PartialEq, Eq, Structural)]
pub struct FederationSummary {
    pub repos_scanned: usize,
    pub repos_with_errors: usize,
    pub total_errors: usize,
    pub total_warnings: usize,
    pub cross_repo_drifts: usize,
}

// ---------------------------------------------------------------------
// Repository paths
// ---------------------------------------------------------------------

/// The directory of a repository: its path joined to the configuration's
/// directory (an absolute path stands as it is).
pub open spec fn resolve_repo_path_s(dir: Seq<char>, path: Seq<char>) -> Seq<char> {
    path_join_s(dir, path)
}

/// The directory of a repository entry's path: absolute paths stand as
/// they are, relative ones are taken from the configuration's directory.
pub fn resolve_repo_path(config_dir: &str, repo_path: &str) -> (r: String)
    ensures
        r@ == resolve_repo_path_s(config_dir@, repo_path@),
{
    path_join(config_dir, repo_path)
}

/// The template federation configuration.
pub open spec fn federation_template_s() -> Seq<char> {
    "# Conflic Federation Configuration
# Scan multiple repositories and detect cross-repo drift.

[[repository]]
name = \"api-gateway\"
path = \"../api-gateway\"
group = \"backend\"

[[repository]]
name = \"user-service\"
path = \"../user-service\"
group = \"backend\"

# [[repository]]
# name = \"web-app\"
# path = \"../web-app\"
# group = \"frontend\"
"@
}

/// Generate a template federation config file.
pub fn generate_federation_template() -> (r: String)
    ensures
        r@ == federation_template_s(),
{
    String::from_str(
        "# Conflic Federation Configuration
# Scan multiple repositories and detect cross-repo drift.

[[repository]]
name = \"api-gateway\"
path = \"../api-gateway\"
group = \"backend\"

[[repository]]
name = \"user-service\"
path = \"../user-service\"
group = \"backend\"

# [[repository]]
# name = \"web-app\"
# path = \"../web-app\"
# group = \"frontend\"
",
    )
}

// ---------------------------------------------------------------------
// Summary
// ---------------------------------------------------------------------

/// A repository counts as failing when it has errors or could not be scanned.
pub open spec fn repo_failed(r: RepoScanResult) -> bool {
    r.errors > 0 || r.scan_error is Some
}

pub open spec fn failed_count(rs: Seq<RepoScanResult>) -> nat
    decreases rs.len(),
{
    if rs.len() == 0 {
        0
    } else {
        failed_count(rs.drop_last()) + (if repo_failed(rs.last()) {
            1nat
        } else {
            0nat
        })
    }
}

pub open spec fn errors_total(rs: Seq<RepoScanResult>) -> nat
    decreases rs.len(),
{
    if rs.len() == 0 {
        0
    } else {
        errors_total(rs.drop_last()) + rs.last().errors as nat
    }
}

pub open spec fn warnings_total(rs: Seq<RepoScanResult>) -> nat
    decreases rs.len(),
{
    if rs.len() == 0 {
        0
    } else {
        warnings_total(rs.drop_last()) + rs.last().warnings as nat
    }
}

proof fn lemma_failed_count_bounded(rs: Seq<RepoScanResult>)
    ensures
        failed_count(rs) <= rs.len(),
    decreases rs.len(),
{
    if rs.len() > 0 {
        lemma_failed_count_bounded(rs.drop_last());
    }
}

proof fn lemma_totals_monotone(rs: Seq<RepoScanResult>, i: int)
    requires
        0 <= i <= rs.len(),
    ensures
        errors_total(rs.take(i)) <= errors_total(rs),
        warnings_total(rs.take(i)) <= warnings_total(rs),
    decreases rs.len() - i,
{
    if i < rs.len() {
        lemma_totals_monotone(rs, i + 1);
        assert(rs.take(i + 1).drop_last() == rs.take(i));
    } else {
        assert(rs.take(i) == rs);
    }
}

/// The summary of the repositories' results and of the drift found.
pub fn summarize(results: &[RepoScanResult], drifts: usize) -> (s: FederationSummary)
    requires
        errors_total(results@) <= usize::MAX,
        warnings_total(results@) <= usize::MAX,
    ensures
        s.repos_scanned == results.len(),
        s.repos_with_errors == failed_count(results@),
        s.total_errors == errors_total(results@),
        s.total_warnings == warnings_total(results@),
        s.cross_repo_drifts == drifts,
{
    let mut failed: usize = 0;
    let mut errors: usize = 0;
    let mut warnings: usize = 0;
    let mut i: usize = 0;
    while i < results.len()
        invariant
            i <= results.len(),
            failed == failed_count(results@.take(i as int)),
            errors == errors_total(results@.take(i as int)),
            warnings == warnings_total(results@.take(i as int)),
            errors_total(results@) <= usize::MAX,
            warnings_total(results@) <= usize::MAX,
        decreases results.len() - i,
    {
        let r = &results[i];
        proof {
            assert(results@.take(i + 1).drop_last() == results@.take(i as int));
            assert(results@.take(i + 1).last() == results@[i as int]);
            lemma_totals_monotone(results@, i + 1);
            lemma_failed_count_bounded(results@.take(i + 1));
        }
        if r.errors > 0 || r.scan_error.is_some() {
            failed = failed + 1;
        }
        errors = errors + r.errors;
        warnings = warnings + r.warnings;
        i = i + 1;
    }
    assert(results@.take(results.len() as int) == results@);
    FederationSummary {
        repos_scanned: results.len(),
        repos_with_errors: failed,
        total_errors: errors,
        total_warnings: warnings,
        cross_repo_drifts: drifts,
    }
}

// ---------------------------------------------------------------------
// Cross-repository drift
// ---------------------------------------------------------------------

/// A value that the scan of a grouped repository found for a concept.
#[derive(Debug, Clone)]
pub struct GroupAssertion {
    pub group: String,
    pub concept_id: String,
    pub repo: String,
    pub authority: Authority,
    pub raw_value: String,
    /// The file the value was found in, as path text.
    pub file: String,
}

/// The (group, concept) key of a value.
pub open spec fn key_of(a: GroupAssertion) -> (Seq<char>, Seq<char>) {
    (a.group@, a.concept_id@)
}

/// Keys ordered by group, then by concept.
pub open spec fn key_lt(a: (Seq<char>, Seq<char>), b: (Seq<char>, Seq<char>)) -> bool {
    seq_lt(a.0, b.0) || (a.0 == b.0 && seq_lt(a.1, b.1))
}

/// `x` inserted into the ascending keys `s`, unless it is there.
pub open spec fn insert_key(s: Seq<(Seq<char>, Seq<char>)>, x: (Seq<char>, Seq<char>)) -> Seq<
    (Seq<char>, Seq<char>),
>
    decreases s.len(),
{
    if s.len() == 0 {
        seq![x]
    } else if x == s[0] {
        s
    } else if key_lt(x, s[0]) {
        seq![x] + s
    } else {
        seq![s[0]] + insert_key(s.drop_first(), x)
    }
}

/// The distinct keys of the values, ascending.
pub open spec fn drift_keys(xs: Seq<GroupAssertion>) -> Seq<(Seq<char>, Seq<char>)>
    decreases xs.len(),
{
    if xs.len() == 0 {
        Seq::empty()
    } else {
        insert_key(drift_keys(xs.drop_last()), key_of(xs.last()))
    }
}

/// The first position of repository `r` among `bs`, or `bs.len()`.
pub open spec fn repo_pos(bs: Seq<GroupAssertion>, r: Seq<char>) -> int
    decreases bs.len(),
{
    if bs.len() == 0 {
        0
    } else if bs[0].repo@ == r {
        0
    } else {
        1 + repo_pos(bs.drop_first(), r)
    }
}

/// For key `k`, the value of highest authority of each repository, the
/// later one among equals, repositories in the order they first appear.
pub open spec fn best_per_repo(xs: Seq<GroupAssertion>, k: (Seq<char>, Seq<char>)) -> Seq<GroupAssertion>
    decreases xs.len(),
{
    if xs.len() == 0 {
        Seq::empty()
    } else {
        let init = best_per_repo(xs.drop_last(), k);
        let a = xs.last();
        if key_of(a) == k {
            let j = repo_pos(init, a.repo@);
            if j < init.len() {
                if a.authority.rank() >= init[j].authority.rank() {
                    init.update(j, a)
                } else {
                    init
                }
            } else {
                init.push(a)
            }
        } else {
            init
        }
    }
}

/// Two or more repositories whose chosen values are not all the same.
pub open spec fn has_drift(bs: Seq<GroupAssertion>) -> bool {
    bs.len() >= 2 && exists|i: int| 0 <= i < bs.len() && (#[trigger] bs[i]).raw_value@ != bs[0].raw_value@
}

/// An entry as (repository, file, value).
pub type EntryView = (Seq<char>, Seq<char>, Seq<char>);

/// A drift as (group, concept, entries).
pub type DriftView = (Seq<char>, Seq<char>, Seq<EntryView>);

pub open spec fn entries_of(bs: Seq<GroupAssertion>) -> Seq<EntryView> {
    bs.map_values(|a: GroupAssertion| (a.repo@, a.file@, a.raw_value@))
}

pub open spec fn entries_view(es: Seq<DriftEntry>) -> Seq<EntryView> {
    es.map_values(|e: DriftEntry| (e.repo@, e.file@, e.value@))
}

pub open spec fn drifts_view(ds: Seq<CrossRepoDrift>) -> Seq<DriftView> {
    ds.map_values(|d: CrossRepoDrift| (d.group@, d.concept_id@, entries_view(d.entries@)))
}

/// The drifts of the keys `ks`, in their order.
pub open spec fn drifts_for(xs: Seq<GroupAssertion>, ks: Seq<(Seq<char>, Seq<char>)>) -> Seq<DriftView>
    decreases ks.len(),
{
    if ks.len() == 0 {
        Seq::empty()
    } else {
        let k = ks.last();
        let bs = best_per_repo(xs, k);
        drifts_for(xs, ks.drop_last()) + (if has_drift(bs) {
            seq![(k.0, k.1, entries_of(bs))]
        } else {
            Seq::empty()
        })
    }
}

/// The cross-repository drifts of the values: for each (group, concept),
/// ascending, where two or more repositories' chosen values differ.
pub open spec fn cross_repo_drift_s(xs: Seq<GroupAssertion>) -> Seq<DriftView> {
    drifts_for(xs, drift_keys(xs))
}

proof fn lemma_key_lt_total(a: (Seq<char>, Seq<char>), b: (Seq<char>, Seq<char>))
    ensures
        key_lt(a, b) ==> a != b,
        key_lt(a, b) ==> !key_lt(b, a),
        a != b ==> key_lt(a, b) || key_lt(b, a),
{
    lemma_seq_lt_total(a.0, b.0);
    lemma_seq_lt_total(a.1, b.1);
}

proof fn lemma_insert_key_at(s: Seq<(Seq<char>, Seq<char>)>, x: (Seq<char>, Seq<char>), i: int)
    requires
        0 <= i <= s.len(),
        forall|j: int| 0 <= j < i ==> key_lt(#[trigger] s[j], x),
        i == s.len() || !key_lt(s[i], x),
    ensures
        insert_key(s, x) == (if i < s.len() && s[i] == x {
            s
        } else {
            s.insert(i, x)
        }),
    decreases i,
{
    if i == 0 {
        if s.len() > 0 {
            lemma_key_lt_total(s[0], x);
            if x != s[0] {
                assert(seq![x] + s =~= s.insert(0, x));
            }
        } else {
            assert(seq![x] =~= s.insert(0, x));
        }
    } else {
        lemma_key_lt_total(s[0], x);
        let t = s.drop_first();
        assert forall|j: int| 0 <= j < i - 1 implies key_lt(#[trigger] t[j], x) by {
            assert(t[j] == s[j + 1]);
        }
        if i < s.len() {
            assert(t[i - 1] == s[i]);
        }
        lemma_insert_key_at(t, x, i - 1);
        if i < s.len() && s[i] == x {
            assert(seq![s[0]] + t =~= s);
        } else {
            assert(seq![s[0]] + t.insert(i - 1, x) =~= s.insert(i, x));
        }
    }
}

/// The values at the positions `idx` of `xs`.
pub open spec fn at(xs: Seq<GroupAssertion>, idx: Seq<usize>) -> Seq<GroupAssertion> {
    idx.map_values(|i: usize| xs[i as int])
}

pub open spec fn keys_at(xs: Seq<GroupAssertion>, idx: Seq<usize>) -> Seq<(Seq<char>, Seq<char>)> {
    idx.map_values(|i: usize| key_of(xs[i as int]))
}

/// `a` comes before `b` in the order of `String`.
pub(crate) fn str_order_lt(a: &str, b: &str) -> (r: bool)
    ensures
        r == seq_lt(a@, b@),
{
    let ac = to_chars(a);
    let bc = to_chars(b);
    chars_lt(ac.as_slice(), bc.as_slice())
}

fn key_less(a: &GroupAssertion, b: &GroupAssertion) -> (r: bool)
    ensures
        r == key_lt(key_of(*a), key_of(*b)),
{
    if str_order_lt(a.group.as_str(), b.group.as_str()) {
        return true;
    }
    str_eq(a.group.as_str(), b.group.as_str()) && str_order_lt(a.concept_id.as_str(), b.concept_id.as_str())
}

fn key_same(a: &GroupAssertion, b: &GroupAssertion) -> (r: bool)
    ensures
        r == (key_of(*a) == key_of(*b)),
{
    str_eq(a.group.as_str(), b.group.as_str()) && str_eq(a.concept_id.as_str(), b.concept_id.as_str())
}

/// Insert the key of `xs[i]` into the ascending keys, unless it is there.
fn insert_key_index(keys: &mut Vec<usize>, xs: &[GroupAssertion], i: usize)
    requires
        i < xs.len(),
        forall|j: int| 0 <= j < old(keys)@.len() ==> old(keys)@[j] < xs.len(),
    ensures
        keys_at(xs@, final(keys)@) == insert_key(keys_at(xs@, old(keys)@), key_of(xs@[i as int])),
        forall|j: int| 0 <= j < final(keys)@.len() ==> final(keys)@[j] < xs.len(),
{
    let ghost s = keys_at(xs@, keys@);
    let ghost x = key_of(xs@[i as int]);
    let mut p: usize = 0;
    while p < keys.len() && key_less(&xs[keys[p]], &xs[i])
        invariant
            p <= keys.len(),
            i < xs.len(),
            s == keys_at(xs@, keys@),
            x == key_of(xs@[i as int]),
            forall|j: int| 0 <= j < keys@.len() ==> keys@[j] < xs.len(),
            forall|j: int| 0 <= j < p ==> key_lt(#[trigger] s[j], x),
        decreases keys.len() - p,
    {
        p = p + 1;
    }
    proof {
        if p < keys.len() {
            assert(s[p as int] == key_of(xs@[keys@[p as int] as int]));
        }
        lemma_insert_key_at(s, x, p as int);
    }
    if p < keys.len() && key_same(&xs[keys[p]], &xs[i]) {
        return;
    }
    keys.insert(p, i);
    proof {
        assert(keys_at(xs@, keys@) =~= s.insert(p as int, x));
    }
}

/// The distinct keys of the values, ascending, each as the position of its
/// first value.
fn sorted_keys(xs: &[GroupAssertion]) -> (r: Vec<usize>)
    ensures
        keys_at(xs@, r@) == drift_keys(xs@),
        forall|j: int| 0 <= j < r@.len() ==> r@[j] < xs.len(),
{
    let mut keys: Vec<usize> = Vec::new();
    let mut i: usize = 0;
    while i < xs.len()
        invariant
            i <= xs.len(),
            keys_at(xs@, keys@) == drift_keys(xs@.take(i as int)),
            forall|j: int| 0 <= j < keys@.len() ==> keys@[j] < xs.len(),
        decreases xs.len() - i,
    {
        proof {
            assert(xs@.take(i + 1).drop_last() == xs@.take(i as int));
            assert(xs@.take(i + 1).last() == xs@[i as int]);
        }
        insert_key_index(&mut keys, xs, i);
        i = i + 1;
    }
    assert(xs@.take(xs.len() as int) == xs@);
    keys
}

proof fn lemma_repo_pos_at(bs: Seq<GroupAssertion>, r: Seq<char>, j: int)
    requires
        0 <= j <= bs.len(),
        forall|k: int| 0 <= k < j ==> (#[trigger] bs[k]).repo@ != r,
        j == bs.len() || bs[j].repo@ == r,
    ensures
        repo_pos(bs, r) == j,
    decreases j,
{
    if j > 0 {
        let t = bs.drop_first();
        assert(bs[0].repo@ != r);
        assert forall|k: int| 0 <= k < j - 1 implies (#[trigger] t[k]).repo@ != r by {
            assert(t[k] == bs[k + 1]);
        }
        if j < bs.len() {
            assert(t[j - 1] == bs[j]);
        }
        lemma_repo_pos_at(t, r, j - 1);
    }
}

/// The position of repository `repo` among the chosen values, or their count.
fn find_repo(xs: &[GroupAssertion], best: &Vec<usize>, repo: &str) -> (r: usize)
    requires
        forall|j: int| 0 <= j < best@.len() ==> best@[j] < xs.len(),
    ensures
        r == repo_pos(at(xs@, best@), repo@),
        r <= best.len(),
{
    let ghost bs = at(xs@, best@);
    let mut j: usize = 0;
    while j < best.len()
        invariant
            j <= best.len(),
            bs == at(xs@, best@),
            forall|q: int| 0 <= q < best@.len() ==> best@[q] < xs.len(),
            forall|k: int| 0 <= k < j ==> (#[trigger] bs[k]).repo@ != repo@,
        decreases best.len() - j,
    {
        if str_eq(xs[best[j]].repo.as_str(), repo) {
            proof {
                lemma_repo_pos_at(bs, repo@, j as int);
            }
            return j;
        }
        j = j + 1;
    }
    proof {
        lemma_repo_pos_at(bs, repo@, j as int);
    }
    j
}

/// For the key of `xs[kx]`, the positions of the chosen value of each repository.
fn best_for_key(xs: &[GroupAssertion], kx: usize) -> (r: Vec<usize>)
    requires
        kx < xs.len(),
    ensures
        at(xs@, r@) == best_per_repo(xs@, key_of(xs@[kx as int])),
        forall|j: int| 0 <= j < r@.len() ==> r@[j] < xs.len(),
{
    let ghost k = key_of(xs@[kx as int]);
    let mut best: Vec<usize> = Vec::new();
    let mut i: usize = 0;
    while i < xs.len()
        invariant
            i <= xs.len(),
            kx < xs.len(),
            k == key_of(xs@[kx as int]),
            at(xs@, best@) == best_per_repo(xs@.take(i as int), k),
            forall|j: int| 0 <= j < best@.len() ==> best@[j] < xs.len(),
        decreases xs.len() - i,
    {
        proof {
            assert(xs@.take(i + 1).drop_last() == xs@.take(i as int));
            assert(xs@.take(i + 1).last() == xs@[i as int]);
        }
        let ghost before = at(xs@, best@);
        if key_same(&xs[i], &xs[kx]) {
            let j = find_repo(xs, &best, xs[i].repo.as_str());
            if j < best.len() {
                if xs[i].authority.rank_u8() >= xs[best[j]].authority.rank_u8() {
                    best.set(j, i);
                    proof {
                        assert(at(xs@, best@) =~= before.update(j as int, xs@[i as int]));
                    }
                }
            } else {
                best.push(i);
                proof {
                    assert(at(xs@, best@) =~= before.push(xs@[i as int]));
                }
            }
        }
        i = i + 1;
    }
    assert(xs@.take(xs.len() as int) == xs@);
    best
}

/// Whether the chosen values drift: two or more, not all equal.
fn values_differ(xs: &[GroupAssertion], best: &Vec<usize>) -> (r: bool)
    requires
        forall|j: int| 0 <= j < best@.len() ==> best@[j] < xs.len(),
    ensures
        r == has_drift(at(xs@, best@)),
{
    let ghost bs = at(xs@, best@);
    if best.len() < 2 {
        return false;
    }
    let first = &xs[best[0]].raw_value;
    let mut j: usize = 1;
    while j < best.len()
        invariant
            1 <= j <= best.len(),
            best.len() >= 2,
            bs == at(xs@, best@),
            first@ == bs[0].raw_value@,
            forall|q: int| 0 <= q < best@.len() ==> best@[q] < xs.len(),
            forall|k: int| 0 <= k < j ==> (#[trigger] bs[k]).raw_value@ == first@,
        decreases best.len() - j,
    {
        if !str_eq(xs[best[j]].raw_value.as_str(), first.as_str()) {
            assert(bs[j as int].raw_value@ != bs[0].raw_value@);
            return true;
        }
        j = j + 1;
    }
    false
}

/// The entries of a drift: repository, file and value of each chosen value.
fn drift_entries(xs: &[GroupAssertion], best: &Vec<usize>) -> (r: Vec<DriftEntry>)
    requires
        forall|j: int| 0 <= j < best@.len() ==> best@[j] < xs.len(),
    ensures
        entries_view(r@) == entries_of(at(xs@, best@)),
{
    let ghost bs = at(xs@, best@);
    let mut out: Vec<DriftEntry> = Vec::new();
    let mut j: usize = 0;
    while j < best.len()
        invariant
            j <= best.len(),
            bs == at(xs@, best@),
            forall|q: int| 0 <= q < best@.len() ==> best@[q] < xs.len(),
            entries_view(out@) == entries_of(bs.take(j as int)),
        decreases best.len() - j,
    {
        let a = &xs[best[j]];
        let ghost o = out@;
        out.push(DriftEntry { repo: a.repo.clone(), file: a.file.clone(), value: a.raw_value.clone() });
        proof {
            assert(entries_view(out@) =~= entries_view(o).push((bs[j as int].repo@, bs[j as int].file@, bs[j as int].raw_value@)));
            assert(entries_of(bs.take(j + 1)) =~= entries_of(bs.take(j as int)).push(
                (bs[j as int].repo@, bs[j as int].file@, bs[j as int].raw_value@),
            ));
        }
        j = j + 1;
    }
    assert(bs.take(best.len() as int) == bs);
    out
}

/// Detect cross-repo drift: for each (group, concept), in ascending order,
/// the highest-authority value of each repository (the later one among
/// equals), reported when two or more repositories disagree.
pub fn detect_cross_repo_drift(xs: &[GroupAssertion]) -> (r: Vec<CrossRepoDrift>)
    ensures
        drifts_view(r@) == cross_repo_drift_s(xs@),
{
    let keys = sorted_keys(xs);
    let ghost ks = keys_at(xs@, keys@);
    let mut out: Vec<CrossRepoDrift> = Vec::new();
    let mut t: usize = 0;
    while t < keys.len()
        invariant
            t <= keys.len(),
            ks == keys_at(xs@, keys@),
            ks == drift_keys(xs@),
            forall|j: int| 0 <= j < keys@.len() ==> keys@[j] < xs.len(),
            drifts_view(out@) == drifts_for(xs@, ks.take(t as int)),
        decreases keys.len() - t,
    {
        let kx = keys[t];
        proof {
            assert(ks.take(t + 1).drop_last() == ks.take(t as int));
            assert(ks.take(t + 1).last() == key_of(xs@[kx as int]));
        }
        let best = best_for_key(xs, kx);
        if values_differ(xs, &best) {
            let entries = drift_entries(xs, &best);
            let ghost o = out@;
            out.push(CrossRepoDrift {
                concept_id: xs[kx].concept_id.clone(),
                group: xs[kx].group.clone(),
                entries,
            });
            proof {
                assert(drifts_view(out@) =~= drifts_view(o).push(
                    (xs@[kx as int].group@, xs@[kx as int].concept_id@, entries_of(at(xs@, best@))),
                ));
            }
        }
        t = t + 1;
    }
    assert(ks.take(keys.len() as int) == ks);
    out
}

// ---------------------------------------------------------------------
// Running a federation
// ---------------------------------------------------------------------

/// A value that the scan of one repository found for a concept.
#[derive(Debug, Clone)]
pub struct ScannedValue {
    pub concept_id: String,
    pub authority: Authority,
    pub raw_value: String,
    /// The file the value was found in, as path text.
    pub file: String,
}

/// What looking at one repository of the federation gave.
#[derive(Debug, Clone)]
pub enum RepoOutcome {
    /// The repository's resolved path does not exist.
    NotFound,
    /// The scan ran: its finding counts, and the values of every concept.
    Scanned { errors: usize, warnings: usize, info: usize, values: Vec<ScannedValue> },
    /// The scan failed with this message.
    Failed { message: String },
}

pub open spec fn outcome_errors(o: RepoOutcome) -> nat {
    match o {
        RepoOutcome::Scanned { errors, .. } => errors as nat,
        _ => 0,
    }
}

pub open spec fn outcome_warnings(o: RepoOutcome) -> nat {
    match o {
        RepoOutcome::Scanned { warnings, .. } => warnings as nat,
        _ => 0,
    }
}

pub open spec fn outcomes_errors(os: Seq<RepoOutcome>) -> nat
    decreases os.len(),
{
    if os.len() == 0 {
        0
    } else {
        outcomes_errors(os.drop_last()) + outcome_errors(os.last())
    }
}

pub open spec fn outcomes_warnings(os: Seq<RepoOutcome>) -> nat
    decreases os.len(),
{
    if os.len() == 0 {
        0
    } else {
        outcomes_warnings(os.drop_last()) + outcome_warnings(os.last())
    }
}

/// The message of a repository whose path was not found.
pub open spec fn not_found_message_s(config_dir: Seq<char>, path: Seq<char>) -> Seq<char> {
    "Repository path not found: "@ + resolve_repo_path_s(config_dir, path)
}

/// The result row of one repository, given what looking at it gave.
pub open spec fn repo_result_ok(
    r: RepoScanResult,
    e: RepositoryEntry,
    o: RepoOutcome,
    config_dir: Seq<char>,
) -> bool {
    &&& r.name == e.name
    &&& r.group == e.group
    &&& r.path == e.path
    &&& match o {
        RepoOutcome::NotFound => {
            &&& r.errors == 0 && r.warnings == 0 && r.info == 0
            &&& r.scan_error matches Some(m) && m@ == not_found_message_s(config_dir, e.path@)
        },
        RepoOutcome::Scanned { errors, warnings, info, .. } => {
            &&& r.errors == errors && r.warnings == warnings && r.info == info
            &&& r.scan_error is None
        },
        RepoOutcome::Failed { message } => {
            &&& r.errors == 0 && r.warnings == 0 && r.info == 0
            &&& r.scan_error == Some(message)
        },
    }
}

/// The values of a scanned repository, tagged with its group and name.
pub open spec fn tagged_values(e: RepositoryEntry, g: String, vs: Seq<ScannedValue>) -> Seq<GroupAssertion> {
    vs.map_values(
        |v: ScannedValue|
            GroupAssertion {
                group: g,
                concept_id: v.concept_id,
                repo: e.name,
                authority: v.authority,
                raw_value: v.raw_value,
                file: v.file,
            },
    )
}

/// The values of all grouped, scanned repositories, in configuration order.
pub open spec fn grouped_values(es: Seq<RepositoryEntry>, os: Seq<RepoOutcome>) -> Seq<GroupAssertion>
    decreases es.len(),
{
    if es.len() == 0 || os.len() == 0 {
        Seq::empty()
    } else {
        let init = grouped_values(es.drop_last(), os.drop_last());
        let e = es.last();
        match (e.group, os.last()) {
            (Some(g), RepoOutcome::Scanned { values, .. }) => init + tagged_values(e, g, values@),
            _ => init,
        }
    }
}

fn clone_group(g: &Option<String>) -> (r: Option<String>)
    ensures
        r == *g,
{
    match g {
        Some(s) => Some(s.clone()),
        None => None,
    }
}

fn push_tagged(out: &mut Vec<GroupAssertion>, e: &RepositoryEntry, g: &String, vs: &Vec<ScannedValue>)
    ensures
        final(out)@ == old(out)@ + tagged_values(*e, *g, vs@),
{
    let ghost start = out@;
    let mut j: usize = 0;
    while j < vs.len()
        invariant
            j <= vs.len(),
            out@ == start + tagged_values(*e, *g, vs@.take(j as int)),
        decreases vs.len() - j,
    {
        let v = &vs[j];
        out.push(
            GroupAssertion {
                group: g.clone(),
                concept_id: v.concept_id.clone(),
                repo: e.name.clone(),
                authority: v.authority,
                raw_value: v.raw_value.clone(),
                file: v.file.clone(),
            },
        );
        proof {
            assert(tagged_values(*e, *g, vs@.take(j + 1)) =~= tagged_values(*e, *g, vs@.take(j as int)).push(
                tagged_values(*e, *g, vs@)[j as int],
            ));
            assert(out@ =~= start + tagged_values(*e, *g, vs@.take(j + 1)));
        }
        j = j + 1;
    }
    assert(vs@.take(vs.len() as int) == vs@);
}

/// The report of a federation whose repositories gave `outcomes`, in the
/// order of `config.repository`: a result row per repository, the drift
/// between the values of repositories of one group, and the summary.
/// Relative repository paths are resolved against `config_dir`.
pub fn run_federation(config_dir: &str, config: &FederationConfig, outcomes: &[RepoOutcome]) -> (r:
    FederationReport)
    requires
        outcomes.len() == config.repository.len(),
        outcomes_errors(outcomes@) <= usize::MAX,
        outcomes_warnings(outcomes@) <= usize::MAX,
    ensures
        r.repo_results.len() == config.repository.len(),
        forall|i: int|
            0 <= i < r.repo_results.len() ==> repo_result_ok(
                #[trigger] r.repo_results@[i],
                config.repository@[i],
                outcomes@[i],
                config_dir@,
            ),
        drifts_view(r.cross_repo_drift@) == cross_repo_drift_s(
            grouped_values(config.repository@, outcomes@),
        ),
        r.summary.repos_scanned == r.repo_results.len(),
        r.summary.repos_with_errors == failed_count(r.repo_results@),
        r.summary.total_errors == errors_total(r.repo_results@),
        r.summary.total_warnings == warnings_total(r.repo_results@),
        r.summary.cross_repo_drifts == r.cross_repo_drift.len(),
{
    let repos = &config.repository;
    let mut results: Vec<RepoScanResult> = Vec::new();
    let mut values: Vec<GroupAssertion> = Vec::new();
    let mut i: usize = 0;
    while i < repos.len()
        invariant
            i <= repos.len(),
            repos == &config.repository,
            outcomes.len() == repos.len(),
            results.len() == i,
            forall|k: int|
                0 <= k < i ==> repo_result_ok(
                    #[trigger] results@[k],
                    repos@[k],
                    outcomes@[k],
                    config_dir@,
                ),
            errors_total(results@) == outcomes_errors(outcomes@.take(i as int)),
            warnings_total(results@) == outcomes_warnings(outcomes@.take(i as int)),
            values@ == grouped_values(repos@.take(i as int), outcomes@.take(i as int)),
        decreases repos.len() - i,
    {
        let e = &repos[i];
        let o = &outcomes[i];
        proof {
            assert(repos@.take(i + 1).drop_last() == repos@.take(i as int));
            assert(repos@.take(i + 1).last() == repos@[i as int]);
            assert(outcomes@.take(i + 1).drop_last() == outcomes@.take(i as int));
            assert(outcomes@.take(i + 1).last() == outcomes@[i as int]);
        }
        let row = match o {
            RepoOutcome::NotFound => {
                let resolved = resolve_repo_path(config_dir, e.path.as_str());
                let mut msg = String::from_str("Repository path not found: ");
                push_str(&mut msg, resolved.as_str());
                RepoScanResult {
                    name: e.name.clone(),
                    group: clone_group(&e.group),
                    path: e.path.clone(),
                    errors: 0,
                    warnings: 0,
                    info: 0,
                    scan_error: Some(msg),
                }
            },
            RepoOutcome::Scanned { errors, warnings, info, values: vs } => {
                match &e.group {
                    Some(g) => {
                        push_tagged(&mut values, e, g, vs);
                    },
                    None => {},
                }
                RepoScanResult {
                    name: e.name.clone(),
                    group: clone_group(&e.group),
                    path: e.path.clone(),
                    errors: *errors,
                    warnings: *warnings,
                    info: *info,
                    scan_error: None,
                }
            },
            RepoOutcome::Failed { message } => RepoScanResult {
                name: e.name.clone(),
                group: clone_group(&e.group),
                path: e.path.clone(),
                errors: 0,
                warnings: 0,
                info: 0,
                scan_error: Some(message.clone()),
            },
        };
        let ghost before = results@;
        results.push(row);
        proof {
            assert(results@.drop_last() == before);
        }
        i = i + 1;
    }
    assert(repos@.take(repos.len() as int) == repos@);
    assert(outcomes@.take(outcomes.len() as int) == outcomes@);
    let drifts = detect_cross_repo_drift(values.as_slice());
    let summary = summarize(results.as_slice(), drifts.len());
    FederationReport { repo_results: results, cross_repo_drift: drifts, summary }
}

// ---------------------------------------------------------------------
// The terminal report
// ---------------------------------------------------------------------

/// A text, plain or in the foreground color `code`.
pub open spec fn tint_s(t: Seq<char>, code: Seq<char>, no_color: bool) -> Seq<char> {
    if no_color {
        t
    } else {
        fg_s(code, t)
    }
}

/// The status column of a repository's row.
pub open spec fn status_s(r: RepoScanResult, no_color: bool) -> Seq<char> {
    match r.scan_error {
        Some(err) => tint_s("FAILED: "@ + err@, "31"@, no_color),
        None => if r.errors > 0 {
            tint_s("HAS ERRORS"@, "31"@, no_color)
        } else if r.warnings > 0 {
            tint_s("HAS WARNINGS"@, "33"@, no_color)
        } else {
            tint_s("OK"@, "32"@, no_color)
        },
    }
}

/// The group column: the group, or `-` for none.
pub open spec fn group_text_s(g: Option<String>) -> Seq<char> {
    match g {
        Some(s) => s@,
        None => "-"@,
    }
}

/// The right-aligned count columns of a repository row.
pub open spec fn count_cols_s(errors: Seq<char>, warnings: Seq<char>, info: Seq<char>) -> Seq<char> {
    " "@ + pad_left_s(errors, 6) + " "@ + pad_left_s(warnings, 6) + " "@ + pad_left_s(info, 6)
}

/// A row of the repository table, its columns padded as the header's.
pub open spec fn row_s(
    name: Seq<char>,
    group: Seq<char>,
    errors: Seq<char>,
    warnings: Seq<char>,
    info: Seq<char>,
    status: Seq<char>,
) -> Seq<char> {
    "  "@ + pad_right_s(name, 25) + " "@ + pad_right_s(group, 15) + count_cols_s(errors, warnings, info)
        + "  "@ + status + "\n"@
}

pub open spec fn repo_row_s(r: RepoScanResult, no_color: bool) -> Seq<char> {
    row_s(
        r.name@,
        group_text_s(r.group),
        decimal_s(r.errors as nat),
        decimal_s(r.warnings as nat),
        decimal_s(r.info as nat),
        status_s(r, no_color),
    )
}

pub open spec fn repo_rows_s(rs: Seq<RepoScanResult>, no_color: bool) -> Seq<char>
    decreases rs.len(),
{
    if rs.len() == 0 {
        Seq::empty()
    } else {
        repo_rows_s(rs.drop_last(), no_color) + repo_row_s(rs.last(), no_color)
    }
}

pub open spec fn entry_lines_s(es: Seq<DriftEntry>) -> Seq<char>
    decreases es.len(),
{
    if es.len() == 0 {
        Seq::empty()
    } else {
        let e = es.last();
        entry_lines_s(es.drop_last()) + "    "@ + e.repo@ + " => "@ + e.value@ + " ("@ + e.file@ + ")\n"@
    }
}

pub open spec fn drift_blocks_s(ds: Seq<CrossRepoDrift>) -> Seq<char>
    decreases ds.len(),
{
    if ds.len() == 0 {
        Seq::empty()
    } else {
        let d = ds.last();
        drift_blocks_s(ds.drop_last()) + "  "@ + d.concept_id@ + " [group: "@ + d.group@ + "]\n"@
            + entry_lines_s(d.entries@) + "\n"@
    }
}

/// The drift section, present when there is drift.
pub open spec fn drift_section_s(ds: Seq<CrossRepoDrift>, no_color: bool) -> Seq<char> {
    if ds.len() == 0 {
        Seq::empty()
    } else {
        let title = "Cross-repository drift ("@ + decimal_s(ds.len()) + " concept(s))"@;
        (if no_color {
            title + ":\n\n"@
        } else {
            fg_s("31"@, title) + ":\n\n"@
        }) + drift_blocks_s(ds)
    }
}

pub open spec fn summary_line_s(s: FederationSummary, no_color: bool) -> Seq<char> {
    (if no_color {
        "Summary"@
    } else {
        bold_s("Summary"@)
    }) + ": "@ + decimal_s(s.repos_scanned as nat) + " repo(s) scanned, "@ + decimal_s(
        s.total_errors as nat,
    ) + " error(s), "@ + decimal_s(s.total_warnings as nat) + " warning(s), "@ + decimal_s(
        s.cross_repo_drifts as nat,
    ) + " cross-repo drift(s)\n"@
}

/// The text of the terminal report of a federation.
pub open spec fn federation_report_s(rep: FederationReport, no_color: bool) -> Seq<char> {
    let sep = repeat_s('-', 85);
    "conflic v"@ + PKG_VERSION@ + " - federation report\n\n"@ + row_s(
        "Repository"@,
        "Group"@,
        "Errors"@,
        "Warns"@,
        "Info"@,
        "Status"@,
    ) + (if no_color {
        sep
    } else {
        dimmed_s(sep)
    }) + "\n"@ + repo_rows_s(rep.repo_results@, no_color) + "\n"@ + drift_section_s(
        rep.cross_repo_drift@,
        no_color,
    ) + summary_line_s(rep.summary, no_color)
}

fn push_tint(out: &mut String, t: &str, code: u8, no_color: bool)
    requires
        code == 31 || code == 32 || code == 33,
    ensures
        final(out)@ == old(out)@ + tint_s(
            t@,
            if code == 31 {
                "31"@
            } else if code == 32 {
                "32"@
            } else {
                "33"@
            },
            no_color,
        ),
{
    if no_color {
        push_str(out, t);
    } else if code == 31 {
        let c = red(t);
        push_str(out, c.as_str());
    } else if code == 32 {
        let c = green(t);
        push_str(out, c.as_str());
    } else {
        let c = yellow(t);
        push_str(out, c.as_str());
    }
}

fn status_text(r: &RepoScanResult, no_color: bool) -> (s: String)
    ensures
        s@ == status_s(*r, no_color),
{
    let mut out = String::new();
    match &r.scan_error {
        Some(err) => {
            let mut t = String::from_str("FAILED: ");
            push_str(&mut t, err.as_str());
            push_tint(&mut out, t.as_str(), 31, no_color);
        },
        None => {
            if r.errors > 0 {
                push_tint(&mut out, "HAS ERRORS", 31, no_color);
            } else if r.warnings > 0 {
                push_tint(&mut out, "HAS WARNINGS", 33, no_color);
            } else {
                push_tint(&mut out, "OK", 32, no_color);
            }
        },
    }
    assert(out@ =~= status_s(*r, no_color));
    out
}

fn push_count_cols(out: &mut String, errors: &str, warnings: &str, info: &str)
    ensures
        final(out)@ == old(out)@ + count_cols_s(errors@, warnings@, info@),
{
    push_str(out, " ");
    push_pad_left(out, errors, 6);
    push_str(out, " ");
    push_pad_left(out, warnings, 6);
    push_str(out, " ");
    push_pad_left(out, info, 6);
    assert(final(out)@ =~= old(out)@ + count_cols_s(errors@, warnings@, info@));
}

fn push_row(out: &mut String, name: &str, group: &str, errors: &str, warnings: &str, info: &str, status: &str)
    ensures
        final(out)@ == old(out)@ + row_s(name@, group@, errors@, warnings@, info@, status@),
{
    push_str(out, "  ");
    push_pad_right(out, name, 25);
    push_str(out, " ");
    push_pad_right(out, group, 15);
    push_count_cols(out, errors, warnings, info);
    push_str(out, "  ");
    push_str(out, status);
    push_str(out, "\n");
    assert(final(out)@ =~= old(out)@ + row_s(name@, group@, errors@, warnings@, info@, status@));
}

fn decimal_text(n: usize) -> (s: String)
    ensures
        s@ == decimal_s(n as nat),
{
    let d = decimal_chars(n as u64);
    from_chars(d.as_slice())
}

fn push_repo_row(out: &mut String, r: &RepoScanResult, no_color: bool)
    ensures
        final(out)@ == old(out)@ + repo_row_s(*r, no_color),
{
    let group = match &r.group {
        Some(g) => g.clone(),
        None => String::from_str("-"),
    };
    let errors = decimal_text(r.errors);
    let warnings = decimal_text(r.warnings);
    let info = decimal_text(r.info);
    let status = status_text(r, no_color);
    push_row(
        out,
        r.name.as_str(),
        group.as_str(),
        errors.as_str(),
        warnings.as_str(),
        info.as_str(),
        status.as_str(),
    );
}

fn push_drift_block(out: &mut String, d: &CrossRepoDrift)
    ensures
        final(out)@ == old(out)@ + "  "@ + d.concept_id@ + " [group: "@ + d.group@ + "]\n"@
            + entry_lines_s(d.entries@) + "\n"@,
{
    push_str(out, "  ");
    push_str(out, d.concept_id.as_str());
    push_str(out, " [group: ");
    push_str(out, d.group.as_str());
    push_str(out, "]\n");
    let ghost head = out@;
    let mut j: usize = 0;
    while j < d.entries.len()
        invariant
            j <= d.entries.len(),
            out@ == head + entry_lines_s(d.entries@.take(j as int)),
        decreases d.entries.len() - j,
    {
        let e = &d.entries[j];
        proof {
            assert(d.entries@.take(j + 1).drop_last() == d.entries@.take(j as int));
            assert(d.entries@.take(j + 1).last() == d.entries@[j as int]);
        }
        push_str(out, "    ");
        push_str(out, e.repo.as_str());
        push_str(out, " => ");
        push_str(out, e.value.as_str());
        push_str(out, " (");
        push_str(out, e.file.as_str());
        push_str(out, ")\n");
        j = j + 1;
    }
    assert(d.entries@.take(d.entries.len() as int) == d.entries@);
    push_str(out, "\n");
}

fn push_drift_section(out: &mut String, ds: &Vec<CrossRepoDrift>, no_color: bool)
    ensures
        final(out)@ == old(out)@ + drift_section_s(ds@, no_color),
{
    if ds.len() == 0 {
        assert(old(out)@ + drift_section_s(ds@, no_color) =~= old(out)@);
        return;
    }
    let ghost start = out@;
    let mut title = String::from_str("Cross-repository drift (");
    push_decimal(&mut title, ds.len() as u64);
    push_str(&mut title, " concept(s))");
    if no_color {
        push_str(out, title.as_str());
    } else {
        let t = red(title.as_str());
        push_str(out, t.as_str());
    }
    push_str(out, ":\n\n");
    let ghost head = out@;
    let mut k: usize = 0;
    while k < ds.len()
        invariant
            k <= ds.len(),
            out@ == head + drift_blocks_s(ds@.take(k as int)),
        decreases ds.len() - k,
    {
        proof {
            assert(ds@.take(k + 1).drop_last() == ds@.take(k as int));
            assert(ds@.take(k + 1).last() == ds@[k as int]);
        }
        push_drift_block(out, &ds[k]);
        k = k + 1;
    }
    assert(ds@.take(ds.len() as int) == ds@);
    assert(out@ =~= start + drift_section_s(ds@, no_color));
}

fn push_summary_line(out: &mut String, s: &FederationSummary, no_color: bool)
    ensures
        final(out)@ == old(out)@ + summary_line_s(*s, no_color),
{
    if no_color {
        push_str(out, "Summary");
    } else {
        let b = bold("Summary");
        push_str(out, b.as_str());
    }
    push_str(out, ": ");
    push_decimal(out, s.repos_scanned as u64);
    push_str(out, " repo(s) scanned, ");
    push_decimal(out, s.total_errors as u64);
    push_str(out, " error(s), ");
    push_decimal(out, s.total_warnings as u64);
    push_str(out, " warning(s), ");
    push_decimal(out, s.cross_repo_drifts as u64);
    push_str(out, " cross-repo drift(s)\n");
    assert(final(out)@ =~= old(out)@ + summary_line_s(*s, no_color));
}

/// Render a federation report for terminal output: a table of the
/// repositories, the drift found, and the summary.
pub fn render_federation_report(report: &FederationReport, no_color: bool) -> (r: String)
    ensures
        r@ == federation_report_s(*report, no_color),
{
    let mut out = String::new();
    push_str(&mut out, "conflic v");
    push_str(&mut out, PKG_VERSION);
    push_str(&mut out, " - federation report\n\n");
    push_row(&mut out, "Repository", "Group", "Errors", "Warns", "Info", "Status");
    let sep = repeat_char('-', 85);
    if no_color {
        push_str(&mut out, sep.as_str());
    } else {
        let d = dimmed(sep.as_str());
        push_str(&mut out, d.as_str());
    }
    push_str(&mut out, "\n");
    let ghost head = out@;
    let rs = &report.repo_results;
    let mut i: usize = 0;
    while i < rs.len()
        invariant
            i <= rs.len(),
            rs == &report.repo_results,
            out@ == head + repo_rows_s(rs@.take(i as int), no_color),
        decreases rs.len() - i,
    {
        proof {
            assert(rs@.take(i + 1).drop_last() == rs@.take(i as int));
            assert(rs@.take(i + 1).last() == rs@[i as int]);
        }
        push_repo_row(&mut out, &rs[i], no_color);
        i = i + 1;
    }
    assert(rs@.take(rs.len() as int) == rs@);
    push_str(&mut out, "\n");
    push_drift_section(&mut out, &report.cross_repo_drift, no_color);
    push_summary_line(&mut out, &report.summary, no_color);
    assert(out@ =~= federation_report_s(*report, no_color));
    out
}

// ---------------------------------------------------------------------
// Laws of cross-repository drift
// ---------------------------------------------------------------------

/// The keys ascend strictly.
pub open spec fn keys_ascending(ks: Seq<(Seq<char>, Seq<char>)>) -> bool {
    forall|i: int, j: int| 0 <= i < j < ks.len() ==> key_lt(#[trigger] ks[i], #[trigger] ks[j])
}

proof fn lemma_key_lt_trans(a: (Seq<char>, Seq<char>), b: (Seq<char>, Seq<char>), c: (Seq<char>, Seq<char>))
    requires
        key_lt(a, b),
        key_lt(b, c),
    ensures
        key_lt(a, c),
{
    if seq_lt(a.0, b.0) && seq_lt(b.0, c.0) {
        crate::text::lemma_seq_lt_trans(a.0, b.0, c.0);
    } else if seq_lt(a.0, b.0) {
    } else if seq_lt(b.0, c.0) {
    } else {
        crate::text::lemma_seq_lt_trans(a.1, b.1, c.1);
    }
}

proof fn lemma_insert_key_props(s: Seq<(Seq<char>, Seq<char>)>, x: (Seq<char>, Seq<char>))
    requires
        keys_ascending(s),
    ensures
        keys_ascending(insert_key(s, x)),
        forall|y: (Seq<char>, Seq<char>)| #[trigger] insert_key(s, x).contains(y) <==> (s.contains(y) || y == x),
    decreases s.len(),
{
    let r = insert_key(s, x);
    if s.len() == 0 {
        assert forall|y: (Seq<char>, Seq<char>)| r.contains(y) <==> (s.contains(y) || y == x) by {
            if r.contains(y) {
                assert(r[0] == y);
            }
            if y == x {
                assert(r[0] == x);
            }
        }
    } else if x == s[0] {
        assert forall|y: (Seq<char>, Seq<char>)| r.contains(y) <==> (s.contains(y) || y == x) by {
            if y == x {
                assert(s[0] == y);
            }
        }
    } else if key_lt(x, s[0]) {
        assert forall|i: int, j: int| 0 <= i < j < r.len() implies key_lt(#[trigger] r[i], #[trigger] r[j]) by {
            if i == 0 {
                assert(r[j] == s[j - 1]);
                if j - 1 > 0 {
                    lemma_key_lt_trans(x, s[0], s[j - 1]);
                }
            } else {
                assert(r[i] == s[i - 1]);
                assert(r[j] == s[j - 1]);
            }
        }
        assert forall|y: (Seq<char>, Seq<char>)| r.contains(y) <==> (s.contains(y) || y == x) by {
            if r.contains(y) {
                let k = choose|k: int| 0 <= k < r.len() && r[k] == y;
                if k > 0 {
                    assert(s[k - 1] == y);
                }
            }
            if s.contains(y) {
                let k = choose|k: int| 0 <= k < s.len() && s[k] == y;
                assert(r[k + 1] == y);
            }
            if y == x {
                assert(r[0] == x);
            }
        }
    } else {
        let t = s.drop_first();
        assert forall|i: int, j: int| 0 <= i < j < t.len() implies key_lt(#[trigger] t[i], #[trigger] t[j]) by {
            assert(t[i] == s[i + 1]);
            assert(t[j] == s[j + 1]);
        }
        lemma_insert_key_props(t, x);
        let rt = insert_key(t, x);
        lemma_key_lt_total(x, s[0]);
        assert(r == seq![s[0]] + rt);
        assert forall|i: int, j: int| 0 <= i < j < r.len() implies key_lt(#[trigger] r[i], #[trigger] r[j]) by {
            if i == 0 {
                assert(r[j] == rt[j - 1]);
                assert(rt.contains(rt[j - 1]));
                assert(insert_key(t, x).contains(rt[j - 1]));
                if rt[j - 1] == x {
                } else {
                    assert(t.contains(rt[j - 1]));
                    let k = choose|k: int| 0 <= k < t.len() && t[k] == rt[j - 1];
                    assert(t[k] == s[k + 1]);
                }
            } else {
                assert(r[i] == rt[i - 1]);
                assert(r[j] == rt[j - 1]);
            }
        }
        assert forall|y: (Seq<char>, Seq<char>)| r.contains(y) <==> (s.contains(y) || y == x) by {
            if r.contains(y) {
                let k = choose|k: int| 0 <= k < r.len() && r[k] == y;
                if k > 0 {
                    assert(rt[k - 1] == y);
                    assert(rt.contains(y));
                    if t.contains(y) {
                        let m = choose|m: int| 0 <= m < t.len() && t[m] == y;
                        assert(s[m + 1] == y);
                    }
                } else {
                    assert(s[0] == y);
                }
            }
            if s.contains(y) {
                let k = choose|k: int| 0 <= k < s.len() && s[k] == y;
                if k == 0 {
                    assert(r[0] == y);
                } else {
                    assert(t[k - 1] == y);
                    assert(rt.contains(y));
                    let m = choose|m: int| 0 <= m < rt.len() && rt[m] == y;
                    assert(r[m + 1] == y);
                }
            }
            if y == x {
                assert(rt.contains(x));
                let m = choose|m: int| 0 <= m < rt.len() && rt[m] == x;
                assert(r[m + 1] == x);
            }
        }
    }
}

proof fn lemma_drift_keys_props(xs: Seq<GroupAssertion>)
    ensures
        keys_ascending(drift_keys(xs)),
        forall|k: (Seq<char>, Seq<char>)|
            drift_keys(xs).contains(k) <==> exists|i: int| 0 <= i < xs.len() && key_of(#[trigger] xs[i]) == k,
    decreases xs.len(),
{
    if xs.len() > 0 {
        let init = xs.drop_last();
        lemma_drift_keys_props(init);
        lemma_insert_key_props(drift_keys(init), key_of(xs.last()));
        assert forall|k: (Seq<char>, Seq<char>)|
            drift_keys(xs).contains(k) <==> exists|i: int| 0 <= i < xs.len() && key_of(#[trigger] xs[i]) == k by {
            if drift_keys(init).contains(k) {
                let i = choose|i: int| 0 <= i < init.len() && key_of(#[trigger] init[i]) == k;
                assert(xs[i] == init[i]);
            }
            if exists|i: int| 0 <= i < xs.len() && key_of(#[trigger] xs[i]) == k {
                let i = choose|i: int| 0 <= i < xs.len() && key_of(#[trigger] xs[i]) == k;
                if i < xs.len() - 1 {
                    assert(init[i] == xs[i]);
                }
            }
        }
    } else {
        assert forall|k: (Seq<char>, Seq<char>)| !drift_keys(xs).contains(k) by {}
    }
}

proof fn lemma_best_without_key(xs: Seq<GroupAssertion>, k: (Seq<char>, Seq<char>))
    requires
        forall|i: int| 0 <= i < xs.len() ==> key_of(#[trigger] xs[i]) != k,
    ensures
        best_per_repo(xs, k).len() == 0,
    decreases xs.len(),
{
    if xs.len() > 0 {
        let init = xs.drop_last();
        assert forall|i: int| 0 <= i < init.len() implies key_of(#[trigger] init[i]) != k by {
            assert(init[i] == xs[i]);
        }
        lemma_best_without_key(init, k);
        assert(key_of(xs[xs.len() - 1]) != k);
    }
}

proof fn lemma_drifts_for_members(xs: Seq<GroupAssertion>, ks: Seq<(Seq<char>, Seq<char>)>)
    ensures
        forall|j: int|
            0 <= j < drifts_for(xs, ks).len() ==> ks.contains((drifts_for(xs, ks)[j].0, drifts_for(xs, ks)[j].1))
                && has_drift(best_per_repo(xs, (#[trigger] drifts_for(xs, ks)[j].0, drifts_for(xs, ks)[j].1)))
                && drifts_for(xs, ks)[j].2 == entries_of(
                best_per_repo(xs, (drifts_for(xs, ks)[j].0, drifts_for(xs, ks)[j].1)),
            ),
        forall|k: (Seq<char>, Seq<char>)|
            ks.contains(k) && has_drift(best_per_repo(xs, k)) ==> exists|j: int|
                0 <= j < drifts_for(xs, ks).len() && (#[trigger] drifts_for(xs, ks)[j]).0 == k.0
                    && drifts_for(xs, ks)[j].1 == k.1,
    decreases ks.len(),
{
    if ks.len() > 0 {
        let init = ks.drop_last();
        lemma_drifts_for_members(xs, init);
        let d0 = drifts_for(xs, init);
        let d = drifts_for(xs, ks);
        let k = ks.last();
        assert forall|j: int| 0 <= j < d.len() implies ks.contains((d[j].0, d[j].1)) && has_drift(
            best_per_repo(xs, (#[trigger] d[j].0, d[j].1)),
        ) && d[j].2 == entries_of(best_per_repo(xs, (d[j].0, d[j].1))) by {
            if j < d0.len() {
                assert(d[j] == d0[j]);
                let m = choose|m: int| 0 <= m < init.len() && init[m] == (d0[j].0, d0[j].1);
                assert(ks[m] == init[m]);
            } else {
                assert(d[j] == (k.0, k.1, entries_of(best_per_repo(xs, k))));
                assert(ks[ks.len() - 1] == k);
                assert((k.0, k.1) == k);
            }
        }
        assert forall|q: (Seq<char>, Seq<char>)|
            ks.contains(q) && has_drift(best_per_repo(xs, q)) implies exists|j: int|
                0 <= j < d.len() && (#[trigger] d[j]).0 == q.0 && d[j].1 == q.1 by {
            let m = choose|m: int| 0 <= m < ks.len() && ks[m] == q;
            if m < ks.len() - 1 {
                assert(init[m] == q);
                assert(init.contains(q));
                let j = choose|j: int| 0 <= j < d0.len() && (#[trigger] d0[j]).0 == q.0 && d0[j].1 == q.1;
                assert(d[j] == d0[j]);
            } else {
                assert(d[d0.len() as int] == (k.0, k.1, entries_of(best_per_repo(xs, k))));
            }
        }
    }
}

/// Two or more repositories of a group whose chosen values for a concept
/// differ are reported as drift of that concept in that group, and only
/// then; the entries are each repository's highest-authority value.
pub proof fn law_drift_iff_values_differ(xs: Seq<GroupAssertion>, group: Seq<char>, concept: Seq<char>)
    ensures
        (exists|j: int|
            0 <= j < cross_repo_drift_s(xs).len() && (#[trigger] cross_repo_drift_s(xs)[j]).0 == group
                && cross_repo_drift_s(xs)[j].1 == concept) <==> has_drift(best_per_repo(xs, (group, concept))),
        forall|j: int|
            0 <= j < cross_repo_drift_s(xs).len() && (#[trigger] cross_repo_drift_s(xs)[j]).0 == group
                && cross_repo_drift_s(xs)[j].1 == concept ==> cross_repo_drift_s(xs)[j].2 == entries_of(
                best_per_repo(xs, (group, concept)),
            ),
{
    let k = (group, concept);
    let ks = drift_keys(xs);
    lemma_drift_keys_props(xs);
    lemma_drifts_for_members(xs, ks);
    if !ks.contains(k) {
        assert forall|i: int| 0 <= i < xs.len() implies key_of(#[trigger] xs[i]) != k by {
            if key_of(xs[i]) == k {
                assert(exists|i: int| 0 <= i < xs.len() && key_of(#[trigger] xs[i]) == k);
            }
        }
        lemma_best_without_key(xs, k);
    }
    let d = cross_repo_drift_s(xs);
    assert forall|j: int| 0 <= j < d.len() && (#[trigger] d[j]).0 == group && d[j].1 == concept implies d[j].2
        == entries_of(best_per_repo(xs, k)) by {
        assert((d[j].0, d[j].1) == k);
    }
    if exists|j: int| 0 <= j < d.len() && (#[trigger] d[j]).0 == group && d[j].1 == concept {
        let j = choose|j: int| 0 <= j < d.len() && (#[trigger] d[j]).0 == group && d[j].1 == concept;
        assert((d[j].0, d[j].1) == k);
    }
}

proof fn lemma_drifts_for_ordered(xs: Seq<GroupAssertion>, ks: Seq<(Seq<char>, Seq<char>)>)
    requires
        keys_ascending(ks),
    ensures
        forall|i: int, j: int|
            0 <= i < j < drifts_for(xs, ks).len() ==> key_lt(
                (#[trigger] drifts_for(xs, ks)[i].0, drifts_for(xs, ks)[i].1),
                (#[trigger] drifts_for(xs, ks)[j].0, drifts_for(xs, ks)[j].1),
            ),
    decreases ks.len(),
{
    if ks.len() > 0 {
        let init = ks.drop_last();
        assert forall|i: int, j: int| 0 <= i < j < init.len() implies key_lt(#[trigger] init[i], #[trigger] init[j]) by {
            assert(init[i] == ks[i] && init[j] == ks[j]);
        }
        lemma_drifts_for_ordered(xs, init);
        lemma_drifts_for_members(xs, init);
        let d0 = drifts_for(xs, init);
        let d = drifts_for(xs, ks);
        let k = ks.last();
        assert forall|i: int, j: int| 0 <= i < j < d.len() implies key_lt(
            (#[trigger] d[i].0, d[i].1),
            (#[trigger] d[j].0, d[j].1),
        ) by {
            assert(d[i] == d0[i]);
            if j < d0.len() {
                assert(d[j] == d0[j]);
            } else {
                assert(d[j] == (k.0, k.1, entries_of(best_per_repo(xs, k))));
                assert(init.contains((d0[i].0, d0[i].1)));
                let m = choose|m: int| 0 <= m < init.len() && init[m] == (d0[i].0, d0[i].1);
                assert(ks[m] == init[m]);
                assert(ks[ks.len() - 1] == k);
                assert(key_lt(ks[m], ks[ks.len() - 1]));
            }
        }
    }
}

/// The drifts come in ascending order of group, then concept, each
/// (group, concept) once.
pub proof fn law_drifts_ordered(xs: Seq<GroupAssertion>)
    ensures
        forall|i: int, j: int|
            0 <= i < j < cross_repo_drift_s(xs).len() ==> key_lt(
                (#[trigger] cross_repo_drift_s(xs)[i].0, cross_repo_drift_s(xs)[i].1),
                (#[trigger] cross_repo_drift_s(xs)[j].0, cross_repo_drift_s(xs)[j].1),
            ),
{
    lemma_drift_keys_props(xs);
    lemma_drifts_for_ordered(xs, drift_keys(xs));
}

/// A repository counts once among those with errors, so no more
/// repositories have errors than were scanned.
pub proof fn law_failed_at_most_scanned(rs: Seq<RepoScanResult>)
    ensures
        failed_count(rs) <= rs.len(),
{
    lemma_failed_count_bounded(rs);
}

} // verus!
