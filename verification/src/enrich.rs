//! Lifecycle metadata (end-of-life dates) of runtime versions.
use vstd::prelude::*;
use vstd::string::*;
use crate::model::semantic_type::VersionView;
use crate::model::{ConfigAssertion, SemanticType, VersionSpec};
use crate::pathing::{path_join, path_join_s};
use crate::text::{decimal_s, push_decimal};
use crate::text::{ends_with_chars, ends_with_s, lemma_split_len, parse_i64_s, parse_uint, parse_uint_s, slice_chars, split_chars, split_s, starts_with_chars, starts_with_s, to_chars, trim_chars, trim_s, vv, from_chars, trim_end_matches_s, seq_lt, str_eq};

verus! {

/// Metadata enrichment for a config assertion.
#[derive(Debug, Clone, Default)]
pub struct AssertionMetadata {
    /// End-of-life date as ISO string (YYYY-MM-DD), if known.
    pub eol_date: Option<String>,
    /// Whether this version is deprecated.
    pub deprecated: bool,
    /// Latest stable version in this cycle, if known.
    pub latest_stable: Option<String>,
    /// Whether the version is LTS.
    pub lts: bool,
}

/// Lifecycle data for a single version cycle.
#[derive(Debug, Clone)]
pub struct VersionLifecycle {
    /// The version cycle identifier (e.g. "18", "20", "3.12").
    pub cycle: String,
    /// Release date (ISO 8601).
    pub release_date: Option<String>,
    /// End-of-life date (ISO 8601).
    pub eol_date: Option<String>,
    /// Whether this is an LTS release.
    pub lts: bool,
    /// Latest patch version in this cycle.
    pub latest_patch: Option<String>,
}

/// The registry database: lifecycle entries per concept family.
#[derive(Debug, Clone, Default)]
pub struct RegistryDb {
    /// Concept family (e.g. "node", "python") and its lifecycle entries;
    /// a lookup reads the first entry of a family.
    pub families: Vec<(String, Vec<VersionLifecycle>)>,
    /// ISO timestamp when the data was last updated.
    pub updated_at: Option<String>,
}

/// The characters of an optional string.
pub open spec fn opt_view(o: Option<String>) -> Option<Seq<char>> {
    match o {
        Some(s) => Some(s@),
        None => None,
    }
}

impl VersionLifecycle {
    /// The lifecycle has exactly these fields.
    pub open spec fn is(
        self,
        cycle: Seq<char>,
        release: Seq<char>,
        eol: Seq<char>,
        lts: bool,
        latest: Seq<char>,
    ) -> bool {
        &&& self.cycle@ == cycle
        &&& opt_view(self.release_date) == Some(release)
        &&& opt_view(self.eol_date) == Some(eol)
        &&& self.lts == lts
        &&& opt_view(self.latest_patch) == Some(latest)
    }

    fn make(cycle: &str, release: &str, eol: &str, lts: bool, latest: &str) -> (r: Self)
        ensures
            r.is(cycle@, release@, eol@, lts, latest@),
    {
        VersionLifecycle {
            cycle: String::from_str(cycle),
            release_date: Some(String::from_str(release)),
            eol_date: Some(String::from_str(eol)),
            lts,
            latest_patch: Some(String::from_str(latest)),
        }
    }
}

impl RegistryDb {
    /// The family names, in order.
    pub open spec fn family_names(self) -> Seq<Seq<char>> {
        self.families@.map_values(|e: (String, Vec<VersionLifecycle>)| e.0@)
    }

    /// Whether the registry holds the family `name`.
    pub fn contains_family(&self, name: &str) -> (r: bool)
        ensures
            r == self.family_names().contains(name@),
    {
        match self.family(name) {
            Some(_) => true,
            None => false,
        }
    }

    /// The lifecycle entries of the first family called `name`.
    pub fn family(&self, name: &str) -> (r: Option<&Vec<VersionLifecycle>>)
        ensures
            r is None <==> !self.family_names().contains(name@),
            r matches Some(v) ==> exists|i: int|
                0 <= i < self.families@.len() && self.families@[i].0@ == name@ && *v
                    == self.families@[i].1 && forall|j: int| 0 <= j < i ==> self.families@[j].0@ != name@,
    {
        let mut i: usize = 0;
        while i < self.families.len()
            invariant
                i <= self.families.len(),
                forall|j: int| 0 <= j < i ==> self.families@[j].0@ != name@,
            decreases self.families.len() - i,
        {
            if str_eq_string(&self.families[i].0, name) {
                assert(self.family_names()[i as int] == name@);
                return Some(&self.families[i].1);
            }
            i = i + 1;
        }
        assert forall|j: int| 0 <= j < self.family_names().len() implies self.family_names()[j]
            != name@ by {
            assert(self.family_names()[j] == self.families@[j].0@);
        }
        None
    }
}

fn str_eq_string(a: &String, b: &str) -> (r: bool)
    ensures
        r == (a@ == b@),
{
    crate::text::str_eq(a.as_str(), b)
}

/// The lifecycle data built into the library: Node.js 16 to 22 and Python 3.8 to 3.13.
pub open spec fn is_builtin_registry(db: RegistryDb) -> bool {
    let f = db.families@;
    &&& f.len() == 2
    &&& f[0].0@ == "node"@
    &&& f[0].1@.len() == 4
    &&& f[0].1@[0].is("16"@, "2021-04-20"@, "2023-09-11"@, true, "16.20.2"@)
    &&& f[0].1@[1].is("18"@, "2022-04-19"@, "2025-04-30"@, true, "18.20.4"@)
    &&& f[0].1@[2].is("20"@, "2023-04-18"@, "2026-04-30"@, true, "20.18.0"@)
    &&& f[0].1@[3].is("22"@, "2024-04-24"@, "2027-04-30"@, true, "22.11.0"@)
    &&& f[1].0@ == "python"@
    &&& f[1].1@.len() == 6
    &&& f[1].1@[0].is("3.8"@, "2019-10-14"@, "2024-10-07"@, false, "3.8.20"@)
    &&& f[1].1@[1].is("3.9"@, "2020-10-05"@, "2025-10-05"@, false, "3.9.21"@)
    &&& f[1].1@[2].is("3.10"@, "2021-10-04"@, "2026-10-04"@, false, "3.10.16"@)
    &&& f[1].1@[3].is("3.11"@, "2022-10-24"@, "2027-10-24"@, false, "3.11.11"@)
    &&& f[1].1@[4].is("3.12"@, "2023-10-02"@, "2028-10-02"@, false, "3.12.8"@)
    &&& f[1].1@[5].is("3.13"@, "2024-10-07"@, "2029-10-07"@, false, "3.13.1"@)
    &&& opt_view(db.updated_at) == Some("2025-01-01T00:00:00Z"@)
}

/// Build the built-in registry database with known EOL dates for common runtimes,
/// the fallback when no cache file is present.
pub fn builtin_registry() -> (r: RegistryDb)
    ensures
        is_builtin_registry(r),
{
    let mut node: Vec<VersionLifecycle> = Vec::new();
    node.push(VersionLifecycle::make("16", "2021-04-20", "2023-09-11", true, "16.20.2"));
    node.push(VersionLifecycle::make("18", "2022-04-19", "2025-04-30", true, "18.20.4"));
    node.push(VersionLifecycle::make("20", "2023-04-18", "2026-04-30", true, "20.18.0"));
    node.push(VersionLifecycle::make("22", "2024-04-24", "2027-04-30", true, "22.11.0"));
    let mut python: Vec<VersionLifecycle> = Vec::new();
    python.push(VersionLifecycle::make("3.8", "2019-10-14", "2024-10-07", false, "3.8.20"));
    python.push(VersionLifecycle::make("3.9", "2020-10-05", "2025-10-05", false, "3.9.21"));
    python.push(VersionLifecycle::make("3.10", "2021-10-04", "2026-10-04", false, "3.10.16"));
    python.push(VersionLifecycle::make("3.11", "2022-10-24", "2027-10-24", false, "3.11.11"));
    python.push(VersionLifecycle::make("3.12", "2023-10-02", "2028-10-02", false, "3.12.8"));
    python.push(VersionLifecycle::make("3.13", "2024-10-07", "2029-10-07", false, "3.13.1"));
    let mut families: Vec<(String, Vec<VersionLifecycle>)> = Vec::new();
    families.push((String::from_str("node"), node));
    families.push((String::from_str("python"), python));
    RegistryDb { families, updated_at: Some(String::from_str("2025-01-01T00:00:00Z")) }
}

/// The registry family of a concept: the id without its trailing `-version`
/// (`node-version` is `node`, `python-version` is `python`).
pub open spec fn concept_family_s(concept_id: Seq<char>) -> Seq<char> {
    trim_end_matches_s(concept_id, "-version"@)
}

/// Map concept ID to a registry family name.
pub fn concept_to_family(concept_id: &str) -> (r: String)
    ensures
        r@ == concept_family_s(concept_id@),
{
    let s = to_chars(concept_id);
    let p = to_chars("-version");
    let mut end: usize = s.len();
    if p.len() == 0 {
        return from_chars(s.as_slice());
    }
    assert(s@.take(end as int) == s@);
    while end >= p.len() && ends_with_chars(slice_chars(s.as_slice(), 0, end).as_slice(), p.as_slice())
        invariant
            p@ == "-version"@,
            p.len() > 0,
            end <= s.len(),
            trim_end_matches_s(s@.take(end as int), p@) == concept_family_s(concept_id@),
            s@ == concept_id@,
        decreases end,
    {
        assert(s@.take(end as int).take(end - p.len()) == s@.take(end - p.len()));
        end = end - p.len();
    }
    let head = slice_chars(s.as_slice(), 0, end);
    proof {
        assert(head@ == s@.take(end as int));
        if end < p.len() {
            assert(!ends_with_s(s@.take(end as int), p@));
        }
    }
    from_chars(head.as_slice())
}

/// The number of days in `eol-window >= N`, the EOL window rule syntax.
pub open spec fn eol_window_s(rule: Seq<char>) -> Option<nat> {
    let t = trim_s(rule);
    let kw = "eol-window"@;
    if starts_with_s(t, kw) {
        let rest = trim_s(t.skip(kw.len() as int));
        if starts_with_s(rest, ">="@) {
            parse_uint_s(trim_s(rest.skip(">="@.len() as int)), 0xffff_ffff)
        } else {
            None
        }
    } else {
        None
    }
}

/// Parse "eol-window >= N" rule syntax. Returns the number of days.
pub fn parse_eol_window_rule(rule: &str) -> (r: Option<u32>)
    ensures
        r == (match eol_window_s(rule@) {
            Some(v) => Some(v as u32),
            None => None::<u32>,
        }),
{
    let c = to_chars(rule);
    let t = trim_chars(c.as_slice());
    let kw = to_chars("eol-window");
    if !starts_with_chars(t.as_slice(), kw.as_slice()) {
        return None;
    }
    let rest0 = slice_chars(t.as_slice(), kw.len(), t.len());
    assert(rest0@ == t@.skip(kw@.len() as int));
    let rest = trim_chars(rest0.as_slice());
    let ge = to_chars(">=");
    if !starts_with_chars(rest.as_slice(), ge.as_slice()) {
        return None;
    }
    let rest1 = slice_chars(rest.as_slice(), ge.len(), rest.len());
    assert(rest1@ == rest@.skip(ge@.len() as int));
    let n = trim_chars(rest1.as_slice());
    match parse_uint(n.as_slice(), 0xffff_ffff) {
        Some(v) => Some(v as u32),
        None => None,
    }
}

/// Approximate day number of an ISO date `YYYY-MM-DD`: `year * 365 + month * 30 + day`.
pub open spec fn date_days_s(date: Seq<char>) -> Option<int> {
    let parts = split_s(date, '-');
    if parts.len() != 3 {
        None
    } else {
        match (parse_i64_s(parts[0]), parse_i64_s(parts[1]), parse_i64_s(parts[2])) {
            (Some(y), Some(m), Some(d)) => Some(y * 365 + m * 30 + d),
            _ => None,
        }
    }
}

/// The day number of a date fits the 64-bit arithmetic that computes it.
pub open spec fn date_fits(date: Seq<char>) -> bool {
    date_days_s(date) matches Some(v) ==> v <= i64::MAX
}

/// A piece of a date: unsigned, since `-` separates the pieces.
proof fn lemma_date_piece(p: Seq<char>)
    requires
        !p.contains('-'),
    ensures
        parse_i64_s(p) == (match parse_uint_s(p, 0x7fff_ffff_ffff_ffff) {
            Some(v) => Some(v as int),
            None => None,
        }),
{
    if p.len() > 0 {
        assert(p[0] != '-');
    }
}

proof fn lemma_split_pieces_no_sep(s: Seq<char>, c: char)
    ensures
        forall|i: int| 0 <= i < split_s(s, c).len() ==> !(#[trigger] split_s(s, c)[i]).contains(c),
    decreases s.len(),
{
    if s.len() > 0 {
        lemma_split_pieces_no_sep(s.drop_last(), c);
        lemma_split_len(s.drop_last(), c);
        let init = split_s(s.drop_last(), c);
        if s.last() != c {
            let last = init.last();
            assert(!last.contains(c));
            assert forall|j: int| 0 <= j < last.push(s.last()).len() implies #[trigger] last.push(
                s.last(),
            )[j] != c by {
                if j < last.len() {
                    assert(last.push(s.last())[j] == last[j]);
                }
            }
            assert forall|i: int| 0 <= i < split_s(s, c).len() implies !(#[trigger] split_s(
                s,
                c,
            )[i]).contains(c) by {
                if i < init.len() - 1 {
                    assert(split_s(s, c)[i] == init[i]);
                }
            }
        } else {
            assert forall|i: int| 0 <= i < split_s(s, c).len() implies !(#[trigger] split_s(
                s,
                c,
            )[i]).contains(c) by {
                if i < init.len() {
                    assert(split_s(s, c)[i] == init[i]);
                } else {
                    assert(split_s(s, c)[i] == Seq::<char>::empty());
                }
            }
        }
    }
}

/// Parse an ISO date string to days since epoch (approximate, for comparison).
pub fn parse_date_to_days(date: &str) -> (r: Option<i64>)
    requires
        date_fits(date@),
    ensures
        r == (match date_days_s(date@) {
            Some(v) => Some(v as i64),
            None => None::<i64>,
        }),
{
    let c = to_chars(date);
    let parts = split_chars(c.as_slice(), '-');
    if parts.len() != 3 {
        return None;
    }
    let ghost ps = split_s(date@, '-');
    proof {
        lemma_split_pieces_no_sep(date@, '-');
        assert(!ps[0].contains('-'));
        assert(!ps[1].contains('-'));
        assert(!ps[2].contains('-'));
        lemma_date_piece(ps[0]);
        lemma_date_piece(ps[1]);
        lemma_date_piece(ps[2]);
        assert(vv(parts@)[0] == parts@[0]@);
        assert(vv(parts@)[1] == parts@[1]@);
        assert(vv(parts@)[2] == parts@[2]@);
    }
    let y = match parse_uint(parts[0].as_slice(), 0x7fff_ffff_ffff_ffff) {
        Some(v) => v,
        None => return None,
    };
    let m = match parse_uint(parts[1].as_slice(), 0x7fff_ffff_ffff_ffff) {
        Some(v) => v,
        None => return None,
    };
    let d = match parse_uint(parts[2].as_slice(), 0x7fff_ffff_ffff_ffff) {
        Some(v) => v,
        None => return None,
    };
    proof {
        assert(y as int * 365 + m as int * 30 + d as int <= i64::MAX);
        assert(y * 365 <= i64::MAX) by (nonlinear_arith)
            requires
                y as int * 365 + m as int * 30 + d as int <= i64::MAX,
                m >= 0,
                d >= 0,
        ;
        assert(m * 30 <= i64::MAX) by (nonlinear_arith)
            requires
                y as int * 365 + m as int * 30 + d as int <= i64::MAX,
                y >= 0,
                d >= 0,
        ;
    }
    let yy = y as i64;
    let mm = m as i64;
    let dd = d as i64;
    Some(yy * 365 + mm * 30 + dd)
}

/// Compute the number of days between two ISO dates (YYYY-MM-DD).
/// Returns None if either date cannot be parsed.
/// Positive means `to` is in the future, negative means in the past.
pub fn days_between(from: &str, to: &str) -> (r: Option<i64>)
    requires
        date_fits(from@),
        date_fits(to@),
    ensures
        r == (match (date_days_s(from@), date_days_s(to@)) {
            (Some(f), Some(t)) => Some((t - f) as i64),
            _ => None::<i64>,
        }),
{
    let f = match parse_date_to_days(from) {
        Some(v) => v,
        None => return None,
    };
    let t = match parse_date_to_days(to) {
        Some(v) => v,
        None => return None,
    };
    proof {
        lemma_date_days_nonneg(from@);
        lemma_date_days_nonneg(to@);
    }
    Some(t - f)
}

/// Day numbers are never negative: no piece of a date carries a sign `-`.
pub proof fn lemma_date_days_nonneg(date: Seq<char>)
    ensures
        date_days_s(date) matches Some(v) ==> v >= 0,
{
    lemma_split_pieces_no_sep(date, '-');
    let ps = split_s(date, '-');
    if ps.len() == 3 {
        assert(!ps[0].contains('-'));
        assert(!ps[1].contains('-'));
        assert(!ps[2].contains('-'));
        lemma_date_piece(ps[0]);
        lemma_date_piece(ps[1]);
        lemma_date_piece(ps[2]);
    }
}

// ---------------------------------------------------------------------
// The registry cache file
// ---------------------------------------------------------------------

/// The project-local cache file of a scan root.
pub open spec fn local_cache_path_s(scan_root: Seq<char>) -> Seq<char> {
    path_join_s(scan_root, ".conflic-registry-cache.json"@)
}

/// The cache file in a home directory.
pub open spec fn home_cache_path_s(home: Seq<char>) -> Seq<char> {
    path_join_s(path_join_s(home, ".conflic"@), "registry-cache.json"@)
}

/// The cache files to look for, in order: the project-local one, then the
/// one in the home directory when there is one.
pub fn cache_path_candidates(scan_root: &str, home: Option<&str>) -> (r: (String, Option<String>))
    ensures
        r.0@ == local_cache_path_s(scan_root@),
        match home {
            Some(h) => r.1 matches Some(g) && g@ == home_cache_path_s(h@),
            None => r.1 is None,
        },
{
    let local = path_join(scan_root, ".conflic-registry-cache.json");
    let global = match home {
        Some(h) => {
            let dir = path_join(h, ".conflic");
            Some(path_join(dir.as_str(), "registry-cache.json"))
        },
        None => None,
    };
    (local, global)
}

/// Resolve the cache file path: the project-local file if it exists, else
/// the home directory's if it exists, else the project-local path.
pub fn resolve_cache_path(scan_root: &str, home: Option<&str>, local_exists: bool, home_exists: bool) -> (r: String)
    ensures
        r@ == (if !local_exists && home is Some && home_exists {
            home_cache_path_s(home->0@)
        } else {
            local_cache_path_s(scan_root@)
        }),
{
    let (local, global) = cache_path_candidates(scan_root, home);
    if local_exists {
        return local;
    }
    match global {
        Some(g) => if home_exists {
            g
        } else {
            local
        },
        None => local,
    }
}

/// The registry database of the cache: what the cache file held, or an
/// empty database when it could not be read.
pub fn load_cache(cached: Option<RegistryDb>) -> (r: RegistryDb)
    ensures
        match cached {
            Some(db) => r == db,
            None => r.families@.len() == 0 && r.updated_at is None,
        },
{
    match cached {
        Some(db) => db,
        None => RegistryDb { families: Vec::new(), updated_at: None },
    }
}

// ---------------------------------------------------------------------
// Lifecycle metadata of a version cycle
// ---------------------------------------------------------------------

/// The lifecycle entries of the first family called `name`, if any.
pub open spec fn family_entries(db: RegistryDb, name: Seq<char>) -> Option<Seq<VersionLifecycle>> {
    let f = db.families@;
    if exists|i: int| 0 <= i < f.len() && (#[trigger] f[i]).0@ == name {
        let i = choose|i: int|
            0 <= i < f.len() && (#[trigger] f[i]).0@ == name && forall|j: int| 0 <= j < i ==> (#[trigger] f[j]).0@ != name;
        Some(f[i].1@)
    } else {
        None
    }
}

/// The first lifecycle entry of the cycle, if any.
pub open spec fn cycle_entry(ls: Seq<VersionLifecycle>, cycle: Seq<char>) -> Option<VersionLifecycle> {
    if exists|i: int| 0 <= i < ls.len() && (#[trigger] ls[i]).cycle@ == cycle {
        let i = choose|i: int|
            0 <= i < ls.len() && (#[trigger] ls[i]).cycle@ == cycle && forall|j: int| 0 <= j < i ==> (#[trigger] ls[j]).cycle@ != cycle;
        Some(ls[i])
    } else {
        None
    }
}

/// A date string at or before `today` (compared as text, as ISO dates order).
pub open spec fn not_after_s(date: Seq<char>, today: Seq<char>) -> bool {
    date == today || seq_lt(date, today)
}

/// The metadata of a version cycle of a concept: the registry family's
/// entry for the cycle, deprecated once its end-of-life date is not after
/// `today`.
pub open spec fn cycle_metadata_ok(r: Option<AssertionMetadata>, concept_id: Seq<char>, cycle: Seq<char>, db: RegistryDb, today: Seq<char>) -> bool {
    match family_entries(db, concept_family_s(concept_id)) {
        None => r is None,
        Some(ls) => match cycle_entry(ls, cycle) {
            None => r is None,
            Some(lc) => r matches Some(m) && m.eol_date == lc.eol_date && m.latest_stable
                == lc.latest_patch && m.lts == lc.lts && m.deprecated == (match lc.eol_date {
                Some(eol) => not_after_s(eol@, today),
                None => false,
            }),
        },
    }
}

fn clone_opt(o: &Option<String>) -> (r: Option<String>)
    ensures
        r == *o,
{
    match o {
        Some(s) => Some(s.clone()),
        None => None,
    }
}

/// Look up the lifecycle metadata of a version cycle of a concept.
pub fn lookup_cycle_metadata(concept_id: &str, cycle: &str, registry: &RegistryDb, today: &str) -> (r: Option<AssertionMetadata>)
    ensures
        cycle_metadata_ok(r, concept_id@, cycle@, *registry, today@),
{
    let family = concept_to_family(concept_id);
    let lifecycles = match registry.family(family.as_str()) {
        None => {
            proof {
                let f = registry.families@;
                if exists|i: int| 0 <= i < f.len() && (#[trigger] f[i]).0@ == family@ {
                    let i = choose|i: int| 0 <= i < f.len() && (#[trigger] f[i]).0@ == family@;
                    assert(registry.family_names()[i] == family@);
                }
            }
            return None;
        },
        Some(v) => v,
    };
    proof {
        let f = registry.families@;
        let w = choose|i: int|
            0 <= i < f.len() && (#[trigger] f[i]).0@ == family@ && forall|j: int| 0 <= j < i ==> (#[trigger] f[j]).0@ != family@;
        let k = choose|i: int|
            0 <= i < f.len() && f[i].0@ == family@ && *lifecycles == f[i].1 && forall|j: int| 0 <= j < i ==> f[j].0@ != family@;
        if w < k {
            assert(f[w].0@ != family@);
        }
        if k < w {
            assert(f[k].0@ != family@);
        }
        assert(family_entries(*registry, concept_family_s(concept_id@)) == Some(lifecycles@));
    }
    let ghost ls = lifecycles@;
    let mut i: usize = 0;
    while i < lifecycles.len()
        invariant
            i <= lifecycles.len(),
            ls == lifecycles@,
            family_entries(*registry, concept_family_s(concept_id@)) == Some(ls),
            forall|j: int| 0 <= j < i ==> (#[trigger] ls[j]).cycle@ != cycle@,
        decreases lifecycles.len() - i,
    {
        let lc = &lifecycles[i];
        if str_eq_string(&lc.cycle, cycle) {
            proof {
                let w = choose|q: int|
                    0 <= q < ls.len() && (#[trigger] ls[q]).cycle@ == cycle@ && forall|j: int| 0 <= j < q ==> (#[trigger] ls[j]).cycle@ != cycle@;
                assert(ls[i as int].cycle@ == cycle@);
                if w < i {
                    assert(ls[w].cycle@ != cycle@);
                }
                if w > i {
                    assert(ls[i as int].cycle@ != cycle@);
                }
                assert(cycle_entry(ls, cycle@) == Some(*lc));
            }
            let deprecated = match &lc.eol_date {
                Some(eol) => str_eq(eol.as_str(), today) || crate::federation::str_order_lt(eol.as_str(), today),
                None => false,
            };
            return Some(AssertionMetadata {
                eol_date: clone_opt(&lc.eol_date),
                deprecated,
                latest_stable: clone_opt(&lc.latest_patch),
                lts: lc.lts,
            });
        }
        i = i + 1;
    }
    None
}

/// The version cycle of an assertion: the major version of an exact or
/// partial version, the first `.`-piece of a Docker tag's version, else the
/// first `.`-piece of the trimmed raw value.
pub open spec fn assertion_cycle_s(value: SemanticType, raw: Seq<char>) -> Seq<char> {
    match value {
        SemanticType::Version(x) => match x@ {
            VersionView::Exact(e) => decimal_s(e.0 as nat),
            VersionView::Partial(m, _) => decimal_s(m as nat),
            VersionView::DockerTag(v, _) => split_s(v, '.')[0],
            _ => split_s(trim_s(raw), '.')[0],
        },
        _ => split_s(trim_s(raw), '.')[0],
    }
}

fn first_piece(s: &[char]) -> (r: String)
    ensures
        r@ == split_s(s@, '.')[0],
{
    let parts = split_chars(s, '.');
    proof {
        lemma_split_len(s@, '.');
        assert(vv(parts@)[0] == parts@[0]@);
    }
    from_chars(parts[0].as_slice())
}

/// Extract the version cycle identifier from an assertion's value.
pub fn extract_cycle_from_assertion(assertion: &ConfigAssertion) -> (r: String)
    ensures
        r@ == assertion_cycle_s(assertion.value, assertion.raw_value@),
{
    let raw = to_chars(assertion.raw_value.as_str());
    let t = trim_chars(raw.as_slice());
    match &assertion.value {
        SemanticType::Version(x) => match x {
            VersionSpec::Exact(v) => {
                let mut out = String::new();
                push_decimal(&mut out, v.major);
                out
            },
            VersionSpec::Partial { major, .. } => {
                let mut out = String::new();
                push_decimal(&mut out, *major);
                out
            },
            VersionSpec::DockerTag { version, .. } => {
                let cs = to_chars(version.as_str());
                first_piece(cs.as_slice())
            },
            _ => first_piece(t.as_slice()),
        },
        _ => first_piece(t.as_slice()),
    }
}

/// Look up enrichment metadata for a single assertion: the registry entry
/// of its concept's family for its version cycle.
pub fn lookup_metadata(assertion: &ConfigAssertion, registry: &RegistryDb, today: &str) -> (r: Option<AssertionMetadata>)
    ensures
        cycle_metadata_ok(
            r,
            assertion.concept.id@,
            assertion_cycle_s(assertion.value, assertion.raw_value@),
            *registry,
            today@,
        ),
{
    let cycle = extract_cycle_from_assertion(assertion);
    lookup_cycle_metadata(assertion.concept.id.as_str(), cycle.as_str(), registry, today)
}

} // verus!

verus! {

fn family_lookup<'a>(registry: &'a RegistryDb, name: &str) -> (r: Option<&'a Vec<VersionLifecycle>>)
    ensures
        match r {
            Some(v) => family_entries(*registry, name@) == Some(v@),
            None => family_entries(*registry, name@) is None,
        },
        r matches Some(v) ==> exists|i: int| 0 <= i < registry.families@.len() && *v == (#[trigger] registry.families@[i]).1,
{
    match registry.family(name) {
        None => {
            proof {
                let f = registry.families@;
                if exists|i: int| 0 <= i < f.len() && (#[trigger] f[i]).0@ == name@ {
                    let i = choose|i: int| 0 <= i < f.len() && (#[trigger] f[i]).0@ == name@;
                    assert(registry.family_names()[i] == name@);
                }
            }
            None
        },
        Some(v) => {
            proof {
                let f = registry.families@;
                let w = choose|i: int|
                    0 <= i < f.len() && (#[trigger] f[i]).0@ == name@ && forall|j: int| 0 <= j < i ==> (#[trigger] f[j]).0@ != name@;
                let k = choose|i: int|
                    0 <= i < f.len() && f[i].0@ == name@ && *v == f[i].1 && forall|j: int| 0 <= j < i ==> f[j].0@ != name@;
                if w < k {
                    assert(f[w].0@ != name@);
                }
                if k < w {
                    assert(f[k].0@ != name@);
                }
            }
            Some(v)
        },
    }
}

fn cycle_lookup<'a>(ls: &'a Vec<VersionLifecycle>, cycle: &str) -> (r: Option<&'a VersionLifecycle>)
    ensures
        match r {
            Some(lc) => cycle_entry(ls@, cycle@) == Some(*lc),
            None => cycle_entry(ls@, cycle@) is None,
        },
        r matches Some(lc) ==> exists|k: int| 0 <= k < ls@.len() && *lc == #[trigger] ls@[k],
{
    let mut i: usize = 0;
    while i < ls.len()
        invariant
            i <= ls@.len(),
            forall|j: int| 0 <= j < i ==> (#[trigger] ls@[j]).cycle@ != cycle@,
        decreases ls@.len() - i,
    {
        if str_eq_string(&ls[i].cycle, cycle) {
            proof {
                let w = choose|q: int|
                    0 <= q < ls@.len() && (#[trigger] ls@[q]).cycle@ == cycle@ && forall|j: int| 0 <= j < q ==> (#[trigger] ls@[j]).cycle@ != cycle@;
                assert(ls@[i as int].cycle@ == cycle@);
                if w < i {
                    assert(ls@[w].cycle@ != cycle@);
                }
                if w > i {
                    assert(ls@[i as int].cycle@ != cycle@);
                }
            }
            return Some(&ls[i]);
        }
        i = i + 1;
    }
    None
}

/// The days from `today` until a date, when both read as dates
/// (`days_between`).
pub open spec fn days_until_s(today: Seq<char>, date: Seq<char>) -> Option<i64> {
    match (date_days_s(today), date_days_s(date)) {
        (Some(f), Some(t)) => Some((t - f) as i64),
        _ => None,
    }
}

/// The severity a policy names: `error` or `info` once lower-cased, else
/// a warning.
pub open spec fn policy_severity_s(s: Seq<char>) -> crate::model::Severity {
    let l = crate::text::unicode_lowercase(s);
    if l == "error"@ {
        crate::model::Severity::Error
    } else if l == "info"@ {
        crate::model::Severity::Info
    } else {
        crate::model::Severity::Warning
    }
}

/// A policy that reports an assertion: it names the assertion's concept,
/// its rule is an `eol-window >= N`, and the end of life is at most `N`
/// days away (or past).
pub open spec fn policy_fires_s(p: crate::config::PolicyConfig, a: ConfigAssertion, days: i64) -> bool {
    &&& crate::config::selects_s(a.concept.id@, p.concept@)
    &&& eol_window_s(p.rule@) matches Some(w) && days <= w
}

/// An end-of-life hit: the assertion, the position of the policy, the
/// lifecycle entry and the days until its end of life.
pub type EolHit = (ConfigAssertion, int, VersionLifecycle, i64);

/// The hits of the policies, from the first `n`, on one assertion.
pub open spec fn policy_hits_s(
    policies: Seq<crate::config::PolicyConfig>,
    a: ConfigAssertion,
    lc: VersionLifecycle,
    days: i64,
    n: int,
) -> Seq<EolHit>
    decreases n,
{
    if n <= 0 {
        seq![]
    } else {
        policy_hits_s(policies, a, lc, days, n - 1) + if policy_fires_s(policies[n - 1], a, days) {
            seq![(a, n - 1, lc, days)]
        } else {
            seq![]
        }
    }
}

/// The hits on one assertion: when its concept's family has an entry for
/// its cycle with an end-of-life date that reads as a date, those of the
/// policies.
pub open spec fn assertion_hits_s(
    a: ConfigAssertion,
    ls: Seq<VersionLifecycle>,
    policies: Seq<crate::config::PolicyConfig>,
    today: Seq<char>,
) -> Seq<EolHit> {
    match cycle_entry(ls, assertion_cycle_s(a.value, a.raw_value@)) {
        Some(lc) => match lc.eol_date {
            Some(eol) => match days_until_s(today, eol@) {
                Some(d) => policy_hits_s(policies, a, lc, d, policies.len() as int),
                None => seq![],
            },
            None => seq![],
        },
        None => seq![],
    }
}

/// The hits on the assertions, in order.
pub open spec fn assertions_hits_s(
    xs: Seq<ConfigAssertion>,
    ls: Seq<VersionLifecycle>,
    policies: Seq<crate::config::PolicyConfig>,
    today: Seq<char>,
) -> Seq<EolHit>
    decreases xs.len(),
{
    if xs.len() == 0 {
        seq![]
    } else {
        assertions_hits_s(xs.drop_last(), ls, policies, today) + assertion_hits_s(xs.last(), ls, policies, today)
    }
}

/// The hits on a concept result: none when the registry has no family for
/// its concept.
pub open spec fn concept_eol_hits_s(
    cr: crate::model::ConceptResult,
    db: RegistryDb,
    policies: Seq<crate::config::PolicyConfig>,
    today: Seq<char>,
) -> Seq<EolHit> {
    match family_entries(db, concept_family_s(cr.concept.id@)) {
        Some(ls) => assertions_hits_s(cr.assertions@, ls, policies, today),
        None => seq![],
    }
}

/// `"<value>" has reached end-of-life (EOL: <date>)`, or `reaches
/// end-of-life in <days> days`, then `: <message>` when the policy has one.
pub open spec fn eol_message_s(raw: Seq<char>, days: i64, eol: Seq<char>, message: Option<String>) -> Seq<char> {
    let base = if days <= 0 {
        "\""@ + raw + "\" has reached end-of-life (EOL: "@ + eol + ")"@
    } else {
        "\""@ + raw + "\" reaches end-of-life in "@ + decimal_s(days as nat) + " days (EOL: "@ + eol + ")"@
    };
    match message {
        Some(m) => base + ": "@ + m@,
        None => base,
    }
}

/// The finding of an end-of-life hit.
pub open spec fn eol_finding_ok(
    f: crate::model::Finding,
    h: EolHit,
    policies: Seq<crate::config::PolicyConfig>,
) -> bool {
    let a = h.0;
    let p = policies[h.1];
    let lc = h.2;
    let eol = lc.eol_date->Some_0@;
    let latest = match lc.latest_patch {
        Some(l) => l@,
        None => "unknown"@,
    };
    &&& f.severity == policy_severity_s(p.severity@)
    &&& f.left == a
    &&& f.right.concept == a.concept
    &&& f.right.value matches SemanticType::StringValue(s) && s@ == "EOL: "@ + eol + ", latest: "@ + latest
    &&& f.right.raw_value@ == p.rule@
    &&& f.right.source.file@ == ".conflic-registry-cache.json"@
    &&& f.right.source.line == 0
    &&& f.right.source.column == 0
    &&& f.right.source.key_path@ == "eol."@ + a.concept.id@
    &&& f.right.span is None
    &&& f.right.authority == crate::model::Authority::Enforced
    &&& f.right.extractor_id@ == "registry-enrichment"@
    &&& !f.right.is_matrix
    &&& f.explanation@ == eol_message_s(a.raw_value@, h.3, eol, p.message)
    &&& f.rule_id@ == p.id@
}

} // verus!

verus! {

/// A lifecycle entry's end-of-life date, if any, reads within 64-bit day
/// numbers.
#[verifier::opaque]
pub open spec fn lifecycle_fits(lc: VersionLifecycle) -> bool {
    match lc.eol_date {
        Some(e) => date_fits(e@),
        None => true,
    }
}

/// Every end-of-life date of the registry reads within 64-bit day numbers.
pub open spec fn registry_dates_fit(db: RegistryDb) -> bool {
    forall|i: int, j: int|
        0 <= i < db.families@.len() && 0 <= j < db.families@[i].1@.len() ==> lifecycle_fits(
            #[trigger] db.families@[i].1@[j],
        )
}

fn make_eol_finding(
    a: &ConfigAssertion,
    policies: &[crate::config::PolicyConfig],
    pi: usize,
    lc: &VersionLifecycle,
    eol: &String,
    days: i64,
) -> (r: crate::model::Finding)
    requires
        pi < policies@.len(),
        lc.eol_date == Some(*eol),
    ensures
        eol_finding_ok(r, (*a, pi as int, *lc, days), policies@),
{
    let p = &policies[pi];
    let lower = crate::text::to_lowercase(p.severity.as_str());
    proof {
        reveal_strlit("error");
        reveal_strlit("info");
    }
    let severity = if str_eq(lower.as_str(), "error") {
        crate::model::Severity::Error
    } else if str_eq(lower.as_str(), "info") {
        crate::model::Severity::Info
    } else {
        crate::model::Severity::Warning
    };
    let mut message = String::from_str("\"");
    proof {
        reveal_strlit("\"");
    }
    crate::text::push_str(&mut message, a.raw_value.as_str());
    if days <= 0 {
        crate::text::push_str(&mut message, "\" has reached end-of-life (EOL: ");
        crate::text::push_str(&mut message, eol.as_str());
        crate::text::push_str(&mut message, ")");
    } else {
        crate::text::push_str(&mut message, "\" reaches end-of-life in ");
        push_decimal(&mut message, days as u64);
        crate::text::push_str(&mut message, " days (EOL: ");
        crate::text::push_str(&mut message, eol.as_str());
        crate::text::push_str(&mut message, ")");
    }
    match &p.message {
        Some(m) => {
            crate::text::push_str(&mut message, ": ");
            crate::text::push_str(&mut message, m.as_str());
        },
        None => {},
    }
    let mut value = String::from_str("EOL: ");
    proof {
        reveal_strlit("EOL: ");
    }
    crate::text::push_str(&mut value, eol.as_str());
    crate::text::push_str(&mut value, ", latest: ");
    match &lc.latest_patch {
        Some(l) => crate::text::push_str(&mut value, l.as_str()),
        None => crate::text::push_str(&mut value, "unknown"),
    }
    let mut key = String::from_str("eol.");
    proof {
        reveal_strlit("eol.");
    }
    crate::text::push_str(&mut key, a.concept.id.as_str());
    let right = ConfigAssertion {
        concept: a.concept.duplicate(),
        value: SemanticType::StringValue(value),
        raw_value: p.rule.clone(),
        source: crate::model::SourceLocation {
            file: String::from_str(".conflic-registry-cache.json"),
            line: 0,
            column: 0,
            key_path: key,
        },
        span: None,
        authority: crate::model::Authority::Enforced,
        extractor_id: String::from_str("registry-enrichment"),
        is_matrix: false,
    };
    proof {
        reveal_strlit(".conflic-registry-cache.json");
        reveal_strlit("registry-enrichment");
    }
    crate::model::Finding { severity, left: a.duplicate(), right, explanation: message, rule_id: p.id.clone() }
}

/// Add the findings of the end-of-life policies that report an assertion
/// (its lifecycle entry `lc`, `days` until its end of life), in policy
/// order.
pub fn check_eol_policies(
    findings: &mut Vec<crate::model::Finding>,
    assertion: &ConfigAssertion,
    policies: &[crate::config::PolicyConfig],
    lc: &VersionLifecycle,
    eol: &String,
    days: i64,
)
    requires
        lc.eol_date == Some(*eol),
    ensures
        ({
            let hits = policy_hits_s(policies@, *assertion, *lc, days, policies@.len() as int);
            &&& final(findings)@.len() == old(findings)@.len() + hits.len()
            &&& final(findings)@.take(old(findings)@.len() as int) == old(findings)@
            &&& forall|k: int|
                0 <= k < hits.len() ==> eol_finding_ok(
                    #[trigger] final(findings)@[old(findings)@.len() + k],
                    hits[k],
                    policies@,
                )
        }),
{
    let ghost n0 = findings@.len();
    let ghost orig = findings@;
    let mut i: usize = 0;
    while i < policies.len()
        invariant
            i <= policies@.len(),
            lc.eol_date == Some(*eol),
            n0 == orig.len(),
            orig == old(findings)@,
            ({
                let hits = policy_hits_s(policies@, *assertion, *lc, days, i as int);
                &&& findings@.len() == n0 + hits.len()
                &&& findings@.take(n0 as int) == orig
                &&& forall|k: int| 0 <= k < hits.len() ==> eol_finding_ok(#[trigger] findings@[n0 + k], hits[k], policies@)
            }),
        decreases policies@.len() - i,
    {
        let ghost before = policy_hits_s(policies@, *assertion, *lc, days, i as int);
        let p = &policies[i];
        let fires = crate::config::concept_matches_selector(assertion.concept.id.as_str(), p.concept.as_str())
            && match parse_eol_window_rule(p.rule.as_str()) {
            Some(w) => days <= w as i64,
            None => false,
        };
        if fires {
            let f = make_eol_finding(assertion, policies, i, lc, eol, days);
            let ghost prev = findings@;
            findings.push(f);
            proof {
                let after = policy_hits_s(policies@, *assertion, *lc, days, i + 1);
                assert(after == before.push((*assertion, i as int, *lc, days)));
                assert(findings@.take(n0 as int) =~= orig) by {
                    assert(prev.take(n0 as int) == orig);
                }
                assert forall|k: int| 0 <= k < after.len() implies eol_finding_ok(
                    #[trigger] findings@[n0 + k],
                    after[k],
                    policies@,
                ) by {
                    if k < before.len() {
                        assert(findings@[n0 + k] == prev[n0 + k]);
                    }
                }
            }
        } else {
            proof {
                assert(policy_hits_s(policies@, *assertion, *lc, days, i + 1) =~= before);
            }
        }
        i = i + 1;
    }
}

} // verus!

verus! {

/// A concept result after the end-of-life policies: the same concept and
/// assertions, its findings kept and followed by those of its hits.
pub open spec fn eol_findings_added(
    before: crate::model::ConceptResult,
    after: crate::model::ConceptResult,
    hits: Seq<EolHit>,
    policies: Seq<crate::config::PolicyConfig>,
) -> bool {
    &&& after.concept == before.concept
    &&& after.assertions == before.assertions
    &&& after.findings@.len() == before.findings@.len() + hits.len()
    &&& after.findings@.take(before.findings@.len() as int) == before.findings@
    &&& forall|k: int|
        0 <= k < hits.len() ==> eol_finding_ok(#[trigger] after.findings@[before.findings@.len() + k], hits[k], policies)
}

/// Add, to each concept result whose concept's family the registry holds,
/// the findings of the end-of-life policies on its assertions: for each
/// assertion whose cycle has an end-of-life date, each policy that names
/// the concept and whose `eol-window >= N` covers the days left until then.
pub fn annotate_assertions(
    concept_results: &mut Vec<crate::model::ConceptResult>,
    registry: &RegistryDb,
    config: &crate::config::ConflicConfig,
    today: &str,
)
    requires
        date_fits(today@),
        registry_dates_fit(*registry),
    ensures
        final(concept_results)@.len() == old(concept_results)@.len(),
        forall|i: int|
            0 <= i < old(concept_results)@.len() ==> eol_findings_added(
                old(concept_results)@[i],
                #[trigger] final(concept_results)@[i],
                concept_eol_hits_s(old(concept_results)@[i], *registry, config.policy@, today@),
                config.policy@,
            ),
{
    let ghost base = concept_results@;
    let policies = config.policy.as_slice();
    let mut i: usize = 0;
    while i < concept_results.len()
        invariant
            i <= concept_results@.len(),
            base == old(concept_results)@,
            concept_results@.len() == base.len(),
            policies@ == config.policy@,
            date_fits(today@),
            registry_dates_fit(*registry),
            forall|q: int|
                0 <= q < i ==> eol_findings_added(
                    base[q],
                    #[trigger] concept_results@[q],
                    concept_eol_hits_s(base[q], *registry, config.policy@, today@),
                    config.policy@,
                ),
            forall|q: int| i <= q < base.len() ==> #[trigger] concept_results@[q] == base[q],
        decreases base.len() - i,
    {
        let ghost olds = concept_results@;
        let mut cr = concept_results.remove(i);
        let ghost b = base[i as int];
        assert(cr == b);
        let family = concept_to_family(cr.concept.id.as_str());
        let ghost n0 = b.findings@.len();
        proof {
            assert(cr.findings@.take(n0 as int) =~= b.findings@);
        }
        match family_lookup(registry, family.as_str()) {
            None => {
                assert(concept_eol_hits_s(b, *registry, config.policy@, today@) =~= Seq::<EolHit>::empty());
            },
            Some(ls) => {
                let mut j: usize = 0;
                while j < cr.assertions.len()
                    invariant
                        j <= cr.assertions@.len(),
                        cr.concept == b.concept,
                        cr.assertions == b.assertions,
                        n0 == b.findings@.len(),
                        policies@ == config.policy@,
                        date_fits(today@),
                        registry_dates_fit(*registry),
                        family_entries(*registry, concept_family_s(b.concept.id@)) == Some(ls@),
                        exists|q: int| 0 <= q < registry.families@.len() && *ls == (#[trigger] registry.families@[q]).1,
                        ({
                            let hits = assertions_hits_s(b.assertions@.take(j as int), ls@, config.policy@, today@);
                            &&& cr.findings@.len() == n0 + hits.len()
                            &&& cr.findings@.take(n0 as int) == b.findings@
                            &&& forall|k: int|
                                0 <= k < hits.len() ==> eol_finding_ok(#[trigger] cr.findings@[n0 + k], hits[k], config.policy@)
                        }),
                    decreases cr.assertions@.len() - j,
                {
                    proof {
                        assert(b.assertions@.take(j + 1).drop_last() =~= b.assertions@.take(j as int));
                        assert(b.assertions@.take(j + 1).last() == b.assertions@[j as int]);
                    }
                    let ghost prevh = assertions_hits_s(b.assertions@.take(j as int), ls@, config.policy@, today@);
                    let ghost a = b.assertions@[j as int];
                    let ghost mid = cr.findings@;
                    let cycle = extract_cycle_from_assertion(&cr.assertions[j]);
                    let mut added = false;
                    match cycle_lookup(ls, cycle.as_str()) {
                        Some(lc) => match &lc.eol_date {
                            Some(eol) => {
                                proof {
                                    let fi = choose|q: int|
                                        0 <= q < registry.families@.len() && *ls == (#[trigger] registry.families@[q]).1;
                                    let k = choose|k: int| 0 <= k < ls@.len() && *lc == #[trigger] ls@[k];
                                    assert(registry.families@[fi].1@[k] == *lc);
                                    assert(lifecycle_fits(*lc));
                                    reveal(lifecycle_fits);
                                }
                                match days_between(today, eol.as_str()) {
                                    Some(d) => {
                                        check_eol_policies(&mut cr.findings, &cr.assertions[j], policies, lc, eol, d);
                                        added = true;
                                        proof {
                                            let ah = assertion_hits_s(a, ls@, config.policy@, today@);
                                            assert(ah == policy_hits_s(config.policy@, a, *lc, d, config.policy@.len() as int));
                                            let now = assertions_hits_s(b.assertions@.take(j + 1), ls@, config.policy@, today@);
                                            assert(now == prevh + ah);
                                            assert(cr.findings@.take(mid.len() as int) == mid);
                                            assert(cr.findings@.take(n0 as int) =~= b.findings@) by {
                                                assert forall|q: int| 0 <= q < n0 implies cr.findings@[q] == b.findings@[q] by {
                                                    assert(cr.findings@.take(mid.len() as int)[q] == mid[q]);
                                                    assert(mid.take(n0 as int)[q] == b.findings@[q]);
                                                }
                                            }
                                            assert forall|k: int| 0 <= k < now.len() implies eol_finding_ok(
                                                #[trigger] cr.findings@[n0 + k],
                                                now[k],
                                                config.policy@,
                                            ) by {
                                                if k < prevh.len() {
                                                    assert(cr.findings@.take(mid.len() as int)[n0 + k] == mid[n0 + k]);
                                                } else {
                                                    let q = k - prevh.len();
                                                    assert(n0 + k == mid.len() + q);
                                                }
                                            }
                                        }
                                    },
                                    None => {},
                                }
                            },
                            None => {},
                        },
                        None => {},
                    }
                    if !added {
                        proof {
                            assert(assertion_hits_s(a, ls@, config.policy@, today@) =~= Seq::<EolHit>::empty());
                            assert(assertions_hits_s(b.assertions@.take(j + 1), ls@, config.policy@, today@) =~= prevh);
                        }
                    }
                    j = j + 1;
                }
                proof {
                    assert(b.assertions@.take(b.assertions@.len() as int) =~= b.assertions@);
                }
            },
        }
        concept_results.insert(i, cr);
        proof {
            assert(concept_results@ =~= olds.update(i as int, cr));
            assert forall|q: int| 0 <= q < i + 1 implies eol_findings_added(
                base[q],
                #[trigger] concept_results@[q],
                concept_eol_hits_s(base[q], *registry, config.policy@, today@),
                config.policy@,
            ) by {
                if q < i {
                    assert(concept_results@[q] == olds[q]);
                }
            }
            assert forall|q: int| i + 1 <= q < base.len() implies #[trigger] concept_results@[q] == base[q] by {
                assert(concept_results@[q] == olds[q]);
            }
        }
        i = i + 1;
    }
}

} // verus!
