//! How discovered paths are matched: separators, relative prefixes and
//! the names of compose and tsconfig files.
use vstd::prelude::*;
use vstd::string::*;
use crate::pathing::{components, path_components};
use crate::model::semantic_type::opt_view;
use crate::text::{trim_end_matches_chars, trim_end_matches_s, vv};
use crate::text::{
    ends_with_s, find_char, from_chars, lemma_find_none, push_char, slice_chars, starts_with_chars, starts_with_s, str_ends_with,
    str_eq, str_starts_with, to_chars,
};

verus! {

/// The path with every `\` turned into `/`.
pub open spec fn slashes_s(p: Seq<char>) -> Seq<char> {
    Seq::new(p.len(), |i: int| if p[i] == '\\' { '/' } else { p[i] })
}

/// A path with forward slashes only, for matching.
pub fn normalize_path_for_match(path: &str) -> (r: String)
    ensures
        r@ == slashes_s(path@),
{
    let cs = to_chars(path);
    let mut out = String::new();
    let mut i: usize = 0;
    while i < cs.len()
        invariant
            i <= cs.len(),
            cs@ == path@,
            out@ == slashes_s(path@).take(i as int),
        decreases cs.len() - i,
    {
        let c = if cs[i] == '\\' {
            '/'
        } else {
            cs[i]
        };
        push_char(&mut out, c);
        i = i + 1;
        assert(out@ =~= slashes_s(path@).take(i as int));
    }
    assert(slashes_s(path@).take(cs.len() as int) =~= slashes_s(path@));
    out
}

/// `s` without every leading copy of the non-empty prefix `p`
/// (`str::trim_start_matches`).
pub open spec fn trim_start_matches_s(s: Seq<char>, p: Seq<char>) -> Seq<char>
    decreases s.len(),
{
    if p.len() > 0 && starts_with_s(s, p) {
        trim_start_matches_s(s.skip(p.len() as int), p)
    } else {
        s
    }
}

fn trim_start_matches(s: &[char], p: &[char]) -> (r: Vec<char>)
    requires
        p.len() > 0,
    ensures
        r@ == trim_start_matches_s(s@, p@),
{
    let mut start: usize = 0;
    assert(s@.skip(0) == s@);
    while p.len() <= s.len() - start && starts_with_chars(slice_chars(s, start, s.len()).as_slice(), p)
        invariant
            start <= s.len(),
            p.len() > 0,
            trim_start_matches_s(s@.skip(start as int), p@) == trim_start_matches_s(s@, p@),
        decreases s.len() - start,
    {
        assert(s@.skip(start as int).skip(p.len() as int) == s@.skip(start + p.len()));
        start = start + p.len();
    }
    let rest = slice_chars(s, start, s.len());
    proof {
        if p.len() > s.len() - start {
            assert(!starts_with_s(s@.skip(start as int), p@));
        }
    }
    rest
}

/// The path without leading `./` and then leading `.\` prefixes.
pub open spec fn trim_relative_prefix_s(path: Seq<char>) -> Seq<char> {
    trim_start_matches_s(trim_start_matches_s(path, "./"@), ".\\"@)
}

/// Remove leading `./` (then `.\`) prefixes from a path.
pub fn trim_relative_prefix(path: &str) -> (r: String)
    ensures
        r@ == trim_relative_prefix_s(path@),
{
    let cs = to_chars(path);
    let a = to_chars("./");
    let b = to_chars(".\\");
    proof {
        reveal_strlit("./");
        reveal_strlit(".\\");
    }
    let t = trim_start_matches(cs.as_slice(), a.as_slice());
    let u = trim_start_matches(t.as_slice(), b.as_slice());
    from_chars(u.as_slice())
}

/// `path` is `prefix` or lies under it (`prefix` followed by `/`).
pub open spec fn path_matches_prefix_s(path: Seq<char>, prefix: Seq<char>) -> bool {
    path == prefix || (starts_with_s(path, prefix) && starts_with_s(path.skip(prefix.len() as int), "/"@))
}

/// Whether `path` is `prefix` or a path under it.
pub fn path_matches_prefix(path: &str, prefix: &str) -> (r: bool)
    ensures
        r == path_matches_prefix_s(path@, prefix@),
{
    if str_eq(path, prefix) {
        return true;
    }
    let cs = to_chars(path);
    let ps = to_chars(prefix);
    if !starts_with_chars(cs.as_slice(), ps.as_slice()) {
        return false;
    }
    let rest = slice_chars(cs.as_slice(), ps.len(), cs.len());
    assert(rest@ == path@.skip(prefix@.len() as int));
    let slash = to_chars("/");
    starts_with_chars(rest.as_slice(), slash.as_slice())
}

/// A docker-compose file name: `docker-compose*.yml` or `.yaml`.
pub open spec fn docker_compose_file_s(f: Seq<char>) -> bool {
    starts_with_s(f, "docker-compose"@) && (ends_with_s(f, ".yml"@) || ends_with_s(f, ".yaml"@))
}

/// Whether a file name is a docker-compose file.
pub fn is_docker_compose_file(filename: &str) -> (r: bool)
    ensures
        r == docker_compose_file_s(filename@),
{
    str_starts_with(filename, "docker-compose") && (str_ends_with(filename, ".yml") || str_ends_with(
        filename,
        ".yaml",
    ))
}

/// A tsconfig file name: `tsconfig*.json`.
pub open spec fn tsconfig_file_s(f: Seq<char>) -> bool {
    starts_with_s(f, "tsconfig"@) && ends_with_s(f, ".json"@)
}

/// Whether a file name is a tsconfig file.
pub fn is_tsconfig_file(filename: &str) -> (r: bool)
    ensures
        r == tsconfig_file_s(filename@),
{
    str_starts_with(filename, "tsconfig") && str_ends_with(filename, ".json")
}


/// Whether a pattern holds a glob wildcard: `*`, `?` or `[`.
pub open spec fn glob_pattern_s(p: Seq<char>) -> bool {
    p.contains('*') || p.contains('?') || p.contains('[')
}

/// Whether a pattern is a glob rather than a plain name.
pub fn is_glob_pattern(pattern: &str) -> (r: bool)
    ensures
        r == glob_pattern_s(pattern@),
{
    let cs = to_chars(pattern);
    let star = find_char(cs.as_slice(), '*');
    let question = find_char(cs.as_slice(), '?');
    let bracket = find_char(cs.as_slice(), '[');
    proof {
        lemma_find_none(cs@, '*');
        lemma_find_none(cs@, '?');
        lemma_find_none(cs@, '[');
    }
    star.is_some() || question.is_some() || bracket.is_some()
}


// ---------------------------------------------------------------------
// Exclusion and inclusion patterns of the discovery walk
// ---------------------------------------------------------------------

/// Whether the glob pattern matches the text: `None` when the pattern is
/// not a valid glob, or when its matcher cannot be built within the
/// automaton size limits of `globset`.
pub uninterp spec fn glob_match_result(pattern: Seq<char>, text: Seq<char>) -> Option<bool>;

/// The longest glob pattern, in characters, that is handed to `globset`;
/// longer ones cannot be compiled within its automaton size limit.
pub const GLOB_PATTERN_LIMIT: usize = 0x100_0000;

/// `globset::Glob::new`, then a `GlobSet` of that one glob built with
/// `GlobSetBuilder::build` and asked `GlobSet::is_match` on the text as a
/// path. `build` reports a matcher over the automaton size limit as an
/// error, where `Glob::compile_matcher` would panic. Claimed: the result
/// is a function of the pattern and the text. Patterns are kept below
/// `GLOB_PATTERN_LIMIT` characters, far below the literal sizes at which
/// the literal matchers inside `build` could fail.
#[verifier::external_body]
fn glob_match(pattern: &str, text: &str) -> (r: Option<bool>)
    requires
        pattern@.len() < GLOB_PATTERN_LIMIT,
    ensures
        r == glob_match_result(pattern@, text@),
{
    match globset::Glob::new(pattern) {
        Ok(glob) => match globset::GlobSetBuilder::new().add(glob).build() {
            Ok(set) => Some(set.is_match(text)),
            Err(_) => None,
        },
        Err(_) => None,
    }
}

/// The text of the error that `globset` reports for a pattern: `None` when
/// the pattern compiles.
pub uninterp spec fn glob_error_text(pattern: Seq<char>) -> Option<Seq<char>>;

/// `globset::Glob::new`, then `GlobSetBuilder::build` on that one glob, as
/// in `glob_match`; the error, if either fails, in its display form.
/// Claimed: the result is a function of the pattern, and an error comes
/// exactly when `glob_match` gives `None` (`GlobSet::is_match` itself never
/// fails).
#[verifier::external_body]
pub(crate) fn glob_error(pattern: &str) -> (r: Option<String>)
    requires
        pattern@.len() < GLOB_PATTERN_LIMIT,
    ensures
        opt_view(r) == glob_error_text(pattern@),
        r is None <==> glob_match_result(pattern@, seq![]) is Some,
{
    match globset::Glob::new(pattern) {
        Ok(glob) => match globset::GlobSetBuilder::new().add(glob).build() {
            Ok(_) => None,
            Err(e) => Some(e.to_string()),
        },
        Err(e) => Some(e.to_string()),
    }
}

/// A glob pattern under the length limit, valid, that matches the text.
pub open spec fn glob_hits(pattern: Seq<char>, text: Seq<char>) -> bool {
    pattern.len() < GLOB_PATTERN_LIMIT && glob_match_result(pattern, text) == Some(true)
}

pub(crate) fn glob_matches(pattern: &str, text: &str) -> (r: bool)
    ensures
        r == glob_hits(pattern@, text@),
{
    if pattern.unicode_len() >= GLOB_PATTERN_LIMIT {
        return false;
    }
    match glob_match(pattern, text) {
        Some(b) => b,
        None => false,
    }
}

/// The text of `path` after the components of `base`
/// (`Path::strip_prefix`, under the path rules of Unix), if it starts with
/// them.
pub uninterp spec fn path_strip_prefix_text(path: Seq<char>, base: Seq<char>) -> Option<Seq<char>>;

/// `Path::strip_prefix`, the rest taken as text. Claimed: the result is a
/// function of the two path texts.
#[verifier::external_body]
fn strip_path_prefix(path: &str, base: &str) -> (r: Option<String>)
    ensures
        match r {
            Some(t) => path_strip_prefix_text(path@, base@) == Some(t@),
            None => path_strip_prefix_text(path@, base@) is None,
        },
{
    match std::path::Path::new(path).strip_prefix(base) {
        Ok(rest) => Some(rest.to_string_lossy().into_owned()),
        Err(_) => None,
    }
}

/// A path that starts at the root (`Path::is_absolute` on Unix).
pub open spec fn absolute_s(p: Seq<char>) -> bool {
    p.len() > 0 && p[0] == '/'
}

/// The path relative to the root, with forward slashes (the path itself
/// when it is not under the root).
pub open spec fn relative_text_s(root: Seq<char>, path: Seq<char>) -> Seq<char> {
    slashes_s(
        match path_strip_prefix_text(path, root) {
            Some(t) => t,
            None => path,
        },
    )
}

fn relative_text(root: &str, path: &str) -> (r: String)
    ensures
        r@ == relative_text_s(root@, path@),
{
    match strip_path_prefix(path, root) {
        Some(t) => normalize_path_for_match(t.as_str()),
        None => normalize_path_for_match(path),
    }
}

/// An exclusion pattern made comparable: trailing `/` and `\` and leading
/// `./` and `.\` removed, backslashes made slashes.
pub open spec fn normalized_exclude_s(pattern: Seq<char>) -> Seq<char> {
    slashes_s(
        trim_start_matches_s(
            trim_start_matches_s(trim_end_matches_s(trim_end_matches_s(pattern, "/"@), "\\"@), "./"@),
            ".\\"@,
        ),
    )
}

/// An extra file pattern of the configuration.
#[derive(Debug, Clone)]
pub struct AdditionalFilePattern {
    pub raw: String,
    /// The pattern with forward slashes and without leading `./`.
    pub normalized: String,
    /// The glob to match with, when the pattern is one.
    pub glob: Option<String>,
}

/// Discovers config files in a directory tree by name, under exclusions.
#[derive(Debug, Clone)]
pub struct FileDiscoverer {
    pub root: String,
    /// Glob patterns an excluded path matches (only valid ones match).
    pub exclude_globs: Vec<String>,
    /// Path components that exclude a path.
    pub exclude_segments: Vec<String>,
    /// Path prefixes (relative to the root, or absolute) that exclude a path.
    pub exclude_path_prefixes: Vec<String>,
    pub extra_include_patterns: Vec<AdditionalFilePattern>,
}

impl AdditionalFilePattern {
    /// The pattern, normalized, with its glob when it is one.
    pub fn new(pattern: String) -> (r: Option<Self>)
        ensures
            r matches Some(p) && p.raw == pattern && p.normalized@ == trim_relative_prefix_s(slashes_s(pattern@))
                && (match p.glob {
                Some(g) => glob_pattern_s(pattern@) && g@ == p.normalized@,
                None => !glob_pattern_s(pattern@),
            }),
    {
        let slashed = normalize_path_for_match(pattern.as_str());
        let normalized = trim_relative_prefix(slashed.as_str());
        let glob = if is_glob_pattern(pattern.as_str()) {
            Some(normalized.clone())
        } else {
            None
        };
        Some(AdditionalFilePattern { raw: pattern, normalized, glob })
    }

    /// The spec of a match: by the glob against the file name, the
    /// relative path or the full path; else by the path (absolute or
    /// relative) when the pattern has a `/`; else by the file name.
    pub open spec fn matches_s(self, root: Seq<char>, filename: Seq<char>, path: Seq<char>) -> bool {
        let full = slashes_s(path);
        let relative = trim_relative_prefix_s(relative_text_s(root, path));
        match self.glob {
            Some(g) => glob_hits(g@, filename) || glob_hits(g@, relative) || glob_hits(g@, full),
            None => if self.normalized@.contains('/') {
                if absolute_s(self.normalized@) || starts_with_s(self.normalized@, "//"@) {
                    full == self.normalized@
                } else {
                    relative == self.normalized@
                }
            } else {
                filename == self.raw@
            },
        }
    }

    /// Whether the pattern takes in a file.
    pub fn matches(&self, root: &str, filename: &str, path: &str) -> (r: bool)
        ensures
            r == self.matches_s(root@, filename@, path@),
    {
        let full = normalize_path_for_match(path);
        let rel = relative_text(root, path);
        let relative = trim_relative_prefix(rel.as_str());
        match &self.glob {
            Some(g) => glob_matches(g.as_str(), filename) || glob_matches(g.as_str(), relative.as_str())
                || glob_matches(g.as_str(), full.as_str()),
            None => {
                let n = to_chars(self.normalized.as_str());
                let slash = find_char(n.as_slice(), '/');
                proof {
                    lemma_find_none(n@, '/');
                }
                if slash.is_some() {
                    let abs = n.len() > 0 && n[0] == '/';
                    if abs || str_starts_with(self.normalized.as_str(), "//") {
                        str_eq(full.as_str(), self.normalized.as_str())
                    } else {
                        str_eq(relative.as_str(), self.normalized.as_str())
                    }
                } else {
                    str_eq(filename, self.raw.as_str())
                }
            },
        }
    }
}

/// The exclusion globs of the patterns: a glob pattern itself and under
/// `**/`, in order.
pub open spec fn exclude_globs_s(ps: Seq<String>) -> Seq<Seq<char>>
    decreases ps.len(),
{
    if ps.len() == 0 {
        Seq::empty()
    } else {
        let p = ps.last()@;
        exclude_globs_s(ps.drop_last()) + if glob_pattern_s(p) {
            seq![p, "**/"@ + p]
        } else {
            Seq::empty()
        }
    }
}

/// The normalized patterns with (`slash`) or without a `/`, in order.
pub open spec fn excludes_split_s(ps: Seq<String>, slash: bool) -> Seq<Seq<char>>
    decreases ps.len(),
{
    if ps.len() == 0 {
        Seq::empty()
    } else {
        let n = normalized_exclude_s(ps.last()@);
        excludes_split_s(ps.drop_last(), slash) + if n.contains('/') == slash {
            seq![n]
        } else {
            Seq::empty()
        }
    }
}

fn normalized_exclude(pattern: &str) -> (r: String)
    ensures
        r@ == normalized_exclude_s(pattern@),
{
    let cs = to_chars(pattern);
    let slash = to_chars("/");
    let back = to_chars("\\");
    let dot_slash = to_chars("./");
    let dot_back = to_chars(".\\");
    proof {
        reveal_strlit("/");
        reveal_strlit("\\");
        reveal_strlit("./");
        reveal_strlit(".\\");
    }
    let a = trim_end_matches_chars(cs.as_slice(), slash.as_slice());
    let b = trim_end_matches_chars(a.as_slice(), back.as_slice());
    let c = trim_start_matches(b.as_slice(), dot_slash.as_slice());
    let d = trim_start_matches(c.as_slice(), dot_back.as_slice());
    normalize_path_for_match(from_chars(d.as_slice()).as_str())
}

impl FileDiscoverer {
    /// A discoverer of the tree at `root`: each exclusion that is a glob is
    /// matched as written and under `**/`; each exclusion, normalized,
    /// excludes a path prefix when it has a `/`, else a path component.
    pub fn new(root: &str, extra_excludes: Vec<String>, extra_include_patterns: Vec<String>) -> (r: Self)
        ensures
            r.root@ == root@,
            vv_strings(r.exclude_globs@) == exclude_globs_s(extra_excludes@),
            vv_strings(r.exclude_path_prefixes@) == excludes_split_s(extra_excludes@, true),
            vv_strings(r.exclude_segments@) == excludes_split_s(extra_excludes@, false),
            r.extra_include_patterns@.len() == extra_include_patterns@.len(),
            forall|k: int|
                0 <= k < extra_include_patterns@.len() ==> {
                    let p = #[trigger] r.extra_include_patterns@[k];
                    let q = extra_include_patterns@[k];
                    &&& p.raw == q
                    &&& p.normalized@ == trim_relative_prefix_s(slashes_s(q@))
                    &&& match p.glob {
                        Some(g) => glob_pattern_s(q@) && g@ == p.normalized@,
                        None => !glob_pattern_s(q@),
                    }
                },
    {
        let mut globs: Vec<String> = Vec::new();
        let mut segments: Vec<String> = Vec::new();
        let mut prefixes: Vec<String> = Vec::new();
        let mut i: usize = 0;
        while i < extra_excludes.len()
            invariant
                i <= extra_excludes.len(),
                vv_strings(globs@) == exclude_globs_s(extra_excludes@.take(i as int)),
                vv_strings(prefixes@) == excludes_split_s(extra_excludes@.take(i as int), true),
                vv_strings(segments@) == excludes_split_s(extra_excludes@.take(i as int), false),
            decreases extra_excludes.len() - i,
        {
            proof {
                assert(extra_excludes@.take(i + 1).drop_last() == extra_excludes@.take(i as int));
                assert(extra_excludes@.take(i + 1).last() == extra_excludes@[i as int]);
            }
            let pattern = extra_excludes[i].as_str();
            let normalized = normalized_exclude(pattern);
            if is_glob_pattern(pattern) {
                let ghost before = globs@;
                globs.push(String::from_str(pattern));
                let mut prefixed = String::from_str("**/");
                crate::text::push_str(&mut prefixed, pattern);
                globs.push(prefixed);
                proof {
                    assert(vv_strings(globs@) =~= vv_strings(before) + seq![pattern@, "**/"@ + pattern@]);
                }
            } else {
                assert(vv_strings(globs@) =~= vv_strings(globs@) + Seq::<Seq<char>>::empty());
            }
            let n = to_chars(normalized.as_str());
            let slash = find_char(n.as_slice(), '/');
            proof {
                lemma_find_none(n@, '/');
            }
            if slash.is_some() {
                let ghost before = prefixes@;
                prefixes.push(normalized);
                proof {
                    assert(vv_strings(prefixes@) =~= vv_strings(before) + seq![normalized_exclude_s(pattern@)]);
                    assert(vv_strings(segments@) =~= vv_strings(segments@) + Seq::<Seq<char>>::empty());
                }
            } else {
                let ghost before = segments@;
                segments.push(normalized);
                proof {
                    assert(vv_strings(segments@) =~= vv_strings(before) + seq![normalized_exclude_s(pattern@)]);
                    assert(vv_strings(prefixes@) =~= vv_strings(prefixes@) + Seq::<Seq<char>>::empty());
                }
            }
            i = i + 1;
        }
        assert(extra_excludes@.take(extra_excludes.len() as int) == extra_excludes@);
        let mut includes: Vec<AdditionalFilePattern> = Vec::new();
        let mut j: usize = 0;
        while j < extra_include_patterns.len()
            invariant
                j <= extra_include_patterns.len(),
                includes@.len() == j,
                forall|k: int|
                    0 <= k < j ==> {
                        let p = #[trigger] includes@[k];
                        let q = extra_include_patterns@[k];
                        &&& p.raw == q
                        &&& p.normalized@ == trim_relative_prefix_s(slashes_s(q@))
                        &&& match p.glob {
                            Some(g) => glob_pattern_s(q@) && g@ == p.normalized@,
                            None => !glob_pattern_s(q@),
                        }
                    },
            decreases extra_include_patterns.len() - j,
        {
            match AdditionalFilePattern::new(extra_include_patterns[j].clone()) {
                Some(p) => includes.push(p),
                None => {},
            }
            j = j + 1;
        }
        FileDiscoverer {
            root: String::from_str(root),
            exclude_globs: globs,
            exclude_segments: segments,
            exclude_path_prefixes: prefixes,
            extra_include_patterns: includes,
        }
    }

    /// The spec of exclusion: a glob matches the path; or a prefix (matched
    /// against the full path when absolute or starting `//`, else against
    /// the path relative to the root) covers it; or a component of the path
    /// is an excluded segment.
    pub open spec fn excluded_s(self, path: Seq<char>) -> bool {
        let full = slashes_s(path);
        let relative = relative_text_s(self.root@, path);
        ||| exists|k: int| 0 <= k < self.exclude_globs@.len() && glob_hits(#[trigger] self.exclude_globs@[k]@, path)
        ||| exists|k: int|
            0 <= k < self.exclude_path_prefixes@.len() && {
                let p = (#[trigger] self.exclude_path_prefixes@[k])@;
                path_matches_prefix_s(
                    if absolute_s(p) || starts_with_s(p, "//"@) {
                        full
                    } else {
                        relative
                    },
                    p,
                )
            }
        ||| exists|k: int| 0 <= k < self.exclude_segments@.len() && path_components(path).contains(#[trigger] self.exclude_segments@[k]@)
    }

    /// Whether a path is excluded from discovery.
    pub fn is_excluded(&self, path: &str) -> (r: bool)
        ensures
            r == self.excluded_s(path@),
    {
        let gs = &self.exclude_globs;
        let mut i: usize = 0;
        while i < gs.len()
            invariant
                i <= gs.len(),
                gs == &self.exclude_globs,
                forall|k: int| 0 <= k < i ==> !glob_hits(#[trigger] gs@[k]@, path@),
            decreases gs.len() - i,
        {
            if glob_matches(gs[i].as_str(), path) {
                return true;
            }
            i = i + 1;
        }
        let full = normalize_path_for_match(path);
        let relative = relative_text(self.root.as_str(), path);
        let ps = &self.exclude_path_prefixes;
        let mut j: usize = 0;
        while j < ps.len()
            invariant
                j <= ps.len(),
                ps == &self.exclude_path_prefixes,
                full@ == slashes_s(path@),
                relative@ == relative_text_s(self.root@, path@),
                forall|k: int|
                    0 <= k < j ==> {
                        let p = (#[trigger] ps@[k])@;
                        !path_matches_prefix_s(
                            if absolute_s(p) || starts_with_s(p, "//"@) {
                                slashes_s(path@)
                            } else {
                                relative_text_s(self.root@, path@)
                            },
                            p,
                        )
                    },
            decreases ps.len() - j,
        {
            let p = ps[j].as_str();
            let pc = to_chars(p);
            let absolute = (pc.len() > 0 && pc[0] == '/') || str_starts_with(p, "//");
            let hit = if absolute {
                path_matches_prefix(full.as_str(), p)
            } else {
                path_matches_prefix(relative.as_str(), p)
            };
            if hit {
                return true;
            }
            j = j + 1;
        }
        let pcs = to_chars(path);
        let comps = components(pcs.as_slice());
        let ghost cv = vv(comps@);
        let ss = &self.exclude_segments;
        let mut k: usize = 0;
        while k < ss.len()
            invariant
                k <= ss.len(),
                ss == &self.exclude_segments,
                cv == vv(comps@),
                cv == path_components(path@),
                forall|q: int| 0 <= q < k ==> !path_components(path@).contains(#[trigger] ss@[q]@),
            decreases ss.len() - k,
        {
            let seg = ss[k].as_str();
            let mut m: usize = 0;
            while m < comps.len()
                invariant
                    m <= comps.len(),
                    k < ss.len(),
                    ss == &self.exclude_segments,
                    cv == vv(comps@),
                    seg@ == ss@[k as int]@,
                    cv == path_components(path@),
                    forall|q: int| 0 <= q < m ==> cv[q] != seg@,
                decreases comps.len() - m,
            {
                if crate::text::chars_eq_str(comps[m].as_slice(), seg) {
                    assert(cv[m as int] == seg@);
                    assert(path_components(path@)[m as int] == ss@[k as int]@);
                    assert(path_components(path@).contains(ss@[k as int]@));
                    return true;
                }
                m = m + 1;
            }
            proof {
                if path_components(path@).contains(ss@[k as int]@) {
                    let q = choose|q: int| 0 <= q < cv.len() && cv[q] == ss@[k as int]@;
                    assert(cv[q] != seg@);
                }
            }
            k = k + 1;
        }
        false
    }
}

/// The texts of strings.
pub open spec fn vv_strings(ss: Seq<String>) -> Seq<Seq<char>> {
    ss.map_values(|s: String| s@)
}

} // verus!
