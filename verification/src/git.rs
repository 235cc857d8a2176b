//! The decisions around calls of `git`: which refs are forwarded, how
//! commands print, and how path listings read.
use vstd::prelude::*;
use vstd::string::*;
use vstd::utf8::{decode_utf8, valid_utf8};
use crate::pathing::{lemma_comps_lt_total, lemma_comps_lt_trans, path_components, path_eq, path_less, path_lt, path_same};
use crate::text::{join_s, lemma_join_push, push_str, strs_view, trim_s};

verus! {

/// `std::io::Error`, carried through unread.
#[verifier::external_type_specification]
#[verifier::external_body]
pub struct ExIoError(std::io::Error);

/// Failures around running `git`.
#[derive(Debug)]
pub enum GitError {
    /// The diff ref starts with `-` and would read as an option.
    InvalidDiffRef { value: String },
    /// `git` could not be started.
    Spawn { command: String, source: std::io::Error },
    /// `git` ran and failed.
    CommandFailed { command: String, stderr: String },
}

impl GitError {
    /// The message of the error.
    pub open spec fn message(self) -> Option<Seq<char>> {
        match self {
            GitError::InvalidDiffRef { value } => Some(
                "Invalid --diff ref '"@ + value@ + "': refs must not start with '-'"@,
            ),
            GitError::CommandFailed { command, stderr } => Some(
                "`git "@ + command@ + "` failed: "@ + stderr@,
            ),
            GitError::Spawn { .. } => None,
        }
    }

    /// The message of an invalid-ref or failed-command error; for a spawn
    /// failure the message is completed with the I/O error by the caller.
    pub fn to_text(&self) -> (r: String)
        ensures
            self.message() matches Some(m) ==> r@ == m,
    {
        let mut out = String::new();
        match self {
            GitError::InvalidDiffRef { value } => {
                push_str(&mut out, "Invalid --diff ref '");
                push_str(&mut out, value.as_str());
                push_str(&mut out, "': refs must not start with '-'");
            },
            GitError::Spawn { command, .. } => {
                push_str(&mut out, "Failed to run `git ");
                push_str(&mut out, command.as_str());
                push_str(&mut out, "`");
            },
            GitError::CommandFailed { command, stderr } => {
                push_str(&mut out, "`git ");
                push_str(&mut out, command.as_str());
                push_str(&mut out, "` failed: ");
                push_str(&mut out, stderr.as_str());
            },
        }
        out
    }
}

/// Refuse a diff ref that starts with `-`, so that it never reaches `git`
/// as an option.
pub fn validate_git_diff_ref(git_ref: &str) -> (r: Result<(), GitError>)
    ensures
        r is Err <==> (git_ref@.len() > 0 && git_ref@[0] == '-'),
        r matches Err(e) ==> e matches GitError::InvalidDiffRef { value } && value@ == git_ref@,
{
    let cs = crate::text::to_chars(git_ref);
    if cs.len() > 0 && cs[0] == '-' {
        return Err(GitError::InvalidDiffRef { value: String::from_str(git_ref) });
    }
    Ok(())
}

/// The arguments of a `git` command joined with spaces.
pub fn format_command(args: &[&str]) -> (r: String)
    ensures
        r@ == join_s(strs_view(args@), " "@),
{
    let mut out = String::new();
    let mut i: usize = 0;
    while i < args.len()
        invariant
            i <= args.len(),
            out@ == join_s(strs_view(args@).take(i as int), " "@),
        decreases args.len() - i,
    {
        proof {
            lemma_join_push(strs_view(args@).take(i as int), " "@, args@[i as int]@);
            assert(strs_view(args@).take(i as int).push(args@[i as int]@) == strs_view(args@).take(
                i + 1,
            ));
        }
        if i > 0 {
            push_str(&mut out, " ");
        }
        push_str(&mut out, args[i]);
        i = i + 1;
    }
    assert(strs_view(args@).take(args.len() as int) == strs_view(args@));
    out
}

/// The pieces of `s` between occurrences of the byte `b`.
pub open spec fn split_bytes_s(s: Seq<u8>, b: u8) -> Seq<Seq<u8>>
    decreases s.len(),
{
    if s.len() == 0 {
        seq![Seq::<u8>::empty()]
    } else {
        let init = split_bytes_s(s.drop_last(), b);
        if s.last() == b {
            init.push(Seq::<u8>::empty())
        } else {
            init.update(init.len() - 1, init.last().push(s.last()))
        }
    }
}

/// What `String::from_utf8_lossy` makes of the bytes.
pub uninterp spec fn lossy_utf8(bytes: Seq<u8>) -> Seq<char>;

/// `s` without every trailing `c` (`str::trim_end_matches` with a char).
pub open spec fn trim_end_char_s(s: Seq<char>, c: char) -> Seq<char>
    decreases s.len(),
{
    if s.len() > 0 && s.last() == c {
        trim_end_char_s(s.drop_last(), c)
    } else {
        s
    }
}

/// The path text of one listed entry.
pub open spec fn listed_path_s(piece: Seq<u8>, nul_terminated: bool) -> Seq<char> {
    if nul_terminated {
        lossy_text_s(piece)
    } else {
        trim_end_char_s(lossy_text_s(piece), '\r')
    }
}

/// The text of bytes as `String::from_utf8_lossy` decodes them: valid UTF-8
/// decodes plainly; other bytes as the named result says.
pub open spec fn lossy_text_s(bytes: Seq<u8>) -> Seq<char> {
    if valid_utf8(bytes) {
        decode_utf8(bytes)
    } else {
        lossy_utf8(bytes)
    }
}

/// The paths of the non-empty entries, in order.
pub open spec fn listed_paths_s(pieces: Seq<Seq<u8>>, nul_terminated: bool) -> Seq<Seq<char>>
    decreases pieces.len(),
{
    if pieces.len() == 0 {
        Seq::empty()
    } else {
        let init = listed_paths_s(pieces.drop_last(), nul_terminated);
        if pieces.last().len() == 0 {
            init
        } else {
            init.push(listed_path_s(pieces.last(), nul_terminated))
        }
    }
}

/// The paths that `git` printed: entries separated by NUL bytes (with
/// `-z`) or newlines, empty entries skipped, trailing carriage returns
/// dropped from newline-separated entries.
pub open spec fn git_paths_s(stdout: Seq<u8>, nul_terminated: bool) -> Seq<Seq<char>> {
    listed_paths_s(split_bytes_s(stdout, if nul_terminated { 0u8 } else { 10u8 }), nul_terminated)
}

/// Decode bytes as UTF-8, replacing invalid sequences (`String::from_utf8_lossy`).
#[verifier::external_body]
pub(crate) fn utf8_lossy(bytes: &[u8]) -> (r: String)
    ensures
        r@ == lossy_utf8(bytes@),
        valid_utf8(bytes@) ==> r@ == decode_utf8(bytes@),
{
    String::from_utf8_lossy(bytes).into_owned()
}

fn trim_end_char(s: &[char], c: char) -> (r: Vec<char>)
    ensures
        r@ == trim_end_char_s(s@, c),
{
    let mut k = s.len();
    assert(s@.take(k as int) == s@);
    while k > 0 && s[k - 1] == c
        invariant
            k <= s.len(),
            trim_end_char_s(s@.take(k as int), c) == trim_end_char_s(s@, c),
        decreases k,
    {
        assert(s@.take(k as int).drop_last() == s@.take(k - 1));
        k = k - 1;
    }
    crate::text::slice_chars(s, 0, k)
}

fn listed_path(piece: &[u8], nul_terminated: bool) -> (r: String)
    ensures
        r@ == listed_path_s(piece@, nul_terminated),
{
    let text = utf8_lossy(piece);
    if nul_terminated {
        text
    } else {
        let cs = crate::text::to_chars(text.as_str());
        let t = trim_end_char(cs.as_slice(), '\r');
        crate::text::from_chars(t.as_slice())
    }
}

/// The paths in the output of a `git` path listing.
pub fn parse_git_path_output(stdout: &[u8], nul_terminated: bool) -> (r: Vec<String>)
    ensures
        r@.map_values(|p: String| p@) == git_paths_s(stdout@, nul_terminated),
{
    let sep: u8 = if nul_terminated {
        0
    } else {
        10
    };
    let ghost pieces = split_bytes_s(stdout@, sep);
    let mut out: Vec<String> = Vec::new();
    let mut cur: Vec<u8> = Vec::new();
    let mut i: usize = 0;
    while i < stdout.len()
        invariant
            i <= stdout.len(),
            pieces == split_bytes_s(stdout@, sep),
            sep == (if nul_terminated { 0u8 } else { 10u8 }),
            ({
                let ps = split_bytes_s(stdout@.take(i as int), sep);
                &&& ps.len() >= 1
                &&& ps.last() == cur@
                &&& out@.map_values(|p: String| p@) == listed_paths_s(ps.drop_last(), nul_terminated)
            }),
        decreases stdout.len() - i,
    {
        let ghost ps = split_bytes_s(stdout@.take(i as int), sep);
        proof {
            assert(stdout@.take(i + 1).drop_last() == stdout@.take(i as int));
        }
        if stdout[i] == sep {
            let ghost before = out@.map_values(|p: String| p@);
            if cur.len() > 0 {
                let p = listed_path(cur.as_slice(), nul_terminated);
                out.push(p);
            }
            proof {
                let nps = split_bytes_s(stdout@.take(i + 1), sep);
                assert(nps == ps.push(Seq::<u8>::empty()));
                assert(nps.drop_last() == ps);
                assert(ps.drop_last().push(ps.last()) == ps);
                assert(out@.map_values(|p: String| p@) =~= listed_paths_s(ps, nul_terminated));
            }
            cur = Vec::new();
        } else {
            cur.push(stdout[i]);
            proof {
                let nps = split_bytes_s(stdout@.take(i + 1), sep);
                assert(nps.drop_last() == ps.drop_last());
            }
        }
        i = i + 1;
    }
    let ghost ps = split_bytes_s(stdout@.take(i as int), sep);
    assert(stdout@.take(i as int) == stdout@);
    if cur.len() > 0 {
        let p = listed_path(cur.as_slice(), nul_terminated);
        out.push(p);
    }
    proof {
        assert(ps.drop_last().push(ps.last()) == ps);
        assert(out@.map_values(|p: String| p@) =~= listed_paths_s(ps, nul_terminated));
    }
    out
}

// ---------------------------------------------------------------------
// The changed files of a diff
// ---------------------------------------------------------------------

/// `x` added to the paths `s`, ordered by `Path`'s order, unless the same
/// path is there (then the one there stays, as in a `BTreeSet`).
pub open spec fn insert_path(s: Seq<Seq<char>>, x: Seq<char>) -> Seq<Seq<char>>
    decreases s.len(),
{
    if s.len() == 0 {
        seq![x]
    } else if path_eq(x, s[0]) {
        s
    } else if path_lt(x, s[0]) {
        seq![x] + s
    } else {
        seq![s[0]] + insert_path(s.drop_first(), x)
    }
}

/// The distinct paths of `xs` in `Path`'s order, the first text of each
/// path kept (what collecting into a `BTreeSet<PathBuf>` gives).
pub open spec fn path_set_order(xs: Seq<Seq<char>>) -> Seq<Seq<char>>
    decreases xs.len(),
{
    if xs.len() == 0 {
        Seq::empty()
    } else {
        insert_path(path_set_order(xs.drop_last()), xs.last())
    }
}

proof fn lemma_insert_path_at(s: Seq<Seq<char>>, x: Seq<char>, i: int)
    requires
        0 <= i <= s.len(),
        forall|j: int| 0 <= j < i ==> path_lt(#[trigger] s[j], x),
        i == s.len() || !path_lt(s[i], x),
    ensures
        insert_path(s, x) == (if i < s.len() && path_eq(s[i], x) {
            s
        } else {
            s.insert(i, x)
        }),
    decreases i,
{
    if i == 0 {
        if s.len() > 0 {
            lemma_comps_lt_total(path_components(s[0]), path_components(x));
            if !path_eq(x, s[0]) {
                assert(seq![x] + s =~= s.insert(0, x));
            }
        } else {
            assert(seq![x] =~= s.insert(0, x));
        }
    } else {
        lemma_comps_lt_total(path_components(s[0]), path_components(x));
        let t = s.drop_first();
        assert forall|j: int| 0 <= j < i - 1 implies path_lt(#[trigger] t[j], x) by {
            assert(t[j] == s[j + 1]);
        }
        if i < s.len() {
            assert(t[i - 1] == s[i]);
        }
        lemma_insert_path_at(t, x, i - 1);
        if i < s.len() && path_eq(s[i], x) {
            assert(seq![s[0]] + t =~= s);
        } else {
            assert(seq![s[0]] + t.insert(i - 1, x) =~= s.insert(i, x));
        }
    }
}

pub open spec fn strings_view(v: Seq<String>) -> Seq<Seq<char>> {
    v.map_values(|p: String| p@)
}

fn insert_path_sorted(v: &mut Vec<String>, x: String)
    ensures
        strings_view(final(v)@) == insert_path(strings_view(old(v)@), x@),
{
    let ghost s = strings_view(v@);
    let mut p: usize = 0;
    while p < v.len() && path_less(v[p].as_str(), x.as_str())
        invariant
            p <= v.len(),
            s == strings_view(v@),
            forall|j: int| 0 <= j < p ==> path_lt(#[trigger] s[j], x@),
        decreases v.len() - p,
    {
        p = p + 1;
    }
    proof {
        if p < v.len() {
            assert(s[p as int] == v@[p as int]@);
        }
        lemma_insert_path_at(s, x@, p as int);
    }
    if p < v.len() && path_same(v[p].as_str(), x.as_str()) {
        return;
    }
    v.insert(p, x);
    assert(strings_view(v@) =~= s.insert(p as int, x@));
}

/// The two `git` commands (their arguments) that list the changed files
/// of a diff against `git_ref`: `diff --name-only -z <ref> --` and
/// `ls-files --others --exclude-standard -z`. A ref that starts with `-`
/// is refused here, so no command that holds it is ever formed.
pub fn changed_files_commands(git_ref: &str) -> (r: Result<(Vec<String>, Vec<String>), GitError>)
    ensures
        (git_ref@.len() > 0 && git_ref@[0] == '-') ==> (r matches Err(e) && e matches GitError::InvalidDiffRef {
            value,
        } && value@ == git_ref@),
        !(git_ref@.len() > 0 && git_ref@[0] == '-') ==> (r matches Ok((diff, untracked)) && strings_view(diff@)
            == seq!["diff"@, "--name-only"@, "-z"@, git_ref@, "--"@] && strings_view(untracked@) == seq![
            "ls-files"@,
            "--others"@,
            "--exclude-standard"@,
            "-z"@,
        ]),
{
    match validate_git_diff_ref(git_ref) {
        Err(e) => return Err(e),
        Ok(()) => {},
    }
    let mut diff: Vec<String> = Vec::new();
    diff.push(String::from_str("diff"));
    diff.push(String::from_str("--name-only"));
    diff.push(String::from_str("-z"));
    diff.push(String::from_str(git_ref));
    diff.push(String::from_str("--"));
    let mut untracked: Vec<String> = Vec::new();
    untracked.push(String::from_str("ls-files"));
    untracked.push(String::from_str("--others"));
    untracked.push(String::from_str("--exclude-standard"));
    untracked.push(String::from_str("-z"));
    assert(strings_view(diff@) =~= seq!["diff"@, "--name-only"@, "-z"@, git_ref@, "--"@]);
    assert(strings_view(untracked@) =~= seq!["ls-files"@, "--others"@, "--exclude-standard"@, "-z"@]);
    Ok((diff, untracked))
}

/// The changed files of a diff against `git_ref`: the paths that
/// `git diff --name-only -z` and `git ls-files --others -z` listed, each
/// path once, in `Path`'s order. A ref that starts with `-` is refused.
pub fn git_changed_files(git_ref: &str, diff_stdout: &[u8], untracked_stdout: &[u8]) -> (r: Result<
    Vec<String>,
    GitError,
>)
    ensures
        (git_ref@.len() > 0 && git_ref@[0] == '-') ==> (r matches Err(e) && e matches GitError::InvalidDiffRef {
            value,
        } && value@ == git_ref@),
        !(git_ref@.len() > 0 && git_ref@[0] == '-') ==> (r matches Ok(files) && strings_view(files@)
            == path_set_order(git_paths_s(diff_stdout@, true) + git_paths_s(untracked_stdout@, true))),
{
    match validate_git_diff_ref(git_ref) {
        Err(e) => return Err(e),
        Ok(()) => {},
    }
    let mut listed = parse_git_path_output(diff_stdout, true);
    let more = parse_git_path_output(untracked_stdout, true);
    let ghost all = git_paths_s(diff_stdout@, true) + git_paths_s(untracked_stdout@, true);
    let mut k: usize = 0;
    while k < more.len()
        invariant
            k <= more.len(),
            strings_view(more@) == git_paths_s(untracked_stdout@, true),
            all == git_paths_s(diff_stdout@, true) + git_paths_s(untracked_stdout@, true),
            strings_view(listed@) == git_paths_s(diff_stdout@, true) + strings_view(more@).take(k as int),
        decreases more.len() - k,
    {
        let ghost lv = strings_view(listed@);
        listed.push(more[k].clone());
        proof {
            assert(strings_view(listed@) =~= lv.push(more@[k as int]@));
            assert(strings_view(more@).take(k + 1) =~= strings_view(more@).take(k as int).push(more@[k as int]@));
        }
        k = k + 1;
    }
    assert(strings_view(more@).take(more.len() as int) == strings_view(more@));
    let ghost xs = strings_view(listed@);
    assert(xs == all);
    let mut out: Vec<String> = Vec::new();
    let mut i: usize = 0;
    while i < listed.len()
        invariant
            i <= listed.len(),
            xs == strings_view(listed@),
            strings_view(out@) == path_set_order(xs.take(i as int)),
        decreases listed.len() - i,
    {
        proof {
            assert(xs.take(i + 1).drop_last() == xs.take(i as int));
            assert(xs.take(i + 1).last() == listed@[i as int]@);
        }
        insert_path_sorted(&mut out, listed[i].clone());
        i = i + 1;
    }
    assert(xs.take(listed.len() as int) == xs);
    Ok(out)
}

/// The result of a `git` path listing that ran: the listed paths (NUL
/// separated when the arguments hold `-z`), or, when `git` failed, the
/// command and its trimmed error output.
pub fn git_command_path_lines(args: &[&str], success: bool, stdout: &[u8], stderr: &[u8]) -> (r: Result<
    Vec<String>,
    GitError,
>)
    ensures
        !success ==> (r matches Err(e) && e matches GitError::CommandFailed { command, stderr: err }
            && command@ == join_s(strs_view(args@), " "@) && err@ == trim_s(lossy_utf8(stderr@))),
        success ==> (r matches Ok(paths) && strings_view(paths@) == git_paths_s(
            stdout@,
            strs_view(args@).contains("-z"@),
        )),
{
    if !success {
        let text = utf8_lossy(stderr);
        let cs = crate::text::to_chars(text.as_str());
        let t = crate::text::trim_chars(cs.as_slice());
        return Err(
            GitError::CommandFailed { command: format_command(args), stderr: crate::text::from_chars(t.as_slice()) },
        );
    }
    let ghost names = strs_view(args@);
    let mut z = false;
    let mut i: usize = 0;
    while i < args.len()
        invariant
            i <= args.len(),
            names == strs_view(args@),
            z ==> names.contains("-z"@),
            !z ==> forall|k: int| 0 <= k < i ==> names[k] != "-z"@,
        decreases args.len() - i,
    {
        if crate::text::str_eq(args[i], "-z") {
            assert(names[i as int] == "-z"@);
            z = true;
        }
        i = i + 1;
    }
    proof {
        if !z && names.contains("-z"@) {
            let k = choose|k: int| 0 <= k < names.len() && names[k] == "-z"@;
            assert(names[k] != "-z"@);
        }
    }
    Ok(parse_git_path_output(stdout, z))
}

// ---------------------------------------------------------------------
// Laws of the changed-file list
// ---------------------------------------------------------------------

/// The paths ascend strictly in `Path`'s order.
pub open spec fn paths_ascending(s: Seq<Seq<char>>) -> bool {
    forall|i: int, j: int| 0 <= i < j < s.len() ==> path_lt(#[trigger] s[i], #[trigger] s[j])
}

proof fn lemma_insert_path_props(s: Seq<Seq<char>>, x: Seq<char>)
    requires
        paths_ascending(s),
    ensures
        paths_ascending(insert_path(s, x)),
        forall|y: Seq<char>| #[trigger] insert_path(s, x).contains(y) ==> s.contains(y) || y == x,
        forall|y: Seq<char>| s.contains(y) ==> #[trigger] insert_path(s, x).contains(y),
        exists|j: int| 0 <= j < insert_path(s, x).len() && path_eq(x, #[trigger] insert_path(s, x)[j]),
    decreases s.len(),
{
    let r = insert_path(s, x);
    if s.len() == 0 {
        assert(r[0] == x);
    } else if path_eq(x, s[0]) {
        assert(path_eq(x, r[0]));
    } else if path_lt(x, s[0]) {
        assert forall|i: int, j: int| 0 <= i < j < r.len() implies path_lt(#[trigger] r[i], #[trigger] r[j]) by {
            if i == 0 {
                assert(r[j] == s[j - 1]);
                if j - 1 > 0 {
                    lemma_comps_lt_trans(path_components(x), path_components(s[0]), path_components(s[j - 1]));
                }
            } else {
                assert(r[i] == s[i - 1]);
                assert(r[j] == s[j - 1]);
            }
        }
        assert forall|y: Seq<char>| #[trigger] r.contains(y) implies s.contains(y) || y == x by {
            let k = choose|k: int| 0 <= k < r.len() && r[k] == y;
            if k > 0 {
                assert(s[k - 1] == y);
            }
        }
        assert forall|y: Seq<char>| s.contains(y) implies #[trigger] r.contains(y) by {
            let k = choose|k: int| 0 <= k < s.len() && s[k] == y;
            assert(r[k + 1] == y);
        }
        assert(path_eq(x, r[0]));
    } else {
        let t = s.drop_first();
        assert forall|i: int, j: int| 0 <= i < j < t.len() implies path_lt(#[trigger] t[i], #[trigger] t[j]) by {
            assert(t[i] == s[i + 1]);
            assert(t[j] == s[j + 1]);
        }
        lemma_insert_path_props(t, x);
        let rt = insert_path(t, x);
        lemma_comps_lt_total(path_components(x), path_components(s[0]));
        assert(r == seq![s[0]] + rt);
        assert forall|i: int, j: int| 0 <= i < j < r.len() implies path_lt(#[trigger] r[i], #[trigger] r[j]) by {
            if i == 0 {
                assert(r[j] == rt[j - 1]);
                assert(rt.contains(rt[j - 1]));
                assert(insert_path(t, x).contains(rt[j - 1]));
                if rt[j - 1] != x {
                    assert(t.contains(rt[j - 1]));
                    let k = choose|k: int| 0 <= k < t.len() && t[k] == rt[j - 1];
                    assert(t[k] == s[k + 1]);
                }
            } else {
                assert(r[i] == rt[i - 1]);
                assert(r[j] == rt[j - 1]);
            }
        }
        assert forall|y: Seq<char>| #[trigger] r.contains(y) implies s.contains(y) || y == x by {
            let k = choose|k: int| 0 <= k < r.len() && r[k] == y;
            if k > 0 {
                assert(rt[k - 1] == y);
                assert(insert_path(t, x).contains(y));
                if t.contains(y) {
                    let m = choose|m: int| 0 <= m < t.len() && t[m] == y;
                    assert(s[m + 1] == y);
                }
            } else {
                assert(s[0] == y);
            }
        }
        assert forall|y: Seq<char>| s.contains(y) implies #[trigger] r.contains(y) by {
            let k = choose|k: int| 0 <= k < s.len() && s[k] == y;
            if k == 0 {
                assert(r[0] == y);
            } else {
                assert(t[k - 1] == y);
                assert(t.contains(y));
                assert(insert_path(t, x).contains(y));
                let m = choose|m: int| 0 <= m < rt.len() && rt[m] == y;
                assert(r[m + 1] == y);
            }
        }
        let j = choose|j: int| 0 <= j < rt.len() && path_eq(x, #[trigger] rt[j]);
        assert(r[j + 1] == rt[j]);
    }
}

/// The changed files come in `Path`'s order, each path once; each is one of
/// the listed paths, and every listed path is among them (as the same path).
pub proof fn law_changed_files_ordered_and_complete(xs: Seq<Seq<char>>)
    ensures
        paths_ascending(path_set_order(xs)),
        forall|j: int| 0 <= j < path_set_order(xs).len() ==> xs.contains(#[trigger] path_set_order(xs)[j]),
        forall|i: int|
            0 <= i < xs.len() ==> exists|j: int|
                0 <= j < path_set_order(xs).len() && path_eq(#[trigger] xs[i], path_set_order(xs)[j]),
    decreases xs.len(),
{
    if xs.len() > 0 {
        let init = xs.drop_last();
        law_changed_files_ordered_and_complete(init);
        let s = path_set_order(init);
        let x = xs.last();
        lemma_insert_path_props(s, x);
        let r = path_set_order(xs);
        assert(r == insert_path(s, x));
        assert forall|j: int| 0 <= j < r.len() implies xs.contains(#[trigger] r[j]) by {
            assert(insert_path(s, x).contains(r[j]));
            if s.contains(r[j]) {
                let m = choose|m: int| 0 <= m < s.len() && s[m] == r[j];
                let q = choose|q: int| 0 <= q < init.len() && init[q] == s[m];
                assert(xs[q] == init[q]);
            } else {
                assert(xs[xs.len() - 1] == x);
            }
        }
        assert forall|i: int| 0 <= i < xs.len() implies exists|j: int|
            0 <= j < r.len() && path_eq(#[trigger] xs[i], r[j]) by {
            if i < xs.len() - 1 {
                assert(xs[i] == init[i]);
                let j = choose|j: int| 0 <= j < s.len() && path_eq(#[trigger] init[i], s[j]);
                assert(s.contains(s[j]));
                assert(insert_path(s, x).contains(s[j]));
                let m = choose|m: int| 0 <= m < r.len() && r[m] == s[j];
                assert(path_eq(xs[i], r[m]));
            }
        }
    }
}

} // verus!
