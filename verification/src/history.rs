//! Scan history: snapshots of past scans, trends and blame data.
use vstd::prelude::*;
use vstd::string::*;
use vstd::utf8::{decode_utf8, encode_utf8, is_char_boundary};
use crate::fix::patcher::{repeat_char, repeat_s, PKG_VERSION};
use crate::git::{lossy_utf8, utf8_lossy, GitError};
use crate::model::finding::{count_severity, findings_of, ConceptResult, Finding, ScanResult};
use crate::model::Severity;
use crate::style::{dimmed, dimmed_s, fg_s, green, red};
use crate::text::{decimal_chars, decimal_s, pad_left_s, pad_right_s, push_decimal, push_pad_left, push_pad_right, push_str};
use crate::text::{first_word, lines_chars, parse_i64, parse_i64_s, reversed_vec, trim_chars, trim_s, first_word_s, from_chars, lines_of, lines_s, slice_chars, starts_with_chars, starts_with_s, to_chars, vv};

verus! {

/// Snapshot of a single scan for history tracking.
#[derive(Debug, Clone)]
pub struct ScanSnapshot {
    /// Git commit SHA at the time of the scan.
    pub commit_sha: String,
    /// Author of the commit.
    pub author: String,
    /// ISO 8601 timestamp.
    pub timestamp: String,
    /// Summary counts.
    pub errors: usize,
    pub warnings: usize,
    pub info: usize,
    /// Per-concept finding summaries.
    pub findings: Vec<FindingRecord>,
}

/// Record of a single finding in a snapshot.
#[derive(Debug, Clone)]
pub struct FindingRecord {
    pub rule_id: String,
    pub concept_id: String,
    pub severity: String,
    pub left_file: String,
    pub left_value: String,
    pub right_file: String,
    pub right_value: String,
}

/// Persistent scan history.
#[derive(Debug, Clone, Default)]
pub struct ScanHistory {
    pub snapshots: Vec<ScanSnapshot>,
}

/// Information about when a finding was introduced.
#[derive(Debug, Clone)]
pub struct BlameInfo {
    pub commit_sha: String,
    pub author: String,
    pub timestamp: String,
}

/// Result of a trend analysis.
#[derive(Debug, Clone)]
pub struct TrendReport {
    pub snapshots: Vec<TrendEntry>,
    pub new_findings: Vec<FindingRecord>,
    pub resolved_findings: Vec<FindingRecord>,
}

/// A single entry in a trend report.
#[derive(Debug, Clone)]
pub struct TrendEntry {
    pub commit_sha: String,
    pub timestamp: String,
    pub errors: usize,
    pub warnings: usize,
    pub info: usize,
    pub total: usize,
}

/// Summary of filtering findings by the time they were introduced.
#[derive(Debug)]
pub struct SinceReport {
    pub kept: usize,
    pub filtered: usize,
}

/// Key for deduplicating findings across snapshots.
#[derive(Debug, Clone, Hash, PartialEq, Eq)]
pub struct FindingKey {
    pub rule_id: String,
    pub left_file: String,
    pub right_file: String,
    pub left_value: String,
    pub right_value: String,
}

/// The identity of a finding across snapshots: rule, files and values.
pub open spec fn record_key(r: FindingRecord) -> (Seq<char>, Seq<char>, Seq<char>, Seq<char>, Seq<char>) {
    (r.rule_id@, r.left_file@, r.right_file@, r.left_value@, r.right_value@)
}

/// Some record of `rs` has the key `k`.
pub open spec fn has_key(rs: Seq<FindingRecord>, k: (Seq<char>, Seq<char>, Seq<char>, Seq<char>, Seq<char>)) -> bool {
    exists|i: int| 0 <= i < rs.len() && #[trigger] record_key(rs[i]) == k
}

/// The records of `current`, in order, whose key no record of `prev` has.
pub open spec fn records_not_in(current: Seq<FindingRecord>, prev: Seq<FindingRecord>) -> Seq<FindingRecord>
    decreases current.len(),
{
    if current.len() == 0 {
        Seq::empty()
    } else {
        let init = records_not_in(current.drop_last(), prev);
        if has_key(prev, record_key(current.last())) {
            init
        } else {
            init.push(current.last())
        }
    }
}

impl FindingKey {
    /// The key's fields.
    pub open spec fn view_key(self) -> (Seq<char>, Seq<char>, Seq<char>, Seq<char>, Seq<char>) {
        (self.rule_id@, self.left_file@, self.right_file@, self.left_value@, self.right_value@)
    }

    /// The key of a finding record.
    pub fn from_record(record: &FindingRecord) -> (r: Self)
        ensures
            r.view_key() == record_key(*record),
            r.rule_id@ == record.rule_id@,
            r.left_file@ == record.left_file@,
            r.right_file@ == record.right_file@,
            r.left_value@ == record.left_value@,
            r.right_value@ == record.right_value@,
    {
        FindingKey {
            rule_id: record.rule_id.clone(),
            left_file: record.left_file.clone(),
            right_file: record.right_file.clone(),
            left_value: record.left_value.clone(),
            right_value: record.right_value.clone(),
        }
    }

    /// Equality of keys.
    pub fn same_as(&self, other: &FindingKey) -> (r: bool)
        ensures
            r == (self.view_key() == other.view_key()),
    {
        string_eq(&self.rule_id, &other.rule_id) && string_eq(&self.left_file, &other.left_file)
            && string_eq(&self.right_file, &other.right_file) && string_eq(
            &self.left_value,
            &other.left_value,
        ) && string_eq(&self.right_value, &other.right_value)
    }
}

fn string_eq(a: &String, b: &String) -> (r: bool)
    ensures
        r == (a@ == b@),
{
    crate::text::str_eq(a.as_str(), b.as_str())
}

impl FindingRecord {
    /// A field-by-field copy of the record.
    pub fn duplicate(&self) -> (r: Self)
        ensures
            r == *self,
    {
        FindingRecord {
            rule_id: self.rule_id.clone(),
            concept_id: self.concept_id.clone(),
            severity: self.severity.clone(),
            left_file: self.left_file.clone(),
            left_value: self.left_value.clone(),
            right_file: self.right_file.clone(),
            right_value: self.right_value.clone(),
        }
    }
}

/// Whether some record of `rs` has the key `k`.
fn contains_key(rs: &[FindingRecord], k: &FindingKey) -> (r: bool)
    ensures
        r == has_key(rs@, k.view_key()),
{
    let mut i: usize = 0;
    while i < rs.len()
        invariant
            i <= rs.len(),
            forall|j: int| 0 <= j < i ==> record_key(#[trigger] rs@[j]) != k.view_key(),
        decreases rs.len() - i,
    {
        let rk = FindingKey::from_record(&rs[i]);
        if rk.same_as(k) {
            return true;
        }
        i = i + 1;
    }
    false
}

/// The records of `current` whose key is not in `prev`.
fn records_missing_from(current: &[FindingRecord], prev: &[FindingRecord]) -> (r: Vec<FindingRecord>)
    ensures
        r@ == records_not_in(current@, prev@),
{
    let mut out: Vec<FindingRecord> = Vec::new();
    let mut i: usize = 0;
    while i < current.len()
        invariant
            i <= current.len(),
            out@ == records_not_in(current@.take(i as int), prev@),
        decreases current.len() - i,
    {
        proof {
            assert(current@.take(i + 1).drop_last() == current@.take(i as int));
            assert(current@.take(i + 1).last() == current@[i as int]);
        }
        let k = FindingKey::from_record(&current[i]);
        if !contains_key(prev, &k) {
            out.push(current[i].duplicate());
        }
        i = i + 1;
    }
    assert(current@.take(current.len() as int) == current@);
    out
}

/// The findings of `current` that `prev` does not have (new), and those of
/// `prev` that `current` does not have (resolved), each in its list's order.
pub fn diff_findings(prev: &[FindingRecord], current: &[FindingRecord]) -> (r: (
    Vec<FindingRecord>,
    Vec<FindingRecord>,
))
    ensures
        r.0@ == records_not_in(current@, prev@),
        r.1@ == records_not_in(prev@, current@),
{
    let new_findings = records_missing_from(current, prev);
    let resolved_findings = records_missing_from(prev, current);
    (new_findings, resolved_findings)
}

/// The counts of every snapshot add up within `usize`.
pub open spec fn totals_fit(snapshots: Seq<ScanSnapshot>) -> bool {
    forall|i: int|
        0 <= i < snapshots.len() ==> #[trigger] snapshots[i].errors + snapshots[i].warnings
            + snapshots[i].info <= usize::MAX
}

/// The trend entry of a snapshot.
pub open spec fn trend_entry_of(e: TrendEntry, s: ScanSnapshot) -> bool {
    &&& e.commit_sha == s.commit_sha
    &&& e.timestamp == s.timestamp
    &&& e.errors == s.errors
    &&& e.warnings == s.warnings
    &&& e.info == s.info
    &&& e.total == s.errors + s.warnings + s.info
}

impl ScanHistory {
    /// Generate a trend report: one entry per snapshot, and the findings new
    /// and resolved between the last two snapshots (none with fewer than two).
    pub fn trend(&self) -> (r: TrendReport)
        requires
            totals_fit(self.snapshots@),
        ensures
            r.snapshots@.len() == self.snapshots@.len(),
            forall|i: int|
                0 <= i < r.snapshots@.len() ==> trend_entry_of(
                    #[trigger] r.snapshots@[i],
                    self.snapshots@[i],
                ),
            ({
                let n = self.snapshots@.len();
                if n >= 2 {
                    let prev = self.snapshots@[n - 2].findings@;
                    let cur = self.snapshots@[n - 1].findings@;
                    r.new_findings@ == records_not_in(cur, prev) && r.resolved_findings@
                        == records_not_in(prev, cur)
                } else {
                    r.new_findings@.len() == 0 && r.resolved_findings@.len() == 0
                }
            }),
    {
        let mut entries: Vec<TrendEntry> = Vec::new();
        let mut i: usize = 0;
        while i < self.snapshots.len()
            invariant
                i <= self.snapshots.len(),
                totals_fit(self.snapshots@),
                entries@.len() == i,
                forall|j: int|
                    0 <= j < i ==> trend_entry_of(#[trigger] entries@[j], self.snapshots@[j]),
            decreases self.snapshots.len() - i,
        {
            let s = &self.snapshots[i];
            assert(s.errors + s.warnings + s.info <= usize::MAX);
            entries.push(
                TrendEntry {
                    commit_sha: s.commit_sha.clone(),
                    timestamp: s.timestamp.clone(),
                    errors: s.errors,
                    warnings: s.warnings,
                    info: s.info,
                    total: s.errors + s.warnings + s.info,
                },
            );
            i = i + 1;
        }
        let n = self.snapshots.len();
        let (new_findings, resolved_findings) = if n >= 2 {
            let prev = &self.snapshots[n - 2];
            let current = &self.snapshots[n - 1];
            diff_findings(prev.findings.as_slice(), current.findings.as_slice())
        } else {
            (Vec::new(), Vec::new())
        };
        TrendReport { snapshots: entries, new_findings, resolved_findings }
    }
}

/// The UTF-8 length of one character (`char::len_utf8`).
pub open spec fn char_utf8_len(c: char) -> nat {
    if (c as u32) < 0x80 {
        1
    } else if (c as u32) < 0x800 {
        2
    } else if (c as u32) < 0x10000 {
        3
    } else {
        4
    }
}

/// The UTF-8 length of a character sequence (`str::len`).
pub open spec fn utf8_len_s(s: Seq<char>) -> nat
    decreases s.len(),
{
    if s.len() == 0 {
        0
    } else {
        utf8_len_s(s.drop_last()) + char_utf8_len(s.last())
    }
}

/// The blame fields after one more porcelain line, or `None` when a long
/// first line holds no word.
pub open spec fn blame_step(
    st: (Seq<char>, Seq<char>, Seq<char>),
    line: Seq<char>,
) -> Option<(Seq<char>, Seq<char>, Seq<char>)> {
    let (sha, author, time) = st;
    if sha.len() == 0 && utf8_len_s(line) >= 40 {
        match first_word_s(line) {
            Some(w) => Some((w, author, time)),
            None => None,
        }
    } else if starts_with_s(line, "author "@) {
        Some((sha, line.skip("author "@.len() as int), time))
    } else if starts_with_s(line, "author-time "@) {
        Some((sha, author, line.skip("author-time "@.len() as int)))
    } else {
        Some(st)
    }
}

/// The blame fields (sha, author, time) after the given lines.
pub open spec fn blame_fold(lines: Seq<Seq<char>>) -> Option<(Seq<char>, Seq<char>, Seq<char>)>
    decreases lines.len(),
{
    if lines.len() == 0 {
        Some((Seq::empty(), Seq::empty(), Seq::empty()))
    } else {
        match blame_fold(lines.drop_last()) {
            Some(st) => blame_step(st, lines.last()),
            None => None,
        }
    }
}

/// What `git blame --porcelain` output tells: the commit from the first
/// long line, and the values of the `author` and `author-time` headers.
pub open spec fn blame_s(output: Seq<char>) -> Option<(Seq<char>, Seq<char>, Seq<char>)> {
    match blame_fold(lines_s(output)) {
        Some((sha, author, time)) => if sha.len() == 0 {
            None
        } else {
            Some((sha, author, time))
        },
        None => None,
    }
}

/// The UTF-8 length of a character sequence.
fn utf8_len(s: &[char]) -> (r: u64)
    requires
        s.len() < 0x1000_0000_0000_0000,
    ensures
        r == utf8_len_s(s@),
{
    let mut n: u64 = 0;
    let mut i: usize = 0;
    while i < s.len()
        invariant
            i <= s.len() < 0x1000_0000_0000_0000,
            n == utf8_len_s(s@.take(i as int)),
            n <= 4 * i,
        decreases s.len() - i,
    {
        assert(s@.take(i + 1).drop_last() == s@.take(i as int));
        let c = s[i] as u32;
        n = n + if c < 0x80 {
            1
        } else if c < 0x800 {
            2
        } else if c < 0x10000 {
            3
        } else {
            4
        };
        i = i + 1;
    }
    assert(s@.take(s.len() as int) == s@);
    n
}

/// Parse `git blame --porcelain` output.
pub fn parse_blame_output(output: &str) -> (r: Option<BlameInfo>)
    requires
        output@.len() < 0x1000_0000_0000_0000,
    ensures
        r is None <==> blame_s(output@) is None,
        r matches Some(b) ==> blame_s(output@) == Some((b.commit_sha@, b.author@, b.timestamp@)),
{
    let lines = lines_of(output);
    let ghost ls = lines_s(output@);
    let mut sha: Vec<char> = Vec::new();
    let mut author: Vec<char> = Vec::new();
    let mut timestamp: Vec<char> = Vec::new();
    let author_kw = to_chars("author ");
    let time_kw = to_chars("author-time ");
    proof {
        lemma_lines_short(output@);
    }
    let mut i: usize = 0;
    while i < lines.len()
        invariant
            i <= lines.len(),
            vv(lines@) == ls,
            ls == lines_s(output@),
            forall|j: int| 0 <= j < ls.len() ==> (#[trigger] ls[j]).len() < 0x1000_0000_0000_0000,
            author_kw@ == "author "@,
            time_kw@ == "author-time "@,
            blame_fold(ls.take(i as int)) == Some((sha@, author@, timestamp@)),
        decreases lines.len() - i,
    {
        let line = lines[i].as_slice();
        proof {
            assert(ls.take(i + 1).drop_last() == ls.take(i as int));
            assert(ls.take(i + 1).last() == line@);
            assert(ls[i as int] == line@);
        }
        if sha.len() == 0 && utf8_len(line) >= 40 {
            match first_word(line) {
                Some(w) => {
                    sha = w;
                },
                None => {
                    proof {
                        lemma_blame_abort_sticks(ls, i as int + 1);
                    }
                    return None;
                },
            }
        } else if starts_with_chars(line, author_kw.as_slice()) {
            author = slice_chars(line, author_kw.len(), line.len());
            assert(author@ == line@.skip(author_kw@.len() as int));
        } else if starts_with_chars(line, time_kw.as_slice()) {
            timestamp = slice_chars(line, time_kw.len(), line.len());
            assert(timestamp@ == line@.skip(time_kw@.len() as int));
        }
        i = i + 1;
    }
    assert(ls.take(lines.len() as int) == ls);
    if sha.len() == 0 {
        return None;
    }
    Some(
        BlameInfo {
            commit_sha: from_chars(sha.as_slice()),
            author: from_chars(author.as_slice()),
            timestamp: from_chars(timestamp.as_slice()),
        },
    )
}

/// Once the fold aborts it stays aborted.
proof fn lemma_blame_abort_sticks(ls: Seq<Seq<char>>, k: int)
    requires
        0 <= k <= ls.len(),
        blame_fold(ls.take(k)) is None,
    ensures
        blame_fold(ls) is None,
    decreases ls.len() - k,
{
    if k < ls.len() {
        assert(ls.drop_last().take(k) == ls.take(k));
        lemma_blame_abort_sticks(ls.drop_last(), k);
    } else {
        assert(ls.take(k) == ls);
    }
}

/// No line is longer than its text.
proof fn lemma_lines_short(s: Seq<char>)
    ensures
        forall|j: int| 0 <= j < lines_s(s).len() ==> (#[trigger] lines_s(s)[j]).len() <= s.len(),
{
    crate::text::lemma_lines_bounded(s);
}

// ---------------------------------------------------------------------
// The trend report
// ---------------------------------------------------------------------

/// The first 10 bytes of a commit id, when it is longer.
pub open spec fn sha_short_s(sha: Seq<char>) -> Seq<char> {
    let b = encode_utf8(sha);
    if b.len() > 10 {
        decode_utf8(b.take(10))
    } else {
        sha
    }
}

/// A commit id can be cut at its tenth byte.
pub open spec fn sha_cuttable(sha: Seq<char>) -> bool {
    encode_utf8(sha).len() <= usize::MAX && (encode_utf8(sha).len() > 10 ==> is_char_boundary(
        encode_utf8(sha),
        10,
    ))
}

/// The right-aligned number columns of a trend row.
pub open spec fn number_cols_s(c: Seq<char>, d: Seq<char>, e: Seq<char>, f: Seq<char>) -> Seq<char> {
    " "@ + pad_left_s(c, 6) + " "@ + pad_left_s(d, 6) + " "@ + pad_left_s(e, 6) + " "@ + pad_left_s(f, 6)
}

/// A row of the trend table.
pub open spec fn trend_row_s(
    a: Seq<char>,
    b: Seq<char>,
    c: Seq<char>,
    d: Seq<char>,
    e: Seq<char>,
    f: Seq<char>,
) -> Seq<char> {
    "  "@ + pad_right_s(a, 12) + " "@ + pad_right_s(b, 20) + number_cols_s(c, d, e, f) + "\n"@
}

pub open spec fn trend_entry_row_s(t: TrendEntry) -> Seq<char> {
    trend_row_s(
        sha_short_s(t.commit_sha@),
        t.timestamp@,
        decimal_s(t.errors as nat),
        decimal_s(t.warnings as nat),
        decimal_s(t.info as nat),
        decimal_s(t.total as nat),
    )
}

pub open spec fn trend_rows_s(ts: Seq<TrendEntry>) -> Seq<char>
    decreases ts.len(),
{
    if ts.len() == 0 {
        Seq::empty()
    } else {
        trend_rows_s(ts.drop_last()) + trend_entry_row_s(ts.last())
    }
}

pub open spec fn finding_lines_s(fs: Seq<FindingRecord>) -> Seq<char>
    decreases fs.len(),
{
    if fs.len() == 0 {
        Seq::empty()
    } else {
        let f = fs.last();
        finding_lines_s(fs.drop_last()) + "  "@ + f.concept_id@ + " ["@ + f.rule_id@ + "]: "@
            + f.left_value@ + " vs "@ + f.right_value@ + "\n"@
    }
}

/// A section listing findings under a colored title, when there are any.
pub open spec fn findings_section_s(title: Seq<char>, code: Seq<char>, fs: Seq<FindingRecord>, no_color: bool) -> Seq<char> {
    if fs.len() == 0 {
        Seq::empty()
    } else {
        let t = title + " ("@ + decimal_s(fs.len()) + ")"@;
        (if no_color {
            t
        } else {
            fg_s(code, t)
        }) + ":\n"@ + finding_lines_s(fs) + "\n"@
    }
}

/// The text of the terminal trend report.
pub open spec fn trend_report_s(t: TrendReport, no_color: bool) -> Seq<char> {
    let head = "conflic v"@ + PKG_VERSION@ + " - trend report\n\n"@;
    if t.snapshots@.len() == 0 {
        head + "No scan history found. Run `conflic --record` to start tracking.\n"@
    } else {
        let sep = repeat_s('-', 70);
        head + trend_row_s("Commit"@, "Timestamp"@, "Errors"@, "Warns"@, "Info"@, "Total"@) + (if no_color {
            sep
        } else {
            dimmed_s(sep)
        }) + "\n"@ + trend_rows_s(t.snapshots@) + "\n"@ + findings_section_s(
            "New findings"@,
            "31"@,
            t.new_findings@,
            no_color,
        ) + findings_section_s("Resolved findings"@, "32"@, t.resolved_findings@, no_color)
    }
}

fn sha_short(sha: &str) -> (r: String)
    requires
        sha_cuttable(sha@),
    ensures
        r@ == sha_short_s(sha@),
{
    if sha.len() > 10 {
        let (head, _) = sha.split_at(10);
        proof {
            broadcast use vstd::utf8::encode_utf8_decode_utf8;
            assert(head.spec_bytes() == encode_utf8(sha@).take(10));
            assert(decode_utf8(encode_utf8(head@)) == head@);
        }
        String::from_str(head)
    } else {
        String::from_str(sha)
    }
}

fn push_number_cols(out: &mut String, c: &str, d: &str, e: &str, f: &str)
    ensures
        final(out)@ == old(out)@ + number_cols_s(c@, d@, e@, f@),
{
    push_str(out, " ");
    push_pad_left(out, c, 6);
    push_str(out, " ");
    push_pad_left(out, d, 6);
    push_str(out, " ");
    push_pad_left(out, e, 6);
    push_str(out, " ");
    push_pad_left(out, f, 6);
    assert(final(out)@ =~= old(out)@ + number_cols_s(c@, d@, e@, f@));
}

fn push_trend_row(out: &mut String, a: &str, b: &str, c: &str, d: &str, e: &str, f: &str)
    ensures
        final(out)@ == old(out)@ + trend_row_s(a@, b@, c@, d@, e@, f@),
{
    push_str(out, "  ");
    push_pad_right(out, a, 12);
    push_str(out, " ");
    push_pad_right(out, b, 20);
    push_number_cols(out, c, d, e, f);
    push_str(out, "\n");
    assert(final(out)@ =~= old(out)@ + trend_row_s(a@, b@, c@, d@, e@, f@));
}

fn decimal_string(n: usize) -> (s: String)
    ensures
        s@ == decimal_s(n as nat),
{
    let d = decimal_chars(n as u64);
    from_chars(d.as_slice())
}

fn push_trend_entry(out: &mut String, t: &TrendEntry)
    requires
        sha_cuttable(t.commit_sha@),
    ensures
        final(out)@ == old(out)@ + trend_entry_row_s(*t),
{
    let sha = sha_short(t.commit_sha.as_str());
    let e = decimal_string(t.errors);
    let w = decimal_string(t.warnings);
    let i = decimal_string(t.info);
    let tot = decimal_string(t.total);
    push_trend_row(out, sha.as_str(), t.timestamp.as_str(), e.as_str(), w.as_str(), i.as_str(), tot.as_str());
}

fn push_findings_section(out: &mut String, title: &str, green_title: bool, fs: &Vec<FindingRecord>, no_color: bool)
    ensures
        final(out)@ == old(out)@ + findings_section_s(
            title@,
            if green_title {
                "32"@
            } else {
                "31"@
            },
            fs@,
            no_color,
        ),
{
    if fs.len() == 0 {
        assert(old(out)@ + findings_section_s(
            title@,
            if green_title {
                "32"@
            } else {
                "31"@
            },
            fs@,
            no_color,
        ) =~= old(out)@);
        return;
    }
    let ghost start = out@;
    let mut t = String::from_str(title);
    push_str(&mut t, " (");
    push_decimal(&mut t, fs.len() as u64);
    push_str(&mut t, ")");
    if no_color {
        push_str(out, t.as_str());
    } else if green_title {
        let c = green(t.as_str());
        push_str(out, c.as_str());
    } else {
        let c = red(t.as_str());
        push_str(out, c.as_str());
    }
    push_str(out, ":\n");
    let ghost head = out@;
    let mut k: usize = 0;
    while k < fs.len()
        invariant
            k <= fs.len(),
            out@ == head + finding_lines_s(fs@.take(k as int)),
        decreases fs.len() - k,
    {
        let f = &fs[k];
        proof {
            assert(fs@.take(k + 1).drop_last() == fs@.take(k as int));
            assert(fs@.take(k + 1).last() == fs@[k as int]);
        }
        push_str(out, "  ");
        push_str(out, f.concept_id.as_str());
        push_str(out, " [");
        push_str(out, f.rule_id.as_str());
        push_str(out, "]: ");
        push_str(out, f.left_value.as_str());
        push_str(out, " vs ");
        push_str(out, f.right_value.as_str());
        push_str(out, "\n");
        k = k + 1;
    }
    assert(fs@.take(fs.len() as int) == fs@);
    push_str(out, "\n");
    assert(out@ =~= start + findings_section_s(
        title@,
        if green_title {
            "32"@
        } else {
            "31"@
        },
        fs@,
        no_color,
    ));
}

/// Render a trend report for terminal output: the snapshots as a table,
/// then the findings that are new and those resolved since the previous scan.
pub fn render_trend(trend: &TrendReport, no_color: bool) -> (r: String)
    requires
        forall|i: int| 0 <= i < trend.snapshots@.len() ==> sha_cuttable(#[trigger] trend.snapshots@[i].commit_sha@),
    ensures
        r@ == trend_report_s(*trend, no_color),
{
    let mut out = String::new();
    push_str(&mut out, "conflic v");
    push_str(&mut out, PKG_VERSION);
    push_str(&mut out, " - trend report\n\n");
    if trend.snapshots.len() == 0 {
        push_str(&mut out, "No scan history found. Run `conflic --record` to start tracking.\n");
        return out;
    }
    push_trend_row(&mut out, "Commit", "Timestamp", "Errors", "Warns", "Info", "Total");
    let sep = repeat_char('-', 70);
    if no_color {
        push_str(&mut out, sep.as_str());
    } else {
        let d = dimmed(sep.as_str());
        push_str(&mut out, d.as_str());
    }
    push_str(&mut out, "\n");
    let ghost head = out@;
    let ts = &trend.snapshots;
    let mut i: usize = 0;
    while i < ts.len()
        invariant
            i <= ts.len(),
            ts == &trend.snapshots,
            forall|j: int| 0 <= j < ts@.len() ==> sha_cuttable(#[trigger] ts@[j].commit_sha@),
            out@ == head + trend_rows_s(ts@.take(i as int)),
        decreases ts.len() - i,
    {
        proof {
            assert(ts@.take(i + 1).drop_last() == ts@.take(i as int));
            assert(ts@.take(i + 1).last() == ts@[i as int]);
        }
        push_trend_entry(&mut out, &ts[i]);
        i = i + 1;
    }
    assert(ts@.take(ts.len() as int) == ts@);
    push_str(&mut out, "\n");
    push_findings_section(&mut out, "New findings", false, &trend.new_findings, no_color);
    push_findings_section(&mut out, "Resolved findings", true, &trend.resolved_findings, no_color);
    assert(out@ =~= trend_report_s(*trend, no_color));
    out
}

// ---------------------------------------------------------------------
// Laws of finding diffs
// ---------------------------------------------------------------------

/// A finding is new exactly when no finding of the previous scan has its
/// key: every record kept is one of `current` whose key `prev` lacks, and
/// every such record is kept.
pub proof fn law_new_findings_exact(current: Seq<FindingRecord>, prev: Seq<FindingRecord>)
    ensures
        forall|j: int|
            0 <= j < records_not_in(current, prev).len() ==> current.contains(
                #[trigger] records_not_in(current, prev)[j],
            ) && !has_key(prev, record_key(records_not_in(current, prev)[j])),
        forall|i: int|
            0 <= i < current.len() && !has_key(prev, record_key(#[trigger] current[i])) ==> records_not_in(
                current,
                prev,
            ).contains(current[i]),
    decreases current.len(),
{
    if current.len() > 0 {
        let init = current.drop_last();
        law_new_findings_exact(init, prev);
        let r0 = records_not_in(init, prev);
        let r = records_not_in(current, prev);
        let x = current.last();
        assert forall|j: int| 0 <= j < r.len() implies current.contains(#[trigger] r[j]) && !has_key(
            prev,
            record_key(r[j]),
        ) by {
            if j < r0.len() {
                assert(r[j] == r0[j]);
                assert(init.contains(r0[j]));
                let k = choose|k: int| 0 <= k < init.len() && init[k] == r0[j];
                assert(current[k] == init[k]);
            } else {
                assert(r[j] == x);
                assert(current[current.len() - 1] == x);
            }
        }
        assert forall|i: int| 0 <= i < current.len() && !has_key(prev, record_key(#[trigger] current[i])) implies r.contains(
            current[i],
        ) by {
            if i < current.len() - 1 {
                assert(init[i] == current[i]);
                assert(r0.contains(current[i]));
                let k = choose|k: int| 0 <= k < r0.len() && r0[k] == current[i];
                assert(r[k] == r0[k]);
            } else {
                assert(current[i] == x);
                assert(r[r.len() - 1] == x);
            }
        }
    }
}

proof fn lemma_new_iff_no_record_agrees(current: Seq<FindingRecord>, prev: Seq<FindingRecord>, i: int)
    requires
        0 <= i < current.len(),
    ensures
        records_not_in(current, prev).contains(current[i]) <==> !exists|j: int|
            0 <= j < prev.len() && (#[trigger] prev[j]).rule_id@ == current[i].rule_id@ && prev[j].left_file@
                == current[i].left_file@ && prev[j].right_file@ == current[i].right_file@ && prev[j].left_value@
                == current[i].left_value@ && prev[j].right_value@ == current[i].right_value@,
{
    law_new_findings_exact(current, prev);
    let c = current[i];
    if has_key(prev, record_key(c)) {
        let j = choose|j: int| 0 <= j < prev.len() && #[trigger] record_key(prev[j]) == record_key(c);
        assert(prev[j].rule_id@ == c.rule_id@ && prev[j].right_value@ == c.right_value@);
    }
    if exists|j: int|
        0 <= j < prev.len() && (#[trigger] prev[j]).rule_id@ == c.rule_id@ && prev[j].left_file@ == c.left_file@
            && prev[j].right_file@ == c.right_file@ && prev[j].left_value@ == c.left_value@ && prev[j].right_value@
            == c.right_value@ {
        let j = choose|j: int|
            0 <= j < prev.len() && (#[trigger] prev[j]).rule_id@ == c.rule_id@ && prev[j].left_file@
                == c.left_file@ && prev[j].right_file@ == c.right_file@ && prev[j].left_value@ == c.left_value@
                && prev[j].right_value@ == c.right_value@;
        assert(record_key(prev[j]) == record_key(c));
    }
    let r = records_not_in(current, prev);
    if r.contains(c) {
        let k = choose|k: int| 0 <= k < r.len() && r[k] == c;
        assert(!has_key(prev, record_key(r[k])));
    }
}

/// Two scans are compared on the rule, both files and both values of each
/// finding: a finding of the current scan is new exactly when no finding
/// of the previous scan agrees with it on all of these, and a finding of
/// the previous scan is resolved exactly when no finding of the current
/// scan does. A finding whose right-hand value changed is therefore both
/// new (its new value) and resolved (its old one).
pub proof fn law_diff_compares_rule_files_and_values(prev: Seq<FindingRecord>, current: Seq<FindingRecord>)
    ensures
        forall|i: int|
            0 <= i < current.len() ==> (records_not_in(current, prev).contains(#[trigger] current[i]) <==> !exists|j: int|
                0 <= j < prev.len() && (#[trigger] prev[j]).rule_id@ == current[i].rule_id@ && prev[j].left_file@
                    == current[i].left_file@ && prev[j].right_file@ == current[i].right_file@ && prev[j].left_value@
                    == current[i].left_value@ && prev[j].right_value@ == current[i].right_value@),
        forall|i: int|
            0 <= i < prev.len() ==> (records_not_in(prev, current).contains(#[trigger] prev[i]) <==> !exists|j: int|
                0 <= j < current.len() && (#[trigger] current[j]).rule_id@ == prev[i].rule_id@
                    && current[j].left_file@ == prev[i].left_file@ && current[j].right_file@ == prev[i].right_file@
                    && current[j].left_value@ == prev[i].left_value@ && current[j].right_value@
                    == prev[i].right_value@),
{
    assert forall|i: int| 0 <= i < current.len() implies (records_not_in(current, prev).contains(
        #[trigger] current[i],
    ) <==> !exists|j: int|
        0 <= j < prev.len() && (#[trigger] prev[j]).rule_id@ == current[i].rule_id@ && prev[j].left_file@
            == current[i].left_file@ && prev[j].right_file@ == current[i].right_file@ && prev[j].left_value@
            == current[i].left_value@ && prev[j].right_value@ == current[i].right_value@) by {
        lemma_new_iff_no_record_agrees(current, prev, i);
    }
    assert forall|i: int| 0 <= i < prev.len() implies (records_not_in(prev, current).contains(#[trigger] prev[i])
        <==> !exists|j: int|
        0 <= j < current.len() && (#[trigger] current[j]).rule_id@ == prev[i].rule_id@ && current[j].left_file@
            == prev[i].left_file@ && current[j].right_file@ == prev[i].right_file@ && current[j].left_value@
            == prev[i].left_value@ && current[j].right_value@ == prev[i].right_value@) by {
        lemma_new_iff_no_record_agrees(prev, current, i);
    }
}

/// Comparing a scan with itself finds nothing new and nothing resolved.
pub proof fn law_diff_with_itself_is_empty(rs: Seq<FindingRecord>)
    ensures
        records_not_in(rs, rs).len() == 0,
{
    law_new_findings_exact(rs, rs);
    if records_not_in(rs, rs).len() > 0 {
        let r0 = records_not_in(rs, rs)[0];
        assert(rs.contains(r0));
        let k = choose|k: int| 0 <= k < rs.len() && rs[k] == r0;
        assert(record_key(rs[k]) == record_key(r0));
        assert(has_key(rs, record_key(r0)));
    }
}

// ---------------------------------------------------------------------
// Recording a scan
// ---------------------------------------------------------------------

/// The commit a snapshot records: its SHA, author and commit time.
#[derive(Debug, Clone)]
pub struct GitHeadInfo {
    pub sha: String,
    pub author: String,
    pub timestamp: String,
}

/// The head commit that `git log -1 --format=%H%n%an%n%ct` printed: the
/// first three lines of the trimmed output, or `unknown`, `unknown`, `0`
/// when the command failed or printed fewer lines.
pub open spec fn head_info_s(success: bool, stdout: Seq<u8>) -> (Seq<char>, Seq<char>, Seq<char>) {
    let ls = lines_s(trim_s(lossy_utf8(stdout)));
    if success && ls.len() >= 3 {
        (ls[0], ls[1], ls[2])
    } else {
        ("unknown"@, "unknown"@, "0"@)
    }
}

/// The head commit from the output of `git log -1 --format=%H%n%an%n%ct`.
pub fn head_info_from_output(success: bool, stdout: &[u8]) -> (r: GitHeadInfo)
    ensures
        (r.sha@, r.author@, r.timestamp@) == head_info_s(success, stdout@),
{
    if success {
        let text = utf8_lossy(stdout);
        let cs = to_chars(text.as_str());
        let t = trim_chars(cs.as_slice());
        let ls = lines_chars(t.as_slice());
        proof {
            assert(vv(ls@) == lines_s(trim_s(lossy_utf8(stdout@))));
        }
        if ls.len() >= 3 {
            proof {
                assert(vv(ls@)[0] == ls@[0]@);
                assert(vv(ls@)[1] == ls@[1]@);
                assert(vv(ls@)[2] == ls@[2]@);
            }
            return GitHeadInfo {
                sha: from_chars(ls[0].as_slice()),
                author: from_chars(ls[1].as_slice()),
                timestamp: from_chars(ls[2].as_slice()),
            };
        }
    }
    GitHeadInfo {
        sha: String::from_str("unknown"),
        author: String::from_str("unknown"),
        timestamp: String::from_str("0"),
    }
}

/// The lower-case name of a severity, as finding records hold it.
pub open spec fn severity_name(s: Severity) -> Seq<char> {
    match s {
        Severity::Info => "info"@,
        Severity::Warning => "warning"@,
        Severity::Error => "error"@,
    }
}

/// The texts of a finding record, field by field.
pub open spec fn record_view(r: FindingRecord) -> Seq<Seq<char>> {
    seq![r.rule_id@, r.concept_id@, r.severity@, r.left_file@, r.left_value@, r.right_file@, r.right_value@]
}

/// The record of a finding of the concept `concept`.
pub open spec fn record_of_s(concept: Seq<char>, f: Finding) -> Seq<Seq<char>> {
    seq![
        f.rule_id@,
        concept,
        severity_name(f.severity),
        f.left.source.file@,
        f.left.raw_value@,
        f.right.source.file@,
        f.right.raw_value@,
    ]
}

/// The records of the findings of the concept results, in order.
pub open spec fn records_of_s(crs: Seq<ConceptResult>) -> Seq<Seq<Seq<char>>>
    decreases crs.len(),
{
    if crs.len() == 0 {
        Seq::empty()
    } else {
        let cr = crs.last();
        records_of_s(crs.drop_last()) + cr.findings@.map_values(|f: Finding| record_of_s(cr.concept.id@, f))
    }
}

pub(crate) fn severity_text(s: Severity) -> (r: String)
    ensures
        r@ == severity_name(s),
{
    match s {
        Severity::Info => String::from_str("info"),
        Severity::Warning => String::from_str("warning"),
        Severity::Error => String::from_str("error"),
    }
}

fn record_of(concept: &String, f: &Finding) -> (r: FindingRecord)
    ensures
        record_view(r) == record_of_s(concept@, *f),
{
    let r = FindingRecord {
        rule_id: f.rule_id.clone(),
        concept_id: concept.clone(),
        severity: severity_text(f.severity),
        left_file: f.left.source.file.clone(),
        left_value: f.left.raw_value.clone(),
        right_file: f.right.source.file.clone(),
        right_value: f.right.raw_value.clone(),
    };
    assert(record_view(r) =~= record_of_s(concept@, *f));
    r
}

fn records_of(result: &ScanResult) -> (r: Vec<FindingRecord>)
    ensures
        r@.map_values(|x: FindingRecord| record_view(x)) == records_of_s(result.concept_results@),
{
    let crs = &result.concept_results;
    let mut out: Vec<FindingRecord> = Vec::new();
    let mut i: usize = 0;
    while i < crs.len()
        invariant
            i <= crs.len(),
            crs == &result.concept_results,
            out@.map_values(|x: FindingRecord| record_view(x)) == records_of_s(crs@.take(i as int)),
        decreases crs.len() - i,
    {
        proof {
            assert(crs@.take(i + 1).drop_last() == crs@.take(i as int));
            assert(crs@.take(i + 1).last() == crs@[i as int]);
        }
        let cr = &crs[i];
        let ghost before = records_of_s(crs@.take(i as int));
        let ghost concept = cr.concept.id@;
        let mut j: usize = 0;
        while j < cr.findings.len()
            invariant
                j <= cr.findings.len(),
                cr == &crs@[i as int],
                concept == cr.concept.id@,
                out@.map_values(|x: FindingRecord| record_view(x)) == before + cr.findings@.take(j as int).map_values(
                    |f: Finding| record_of_s(concept, f),
                ),
            decreases cr.findings.len() - j,
        {
            let rec = record_of(&cr.concept.id, &cr.findings[j]);
            let ghost prev = out@;
            out.push(rec);
            j = j + 1;
            proof {
                assert(out@.map_values(|x: FindingRecord| record_view(x)) =~= prev.map_values(
                    |x: FindingRecord| record_view(x),
                ).push(record_view(rec)));
                assert(cr.findings@.take(j as int).map_values(|f: Finding| record_of_s(concept, f)) =~= cr.findings@.take(
                    j - 1,
                ).map_values(|f: Finding| record_of_s(concept, f)).push(record_of_s(concept, cr.findings@[j - 1])));
                assert(out@.map_values(|x: FindingRecord| record_view(x)) =~= before + cr.findings@.take(
                    j as int,
                ).map_values(|f: Finding| record_of_s(concept, f)));
            }
        }
        assert(cr.findings@.take(cr.findings.len() as int) == cr.findings@);
        i = i + 1;
    }
    assert(crs@.take(crs.len() as int) == crs@);
    out
}

impl ScanHistory {
    /// Record a new scan snapshot from the current scan result and the head
    /// commit: the commit, the counts of errors, warnings and info, and a
    /// record of every finding, in order.
    pub fn record_scan(&mut self, result: &ScanResult, head: GitHeadInfo)
        requires
            result.all_findings().len() <= usize::MAX,
        ensures
            final(self).snapshots@.len() == old(self).snapshots@.len() + 1,
            final(self).snapshots@.take(old(self).snapshots@.len() as int) == old(self).snapshots@,
            ({
                let s = final(self).snapshots@.last();
                &&& s.commit_sha == head.sha
                &&& s.author == head.author
                &&& s.timestamp == head.timestamp
                &&& s.errors == count_severity(result.all_findings(), Severity::Error)
                &&& s.warnings == count_severity(result.all_findings(), Severity::Warning)
                &&& s.info == count_severity(result.all_findings(), Severity::Info)
                &&& s.findings@.map_values(|x: FindingRecord| record_view(x)) == records_of_s(
                    result.concept_results@,
                )
            }),
    {
        let findings = records_of(result);
        let snapshot = ScanSnapshot {
            commit_sha: head.sha,
            author: head.author,
            timestamp: head.timestamp,
            errors: result.error_count(),
            warnings: result.warning_count(),
            info: result.info_count(),
            findings,
        };
        self.snapshots.push(snapshot);
        assert(self.snapshots@.take(old(self).snapshots@.len() as int) =~= old(self).snapshots@);
    }
}

impl FindingKey {
    /// The key of a finding: its rule, the files of both sides and their
    /// raw values.
    pub fn from_finding(finding: &Finding) -> (r: Self)
        ensures
            r.view_key() == (
                finding.rule_id@,
                finding.left.source.file@,
                finding.right.source.file@,
                finding.left.raw_value@,
                finding.right.raw_value@,
            ),
    {
        FindingKey {
            rule_id: finding.rule_id.clone(),
            left_file: finding.left.source.file.clone(),
            right_file: finding.right.source.file.clone(),
            left_value: finding.left.raw_value.clone(),
            right_value: finding.right.raw_value.clone(),
        }
    }
}

// ---------------------------------------------------------------------
// Findings introduced since a commit
// ---------------------------------------------------------------------

/// The command that reads the commit time of a ref.
pub open spec fn commit_time_command_s(git_ref: Seq<char>) -> Seq<char> {
    "git log -1 --format=%ct "@ + git_ref
}

/// The commit time that `git log -1 --format=%ct <ref>` printed, trimmed,
/// or, when it failed, the command and its trimmed error output.
pub fn commit_timestamp_from_output(git_ref: &str, success: bool, stdout: &[u8], stderr: &[u8]) -> (r: Result<
    String,
    GitError,
>)
    ensures
        success ==> (r matches Ok(t) && t@ == trim_s(lossy_utf8(stdout@))),
        !success ==> (r matches Err(e) && e matches GitError::CommandFailed { command, stderr: err }
            && command@ == commit_time_command_s(git_ref@) && err@ == trim_s(lossy_utf8(stderr@))),
{
    if !success {
        let mut command = String::from_str("git log -1 --format=%ct ");
        push_str(&mut command, git_ref);
        let text = utf8_lossy(stderr);
        let cs = to_chars(text.as_str());
        let t = trim_chars(cs.as_slice());
        return Err(GitError::CommandFailed { command, stderr: from_chars(t.as_slice()) });
    }
    let text = utf8_lossy(stdout);
    let cs = to_chars(text.as_str());
    let t = trim_chars(cs.as_slice());
    Ok(from_chars(t.as_slice()))
}

/// The blame of the `k`-th finding, when there is one.
pub open spec fn blame_at(bs: Seq<Option<BlameInfo>>, k: int) -> Option<BlameInfo> {
    if 0 <= k < bs.len() {
        bs[k]
    } else {
        None
    }
}

/// A finding stays: its blame is at or after the commit time, or either
/// time is unknown or not a number.
pub open spec fn stays_since(b: Option<BlameInfo>, since: Seq<char>) -> bool {
    match b {
        Some(x) => match (parse_i64_s(x.timestamp@), parse_i64_s(since)) {
            (Some(t), Some(s)) => t >= s,
            _ => true,
        },
        None => true,
    }
}

/// The findings that stay, in order, when the first of them is the
/// `off`-th finding of the scan.
pub open spec fn kept_since_s(fs: Seq<Finding>, bs: Seq<Option<BlameInfo>>, off: int, since: Seq<char>) -> Seq<
    Finding,
>
    decreases fs.len(),
{
    if fs.len() == 0 {
        Seq::empty()
    } else {
        let rest = kept_since_s(fs.drop_last(), bs, off, since);
        if stays_since(blame_at(bs, off + fs.len() - 1), since) {
            rest.push(fs.last())
        } else {
            rest
        }
    }
}

fn stays(b: &Option<BlameInfo>, since: Option<i64>, Ghost(since_text): Ghost<Seq<char>>) -> (r: bool)
    requires
        since == (match parse_i64_s(since_text) {
            Some(v) => Some(v as i64),
            None => None::<i64>,
        }),
    ensures
        r == stays_since(*b, since_text),
{
    match b {
        Some(x) => {
            let cs = to_chars(x.timestamp.as_str());
            match (parse_i64(cs.as_slice()), since) {
                (Some(t), Some(s)) => t >= s,
                _ => true,
            }
        },
        None => true,
    }
}

fn findings_since(
    findings: Vec<Finding>,
    blames: &[Option<BlameInfo>],
    off: usize,
    since: Option<i64>,
    Ghost(since_text): Ghost<Seq<char>>,
) -> (r: Vec<Finding>)
    requires
        since == (match parse_i64_s(since_text) {
            Some(v) => Some(v as i64),
            None => None::<i64>,
        }),
        off + findings@.len() <= usize::MAX,
    ensures
        r@ == kept_since_s(findings@, blames@, off as int, since_text),
        r@.len() <= findings@.len(),
{
    let ghost orig = findings@;
    let ghost n = orig.len();
    let count: usize = findings.len();
    let mut rest = reversed_vec(findings);
    let mut out: Vec<Finding> = Vec::new();
    let mut i: usize = 0;
    while rest.len() > 0
        invariant
            n == orig.len(),
            n == count,
            off + n <= usize::MAX,
            i + rest@.len() == n,
            forall|k: int| 0 <= k < rest@.len() ==> #[trigger] rest@[k] == orig[n - 1 - k],
            out@ == kept_since_s(orig.take(i as int), blames@, off as int, since_text),
            out@.len() <= i,
            since == (match parse_i64_s(since_text) {
                Some(v) => Some(v as i64),
                None => None::<i64>,
            }),
        decreases rest@.len(),
    {
        let f = rest.pop().unwrap();
        assert(f == orig[i as int]);
        proof {
            assert(orig.take(i + 1).drop_last() == orig.take(i as int));
            assert(orig.take(i + 1).last() == f);
        }
        let k = off + i;
        let keep = if k < blames.len() {
            stays(&blames[k], since, Ghost(since_text))
        } else {
            stays(&None, since, Ghost(since_text))
        };
        if keep {
            out.push(f);
        }
        i = i + 1;
    }
    assert(orig.take(n as int) == orig);
    out
}

/// Keep only the findings introduced at or after the commit time `since`:
/// a finding goes when the blame of its left side (`blames[k]` for the
/// `k`-th finding of the scan) has a commit time before it. A finding
/// stays when its blame is missing or either time is not a number.
/// Returns how many findings stayed and how many went.
pub fn filter_since(result: &mut ScanResult, since: &str, blames: &[Option<BlameInfo>]) -> (r: SinceReport)
    requires
        old(result).all_findings().len() <= usize::MAX,
    ensures
        final(result).parse_diagnostics == old(result).parse_diagnostics,
        final(result).concept_results@.len() == old(result).concept_results@.len(),
        forall|i: int|
            0 <= i < old(result).concept_results@.len() ==> {
                let a = #[trigger] final(result).concept_results@[i];
                let b = old(result).concept_results@[i];
                &&& a.concept == b.concept
                &&& a.assertions == b.assertions
                &&& a.findings@ == kept_since_s(
                    b.findings@,
                    blames@,
                    findings_of(old(result).concept_results@.take(i)).len() as int,
                    since@,
                )
            },
        r.kept == final(result).all_findings().len(),
        r.kept + r.filtered == old(result).all_findings().len(),
{
    let sc = to_chars(since);
    let since_ts = parse_i64(sc.as_slice());
    let mut taken: Vec<ConceptResult> = Vec::new();
    std::mem::swap(&mut taken, &mut result.concept_results);
    let ghost orig = taken@;
    let ghost n = orig.len();
    let count: usize = taken.len();
    let mut rest = reversed_vec(taken);
    let mut out: Vec<ConceptResult> = Vec::new();
    let mut i: usize = 0;
    let mut off: usize = 0;
    let mut kept: usize = 0;
    proof {
        lemma_findings_prefix_le(orig, 0);
    }
    while rest.len() > 0
        invariant
            n == orig.len(),
            n == count,
            findings_of(orig).len() <= usize::MAX,
            i + rest@.len() == n,
            forall|k: int| 0 <= k < rest@.len() ==> #[trigger] rest@[k] == orig[n - 1 - k],
            out@.len() == i,
            off == findings_of(orig.take(i as int)).len(),
            kept == findings_of(out@).len(),
            kept <= off,
            since_ts == (match parse_i64_s(since@) {
                Some(v) => Some(v as i64),
                None => None::<i64>,
            }),
            forall|k: int|
                0 <= k < i ==> {
                    let a = #[trigger] out@[k];
                    let b = orig[k];
                    &&& a.concept == b.concept
                    &&& a.assertions == b.assertions
                    &&& a.findings@ == kept_since_s(
                        b.findings@,
                        blames@,
                        findings_of(orig.take(k)).len() as int,
                        since@,
                    )
                },
        decreases rest@.len(),
    {
        let cr = rest.pop().unwrap();
        assert(cr == orig[i as int]);
        proof {
            assert(orig.take(i + 1).drop_last() == orig.take(i as int));
            assert(orig.take(i + 1).last() == cr);
            lemma_findings_prefix_le(orig, i + 1);
        }
        let ConceptResult { concept, assertions, findings } = cr;
        let len: usize = findings.len();
        let kept_here = findings_since(findings, blames, off, since_ts, Ghost(since@));
        let kl: usize = kept_here.len();
        let ghost prev = out@;
        out.push(ConceptResult { concept, assertions, findings: kept_here });
        proof {
            assert(out@.drop_last() == prev);
        }
        kept = kept + kl;
        off = off + len;
        i = i + 1;
    }
    assert(orig.take(n as int) == orig);
    result.concept_results = out;
    SinceReport { kept, filtered: off - kept }
}

proof fn lemma_findings_prefix_le(crs: Seq<ConceptResult>, i: int)
    requires
        0 <= i <= crs.len(),
    ensures
        findings_of(crs.take(i)).len() <= findings_of(crs).len(),
    decreases crs.len() - i,
{
    if i < crs.len() {
        lemma_findings_prefix_le(crs, i + 1);
        assert(crs.take(i + 1).drop_last() == crs.take(i));
    } else {
        assert(crs.take(i) == crs);
    }
}

// ---------------------------------------------------------------------
// Blame annotations
// ---------------------------------------------------------------------

/// The identity of a finding's key: rule, files and raw values.
pub type KeyView = (Seq<char>, Seq<char>, Seq<char>, Seq<char>, Seq<char>);

/// The key of a finding, as its texts.
pub open spec fn finding_key_s(f: Finding) -> KeyView {
    (f.rule_id@, f.left.source.file@, f.right.source.file@, f.left.raw_value@, f.right.raw_value@)
}

/// The blame of every finding key: for each finding in order whose blame
/// is known, its key maps to that blame, a later finding overriding an
/// earlier one of the same key.
pub open spec fn annotations_s(fs: Seq<Finding>, bs: Seq<Option<BlameInfo>>) -> Map<KeyView, BlameInfo>
    decreases fs.len(),
{
    if fs.len() == 0 {
        Map::empty()
    } else {
        let m = annotations_s(fs.drop_last(), bs);
        match blame_at(bs, fs.len() - 1) {
            Some(b) => m.insert(finding_key_s(fs.last()), b),
            None => m,
        }
    }
}

/// The map that a list of (key, blame) pairs with distinct keys stands for.
pub open spec fn pairs_map(ps: Seq<(FindingKey, BlameInfo)>) -> Map<KeyView, BlameInfo> {
    Map::new(
        |k: KeyView| exists|i: int| 0 <= i < ps.len() && #[trigger] ps[i].0.view_key() == k,
        |k: KeyView| ps[choose|i: int| 0 <= i < ps.len() && #[trigger] ps[i].0.view_key() == k].1,
    )
}

/// No two pairs have the same key.
pub open spec fn keys_distinct(ps: Seq<(FindingKey, BlameInfo)>) -> bool {
    forall|i: int, j: int| 0 <= i < j < ps.len() ==> #[trigger] ps[i].0.view_key() != #[trigger] ps[j].0.view_key()
}

impl BlameInfo {
    /// A field-by-field copy of the blame.
    pub fn duplicate(&self) -> (r: Self)
        ensures
            r == *self,
    {
        BlameInfo {
            commit_sha: self.commit_sha.clone(),
            author: self.author.clone(),
            timestamp: self.timestamp.clone(),
        }
    }
}

proof fn lemma_pairs_map_push(ps: Seq<(FindingKey, BlameInfo)>, p: (FindingKey, BlameInfo))
    requires
        keys_distinct(ps),
        !pairs_map(ps).dom().contains(p.0.view_key()),
    ensures
        keys_distinct(ps.push(p)),
        pairs_map(ps.push(p)) == pairs_map(ps).insert(p.0.view_key(), p.1),
{
    let qs = ps.push(p);
    assert forall|i: int, j: int| 0 <= i < j < qs.len() implies #[trigger] qs[i].0.view_key() != #[trigger] qs[j].0.view_key() by {
        if j == ps.len() {
            assert(qs[i] == ps[i]);
            assert(pairs_map(ps).dom().contains(ps[i].0.view_key()));
        } else {
            assert(qs[i] == ps[i] && qs[j] == ps[j]);
        }
    }
    assert forall|k: KeyView| #[trigger] pairs_map(qs).dom().contains(k) <==> pairs_map(ps).insert(p.0.view_key(), p.1).dom().contains(k) by {
        if pairs_map(qs).dom().contains(k) {
            let i = choose|i: int| 0 <= i < qs.len() && #[trigger] qs[i].0.view_key() == k;
            if i < ps.len() {
                assert(ps[i] == qs[i]);
            }
        }
        if pairs_map(ps).dom().contains(k) {
            let i = choose|i: int| 0 <= i < ps.len() && #[trigger] ps[i].0.view_key() == k;
            assert(qs[i] == ps[i]);
        }
        if k == p.0.view_key() {
            assert(qs[ps.len() as int] == p);
        }
    }
    assert forall|k: KeyView| #[trigger] pairs_map(qs).dom().contains(k) implies pairs_map(qs)[k] == pairs_map(ps).insert(
        p.0.view_key(),
        p.1,
    )[k] by {
        let i = choose|i: int| 0 <= i < qs.len() && #[trigger] qs[i].0.view_key() == k;
        if k == p.0.view_key() {
            assert(qs[ps.len() as int] == p);
            assert(i == ps.len());
        } else {
            assert(i < ps.len());
            assert(qs[i] == ps[i]);
            let i2 = choose|i2: int| 0 <= i2 < ps.len() && #[trigger] ps[i2].0.view_key() == k;
            assert(i2 == i);
        }
    }
    assert(pairs_map(qs) =~= pairs_map(ps).insert(p.0.view_key(), p.1));
}

proof fn lemma_pairs_map_update(ps: Seq<(FindingKey, BlameInfo)>, idx: int, p: (FindingKey, BlameInfo))
    requires
        keys_distinct(ps),
        0 <= idx < ps.len(),
        ps[idx].0.view_key() == p.0.view_key(),
    ensures
        keys_distinct(ps.update(idx, p)),
        pairs_map(ps.update(idx, p)) == pairs_map(ps).insert(p.0.view_key(), p.1),
{
    let qs = ps.update(idx, p);
    assert forall|i: int, j: int| 0 <= i < j < qs.len() implies #[trigger] qs[i].0.view_key() != #[trigger] qs[j].0.view_key() by {
        assert(qs[i].0.view_key() == ps[i].0.view_key());
        assert(qs[j].0.view_key() == ps[j].0.view_key());
    }
    assert forall|k: KeyView| #[trigger] pairs_map(qs).dom().contains(k) <==> pairs_map(ps).insert(p.0.view_key(), p.1).dom().contains(k) by {
        if pairs_map(qs).dom().contains(k) {
            let i = choose|i: int| 0 <= i < qs.len() && #[trigger] qs[i].0.view_key() == k;
            assert(ps[i].0.view_key() == k);
        }
        if pairs_map(ps).dom().contains(k) {
            let i = choose|i: int| 0 <= i < ps.len() && #[trigger] ps[i].0.view_key() == k;
            assert(qs[i].0.view_key() == k);
        }
        if k == p.0.view_key() {
            assert(qs[idx].0.view_key() == k);
        }
    }
    assert forall|k: KeyView| #[trigger] pairs_map(qs).dom().contains(k) implies pairs_map(qs)[k] == pairs_map(ps).insert(
        p.0.view_key(),
        p.1,
    )[k] by {
        let i = choose|i: int| 0 <= i < qs.len() && #[trigger] qs[i].0.view_key() == k;
        assert(ps[i].0.view_key() == k);
        if k == p.0.view_key() {
            if i != idx {
                assert(ps[i].0.view_key() == ps[idx].0.view_key());
                if i < idx {
                    assert(ps[i].0.view_key() != ps[idx].0.view_key());
                } else {
                    assert(ps[idx].0.view_key() != ps[i].0.view_key());
                }
            }
        } else {
            let i2 = choose|i2: int| 0 <= i2 < ps.len() && #[trigger] ps[i2].0.view_key() == k;
            if i2 != i {
                if i2 < i {
                    assert(ps[i2].0.view_key() != ps[i].0.view_key());
                } else {
                    assert(ps[i].0.view_key() != ps[i2].0.view_key());
                }
            }
            assert(qs[i] == ps[i]);
        }
    }
    assert(pairs_map(qs) =~= pairs_map(ps).insert(p.0.view_key(), p.1));
}

fn key_position(ps: &Vec<(FindingKey, BlameInfo)>, key: &FindingKey) -> (r: Option<usize>)
    ensures
        match r {
            Some(i) => i < ps@.len() && ps@[i as int].0.view_key() == key.view_key(),
            None => !pairs_map(ps@).dom().contains(key.view_key()),
        },
{
    let mut i: usize = 0;
    while i < ps.len()
        invariant
            i <= ps.len(),
            forall|k: int| 0 <= k < i ==> ps@[k].0.view_key() != key.view_key(),
        decreases ps.len() - i,
    {
        if ps[i].0.same_as(key) {
            return Some(i);
        }
        i = i + 1;
    }
    proof {
        if pairs_map(ps@).dom().contains(key.view_key()) {
            let k = choose|k: int| 0 <= k < ps@.len() && #[trigger] ps@[k].0.view_key() == key.view_key();
            assert(ps@[k].0.view_key() != key.view_key());
        }
    }
    None
}

/// Annotate findings with blame information: for every finding whose
/// left side has a blame (`blames[k]` for the `k`-th finding of the scan),
/// its key with that blame, the last finding of a key winning.
pub fn annotate_findings(result: &ScanResult, blames: &[Option<BlameInfo>]) -> (r: Vec<(FindingKey, BlameInfo)>)
    requires
        result.all_findings().len() <= usize::MAX,
    ensures
        keys_distinct(r@),
        pairs_map(r@) == annotations_s(result.all_findings(), blames@),
{
    let crs = &result.concept_results;
    let mut out: Vec<(FindingKey, BlameInfo)> = Vec::new();
    let mut off: usize = 0;
    let mut i: usize = 0;
    proof {
        assert(pairs_map(out@) =~= Map::<KeyView, BlameInfo>::empty());
    }
    while i < crs.len()
        invariant
            i <= crs.len(),
            crs == &result.concept_results,
            off == findings_of(crs@.take(i as int)).len(),
            findings_of(crs@).len() <= usize::MAX,
            keys_distinct(out@),
            pairs_map(out@) == annotations_s(findings_of(crs@.take(i as int)), blames@),
        decreases crs.len() - i,
    {
        proof {
            assert(crs@.take(i + 1).drop_last() == crs@.take(i as int));
            assert(crs@.take(i + 1).last() == crs@[i as int]);
            lemma_findings_prefix_le(crs@, i + 1);
        }
        let fs = &crs[i].findings;
        let ghost before = findings_of(crs@.take(i as int));
        assert(findings_of(crs@.take(i + 1)) == before + fs@);
        let mut j: usize = 0;
        while j < fs.len()
            invariant
                j <= fs.len(),
                fs == &crs@[i as int].findings,
                off == before.len(),
                off + fs@.len() <= usize::MAX,
                keys_distinct(out@),
                pairs_map(out@) == annotations_s(before + fs@.take(j as int), blames@),
            decreases fs.len() - j,
        {
            let ghost seen = before + fs@.take(j as int);
            proof {
                assert(before + fs@.take(j + 1) =~= seen.push(fs@[j as int]));
                assert(seen.push(fs@[j as int]).drop_last() =~= seen);
            }
            let k = off + j;
            if k < blames.len() {
                match &blames[k] {
                    Some(b) => {
                        let key = FindingKey::from_finding(&fs[j]);
                        let pair = (key, b.duplicate());
                        match key_position(&out, &pair.0) {
                            Some(p) => {
                                proof {
                                    lemma_pairs_map_update(out@, p as int, pair);
                                }
                                out.set(p, pair);
                            },
                            None => {
                                proof {
                                    lemma_pairs_map_push(out@, pair);
                                }
                                out.push(pair);
                            },
                        }
                    },
                    None => {},
                }
            }
            j = j + 1;
        }
        assert(fs@.take(fs.len() as int) == fs@);
        off = off + fs.len();
        i = i + 1;
    }
    assert(crs@.take(crs.len() as int) == crs@);
    out
}

} // verus!
