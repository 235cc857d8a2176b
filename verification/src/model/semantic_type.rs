//! Typed configuration values: versions, ports and boolean words.
use vstd::prelude::*;
use vstd::string::*;
use crate::text::from_chars;
use crate::text::{all_ascii_s, ascii_upper, is_digit, lemma_decimal_digits, lemma_decimal_plain, lemma_find_none, lemma_parse_decimal, lemma_split_none, lemma_split_two, lemma_trim_end_at, lemma_trim_start_at, ascii_lower, chars_eq_ignore_ascii_case, chars_eq_str, decimal_s, eq_ignore_ascii_case_s, find_char, find_s, lemma_rfind, lemma_split_len, parse_uint, parse_uint_s, push_decimal, push_str, rfind_char, rfind_s, slice_chars, split_chars, split_s, to_ascii_lower, to_chars, trim_chars, trim_end_s, trim_s, trim_start_s, is_ws, vv};

verus! {

/// How a port is specified.
#[derive(Debug, Clone, Copy, PartialEq, Eq, Structural)]
pub enum PortSpec {
    Single(u16),
    Range(u16, u16),
    /// Docker-style host:container mapping
    Mapping { host: u16, container: u16 },
}

/// A decimal port number, as `str::parse::<u16>` reads it.
pub open spec fn port_u16_s(s: Seq<char>) -> Option<u16> {
    match parse_uint_s(s, 65535) {
        Some(v) => Some(v as u16),
        None => None,
    }
}

/// A single port or a `start-end` range, surrounding whitespace ignored.
pub open spec fn port_fragment_s(raw: Seq<char>) -> Option<PortSpec> {
    let t = trim_s(raw);
    match find_s(t, '-') {
        Some(i) => match (port_u16_s(trim_s(t.take(i))), port_u16_s(trim_s(t.skip(i + 1)))) {
            (Some(a), Some(b)) => Some(PortSpec::Range(a, b)),
            _ => None,
        },
        None => match port_u16_s(t) {
            Some(p) => Some(PortSpec::Single(p)),
            None => None,
        },
    }
}

/// `t` without a final `/tcp` or `/udp` (any ASCII case).
pub open spec fn strip_protocol_s(t: Seq<char>) -> Seq<char> {
    match rfind_s(t, '/') {
        Some(i) => if eq_ignore_ascii_case_s(t.skip(i + 1), "tcp"@) || eq_ignore_ascii_case_s(
            t.skip(i + 1),
            "udp"@,
        ) {
            t.take(i)
        } else {
            t
        },
        None => t,
    }
}

/// The port that a specification string denotes.
///
/// With `:` separators, the last two segments are the host and container
/// parts: a single host port and a single container port make a mapping,
/// otherwise the container part stands for the port; both parts must parse.
pub open spec fn parse_port_s(raw: Seq<char>) -> Option<PortSpec> {
    let t = strip_protocol_s(trim_s(raw));
    let parts = split_s(t, ':');
    if parts.len() >= 2 {
        match port_fragment_s(trim_s(parts.last())) {
            None => None,
            Some(container) => match port_fragment_s(trim_s(parts[parts.len() - 2])) {
                None => None,
                Some(host) => match (host, container) {
                    (PortSpec::Single(h), PortSpec::Single(c)) => Some(
                        PortSpec::Mapping { host: h, container: c },
                    ),
                    _ => Some(container),
                },
            },
        }
    } else {
        port_fragment_s(t)
    }
}

/// The ASCII lowercase of every character of `s`.
pub open spec fn lower_s(s: Seq<char>) -> Seq<char> {
    Seq::new(s.len(), |i: int| ascii_lower(s[i]))
}

/// The boolean that a word such as `yes`, `Off` or ` enabled ` stands for.
pub open spec fn boolean_word_s(raw: Seq<char>) -> Option<bool> {
    let t = trim_s(lower_s(raw));
    if t == "true"@ || t == "yes"@ || t == "on"@ || t == "1"@ || t == "enabled"@ || t
        == "enable"@ {
        Some(true)
    } else if t == "false"@ || t == "no"@ || t == "off"@ || t == "0"@ || t == "disabled"@ || t
        == "disable"@ {
        Some(false)
    } else {
        None
    }
}

proof fn lemma_trim_start_push_ws(x: Seq<char>, c: char)
    requires
        is_ws(c),
    ensures
        trim_start_s(x.push(c)) == (if trim_start_s(x).len() == 0 {
            Seq::<char>::empty()
        } else {
            trim_start_s(x).push(c)
        }),
    decreases x.len(),
{
    if x.len() == 0 {
        assert(x.push(c)[0] == c);
        assert(x.push(c).drop_first() =~= Seq::<char>::empty());
        assert(trim_start_s(Seq::<char>::empty()) == Seq::<char>::empty());
    } else if is_ws(x[0]) {
        assert(x.push(c)[0] == x[0]);
        assert(x.push(c).drop_first() =~= x.drop_first().push(c));
        lemma_trim_start_push_ws(x.drop_first(), c);
    } else {
        assert(x.push(c)[0] == x[0]);
    }
}

proof fn lemma_trim_end_push_ws(z: Seq<char>, c: char)
    requires
        is_ws(c),
    ensures
        trim_end_s(z.push(c)) == trim_end_s(z),
{
    assert(z.push(c).drop_last() =~= z);
}

/// A boolean word reads the same whatever its ASCII case.
pub proof fn law_boolean_ignores_ascii_case(a: Seq<char>, b: Seq<char>)
    requires
        eq_ignore_ascii_case_s(a, b),
    ensures
        boolean_word_s(a) == boolean_word_s(b),
{
    assert(lower_s(a) =~= lower_s(b));
}

/// For an ASCII text, `normalize_boolean` reads its `str::to_uppercase`
/// the same as the text itself.
pub proof fn law_boolean_ignores_uppercasing(s: Seq<char>, upper: Seq<char>)
    requires
        all_ascii_s(s),
        upper == s.map_values(|c: char| ascii_upper(c)),
    ensures
        boolean_word_s(upper) == boolean_word_s(s),
{
    assert forall|i: int| 0 <= i < upper.len() implies ascii_lower(#[trigger] upper[i]) == ascii_lower(s[i]) by {
        assert(upper[i] == ascii_upper(s[i]));
    }
    law_boolean_ignores_ascii_case(upper, s);
}

/// A boolean word reads the same with a space on either side.
pub proof fn law_boolean_ignores_surrounding_spaces(s: Seq<char>)
    ensures
        boolean_word_s(seq![' '] + s + seq![' ']) == boolean_word_s(s),
{
    let x = lower_s(s);
    let y = lower_s(seq![' '] + s + seq![' ']);
    assert(y =~= seq![' '] + x.push(' '));
    assert(y.drop_first() =~= x.push(' '));
    assert(trim_start_s(y) == trim_start_s(x.push(' ')));
    lemma_trim_start_push_ws(x, ' ');
    if trim_start_s(x).len() > 0 {
        lemma_trim_end_push_ws(trim_start_s(x), ' ');
    }
    assert(trim_s(y) == trim_s(x));
}

impl PortSpec {
    /// The text of the port: `p`, `start-end` or `host:container`.
    pub open spec fn text(self) -> Seq<char> {
        match self {
            PortSpec::Single(p) => decimal_s(p as nat),
            PortSpec::Range(a, b) => decimal_s(a as nat) + "-"@ + decimal_s(b as nat),
            PortSpec::Mapping { host, container } => decimal_s(host as nat) + ":"@ + decimal_s(
                container as nat,
            ),
        }
    }

    /// The text of the port: `p`, `start-end` or `host:container`.
    pub fn to_text(&self) -> (r: String)
        ensures
            r@ == self.text(),
    {
        let mut out = String::new();
        match self {
            PortSpec::Single(p) => {
                push_decimal(&mut out, *p as u64);
            },
            PortSpec::Range(a, b) => {
                push_decimal(&mut out, *a as u64);
                push_str(&mut out, "-");
                push_decimal(&mut out, *b as u64);
            },
            PortSpec::Mapping { host, container } => {
                push_decimal(&mut out, *host as u64);
                push_str(&mut out, ":");
                push_decimal(&mut out, *container as u64);
            },
        }
        out
    }
}

/// A decimal port number.
pub fn parse_u16_chars(s: &[char]) -> (r: Option<u16>)
    ensures
        r == port_u16_s(s@),
{
    match parse_uint(s, 65535) {
        Some(v) => Some(v as u16),
        None => None,
    }
}

/// A single port or a `start-end` range.
pub fn parse_port_fragment(raw: &[char]) -> (r: Option<PortSpec>)
    ensures
        r == port_fragment_s(raw@),
{
    let t = trim_chars(raw);
    match find_char(t.as_slice(), '-') {
        Some(i) => {
            let left = trim_chars(slice_chars(t.as_slice(), 0, i).as_slice());
            let right = trim_chars(slice_chars(t.as_slice(), i + 1, t.len()).as_slice());
            proof {
                assert(t@.subrange(0, i as int) == t@.take(i as int));
                assert(t@.subrange(i + 1, t@.len() as int) == t@.skip(i + 1));
            }
            let a = parse_u16_chars(left.as_slice());
            let b = parse_u16_chars(right.as_slice());
            match (a, b) {
                (Some(a), Some(b)) => Some(PortSpec::Range(a, b)),
                _ => None,
            }
        },
        None => match parse_u16_chars(t.as_slice()) {
            Some(p) => Some(PortSpec::Single(p)),
            None => None,
        },
    }
}

/// `t` without a final `/tcp` or `/udp`.
pub fn strip_protocol(t: &[char]) -> (r: Vec<char>)
    ensures
        r@ == strip_protocol_s(t@),
{
    match rfind_char(t, '/') {
        Some(i) => {
            proof {
                lemma_rfind(t@, '/');
            }
            let suffix = slice_chars(t, i + 1, t.len());
            assert(suffix@ == t@.skip(i + 1));
            let tcp = to_chars("tcp");
            let udp = to_chars("udp");
            if chars_eq_ignore_ascii_case(suffix.as_slice(), tcp.as_slice())
                || chars_eq_ignore_ascii_case(suffix.as_slice(), udp.as_slice()) {
                let r = slice_chars(t, 0, i);
                assert(r@ == t@.take(i as int));
                r
            } else {
                slice_chars(t, 0, t.len())
            }
        },
        None => slice_chars(t, 0, t.len()),
    }
}

/// Parse a port specification string (`8080`, `3000:8080`, `8000-9000:80/tcp`).
pub fn parse_port(raw: &str) -> (r: Option<PortSpec>)
    ensures
        r == parse_port_s(raw@),
{
    let chars = to_chars(raw);
    let trimmed = trim_chars(chars.as_slice());
    let t = strip_protocol(trimmed.as_slice());
    let parts = split_chars(t.as_slice(), ':');
    proof {
        lemma_split_len(t@, ':');
    }
    let n = parts.len();
    if n >= 2 {
        assert(vv(parts@).last() == parts@[n - 1]@);
        assert(vv(parts@)[n - 2] == parts@[n - 2]@);
        let last = trim_chars(parts[n - 1].as_slice());
        match parse_port_fragment(last.as_slice()) {
            None => None,
            Some(container) => {
                let prev = trim_chars(parts[n - 2].as_slice());
                match parse_port_fragment(prev.as_slice()) {
                    None => None,
                    Some(host) => match (host, container) {
                        (PortSpec::Single(h), PortSpec::Single(c)) => Some(
                            PortSpec::Mapping { host: h, container: c },
                        ),
                        _ => Some(container),
                    },
                }
            },
        }
    } else {
        parse_port_fragment(t.as_slice())
    }
}

/// Normalize a boolean-like word (`true`, `yes`, `on`, `1`, `enabled`,
/// `enable` and their negatives), ignoring ASCII case and surrounding
/// whitespace.
///
/// The words are ASCII and hold no `k`, so lowercasing non-ASCII
/// characters (which yields no other ASCII letter) cannot make a word match.
pub fn normalize_boolean(raw: &str) -> (r: Option<bool>)
    ensures
        r == boolean_word_s(raw@),
{
    let chars = to_chars(raw);
    let mut lower: Vec<char> = Vec::new();
    let mut i: usize = 0;
    while i < chars.len()
        invariant
            i <= chars.len(),
            lower@ == lower_s(chars@).take(i as int),
        decreases chars.len() - i,
    {
        lower.push(to_ascii_lower(chars[i]));
        i = i + 1;
        assert(lower@ =~= lower_s(chars@).take(i as int));
    }
    assert(lower_s(chars@).take(i as int) == lower_s(chars@));
    let t = trim_chars(lower.as_slice());
    let w = t.as_slice();
    if chars_eq_str(w, "true") || chars_eq_str(w, "yes") || chars_eq_str(w, "on") || chars_eq_str(
        w,
        "1",
    ) || chars_eq_str(w, "enabled") || chars_eq_str(w, "enable") {
        Some(true)
    } else if chars_eq_str(w, "false") || chars_eq_str(w, "no") || chars_eq_str(w, "off")
        || chars_eq_str(w, "0") || chars_eq_str(w, "disabled") || chars_eq_str(w, "disable") {
        Some(false)
    } else {
        None
    }
}

proof fn lemma_port_number_text(n: u16)
    ensures
        port_u16_s(decimal_s(n as nat)) == Some(n),
        port_fragment_s(decimal_s(n as nat)) == Some(PortSpec::Single(n)),
        trim_s(decimal_s(n as nat)) == decimal_s(n as nat),
        !decimal_s(n as nat).contains('-'),
        !decimal_s(n as nat).contains(':'),
        !decimal_s(n as nat).contains('/'),
        decimal_s(n as nat).len() >= 1,
        is_digit(decimal_s(n as nat)[0]),
        is_digit(decimal_s(n as nat).last()),
{
    let d = decimal_s(n as nat);
    lemma_parse_decimal(n as nat, 65535);
    lemma_decimal_digits(n as nat);
    lemma_decimal_plain(n as nat, '-');
    lemma_decimal_plain(n as nat, ':');
    lemma_decimal_plain(n as nat, '/');
    lemma_find_none(d, '-');
    assert(is_digit(d[0]));
    assert(is_digit(d[d.len() - 1]));
}

/// `a`, `c`, `b` trimmed is itself when it begins and ends with digits.
proof fn lemma_joined_plain(a: Seq<char>, c: char, b: Seq<char>)
    requires
        a.len() >= 1,
        b.len() >= 1,
        is_digit(a[0]),
        is_digit(b.last()),
    ensures
        trim_s(a + seq![c] + b) == a + seq![c] + b,
{
    let s = a + seq![c] + b;
    assert(s[0] == a[0]);
    assert(s[s.len() - 1] == b.last());
    lemma_trim_start_at(s, 0);
    assert(s.skip(0) == s);
    lemma_trim_end_at(s, s.len() as int);
    assert(s.take(s.len() as int) == s);
}

proof fn lemma_no_char_joined(a: Seq<char>, c: char, b: Seq<char>, x: char)
    requires
        !a.contains(x),
        !b.contains(x),
        c != x,
    ensures
        !(a + seq![c] + b).contains(x),
{
    let s = a + seq![c] + b;
    if s.contains(x) {
        let i = choose|i: int| 0 <= i < s.len() && s[i] == x;
        if i < a.len() {
            assert(a[i] == x);
        } else if i > a.len() {
            assert(b[i - a.len() - 1] == x);
        }
    }
}

/// Reading the text of a port back (`parse_port` of `to_text`) gives the
/// port: `p`, `start-end` and `host:container` all parse to what they show.
pub proof fn law_port_text_round_trip(p: PortSpec)
    ensures
        parse_port_s(p.text()) == Some(p),
{
    match p {
        PortSpec::Single(n) => {
            let d = decimal_s(n as nat);
            lemma_port_number_text(n);
            lemma_rfind(d, '/');
            lemma_split_none(d, ':');
        },
        PortSpec::Range(a, b) => {
            let da = decimal_s(a as nat);
            let db = decimal_s(b as nat);
            lemma_port_number_text(a);
            lemma_port_number_text(b);
            let s = da + seq!['-'] + db;
            reveal_strlit("-");
            assert(p.text() =~= s);
            lemma_joined_plain(da, '-', db);
            lemma_no_char_joined(da, '-', db, '/');
            lemma_no_char_joined(da, '-', db, ':');
            lemma_rfind(s, '/');
            lemma_split_none(s, ':');
            lemma_find_none(s, '-');
            assert(s[da.len() as int] == '-');
            assert(s.contains('-'));
            let i = find_s(s, '-')->0;
            if i < da.len() {
                assert(s[i] == da[i]);
            }
            if i > da.len() {
                assert(s.take(i)[da.len() as int] == '-');
            }
            assert(s.take(i) =~= da);
            assert(s.skip(i + 1) =~= db);
        },
        PortSpec::Mapping { host, container } => {
            let dh = decimal_s(host as nat);
            let dc = decimal_s(container as nat);
            lemma_port_number_text(host);
            lemma_port_number_text(container);
            let s = dh + seq![':'] + dc;
            reveal_strlit(":");
            assert(p.text() =~= s);
            lemma_joined_plain(dh, ':', dc);
            lemma_no_char_joined(dh, ':', dc, '/');
            lemma_rfind(s, '/');
            lemma_split_two(dh, dc, ':');
        },
    }
}


// ---------------------------------------------------------------------
// Versions
// ---------------------------------------------------------------------

/// An exact SemVer version (`semver::Version`), by its parts: the numbers,
/// and the pre-release and build texts (empty when absent).
#[derive(Debug, Clone)]
pub struct ExactVersion {
    pub major: u64,
    pub minor: u64,
    pub patch: u64,
    pub pre: String,
    pub build: String,
}

impl ExactVersion {
    /// The parts of the version.
    pub open spec fn parts(self) -> (u64, u64, u64, Seq<char>, Seq<char>) {
        (self.major, self.minor, self.patch, self.pre@, self.build@)
    }
}

/// How `semver::Version` displays: `major.minor.patch`, then `-pre` and
/// `+build` when they are not empty.
pub open spec fn exact_text_s(v: (u64, u64, u64, Seq<char>, Seq<char>)) -> Seq<char> {
    decimal_s(v.0 as nat) + "."@ + decimal_s(v.1 as nat) + "."@ + decimal_s(v.2 as nat) + (if v.3.len() > 0 {
        "-"@ + v.3
    } else {
        Seq::empty()
    }) + (if v.4.len() > 0 {
        "+"@ + v.4
    } else {
        Seq::empty()
    })
}

impl ExactVersion {
    /// The version as `semver::Version` displays it.
    pub fn to_text(&self) -> (r: String)
        ensures
            r@ == exact_text_s(self.parts()),
    {
        let mut out = String::new();
        push_decimal(&mut out, self.major);
        push_str(&mut out, ".");
        push_decimal(&mut out, self.minor);
        push_str(&mut out, ".");
        push_decimal(&mut out, self.patch);
        if to_chars(self.pre.as_str()).len() > 0 {
            push_str(&mut out, "-");
            push_str(&mut out, self.pre.as_str());
        }
        if to_chars(self.build.as_str()).len() > 0 {
            push_str(&mut out, "+");
            push_str(&mut out, self.build.as_str());
        }
        out
    }
}

/// What `semver::Version::parse` makes of a text: the parts of the version,
/// or nothing when the text is not a SemVer version.
pub uninterp spec fn semver_version_parse(text: Seq<char>) -> Option<(u64, u64, u64, Seq<char>, Seq<char>)>;

/// What `node_semver::Range::parse` makes of a text: the range as it
/// displays, or nothing when the text is not a range.
pub uninterp spec fn node_semver_range_text(text: Seq<char>) -> Option<Seq<char>>;

/// `semver::Version::parse`, the version taken apart into its numbers and
/// the texts of its pre-release and build identifiers.
#[verifier::external_body]
pub(crate) fn semver_parse(text: &str) -> (r: Option<ExactVersion>)
    ensures
        match r {
            Some(v) => semver_version_parse(text@) == Some(v.parts()),
            None => semver_version_parse(text@) is None,
        },
{
    match semver::Version::parse(text) {
        Ok(v) => Some(
            ExactVersion {
                major: v.major,
                minor: v.minor,
                patch: v.patch,
                pre: v.pre.as_str().to_string(),
                build: v.build.as_str().to_string(),
            },
        ),
        Err(_) => None,
    }
}

/// `node_semver::Range::parse`, the range kept as the text it displays.
#[verifier::external_body]
pub(crate) fn node_range_parse(text: &str) -> (r: Option<String>)
    ensures
        match r {
            Some(t) => node_semver_range_text(text@) == Some(t@),
            None => node_semver_range_text(text@) is None,
        },
{
    match node_semver::Range::parse(text) {
        Ok(range) => Some(range.to_string()),
        Err(_) => None,
    }
}

/// How a version is specified.
#[derive(Debug, Clone)]
pub enum VersionSpec {
    /// Exact version: "20.11.0"
    Exact(ExactVersion),
    /// Partial version: "20" meaning 20.x.x, or "3.12" meaning 3.12.x
    Partial { major: u64, minor: Option<u64> },
    /// Range: ">=18 <20", "^20", "~3.12", held as the text the range displays
    Range(String),
    /// Docker tag: "22-alpine", "3.12-slim-bookworm"
    DockerTag { version: String, variant: Option<String> },
    /// Arbitrary string that looks like a version but doesn't parse cleanly
    Unparsed(String),
}

/// A version specification as plain values.
pub enum VersionView {
    Exact((u64, u64, u64, Seq<char>, Seq<char>)),
    Partial(u64, Option<u64>),
    Range(Seq<char>),
    DockerTag(Seq<char>, Option<Seq<char>>),
    Unparsed(Seq<char>),
}

/// The text of an optional string.
pub open spec fn opt_view(o: Option<String>) -> Option<Seq<char>> {
    match o {
        Some(s) => Some(s@),
        None => None,
    }
}

impl View for VersionSpec {
    type V = VersionView;

    open spec fn view(&self) -> VersionView {
        match self {
            VersionSpec::Exact(v) => VersionView::Exact(v.parts()),
            VersionSpec::Partial { major, minor } => VersionView::Partial(*major, *minor),
            VersionSpec::Range(r) => VersionView::Range(r@),
            VersionSpec::DockerTag { version, variant } => VersionView::DockerTag(version@, opt_view(*variant)),
            VersionSpec::Unparsed(s) => VersionView::Unparsed(s@),
        }
    }
}

/// A major version, or `major.minor`, of plain decimal numbers.
pub open spec fn partial_s(s: Seq<char>) -> Option<VersionView> {
    let parts = split_s(s, '.');
    if parts.len() == 1 {
        match parse_uint_s(parts[0], 0xffff_ffff_ffff_ffff) {
            Some(m) => Some(VersionView::Partial(m as u64, None)),
            None => None,
        }
    } else if parts.len() == 2 {
        match (parse_uint_s(parts[0], 0xffff_ffff_ffff_ffff), parse_uint_s(parts[1], 0xffff_ffff_ffff_ffff)) {
            (Some(m), Some(n)) => Some(VersionView::Partial(m as u64, Some(n as u64))),
            _ => None,
        }
    } else {
        None
    }
}

/// A Docker tag: a version starting with a digit, `-`, and a variant.
pub open spec fn docker_tag_s(s: Seq<char>) -> Option<VersionView> {
    match find_s(s, '-') {
        Some(i) => if i > 0 && is_digit(s[0]) {
            Some(VersionView::DockerTag(s.take(i), Some(s.skip(i + 1))))
        } else {
            None
        },
        None => None,
    }
}

/// How a version text reads, trimmed: an exact SemVer version, else a
/// range, else a partial version, else a Docker tag, else unparsed.
pub open spec fn parse_version_s(raw: Seq<char>) -> VersionView {
    let t = trim_s(raw);
    match semver_version_parse(t) {
        Some(v) => VersionView::Exact(v),
        None => match node_semver_range_text(t) {
            Some(r) => VersionView::Range(r),
            None => match partial_s(t) {
                Some(v) => v,
                None => match docker_tag_s(t) {
                    Some(v) => v,
                    None => VersionView::Unparsed(t),
                },
            },
        },
    }
}

fn try_parse_partial(s: &[char]) -> (r: Option<VersionSpec>)
    ensures
        match r {
            Some(v) => partial_s(s@) == Some(v@),
            None => partial_s(s@) is None,
        },
{
    let parts = split_chars(s, '.');
    proof {
        assert(vv(parts@) == split_s(s@, '.'));
    }
    if parts.len() == 1 {
        assert(vv(parts@)[0] == parts@[0]@);
        match parse_uint(parts[0].as_slice(), 0xffff_ffff_ffff_ffff) {
            Some(m) => Some(VersionSpec::Partial { major: m, minor: None }),
            None => None,
        }
    } else if parts.len() == 2 {
        assert(vv(parts@)[0] == parts@[0]@);
        assert(vv(parts@)[1] == parts@[1]@);
        match (parse_uint(parts[0].as_slice(), 0xffff_ffff_ffff_ffff), parse_uint(parts[1].as_slice(), 0xffff_ffff_ffff_ffff)) {
            (Some(m), Some(n)) => Some(VersionSpec::Partial { major: m, minor: Some(n) }),
            _ => None,
        }
    } else {
        None
    }
}

fn try_parse_docker_tag(s: &[char]) -> (r: Option<VersionSpec>)
    ensures
        match r {
            Some(v) => docker_tag_s(s@) == Some(v@),
            None => docker_tag_s(s@) is None,
        },
{
    match find_char(s, '-') {
        Some(i) => {
            if i > 0 && '0' <= s[0] && s[0] <= '9' {
                let version = from_chars(slice_chars(s, 0, i).as_slice());
                let variant = from_chars(slice_chars(s, i + 1, s.len()).as_slice());
                assert(s@.subrange(0, i as int) == s@.take(i as int));
                assert(s@.subrange(i + 1, s@.len() as int) == s@.skip(i + 1));
                Some(VersionSpec::DockerTag { version, variant: Some(variant) })
            } else {
                None
            }
        },
        None => None,
    }
}

/// A version read as a Docker tag is split at the first `-` of its trimmed
/// text: the version part holds no `-`, and the version, a `-` and the
/// variant spell the trimmed text again (`3.12-slim-bookworm` has the
/// version `3.12` and the variant `slim-bookworm`).
pub proof fn law_docker_tag_splits_at_first_dash(raw: Seq<char>)
    ensures
        match parse_version_s(raw) {
            VersionView::DockerTag(version, Some(variant)) => !version.contains('-') && version + "-"@ + variant
                == trim_s(raw),
            VersionView::DockerTag(_, None) => false,
            _ => true,
        },
{
    let t = trim_s(raw);
    lemma_find_none(t, '-');
    reveal_strlit("-");
    if let Some(i) = find_s(t, '-') {
        assert(t.take(i) + "-"@ + t.skip(i + 1) =~= t);
    }
}

/// Parse a version string into a VersionSpec, trying multiple strategies.
pub fn parse_version(raw: &str) -> (r: VersionSpec)
    ensures
        r@ == parse_version_s(raw@),
{
    let cs = to_chars(raw);
    let t = trim_chars(cs.as_slice());
    let trimmed = from_chars(t.as_slice());
    if let Some(v) = semver_parse(trimmed.as_str()) {
        return VersionSpec::Exact(v);
    }
    if let Some(r) = node_range_parse(trimmed.as_str()) {
        return VersionSpec::Range(r);
    }
    if let Some(p) = try_parse_partial(t.as_slice()) {
        return p;
    }
    if let Some(d) = try_parse_docker_tag(t.as_slice()) {
        return d;
    }
    VersionSpec::Unparsed(trimmed)
}

/// How a version specification displays.
pub open spec fn version_text_s(v: VersionView) -> Seq<char> {
    match v {
        VersionView::Exact(e) => exact_text_s(e),
        VersionView::Partial(major, minor) => match minor {
            Some(m) => decimal_s(major as nat) + "."@ + decimal_s(m as nat),
            None => decimal_s(major as nat),
        },
        VersionView::Range(r) => r,
        VersionView::DockerTag(version, variant) => match variant {
            Some(x) => version + "-"@ + x,
            None => version,
        },
        VersionView::Unparsed(s) => s,
    }
}

impl VersionSpec {
    /// The version as text: the exact version, `major.minor` or `major`,
    /// the range, `version-variant` or `version`, or the unparsed text.
    pub fn to_text(&self) -> (r: String)
        ensures
            r@ == version_text_s(self@),
    {
        match self {
            VersionSpec::Exact(v) => v.to_text(),
            VersionSpec::Partial { major, minor } => {
                let mut out = String::new();
                push_decimal(&mut out, *major);
                match minor {
                    Some(m) => {
                        push_str(&mut out, ".");
                        push_decimal(&mut out, *m);
                    },
                    None => {},
                }
                out
            },
            VersionSpec::Range(r) => r.clone(),
            VersionSpec::DockerTag { version, variant } => {
                let mut out = version.clone();
                match variant {
                    Some(x) => {
                        push_str(&mut out, "-");
                        push_str(&mut out, x.as_str());
                    },
                    None => {},
                }
                out
            },
            VersionSpec::Unparsed(s) => s.clone(),
        }
    }
}

/// The semantic type of a configuration value.
#[derive(Debug, Clone)]
pub enum SemanticType {
    Version(VersionSpec),
    Port(PortSpec),
    Boolean(bool),
    /// A path, as its text.
    Path(String),
    StringValue(String),
}

/// The text of a typed value, as it displays.
pub open spec fn semantic_text_s(v: SemanticType) -> Seq<char> {
    match v {
        SemanticType::Version(x) => version_text_s(x@),
        SemanticType::Port(p) => p.text(),
        SemanticType::Boolean(b) => if b {
            "true"@
        } else {
            "false"@
        },
        SemanticType::Path(p) => p@,
        SemanticType::StringValue(s) => s@,
    }
}

impl SemanticType {
    /// The value as text.
    pub fn to_text(&self) -> (r: String)
        ensures
            r@ == semantic_text_s(*self),
    {
        match self {
            SemanticType::Version(x) => x.to_text(),
            SemanticType::Port(p) => p.to_text(),
            SemanticType::Boolean(b) => if *b {
                String::from_str("true")
            } else {
                String::from_str("false")
            },
            SemanticType::Path(p) => p.clone(),
            SemanticType::StringValue(s) => s.clone(),
        }
    }
}

} // verus!

verus! {

fn dup_opt(o: &Option<String>) -> (r: Option<String>)
    ensures
        r == *o,
{
    match o {
        Some(s) => Some(s.clone()),
        None => None,
    }
}

impl ExactVersion {
    /// A field-by-field copy of the version.
    pub fn duplicate(&self) -> (r: Self)
        ensures
            r == *self,
    {
        ExactVersion {
            major: self.major,
            minor: self.minor,
            patch: self.patch,
            pre: self.pre.clone(),
            build: self.build.clone(),
        }
    }
}

impl VersionSpec {
    /// A field-by-field copy of the version specification.
    pub fn duplicate(&self) -> (r: Self)
        ensures
            r == *self,
    {
        match self {
            VersionSpec::Exact(v) => VersionSpec::Exact(v.duplicate()),
            VersionSpec::Partial { major, minor } => VersionSpec::Partial { major: *major, minor: *minor },
            VersionSpec::Range(s) => VersionSpec::Range(s.clone()),
            VersionSpec::DockerTag { version, variant } => VersionSpec::DockerTag {
                version: version.clone(),
                variant: dup_opt(variant),
            },
            VersionSpec::Unparsed(s) => VersionSpec::Unparsed(s.clone()),
        }
    }
}

impl SemanticType {
    /// A field-by-field copy of the value.
    pub fn duplicate(&self) -> (r: Self)
        ensures
            r == *self,
    {
        match self {
            SemanticType::Version(v) => SemanticType::Version(v.duplicate()),
            SemanticType::Port(p) => SemanticType::Port(*p),
            SemanticType::Boolean(b) => SemanticType::Boolean(*b),
            SemanticType::Path(s) => SemanticType::Path(s.clone()),
            SemanticType::StringValue(s) => SemanticType::StringValue(s.clone()),
        }
    }
}

} // verus!
