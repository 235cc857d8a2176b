//! Character-level text primitives shared by the parsers of this crate.
//!
//! Every primitive works on the characters of a string (`Seq<char>` in
//! specifications) and is stated against a spec function of this module.
use vstd::prelude::*;
use vstd::string::*;

verus! {

// ---------------------------------------------------------------------
// Specifications
// ---------------------------------------------------------------------

/// Unicode `White_Space`, the set that `char::is_whitespace` tests.
pub open spec fn is_ws(c: char) -> bool {
    ||| ('\u{9}' <= c && c <= '\u{d}')
    ||| c == ' '
    ||| c == '\u{85}'
    ||| c == '\u{a0}'
    ||| c == '\u{1680}'
    ||| ('\u{2000}' <= c && c <= '\u{200a}')
    ||| c == '\u{2028}'
    ||| c == '\u{2029}'
    ||| c == '\u{202f}'
    ||| c == '\u{205f}'
    ||| c == '\u{3000}'
}

/// `s` without its leading whitespace.
pub open spec fn trim_start_s(s: Seq<char>) -> Seq<char>
    decreases s.len(),
{
    if s.len() > 0 && is_ws(s[0]) {
        trim_start_s(s.drop_first())
    } else {
        s
    }
}

/// `s` without its trailing whitespace.
pub open spec fn trim_end_s(s: Seq<char>) -> Seq<char>
    decreases s.len(),
{
    if s.len() > 0 && is_ws(s.last()) {
        trim_end_s(s.drop_last())
    } else {
        s
    }
}

/// `s` without leading and trailing whitespace (`str::trim`).
pub open spec fn trim_s(s: Seq<char>) -> Seq<char> {
    trim_end_s(trim_start_s(s))
}

pub open spec fn is_digit(c: char) -> bool {
    '0' <= c && c <= '9'
}

pub open spec fn digit_val(c: char) -> nat {
    (c as int - '0' as int) as nat
}

pub open spec fn all_digits(s: Seq<char>) -> bool {
    forall|i: int| 0 <= i < s.len() ==> #[trigger] is_digit(s[i])
}

/// The number that a run of decimal digits spells.
pub open spec fn digits_value(s: Seq<char>) -> nat
    decreases s.len(),
{
    if s.len() == 0 {
        0
    } else {
        digits_value(s.drop_last()) * 10 + digit_val(s.last())
    }
}

/// `s` without one leading `+`, as the integer parsers of std accept it.
pub open spec fn unsigned_body(s: Seq<char>) -> Seq<char> {
    if s.len() > 0 && s[0] == '+' {
        s.drop_first()
    } else {
        s
    }
}

/// What `str::parse` gives for an unsigned integer type whose largest value is `max`.
pub open spec fn parse_uint_s(s: Seq<char>, max: nat) -> Option<nat> {
    let d = unsigned_body(s);
    if d.len() == 0 || !all_digits(d) || digits_value(d) > max {
        None
    } else {
        Some(digits_value(d))
    }
}

/// What `str::parse::<i64>` gives.
pub open spec fn parse_i64_s(s: Seq<char>) -> Option<int> {
    if s.len() > 0 && s[0] == '-' {
        let d = s.drop_first();
        if d.len() == 0 || !all_digits(d) || digits_value(d) > 0x8000_0000_0000_0000 {
            None
        } else {
            Some(-(digits_value(d) as int))
        }
    } else {
        match parse_uint_s(s, 0x7fff_ffff_ffff_ffff) {
            Some(v) => Some(v as int),
            None => None,
        }
    }
}

/// The pieces of `s` between occurrences of `c` (`str::split` on a char).
pub open spec fn split_s(s: Seq<char>, c: char) -> Seq<Seq<char>>
    decreases s.len(),
{
    if s.len() == 0 {
        seq![Seq::<char>::empty()]
    } else {
        let init = split_s(s.drop_last(), c);
        if s.last() == c {
            init.push(Seq::<char>::empty())
        } else {
            init.update(init.len() - 1, init.last().push(s.last()))
        }
    }
}

/// Index of the first occurrence of `c` in `s`.
pub open spec fn find_s(s: Seq<char>, c: char) -> Option<int>
    decreases s.len(),
{
    if s.len() == 0 {
        None
    } else {
        match find_s(s.drop_last(), c) {
            Some(i) => Some(i),
            None => if s.last() == c {
                Some(s.len() - 1)
            } else {
                None
            },
        }
    }
}

/// Index of the last occurrence of `c` in `s`.
pub open spec fn rfind_s(s: Seq<char>, c: char) -> Option<int>
    decreases s.len(),
{
    if s.len() == 0 {
        None
    } else if s.last() == c {
        Some(s.len() - 1)
    } else {
        rfind_s(s.drop_last(), c)
    }
}

pub open spec fn starts_with_s(s: Seq<char>, p: Seq<char>) -> bool {
    p.len() <= s.len() && s.take(p.len() as int) == p
}

pub open spec fn ends_with_s(s: Seq<char>, p: Seq<char>) -> bool {
    p.len() <= s.len() && s.skip(s.len() - p.len()) == p
}

/// `p` occurs in `s` at position `i`.
pub open spec fn occurs_at(s: Seq<char>, p: Seq<char>, i: int) -> bool {
    0 <= i && i + p.len() <= s.len() && s.subrange(i, i + p.len()) == p
}

/// `p` occurs somewhere in `s` (`str::contains`).
pub open spec fn contains_s(s: Seq<char>, p: Seq<char>) -> bool {
    exists|i: int| occurs_at(s, p, i)
}

/// A line of `str::lines`: the piece before a `\n` loses one trailing `\r`.
pub open spec fn strip_cr(s: Seq<char>) -> Seq<char> {
    if s.len() > 0 && s.last() == '\r' {
        s.drop_last()
    } else {
        s
    }
}

/// Every piece without its trailing `\r`.
pub open spec fn strip_cr_all(ps: Seq<Seq<char>>) -> Seq<Seq<char>>
    decreases ps.len(),
{
    if ps.len() == 0 {
        Seq::empty()
    } else {
        strip_cr_all(ps.drop_last()).push(strip_cr(ps.last()))
    }
}

/// The lines of `s` (`str::lines`): pieces between `\n`, each without a
/// trailing `\r`, and no empty piece after a final `\n`.
pub open spec fn lines_s(s: Seq<char>) -> Seq<Seq<char>> {
    let pieces = split_s(s, '\n');
    let n = pieces.len();
    let ended = strip_cr_all(pieces.take(n - 1));
    if pieces.last().len() == 0 {
        ended
    } else {
        ended.push(pieces.last())
    }
}

/// ASCII lowercase of one character.
pub open spec fn ascii_lower(c: char) -> char {
    if 'A' <= c && c <= 'Z' {
        ((c as u32) + 32) as char
    } else {
        c
    }
}

/// `a` and `b` are equal up to ASCII case (`str::eq_ignore_ascii_case`).
pub open spec fn eq_ignore_ascii_case_s(a: Seq<char>, b: Seq<char>) -> bool {
    a.len() == b.len() && forall|i: int|
        0 <= i < a.len() ==> ascii_lower(#[trigger] a[i]) == ascii_lower(b[i])
}

/// The decimal spelling of `n`, without leading zeros.
pub open spec fn decimal_s(n: nat) -> Seq<char>
    decreases n,
{
    if n < 10 {
        seq![digit_char(n)]
    } else {
        decimal_s(n / 10).push(digit_char(n % 10))
    }
}

pub open spec fn digit_char(d: nat) -> char {
    (d + '0' as nat) as char
}

/// The character sequences of a sequence of character vectors.
pub open spec fn vv(v: Seq<Vec<char>>) -> Seq<Seq<char>> {
    v.map_values(|x: Vec<char>| x@)
}

/// `parts` joined with `sep` between consecutive parts (`[T]::join`).
pub open spec fn join_s(parts: Seq<Seq<char>>, sep: Seq<char>) -> Seq<char>
    decreases parts.len(),
{
    if parts.len() == 0 {
        Seq::empty()
    } else if parts.len() == 1 {
        parts[0]
    } else {
        join_s(parts.drop_last(), sep) + sep + parts.last()
    }
}

/// Lexicographic order of character sequences (the order of `String`).
pub open spec fn seq_lt(a: Seq<char>, b: Seq<char>) -> bool
    decreases a.len(),
{
    if a.len() == 0 {
        b.len() > 0
    } else if b.len() == 0 {
        false
    } else if a[0] != b[0] {
        a[0] < b[0]
    } else {
        seq_lt(a.drop_first(), b.drop_first())
    }
}

// ---------------------------------------------------------------------
// Lemmas
// ---------------------------------------------------------------------

/// `seq_lt` is irreflexive and asymmetric, and any two distinct sequences are ordered.
pub proof fn lemma_seq_lt_total(a: Seq<char>, b: Seq<char>)
    ensures
        seq_lt(a, b) ==> a != b,
        seq_lt(a, b) ==> !seq_lt(b, a),
        a != b ==> seq_lt(a, b) || seq_lt(b, a),
    decreases a.len(),
{
    if a.len() > 0 && b.len() > 0 && a[0] == b[0] {
        lemma_seq_lt_total(a.drop_first(), b.drop_first());
        if a.drop_first() == b.drop_first() {
            assert(a == seq![a[0]] + a.drop_first());
            assert(b == seq![b[0]] + b.drop_first());
        }
    }
    if a.len() == 0 && b.len() == 0 {
        assert(a == b);
    }
}

/// `seq_lt` is transitive.
pub proof fn lemma_seq_lt_trans(a: Seq<char>, b: Seq<char>, c: Seq<char>)
    requires
        seq_lt(a, b),
        seq_lt(b, c),
    ensures
        seq_lt(a, c),
    decreases a.len(),
{
    if a.len() > 0 && b.len() > 0 && c.len() > 0 && a[0] == b[0] && b[0] == c[0] {
        lemma_seq_lt_trans(a.drop_first(), b.drop_first(), c.drop_first());
    }
}

pub proof fn lemma_trim_start_at(s: Seq<char>, i: int)
    requires
        0 <= i <= s.len(),
        forall|j: int| 0 <= j < i ==> is_ws(#[trigger] s[j]),
        i == s.len() || !is_ws(s[i]),
    ensures
        trim_start_s(s) == s.skip(i),
    decreases i,
{
    if i > 0 {
        assert forall|j: int| 0 <= j < i - 1 implies is_ws(#[trigger] s.drop_first()[j]) by {
            assert(s.drop_first()[j] == s[j + 1]);
        }
        lemma_trim_start_at(s.drop_first(), i - 1);
        assert(s.drop_first().skip(i - 1) == s.skip(i));
    } else {
        assert(s.skip(0) == s);
    }
}

pub proof fn lemma_trim_end_at(s: Seq<char>, k: int)
    requires
        0 <= k <= s.len(),
        forall|j: int| k <= j < s.len() ==> is_ws(#[trigger] s[j]),
        k == 0 || !is_ws(s[k - 1]),
    ensures
        trim_end_s(s) == s.take(k),
    decreases s.len() - k,
{
    if k < s.len() {
        assert forall|j: int| k <= j < s.drop_last().len() implies is_ws(
            #[trigger] s.drop_last()[j],
        ) by {
            assert(s.drop_last()[j] == s[j]);
        }
        lemma_trim_end_at(s.drop_last(), k);
        assert(s.drop_last().take(k) == s.take(k));
    } else {
        assert(s.take(k) == s);
    }
}

pub proof fn lemma_digits_value_push(s: Seq<char>, c: char)
    ensures
        digits_value(s.push(c)) == digits_value(s) * 10 + digit_val(c),
{
    assert(s.push(c).drop_last() == s);
}

pub proof fn lemma_digits_value_mono(s: Seq<char>, k: int)
    requires
        0 <= k <= s.len(),
    ensures
        digits_value(s.take(k)) <= digits_value(s),
    decreases s.len() - k,
{
    if k < s.len() {
        lemma_digits_value_mono(s.drop_last(), k);
        assert(s.drop_last().take(k) == s.take(k));
    } else {
        assert(s.take(k) == s);
    }
}

pub proof fn lemma_split_push(s: Seq<char>, c: char, x: char)
    ensures
        split_s(s.push(x), c) == (if x == c {
            split_s(s, c).push(Seq::<char>::empty())
        } else {
            let init = split_s(s, c);
            init.update(init.len() - 1, init.last().push(x))
        }),
{
    assert(s.push(x).drop_last() == s);
}

pub proof fn lemma_split_len(s: Seq<char>, c: char)
    ensures
        split_s(s, c).len() >= 1,
    decreases s.len(),
{
    if s.len() > 0 {
        lemma_split_len(s.drop_last(), c);
    }
}

pub proof fn lemma_find_push(s: Seq<char>, c: char, x: char)
    ensures
        find_s(s.push(x), c) == (match find_s(s, c) {
            Some(i) => Some(i),
            None => if x == c {
                Some(s.len() as int)
            } else {
                None
            },
        }),
{
    assert(s.push(x).drop_last() == s);
}

pub proof fn lemma_find_none(s: Seq<char>, c: char)
    ensures
        find_s(s, c) is None <==> !s.contains(c),
        find_s(s, c) matches Some(i) ==> 0 <= i < s.len() && s[i] == c && !s.take(i).contains(c),
    decreases s.len(),
{
    if s.len() > 0 {
        lemma_find_none(s.drop_last(), c);
        if let Some(i) = find_s(s.drop_last(), c) {
            assert(s.take(i) == s.drop_last().take(i));
        } else {
            if s.last() == c {
                assert(s.take(s.len() - 1) == s.drop_last());
            }
            assert forall|j: int| 0 <= j < s.len() && s[j] == c implies j == s.len() - 1 by {
                if j < s.len() - 1 {
                    assert(s.drop_last()[j] == s[j]);
                }
            }
        }
    }
}

pub proof fn lemma_rfind(s: Seq<char>, c: char)
    ensures
        rfind_s(s, c) is None <==> !s.contains(c),
        rfind_s(s, c) matches Some(i) ==> 0 <= i < s.len() && s[i] == c && !s.skip(i + 1).contains(
            c,
        ),
    decreases s.len(),
{
    if s.len() > 0 {
        lemma_rfind(s.drop_last(), c);
        if s.last() != c {
            if let Some(i) = rfind_s(s.drop_last(), c) {
                assert forall|j: int| 0 <= j < s.skip(i + 1).len() implies #[trigger] s.skip(i + 1)[j] != c by {
                    if j < s.drop_last().skip(i + 1).len() {
                        assert(s.skip(i + 1)[j] == s.drop_last().skip(i + 1)[j]);
                    }
                }
            } else {
                assert forall|j: int| 0 <= j < s.len() implies #[trigger] s[j] != c by {
                    if j < s.len() - 1 {
                        assert(s[j] == s.drop_last()[j]);
                    }
                }
            }
        } else {
            assert(s.skip(s.len() as int) =~= Seq::<char>::empty());
        }
    }
}

pub proof fn lemma_join_push(parts: Seq<Seq<char>>, sep: Seq<char>, p: Seq<char>)
    ensures
        join_s(parts.push(p), sep) == (if parts.len() == 0 {
            p
        } else {
            join_s(parts, sep) + sep + p
        }),
{
    assert(parts.push(p).drop_last() == parts);
    if parts.len() == 0 {
        assert(parts.push(p)[0] == p);
    }
}

pub proof fn lemma_split_bounded(s: Seq<char>, c: char)
    ensures
        forall|i: int|
            0 <= i < split_s(s, c).len() ==> (#[trigger] split_s(s, c)[i]).len() <= s.len(),
    decreases s.len(),
{
    if s.len() > 0 {
        lemma_split_bounded(s.drop_last(), c);
        lemma_split_len(s.drop_last(), c);
        let init = split_s(s.drop_last(), c);
        assert forall|i: int| 0 <= i < split_s(s, c).len() implies (#[trigger] split_s(
            s,
            c,
        )[i]).len() <= s.len() by {
            if i < init.len() - 1 {
                assert(split_s(s, c)[i] == init[i]);
            } else if i == init.len() - 1 {
                if s.last() != c {
                    assert(split_s(s, c)[i] == init.last().push(s.last()));
                } else {
                    assert(split_s(s, c)[i] == init[i]);
                }
            }
        }
    }
}

pub proof fn lemma_strip_cr_all(ps: Seq<Seq<char>>)
    ensures
        strip_cr_all(ps).len() == ps.len(),
        forall|i: int| 0 <= i < ps.len() ==> #[trigger] strip_cr_all(ps)[i] == strip_cr(ps[i]),
    decreases ps.len(),
{
    if ps.len() > 0 {
        lemma_strip_cr_all(ps.drop_last());
        assert forall|i: int| 0 <= i < ps.len() implies #[trigger] strip_cr_all(ps)[i] == strip_cr(
            ps[i],
        ) by {
            if i < ps.len() - 1 {
                assert(ps.drop_last()[i] == ps[i]);
            }
        }
    }
}

pub proof fn lemma_lines_bounded(s: Seq<char>)
    ensures
        forall|j: int| 0 <= j < lines_s(s).len() ==> (#[trigger] lines_s(s)[j]).len() <= s.len(),
{
    let pieces = split_s(s, '\n');
    lemma_split_len(s, '\n');
    lemma_split_bounded(s, '\n');
    let n = pieces.len();
    lemma_strip_cr_all(pieces.take(n - 1));
    assert forall|j: int| 0 <= j < lines_s(s).len() implies (#[trigger] lines_s(s)[j]).len()
        <= s.len() by {
        if j < n - 1 {
            assert(lines_s(s)[j] == strip_cr(pieces[j]));
        } else {
            assert(lines_s(s)[j] == pieces.last());
        }
    }
}

pub proof fn lemma_decimal_len(n: nat)
    ensures
        decimal_s(n).len() >= 1,
    decreases n,
{
    if n >= 10 {
        lemma_decimal_len(n / 10);
    }
}

// ---------------------------------------------------------------------
// Executable primitives
// ---------------------------------------------------------------------

/// Append one character to a string (`String::push`).
#[verifier::external_body]
pub(crate) fn push_char(s: &mut String, c: char)
    ensures
        final(s)@ == old(s)@.push(c),
{
    s.push(c);
}

/// The characters of a string slice, in order.
pub fn to_chars(s: &str) -> (r: Vec<char>)
    ensures
        r@ == s@,
{
    let mut out: Vec<char> = Vec::new();
    for c in it: s.chars()
        invariant
            out@ == it.seq().take(it.index() as int),
            it.seq() == s@,
    {
        out.push(c);
        assert(out@ == it.seq().take(it.index() as int + 1));
    }
    out
}

/// A string of the given characters.
pub fn from_chars(cs: &[char]) -> (r: String)
    ensures
        r@ == cs@,
{
    let mut out = String::new();
    let mut i: usize = 0;
    while i < cs.len()
        invariant
            i <= cs.len(),
            out@ == cs@.take(i as int),
        decreases cs.len() - i,
    {
        push_char(&mut out, cs[i]);
        i = i + 1;
        assert(out@ == cs@.take(i as int));
    }
    assert(cs@.take(cs.len() as int) == cs@);
    out
}

/// Append the characters of a slice to a string.
pub fn push_chars(out: &mut String, cs: &[char])
    ensures
        final(out)@ == old(out)@ + cs@,
{
    let mut i: usize = 0;
    while i < cs.len()
        invariant
            i <= cs.len(),
            out@ == old(out)@ + cs@.take(i as int),
        decreases cs.len() - i,
    {
        push_char(out, cs[i]);
        i = i + 1;
        assert(out@ == old(out)@ + cs@.take(i as int));
    }
    assert(cs@.take(cs.len() as int) == cs@);
}

/// Append a string slice to a string.
pub fn push_str(out: &mut String, s: &str)
    ensures
        final(out)@ == old(out)@ + s@,
{
    out.append(s);
}

/// `char::is_whitespace`.
pub fn is_whitespace(c: char) -> (b: bool)
    ensures
        b == is_ws(c),
{
    ('\u{9}' <= c && c <= '\u{d}') || c == ' ' || c == '\u{85}' || c == '\u{a0}' || c == '\u{1680}'
        || ('\u{2000}' <= c && c <= '\u{200a}') || c == '\u{2028}' || c == '\u{2029}' || c
        == '\u{202f}' || c == '\u{205f}' || c == '\u{3000}'
}

/// The characters `s[a..b]`.
pub fn slice_chars(s: &[char], a: usize, b: usize) -> (r: Vec<char>)
    requires
        a <= b <= s.len(),
    ensures
        r@ == s@.subrange(a as int, b as int),
{
    let mut out: Vec<char> = Vec::new();
    let mut i = a;
    while i < b
        invariant
            a <= i <= b <= s.len(),
            out@ == s@.subrange(a as int, i as int),
        decreases b - i,
    {
        out.push(s[i]);
        i = i + 1;
        assert(out@ == s@.subrange(a as int, i as int));
    }
    out
}

/// `a` comes before `b` in lexicographic order.
pub fn chars_lt(a: &[char], b: &[char]) -> (r: bool)
    ensures
        r == seq_lt(a@, b@),
{
    let mut i: usize = 0;
    assert(a@.skip(0) == a@ && b@.skip(0) == b@);
    while i < a.len() && i < b.len() && a[i] == b[i]
        invariant
            i <= a.len(),
            i <= b.len(),
            seq_lt(a@, b@) == seq_lt(a@.skip(i as int), b@.skip(i as int)),
        decreases a.len() - i,
    {
        proof {
            assert(a@.skip(i as int).drop_first() == a@.skip(i + 1));
            assert(b@.skip(i as int).drop_first() == b@.skip(i + 1));
        }
        i = i + 1;
    }
    if i == a.len() {
        i < b.len()
    } else if i == b.len() {
        false
    } else {
        a[i] < b[i]
    }
}

/// Bounds `(a, b)` such that `s[a..b]` is `s` trimmed.
pub fn trim_bounds(s: &[char]) -> (r: (usize, usize))
    ensures
        r.0 <= r.1 <= s.len(),
        s@.subrange(r.0 as int, r.1 as int) == trim_s(s@),
        trim_start_s(s@) == s@.skip(r.0 as int),
{
    let mut a: usize = 0;
    while a < s.len() && is_whitespace(s[a])
        invariant
            a <= s.len(),
            forall|j: int| 0 <= j < a ==> is_ws(#[trigger] s@[j]),
        decreases s.len() - a,
    {
        a = a + 1;
    }
    proof {
        lemma_trim_start_at(s@, a as int);
    }
    let mut b: usize = s.len();
    while b > a && is_whitespace(s[b - 1])
        invariant
            a <= b <= s.len(),
            forall|j: int| b <= j < s.len() ==> is_ws(#[trigger] s@[j]),
        decreases b,
    {
        b = b - 1;
    }
    proof {
        let t = s@.skip(a as int);
        assert forall|j: int| b - a <= j < t.len() implies is_ws(#[trigger] t[j]) by {
            assert(t[j] == s@[j + a]);
        }
        if b > a {
            assert(t[b - a - 1] == s@[b - 1]);
        }
        lemma_trim_end_at(t, (b - a) as int);
        assert(t.take((b - a) as int) == s@.subrange(a as int, b as int));
    }
    (a, b)
}

/// `s` trimmed of whitespace at both ends.
pub fn trim_chars(s: &[char]) -> (r: Vec<char>)
    ensures
        r@ == trim_s(s@),
{
    let (a, b) = trim_bounds(s);
    slice_chars(s, a, b)
}

/// Equality of two character sequences.
pub fn chars_eq(a: &[char], b: &[char]) -> (r: bool)
    ensures
        r == (a@ == b@),
{
    if a.len() != b.len() {
        return false;
    }
    let mut i: usize = 0;
    while i < a.len()
        invariant
            a.len() == b.len(),
            i <= a.len(),
            forall|j: int| 0 <= j < i ==> a@[j] == b@[j],
        decreases a.len() - i,
    {
        if a[i] != b[i] {
            return false;
        }
        i = i + 1;
    }
    assert(a@ =~= b@);
    true
}

/// Equality of the characters of a slice and of a string slice.
pub fn chars_eq_str(a: &[char], b: &str) -> (r: bool)
    ensures
        r == (a@ == b@),
{
    let bc = to_chars(b);
    chars_eq(a, bc.as_slice())
}

/// Equality of two string slices.
pub fn str_eq(a: &str, b: &str) -> (r: bool)
    ensures
        r == (a@ == b@),
{
    let ac = to_chars(a);
    chars_eq_str(ac.as_slice(), b)
}

/// Equality up to ASCII case.
pub fn chars_eq_ignore_ascii_case(a: &[char], b: &[char]) -> (r: bool)
    ensures
        r == eq_ignore_ascii_case_s(a@, b@),
{
    if a.len() != b.len() {
        return false;
    }
    let mut i: usize = 0;
    while i < a.len()
        invariant
            a.len() == b.len(),
            i <= a.len(),
            forall|j: int| 0 <= j < i ==> ascii_lower(#[trigger] a@[j]) == ascii_lower(b@[j]),
        decreases a.len() - i,
    {
        if to_ascii_lower(a[i]) != to_ascii_lower(b[i]) {
            return false;
        }
        i = i + 1;
    }
    true
}

/// `char::to_ascii_lowercase`.
pub fn to_ascii_lower(c: char) -> (r: char)
    ensures
        r == ascii_lower(c),
{
    if 'A' <= c && c <= 'Z' {
        let u = (c as u32) + 32;
        proof {
            assert(u <= 'z' as u32);
        }
        char_from_u32_ascii(u)
    } else {
        c
    }
}

/// The character of an ASCII code point.
fn char_from_u32_ascii(u: u32) -> (c: char)
    requires
        u < 128,
    ensures
        c == u as char,
{
    let b: u8 = u as u8;
    b as char
}

/// `s` starts with `p`.
pub fn starts_with_chars(s: &[char], p: &[char]) -> (r: bool)
    ensures
        r == starts_with_s(s@, p@),
{
    if p.len() > s.len() {
        return false;
    }
    let mut i: usize = 0;
    while i < p.len()
        invariant
            p.len() <= s.len(),
            i <= p.len(),
            forall|j: int| 0 <= j < i ==> s@[j] == p@[j],
        decreases p.len() - i,
    {
        if s[i] != p[i] {
            assert(s@.take(p.len() as int)[i as int] == s@[i as int]);
            return false;
        }
        i = i + 1;
    }
    assert(s@.take(p.len() as int) =~= p@);
    true
}

/// `s` ends with `p`.
pub fn ends_with_chars(s: &[char], p: &[char]) -> (r: bool)
    ensures
        r == ends_with_s(s@, p@),
{
    if p.len() > s.len() {
        return false;
    }
    let off = s.len() - p.len();
    let mut i: usize = 0;
    while i < p.len()
        invariant
            p.len() <= s.len(),
            off == s.len() - p.len(),
            i <= p.len(),
            forall|j: int| 0 <= j < i ==> s@[off + j] == p@[j],
        decreases p.len() - i,
    {
        if s[off + i] != p[i] {
            assert(s@.skip(off as int)[i as int] == s@[off + i]);
            return false;
        }
        i = i + 1;
    }
    assert(s@.skip(off as int) =~= p@);
    true
}

/// `p` occurs at position `i` of `s`.
pub fn occurs_at_exec(s: &[char], p: &[char], i: usize) -> (r: bool)
    ensures
        r == occurs_at(s@, p@, i as int),
{
    if i > s.len() || p.len() > s.len() - i {
        return false;
    }
    let mut k: usize = 0;
    while k < p.len()
        invariant
            i + p.len() <= s.len(),
            k <= p.len(),
            forall|j: int| 0 <= j < k ==> s@[i + j] == p@[j],
        decreases p.len() - k,
    {
        if s[i + k] != p[k] {
            assert(s@.subrange(i as int, i + p.len())[k as int] == s@[i + k]);
            return false;
        }
        k = k + 1;
    }
    assert(s@.subrange(i as int, i + p.len()) =~= p@);
    true
}

/// The first position at which `p` occurs in `s`.
pub fn find_sub(s: &[char], p: &[char]) -> (r: Option<usize>)
    ensures
        r matches Some(i) ==> occurs_at(s@, p@, i as int) && forall|j: int|
            0 <= j < i ==> !occurs_at(s@, p@, j),
        r is None ==> !contains_s(s@, p@),
{
    let mut i: usize = 0;
    while i < s.len()
        invariant
            i <= s.len(),
            forall|j: int| 0 <= j < i ==> !occurs_at(s@, p@, j),
        decreases s.len() - i,
    {
        if occurs_at_exec(s, p, i) {
            return Some(i);
        }
        i = i + 1;
    }
    if occurs_at_exec(s, p, i) {
        return Some(i);
    }
    assert forall|j: int| !occurs_at(s@, p@, j) by {
        if 0 <= j <= i {
        }
    }
    None
}

/// `p` occurs in `s`.
pub fn contains_chars(s: &[char], p: &[char]) -> (r: bool)
    ensures
        r == contains_s(s@, p@),
{
    match find_sub(s, p) {
        Some(i) => {
            assert(occurs_at(s@, p@, i as int));
            true
        },
        None => false,
    }
}

/// The first position of `c` in `s`.
pub fn find_char(s: &[char], c: char) -> (r: Option<usize>)
    ensures
        r == (match find_s(s@, c) {
            Some(i) => Some(i as usize),
            None => None::<usize>,
        }),
        r matches Some(i) ==> i < s.len() && s@[i as int] == c && !s@.take(i as int).contains(c)
            && find_s(s@, c) == Some(i as int),
        r is None ==> !s@.contains(c) && find_s(s@, c) is None,
{
    let mut i: usize = 0;
    while i < s.len()
        invariant
            i <= s.len(),
            find_s(s@.take(i as int), c) is None,
        decreases s.len() - i,
    {
        proof {
            lemma_find_push(s@.take(i as int), c, s@[i as int]);
            assert(s@.take(i as int).push(s@[i as int]) == s@.take(i + 1));
        }
        if s[i] == c {
            proof {
                lemma_find_none(s@.take(i as int), c);
                assert(s@.take(i as int + 1).take(i as int) == s@.take(i as int));
                lemma_find_prefix(s@, c, i as int + 1);
            }
            return Some(i);
        }
        i = i + 1;
    }
    proof {
        assert(s@.take(i as int) == s@);
        lemma_find_none(s@, c);
    }
    None
}

/// `find_s` of a prefix that already holds `c` agrees with `find_s` of the whole.
pub proof fn lemma_find_prefix(s: Seq<char>, c: char, k: int)
    requires
        0 <= k <= s.len(),
        find_s(s.take(k), c) is Some,
    ensures
        find_s(s, c) == find_s(s.take(k), c),
    decreases s.len() - k,
{
    if k < s.len() {
        assert(s.drop_last().take(k) == s.take(k));
        lemma_find_prefix(s.drop_last(), c, k);
    } else {
        assert(s.take(k) == s);
    }
}

/// The last position of `c` in `s`.
pub fn rfind_char(s: &[char], c: char) -> (r: Option<usize>)
    ensures
        r == (match rfind_s(s@, c) {
            Some(i) => Some(i as usize),
            None => None::<usize>,
        }),
        r matches Some(i) ==> i < s.len() && rfind_s(s@, c) == Some(i as int) && s@[i as int] == c,
        r is None ==> rfind_s(s@, c) is None,
{
    proof {
        lemma_rfind(s@, c);
    }
    let mut k: usize = s.len();
    assert(s@.take(k as int) == s@);
    while k > 0
        invariant
            k <= s.len(),
            rfind_s(s@, c) == rfind_s(s@.take(k as int), c),
        decreases k,
    {
        assert(s@.take(k as int).drop_last() == s@.take(k - 1));
        if s[k - 1] == c {
            return Some(k - 1);
        }
        k = k - 1;
    }
    None
}

/// The pieces of `s` between occurrences of `c`.
pub fn split_chars(s: &[char], c: char) -> (r: Vec<Vec<char>>)
    ensures
        vv(r@) == split_s(s@, c),
{
    let mut done: Vec<Vec<char>> = Vec::new();
    let mut cur: Vec<char> = Vec::new();
    let mut i: usize = 0;
    while i < s.len()
        invariant
            i <= s.len(),
            vv(done@).push(cur@) == split_s(s@.take(i as int), c),
        decreases s.len() - i,
    {
        proof {
            lemma_split_push(s@.take(i as int), c, s@[i as int]);
            assert(s@.take(i as int).push(s@[i as int]) == s@.take(i + 1));
        }
        if s[i] == c {
            let ghost old_done = vv(done@);
            let piece = cur;
            done.push(piece);
            cur = Vec::new();
            assert(vv(done@) =~= old_done.push(piece@));
        } else {
            cur.push(s[i]);
        }
        i = i + 1;
    }
    let ghost old_done = vv(done@);
    done.push(cur);
    assert(vv(done@) =~= old_done.push(cur@));
    assert(s@.take(s.len() as int) == s@);
    done
}

/// The lines of `s`, as `str::lines` gives them.
pub fn lines_chars(s: &[char]) -> (r: Vec<Vec<char>>)
    ensures
        vv(r@) == lines_s(s@),
{
    let pieces = split_chars(s, '\n');
    proof {
        lemma_split_len(s@, '\n');
    }
    let n = pieces.len();
    let ghost pv = vv(pieces@);
    let mut out: Vec<Vec<char>> = Vec::new();
    let mut i: usize = 0;
    while i + 1 < n
        invariant
            n == pieces.len(),
            pv == vv(pieces@),
            n >= 1,
            i + 1 <= n,
            vv(out@) == strip_cr_all(pv.take(i as int)),
        decreases n - i,
    {
        let p = &pieces[i];
        let mut q: Vec<char> = Vec::new();
        if p.len() > 0 && p[p.len() - 1] == '\r' {
            q = slice_chars(p.as_slice(), 0, p.len() - 1);
        } else {
            q = slice_chars(p.as_slice(), 0, p.len());
        }
        assert(q@ == strip_cr(pv[i as int]));
        let ghost od = vv(out@);
        out.push(q);
        assert(vv(out@) =~= od.push(q@));
        assert(pv.take(i + 1).drop_last() == pv.take(i as int));
        i = i + 1;
    }
    let last = &pieces[n - 1];
    assert(pv.last() == last@);
    assert(pv.take(n - 1) == pv.take(i as int));
    if last.len() > 0 {
        let q = slice_chars(last.as_slice(), 0, last.len());
        assert(q@ =~= last@);
        let ghost od = vv(out@);
        out.push(q);
        assert(vv(out@) =~= od.push(q@));
    }
    assert(pv == split_s(s@, '\n'));

    out
}

/// The lines of a string slice.
pub fn lines_of(s: &str) -> (r: Vec<Vec<char>>)
    ensures
        vv(r@) == lines_s(s@),
{
    let cs = to_chars(s);
    lines_chars(cs.as_slice())
}

/// `parts` joined with `sep`.
pub fn join_chars(parts: &[Vec<char>], sep: &[char]) -> (r: String)
    ensures
        r@ == join_s(vv(parts@), sep@),
{
    let mut out = String::new();
    let mut i: usize = 0;
    while i < parts.len()
        invariant
            i <= parts.len(),
            out@ == join_s(vv(parts@).take(i as int), sep@),
        decreases parts.len() - i,
    {
        proof {
            lemma_join_push(vv(parts@).take(i as int), sep@, vv(parts@)[i as int]);
            assert(vv(parts@).take(i as int).push(vv(parts@)[i as int])
                == vv(parts@).take(i + 1));
        }
        if i > 0 {
            push_chars(&mut out, sep);
        }
        push_chars(&mut out, parts[i].as_slice());
        i = i + 1;
    }
    assert(vv(parts@).take(parts.len() as int) == vv(parts@));
    out
}

/// Parse an unsigned decimal number no greater than `max`, as `str::parse` does.
pub fn parse_uint(s: &[char], max: u64) -> (r: Option<u64>)
    ensures
        r == (match parse_uint_s(s@, max as nat) {
            Some(v) => Some(v as u64),
            None => None::<u64>,
        }),
{
    let start: usize = if s.len() > 0 && s[0] == '+' {
        1
    } else {
        0
    };
    let ghost d = unsigned_body(s@);
    assert(d == s@.skip(start as int));
    if start == s.len() {
        return None;
    }
    let mut v: u64 = 0;
    let mut i: usize = start;
    while i < s.len()
        invariant
            start <= i <= s.len(),
            d == s@.skip(start as int),
            d == unsigned_body(s@),
            all_digits(d.take(i - start)),
            v as nat == digits_value(d.take(i - start)),
            v <= max,
        decreases s.len() - i,
    {
        let c = s[i];
        assert(d[i - start] == c);
        assert(d.take(i - start + 1) == d.take(i - start).push(c));
        if !('0' <= c && c <= '9') {
            assert(!is_digit(d[i - start]));
            return None;
        }
        let dv = ((c as u32) - ('0' as u32)) as u64;
        assert(dv == digit_val(c));
        proof {
            lemma_digits_value_push(d.take(i - start), c);
        }
        if dv > max || v > (max - dv) / 10 {
            proof {
                assert(v * 10 + dv > max) by (nonlinear_arith)
                    requires
                        dv > max || v > (max - dv) / 10,
                ;
                lemma_digits_value_mono(d, i - start + 1);
            }
            return None;
        }
        proof {
            assert(v * 10 + dv <= max) by (nonlinear_arith)
                requires
                    v <= (max - dv) / 10,
                    dv <= max,
            ;
        }
        v = v * 10 + dv;
        i = i + 1;
    }
    assert(d.take(s.len() - start) == d);
    Some(v)
}

/// The decimal spelling of `n`.
pub fn decimal_chars(n: u64) -> (r: Vec<char>)
    ensures
        r@ == decimal_s(n as nat),
    decreases n,
{
    let d = (n % 10) as u32;
    let c = char_from_u32_ascii(d + ('0' as u32));
    if n < 10 {
        let mut v: Vec<char> = Vec::new();
        v.push(c);
        v
    } else {
        let mut v = decimal_chars(n / 10);
        v.push(c);
        v
    }
}

/// Append the decimal spelling of `n` to `out`.
pub fn push_decimal(out: &mut String, n: u64)
    ensures
        final(out)@ == old(out)@ + decimal_s(n as nat),
{
    let d = decimal_chars(n);
    push_chars(out, d.as_slice());
}

// ---------------------------------------------------------------------
// Padding, as `format!` pads to a width (`{:<w}`, `{:>w}`)
// ---------------------------------------------------------------------

/// `n` spaces.
pub open spec fn spaces_s(n: nat) -> Seq<char> {
    Seq::new(n, |i: int| ' ')
}

/// `s` followed by spaces up to `w` characters (`{:<w}`).
pub open spec fn pad_right_s(s: Seq<char>, w: nat) -> Seq<char> {
    if s.len() >= w {
        s
    } else {
        s + spaces_s((w - s.len()) as nat)
    }
}

/// `s` preceded by spaces up to `w` characters (`{:>w}`).
pub open spec fn pad_left_s(s: Seq<char>, w: nat) -> Seq<char> {
    if s.len() >= w {
        s
    } else {
        spaces_s((w - s.len()) as nat) + s
    }
}

/// Append `n` spaces.
pub fn push_spaces(out: &mut String, n: usize)
    ensures
        final(out)@ == old(out)@ + spaces_s(n as nat),
{
    let mut i: usize = 0;
    while i < n
        invariant
            i <= n,
            out@ == old(out)@ + spaces_s(i as nat),
        decreases n - i,
    {
        push_char(out, ' ');
        i = i + 1;
        assert(out@ =~= old(out)@ + spaces_s(i as nat));
    }
}

/// Append `s` left-aligned in a field of `w` characters.
pub fn push_pad_right(out: &mut String, s: &str, w: usize)
    ensures
        final(out)@ == old(out)@ + pad_right_s(s@, w as nat),
{
    let n = to_chars(s).len();
    push_str(out, s);
    if n < w {
        push_spaces(out, w - n);
    }
    assert(final(out)@ =~= old(out)@ + pad_right_s(s@, w as nat));
}

/// Append `s` right-aligned in a field of `w` characters.
pub fn push_pad_left(out: &mut String, s: &str, w: usize)
    ensures
        final(out)@ == old(out)@ + pad_left_s(s@, w as nat),
{
    let n = to_chars(s).len();
    if n < w {
        push_spaces(out, w - n);
    }
    push_str(out, s);
    assert(final(out)@ =~= old(out)@ + pad_left_s(s@, w as nat));
}

// ---------------------------------------------------------------------
// Whitespace-separated words
// ---------------------------------------------------------------------

/// The characters of `s` up to its first whitespace.
pub open spec fn until_ws(s: Seq<char>) -> Seq<char>
    decreases s.len(),
{
    if s.len() == 0 || is_ws(s[0]) {
        Seq::empty()
    } else {
        seq![s[0]] + until_ws(s.drop_first())
    }
}

/// The first whitespace-separated word of `s`, if any.
pub open spec fn first_word_s(s: Seq<char>) -> Option<Seq<char>> {
    let t = trim_start_s(s);
    if t.len() == 0 {
        None
    } else {
        Some(until_ws(t))
    }
}

pub proof fn lemma_until_ws(s: Seq<char>, k: int)
    requires
        0 <= k <= s.len(),
        forall|j: int| 0 <= j < k ==> !is_ws(#[trigger] s[j]),
        k == s.len() || is_ws(s[k]),
    ensures
        until_ws(s) == s.take(k),
    decreases k,
{
    if k > 0 {
        assert forall|j: int| 0 <= j < k - 1 implies !is_ws(#[trigger] s.drop_first()[j]) by {
            assert(s.drop_first()[j] == s[j + 1]);
        }
        lemma_until_ws(s.drop_first(), k - 1);
        assert(seq![s[0]] + s.drop_first().take(k - 1) == s.take(k));
    } else {
        assert(s.take(0) == Seq::<char>::empty());
    }
}

/// The first whitespace-separated word of `s`.
pub fn first_word(s: &[char]) -> (r: Option<Vec<char>>)
    ensures
        r matches Some(w) ==> first_word_s(s@) == Some(w@),
        r is None ==> first_word_s(s@) is None,
{
    let mut a: usize = 0;
    while a < s.len() && is_whitespace(s[a])
        invariant
            a <= s.len(),
            forall|j: int| 0 <= j < a ==> is_ws(#[trigger] s@[j]),
        decreases s.len() - a,
    {
        a = a + 1;
    }
    proof {
        lemma_trim_start_at(s@, a as int);
    }
    if a == s.len() {
        return None;
    }
    let mut b: usize = a;
    while b < s.len() && !is_whitespace(s[b])
        invariant
            a <= b <= s.len(),
            forall|j: int| a <= j < b ==> !is_ws(#[trigger] s@[j]),
        decreases s.len() - b,
    {
        b = b + 1;
    }
    proof {
        let t = s@.skip(a as int);
        assert forall|j: int| 0 <= j < b - a implies !is_ws(#[trigger] t[j]) by {
            assert(t[j] == s@[j + a]);
        }
        if b < s.len() {
            assert(t[b - a] == s@[b as int]);
        }
        lemma_until_ws(t, (b - a) as int);
        assert(t.take((b - a) as int) == s@.subrange(a as int, b as int));
    }
    Some(slice_chars(s, a, b))
}

/// `s` with every trailing copy of the non-empty suffix `p` removed (`str::trim_end_matches`).
pub open spec fn trim_end_matches_s(s: Seq<char>, p: Seq<char>) -> Seq<char>
    recommends
        p.len() > 0,
    decreases s.len(),
{
    if p.len() > 0 && ends_with_s(s, p) {
        trim_end_matches_s(s.take(s.len() - p.len()), p)
    } else {
        s
    }
}

/// `s` with every trailing copy of the non-empty suffix `p` removed.
pub fn trim_end_matches_chars(s: &[char], p: &[char]) -> (r: Vec<char>)
    requires
        p.len() > 0,
    ensures
        r@ == trim_end_matches_s(s@, p@),
{
    let mut end: usize = s.len();
    assert(s@.take(end as int) == s@);
    while end >= p.len() && ends_with_chars(slice_chars(s, 0, end).as_slice(), p)
        invariant
            end <= s.len(),
            p.len() > 0,
            trim_end_matches_s(s@.take(end as int), p@) == trim_end_matches_s(s@, p@),
        decreases end,
    {
        assert(s@.take(end as int).take(end - p.len()) == s@.take(end - p.len()));
        end = end - p.len();
    }
    let head = slice_chars(s, 0, end);
    proof {
        if end < p.len() {
            assert(!ends_with_s(s@.take(end as int), p@));
        }
    }
    head
}

/// The first whitespace-separated word of `s` as the bounds `(a, b)` of
/// `s[a..b]`, with `s[..a]` all whitespace.
pub fn first_word_bounds(s: &[char]) -> (r: Option<(usize, usize)>)
    ensures
        r is None ==> first_word_s(s@) is None,
        r matches Some((a, b)) ==> a < b <= s.len() && trim_start_s(s@) == s@.skip(a as int)
            && first_word_s(s@) == Some(s@.subrange(a as int, b as int)),
{
    let mut a: usize = 0;
    while a < s.len() && is_whitespace(s[a])
        invariant
            a <= s.len(),
            forall|j: int| 0 <= j < a ==> is_ws(#[trigger] s@[j]),
        decreases s.len() - a,
    {
        a = a + 1;
    }
    proof {
        lemma_trim_start_at(s@, a as int);
    }
    if a == s.len() {
        return None;
    }
    let mut b: usize = a;
    while b < s.len() && !is_whitespace(s[b])
        invariant
            a <= b <= s.len(),
            forall|j: int| a <= j < b ==> !is_ws(#[trigger] s@[j]),
        decreases s.len() - b,
    {
        b = b + 1;
    }
    proof {
        let t = s@.skip(a as int);
        assert forall|j: int| 0 <= j < b - a implies !is_ws(#[trigger] t[j]) by {
            assert(t[j] == s@[j + a]);
        }
        if b < s.len() {
            assert(t[b - a] == s@[b as int]);
        }
        assert(t[0] == s@[a as int]);
        lemma_until_ws(t, (b - a) as int);
        assert(t.take((b - a) as int) == s@.subrange(a as int, b as int));
    }
    Some((a, b))
}

/// The characters of each argument.
pub open spec fn strs_view(args: Seq<&str>) -> Seq<Seq<char>> {
    args.map_values(|a: &str| a@)
}

/// `s` starts with `p` (`str::starts_with`).
pub fn str_starts_with(s: &str, p: &str) -> (r: bool)
    ensures
        r == starts_with_s(s@, p@),
{
    let a = to_chars(s);
    let b = to_chars(p);
    starts_with_chars(a.as_slice(), b.as_slice())
}

/// `s` ends with `p` (`str::ends_with`).
pub fn str_ends_with(s: &str, p: &str) -> (r: bool)
    ensures
        r == ends_with_s(s@, p@),
{
    let a = to_chars(s);
    let b = to_chars(p);
    ends_with_chars(a.as_slice(), b.as_slice())
}

/// `s` contains `p` (`str::contains`).
pub fn str_contains(s: &str, p: &str) -> (r: bool)
    ensures
        r == contains_s(s@, p@),
{
    let a = to_chars(s);
    let b = to_chars(p);
    contains_chars(a.as_slice(), b.as_slice())
}

/// What `str::to_lowercase` makes of the characters: the full Unicode
/// lowercase mapping.
pub uninterp spec fn unicode_lowercase(s: Seq<char>) -> Seq<char>;

/// `str::to_lowercase`. Claimed: the result depends on the text alone.
#[verifier::external_body]
pub(crate) fn to_lowercase(s: &str) -> (r: String)
    ensures
        r@ == unicode_lowercase(s@),
{
    s.to_lowercase()
}

// ---------------------------------------------------------------------
// Decimal spellings read back
// ---------------------------------------------------------------------

/// The decimal spelling of `n` is a non-empty run of digits that spells `n`.
pub proof fn lemma_decimal_digits(n: nat)
    ensures
        decimal_s(n).len() >= 1,
        all_digits(decimal_s(n)),
        digits_value(decimal_s(n)) == n,
    decreases n,
{
    let d = decimal_s(n);
    if n < 10 {
        assert(d.drop_last() =~= Seq::<char>::empty());
        assert(d.last() == digit_char(n));
        assert(digit_val(digit_char(n)) == n) by {
            assert(digit_char(n) as int == n + '0' as int);
        }
        assert(digits_value(d) == digits_value(d.drop_last()) * 10 + digit_val(d.last()));
    } else {
        lemma_decimal_digits(n / 10);
        let m = n % 10;
        assert(digit_char(m) as int == m + '0' as int);
        assert(d.drop_last() =~= decimal_s(n / 10));
        assert(d.last() == digit_char(m));
        assert(digit_val(digit_char(m)) == m);
        assert(digits_value(d) == digits_value(d.drop_last()) * 10 + digit_val(d.last()));
        assert(n == (n / 10) * 10 + m);
        assert forall|i: int| 0 <= i < d.len() implies #[trigger] is_digit(d[i]) by {
            if i < d.len() - 1 {
                assert(d[i] == decimal_s(n / 10)[i]);
            }
        }
    }
}

/// A decimal spelling is unchanged by trimming and holds none of the given
/// non-digit characters.
pub proof fn lemma_decimal_plain(n: nat, c: char)
    requires
        !is_digit(c),
    ensures
        !decimal_s(n).contains(c),
        trim_s(decimal_s(n)) == decimal_s(n),
{
    lemma_decimal_digits(n);
    let d = decimal_s(n);
    if d.contains(c) {
        let i = choose|i: int| 0 <= i < d.len() && d[i] == c;
        assert(is_digit(d[i]));
    }
    lemma_digits_trim(d);
}

/// A non-empty run of digits is unchanged by trimming.
pub proof fn lemma_digits_trim(d: Seq<char>)
    requires
        d.len() >= 1,
        all_digits(d),
    ensures
        trim_s(d) == d,
{
    assert(is_digit(d[0]));
    lemma_trim_start_at(d, 0);
    assert(d.skip(0) == d);
    assert(is_digit(d[d.len() - 1]));
    lemma_trim_end_at(d, d.len() as int);
    assert(d.take(d.len() as int) == d);
}

/// Reading a decimal spelling back gives the number.
pub proof fn lemma_parse_decimal(n: nat, max: nat)
    requires
        n <= max,
    ensures
        parse_uint_s(decimal_s(n), max) == Some(n),
{
    lemma_decimal_digits(n);
    let d = decimal_s(n);
    assert(is_digit(d[0]));
    assert(unsigned_body(d) == d);
}

/// Without `c`, `s` is a single piece.
pub proof fn lemma_split_none(s: Seq<char>, c: char)
    requires
        !s.contains(c),
    ensures
        split_s(s, c) == seq![s],
    decreases s.len(),
{
    if s.len() == 0 {
        assert(s =~= Seq::<char>::empty());
    } else {
        let init = s.drop_last();
        assert(!init.contains(c)) by {
            if init.contains(c) {
                let i = choose|i: int| 0 <= i < init.len() && init[i] == c;
                assert(s[i] == c);
            }
        }
        lemma_split_none(init, c);
        lemma_split_push(init, c, s.last());
        assert(s.last() != c) by {
            assert(s[s.len() - 1] == s.last());
        }
        assert(init.push(s.last()) == s);
        assert(seq![init].update(0, init.push(s.last())) =~= seq![s]);
    }
}

/// `a`, `c`, `b` with no `c` in `a` or `b` splits into `a` and `b`.
pub proof fn lemma_split_two(a: Seq<char>, b: Seq<char>, c: char)
    requires
        !a.contains(c),
        !b.contains(c),
    ensures
        split_s(a + seq![c] + b, c) == seq![a, b],
    decreases b.len(),
{
    if b.len() == 0 {
        lemma_split_none(a, c);
        lemma_split_push(a, c, c);
        assert(a + seq![c] + b =~= a.push(c));
        assert(b =~= Seq::<char>::empty());
        assert(seq![a].push(Seq::<char>::empty()) =~= seq![a, b]);
    } else {
        let b0 = b.drop_last();
        assert(!b0.contains(c)) by {
            if b0.contains(c) {
                let i = choose|i: int| 0 <= i < b0.len() && b0[i] == c;
                assert(b[i] == c);
            }
        }
        lemma_split_two(a, b0, c);
        lemma_split_push(a + seq![c] + b0, c, b.last());
        assert(b.last() != c) by {
            assert(b[b.len() - 1] == b.last());
        }
        assert((a + seq![c] + b0).push(b.last()) =~= a + seq![c] + b);
        assert(b0.push(b.last()) =~= b);
        assert(seq![a, b0].update(1, b0.push(b.last())) =~= seq![a, b]);
    }
}


/// The items of `v` in reverse order.
pub fn reversed_vec<T>(v: Vec<T>) -> (r: Vec<T>)
    ensures
        r@.len() == v@.len(),
        forall|k: int| 0 <= k < v@.len() ==> #[trigger] r@[k] == v@[v@.len() - 1 - k],
{
    let ghost orig = v@;
    let mut rest = v;
    let mut out: Vec<T> = Vec::new();
    while rest.len() > 0
        invariant
            rest@.len() + out@.len() == orig.len(),
            rest@ == orig.take(rest@.len() as int),
            forall|k: int| 0 <= k < out@.len() ==> #[trigger] out@[k] == orig[orig.len() - 1 - k],
        decreases rest@.len(),
    {
        let x = rest.pop().unwrap();
        out.push(x);
    }
    out
}


/// What `str::parse::<i64>` gives.
pub fn parse_i64(s: &[char]) -> (r: Option<i64>)
    ensures
        r == (match parse_i64_s(s@) {
            Some(v) => Some(v as i64),
            None => None::<i64>,
        }),
{
    if s.len() > 0 && s[0] == '-' {
        let d = slice_chars(s, 1, s.len());
        assert(d@ == s@.drop_first());
        if d.len() == 0 || (d.len() > 0 && d[0] == '+') {
            proof {
                if d@.len() > 0 {
                    assert(!is_digit(d@[0]));
                }
            }
            return None;
        }
        assert(unsigned_body(d@) == d@);
        match parse_uint(d.as_slice(), 0x8000_0000_0000_0000) {
            None => None,
            Some(v) => {
                if v == 0x8000_0000_0000_0000 {
                    Some(i64::MIN)
                } else {
                    Some(-(v as i64))
                }
            },
        }
    } else {
        match parse_uint(s, 0x7fff_ffff_ffff_ffff) {
            None => None,
            Some(v) => Some(v as i64),
        }
    }
}


// ---------------------------------------------------------------------
// All whitespace-separated words
// ---------------------------------------------------------------------

pub proof fn lemma_trim_start_shape(s: Seq<char>)
    ensures
        trim_start_s(s).len() <= s.len(),
        trim_start_s(s).len() > 0 ==> !is_ws(trim_start_s(s)[0]),
    decreases s.len(),
{
    if s.len() > 0 && is_ws(s[0]) {
        lemma_trim_start_shape(s.drop_first());
    }
}

pub proof fn lemma_until_ws_len(s: Seq<char>)
    ensures
        until_ws(s).len() <= s.len(),
        s.len() > 0 && !is_ws(s[0]) ==> until_ws(s).len() >= 1,
    decreases s.len(),
{
    if s.len() > 0 && !is_ws(s[0]) {
        lemma_until_ws_len(s.drop_first());
    }
}

/// The whitespace-separated words of `s`, in order (`str::split_whitespace`).
pub open spec fn words_s(s: Seq<char>) -> Seq<Seq<char>>
    decreases s.len(),
{
    match first_word_s(s) {
        None => Seq::empty(),
        Some(w) => {
            proof {
                lemma_trim_start_shape(s);
                lemma_until_ws_len(trim_start_s(s));
            }
            seq![w] + words_s(trim_start_s(s).skip(w.len() as int))
        },
    }
}

/// The whitespace-separated words of `s`, in order.
pub fn words(s: &[char]) -> (r: Vec<Vec<char>>)
    ensures
        vv(r@) == words_s(s@),
{
    let mut out: Vec<Vec<char>> = Vec::new();
    let mut rest: Vec<char> = slice_chars(s, 0, s.len());
    assert(rest@ =~= s@);
    while rest.len() > 0
        invariant
            vv(out@) + words_s(rest@) == words_s(s@),
        decreases rest@.len(),
    {
        match first_word_bounds(rest.as_slice()) {
            None => {
                assert(words_s(rest@) == Seq::<Seq<char>>::empty());
                assert(vv(out@) + words_s(rest@) =~= vv(out@));
                return out;
            },
            Some((a, b)) => {
                let w = slice_chars(rest.as_slice(), a, b);
                let next = slice_chars(rest.as_slice(), b, rest.len());
                proof {
                    let t = trim_start_s(rest@);
                    assert(t == rest@.skip(a as int));
                    assert(t.skip(w@.len() as int) =~= next@);
                    assert(words_s(rest@) == seq![w@] + words_s(next@));
                    assert(vv(out@.push(w)) =~= vv(out@).push(w@));
                    assert(vv(out@).push(w@) + words_s(next@) =~= vv(out@) + (seq![w@] + words_s(next@)));
                }
                out.push(w);
                rest = next;
            },
        }
    }
    assert(first_word_s(rest@) is None) by {
        assert(trim_start_s(rest@).len() == 0) by {
            lemma_trim_start_shape(rest@);
        }
    }
    assert(vv(out@) + words_s(rest@) =~= vv(out@));
    out
}

/// What `str::to_uppercase` makes of the characters: the full Unicode
/// uppercase mapping.
pub uninterp spec fn unicode_uppercase(s: Seq<char>) -> Seq<char>;

/// The ASCII uppercase of a character: `a`..`z` to `A`..`Z`, others kept.
pub open spec fn ascii_upper(c: char) -> char {
    if 'a' <= c && c <= 'z' {
        ((c as u32) - 32) as char
    } else {
        c
    }
}

/// All characters are ASCII.
pub open spec fn all_ascii_s(s: Seq<char>) -> bool {
    forall|i: int| 0 <= i < s.len() ==> (#[trigger] s[i] as u32) < 128
}

/// `str::to_uppercase`. Claimed: the result depends on the text alone, and
/// an ASCII text comes out with `a`..`z` turned to `A`..`Z` and every other
/// character kept (the Unicode uppercase mapping of ASCII).
#[verifier::external_body]
pub(crate) fn to_uppercase(s: &str) -> (r: String)
    ensures
        r@ == unicode_uppercase(s@),
        all_ascii_s(s@) ==> r@ == s@.map_values(|c: char| ascii_upper(c)),
{
    s.to_uppercase()
}

} // verus!
