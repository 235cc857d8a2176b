//! Open documents of the language server: editor positions (lines and
//! UTF-16 columns) turned into offsets, and edits applied to the text.
use vstd::prelude::*;
use vstd::string::*;
use crate::history::{utf8_len_s};
use crate::text::{push_char, push_str, to_chars};

verus! {

/// A position in a document: a zero-based line and a zero-based column
/// counted in UTF-16 code units.
#[derive(Debug, Clone, Copy, PartialEq, Eq, Structural)]
pub struct Position {
    pub line: u32,
    pub character: u32,
}

/// A range of a document, from `start` to `end`.
#[derive(Debug, Clone, Copy, PartialEq, Eq, Structural)]
pub struct Range {
    pub start: Position,
    pub end: Position,
}

/// One edit of a document: replace a range (or, without one, the whole
/// text) with `text`.
#[derive(Debug, Clone)]
pub struct ContentChange {
    pub range: Option<Range>,
    pub range_length: Option<u32>,
    pub text: String,
}

/// The UTF-16 length of a character.
pub open spec fn utf16_len(c: char) -> nat {
    if (c as u32) >= 0x10000 {
        2
    } else {
        1
    }
}

/// The (line, column) reached after the characters `s`, columns counted
/// only on line `target` (other lines stay at column 0).
pub open spec fn pos_after(s: Seq<char>, target: nat) -> (nat, nat)
    decreases s.len(),
{
    if s.len() == 0 {
        (0, 0)
    } else {
        let (l, c) = pos_after(s.drop_last(), target);
        let x = s.last();
        if x == '\n' {
            (l + 1, 0)
        } else if l == target {
            (l, c + utf16_len(x))
        } else {
            (l, c)
        }
    }
}

/// The character index at which the position is first reached, if it is.
#[verifier::opaque]
pub open spec fn position_index_s(s: Seq<char>, p: Position) -> Option<int> {
    if exists|k: int| 0 <= k <= s.len() && #[trigger] pos_after(s.take(k), p.line as nat) == (p.line as nat, p.character as nat) {
        Some(
            choose|k: int|
                0 <= k <= s.len() && #[trigger] pos_after(s.take(k), p.line as nat) == (p.line as nat, p.character as nat)
                    && forall|j: int| 0 <= j < k ==> #[trigger] pos_after(s.take(j), p.line as nat) != (p.line as nat, p.character as nat),
        )
    } else {
        None
    }
}

/// The byte offset of a position, if the document reaches it.
pub open spec fn position_offset_s(s: Seq<char>, p: Position) -> Option<nat> {
    match position_index_s(s, p) {
        Some(k) => Some(utf8_len_s(s.take(k))),
        None => None,
    }
}

proof fn lemma_pos_bounds(s: Seq<char>, t: nat)
    ensures
        pos_after(s, t).0 <= s.len(),
        pos_after(s, t).1 <= 2 * s.len(),
    decreases s.len(),
{
    if s.len() > 0 {
        lemma_pos_bounds(s.drop_last(), t);
    }
}

proof fn lemma_utf8_len_prefix(s: Seq<char>, k: int)
    requires
        0 <= k <= s.len(),
    ensures
        utf8_len_s(s.take(k)) <= utf8_len_s(s),
    decreases s.len() - k,
{
    if k < s.len() {
        lemma_utf8_len_prefix(s, k + 1);
        assert(s.take(k + 1).drop_last() == s.take(k));
    } else {
        assert(s.take(k) == s);
    }
}

/// The character index of a position, and its byte offset.
fn position_index(s: &Vec<char>, p: Position) -> (r: Option<(usize, usize)>)
    requires
        s@.len() < 0x8000_0000,
        utf8_len_s(s@) <= usize::MAX,
    ensures
        match r {
            Some((k, b)) => k <= s@.len() && position_index_s(s@, p) == Some(k as int) && b == utf8_len_s(
                s@.take(k as int),
            ),
            None => position_index_s(s@, p) is None,
        },
{
    let ghost target = (p.line as nat, p.character as nat);
    let mut line: u32 = 0;
    let mut col: u32 = 0;
    let mut bytes: usize = 0;
    let mut k: usize = 0;
    while k < s.len()
        invariant
            k <= s.len(),
            s@.len() < 0x8000_0000,
            utf8_len_s(s@) <= usize::MAX,
            target == (p.line as nat, p.character as nat),
            (line as nat, col as nat) == pos_after(s@.take(k as int), p.line as nat),
            bytes == utf8_len_s(s@.take(k as int)),
            forall|j: int| 0 <= j < k ==> #[trigger] pos_after(s@.take(j), p.line as nat) != target,
        decreases s.len() - k,
    {
        if line == p.line && col == p.character {
            proof {
                lemma_first_reach(s@, p, k as int);
            }
            return Some((k, bytes));
        }
        let c = s[k];
        proof {
            assert(s@.take(k + 1).drop_last() == s@.take(k as int));
            assert(s@.take(k + 1).last() == c);
            lemma_pos_bounds(s@.take(k + 1), p.line as nat);
            lemma_utf8_len_prefix(s@, k + 1);
        }
        let w: usize = if (c as u32) < 0x80 {
            1
        } else if (c as u32) < 0x800 {
            2
        } else if (c as u32) < 0x10000 {
            3
        } else {
            4
        };
        if c == '\n' {
            line = line + 1;
            col = 0;
        } else if line == p.line {
            let u: u32 = if (c as u32) >= 0x10000 {
                2
            } else {
                1
            };
            col = col + u;
        }
        bytes = bytes + w;
        k = k + 1;
    }
    if line == p.line && col == p.character {
        proof {
            lemma_first_reach(s@, p, k as int);
        }
        return Some((k, bytes));
    }
    proof {
        reveal(position_index_s);
        assert(s@.take(k as int) == s@);
        if exists|j: int| 0 <= j <= s@.len() && #[trigger] pos_after(s@.take(j), p.line as nat) == target {
            let j = choose|j: int| 0 <= j <= s@.len() && #[trigger] pos_after(s@.take(j), p.line as nat) == target;
            if j < k {
                assert(pos_after(s@.take(j), p.line as nat) != target);
            }
        }
    }
    None
}

proof fn lemma_first_reach(s: Seq<char>, p: Position, k: int)
    requires
        0 <= k <= s.len(),
        pos_after(s.take(k), p.line as nat) == (p.line as nat, p.character as nat),
        forall|j: int| 0 <= j < k ==> #[trigger] pos_after(s.take(j), p.line as nat) != (p.line as nat, p.character as nat),
    ensures
        position_index_s(s, p) == Some(k),
{
    reveal(position_index_s);
    let target = (p.line as nat, p.character as nat);
    let w = choose|q: int|
        0 <= q <= s.len() && #[trigger] pos_after(s.take(q), p.line as nat) == target && forall|j: int|
            0 <= j < q ==> #[trigger] pos_after(s.take(j), p.line as nat) != target;
    if w < k {
        assert(pos_after(s.take(w), p.line as nat) != target);
    }
    if w > k {
        assert(pos_after(s.take(k), p.line as nat) != target);
    }
}

/// The byte offset of a position in the document, if the document
/// reaches it.
pub fn position_to_offset(document: &str, position: Position) -> (r: Option<usize>)
    requires
        document@.len() < 0x8000_0000,
        utf8_len_s(document@) <= usize::MAX,
    ensures
        match r {
            Some(b) => position_offset_s(document@, position) == Some(b as nat),
            None => position_offset_s(document@, position) is None,
        },
{
    let s = to_chars(document);
    match position_index(&s, position) {
        Some((_, b)) => Some(b),
        None => None,
    }
}

/// The document after one change: a range that both ends of reach, in
/// order, is replaced; otherwise the whole text is.
pub open spec fn apply_change_s(doc: Seq<char>, ch: ContentChange) -> Seq<char> {
    match ch.range {
        None => ch.text@,
        Some(r) => match (position_index_s(doc, r.start), position_index_s(doc, r.end)) {
            (Some(a), Some(b)) => if a <= b {
                doc.take(a) + ch.text@ + doc.skip(b)
            } else {
                ch.text@
            },
            _ => ch.text@,
        },
    }
}

/// The document after the changes, in order.
pub open spec fn apply_changes_s(doc: Seq<char>, chs: Seq<ContentChange>) -> Seq<char>
    decreases chs.len(),
{
    if chs.len() == 0 {
        doc
    } else {
        apply_change_s(apply_changes_s(doc, chs.drop_last()), chs.last())
    }
}

/// The documents stay within the sizes that positions are counted in.
pub open spec fn changes_fit(doc: Seq<char>, chs: Seq<ContentChange>) -> bool {
    forall|i: int| 0 <= i <= chs.len() ==> {
        let d = #[trigger] apply_changes_s(doc, chs.take(i));
        d.len() < 0x8000_0000 && utf8_len_s(d) <= usize::MAX
    }
}

fn splice(s: &Vec<char>, a: usize, b: usize, text: &str) -> (r: String)
    requires
        a <= b <= s.len(),
    ensures
        r@ == s@.take(a as int) + text@ + s@.skip(b as int),
{
    let mut out = String::new();
    let mut i: usize = 0;
    while i < a
        invariant
            i <= a <= b <= s.len(),
            out@ == s@.take(i as int),
        decreases a - i,
    {
        push_char(&mut out, s[i]);
        i = i + 1;
        assert(out@ =~= s@.take(i as int));
    }
    push_str(&mut out, text);
    let ghost mid = out@;
    let mut j: usize = b;
    while j < s.len()
        invariant
            b <= j <= s.len(),
            out@ == mid + s@.subrange(b as int, j as int),
        decreases s.len() - j,
    {
        push_char(&mut out, s[j]);
        j = j + 1;
        assert(out@ =~= mid + s@.subrange(b as int, j as int));
    }
    assert(s@.subrange(b as int, s.len() as int) == s@.skip(b as int));
    out
}

/// The document after one change.
fn apply_change(document: &String, change: &ContentChange) -> (r: String)
    requires
        document@.len() < 0x8000_0000,
        utf8_len_s(document@) <= usize::MAX,
    ensures
        r@ == apply_change_s(document@, *change),
{
    let s = to_chars(document.as_str());
    match change.range {
        None => change.text.clone(),
        Some(range) => match (position_index(&s, range.start), position_index(&s, range.end)) {
            (Some((a, _)), Some((b, _))) => if a <= b {
                splice(&s, a, b, change.text.as_str())
            } else {
                change.text.clone()
            },
            _ => change.text.clone(),
        },
    }
}

/// Apply the editor's changes to the document, in order.
pub fn apply_content_changes(document: &mut String, content_changes: Vec<ContentChange>)
    requires
        changes_fit(old(document)@, content_changes@),
    ensures
        final(document)@ == apply_changes_s(old(document)@, content_changes@),
{
    let ghost start = document@;
    let mut i: usize = 0;
    while i < content_changes.len()
        invariant
            i <= content_changes.len(),
            changes_fit(start, content_changes@),
            document@ == apply_changes_s(start, content_changes@.take(i as int)),
        decreases content_changes.len() - i,
    {
        proof {
            assert(content_changes@.take(i + 1).drop_last() == content_changes@.take(i as int));
            assert(content_changes@.take(i + 1).last() == content_changes@[i as int]);
            let d = apply_changes_s(start, content_changes@.take(i as int));
            assert(d.len() < 0x8000_0000 && utf8_len_s(d) <= usize::MAX);
        }
        let next = apply_change(document, &content_changes[i]);
        *document = next;
        i = i + 1;
    }
    assert(content_changes@.take(content_changes.len() as int) == content_changes@);
}

} // verus!
