//! Python version requirements, as the version parser reads them.
use vstd::prelude::*;
use vstd::string::*;
use crate::pattern::{captured_pair, captured_pair_s};
use crate::model::semantic_type::parse_version_s;
use crate::model::{parse_version, VersionSpec};
use crate::text::{from_chars, join_s, lemma_join_push, push_str, split_chars, split_s, to_chars, trim_chars, trim_s, vv};

verus! {

/// An operator followed by a `major.minor` version at the end of a text.
pub const REQUIRES_SUFFIX_PATTERN: &'static str = r"([><=!~]+)(\d+\.\d+)$";

/// Groups 1 and 2 (operator and version) of the first match of
/// `REQUIRES_SUFFIX_PATTERN` in the text, if the pattern matches.
pub open spec fn python_requires_suffix_capture(part: Seq<char>) -> Option<(Seq<char>, Seq<char>)> {
    captured_pair_s(REQUIRES_SUFFIX_PATTERN@, part, 1, 2)
}

fn capture_requires_suffix(part: &str) -> (r: Option<(String, String)>)
    ensures
        match r {
            Some((op, v)) => python_requires_suffix_capture(part@) == Some((op@, v@)),
            None => python_requires_suffix_capture(part@) is None,
        },
{
    captured_pair(REQUIRES_SUFFIX_PATTERN, part, 1, 2)
}

/// One comma-separated piece of a requirement, trimmed, with a
/// `major.minor` version after its operator completed to `major.minor.0`.
pub open spec fn requires_piece_s(part: Seq<char>) -> Seq<char> {
    let t = trim_s(part);
    match python_requires_suffix_capture(t) {
        Some((op, v)) => op + v + ".0"@,
        None => t,
    }
}

/// A Python requirement such as `>=3.10,<3.12` as the version parser
/// reads it: the pieces, completed, joined by spaces (`>=3.10.0 <3.12.0`).
pub open spec fn python_requires_text_s(req: Seq<char>) -> Seq<char> {
    join_s(split_s(req, ',').map_values(|p: Seq<char>| requires_piece_s(p)), " "@)
}

fn requires_piece(part: &[char]) -> (r: String)
    ensures
        r@ == requires_piece_s(part@),
{
    let t = from_chars(trim_chars(part).as_slice());
    match capture_requires_suffix(t.as_str()) {
        Some((op, v)) => {
            let mut out = op;
            push_str(&mut out, v.as_str());
            push_str(&mut out, ".0");
            out
        },
        None => t,
    }
}

/// Convert Python version specifiers to something the version parser
/// handles: `>=3.10,<3.12` reads as `>=3.10.0 <3.12.0`.
pub fn parse_python_requires(req: &str) -> (r: VersionSpec)
    ensures
        r@ == parse_version_s(python_requires_text_s(req@)),
{
    let cs = to_chars(req);
    let parts = split_chars(cs.as_slice(), ',');
    let ghost pieces = split_s(req@, ',').map_values(|p: Seq<char>| requires_piece_s(p));
    let mut out = String::new();
    let mut i: usize = 0;
    while i < parts.len()
        invariant
            i <= parts.len(),
            vv(parts@) == split_s(req@, ','),
            pieces == split_s(req@, ',').map_values(|p: Seq<char>| requires_piece_s(p)),
            out@ == join_s(pieces.take(i as int), " "@),
        decreases parts.len() - i,
    {
        let piece = requires_piece(parts[i].as_slice());
        proof {
            assert(vv(parts@)[i as int] == parts@[i as int]@);
            assert(pieces[i as int] == piece@);
            assert(pieces.take(i + 1) == pieces.take(i as int).push(piece@));
            lemma_join_push(pieces.take(i as int), " "@, piece@);
        }
        if i > 0 {
            push_str(&mut out, " ");
        }
        push_str(&mut out, piece.as_str());
        i = i + 1;
    }
    assert(pieces.take(parts.len() as int) == pieces);
    parse_version(out.as_str())
}

} // verus!
