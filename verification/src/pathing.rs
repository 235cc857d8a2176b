//! Path text handled by components, as `std::path::Path` reads a Unix path.
use vstd::prelude::*;
use vstd::string::*;
use crate::text::{
    chars_eq, chars_eq_str, chars_lt, lemma_seq_lt_total, push_str, seq_lt, split_chars, split_s, to_chars, vv,
};

verus! {

/// Whether a piece between `/` separators is a component of the path:
/// empty pieces never are, and `.` only as the very first piece of a
/// relative path.
pub open spec fn keeps_piece(piece: Seq<char>, first_of_relative: bool) -> bool {
    piece.len() > 0 && (piece != "."@ || first_of_relative)
}

/// The components that the pieces make, the first piece being index 0.
pub open spec fn kept_pieces(ps: Seq<Seq<char>>, relative: bool) -> Seq<Seq<char>>
    decreases ps.len(),
{
    if ps.len() == 0 {
        Seq::empty()
    } else {
        let init = kept_pieces(ps.drop_last(), relative);
        if keeps_piece(ps.last(), relative && ps.len() == 1) {
            init.push(ps.last())
        } else {
            init
        }
    }
}

/// The components of a path (`Path::components` on Unix): `/` for the
/// root, then the non-empty pieces, `.` kept only at the start of a
/// relative path.
pub open spec fn path_components(p: Seq<char>) -> Seq<Seq<char>> {
    let absolute = p.len() > 0 && p[0] == '/';
    let kept = kept_pieces(split_s(p, '/'), !absolute);
    if absolute {
        seq!["/"@] + kept
    } else {
        kept
    }
}

/// `child` is a whole-component suffix of `path` (`Path::ends_with`).
pub open spec fn path_ends_with_s(path: Seq<char>, child: Seq<char>) -> bool {
    let a = path_components(path);
    let b = path_components(child);
    b.len() <= a.len() && a.skip(a.len() - b.len()) == b
}

/// The components of a path.
pub fn components(p: &[char]) -> (r: Vec<Vec<char>>)
    ensures
        vv(r@) == path_components(p@),
{
    let absolute = p.len() > 0 && p[0] == '/';
    let pieces = split_chars(p, '/');
    let ghost ps = split_s(p@, '/');
    let mut out: Vec<Vec<char>> = Vec::new();
    if absolute {
        out.push(to_chars("/"));
    }
    let dot = to_chars(".");
    let mut i: usize = 0;
    while i < pieces.len()
        invariant
            i <= pieces.len(),
            vv(pieces@) == ps,
            dot@ == "."@,
            vv(out@) == (if absolute {
                seq!["/"@] + kept_pieces(ps.take(i as int), !absolute)
            } else {
                kept_pieces(ps.take(i as int), !absolute)
            }),
        decreases pieces.len() - i,
    {
        let piece = &pieces[i];
        proof {
            assert(ps.take(i + 1).drop_last() == ps.take(i as int));
            assert(ps.take(i + 1).last() == piece@);
        }
        let keep = piece.len() > 0 && (!chars_eq(piece.as_slice(), dot.as_slice()) || (
        !absolute && i == 0));
        if keep {
            let ghost od = vv(out@);
            out.push(crate::text::slice_chars(piece.as_slice(), 0, piece.len()));
            proof {
                assert(piece@.subrange(0, piece@.len() as int) == piece@);
                assert(vv(out@) =~= od.push(piece@));
            }
        }
        i = i + 1;
    }
    assert(ps.take(pieces.len() as int) == ps);
    out
}

/// `child` is a whole-component suffix of `path`.
pub fn path_ends_with(path: &str, child: &str) -> (r: bool)
    ensures
        r == path_ends_with_s(path@, child@),
{
    let pc = to_chars(path);
    let cc = to_chars(child);
    let a = components(pc.as_slice());
    let b = components(cc.as_slice());
    let ghost av = vv(a@);
    let ghost bv = vv(b@);
    if b.len() > a.len() {
        return false;
    }
    let off = a.len() - b.len();
    let mut i: usize = 0;
    while i < b.len()
        invariant
            av == vv(a@),
            bv == vv(b@),
            av == path_components(path@),
            bv == path_components(child@),
            off == a.len() - b.len(),
            i <= b.len(),
            forall|j: int| 0 <= j < i ==> av[off + j] == bv[j],
        decreases b.len() - i,
    {
        if !chars_eq(a[off + i].as_slice(), b[i].as_slice()) {
            assert(av[off + i] == a@[off + i]@);
            assert(bv[i as int] == b@[i as int]@);
            assert(av.skip(off as int)[i as int] == av[off + i]);
            assert(av.skip(off as int)[i as int] != bv[i as int]);
            return false;
        }
        i = i + 1;
    }
    assert(av.skip(off as int) =~= bv);
    true
}

/// `base.join(path)` for Unix path text: an absolute `path` replaces the
/// base; otherwise a `/` separates them unless `base` is empty or already
/// ends with one.
pub open spec fn path_join_s(base: Seq<char>, path: Seq<char>) -> Seq<char> {
    if path.len() > 0 && path[0] == '/' {
        path
    } else if base.len() == 0 || base.last() == '/' {
        base + path
    } else {
        base + "/"@ + path
    }
}

/// `base.join(path)`.
pub fn path_join(base: &str, path: &str) -> (r: String)
    ensures
        r@ == path_join_s(base@, path@),
{
    let p = to_chars(path);
    if p.len() > 0 && p[0] == '/' {
        return String::from_str(path);
    }
    let d = to_chars(base);
    let mut out = String::from_str(base);
    if !(d.len() == 0 || d[d.len() - 1] == '/') {
        push_str(&mut out, "/");
    }
    push_str(&mut out, path);
    proof {
        if d@.len() > 0 {
            assert(d@.last() == d@[d@.len() - 1]);
        }
    }
    out
}

// ---------------------------------------------------------------------
// The order of paths (`Ord for Path`): by components
// ---------------------------------------------------------------------

/// The rank of a component in `Component`'s order: the root, `.`, `..`,
/// then ordinary names.
pub open spec fn comp_rank(c: Seq<char>) -> int {
    if c == "/"@ {
        1
    } else if c == "."@ {
        2
    } else if c == ".."@ {
        3
    } else {
        4
    }
}

/// Components ordered by rank, names by their text.
pub open spec fn comp_lt(a: Seq<char>, b: Seq<char>) -> bool {
    comp_rank(a) < comp_rank(b) || (comp_rank(a) == 4 && comp_rank(b) == 4 && seq_lt(a, b))
}

/// Component sequences in lexicographic order.
pub open spec fn comps_lt(a: Seq<Seq<char>>, b: Seq<Seq<char>>) -> bool
    decreases a.len(),
{
    if a.len() == 0 {
        b.len() > 0
    } else if b.len() == 0 {
        false
    } else if a[0] != b[0] {
        comp_lt(a[0], b[0])
    } else {
        comps_lt(a.drop_first(), b.drop_first())
    }
}

/// Path `a` comes before path `b`.
pub open spec fn path_lt(a: Seq<char>, b: Seq<char>) -> bool {
    comps_lt(path_components(a), path_components(b))
}

/// Paths `a` and `b` are the same path (`Path`'s equality).
pub open spec fn path_eq(a: Seq<char>, b: Seq<char>) -> bool {
    path_components(a) == path_components(b)
}

pub proof fn lemma_comp_lt_total(a: Seq<char>, b: Seq<char>)
    ensures
        comp_lt(a, b) ==> a != b,
        comp_lt(a, b) ==> !comp_lt(b, a),
        a != b ==> comp_lt(a, b) || comp_lt(b, a),
{
    lemma_seq_lt_total(a, b);
}

pub proof fn lemma_comps_lt_total(a: Seq<Seq<char>>, b: Seq<Seq<char>>)
    ensures
        comps_lt(a, b) ==> a != b,
        comps_lt(a, b) ==> !comps_lt(b, a),
        a != b ==> comps_lt(a, b) || comps_lt(b, a),
    decreases a.len(),
{
    if a.len() > 0 && b.len() > 0 {
        lemma_comp_lt_total(a[0], b[0]);
        if a[0] == b[0] {
            lemma_comps_lt_total(a.drop_first(), b.drop_first());
            if a.drop_first() == b.drop_first() {
                assert(a =~= seq![a[0]] + a.drop_first());
                assert(b =~= seq![b[0]] + b.drop_first());
            }
        }
    }
    if a.len() == 0 && b.len() == 0 {
        assert(a =~= b);
    }
}

pub proof fn lemma_comps_lt_trans(a: Seq<Seq<char>>, b: Seq<Seq<char>>, c: Seq<Seq<char>>)
    requires
        comps_lt(a, b),
        comps_lt(b, c),
    ensures
        comps_lt(a, c),
    decreases a.len(),
{
    if a.len() > 0 && b.len() > 0 && c.len() > 0 {
        if a[0] == b[0] && b[0] == c[0] {
            lemma_comps_lt_trans(a.drop_first(), b.drop_first(), c.drop_first());
        } else if a[0] != b[0] && b[0] != c[0] {
            if comp_rank(a[0]) == 4 && comp_rank(b[0]) == 4 && comp_rank(c[0]) == 4 {
                crate::text::lemma_seq_lt_trans(a[0], b[0], c[0]);
            }
            lemma_comp_lt_total(a[0], c[0]);
            if a[0] == c[0] {
                lemma_comp_lt_total(a[0], b[0]);
            }
        }
    }
}

fn comp_rank_of(c: &[char]) -> (r: u8)
    ensures
        r == comp_rank(c@),
{
    if chars_eq_str(c, "/") {
        1
    } else if chars_eq_str(c, ".") {
        2
    } else if chars_eq_str(c, "..") {
        3
    } else {
        4
    }
}

fn comps_less(a: &Vec<Vec<char>>, b: &Vec<Vec<char>>) -> (r: bool)
    ensures
        r == comps_lt(vv(a@), vv(b@)),
{
    let ghost av = vv(a@);
    let ghost bv = vv(b@);
    let mut i: usize = 0;
    assert(av.skip(0) == av && bv.skip(0) == bv);
    while i < a.len() && i < b.len() && chars_eq(a[i].as_slice(), b[i].as_slice())
        invariant
            i <= a.len(),
            i <= b.len(),
            av == vv(a@),
            bv == vv(b@),
            comps_lt(av, bv) == comps_lt(av.skip(i as int), bv.skip(i as int)),
        decreases a.len() - i,
    {
        proof {
            assert(av.skip(i as int).drop_first() == av.skip(i + 1));
            assert(bv.skip(i as int).drop_first() == bv.skip(i + 1));
            assert(av.skip(i as int)[0] == av[i as int]);
            assert(bv.skip(i as int)[0] == bv[i as int]);
        }
        i = i + 1;
    }
    if i == a.len() {
        i < b.len()
    } else if i == b.len() {
        false
    } else {
        assert(av.skip(i as int)[0] == av[i as int]);
        assert(bv.skip(i as int)[0] == bv[i as int]);
        let ra = comp_rank_of(a[i].as_slice());
        let rb = comp_rank_of(b[i].as_slice());
        ra < rb || (ra == 4 && rb == 4 && chars_lt(a[i].as_slice(), b[i].as_slice()))
    }
}

fn comps_same(a: &Vec<Vec<char>>, b: &Vec<Vec<char>>) -> (r: bool)
    ensures
        r == (vv(a@) == vv(b@)),
{
    let ghost av = vv(a@);
    let ghost bv = vv(b@);
    if a.len() != b.len() {
        assert(av.len() != bv.len());
        return false;
    }
    let mut i: usize = 0;
    while i < a.len()
        invariant
            i <= a.len() == b.len(),
            av == vv(a@),
            bv == vv(b@),
            forall|k: int| 0 <= k < i ==> av[k] == bv[k],
        decreases a.len() - i,
    {
        if !chars_eq(a[i].as_slice(), b[i].as_slice()) {
            assert(av[i as int] != bv[i as int]);
            return false;
        }
        i = i + 1;
    }
    assert(av =~= bv);
    true
}

/// Whether path `a` comes before path `b`.
pub fn path_less(a: &str, b: &str) -> (r: bool)
    ensures
        r == path_lt(a@, b@),
{
    let ac = to_chars(a);
    let bc = to_chars(b);
    let x = components(ac.as_slice());
    let y = components(bc.as_slice());
    comps_less(&x, &y)
}

/// Whether `a` and `b` are the same path.
pub fn path_same(a: &str, b: &str) -> (r: bool)
    ensures
        r == path_eq(a@, b@),
{
    let ac = to_chars(a);
    let bc = to_chars(b);
    let x = components(ac.as_slice());
    let y = components(bc.as_slice());
    comps_same(&x, &y)
}

} // verus!
