//! Regular-expression matching: the groups of the first match of a
//! pattern in a text, as `regex` finds them.
use vstd::prelude::*;
use vstd::string::*;
use regex::Regex;
use crate::model::semantic_type::opt_view;

verus! {

/// What `Regex::new(pattern)` and then `Regex::captures(text)` give: `None`
/// when the pattern does not compile, `Some(None)` when it does not match,
/// else the texts of all groups of the first match, group 0 (the whole
/// match) first, `None` for a group that took no part in it.
pub uninterp spec fn regex_captures_result(pattern: Seq<char>, text: Seq<char>) -> Option<
    Option<Seq<Option<Seq<char>>>>,
>;

/// The texts of optional strings.
pub open spec fn groups_view(gs: Seq<Option<String>>) -> Seq<Option<Seq<char>>> {
    gs.map_values(|g: Option<String>| opt_view(g))
}

/// `Regex::new`, `Regex::captures` and `Captures::iter`, each group's
/// match taken as its text. Claimed: the result is a function of the
/// pattern and the text.
#[verifier::external_body]
pub(crate) fn regex_captures(pattern: &str, text: &str) -> (r: Option<Option<Vec<Option<String>>>>)
    ensures
        match r {
            None => regex_captures_result(pattern@, text@) is None,
            Some(None) => regex_captures_result(pattern@, text@) == Some(None::<Seq<Option<Seq<char>>>>),
            Some(Some(gs)) => regex_captures_result(pattern@, text@) == Some(Some(groups_view(gs@))),
        },
{
    match Regex::new(pattern) {
        Err(_) => None,
        Ok(re) => Some(re.captures(text).map(|c| c.iter().map(|m| m.map(|m| m.as_str().to_string())).collect())),
    }
}

/// The text of the error that `Regex::new` reports for a pattern: `None`
/// when the pattern compiles.
pub uninterp spec fn regex_error_text(pattern: Seq<char>) -> Option<Seq<char>>;

/// `Regex::new`, its error, if any, in its display form. Claimed: the
/// result is a function of the pattern, and an error comes exactly when
/// `regex_captures` gives `None`.
#[verifier::external_body]
pub(crate) fn regex_error(pattern: &str) -> (r: Option<String>)
    ensures
        opt_view(r) == regex_error_text(pattern@),
        r is None <==> regex_captures_result(pattern@, seq![]) is Some,
{
    match Regex::new(pattern) {
        Ok(_) => None,
        Err(e) => Some(e.to_string()),
    }
}

/// Group `i` of a match, if the match has it and it took part.
pub open spec fn group_s(gs: Seq<Option<Seq<char>>>, i: int) -> Option<Seq<char>> {
    if 0 <= i < gs.len() {
        gs[i]
    } else {
        None
    }
}

/// Group `i` of the first match of the pattern in the text, if the
/// pattern compiles and matches and that group took part.
pub open spec fn captured_group_s(pattern: Seq<char>, text: Seq<char>, i: int) -> Option<Seq<char>> {
    match regex_captures_result(pattern, text) {
        Some(Some(gs)) => group_s(gs, i),
        _ => None,
    }
}

/// Groups `i` and `j` of the first match of the pattern in the text, if
/// the pattern compiles and matches and both groups took part.
pub open spec fn captured_pair_s(pattern: Seq<char>, text: Seq<char>, i: int, j: int) -> Option<
    (Seq<char>, Seq<char>),
> {
    match (captured_group_s(pattern, text, i), captured_group_s(pattern, text, j)) {
        (Some(a), Some(b)) => Some((a, b)),
        _ => None,
    }
}

fn group(gs: &Vec<Option<String>>, i: usize) -> (r: Option<String>)
    ensures
        opt_view(r) == group_s(groups_view(gs@), i as int),
{
    if i < gs.len() {
        match &gs[i] {
            Some(s) => Some(s.clone()),
            None => None,
        }
    } else {
        None
    }
}

/// Group `i` of the first match of the pattern in the text.
pub fn captured_group(pattern: &str, text: &str, i: usize) -> (r: Option<String>)
    ensures
        opt_view(r) == captured_group_s(pattern@, text@, i as int),
{
    match regex_captures(pattern, text) {
        Some(Some(gs)) => group(&gs, i),
        _ => None,
    }
}

/// Groups `i` and `j` of the first match of the pattern in the text.
pub fn captured_pair(pattern: &str, text: &str, i: usize, j: usize) -> (r: Option<(String, String)>)
    ensures
        match r {
            Some((a, b)) => captured_pair_s(pattern@, text@, i as int, j as int) == Some((a@, b@)),
            None => captured_pair_s(pattern@, text@, i as int, j as int) is None,
        },
{
    match regex_captures(pattern, text) {
        Some(Some(gs)) => match (group(&gs, i), group(&gs, j)) {
            (Some(a), Some(b)) => Some((a, b)),
            _ => None,
        },
        _ => None,
    }
}


/// What `Regex::new(pattern)` and then `Regex::captures_iter(text)` give:
/// `None` when the pattern does not compile, else, for every successive
/// non-overlapping match in order, the texts of all its groups (group 0
/// first, `None` for a group that took no part).
pub uninterp spec fn regex_all_captures_result(pattern: Seq<char>, text: Seq<char>) -> Option<
    Seq<Seq<Option<Seq<char>>>>,
>;

/// The group texts of every match.
pub open spec fn matches_view(ms: Seq<Vec<Option<String>>>) -> Seq<Seq<Option<Seq<char>>>> {
    ms.map_values(|m: Vec<Option<String>>| groups_view(m@))
}

/// `Regex::new`, `Regex::captures_iter` and `Captures::iter`, each group's
/// match taken as its text. Claimed: the result is a function of the
/// pattern and the text.
#[verifier::external_body]
pub(crate) fn regex_all_captures(pattern: &str, text: &str) -> (r: Option<Vec<Vec<Option<String>>>>)
    ensures
        match r {
            None => regex_all_captures_result(pattern@, text@) is None,
            Some(ms) => regex_all_captures_result(pattern@, text@) == Some(matches_view(ms@)),
        },
{
    match Regex::new(pattern) {
        Err(_) => None,
        Ok(re) => Some(
            re.captures_iter(text).map(|c| c.iter().map(|m| m.map(|m| m.as_str().to_string())).collect()).collect(),
        ),
    }
}

/// Group `i` of a match, its text.
pub fn match_group(m: &Vec<Option<String>>, i: usize) -> (r: Option<String>)
    ensures
        opt_view(r) == group_s(groups_view(m@), i as int),
{
    group(m, i)
}

} // verus!
