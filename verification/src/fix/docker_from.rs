//! The image reference of a Dockerfile `FROM` instruction's arguments, and
//! those arguments rewritten to the winner's tag.
use vstd::prelude::*;
use vstd::string::*;
use super::render::{docker_tag_for_s, render_docker_tag};
use crate::model::ConfigAssertion;
use crate::text::{from_chars, is_whitespace, is_ws, push_chars, push_str, rfind_char, rfind_s, slice_chars, to_chars};

verus! {

/// Where the image reference of `FROM` arguments starts, scanning from `i`:
/// after whitespace and after words that start with `--` (options such as
/// `--platform=...`). `in_option` is set inside such a word.
pub open spec fn image_start_s(s: Seq<char>, i: int, in_option: bool) -> int
    decreases s.len() - i,
{
    if i < 0 || i >= s.len() {
        s.len() as int
    } else if in_option {
        image_start_s(s, i + 1, !is_ws(s[i]))
    } else if is_ws(s[i]) {
        image_start_s(s, i + 1, false)
    } else if i + 1 < s.len() && s[i] == '-' && s[i + 1] == '-' {
        image_start_s(s, i + 1, true)
    } else {
        i
    }
}

/// The end of the word that starts at `i`: the first whitespace at or
/// after `i`, or the end.
pub open spec fn word_end_s(s: Seq<char>, i: int) -> int
    decreases s.len() - i,
{
    if i < 0 || i >= s.len() {
        s.len() as int
    } else if is_ws(s[i]) {
        i
    } else {
        word_end_s(s, i + 1)
    }
}

/// A `name:tag` image split at its last `:` when that `:` is followed by a
/// non-empty tag without `/` (so a registry port is no tag); `None` for a
/// digest reference (holding `@`).
pub open spec fn from_image_tag_s(image: Seq<char>) -> Option<(Seq<char>, Seq<char>)> {
    if image.contains('@') {
        None
    } else {
        match rfind_s(image, ':') {
            None => None,
            Some(k) => if k + 1 == image.len() || image.skip(k + 1).contains('/') {
                None
            } else {
                Some((image.take(k), image.skip(k + 1)))
            },
        }
    }
}

/// `FROM` arguments taken apart: the text before the image (whitespace and
/// options), the image name, its tag, and the text after the image (such
/// as ` AS build`); `None` when there is no image or it has no tag.
pub open spec fn docker_from_reference_s(args: Seq<char>) -> Option<(Seq<char>, Seq<char>, Seq<char>, Seq<char>)> {
    let a = image_start_s(args, 0, false);
    let b = word_end_s(args, a);
    if a >= args.len() {
        None
    } else {
        match from_image_tag_s(args.subrange(a, b)) {
            None => None,
            Some((name, tag)) => Some((args.take(a), name, tag, args.skip(b))),
        }
    }
}

/// The `FROM` arguments with the image's tag replaced by the winner's.
pub open spec fn docker_from_arguments_s(value: crate::model::SemanticType, raw: Seq<char>, args: Seq<char>) -> Option<
    Seq<char>,
> {
    match docker_from_reference_s(args) {
        None => None,
        Some((prefix, name, tag, suffix)) => match docker_tag_for_s(value, raw, tag) {
            None => None,
            Some(t) => Some(prefix + name + ":"@ + t + suffix),
        },
    }
}

proof fn lemma_image_start_bounds(s: Seq<char>, i: int, in_option: bool)
    requires
        0 <= i,
    ensures
        i <= image_start_s(s, i, in_option) <= s.len() || (i > s.len() && image_start_s(s, i, in_option) == s.len()),
    decreases s.len() - i,
{
    if i < s.len() {
        if in_option {
            lemma_image_start_bounds(s, i + 1, !is_ws(s[i]));
        } else if is_ws(s[i]) {
            lemma_image_start_bounds(s, i + 1, false);
        } else if i + 1 < s.len() && s[i] == '-' && s[i + 1] == '-' {
            lemma_image_start_bounds(s, i + 1, true);
        }
    }
}

proof fn lemma_word_end_bounds(s: Seq<char>, i: int)
    requires
        0 <= i <= s.len(),
    ensures
        i <= word_end_s(s, i) <= s.len(),
    decreases s.len() - i,
{
    if i < s.len() && !is_ws(s[i]) {
        lemma_word_end_bounds(s, i + 1);
    }
}

/// Where the image starts in the arguments.
fn image_start(s: &[char]) -> (r: usize)
    ensures
        r == image_start_s(s@, 0, false),
        r <= s.len(),
{
    let mut i: usize = 0;
    let mut in_option = false;
    while i < s.len()
        invariant
            i <= s.len(),
            image_start_s(s@, 0, false) == image_start_s(s@, i as int, in_option),
        decreases s.len() - i,
    {
        let c = s[i];
        if in_option {
            in_option = !is_whitespace(c);
        } else if is_whitespace(c) {
            in_option = false;
        } else if i + 1 < s.len() && c == '-' && s[i + 1] == '-' {
            in_option = true;
        } else {
            return i;
        }
        i = i + 1;
    }
    i
}

/// Where the word starting at `a` ends.
fn word_end(s: &[char], a: usize) -> (r: usize)
    requires
        a <= s.len(),
    ensures
        r == word_end_s(s@, a as int),
        a <= r <= s.len(),
{
    let mut j = a;
    while j < s.len() && !is_whitespace(s[j])
        invariant
            a <= j <= s.len(),
            word_end_s(s@, a as int) == word_end_s(s@, j as int),
        decreases s.len() - j,
    {
        j = j + 1;
    }
    j
}

fn from_image_tag(image: &[char]) -> (r: Option<(Vec<char>, Vec<char>)>)
    ensures
        match r {
            Some((n, t)) => from_image_tag_s(image@) == Some((n@, t@)),
            None => from_image_tag_s(image@) is None,
        },
{
    let mut i: usize = 0;
    while i < image.len()
        invariant
            i <= image.len(),
            forall|k: int| 0 <= k < i ==> image@[k] != '@',
        decreases image.len() - i,
    {
        if image[i] == '@' {
            assert(image@.contains('@'));
            return None;
        }
        i = i + 1;
    }
    assert(!image@.contains('@'));
    match rfind_char(image, ':') {
        None => None,
        Some(k) => {
            proof {
                crate::text::lemma_rfind(image@, ':');
            }
            if k + 1 == image.len() {
                return None;
            }
            let tag = slice_chars(image, k + 1, image.len());
            assert(tag@ == image@.skip(k + 1));
            let mut j: usize = 0;
            while j < tag.len()
                invariant
                    j <= tag.len(),
                    forall|m: int| 0 <= m < j ==> tag@[m] != '/',
                    tag@ == image@.skip(k + 1),
                    !image@.contains('@'),
                    rfind_s(image@, ':') == Some(k as int),
                    k + 1 < image@.len(),
                decreases tag.len() - j,
            {
                if tag[j] == '/' {
                    assert(tag@.contains('/'));
                    return None;
                }
                j = j + 1;
            }
            assert(!tag@.contains('/'));
            let name = slice_chars(image, 0, k);
            assert(name@ == image@.take(k as int));
            Some((name, tag))
        },
    }
}

/// The `FROM` arguments with the image's tag replaced by the winner's tag
/// (its own tag, or its exact version with the current tag's suffix), the
/// options before the image and the text after it kept.
pub fn render_docker_from_arguments(winner: &ConfigAssertion, current_arguments: &str) -> (r: Option<String>)
    ensures
        match r {
            Some(v) => docker_from_arguments_s(winner.value, winner.raw_value@, current_arguments@) == Some(v@),
            None => docker_from_arguments_s(winner.value, winner.raw_value@, current_arguments@) is None,
        },
{
    let s = to_chars(current_arguments);
    let a = image_start(s.as_slice());
    if a >= s.len() {
        return None;
    }
    let b = word_end(s.as_slice(), a);
    let image = slice_chars(s.as_slice(), a, b);
    let (name, tag) = match from_image_tag(image.as_slice()) {
        Some(p) => p,
        None => return None,
    };
    let tag_text = from_chars(tag.as_slice());
    let new_tag = match render_docker_tag(winner, tag_text.as_str()) {
        Some(t) => t,
        None => return None,
    };
    let prefix = slice_chars(s.as_slice(), 0, a);
    let suffix = slice_chars(s.as_slice(), b, s.len());
    let mut out = from_chars(prefix.as_slice());
    push_chars(&mut out, name.as_slice());
    push_str(&mut out, ":");
    push_str(&mut out, new_tag.as_str());
    push_chars(&mut out, suffix.as_slice());
    proof {
        assert(prefix@ == s@.take(a as int));
        assert(suffix@ == s@.skip(b as int));
    }
    Some(out)
}

} // verus!
