//! Versions read from image references, runtime names and tool lines.
use vstd::prelude::*;
use vstd::string::*;
use crate::text::{
    chars_eq_str, contains_chars, contains_s, ends_with_chars, ends_with_s, find_char, find_s, first_word_bounds, first_word_s, from_chars, lines_of, lines_s, rfind_char, rfind_s, slice_chars, to_chars, vv,
};

verus! {

/// `name:tag` split at its last `:`; `None` for a digest reference
/// (holding `@`), for no `:` at all, and for an empty tag.
pub open spec fn split_image_tag_s(image: Seq<char>) -> Option<(Seq<char>, Seq<char>)> {
    if image.contains('@') {
        None
    } else {
        match rfind_s(image, ':') {
            None => None,
            Some(i) => if i + 1 == image.len() {
                None
            } else {
                Some((image.take(i), image.skip(i + 1)))
            },
        }
    }
}

/// Split an image reference into its name and tag.
pub fn split_image_tag(image: &str) -> (r: Option<(String, String)>)
    ensures
        match r {
            Some((n, t)) => split_image_tag_s(image@) == Some((n@, t@)),
            None => split_image_tag_s(image@) is None,
        },
{
    let cs = to_chars(image);
    match find_char(cs.as_slice(), '@') {
        Some(k) => {
            assert(cs@[k as int] == '@');
            return None;
        },
        None => {},
    }
    proof {
        crate::text::lemma_find_none(cs@, '@');
    }
    match rfind_char(cs.as_slice(), ':') {
        None => None,
        Some(i) => {
            if i + 1 == cs.len() {
                return None;
            }
            let name = from_chars(slice_chars(cs.as_slice(), 0, i).as_slice());
            let tag = from_chars(slice_chars(cs.as_slice(), i + 1, cs.len()).as_slice());
            proof {
                assert(cs@.subrange(0, i as int) == cs@.take(i as int));
                assert(cs@.subrange(i + 1, cs@.len() as int) == cs@.skip(i + 1));
            }
            Some((name, tag))
        },
    }
}

/// The tag of the first word of a `FROM` line's arguments, when the image
/// part before the first `:` has `image_name` as its last `/` segment.
pub open spec fn docker_image_version_s(from_args: Seq<char>, image_name: Seq<char>) -> Option<
    Seq<char>,
> {
    match first_word_s(from_args) {
        None => None,
        Some(w) => match find_s(w, ':') {
            None => None,
            Some(i) => {
                let image = w.take(i);
                let base = match rfind_s(image, '/') {
                    Some(j) => image.skip(j + 1),
                    None => image,
                };
                if base == image_name {
                    Some(w.skip(i + 1))
                } else {
                    None
                }
            },
        },
    }
}

/// Extract version from a Docker image reference like "node:22-alpine" or "node:20.11.0"
pub fn extract_docker_image_version(from_args: &str, image_name: &str) -> (r: Option<String>)
    ensures
        match r {
            Some(t) => docker_image_version_s(from_args@, image_name@) == Some(t@),
            None => docker_image_version_s(from_args@, image_name@) is None,
        },
{
    let cs = to_chars(from_args);
    let (a, b) = match first_word_bounds(cs.as_slice()) {
        None => return None,
        Some(ab) => ab,
    };
    let w = slice_chars(cs.as_slice(), a, b);
    let i = match find_char(w.as_slice(), ':') {
        None => return None,
        Some(i) => i,
    };
    let image = slice_chars(w.as_slice(), 0, i);
    assert(image@ == w@.take(i as int));
    let base = match rfind_char(image.as_slice(), '/') {
        Some(j) => {
            let s = slice_chars(image.as_slice(), j + 1, image.len());
            assert(s@ == image@.skip(j + 1));
            s
        },
        None => image,
    };
    if chars_eq_str(base.as_slice(), image_name) {
        let tag = slice_chars(w.as_slice(), i + 1, w.len());
        assert(tag@ == w@.skip(i + 1));
        Some(from_chars(tag.as_slice()))
    } else {
        None
    }
}

/// The file names that mark a Kubernetes manifest.
pub open spec fn k8s_manifest_names() -> Seq<Seq<char>> {
    seq![
        "deployment.yml"@,
        "deployment.yaml"@,
        "statefulset.yml"@,
        "statefulset.yaml"@,
        "service.yml"@,
        "service.yaml"@,
        "job.yml"@,
        "job.yaml"@,
        "cronjob.yml"@,
        "cronjob.yaml"@,
        "pod.yml"@,
        "pod.yaml"@,
    ]
}

/// Whether a lower-case file name ends with one of the manifest names.
pub fn is_k8s_manifest_name(lower: &str) -> (r: bool)
    ensures
        r == exists|i: int| 0 <= i < 12 && ends_with_s(lower@, #[trigger] k8s_manifest_names()[i]),
{
    let names = [
        "deployment.yml",
        "deployment.yaml",
        "statefulset.yml",
        "statefulset.yaml",
        "service.yml",
        "service.yaml",
        "job.yml",
        "job.yaml",
        "cronjob.yml",
        "cronjob.yaml",
        "pod.yml",
        "pod.yaml",
    ];
    let ghost ns = k8s_manifest_names();
    proof {
        reveal_strlit("deployment.yml");
        reveal_strlit("deployment.yaml");
        reveal_strlit("statefulset.yml");
        reveal_strlit("statefulset.yaml");
        reveal_strlit("service.yml");
        reveal_strlit("service.yaml");
        reveal_strlit("job.yml");
        reveal_strlit("job.yaml");
        reveal_strlit("cronjob.yml");
        reveal_strlit("cronjob.yaml");
        reveal_strlit("pod.yml");
        reveal_strlit("pod.yaml");
        assert(forall|i: int| 0 <= i < 12 ==> (#[trigger] names@[i])@ == ns[i]);
    }
    let s = to_chars(lower);
    let mut i: usize = 0;
    while i < 12
        invariant
            i <= 12,
            s@ == lower@,
            ns == k8s_manifest_names(),
            forall|k: int| 0 <= k < 12 ==> (#[trigger] names@[k])@ == ns[k],
            forall|k: int| 0 <= k < i ==> !ends_with_s(lower@, #[trigger] ns[k]),
        decreases 12 - i,
    {
        let p = to_chars(names[i]);
        if ends_with_chars(s.as_slice(), p.as_slice()) {
            assert(ends_with_s(lower@, ns[i as int]));
            return true;
        }
        i = i + 1;
    }
    false
}

/// The 1-based number of the first line of `raw` that contains `needle`,
/// or 1 when none does.
pub open spec fn line_of_s(raw: Seq<char>, needle: Seq<char>) -> nat {
    let ls = lines_s(raw);
    if exists|i: int| 0 <= i < ls.len() && contains_s(#[trigger] ls[i], needle) {
        let i = choose|i: int|
            0 <= i < ls.len() && contains_s(#[trigger] ls[i], needle) && forall|j: int|
                0 <= j < i ==> !contains_s(#[trigger] ls[j], needle);
        (i + 1) as nat
    } else {
        1
    }
}

/// The line of the first occurrence of `needle` in `raw_text` (1-based), or 1.
pub fn find_line_in_text(raw_text: &str, needle: &str) -> (r: usize)
    ensures
        r == line_of_s(raw_text@, needle@),
{
    let ls = lines_of(raw_text);
    let ghost lv = vv(ls@);
    let nd = to_chars(needle);
    let mut i: usize = 0;
    while i < ls.len()
        invariant
            i <= ls.len(),
            lv == vv(ls@),
            lv == lines_s(raw_text@),
            nd@ == needle@,
            forall|j: int| 0 <= j < i ==> !contains_s(#[trigger] lv[j], needle@),
        decreases ls.len() - i,
    {
        if contains_chars(ls[i].as_slice(), nd.as_slice()) {
            proof {
                assert(contains_s(lv[i as int], needle@));
                let w = choose|k: int|
                    0 <= k < lv.len() && contains_s(#[trigger] lv[k], needle@) && forall|j: int|
                        0 <= j < k ==> !contains_s(#[trigger] lv[j], needle@);
                assert(0 <= w < lv.len() && contains_s(lv[w], needle@) && forall|j: int|
                    0 <= j < w ==> !contains_s(#[trigger] lv[j], needle@)) by {
                    assert(forall|j: int| 0 <= j < i ==> !contains_s(#[trigger] lv[j], needle@));
                }
                if w < i {
                    assert(!contains_s(lv[w], needle@));
                }
                if w > i {
                    assert(!contains_s(lv[i as int], needle@));
                }
            }
            return i + 1;
        }
        i = i + 1;
    }
    1
}

/// A split image reference joins back to itself: the name, `:`, the tag;
/// the tag is not empty and holds no `:`.
pub proof fn law_split_image_tag_round_trip(image: Seq<char>)
    ensures
        split_image_tag_s(image) matches Some((name, tag)) ==> name + ":"@ + tag == image && tag.len()
            > 0 && !tag.contains(':'),
{
    crate::text::lemma_rfind(image, ':');
    if let Some((name, tag)) = split_image_tag_s(image) {
        let i = rfind_s(image, ':')->0;
        reveal_strlit(":");
        assert(image.take(i) + ":"@ + image.skip(i + 1) =~= image);
    }
}

} // verus!
