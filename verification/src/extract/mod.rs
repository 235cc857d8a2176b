//! Extractors: which files they read, which concepts they emit, and the
//! value parsing they share.
pub mod catalog;
pub mod ci;
pub mod custom;
pub mod documents;
pub mod dotnet_version;
pub mod helm;
pub mod image;
pub mod kubernetes;
pub mod port;
pub mod python_version;
pub mod registry;
pub mod runtime;
pub mod structured;
pub mod terraform;
pub mod versions;

use vstd::prelude::*;
use vstd::string::*;
use crate::text::{starts_with_s, str_eq, str_starts_with, strs_view};

verus! {

/// A file name matches when it equals one of the patterns or starts with one.
pub open spec fn matches_any_s(patterns: Seq<Seq<char>>, filename: Seq<char>) -> bool {
    exists|i: int|
        0 <= i < patterns.len() && (filename == #[trigger] patterns[i] || starts_with_s(
            filename,
            patterns[i],
        ))
}

/// Whether a file name matches one of the patterns, exactly or as a prefix
/// (how an extractor matches files by default).
pub fn matches_any(patterns: &[&str], filename: &str) -> (r: bool)
    ensures
        r == matches_any_s(strs_view(patterns@), filename@),
{
    let ghost ps = strs_view(patterns@);
    let mut i: usize = 0;
    while i < patterns.len()
        invariant
            i <= patterns.len(),
            ps == strs_view(patterns@),
            forall|k: int|
                0 <= k < i ==> !(filename@ == #[trigger] ps[k] || starts_with_s(filename@, ps[k])),
        decreases patterns.len() - i,
    {
        if str_eq(filename, patterns[i]) || str_starts_with(filename, patterns[i]) {
            assert(filename@ == ps[i as int] || starts_with_s(filename@, ps[i as int]));
            return true;
        }
        i = i + 1;
    }
    false
}

/// The prefixes of extractor ids and the concepts they stand for.
pub open spec fn concept_prefixes() -> Seq<(Seq<char>, Seq<char>)> {
    seq![
        ("node-version-"@, "node-version"@),
        ("python-version-"@, "python-version"@),
        ("go-version-"@, "go-version"@),
        ("java-version-"@, "java-version"@),
        ("ruby-version-"@, "ruby-version"@),
        ("dotnet-version-"@, "dotnet-version"@),
        ("port-"@, "app-port"@),
        ("ts-strict-"@, "ts-strict-mode"@),
    ]
}

/// The concept of the first prefix from position `k` on that the id starts
/// with, or the id itself.
pub open spec fn inferred_from(id: Seq<char>, k: nat) -> Seq<char>
    decreases 8 - k,
{
    if k >= 8 {
        id
    } else if starts_with_s(id, concept_prefixes()[k as int].0) {
        concept_prefixes()[k as int].1
    } else {
        inferred_from(id, k + 1)
    }
}

/// The concept an extractor emits, read from its id: the concept of the
/// first known prefix, or the id itself.
pub open spec fn inferred_concept_s(id: Seq<char>) -> Seq<char> {
    inferred_from(id, 0)
}

/// Semantic concept IDs an extractor can emit, inferred from its id.
pub fn inferred_concept_ids(extractor_id: &str) -> (r: Vec<String>)
    ensures
        r@.len() == 1,
        r@[0]@ == inferred_concept_s(extractor_id@),
{
    let table = [
        ("node-version-", "node-version"),
        ("python-version-", "python-version"),
        ("go-version-", "go-version"),
        ("java-version-", "java-version"),
        ("ruby-version-", "ruby-version"),
        ("dotnet-version-", "dotnet-version"),
        ("port-", "app-port"),
        ("ts-strict-", "ts-strict-mode"),
    ];
    proof {
        assert(forall|k: int|
            0 <= k < 8 ==> (#[trigger] table@[k]).0@ == concept_prefixes()[k].0 && table@[k].1@
                == concept_prefixes()[k].1);
    }
    let mut k: usize = 0;
    while k < 8
        invariant
            k <= 8,
            forall|j: int|
                0 <= j < 8 ==> (#[trigger] table@[j]).0@ == concept_prefixes()[j].0 && table@[j].1@
                    == concept_prefixes()[j].1,
            inferred_from(extractor_id@, k as nat) == inferred_concept_s(extractor_id@),
        decreases 8 - k,
    {
        let (prefix, concept) = table[k];
        if str_starts_with(extractor_id, prefix) {
            let mut v: Vec<String> = Vec::new();
            v.push(String::from_str(concept));
            return v;
        }
        k = k + 1;
    }
    let mut v: Vec<String> = Vec::new();
    v.push(String::from_str(extractor_id));
    v
}

} // verus!
