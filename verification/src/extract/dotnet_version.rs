//! .NET target framework monikers, as versions.
use vstd::prelude::*;
use vstd::string::*;
use crate::model::semantic_type::parse_version_s;
use crate::model::{parse_version, VersionSpec};
use crate::text::{from_chars, lemma_split_len, slice_chars, split_chars, split_s, starts_with_chars, starts_with_s, to_chars, vv};

verus! {

/// The version of a moniker: after a leading `net`, up to the first `-`
/// (`net8.0` is `8.0`, `net6.0-windows` is `6.0`).
pub open spec fn framework_version_text_s(framework: Seq<char>) -> Seq<char> {
    let rest = if starts_with_s(framework, "net"@) {
        framework.skip(3)
    } else {
        framework
    };
    split_s(rest, '-')[0]
}

/// Parse .NET framework moniker like "net8.0" into a version.
pub fn parse_dotnet_framework(framework: &str) -> (r: VersionSpec)
    ensures
        r@ == parse_version_s(framework_version_text_s(framework@)),
{
    let cs = to_chars(framework);
    let net = to_chars("net");
    proof {
        reveal_strlit("net");
    }
    let rest = if starts_with_chars(cs.as_slice(), net.as_slice()) {
        let r = slice_chars(cs.as_slice(), 3, cs.len());
        assert(r@ =~= cs@.skip(3));
        r
    } else {
        let r = slice_chars(cs.as_slice(), 0, cs.len());
        assert(r@ =~= cs@);
        r
    };
    let parts = split_chars(rest.as_slice(), '-');
    proof {
        lemma_split_len(rest@, '-');
        assert(vv(parts@)[0] == parts@[0]@);
    }
    let version = from_chars(parts[0].as_slice());
    parse_version(version.as_str())
}

} // verus!
