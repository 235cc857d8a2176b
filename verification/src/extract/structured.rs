//! Values of structured files (JSON, YAML, TOML) as custom sources read
//! them: tables reached by a dotted key path.
use vstd::prelude::*;
use vstd::string::*;
use super::custom::{apply_pattern, apply_pattern_s, custom_assertion_ok, pattern_of, CustomExtractor};
use super::image::{find_line_in_text, line_of_s};
use crate::config::CustomSourceConfig;
use crate::model::semantic_type::opt_view;
use crate::model::{Authority, ConfigAssertion};
use crate::parse::ParsedFile;
use crate::text::{chars_eq, from_chars, split_chars, split_s, to_chars, vv};

verus! {

/// A value of a structured file, as far as custom sources read it.
#[derive(Debug)]
pub enum StructuredValue {
    /// A string, number or boolean as its text, or any other value that is
    /// not a table (a list, a null) as the file's format renders it.
    Text(String),
    /// A table: its entries, keys unique, and the table as the file's
    /// format renders it.
    Table(Vec<(String, StructuredValue)>, String),
}

/// The first entry, from entry `i` on, with the key.
pub open spec fn entry_index_s(es: Seq<(String, StructuredValue)>, key: Seq<char>, i: int) -> Option<int>
    decreases es.len() - i,
{
    if i < 0 || i >= es.len() {
        None
    } else if es[i].0@ == key {
        Some(i)
    } else {
        entry_index_s(es, key, i + 1)
    }
}

/// The value under a key of a table; nothing for other values.
pub open spec fn get_s(v: StructuredValue, key: Seq<char>) -> Option<StructuredValue> {
    match v {
        StructuredValue::Table(es, _) => match entry_index_s(es@, key, 0) {
            Some(k) => Some(es@[k].1),
            None => None,
        },
        StructuredValue::Text(_) => None,
    }
}

/// The value reached from `v` by the keys, one table at a time.
pub open spec fn navigate_s(v: StructuredValue, keys: Seq<Seq<char>>) -> Option<StructuredValue>
    decreases keys.len(),
{
    if keys.len() == 0 {
        Some(v)
    } else {
        match get_s(v, keys[0]) {
            Some(c) => navigate_s(c, keys.drop_first()),
            None => None,
        }
    }
}

/// The text of a value.
pub open spec fn value_text_s(v: StructuredValue) -> Seq<char> {
    match v {
        StructuredValue::Text(t) => t@,
        StructuredValue::Table(_, r) => r@,
    }
}

/// The text of the value at a dotted path (`services.redis.image`).
pub open spec fn navigate_path_s(v: StructuredValue, path: Seq<char>) -> Option<Seq<char>> {
    match navigate_s(v, split_s(path, '.')) {
        Some(c) => Some(value_text_s(c)),
        None => None,
    }
}

fn get<'a>(v: &'a StructuredValue, key: &[char]) -> (r: Option<&'a StructuredValue>)
    ensures
        match r {
            Some(c) => get_s(*v, key@) == Some(*c),
            None => get_s(*v, key@) is None,
        },
{
    match v {
        StructuredValue::Table(es, rendered) => {
            let mut i: usize = 0;
            while i < es.len()
                invariant
                    i <= es.len(),
                    *v == StructuredValue::Table(*es, *rendered),
                    entry_index_s(es@, key@, 0) == entry_index_s(es@, key@, i as int),
                decreases es.len() - i,
            {
                let k = to_chars(es[i].0.as_str());
                if chars_eq(k.as_slice(), key) {
                    return Some(&es[i].1);
                }
                i = i + 1;
            }
            None
        },
        StructuredValue::Text(_) => None,
    }
}

fn value_text(v: &StructuredValue) -> (r: String)
    ensures
        r@ == value_text_s(*v),
{
    match v {
        StructuredValue::Text(t) => t.clone(),
        StructuredValue::Table(_, r) => r.clone(),
    }
}

/// The text of the value at a dotted path, if every key on the way names
/// an entry of a table.
pub fn navigate_structured(value: &StructuredValue, path: &str) -> (r: Option<String>)
    ensures
        opt_view(r) == navigate_path_s(*value, path@),
{
    let pc = to_chars(path);
    let segs = split_chars(pc.as_slice(), '.');
    let ghost keys = vv(segs@);
    let mut cur = value;
    let mut i: usize = 0;
    assert(keys.skip(0) == keys);
    while i < segs.len()
        invariant
            i <= segs.len(),
            keys == vv(segs@),
            keys == split_s(path@, '.'),
            navigate_s(*value, keys) == navigate_s(*cur, keys.skip(i as int)),
        decreases segs.len() - i,
    {
        proof {
            assert(keys.skip(i as int)[0] == keys[i as int]);
            assert(keys.skip(i as int).drop_first() == keys.skip(i + 1));
        }
        match get(cur, segs[i].as_slice()) {
            Some(c) => {
                cur = c;
            },
            None => return None,
        }
        i = i + 1;
    }
    assert(keys.skip(segs.len() as int).len() == 0);
    Some(value_text(cur))
}

/// The last key of a dotted path.
pub open spec fn last_key_s(path: Seq<char>) -> Seq<char> {
    split_s(path, '.').last()
}

impl CustomExtractor {
    /// The value at the source's dotted path in a structured file (JSON,
    /// YAML or TOML), with the source's pattern applied; its line is the
    /// first line of the file's text that holds the path's last key (or
    /// line 1). Nothing without a path, when the path leads nowhere, or
    /// when the pattern does not accept the value.
    pub fn extract_from_structured(
        &self,
        source: &CustomSourceConfig,
        value: &StructuredValue,
        file: &ParsedFile,
        authority: Authority,
    ) -> (r: Vec<ConfigAssertion>)
        ensures
            match source.path {
                None => r@.len() == 0,
                Some(path) => match navigate_path_s(*value, path@) {
                    None => r@.len() == 0,
                    Some(raw) => match apply_pattern_s(raw, pattern_of(*source)) {
                        None => r@.len() == 0,
                        Some(v) => r@.len() == 1 && custom_assertion_ok(
                            r@[0],
                            *self,
                            v,
                            file.path@,
                            line_of_s(file.raw_text@, last_key_s(path@)) as usize,
                            path@,
                            authority,
                        ),
                    },
                },
            },
    {
        let mut out: Vec<ConfigAssertion> = Vec::new();
        let path = match &source.path {
            Some(p) => p,
            None => return out,
        };
        let raw = match navigate_structured(value, path.as_str()) {
            Some(t) => t,
            None => return out,
        };
        let pattern: Option<&str> = match &source.pattern {
            Some(p) => Some(p.as_str()),
            None => None,
        };
        let picked = match apply_pattern(raw.as_str(), pattern) {
            Some(v) => v,
            None => return out,
        };
        let pc = to_chars(path.as_str());
        let segs = split_chars(pc.as_slice(), '.');
        proof {
            crate::text::lemma_split_len(pc@, '.');
        }
        let last = from_chars(segs[segs.len() - 1].as_slice());
        let line = find_line_in_text(file.raw_text.as_str(), last.as_str());
        let a = self.assertion(picked, file.path.as_str(), line, path.clone(), authority);
        out.push(a);
        out
    }
}

} // verus!
