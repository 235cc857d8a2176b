//! Fix proposals: format-aware edits that bring lower-authority values in
//! line with the authority winner.
pub mod patcher;
pub mod planner;
pub mod render;
pub mod docker_from;
pub mod operation;
pub mod plan;

pub use plan::{fix_winner, plan_fixes};

use vstd::prelude::*;
use vstd::string::*;
use crate::model::{ConceptResult, ConfigAssertion, SemanticConcept};
use crate::pathing::{path_eq, path_same};

verus! {

/// The format of a configuration file, which decides how it is edited.
#[derive(Debug, Clone, Copy, PartialEq, Eq, Structural)]
pub enum FileFormat {
    PlainText,
    Env,
    Json,
    Yaml,
    Toml,
    Dockerfile,
}

/// A safe, format-aware edit operation derived from a specific extractor target.
#[derive(Debug, Clone)]
pub enum FixOperation {
    ReplaceWholeFileValue { value: String },
    ReplaceEnvValue { key: String, value: String },
    ReplaceJsonString { path: Vec<String>, value: String },
    ReplaceGoModVersion { value: String },
    ReplaceToolVersionsValue { value: String },
    ReplaceGemfileRubyVersion { value: String },
    ReplaceTextRange { start: usize, end: usize, value: String },
    ReplaceDockerFromArguments { arguments: String },
    ReplaceDockerExposeToken { current: String, value: String },
}

/// A proposed fix for a single file.
#[derive(Debug, Clone)]
pub struct FixProposal {
    /// The file to edit, as path text.
    pub file: String,
    pub concept: SemanticConcept,
    pub current_raw: String,
    pub proposed_raw: String,
    pub key_path: String,
    pub line: usize,
    pub authority_winner: String,
    /// The file of the winning assertion, as path text.
    pub winner_file: String,
    pub format: FileFormat,
    pub operation: FixOperation,
}

/// Result of analyzing contradictions for fixability.
#[derive(Debug)]
pub struct FixPlan {
    pub proposals: Vec<FixProposal>,
    pub unfixable: Vec<UnfixableItem>,
}

/// A contradiction that cannot be auto-fixed.
#[derive(Debug)]
pub struct UnfixableItem {
    pub concept: SemanticConcept,
    pub reason: String,
}


/// The assertion is a port token of a Dockerfile `EXPOSE` line.
pub open spec fn is_expose_token(a: ConfigAssertion) -> bool {
    a.extractor_id@ == "port-dockerfile"@
}

/// How many `EXPOSE` port tokens the assertions have on line `line` of the
/// file `file`.
pub open spec fn expose_count(xs: Seq<ConfigAssertion>, file: Seq<char>, line: usize) -> nat
    decreases xs.len(),
{
    if xs.len() == 0 {
        0
    } else {
        let a = xs.last();
        expose_count(xs.drop_last(), file, line) + if is_expose_token(a) && path_eq(a.source.file@, file)
            && a.source.line == line {
            1nat
        } else {
            0nat
        }
    }
}

/// The same file line.
pub open spec fn same_line_key(a: (Seq<char>, usize), b: (Seq<char>, usize)) -> bool {
    path_eq(a.0, b.0) && a.1 == b.1
}

fn is_expose(a: &ConfigAssertion) -> (r: bool)
    ensures
        r == is_expose_token(*a),
{
    proof {
        reveal_strlit("port-dockerfile");
    }
    crate::text::str_eq(a.extractor_id.as_str(), "port-dockerfile")
}

fn count_expose(xs: &Vec<ConfigAssertion>, file: &str, line: usize) -> (r: usize)
    ensures
        r == expose_count(xs@, file@, line),
{
    let mut n: usize = 0;
    let mut j: usize = 0;
    while j < xs.len()
        invariant
            j <= xs.len(),
            n == expose_count(xs@.take(j as int), file@, line),
            n <= j,
        decreases xs.len() - j,
    {
        proof {
            assert(xs@.take(j + 1).drop_last() == xs@.take(j as int));
            assert(xs@.take(j + 1).last() == xs@[j as int]);
        }
        let a = &xs[j];
        if is_expose(a) && path_same(a.source.file.as_str(), file) && a.source.line == line {
            n = n + 1;
        }
        j = j + 1;
    }
    assert(xs@.take(xs.len() as int) == xs@);
    n
}

fn has_line_key(keys: &Vec<(String, usize)>, file: &str, line: usize) -> (r: bool)
    ensures
        r == exists|k: int| 0 <= k < keys@.len() && #[trigger] same_line_key((keys@[k].0@, keys@[k].1), (file@, line)),
{
    let mut k: usize = 0;
    while k < keys.len()
        invariant
            k <= keys.len(),
            forall|q: int| 0 <= q < k ==> !#[trigger] same_line_key((keys@[q].0@, keys@[q].1), (file@, line)),
        decreases keys.len() - k,
    {
        if path_same(keys[k].0.as_str(), file) && keys[k].1 == line {
            assert(same_line_key((keys@[k as int].0@, keys@[k as int].1), (file@, line)));
            return true;
        }
        k = k + 1;
    }
    false
}

/// The file lines that hold more than one `EXPOSE` port token of the
/// concept's assertions, each once.
pub fn ambiguous_docker_expose_lines(concept_result: &ConceptResult) -> (r: Vec<(String, usize)>)
    ensures
        forall|i: int, j: int|
            0 <= i < j < r@.len() ==> !same_line_key((#[trigger] r@[i].0@, r@[i].1), (#[trigger] r@[j].0@, r@[j].1)),
        forall|k: int| 0 <= k < r@.len() ==> expose_count(concept_result.assertions@, (#[trigger] r@[k]).0@, r@[k].1) > 1,
        forall|i: int|
            0 <= i < concept_result.assertions@.len() && is_expose_token(#[trigger] concept_result.assertions@[i])
                && expose_count(
                concept_result.assertions@,
                concept_result.assertions@[i].source.file@,
                concept_result.assertions@[i].source.line,
            ) > 1 ==> exists|k: int|
                0 <= k < r@.len() && #[trigger] same_line_key(
                    (r@[k].0@, r@[k].1),
                    (concept_result.assertions@[i].source.file@, concept_result.assertions@[i].source.line),
                ),
{
    let xs = &concept_result.assertions;
    let mut out: Vec<(String, usize)> = Vec::new();
    let mut i: usize = 0;
    while i < xs.len()
        invariant
            i <= xs.len(),
            xs == &concept_result.assertions,
            forall|p: int, q: int|
                0 <= p < q < out@.len() ==> !same_line_key((#[trigger] out@[p].0@, out@[p].1), (#[trigger] out@[q].0@, out@[q].1)),
            forall|k: int| 0 <= k < out@.len() ==> expose_count(xs@, (#[trigger] out@[k]).0@, out@[k].1) > 1,
            forall|p: int|
                0 <= p < i && is_expose_token(#[trigger] xs@[p]) && expose_count(xs@, xs@[p].source.file@, xs@[p].source.line)
                    > 1 ==> exists|k: int|
                    0 <= k < out@.len() && #[trigger] same_line_key(
                        (out@[k].0@, out@[k].1),
                        (xs@[p].source.file@, xs@[p].source.line),
                    ),
        decreases xs.len() - i,
    {
        let a = &xs[i];
        if is_expose(a) {
            let n = count_expose(xs, a.source.file.as_str(), a.source.line);
            if n > 1 && !has_line_key(&out, a.source.file.as_str(), a.source.line) {
                let ghost prev = out@;
                out.push((a.source.file.clone(), a.source.line));
                proof {
                    let key = (a.source.file@, a.source.line);
                    assert(out@[prev.len() as int].0@ == key.0);
                    assert forall|p: int, q: int| 0 <= p < q < out@.len() implies !same_line_key(
                        (#[trigger] out@[p].0@, out@[p].1),
                        (#[trigger] out@[q].0@, out@[q].1),
                    ) by {
                        if q == prev.len() {
                            assert(out@[p] == prev[p]);
                            assert(!same_line_key((prev[p].0@, prev[p].1), key));
                        } else {
                            assert(out@[p] == prev[p] && out@[q] == prev[q]);
                        }
                    }
                    assert forall|k: int| 0 <= k < out@.len() implies expose_count(xs@, (#[trigger] out@[k]).0@, out@[k].1) > 1 by {
                        if k < prev.len() {
                            assert(out@[k] == prev[k]);
                        }
                    }
                    assert forall|p: int|
                        0 <= p < i + 1 && is_expose_token(#[trigger] xs@[p]) && expose_count(
                            xs@,
                            xs@[p].source.file@,
                            xs@[p].source.line,
                        ) > 1 implies exists|k: int|
                        0 <= k < out@.len() && #[trigger] same_line_key(
                            (out@[k].0@, out@[k].1),
                            (xs@[p].source.file@, xs@[p].source.line),
                        ) by {
                        if p == i {
                            assert(same_line_key((out@[prev.len() as int].0@, out@[prev.len() as int].1), key));
                        } else {
                            let k = choose|k: int|
                                0 <= k < prev.len() && #[trigger] same_line_key(
                                    (prev[k].0@, prev[k].1),
                                    (xs@[p].source.file@, xs@[p].source.line),
                                );
                            assert(out@[k] == prev[k]);
                        }
                    }
                }
            }
        }
        i = i + 1;
    }
    out
}

} // verus!
