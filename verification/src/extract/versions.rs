//! Runtime versions read from plain version files, `.tool-versions` lines,
//! `go.mod` and Dockerfile `FROM` lines.
use vstd::prelude::*;
use vstd::string::*;
use crate::pattern::{captured_group, captured_group_s};
use super::catalog::{
    DockerfileDotnetExtractor, GemfileExtractor, SdkmanrcExtractor, DockerfileNodeExtractor, DockerfileRubyExtractor, GoModExtractor, NvmrcExtractor, PythonVersionFileExtractor,
    RubyVersionFileExtractor, ToolVersionsJavaExtractor, ToolVersionsNodeExtractor, ToolVersionsRubyExtractor,
};
use super::image::{docker_image_version_s, extract_docker_image_version};
use super::runtime::{line_value_for_tool, second_word_s, tool_line_value_s, PlainTextNormalizer, RuntimeVersionKind};
use crate::model::semantic_type::parse_version_s;
use crate::model::{
    parse_version, Authority, ConceptCategory, ConfigAssertion, SemanticConcept, SemanticType, SourceLocation,
};
use crate::parse::{DockerInstruction, FileContent, ParsedFile};
use crate::text::{
    first_word_bounds, first_word_s, from_chars, lines_of, lines_s, slice_chars, starts_with_chars, starts_with_s,
    str_eq, strs_view, to_chars, trim_chars, trim_s, trim_start_s, vv,
};

verus! {

/// An assertion made of these parts, with no span and not from a matrix.
pub open spec fn located(
    a: ConfigAssertion,
    concept_id: Seq<char>,
    raw: Seq<char>,
    file: Seq<char>,
    line: usize,
    key_path: Seq<char>,
    authority: Authority,
    extractor: Seq<char>,
) -> bool {
    &&& a.concept.id@ == concept_id
    &&& a.raw_value@ == raw
    &&& a.source.file@ == file
    &&& a.source.line == line
    &&& a.source.column == 0
    &&& a.source.key_path@ == key_path
    &&& a.span is None
    &&& a.authority == authority
    &&& a.extractor_id@ == extractor
    &&& !a.is_matrix
}

/// The assertion's value is the version that `text` reads as.
pub open spec fn has_version(a: ConfigAssertion, text: Seq<char>) -> bool {
    a.value matches SemanticType::Version(v) && v@ == parse_version_s(text)
}

/// A version assertion of a runtime.
pub fn version_assertion(
    runtime: RuntimeVersionKind,
    version_text: &str,
    raw: String,
    file: &str,
    line: usize,
    key_path: String,
    authority: Authority,
    extractor_id: &str,
) -> (r: ConfigAssertion)
    ensures
        located(r, runtime.concept_id(), raw@, file@, line, key_path@, authority, extractor_id@),
        has_version(r, version_text@),
        r.concept.category == ConceptCategory::RuntimeVersion,
{
    ConfigAssertion::new(
        runtime.concept(),
        SemanticType::Version(parse_version(version_text)),
        raw,
        SourceLocation { file: String::from_str(file), line, column: 0, key_path },
        authority,
        extractor_id,
    )
}

// ---------------------------------------------------------------------
// Dockerfile FROM lines
// ---------------------------------------------------------------------

/// How the key path of a Dockerfile version is written.
#[derive(Debug, Clone, Copy, PartialEq, Eq, Structural)]
pub enum DockerKeyPathStrategy {
    /// Always `FROM`.
    From,
    /// `FROM (stage: name)` for a named stage, else `FROM`.
    StageAwareFrom,
}

/// The key path of a `FROM` instruction.
pub open spec fn docker_key_path_s(s: DockerKeyPathStrategy, x: DockerInstruction) -> Seq<char> {
    match (s, x.stage_name) {
        (DockerKeyPathStrategy::StageAwareFrom, Some(name)) => "FROM (stage: "@ + name@ + ")"@,
        _ => "FROM"@,
    }
}

impl DockerKeyPathStrategy {
    /// The key path of a `FROM` instruction.
    pub fn key_path(self, instruction: &DockerInstruction) -> (r: String)
        ensures
            r@ == docker_key_path_s(self, *instruction),
    {
        match (self, &instruction.stage_name) {
            (DockerKeyPathStrategy::StageAwareFrom, Some(name)) => {
                let mut out = String::from_str("FROM (stage: ");
                crate::text::push_str(&mut out, name.as_str());
                crate::text::push_str(&mut out, ")");
                out
            },
            _ => String::from_str("FROM"),
        }
    }
}

/// The authority of a Dockerfile version: enforced in the final stage,
/// advisory in a build stage.
pub open spec fn docker_authority_s(x: DockerInstruction) -> Authority {
    if x.is_final_stage {
        Authority::Enforced
    } else {
        Authority::Advisory
    }
}

/// The authority of a Dockerfile instruction's version.
pub fn docker_authority(instruction: &DockerInstruction) -> (r: Authority)
    ensures
        r == docker_authority_s(*instruction),
{
    if instruction.is_final_stage {
        Authority::Enforced
    } else {
        Authority::Advisory
    }
}

/// The `FROM` instructions that use the image, each with the image's tag,
/// in order.
pub open spec fn docker_hits(xs: Seq<DockerInstruction>, image: Seq<char>) -> Seq<(DockerInstruction, Seq<char>)>
    decreases xs.len(),
{
    if xs.len() == 0 {
        Seq::empty()
    } else {
        let rest = docker_hits(xs.drop_last(), image);
        let x = xs.last();
        if x.instruction@ == "FROM"@ {
            match docker_image_version_s(x.arguments@, image) {
                Some(v) => rest.push((x, v)),
                None => rest,
            }
        } else {
            rest
        }
    }
}

/// One version assertion per `FROM` line that uses the image: the tag's
/// version, the whole arguments as raw text, at the instruction's line.
pub open spec fn docker_versions_ok(
    r: Seq<ConfigAssertion>,
    xs: Seq<DockerInstruction>,
    image: Seq<char>,
    runtime: RuntimeVersionKind,
    key_paths: DockerKeyPathStrategy,
    file: Seq<char>,
    extractor: Seq<char>,
) -> bool {
    let hits = docker_hits(xs, image);
    &&& r.len() == hits.len()
    &&& forall|k: int|
        0 <= k < r.len() ==> {
            &&& located(
                #[trigger] r[k],
                runtime.concept_id(),
                hits[k].0.arguments@,
                file,
                hits[k].0.line,
                docker_key_path_s(key_paths, hits[k].0),
                docker_authority_s(hits[k].0),
                extractor,
            )
            &&& has_version(r[k], hits[k].1)
        }
}

/// The version assertions of the `FROM` lines that use the image.
pub fn docker_version_assertions(
    xs: &Vec<DockerInstruction>,
    file: &str,
    image: &str,
    runtime: RuntimeVersionKind,
    key_paths: DockerKeyPathStrategy,
    extractor_id: &str,
) -> (r: Vec<ConfigAssertion>)
    ensures
        docker_versions_ok(r@, xs@, image@, runtime, key_paths, file@, extractor_id@),
{
    let mut out: Vec<ConfigAssertion> = Vec::new();
    let mut i: usize = 0;
    while i < xs.len()
        invariant
            i <= xs.len(),
            docker_versions_ok(out@, xs@.take(i as int), image@, runtime, key_paths, file@, extractor_id@),
        decreases xs.len() - i,
    {
        proof {
            assert(xs@.take(i + 1).drop_last() == xs@.take(i as int));
            assert(xs@.take(i + 1).last() == xs@[i as int]);
        }
        let x = &xs[i];
        if str_eq(x.instruction.as_str(), "FROM") {
            match extract_docker_image_version(x.arguments.as_str(), image) {
                Some(version) => {
                    let a = version_assertion(
                        runtime,
                        version.as_str(),
                        x.arguments.clone(),
                        file,
                        x.line,
                        key_paths.key_path(x),
                        docker_authority(x),
                        extractor_id,
                    );
                    let ghost prev = out@;
                    out.push(a);
                    proof {
                        let hits = docker_hits(xs@.take(i + 1), image@);
                        assert forall|k: int| 0 <= k < out@.len() implies {
                            &&& located(
                                #[trigger] out@[k],
                                runtime.concept_id(),
                                hits[k].0.arguments@,
                                file@,
                                hits[k].0.line,
                                docker_key_path_s(key_paths, hits[k].0),
                                docker_authority_s(hits[k].0),
                                extractor_id@,
                            )
                            &&& has_version(out@[k], hits[k].1)
                        } by {
                            if k < prev.len() {
                                assert(out@[k] == prev[k]);
                            }
                        }
                    }
                },
                None => {},
            }
        }
        i = i + 1;
    }
    assert(xs@.take(xs.len() as int) == xs@);
    out
}


// ---------------------------------------------------------------------
// Plain version files
// ---------------------------------------------------------------------

/// Reads a whole plain file as a version.
pub struct PlainTextVersionStrategy<'a> {
    pub runtime: RuntimeVersionKind,
    pub authority: Authority,
    pub extractor_id: &'a str,
    pub normalizer: PlainTextNormalizer,
}

/// The one assertion of a non-empty plain version file: its text, at line
/// 1, the version read from the normalized text; none for other files.
pub open spec fn plain_version_ok(
    r: Seq<ConfigAssertion>,
    file: ParsedFile,
    runtime: RuntimeVersionKind,
    authority: Authority,
    extractor: Seq<char>,
    normalizer: PlainTextNormalizer,
) -> bool {
    match file.content {
        FileContent::PlainText(text) => if text@.len() == 0 {
            r.len() == 0
        } else {
            &&& r.len() == 1
            &&& located(r[0], runtime.concept_id(), text@, file.path@, 1, Seq::empty(), authority, extractor)
            &&& has_version(r[0], normalizer.normalized(text@))
        },
        _ => r.len() == 0,
    }
}

impl<'a> PlainTextVersionStrategy<'a> {
    /// The version assertion of a plain version file.
    pub fn extract(&self, file: &ParsedFile) -> (r: Vec<ConfigAssertion>)
        ensures
            plain_version_ok(r@, *file, self.runtime, self.authority, self.extractor_id@, self.normalizer),
    {
        let mut out: Vec<ConfigAssertion> = Vec::new();
        match &file.content {
            FileContent::PlainText(text) => {
                if to_chars(text.as_str()).len() == 0 {
                    return out;
                }
                let normalized = self.normalizer.normalize(text.as_str());
                let a = version_assertion(
                    self.runtime,
                    normalized.as_str(),
                    text.clone(),
                    file.path.as_str(),
                    1,
                    String::new(),
                    self.authority,
                    self.extractor_id,
                );
                out.push(a);
                out
            },
            _ => out,
        }
    }
}

// ---------------------------------------------------------------------
// Versions on the lines of a file
// ---------------------------------------------------------------------

/// How a version is read from a line.
pub enum LineReader {
    /// The second word of a trimmed line that starts with one of the prefixes.
    Prefixed(Seq<Seq<char>>),
    /// The second word of a line whose first word is one of the tools.
    Tool(Seq<Seq<char>>),
    /// The version of a `go` directive.
    Go,
    /// The version of a Gemfile `ruby "x.y.z"` line.
    GemfileRuby,
    /// The trimmed version of a `.sdkmanrc` `java=` line.
    SdkmanJava,
}

/// The version a reader takes from a line, if any.
pub open spec fn read_line(reader: LineReader, line: Seq<char>) -> Option<Seq<char>> {
    match reader {
        LineReader::Prefixed(ps) => prefixed_line_value(line, ps),
        LineReader::Tool(names) => tool_line_value_s(line, names),
        LineReader::Go => go_line_value(line),
        LineReader::GemfileRuby => gemfile_ruby_capture(line),
        LineReader::SdkmanJava => match sdkmanrc_java_capture(line) {
            Some(v) => Some(trim_s(v)),
            None => None,
        },
    }
}

/// The first line, from line `i` on, that the reader reads a version from:
/// its index and the version.
pub open spec fn first_line_value(ls: Seq<Seq<char>>, reader: LineReader, i: int) -> Option<(int, Seq<char>)>
    decreases ls.len() - i,
{
    if i < 0 || i >= ls.len() {
        None
    } else {
        match read_line(reader, ls[i]) {
            Some(v) => Some((i, v)),
            None => first_line_value(ls, reader, i + 1),
        }
    }
}

/// One assertion for the first line that the reader reads a version from:
/// the version as raw text, at that (one-based) line; none without such a
/// line.
pub open spec fn line_version_ok(
    r: Seq<ConfigAssertion>,
    raw_text: Seq<char>,
    reader: LineReader,
    runtime: RuntimeVersionKind,
    file: Seq<char>,
    key_path: Seq<char>,
    authority: Authority,
    extractor: Seq<char>,
) -> bool {
    match first_line_value(lines_s(raw_text), reader, 0) {
        Some((k, v)) => {
            &&& r.len() == 1
            &&& located(r[0], runtime.concept_id(), v, file, (k + 1) as usize, key_path, authority, extractor)
            &&& has_version(r[0], v)
        },
        None => r.len() == 0,
    }
}

/// The value of a line that, trimmed, starts with one of the prefixes: its
/// second whitespace-separated word.
pub open spec fn prefixed_line_value(line: Seq<char>, prefixes: Seq<Seq<char>>) -> Option<Seq<char>> {
    let t = trim_s(line);
    if exists|j: int| 0 <= j < prefixes.len() && starts_with_s(t, #[trigger] prefixes[j]) {
        second_word_s(t)
    } else {
        None
    }
}

/// The version of a `go` directive line: the trimmed text after `go `.
pub open spec fn go_line_value(line: Seq<char>) -> Option<Seq<char>> {
    let t = trim_s(line);
    if starts_with_s(t, "go "@) {
        Some(trim_s(t.skip(3)))
    } else {
        None
    }
}

fn second_word(s: &[char]) -> (r: Option<Vec<char>>)
    ensures
        match r {
            Some(w) => second_word_s(s@) == Some(w@),
            None => second_word_s(s@) is None,
        },
{
    let (a, b) = match first_word_bounds(s) {
        None => return None,
        Some(ab) => ab,
    };
    let rest = slice_chars(s, b, s.len());
    proof {
        assert(rest@ == trim_start_s(s@).skip(s@.subrange(a as int, b as int).len() as int));
    }
    match first_word_bounds(rest.as_slice()) {
        None => None,
        Some((c, d)) => Some(slice_chars(rest.as_slice(), c, d)),
    }
}

fn prefixed_value(line: &[char], prefixes: &[&str]) -> (r: Option<Vec<char>>)
    ensures
        match r {
            Some(w) => prefixed_line_value(line@, strs_view(prefixes@)) == Some(w@),
            None => prefixed_line_value(line@, strs_view(prefixes@)) is None,
        },
{
    let ghost ps = strs_view(prefixes@);
    let t = trim_chars(line);
    let mut j: usize = 0;
    while j < prefixes.len()
        invariant
            j <= prefixes.len(),
            ps == strs_view(prefixes@),
            t@ == trim_s(line@),
            forall|q: int| 0 <= q < j ==> !starts_with_s(t@, #[trigger] ps[q]),
        decreases prefixes.len() - j,
    {
        let p = to_chars(prefixes[j]);
        if starts_with_chars(t.as_slice(), p.as_slice()) {
            assert(ps[j as int] == p@);
            return second_word(t.as_slice());
        }
        j = j + 1;
    }
    None
}

/// The versions on the lines of a plain file whose trimmed text starts
/// with one of the prefixes, as their second word.
fn prefixed_line_assertions(
    file: &ParsedFile,
    prefixes: &[&str],
    runtime: RuntimeVersionKind,
    key_path: &str,
    extractor_id: &str,
) -> (r: Vec<ConfigAssertion>)
    ensures
        line_version_ok(
            r@,
            file.raw_text@,
            LineReader::Prefixed(strs_view(prefixes@)),
            runtime,
            file.path@,
            key_path@,
            Authority::Advisory,
            extractor_id@,
        ),
{
    let ghost f = LineReader::Prefixed(strs_view(prefixes@));
    let ls = lines_of(file.raw_text.as_str());
    let ghost lv = vv(ls@);
    let mut out: Vec<ConfigAssertion> = Vec::new();
    let mut i: usize = 0;
    while i < ls.len()
        invariant
            i <= ls.len(),
            lv == vv(ls@),
            lv == lines_s(file.raw_text@),
            first_line_value(lv, f, 0) == first_line_value(lv, f, i as int),
            f == LineReader::Prefixed(strs_view(prefixes@)),
            out@.len() == 0,
        decreases ls.len() - i,
    {
        assert(lv[i as int] == ls@[i as int]@);
        match prefixed_value(ls[i].as_slice(), prefixes) {
            Some(w) => {
                let v = from_chars(w.as_slice());
                let a = version_assertion(
                    runtime,
                    v.as_str(),
                    v.clone(),
                    file.path.as_str(),
                    i + 1,
                    String::from_str(key_path),
                    Authority::Advisory,
                    extractor_id,
                );
                out.push(a);
                return out;
            },
            None => {},
        }
        i = i + 1;
    }
    out
}

/// Reads a version from the `.tool-versions` line of one of the tools.
pub struct ToolVersionsVersionStrategy<'a> {
    pub runtime: RuntimeVersionKind,
    pub extractor_id: &'a str,
    pub tool_names: &'static [&'static str],
    pub authority: Authority,
    pub key_path: &'a str,
}

impl<'a> ToolVersionsVersionStrategy<'a> {
    /// The version of the first line of a plain file that names one of the
    /// tools; nothing for other files.
    pub fn extract(&self, file: &ParsedFile) -> (r: Vec<ConfigAssertion>)
        ensures
            (file.content is PlainText) ==> line_version_ok(
                r@,
                file.raw_text@,
                LineReader::Tool(strs_view(self.tool_names@)),
                self.runtime,
                file.path@,
                self.key_path@,
                self.authority,
                self.extractor_id@,
            ),
            !(file.content is PlainText) ==> r@.len() == 0,
    {
        let mut out: Vec<ConfigAssertion> = Vec::new();
        match &file.content {
            FileContent::PlainText(_) => {},
            _ => return out,
        }
        let ghost f = LineReader::Tool(strs_view(self.tool_names@));
        let ls = lines_of(file.raw_text.as_str());
        let ghost lv = vv(ls@);
        let mut i: usize = 0;
        while i < ls.len()
            invariant
                i <= ls.len(),
                lv == vv(ls@),
                lv == lines_s(file.raw_text@),
                first_line_value(lv, f, 0) == first_line_value(lv, f, i as int),
                f == LineReader::Tool(strs_view(self.tool_names@)),
                file.content is PlainText,
                out@.len() == 0,
            decreases ls.len() - i,
        {
            assert(lv[i as int] == ls@[i as int]@);
            let line = from_chars(ls[i].as_slice());
            match line_value_for_tool(line.as_str(), self.tool_names) {
                Some(v) => {
                    let a = version_assertion(
                        self.runtime,
                        v.as_str(),
                        v.clone(),
                        file.path.as_str(),
                        i + 1,
                        String::from_str(self.key_path),
                        self.authority,
                        self.extractor_id,
                    );
                    out.push(a);
                    return out;
                },
                None => {},
            }
            i = i + 1;
        }
        out
    }
}


fn go_value(line: &[char]) -> (r: Option<Vec<char>>)
    ensures
        match r {
            Some(w) => go_line_value(line@) == Some(w@),
            None => go_line_value(line@) is None,
        },
{
    let t = trim_chars(line);
    let go = to_chars("go ");
    proof {
        reveal_strlit("go ");
    }
    if starts_with_chars(t.as_slice(), go.as_slice()) {
        let rest = slice_chars(t.as_slice(), 3, t.len());
        assert(rest@ == t@.skip(3));
        Some(trim_chars(rest.as_slice()))
    } else {
        None
    }
}

// ---------------------------------------------------------------------
// The extractors
// ---------------------------------------------------------------------

impl NvmrcExtractor {
    /// The Node.js version of a `.nvmrc` file, a leading `v` dropped.
    pub fn extract(&self, file: &ParsedFile) -> (r: Vec<ConfigAssertion>)
        ensures
            plain_version_ok(
                r@,
                *file,
                RuntimeVersionKind::Node,
                Authority::Advisory,
                "node-version-nvmrc"@,
                PlainTextNormalizer::StripPrefixChar('v'),
            ),
    {
        PlainTextVersionStrategy {
            runtime: RuntimeVersionKind::Node,
            authority: Authority::Advisory,
            extractor_id: self.id(),
            normalizer: PlainTextNormalizer::StripPrefixChar('v'),
        }.extract(file)
    }
}

impl RubyVersionFileExtractor {
    /// The Ruby version of a `.ruby-version` file, a leading `ruby-` dropped.
    pub fn extract(&self, file: &ParsedFile) -> (r: Vec<ConfigAssertion>)
        ensures
            plain_version_ok(
                r@,
                *file,
                RuntimeVersionKind::Ruby,
                Authority::Advisory,
                "ruby-version-file"@,
                PlainTextNormalizer::StripPrefix("ruby-"),
            ),
    {
        PlainTextVersionStrategy {
            runtime: RuntimeVersionKind::Ruby,
            authority: Authority::Advisory,
            extractor_id: self.id(),
            normalizer: PlainTextNormalizer::StripPrefix("ruby-"),
        }.extract(file)
    }
}

impl PythonVersionFileExtractor {
    /// The Python version of a `.python-version` file.
    pub fn extract(&self, file: &ParsedFile) -> (r: Vec<ConfigAssertion>)
        ensures
            plain_version_ok(
                r@,
                *file,
                RuntimeVersionKind::Python,
                Authority::Advisory,
                "python-version-file"@,
                PlainTextNormalizer::Identity,
            ),
    {
        PlainTextVersionStrategy {
            runtime: RuntimeVersionKind::Python,
            authority: Authority::Advisory,
            extractor_id: self.id(),
            normalizer: PlainTextNormalizer::Identity,
        }.extract(file)
    }
}

impl DockerfileNodeExtractor {
    /// The Node.js versions of a Dockerfile's `FROM node:*` lines, keyed by
    /// stage.
    pub fn extract(&self, file: &ParsedFile) -> (r: Vec<ConfigAssertion>)
        ensures
            match file.content {
                FileContent::Dockerfile(xs) => docker_versions_ok(
                    r@,
                    xs@,
                    "node"@,
                    RuntimeVersionKind::Node,
                    DockerKeyPathStrategy::StageAwareFrom,
                    file.path@,
                    "node-version-dockerfile"@,
                ),
                _ => r@.len() == 0,
            },
    {
        match &file.content {
            FileContent::Dockerfile(xs) => docker_version_assertions(
                xs,
                file.path.as_str(),
                "node",
                RuntimeVersionKind::Node,
                DockerKeyPathStrategy::StageAwareFrom,
                self.id(),
            ),
            _ => Vec::new(),
        }
    }
}

impl DockerfileRubyExtractor {
    /// The Ruby versions of a Dockerfile's `FROM ruby:*` lines.
    pub fn extract(&self, file: &ParsedFile) -> (r: Vec<ConfigAssertion>)
        ensures
            match file.content {
                FileContent::Dockerfile(xs) => docker_versions_ok(
                    r@,
                    xs@,
                    "ruby"@,
                    RuntimeVersionKind::Ruby,
                    DockerKeyPathStrategy::From,
                    file.path@,
                    "ruby-version-dockerfile"@,
                ),
                _ => r@.len() == 0,
            },
    {
        match &file.content {
            FileContent::Dockerfile(xs) => docker_version_assertions(
                xs,
                file.path.as_str(),
                "ruby",
                RuntimeVersionKind::Ruby,
                DockerKeyPathStrategy::From,
                self.id(),
            ),
            _ => Vec::new(),
        }
    }
}

/// The prefixes of `.tool-versions` lines for Node.js.
pub open spec fn node_tool_prefixes() -> Seq<Seq<char>> {
    seq!["nodejs "@, "node "@]
}

impl ToolVersionsNodeExtractor {
    /// The Node.js version of the first `nodejs` or `node` line of a
    /// `.tool-versions` file.
    pub fn extract(&self, file: &ParsedFile) -> (r: Vec<ConfigAssertion>)
        ensures
            (file.content is PlainText) ==> line_version_ok(
                r@,
                file.raw_text@,
                LineReader::Prefixed(node_tool_prefixes()),
                RuntimeVersionKind::Node,
                file.path@,
                "nodejs"@,
                Authority::Advisory,
                "node-version-tool-versions"@,
            ),
            !(file.content is PlainText) ==> r@.len() == 0,
    {
        match &file.content {
            FileContent::PlainText(_) => {
                let prefixes = ["nodejs ", "node "];
                assert(strs_view(prefixes@) =~= node_tool_prefixes());
                prefixed_line_assertions(
                    file,
                    prefixes.as_slice(),
                    RuntimeVersionKind::Node,
                    "nodejs",
                    self.id(),
                )
            },
            _ => Vec::new(),
        }
    }
}

impl ToolVersionsRubyExtractor {
    /// The Ruby version of the first `ruby` line of a `.tool-versions` file.
    pub fn extract(&self, file: &ParsedFile) -> (r: Vec<ConfigAssertion>)
        ensures
            (file.content is PlainText) ==> line_version_ok(
                r@,
                file.raw_text@,
                LineReader::Prefixed(seq!["ruby "@]),
                RuntimeVersionKind::Ruby,
                file.path@,
                "ruby"@,
                Authority::Advisory,
                "ruby-version-tool-versions"@,
            ),
            !(file.content is PlainText) ==> r@.len() == 0,
    {
        match &file.content {
            FileContent::PlainText(_) => {
                let prefixes = ["ruby "];
                assert(strs_view(prefixes@) =~= seq!["ruby "@]);
                prefixed_line_assertions(file, prefixes.as_slice(), RuntimeVersionKind::Ruby, "ruby", self.id())
            },
            _ => Vec::new(),
        }
    }
}

impl ToolVersionsJavaExtractor {
    /// The Java version of the first `java` line of a `.tool-versions` file.
    pub fn extract(&self, file: &ParsedFile) -> (r: Vec<ConfigAssertion>)
        ensures
            (file.content is PlainText) ==> line_version_ok(
                r@,
                file.raw_text@,
                LineReader::Tool(seq!["java"@]),
                RuntimeVersionKind::Java,
                file.path@,
                "java"@,
                Authority::Advisory,
                "java-version-tool-versions"@,
            ),
            !(file.content is PlainText) ==> r@.len() == 0,
    {
        let names: &'static [&'static str] = &["java"];
        assert(strs_view(names@) =~= seq!["java"@]);
        ToolVersionsVersionStrategy {
            runtime: RuntimeVersionKind::Java,
            extractor_id: self.id(),
            tool_names: names,
            authority: Authority::Advisory,
            key_path: "java",
        }.extract(file)
    }
}

impl GoModExtractor {
    /// The Go version of the first `go` directive of a `go.mod` file.
    pub fn extract(&self, file: &ParsedFile) -> (r: Vec<ConfigAssertion>)
        ensures
            line_version_ok(
                r@,
                file.raw_text@,
                LineReader::Go,
                RuntimeVersionKind::Go,
                file.path@,
                "go"@,
                Authority::Declared,
                "go-version-gomod"@,
            ),
    {
        let ls = lines_of(file.raw_text.as_str());
        let ghost lv = vv(ls@);
        let mut out: Vec<ConfigAssertion> = Vec::new();
        let mut i: usize = 0;
        while i < ls.len()
            invariant
                i <= ls.len(),
                lv == vv(ls@),
                lv == lines_s(file.raw_text@),
                first_line_value(lv, LineReader::Go, 0) == first_line_value(lv, LineReader::Go, i as int),
                out@.len() == 0,
            decreases ls.len() - i,
        {
            assert(lv[i as int] == ls@[i as int]@);
            match go_value(ls[i].as_slice()) {
                Some(w) => {
                    let v = from_chars(w.as_slice());
                    let a = version_assertion(
                        RuntimeVersionKind::Go,
                        v.as_str(),
                        v.clone(),
                        file.path.as_str(),
                        i + 1,
                        String::from_str("go"),
                        Authority::Declared,
                        self.id(),
                    );
                    out.push(a);
                    return out;
                },
                None => {},
            }
            i = i + 1;
        }
        out
    }
}


/// A Gemfile `ruby` directive with its quoted version.
pub const GEMFILE_RUBY_PATTERN: &'static str = r#"^\s*ruby\s+['"]([^'"]+)['"]"#;

/// A `.sdkmanrc` `java` entry.
pub const SDKMANRC_JAVA_PATTERN: &'static str = r"^\s*java\s*=\s*(.+)";

/// Group 1 of the first match of `GEMFILE_RUBY_PATTERN` in a line, if the
/// pattern matches.
pub open spec fn gemfile_ruby_capture(line: Seq<char>) -> Option<Seq<char>> {
    captured_group_s(GEMFILE_RUBY_PATTERN@, line, 1)
}

/// Group 1 of the first match of `SDKMANRC_JAVA_PATTERN` in a line, if the
/// pattern matches.
pub open spec fn sdkmanrc_java_capture(line: Seq<char>) -> Option<Seq<char>> {
    captured_group_s(SDKMANRC_JAVA_PATTERN@, line, 1)
}

fn capture_gemfile_ruby(line: &str) -> (r: Option<String>)
    ensures
        match r {
            Some(v) => gemfile_ruby_capture(line@) == Some(v@),
            None => gemfile_ruby_capture(line@) is None,
        },
{
    captured_group(GEMFILE_RUBY_PATTERN, line, 1)
}

fn capture_sdkmanrc_java(line: &str) -> (r: Option<String>)
    ensures
        match r {
            Some(v) => sdkmanrc_java_capture(line@) == Some(v@),
            None => sdkmanrc_java_capture(line@) is None,
        },
{
    captured_group(SDKMANRC_JAVA_PATTERN, line, 1)
}

fn read_regex_line(gemfile: bool, line: &str) -> (r: Option<String>)
    ensures
        match r {
            Some(v) => read_line(if gemfile { LineReader::GemfileRuby } else { LineReader::SdkmanJava }, line@) == Some(v@),
            None => read_line(if gemfile { LineReader::GemfileRuby } else { LineReader::SdkmanJava }, line@) is None,
        },
{
    if gemfile {
        capture_gemfile_ruby(line)
    } else {
        match capture_sdkmanrc_java(line) {
            Some(v) => Some(from_chars(trim_chars(to_chars(v.as_str()).as_slice()).as_slice())),
            None => None,
        }
    }
}

/// The version of the first line of a plain file that the pattern reader
/// (`gemfile`: the Gemfile reader, else the `.sdkmanrc` reader) accepts.
fn regex_line_assertions(
    file: &ParsedFile,
    gemfile: bool,
    runtime: RuntimeVersionKind,
    key_path: &str,
    authority: Authority,
    extractor_id: &str,
) -> (r: Vec<ConfigAssertion>)
    ensures
        line_version_ok(
            r@,
            file.raw_text@,
            if gemfile {
                LineReader::GemfileRuby
            } else {
                LineReader::SdkmanJava
            },
            runtime,
            file.path@,
            key_path@,
            authority,
            extractor_id@,
        ),
{
    let ghost f = if gemfile {
        LineReader::GemfileRuby
    } else {
        LineReader::SdkmanJava
    };
    let ls = lines_of(file.raw_text.as_str());
    let ghost lv = vv(ls@);
    let mut out: Vec<ConfigAssertion> = Vec::new();
    let mut i: usize = 0;
    while i < ls.len()
        invariant
            i <= ls.len(),
            lv == vv(ls@),
            lv == lines_s(file.raw_text@),
            first_line_value(lv, f, 0) == first_line_value(lv, f, i as int),
            f == (if gemfile {
                LineReader::GemfileRuby
            } else {
                LineReader::SdkmanJava
            }),
            out@.len() == 0,
        decreases ls.len() - i,
    {
        assert(lv[i as int] == ls@[i as int]@);
        let line = from_chars(ls[i].as_slice());
        match read_regex_line(gemfile, line.as_str()) {
            Some(v) => {
                let a = version_assertion(
                    runtime,
                    v.as_str(),
                    v.clone(),
                    file.path.as_str(),
                    i + 1,
                    String::from_str(key_path),
                    authority,
                    extractor_id,
                );
                out.push(a);
                return out;
            },
            None => {},
        }
        i = i + 1;
    }
    out
}

impl GemfileExtractor {
    /// The Ruby version of the first `ruby "x.y.z"` line of a Gemfile.
    pub fn extract(&self, file: &ParsedFile) -> (r: Vec<ConfigAssertion>)
        ensures
            (file.content is PlainText) ==> line_version_ok(
                r@,
                file.raw_text@,
                LineReader::GemfileRuby,
                RuntimeVersionKind::Ruby,
                file.path@,
                "ruby"@,
                Authority::Declared,
                "ruby-version-gemfile"@,
            ),
            !(file.content is PlainText) ==> r@.len() == 0,
    {
        match &file.content {
            FileContent::PlainText(_) => regex_line_assertions(
                file,
                true,
                RuntimeVersionKind::Ruby,
                "ruby",
                Authority::Declared,
                self.id(),
            ),
            _ => Vec::new(),
        }
    }
}

impl SdkmanrcExtractor {
    /// The Java version of the first `java=` line of a `.sdkmanrc` file.
    pub fn extract(&self, file: &ParsedFile) -> (r: Vec<ConfigAssertion>)
        ensures
            (file.content is PlainText) ==> line_version_ok(
                r@,
                file.raw_text@,
                LineReader::SdkmanJava,
                RuntimeVersionKind::Java,
                file.path@,
                "java"@,
                Authority::Advisory,
                "java-version-sdkmanrc"@,
            ),
            !(file.content is PlainText) ==> r@.len() == 0,
    {
        match &file.content {
            FileContent::PlainText(_) => regex_line_assertions(
                file,
                false,
                RuntimeVersionKind::Java,
                "java",
                Authority::Advisory,
                self.id(),
            ),
            _ => Vec::new(),
        }
    }
}


// ---------------------------------------------------------------------
// .NET images of Microsoft's registry
// ---------------------------------------------------------------------

/// A .NET image of Microsoft's registry with its tag.
pub const DOTNET_IMAGE_TAG_PATTERN: &'static str = r"mcr\.microsoft\.com/dotnet/(?:sdk|aspnet|runtime):(\S+)";

/// Group 1 (the tag) of the first match of `DOTNET_IMAGE_TAG_PATTERN` in a
/// text, if the pattern matches.
pub open spec fn dotnet_image_tag_capture(text: Seq<char>) -> Option<Seq<char>> {
    captured_group_s(DOTNET_IMAGE_TAG_PATTERN@, text, 1)
}

fn capture_dotnet_image_tag(text: &str) -> (r: Option<String>)
    ensures
        match r {
            Some(v) => dotnet_image_tag_capture(text@) == Some(v@),
            None => dotnet_image_tag_capture(text@) is None,
        },
{
    captured_group(DOTNET_IMAGE_TAG_PATTERN, text, 1)
}

/// The first word of a tag, or the tag itself when it has none.
pub open spec fn tag_word_s(tag: Seq<char>) -> Seq<char> {
    match first_word_s(tag) {
        Some(w) => w,
        None => tag,
    }
}

/// The `FROM` instructions with a Microsoft .NET image, each with its tag.
pub open spec fn dotnet_hits(xs: Seq<DockerInstruction>) -> Seq<(DockerInstruction, Seq<char>)>
    decreases xs.len(),
{
    if xs.len() == 0 {
        Seq::empty()
    } else {
        let rest = dotnet_hits(xs.drop_last());
        let x = xs.last();
        if x.instruction@ == "FROM"@ {
            match dotnet_image_tag_capture(x.arguments@) {
                Some(t) => rest.push((x, tag_word_s(t))),
                None => rest,
            }
        } else {
            rest
        }
    }
}

/// One .NET version assertion per `FROM` line with a Microsoft .NET image.
pub open spec fn dotnet_versions_ok(r: Seq<ConfigAssertion>, xs: Seq<DockerInstruction>, file: Seq<char>) -> bool {
    let hits = dotnet_hits(xs);
    &&& r.len() == hits.len()
    &&& forall|k: int|
        0 <= k < r.len() ==> {
            &&& located(
                #[trigger] r[k],
                "dotnet-version"@,
                hits[k].0.arguments@,
                file,
                hits[k].0.line,
                "FROM"@,
                docker_authority_s(hits[k].0),
                "dotnet-version-dockerfile"@,
            )
            &&& has_version(r[k], hits[k].1)
        }
}

fn tag_word(tag: &str) -> (r: String)
    ensures
        r@ == tag_word_s(tag@),
{
    let cs = to_chars(tag);
    match first_word_bounds(cs.as_slice()) {
        Some((a, b)) => from_chars(slice_chars(cs.as_slice(), a, b).as_slice()),
        None => String::from_str(tag),
    }
}

impl DockerfileDotnetExtractor {
    /// The .NET versions of a Dockerfile's `FROM` lines with a Microsoft
    /// SDK, ASP.NET or runtime image.
    pub fn extract(&self, file: &ParsedFile) -> (r: Vec<ConfigAssertion>)
        ensures
            match file.content {
                FileContent::Dockerfile(xs) => dotnet_versions_ok(r@, xs@, file.path@),
                _ => r@.len() == 0,
            },
    {
        let mut out: Vec<ConfigAssertion> = Vec::new();
        let xs = match &file.content {
            FileContent::Dockerfile(xs) => xs,
            _ => return out,
        };
        let mut i: usize = 0;
        while i < xs.len()
            invariant
                i <= xs.len(),
                file.content == FileContent::Dockerfile(*xs),
                dotnet_versions_ok(out@, xs@.take(i as int), file.path@),
            decreases xs.len() - i,
        {
            proof {
                assert(xs@.take(i + 1).drop_last() == xs@.take(i as int));
                assert(xs@.take(i + 1).last() == xs@[i as int]);
            }
            let x = &xs[i];
            if str_eq(x.instruction.as_str(), "FROM") {
                match capture_dotnet_image_tag(x.arguments.as_str()) {
                    Some(t) => {
                        let tag = tag_word(t.as_str());
                        let a = ConfigAssertion::new(
                            SemanticConcept::dotnet_version(),
                            SemanticType::Version(parse_version(tag.as_str())),
                            x.arguments.clone(),
                            SourceLocation {
                                file: file.path.clone(),
                                line: x.line,
                                column: 0,
                                key_path: String::from_str("FROM"),
                            },
                            docker_authority(x),
                            self.id(),
                        );
                        let ghost prev = out@;
                        out.push(a);
                        proof {
                            let hits = dotnet_hits(xs@.take(i + 1));
                            assert forall|k: int| 0 <= k < out@.len() implies {
                                &&& located(
                                    #[trigger] out@[k],
                                    "dotnet-version"@,
                                    hits[k].0.arguments@,
                                    file.path@,
                                    hits[k].0.line,
                                    "FROM"@,
                                    docker_authority_s(hits[k].0),
                                    "dotnet-version-dockerfile"@,
                                )
                                &&& has_version(out@[k], hits[k].1)
                            } by {
                                if k < prev.len() {
                                    assert(out@[k] == prev[k]);
                                }
                            }
                        }
                    },
                    None => {},
                }
            }
            i = i + 1;
        }
        assert(xs@.take(xs.len() as int) == xs@);
        out
    }
}

} // verus!
