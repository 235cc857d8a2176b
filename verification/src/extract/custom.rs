//! Extractors that `.conflic.toml` defines: their concept, the files they
//! read, and the pattern applied to a raw value.
use vstd::prelude::*;
use vstd::string::*;
use crate::pattern::{captured_group, group_s, regex_captures_result};
use super::{matches_any, matches_any_s};
use crate::config::{CustomExtractorConfig, CustomSourceConfig};
use super::versions::located;
use crate::model::semantic_type::{boolean_word_s, parse_port_s, parse_version_s};
use crate::model::{
    normalize_boolean, parse_port, parse_version, Authority, ConceptCategory, ConfigAssertion, SemanticConcept,
    SemanticType, SourceLocation,
};
use crate::parse::{DockerInstruction, EnvEntry, FileContent, ParsedFile};
use crate::text::{from_chars, starts_with_s, str_eq, str_starts_with, strs_view, to_chars, trim_chars, trim_s};
use crate::text::{decimal_s, ends_with_s, find_char, lemma_find_none, push_decimal, push_str, str_ends_with};
use crate::discover::{
    absolute_s, glob_error, glob_error_text, glob_hits, glob_match_result, glob_matches, glob_pattern_s,
    is_glob_pattern, normalize_path_for_match, slashes_s, trim_relative_prefix, trim_relative_prefix_s,
    trim_start_matches_s, GLOB_PATTERN_LIMIT,
};
use crate::pattern::{regex_error, regex_error_text};
use crate::model::{ParseDiagnostic, Severity};
use crate::model::semantic_type::opt_view;

verus! {

/// A dynamically-defined extractor loaded from `.conflic.toml`.
pub struct CustomExtractor {
    pub config: CustomExtractorConfig,
}

/// The category that a configured category name stands for.
pub open spec fn category_of(name: String) -> ConceptCategory {
    if name@ == "runtime-version"@ {
        ConceptCategory::RuntimeVersion
    } else if name@ == "port"@ {
        ConceptCategory::Port
    } else if name@ == "strict-mode"@ {
        ConceptCategory::StrictMode
    } else if name@ == "build-tool"@ {
        ConceptCategory::BuildTool
    } else if name@ == "package-manager"@ {
        ConceptCategory::PackageManager
    } else {
        ConceptCategory::Custom(name)
    }
}

/// The file names of the sources.
pub open spec fn source_files(ss: Seq<CustomSourceConfig>) -> Seq<Seq<char>> {
    ss.map_values(|s: CustomSourceConfig| s.file@)
}

impl CustomExtractor {
    pub fn new(config: CustomExtractorConfig) -> (r: Self)
        ensures
            r.config == config,
    {
        CustomExtractor { config }
    }

    /// The concept the extractor emits: the configured id and name, in the
    /// category its name gives (an unknown name makes a custom category).
    pub fn concept(&self) -> (r: SemanticConcept)
        ensures
            r.id == self.config.concept,
            r.display_name == self.config.display_name,
            r.category == category_of(self.config.category),
    {
        let c = self.config.category.as_str();
        let category = if str_eq(c, "runtime-version") {
            ConceptCategory::RuntimeVersion
        } else if str_eq(c, "port") {
            ConceptCategory::Port
        } else if str_eq(c, "strict-mode") {
            ConceptCategory::StrictMode
        } else if str_eq(c, "build-tool") {
            ConceptCategory::BuildTool
        } else if str_eq(c, "package-manager") {
            ConceptCategory::PackageManager
        } else {
            ConceptCategory::Custom(self.config.category.clone())
        };
        SemanticConcept {
            id: self.config.concept.clone(),
            display_name: self.config.display_name.clone(),
            category,
        }
    }

    /// The id of the extractor: its concept.
    pub fn id(&self) -> (r: &str)
        ensures
            r@ == self.config.concept@,
    {
        self.config.concept.as_str()
    }

    /// The description of the extractor: its concept's display name.
    pub fn description(&self) -> (r: &str)
        ensures
            r@ == self.config.display_name@,
    {
        self.config.display_name.as_str()
    }

    /// The file names of the extractor's sources.
    pub fn relevant_filenames(&self) -> (r: Vec<&str>)
        ensures
            strs_view(r@) == source_files(self.config.source@),
    {
        let ss = &self.config.source;
        let mut v: Vec<&str> = Vec::new();
        let mut i: usize = 0;
        while i < ss.len()
            invariant
                i <= ss.len(),
                ss == &self.config.source,
                strs_view(v@) == source_files(ss@.take(i as int)),
            decreases ss.len() - i,
        {
            let ghost before = strs_view(v@);
            v.push(ss[i].file.as_str());
            proof {
                assert(strs_view(v@) =~= before.push(ss@[i as int].file@));
                assert(source_files(ss@.take(i + 1)) =~= source_files(ss@.take(i as int)).push(
                    ss@[i as int].file@,
                ));
            }
            i = i + 1;
        }
        assert(ss@.take(ss.len() as int) == ss@);
        v
    }

    /// Whether the extractor reads a file of this name: one of its sources'
    /// file names, exactly or as a prefix.
    pub fn matches_file(&self, filename: &str) -> (r: bool)
        ensures
            r == matches_any_s(source_files(self.config.source@), filename@),
    {
        let ps = self.relevant_filenames();
        matches_any(ps.as_slice(), filename)
    }

    /// Whether a source reads a file of this name.
    pub fn source_matches(source: &CustomSourceConfig, filename: &str) -> (r: bool)
        ensures
            r == (filename@ == source.file@ || starts_with_s(filename@, source.file@)),
    {
        str_eq(filename, source.file.as_str()) || str_starts_with(filename, source.file.as_str())
    }
}

/// The value a source's pattern picks out of a raw value: the raw value
/// without a pattern; else group 1 of the first match, or the whole match
/// when group 1 took no part; nothing for a bad pattern or no match.
pub open spec fn apply_pattern_s(raw: Seq<char>, pattern: Option<Seq<char>>) -> Option<Seq<char>> {
    match pattern {
        None => Some(raw),
        Some(p) => match regex_captures_result(p, raw) {
            Some(Some(gs)) => match group_s(gs, 1) {
                Some(g) => Some(g),
                None => group_s(gs, 0),
            },
            _ => None,
        },
    }
}

/// Apply an optional regex pattern to extract a capture group.
pub fn apply_pattern(raw: &str, pattern: Option<&str>) -> (r: Option<String>)
    ensures
        match r {
            Some(v) => apply_pattern_s(
                raw@,
                match pattern {
                    Some(p) => Some(p@),
                    None => None,
                },
            ) == Some(v@),
            None => apply_pattern_s(
                raw@,
                match pattern {
                    Some(p) => Some(p@),
                    None => None,
                },
            ) is None,
        },
{
    match pattern {
        None => Some(String::from_str(raw)),
        Some(pat) => {
            let g1 = captured_group(pat, raw, 1);
            match g1 {
                Some(g) => Some(g),
                None => captured_group(pat, raw, 0),
            }
        },
    }
}


// ---------------------------------------------------------------------
// Values and assertions of custom extractors
// ---------------------------------------------------------------------

/// The typed value of a raw value, by the configured value type: a version,
/// a port, or a boolean word, falling back to the string itself.
pub open spec fn custom_value_ok(v: SemanticType, value_type: Seq<char>, raw: Seq<char>) -> bool {
    if value_type == "version"@ {
        v matches SemanticType::Version(x) && x@ == parse_version_s(raw)
    } else if value_type == "port"@ {
        match parse_port_s(raw) {
            Some(p) => v == SemanticType::Port(p),
            None => v matches SemanticType::StringValue(s) && s@ == raw,
        }
    } else if value_type == "boolean"@ {
        match boolean_word_s(raw) {
            Some(b) => v == SemanticType::Boolean(b),
            None => v matches SemanticType::StringValue(s) && s@ == raw,
        }
    } else {
        v matches SemanticType::StringValue(s) && s@ == raw
    }
}

/// The source's pattern, as text.
pub open spec fn pattern_of(source: CustomSourceConfig) -> Option<Seq<char>> {
    match source.pattern {
        Some(p) => Some(p@),
        None => None,
    }
}

/// An assertion of the extractor's concept with the raw value typed by
/// its value type.
pub open spec fn custom_assertion_ok(
    a: ConfigAssertion,
    ext: CustomExtractor,
    raw: Seq<char>,
    file: Seq<char>,
    line: usize,
    key_path: Seq<char>,
    authority: Authority,
) -> bool {
    &&& located(a, ext.config.concept@, raw, file, line, key_path, authority, ext.config.concept@)
    &&& a.concept.display_name == ext.config.display_name
    &&& a.concept.category == category_of(ext.config.category)
    &&& custom_value_ok(a.value, ext.config.value_type@, raw)
}

/// The first env entry, from entry `i` on, with the key and a value that
/// the pattern accepts, with the value it picks.
pub open spec fn first_env_match(es: Seq<EnvEntry>, key: Seq<char>, pattern: Option<Seq<char>>, i: int) -> Option<(EnvEntry, Seq<char>)>
    decreases es.len() - i,
{
    if i < 0 || i >= es.len() {
        None
    } else if es[i].key@ == key && apply_pattern_s(es[i].value@, pattern) is Some {
        Some((es[i], apply_pattern_s(es[i].value@, pattern)->0))
    } else {
        first_env_match(es, key, pattern, i + 1)
    }
}

/// The first `FROM` instruction, from instruction `i` on, whose arguments
/// the pattern accepts, with the value it picks.
pub open spec fn first_from_match(xs: Seq<DockerInstruction>, pattern: Option<Seq<char>>, i: int) -> Option<(DockerInstruction, Seq<char>)>
    decreases xs.len() - i,
{
    if i < 0 || i >= xs.len() {
        None
    } else if xs[i].instruction@ == "FROM"@ && apply_pattern_s(xs[i].arguments@, pattern) is Some {
        Some((xs[i], apply_pattern_s(xs[i].arguments@, pattern)->0))
    } else {
        first_from_match(xs, pattern, i + 1)
    }
}

fn pattern_str(source: &CustomSourceConfig) -> (r: Option<&str>)
    ensures
        match r {
            Some(p) => pattern_of(*source) == Some(p@),
            None => pattern_of(*source) is None,
        },
{
    match &source.pattern {
        Some(p) => Some(p.as_str()),
        None => None,
    }
}

impl CustomExtractor {
    /// The typed value of a raw value, by the configured value type.
    pub fn parse_value(&self, raw: &str) -> (r: SemanticType)
        ensures
            custom_value_ok(r, self.config.value_type@, raw@),
    {
        let t = self.config.value_type.as_str();
        if str_eq(t, "version") {
            SemanticType::Version(parse_version(raw))
        } else if str_eq(t, "port") {
            match parse_port(raw) {
                Some(p) => SemanticType::Port(p),
                None => SemanticType::StringValue(String::from_str(raw)),
            }
        } else if str_eq(t, "boolean") {
            match normalize_boolean(raw) {
                Some(b) => SemanticType::Boolean(b),
                None => SemanticType::StringValue(String::from_str(raw)),
            }
        } else {
            SemanticType::StringValue(String::from_str(raw))
        }
    }

    pub(crate) fn assertion(&self, raw: String, file: &str, line: usize, key_path: String, authority: Authority) -> (r: ConfigAssertion)
        ensures
            custom_assertion_ok(r, *self, raw@, file@, line, key_path@, authority),
    {
        let value = self.parse_value(raw.as_str());
        ConfigAssertion::new(
            self.concept(),
            value,
            raw,
            SourceLocation { file: String::from_str(file), line, column: 0, key_path },
            authority,
            self.id(),
        )
    }

    /// The value of the first env entry with the source's key whose value
    /// the pattern accepts; nothing for other files or without a key.
    pub fn extract_from_env(&self, source: &CustomSourceConfig, file: &ParsedFile, authority: Authority) -> (r: Vec<
        ConfigAssertion,
    >)
        ensures
            match (file.content, source.key) {
                (FileContent::Env(es), Some(key)) => match first_env_match(es@, key@, pattern_of(*source), 0) {
                    Some((e, raw)) => r@.len() == 1 && custom_assertion_ok(
                        r@[0],
                        *self,
                        raw,
                        file.path@,
                        e.line,
                        key@,
                        authority,
                    ),
                    None => r@.len() == 0,
                },
                _ => r@.len() == 0,
            },
    {
        let mut out: Vec<ConfigAssertion> = Vec::new();
        let es = match &file.content {
            FileContent::Env(es) => es,
            _ => return out,
        };
        let key = match &source.key {
            Some(k) => k,
            None => return out,
        };
        let pattern = pattern_str(source);
        let mut i: usize = 0;
        while i < es.len()
            invariant
                i <= es.len(),
                file.content == FileContent::Env(*es),
                source.key == Some(*key),
                first_env_match(es@, key@, pattern_of(*source), 0) == first_env_match(es@, key@, pattern_of(*source), i as int),
                match pattern {
                    Some(p) => pattern_of(*source) == Some(p@),
                    None => pattern_of(*source) is None,
                },
                out@.len() == 0,
            decreases es.len() - i,
        {
            let e = &es[i];
            if str_eq(e.key.as_str(), key.as_str()) {
                match apply_pattern(e.value.as_str(), pattern) {
                    Some(raw) => {
                        let a = self.assertion(raw, file.path.as_str(), e.line, key.clone(), authority);
                        out.push(a);
                        return out;
                    },
                    None => {},
                }
            }
            i = i + 1;
        }
        out
    }

    /// The trimmed text of a non-empty plain file, at line 1.
    pub fn extract_from_plain(&self, file: &ParsedFile, authority: Authority) -> (r: Vec<ConfigAssertion>)
        ensures
            match file.content {
                FileContent::PlainText(text) => if trim_s(text@).len() == 0 {
                    r@.len() == 0
                } else {
                    r@.len() == 1 && custom_assertion_ok(
                        r@[0],
                        *self,
                        trim_s(text@),
                        file.path@,
                        1,
                        Seq::empty(),
                        authority,
                    )
                },
                _ => r@.len() == 0,
            },
    {
        let mut out: Vec<ConfigAssertion> = Vec::new();
        match &file.content {
            FileContent::PlainText(text) => {
                let t = trim_chars(to_chars(text.as_str()).as_slice());
                if t.len() > 0 {
                    let a = self.assertion(from_chars(t.as_slice()), file.path.as_str(), 1, String::new(), authority);
                    out.push(a);
                }
                out
            },
            _ => out,
        }
    }

    /// The value that the pattern picks from the first `FROM` instruction
    /// it accepts.
    pub fn extract_from_dockerfile(&self, source: &CustomSourceConfig, file: &ParsedFile, authority: Authority) -> (r: Vec<
        ConfigAssertion,
    >)
        ensures
            match file.content {
                FileContent::Dockerfile(xs) => match first_from_match(xs@, pattern_of(*source), 0) {
                    Some((x, raw)) => r@.len() == 1 && custom_assertion_ok(
                        r@[0],
                        *self,
                        raw,
                        file.path@,
                        x.line,
                        "FROM"@,
                        authority,
                    ),
                    None => r@.len() == 0,
                },
                _ => r@.len() == 0,
            },
    {
        let mut out: Vec<ConfigAssertion> = Vec::new();
        let xs = match &file.content {
            FileContent::Dockerfile(xs) => xs,
            _ => return out,
        };
        let pattern = pattern_str(source);
        let mut i: usize = 0;
        while i < xs.len()
            invariant
                i <= xs.len(),
                file.content == FileContent::Dockerfile(*xs),
                first_from_match(xs@, pattern_of(*source), 0) == first_from_match(xs@, pattern_of(*source), i as int),
                match pattern {
                    Some(p) => pattern_of(*source) == Some(p@),
                    None => pattern_of(*source) is None,
                },
                out@.len() == 0,
            decreases xs.len() - i,
        {
            let x = &xs[i];
            if str_eq(x.instruction.as_str(), "FROM") {
                match apply_pattern(x.arguments.as_str(), pattern) {
                    Some(raw) => {
                        let a = self.assertion(raw, file.path.as_str(), x.line, String::from_str("FROM"), authority);
                        out.push(a);
                        return out;
                    },
                    None => {},
                }
            }
            i = i + 1;
        }
        out
    }
}

} // verus!

verus! {

// ---------------------------------------------------------------------
// Checking a source before use
// ---------------------------------------------------------------------

/// A custom extractor source that passed its checks, ready for matching.
#[derive(Debug)]
pub struct CompiledCustomSource {
    pub config: CustomSourceConfig,
    /// The source's file with forward slashes only.
    pub normalized_file: String,
    /// Whether the source's file is a glob rather than a name or a path.
    pub is_glob: bool,
    /// For a glob, the pattern that matches it at any depth below the scan
    /// root, where the glob is not already rooted that way.
    pub relative_glob: Option<String>,
}

/// The source formats that a custom extractor reads.
pub open spec fn supported_format_s(format: Seq<char>) -> bool {
    ||| format == "json"@
    ||| format == "yaml"@
    ||| format == "toml"@
    ||| format == "env"@
    ||| format == "plain"@
    ||| format == "dockerfile"@
}

/// The glob that finds a glob source at any depth: `**/` before its
/// normalized file without leading `./`, unless that already starts with
/// `**/` or is absolute.
pub open spec fn relative_glob_s(file: Seq<char>) -> Option<Seq<char>> {
    let t = trim_relative_prefix_s(slashes_s(file));
    if !starts_with_s(t, "**/"@) && !absolute_s(t) {
        Some("**/"@ + t)
    } else {
        None
    }
}

/// How a configuration error names source `index` (counted from 0) of an
/// extractor.
pub open spec fn source_label_s(config: CustomExtractorConfig, index: nat) -> Seq<char> {
    "Custom extractor '"@ + config.concept@ + "' source "@ + decimal_s(index + 1) + " has invalid "@
}

/// The message for a pattern that does not compile: what it is, its text
/// and the error.
pub open spec fn bad_pattern_s(label: Seq<char>, what: Seq<char>, text: Seq<char>, error: Seq<char>) -> Seq<char> {
    label + what + " '"@ + text + "': "@ + error
}

/// The message of the first check that a source fails, in the order they
/// are made: its format, then for a glob the file glob, the glob of its
/// normalized path and its relative glob, then its value pattern. `None`
/// when it passes them all.
pub open spec fn compile_error_s(source: CustomSourceConfig, config: CustomExtractorConfig, index: nat) -> Option<
    Seq<char>,
> {
    let label = source_label_s(config, index);
    let file = source.file@;
    let glob = glob_pattern_s(file);
    if !supported_format_s(source.format@) {
        Some(
            label + "source format '"@ + source.format@
                + "'. Expected one of: json, yaml, toml, env, plain, dockerfile"@,
        )
    } else if glob && glob_error_text(file) is Some {
        Some(bad_pattern_s(label, "file glob"@, file, glob_error_text(file)->0))
    } else if glob && glob_error_text(slashes_s(file)) is Some {
        Some(bad_pattern_s(label, "path glob"@, file, glob_error_text(slashes_s(file))->0))
    } else if glob && relative_glob_s(file) is Some && glob_error_text(relative_glob_s(file)->0) is Some {
        Some(bad_pattern_s(label, "relative path glob"@, file, glob_error_text(relative_glob_s(file)->0)->0))
    } else if pattern_of(source) is Some && regex_error_text(pattern_of(source)->0) is Some {
        Some(
            bad_pattern_s(
                label,
                "regex pattern"@,
                pattern_of(source)->0,
                regex_error_text(pattern_of(source)->0)->0,
            ),
        )
    } else {
        None
    }
}

/// A source whose checks all pass: a known format, globs that compile, and
/// a value pattern that compiles.
pub open spec fn source_compiles_s(source: CustomSourceConfig) -> bool {
    let file = source.file@;
    &&& supported_format_s(source.format@)
    &&& glob_pattern_s(file) ==> {
        &&& glob_match_result(file, seq![]) is Some
        &&& glob_match_result(slashes_s(file), seq![]) is Some
        &&& relative_glob_s(file) matches Some(g) ==> glob_match_result(g, seq![]) is Some
    }
    &&& pattern_of(source) matches Some(p) ==> regex_captures_result(p, seq![]) is Some
}

/// What a compiled source holds of the source it came from.
pub open spec fn compiled_from_s(c: CompiledCustomSource, source: CustomSourceConfig) -> bool {
    &&& c.config == source
    &&& c.normalized_file@ == slashes_s(source.file@)
    &&& c.is_glob == glob_pattern_s(source.file@)
    &&& opt_view(c.relative_glob) == if c.is_glob {
        relative_glob_s(source.file@)
    } else {
        None
    }
}

proof fn lemma_trim_start_matches_len(s: Seq<char>, p: Seq<char>)
    ensures
        trim_start_matches_s(s, p).len() <= s.len(),
    decreases s.len(),
{
    if p.len() > 0 && starts_with_s(s, p) {
        lemma_trim_start_matches_len(s.skip(p.len() as int), p);
    }
}

fn supported_format(format: &str) -> (r: bool)
    ensures
        r == supported_format_s(format@),
{
    str_eq(format, "json") || str_eq(format, "yaml") || str_eq(format, "toml") || str_eq(format, "env")
        || str_eq(format, "plain") || str_eq(format, "dockerfile")
}

fn source_label(config: &CustomExtractorConfig, index: usize) -> (r: String)
    requires
        index < usize::MAX,
    ensures
        r@ == source_label_s(*config, index as nat),
{
    let mut s = String::from_str("Custom extractor '");
    push_str(&mut s, config.concept.as_str());
    push_str(&mut s, "' source ");
    push_decimal(&mut s, index as u64 + 1);
    push_str(&mut s, " has invalid ");
    s
}

fn bad_pattern(label: &String, what: &str, text: &str, error: &str) -> (r: String)
    ensures
        r@ == bad_pattern_s(label@, what@, text@, error@),
{
    let mut s = label.clone();
    push_str(&mut s, what);
    push_str(&mut s, " '");
    push_str(&mut s, text);
    push_str(&mut s, "': ");
    push_str(&mut s, error);
    s
}

/// An error diagnostic about the custom extractor configuration, on the
/// configuration's file (`.conflic.toml` when its path is not known).
pub fn config_diagnostic(config_path: Option<&str>, message: String) -> (d: ParseDiagnostic)
    ensures
        d.severity == Severity::Error,
        d.message == message,
        d.rule_id@ == "CONFIG001"@,
        match config_path {
            Some(p) => d.file@ == p@,
            None => d.file@ == ".conflic.toml"@,
        },
{
    let file = match config_path {
        Some(p) => String::from_str(p),
        None => String::from_str(".conflic.toml"),
    };
    ParseDiagnostic { severity: Severity::Error, file, message, rule_id: String::from_str("CONFIG001") }
}

/// Check source `index` (counted from 0) of a custom extractor: its format
/// must be one that is read, and its file glob, if it is one, and its value
/// pattern must compile. The first failure is reported as an error
/// diagnostic on the configuration file.
pub fn compile_source(
    source: CustomSourceConfig,
    config: &CustomExtractorConfig,
    index: usize,
    config_path: Option<&str>,
) -> (r: Result<CompiledCustomSource, ParseDiagnostic>)
    requires
        source.file@.len() + 3 < GLOB_PATTERN_LIMIT,
        index < usize::MAX,
    ensures
        r is Ok <==> source_compiles_s(source),
        r is Ok <==> compile_error_s(source, *config, index as nat) is None,
        match r {
            Ok(c) => compiled_from_s(c, source),
            Err(d) => {
                &&& d.severity == Severity::Error
                &&& d.rule_id@ == "CONFIG001"@
                &&& compile_error_s(source, *config, index as nat) == Some(d.message@)
                &&& match config_path {
                    Some(p) => d.file@ == p@,
                    None => d.file@ == ".conflic.toml"@,
                }
            },
        },
{
    let label = source_label(config, index);
    let file = source.file.as_str();
    if !supported_format(source.format.as_str()) {
        let mut m = label;
        push_str(&mut m, "source format '");
        push_str(&mut m, source.format.as_str());
        push_str(&mut m, "'. Expected one of: json, yaml, toml, env, plain, dockerfile");
        return Err(config_diagnostic(config_path, m));
    }
    let normalized_file = normalize_path_for_match(file);
    let is_glob = is_glob_pattern(file);
    let mut relative_glob: Option<String> = None;
    if is_glob {
        if let Some(e) = glob_error(file) {
            return Err(config_diagnostic(config_path, bad_pattern(&label, "file glob", file, e.as_str())));
        }
        if let Some(e) = glob_error(normalized_file.as_str()) {
            return Err(config_diagnostic(config_path, bad_pattern(&label, "path glob", file, e.as_str())));
        }
        let trimmed = trim_relative_prefix(normalized_file.as_str());
        let tc = to_chars(trimmed.as_str());
        let absolute = tc.len() > 0 && tc[0] == '/';
        if !str_starts_with(trimmed.as_str(), "**/") && !absolute {
            let mut g = String::from_str("**/");
            push_str(&mut g, trimmed.as_str());
            proof {
                reveal_strlit("**/");
                lemma_trim_start_matches_len(slashes_s(file@), "./"@);
                lemma_trim_start_matches_len(trim_start_matches_s(slashes_s(file@), "./"@), ".\\"@);
            }
            if let Some(e) = glob_error(g.as_str()) {
                return Err(
                    config_diagnostic(config_path, bad_pattern(&label, "relative path glob", file, e.as_str())),
                );
            }
            relative_glob = Some(g);
        }
    }
    if let Some(p) = &source.pattern {
        if let Some(e) = regex_error(p.as_str()) {
            return Err(config_diagnostic(config_path, bad_pattern(&label, "regex pattern", p.as_str(), e.as_str())));
        }
    }
    Ok(CompiledCustomSource { config: source, normalized_file, is_glob, relative_glob })
}

impl CompiledCustomSource {
    /// A file name that the source reads: by its glob, or its exact name.
    pub open spec fn matches_filename_s(self, filename: Seq<char>) -> bool {
        if self.is_glob {
            glob_hits(self.config.file@, filename)
        } else {
            filename == self.config.file@
        }
    }

    /// Whether the source reads a file of this name.
    pub fn matches_filename(&self, filename: &str) -> (r: bool)
        ensures
            r == self.matches_filename_s(filename@),
    {
        if self.is_glob {
            glob_matches(self.config.file.as_str(), filename)
        } else {
            str_eq(filename, self.config.file.as_str())
        }
    }

    /// A file that the source reads: by its name; else, with the path's
    /// slashes made forward, by the path glob or the relative glob; else,
    /// for a plain file with a `/`, by a path that ends with it.
    pub open spec fn matches_path_s(self, filename: Seq<char>, path: Seq<char>) -> bool {
        let p = slashes_s(path);
        ||| self.matches_filename_s(filename)
        ||| self.is_glob && glob_hits(self.normalized_file@, p)
        ||| self.relative_glob matches Some(g) && glob_hits(g@, p)
        ||| !self.is_glob && self.normalized_file@.contains('/') && ends_with_s(p, self.normalized_file@)
    }

    /// Whether the source reads the file at this path.
    pub fn matches_path(&self, filename: &str, path: &str) -> (r: bool)
        ensures
            r == self.matches_path_s(filename@, path@),
    {
        if self.matches_filename(filename) {
            return true;
        }
        let p = normalize_path_for_match(path);
        if self.is_glob && glob_matches(self.normalized_file.as_str(), p.as_str()) {
            return true;
        }
        if let Some(g) = &self.relative_glob {
            if glob_matches(g.as_str(), p.as_str()) {
                return true;
            }
        }
        let n = to_chars(self.normalized_file.as_str());
        let slash = find_char(n.as_slice(), '/');
        proof {
            lemma_find_none(n@, '/');
        }
        !self.is_glob && slash.is_some() && str_ends_with(p.as_str(), self.normalized_file.as_str())
    }
}

} // verus!
