//! Configuration of a scan (`.conflic.toml`).
use vstd::prelude::*;
use vstd::string::*;
use crate::pathing::{path_ends_with, path_ends_with_s};
use crate::text::{push_str, str_eq};

verus! {

/// The whole configuration file.
#[derive(Debug, Default, Clone)]
pub struct ConflicConfig {
    pub conflic: ConflicSettings,
    pub ignore: Vec<IgnoreRule>,
    pub monorepo: MonorepoSettings,
    pub custom_extractor: Vec<CustomExtractorConfig>,
    pub concept_rule: Vec<ConceptRuleConfig>,
    pub policy: Vec<PolicyConfig>,
}

/// A policy on a concept's versions, such as `eol-window >= 90`: versions
/// whose end of life is at most that many days away are reported.
#[derive(Debug, Clone)]
pub struct PolicyConfig {
    pub id: String,
    /// The concept (or alias) the policy applies to.
    pub concept: String,
    pub rule: String,
    /// `error`, `warning` or `info`.
    pub severity: String,
    pub message: Option<String>,
}

/// A cross-concept rule: when an assertion of one concept matches, every
/// assertion of another concept must meet a requirement.
#[derive(Debug, Clone)]
pub struct ConceptRuleConfig {
    pub id: String,
    pub when: ConceptRuleWhen,
    /// The requirement that the rule places on another concept.
    pub requirement: ConceptRuleThen,
    /// `error`, `warning` or `info`.
    pub severity: String,
    pub message: Option<String>,
}

/// The condition of a cross-concept rule: a concept (or alias) and a
/// version range or exact value that one of its assertions matches.
#[derive(Debug, Clone)]
pub struct ConceptRuleWhen {
    pub concept: String,
    pub matches: String,
}

/// The requirement of a cross-concept rule: a concept (or alias) and a
/// version range or exact value that its assertions must meet.
#[derive(Debug, Clone)]
pub struct ConceptRuleThen {
    pub concept: String,
    pub requires: String,
}

/// Configuration for a user-defined custom extractor.
#[derive(Debug, Clone)]
pub struct CustomExtractorConfig {
    pub concept: String,
    pub display_name: String,
    pub category: String,
    pub value_type: String,
    pub source: Vec<CustomSourceConfig>,
}

/// A single source definition within a custom extractor.
#[derive(Debug, Clone)]
pub struct CustomSourceConfig {
    pub file: String,
    pub format: String,
    pub path: Option<String>,
    pub key: Option<String>,
    pub pattern: Option<String>,
    pub authority: String,
}

/// The `[conflic]` table.
#[derive(Debug, Default, Clone)]
pub struct ConflicSettings {
    pub severity: String,
    pub format: String,
    pub exclude: Vec<String>,
    pub skip_concepts: Vec<String>,
}

/// One `[[ignore]]` rule.
#[derive(Debug, Default, Clone)]
pub struct IgnoreRule {
    pub rule: Option<String>,
    pub files: Option<Vec<String>>,
    pub file: Option<String>,
    pub reason: Option<String>,
}

/// The `[monorepo]` table.
#[derive(Debug, Default, Clone)]
pub struct MonorepoSettings {
    pub per_package: bool,
    pub package_roots: Vec<String>,
    pub global_concepts: Vec<String>,
}

/// Default category of a custom extractor.
pub fn default_category() -> (r: String)
    ensures
        r@ == "custom"@,
{
    String::from_str("custom")
}

/// Default value type of a custom extractor.
pub fn default_value_type() -> (r: String)
    ensures
        r@ == "string"@,
{
    String::from_str("string")
}

/// Default authority of a custom source.
pub fn default_authority() -> (r: String)
    ensures
        r@ == "declared"@,
{
    String::from_str("declared")
}

/// Default minimum severity.
pub fn default_severity() -> (r: String)
    ensures
        r@ == "warning"@,
{
    String::from_str("warning")
}

/// Default output format.
pub fn default_format() -> (r: String)
    ensures
        r@ == "terminal"@,
{
    String::from_str("terminal")
}

/// Some path of `files` is a component suffix of `p`.
pub open spec fn ends_with_any(p: Seq<char>, files: Seq<String>) -> bool {
    exists|j: int| 0 <= j < files.len() && path_ends_with_s(p, #[trigger] files[j]@)
}

/// The ignore rule applies to a finding of rule `rule_id` between `file1` and `file2`:
/// its rule (if any) is `rule_id`, and its `file` ends either path, or its
/// `files` end both.
pub open spec fn rule_ignores(ig: IgnoreRule, rule_id: Seq<char>, file1: Seq<char>, file2: Seq<char>) -> bool {
    &&& (ig.rule matches Some(r) ==> r@ == rule_id)
    &&& {
        ||| (ig.file matches Some(f) && (path_ends_with_s(file1, f@) || path_ends_with_s(file2, f@)))
        ||| (ig.files matches Some(fs) && ends_with_any(file1, fs@) && ends_with_any(file2, fs@))
    }
}

/// A concept selector picks the concept `concept_id`: it is the id itself,
/// or a short alias of it, the id without its `-version` suffix (`node`
/// for `node-version`) or without its `app-` prefix (`port` for
/// `app-port`).
pub open spec fn selects_s(concept_id: Seq<char>, selector: Seq<char>) -> bool {
    ||| concept_id == selector
    ||| concept_id == selector + "-version"@
    ||| concept_id == "app-"@ + selector
}

/// Whether the selector (an id or a short alias) picks the concept.
pub fn concept_matches_selector(concept_id: &str, selector: &str) -> (r: bool)
    ensures
        r == selects_s(concept_id@, selector@),
{
    let mut with_suffix = String::from_str(selector);
    push_str(&mut with_suffix, "-version");
    let mut with_prefix = String::from_str("app-");
    push_str(&mut with_prefix, selector);
    str_eq(concept_id, selector) || str_eq(concept_id, with_suffix.as_str()) || str_eq(
        concept_id,
        with_prefix.as_str(),
    )
}

impl ConflicConfig {
    /// Some entry of `skip_concepts` selects the concept.
    pub fn should_skip_concept(&self, concept_id: &str) -> (r: bool)
        ensures
            r == exists|i: int|
                0 <= i < self.conflic.skip_concepts@.len()
                    && selects_s(concept_id@, #[trigger] self.conflic.skip_concepts@[i]@),
    {
        let v = &self.conflic.skip_concepts;
        let mut i: usize = 0;
        while i < v.len()
            invariant
                i <= v.len(),
                v@ == self.conflic.skip_concepts@,
                forall|j: int| 0 <= j < i ==> !selects_s(concept_id@, #[trigger] v@[j]@),
            decreases v.len() - i,
        {
            if concept_matches_selector(concept_id, v[i].as_str()) {
                return true;
            }
            i = i + 1;
        }
        false
    }

    /// Some ignore rule applies to a finding of `rule_id` between the two files.
    pub fn should_ignore_finding(&self, rule_id: &str, file1: &str, file2: &str) -> (r: bool)
        ensures
            r == exists|i: int|
                0 <= i < self.ignore@.len() && rule_ignores(
                    #[trigger] self.ignore@[i],
                    rule_id@,
                    file1@,
                    file2@,
                ),
    {
        let mut i: usize = 0;
        while i < self.ignore.len()
            invariant
                i <= self.ignore.len(),
                forall|j: int|
                    0 <= j < i ==> !rule_ignores(#[trigger] self.ignore@[j], rule_id@, file1@, file2@),
            decreases self.ignore.len() - i,
        {
            let ig = &self.ignore[i];
            let rule_ok = match &ig.rule {
                Some(rule) => crate::text::str_eq(rule.as_str(), rule_id),
                None => true,
            };
            if rule_ok {
                if let Some(file) = &ig.file {
                    if path_ends_with(file1, file.as_str()) || path_ends_with(file2, file.as_str()) {
                        return true;
                    }
                }
                if let Some(files) = &ig.files {
                    if any_ends(file1, files) && any_ends(file2, files) {
                        return true;
                    }
                }
            }
            i = i + 1;
        }
        false
    }
}

fn any_ends(p: &str, files: &Vec<String>) -> (r: bool)
    ensures
        r == ends_with_any(p@, files@),
{
    let mut j: usize = 0;
    while j < files.len()
        invariant
            j <= files.len(),
            forall|k: int| 0 <= k < j ==> !path_ends_with_s(p@, #[trigger] files@[k]@),
        decreases files.len() - j,
    {
        if path_ends_with(p, files[j].as_str()) {
            return true;
        }
        j = j + 1;
    }
    false
}

/// The text of the configuration template.
pub open spec fn config_template_s() -> Seq<char> {
    "# conflic configuration
# See https://github.com/conflic/conflic for documentation

[conflic]
# Minimum severity to report: \"error\", \"warning\", or \"info\"
severity = \"warning\"

# Output format: \"terminal\" or \"json\"
format = \"terminal\"

# Additional directories to exclude (node_modules, .git, vendor are always excluded)
exclude = []

# Concepts to skip entirely
skip_concepts = []

# Ignore specific contradictions
# [[ignore]]
# rule = \"VER001\"
# files = [\"Dockerfile\", \".nvmrc\"]
# reason = \"Multi-stage build; final stage matches\"

# Monorepo settings
# [monorepo]
# per_package = true
# package_roots = [\"packages/*\", \"apps/*\"]
# global_concepts = [\"node-version\", \"ts-strict-mode\"]

# Custom extractors — define your own concepts without writing Rust
# [[custom_extractor]]
# concept = \"redis-version\"
# display_name = \"Redis Version\"
# category = \"runtime-version\"
# type = \"version\"
#
# [[custom_extractor.source]]
# file = \"docker-compose.yml\"
# format = \"yaml\"
# path = \"services.redis.image\"
# pattern = \"redis:(.*)\"
# authority = \"enforced\"
#
# [[custom_extractor.source]]
# file = \".env\"
# format = \"env\"
# key = \"REDIS_VERSION\"
# authority = \"declared\"
"@
}

/// A commented template for `.conflic.toml`.
pub fn generate_template() -> (r: String)
    ensures
        r@ == config_template_s(),
{
    String::from_str(
        "# conflic configuration
# See https://github.com/conflic/conflic for documentation

[conflic]
# Minimum severity to report: \"error\", \"warning\", or \"info\"
severity = \"warning\"

# Output format: \"terminal\" or \"json\"
format = \"terminal\"

# Additional directories to exclude (node_modules, .git, vendor are always excluded)
exclude = []

# Concepts to skip entirely
skip_concepts = []

# Ignore specific contradictions
# [[ignore]]
# rule = \"VER001\"
# files = [\"Dockerfile\", \".nvmrc\"]
# reason = \"Multi-stage build; final stage matches\"

# Monorepo settings
# [monorepo]
# per_package = true
# package_roots = [\"packages/*\", \"apps/*\"]
# global_concepts = [\"node-version\", \"ts-strict-mode\"]

# Custom extractors — define your own concepts without writing Rust
# [[custom_extractor]]
# concept = \"redis-version\"
# display_name = \"Redis Version\"
# category = \"runtime-version\"
# type = \"version\"
#
# [[custom_extractor.source]]
# file = \"docker-compose.yml\"
# format = \"yaml\"
# path = \"services.redis.image\"
# pattern = \"redis:(.*)\"
# authority = \"enforced\"
#
# [[custom_extractor.source]]
# file = \".env\"
# format = \"env\"
# key = \"REDIS_VERSION\"
# authority = \"declared\"
",
    )
}

} // verus!
