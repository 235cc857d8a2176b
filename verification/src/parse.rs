//! What a parsed configuration file holds: its path, its raw text, and its
//! content by format.
use vstd::prelude::*;

verus! {

/// A structured value (JSON, or YAML read as JSON), carried through.
#[verifier::external_type_specification]
#[verifier::external_body]
pub struct ExJsonValue(serde_json::Value);

/// A TOML value, carried through.
#[verifier::external_type_specification]
#[verifier::external_body]
pub struct ExTomlValue(toml::Value);

/// One `KEY=value` line of an env file.
#[derive(Debug, Clone)]
pub struct EnvEntry {
    pub key: String,
    pub value: String,
    /// The one-based line number.
    pub line: usize,
}

/// One instruction of a Dockerfile.
#[derive(Debug, Clone)]
pub struct DockerInstruction {
    /// The instruction word, in upper case (`FROM`, `EXPOSE`, ...).
    pub instruction: String,
    /// The text after the instruction word.
    pub arguments: String,
    /// The one-based line number.
    pub line: usize,
    /// The name a `FROM ... AS name` gives its stage.
    pub stage_name: Option<String>,
    /// The instruction belongs to the last build stage.
    pub is_final_stage: bool,
}

/// The content of a file, by format.
#[derive(Debug)]
pub enum FileContent {
    Json(serde_json::Value),
    Yaml(serde_json::Value),
    Toml(toml::Value),
    Env(Vec<EnvEntry>),
    PlainText(String),
    Dockerfile(Vec<DockerInstruction>),
}

/// A parsed configuration file.
#[derive(Debug)]
pub struct ParsedFile {
    /// The file, as path text.
    pub path: String,
    pub content: FileContent,
    pub raw_text: String,
}

} // verus!
