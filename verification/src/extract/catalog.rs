//! The built-in extractors: their ids and descriptions, the files each
//! one reads, and the concepts each one emits.
use vstd::prelude::*;
use vstd::string::*;
use super::image::{is_k8s_manifest_name, k8s_manifest_names};
use super::{inferred_concept_ids, inferred_concept_s, matches_any, matches_any_s};
use crate::text::{
    contains_s, ends_with_s, starts_with_s, str_contains, str_ends_with, str_eq, str_starts_with,
    pad_right_s, push_pad_right, push_str, strs_view, to_lowercase, unicode_lowercase,
};

verus! {

/// A CI configuration file name: YAML, or `.gitlab-ci.yml`.
pub open spec fn ci_file_s(f: Seq<char>) -> bool {
    ends_with_s(f, ".yml"@) || ends_with_s(f, ".yaml"@) || f == ".gitlab-ci.yml"@
}

fn is_ci_file_name(filename: &str) -> (r: bool)
    ensures
        r == ci_file_s(filename@),
{
    str_ends_with(filename, ".yml") || str_ends_with(filename, ".yaml") || str_eq(filename, ".gitlab-ci.yml")
}

/// A lower-case name that ends with a Kubernetes manifest name.
pub open spec fn k8s_name_s(lower: Seq<char>) -> bool {
    exists|i: int| 0 <= i < 12 && ends_with_s(lower, #[trigger] k8s_manifest_names()[i])
}

fn is_k8s_file_name(filename: &str) -> (r: bool)
    ensures
        r == k8s_name_s(unicode_lowercase(filename@)),
{
    let lower = to_lowercase(filename);
    is_k8s_manifest_name(lower.as_str())
}

/// A lower-case Helm values file name.
pub open spec fn helm_values_name_s(lower: Seq<char>) -> bool {
    lower == "values.yaml"@ || lower == "values.yml"@ || starts_with_s(lower, "values-"@)
        || starts_with_s(lower, "values."@)
}

fn is_helm_values_name(filename: &str) -> (r: bool)
    ensures
        r == helm_values_name_s(unicode_lowercase(filename@)),
{
    let lower = to_lowercase(filename);
    let l = lower.as_str();
    str_eq(l, "values.yaml") || str_eq(l, "values.yml") || str_starts_with(l, "values-")
        || str_starts_with(l, "values.")
}

/// A path that names a Kubernetes directory, in lower case.
pub open spec fn k8s_dir_s(lower_path: Seq<char>) -> bool {
    contains_s(lower_path, "k8s"@) || contains_s(lower_path, "kubernetes"@) || contains_s(
        lower_path,
        "manifests"@,
    )
}

/// A Kubernetes manifest by its path: any YAML file under a Kubernetes
/// directory, else a file with a manifest name.
pub open spec fn k8s_path_match_s(filename: Seq<char>, path: Seq<char>) -> bool {
    let lower = unicode_lowercase(filename);
    if k8s_dir_s(unicode_lowercase(path)) {
        ends_with_s(lower, ".yml"@) || ends_with_s(lower, ".yaml"@)
    } else {
        k8s_name_s(lower)
    }
}

fn k8s_path_match(filename: &str, path: &str) -> (r: bool)
    ensures
        r == k8s_path_match_s(filename@, path@),
{
    let p = to_lowercase(path);
    let lower = to_lowercase(filename);
    if str_contains(p.as_str(), "k8s") || str_contains(p.as_str(), "kubernetes") || str_contains(
        p.as_str(),
        "manifests",
    ) {
        return str_ends_with(lower.as_str(), ".yml") || str_ends_with(lower.as_str(), ".yaml");
    }
    is_k8s_manifest_name(lower.as_str())
}

/// The concepts of the runtime versions.
pub open spec fn runtime_concepts() -> Seq<Seq<char>> {
    seq!["node-version"@, "python-version"@, "go-version"@, "java-version"@, "ruby-version"@, "dotnet-version"@]
}

fn runtime_concept_ids() -> (r: Vec<String>)
    ensures
        r@.map_values(|s: String| s@) == runtime_concepts(),
{
    let mut v: Vec<String> = Vec::new();
    v.push(String::from_str("node-version"));
    v.push(String::from_str("python-version"));
    v.push(String::from_str("go-version"));
    v.push(String::from_str("java-version"));
    v.push(String::from_str("ruby-version"));
    v.push(String::from_str("dotnet-version"));
    assert(v@.map_values(|s: String| s@) =~= runtime_concepts());
    v
}

fn port_concept_ids() -> (r: Vec<String>)
    ensures
        r@.map_values(|s: String| s@) == seq!["app-port"@],
{
    let mut v: Vec<String> = Vec::new();
    v.push(String::from_str("app-port"));
    assert(v@.map_values(|s: String| s@) =~= seq!["app-port"@]);
    v
}

/// Node.js version from .nvmrc.
pub struct NvmrcExtractor;

impl NvmrcExtractor {
    pub fn id(&self) -> (r: &'static str)
        ensures
            r@ == "node-version-nvmrc"@,
    {
        "node-version-nvmrc"
    }

    pub fn description(&self) -> (r: &'static str)
        ensures
            r@ == "Node.js version from .nvmrc"@,
    {
        "Node.js version from .nvmrc"
    }

    /// The file names (or name prefixes) the extractor reads.
    pub fn relevant_filenames(&self) -> (r: Vec<&'static str>)
        ensures
            strs_view(r@) == seq![".nvmrc"@, ".node-version"@],
    {
        let mut v: Vec<&'static str> = Vec::new();
        v.push(".nvmrc");
        v.push(".node-version");
        assert(strs_view(v@) =~= seq![".nvmrc"@, ".node-version"@]);
        v
    }

    /// Whether the extractor reads a file of this name.
    pub fn matches_file(&self, filename: &str) -> (r: bool)
        ensures
            r == (matches_any_s(seq![".nvmrc"@, ".node-version"@], filename@)),
    {
        let ps = self.relevant_filenames();
        matches_any(ps.as_slice(), filename)
    }

    /// The concepts the extractor emits.
    pub fn concept_ids(&self) -> (r: Vec<String>)
        ensures
            r@.len() == 1,
            r@[0]@ == inferred_concept_s("node-version-nvmrc"@),
    {
        inferred_concept_ids(self.id())
    }
}

/// Node.js version from package.json engines.node.
pub struct PackageJsonNodeExtractor;

impl PackageJsonNodeExtractor {
    pub fn id(&self) -> (r: &'static str)
        ensures
            r@ == "node-version-package-json"@,
    {
        "node-version-package-json"
    }

    pub fn description(&self) -> (r: &'static str)
        ensures
            r@ == "Node.js version from package.json engines.node"@,
    {
        "Node.js version from package.json engines.node"
    }

    /// The file names (or name prefixes) the extractor reads.
    pub fn relevant_filenames(&self) -> (r: Vec<&'static str>)
        ensures
            strs_view(r@) == seq!["package.json"@],
    {
        let mut v: Vec<&'static str> = Vec::new();
        v.push("package.json");
        assert(strs_view(v@) =~= seq!["package.json"@]);
        v
    }

    /// Whether the extractor reads a file of this name.
    pub fn matches_file(&self, filename: &str) -> (r: bool)
        ensures
            r == (matches_any_s(seq!["package.json"@], filename@)),
    {
        let ps = self.relevant_filenames();
        matches_any(ps.as_slice(), filename)
    }

    /// The concepts the extractor emits.
    pub fn concept_ids(&self) -> (r: Vec<String>)
        ensures
            r@.len() == 1,
            r@[0]@ == inferred_concept_s("node-version-package-json"@),
    {
        inferred_concept_ids(self.id())
    }
}

/// Node.js version from Dockerfile FROM node:*.
pub struct DockerfileNodeExtractor;

impl DockerfileNodeExtractor {
    pub fn id(&self) -> (r: &'static str)
        ensures
            r@ == "node-version-dockerfile"@,
    {
        "node-version-dockerfile"
    }

    pub fn description(&self) -> (r: &'static str)
        ensures
            r@ == "Node.js version from Dockerfile FROM node:*"@,
    {
        "Node.js version from Dockerfile FROM node:*"
    }

    /// The file names (or name prefixes) the extractor reads.
    pub fn relevant_filenames(&self) -> (r: Vec<&'static str>)
        ensures
            strs_view(r@) == seq!["Dockerfile"@],
    {
        let mut v: Vec<&'static str> = Vec::new();
        v.push("Dockerfile");
        assert(strs_view(v@) =~= seq!["Dockerfile"@]);
        v
    }

    /// Whether the extractor reads a file of this name.
    pub fn matches_file(&self, filename: &str) -> (r: bool)
        ensures
            r == (matches_any_s(seq!["Dockerfile"@], filename@)),
    {
        let ps = self.relevant_filenames();
        matches_any(ps.as_slice(), filename)
    }

    /// The concepts the extractor emits.
    pub fn concept_ids(&self) -> (r: Vec<String>)
        ensures
            r@.len() == 1,
            r@[0]@ == inferred_concept_s("node-version-dockerfile"@),
    {
        inferred_concept_ids(self.id())
    }
}

/// Node.js version from CI config.
pub struct CiNodeExtractor;

impl CiNodeExtractor {
    pub fn id(&self) -> (r: &'static str)
        ensures
            r@ == "node-version-ci"@,
    {
        "node-version-ci"
    }

    pub fn description(&self) -> (r: &'static str)
        ensures
            r@ == "Node.js version from CI config"@,
    {
        "Node.js version from CI config"
    }

    /// The file names (or name prefixes) the extractor reads.
    pub fn relevant_filenames(&self) -> (r: Vec<&'static str>)
        ensures
            strs_view(r@) == Seq::<Seq<char>>::empty(),
    {
        let mut v: Vec<&'static str> = Vec::new();
        assert(strs_view(v@) =~= Seq::<Seq<char>>::empty());
        v
    }

    /// Whether the extractor reads a file of this name.
    pub fn matches_file(&self, filename: &str) -> (r: bool)
        ensures
            r == (ci_file_s(filename@)),
    {
        is_ci_file_name(filename)
    }

    /// The concepts the extractor emits.
    pub fn concept_ids(&self) -> (r: Vec<String>)
        ensures
            r@.len() == 1,
            r@[0]@ == inferred_concept_s("node-version-ci"@),
    {
        inferred_concept_ids(self.id())
    }
}

/// Node.js version from .tool-versions.
pub struct ToolVersionsNodeExtractor;

impl ToolVersionsNodeExtractor {
    pub fn id(&self) -> (r: &'static str)
        ensures
            r@ == "node-version-tool-versions"@,
    {
        "node-version-tool-versions"
    }

    pub fn description(&self) -> (r: &'static str)
        ensures
            r@ == "Node.js version from .tool-versions"@,
    {
        "Node.js version from .tool-versions"
    }

    /// The file names (or name prefixes) the extractor reads.
    pub fn relevant_filenames(&self) -> (r: Vec<&'static str>)
        ensures
            strs_view(r@) == seq![".tool-versions"@],
    {
        let mut v: Vec<&'static str> = Vec::new();
        v.push(".tool-versions");
        assert(strs_view(v@) =~= seq![".tool-versions"@]);
        v
    }

    /// Whether the extractor reads a file of this name.
    pub fn matches_file(&self, filename: &str) -> (r: bool)
        ensures
            r == (matches_any_s(seq![".tool-versions"@], filename@)),
    {
        let ps = self.relevant_filenames();
        matches_any(ps.as_slice(), filename)
    }

    /// The concepts the extractor emits.
    pub fn concept_ids(&self) -> (r: Vec<String>)
        ensures
            r@.len() == 1,
            r@[0]@ == inferred_concept_s("node-version-tool-versions"@),
    {
        inferred_concept_ids(self.id())
    }
}

/// Python version from .python-version.
pub struct PythonVersionFileExtractor;

impl PythonVersionFileExtractor {
    pub fn id(&self) -> (r: &'static str)
        ensures
            r@ == "python-version-file"@,
    {
        "python-version-file"
    }

    pub fn description(&self) -> (r: &'static str)
        ensures
            r@ == "Python version from .python-version"@,
    {
        "Python version from .python-version"
    }

    /// The file names (or name prefixes) the extractor reads.
    pub fn relevant_filenames(&self) -> (r: Vec<&'static str>)
        ensures
            strs_view(r@) == seq![".python-version"@],
    {
        let mut v: Vec<&'static str> = Vec::new();
        v.push(".python-version");
        assert(strs_view(v@) =~= seq![".python-version"@]);
        v
    }

    /// Whether the extractor reads a file of this name.
    pub fn matches_file(&self, filename: &str) -> (r: bool)
        ensures
            r == (matches_any_s(seq![".python-version"@], filename@)),
    {
        let ps = self.relevant_filenames();
        matches_any(ps.as_slice(), filename)
    }

    /// The concepts the extractor emits.
    pub fn concept_ids(&self) -> (r: Vec<String>)
        ensures
            r@.len() == 1,
            r@[0]@ == inferred_concept_s("python-version-file"@),
    {
        inferred_concept_ids(self.id())
    }
}

/// Python version from pyproject.toml.
pub struct PyprojectExtractor;

impl PyprojectExtractor {
    pub fn id(&self) -> (r: &'static str)
        ensures
            r@ == "python-version-pyproject"@,
    {
        "python-version-pyproject"
    }

    pub fn description(&self) -> (r: &'static str)
        ensures
            r@ == "Python version from pyproject.toml"@,
    {
        "Python version from pyproject.toml"
    }

    /// The file names (or name prefixes) the extractor reads.
    pub fn relevant_filenames(&self) -> (r: Vec<&'static str>)
        ensures
            strs_view(r@) == seq!["pyproject.toml"@],
    {
        let mut v: Vec<&'static str> = Vec::new();
        v.push("pyproject.toml");
        assert(strs_view(v@) =~= seq!["pyproject.toml"@]);
        v
    }

    /// Whether the extractor reads a file of this name.
    pub fn matches_file(&self, filename: &str) -> (r: bool)
        ensures
            r == (matches_any_s(seq!["pyproject.toml"@], filename@)),
    {
        let ps = self.relevant_filenames();
        matches_any(ps.as_slice(), filename)
    }

    /// The concepts the extractor emits.
    pub fn concept_ids(&self) -> (r: Vec<String>)
        ensures
            r@.len() == 1,
            r@[0]@ == inferred_concept_s("python-version-pyproject"@),
    {
        inferred_concept_ids(self.id())
    }
}

/// Python version from Dockerfile FROM python:*.
pub struct DockerfilePythonExtractor;

impl DockerfilePythonExtractor {
    pub fn id(&self) -> (r: &'static str)
        ensures
            r@ == "python-version-dockerfile"@,
    {
        "python-version-dockerfile"
    }

    pub fn description(&self) -> (r: &'static str)
        ensures
            r@ == "Python version from Dockerfile FROM python:*"@,
    {
        "Python version from Dockerfile FROM python:*"
    }

    /// The file names (or name prefixes) the extractor reads.
    pub fn relevant_filenames(&self) -> (r: Vec<&'static str>)
        ensures
            strs_view(r@) == seq!["Dockerfile"@],
    {
        let mut v: Vec<&'static str> = Vec::new();
        v.push("Dockerfile");
        assert(strs_view(v@) =~= seq!["Dockerfile"@]);
        v
    }

    /// Whether the extractor reads a file of this name.
    pub fn matches_file(&self, filename: &str) -> (r: bool)
        ensures
            r == (matches_any_s(seq!["Dockerfile"@], filename@)),
    {
        let ps = self.relevant_filenames();
        matches_any(ps.as_slice(), filename)
    }

    /// The concepts the extractor emits.
    pub fn concept_ids(&self) -> (r: Vec<String>)
        ensures
            r@.len() == 1,
            r@[0]@ == inferred_concept_s("python-version-dockerfile"@),
    {
        inferred_concept_ids(self.id())
    }
}

/// Python version from CI config.
pub struct CiPythonExtractor;

impl CiPythonExtractor {
    pub fn id(&self) -> (r: &'static str)
        ensures
            r@ == "python-version-ci"@,
    {
        "python-version-ci"
    }

    pub fn description(&self) -> (r: &'static str)
        ensures
            r@ == "Python version from CI config"@,
    {
        "Python version from CI config"
    }

    /// The file names (or name prefixes) the extractor reads.
    pub fn relevant_filenames(&self) -> (r: Vec<&'static str>)
        ensures
            strs_view(r@) == Seq::<Seq<char>>::empty(),
    {
        let mut v: Vec<&'static str> = Vec::new();
        assert(strs_view(v@) =~= Seq::<Seq<char>>::empty());
        v
    }

    /// Whether the extractor reads a file of this name.
    pub fn matches_file(&self, filename: &str) -> (r: bool)
        ensures
            r == (ci_file_s(filename@)),
    {
        is_ci_file_name(filename)
    }

    /// The concepts the extractor emits.
    pub fn concept_ids(&self) -> (r: Vec<String>)
        ensures
            r@.len() == 1,
            r@[0]@ == inferred_concept_s("python-version-ci"@),
    {
        inferred_concept_ids(self.id())
    }
}

/// Go version from go.mod.
pub struct GoModExtractor;

impl GoModExtractor {
    pub fn id(&self) -> (r: &'static str)
        ensures
            r@ == "go-version-gomod"@,
    {
        "go-version-gomod"
    }

    pub fn description(&self) -> (r: &'static str)
        ensures
            r@ == "Go version from go.mod"@,
    {
        "Go version from go.mod"
    }

    /// The file names (or name prefixes) the extractor reads.
    pub fn relevant_filenames(&self) -> (r: Vec<&'static str>)
        ensures
            strs_view(r@) == seq!["go.mod"@],
    {
        let mut v: Vec<&'static str> = Vec::new();
        v.push("go.mod");
        assert(strs_view(v@) =~= seq!["go.mod"@]);
        v
    }

    /// Whether the extractor reads a file of this name.
    pub fn matches_file(&self, filename: &str) -> (r: bool)
        ensures
            r == ((filename@ == "go.mod"@)),
    {
        str_eq(filename, "go.mod")
    }

    /// The concepts the extractor emits.
    pub fn concept_ids(&self) -> (r: Vec<String>)
        ensures
            r@.len() == 1,
            r@[0]@ == inferred_concept_s("go-version-gomod"@),
    {
        inferred_concept_ids(self.id())
    }
}

/// Go version from Dockerfile FROM golang:*.
pub struct DockerfileGoExtractor;

impl DockerfileGoExtractor {
    pub fn id(&self) -> (r: &'static str)
        ensures
            r@ == "go-version-dockerfile"@,
    {
        "go-version-dockerfile"
    }

    pub fn description(&self) -> (r: &'static str)
        ensures
            r@ == "Go version from Dockerfile FROM golang:*"@,
    {
        "Go version from Dockerfile FROM golang:*"
    }

    /// The file names (or name prefixes) the extractor reads.
    pub fn relevant_filenames(&self) -> (r: Vec<&'static str>)
        ensures
            strs_view(r@) == seq!["Dockerfile"@],
    {
        let mut v: Vec<&'static str> = Vec::new();
        v.push("Dockerfile");
        assert(strs_view(v@) =~= seq!["Dockerfile"@]);
        v
    }

    /// Whether the extractor reads a file of this name.
    pub fn matches_file(&self, filename: &str) -> (r: bool)
        ensures
            r == (matches_any_s(seq!["Dockerfile"@], filename@)),
    {
        let ps = self.relevant_filenames();
        matches_any(ps.as_slice(), filename)
    }

    /// The concepts the extractor emits.
    pub fn concept_ids(&self) -> (r: Vec<String>)
        ensures
            r@.len() == 1,
            r@[0]@ == inferred_concept_s("go-version-dockerfile"@),
    {
        inferred_concept_ids(self.id())
    }
}

/// Port from .env files.
pub struct EnvPortExtractor;

impl EnvPortExtractor {
    pub fn id(&self) -> (r: &'static str)
        ensures
            r@ == "port-env"@,
    {
        "port-env"
    }

    pub fn description(&self) -> (r: &'static str)
        ensures
            r@ == "Port from .env files"@,
    {
        "Port from .env files"
    }

    /// The file names (or name prefixes) the extractor reads.
    pub fn relevant_filenames(&self) -> (r: Vec<&'static str>)
        ensures
            strs_view(r@) == seq![".env"@],
    {
        let mut v: Vec<&'static str> = Vec::new();
        v.push(".env");
        assert(strs_view(v@) =~= seq![".env"@]);
        v
    }

    /// Whether the extractor reads a file of this name.
    pub fn matches_file(&self, filename: &str) -> (r: bool)
        ensures
            r == ((filename@ == ".env"@ || starts_with_s(filename@, ".env."@))),
    {
        str_eq(filename, ".env") || str_starts_with(filename, ".env.")
    }

    /// The concepts the extractor emits.
    pub fn concept_ids(&self) -> (r: Vec<String>)
        ensures
            r@.len() == 1,
            r@[0]@ == inferred_concept_s("port-env"@),
    {
        inferred_concept_ids(self.id())
    }
}

/// Port from docker-compose.yml.
pub struct DockerComposePortExtractor;

impl DockerComposePortExtractor {
    pub fn id(&self) -> (r: &'static str)
        ensures
            r@ == "port-docker-compose"@,
    {
        "port-docker-compose"
    }

    pub fn description(&self) -> (r: &'static str)
        ensures
            r@ == "Port from docker-compose.yml"@,
    {
        "Port from docker-compose.yml"
    }

    /// The file names (or name prefixes) the extractor reads.
    pub fn relevant_filenames(&self) -> (r: Vec<&'static str>)
        ensures
            strs_view(r@) == seq!["docker-compose"@],
    {
        let mut v: Vec<&'static str> = Vec::new();
        v.push("docker-compose");
        assert(strs_view(v@) =~= seq!["docker-compose"@]);
        v
    }

    /// Whether the extractor reads a file of this name.
    pub fn matches_file(&self, filename: &str) -> (r: bool)
        ensures
            r == (starts_with_s(filename@, "docker-compose"@) && (ends_with_s(filename@, ".yml"@) || ends_with_s(filename@, ".yaml"@))),
    {
        str_starts_with(filename, "docker-compose") && (str_ends_with(filename, ".yml") || str_ends_with(filename, ".yaml"))
    }

    /// The concepts the extractor emits.
    pub fn concept_ids(&self) -> (r: Vec<String>)
        ensures
            r@.len() == 1,
            r@[0]@ == inferred_concept_s("port-docker-compose"@),
    {
        inferred_concept_ids(self.id())
    }
}

/// Port from Dockerfile EXPOSE.
pub struct DockerfilePortExtractor;

impl DockerfilePortExtractor {
    pub fn id(&self) -> (r: &'static str)
        ensures
            r@ == "port-dockerfile"@,
    {
        "port-dockerfile"
    }

    pub fn description(&self) -> (r: &'static str)
        ensures
            r@ == "Port from Dockerfile EXPOSE"@,
    {
        "Port from Dockerfile EXPOSE"
    }

    /// The file names (or name prefixes) the extractor reads.
    pub fn relevant_filenames(&self) -> (r: Vec<&'static str>)
        ensures
            strs_view(r@) == seq!["Dockerfile"@],
    {
        let mut v: Vec<&'static str> = Vec::new();
        v.push("Dockerfile");
        assert(strs_view(v@) =~= seq!["Dockerfile"@]);
        v
    }

    /// Whether the extractor reads a file of this name.
    pub fn matches_file(&self, filename: &str) -> (r: bool)
        ensures
            r == (matches_any_s(seq!["Dockerfile"@], filename@)),
    {
        let ps = self.relevant_filenames();
        matches_any(ps.as_slice(), filename)
    }

    /// The concepts the extractor emits.
    pub fn concept_ids(&self) -> (r: Vec<String>)
        ensures
            r@.len() == 1,
            r@[0]@ == inferred_concept_s("port-dockerfile"@),
    {
        inferred_concept_ids(self.id())
    }
}

/// .NET version from .csproj TargetFramework.
pub struct CsprojExtractor;

impl CsprojExtractor {
    pub fn id(&self) -> (r: &'static str)
        ensures
            r@ == "dotnet-version-csproj"@,
    {
        "dotnet-version-csproj"
    }

    pub fn description(&self) -> (r: &'static str)
        ensures
            r@ == ".NET version from .csproj TargetFramework"@,
    {
        ".NET version from .csproj TargetFramework"
    }

    /// The file names (or name prefixes) the extractor reads.
    pub fn relevant_filenames(&self) -> (r: Vec<&'static str>)
        ensures
            strs_view(r@) == Seq::<Seq<char>>::empty(),
    {
        let mut v: Vec<&'static str> = Vec::new();
        assert(strs_view(v@) =~= Seq::<Seq<char>>::empty());
        v
    }

    /// Whether the extractor reads a file of this name.
    pub fn matches_file(&self, filename: &str) -> (r: bool)
        ensures
            r == (ends_with_s(filename@, ".csproj"@)),
    {
        str_ends_with(filename, ".csproj")
    }

    /// The concepts the extractor emits.
    pub fn concept_ids(&self) -> (r: Vec<String>)
        ensures
            r@.len() == 1,
            r@[0]@ == inferred_concept_s("dotnet-version-csproj"@),
    {
        inferred_concept_ids(self.id())
    }
}

/// .NET SDK version from global.json.
pub struct GlobalJsonExtractor;

impl GlobalJsonExtractor {
    pub fn id(&self) -> (r: &'static str)
        ensures
            r@ == "dotnet-version-global-json"@,
    {
        "dotnet-version-global-json"
    }

    pub fn description(&self) -> (r: &'static str)
        ensures
            r@ == ".NET SDK version from global.json"@,
    {
        ".NET SDK version from global.json"
    }

    /// The file names (or name prefixes) the extractor reads.
    pub fn relevant_filenames(&self) -> (r: Vec<&'static str>)
        ensures
            strs_view(r@) == seq!["global.json"@],
    {
        let mut v: Vec<&'static str> = Vec::new();
        v.push("global.json");
        assert(strs_view(v@) =~= seq!["global.json"@]);
        v
    }

    /// Whether the extractor reads a file of this name.
    pub fn matches_file(&self, filename: &str) -> (r: bool)
        ensures
            r == (matches_any_s(seq!["global.json"@], filename@)),
    {
        let ps = self.relevant_filenames();
        matches_any(ps.as_slice(), filename)
    }

    /// The concepts the extractor emits.
    pub fn concept_ids(&self) -> (r: Vec<String>)
        ensures
            r@.len() == 1,
            r@[0]@ == inferred_concept_s("dotnet-version-global-json"@),
    {
        inferred_concept_ids(self.id())
    }
}

/// .NET version from Dockerfile FROM dotnet images.
pub struct DockerfileDotnetExtractor;

impl DockerfileDotnetExtractor {
    pub fn id(&self) -> (r: &'static str)
        ensures
            r@ == "dotnet-version-dockerfile"@,
    {
        "dotnet-version-dockerfile"
    }

    pub fn description(&self) -> (r: &'static str)
        ensures
            r@ == ".NET version from Dockerfile FROM dotnet images"@,
    {
        ".NET version from Dockerfile FROM dotnet images"
    }

    /// The file names (or name prefixes) the extractor reads.
    pub fn relevant_filenames(&self) -> (r: Vec<&'static str>)
        ensures
            strs_view(r@) == seq!["Dockerfile"@],
    {
        let mut v: Vec<&'static str> = Vec::new();
        v.push("Dockerfile");
        assert(strs_view(v@) =~= seq!["Dockerfile"@]);
        v
    }

    /// Whether the extractor reads a file of this name.
    pub fn matches_file(&self, filename: &str) -> (r: bool)
        ensures
            r == (matches_any_s(seq!["Dockerfile"@], filename@)),
    {
        let ps = self.relevant_filenames();
        matches_any(ps.as_slice(), filename)
    }

    /// The concepts the extractor emits.
    pub fn concept_ids(&self) -> (r: Vec<String>)
        ensures
            r@.len() == 1,
            r@[0]@ == inferred_concept_s("dotnet-version-dockerfile"@),
    {
        inferred_concept_ids(self.id())
    }
}

/// Java version from pom.xml maven.compiler.source/target.
pub struct PomXmlExtractor;

impl PomXmlExtractor {
    pub fn id(&self) -> (r: &'static str)
        ensures
            r@ == "java-version-pom"@,
    {
        "java-version-pom"
    }

    pub fn description(&self) -> (r: &'static str)
        ensures
            r@ == "Java version from pom.xml maven.compiler.source/target"@,
    {
        "Java version from pom.xml maven.compiler.source/target"
    }

    /// The file names (or name prefixes) the extractor reads.
    pub fn relevant_filenames(&self) -> (r: Vec<&'static str>)
        ensures
            strs_view(r@) == seq!["pom.xml"@],
    {
        let mut v: Vec<&'static str> = Vec::new();
        v.push("pom.xml");
        assert(strs_view(v@) =~= seq!["pom.xml"@]);
        v
    }

    /// Whether the extractor reads a file of this name.
    pub fn matches_file(&self, filename: &str) -> (r: bool)
        ensures
            r == (matches_any_s(seq!["pom.xml"@], filename@)),
    {
        let ps = self.relevant_filenames();
        matches_any(ps.as_slice(), filename)
    }

    /// The concepts the extractor emits.
    pub fn concept_ids(&self) -> (r: Vec<String>)
        ensures
            r@.len() == 1,
            r@[0]@ == inferred_concept_s("java-version-pom"@),
    {
        inferred_concept_ids(self.id())
    }
}

/// Java version from Dockerfile FROM openjdk/temurin:*.
pub struct DockerfileJavaExtractor;

impl DockerfileJavaExtractor {
    pub fn id(&self) -> (r: &'static str)
        ensures
            r@ == "java-version-dockerfile"@,
    {
        "java-version-dockerfile"
    }

    pub fn description(&self) -> (r: &'static str)
        ensures
            r@ == "Java version from Dockerfile FROM openjdk/temurin:*"@,
    {
        "Java version from Dockerfile FROM openjdk/temurin:*"
    }

    /// The file names (or name prefixes) the extractor reads.
    pub fn relevant_filenames(&self) -> (r: Vec<&'static str>)
        ensures
            strs_view(r@) == seq!["Dockerfile"@],
    {
        let mut v: Vec<&'static str> = Vec::new();
        v.push("Dockerfile");
        assert(strs_view(v@) =~= seq!["Dockerfile"@]);
        v
    }

    /// Whether the extractor reads a file of this name.
    pub fn matches_file(&self, filename: &str) -> (r: bool)
        ensures
            r == (matches_any_s(seq!["Dockerfile"@], filename@)),
    {
        let ps = self.relevant_filenames();
        matches_any(ps.as_slice(), filename)
    }

    /// The concepts the extractor emits.
    pub fn concept_ids(&self) -> (r: Vec<String>)
        ensures
            r@.len() == 1,
            r@[0]@ == inferred_concept_s("java-version-dockerfile"@),
    {
        inferred_concept_ids(self.id())
    }
}

/// Java version from .sdkmanrc.
pub struct SdkmanrcExtractor;

impl SdkmanrcExtractor {
    pub fn id(&self) -> (r: &'static str)
        ensures
            r@ == "java-version-sdkmanrc"@,
    {
        "java-version-sdkmanrc"
    }

    pub fn description(&self) -> (r: &'static str)
        ensures
            r@ == "Java version from .sdkmanrc"@,
    {
        "Java version from .sdkmanrc"
    }

    /// The file names (or name prefixes) the extractor reads.
    pub fn relevant_filenames(&self) -> (r: Vec<&'static str>)
        ensures
            strs_view(r@) == seq![".sdkmanrc"@],
    {
        let mut v: Vec<&'static str> = Vec::new();
        v.push(".sdkmanrc");
        assert(strs_view(v@) =~= seq![".sdkmanrc"@]);
        v
    }

    /// Whether the extractor reads a file of this name.
    pub fn matches_file(&self, filename: &str) -> (r: bool)
        ensures
            r == (matches_any_s(seq![".sdkmanrc"@], filename@)),
    {
        let ps = self.relevant_filenames();
        matches_any(ps.as_slice(), filename)
    }

    /// The concepts the extractor emits.
    pub fn concept_ids(&self) -> (r: Vec<String>)
        ensures
            r@.len() == 1,
            r@[0]@ == inferred_concept_s("java-version-sdkmanrc"@),
    {
        inferred_concept_ids(self.id())
    }
}

/// Java version from .tool-versions.
pub struct ToolVersionsJavaExtractor;

impl ToolVersionsJavaExtractor {
    pub fn id(&self) -> (r: &'static str)
        ensures
            r@ == "java-version-tool-versions"@,
    {
        "java-version-tool-versions"
    }

    pub fn description(&self) -> (r: &'static str)
        ensures
            r@ == "Java version from .tool-versions"@,
    {
        "Java version from .tool-versions"
    }

    /// The file names (or name prefixes) the extractor reads.
    pub fn relevant_filenames(&self) -> (r: Vec<&'static str>)
        ensures
            strs_view(r@) == seq![".tool-versions"@],
    {
        let mut v: Vec<&'static str> = Vec::new();
        v.push(".tool-versions");
        assert(strs_view(v@) =~= seq![".tool-versions"@]);
        v
    }

    /// Whether the extractor reads a file of this name.
    pub fn matches_file(&self, filename: &str) -> (r: bool)
        ensures
            r == (matches_any_s(seq![".tool-versions"@], filename@)),
    {
        let ps = self.relevant_filenames();
        matches_any(ps.as_slice(), filename)
    }

    /// The concepts the extractor emits.
    pub fn concept_ids(&self) -> (r: Vec<String>)
        ensures
            r@.len() == 1,
            r@[0]@ == inferred_concept_s("java-version-tool-versions"@),
    {
        inferred_concept_ids(self.id())
    }
}

/// Java version from CI config.
pub struct CiJavaExtractor;

impl CiJavaExtractor {
    pub fn id(&self) -> (r: &'static str)
        ensures
            r@ == "java-version-ci"@,
    {
        "java-version-ci"
    }

    pub fn description(&self) -> (r: &'static str)
        ensures
            r@ == "Java version from CI config"@,
    {
        "Java version from CI config"
    }

    /// The file names (or name prefixes) the extractor reads.
    pub fn relevant_filenames(&self) -> (r: Vec<&'static str>)
        ensures
            strs_view(r@) == Seq::<Seq<char>>::empty(),
    {
        let mut v: Vec<&'static str> = Vec::new();
        assert(strs_view(v@) =~= Seq::<Seq<char>>::empty());
        v
    }

    /// Whether the extractor reads a file of this name.
    pub fn matches_file(&self, filename: &str) -> (r: bool)
        ensures
            r == (ci_file_s(filename@)),
    {
        is_ci_file_name(filename)
    }

    /// The concepts the extractor emits.
    pub fn concept_ids(&self) -> (r: Vec<String>)
        ensures
            r@.len() == 1,
            r@[0]@ == inferred_concept_s("java-version-ci"@),
    {
        inferred_concept_ids(self.id())
    }
}

/// Ruby version from .ruby-version.
pub struct RubyVersionFileExtractor;

impl RubyVersionFileExtractor {
    pub fn id(&self) -> (r: &'static str)
        ensures
            r@ == "ruby-version-file"@,
    {
        "ruby-version-file"
    }

    pub fn description(&self) -> (r: &'static str)
        ensures
            r@ == "Ruby version from .ruby-version"@,
    {
        "Ruby version from .ruby-version"
    }

    /// The file names (or name prefixes) the extractor reads.
    pub fn relevant_filenames(&self) -> (r: Vec<&'static str>)
        ensures
            strs_view(r@) == seq![".ruby-version"@],
    {
        let mut v: Vec<&'static str> = Vec::new();
        v.push(".ruby-version");
        assert(strs_view(v@) =~= seq![".ruby-version"@]);
        v
    }

    /// Whether the extractor reads a file of this name.
    pub fn matches_file(&self, filename: &str) -> (r: bool)
        ensures
            r == (matches_any_s(seq![".ruby-version"@], filename@)),
    {
        let ps = self.relevant_filenames();
        matches_any(ps.as_slice(), filename)
    }

    /// The concepts the extractor emits.
    pub fn concept_ids(&self) -> (r: Vec<String>)
        ensures
            r@.len() == 1,
            r@[0]@ == inferred_concept_s("ruby-version-file"@),
    {
        inferred_concept_ids(self.id())
    }
}

/// Ruby version from Gemfile.
pub struct GemfileExtractor;

impl GemfileExtractor {
    pub fn id(&self) -> (r: &'static str)
        ensures
            r@ == "ruby-version-gemfile"@,
    {
        "ruby-version-gemfile"
    }

    pub fn description(&self) -> (r: &'static str)
        ensures
            r@ == "Ruby version from Gemfile"@,
    {
        "Ruby version from Gemfile"
    }

    /// The file names (or name prefixes) the extractor reads.
    pub fn relevant_filenames(&self) -> (r: Vec<&'static str>)
        ensures
            strs_view(r@) == seq!["Gemfile"@],
    {
        let mut v: Vec<&'static str> = Vec::new();
        v.push("Gemfile");
        assert(strs_view(v@) =~= seq!["Gemfile"@]);
        v
    }

    /// Whether the extractor reads a file of this name.
    pub fn matches_file(&self, filename: &str) -> (r: bool)
        ensures
            r == (matches_any_s(seq!["Gemfile"@], filename@)),
    {
        let ps = self.relevant_filenames();
        matches_any(ps.as_slice(), filename)
    }

    /// The concepts the extractor emits.
    pub fn concept_ids(&self) -> (r: Vec<String>)
        ensures
            r@.len() == 1,
            r@[0]@ == inferred_concept_s("ruby-version-gemfile"@),
    {
        inferred_concept_ids(self.id())
    }
}

/// Ruby version from Dockerfile FROM ruby:*.
pub struct DockerfileRubyExtractor;

impl DockerfileRubyExtractor {
    pub fn id(&self) -> (r: &'static str)
        ensures
            r@ == "ruby-version-dockerfile"@,
    {
        "ruby-version-dockerfile"
    }

    pub fn description(&self) -> (r: &'static str)
        ensures
            r@ == "Ruby version from Dockerfile FROM ruby:*"@,
    {
        "Ruby version from Dockerfile FROM ruby:*"
    }

    /// The file names (or name prefixes) the extractor reads.
    pub fn relevant_filenames(&self) -> (r: Vec<&'static str>)
        ensures
            strs_view(r@) == seq!["Dockerfile"@],
    {
        let mut v: Vec<&'static str> = Vec::new();
        v.push("Dockerfile");
        assert(strs_view(v@) =~= seq!["Dockerfile"@]);
        v
    }

    /// Whether the extractor reads a file of this name.
    pub fn matches_file(&self, filename: &str) -> (r: bool)
        ensures
            r == (matches_any_s(seq!["Dockerfile"@], filename@)),
    {
        let ps = self.relevant_filenames();
        matches_any(ps.as_slice(), filename)
    }

    /// The concepts the extractor emits.
    pub fn concept_ids(&self) -> (r: Vec<String>)
        ensures
            r@.len() == 1,
            r@[0]@ == inferred_concept_s("ruby-version-dockerfile"@),
    {
        inferred_concept_ids(self.id())
    }
}

/// Ruby version from .tool-versions.
pub struct ToolVersionsRubyExtractor;

impl ToolVersionsRubyExtractor {
    pub fn id(&self) -> (r: &'static str)
        ensures
            r@ == "ruby-version-tool-versions"@,
    {
        "ruby-version-tool-versions"
    }

    pub fn description(&self) -> (r: &'static str)
        ensures
            r@ == "Ruby version from .tool-versions"@,
    {
        "Ruby version from .tool-versions"
    }

    /// The file names (or name prefixes) the extractor reads.
    pub fn relevant_filenames(&self) -> (r: Vec<&'static str>)
        ensures
            strs_view(r@) == seq![".tool-versions"@],
    {
        let mut v: Vec<&'static str> = Vec::new();
        v.push(".tool-versions");
        assert(strs_view(v@) =~= seq![".tool-versions"@]);
        v
    }

    /// Whether the extractor reads a file of this name.
    pub fn matches_file(&self, filename: &str) -> (r: bool)
        ensures
            r == (matches_any_s(seq![".tool-versions"@], filename@)),
    {
        let ps = self.relevant_filenames();
        matches_any(ps.as_slice(), filename)
    }

    /// The concepts the extractor emits.
    pub fn concept_ids(&self) -> (r: Vec<String>)
        ensures
            r@.len() == 1,
            r@[0]@ == inferred_concept_s("ruby-version-tool-versions"@),
    {
        inferred_concept_ids(self.id())
    }
}

/// Ruby version from CI config.
pub struct CiRubyExtractor;

impl CiRubyExtractor {
    pub fn id(&self) -> (r: &'static str)
        ensures
            r@ == "ruby-version-ci"@,
    {
        "ruby-version-ci"
    }

    pub fn description(&self) -> (r: &'static str)
        ensures
            r@ == "Ruby version from CI config"@,
    {
        "Ruby version from CI config"
    }

    /// The file names (or name prefixes) the extractor reads.
    pub fn relevant_filenames(&self) -> (r: Vec<&'static str>)
        ensures
            strs_view(r@) == Seq::<Seq<char>>::empty(),
    {
        let mut v: Vec<&'static str> = Vec::new();
        assert(strs_view(v@) =~= Seq::<Seq<char>>::empty());
        v
    }

    /// Whether the extractor reads a file of this name.
    pub fn matches_file(&self, filename: &str) -> (r: bool)
        ensures
            r == (ci_file_s(filename@)),
    {
        is_ci_file_name(filename)
    }

    /// The concepts the extractor emits.
    pub fn concept_ids(&self) -> (r: Vec<String>)
        ensures
            r@.len() == 1,
            r@[0]@ == inferred_concept_s("ruby-version-ci"@),
    {
        inferred_concept_ids(self.id())
    }
}

/// TypeScript strict mode from tsconfig.json.
pub struct TsconfigStrictExtractor;

impl TsconfigStrictExtractor {
    pub fn id(&self) -> (r: &'static str)
        ensures
            r@ == "ts-strict-tsconfig"@,
    {
        "ts-strict-tsconfig"
    }

    pub fn description(&self) -> (r: &'static str)
        ensures
            r@ == "TypeScript strict mode from tsconfig.json"@,
    {
        "TypeScript strict mode from tsconfig.json"
    }

    /// The file names (or name prefixes) the extractor reads.
    pub fn relevant_filenames(&self) -> (r: Vec<&'static str>)
        ensures
            strs_view(r@) == seq!["tsconfig"@],
    {
        let mut v: Vec<&'static str> = Vec::new();
        v.push("tsconfig");
        assert(strs_view(v@) =~= seq!["tsconfig"@]);
        v
    }

    /// Whether the extractor reads a file of this name.
    pub fn matches_file(&self, filename: &str) -> (r: bool)
        ensures
            r == (starts_with_s(filename@, "tsconfig"@) && ends_with_s(filename@, ".json"@)),
    {
        str_starts_with(filename, "tsconfig") && str_ends_with(filename, ".json")
    }

    /// The concepts the extractor emits.
    pub fn concept_ids(&self) -> (r: Vec<String>)
        ensures
            r@.len() == 1,
            r@[0]@ == inferred_concept_s("ts-strict-tsconfig"@),
    {
        inferred_concept_ids(self.id())
    }
}

/// TypeScript strict mode from ESLint config.
pub struct EslintStrictExtractor;

impl EslintStrictExtractor {
    pub fn id(&self) -> (r: &'static str)
        ensures
            r@ == "ts-strict-eslint"@,
    {
        "ts-strict-eslint"
    }

    pub fn description(&self) -> (r: &'static str)
        ensures
            r@ == "TypeScript strict mode from ESLint config"@,
    {
        "TypeScript strict mode from ESLint config"
    }

    /// The file names (or name prefixes) the extractor reads.
    pub fn relevant_filenames(&self) -> (r: Vec<&'static str>)
        ensures
            strs_view(r@) == seq![".eslintrc"@, "eslint.config."@],
    {
        let mut v: Vec<&'static str> = Vec::new();
        v.push(".eslintrc");
        v.push("eslint.config.");
        assert(strs_view(v@) =~= seq![".eslintrc"@, "eslint.config."@]);
        v
    }

    /// Whether the extractor reads a file of this name.
    pub fn matches_file(&self, filename: &str) -> (r: bool)
        ensures
            r == (starts_with_s(filename@, ".eslintrc"@) || starts_with_s(filename@, "eslint.config."@)),
    {
        str_starts_with(filename, ".eslintrc") || str_starts_with(filename, "eslint.config.")
    }

    /// The concepts the extractor emits.
    pub fn concept_ids(&self) -> (r: Vec<String>)
        ensures
            r@.len() == 1,
            r@[0]@ == inferred_concept_s("ts-strict-eslint"@),
    {
        inferred_concept_ids(self.id())
    }
}

/// Runtime versions from Terraform .tf files.
pub struct TerraformVersionExtractor;

impl TerraformVersionExtractor {
    pub fn id(&self) -> (r: &'static str)
        ensures
            r@ == "iac-terraform-version"@,
    {
        "iac-terraform-version"
    }

    pub fn description(&self) -> (r: &'static str)
        ensures
            r@ == "Runtime versions from Terraform .tf files"@,
    {
        "Runtime versions from Terraform .tf files"
    }

    /// The file names (or name prefixes) the extractor reads.
    pub fn relevant_filenames(&self) -> (r: Vec<&'static str>)
        ensures
            strs_view(r@) == seq![".tf"@],
    {
        let mut v: Vec<&'static str> = Vec::new();
        v.push(".tf");
        assert(strs_view(v@) =~= seq![".tf"@]);
        v
    }

    /// Whether the extractor reads a file of this name.
    pub fn matches_file(&self, filename: &str) -> (r: bool)
        ensures
            r == (ends_with_s(filename@, ".tf"@)),
    {
        str_ends_with(filename, ".tf")
    }

    /// The concepts the extractor emits.
    pub fn concept_ids(&self) -> (r: Vec<String>)
        ensures
            r@.map_values(|s: String| s@) == runtime_concepts(),
    {
        runtime_concept_ids()
    }
}

/// Ports from Terraform .tf files.
pub struct TerraformPortExtractor;

impl TerraformPortExtractor {
    pub fn id(&self) -> (r: &'static str)
        ensures
            r@ == "iac-terraform-port"@,
    {
        "iac-terraform-port"
    }

    pub fn description(&self) -> (r: &'static str)
        ensures
            r@ == "Ports from Terraform .tf files"@,
    {
        "Ports from Terraform .tf files"
    }

    /// The file names (or name prefixes) the extractor reads.
    pub fn relevant_filenames(&self) -> (r: Vec<&'static str>)
        ensures
            strs_view(r@) == seq![".tf"@],
    {
        let mut v: Vec<&'static str> = Vec::new();
        v.push(".tf");
        assert(strs_view(v@) =~= seq![".tf"@]);
        v
    }

    /// Whether the extractor reads a file of this name.
    pub fn matches_file(&self, filename: &str) -> (r: bool)
        ensures
            r == (ends_with_s(filename@, ".tf"@)),
    {
        str_ends_with(filename, ".tf")
    }

    /// The concepts the extractor emits.
    pub fn concept_ids(&self) -> (r: Vec<String>)
        ensures
            r@.map_values(|s: String| s@) == seq!["app-port"@],
    {
        port_concept_ids()
    }
}

/// Runtime versions from Kubernetes manifests.
pub struct KubernetesVersionExtractor;

impl KubernetesVersionExtractor {
    pub fn id(&self) -> (r: &'static str)
        ensures
            r@ == "iac-kubernetes-version"@,
    {
        "iac-kubernetes-version"
    }

    pub fn description(&self) -> (r: &'static str)
        ensures
            r@ == "Runtime versions from Kubernetes manifests"@,
    {
        "Runtime versions from Kubernetes manifests"
    }

    /// The file names (or name prefixes) the extractor reads.
    pub fn relevant_filenames(&self) -> (r: Vec<&'static str>)
        ensures
            strs_view(r@) == seq!["deployment"@, "statefulset"@, "job"@, "cronjob"@, "pod"@],
    {
        let mut v: Vec<&'static str> = Vec::new();
        v.push("deployment");
        v.push("statefulset");
        v.push("job");
        v.push("cronjob");
        v.push("pod");
        assert(strs_view(v@) =~= seq!["deployment"@, "statefulset"@, "job"@, "cronjob"@, "pod"@]);
        v
    }

    /// Whether the extractor reads a file of this name.
    pub fn matches_file(&self, filename: &str) -> (r: bool)
        ensures
            r == (k8s_name_s(unicode_lowercase(filename@))),
    {
        is_k8s_file_name(filename)
    }

    /// Whether the extractor reads the file, by its name and its path.
    pub fn matches_path(&self, filename: &str, path: &str) -> (r: bool)
        ensures
            r == k8s_path_match_s(filename@, path@),
    {
        k8s_path_match(filename, path)
    }

    /// The concepts the extractor emits.
    pub fn concept_ids(&self) -> (r: Vec<String>)
        ensures
            r@.map_values(|s: String| s@) == runtime_concepts(),
    {
        runtime_concept_ids()
    }
}

/// Ports from Kubernetes manifests.
pub struct KubernetesPortExtractor;

impl KubernetesPortExtractor {
    pub fn id(&self) -> (r: &'static str)
        ensures
            r@ == "iac-kubernetes-port"@,
    {
        "iac-kubernetes-port"
    }

    pub fn description(&self) -> (r: &'static str)
        ensures
            r@ == "Ports from Kubernetes manifests"@,
    {
        "Ports from Kubernetes manifests"
    }

    /// The file names (or name prefixes) the extractor reads.
    pub fn relevant_filenames(&self) -> (r: Vec<&'static str>)
        ensures
            strs_view(r@) == seq!["service"@, "deployment"@],
    {
        let mut v: Vec<&'static str> = Vec::new();
        v.push("service");
        v.push("deployment");
        assert(strs_view(v@) =~= seq!["service"@, "deployment"@]);
        v
    }

    /// Whether the extractor reads a file of this name.
    pub fn matches_file(&self, filename: &str) -> (r: bool)
        ensures
            r == (k8s_name_s(unicode_lowercase(filename@))),
    {
        is_k8s_file_name(filename)
    }

    /// Whether the extractor reads the file, by its name and its path.
    pub fn matches_path(&self, filename: &str, path: &str) -> (r: bool)
        ensures
            r == k8s_path_match_s(filename@, path@),
    {
        k8s_path_match(filename, path)
    }

    /// The concepts the extractor emits.
    pub fn concept_ids(&self) -> (r: Vec<String>)
        ensures
            r@.map_values(|s: String| s@) == seq!["app-port"@],
    {
        port_concept_ids()
    }
}

/// Runtime versions from Helm values.yaml.
pub struct HelmValuesVersionExtractor;

impl HelmValuesVersionExtractor {
    pub fn id(&self) -> (r: &'static str)
        ensures
            r@ == "iac-helm-version"@,
    {
        "iac-helm-version"
    }

    pub fn description(&self) -> (r: &'static str)
        ensures
            r@ == "Runtime versions from Helm values.yaml"@,
    {
        "Runtime versions from Helm values.yaml"
    }

    /// The file names (or name prefixes) the extractor reads.
    pub fn relevant_filenames(&self) -> (r: Vec<&'static str>)
        ensures
            strs_view(r@) == seq!["values.yaml"@, "values.yml"@],
    {
        let mut v: Vec<&'static str> = Vec::new();
        v.push("values.yaml");
        v.push("values.yml");
        assert(strs_view(v@) =~= seq!["values.yaml"@, "values.yml"@]);
        v
    }

    /// Whether the extractor reads a file of this name.
    pub fn matches_file(&self, filename: &str) -> (r: bool)
        ensures
            r == (helm_values_name_s(unicode_lowercase(filename@))),
    {
        is_helm_values_name(filename)
    }

    /// The concepts the extractor emits.
    pub fn concept_ids(&self) -> (r: Vec<String>)
        ensures
            r@.map_values(|s: String| s@) == runtime_concepts(),
    {
        runtime_concept_ids()
    }
}

/// Ports from Helm values.yaml.
pub struct HelmValuesPortExtractor;

impl HelmValuesPortExtractor {
    pub fn id(&self) -> (r: &'static str)
        ensures
            r@ == "iac-helm-port"@,
    {
        "iac-helm-port"
    }

    pub fn description(&self) -> (r: &'static str)
        ensures
            r@ == "Ports from Helm values.yaml"@,
    {
        "Ports from Helm values.yaml"
    }

    /// The file names (or name prefixes) the extractor reads.
    pub fn relevant_filenames(&self) -> (r: Vec<&'static str>)
        ensures
            strs_view(r@) == seq!["values.yaml"@, "values.yml"@],
    {
        let mut v: Vec<&'static str> = Vec::new();
        v.push("values.yaml");
        v.push("values.yml");
        assert(strs_view(v@) =~= seq!["values.yaml"@, "values.yml"@]);
        v
    }

    /// Whether the extractor reads a file of this name.
    pub fn matches_file(&self, filename: &str) -> (r: bool)
        ensures
            r == (helm_values_name_s(unicode_lowercase(filename@))),
    {
        is_helm_values_name(filename)
    }

    /// The concepts the extractor emits.
    pub fn concept_ids(&self) -> (r: Vec<String>)
        ensures
            r@.map_values(|s: String| s@) == seq!["app-port"@],
    {
        port_concept_ids()
    }
}

/// The (id, description) of each default extractor, in the order they run.
pub open spec fn default_extractor_rows() -> Seq<(Seq<char>, Seq<char>)> {
    seq![
        ("node-version-nvmrc"@, "Node.js version from .nvmrc"@),
        ("node-version-package-json"@, "Node.js version from package.json engines.node"@),
        ("node-version-dockerfile"@, "Node.js version from Dockerfile FROM node:*"@),
        ("node-version-ci"@, "Node.js version from CI config"@),
        ("node-version-tool-versions"@, "Node.js version from .tool-versions"@),
        ("python-version-file"@, "Python version from .python-version"@),
        ("python-version-pyproject"@, "Python version from pyproject.toml"@),
        ("python-version-dockerfile"@, "Python version from Dockerfile FROM python:*"@),
        ("python-version-ci"@, "Python version from CI config"@),
        ("go-version-gomod"@, "Go version from go.mod"@),
        ("go-version-dockerfile"@, "Go version from Dockerfile FROM golang:*"@),
        ("port-env"@, "Port from .env files"@),
        ("port-docker-compose"@, "Port from docker-compose.yml"@),
        ("port-dockerfile"@, "Port from Dockerfile EXPOSE"@),
        ("dotnet-version-csproj"@, ".NET version from .csproj TargetFramework"@),
        ("dotnet-version-global-json"@, ".NET SDK version from global.json"@),
        ("dotnet-version-dockerfile"@, ".NET version from Dockerfile FROM dotnet images"@),
        ("java-version-pom"@, "Java version from pom.xml maven.compiler.source/target"@),
        ("java-version-dockerfile"@, "Java version from Dockerfile FROM openjdk/temurin:*"@),
        ("java-version-sdkmanrc"@, "Java version from .sdkmanrc"@),
        ("java-version-tool-versions"@, "Java version from .tool-versions"@),
        ("java-version-ci"@, "Java version from CI config"@),
        ("ruby-version-file"@, "Ruby version from .ruby-version"@),
        ("ruby-version-gemfile"@, "Ruby version from Gemfile"@),
        ("ruby-version-dockerfile"@, "Ruby version from Dockerfile FROM ruby:*"@),
        ("ruby-version-ci"@, "Ruby version from CI config"@),
        ("ruby-version-tool-versions"@, "Ruby version from .tool-versions"@),
        ("ts-strict-tsconfig"@, "TypeScript strict mode from tsconfig.json"@),
        ("ts-strict-eslint"@, "TypeScript strict mode from ESLint config"@)
    ]
}

/// The lines listing extractors: the id padded to 40 characters, then the
/// description.
pub open spec fn listing_lines_s(rows: Seq<(Seq<char>, Seq<char>)>) -> Seq<char>
    decreases rows.len(),
{
    if rows.len() == 0 {
        Seq::empty()
    } else {
        listing_lines_s(rows.drop_last()) + "  "@ + pad_right_s(rows.last().0, 40) + " "@ + rows.last().1
            + "\n"@
    }
}

fn push_row(out: &mut String, id: &str, description: &str)
    ensures
        final(out)@ == old(out)@ + "  "@ + pad_right_s(id@, 40) + " "@ + description@ + "\n"@,
{
    push_str(out, "  ");
    push_pad_right(out, id, 40);
    push_str(out, " ");
    push_str(out, description);
    push_str(out, "\n");
}

/// The text that lists the available concepts: a title, then a line for
/// each default extractor, in order.
pub fn list_concepts_text() -> (r: String)
    ensures
        r@ == "Available concepts and extractors:\n\n"@ + listing_lines_s(default_extractor_rows()),
{
    let ghost rows = default_extractor_rows();
    let table: [(&'static str, &'static str); 29] = [
        (NvmrcExtractor.id(), NvmrcExtractor.description()),
        (PackageJsonNodeExtractor.id(), PackageJsonNodeExtractor.description()),
        (DockerfileNodeExtractor.id(), DockerfileNodeExtractor.description()),
        (CiNodeExtractor.id(), CiNodeExtractor.description()),
        (ToolVersionsNodeExtractor.id(), ToolVersionsNodeExtractor.description()),
        (PythonVersionFileExtractor.id(), PythonVersionFileExtractor.description()),
        (PyprojectExtractor.id(), PyprojectExtractor.description()),
        (DockerfilePythonExtractor.id(), DockerfilePythonExtractor.description()),
        (CiPythonExtractor.id(), CiPythonExtractor.description()),
        (GoModExtractor.id(), GoModExtractor.description()),
        (DockerfileGoExtractor.id(), DockerfileGoExtractor.description()),
        (EnvPortExtractor.id(), EnvPortExtractor.description()),
        (DockerComposePortExtractor.id(), DockerComposePortExtractor.description()),
        (DockerfilePortExtractor.id(), DockerfilePortExtractor.description()),
        (CsprojExtractor.id(), CsprojExtractor.description()),
        (GlobalJsonExtractor.id(), GlobalJsonExtractor.description()),
        (DockerfileDotnetExtractor.id(), DockerfileDotnetExtractor.description()),
        (PomXmlExtractor.id(), PomXmlExtractor.description()),
        (DockerfileJavaExtractor.id(), DockerfileJavaExtractor.description()),
        (SdkmanrcExtractor.id(), SdkmanrcExtractor.description()),
        (ToolVersionsJavaExtractor.id(), ToolVersionsJavaExtractor.description()),
        (CiJavaExtractor.id(), CiJavaExtractor.description()),
        (RubyVersionFileExtractor.id(), RubyVersionFileExtractor.description()),
        (GemfileExtractor.id(), GemfileExtractor.description()),
        (DockerfileRubyExtractor.id(), DockerfileRubyExtractor.description()),
        (CiRubyExtractor.id(), CiRubyExtractor.description()),
        (ToolVersionsRubyExtractor.id(), ToolVersionsRubyExtractor.description()),
        (TsconfigStrictExtractor.id(), TsconfigStrictExtractor.description()),
        (EslintStrictExtractor.id(), EslintStrictExtractor.description())
    ];
    assert(forall|k: int| 0 <= k < 29 ==> (#[trigger] table@[k]).0@ == rows[k].0 && table@[k].1@ == rows[k].1);
    let mut out = String::from_str("Available concepts and extractors:\n\n");
    let ghost head = out@;
    let mut k: usize = 0;
    while k < 29
        invariant
            k <= 29,
            rows == default_extractor_rows(),
            forall|j: int| 0 <= j < 29 ==> (#[trigger] table@[j]).0@ == rows[j].0 && table@[j].1@ == rows[j].1,
            out@ == head + listing_lines_s(rows.take(k as int)),
        decreases 29 - k,
    {
        let (id, description) = table[k];
        push_row(&mut out, id, description);
        proof {
            assert(rows.take(k + 1).drop_last() == rows.take(k as int));
            assert(rows.take(k + 1).last() == rows[k as int]);
        }
        k = k + 1;
    }
    assert(rows.take(29) == rows);
    out
}

} // verus!
