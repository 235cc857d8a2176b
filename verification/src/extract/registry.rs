//! The default extractors, in the order they run.
use vstd::prelude::*;
use super::catalog::{default_extractor_rows, NvmrcExtractor, PackageJsonNodeExtractor, DockerfileNodeExtractor, CiNodeExtractor, ToolVersionsNodeExtractor, PythonVersionFileExtractor, PyprojectExtractor, DockerfilePythonExtractor, CiPythonExtractor, GoModExtractor, DockerfileGoExtractor, EnvPortExtractor, DockerComposePortExtractor, DockerfilePortExtractor, CsprojExtractor, GlobalJsonExtractor, DockerfileDotnetExtractor, PomXmlExtractor, DockerfileJavaExtractor, SdkmanrcExtractor, ToolVersionsJavaExtractor, CiJavaExtractor, RubyVersionFileExtractor, GemfileExtractor, DockerfileRubyExtractor, CiRubyExtractor, ToolVersionsRubyExtractor, TsconfigStrictExtractor, EslintStrictExtractor};

verus! {

/// A built-in extractor.
#[derive(Debug, Clone, Copy, PartialEq, Eq, Structural)]
pub enum BuiltinExtractor {
    Nvmrc,
    PackageJsonNode,
    DockerfileNode,
    CiNode,
    ToolVersionsNode,
    PythonVersionFile,
    Pyproject,
    DockerfilePython,
    CiPython,
    GoMod,
    DockerfileGo,
    EnvPort,
    DockerComposePort,
    DockerfilePort,
    Csproj,
    GlobalJson,
    DockerfileDotnet,
    PomXml,
    DockerfileJava,
    Sdkmanrc,
    ToolVersionsJava,
    CiJava,
    RubyVersionFile,
    Gemfile,
    DockerfileRuby,
    CiRuby,
    ToolVersionsRuby,
    TsconfigStrict,
    EslintStrict,
}

impl BuiltinExtractor {
    /// The extractor's id.
    pub open spec fn id_s(self) -> Seq<char> {
        match self {
            BuiltinExtractor::Nvmrc => "node-version-nvmrc"@,
            BuiltinExtractor::PackageJsonNode => "node-version-package-json"@,
            BuiltinExtractor::DockerfileNode => "node-version-dockerfile"@,
            BuiltinExtractor::CiNode => "node-version-ci"@,
            BuiltinExtractor::ToolVersionsNode => "node-version-tool-versions"@,
            BuiltinExtractor::PythonVersionFile => "python-version-file"@,
            BuiltinExtractor::Pyproject => "python-version-pyproject"@,
            BuiltinExtractor::DockerfilePython => "python-version-dockerfile"@,
            BuiltinExtractor::CiPython => "python-version-ci"@,
            BuiltinExtractor::GoMod => "go-version-gomod"@,
            BuiltinExtractor::DockerfileGo => "go-version-dockerfile"@,
            BuiltinExtractor::EnvPort => "port-env"@,
            BuiltinExtractor::DockerComposePort => "port-docker-compose"@,
            BuiltinExtractor::DockerfilePort => "port-dockerfile"@,
            BuiltinExtractor::Csproj => "dotnet-version-csproj"@,
            BuiltinExtractor::GlobalJson => "dotnet-version-global-json"@,
            BuiltinExtractor::DockerfileDotnet => "dotnet-version-dockerfile"@,
            BuiltinExtractor::PomXml => "java-version-pom"@,
            BuiltinExtractor::DockerfileJava => "java-version-dockerfile"@,
            BuiltinExtractor::Sdkmanrc => "java-version-sdkmanrc"@,
            BuiltinExtractor::ToolVersionsJava => "java-version-tool-versions"@,
            BuiltinExtractor::CiJava => "java-version-ci"@,
            BuiltinExtractor::RubyVersionFile => "ruby-version-file"@,
            BuiltinExtractor::Gemfile => "ruby-version-gemfile"@,
            BuiltinExtractor::DockerfileRuby => "ruby-version-dockerfile"@,
            BuiltinExtractor::CiRuby => "ruby-version-ci"@,
            BuiltinExtractor::ToolVersionsRuby => "ruby-version-tool-versions"@,
            BuiltinExtractor::TsconfigStrict => "ts-strict-tsconfig"@,
            BuiltinExtractor::EslintStrict => "ts-strict-eslint"@,
        }
    }

    /// The extractor's description.
    pub open spec fn description_s(self) -> Seq<char> {
        match self {
            BuiltinExtractor::Nvmrc => "Node.js version from .nvmrc"@,
            BuiltinExtractor::PackageJsonNode => "Node.js version from package.json engines.node"@,
            BuiltinExtractor::DockerfileNode => "Node.js version from Dockerfile FROM node:*"@,
            BuiltinExtractor::CiNode => "Node.js version from CI config"@,
            BuiltinExtractor::ToolVersionsNode => "Node.js version from .tool-versions"@,
            BuiltinExtractor::PythonVersionFile => "Python version from .python-version"@,
            BuiltinExtractor::Pyproject => "Python version from pyproject.toml"@,
            BuiltinExtractor::DockerfilePython => "Python version from Dockerfile FROM python:*"@,
            BuiltinExtractor::CiPython => "Python version from CI config"@,
            BuiltinExtractor::GoMod => "Go version from go.mod"@,
            BuiltinExtractor::DockerfileGo => "Go version from Dockerfile FROM golang:*"@,
            BuiltinExtractor::EnvPort => "Port from .env files"@,
            BuiltinExtractor::DockerComposePort => "Port from docker-compose.yml"@,
            BuiltinExtractor::DockerfilePort => "Port from Dockerfile EXPOSE"@,
            BuiltinExtractor::Csproj => ".NET version from .csproj TargetFramework"@,
            BuiltinExtractor::GlobalJson => ".NET SDK version from global.json"@,
            BuiltinExtractor::DockerfileDotnet => ".NET version from Dockerfile FROM dotnet images"@,
            BuiltinExtractor::PomXml => "Java version from pom.xml maven.compiler.source/target"@,
            BuiltinExtractor::DockerfileJava => "Java version from Dockerfile FROM openjdk/temurin:*"@,
            BuiltinExtractor::Sdkmanrc => "Java version from .sdkmanrc"@,
            BuiltinExtractor::ToolVersionsJava => "Java version from .tool-versions"@,
            BuiltinExtractor::CiJava => "Java version from CI config"@,
            BuiltinExtractor::RubyVersionFile => "Ruby version from .ruby-version"@,
            BuiltinExtractor::Gemfile => "Ruby version from Gemfile"@,
            BuiltinExtractor::DockerfileRuby => "Ruby version from Dockerfile FROM ruby:*"@,
            BuiltinExtractor::CiRuby => "Ruby version from CI config"@,
            BuiltinExtractor::ToolVersionsRuby => "Ruby version from .tool-versions"@,
            BuiltinExtractor::TsconfigStrict => "TypeScript strict mode from tsconfig.json"@,
            BuiltinExtractor::EslintStrict => "TypeScript strict mode from ESLint config"@,
        }
    }

    /// The extractor's id.
    pub fn id(&self) -> (r: &'static str)
        ensures
            r@ == self.id_s(),
    {
        match self {
            BuiltinExtractor::Nvmrc => NvmrcExtractor.id(),
            BuiltinExtractor::PackageJsonNode => PackageJsonNodeExtractor.id(),
            BuiltinExtractor::DockerfileNode => DockerfileNodeExtractor.id(),
            BuiltinExtractor::CiNode => CiNodeExtractor.id(),
            BuiltinExtractor::ToolVersionsNode => ToolVersionsNodeExtractor.id(),
            BuiltinExtractor::PythonVersionFile => PythonVersionFileExtractor.id(),
            BuiltinExtractor::Pyproject => PyprojectExtractor.id(),
            BuiltinExtractor::DockerfilePython => DockerfilePythonExtractor.id(),
            BuiltinExtractor::CiPython => CiPythonExtractor.id(),
            BuiltinExtractor::GoMod => GoModExtractor.id(),
            BuiltinExtractor::DockerfileGo => DockerfileGoExtractor.id(),
            BuiltinExtractor::EnvPort => EnvPortExtractor.id(),
            BuiltinExtractor::DockerComposePort => DockerComposePortExtractor.id(),
            BuiltinExtractor::DockerfilePort => DockerfilePortExtractor.id(),
            BuiltinExtractor::Csproj => CsprojExtractor.id(),
            BuiltinExtractor::GlobalJson => GlobalJsonExtractor.id(),
            BuiltinExtractor::DockerfileDotnet => DockerfileDotnetExtractor.id(),
            BuiltinExtractor::PomXml => PomXmlExtractor.id(),
            BuiltinExtractor::DockerfileJava => DockerfileJavaExtractor.id(),
            BuiltinExtractor::Sdkmanrc => SdkmanrcExtractor.id(),
            BuiltinExtractor::ToolVersionsJava => ToolVersionsJavaExtractor.id(),
            BuiltinExtractor::CiJava => CiJavaExtractor.id(),
            BuiltinExtractor::RubyVersionFile => RubyVersionFileExtractor.id(),
            BuiltinExtractor::Gemfile => GemfileExtractor.id(),
            BuiltinExtractor::DockerfileRuby => DockerfileRubyExtractor.id(),
            BuiltinExtractor::CiRuby => CiRubyExtractor.id(),
            BuiltinExtractor::ToolVersionsRuby => ToolVersionsRubyExtractor.id(),
            BuiltinExtractor::TsconfigStrict => TsconfigStrictExtractor.id(),
            BuiltinExtractor::EslintStrict => EslintStrictExtractor.id(),
        }
    }

    /// The extractor's description.
    pub fn description(&self) -> (r: &'static str)
        ensures
            r@ == self.description_s(),
    {
        match self {
            BuiltinExtractor::Nvmrc => NvmrcExtractor.description(),
            BuiltinExtractor::PackageJsonNode => PackageJsonNodeExtractor.description(),
            BuiltinExtractor::DockerfileNode => DockerfileNodeExtractor.description(),
            BuiltinExtractor::CiNode => CiNodeExtractor.description(),
            BuiltinExtractor::ToolVersionsNode => ToolVersionsNodeExtractor.description(),
            BuiltinExtractor::PythonVersionFile => PythonVersionFileExtractor.description(),
            BuiltinExtractor::Pyproject => PyprojectExtractor.description(),
            BuiltinExtractor::DockerfilePython => DockerfilePythonExtractor.description(),
            BuiltinExtractor::CiPython => CiPythonExtractor.description(),
            BuiltinExtractor::GoMod => GoModExtractor.description(),
            BuiltinExtractor::DockerfileGo => DockerfileGoExtractor.description(),
            BuiltinExtractor::EnvPort => EnvPortExtractor.description(),
            BuiltinExtractor::DockerComposePort => DockerComposePortExtractor.description(),
            BuiltinExtractor::DockerfilePort => DockerfilePortExtractor.description(),
            BuiltinExtractor::Csproj => CsprojExtractor.description(),
            BuiltinExtractor::GlobalJson => GlobalJsonExtractor.description(),
            BuiltinExtractor::DockerfileDotnet => DockerfileDotnetExtractor.description(),
            BuiltinExtractor::PomXml => PomXmlExtractor.description(),
            BuiltinExtractor::DockerfileJava => DockerfileJavaExtractor.description(),
            BuiltinExtractor::Sdkmanrc => SdkmanrcExtractor.description(),
            BuiltinExtractor::ToolVersionsJava => ToolVersionsJavaExtractor.description(),
            BuiltinExtractor::CiJava => CiJavaExtractor.description(),
            BuiltinExtractor::RubyVersionFile => RubyVersionFileExtractor.description(),
            BuiltinExtractor::Gemfile => GemfileExtractor.description(),
            BuiltinExtractor::DockerfileRuby => DockerfileRubyExtractor.description(),
            BuiltinExtractor::CiRuby => CiRubyExtractor.description(),
            BuiltinExtractor::ToolVersionsRuby => ToolVersionsRubyExtractor.description(),
            BuiltinExtractor::TsconfigStrict => TsconfigStrictExtractor.description(),
            BuiltinExtractor::EslintStrict => EslintStrictExtractor.description(),
        }
    }
}

/// The default extractors, in the order they run: their ids and
/// descriptions are the rows of `default_extractor_rows`.
pub fn default_extractors() -> (r: Vec<BuiltinExtractor>)
    ensures
        r@.len() == default_extractor_rows().len(),
        forall|k: int|
            0 <= k < r@.len() ==> (#[trigger] r@[k]).id_s() == default_extractor_rows()[k].0 && r@[k].description_s()
                == default_extractor_rows()[k].1,
{
    let mut v: Vec<BuiltinExtractor> = Vec::new();
    v.push(BuiltinExtractor::Nvmrc);
    v.push(BuiltinExtractor::PackageJsonNode);
    v.push(BuiltinExtractor::DockerfileNode);
    v.push(BuiltinExtractor::CiNode);
    v.push(BuiltinExtractor::ToolVersionsNode);
    v.push(BuiltinExtractor::PythonVersionFile);
    v.push(BuiltinExtractor::Pyproject);
    v.push(BuiltinExtractor::DockerfilePython);
    v.push(BuiltinExtractor::CiPython);
    v.push(BuiltinExtractor::GoMod);
    v.push(BuiltinExtractor::DockerfileGo);
    v.push(BuiltinExtractor::EnvPort);
    v.push(BuiltinExtractor::DockerComposePort);
    v.push(BuiltinExtractor::DockerfilePort);
    v.push(BuiltinExtractor::Csproj);
    v.push(BuiltinExtractor::GlobalJson);
    v.push(BuiltinExtractor::DockerfileDotnet);
    v.push(BuiltinExtractor::PomXml);
    v.push(BuiltinExtractor::DockerfileJava);
    v.push(BuiltinExtractor::Sdkmanrc);
    v.push(BuiltinExtractor::ToolVersionsJava);
    v.push(BuiltinExtractor::CiJava);
    v.push(BuiltinExtractor::RubyVersionFile);
    v.push(BuiltinExtractor::Gemfile);
    v.push(BuiltinExtractor::DockerfileRuby);
    v.push(BuiltinExtractor::CiRuby);
    v.push(BuiltinExtractor::ToolVersionsRuby);
    v.push(BuiltinExtractor::TsconfigStrict);
    v.push(BuiltinExtractor::EslintStrict);
    v
}

} // verus!
