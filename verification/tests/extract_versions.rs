use conflic::extract::catalog::{
    DockerfileDotnetExtractor, GemfileExtractor, SdkmanrcExtractor, DockerfilePortExtractor, EnvPortExtractor, DockerfileNodeExtractor, DockerfileRubyExtractor, GoModExtractor, NvmrcExtractor, PythonVersionFileExtractor,
    RubyVersionFileExtractor, ToolVersionsJavaExtractor, ToolVersionsNodeExtractor, ToolVersionsRubyExtractor,
};
use conflic::extract::versions::{docker_authority, DockerKeyPathStrategy};
use conflic::model::{Authority, PortSpec, SemanticType, VersionSpec};
use conflic::parse::{DockerInstruction, EnvEntry, FileContent, ParsedFile};

fn plain(path: &str, text: &str) -> ParsedFile {
    ParsedFile { path: path.to_string(), content: FileContent::PlainText(text.to_string()), raw_text: text.to_string() }
}

fn from(line: usize, arguments: &str, stage: Option<&str>, is_final_stage: bool) -> DockerInstruction {
    DockerInstruction {
        instruction: "FROM".to_string(),
        arguments: arguments.to_string(),
        line,
        stage_name: stage.map(|s| s.to_string()),
        is_final_stage,
    }
}

fn dockerfile(instructions: Vec<DockerInstruction>) -> ParsedFile {
    ParsedFile { path: "Dockerfile".to_string(), content: FileContent::Dockerfile(instructions), raw_text: String::new() }
}

trait PortOf {
    fn value_port(&self) -> Option<PortSpec>;
}

impl PortOf for conflic::model::ConfigAssertion {
    fn value_port(&self) -> Option<PortSpec> {
        match &self.value {
            SemanticType::Port(p) => Some(*p),
            _ => None,
        }
    }
}

fn version_text(value: &SemanticType) -> String {
    match value {
        SemanticType::Version(v) => v.to_text(),
        other => panic!("expected a version, got {:?}", other),
    }
}

#[test]
fn nvmrc_drops_leading_v_but_keeps_raw_text() {
    let r = NvmrcExtractor.extract(&plain(".nvmrc", "v20.11.0"));
    assert_eq!(r.len(), 1);
    assert_eq!(r[0].raw_value, "v20.11.0");
    assert_eq!(version_text(&r[0].value), "20.11.0");
    assert_eq!(r[0].concept.id, "node-version");
    assert_eq!(r[0].authority, Authority::Advisory);
    assert_eq!(r[0].source.line, 1);
    assert_eq!(r[0].extractor_id, "node-version-nvmrc");
    assert!(NvmrcExtractor.extract(&plain(".nvmrc", "")).is_empty());
    let json = ParsedFile { path: ".nvmrc".into(), content: FileContent::Json(serde_json::Value::Null), raw_text: String::new() };
    assert!(NvmrcExtractor.extract(&json).is_empty());
}

#[test]
fn version_files_of_ruby_and_python() {
    let r = RubyVersionFileExtractor.extract(&plain(".ruby-version", "ruby-3.2.2"));
    assert_eq!(version_text(&r[0].value), "3.2.2");
    assert_eq!(r[0].raw_value, "ruby-3.2.2");
    let p = PythonVersionFileExtractor.extract(&plain(".python-version", "3.12.1"));
    assert_eq!(version_text(&p[0].value), "3.12.1");
    assert_eq!(p[0].concept.id, "python-version");
}

#[test]
fn dockerfile_node_versions_follow_stages() {
    let file = dockerfile(vec![
        from(1, "node:20-alpine AS build", Some("build"), false),
        from(5, "nginx:1.25", None, false),
        DockerInstruction {
            instruction: "RUN".into(),
            arguments: "node:18".into(),
            line: 6,
            stage_name: None,
            is_final_stage: true,
        },
        from(9, "node:22.1.0", None, true),
    ]);
    let r = DockerfileNodeExtractor.extract(&file);
    assert_eq!(r.len(), 2);
    assert_eq!(r[0].source.key_path, "FROM (stage: build)");
    assert_eq!(r[0].authority, Authority::Advisory);
    assert_eq!(r[0].raw_value, "node:20-alpine AS build");
    assert!(matches!(&r[0].value, SemanticType::Version(VersionSpec::DockerTag { .. })));
    assert_eq!(r[1].source.key_path, "FROM");
    assert_eq!(r[1].authority, Authority::Enforced);
    assert_eq!(r[1].source.line, 9);
    assert_eq!(version_text(&r[1].value), "22.1.0");
    let ruby = DockerfileRubyExtractor.extract(&dockerfile(vec![from(2, "ruby:3.2 AS base", Some("base"), true)]));
    assert_eq!(ruby.len(), 1);
    assert_eq!(ruby[0].source.key_path, "FROM");
    assert!(DockerfileNodeExtractor.extract(&plain("Dockerfile", "FROM node:20")).is_empty());
}

#[test]
fn docker_key_paths_and_authority() {
    let x = from(1, "node:20", Some("deps"), false);
    assert_eq!(DockerKeyPathStrategy::StageAwareFrom.key_path(&x), "FROM (stage: deps)");
    assert_eq!(DockerKeyPathStrategy::From.key_path(&x), "FROM");
    assert_eq!(docker_authority(&x), Authority::Advisory);
    assert_eq!(docker_authority(&from(1, "node:20", None, true)), Authority::Enforced);
}

#[test]
fn tool_versions_lines() {
    let text = "python 3.12.1\n  nodejs 20.11.0  \nruby 3.3.0\njava temurin-21\n";
    let node = ToolVersionsNodeExtractor.extract(&plain(".tool-versions", text));
    assert_eq!(node.len(), 1);
    assert_eq!(node[0].raw_value, "20.11.0");
    assert_eq!(node[0].source.line, 2);
    assert_eq!(node[0].source.key_path, "nodejs");
    let ruby = ToolVersionsRubyExtractor.extract(&plain(".tool-versions", text));
    assert_eq!(ruby[0].raw_value, "3.3.0");
    assert_eq!(ruby[0].source.line, 3);
    let java = ToolVersionsJavaExtractor.extract(&plain(".tool-versions", text));
    assert_eq!(java[0].raw_value, "temurin-21");
    assert_eq!(java[0].source.line, 4);
    assert!(ToolVersionsNodeExtractor.extract(&plain(".tool-versions", "nodejs\n")).is_empty());
}

#[test]
fn go_mod_directive() {
    let text = "module example.com/app\n\ngo 1.22.1\n\ntoolchain go1.22.3\n";
    let r = GoModExtractor.extract(&plain("go.mod", text));
    assert_eq!(r.len(), 1);
    assert_eq!(r[0].raw_value, "1.22.1");
    assert_eq!(r[0].source.line, 3);
    assert_eq!(r[0].authority, Authority::Declared);
    assert!(GoModExtractor.extract(&plain("go.mod", "module x\n")).is_empty());
}

fn env(key: &str, value: &str, line: usize) -> EnvEntry {
    EnvEntry { key: key.to_string(), value: value.to_string(), line }
}

#[test]
fn env_ports_by_key_with_defaults() {
    let file = ParsedFile {
        path: ".env".to_string(),
        content: FileContent::Env(vec![
            env("port", "3000", 1),
            env("DATABASE_URL", "postgres://x:5432", 2),
            env("APP_PORT", "${APP_PORT:-8080}", 3),
            env("SERVER_PORT", "not-a-port", 4),
        ]),
        raw_text: String::new(),
    };
    let r = EnvPortExtractor.extract(&file);
    assert_eq!(r.len(), 2);
    assert_eq!(r[0].value_port(), Some(PortSpec::Single(3000)));
    assert_eq!(r[0].source.key_path, "port");
    assert_eq!(r[1].raw_value, "${APP_PORT:-8080}");
    assert_eq!(r[1].value_port(), Some(PortSpec::Single(8080)));
    assert_eq!(r[1].source.line, 3);
    assert_eq!(r[1].authority, Authority::Declared);
    assert!(EnvPortExtractor.extract(&dockerfile(vec![])).is_empty());
}

#[test]
fn expose_lines_give_one_port_per_token() {
    let expose = DockerInstruction {
        instruction: "EXPOSE".into(),
        arguments: "3000 8080/tcp  9000-9010/udp http".into(),
        line: 7,
        stage_name: None,
        is_final_stage: true,
    };
    let r = DockerfilePortExtractor.extract(&dockerfile(vec![from(1, "node:20", None, true), expose]));
    assert_eq!(r.len(), 3);
    assert_eq!(r[0].raw_value, "3000");
    assert_eq!(r[1].raw_value, "8080/tcp");
    assert_eq!(r[1].value_port(), Some(PortSpec::Single(8080)));
    assert_eq!(r[2].value_port(), Some(PortSpec::Range(9000, 9010)));
    assert!(r.iter().all(|a| a.source.line == 7 && a.source.key_path == "EXPOSE" && a.extractor_id == "port-dockerfile"));
}

fn custom(value_type: &str, source: conflic::config::CustomSourceConfig) -> conflic::extract::custom::CustomExtractor {
    conflic::extract::custom::CustomExtractor::new(conflic::config::CustomExtractorConfig {
        concept: "redis-port".into(),
        display_name: "Redis Port".into(),
        category: "port".into(),
        value_type: value_type.into(),
        source: vec![source],
    })
}

fn source(format: &str, key: Option<&str>, pattern: Option<&str>) -> conflic::config::CustomSourceConfig {
    conflic::config::CustomSourceConfig {
        file: ".env".into(),
        format: format.into(),
        path: None,
        key: key.map(|k| k.to_string()),
        pattern: pattern.map(|p| p.to_string()),
        authority: "declared".into(),
    }
}

#[test]
fn custom_values_are_typed_by_value_type() {
    let s = source("env", None, None);
    assert_eq!(custom("port", s.clone()).parse_value("6379").to_text(), "6379");
    assert!(matches!(custom("port", s.clone()).parse_value("abc"), SemanticType::StringValue(_)));
    assert!(matches!(custom("boolean", s.clone()).parse_value("Yes"), SemanticType::Boolean(true)));
    assert!(matches!(custom("version", s.clone()).parse_value("7.2.4"), SemanticType::Version(VersionSpec::Exact(_))));
    assert!(matches!(custom("string", s).parse_value("7.2.4"), SemanticType::StringValue(_)));
}

#[test]
fn custom_extraction_from_env_plain_and_dockerfile() {
    let env_file = ParsedFile {
        path: ".env".into(),
        content: FileContent::Env(vec![env("REDIS_URL", "nothing here", 1), env("REDIS_URL", "redis://cache:6380", 4)]),
        raw_text: String::new(),
    };
    let ext = custom("port", source("env", Some("REDIS_URL"), Some(r":(\d+)$")));
    let r = ext.extract_from_env(&ext.config.source[0], &env_file, Authority::Declared);
    assert_eq!(r.len(), 1);
    assert_eq!(r[0].raw_value, "6380");
    assert_eq!(r[0].source.line, 4);
    assert_eq!(r[0].source.key_path, "REDIS_URL");
    assert_eq!(r[0].extractor_id, "redis-port");
    assert_eq!(r[0].value_port(), Some(PortSpec::Single(6380)));
    let no_key = custom("port", source("env", None, None));
    assert!(no_key.extract_from_env(&no_key.config.source[0], &env_file, Authority::Declared).is_empty());

    let plain_ext = custom("version", source("plain", None, None));
    let p = plain_ext.extract_from_plain(&plain(".redis-version", "  7.2.4\n"), Authority::Advisory);
    assert_eq!(p.len(), 1);
    assert_eq!(p[0].raw_value, "7.2.4");
    assert!(plain_ext.extract_from_plain(&plain(".redis-version", " \n"), Authority::Advisory).is_empty());

    let docker_ext = custom("version", source("dockerfile", None, Some("redis:(.*)")));
    let d = docker_ext.extract_from_dockerfile(
        &docker_ext.config.source[0],
        &dockerfile(vec![from(1, "node:20", None, false), from(3, "redis:7.2", None, true)]),
        Authority::Enforced,
    );
    assert_eq!(d.len(), 1);
    assert_eq!(d[0].raw_value, "7.2");
    assert_eq!(d[0].source.line, 3);
    assert_eq!(d[0].source.key_path, "FROM");
}

#[test]
fn gemfile_and_sdkmanrc_lines() {
    let gem = "source 'https://rubygems.org'\n  ruby '3.2.2'\ngem 'rails'\n";
    let r = GemfileExtractor.extract(&plain("Gemfile", gem));
    assert_eq!(r.len(), 1);
    assert_eq!(r[0].raw_value, "3.2.2");
    assert_eq!(r[0].source.line, 2);
    assert_eq!(r[0].authority, Authority::Declared);
    let sdk = "# comment\njava = 21.0.2-tem  \n";
    let j = SdkmanrcExtractor.extract(&plain(".sdkmanrc", sdk));
    assert_eq!(j.len(), 1);
    assert_eq!(j[0].raw_value, "21.0.2-tem");
    assert_eq!(j[0].source.line, 2);
    assert!(SdkmanrcExtractor.extract(&plain(".sdkmanrc", "maven=3.9\n")).is_empty());
}

#[test]
fn dotnet_images_of_microsoft_registry() {
    let file = dockerfile(vec![
        from(1, "mcr.microsoft.com/dotnet/sdk:8.0 AS build", Some("build"), false),
        from(8, "mcr.microsoft.com/dotnet/aspnet:8.0-alpine", None, true),
        from(9, "mcr.microsoft.com/dotnet/monitor:8", None, true),
    ]);
    let r = DockerfileDotnetExtractor.extract(&file);
    assert_eq!(r.len(), 2);
    assert_eq!(r[0].concept.id, "dotnet-version");
    assert_eq!(r[0].authority, Authority::Advisory);
    assert_eq!(r[0].raw_value, "mcr.microsoft.com/dotnet/sdk:8.0 AS build");
    assert_eq!(r[1].authority, Authority::Enforced);
    assert!(matches!(&r[1].value, SemanticType::Version(VersionSpec::DockerTag { .. })));
}
