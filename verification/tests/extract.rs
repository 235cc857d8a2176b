use conflic::config::{CustomExtractorConfig, CustomSourceConfig};
use conflic::extract::catalog::{
    CiNodeExtractor, DockerComposePortExtractor, EnvPortExtractor, HelmValuesVersionExtractor,
    KubernetesVersionExtractor, NvmrcExtractor, TerraformVersionExtractor, TsconfigStrictExtractor,
};
use conflic::extract::custom::{apply_pattern, CustomExtractor};
use conflic::extract::dotnet_version::parse_dotnet_framework;
use conflic::extract::python_version::parse_python_requires;
use conflic::model::parse_version;
use conflic::extract::image::{extract_docker_image_version, find_line_in_text, is_k8s_manifest_name, split_image_tag};
use conflic::extract::inferred_concept_ids;
use conflic::extract::port::{
    parse_compose_long_form_port, parse_compose_port_entry, parse_compose_short_port,
    resolve_env_default, split_compose_port_segments, ComposePortEntry, ComposePortMapping,
    ComposePortValue,
};
use conflic::extract::runtime::{
    extract_dotnet_version, extract_go_version, extract_java_version, extract_nodejs_version,
    extract_python_version, extract_ruby_version, is_ci_config_path, line_value_for_tool,
    PlainTextNormalizer, RuntimeVersionKind,
};
use conflic::model::{ConceptCategory, PortSpec};

fn some_pair(a: &str, b: &str) -> Option<(String, String)> {
    Some((a.to_string(), b.to_string()))
}

#[test]
fn test_split_image_tag() {
    assert_eq!(split_image_tag("node:20"), some_pair("node", "20"));
    assert_eq!(split_image_tag("python:3.12-slim"), some_pair("python", "3.12-slim"));
    assert_eq!(split_image_tag("myapp"), None);
    assert_eq!(split_image_tag("myapp@sha256:abc"), None);
}

#[test]
fn split_image_tag_uses_the_last_colon() {
    assert_eq!(split_image_tag("registry:5000/node:20"), some_pair("registry:5000/node", "20"));
    assert_eq!(split_image_tag("node:"), None);
}

#[test]
fn docker_image_version_matches_the_image_basename() {
    assert_eq!(extract_docker_image_version("node:22-alpine AS build", "node"), Some("22-alpine".to_string()));
    assert_eq!(extract_docker_image_version("  docker.io/library/node:20", "node"), Some("20".to_string()));
    assert_eq!(extract_docker_image_version("python:3.12", "node"), None);
    assert_eq!(extract_docker_image_version("node", "node"), None);
    assert_eq!(extract_docker_image_version("   ", "node"), None);
}

#[test]
fn kubernetes_manifest_names() {
    assert!(is_k8s_manifest_name("app-deployment.yaml"));
    assert!(is_k8s_manifest_name("cronjob.yml"));
    assert!(!is_k8s_manifest_name("values.yaml"));
}

#[test]
fn line_of_first_occurrence() {
    assert_eq!(find_line_in_text("a: 1\nimage: node:20\nimage: node:20\n", "node:20"), 2);
    assert_eq!(find_line_in_text("a\r\nb\r\n", "b"), 2);
    assert_eq!(find_line_in_text("a\nb\n", "zzz"), 1);
}

#[test]
fn lambda_runtime_versions() {
    assert_eq!(extract_nodejs_version("nodejs20.x"), Some("20".to_string()));
    assert_eq!(extract_python_version("python3.12"), Some("3.12".to_string()));
    assert_eq!(extract_java_version("java21"), Some("21".to_string()));
    assert_eq!(extract_ruby_version("ruby3.3"), Some("3.3".to_string()));
    assert_eq!(extract_go_version("go1.x"), Some("1".to_string()));
    assert_eq!(extract_go_version("provided.al2023"), None);
    assert_eq!(extract_dotnet_version("dotnet8"), Some("8".to_string()));
    assert_eq!(extract_dotnet_version("dotnetcore3.1"), Some("3.1".to_string()));
    assert_eq!(extract_dotnet_version("dotnetx"), None);
}

#[test]
fn tool_versions_line_values() {
    assert_eq!(line_value_for_tool("nodejs 20.11.0", &["node", "nodejs"]), Some("20.11.0".to_string()));
    assert_eq!(line_value_for_tool("  ruby   3.3.0  # pinned", &["ruby"]), Some("3.3.0".to_string()));
    assert_eq!(line_value_for_tool("python 3.12", &["node"]), None);
    assert_eq!(line_value_for_tool("nodejs", &["nodejs"]), None);
}

#[test]
fn ci_config_paths() {
    assert!(is_ci_config_path(".github/workflows/ci.yml"));
    assert!(is_ci_config_path("/repo/.circleci/config.yml"));
    assert!(is_ci_config_path("sub/.gitlab-ci.yml"));
    assert!(!is_ci_config_path(".github/actions/setup.yml"));
    assert!(!is_ci_config_path("workflows/.github"));
    assert!(is_ci_config_path(".gitlab-ci/build.yml"));
    assert!(!is_ci_config_path("repo/.gitlab-ci"));
}

#[test]
fn runtime_kinds_and_normalizers() {
    assert_eq!(RuntimeVersionKind::Ruby.concept().id, "ruby-version");
    assert_eq!(PlainTextNormalizer::StripPrefixChar('v').normalize("v20.1"), "20.1");
    assert_eq!(PlainTextNormalizer::StripPrefix("ruby-").normalize("ruby-3.3"), "3.3");
    assert_eq!(PlainTextNormalizer::Identity.normalize("x"), "x");
}

#[test]
fn test_parse_compose_short_range_mapping_as_container_range() {
    let (_, port, _) = parse_compose_port_entry(&ComposePortEntry::Scalar("9090-9091:8080-8081".into()))
        .expect("port should parse");
    assert_eq!(port, PortSpec::Range(8080, 8081));
}

#[test]
fn test_parse_compose_short_host_range_single_container_port() {
    let (_, port, _) =
        parse_compose_port_entry(&ComposePortEntry::Scalar("8000-9000:80".into())).expect("port should parse");
    assert_eq!(port, PortSpec::Single(80));
}

#[test]
fn test_parse_compose_short_host_ip_range_mapping() {
    let (_, port, _) = parse_compose_port_entry(&ComposePortEntry::Scalar("127.0.0.1:5000-5010:5000-5010".into()))
        .expect("port should parse");
    assert_eq!(port, PortSpec::Range(5000, 5010));
}

#[test]
fn test_parse_compose_short_host_ip_without_host_port_is_rejected() {
    assert!(
        parse_compose_port_entry(&ComposePortEntry::Scalar("127.0.0.1:8080".into())).is_none(),
        "host IP bindings still require a published host port in Compose short syntax"
    );
}

#[test]
fn compose_short_ports_with_ipv6_and_protocol() {
    assert_eq!(
        parse_compose_short_port("[::1]:3000:8080/tcp"),
        Some(PortSpec::Mapping { host: 3000, container: 8080 })
    );
    assert_eq!(parse_compose_short_port("8080"), Some(PortSpec::Single(8080)));
    let segs: Vec<String> = split_compose_port_segments(&"[::1]: 80 :90".chars().collect::<Vec<_>>())
        .into_iter()
        .map(|s| s.into_iter().collect())
        .collect();
    assert_eq!(segs, vec!["[::1]".to_string(), "80".to_string(), "90".to_string()]);
}

#[test]
fn compose_number_and_long_form_entries() {
    let (raw, port, hints) = parse_compose_port_entry(&ComposePortEntry::Number(3000)).unwrap();
    assert_eq!(raw, "3000");
    assert_eq!(port, PortSpec::Single(3000));
    assert_eq!(hints, vec!["3000".to_string()]);

    let mapping = ComposePortMapping {
        target: ComposePortValue::Number(80),
        published: Some(ComposePortValue::String("8080".into())),
        protocol: Some("udp".into()),
    };
    let (raw, port, hints) = parse_compose_long_form_port(&mapping).unwrap();
    assert_eq!(raw, "8080:80/udp");
    assert_eq!(port, PortSpec::Mapping { host: 8080, container: 80 });
    assert_eq!(hints, vec!["published: 8080".to_string(), "target: 80".to_string(), "8080".to_string(), "80".to_string()]);

    let ranged = ComposePortMapping {
        target: ComposePortValue::String(" 80 ".into()),
        published: Some(ComposePortValue::String("8000-8010".into())),
        protocol: Some("TCP".into()),
    };
    let (raw, port, _) = parse_compose_long_form_port(&ranged).unwrap();
    assert_eq!(raw, "8000-8010: 80 ");
    assert_eq!(port, PortSpec::Single(80));

    let target_only = ComposePortMapping { target: ComposePortValue::Number(5432), published: None, protocol: None };
    let (raw, port, hints) = parse_compose_long_form_port(&target_only).unwrap();
    assert_eq!(raw, "5432");
    assert_eq!(port, PortSpec::Single(5432));
    assert_eq!(hints, vec!["target: 5432".to_string(), "5432".to_string()]);

    let bad = ComposePortMapping { target: ComposePortValue::String("http".into()), published: None, protocol: None };
    assert!(parse_compose_long_form_port(&bad).is_none());
}

#[test]
fn env_defaults() {
    assert_eq!(resolve_env_default("${PORT:-3000}"), Some("3000".to_string()));
    assert_eq!(resolve_env_default("3000"), None);
}

#[test]
fn test_apply_pattern() {
    assert_eq!(apply_pattern("redis:7.2", None), Some("redis:7.2".to_string()));
    assert_eq!(apply_pattern("redis:7.2", Some("redis:(.*)")), Some("7.2".to_string()));
    assert_eq!(apply_pattern("redis:7.2", Some("nginx:(.*)")), None);
}

#[test]
fn test_apply_pattern_no_capture_group() {
    assert_eq!(apply_pattern("hello world", Some("hello")), Some("hello".to_string()));
}

#[test]
fn apply_pattern_with_a_bad_pattern_gives_nothing() {
    assert_eq!(apply_pattern("x", Some("(")), None);
}

#[test]
fn concepts_inferred_from_extractor_ids() {
    assert_eq!(inferred_concept_ids("node-version-nvmrc"), vec!["node-version".to_string()]);
    assert_eq!(inferred_concept_ids("port-env"), vec!["app-port".to_string()]);
    assert_eq!(inferred_concept_ids("ts-strict-eslint"), vec!["ts-strict-mode".to_string()]);
    assert_eq!(inferred_concept_ids("my-custom"), vec!["my-custom".to_string()]);
}

#[test]
fn builtin_extractors_match_their_files() {
    assert!(NvmrcExtractor.matches_file(".nvmrc"));
    assert!(NvmrcExtractor.matches_file(".node-version"));
    assert!(!NvmrcExtractor.matches_file("package.json"));
    assert_eq!(NvmrcExtractor.concept_ids(), vec!["node-version".to_string()]);
    assert!(CiNodeExtractor.matches_file("build.yaml"));
    assert!(CiNodeExtractor.matches_file(".gitlab-ci.yml"));
    assert!(EnvPortExtractor.matches_file(".env.local"));
    assert!(!EnvPortExtractor.matches_file(".envrc"));
    assert!(DockerComposePortExtractor.matches_file("docker-compose.prod.yml"));
    assert!(!DockerComposePortExtractor.matches_file("docker-compose.json"));
    assert!(TsconfigStrictExtractor.matches_file("tsconfig.base.json"));
    assert!(TerraformVersionExtractor.matches_file("main.tf"));
    assert_eq!(TerraformVersionExtractor.concept_ids().len(), 6);
    assert!(KubernetesVersionExtractor.matches_file("Deployment.YAML"));
    assert!(KubernetesVersionExtractor.matches_path("app.yaml", "infra/K8s/app.yaml"));
    assert!(!KubernetesVersionExtractor.matches_path("app.json", "infra/k8s/app.json"));
    assert!(HelmValuesVersionExtractor.matches_file("Values-prod.yaml"));
    assert_eq!(NvmrcExtractor.id(), "node-version-nvmrc");
    assert_eq!(NvmrcExtractor.relevant_filenames(), vec![".nvmrc", ".node-version"]);
}

#[test]
fn custom_extractor_concept_and_files() {
    let ex = CustomExtractor::new(CustomExtractorConfig {
        concept: "redis-version".into(),
        display_name: "Redis Version".into(),
        category: "runtime-version".into(),
        value_type: "version".into(),
        source: vec![CustomSourceConfig {
            file: "docker-compose".into(),
            format: "yaml".into(),
            path: Some("services.redis.image".into()),
            key: None,
            pattern: Some("redis:(.*)".into()),
            authority: "enforced".into(),
        }],
    });
    let c = ex.concept();
    assert_eq!(c.id, "redis-version");
    assert_eq!(c.category, ConceptCategory::RuntimeVersion);
    assert!(ex.matches_file("docker-compose.yml"));
    assert!(!ex.matches_file("compose.yml"));
    assert_eq!(ex.id(), "redis-version");
    let other = CustomExtractor::new(CustomExtractorConfig {
        concept: "x".into(),
        display_name: "X".into(),
        category: "flavour".into(),
        value_type: "string".into(),
        source: vec![],
    });
    assert_eq!(other.concept().category, ConceptCategory::Custom("flavour".into()));
}


#[test]
fn python_requirements_read_as_version_ranges() {
    let r = parse_python_requires(">=3.10,<3.12");
    assert_eq!(r.to_text(), parse_version(">=3.10.0 <3.12.0").to_text());
    assert!(matches!(r, conflic::model::VersionSpec::Range(_)));
    let exact = parse_python_requires(" 3.12.1 ");
    assert_eq!(exact.to_text(), "3.12.1");
    let spaced = parse_python_requires(">=3.9, !=3.9.1");
    assert_eq!(spaced.to_text(), parse_version(">=3.9.0 !=3.9.1").to_text());
}

#[test]
fn dotnet_monikers_read_as_versions() {
    assert_eq!(parse_dotnet_framework("net8.0").to_text(), parse_version("8.0").to_text());
    assert_eq!(parse_dotnet_framework("net6.0-windows").to_text(), parse_version("6.0").to_text());
    assert_eq!(parse_dotnet_framework("netcoreapp3.1").to_text(), parse_version("coreapp3.1").to_text());
    assert_eq!(parse_dotnet_framework("7.0.100").to_text(), "7.0.100");
}
