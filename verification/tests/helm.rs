use conflic::extract::catalog::{HelmValuesPortExtractor, HelmValuesVersionExtractor};
use conflic::extract::kubernetes::ManifestValue;
use conflic::model::{Authority, PortSpec, SemanticType};
use conflic::parse::{FileContent, ParsedFile};

fn text(s: &str) -> ManifestValue {
    ManifestValue::Text(s.to_string())
}

fn mapping(entries: Vec<(&str, ManifestValue)>) -> ManifestValue {
    ManifestValue::Mapping(entries.into_iter().map(|(k, v)| (k.to_string(), v)).collect())
}

fn make_values_file(yaml: &str) -> ParsedFile {
    ParsedFile {
        path: "values.yaml".to_string(),
        content: FileContent::PlainText(yaml.to_string()),
        raw_text: yaml.to_string(),
    }
}

fn image(repository: &str, tag: &str) -> ManifestValue {
    mapping(vec![("repository", text(repository)), ("tag", text(tag))])
}

#[test]
fn test_extract_node_version_from_helm_values() {
    let yaml = r#"
image:
  repository: node
  tag: "20-alpine"
"#;
    let value = mapping(vec![("image", image("node", "20-alpine"))]);
    let file = make_values_file(yaml);
    let extractor = HelmValuesVersionExtractor;
    let assertions = extractor.extract_from_values(&value, &file);

    assert_eq!(assertions.len(), 1);
    assert_eq!(assertions[0].concept.id, "node-version");
    assert_eq!(assertions[0].raw_value, "20-alpine");
}

#[test]
fn test_extract_nested_service_image() {
    let yaml = r#"
api:
  image:
    repository: python
    tag: "3.12"
worker:
  image:
    repository: node
    tag: "20"
"#;
    let value = mapping(vec![
        ("api", mapping(vec![("image", image("python", "3.12"))])),
        ("worker", mapping(vec![("image", image("node", "20"))])),
    ]);
    let file = make_values_file(yaml);
    let extractor = HelmValuesVersionExtractor;
    let assertions = extractor.extract_from_values(&value, &file);

    assert_eq!(assertions.len(), 2);
    let concepts: Vec<&str> = assertions.iter().map(|a| a.concept.id.as_str()).collect();
    assert!(concepts.contains(&"python-version"));
    assert!(concepts.contains(&"node-version"));
}

#[test]
fn test_extract_port_from_helm_values() {
    let yaml = r#"
service:
  port: 8080
  targetPort: 3000
"#;
    let value = mapping(vec![(
        "service",
        mapping(vec![("port", ManifestValue::Number(8080)), ("targetPort", ManifestValue::Number(3000))]),
    )]);
    let file = make_values_file(yaml);
    let extractor = HelmValuesPortExtractor;
    let assertions = extractor.extract_from_values(&value, &file);

    assert_eq!(assertions.len(), 2);
    let ports: Vec<&str> = assertions.iter().map(|a| a.raw_value.as_str()).collect();
    assert!(ports.contains(&"8080"));
    assert!(ports.contains(&"3000"));
}

#[test]
fn test_unknown_image_not_extracted() {
    let yaml = r#"
image:
  repository: mycompany/custom-app
  tag: "v2.3.1"
"#;
    let value = mapping(vec![("image", image("mycompany/custom-app", "v2.3.1"))]);
    let file = make_values_file(yaml);
    let extractor = HelmValuesVersionExtractor;
    let assertions = extractor.extract_from_values(&value, &file);
    assert!(assertions.is_empty());
}

#[test]
fn helm_versions_carry_key_path_line_and_declared_authority() {
    let yaml = "api:\n  image:\n    repository: docker.io/library/golang\n    tag: \"1.22\"\n";
    let value = mapping(vec![("api", mapping(vec![("image", image("docker.io/library/golang", "1.22"))]))]);
    let file = make_values_file(yaml);
    let assertions = HelmValuesVersionExtractor.extract_from_values(&value, &file);
    assert_eq!(assertions.len(), 1);
    assert_eq!(assertions[0].concept.id, "go-version");
    assert_eq!(assertions[0].source.key_path, "api.image.tag");
    assert_eq!(assertions[0].source.line, 4);
    assert_eq!(assertions[0].authority, Authority::Declared);
    assert_eq!(assertions[0].extractor_id, "iac-helm-version");
}

#[test]
fn helm_ports_read_numeric_strings_and_skip_large_numbers() {
    let yaml = "port: \"8443\"\ncontainerPort: 70000\napp:\n  servicePort: 9000\n";
    let value = mapping(vec![
        ("port", text("8443")),
        ("containerPort", ManifestValue::Number(70000)),
        ("app", mapping(vec![("servicePort", ManifestValue::Number(9000))])),
    ]);
    let file = make_values_file(yaml);
    let assertions = HelmValuesPortExtractor.extract_from_values(&value, &file);
    assert_eq!(assertions.len(), 2);
    assert!(matches!(assertions[0].value, SemanticType::Port(PortSpec::Single(8443))));
    assert_eq!(assertions[0].source.key_path, "port");
    assert_eq!(assertions[0].source.line, 1);
    assert_eq!(assertions[1].raw_value, "9000");
    assert_eq!(assertions[1].source.key_path, "app.servicePort");
    assert_eq!(assertions[1].source.line, 4);
    assert_eq!(assertions[1].authority, Authority::Declared);
}
