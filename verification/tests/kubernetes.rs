use conflic::extract::catalog::{KubernetesPortExtractor, KubernetesVersionExtractor};
use conflic::extract::kubernetes::ManifestValue;
use conflic::model::{Authority, PortSpec, SemanticType};
use conflic::parse::{FileContent, ParsedFile};

fn text(s: &str) -> ManifestValue {
    ManifestValue::Text(s.to_string())
}

fn mapping(entries: Vec<(&str, ManifestValue)>) -> ManifestValue {
    ManifestValue::Mapping(entries.into_iter().map(|(k, v)| (k.to_string(), v)).collect())
}

fn make_k8s_file(yaml: &str) -> ParsedFile {
    ParsedFile {
        path: "deployment.yaml".to_string(),
        content: FileContent::PlainText(yaml.to_string()),
        raw_text: yaml.to_string(),
    }
}

/// A Deployment whose pod template runs the given containers.
fn deployment(name: &str, containers: Vec<ManifestValue>) -> ManifestValue {
    mapping(vec![
        ("apiVersion", text("apps/v1")),
        ("kind", text("Deployment")),
        ("metadata", mapping(vec![("name", text(name))])),
        (
            "spec",
            mapping(vec![("template", mapping(vec![("spec", mapping(vec![("containers", ManifestValue::List(containers))]))]))]),
        ),
    ])
}

#[test]
fn test_extract_node_version_from_deployment() {
    let yaml = r#"
apiVersion: apps/v1
kind: Deployment
metadata:
  name: web
spec:
  template:
    spec:
      containers:
        - name: app
          image: node:20-alpine
"#;
    let value = deployment("web", vec![mapping(vec![("name", text("app")), ("image", text("node:20-alpine"))])]);
    let file = make_k8s_file(yaml);
    let extractor = KubernetesVersionExtractor;
    let assertions = extractor.extract_from_manifest(&value, &file);

    assert_eq!(assertions.len(), 1);
    assert_eq!(assertions[0].concept.id, "node-version");
    assert_eq!(assertions[0].raw_value, "20-alpine");
    assert_eq!(assertions[0].authority, Authority::Enforced);
}

#[test]
fn test_extract_python_version_from_deployment() {
    let yaml = r#"
apiVersion: apps/v1
kind: Deployment
metadata:
  name: ml
spec:
  template:
    spec:
      containers:
        - name: app
          image: python:3.12-slim
"#;
    let value = deployment("ml", vec![mapping(vec![("name", text("app")), ("image", text("python:3.12-slim"))])]);
    let file = make_k8s_file(yaml);
    let extractor = KubernetesVersionExtractor;
    let assertions = extractor.extract_from_manifest(&value, &file);

    assert_eq!(assertions.len(), 1);
    assert_eq!(assertions[0].concept.id, "python-version");
    assert_eq!(assertions[0].raw_value, "3.12-slim");
}

#[test]
fn test_extract_port_from_deployment() {
    let yaml = r#"
apiVersion: apps/v1
kind: Deployment
metadata:
  name: web
spec:
  template:
    spec:
      containers:
        - name: app
          image: node:20
          ports:
            - containerPort: 3000
"#;
    let value = deployment(
        "web",
        vec![mapping(vec![
            ("name", text("app")),
            ("image", text("node:20")),
            ("ports", ManifestValue::List(vec![mapping(vec![("containerPort", ManifestValue::Number(3000))])])),
        ])],
    );
    let file = make_k8s_file(yaml);
    let extractor = KubernetesPortExtractor;
    let assertions = extractor.extract_from_manifest(&value, &file);

    assert_eq!(assertions.len(), 1);
    assert_eq!(assertions[0].concept.id, "app-port");
    assert_eq!(assertions[0].raw_value, "3000");
}

#[test]
fn test_extract_port_from_service() {
    let yaml = r#"
apiVersion: v1
kind: Service
metadata:
  name: web-svc
spec:
  ports:
    - port: 80
      targetPort: 3000
"#;
    let value = mapping(vec![
        ("apiVersion", text("v1")),
        ("kind", text("Service")),
        ("metadata", mapping(vec![("name", text("web-svc"))])),
        (
            "spec",
            mapping(vec![(
                "ports",
                ManifestValue::List(vec![mapping(vec![
                    ("port", ManifestValue::Number(80)),
                    ("targetPort", ManifestValue::Number(3000)),
                ])]),
            )]),
        ),
    ]);
    let file = make_k8s_file(yaml);
    let extractor = KubernetesPortExtractor;
    let assertions = extractor.extract_from_manifest(&value, &file);

    assert_eq!(assertions.len(), 1);
    assert_eq!(assertions[0].raw_value, "3000");
}

#[test]
fn test_no_extraction_from_non_k8s_yaml() {
    let yaml = r#"
name: my-config
value: something
"#;
    let value = mapping(vec![("name", text("my-config")), ("value", text("something"))]);
    let file = make_k8s_file(yaml);
    let extractor = KubernetesVersionExtractor;
    let assertions = extractor.extract_from_manifest(&value, &file);
    assert!(assertions.is_empty());
}

#[test]
fn test_image_without_tag_is_skipped() {
    let yaml = r#"
apiVersion: apps/v1
kind: Deployment
metadata:
  name: web
spec:
  template:
    spec:
      containers:
        - name: app
          image: myregistry/myapp
"#;
    let value = deployment("web", vec![mapping(vec![("name", text("app")), ("image", text("myregistry/myapp"))])]);
    let file = make_k8s_file(yaml);
    let extractor = KubernetesVersionExtractor;
    let assertions = extractor.extract_from_manifest(&value, &file);
    assert!(assertions.is_empty());
}

#[test]
fn k8s_version_carries_line_key_path_and_value() {
    let yaml = "kind: CronJob\nspec:\n  jobTemplate:\n    spec:\n      template:\n        spec:\n          containers:\n            - image: registry.example.com/library/ruby:3.3\n            - image: mcr.microsoft.com/dotnet/aspnet:8.0\n";
    let job_containers = ManifestValue::List(vec![
        mapping(vec![("image", text("registry.example.com/library/ruby:3.3"))]),
        mapping(vec![("image", text("mcr.microsoft.com/dotnet/aspnet:8.0"))]),
    ]);
    let value = mapping(vec![
        ("kind", text("CronJob")),
        (
            "spec",
            mapping(vec![(
                "jobTemplate",
                mapping(vec![(
                    "spec",
                    mapping(vec![("template", mapping(vec![("spec", mapping(vec![("containers", job_containers)]))]))]),
                )]),
            )]),
        ),
    ]);
    let file = make_k8s_file(yaml);
    let assertions = KubernetesVersionExtractor.extract_from_manifest(&value, &file);
    assert_eq!(assertions.len(), 2);
    assert_eq!(assertions[0].concept.id, "ruby-version");
    assert_eq!(assertions[0].source.line, 8);
    assert_eq!(assertions[0].source.key_path, "CronJob.containers.image");
    assert_eq!(assertions[0].extractor_id, "iac-kubernetes-version");
    assert_eq!(assertions[1].concept.id, "dotnet-version");
    assert_eq!(assertions[1].raw_value, "8.0");
    assert_eq!(assertions[1].source.line, 9);
}

#[test]
fn k8s_ports_skip_values_that_are_not_16_bit_integers() {
    let yaml = "kind: Pod\nspec:\n  containers:\n    - ports:\n        - containerPort: 70000\n        - containerPort: \"8080\"\n        - containerPort: 9090\n";
    let value = mapping(vec![
        ("kind", text("Pod")),
        (
            "spec",
            mapping(vec![(
                "containers",
                ManifestValue::List(vec![mapping(vec![(
                    "ports",
                    ManifestValue::List(vec![
                        mapping(vec![("containerPort", ManifestValue::Number(70000))]),
                        mapping(vec![("containerPort", text("8080"))]),
                        mapping(vec![("containerPort", ManifestValue::Number(9090))]),
                    ]),
                )])]),
            )]),
        ),
    ]);
    let file = make_k8s_file(yaml);
    let assertions = KubernetesPortExtractor.extract_from_manifest(&value, &file);
    assert_eq!(assertions.len(), 1);
    assert!(matches!(assertions[0].value, SemanticType::Port(PortSpec::Single(9090))));
    assert_eq!(assertions[0].source.line, 7);
    assert_eq!(assertions[0].source.key_path, "spec.containers.ports.containerPort");
    assert_eq!(assertions[0].extractor_id, "iac-kubernetes-port");
}
