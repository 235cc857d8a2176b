use conflic::extract::catalog::{
    CiJavaExtractor, CiNodeExtractor, CiPythonExtractor, CiRubyExtractor, DockerComposePortExtractor,
    EslintStrictExtractor, GlobalJsonExtractor, PackageJsonNodeExtractor, PyprojectExtractor, TsconfigStrictExtractor,
};
use conflic::extract::kubernetes::ManifestValue;
use conflic::model::{Authority, PortSpec, SemanticType, VersionSpec};
use conflic::parse::{FileContent, ParsedFile};

fn text(s: &str) -> ManifestValue {
    ManifestValue::Text(s.to_string())
}

fn mapping(entries: Vec<(&str, ManifestValue)>) -> ManifestValue {
    ManifestValue::Mapping(entries.into_iter().map(|(k, v)| (k.to_string(), v)).collect())
}

fn file(path: &str, raw: &str) -> ParsedFile {
    ParsedFile { path: path.to_string(), content: FileContent::PlainText(raw.to_string()), raw_text: raw.to_string() }
}

#[test]
fn tsconfig_local_strict_flag() {
    let raw = "{\n  \"compilerOptions\": {\n    \"strictNullChecks\": true,\n    \"strict\": true\n  }\n}\n";
    let doc = mapping(vec![(
        "compilerOptions",
        mapping(vec![("strictNullChecks", ManifestValue::Bool(true)), ("strict", ManifestValue::Bool(true))]),
    )]);
    let r = TsconfigStrictExtractor.extract_from_value(&doc, &doc, &file("tsconfig.json", raw));
    assert_eq!(r.len(), 1);
    assert!(matches!(r[0].value, SemanticType::Boolean(true)));
    assert_eq!(r[0].raw_value, "true");
    assert_eq!(r[0].source.line, 4);
    assert_eq!(r[0].source.key_path, "compilerOptions.strict");
    assert_eq!(r[0].concept.id, "ts-strict-mode");
    assert_eq!(r[0].authority, Authority::Enforced);
}

#[test]
fn tsconfig_inherited_strict_flag_points_at_extends() {
    let raw = "{\n  \"extends\": \"./base.json\"\n}\n";
    let local = mapping(vec![("extends", text("./base.json"))]);
    let resolved = mapping(vec![
        ("extends", text("./base.json")),
        ("compilerOptions", mapping(vec![("strict", ManifestValue::Bool(false))])),
    ]);
    let r = TsconfigStrictExtractor.extract_from_value(&resolved, &local, &file("tsconfig.json", raw));
    assert_eq!(r.len(), 1);
    assert_eq!(r[0].raw_value, "false");
    assert_eq!(r[0].source.line, 2);
    assert_eq!(r[0].source.key_path, "compilerOptions.strict (inherited)");
    let none = TsconfigStrictExtractor.extract_from_value(&local, &local, &file("tsconfig.json", raw));
    assert!(none.is_empty());
}

#[test]
fn eslint_rules_turned_off_weaken_strictness() {
    let raw = "rules:\n  '@typescript-eslint/no-explicit-any': off\n  '@typescript-eslint/strict-boolean-expressions': [0]\n  '@typescript-eslint/strict-type-checked': error\n";
    let doc = mapping(vec![(
        "rules",
        mapping(vec![
            ("@typescript-eslint/no-explicit-any", text("off")),
            ("@typescript-eslint/strict-boolean-expressions", ManifestValue::List(vec![ManifestValue::Number(0)])),
            ("@typescript-eslint/strict-type-checked", text("error")),
        ]),
    )]);
    let r = EslintStrictExtractor.extract_from_value(&doc, &file(".eslintrc.yml", raw));
    assert_eq!(r.len(), 2);
    assert_eq!(r[0].raw_value, "@typescript-eslint/strict-boolean-expressions: off");
    assert_eq!(r[0].source.line, 3);
    assert_eq!(r[1].raw_value, "@typescript-eslint/no-explicit-any: off");
    assert_eq!(r[1].source.key_path, "rules.@typescript-eslint/no-explicit-any");
    assert!(matches!(r[1].value, SemanticType::Boolean(false)));
}

#[test]
fn package_json_engines_node() {
    let raw = "{\n  \"name\": \"x\",\n  \"engines\": {\n    \"node\": \">=18\"\n  }\n}\n";
    let doc = mapping(vec![("name", text("x")), ("engines", mapping(vec![("node", text(">=18"))]))]);
    let r = PackageJsonNodeExtractor.extract_from_value(&doc, &file("package.json", raw));
    assert_eq!(r.len(), 1);
    assert_eq!(r[0].raw_value, ">=18");
    assert_eq!(r[0].source.line, 4);
    assert_eq!(r[0].source.key_path, "engines.node");
    assert_eq!(r[0].authority, Authority::Declared);
    assert_eq!(r[0].extractor_id, "node-version-package-json");
    let no_engines = mapping(vec![("name", text("x"))]);
    assert!(PackageJsonNodeExtractor.extract_from_value(&no_engines, &file("package.json", raw)).is_empty());
}

#[test]
fn global_json_sdk_version() {
    let raw = "{\n  \"sdk\": {\n    \"version\": \"8.0.100\"\n  }\n}\n";
    let doc = mapping(vec![("sdk", mapping(vec![("version", text("8.0.100"))]))]);
    let r = GlobalJsonExtractor.extract_from_value(&doc, &file("global.json", raw));
    assert_eq!(r.len(), 1);
    assert_eq!(r[0].concept.id, "dotnet-version");
    assert_eq!(r[0].source.line, 3);
    assert!(matches!(r[0].value, SemanticType::Version(VersionSpec::Exact(_))));
}

#[test]
fn pyproject_prefers_requires_python_then_poetry() {
    let raw = "[project]\nrequires-python = \">=3.10\"\n";
    let doc = mapping(vec![("project", mapping(vec![("requires-python", text(">=3.10"))]))]);
    let r = PyprojectExtractor.extract_from_value(&doc, &file("pyproject.toml", raw));
    assert_eq!(r.len(), 1);
    assert_eq!(r[0].raw_value, ">=3.10");
    assert_eq!(r[0].source.key_path, "project.requires-python");
    assert_eq!(r[0].source.line, 2);
    let raw2 = "[tool.poetry.dependencies]\npython = \"^3.11\"\n";
    let doc2 = mapping(vec![(
        "tool",
        mapping(vec![("poetry", mapping(vec![("dependencies", mapping(vec![("python", text("^3.11"))]))]))]),
    )]);
    let r2 = PyprojectExtractor.extract_from_value(&doc2, &file("pyproject.toml", raw2));
    assert_eq!(r2.len(), 1);
    assert_eq!(r2[0].source.key_path, "tool.poetry.dependencies.python");
    assert_eq!(r2[0].source.line, 2);
}

#[test]
fn compose_ports_of_services() {
    let raw = "services:\n  web:\n    ports:\n      - \"8080:3000\"\n      - target: 5000\n        published: \"5001\"\n  db:\n    image: postgres\n";
    let doc = mapping(vec![(
        "services",
        mapping(vec![
            (
                "web",
                mapping(vec![(
                    "ports",
                    ManifestValue::List(vec![
                        text("8080:3000"),
                        mapping(vec![("target", ManifestValue::Number(5000)), ("published", text("5001"))]),
                    ]),
                )]),
            ),
            ("db", mapping(vec![("image", text("postgres"))])),
        ]),
    )]);
    let r = DockerComposePortExtractor.extract_from_value(&doc, &file("docker-compose.yml", raw));
    assert_eq!(r.len(), 2);
    assert_eq!(r[0].raw_value, "8080:3000");
    assert_eq!(r[0].source.line, 4);
    assert!(matches!(r[0].value, SemanticType::Port(PortSpec::Mapping { host: 8080, container: 3000 })));
    assert_eq!(r[0].source.key_path, "services.*.ports");
    assert!(matches!(r[1].value, SemanticType::Port(PortSpec::Mapping { host: 5001, container: 5000 })));
    // A mapping with a protocol of the wrong type does not read.
    let bad = mapping(vec![(
        "services",
        mapping(vec![(
            "web",
            mapping(vec![(
                "ports",
                ManifestValue::List(vec![mapping(vec![
                    ("target", ManifestValue::Number(80)),
                    ("protocol", ManifestValue::Number(6)),
                ])]),
            )]),
        )]),
    )]);
    assert!(DockerComposePortExtractor.extract_from_value(&bad, &file("docker-compose.yml", raw)).is_empty());
}

fn workflow(key: &str, value: ManifestValue) -> ManifestValue {
    mapping(vec![(
        "jobs",
        mapping(vec![(
            "test",
            mapping(vec![(
                "strategy",
                mapping(vec![("matrix", mapping(vec![(key, value)]))]),
            )]),
        )]),
    )])
}

#[test]
fn ci_node_matrix_versions() {
    let raw = "jobs:\n  test:\n    strategy:\n      matrix:\n        node-version: [18, \"20.x\", true]\n";
    let doc = workflow(
        "node-version",
        ManifestValue::List(vec![ManifestValue::Number(18), text("20.x"), ManifestValue::Bool(true)]),
    );
    let r = CiNodeExtractor.extract_from_value(&doc, &file(".github/workflows/ci.yml", raw));
    assert_eq!(r.len(), 3);
    assert_eq!(r[0].raw_value, "18");
    assert_eq!(r[1].raw_value, "20.x");
    assert_eq!(r[2].raw_value, "true");
    assert!(r[0].is_matrix);
    assert_eq!(r[0].source.key_path, "matrix.node-version");
    assert_eq!(r[0].source.line, 5);
    assert_eq!(r[0].extractor_id, "node-version-ci");
    assert!(CiNodeExtractor.extract_from_value(&doc, &file("config/app.yml", raw)).is_empty());
}

#[test]
fn ci_node_skips_top_level_keys_ruby_reads_them() {
    let raw = "node-version: 20\nruby-version: \"3.3\"\n";
    let doc = mapping(vec![("node-version", ManifestValue::Number(20)), ("ruby-version", text("3.3"))]);
    let f = file(".circleci/config.yml", raw);
    assert!(CiNodeExtractor.extract_from_value(&doc, &f).is_empty());
    let r = CiRubyExtractor.extract_from_value(&doc, &f);
    assert_eq!(r.len(), 1);
    assert_eq!(r[0].raw_value, "3.3");
    assert_eq!(r[0].source.key_path, "ruby-version");
    assert!(!r[0].is_matrix);
    assert_eq!(r[0].source.line, 2);
}

#[test]
fn ci_python_and_java_lines_by_key_and_value() {
    let raw = "jobs:\n  a:\n    python-version: \"3.11\"\n  b:\n    python-version: 3.12\n    java_version: 21\n    flag_version: true\n";
    let doc = mapping(vec![(
        "jobs",
        mapping(vec![
            ("a", mapping(vec![("python-version", text("3.11"))])),
            (
                "b",
                mapping(vec![
                    ("python-version", ManifestValue::Decimal("3.12".to_string())),
                    ("java_version", ManifestValue::Number(21)),
                ]),
            ),
        ]),
    )]);
    let f = file(".github/workflows/build.yml", raw);
    let py = CiPythonExtractor.extract_from_value(&doc, &f);
    assert_eq!(py.len(), 2);
    assert_eq!(py[0].source.line, 3);
    assert_eq!(py[1].raw_value, "3.12");
    assert_eq!(py[1].source.line, 5);
    let java = CiJavaExtractor.extract_from_value(&doc, &f);
    assert_eq!(java.len(), 1);
    assert_eq!(java[0].raw_value, "21");
    assert_eq!(java[0].source.line, 6);
    let with_bool = workflow("python-version", ManifestValue::Bool(true));
    assert!(CiPythonExtractor.extract_from_value(&with_bool, &f).is_empty());
}

#[test]
fn default_extractors_in_order() {
    let xs = conflic::extract::registry::default_extractors();
    assert_eq!(xs.len(), 29);
    assert_eq!(xs[0].id(), "node-version-nvmrc");
    assert_eq!(xs[12].id(), "port-docker-compose");
    assert_eq!(xs[28].id(), "ts-strict-eslint");
    assert_eq!(xs[28].description(), "TypeScript strict mode from ESLint config");
}
