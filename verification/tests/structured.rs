use conflic::config::{CustomExtractorConfig, CustomSourceConfig};
use conflic::extract::custom::CustomExtractor;
use conflic::extract::structured::{navigate_structured, StructuredValue};
use conflic::model::{Authority, SemanticType};
use conflic::parse::{FileContent, ParsedFile};

fn text(s: &str) -> StructuredValue {
    StructuredValue::Text(s.to_string())
}

fn table(entries: Vec<(&str, StructuredValue)>, rendered: &str) -> StructuredValue {
    StructuredValue::Table(entries.into_iter().map(|(k, v)| (k.to_string(), v)).collect(), rendered.to_string())
}

/// `{"services": {"redis": {"image": "redis:7.2"}}}`
fn services() -> StructuredValue {
    table(
        vec![(
            "services",
            table(
                vec![("redis", table(vec![("image", text("redis:7.2"))], r#"{"image":"redis:7.2"}"#))],
                r#"{"redis":{"image":"redis:7.2"}}"#,
            ),
        )],
        r#"{"services":{"redis":{"image":"redis:7.2"}}}"#,
    )
}

#[test]
fn test_navigate_json() {
    let json = services();
    assert_eq!(navigate_structured(&json, "services.redis.image"), Some("redis:7.2".to_string()));
    assert_eq!(navigate_structured(&json, "services.missing"), None);
}

#[test]
fn navigation_renders_tables_and_stops_at_scalars() {
    let json = services();
    assert_eq!(navigate_structured(&json, "services.redis"), Some(r#"{"image":"redis:7.2"}"#.to_string()));
    assert_eq!(navigate_structured(&json, "services.redis.image.tag"), None);
    assert_eq!(navigate_structured(&json, ""), None);
}

#[test]
fn structured_source_yields_the_patterned_value() {
    let source = CustomSourceConfig {
        file: "docker-compose".into(),
        format: "yaml".into(),
        path: Some("services.redis.image".into()),
        key: None,
        pattern: Some("redis:(.*)".into()),
        authority: "enforced".into(),
    };
    let ex = CustomExtractor::new(CustomExtractorConfig {
        concept: "redis-version".into(),
        display_name: "Redis Version".into(),
        category: "runtime-version".into(),
        value_type: "version".into(),
        source: vec![source.clone()],
    });
    let raw = "services:\n  redis:\n    image: redis:7.2\n";
    let file = ParsedFile {
        path: "/w/docker-compose.yml".into(),
        content: FileContent::PlainText(raw.into()),
        raw_text: raw.into(),
    };
    let out = ex.extract_from_structured(&source, &services(), &file, Authority::Enforced);
    assert_eq!(out.len(), 1);
    assert_eq!(out[0].raw_value, "7.2");
    assert_eq!(out[0].source.line, 3);
    assert_eq!(out[0].source.key_path, "services.redis.image");
    assert_eq!(
        format!("{:?}", out[0].value),
        format!("{:?}", SemanticType::Version(conflic::model::parse_version("7.2")))
    );
    let mut other = source.clone();
    other.pattern = Some("nginx:(.*)".into());
    assert!(ex.extract_from_structured(&other, &services(), &file, Authority::Enforced).is_empty());
}
