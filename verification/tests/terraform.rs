use conflic::extract::catalog::{TerraformPortExtractor, TerraformVersionExtractor};
use conflic::model::{Authority, PortSpec, SemanticType};
use conflic::parse::{FileContent, ParsedFile};

fn make_tf_file(content: &str) -> ParsedFile {
    ParsedFile {
        path: "main.tf".to_string(),
        content: FileContent::PlainText(content.to_string()),
        raw_text: content.to_string(),
    }
}

    #[test]
    fn test_extract_lambda_nodejs_runtime() {
        let tf = r#"
resource "aws_lambda_function" "handler" {
  function_name = "my-handler"
  runtime       = "nodejs20.x"
  handler       = "index.handler"
}
"#;
        let file = make_tf_file(tf);
        let extractor = TerraformVersionExtractor;
        let assertions = extractor.extract(&file);

        assert_eq!(assertions.len(), 1);
        assert_eq!(assertions[0].concept.id, "node-version");
        assert_eq!(assertions[0].raw_value, "20");
        assert_eq!(assertions[0].authority, Authority::Enforced);
    }

    #[test]
    fn test_extract_lambda_python_runtime() {
        let tf = r#"
resource "aws_lambda_function" "processor" {
  runtime = "python3.12"
}
"#;
        let file = make_tf_file(tf);
        let extractor = TerraformVersionExtractor;
        let assertions = extractor.extract(&file);

        assert_eq!(assertions.len(), 1);
        assert_eq!(assertions[0].concept.id, "python-version");
        assert_eq!(assertions[0].raw_value, "3.12");
    }

    #[test]
    fn test_extract_lambda_java_runtime() {
        let tf = r#"
resource "aws_lambda_function" "api" {
  runtime = "java21"
}
"#;
        let file = make_tf_file(tf);
        let extractor = TerraformVersionExtractor;
        let assertions = extractor.extract(&file);

        assert_eq!(assertions.len(), 1);
        assert_eq!(assertions[0].concept.id, "java-version");
        assert_eq!(assertions[0].raw_value, "21");
    }

    #[test]
    fn test_extract_container_image_from_tf() {
        let tf = r#"
resource "aws_ecs_task_definition" "web" {
  container_definitions = jsonencode([{
    name  = "web"
    image = "node:20-alpine"
  }])
}
"#;
        let file = make_tf_file(tf);
        let extractor = TerraformVersionExtractor;
        let assertions = extractor.extract(&file);

        assert_eq!(assertions.len(), 1);
        assert_eq!(assertions[0].concept.id, "node-version");
        assert_eq!(assertions[0].raw_value, "20-alpine");
    }

    #[test]
    fn test_extract_port_from_tf() {
        let tf = r#"
resource "aws_ecs_task_definition" "web" {
  container_definitions = jsonencode([{
    name  = "web"
    image = "node:20"
    portMappings = [{
      container_port = 3000
    }]
  }])
}
"#;
        let file = make_tf_file(tf);
        let extractor = TerraformPortExtractor;
        let assertions = extractor.extract(&file);

        assert_eq!(assertions.len(), 1);
        assert_eq!(assertions[0].raw_value, "3000");
    }

    #[test]
    fn test_extract_dotnet_runtime() {
        let tf = r#"
resource "aws_lambda_function" "api" {
  runtime = "dotnet8"
}
"#;
        let file = make_tf_file(tf);
        let extractor = TerraformVersionExtractor;
        let assertions = extractor.extract(&file);

        assert_eq!(assertions.len(), 1);
        assert_eq!(assertions[0].concept.id, "dotnet-version");
        assert_eq!(assertions[0].raw_value, "8");
    }

    #[test]
    fn test_unknown_runtime_skipped() {
        let tf = r#"
resource "aws_lambda_function" "custom" {
  runtime = "provided.al2023"
}
"#;
        let file = make_tf_file(tf);
        let extractor = TerraformVersionExtractor;
        let assertions = extractor.extract(&file);
        assert!(assertions.is_empty());
    }

    #[test]
    fn test_multiple_lambdas() {
        let tf = r#"
resource "aws_lambda_function" "a" {
  runtime = "nodejs20.x"
}
resource "aws_lambda_function" "b" {
  runtime = "python3.12"
}
"#;
        let file = make_tf_file(tf);
        let extractor = TerraformVersionExtractor;
        let assertions = extractor.extract(&file);

        assert_eq!(assertions.len(), 2);
        let concepts: Vec<&str> = assertions.iter().map(|a| a.concept.id.as_str()).collect();
        assert!(concepts.contains(&"node-version"));
        assert!(concepts.contains(&"python-version"));
    }

#[test]
fn terraform_lines_keys_and_port_dedup() {
    let tf = "resource \"x\" \"y\" {\n  image = \"registry.io/library/python:3.12-slim\"\n  host_port = 8080\n  port = 8080\n  container_port = 9000\n}\n";
    let file = make_tf_file(tf);
    let versions = TerraformVersionExtractor.extract(&file);
    assert_eq!(versions.len(), 1);
    assert_eq!(versions[0].concept.id, "python-version");
    assert_eq!(versions[0].raw_value, "3.12-slim");
    assert_eq!(versions[0].source.line, 2);
    assert_eq!(versions[0].source.key_path, "image");
    let ports = TerraformPortExtractor.extract(&file);
    // `port = 8080` on line 4 is first found on line 3 (inside `host_port = 8080`), so it is left out.
    assert_eq!(ports.len(), 2);
    assert_eq!((ports[0].raw_value.as_str(), ports[0].source.line, ports[0].authority), ("9000", 5, Authority::Enforced));
    assert_eq!((ports[1].raw_value.as_str(), ports[1].source.line, ports[1].authority), ("8080", 3, Authority::Declared));
    assert!(matches!(ports[1].value, SemanticType::Port(PortSpec::Single(8080))));
    assert!(TerraformPortExtractor.extract(&make_tf_file("port = 70000\n")).is_empty());
}
