//! From Terraform text to an architecture.

use std::sync::Arc;

use yevice::arch::Architecture;
use yevice::arch::Connection;
use yevice::arch::ConnectionType;
use yevice::arch::Provider;
use yevice::arch::ResourceShell;
use yevice::iac::IacError;
use yevice::iac::IacPropertyValue;
use yevice::iac::RawTfResource;
use yevice::iac::SharedTfAdapter;
use yevice::iac::TfAdapter;
use yevice::iac::TfAdapterRegistry;
use yevice::json::Json;
use yevice::tf::convert::build_architecture;
use yevice::tf::error::TfError;
use yevice::tf::parser::parse_tf_sources;
use yevice::tf::parser::parse_tfvars_str;
use yevice::tf::parser::TfValue;
use yevice::tf::resolver::resolve_config;
use yevice::yaml::Number;

fn simple_lambda() -> &'static str {
    r#"
resource "aws_lambda_function" "handler" {
  function_name = "handler"
  runtime       = "python3.12"
  memory_size   = 512
  timeout       = 30
}

resource "aws_dynamodb_table" "data" {
  name         = "data"
  billing_mode = "PAY_PER_REQUEST"
}

resource "aws_s3_bucket" "assets" {
  bucket = "assets"
}
"#
}

fn cross_resource() -> &'static str {
    r#"
resource "aws_sqs_queue" "input_queue" {
  name = "input"
}

resource "aws_dynamodb_table" "state_table" {
  name = "state"
}

resource "aws_lambda_function" "processor" {
  function_name = "processor"
  environment {
    variables = {
      TABLE_NAME = aws_dynamodb_table.state_table.name
    }
  }
}

resource "aws_lambda_event_source_mapping" "sqs_trigger" {
  event_source_arn = aws_sqs_queue.input_queue.arn
  function_name    = aws_lambda_function.processor.arn
}
"#
}

fn nested_ref() -> &'static str {
    r#"
resource "aws_dynamodb_table" "my_table" {
  name = "t"
}

resource "aws_sqs_queue" "my_queue" {
  name = "q"
}

resource "aws_lambda_function" "my_function" {
  function_name = "f"
  environment {
    variables = {
      TABLE_ARN = aws_dynamodb_table.my_table.arn
      STAGE     = "prod"
    }
  }
}

resource "aws_lambda_function" "list_fn" {
  function_name = "g"
  environment {
    variables = {
      QUEUE_URLS = [aws_sqs_queue.my_queue.url]
    }
  }
}
"#
}

fn s3_notification() -> &'static str {
    r#"
resource "aws_s3_bucket" "my_bucket" {
  bucket = "b"
}

resource "aws_lambda_function" "my_lambda" {
  function_name = "l"
}

resource "aws_s3_bucket_notification" "bucket_notif" {
  bucket = aws_s3_bucket.my_bucket.id
  lambda_function {
    lambda_function_arn = aws_lambda_function.my_lambda.arn
    events              = ["s3:ObjectCreated:*"]
  }
}
"#
}

fn classify_connection() -> &'static str {
    r#"
resource "aws_iam_role" "lambda_exec" {
  name = "exec"
}

resource "aws_s3_bucket" "uploads" {
  bucket = "uploads"
}

resource "aws_dynamodb_table" "items" {
  name = "items"
}

resource "aws_lambda_function" "writer" {
  function_name = "writer"
  role          = aws_iam_role.lambda_exec.arn
  environment {
    variables = {
      BUCKET = aws_s3_bucket.uploads.id
      TABLE  = aws_dynamodb_table.items.name
    }
  }
}
"#
}

fn non_runtime_blocks() -> &'static str {
    r#"
resource "aws_sqs_queue" "dlq" {
  name = "dlq"
}

resource "aws_dynamodb_table" "data_table" {
  name = "data"
}

resource "aws_lambda_function" "my_fn" {
  function_name = "f"
  dead_letter_config {
    target_arn = aws_sqs_queue.dlq.arn
  }
  environment {
    variables = {
      TABLE_ARN = aws_dynamodb_table.data_table.arn
    }
  }
}
"#
}

fn local_ref() -> &'static str {
    r#"
locals {
  fn_arn = aws_lambda_function.fn.arn
}

resource "aws_s3_bucket" "uploads" {
  bucket = "uploads"
}

resource "aws_lambda_function" "fn" {
  function_name = "fn"
}

resource "aws_s3_bucket_notification" "notif" {
  bucket = aws_s3_bucket.uploads.id
  lambda_function {
    lambda_function_arn = local.fn_arn
    events              = ["s3:ObjectCreated:Put"]
  }
}
"#
}

fn architecture(text: &str) -> Architecture {
    let config = parse_tf_sources(&vec![text.to_string()]).unwrap();
    let resolved = resolve_config(config, None).unwrap();
    build_architecture(
        "test",
        "ap-northeast-1",
        &resolved,
        &TfAdapterRegistry::new(),
    )
}

fn edge<'a>(
    arch: &'a Architecture,
    connection_type: ConnectionType,
    source: &str,
    target: &str,
) -> Option<&'a Connection> {
    arch.connections.iter().find(|c| {
        c.connection_type == connection_type
            && c.source.as_str() == source
            && c.target.as_str() == target
    })
}

fn assert_distinct(arch: &Architecture) {
    let mut seen = std::collections::HashSet::new();
    for conn in &arch.connections {
        let key = (
            conn.source.as_str().to_string(),
            conn.target.as_str().to_string(),
            format!("{:?}", conn.connection_type),
        );
        assert!(
            seen.insert(key.clone()),
            "duplicate connection detected: {key:?}",
        );
    }
}

#[test]
fn parses_simple_lambda_directory() {
    let config = parse_tf_sources(&vec![simple_lambda().to_string()]).unwrap();

    assert_eq!(config.resources.len(), 3);
    assert_eq!(
        config
            .resources
            .iter()
            .filter(|r| r.resource_type == "aws_lambda_function")
            .count(),
        1
    );
}

#[test]
fn event_source_mapping_produces_event_source_edge() {
    let arch = architecture(cross_resource());

    // EventSource edge: sqs_queue → lambda
    assert!(
        edge(
            &arch,
            ConnectionType::EventSource,
            "aws_sqs_queue_input_queue",
            "aws_lambda_function_processor"
        )
        .is_some(),
        "connections = {:?}",
        arch.connections,
    );
}

#[test]
fn lambda_to_dynamodb_produces_data_flow_edge() {
    let arch = architecture(cross_resource());

    // DataFlow edge: lambda → dynamodb (from environment variable reference)
    assert!(
        edge(
            &arch,
            ConnectionType::DataFlow,
            "aws_lambda_function_processor",
            "aws_dynamodb_table_state_table"
        )
        .is_some(),
        "connections = {:?}",
        arch.connections,
    );
}

#[test]
fn connections_have_no_duplicates() {
    assert_distinct(&architecture(cross_resource()));
}

#[test]
fn connections_have_no_dangling_endpoints() {
    let arch = architecture(cross_resource());

    let node_ids: std::collections::HashSet<&str> = arch
        .resources
        .iter()
        .map(|r| r.logical_id.as_str())
        .collect();

    for conn in &arch.connections {
        assert!(
            node_ids.contains(conn.source.as_str()),
            "dangling source in connection: {conn:?}",
        );
        assert!(
            node_ids.contains(conn.target.as_str()),
            "dangling target in connection: {conn:?}",
        );
    }
}

#[test]
fn nested_object_ref_produces_data_flow_edge() {
    let arch = architecture(nested_ref());

    assert!(
        edge(
            &arch,
            ConnectionType::DataFlow,
            "aws_lambda_function_my_function",
            "aws_dynamodb_table_my_table"
        )
        .is_some(),
        "connections = {:?}",
        arch.connections,
    );
}

#[test]
fn nested_array_ref_produces_data_flow_edge() {
    let arch = architecture(nested_ref());

    assert!(
        edge(
            &arch,
            ConnectionType::DataFlow,
            "aws_lambda_function_list_fn",
            "aws_sqs_queue_my_queue"
        )
        .is_some(),
        "connections = {:?}",
        arch.connections,
    );
}

#[test]
fn nested_ref_no_duplicates() {
    assert_distinct(&architecture(nested_ref()));
}

#[test]
fn s3_bucket_notification_produces_bucket_to_lambda_edge() {
    let arch = architecture(s3_notification());

    assert!(
        edge(
            &arch,
            ConnectionType::Notification,
            "aws_s3_bucket_my_bucket",
            "aws_lambda_function_my_lambda"
        )
        .is_some(),
        "connections = {:?}",
        arch.connections,
    );

    // The notification config resource itself must NOT be a source.
    let wrong_src = arch
        .connections
        .iter()
        .any(|c| c.source.as_str() == "aws_s3_bucket_notification_bucket_notif");
    assert!(
        !wrong_src,
        "aws_s3_bucket_notification must not be an edge source; connections = {:?}",
        arch.connections,
    );
}

/// Puts everything that it is given into the spec.
struct Everything;

impl TfAdapter for Everything {
    fn handles(&self) -> Vec<&'static str> {
        vec!["aws_lambda_function"]
    }

    fn convert(&self, raw: &RawTfResource) -> Result<ResourceShell, IacError> {
        let mut fields: Vec<(String, Json)> = Vec::new();
        for i in 0..raw.attrs.len() {
            let value = match raw.attrs.value_at(i) {
                IacPropertyValue::Concrete(json) => json.clone(),
                other => Json::String(format!("{other:?}")),
            };
            fields.push((raw.attrs.key_at(i).clone(), value));
        }
        for i in 0..raw.blocks.len() {
            for body in raw.blocks.value_at(i) {
                for k in 0..body.len() {
                    fields.push((body.key_at(k).clone(), body.value_at(k).clone()));
                }
            }
        }
        Ok(ResourceShell::new(
            "aws.lambda",
            Provider::Aws,
            Json::Object(fields),
        ))
    }
}

#[test]
fn nested_ref_spec_json_has_no_resource_ref() {
    let mut adapters = TfAdapterRegistry::new();
    adapters.register(SharedTfAdapter {
        adapter: Arc::new(Everything),
    });
    let config = parse_tf_sources(&vec![nested_ref().to_string()]).unwrap();
    let resolved = resolve_config(config, None).unwrap();
    let arch = build_architecture("test", "ap-northeast-1", &resolved, &adapters);

    let specs: Vec<String> = arch
        .resources
        .iter()
        .map(|r| format!("{:?}", r.shell.spec))
        .collect();
    assert!(
        !specs.iter().any(|s| s.contains("ResourceRef")),
        "ResourceRef leaked into a spec: {specs:?}",
    );

    // What is concrete does reach the specs.
    let text = |s: &str| Json::String(s.to_string());
    let spec = |id: &str| {
        let found = arch.resources.iter().find(|r| r.logical_id.as_str() == id);
        found.unwrap().shell.spec.clone()
    };
    assert_eq!(
        spec("aws_lambda_function_my_function"),
        Json::Object(vec![
            ("function_name".to_string(), text("f")),
            (
                "variables".to_string(),
                Json::Object(vec![("STAGE".to_string(), text("prod"))])
            ),
        ])
    );
    assert_eq!(
        spec("aws_lambda_function_list_fn"),
        Json::Object(vec![
            ("function_name".to_string(), text("g")),
            (
                "variables".to_string(),
                Json::Object(vec![("QUEUE_URLS".to_string(), Json::Array(vec![]))])
            ),
        ])
    );
}

/// Lambda → IAM role (role attr) must not generate any connection edges.
#[test]
fn lambda_to_iam_role_does_not_produce_edge() {
    let arch = architecture(classify_connection());

    // IAM role must NOT be a connection target from any lambda.
    let iam_edge = arch
        .connections
        .iter()
        .find(|c| c.target.as_str() == "aws_iam_role_lambda_exec");
    assert!(
        iam_edge.is_none(),
        "unexpected edge to aws_iam_role_lambda_exec; connections = {:?}",
        arch.connections,
    );
}

/// Lambda → S3 bucket produces a DataFlow edge.
#[test]
fn lambda_to_s3_produces_data_flow_edge() {
    let arch = architecture(classify_connection());

    assert!(
        edge(
            &arch,
            ConnectionType::DataFlow,
            "aws_lambda_function_writer",
            "aws_s3_bucket_uploads"
        )
        .is_some(),
        "connections = {:?}",
        arch.connections,
    );
}

/// Lambda → DynamoDB produces a DataFlow edge.
#[test]
fn lambda_to_dynamodb_produces_data_flow_edge_via_classify() {
    let arch = architecture(classify_connection());

    assert!(
        edge(
            &arch,
            ConnectionType::DataFlow,
            "aws_lambda_function_writer",
            "aws_dynamodb_table_items"
        )
        .is_some(),
        "connections = {:?}",
        arch.connections,
    );
}

/// `dead_letter_config` describes where failed async invocations are sent: it
/// is no runtime data-flow path.
#[test]
fn dead_letter_config_does_not_produce_data_flow_edge() {
    let arch = architecture(non_runtime_blocks());

    assert!(
        edge(
            &arch,
            ConnectionType::DataFlow,
            "aws_lambda_function_my_fn",
            "aws_sqs_queue_dlq"
        )
        .is_none(),
        "connections = {:?}",
        arch.connections,
    );
}

/// `environment` is a runtime block, so its edge must be present.
#[test]
fn environment_block_still_produces_data_flow_edge() {
    let arch = architecture(non_runtime_blocks());

    assert!(
        edge(
            &arch,
            ConnectionType::DataFlow,
            "aws_lambda_function_my_fn",
            "aws_dynamodb_table_data_table"
        )
        .is_some(),
        "connections = {:?}",
        arch.connections,
    );
}

/// `local.fn_arn = aws_lambda_function.fn.arn` resolves to a reference, and the
/// notification resource produces an edge from the bucket to the lambda.
#[test]
fn local_resource_ref_alias_produces_notification_edge() {
    let arch = architecture(local_ref());

    assert!(
        edge(
            &arch,
            ConnectionType::Notification,
            "aws_s3_bucket_uploads",
            "aws_lambda_function_fn"
        )
        .is_some(),
        "connections = {:?}",
        arch.connections,
    );
}

fn sized() -> String {
    r#"
variable "memory" {
  default = 256
}

locals {
  stage = "dev"
  alias = local.stage
}

resource "aws_lambda_function" "handler" {
  memory_size = var.memory
  stage       = local.alias
}
"#
    .to_string()
}

#[test]
fn declared_defaults_and_tfvars_resolve() {
    let plain = resolve_config(parse_tf_sources(&vec![sized()]).unwrap(), None).unwrap();
    assert_eq!(
        plain.get_f64(&plain.resources[0], "memory_size"),
        Some(Number::Float("256.0".to_string()))
    );
    assert_eq!(plain.get_str(&plain.resources[0], "stage"), Some("dev"));
    let vars = parse_tfvars_str("memory = 1024\n").unwrap();
    let given = resolve_config(parse_tf_sources(&vec![sized()]).unwrap(), Some(vars)).unwrap();
    assert_eq!(
        given.get_f64(&given.resources[0], "memory_size"),
        Some(Number::Float("1024.0".to_string()))
    );
    assert_eq!(given.get_bool(&given.resources[0], "memory_size"), None);
}

#[test]
fn values_keep_their_kinds() {
    let vars = parse_tfvars_str(
        "a = true\nb = [1, \"x\"]\nc = { k = -2 }\nd = 1.5\ne = upper(\"x\")\nf = var.g\n\
         h = 9007199254740993\n",
    )
    .unwrap();
    assert_eq!(vars.get("a"), Some(&TfValue::Bool(true)));
    assert_eq!(
        vars.get("b"),
        Some(&TfValue::Array(vec![
            TfValue::Number(Number::Float("1.0".to_string())),
            TfValue::String("x".to_string())
        ]))
    );
    assert_eq!(
        vars.get("d"),
        Some(&TfValue::Number(Number::Float("1.5".to_string())))
    );
    // An integer is read as the nearest binary64 number.
    assert_eq!(
        vars.get("h"),
        Some(&TfValue::Number(Number::Float(format!("{:?}", 9007199254740992.0f64))))
    );
    assert_eq!(vars.get("e"), Some(&TfValue::Unknown));
    assert_eq!(vars.get("f"), Some(&TfValue::VarRef("g".to_string())));
    assert!(matches!(vars.get("c"), Some(TfValue::Object(_))));
}

#[test]
fn malformed_text_is_a_parse_error() {
    assert!(matches!(
        parse_tf_sources(&vec!["resource {".to_string()]),
        Err(TfError::ParseError(_))
    ));
    assert!(matches!(
        parse_tfvars_str("x = "),
        Err(TfError::ParseError(_))
    ));
}
