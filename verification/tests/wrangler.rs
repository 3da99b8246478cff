//! Wrangler configurations, and what their resources cost.

use std::collections::BTreeMap;
use std::ops::Range;
use std::sync::Arc;

use yevice::arch::Architecture;
use yevice::arch::ConnectionType;
use yevice::arch::LogicalId;
use yevice::json::Json;
use yevice::pricing::catalog::CatalogHandle;
use yevice::pricing::catalog::PriceCatalog;
use yevice::pricing::catalog::PricedValue;
use yevice::pricing::catalog::SharedCatalog;
use yevice::pricing::catalog::Sku;
use yevice::pricing::error::PricingError;
use yevice::service::api::Service;
use yevice::service::catalog::ServiceCatalog;
use yevice::wrangler::config::RawKvNamespace;
use yevice::wrangler::config::RawQueueProducer;
use yevice::wrangler::config::RawQueues;
use yevice::wrangler::config::RawWrangler;
use yevice::wrangler::error::WranglerError;
use yevice::wrangler::jsonc::plain_json;
use yevice::wrangler::jsonc::strip_jsonc_comments;
use yevice::wrangler::jsonc::strip_trailing_commas;
use yevice::wrangler::parser::build_architecture;
use yevice::wrangler::parser::default_worker_name;
use yevice::wrangler::parser::is_jsonc;
use yevice::wrangler::parser::parse_wrangler_str;
use yevice::wrangler::services::CloudflareD1Service;
use yevice::wrangler::services::CloudflareDurableObjectService;
use yevice::wrangler::services::CloudflareKvService;
use yevice::wrangler::services::CloudflareQueueService;
use yevice::wrangler::services::CloudflareR2Service;
use yevice::wrangler::services::CloudflareUsageModel;
use yevice::wrangler::services::CloudflareWorkerService;
use yevice::yaml::Number;

fn simple() -> &'static str {
    r#"
name = "simple-worker"
main = "src/index.ts"
compatibility_date = "2024-01-01"
"#
}

fn full() -> &'static str {
    r#"
name = "my-app"
main = "src/index.ts"
compatibility_date = "2024-01-01"
usage_model = "standard"

[[kv_namespaces]]
binding = "SESSIONS"
id = "kv-sessions"

[[kv_namespaces]]
binding = "CACHE"
id = "kv-cache"

[[r2_buckets]]
binding = "UPLOADS"
bucket_name = "uploads"

[[d1_databases]]
binding = "DB"
database_name = "main"
database_id = "db-id"

[[queues.producers]]
binding = "JOBS"
queue = "job-queue"

[[queues.consumers]]
queue = "job-queue"
max_batch_size = 10

[durable_objects]

[[durable_objects.bindings]]
name = "ROOM"
class_name = "ChatRoom"

[[durable_objects.bindings]]
name = "USER"
class_name = "UserSession"
"#
}

/// The text of a member of a JSON object.
fn member(value: &serde_json::Value, key: &str) -> String {
    value[key].as_str().unwrap_or_default().to_string()
}

#[test]
fn parses_jsonc_wranger_config() {
    let content = r#"
        {
          // Worker metadata
          "name": "edge-worker",
          "usage_model": "bundled",
          "kv_namespaces": [
            {
              "binding": "CACHE",
              "id": "kv-id",
            }
          ],
          "queues": {
            "producers": [
              {
                "binding": "JOBS",
                "queue": "jobs",
              }
            ]
          }
        }
        "#;

    let plain = plain_json(content);
    let value: serde_json::Value = serde_json::from_str(&plain).unwrap();
    let raw = RawWrangler {
        name: value["name"].as_str().map(str::to_string),
        usage_model: value["usage_model"].as_str().map(str::to_string),
        kv_namespaces: value["kv_namespaces"]
            .as_array()
            .unwrap()
            .iter()
            .map(|kv| RawKvNamespace {
                binding: member(kv, "binding"),
                id: member(kv, "id"),
            })
            .collect(),
        queues: Some(RawQueues {
            producers: value["queues"]["producers"]
                .as_array()
                .unwrap()
                .iter()
                .map(|p| RawQueueProducer {
                    binding: member(p, "binding"),
                    queue: member(p, "queue"),
                })
                .collect(),
            consumers: Vec::new(),
        }),
        ..RawWrangler::default()
    };
    let architecture = build_architecture(&raw, "fallback");
    assert_eq!(architecture.name, "edge-worker");
    assert_eq!(architecture.region.as_str(), "global");
    assert_eq!(architecture.resources.len(), 3);
}

#[test]
fn connections_kv_r2_d1_are_worker_to_resource_dataflow() {
    let content = r#"
name = "my-worker"

[[kv_namespaces]]
binding = "CACHE"
id = "kv-id"

[[r2_buckets]]
binding = "UPLOADS"
bucket_name = "my-bucket"

[[d1_databases]]
binding = "DB"
database_id = "db-id"
"#;
    let arch = parse_wrangler_str(content, "fallback").unwrap();

    let worker_id = LogicalId::new("my-worker");
    let kv_id = LogicalId::new("my-worker_kv_cache");
    let r2_id = LogicalId::new("my-worker_r2_my-bucket");
    let d1_id = LogicalId::new("my-worker_d1_db");

    assert_eq!(arch.connections.len(), 3);

    let has_conn = |source: &LogicalId, target: &LogicalId, ctype: &ConnectionType| {
        arch.connections
            .iter()
            .any(|c| &c.source == source && &c.target == target && &c.connection_type == ctype)
    };

    assert!(has_conn(&worker_id, &kv_id, &ConnectionType::DataFlow));
    assert!(has_conn(&worker_id, &r2_id, &ConnectionType::DataFlow));
    assert!(has_conn(&worker_id, &d1_id, &ConnectionType::DataFlow));
}

#[test]
fn connections_queue_producer_is_dataflow_consumer_is_eventsource() {
    let content = r#"
name = "my-worker"

[queues]

[[queues.producers]]
binding = "P"
queue = "my-queue"

[[queues.consumers]]
queue = "my-queue"
"#;
    let arch = parse_wrangler_str(content, "fallback").unwrap();

    let worker_id = LogicalId::new("my-worker");
    let queue_id = LogicalId::new("my-worker_queue_my_queue");

    // One queue resource (deduplicated), two connections: producer DataFlow + consumer EventSource
    assert_eq!(arch.connections.len(), 2);

    let producer_conn = arch
        .connections
        .iter()
        .find(|c| c.connection_type == ConnectionType::DataFlow);
    let consumer_conn = arch
        .connections
        .iter()
        .find(|c| c.connection_type == ConnectionType::EventSource);

    let producer_conn = producer_conn.expect("producer DataFlow connection present");
    assert_eq!(producer_conn.source, worker_id);
    assert_eq!(producer_conn.target, queue_id);

    let consumer_conn = consumer_conn.expect("consumer EventSource connection present");
    assert_eq!(consumer_conn.source, queue_id);
    assert_eq!(consumer_conn.target, worker_id);
}

#[test]
fn connections_durable_object_is_worker_to_do_dataflow() {
    let content = r#"
name = "my-worker"

[durable_objects]

[[durable_objects.bindings]]
name = "ROOM"
class_name = "ChatRoom"
"#;
    let arch = parse_wrangler_str(content, "fallback").unwrap();

    let worker_id = LogicalId::new("my-worker");
    let do_id = LogicalId::new("my-worker_do_chatroom");

    assert_eq!(arch.connections.len(), 1);
    let conn = &arch.connections[0];
    assert_eq!(conn.source, worker_id);
    assert_eq!(conn.target, do_id);
    assert_eq!(conn.connection_type, ConnectionType::DataFlow);
}

#[test]
fn connections_no_dangling_edges_for_missing_resources() {
    let raw = RawWrangler {
        name: Some("w".to_string()),
        kv_namespaces: vec![RawKvNamespace {
            binding: "MY_KV".to_string(),
            id: String::new(),
        }],
        ..RawWrangler::default()
    };
    let arch = build_architecture(&raw, "w");

    // Worker + KV = 2 resources, 1 DataFlow connection
    assert_eq!(arch.resources.len(), 2);
    assert_eq!(arch.connections.len(), 1);
    assert_eq!(
        arch.connections[0].connection_type,
        ConnectionType::DataFlow
    );
    assert_eq!(arch.connections[0].source, LogicalId::new("w"));
    assert_eq!(arch.connections[0].target, LogicalId::new("w_kv_my_kv"));
}

#[test]
fn full_fixture_has_expected_connection_count() {
    // 2 KV + 1 R2 + 1 D1 + 1 Queue (producer+consumer) + 2 DO
    // Expected connections:
    //   2 KV DataFlow + 1 R2 DataFlow + 1 D1 DataFlow
    //   + 1 Queue producer DataFlow + 1 Queue consumer EventSource
    //   + 2 DO DataFlow  = 8 connections
    let arch = parse_wrangler_str(full(), "wrangler_full").unwrap();

    assert_eq!(arch.connections.len(), 8);

    let event_sources: Vec<_> = arch
        .connections
        .iter()
        .filter(|c| c.connection_type == ConnectionType::EventSource)
        .collect();
    assert_eq!(event_sources.len(), 1, "one queue consumer EventSource");

    let data_flows: Vec<_> = arch
        .connections
        .iter()
        .filter(|c| c.connection_type == ConnectionType::DataFlow)
        .collect();
    assert_eq!(data_flows.len(), 7, "seven DataFlow edges");
}

/// `Cloudflare` services compute prices inline (the catalog is unused), so the
/// test catalog only needs to satisfy the trait.
struct EmptyCatalog;

impl PriceCatalog for EmptyCatalog {
    fn region(&self) -> &str {
        "global"
    }

    fn lookup(&self, sku: &Sku) -> Result<PricedValue, PricingError> {
        Err(PricingError::NotFound {
            service: sku.as_str().to_string(),
            region: "global".to_string(),
        })
    }
}

fn empty_catalog() -> CatalogHandle {
    CatalogHandle::Shared(SharedCatalog {
        catalog: Arc::new(EmptyCatalog),
    })
}

fn cf_catalog() -> ServiceCatalog {
    let mut catalog = ServiceCatalog::new();
    yevice::wrangler::plugin::register(&mut catalog);
    catalog
}

#[test]
fn parses_simple_worker_only() {
    let arch = parse_wrangler_str(simple(), "wrangler_simple").unwrap();

    assert_eq!(arch.name, "simple-worker");
    assert_eq!(arch.region.as_str(), "global");
    assert_eq!(arch.resources.len(), 1);
    assert_eq!(arch.resources[0].shell.service_id, "cloudflare.worker");
}

fn count_by_type(arch: &Architecture, kind: &str) -> usize {
    arch.resources
        .iter()
        .filter(|r| r.resource_type.as_str() == kind)
        .count()
}

#[test]
fn parses_full_wrangler_with_all_resource_kinds() {
    let arch = parse_wrangler_str(full(), "wrangler_full").unwrap();

    assert_eq!(arch.name, "my-app");

    assert_eq!(count_by_type(&arch, "cloudflare_worker"), 1);
    assert_eq!(count_by_type(&arch, "cloudflare_workers_kv_namespace"), 2); // SESSIONS + CACHE
    assert_eq!(count_by_type(&arch, "cloudflare_r2_bucket"), 1);
    assert_eq!(count_by_type(&arch, "cloudflare_d1_database"), 1);
    assert_eq!(count_by_type(&arch, "cloudflare_queue"), 1); // deduped: job-queue
    assert_eq!(count_by_type(&arch, "cloudflare_durable_object"), 2); // ChatRoom + UserSession
}

#[test]
fn worker_usage_model_decodes_as_standard() {
    let arch = parse_wrangler_str(full(), "wrangler_full").unwrap();

    let worker = arch
        .resources
        .iter()
        .find(|r| r.shell.service_id == "cloudflare.worker")
        .expect("worker resource present");

    let spec = CloudflareWorkerService.decode(&worker.shell.spec).unwrap();
    assert!(matches!(spec.usage_model, CloudflareUsageModel::Standard));
}

#[test]
fn build_cost_model_yields_one_cost_per_resource() {
    let arch = parse_wrangler_str(full(), "wrangler_full").unwrap();
    let catalog = cf_catalog();
    let pricing = empty_catalog();

    let cost_model = catalog.build_cost_model(&arch, &pricing, true).unwrap();

    // 1 Worker + 2 KV + 1 R2 + 1 D1 + 1 Queue + 2 DO = 8 resources
    assert_eq!(cost_model.resources.len(), 8);

    let labels: Vec<&str> = cost_model
        .resources
        .iter()
        .map(|c| c.label.as_str())
        .collect();
    assert!(labels.iter().any(|l| l.contains("Workers")));
    assert!(labels.iter().any(|l| l.contains("R2")));
    assert!(labels.iter().any(|l| l.contains("D1")));
}

#[test]
fn worker_cost_declares_required_variables() {
    let arch = parse_wrangler_str(simple(), "wrangler_simple").unwrap();
    let catalog = cf_catalog();
    let pricing = empty_catalog();

    let cost_model = catalog.build_cost_model(&arch, &pricing, true).unwrap();
    let worker_cost = &cost_model.resources[0];

    let var_names: Vec<&str> = worker_cost
        .required_variables
        .iter()
        .map(|v| v.name.as_str())
        .collect();

    assert!(var_names.iter().any(|n| n.contains("monthly_requests")));
    assert!(var_names.iter().any(|n| n.contains("avg_cpu_ms")));
}

#[test]
fn queue_producer_and_consumer_dedupe_to_single_resource() {
    let content = r#"
name = "test"
main = "src/index.ts"
compatibility_date = "2024-01-01"

[queues]

[[queues.producers]]
binding = "P"
queue = "my-queue"

[[queues.consumers]]
queue = "my-queue"
"#;
    let arch = parse_wrangler_str(content, "test").unwrap();
    let queues: Vec<_> = arch
        .resources
        .iter()
        .filter(|r| r.resource_type.as_str() == "cloudflare_queue")
        .collect();
    assert_eq!(queues.len(), 1);
}

#[test]
fn jsonc_keeps_comment_marks_inside_strings() {
    let content = "{\"url\": \"https://x/*y*/\", /* gone */ \"q\": \"a\\\"//b\" // end\n}";
    assert_eq!(
        strip_jsonc_comments(content),
        "{\"url\": \"https://x/*y*/\",  \"q\": \"a\\\"//b\" \n}"
    );
}

#[test]
fn jsonc_drops_only_commas_before_a_bracket() {
    assert_eq!(
        strip_trailing_commas("[1, 2 , ] {\"a\": \",]\",\n}"),
        "[1, 2  ] {\"a\": \",]\"\n}"
    );
    assert_eq!(strip_trailing_commas("[1,2]"), "[1,2]");
    assert_eq!(plain_json("[1, /* two */ ] // end"), "[1  ] ");
}

#[test]
fn file_names_choose_the_syntax_and_the_name() {
    assert!(is_jsonc("app/wrangler.jsonc"));
    assert!(is_jsonc("app/wrangler.JSONC"));
    assert!(!is_jsonc("app/wrangler.json"));
    assert!(!is_jsonc("app/wrangler.toml"));
    assert_eq!(default_worker_name("deploy/api/wrangler.toml"), "api");
    assert_eq!(default_worker_name("wrangler.toml"), "worker");
}

#[test]
fn nameless_configuration_takes_the_default_name() {
    let arch = parse_wrangler_str("main = \"x.ts\"\n", "fallback").unwrap();
    assert_eq!(arch.name, "fallback");
    assert_eq!(arch.resources[0].logical_id.as_str(), "fallback");
}

#[test]
fn malformed_configurations_are_parse_errors() {
    for content in ["name = ", "name = 3\n", "kv_namespaces = \"x\"\n"] {
        let err = parse_wrangler_str(content, "w").unwrap_err();
        assert!(
            err.message().starts_with("failed to parse Wrangler config: "),
            "{}",
            err.message()
        );
    }
}

/// Numbers under keys that nobody reads do not matter, as long as they can be
/// read at all.
#[test]
fn large_numbers_under_other_keys_are_ignored() {
    let arch = parse_wrangler_str("name = \"w\"\nlimit = 18446744073709551615\n", "d").unwrap();
    assert_eq!(arch.resources[0].logical_id.as_str(), "w");
    let too_large = "name = \"w\"\nlimit = 1000000000000000000000000000000000000000000\n";
    assert!(matches!(
        parse_wrangler_str(too_large, "d"),
        Err(WranglerError::ParseError(_))
    ));
}

/// What a configuration that cannot be read is refused with.
fn refusal(content: &str) -> String {
    match parse_wrangler_str(content, "w") {
        Err(WranglerError::ParseError(cause)) => cause,
        other => panic!("{content:?} gives {other:?}"),
    }
}

fn toml_error<T: serde::de::DeserializeOwned>(content: &str) -> String {
    match toml::from_str::<T>(content) {
        Err(e) => e.to_string(),
        Ok(_) => panic!("{content:?} can be read"),
    }
}

#[test]
fn a_text_of_the_wrong_kind_is_reported_with_its_place() {
    assert_eq!(
        refusal("# x\nname = 5\n"),
        "TOML parse error at line 2, column 8\n  |\n2 | name = 5\n  |        ^\n\
         invalid type: integer `5`, expected a string\n"
    );
    for content in [
        "name = 5",
        "name = -7\n",
        "name = 0xFF # hex\n",
        "\n\nname = true\n",
        "name = 1.5\n",
        "name = inf\n",
        "name = [\"a\"]\n",
        "name = { a = \"b\" }\n",
        "name = 1979-05-27\n",
        "name = 1000000000000000000000000000000000000000000\n",
        "usage_model = 3\nname = \"w\"\n",
        "usage_model = 3\nname = 4\n",
        "name = \"ü\"\nusage_model = [\n  1,\n  2,\n]\n",
    ] {
        assert_eq!(refusal(content), toml_error::<BTreeMap<String, String>>(content));
    }
}

#[test]
fn a_malformed_document_is_reported_as_it_is_parsed() {
    for content in ["name = ", "name = \"a\nb\"\n", "[queues\n", "a = 1\na = 2\n"] {
        assert_eq!(refusal(content), toml_error::<BTreeMap<String, String>>(content));
    }
}

#[test]
fn a_list_of_the_wrong_kind_is_reported_with_its_place() {
    for content in [
        "kv_namespaces = \"x\"\n",
        "r2_buckets = 3\n",
        "d1_databases = { a = 1 }\n",
        "kv_namespaces = [{ binding = 3 }]\n",
        "kv_namespaces = [{ binding = \"A\" }, { binding = \"B\", id = false }]\n",
        "[[r2_buckets]]\nbinding = \"A\"\nbucket_name = 2.5\n",
    ] {
        assert_eq!(
            refusal(content),
            toml_error::<BTreeMap<String, Vec<BTreeMap<String, String>>>>(content)
        );
    }
    for content in [
        "[queues]\nproducers = 1\n",
        "[queues]\nproducers = []\nconsumers = \"q\"\n",
        "[durable_objects]\nbindings = false\n",
        "durable_objects = { bindings = [{ name = 1 }] }\n",
    ] {
        assert_eq!(
            refusal(content),
            toml_error::<BTreeMap<String, BTreeMap<String, Vec<BTreeMap<String, String>>>>>(content)
        );
    }
}

#[test]
fn an_item_of_the_wrong_kind_is_reported_with_its_place() {
    for (content, name) in [
        ("kv_namespaces = [1]\n", "struct RawKvNamespace"),
        ("r2_buckets = [\"a\"]\n", "struct RawR2Bucket"),
        ("d1_databases = [true]\n", "struct RawD1Database"),
    ] {
        let said = toml_error::<BTreeMap<String, Vec<Range<String>>>>(content);
        assert_eq!(refusal(content), said.replace("struct Range", name));
    }
    for (content, name) in [
        ("queues = { producers = [1] }\n", "struct RawQueueProducer"),
        ("queues = { consumers = [\"q\"] }\n", "struct RawQueueConsumer"),
        ("durable_objects = { bindings = [0.5] }\n", "struct RawDoBinding"),
    ] {
        let said = toml_error::<BTreeMap<String, BTreeMap<String, Vec<Range<String>>>>>(content);
        assert_eq!(refusal(content), said.replace("struct Range", name));
    }
    for (content, name) in [
        ("name = \"w\"\nqueues = 1\n", "struct RawQueues"),
        ("name = \"w\"\ndurable_objects = \"x\"\n", "struct RawDurableObjects"),
    ] {
        let only = content.replace("name = \"w\"\n", "\n");
        let said = toml_error::<BTreeMap<String, Range<String>>>(&only);
        assert_eq!(refusal(&only), said.replace("struct Range", name));
        assert!(refusal(content).ends_with(&format!("expected {name}\n")));
    }
}

#[test]
fn a_missing_field_is_reported_at_its_record() {
    for (content, field) in [
        ("kv_namespaces = [{}]\n", "binding"),
        ("[[r2_buckets]]\n", "binding"),
        ("d1_databases = [ {  } ]\n", "binding"),
    ] {
        let said = toml_error::<BTreeMap<String, Vec<Range<String>>>>(content);
        assert_eq!(refusal(content), said.replace("`start`", &format!("`{field}`")));
    }
    for (content, field) in [
        ("queues = { producers = [{}] }\n", "binding"),
        ("[[queues.consumers]]\n", "queue"),
        ("[[durable_objects.bindings]]\n", "name"),
    ] {
        let said = toml_error::<BTreeMap<String, BTreeMap<String, Vec<Range<String>>>>>(content);
        assert_eq!(refusal(content), said.replace("`start`", &format!("`{field}`")));
    }
    // a date and time has fields, but none that is wanted
    assert_eq!(
        refusal("kv_namespaces = [1979-05-27]\n"),
        "TOML parse error at line 1, column 18\n  |\n1 | kv_namespaces = [1979-05-27]\n  \
         |                  ^^^^^^^^^^\nmissing field `binding`\n"
    );
    // the second field of a record is missed only after the first
    assert!(refusal("[[queues.producers]]\nbinding = \"Q\"\n").ends_with("missing field `queue`\n"));
    assert!(
        refusal("[[durable_objects.bindings]]\nname = \"D\"\n")
            .ends_with("missing field `class_name`\n")
    );
}

#[test]
fn a_record_may_stand_as_a_list() {
    let arch = parse_wrangler_str(
        "name = \"w\"\nkv_namespaces = [[\"KV\"]]\nr2_buckets = [[\"B\", \"b\"]]\n",
        "d",
    )
    .unwrap();
    assert_eq!(arch.resources.len(), 3);
    for (content, name) in [
        ("kv_namespaces = [[]]\n", "struct RawKvNamespace with 2 elements"),
        ("r2_buckets = [[\"B\"]]\n", "struct RawR2Bucket with 2 elements"),
        ("d1_databases = [[\"B\"]]\n", "struct RawD1Database with 2 elements"),
    ] {
        let said = toml_error::<BTreeMap<String, Vec<Range<String>>>>(content);
        assert_eq!(refusal(content), said.replace("struct Range", name));
    }
    for (content, name) in [
        ("queues = { producers = [[\"B\"]] }\n", "struct RawQueueProducer with 2 elements"),
        ("queues = { consumers = [[]] }\n", "struct RawQueueConsumer with 1 element"),
        ("durable_objects = { bindings = [[]] }\n", "struct RawDoBinding with 2 elements"),
    ] {
        let said = toml_error::<BTreeMap<String, BTreeMap<String, Vec<Range<String>>>>>(content);
        assert_eq!(refusal(content), said.replace("struct Range", name));
    }
    assert!(refusal("kv_namespaces = [[1]]\n").ends_with("invalid type: integer `1`, expected a string\n"));
}

/// Nothing is wanted under other keys, but a number there has to be readable.
#[test]
fn unreadable_numbers_are_reported_with_their_place() {
    for content in [
        "name = \"w\"\nlimit = 1000000000000000000000000000000000000000000\n",
        "limits = [1, { cpu = 1000000000000000000000000000000000000000000 }]\n",
        "[vars]\na = \"x\"\n[vars.b]\nc = [1, [1000000000000000000000000000000000000000000]]\n",
    ] {
        assert_eq!(
            refusal(content),
            toml_error::<BTreeMap<String, serde::de::IgnoredAny>>(content)
        );
    }
}

fn worker_refusal(spec: &Json) -> String {
    CloudflareWorkerService.decode(spec).unwrap_err()
}

fn json_error<T: serde::de::DeserializeOwned>(value: serde_json::Value) -> String {
    match serde_json::from_value::<T>(value) {
        Err(e) => e.to_string(),
        Ok(_) => panic!("the value can be read"),
    }
}

/// Pairs of equal values: the library's and the one of the JSON crate.
fn json_scalars() -> Vec<(Json, serde_json::Value)> {
    vec![
        (Json::Bool(true), serde_json::Value::from(true)),
        (Json::Number(Number::PosInt(7)), serde_json::Value::from(7)),
        (Json::Number(Number::NegInt(-7)), serde_json::Value::from(-7)),
        (
            Json::Number(Number::Float("1.5".to_owned())),
            serde_json::Value::from(1.5),
        ),
        (
            Json::Number(Number::Float("2.0".to_owned())),
            serde_json::Value::from(2.0),
        ),
        (
            Json::Number(Number::Float("1e300".to_owned())),
            serde_json::Value::from(1e300),
        ),
        (
            Json::String("a \"b\"\n".to_owned()),
            serde_json::Value::from("a \"b\"\n"),
        ),
    ]
}

#[test]
fn descriptions_of_the_wrong_kind_are_refused_with_their_kind() {
    let mut scalars = json_scalars();
    scalars.push((Json::Null, serde_json::Value::Null));
    for (spec, value) in scalars {
        let said = json_error::<Range<u8>>(value);
        assert_eq!(worker_refusal(&spec), said.replace("struct Range", "struct CloudflareWorkerSpec"));
        assert_eq!(
            CloudflareKvService.decode(&spec).unwrap_err(),
            said.replace("struct Range", "struct CloudflareKvSpec")
        );
        assert_eq!(
            CloudflareR2Service.decode(&spec).unwrap_err(),
            said.replace("struct Range", "struct CloudflareR2Spec")
        );
        assert_eq!(
            CloudflareD1Service.decode(&spec).unwrap_err(),
            said.replace("struct Range", "struct CloudflareD1Spec")
        );
        assert_eq!(
            CloudflareQueueService.decode(&spec).unwrap_err(),
            said.replace("struct Range", "struct CloudflareQueueSpec")
        );
        assert_eq!(
            CloudflareDurableObjectService.decode(&spec).unwrap_err(),
            said.replace("struct Range", "struct CloudflareDurableObjectSpec")
        );
    }
}

#[test]
fn usage_models_are_refused_with_the_reason() {
    let with = |model: Json| Json::Object(vec![("usage_model".to_owned(), model)]);
    let unknown = json_error::<Result<u8, u8>>(serde_json::Value::from("x"));
    let said = unknown.replace("`Ok` or `Err`", "`Standard` or `Bundled`");
    assert_eq!(said, "unknown variant `x`, expected `Standard` or `Bundled`");
    assert_eq!(worker_refusal(&with(Json::String("x".to_owned()))), said);
    assert_eq!(
        worker_refusal(&with(Json::Object(vec![("x".to_owned(), Json::Null)]))),
        said
    );

    let empty = serde_json::Value::Object(serde_json::Map::new());
    let several = json_error::<Result<u8, u8>>(empty);
    assert_eq!(worker_refusal(&with(Json::Object(Vec::new()))), several);

    for (spec, value) in json_scalars() {
        let unit = json_error::<()>(value.clone());
        let named = Json::Object(vec![("Bundled".to_owned(), spec)]);
        assert_eq!(worker_refusal(&with(named)), unit);
    }
    for (spec, value) in json_scalars() {
        if value.is_string() {
            continue;
        }
        let said = json_error::<Result<u8, u8>>(value);
        assert_eq!(worker_refusal(&with(spec)), said);
    }
    assert!(worker_refusal(&with(Json::Null)).starts_with("invalid type: null, expected "));
}

#[test]
fn descriptions_with_too_many_elements_are_refused() {
    let three = serde_json::Value::Array(vec![
        serde_json::Value::from(1),
        serde_json::Value::from(2),
        serde_json::Value::from(3),
    ]);
    let said = json_error::<Range<u8>>(three);
    assert_eq!(said, "invalid length 3, expected fewer elements in array");
    let model = || Json::String("Bundled".to_owned());
    assert_eq!(worker_refusal(&Json::Array(vec![model(), Json::Null, Json::Null])), said);
    assert_eq!(
        CloudflareKvService
            .decode(&Json::Array(vec![Json::Null, Json::Null, Json::Null]))
            .unwrap_err(),
        said
    );
    assert!(CloudflareWorkerService.decode(&Json::Array(vec![model()])).is_ok());
}
