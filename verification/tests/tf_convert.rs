//! Connections and raw resources out of configurations.

use yevice::arch::ConnectionType;
use yevice::arch::LogicalId;
use yevice::arch::Resource;
use yevice::arch::ResourceShell;
use yevice::arch::ResourceType;
use yevice::json::Json;
use yevice::strmap::StrMap;
use yevice::tf::convert::build_connections;
use yevice::tf::convert::logical_id_for;
use yevice::tf::convert::tf_resource_to_raw;
use yevice::tf::convert::tf_value_to_json;
use yevice::tf::parser::TfResource;
use yevice::tf::parser::TfValue;
use yevice::yaml::Number;

/// Build a minimal `Resource` node for the node-set guard.
fn node(resource_type: &str, name: &str) -> Resource {
    let lid = logical_id_for(resource_type, name);
    Resource {
        logical_id: LogicalId::new(&lid),
        resource_type: ResourceType::new(resource_type),
        shell: ResourceShell::other(resource_type),
        group: None,
    }
}

/// Build a minimal `TfResource` for `aws_s3_bucket_notification` with one
/// `lambda_function` block whose `events` attribute is `events_list`.
fn s3_notif_resource(
    bucket_type: &str,
    bucket_name: &str,
    lambda_type: &str,
    lambda_name: &str,
    events_list: Vec<&str>,
) -> TfResource {
    let mut attrs = StrMap::new();
    attrs.insert(
        "bucket".to_string(),
        TfValue::ResourceRef {
            resource_type: bucket_type.to_string(),
            name: bucket_name.to_string(),
            attr: "id".to_string(),
        },
    );

    let events_tf: Vec<TfValue> = events_list
        .into_iter()
        .map(|e| TfValue::String(e.to_string()))
        .collect();
    let mut block_attrs = StrMap::new();
    block_attrs.insert(
        "lambda_function_arn".to_string(),
        TfValue::ResourceRef {
            resource_type: lambda_type.to_string(),
            name: lambda_name.to_string(),
            attr: "arn".to_string(),
        },
    );
    block_attrs.insert("events".to_string(), TfValue::Array(events_tf));

    let mut blocks = StrMap::new();
    blocks.insert("lambda_function".to_string(), vec![block_attrs]);

    TfResource {
        resource_type: "aws_s3_bucket_notification".to_string(),
        name: "notif".to_string(),
        attrs,
        blocks,
    }
}

/// `events = ["s3:ObjectCreated:*"]` must produce a Notification edge.
#[test]
fn object_created_event_produces_notification_edge() {
    let bucket = node("aws_s3_bucket", "my_bucket");
    let lambda = node("aws_lambda_function", "my_lambda");
    let notif = s3_notif_resource(
        "aws_s3_bucket",
        "my_bucket",
        "aws_lambda_function",
        "my_lambda",
        vec!["s3:ObjectCreated:*"],
    );

    let tf_resources = vec![notif];
    let resources = vec![bucket, lambda];
    let conns = build_connections(&tf_resources, &resources);

    let edge = conns.iter().find(|c| {
        c.connection_type == ConnectionType::Notification
            && c.source.as_str() == "aws_s3_bucket_my_bucket"
            && c.target.as_str() == "aws_lambda_function_my_lambda"
    });
    assert!(
        edge.is_some(),
        "expected Notification edge for s3:ObjectCreated:*; connections = {conns:?}",
    );
}

/// `events = ["s3:ObjectRemoved:*"]` must NOT produce a Notification edge.
#[test]
fn object_removed_event_skipped() {
    let bucket = node("aws_s3_bucket", "my_bucket");
    let lambda = node("aws_lambda_function", "my_lambda");
    let notif = s3_notif_resource(
        "aws_s3_bucket",
        "my_bucket",
        "aws_lambda_function",
        "my_lambda",
        vec!["s3:ObjectRemoved:*"],
    );

    let tf_resources = vec![notif];
    let resources = vec![bucket, lambda];
    let conns = build_connections(&tf_resources, &resources);

    assert!(
        conns.is_empty(),
        "expected no Notification edge for s3:ObjectRemoved:*; connections = {conns:?}",
    );
}

/// `events = ["s3:ObjectRestore:*"]` must NOT produce a Notification edge.
#[test]
fn object_restore_event_skipped() {
    let bucket = node("aws_s3_bucket", "my_bucket");
    let lambda = node("aws_lambda_function", "my_lambda");
    let notif = s3_notif_resource(
        "aws_s3_bucket",
        "my_bucket",
        "aws_lambda_function",
        "my_lambda",
        vec!["s3:ObjectRestore:*"],
    );

    let tf_resources = vec![notif];
    let resources = vec![bucket, lambda];
    let conns = build_connections(&tf_resources, &resources);

    assert!(
        conns.is_empty(),
        "expected no Notification edge for s3:ObjectRestore:*; connections = {conns:?}",
    );
}

/// Mixed events: one ObjectCreated + one ObjectRemoved block → only the
/// ObjectCreated block contributes a Notification edge.
#[test]
fn mixed_events_only_object_created_block_produces_edge() {
    let bucket = node("aws_s3_bucket", "my_bucket");
    let lambda_a = node("aws_lambda_function", "fn_a");
    let lambda_b = node("aws_lambda_function", "fn_b");

    // Build the notification resource manually with two lambda_function blocks.
    let mut attrs = StrMap::new();
    attrs.insert(
        "bucket".to_string(),
        TfValue::ResourceRef {
            resource_type: "aws_s3_bucket".to_string(),
            name: "my_bucket".to_string(),
            attr: "id".to_string(),
        },
    );

    let mut block_created = StrMap::new();
    block_created.insert(
        "lambda_function_arn".to_string(),
        TfValue::ResourceRef {
            resource_type: "aws_lambda_function".to_string(),
            name: "fn_a".to_string(),
            attr: "arn".to_string(),
        },
    );
    block_created.insert(
        "events".to_string(),
        TfValue::Array(vec![TfValue::String("s3:ObjectCreated:*".to_string())]),
    );

    let mut block_removed = StrMap::new();
    block_removed.insert(
        "lambda_function_arn".to_string(),
        TfValue::ResourceRef {
            resource_type: "aws_lambda_function".to_string(),
            name: "fn_b".to_string(),
            attr: "arn".to_string(),
        },
    );
    block_removed.insert(
        "events".to_string(),
        TfValue::Array(vec![TfValue::String("s3:ObjectRemoved:*".to_string())]),
    );

    let mut blocks = StrMap::new();
    blocks.insert(
        "lambda_function".to_string(),
        vec![block_created, block_removed],
    );

    let notif = TfResource {
        resource_type: "aws_s3_bucket_notification".to_string(),
        name: "notif".to_string(),
        attrs,
        blocks,
    };

    let tf_resources = vec![notif];
    let resources = vec![bucket, lambda_a, lambda_b];
    let conns = build_connections(&tf_resources, &resources);

    assert_eq!(
        conns.len(),
        1,
        "expected exactly one Notification edge; connections = {conns:?}",
    );
    assert_eq!(conns[0].source.as_str(), "aws_s3_bucket_my_bucket");
    assert_eq!(conns[0].target.as_str(), "aws_lambda_function_fn_a");
    assert_eq!(conns[0].connection_type, ConnectionType::Notification);
}

fn subscription(
    sub_name: &str,
    topic_type: &str,
    topic_name: &str,
    endpoint: TfValue,
) -> TfResource {
    let mut attrs = StrMap::new();
    attrs.insert(
        "topic_arn".to_string(),
        TfValue::ResourceRef {
            resource_type: topic_type.to_string(),
            name: topic_name.to_string(),
            attr: "arn".to_string(),
        },
    );
    attrs.insert("endpoint".to_string(), endpoint);
    attrs.insert(
        "protocol".to_string(),
        TfValue::String("lambda".to_string()),
    );
    TfResource {
        resource_type: "aws_sns_topic_subscription".to_string(),
        name: sub_name.to_string(),
        attrs,
        blocks: StrMap::new(),
    }
}

/// Two subscriptions with ResourceRef endpoints must each produce a
/// Notification edge from the SNS topic to the respective subscriber.
#[test]
fn two_subscriptions_produce_two_notification_edges() {
    let topic = node("aws_sns_topic", "my_topic");
    let lambda = node("aws_lambda_function", "fn_a");
    let queue = node("aws_sqs_queue", "q_a");

    let sub_lambda = subscription(
        "sub_lambda",
        "aws_sns_topic",
        "my_topic",
        TfValue::ResourceRef {
            resource_type: "aws_lambda_function".to_string(),
            name: "fn_a".to_string(),
            attr: "arn".to_string(),
        },
    );
    let sub_sqs = subscription(
        "sub_sqs",
        "aws_sns_topic",
        "my_topic",
        TfValue::ResourceRef {
            resource_type: "aws_sqs_queue".to_string(),
            name: "q_a".to_string(),
            attr: "arn".to_string(),
        },
    );

    let tf_resources = vec![sub_lambda, sub_sqs];
    let resources = vec![topic, lambda, queue];
    let conns = build_connections(&tf_resources, &resources);

    assert_eq!(
        conns.len(),
        2,
        "expected 2 Notification edges; connections = {conns:?}",
    );
    let has_lambda_edge = conns.iter().any(|c| {
        c.connection_type == ConnectionType::Notification
            && c.source.as_str() == "aws_sns_topic_my_topic"
            && c.target.as_str() == "aws_lambda_function_fn_a"
    });
    let has_sqs_edge = conns.iter().any(|c| {
        c.connection_type == ConnectionType::Notification
            && c.source.as_str() == "aws_sns_topic_my_topic"
            && c.target.as_str() == "aws_sqs_queue_q_a"
    });
    assert!(
        has_lambda_edge,
        "missing topic→lambda Notification edge; connections = {conns:?}",
    );
    assert!(
        has_sqs_edge,
        "missing topic→sqs Notification edge; connections = {conns:?}",
    );
}

/// A subscription whose `endpoint` is a literal string (e.g. http/email)
/// must NOT produce any edge.
#[test]
fn literal_endpoint_produces_no_edge() {
    let topic = node("aws_sns_topic", "my_topic");

    let sub_http = subscription(
        "sub_http",
        "aws_sns_topic",
        "my_topic",
        TfValue::String("https://example.com/hook".to_string()),
    );

    let tf_resources = vec![sub_http];
    let resources = vec![topic];
    let conns = build_connections(&tf_resources, &resources);

    assert!(
        conns.is_empty(),
        "expected no edge for literal endpoint; connections = {conns:?}",
    );
}

/// Helper: build a subscription with an explicit protocol string.
fn subscription_with_protocol(
    sub_name: &str,
    topic_type: &str,
    topic_name: &str,
    protocol: &str,
    endpoint: TfValue,
) -> TfResource {
    let mut attrs = StrMap::new();
    attrs.insert(
        "topic_arn".to_string(),
        TfValue::ResourceRef {
            resource_type: topic_type.to_string(),
            name: topic_name.to_string(),
            attr: "arn".to_string(),
        },
    );
    attrs.insert("endpoint".to_string(), endpoint);
    attrs.insert(
        "protocol".to_string(),
        TfValue::String(protocol.to_string()),
    );
    TfResource {
        resource_type: "aws_sns_topic_subscription".to_string(),
        name: sub_name.to_string(),
        attrs,
        blocks: StrMap::new(),
    }
}

/// protocol=https with ResourceRef endpoint must NOT produce any edge.
#[test]
fn https_protocol_with_resource_ref_endpoint_produces_no_edge() {
    let topic = node("aws_sns_topic", "my_topic");
    let lambda = node("aws_lambda_function", "fn_a");

    let sub_https = subscription_with_protocol(
        "sub_https",
        "aws_sns_topic",
        "my_topic",
        "https",
        TfValue::ResourceRef {
            resource_type: "aws_lambda_function".to_string(),
            name: "fn_a".to_string(),
            attr: "invoke_arn".to_string(),
        },
    );

    let tf_resources = vec![sub_https];
    let resources = vec![topic, lambda];
    let conns = build_connections(&tf_resources, &resources);

    assert!(
        conns.is_empty(),
        "expected no edge for https protocol even with ResourceRef endpoint; connections = {conns:?}",
    );
}

/// protocol=sqs with ResourceRef endpoint must produce a Notification edge.
#[test]
fn sqs_protocol_produces_notification_edge() {
    let topic = node("aws_sns_topic", "my_topic");
    let queue = node("aws_sqs_queue", "my_queue");

    let sub_sqs = subscription_with_protocol(
        "sub_sqs",
        "aws_sns_topic",
        "my_topic",
        "sqs",
        TfValue::ResourceRef {
            resource_type: "aws_sqs_queue".to_string(),
            name: "my_queue".to_string(),
            attr: "arn".to_string(),
        },
    );

    let tf_resources = vec![sub_sqs];
    let resources = vec![topic, queue];
    let conns = build_connections(&tf_resources, &resources);

    assert_eq!(
        conns.len(),
        1,
        "expected one Notification edge for sqs protocol; connections = {conns:?}",
    );
    assert_eq!(conns[0].source.as_str(), "aws_sns_topic_my_topic");
    assert_eq!(conns[0].target.as_str(), "aws_sqs_queue_my_queue");
    assert_eq!(conns[0].connection_type, ConnectionType::Notification);
}

/// A resource with one concrete attr and one unresolved VarRef attr must
/// produce a `RawTfResource` where only the concrete attr is present.
/// The unresolved key must be absent from `raw.attrs`.
#[test]
fn unresolved_varref_attr_is_absent_from_raw() {
    let mut attrs = StrMap::new();
    attrs.insert(
        "instance_type".to_string(),
        TfValue::VarRef("instance_type_var".to_string()),
    );
    attrs.insert("ami".to_string(), TfValue::String("ami-12345".to_string()));

    let resource = TfResource {
        resource_type: "aws_instance".to_string(),
        name: "web".to_string(),
        attrs,
        blocks: StrMap::new(),
    };

    let raw = tf_resource_to_raw(&resource, "aws_instance_web");

    // The concrete attr must be present.
    assert_eq!(
        raw.get_str("ami"),
        Some("ami-12345"),
        "concrete attr must be present in raw"
    );
    // The unresolved VarRef attr must be absent.
    assert!(
        !raw.attrs.contains_key("instance_type"),
        "unresolved VarRef attr must be absent from raw; raw.attrs = {:?}",
        raw.attrs
    );
}

/// Same check for `LocalRef`.
#[test]
fn unresolved_localref_attr_is_absent_from_raw() {
    let mut attrs = StrMap::new();
    attrs.insert(
        "node_type".to_string(),
        TfValue::LocalRef("node_type_local".to_string()),
    );

    let resource = TfResource {
        resource_type: "aws_elasticache_cluster".to_string(),
        name: "cache".to_string(),
        attrs,
        blocks: StrMap::new(),
    };

    let raw = tf_resource_to_raw(&resource, "aws_elasticache_cluster_cache");

    assert!(
        !raw.attrs.contains_key("node_type"),
        "unresolved LocalRef attr must be absent from raw; raw.attrs = {:?}",
        raw.attrs
    );
}

/// Same check for `Unknown`.
#[test]
fn unknown_attr_is_absent_from_raw() {
    let mut attrs = StrMap::new();
    attrs.insert("memory_size".to_string(), TfValue::Unknown);
    attrs.insert(
        "runtime".to_string(),
        TfValue::String("python3.12".to_string()),
    );

    let resource = TfResource {
        resource_type: "aws_lambda_function".to_string(),
        name: "fn".to_string(),
        attrs,
        blocks: StrMap::new(),
    };

    let raw = tf_resource_to_raw(&resource, "aws_lambda_function_fn");

    assert!(
        !raw.attrs.contains_key("memory_size"),
        "Unknown attr must be absent from raw; raw.attrs = {:?}",
        raw.attrs
    );
    assert_eq!(raw.get_str("runtime"), Some("python3.12"));
}

/// An Object whose values are all concrete scalars must convert to a
/// JSON object with the same keys and values.
#[test]
fn object_of_scalars_converts_to_json_object() {
    let mut map: Vec<(String, TfValue)> = Vec::new();
    map.push((
        "KEY".to_string(),
        TfValue::String("value".to_string()),
    ));
    map.push((
        "NUM".to_string(),
        TfValue::Number(Number::Float("42.0".to_string())),
    ));
    let obj = TfValue::Object(map);

    let json = tf_value_to_json(&obj).expect("Object of scalars must convert");
    assert!(matches!(json, Json::Object(_)), "expected JSON object; got {json:?}");
    assert_eq!(json.get("KEY"), Some(&Json::String("value".to_string())));
    assert_eq!(json.get("NUM"), Some(&Json::Number(Number::Float("42.0".to_string()))));
}

/// An Object that contains an unresolved VarRef must silently drop that
/// key and still return a JSON object for the remaining scalars.
#[test]
fn object_with_var_ref_drops_unresolved_key() {
    let mut map: Vec<(String, TfValue)> = Vec::new();
    map.push((
        "RESOLVED".to_string(),
        TfValue::String("ok".to_string()),
    ));
    map.push((
        "UNRESOLVED".to_string(),
        TfValue::VarRef("some_var".to_string()),
    ));
    let obj = TfValue::Object(map);

    let json = tf_value_to_json(&obj).expect("Object must produce Some even with VarRef");
    assert!(matches!(json, Json::Object(_)));
    assert_eq!(json.get("RESOLVED"), Some(&Json::String("ok".to_string())));
    assert!(
        json.get("UNRESOLVED").is_none(),
        "VarRef key must be dropped"
    );
}

/// Lambda with `s3_bucket = aws_s3_bucket.code.id` and
/// `depends_on = [aws_sqs_queue.q]` must NOT produce any DataFlow edge —
/// these attrs are deployment-only / meta.
#[test]
fn deployment_attrs_do_not_produce_dataflow_edges() {
    let lambda = node("aws_lambda_function", "fn");
    let code_bucket = node("aws_s3_bucket", "code");
    let dep_queue = node("aws_sqs_queue", "q");

    let mut attrs = StrMap::new();
    attrs.insert(
        "s3_bucket".to_string(),
        TfValue::ResourceRef {
            resource_type: "aws_s3_bucket".to_string(),
            name: "code".to_string(),
            attr: "id".to_string(),
        },
    );
    attrs.insert(
        "depends_on".to_string(),
        TfValue::ResourceRef {
            resource_type: "aws_sqs_queue".to_string(),
            name: "q".to_string(),
            attr: "arn".to_string(),
        },
    );

    let tf = TfResource {
        resource_type: "aws_lambda_function".to_string(),
        name: "fn".to_string(),
        attrs,
        blocks: StrMap::new(),
    };

    let tf_resources = vec![tf];
    let resources = vec![lambda, code_bucket, dep_queue];
    let conns = build_connections(&tf_resources, &resources);

    assert!(
        conns.is_empty(),
        "deployment attrs must not produce edges; got: {conns:?}"
    );
}

/// Lambda with `role = aws_iam_role.exec.arn` (non-runtime IAM attr) must
/// not produce any edge, even if the IAM role were in the node set.
#[test]
fn role_attr_does_not_produce_edge() {
    let lambda = node("aws_lambda_function", "fn");
    // Create a fake "iam role" node to verify no spurious edge is emitted
    // (in practice IAM roles are not in the node set, but we test the attr
    // denylist regardless of whether the target node exists).
    let fake_role = node("aws_iam_role", "exec");

    let mut attrs = StrMap::new();
    attrs.insert(
        "role".to_string(),
        TfValue::ResourceRef {
            resource_type: "aws_iam_role".to_string(),
            name: "exec".to_string(),
            attr: "arn".to_string(),
        },
    );

    let tf = TfResource {
        resource_type: "aws_lambda_function".to_string(),
        name: "fn".to_string(),
        attrs,
        blocks: StrMap::new(),
    };

    let tf_resources = vec![tf];
    let resources = vec![lambda, fake_role];
    let conns = build_connections(&tf_resources, &resources);

    assert!(
        conns.is_empty(),
        "role attr must not produce an edge; got: {conns:?}"
    );
}

/// Lambda with `environment` block that references another resource via a
/// variable (not a ResourceRef) is fine; and a genuine runtime DataFlow edge
/// via `STORAGE_RESOURCE_TYPES` must still be produced when the attr is not
/// in `NON_RUNTIME_ATTRS`.
#[test]
fn runtime_attr_ref_still_produces_dataflow_edge() {
    let lambda = node("aws_lambda_function", "fn");
    let table = node("aws_dynamodb_table", "tbl");

    // Use a non-denylisted attr (e.g. a custom "table_name" attr that holds
    // a ResourceRef — simulates how some modules pass table ARN).
    let mut attrs = StrMap::new();
    attrs.insert(
        "table_name".to_string(),
        TfValue::ResourceRef {
            resource_type: "aws_dynamodb_table".to_string(),
            name: "tbl".to_string(),
            attr: "name".to_string(),
        },
    );

    let tf = TfResource {
        resource_type: "aws_lambda_function".to_string(),
        name: "fn".to_string(),
        attrs,
        blocks: StrMap::new(),
    };

    let tf_resources = vec![tf];
    let resources = vec![lambda, table];
    let conns = build_connections(&tf_resources, &resources);

    assert_eq!(
        conns.len(),
        1,
        "runtime attr ref must produce DataFlow edge; got: {conns:?}"
    );
    assert_eq!(conns[0].connection_type, ConnectionType::DataFlow);
    assert_eq!(conns[0].source.as_str(), "aws_lambda_function_fn");
    assert_eq!(conns[0].target.as_str(), "aws_dynamodb_table_tbl");
}
