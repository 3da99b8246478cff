//! Architectures out of templates.

use yevice::arch::ConnectionType;
use yevice::arch::LogicalId;
use yevice::cfn::convert::build_architecture;
use yevice::cfn::convert::build_connections;
use yevice::cfn::convert::extract_group;
use yevice::cfn::convert::resolved_to_cfn_properties;
use yevice::cfn::convert::resolved_to_cfn_property;
use yevice::cfn::parser::parse_template_str;
use yevice::cfn::parser::resolve_template;
use yevice::cfn::parser::CfnTemplate;
use yevice::cfn::parser::ResolvedResource;
use yevice::cfn::parser::ResolvedTemplate;
use yevice::cfn::resolved::ResolvedValue;
use yevice::cfn::resolved::StringPart;
use yevice::iac::CfnAdapterRegistry;
use yevice::iac::IacPropertyValue;
use yevice::json::Json;
use yevice::strmap::StrMap;
use yevice::yaml::Yaml;

fn rv_str(s: &str) -> ResolvedValue {
    ResolvedValue::Concrete(Yaml::String(s.to_string()))
}

fn rv_ref(id: &str) -> ResolvedValue {
    ResolvedValue::Ref(id.to_string())
}

fn rv_getatt(logical_id: &str, attr: &str) -> ResolvedValue {
    ResolvedValue::GetAtt {
        logical_id: logical_id.to_string(),
        attr: attr.to_string(),
    }
}

fn rv_seq(items: Vec<ResolvedValue>) -> ResolvedValue {
    ResolvedValue::Sequence(items)
}

fn rv_map(pairs: Vec<(&str, ResolvedValue)>) -> ResolvedValue {
    ResolvedValue::Mapping(pairs.into_iter().map(|(k, v)| (k.to_string(), v)).collect())
}

fn part_lit(s: &str) -> StringPart {
    StringPart::Literal(s.to_string())
}

fn part_ref(id: &str) -> StringPart {
    StringPart::Ref(id.to_string())
}

fn part_getatt(logical_id: &str, attr: &str) -> StringPart {
    StringPart::GetAtt {
        logical_id: logical_id.to_string(),
        attr: attr.to_string(),
    }
}

fn cfn_resource_typed(
    logical_id: &str,
    resource_type: &str,
    properties: ResolvedValue,
) -> ResolvedResource {
    ResolvedResource {
        logical_id: logical_id.to_string(),
        resource_type: resource_type.to_string(),
        properties,
        condition: None,
        depends_on: Vec::new(),
    }
}

// Build a minimal resource with the given logical_id and resolved properties.
fn cfn_resource(logical_id: &str, properties: ResolvedValue) -> ResolvedResource {
    cfn_resource_typed(logical_id, "AWS::Unknown", properties)
}

#[test]
fn vpc_id_ref_resolves_to_vpc_group() {
    let vpc = cfn_resource("MyVpc", rv_map(vec![]));
    let subnet = cfn_resource("MySubnet", rv_map(vec![("VpcId", rv_ref("MyVpc"))]));

    let mut resources = StrMap::new();
    resources.insert("MyVpc".to_string(), vpc);
    resources.insert("MySubnet".to_string(), subnet);

    let group = extract_group(resources.get("MySubnet").unwrap(), &resources);
    assert_eq!(group, Some(LogicalId::new("MyVpc")));
}

#[test]
fn subnet_id_ref_resolves_to_subnet_group() {
    let subnet = cfn_resource("MySubnet", rv_map(vec![]));
    let nat = cfn_resource("MyNat", rv_map(vec![("SubnetId", rv_ref("MySubnet"))]));

    let mut resources = StrMap::new();
    resources.insert("MySubnet".to_string(), subnet);
    resources.insert("MyNat".to_string(), nat);

    let group = extract_group(resources.get("MyNat").unwrap(), &resources);
    assert_eq!(group, Some(LogicalId::new("MySubnet")));
}

#[test]
fn cluster_ref_resolves_to_cluster_group() {
    let cluster = cfn_resource("MyCluster", rv_map(vec![]));
    let service = cfn_resource("MyService", rv_map(vec![("Cluster", rv_ref("MyCluster"))]));

    let mut resources = StrMap::new();
    resources.insert("MyCluster".to_string(), cluster);
    resources.insert("MyService".to_string(), service);

    let group = extract_group(resources.get("MyService").unwrap(), &resources);
    assert_eq!(group, Some(LogicalId::new("MyCluster")));
}

#[test]
fn cluster_takes_priority_over_vpc_id() {
    // Both Cluster and VpcId present — Cluster wins (higher priority).
    let cluster = cfn_resource("MyCluster", rv_map(vec![]));
    let vpc = cfn_resource("MyVpc", rv_map(vec![]));
    let resource = cfn_resource(
        "MyResource",
        rv_map(vec![
            ("Cluster", rv_ref("MyCluster")),
            ("VpcId", rv_ref("MyVpc")),
        ]),
    );

    let mut resources = StrMap::new();
    resources.insert("MyCluster".to_string(), cluster);
    resources.insert("MyVpc".to_string(), vpc);
    resources.insert("MyResource".to_string(), resource);

    let group = extract_group(resources.get("MyResource").unwrap(), &resources);
    assert_eq!(group, Some(LogicalId::new("MyCluster")));
}

#[test]
fn dangling_parent_yields_no_group() {
    // SubnetId points to a logical ID not present in resources.
    let nat = cfn_resource(
        "MyNat",
        rv_map(vec![("SubnetId", rv_ref("NonExistentSubnet"))]),
    );

    let mut resources = StrMap::new();
    resources.insert("MyNat".to_string(), nat);

    let group = extract_group(resources.get("MyNat").unwrap(), &resources);
    assert_eq!(group, None);
}

#[test]
fn literal_property_value_yields_no_group() {
    // A plain string (not a reference) must not be treated as a logical ID.
    let nat = cfn_resource(
        "MyNat",
        rv_map(vec![("SubnetId", rv_str("subnet-12345678"))]),
    );

    let mut resources = StrMap::new();
    resources.insert("MyNat".to_string(), nat);

    let group = extract_group(resources.get("MyNat").unwrap(), &resources);
    assert_eq!(group, None);
}

#[test]
fn no_containment_properties_yields_no_group() {
    let lambda = cfn_resource("MyFunction", rv_map(vec![("MemorySize", rv_str("256"))]));

    let mut resources = StrMap::new();
    resources.insert("MyFunction".to_string(), lambda);

    let group = extract_group(resources.get("MyFunction").unwrap(), &resources);
    assert_eq!(group, None);
}

#[test]
fn getatt_resolves_group() {
    let subnet = cfn_resource("MySubnet", rv_map(vec![]));
    let instance = cfn_resource(
        "MyInstance",
        rv_map(vec![("SubnetId", rv_getatt("MySubnet", "SubnetId"))]),
    );

    let mut resources = StrMap::new();
    resources.insert("MySubnet".to_string(), subnet);
    resources.insert("MyInstance".to_string(), instance);

    let group = extract_group(resources.get("MyInstance").unwrap(), &resources);
    assert_eq!(group, Some(LogicalId::new("MySubnet")));
}

/// A property carrying more than one reference cannot unambiguously name
/// a single parent — it must yield no group.
#[test]
fn multi_reference_property_yields_no_group() {
    let a = cfn_resource("ClusterA", rv_map(vec![]));
    let b = cfn_resource("ClusterB", rv_map(vec![]));
    let resource = cfn_resource(
        "MyResource",
        rv_map(vec![(
            "Cluster",
            ResolvedValue::Interpolated(vec![part_ref("ClusterA"), part_ref("ClusterB")]),
        )]),
    );

    let mut resources = StrMap::new();
    resources.insert("ClusterA".to_string(), a);
    resources.insert("ClusterB".to_string(), b);
    resources.insert("MyResource".to_string(), resource);

    let group = extract_group(resources.get("MyResource").unwrap(), &resources);
    assert_eq!(group, None, "ambiguous multi-ref must not pick a parent");
}

/// `AWS::Events::Rule` with a typed Ref Arn must still create an
/// Invocation edge.
#[test]
fn events_rule_typed_ref_arn_creates_edge() {
    let lambda = cfn_resource_typed("HandlerFunction", "AWS::Lambda::Function", rv_map(vec![]));

    let target_entry = rv_map(vec![
        ("Id", rv_str("TargetId")),
        ("Arn", rv_ref("HandlerFunction")),
    ]);
    let rule_props = rv_map(vec![("Targets", rv_seq(vec![target_entry]))]);
    let rule = cfn_resource_typed("MyRule", "AWS::Events::Rule", rule_props);

    let mut resources = StrMap::new();
    resources.insert("HandlerFunction".to_string(), lambda);
    resources.insert("MyRule".to_string(), rule);

    let conns = build_connections(&resources);
    assert_eq!(conns.len(), 1, "expected one Invocation edge");
    assert_eq!(conns[0].source.as_str(), "MyRule");
    assert_eq!(conns[0].target.as_str(), "HandlerFunction");
    assert!(matches!(
        conns[0].connection_type,
        ConnectionType::Invocation
    ));
}

/// `AWS::Events::Rule` with a reference embedded inside a full-ARN
/// `Fn::Sub` value (Interpolated) must create an Invocation edge.
#[test]
fn events_rule_interpolated_arn_creates_edge() {
    let lambda = cfn_resource_typed("HandlerFunction", "AWS::Lambda::Function", rv_map(vec![]));

    // Simulates what the intrinsic resolver produces for:
    //   Arn: !Sub 'arn:aws:lambda:${AWS::Region}:${AWS::AccountId}:function:${HandlerFunction}'
    // Pseudo-params stay literal text; the resource ref becomes a typed part.
    let embedded_arn = ResolvedValue::Interpolated(vec![
        part_lit("arn:aws:lambda:${AWS::Region}:${AWS::AccountId}:function:"),
        part_ref("HandlerFunction"),
    ]);
    let target_entry = rv_map(vec![("Id", rv_str("TargetId")), ("Arn", embedded_arn)]);
    let rule_props = rv_map(vec![("Targets", rv_seq(vec![target_entry]))]);
    let rule = cfn_resource_typed("MyRule", "AWS::Events::Rule", rule_props);

    let mut resources = StrMap::new();
    resources.insert("HandlerFunction".to_string(), lambda);
    resources.insert("MyRule".to_string(), rule);

    let conns = build_connections(&resources);
    assert_eq!(
        conns.len(),
        1,
        "expected one Invocation edge for interpolated ARN"
    );
    assert_eq!(conns[0].source.as_str(), "MyRule");
    assert_eq!(conns[0].target.as_str(), "HandlerFunction");
    assert!(matches!(
        conns[0].connection_type,
        ConnectionType::Invocation
    ));
}

/// A `Fn::Sub` value containing TWO resource references must produce TWO
/// edges.
#[test]
fn events_rule_interpolated_arn_with_two_getatts_creates_two_edges() {
    let fn_a = cfn_resource_typed("Fn1", "AWS::Lambda::Function", rv_map(vec![]));
    let fn_b = cfn_resource_typed("Fn2", "AWS::Lambda::Function", rv_map(vec![]));

    // Simulates: Arn: !Sub '${Fn1.Arn}:${Fn2.Arn}'
    let arn = ResolvedValue::Interpolated(vec![
        part_getatt("Fn1", "Arn"),
        part_lit(":"),
        part_getatt("Fn2", "Arn"),
    ]);
    let target_entry = rv_map(vec![("Id", rv_str("TargetId")), ("Arn", arn)]);
    let rule_props = rv_map(vec![("Targets", rv_seq(vec![target_entry]))]);
    let rule = cfn_resource_typed("MyRule", "AWS::Events::Rule", rule_props);

    let mut resources = StrMap::new();
    resources.insert("Fn1".to_string(), fn_a);
    resources.insert("Fn2".to_string(), fn_b);
    resources.insert("MyRule".to_string(), rule);

    let conns = build_connections(&resources);
    assert_eq!(
        conns.len(),
        2,
        "expected two Invocation edges (one per reference); connections = {conns:?}"
    );
    let targets: Vec<&str> = conns.iter().map(|c| c.target.as_str()).collect();
    assert!(targets.contains(&"Fn1"), "edge to Fn1 missing: {targets:?}");
    assert!(targets.contains(&"Fn2"), "edge to Fn2 missing: {targets:?}");
}

/// From YAML template text
/// through parse → resolve → build_connections, a `Fn::Sub` with two
/// `GetAtt`-style references must produce two connection edges.
#[test]
fn end_to_end_sub_with_two_getatts_creates_two_edges() {
    let template = r#"
AWSTemplateFormatVersion: "2010-09-09"
Resources:
  Fn1:
    Type: AWS::Lambda::Function
    Properties:
      MemorySize: 128
  Fn2:
    Type: AWS::Lambda::Function
    Properties:
      MemorySize: 128
  FanoutRule:
    Type: AWS::Events::Rule
    Properties:
      Targets:
        - Id: BothFunctions
          Arn: !Sub '${Fn1.Arn}:${Fn2.Arn}'
"#;
    let tmpl = parse_template_str(template).unwrap();
    let resources = resolve_template(
        &tmpl,
        &StrMap::new(),
        &StrMap::new(),
    )
    .unwrap();

    let conns = build_connections(&resources);
    let edge_to = |target: &str| {
        conns.iter().find(|c| {
            c.source.as_str() == "FanoutRule"
                && c.target.as_str() == target
                && matches!(c.connection_type, ConnectionType::Invocation)
        })
    };
    assert!(
        edge_to("Fn1").is_some(),
        "expected edge FanoutRule -> Fn1; connections = {conns:?}"
    );
    assert!(
        edge_to("Fn2").is_some(),
        "expected edge FanoutRule -> Fn2; connections = {conns:?}"
    );
}

/// Helper: build a notification config item with the given `Event` string
/// and target key/value.
fn notif_item(event: &str, target_key: &str, target: ResolvedValue) -> ResolvedValue {
    rv_map(vec![("Event", rv_str(event)), (target_key, target)])
}

/// `s3:ObjectCreated:*` lambda notification must produce a Notification edge.
#[test]
fn s3_object_created_lambda_notification_produces_edge() {
    let lambda = cfn_resource_typed("MyFunction", "AWS::Lambda::Function", rv_map(vec![]));
    let notif_config = rv_map(vec![(
        "LambdaConfigurations",
        rv_seq(vec![notif_item(
            "s3:ObjectCreated:*",
            "Function",
            rv_ref("MyFunction"),
        )]),
    )]);
    let bucket_props = rv_map(vec![("NotificationConfiguration", notif_config)]);
    let bucket = cfn_resource_typed("MyBucket", "AWS::S3::Bucket", bucket_props);

    let mut resources = StrMap::new();
    resources.insert("MyFunction".to_string(), lambda);
    resources.insert("MyBucket".to_string(), bucket);

    let conns = build_connections(&resources);
    let notif = conns.iter().find(|c| {
        c.source.as_str() == "MyBucket"
            && c.target.as_str() == "MyFunction"
            && matches!(c.connection_type, ConnectionType::Notification)
    });
    assert!(
        notif.is_some(),
        "expected Notification edge for s3:ObjectCreated:*; connections = {conns:?}",
    );
}

/// `s3:ObjectRemoved:*` lambda notification must NOT produce a Notification edge.
#[test]
fn s3_object_removed_lambda_notification_skipped() {
    let lambda = cfn_resource_typed("MyFunction", "AWS::Lambda::Function", rv_map(vec![]));
    let notif_config = rv_map(vec![(
        "LambdaConfigurations",
        rv_seq(vec![notif_item(
            "s3:ObjectRemoved:*",
            "Function",
            rv_ref("MyFunction"),
        )]),
    )]);
    let bucket_props = rv_map(vec![("NotificationConfiguration", notif_config)]);
    let bucket = cfn_resource_typed("MyBucket", "AWS::S3::Bucket", bucket_props);

    let mut resources = StrMap::new();
    resources.insert("MyFunction".to_string(), lambda);
    resources.insert("MyBucket".to_string(), bucket);

    let conns = build_connections(&resources);
    assert!(
        conns.is_empty(),
        "expected no edge for s3:ObjectRemoved:*; connections = {conns:?}",
    );
}

/// `s3:ObjectRemoved:*` queue notification must NOT produce a Notification edge.
#[test]
fn s3_object_removed_queue_notification_skipped() {
    let queue = cfn_resource_typed("MyQueue", "AWS::SQS::Queue", rv_map(vec![]));
    let notif_config = rv_map(vec![(
        "QueueConfigurations",
        rv_seq(vec![notif_item(
            "s3:ObjectRemoved:*",
            "Queue",
            rv_ref("MyQueue"),
        )]),
    )]);
    let bucket_props = rv_map(vec![("NotificationConfiguration", notif_config)]);
    let bucket = cfn_resource_typed("MyBucket", "AWS::S3::Bucket", bucket_props);

    let mut resources = StrMap::new();
    resources.insert("MyQueue".to_string(), queue);
    resources.insert("MyBucket".to_string(), bucket);

    let conns = build_connections(&resources);
    assert!(
        conns.is_empty(),
        "expected no edge for s3:ObjectRemoved:* on queue; connections = {conns:?}",
    );
}

/// `s3:ObjectRemoved:*` topic notification must NOT produce a Notification edge.
#[test]
fn s3_object_removed_topic_notification_skipped() {
    let topic = cfn_resource_typed("MyTopic", "AWS::SNS::Topic", rv_map(vec![]));
    let notif_config = rv_map(vec![(
        "TopicConfigurations",
        rv_seq(vec![notif_item(
            "s3:ObjectRemoved:*",
            "Topic",
            rv_ref("MyTopic"),
        )]),
    )]);
    let bucket_props = rv_map(vec![("NotificationConfiguration", notif_config)]);
    let bucket = cfn_resource_typed("MyBucket", "AWS::S3::Bucket", bucket_props);

    let mut resources = StrMap::new();
    resources.insert("MyTopic".to_string(), topic);
    resources.insert("MyBucket".to_string(), bucket);

    let conns = build_connections(&resources);
    assert!(
        conns.is_empty(),
        "expected no edge for s3:ObjectRemoved:* on topic; connections = {conns:?}",
    );
}

/// Mixed: one ObjectCreated + one ObjectRemoved lambda config → only one edge.
#[test]
fn s3_mixed_events_only_object_created_produces_edge() {
    let lambda_a = cfn_resource_typed("FnA", "AWS::Lambda::Function", rv_map(vec![]));
    let lambda_b = cfn_resource_typed("FnB", "AWS::Lambda::Function", rv_map(vec![]));
    let notif_config = rv_map(vec![(
        "LambdaConfigurations",
        rv_seq(vec![
            notif_item("s3:ObjectCreated:*", "Function", rv_ref("FnA")),
            notif_item("s3:ObjectRemoved:*", "Function", rv_ref("FnB")),
        ]),
    )]);
    let bucket_props = rv_map(vec![("NotificationConfiguration", notif_config)]);
    let bucket = cfn_resource_typed("MyBucket", "AWS::S3::Bucket", bucket_props);

    let mut resources = StrMap::new();
    resources.insert("FnA".to_string(), lambda_a);
    resources.insert("FnB".to_string(), lambda_b);
    resources.insert("MyBucket".to_string(), bucket);

    let conns = build_connections(&resources);
    assert_eq!(
        conns.len(),
        1,
        "expected exactly one Notification edge (only ObjectCreated); connections = {conns:?}",
    );
    assert_eq!(conns[0].source.as_str(), "MyBucket");
    assert_eq!(conns[0].target.as_str(), "FnA");
    assert!(matches!(
        conns[0].connection_type,
        ConnectionType::Notification
    ));
}

/// Helper: build a SAM function with a single S3 event entry.
fn sam_function_with_s3_event(
    function_id: &str,
    bucket: ResolvedValue,
    s3_events: ResolvedValue,
) -> ResolvedResource {
    let event_props = rv_map(vec![("Bucket", bucket), ("Events", s3_events)]);
    let event_entry = rv_map(vec![("Type", rv_str("S3")), ("Properties", event_props)]);
    let fn_props = rv_map(vec![("Events", rv_map(vec![("Photo", event_entry)]))]);
    cfn_resource_typed(function_id, "AWS::Serverless::Function", fn_props)
}

/// SAM `Type: S3` with `Events: s3:ObjectCreated:*` (string) must produce a
/// Notification edge from the bucket to the function.
#[test]
fn sam_s3_event_object_created_string_produces_notification_edge() {
    let bucket = cfn_resource_typed("MediaBucket", "AWS::S3::Bucket", rv_map(vec![]));
    let function = sam_function_with_s3_event(
        "MyFunction",
        rv_ref("MediaBucket"),
        rv_str("s3:ObjectCreated:*"),
    );

    let mut resources = StrMap::new();
    resources.insert("MediaBucket".to_string(), bucket);
    resources.insert("MyFunction".to_string(), function);

    let conns = build_connections(&resources);
    let notif = conns.iter().find(|c| {
        c.source.as_str() == "MediaBucket"
            && c.target.as_str() == "MyFunction"
            && matches!(c.connection_type, ConnectionType::Notification)
    });
    assert!(
        notif.is_some(),
        "expected Notification edge for SAM S3 ObjectCreated:*; connections = {conns:?}",
    );
}

/// SAM `Type: S3` with `Events: [s3:ObjectCreated:Put]` (sequence) must
/// produce a Notification edge.
#[test]
fn sam_s3_event_object_created_list_produces_notification_edge() {
    let bucket = cfn_resource_typed("MediaBucket", "AWS::S3::Bucket", rv_map(vec![]));
    let function = sam_function_with_s3_event(
        "MyFunction",
        rv_ref("MediaBucket"),
        rv_seq(vec![rv_str("s3:ObjectCreated:Put")]),
    );

    let mut resources = StrMap::new();
    resources.insert("MediaBucket".to_string(), bucket);
    resources.insert("MyFunction".to_string(), function);

    let conns = build_connections(&resources);
    let notif = conns.iter().find(|c| {
        c.source.as_str() == "MediaBucket"
            && c.target.as_str() == "MyFunction"
            && matches!(c.connection_type, ConnectionType::Notification)
    });
    assert!(
        notif.is_some(),
        "expected Notification edge for SAM S3 ObjectCreated:Put list; connections = {conns:?}",
    );
}

/// SAM `Type: S3` with `Events: s3:ObjectRemoved:*` must NOT produce any edge.
#[test]
fn sam_s3_event_object_removed_produces_no_edge() {
    let bucket = cfn_resource_typed("MediaBucket", "AWS::S3::Bucket", rv_map(vec![]));
    let function = sam_function_with_s3_event(
        "MyFunction",
        rv_ref("MediaBucket"),
        rv_str("s3:ObjectRemoved:*"),
    );

    let mut resources = StrMap::new();
    resources.insert("MediaBucket".to_string(), bucket);
    resources.insert("MyFunction".to_string(), function);

    let conns = build_connections(&resources);
    assert!(
        conns.is_empty(),
        "expected no edge for SAM S3 ObjectRemoved:*; connections = {conns:?}",
    );
}

/// SAM `Type: S3` where the bucket logical ID is absent from resources must
/// NOT produce any edge (dangling bucket reference).
#[test]
fn sam_s3_event_dangling_bucket_produces_no_edge() {
    // Only the function is in resources; the bucket is not.
    let function = sam_function_with_s3_event(
        "MyFunction",
        rv_ref("NonExistentBucket"),
        rv_str("s3:ObjectCreated:*"),
    );

    let mut resources = StrMap::new();
    resources.insert("MyFunction".to_string(), function);

    let conns = build_connections(&resources);
    assert!(
        conns.is_empty(),
        "expected no edge for SAM S3 with dangling bucket; connections = {conns:?}",
    );
}

/// Inline subscription with `Protocol: lambda` must produce a Notification edge.
#[test]
fn sns_topic_subscription_lambda_protocol_produces_edge() {
    let lambda = cfn_resource_typed("MyFunction", "AWS::Lambda::Function", rv_map(vec![]));
    let sub_item = rv_map(vec![
        ("Protocol", rv_str("lambda")),
        ("Endpoint", rv_ref("MyFunction")),
    ]);
    let topic_props = rv_map(vec![("Subscription", rv_seq(vec![sub_item]))]);
    let topic = cfn_resource_typed("MyTopic", "AWS::SNS::Topic", topic_props);

    let mut resources = StrMap::new();
    resources.insert("MyFunction".to_string(), lambda);
    resources.insert("MyTopic".to_string(), topic);

    let conns = build_connections(&resources);
    assert_eq!(
        conns.len(),
        1,
        "expected one Notification edge for lambda protocol; connections = {conns:?}"
    );
    assert_eq!(conns[0].source.as_str(), "MyTopic");
    assert_eq!(conns[0].target.as_str(), "MyFunction");
    assert!(matches!(
        conns[0].connection_type,
        ConnectionType::Notification
    ));
}

/// Inline subscription with `Protocol: https` must NOT produce any edge.
#[test]
fn sns_topic_subscription_https_protocol_produces_no_edge() {
    let topic_props = rv_map(vec![(
        "Subscription",
        rv_seq(vec![rv_map(vec![
            ("Protocol", rv_str("https")),
            (
                "Endpoint",
                ResolvedValue::Interpolated(vec![
                    part_lit("arn:aws:lambda:${AWS::Region}:${AWS::AccountId}:function:"),
                    part_ref("MyFn"),
                ]),
            ),
        ])]),
    )]);
    let topic = cfn_resource_typed("MyTopic", "AWS::SNS::Topic", topic_props);
    let lambda = cfn_resource_typed("MyFn", "AWS::Lambda::Function", rv_map(vec![]));

    let mut resources = StrMap::new();
    resources.insert("MyTopic".to_string(), topic);
    resources.insert("MyFn".to_string(), lambda);

    let conns = build_connections(&resources);
    assert!(
        conns.is_empty(),
        "expected no edge for https protocol; connections = {conns:?}"
    );
}

/// `AWS::SNS::Subscription` resource with `Protocol: lambda` must produce
/// a Notification edge.
#[test]
fn sns_subscription_resource_lambda_protocol_produces_edge() {
    let topic = cfn_resource_typed("MyTopic", "AWS::SNS::Topic", rv_map(vec![]));
    let lambda = cfn_resource_typed("MyFunction", "AWS::Lambda::Function", rv_map(vec![]));
    let sub_props = rv_map(vec![
        ("TopicArn", rv_ref("MyTopic")),
        ("Protocol", rv_str("lambda")),
        ("Endpoint", rv_ref("MyFunction")),
    ]);
    let sub = cfn_resource_typed("MySub", "AWS::SNS::Subscription", sub_props);

    let mut resources = StrMap::new();
    resources.insert("MyTopic".to_string(), topic);
    resources.insert("MyFunction".to_string(), lambda);
    resources.insert("MySub".to_string(), sub);

    let conns = build_connections(&resources);
    assert_eq!(
        conns.len(),
        1,
        "expected one Notification edge for lambda protocol; connections = {conns:?}"
    );
    assert_eq!(conns[0].source.as_str(), "MyTopic");
    assert_eq!(conns[0].target.as_str(), "MyFunction");
    assert!(matches!(
        conns[0].connection_type,
        ConnectionType::Notification
    ));
}

/// `AWS::SNS::Subscription` resource with `Protocol: https` must NOT
/// produce any edge, even if `Endpoint` carries a reference.
#[test]
fn sns_subscription_resource_https_protocol_produces_no_edge() {
    let topic = cfn_resource_typed("MyTopic", "AWS::SNS::Topic", rv_map(vec![]));
    let lambda = cfn_resource_typed("MyFunction", "AWS::Lambda::Function", rv_map(vec![]));
    let embedded_endpoint = ResolvedValue::Interpolated(vec![
        part_lit("arn:aws:lambda:${AWS::Region}:${AWS::AccountId}:function:"),
        part_ref("MyFunction"),
    ]);
    let sub_props = rv_map(vec![
        ("TopicArn", rv_ref("MyTopic")),
        ("Protocol", rv_str("https")),
        ("Endpoint", embedded_endpoint),
    ]);
    let sub = cfn_resource_typed("MySub", "AWS::SNS::Subscription", sub_props);

    let mut resources = StrMap::new();
    resources.insert("MyTopic".to_string(), topic);
    resources.insert("MyFunction".to_string(), lambda);
    resources.insert("MySub".to_string(), sub);

    let conns = build_connections(&resources);
    assert!(
        conns.is_empty(),
        "expected no edge for https protocol; connections = {conns:?}"
    );
}

/// ESM with `FunctionName` given as a `Fn::Sub`-style ARN containing a
/// reference must produce an EventSource edge to the Lambda.
///
/// Simulates:
///   FunctionName: !Sub 'arn:aws:lambda:${AWS::Region}:${AWS::AccountId}:function:${MyFn}'
#[test]
fn esm_function_name_interpolated_produces_edge() {
    let queue = cfn_resource_typed("MyQueue", "AWS::SQS::Queue", rv_map(vec![]));
    let lambda = cfn_resource_typed("MyFn", "AWS::Lambda::Function", rv_map(vec![]));

    let interpolated_fn_name = ResolvedValue::Interpolated(vec![
        part_lit("arn:aws:lambda:${AWS::Region}:${AWS::AccountId}:function:"),
        part_ref("MyFn"),
    ]);
    let esm_props = rv_map(vec![
        ("FunctionName", interpolated_fn_name),
        ("EventSourceArn", rv_ref("MyQueue")),
    ]);
    let esm = cfn_resource_typed("MyESM", "AWS::Lambda::EventSourceMapping", esm_props);

    let mut resources = StrMap::new();
    resources.insert("MyQueue".to_string(), queue);
    resources.insert("MyFn".to_string(), lambda);
    resources.insert("MyESM".to_string(), esm);

    let conns = build_connections(&resources);
    assert_eq!(
        conns.len(),
        1,
        "expected one EventSource edge; connections = {conns:?}"
    );
    assert_eq!(conns[0].source.as_str(), "MyQueue");
    assert_eq!(conns[0].target.as_str(), "MyFn");
    assert!(matches!(
        conns[0].connection_type,
        ConnectionType::EventSource
    ));
}

/// ESM with `EventSourceArn` as an interpolated Fn::Sub ARN must produce
/// an EventSource edge from the SQS queue to the Lambda.
#[test]
fn esm_event_source_arn_interpolated_produces_edge() {
    let queue = cfn_resource_typed("MyQueue", "AWS::SQS::Queue", rv_map(vec![]));
    let lambda = cfn_resource_typed("MyFn", "AWS::Lambda::Function", rv_map(vec![]));

    let interpolated_source_arn = ResolvedValue::Interpolated(vec![
        part_lit("arn:aws:sqs:${AWS::Region}:${AWS::AccountId}:"),
        part_ref("MyQueue"),
    ]);
    let esm_props = rv_map(vec![
        ("FunctionName", rv_ref("MyFn")),
        ("EventSourceArn", interpolated_source_arn),
    ]);
    let esm = cfn_resource_typed("MyESM", "AWS::Lambda::EventSourceMapping", esm_props);

    let mut resources = StrMap::new();
    resources.insert("MyQueue".to_string(), queue);
    resources.insert("MyFn".to_string(), lambda);
    resources.insert("MyESM".to_string(), esm);

    let conns = build_connections(&resources);
    assert_eq!(
        conns.len(),
        1,
        "expected one EventSource edge; connections = {conns:?}"
    );
    assert_eq!(conns[0].source.as_str(), "MyQueue");
    assert_eq!(conns[0].target.as_str(), "MyFn");
    assert!(matches!(
        conns[0].connection_type,
        ConnectionType::EventSource
    ));
}

/// ESM with a literal external ARN as `EventSourceArn` (no reference) must
/// still fall back to ARN-pattern detection.
#[test]
fn esm_literal_external_sqs_arn_uses_arn_pattern() {
    let lambda = cfn_resource_typed("MyFn", "AWS::Lambda::Function", rv_map(vec![]));
    let esm_props = rv_map(vec![
        ("FunctionName", rv_ref("MyFn")),
        (
            "EventSourceArn",
            rv_str("arn:aws:sqs:us-east-1:123456789012:ExternalQueue"),
        ),
    ]);
    let esm = cfn_resource_typed("MyESM", "AWS::Lambda::EventSourceMapping", esm_props);

    let mut resources = StrMap::new();
    resources.insert("MyFn".to_string(), lambda);
    resources.insert("MyESM".to_string(), esm);

    let conns = build_connections(&resources);
    assert_eq!(
        conns.len(),
        1,
        "expected one EventSource edge for external ARN; connections = {conns:?}"
    );
    assert_eq!(conns[0].source.as_str(), "ExternalQueue");
    assert_eq!(conns[0].target.as_str(), "MyFn");
    assert_eq!(conns[0].source_hint.as_deref(), Some("sqs"));
}

/// SAM `Type: S3` and `Type: SQS` events on the same function must both
/// produce edges independently.
#[test]
fn sam_s3_and_sqs_events_both_produce_edges() {
    let bucket = cfn_resource_typed("MediaBucket", "AWS::S3::Bucket", rv_map(vec![]));
    let queue = cfn_resource_typed("MyQueue", "AWS::SQS::Queue", rv_map(vec![]));

    // Build a function with two events: S3 and SQS.
    let s3_event_props = rv_map(vec![
        ("Bucket", rv_ref("MediaBucket")),
        ("Events", rv_str("s3:ObjectCreated:*")),
    ]);
    let s3_event = rv_map(vec![("Type", rv_str("S3")), ("Properties", s3_event_props)]);
    let sqs_event_props = rv_map(vec![("Queue", rv_ref("MyQueue"))]);
    let sqs_event = rv_map(vec![
        ("Type", rv_str("SQS")),
        ("Properties", sqs_event_props),
    ]);
    let fn_props = rv_map(vec![(
        "Events",
        rv_map(vec![("PhotoEvent", s3_event), ("QueueEvent", sqs_event)]),
    )]);
    let function = cfn_resource_typed("MyFunction", "AWS::Serverless::Function", fn_props);

    let mut resources = StrMap::new();
    resources.insert("MediaBucket".to_string(), bucket);
    resources.insert("MyQueue".to_string(), queue);
    resources.insert("MyFunction".to_string(), function);

    let conns = build_connections(&resources);
    let notif = conns.iter().find(|c| {
        c.source.as_str() == "MediaBucket"
            && c.target.as_str() == "MyFunction"
            && matches!(c.connection_type, ConnectionType::Notification)
    });
    let esm = conns.iter().find(|c| {
        c.source.as_str() == "MyQueue"
            && c.target.as_str() == "MyFunction"
            && matches!(c.connection_type, ConnectionType::EventSource)
    });
    assert!(
        notif.is_some(),
        "expected Notification edge for S3 event; connections = {conns:?}"
    );
    assert!(
        esm.is_some(),
        "expected EventSource edge for SQS event; connections = {conns:?}"
    );
}

/// Build a minimal resolved `CfnTemplate` whose `resources` map contains
/// one entry per logical ID in `names`, inserted in the order given.
fn make_template_with_resources(names: &[&str]) -> ResolvedTemplate {
    let mut resources = StrMap::new();
    for &name in names {
        resources.insert(
            name.to_string(),
            cfn_resource_typed(
                name,
                "AWS::CloudFormation::WaitConditionHandle",
                rv_map(vec![]),
            ),
        );
    }
    CfnTemplate {
        parameters: StrMap::new(),
        mappings: StrMap::new(),
        conditions: StrMap::new(),
        resources,
    }
}

#[test]
fn build_architecture_resource_order_is_deterministic() {
    // Use a template with at least 3 resources whose logical IDs are not in
    // alphabetical insert order. Expected: resources are returned in logical_id
    // sort order, identical across two invocations.
    let template = make_template_with_resources(&["ZooLogs", "AlphaFn", "MidTable"]);
    let adapters = CfnAdapterRegistry::new();
    let arch1 = build_architecture("test", "us-east-1", &template, &adapters);
    let arch2 = build_architecture("test", "us-east-1", &template, &adapters);
    let names1: Vec<&str> = arch1
        .resources
        .iter()
        .map(|r| r.logical_id.as_str())
        .collect();
    let names2: Vec<&str> = arch2
        .resources
        .iter()
        .map(|r| r.logical_id.as_str())
        .collect();
    assert_eq!(names1, names2, "resource order must be deterministic");
    assert_eq!(
        names1,
        vec!["AlphaFn", "MidTable", "ZooLogs"],
        "resource order must be sorted by logical_id"
    );
}

#[test]
fn typed_ref_becomes_resource_ref() {
    let result = resolved_to_cfn_property(&rv_ref("MyBucket"));
    assert!(
        matches!(result, IacPropertyValue::ResourceRef { ref logical_id } if logical_id == "MyBucket"),
        "expected ResourceRef(MyBucket), got {result:?}"
    );
}

#[test]
fn typed_getatt_becomes_resource_get_att() {
    let result = resolved_to_cfn_property(&rv_getatt("MyFunction", "Arn"));
    assert!(
        matches!(
            result,
            IacPropertyValue::ResourceAttr { ref logical_id, ref attr }
                if logical_id == "MyFunction" && attr == "Arn"
        ),
        "expected ResourceGetAtt{{ MyFunction, Arn }}, got {result:?}"
    );
}

#[test]
fn concrete_string_stays_concrete() {
    let result = resolved_to_cfn_property(&rv_str("us-east-1"));
    assert!(
        matches!(
            result,
            IacPropertyValue::Concrete(Json::String(ref s)) if s == "us-east-1"
        ),
        "expected Concrete(string), got {result:?}"
    );
}

/// An Interpolated value mixing literal text and references renders to a
/// CFn-native `${...}` string.
#[test]
fn interpolated_with_literals_renders_to_cfn_native_string() {
    let value = ResolvedValue::Interpolated(vec![
        part_lit("arn:aws:lambda:${AWS::Region}:fn:"),
        part_ref("MyFn"),
        part_lit(":"),
        part_getatt("Other", "Arn"),
    ]);
    let result = resolved_to_cfn_property(&value);
    match result {
        IacPropertyValue::Concrete(Json::String(s)) => {
            assert_eq!(s, "arn:aws:lambda:${AWS::Region}:fn:${MyFn}:${Other.Arn}");
        }
        other => panic!("expected Concrete(String), got {other:?}"),
    }
}

/// A (directly constructed) Interpolated consisting of a single reference
/// is promoted to the typed variant.
#[test]
fn interpolated_single_ref_promotes_to_resource_ref() {
    let value = ResolvedValue::Interpolated(vec![part_ref("MyTable")]);
    let result = resolved_to_cfn_property(&value);
    assert!(
        matches!(result, IacPropertyValue::ResourceRef { ref logical_id } if logical_id == "MyTable"),
        "expected ResourceRef(MyTable), got {result:?}"
    );
}

/// References nested inside containers render to `${...}` strings in the
/// Concrete JSON.
#[test]
fn nested_reference_renders_to_cfn_native_string() {
    let value = rv_seq(vec![rv_ref("MyQueue"), rv_str("literal")]);
    let result = resolved_to_cfn_property(&value);
    match result {
        IacPropertyValue::Concrete(Json::Array(items)) => {
            assert_eq!(
                items[0],
                Json::String("${MyQueue}".to_string())
            );
            assert_eq!(items[1], Json::String("literal".to_string()));
        }
        other => panic!("expected Concrete(Array), got {other:?}"),
    }
}

#[test]
fn resolved_to_cfn_properties_mixed() {
    let props_value = rv_map(vec![
        ("Region", rv_str("us-east-1")),
        ("FunctionArn", rv_getatt("MyFunction", "Arn")),
        ("TableName", rv_ref("MyTable")),
    ]);
    let props = resolved_to_cfn_properties(&props_value);

    assert!(
        matches!(props.get("Region").unwrap(), IacPropertyValue::Concrete(_)),
        "Region should be Concrete"
    );
    assert!(
        matches!(props.get("FunctionArn").unwrap(), IacPropertyValue::ResourceAttr { ref logical_id, ref attr } if logical_id == "MyFunction" && attr == "Arn"),
        "FunctionArn should be ResourceGetAtt"
    );
    assert!(
        matches!(props.get("TableName").unwrap(), IacPropertyValue::ResourceRef { ref logical_id } if logical_id == "MyTable"),
        "TableName should be ResourceRef"
    );
}
