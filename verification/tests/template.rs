//! Templates and resolved values.

use yevice::cfn::error::CfnError;
use yevice::cfn::parser::parse_template_str;
use yevice::cfn::parser::resolve_template;
use yevice::cfn::parser::resolve_template_with_policy;
use yevice::cfn::resolved::render_parts;
use yevice::cfn::resolved::ResolvedValue;
use yevice::cfn::resolved::StringPart;
use yevice::policy::ParsePolicy;
use yevice::strmap::StrMap;
use yevice::yaml::Yaml;

const SAMPLE_TEMPLATE: &str = r#"
AWSTemplateFormatVersion: "2010-09-09"
Parameters:
  Env:
    Type: String
    Default: dev
  InstanceType:
    Type: String
    Default: t3.micro
Mappings:
  RegionMap:
    ap-northeast-1:
      AMI: ami-12345
Conditions:
  IsProd: !Equals
    - !Ref Env
    - prod
Resources:
  MyInstance:
    Type: AWS::EC2::Instance
    Properties:
      InstanceType: !Ref InstanceType
      ImageId: !FindInMap [RegionMap, ap-northeast-1, AMI]
  ProdOnlyBucket:
    Type: AWS::S3::Bucket
    Condition: IsProd
    Properties:
      BucketName: !Sub "${Env}-data-bucket"
"#;

#[test]
fn test_parse_template() {
    let tmpl = parse_template_str(SAMPLE_TEMPLATE).unwrap();
    assert_eq!(tmpl.parameters.len(), 2);
    assert_eq!(tmpl.resources.len(), 2);
    assert!(tmpl.mappings.contains_key("RegionMap"));
}

#[test]
fn test_resolve_with_defaults() {
    let tmpl = parse_template_str(SAMPLE_TEMPLATE).unwrap();
    let resources = resolve_template(&tmpl, &StrMap::new(), &StrMap::new()).unwrap();

    // IsProd is false (default Env=dev), so ProdOnlyBucket should be skipped
    assert!(!resources.contains_key("ProdOnlyBucket"));

    // MyInstance should have resolved InstanceType
    let instance = resources.get("MyInstance").unwrap();
    let inst_type = instance.properties.get("InstanceType").unwrap();
    assert_eq!(
        inst_type,
        &ResolvedValue::Concrete(Yaml::String("t3.micro".into()))
    );
}

#[test]
fn test_resolve_with_prod_params() {
    let tmpl = parse_template_str(SAMPLE_TEMPLATE).unwrap();
    let mut params = StrMap::new();
    params.insert("Env".to_string(), "prod".to_string());
    let resources = resolve_template(&tmpl, &params, &StrMap::new()).unwrap();

    // IsProd is true, so ProdOnlyBucket should be present
    assert!(resources.contains_key("ProdOnlyBucket"));
}

/// SQS template: !Sub with multiple parameters, FIFO queues
const SQS_TEMPLATE: &str = r#"
AWSTemplateFormatVersion: "2010-09-09"
Parameters:
  AppName:
    Type: String
  Stage:
    Type: String
    AllowedValues: ["dev", "stg", "prd"]
  Module:
    Type: String
Resources:
  OrderQueueFIFO:
    Type: AWS::SQS::Queue
    Properties:
      QueueName: !Sub ${AppName}-${Stage}-${Module}-order-queue.fifo
      MessageRetentionPeriod: 1209600
      FifoQueue: true
  OrderDeadLetterQueue:
    Type: AWS::SQS::Queue
    Properties:
      QueueName: !Sub ${AppName}-${Stage}-${Module}-order-dlq
      MessageRetentionPeriod: 1209600
"#;

#[test]
fn test_sqs_template_parse_and_resolve() {
    let tmpl = parse_template_str(SQS_TEMPLATE).unwrap();
    assert_eq!(tmpl.resources.len(), 2);

    let mut params = StrMap::new();
    params.insert("AppName".into(), "acme".into());
    params.insert("Stage".into(), "prd".into());
    params.insert("Module".into(), "base".into());

    let resources = resolve_template(&tmpl, &params, &StrMap::new()).unwrap();
    assert_eq!(resources.len(), 2);

    // Verify FIFO queue property is preserved
    let fifo = resources.get("OrderQueueFIFO").unwrap();
    let fifo_val = fifo.properties.get("FifoQueue").unwrap();
    assert_eq!(fifo_val, &ResolvedValue::Concrete(Yaml::Bool(true)));
}

/// Kinesis with Mappings: environment-dependent `ShardCount` via !`FindInMap`
const KINESIS_TEMPLATE: &str = r#"
AWSTemplateFormatVersion: "2010-09-09"
Parameters:
  Stage:
    Type: String
    AllowedValues: ["dev", "stg", "prd"]
Mappings:
  StageMap:
    dev:
      ShardCount: 1
    stg:
      ShardCount: 1
    prd:
      ShardCount: 2
Resources:
  DataStream:
    Type: AWS::Kinesis::Stream
    Properties:
      ShardCount: !FindInMap [StageMap, !Ref Stage, ShardCount]
      RetentionPeriodHours: 24
"#;

#[test]
fn test_kinesis_findinmap_resolves_number() {
    let tmpl = parse_template_str(KINESIS_TEMPLATE).unwrap();

    // prd -> ShardCount=2
    let mut params = StrMap::new();
    params.insert("Stage".into(), "prd".into());
    let resources = resolve_template(&tmpl, &params, &StrMap::new()).unwrap();
    let stream = resources.get("DataStream").unwrap();
    let shard_count = stream.properties.get("ShardCount").unwrap();
    assert_eq!(
        shard_count,
        &ResolvedValue::Concrete(Yaml::String("2".into()))
    );

    // dev -> ShardCount=1
    params.insert("Stage".into(), "dev".into());
    let resources = resolve_template(&tmpl, &params, &StrMap::new()).unwrap();
    let stream = resources.get("DataStream").unwrap();
    let shard_count = stream.properties.get("ShardCount").unwrap();
    assert_eq!(
        shard_count,
        &ResolvedValue::Concrete(Yaml::String("1".into()))
    );
}

/// `OpenSearch` Serverless with Condition using !`FindInMap` boolean
const AOSS_TEMPLATE: &str = r#"
AWSTemplateFormatVersion: "2010-09-09"
Parameters:
  Stage:
    Type: String
Mappings:
  StageMap:
    dev:
      StandbyReplicas: ENABLED
      EnableIndexRetention: false
    prd:
      StandbyReplicas: ENABLED
      EnableIndexRetention: true
Conditions:
  EnableIndexRetention: !Equals
    - !FindInMap [StageMap, !Ref Stage, EnableIndexRetention]
    - "true"
Resources:
  Collection:
    Type: AWS::OpenSearchServerless::Collection
    Properties:
      Name: test-collection
      Type: TIMESERIES
  RetentionPolicy:
    Type: AWS::OpenSearchServerless::LifecyclePolicy
    Condition: EnableIndexRetention
    Properties:
      Name: test-retention
      Type: retention
"#;

#[test]
fn test_condition_with_findinmap_boolean() {
    let tmpl = parse_template_str(AOSS_TEMPLATE).unwrap();

    // dev: EnableIndexRetention=false -> RetentionPolicy should be skipped
    let mut params = StrMap::new();
    params.insert("Stage".into(), "dev".into());
    let resources = resolve_template(&tmpl, &params, &StrMap::new()).unwrap();
    assert!(resources.contains_key("Collection"));
    assert!(!resources.contains_key("RetentionPolicy"));

    // prd: EnableIndexRetention=true -> RetentionPolicy should be present
    params.insert("Stage".into(), "prd".into());
    let resources = resolve_template(&tmpl, &params, &StrMap::new()).unwrap();
    assert!(resources.contains_key("Collection"));
    assert!(resources.contains_key("RetentionPolicy"));
}

/// SAM template: `AWS::Serverless::Function` + `Fn::ImportValue` + !Sub nested
const SAM_TEMPLATE: &str = r#"
AWSTemplateFormatVersion: "2010-09-09"
Transform: AWS::Serverless-2016-10-31
Parameters:
  AppName:
    Type: String
  Stage:
    Type: String
  Module:
    Type: String
Mappings:
  StageMap:
    dev:
      LogLevel: DEBUG
    prd:
      LogLevel: INFO
Resources:
  IngestFunction:
    Type: AWS::Serverless::Function
    Properties:
      FunctionName: !Sub ${AppName}-${Stage}-${Module}-ingest
      MemorySize: 256
      Timeout: 900
      Environment:
        Variables:
          LOG_LEVEL: !FindInMap [StageMap, !Ref Stage, LogLevel]
          STREAM_ARN:
            Fn::ImportValue: !Sub ${AppName}-${Stage}-${Module}-kds-StreamArn
  IngestLogGroup:
    Type: AWS::Logs::LogGroup
    Properties:
      LogGroupName: !Sub /${AppName}-${Stage}-${Module}/ingest/
      RetentionInDays: 7
  DeadLetterQueue:
    Type: AWS::SQS::Queue
    Properties:
      QueueName: !Sub ${AppName}-${Stage}-${Module}-dlq
      MessageRetentionPeriod: 1209600
"#;

#[test]
fn test_sam_template_with_imports() {
    let tmpl = parse_template_str(SAM_TEMPLATE).unwrap();
    assert_eq!(tmpl.resources.len(), 3);

    // Check resource types
    assert_eq!(
        tmpl.resources.get("IngestFunction").unwrap().resource_type,
        "AWS::Serverless::Function"
    );
    assert_eq!(
        tmpl.resources.get("IngestLogGroup").unwrap().resource_type,
        "AWS::Logs::LogGroup"
    );

    let mut params = StrMap::new();
    params.insert("AppName".into(), "acme".into());
    params.insert("Stage".into(), "prd".into());
    params.insert("Module".into(), "ingest".into());

    let mut imports = StrMap::new();
    imports.insert(
        "acme-prd-ingest-kds-StreamArn".into(),
        "arn:aws:kinesis:ap-northeast-1:123:stream/test".into(),
    );

    let resources = resolve_template(&tmpl, &params, &imports).unwrap();
    assert_eq!(resources.len(), 3);

    // Verify Fn::ImportValue with !Sub resolved
    let func = resources.get("IngestFunction").unwrap();
    let env_vars = func
        .properties
        .get("Environment")
        .unwrap()
        .get("Variables")
        .unwrap();

    let stream_arn = env_vars.get("STREAM_ARN").unwrap();
    assert_eq!(
        stream_arn,
        &ResolvedValue::Concrete(Yaml::String(
            "arn:aws:kinesis:ap-northeast-1:123:stream/test".into()
        ))
    );

    // Verify FindInMap resolved
    let log_level = env_vars.get("LOG_LEVEL").unwrap();
    assert_eq!(
        log_level,
        &ResolvedValue::Concrete(Yaml::String("INFO".into()))
    );
}

/// `DynamoDB` with many tables (like base/dynamodb.yml with 18+ tables)
const MULTI_DDB_TEMPLATE: &str = r#"
AWSTemplateFormatVersion: "2010-09-09"
Parameters:
  AppName:
    Type: String
    Default: acme
  Stage:
    Type: String
    Default: prd
Resources:
  TableA:
    Type: AWS::DynamoDB::Table
    Properties:
      TableName: !Sub "${AppName}-${Stage}-TableA"
      BillingMode: PAY_PER_REQUEST
      AttributeDefinitions:
        - AttributeName: pk
          AttributeType: S
      KeySchema:
        - AttributeName: pk
          KeyType: HASH
  TableB:
    Type: AWS::DynamoDB::Table
    Properties:
      TableName: !Sub "${AppName}-${Stage}-TableB"
      BillingMode: PAY_PER_REQUEST
      AttributeDefinitions:
        - AttributeName: pk
          AttributeType: S
        - AttributeName: sk
          AttributeType: S
      KeySchema:
        - AttributeName: pk
          KeyType: HASH
        - AttributeName: sk
          KeyType: RANGE
      GlobalSecondaryIndexes:
        - IndexName: GSI1
          KeySchema:
            - AttributeName: sk
              KeyType: HASH
          Projection:
            ProjectionType: ALL
      StreamSpecification:
        StreamViewType: NEW_AND_OLD_IMAGES
"#;

#[test]
fn test_multi_dynamodb_tables() {
    let tmpl = parse_template_str(MULTI_DDB_TEMPLATE).unwrap();
    let resources = resolve_template(&tmpl, &StrMap::new(), &StrMap::new()).unwrap();
    assert_eq!(resources.len(), 2);
    assert_eq!(resources.get("TableA").unwrap().resource_type, "AWS::DynamoDB::Table");
}

/// A template with a parameter that has no Default and is not supplied
/// must return MissingParameters containing the parameter name.
#[test]
fn test_resolve_missing_required_parameter_errors() {
    let template = r#"
AWSTemplateFormatVersion: "2010-09-09"
Parameters:
  Env:
    Type: String
  InstanceTypeParam:
    Type: String
Resources:
  MyInstance:
    Type: AWS::EC2::Instance
    Properties:
      InstanceType: !Ref InstanceTypeParam
"#;
    let tmpl = parse_template_str(template).unwrap();
    let result = resolve_template(&tmpl, &StrMap::new(), &StrMap::new());
    let err = result.expect_err("expected Err for missing required parameters");
    let err_msg = err.message();
    assert!(
        err_msg.contains("Env"),
        "error message must contain parameter name 'Env': {err_msg}"
    );
    assert!(
        err_msg.contains("InstanceTypeParam"),
        "error message must contain parameter name 'InstanceTypeParam': {err_msg}"
    );
}

/// A template with a parameter that has no Default but IS supplied must succeed.
#[test]
fn test_resolve_supplied_required_parameter_succeeds() {
    let template = r#"
AWSTemplateFormatVersion: "2010-09-09"
Parameters:
  Env:
    Type: String
Resources:
  MyBucket:
    Type: AWS::S3::Bucket
    Properties:
      BucketName: !Sub "${Env}-bucket"
"#;
    let tmpl = parse_template_str(template).unwrap();
    let mut params = StrMap::new();
    params.insert("Env".to_string(), "prod".to_string());
    let result = resolve_template(&tmpl, &params, &StrMap::new());
    assert!(
        result.is_ok(),
        "expected Ok when required parameter is supplied"
    );
}

/// Under Lenient the missing-parameter case becomes a diagnostic and the
/// resolved value carries a `had_errors=true` ParseOutcome instead of an
/// Err. The offending resource (which depends on the unbound `!Ref`) is
/// best-effort skipped, but the rest of the template still resolves.
#[test]
fn lenient_demotes_missing_parameter_to_diagnostic() {
    let template = r#"
AWSTemplateFormatVersion: "2010-09-09"
Parameters:
  Env:
    Type: String
Resources:
  MyBucket:
    Type: AWS::S3::Bucket
    Properties:
      BucketName: !Sub "${Env}-bucket"
"#;
    let tmpl = parse_template_str(template).unwrap();
    let outcome = resolve_template_with_policy(
        &tmpl,
        &StrMap::new(),
        &StrMap::new(),
        ParsePolicy::Lenient,
        None,
    )
    .expect("lenient must not hard-error on missing parameter");
    assert!(
        outcome.had_errors,
        "missing parameter must surface had_errors=true under Lenient"
    );
    assert!(
        outcome
            .diagnostics
            .iter()
            .any(|d| d.code == "missing_parameter"),
        "diagnostics should include 'missing_parameter'; got {:?}",
        outcome.diagnostics
    );
    assert!(
        !outcome.value.contains_key("MyBucket"),
        "the resource that depends on the unbound parameter must be left out"
    );
}

/// A declared parameter without a value is not found, and leaves out the
/// resources that refer to it; a name that is not declared is a resource.
#[test]
fn unbound_parameters_leave_out_their_resources() {
    let template = r#"
Parameters:
  Env:
    Type: String
  Size:
    Type: String
    Default: small
Resources:
  ByRef:
    Type: AWS::S3::Bucket
    Properties:
      BucketName: !Ref Env
  BySub:
    Type: AWS::S3::Bucket
    Properties:
      BucketName: !Sub "${Env}-bucket"
  Escaped:
    Type: AWS::S3::Bucket
    Properties:
      BucketName: !Sub "${!Env}"
  Local:
    Type: AWS::S3::Bucket
    Properties:
      BucketName: !Sub ["${Env}-x", {Env: here}]
  Other:
    Type: AWS::S3::Bucket
    Properties:
      BucketName: !Sub "${Size}-${Escaped}"
"#;
    let tmpl = parse_template_str(template).unwrap();
    let outcome = resolve_template_with_policy(
        &tmpl,
        &StrMap::new(),
        &StrMap::new(),
        ParsePolicy::Lenient,
        Some("t.yaml"),
    )
    .unwrap();
    let codes: Vec<&str> = outcome.diagnostics.iter().map(|d| d.code.as_str()).collect();
    assert_eq!(
        codes,
        vec!["missing_parameter", "parameter_not_found", "parameter_not_found"]
    );
    assert_eq!(outcome.diagnostics[1].message, "parameter not found: Env");
    assert_eq!(
        outcome.diagnostics[1].location.as_ref().unwrap().file,
        "t.yaml"
    );
    assert!(!outcome.value.contains_key("ByRef"));
    assert!(!outcome.value.contains_key("BySub"));
    assert!(outcome.value.contains_key("Escaped"));
    assert!(outcome.value.contains_key("Local"));
    let other = outcome.value.get("Other").unwrap();
    assert_eq!(
        other.properties.get("BucketName").unwrap().references()[0].logical_id,
        "Escaped"
    );
}

/// Under Strict the same template must surface a hard CfnError.
#[test]
fn strict_preserves_missing_parameter_hard_error() {
    let template = r#"
AWSTemplateFormatVersion: "2010-09-09"
Parameters:
  Env:
    Type: String
Resources:
  MyBucket:
    Type: AWS::S3::Bucket
    Properties:
      BucketName: !Sub "${Env}-bucket"
"#;
    let tmpl = parse_template_str(template).unwrap();
    let err = resolve_template_with_policy(
        &tmpl,
        &StrMap::new(),
        &StrMap::new(),
        ParsePolicy::Strict,
        None,
    )
    .expect_err("strict must error on missing parameter");
    assert!(
        matches!(err, CfnError::MissingParameters(_)),
        "expected MissingParameters; got {err:?}"
    );
}

/// `Fn::ImportValue` against an unknown export becomes a diagnostic
/// under Lenient (instead of `CfnError::ImportValueNotFound`).
#[test]
fn lenient_demotes_import_value_not_found() {
    let template = r#"
AWSTemplateFormatVersion: "2010-09-09"
Resources:
  Func:
    Type: AWS::Lambda::Function
    Properties:
      FunctionName: example
      Environment:
        Variables:
          ARN:
            Fn::ImportValue: missing-export
"#;
    let tmpl = parse_template_str(template).unwrap();
    let outcome = resolve_template_with_policy(
        &tmpl,
        &StrMap::new(),
        &StrMap::new(),
        ParsePolicy::Lenient,
        None,
    )
    .expect("lenient must demote ImportValueNotFound to diagnostic");
    assert!(outcome.had_errors);
    assert!(
        outcome
            .diagnostics
            .iter()
            .any(|d| d.code == "import_value_not_found"),
        "expected import_value_not_found diagnostic; got {:?}",
        outcome.diagnostics
    );
}

/// Strict preserves `CfnError::ImportValueNotFound` on the
/// same template.
#[test]
fn strict_preserves_import_value_not_found() {
    let template = r#"
AWSTemplateFormatVersion: "2010-09-09"
Resources:
  Func:
    Type: AWS::Lambda::Function
    Properties:
      FunctionName: example
      Environment:
        Variables:
          ARN:
            Fn::ImportValue: missing-export
"#;
    let tmpl = parse_template_str(template).unwrap();
    let err = resolve_template_with_policy(
        &tmpl,
        &StrMap::new(),
        &StrMap::new(),
        ParsePolicy::Strict,
        None,
    )
    .expect_err("strict must error");
    assert!(matches!(err, CfnError::ImportValueNotFound(_)));
}

fn lit(s: &str) -> StringPart {
    StringPart::Literal(s.to_string())
}

#[test]
fn from_parts_all_literals_collapse_to_concrete() {
    let v = ResolvedValue::from_parts(vec![lit("prefix-"), lit("-suffix")]);
    assert_eq!(
        v,
        ResolvedValue::Concrete(Yaml::String("prefix--suffix".into()))
    );
}

#[test]
fn from_parts_empty_is_empty_string() {
    let v = ResolvedValue::from_parts(vec![]);
    assert_eq!(v, ResolvedValue::Concrete(Yaml::String(String::new())));
}

#[test]
fn from_parts_single_ref_promotes() {
    let v = ResolvedValue::from_parts(vec![StringPart::Ref("MyQueue".into())]);
    assert_eq!(v, ResolvedValue::Ref("MyQueue".into()));
}

#[test]
fn from_parts_single_getatt_promotes() {
    let v = ResolvedValue::from_parts(vec![StringPart::GetAtt {
        logical_id: "MyFn".into(),
        attr: "Arn".into(),
    }]);
    assert_eq!(
        v,
        ResolvedValue::GetAtt {
            logical_id: "MyFn".into(),
            attr: "Arn".into()
        }
    );
}

#[test]
fn from_parts_mixed_stays_interpolated() {
    let v = ResolvedValue::from_parts(vec![
        lit("arn:"),
        StringPart::Ref("MyQueue".into()),
        lit("/suffix"),
    ]);
    match &v {
        ResolvedValue::Interpolated(parts) => assert_eq!(parts.len(), 3),
        other => panic!("expected Interpolated, got {other:?}"),
    }
}

#[test]
fn references_returns_all_interpolated_parts() {
    let v = ResolvedValue::Interpolated(vec![
        StringPart::GetAtt {
            logical_id: "FnA".into(),
            attr: "Arn".into(),
        },
        lit(":"),
        StringPart::GetAtt {
            logical_id: "FnB".into(),
            attr: "Arn".into(),
        },
    ]);
    let refs = v.references();
    assert_eq!(refs.len(), 2, "both references must be extracted");
    assert_eq!(refs[0].logical_id, "FnA");
    assert_eq!(refs[1].logical_id, "FnB");
}

#[test]
fn references_empty_for_concrete_and_containers() {
    assert!(
        ResolvedValue::Concrete(Yaml::String("x".into()))
            .references()
            .is_empty()
    );
    assert!(
        ResolvedValue::Sequence(vec![ResolvedValue::Ref("A".into())])
            .references()
            .is_empty()
    );
}

#[test]
fn render_parts_uses_cfn_native_syntax() {
    let parts = vec![
        lit("arn:aws:lambda:${AWS::Region}:fn:"),
        StringPart::Ref("MyFn".into()),
        lit(":"),
        StringPart::GetAtt {
            logical_id: "Other".into(),
            attr: "Arn".into(),
        },
    ];
    assert_eq!(
        render_parts(&parts),
        "arn:aws:lambda:${AWS::Region}:fn:${MyFn}:${Other.Arn}"
    );
}

/// Texts and lists are read through a tag that stands before them.
#[test]
fn tags_before_texts_and_lists_are_seen_through() {
    let template = parse_template_str(
        r#"
Parameters:
  Size: !Note
    Type: !Note String
    Default: big
Conditions:
  Never: {"Fn::Equals": !Note [a, b]}
  Always: {"Fn::Equals": !Note [a, a]}
Resources: !Note
  Table:
    Type: !Note AWS::DynamoDB::Table
    Condition: !Note Always
    Properties:
      TableName: {Ref: !Note Size}
      Other: !Sub [!Note "x-${A}", {A: "y"}]
      Joined: {"Fn::Join": !Note ["-", [a, b]]}
  Gone:
    Type: AWS::S3::Bucket
    Condition: !Note Never
"#,
    )
    .unwrap();
    let resolved = resolve_template(&template, &StrMap::new(), &StrMap::new()).unwrap();
    assert_eq!(resolved.len(), 1);
    let table = resolved.get("Table").unwrap();
    assert_eq!(table.resource_type, "AWS::DynamoDB::Table");
    let text = |key: &str| table.properties.get(key).and_then(|v| v.as_str());
    assert_eq!(text("TableName"), Some("big"));
    assert_eq!(text("Other"), Some("x-y"));
    assert_eq!(text("Joined"), Some("a-b"));
}
