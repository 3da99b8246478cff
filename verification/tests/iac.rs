//! Raw resources, interpolated strings and adapter registries.

use std::sync::Arc;

use yevice::arch::Provider;
use yevice::arch::ResourceShell;
use yevice::iac::render_iac_parts;
use yevice::iac::CfnAdapter;
use yevice::iac::CfnAdapterRegistry;
use yevice::iac::IacError;
use yevice::iac::IacPropertyValue;
use yevice::iac::IacStringPart;
use yevice::iac::RawCfnResource;
use yevice::iac::RawTfResource;
use yevice::iac::SharedCfnAdapter;
use yevice::iac::SharedTfAdapter;
use yevice::iac::TfAdapter;
use yevice::iac::TfAdapterRegistry;
use yevice::json::Json;
use yevice::strmap::StrMap;
use yevice::yaml::Number;

/// `get_str()` must return the CFN-native rendered form for `Interpolated`
/// values so that adapters that expect a concrete `Fn::Sub`/`Fn::Join` string
/// work.
#[test]
fn get_str_interpolated_renders_parts() {
    let parts = vec![
        IacStringPart::Literal("hello-".to_string()),
        IacStringPart::Ref("MyBucket".to_string()),
        IacStringPart::Literal("-suffix".to_string()),
    ];
    let mut raw = RawCfnResource::new("MyResource", "AWS::Test::Resource", Json::Object(vec![]));
    raw.properties.insert(
        "Name".to_string(),
        IacPropertyValue::new_interpolated(parts),
    );

    assert_eq!(raw.get_str("Name"), Some("hello-${MyBucket}-suffix"));
}

/// `get_str()` also handles `Attr` parts correctly.
#[test]
fn get_str_interpolated_with_attr_part() {
    let parts = vec![
        IacStringPart::Literal("arn:prefix:".to_string()),
        IacStringPart::Attr {
            logical_id: "MyTable".to_string(),
            attr: "Arn".to_string(),
        },
    ];
    let mut raw = RawCfnResource::new("MyResource", "AWS::Test::Resource", Json::Object(vec![]));
    raw.properties
        .insert("Arn".to_string(), IacPropertyValue::new_interpolated(parts));

    assert_eq!(raw.get_str("Arn"), Some("arn:prefix:${MyTable.Arn}"));
}

/// `render_iac_parts` helper produces the correct CFN `${...}` string.
#[test]
fn render_iac_parts_all_variants() {
    let parts = vec![
        IacStringPart::Literal("prefix-".to_string()),
        IacStringPart::Ref("ResA".to_string()),
        IacStringPart::Literal(":".to_string()),
        IacStringPart::Attr {
            logical_id: "ResB".to_string(),
            attr: "Name".to_string(),
        },
    ];
    assert_eq!(render_iac_parts(&parts), "prefix-${ResA}:${ResB.Name}");
}

fn text(s: &str) -> Json {
    Json::String(s.to_string())
}

fn float(s: &str) -> Number {
    Number::Float(s.to_string())
}

fn sample() -> RawCfnResource {
    RawCfnResource::new(
        "Fn",
        "AWS::Lambda::Function",
        Json::Object(vec![
            ("Arch".to_string(), Json::Array(vec![text("arm64")])),
            ("Env".to_string(), Json::Object(vec![])),
            ("Memory".to_string(), Json::Number(Number::PosInt(512))),
            ("Timeout".to_string(), text("30")),
            ("Traced".to_string(), text("TRUE")),
            ("Untraced".to_string(), Json::Bool(false)),
            ("Word".to_string(), text("maybe")),
        ]),
    )
}

#[test]
fn raw_cfn_resource_reads_scalars() {
    let raw = sample();
    assert_eq!(raw.logical_id.as_str(), "Fn");
    assert_eq!(raw.resource_type.as_str(), "AWS::Lambda::Function");
    assert_eq!(raw.get_str("Timeout"), Some("30"));
    assert_eq!(raw.get_str("Memory"), None);
    assert_eq!(raw.get_f64("Memory"), Some(Number::PosInt(512)));
    assert_eq!(raw.get_f64("Timeout"), Some(float("30")));
    assert_eq!(raw.get_f64("Word"), None);
    assert_eq!(raw.get_f64("Missing"), None);
    assert_eq!(raw.get_bool("Traced"), Some(true));
    assert_eq!(raw.get_bool("Untraced"), Some(false));
    assert_eq!(raw.get_bool("Word"), None);
    assert_eq!(raw.get_object("Env"), Some(&Json::Object(vec![])));
    assert_eq!(
        raw.get_object("Arch"),
        Some(&Json::Array(vec![text("arm64")]))
    );
    assert_eq!(raw.get_object("Missing"), None);
}

#[test]
fn raw_cfn_resource_without_an_object_has_no_properties() {
    let raw = RawCfnResource::new("X", "T", text("not an object"));
    assert_eq!(raw.properties.len(), 0);
}

#[test]
fn raw_tf_resource_reads_attributes_and_blocks() {
    let mut raw = RawTfResource::new("aws_instance_web", "aws_instance");
    raw.attrs.insert(
        "ami".to_string(),
        IacPropertyValue::Concrete(text("ami-1")),
    );
    raw.attrs.insert(
        "count".to_string(),
        IacPropertyValue::Concrete(text("2.5")),
    );
    raw.attrs.insert(
        "on".to_string(),
        IacPropertyValue::Concrete(text("False")),
    );
    let mut first = StrMap::new();
    first.insert("size".to_string(), Json::Number(Number::PosInt(8)));
    raw.blocks
        .insert("ebs".to_string(), vec![first, StrMap::new()]);
    raw.blocks.insert("none".to_string(), vec![]);
    assert_eq!(raw.get_str("ami"), Some("ami-1"));
    assert_eq!(raw.get_f64("count"), Some(float("2.5")));
    assert_eq!(raw.get_bool("on"), Some(false));
    let block = raw.get_block("ebs").expect("the first block");
    assert_eq!(block.get("size"), Some(&Json::Number(Number::PosInt(8))));
    assert_eq!(raw.get_blocks("ebs").len(), 2);
    assert!(raw.get_block("none").is_none());
    assert!(raw.get_blocks("other").is_empty());
}

struct NamedCfn {
    types: Vec<&'static str>,
    service: &'static str,
}

impl CfnAdapter for NamedCfn {
    fn handles(&self) -> Vec<&'static str> {
        self.types.clone()
    }

    fn convert(&self, raw: &RawCfnResource) -> Result<ResourceShell, IacError> {
        match raw.get_str("Timeout") {
            Some(t) => Ok(ResourceShell::new(self.service, Provider::Aws, text(t))),
            None => Err(IacError::MissingProperty("Timeout".to_string())),
        }
    }
}

fn cfn(types: Vec<&'static str>, service: &'static str) -> SharedCfnAdapter {
    SharedCfnAdapter {
        adapter: Arc::new(NamedCfn { types, service }),
    }
}

#[test]
fn cfn_registry_dispatches_by_type() {
    let mut registry = CfnAdapterRegistry::new();
    registry.register(cfn(vec!["AWS::Lambda::Function", "A"], "aws.lambda"));
    registry.register(cfn(vec!["B"], "aws.b"));
    assert_eq!(
        registry.registered_types(),
        vec!["A", "AWS::Lambda::Function", "B"]
    );
    let shell = registry.convert(&sample()).unwrap().unwrap();
    assert_eq!(shell.service_id, "aws.lambda");
    assert_eq!(shell.spec, text("30"));
    assert!(registry.lookup("A").is_some());
    assert!(registry.lookup("C").is_none());
    let unknown = RawCfnResource::new("X", "C", Json::Null);
    assert!(registry.convert(&unknown).is_none());
    let lacking = RawCfnResource::new("X", "B", Json::Null);
    let err = registry.convert(&lacking).unwrap().unwrap_err();
    assert_eq!(err.message(), "missing required property 'Timeout'");
}

struct NamedTf;

impl TfAdapter for NamedTf {
    fn handles(&self) -> Vec<&'static str> {
        vec!["aws_instance", "aws_spot"]
    }

    fn convert(&self, raw: &RawTfResource) -> Result<ResourceShell, IacError> {
        Ok(ResourceShell::new(
            "aws.ec2",
            Provider::Aws,
            text(raw.resource_type.as_str()),
        ))
    }
}

#[test]
fn tf_registry_dispatches_by_type() {
    let mut registry = TfAdapterRegistry::new();
    registry.register(SharedTfAdapter {
        adapter: Arc::new(NamedTf),
    });
    assert_eq!(
        registry.registered_types(),
        vec!["aws_instance", "aws_spot"]
    );
    assert!(registry.lookup("aws_spot").is_some());
    let raw = RawTfResource::new("aws_spot_x", "aws_spot");
    assert_eq!(
        registry.convert(&raw).unwrap().unwrap().spec,
        text("aws_spot")
    );
    assert!(registry
        .convert(&RawTfResource::new("y", "google_x"))
        .is_none());
}
