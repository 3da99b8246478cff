//! From an input to a cost model.

use std::sync::Arc;

use yevice::arch::Architecture;
use yevice::arch::LogicalId;
use yevice::arch::PerProvider;
use yevice::arch::Provider;
use yevice::arch::Region;
use yevice::arch::Resource;
use yevice::arch::ResourceShell;
use yevice::arch::ResourceType;
use yevice::cfn::error::CfnError;
use yevice::engine::architecture::build_architecture_from_input;
use yevice::engine::architecture::build_architecture_from_input_with_policy;
use yevice::engine::architecture::detect_tf_provider;
use yevice::engine::architecture::merge_tfvars;
use yevice::engine::architecture::resolve_cfn_template;
use yevice::engine::architecture::resolve_cfn_template_str;
use yevice::engine::architecture::resolve_cfn_template_with_policy;
use yevice::engine::architecture::resolve_tf_input;
use yevice::engine::architecture::resolve_tf_input_with_policy;
use yevice::engine::architecture::resolve_wrangler_input_path;
use yevice::engine::architecture::terraform_config_dir;
use yevice::engine::architecture::tf_files;
use yevice::engine::architecture::tfvars_files;
use yevice::engine::architecture::CfnInputs;
use yevice::engine::architecture::InputText;
use yevice::engine::architecture::SourceText;
use yevice::engine::architecture::TfProvider;
use yevice::engine::error::EngineError;
use yevice::engine::generate::generate_cost_model;
use yevice::engine::generate::GenerateRequest;
use yevice::engine::input::detect_input_format;
use yevice::engine::input::find_wrangler_config;
use yevice::engine::input::resolve_input_format;
use yevice::engine::input::DirectoryListing;
use yevice::engine::input::InputFormat;
use yevice::engine::registry::build_pricing_resolver;
use yevice::engine::registry::build_registries;
use yevice::json::Json;
use yevice::policy::ParsePolicy;
use yevice::pricing::catalog::CatalogHandle;
use yevice::pricing::catalog::PriceCatalog;
use yevice::pricing::noop::NoopCatalog;
use yevice::service::plugin::PluginHandle;
use yevice::service::plugin::ProviderPlugin;
use yevice::service::plugin::Registration;
use yevice::service::plugin::SharedPlugin;
use yevice::service::resolver::PriceCatalogResolver;
use yevice::strmap::StrMap;
use yevice::tf::error::TfError;
use yevice::tf::parser::TfResource;
use yevice::tf::parser::TfValue;
use yevice::tf::resolver::ResolvedConfig;
use yevice::wrangler::error::WranglerError;
use yevice::wrangler::parser::parse_wrangler_str;
use yevice::wrangler::plugin::CloudflarePlugin;

fn tf_resource(resource_type: &str) -> TfResource {
    TfResource {
        resource_type: resource_type.to_string(),
        name: "sample".to_string(),
        attrs: StrMap::new(),
        blocks: StrMap::new(),
    }
}

fn resolved_config(resources: Vec<TfResource>) -> ResolvedConfig {
    ResolvedConfig {
        resources,
        vars: StrMap::new(),
        locals: StrMap::new(),
    }
}

#[test]
fn detects_terraform_provider_from_resolved_config() {
    let aws = resolved_config(vec![tf_resource("aws_s3_bucket")]);
    assert_eq!(detect_tf_provider(&aws), TfProvider::Aws);

    let gcp = resolved_config(vec![tf_resource("google_storage_bucket")]);
    assert_eq!(detect_tf_provider(&gcp), TfProvider::Gcp);

    let mixed = resolved_config(vec![
        tf_resource("aws_s3_bucket"),
        tf_resource("google_storage_bucket"),
    ]);
    assert_eq!(detect_tf_provider(&mixed), TfProvider::Mixed);

    let unknown = resolved_config(vec![tf_resource("azurerm_storage_account")]);
    assert_eq!(detect_tf_provider(&unknown), TfProvider::Unknown);
}

#[test]
fn resolve_cfn_template_str_resolves_parameters() {
    let template = "\
Parameters:
  TableName:
    Type: String
Resources:
  Table:
    Type: AWS::DynamoDB::Table
    Properties:
      TableName: !Ref TableName
";
    let mut inputs = CfnInputs::new();
    inputs
        .parameters
        .insert("TableName".to_string(), "orders".to_string());

    let resolved = resolve_cfn_template_str(template, &inputs).unwrap();
    assert!(resolved.resources.contains_key("Table"));
}

#[test]
fn resolve_cfn_template_str_reports_missing_parameters() {
    let template = "\
Parameters:
  TableName:
    Type: String
Resources:
  Table:
    Type: AWS::DynamoDB::Table
";
    let result = resolve_cfn_template_str(template, &CfnInputs::new());
    let Err(err) = result else {
        panic!("expected missing-parameter error");
    };
    assert!(matches!(err, EngineError::CfnResolve(_)), "got: {err:?}");
}

fn listing(names: Vec<&str>) -> DirectoryListing {
    DirectoryListing {
        wrangler_toml: names.contains(&"wrangler.toml"),
        wrangler_jsonc: names.contains(&"wrangler.jsonc"),
        names: names.into_iter().map(str::to_string).collect(),
        fault: None,
    }
}

#[test]
fn wrangler_directory_without_config_is_an_error() {
    let dir = listing(vec![]);
    let err = resolve_wrangler_input_path("yevice-engine-wrangler-missing", Some(&dir)).unwrap_err();
    assert!(matches!(err, EngineError::WranglerConfigNotFound { .. }));
}

#[test]
fn detects_input_formats_from_paths() {
    assert_eq!(
        detect_input_format("template.yaml", None).unwrap(),
        InputFormat::Cfn
    );
    assert_eq!(
        detect_input_format("main.tf", None).unwrap(),
        InputFormat::Tf
    );
    assert_eq!(
        detect_input_format("terraform.tfvars", None).unwrap(),
        InputFormat::Tf
    );
    assert_eq!(
        detect_input_format("wrangler.toml", None).unwrap(),
        InputFormat::Wrangler
    );
    assert_eq!(
        detect_input_format("wrangler.jsonc", None).unwrap(),
        InputFormat::Wrangler
    );
}

#[test]
fn detects_directory_inputs() {
    let tf_dir = listing(vec!["main.tf"]);
    assert_eq!(
        detect_input_format("detect-tf-dir", Some(&tf_dir)).unwrap(),
        InputFormat::Tf
    );

    let wrangler_dir = listing(vec!["wrangler.toml"]);
    assert_eq!(
        detect_input_format("detect-wrangler-dir", Some(&wrangler_dir)).unwrap(),
        InputFormat::Wrangler
    );
}

#[test]
fn unknown_extension_returns_unknown_format_error() {
    let err = detect_input_format("input.xyz", None).unwrap_err();
    assert!(matches!(err, EngineError::UnknownInputFormat { .. }));
    assert!(
        err.message().contains("input.xyz"),
        "error must name the path; got: {err:?}"
    );
}

#[test]
fn resolve_input_format_prefers_explicit_request() {
    let format = resolve_input_format("input.xyz", None, Some(InputFormat::Tf)).unwrap();
    assert_eq!(format, InputFormat::Tf);
}

/// A provider plugin stub that has no prices.
struct StubPlugin {
    provider: Provider,
}

impl ProviderPlugin for StubPlugin {
    fn provider(&self) -> Provider {
        self.provider
    }

    fn register(&self, _reg: &mut Registration) {}

    fn pricing_catalog(&self, _region: &str, _list_price: bool) -> CatalogHandle {
        CatalogHandle::Noop(NoopCatalog)
    }
}

fn stub(provider: Provider) -> PluginHandle {
    PluginHandle::Shared(SharedPlugin {
        plugin: Arc::new(StubPlugin { provider }),
    })
}

fn arch_with(provider: Provider) -> Architecture {
    let shell = ResourceShell::new("stub.service", provider, Json::Object(vec![]));
    Architecture {
        name: "test-arch".to_string(),
        region: Region::new("ap-northeast-1"),
        resources: vec![Resource {
            logical_id: LogicalId::new("MyService"),
            resource_type: ResourceType::new("stub_resource"),
            shell,
            group: None,
        }],
        connections: Vec::new(),
    }
}

#[test]
fn pricing_resolver_only_includes_providers_present_in_architecture() {
    let plugins = vec![stub(Provider::Aws), stub(Provider::Gcp)];
    let arch = arch_with(Provider::Gcp);

    let mut provider_regions: PerProvider<String> = PerProvider::new();
    provider_regions.insert(Provider::Gcp, "asia-northeast1".to_string());

    let resolver =
        build_pricing_resolver(&plugins, &arch, "ap-northeast-1", &provider_regions, false);
    assert!(
        resolver.resolve(Provider::Gcp).is_some(),
        "provider present in the architecture must get a catalog"
    );
    assert!(
        resolver.resolve(Provider::Aws).is_none(),
        "provider absent from the architecture must not get a catalog"
    );
}

#[test]
fn pricing_resolver_assigns_noop_catalog_to_other_provider() {
    let plugins: Vec<PluginHandle> = vec![];
    let arch = arch_with(Provider::Other);

    let resolver =
        build_pricing_resolver(&plugins, &arch, "ap-northeast-1", &PerProvider::new(), false);
    assert!(
        resolver.resolve(Provider::Other).is_some(),
        "Provider::Other must fall back to a no-op catalog"
    );
}

/// A plugin whose catalog bears the region that it was asked to price.
struct RegionalPlugin;

struct RegionalCatalog {
    region: String,
}

impl PriceCatalog for RegionalCatalog {
    fn region(&self) -> &str {
        &self.region
    }

    fn lookup(
        &self,
        _sku: &yevice::pricing::catalog::Sku,
    ) -> Result<yevice::pricing::catalog::PricedValue, yevice::pricing::error::PricingError> {
        Err(yevice::pricing::error::PricingError::NotFound {
            service: String::new(),
            region: self.region.clone(),
        })
    }
}

impl ProviderPlugin for RegionalPlugin {
    fn provider(&self) -> Provider {
        Provider::Gcp
    }

    fn register(&self, _reg: &mut Registration) {}

    fn pricing_catalog(&self, region: &str, list_price: bool) -> CatalogHandle {
        CatalogHandle::Shared(yevice::pricing::catalog::SharedCatalog {
            catalog: Arc::new(RegionalCatalog {
                region: format!("{region}/{list_price}"),
            }),
        })
    }
}

#[test]
fn pricing_resolver_takes_the_region_of_the_provider() {
    let plugins = vec![PluginHandle::Shared(SharedPlugin {
        plugin: Arc::new(RegionalPlugin),
    })];
    let arch = arch_with(Provider::Gcp);
    let mut regions: PerProvider<String> = PerProvider::new();
    regions.insert(Provider::Gcp, "asia-northeast1".to_string());
    let set = build_pricing_resolver(&plugins, &arch, "us-east-1", &regions, true);
    assert_eq!(
        set.resolve(Provider::Gcp).unwrap().region(),
        "asia-northeast1/true"
    );
    let unset = build_pricing_resolver(&plugins, &arch, "us-east-1", &PerProvider::new(), false);
    assert_eq!(
        unset.resolve(Provider::Gcp).unwrap().region(),
        "us-east-1/false"
    );
}

#[test]
fn directories_prefer_terraform_and_toml() {
    let both = listing(vec!["wrangler.jsonc", "wrangler.toml", "main.tf"]);
    assert_eq!(
        detect_input_format("d", Some(&both)).unwrap(),
        InputFormat::Tf
    );
    assert_eq!(
        find_wrangler_config("d", &both),
        Some("d/wrangler.toml".to_string())
    );
    let jsonc = listing(vec!["wrangler.jsonc"]);
    assert_eq!(
        resolve_wrangler_input_path("d", Some(&jsonc)).unwrap(),
        "d/wrangler.jsonc"
    );
    assert_eq!(
        resolve_wrangler_input_path("d/wrangler.toml", None).unwrap(),
        "d/wrangler.toml"
    );
    let neither = listing(vec!["readme.md", "MAIN.TF"]);
    assert!(matches!(
        detect_input_format("d", Some(&neither)),
        Err(EngineError::UnknownInputFormat { .. })
    ));
}

#[test]
fn unreadable_directory_is_an_error() {
    let dir = DirectoryListing {
        names: vec!["a.md".to_string()],
        fault: Some("denied".to_string()),
        wrangler_toml: false,
        wrangler_jsonc: false,
    };
    let err = detect_input_format("d", Some(&dir)).unwrap_err();
    assert_eq!(
        err,
        EngineError::ReadDir {
            path: "d".to_string(),
            source: "denied".to_string(),
        }
    );
}

#[test]
fn terraform_directory_of_a_file_is_its_parent() {
    assert_eq!(terraform_config_dir("infra", true).unwrap(), "infra");
    assert_eq!(
        terraform_config_dir("infra/main.tf", false).unwrap(),
        "infra"
    );
    assert_eq!(terraform_config_dir("main.tf", false).unwrap(), "");
    assert_eq!(
        terraform_config_dir("/", false).unwrap_err(),
        EngineError::TfConfigDir {
            path: "/".to_string()
        }
    );
}

fn names(v: &[&str]) -> Vec<String> {
    v.iter().map(|s| s.to_string()).collect()
}

#[test]
fn tfvars_files_come_in_the_order_of_precedence() {
    let found = names(&["b.auto.tfvars", "main.tf", "a.auto.tfvars", "x.tfvars"]);
    assert_eq!(
        tfvars_files("d", true, &found, "d/x.tfvars", true),
        vec![
            "d/terraform.tfvars",
            "d/a.auto.tfvars",
            "d/b.auto.tfvars",
            "d/x.tfvars"
        ]
    );
    assert_eq!(
        tfvars_files("d", false, &found, "d/main.tf", true),
        vec!["d/a.auto.tfvars", "d/b.auto.tfvars"]
    );
    // The input itself comes last, also where its directory has it anyway.
    assert_eq!(
        tfvars_files("d", true, &found, "d/terraform.tfvars", true),
        vec!["d/a.auto.tfvars", "d/b.auto.tfvars", "d/terraform.tfvars"]
    );
    assert_eq!(
        tfvars_files("d", true, &found, "d/./a.auto.tfvars", true),
        vec!["d/terraform.tfvars", "d/b.auto.tfvars", "d/./a.auto.tfvars"]
    );
    assert_eq!(
        tfvars_files("d", true, &found, "d/a.auto.tfvars", false),
        vec!["d/terraform.tfvars", "d/a.auto.tfvars", "d/b.auto.tfvars"]
    );
}

fn source(path: &str, text: &str) -> SourceText {
    SourceText {
        path: path.to_string(),
        text: Ok(text.to_string()),
    }
}

#[test]
fn later_tfvars_files_win() {
    let files = vec![
        source("a", "x = \"one\"\ny = \"kept\"\n"),
        source("b", "x = \"two\"\n"),
    ];
    let vars = merge_tfvars(&files).unwrap();
    assert_eq!(vars.get("x"), Some(&TfValue::String("two".to_string())));
    assert_eq!(vars.get("y"), Some(&TfValue::String("kept".to_string())));

    let unread = vec![SourceText {
        path: "c".to_string(),
        text: Err("gone".to_string()),
    }];
    assert_eq!(
        merge_tfvars(&unread).unwrap_err(),
        EngineError::TfVarsParse {
            path: "c".to_string(),
            source: TfError::Io("gone".to_string()),
        }
    );
}

fn main_tf() -> SourceText {
    source(
        "d/main.tf",
        r#"
variable "size" {}
resource "aws_instance" "web" {
  instance_type = var.size
}
"#,
    )
}

#[test]
fn terraform_input_resolves_with_its_variables() {
    let with = resolve_tf_input(
        "d",
        &vec![main_tf()],
        &vec![source("d/terraform.tfvars", "size = \"m5.large\"\n")],
    )
    .unwrap();
    assert_eq!(
        with.resources[0].attrs.get("instance_type"),
        Some(&TfValue::String("m5.large".to_string()))
    );
    let bad = resolve_tf_input("d", &vec![source("d/x.tf", "resource {")], &vec![]);
    assert!(matches!(bad, Err(EngineError::TfParse { .. })), "{bad:?}");
}

#[test]
fn policies_tell_an_open_variable_apart() {
    let registries = build_registries(&[]);
    let input = || InputText::Tf {
        dir: "d".to_string(),
        sources: vec![main_tf()],
        var_files: vec![],
    };
    let lenient = build_architecture_from_input_with_policy(
        input(),
        "d",
        &CfnInputs::new(),
        Some("n"),
        "us-east-1",
        &registries,
        ParsePolicy::Lenient,
    )
    .unwrap();
    assert!(lenient.had_errors);
    assert_eq!(lenient.diagnostics[0].code, "unresolved_var_ref");
    assert_eq!(lenient.value.name, "n");
    let strict = build_architecture_from_input_with_policy(
        input(),
        "d",
        &CfnInputs::new(),
        Some("n"),
        "us-east-1",
        &registries,
        ParsePolicy::Strict,
    );
    assert!(
        matches!(
            strict,
            Err(EngineError::TfResolve(TfError::UnresolvedSymbol { .. }))
        ),
        "{strict:?}"
    );
}

#[test]
fn terraform_without_known_resources_is_an_error() {
    let registries = build_registries(&[]);
    let input = InputText::Tf {
        dir: "d".to_string(),
        sources: vec![source("d/a.tf", "resource \"azurerm_x\" \"y\" {}\n")],
        var_files: vec![],
    };
    let err = build_architecture_from_input(
        input,
        "d",
        &CfnInputs::new(),
        None,
        "us-east-1",
        &registries,
    )
    .unwrap_err();
    assert!(matches!(err, EngineError::UnknownTfProvider { .. }), "{err:?}");
}

fn request<'a>(
    format: InputFormat,
    path: &'a str,
    regions: &'a PerProvider<String>,
) -> GenerateRequest<'a> {
    GenerateRequest {
        format,
        template_path: path,
        cfn_inputs: CfnInputs::new(),
        name: "shop",
        region: "us-east-1",
        provider_regions: regions,
        strict: true,
        list_price: false,
        policy: ParsePolicy::Lenient,
    }
}

#[test]
fn wrangler_input_becomes_a_cost_model() {
    let plugins = vec![PluginHandle::Cloudflare(CloudflarePlugin)];
    let regions = PerProvider::new();
    let input = InputText::Wrangler {
        path: "w/wrangler.toml".to_string(),
        architecture: parse_wrangler_str("[[kv_namespaces]]\nbinding = \"KV\"\n", "w"),
    };
    let outcome = generate_cost_model(
        &plugins,
        &request(InputFormat::Wrangler, "w", &regions),
        input,
    )
    .unwrap();
    assert_eq!(outcome.value.resources.len(), 2);
    assert!(!outcome.had_errors);

    let broken = InputText::Wrangler {
        path: "w/wrangler.toml".to_string(),
        architecture: Err(WranglerError::Io("gone".to_string())),
    };
    let err = generate_cost_model(
        &plugins,
        &request(InputFormat::Wrangler, "w", &regions),
        broken,
    )
    .unwrap_err();
    assert!(matches!(err, EngineError::WranglerParse { .. }), "{err:?}");
}

#[test]
fn diagnostics_stand_in_the_cost_model() {
    let regions = PerProvider::new();
    let input = InputText::Tf {
        dir: "d".to_string(),
        sources: vec![main_tf()],
        var_files: vec![],
    };
    let outcome =
        generate_cost_model(&[], &request(InputFormat::Tf, "d", &regions), input).unwrap();
    assert!(outcome.had_errors);
    assert_eq!(outcome.value.diagnostics, outcome.diagnostics);
    assert!(outcome.value.resources.is_empty());
}

#[test]
fn unread_template_is_a_parse_error() {
    let regions = PerProvider::new();
    let input = InputText::Cfn(SourceText {
        path: "t.yaml".to_string(),
        text: Err("gone".to_string()),
    });
    let err =
        generate_cost_model(&[], &request(InputFormat::Cfn, "t.yaml", &regions), input).unwrap_err();
    assert!(
        matches!(err, EngineError::CfnParse(CfnError::Io(_))),
        "{err:?}"
    );
}

#[test]
fn template_files_are_resolved_by_policy() {
    let text = "\
Resources:
  Table:
    Type: AWS::DynamoDB::Table
    Properties:
      TableName: !ImportValue Shared
  Queue:
    Type: AWS::SQS::Queue
";
    let file = source("t.yaml", text);
    let mut inputs = CfnInputs::new();
    match resolve_cfn_template(&file, &inputs) {
        Err(EngineError::CfnResolve(CfnError::ImportValueNotFound(name))) => {
            assert_eq!(name, "Shared");
        }
        Err(other) => panic!("got: {other:?}"),
        Ok(_) => panic!("expected an error"),
    }
    let lenient = resolve_cfn_template_with_policy(&file, &inputs, ParsePolicy::Lenient).unwrap();
    assert!(lenient.had_errors);
    assert_eq!(lenient.diagnostics.len(), 1);
    assert_eq!(lenient.diagnostics[0].code, "import_value_not_found");
    let location = lenient.diagnostics[0].location.as_ref().unwrap();
    assert_eq!(location.file, "t.yaml");
    assert!(lenient.value.resources.contains_key("Queue"));

    inputs
        .imports
        .insert("Shared".to_string(), "orders".to_string());
    let resolved = resolve_cfn_template(&file, &inputs).unwrap();
    assert!(resolved.resources.contains_key("Table"));

    let unread = SourceText {
        path: "t.yaml".to_string(),
        text: Err("gone".to_string()),
    };
    match resolve_cfn_template(&unread, &inputs) {
        Err(EngineError::CfnParse(CfnError::Io(e))) => assert_eq!(e, "gone"),
        Err(other) => panic!("got: {other:?}"),
        Ok(_) => panic!("expected an error"),
    }
}

#[test]
fn terraform_files_are_resolved_by_policy() {
    let lenient =
        resolve_tf_input_with_policy("d", &vec![main_tf()], &vec![], ParsePolicy::Lenient).unwrap();
    assert!(lenient.had_errors);
    assert_eq!(lenient.diagnostics.len(), 1);
    assert_eq!(lenient.value.resources.len(), 1);
    let strict =
        resolve_tf_input_with_policy("d", &vec![main_tf()], &vec![], ParsePolicy::Strict);
    assert!(matches!(strict, Err(EngineError::TfResolve(_))));
    let unread = SourceText {
        path: "d/b.tf".to_string(),
        text: Err("gone".to_string()),
    };
    match resolve_tf_input("d", &vec![main_tf(), unread], &vec![]) {
        Err(EngineError::TfParse { path, source }) => {
            assert_eq!(path, "d");
            assert_eq!(source, TfError::Io("gone".to_string()));
        }
        other => panic!("got: {other:?}"),
    }
}

#[test]
fn configuration_files_come_in_the_order_of_their_names() {
    let found = names(&["b.tf", "x.tfvars", "a.tf", "tf", "README.md", ".tf", "Z.tf", "c.TF"]);
    assert_eq!(tf_files("d", &found), vec!["d/Z.tf", "d/a.tf", "d/b.tf"]);
    assert_eq!(tf_files("", &names(&["main.tf"])), vec!["main.tf"]);
    assert!(tf_files("d", &names(&["main.json"])).is_empty());
}
