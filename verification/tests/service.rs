//! The catalog of services.

use std::sync::Arc;

use yevice::amount::per_million;
use yevice::amount::whole;
use yevice::arch::Architecture;
use yevice::arch::LogicalId;
use yevice::arch::Provider;
use yevice::arch::Region;
use yevice::arch::Resource;
use yevice::arch::ResourceShell;
use yevice::arch::ResourceType;
use yevice::cost::priced_over;
use yevice::cost::Expr;
use yevice::cost::ResourceCost;
use yevice::json::Json;
use yevice::pricing::catalog::CatalogHandle;
use yevice::pricing::catalog::PriceCatalog;
use yevice::pricing::catalog::Sku;
use yevice::pricing::error::PricingError;
use yevice::pricing::noop::NoopCatalog;
use yevice::service::api::Service;
use yevice::service::api::ServiceAdapter;
use yevice::service::api::ServiceHandle;
use yevice::service::api::SharedService;
use yevice::service::capacity::CapacityModel;
use yevice::service::capacity::QuotaProvider;
use yevice::service::capacity::Quotas;
use yevice::service::capacity::SharedQuotaProvider;
use yevice::service::catalog::ServiceCatalog;
use yevice::service::error::CostError;
use yevice::service::resolver::MultiProviderCatalog;
use yevice::service::resolver::PriceCatalogResolver;
use yevice::wrangler::plugin::register;
use yevice::wrangler::services::empty_object;
use yevice::wrangler::services::CloudflareUsageModel;
use yevice::wrangler::services::CloudflareWorkerService;
use yevice::wrangler::services::CloudflareWorkerSpec;
use yevice::yaml::Number;

/// A service whose resources are described by a text: a price key.
struct KeyService;

impl Service for KeyService {
    type Spec = String;

    fn id(&self) -> &'static str {
        "test.key"
    }

    fn provider(&self) -> Provider {
        Provider::Aws
    }

    fn decode(&self, spec: &Json) -> Result<String, String> {
        match spec {
            Json::String(s) => Ok(s.clone()),
            _ => Err("expected a string".to_string()),
        }
    }

    fn build_cost(
        &self,
        id: &LogicalId,
        resource_type: &ResourceType,
        spec: &String,
        pricing: &CatalogHandle,
    ) -> Result<ResourceCost, CostError> {
        if spec.is_empty() {
            pricing
                .lookup(&Sku::dynamic("none"))
                .map_err(CostError::Pricing)?;
        }
        Ok(ResourceCost {
            logical_id: LogicalId::new(id.as_str()),
            resource_type: ResourceType::new(resource_type.as_str()),
            label: spec.clone(),
            expr: Expr::constant(whole(1)),
            components: Vec::new(),
            required_variables: Vec::new(),
        })
    }

    fn build_capacity(
        &self,
        id: &LogicalId,
        spec: &String,
        quotas: &Quotas,
    ) -> Option<CapacityModel> {
        quotas.limits.get(spec).map(|n| CapacityModel {
            logical_id: LogicalId::new(id.as_str()),
            model: Json::Number(n.clone()),
        })
    }
}

fn catalog() -> ServiceCatalog {
    let mut catalog = ServiceCatalog::new();
    catalog.register(ServiceHandle::Shared(SharedService {
        service: Arc::new(ServiceAdapter(KeyService)),
    }));
    catalog
}

fn resource(id: &str, service_id: &str, provider: Provider, spec: Json) -> Resource {
    Resource {
        logical_id: LogicalId::new(id),
        resource_type: ResourceType::new("test_type"),
        shell: ResourceShell::new(service_id, provider, spec),
        group: None,
    }
}

fn keyed(id: &str, key: &str) -> Resource {
    resource(id, "test.key", Provider::Aws, Json::String(key.to_string()))
}

fn arch(resources: Vec<Resource>) -> Architecture {
    Architecture {
        name: "n".to_string(),
        region: Region::new("us-east-1"),
        resources,
        connections: Vec::new(),
    }
}

fn aws_prices() -> MultiProviderCatalog {
    MultiProviderCatalog::single(Provider::Aws, CatalogHandle::Noop(NoopCatalog))
}

fn labels(r: &Architecture, strict: bool) -> Result<Vec<String>, CostError> {
    catalog()
        .build_cost_model(r, &aws_prices(), strict)
        .map(|m| m.resources.into_iter().map(|c| c.label).collect())
}

#[test]
fn costs_come_in_the_order_of_the_resources() {
    let a = arch(vec![keyed("A", "x"), keyed("B", "y")]);
    assert_eq!(labels(&a, true).unwrap(), vec!["x", "y"]);
    let model = catalog()
        .build_cost_model(&a, &aws_prices(), true)
        .unwrap();
    assert_eq!(model.name, "n");
    assert_eq!(model.region.as_str(), "us-east-1");
    assert!(model.diagnostics.is_empty());
}

#[test]
fn unknown_service_is_skipped_or_an_error() {
    let a = arch(vec![
        keyed("A", "x"),
        resource("B", "test.unknown", Provider::Aws, Json::Null),
    ]);
    assert_eq!(labels(&a, false).unwrap(), vec!["x"]);
    let err = labels(&a, true).unwrap_err();
    assert_eq!(err, CostError::UnsupportedResource("test_type".to_string()));
    assert_eq!(err.message(), "unsupported resource: 'test_type'");
}

#[test]
fn missing_prices_are_skipped_or_an_error() {
    let a = arch(vec![resource(
        "A",
        "test.key",
        Provider::Gcp,
        Json::String("x".to_string()),
    )]);
    assert!(labels(&a, false).unwrap().is_empty());
    let err = labels(&a, true).unwrap_err();
    assert_eq!(err, CostError::NoPricingCatalog(Provider::Gcp));
    assert_eq!(err.message(), "no pricing catalog for provider Gcp");
}

#[test]
fn foreign_description_is_skipped_or_an_error() {
    let a = arch(vec![resource("A", "test.key", Provider::Aws, Json::Null)]);
    assert!(labels(&a, false).unwrap().is_empty());
    assert_eq!(
        labels(&a, true).unwrap_err().message(),
        "failed to deserialize spec for service 'test.key': expected a string"
    );
}

#[test]
fn missing_price_is_skipped_or_an_error() {
    let a = arch(vec![keyed("A", ""), keyed("B", "y")]);
    assert_eq!(labels(&a, false).unwrap(), vec!["y"]);
    assert!(matches!(
        labels(&a, true).unwrap_err(),
        CostError::Pricing(PricingError::NotFound { .. })
    ));
}

#[test]
fn resources_of_no_service_never_count() {
    let a = arch(vec![
        Resource {
            logical_id: LogicalId::new("A"),
            resource_type: ResourceType::new("t"),
            shell: ResourceShell::other("t"),
            group: None,
        },
        keyed("B", "y"),
    ]);
    assert_eq!(labels(&a, true).unwrap(), vec!["y"]);
}

/// Sets each of its keys to one value.
struct FixedQuotas {
    keys: Vec<&'static str>,
    value: u64,
}

impl QuotaProvider for FixedQuotas {
    fn default_quotas(&self, region: &str) -> Quotas {
        let mut q = Quotas::new();
        for key in &self.keys {
            q.limits
                .insert(format!("{region}.{key}"), Number::PosInt(self.value));
        }
        q
    }
}

#[test]
fn later_quotas_replace_earlier_ones() {
    let mut c = catalog();
    c.register_quota_provider(SharedQuotaProvider {
        provider: Arc::new(FixedQuotas {
            keys: vec!["a", "b"],
            value: 1,
        }),
    });
    c.register_quota_provider(SharedQuotaProvider {
        provider: Arc::new(FixedQuotas {
            keys: vec!["b"],
            value: 2,
        }),
    });
    let q = c.default_quotas("r");
    assert_eq!(q.limits.get("r.a"), Some(&Number::PosInt(1)));
    assert_eq!(q.limits.get("r.b"), Some(&Number::PosInt(2)));
    assert_eq!(q.limits.len(), 2);
}

#[test]
fn capacities_are_those_that_services_know() {
    let mut q = Quotas::new();
    q.limits.insert("x".to_string(), Number::PosInt(9));
    let a = arch(vec![
        keyed("A", "x"),
        keyed("B", "y"),
        resource("C", "test.key", Provider::Aws, Json::Null),
        resource("D", "test.unknown", Provider::Aws, Json::Null),
    ]);
    assert_eq!(
        catalog().build_capacity_models(&a, &q),
        vec![CapacityModel {
            logical_id: LogicalId::new("A"),
            model: Json::Number(Number::PosInt(9)),
        }]
    );
}

#[test]
fn registered_identifiers_come_in_order() {
    let mut c = catalog();
    register(&mut c);
    assert_eq!(
        c.registered_service_ids(),
        vec![
            "cloudflare.d1",
            "cloudflare.durable_object",
            "cloudflare.kv",
            "cloudflare.queue",
            "cloudflare.r2",
            "cloudflare.worker",
            "test.key",
        ]
    );
}

#[test]
fn catalogs_are_kept_by_provider() {
    let mut prices = MultiProviderCatalog::new();
    assert!(prices.resolve(Provider::Aws).is_none());
    prices.insert(Provider::Aws, CatalogHandle::Noop(NoopCatalog));
    let prices = prices.with(Provider::Cloudflare, CatalogHandle::Noop(NoopCatalog));
    assert!(prices.resolve(Provider::Aws).is_some());
    assert!(prices.resolve(Provider::Cloudflare).is_some());
    assert!(prices.resolve(Provider::Gcp).is_none());
}

#[test]
fn worker_descriptions_read_back() {
    for usage_model in [CloudflareUsageModel::Standard, CloudflareUsageModel::Bundled] {
        let spec = CloudflareWorkerSpec { usage_model };
        let read = CloudflareWorkerService.decode(&spec.to_json()).unwrap();
        assert_eq!(read, spec);
    }
    assert!(CloudflareWorkerService.decode(&Json::Null).is_err());
    assert_eq!(
        CloudflareWorkerService
            .decode(&empty_object())
            .unwrap()
            .usage_model,
        CloudflareUsageModel::Standard
    );
}

#[test]
fn bundled_worker_costs_its_requests() {
    let spec = CloudflareWorkerSpec {
        usage_model: CloudflareUsageModel::Bundled,
    };
    let cost = CloudflareWorkerService
        .build_cost(
            &LogicalId::new("w"),
            &ResourceType::new("cloudflare_worker"),
            &spec,
            &CatalogHandle::Noop(NoopCatalog),
        )
        .unwrap();
    assert_eq!(cost.label, "Workers (Bundled)");
    assert_eq!(cost.components.len(), 3);
    assert_eq!(cost.components[0].expr, Expr::constant(whole(5)));
    assert_eq!(
        cost.components[1].expr,
        priced_over(
            whole(10_000_000),
            per_million(50, 2),
            Expr::variable(cost.required_variables[0].name.clone()),
        )
    );
    match &cost.expr {
        Expr::Sum(terms) => assert_eq!(terms.len(), 3),
        other => panic!("expected a sum; got {other:?}"),
    }
}
