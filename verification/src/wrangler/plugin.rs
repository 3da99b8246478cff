//! What Cloudflare brings to the library.

use vstd::prelude::*;

use crate::arch::NodeView;
use crate::arch::Provider;
use crate::pricing::catalog::CatalogHandle;
use crate::pricing::noop::NoopCatalog;
use crate::service::api::AnyService;
use crate::service::api::ServiceAdapter;
use crate::service::api::ServiceHandle;
use crate::service::catalog::ServiceCatalog;
use crate::service::plugin::ProviderPlugin;
use crate::service::plugin::Registration;
use crate::service::resolver::PriceCatalogResolver;
use crate::wrangler::config::RawWranglerView;
use crate::wrangler::services::CloudflareD1Service;
use crate::wrangler::services::CloudflareDurableObjectService;
use crate::wrangler::services::CloudflareKvService;
use crate::wrangler::services::CloudflareQueueService;
use crate::wrangler::services::CloudflareR2Service;
use crate::wrangler::services::CloudflareService;
use crate::wrangler::services::CloudflareWorkerService;
use crate::wrangler::services::CloudflareWorkerSpec;

verus! {

/// The service of Cloudflare under an identifier.
pub open spec fn cloudflare_service(id: Seq<char>) -> Option<CloudflareService> {
    if id == "cloudflare.worker"@ {
        Some(CloudflareService::Worker(ServiceAdapter(CloudflareWorkerService)))
    } else if id == "cloudflare.kv"@ {
        Some(CloudflareService::Kv(ServiceAdapter(CloudflareKvService)))
    } else if id == "cloudflare.r2"@ {
        Some(CloudflareService::R2(ServiceAdapter(CloudflareR2Service)))
    } else if id == "cloudflare.d1"@ {
        Some(CloudflareService::D1(ServiceAdapter(CloudflareD1Service)))
    } else if id == "cloudflare.queue"@ {
        Some(CloudflareService::Queue(ServiceAdapter(CloudflareQueueService)))
    } else if id == "cloudflare.durable_object"@ {
        Some(CloudflareService::DurableObject(ServiceAdapter(CloudflareDurableObjectService)))
    } else {
        None
    }
}

/// None of Cloudflare's services is in the catalog.
pub open spec fn lacks_cloudflare(catalog: ServiceCatalog) -> bool {
    forall|id: Seq<char>|
        cloudflare_service(id) is Some ==> (#[trigger] catalog.registered(id)) is None
}

/// The catalog after Cloudflare's services were added.
pub open spec fn with_cloudflare(before: ServiceCatalog, after: ServiceCatalog) -> bool {
    &&& forall|id: Seq<char>|
        (#[trigger] after.registered(id)) == match cloudflare_service(id) {
            Some(s) => Some(ServiceHandle::Cloudflare(s)),
            None => before.registered(id),
        }
    &&& after.quota_providers == before.quota_providers
}

/// The identifiers of Cloudflare's services differ.
proof fn lemma_ids_differ()
    ensures
        "cloudflare.worker"@ != "cloudflare.kv"@,
        "cloudflare.worker"@ != "cloudflare.r2"@,
        "cloudflare.worker"@ != "cloudflare.d1"@,
        "cloudflare.worker"@ != "cloudflare.queue"@,
        "cloudflare.worker"@ != "cloudflare.durable_object"@,
        "cloudflare.kv"@ != "cloudflare.r2"@,
        "cloudflare.kv"@ != "cloudflare.d1"@,
        "cloudflare.kv"@ != "cloudflare.queue"@,
        "cloudflare.kv"@ != "cloudflare.durable_object"@,
        "cloudflare.r2"@ != "cloudflare.d1"@,
        "cloudflare.r2"@ != "cloudflare.queue"@,
        "cloudflare.r2"@ != "cloudflare.durable_object"@,
        "cloudflare.d1"@ != "cloudflare.queue"@,
        "cloudflare.d1"@ != "cloudflare.durable_object"@,
        "cloudflare.queue"@ != "cloudflare.durable_object"@,
{
    reveal_strlit("cloudflare.worker");
    reveal_strlit("cloudflare.kv");
    reveal_strlit("cloudflare.r2");
    reveal_strlit("cloudflare.d1");
    reveal_strlit("cloudflare.queue");
    reveal_strlit("cloudflare.durable_object");
    assert("cloudflare.worker"@[11] == 'w');
    assert("cloudflare.kv"@[11] == 'k');
    assert("cloudflare.r2"@[11] == 'r');
    assert("cloudflare.d1"@[11] == 'd' && "cloudflare.d1"@[12] == '1');
    assert("cloudflare.queue"@[11] == 'q');
    assert("cloudflare.durable_object"@[11] == 'd' && "cloudflare.durable_object"@[12] == 'u');
}

/// Adds a service of Cloudflare to the catalog.
fn add_service(catalog: &mut ServiceCatalog, service: CloudflareService)
    requires
        old(catalog).registered(service.name()) is None,
    ensures
        forall|id: Seq<char>|
            (#[trigger] final(catalog).registered(id)) == if id == service.name() {
                Some(ServiceHandle::Cloudflare(service))
            } else {
                old(catalog).registered(id)
            },
        final(catalog).quota_providers == old(catalog).quota_providers,
{
    let ghost before = catalog.services@;
    let handle = ServiceHandle::Cloudflare(service);
    proof {
        assert forall|id: Seq<char>|
            crate::strmap::lookup(
                #[trigger] crate::strmap::inserted(before, service.name(), handle),
                id,
            ) == (if id == service.name() {
                Some(handle)
            } else {
                crate::strmap::lookup(before, id)
            }) by {
            crate::strmap::lemma_lookup_inserted(before, service.name(), handle, id);
        }
    }
    catalog.register(handle);
}

/// Adds Cloudflare's services to the catalog.
pub fn register(catalog: &mut ServiceCatalog)
    requires
        lacks_cloudflare(*old(catalog)),
    ensures
        with_cloudflare(*old(catalog), *final(catalog)),
{
    proof {
        lemma_ids_differ();
        assert(cloudflare_service("cloudflare.worker"@) is Some);
        assert(cloudflare_service("cloudflare.kv"@) is Some);
        assert(cloudflare_service("cloudflare.r2"@) is Some);
        assert(cloudflare_service("cloudflare.d1"@) is Some);
        assert(cloudflare_service("cloudflare.queue"@) is Some);
        assert(cloudflare_service("cloudflare.durable_object"@) is Some);
    }
    add_service(catalog, CloudflareService::Worker(ServiceAdapter(CloudflareWorkerService)));
    add_service(catalog, CloudflareService::Kv(ServiceAdapter(CloudflareKvService)));
    add_service(catalog, CloudflareService::R2(ServiceAdapter(CloudflareR2Service)));
    add_service(catalog, CloudflareService::D1(ServiceAdapter(CloudflareD1Service)));
    add_service(catalog, CloudflareService::Queue(ServiceAdapter(CloudflareQueueService)));
    add_service(
        catalog,
        CloudflareService::DurableObject(ServiceAdapter(CloudflareDurableObjectService)),
    );
}

/// What Cloudflare brings: its services, whose prices are fixed.
#[derive(Debug, Clone, Copy, PartialEq, Eq)]
pub struct CloudflarePlugin;

impl ProviderPlugin for CloudflarePlugin {
    open spec fn brings(&self) -> Provider {
        Provider::Cloudflare
    }

    open spec fn admits(&self, reg: Registration) -> bool {
        lacks_cloudflare(reg.catalog)
    }

    open spec fn registers(&self, before: Registration, after: Registration) -> bool {
        &&& with_cloudflare(before.catalog, after.catalog)
        &&& after.cfn_adapters == before.cfn_adapters
        &&& after.tf_adapters == before.tf_adapters
    }

    open spec fn prices(&self, region: Seq<char>, list_price: bool) -> CatalogHandle {
        CatalogHandle::Noop(NoopCatalog)
    }

    fn provider(&self) -> (r: Provider) {
        Provider::Cloudflare
    }

    fn register(&self, reg: &mut Registration) {
        self::register(&mut reg.catalog);
    }

    fn pricing_catalog(&self, _region: &str, _list_price: bool) -> (r: CatalogHandle) {
        CatalogHandle::Noop(NoopCatalog)
    }
}

// ---------------------------------------------------------------------------
// Laws
// ---------------------------------------------------------------------------

/// The identifiers of Cloudflare's services are not that of unknown resources.
proof fn lemma_ids_are_known()
    ensures
        "cloudflare.worker"@ != "other"@,
        "cloudflare.kv"@ != "other"@,
        "cloudflare.r2"@ != "other"@,
        "cloudflare.d1"@ != "other"@,
        "cloudflare.queue"@ != "other"@,
        "cloudflare.durable_object"@ != "other"@,
{
    reveal_strlit("cloudflare.worker");
    reveal_strlit("cloudflare.kv");
    reveal_strlit("cloudflare.r2");
    reveal_strlit("cloudflare.d1");
    reveal_strlit("cloudflare.queue");
    reveal_strlit("cloudflare.durable_object");
    reveal_strlit("other");
    assert("other"@[0] == 'o');
    assert("cloudflare.worker"@[0] == 'c');
    assert("cloudflare.kv"@[0] == 'c');
    assert("cloudflare.r2"@[0] == 'c');
    assert("cloudflare.d1"@[0] == 'c');
    assert("cloudflare.queue"@[0] == 'c');
    assert("cloudflare.durable_object"@[0] == 'c');
}

/// The resource has a cost when Cloudflare's services are in the catalog.
spec fn is_priceable(node: NodeView) -> bool {
    &&& node.shell.provider == Provider::Cloudflare
    &&& node.shell.service_id != "other"@
    &&& match cloudflare_service(node.shell.service_id) {
        Some(CloudflareService::Worker(_)) => crate::wrangler::services::worker_of(
            node.shell.spec,
        ) is Ok,
        Some(_) => crate::wrangler::services::describes_nothing(node.shell.spec),
        None => false,
    }
}

/// A resource has a cost when Cloudflare's services are in the catalog.
proof fn lemma_priceable<P: PriceCatalogResolver>(
    catalog: ServiceCatalog,
    pricing: P,
    node: NodeView,
)
    requires
        is_priceable(node),
        pricing.catalog_for(Provider::Cloudflare) is Some,
        forall|id: Seq<char>|
            cloudflare_service(id) is Some ==> (#[trigger] catalog.registered(id)) == Some(
                ServiceHandle::Cloudflare(cloudflare_service(id)->Some_0),
            ),
    ensures
        crate::service::catalog::resource_outcome(catalog, pricing, node) matches Some(Ok(_)),
{
    let id = node.shell.service_id;
    assert(catalog.registered(id) == Some(
        ServiceHandle::Cloudflare(cloudflare_service(id)->Some_0),
    ));
}

/// Where each resource has a cost, there are as many costs as resources.
proof fn lemma_all_priced<P: PriceCatalogResolver>(
    catalog: ServiceCatalog,
    pricing: P,
    nodes: Seq<NodeView>,
    strict: bool,
)
    requires
        forall|i: int|
            0 <= i < nodes.len() ==> (crate::service::catalog::resource_outcome(
                catalog,
                pricing,
                #[trigger] nodes[i],
            ) matches Some(Ok(_))),
    ensures
        crate::service::catalog::costs_of(catalog, pricing, nodes, strict) matches Ok(costs)
            && costs.len() == nodes.len(),
    decreases nodes.len(),
{
    if nodes.len() > 0 {
        let rest = nodes.drop_last();
        assert forall|i: int| 0 <= i < rest.len() implies (
        crate::service::catalog::resource_outcome(
            catalog,
            pricing,
            #[trigger] rest[i],
        ) matches Some(Ok(_))) by {
            assert(rest[i] == nodes[i]);
        }
        lemma_all_priced(catalog, pricing, rest, strict);
        assert(nodes.last() == nodes[nodes.len() - 1]);
    }
}

/// With Cloudflare's services in the catalog and some prices for Cloudflare,
/// each resource of a Wrangler configuration has a cost, strict or not.
pub proof fn law_each_resource_has_a_cost<P: PriceCatalogResolver>(
    catalog: ServiceCatalog,
    pricing: P,
    raw: RawWranglerView,
    default_name: Seq<char>,
    strict: bool,
)
    requires
        pricing.catalog_for(Provider::Cloudflare) is Some,
        forall|id: Seq<char>|
            cloudflare_service(id) is Some ==> (#[trigger] catalog.registered(id)) == Some(
                ServiceHandle::Cloudflare(cloudflare_service(id)->Some_0),
            ),
    ensures
        ({
            let arch = crate::wrangler::parser::wrangler_architecture(raw, default_name);
            crate::service::catalog::cost_model_of(catalog, pricing, arch, strict) matches Ok(m)
                && m.resources.len() == arch.resources.len()
        }),
{
    lemma_ids_differ();
    lemma_ids_are_known();
    let arch = crate::wrangler::parser::wrangler_architecture(raw, default_name);
    let nodes = arch.resources;
    let spec = CloudflareWorkerSpec { usage_model: crate::wrangler::parser::usage_model(raw) };
    crate::wrangler::services::law_worker_json_reads_back(spec);
    assert forall|i: int| 0 <= i < nodes.len() implies (
    crate::service::catalog::resource_outcome(
        catalog,
        pricing,
        #[trigger] nodes[i],
    ) matches Some(Ok(_))) by {
        let node = nodes[i];
        assert(node == crate::wrangler::parser::worker_node(raw, arch.name) || ((
        node.shell.service_id == "cloudflare.kv"@ || node.shell.service_id == "cloudflare.r2"@
            || node.shell.service_id == "cloudflare.d1"@ || node.shell.service_id
            == "cloudflare.queue"@ || node.shell.service_id == "cloudflare.durable_object"@)
            && node.shell.spec == crate::wrangler::services::empty_json() && node.shell.provider
            == Provider::Cloudflare));
        lemma_priceable(catalog, pricing, node);
    }
    lemma_all_priced(catalog, pricing, nodes, strict);
}

} // verus!
