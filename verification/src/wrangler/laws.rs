//! What holds of the architectures that Wrangler configurations describe.

use vstd::prelude::*;

use crate::arch::ArchitectureView;
use crate::arch::ConnectionType;
use crate::arch::ConnectionView;
use crate::arch::NodeView;
use crate::arch::Provider;
use crate::service::api::Service;
use crate::service::api::ServiceHandle;
use crate::service::catalog::ServiceCatalog;
use crate::service::resolver::PriceCatalogResolver;
use crate::strmap::lookup;
use crate::wrangler::config::FromToml;
use crate::wrangler::config::RawWrangler;
use crate::wrangler::config::RawWranglerView;
use crate::wrangler::document::NodeView as TomlNode;
use crate::wrangler::document::TomlView;
use crate::wrangler::parser::wrangler_architecture;
use crate::wrangler::services::CloudflareD1Service;
use crate::wrangler::services::CloudflareD1Spec;
use crate::wrangler::services::CloudflareDurableObjectService;
use crate::wrangler::services::CloudflareDurableObjectSpec;
use crate::wrangler::services::CloudflareKvService;
use crate::wrangler::services::CloudflareKvSpec;
use crate::wrangler::services::CloudflareQueueService;
use crate::wrangler::services::CloudflareQueueSpec;
use crate::wrangler::services::CloudflareR2Service;
use crate::wrangler::services::CloudflareR2Spec;
use crate::wrangler::services::CloudflareUsageModel;
use crate::wrangler::services::CloudflareWorkerService;
use crate::wrangler::services::CloudflareWorkerSpec;

verus! {

// ---------------------------------------------------------------------------
// Resources
// ---------------------------------------------------------------------------

/// The architecture has a resource of Cloudflare with an identifier, of a type and
/// of a service.
pub open spec fn has_resource(
    a: ArchitectureView,
    id: Seq<char>,
    resource_type: Seq<char>,
    service: Seq<char>,
) -> bool {
    exists|i: int|
        0 <= i < a.resources.len() && (#[trigger] a.resources[i]).logical_id == id
            && a.resources[i].resource_type == resource_type && a.resources[i].shell.service_id
            == service && a.resources[i].shell.provider == Provider::Cloudflare
            && a.resources[i].group is None
}

/// Some connection leads from `source` to `target` and is of the given kind.
pub open spec fn connects(
    a: ArchitectureView,
    source: Seq<char>,
    target: Seq<char>,
    kind: ConnectionType,
) -> bool {
    exists|i: int|
        0 <= i < a.connections.len() && (#[trigger] a.connections[i]).source == source
            && a.connections[i].target == target && a.connections[i].connection_type == kind
}

/// The name of the worker: its own, or the default.
pub open spec fn named(raw: RawWranglerView, default_name: Seq<char>) -> Seq<char> {
    if raw.name is Some {
        raw.name->Some_0
    } else {
        default_name
    }
}

/// The text with each hyphen made an underscore.
pub open spec fn is_underscored(s: Seq<char>, t: Seq<char>) -> bool {
    s.len() == t.len() && forall|i: int|
        0 <= i < s.len() ==> #[trigger] t[i] == (if s[i] == '-' {
            '_'
        } else {
            s[i]
        })
}

/// The lengths of the lists that the resources are made of.
spec fn starts(raw: RawWranglerView, w: Seq<char>) -> (int, int, int, int, int) {
    let a = 1 + raw.kv_namespaces.len();
    let b = a + raw.r2_buckets.len();
    let c = b + raw.d1_databases.len();
    let d = c + crate::wrangler::parser::queue_names(raw).len();
    (1, a as int, b as int, c as int, d as int)
}

/// Each namespace, bucket and database that is bound is a resource of its type and
/// service into which data flows from the worker. Its identifier is that of the
/// worker, the kind, and the lower case of its binding, for a bucket of its name
/// where it has one.
pub proof fn law_bindings_are_resources(
    raw: RawWranglerView,
    default_name: Seq<char>,
    k: int,
    r: int,
    d: int,
)
    ensures
        ({
            let a = wrangler_architecture(raw, default_name);
            let w = named(raw, default_name);
            &&& 0 <= k < raw.kv_namespaces.len() ==> ({
                let id = w + "_kv_"@ + crate::text::lowercase(raw.kv_namespaces[k].binding);
                has_resource(a, id, "cloudflare_workers_kv_namespace"@, "cloudflare.kv"@)
                    && connects(a, w, id, ConnectionType::DataFlow)
            })
            &&& 0 <= r < raw.r2_buckets.len() ==> ({
                let bucket = match raw.r2_buckets[r].bucket_name {
                    Some(n) => n,
                    None => raw.r2_buckets[r].binding,
                };
                let id = w + "_r2_"@ + crate::text::lowercase(bucket);
                has_resource(a, id, "cloudflare_r2_bucket"@, "cloudflare.r2"@) && connects(
                    a,
                    w,
                    id,
                    ConnectionType::DataFlow,
                )
            })
            &&& 0 <= d < raw.d1_databases.len() ==> ({
                let id = w + "_d1_"@ + crate::text::lowercase(raw.d1_databases[d].binding);
                has_resource(a, id, "cloudflare_d1_database"@, "cloudflare.d1"@) && connects(
                    a,
                    w,
                    id,
                    ConnectionType::DataFlow,
                )
            })
        }),
{
    let a = wrangler_architecture(raw, default_name);
    let w = named(raw, default_name);
    let kv = crate::wrangler::parser::kv_ids(raw, w);
    let r2 = crate::wrangler::parser::r2_ids(raw, w);
    let d1 = crate::wrangler::parser::d1_ids(raw, w);
    let (s1, s2, s3, s4, s5) = starts(raw, w);
    if 0 <= k < kv.len() {
        let n = a.resources[s1 + k];
        assert(n.logical_id == kv[k]);
        let c = a.connections[k];
        assert(c.target == kv[k]);
    }
    if 0 <= r < r2.len() {
        let n = a.resources[s2 + r];
        assert(n.logical_id == r2[r]);
        let c = a.connections[kv.len() + r];
        assert(c.target == r2[r]);
    }
    if 0 <= d < d1.len() {
        let n = a.resources[s3 + d];
        assert(n.logical_id == d1[d]);
        let c = a.connections[kv.len() + r2.len() + d];
        assert(c.target == d1[d]);
    }
}

proof fn lemma_queue_node(raw: RawWranglerView, default_name: Seq<char>, q: Seq<char>)
    requires
        (crate::wrangler::parser::produced(raw) + crate::wrangler::parser::consumed(raw)).contains(
            q,
        ),
    ensures
        has_resource(
            wrangler_architecture(raw, default_name),
            crate::wrangler::parser::queue_id(named(raw, default_name), q),
            "cloudflare_queue"@,
            "cloudflare.queue"@,
        ),
{
    let a = wrangler_architecture(raw, default_name);
    let w = named(raw, default_name);
    let all = crate::wrangler::parser::produced(raw) + crate::wrangler::parser::consumed(raw);
    crate::wrangler::parser::law_distinct(all);
    let names = crate::wrangler::parser::queue_names(raw);
    assert(names.contains(q));
    let i = choose|i: int| 0 <= i < names.len() && names[i] == q;
    let (s1, s2, s3, s4, s5) = starts(raw, w);
    let n = a.resources[s4 + i];
    assert(n.logical_id == crate::wrangler::parser::queue_id(w, q));
}

/// Each queue that is bound is a resource, under the lower case of its name with
/// underscores for hyphens. Data flows into those that the worker writes to, and
/// those that it reads from are its event sources.
pub proof fn law_queues_are_resources(
    raw: RawWranglerView,
    default_name: Seq<char>,
    queues: crate::wrangler::config::QueuesView,
    p: int,
    c: int,
    id: Seq<char>,
)
    requires
        raw.queues == Some(queues),
    ensures
        ({
            let a = wrangler_architecture(raw, default_name);
            let w = named(raw, default_name);
            &&& 0 <= p < queues.producers.len() && is_underscored(
                crate::text::lowercase(queues.producers[p].queue),
                id,
            ) ==> has_resource(
                a,
                w + "_queue_"@ + id,
                "cloudflare_queue"@,
                "cloudflare.queue"@,
            ) && connects(a, w, w + "_queue_"@ + id, ConnectionType::DataFlow)
            &&& 0 <= c < queues.consumers.len() && is_underscored(
                crate::text::lowercase(queues.consumers[c]),
                id,
            ) ==> has_resource(
                a,
                w + "_queue_"@ + id,
                "cloudflare_queue"@,
                "cloudflare.queue"@,
            ) && connects(a, w + "_queue_"@ + id, w, ConnectionType::EventSource)
        }),
{
    let a = wrangler_architecture(raw, default_name);
    let w = named(raw, default_name);
    let produced = crate::wrangler::parser::produced(raw);
    let consumed = crate::wrangler::parser::consumed(raw);
    let all = produced + consumed;
    let n1 = raw.kv_namespaces.len() as int;
    let n2 = n1 + raw.r2_buckets.len();
    let n3 = n2 + raw.d1_databases.len();
    if 0 <= p < queues.producers.len() && is_underscored(
        crate::text::lowercase(queues.producers[p].queue),
        id,
    ) {
        let q = queues.producers[p].queue;
        assert(produced[p] == q);
        assert(all[p] == q);
        assert(crate::wrangler::parser::underscored(crate::text::lowercase(q)) =~= id);
        lemma_queue_node(raw, default_name, q);
        let e = a.connections[n3 + p];
        assert(e.target == crate::wrangler::parser::queue_id(w, q));
    }
    if 0 <= c < queues.consumers.len() && is_underscored(
        crate::text::lowercase(queues.consumers[c]),
        id,
    ) {
        let q = queues.consumers[c];
        assert(all[produced.len() + c] == q);
        assert(crate::wrangler::parser::underscored(crate::text::lowercase(q)) =~= id);
        lemma_queue_node(raw, default_name, q);
        let e = a.connections[n3 + produced.len() + c];
        assert(e.source == crate::wrangler::parser::queue_id(w, q));
    }
}

/// Each class of durable objects that is bound is a resource, under the lower case
/// of its name, into which data flows from the worker.
pub proof fn law_durable_objects_are_resources(
    raw: RawWranglerView,
    default_name: Seq<char>,
    bindings: Seq<crate::wrangler::config::DoView>,
    i: int,
)
    requires
        raw.durable_objects == Some(bindings),
        0 <= i < bindings.len(),
    ensures
        ({
            let a = wrangler_architecture(raw, default_name);
            let w = named(raw, default_name);
            let id = w + "_do_"@ + crate::text::lowercase(bindings[i].class_name);
            has_resource(a, id, "cloudflare_durable_object"@, "cloudflare.durable_object"@)
                && connects(a, w, id, ConnectionType::DataFlow)
        }),
{
    let a = wrangler_architecture(raw, default_name);
    let w = named(raw, default_name);
    let all = bindings.map_values(|b: crate::wrangler::config::DoView| b.class_name);
    crate::wrangler::parser::law_distinct(all);
    let class = bindings[i].class_name;
    assert(all[i] == class);
    let names = crate::wrangler::parser::class_names(raw);
    assert(names.contains(class));
    let k = choose|k: int| 0 <= k < names.len() && names[k] == class;
    let (s1, s2, s3, s4, s5) = starts(raw, w);
    let n = a.resources[s5 + k];
    assert(n.logical_id == crate::wrangler::parser::do_id(w, class));
    let m = raw.kv_namespaces.len() + raw.r2_buckets.len() + raw.d1_databases.len()
        + crate::wrangler::parser::produced(raw).len()
        + crate::wrangler::parser::consumed(raw).len();
    let c = a.connections[m + k];
    assert(c.target == crate::wrangler::parser::do_id(w, class));
}

/// The worker comes first, under its own name or the default, charged as bundled
/// where the configuration says so and as standard otherwise. There is one
/// resource for each namespace, bucket and database, and one for each queue and
/// class that differ; the region is global.
pub proof fn law_worker_and_count(raw: RawWranglerView, default_name: Seq<char>)
    ensures
        ({
            let a = wrangler_architecture(raw, default_name);
            let w = named(raw, default_name);
            &&& a.name == w
            &&& a.region == "global"@
            &&& a.resources[0].logical_id == w
            &&& a.resources[0].resource_type == "cloudflare_worker"@
            &&& a.resources[0].shell.service_id == "cloudflare.worker"@
            &&& crate::wrangler::services::worker_of(a.resources[0].shell.spec) == Ok::<
                CloudflareWorkerSpec,
                Seq<char>,
            >(
                CloudflareWorkerSpec {
                    usage_model: if raw.usage_model == Some("bundled"@) {
                        CloudflareUsageModel::Bundled
                    } else {
                        CloudflareUsageModel::Standard
                    },
                },
            )
            &&& raw.queues is None && raw.durable_objects is None ==> a.resources.len() == 1
                + raw.kv_namespaces.len() + raw.r2_buckets.len() + raw.d1_databases.len()
                && a.connections.len() == raw.kv_namespaces.len() + raw.r2_buckets.len()
                + raw.d1_databases.len()
        }),
{
    let spec = CloudflareWorkerSpec { usage_model: crate::wrangler::parser::usage_model(raw) };
    crate::wrangler::services::law_worker_json_reads_back(spec);
}

/// Every connection is a flow of data from the worker, or an event source from a
/// queue that the worker reads from.
pub proof fn law_connection_kinds(raw: RawWranglerView, default_name: Seq<char>, i: int)
    requires
        0 <= i < wrangler_architecture(raw, default_name).connections.len(),
    ensures
        ({
            let a = wrangler_architecture(raw, default_name);
            let w = named(raw, default_name);
            let c = a.connections[i];
            ||| c.connection_type == ConnectionType::DataFlow && c.source == w
            ||| c.connection_type == ConnectionType::EventSource && c.target == w && raw.queues
                is Some && raw.queues->Some_0.consumers.len() > 0
        }),
{
    let n1 = raw.kv_namespaces.len() as int;
    let n2 = n1 + raw.r2_buckets.len();
    let n3 = n2 + raw.d1_databases.len();
    let n4 = n3 + crate::wrangler::parser::produced(raw).len();
    let n5 = n4 + crate::wrangler::parser::consumed(raw).len();
    let c = wrangler_architecture(raw, default_name).connections[i];
}

// ---------------------------------------------------------------------------
// Costs
// ---------------------------------------------------------------------------

/// The cost of a resource is that of its service.
pub open spec fn is_service_cost(
    node: NodeView,
    cost: crate::cost::ResourceCostView,
    raw: RawWranglerView,
    prices: crate::pricing::catalog::CatalogHandle,
) -> bool {
    let id = node.logical_id;
    let t = node.resource_type;
    let s = node.shell.service_id;
    ||| s == "cloudflare.worker"@ && CloudflareWorkerService.cost(
        id,
        t,
        CloudflareWorkerSpec {
            usage_model: if raw.usage_model == Some("bundled"@) {
                CloudflareUsageModel::Bundled
            } else {
                CloudflareUsageModel::Standard
            },
        },
        prices,
    ) == Ok::<crate::cost::ResourceCostView, crate::service::error::CostErrorView>(cost)
    ||| s == "cloudflare.kv"@ && CloudflareKvService.cost(id, t, CloudflareKvSpec {  }, prices)
        == Ok::<crate::cost::ResourceCostView, crate::service::error::CostErrorView>(cost)
    ||| s == "cloudflare.r2"@ && CloudflareR2Service.cost(id, t, CloudflareR2Spec {  }, prices)
        == Ok::<crate::cost::ResourceCostView, crate::service::error::CostErrorView>(cost)
    ||| s == "cloudflare.d1"@ && CloudflareD1Service.cost(id, t, CloudflareD1Spec {  }, prices)
        == Ok::<crate::cost::ResourceCostView, crate::service::error::CostErrorView>(cost)
    ||| s == "cloudflare.queue"@ && CloudflareQueueService.cost(
        id,
        t,
        CloudflareQueueSpec {  },
        prices,
    ) == Ok::<crate::cost::ResourceCostView, crate::service::error::CostErrorView>(cost)
    ||| s == "cloudflare.durable_object"@ && CloudflareDurableObjectService.cost(
        id,
        t,
        CloudflareDurableObjectSpec {  },
        prices,
    ) == Ok::<crate::cost::ResourceCostView, crate::service::error::CostErrorView>(cost)
}

proof fn lemma_costs<P: PriceCatalogResolver>(
    catalog: ServiceCatalog,
    pricing: P,
    nodes: Seq<NodeView>,
    strict: bool,
    raw: RawWranglerView,
)
    requires
        pricing.catalog_for(Provider::Cloudflare) is Some,
        forall|i: int|
            0 <= i < nodes.len() ==> (crate::service::catalog::resource_outcome(
                catalog,
                pricing,
                #[trigger] nodes[i],
            ) matches Some(Ok(cost)) && is_service_cost(
                nodes[i],
                cost,
                raw,
                pricing.catalog_for(Provider::Cloudflare)->Some_0,
            )),
    ensures
        crate::service::catalog::costs_of(catalog, pricing, nodes, strict) matches Ok(costs)
            && costs.len() == nodes.len() && (forall|i: int|
            0 <= i < nodes.len() ==> is_service_cost(
                #[trigger] nodes[i],
                costs[i],
                raw,
                pricing.catalog_for(Provider::Cloudflare)->Some_0,
            )),
    decreases nodes.len(),
{
    if nodes.len() > 0 {
        let t = nodes.drop_last();
        let prices = pricing.catalog_for(Provider::Cloudflare)->Some_0;
        assert forall|i: int| 0 <= i < t.len() implies (crate::service::catalog::resource_outcome(
            catalog,
            pricing,
            #[trigger] t[i],
        ) matches Some(Ok(cost)) && is_service_cost(t[i], cost, raw, prices)) by {
            assert(t[i] == nodes[i]);
        }
        lemma_costs(catalog, pricing, t, strict, raw);
        let n = nodes.len() - 1;
        assert(nodes[n] == nodes.last());
        let before = crate::service::catalog::costs_of(catalog, pricing, t, strict)->Ok_0;
        let costs = crate::service::catalog::costs_of(catalog, pricing, nodes, strict)->Ok_0;
        assert forall|i: int| 0 <= i < nodes.len() implies is_service_cost(
            #[trigger] nodes[i],
            costs[i],
            raw,
            prices,
        ) by {
            if i < n {
                assert(t[i] == nodes[i]);
                assert(costs[i] == before[i]);
            }
        }
    }
}

/// The cost model of a Wrangler configuration has one cost for each resource, in
/// order: that of the service by which the resource is run.
pub proof fn law_resources_cost_what_their_services_say<P: PriceCatalogResolver>(
    catalog: ServiceCatalog,
    pricing: P,
    raw: RawWranglerView,
    default_name: Seq<char>,
    strict: bool,
    i: int,
)
    requires
        pricing.catalog_for(Provider::Cloudflare) is Some,
        forall|id: Seq<char>|
            crate::wrangler::plugin::cloudflare_service(id) is Some ==> (
            #[trigger] catalog.registered(id)) == Some(
                ServiceHandle::Cloudflare(
                    crate::wrangler::plugin::cloudflare_service(id)->Some_0,
                ),
            ),
        0 <= i < wrangler_architecture(raw, default_name).resources.len(),
    ensures
        ({
            let a = wrangler_architecture(raw, default_name);
            crate::service::catalog::cost_model_of(catalog, pricing, a, strict) matches Ok(m)
                && m.name == a.name && m.region == a.region && m.resources.len()
                == a.resources.len() && is_service_cost(
                a.resources[i],
                m.resources[i],
                raw,
                pricing.catalog_for(Provider::Cloudflare)->Some_0,
            )
        }),
{
    reveal_strlit("cloudflare.worker");
    reveal_strlit("cloudflare.kv");
    reveal_strlit("cloudflare.r2");
    reveal_strlit("cloudflare.d1");
    reveal_strlit("cloudflare.queue");
    reveal_strlit("cloudflare.durable_object");
    reveal_strlit("other");
    assert("cloudflare.worker"@.len() == 17);
    assert("cloudflare.kv"@.len() == 13);
    assert("cloudflare.r2"@.len() == 13);
    assert("cloudflare.d1"@.len() == 13);
    assert("cloudflare.queue"@.len() == 16);
    assert("cloudflare.durable_object"@.len() == 25);
    assert("other"@.len() == 5);
    assert("cloudflare.kv"@[11] != "cloudflare.r2"@[11]);
    assert("cloudflare.kv"@[11] != "cloudflare.d1"@[11]);
    assert("cloudflare.r2"@[11] != "cloudflare.d1"@[11]);
    let a = wrangler_architecture(raw, default_name);
    let nodes = a.resources;
    let spec = CloudflareWorkerSpec { usage_model: crate::wrangler::parser::usage_model(raw) };
    crate::wrangler::services::law_worker_json_reads_back(spec);
    let prices = pricing.catalog_for(Provider::Cloudflare)->Some_0;
    assert forall|j: int| 0 <= j < nodes.len() implies (crate::service::catalog::resource_outcome(
        catalog,
        pricing,
        #[trigger] nodes[j],
    ) matches Some(Ok(cost)) && is_service_cost(nodes[j], cost, raw, prices)) by {
        let node = nodes[j];
        assert(node == crate::wrangler::parser::worker_node(raw, a.name) || ((
        node.shell.service_id == "cloudflare.kv"@ || node.shell.service_id == "cloudflare.r2"@
            || node.shell.service_id == "cloudflare.d1"@ || node.shell.service_id
            == "cloudflare.queue"@ || node.shell.service_id == "cloudflare.durable_object"@)
            && node.shell.spec == crate::wrangler::services::empty_json() && node.shell.provider
            == Provider::Cloudflare));
        let id = node.shell.service_id;
        assert(catalog.registered(id) == Some(
            ServiceHandle::Cloudflare(crate::wrangler::plugin::cloudflare_service(id)->Some_0),
        ));
    }
    lemma_costs(catalog, pricing, nodes, strict, raw);
}

// ---------------------------------------------------------------------------
// Reading
// ---------------------------------------------------------------------------

proof fn lemma_read_items<T: FromToml>(s: Seq<TomlNode>, i: int)
    requires
        0 <= i < s.len(),
        crate::wrangler::config::read_items::<T>(s) is Ok,
    ensures
        crate::wrangler::config::read_items::<T>(s)->Ok_0.len() == s.len(),
        T::read(s[i]) == Ok::<T::V, crate::wrangler::config::FaultView>(
            crate::wrangler::config::read_items::<T>(s)->Ok_0[i],
        ),
    decreases s.len(),
{
    let t = s.drop_last();
    let rest = crate::wrangler::config::read_items::<T>(t);
    if t.len() > 0 {
        lemma_read_items::<T>(
            t,
            if i < t.len() {
                i
            } else {
                0
            },
        );
    } else {
        assert(rest->Ok_0.len() == 0);
    }
    if i < t.len() {
        assert(t[i] == s[i]);
    }
}

proof fn lemma_key_fault<E: crate::wrangler::config::Entries>(
    e: E,
    m: Seq<(Seq<char>, TomlNode)>,
    i: int,
)
    requires
        crate::wrangler::config::entries_fault(e, m) is None,
        0 <= i < m.len(),
    ensures
        e.fault(m[i].0, m[i].1) is None,
    decreases m.len(),
{
    if i < m.len() - 1 {
        assert(m.drop_last()[i] == m[i]);
        lemma_key_fault(e, m.drop_last(), i);
    }
}

proof fn lemma_no_fault<E: crate::wrangler::config::Entries>(
    e: E,
    m: Seq<(Seq<char>, TomlNode)>,
    key: Seq<char>,
)
    requires
        crate::wrangler::config::entries_fault(e, m) is None,
        lookup(m, key) is Some,
    ensures
        e.fault(key, lookup(m, key)->Some_0) is None,
{
    crate::strmap::lemma_lookup(m, key);
    let i = choose|i: int|
        0 <= i < m.len() && (#[trigger] m[i]).0 == key && m[i].1 == lookup(m, key)->Some_0;
    lemma_key_fault(e, m, i);
}

/// A configuration that is read has the name and the usage model that stand under
/// their keys, and as many namespaces, buckets and databases as are listed, none
/// where nothing is listed.
pub proof fn law_configurations_are_read(n: TomlNode, m: Seq<(Seq<char>, TomlNode)>)
    requires
        n.1 == TomlView::Table(m),
        RawWrangler::read(n) is Ok,
    ensures
        ({
            let raw = RawWrangler::read(n)->Ok_0;
            &&& match lookup(m, "name"@) {
                Some(x) => raw.name is Some && x.1 == TomlView::Text(raw.name->Some_0),
                None => raw.name is None,
            }
            &&& match lookup(m, "usage_model"@) {
                Some(x) => raw.usage_model is Some && x.1 == TomlView::Text(
                    raw.usage_model->Some_0,
                ),
                None => raw.usage_model is None,
            }
            &&& match lookup(m, "kv_namespaces"@) {
                Some(x) => x.1 matches TomlView::List(s) && raw.kv_namespaces.len() == s.len() && (
                forall|i: int|
                    0 <= i < s.len() ==> crate::wrangler::config::RawKvNamespace::read(
                        #[trigger] s[i],
                    ) == Ok::<
                        crate::wrangler::config::KvView,
                        crate::wrangler::config::FaultView,
                    >(raw.kv_namespaces[i])),
                None => raw.kv_namespaces.len() == 0,
            }
            &&& match lookup(m, "r2_buckets"@) {
                Some(x) => x.1 matches TomlView::List(s) && raw.r2_buckets.len() == s.len() && (
                forall|i: int|
                    0 <= i < s.len() ==> crate::wrangler::config::RawR2Bucket::read(
                        #[trigger] s[i],
                    ) == Ok::<
                        crate::wrangler::config::R2View,
                        crate::wrangler::config::FaultView,
                    >(raw.r2_buckets[i])),
                None => raw.r2_buckets.len() == 0,
            }
            &&& match lookup(m, "d1_databases"@) {
                Some(x) => x.1 matches TomlView::List(s) && raw.d1_databases.len() == s.len() && (
                forall|i: int|
                    0 <= i < s.len() ==> crate::wrangler::config::RawD1Database::read(
                        #[trigger] s[i],
                    ) == Ok::<
                        crate::wrangler::config::D1View,
                        crate::wrangler::config::FaultView,
                    >(raw.d1_databases[i])),
                None => raw.d1_databases.len() == 0,
            }
            &&& match lookup(m, "queues"@) {
                Some(x) => raw.queues is Some && crate::wrangler::config::RawQueues::read(x) == Ok::<
                    crate::wrangler::config::QueuesView,
                    crate::wrangler::config::FaultView,
                >(raw.queues->Some_0),
                None => raw.queues is None,
            }
            &&& match lookup(m, "durable_objects"@) {
                Some(x) => raw.durable_objects is Some
                    && crate::wrangler::config::RawDurableObjects::read(x) == Ok::<
                    Seq<crate::wrangler::config::DoView>,
                    crate::wrangler::config::FaultView,
                >(raw.durable_objects->Some_0),
                None => raw.durable_objects is None,
            }
        }),
{
    reveal_strlit("name");
    reveal_strlit("usage_model");
    reveal_strlit("kv_namespaces");
    reveal_strlit("r2_buckets");
    reveal_strlit("d1_databases");
    reveal_strlit("queues");
    reveal_strlit("durable_objects");
    assert("name"@.len() == 4);
    assert("usage_model"@.len() == 11);
    assert("kv_namespaces"@.len() == 13);
    assert("r2_buckets"@.len() == 10);
    assert("d1_databases"@.len() == 12);
    assert("queues"@.len() == 6);
    assert("durable_objects"@.len() == 15);
    let e = crate::wrangler::config::WranglerFields;
    if lookup(m, "name"@) is Some {
        lemma_no_fault(e, m, "name"@);
    }
    if lookup(m, "usage_model"@) is Some {
        lemma_no_fault(e, m, "usage_model"@);
    }
    if lookup(m, "queues"@) is Some {
        lemma_no_fault(e, m, "queues"@);
    }
    if lookup(m, "durable_objects"@) is Some {
        lemma_no_fault(e, m, "durable_objects"@);
    }
    if let Some(x) = lookup(m, "kv_namespaces"@) {
        lemma_no_fault(e, m, "kv_namespaces"@);
        let s = x.1->List_0;
        assert forall|i: int| 0 <= i < s.len() implies crate::wrangler::config::RawKvNamespace::read(
            #[trigger] s[i],
        ) == Ok::<crate::wrangler::config::KvView, crate::wrangler::config::FaultView>(
            RawWrangler::read(n)->Ok_0.kv_namespaces[i],
        ) by {
            lemma_read_items::<crate::wrangler::config::RawKvNamespace>(s, i);
        }
        if s.len() > 0 {
            lemma_read_items::<crate::wrangler::config::RawKvNamespace>(s, 0);
        }
    }
    if let Some(x) = lookup(m, "r2_buckets"@) {
        lemma_no_fault(e, m, "r2_buckets"@);
        let s = x.1->List_0;
        assert forall|i: int| 0 <= i < s.len() implies crate::wrangler::config::RawR2Bucket::read(
            #[trigger] s[i],
        ) == Ok::<crate::wrangler::config::R2View, crate::wrangler::config::FaultView>(
            RawWrangler::read(n)->Ok_0.r2_buckets[i],
        ) by {
            lemma_read_items::<crate::wrangler::config::RawR2Bucket>(s, i);
        }
        if s.len() > 0 {
            lemma_read_items::<crate::wrangler::config::RawR2Bucket>(s, 0);
        }
    }
    if let Some(x) = lookup(m, "d1_databases"@) {
        lemma_no_fault(e, m, "d1_databases"@);
        let s = x.1->List_0;
        assert forall|i: int| 0 <= i < s.len() implies crate::wrangler::config::RawD1Database::read(
            #[trigger] s[i],
        ) == Ok::<crate::wrangler::config::D1View, crate::wrangler::config::FaultView>(
            RawWrangler::read(n)->Ok_0.d1_databases[i],
        ) by {
            lemma_read_items::<crate::wrangler::config::RawD1Database>(s, i);
        }
        if s.len() > 0 {
            lemma_read_items::<crate::wrangler::config::RawD1Database>(s, 0);
        }
    }
}

/// The text that stands under a key.
pub open spec fn text_at(m: Seq<(Seq<char>, TomlNode)>, key: Seq<char>) -> Option<Seq<char>> {
    match lookup(m, key) {
        Some((_, TomlView::Text(t))) => Some(t),
        _ => None,
    }
}

proof fn lemma_record(n: TomlNode, m: Seq<(Seq<char>, TomlNode)>, r: crate::wrangler::config::Record)
    requires
        n.1 == TomlView::Table(m),
        crate::wrangler::config::read_record(n, r) is Ok,
    ensures
        crate::wrangler::config::read_record(n, r)->Ok_0.0 == text_at(m, r.first.0@),
        crate::wrangler::config::read_record(n, r)->Ok_0.1 == text_at(m, r.second.0@),
        r.first.1 == crate::wrangler::config::Need::Required ==> text_at(m, r.first.0@) is Some,
        r.second.1 == crate::wrangler::config::Need::Required ==> text_at(m, r.second.0@) is Some,
{
}

/// A binding that is read has the texts that stand under the keys of its table. A
/// namespace needs a `binding`, and a bucket and a database as well; a queue that
/// is written to needs a `binding` and a `queue`, and a durable object a `name` and
/// a `class_name`.
pub proof fn law_bindings_are_read(n: TomlNode, m: Seq<(Seq<char>, TomlNode)>)
    requires
        n.1 == TomlView::Table(m),
    ensures
        crate::wrangler::config::RawKvNamespace::read(n) matches Ok(x) ==> text_at(m, "binding"@)
            == Some(x.binding) && x.id == (match text_at(m, "id"@) {
            Some(t) => t,
            None => Seq::empty(),
        }),
        crate::wrangler::config::RawR2Bucket::read(n) matches Ok(x) ==> text_at(m, "binding"@)
            == Some(x.binding) && x.bucket_name == text_at(m, "bucket_name"@),
        crate::wrangler::config::RawD1Database::read(n) matches Ok(x) ==> text_at(m, "binding"@)
            == Some(x.binding) && x.database_id == text_at(m, "database_id"@),
        crate::wrangler::config::RawQueueProducer::read(n) matches Ok(x) ==> text_at(m, "binding"@)
            == Some(x.binding) && text_at(m, "queue"@) == Some(x.queue),
        crate::wrangler::config::RawQueueConsumer::read(n) matches Ok(x) ==> text_at(m, "queue"@)
            == Some(x),
        crate::wrangler::config::RawDoBinding::read(n) matches Ok(x) ==> text_at(m, "name"@)
            == Some(x.name) && text_at(m, "class_name"@) == Some(x.class_name),
{
    if crate::wrangler::config::RawKvNamespace::read(n) is Ok {
        lemma_record(n, m, crate::wrangler::config::spec_kv_record());
    }
    if crate::wrangler::config::RawR2Bucket::read(n) is Ok {
        lemma_record(n, m, crate::wrangler::config::spec_r2_record());
    }
    if crate::wrangler::config::RawD1Database::read(n) is Ok {
        lemma_record(n, m, crate::wrangler::config::spec_d1_record());
    }
    if crate::wrangler::config::RawQueueProducer::read(n) is Ok {
        lemma_record(n, m, crate::wrangler::config::spec_producer_record());
    }
    if crate::wrangler::config::RawDoBinding::read(n) is Ok {
        lemma_record(n, m, crate::wrangler::config::spec_binding_record());
    }
}

/// Queues and durable objects that are read have as many of each as are listed.
pub proof fn law_queues_and_objects_are_read(n: TomlNode, m: Seq<(Seq<char>, TomlNode)>)
    requires
        n.1 == TomlView::Table(m),
    ensures
        crate::wrangler::config::RawQueues::read(n) matches Ok(q) ==> (match lookup(
            m,
            "producers"@,
        ) {
            Some(x) => crate::wrangler::config::read_list::<
                crate::wrangler::config::RawQueueProducer,
            >(x) == Ok::<
                Seq<crate::wrangler::config::ProducerView>,
                crate::wrangler::config::FaultView,
            >(q.producers),
            None => q.producers.len() == 0,
        }) && (match lookup(m, "consumers"@) {
            Some(x) => crate::wrangler::config::read_list::<
                crate::wrangler::config::RawQueueConsumer,
            >(x) == Ok::<Seq<Seq<char>>, crate::wrangler::config::FaultView>(q.consumers),
            None => q.consumers.len() == 0,
        }),
        crate::wrangler::config::RawDurableObjects::read(n) matches Ok(d) ==> (match lookup(
            m,
            "bindings"@,
        ) {
            Some(x) => crate::wrangler::config::read_list::<
                crate::wrangler::config::RawDoBinding,
            >(x) == Ok::<
                Seq<crate::wrangler::config::DoView>,
                crate::wrangler::config::FaultView,
            >(d),
            None => d.len() == 0,
        }),
{
}

} // verus!
