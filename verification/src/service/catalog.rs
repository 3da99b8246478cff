//! The catalog of services.

use vstd::prelude::*;

use crate::arch::Architecture;
use crate::arch::ArchitectureView;
use crate::arch::NodeView;
use crate::arch::Region;
use crate::arch::Resource;
use crate::cost::ArchitectureCost;
use crate::cost::ArchitectureCostView;
use crate::cost::ResourceCost;
use crate::cost::ResourceCostView;
use crate::service::api::AnyService;
use crate::service::api::ServiceHandle;
use crate::service::capacity::CapacityModel;
use crate::service::capacity::CapacityView;
use crate::service::capacity::Quotas;
use crate::service::capacity::SharedQuotaProvider;
use crate::service::error::CostError;
use crate::service::error::CostErrorView;
use crate::service::resolver::PriceCatalogResolver;
use crate::strmap::StrMap;
use crate::text::text_eq;
use crate::yaml::NumberView;

verus! {

/// The services under their identifiers, and the providers of quotas.
pub struct ServiceCatalog {
    pub services: StrMap<ServiceHandle>,
    pub quota_providers: Vec<SharedQuotaProvider>,
}

/// What a resource costs, or why its cost is not known. A resource that is none
/// of a service's has no cost to know.
pub open spec fn resource_outcome<P: PriceCatalogResolver>(
    catalog: ServiceCatalog,
    pricing: P,
    node: NodeView,
) -> Option<Result<ResourceCostView, CostErrorView>> {
    if node.shell.service_id == "other"@ {
        None
    } else {
        match catalog.registered(node.shell.service_id) {
            None => Some(Err(CostErrorView::UnsupportedResource(node.resource_type))),
            Some(service) => match pricing.catalog_for(node.shell.provider) {
                None => Some(Err(CostErrorView::NoPricingCatalog(node.shell.provider))),
                Some(prices) => Some(
                    service.shell_cost(node.logical_id, node.resource_type, node.shell, prices),
                ),
            },
        }
    }
}

/// What the resources cost, one after the other. A resource whose cost is not
/// known is left out, or ends the list with its error when `strict`.
pub open spec fn costs_of<P: PriceCatalogResolver>(
    catalog: ServiceCatalog,
    pricing: P,
    nodes: Seq<NodeView>,
    strict: bool,
) -> Result<Seq<ResourceCostView>, CostErrorView>
    decreases nodes.len(),
{
    if nodes.len() == 0 {
        Ok(Seq::empty())
    } else {
        match costs_of(catalog, pricing, nodes.drop_last(), strict) {
            Err(e) => Err(e),
            Ok(costs) => match resource_outcome(catalog, pricing, nodes.last()) {
                None => Ok(costs),
                Some(Ok(cost)) => Ok(costs.push(cost)),
                Some(Err(e)) => if strict {
                    Err(e)
                } else {
                    Ok(costs)
                },
            },
        }
    }
}

/// What the resources of an architecture cost.
pub open spec fn cost_model_of<P: PriceCatalogResolver>(
    catalog: ServiceCatalog,
    pricing: P,
    arch: ArchitectureView,
    strict: bool,
) -> Result<ArchitectureCostView, CostErrorView> {
    match costs_of(catalog, pricing, arch.resources, strict) {
        Err(e) => Err(e),
        Ok(resources) => Ok(
            ArchitectureCostView {
                name: arch.name,
                resources,
                region: arch.region,
                diagnostics: Seq::empty(),
            },
        ),
    }
}

/// The model of a cost model or an error.
pub open spec fn model_outcome(r: Result<ArchitectureCost, CostError>) -> Result<
    ArchitectureCostView,
    CostErrorView,
> {
    match r {
        Ok(c) => Ok(c@),
        Err(e) => Err(e@),
    }
}

/// What a resource can take.
pub open spec fn resource_capacity(
    catalog: ServiceCatalog,
    node: NodeView,
    quotas: Seq<(Seq<char>, NumberView)>,
) -> Option<CapacityView> {
    match catalog.registered(node.shell.service_id) {
        Some(service) => service.shell_capacity(node.logical_id, node.shell, quotas),
        None => None,
    }
}

/// What the resources can take, where their services know.
pub open spec fn capacities_of(
    catalog: ServiceCatalog,
    nodes: Seq<NodeView>,
    quotas: Seq<(Seq<char>, NumberView)>,
) -> Seq<CapacityView>
    decreases nodes.len(),
{
    if nodes.len() == 0 {
        Seq::empty()
    } else {
        let rest = capacities_of(catalog, nodes.drop_last(), quotas);
        match resource_capacity(catalog, nodes.last(), quotas) {
            Some(c) => rest.push(c),
            None => rest,
        }
    }
}

/// The quotas of each provider in turn, where later ones replace earlier ones.
pub open spec fn quotas_of(providers: Seq<SharedQuotaProvider>, region: Seq<char>) -> Seq<
    (Seq<char>, NumberView),
>
    decreases providers.len(),
{
    if providers.len() == 0 {
        Seq::empty()
    } else {
        crate::service::capacity::merged(
            quotas_of(providers.drop_last(), region),
            providers.last().provider.quotas(region),
        )
    }
}

impl ServiceCatalog {
    /// The service under an identifier.
    pub open spec fn registered(self, id: Seq<char>) -> Option<ServiceHandle> {
        crate::strmap::lookup(self.services@, id)
    }

    /// A catalog without services.
    pub fn new() -> (r: Self)
        ensures
            r.services@.len() == 0,
            r.quota_providers@.len() == 0,
    {
        ServiceCatalog { services: StrMap::new(), quota_providers: Vec::new() }
    }

    /// Adds a service under an identifier that no service has yet.
    pub fn register(&mut self, service: ServiceHandle)
        requires
            old(self).registered(service.name()) is None,
        ensures
            final(self).services@ == crate::strmap::inserted(
                old(self).services@,
                service.name(),
                service,
            ),
            final(self).quota_providers == old(self).quota_providers,
    {
        let id = service.id().to_owned();
        self.services.insert(id, service);
    }

    /// The identifiers of the services, in order.
    pub fn registered_service_ids(&self) -> (r: Vec<&str>)
        ensures
            r@.len() == self.services@.len(),
            forall|i: int| 0 <= i < r@.len() ==> (#[trigger] r@[i])@ == self.services@[i].0,
            crate::strmap::keys_rise(self.services@),
    {
        let mut out: Vec<&str> = Vec::new();
        let n: usize = self.services.len();
        for i in 0..n
            invariant
                n == self.services@.len(),
                out@.len() == i,
                forall|j: int| 0 <= j < i ==> (#[trigger] out@[j])@ == self.services@[j].0,
        {
            out.push(self.services.key_at(i).as_str());
        }
        out
    }

    /// Adds a provider of quotas.
    pub fn register_quota_provider(&mut self, p: SharedQuotaProvider)
        ensures
            final(self).quota_providers@ == old(self).quota_providers@.push(p),
            final(self).services == old(self).services,
    {
        self.quota_providers.push(p);
    }

    /// The quotas that apply by default in a region. Where providers give the
    /// same limit, the one that was added later decides.
    pub fn default_quotas(&self, region: &str) -> (r: Quotas)
        ensures
            r@ == quotas_of(self.quota_providers@, region@),
    {
        let mut merged = Quotas::new();
        let ghost all = self.quota_providers@;
        assert(all.subrange(0, 0) =~= Seq::empty());
        for i in 0..self.quota_providers.len()
            invariant
                all == self.quota_providers@,
                merged@ == quotas_of(all.subrange(0, i as int), region@),
        {
            proof {
                let now = all.subrange(0, i + 1);
                assert(now.drop_last() =~= all.subrange(0, i as int));
                assert(now.last() == all[i as int]);
            }
            let quotas = self.quota_providers[i].provider.default_quotas(region);
            merged.merge_from(&quotas);
        }
        assert(all.subrange(0, all.len() as int) =~= all);
        merged
    }

    /// What a resource costs, or why its cost is not known.
    fn resource_cost<P: PriceCatalogResolver>(&self, resource: &Resource, pricing: &P) -> (r: Option<
        Result<ResourceCost, CostError>,
    >)
        ensures
            match r {
                Some(c) => resource_outcome(*self, *pricing, resource@) == Some(
                    crate::service::api::cost_outcome(c),
                ),
                None => resource_outcome(*self, *pricing, resource@) is None,
            },
    {
        let shell = &resource.shell;
        if text_eq(shell.service_id.as_str(), "other") {
            return None;
        }
        match self.services.get(shell.service_id.as_str()) {
            None => Some(
                Err(
                    CostError::UnsupportedResource(resource.resource_type.as_str().to_owned()),
                ),
            ),
            Some(service) => match pricing.resolve(shell.provider) {
                None => Some(Err(CostError::NoPricingCatalog(shell.provider))),
                Some(prices) => Some(
                    service.build_cost(
                        &resource.logical_id,
                        &resource.resource_type,
                        shell,
                        prices,
                    ),
                ),
            },
        }
    }

    /// What the resources of an architecture cost. A resource whose service is
    /// not in the catalog, whose provider has no prices or whose cost cannot be
    /// computed is left out, or is an error when `strict`.
    ///
    /// The model says nothing about how the usage of connected resources
    /// depends on one another.
    pub fn build_cost_model<P: PriceCatalogResolver>(
        &self,
        arch: &Architecture,
        pricing: &P,
        strict: bool,
    ) -> (r: Result<ArchitectureCost, CostError>)
        ensures
            model_outcome(r) == cost_model_of(*self, *pricing, arch@, strict),
    {
        let mut resources: Vec<ResourceCost> = Vec::new();
        let ghost all = arch@.resources;
        assert(all.subrange(0, 0) =~= Seq::empty());
        assert(crate::cost::cost_views(resources@) =~= Seq::empty());
        for i in 0..arch.resources.len()
            invariant
                all == arch@.resources,
                costs_of(*self, *pricing, all.subrange(0, i as int), strict) == Ok::<
                    Seq<ResourceCostView>,
                    CostErrorView,
                >(crate::cost::cost_views(resources@)),
        {
            let ghost now = all.subrange(0, i + 1);
            let ghost before = resources@;
            proof {
                assert(now.drop_last() =~= all.subrange(0, i as int));
                assert(now.last() == arch.resources@[i as int]@);
            }
            match self.resource_cost(&arch.resources[i], pricing) {
                None => {},
                Some(Ok(cost)) => {
                    resources.push(cost);
                    assert(crate::cost::cost_views(resources@) =~= crate::cost::cost_views(
                        before,
                    ).push(cost@));
                },
                Some(Err(e)) => {
                    if strict {
                        proof {
                            lemma_first_error(*self, *pricing, all, i + 1);
                        }
                        return Err(e);
                    }
                },
            }
        }
        assert(all.subrange(0, all.len() as int) =~= all);
        let r = ArchitectureCost {
            name: arch.name.clone(),
            resources,
            region: Region::new(arch.region.as_str()),
            diagnostics: Vec::new(),
        };
        assert(r@.diagnostics =~= Seq::empty());
        Ok(r)
    }

    /// What the resources of an architecture can take, where their services
    /// know.
    pub fn build_capacity_models(&self, arch: &Architecture, quotas: &Quotas) -> (r: Vec<
        CapacityModel,
    >)
        ensures
            crate::service::capacity::capacity_views(r@) == capacities_of(
                *self,
                arch@.resources,
                quotas@,
            ),
    {
        let mut models: Vec<CapacityModel> = Vec::new();
        let ghost all = arch@.resources;
        assert(all.subrange(0, 0) =~= Seq::empty());
        assert(crate::service::capacity::capacity_views(models@) =~= Seq::empty());
        for i in 0..arch.resources.len()
            invariant
                all == arch@.resources,
                crate::service::capacity::capacity_views(models@) == capacities_of(
                    *self,
                    all.subrange(0, i as int),
                    quotas@,
                ),
        {
            let ghost now = all.subrange(0, i + 1);
            let ghost before = models@;
            proof {
                assert(now.drop_last() =~= all.subrange(0, i as int));
                assert(now.last() == arch.resources@[i as int]@);
            }
            let resource = &arch.resources[i];
            if let Some(service) = self.services.get(resource.shell.service_id.as_str()) {
                if let Some(model) = service.build_capacity(
                    &resource.logical_id,
                    &resource.shell,
                    quotas,
                ) {
                    models.push(model);
                    assert(crate::service::capacity::capacity_views(models@)
                        =~= crate::service::capacity::capacity_views(before).push(model@));
                }
            }
        }
        assert(all.subrange(0, all.len() as int) =~= all);
        models
    }
}

/// An error among the first resources is the error of all of them.
proof fn lemma_first_error<P: PriceCatalogResolver>(
    catalog: ServiceCatalog,
    pricing: P,
    nodes: Seq<NodeView>,
    n: int,
)
    requires
        0 <= n <= nodes.len(),
        costs_of(catalog, pricing, nodes.subrange(0, n), true) is Err,
    ensures
        costs_of(catalog, pricing, nodes, true) == costs_of(
            catalog,
            pricing,
            nodes.subrange(0, n),
            true,
        ),
    decreases nodes.len() - n,
{
    if n == nodes.len() {
        assert(nodes.subrange(0, n) =~= nodes);
    } else {
        assert(nodes.subrange(0, n + 1).drop_last() =~= nodes.subrange(0, n));
        lemma_first_error(catalog, pricing, nodes, n + 1);
    }
}

// ---------------------------------------------------------------------------
// Laws
// ---------------------------------------------------------------------------

/// Without `strict` there is always a cost model, and where there is one with
/// `strict` it is the same.
pub proof fn law_strict_and_lenient_agree<P: PriceCatalogResolver>(
    catalog: ServiceCatalog,
    pricing: P,
    nodes: Seq<NodeView>,
)
    ensures
        costs_of(catalog, pricing, nodes, false) is Ok,
        costs_of(catalog, pricing, nodes, true) is Ok ==> costs_of(catalog, pricing, nodes, true)
            == costs_of(catalog, pricing, nodes, false),
    decreases nodes.len(),
{
    if nodes.len() > 0 {
        law_strict_and_lenient_agree(catalog, pricing, nodes.drop_last());
    }
}

/// With `strict` there is a cost model if and only if no resource of a service
/// has an unknown cost.
pub proof fn law_strict_succeeds_without_errors<P: PriceCatalogResolver>(
    catalog: ServiceCatalog,
    pricing: P,
    nodes: Seq<NodeView>,
)
    ensures
        costs_of(catalog, pricing, nodes, true) is Ok <==> forall|i: int|
            0 <= i < nodes.len() ==> !(resource_outcome(
                catalog,
                pricing,
                #[trigger] nodes[i],
            ) matches Some(Err(_))),
    decreases nodes.len(),
{
    if nodes.len() > 0 {
        let rest = nodes.drop_last();
        law_strict_succeeds_without_errors(catalog, pricing, rest);
        if costs_of(catalog, pricing, nodes, true) is Ok {
            assert forall|i: int| 0 <= i < nodes.len() implies !(resource_outcome(
                catalog,
                pricing,
                #[trigger] nodes[i],
            ) matches Some(Err(_))) by {
                if i < rest.len() {
                    assert(rest[i] == nodes[i]);
                }
            }
        }
        if forall|i: int|
            0 <= i < nodes.len() ==> !(resource_outcome(
                catalog,
                pricing,
                #[trigger] nodes[i],
            ) matches Some(Err(_))) {
            assert forall|i: int| 0 <= i < rest.len() implies !(resource_outcome(
                catalog,
                pricing,
                #[trigger] rest[i],
            ) matches Some(Err(_))) by {
                assert(rest[i] == nodes[i]);
            }
            assert(nodes.last() == nodes[nodes.len() - 1]);
        }
    }
}

/// A limit of the provider that was added last is the limit that applies, and
/// the others are those of the providers before.
pub proof fn law_later_quota_wins(
    providers: Seq<SharedQuotaProvider>,
    region: Seq<char>,
    key: Seq<char>,
)
    requires
        providers.len() > 0,
        crate::strmap::keys_rise(providers.last().provider.quotas(region)),
    ensures
        crate::strmap::lookup(quotas_of(providers, region), key) == match crate::strmap::lookup(
            providers.last().provider.quotas(region),
            key,
        ) {
            Some(x) => Some(x),
            None => crate::strmap::lookup(quotas_of(providers.drop_last(), region), key),
        },
{
    crate::service::capacity::law_merged_limits(
        quotas_of(providers.drop_last(), region),
        providers.last().provider.quotas(region),
        key,
    );
}

} // verus!
