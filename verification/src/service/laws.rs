//! What holds of the costs and capacities that a catalog of services gives.

use vstd::prelude::*;

use crate::arch::ArchitectureView;
use crate::arch::NodeView;
use crate::arch::ShellView;
use crate::cost::ResourceCostView;
use crate::pricing::catalog::CatalogHandle;
use crate::service::api::AnyService;
use crate::service::api::Service;
use crate::service::api::ServiceAdapter;
use crate::service::catalog::capacities_of;
use crate::service::catalog::cost_model_of;
use crate::service::catalog::costs_of;
use crate::service::catalog::ServiceCatalog;
use crate::service::error::CostErrorView;
use crate::service::resolver::PriceCatalogResolver;
use crate::yaml::NumberView;

verus! {

/// A resource of its own costs what its service says, with the prices of its
/// provider. One of no service costs nothing. One whose service is not registered,
/// whose provider has no prices or whose service fails is left out, or is an error
/// that says so when `strict`.
pub proof fn law_one_resource<P: PriceCatalogResolver>(
    catalog: ServiceCatalog,
    pricing: P,
    node: NodeView,
)
    ensures
        ({
            let lenient = costs_of(catalog, pricing, seq![node], false);
            let strict = costs_of(catalog, pricing, seq![node], true);
            let id = node.shell.service_id;
            let prices = pricing.catalog_for(node.shell.provider);
            &&& lenient is Ok
            &&& id == "other"@ ==> lenient->Ok_0.len() == 0 && strict == lenient
            &&& id != "other"@ && catalog.registered(id) is None ==> lenient->Ok_0.len() == 0
                && strict == Err::<Seq<ResourceCostView>, CostErrorView>(
                CostErrorView::UnsupportedResource(node.resource_type),
            )
            &&& id != "other"@ && catalog.registered(id) is Some && prices is None
                ==> lenient->Ok_0.len() == 0 && strict == Err::<
                Seq<ResourceCostView>,
                CostErrorView,
            >(CostErrorView::NoPricingCatalog(node.shell.provider))
            &&& id != "other"@ && catalog.registered(id) is Some && prices is Some ==> ({
                let cost = catalog.registered(id)->Some_0.shell_cost(
                    node.logical_id,
                    node.resource_type,
                    node.shell,
                    prices->Some_0,
                );
                match cost {
                    Ok(c) => strict == lenient && lenient->Ok_0.len() == 1 && lenient->Ok_0[0] == c,
                    Err(e) => lenient->Ok_0.len() == 0 && strict == Err::<
                        Seq<ResourceCostView>,
                        CostErrorView,
                    >(e),
                }
            })
        }),
{
    let one = seq![node];
    assert(one.drop_last() =~= Seq::empty());
    assert(one.last() == node);
    assert(costs_of(catalog, pricing, Seq::<NodeView>::empty(), false) == Ok::<
        Seq<ResourceCostView>,
        CostErrorView,
    >(Seq::empty()));
    assert(costs_of(catalog, pricing, Seq::<NodeView>::empty(), true) == Ok::<
        Seq<ResourceCostView>,
        CostErrorView,
    >(Seq::empty()));
}

/// The costs of resources are those of the first ones, followed by those of the
/// others. When `strict`, the first error is the error of all.
pub proof fn law_costs_add_up<P: PriceCatalogResolver>(
    catalog: ServiceCatalog,
    pricing: P,
    first: Seq<NodeView>,
    others: Seq<NodeView>,
    strict: bool,
)
    ensures
        costs_of(catalog, pricing, first + others, strict) == match (
            costs_of(catalog, pricing, first, strict),
            costs_of(catalog, pricing, others, strict),
        ) {
            (Ok(a), Ok(b)) => Ok(a + b),
            (Err(e), _) => Err(e),
            (Ok(_), Err(e)) => Err(e),
        },
    decreases others.len(),
{
    let all = first + others;
    if others.len() == 0 {
        assert(all =~= first);
        if costs_of(catalog, pricing, first, strict) is Ok {
            let a = costs_of(catalog, pricing, first, strict)->Ok_0;
            assert(a + Seq::<ResourceCostView>::empty() =~= a);
        }
    } else {
        let t = others.drop_last();
        law_costs_add_up(catalog, pricing, first, t, strict);
        assert(all.drop_last() =~= first + t);
        assert(all.last() == others.last());
        if costs_of(catalog, pricing, first, strict) is Ok && costs_of(
            catalog,
            pricing,
            others,
            strict,
        ) is Ok {
            let a = costs_of(catalog, pricing, first, strict)->Ok_0;
            let b = costs_of(catalog, pricing, t, strict)->Ok_0;
            let c = costs_of(catalog, pricing, all, strict)->Ok_0;
            if c != a + b {
                assert(c =~= a + b.push(c.last()));
            }
        }
    }
}

/// The cost model of an architecture has its name, its region and the costs of its
/// resources, and reports nothing.
pub proof fn law_cost_model<P: PriceCatalogResolver>(
    catalog: ServiceCatalog,
    pricing: P,
    arch: ArchitectureView,
    strict: bool,
)
    ensures
        match (
            cost_model_of(catalog, pricing, arch, strict),
            costs_of(catalog, pricing, arch.resources, strict),
        ) {
            (Ok(m), Ok(costs)) => m.name == arch.name && m.region == arch.region && m.resources
                == costs && m.diagnostics.len() == 0,
            (Err(e), Err(f)) => e == f,
            _ => false,
        },
{
}

/// A service costs a resource by the description that it reads. Where it reads
/// none, the error names the service and the cause, and there is no capacity.
pub proof fn law_services_cost_what_they_read<S: Service>(
    service: S,
    id: Seq<char>,
    resource_type: Seq<char>,
    shell: ShellView,
    pricing: CatalogHandle,
    quotas: Seq<(Seq<char>, NumberView)>,
)
    ensures
        match service.reads(shell.spec) {
            Ok(spec) => ServiceAdapter(service).shell_cost(id, resource_type, shell, pricing)
                == service.cost(id, resource_type, spec, pricing) && ServiceAdapter(
                service,
            ).shell_capacity(id, shell, quotas) == service.capacity(id, spec, quotas),
            Err(cause) => ServiceAdapter(service).shell_cost(id, resource_type, shell, pricing)
                == Err::<ResourceCostView, CostErrorView>(
                CostErrorView::SpecDeserialize { service_id: service.service_id(), cause },
            ) && ServiceAdapter(service).shell_capacity(id, shell, quotas) is None,
        },
        ServiceAdapter(service).name() == service.service_id(),
        ServiceAdapter(service).run_by() == service.runs_on(),
{
}

/// A resource of its own has the capacity that its service gives, and none where
/// the service is not registered or gives none.
pub proof fn law_one_capacity(
    catalog: ServiceCatalog,
    node: NodeView,
    quotas: Seq<(Seq<char>, NumberView)>,
)
    ensures
        ({
            let found = capacities_of(catalog, seq![node], quotas);
            match catalog.registered(node.shell.service_id) {
                None => found.len() == 0,
                Some(service) => match service.shell_capacity(node.logical_id, node.shell, quotas) {
                    Some(c) => found.len() == 1 && found[0] == c,
                    None => found.len() == 0,
                },
            }
        }),
{
    let one = seq![node];
    assert(one.drop_last() =~= Seq::empty());
    assert(one.last() == node);
    assert(capacities_of(catalog, Seq::<NodeView>::empty(), quotas).len() == 0);
}

/// The capacities of resources are those of the first ones, followed by those of
/// the others.
pub proof fn law_capacities_add_up(
    catalog: ServiceCatalog,
    first: Seq<NodeView>,
    others: Seq<NodeView>,
    quotas: Seq<(Seq<char>, NumberView)>,
)
    ensures
        capacities_of(catalog, first + others, quotas) == capacities_of(catalog, first, quotas)
            + capacities_of(catalog, others, quotas),
    decreases others.len(),
{
    let all = first + others;
    let a = capacities_of(catalog, first, quotas);
    if others.len() == 0 {
        assert(all =~= first);
        assert(a + capacities_of(catalog, others, quotas) =~= a);
    } else {
        let t = others.drop_last();
        law_capacities_add_up(catalog, first, t, quotas);
        assert(all.drop_last() =~= first + t);
        assert(all.last() == others.last());
        assert(capacities_of(catalog, all, quotas) =~= a + capacities_of(catalog, others, quotas));
    }
}

} // verus!
