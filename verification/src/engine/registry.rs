//! Registries and prices out of plugins.

use vstd::prelude::*;

use crate::arch::Architecture;
use crate::arch::NodeView;
use crate::arch::PerProvider;
use crate::arch::Provider;
use crate::pricing::catalog::CatalogHandle;
use crate::pricing::noop::NoopCatalog;
use crate::service::plugin::PluginHandle;
use crate::service::plugin::ProviderPlugin;
use crate::service::plugin::Registration;
use crate::service::resolver::MultiProviderCatalog;
use crate::service::resolver::PriceCatalogResolver;
use crate::wrangler::plugin::CloudflarePlugin;

verus! {

/// The registries that plugins fill.
pub type Registries = Registration;

// ---------------------------------------------------------------------------
// Registries
// ---------------------------------------------------------------------------

/// The registries can be like `reg` after the first `n` plugins have registered
/// what they bring, one after the other.
pub open spec fn reached(plugins: Seq<PluginHandle>, n: int, reg: Registration) -> bool
    decreases n,
{
    if n <= 0 {
        reg.is_empty()
    } else {
        exists|before: Registration|
            reached(plugins, n - 1, before) && #[trigger] plugins[n - 1].registers(before, reg)
    }
}

/// No plugin would register anything again.
pub open spec fn compatible(plugins: Seq<PluginHandle>) -> bool {
    forall|n: int, before: Registration|
        0 <= n < plugins.len() && reached(plugins, n, before) ==> #[trigger] plugins[n].admits(
            before,
        )
}

/// The registries that hold what each of the plugins brings.
pub fn build_registries(plugins: &[PluginHandle]) -> (r: Registries)
    requires
        compatible(plugins@),
    ensures
        reached(plugins@, plugins@.len() as int, r),
{
    let mut registries = Registration::new();
    for i in 0..plugins.len()
        invariant
            compatible(plugins@),
            reached(plugins@, i as int, registries),
    {
        let ghost before = registries;
        assert(plugins@[i as int].admits(before));
        plugins[i].register(&mut registries);
        assert(reached(plugins@, i + 1 - 1, before) && plugins@[i + 1 - 1].registers(
            before,
            registries,
        ));
    }
    registries
}

// ---------------------------------------------------------------------------
// Prices
// ---------------------------------------------------------------------------

/// The region whose prices apply for a provider: its own, or the default.
pub open spec fn region_for(
    regions: PerProvider<String>,
    provider: Provider,
    default_region: Seq<char>,
) -> Seq<char> {
    match regions.at(provider) {
        Some(r) => r@,
        None => default_region,
    }
}

/// The prices that the first plugins bring for a provider: those of the last of
/// them that brings the provider.
pub open spec fn brought_prices(
    plugins: Seq<PluginHandle>,
    provider: Provider,
    region: Seq<char>,
    list_price: bool,
) -> Option<CatalogHandle>
    decreases plugins.len(),
{
    if plugins.len() == 0 {
        None
    } else if plugins.last().brings() == provider {
        Some(plugins.last().prices(region, list_price))
    } else {
        brought_prices(plugins.drop_last(), provider, region, list_price)
    }
}

/// The prices that apply for a provider: those that a plugin brings, where the
/// architecture has resources of the provider. Resources that are none of a
/// provider's have no prices.
pub open spec fn prices_for(
    plugins: Seq<PluginHandle>,
    nodes: Seq<NodeView>,
    default_region: Seq<char>,
    regions: PerProvider<String>,
    list_price: bool,
    provider: Provider,
) -> Option<CatalogHandle> {
    if !crate::arch::has_provider_spec(nodes, provider) {
        None
    } else if provider == Provider::Other {
        Some(CatalogHandle::Noop(NoopCatalog))
    } else {
        brought_prices(
            plugins,
            provider,
            region_for(regions, provider, default_region),
            list_price,
        )
    }
}

/// The prices that apply for the resources of an architecture.
pub open spec fn pricing_for(
    plugins: Seq<PluginHandle>,
    nodes: Seq<NodeView>,
    default_region: Seq<char>,
    regions: PerProvider<String>,
    list_price: bool,
) -> MultiProviderCatalog {
    let at = |p: Provider| prices_for(plugins, nodes, default_region, regions, list_price, p);
    MultiProviderCatalog {
        catalogs: PerProvider {
            aws: at(Provider::Aws),
            gcp: at(Provider::Gcp),
            cloudflare: at(Provider::Cloudflare),
            other: at(Provider::Other),
        },
    }
}

/// The prices that apply for the resources of an architecture: for each
/// provider that has some, those of its plugin, in the region that is set for
/// the provider or else in the default region.
pub fn build_pricing_resolver(
    plugins: &[PluginHandle],
    arch: &Architecture,
    default_region: &str,
    provider_regions: &PerProvider<String>,
    list_price: bool,
) -> (r: MultiProviderCatalog)
    ensures
        r == pricing_for(
            plugins@,
            arch@.resources,
            default_region@,
            *provider_regions,
            list_price,
        ),
{
    let mut resolver = MultiProviderCatalog::new();
    let ghost nodes = arch@.resources;
    assert(plugins@.subrange(0, 0) =~= Seq::empty());
    for i in 0..plugins.len()
        invariant
            nodes == arch@.resources,
            forall|p: Provider|
                (#[trigger] resolver.catalog_for(p)) == if crate::arch::has_provider_spec(
                    nodes,
                    p,
                ) {
                    brought_prices(
                        plugins@.subrange(0, i as int),
                        p,
                        region_for(*provider_regions, p, default_region@),
                        list_price,
                    )
                } else {
                    None
                },
    {
        proof {
            let now = plugins@.subrange(0, i + 1);
            assert(now.drop_last() =~= plugins@.subrange(0, i as int));
            assert(now.last() == plugins@[i as int]);
        }
        let provider = plugins[i].provider();
        if arch.has_provider(provider) {
            let region = match provider_regions.get(provider) {
                Some(r) => r.as_str(),
                None => default_region,
            };
            let prices = plugins[i].pricing_catalog(region, list_price);
            resolver.insert(provider, prices);
        }
    }
    assert(plugins@.subrange(0, plugins@.len() as int) =~= plugins@);
    if arch.has_provider(Provider::Other) {
        resolver.insert(Provider::Other, CatalogHandle::Noop(NoopCatalog));
    }
    proof {
        let want = pricing_for(plugins@, nodes, default_region@, *provider_regions, list_price);
        assert(resolver.catalog_for(Provider::Aws) == want.catalog_for(Provider::Aws));
        assert(resolver.catalog_for(Provider::Gcp) == want.catalog_for(Provider::Gcp));
        assert(resolver.catalog_for(Provider::Cloudflare) == want.catalog_for(
            Provider::Cloudflare,
        ));
        assert(resolver.catalog_for(Provider::Other) == want.catalog_for(Provider::Other));
    }
    resolver
}

// ---------------------------------------------------------------------------
// Laws
// ---------------------------------------------------------------------------

/// Cloudflare's plugin alone registers nothing twice.
pub proof fn law_cloudflare_alone_is_compatible(plugins: Seq<PluginHandle>)
    requires
        plugins == seq![PluginHandle::Cloudflare(CloudflarePlugin)],
    ensures
        compatible(plugins),
{
    assert forall|n: int, before: Registration|
        0 <= n < plugins.len() && reached(plugins, n, before) implies #[trigger] plugins[n].admits(
        before,
    ) by {
        assert(before.is_empty());
        assert forall|id: Seq<char>|
            crate::wrangler::plugin::cloudflare_service(id) is Some implies (
        #[trigger] before.catalog.registered(id)) is None by {
            crate::strmap::lemma_lookup_none(before.catalog.services@, id);
        }
    }
}

/// There are prices only for providers that have resources in the architecture.
pub proof fn law_only_present_providers_have_prices(
    plugins: Seq<PluginHandle>,
    nodes: Seq<NodeView>,
    default_region: Seq<char>,
    regions: PerProvider<String>,
    list_price: bool,
    provider: Provider,
)
    ensures
        pricing_for(plugins, nodes, default_region, regions, list_price).catalog_for(
            provider,
        ) is Some ==> crate::arch::has_provider_spec(nodes, provider),
        crate::arch::has_provider_spec(nodes, Provider::Other) ==> pricing_for(
            plugins,
            nodes,
            default_region,
            regions,
            list_price,
        ).catalog_for(Provider::Other) == Some(CatalogHandle::Noop(NoopCatalog)),
{
}

} // verus!
