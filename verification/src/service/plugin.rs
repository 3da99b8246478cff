//! Plugins: what a provider brings to the library.

use vstd::prelude::*;

use crate::arch::Provider;
use crate::iac::CfnAdapterRegistry;
use crate::iac::TfAdapterRegistry;
use crate::pricing::catalog::CatalogHandle;
use crate::service::catalog::ServiceCatalog;
use crate::wrangler::plugin::CloudflarePlugin;

verus! {

/// The registries that plugins write into.
pub struct Registration {
    /// The services.
    pub catalog: ServiceCatalog,
    /// The adapters of `CloudFormation` resource types.
    pub cfn_adapters: CfnAdapterRegistry,
    /// The adapters of Terraform resource types.
    pub tf_adapters: TfAdapterRegistry,
}

impl Registration {
    /// Nothing is registered.
    pub open spec fn is_empty(self) -> bool {
        &&& self.catalog.services@.len() == 0
        &&& self.catalog.quota_providers@.len() == 0
        &&& forall|t: Seq<char>| (#[trigger] self.cfn_adapters.registered(t)) is None
        &&& forall|t: Seq<char>| (#[trigger] self.tf_adapters.registered(t)) is None
    }

    /// Registries in which nothing is registered.
    pub fn new() -> (r: Self)
        ensures
            r.is_empty(),
    {
        Registration {
            catalog: ServiceCatalog::new(),
            cfn_adapters: CfnAdapterRegistry::new(),
            tf_adapters: TfAdapterRegistry::new(),
        }
    }
}

/// What a provider brings: its services and adapters, and its prices.
///
/// Of an implementation that does not say what its models are, nothing is known
/// but that they are what its methods give.
pub trait ProviderPlugin {
    /// The provider.
    closed spec fn brings(&self) -> Provider {
        arbitrary()
    }

    /// The registries hold nothing that the plugin would register again.
    closed spec fn admits(&self, reg: Registration) -> bool {
        arbitrary()
    }

    /// What the registries are like after the plugin has registered what it
    /// brings.
    closed spec fn registers(&self, before: Registration, after: Registration) -> bool {
        arbitrary()
    }

    /// The prices of a region, with or without free allowances.
    closed spec fn prices(&self, region: Seq<char>, list_price: bool) -> CatalogHandle {
        arbitrary()
    }

    /// The provider.
    fn provider(&self) -> (r: Provider)
        ensures
            r == self.brings(),
    ;

    /// Registers the services, adapters and quotas of the provider.
    fn register(&self, reg: &mut Registration)
        requires
            self.admits(*old(reg)),
        ensures
            self.registers(*old(reg), *final(reg)),
    ;

    /// The prices of a region. With `list_price`, promotional free allowances
    /// are left out where the provider has any.
    fn pricing_catalog(&self, region: &str, list_price: bool) -> (r: CatalogHandle)
        ensures
            r == self.prices(region@, list_price),
    ;
}

/// A plugin that can be shared.
pub struct SharedPlugin {
    pub plugin: std::sync::Arc<dyn ProviderPlugin>,
}

/// A plugin: the library's own, or one that the host supplies.
pub enum PluginHandle {
    Cloudflare(CloudflarePlugin),
    Shared(SharedPlugin),
}

impl ProviderPlugin for PluginHandle {
    open spec fn brings(&self) -> Provider {
        match self {
            PluginHandle::Cloudflare(p) => p.brings(),
            PluginHandle::Shared(p) => p.plugin.brings(),
        }
    }

    open spec fn admits(&self, reg: Registration) -> bool {
        match self {
            PluginHandle::Cloudflare(p) => p.admits(reg),
            PluginHandle::Shared(p) => p.plugin.admits(reg),
        }
    }

    open spec fn registers(&self, before: Registration, after: Registration) -> bool {
        match self {
            PluginHandle::Cloudflare(p) => p.registers(before, after),
            PluginHandle::Shared(p) => p.plugin.registers(before, after),
        }
    }

    open spec fn prices(&self, region: Seq<char>, list_price: bool) -> CatalogHandle {
        match self {
            PluginHandle::Cloudflare(p) => p.prices(region, list_price),
            PluginHandle::Shared(p) => p.plugin.prices(region, list_price),
        }
    }

    fn provider(&self) -> (r: Provider) {
        match self {
            PluginHandle::Cloudflare(p) => p.provider(),
            PluginHandle::Shared(p) => p.plugin.provider(),
        }
    }

    fn register(&self, reg: &mut Registration) {
        match self {
            PluginHandle::Cloudflare(p) => {
                p.register(reg);
            },
            PluginHandle::Shared(p) => {
                p.plugin.register(reg);
            },
        }
    }

    fn pricing_catalog(&self, region: &str, list_price: bool) -> (r: CatalogHandle) {
        match self {
            PluginHandle::Cloudflare(p) => p.pricing_catalog(region, list_price),
            PluginHandle::Shared(p) => p.plugin.pricing_catalog(region, list_price),
        }
    }
}

} // verus!
