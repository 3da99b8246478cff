//! Prices by provider, so that architectures can mix providers.

use vstd::prelude::*;

use crate::arch::PerProvider;
use crate::arch::Provider;
use crate::pricing::catalog::CatalogHandle;

verus! {

/// Selects the catalog for a provider.
///
/// Of an implementation that does not say what its models are, nothing is known
/// but that they are what its methods give.
pub trait PriceCatalogResolver {
    /// The catalog for a provider.
    closed spec fn catalog_for(&self, provider: Provider) -> Option<CatalogHandle> {
        arbitrary()
    }

    /// The catalog for a provider, where there is one.
    fn resolve(&self, provider: Provider) -> (r: Option<&CatalogHandle>)
        ensures
            match r {
                Some(c) => self.catalog_for(provider) == Some(*c),
                None => self.catalog_for(provider) is None,
            },
    ;
}

/// A catalog for each provider.
pub struct MultiProviderCatalog {
    pub catalogs: PerProvider<CatalogHandle>,
}

impl MultiProviderCatalog {
    /// No catalogs.
    pub fn new() -> (r: Self)
        ensures
            forall|p: Provider| (#[trigger] r.catalog_for(p)) is None,
    {
        MultiProviderCatalog { catalogs: PerProvider::new() }
    }

    /// The catalogs, with `catalog` for `provider`.
    #[must_use]
    pub fn with(self, provider: Provider, catalog: CatalogHandle) -> (r: Self)
        ensures
            forall|p: Provider|
                (#[trigger] r.catalog_for(p)) == if p == provider {
                    Some(catalog)
                } else {
                    self.catalog_for(p)
                },
    {
        let mut catalogs = self.catalogs;
        catalogs.insert(provider, catalog);
        MultiProviderCatalog { catalogs }
    }

    /// Sets the catalog for a provider.
    pub fn insert(&mut self, provider: Provider, catalog: CatalogHandle)
        ensures
            forall|p: Provider|
                (#[trigger] final(self).catalog_for(p)) == if p == provider {
                    Some(catalog)
                } else {
                    old(self).catalog_for(p)
                },
    {
        self.catalogs.insert(provider, catalog);
    }

    /// A catalog for one provider.
    pub fn single(provider: Provider, catalog: CatalogHandle) -> (r: Self)
        ensures
            forall|p: Provider|
                (#[trigger] r.catalog_for(p)) == if p == provider {
                    Some(catalog)
                } else {
                    None
                },
    {
        MultiProviderCatalog::new().with(provider, catalog)
    }
}

impl PriceCatalogResolver for MultiProviderCatalog {
    open spec fn catalog_for(&self, provider: Provider) -> Option<CatalogHandle> {
        self.catalogs.at(provider)
    }

    fn resolve(&self, provider: Provider) -> (r: Option<&CatalogHandle>) {
        self.catalogs.get(provider)
    }
}

/// A catalog on its own holds the prices of every provider.
impl PriceCatalogResolver for CatalogHandle {
    open spec fn catalog_for(&self, provider: Provider) -> Option<CatalogHandle> {
        Some(*self)
    }

    fn resolve(&self, provider: Provider) -> (r: Option<&CatalogHandle>) {
        Some(self)
    }
}

} // verus!
