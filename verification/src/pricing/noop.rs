//! A catalog without prices, for providers whose services price themselves.

use vstd::prelude::*;

use crate::pricing::catalog::PriceCatalog;
use crate::pricing::catalog::PriceView;
use crate::pricing::catalog::PricedValue;
use crate::pricing::catalog::Sku;
use crate::pricing::error::PricingError;
use crate::pricing::error::PricingErrorView;

verus! {

/// A catalog in which no key is found.
#[derive(Debug, Clone, Copy, PartialEq, Eq)]
pub struct NoopCatalog;

impl PriceCatalog for NoopCatalog {
    open spec fn region_name(&self) -> Seq<char> {
        "global"@
    }

    open spec fn price(&self, sku: Seq<char>) -> Result<PriceView, PricingErrorView> {
        Err(PricingErrorView::NotFound { service: sku, region: "global"@ })
    }

    fn region(&self) -> (r: &str) {
        "global"
    }

    fn lookup(&self, sku: &Sku) -> (r: Result<PricedValue, PricingError>) {
        Err(PricingError::NotFound { service: sku.as_str().to_owned(), region: "global".to_owned() })
    }
}

} // verus!
