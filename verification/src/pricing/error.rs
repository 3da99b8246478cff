//! Errors of price lookups.

use vstd::prelude::*;

use crate::pricing::catalog::Sku;

verus! {

/// Why a price could not be found.
#[derive(Debug, Clone, PartialEq, Eq)]
pub enum PricingError {
    NotFound { service: String, region: String },
    FileNotFound(String),
    ParseError(String),
    /// The data is in another currency than the one that is expected.
    CurrencyMismatch { expected: String, actual: String, sku: Sku },
}

/// The model of a [`PricingError`].
pub enum PricingErrorView {
    NotFound { service: Seq<char>, region: Seq<char> },
    FileNotFound(Seq<char>),
    ParseError(Seq<char>),
    CurrencyMismatch { expected: Seq<char>, actual: Seq<char>, sku: Seq<char> },
}

impl View for PricingError {
    type V = PricingErrorView;

    open spec fn view(&self) -> PricingErrorView {
        match self {
            PricingError::NotFound { service, region } => PricingErrorView::NotFound {
                service: service@,
                region: region@,
            },
            PricingError::FileNotFound(s) => PricingErrorView::FileNotFound(s@),
            PricingError::ParseError(s) => PricingErrorView::ParseError(s@),
            PricingError::CurrencyMismatch { expected, actual, sku } =>
            PricingErrorView::CurrencyMismatch { expected: expected@, actual: actual@, sku: sku@ },
        }
    }
}

/// The message of an error.
pub open spec fn pricing_error_message(e: PricingErrorView) -> Seq<char> {
    match e {
        PricingErrorView::NotFound { service, region } => "pricing data not found for "@ + service
            + " in "@ + region,
        PricingErrorView::FileNotFound(s) => "pricing data file not found: "@ + s,
        PricingErrorView::ParseError(s) => "failed to parse pricing data: "@ + s,
        PricingErrorView::CurrencyMismatch { expected, actual, sku } =>
        "pricing currency mismatch for "@ + sku + ": provider expects "@ + expected
            + ", file reported "@ + actual,
    }
}

impl PricingError {
    /// The message of the error.
    pub fn message(&self) -> (r: String)
        ensures
            r@ == pricing_error_message(self@),
    {
        match self {
            PricingError::NotFound { service, region } => {
                let mut m = "pricing data not found for ".to_owned();
                m.append(service.as_str());
                m.append(" in ");
                m.append(region.as_str());
                m
            },
            PricingError::FileNotFound(s) => {
                let mut m = "pricing data file not found: ".to_owned();
                m.append(s.as_str());
                m
            },
            PricingError::ParseError(s) => {
                let mut m = "failed to parse pricing data: ".to_owned();
                m.append(s.as_str());
                m
            },
            PricingError::CurrencyMismatch { expected, actual, sku } => {
                let mut m = "pricing currency mismatch for ".to_owned();
                m.append(sku.as_str());
                m.append(": provider expects ");
                m.append(expected.as_str());
                m.append(", file reported ");
                m.append(actual.as_str());
                m
            },
        }
    }
}

} // verus!
