//! Errors of computing costs.

use vstd::prelude::*;

use crate::arch::Provider;
use crate::pricing::error::PricingError;
use crate::pricing::error::PricingErrorView;

verus! {

/// Why the cost of a resource could not be computed.
#[derive(Debug, PartialEq, Eq)]
pub enum CostError {
    /// A price could not be found.
    Pricing(PricingError),
    /// The description of the resource is not one of its service.
    SpecDeserialize { service_id: String, cause: String },
    /// The description of the resource belongs to another service.
    SpecMismatch { service_id: String },
    /// No service handles resources of this type.
    UnsupportedResource(String),
    /// There are no prices of this provider.
    NoPricingCatalog(Provider),
}

/// The model of a [`CostError`].
pub enum CostErrorView {
    Pricing(PricingErrorView),
    SpecDeserialize { service_id: Seq<char>, cause: Seq<char> },
    SpecMismatch { service_id: Seq<char> },
    UnsupportedResource(Seq<char>),
    NoPricingCatalog(Provider),
}

impl View for CostError {
    type V = CostErrorView;

    open spec fn view(&self) -> CostErrorView {
        match self {
            CostError::Pricing(e) => CostErrorView::Pricing(e@),
            CostError::SpecDeserialize { service_id, cause } => CostErrorView::SpecDeserialize {
                service_id: service_id@,
                cause: cause@,
            },
            CostError::SpecMismatch { service_id } => CostErrorView::SpecMismatch {
                service_id: service_id@,
            },
            CostError::UnsupportedResource(t) => CostErrorView::UnsupportedResource(t@),
            CostError::NoPricingCatalog(p) => CostErrorView::NoPricingCatalog(*p),
        }
    }
}

/// The name of a provider.
pub open spec fn provider_name(p: Provider) -> Seq<char> {
    match p {
        Provider::Aws => "Aws"@,
        Provider::Gcp => "Gcp"@,
        Provider::Cloudflare => "Cloudflare"@,
        Provider::Other => "Other"@,
    }
}

/// The message of an error.
pub open spec fn cost_error_message(e: CostErrorView) -> Seq<char> {
    match e {
        CostErrorView::Pricing(p) => "pricing error: "@
            + crate::pricing::error::pricing_error_message(p),
        CostErrorView::SpecDeserialize { service_id, cause } =>
        "failed to deserialize spec for service '"@ + service_id + "': "@ + cause,
        CostErrorView::SpecMismatch { service_id } => "spec type mismatch for service '"@
            + service_id + "'"@,
        CostErrorView::UnsupportedResource(t) => "unsupported resource: '"@ + t + "'"@,
        CostErrorView::NoPricingCatalog(p) => "no pricing catalog for provider "@ + provider_name(
            p,
        ),
    }
}

impl CostError {
    /// The message of the error.
    pub fn message(&self) -> (r: String)
        ensures
            r@ == cost_error_message(self@),
    {
        match self {
            CostError::Pricing(e) => {
                let mut m = "pricing error: ".to_owned();
                m.append(e.message().as_str());
                m
            },
            CostError::SpecDeserialize { service_id, cause } => {
                let mut m = "failed to deserialize spec for service '".to_owned();
                m.append(service_id.as_str());
                m.append("': ");
                m.append(cause.as_str());
                m
            },
            CostError::SpecMismatch { service_id } => {
                let mut m = "spec type mismatch for service '".to_owned();
                m.append(service_id.as_str());
                m.append("'");
                m
            },
            CostError::UnsupportedResource(t) => {
                let mut m = "unsupported resource: '".to_owned();
                m.append(t.as_str());
                m.append("'");
                m
            },
            CostError::NoPricingCatalog(p) => {
                let mut m = "no pricing catalog for provider ".to_owned();
                match p {
                    Provider::Aws => {
                        m.append("Aws");
                    },
                    Provider::Gcp => {
                        m.append("Gcp");
                    },
                    Provider::Cloudflare => {
                        m.append("Cloudflare");
                    },
                    Provider::Other => {
                        m.append("Other");
                    },
                }
                m
            },
        }
    }
}

} // verus!
