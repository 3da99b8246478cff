//! What a service is to the rest of the library.

use vstd::prelude::*;

use crate::arch::LogicalId;
use crate::arch::Provider;
use crate::arch::ResourceShell;
use crate::arch::ResourceType;
use crate::arch::ShellView;
use crate::cost::ResourceCost;
use crate::cost::ResourceCostView;
use crate::json::Json;
use crate::json::JsonView;
use crate::pricing::catalog::CatalogHandle;
use crate::service::capacity::CapacityModel;
use crate::service::capacity::CapacityView;
use crate::service::capacity::Quotas;
use crate::service::error::CostError;
use crate::service::error::CostErrorView;
use crate::wrangler::services::CloudflareService;
use crate::yaml::NumberView;

verus! {

/// The model of a cost or an error.
pub open spec fn cost_outcome(r: Result<ResourceCost, CostError>) -> Result<
    ResourceCostView,
    CostErrorView,
> {
    match r {
        Ok(c) => Ok(c@),
        Err(e) => Err(e@),
    }
}

/// A service of a provider.
///
/// Of an implementation that does not say what its models are, nothing is known
/// but that they are what its methods give.
pub trait Service {
    /// How the service describes a resource.
    type Spec;

    /// The identifier of the service.
    closed spec fn service_id(&self) -> Seq<char> {
        arbitrary()
    }

    /// Who runs the service.
    closed spec fn runs_on(&self) -> Provider {
        arbitrary()
    }

    /// The description that a JSON value stands for, or why it stands for none.
    closed spec fn reads(&self, spec: JsonView) -> Result<Self::Spec, Seq<char>> {
        arbitrary()
    }

    /// What a resource costs.
    closed spec fn cost(
        &self,
        id: Seq<char>,
        resource_type: Seq<char>,
        spec: Self::Spec,
        pricing: CatalogHandle,
    ) -> Result<ResourceCostView, CostErrorView> {
        arbitrary()
    }

    /// What a resource can take.
    closed spec fn capacity(
        &self,
        id: Seq<char>,
        spec: Self::Spec,
        quotas: Seq<(Seq<char>, NumberView)>,
    ) -> Option<CapacityView> {
        arbitrary()
    }

    /// The identifier of the service, such as `"aws.lambda"`.
    fn id(&self) -> (r: &'static str)
        ensures
            r@ == self.service_id(),
    ;

    /// Who runs the service.
    fn provider(&self) -> (r: Provider)
        ensures
            r == self.runs_on(),
    ;

    /// The description that a JSON value stands for, or why it stands for none.
    fn decode(&self, spec: &Json) -> (r: Result<Self::Spec, String>)
        ensures
            match r {
                Ok(s) => self.reads(spec@) == Ok::<Self::Spec, Seq<char>>(s),
                Err(e) => self.reads(spec@) == Err::<Self::Spec, Seq<char>>(e@),
            },
    ;

    /// What a resource costs.
    fn build_cost(
        &self,
        id: &LogicalId,
        resource_type: &ResourceType,
        spec: &Self::Spec,
        pricing: &CatalogHandle,
    ) -> (r: Result<ResourceCost, CostError>)
        ensures
            cost_outcome(r) == self.cost(id@, resource_type@, *spec, *pricing),
    ;

    /// What a resource can take, where the service knows.
    fn build_capacity(&self, id: &LogicalId, spec: &Self::Spec, quotas: &Quotas) -> (r: Option<
        CapacityModel,
    >)
        ensures
            crate::service::capacity::opt_capacity(r) == self.capacity(id@, *spec, quotas@),
    ;
}

/// A service whose way to describe a resource is not visible.
///
/// Of an implementation that does not say what its models are, nothing is known
/// but that they are what its methods give.
pub trait AnyService {
    /// The identifier of the service.
    closed spec fn name(&self) -> Seq<char> {
        arbitrary()
    }

    /// Who runs the service.
    closed spec fn run_by(&self) -> Provider {
        arbitrary()
    }

    /// What a resource costs.
    closed spec fn shell_cost(
        &self,
        id: Seq<char>,
        resource_type: Seq<char>,
        shell: ShellView,
        pricing: CatalogHandle,
    ) -> Result<ResourceCostView, CostErrorView> {
        arbitrary()
    }

    /// What a resource can take.
    closed spec fn shell_capacity(
        &self,
        id: Seq<char>,
        shell: ShellView,
        quotas: Seq<(Seq<char>, NumberView)>,
    ) -> Option<CapacityView> {
        arbitrary()
    }

    /// The identifier of the service.
    fn id(&self) -> (r: &str)
        ensures
            r@ == self.name(),
    ;

    /// Who runs the service.
    fn provider(&self) -> (r: Provider)
        ensures
            r == self.run_by(),
    ;

    /// What a resource costs.
    fn build_cost(
        &self,
        id: &LogicalId,
        resource_type: &ResourceType,
        shell: &ResourceShell,
        pricing: &CatalogHandle,
    ) -> (r: Result<ResourceCost, CostError>)
        ensures
            cost_outcome(r) == self.shell_cost(id@, resource_type@, shell@, *pricing),
    ;

    /// What a resource can take, where the service knows.
    fn build_capacity(&self, id: &LogicalId, shell: &ResourceShell, quotas: &Quotas) -> (r: Option<
        CapacityModel,
    >)
        ensures
            crate::service::capacity::opt_capacity(r) == self.shell_capacity(id@, shell@, quotas@),
    ;
}

/// A service that reads its description out of a resource's shell.
pub struct ServiceAdapter<S>(pub S);

impl<S: Service> AnyService for ServiceAdapter<S> {
    open spec fn name(&self) -> Seq<char> {
        self.0.service_id()
    }

    open spec fn run_by(&self) -> Provider {
        self.0.runs_on()
    }

    open spec fn shell_cost(
        &self,
        id: Seq<char>,
        resource_type: Seq<char>,
        shell: ShellView,
        pricing: CatalogHandle,
    ) -> Result<ResourceCostView, CostErrorView> {
        match self.0.reads(shell.spec) {
            Ok(spec) => self.0.cost(id, resource_type, spec, pricing),
            Err(cause) => Err(
                CostErrorView::SpecDeserialize { service_id: self.0.service_id(), cause },
            ),
        }
    }

    open spec fn shell_capacity(
        &self,
        id: Seq<char>,
        shell: ShellView,
        quotas: Seq<(Seq<char>, NumberView)>,
    ) -> Option<CapacityView> {
        match self.0.reads(shell.spec) {
            Ok(spec) => self.0.capacity(id, spec, quotas),
            Err(_) => None,
        }
    }

    fn id(&self) -> (r: &str) {
        self.0.id()
    }

    fn provider(&self) -> (r: Provider) {
        self.0.provider()
    }

    fn build_cost(
        &self,
        id: &LogicalId,
        resource_type: &ResourceType,
        shell: &ResourceShell,
        pricing: &CatalogHandle,
    ) -> (r: Result<ResourceCost, CostError>) {
        match self.0.decode(&shell.spec) {
            Ok(spec) => self.0.build_cost(id, resource_type, &spec, pricing),
            Err(cause) => Err(
                CostError::SpecDeserialize { service_id: self.0.id().to_owned(), cause },
            ),
        }
    }

    fn build_capacity(&self, id: &LogicalId, shell: &ResourceShell, quotas: &Quotas) -> (r: Option<
        CapacityModel,
    >) {
        match self.0.decode(&shell.spec) {
            Ok(spec) => self.0.build_capacity(id, &spec, quotas),
            Err(_) => None,
        }
    }
}

/// A service that can be shared.
pub struct SharedService {
    pub service: std::sync::Arc<dyn AnyService>,
}

/// A service: one of the library's own, or one that the host supplies.
pub enum ServiceHandle {
    Cloudflare(CloudflareService),
    Shared(SharedService),
}

impl AnyService for ServiceHandle {
    open spec fn name(&self) -> Seq<char> {
        match self {
            ServiceHandle::Cloudflare(s) => s.name(),
            ServiceHandle::Shared(s) => s.service.name(),
        }
    }

    open spec fn run_by(&self) -> Provider {
        match self {
            ServiceHandle::Cloudflare(s) => s.run_by(),
            ServiceHandle::Shared(s) => s.service.run_by(),
        }
    }

    open spec fn shell_cost(
        &self,
        id: Seq<char>,
        resource_type: Seq<char>,
        shell: ShellView,
        pricing: CatalogHandle,
    ) -> Result<ResourceCostView, CostErrorView> {
        match self {
            ServiceHandle::Cloudflare(s) => s.shell_cost(id, resource_type, shell, pricing),
            ServiceHandle::Shared(s) => s.service.shell_cost(id, resource_type, shell, pricing),
        }
    }

    open spec fn shell_capacity(
        &self,
        id: Seq<char>,
        shell: ShellView,
        quotas: Seq<(Seq<char>, NumberView)>,
    ) -> Option<CapacityView> {
        match self {
            ServiceHandle::Cloudflare(s) => s.shell_capacity(id, shell, quotas),
            ServiceHandle::Shared(s) => s.service.shell_capacity(id, shell, quotas),
        }
    }

    fn id(&self) -> (r: &str) {
        match self {
            ServiceHandle::Cloudflare(s) => s.id(),
            ServiceHandle::Shared(s) => s.service.id(),
        }
    }

    fn provider(&self) -> (r: Provider) {
        match self {
            ServiceHandle::Cloudflare(s) => s.provider(),
            ServiceHandle::Shared(s) => s.service.provider(),
        }
    }

    fn build_cost(
        &self,
        id: &LogicalId,
        resource_type: &ResourceType,
        shell: &ResourceShell,
        pricing: &CatalogHandle,
    ) -> (r: Result<ResourceCost, CostError>) {
        match self {
            ServiceHandle::Cloudflare(s) => s.build_cost(id, resource_type, shell, pricing),
            ServiceHandle::Shared(s) => s.service.build_cost(id, resource_type, shell, pricing),
        }
    }

    fn build_capacity(&self, id: &LogicalId, shell: &ResourceShell, quotas: &Quotas) -> (r: Option<
        CapacityModel,
    >) {
        match self {
            ServiceHandle::Cloudflare(s) => s.build_capacity(id, shell, quotas),
            ServiceHandle::Shared(s) => s.service.build_capacity(id, shell, quotas),
        }
    }
}

} // verus!
