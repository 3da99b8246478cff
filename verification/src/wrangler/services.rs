//! The services of Cloudflare and what they cost on the paid Workers plan.

use vstd::prelude::*;

use crate::amount::decimal;
use crate::amount::per_million;
use crate::amount::whole;
use crate::amount::Amount;
use crate::arch::LogicalId;
use crate::arch::Provider;
use crate::arch::ResourceShell;
use crate::arch::ResourceType;
use crate::arch::ShellView;
use crate::cost::priced_over;
use crate::cost::ComponentView;
use crate::cost::CostComponent;
use crate::cost::CostExprView;
use crate::cost::Expr;
use crate::cost::ResourceCost;
use crate::cost::ResourceCostView;
use crate::cost::VariableInfo;
use crate::cost::VariableView;
use crate::decode::wrong_json_message;
use crate::decode::wrong_length_message;
use crate::json::Json;
use crate::json::JsonView;
use crate::pricing::catalog::CatalogHandle;
use crate::service::api::AnyService;
use crate::service::api::Service;
use crate::service::api::ServiceAdapter;
use crate::service::capacity::CapacityModel;
use crate::service::capacity::CapacityView;
use crate::service::capacity::Quotas;
use crate::service::error::CostError;
use crate::service::error::CostErrorView;
use crate::text::text_eq;
use crate::yaml::NumberView;

verus! {

// ---------------------------------------------------------------------------
// Descriptions
// ---------------------------------------------------------------------------

/// How the requests of a worker are charged.
#[derive(Debug, Clone, Copy, PartialEq, Eq, Structural)]
pub enum CloudflareUsageModel {
    Standard,
    Bundled,
}

impl Default for CloudflareUsageModel {
    fn default() -> (r: Self)
        ensures
            r == CloudflareUsageModel::Standard,
    {
        CloudflareUsageModel::Standard
    }
}

/// The name of a usage model.
pub open spec fn usage_model_name(m: CloudflareUsageModel) -> Seq<char> {
    match m {
        CloudflareUsageModel::Standard => "Standard"@,
        CloudflareUsageModel::Bundled => "Bundled"@,
    }
}

/// The name of a usage model.
fn usage_model_text(m: CloudflareUsageModel) -> (r: &'static str)
    ensures
        r@ == usage_model_name(m),
{
    match m {
        CloudflareUsageModel::Standard => "Standard",
        CloudflareUsageModel::Bundled => "Bundled",
    }
}

/// A worker.
#[derive(Debug, Clone, Copy, PartialEq, Eq, Structural)]
pub struct CloudflareWorkerSpec {
    pub usage_model: CloudflareUsageModel,
}

/// A key-value namespace.
#[derive(Debug, Clone, Copy, PartialEq, Eq, Structural)]
pub struct CloudflareKvSpec {}

/// A bucket.
#[derive(Debug, Clone, Copy, PartialEq, Eq, Structural)]
pub struct CloudflareR2Spec {}

/// A database.
#[derive(Debug, Clone, Copy, PartialEq, Eq, Structural)]
pub struct CloudflareD1Spec {}

/// A queue.
#[derive(Debug, Clone, Copy, PartialEq, Eq, Structural)]
pub struct CloudflareQueueSpec {}

/// A class of durable objects.
#[derive(Debug, Clone, Copy, PartialEq, Eq, Structural)]
pub struct CloudflareDurableObjectSpec {}

/// The JSON value that stands for a worker.
pub open spec fn worker_json(spec: CloudflareWorkerSpec) -> JsonView {
    JsonView::Object(
        seq![("usage_model"@, JsonView::String(usage_model_name(spec.usage_model)))],
    )
}

/// The JSON value that stands for a resource of which nothing is described.
pub open spec fn empty_json() -> JsonView {
    JsonView::Object(Seq::empty())
}

impl CloudflareWorkerSpec {
    /// The JSON value that stands for the worker.
    pub fn to_json(&self) -> (r: Json)
        ensures
            r@ == worker_json(*self),
    {
        let mut fields: Vec<(String, Json)> = Vec::new();
        fields.push(
            (
                "usage_model".to_owned(),
                Json::String(usage_model_text(self.usage_model).to_owned()),
            ),
        );
        let ghost value = fields@[0].1;
        let r = Json::Object(fields);
        assert(value@ == JsonView::String(usage_model_name(self.usage_model)));
        assert(r@->Object_0 =~= worker_json(*self)->Object_0);
        r
    }
}

/// The JSON value that stands for a resource of which nothing is described.
pub fn empty_object() -> (r: Json)
    ensures
        r@ == empty_json(),
{
    let r = Json::Object(Vec::new());
    assert(r@->Object_0 =~= Seq::empty());
    r
}

/// What is said of a name that names no usage model.
pub open spec fn no_usage_model(name: Seq<char>) -> Seq<char> {
    "unknown variant `"@ + name + "`, expected `Standard` or `Bundled`"@
}

/// The usage model that a name names, or why it names none.
pub open spec fn named_usage_model(name: Seq<char>) -> Result<CloudflareUsageModel, Seq<char>> {
    if name == "Standard"@ {
        Ok(CloudflareUsageModel::Standard)
    } else if name == "Bundled"@ {
        Ok(CloudflareUsageModel::Bundled)
    } else {
        Err(no_usage_model(name))
    }
}

/// The usage model that a JSON value stands for, or why it stands for none: its
/// name, or an object with null under its name alone.
pub open spec fn usage_model_of(v: JsonView) -> Result<CloudflareUsageModel, Seq<char>> {
    match v {
        JsonView::String(s) => named_usage_model(s),
        JsonView::Object(m) => if m.len() != 1 {
            Err("invalid value: map, expected map with a single key"@)
        } else {
            match named_usage_model(m[0].0) {
                Ok(usage_model) => if m[0].1 == JsonView::Null {
                    Ok(usage_model)
                } else {
                    Err(crate::decode::wrong_json(m[0].1, "unit"@))
                },
                Err(e) => Err(e),
            }
        },
        _ => Err(crate::decode::wrong_json(v, "string or map"@)),
    }
}

/// What is said of an array with too many elements.
pub open spec fn too_many(len: nat) -> Seq<char> {
    crate::decode::wrong_length(len, "fewer elements in array"@)
}

/// The worker that a JSON value stands for, or why it stands for none: an
/// object with its usage model, or an array of it, where a worker without one
/// has the standard model.
pub open spec fn worker_of(v: JsonView) -> Result<CloudflareWorkerSpec, Seq<char>> {
    match v {
        JsonView::Object(m) => match crate::strmap::lookup(m, "usage_model"@) {
            Some(x) => match usage_model_of(x) {
                Ok(usage_model) => Ok(CloudflareWorkerSpec { usage_model }),
                Err(e) => Err(e),
            },
            None => Ok(CloudflareWorkerSpec { usage_model: CloudflareUsageModel::Standard }),
        },
        JsonView::Array(s) => if s.len() == 0 {
            Ok(CloudflareWorkerSpec { usage_model: CloudflareUsageModel::Standard })
        } else {
            match usage_model_of(s[0]) {
                Ok(usage_model) => if s.len() == 1 {
                    Ok(CloudflareWorkerSpec { usage_model })
                } else {
                    Err(too_many(s.len()))
                },
                Err(e) => Err(e),
            }
        },
        _ => Err(crate::decode::wrong_json(v, "struct CloudflareWorkerSpec"@)),
    }
}

/// Why a JSON value does not stand for a resource of which nothing is
/// described, where it does not.
pub open spec fn no_description(v: JsonView, expected: Seq<char>) -> Option<Seq<char>> {
    match v {
        JsonView::Object(_) => None,
        JsonView::Array(s) => if s.len() == 0 {
            None
        } else {
            Some(too_many(s.len()))
        },
        _ => Some(crate::decode::wrong_json(v, expected)),
    }
}

/// The JSON value stands for a resource of which nothing is described.
pub open spec fn describes_nothing(v: JsonView) -> bool {
    match v {
        JsonView::Object(_) => true,
        JsonView::Array(s) => s.len() == 0,
        _ => false,
    }
}

/// The model of what was read, or of why it could not be read.
pub open spec fn read_outcome<T>(r: Result<T, String>) -> Result<T, Seq<char>> {
    match r {
        Ok(x) => Ok(x),
        Err(e) => Err(e@),
    }
}

/// The usage model that a name names, or why it names none.
fn parse_usage_model_name(name: &str) -> (r: Result<CloudflareUsageModel, String>)
    ensures
        read_outcome(r) == named_usage_model(name@),
{
    if text_eq(name, "Standard") {
        Ok(CloudflareUsageModel::Standard)
    } else if text_eq(name, "Bundled") {
        Ok(CloudflareUsageModel::Bundled)
    } else {
        let mut m = "unknown variant `".to_owned();
        m.append(name);
        m.append("`, expected `Standard` or `Bundled`");
        Err(m)
    }
}

/// The usage model that a JSON value stands for, or why it stands for none.
fn parse_usage_model(v: &Json) -> (r: Result<CloudflareUsageModel, String>)
    ensures
        read_outcome(r) == usage_model_of(v@),
{
    match v {
        Json::String(s) => parse_usage_model_name(s.as_str()),
        Json::Object(m) => {
            if m.len() != 1 {
                return Err("invalid value: map, expected map with a single key".to_owned());
            }
            assert(v@->Object_0[0] == (m@[0].0@, m@[0].1@));
            match parse_usage_model_name(m[0].0.as_str()) {
                Ok(usage_model) => match &m[0].1 {
                    Json::Null => Ok(usage_model),
                    other => Err(wrong_json_message(other, "unit")),
                },
                Err(e) => Err(e),
            }
        },
        _ => Err(wrong_json_message(v, "string or map")),
    }
}

/// The worker that a JSON value stands for, or why it stands for none.
fn parse_worker(v: &Json) -> (r: Result<CloudflareWorkerSpec, String>)
    ensures
        read_outcome(r) == worker_of(v@),
{
    match v {
        Json::Object(_) => match v.get("usage_model") {
            Some(x) => match parse_usage_model(x) {
                Ok(usage_model) => Ok(CloudflareWorkerSpec { usage_model }),
                Err(e) => Err(e),
            },
            None => Ok(CloudflareWorkerSpec { usage_model: CloudflareUsageModel::Standard }),
        },
        Json::Array(s) => {
            if s.len() == 0 {
                return Ok(CloudflareWorkerSpec { usage_model: CloudflareUsageModel::Standard });
            }
            match parse_usage_model(&s[0]) {
                Ok(usage_model) => if s.len() == 1 {
                    Ok(CloudflareWorkerSpec { usage_model })
                } else {
                    Err(wrong_length_message(s.len(), "fewer elements in array"))
                },
                Err(e) => Err(e),
            }
        },
        _ => Err(wrong_json_message(v, "struct CloudflareWorkerSpec")),
    }
}

/// Why a JSON value does not stand for a resource of which nothing is
/// described, where it does not.
fn find_description(v: &Json, expected: &str) -> (r: Option<String>)
    ensures
        match r {
            Some(e) => no_description(v@, expected@) == Some(e@),
            None => no_description(v@, expected@) is None,
        },
{
    match v {
        Json::Object(_) => None,
        Json::Array(s) => if s.len() == 0 {
            None
        } else {
            Some(wrong_length_message(s.len(), "fewer elements in array"))
        },
        _ => Some(wrong_json_message(v, expected)),
    }
}

// ---------------------------------------------------------------------------
// Costs
// ---------------------------------------------------------------------------

/// A usage variable of a resource.
pub open spec fn usage(id: Seq<char>, name: Seq<char>) -> CostExprView {
    CostExprView::Variable(crate::cost::variable_name(id, name))
}

/// What is known about a usage variable of a resource.
pub open spec fn usage_info(
    id: Seq<char>,
    name: Seq<char>,
    description: Seq<char>,
    unit: Seq<char>,
) -> VariableView {
    VariableView { name: crate::cost::variable_name(id, name), description, unit }
}

/// What is known about a usage variable of a resource.
fn variable_info(id: &LogicalId, name: &str, description: &str, unit: &str) -> (r: VariableInfo)
    ensures
        r@ == usage_info(id@, name@, description@, unit@),
{
    VariableInfo {
        name: id.var(name),
        description: description.to_owned(),
        unit: unit.to_owned(),
    }
}

/// A component of a cost.
fn component(name: &str, expr: Expr) -> (r: CostComponent)
    ensures
        r@ == (ComponentView { name: name@, expr: expr@ }),
{
    CostComponent { name: name.to_owned(), expr }
}

/// The sum of the components of a cost.
pub open spec fn components_sum(components: Seq<ComponentView>) -> CostExprView {
    CostExprView::Sum(components.map_values(|c: ComponentView| c.expr))
}

/// The expressions of components, summed.
fn sum_of(components: &Vec<CostComponent>) -> (r: Expr)
    ensures
        r@ == components_sum(components@.map_values(|c: CostComponent| c@)),
{
    let mut terms: Vec<Expr> = Vec::new();
    for i in 0..components.len()
        invariant
            terms@.len() == i,
            forall|j: int| 0 <= j < i ==> (#[trigger] terms@[j])@ == components@[j].expr@,
    {
        terms.push((&components[i].expr).clone());
    }
    assert(crate::cost::expr_views(terms@) =~= components@.map_values(
        |c: CostComponent| c@,
    ).map_values(|c: ComponentView| c.expr));
    Expr::sum(terms)
}

// ---------------------------------------------------------------------------
// Workers
// ---------------------------------------------------------------------------

/// The price of a request and of a millisecond of computation over the
/// allowance.
pub open spec fn worker_prices(m: CloudflareUsageModel) -> (Amount, Amount) {
    match m {
        CloudflareUsageModel::Bundled => (per_million(50, 2), whole(0)),
        CloudflareUsageModel::Standard => (per_million(30, 2), per_million(2, 2)),
    }
}

/// The components of what a worker costs.
pub open spec fn worker_components(id: Seq<char>, spec: CloudflareWorkerSpec) -> Seq<ComponentView> {
    seq![
        ComponentView {
            name: "Paid plan base"@,
            expr: CostExprView::Constant(whole(5)),
        },
        ComponentView {
            name: "Requests (over 10M)"@,
            expr: crate::cost::over_allowance(
                whole(10_000_000),
                worker_prices(spec.usage_model).0,
                usage(id, "monthly_requests"@),
            ),
        },
        ComponentView {
            name: "CPU time (over 30M ms)"@,
            expr: crate::cost::over_allowance(
                whole(30_000_000),
                worker_prices(spec.usage_model).1,
                CostExprView::Product(
                    seq![usage(id, "monthly_requests"@), usage(id, "avg_cpu_ms"@)],
                ),
            ),
        },
    ]
}

/// The usage that the cost of a worker depends on.
pub open spec fn worker_variables(id: Seq<char>) -> Seq<VariableView> {
    seq![
        usage_info(id, "monthly_requests"@, "HTTP requests per month"@, "count"@),
        usage_info(id, "avg_cpu_ms"@, "Average CPU time per request"@, "ms"@),
    ]
}

/// What a worker costs.
pub open spec fn worker_cost(id: Seq<char>, resource_type: Seq<char>, spec: CloudflareWorkerSpec) -> ResourceCostView {
    let components = worker_components(id, spec);
    ResourceCostView {
        logical_id: id,
        resource_type,
        label: "Workers ("@ + usage_model_name(spec.usage_model) + ")"@,
        expr: components_sum(components),
        components,
        required_variables: worker_variables(id),
    }
}

/// Workers.
#[derive(Debug, Clone, Copy, PartialEq, Eq)]
pub struct CloudflareWorkerService;

impl Service for CloudflareWorkerService {
    type Spec = CloudflareWorkerSpec;

    open spec fn service_id(&self) -> Seq<char> {
        "cloudflare.worker"@
    }

    open spec fn runs_on(&self) -> Provider {
        Provider::Cloudflare
    }

    open spec fn reads(&self, spec: JsonView) -> Result<CloudflareWorkerSpec, Seq<char>> {
        worker_of(spec)
    }

    open spec fn cost(
        &self,
        id: Seq<char>,
        resource_type: Seq<char>,
        spec: CloudflareWorkerSpec,
        pricing: CatalogHandle,
    ) -> Result<ResourceCostView, CostErrorView> {
        Ok(worker_cost(id, resource_type, spec))
    }

    open spec fn capacity(
        &self,
        id: Seq<char>,
        spec: CloudflareWorkerSpec,
        quotas: Seq<(Seq<char>, NumberView)>,
    ) -> Option<CapacityView> {
        None
    }

    fn id(&self) -> (r: &'static str) {
        "cloudflare.worker"
    }

    fn provider(&self) -> (r: Provider) {
        Provider::Cloudflare
    }

    fn decode(&self, spec: &Json) -> (r: Result<CloudflareWorkerSpec, String>) {
        parse_worker(spec)
    }

    fn build_cost(
        &self,
        id: &LogicalId,
        resource_type: &ResourceType,
        spec: &CloudflareWorkerSpec,
        _pricing: &CatalogHandle,
    ) -> (r: Result<ResourceCost, CostError>) {
        let (request_price, cpu_price) = match spec.usage_model {
            CloudflareUsageModel::Bundled => (per_million(50, 2), whole(0)),
            CloudflareUsageModel::Standard => (per_million(30, 2), per_million(2, 2)),
        };
        let mut factors: Vec<Expr> = Vec::new();
        factors.push(Expr::variable(id.var("monthly_requests")));
        factors.push(Expr::variable(id.var("avg_cpu_ms")));
        assert(crate::cost::expr_views(factors@) =~= seq![
            usage(id@, "monthly_requests"@),
            usage(id@, "avg_cpu_ms"@),
        ]);
        let cpu_time = Expr::product(factors);
        let mut label = "Workers (".to_owned();
        label.append(usage_model_text(spec.usage_model));
        label.append(")");
        let mut components: Vec<CostComponent> = Vec::new();
        components.push(component("Paid plan base", Expr::constant(whole(5))));
        components.push(component("Requests (over 10M)", priced_over(
            whole(10_000_000),
            request_price,
            Expr::variable(id.var("monthly_requests")),
        )));
        components.push(
            component(
                "CPU time (over 30M ms)",
                priced_over(
                    whole(30_000_000),
                    cpu_price,
                    cpu_time,
                ),
            ),
        );
        let mut required_variables: Vec<VariableInfo> = Vec::new();
        required_variables.push(
            variable_info(id, "monthly_requests", "HTTP requests per month", "count"),
        );
        required_variables.push(
            variable_info(id, "avg_cpu_ms", "Average CPU time per request", "ms"),
        );
        proof {
            assert(components@.map_values(|c: CostComponent| c@) =~= worker_components(id@, *spec));
            assert(required_variables@.map_values(|v: VariableInfo| v@) =~= worker_variables(id@));
        }
        Ok(
            ResourceCost {
                logical_id: id.clone(),
                resource_type: ResourceType::new(resource_type.as_str()),
                label: label,
                expr: sum_of(&components),
                components,
                required_variables,
            },
        )
    }

    fn build_capacity(
        &self,
        _id: &LogicalId,
        _spec: &CloudflareWorkerSpec,
        _quotas: &Quotas,
    ) -> (r: Option<CapacityModel>) {
        None
    }
}

// ---------------------------------------------------------------------------
// Workers KV
// ---------------------------------------------------------------------------

/// The components of what key-value namespaces cost.
pub open spec fn kv_components(id: Seq<char>) -> Seq<ComponentView> {
    seq![
        ComponentView {
            name: "Reads"@,
            expr: crate::cost::over_allowance(
                whole(10_000_000),
                per_million(50, 2),
                usage(id, "monthly_reads"@),
            ),
        },
        ComponentView {
            name: "Writes"@,
            expr: crate::cost::over_allowance(
                whole(1_000_000),
                per_million(5, 0),
                usage(id, "monthly_writes"@),
            ),
        },
    ]
}

/// The usage that the cost of key-value namespaces depends on.
pub open spec fn kv_variables(id: Seq<char>) -> Seq<VariableView> {
    seq![
        usage_info(id, "monthly_reads"@, "KV read operations per month"@, "count"@),
        usage_info(id, "monthly_writes"@, "KV write operations per month"@, "count"@),
    ]
}

/// What key-value namespaces cost.
pub open spec fn kv_cost(id: Seq<char>, resource_type: Seq<char>) -> ResourceCostView {
    let components = kv_components(id);
    ResourceCostView {
        logical_id: id,
        resource_type,
        label: "Workers KV"@,
        expr: components_sum(components),
        components,
        required_variables: kv_variables(id),
    }
}

/// Workers KV.
#[derive(Debug, Clone, Copy, PartialEq, Eq)]
pub struct CloudflareKvService;

impl Service for CloudflareKvService {
    type Spec = CloudflareKvSpec;

    open spec fn service_id(&self) -> Seq<char> {
        "cloudflare.kv"@
    }

    open spec fn runs_on(&self) -> Provider {
        Provider::Cloudflare
    }

    open spec fn reads(&self, spec: JsonView) -> Result<CloudflareKvSpec, Seq<char>> {
        match no_description(spec, "struct CloudflareKvSpec"@) {
            None => Ok(CloudflareKvSpec {}),
            Some(e) => Err(e),
        }
    }

    open spec fn cost(
        &self,
        id: Seq<char>,
        resource_type: Seq<char>,
        spec: CloudflareKvSpec,
        pricing: CatalogHandle,
    ) -> Result<ResourceCostView, CostErrorView> {
        Ok(kv_cost(id, resource_type))
    }

    open spec fn capacity(
        &self,
        id: Seq<char>,
        spec: CloudflareKvSpec,
        quotas: Seq<(Seq<char>, NumberView)>,
    ) -> Option<CapacityView> {
        None
    }

    fn id(&self) -> (r: &'static str) {
        "cloudflare.kv"
    }

    fn provider(&self) -> (r: Provider) {
        Provider::Cloudflare
    }

    fn decode(&self, spec: &Json) -> (r: Result<CloudflareKvSpec, String>) {
        match find_description(spec, "struct CloudflareKvSpec") {
            None => Ok(CloudflareKvSpec {}),
            Some(e) => Err(e),
        }
    }

    fn build_cost(
        &self,
        id: &LogicalId,
        resource_type: &ResourceType,
        _spec: &CloudflareKvSpec,
        _pricing: &CatalogHandle,
    ) -> (r: Result<ResourceCost, CostError>) {
        let mut components: Vec<CostComponent> = Vec::new();
        components.push(
            component(
                "Reads",
                priced_over(
                    whole(10_000_000),
                    per_million(50, 2),
                    Expr::variable(id.var("monthly_reads")),
                ),
            ),
        );
        components.push(
            component(
                "Writes",
                priced_over(
                    whole(1_000_000),
                    per_million(5, 0),
                    Expr::variable(id.var("monthly_writes")),
                ),
            ),
        );
        let mut required_variables: Vec<VariableInfo> = Vec::new();
        required_variables.push(
            variable_info(id, "monthly_reads", "KV read operations per month", "count"),
        );
        required_variables.push(
            variable_info(id, "monthly_writes", "KV write operations per month", "count"),
        );
        proof {
            assert(components@.map_values(|c: CostComponent| c@) =~= kv_components(id@));
            assert(required_variables@.map_values(|v: VariableInfo| v@) =~= kv_variables(id@));
        }
        Ok(
            ResourceCost {
                logical_id: id.clone(),
                resource_type: ResourceType::new(resource_type.as_str()),
                label: "Workers KV".to_owned(),
                expr: sum_of(&components),
                components,
                required_variables,
            },
        )
    }

    fn build_capacity(
        &self,
        _id: &LogicalId,
        _spec: &CloudflareKvSpec,
        _quotas: &Quotas,
    ) -> (r: Option<CapacityModel>) {
        None
    }
}

// ---------------------------------------------------------------------------
// R2 Storage
// ---------------------------------------------------------------------------

/// The components of what buckets cost.
pub open spec fn r2_components(id: Seq<char>) -> Seq<ComponentView> {
    seq![
        ComponentView {
            name: "Storage"@,
            expr: crate::cost::over_allowance(whole(10), decimal(15, 3), usage(id, "storage_gb"@)),
        },
        ComponentView {
            name: "Class A ops (write/list)"@,
            expr: crate::cost::over_allowance(
                whole(1_000_000),
                per_million(450, 2),
                usage(id, "class_a_ops"@),
            ),
        },
        ComponentView {
            name: "Class B ops (read)"@,
            expr: crate::cost::over_allowance(
                whole(10_000_000),
                per_million(36, 2),
                usage(id, "class_b_ops"@),
            ),
        },
    ]
}

/// The usage that the cost of buckets depends on.
pub open spec fn r2_variables(id: Seq<char>) -> Seq<VariableView> {
    seq![
        usage_info(id, "storage_gb"@, "Data stored per month"@, "GB"@),
        usage_info(id, "class_a_ops"@, "Class A operations (writes, lists) per month"@, "count"@),
        usage_info(id, "class_b_ops"@, "Class B operations (reads) per month"@, "count"@),
    ]
}

/// What buckets cost.
pub open spec fn r2_cost(id: Seq<char>, resource_type: Seq<char>) -> ResourceCostView {
    let components = r2_components(id);
    ResourceCostView {
        logical_id: id,
        resource_type,
        label: "R2 Storage"@,
        expr: components_sum(components),
        components,
        required_variables: r2_variables(id),
    }
}

/// R2 Storage.
#[derive(Debug, Clone, Copy, PartialEq, Eq)]
pub struct CloudflareR2Service;

impl Service for CloudflareR2Service {
    type Spec = CloudflareR2Spec;

    open spec fn service_id(&self) -> Seq<char> {
        "cloudflare.r2"@
    }

    open spec fn runs_on(&self) -> Provider {
        Provider::Cloudflare
    }

    open spec fn reads(&self, spec: JsonView) -> Result<CloudflareR2Spec, Seq<char>> {
        match no_description(spec, "struct CloudflareR2Spec"@) {
            None => Ok(CloudflareR2Spec {}),
            Some(e) => Err(e),
        }
    }

    open spec fn cost(
        &self,
        id: Seq<char>,
        resource_type: Seq<char>,
        spec: CloudflareR2Spec,
        pricing: CatalogHandle,
    ) -> Result<ResourceCostView, CostErrorView> {
        Ok(r2_cost(id, resource_type))
    }

    open spec fn capacity(
        &self,
        id: Seq<char>,
        spec: CloudflareR2Spec,
        quotas: Seq<(Seq<char>, NumberView)>,
    ) -> Option<CapacityView> {
        None
    }

    fn id(&self) -> (r: &'static str) {
        "cloudflare.r2"
    }

    fn provider(&self) -> (r: Provider) {
        Provider::Cloudflare
    }

    fn decode(&self, spec: &Json) -> (r: Result<CloudflareR2Spec, String>) {
        match find_description(spec, "struct CloudflareR2Spec") {
            None => Ok(CloudflareR2Spec {}),
            Some(e) => Err(e),
        }
    }

    fn build_cost(
        &self,
        id: &LogicalId,
        resource_type: &ResourceType,
        _spec: &CloudflareR2Spec,
        _pricing: &CatalogHandle,
    ) -> (r: Result<ResourceCost, CostError>) {
        let mut components: Vec<CostComponent> = Vec::new();
        components.push(
            component(
                "Storage",
                priced_over(
                    whole(10),
                    decimal(15, 3),
                    Expr::variable(id.var("storage_gb")),
                ),
            ),
        );
        components.push(
            component(
                "Class A ops (write/list)",
                priced_over(
                    whole(1_000_000),
                    per_million(450, 2),
                    Expr::variable(id.var("class_a_ops")),
                ),
            ),
        );
        components.push(
            component(
                "Class B ops (read)",
                priced_over(
                    whole(10_000_000),
                    per_million(36, 2),
                    Expr::variable(id.var("class_b_ops")),
                ),
            ),
        );
        let mut required_variables: Vec<VariableInfo> = Vec::new();
        required_variables.push(variable_info(id, "storage_gb", "Data stored per month", "GB"));
        required_variables.push(
            variable_info(
                id,
                "class_a_ops",
                "Class A operations (writes, lists) per month",
                "count",
            ),
        );
        required_variables.push(
            variable_info(id, "class_b_ops", "Class B operations (reads) per month", "count"),
        );
        proof {
            assert(components@.map_values(|c: CostComponent| c@) =~= r2_components(id@));
            assert(required_variables@.map_values(|v: VariableInfo| v@) =~= r2_variables(id@));
        }
        Ok(
            ResourceCost {
                logical_id: id.clone(),
                resource_type: ResourceType::new(resource_type.as_str()),
                label: "R2 Storage".to_owned(),
                expr: sum_of(&components),
                components,
                required_variables,
            },
        )
    }

    fn build_capacity(
        &self,
        _id: &LogicalId,
        _spec: &CloudflareR2Spec,
        _quotas: &Quotas,
    ) -> (r: Option<CapacityModel>) {
        None
    }
}

// ---------------------------------------------------------------------------
// D1 Database
// ---------------------------------------------------------------------------

/// The components of what databases cost.
pub open spec fn d1_components(id: Seq<char>) -> Seq<ComponentView> {
    seq![
        ComponentView {
            name: "Rows read"@,
            expr: crate::cost::over_allowance(
                whole(25_000_000_000),
                per_million(1, 3),
                usage(id, "monthly_rows_read"@),
            ),
        },
        ComponentView {
            name: "Rows written"@,
            expr: crate::cost::over_allowance(
                whole(50_000_000),
                per_million(1, 0),
                usage(id, "monthly_rows_written"@),
            ),
        },
    ]
}

/// The usage that the cost of databases depends on.
pub open spec fn d1_variables(id: Seq<char>) -> Seq<VariableView> {
    seq![
        usage_info(id, "monthly_rows_read"@, "Database rows read per month"@, "count"@),
        usage_info(id, "monthly_rows_written"@, "Database rows written per month"@, "count"@),
    ]
}

/// What databases cost.
pub open spec fn d1_cost(id: Seq<char>, resource_type: Seq<char>) -> ResourceCostView {
    let components = d1_components(id);
    ResourceCostView {
        logical_id: id,
        resource_type,
        label: "D1 Database"@,
        expr: components_sum(components),
        components,
        required_variables: d1_variables(id),
    }
}

/// D1 Database.
#[derive(Debug, Clone, Copy, PartialEq, Eq)]
pub struct CloudflareD1Service;

impl Service for CloudflareD1Service {
    type Spec = CloudflareD1Spec;

    open spec fn service_id(&self) -> Seq<char> {
        "cloudflare.d1"@
    }

    open spec fn runs_on(&self) -> Provider {
        Provider::Cloudflare
    }

    open spec fn reads(&self, spec: JsonView) -> Result<CloudflareD1Spec, Seq<char>> {
        match no_description(spec, "struct CloudflareD1Spec"@) {
            None => Ok(CloudflareD1Spec {}),
            Some(e) => Err(e),
        }
    }

    open spec fn cost(
        &self,
        id: Seq<char>,
        resource_type: Seq<char>,
        spec: CloudflareD1Spec,
        pricing: CatalogHandle,
    ) -> Result<ResourceCostView, CostErrorView> {
        Ok(d1_cost(id, resource_type))
    }

    open spec fn capacity(
        &self,
        id: Seq<char>,
        spec: CloudflareD1Spec,
        quotas: Seq<(Seq<char>, NumberView)>,
    ) -> Option<CapacityView> {
        None
    }

    fn id(&self) -> (r: &'static str) {
        "cloudflare.d1"
    }

    fn provider(&self) -> (r: Provider) {
        Provider::Cloudflare
    }

    fn decode(&self, spec: &Json) -> (r: Result<CloudflareD1Spec, String>) {
        match find_description(spec, "struct CloudflareD1Spec") {
            None => Ok(CloudflareD1Spec {}),
            Some(e) => Err(e),
        }
    }

    fn build_cost(
        &self,
        id: &LogicalId,
        resource_type: &ResourceType,
        _spec: &CloudflareD1Spec,
        _pricing: &CatalogHandle,
    ) -> (r: Result<ResourceCost, CostError>) {
        let mut components: Vec<CostComponent> = Vec::new();
        components.push(
            component(
                "Rows read",
                priced_over(
                    whole(25_000_000_000),
                    per_million(1, 3),
                    Expr::variable(id.var("monthly_rows_read")),
                ),
            ),
        );
        components.push(
            component(
                "Rows written",
                priced_over(
                    whole(50_000_000),
                    per_million(1, 0),
                    Expr::variable(id.var("monthly_rows_written")),
                ),
            ),
        );
        let mut required_variables: Vec<VariableInfo> = Vec::new();
        required_variables.push(
            variable_info(id, "monthly_rows_read", "Database rows read per month", "count"),
        );
        required_variables.push(
            variable_info(id, "monthly_rows_written", "Database rows written per month", "count"),
        );
        proof {
            assert(components@.map_values(|c: CostComponent| c@) =~= d1_components(id@));
            assert(required_variables@.map_values(|v: VariableInfo| v@) =~= d1_variables(id@));
        }
        Ok(
            ResourceCost {
                logical_id: id.clone(),
                resource_type: ResourceType::new(resource_type.as_str()),
                label: "D1 Database".to_owned(),
                expr: sum_of(&components),
                components,
                required_variables,
            },
        )
    }

    fn build_capacity(
        &self,
        _id: &LogicalId,
        _spec: &CloudflareD1Spec,
        _quotas: &Quotas,
    ) -> (r: Option<CapacityModel>) {
        None
    }
}

// ---------------------------------------------------------------------------
// Durable Objects
// ---------------------------------------------------------------------------

/// The components of what durable objects cost.
pub open spec fn durable_object_components(id: Seq<char>) -> Seq<ComponentView> {
    seq![
        ComponentView {
            name: "Requests"@,
            expr: crate::cost::over_allowance(
                whole(1_000_000),
                per_million(15, 2),
                usage(id, "monthly_requests"@),
            ),
        },
        ComponentView {
            name: "Duration (GB-seconds)"@,
            expr: crate::cost::over_allowance(
                whole(400_000),
                per_million(1250, 2),
                usage(id, "monthly_gb_seconds"@),
            ),
        },
        ComponentView {
            name: "Storage"@,
            expr: crate::cost::over_allowance(whole(1), decimal(20, 2), usage(id, "storage_gb"@)),
        },
    ]
}

/// The usage that the cost of durable objects depends on.
pub open spec fn durable_object_variables(id: Seq<char>) -> Seq<VariableView> {
    seq![
        usage_info(id, "monthly_requests"@, "Requests to Durable Object per month"@, "count"@),
        usage_info(id, "monthly_gb_seconds"@, "Compute duration in GB-seconds per month"@, "GB-seconds"@),
        usage_info(id, "storage_gb"@, "Persistent storage used"@, "GB"@),
    ]
}

/// What durable objects cost.
pub open spec fn durable_object_cost(id: Seq<char>, resource_type: Seq<char>) -> ResourceCostView {
    let components = durable_object_components(id);
    ResourceCostView {
        logical_id: id,
        resource_type,
        label: "Durable Objects"@,
        expr: components_sum(components),
        components,
        required_variables: durable_object_variables(id),
    }
}

/// Durable Objects.
#[derive(Debug, Clone, Copy, PartialEq, Eq)]
pub struct CloudflareDurableObjectService;

impl Service for CloudflareDurableObjectService {
    type Spec = CloudflareDurableObjectSpec;

    open spec fn service_id(&self) -> Seq<char> {
        "cloudflare.durable_object"@
    }

    open spec fn runs_on(&self) -> Provider {
        Provider::Cloudflare
    }

    open spec fn reads(&self, spec: JsonView) -> Result<CloudflareDurableObjectSpec, Seq<char>> {
        match no_description(spec, "struct CloudflareDurableObjectSpec"@) {
            None => Ok(CloudflareDurableObjectSpec {}),
            Some(e) => Err(e),
        }
    }

    open spec fn cost(
        &self,
        id: Seq<char>,
        resource_type: Seq<char>,
        spec: CloudflareDurableObjectSpec,
        pricing: CatalogHandle,
    ) -> Result<ResourceCostView, CostErrorView> {
        Ok(durable_object_cost(id, resource_type))
    }

    open spec fn capacity(
        &self,
        id: Seq<char>,
        spec: CloudflareDurableObjectSpec,
        quotas: Seq<(Seq<char>, NumberView)>,
    ) -> Option<CapacityView> {
        None
    }

    fn id(&self) -> (r: &'static str) {
        "cloudflare.durable_object"
    }

    fn provider(&self) -> (r: Provider) {
        Provider::Cloudflare
    }

    fn decode(&self, spec: &Json) -> (r: Result<CloudflareDurableObjectSpec, String>) {
        match find_description(spec, "struct CloudflareDurableObjectSpec") {
            None => Ok(CloudflareDurableObjectSpec {}),
            Some(e) => Err(e),
        }
    }

    fn build_cost(
        &self,
        id: &LogicalId,
        resource_type: &ResourceType,
        _spec: &CloudflareDurableObjectSpec,
        _pricing: &CatalogHandle,
    ) -> (r: Result<ResourceCost, CostError>) {
        let mut components: Vec<CostComponent> = Vec::new();
        components.push(
            component(
                "Requests",
                priced_over(
                    whole(1_000_000),
                    per_million(15, 2),
                    Expr::variable(id.var("monthly_requests")),
                ),
            ),
        );
        components.push(
            component(
                "Duration (GB-seconds)",
                priced_over(
                    whole(400_000),
                    per_million(1250, 2),
                    Expr::variable(id.var("monthly_gb_seconds")),
                ),
            ),
        );
        components.push(
            component(
                "Storage",
                priced_over(
                    whole(1),
                    decimal(20, 2),
                    Expr::variable(id.var("storage_gb")),
                ),
            ),
        );
        let mut required_variables: Vec<VariableInfo> = Vec::new();
        required_variables.push(
            variable_info(id, "monthly_requests", "Requests to Durable Object per month", "count"),
        );
        required_variables.push(
            variable_info(
                id,
                "monthly_gb_seconds",
                "Compute duration in GB-seconds per month",
                "GB-seconds",
            ),
        );
        required_variables.push(variable_info(id, "storage_gb", "Persistent storage used", "GB"));
        proof {
            assert(components@.map_values(|c: CostComponent| c@) =~= durable_object_components(id@));
            assert(required_variables@.map_values(|v: VariableInfo| v@) =~= durable_object_variables(id@));
        }
        Ok(
            ResourceCost {
                logical_id: id.clone(),
                resource_type: ResourceType::new(resource_type.as_str()),
                label: "Durable Objects".to_owned(),
                expr: sum_of(&components),
                components,
                required_variables,
            },
        )
    }

    fn build_capacity(
        &self,
        _id: &LogicalId,
        _spec: &CloudflareDurableObjectSpec,
        _quotas: &Quotas,
    ) -> (r: Option<CapacityModel>) {
        None
    }
}

// ---------------------------------------------------------------------------
// Queues
// ---------------------------------------------------------------------------

/// The components of what queues cost.
pub open spec fn queue_components(id: Seq<char>) -> Seq<ComponentView> {
    seq![
        ComponentView {
            name: "Message operations"@,
            expr: crate::cost::over_allowance(
                whole(1_000_000),
                per_million(40, 2),
                CostExprView::Product(
                    seq![usage(id, "monthly_messages"@), CostExprView::Constant(whole(2))],
                ),
            ),
        },
    ]
}

/// The usage that the cost of queues depends on.
pub open spec fn queue_variables(id: Seq<char>) -> Seq<VariableView> {
    seq![
        usage_info(id, "monthly_messages"@, "Messages published per month"@, "count"@),
    ]
}

/// What queues cost.
pub open spec fn queue_cost(id: Seq<char>, resource_type: Seq<char>) -> ResourceCostView {
    let components = queue_components(id);
    ResourceCostView {
        logical_id: id,
        resource_type,
        label: "Queues"@,
        expr: components[0].expr,
        components,
        required_variables: queue_variables(id),
    }
}

/// Queues. A message is published and delivered.
#[derive(Debug, Clone, Copy, PartialEq, Eq)]
pub struct CloudflareQueueService;

impl Service for CloudflareQueueService {
    type Spec = CloudflareQueueSpec;

    open spec fn service_id(&self) -> Seq<char> {
        "cloudflare.queue"@
    }

    open spec fn runs_on(&self) -> Provider {
        Provider::Cloudflare
    }

    open spec fn reads(&self, spec: JsonView) -> Result<CloudflareQueueSpec, Seq<char>> {
        match no_description(spec, "struct CloudflareQueueSpec"@) {
            None => Ok(CloudflareQueueSpec {}),
            Some(e) => Err(e),
        }
    }

    open spec fn cost(
        &self,
        id: Seq<char>,
        resource_type: Seq<char>,
        spec: CloudflareQueueSpec,
        pricing: CatalogHandle,
    ) -> Result<ResourceCostView, CostErrorView> {
        Ok(queue_cost(id, resource_type))
    }

    open spec fn capacity(
        &self,
        id: Seq<char>,
        spec: CloudflareQueueSpec,
        quotas: Seq<(Seq<char>, NumberView)>,
    ) -> Option<CapacityView> {
        None
    }

    fn id(&self) -> (r: &'static str) {
        "cloudflare.queue"
    }

    fn provider(&self) -> (r: Provider) {
        Provider::Cloudflare
    }

    fn decode(&self, spec: &Json) -> (r: Result<CloudflareQueueSpec, String>) {
        match find_description(spec, "struct CloudflareQueueSpec") {
            None => Ok(CloudflareQueueSpec {}),
            Some(e) => Err(e),
        }
    }

    fn build_cost(
        &self,
        id: &LogicalId,
        resource_type: &ResourceType,
        _spec: &CloudflareQueueSpec,
        _pricing: &CatalogHandle,
    ) -> (r: Result<ResourceCost, CostError>) {
        let mut factors: Vec<Expr> = Vec::new();
        factors.push(Expr::variable(id.var("monthly_messages")));
        factors.push(Expr::constant(whole(2)));
        assert(crate::cost::expr_views(factors@) =~= seq![
            usage(id@, "monthly_messages"@),
            CostExprView::Constant(whole(2)),
        ]);
        let operations = Expr::product(factors);
        let mut components: Vec<CostComponent> = Vec::new();
        components.push(
            component(
                "Message operations",
                priced_over(
                    whole(1_000_000),
                    per_million(40, 2),
                    operations,
                ),
            ),
        );
        let mut required_variables: Vec<VariableInfo> = Vec::new();
        required_variables.push(
            variable_info(id, "monthly_messages", "Messages published per month", "count"),
        );
        proof {
            assert(components@.map_values(|c: CostComponent| c@) =~= queue_components(id@));
            assert(required_variables@.map_values(|v: VariableInfo| v@) =~= queue_variables(id@));
        }
        Ok(
            ResourceCost {
                logical_id: id.clone(),
                resource_type: ResourceType::new(resource_type.as_str()),
                label: "Queues".to_owned(),
                expr: (&components[0].expr).clone(),
                components,
                required_variables,
            },
        )
    }

    fn build_capacity(
        &self,
        _id: &LogicalId,
        _spec: &CloudflareQueueSpec,
        _quotas: &Quotas,
    ) -> (r: Option<CapacityModel>) {
        None
    }
}

// ---------------------------------------------------------------------------
// The services together
// ---------------------------------------------------------------------------

/// A service of Cloudflare.
pub enum CloudflareService {
    Worker(ServiceAdapter<CloudflareWorkerService>),
    Kv(ServiceAdapter<CloudflareKvService>),
    R2(ServiceAdapter<CloudflareR2Service>),
    D1(ServiceAdapter<CloudflareD1Service>),
    Queue(ServiceAdapter<CloudflareQueueService>),
    DurableObject(ServiceAdapter<CloudflareDurableObjectService>),
}

impl AnyService for CloudflareService {
    open spec fn name(&self) -> Seq<char> {
        match self {
            CloudflareService::Worker(s) => s.name(),
            CloudflareService::Kv(s) => s.name(),
            CloudflareService::R2(s) => s.name(),
            CloudflareService::D1(s) => s.name(),
            CloudflareService::Queue(s) => s.name(),
            CloudflareService::DurableObject(s) => s.name(),
        }
    }

    open spec fn run_by(&self) -> Provider {
        match self {
            CloudflareService::Worker(s) => s.run_by(),
            CloudflareService::Kv(s) => s.run_by(),
            CloudflareService::R2(s) => s.run_by(),
            CloudflareService::D1(s) => s.run_by(),
            CloudflareService::Queue(s) => s.run_by(),
            CloudflareService::DurableObject(s) => s.run_by(),
        }
    }

    open spec fn shell_cost(
        &self,
        id: Seq<char>,
        resource_type: Seq<char>,
        shell: ShellView,
        pricing: CatalogHandle,
    ) -> Result<ResourceCostView, CostErrorView> {
        match self {
            CloudflareService::Worker(s) => s.shell_cost(id, resource_type, shell, pricing),
            CloudflareService::Kv(s) => s.shell_cost(id, resource_type, shell, pricing),
            CloudflareService::R2(s) => s.shell_cost(id, resource_type, shell, pricing),
            CloudflareService::D1(s) => s.shell_cost(id, resource_type, shell, pricing),
            CloudflareService::Queue(s) => s.shell_cost(id, resource_type, shell, pricing),
            CloudflareService::DurableObject(s) => s.shell_cost(id, resource_type, shell, pricing),
        }
    }

    open spec fn shell_capacity(
        &self,
        id: Seq<char>,
        shell: ShellView,
        quotas: Seq<(Seq<char>, NumberView)>,
    ) -> Option<CapacityView> {
        match self {
            CloudflareService::Worker(s) => s.shell_capacity(id, shell, quotas),
            CloudflareService::Kv(s) => s.shell_capacity(id, shell, quotas),
            CloudflareService::R2(s) => s.shell_capacity(id, shell, quotas),
            CloudflareService::D1(s) => s.shell_capacity(id, shell, quotas),
            CloudflareService::Queue(s) => s.shell_capacity(id, shell, quotas),
            CloudflareService::DurableObject(s) => s.shell_capacity(id, shell, quotas),
        }
    }

    fn id(&self) -> (r: &str) {
        match self {
            CloudflareService::Worker(s) => s.id(),
            CloudflareService::Kv(s) => s.id(),
            CloudflareService::R2(s) => s.id(),
            CloudflareService::D1(s) => s.id(),
            CloudflareService::Queue(s) => s.id(),
            CloudflareService::DurableObject(s) => s.id(),
        }
    }

    fn provider(&self) -> (r: Provider) {
        match self {
            CloudflareService::Worker(s) => s.provider(),
            CloudflareService::Kv(s) => s.provider(),
            CloudflareService::R2(s) => s.provider(),
            CloudflareService::D1(s) => s.provider(),
            CloudflareService::Queue(s) => s.provider(),
            CloudflareService::DurableObject(s) => s.provider(),
        }
    }

    fn build_cost(
        &self,
        id: &LogicalId,
        resource_type: &ResourceType,
        shell: &ResourceShell,
        pricing: &CatalogHandle,
    ) -> (r: Result<ResourceCost, CostError>) {
        match self {
            CloudflareService::Worker(s) => s.build_cost(id, resource_type, shell, pricing),
            CloudflareService::Kv(s) => s.build_cost(id, resource_type, shell, pricing),
            CloudflareService::R2(s) => s.build_cost(id, resource_type, shell, pricing),
            CloudflareService::D1(s) => s.build_cost(id, resource_type, shell, pricing),
            CloudflareService::Queue(s) => s.build_cost(id, resource_type, shell, pricing),
            CloudflareService::DurableObject(s) => s.build_cost(id, resource_type, shell, pricing),
        }
    }

    fn build_capacity(&self, id: &LogicalId, shell: &ResourceShell, quotas: &Quotas) -> (r: Option<CapacityModel>) {
        match self {
            CloudflareService::Worker(s) => s.build_capacity(id, shell, quotas),
            CloudflareService::Kv(s) => s.build_capacity(id, shell, quotas),
            CloudflareService::R2(s) => s.build_capacity(id, shell, quotas),
            CloudflareService::D1(s) => s.build_capacity(id, shell, quotas),
            CloudflareService::Queue(s) => s.build_capacity(id, shell, quotas),
            CloudflareService::DurableObject(s) => s.build_capacity(id, shell, quotas),
        }
    }
}

// ---------------------------------------------------------------------------
// Laws
// ---------------------------------------------------------------------------

/// The JSON value that stands for a worker is read back as that worker.
pub proof fn law_worker_json_reads_back(spec: CloudflareWorkerSpec)
    ensures
        worker_of(worker_json(spec)) == Ok::<CloudflareWorkerSpec, Seq<char>>(spec),
{
    let m = worker_json(spec)->Object_0;
    crate::strmap::lemma_lookup_at(m, "usage_model"@, 0);
    reveal_strlit("Standard");
    reveal_strlit("Bundled");
    assert("Standard"@.len() != "Bundled"@.len());
}

/// A cost is the sum of its components, for each service but queues, whose one
/// component is the cost.
pub proof fn law_costs_are_sums(
    id: Seq<char>,
    resource_type: Seq<char>,
    spec: CloudflareWorkerSpec,
)
    ensures
        worker_cost(id, resource_type, spec).expr == components_sum(
            worker_cost(id, resource_type, spec).components,
        ),
        kv_cost(id, resource_type).expr == components_sum(kv_cost(id, resource_type).components),
        r2_cost(id, resource_type).expr == components_sum(r2_cost(id, resource_type).components),
        d1_cost(id, resource_type).expr == components_sum(d1_cost(id, resource_type).components),
        durable_object_cost(id, resource_type).expr == components_sum(
            durable_object_cost(id, resource_type).components,
        ),
        queue_cost(id, resource_type).components.len() == 1,
        queue_cost(id, resource_type).expr == queue_cost(id, resource_type).components[0].expr,
{
}

} // verus!
