//! What Cloudflare resources cost, for every usage.

use vstd::prelude::*;

use crate::amount::Amount;
use crate::cost::CostExprView;
use crate::cost::ResourceCostView;
use crate::cost::Tier;
use crate::pricing::catalog::CatalogHandle;
use crate::service::api::Service;
use crate::service::error::CostErrorView;
use crate::wrangler::services::CloudflareD1Service;
use crate::wrangler::services::CloudflareD1Spec;
use crate::wrangler::services::CloudflareDurableObjectService;
use crate::wrangler::services::CloudflareDurableObjectSpec;
use crate::wrangler::services::CloudflareKvService;
use crate::wrangler::services::CloudflareKvSpec;
use crate::wrangler::services::CloudflareQueueService;
use crate::wrangler::services::CloudflareQueueSpec;
use crate::wrangler::services::CloudflareR2Service;
use crate::wrangler::services::CloudflareR2Spec;
use crate::wrangler::services::CloudflareUsageModel;
use crate::wrangler::services::CloudflareWorkerService;
use crate::wrangler::services::CloudflareWorkerSpec;

verus! {

// ---------------------------------------------------------------------------
// Values
// ---------------------------------------------------------------------------

/// A power of ten.
pub open spec fn ten_to(n: nat) -> nat
    decreases n,
{
    if n == 0 {
        1
    } else {
        10 * ten_to((n - 1) as nat)
    }
}

/// The number that an amount is. One that is held by its bit pattern is not
/// told here.
pub open spec fn amount_value(a: Amount) -> real {
    match a {
        Amount::Decimal { units, scale, per } => (units as real) / (ten_to(scale as nat) as real) / (
        per as real),
        Amount::Bits(_) => arbitrary(),
    }
}

/// What `x` units cost that are charged tier by tier, of which the first `from`
/// are charged already.
pub open spec fn tiers_value(tiers: Seq<Tier>, x: real, from: real) -> real
    decreases tiers.len(),
{
    if tiers.len() == 0 {
        0 as real
    } else {
        let price = amount_value(tiers[0].unit_price);
        match tiers[0].upper_limit {
            None => if x > from {
                (x - from) * price
            } else {
                0 as real
            },
            Some(limit) => {
                let to = amount_value(limit);
                let top = if x < to {
                    x
                } else {
                    to
                };
                let here = if top > from {
                    (top - from) * price
                } else {
                    0 as real
                };
                here + tiers_value(
                    tiers.drop_first(),
                    x,
                    if to > from {
                        to
                    } else {
                        from
                    },
                )
            },
        }
    }
}

/// What an expression is worth where each usage variable has a value.
pub open spec fn value_of(e: CostExprView, usage: spec_fn(Seq<char>) -> real) -> real
    decreases e, 0int,
{
    match e {
        CostExprView::Constant(a) => amount_value(a),
        CostExprView::Variable(n) => usage(n),
        CostExprView::Sum(s) => sum_value(s, usage),
        CostExprView::Product(s) => product_value(s, usage),
        CostExprView::Tiered { tiers, input } => tiers_value(
            tiers,
            value_of(*input, usage),
            0 as real,
        ),
    }
}

/// The sum of what expressions are worth.
pub open spec fn sum_value(s: Seq<CostExprView>, usage: spec_fn(Seq<char>) -> real) -> real
    decreases s, 1int,
{
    if s.len() == 0 {
        0 as real
    } else {
        sum_value(s.drop_last(), usage) + value_of(s.last(), usage)
    }
}

/// The product of what expressions are worth.
pub open spec fn product_value(s: Seq<CostExprView>, usage: spec_fn(Seq<char>) -> real) -> real
    decreases s, 1int,
{
    if s.len() == 0 {
        1 as real
    } else {
        product_value(s.drop_last(), usage) * value_of(s.last(), usage)
    }
}

/// A usage variable occurs in an expression.
pub open spec fn occurs(e: CostExprView, name: Seq<char>) -> bool
    decreases e,
{
    match e {
        CostExprView::Constant(_) => false,
        CostExprView::Variable(n) => n == name,
        CostExprView::Sum(s) => exists|i: int| 0 <= i < s.len() && occurs(#[trigger] s[i], name),
        CostExprView::Product(s) => exists|i: int|
            0 <= i < s.len() && occurs(#[trigger] s[i], name),
        CostExprView::Tiered { input, .. } => occurs(*input, name),
    }
}

/// What `x` units cost of which the first `free` are free and each other one
/// costs `price`.
pub open spec fn charge(x: real, free: real, price: real) -> real {
    if x > free {
        (x - free) * price
    } else {
        0 as real
    }
}

proof fn lemma_over(
    free: Amount,
    price: Amount,
    input: CostExprView,
    usage: spec_fn(Seq<char>) -> real,
)
    requires
        amount_value(free) > 0 as real,
    ensures
        value_of(crate::cost::over_allowance(free, price, input), usage) == charge(
            value_of(input, usage),
            amount_value(free),
            amount_value(price),
        ),
{
    let e = crate::cost::over_allowance(free, price, input);
    let x = value_of(input, usage);
    let tiers = e->tiers;
    let rest = tiers.drop_first();
    let to = amount_value(free);
    assert(rest[0] == tiers[1]);
    assert(tiers[0].upper_limit == Some(free));
    assert(tiers[1].upper_limit is None);
    let zero = amount_value(tiers[0].unit_price);
    lemma_whole(0);
    assert(zero == 0 as real);
    let top = if x < to {
        x
    } else {
        to
    };
    assert((top - 0 as real) * zero == 0 as real) by (nonlinear_arith)
        requires
            zero == 0 as real,
    ;
    assert(tiers_value(rest, x, to) == charge(x, to, amount_value(price)));
    assert(tiers_value(tiers, x, 0 as real) == tiers_value(rest, x, to));
}

proof fn lemma_whole(n: u64)
    ensures
        amount_value(crate::amount::spec_whole(n)) == n as real,
{
    assert(ten_to(0) == 1);
    let x = n as real;
    assert(x / (1 as real) / (1 as real) == x) by (nonlinear_arith);
}

proof fn lemma_decimal(n: u64, scale: u32)
    ensures
        amount_value(crate::amount::spec_decimal(n, scale)) == (n as real) / (ten_to(
            scale as nat,
        ) as real),
{
    let x = (n as real) / (ten_to(scale as nat) as real);
    assert(x / (1 as real) == x) by (nonlinear_arith);
}

proof fn lemma_tens()
    ensures
        ten_to(0) == 1,
        ten_to(1) == 10,
        ten_to(2) == 100,
        ten_to(3) == 1000,
{
    reveal_with_fuel(ten_to, 4);
}

proof fn lemma_sum_two(a: CostExprView, b: CostExprView, usage: spec_fn(Seq<char>) -> real)
    ensures
        value_of(CostExprView::Sum(seq![a, b]), usage) == value_of(a, usage) + value_of(b, usage),
{
    let s = seq![a, b];
    assert(seq![a].drop_last() =~= Seq::empty());
    assert(sum_value(Seq::empty(), usage) == 0 as real);
    assert(sum_value(seq![a], usage) == value_of(a, usage));
    assert(s.drop_last() =~= seq![a]);
    assert(sum_value(s, usage) == value_of(a, usage) + value_of(b, usage));
}

proof fn lemma_sum_three(
    a: CostExprView,
    b: CostExprView,
    c: CostExprView,
    usage: spec_fn(Seq<char>) -> real,
)
    ensures
        value_of(CostExprView::Sum(seq![a, b, c]), usage) == value_of(a, usage) + value_of(b, usage)
            + value_of(c, usage),
{
    lemma_sum_two(a, b, usage);
    let s = seq![a, b, c];
    assert(s.drop_last() =~= seq![a, b]);
    assert(value_of(CostExprView::Sum(seq![a, b]), usage) == sum_value(seq![a, b], usage));
    assert(sum_value(s, usage) == value_of(a, usage) + value_of(b, usage) + value_of(c, usage));
}

proof fn lemma_product_two(a: CostExprView, b: CostExprView, usage: spec_fn(Seq<char>) -> real)
    ensures
        value_of(CostExprView::Product(seq![a, b]), usage) == value_of(a, usage) * value_of(
            b,
            usage,
        ),
{
    let s = seq![a, b];
    let x = value_of(a, usage);
    assert((1 as real) * x == x) by (nonlinear_arith);
    assert(seq![a].drop_last() =~= Seq::empty());
    assert(product_value(Seq::empty(), usage) == 1 as real);
    assert(product_value(seq![a], usage) == x);
    assert(s.drop_last() =~= seq![a]);
    assert(product_value(s, usage) == x * value_of(b, usage));
}

// ---------------------------------------------------------------------------
// Costs
// ---------------------------------------------------------------------------

/// A worker costs five dollars, and what its requests over ten million and its
/// milliseconds of computation over thirty million cost: under the standard
/// model 0.30 and 0.02 dollars for each million, under the bundled one 0.50
/// dollars and nothing. The computation is the number of requests times the
/// average for each.
pub proof fn law_worker_cost(
    id: Seq<char>,
    resource_type: Seq<char>,
    spec: CloudflareWorkerSpec,
    pricing: CatalogHandle,
    usage: spec_fn(Seq<char>) -> real,
)
    ensures
        ({
            let requests = usage(id + "_"@ + "monthly_requests"@);
            let cpu = usage(id + "_"@ + "avg_cpu_ms"@);
            let standard = spec.usage_model == CloudflareUsageModel::Standard;
            let request_price = if standard {
                (30 as real) / (100 as real) / (1_000_000 as real)
            } else {
                (50 as real) / (100 as real) / (1_000_000 as real)
            };
            let cpu_price = if standard {
                (2 as real) / (100 as real) / (1_000_000 as real)
            } else {
                0 as real
            };
            let r = CloudflareWorkerService.cost(id, resource_type, spec, pricing);
            &&& r is Ok
            &&& r->Ok_0.logical_id == id
            &&& r->Ok_0.resource_type == resource_type
            &&& r->Ok_0.components.len() == 3
            &&& r->Ok_0.components[0].name == "Paid plan base"@
            &&& value_of(r->Ok_0.components[0].expr, usage) == 5 as real
            &&& r->Ok_0.components[1].name == "Requests (over 10M)"@
            &&& value_of(r->Ok_0.components[1].expr, usage) == charge(
                requests,
                10_000_000 as real,
                request_price,
            )
            &&& r->Ok_0.components[2].name == "CPU time (over 30M ms)"@
            &&& value_of(r->Ok_0.components[2].expr, usage) == charge(
                requests * cpu,
                30_000_000 as real,
                cpu_price,
            )
            &&& value_of(r->Ok_0.expr, usage) == (5 as real) + charge(
                requests,
                10_000_000 as real,
                request_price,
            ) + charge(requests * cpu, 30_000_000 as real, cpu_price)
            &&& r->Ok_0.label == (if standard {
                "Workers ("@ + "Standard"@ + ")"@
            } else {
                "Workers ("@ + "Bundled"@ + ")"@
            })
        }),
{
    lemma_tens();
    let requests = crate::wrangler::services::usage(id, "monthly_requests"@);
    let cpu = crate::wrangler::services::usage(id, "avg_cpu_ms"@);
    let prices = crate::wrangler::services::worker_prices(spec.usage_model);
    let time = CostExprView::Product(seq![requests, cpu]);
    lemma_product_two(requests, cpu, usage);
    lemma_whole(5);
    lemma_whole(0);
    lemma_whole(10_000_000);
    lemma_whole(30_000_000);
    lemma_over(crate::amount::spec_whole(10_000_000), prices.0, requests, usage);
    lemma_over(crate::amount::spec_whole(30_000_000), prices.1, time, usage);
    let c = crate::wrangler::services::worker_components(id, spec);
    assert(c.map_values(|x: crate::cost::ComponentView| x.expr) =~= seq![
        c[0].expr,
        c[1].expr,
        c[2].expr,
    ]);
    lemma_sum_three(c[0].expr, c[1].expr, c[2].expr, usage);
}

/// Reads over ten million cost 0.50 dollars for each million, and writes over a
/// million five dollars.
pub proof fn law_kv_cost(
    id: Seq<char>,
    resource_type: Seq<char>,
    spec: CloudflareKvSpec,
    pricing: CatalogHandle,
    usage: spec_fn(Seq<char>) -> real,
)
    ensures
        ({
            let r = CloudflareKvService.cost(id, resource_type, spec, pricing);
            let c0 = charge(
                usage(id + "_"@ + "monthly_reads"@),
                10_000_000 as real,
                (50 as real) / (100 as real) / (1_000_000 as real),
            );
            let c1 = charge(
                usage(id + "_"@ + "monthly_writes"@),
                1_000_000 as real,
                (5 as real) / (1 as real) / (1_000_000 as real),
            );
            &&& r is Ok
            &&& r->Ok_0.logical_id == id
            &&& r->Ok_0.resource_type == resource_type
            &&& r->Ok_0.label == "Workers KV"@
            &&& r->Ok_0.components.len() == 2
            &&& r->Ok_0.components[0].name == "Reads"@
            &&& value_of(r->Ok_0.components[0].expr, usage) == c0
            &&& r->Ok_0.components[1].name == "Writes"@
            &&& value_of(r->Ok_0.components[1].expr, usage) == c1
            &&& value_of(r->Ok_0.expr, usage) == c0 + c1
        }),
{
    lemma_tens();
    let v0 = crate::wrangler::services::usage(id, "monthly_reads"@);
    lemma_whole(10_000_000);
    lemma_over(
        crate::amount::spec_whole(10_000_000),
        crate::amount::spec_per_million(50, 2),
        v0,
        usage,
    );
    let v1 = crate::wrangler::services::usage(id, "monthly_writes"@);
    lemma_whole(1_000_000);
    lemma_over(
        crate::amount::spec_whole(1_000_000),
        crate::amount::spec_per_million(5, 0),
        v1,
        usage,
    );
    let c = crate::wrangler::services::kv_components(id);
    assert(c.map_values(|x: crate::cost::ComponentView| x.expr) =~= seq![c[0].expr, c[1].expr]);
    lemma_sum_two(c[0].expr, c[1].expr, usage);
}

/// Storage over ten GB costs 0.015 dollars for each, writes and lists over a million
/// 4.50 dollars for each million, and reads over ten million 0.36 dollars.
pub proof fn law_r2_cost(
    id: Seq<char>,
    resource_type: Seq<char>,
    spec: CloudflareR2Spec,
    pricing: CatalogHandle,
    usage: spec_fn(Seq<char>) -> real,
)
    ensures
        ({
            let r = CloudflareR2Service.cost(id, resource_type, spec, pricing);
            let c0 = charge(
                usage(id + "_"@ + "storage_gb"@),
                10 as real,
                (15 as real) / (1000 as real),
            );
            let c1 = charge(
                usage(id + "_"@ + "class_a_ops"@),
                1_000_000 as real,
                (450 as real) / (100 as real) / (1_000_000 as real),
            );
            let c2 = charge(
                usage(id + "_"@ + "class_b_ops"@),
                10_000_000 as real,
                (36 as real) / (100 as real) / (1_000_000 as real),
            );
            &&& r is Ok
            &&& r->Ok_0.logical_id == id
            &&& r->Ok_0.resource_type == resource_type
            &&& r->Ok_0.label == "R2 Storage"@
            &&& r->Ok_0.components.len() == 3
            &&& r->Ok_0.components[0].name == "Storage"@
            &&& value_of(r->Ok_0.components[0].expr, usage) == c0
            &&& r->Ok_0.components[1].name == "Class A ops (write/list)"@
            &&& value_of(r->Ok_0.components[1].expr, usage) == c1
            &&& r->Ok_0.components[2].name == "Class B ops (read)"@
            &&& value_of(r->Ok_0.components[2].expr, usage) == c2
            &&& value_of(r->Ok_0.expr, usage) == c0 + c1 + c2
        }),
{
    lemma_tens();
    let v0 = crate::wrangler::services::usage(id, "storage_gb"@);
    lemma_whole(10);
    lemma_decimal(15, 3);
    lemma_over(
        crate::amount::spec_whole(10),
        crate::amount::spec_decimal(15, 3),
        v0,
        usage,
    );
    let v1 = crate::wrangler::services::usage(id, "class_a_ops"@);
    lemma_whole(1_000_000);
    lemma_over(
        crate::amount::spec_whole(1_000_000),
        crate::amount::spec_per_million(450, 2),
        v1,
        usage,
    );
    let v2 = crate::wrangler::services::usage(id, "class_b_ops"@);
    lemma_whole(10_000_000);
    lemma_over(
        crate::amount::spec_whole(10_000_000),
        crate::amount::spec_per_million(36, 2),
        v2,
        usage,
    );
    let c = crate::wrangler::services::r2_components(id);
    assert(c.map_values(|x: crate::cost::ComponentView| x.expr) =~= seq![c[0].expr, c[1].expr, c[2].expr]);
    lemma_sum_three(c[0].expr, c[1].expr, c[2].expr, usage);
}

/// Rows read over 25 billion cost 0.001 dollars for each million, and rows written
/// over fifty million one dollar.
pub proof fn law_d1_cost(
    id: Seq<char>,
    resource_type: Seq<char>,
    spec: CloudflareD1Spec,
    pricing: CatalogHandle,
    usage: spec_fn(Seq<char>) -> real,
)
    ensures
        ({
            let r = CloudflareD1Service.cost(id, resource_type, spec, pricing);
            let c0 = charge(
                usage(id + "_"@ + "monthly_rows_read"@),
                25_000_000_000 as real,
                (1 as real) / (1000 as real) / (1_000_000 as real),
            );
            let c1 = charge(
                usage(id + "_"@ + "monthly_rows_written"@),
                50_000_000 as real,
                (1 as real) / (1 as real) / (1_000_000 as real),
            );
            &&& r is Ok
            &&& r->Ok_0.logical_id == id
            &&& r->Ok_0.resource_type == resource_type
            &&& r->Ok_0.label == "D1 Database"@
            &&& r->Ok_0.components.len() == 2
            &&& r->Ok_0.components[0].name == "Rows read"@
            &&& value_of(r->Ok_0.components[0].expr, usage) == c0
            &&& r->Ok_0.components[1].name == "Rows written"@
            &&& value_of(r->Ok_0.components[1].expr, usage) == c1
            &&& value_of(r->Ok_0.expr, usage) == c0 + c1
        }),
{
    lemma_tens();
    let v0 = crate::wrangler::services::usage(id, "monthly_rows_read"@);
    lemma_whole(25_000_000_000);
    lemma_over(
        crate::amount::spec_whole(25_000_000_000),
        crate::amount::spec_per_million(1, 3),
        v0,
        usage,
    );
    let v1 = crate::wrangler::services::usage(id, "monthly_rows_written"@);
    lemma_whole(50_000_000);
    lemma_over(
        crate::amount::spec_whole(50_000_000),
        crate::amount::spec_per_million(1, 0),
        v1,
        usage,
    );
    let c = crate::wrangler::services::d1_components(id);
    assert(c.map_values(|x: crate::cost::ComponentView| x.expr) =~= seq![c[0].expr, c[1].expr]);
    lemma_sum_two(c[0].expr, c[1].expr, usage);
}

/// Requests over a million cost 0.15 dollars for each million, GB-seconds over
/// 400,000 12.50 dollars, and storage over one GB 0.20 dollars for each.
pub proof fn law_durable_object_cost(
    id: Seq<char>,
    resource_type: Seq<char>,
    spec: CloudflareDurableObjectSpec,
    pricing: CatalogHandle,
    usage: spec_fn(Seq<char>) -> real,
)
    ensures
        ({
            let r = CloudflareDurableObjectService.cost(id, resource_type, spec, pricing);
            let c0 = charge(
                usage(id + "_"@ + "monthly_requests"@),
                1_000_000 as real,
                (15 as real) / (100 as real) / (1_000_000 as real),
            );
            let c1 = charge(
                usage(id + "_"@ + "monthly_gb_seconds"@),
                400_000 as real,
                (1250 as real) / (100 as real) / (1_000_000 as real),
            );
            let c2 = charge(
                usage(id + "_"@ + "storage_gb"@),
                1 as real,
                (20 as real) / (100 as real),
            );
            &&& r is Ok
            &&& r->Ok_0.logical_id == id
            &&& r->Ok_0.resource_type == resource_type
            &&& r->Ok_0.label == "Durable Objects"@
            &&& r->Ok_0.components.len() == 3
            &&& r->Ok_0.components[0].name == "Requests"@
            &&& value_of(r->Ok_0.components[0].expr, usage) == c0
            &&& r->Ok_0.components[1].name == "Duration (GB-seconds)"@
            &&& value_of(r->Ok_0.components[1].expr, usage) == c1
            &&& r->Ok_0.components[2].name == "Storage"@
            &&& value_of(r->Ok_0.components[2].expr, usage) == c2
            &&& value_of(r->Ok_0.expr, usage) == c0 + c1 + c2
        }),
{
    lemma_tens();
    let v0 = crate::wrangler::services::usage(id, "monthly_requests"@);
    lemma_whole(1_000_000);
    lemma_over(
        crate::amount::spec_whole(1_000_000),
        crate::amount::spec_per_million(15, 2),
        v0,
        usage,
    );
    let v1 = crate::wrangler::services::usage(id, "monthly_gb_seconds"@);
    lemma_whole(400_000);
    lemma_over(
        crate::amount::spec_whole(400_000),
        crate::amount::spec_per_million(1250, 2),
        v1,
        usage,
    );
    let v2 = crate::wrangler::services::usage(id, "storage_gb"@);
    lemma_whole(1);
    lemma_decimal(20, 2);
    lemma_over(
        crate::amount::spec_whole(1),
        crate::amount::spec_decimal(20, 2),
        v2,
        usage,
    );
    let c = crate::wrangler::services::durable_object_components(id);
    assert(c.map_values(|x: crate::cost::ComponentView| x.expr) =~= seq![c[0].expr, c[1].expr, c[2].expr]);
    lemma_sum_three(c[0].expr, c[1].expr, c[2].expr, usage);
}

/// A message is two operations, and operations over a million cost 0.40 dollars for
/// each million.
pub proof fn law_queue_cost(
    id: Seq<char>,
    resource_type: Seq<char>,
    spec: CloudflareQueueSpec,
    pricing: CatalogHandle,
    usage: spec_fn(Seq<char>) -> real,
)
    ensures
        ({
            let r = CloudflareQueueService.cost(id, resource_type, spec, pricing);
            let c0 = charge(
                usage(id + "_"@ + "monthly_messages"@) * (2 as real),
                1_000_000 as real,
                (40 as real) / (100 as real) / (1_000_000 as real),
            );
            &&& r is Ok
            &&& r->Ok_0.logical_id == id
            &&& r->Ok_0.resource_type == resource_type
            &&& r->Ok_0.label == "Queues"@
            &&& r->Ok_0.components.len() == 1
            &&& r->Ok_0.components[0].name == "Message operations"@
            &&& value_of(r->Ok_0.components[0].expr, usage) == c0
            &&& value_of(r->Ok_0.expr, usage) == c0
        }),
{
    lemma_tens();
    let v0 = crate::wrangler::services::usage(id, "monthly_messages"@);
    let t0 = CostExprView::Constant(crate::amount::spec_whole(2));
    lemma_product_two(v0, t0, usage);
    let p0 = CostExprView::Product(seq![v0, t0]);
    lemma_whole(2);
    lemma_whole(1_000_000);
    lemma_over(
        crate::amount::spec_whole(1_000_000),
        crate::amount::spec_per_million(40, 2),
        p0,
        usage,
    );
    let c = crate::wrangler::services::queue_components(id);
}

// ---------------------------------------------------------------------------
// Variables
// ---------------------------------------------------------------------------

/// Every required variable of a cost is one of the resource and occurs in the
/// expression.
pub open spec fn variables_occur(c: ResourceCostView) -> bool {
    forall|i: int|
        0 <= i < c.required_variables.len() ==> occurs(
            c.expr,
            (#[trigger] c.required_variables[i]).name,
        )
}

proof fn lemma_occurs_over(free: Amount, price: Amount, input: CostExprView, name: Seq<char>)
    requires
        occurs(input, name),
    ensures
        occurs(crate::cost::over_allowance(free, price, input), name),
{
}

proof fn lemma_occurs_in(s: Seq<CostExprView>, i: int, name: Seq<char>)
    requires
        0 <= i < s.len(),
        occurs(s[i], name),
    ensures
        occurs(CostExprView::Product(s), name),
        occurs(CostExprView::Sum(s), name),
{
    let p = CostExprView::Product(s);
    let q = CostExprView::Sum(s);
    assert(p->Product_0[i] == s[i]);
    assert(q->Sum_0[i] == s[i]);
    assert(exists|j: int| 0 <= j < s.len() && occurs(#[trigger] s[j], name));
    assert(occurs(p, name));
    assert(occurs(q, name));
}

/// Every variable that the cost of a Cloudflare resource asks for occurs in its
/// expression, and they are the usages that it is charged by.
pub proof fn law_required_variables_occur(
    id: Seq<char>,
    resource_type: Seq<char>,
    worker: CloudflareWorkerSpec,
    kv: CloudflareKvSpec,
    r2: CloudflareR2Spec,
    d1: CloudflareD1Spec,
    object: CloudflareDurableObjectSpec,
    queue: CloudflareQueueSpec,
    pricing: CatalogHandle,
)
    ensures
        variables_occur(
            CloudflareWorkerService.cost(id, resource_type, worker, pricing)->Ok_0,
        ),
        variables_occur(CloudflareKvService.cost(id, resource_type, kv, pricing)->Ok_0),
        variables_occur(CloudflareR2Service.cost(id, resource_type, r2, pricing)->Ok_0),
        variables_occur(CloudflareD1Service.cost(id, resource_type, d1, pricing)->Ok_0),
        variables_occur(
            CloudflareDurableObjectService.cost(id, resource_type, object, pricing)->Ok_0,
        ),
        variables_occur(CloudflareQueueService.cost(id, resource_type, queue, pricing)->Ok_0),
        CloudflareWorkerService.cost(
            id,
            resource_type,
            worker,
            pricing,
        )->Ok_0.required_variables.map_values(|v: crate::cost::VariableView| v.name) == seq![
            id + "_"@ + "monthly_requests"@,
            id + "_"@ + "avg_cpu_ms"@,
        ],
        CloudflareKvService.cost(
            id,
            resource_type,
            kv,
            pricing,
        )->Ok_0.required_variables.map_values(|v: crate::cost::VariableView| v.name) == seq![
            id + "_"@ + "monthly_reads"@,
            id + "_"@ + "monthly_writes"@,
        ],
        CloudflareR2Service.cost(
            id,
            resource_type,
            r2,
            pricing,
        )->Ok_0.required_variables.map_values(|v: crate::cost::VariableView| v.name) == seq![
            id + "_"@ + "storage_gb"@,
            id + "_"@ + "class_a_ops"@,
            id + "_"@ + "class_b_ops"@,
        ],
        CloudflareD1Service.cost(
            id,
            resource_type,
            d1,
            pricing,
        )->Ok_0.required_variables.map_values(|v: crate::cost::VariableView| v.name) == seq![
            id + "_"@ + "monthly_rows_read"@,
            id + "_"@ + "monthly_rows_written"@,
        ],
        CloudflareDurableObjectService.cost(
            id,
            resource_type,
            object,
            pricing,
        )->Ok_0.required_variables.map_values(|v: crate::cost::VariableView| v.name) == seq![
            id + "_"@ + "monthly_requests"@,
            id + "_"@ + "monthly_gb_seconds"@,
            id + "_"@ + "storage_gb"@,
        ],
        CloudflareQueueService.cost(
            id,
            resource_type,
            queue,
            pricing,
        )->Ok_0.required_variables.map_values(|v: crate::cost::VariableView| v.name) == seq![
            id + "_"@ + "monthly_messages"@,
        ],
{
    let zero = crate::amount::spec_whole(0);
    let w = CloudflareWorkerService.cost(id, resource_type, worker, pricing)->Ok_0;
    let ws = w.expr->Sum_0;
    let requests = crate::wrangler::services::usage(id, "monthly_requests"@);
    let cpu = crate::wrangler::services::usage(id, "avg_cpu_ms"@);
    let factors = seq![requests, cpu];
    assert(occurs(factors[1], cpu->Variable_0));
    lemma_occurs_in(factors, 1, cpu->Variable_0);
    lemma_occurs_over(zero, zero, requests, requests->Variable_0);
    assert(occurs(ws[1], requests->Variable_0));
    lemma_occurs_in(ws, 1, requests->Variable_0);
    assert(occurs(ws[2], cpu->Variable_0));
    lemma_occurs_in(ws, 2, cpu->Variable_0);
    let k = CloudflareKvService.cost(id, resource_type, kv, pricing)->Ok_0;
    let x = crate::wrangler::services::usage(id, "monthly_reads"@);
    assert(occurs(x, x->Variable_0));
    assert(*k.expr->Sum_0[0]->input == x);
    assert(occurs(k.expr->Sum_0[0], k.required_variables[0].name));
    lemma_occurs_in(k.expr->Sum_0, 0, k.required_variables[0].name);
    let x = crate::wrangler::services::usage(id, "monthly_writes"@);
    assert(occurs(x, x->Variable_0));
    assert(*k.expr->Sum_0[1]->input == x);
    assert(occurs(k.expr->Sum_0[1], k.required_variables[1].name));
    lemma_occurs_in(k.expr->Sum_0, 1, k.required_variables[1].name);
    let b = CloudflareR2Service.cost(id, resource_type, r2, pricing)->Ok_0;
    let x = crate::wrangler::services::usage(id, "storage_gb"@);
    assert(occurs(x, x->Variable_0));
    assert(*b.expr->Sum_0[0]->input == x);
    assert(occurs(b.expr->Sum_0[0], b.required_variables[0].name));
    lemma_occurs_in(b.expr->Sum_0, 0, b.required_variables[0].name);
    let x = crate::wrangler::services::usage(id, "class_a_ops"@);
    assert(occurs(x, x->Variable_0));
    assert(*b.expr->Sum_0[1]->input == x);
    assert(occurs(b.expr->Sum_0[1], b.required_variables[1].name));
    lemma_occurs_in(b.expr->Sum_0, 1, b.required_variables[1].name);
    let x = crate::wrangler::services::usage(id, "class_b_ops"@);
    assert(occurs(x, x->Variable_0));
    assert(*b.expr->Sum_0[2]->input == x);
    assert(occurs(b.expr->Sum_0[2], b.required_variables[2].name));
    lemma_occurs_in(b.expr->Sum_0, 2, b.required_variables[2].name);
    let d = CloudflareD1Service.cost(id, resource_type, d1, pricing)->Ok_0;
    let x = crate::wrangler::services::usage(id, "monthly_rows_read"@);
    assert(occurs(x, x->Variable_0));
    assert(*d.expr->Sum_0[0]->input == x);
    assert(occurs(d.expr->Sum_0[0], d.required_variables[0].name));
    lemma_occurs_in(d.expr->Sum_0, 0, d.required_variables[0].name);
    let x = crate::wrangler::services::usage(id, "monthly_rows_written"@);
    assert(occurs(x, x->Variable_0));
    assert(*d.expr->Sum_0[1]->input == x);
    assert(occurs(d.expr->Sum_0[1], d.required_variables[1].name));
    lemma_occurs_in(d.expr->Sum_0, 1, d.required_variables[1].name);
    let o = CloudflareDurableObjectService.cost(id, resource_type, object, pricing)->Ok_0;
    let x = crate::wrangler::services::usage(id, "monthly_requests"@);
    assert(occurs(x, x->Variable_0));
    assert(*o.expr->Sum_0[0]->input == x);
    assert(occurs(o.expr->Sum_0[0], o.required_variables[0].name));
    lemma_occurs_in(o.expr->Sum_0, 0, o.required_variables[0].name);
    let x = crate::wrangler::services::usage(id, "monthly_gb_seconds"@);
    assert(occurs(x, x->Variable_0));
    assert(*o.expr->Sum_0[1]->input == x);
    assert(occurs(o.expr->Sum_0[1], o.required_variables[1].name));
    lemma_occurs_in(o.expr->Sum_0, 1, o.required_variables[1].name);
    let x = crate::wrangler::services::usage(id, "storage_gb"@);
    assert(occurs(x, x->Variable_0));
    assert(*o.expr->Sum_0[2]->input == x);
    assert(occurs(o.expr->Sum_0[2], o.required_variables[2].name));
    lemma_occurs_in(o.expr->Sum_0, 2, o.required_variables[2].name);
    let q = CloudflareQueueService.cost(id, resource_type, queue, pricing)->Ok_0;
    let messages = crate::wrangler::services::usage(id, "monthly_messages"@);
    let both = seq![messages, CostExprView::Constant(crate::amount::spec_whole(2))];
    assert(occurs(both[0], messages->Variable_0));
    lemma_occurs_in(both, 0, messages->Variable_0);
}

} // verus!
