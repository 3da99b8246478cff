//! Cost models: expressions over usage variables.

use vstd::prelude::*;

use crate::arch::LogicalId;
use crate::arch::Region;
use crate::arch::ResourceType;
use crate::policy::DiagnosticView;
use crate::policy::IacParseDiagnostic;
use crate::amount::Amount;

verus! {

// ---------------------------------------------------------------------------
// Expressions
// ---------------------------------------------------------------------------

/// One tier of a tiered price: the price of each unit up to the limit.
#[derive(Debug, Clone, Copy, PartialEq, Eq, Structural)]
pub struct Tier {
    pub upper_limit: Option<Amount>,
    pub unit_price: Amount,
}

/// A cost as an expression over usage variables.
#[derive(Debug, PartialEq, Eq)]
pub enum Expr {
    Constant(Amount),
    Variable(String),
    Sum(Vec<Expr>),
    Product(Vec<Expr>),
    /// The price of the units that `input` counts, tier by tier.
    Tiered { tiers: Vec<Tier>, input: Box<Expr> },
}

/// The model of an [`Expr`].
#[verifier::ext_equal]
pub enum CostExprView {
    Constant(Amount),
    Variable(Seq<char>),
    Sum(Seq<CostExprView>),
    Product(Seq<CostExprView>),
    Tiered { tiers: Seq<Tier>, input: Box<CostExprView> },
}

impl Expr {
    /// The model of the expression.
    pub open spec fn view(&self) -> CostExprView
        decreases self,
    {
        match self {
            Expr::Constant(x) => CostExprView::Constant(*x),
            Expr::Variable(s) => CostExprView::Variable(s@),
            Expr::Sum(v) => CostExprView::Sum(
                Seq::new(
                    v@.len(),
                    |i: int|
                        if 0 <= i < v@.len() {
                            v@[i].view()
                        } else {
                            CostExprView::Variable(Seq::empty())
                        },
                ),
            ),
            Expr::Product(v) => CostExprView::Product(
                Seq::new(
                    v@.len(),
                    |i: int|
                        if 0 <= i < v@.len() {
                            v@[i].view()
                        } else {
                            CostExprView::Variable(Seq::empty())
                        },
                ),
            ),
            Expr::Tiered { tiers, input } => CostExprView::Tiered {
                tiers: tiers@,
                input: Box::new(input.view()),
            },
        }
    }
}

/// The models of a sequence of expressions.
pub open spec fn expr_views(v: Seq<Expr>) -> Seq<CostExprView> {
    v.map_values(|e: Expr| e@)
}

impl Clone for Expr {
    fn clone(&self) -> (r: Self)
        ensures
            r@ == self@,
        decreases self,
    {
        match self {
            Expr::Constant(x) => Expr::Constant(*x),
            Expr::Variable(s) => Expr::Variable(s.clone()),
            Expr::Sum(v) => {
                let mut out: Vec<Expr> = Vec::new();
                for i in 0..v.len()
                    invariant
                        self is Sum,
                        self->Sum_0 == v,
                        out@.len() == i,
                        forall|j: int| 0 <= j < i ==> (#[trigger] out@[j])@ == v@[j]@,
                {
                    out.push((&v[i]).clone());
                }
                let r = Expr::Sum(out);
                assert(r@->Sum_0 =~= self@->Sum_0);
                r
            },
            Expr::Product(v) => {
                let mut out: Vec<Expr> = Vec::new();
                for i in 0..v.len()
                    invariant
                        self is Product,
                        self->Product_0 == v,
                        out@.len() == i,
                        forall|j: int| 0 <= j < i ==> (#[trigger] out@[j])@ == v@[j]@,
                {
                    out.push((&v[i]).clone());
                }
                let r = Expr::Product(out);
                assert(r@->Product_0 =~= self@->Product_0);
                r
            },
            Expr::Tiered { tiers, input } => Expr::Tiered {
                tiers: clone_tiers(tiers),
                input: Box::new((&**input).clone()),
            },
        }
    }
}

/// Copies tiers.
pub fn clone_tiers(tiers: &Vec<Tier>) -> (r: Vec<Tier>)
    ensures
        r@ == tiers@,
{
    let mut out: Vec<Tier> = Vec::new();
    for i in 0..tiers.len()
        invariant
            out@ == tiers@.subrange(0, i as int),
    {
        out.push(tiers[i]);
        assert(out@ =~= tiers@.subrange(0, i + 1));
    }
    assert(tiers@.subrange(0, tiers@.len() as int) =~= tiers@);
    out
}

impl Expr {
    /// A constant.
    pub fn constant(x: Amount) -> (r: Expr)
        ensures
            r@ == CostExprView::Constant(x),
    {
        Expr::Constant(x)
    }

    /// A usage variable.
    pub fn variable(name: String) -> (r: Expr)
        ensures
            r@ == CostExprView::Variable(name@),
    {
        Expr::Variable(name)
    }

    /// The sum of terms.
    pub fn sum(terms: Vec<Expr>) -> (r: Expr)
        ensures
            r@ == CostExprView::Sum(expr_views(terms@)),
    {
        let r = Expr::Sum(terms);
        assert(r@->Sum_0 =~= expr_views(terms@));
        r
    }

    /// The product of factors.
    pub fn product(factors: Vec<Expr>) -> (r: Expr)
        ensures
            r@ == CostExprView::Product(expr_views(factors@)),
    {
        let r = Expr::Product(factors);
        assert(r@->Product_0 =~= expr_views(factors@));
        r
    }

    /// The price of the units that `input` counts, tier by tier.
    pub fn tiered(tiers: Vec<Tier>, input: Expr) -> (r: Expr)
        ensures
            r@ == (CostExprView::Tiered { tiers: tiers@, input: Box::new(input@) }),
    {
        Expr::Tiered { tiers, input: Box::new(input) }
    }
}

/// What a usage costs of which a first part is free.
pub open spec fn over_allowance(
    free: Amount,
    unit_price: Amount,
    input: CostExprView,
) -> CostExprView {
    CostExprView::Tiered {
        tiers: seq![
            Tier { upper_limit: Some(free), unit_price: crate::amount::spec_whole(0) },
            Tier { upper_limit: None, unit_price },
        ],
        input: Box::new(input),
    }
}

/// What a usage costs of which a first part is free.
pub fn priced_over(free: Amount, unit_price: Amount, input: Expr) -> (r: Expr)
    ensures
        r@ == over_allowance(free, unit_price, input@),
{
    let mut tiers: Vec<Tier> = Vec::new();
    tiers.push(Tier { upper_limit: Some(free), unit_price: crate::amount::whole(0) });
    tiers.push(Tier { upper_limit: None, unit_price });
    let r = Expr::tiered(tiers, input);
    assert(r@->tiers =~= over_allowance(free, unit_price, input@)->tiers);
    r
}

// ---------------------------------------------------------------------------
// Costs
// ---------------------------------------------------------------------------

/// One component of a cost.
#[derive(Debug, PartialEq, Eq)]
pub struct CostComponent {
    pub name: String,
    pub expr: Expr,
}

/// The model of a [`CostComponent`].
pub struct ComponentView {
    pub name: Seq<char>,
    pub expr: CostExprView,
}

impl View for CostComponent {
    type V = ComponentView;

    open spec fn view(&self) -> ComponentView {
        ComponentView { name: self.name@, expr: self.expr@ }
    }
}

/// A usage variable that a cost depends on.
#[derive(Debug, PartialEq, Eq)]
pub struct VariableInfo {
    pub name: String,
    pub description: String,
    pub unit: String,
}

/// The model of a [`VariableInfo`].
pub struct VariableView {
    pub name: Seq<char>,
    pub description: Seq<char>,
    pub unit: Seq<char>,
}

impl View for VariableInfo {
    type V = VariableView;

    open spec fn view(&self) -> VariableView {
        VariableView { name: self.name@, description: self.description@, unit: self.unit@ }
    }
}

/// What a resource costs.
#[derive(Debug, PartialEq, Eq)]
pub struct ResourceCost {
    pub logical_id: LogicalId,
    pub resource_type: ResourceType,
    pub label: String,
    pub expr: Expr,
    pub components: Vec<CostComponent>,
    pub required_variables: Vec<VariableInfo>,
}

/// The model of a [`ResourceCost`].
#[verifier::ext_equal]
pub struct ResourceCostView {
    pub logical_id: Seq<char>,
    pub resource_type: Seq<char>,
    pub label: Seq<char>,
    pub expr: CostExprView,
    pub components: Seq<ComponentView>,
    pub required_variables: Seq<VariableView>,
}

impl View for ResourceCost {
    type V = ResourceCostView;

    open spec fn view(&self) -> ResourceCostView {
        ResourceCostView {
            logical_id: self.logical_id@,
            resource_type: self.resource_type@,
            label: self.label@,
            expr: self.expr@,
            components: self.components@.map_values(|c: CostComponent| c@),
            required_variables: self.required_variables@.map_values(|v: VariableInfo| v@),
        }
    }
}

/// The models of a sequence of costs.
pub open spec fn cost_views(v: Seq<ResourceCost>) -> Seq<ResourceCostView> {
    v.map_values(|c: ResourceCost| c@)
}

/// What the resources of an architecture cost.
///
/// It holds neither bindings between the usage variables of connected resources
/// nor the topology of the architecture: no connection rules are kept from which
/// they could be derived.
#[derive(Debug, PartialEq, Eq)]
pub struct ArchitectureCost {
    pub name: String,
    pub resources: Vec<ResourceCost>,
    pub region: Region,
    /// What could not be resolved on the way to the architecture.
    pub diagnostics: Vec<IacParseDiagnostic>,
}

/// The model of an [`ArchitectureCost`].
#[verifier::ext_equal]
pub struct ArchitectureCostView {
    pub name: Seq<char>,
    pub resources: Seq<ResourceCostView>,
    pub region: Seq<char>,
    pub diagnostics: Seq<DiagnosticView>,
}

impl View for ArchitectureCost {
    type V = ArchitectureCostView;

    open spec fn view(&self) -> ArchitectureCostView {
        ArchitectureCostView {
            name: self.name@,
            resources: cost_views(self.resources@),
            region: self.region@,
            diagnostics: crate::policy::diagnostic_views(self.diagnostics@),
        }
    }
}

/// The variables that a resource's cost depends on are named after the
/// resource.
pub open spec fn variable_name(id: Seq<char>, name: Seq<char>) -> Seq<char> {
    id + "_"@ + name
}

impl LogicalId {
    /// The name of a usage variable of the resource.
    pub fn var(&self, name: &str) -> (r: String)
        ensures
            r@ == variable_name(self@, name@),
    {
        let mut s = self.text.clone();
        s.append("_");
        s.append(name);
        s
    }
}

} // verus!
