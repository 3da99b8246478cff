//! HCL documents as plain values.

use vstd::prelude::*;

use hcl::Expression;

use crate::yaml::Number;
use crate::yaml::NumberView;

verus! {

// ---------------------------------------------------------------------------
// Values
// ---------------------------------------------------------------------------

/// An HCL expression, as far as it can be read without evaluating it.
#[derive(Debug, PartialEq, Eq)]
pub enum HclExpr {
    String(String),
    Number(Number),
    Bool(bool),
    Array(Vec<HclExpr>),
    /// An object, with its entries in the order in which they are written.
    Object(Vec<(String, HclExpr)>),
    /// Accesses applied one after the other, to the variable `root` or to some
    /// other expression. An access to an attribute is the attribute's name.
    Traversal { root: Option<String>, accesses: Vec<Option<String>> },
    /// An expression that would have to be evaluated.
    Other,
}

/// The model of an [`HclExpr`].
#[verifier::ext_equal]
pub enum ExprView {
    String(Seq<char>),
    Number(NumberView),
    Bool(bool),
    Array(Seq<ExprView>),
    Object(Seq<(Seq<char>, ExprView)>),
    Traversal { root: Option<Seq<char>>, accesses: Seq<Option<Seq<char>>> },
    Other,
}

/// The model of an optional text.
pub open spec fn opt_view(s: Option<String>) -> Option<Seq<char>> {
    match s {
        Some(t) => Some(t@),
        None => None,
    }
}

impl HclExpr {
    /// The model of the expression.
    pub open spec fn view(&self) -> ExprView
        decreases self,
    {
        match self {
            HclExpr::String(s) => ExprView::String(s@),
            HclExpr::Number(n) => ExprView::Number(n@),
            HclExpr::Bool(b) => ExprView::Bool(*b),
            HclExpr::Array(v) => ExprView::Array(
                Seq::new(
                    v@.len(),
                    |i: int|
                        if 0 <= i < v@.len() {
                            v@[i].view()
                        } else {
                            ExprView::Other
                        },
                ),
            ),
            HclExpr::Object(v) => ExprView::Object(
                Seq::new(
                    v@.len(),
                    |i: int|
                        if 0 <= i < v@.len() {
                            (v@[i].0@, v@[i].1.view())
                        } else {
                            (Seq::empty(), ExprView::Other)
                        },
                ),
            ),
            HclExpr::Traversal { root, accesses } => ExprView::Traversal {
                root: opt_view(*root),
                accesses: accesses@.map_values(|a: Option<String>| opt_view(a)),
            },
            HclExpr::Other => ExprView::Other,
        }
    }
}

/// One item of an HCL body.
#[derive(Debug, PartialEq, Eq)]
pub enum HclStructure {
    /// `key = expression`.
    Attribute { key: String, expr: HclExpr },
    /// `identifier label label { body }`.
    Block { identifier: String, labels: Vec<String>, body: Vec<HclStructure> },
}

/// The model of an [`HclStructure`].
#[verifier::ext_equal]
pub enum StructureView {
    Attribute { key: Seq<char>, expr: ExprView },
    Block { identifier: Seq<char>, labels: Seq<Seq<char>>, body: Seq<StructureView> },
}

impl HclStructure {
    /// The model of the item.
    pub open spec fn view(&self) -> StructureView
        decreases self,
    {
        match self {
            HclStructure::Attribute { key, expr } => StructureView::Attribute {
                key: key@,
                expr: expr@,
            },
            HclStructure::Block { identifier, labels, body } => StructureView::Block {
                identifier: identifier@,
                labels: crate::text::texts(labels@),
                body: Seq::new(
                    body@.len(),
                    |i: int|
                        if 0 <= i < body@.len() {
                            body@[i].view()
                        } else {
                            StructureView::Attribute { key: Seq::empty(), expr: ExprView::Other }
                        },
                ),
            },
        }
    }
}

/// The models of the items of a body.
pub open spec fn body_views(v: Seq<HclStructure>) -> Seq<StructureView> {
    v.map_values(|s: HclStructure| s@)
}

// ---------------------------------------------------------------------------
// Reading
// ---------------------------------------------------------------------------

/// `hcl::Body`, the parsed body of a document or of a block.
#[verifier::external_type_specification]
#[verifier::external_body]
pub struct ExHclBody(hcl::Body);

/// `hcl::Expression`, a parsed expression.
#[verifier::external_type_specification]
#[verifier::external_body]
pub struct ExHclExpression(hcl::Expression);

/// `hcl::Traversal`, a parsed chain of accesses.
#[verifier::external_type_specification]
#[verifier::external_body]
pub struct ExHclTraversal(hcl::Traversal);

/// What a parsed chain of accesses holds: where it starts, and the accesses.
pub uninterp spec fn traversal_tree(t: hcl::Traversal) -> (
    Option<Seq<char>>,
    Seq<Option<Seq<char>>>,
);

/// What a parsed expression holds.
pub uninterp spec fn expr_tree(e: hcl::Expression) -> ExprView;

/// What a parsed body holds.
pub uninterp spec fn body_tree(b: hcl::Body) -> Seq<StructureView>;

/// What `hcl::parse` reads from a text: the body of the document, or the text
/// of the error.
pub uninterp spec fn hcl_document(content: Seq<char>) -> Result<Seq<StructureView>, Seq<char>>;

/// One parsed expression, with its children still unread.
enum ExprNode<'a> {
    String(String),
    Number(Number),
    Bool(bool),
    Array(Vec<&'a hcl::Expression>),
    Object(Vec<(String, &'a hcl::Expression)>),
    Traversal(&'a hcl::Traversal),
    Other,
}

/// What an expression holds, in terms of what its children hold.
spec fn expr_holds(n: ExprNode) -> ExprView {
    match n {
        ExprNode::String(s) => ExprView::String(s@),
        ExprNode::Number(x) => ExprView::Number(x@),
        ExprNode::Bool(b) => ExprView::Bool(b),
        ExprNode::Array(v) => ExprView::Array(v@.map_values(|c: &hcl::Expression| expr_tree(*c))),
        ExprNode::Object(v) => ExprView::Object(
            v@.map_values(|e: (String, &hcl::Expression)| (e.0@, expr_tree(*e.1))),
        ),
        ExprNode::Traversal(t) => ExprView::Traversal {
            root: traversal_tree(*t).0,
            accesses: traversal_tree(*t).1,
        },
        ExprNode::Other => ExprView::Other,
    }
}

/// One item of a parsed body, with its children still unread.
enum StructureNode<'a> {
    Attribute(String, &'a hcl::Expression),
    Block(String, Vec<String>, &'a hcl::Body),
}

/// What an item holds, in terms of what its children hold.
spec fn structure_holds(n: StructureNode) -> StructureView {
    match n {
        StructureNode::Attribute(key, e) => StructureView::Attribute {
            key: key@,
            expr: expr_tree(*e),
        },
        StructureNode::Block(identifier, labels, b) => StructureView::Block {
            identifier: identifier@,
            labels: crate::text::texts(labels@),
            body: body_tree(*b),
        },
    }
}

/// `hcl::parse`: the body of the document that the text holds, or the text of
/// the error. What it gives depends on the text alone.
#[verifier::external_body]
fn read_hcl(content: &str) -> (r: Result<hcl::Body, String>)
    ensures
        match r {
            Ok(b) => hcl_document(content@) == Ok::<Seq<StructureView>, Seq<char>>(body_tree(b)),
            Err(e) => hcl_document(content@) == Err::<Seq<StructureView>, Seq<char>>(e@),
        },
{
    hcl::parse(content).map_err(|e| e.to_string())
}

/// The variant of an `hcl::Expression` with its fields: scalars by value,
/// children by reference and in order, the keys of an object by their text. A
/// number, an integer too, is the binary64 number that `Number::as_f64` gives,
/// by the text that its `Debug` implementation writes. What any other variant
/// holds is not told.
#[verifier::external_body]
fn open_expr<'a>(e: &'a hcl::Expression) -> (r: ExprNode<'a>)
    ensures
        expr_tree(*e) == expr_holds(r),
{
    match e {
        Expression::String(s) => ExprNode::String(s.clone()),
        Expression::Number(n) => n.as_f64().map_or(
            ExprNode::Other,
            |x| ExprNode::Number(Number::Float(format!("{x:?}")))
        ),
        Expression::Bool(b) => ExprNode::Bool(*b),
        Expression::Array(v) => ExprNode::Array(v.iter().collect()),
        Expression::Object(m) => ExprNode::Object(
            m.iter().map(|(k, v)| (k.to_string(), v)).collect()
        ),
        Expression::Traversal(t) => ExprNode::Traversal(t),
        _ => ExprNode::Other,
    }
}

/// The fields of an `hcl::Traversal`: the name of the variable that it starts
/// at, where it starts at one, and its operators in order, an attribute access
/// by the name of the attribute. What any other operator holds is not told.
#[verifier::external_body]
fn open_traversal(t: &hcl::Traversal) -> (r: (Option<String>, Vec<Option<String>>))
    ensures
        traversal_tree(*t) == (
            opt_view(r.0),
            r.1@.map_values(|a: Option<String>| opt_view(a)),
        ),
{
    let root = match &t.expr {
        hcl::Expression::Variable(v) => Some(v.as_str().to_string()),
        _ => None,
    };
    let accesses = t.operators.iter().map(|o| match o {
        hcl::expr::TraversalOperator::GetAttr(a) => Some(a.as_str().to_string()),
        _ => None,
    });
    (root, accesses.collect())
}

/// The items of an `hcl::Body` in order, each with its fields: names by their
/// text, children by reference.
#[verifier::external_body]
fn open_body<'a>(b: &'a hcl::Body) -> (r: Vec<StructureNode<'a>>)
    ensures
        body_tree(*b) == r@.map_values(|n: StructureNode<'a>| structure_holds(n)),
{
    b.iter().map(|s| match s {
        hcl::Structure::Attribute(a) => StructureNode::Attribute(a.key().to_string(), a.expr()),
        hcl::Structure::Block(k) => StructureNode::Block(
            k.identifier().to_string(),
            k.labels().iter().map(|l| l.as_str().to_string()).collect(),
            k.body(),
        ),
    }).collect()
}

/// A parsed expression as a plain value.
fn expr_of(e: &hcl::Expression) -> (r: HclExpr)
    ensures
        r@ == expr_tree(*e),
    decreases expr_tree(*e),
{
    match open_expr(e) {
        ExprNode::String(s) => HclExpr::String(s),
        ExprNode::Number(n) => HclExpr::Number(n),
        ExprNode::Bool(b) => HclExpr::Bool(b),
        ExprNode::Array(items) => {
            let mut out: Vec<HclExpr> = Vec::new();
            for i in 0..items.len()
                invariant
                    out@.len() == i,
                    expr_tree(*e) == expr_holds(ExprNode::Array(items)),
                    forall|j: int| 0 <= j < i ==> (#[trigger] out@[j])@ == expr_tree(*items@[j]),
            {
                proof {
                    assert(expr_tree(*e)->Array_0[i as int] == expr_tree(*items@[i as int]));
                }
                out.push(expr_of(items[i]));
            }
            let r = HclExpr::Array(out);
            assert(r@->Array_0 =~= expr_tree(*e)->Array_0);
            r
        },
        ExprNode::Object(items) => {
            let mut out: Vec<(String, HclExpr)> = Vec::new();
            for i in 0..items.len()
                invariant
                    out@.len() == i,
                    expr_tree(*e) == expr_holds(ExprNode::Object(items)),
                    forall|j: int|
                        0 <= j < i ==> (#[trigger] out@[j]).0@ == items@[j].0@ && out@[j].1@
                            == expr_tree(*items@[j].1),
            {
                proof {
                    let x = expr_tree(*e)->Object_0[i as int];
                    assert(x.1 == expr_tree(*items@[i as int].1));
                    assert(decreases_to!(expr_tree(*e) => x));
                }
                out.push((items[i].0.clone(), expr_of(items[i].1)));
            }
            let r = HclExpr::Object(out);
            assert(r@->Object_0 =~= expr_tree(*e)->Object_0);
            r
        },
        ExprNode::Traversal(t) => {
            let (root, accesses) = open_traversal(t);
            HclExpr::Traversal { root, accesses }
        },
        ExprNode::Other => HclExpr::Other,
    }
}

/// A parsed body as plain items.
fn body_of(b: &hcl::Body) -> (r: Vec<HclStructure>)
    ensures
        body_views(r@) == body_tree(*b),
    decreases body_tree(*b),
{
    let items = open_body(b);
    let mut out: Vec<HclStructure> = Vec::new();
    for i in 0..items.len()
        invariant
            out@.len() == i,
            body_tree(*b) == items@.map_values(|n: StructureNode| structure_holds(n)),
            forall|j: int| 0 <= j < i ==> (#[trigger] out@[j])@ == body_tree(*b)[j],
    {
        let ghost x = body_tree(*b)[i as int];
        assert(x == structure_holds(items@[i as int]));
        match &items[i] {
            StructureNode::Attribute(key, e) => {
                out.push(HclStructure::Attribute { key: key.clone(), expr: expr_of(e) });
            },
            StructureNode::Block(identifier, labels, inner) => {
                proof {
                    assert(decreases_to!(body_tree(*b) => x));
                    assert(x->body == body_tree(**inner));
                }
                let body = body_of(inner);
                let labels = crate::cfn::parser::clone_texts(labels);
                let s = HclStructure::Block { identifier: identifier.clone(), labels, body };
                assert(s@->body =~= body_views(body@));
                out.push(s);
            },
        }
    }
    assert(body_views(out@) =~= body_tree(*b));
    out
}

/// The items of the document that `content` holds, or the text of the error.
pub fn parse_hcl(content: &str) -> (r: Result<Vec<HclStructure>, String>)
    ensures
        match r {
            Ok(v) => hcl_document(content@) == Ok::<Seq<StructureView>, Seq<char>>(
                body_views(v@),
            ),
            Err(e) => hcl_document(content@) == Err::<Seq<StructureView>, Seq<char>>(e@),
        },
{
    match read_hcl(content) {
        Ok(b) => Ok(body_of(&b)),
        Err(e) => Err(e),
    }
}

} // verus!
