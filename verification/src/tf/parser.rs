//! Terraform configurations: variables, locals and resources.

use vstd::prelude::*;

use crate::strmap::vec_insert;
use crate::strmap::StrMap;
use crate::text::text_eq;
use crate::tf::document::parse_hcl;
use crate::tf::document::ExprView;
use crate::tf::document::HclExpr;
use crate::tf::document::HclStructure;
use crate::tf::document::StructureView;
use crate::tf::error::TfError;
use crate::tf::error::TfErrorView;
use crate::yaml::Number;
use crate::yaml::NumberView;

verus! {

// ---------------------------------------------------------------------------
// Values
// ---------------------------------------------------------------------------

/// A value of a Terraform configuration.
#[derive(Debug, PartialEq, Eq)]
pub enum TfValue {
    String(String),
    Number(Number),
    Bool(bool),
    /// `var.name`.
    VarRef(String),
    /// `local.name`.
    LocalRef(String),
    /// `resource_type.name.attr`.
    ResourceRef { resource_type: String, name: String, attr: String },
    /// An object, with its entries in the order of their keys.
    Object(Vec<(String, TfValue)>),
    Array(Vec<TfValue>),
    /// A value that would have to be evaluated.
    Unknown,
}

/// The model of a [`TfValue`].
#[verifier::ext_equal]
pub enum TfView {
    String(Seq<char>),
    Number(NumberView),
    Bool(bool),
    VarRef(Seq<char>),
    LocalRef(Seq<char>),
    ResourceRef { resource_type: Seq<char>, name: Seq<char>, attr: Seq<char> },
    Object(Seq<(Seq<char>, TfView)>),
    Array(Seq<TfView>),
    Unknown,
}

impl TfValue {
    /// The model of the value.
    pub open spec fn view(&self) -> TfView
        decreases self,
    {
        match self {
            TfValue::String(s) => TfView::String(s@),
            TfValue::Number(n) => TfView::Number(n@),
            TfValue::Bool(b) => TfView::Bool(*b),
            TfValue::VarRef(s) => TfView::VarRef(s@),
            TfValue::LocalRef(s) => TfView::LocalRef(s@),
            TfValue::ResourceRef { resource_type, name, attr } => TfView::ResourceRef {
                resource_type: resource_type@,
                name: name@,
                attr: attr@,
            },
            TfValue::Object(v) => TfView::Object(
                Seq::new(
                    v@.len(),
                    |i: int|
                        if 0 <= i < v@.len() {
                            (v@[i].0@, v@[i].1.view())
                        } else {
                            (Seq::empty(), TfView::Unknown)
                        },
                ),
            ),
            TfValue::Array(v) => TfView::Array(
                Seq::new(
                    v@.len(),
                    |i: int|
                        if 0 <= i < v@.len() {
                            v@[i].view()
                        } else {
                            TfView::Unknown
                        },
                ),
            ),
            TfValue::Unknown => TfView::Unknown,
        }
    }
}

/// The models of a sequence of values.
pub open spec fn tf_views(v: Seq<TfValue>) -> Seq<TfView> {
    v.map_values(|x: TfValue| x@)
}

/// The models of the entries of an object.
pub open spec fn object_views(v: Seq<(String, TfValue)>) -> Seq<(Seq<char>, TfView)> {
    v.map_values(|e: (String, TfValue)| (e.0@, e.1@))
}

/// The models of the values of a map.
pub open spec fn tf_entries(m: Seq<(Seq<char>, TfValue)>) -> Seq<(Seq<char>, TfView)> {
    crate::strmap::mapped(m, |v: TfValue| v@)
}

/// The models of the bodies of blocks.
pub open spec fn block_views(v: Seq<StrMap<TfValue>>) -> Seq<Seq<(Seq<char>, TfView)>> {
    v.map_values(|m: StrMap<TfValue>| tf_entries(m@))
}

/// The models of blocks under their names.
pub open spec fn block_entries(m: Seq<(Seq<char>, Vec<StrMap<TfValue>>)>) -> Seq<
    (Seq<char>, Seq<Seq<(Seq<char>, TfView)>>),
> {
    crate::strmap::mapped(m, |v: Vec<StrMap<TfValue>>| block_views(v@))
}

/// The value is a string, a number or a boolean.
pub open spec fn is_concrete_view(v: TfView) -> bool {
    v is String || v is Number || v is Bool
}

/// The value is a reference to a resource or holds one.
pub open spec fn holds_resource_ref(v: TfView) -> bool
    decreases v, 0int,
{
    match v {
        TfView::ResourceRef { .. } => true,
        TfView::Object(m) => entries_hold_ref(m),
        TfView::Array(s) => items_hold_ref(s),
        _ => false,
    }
}

/// Some value of an object is a reference to a resource or holds one.
pub open spec fn entries_hold_ref(m: Seq<(Seq<char>, TfView)>) -> bool
    decreases m, 1int,
{
    if m.len() == 0 {
        false
    } else {
        proof {
            assert(decreases_to!(m => m.last()));
        }
        entries_hold_ref(m.drop_last()) || holds_resource_ref(m.last().1)
    }
}

/// Some value of an array is a reference to a resource or holds one.
pub open spec fn items_hold_ref(s: Seq<TfView>) -> bool
    decreases s, 1int,
{
    if s.len() == 0 {
        false
    } else {
        items_hold_ref(s.drop_last()) || holds_resource_ref(s.last())
    }
}

impl Clone for TfValue {
    fn clone(&self) -> (r: Self)
        ensures
            r@ == self@,
        decreases self,
    {
        match self {
            TfValue::String(s) => TfValue::String(s.clone()),
            TfValue::Number(n) => TfValue::Number(n.clone()),
            TfValue::Bool(b) => TfValue::Bool(*b),
            TfValue::VarRef(s) => TfValue::VarRef(s.clone()),
            TfValue::LocalRef(s) => TfValue::LocalRef(s.clone()),
            TfValue::ResourceRef { resource_type, name, attr } => TfValue::ResourceRef {
                resource_type: resource_type.clone(),
                name: name.clone(),
                attr: attr.clone(),
            },
            TfValue::Object(v) => {
                let mut out: Vec<(String, TfValue)> = Vec::new();
                for i in 0..v.len()
                    invariant
                        self is Object,
                        self->Object_0 == v,
                        out@.len() == i,
                        forall|j: int|
                            0 <= j < i ==> (#[trigger] out@[j]).0@ == v@[j].0@ && out@[j].1@
                                == v@[j].1@,
                {
                    out.push((v[i].0.clone(), (&v[i].1).clone()));
                }
                let r = TfValue::Object(out);
                assert(r@->Object_0 =~= self@->Object_0);
                r
            },
            TfValue::Array(v) => {
                let mut out: Vec<TfValue> = Vec::new();
                for i in 0..v.len()
                    invariant
                        self is Array,
                        self->Array_0 == v,
                        out@.len() == i,
                        forall|j: int| 0 <= j < i ==> (#[trigger] out@[j])@ == v@[j]@,
                {
                    out.push((&v[i]).clone());
                }
                let r = TfValue::Array(out);
                assert(r@->Array_0 =~= self@->Array_0);
                r
            },
            TfValue::Unknown => TfValue::Unknown,
        }
    }
}

impl TfValue {
    /// The text of a string.
    pub fn as_str(&self) -> (r: Option<&str>)
        ensures
            crate::cfn::parser::opt_str(r) == match self@ {
                TfView::String(s) => Some(s),
                _ => None,
            },
    {
        match self {
            TfValue::String(s) => Some(s.as_str()),
            _ => None,
        }
    }

    /// The value of a number.
    pub fn as_f64(&self) -> (r: Option<Number>)
        ensures
            crate::arch::opt_number(r) == match self@ {
                TfView::Number(n) => Some(n),
                _ => None,
            },
    {
        match self {
            TfValue::Number(n) => Some(n.clone()),
            _ => None,
        }
    }

    /// The value of a boolean.
    pub fn as_bool(&self) -> (r: Option<bool>)
        ensures
            r == match self@ {
                TfView::Bool(b) => Some(b),
                _ => None,
            },
    {
        match self {
            TfValue::Bool(b) => Some(*b),
            _ => None,
        }
    }

    /// Whether the value is a string, a number or a boolean.
    pub fn is_concrete(&self) -> (r: bool)
        ensures
            r == is_concrete_view(self@),
    {
        match self {
            TfValue::String(_) | TfValue::Number(_) | TfValue::Bool(_) => true,
            _ => false,
        }
    }

    /// Whether the value is a reference to a resource or holds one.
    pub fn contains_resource_ref(&self) -> (r: bool)
        ensures
            r == holds_resource_ref(self@),
        decreases self,
    {
        match self {
            TfValue::ResourceRef { .. } => true,
            TfValue::Object(v) => {
                let ghost m = object_views(v@);
                assert(self@->Object_0 =~= m);
                let mut found: bool = false;
                for i in 0..v.len()
                    invariant
                        self is Object,
                        self->Object_0 == v,
                        m == object_views(v@),
                        found == entries_hold_ref(m.subrange(0, i as int)),
                {
                    proof {
                        let now = m.subrange(0, i + 1);
                        assert(now.drop_last() =~= m.subrange(0, i as int));
                        assert(now.last() == m[i as int]);
                    }
                    let here = (&v[i].1).contains_resource_ref();
                    found = found || here;
                }
                assert(m.subrange(0, v@.len() as int) =~= m);
                found
            },
            TfValue::Array(v) => {
                let ghost s = tf_views(v@);
                assert(self@->Array_0 =~= s);
                let mut found: bool = false;
                for i in 0..v.len()
                    invariant
                        self is Array,
                        self->Array_0 == v,
                        s == tf_views(v@),
                        found == items_hold_ref(s.subrange(0, i as int)),
                {
                    proof {
                        let now = s.subrange(0, i + 1);
                        assert(now.drop_last() =~= s.subrange(0, i as int));
                        assert(now.last() == s[i as int]);
                    }
                    let here = (&v[i]).contains_resource_ref();
                    found = found || here;
                }
                assert(s.subrange(0, v@.len() as int) =~= s);
                found
            },
            _ => false,
        }
    }
}


// ---------------------------------------------------------------------------
// Expressions
// ---------------------------------------------------------------------------

/// The entries of an object are the entries of its pairs, mapped.
pub proof fn lemma_object_views(v: Seq<(String, TfValue)>)
    ensures
        object_views(v) == crate::strmap::mapped(crate::strmap::pairs(v), |x: TfValue| x@),
{
    assert(object_views(v) =~= crate::strmap::mapped(
        crate::strmap::pairs(v),
        |x: TfValue| x@,
    ));
}

/// Names at the start of a chain of accesses that stand for something else
/// than a type of resources.
pub open spec fn is_reserved_root(root: Seq<char>) -> bool {
    root == "data"@ || root == "module"@ || root == "each"@ || root == "count"@ || root == "self"@
        || root == "path"@ || root == "terraform"@
}

/// What a chain of accesses refers to: `var.name`, `local.name`, or the
/// attribute of a resource in `resource_type.name.attr`.
pub open spec fn traversal_value(
    root: Option<Seq<char>>,
    accesses: Seq<Option<Seq<char>>>,
) -> TfView {
    if root is None || accesses.len() == 0 || accesses[0] is None {
        TfView::Unknown
    } else if root->Some_0 == "var"@ {
        TfView::VarRef(accesses[0]->Some_0)
    } else if root->Some_0 == "local"@ {
        TfView::LocalRef(accesses[0]->Some_0)
    } else if accesses.len() > 1 && accesses[1] is Some && !is_reserved_root(root->Some_0) {
        TfView::ResourceRef {
            resource_type: root->Some_0,
            name: accesses[0]->Some_0,
            attr: accesses[1]->Some_0,
        }
    } else {
        TfView::Unknown
    }
}

/// The value of an expression.
pub open spec fn expr_value(e: ExprView) -> TfView
    decreases e, 0int,
{
    match e {
        ExprView::String(s) => TfView::String(s),
        ExprView::Number(n) => TfView::Number(n),
        ExprView::Bool(b) => TfView::Bool(b),
        ExprView::Array(s) => TfView::Array(expr_items(s)),
        ExprView::Object(m) => TfView::Object(expr_fields(m)),
        ExprView::Traversal { root, accesses } => traversal_value(root, accesses),
        ExprView::Other => TfView::Unknown,
    }
}

/// The values of expressions, in order.
pub open spec fn expr_items(s: Seq<ExprView>) -> Seq<TfView>
    decreases s, 1int,
{
    if s.len() == 0 {
        Seq::empty()
    } else {
        expr_items(s.drop_last()).push(expr_value(s.last()))
    }
}

/// The values of the entries of an object, stored one after the other.
pub open spec fn expr_fields(m: Seq<(Seq<char>, ExprView)>) -> Seq<(Seq<char>, TfView)>
    decreases m, 1int,
{
    if m.len() == 0 {
        Seq::empty()
    } else {
        proof {
            assert(decreases_to!(m => m.last()));
        }
        crate::strmap::inserted(expr_fields(m.drop_last()), m.last().0, expr_value(m.last().1))
    }
}

/// Whether a name stands for something else than a type of resources.
fn reserved_root(root: &str) -> (r: bool)
    ensures
        r == is_reserved_root(root@),
{
    text_eq(root, "data") || text_eq(root, "module") || text_eq(root, "each") || text_eq(
        root,
        "count",
    ) || text_eq(root, "self") || text_eq(root, "path") || text_eq(root, "terraform")
}

/// What a chain of accesses refers to.
fn traversal_to_tf_value(root: &Option<String>, accesses: &Vec<Option<String>>) -> (r: TfValue)
    ensures
        r@ == traversal_value(
            crate::tf::document::opt_view(*root),
            accesses@.map_values(|a: Option<String>| crate::tf::document::opt_view(a)),
        ),
{
    let ghost names = accesses@.map_values(|a: Option<String>| crate::tf::document::opt_view(a));
    let root = match root {
        Some(s) => s,
        None => {
            return TfValue::Unknown;
        },
    };
    if accesses.len() == 0 {
        return TfValue::Unknown;
    }
    assert(names[0] == crate::tf::document::opt_view(accesses@[0]));
    let first = match &accesses[0] {
        Some(s) => s,
        None => {
            return TfValue::Unknown;
        },
    };
    if text_eq(root.as_str(), "var") {
        return TfValue::VarRef(first.clone());
    }
    if text_eq(root.as_str(), "local") {
        return TfValue::LocalRef(first.clone());
    }
    if accesses.len() > 1 && !reserved_root(root.as_str()) {
        assert(names[1] == crate::tf::document::opt_view(accesses@[1]));
        if let Some(second) = &accesses[1] {
            return TfValue::ResourceRef {
                resource_type: root.clone(),
                name: first.clone(),
                attr: second.clone(),
            };
        }
    }
    TfValue::Unknown
}

/// The value of an expression. References stay references, and what would
/// have to be evaluated is unknown.
pub fn expr_to_tf_value(expr: &HclExpr) -> (r: TfValue)
    ensures
        r@ == expr_value(expr@),
    decreases expr,
{
    match expr {
        HclExpr::String(s) => TfValue::String(s.clone()),
        HclExpr::Number(n) => TfValue::Number(n.clone()),
        HclExpr::Bool(b) => TfValue::Bool(*b),
        HclExpr::Array(v) => {
            let ghost s = expr@->Array_0;
            let mut out: Vec<TfValue> = Vec::new();
            assert(tf_views(out@) =~= Seq::empty());
            for i in 0..v.len()
                invariant
                    expr is Array,
                    expr->Array_0 == v,
                    s == expr@->Array_0,
                    tf_views(out@) == expr_items(s.subrange(0, i as int)),
            {
                let ghost before = out@;
                let x = expr_to_tf_value(&v[i]);
                out.push(x);
                proof {
                    let now = s.subrange(0, i + 1);
                    assert(now.drop_last() =~= s.subrange(0, i as int));
                    assert(now.last() == v@[i as int]@);
                    assert(tf_views(out@) =~= tf_views(before).push(x@));
                }
            }
            assert(s.subrange(0, v@.len() as int) =~= s);
            let r = TfValue::Array(out);
            assert(r@->Array_0 =~= tf_views(out@));
            r
        },
        HclExpr::Object(v) => {
            let ghost m = expr@->Object_0;
            let ghost f = |x: TfValue| x@;
            let mut out: Vec<(String, TfValue)> = Vec::new();
            assert(object_views(out@) =~= Seq::empty());
            for i in 0..v.len()
                invariant
                    expr is Object,
                    expr->Object_0 == v,
                    m == expr@->Object_0,
                    f == (|x: TfValue| x@),
                    object_views(out@) == expr_fields(m.subrange(0, i as int)),
            {
                let ghost before = out@;
                let x = expr_to_tf_value(&v[i].1);
                proof {
                    let now = m.subrange(0, i + 1);
                    assert(now.drop_last() =~= m.subrange(0, i as int));
                    assert(now.last() == (v@[i as int].0@, v@[i as int].1@));
                    lemma_object_views(before);
                    crate::strmap::lemma_inserted_mapped(
                        crate::strmap::pairs(before),
                        f,
                        v@[i as int].0@,
                        x,
                    );
                }
                vec_insert(&mut out, v[i].0.clone(), x);
                proof {
                    lemma_object_views(out@);
                }
            }
            assert(m.subrange(0, v@.len() as int) =~= m);
            let r = TfValue::Object(out);
            assert(r@->Object_0 =~= object_views(out@));
            r
        },
        HclExpr::Traversal { root, accesses } => traversal_to_tf_value(root, accesses),
        HclExpr::Other => TfValue::Unknown,
    }
}

// ---------------------------------------------------------------------------
// Configurations
// ---------------------------------------------------------------------------

/// A resource.
#[derive(Debug, PartialEq, Eq)]
pub struct TfResource {
    pub resource_type: String,
    pub name: String,
    pub attrs: StrMap<TfValue>,
    /// The bodies of the blocks under each name, in order.
    pub blocks: StrMap<Vec<StrMap<TfValue>>>,
}

/// The model of a [`TfResource`].
#[verifier::ext_equal]
pub struct TfResourceView {
    pub resource_type: Seq<char>,
    pub name: Seq<char>,
    pub attrs: Seq<(Seq<char>, TfView)>,
    pub blocks: Seq<(Seq<char>, Seq<Seq<(Seq<char>, TfView)>>)>,
}

impl View for TfResource {
    type V = TfResourceView;

    open spec fn view(&self) -> TfResourceView {
        TfResourceView {
            resource_type: self.resource_type@,
            name: self.name@,
            attrs: tf_entries(self.attrs@),
            blocks: block_entries(self.blocks@),
        }
    }
}

/// The models of a sequence of resources.
pub open spec fn tf_resources(v: Seq<TfResource>) -> Seq<TfResourceView> {
    v.map_values(|r: TfResource| r@)
}

/// A variable.
#[derive(Debug, PartialEq, Eq)]
pub struct TfVariable {
    pub default: Option<TfValue>,
}

impl View for TfVariable {
    type V = Option<TfView>;

    open spec fn view(&self) -> Option<TfView> {
        match self.default {
            Some(v) => Some(v@),
            None => None,
        }
    }
}

/// A configuration.
#[derive(Debug, PartialEq, Eq)]
pub struct TfConfig {
    pub variables: StrMap<TfVariable>,
    pub locals: StrMap<TfValue>,
    pub resources: Vec<TfResource>,
}

/// The model of a [`TfConfig`].
#[verifier::ext_equal]
pub struct TfConfigView {
    /// The default of each variable, where it has one.
    pub variables: Seq<(Seq<char>, Option<TfView>)>,
    pub locals: Seq<(Seq<char>, TfView)>,
    pub resources: Seq<TfResourceView>,
}

/// The models of the variables of a map.
pub open spec fn variable_entries(m: Seq<(Seq<char>, TfVariable)>) -> Seq<
    (Seq<char>, Option<TfView>),
> {
    crate::strmap::mapped(m, |v: TfVariable| v@)
}

impl View for TfConfig {
    type V = TfConfigView;

    open spec fn view(&self) -> TfConfigView {
        TfConfigView {
            variables: variable_entries(self.variables@),
            locals: tf_entries(self.locals@),
            resources: tf_resources(self.resources@),
        }
    }
}

/// The attributes after those of a body were added whose keys are still free.
pub open spec fn with_own_attrs(
    body: Seq<StructureView>,
    attrs: Seq<(Seq<char>, TfView)>,
) -> Seq<(Seq<char>, TfView)>
    decreases body.len(),
{
    if body.len() == 0 {
        attrs
    } else {
        let before = with_own_attrs(body.drop_last(), attrs);
        match body.last() {
            StructureView::Attribute { key, expr } => if crate::strmap::lookup(before, key) is Some {
                before
            } else {
                crate::strmap::inserted(before, key, expr_value(expr))
            },
            _ => before,
        }
    }
}

/// The attributes after those of the blocks of a body were added, block by
/// block.
pub open spec fn with_nested_attrs(
    body: Seq<StructureView>,
    attrs: Seq<(Seq<char>, TfView)>,
) -> Seq<(Seq<char>, TfView)>
    decreases body, 0int,
{
    if body.len() == 0 {
        attrs
    } else {
        let before = with_nested_attrs(body.drop_last(), attrs);
        match body.last() {
            StructureView::Block { body: inner, .. } => {
                proof {
                    assert(decreases_to!(body => body.last()));
                }
                merged_attrs(inner, before)
            },
            _ => before,
        }
    }
}

/// The attributes after those of a body and of all blocks inside it were
/// added, the body's own first. A key that is taken stays as it is.
pub open spec fn merged_attrs(
    body: Seq<StructureView>,
    attrs: Seq<(Seq<char>, TfView)>,
) -> Seq<(Seq<char>, TfView)>
    decreases body, 1int,
{
    with_nested_attrs(body, with_own_attrs(body, attrs))
}

/// The entries after `value` was appended to those under `key`.
pub open spec fn appended<V>(
    m: Seq<(Seq<char>, Seq<V>)>,
    key: Seq<char>,
    value: V,
) -> Seq<(Seq<char>, Seq<V>)> {
    crate::strmap::inserted(
        m,
        key,
        match crate::strmap::lookup(m, key) {
            Some(s) => s.push(value),
            None => seq![value],
        },
    )
}

/// The attributes of each block of a body, under the name of the block.
pub open spec fn body_blocks(body: Seq<StructureView>) -> Seq<
    (Seq<char>, Seq<Seq<(Seq<char>, TfView)>>),
>
    decreases body.len(),
{
    if body.len() == 0 {
        Seq::empty()
    } else {
        let before = body_blocks(body.drop_last());
        match body.last() {
            StructureView::Block { identifier, body: inner, .. } => appended(
                before,
                identifier,
                merged_attrs(inner, Seq::empty()),
            ),
            _ => before,
        }
    }
}

/// The value of the first attribute of a body under `key`.
pub open spec fn first_attr(body: Seq<StructureView>, key: Seq<char>) -> Option<TfView>
    decreases body.len(),
{
    if body.len() == 0 {
        None
    } else {
        match body[0] {
            StructureView::Attribute { key: k, expr } => if k == key {
                Some(expr_value(expr))
            } else {
                first_attr(body.drop_first(), key)
            },
            _ => first_attr(body.drop_first(), key),
        }
    }
}

/// The entries after the attributes of a body were stored.
pub open spec fn with_attrs(
    body: Seq<StructureView>,
    attrs: Seq<(Seq<char>, TfView)>,
) -> Seq<(Seq<char>, TfView)>
    decreases body.len(),
{
    if body.len() == 0 {
        attrs
    } else {
        let before = with_attrs(body.drop_last(), attrs);
        match body.last() {
            StructureView::Attribute { key, expr } => crate::strmap::inserted(
                before,
                key,
                expr_value(expr),
            ),
            _ => before,
        }
    }
}

/// The configuration after one item of a document was added to it.
pub open spec fn with_structure(c: TfConfigView, s: StructureView) -> TfConfigView {
    match s {
        StructureView::Block { identifier, labels, body } => if identifier == "resource"@ {
            if labels.len() >= 2 {
                TfConfigView {
                    resources: c.resources.push(
                        TfResourceView {
                            resource_type: labels[0],
                            name: labels[1],
                            attrs: with_attrs(body, Seq::empty()),
                            blocks: body_blocks(body),
                        },
                    ),
                    ..c
                }
            } else {
                c
            }
        } else if identifier == "variable"@ {
            if labels.len() >= 1 {
                TfConfigView {
                    variables: crate::strmap::inserted(
                        c.variables,
                        labels[0],
                        first_attr(body, "default"@),
                    ),
                    ..c
                }
            } else {
                c
            }
        } else if identifier == "locals"@ {
            TfConfigView { locals: with_attrs(body, c.locals), ..c }
        } else {
            c
        },
        _ => c,
    }
}

/// The configuration after the items of a document were added to it.
pub open spec fn with_body(c: TfConfigView, body: Seq<StructureView>) -> TfConfigView
    decreases body.len(),
{
    if body.len() == 0 {
        c
    } else {
        with_structure(with_body(c, body.drop_last()), body.last())
    }
}

/// The configuration that declares nothing.
pub open spec fn empty_config() -> TfConfigView {
    TfConfigView { variables: Seq::empty(), locals: Seq::empty(), resources: Seq::empty() }
}

/// The configuration that documents hold, added up in order, or the error of
/// the first document that cannot be read.
pub open spec fn config_of(contents: Seq<Seq<char>>) -> Result<TfConfigView, TfErrorView>
    decreases contents.len(),
{
    if contents.len() == 0 {
        Ok(empty_config())
    } else {
        match config_of(contents.drop_last()) {
            Err(e) => Err(e),
            Ok(c) => match crate::tf::document::hcl_document(contents.last()) {
                Err(e) => Err(TfErrorView::ParseError(e)),
                Ok(body) => Ok(with_body(c, body)),
            },
        }
    }
}

/// The value under `key`.
pub fn tf_get<'a>(m: &'a StrMap<TfValue>, key: &str) -> (r: Option<&'a TfValue>)
    ensures
        crate::strmap::lookup(tf_entries(m@), key@) == match r {
            Some(v) => Some(v@),
            None => None,
        },
{
    proof {
        crate::strmap::lemma_lookup_mapped(m@, |v: TfValue| v@, key@);
    }
    m.get(key)
}

/// Stores `value` under `key`.
pub fn tf_insert(m: &mut StrMap<TfValue>, key: String, value: TfValue)
    ensures
        tf_entries(final(m)@) == crate::strmap::inserted(tf_entries(old(m)@), key@, value@),
        crate::strmap::keys_rise(final(m)@),
{
    proof {
        crate::strmap::lemma_inserted_mapped(m@, |v: TfValue| v@, key@, value);
    }
    m.insert(key, value);
}

/// A map without entries.
pub fn tf_empty() -> (r: StrMap<TfValue>)
    ensures
        tf_entries(r@) == Seq::<(Seq<char>, TfView)>::empty(),
{
    let r: StrMap<TfValue> = StrMap::new();
    assert(tf_entries(r@) =~= Seq::empty());
    r
}

/// Stores the attributes of a body.
fn store_attrs(body: &Vec<HclStructure>, out: &mut StrMap<TfValue>)
    ensures
        tf_entries(final(out)@) == with_attrs(
            crate::tf::document::body_views(body@),
            tf_entries(old(out)@),
        ),
{
    let ghost bv = crate::tf::document::body_views(body@);
    let ghost start = tf_entries(out@);
    for i in 0..body.len()
        invariant
            bv == crate::tf::document::body_views(body@),
            tf_entries(out@) == with_attrs(bv.subrange(0, i as int), start),
    {
        proof {
            let now = bv.subrange(0, i + 1);
            assert(now.drop_last() =~= bv.subrange(0, i as int));
            assert(now.last() == body@[i as int]@);
        }
        if let HclStructure::Attribute { key, expr } = &body[i] {
            tf_insert(out, key.clone(), expr_to_tf_value(expr));
        }
    }
    assert(bv.subrange(0, body@.len() as int) =~= bv);
}

/// Adds the attributes of a body and of all blocks inside it, the body's own
/// first. A key that is taken stays as it is, so that an attribute of a block
/// wins over those of the blocks inside it.
fn collect_block_attrs(body: &Vec<HclStructure>, out: &mut StrMap<TfValue>)
    ensures
        tf_entries(final(out)@) == merged_attrs(
            crate::tf::document::body_views(body@),
            tf_entries(old(out)@),
        ),
    decreases body,
{
    let ghost bv = crate::tf::document::body_views(body@);
    let ghost start = tf_entries(out@);
    for i in 0..body.len()
        invariant
            bv == crate::tf::document::body_views(body@),
            tf_entries(out@) == with_own_attrs(bv.subrange(0, i as int), start),
    {
        proof {
            let now = bv.subrange(0, i + 1);
            assert(now.drop_last() =~= bv.subrange(0, i as int));
            assert(now.last() == body@[i as int]@);
        }
        if let HclStructure::Attribute { key, expr } = &body[i] {
            if tf_get(out, key.as_str()).is_none() {
                tf_insert(out, key.clone(), expr_to_tf_value(expr));
            }
        }
    }
    assert(bv.subrange(0, body@.len() as int) =~= bv);
    let ghost own = tf_entries(out@);
    for i in 0..body.len()
        invariant
            bv == crate::tf::document::body_views(body@),
            tf_entries(out@) == with_nested_attrs(bv.subrange(0, i as int), own),
    {
        proof {
            let now = bv.subrange(0, i + 1);
            assert(now.drop_last() =~= bv.subrange(0, i as int));
            assert(now.last() == body@[i as int]@);
        }
        if let HclStructure::Block { body: inner, .. } = &body[i] {
            proof {
                assert(decreases_to!(body => body@[i as int]));
                assert(body@[i as int]@->body =~= crate::tf::document::body_views(inner@));
            }
            collect_block_attrs(inner, out);
        }
    }
    assert(bv.subrange(0, body@.len() as int) =~= bv);
}

/// The resource that a block declares.
fn parse_resource_block(resource_type: &str, name: &str, body: &Vec<HclStructure>) -> (r:
    TfResource)
    ensures
        r@ == (TfResourceView {
            resource_type: resource_type@,
            name: name@,
            attrs: with_attrs(crate::tf::document::body_views(body@), Seq::empty()),
            blocks: body_blocks(crate::tf::document::body_views(body@)),
        }),
{
    let mut attrs = tf_empty();
    store_attrs(body, &mut attrs);
    let mut blocks: StrMap<Vec<StrMap<TfValue>>> = StrMap::new();
    let ghost bv = crate::tf::document::body_views(body@);
    let ghost g = |v: Vec<StrMap<TfValue>>| block_views(v@);
    assert(block_entries(blocks@) =~= Seq::empty());
    for i in 0..body.len()
        invariant
            bv == crate::tf::document::body_views(body@),
            g == (|v: Vec<StrMap<TfValue>>| block_views(v@)),
            block_entries(blocks@) == body_blocks(bv.subrange(0, i as int)),
    {
        proof {
            let now = bv.subrange(0, i + 1);
            assert(now.drop_last() =~= bv.subrange(0, i as int));
            assert(now.last() == body@[i as int]@);
        }
        if let HclStructure::Block { identifier, body: inner, .. } = &body[i] {
            assert(body@[i as int]@->body =~= crate::tf::document::body_views(inner@));
            let mut block_attrs = tf_empty();
            collect_block_attrs(inner, &mut block_attrs);
            let ghost before = blocks@;
            blocks.append(identifier.clone(), block_attrs);
            proof {
                let vs = crate::strmap::lookup(blocks@, identifier@)->Some_0;
                crate::strmap::lemma_lookup_mapped(before, g, identifier@);
                crate::strmap::lemma_inserted_mapped(before, g, identifier@, vs);
                match crate::strmap::lookup(before, identifier@) {
                    Some(v) => {
                        assert(block_views(vs@) =~= block_views(v@).push(tf_entries(block_attrs@)));
                    },
                    None => {
                        assert(block_views(vs@) =~= seq![tf_entries(block_attrs@)]);
                    },
                }
            }
        }
    }
    assert(bv.subrange(0, body@.len() as int) =~= bv);
    TfResource { resource_type: resource_type.to_owned(), name: name.to_owned(), attrs, blocks }
}

/// The variable that a block declares.
fn parse_variable_block(body: &Vec<HclStructure>) -> (r: TfVariable)
    ensures
        r@ == first_attr(crate::tf::document::body_views(body@), "default"@),
{
    let ghost bv = crate::tf::document::body_views(body@);
    let mut i: usize = 0;
    assert(bv.subrange(0, bv.len() as int) =~= bv);
    while i < body.len()
        invariant
            i <= body@.len(),
            bv == crate::tf::document::body_views(body@),
            first_attr(bv, "default"@) == first_attr(
                bv.subrange(i as int, bv.len() as int),
                "default"@,
            ),
        decreases body@.len() - i,
    {
        proof {
            let rest = bv.subrange(i as int, bv.len() as int);
            assert(rest[0] == body@[i as int]@);
            assert(rest.drop_first() =~= bv.subrange(i + 1, bv.len() as int));
        }
        if let HclStructure::Attribute { key, expr } = &body[i] {
            if text_eq(key.as_str(), "default") {
                return TfVariable { default: Some(expr_to_tf_value(expr)) };
            }
        }
        i = i + 1;
    }
    TfVariable { default: None }
}

/// Adds the items of a document to a configuration.
fn parse_body_into(body: &Vec<HclStructure>, config: &mut TfConfig)
    ensures
        final(config)@ == with_body(old(config)@, crate::tf::document::body_views(body@)),
{
    let ghost bv = crate::tf::document::body_views(body@);
    let ghost start = config@;
    for i in 0..body.len()
        invariant
            bv == crate::tf::document::body_views(body@),
            config@ == with_body(start, bv.subrange(0, i as int)),
    {
        proof {
            let now = bv.subrange(0, i + 1);
            assert(now.drop_last() =~= bv.subrange(0, i as int));
            assert(now.last() == body@[i as int]@);
        }
        if let HclStructure::Block { identifier, labels, body: inner } = &body[i] {
            assert(body@[i as int]@->body =~= crate::tf::document::body_views(inner@));
            if text_eq(identifier.as_str(), "resource") {
                if labels.len() >= 2 {
                    let ghost before = config.resources@;
                    let resource = parse_resource_block(
                        labels[0].as_str(),
                        labels[1].as_str(),
                        inner,
                    );
                    config.resources.push(resource);
                    assert(tf_resources(config.resources@) =~= tf_resources(before).push(resource@));
                }
            } else if text_eq(identifier.as_str(), "variable") {
                if labels.len() >= 1 {
                    let variable = parse_variable_block(inner);
                    proof {
                        crate::strmap::lemma_inserted_mapped(
                            config.variables@,
                            |v: TfVariable| v@,
                            labels@[0]@,
                            variable,
                        );
                    }
                    config.variables.insert(labels[0].clone(), variable);
                }
            } else if text_eq(identifier.as_str(), "locals") {
                store_attrs(inner, &mut config.locals);
            }
        }
    }
    assert(bv.subrange(0, body@.len() as int) =~= bv);
}

/// Where a document cannot be read, neither can the documents up to a later
/// one.
proof fn lemma_config_error(contents: Seq<Seq<char>>, n: int)
    requires
        0 <= n <= contents.len(),
        config_of(contents.subrange(0, n)) is Err,
    ensures
        config_of(contents) == config_of(contents.subrange(0, n)),
    decreases contents.len(),
{
    if n == contents.len() {
        assert(contents.subrange(0, n) =~= contents);
    } else {
        assert(contents.drop_last().subrange(0, n) =~= contents.subrange(0, n));
        lemma_config_error(contents.drop_last(), n);
    }
}

/// Reads the configuration that the `.tf` files of a directory hold, given
/// their contents in order.
pub fn parse_tf_sources(contents: &Vec<String>) -> (r: Result<TfConfig, TfError>)
    ensures
        match r {
            Ok(c) => config_of(crate::text::texts(contents@)) == Ok::<TfConfigView, TfErrorView>(
                c@,
            ),
            Err(e) => config_of(crate::text::texts(contents@)) == Err::<TfConfigView, TfErrorView>(
                e@,
            ),
        },
{
    let mut config = TfConfig {
        variables: StrMap::new(),
        locals: tf_empty(),
        resources: Vec::new(),
    };
    let ghost all = crate::text::texts(contents@);
    assert(config@ =~= empty_config());
    for i in 0..contents.len()
        invariant
            all == crate::text::texts(contents@),
            config_of(all.subrange(0, i as int)) == Ok::<TfConfigView, TfErrorView>(config@),
    {
        proof {
            let now = all.subrange(0, i + 1);
            assert(now.drop_last() =~= all.subrange(0, i as int));
            assert(now.last() == contents@[i as int]@);
        }
        match parse_hcl(contents[i].as_str()) {
            Ok(body) => {
                parse_body_into(&body, &mut config);
            },
            Err(e) => {
                let e = TfError::ParseError(e);
                proof {
                    lemma_config_error(all, i + 1);
                }
                return Err(e);
            },
        }
    }
    assert(all.subrange(0, contents@.len() as int) =~= all);
    Ok(config)
}

/// Reads the values that a `.tfvars` file gives to variables, given its
/// content.
pub fn parse_tfvars_str(content: &str) -> (r: Result<StrMap<TfValue>, TfError>)
    ensures
        match (r, crate::tf::document::hcl_document(content@)) {
            (Ok(m), Ok(body)) => tf_entries(m@) == with_attrs(body, Seq::empty()),
            (Err(e), Err(text)) => e@ == TfErrorView::ParseError(text),
            _ => false,
        },
{
    match parse_hcl(content) {
        Ok(body) => {
            let mut vars = tf_empty();
            store_attrs(&body, &mut vars);
            Ok(vars)
        },
        Err(e) => Err(TfError::ParseError(e)),
    }
}

// ---------------------------------------------------------------------------
// Laws
// ---------------------------------------------------------------------------

/// Adding a body's own attributes keeps what a taken key holds.
proof fn lemma_own_attrs_keep(
    body: Seq<StructureView>,
    attrs: Seq<(Seq<char>, TfView)>,
    key: Seq<char>,
)
    requires
        crate::strmap::lookup(attrs, key) is Some,
    ensures
        crate::strmap::lookup(with_own_attrs(body, attrs), key) == crate::strmap::lookup(
            attrs,
            key,
        ),
    decreases body.len(),
{
    if body.len() > 0 {
        lemma_own_attrs_keep(body.drop_last(), attrs, key);
        let before = with_own_attrs(body.drop_last(), attrs);
        match body.last() {
            StructureView::Attribute { key: k, expr } => {
                crate::strmap::lemma_lookup_inserted(before, k, expr_value(expr), key);
            },
            _ => {},
        }
    }
}

/// Adding the attributes of nested blocks keeps what a taken key holds.
proof fn lemma_nested_attrs_keep(
    body: Seq<StructureView>,
    attrs: Seq<(Seq<char>, TfView)>,
    key: Seq<char>,
)
    requires
        crate::strmap::lookup(attrs, key) is Some,
    ensures
        crate::strmap::lookup(with_nested_attrs(body, attrs), key) == crate::strmap::lookup(
            attrs,
            key,
        ),
    decreases body, 0int,
{
    if body.len() > 0 {
        lemma_nested_attrs_keep(body.drop_last(), attrs, key);
        let before = with_nested_attrs(body.drop_last(), attrs);
        match body.last() {
            StructureView::Block { body: inner, .. } => {
                assert(decreases_to!(body => body.last()));
                lemma_merged_attrs_keep(inner, before, key);
            },
            _ => {},
        }
    }
}

/// Adding the attributes of a body and of the blocks inside it keeps what a
/// taken key holds.
proof fn lemma_merged_attrs_keep(
    body: Seq<StructureView>,
    attrs: Seq<(Seq<char>, TfView)>,
    key: Seq<char>,
)
    requires
        crate::strmap::lookup(attrs, key) is Some,
    ensures
        crate::strmap::lookup(merged_attrs(body, attrs), key) == crate::strmap::lookup(attrs, key),
    decreases body, 1int,
{
    lemma_own_attrs_keep(body, attrs, key);
    lemma_nested_attrs_keep(body, with_own_attrs(body, attrs), key);
}

/// The own attributes of a body hold the first value that it gives to a key.
proof fn lemma_own_attrs_first(body: Seq<StructureView>, key: Seq<char>)
    ensures
        crate::strmap::lookup(with_own_attrs(body, Seq::empty()), key) == first_attr(body, key),
    decreases body.len(),
{
    if body.len() > 0 {
        lemma_own_attrs_first(body.drop_last(), key);
        lemma_first_attr_last(body, key);
        let before = with_own_attrs(body.drop_last(), Seq::empty());
        match body.last() {
            StructureView::Attribute { key: k, expr } => {
                crate::strmap::lemma_lookup_inserted(before, k, expr_value(expr), key);
            },
            _ => {},
        }
    }
}

/// The first value under a key is the one of the earlier items, or else that
/// of the last item.
proof fn lemma_first_attr_last(body: Seq<StructureView>, key: Seq<char>)
    requires
        body.len() > 0,
    ensures
        first_attr(body, key) == match first_attr(body.drop_last(), key) {
            Some(v) => Some(v),
            None => match body.last() {
                StructureView::Attribute { key: k, expr } => if k == key {
                    Some(expr_value(expr))
                } else {
                    None
                },
                _ => None,
            },
        },
    decreases body.len(),
{
    reveal_with_fuel(first_attr, 2);
    if body.len() == 1 {
        assert(body.drop_first() =~= Seq::empty());
    } else {
        assert(body.drop_first().drop_last() =~= body.drop_last().drop_first());
        lemma_first_attr_last(body.drop_first(), key);
    }
}

/// An attribute of a block wins over those that the blocks inside it give
/// under the same key, wherever in the block it stands.
pub proof fn law_parent_attribute_wins(body: Seq<StructureView>, key: Seq<char>)
    requires
        first_attr(body, key) is Some,
    ensures
        crate::strmap::lookup(merged_attrs(body, Seq::empty()), key) == first_attr(body, key),
{
    lemma_own_attrs_first(body, key);
    lemma_nested_attrs_keep(body, with_own_attrs(body, Seq::empty()), key);
}

} // verus!
