//! What holds of Terraform configurations and of their resolution.

use vstd::prelude::*;

use crate::policy::DiagnosticSource;
use crate::policy::ParsePolicy;
use crate::strmap::keys_rise;
use crate::strmap::lookup;
use crate::tf::document::ExprView;
use crate::tf::document::StructureView;
use crate::tf::error::TfErrorView;
use crate::tf::error::UnresolvedSymbolKind;
use crate::tf::parser::expr_value;
use crate::tf::parser::with_body;
use crate::tf::parser::TfConfigView;
use crate::tf::parser::TfView;
use crate::tf::resolver::config_resolution;
use crate::tf::resolver::resolved_value;
use crate::tf::resolver::SymbolView;
use crate::tf::resolver::TfEntries;

verus! {

// ---------------------------------------------------------------------------
// Expressions
// ---------------------------------------------------------------------------

/// `var.x` refers to a variable, `local.x` to a local, and `type.name.attr` to the
/// attribute of a resource, unless `type` is a word of the language. What else
/// would have to be evaluated is unknown.
pub proof fn law_traversals(
    root: Seq<char>,
    name: Seq<char>,
    attr: Seq<char>,
    more: Seq<Option<Seq<char>>>,
)
    ensures
        expr_value(
            ExprView::Traversal { root: Some("var"@), accesses: seq![Some(name)] + more },
        ) == TfView::VarRef(name),
        expr_value(
            ExprView::Traversal { root: Some("local"@), accesses: seq![Some(name)] + more },
        ) == TfView::LocalRef(name),
        root != "var"@ && root != "local"@ && root != "data"@ && root != "module"@ && root
            != "each"@ && root != "count"@ && root != "self"@ && root != "path"@ && root
            != "terraform"@ ==> expr_value(
            ExprView::Traversal {
                root: Some(root),
                accesses: seq![Some(name), Some(attr)] + more,
            },
        ) == (TfView::ResourceRef { resource_type: root, name, attr }),
        root == "data"@ || root == "module"@ || root == "each"@ || root == "count"@ || root
            == "self"@ || root == "path"@ || root == "terraform"@ ==> expr_value(
            ExprView::Traversal {
                root: Some(root),
                accesses: seq![Some(name), Some(attr)] + more,
            },
        ) == TfView::Unknown,
        expr_value(ExprView::Other) == TfView::Unknown,
{
    reveal_strlit("data");
    reveal_strlit("module");
    reveal_strlit("each");
    reveal_strlit("count");
    reveal_strlit("self");
    reveal_strlit("path");
    reveal_strlit("terraform");
    reveal_strlit("var");
    reveal_strlit("local");
    assert("data"@.len() == 4);
    assert("module"@.len() == 6);
    assert("each"@.len() == 4);
    assert("count"@.len() == 5);
    assert("self"@.len() == 4);
    assert("path"@.len() == 4);
    assert("terraform"@.len() == 9);
    assert("var"@.len() == 3);
    assert("local"@.len() == 5);
    assert("data"@[0] != "each"@[0]);
    assert("data"@[0] != "self"@[0]);
    assert("data"@[0] != "path"@[0]);
    assert("each"@[0] != "self"@[0]);
    assert("each"@[0] != "path"@[0]);
    assert("count"@[0] != "local"@[0]);
    assert("self"@[0] != "path"@[0]);
    let a = seq![Some(name)] + more;
    assert(a[0] == Some(name));
    let b = seq![Some(name), Some(attr)] + more;
    assert(b[0] == Some(name) && b[1] == Some(attr));
}

proof fn lemma_items(s: Seq<ExprView>)
    ensures
        crate::tf::parser::expr_items(s).len() == s.len(),
        forall|i: int|
            0 <= i < s.len() ==> #[trigger] crate::tf::parser::expr_items(s)[i] == expr_value(s[i]),
    decreases s.len(),
{
    if s.len() > 0 {
        lemma_items(s.drop_last());
    }
}

proof fn lemma_fields(m: Seq<(Seq<char>, ExprView)>, k: int, key: Seq<char>)
    requires
        0 <= k < m.len(),
        m[k].0 == key,
        forall|j: int| k < j < m.len() ==> (#[trigger] m[j]).0 != key,
    ensures
        lookup(crate::tf::parser::expr_fields(m), key) == Some(expr_value(m[k].1)),
    decreases m.len(),
{
    let t = m.drop_last();
    if k < t.len() {
        assert forall|j: int| k < j < t.len() implies (#[trigger] t[j]).0 != key by {
            assert(m[j] == t[j]);
        }
        assert(m[m.len() - 1].0 != key);
        lemma_fields(t, k, key);
    }
    crate::strmap::lemma_lookup_inserted(
        crate::tf::parser::expr_fields(t),
        m.last().0,
        expr_value(m.last().1),
        key,
    );
}

/// A literal has its own value, a list the values of its items, and an object
/// under each key the value that was written last.
pub proof fn law_literals(
    s: Seq<char>,
    b: bool,
    items: Seq<ExprView>,
    m: Seq<(Seq<char>, ExprView)>,
    k: int,
    key: Seq<char>,
)
    requires
        0 <= k < m.len(),
        m[k].0 == key,
        forall|j: int| k < j < m.len() ==> (#[trigger] m[j]).0 != key,
    ensures
        expr_value(ExprView::String(s)) == TfView::String(s),
        expr_value(ExprView::Bool(b)) == TfView::Bool(b),
        expr_value(ExprView::Array(items)) matches TfView::Array(v) && v.len() == items.len() && (
        forall|i: int| 0 <= i < items.len() ==> #[trigger] v[i] == expr_value(items[i])),
        expr_value(ExprView::Object(m)) matches TfView::Object(o) && lookup(o, key) == Some(
            expr_value(m[k].1),
        ),
{
    lemma_items(items);
    lemma_fields(m, k, key);
}

// ---------------------------------------------------------------------------
// Documents
// ---------------------------------------------------------------------------

/// The item at `k` of a body gives an attribute, and no later item gives it.
pub open spec fn last_attribute(
    body: Seq<StructureView>,
    k: int,
    key: Seq<char>,
    expr: ExprView,
) -> bool {
    0 <= k < body.len() && body[k] == (StructureView::Attribute { key, expr }) && forall|j: int|
        k < j < body.len() ==> !((#[trigger] body[j]) is Attribute && body[j]->key == key)
}

proof fn lemma_with_attrs(
    body: Seq<StructureView>,
    attrs: TfEntries,
    k: int,
    key: Seq<char>,
    expr: ExprView,
)
    requires
        last_attribute(body, k, key, expr),
    ensures
        lookup(crate::tf::parser::with_attrs(body, attrs), key) == Some(expr_value(expr)),
    decreases body.len(),
{
    let t = body.drop_last();
    let before = crate::tf::parser::with_attrs(t, attrs);
    if k < t.len() {
        assert(t[k] == body[k]);
        assert forall|j: int| k < j < t.len() implies !((#[trigger] t[j]) is Attribute && t[j]->key
            == key) by {
            assert(body[j] == t[j]);
        }
        lemma_with_attrs(t, attrs, k, key, expr);
        let last = body[body.len() - 1];
        assert(!(last is Attribute && last->key == key));
        if let StructureView::Attribute { key: other, expr: e } = last {
            crate::strmap::lemma_lookup_inserted(before, other, expr_value(e), key);
        }
    } else {
        crate::strmap::lemma_lookup_inserted(before, key, expr_value(expr), key);
    }
}

/// A `resource` block with two labels declares a resource of the type and the name
/// that they give. Each attribute has the value that was written last, and each
/// block inside is kept under its name.
pub proof fn law_resource_blocks_declare(
    c: TfConfigView,
    body: Seq<StructureView>,
    k: int,
    labels: Seq<Seq<char>>,
    inner: Seq<StructureView>,
    a: int,
    key: Seq<char>,
    expr: ExprView,
)
    requires
        0 <= k < body.len(),
        body[k] == (StructureView::Block { identifier: "resource"@, labels, body: inner }),
        labels.len() >= 2,
        last_attribute(inner, a, key, expr),
    ensures
        exists|i: int|
            0 <= i < with_body(c, body).resources.len() && (
            #[trigger] with_body(c, body).resources[i]).resource_type == labels[0]
                && with_body(c, body).resources[i].name == labels[1] && lookup(
                with_body(c, body).resources[i].attrs,
                key,
            ) == Some(expr_value(expr)) && with_body(c, body).resources[i].blocks
                == crate::tf::parser::body_blocks(inner),
    decreases body.len(),
{
    let t = body.drop_last();
    let all = with_body(c, body).resources;
    if k < t.len() {
        assert(t[k] == body[k]);
        law_resource_blocks_declare(c, t, k, labels, inner, a, key, expr);
        let before = with_body(c, t).resources;
        let i = choose|i: int|
            0 <= i < before.len() && (#[trigger] before[i]).resource_type == labels[0]
                && before[i].name == labels[1] && lookup(before[i].attrs, key) == Some(
                expr_value(expr),
            ) && before[i].blocks == crate::tf::parser::body_blocks(inner);
        assert(all[i] == before[i]);
    } else {
        lemma_with_attrs(inner, Seq::empty(), a, key, expr);
        assert(all[all.len() - 1].resource_type == labels[0]);
    }
}

/// The blocks of a body under a name are kept in order: each block adds its
/// attributes, its own before those of the blocks inside it.
pub proof fn law_blocks_are_kept(
    body: Seq<StructureView>,
    identifier: Seq<char>,
    labels: Seq<Seq<char>>,
    inner: Seq<StructureView>,
    name: Seq<char>,
)
    ensures
        ({
            let before = crate::tf::parser::body_blocks(body);
            let after = crate::tf::parser::body_blocks(
                body.push(StructureView::Block { identifier, labels, body: inner }),
            );
            &&& lookup(after, identifier) is Some
            &&& lookup(after, identifier)->Some_0.last() == crate::tf::parser::merged_attrs(
                inner,
                Seq::empty(),
            )
            &&& lookup(after, identifier)->Some_0.drop_last() == match lookup(before, identifier) {
                Some(s) => s,
                None => Seq::empty(),
            }
            &&& name != identifier ==> lookup(after, name) == lookup(before, name)
        }),
{
    let b = body.push(StructureView::Block { identifier, labels, body: inner });
    assert(b.drop_last() =~= body);
    let before = crate::tf::parser::body_blocks(body);
    let x = crate::tf::parser::merged_attrs(inner, Seq::empty());
    let v = match lookup(before, identifier) {
        Some(s) => s.push(x),
        None => seq![x],
    };
    crate::strmap::lemma_lookup_inserted(before, identifier, v, identifier);
    crate::strmap::lemma_lookup_inserted(before, identifier, v, name);
    assert(v.drop_last() =~= match lookup(before, identifier) {
        Some(s) => s,
        None => Seq::empty(),
    });
}

/// A `variable` block declares a variable with its `default`, where it has one, and
/// a `locals` block gives each local the value that was written last; blocks of
/// any other kind declare nothing, and neither do attributes.
pub proof fn law_other_blocks(
    c: TfConfigView,
    body: Seq<StructureView>,
    identifier: Seq<char>,
    labels: Seq<Seq<char>>,
    inner: Seq<StructureView>,
    a: int,
    key: Seq<char>,
    expr: ExprView,
)
    requires
        last_attribute(inner, a, key, expr),
    ensures
        ({
            let before = with_body(c, body);
            let after = with_body(
                c,
                body.push(StructureView::Block { identifier, labels, body: inner }),
            );
            &&& identifier == "variable"@ && labels.len() >= 1 ==> lookup(
                after.variables,
                labels[0],
            ) is Some && lookup(after.variables, labels[0])->Some_0
                == crate::tf::parser::first_attr(inner, "default"@) && after.locals
                == before.locals && after.resources == before.resources
            &&& identifier == "locals"@ ==> lookup(after.locals, key) == Some(expr_value(expr))
                && after.variables == before.variables && after.resources == before.resources
            &&& identifier != "variable"@ && identifier != "locals"@ && identifier != "resource"@
                ==> after == before
            &&& with_body(c, body.push(StructureView::Attribute { key, expr })) == before
        }),
{
    reveal_strlit("variable");
    reveal_strlit("locals");
    reveal_strlit("resource");
    assert("variable"@.len() == 8);
    assert("locals"@.len() == 6);
    assert("resource"@.len() == 8);
    assert("variable"@[0] != "resource"@[0]);
    let b = body.push(StructureView::Block { identifier, labels, body: inner });
    assert(b.drop_last() =~= body);
    let d = body.push(StructureView::Attribute { key, expr });
    assert(d.drop_last() =~= body);
    let before = with_body(c, body);
    if identifier == "variable"@ && labels.len() >= 1 {
        crate::strmap::lemma_lookup_inserted(
            before.variables,
            labels[0],
            crate::tf::parser::first_attr(inner, "default"@),
            labels[0],
        );
    }
    lemma_with_attrs(inner, before.locals, a, key, expr);
}

/// The default of a variable is the value of the first attribute `default`.
pub proof fn law_first_default(
    body: Seq<StructureView>,
    k: int,
    expr: ExprView,
    key: Seq<char>,
)
    requires
        0 <= k < body.len(),
        body[k] == (StructureView::Attribute { key, expr }),
        forall|j: int|
            0 <= j < k ==> !((#[trigger] body[j]) is Attribute && body[j]->key == key),
    ensures
        crate::tf::parser::first_attr(body, key) == Some(expr_value(expr)),
    decreases body.len(),
{
    if k > 0 {
        let t = body.drop_first();
        assert(t[k - 1] == body[k]);
        assert forall|j: int| 0 <= j < k - 1 implies !((#[trigger] t[j]) is Attribute && t[j]->key
            == key) by {
            assert(body[j + 1] == t[j]);
        }
        assert(!(body[0] is Attribute && body[0]->key == key));
        law_first_default(t, k - 1, expr, key);
    }
}

/// Files are read in order, each on top of those before it; the first that cannot
/// be read is the error.
pub proof fn law_files_add_up(contents: Seq<Seq<char>>, content: Seq<char>)
    ensures
        crate::tf::parser::config_of(contents.push(content)) == match crate::tf::parser::config_of(
            contents,
        ) {
            Err(e) => Err(e),
            Ok(c) => match crate::tf::document::hcl_document(content) {
                Ok(body) => Ok(with_body(c, body)),
                Err(e) => Err(TfErrorView::ParseError(e)),
            },
        },
        crate::tf::parser::config_of(Seq::empty()) matches Ok(c) && c.variables.len() == 0
            && c.locals.len() == 0 && c.resources.len() == 0,
{
    assert(contents.push(content).drop_last() =~= contents);
}

// ---------------------------------------------------------------------------
// Variables
// ---------------------------------------------------------------------------

/// The value is a text, a number or a boolean.
pub open spec fn is_scalar(v: TfView) -> bool {
    v is String || v is Number || v is Bool
}

/// The value that a variable is given: the supplied one, or else the default.
pub open spec fn value_given(
    c: TfConfigView,
    tfvars: Option<TfEntries>,
    name: Seq<char>,
) -> Option<TfView> {
    if tfvars is Some && lookup(tfvars->Some_0, name) is Some {
        lookup(tfvars->Some_0, name)
    } else {
        match lookup(c.variables, name) {
            Some(d) => d,
            None => None,
        }
    }
}

proof fn lemma_defaults(variables: Seq<(Seq<char>, Option<TfView>)>, name: Seq<char>)
    requires
        keys_rise(variables),
    ensures
        lookup(crate::tf::resolver::defaults(variables), name) == match lookup(variables, name) {
            Some(d) => d,
            None => None,
        },
    decreases variables.len(),
{
    if variables.len() > 0 {
        let t = variables.drop_last();
        let last = variables.last();
        assert forall|i: int, j: int| 0 <= i < j < t.len() implies crate::text::text_lt(
            #[trigger] t[i].0,
            #[trigger] t[j].0,
        ) by {
            assert(crate::text::text_lt(variables[i].0, variables[j].0));
        }
        lemma_defaults(t, name);
        assert(t.push(last) =~= variables);
        if let Some(v) = last.1 {
            crate::strmap::lemma_lookup_inserted(
                crate::tf::resolver::defaults(t),
                last.0,
                v,
                name,
            );
        }
        if name == last.0 {
            crate::strmap::lemma_lookup_sorted(variables, variables.len() - 1);
            assert forall|k: int| 0 <= k < t.len() implies (#[trigger] t[k]).0 != name by {
                crate::text::lemma_text_lt_irreflexive(name);
                assert(crate::text::text_lt(variables[k].0, variables[variables.len() - 1].0));
            }
            crate::strmap::lemma_lookup_none(t, name);
        } else {
            crate::cfn::laws::lemma_lookup_push(t, last, name);
        }
    }
}

proof fn lemma_given(c: TfConfigView, tfvars: Option<TfEntries>, name: Seq<char>)
    requires
        keys_rise(c.variables),
        tfvars is Some ==> keys_rise(tfvars->Some_0),
    ensures
        lookup(crate::tf::resolver::given_vars(c.variables, tfvars), name) == value_given(
            c,
            tfvars,
            name,
        ),
{
    lemma_defaults(c.variables, name);
    if let Some(over) = tfvars {
        crate::tf::resolver::law_supplied_value_wins(
            crate::tf::resolver::defaults(c.variables),
            over,
            name,
        );
    }
}

proof fn lemma_config_var(c: TfConfigView, tfvars: Option<TfEntries>, name: Seq<char>)
    requires
        keys_rise(c.variables),
        tfvars is Some ==> keys_rise(tfvars->Some_0),
    ensures
        ({
            let vars = crate::tf::resolver::config_vars(c, tfvars);
            &&& lookup(vars, name) is Some <==> value_given(c, tfvars, name) is Some
            &&& value_given(c, tfvars, name) is Some && is_scalar(
                value_given(c, tfvars, name)->Some_0,
            ) ==> lookup(vars, name) == value_given(c, tfvars, name)
        }),
{
    lemma_given(c, tfvars, name);
    let given = crate::tf::resolver::given_vars(c.variables, tfvars);
    crate::strmap::lemma_lookup_mapped(
        given,
        |v: TfView| crate::tf::resolver::settled_var(v, given),
        name,
    );
}

/// What a reference to a variable with a scalar value resolves to.
proof fn lemma_var_ref(vars: TfEntries, locals: TfEntries, name: Seq<char>, v: TfView)
    requires
        lookup(vars, name) == Some(v),
        is_scalar(v),
    ensures
        crate::tf::resolver::settled_attr(TfView::VarRef(name), vars, locals) == v,
        resolved_value(TfView::VarRef(name), vars, locals, 0) == Some(v),
        resolved_value(TfView::VarRef(name), vars, locals, 1) == Some(v),
{
    reveal_with_fuel(resolved_value, 3);
    assert(resolved_value(v, vars, locals, 1) == Some(v));
    assert(resolved_value(v, vars, locals, 2) == Some(v));
}

/// An attribute that refers to a variable gets the value of the variable: the
/// supplied one, or else the default. So does one that refers to a local, where
/// the local is a scalar or refers to such a variable; and what stands in the
/// blocks of a resource.
pub proof fn law_references_are_followed(
    c: TfConfigView,
    tfvars: Option<TfEntries>,
    policy: ParsePolicy,
    i: int,
    key: Seq<char>,
    name: Seq<char>,
    v: TfView,
)
    requires
        keys_rise(c.variables),
        tfvars is Some ==> keys_rise(tfvars->Some_0),
        0 <= i < c.resources.len(),
        lookup(c.resources[i].attrs, key) == Some(TfView::VarRef(name)),
        value_given(c, tfvars, name) == Some(v),
        is_scalar(v),
        config_resolution(c, tfvars, policy) is Ok,
    ensures
        lookup(config_resolution(c, tfvars, policy)->Ok_0.value.resources[i].attrs, key) == Some(v),
        lookup(config_resolution(c, tfvars, policy)->Ok_0.value.vars, name) == Some(v),
{
    lemma_config_var(c, tfvars, name);
    let vars = crate::tf::resolver::config_vars(c, tfvars);
    let locals = crate::tf::resolver::config_locals(c, tfvars).1;
    lemma_var_ref(vars, locals, name, v);
    crate::strmap::lemma_lookup_mapped(
        c.resources[i].attrs,
        |x: TfView| crate::tf::resolver::settled_attr(x, vars, locals),
        key,
    );
}

/// The same inside a block.
pub proof fn law_references_in_blocks_are_followed(
    c: TfConfigView,
    tfvars: Option<TfEntries>,
    policy: ParsePolicy,
    i: int,
    b: int,
    j: int,
    key: Seq<char>,
    name: Seq<char>,
    v: TfView,
)
    requires
        keys_rise(c.variables),
        tfvars is Some ==> keys_rise(tfvars->Some_0),
        0 <= i < c.resources.len(),
        0 <= b < c.resources[i].blocks.len(),
        0 <= j < c.resources[i].blocks[b].1.len(),
        lookup(c.resources[i].blocks[b].1[j], key) == Some(TfView::VarRef(name)),
        value_given(c, tfvars, name) == Some(v),
        is_scalar(v),
        config_resolution(c, tfvars, policy) is Ok,
    ensures
        ({
            let r = config_resolution(c, tfvars, policy)->Ok_0.value.resources[i];
            lookup(r.blocks[b].1[j], key) == Some(v)
        }),
{
    lemma_config_var(c, tfvars, name);
    let vars = crate::tf::resolver::config_vars(c, tfvars);
    let locals = crate::tf::resolver::config_locals(c, tfvars).1;
    lemma_var_ref(vars, locals, name, v);
    let body = c.resources[i].blocks[b].1[j];
    crate::strmap::lemma_lookup_mapped(
        body,
        |x: TfView| crate::tf::resolver::settled_attr(x, vars, locals),
        key,
    );
    let r = config_resolution(c, tfvars, policy)->Ok_0.value.resources[i];
    assert(r.blocks[b].1[j] == crate::tf::resolver::settled_attrs(body, vars, locals));
}

// ---------------------------------------------------------------------------
// Locals
// ---------------------------------------------------------------------------

/// A local that resolves whatever other locals are closes in a pass, and stays
/// closed.
proof fn lemma_pass(
    open_locals: TfEntries,
    vars: TfEntries,
    locals: TfEntries,
    k: int,
    r: TfView,
)
    requires
        keys_rise(open_locals),
        0 <= k < open_locals.len(),
        forall|l: TfEntries|
            #[trigger] resolved_value(open_locals[k].1, vars, l, 0) == Some(r),
        is_scalar(r),
    ensures
        ({
            let (rest, done) = crate::tf::resolver::locals_pass(open_locals, vars, locals);
            &&& lookup(done, open_locals[k].0) == Some(r)
            &&& rest.len() < open_locals.len()
            &&& forall|j: int| 0 <= j < rest.len() ==> (#[trigger] rest[j]).0 != open_locals[k].0
        }),
    decreases open_locals.len(),
{
    let t = open_locals.drop_last();
    let last = open_locals.last();
    let name = open_locals[k].0;
    let (rest, done) = crate::tf::resolver::locals_pass(t, vars, locals);
    lemma_pass_bound(t, vars, locals);
    let n = open_locals.len() - 1;
    if k < n {
        assert(t[k] == open_locals[k]);
        assert forall|i: int, j: int| 0 <= i < j < t.len() implies crate::text::text_lt(
            #[trigger] t[i].0,
            #[trigger] t[j].0,
        ) by {
            assert(crate::text::text_lt(open_locals[i].0, open_locals[j].0));
        }
        lemma_pass(t, vars, locals, k, r);
        crate::text::lemma_text_lt_irreflexive(name);
        assert(crate::text::text_lt(open_locals[k].0, open_locals[n].0));
        if let Some(x) = resolved_value(last.1, vars, done, 0) {
            crate::strmap::lemma_lookup_inserted(done, last.0, x, name);
        }
    } else {
        assert(resolved_value(open_locals[k].1, vars, done, 0) == Some(r));
        crate::strmap::lemma_lookup_inserted(done, name, r, name);
        lemma_pass_keys(t, vars, locals);
        assert forall|j: int| 0 <= j < rest.len() implies (#[trigger] rest[j]).0 != name by {
            let i = choose|i: int| 0 <= i < t.len() && rest[j] == #[trigger] t[i];
            crate::text::lemma_text_lt_irreflexive(name);
            assert(crate::text::text_lt(open_locals[i].0, open_locals[n].0));
        }
    }
}

proof fn lemma_pass_bound(open_locals: TfEntries, vars: TfEntries, locals: TfEntries)
    ensures
        crate::tf::resolver::locals_pass(open_locals, vars, locals).0.len() <= open_locals.len(),
    decreases open_locals.len(),
{
    if open_locals.len() > 0 {
        lemma_pass_bound(open_locals.drop_last(), vars, locals);
    }
}

proof fn lemma_pass_keys(open_locals: TfEntries, vars: TfEntries, locals: TfEntries)
    ensures
        forall|j: int|
            0 <= j < crate::tf::resolver::locals_pass(open_locals, vars, locals).0.len()
                ==> exists|i: int|
                0 <= i < open_locals.len() && (#[trigger] crate::tf::resolver::locals_pass(
                    open_locals,
                    vars,
                    locals,
                ).0[j]) == #[trigger] open_locals[i],
    decreases open_locals.len(),
{
    let all = crate::tf::resolver::locals_pass(open_locals, vars, locals).0;
    if open_locals.len() > 0 {
        let t = open_locals.drop_last();
        lemma_pass_keys(t, vars, locals);
        let before = crate::tf::resolver::locals_pass(t, vars, locals).0;
        assert forall|j: int| 0 <= j < all.len() implies exists|i: int|
            0 <= i < open_locals.len() && (#[trigger] all[j]) == #[trigger] open_locals[i] by {
            if j < before.len() {
                assert(all[j] == before[j]);
                let i = choose|i: int| 0 <= i < t.len() && before[j] == #[trigger] t[i];
                assert(open_locals[i] == t[i]);
            } else {
                assert(all[j] == open_locals[open_locals.len() - 1]);
            }
        }
    }
}

/// What is closed under a name that is open no more stays.
proof fn lemma_pass_keeps(
    open_locals: TfEntries,
    vars: TfEntries,
    locals: TfEntries,
    name: Seq<char>,
)
    requires
        forall|j: int| 0 <= j < open_locals.len() ==> (#[trigger] open_locals[j]).0 != name,
    ensures
        lookup(crate::tf::resolver::locals_pass(open_locals, vars, locals).1, name) == lookup(
            locals,
            name,
        ),
    decreases open_locals.len(),
{
    if open_locals.len() > 0 {
        let t = open_locals.drop_last();
        assert forall|j: int| 0 <= j < t.len() implies (#[trigger] t[j]).0 != name by {
            assert(open_locals[j] == t[j]);
        }
        lemma_pass_keeps(t, vars, locals, name);
        let done = crate::tf::resolver::locals_pass(t, vars, locals).1;
        assert(open_locals[open_locals.len() - 1].0 != name);
        if let Some(x) = resolved_value(open_locals.last().1, vars, done, 0) {
            crate::strmap::lemma_lookup_inserted(done, open_locals.last().0, x, name);
        }
    }
}

proof fn lemma_settled_keeps(
    open_locals: TfEntries,
    vars: TfEntries,
    locals: TfEntries,
    name: Seq<char>,
)
    requires
        forall|j: int| 0 <= j < open_locals.len() ==> (#[trigger] open_locals[j]).0 != name,
    ensures
        lookup(crate::tf::resolver::settled_locals(open_locals, vars, locals).1, name) == lookup(
            locals,
            name,
        ),
    decreases open_locals.len(),
{
    let (rest, done) = crate::tf::resolver::locals_pass(open_locals, vars, locals);
    lemma_pass_keeps(open_locals, vars, locals, name);
    lemma_pass_keys(open_locals, vars, locals);
    assert forall|j: int| 0 <= j < rest.len() implies (#[trigger] rest[j]).0 != name by {
        let i = choose|i: int| 0 <= i < open_locals.len() && rest[j] == #[trigger] open_locals[i];
    }
    if rest.len() < open_locals.len() {
        lemma_settled_keeps(rest, vars, done, name);
    }
}

/// An attribute that refers to a local gets its value, where the local is a scalar
/// or refers to a variable with a scalar value.
pub proof fn law_locals_are_followed(
    c: TfConfigView,
    tfvars: Option<TfEntries>,
    policy: ParsePolicy,
    i: int,
    key: Seq<char>,
    k: int,
    variable: Seq<char>,
    v: TfView,
)
    requires
        keys_rise(c.variables),
        keys_rise(c.locals),
        tfvars is Some ==> keys_rise(tfvars->Some_0),
        0 <= i < c.resources.len(),
        0 <= k < c.locals.len(),
        lookup(c.resources[i].attrs, key) == Some(TfView::LocalRef(c.locals[k].0)),
        is_scalar(v),
        c.locals[k].1 == v || (c.locals[k].1 == TfView::VarRef(variable) && value_given(
            c,
            tfvars,
            variable,
        ) == Some(v)),
        config_resolution(c, tfvars, policy) is Ok,
    ensures
        lookup(config_resolution(c, tfvars, policy)->Ok_0.value.resources[i].attrs, key) == Some(v),
        lookup(config_resolution(c, tfvars, policy)->Ok_0.value.locals, c.locals[k].0) == Some(v),
{
    let name = c.locals[k].0;
    let vars = crate::tf::resolver::config_vars(c, tfvars);
    let none = Seq::<(Seq<char>, TfView)>::empty();
    assert forall|l: TfEntries|
        #[trigger] resolved_value(c.locals[k].1, vars, l, 0) == Some(v) by {
        if c.locals[k].1 != v {
            lemma_config_var(c, tfvars, variable);
            lemma_var_ref(vars, l, variable, v);
        }
    }
    lemma_pass(c.locals, vars, none, k, v);
    let (rest, done) = crate::tf::resolver::locals_pass(c.locals, vars, none);
    lemma_settled_keeps(rest, vars, done, name);
    let locals = crate::tf::resolver::config_locals(c, tfvars).1;
    assert(lookup(locals, name) == Some(v));
    reveal_with_fuel(resolved_value, 3);
    assert(resolved_value(v, vars, locals, 1) == Some(v));
    assert(resolved_value(TfView::LocalRef(name), vars, locals, 0) == Some(v));
    assert(crate::tf::resolver::settled_attr(TfView::LocalRef(name), vars, locals) == v);
    crate::strmap::lemma_lookup_mapped(
        c.resources[i].attrs,
        |x: TfView| crate::tf::resolver::settled_attr(x, vars, locals),
        key,
    );
}

/// The items of a list and the values of an object are resolved like attributes;
/// one that leads nowhere stays as it is.
pub proof fn law_containers_resolve_inside(
    s: Seq<TfView>,
    m: TfEntries,
    vars: TfEntries,
    locals: TfEntries,
    i: int,
    j: int,
)
    requires
        0 <= i < s.len(),
        0 <= j < m.len(),
    ensures
        crate::tf::resolver::settled_attr(TfView::Array(s), vars, locals) matches TfView::Array(t)
            && t.len() == s.len() && t[i] == match resolved_value(s[i], vars, locals, 1) {
            Some(x) => x,
            None => s[i],
        },
        crate::tf::resolver::settled_attr(TfView::Object(m), vars, locals) matches TfView::Object(n)
            && n.len() == m.len() && n[j].0 == m[j].0 && n[j].1 == match resolved_value(
            m[j].1,
            vars,
            locals,
            1,
        ) {
            Some(x) => x,
            None => m[j].1,
        },
{
    lemma_resolved_items(s, vars, locals, 1, i);
    lemma_resolved_fields(m, vars, locals, 1, j);
}

proof fn lemma_resolved_items(
    s: Seq<TfView>,
    vars: TfEntries,
    locals: TfEntries,
    depth: nat,
    i: int,
)
    requires
        0 <= i < s.len(),
    ensures
        crate::tf::resolver::resolved_items(s, vars, locals, depth).len() == s.len(),
        crate::tf::resolver::resolved_items(s, vars, locals, depth)[i]
            == crate::tf::resolver::resolved_inner(s[i], vars, locals, depth),
    decreases s.len(),
{
    let t = s.drop_last();
    if t.len() > 0 {
        lemma_resolved_items(
            t,
            vars,
            locals,
            depth,
            if i < t.len() {
                i
            } else {
                0
            },
        );
    }
    let before = crate::tf::resolver::resolved_items(t, vars, locals, depth);
    let all = crate::tf::resolver::resolved_items(s, vars, locals, depth);
    assert(all == before.push(crate::tf::resolver::resolved_inner(s.last(), vars, locals, depth)));
    if t.len() == 0 {
        assert(before.len() == 0);
    }
    if i < t.len() {
        assert(t[i] == s[i]);
        assert(all[i] == before[i]);
    }
}

proof fn lemma_resolved_fields(
    m: TfEntries,
    vars: TfEntries,
    locals: TfEntries,
    depth: nat,
    i: int,
)
    requires
        0 <= i < m.len(),
    ensures
        crate::tf::resolver::resolved_fields(m, vars, locals, depth).len() == m.len(),
        crate::tf::resolver::resolved_fields(m, vars, locals, depth)[i] == (
            m[i].0,
            crate::tf::resolver::resolved_inner(m[i].1, vars, locals, depth),
        ),
    decreases m.len(),
{
    let t = m.drop_last();
    if t.len() > 0 {
        lemma_resolved_fields(
            t,
            vars,
            locals,
            depth,
            if i < t.len() {
                i
            } else {
                0
            },
        );
    }
    let before = crate::tf::resolver::resolved_fields(t, vars, locals, depth);
    let all = crate::tf::resolver::resolved_fields(m, vars, locals, depth);
    let last = crate::tf::resolver::resolved_inner(m.last().1, vars, locals, depth);
    assert(all == before.push((m.last().0, last)));
    if t.len() == 0 {
        assert(before.len() == 0);
    }
    if i < t.len() {
        assert(t[i] == m[i]);
        assert(all[i] == before[i]);
    }
}

// ---------------------------------------------------------------------------
// What leads nowhere
// ---------------------------------------------------------------------------

proof fn lemma_add<A>(a: Seq<A>, b: Seq<A>, x: A)
    requires
        a.contains(x) || b.contains(x),
    ensures
        (a + b).contains(x),
{
    if a.contains(x) {
        let i = choose|i: int| 0 <= i < a.len() && a[i] == x;
        assert((a + b)[i] == x);
    } else {
        let i = choose|i: int| 0 <= i < b.len() && b[i] == x;
        assert((a + b)[a.len() + i] == x);
    }
}

proof fn lemma_symbol_in_entries(m: TfEntries, i: int, s: SymbolView)
    requires
        0 <= i < m.len(),
        crate::tf::resolver::symbols_in(m[i].1).contains(s),
    ensures
        crate::tf::resolver::symbols_in_entries(m).contains(s),
    decreases m.len(),
{
    let t = m.drop_last();
    if i < t.len() {
        assert(t[i] == m[i]);
        lemma_symbol_in_entries(t, i, s);
    }
    lemma_add(
        crate::tf::resolver::symbols_in_entries(t),
        crate::tf::resolver::symbols_in(m.last().1),
        s,
    );
}

proof fn lemma_symbol_in_resources(
    rs: Seq<crate::tf::parser::TfResourceView>,
    i: int,
    s: SymbolView,
)
    requires
        0 <= i < rs.len(),
        crate::tf::resolver::symbols_in_entries(rs[i].attrs).contains(s),
    ensures
        crate::tf::resolver::symbols_in_resources(rs).contains(s),
    decreases rs.len(),
{
    let t = rs.drop_last();
    let a = crate::tf::resolver::symbols_in_resources(t);
    let b = crate::tf::resolver::symbols_in_entries(rs.last().attrs);
    let d = crate::tf::resolver::symbols_in_blocks(rs.last().blocks);
    if i < t.len() {
        assert(t[i] == rs[i]);
        lemma_symbol_in_resources(t, i, s);
    }
    lemma_add(a, b, s);
    lemma_add(a + b, d, s);
}

/// A resource with an attribute that refers to a variable without a value, or to
/// a local that the configuration does not have, makes strict resolution fail.
/// Lenient resolution keeps the reference and reports it: a variable that is
/// declared as one without a value, and another name as undefined.
pub proof fn law_lost_references_are_reported(
    c: TfConfigView,
    tfvars: Option<TfEntries>,
    i: int,
    a: int,
    name: Seq<char>,
)
    requires
        keys_rise(c.variables),
        tfvars is Some ==> keys_rise(tfvars->Some_0),
        0 <= i < c.resources.len(),
        keys_rise(c.resources[i].attrs),
        0 <= a < c.resources[i].attrs.len(),
        c.resources[i].attrs[a].1 == TfView::VarRef(name),
        value_given(c, tfvars, name) is None,
    ensures
        config_resolution(c, tfvars, ParsePolicy::Strict) matches Err(
            TfErrorView::UnresolvedSymbol { kind, .. },
        ) && kind == UnresolvedSymbolKind::Variable,
        ({
            let r = config_resolution(c, tfvars, ParsePolicy::Lenient)->Ok_0;
            let declared = lookup(c.variables, name) is Some;
            &&& config_resolution(c, tfvars, ParsePolicy::Lenient) is Ok
            &&& r.value.resources[i].attrs[a].1 == TfView::VarRef(name)
            &&& exists|d: int|
                0 <= d < r.diagnostics.len() && (#[trigger] r.diagnostics[d]).source
                    == DiagnosticSource::Tf && r.diagnostics[d].code == "unresolved_var_ref"@
                    && r.diagnostics[d].message == (if declared {
                    "variable has no default and no tfvars value: var."@ + name
                        + " will not resolve"@
                } else {
                    "reference to undefined variable: var."@ + name
                })
        }),
{
    lemma_config_var(c, tfvars, name);
    lemma_given(c, tfvars, name);
    let vars = crate::tf::resolver::config_vars(c, tfvars);
    let locals = crate::tf::resolver::config_locals(c, tfvars).1;
    let rs = crate::tf::resolver::config_resources(c, tfvars);
    assert(resolved_value(TfView::VarRef(name), vars, locals, 0) is None);
    assert(rs[i].attrs[a].1 == TfView::VarRef(name));
    let s = SymbolView { kind: UnresolvedSymbolKind::Variable, name };
    let one = crate::tf::resolver::symbols_in(TfView::VarRef(name));
    assert(one[0] == s);
    lemma_symbol_in_entries(rs[i].attrs, a, s);
    lemma_symbol_in_resources(rs, i, s);
    let symbols = crate::tf::resolver::symbols_in_resources(rs);
    crate::tf::resolver::law_reported_names(
        symbols,
        UnresolvedSymbolKind::Variable,
        vars,
        name,
    );
    let lost = crate::tf::resolver::lost_vars(c, tfvars);
    crate::strmap::lemma_lookup(lost, name);
    let d = choose|d: int| 0 <= d < lost.len() && (#[trigger] lost[d]).0 == name;
    let all = crate::tf::resolver::config_diagnostics(c, tfvars);
    assert(all[d] == crate::tf::resolver::var_diagnostic(
        name,
        crate::tf::resolver::is_unset(c, tfvars, name),
    ));
    let r = config_resolution(c, tfvars, ParsePolicy::Lenient)->Ok_0;
    assert(r.diagnostics[d] == all[d]);
}

/// The same of a local: one that the configuration does not have is reported as
/// undefined.
pub proof fn law_lost_locals_are_reported(
    c: TfConfigView,
    tfvars: Option<TfEntries>,
    i: int,
    a: int,
    name: Seq<char>,
)
    requires
        0 <= i < c.resources.len(),
        0 <= a < c.resources[i].attrs.len(),
        c.resources[i].attrs[a].1 == TfView::LocalRef(name),
        forall|j: int| 0 <= j < c.locals.len() ==> (#[trigger] c.locals[j]).0 != name,
    ensures
        config_resolution(c, tfvars, ParsePolicy::Strict) is Err,
        ({
            let r = config_resolution(c, tfvars, ParsePolicy::Lenient)->Ok_0;
            &&& config_resolution(c, tfvars, ParsePolicy::Lenient) is Ok
            &&& r.value.resources[i].attrs[a].1 == TfView::LocalRef(name)
            &&& exists|d: int|
                0 <= d < r.diagnostics.len() && (#[trigger] r.diagnostics[d]).source
                    == DiagnosticSource::Tf && r.diagnostics[d].code == "unresolved_local_ref"@
                    && r.diagnostics[d].message == "reference to undefined local: local."@ + name
        }),
{
    let vars = crate::tf::resolver::config_vars(c, tfvars);
    let none = Seq::<(Seq<char>, TfView)>::empty();
    lemma_settled_keeps(c.locals, vars, none, name);
    lemma_open_keys(c.locals, vars, none, name);
    let (open_locals, locals) = crate::tf::resolver::config_locals(c, tfvars);
    let rs = crate::tf::resolver::config_resources(c, tfvars);
    assert(resolved_value(TfView::LocalRef(name), vars, locals, 0) is None);
    assert(rs[i].attrs[a].1 == TfView::LocalRef(name));
    let s = SymbolView { kind: UnresolvedSymbolKind::Local, name };
    let one = crate::tf::resolver::symbols_in(TfView::LocalRef(name));
    assert(one[0] == s);
    lemma_symbol_in_entries(rs[i].attrs, a, s);
    lemma_symbol_in_resources(rs, i, s);
    crate::tf::resolver::law_reported_names(
        crate::tf::resolver::symbols_in_resources(rs),
        UnresolvedSymbolKind::Local,
        locals,
        name,
    );
    let lost = crate::tf::resolver::lost_locals(c, tfvars);
    crate::strmap::lemma_lookup(lost, name);
    let d = choose|d: int| 0 <= d < lost.len() && (#[trigger] lost[d]).0 == name;
    let all = crate::tf::resolver::config_diagnostics(c, tfvars);
    let n = crate::tf::resolver::lost_vars(c, tfvars).len() as int;
    crate::strmap::lemma_lookup_none(open_locals, name);
    assert(all[n + d] == crate::tf::resolver::local_diagnostic(name, false));
    let r = config_resolution(c, tfvars, ParsePolicy::Lenient)->Ok_0;
    assert(r.diagnostics[n + d] == all[n + d]);
}

/// A name that is not open stays so.
proof fn lemma_open_keys(
    open_locals: TfEntries,
    vars: TfEntries,
    locals: TfEntries,
    name: Seq<char>,
)
    requires
        forall|j: int| 0 <= j < open_locals.len() ==> (#[trigger] open_locals[j]).0 != name,
    ensures
        forall|j: int|
            0 <= j < crate::tf::resolver::settled_locals(open_locals, vars, locals).0.len() ==> (
            #[trigger] crate::tf::resolver::settled_locals(open_locals, vars, locals).0[j]).0
                != name,
    decreases open_locals.len(),
{
    let (rest, done) = crate::tf::resolver::locals_pass(open_locals, vars, locals);
    lemma_pass_keys(open_locals, vars, locals);
    assert forall|j: int| 0 <= j < rest.len() implies (#[trigger] rest[j]).0 != name by {
        let i = choose|i: int| 0 <= i < open_locals.len() && rest[j] == #[trigger] open_locals[i];
    }
    let all = crate::tf::resolver::settled_locals(open_locals, vars, locals);
    if rest.len() < open_locals.len() {
        lemma_open_keys(rest, vars, done, name);
        assert(all == crate::tf::resolver::settled_locals(rest, vars, done));
    } else {
        assert(all == (rest, done));
    }
}

} // verus!
