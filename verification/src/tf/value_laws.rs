//! What holds of values that hold references, and of blocks inside blocks.

use vstd::prelude::*;

use crate::strmap::lookup;
use crate::tf::convert::RefView;
use crate::tf::convert_laws::mentions;
use crate::tf::document::StructureView;
use crate::tf::parser::body_blocks;
use crate::tf::parser::expr_value;
use crate::tf::parser::holds_resource_ref;
use crate::tf::parser::merged_attrs;
use crate::tf::parser::TfConfigView;
use crate::tf::parser::TfView;
use crate::tf::resolver::config_resources;
use crate::tf::resolver::config_vars;
use crate::tf::resolver::given_vars;
use crate::tf::resolver::TfEntries;

verus! {

// ---------------------------------------------------------------------------
// References
// ---------------------------------------------------------------------------

proof fn lemma_holds(v: TfView)
    ensures
        holds_resource_ref(v) <==> crate::tf::convert::refs_in(v).len() > 0,
    decreases v, 0int,
{
    match v {
        TfView::Object(m) => {
            lemma_holds_entries(m);
        },
        TfView::Array(s) => {
            lemma_holds_items(s);
        },
        _ => {},
    }
}

proof fn lemma_holds_entries(m: TfEntries)
    ensures
        crate::tf::parser::entries_hold_ref(m) <==> crate::tf::convert::refs_in_entries(m).len()
            > 0,
    decreases m, 1int,
{
    if m.len() > 0 {
        assert(decreases_to!(m => m.last()));
        lemma_holds_entries(m.drop_last());
        lemma_holds(m.last().1);
    }
}

proof fn lemma_holds_items(s: Seq<TfView>)
    ensures
        crate::tf::parser::items_hold_ref(s) <==> crate::tf::convert::refs_in_items(s).len() > 0,
    decreases s, 1int,
{
    if s.len() > 0 {
        lemma_holds_items(s.drop_last());
        lemma_holds(s.last());
    }
}

/// A value holds a reference exactly where it refers to some resource, at any depth.
pub proof fn law_holding_is_mentioning(v: TfView)
    ensures
        holds_resource_ref(v) <==> exists|t: Seq<char>, n: Seq<char>| #[trigger] mentions(v, t, n),
{
    lemma_holds(v);
    let refs = crate::tf::convert::refs_in(v);
    if refs.len() > 0 {
        assert(refs.contains(refs[0]));
        crate::tf::convert_laws::lemma_refs(v, refs[0]);
    }
    if exists|t: Seq<char>, n: Seq<char>| #[trigger] mentions(v, t, n) {
        let (t, n) = choose|t: Seq<char>, n: Seq<char>| #[trigger] mentions(v, t, n);
        crate::tf::convert_laws::lemma_refs(v, RefView { resource_type: t, name: n });
    }
}

/// A variable whose value is an object, an array or a reference to a resource keeps
/// that value.
pub proof fn law_containers_stay_in_variables(
    c: TfConfigView,
    tfvars: Option<TfEntries>,
    name: Seq<char>,
    v: TfView,
)
    requires
        lookup(given_vars(c.variables, tfvars), name) == Some(v),
        v is Object || v is Array || v is ResourceRef,
    ensures
        lookup(config_vars(c, tfvars), name) == Some(v),
{
    let given = given_vars(c.variables, tfvars);
    crate::strmap::lemma_lookup_mapped(
        given,
        |x: TfView| crate::tf::resolver::settled_var(x, given),
        name,
    );
}

/// An attribute that refers to a variable whose value is a reference to a resource
/// becomes that reference.
pub proof fn law_references_lead_to_resources(
    c: TfConfigView,
    tfvars: Option<TfEntries>,
    i: int,
    key: Seq<char>,
    name: Seq<char>,
    v: TfView,
)
    requires
        0 <= i < c.resources.len(),
        lookup(c.resources[i].attrs, key) == Some(TfView::VarRef(name)),
        lookup(given_vars(c.variables, tfvars), name) == Some(v),
        v is ResourceRef,
    ensures
        lookup(config_resources(c, tfvars)[i].attrs, key) == Some(v),
{
    law_containers_stay_in_variables(c, tfvars, name, v);
    let vars = config_vars(c, tfvars);
    let locals = crate::tf::resolver::config_locals(c, tfvars).1;
    crate::strmap::lemma_lookup_mapped(
        c.resources[i].attrs,
        |x: TfView| crate::tf::resolver::settled_attr(x, vars, locals),
        key,
    );
    assert(crate::tf::resolver::resolved_value(v, vars, locals, 1) == Some(v));
    assert(crate::tf::resolver::resolved_value(TfView::VarRef(name), vars, locals, 0) == Some(v));
}

// ---------------------------------------------------------------------------
// Blocks
// ---------------------------------------------------------------------------

proof fn lemma_own(body: Seq<StructureView>, attrs: TfEntries, key: Seq<char>)
    requires
        forall|i: int|
            0 <= i < body.len() ==> !(#[trigger] body[i] is Attribute && body[i]->key == key),
    ensures
        lookup(crate::tf::parser::with_own_attrs(body, attrs), key) == lookup(attrs, key),
    decreases body.len(),
{
    if body.len() > 0 {
        let t = body.drop_last();
        assert forall|i: int| 0 <= i < t.len() implies !(#[trigger] t[i] is Attribute && t[i]->key
            == key) by {
            assert(t[i] == body[i]);
        }
        lemma_own(t, attrs, key);
        assert(body[body.len() - 1] == body.last());
        if let StructureView::Attribute { key: k, expr } = body.last() {
            crate::strmap::lemma_lookup_inserted(
                crate::tf::parser::with_own_attrs(t, attrs),
                k,
                expr_value(expr),
                key,
            );
        }
    }
}

/// A block with one block inside it has the attributes of that, where it has none of
/// that name itself, and nothing under any other name.
pub proof fn law_inner_blocks_add_their_attributes(
    outer: Seq<char>,
    labels: Seq<Seq<char>>,
    inner: Seq<char>,
    inner_labels: Seq<Seq<char>>,
    key: Seq<char>,
    expr: crate::tf::document::ExprView,
    other: Seq<char>,
)
    requires
        key != other,
    ensures
        ({
            let leaf = seq![StructureView::Attribute { key, expr }];
            let body = seq![
                StructureView::Block { identifier: inner, labels: inner_labels, body: leaf },
            ];
            let top = seq![StructureView::Block { identifier: outer, labels, body }];
            let found = lookup(body_blocks(top), outer);
            &&& found is Some
            &&& found->Some_0.len() == 1
            &&& lookup(found->Some_0[0], key) == Some(expr_value(expr))
            &&& lookup(found->Some_0[0], other) is None
        }),
{
    let none = Seq::<(Seq<char>, TfView)>::empty();
    let leaf = seq![StructureView::Attribute { key, expr }];
    let body = seq![StructureView::Block { identifier: inner, labels: inner_labels, body: leaf }];
    let top = seq![StructureView::Block { identifier: outer, labels, body }];
    reveal_with_fuel(crate::tf::parser::with_own_attrs, 2);
    reveal_with_fuel(crate::tf::parser::with_nested_attrs, 2);
    assert(leaf.drop_last() =~= Seq::empty());
    assert(body.drop_last() =~= Seq::empty());
    assert(top.drop_last() =~= Seq::empty());
    crate::strmap::lemma_lookup_none(none, key);
    crate::strmap::lemma_lookup_none(none, other);
    assert(crate::tf::parser::with_own_attrs(body, none) == none);
    let one = crate::strmap::inserted(none, key, expr_value(expr));
    assert(crate::tf::parser::with_own_attrs(leaf, none) == one);
    assert(crate::tf::parser::with_nested_attrs(leaf, one) == one);
    assert(merged_attrs(leaf, none) == one);
    assert(crate::tf::parser::with_nested_attrs(body, none) == merged_attrs(leaf, none));
    assert(merged_attrs(body, none) == one);
    crate::strmap::lemma_lookup_inserted(none, key, expr_value(expr), key);
    crate::strmap::lemma_lookup_inserted(none, key, expr_value(expr), other);
    reveal_with_fuel(body_blocks, 2);
    let blocks = Seq::<(Seq<char>, Seq<TfEntries>)>::empty();
    crate::strmap::lemma_lookup_none(blocks, outer);
    assert(body_blocks(top) == crate::strmap::inserted(blocks, outer, seq![one]));
    crate::strmap::lemma_lookup_inserted(blocks, outer, seq![one], outer);
}

/// The attributes of a block's own body count before those of the blocks inside it.
pub proof fn law_own_attributes_count_first(
    body: Seq<StructureView>,
    key: Seq<char>,
    expr: crate::tf::document::ExprView,
)
    requires
        forall|i: int|
            0 <= i < body.len() ==> !(#[trigger] body[i] is Attribute && body[i]->key == key),
    ensures
        lookup(
            crate::tf::parser::with_own_attrs(
                body.push(StructureView::Attribute { key, expr }),
                Seq::empty(),
            ),
            key,
        ) == Some(expr_value(expr)),
{
    let b = body.push(StructureView::Attribute { key, expr });
    assert(b.drop_last() =~= body);
    let none = Seq::<(Seq<char>, TfView)>::empty();
    lemma_own(body, none, key);
    crate::strmap::lemma_lookup_none(none, key);
    crate::strmap::lemma_lookup_inserted(
        crate::tf::parser::with_own_attrs(body, none),
        key,
        expr_value(expr),
        key,
    );
}

} // verus!
