//! Resolution of variables and locals.

use vstd::prelude::*;

use crate::policy::DiagnosticSource;
use crate::policy::DiagnosticView;
use crate::policy::IacParseDiagnostic;
use crate::policy::ParseOutcome;
use crate::policy::ParsePolicy;
use crate::strmap::StrMap;
use crate::tf::error::TfError;
use crate::tf::error::TfErrorView;
use crate::tf::error::UnresolvedSymbolKind;
use crate::tf::parser::tf_empty;
use crate::tf::parser::tf_get;
use crate::tf::parser::tf_insert;
use crate::tf::parser::TfConfig;
use crate::tf::parser::TfConfigView;
use crate::tf::parser::TfResource;
use crate::tf::parser::TfResourceView;
use crate::tf::parser::TfValue;
use crate::tf::parser::TfVariable;
use crate::tf::parser::TfView;
use crate::yaml::Number;

verus! {

/// How many references may be followed one after the other.
pub const MAX_DEPTH: usize = 16;

/// Values under their names, in order.
pub type TfEntries = Seq<(Seq<char>, TfView)>;

// ---------------------------------------------------------------------------
// Values
// ---------------------------------------------------------------------------

/// What a value resolves to: references to variables and locals are followed,
/// and so are those inside an object or an array, where one that leads nowhere
/// stays as it is.
pub open spec fn resolved_value(
    v: TfView,
    vars: TfEntries,
    locals: TfEntries,
    depth: nat,
) -> Option<TfView>
    decreases MAX_DEPTH + 1 - depth, 0nat,
{
    if depth > MAX_DEPTH {
        None
    } else {
        match v {
            TfView::VarRef(name) => match crate::strmap::lookup(vars, name) {
                Some(next) => resolved_value(next, vars, locals, depth + 1),
                None => None,
            },
            TfView::LocalRef(name) => match crate::strmap::lookup(locals, name) {
                Some(next) => resolved_value(next, vars, locals, depth + 1),
                None => None,
            },
            TfView::Unknown => None,
            TfView::Object(m) => Some(
                TfView::Object(resolved_fields(m, vars, locals, depth + 1)),
            ),
            TfView::Array(s) => Some(TfView::Array(resolved_items(s, vars, locals, depth + 1))),
            _ => Some(v),
        }
    }
}

/// What a value inside an object or an array becomes.
pub open spec fn resolved_inner(
    v: TfView,
    vars: TfEntries,
    locals: TfEntries,
    depth: nat,
) -> TfView
    decreases MAX_DEPTH + 1 - depth, 1nat,
{
    match resolved_value(v, vars, locals, depth) {
        Some(r) => r,
        None => v,
    }
}

/// What the entries of an object become.
pub open spec fn resolved_fields(
    m: TfEntries,
    vars: TfEntries,
    locals: TfEntries,
    depth: nat,
) -> TfEntries
    decreases MAX_DEPTH + 1 - depth, m.len() + 2,
{
    if m.len() == 0 {
        Seq::empty()
    } else {
        resolved_fields(m.drop_last(), vars, locals, depth).push(
            (m.last().0, resolved_inner(m.last().1, vars, locals, depth)),
        )
    }
}

/// What the items of an array become.
pub open spec fn resolved_items(
    s: Seq<TfView>,
    vars: TfEntries,
    locals: TfEntries,
    depth: nat,
) -> Seq<TfView>
    decreases MAX_DEPTH + 1 - depth, s.len() + 2,
{
    if s.len() == 0 {
        Seq::empty()
    } else {
        resolved_items(s.drop_last(), vars, locals, depth).push(
            resolved_inner(s.last(), vars, locals, depth),
        )
    }
}

/// What a value resolves to.
fn resolve_value(
    value: &TfValue,
    vars: &StrMap<TfValue>,
    locals: &StrMap<TfValue>,
    depth: usize,
) -> (r: Option<TfValue>)
    requires
        depth <= MAX_DEPTH + 1,
    ensures
        resolved_value(
            value@,
            crate::tf::parser::tf_entries(vars@),
            crate::tf::parser::tf_entries(locals@),
            depth as nat,
        ) == match r {
            Some(v) => Some(v@),
            None => None,
        },
    decreases MAX_DEPTH + 1 - depth,
{
    if depth > MAX_DEPTH {
        return None;
    }
    let ghost vs = crate::tf::parser::tf_entries(vars@);
    let ghost ls = crate::tf::parser::tf_entries(locals@);
    match value {
        TfValue::VarRef(name) => match tf_get(vars, name.as_str()) {
            Some(next) => resolve_value(next, vars, locals, depth + 1),
            None => None,
        },
        TfValue::LocalRef(name) => match tf_get(locals, name.as_str()) {
            Some(next) => resolve_value(next, vars, locals, depth + 1),
            None => None,
        },
        TfValue::Unknown => None,
        TfValue::Object(v) => {
            let ghost m = crate::tf::parser::object_views(v@);
            assert(value@->Object_0 =~= m);
            let mut out: Vec<(String, TfValue)> = Vec::new();
            assert(crate::tf::parser::object_views(out@) =~= Seq::empty());
            for i in 0..v.len()
                invariant
                    depth <= MAX_DEPTH,
                    m == crate::tf::parser::object_views(v@),
                    vs == crate::tf::parser::tf_entries(vars@),
                    ls == crate::tf::parser::tf_entries(locals@),
                    crate::tf::parser::object_views(out@) == resolved_fields(
                        m.subrange(0, i as int),
                        vs,
                        ls,
                        (depth + 1) as nat,
                    ),
            {
                let ghost before = out@;
                let x = match resolve_value(&v[i].1, vars, locals, depth + 1) {
                    Some(x) => x,
                    None => v[i].1.clone(),
                };
                out.push((v[i].0.clone(), x));
                proof {
                    let now = m.subrange(0, i + 1);
                    assert(now.drop_last() =~= m.subrange(0, i as int));
                    assert(now.last() == (v@[i as int].0@, v@[i as int].1@));
                    assert(resolved_inner(v@[i as int].1@, vs, ls, (depth + 1) as nat) == x@);
                    assert(crate::tf::parser::object_views(out@)
                        =~= crate::tf::parser::object_views(before).push(
                        (v@[i as int].0@, x@),
                    ));
                }
            }
            assert(m.subrange(0, v@.len() as int) =~= m);
            let r = TfValue::Object(out);
            assert(r@->Object_0 =~= crate::tf::parser::object_views(out@));
            Some(r)
        },
        TfValue::Array(v) => {
            let ghost s = crate::tf::parser::tf_views(v@);
            assert(value@->Array_0 =~= s);
            let mut out: Vec<TfValue> = Vec::new();
            assert(crate::tf::parser::tf_views(out@) =~= Seq::empty());
            for i in 0..v.len()
                invariant
                    depth <= MAX_DEPTH,
                    s == crate::tf::parser::tf_views(v@),
                    vs == crate::tf::parser::tf_entries(vars@),
                    ls == crate::tf::parser::tf_entries(locals@),
                    crate::tf::parser::tf_views(out@) == resolved_items(
                        s.subrange(0, i as int),
                        vs,
                        ls,
                        (depth + 1) as nat,
                    ),
            {
                let ghost before = out@;
                let x = match resolve_value(&v[i], vars, locals, depth + 1) {
                    Some(x) => x,
                    None => v[i].clone(),
                };
                out.push(x);
                proof {
                    let now = s.subrange(0, i + 1);
                    assert(now.drop_last() =~= s.subrange(0, i as int));
                    assert(now.last() == v@[i as int]@);
                    assert(resolved_inner(v@[i as int]@, vs, ls, (depth + 1) as nat) == x@);
                    assert(crate::tf::parser::tf_views(out@) =~= crate::tf::parser::tf_views(
                        before,
                    ).push(x@));
                }
            }
            assert(s.subrange(0, v@.len() as int) =~= s);
            let r = TfValue::Array(out);
            assert(r@->Array_0 =~= crate::tf::parser::tf_views(out@));
            Some(r)
        },
        _ => Some(value.clone()),
    }
}

/// What a value resolves to is worth keeping: it is concrete, it refers to a
/// resource, or it is an object or an array.
pub open spec fn is_settled(v: TfView) -> bool {
    crate::tf::parser::is_concrete_view(v) || crate::tf::parser::holds_resource_ref(v)
        || v is Object || v is Array
}

/// Whether what a value resolves to is worth keeping.
fn settled(v: &TfValue) -> (r: bool)
    ensures
        r == is_settled(v@),
{
    v.is_concrete() || v.contains_resource_ref() || match v {
        TfValue::Object(_) | TfValue::Array(_) => true,
        _ => false,
    }
}

/// What an attribute becomes: what it resolves to, where that is worth
/// keeping.
pub open spec fn settled_attr(v: TfView, vars: TfEntries, locals: TfEntries) -> TfView {
    match resolved_value(v, vars, locals, 0) {
        Some(r) => if is_settled(r) {
            r
        } else {
            v
        },
        None => v,
    }
}

/// What attributes become.
pub open spec fn settled_attrs(m: TfEntries, vars: TfEntries, locals: TfEntries) -> TfEntries {
    crate::strmap::mapped(m, |v: TfView| settled_attr(v, vars, locals))
}

/// What a resource becomes.
pub open spec fn settled_resource(
    r: TfResourceView,
    vars: TfEntries,
    locals: TfEntries,
) -> TfResourceView {
    TfResourceView {
        attrs: settled_attrs(r.attrs, vars, locals),
        blocks: crate::strmap::mapped(
            r.blocks,
            |s: Seq<TfEntries>| s.map_values(|m: TfEntries| settled_attrs(m, vars, locals)),
        ),
        ..r
    }
}

/// Resolves the values of a map.
fn resolve_attrs(
    attrs: &StrMap<TfValue>,
    vars: &StrMap<TfValue>,
    locals: &StrMap<TfValue>,
) -> (r: StrMap<TfValue>)
    ensures
        crate::tf::parser::tf_entries(r@) == settled_attrs(
            crate::tf::parser::tf_entries(attrs@),
            crate::tf::parser::tf_entries(vars@),
            crate::tf::parser::tf_entries(locals@),
        ),
{
    let ghost vs = crate::tf::parser::tf_entries(vars@);
    let ghost ls = crate::tf::parser::tf_entries(locals@);
    let ghost all = settled_attrs(crate::tf::parser::tf_entries(attrs@), vs, ls);
    let mut out = tf_empty();
    let n: usize = attrs.len();
    for i in 0..n
        invariant
            n == attrs@.len(),
            crate::strmap::keys_rise(attrs@),
            vs == crate::tf::parser::tf_entries(vars@),
            ls == crate::tf::parser::tf_entries(locals@),
            all == settled_attrs(crate::tf::parser::tf_entries(attrs@), vs, ls),
            crate::tf::parser::tf_entries(out@) == all.subrange(0, i as int),
    {
        let value = attrs.value_at(i);
        let x = match resolve_value(value, vars, locals, 0) {
            Some(x) => if settled(&x) {
                x
            } else {
                value.clone()
            },
            None => value.clone(),
        };
        proof {
            let done = all.subrange(0, i as int);
            crate::strmap::lemma_inserted_next(attrs@, done, i as int, x@);
            assert(all[i as int] == (attrs@[i as int].0, x@));
            assert(all.subrange(0, i + 1) =~= done.push(all[i as int]));
        }
        tf_insert(&mut out, attrs.key_at(i).clone(), x);
    }
    assert(all.subrange(0, n as int) =~= all);
    out
}

/// Resolves the attributes of a resource and of its blocks.
pub fn resolve_resource(
    resource: &mut TfResource,
    vars: &StrMap<TfValue>,
    locals: &StrMap<TfValue>,
)
    ensures
        final(resource)@ == settled_resource(
            old(resource)@,
            crate::tf::parser::tf_entries(vars@),
            crate::tf::parser::tf_entries(locals@),
        ),
{
    let ghost vs = crate::tf::parser::tf_entries(vars@);
    let ghost ls = crate::tf::parser::tf_entries(locals@);
    let ghost start = resource@;
    let ghost raw = resource.blocks@;
    let ghost g = |s: Seq<TfEntries>| s.map_values(|m: TfEntries| settled_attrs(m, vs, ls));
    let ghost b = |v: Vec<StrMap<TfValue>>| crate::tf::parser::block_views(v@);
    let ghost all = crate::strmap::mapped(start.blocks, g);
    let attrs = resolve_attrs(&resource.attrs, vars, locals);
    let mut blocks: StrMap<Vec<StrMap<TfValue>>> = StrMap::new();
    let n: usize = resource.blocks.len();
    assert(crate::tf::parser::block_entries(blocks@) =~= all.subrange(0, 0));
    for i in 0..n
        invariant
            resource@ == start,
            raw == resource.blocks@,
            n == raw.len(),
            crate::strmap::keys_rise(raw),
            vs == crate::tf::parser::tf_entries(vars@),
            ls == crate::tf::parser::tf_entries(locals@),
            g == (|s: Seq<TfEntries>| s.map_values(|m: TfEntries| settled_attrs(m, vs, ls))),
            b == (|v: Vec<StrMap<TfValue>>| crate::tf::parser::block_views(v@)),
            all == crate::strmap::mapped(start.blocks, g),
            crate::tf::parser::block_entries(blocks@) == all.subrange(0, i as int),
    {
        let list = resource.blocks.value_at(i);
        let mut out: Vec<StrMap<TfValue>> = Vec::new();
        for k in 0..list.len()
            invariant
                vs == crate::tf::parser::tf_entries(vars@),
                ls == crate::tf::parser::tf_entries(locals@),
                out@.len() == k,
                forall|j: int|
                    0 <= j < k ==> crate::tf::parser::tf_entries((#[trigger] out@[j])@)
                        == settled_attrs(crate::tf::parser::tf_entries(list@[j]@), vs, ls),
        {
            out.push(resolve_attrs(&list[k], vars, locals));
        }
        proof {
            let bv = crate::tf::parser::block_views(list@);
            assert(crate::tf::parser::block_views(out@) =~= g(bv));
            let done = all.subrange(0, i as int);
            assert(start.blocks[i as int] == (raw[i as int].0, bv));
            assert(all[i as int] == (raw[i as int].0, g(bv)));
            crate::strmap::lemma_inserted_next(raw, done, i as int, g(bv));
            crate::strmap::lemma_inserted_mapped(blocks@, b, raw[i as int].0, out);
            assert(all.subrange(0, i + 1) =~= done.push(all[i as int]));
        }
        blocks.insert(resource.blocks.key_at(i).clone(), out);
    }
    assert(all.subrange(0, n as int) =~= all);
    resource.attrs = attrs;
    resource.blocks = blocks;
}


// ---------------------------------------------------------------------------
// Variables and locals
// ---------------------------------------------------------------------------

/// The defaults of the variables that have one.
pub open spec fn defaults(variables: Seq<(Seq<char>, Option<TfView>)>) -> TfEntries
    decreases variables.len(),
{
    if variables.len() == 0 {
        Seq::empty()
    } else {
        let before = defaults(variables.drop_last());
        match variables.last().1 {
            Some(v) => crate::strmap::inserted(before, variables.last().0, v),
            None => before,
        }
    }
}

/// The entries of `base` after those of `over` were stored.
pub open spec fn overridden(base: TfEntries, over: TfEntries) -> TfEntries
    decreases over.len(),
{
    if over.len() == 0 {
        base
    } else {
        crate::strmap::inserted(
            overridden(base, over.drop_last()),
            over.last().0,
            over.last().1,
        )
    }
}

/// The values that variables are given: their defaults, overridden by supplied
/// values.
pub open spec fn given_vars(
    variables: Seq<(Seq<char>, Option<TfView>)>,
    tfvars: Option<TfEntries>,
) -> TfEntries {
    match tfvars {
        Some(over) => overridden(defaults(variables), over),
        None => defaults(variables),
    }
}

/// The model of supplied values.
pub open spec fn supplied(tfvars: Option<StrMap<TfValue>>) -> Option<TfEntries> {
    match tfvars {
        Some(m) => Some(crate::tf::parser::tf_entries(m@)),
        None => None,
    }
}

/// What the value of a variable becomes: what it resolves to, where that is
/// concrete.
pub open spec fn settled_var(v: TfView, vars: TfEntries) -> TfView {
    match resolved_value(v, vars, Seq::empty(), 0) {
        Some(r) => if crate::tf::parser::is_concrete_view(r) {
            r
        } else {
            v
        },
        None => v,
    }
}

/// What the values of variables become.
pub open spec fn settled_vars(vars: TfEntries) -> TfEntries {
    crate::strmap::mapped(vars, |v: TfView| settled_var(v, vars))
}

/// One pass over the locals that are still open, in order: a local that
/// resolves to something worth keeping is closed, and later ones see it. Gives
/// the locals that stay open, and the closed ones.
pub open spec fn locals_pass(
    open_locals: TfEntries,
    vars: TfEntries,
    locals: TfEntries,
) -> (TfEntries, TfEntries)
    decreases open_locals.len(),
{
    if open_locals.len() == 0 {
        (Seq::empty(), locals)
    } else {
        let (rest, done) = locals_pass(open_locals.drop_last(), vars, locals);
        match resolved_value(open_locals.last().1, vars, done, 0) {
            Some(r) => if is_settled(r) {
                (rest, crate::strmap::inserted(done, open_locals.last().0, r))
            } else {
                (rest.push(open_locals.last()), done)
            },
            None => (rest.push(open_locals.last()), done),
        }
    }
}

/// Passes over the locals until one of them closes none. Gives the locals that
/// stay open, and the closed ones.
pub open spec fn settled_locals(
    open_locals: TfEntries,
    vars: TfEntries,
    locals: TfEntries,
) -> (TfEntries, TfEntries)
    decreases open_locals.len(),
{
    let (rest, done) = locals_pass(open_locals, vars, locals);
    if rest.len() < open_locals.len() {
        settled_locals(rest, vars, done)
    } else {
        (rest, done)
    }
}

/// The values of variables, resolved.
fn resolve_vars(given: &StrMap<TfValue>) -> (r: StrMap<TfValue>)
    ensures
        crate::tf::parser::tf_entries(r@) == settled_vars(crate::tf::parser::tf_entries(given@)),
{
    let ghost vs = crate::tf::parser::tf_entries(given@);
    let ghost all = settled_vars(vs);
    let none = tf_empty();
    let mut out = tf_empty();
    let n: usize = given.len();
    for i in 0..n
        invariant
            n == given@.len(),
            crate::strmap::keys_rise(given@),
            vs == crate::tf::parser::tf_entries(given@),
            all == settled_vars(vs),
            crate::tf::parser::tf_entries(none@) == Seq::<(Seq<char>, TfView)>::empty(),
            crate::tf::parser::tf_entries(out@) == all.subrange(0, i as int),
    {
        let value = given.value_at(i);
        let x = match resolve_value(value, given, &none, 0) {
            Some(x) => if x.is_concrete() {
                x
            } else {
                value.clone()
            },
            None => value.clone(),
        };
        proof {
            let done = all.subrange(0, i as int);
            crate::strmap::lemma_inserted_next(given@, done, i as int, x@);
            assert(all[i as int] == (given@[i as int].0, x@));
            assert(all.subrange(0, i + 1) =~= done.push(all[i as int]));
        }
        tf_insert(&mut out, given.key_at(i).clone(), x);
    }
    assert(all.subrange(0, n as int) =~= all);
    out
}

/// The values that variables are given.
fn give_vars(variables: &StrMap<TfVariable>, tfvars: &Option<StrMap<TfValue>>) -> (r: StrMap<
    TfValue,
>)
    ensures
        crate::tf::parser::tf_entries(r@) == given_vars(
            crate::tf::parser::variable_entries(variables@),
            supplied(*tfvars),
        ),
{
    let mut out = tf_empty();
    let ghost vs = crate::tf::parser::variable_entries(variables@);
    let n: usize = variables.len();
    for i in 0..n
        invariant
            n == variables@.len(),
            vs == crate::tf::parser::variable_entries(variables@),
            crate::tf::parser::tf_entries(out@) == defaults(vs.subrange(0, i as int)),
    {
        proof {
            let now = vs.subrange(0, i + 1);
            assert(now.drop_last() =~= vs.subrange(0, i as int));
            assert(now.last() == (variables@[i as int].0, variables@[i as int].1@));
        }
        if let Some(v) = &variables.value_at(i).default {
            tf_insert(&mut out, variables.key_at(i).clone(), v.clone());
        }
    }
    assert(vs.subrange(0, n as int) =~= vs);
    if let Some(over) = tfvars {
        let ghost base = crate::tf::parser::tf_entries(out@);
        let ghost ov = crate::tf::parser::tf_entries(over@);
        let n: usize = over.len();
        for i in 0..n
            invariant
                n == over@.len(),
                ov == crate::tf::parser::tf_entries(over@),
                crate::tf::parser::tf_entries(out@) == overridden(base, ov.subrange(0, i as int)),
        {
            proof {
                let now = ov.subrange(0, i + 1);
                assert(now.drop_last() =~= ov.subrange(0, i as int));
                assert(now.last() == (over@[i as int].0, over@[i as int].1@));
            }
            tf_insert(&mut out, over.key_at(i).clone(), over.value_at(i).clone());
        }
        assert(ov.subrange(0, n as int) =~= ov);
    }
    out
}

/// One pass over the locals that are still open. Gives those that stay open.
fn pass_locals(
    open_locals: &Vec<(String, TfValue)>,
    vars: &StrMap<TfValue>,
    locals: &mut StrMap<TfValue>,
) -> (r: Vec<(String, TfValue)>)
    ensures
        (
            crate::tf::parser::object_views(r@),
            crate::tf::parser::tf_entries(final(locals)@),
        ) == locals_pass(
            crate::tf::parser::object_views(open_locals@),
            crate::tf::parser::tf_entries(vars@),
            crate::tf::parser::tf_entries(old(locals)@),
        ),
{
    let ghost all = crate::tf::parser::object_views(open_locals@);
    let ghost vs = crate::tf::parser::tf_entries(vars@);
    let ghost start = crate::tf::parser::tf_entries(locals@);
    let mut rest: Vec<(String, TfValue)> = Vec::new();
    assert(crate::tf::parser::object_views(rest@) =~= Seq::empty());
    for i in 0..open_locals.len()
        invariant
            all == crate::tf::parser::object_views(open_locals@),
            vs == crate::tf::parser::tf_entries(vars@),
            (
                crate::tf::parser::object_views(rest@),
                crate::tf::parser::tf_entries(locals@),
            ) == locals_pass(all.subrange(0, i as int), vs, start),
    {
        let ghost before = rest@;
        proof {
            let now = all.subrange(0, i + 1);
            assert(now.drop_last() =~= all.subrange(0, i as int));
            assert(now.last() == (open_locals@[i as int].0@, open_locals@[i as int].1@));
        }
        let closed = match resolve_value(&open_locals[i].1, vars, locals, 0) {
            Some(x) => if settled(&x) {
                Some(x)
            } else {
                None
            },
            None => None,
        };
        match closed {
            Some(x) => {
                tf_insert(locals, open_locals[i].0.clone(), x);
            },
            None => {
                rest.push((open_locals[i].0.clone(), open_locals[i].1.clone()));
                assert(crate::tf::parser::object_views(rest@) =~= crate::tf::parser::object_views(
                    before,
                ).push((open_locals@[i as int].0@, open_locals@[i as int].1@)));
            },
        }
    }
    assert(all.subrange(0, open_locals@.len() as int) =~= all);
    rest
}

/// Resolves locals until a pass over those that are still open closes none.
/// Gives those that stay open, and the closed ones.
fn resolve_locals(declared: &StrMap<TfValue>, vars: &StrMap<TfValue>) -> (r: (
    Vec<(String, TfValue)>,
    StrMap<TfValue>,
))
    ensures
        (
            crate::tf::parser::object_views(r.0@),
            crate::tf::parser::tf_entries(r.1@),
        ) == settled_locals(
            crate::tf::parser::tf_entries(declared@),
            crate::tf::parser::tf_entries(vars@),
            Seq::empty(),
        ),
{
    let ghost vs = crate::tf::parser::tf_entries(vars@);
    let mut open_locals: Vec<(String, TfValue)> = Vec::new();
    let n: usize = declared.len();
    for i in 0..n
        invariant
            n == declared@.len(),
            open_locals@.len() == i,
            forall|j: int|
                0 <= j < i ==> (#[trigger] open_locals@[j]).0@ == declared@[j].0
                    && open_locals@[j].1@ == declared@[j].1@,
    {
        open_locals.push((declared.key_at(i).clone(), declared.value_at(i).clone()));
    }
    assert(crate::tf::parser::object_views(open_locals@) =~= crate::tf::parser::tf_entries(
        declared@,
    ));
    let mut locals = tf_empty();
    let ghost goal = settled_locals(
        crate::tf::parser::tf_entries(declared@),
        vs,
        Seq::empty(),
    );
    loop
        invariant
            vs == crate::tf::parser::tf_entries(vars@),
            goal == settled_locals(crate::tf::parser::tf_entries(declared@), vs, Seq::empty()),
            goal == settled_locals(
                crate::tf::parser::object_views(open_locals@),
                vs,
                crate::tf::parser::tf_entries(locals@),
            ),
        decreases open_locals@.len(),
    {
        let rest = pass_locals(&open_locals, vars, &mut locals);
        if rest.len() < open_locals.len() {
            open_locals = rest;
        } else {
            return (rest, locals);
        }
    }
}

// ---------------------------------------------------------------------------
// Unresolved references
// ---------------------------------------------------------------------------

/// A reference to a variable or a local.
#[derive(Debug, PartialEq, Eq)]
pub struct Symbol {
    pub kind: UnresolvedSymbolKind,
    pub name: String,
}

/// The model of a [`Symbol`].
pub struct SymbolView {
    pub kind: UnresolvedSymbolKind,
    pub name: Seq<char>,
}

impl View for Symbol {
    type V = SymbolView;

    open spec fn view(&self) -> SymbolView {
        SymbolView { kind: self.kind, name: self.name@ }
    }
}

/// The models of a sequence of symbols.
pub open spec fn symbol_views(v: Seq<Symbol>) -> Seq<SymbolView> {
    v.map_values(|s: Symbol| s@)
}

/// The symbols that a value refers to, in order.
pub open spec fn symbols_in(v: TfView) -> Seq<SymbolView>
    decreases v, 0int,
{
    match v {
        TfView::VarRef(name) => seq![SymbolView { kind: UnresolvedSymbolKind::Variable, name }],
        TfView::LocalRef(name) => seq![SymbolView { kind: UnresolvedSymbolKind::Local, name }],
        TfView::Object(m) => symbols_in_entries(m),
        TfView::Array(s) => symbols_in_items(s),
        _ => Seq::empty(),
    }
}

/// The symbols that the values of a map refer to, in order.
pub open spec fn symbols_in_entries(m: TfEntries) -> Seq<SymbolView>
    decreases m, 1int,
{
    if m.len() == 0 {
        Seq::empty()
    } else {
        proof {
            assert(decreases_to!(m => m.last()));
        }
        symbols_in_entries(m.drop_last()) + symbols_in(m.last().1)
    }
}

/// The symbols that the items of an array refer to, in order.
pub open spec fn symbols_in_items(s: Seq<TfView>) -> Seq<SymbolView>
    decreases s, 1int,
{
    if s.len() == 0 {
        Seq::empty()
    } else {
        symbols_in_items(s.drop_last()) + symbols_in(s.last())
    }
}

/// The symbols that the bodies of blocks refer to, in order.
pub open spec fn symbols_in_bodies(s: Seq<TfEntries>) -> Seq<SymbolView>
    decreases s.len(),
{
    if s.len() == 0 {
        Seq::empty()
    } else {
        symbols_in_bodies(s.drop_last()) + symbols_in_entries(s.last())
    }
}

/// The symbols that blocks refer to, in order.
pub open spec fn symbols_in_blocks(m: Seq<(Seq<char>, Seq<TfEntries>)>) -> Seq<SymbolView>
    decreases m.len(),
{
    if m.len() == 0 {
        Seq::empty()
    } else {
        symbols_in_blocks(m.drop_last()) + symbols_in_bodies(m.last().1)
    }
}

/// The symbols that resources refer to, in order.
pub open spec fn symbols_in_resources(rs: Seq<TfResourceView>) -> Seq<SymbolView>
    decreases rs.len(),
{
    if rs.len() == 0 {
        Seq::empty()
    } else {
        symbols_in_resources(rs.drop_last()) + symbols_in_entries(rs.last().attrs)
            + symbols_in_blocks(rs.last().blocks)
    }
}

/// The names of the symbols of a kind that are not known, in order and each
/// once.
pub open spec fn lost_names(
    symbols: Seq<SymbolView>,
    kind: UnresolvedSymbolKind,
    known: TfEntries,
) -> Seq<(Seq<char>, ())>
    decreases symbols.len(),
{
    if symbols.len() == 0 {
        Seq::empty()
    } else {
        let before = lost_names(symbols.drop_last(), kind, known);
        if symbols.last().kind == kind && crate::strmap::lookup(known, symbols.last().name) is None {
            crate::strmap::inserted(before, symbols.last().name, ())
        } else {
            before
        }
    }
}

/// Adds the symbols that a value refers to.
fn scan_value(value: &TfValue, out: &mut Vec<Symbol>)
    ensures
        symbol_views(final(out)@) == symbol_views(old(out)@) + symbols_in(value@),
    decreases value,
{
    let ghost start = symbol_views(out@);
    match value {
        TfValue::VarRef(name) => {
            let s = Symbol { kind: UnresolvedSymbolKind::Variable, name: name.clone() };
            out.push(s);
            assert(symbol_views(out@) =~= start + symbols_in(value@));
        },
        TfValue::LocalRef(name) => {
            let s = Symbol { kind: UnresolvedSymbolKind::Local, name: name.clone() };
            out.push(s);
            assert(symbol_views(out@) =~= start + symbols_in(value@));
        },
        TfValue::Object(v) => {
            let ghost m = crate::tf::parser::object_views(v@);
            assert(value@->Object_0 =~= m);
            assert(symbol_views(out@) =~= start + symbols_in_entries(m.subrange(0, 0)));
            for i in 0..v.len()
                invariant
                    value is Object,
                    value->Object_0 == v,
                    m == crate::tf::parser::object_views(v@),
                    symbol_views(out@) == start + symbols_in_entries(m.subrange(0, i as int)),
            {
                proof {
                    let now = m.subrange(0, i + 1);
                    assert(now.drop_last() =~= m.subrange(0, i as int));
                    assert(now.last() == m[i as int]);
                }
                scan_value(&v[i].1, out);
                assert(symbol_views(out@) =~= start + symbols_in_entries(m.subrange(0, i + 1)));
            }
            assert(m.subrange(0, v@.len() as int) =~= m);
        },
        TfValue::Array(v) => {
            let ghost m = crate::tf::parser::tf_views(v@);
            assert(value@->Array_0 =~= m);
            assert(symbol_views(out@) =~= start + symbols_in_items(m.subrange(0, 0)));
            for i in 0..v.len()
                invariant
                    value is Array,
                    value->Array_0 == v,
                    m == crate::tf::parser::tf_views(v@),
                    symbol_views(out@) == start + symbols_in_items(m.subrange(0, i as int)),
            {
                proof {
                    let now = m.subrange(0, i + 1);
                    assert(now.drop_last() =~= m.subrange(0, i as int));
                    assert(now.last() == m[i as int]);
                }
                scan_value(&v[i], out);
                assert(symbol_views(out@) =~= start + symbols_in_items(m.subrange(0, i + 1)));
            }
            assert(m.subrange(0, v@.len() as int) =~= m);
        },
        _ => {
            assert(symbol_views(out@) =~= start + symbols_in(value@));
        },
    }
}

/// Adds the symbols that the values of a map refer to.
fn scan_attrs(attrs: &StrMap<TfValue>, out: &mut Vec<Symbol>)
    ensures
        symbol_views(final(out)@) == symbol_views(old(out)@) + symbols_in_entries(
            crate::tf::parser::tf_entries(attrs@),
        ),
{
    let ghost start = symbol_views(out@);
    let ghost m = crate::tf::parser::tf_entries(attrs@);
    let n: usize = attrs.len();
    assert(symbol_views(out@) =~= start + symbols_in_entries(m.subrange(0, 0)));
    for i in 0..n
        invariant
            n == attrs@.len(),
            m == crate::tf::parser::tf_entries(attrs@),
            symbol_views(out@) == start + symbols_in_entries(m.subrange(0, i as int)),
    {
        proof {
            let now = m.subrange(0, i + 1);
            assert(now.drop_last() =~= m.subrange(0, i as int));
            assert(now.last() == m[i as int]);
        }
        scan_value(attrs.value_at(i), out);
        assert(symbol_views(out@) =~= start + symbols_in_entries(m.subrange(0, i + 1)));
    }
    assert(m.subrange(0, n as int) =~= m);
}

/// Adds the symbols that a resource refers to.
fn collect_unresolved_refs(resource: &TfResource, out: &mut Vec<Symbol>)
    ensures
        symbol_views(final(out)@) == symbol_views(old(out)@) + symbols_in_entries(
            resource@.attrs,
        ) + symbols_in_blocks(resource@.blocks),
{
    scan_attrs(&resource.attrs, out);
    let ghost start = symbol_views(out@);
    let ghost m = resource@.blocks;
    let n: usize = resource.blocks.len();
    assert(symbol_views(out@) =~= start + symbols_in_blocks(m.subrange(0, 0)));
    for i in 0..n
        invariant
            n == resource.blocks@.len(),
            m == resource@.blocks,
            symbol_views(out@) == start + symbols_in_blocks(m.subrange(0, i as int)),
    {
        let list = resource.blocks.value_at(i);
        let ghost s = crate::tf::parser::block_views(list@);
        let ghost before = symbol_views(out@);
        proof {
            let now = m.subrange(0, i + 1);
            assert(now.drop_last() =~= m.subrange(0, i as int));
            assert(now.last() == (resource.blocks@[i as int].0, s));
        }
        assert(symbol_views(out@) =~= before + symbols_in_bodies(s.subrange(0, 0)));
        for k in 0..list.len()
            invariant
                s == crate::tf::parser::block_views(list@),
                symbol_views(out@) == before + symbols_in_bodies(s.subrange(0, k as int)),
        {
            proof {
                let now = s.subrange(0, k + 1);
                assert(now.drop_last() =~= s.subrange(0, k as int));
                assert(now.last() == crate::tf::parser::tf_entries(list@[k as int]@));
            }
            scan_attrs(&list[k], out);
            assert(symbol_views(out@) =~= before + symbols_in_bodies(s.subrange(0, k + 1)));
        }
        assert(s.subrange(0, list@.len() as int) =~= s);
        assert(symbol_views(out@) =~= start + symbols_in_blocks(m.subrange(0, i + 1)));
    }
    assert(m.subrange(0, n as int) =~= m);
}

/// The names of the symbols of a kind that are not known.
fn find_lost(symbols: &Vec<Symbol>, kind: UnresolvedSymbolKind, known: &StrMap<TfValue>) -> (r:
    StrMap<()>)
    ensures
        r@ == lost_names(symbol_views(symbols@), kind, crate::tf::parser::tf_entries(known@)),
{
    let ghost sv = symbol_views(symbols@);
    let ghost ks = crate::tf::parser::tf_entries(known@);
    let mut out: StrMap<()> = StrMap::new();
    for i in 0..symbols.len()
        invariant
            sv == symbol_views(symbols@),
            ks == crate::tf::parser::tf_entries(known@),
            out@ == lost_names(sv.subrange(0, i as int), kind, ks),
    {
        proof {
            let now = sv.subrange(0, i + 1);
            assert(now.drop_last() =~= sv.subrange(0, i as int));
            assert(now.last() == symbols@[i as int]@);
        }
        if symbols[i].kind == kind && tf_get(known, symbols[i].name.as_str()).is_none() {
            out.insert(symbols[i].name.clone(), ());
        }
    }
    assert(sv.subrange(0, symbols@.len() as int) =~= sv);
    out
}


// ---------------------------------------------------------------------------
// Configurations
// ---------------------------------------------------------------------------

/// A configuration whose variables and locals were resolved.
#[derive(Debug, PartialEq, Eq)]
pub struct ResolvedConfig {
    pub resources: Vec<TfResource>,
    pub vars: StrMap<TfValue>,
    pub locals: StrMap<TfValue>,
}

/// The model of a [`ResolvedConfig`].
#[verifier::ext_equal]
pub struct ResolvedConfigView {
    pub resources: Seq<TfResourceView>,
    pub vars: TfEntries,
    pub locals: TfEntries,
}

impl View for ResolvedConfig {
    type V = ResolvedConfigView;

    open spec fn view(&self) -> ResolvedConfigView {
        ResolvedConfigView {
            resources: crate::tf::parser::tf_resources(self.resources@),
            vars: crate::tf::parser::tf_entries(self.vars@),
            locals: crate::tf::parser::tf_entries(self.locals@),
        }
    }
}

/// A configuration together with what could not be resolved.
#[verifier::ext_equal]
pub struct ConfigOutcome {
    pub value: ResolvedConfigView,
    pub diagnostics: Seq<DiagnosticView>,
}

/// The variable is declared without a default, and no value is supplied.
pub open spec fn is_unset(c: TfConfigView, tfvars: Option<TfEntries>, name: Seq<char>) -> bool {
    crate::strmap::lookup(c.variables, name) == Some(None::<TfView>) && crate::strmap::lookup(
        given_vars(c.variables, tfvars),
        name,
    ) is None
}

/// The diagnostic about a reference to a variable.
pub open spec fn var_diagnostic(name: Seq<char>, unset: bool) -> DiagnosticView {
    DiagnosticView {
        source: DiagnosticSource::Tf,
        code: "unresolved_var_ref"@,
        message: if unset {
            "variable has no default and no tfvars value: var."@ + name + " will not resolve"@
        } else {
            "reference to undefined variable: var."@ + name
        },
        file: None,
    }
}

/// The diagnostic about a reference to a local.
pub open spec fn local_diagnostic(name: Seq<char>, declared: bool) -> DiagnosticView {
    DiagnosticView {
        source: DiagnosticSource::Tf,
        code: "unresolved_local_ref"@,
        message: if declared {
            "local could not be resolved: local."@ + name + " will not resolve"@
        } else {
            "reference to undefined local: local."@ + name
        },
        file: None,
    }
}

/// The variables of a configuration, resolved.
pub open spec fn config_vars(c: TfConfigView, tfvars: Option<TfEntries>) -> TfEntries {
    settled_vars(given_vars(c.variables, tfvars))
}

/// The locals of a configuration: those that stay open, and the closed ones.
pub open spec fn config_locals(c: TfConfigView, tfvars: Option<TfEntries>) -> (
    TfEntries,
    TfEntries,
) {
    settled_locals(c.locals, config_vars(c, tfvars), Seq::empty())
}

/// The resources of a configuration, resolved.
pub open spec fn config_resources(c: TfConfigView, tfvars: Option<TfEntries>) -> Seq<
    TfResourceView,
> {
    c.resources.map_values(
        |r: TfResourceView|
            settled_resource(r, config_vars(c, tfvars), config_locals(c, tfvars).1),
    )
}

/// The variables that resources still refer to and that have no value.
pub open spec fn lost_vars(c: TfConfigView, tfvars: Option<TfEntries>) -> Seq<(Seq<char>, ())> {
    lost_names(
        symbols_in_resources(config_resources(c, tfvars)),
        UnresolvedSymbolKind::Variable,
        config_vars(c, tfvars),
    )
}

/// The locals that resources still refer to and that have no value.
pub open spec fn lost_locals(c: TfConfigView, tfvars: Option<TfEntries>) -> Seq<(Seq<char>, ())> {
    lost_names(
        symbols_in_resources(config_resources(c, tfvars)),
        UnresolvedSymbolKind::Local,
        config_locals(c, tfvars).1,
    )
}

/// The diagnostics about the references that resources hold after resolution:
/// those to variables, then those to locals.
pub open spec fn config_diagnostics(c: TfConfigView, tfvars: Option<TfEntries>) -> Seq<
    DiagnosticView,
> {
    lost_vars(c, tfvars).map_values(
        |e: (Seq<char>, ())| var_diagnostic(e.0, is_unset(c, tfvars, e.0)),
    ) + lost_locals(c, tfvars).map_values(
        |e: (Seq<char>, ())|
            local_diagnostic(
                e.0,
                crate::strmap::lookup(config_locals(c, tfvars).0, e.0) is Some,
            ),
    )
}

/// What resolving a configuration gives. Under the strict policy the first
/// reference that leads nowhere is an error, variables before locals.
pub open spec fn config_resolution(
    c: TfConfigView,
    tfvars: Option<TfEntries>,
    policy: ParsePolicy,
) -> Result<ConfigOutcome, TfErrorView> {
    if policy == ParsePolicy::Strict && lost_vars(c, tfvars).len() > 0 {
        Err(
            TfErrorView::UnresolvedSymbol {
                kind: UnresolvedSymbolKind::Variable,
                name: lost_vars(c, tfvars)[0].0,
                location: None,
            },
        )
    } else if policy == ParsePolicy::Strict && lost_locals(c, tfvars).len() > 0 {
        Err(
            TfErrorView::UnresolvedSymbol {
                kind: UnresolvedSymbolKind::Local,
                name: lost_locals(c, tfvars)[0].0,
                location: None,
            },
        )
    } else {
        Ok(
            ConfigOutcome {
                value: ResolvedConfigView {
                    resources: config_resources(c, tfvars),
                    vars: config_vars(c, tfvars),
                    locals: config_locals(c, tfvars).1,
                },
                diagnostics: config_diagnostics(c, tfvars),
            },
        )
    }
}

/// The model of a result of resolution.
pub open spec fn config_outcome(r: Result<ParseOutcome<ResolvedConfig>, TfError>) -> Result<
    ConfigOutcome,
    TfErrorView,
> {
    match r {
        Ok(o) => Ok(
            ConfigOutcome {
                value: o.value@,
                diagnostics: crate::policy::diagnostic_views(o.diagnostics@),
            },
        ),
        Err(e) => Err(e@),
    }
}

/// The diagnostic about a reference to a variable.
fn var_diagnostic_of(name: &str, unset: bool) -> (r: IacParseDiagnostic)
    ensures
        r@ == var_diagnostic(name@, unset),
{
    let mut message = if unset {
        "variable has no default and no tfvars value: var.".to_owned()
    } else {
        "reference to undefined variable: var.".to_owned()
    };
    message.append(name);
    if unset {
        message.append(" will not resolve");
    }
    IacParseDiagnostic::error(DiagnosticSource::Tf, "unresolved_var_ref", message)
}

/// The diagnostic about a reference to a local.
fn local_diagnostic_of(name: &str, declared: bool) -> (r: IacParseDiagnostic)
    ensures
        r@ == local_diagnostic(name@, declared),
{
    let mut message = if declared {
        "local could not be resolved: local.".to_owned()
    } else {
        "reference to undefined local: local.".to_owned()
    };
    message.append(name);
    if declared {
        message.append(" will not resolve");
    }
    IacParseDiagnostic::error(DiagnosticSource::Tf, "unresolved_local_ref", message)
}

/// Whether a variable is declared without a default, and no value is supplied.
fn unset(variables: &StrMap<TfVariable>, given: &StrMap<TfValue>, name: &str) -> (r: bool)
    ensures
        r == (crate::strmap::lookup(crate::tf::parser::variable_entries(variables@), name@)
            == Some(None::<TfView>) && crate::strmap::lookup(crate::tf::parser::tf_entries(given@), name@) is None),
{
    proof {
        crate::strmap::lemma_lookup_mapped(variables@, |v: TfVariable| v@, name@);
    }
    match variables.get(name) {
        Some(v) => v.default.is_none() && tf_get(given, name).is_none(),
        None => false,
    }
}

/// Whether there is an entry under `name`.
fn is_open(open_locals: &Vec<(String, TfValue)>, name: &str) -> (r: bool)
    ensures
        r == crate::strmap::lookup(crate::tf::parser::object_views(open_locals@), name@) is Some,
{
    proof {
        crate::tf::parser::lemma_object_views(open_locals@);
        crate::strmap::lemma_lookup_mapped(
            crate::strmap::pairs(open_locals@),
            |v: TfValue| v@,
            name@,
        );
    }
    crate::strmap::vec_get(open_locals, name).is_some()
}

/// Resolves a configuration. References to variables without a default and
/// without a supplied value, and to locals that reach no value, are
/// diagnostics under the lenient policy and stay as they are; under the strict
/// policy the first of them is an error.
pub fn resolve_config_with_policy(
    config: TfConfig,
    tfvars: Option<StrMap<TfValue>>,
    policy: ParsePolicy,
) -> (r: Result<ParseOutcome<ResolvedConfig>, TfError>)
    ensures
        config_outcome(r) == config_resolution(config@, supplied(tfvars), policy),
        r is Ok ==> r->Ok_0.had_errors == (r->Ok_0.diagnostics@.len() > 0),
{
    let ghost c = config@;
    let ghost sup = supplied(tfvars);
    let TfConfig { variables, locals: declared, mut resources } = config;
    let given = give_vars(&variables, &tfvars);
    let vars = resolve_vars(&given);
    let (open_locals, locals) = resolve_locals(&declared, &vars);
    let ghost vs = crate::tf::parser::tf_entries(vars@);
    let ghost ls = crate::tf::parser::tf_entries(locals@);
    let ghost all = config_resources(c, sup);

    let mut symbols: Vec<Symbol> = Vec::new();
    assert(symbol_views(symbols@) =~= symbols_in_resources(all.subrange(0, 0)));
    let n: usize = resources.len();
    for i in 0..n
        invariant
            n == resources@.len() == c.resources.len(),
            vs == crate::tf::parser::tf_entries(vars@),
            ls == crate::tf::parser::tf_entries(locals@),
            vs == config_vars(c, sup),
            ls == config_locals(c, sup).1,
            all == config_resources(c, sup),
            forall|j: int| 0 <= j < i ==> (#[trigger] resources@[j])@ == all[j],
            forall|j: int| i <= j < n ==> (#[trigger] resources@[j])@ == c.resources[j],
            symbol_views(symbols@) == symbols_in_resources(all.subrange(0, i as int)),
    {
        resolve_resource(&mut resources[i], &vars, &locals);
        collect_unresolved_refs(&resources[i], &mut symbols);
        proof {
            let now = all.subrange(0, i + 1);
            assert(now.drop_last() =~= all.subrange(0, i as int));
            assert(now.last() == resources@[i as int]@);
        }
    }
    assert(crate::tf::parser::tf_resources(resources@) =~= all);
    assert(all.subrange(0, n as int) =~= all);

    let lost_v = find_lost(&symbols, UnresolvedSymbolKind::Variable, &vars);
    let lost_l = find_lost(&symbols, UnresolvedSymbolKind::Local, &locals);
    let nv: usize = lost_v.len();
    let nl: usize = lost_l.len();
    if policy == ParsePolicy::Strict {
        if nv > 0 {
            return Err(
                TfError::UnresolvedSymbol {
                    kind: UnresolvedSymbolKind::Variable,
                    name: lost_v.key_at(0).clone(),
                    location: None,
                },
            );
        }
        if nl > 0 {
            return Err(
                TfError::UnresolvedSymbol {
                    kind: UnresolvedSymbolKind::Local,
                    name: lost_l.key_at(0).clone(),
                    location: None,
                },
            );
        }
    }
    let ghost dv = config_diagnostics(c, sup);
    let mut diagnostics: Vec<IacParseDiagnostic> = Vec::new();
    assert(crate::policy::diagnostic_views(diagnostics@) =~= dv.subrange(0, 0));
    for i in 0..nv
        invariant
            c.variables == crate::tf::parser::variable_entries(variables@),
            crate::tf::parser::tf_entries(given@) == given_vars(c.variables, sup),
            nv == lost_v@.len(),
            lost_v@ == lost_vars(c, sup),
            dv == config_diagnostics(c, sup),
            crate::policy::diagnostic_views(diagnostics@) == dv.subrange(0, i as int),
    {
        let ghost before = diagnostics@;
        let name = lost_v.key_at(i).as_str();
        let d = var_diagnostic_of(name, unset(&variables, &given, name));
        diagnostics.push(d);
        proof {
            assert(d@ == dv[i as int]);
            assert(crate::policy::diagnostic_views(diagnostics@)
                =~= crate::policy::diagnostic_views(before).push(d@));
            assert(dv.subrange(0, i + 1) =~= dv.subrange(0, i as int).push(dv[i as int]));
        }
    }
    for i in 0..nl
        invariant
            crate::tf::parser::object_views(open_locals@) == config_locals(c, sup).0,
            nv == lost_vars(c, sup).len(),
            nl == lost_l@.len(),
            lost_l@ == lost_locals(c, sup),
            dv == config_diagnostics(c, sup),
            crate::policy::diagnostic_views(diagnostics@) == dv.subrange(0, nv + i),
    {
        let ghost before = diagnostics@;
        let name = lost_l.key_at(i).as_str();
        let d = local_diagnostic_of(name, is_open(&open_locals, name));
        diagnostics.push(d);
        proof {
            assert(d@ == dv[nv + i]);
            assert(crate::policy::diagnostic_views(diagnostics@)
                =~= crate::policy::diagnostic_views(before).push(d@));
            assert(dv.subrange(0, nv + i + 1) =~= dv.subrange(0, nv + i).push(dv[nv + i]));
        }
    }
    assert(dv.subrange(0, nv + nl) =~= dv);
    Ok(ParseOutcome::with_diagnostics(ResolvedConfig { resources, vars, locals }, diagnostics))
}

/// Resolves a configuration, leaving references that lead nowhere as they are.
pub fn resolve_config(config: TfConfig, tfvars: Option<StrMap<TfValue>>) -> (r: Result<
    ResolvedConfig,
    TfError,
>)
    ensures
        match r {
            Ok(v) => config_resolution(config@, supplied(tfvars), ParsePolicy::Lenient) is Ok
                && v@ == config_resolution(
                config@,
                supplied(tfvars),
                ParsePolicy::Lenient,
            )->Ok_0.value,
            Err(_) => false,
        },
{
    match resolve_config_with_policy(config, tfvars, ParsePolicy::Lenient) {
        Ok(outcome) => Ok(outcome.value),
        Err(e) => Err(e),
    }
}

impl ResolvedConfig {
    /// The text of an attribute of a resource.
    pub fn get_str<'a>(&self, resource: &'a TfResource, key: &str) -> (r: Option<&'a str>)
        ensures
            crate::cfn::parser::opt_str(r) == match crate::strmap::lookup(
                resource@.attrs,
                key@,
            ) {
                Some(TfView::String(s)) => Some(s),
                _ => None,
            },
    {
        match tf_get(&resource.attrs, key) {
            Some(v) => v.as_str(),
            None => None,
        }
    }

    /// The number of an attribute of a resource.
    pub fn get_f64(&self, resource: &TfResource, key: &str) -> (r: Option<Number>)
        ensures
            crate::arch::opt_number(r) == match crate::strmap::lookup(resource@.attrs, key@) {
                Some(TfView::Number(n)) => Some(n),
                _ => None,
            },
    {
        match tf_get(&resource.attrs, key) {
            Some(v) => v.as_f64(),
            None => None,
        }
    }

    /// The boolean of an attribute of a resource.
    pub fn get_bool(&self, resource: &TfResource, key: &str) -> (r: Option<bool>)
        ensures
            r == match crate::strmap::lookup(resource@.attrs, key@) {
                Some(TfView::Bool(b)) => Some(b),
                _ => None,
            },
    {
        match tf_get(&resource.attrs, key) {
            Some(v) => v.as_bool(),
            None => None,
        }
    }
}


// ---------------------------------------------------------------------------
// Laws
// ---------------------------------------------------------------------------

/// The lenient policy never fails. The strict policy fails exactly where the
/// lenient one has something to report, and otherwise both give the same.
pub proof fn law_policies_agree(c: TfConfigView, tfvars: Option<TfEntries>)
    ensures
        config_resolution(c, tfvars, ParsePolicy::Lenient) is Ok,
        config_resolution(c, tfvars, ParsePolicy::Strict) is Err <==> config_resolution(
            c,
            tfvars,
            ParsePolicy::Lenient,
        )->Ok_0.diagnostics.len() > 0,
        config_resolution(c, tfvars, ParsePolicy::Strict) is Ok ==> config_resolution(
            c,
            tfvars,
            ParsePolicy::Strict,
        ) == config_resolution(c, tfvars, ParsePolicy::Lenient),
{
}

/// The value that variables are given is the supplied one, or else what it was
/// before.
pub proof fn law_supplied_value_wins(base: TfEntries, over: TfEntries, name: Seq<char>)
    requires
        crate::strmap::keys_rise(over),
    ensures
        crate::strmap::lookup(overridden(base, over), name) == match crate::strmap::lookup(
            over,
            name,
        ) {
            Some(v) => Some(v),
            None => crate::strmap::lookup(base, name),
        },
    decreases over.len(),
{
    if over.len() > 0 {
        let before = over.drop_last();
        assert(crate::strmap::keys_rise(before));
        law_supplied_value_wins(base, before, name);
        crate::strmap::lemma_lookup_inserted(
            overridden(base, before),
            over.last().0,
            over.last().1,
            name,
        );
        crate::strmap::lemma_lookup(before, name);
        crate::strmap::lemma_lookup(over, name);
        crate::strmap::lemma_lookup_sorted(over, over.len() - 1);
        if name != over.last().0 {
            match crate::strmap::lookup(before, name) {
                Some(v) => {
                    let i = choose|i: int|
                        0 <= i < before.len() && (#[trigger] before[i]).0 == name && before[i].1
                            == v;
                    assert(over[i] == before[i]);
                    crate::strmap::lemma_lookup_sorted(over, i);
                },
                None => {
                    if crate::strmap::lookup(over, name) is Some {
                        let i = choose|i: int| 0 <= i < over.len() && (#[trigger] over[i]).0 == name;
                        assert(before[i].0 == name);
                    }
                },
            }
        }
    }
}

/// A value that refers to no variable and no local resolves to itself, where
/// it resolves at all.
proof fn lemma_closed_value(v: TfView, vars: TfEntries, locals: TfEntries, depth: nat)
    requires
        symbols_in(v).len() == 0,
    ensures
        resolved_value(v, vars, locals, depth) is Some ==> resolved_value(v, vars, locals, depth)
            == Some(v),
        resolved_inner(v, vars, locals, depth) == v,
    decreases v, 2int,
{
    if depth <= MAX_DEPTH {
        match v {
            TfView::Object(m) => {
                lemma_closed_fields(m, vars, locals, depth + 1);
            },
            TfView::Array(s) => {
                lemma_closed_items(s, vars, locals, depth + 1);
            },
            TfView::VarRef(name) => {
                assert(symbols_in(v).len() == 1);
            },
            TfView::LocalRef(name) => {
                assert(symbols_in(v).len() == 1);
            },
            _ => {},
        }
    }
}

/// The entries of an object that refer to no variable and no local stay as
/// they are.
proof fn lemma_closed_fields(m: TfEntries, vars: TfEntries, locals: TfEntries, depth: nat)
    requires
        symbols_in_entries(m).len() == 0,
    ensures
        resolved_fields(m, vars, locals, depth) == m,
    decreases m, 3int,
{
    if m.len() > 0 {
        assert(decreases_to!(m => m.last()));
        lemma_closed_fields(m.drop_last(), vars, locals, depth);
        lemma_closed_value(m.last().1, vars, locals, depth);
        assert(m.drop_last().push(m.last()) =~= m);
    }
    assert(resolved_fields(m, vars, locals, depth) =~= m);
}

/// The items of an array that refer to no variable and no local stay as they
/// are.
proof fn lemma_closed_items(s: Seq<TfView>, vars: TfEntries, locals: TfEntries, depth: nat)
    requires
        symbols_in_items(s).len() == 0,
    ensures
        resolved_items(s, vars, locals, depth) == s,
    decreases s, 3int,
{
    if s.len() > 0 {
        lemma_closed_items(s.drop_last(), vars, locals, depth);
        lemma_closed_value(s.last(), vars, locals, depth);
        assert(s.drop_last().push(s.last()) =~= s);
    }
    assert(resolved_items(s, vars, locals, depth) =~= s);
}

/// An attribute that refers to no variable and no local stays as it is.
pub proof fn law_closed_attribute_is_kept(v: TfView, vars: TfEntries, locals: TfEntries)
    requires
        symbols_in(v).len() == 0,
    ensures
        settled_attr(v, vars, locals) == v,
{
    lemma_closed_value(v, vars, locals, 0);
}

/// Attributes that refer to no variable and no local stay as they are.
proof fn lemma_closed_attrs(m: TfEntries, vars: TfEntries, locals: TfEntries)
    requires
        symbols_in_entries(m).len() == 0,
    ensures
        settled_attrs(m, vars, locals) == m,
    decreases m.len(),
{
    if m.len() > 0 {
        lemma_closed_attrs(m.drop_last(), vars, locals);
        law_closed_attribute_is_kept(m.last().1, vars, locals);
        let f = |v: TfView| settled_attr(v, vars, locals);
        assert(settled_attrs(m, vars, locals) =~= settled_attrs(m.drop_last(), vars, locals).push(
            (m.last().0, f(m.last().1)),
        ));
        assert(m.drop_last().push(m.last()) =~= m);
    }
    assert(settled_attrs(m, vars, locals) =~= m);
}

/// Bodies of blocks that refer to no variable and no local stay as they are.
proof fn lemma_closed_bodies(s: Seq<TfEntries>, vars: TfEntries, locals: TfEntries)
    requires
        symbols_in_bodies(s).len() == 0,
    ensures
        s.map_values(|m: TfEntries| settled_attrs(m, vars, locals)) == s,
    decreases s.len(),
{
    let f = |m: TfEntries| settled_attrs(m, vars, locals);
    if s.len() > 0 {
        lemma_closed_bodies(s.drop_last(), vars, locals);
        lemma_closed_attrs(s.last(), vars, locals);
        assert(s.map_values(f) =~= s.drop_last().map_values(f).push(f(s.last())));
        assert(s.drop_last().push(s.last()) =~= s);
    }
    assert(s.map_values(f) =~= s);
}

/// Blocks that refer to no variable and no local stay as they are.
proof fn lemma_closed_blocks(
    m: Seq<(Seq<char>, Seq<TfEntries>)>,
    vars: TfEntries,
    locals: TfEntries,
)
    requires
        symbols_in_blocks(m).len() == 0,
    ensures
        crate::strmap::mapped(
            m,
            |s: Seq<TfEntries>| s.map_values(|e: TfEntries| settled_attrs(e, vars, locals)),
        ) == m,
    decreases m.len(),
{
    let f = |s: Seq<TfEntries>| s.map_values(|e: TfEntries| settled_attrs(e, vars, locals));
    if m.len() > 0 {
        lemma_closed_blocks(m.drop_last(), vars, locals);
        lemma_closed_bodies(m.last().1, vars, locals);
        assert(crate::strmap::mapped(m, f) =~= crate::strmap::mapped(m.drop_last(), f).push(
            (m.last().0, f(m.last().1)),
        ));
        assert(m.drop_last().push(m.last()) =~= m);
    }
    assert(crate::strmap::mapped(m, f) =~= m);
}

/// Resources that refer to no variable and no local stay as they are.
proof fn lemma_closed_resources(
    rs: Seq<TfResourceView>,
    vars: TfEntries,
    locals: TfEntries,
)
    requires
        symbols_in_resources(rs).len() == 0,
    ensures
        rs.map_values(|r: TfResourceView| settled_resource(r, vars, locals)) == rs,
    decreases rs.len(),
{
    let f = |r: TfResourceView| settled_resource(r, vars, locals);
    if rs.len() > 0 {
        lemma_closed_resources(rs.drop_last(), vars, locals);
        lemma_closed_attrs(rs.last().attrs, vars, locals);
        lemma_closed_blocks(rs.last().blocks, vars, locals);
        assert(f(rs.last()) =~= rs.last());
        assert(rs.map_values(f) =~= rs.drop_last().map_values(f).push(f(rs.last())));
        assert(rs.drop_last().push(rs.last()) =~= rs);
    }
    assert(rs.map_values(f) =~= rs);
}

/// Resources that refer to no variable and no local are given back as they
/// are, and nothing about them is unresolved under either policy: neither a
/// reference to a resource nor a variable that is declared without a value
/// and not used.
pub proof fn law_closed_resources_resolve(
    c: TfConfigView,
    tfvars: Option<TfEntries>,
    policy: ParsePolicy,
)
    requires
        symbols_in_resources(c.resources).len() == 0,
    ensures
        config_resolution(c, tfvars, policy) is Ok,
        config_resolution(c, tfvars, policy)->Ok_0.value.resources == c.resources,
        config_resolution(c, tfvars, policy)->Ok_0.diagnostics.len() == 0,
{
    lemma_closed_resources(c.resources, config_vars(c, tfvars), config_locals(c, tfvars).1);
}

/// A name is reported exactly where a resource still refers to a symbol of
/// that name that has no value.
pub proof fn law_reported_names(
    symbols: Seq<SymbolView>,
    kind: UnresolvedSymbolKind,
    known: TfEntries,
    name: Seq<char>,
)
    ensures
        crate::strmap::lookup(lost_names(symbols, kind, known), name) is Some <==> (
        crate::strmap::lookup(known, name) is None && symbols.contains(SymbolView { kind, name })),
    decreases symbols.len(),
{
    if symbols.len() > 0 {
        let before = symbols.drop_last();
        let s = SymbolView { kind, name };
        law_reported_names(before, kind, known, name);
        crate::strmap::lemma_lookup_inserted(
            lost_names(before, kind, known),
            symbols.last().name,
            (),
            name,
        );
        if before.contains(s) {
            let i = choose|i: int| 0 <= i < before.len() && before[i] == s;
            assert(symbols[i] == s);
        }
        if symbols.last() == s {
            assert(symbols[symbols.len() - 1] == s);
        } else if symbols.contains(s) {
            let i = choose|i: int| 0 <= i < symbols.len() && symbols[i] == s;
            assert(before[i] == s);
        }
    }
}

/// Resolution keeps which resources there are, and which attributes and blocks
/// they have.
pub proof fn law_resolution_keeps_names(
    c: TfConfigView,
    tfvars: Option<TfEntries>,
    policy: ParsePolicy,
    i: int,
)
    requires
        config_resolution(c, tfvars, policy) is Ok,
        0 <= i < c.resources.len(),
    ensures
        config_resolution(c, tfvars, policy)->Ok_0.value.resources.len() == c.resources.len(),
        ({
            let r = config_resolution(c, tfvars, policy)->Ok_0.value.resources[i];
            let s = c.resources[i];
            &&& r.resource_type == s.resource_type
            &&& r.name == s.name
            &&& r.attrs.map_values(|e: (Seq<char>, TfView)| e.0) == s.attrs.map_values(
                |e: (Seq<char>, TfView)| e.0,
            )
            &&& r.blocks.map_values(|e: (Seq<char>, Seq<TfEntries>)| e.0) == s.blocks.map_values(
                |e: (Seq<char>, Seq<TfEntries>)| e.0,
            )
        }),
{
    let r = config_resolution(c, tfvars, policy)->Ok_0.value.resources[i];
    let s = c.resources[i];
    assert(r.attrs.map_values(|e: (Seq<char>, TfView)| e.0) =~= s.attrs.map_values(
        |e: (Seq<char>, TfView)| e.0,
    ));
    assert(r.blocks.map_values(|e: (Seq<char>, Seq<TfEntries>)| e.0) =~= s.blocks.map_values(
        |e: (Seq<char>, Seq<TfEntries>)| e.0,
    ));
}

} // verus!
