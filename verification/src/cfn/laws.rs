//! What holds of templates, of their conditions and of their resolution.

use vstd::prelude::*;

use crate::cfn::error::CfnErrorView;
use crate::cfn::intrinsic::ContextView;
use crate::cfn::parser::condition_holds;
use crate::cfn::parser::condition_value;
use crate::cfn::parser::resolution;
use crate::cfn::parser::template_of;
use crate::cfn::parser::ConditionView;
use crate::cfn::parser::ParameterView;
use crate::cfn::parser::TemplateView;
use crate::cfn::resolved::ResolvedView;
use crate::policy::DiagnosticSource;
use crate::policy::ParsePolicy;
use crate::strmap::lookup;
use crate::yaml::YamlView;

verus! {

// ---------------------------------------------------------------------------
// Conditions
// ---------------------------------------------------------------------------

/// `!Not [x]` holds exactly where `x` does not hold. With any other number of
/// operands it does not hold.
pub proof fn law_not_negates(x: YamlView, s: Seq<YamlView>, c: ConditionView)
    ensures
        condition_holds(
            YamlView::Tagged("!Not"@, Box::new(YamlView::Sequence(seq![x]))),
            c,
        ) == !condition_holds(x, c),
        s.len() != 1 ==> !condition_holds(
            YamlView::Tagged("!Not"@, Box::new(YamlView::Sequence(s))),
            c,
        ),
{
    reveal_strlit("!Not");
    reveal_strlit("!Equals");
    reveal_strlit("!And");
    reveal_strlit("!Or");
    assert("!Not"@.len() == 4);
    assert("!Equals"@.len() == 7);
    assert("!And"@.len() == 4);
    assert("!Or"@.len() == 3);
    assert("!Not"@[1] != "!And"@[1]);
    reveal_with_fuel(crate::yaml::untagged, 2);
    reveal_with_fuel(condition_holds, 2);
    let s1 = seq![x];
    assert(crate::yaml::yaml_items(YamlView::Sequence(s1)) == Some(s1));
    assert(s1[0] == x);
    assert(crate::yaml::yaml_items(YamlView::Sequence(s)) == Some(s));
}

/// Two negations cancel.
pub proof fn law_double_negation(x: YamlView, c: ConditionView)
    ensures
        condition_holds(
            YamlView::Tagged(
                "!Not"@,
                Box::new(
                    YamlView::Sequence(
                        seq![
                            YamlView::Tagged("!Not"@, Box::new(YamlView::Sequence(seq![x]))),
                        ],
                    ),
                ),
            ),
            c,
        ) == condition_holds(x, c),
{
    law_not_negates(x, Seq::empty(), c);
    law_not_negates(
        YamlView::Tagged("!Not"@, Box::new(YamlView::Sequence(seq![x]))),
        Seq::empty(),
        c,
    );
}

proof fn lemma_all(s: Seq<YamlView>, c: ConditionView)
    ensures
        crate::cfn::parser::all_hold(s, c) <==> forall|i: int|
            0 <= i < s.len() ==> #[trigger] condition_holds(s[i], c),
    decreases s.len(),
{
    if s.len() > 0 {
        let t = s.drop_last();
        lemma_all(t, c);
        if crate::cfn::parser::all_hold(s, c) {
            assert forall|i: int| 0 <= i < s.len() implies #[trigger] condition_holds(
                s[i],
                c,
            ) by {
                if i < t.len() {
                    assert(condition_holds(t[i], c));
                }
            }
        }
        if forall|i: int| 0 <= i < s.len() ==> #[trigger] condition_holds(s[i], c) {
            assert forall|i: int| 0 <= i < t.len() implies #[trigger] condition_holds(
                t[i],
                c,
            ) by {
                assert(condition_holds(s[i], c));
            }
            assert(condition_holds(s[s.len() - 1], c));
        }
    }
}

proof fn lemma_some(s: Seq<YamlView>, c: ConditionView)
    ensures
        crate::cfn::parser::some_holds(s, c) <==> exists|i: int|
            0 <= i < s.len() && #[trigger] condition_holds(s[i], c),
    decreases s.len(),
{
    if s.len() > 0 {
        let t = s.drop_last();
        lemma_some(t, c);
        if crate::cfn::parser::some_holds(t, c) {
            let i = choose|i: int| 0 <= i < t.len() && #[trigger] condition_holds(t[i], c);
            assert(condition_holds(s[i], c));
        } else if condition_holds(s.last(), c) {
            assert(condition_holds(s[s.len() - 1], c));
        }
        if exists|i: int| 0 <= i < s.len() && #[trigger] condition_holds(s[i], c) {
            let i = choose|i: int| 0 <= i < s.len() && #[trigger] condition_holds(s[i], c);
            if i < t.len() {
                assert(condition_holds(t[i], c));
            }
        }
    }
}

/// `!And` holds exactly where every member holds, and `!Or` exactly where some
/// member holds.
pub proof fn law_and_or(s: Seq<YamlView>, c: ConditionView)
    ensures
        condition_holds(YamlView::Tagged("!And"@, Box::new(YamlView::Sequence(s))), c) <==> (
        forall|i: int| 0 <= i < s.len() ==> #[trigger] condition_holds(s[i], c)),
        condition_holds(YamlView::Tagged("!Or"@, Box::new(YamlView::Sequence(s))), c) <==> (
        exists|i: int| 0 <= i < s.len() && #[trigger] condition_holds(s[i], c)),
{
    reveal_strlit("!Not");
    reveal_strlit("!Equals");
    reveal_strlit("!And");
    reveal_strlit("!Or");
    assert("!Not"@.len() == 4);
    assert("!Equals"@.len() == 7);
    assert("!And"@.len() == 4);
    assert("!Or"@.len() == 3);
    assert("!Not"@[1] != "!And"@[1]);
    reveal_with_fuel(crate::yaml::untagged, 2);
    assert(crate::yaml::yaml_items(YamlView::Sequence(s)) == Some(s));
    lemma_all(s, c);
    lemma_some(s, c);
}

/// `!Equals [a, b]`, also written `Fn::Equals`, holds exactly where both values
/// stand for the same text.
pub proof fn law_equals_compares(a: YamlView, b: YamlView, c: ConditionView)
    ensures
        condition_holds(
            YamlView::Tagged("!Equals"@, Box::new(YamlView::Sequence(seq![a, b]))),
            c,
        ) <==> (condition_value(a, c) is Ok && condition_value(b, c) is Ok && condition_value(
            a,
            c,
        )->Ok_0 == condition_value(b, c)->Ok_0),
        condition_holds(
            YamlView::Mapping(
                seq![(YamlView::String("Fn::Equals"@), YamlView::Sequence(seq![a, b]))],
            ),
            c,
        ) == condition_holds(
            YamlView::Tagged("!Equals"@, Box::new(YamlView::Sequence(seq![a, b]))),
            c,
        ),
{
    reveal_with_fuel(crate::yaml::untagged, 2);
    reveal_with_fuel(crate::yaml::yaml_get, 2);
    let s = seq![a, b];
    assert(crate::yaml::yaml_items(YamlView::Sequence(s)) == Some(s));
    assert(s[0] == a && s[1] == b);
    let m = seq![(YamlView::String("Fn::Equals"@), YamlView::Sequence(s))];
    assert(m[0].0 == YamlView::String("Fn::Equals"@));
}

/// What values in conditions stand for: a string for itself, a boolean for its
/// name, a reference for the value of the parameter, and `!FindInMap` for what
/// the mappings hold under the three keys.
pub proof fn law_condition_values(
    s: Seq<char>,
    b: bool,
    x: YamlView,
    y: YamlView,
    z: YamlView,
    c: ConditionView,
)
    ensures
        condition_value(YamlView::String(s), c) == Ok::<Seq<char>, CfnErrorView>(s),
        condition_value(YamlView::Bool(b), c) == Ok::<Seq<char>, CfnErrorView>(
            if b {
                "true"@
            } else {
                "false"@
            },
        ),
        condition_value(YamlView::Tagged("!Ref"@, Box::new(YamlView::String(s))), c) == match lookup(
            c.params,
            s,
        ) {
            Some(v) => Ok(v),
            None => Err(CfnErrorView::ParameterNotFound(s)),
        },
        condition_value(
            YamlView::Mapping(seq![(YamlView::String("Ref"@), YamlView::String(s))]),
            c,
        ) == condition_value(YamlView::Tagged("!Ref"@, Box::new(YamlView::String(s))), c),
        condition_value(x, c) is Ok && condition_value(y, c) is Ok && condition_value(z, c) is Ok
            ==> ({
            let (i, j, k) = (
                condition_value(x, c)->Ok_0,
                condition_value(y, c)->Ok_0,
                condition_value(z, c)->Ok_0,
            );
            let found = condition_value(
                YamlView::Tagged("!FindInMap"@, Box::new(YamlView::Sequence(seq![x, y, z]))),
                c,
            );
            &&& found is Ok <==> lookup(c.mappings, i) is Some && lookup(
                lookup(c.mappings, i)->Some_0,
                j,
            ) is Some && lookup(lookup(lookup(c.mappings, i)->Some_0, j)->Some_0, k) is Some
            &&& found is Ok ==> found->Ok_0 == lookup(
                lookup(lookup(c.mappings, i)->Some_0, j)->Some_0,
                k,
            )->Some_0
            &&& found is Err ==> found->Err_0 == CfnErrorView::MappingNotFound {
                map_name: i,
                first_key: j,
                second_key: k,
            }
            &&& condition_value(
                YamlView::Mapping(
                    seq![
                        (YamlView::String("Fn::FindInMap"@), YamlView::Sequence(seq![x, y, z])),
                    ],
                ),
                c,
            ) == found
        }),
{
    reveal_strlit("!Ref");
    reveal_strlit("!FindInMap");
    reveal_strlit("Ref");
    reveal_strlit("Fn::FindInMap");
    assert("!Ref"@.len() == 4);
    assert("!FindInMap"@.len() == 10);
    assert("Ref"@.len() == 3);
    assert("Fn::FindInMap"@.len() == 13);
    reveal_with_fuel(crate::yaml::untagged, 2);
    reveal_with_fuel(crate::yaml::yaml_get, 3);
    reveal_with_fuel(condition_value, 2);
    let m = seq![(YamlView::String("Ref"@), YamlView::String(s))];
    assert(m[0].0 == YamlView::String("Ref"@));
    assert(crate::yaml::yaml_str(YamlView::String(s)) == Some(s));
    assert(crate::cfn::parser::string_under(m, "Ref"@) == Some(s));
    let q = seq![x, y, z];
    assert(q[0] == x && q[1] == y && q[2] == z);
    assert(crate::yaml::yaml_items(YamlView::Sequence(q)) == Some(q));
    let n = seq![(YamlView::String("Fn::FindInMap"@), YamlView::Sequence(q))];
    assert(n[0].0 == YamlView::String("Fn::FindInMap"@));
    assert(n.drop_first() =~= Seq::empty());
    assert(crate::yaml::yaml_get(n, "Ref"@) is None);
    assert(crate::yaml::yaml_get(n, "Fn::FindInMap"@) == Some(YamlView::Sequence(q)));
}

// ---------------------------------------------------------------------------
// Parameters
// ---------------------------------------------------------------------------

/// The value that a declared parameter has: the supplied one, or else the
/// default.
proof fn lemma_bound(
    ps: Seq<(Seq<char>, ParameterView)>,
    supplied: Seq<(Seq<char>, Seq<char>)>,
    name: Seq<char>,
)
    requires
        crate::strmap::keys_rise(ps),
    ensures
        lookup(crate::cfn::parser::effective_parameters(ps, supplied), name) == match lookup(
            ps,
            name,
        ) {
            Some(def) => match lookup(supplied, name) {
                Some(v) => Some(v),
                None => def.default,
            },
            None => None,
        },
        forall|i: int|
            0 <= i < crate::cfn::parser::effective_parameters(ps, supplied).len() ==> exists|k: int|
                0 <= k < ps.len() && (#[trigger] ps[k]).0 == (
                #[trigger] crate::cfn::parser::effective_parameters(ps, supplied)[i]).0,
    decreases ps.len(),
{
    let all = crate::cfn::parser::effective_parameters(ps, supplied);
    if ps.len() > 0 {
        let t = ps.drop_last();
        let rest = crate::cfn::parser::effective_parameters(t, supplied);
        assert(crate::strmap::keys_rise(t)) by {
            assert forall|i: int, j: int| 0 <= i < j < t.len() implies crate::text::text_lt(
                #[trigger] t[i].0,
                #[trigger] t[j].0,
            ) by {
                assert(crate::text::text_lt(ps[i].0, ps[j].0));
            }
        }
        lemma_bound(t, supplied, name);
        assert forall|i: int| 0 <= i < all.len() implies exists|k: int|
            0 <= k < ps.len() && (#[trigger] ps[k]).0 == (#[trigger] all[i]).0 by {
            if i < rest.len() {
                assert(all[i] == rest[i]);
                let k = choose|k: int| 0 <= k < t.len() && (#[trigger] t[k]).0 == rest[i].0;
                assert(ps[k].0 == all[i].0);
            } else {
                assert(ps[ps.len() - 1].0 == all[i].0);
            }
        }
        let last = ps.last();
        crate::strmap::lemma_lookup(ps, name);
        crate::strmap::lemma_lookup(t, name);
        crate::strmap::lemma_lookup(rest, name);
        crate::strmap::lemma_lookup(all, name);
        if name == last.0 {
            crate::strmap::lemma_lookup_sorted(ps, ps.len() - 1);
            assert forall|k: int| 0 <= k < t.len() implies (#[trigger] t[k]).0 != name by {
                crate::text::lemma_text_lt_irreflexive(name);
                assert(crate::text::text_lt(ps[k].0, ps[ps.len() - 1].0));
            }
            assert forall|i: int| 0 <= i < rest.len() implies (#[trigger] rest[i]).0 != name by {
                let k = choose|k: int| 0 <= k < t.len() && (#[trigger] t[k]).0 == rest[i].0;
            }
            if all.len() > rest.len() {
                crate::strmap::lemma_lookup_at(all, name, rest.len() as int);
            } else {
                crate::strmap::lemma_lookup_none(all, name);
            }
        } else {
            lemma_lookup_push(t, last, name);
            assert(t.push(last) =~= ps);
            if all.len() > rest.len() {
                lemma_lookup_push(rest, all.last(), name);
            }
        }
    }
}

/// Another entry behind the others does not change what is found under other
/// keys.
pub proof fn lemma_lookup_push<V>(s: Seq<(Seq<char>, V)>, e: (Seq<char>, V), name: Seq<char>)
    requires
        e.0 != name,
    ensures
        lookup(s.push(e), name) == lookup(s, name),
    decreases s.len(),
{
    reveal_with_fuel(lookup, 2);
    if s.len() > 0 {
        assert(s.push(e).drop_first() =~= s.drop_first().push(e));
        if s[0].0 != name {
            lemma_lookup_push(s.drop_first(), e, name);
        }
    } else {
        assert(s.push(e).drop_first() =~= Seq::empty());
    }
}

/// In conditions and properties a declared parameter has the value that was
/// supplied for it, or else its default; what was supplied for other names does
/// not count.
pub proof fn law_parameters_are_bound(
    t: TemplateView,
    supplied: Seq<(Seq<char>, Seq<char>)>,
    imports: Seq<(Seq<char>, Seq<char>)>,
    name: Seq<char>,
)
    requires
        crate::strmap::keys_rise(t.parameters),
    ensures
        lookup(crate::cfn::parser::template_context(t, supplied, imports).parameters, name)
            == match lookup(t.parameters, name) {
            Some(def) => match lookup(supplied, name) {
                Some(v) => Some(v),
                None => def.default,
            },
            None => None,
        },
        crate::cfn::parser::template_context(t, supplied, imports).imports == imports,
        crate::cfn::parser::template_context(t, supplied, imports).mappings == t.mappings,
        crate::cfn::parser::template_context(t, supplied, imports).unbound.contains(name) <==> ({
            let def = lookup(t.parameters, name);
            def is Some && lookup(supplied, name) is None && def->Some_0.default is None
        }),
{
    lemma_bound(t.parameters, supplied, name);
    lemma_unbound(t.parameters, supplied, name);
}

/// The names without a value are those of declared parameters that have
/// neither a supplied value nor a default.
proof fn lemma_unbound(
    ps: Seq<(Seq<char>, ParameterView)>,
    supplied: Seq<(Seq<char>, Seq<char>)>,
    name: Seq<char>,
)
    requires
        crate::strmap::keys_rise(ps),
    ensures
        crate::cfn::parser::missing_parameters(ps, supplied).contains(name) <==> (lookup(
            ps,
            name,
        ) is Some && lookup(supplied, name) is None && lookup(ps, name)->Some_0.default is None),
    decreases ps.len(),
{
    let all = crate::cfn::parser::missing_parameters(ps, supplied);
    if ps.len() > 0 {
        let t = ps.drop_last();
        let last = ps.last();
        let rest = crate::cfn::parser::missing_parameters(t, supplied);
        assert forall|i: int, j: int| 0 <= i < j < t.len() implies crate::text::text_lt(
            #[trigger] t[i].0,
            #[trigger] t[j].0,
        ) by {
            assert(crate::text::text_lt(ps[i].0, ps[j].0));
        }
        lemma_unbound(t, supplied, name);
        assert(t.push(last) =~= ps);
        if all.len() > rest.len() {
            assert(all[all.len() - 1] == last.0);
        }
        if rest.contains(name) {
            let i = rest.index_of(name);
            assert(all[i] == name);
        }
        if all.contains(name) {
            let i = all.index_of(name);
            if i < rest.len() {
                assert(rest[i] == name);
            }
        }
        if name == last.0 {
            crate::strmap::lemma_lookup_sorted(ps, ps.len() - 1);
            assert forall|k: int| 0 <= k < t.len() implies (#[trigger] t[k]).0 != name by {
                crate::text::lemma_text_lt_irreflexive(name);
                assert(crate::text::text_lt(ps[k].0, ps[ps.len() - 1].0));
            }
            crate::strmap::lemma_lookup_none(t, name);
        } else {
            lemma_lookup_push(t, last, name);
        }
    }
}

/// Strict resolution of a template with a parameter that has neither a supplied
/// value nor a default fails, and the error lists exactly such parameters;
/// lenient resolution reports them first.
pub proof fn law_missing_parameters_are_reported(
    t: TemplateView,
    supplied: Seq<(Seq<char>, Seq<char>)>,
    imports: Seq<(Seq<char>, Seq<char>)>,
    file: Option<Seq<char>>,
    name: Seq<char>,
)
    requires
        crate::strmap::keys_rise(t.parameters),
        lookup(t.parameters, name) is Some,
        lookup(t.parameters, name)->Some_0.default is None,
        lookup(supplied, name) is None,
    ensures
        exists|names: Seq<Seq<char>>|
            {
                &&& names.contains(name)
                &&& (forall|n: Seq<char>| #[trigger]
                    names.contains(n) ==> lookup(t.parameters, n) is Some && lookup(
                        supplied,
                        n,
                    ) is None && lookup(t.parameters, n)->Some_0.default is None)
                &&& resolution(t, supplied, imports, ParsePolicy::Strict, file) == Err::<
                    crate::cfn::parser::ResolutionView,
                    CfnErrorView,
                >(CfnErrorView::MissingParameters(#[trigger] crate::text::joined(names, ", "@)))
                &&& resolution(t, supplied, imports, ParsePolicy::Lenient, file) matches Ok(done)
                    ==> done.diagnostics.len() > 0 && done.diagnostics[0].source
                    == DiagnosticSource::Cfn && done.diagnostics[0].code == "missing_parameter"@
                    && done.diagnostics[0].file == file && done.diagnostics[0].message
                    == "Parameters: ["@ + crate::text::joined(names, ", "@) + "] must have values"@
            },
{
    let names = crate::cfn::parser::missing_parameters(t.parameters, supplied);
    lemma_unbound(t.parameters, supplied, name);
    assert forall|n: Seq<char>| #[trigger] names.contains(n) implies lookup(t.parameters, n) is Some
        && lookup(supplied, n) is None && lookup(t.parameters, n)->Some_0.default is None by {
        lemma_unbound(t.parameters, supplied, n);
    }
    assert(names.len() > 0);
    let text = crate::text::joined(names, ", "@);
    assert(resolution(t, supplied, imports, ParsePolicy::Strict, file) == Err::<
        crate::cfn::parser::ResolutionView,
        CfnErrorView,
    >(CfnErrorView::MissingParameters(text)));
    if let Ok(done) = resolution(t, supplied, imports, ParsePolicy::Lenient, file) {
        let d = crate::cfn::parser::diagnostic_of(CfnErrorView::MissingParameters(text), file);
        assert(done.diagnostics[0] == d);
    }
}

// ---------------------------------------------------------------------------
// Resources
// ---------------------------------------------------------------------------

/// What was resolved first is still there when more is resolved.
proof fn lemma_resolved_kept(
    rs: crate::cfn::parser::ResourceEntries,
    ctx: ContextView,
    policy: ParsePolicy,
    file: Option<Seq<char>>,
    k: int,
)
    requires
        0 <= k < rs.len(),
        crate::cfn::parser::resolve_resources(rs, ctx, policy, file) is Ok,
        !(rs[k].1.condition is Some && lookup(ctx.conditions, rs[k].1.condition->Some_0) == Some(
            false,
        )),
    ensures
        ({
            let done = crate::cfn::parser::resolve_resources(rs, ctx, policy, file)->Ok_0;
            match crate::cfn::intrinsic::resolve_at(rs[k].1.properties, ctx, 0) {
                Ok(v) => exists|i: int|
                    0 <= i < done.resources.len() && (#[trigger] done.resources[i]).0 == rs[k].0
                        && done.resources[i].1.logical_id == rs[k].1.logical_id
                        && done.resources[i].1.resource_type == rs[k].1.resource_type
                        && done.resources[i].1.condition == rs[k].1.condition
                        && done.resources[i].1.depends_on == rs[k].1.depends_on
                        && done.resources[i].1.properties == v,
                Err(e) => policy == ParsePolicy::Lenient && exists|i: int|
                    0 <= i < done.diagnostics.len() && (#[trigger] done.diagnostics[i])
                        == crate::cfn::parser::diagnostic_of(e, file),
            }
        }),
    decreases rs.len(),
{
    let done = crate::cfn::parser::resolve_resources(rs, ctx, policy, file)->Ok_0;
    let t = rs.drop_last();
    let before = crate::cfn::parser::resolve_resources(t, ctx, policy, file)->Ok_0;
    if k < t.len() {
        assert(t[k] == rs[k]);
        lemma_resolved_kept(t, ctx, policy, file, k);
        match crate::cfn::intrinsic::resolve_at(rs[k].1.properties, ctx, 0) {
            Ok(v) => {
                let i = choose|i: int|
                    0 <= i < before.resources.len() && (#[trigger] before.resources[i]).0
                        == rs[k].0 && before.resources[i].1.logical_id == rs[k].1.logical_id
                        && before.resources[i].1.resource_type == rs[k].1.resource_type
                        && before.resources[i].1.condition == rs[k].1.condition
                        && before.resources[i].1.depends_on == rs[k].1.depends_on
                        && before.resources[i].1.properties == v;
                assert(done.resources[i] == before.resources[i]);
            },
            Err(e) => {
                let i = choose|i: int|
                    0 <= i < before.diagnostics.len() && (#[trigger] before.diagnostics[i])
                        == crate::cfn::parser::diagnostic_of(e, file);
                assert(done.diagnostics[i] == before.diagnostics[i]);
            },
        }
    } else {
        match crate::cfn::intrinsic::resolve_at(rs[k].1.properties, ctx, 0) {
            Ok(v) => {
                assert(done.resources[done.resources.len() - 1].0 == rs[k].0);
            },
            Err(e) => {
                assert(done.diagnostics[done.diagnostics.len() - 1]
                    == crate::cfn::parser::diagnostic_of(e, file));
            },
        }
    }
}

/// A resource whose condition does not hold is left out of the resolved
/// template.
pub proof fn law_false_condition_leaves_out(
    t: TemplateView,
    supplied: Seq<(Seq<char>, Seq<char>)>,
    imports: Seq<(Seq<char>, Seq<char>)>,
    policy: ParsePolicy,
    file: Option<Seq<char>>,
    k: int,
)
    requires
        crate::strmap::keys_rise(t.resources),
        0 <= k < t.resources.len(),
        resolution(t, supplied, imports, policy, file) is Ok,
        t.resources[k].1.condition is Some,
        lookup(t.conditions, t.resources[k].1.condition->Some_0) is Some,
        !condition_holds(
            lookup(t.conditions, t.resources[k].1.condition->Some_0)->Some_0,
            ConditionView {
                params: crate::cfn::parser::template_context(t, supplied, imports).parameters,
                mappings: t.mappings,
            },
        ),
    ensures
        forall|i: int|
            0 <= i < resolution(t, supplied, imports, policy, file)->Ok_0.resources.len() ==> (
            #[trigger] resolution(t, supplied, imports, policy, file)->Ok_0.resources[i]).0
                != t.resources[k].0,
{
    let ctx = crate::cfn::parser::template_context(t, supplied, imports);
    let c = ConditionView { params: ctx.parameters, mappings: t.mappings };
    let rs = t.resources;
    let done = resolution(t, supplied, imports, policy, file)->Ok_0;
    crate::strmap::lemma_lookup_mapped(
        t.conditions,
        |v: YamlView| condition_holds(v, c),
        rs[k].1.condition->Some_0,
    );
    assert forall|i: int| 0 <= i < done.resources.len() implies (#[trigger] done.resources[i]).0
        != rs[k].0 by {
        crate::cfn::parser::law_resolved_resources_are_declared(rs, ctx, policy, file, i);
        let x = done.resources[i];
        let j = choose|j: int|
            0 <= j < rs.len() && ({
                &&& (#[trigger] rs[j]).0 == x.0
                &&& rs[j].1.resource_type == x.1.resource_type
                &&& !crate::cfn::parser::left_out(rs[j].1.condition, ctx.conditions)
                &&& crate::cfn::intrinsic::resolve_at(rs[j].1.properties, ctx, 0) == Ok::<
                    ResolvedView,
                    CfnErrorView,
                >(x.1.properties)
            });
        if x.0 == rs[k].0 {
            crate::text::lemma_text_lt_irreflexive(x.0);
            if j < k {
                assert(crate::text::text_lt(rs[j].0, rs[k].0));
            } else if k < j {
                assert(crate::text::text_lt(rs[k].0, rs[j].0));
            }
        }
    }
}

/// A resource without a condition, with one that the template does not define,
/// or with one that holds is in the resolved template, under its own ID and
/// with its own type, condition and dependencies, and its properties resolved.
/// Where its properties cannot be resolved, strict resolution fails.
pub proof fn law_other_resources_are_kept(
    t: TemplateView,
    supplied: Seq<(Seq<char>, Seq<char>)>,
    imports: Seq<(Seq<char>, Seq<char>)>,
    policy: ParsePolicy,
    file: Option<Seq<char>>,
    k: int,
)
    requires
        0 <= k < t.resources.len(),
        resolution(t, supplied, imports, policy, file) is Ok,
        t.resources[k].1.condition is None || lookup(
            t.conditions,
            t.resources[k].1.condition->Some_0,
        ) is None || condition_holds(
            lookup(t.conditions, t.resources[k].1.condition->Some_0)->Some_0,
            ConditionView {
                params: crate::cfn::parser::template_context(t, supplied, imports).parameters,
                mappings: t.mappings,
            },
        ),
    ensures
        ({
            let done = resolution(t, supplied, imports, policy, file)->Ok_0;
            let r = t.resources[k].1;
            match crate::cfn::intrinsic::resolve_at(
                r.properties,
                crate::cfn::parser::template_context(t, supplied, imports),
                0,
            ) {
                Ok(v) => exists|i: int|
                    0 <= i < done.resources.len() && (#[trigger] done.resources[i]).0
                        == t.resources[k].0 && done.resources[i].1.logical_id == r.logical_id
                        && done.resources[i].1.resource_type == r.resource_type
                        && done.resources[i].1.condition == r.condition
                        && done.resources[i].1.depends_on == r.depends_on
                        && done.resources[i].1.properties == v,
                Err(e) => policy == ParsePolicy::Lenient && exists|i: int|
                    0 <= i < done.diagnostics.len() && (#[trigger] done.diagnostics[i]).source
                        == DiagnosticSource::Cfn && done.diagnostics[i].file == file,
            }
        }),
{
    let ctx = crate::cfn::parser::template_context(t, supplied, imports);
    let c = ConditionView { params: ctx.parameters, mappings: t.mappings };
    let r = t.resources[k].1;
    if r.condition is Some {
        crate::strmap::lemma_lookup_mapped(
            t.conditions,
            |v: YamlView| condition_holds(v, c),
            r.condition->Some_0,
        );
    }
    lemma_resolved_kept(t.resources, ctx, policy, file, k);
    let done = resolution(t, supplied, imports, policy, file)->Ok_0;
    let inner = crate::cfn::parser::resolve_resources(t.resources, ctx, policy, file)->Ok_0;
    if let Err(e) = crate::cfn::intrinsic::resolve_at(r.properties, ctx, 0) {
        let i = choose|i: int|
            0 <= i < inner.diagnostics.len() && (#[trigger] inner.diagnostics[i])
                == crate::cfn::parser::diagnostic_of(e, file);
        let d = crate::cfn::parser::diagnostic_of(e, file);
        if done.diagnostics.len() == inner.diagnostics.len() {
            assert(done.diagnostics[i] == d);
        } else {
            assert(done.diagnostics[i + 1] == d);
        }
    }
}

/// A resource under the condition that a parameter is not a given text is left
/// out exactly where the parameter's value, supplied or default, is that text;
/// under the condition that the parameter is the text, exactly where it is not.
pub proof fn law_condition_on_a_parameter(
    t: TemplateView,
    supplied: Seq<(Seq<char>, Seq<char>)>,
    imports: Seq<(Seq<char>, Seq<char>)>,
    file: Option<Seq<char>>,
    k: int,
    parameter: Seq<char>,
    text: Seq<char>,
    negated: bool,
)
    requires
        crate::strmap::keys_rise(t.parameters),
        crate::strmap::keys_rise(t.resources),
        0 <= k < t.resources.len(),
        resolution(t, supplied, imports, ParsePolicy::Strict, file) is Ok,
        lookup(t.parameters, parameter) is Some,
        t.resources[k].1.condition is Some,
        ({
            let same = YamlView::Tagged(
                "!Equals"@,
                Box::new(
                    YamlView::Sequence(
                        seq![
                            YamlView::Tagged("!Ref"@, Box::new(YamlView::String(parameter))),
                            YamlView::String(text),
                        ],
                    ),
                ),
            );
            lookup(t.conditions, t.resources[k].1.condition->Some_0) == Some(
                if negated {
                    YamlView::Tagged("!Not"@, Box::new(YamlView::Sequence(seq![same])))
                } else {
                    same
                },
            )
        }),
    ensures
        ({
            let done = resolution(t, supplied, imports, ParsePolicy::Strict, file)->Ok_0;
            let value = match lookup(supplied, parameter) {
                Some(v) => Some(v),
                None => lookup(t.parameters, parameter)->Some_0.default,
            };
            (exists|i: int|
                0 <= i < done.resources.len() && (#[trigger] done.resources[i]).0
                    == t.resources[k].0) <==> ((value == Some(text)) != negated)
        }),
{
    let a = YamlView::Tagged("!Ref"@, Box::new(YamlView::String(parameter)));
    let b = YamlView::String(text);
    let same = YamlView::Tagged("!Equals"@, Box::new(YamlView::Sequence(seq![a, b])));
    let c = ConditionView {
        params: crate::cfn::parser::template_context(t, supplied, imports).parameters,
        mappings: t.mappings,
    };
    law_parameters_are_bound(t, supplied, imports, parameter);
    law_equals_compares(a, b, c);
    law_not_negates(same, Seq::empty(), c);
    law_condition_values(parameter, true, a, a, a, c);
    law_condition_values(text, true, a, a, a, c);
    let v = lookup(t.conditions, t.resources[k].1.condition->Some_0)->Some_0;
    if condition_holds(v, c) {
        law_other_resources_are_kept(t, supplied, imports, ParsePolicy::Strict, file, k);
    } else {
        law_false_condition_leaves_out(t, supplied, imports, ParsePolicy::Strict, file, k);
    }
}

/// Under the lenient policy a resource with an unknown parameter, import or
/// mapping key is reported with a code that says which; every other failure
/// aborts under both policies.
pub proof fn law_lenient_codes(
    t: TemplateView,
    supplied: Seq<(Seq<char>, Seq<char>)>,
    imports: Seq<(Seq<char>, Seq<char>)>,
    file: Option<Seq<char>>,
    k: int,
    e: CfnErrorView,
)
    requires
        0 <= k < t.resources.len(),
        t.resources[k].1.condition is None,
        resolution(t, supplied, imports, ParsePolicy::Lenient, file) is Ok,
        crate::cfn::intrinsic::resolve_at(
            t.resources[k].1.properties,
            crate::cfn::parser::template_context(t, supplied, imports),
            0,
        ) == Err::<ResolvedView, CfnErrorView>(e),
    ensures
        e is MissingParameters || e is ParameterNotFound || e is ImportValueNotFound
            || e is MappingNotFound,
        ({
            let done = resolution(t, supplied, imports, ParsePolicy::Lenient, file)->Ok_0;
            let code = if e is ParameterNotFound {
                "parameter_not_found"@
            } else if e is ImportValueNotFound {
                "import_value_not_found"@
            } else if e is MappingNotFound {
                "mapping_not_found"@
            } else {
                "missing_parameter"@
            };
            exists|i: int|
                0 <= i < done.diagnostics.len() && (#[trigger] done.diagnostics[i]).code == code
                    && done.diagnostics[i].source == DiagnosticSource::Cfn
                    && done.diagnostics[i].file == file && done.diagnostics[i].message
                    == crate::cfn::error::error_message(e)
        }),
{
    let ctx = crate::cfn::parser::template_context(t, supplied, imports);
    lemma_resolved_kept(t.resources, ctx, ParsePolicy::Lenient, file, k);
    lemma_lenient_error(t.resources, ctx, file, k, e);
    let done = resolution(t, supplied, imports, ParsePolicy::Lenient, file)->Ok_0;
    let inner = crate::cfn::parser::resolve_resources(
        t.resources,
        ctx,
        ParsePolicy::Lenient,
        file,
    )->Ok_0;
    let d = crate::cfn::parser::diagnostic_of(e, file);
    let i = choose|i: int|
        0 <= i < inner.diagnostics.len() && (#[trigger] inner.diagnostics[i]) == d;
    if done.diagnostics.len() == inner.diagnostics.len() {
        assert(done.diagnostics[i] == d);
    } else {
        assert(done.diagnostics[i + 1] == d);
    }
}

/// An error that lenient resolution gets over is one of four.
proof fn lemma_lenient_error(
    rs: crate::cfn::parser::ResourceEntries,
    ctx: ContextView,
    file: Option<Seq<char>>,
    k: int,
    e: CfnErrorView,
)
    requires
        0 <= k < rs.len(),
        rs[k].1.condition is None,
        crate::cfn::parser::resolve_resources(rs, ctx, ParsePolicy::Lenient, file) is Ok,
        crate::cfn::intrinsic::resolve_at(rs[k].1.properties, ctx, 0) == Err::<
            ResolvedView,
            CfnErrorView,
        >(e),
    ensures
        e is MissingParameters || e is ParameterNotFound || e is ImportValueNotFound
            || e is MappingNotFound,
    decreases rs.len(),
{
    if k < rs.len() - 1 {
        assert(rs.drop_last()[k] == rs[k]);
        lemma_lenient_error(rs.drop_last(), ctx, file, k, e);
    }
}

/// What makes a resource fail that is not left out makes strict resolution
/// fail, and lenient resolution fail where it is neither an unknown parameter,
/// nor an unknown import, nor an unknown mapping key.
pub proof fn law_failures_abort(
    t: TemplateView,
    supplied: Seq<(Seq<char>, Seq<char>)>,
    imports: Seq<(Seq<char>, Seq<char>)>,
    file: Option<Seq<char>>,
    k: int,
    e: CfnErrorView,
)
    requires
        0 <= k < t.resources.len(),
        t.resources[k].1.condition is None,
        crate::cfn::intrinsic::resolve_at(
            t.resources[k].1.properties,
            crate::cfn::parser::template_context(t, supplied, imports),
            0,
        ) == Err::<ResolvedView, CfnErrorView>(e),
    ensures
        resolution(t, supplied, imports, ParsePolicy::Strict, file) is Err,
        !(e is MissingParameters || e is ParameterNotFound || e is ImportValueNotFound
            || e is MappingNotFound) ==> resolution(
            t,
            supplied,
            imports,
            ParsePolicy::Lenient,
            file,
        ) is Err,
{
    if resolution(t, supplied, imports, ParsePolicy::Strict, file) is Ok {
        law_other_resources_are_kept(t, supplied, imports, ParsePolicy::Strict, file, k);
    }
    if resolution(t, supplied, imports, ParsePolicy::Lenient, file) is Ok {
        law_lenient_codes(t, supplied, imports, file, k, e);
    }
}

// ---------------------------------------------------------------------------
// Reading
// ---------------------------------------------------------------------------

/// The entry at `k` is the last under the name.
pub open spec fn last_entry(m: Seq<(YamlView, YamlView)>, k: int, name: Seq<char>) -> bool {
    0 <= k < m.len() && m[k].0 == YamlView::String(name) && forall|j: int|
        k < j < m.len() ==> crate::yaml::yaml_str((#[trigger] m[j]).0) != Some(name)
}

proof fn lemma_last_entry(m: Seq<(YamlView, YamlView)>, k: int, name: Seq<char>)
    requires
        last_entry(m, k, name),
    ensures
        k < m.len() - 1 ==> last_entry(m.drop_last(), k, name) && crate::yaml::yaml_str(
            m.last().0,
        ) != Some(name),
        k == m.len() - 1 ==> crate::yaml::yaml_str(m.last().0) == Some(name),
{
    reveal_with_fuel(crate::yaml::untagged, 2);
    if k < m.len() - 1 {
        let t = m.drop_last();
        assert(t[k] == m[k]);
        assert forall|j: int| k < j < t.len() implies crate::yaml::yaml_str((#[trigger] t[j]).0)
            != Some(name) by {
            assert(m[j] == t[j]);
        }
        assert(crate::yaml::yaml_str(m[m.len() - 1].0) != Some(name));
    }
}

proof fn lemma_resource_read(
    m: Seq<(YamlView, YamlView)>,
    k: int,
    name: Seq<char>,
    def: Seq<(YamlView, YamlView)>,
)
    requires
        last_entry(m, k, name),
        m[k].1 == YamlView::Mapping(def),
        crate::cfn::parser::resources_of(m) is Ok,
    ensures
        crate::cfn::parser::resource_of(name, def) is Ok,
        lookup(crate::cfn::parser::resources_of(m)->Ok_0, name) == Some(
            crate::cfn::parser::resource_of(name, def)->Ok_0,
        ),
    decreases m.len(),
{
    lemma_last_entry(m, k, name);
    let t = m.drop_last();
    let rest = crate::cfn::parser::resources_of(t)->Ok_0;
    reveal_with_fuel(crate::yaml::untagged, 2);
    if k < t.len() {
        lemma_resource_read(t, k, name, def);
        if let (Some(other), Some(d)) = (
            crate::yaml::yaml_str(m.last().0),
            crate::yaml::yaml_entries(m.last().1),
        ) {
            if let Ok(r) = crate::cfn::parser::resource_of(other, d) {
                crate::strmap::lemma_lookup_inserted(rest, other, r, name);
            }
        }
    } else {
        assert(crate::yaml::yaml_entries(m.last().1) == Some(def));
        if let Ok(r) = crate::cfn::parser::resource_of(name, def) {
            crate::strmap::lemma_lookup_inserted(rest, name, r, name);
        }
    }
}

/// A resource of a template is read under its own name: its `Type`, its
/// `Properties`, none where there are none, its `Condition`, and the one name or
/// the names of its `DependsOn`. A resource without a type makes reading fail.
pub proof fn law_resources_are_read(
    root: Seq<(YamlView, YamlView)>,
    m: Seq<(YamlView, YamlView)>,
    k: int,
    name: Seq<char>,
    def: Seq<(YamlView, YamlView)>,
    d: Seq<char>,
)
    requires
        crate::yaml::yaml_get(root, "Resources"@) == Some(YamlView::Mapping(m)),
        last_entry(m, k, name),
        m[k].1 == YamlView::Mapping(def),
    ensures
        crate::yaml::yaml_get(def, "Type"@) is None ==> template_of(YamlView::Mapping(root)) is Err,
        template_of(YamlView::Mapping(root)) matches Ok(t) ==> lookup(t.resources, name) is Some
            && ({
            let r = lookup(t.resources, name)->Some_0;
            &&& r.logical_id == name
            &&& crate::yaml::yaml_get(def, "Type"@) is Some && crate::yaml::yaml_str(
                crate::yaml::yaml_get(def, "Type"@)->Some_0,
            ) == Some(r.resource_type)
            &&& r.properties == match crate::yaml::yaml_get(def, "Properties"@) {
                Some(v) => v,
                None => YamlView::Mapping(Seq::empty()),
            }
            &&& r.condition == match crate::yaml::yaml_get(def, "Condition"@) {
                Some(v) => crate::yaml::yaml_str(v),
                None => None,
            }
            &&& crate::yaml::yaml_get(def, "DependsOn"@) is None ==> r.depends_on == Seq::<
                Seq<char>,
            >::empty()
            &&& crate::yaml::yaml_get(def, "DependsOn"@) == Some(YamlView::String(d))
                ==> r.depends_on == seq![d]
        }),
{
    reveal_with_fuel(crate::yaml::untagged, 2);
    assert(crate::yaml::yaml_entries(YamlView::Mapping(root)) == Some(root));
    assert(crate::yaml::yaml_entries(YamlView::Mapping(m)) == Some(m));
    if crate::cfn::parser::resources_of(m) is Ok {
        lemma_resource_read(m, k, name, def);
    }
}

proof fn lemma_parameter_read(
    m: Seq<(YamlView, YamlView)>,
    k: int,
    name: Seq<char>,
    def: Seq<(YamlView, YamlView)>,
)
    requires
        last_entry(m, k, name),
        m[k].1 == YamlView::Mapping(def),
    ensures
        lookup(crate::cfn::parser::parameters_of(m), name) == Some(
            crate::cfn::parser::parameter_of(def),
        ),
    decreases m.len(),
{
    lemma_last_entry(m, k, name);
    let t = m.drop_last();
    let rest = crate::cfn::parser::parameters_of(t);
    reveal_with_fuel(crate::yaml::untagged, 2);
    if k < t.len() {
        lemma_parameter_read(t, k, name, def);
        if let (Some(other), Some(d)) = (
            crate::yaml::yaml_str(m.last().0),
            crate::yaml::yaml_entries(m.last().1),
        ) {
            crate::strmap::lemma_lookup_inserted(
                rest,
                other,
                crate::cfn::parser::parameter_of(d),
                name,
            );
        }
    } else {
        assert(crate::yaml::yaml_entries(m.last().1) == Some(def));
        crate::strmap::lemma_lookup_inserted(
            rest,
            name,
            crate::cfn::parser::parameter_of(def),
            name,
        );
    }
}

proof fn lemma_condition_read(m: Seq<(YamlView, YamlView)>, k: int, name: Seq<char>)
    requires
        last_entry(m, k, name),
    ensures
        lookup(crate::cfn::parser::conditions_of(m), name) == Some(m[k].1),
    decreases m.len(),
{
    lemma_last_entry(m, k, name);
    let t = m.drop_last();
    let rest = crate::cfn::parser::conditions_of(t);
    if k < t.len() {
        lemma_condition_read(t, k, name);
        if let Some(other) = crate::yaml::yaml_str(m.last().0) {
            crate::strmap::lemma_lookup_inserted(rest, other, m.last().1, name);
        }
    } else {
        crate::strmap::lemma_lookup_inserted(rest, name, m.last().1, name);
    }
}

proof fn lemma_table_read(
    m: Seq<(YamlView, YamlView)>,
    k: int,
    name: Seq<char>,
    n: Seq<(YamlView, YamlView)>,
)
    requires
        last_entry(m, k, name),
        m[k].1 == YamlView::Mapping(n),
    ensures
        lookup(crate::cfn::parser::tables_of(m), name) == Some(crate::cfn::parser::levels_of(n)),
        lookup(crate::cfn::parser::levels_of(m), name) == Some(crate::cfn::parser::values_of(n)),
    decreases m.len(),
{
    lemma_last_entry(m, k, name);
    let t = m.drop_last();
    reveal_with_fuel(crate::yaml::untagged, 2);
    if k < t.len() {
        lemma_table_read(t, k, name, n);
        if let (Some(other), Some(d)) = (
            crate::yaml::yaml_str(m.last().0),
            crate::yaml::yaml_entries(m.last().1),
        ) {
            crate::strmap::lemma_lookup_inserted(
                crate::cfn::parser::tables_of(t),
                other,
                crate::cfn::parser::levels_of(d),
                name,
            );
            crate::strmap::lemma_lookup_inserted(
                crate::cfn::parser::levels_of(t),
                other,
                crate::cfn::parser::values_of(d),
                name,
            );
        }
    } else {
        assert(crate::yaml::yaml_entries(m.last().1) == Some(n));
        crate::strmap::lemma_lookup_inserted(
            crate::cfn::parser::tables_of(t),
            name,
            crate::cfn::parser::levels_of(n),
            name,
        );
        crate::strmap::lemma_lookup_inserted(
            crate::cfn::parser::levels_of(t),
            name,
            crate::cfn::parser::values_of(n),
            name,
        );
    }
}

proof fn lemma_value_read(m: Seq<(YamlView, YamlView)>, k: int, name: Seq<char>, v: Seq<char>)
    requires
        last_entry(m, k, name),
        crate::yaml::scalar_text(m[k].1) == Some(v),
    ensures
        lookup(crate::cfn::parser::values_of(m), name) == Some(v),
    decreases m.len(),
{
    lemma_last_entry(m, k, name);
    let t = m.drop_last();
    let rest = crate::cfn::parser::values_of(t);
    if k < t.len() {
        lemma_value_read(t, k, name, v);
        if let Some(other) = crate::yaml::yaml_str(m.last().0) {
            if let Some(s) = crate::yaml::scalar_text(m.last().1) {
                crate::strmap::lemma_lookup_inserted(rest, other, s, name);
            }
        }
    } else {
        crate::strmap::lemma_lookup_inserted(rest, name, v, name);
    }
}

/// A parameter of a template is read under its own name, with its `Type`, or
/// `String` where it has none, and the text of its `Default`, where that is a
/// scalar; a condition is read as it stands; and a value of the mappings under
/// its three keys.
pub proof fn law_sections_are_read(
    root: Seq<(YamlView, YamlView)>,
    parameters: Seq<(YamlView, YamlView)>,
    p: int,
    parameter: Seq<char>,
    def: Seq<(YamlView, YamlView)>,
    conditions: Seq<(YamlView, YamlView)>,
    c: int,
    condition: Seq<char>,
    mappings: Seq<(YamlView, YamlView)>,
    i: int,
    map_name: Seq<char>,
    first: Seq<(YamlView, YamlView)>,
    j: int,
    first_key: Seq<char>,
    second: Seq<(YamlView, YamlView)>,
    k: int,
    second_key: Seq<char>,
    value: Seq<char>,
)
    requires
        template_of(YamlView::Mapping(root)) is Ok,
        crate::yaml::yaml_get(root, "Parameters"@) == Some(YamlView::Mapping(parameters)),
        last_entry(parameters, p, parameter),
        parameters[p].1 == YamlView::Mapping(def),
        crate::yaml::yaml_get(root, "Conditions"@) == Some(YamlView::Mapping(conditions)),
        last_entry(conditions, c, condition),
        crate::yaml::yaml_get(root, "Mappings"@) == Some(YamlView::Mapping(mappings)),
        last_entry(mappings, i, map_name),
        mappings[i].1 == YamlView::Mapping(first),
        last_entry(first, j, first_key),
        first[j].1 == YamlView::Mapping(second),
        last_entry(second, k, second_key),
        second[k].1 == YamlView::String(value),
    ensures
        ({
            let t = template_of(YamlView::Mapping(root))->Ok_0;
            &&& lookup(t.conditions, condition) == Some(conditions[c].1)
            &&& lookup(t.mappings, map_name) is Some
            &&& lookup(lookup(t.mappings, map_name)->Some_0, first_key) is Some
            &&& lookup(
                lookup(lookup(t.mappings, map_name)->Some_0, first_key)->Some_0,
                second_key,
            ) == Some(value)
            &&& lookup(t.parameters, parameter) is Some
            &&& ({
                let x = lookup(t.parameters, parameter)->Some_0;
                &&& match crate::yaml::yaml_get(def, "Type"@) {
                    Some(v) => crate::yaml::yaml_str(v) is Some ==> Some(x.param_type)
                        == crate::yaml::yaml_str(v),
                    None => x.param_type == "String"@,
                }
                &&& match crate::yaml::yaml_get(def, "Default"@) {
                    Some(YamlView::String(s)) => x.default == Some(s),
                    Some(YamlView::Bool(b)) => x.default == Some(
                        if b {
                            "true"@
                        } else {
                            "false"@
                        },
                    ),
                    Some(YamlView::Number(n)) => x.default == Some(crate::yaml::number_text(n)),
                    _ => x.default is None,
                }
            })
        }),
{
    reveal_with_fuel(crate::yaml::untagged, 2);
    assert(crate::yaml::yaml_entries(YamlView::Mapping(root)) == Some(root));
    lemma_parameter_read(parameters, p, parameter, def);
    lemma_condition_read(conditions, c, condition);
    lemma_table_read(mappings, i, map_name, first);
    lemma_table_read(first, j, first_key, second);
    lemma_value_read(second, k, second_key, value);
}

/// A document that is no mapping, and one without resources, is no template.
pub proof fn law_templates_need_resources(v: YamlView, root: Seq<(YamlView, YamlView)>)
    ensures
        crate::yaml::yaml_entries(v) is None ==> template_of(v) == Err::<
            TemplateView,
            CfnErrorView,
        >(CfnErrorView::ParseError("template root must be a mapping"@)),
        crate::yaml::yaml_get(root, "Resources"@) is None ==> template_of(YamlView::Mapping(root))
            == Err::<TemplateView, CfnErrorView>(
            CfnErrorView::ParseError("template must have a Resources section"@),
        ),
{
    reveal_with_fuel(crate::yaml::untagged, 2);
    assert(crate::yaml::yaml_entries(YamlView::Mapping(root)) == Some(root));
}

} // verus!
