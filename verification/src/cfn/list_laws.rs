//! What holds of the intrinsic functions on lists and of what they leave alone.

use vstd::prelude::*;

use crate::cfn::error::CfnErrorView;
use crate::cfn::intrinsic::call;
use crate::cfn::intrinsic::item_parts;
use crate::cfn::intrinsic::list_parts;
use crate::cfn::intrinsic::resolve_at;
use crate::cfn::intrinsic::substituted;
use crate::cfn::intrinsic::template_parts;
use crate::cfn::intrinsic::ContextView;
use crate::cfn::intrinsic::SubState;
use crate::cfn::intrinsic_laws::around;
use crate::cfn::intrinsic_laws::lemma_names;
use crate::cfn::intrinsic_laws::text;
use crate::cfn::intrinsic_laws::texts_of;
use crate::cfn::parser::condition_value;
use crate::cfn::parser::ConditionView;
use crate::cfn::resolved::PartView;
use crate::cfn::resolved::ResolvedView;
use crate::strmap::lookup;
use crate::yaml::NumberView;
use crate::yaml::YamlView;

verus! {

/// A number in a condition stands for the text that writes it.
pub proof fn law_numbers_in_conditions(n: u64, c: ConditionView)
    ensures
        condition_value(YamlView::Number(NumberView::PosInt(n)), c) == Ok::<
            Seq<char>,
            CfnErrorView,
        >(crate::text::digits(n as nat)),
        condition_value(YamlView::Null, c) is Err,
{
}

/// What calling a function on a list of two gives.
pub open spec fn called(
    tag: Seq<char>,
    x: YamlView,
    y: YamlView,
    ctx: ContextView,
    depth: int,
) -> Result<ResolvedView, CfnErrorView> {
    resolve_at(YamlView::Tagged(tag, Box::new(YamlView::Sequence(seq![x, y]))), ctx, depth)
}

proof fn lemma_two(x: YamlView, y: YamlView)
    ensures
        crate::yaml::yaml_items(YamlView::Sequence(seq![x, y])) == Some(seq![x, y]),
        seq![x, y][0] == x,
        seq![x, y][1] == y,
        seq![x, y].len() == 2,
{
    reveal_with_fuel(crate::yaml::untagged, 2);
}

proof fn lemma_select(
    x: YamlView,
    y: YamlView,
    at: ResolvedView,
    list: ResolvedView,
    ctx: ContextView,
    depth: int,
)
    requires
        depth <= 128,
        resolve_at(x, ctx, depth + 1) == Ok::<ResolvedView, CfnErrorView>(at),
        resolve_at(y, ctx, depth + 1) == Ok::<ResolvedView, CfnErrorView>(list),
    ensures
        called("!Select"@, x, y, ctx, depth) == match crate::cfn::intrinsic::select_index(at) {
            Ok(i) => crate::cfn::intrinsic::selected(YamlView::Sequence(seq![x, y]), i, list),
            Err(e) => Err(e),
        },
{
    lemma_names();
    lemma_two(x, y);
    let arg = YamlView::Sequence(seq![x, y]);
    assert(call("Fn::Select"@, arg, ctx, depth) == crate::cfn::intrinsic::resolved_select(
        arg,
        ctx,
        depth,
    ));
}

/// `!Select` takes an index that is written as a text too, with or without a plus
/// sign. An index that is not written by digits, or is negative, is an error.
pub proof fn law_select_by_text(
    x: YamlView,
    y: YamlView,
    index: u64,
    t: Seq<char>,
    items: Seq<ResolvedView>,
    ctx: ContextView,
    depth: int,
)
    requires
        depth <= 128,
        resolve_at(x, ctx, depth + 1) == Ok::<ResolvedView, CfnErrorView>(text(t)),
        resolve_at(y, ctx, depth + 1) == Ok::<ResolvedView, CfnErrorView>(
            ResolvedView::Sequence(items),
        ),
    ensures
        (t == crate::text::digits(index as nat) || t == seq!['+'] + crate::text::digits(
            index as nat,
        )) && index < items.len() ==> called("!Select"@, x, y, ctx, depth) == Ok::<
            ResolvedView,
            CfnErrorView,
        >(items[index as int]),
        t.len() == 0 || !crate::text::is_digit(t.last()) ==> called(
            "!Select"@,
            x,
            y,
            ctx,
            depth,
        ) is Err,
{
    lemma_select(x, y, text(t), ResolvedView::Sequence(items), ctx, depth);
    crate::text_laws::law_digits_write_the_number(index as nat);
    let d = crate::text::digits(index as nat);
    assert(crate::text::is_digit(d[0]));
    if t == seq!['+'] + d {
        assert(t[0] == '+');
        assert(crate::text::tail(t, 1) =~= d);
    }
    if t.len() > 0 && !crate::text::is_digit(t.last()) {
        if t[0] == '+' {
            let u = crate::text::tail(t, 1);
            if u.len() > 0 {
                assert(u.last() == t.last());
            }
        }
    }
}

/// `!Select` also takes its item out of a list that held nothing to resolve. A list
/// that could not be resolved leaves the call as it is.
pub proof fn law_select_of_other_lists(
    x: YamlView,
    y: YamlView,
    index: u64,
    items: Seq<YamlView>,
    tag: Seq<char>,
    inner: YamlView,
    ctx: ContextView,
    depth: int,
)
    requires
        depth <= 128,
        resolve_at(x, ctx, depth + 1) == Ok::<ResolvedView, CfnErrorView>(
            ResolvedView::Concrete(YamlView::Number(NumberView::PosInt(index))),
        ),
    ensures
        resolve_at(y, ctx, depth + 1) == Ok::<ResolvedView, CfnErrorView>(
            ResolvedView::Concrete(YamlView::Sequence(items)),
        ) && index < items.len() ==> called("!Select"@, x, y, ctx, depth) == Ok::<
            ResolvedView,
            CfnErrorView,
        >(ResolvedView::Concrete(items[index as int])),
        resolve_at(y, ctx, depth + 1) == Ok::<ResolvedView, CfnErrorView>(
            ResolvedView::Concrete(YamlView::Tagged(tag, Box::new(inner))),
        ) ==> called("!Select"@, x, y, ctx, depth) == Ok::<ResolvedView, CfnErrorView>(
            ResolvedView::Concrete(
                YamlView::Tagged("!Select"@, Box::new(YamlView::Sequence(seq![x, y]))),
            ),
        ),
{
    if let Ok(list) = resolve_at(y, ctx, depth + 1) {
        lemma_select(
            x,
            y,
            ResolvedView::Concrete(YamlView::Number(NumberView::PosInt(index))),
            list,
            ctx,
            depth,
        );
    }
}

/// `!Split` leaves the call as it is where its source is a reference, or a text with
/// references.
pub proof fn law_split_waits_for_references(
    x: YamlView,
    y: YamlView,
    sep: Seq<char>,
    source: ResolvedView,
    ctx: ContextView,
    depth: int,
)
    requires
        depth <= 128,
        resolve_at(x, ctx, depth + 1) == Ok::<ResolvedView, CfnErrorView>(text(sep)),
        resolve_at(y, ctx, depth + 1) == Ok::<ResolvedView, CfnErrorView>(source),
        source is Ref || source is GetAtt || source is Interpolated,
    ensures
        called("!Split"@, x, y, ctx, depth) == Ok::<ResolvedView, CfnErrorView>(
            ResolvedView::Concrete(
                YamlView::Tagged("!Split"@, Box::new(YamlView::Sequence(seq![x, y]))),
            ),
        ),
{
    lemma_names();
    lemma_two(x, y);
    let arg = YamlView::Sequence(seq![x, y]);
    assert(call("Fn::Split"@, arg, ctx, depth) == crate::cfn::intrinsic::resolved_split(
        arg,
        ctx,
        depth,
    ));
}

// ---------------------------------------------------------------------------
// Joining
// ---------------------------------------------------------------------------

/// The text that a scalar contributes to a joined list.
pub open spec fn contributes(v: ResolvedView, t: Seq<char>) -> bool {
    ||| v == text(t)
    ||| v matches ResolvedView::Concrete(YamlView::Number(NumberView::PosInt(n))) && t
        == crate::text::digits(n as nat)
    ||| v == ResolvedView::Concrete(YamlView::Bool(true)) && t == "true"@
    ||| v == ResolvedView::Concrete(YamlView::Bool(false)) && t == "false"@
}

proof fn lemma_join(
    x: YamlView,
    y: YamlView,
    delimiter: Seq<char>,
    items: Seq<ResolvedView>,
    ctx: ContextView,
    depth: int,
)
    requires
        depth <= 128,
        resolve_at(x, ctx, depth + 1) == Ok::<ResolvedView, CfnErrorView>(text(delimiter)),
        resolve_at(y, ctx, depth + 1) == Ok::<ResolvedView, CfnErrorView>(
            ResolvedView::Sequence(items),
        ),
    ensures
        called("!Join"@, x, y, ctx, depth) == Ok::<ResolvedView, CfnErrorView>(
            crate::cfn::resolved::value_of_parts(list_parts(items, delimiter).0),
        ),
{
    lemma_names();
    lemma_two(x, y);
    let arg = YamlView::Sequence(seq![x, y]);
    assert(call("Fn::Join"@, arg, ctx, depth) == crate::cfn::intrinsic::resolved_join(
        arg,
        ctx,
        depth,
    ));
}

proof fn lemma_same_parts(a: Seq<ResolvedView>, b: Seq<ResolvedView>, delimiter: Seq<char>)
    requires
        a.len() == b.len(),
        forall|i: int| 0 <= i < a.len() ==> item_parts(#[trigger] a[i]) == item_parts(b[i]),
    ensures
        list_parts(a, delimiter) == list_parts(b, delimiter),
    decreases a.len(),
{
    if a.len() > 0 {
        let s = a.drop_last();
        let t = b.drop_last();
        assert forall|i: int| 0 <= i < s.len() implies item_parts(#[trigger] s[i]) == item_parts(
            t[i],
        ) by {
            assert(s[i] == a[i]);
        }
        lemma_same_parts(s, t, delimiter);
        assert(item_parts(a[a.len() - 1]) == item_parts(b[a.len() - 1]));
    }
}

/// `!Join` of texts, numbers and booleans is their texts with the delimiter between
/// them.
pub proof fn law_join_of_scalars(
    x: YamlView,
    y: YamlView,
    delimiter: Seq<char>,
    items: Seq<ResolvedView>,
    ts: Seq<Seq<char>>,
    ctx: ContextView,
    depth: int,
)
    requires
        depth <= 128,
        resolve_at(x, ctx, depth + 1) == Ok::<ResolvedView, CfnErrorView>(text(delimiter)),
        resolve_at(y, ctx, depth + 1) == Ok::<ResolvedView, CfnErrorView>(
            ResolvedView::Sequence(items),
        ),
        items.len() == ts.len(),
        forall|i: int| 0 <= i < items.len() ==> contributes(#[trigger] items[i], ts[i]),
    ensures
        called("!Join"@, x, y, ctx, depth) == Ok::<ResolvedView, CfnErrorView>(
            text(crate::text::joined(ts, delimiter)),
        ),
{
    lemma_join(x, y, delimiter, items, ctx, depth);
    let plain = texts_of(ts);
    assert forall|i: int| 0 <= i < items.len() implies item_parts(#[trigger] items[i])
        == item_parts(plain[i]) by {
        assert(contributes(items[i], ts[i]));
        assert(plain[i] == text(ts[i]));
    }
    lemma_same_parts(items, plain, delimiter);
    crate::cfn::intrinsic::lemma_list_of_texts(ts, delimiter);
    assert(plain =~= ts.map_values(|p: Seq<char>| crate::cfn::resolved::concrete_text(p)));
}

/// Null, a list or a mapping adds nothing to a joined list, not even a delimiter.
pub proof fn law_join_leaves_out_containers(
    x: YamlView,
    y: YamlView,
    z: YamlView,
    delimiter: Seq<char>,
    items: Seq<ResolvedView>,
    v: ResolvedView,
    ctx: ContextView,
    depth: int,
)
    requires
        depth <= 128,
        resolve_at(x, ctx, depth + 1) == Ok::<ResolvedView, CfnErrorView>(text(delimiter)),
        resolve_at(y, ctx, depth + 1) == Ok::<ResolvedView, CfnErrorView>(
            ResolvedView::Sequence(items),
        ),
        resolve_at(z, ctx, depth + 1) == Ok::<ResolvedView, CfnErrorView>(
            ResolvedView::Sequence(items.push(v)),
        ),
        v is Sequence || v is Mapping || v == ResolvedView::Concrete(YamlView::Null),
    ensures
        called("!Join"@, x, y, ctx, depth) == called("!Join"@, x, z, ctx, depth),
{
    lemma_join(x, y, delimiter, items, ctx, depth);
    lemma_join(x, z, delimiter, items.push(v), ctx, depth);
    assert(items.push(v).drop_last() =~= items);
    assert(items.push(v).last() == v);
}

// ---------------------------------------------------------------------------
// Substituting
// ---------------------------------------------------------------------------

/// A local variable that is a reference, or a text with references, keeps them in
/// the place of its placeholder.
pub proof fn law_sub_keeps_what_variables_hold(
    name: Seq<char>,
    vars: Seq<(Seq<char>, ResolvedView)>,
    ctx: ContextView,
    v: ResolvedView,
    parts: Seq<PartView>,
)
    requires
        !name.contains('}'),
        !crate::text::has_prefix(name, seq!['!']),
        lookup(vars, name) == Some(v),
        ({
            ||| v == ResolvedView::Interpolated(parts)
            ||| v is Ref && parts == seq![PartView::Ref(v->Ref_0)]
            ||| v is GetAtt && parts == seq![
                PartView::GetAtt { logical_id: v->logical_id, attr: v->attr },
            ]
        }),
    ensures
        template_parts(around(Seq::empty(), name, Seq::empty()), vars, ctx) == Ok::<
            Seq<PartView>,
            CfnErrorView,
        >(parts),
{
    let e = Seq::<char>::empty();
    crate::cfn::intrinsic_laws::lemma_around(e, name, e, vars, ctx);
    let start = SubState { parts: Seq::<PartView>::empty(), literal: e };
    let st = crate::cfn::intrinsic::after_placeholder(start, name, vars, ctx);
    assert(st.parts =~= parts);
    assert(st.literal + e =~= e);
}

/// `!Sub` of a list whose second element is no mapping has no local variables.
pub proof fn law_sub_without_variables(
    t: Seq<char>,
    b: bool,
    s: Seq<YamlView>,
    ctx: ContextView,
    depth: int,
)
    requires
        depth <= 128,
    ensures
        called("!Sub"@, YamlView::String(t), YamlView::Null, ctx, depth) == substituted(
            t,
            Seq::empty(),
            ctx,
        ),
        called("!Sub"@, YamlView::String(t), YamlView::Bool(b), ctx, depth) == substituted(
            t,
            Seq::empty(),
            ctx,
        ),
        called("!Sub"@, YamlView::String(t), YamlView::Sequence(s), ctx, depth) == substituted(
            t,
            Seq::empty(),
            ctx,
        ),
{
    lemma_names();
    reveal_with_fuel(crate::yaml::untagged, 2);
    let x = YamlView::String(t);
    lemma_two(x, YamlView::Null);
    lemma_two(x, YamlView::Bool(b));
    lemma_two(x, YamlView::Sequence(s));
    let a1 = YamlView::Sequence(seq![x, YamlView::Null]);
    let a2 = YamlView::Sequence(seq![x, YamlView::Bool(b)]);
    let a3 = YamlView::Sequence(seq![x, YamlView::Sequence(s)]);
    assert(call("Fn::Sub"@, a1, ctx, depth) == crate::cfn::intrinsic::resolved_sub(
        a1,
        ctx,
        depth,
    ));
    assert(call("Fn::Sub"@, a2, ctx, depth) == crate::cfn::intrinsic::resolved_sub(
        a2,
        ctx,
        depth,
    ));
    assert(call("Fn::Sub"@, a3, ctx, depth) == crate::cfn::intrinsic::resolved_sub(
        a3,
        ctx,
        depth,
    ));
}

} // verus!
