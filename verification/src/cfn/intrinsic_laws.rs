//! What holds of the intrinsic functions of templates.

use vstd::prelude::*;

use crate::cfn::error::CfnErrorView;
use crate::cfn::intrinsic::call;
use crate::cfn::intrinsic::canonical_name;
use crate::cfn::intrinsic::resolve_at;
use crate::cfn::intrinsic::substituted;
use crate::cfn::intrinsic::ContextView;
use crate::cfn::intrinsic::Outcome;
use crate::cfn::intrinsic::SubState;
use crate::cfn::resolved::PartView;
use crate::cfn::resolved::ResolvedView;
use crate::strmap::lookup;
use crate::yaml::NumberView;
use crate::yaml::YamlView;

verus! {

/// The text as a resolved value.
pub open spec fn text(s: Seq<char>) -> ResolvedView {
    ResolvedView::Concrete(YamlView::String(s))
}

pub proof fn lemma_names()
    ensures
        canonical_name("!Ref"@) == Some("Ref"@),
        canonical_name("Ref"@) == Some("Ref"@),
        canonical_name("!Sub"@) == Some("Fn::Sub"@),
        canonical_name("Fn::Sub"@) == Some("Fn::Sub"@),
        canonical_name("!FindInMap"@) == Some("Fn::FindInMap"@),
        canonical_name("Fn::FindInMap"@) == Some("Fn::FindInMap"@),
        canonical_name("!Select"@) == Some("Fn::Select"@),
        canonical_name("Fn::Select"@) == Some("Fn::Select"@),
        canonical_name("!If"@) == Some("Fn::If"@),
        canonical_name("Fn::If"@) == Some("Fn::If"@),
        canonical_name("!ImportValue"@) == Some("Fn::ImportValue"@),
        canonical_name("Fn::ImportValue"@) == Some("Fn::ImportValue"@),
        canonical_name("!Join"@) == Some("Fn::Join"@),
        canonical_name("Fn::Join"@) == Some("Fn::Join"@),
        canonical_name("!GetAtt"@) == Some("Fn::GetAtt"@),
        canonical_name("Fn::GetAtt"@) == Some("Fn::GetAtt"@),
        canonical_name("!Split"@) == Some("Fn::Split"@),
        canonical_name("Fn::Split"@) == Some("Fn::Split"@),
        "Ref"@ != "Fn::Sub"@,
        "Ref"@ != "Fn::FindInMap"@,
        "Ref"@ != "Fn::Select"@,
        "Ref"@ != "Fn::If"@,
        "Ref"@ != "Fn::ImportValue"@,
        "Ref"@ != "Fn::Join"@,
        "Ref"@ != "Fn::GetAtt"@,
        "Ref"@ != "Fn::Split"@,
        "Fn::Sub"@ != "Fn::FindInMap"@,
        "Fn::Sub"@ != "Fn::Select"@,
        "Fn::Sub"@ != "Fn::If"@,
        "Fn::Sub"@ != "Fn::ImportValue"@,
        "Fn::Sub"@ != "Fn::Join"@,
        "Fn::Sub"@ != "Fn::GetAtt"@,
        "Fn::Sub"@ != "Fn::Split"@,
        "Fn::FindInMap"@ != "Fn::Select"@,
        "Fn::FindInMap"@ != "Fn::If"@,
        "Fn::FindInMap"@ != "Fn::ImportValue"@,
        "Fn::FindInMap"@ != "Fn::Join"@,
        "Fn::FindInMap"@ != "Fn::GetAtt"@,
        "Fn::FindInMap"@ != "Fn::Split"@,
        "Fn::Select"@ != "Fn::If"@,
        "Fn::Select"@ != "Fn::ImportValue"@,
        "Fn::Select"@ != "Fn::Join"@,
        "Fn::Select"@ != "Fn::GetAtt"@,
        "Fn::Select"@ != "Fn::Split"@,
        "Fn::If"@ != "Fn::ImportValue"@,
        "Fn::If"@ != "Fn::Join"@,
        "Fn::If"@ != "Fn::GetAtt"@,
        "Fn::If"@ != "Fn::Split"@,
        "Fn::ImportValue"@ != "Fn::Join"@,
        "Fn::ImportValue"@ != "Fn::GetAtt"@,
        "Fn::ImportValue"@ != "Fn::Split"@,
        "Fn::Join"@ != "Fn::GetAtt"@,
        "Fn::Join"@ != "Fn::Split"@,
        "Fn::GetAtt"@ != "Fn::Split"@,
{
    reveal_strlit("!Ref");
    reveal_strlit("Ref");
    reveal_strlit("!Sub");
    reveal_strlit("Fn::Sub");
    reveal_strlit("!FindInMap");
    reveal_strlit("Fn::FindInMap");
    reveal_strlit("!Select");
    reveal_strlit("Fn::Select");
    reveal_strlit("!If");
    reveal_strlit("Fn::If");
    reveal_strlit("!ImportValue");
    reveal_strlit("Fn::ImportValue");
    reveal_strlit("!Join");
    reveal_strlit("Fn::Join");
    reveal_strlit("!GetAtt");
    reveal_strlit("Fn::GetAtt");
    reveal_strlit("!Split");
    reveal_strlit("Fn::Split");
    assert("!Ref"@.len() == 4);
    assert("Ref"@.len() == 3);
    assert("!Sub"@.len() == 4);
    assert("Fn::Sub"@.len() == 7);
    assert("!FindInMap"@.len() == 10);
    assert("Fn::FindInMap"@.len() == 13);
    assert("!Select"@.len() == 7);
    assert("Fn::Select"@.len() == 10);
    assert("!If"@.len() == 3);
    assert("Fn::If"@.len() == 6);
    assert("!ImportValue"@.len() == 12);
    assert("Fn::ImportValue"@.len() == 15);
    assert("!Join"@.len() == 5);
    assert("Fn::Join"@.len() == 8);
    assert("!GetAtt"@.len() == 7);
    assert("Fn::GetAtt"@.len() == 10);
    assert("!Split"@.len() == 6);
    assert("Fn::Split"@.len() == 9);
    assert("!Ref"@[1] != "!Sub"@[1]);
    assert("Ref"@[0] != "!If"@[0]);
    assert("Fn::Sub"@[0] != "!Select"@[0]);
    assert("Fn::Sub"@[0] != "!GetAtt"@[0]);
    assert("!FindInMap"@[0] != "Fn::Select"@[0]);
    assert("!FindInMap"@[0] != "Fn::GetAtt"@[0]);
    assert("!Select"@[1] != "!GetAtt"@[1]);
    assert("Fn::Select"@[4] != "Fn::GetAtt"@[4]);
    assert("Fn::If"@[0] != "!Split"@[0]);
}

/// A function in its tag form and in its long form resolves to the same.
pub proof fn law_both_forms_agree(arg: YamlView, ctx: ContextView, depth: int)
    ensures
        resolve_at(YamlView::Tagged("!Ref"@, Box::new(arg)), ctx, depth) == resolve_at(
            YamlView::Mapping(seq![(YamlView::String("Ref"@), arg)]),
            ctx,
            depth,
        ),
        resolve_at(YamlView::Tagged("!Sub"@, Box::new(arg)), ctx, depth) == resolve_at(
            YamlView::Mapping(seq![(YamlView::String("Fn::Sub"@), arg)]),
            ctx,
            depth,
        ),
        resolve_at(YamlView::Tagged("!FindInMap"@, Box::new(arg)), ctx, depth) == resolve_at(
            YamlView::Mapping(seq![(YamlView::String("Fn::FindInMap"@), arg)]),
            ctx,
            depth,
        ),
        resolve_at(YamlView::Tagged("!Select"@, Box::new(arg)), ctx, depth) == resolve_at(
            YamlView::Mapping(seq![(YamlView::String("Fn::Select"@), arg)]),
            ctx,
            depth,
        ),
        resolve_at(YamlView::Tagged("!If"@, Box::new(arg)), ctx, depth) == resolve_at(
            YamlView::Mapping(seq![(YamlView::String("Fn::If"@), arg)]),
            ctx,
            depth,
        ),
        resolve_at(YamlView::Tagged("!ImportValue"@, Box::new(arg)), ctx, depth) == resolve_at(
            YamlView::Mapping(seq![(YamlView::String("Fn::ImportValue"@), arg)]),
            ctx,
            depth,
        ),
        resolve_at(YamlView::Tagged("!Join"@, Box::new(arg)), ctx, depth) == resolve_at(
            YamlView::Mapping(seq![(YamlView::String("Fn::Join"@), arg)]),
            ctx,
            depth,
        ),
        resolve_at(YamlView::Tagged("!GetAtt"@, Box::new(arg)), ctx, depth) == resolve_at(
            YamlView::Mapping(seq![(YamlView::String("Fn::GetAtt"@), arg)]),
            ctx,
            depth,
        ),
        resolve_at(YamlView::Tagged("!Split"@, Box::new(arg)), ctx, depth) == resolve_at(
            YamlView::Mapping(seq![(YamlView::String("Fn::Split"@), arg)]),
            ctx,
            depth,
        ),
{
    lemma_names();
    assert(seq![(YamlView::String("Ref"@), arg)][0].0 == YamlView::String("Ref"@));
    assert(seq![(YamlView::String("Fn::Sub"@), arg)][0].0 == YamlView::String("Fn::Sub"@));
    assert(seq![(YamlView::String("Fn::FindInMap"@), arg)][0].0 == YamlView::String("Fn::FindInMap"@));
    assert(seq![(YamlView::String("Fn::Select"@), arg)][0].0 == YamlView::String("Fn::Select"@));
    assert(seq![(YamlView::String("Fn::If"@), arg)][0].0 == YamlView::String("Fn::If"@));
    assert(seq![(YamlView::String("Fn::ImportValue"@), arg)][0].0 == YamlView::String("Fn::ImportValue"@));
    assert(seq![(YamlView::String("Fn::Join"@), arg)][0].0 == YamlView::String("Fn::Join"@));
    assert(seq![(YamlView::String("Fn::GetAtt"@), arg)][0].0 == YamlView::String("Fn::GetAtt"@));
    assert(seq![(YamlView::String("Fn::Split"@), arg)][0].0 == YamlView::String("Fn::Split"@));
}

/// `!Ref` gives the value of a pseudo parameter or of a parameter, and keeps a
/// reference to anything else; a declared parameter without a value is an error.
pub proof fn law_ref(name: Seq<char>, ctx: ContextView, depth: int)
    requires
        depth <= 128,
    ensures
        ({
            let r = resolve_at(
                YamlView::Tagged("!Ref"@, Box::new(YamlView::String(name))),
                ctx,
                depth,
            );
            &&& name == "AWS::AccountId"@ ==> r == Ok::<ResolvedView, CfnErrorView>(
                text("123456789012"@),
            )
            &&& name == "AWS::StackName"@ ==> r == Ok::<ResolvedView, CfnErrorView>(text("stack"@))
            &&& name == "AWS::NoValue"@ ==> r == Ok::<ResolvedView, CfnErrorView>(
                ResolvedView::Concrete(YamlView::Null),
            )
            &&& name == "AWS::Region"@ && lookup(ctx.parameters, name) is None ==> r == Ok::<
                ResolvedView,
                CfnErrorView,
            >(text("ap-northeast-1"@))
            &&& name != "AWS::AccountId"@ && name != "AWS::StackName"@ && name != "AWS::NoValue"@
                ==> match lookup(ctx.parameters, name) {
                Some(v) => r == Ok::<ResolvedView, CfnErrorView>(text(v)),
                None => name == "AWS::Region"@ || r == (if ctx.unbound.contains(name) {
                    Err::<ResolvedView, CfnErrorView>(CfnErrorView::ParameterNotFound(name))
                } else {
                    Ok(ResolvedView::Ref(name))
                }),
            }
        }),
{
    lemma_names();
    reveal_strlit("AWS::Region");
    reveal_strlit("AWS::AccountId");
    reveal_strlit("AWS::StackName");
    reveal_strlit("AWS::NoValue");
    assert("AWS::Region"@.len() == 11);
    assert("AWS::AccountId"@.len() == 14);
    assert("AWS::StackName"@.len() == 14);
    assert("AWS::NoValue"@.len() == 12);
    assert("AWS::AccountId"@[5] != "AWS::StackName"@[5]);
    reveal_with_fuel(crate::yaml::untagged, 2);
    assert(crate::yaml::yaml_str(YamlView::String(name)) == Some(name));
}

/// `!GetAtt` of `id.attr`, of which `id` holds no dot, and of the list of the two
/// is a reference to the attribute of the resource.
pub proof fn law_get_att(id: Seq<char>, attr: Seq<char>, ctx: ContextView, depth: int)
    requires
        depth <= 128,
        !id.contains('.'),
    ensures
        resolve_at(
            YamlView::Tagged("!GetAtt"@, Box::new(YamlView::String(id + seq!['.'] + attr))),
            ctx,
            depth,
        ) == Ok::<ResolvedView, CfnErrorView>(ResolvedView::GetAtt { logical_id: id, attr }),
        resolve_at(
            YamlView::Tagged(
                "!GetAtt"@,
                Box::new(YamlView::Sequence(seq![YamlView::String(id), YamlView::String(attr)])),
            ),
            ctx,
            depth,
        ) == Ok::<ResolvedView, CfnErrorView>(ResolvedView::GetAtt { logical_id: id, attr }),
{
    lemma_names();
    let s = id + seq!['.'] + attr;
    let k = id.len() as int;
    crate::text::lemma_occurs_char(s, '.', k);
    assert forall|j: int| 0 <= j < k implies !#[trigger] crate::text::occurs_at(
        s,
        seq!['.'],
        j,
    ) by {
        crate::text::lemma_occurs_char(s, '.', j);
        assert(s[j] == id[j]);
        assert(id.contains(id[j]));
    }
    crate::text::lemma_find_from_is(s, seq!['.'], 0, k);
    assert(s.subrange(0, k) =~= id);
    assert(crate::text::tail(s, k + 1) =~= attr);
    assert(crate::text::split_at_char(s, '.') == Some((id, attr)));
    let items = seq![YamlView::String(id), YamlView::String(attr)];
    reveal_with_fuel(crate::yaml::untagged, 2);
    reveal_with_fuel(crate::yaml::strings_of, 3);
    assert(items.drop_last() =~= seq![YamlView::String(id)]);
    assert(seq![YamlView::String(id)].drop_last() =~= Seq::empty());
    let names = crate::yaml::strings_of(items);
    assert(names =~= seq![id, attr]);
    assert(names.drop_first() =~= seq![attr]);
    reveal_with_fuel(crate::text::joined, 2);
    assert(crate::text::joined(seq![attr], "."@) =~= attr);
}

/// `!If` gives what its second or its third element resolves to, as the condition
/// that the first names holds or not; a condition that is not defined is an
/// error.
pub proof fn law_if(
    name: Seq<char>,
    yes: YamlView,
    no: YamlView,
    ctx: ContextView,
    depth: int,
)
    requires
        depth <= 128,
    ensures
        resolve_at(
            YamlView::Tagged(
                "!If"@,
                Box::new(YamlView::Sequence(seq![YamlView::String(name), yes, no])),
            ),
            ctx,
            depth,
        ) == match lookup(ctx.conditions, name) {
            Some(true) => resolve_at(yes, ctx, depth + 1),
            Some(false) => resolve_at(no, ctx, depth + 1),
            None => Err(CfnErrorView::ConditionNotFound(name)),
        },
{
    lemma_names();
    let s = seq![YamlView::String(name), yes, no];
    reveal_with_fuel(crate::yaml::untagged, 2);
    assert(crate::yaml::yaml_items(YamlView::Sequence(s)) == Some(s));
    assert(crate::yaml::yaml_str(s[0]) == Some(name));
    assert(s[1] == yes && s[2] == no);
    let arg = YamlView::Sequence(s);
    assert(crate::cfn::intrinsic::resolved_if(arg, ctx, depth) == match lookup(
        ctx.conditions,
        name,
    ) {
        Some(b) => if b {
            resolve_at(yes, ctx, depth + 1)
        } else {
            resolve_at(no, ctx, depth + 1)
        },
        None => Err(CfnErrorView::ConditionNotFound(name)),
    });
    assert(call("Fn::If"@, arg, ctx, depth) == crate::cfn::intrinsic::resolved_if(arg, ctx, depth));
}

/// `!FindInMap` of three texts gives what the mappings hold under them, and
/// otherwise the error that names them.
pub proof fn law_find_in_map(
    x: YamlView,
    y: YamlView,
    z: YamlView,
    i: Seq<char>,
    j: Seq<char>,
    k: Seq<char>,
    ctx: ContextView,
    depth: int,
)
    requires
        depth <= 128,
        resolve_at(x, ctx, depth + 1) == Ok::<ResolvedView, CfnErrorView>(text(i)),
        resolve_at(y, ctx, depth + 1) == Ok::<ResolvedView, CfnErrorView>(text(j)),
        resolve_at(z, ctx, depth + 1) == Ok::<ResolvedView, CfnErrorView>(text(k)),
    ensures
        ({
            let r = resolve_at(
                YamlView::Tagged("!FindInMap"@, Box::new(YamlView::Sequence(seq![x, y, z]))),
                ctx,
                depth,
            );
            let found = match lookup(ctx.mappings, i) {
                Some(m) => match lookup(m, j) {
                    Some(n) => lookup(n, k),
                    None => None,
                },
                None => None,
            };
            (found is Some ==> r == Ok::<ResolvedView, CfnErrorView>(text(found->Some_0))) && (found
                is None ==> r is Err) && (r is Err ==> r->Err_0 == CfnErrorView::MappingNotFound {
                map_name: i,
                first_key: j,
                second_key: k,
            })
        }),
{
    lemma_names();
    let s = seq![x, y, z];
    let arg = YamlView::Sequence(s);
    reveal_with_fuel(crate::yaml::untagged, 2);
    assert(crate::yaml::yaml_items(arg) == Some(s));
    assert(s[0] == x && s[1] == y && s[2] == z);
    assert(call("Fn::FindInMap"@, arg, ctx, depth) == crate::cfn::intrinsic::resolved_find_in_map(
        arg,
        ctx,
        depth,
    ));
    assert(crate::cfn::intrinsic::resolved_find_in_map(arg, ctx, depth)
        == crate::cfn::intrinsic::found_in_map(ctx, i, j, k));
}

/// `!ImportValue` of a text gives the exported value of that name, and otherwise
/// the error that names it.
pub proof fn law_import_value(arg: YamlView, name: Seq<char>, ctx: ContextView, depth: int)
    requires
        depth <= 128,
        resolve_at(arg, ctx, depth + 1) == Ok::<ResolvedView, CfnErrorView>(text(name)),
    ensures
        resolve_at(YamlView::Tagged("!ImportValue"@, Box::new(arg)), ctx, depth) == match lookup(
            ctx.imports,
            name,
        ) {
            Some(v) => Ok(text(v)),
            None => Err(CfnErrorView::ImportValueNotFound(name)),
        },
{
    lemma_names();
    assert(call("Fn::ImportValue"@, arg, ctx, depth)
        == crate::cfn::intrinsic::resolved_import_value(arg, ctx, depth));
}

/// `!Select` gives the item of a list at an index, and an error where the list is
/// shorter.
pub proof fn law_select(
    x: YamlView,
    y: YamlView,
    index: u64,
    items: Seq<ResolvedView>,
    ctx: ContextView,
    depth: int,
)
    requires
        depth <= 128,
        resolve_at(x, ctx, depth + 1) == Ok::<ResolvedView, CfnErrorView>(
            ResolvedView::Concrete(YamlView::Number(NumberView::PosInt(index))),
        ),
        resolve_at(y, ctx, depth + 1) == Ok::<ResolvedView, CfnErrorView>(
            ResolvedView::Sequence(items),
        ),
    ensures
        ({
            let r = resolve_at(
                YamlView::Tagged("!Select"@, Box::new(YamlView::Sequence(seq![x, y]))),
                ctx,
                depth,
            );
            &&& index < items.len() ==> r == Ok::<ResolvedView, CfnErrorView>(items[index as int])
            &&& index >= items.len() ==> r is Err && r->Err_0 is IntrinsicError
        }),
{
    lemma_names();
    let s = seq![x, y];
    let arg = YamlView::Sequence(s);
    reveal_with_fuel(crate::yaml::untagged, 2);
    assert(crate::yaml::yaml_items(arg) == Some(s));
    assert(s[0] == x && s[1] == y);
    assert(call("Fn::Select"@, arg, ctx, depth) == crate::cfn::intrinsic::resolved_select(
        arg,
        ctx,
        depth,
    ));
    assert(crate::cfn::intrinsic::resolved_select(arg, ctx, depth)
        == crate::cfn::intrinsic::selected(arg, index as nat, ResolvedView::Sequence(items)));
}

/// `!Split` gives the pieces of a text between the separators.
pub proof fn law_split(
    x: YamlView,
    y: YamlView,
    sep: Seq<char>,
    source: Seq<char>,
    ctx: ContextView,
    depth: int,
)
    requires
        depth <= 128,
        resolve_at(x, ctx, depth + 1) == Ok::<ResolvedView, CfnErrorView>(text(sep)),
        resolve_at(y, ctx, depth + 1) == Ok::<ResolvedView, CfnErrorView>(text(source)),
    ensures
        ({
            let r = resolve_at(
                YamlView::Tagged("!Split"@, Box::new(YamlView::Sequence(seq![x, y]))),
                ctx,
                depth,
            );
            let pieces = crate::text::pieces(source, sep);
            &&& r matches Ok(ResolvedView::Sequence(items)) && items.len() == pieces.len() && (
            forall|i: int| 0 <= i < items.len() ==> #[trigger] items[i] == text(pieces[i]))
            &&& crate::text::joined(pieces, sep) == source
        }),
{
    lemma_names();
    let s = seq![x, y];
    let arg = YamlView::Sequence(s);
    reveal_with_fuel(crate::yaml::untagged, 2);
    assert(crate::yaml::yaml_items(arg) == Some(s));
    assert(s[0] == x && s[1] == y);
    assert(call("Fn::Split"@, arg, ctx, depth) == crate::cfn::intrinsic::resolved_split(
        arg,
        ctx,
        depth,
    ));
    assert(crate::cfn::intrinsic::resolved_split(arg, ctx, depth)
        == crate::cfn::intrinsic::split_value(arg, sep, text(source)));
    crate::text::law_joined_pieces(source, sep);
}

/// The texts of a list.
pub open spec fn texts_of(ts: Seq<Seq<char>>) -> Seq<ResolvedView> {
    ts.map_values(|t: Seq<char>| text(t))
}

/// `!Join` of texts is one text: the texts with the delimiter between them.
pub proof fn law_join(
    x: YamlView,
    y: YamlView,
    delimiter: Seq<char>,
    ts: Seq<Seq<char>>,
    ctx: ContextView,
    depth: int,
)
    requires
        depth <= 128,
        resolve_at(x, ctx, depth + 1) == Ok::<ResolvedView, CfnErrorView>(text(delimiter)),
        resolve_at(y, ctx, depth + 1) == Ok::<ResolvedView, CfnErrorView>(
            ResolvedView::Sequence(texts_of(ts)),
        ),
    ensures
        resolve_at(
            YamlView::Tagged("!Join"@, Box::new(YamlView::Sequence(seq![x, y]))),
            ctx,
            depth,
        ) == Ok::<ResolvedView, CfnErrorView>(text(crate::text::joined(ts, delimiter))),
        ts.len() == 1 ==> crate::text::joined(ts, delimiter) == ts[0],
        ts.len() >= 2 ==> crate::text::joined(ts, delimiter) == crate::text::joined(
            ts.drop_last(),
            delimiter,
        ) + delimiter + ts.last(),
{
    lemma_names();
    let s = seq![x, y];
    let arg = YamlView::Sequence(s);
    reveal_with_fuel(crate::yaml::untagged, 2);
    assert(crate::yaml::yaml_items(arg) == Some(s));
    assert(s[0] == x && s[1] == y);
    assert(call("Fn::Join"@, arg, ctx, depth) == crate::cfn::intrinsic::resolved_join(
        arg,
        ctx,
        depth,
    ));
    crate::cfn::intrinsic::lemma_list_of_texts(ts, delimiter);
    assert(texts_of(ts) =~= ts.map_values(
        |p: Seq<char>| crate::cfn::resolved::concrete_text(p),
    ));
    if ts.len() == 1 {
        reveal_with_fuel(crate::text::joined, 2);
        assert(ts.drop_last() =~= Seq::empty());
        assert(crate::text::joined(ts, delimiter) =~= ts[0]);
    }
}

/// `!Join` and `!Sub` keep the references that they hold: what a joined list of
/// one reference gives is that reference.
pub proof fn law_join_keeps_a_reference(
    x: YamlView,
    y: YamlView,
    delimiter: Seq<char>,
    id: Seq<char>,
    ctx: ContextView,
    depth: int,
)
    requires
        depth <= 128,
        resolve_at(x, ctx, depth + 1) == Ok::<ResolvedView, CfnErrorView>(text(delimiter)),
        resolve_at(y, ctx, depth + 1) == Ok::<ResolvedView, CfnErrorView>(
            ResolvedView::Sequence(seq![ResolvedView::Ref(id)]),
        ),
    ensures
        resolve_at(
            YamlView::Tagged("!Join"@, Box::new(YamlView::Sequence(seq![x, y]))),
            ctx,
            depth,
        ) == Ok::<ResolvedView, CfnErrorView>(ResolvedView::Ref(id)),
{
    lemma_names();
    let s = seq![x, y];
    let arg = YamlView::Sequence(s);
    reveal_with_fuel(crate::yaml::untagged, 2);
    assert(crate::yaml::yaml_items(arg) == Some(s));
    assert(s[0] == x && s[1] == y);
    assert(call("Fn::Join"@, arg, ctx, depth) == crate::cfn::intrinsic::resolved_join(
        arg,
        ctx,
        depth,
    ));
    let items = seq![ResolvedView::Ref(id)];
    reveal_with_fuel(crate::cfn::intrinsic::list_parts, 2);
    assert(items.drop_last() =~= Seq::empty());
    let p = crate::cfn::intrinsic::list_parts(items, delimiter).0;
    assert(p =~= seq![PartView::Ref(id)]);
    reveal_with_fuel(crate::cfn::resolved::merged, 2);
    assert(p.drop_last() =~= Seq::empty());
    assert(!crate::cfn::resolved::all_literal(p)) by {
        assert(!(p[0] is Literal));
    }
    assert(crate::cfn::resolved::merged(p) =~= p);
}

// ---------------------------------------------------------------------------
// Containers
// ---------------------------------------------------------------------------

proof fn lemma_items(s: Seq<YamlView>, ctx: ContextView, depth: int)
    ensures
        match crate::cfn::intrinsic::resolve_items(s, ctx, depth) {
            Ok(items) => items.len() == s.len() && forall|i: int|
                0 <= i < s.len() ==> resolve_at(#[trigger] s[i], ctx, depth) == Ok::<
                    ResolvedView,
                    CfnErrorView,
                >(items[i]),
            Err(e) => exists|i: int|
                0 <= i < s.len() && resolve_at(#[trigger] s[i], ctx, depth) == Err::<
                    ResolvedView,
                    CfnErrorView,
                >(e),
        },
    decreases s.len(),
{
    if s.len() > 0 {
        let t = s.drop_last();
        lemma_items(t, ctx, depth);
        let n = s.len() - 1;
        match crate::cfn::intrinsic::resolve_items(t, ctx, depth) {
            Ok(done) => {
                assert forall|i: int| 0 <= i < n implies resolve_at(
                    #[trigger] s[i],
                    ctx,
                    depth,
                ) == Ok::<ResolvedView, CfnErrorView>(done[i]) by {
                    assert(t[i] == s[i]);
                }
                assert(s[n] == s.last());
            },
            Err(e) => {
                let i = choose|i: int|
                    0 <= i < t.len() && resolve_at(#[trigger] t[i], ctx, depth) == Err::<
                        ResolvedView,
                        CfnErrorView,
                    >(e);
                assert(s[i] == t[i]);
            },
        }
    }
}

/// A list resolves item by item, and fails where an item does. A scalar is its
/// own value.
pub proof fn law_lists_resolve_by_item(s: Seq<YamlView>, ctx: ContextView, depth: int)
    requires
        depth <= 128,
    ensures
        match resolve_at(YamlView::Sequence(s), ctx, depth) {
            Ok(v) => v matches ResolvedView::Sequence(items) && items.len() == s.len() && (forall|
                i: int,
            |
                0 <= i < s.len() ==> resolve_at(#[trigger] s[i], ctx, depth + 1) == Ok::<
                    ResolvedView,
                    CfnErrorView,
                >(items[i])),
            Err(e) => exists|i: int|
                0 <= i < s.len() && resolve_at(#[trigger] s[i], ctx, depth + 1) == Err::<
                    ResolvedView,
                    CfnErrorView,
                >(e),
        },
        forall|v: YamlView|
            !(v is Tagged || v is Mapping || v is Sequence) ==> #[trigger] resolve_at(v, ctx, depth)
                == Ok::<ResolvedView, CfnErrorView>(ResolvedView::Concrete(v)),
{
    lemma_items(s, ctx, depth + 1);
}

proof fn lemma_entries(
    m: Seq<(YamlView, YamlView)>,
    through_tags: bool,
    ctx: ContextView,
    depth: int,
    k: int,
    key: Seq<char>,
)
    requires
        0 <= k < m.len(),
        m[k].0 == YamlView::String(key),
        forall|j: int|
            k < j < m.len() ==> crate::yaml::yaml_str((#[trigger] m[j]).0) != Some(key),
        crate::cfn::intrinsic::resolve_entries(m, through_tags, ctx, depth) is Ok,
    ensures
        ({
            let e = crate::cfn::intrinsic::resolve_entries(m, through_tags, ctx, depth)->Ok_0;
            &&& lookup(e, key) is Some
            &&& resolve_at(m[k].1, ctx, depth) == Ok::<ResolvedView, CfnErrorView>(
                lookup(e, key)->Some_0,
            )
        }),
    decreases m.len(),
{
    let t = m.drop_last();
    let done = crate::cfn::intrinsic::resolve_entries(t, through_tags, ctx, depth)->Ok_0;
    if k < t.len() {
        assert(t[k] == m[k]);
        assert forall|j: int| k < j < t.len() implies crate::yaml::yaml_str((#[trigger] t[j]).0)
            != Some(key) by {
            assert(m[j] == t[j]);
        }
        lemma_entries(t, through_tags, ctx, depth, k, key);
        assert(crate::yaml::yaml_str(m[m.len() - 1].0) != Some(key));
        if let Some(other) = crate::cfn::intrinsic::key_text(m.last().0, through_tags) {
            if let Ok(x) = resolve_at(m.last().1, ctx, depth) {
                crate::strmap::lemma_lookup_inserted(done, other, x, key);
            }
        }
    } else {
        assert(crate::yaml::untagged(m.last().0) == m.last().0);
        if let Ok(x) = resolve_at(m.last().1, ctx, depth) {
            crate::strmap::lemma_lookup_inserted(done, key, x, key);
        }
    }
}

/// Under each key of a mapping stands what its value resolves to.
pub proof fn law_mappings_resolve_by_entry(
    m: Seq<(YamlView, YamlView)>,
    ctx: ContextView,
    depth: int,
    k: int,
    key: Seq<char>,
)
    requires
        depth <= 128,
        m.len() >= 2,
        0 <= k < m.len(),
        m[k].0 == YamlView::String(key),
        forall|j: int|
            k < j < m.len() ==> crate::yaml::yaml_str((#[trigger] m[j]).0) != Some(key),
        resolve_at(YamlView::Mapping(m), ctx, depth) is Ok,
    ensures
        resolve_at(YamlView::Mapping(m), ctx, depth)->Ok_0 matches ResolvedView::Mapping(e)
            && lookup(e, key) is Some && resolve_at(m[k].1, ctx, depth + 1) == Ok::<
            ResolvedView,
            CfnErrorView,
        >(lookup(e, key)->Some_0),
{
    lemma_entries(m, true, ctx, depth + 1, k, key);
}

// ---------------------------------------------------------------------------
// Substitution
// ---------------------------------------------------------------------------

/// Text without `$` before position `n` is read as it stands.
proof fn lemma_plain_until(
    t: Seq<char>,
    i: int,
    n: int,
    st: SubState,
    vars: Seq<(Seq<char>, ResolvedView)>,
    ctx: ContextView,
)
    requires
        0 <= i <= n <= t.len(),
        forall|j: int| i <= j < n ==> #[trigger] t[j] != '$',
    ensures
        crate::cfn::intrinsic::sub_run(t, i, st, vars, ctx) == crate::cfn::intrinsic::sub_run(
            t,
            n,
            crate::cfn::intrinsic::with_text(st, t.subrange(i, n)),
            vars,
            ctx,
        ),
    decreases n - i,
{
    if i < n {
        assert(t[i] != '$');
        let next = crate::cfn::intrinsic::with_text(st, seq![t[i]]);
        lemma_plain_until(t, i + 1, n, next, vars, ctx);
        assert(st.literal + seq![t[i]] + t.subrange(i + 1, n) =~= st.literal + t.subrange(i, n));
    } else {
        assert(st.literal + t.subrange(i, n) =~= st.literal);
    }
}

/// The template `before${name}after`.
pub open spec fn around(before: Seq<char>, name: Seq<char>, after: Seq<char>) -> Seq<char> {
    before + seq!['$', '{'] + name + seq!['}'] + after
}

pub proof fn lemma_around(
    before: Seq<char>,
    name: Seq<char>,
    after: Seq<char>,
    vars: Seq<(Seq<char>, ResolvedView)>,
    ctx: ContextView,
)
    requires
        !before.contains('$'),
        !after.contains('$'),
        !name.contains('}'),
        !crate::cfn::intrinsic::names_unbound(name, vars, ctx),
    ensures
        ({
            let start = SubState { parts: Seq::empty(), literal: before };
            let st = crate::cfn::intrinsic::after_placeholder(start, name, vars, ctx);
            crate::cfn::intrinsic::template_parts(around(before, name, after), vars, ctx) == Ok::<
                Seq<PartView>,
                CfnErrorView,
            >(
                crate::cfn::intrinsic::flushed(
                    crate::cfn::intrinsic::with_text(st, after),
                ).parts,
            )
        }),
{
    let t = around(before, name, after);
    let b = before.len() as int;
    let end = b + 2 + name.len();
    let zero = SubState { parts: Seq::empty(), literal: Seq::empty() };
    let start = SubState { parts: Seq::<PartView>::empty(), literal: before };
    assert forall|j: int| 0 <= j < b implies #[trigger] t[j] != '$' by {
        assert(t[j] == before[j]);
        assert(before.contains(before[j]));
    }
    lemma_plain_until(t, 0, b, zero, vars, ctx);
    assert(t.subrange(0, b) =~= before);
    assert(zero.literal + before =~= before);
    assert(t[b] == '$' && t[b + 1] == '{');
    assert(crate::cfn::intrinsic::opens_placeholder(t, b));
    crate::text::lemma_occurs_char(t, '}', end);
    assert(t[end] == '}');
    assert forall|j: int| b + 2 <= j < end implies !#[trigger] crate::text::occurs_at(
        t,
        seq!['}'],
        j,
    ) by {
        crate::text::lemma_occurs_char(t, '}', j);
        assert(t[j] == name[j - b - 2]);
        assert(name.contains(name[j - b - 2]));
    }
    crate::text::lemma_find_from_is(t, seq!['}'], b + 2, end);
    assert(t.subrange(b + 2, end) =~= name);
    let st = crate::cfn::intrinsic::after_placeholder(start, name, vars, ctx);
    let n = t.len() as int;
    assert forall|j: int| end + 1 <= j < n implies #[trigger] t[j] != '$' by {
        assert(t[j] == after[j - end - 1]);
        assert(after.contains(after[j - end - 1]));
    }
    lemma_plain_until(t, end + 1, n, st, vars, ctx);
    assert(t.subrange(end + 1, n) =~= after);
}

/// Literal parts make a text.
proof fn lemma_literal(s: Seq<char>)
    ensures
        crate::cfn::resolved::value_of_parts(
            crate::cfn::intrinsic::flushed(SubState { parts: Seq::empty(), literal: s }).parts,
        ) == text(s),
{
    let p = crate::cfn::intrinsic::flushed(SubState { parts: Seq::empty(), literal: s }).parts;
    reveal_with_fuel(crate::cfn::resolved::parts_text, 2);
    if s.len() == 0 {
        assert(p =~= Seq::empty());
        assert(s =~= Seq::empty());
    } else {
        assert(p =~= seq![PartView::Literal(s)]);
        assert(p.drop_last() =~= Seq::empty());
        assert(crate::cfn::resolved::parts_text(p) =~= s);
    }
}

/// `!Sub` puts the value of a parameter, or of a local variable that is a text, in
/// the place of its placeholder; a local variable counts before a parameter, and
/// `${!name}` stands for the text `${name}`.
pub proof fn law_sub_substitutes(
    before: Seq<char>,
    name: Seq<char>,
    after: Seq<char>,
    vars: Seq<(Seq<char>, ResolvedView)>,
    ctx: ContextView,
    value: Seq<char>,
)
    requires
        !before.contains('$'),
        !after.contains('$'),
        !name.contains('}'),
        ({
            ||| !crate::text::has_prefix(name, seq!['!']) && lookup(vars, name) == Some(text(value))
            ||| !crate::text::has_prefix(name, seq!['!']) && lookup(vars, name) is None && lookup(
                ctx.parameters,
                name,
            ) == Some(value)
            ||| name.len() > 0 && name[0] == '!' && value == seq!['$', '{'] + name.subrange(
                1,
                name.len() as int,
            ) + seq!['}']
            ||| !crate::text::has_prefix(name, seq!['!']) && lookup(vars, name) is None && lookup(
                ctx.parameters,
                name,
            ) is None && !ctx.unbound.contains(name) && crate::text::has_prefix(name, "AWS::"@)
                && value == seq!['$', '{'] + name + seq!['}']
        }),
    ensures
        substituted(around(before, name, after), vars, ctx) == Ok::<ResolvedView, CfnErrorView>(
            text(before + value + after),
        ),
{
    if name.len() > 0 && name[0] == '!' {
        assert(name.subrange(0, 1) =~= seq!['!']);
        assert(crate::text::has_prefix(name, seq!['!']));
        assert(crate::text::tail(name, 1) =~= name.subrange(1, name.len() as int));
    }
    lemma_around(before, name, after, vars, ctx);
    lemma_literal(before + value + after);
    assert(before + value + after =~= (before + value) + after);
}

/// `!Sub` of a placeholder alone keeps the reference that it stands for: `${id}`
/// one to a resource, `${id.attr}` one to an attribute.
pub proof fn law_sub_refers(
    id: Seq<char>,
    attr: Seq<char>,
    vars: Seq<(Seq<char>, ResolvedView)>,
    ctx: ContextView,
)
    requires
        id.len() > 0,
        !id.contains('}') && !id.contains('.') && !attr.contains('}'),
        !crate::text::has_prefix(id, seq!['!']) && !crate::text::has_prefix(id, "AWS::"@),
        !crate::text::has_prefix(id + seq!['.'] + attr, seq!['!']) && !crate::text::has_prefix(
            id + seq!['.'] + attr,
            "AWS::"@,
        ),
        lookup(vars, id) is None,
        lookup(ctx.parameters, id) is None,
        !ctx.unbound.contains(id),
        lookup(vars, id + seq!['.'] + attr) is None,
        lookup(ctx.parameters, id + seq!['.'] + attr) is None,
        !ctx.unbound.contains(id + seq!['.'] + attr),
    ensures
        substituted(around(Seq::empty(), id, Seq::empty()), vars, ctx) == Ok::<
            ResolvedView,
            CfnErrorView,
        >(ResolvedView::Ref(id)),
        substituted(around(Seq::empty(), id + seq!['.'] + attr, Seq::empty()), vars, ctx) == Ok::<
            ResolvedView,
            CfnErrorView,
        >(ResolvedView::GetAtt { logical_id: id, attr }),
{
    let e = Seq::<char>::empty();
    let both = id + seq!['.'] + attr;
    assert(!both.contains('}')) by {
        if both.contains('}') {
            let j = both.index_of('}');
            if j < id.len() {
                assert(id[j] == '}');
            } else if j > id.len() {
                assert(attr[j - id.len() - 1] == '}');
            }
        }
    }
    lemma_around(e, id, e, vars, ctx);
    lemma_around(e, both, e, vars, ctx);
    assert(crate::text::split_at_char(id, '.') is None) by {
        crate::text::lemma_find_from(id, seq!['.'], 0);
        if let Some(k) = crate::text::find_text(id, seq!['.']) {
            crate::text::lemma_occurs_char(id, '.', k);
            assert(id.contains(id[k]));
        }
    }
    let k = id.len() as int;
    crate::text::lemma_occurs_char(both, '.', k);
    assert forall|j: int| 0 <= j < k implies !#[trigger] crate::text::occurs_at(
        both,
        seq!['.'],
        j,
    ) by {
        crate::text::lemma_occurs_char(both, '.', j);
        assert(both[j] == id[j]);
        assert(id.contains(id[j]));
    }
    crate::text::lemma_find_from_is(both, seq!['.'], 0, k);
    assert(both.subrange(0, k) =~= id);
    assert(crate::text::tail(both, k + 1) =~= attr);
    lemma_alone(PartView::Ref(id));
    lemma_alone(PartView::GetAtt { logical_id: id, attr });
    let start = SubState { parts: Seq::<PartView>::empty(), literal: e };
    let a = crate::cfn::intrinsic::after_placeholder(start, id, vars, ctx);
    let b = crate::cfn::intrinsic::after_placeholder(start, both, vars, ctx);
    assert(a.parts =~= seq![PartView::Ref(id)]);
    assert(b.parts =~= seq![PartView::GetAtt { logical_id: id, attr }]);
    assert(a.literal + e =~= e);
    assert(b.literal + e =~= e);
}

/// One reference alone makes a typed value.
proof fn lemma_alone(p: PartView)
    requires
        !(p is Literal),
    ensures
        crate::cfn::resolved::value_of_parts(seq![p]) == match p {
            PartView::Ref(id) => ResolvedView::Ref(id),
            PartView::GetAtt { logical_id, attr } => ResolvedView::GetAtt { logical_id, attr },
            PartView::Literal(s) => text(s),
        },
{
    let s = seq![p];
    reveal_with_fuel(crate::cfn::resolved::merged, 2);
    assert(s.drop_last() =~= Seq::empty());
    assert(!crate::cfn::resolved::all_literal(s)) by {
        assert(!(s[0] is Literal));
    }
    assert(crate::cfn::resolved::merged(s) =~= s);
}

/// `!Sub` of a text is what its template gives, and of a list of a template and
/// local variables what the template gives with them.
pub proof fn law_sub_forms(
    t: Seq<char>,
    m: Seq<(YamlView, YamlView)>,
    ctx: ContextView,
    depth: int,
)
    requires
        depth <= 128,
    ensures
        resolve_at(YamlView::Tagged("!Sub"@, Box::new(YamlView::String(t))), ctx, depth)
            == substituted(t, Seq::empty(), ctx),
        resolve_at(
            YamlView::Tagged(
                "!Sub"@,
                Box::new(YamlView::Sequence(seq![YamlView::String(t), YamlView::Mapping(m)])),
            ),
            ctx,
            depth,
        ) == match crate::cfn::intrinsic::resolve_entries(m, false, ctx, depth + 1) {
            Ok(vars) => substituted(t, vars, ctx),
            Err(e) => Err(e),
        },
{
    lemma_names();
    reveal_with_fuel(crate::yaml::untagged, 2);
    let s = seq![YamlView::String(t), YamlView::Mapping(m)];
    assert(crate::yaml::yaml_str(s[0]) == Some(t));
    assert(s[1] == YamlView::Mapping(m));
    let arg = YamlView::Sequence(s);
    assert(call("Fn::Sub"@, arg, ctx, depth) == crate::cfn::intrinsic::resolved_sub(
        arg,
        ctx,
        depth,
    ));
    assert(call("Fn::Sub"@, YamlView::String(t), ctx, depth)
        == crate::cfn::intrinsic::resolved_sub(YamlView::String(t), ctx, depth));
}

} // verus!
