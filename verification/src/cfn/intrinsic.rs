//! Resolution of `CloudFormation` intrinsic functions.

use vstd::prelude::*;

use crate::cfn::error::CfnError;
use crate::cfn::error::CfnErrorView;
use crate::cfn::resolved::clone_parts;
use crate::cfn::resolved::value_message;
use crate::cfn::resolved::PartView;
use crate::cfn::resolved::ResolvedValue;
use crate::cfn::resolved::ResolvedView;
use crate::cfn::resolved::StringPart;
use crate::strmap::clone_text_map;
use crate::strmap::text_get;
use crate::strmap::vec_get;
use crate::strmap::vec_insert;
use crate::strmap::StrMap;
use crate::text::chars_of;
use crate::text::find_char;
use crate::text::is_among;
use crate::text::join;
use crate::text::split;
use crate::text::split_once;
use crate::text::starts_with;
use crate::text::text_eq;
use crate::text::text_of;
use crate::text::u64_text;
use crate::yaml::bool_to_text;
use crate::yaml::collect_strings;
use crate::yaml::Number;
use crate::yaml::NumberView;
use crate::yaml::Yaml;
use crate::yaml::YamlView;

verus! {

/// Maximum nesting depth for intrinsic function resolution.
pub const MAX_INTRINSIC_DEPTH: usize = 128;

/// A two-level mapping: first key, second key, value.
pub type MapTable = StrMap<StrMap<StrMap<String>>>;

/// The model of a [`MapTable`].
pub type TableView = Seq<(Seq<char>, Seq<(Seq<char>, Seq<(Seq<char>, Seq<char>)>)>)>;

/// The entries of a table.
pub open spec fn table_view(t: MapTable) -> TableView {
    crate::strmap::mapped(t@, |m: StrMap<StrMap<String>>| level_view(m))
}

/// The entries of one map of a table.
pub open spec fn level_view(m: StrMap<StrMap<String>>) -> Seq<
    (Seq<char>, Seq<(Seq<char>, Seq<char>)>),
> {
    crate::strmap::mapped(m@, |n: StrMap<String>| crate::strmap::text_entries(n@))
}

/// Context for resolving `CloudFormation` intrinsic functions.
pub struct ResolveContext {
    /// Template parameters: name to value.
    pub parameters: StrMap<String>,
    /// Template parameters that are declared and have no value.
    pub unbound: Vec<String>,
    /// Cross-stack import values: export name to value.
    pub imports: StrMap<String>,
    /// Mappings from the template.
    pub mappings: MapTable,
    /// Conditions from the template (evaluated to `bool`).
    pub conditions: StrMap<bool>,
}

/// The model of a [`ResolveContext`].
pub struct ContextView {
    pub parameters: Seq<(Seq<char>, Seq<char>)>,
    pub unbound: Seq<Seq<char>>,
    pub imports: Seq<(Seq<char>, Seq<char>)>,
    pub mappings: TableView,
    pub conditions: Seq<(Seq<char>, bool)>,
}

impl View for ResolveContext {
    type V = ContextView;

    open spec fn view(&self) -> ContextView {
        ContextView {
            parameters: crate::strmap::text_entries(self.parameters@),
            unbound: crate::text::texts(self.unbound@),
            imports: crate::strmap::text_entries(self.imports@),
            mappings: table_view(self.mappings),
            conditions: self.conditions@,
        }
    }
}

impl ResolveContext {
    /// A context without mappings, conditions and parameters that have no value.
    pub fn new(parameters: StrMap<String>, imports: StrMap<String>) -> (r: Self)
        ensures
            r.parameters == parameters,
            r.unbound@ == Seq::<String>::empty(),
            r.imports == imports,
            r.mappings@ == Seq::<(Seq<char>, StrMap<StrMap<String>>)>::empty(),
            r.conditions@ == Seq::<(Seq<char>, bool)>::empty(),
    {
        ResolveContext {
            parameters,
            unbound: Vec::new(),
            imports,
            mappings: StrMap::new(),
            conditions: StrMap::new(),
        }
    }
}

// ---------------------------------------------------------------------------
// Models
// ---------------------------------------------------------------------------

/// What resolving a value gives.
pub type Outcome = Result<ResolvedView, CfnErrorView>;

/// The model of what resolving gave.
pub open spec fn outcome(r: Result<ResolvedValue, CfnError>) -> Outcome {
    match r {
        Ok(v) => Ok(v@),
        Err(e) => Err(e@),
    }
}

/// The model of parts or an error.
pub open spec fn parts_outcome(r: Result<Vec<StringPart>, CfnError>) -> Result<
    Seq<PartView>,
    CfnErrorView,
> {
    match r {
        Ok(p) => Ok(crate::cfn::resolved::part_views(p@)),
        Err(e) => Err(e@),
    }
}

/// The failure of an intrinsic function.
pub open spec fn intrinsic_error(message: Seq<char>) -> Outcome {
    Err(CfnErrorView::IntrinsicError(message))
}

/// The value of a table under three keys.
pub open spec fn table_value(
    t: TableView,
    name: Seq<char>,
    first: Seq<char>,
    second: Seq<char>,
) -> Option<Seq<char>> {
    match crate::strmap::lookup(t, name) {
        Some(m) => match crate::strmap::lookup(m, first) {
            Some(n) => crate::strmap::lookup(n, second),
            None => None,
        },
        None => None,
    }
}

/// The canonical long-form name of a known intrinsic function, given in tag
/// form or long form.
pub open spec fn canonical_name(name: Seq<char>) -> Option<Seq<char>> {
    if name == "!Ref"@ || name == "Ref"@ {
        Some("Ref"@)
    } else if name == "!Sub"@ || name == "Fn::Sub"@ {
        Some("Fn::Sub"@)
    } else if name == "!FindInMap"@ || name == "Fn::FindInMap"@ {
        Some("Fn::FindInMap"@)
    } else if name == "!Select"@ || name == "Fn::Select"@ {
        Some("Fn::Select"@)
    } else if name == "!If"@ || name == "Fn::If"@ {
        Some("Fn::If"@)
    } else if name == "!ImportValue"@ || name == "Fn::ImportValue"@ {
        Some("Fn::ImportValue"@)
    } else if name == "!Join"@ || name == "Fn::Join"@ {
        Some("Fn::Join"@)
    } else if name == "!GetAtt"@ || name == "Fn::GetAtt"@ {
        Some("Fn::GetAtt"@)
    } else if name == "!Split"@ || name == "Fn::Split"@ {
        Some("Fn::Split"@)
    } else {
        None
    }
}

/// A name is the canonical name of an intrinsic function.
pub open spec fn is_canonical(name: Seq<char>) -> bool {
    exists|n: Seq<char>| #[trigger] canonical_name(n) == Some(name)
}

/// What a value resolves to at a nesting depth.
pub open spec fn resolve_at(v: YamlView, ctx: ContextView, depth: int) -> Outcome
    decreases v, 0int,
{
    if depth > MAX_INTRINSIC_DEPTH {
        intrinsic_error("intrinsic nesting exceeds maximum depth (128)"@)
    } else {
        match v {
            YamlView::Tagged(tag, arg) => match canonical_name(tag) {
                Some(c) => call(c, *arg, ctx, depth),
                None => Ok(ResolvedView::Concrete(v)),
            },
            YamlView::Mapping(m) => if m.len() == 1 && m[0].0 is String && canonical_name(
                m[0].0->String_0,
            ) is Some {
                call(canonical_name(m[0].0->String_0)->Some_0, m[0].1, ctx, depth)
            } else {
                match resolve_entries(m, true, ctx, depth + 1) {
                    Ok(e) => Ok(ResolvedView::Mapping(e)),
                    Err(e) => Err(e),
                }
            },
            YamlView::Sequence(s) => match resolve_items(s, ctx, depth + 1) {
                Ok(items) => Ok(ResolvedView::Sequence(items)),
                Err(e) => Err(e),
            },
            _ => Ok(ResolvedView::Concrete(v)),
        }
    }
}

/// What items resolve to, in order, or the first error.
pub open spec fn resolve_items(s: Seq<YamlView>, ctx: ContextView, depth: int) -> Result<
    Seq<ResolvedView>,
    CfnErrorView,
>
    decreases s, 0int,
{
    if s.len() == 0 {
        Ok(Seq::empty())
    } else {
        match resolve_items(s.drop_last(), ctx, depth) {
            Ok(done) => match resolve_at(s.last(), ctx, depth) {
                Ok(x) => Ok(done.push(x)),
                Err(e) => Err(e),
            },
            Err(e) => Err(e),
        }
    }
}

/// The text of a key. A tag on the key is seen through or not.
pub open spec fn key_text(k: YamlView, through_tags: bool) -> Option<Seq<char>> {
    if through_tags || !(k is Tagged) {
        crate::yaml::yaml_str(k)
    } else {
        None
    }
}

/// What the entries with string keys resolve to, or the first error.
pub open spec fn resolve_entries(
    m: Seq<(YamlView, YamlView)>,
    through_tags: bool,
    ctx: ContextView,
    depth: int,
) -> Result<Seq<(Seq<char>, ResolvedView)>, CfnErrorView>
    decreases m, 0int,
{
    if m.len() == 0 {
        Ok(Seq::empty())
    } else {
        match resolve_entries(m.drop_last(), through_tags, ctx, depth) {
            Ok(done) => match key_text(m.last().0, through_tags) {
                Some(key) => match resolve_at(m.last().1, ctx, depth) {
                    Ok(x) => Ok(crate::strmap::inserted(done, key, x)),
                    Err(e) => Err(e),
                },
                None => Ok(done),
            },
            Err(e) => Err(e),
        }
    }
}

/// What a call of an intrinsic function resolves to.
pub open spec fn call(name: Seq<char>, arg: YamlView, ctx: ContextView, depth: int) -> Outcome
    decreases arg, 2int,
{
    if name == "Ref"@ {
        resolved_ref(arg, ctx)
    } else if name == "Fn::Sub"@ {
        resolved_sub(arg, ctx, depth)
    } else if name == "Fn::FindInMap"@ {
        resolved_find_in_map(arg, ctx, depth)
    } else if name == "Fn::Select"@ {
        resolved_select(arg, ctx, depth)
    } else if name == "Fn::If"@ {
        resolved_if(arg, ctx, depth)
    } else if name == "Fn::ImportValue"@ {
        resolved_import_value(arg, ctx, depth)
    } else if name == "Fn::Join"@ {
        resolved_join(arg, ctx, depth)
    } else if name == "Fn::GetAtt"@ {
        resolved_get_att(arg)
    } else {
        resolved_split(arg, ctx, depth)
    }
}

/// The name is one of the pseudo parameters that `Ref` knows.
pub open spec fn is_pseudo(name: Seq<char>) -> bool {
    name == "AWS::Region"@ || name == "AWS::AccountId"@ || name == "AWS::StackName"@ || name
        == "AWS::NoValue"@
}

/// `Ref`: a pseudo parameter, a parameter, or a reference to a resource. A
/// parameter without a value is an error.
pub open spec fn resolved_ref(arg: YamlView, ctx: ContextView) -> Outcome {
    match crate::yaml::yaml_str(arg) {
        None => intrinsic_error("!Ref argument must be a string"@),
        Some(name) => if name == "AWS::Region"@ {
            match crate::strmap::lookup(ctx.parameters, "AWS::Region"@) {
                Some(region) => Ok(crate::cfn::resolved::concrete_text(region)),
                None => Ok(crate::cfn::resolved::concrete_text("ap-northeast-1"@)),
            }
        } else if name == "AWS::AccountId"@ {
            Ok(crate::cfn::resolved::concrete_text("123456789012"@))
        } else if name == "AWS::StackName"@ {
            Ok(crate::cfn::resolved::concrete_text("stack"@))
        } else if name == "AWS::NoValue"@ {
            Ok(ResolvedView::Concrete(YamlView::Null))
        } else {
            match crate::strmap::lookup(ctx.parameters, name) {
                Some(s) => Ok(crate::cfn::resolved::concrete_text(s)),
                None => if ctx.unbound.contains(name) {
                    Err(CfnErrorView::ParameterNotFound(name))
                } else {
                    Ok(ResolvedView::Ref(name))
                },
            }
        },
    }
}

/// The state of reading a `Fn::Sub` template: the finished parts, and the
/// literal text read since the last of them.
pub struct SubState {
    pub parts: Seq<PartView>,
    pub literal: Seq<char>,
}

/// The state with its literal text, where there is any, made a part.
pub open spec fn flushed(st: SubState) -> SubState {
    if st.literal.len() == 0 {
        st
    } else {
        SubState {
            parts: st.parts.push(PartView::Literal(st.literal)),
            literal: Seq::empty(),
        }
    }
}

/// The state with more literal text.
pub open spec fn with_text(st: SubState, s: Seq<char>) -> SubState {
    SubState { parts: st.parts, literal: st.literal + s }
}

/// The state with more parts behind its literal text.
pub open spec fn with_parts(st: SubState, p: Seq<PartView>) -> SubState {
    SubState { parts: flushed(st).parts + p, literal: Seq::empty() }
}

/// The placeholder `${name}` stands for a parameter without a value: it is no
/// escape, and no local variable has the name.
pub open spec fn names_unbound(
    name: Seq<char>,
    vars: Seq<(Seq<char>, ResolvedView)>,
    ctx: ContextView,
) -> bool {
    &&& !crate::text::has_prefix(name, seq!['!'])
    &&& crate::strmap::lookup(vars, name) is None
    &&& crate::strmap::lookup(ctx.parameters, name) is None
    &&& ctx.unbound.contains(name)
}

/// The state after the placeholder `${name}`: an escape, a local variable, a
/// parameter, a pseudo parameter left verbatim, or a reference.
pub open spec fn after_placeholder(
    st: SubState,
    name: Seq<char>,
    vars: Seq<(Seq<char>, ResolvedView)>,
    ctx: ContextView,
) -> SubState {
    if crate::text::has_prefix(name, seq!['!']) {
        with_text(st, crate::cfn::resolved::ref_text(crate::text::tail(name, 1)))
    } else {
        match crate::strmap::lookup(vars, name) {
            Some(v) => match v {
                ResolvedView::Concrete(YamlView::String(s)) => with_text(st, s),
                ResolvedView::Ref(id) => with_parts(st, seq![PartView::Ref(id)]),
                ResolvedView::GetAtt { logical_id, attr } => with_parts(
                    st,
                    seq![PartView::GetAtt { logical_id, attr }],
                ),
                ResolvedView::Interpolated(p) => with_parts(st, p),
                _ => st,
            },
            None => match crate::strmap::lookup(ctx.parameters, name) {
                Some(s) => with_text(st, s),
                None => if crate::text::has_prefix(name, "AWS::"@) {
                    with_text(st, crate::cfn::resolved::ref_text(name))
                } else {
                    match crate::text::split_at_char(name, '.') {
                        Some((logical_id, attr)) => with_parts(
                            st,
                            seq![PartView::GetAtt { logical_id, attr }],
                        ),
                        None => with_parts(st, seq![PartView::Ref(name)]),
                    }
                },
            },
        }
    }
}

/// A placeholder is opened at position `i` of `t`.
pub open spec fn opens_placeholder(t: Seq<char>, i: int) -> bool {
    0 <= i && i + 1 < t.len() && t[i] == '$' && t[i + 1] == '{'
}

/// Where the name of the placeholder opened at `i` ends: at the first `}`, or
/// at the end of the template.
pub open spec fn name_end(t: Seq<char>, i: int) -> int {
    match crate::text::find_from(t, seq!['}'], i + 2) {
        Some(end) => end,
        None => t.len() as int,
    }
}

/// The state after reading `t` from position `i` on, or the error about the
/// first placeholder that stands for a parameter without a value.
pub open spec fn sub_run(
    t: Seq<char>,
    i: int,
    st: SubState,
    vars: Seq<(Seq<char>, ResolvedView)>,
    ctx: ContextView,
) -> Result<SubState, CfnErrorView>
    decreases t.len() + 1 - i,
{
    if i < 0 || i >= t.len() {
        Ok(st)
    } else if opens_placeholder(t, i) {
        proof {
            crate::text::lemma_find_from(t, seq!['}'], i + 2);
        }
        let name = t.subrange(i + 2, name_end(t, i));
        if names_unbound(name, vars, ctx) {
            Err(CfnErrorView::ParameterNotFound(name))
        } else {
            sub_run(
                t,
                name_end(t, i) + 1,
                after_placeholder(st, name, vars, ctx),
                vars,
                ctx,
            )
        }
    } else {
        sub_run(t, i + 1, with_text(st, seq![t[i]]), vars, ctx)
    }
}

/// The parts of a `Fn::Sub` template, with local variables and parameters
/// substituted and references kept typed, or the error about a parameter
/// without a value.
pub open spec fn template_parts(
    t: Seq<char>,
    vars: Seq<(Seq<char>, ResolvedView)>,
    ctx: ContextView,
) -> Result<Seq<PartView>, CfnErrorView> {
    match sub_run(t, 0, SubState { parts: Seq::empty(), literal: Seq::empty() }, vars, ctx) {
        Ok(st) => Ok(flushed(st).parts),
        Err(e) => Err(e),
    }
}

/// What a `Fn::Sub` template with local variables resolves to.
pub open spec fn substituted(
    t: Seq<char>,
    vars: Seq<(Seq<char>, ResolvedView)>,
    ctx: ContextView,
) -> Outcome {
    match template_parts(t, vars, ctx) {
        Ok(parts) => Ok(crate::cfn::resolved::value_of_parts(parts)),
        Err(e) => Err(e),
    }
}

/// `Fn::Sub`: a template, or a template with local variables.
pub open spec fn resolved_sub(arg: YamlView, ctx: ContextView, depth: int) -> Outcome
    decreases arg, 1int,
{
    match arg {
        YamlView::String(t) => substituted(t, Seq::empty(), ctx),
        YamlView::Sequence(s) => if s.len() != 2 {
            intrinsic_error("!Sub with array must have exactly 2 elements"@)
        } else {
            match crate::yaml::yaml_str(s[0]) {
                Some(t) => match s[1] {
                    YamlView::Mapping(m) => match resolve_entries(m, false, ctx, depth + 1) {
                        Ok(vars) => substituted(t, vars, ctx),
                        Err(e) => Err(e),
                    },
                    _ => substituted(t, Seq::empty(), ctx),
                },
                None => intrinsic_error("!Sub template must be a string"@),
            }
        },
        _ => intrinsic_error("!Sub value must be a string or array"@),
    }
}

/// The text of a value, and the empty text where it has none.
pub open spec fn text_or_empty(v: ResolvedView) -> Seq<char> {
    match crate::cfn::resolved::resolved_str(v) {
        Some(s) => s,
        None => Seq::empty(),
    }
}

/// `Fn::FindInMap`: the value of the template's mappings under three keys.
pub open spec fn resolved_find_in_map(arg: YamlView, ctx: ContextView, depth: int) -> Outcome
    decreases arg, 1int,
{
    match crate::yaml::yaml_items(arg) {
        Some(s) => if s.len() != 3 {
            intrinsic_error("!FindInMap must have exactly 3 elements"@)
        } else {
            proof {
                crate::yaml::lemma_items_inside(arg);
            }
            match resolve_at(s[0], ctx, depth + 1) {
                Err(e) => Err(e),
                Ok(a) => match resolve_at(s[1], ctx, depth + 1) {
                    Err(e) => Err(e),
                    Ok(b) => match resolve_at(s[2], ctx, depth + 1) {
                        Err(e) => Err(e),
                        Ok(c) => found_in_map(
                            ctx,
                            text_or_empty(a),
                            text_or_empty(b),
                            text_or_empty(c),
                        ),
                    },
                },
            }
        },
        None => intrinsic_error("!FindInMap argument must be a sequence"@),
    }
}

/// The value of the template's mappings under three keys, or the error that
/// there is none.
pub open spec fn found_in_map(
    ctx: ContextView,
    map_name: Seq<char>,
    first_key: Seq<char>,
    second_key: Seq<char>,
) -> Outcome {
    match table_value(ctx.mappings, map_name, first_key, second_key) {
        Some(s) => Ok(crate::cfn::resolved::concrete_text(s)),
        None => Err(CfnErrorView::MappingNotFound { map_name, first_key, second_key }),
    }
}

/// The number that a text writes as a 64-bit index: decimal digits, with or
/// without a plus sign before them.
pub open spec fn index_value(s: Seq<char>) -> Option<nat> {
    let d = if s.len() > 0 && s[0] == '+' {
        crate::text::tail(s, 1)
    } else {
        s
    };
    match crate::text::digits_value(d) {
        Some(n) => if n <= u64::MAX {
            Some(n)
        } else {
            None
        },
        None => None,
    }
}

/// The index that a value stands for.
pub open spec fn select_index(v: ResolvedView) -> Result<nat, CfnErrorView> {
    match v {
        ResolvedView::Concrete(YamlView::Number(n)) => match n {
            NumberView::PosInt(i) => Ok(i as nat),
            _ => Err(
                CfnErrorView::IntrinsicError(
                    "!Select index must be a non-negative integer, got "@
                        + crate::yaml::number_text(n),
                ),
            ),
        },
        ResolvedView::Concrete(YamlView::String(s)) => match index_value(s) {
            Some(i) => Ok(i),
            None => Err(
                CfnErrorView::IntrinsicError(
                    "!Select index must be numeric, got \""@ + s
                        + "\" (is the index an unresolved parameter?)"@,
                ),
            ),
        },
        _ => Err(
            CfnErrorView::IntrinsicError(
                "!Select index must be a number, got "@ + crate::cfn::resolved::value_form(v),
            ),
        ),
    }
}

/// `Fn::Select`: the element of a list at an index. A list that could not be
/// resolved leaves the whole call as it is.
pub open spec fn resolved_select(arg: YamlView, ctx: ContextView, depth: int) -> Outcome
    decreases arg, 1int,
{
    match crate::yaml::yaml_items(arg) {
        Some(s) => if s.len() != 2 {
            intrinsic_error("!Select must have exactly 2 elements"@)
        } else {
            proof {
                crate::yaml::lemma_items_inside(arg);
            }
            match resolve_at(s[0], ctx, depth + 1) {
                Err(e) => Err(e),
                Ok(at) => match select_index(at) {
                    Err(e) => Err(e),
                    Ok(index) => match resolve_at(s[1], ctx, depth + 1) {
                        Err(e) => Err(e),
                        Ok(list) => selected(arg, index, list),
                    },
                },
            }
        },
        None => intrinsic_error("!Select argument must be a sequence"@),
    }
}

/// The element of a resolved list at an index.
pub open spec fn selected(arg: YamlView, index: nat, list: ResolvedView) -> Outcome {
    if list is Concrete && list->Concrete_0 is Tagged {
        Ok(ResolvedView::Concrete(YamlView::Tagged("!Select"@, Box::new(arg))))
    } else {
        match crate::cfn::resolved::resolved_list(list) {
            None => intrinsic_error("!Select second arg must be a list"@),
            Some(items) => if index < items.len() {
                Ok(items[index as int])
            } else {
                intrinsic_error(
                    "!Select index "@ + crate::text::digits(index) + " out of bounds"@,
                )
            },
        }
    }
}

/// `Fn::If`: one of two values, as a condition decides.
pub open spec fn resolved_if(arg: YamlView, ctx: ContextView, depth: int) -> Outcome
    decreases arg, 1int,
{
    match crate::yaml::yaml_items(arg) {
        Some(s) => if s.len() != 3 {
            intrinsic_error("!If must have exactly 3 elements"@)
        } else {
            proof {
                crate::yaml::lemma_items_inside(arg);
            }
            match crate::yaml::yaml_str(s[0]) {
                Some(name) => match crate::strmap::lookup(ctx.conditions, name) {
                    None => Err(CfnErrorView::ConditionNotFound(name)),
                    Some(b) => if b {
                        resolve_at(s[1], ctx, depth + 1)
                    } else {
                        resolve_at(s[2], ctx, depth + 1)
                    },
                },
                None => intrinsic_error("!If condition must be a string"@),
            }
        },
        None => intrinsic_error("!If argument must be a sequence"@),
    }
}

/// `Fn::ImportValue`: a value that another stack exports.
pub open spec fn resolved_import_value(arg: YamlView, ctx: ContextView, depth: int) -> Outcome
    decreases arg, 1int,
{
    match resolve_at(arg, ctx, depth + 1) {
        Err(e) => Err(e),
        Ok(v) => match crate::cfn::resolved::resolved_str(v) {
            None => intrinsic_error("Fn::ImportValue argument must resolve to a string"@),
            Some(name) => match crate::strmap::lookup(ctx.imports, name) {
                Some(s) => Ok(crate::cfn::resolved::concrete_text(s)),
                None => Err(CfnErrorView::ImportValueNotFound(name)),
            },
        },
    }
}

/// The parts that one element of a joined list contributes. A container or
/// null contributes nothing and is left out.
pub open spec fn item_parts(v: ResolvedView) -> Option<Seq<PartView>> {
    match v {
        ResolvedView::Concrete(YamlView::String(s)) => Some(seq![PartView::Literal(s)]),
        ResolvedView::Concrete(YamlView::Number(n)) => Some(
            seq![PartView::Literal(crate::yaml::number_text(n))],
        ),
        ResolvedView::Concrete(YamlView::Bool(b)) => Some(
            seq![PartView::Literal(crate::yaml::bool_text(b))],
        ),
        ResolvedView::Ref(id) => Some(seq![PartView::Ref(id)]),
        ResolvedView::GetAtt { logical_id, attr } => Some(
            seq![PartView::GetAtt { logical_id, attr }],
        ),
        ResolvedView::Interpolated(p) => Some(p),
        _ => None,
    }
}

/// The parts of a list of which each element that contributes is followed, up
/// to the last, by the delimiter; and whether any element contributes.
pub open spec fn list_parts(items: Seq<ResolvedView>, delimiter: Seq<char>) -> (
    Seq<PartView>,
    bool,
)
    decreases items.len(),
{
    if items.len() == 0 {
        (Seq::empty(), false)
    } else {
        let (p, any) = list_parts(items.drop_last(), delimiter);
        match item_parts(items.last()) {
            Some(q) => if any {
                (p.push(PartView::Literal(delimiter)) + q, true)
            } else {
                (p + q, true)
            },
            None => (p, any),
        }
    }
}

/// `Fn::Join`: the elements of a list with a delimiter between them.
pub open spec fn resolved_join(arg: YamlView, ctx: ContextView, depth: int) -> Outcome
    decreases arg, 1int,
{
    match crate::yaml::yaml_items(arg) {
        Some(s) => if s.len() != 2 {
            intrinsic_error("!Join must have exactly 2 elements"@)
        } else {
            proof {
                crate::yaml::lemma_items_inside(arg);
            }
            match resolve_at(s[0], ctx, depth + 1) {
                Err(e) => Err(e),
                Ok(d) => match resolve_at(s[1], ctx, depth + 1) {
                    Err(e) => Err(e),
                    Ok(list) => match crate::cfn::resolved::resolved_list(list) {
                        None => intrinsic_error("!Join second arg must be a list"@),
                        Some(items) => Ok(
                            crate::cfn::resolved::value_of_parts(
                                list_parts(items, text_or_empty(d)).0,
                            ),
                        ),
                    },
                },
            }
        },
        None => intrinsic_error("!Join argument must be a sequence"@),
    }
}

/// `Fn::GetAtt`: a reference to an attribute, where its argument names both
/// the resource and the attribute; otherwise the argument as it is.
pub open spec fn resolved_get_att(arg: YamlView) -> Outcome {
    match arg {
        YamlView::String(s) => match crate::text::split_at_char(s, '.') {
            Some((logical_id, attr)) => Ok(ResolvedView::GetAtt { logical_id, attr }),
            None => Ok(ResolvedView::Concrete(arg)),
        },
        YamlView::Sequence(items) => {
            let names = crate::yaml::strings_of(items);
            if names.len() >= 2 {
                Ok(
                    ResolvedView::GetAtt {
                        logical_id: names[0],
                        attr: crate::text::joined(names.drop_first(), "."@),
                    },
                )
            } else {
                Ok(ResolvedView::Concrete(arg))
            }
        },
        _ => Ok(ResolvedView::Concrete(arg)),
    }
}

/// `Fn::Split`: the pieces of a text. A source that could not be resolved
/// leaves the whole call as it is.
pub open spec fn resolved_split(arg: YamlView, ctx: ContextView, depth: int) -> Outcome
    decreases arg, 1int,
{
    match crate::yaml::yaml_items(arg) {
        Some(s) => if s.len() != 2 {
            intrinsic_error("Fn::Split must have exactly 2 elements"@)
        } else {
            proof {
                crate::yaml::lemma_items_inside(arg);
            }
            match resolve_at(s[0], ctx, depth + 1) {
                Err(e) => Err(e),
                Ok(sep) => match crate::cfn::resolved::resolved_str(sep) {
                    None => intrinsic_error(
                        "Fn::Split separator (first element) must resolve to a string"@,
                    ),
                    Some(p) => match resolve_at(s[1], ctx, depth + 1) {
                        Err(e) => Err(e),
                        Ok(source) => split_value(arg, p, source),
                    },
                },
            }
        },
        None => intrinsic_error("Fn::Split argument must be a sequence"@),
    }
}

/// What splitting a resolved source gives.
pub open spec fn split_value(arg: YamlView, sep: Seq<char>, source: ResolvedView) -> Outcome {
    match source {
        ResolvedView::Concrete(YamlView::String(t)) => Ok(
            ResolvedView::Sequence(
                crate::text::pieces(t, sep).map_values(
                    |p: Seq<char>| crate::cfn::resolved::concrete_text(p),
                ),
            ),
        ),
        ResolvedView::Interpolated(_)
        | ResolvedView::Ref(_)
        | ResolvedView::GetAtt { .. }
        | ResolvedView::Concrete(YamlView::Tagged(_, _)) => Ok(
            ResolvedView::Concrete(YamlView::Tagged("!Split"@, Box::new(arg))),
        ),
        _ => intrinsic_error(
            "Fn::Split source (second element) must be a string, got "@
                + crate::cfn::resolved::value_form(source),
        ),
    }
}

// ---------------------------------------------------------------------------
// Operations
// ---------------------------------------------------------------------------

/// Resolves `CloudFormation` intrinsic functions in a YAML value.
///
/// Handles `!Ref`, `!Sub`, `!FindInMap`, `!Select`, `!If`, `Fn::ImportValue`,
/// `!Join`, `!GetAtt` (partial) and `!Split`.
///
/// References to resource logical IDs are preserved as typed variants.
/// Unresolvable values are given back as `Concrete`.
pub fn resolve(value: &Yaml, ctx: &ResolveContext) -> (r: Result<ResolvedValue, CfnError>)
    ensures
        outcome(r) == resolve_at(value@, ctx@, 0),
{
    resolve_inner(value, ctx, 0)
}

/// Normalizes an intrinsic function name to its canonical long form, or gives
/// `None` if the name is not a known intrinsic.
pub fn normalize_intrinsic_name(name: &str) -> (r: Option<&'static str>)
    ensures
        match r {
            Some(c) => canonical_name(name@) == Some(c@),
            None => canonical_name(name@) is None,
        },
{
    if text_eq(name, "!Ref") || text_eq(name, "Ref") {
        Some("Ref")
    } else if text_eq(name, "!Sub") || text_eq(name, "Fn::Sub") {
        Some("Fn::Sub")
    } else if text_eq(name, "!FindInMap") || text_eq(name, "Fn::FindInMap") {
        Some("Fn::FindInMap")
    } else if text_eq(name, "!Select") || text_eq(name, "Fn::Select") {
        Some("Fn::Select")
    } else if text_eq(name, "!If") || text_eq(name, "Fn::If") {
        Some("Fn::If")
    } else if text_eq(name, "!ImportValue") || text_eq(name, "Fn::ImportValue") {
        Some("Fn::ImportValue")
    } else if text_eq(name, "!Join") || text_eq(name, "Fn::Join") {
        Some("Fn::Join")
    } else if text_eq(name, "!GetAtt") || text_eq(name, "Fn::GetAtt") {
        Some("Fn::GetAtt")
    } else if text_eq(name, "!Split") || text_eq(name, "Fn::Split") {
        Some("Fn::Split")
    } else {
        None
    }
}

/// Hands an intrinsic call to its handler.
pub fn dispatch_intrinsic(
    canonical: &str,
    value: &Yaml,
    ctx: &ResolveContext,
    depth: usize,
) -> (r: Result<ResolvedValue, CfnError>)
    requires
        is_canonical(canonical@),
        depth < usize::MAX,
    ensures
        outcome(r) == call(canonical@, value@, ctx@, depth as int),
    decreases value, 2int,
{
    if text_eq(canonical, "Ref") {
        resolve_ref(value, ctx)
    } else if text_eq(canonical, "Fn::Sub") {
        resolve_sub(value, ctx, depth)
    } else if text_eq(canonical, "Fn::FindInMap") {
        resolve_find_in_map(value, ctx, depth)
    } else if text_eq(canonical, "Fn::Select") {
        resolve_select(value, ctx, depth)
    } else if text_eq(canonical, "Fn::If") {
        resolve_if(value, ctx, depth)
    } else if text_eq(canonical, "Fn::ImportValue") {
        resolve_import_value(value, ctx, depth)
    } else if text_eq(canonical, "Fn::Join") {
        resolve_join(value, ctx, depth)
    } else if text_eq(canonical, "Fn::GetAtt") {
        resolve_get_att(value)
    } else {
        resolve_split(value, ctx, depth)
    }
}

/// Builds an intrinsic error.
fn fail(message: &str) -> (r: Result<ResolvedValue, CfnError>)
    ensures
        outcome(r) == intrinsic_error(message@),
{
    Err(CfnError::IntrinsicError(message.to_owned()))
}

/// A string value.
fn concrete(s: &str) -> (r: ResolvedValue)
    ensures
        r@ == crate::cfn::resolved::concrete_text(s@),
{
    ResolvedValue::Concrete(Yaml::String(s.to_owned()))
}

/// Depth-aware implementation of [`resolve`].
///
/// When the depth exceeds [`MAX_INTRINSIC_DEPTH`] an error is given instead of
/// recursing further.
pub fn resolve_inner(value: &Yaml, ctx: &ResolveContext, depth: usize) -> (r: Result<
    ResolvedValue,
    CfnError,
>)
    ensures
        outcome(r) == resolve_at(value@, ctx@, depth as int),
    decreases value, 0int,
{
    if depth > MAX_INTRINSIC_DEPTH {
        return fail("intrinsic nesting exceeds maximum depth (128)");
    }
    match value {
        Yaml::Tagged(tag, arg) => {
            match normalize_intrinsic_name(tag.as_str()) {
                Some(canonical) => {
                    assert(canonical_name(tag@) == Some(canonical@));
                    dispatch_intrinsic(canonical, &**arg, ctx, depth)
                },
                None => Ok(ResolvedValue::Concrete(value.clone())),
            }
        },
        Yaml::Mapping(map) => {
            assert(value@->Mapping_0 =~= crate::yaml::entry_views(map@));
            if map.len() == 1 {
                assert(value@->Mapping_0[0] == (map@[0].0@, map@[0].1@));
                if let Yaml::String(name) = &map[0].0 {
                    if let Some(canonical) = normalize_intrinsic_name(name.as_str()) {
                        assert(canonical_name(name@) == Some(canonical@));
                        return dispatch_intrinsic(canonical, &map[0].1, ctx, depth);
                    }
                }
            }
            match resolve_mapping(map, true, ctx, depth + 1) {
                Ok(entries) => {
                    let r = ResolvedValue::Mapping(entries);
                    assert(r@->Mapping_0 =~= crate::cfn::resolved::resolved_entries(entries@));
                    Ok(r)
                },
                Err(e) => Err(e),
            }
        },
        Yaml::Sequence(seq) => {
            assert(value@->Sequence_0 =~= crate::yaml::yaml_views(seq@));
            match resolve_sequence(seq, ctx, depth + 1) {
                Ok(items) => {
                    let r = ResolvedValue::Sequence(items);
                    assert(r@->Sequence_0 =~= crate::cfn::resolved::resolved_views(items@));
                    Ok(r)
                },
                Err(e) => Err(e),
            }
        },
        _ => Ok(ResolvedValue::Concrete(value.clone())),
    }
}

/// The model of what resolving the entries of a mapping gave.
pub open spec fn entries_outcome(
    r: Result<Vec<(String, ResolvedValue)>, CfnError>,
) -> Result<Seq<(Seq<char>, ResolvedView)>, CfnErrorView> {
    match r {
        Ok(v) => Ok(crate::cfn::resolved::resolved_entries(v@)),
        Err(e) => Err(e@),
    }
}

/// Storing and taking the model is taking the model and storing.
proof fn lemma_inserted_views(
    v: Seq<(String, ResolvedValue)>,
    w: Seq<(String, ResolvedValue)>,
    key: Seq<char>,
    x: ResolvedValue,
)
    requires
        crate::strmap::pairs(w) == crate::strmap::inserted(crate::strmap::pairs(v), key, x),
    ensures
        crate::cfn::resolved::resolved_entries(w) == crate::strmap::inserted(
            crate::cfn::resolved::resolved_entries(v),
            key,
            x@,
        ),
{
    let f = |r: ResolvedValue| r@;
    crate::strmap::lemma_inserted_mapped(crate::strmap::pairs(v), f, key, x);
    assert(crate::strmap::mapped(crate::strmap::pairs(w), f)
        =~= crate::cfn::resolved::resolved_entries(w));
    assert(crate::strmap::mapped(crate::strmap::pairs(v), f)
        =~= crate::cfn::resolved::resolved_entries(v));
}

/// The text of a key. A tag on the key is seen through or not.
fn text_of_key(k: &Yaml, through_tags: bool) -> (r: Option<&str>)
    ensures
        crate::cfn::parser::opt_str(r) == key_text(k@, through_tags),
{
    match k {
        Yaml::Tagged(_, _) => if through_tags {
            k.as_str()
        } else {
            None
        },
        _ => k.as_str(),
    }
}

/// Resolves the entries of a mapping. Entries whose key is not a string are
/// left out.
fn resolve_mapping(
    map: &Vec<(Yaml, Yaml)>,
    through_tags: bool,
    ctx: &ResolveContext,
    depth: usize,
) -> (r: Result<Vec<(String, ResolvedValue)>, CfnError>)
    ensures
        entries_outcome(r) == resolve_entries(
            crate::yaml::entry_views(map@),
            through_tags,
            ctx@,
            depth as int,
        ),
    decreases map, 0int,
{
    let mut out: Vec<(String, ResolvedValue)> = Vec::new();
    let ghost mv = crate::yaml::entry_views(map@);
    assert(crate::cfn::resolved::resolved_entries(out@) =~= Seq::empty());
    let mut i: usize = 0;
    while i < map.len()
        invariant
            i <= map@.len(),
            mv == crate::yaml::entry_views(map@),
            resolve_entries(mv.subrange(0, i as int), through_tags, ctx@, depth as int) == Ok::<
                Seq<(Seq<char>, ResolvedView)>,
                CfnErrorView,
            >(crate::cfn::resolved::resolved_entries(out@)),
        decreases map@.len() - i,
    {
        let ghost before = out@;
        let ghost now = mv.subrange(0, i + 1);
        proof {
            assert(now.drop_last() =~= mv.subrange(0, i as int));
            assert(now.last() == (map@[i as int].0@, map@[i as int].1@));
            assert(decreases_to!(map => map@[i as int]));
        }
        match text_of_key(&map[i].0, through_tags) {
            Some(key) => {
                match resolve_inner(&map[i].1, ctx, depth) {
                    Ok(x) => {
                        vec_insert(&mut out, key.to_owned(), x);
                        proof {
                            lemma_inserted_views(before, out@, key@, x);
                        }
                    },
                    Err(e) => {
                        proof {
                            lemma_entries_error(mv, i + 1, through_tags, ctx@, depth as int);
                        }
                        return Err(e);
                    },
                }
            },
            None => {},
        }
        i = i + 1;
    }
    assert(mv.subrange(0, i as int) =~= mv);
    Ok(out)
}

/// An error in a prefix of the entries is the error of all of them.
proof fn lemma_entries_error(
    m: Seq<(YamlView, YamlView)>,
    i: int,
    through_tags: bool,
    ctx: ContextView,
    depth: int,
)
    requires
        0 <= i <= m.len(),
        resolve_entries(m.subrange(0, i), through_tags, ctx, depth) is Err,
    ensures
        resolve_entries(m, through_tags, ctx, depth) == resolve_entries(m.subrange(0, i), through_tags, ctx, depth),
    decreases m.len(),
{
    if i < m.len() {
        assert(m.drop_last().subrange(0, i) =~= m.subrange(0, i));
        lemma_entries_error(m.drop_last(), i, through_tags, ctx, depth);
    } else {
        assert(m.subrange(0, i) =~= m);
    }
}

/// An error in a prefix of the items is the error of all of them.
proof fn lemma_items_error(s: Seq<YamlView>, i: int, ctx: ContextView, depth: int)
    requires
        0 <= i <= s.len(),
        resolve_items(s.subrange(0, i), ctx, depth) is Err,
    ensures
        resolve_items(s, ctx, depth) == resolve_items(s.subrange(0, i), ctx, depth),
    decreases s.len(),
{
    if i < s.len() {
        assert(s.drop_last().subrange(0, i) =~= s.subrange(0, i));
        lemma_items_error(s.drop_last(), i, ctx, depth);
    } else {
        assert(s.subrange(0, i) =~= s);
    }
}

/// The model of what resolving items gave.
pub open spec fn items_outcome(r: Result<Vec<ResolvedValue>, CfnError>) -> Result<
    Seq<ResolvedView>,
    CfnErrorView,
> {
    match r {
        Ok(v) => Ok(crate::cfn::resolved::resolved_views(v@)),
        Err(e) => Err(e@),
    }
}

/// Resolves the items of a sequence, in order.
fn resolve_sequence(seq: &Vec<Yaml>, ctx: &ResolveContext, depth: usize) -> (r: Result<
    Vec<ResolvedValue>,
    CfnError,
>)
    ensures
        items_outcome(r) == resolve_items(crate::yaml::yaml_views(seq@), ctx@, depth as int),
    decreases seq, 0int,
{
    let mut out: Vec<ResolvedValue> = Vec::new();
    let ghost sv = crate::yaml::yaml_views(seq@);
    assert(crate::cfn::resolved::resolved_views(out@) =~= Seq::empty());
    let mut i: usize = 0;
    while i < seq.len()
        invariant
            i <= seq@.len(),
            sv == crate::yaml::yaml_views(seq@),
            resolve_items(sv.subrange(0, i as int), ctx@, depth as int) == Ok::<
                Seq<ResolvedView>,
                CfnErrorView,
            >(crate::cfn::resolved::resolved_views(out@)),
        decreases seq@.len() - i,
    {
        let ghost before = out@;
        proof {
            let now = sv.subrange(0, i + 1);
            assert(now.drop_last() =~= sv.subrange(0, i as int));
            assert(now.last() == seq@[i as int]@);
        }
        match resolve_inner(&seq[i], ctx, depth) {
            Ok(x) => {
                out.push(x);
                assert(crate::cfn::resolved::resolved_views(out@)
                    =~= crate::cfn::resolved::resolved_views(before).push(x@));
            },
            Err(e) => {
                proof {
                    lemma_items_error(sv, i + 1, ctx@, depth as int);
                }
                return Err(e);
            },
        }
        i = i + 1;
    }
    assert(sv.subrange(0, i as int) =~= sv);
    Ok(out)
}

/// Resolves `Ref`.
pub fn resolve_ref(value: &Yaml, ctx: &ResolveContext) -> (r: Result<ResolvedValue, CfnError>)
    ensures
        outcome(r) == resolved_ref(value@, ctx@),
{
    let name = match value.as_str() {
        Some(s) => s,
        None => {
            return fail("!Ref argument must be a string");
        },
    };
    if text_eq(name, "AWS::Region") {
        return match text_get(&ctx.parameters, "AWS::Region") {
            Some(region) => Ok(concrete(region.as_str())),
            None => Ok(concrete("ap-northeast-1")),
        };
    }
    if text_eq(name, "AWS::AccountId") {
        return Ok(concrete("123456789012"));
    }
    if text_eq(name, "AWS::StackName") {
        return Ok(concrete("stack"));
    }
    if text_eq(name, "AWS::NoValue") {
        return Ok(ResolvedValue::Concrete(Yaml::Null));
    }
    match text_get(&ctx.parameters, name) {
        Some(s) => Ok(concrete(s.as_str())),
        None => if is_among(&ctx.unbound, name) {
            Err(CfnError::ParameterNotFound(name.to_owned()))
        } else {
            Ok(ResolvedValue::Ref(name.to_owned()))
        },
    }
}

/// Resolves a `Fn::Sub` template with local variables.
fn substitute(
    template: &str,
    local_vars: &Vec<(String, ResolvedValue)>,
    ctx: &ResolveContext,
) -> (r: Result<ResolvedValue, CfnError>)
    ensures
        outcome(r) == substituted(
            template@,
            crate::cfn::resolved::resolved_entries(local_vars@),
            ctx@,
        ),
{
    match substitute_variables(template, local_vars, ctx) {
        Ok(parts) => Ok(ResolvedValue::from_parts(parts)),
        Err(e) => Err(e),
    }
}

/// Resolves `Fn::Sub`.
pub fn resolve_sub(value: &Yaml, ctx: &ResolveContext, depth: usize) -> (r: Result<
    ResolvedValue,
    CfnError,
>)
    requires
        depth < usize::MAX,
    ensures
        outcome(r) == resolved_sub(value@, ctx@, depth as int),
    decreases value, 1int,
{
    let none: Vec<(String, ResolvedValue)> = Vec::new();
    assert(crate::cfn::resolved::resolved_entries(none@) =~= Seq::empty());
    match value {
        Yaml::String(template) => {
            substitute(template.as_str(), &none, ctx)
        },
        Yaml::Sequence(seq) => {
            assert(value@->Sequence_0 =~= crate::yaml::yaml_views(seq@));
            if seq.len() != 2 {
                return fail("!Sub with array must have exactly 2 elements");
            }
            assert(value@->Sequence_0[0] == seq@[0]@);
            assert(value@->Sequence_0[1] == seq@[1]@);
            match seq[0].as_str() {
                Some(template) => match &seq[1] {
                    Yaml::Mapping(m) => {
                        proof {
                            assert(seq@[1]@->Mapping_0 =~= crate::yaml::entry_views(m@));
                            assert(decreases_to!(value => seq@[1]));
                        }
                        match resolve_mapping(m, false, ctx, depth + 1) {
                            Ok(vars) => substitute(template, &vars, ctx),
                            Err(e) => Err(e),
                        }
                    },
                    _ => substitute(template, &none, ctx),
                },
                None => fail("!Sub template must be a string"),
            }
        },
        _ => fail("!Sub value must be a string or array"),
    }
}

/// The executable counterpart of [`SubState`].
struct SubText {
    parts: Vec<StringPart>,
    literal: String,
}

impl SubText {
    spec fn state(self) -> SubState {
        SubState {
            parts: crate::cfn::resolved::part_views(self.parts@),
            literal: self.literal@,
        }
    }

    fn flush(self) -> (r: SubText)
        ensures
            r.state() == flushed(self.state()),
            r.state().literal == Seq::<char>::empty(),
    {
        let SubText { parts, literal } = self;
        let mut parts = parts;
        if literal.as_str().is_empty() {
            assert(literal@ =~= Seq::empty());
            SubText { parts, literal }
        } else {
            let ghost before = parts@;
            parts.push(StringPart::Literal(literal));
            assert(crate::cfn::resolved::part_views(parts@)
                =~= crate::cfn::resolved::part_views(before).push(PartView::Literal(literal@)));
            SubText { parts, literal: String::new() }
        }
    }

    fn text(self, s: &str) -> (r: SubText)
        ensures
            r.state() == with_text(self.state(), s@),
    {
        let SubText { parts, literal } = self;
        let mut literal = literal;
        literal.append(s);
        SubText { parts, literal }
    }

    fn part(self, p: StringPart) -> (r: SubText)
        ensures
            r.state() == with_parts(self.state(), seq![p@]),
    {
        let SubText { parts, literal } = self.flush();
        let mut parts = parts;
        let ghost before = parts@;
        parts.push(p);
        assert(crate::cfn::resolved::part_views(parts@)
            =~= crate::cfn::resolved::part_views(before) + seq![p@]);
        SubText { parts, literal }
    }

    fn all_parts(self, more: &Vec<StringPart>) -> (r: SubText)
        ensures
            r.state() == with_parts(
                self.state(),
                crate::cfn::resolved::part_views(more@),
            ),
    {
        let SubText { parts, literal } = self.flush();
        let mut parts = parts;
        let mut copy = clone_parts(more);
        let ghost before = parts@;
        let ghost added = copy@;
        parts.append(&mut copy);
        assert(crate::cfn::resolved::part_views(parts@)
            =~= crate::cfn::resolved::part_views(before) + crate::cfn::resolved::part_views(
            added,
        ));
        SubText { parts, literal }
    }
}

/// Reads one placeholder of a `Fn::Sub` template.
fn substitute_one(
    st: SubText,
    name: &str,
    local_vars: &Vec<(String, ResolvedValue)>,
    ctx: &ResolveContext,
) -> (r: Result<SubText, CfnError>)
    ensures
        ({
            let vars = crate::cfn::resolved::resolved_entries(local_vars@);
            match r {
                Ok(x) => !names_unbound(name@, vars, ctx@) && x.state() == after_placeholder(
                    st.state(),
                    name@,
                    vars,
                    ctx@,
                ),
                Err(e) => names_unbound(name@, vars, ctx@) && e@
                    == CfnErrorView::ParameterNotFound(name@),
            }
        }),
{
    let v = chars_of(name);
    proof {
        if v@.len() > 0 {
            crate::text::lemma_occurs_char(v@, '!', 0);
        }
        crate::cfn::resolved::lemma_lookup_views(local_vars@, name@);
    }
    // ${!Literal} is the documented Fn::Sub escape for a literal ${Literal}.
    if v.len() > 0 && v[0] == '!' {
        let escaped = text_of(&v, 1, v.len());
        return Ok(st.text(crate::cfn::resolved::render_ref(escaped.as_str()).as_str()));
    }
    match vec_get(local_vars, name) {
        // Local variables may themselves carry resource references.
        Some(val) => match val {
            ResolvedValue::Concrete(Yaml::String(s)) => Ok(st.text(s.as_str())),
            ResolvedValue::Ref(id) => Ok(st.part(StringPart::Ref(id.clone()))),
            ResolvedValue::GetAtt { logical_id, attr } => Ok(
                st.part(StringPart::GetAtt { logical_id: logical_id.clone(), attr: attr.clone() }),
            ),
            ResolvedValue::Interpolated(parts) => Ok(st.all_parts(parts)),
            // Other values substitute as the empty string.
            _ => Ok(st),
        },
        None => match text_get(&ctx.parameters, name) {
            Some(s) => Ok(st.text(s.as_str())),
            None => {
                if is_among(&ctx.unbound, name) {
                    return Err(CfnError::ParameterNotFound(name.to_owned()));
                }
                if starts_with(name, "AWS::") {
                    return Ok(st.text(crate::cfn::resolved::render_ref(name).as_str()));
                }
                match split_once(name, '.') {
                    Some((logical_id, attr)) => Ok(
                        st.part(StringPart::GetAtt { logical_id, attr }),
                    ),
                    None => Ok(st.part(StringPart::Ref(name.to_owned()))),
                }
            },
        },
    }
}

/// Splits a `Fn::Sub` template into interpolation parts, substituting local
/// variables and template parameters and keeping resource references typed. A
/// parameter without a value is an error.
pub fn substitute_variables(
    template: &str,
    local_vars: &Vec<(String, ResolvedValue)>,
    ctx: &ResolveContext,
) -> (r: Result<Vec<StringPart>, CfnError>)
    ensures
        parts_outcome(r) == template_parts(
            template@,
            crate::cfn::resolved::resolved_entries(local_vars@),
            ctx@,
        ),
{
    let t = chars_of(template);
    let ghost vars = crate::cfn::resolved::resolved_entries(local_vars@);
    let ghost start = SubState { parts: Seq::empty(), literal: Seq::empty() };
    let mut st = SubText { parts: Vec::new(), literal: String::new() };
    assert(st.state().parts =~= start.parts);
    let mut i: usize = 0;
    while i < t.len()
        invariant
            t@ == template@,
            vars == crate::cfn::resolved::resolved_entries(local_vars@),
            start == (SubState { parts: Seq::empty(), literal: Seq::empty() }),
            i <= t.len(),
            sub_run(t@, 0, start, vars, ctx@) == sub_run(t@, i as int, st.state(), vars, ctx@),
        decreases t@.len() - i,
    {
        if t[i] == '$' && i < t.len() - 1 && t[i + 1] == '{' {
            let end: usize = match find_char(&t, '}', i + 2) {
                Some(k) => k,
                None => t.len(),
            };
            let name = text_of(&t, i + 2, end);
            st = match substitute_one(st, name.as_str(), local_vars, ctx) {
                Ok(x) => x,
                Err(e) => {
                    return Err(e);
                },
            };
            if end < t.len() {
                i = end + 1;
            } else {
                i = t.len();
                assert(sub_run(t@, t@.len() as int + 1, st.state(), vars, ctx@) == Ok::<
                    SubState,
                    CfnErrorView,
                >(st.state()));
            }
        } else {
            let c = text_of(&t, i, i + 1);
            assert(c@ =~= seq![t@[i as int]]);
            st = st.text(c.as_str());
            i = i + 1;
        }
    }
    Ok(st.flush().parts)
}

/// Resolves `Fn::FindInMap`.
pub fn resolve_find_in_map(value: &Yaml, ctx: &ResolveContext, depth: usize) -> (r: Result<
    ResolvedValue,
    CfnError,
>)
    requires
        depth < usize::MAX,
    ensures
        outcome(r) == resolved_find_in_map(value@, ctx@, depth as int),
    decreases value, 1int,
{
    let seq = match value.as_sequence() {
        Some(s) => s,
        None => {
            return fail("!FindInMap argument must be a sequence");
        },
    };
    if seq.len() != 3 {
        return fail("!FindInMap must have exactly 3 elements");
    }
    let map_name = match resolve_inner(&seq[0], ctx, depth + 1) {
        Ok(v) => text_or_default(&v),
        Err(e) => {
            return Err(e);
        },
    };
    let first_key = match resolve_inner(&seq[1], ctx, depth + 1) {
        Ok(v) => text_or_default(&v),
        Err(e) => {
            return Err(e);
        },
    };
    let second_key = match resolve_inner(&seq[2], ctx, depth + 1) {
        Ok(v) => text_or_default(&v),
        Err(e) => {
            return Err(e);
        },
    };
    match table_get(&ctx.mappings, &map_name, &first_key, &second_key) {
        Some(s) => Ok(concrete(s.as_str())),
        None => Err(CfnError::MappingNotFound { map_name, first_key, second_key }),
    }
}

/// The text of a value, and the empty text where it has none.
fn text_or_default(v: &ResolvedValue) -> (r: String)
    ensures
        r@ == text_or_empty(v@),
{
    match v.as_str() {
        Some(s) => s.to_owned(),
        None => String::new(),
    }
}

/// The value of a table under three keys.
pub fn table_get(t: &MapTable, name: &str, first: &str, second: &str) -> (r: Option<String>)
    ensures
        match r {
            Some(s) => table_value(table_view(*t), name@, first@, second@) == Some(s@),
            None => table_value(table_view(*t), name@, first@, second@) is None,
        },
{
    proof {
        crate::strmap::lemma_lookup_mapped(
            t@,
            |m: StrMap<StrMap<String>>| level_view(m),
            name@,
        );
    }
    match t.get(name) {
        Some(m) => {
            proof {
                crate::strmap::lemma_lookup_mapped(
                    m@,
                    |n: StrMap<String>| crate::strmap::text_entries(n@),
                    first@,
                );
            }
            match m.get(first) {
                Some(n) => match text_get(n, second) {
                    Some(s) => Some(s.clone()),
                    None => None,
                },
                None => None,
            }
        },
        None => None,
    }
}

/// The number that decimal digits write, while it fits 64 bits.
proof fn lemma_digits_prefix(s: Seq<char>, i: int)
    requires
        0 < i <= s.len(),
        crate::text::digits_value(s) is Some,
    ensures
        crate::text::digits_value(s.subrange(0, i)) is Some,
        crate::text::digits_value(s.subrange(0, i))->Some_0 <= crate::text::digits_value(s)->Some_0,
    decreases s.len(),
{
    if i < s.len() {
        assert(s.drop_last().subrange(0, i) =~= s.subrange(0, i));
        lemma_digits_prefix(s.drop_last(), i);
    } else {
        assert(s.subrange(0, i) =~= s);
    }
}

/// The number that a text writes as a 64-bit index.
pub fn parse_index(s: &str) -> (r: Option<u64>)
    ensures
        match r {
            Some(n) => index_value(s@) == Some(n as nat),
            None => index_value(s@) is None,
        },
{
    let v = chars_of(s);
    let from: usize = if v.len() > 0 && v[0] == '+' {
        1
    } else {
        0
    };
    let ghost d = crate::text::tail(v@, from as int);
    assert(from == 0 ==> d =~= v@);
    if from >= v.len() {
        return None;
    }
    let mut n: u64 = 0;
    let mut i: usize = from;
    while i < v.len()
        invariant
            v@ == s@,
            from <= i <= v.len(),
            from < v.len(),
            d == crate::text::tail(v@, from as int),
            index_value(s@) == match crate::text::digits_value(d) {
                Some(x) => if x <= u64::MAX {
                    Some(x)
                } else {
                    None
                },
                None => None,
            },
            i > from ==> crate::text::digits_value(d.subrange(0, i - from)) == Some(n as nat),
            i == from ==> n == 0,
        decreases v@.len() - i,
    {
        let c = v[i];
        let ghost now = d.subrange(0, i - from + 1);
        proof {
            assert(now.last() == c);
            assert(now.drop_last() =~= d.subrange(0, i - from));
        }
        if c < '0' || c > '9' {
            proof {
                assert(crate::text::digits_value(now) is None);
                if crate::text::digits_value(d) is Some {
                    lemma_digits_prefix(d, i - from + 1);
                }
            }
            return None;
        }
        let digit: u64 = (c as u32 - '0' as u32) as u64;
        let grown: Option<u64> = match n.checked_mul(10) {
            Some(m) => m.checked_add(digit),
            None => None,
        };
        match grown {
            Some(m) => {
                n = m;
            },
            None => {
                proof {
                    if crate::text::digits_value(d) is Some {
                        lemma_digits_prefix(d, i - from + 1);
                    }
                }
                return None;
            },
        }
        i = i + 1;
    }
    assert(d.subrange(0, i - from) =~= d);
    Some(n)
}

/// The index that a value stands for.
fn index_of(v: &ResolvedValue) -> (r: Result<u64, CfnError>)
    ensures
        match r {
            Ok(n) => select_index(v@) == Ok::<nat, CfnErrorView>(n as nat),
            Err(e) => select_index(v@) == Err::<nat, CfnErrorView>(e@),
        },
{
    match v {
        ResolvedValue::Concrete(Yaml::Number(n)) => match n {
            Number::PosInt(i) => Ok(*i),
            _ => {
                let mut m = "!Select index must be a non-negative integer, got ".to_owned();
                m.append(n.to_text().as_str());
                Err(CfnError::IntrinsicError(m))
            },
        },
        ResolvedValue::Concrete(Yaml::String(s)) => match parse_index(s.as_str()) {
            Some(i) => Ok(i),
            None => {
                let mut m = "!Select index must be numeric, got \"".to_owned();
                m.append(s.as_str());
                m.append("\" (is the index an unresolved parameter?)");
                Err(CfnError::IntrinsicError(m))
            },
        },
        _ => {
            let mut m = "!Select index must be a number, got ".to_owned();
            m.append(value_message(v).as_str());
            Err(CfnError::IntrinsicError(m))
        },
    }
}

/// Resolves `Fn::Select`.
pub fn resolve_select(value: &Yaml, ctx: &ResolveContext, depth: usize) -> (r: Result<
    ResolvedValue,
    CfnError,
>)
    requires
        depth < usize::MAX,
    ensures
        outcome(r) == resolved_select(value@, ctx@, depth as int),
    decreases value, 1int,
{
    let seq = match value.as_sequence() {
        Some(s) => s,
        None => {
            return fail("!Select argument must be a sequence");
        },
    };
    if seq.len() != 2 {
        return fail("!Select must have exactly 2 elements");
    }
    let index: u64 = match resolve_inner(&seq[0], ctx, depth + 1) {
        Ok(v) => match index_of(&v) {
            Ok(i) => i,
            Err(e) => {
                return Err(e);
            },
        },
        Err(e) => {
            return Err(e);
        },
    };
    let list = match resolve_inner(&seq[1], ctx, depth + 1) {
        Ok(v) => v,
        Err(e) => {
            return Err(e);
        },
    };
    // A list that resolved to a tagged pass-through cannot be selected from:
    // the whole call is kept, the index included.
    if let ResolvedValue::Concrete(Yaml::Tagged(_, _)) = &list {
        return Ok(
            ResolvedValue::Concrete(Yaml::Tagged("!Select".to_owned(), Box::new(value.clone()))),
        );
    }
    match list.into_seq() {
        Some(items) => {
            if index < items.len() as u64 {
                let at: usize = index as usize;
                assert(crate::cfn::resolved::resolved_views(items@)[at as int] == items@[at as int]@);
                Ok(items[at].clone())
            } else {
                let mut m = "!Select index ".to_owned();
                m.append(u64_text(index).as_str());
                m.append(" out of bounds");
                Err(CfnError::IntrinsicError(m))
            }
        },
        None => fail("!Select second arg must be a list"),
    }
}

/// Resolves `Fn::If`.
pub fn resolve_if(value: &Yaml, ctx: &ResolveContext, depth: usize) -> (r: Result<
    ResolvedValue,
    CfnError,
>)
    requires
        depth < usize::MAX,
    ensures
        outcome(r) == resolved_if(value@, ctx@, depth as int),
    decreases value, 1int,
{
    let seq = match value.as_sequence() {
        Some(s) => s,
        None => {
            return fail("!If argument must be a sequence");
        },
    };
    if seq.len() != 3 {
        return fail("!If must have exactly 3 elements");
    }
    let name = match seq[0].as_str() {
        Some(s) => s,
        None => {
            return fail("!If condition must be a string");
        },
    };
    match ctx.conditions.get(name) {
        Some(b) => if *b {
            resolve_inner(&seq[1], ctx, depth + 1)
        } else {
            resolve_inner(&seq[2], ctx, depth + 1)
        },
        None => Err(CfnError::ConditionNotFound(name.to_owned())),
    }
}

/// Resolves `Fn::ImportValue`.
pub fn resolve_import_value(value: &Yaml, ctx: &ResolveContext, depth: usize) -> (r: Result<
    ResolvedValue,
    CfnError,
>)
    requires
        depth < usize::MAX,
    ensures
        outcome(r) == resolved_import_value(value@, ctx@, depth as int),
    decreases value, 1int,
{
    let resolved = match resolve_inner(value, ctx, depth + 1) {
        Ok(v) => v,
        Err(e) => {
            return Err(e);
        },
    };
    match resolved.as_str() {
        Some(name) => match text_get(&ctx.imports, name) {
            Some(s) => Ok(concrete(s.as_str())),
            None => Err(CfnError::ImportValueNotFound(name.to_owned())),
        },
        None => fail("Fn::ImportValue argument must resolve to a string"),
    }
}

/// The parts that one element of a joined list contributes.
fn parts_of_item(v: &ResolvedValue) -> (r: Option<Vec<StringPart>>)
    ensures
        match r {
            Some(p) => item_parts(v@) == Some(crate::cfn::resolved::part_views(p@)),
            None => item_parts(v@) is None,
        },
{
    let part = match v {
        ResolvedValue::Concrete(Yaml::String(s)) => StringPart::Literal(s.clone()),
        ResolvedValue::Concrete(Yaml::Number(n)) => StringPart::Literal(n.to_text()),
        ResolvedValue::Concrete(Yaml::Bool(b)) => StringPart::Literal(bool_to_text(*b)),
        ResolvedValue::Ref(id) => StringPart::Ref(id.clone()),
        ResolvedValue::GetAtt { logical_id, attr } => StringPart::GetAtt {
            logical_id: logical_id.clone(),
            attr: attr.clone(),
        },
        ResolvedValue::Interpolated(parts) => {
            return Some(clone_parts(parts));
        },
        _ => {
            return None;
        },
    };
    let mut out: Vec<StringPart> = Vec::new();
    out.push(part);
    assert(crate::cfn::resolved::part_views(out@) =~= seq![part@]);
    Some(out)
}

/// The parts of a list with a delimiter between its elements.
fn join_items(items: &Vec<ResolvedValue>, delimiter: &str) -> (r: Vec<StringPart>)
    ensures
        crate::cfn::resolved::part_views(r@) == list_parts(
            crate::cfn::resolved::resolved_views(items@),
            delimiter@,
        ).0,
{
    let mut parts: Vec<StringPart> = Vec::new();
    let mut any: bool = false;
    let ghost iv = crate::cfn::resolved::resolved_views(items@);
    assert(crate::cfn::resolved::part_views(parts@) =~= Seq::empty());
    let mut i: usize = 0;
    while i < items.len()
        invariant
            i <= items@.len(),
            iv == crate::cfn::resolved::resolved_views(items@),
            list_parts(iv.subrange(0, i as int), delimiter@) == (
                crate::cfn::resolved::part_views(parts@),
                any,
            ),
        decreases items@.len() - i,
    {
        proof {
            let now = iv.subrange(0, i + 1);
            assert(now.drop_last() =~= iv.subrange(0, i as int));
            assert(now.last() == items@[i as int]@);
        }
        if let Some(more) = parts_of_item(&items[i]) {
            let mut more = more;
            let ghost before = parts@;
            let ghost added = more@;
            if any {
                parts.push(StringPart::Literal(delimiter.to_owned()));
                assert(crate::cfn::resolved::part_views(parts@)
                    =~= crate::cfn::resolved::part_views(before).push(
                    PartView::Literal(delimiter@),
                ));
            }
            let ghost middle = parts@;
            parts.append(&mut more);
            assert(crate::cfn::resolved::part_views(parts@)
                =~= crate::cfn::resolved::part_views(middle) + crate::cfn::resolved::part_views(
                added,
            ));
            any = true;
        }
        i = i + 1;
    }
    assert(iv.subrange(0, i as int) =~= iv);
    parts
}

/// Resolves `Fn::Join`.
pub fn resolve_join(value: &Yaml, ctx: &ResolveContext, depth: usize) -> (r: Result<
    ResolvedValue,
    CfnError,
>)
    requires
        depth < usize::MAX,
    ensures
        outcome(r) == resolved_join(value@, ctx@, depth as int),
    decreases value, 1int,
{
    let seq = match value.as_sequence() {
        Some(s) => s,
        None => {
            return fail("!Join argument must be a sequence");
        },
    };
    if seq.len() != 2 {
        return fail("!Join must have exactly 2 elements");
    }
    let delimiter = match resolve_inner(&seq[0], ctx, depth + 1) {
        Ok(v) => text_or_default(&v),
        Err(e) => {
            return Err(e);
        },
    };
    let list = match resolve_inner(&seq[1], ctx, depth + 1) {
        Ok(v) => v,
        Err(e) => {
            return Err(e);
        },
    };
    match list.into_seq() {
        Some(items) => Ok(ResolvedValue::from_parts(join_items(&items, delimiter.as_str()))),
        None => fail("!Join second arg must be a list"),
    }
}

/// Resolves `Fn::GetAtt`.
///
/// A typed reference is given when there is enough information (logical ID
/// and attribute); otherwise the value is passed through unmodified.
pub fn resolve_get_att(value: &Yaml) -> (r: Result<ResolvedValue, CfnError>)
    ensures
        outcome(r) == resolved_get_att(value@),
{
    match value {
        Yaml::String(s) => match split_once(s.as_str(), '.') {
            Some((logical_id, attr)) => Ok(ResolvedValue::GetAtt { logical_id, attr }),
            None => Ok(ResolvedValue::Concrete(value.clone())),
        },
        Yaml::Sequence(seq) => {
            assert(value@->Sequence_0 =~= crate::yaml::yaml_views(seq@));
            let names = collect_strings(seq);
            if names.len() >= 2 {
                let mut rest: Vec<String> = Vec::new();
                let mut i: usize = 1;
                while i < names.len()
                    invariant
                        1 <= i <= names@.len(),
                        crate::text::texts(rest@) == crate::text::texts(names@).subrange(
                            1,
                            i as int,
                        ),
                    decreases names@.len() - i,
                {
                    let ghost before = rest@;
                    rest.push(names[i].clone());
                    assert(crate::text::texts(rest@) =~= crate::text::texts(before).push(
                        names@[i as int]@,
                    ));
                    i = i + 1;
                    assert(crate::text::texts(rest@) =~= crate::text::texts(names@).subrange(
                        1,
                        i as int,
                    ));
                }
                assert(crate::text::texts(rest@) =~= crate::text::texts(names@).drop_first());
                assert(crate::text::texts(names@)[0] == names@[0]@);
                Ok(ResolvedValue::GetAtt { logical_id: names[0].clone(), attr: join(&rest, ".") })
            } else {
                Ok(ResolvedValue::Concrete(value.clone()))
            }
        },
        _ => Ok(ResolvedValue::Concrete(value.clone())),
    }
}

/// Resolves `Fn::Split`.
///
/// A fully concrete source is split at once. A source that holds unresolved
/// references or an unknown intrinsic leaves the whole call as it is.
pub fn resolve_split(value: &Yaml, ctx: &ResolveContext, depth: usize) -> (r: Result<
    ResolvedValue,
    CfnError,
>)
    requires
        depth < usize::MAX,
    ensures
        outcome(r) == resolved_split(value@, ctx@, depth as int),
    decreases value, 1int,
{
    let seq = match value.as_sequence() {
        Some(s) => s,
        None => {
            return fail("Fn::Split argument must be a sequence");
        },
    };
    if seq.len() != 2 {
        return fail("Fn::Split must have exactly 2 elements");
    }
    let separator = match resolve_inner(&seq[0], ctx, depth + 1) {
        Ok(v) => v,
        Err(e) => {
            return Err(e);
        },
    };
    let separator = match separator.as_str() {
        Some(s) => s.to_owned(),
        None => {
            return fail("Fn::Split separator (first element) must resolve to a string");
        },
    };
    let source = match resolve_inner(&seq[1], ctx, depth + 1) {
        Ok(v) => v,
        Err(e) => {
            return Err(e);
        },
    };
    match &source {
        ResolvedValue::Concrete(Yaml::String(s)) => {
            let pieces = split(s.as_str(), separator.as_str());
            let mut items: Vec<ResolvedValue> = Vec::new();
            for i in 0..pieces.len()
                invariant
                    items@.len() == i,
                    forall|j: int|
                        0 <= j < i ==> (#[trigger] items@[j])@
                            == crate::cfn::resolved::concrete_text(pieces@[j]@),
            {
                items.push(concrete(pieces[i].as_str()));
            }
            let r = ResolvedValue::Sequence(items);
            assert(r@->Sequence_0 =~= crate::text::texts(pieces@).map_values(
                |p: Seq<char>| crate::cfn::resolved::concrete_text(p),
            ));
            Ok(r)
        },
        ResolvedValue::Interpolated(_) | ResolvedValue::Ref(_) | ResolvedValue::GetAtt { .. }
        | ResolvedValue::Concrete(Yaml::Tagged(_, _)) => Ok(
            ResolvedValue::Concrete(Yaml::Tagged("!Split".to_owned(), Box::new(value.clone()))),
        ),
        _ => {
            let mut m = "Fn::Split source (second element) must be a string, got ".to_owned();
            m.append(value_message(&source).as_str());
            Err(CfnError::IntrinsicError(m))
        },
    }
}

/// Copies one map of a table.
fn clone_levels(m: &StrMap<StrMap<String>>) -> (r: StrMap<StrMap<String>>)
    ensures
        level_view(r) == level_view(*m),
{
    let mut out: StrMap<StrMap<String>> = StrMap::new();
    let n: usize = m.len();
    let ghost f = |x: StrMap<String>| crate::strmap::text_entries(x@);
    let ghost all = level_view(*m);
    assert(crate::strmap::mapped(out@, f) =~= Seq::empty());
    let mut i: usize = 0;
    while i < n
        invariant
            i <= n == m@.len(),
            crate::strmap::keys_rise(m@),
            f == (|x: StrMap<String>| crate::strmap::text_entries(x@)),
            all == level_view(*m),
            crate::strmap::mapped(out@, f) == all.subrange(0, i as int),
        decreases n - i,
    {
        let key = m.key_at(i).clone();
        let value = clone_text_map(m.value_at(i));
        proof {
            let s = all.subrange(0, i as int);
            assert forall|j: int| 0 <= j < s.len() implies crate::text::text_lt(
                (#[trigger] s[j]).0,
                key@,
            ) by {
                assert(s[j].0 == m@[j].0);
                assert(crate::text::text_lt(m@[j].0, m@[i as int].0));
            }
            crate::strmap::lemma_inserted_last(s, key@, f(value));
            crate::strmap::lemma_inserted_mapped(out@, f, key@, value);
            assert(all.subrange(0, i + 1) =~= s.push((key@, f(value))));
        }
        out.insert(key, value);
        i = i + 1;
    }
    assert(all.subrange(0, n as int) =~= all);
    out
}

/// Copies a table.
pub fn clone_table(m: &MapTable) -> (r: MapTable)
    ensures
        table_view(r) == table_view(*m),
{
    let mut out: MapTable = StrMap::new();
    let n: usize = m.len();
    let ghost f = |x: StrMap<StrMap<String>>| level_view(x);
    let ghost all = table_view(*m);
    assert(crate::strmap::mapped(out@, f) =~= Seq::empty());
    let mut i: usize = 0;
    while i < n
        invariant
            i <= n == m@.len(),
            crate::strmap::keys_rise(m@),
            f == (|x: StrMap<StrMap<String>>| level_view(x)),
            all == table_view(*m),
            crate::strmap::mapped(out@, f) == all.subrange(0, i as int),
        decreases n - i,
    {
        let key = m.key_at(i).clone();
        let value = clone_levels(m.value_at(i));
        proof {
            let s = all.subrange(0, i as int);
            assert forall|j: int| 0 <= j < s.len() implies crate::text::text_lt(
                (#[trigger] s[j]).0,
                key@,
            ) by {
                assert(s[j].0 == m@[j].0);
                assert(crate::text::text_lt(m@[j].0, m@[i as int].0));
            }
            crate::strmap::lemma_inserted_last(s, key@, f(value));
            crate::strmap::lemma_inserted_mapped(out@, f, key@, value);
            assert(all.subrange(0, i + 1) =~= s.push((key@, f(value))));
        }
        out.insert(key, value);
        i = i + 1;
    }
    assert(all.subrange(0, n as int) =~= all);
    out
}

// ---------------------------------------------------------------------------
// Laws
// ---------------------------------------------------------------------------

/// Normalizing a name twice is normalizing it once.
pub proof fn law_normalizing_is_idempotent(name: Seq<char>)
    requires
        canonical_name(name) is Some,
    ensures
        canonical_name(canonical_name(name)->Some_0) == canonical_name(name),
{
    reveal_strlit("!Ref");
    reveal_strlit("Ref");
    reveal_strlit("!Sub");
    reveal_strlit("Fn::Sub");
    reveal_strlit("!FindInMap");
    reveal_strlit("Fn::FindInMap");
    reveal_strlit("!Select");
    reveal_strlit("Fn::Select");
    reveal_strlit("!If");
    reveal_strlit("Fn::If");
    reveal_strlit("!ImportValue");
    reveal_strlit("Fn::ImportValue");
    reveal_strlit("!Join");
    reveal_strlit("Fn::Join");
    reveal_strlit("!GetAtt");
    reveal_strlit("Fn::GetAtt");
    reveal_strlit("!Split");
    reveal_strlit("Fn::Split");
    assert("!Ref"@[0] == '!');
    assert("!Sub"@[0] == '!');
    assert("!FindInMap"@[0] == '!');
    assert("!Select"@[0] == '!');
    assert("!If"@[0] == '!');
    assert("!ImportValue"@[0] == '!');
    assert("!Join"@[0] == '!');
    assert("!GetAtt"@[0] == '!');
    assert("!Split"@[0] == '!');
    assert("Ref"@[0] == 'R');
    assert("Fn::Sub"@[0] == 'F' && "Fn::Sub"@[4] == 'S' && "Fn::Sub"@[5] == 'u');
    assert(canonical_name("Fn::Sub"@) == Some("Fn::Sub"@));
    assert("Fn::FindInMap"@[0] == 'F' && "Fn::FindInMap"@[4] == 'F' && "Fn::FindInMap"@[5] == 'i');
    assert(canonical_name("Fn::FindInMap"@) == Some("Fn::FindInMap"@));
    assert("Fn::Select"@[0] == 'F' && "Fn::Select"@[4] == 'S' && "Fn::Select"@[5] == 'e');
    assert(canonical_name("Fn::Select"@) == Some("Fn::Select"@));
    assert("Fn::If"@[0] == 'F' && "Fn::If"@[4] == 'I' && "Fn::If"@[5] == 'f');
    assert(canonical_name("Fn::If"@) == Some("Fn::If"@));
    assert("Fn::ImportValue"@[0] == 'F' && "Fn::ImportValue"@[4] == 'I' && "Fn::ImportValue"@[5] == 'm');
    assert(canonical_name("Fn::ImportValue"@) == Some("Fn::ImportValue"@));
    assert("Fn::Join"@[0] == 'F' && "Fn::Join"@[4] == 'J' && "Fn::Join"@[5] == 'o');
    assert(canonical_name("Fn::Join"@) == Some("Fn::Join"@));
    assert("Fn::GetAtt"@[0] == 'F' && "Fn::GetAtt"@[4] == 'G' && "Fn::GetAtt"@[5] == 'e');
    assert(canonical_name("Fn::GetAtt"@) == Some("Fn::GetAtt"@));
    assert("Fn::Split"@[0] == 'F' && "Fn::Split"@[4] == 'S' && "Fn::Split"@[5] == 'p');
    assert(canonical_name("Fn::Split"@) == Some("Fn::Split"@));
    assert(canonical_name("Ref"@) == Some("Ref"@));
}

/// Each placeholder that is read in `t` from position `i` on is closed, is no
/// escape, and has a name without a value.
pub open spec fn only_references(
    t: Seq<char>,
    i: int,
    vars: Seq<(Seq<char>, ResolvedView)>,
    ctx: ContextView,
) -> bool
    decreases t.len() + 1 - i,
{
    if i < 0 || i >= t.len() {
        true
    } else if opens_placeholder(t, i) {
        proof {
            crate::text::lemma_find_from(t, seq!['}'], i + 2);
        }
        let name = t.subrange(i + 2, name_end(t, i));
        &&& name_end(t, i) < t.len()
        &&& !crate::text::has_prefix(name, seq!['!'])
        &&& crate::strmap::lookup(vars, name) is None
        &&& crate::strmap::lookup(ctx.parameters, name) is None
        &&& !ctx.unbound.contains(name)
        &&& only_references(t, name_end(t, i) + 1, vars, ctx)
    } else {
        only_references(t, i + 1, vars, ctx)
    }
}

/// The text that a state stands for.
spec fn state_text(st: SubState) -> Seq<char> {
    crate::cfn::resolved::parts_text(st.parts) + st.literal
}

/// Making literal text a part keeps the text.
proof fn lemma_flushed_text(st: SubState)
    ensures
        crate::cfn::resolved::parts_text(flushed(st).parts) == state_text(st),
{
    if st.literal.len() > 0 {
        assert(flushed(st).parts.drop_last() =~= st.parts);
    } else {
        assert(state_text(st) =~= crate::cfn::resolved::parts_text(st.parts));
    }
}

/// Adding a part adds its text.
proof fn lemma_part_text(st: SubState, p: PartView)
    ensures
        state_text(with_parts(st, seq![p])) == state_text(st) + crate::cfn::resolved::part_text(p),
{
    lemma_flushed_text(st);
    let all = with_parts(st, seq![p]).parts;
    assert(all.drop_last() =~= flushed(st).parts);
    assert(all.last() == p);
    assert(state_text(with_parts(st, seq![p])) =~= crate::cfn::resolved::parts_text(all));
}

/// A placeholder whose name has no value is kept in the text.
proof fn lemma_kept_placeholder(
    st: SubState,
    name: Seq<char>,
    vars: Seq<(Seq<char>, ResolvedView)>,
    ctx: ContextView,
)
    requires
        !crate::text::has_prefix(name, seq!['!']),
        crate::strmap::lookup(vars, name) is None,
        crate::strmap::lookup(ctx.parameters, name) is None,
    ensures
        state_text(after_placeholder(st, name, vars, ctx)) == state_text(st)
            + crate::cfn::resolved::ref_text(name),
{
    let r = crate::cfn::resolved::ref_text(name);
    if crate::text::has_prefix(name, "AWS::"@) {
        assert(state_text(with_text(st, r)) =~= state_text(st) + r);
    } else {
        match crate::text::split_at_char(name, '.') {
            Some((logical_id, attr)) => {
                crate::text::lemma_find_from(name, seq!['.'], 0);
                let k = crate::text::find_text(name, seq!['.'])->Some_0;
                crate::text::lemma_occurs_char(name, '.', k);
                assert(name =~= logical_id + seq!['.'] + attr);
                assert(crate::cfn::resolved::getatt_text(logical_id, attr) =~= r);
                lemma_part_text(st, PartView::GetAtt { logical_id, attr });
            },
            None => {
                lemma_part_text(st, PartView::Ref(name));
            },
        }
    }
}

/// Reading text with no other placeholders adds that text.
proof fn lemma_reference_run(
    t: Seq<char>,
    i: int,
    st: SubState,
    vars: Seq<(Seq<char>, ResolvedView)>,
    ctx: ContextView,
)
    requires
        0 <= i <= t.len(),
        only_references(t, i, vars, ctx),
    ensures
        sub_run(t, i, st, vars, ctx) matches Ok(done) && state_text(done) == state_text(st)
            + crate::text::tail(t, i),
    decreases t.len() - i,
{
    if i >= t.len() {
        assert(state_text(st) + crate::text::tail(t, i) =~= state_text(st));
    } else if opens_placeholder(t, i) {
        crate::text::lemma_find_from(t, seq!['}'], i + 2);
        let end = name_end(t, i);
        let name = t.subrange(i + 2, end);
        crate::text::lemma_occurs_char(t, '}', end);
        lemma_kept_placeholder(st, name, vars, ctx);
        lemma_reference_run(t, end + 1, after_placeholder(st, name, vars, ctx), vars, ctx);
        assert(crate::text::tail(t, i) =~= crate::cfn::resolved::ref_text(name)
            + crate::text::tail(t, end + 1));
        assert(state_text(st) + crate::cfn::resolved::ref_text(name) + crate::text::tail(
            t,
            end + 1,
        ) =~= state_text(st) + crate::text::tail(t, i));
    } else {
        lemma_reference_run(t, i + 1, with_text(st, seq![t[i]]), vars, ctx);
        assert(state_text(with_text(st, seq![t[i]])) + crate::text::tail(t, i + 1) =~= state_text(
            st,
        ) + crate::text::tail(t, i));
    }
}

/// Where every placeholder of a `Fn::Sub` template is closed, none is an escape
/// and no name has a value, writing out the parts gives the template back.
pub proof fn law_sub_keeps_references(
    t: Seq<char>,
    vars: Seq<(Seq<char>, ResolvedView)>,
    ctx: ContextView,
)
    requires
        only_references(t, 0, vars, ctx),
    ensures
        template_parts(t, vars, ctx) matches Ok(parts) && crate::cfn::resolved::parts_text(parts)
            == t,
{
    let start = SubState { parts: Seq::empty(), literal: Seq::empty() };
    lemma_reference_run(t, 0, start, vars, ctx);
    lemma_flushed_text(sub_run(t, 0, start, vars, ctx)->Ok_0);
    assert(state_text(start) + crate::text::tail(t, 0) =~= t);
}

/// Reading text in which no placeholder is opened adds that text.
proof fn lemma_plain_run(
    t: Seq<char>,
    i: int,
    st: SubState,
    vars: Seq<(Seq<char>, ResolvedView)>,
    ctx: ContextView,
)
    requires
        0 <= i <= t.len(),
        forall|j: int| !#[trigger] opens_placeholder(t, j),
    ensures
        sub_run(t, i, st, vars, ctx) == Ok::<SubState, CfnErrorView>(
            with_text(st, crate::text::tail(t, i)),
        ),
    decreases t.len() - i,
{
    if i < t.len() {
        lemma_plain_run(t, i + 1, with_text(st, seq![t[i]]), vars, ctx);
        assert(st.literal + seq![t[i]] + crate::text::tail(t, i + 1) =~= st.literal
            + crate::text::tail(t, i));
    } else {
        assert(st.literal + crate::text::tail(t, i) =~= st.literal);
    }
}

/// A `Fn::Sub` template in which no placeholder is opened is its own value.
pub proof fn law_sub_without_placeholders(
    t: Seq<char>,
    vars: Seq<(Seq<char>, ResolvedView)>,
    ctx: ContextView,
)
    requires
        forall|i: int| !#[trigger] opens_placeholder(t, i),
    ensures
        substituted(t, vars, ctx) == Ok::<ResolvedView, CfnErrorView>(
            crate::cfn::resolved::concrete_text(t),
        ),
{
    let start = SubState { parts: Seq::empty(), literal: Seq::empty() };
    lemma_plain_run(t, 0, start, vars, ctx);
    assert(crate::text::tail(t, 0) =~= t);
    assert(start.literal + t =~= t);
    let p = template_parts(t, vars, ctx)->Ok_0;
    reveal_with_fuel(crate::cfn::resolved::parts_text, 2);
    if t.len() == 0 {
        assert(p =~= Seq::empty());
        assert(crate::cfn::resolved::parts_text(p) =~= t);
    } else {
        assert(p =~= seq![PartView::Literal(t)]);
        assert(p.drop_last() =~= Seq::empty());
        assert(crate::cfn::resolved::parts_text(p) =~= t);
    }
}

/// A parameter that is declared and has no value is an error wherever it is
/// referred to; a name that is not declared is a reference to a resource.
pub proof fn law_unbound_parameter_is_not_found(name: Seq<char>, ctx: ContextView)
    requires
        crate::strmap::lookup(ctx.parameters, name) is None,
        !is_pseudo(name),
    ensures
        resolved_ref(YamlView::String(name), ctx) == if ctx.unbound.contains(name) {
            Err(CfnErrorView::ParameterNotFound(name))
        } else {
            Ok(ResolvedView::Ref(name))
        },
        !crate::text::has_prefix(name, seq!['!']) && !name.contains('}') && ctx.unbound.contains(
            name,
        ) ==> substituted(crate::cfn::resolved::ref_text(name), Seq::empty(), ctx) == Err::<
            ResolvedView,
            CfnErrorView,
        >(CfnErrorView::ParameterNotFound(name)),
        !crate::text::has_prefix(name, seq!['!']) && !name.contains('}') && !ctx.unbound.contains(
            name,
        ) && !crate::text::has_prefix(name, "AWS::"@) && !name.contains('.') ==> substituted(
            crate::cfn::resolved::ref_text(name),
            Seq::empty(),
            ctx,
        ) == Ok::<ResolvedView, CfnErrorView>(ResolvedView::Ref(name)),
{
    if !crate::text::has_prefix(name, seq!['!']) && !name.contains('}') {
        lemma_lone_placeholder(name, ctx);
    }
}

/// What a template that is one placeholder gives.
proof fn lemma_lone_placeholder(name: Seq<char>, ctx: ContextView)
    requires
        crate::strmap::lookup(ctx.parameters, name) is None,
        !crate::text::has_prefix(name, seq!['!']),
        !name.contains('}'),
    ensures
        ctx.unbound.contains(name) ==> substituted(
            crate::cfn::resolved::ref_text(name),
            Seq::empty(),
            ctx,
        ) == Err::<ResolvedView, CfnErrorView>(CfnErrorView::ParameterNotFound(name)),
        !ctx.unbound.contains(name) && !crate::text::has_prefix(name, "AWS::"@) && !name.contains(
            '.',
        ) ==> substituted(crate::cfn::resolved::ref_text(name), Seq::empty(), ctx) == Ok::<
            ResolvedView,
            CfnErrorView,
        >(ResolvedView::Ref(name)),
{
    let t = crate::cfn::resolved::ref_text(name);
    let end = name.len() as int + 2;
    let vars = Seq::<(Seq<char>, ResolvedView)>::empty();
    assert(opens_placeholder(t, 0));
    crate::text::lemma_occurs_char(t, '}', end);
    assert forall|j: int| 2 <= j < end implies !#[trigger] crate::text::occurs_at(
        t,
        seq!['}'],
        j,
    ) by {
        crate::text::lemma_occurs_char(t, '}', j);
        assert(t[j] == name[j - 2]);
        assert(name.contains(name[j - 2]));
    }
    crate::text::lemma_find_from_is(t, seq!['}'], 2, end);
    assert(t.subrange(2, end) =~= name);
    if !ctx.unbound.contains(name) && !crate::text::has_prefix(name, "AWS::"@) && !name.contains(
        '.',
    ) {
        assert(crate::text::split_at_char(name, '.') is None) by {
            crate::text::lemma_find_from(name, seq!['.'], 0);
            match crate::text::find_text(name, seq!['.']) {
                Some(k) => {
                    crate::text::lemma_occurs_char(name, '.', k);
                    assert(name.contains(name[k]));
                },
                None => {},
            }
        }
        let start = SubState { parts: Seq::empty(), literal: Seq::empty() };
        let st = after_placeholder(start, name, vars, ctx);
        assert(st.parts =~= seq![PartView::Ref(name)]);
        assert(sub_run(t, end + 1, st, vars, ctx) == Ok::<SubState, CfnErrorView>(st));
        let p = st.parts;
        reveal_with_fuel(crate::cfn::resolved::merged, 2);
        assert(p.drop_last() =~= Seq::empty());
        assert(!crate::cfn::resolved::all_literal(p)) by {
            assert(!(p[0] is Literal));
        }
        assert(crate::cfn::resolved::merged(p) =~= p);
    }
}

/// A value nested deeper than [`MAX_INTRINSIC_DEPTH`] is an error, whatever it
/// is.
pub proof fn law_depth_is_limited(v: YamlView, ctx: ContextView, depth: int)
    requires
        depth > MAX_INTRINSIC_DEPTH,
    ensures
        resolve_at(v, ctx, depth) is Err,
{
}

/// Joining the pieces that splitting gave, with the same separator, gives the
/// text back.
pub proof fn law_join_undoes_split(s: Seq<char>, sep: Seq<char>)
    ensures
        crate::cfn::resolved::value_of_parts(
            list_parts(
                crate::text::pieces(s, sep).map_values(
                    |p: Seq<char>| crate::cfn::resolved::concrete_text(p),
                ),
                sep,
            ).0,
        ) == crate::cfn::resolved::concrete_text(s),
{
    let ps = crate::text::pieces(s, sep);
    crate::text::law_joined_pieces(s, sep);
    lemma_list_of_texts(ps, sep);
}

/// The parts of a list of texts are all literal, and their text is the texts
/// joined.
pub proof fn lemma_list_of_texts(ps: Seq<Seq<char>>, sep: Seq<char>)
    ensures
        ({
            let l = list_parts(
                ps.map_values(|p: Seq<char>| crate::cfn::resolved::concrete_text(p)),
                sep,
            );
            &&& l.1 == (ps.len() > 0)
            &&& crate::cfn::resolved::all_literal(l.0)
            &&& crate::cfn::resolved::parts_text(l.0) == crate::text::joined(ps, sep)
        }),
    decreases ps.len(),
{
    let f = |p: Seq<char>| crate::cfn::resolved::concrete_text(p);
    let items = ps.map_values(f);
    if ps.len() > 0 {
        let rest = ps.drop_last();
        lemma_list_of_texts(rest, sep);
        assert(items.drop_last() =~= rest.map_values(f));
        let before = list_parts(rest.map_values(f), sep).0;
        let l = list_parts(items, sep).0;
        let last = PartView::Literal(ps.last());
        assert(items.last() == f(ps.last()));
        if ps.len() == 1 {
            assert(rest.map_values(f) =~= Seq::empty());
            assert(l =~= seq![last]);
            reveal_with_fuel(crate::cfn::resolved::parts_text, 2);
            assert(l.drop_last() =~= Seq::empty());
            assert(crate::cfn::resolved::parts_text(l) =~= ps[0]);
        } else {
            let middle = before.push(PartView::Literal(sep));
            assert(l =~= middle.push(last));
            assert(l.drop_last() =~= middle);
            assert(middle.drop_last() =~= before);
            assert(crate::cfn::resolved::parts_text(middle)
                == crate::cfn::resolved::parts_text(before) + sep);
            assert(crate::cfn::resolved::parts_text(l) =~= crate::text::joined(ps, sep));
        }
    } else {
        assert(items =~= Seq::empty());
    }
}

} // verus!
