//! Reading and resolving `CloudFormation` templates.

use vstd::prelude::*;

use crate::cfn::error::CfnError;
use crate::cfn::error::CfnErrorView;
use crate::cfn::intrinsic::resolve;
use crate::cfn::intrinsic::table_get;
use crate::cfn::intrinsic::ContextView;
use crate::cfn::intrinsic::MapTable;
use crate::cfn::intrinsic::ResolveContext;
use crate::cfn::intrinsic::TableView;
use crate::cfn::resolved::ResolvedValue;
use crate::cfn::resolved::ResolvedView;
use crate::policy::DiagnosticSource;
use crate::policy::DiagnosticView;
use crate::policy::IacParseDiagnostic;
use crate::policy::ParseOutcome;
use crate::policy::ParsePolicy;
use crate::policy::SourceLocation;
use crate::strmap::clone_text_map;
use crate::strmap::text_get;
use crate::strmap::StrMap;
use crate::text::join;
use crate::text::text_eq;
use crate::yaml::collect_strings;
use crate::yaml::mapping_get;
use crate::yaml::parse_yaml;
use crate::yaml::Yaml;
use crate::yaml::YamlView;

verus! {

// ---------------------------------------------------------------------------
// Templates
// ---------------------------------------------------------------------------

/// Parsed `CloudFormation` template.
///
/// Generic over the property representation `P`: freshly parsed templates hold
/// YAML, resolved ones hold [`ResolvedValue`].
pub struct CfnTemplate<P> {
    pub parameters: StrMap<ParameterDef>,
    pub mappings: MapTable,
    pub conditions: StrMap<Yaml>,
    pub resources: StrMap<CfnResource<P>>,
}

/// A `CloudFormation` parameter definition.
#[derive(Debug, PartialEq, Eq)]
pub struct ParameterDef {
    pub param_type: String,
    pub default: Option<String>,
    pub allowed_values: Vec<String>,
}

/// A `CloudFormation` resource.
#[derive(Debug, PartialEq, Eq)]
pub struct CfnResource<P> {
    pub logical_id: String,
    pub resource_type: String,
    pub properties: P,
    pub condition: Option<String>,
    /// Logical IDs listed in `DependsOn` (a string or an array of strings).
    pub depends_on: Vec<String>,
}

/// A resource whose intrinsic functions have been resolved.
pub type ResolvedResource = CfnResource<ResolvedValue>;

/// A template whose resource properties have been resolved.
pub type ResolvedTemplate = CfnTemplate<ResolvedValue>;

// ---------------------------------------------------------------------------
// Models
// ---------------------------------------------------------------------------

/// The text of an optional string.
pub open spec fn opt_text(s: Option<String>) -> Option<Seq<char>> {
    match s {
        Some(x) => Some(x@),
        None => None,
    }
}

/// The model of a [`ParameterDef`].
#[verifier::ext_equal]
pub struct ParameterView {
    pub param_type: Seq<char>,
    pub default: Option<Seq<char>>,
    pub allowed_values: Seq<Seq<char>>,
}

impl View for ParameterDef {
    type V = ParameterView;

    open spec fn view(&self) -> ParameterView {
        ParameterView {
            param_type: self.param_type@,
            default: opt_text(self.default),
            allowed_values: crate::text::texts(self.allowed_values@),
        }
    }
}

/// The model of a [`CfnResource`].
#[verifier::ext_equal]
#[verifier::reject_recursive_types(P)]
pub struct ResourceView<P> {
    pub logical_id: Seq<char>,
    pub resource_type: Seq<char>,
    pub properties: P,
    pub condition: Option<Seq<char>>,
    pub depends_on: Seq<Seq<char>>,
}

/// The model of a parsed resource.
pub open spec fn resource_view(r: CfnResource<Yaml>) -> ResourceView<YamlView> {
    ResourceView {
        logical_id: r.logical_id@,
        resource_type: r.resource_type@,
        properties: r.properties@,
        condition: opt_text(r.condition),
        depends_on: crate::text::texts(r.depends_on@),
    }
}

/// The model of a resolved resource.
pub open spec fn resolved_resource_view(r: ResolvedResource) -> ResourceView<ResolvedView> {
    ResourceView {
        logical_id: r.logical_id@,
        resource_type: r.resource_type@,
        properties: r.properties@,
        condition: opt_text(r.condition),
        depends_on: crate::text::texts(r.depends_on@),
    }
}

/// Parameter definitions in order.
pub type ParameterEntries = Seq<(Seq<char>, ParameterView)>;

/// Parsed resources in order.
pub type ResourceEntries = Seq<(Seq<char>, ResourceView<YamlView>)>;

/// Resolved resources in order.
pub type ResolvedEntries = Seq<(Seq<char>, ResourceView<ResolvedView>)>;

/// The model of a parsed template.
#[verifier::ext_equal]
pub struct TemplateView {
    pub parameters: ParameterEntries,
    pub mappings: TableView,
    pub conditions: Seq<(Seq<char>, YamlView)>,
    pub resources: ResourceEntries,
}

/// The model of a parsed template.
pub open spec fn template_view(t: CfnTemplate<Yaml>) -> TemplateView {
    TemplateView {
        parameters: crate::strmap::mapped(t.parameters@, |p: ParameterDef| p@),
        mappings: crate::cfn::intrinsic::table_view(t.mappings),
        conditions: crate::strmap::mapped(t.conditions@, |y: Yaml| y@),
        resources: crate::strmap::mapped(t.resources@, |r: CfnResource<Yaml>| resource_view(r)),
    }
}

/// The entries of the section `name` of a template, none where the section is
/// missing or not a mapping.
pub open spec fn section(root: Seq<(YamlView, YamlView)>, name: Seq<char>) -> Seq<
    (YamlView, YamlView),
> {
    match crate::yaml::yaml_get(root, name) {
        Some(YamlView::Mapping(m)) => m,
        _ => Seq::empty(),
    }
}

/// The text of a string value under `key`.
pub open spec fn string_under(m: Seq<(YamlView, YamlView)>, key: Seq<char>) -> Option<Seq<char>> {
    match crate::yaml::yaml_get(m, key) {
        Some(v) => crate::yaml::yaml_str(v),
        None => None,
    }
}

/// What the definition of a parameter says.
pub open spec fn parameter_of(def: Seq<(YamlView, YamlView)>) -> ParameterView {
    ParameterView {
        param_type: match string_under(def, "Type"@) {
            Some(t) => t,
            None => "String"@,
        },
        default: match crate::yaml::yaml_get(def, "Default"@) {
            Some(v) => crate::yaml::scalar_text(v),
            None => None,
        },
        allowed_values: match crate::yaml::yaml_get(def, "AllowedValues"@) {
            Some(v) => match crate::yaml::yaml_items(v) {
                Some(s) => crate::yaml::strings_of(s),
                None => Seq::empty(),
            },
            None => Seq::empty(),
        },
    }
}

/// The parameters that a section defines.
pub open spec fn parameters_of(m: Seq<(YamlView, YamlView)>) -> ParameterEntries
    decreases m.len(),
{
    if m.len() == 0 {
        Seq::empty()
    } else {
        let rest = parameters_of(m.drop_last());
        match (crate::yaml::yaml_str(m.last().0), crate::yaml::yaml_entries(m.last().1)) {
            (Some(name), Some(def)) => crate::strmap::inserted(rest, name, parameter_of(def)),
            _ => rest,
        }
    }
}

/// The scalar values of the innermost level of a mapping, by key.
pub open spec fn values_of(m: Seq<(YamlView, YamlView)>) -> Seq<(Seq<char>, Seq<char>)>
    decreases m.len(),
{
    if m.len() == 0 {
        Seq::empty()
    } else {
        let rest = values_of(m.drop_last());
        match crate::yaml::yaml_str(m.last().0) {
            Some(key) => match crate::yaml::scalar_text(m.last().1) {
                Some(s) => crate::strmap::inserted(rest, key, s),
                None => rest,
            },
            None => rest,
        }
    }
}

/// The maps of the middle level of a mapping, by key.
pub open spec fn levels_of(m: Seq<(YamlView, YamlView)>) -> Seq<
    (Seq<char>, Seq<(Seq<char>, Seq<char>)>),
>
    decreases m.len(),
{
    if m.len() == 0 {
        Seq::empty()
    } else {
        let rest = levels_of(m.drop_last());
        match (crate::yaml::yaml_str(m.last().0), crate::yaml::yaml_entries(m.last().1)) {
            (Some(key), Some(n)) => crate::strmap::inserted(rest, key, values_of(n)),
            _ => rest,
        }
    }
}

/// The mappings that a section defines.
pub open spec fn tables_of(m: Seq<(YamlView, YamlView)>) -> TableView
    decreases m.len(),
{
    if m.len() == 0 {
        Seq::empty()
    } else {
        let rest = tables_of(m.drop_last());
        match (crate::yaml::yaml_str(m.last().0), crate::yaml::yaml_entries(m.last().1)) {
            (Some(key), Some(n)) => crate::strmap::inserted(rest, key, levels_of(n)),
            _ => rest,
        }
    }
}

/// The conditions that a section defines.
pub open spec fn conditions_of(m: Seq<(YamlView, YamlView)>) -> Seq<(Seq<char>, YamlView)>
    decreases m.len(),
{
    if m.len() == 0 {
        Seq::empty()
    } else {
        let rest = conditions_of(m.drop_last());
        match crate::yaml::yaml_str(m.last().0) {
            Some(key) => crate::strmap::inserted(rest, key, m.last().1),
            None => rest,
        }
    }
}

/// What the definition of a resource says, or that its type is missing.
pub open spec fn resource_of(name: Seq<char>, def: Seq<(YamlView, YamlView)>) -> Result<
    ResourceView<YamlView>,
    CfnErrorView,
> {
    match string_under(def, "Type"@) {
        None => Err(CfnErrorView::ParseError("resource "@ + name + " missing Type"@)),
        Some(t) => Ok(
            ResourceView {
                logical_id: name,
                resource_type: t,
                properties: match crate::yaml::yaml_get(def, "Properties"@) {
                    Some(v) => v,
                    None => YamlView::Mapping(Seq::empty()),
                },
                condition: string_under(def, "Condition"@),
                depends_on: match crate::yaml::yaml_get(def, "DependsOn"@) {
                    Some(YamlView::String(s)) => seq![s],
                    Some(YamlView::Sequence(s)) => crate::yaml::strings_of(s),
                    _ => Seq::empty(),
                },
            },
        ),
    }
}

/// The resources that a section defines, or the first error.
pub open spec fn resources_of(m: Seq<(YamlView, YamlView)>) -> Result<
    ResourceEntries,
    CfnErrorView,
>
    decreases m.len(),
{
    if m.len() == 0 {
        Ok(Seq::empty())
    } else {
        match resources_of(m.drop_last()) {
            Err(e) => Err(e),
            Ok(rest) => match (
                crate::yaml::yaml_str(m.last().0),
                crate::yaml::yaml_entries(m.last().1),
            ) {
                (Some(name), Some(def)) => match resource_of(name, def) {
                    Ok(r) => Ok(crate::strmap::inserted(rest, name, r)),
                    Err(e) => Err(e),
                },
                _ => Ok(rest),
            },
        }
    }
}

/// The resources that the document of a template defines.
pub open spec fn root_resources(root: Seq<(YamlView, YamlView)>) -> Result<
    ResourceEntries,
    CfnErrorView,
> {
    let found = match crate::yaml::yaml_get(root, "Resources"@) {
        Some(v) => crate::yaml::yaml_entries(v),
        None => None,
    };
    match found {
        Some(rs) => resources_of(rs),
        None => Err(CfnErrorView::ParseError("template must have a Resources section"@)),
    }
}

/// The template that a document holds.
pub open spec fn template_of(root: YamlView) -> Result<TemplateView, CfnErrorView> {
    match crate::yaml::yaml_entries(root) {
        Some(m) => match root_resources(m) {
            Ok(resources) => Ok(
                TemplateView {
                    parameters: parameters_of(section(m, "Parameters"@)),
                    mappings: tables_of(section(m, "Mappings"@)),
                    conditions: conditions_of(section(m, "Conditions"@)),
                    resources,
                },
            ),
            Err(e) => Err(e),
        },
        None => Err(CfnErrorView::ParseError("template root must be a mapping"@)),
    }
}

/// The model of what reading a template gave.
pub open spec fn template_outcome(r: Result<CfnTemplate<Yaml>, CfnError>) -> Result<
    TemplateView,
    CfnErrorView,
> {
    match r {
        Ok(t) => Ok(template_view(t)),
        Err(e) => Err(e@),
    }
}

// ---------------------------------------------------------------------------
// Reading
// ---------------------------------------------------------------------------

/// Reads a `CloudFormation` YAML template from a string.
pub fn parse_template_str(content: &str) -> (r: Result<CfnTemplate<Yaml>, CfnError>)
    ensures
        template_outcome(r) == match crate::yaml::yaml_document(content@) {
            Ok(root) => template_of(root),
            Err(e) => Err(CfnErrorView::Yaml(e)),
        },
{
    match parse_yaml(content) {
        Ok(root) => template_from_yaml(&root),
        Err(e) => Err(CfnError::Yaml(e)),
    }
}

/// Reads a `CloudFormation` template from a YAML document.
pub fn template_from_yaml(root: &Yaml) -> (r: Result<CfnTemplate<Yaml>, CfnError>)
    ensures
        template_outcome(r) == template_of(root@),
{
    let root_map = match root.as_mapping() {
        Some(m) => m,
        None => {
            return Err(CfnError::ParseError("template root must be a mapping".to_owned()));
        },
    };
    let parameters = parse_parameters(root_map);
    let mappings = parse_mappings(root_map);
    let conditions = parse_conditions(root_map);
    match parse_resources(root_map) {
        Ok(resources) => Ok(CfnTemplate { parameters, mappings, conditions, resources }),
        Err(e) => Err(e),
    }
}

/// The entries of a section.
fn section_entries<'a>(root: &'a Vec<(Yaml, Yaml)>, name: &str) -> (r: Option<
    &'a Vec<(Yaml, Yaml)>,
>)
    ensures
        match r {
            Some(m) => section(crate::yaml::entry_views(root@), name@) == crate::yaml::entry_views(
                m@,
            ),
            None => section(crate::yaml::entry_views(root@), name@) == Seq::<
                (YamlView, YamlView),
            >::empty(),
        },
{
    match mapping_get(root, name) {
        Some(v) => match v {
            Yaml::Mapping(m) => {
                assert(v@->Mapping_0 =~= crate::yaml::entry_views(m@));
                Some(m)
            },
            _ => None,
        },
        None => None,
    }
}

/// The text of a string value under `key`.
fn get_string(m: &Vec<(Yaml, Yaml)>, key: &str) -> (r: Option<String>)
    ensures
        opt_text(r) == string_under(crate::yaml::entry_views(m@), key@),
{
    match mapping_get(m, key) {
        Some(v) => match v.as_str() {
            Some(s) => Some(s.to_owned()),
            None => None,
        },
        None => None,
    }
}

/// Reads the definition of a parameter.
fn parse_parameter(def: &Vec<(Yaml, Yaml)>) -> (r: ParameterDef)
    ensures
        r@ == parameter_of(crate::yaml::entry_views(def@)),
{
    let param_type = match get_string(def, "Type") {
        Some(t) => t,
        None => "String".to_owned(),
    };
    let default = match mapping_get(def, "Default") {
        Some(v) => v.scalar(),
        None => None,
    };
    let allowed_values = match mapping_get(def, "AllowedValues") {
        Some(v) => match v.as_sequence() {
            Some(s) => collect_strings(s),
            None => Vec::new(),
        },
        None => Vec::new(),
    };
    let r = ParameterDef { param_type, default, allowed_values };
    assert(r@ =~~= parameter_of(crate::yaml::entry_views(def@)));
    r
}

/// Reads the `Parameters` section.
pub fn parse_parameters(root: &Vec<(Yaml, Yaml)>) -> (r: StrMap<ParameterDef>)
    ensures
        crate::strmap::mapped(r@, |p: ParameterDef| p@) == parameters_of(
            section(crate::yaml::entry_views(root@), "Parameters"@),
        ),
{
    let mut params: StrMap<ParameterDef> = StrMap::new();
    let ghost f = |p: ParameterDef| p@;
    assert(crate::strmap::mapped(params@, f) =~= Seq::empty());
    if let Some(entries) = section_entries(root, "Parameters") {
        let ghost ev = crate::yaml::entry_views(entries@);
        let mut i: usize = 0;
        while i < entries.len()
            invariant
                i <= entries@.len(),
                ev == crate::yaml::entry_views(entries@),
                f == (|p: ParameterDef| p@),
                crate::strmap::mapped(params@, f) == parameters_of(ev.subrange(0, i as int)),
            decreases entries@.len() - i,
        {
            proof {
                let now = ev.subrange(0, i + 1);
                assert(now.drop_last() =~= ev.subrange(0, i as int));
                assert(now.last() == (entries@[i as int].0@, entries@[i as int].1@));
            }
            if let Some(name) = entries[i].0.as_str() {
                if let Some(def) = entries[i].1.as_mapping() {
                    let p = parse_parameter(def);
                    proof {
                        crate::strmap::lemma_inserted_mapped(params@, f, name@, p);
                    }
                    params.insert(name.to_owned(), p);
                }
            }
            i = i + 1;
        }
        assert(ev.subrange(0, i as int) =~= ev);
    }
    params
}

/// Reads the innermost level of a mapping.
fn parse_values(m: &Vec<(Yaml, Yaml)>) -> (r: StrMap<String>)
    ensures
        crate::strmap::text_entries(r@) == values_of(crate::yaml::entry_views(m@)),
{
    let mut out: StrMap<String> = StrMap::new();
    let ghost f = |s: String| s@;
    let ghost ev = crate::yaml::entry_views(m@);
    assert(crate::strmap::mapped(out@, f) =~= Seq::empty());
    let mut i: usize = 0;
    while i < m.len()
        invariant
            i <= m@.len(),
            ev == crate::yaml::entry_views(m@),
            f == (|s: String| s@),
            crate::strmap::mapped(out@, f) == values_of(ev.subrange(0, i as int)),
        decreases m@.len() - i,
    {
        proof {
            let now = ev.subrange(0, i + 1);
            assert(now.drop_last() =~= ev.subrange(0, i as int));
            assert(now.last() == (m@[i as int].0@, m@[i as int].1@));
        }
        if let Some(key) = m[i].0.as_str() {
            if let Some(s) = m[i].1.scalar() {
                proof {
                    crate::strmap::lemma_inserted_mapped(out@, f, key@, s);
                }
                out.insert(key.to_owned(), s);
            }
        }
        i = i + 1;
    }
    assert(ev.subrange(0, i as int) =~= ev);
    out
}

/// Reads the middle level of a mapping.
fn parse_levels(m: &Vec<(Yaml, Yaml)>) -> (r: StrMap<StrMap<String>>)
    ensures
        crate::cfn::intrinsic::level_view(r) == levels_of(crate::yaml::entry_views(m@)),
{
    let mut out: StrMap<StrMap<String>> = StrMap::new();
    let ghost f = |n: StrMap<String>| crate::strmap::text_entries(n@);
    let ghost ev = crate::yaml::entry_views(m@);
    assert(crate::strmap::mapped(out@, f) =~= Seq::empty());
    let mut i: usize = 0;
    while i < m.len()
        invariant
            i <= m@.len(),
            ev == crate::yaml::entry_views(m@),
            f == (|n: StrMap<String>| crate::strmap::text_entries(n@)),
            crate::strmap::mapped(out@, f) == levels_of(ev.subrange(0, i as int)),
        decreases m@.len() - i,
    {
        proof {
            let now = ev.subrange(0, i + 1);
            assert(now.drop_last() =~= ev.subrange(0, i as int));
            assert(now.last() == (m@[i as int].0@, m@[i as int].1@));
        }
        if let Some(key) = m[i].0.as_str() {
            if let Some(n) = m[i].1.as_mapping() {
                let values = parse_values(n);
                proof {
                    crate::strmap::lemma_inserted_mapped(out@, f, key@, values);
                }
                out.insert(key.to_owned(), values);
            }
        }
        i = i + 1;
    }
    assert(ev.subrange(0, i as int) =~= ev);
    out
}

/// Reads the `Mappings` section.
pub fn parse_mappings(root: &Vec<(Yaml, Yaml)>) -> (r: MapTable)
    ensures
        crate::cfn::intrinsic::table_view(r) == tables_of(
            section(crate::yaml::entry_views(root@), "Mappings"@),
        ),
{
    let mut out: MapTable = StrMap::new();
    let ghost f = |n: StrMap<StrMap<String>>| crate::cfn::intrinsic::level_view(n);
    assert(crate::strmap::mapped(out@, f) =~= Seq::empty());
    if let Some(m) = section_entries(root, "Mappings") {
        let ghost ev = crate::yaml::entry_views(m@);
        let mut i: usize = 0;
        while i < m.len()
            invariant
                i <= m@.len(),
                ev == crate::yaml::entry_views(m@),
                f == (|n: StrMap<StrMap<String>>| crate::cfn::intrinsic::level_view(n)),
                crate::strmap::mapped(out@, f) == tables_of(ev.subrange(0, i as int)),
            decreases m@.len() - i,
        {
            proof {
                let now = ev.subrange(0, i + 1);
                assert(now.drop_last() =~= ev.subrange(0, i as int));
                assert(now.last() == (m@[i as int].0@, m@[i as int].1@));
            }
            if let Some(key) = m[i].0.as_str() {
                if let Some(n) = m[i].1.as_mapping() {
                    let levels = parse_levels(n);
                    proof {
                        crate::strmap::lemma_inserted_mapped(out@, f, key@, levels);
                    }
                    out.insert(key.to_owned(), levels);
                }
            }
            i = i + 1;
        }
        assert(ev.subrange(0, i as int) =~= ev);
    }
    out
}

/// Reads the `Conditions` section.
pub fn parse_conditions(root: &Vec<(Yaml, Yaml)>) -> (r: StrMap<Yaml>)
    ensures
        crate::strmap::mapped(r@, |y: Yaml| y@) == conditions_of(
            section(crate::yaml::entry_views(root@), "Conditions"@),
        ),
{
    let mut out: StrMap<Yaml> = StrMap::new();
    let ghost f = |y: Yaml| y@;
    assert(crate::strmap::mapped(out@, f) =~= Seq::empty());
    if let Some(m) = section_entries(root, "Conditions") {
        let ghost ev = crate::yaml::entry_views(m@);
        let mut i: usize = 0;
        while i < m.len()
            invariant
                i <= m@.len(),
                ev == crate::yaml::entry_views(m@),
                f == (|y: Yaml| y@),
                crate::strmap::mapped(out@, f) == conditions_of(ev.subrange(0, i as int)),
            decreases m@.len() - i,
        {
            proof {
                let now = ev.subrange(0, i + 1);
                assert(now.drop_last() =~= ev.subrange(0, i as int));
                assert(now.last() == (m@[i as int].0@, m@[i as int].1@));
            }
            if let Some(key) = m[i].0.as_str() {
                let value = m[i].1.clone();
                proof {
                    crate::strmap::lemma_inserted_mapped(out@, f, key@, value);
                }
                out.insert(key.to_owned(), value);
            }
            i = i + 1;
        }
        assert(ev.subrange(0, i as int) =~= ev);
    }
    out
}

/// Reads the definition of a resource.
fn parse_resource(name: &str, def: &Vec<(Yaml, Yaml)>) -> (r: Result<CfnResource<Yaml>, CfnError>)
    ensures
        match r {
            Ok(x) => resource_of(name@, crate::yaml::entry_views(def@)) == Ok::<
                ResourceView<YamlView>,
                CfnErrorView,
            >(resource_view(x)),
            Err(e) => resource_of(name@, crate::yaml::entry_views(def@)) == Err::<
                ResourceView<YamlView>,
                CfnErrorView,
            >(e@),
        },
{
    let resource_type = match get_string(def, "Type") {
        Some(t) => t,
        None => {
            let mut m = "resource ".to_owned();
            m.append(name);
            m.append(" missing Type");
            return Err(CfnError::ParseError(m));
        },
    };
    let properties = match mapping_get(def, "Properties") {
        Some(v) => v.clone(),
        None => {
            let y = Yaml::Mapping(Vec::new());
            assert(y@->Mapping_0 =~= Seq::empty());
            y
        },
    };
    let condition = get_string(def, "Condition");
    let depends_on = match mapping_get(def, "DependsOn") {
        Some(Yaml::String(s)) => {
            let mut v: Vec<String> = Vec::new();
            v.push(s.clone());
            assert(crate::text::texts(v@) =~= seq![s@]);
            v
        },
        Some(v) => match v {
            Yaml::Sequence(s) => {
                assert(v@->Sequence_0 =~= crate::yaml::yaml_views(s@));
                collect_strings(s)
            },
            _ => Vec::new(),
        },
        None => Vec::new(),
    };
    let r = CfnResource {
        logical_id: name.to_owned(),
        resource_type,
        properties,
        condition,
        depends_on,
    };
    proof {
        let spec_r = resource_of(name@, crate::yaml::entry_views(def@));
        assert(resource_view(r).depends_on =~= spec_r->Ok_0.depends_on);
    }
    Ok(r)
}

/// An error in a prefix of the entries is the error of all of them.
proof fn lemma_resources_error(m: Seq<(YamlView, YamlView)>, i: int)
    requires
        0 <= i <= m.len(),
        resources_of(m.subrange(0, i)) is Err,
    ensures
        resources_of(m) == resources_of(m.subrange(0, i)),
    decreases m.len(),
{
    if i < m.len() {
        assert(m.drop_last().subrange(0, i) =~= m.subrange(0, i));
        lemma_resources_error(m.drop_last(), i);
    } else {
        assert(m.subrange(0, i) =~= m);
    }
}

/// Reads the `Resources` section.
pub fn parse_resources(root: &Vec<(Yaml, Yaml)>) -> (r: Result<
    StrMap<CfnResource<Yaml>>,
    CfnError,
>)
    ensures
        match r {
            Ok(m) => root_resources(crate::yaml::entry_views(root@)) == Ok::<
                ResourceEntries,
                CfnErrorView,
            >(crate::strmap::mapped(m@, |x: CfnResource<Yaml>| resource_view(x))),
            Err(e) => root_resources(crate::yaml::entry_views(root@)) == Err::<
                ResourceEntries,
                CfnErrorView,
            >(e@),
        },
{
    let found = match mapping_get(root, "Resources") {
        Some(v) => v.as_mapping(),
        None => None,
    };
    let m = match found {
        Some(m) => m,
        None => {
            return Err(CfnError::ParseError("template must have a Resources section".to_owned()));
        },
    };
    let mut out: StrMap<CfnResource<Yaml>> = StrMap::new();
    let ghost f = |x: CfnResource<Yaml>| resource_view(x);
    let ghost ev = crate::yaml::entry_views(m@);
    assert(crate::strmap::mapped(out@, f) =~= Seq::empty());
    let mut i: usize = 0;
    while i < m.len()
        invariant
            i <= m@.len(),
            ev == crate::yaml::entry_views(m@),
            root_resources(crate::yaml::entry_views(root@)) == resources_of(ev),
            f == (|x: CfnResource<Yaml>| resource_view(x)),
            resources_of(ev.subrange(0, i as int)) == Ok::<ResourceEntries, CfnErrorView>(
                crate::strmap::mapped(out@, f),
            ),
        decreases m@.len() - i,
    {
        proof {
            let now = ev.subrange(0, i + 1);
            assert(now.drop_last() =~= ev.subrange(0, i as int));
            assert(now.last() == (m@[i as int].0@, m@[i as int].1@));
        }
        if let Some(name) = m[i].0.as_str() {
            if let Some(def) = m[i].1.as_mapping() {
                match parse_resource(name, def) {
                    Ok(x) => {
                        proof {
                            crate::strmap::lemma_inserted_mapped(out@, f, name@, x);
                        }
                        out.insert(name.to_owned(), x);
                    },
                    Err(e) => {
                        proof {
                            lemma_resources_error(ev, i + 1);
                        }
                        return Err(e);
                    },
                }
            }
        }
        i = i + 1;
    }
    assert(ev.subrange(0, i as int) =~= ev);
    Ok(out)
}

// ---------------------------------------------------------------------------
// Conditions
// ---------------------------------------------------------------------------

/// What a condition is evaluated against.
pub struct ConditionView {
    pub params: Seq<(Seq<char>, Seq<char>)>,
    pub mappings: TableView,
}

/// What stands under a key of a mapping lies inside the mapping.
pub proof fn lemma_yaml_get_inside(m: Seq<(YamlView, YamlView)>, key: Seq<char>)
    ensures
        crate::yaml::yaml_get(m, key) is Some ==> exists|i: int|
            0 <= i < m.len() && (#[trigger] m[i]).1 == crate::yaml::yaml_get(m, key)->Some_0,
    decreases m.len(),
{
    if m.len() > 0 {
        if m[0].0 == YamlView::String(key) {
            assert(m[0].1 == crate::yaml::yaml_get(m, key)->Some_0);
        } else {
            let t = m.drop_first();
            lemma_yaml_get_inside(t, key);
            if crate::yaml::yaml_get(t, key) is Some {
                let i = choose|i: int|
                    0 <= i < t.len() && (#[trigger] t[i]).1 == crate::yaml::yaml_get(
                        t,
                        key,
                    )->Some_0;
                assert(m[i + 1].1 == crate::yaml::yaml_get(m, key)->Some_0);
            }
        }
    }
}

/// The value of a parameter, or the error that there is none.
pub open spec fn parameter_value(name: Seq<char>, c: ConditionView) -> Result<
    Seq<char>,
    CfnErrorView,
> {
    match crate::strmap::lookup(c.params, name) {
        Some(s) => Ok(s),
        None => Err(CfnErrorView::ParameterNotFound(name)),
    }
}

/// The text that a value in a condition stands for.
pub open spec fn condition_value(v: YamlView, c: ConditionView) -> Result<Seq<char>, CfnErrorView>
    decreases v, 0int,
{
    match v {
        YamlView::String(s) => Ok(s),
        YamlView::Number(n) => Ok(crate::yaml::number_text(n)),
        YamlView::Bool(b) => Ok(crate::yaml::bool_text(b)),
        YamlView::Tagged(tag, arg) => if tag == "!Ref"@ {
            match crate::yaml::yaml_str(*arg) {
                Some(name) => parameter_value(name, c),
                None => Err(
                    CfnErrorView::IntrinsicError(
                        "!Ref in condition must reference a string name"@,
                    ),
                ),
            }
        } else if tag == "!FindInMap"@ {
            proof {
                crate::yaml::lemma_items_inside(*arg);
                assert(decreases_to!(v => *arg));
            }
            match crate::yaml::yaml_items(*arg) {
                Some(s) => if s.len() == 3 {
                    condition_lookup(s, c)
                } else {
                    Err(
                        CfnErrorView::IntrinsicError(
                            "!FindInMap in condition must have exactly 3 elements"@,
                        ),
                    )
                },
                None => Err(
                    CfnErrorView::IntrinsicError(
                        "!FindInMap in condition must have exactly 3 elements"@,
                    ),
                ),
            }
        } else {
            Err(
                CfnErrorView::IntrinsicError(
                    "unsupported intrinsic "@ + tag + " in condition value"@,
                ),
            )
        },
        YamlView::Mapping(m) => match string_under(m, "Ref"@) {
            Some(name) => parameter_value(name, c),
            None => {
                let found = match crate::yaml::yaml_get(m, "Fn::FindInMap"@) {
                    Some(x) => crate::yaml::yaml_items(x),
                    None => None,
                };
                proof {
                    lemma_yaml_get_inside(m, "Fn::FindInMap"@);
                    if let Some(x) = crate::yaml::yaml_get(m, "Fn::FindInMap"@) {
                        crate::yaml::lemma_items_inside(x);
                    }
                }
                match found {
                    Some(s) => if s.len() == 3 {
                        condition_lookup(s, c)
                    } else {
                        Err(
                            CfnErrorView::IntrinsicError(
                                "unsupported mapping form in condition value"@,
                            ),
                        )
                    },
                    None => Err(
                        CfnErrorView::IntrinsicError(
                            "unsupported mapping form in condition value"@,
                        ),
                    ),
                }
            },
        },
        _ => Err(CfnErrorView::IntrinsicError("unsupported value type in condition"@)),
    }
}

/// The value of the template's mappings under three keys of a condition.
pub open spec fn condition_lookup(s: Seq<YamlView>, c: ConditionView) -> Result<
    Seq<char>,
    CfnErrorView,
>
    decreases s, 1int,
{
    if s.len() != 3 {
        Err(CfnErrorView::IntrinsicError(Seq::empty()))
    } else {
        match condition_value(s[0], c) {
            Err(e) => Err(e),
            Ok(map_name) => match condition_value(s[1], c) {
                Err(e) => Err(e),
                Ok(first_key) => match condition_value(s[2], c) {
                    Err(e) => Err(e),
                    Ok(second_key) => match crate::cfn::intrinsic::table_value(
                        c.mappings,
                        map_name,
                        first_key,
                        second_key,
                    ) {
                        Some(s) => Ok(s),
                        None => Err(
                            CfnErrorView::MappingNotFound { map_name, first_key, second_key },
                        ),
                    },
                },
            },
        }
    }
}

/// Both values of a comparison have a text, and the texts are equal.
pub open spec fn values_equal(s: Seq<YamlView>, c: ConditionView) -> bool {
    s.len() == 2 && condition_value(s[0], c) is Ok && condition_value(s[1], c) is Ok
        && condition_value(s[0], c)->Ok_0 == condition_value(s[1], c)->Ok_0
}

/// Whether a condition holds.
pub open spec fn condition_holds(v: YamlView, c: ConditionView) -> bool
    decreases v,
{
    match v {
        YamlView::Tagged(tag, arg) => {
            proof {
                crate::yaml::lemma_items_inside(*arg);
                assert(decreases_to!(v => *arg));
            }
            match crate::yaml::yaml_items(*arg) {
                Some(s) => if tag == "!Equals"@ {
                    values_equal(s, c)
                } else if tag == "!Not"@ {
                    s.len() == 1 && !condition_holds(s[0], c)
                } else if tag == "!And"@ {
                    all_hold(s, c)
                } else if tag == "!Or"@ {
                    some_holds(s, c)
                } else {
                    false
                },
                None => false,
            }
        },
        YamlView::Mapping(m) => match crate::yaml::yaml_get(m, "Fn::Equals"@) {
            Some(x) => match crate::yaml::yaml_items(x) {
                Some(s) => values_equal(s, c),
                None => false,
            },
            None => false,
        },
        _ => false,
    }
}

/// Every one of the conditions holds.
pub open spec fn all_hold(s: Seq<YamlView>, c: ConditionView) -> bool
    decreases s,
{
    s.len() == 0 || (all_hold(s.drop_last(), c) && condition_holds(s.last(), c))
}

/// At least one of the conditions holds.
pub open spec fn some_holds(s: Seq<YamlView>, c: ConditionView) -> bool
    decreases s,
{
    s.len() > 0 && (some_holds(s.drop_last(), c) || condition_holds(s.last(), c))
}

/// What a condition is evaluated against.
pub struct ConditionContext<'a> {
    pub params: &'a StrMap<String>,
    pub mappings: &'a MapTable,
}

impl<'a> View for ConditionContext<'a> {
    type V = ConditionView;

    open spec fn view(&self) -> ConditionView {
        ConditionView {
            params: crate::strmap::text_entries(self.params@),
            mappings: crate::cfn::intrinsic::table_view(*self.mappings),
        }
    }
}

/// The model of a text or an error.
pub open spec fn text_outcome(r: Result<String, CfnError>) -> Result<Seq<char>, CfnErrorView> {
    match r {
        Ok(s) => Ok(s@),
        Err(e) => Err(e@),
    }
}

/// The value of a parameter, or the error that there is none.
fn lookup_parameter(name: &str, ctx: &ConditionContext) -> (r: Result<String, CfnError>)
    ensures
        text_outcome(r) == parameter_value(name@, ctx@),
{
    match text_get(ctx.params, name) {
        Some(s) => Ok(s.clone()),
        None => Err(CfnError::ParameterNotFound(name.to_owned())),
    }
}

/// The failure of an intrinsic function in a condition.
fn condition_error(message: &str) -> (r: Result<String, CfnError>)
    ensures
        text_outcome(r) == Err::<Seq<char>, CfnErrorView>(CfnErrorView::IntrinsicError(message@)),
{
    Err(CfnError::IntrinsicError(message.to_owned()))
}

/// The value of the template's mappings under three keys of a condition.
fn lookup_in_condition(seq: &Vec<Yaml>, ctx: &ConditionContext) -> (r: Result<String, CfnError>)
    requires
        seq@.len() == 3,
    ensures
        text_outcome(r) == condition_lookup(crate::yaml::yaml_views(seq@), ctx@),
    decreases seq, 1int,
{
    let map_name = match resolve_condition_value(&seq[0], ctx) {
        Ok(s) => s,
        Err(e) => {
            return Err(e);
        },
    };
    let first_key = match resolve_condition_value(&seq[1], ctx) {
        Ok(s) => s,
        Err(e) => {
            return Err(e);
        },
    };
    let second_key = match resolve_condition_value(&seq[2], ctx) {
        Ok(s) => s,
        Err(e) => {
            return Err(e);
        },
    };
    match table_get(ctx.mappings, &map_name, &first_key, &second_key) {
        Some(s) => Ok(s),
        None => Err(CfnError::MappingNotFound { map_name, first_key, second_key }),
    }
}

/// The text that a value in a condition stands for.
pub fn resolve_condition_value(value: &Yaml, ctx: &ConditionContext) -> (r: Result<
    String,
    CfnError,
>)
    ensures
        text_outcome(r) == condition_value(value@, ctx@),
    decreases value, 0int,
{
    match value {
        Yaml::String(s) => Ok(s.clone()),
        Yaml::Number(n) => Ok(n.to_text()),
        Yaml::Bool(b) => Ok(crate::yaml::bool_to_text(*b)),
        Yaml::Tagged(tag, arg) => {
            if text_eq(tag.as_str(), "!Ref") {
                return match arg.as_str() {
                    Some(name) => lookup_parameter(name, ctx),
                    None => condition_error("!Ref in condition must reference a string name"),
                };
            }
            if text_eq(tag.as_str(), "!FindInMap") {
                if let Some(seq) = arg.as_sequence() {
                    if seq.len() == 3 {
                        assert(decreases_to!(value => **arg));
                        return lookup_in_condition(seq, ctx);
                    }
                }
                return condition_error("!FindInMap in condition must have exactly 3 elements");
            }
            let mut m = "unsupported intrinsic ".to_owned();
            m.append(tag.as_str());
            m.append(" in condition value");
            Err(CfnError::IntrinsicError(m))
        },
        Yaml::Mapping(map) => {
            assert(value@->Mapping_0 =~= crate::yaml::entry_views(map@));
            if let Some(name) = get_string(map, "Ref") {
                return lookup_parameter(name.as_str(), ctx);
            }
            if let Some(found) = mapping_get(map, "Fn::FindInMap") {
                if let Some(seq) = found.as_sequence() {
                    if seq.len() == 3 {
                        proof {
                            let i = choose|i: int|
                                0 <= i < map@.len() && (#[trigger] map@[i]).1 == *found;
                            assert(decreases_to!(value => map@[i]));
                            assert(decreases_to!(value => map@[i].1));
                        }
                        return lookup_in_condition(seq, ctx);
                    }
                }
            }
            condition_error("unsupported mapping form in condition value")
        },
        _ => condition_error("unsupported value type in condition"),
    }
}

/// Whether both values of a comparison have a text and the texts are equal.
fn compare_values(seq: &Vec<Yaml>, ctx: &ConditionContext) -> (r: bool)
    ensures
        r == values_equal(crate::yaml::yaml_views(seq@), ctx@),
{
    if seq.len() != 2 {
        return false;
    }
    match (resolve_condition_value(&seq[0], ctx), resolve_condition_value(&seq[1], ctx)) {
        (Ok(a), Ok(b)) => text_eq(a.as_str(), b.as_str()),
        _ => false,
    }
}

/// Whether every one of the conditions holds.
fn evaluate_all(seq: &Vec<Yaml>, ctx: &ConditionContext) -> (r: bool)
    ensures
        r == all_hold(crate::yaml::yaml_views(seq@), ctx@),
    decreases seq,
{
    let ghost sv = crate::yaml::yaml_views(seq@);
    let mut all: bool = true;
    let mut i: usize = 0;
    while i < seq.len()
        invariant
            i <= seq@.len(),
            sv == crate::yaml::yaml_views(seq@),
            all == all_hold(sv.subrange(0, i as int), ctx@),
        decreases seq@.len() - i,
    {
        proof {
            let now = sv.subrange(0, i + 1);
            assert(now.drop_last() =~= sv.subrange(0, i as int));
            assert(now.last() == seq@[i as int]@);
        }
        all = all && evaluate_condition(&seq[i], ctx);
        i = i + 1;
    }
    assert(sv.subrange(0, i as int) =~= sv);
    all
}

/// Whether at least one of the conditions holds.
fn evaluate_any(seq: &Vec<Yaml>, ctx: &ConditionContext) -> (r: bool)
    ensures
        r == some_holds(crate::yaml::yaml_views(seq@), ctx@),
    decreases seq,
{
    let ghost sv = crate::yaml::yaml_views(seq@);
    let mut any: bool = false;
    let mut i: usize = 0;
    while i < seq.len()
        invariant
            i <= seq@.len(),
            sv == crate::yaml::yaml_views(seq@),
            any == some_holds(sv.subrange(0, i as int), ctx@),
        decreases seq@.len() - i,
    {
        proof {
            let now = sv.subrange(0, i + 1);
            assert(now.drop_last() =~= sv.subrange(0, i as int));
            assert(now.last() == seq@[i as int]@);
        }
        any = any || evaluate_condition(&seq[i], ctx);
        i = i + 1;
    }
    assert(sv.subrange(0, i as int) =~= sv);
    any
}

/// Whether a condition holds.
pub fn evaluate_condition(value: &Yaml, ctx: &ConditionContext) -> (r: bool)
    ensures
        r == condition_holds(value@, ctx@),
    decreases value,
{
    match value {
        Yaml::Tagged(tag, arg) => {
            if let Some(seq) = arg.as_sequence() {
                let ghost sv = crate::yaml::yaml_views(seq@);
                assert(decreases_to!(value => **arg));
                if text_eq(tag.as_str(), "!Equals") {
                    return compare_values(seq, ctx);
                }
                if text_eq(tag.as_str(), "!Not") {
                    if seq.len() == 1 {
                        assert(sv[0] == seq@[0]@);
                        return !evaluate_condition(&seq[0], ctx);
                    }
                    return false;
                }
                if text_eq(tag.as_str(), "!And") {
                    return evaluate_all(seq, ctx);
                }
                if text_eq(tag.as_str(), "!Or") {
                    return evaluate_any(seq, ctx);
                }
            }
            false
        },
        Yaml::Mapping(map) => {
            assert(value@->Mapping_0 =~= crate::yaml::entry_views(map@));
            match mapping_get(map, "Fn::Equals") {
                Some(found) => match found.as_sequence() {
                    Some(seq) => compare_values(seq, ctx),
                    None => false,
                },
                None => false,
            }
        },
        _ => false,
    }
}

/// The conditions with what they evaluate to.
pub open spec fn evaluated(
    conditions: Seq<(Seq<char>, YamlView)>,
    c: ConditionView,
) -> Seq<(Seq<char>, bool)> {
    crate::strmap::mapped(conditions, |v: YamlView| condition_holds(v, c))
}

/// Evaluates the conditions of a template.
pub fn evaluate_conditions(
    conditions: &StrMap<Yaml>,
    params: &StrMap<String>,
    mappings: &MapTable,
) -> (r: StrMap<bool>)
    ensures
        r@ == evaluated(
            crate::strmap::mapped(conditions@, |y: Yaml| y@),
            ConditionView {
                params: crate::strmap::text_entries(params@),
                mappings: crate::cfn::intrinsic::table_view(*mappings),
            },
        ),
{
    let ctx = ConditionContext { params, mappings };
    let ghost cv = crate::strmap::mapped(conditions@, |y: Yaml| y@);
    let ghost all = evaluated(cv, ctx@);
    let mut out: StrMap<bool> = StrMap::new();
    let n: usize = conditions.len();
    let mut i: usize = 0;
    while i < n
        invariant
            i <= n == conditions@.len(),
            crate::strmap::keys_rise(conditions@),
            cv == crate::strmap::mapped(conditions@, |y: Yaml| y@),
            all == evaluated(cv, ctx@),
            out@ == all.subrange(0, i as int),
        decreases n - i,
    {
        let value = evaluate_condition(conditions.value_at(i), &ctx);
        let key = conditions.key_at(i).clone();
        proof {
            let s = all.subrange(0, i as int);
            assert forall|j: int| 0 <= j < s.len() implies crate::text::text_lt(
                (#[trigger] s[j]).0,
                key@,
            ) by {
                assert(s[j].0 == conditions@[j].0);
                assert(crate::text::text_lt(conditions@[j].0, conditions@[i as int].0));
            }
            crate::strmap::lemma_inserted_last(s, key@, value);
            assert(all.subrange(0, i + 1) =~= s.push((key@, value)));
        }
        out.insert(key, value);
        i = i + 1;
    }
    assert(all.subrange(0, n as int) =~= all);
    out
}

// ---------------------------------------------------------------------------
// Resolution: models
// ---------------------------------------------------------------------------

/// The value of a parameter: what was supplied, or else its default.
pub open spec fn effective_value(
    name: Seq<char>,
    def: ParameterView,
    supplied: Seq<(Seq<char>, Seq<char>)>,
) -> Option<Seq<char>> {
    match crate::strmap::lookup(supplied, name) {
        Some(v) => Some(v),
        None => def.default,
    }
}

/// The parameters that have a value, with their values.
pub open spec fn effective_parameters(
    ps: ParameterEntries,
    supplied: Seq<(Seq<char>, Seq<char>)>,
) -> Seq<(Seq<char>, Seq<char>)>
    decreases ps.len(),
{
    if ps.len() == 0 {
        Seq::empty()
    } else {
        let rest = effective_parameters(ps.drop_last(), supplied);
        match effective_value(ps.last().0, ps.last().1, supplied) {
            Some(v) => rest.push((ps.last().0, v)),
            None => rest,
        }
    }
}

/// The names of the parameters that have neither a supplied value nor a
/// default.
pub open spec fn missing_parameters(
    ps: ParameterEntries,
    supplied: Seq<(Seq<char>, Seq<char>)>,
) -> Seq<Seq<char>>
    decreases ps.len(),
{
    if ps.len() == 0 {
        Seq::empty()
    } else {
        let rest = missing_parameters(ps.drop_last(), supplied);
        if effective_value(ps.last().0, ps.last().1, supplied) is None {
            rest.push(ps.last().0)
        } else {
            rest
        }
    }
}

/// An error that lenient resolution reports instead of failing.
pub open spec fn controllable(e: CfnErrorView) -> bool {
    e is MissingParameters || e is ParameterNotFound || e is ImportValueNotFound
        || e is MappingNotFound
}

/// The code of the diagnostic for an error.
pub open spec fn diagnostic_code(e: CfnErrorView) -> Seq<char> {
    match e {
        CfnErrorView::MissingParameters(_) => "missing_parameter"@,
        CfnErrorView::ParameterNotFound(_) => "parameter_not_found"@,
        CfnErrorView::ImportValueNotFound(_) => "import_value_not_found"@,
        CfnErrorView::MappingNotFound { .. } => "mapping_not_found"@,
        _ => "cfn_error"@,
    }
}

/// The diagnostic for an error.
pub open spec fn diagnostic_of(e: CfnErrorView, file: Option<Seq<char>>) -> DiagnosticView {
    DiagnosticView {
        source: DiagnosticSource::Cfn,
        code: diagnostic_code(e),
        message: crate::cfn::error::error_message(e),
        file,
    }
}

/// A resource is left out because its condition is known not to hold.
pub open spec fn left_out(condition: Option<Seq<char>>, conditions: Seq<(Seq<char>, bool)>) -> bool {
    condition is Some && crate::strmap::lookup(conditions, condition->Some_0) == Some(false)
}

/// A resource with resolved properties.
pub open spec fn with_properties(r: ResourceView<YamlView>, v: ResolvedView) -> ResourceView<
    ResolvedView,
> {
    ResourceView {
        logical_id: r.logical_id,
        resource_type: r.resource_type,
        properties: v,
        condition: r.condition,
        depends_on: r.depends_on,
    }
}

/// What resolving a template gives: the resolved resources, and what could
/// not be resolved.
#[verifier::ext_equal]
pub struct ResolutionView {
    pub resources: ResolvedEntries,
    pub diagnostics: Seq<DiagnosticView>,
}

/// What resolving resources gives, or the first error that aborts.
pub open spec fn resolve_resources(
    rs: ResourceEntries,
    ctx: ContextView,
    policy: ParsePolicy,
    file: Option<Seq<char>>,
) -> Result<ResolutionView, CfnErrorView>
    decreases rs.len(),
{
    if rs.len() == 0 {
        Ok(ResolutionView { resources: Seq::empty(), diagnostics: Seq::empty() })
    } else {
        match resolve_resources(rs.drop_last(), ctx, policy, file) {
            Err(e) => Err(e),
            Ok(done) => if left_out(rs.last().1.condition, ctx.conditions) {
                Ok(done)
            } else {
                match crate::cfn::intrinsic::resolve_at(rs.last().1.properties, ctx, 0) {
                    Ok(v) => Ok(
                        ResolutionView {
                            resources: done.resources.push(
                                (rs.last().0, with_properties(rs.last().1, v)),
                            ),
                            diagnostics: done.diagnostics,
                        },
                    ),
                    Err(e) => if policy == ParsePolicy::Lenient && controllable(e) {
                        Ok(
                            ResolutionView {
                                resources: done.resources,
                                diagnostics: done.diagnostics.push(diagnostic_of(e, file)),
                            },
                        )
                    } else {
                        Err(e)
                    },
                }
            },
        }
    }
}

/// The context in which the resources of a template are resolved.
pub open spec fn template_context(
    t: TemplateView,
    supplied: Seq<(Seq<char>, Seq<char>)>,
    imports: Seq<(Seq<char>, Seq<char>)>,
) -> ContextView {
    let params = effective_parameters(t.parameters, supplied);
    ContextView {
        parameters: params,
        unbound: missing_parameters(t.parameters, supplied),
        imports,
        mappings: t.mappings,
        conditions: evaluated(t.conditions, ConditionView { params, mappings: t.mappings }),
    }
}

/// What resolving a template gives under a policy.
pub open spec fn resolution(
    t: TemplateView,
    supplied: Seq<(Seq<char>, Seq<char>)>,
    imports: Seq<(Seq<char>, Seq<char>)>,
    policy: ParsePolicy,
    file: Option<Seq<char>>,
) -> Result<ResolutionView, CfnErrorView> {
    let missing = missing_parameters(t.parameters, supplied);
    let error = CfnErrorView::MissingParameters(crate::text::joined(missing, ", "@));
    if missing.len() > 0 && policy == ParsePolicy::Strict {
        Err(error)
    } else {
        match resolve_resources(
            t.resources,
            template_context(t, supplied, imports),
            policy,
            file,
        ) {
            Err(e) => Err(e),
            Ok(done) => Ok(
                ResolutionView {
                    resources: done.resources,
                    diagnostics: if missing.len() > 0 {
                        seq![diagnostic_of(error, file)] + done.diagnostics
                    } else {
                        done.diagnostics
                    },
                },
            ),
        }
    }
}

/// The entries of resolved resources.
pub open spec fn resolved_map(m: StrMap<ResolvedResource>) -> ResolvedEntries {
    crate::strmap::mapped(m@, |r: ResolvedResource| resolved_resource_view(r))
}

/// The text of an optional string slice.
pub open spec fn opt_str(s: Option<&str>) -> Option<Seq<char>> {
    match s {
        Some(x) => Some(x@),
        None => None,
    }
}

/// The model of what resolving a template gave.
pub open spec fn resolution_outcome(
    r: Result<ParseOutcome<StrMap<ResolvedResource>>, CfnError>,
) -> Result<ResolutionView, CfnErrorView> {
    match r {
        Ok(o) => Ok(
            ResolutionView {
                resources: resolved_map(o.value),
                diagnostics: crate::policy::diagnostic_views(o.diagnostics@),
            },
        ),
        Err(e) => Err(e@),
    }
}

// ---------------------------------------------------------------------------
// Resolution
// ---------------------------------------------------------------------------

/// Resolves all intrinsic functions in a template's resource properties,
/// under [`ParsePolicy::Strict`].
pub fn resolve_template(
    template: &CfnTemplate<Yaml>,
    param_values: &StrMap<String>,
    import_values: &StrMap<String>,
) -> (r: Result<StrMap<ResolvedResource>, CfnError>)
    ensures
        match r {
            Ok(m) => resolution(
                template_view(*template),
                crate::strmap::text_entries(param_values@),
                crate::strmap::text_entries(import_values@),
                ParsePolicy::Strict,
                None,
            ) matches Ok(done) && done.resources == resolved_map(m),
            Err(e) => resolution(
                template_view(*template),
                crate::strmap::text_entries(param_values@),
                crate::strmap::text_entries(import_values@),
                ParsePolicy::Strict,
                None,
            ) == Err::<ResolutionView, CfnErrorView>(e@),
        },
{
    match resolve_template_with_policy(
        template,
        param_values,
        import_values,
        ParsePolicy::Strict,
        None,
    ) {
        Ok(o) => Ok(o.value),
        Err(e) => Err(e),
    }
}

/// The parameters that have a value, and the names of those that have none.
fn bind_parameters(
    parameters: &StrMap<ParameterDef>,
    param_values: &StrMap<String>,
) -> (r: (StrMap<String>, Vec<String>))
    ensures
        ({
            let ps = crate::strmap::mapped(parameters@, |p: ParameterDef| p@);
            let supplied = crate::strmap::text_entries(param_values@);
            &&& crate::strmap::text_entries(r.0@) == effective_parameters(ps, supplied)
            &&& crate::text::texts(r.1@) == missing_parameters(ps, supplied)
        }),
{
    let ghost ps = crate::strmap::mapped(parameters@, |p: ParameterDef| p@);
    let ghost supplied = crate::strmap::text_entries(param_values@);
    let ghost f = |s: String| s@;
    let mut effective: StrMap<String> = StrMap::new();
    let mut missing: Vec<String> = Vec::new();
    let n: usize = parameters.len();
    assert(crate::strmap::mapped(effective@, f) =~= Seq::empty());
    assert(crate::text::texts(missing@) =~= Seq::empty());
    let mut i: usize = 0;
    while i < n
        invariant
            i <= n == parameters@.len(),
            crate::strmap::keys_rise(parameters@),
            ps == crate::strmap::mapped(parameters@, |p: ParameterDef| p@),
            supplied == crate::strmap::text_entries(param_values@),
            f == (|s: String| s@),
            crate::strmap::mapped(effective@, f) == effective_parameters(
                ps.subrange(0, i as int),
                supplied,
            ),
            forall|j: int|
                0 <= j < effective@.len() ==> exists|k: int|
                    0 <= k < i && (#[trigger] effective@[j]).0 == (#[trigger] parameters@[k]).0,
            crate::text::texts(missing@) == missing_parameters(ps.subrange(0, i as int), supplied),
        decreases n - i,
    {
        let name = parameters.key_at(i).clone();
        let def = parameters.value_at(i);
        let ghost now = ps.subrange(0, i + 1);
        proof {
            assert(now.drop_last() =~= ps.subrange(0, i as int));
            assert(now.last() == (name@, def@));
        }
        let value: Option<String> = match text_get(param_values, name.as_str()) {
            Some(v) => Some(v.clone()),
            None => match &def.default {
                Some(d) => Some(d.clone()),
                None => None,
            },
        };
        let ghost before = effective@;
        match value {
            Some(v) => {
                proof {
                    let s = crate::strmap::mapped(before, f);
                    assert forall|j: int| 0 <= j < before.len() implies crate::text::text_lt(
                        (#[trigger] before[j]).0,
                        name@,
                    ) by {
                        let k = choose|k: int|
                            0 <= k < i && before[j].0 == (#[trigger] parameters@[k]).0;
                        assert(crate::text::text_lt(parameters@[k].0, parameters@[i as int].0));
                    }
                    crate::strmap::lemma_inserted_last(before, name@, v);
                    assert(crate::strmap::mapped(before.push((name@, v)), f) =~= s.push(
                        (name@, v@),
                    ));
                }
                effective.insert(name, v);
                assert forall|j: int| 0 <= j < effective@.len() implies exists|k: int|
                    0 <= k < i + 1 && (#[trigger] effective@[j]).0 == (
                    #[trigger] parameters@[k]).0 by {
                    if j < before.len() {
                        assert(effective@[j] == before[j]);
                        let k = choose|k: int|
                            0 <= k < i && before[j].0 == (#[trigger] parameters@[k]).0;
                        assert(effective@[j].0 == parameters@[k].0);
                    } else {
                        assert(effective@[j].0 == parameters@[i as int].0);
                    }
                }
            },
            None => {
                let ghost m = missing@;
                missing.push(name);
                assert(crate::text::texts(missing@) =~= crate::text::texts(m).push(name@));
            },
        }
        i = i + 1;
    }
    assert(ps.subrange(0, n as int) =~= ps);
    (effective, missing)
}

/// Whether lenient resolution reports an error instead of failing.
pub fn is_policy_controllable(err: &CfnError) -> (r: bool)
    ensures
        r == controllable(err@),
{
    match err {
        CfnError::MissingParameters(_) => true,
        CfnError::ParameterNotFound(_) => true,
        CfnError::ImportValueNotFound(_) => true,
        CfnError::MappingNotFound { .. } => true,
        _ => false,
    }
}

/// The diagnostic for an error.
pub fn cfn_error_to_diagnostic(err: &CfnError, template_path: Option<&str>) -> (r:
    IacParseDiagnostic)
    ensures
        r@ == diagnostic_of(err@, opt_str(template_path)),
{
    let code = match err {
        CfnError::MissingParameters(_) => "missing_parameter",
        CfnError::ParameterNotFound(_) => "parameter_not_found",
        CfnError::ImportValueNotFound(_) => "import_value_not_found",
        CfnError::MappingNotFound { .. } => "mapping_not_found",
        _ => "cfn_error",
    };
    let d = IacParseDiagnostic::error(DiagnosticSource::Cfn, code, err.message());
    match template_path {
        Some(p) => d.with_location(SourceLocation::file_only(p)),
        None => d,
    }
}

/// An error in a prefix of the resources is the error of all of them.
proof fn lemma_resolve_error(
    rs: ResourceEntries,
    i: int,
    ctx: ContextView,
    policy: ParsePolicy,
    file: Option<Seq<char>>,
)
    requires
        0 <= i <= rs.len(),
        resolve_resources(rs.subrange(0, i), ctx, policy, file) is Err,
    ensures
        resolve_resources(rs, ctx, policy, file) == resolve_resources(
            rs.subrange(0, i),
            ctx,
            policy,
            file,
        ),
    decreases rs.len(),
{
    if i < rs.len() {
        assert(rs.drop_last().subrange(0, i) =~= rs.subrange(0, i));
        lemma_resolve_error(rs.drop_last(), i, ctx, policy, file);
    } else {
        assert(rs.subrange(0, i) =~= rs);
    }
}

/// Copies an optional string.
fn clone_opt(s: &Option<String>) -> (r: Option<String>)
    ensures
        opt_text(r) == opt_text(*s),
{
    match s {
        Some(x) => Some(x.clone()),
        None => None,
    }
}

/// Copies strings.
pub fn clone_texts(v: &Vec<String>) -> (r: Vec<String>)
    ensures
        crate::text::texts(r@) == crate::text::texts(v@),
{
    let mut out: Vec<String> = Vec::new();
    for i in 0..v.len()
        invariant
            crate::text::texts(out@) == crate::text::texts(v@).subrange(0, i as int),
    {
        let ghost before = out@;
        out.push(v[i].clone());
        assert(crate::text::texts(out@) =~= crate::text::texts(before).push(v@[i as int]@));
        assert(crate::text::texts(out@) =~= crate::text::texts(v@).subrange(0, i + 1));
    }
    assert(crate::text::texts(v@).subrange(0, v@.len() as int) =~= crate::text::texts(v@));
    out
}

/// Resolves the resources of a template in a context.
fn resolve_all(
    resources: &StrMap<CfnResource<Yaml>>,
    ctx: &ResolveContext,
    policy: ParsePolicy,
    template_path: Option<&str>,
) -> (r: Result<(StrMap<ResolvedResource>, Vec<IacParseDiagnostic>), CfnError>)
    ensures
        ({
            let rs = crate::strmap::mapped(
                resources@,
                |x: CfnResource<Yaml>| resource_view(x),
            );
            match r {
                Ok((m, ds)) => resolve_resources(rs, ctx@, policy, opt_str(template_path)) == Ok::<
                    ResolutionView,
                    CfnErrorView,
                >(
                    ResolutionView {
                        resources: resolved_map(m),
                        diagnostics: crate::policy::diagnostic_views(ds@),
                    },
                ),
                Err(e) => resolve_resources(rs, ctx@, policy, opt_str(template_path)) == Err::<
                    ResolutionView,
                    CfnErrorView,
                >(e@),
            }
        }),
{
    let ghost rs = crate::strmap::mapped(resources@, |x: CfnResource<Yaml>| resource_view(x));
    let ghost file = opt_str(template_path);
    let ghost f = |x: ResolvedResource| resolved_resource_view(x);
    let mut out: StrMap<ResolvedResource> = StrMap::new();
    let mut diagnostics: Vec<IacParseDiagnostic> = Vec::new();
    let n: usize = resources.len();
    assert(crate::strmap::mapped(out@, f) =~= Seq::empty());
    assert(crate::policy::diagnostic_views(diagnostics@) =~= Seq::empty());
    let mut i: usize = 0;
    while i < n
        invariant
            i <= n == resources@.len(),
            crate::strmap::keys_rise(resources@),
            rs == crate::strmap::mapped(resources@, |x: CfnResource<Yaml>| resource_view(x)),
            file == opt_str(template_path),
            f == (|x: ResolvedResource| resolved_resource_view(x)),
            resolve_resources(rs.subrange(0, i as int), ctx@, policy, file) == Ok::<
                ResolutionView,
                CfnErrorView,
            >(
                ResolutionView {
                    resources: crate::strmap::mapped(out@, f),
                    diagnostics: crate::policy::diagnostic_views(diagnostics@),
                },
            ),
            forall|j: int|
                0 <= j < out@.len() ==> exists|k: int|
                    0 <= k < i && (#[trigger] out@[j]).0 == (#[trigger] resources@[k]).0,
        decreases n - i,
    {
        let id = resources.key_at(i).clone();
        let resource = resources.value_at(i);
        let ghost now = rs.subrange(0, i + 1);
        proof {
            assert(now.drop_last() =~= rs.subrange(0, i as int));
            assert(now.last() == (id@, resource_view(*resource)));
        }
        let skipped: bool = match &resource.condition {
            Some(name) => match ctx.conditions.get(name.as_str()) {
                Some(b) => !*b,
                None => false,
            },
            None => false,
        };
        if !skipped {
            match resolve(&resource.properties, ctx) {
                Ok(properties) => {
                    let x = CfnResource {
                        logical_id: resource.logical_id.clone(),
                        resource_type: resource.resource_type.clone(),
                        properties,
                        condition: clone_opt(&resource.condition),
                        depends_on: clone_texts(&resource.depends_on),
                    };
                    let ghost before = out@;
                    proof {
                        assert forall|j: int| 0 <= j < before.len() implies crate::text::text_lt(
                            (#[trigger] before[j]).0,
                            id@,
                        ) by {
                            let k = choose|k: int|
                                0 <= k < i && before[j].0 == (#[trigger] resources@[k]).0;
                            assert(crate::text::text_lt(resources@[k].0, resources@[i as int].0));
                        }
                        crate::strmap::lemma_inserted_last(before, id@, x);
                        assert(crate::strmap::mapped(before.push((id@, x)), f)
                            =~= crate::strmap::mapped(before, f).push((id@, f(x))));
                    }
                    out.insert(id, x);
                    assert forall|j: int| 0 <= j < out@.len() implies exists|k: int|
                        0 <= k < i + 1 && (#[trigger] out@[j]).0 == (
                        #[trigger] resources@[k]).0 by {
                        if j < before.len() {
                            assert(out@[j] == before[j]);
                            let k = choose|k: int|
                                0 <= k < i && before[j].0 == (#[trigger] resources@[k]).0;
                            assert(out@[j].0 == resources@[k].0);
                        } else {
                            assert(out@[j].0 == resources@[i as int].0);
                        }
                    }
                },
                Err(e) => {
                    let lenient: bool = match policy {
                        ParsePolicy::Lenient => true,
                        ParsePolicy::Strict => false,
                    };
                    if lenient && is_policy_controllable(&e) {
                        // The offending resource is left out: a missing
                        // resource does less harm than a silently wrong one.
                        let d = cfn_error_to_diagnostic(&e, template_path);
                        let ghost before = diagnostics@;
                        diagnostics.push(d);
                        assert(crate::policy::diagnostic_views(diagnostics@)
                            =~= crate::policy::diagnostic_views(before).push(d@));
                    } else {
                        proof {
                            lemma_resolve_error(rs, i + 1, ctx@, policy, file);
                        }
                        return Err(e);
                    }
                },
            }
        }
        i = i + 1;
    }
    assert(rs.subrange(0, n as int) =~= rs);
    Ok((out, diagnostics))
}

/// Resolves all intrinsic functions in a template's resource properties under
/// the given [`ParsePolicy`].
///
/// Under [`ParsePolicy::Lenient`] missing parameters, unknown parameters,
/// unknown imports and unknown mapping keys are reported as diagnostics, and
/// resolution goes on. Every other error aborts.
///
/// `template_path`, when given, is attached to each diagnostic.
pub fn resolve_template_with_policy(
    template: &CfnTemplate<Yaml>,
    param_values: &StrMap<String>,
    import_values: &StrMap<String>,
    policy: ParsePolicy,
    template_path: Option<&str>,
) -> (r: Result<ParseOutcome<StrMap<ResolvedResource>>, CfnError>)
    ensures
        resolution_outcome(r) == resolution(
            template_view(*template),
            crate::strmap::text_entries(param_values@),
            crate::strmap::text_entries(import_values@),
            policy,
            opt_str(template_path),
        ),
        r is Ok ==> r->Ok_0.had_errors == (r->Ok_0.diagnostics@.len() > 0),
{
    let ghost t = template_view(*template);
    let ghost file = opt_str(template_path);
    let (effective, missing) = bind_parameters(&template.parameters, param_values);
    let ghost missing_names = crate::text::texts(missing@);
    let mut diagnostics: Vec<IacParseDiagnostic> = Vec::new();
    assert(crate::policy::diagnostic_views(diagnostics@) =~= Seq::empty());
    if missing.len() > 0 {
        let error = CfnError::MissingParameters(join(&missing, ", "));
        match policy {
            ParsePolicy::Strict => {
                return Err(error);
            },
            ParsePolicy::Lenient => {
                let d = cfn_error_to_diagnostic(&error, template_path);
                diagnostics.push(d);
                assert(crate::policy::diagnostic_views(diagnostics@) =~= seq![d@]);
            },
        }
    }
    let conditions = evaluate_conditions(&template.conditions, &effective, &template.mappings);
    let ctx = ResolveContext {
        parameters: effective,
        unbound: missing,
        imports: clone_text_map(import_values),
        mappings: crate::cfn::intrinsic::clone_table(&template.mappings),
        conditions,
    };
    proof {
        assert(ctx@ == template_context(
            t,
            crate::strmap::text_entries(param_values@),
            crate::strmap::text_entries(import_values@),
        ));
    }
    match resolve_all(&template.resources, &ctx, policy, template_path) {
        Ok((resources, more)) => {
            let mut more = more;
            let ghost before = diagnostics@;
            let ghost added = more@;
            diagnostics.append(&mut more);
            proof {
                assert(crate::policy::diagnostic_views(diagnostics@)
                    =~= crate::policy::diagnostic_views(before)
                    + crate::policy::diagnostic_views(added));
                assert(missing_names.len() == 0 ==> crate::policy::diagnostic_views(diagnostics@)
                    =~= crate::policy::diagnostic_views(added));
            }
            Ok(ParseOutcome::with_diagnostics(resources, diagnostics))
        },
        Err(e) => Err(e),
    }
}

// ---------------------------------------------------------------------------
// Laws
// ---------------------------------------------------------------------------

proof fn lemma_strict_then_lenient(
    rs: ResourceEntries,
    ctx: ContextView,
    file: Option<Seq<char>>,
)
    requires
        resolve_resources(rs, ctx, ParsePolicy::Strict, file) is Ok,
    ensures
        resolve_resources(rs, ctx, ParsePolicy::Lenient, file) == resolve_resources(
            rs,
            ctx,
            ParsePolicy::Strict,
            file,
        ),
        resolve_resources(rs, ctx, ParsePolicy::Strict, file)->Ok_0.diagnostics.len() == 0,
    decreases rs.len(),
{
    if rs.len() > 0 {
        lemma_strict_then_lenient(rs.drop_last(), ctx, file);
    }
}

/// A template that resolves under the strict policy resolves to the same
/// resources under the lenient one, and neither reports anything.
pub proof fn law_policies_agree_on_success(
    t: TemplateView,
    supplied: Seq<(Seq<char>, Seq<char>)>,
    imports: Seq<(Seq<char>, Seq<char>)>,
    file: Option<Seq<char>>,
)
    requires
        resolution(t, supplied, imports, ParsePolicy::Strict, file) is Ok,
    ensures
        resolution(t, supplied, imports, ParsePolicy::Lenient, file) == resolution(
            t,
            supplied,
            imports,
            ParsePolicy::Strict,
            file,
        ),
        resolution(t, supplied, imports, ParsePolicy::Strict, file)->Ok_0.diagnostics.len() == 0,
{
    lemma_strict_then_lenient(t.resources, template_context(t, supplied, imports), file);
}

proof fn lemma_lenient_never_controllable(
    rs: ResourceEntries,
    ctx: ContextView,
    file: Option<Seq<char>>,
)
    ensures
        resolve_resources(rs, ctx, ParsePolicy::Lenient, file) matches Err(e) ==> !controllable(e),
    decreases rs.len(),
{
    if rs.len() > 0 {
        lemma_lenient_never_controllable(rs.drop_last(), ctx, file);
    }
}

/// Under the lenient policy no missing parameter, import or mapping key aborts
/// the resolution.
pub proof fn law_lenient_demotes_controllable_errors(
    t: TemplateView,
    supplied: Seq<(Seq<char>, Seq<char>)>,
    imports: Seq<(Seq<char>, Seq<char>)>,
    file: Option<Seq<char>>,
)
    ensures
        resolution(t, supplied, imports, ParsePolicy::Lenient, file) matches Err(e)
            ==> !controllable(e),
{
    lemma_lenient_never_controllable(t.resources, template_context(t, supplied, imports), file);
}

/// Diagnostics of the first resources are diagnostics of all of them.
proof fn lemma_diagnostic_of_resource(
    rs: ResourceEntries,
    ctx: ContextView,
    file: Option<Seq<char>>,
    k: int,
    e: CfnErrorView,
)
    requires
        0 <= k < rs.len(),
        resolve_resources(rs, ctx, ParsePolicy::Lenient, file) is Ok,
        !left_out(rs[k].1.condition, ctx.conditions),
        crate::cfn::intrinsic::resolve_at(rs[k].1.properties, ctx, 0) == Err::<
            ResolvedView,
            CfnErrorView,
        >(e),
    ensures
        controllable(e),
        resolve_resources(rs, ctx, ParsePolicy::Lenient, file)->Ok_0.diagnostics.contains(
            diagnostic_of(e, file),
        ),
    decreases rs.len(),
{
    let all = resolve_resources(rs, ctx, ParsePolicy::Lenient, file)->Ok_0.diagnostics;
    if k == rs.len() - 1 {
        assert(all[all.len() - 1] == diagnostic_of(e, file));
    } else {
        let rest = rs.drop_last();
        assert(rest[k] == rs[k]);
        lemma_diagnostic_of_resource(rest, ctx, file, k, e);
        let done = resolve_resources(rest, ctx, ParsePolicy::Lenient, file)->Ok_0.diagnostics;
        let j = choose|j: int| 0 <= j < done.len() && done[j] == diagnostic_of(e, file);
        assert(all[j] == diagnostic_of(e, file));
    }
}

/// Under the lenient policy a resource that cannot be resolved is left out, and
/// a diagnostic says why. Among these are the resources that refer to a
/// parameter without a value.
pub proof fn law_lenient_leaves_out_unresolved(
    rs: ResourceEntries,
    ctx: ContextView,
    file: Option<Seq<char>>,
    k: int,
    e: CfnErrorView,
)
    requires
        crate::strmap::keys_rise(rs),
        0 <= k < rs.len(),
        resolve_resources(rs, ctx, ParsePolicy::Lenient, file) is Ok,
        !left_out(rs[k].1.condition, ctx.conditions),
        crate::cfn::intrinsic::resolve_at(rs[k].1.properties, ctx, 0) == Err::<
            ResolvedView,
            CfnErrorView,
        >(e),
    ensures
        ({
            let done = resolve_resources(rs, ctx, ParsePolicy::Lenient, file)->Ok_0;
            &&& forall|i: int|
                0 <= i < done.resources.len() ==> (#[trigger] done.resources[i]).0 != rs[k].0
            &&& done.diagnostics.contains(diagnostic_of(e, file))
        }),
{
    let done = resolve_resources(rs, ctx, ParsePolicy::Lenient, file)->Ok_0;
    lemma_diagnostic_of_resource(rs, ctx, file, k, e);
    assert forall|i: int| 0 <= i < done.resources.len() implies (#[trigger] done.resources[i]).0
        != rs[k].0 by {
        law_resolved_resources_are_declared(rs, ctx, ParsePolicy::Lenient, file, i);
        let x = done.resources[i];
        let j = choose|j: int|
            0 <= j < rs.len() && (#[trigger] rs[j]).0 == x.0
                && crate::cfn::intrinsic::resolve_at(rs[j].1.properties, ctx, 0) == Ok::<
                ResolvedView,
                CfnErrorView,
            >(x.1.properties);
        if x.0 == rs[k].0 {
            crate::text::lemma_text_lt_irreflexive(x.0);
            if j < k {
                assert(crate::text::text_lt(rs[j].0, rs[k].0));
            } else if k < j {
                assert(crate::text::text_lt(rs[k].0, rs[j].0));
            }
        }
    }
}

/// Supplied values take precedence over defaults.
pub proof fn law_supplied_value_wins(
    name: Seq<char>,
    def: ParameterView,
    supplied: Seq<(Seq<char>, Seq<char>)>,
    value: Seq<char>,
)
    requires
        crate::strmap::lookup(supplied, name) == Some(value),
    ensures
        effective_value(name, def, supplied) == Some(value),
{
}

/// Every resolved resource is a resource of the template that its condition
/// does not leave out, under its own logical ID and with its own type.
pub proof fn law_resolved_resources_are_declared(
    rs: ResourceEntries,
    ctx: ContextView,
    policy: ParsePolicy,
    file: Option<Seq<char>>,
    i: int,
)
    requires
        resolve_resources(rs, ctx, policy, file) is Ok,
        0 <= i < resolve_resources(rs, ctx, policy, file)->Ok_0.resources.len(),
    ensures
        exists|k: int|
            0 <= k < rs.len() && ({
                let x = resolve_resources(rs, ctx, policy, file)->Ok_0.resources[i];
                &&& (#[trigger] rs[k]).0 == x.0
                &&& rs[k].1.resource_type == x.1.resource_type
                &&& !left_out(rs[k].1.condition, ctx.conditions)
                &&& crate::cfn::intrinsic::resolve_at(rs[k].1.properties, ctx, 0) == Ok::<
                    ResolvedView,
                    CfnErrorView,
                >(x.1.properties)
            }),
    decreases rs.len(),
{
    if rs.len() > 0 {
        let done = resolve_resources(rs.drop_last(), ctx, policy, file)->Ok_0;
        if i < done.resources.len() {
            law_resolved_resources_are_declared(rs.drop_last(), ctx, policy, file, i);
            let k = choose|k: int|
                0 <= k < rs.drop_last().len() && ({
                    let x = done.resources[i];
                    &&& (#[trigger] rs.drop_last()[k]).0 == x.0
                    &&& rs.drop_last()[k].1.resource_type == x.1.resource_type
                    &&& !left_out(rs.drop_last()[k].1.condition, ctx.conditions)
                    &&& crate::cfn::intrinsic::resolve_at(
                        rs.drop_last()[k].1.properties,
                        ctx,
                        0,
                    ) == Ok::<ResolvedView, CfnErrorView>(x.1.properties)
                });
            assert(rs[k] == rs.drop_last()[k]);
        } else {
            assert(rs[rs.len() - 1] == rs.last());
        }
    }
}

} // verus!
