//! From the text of an input to an architecture.

use vstd::prelude::*;

use crate::arch::Architecture;
use crate::arch::ArchitectureView;
use crate::cfn::error::CfnError;
use crate::cfn::error::CfnErrorView;
use crate::cfn::parser::parse_template_str;
use crate::cfn::parser::resolve_template_with_policy;
use crate::cfn::parser::CfnTemplate;
use crate::cfn::parser::ParameterEntries;
use crate::cfn::parser::ResolvedEntries;
use crate::cfn::parser::ResolvedTemplate;
use crate::cfn::parser::TemplateView;
use crate::engine::error::EngineError;
use crate::engine::error::EngineErrorView;
use crate::engine::input::find_wrangler_config;
use crate::engine::input::DirectoryListing;
use crate::engine::input::ListingView;
use crate::engine::registry::Registries;
use crate::path::extension;
use crate::path::extension_is;
use crate::path::join;
use crate::path::parent;
use crate::path::paths_equal;
use crate::policy::DiagnosticView;
use crate::policy::IacParseDiagnostic;
use crate::policy::ParseOutcome;
use crate::policy::ParsePolicy;
use crate::strmap::StrMap;
use crate::text::ends_with;
use crate::text::starts_with;
use crate::text::text_eq;
use crate::tf::document::StructureView;
use crate::tf::error::TfError;
use crate::tf::error::TfErrorView;
use crate::tf::parser::parse_tf_sources;
use crate::tf::parser::parse_tfvars_str;
use crate::tf::parser::tf_empty;
use crate::tf::parser::tf_insert;
use crate::tf::parser::TfConfigView;
use crate::tf::parser::TfResource;
use crate::tf::parser::TfResourceView;
use crate::tf::parser::TfValue;
use crate::tf::parser::TfView;
use crate::tf::resolver::resolve_config_with_policy;
use crate::tf::resolver::ConfigOutcome;
use crate::tf::resolver::ResolvedConfig;
use crate::tf::resolver::TfEntries;
use crate::wrangler::error::WranglerError;
use crate::yaml::Yaml;
use crate::yaml::YamlView;

verus! {

/// The name of an architecture that is not named.
pub const DEFAULT_ARCHITECTURE_NAME: &'static str = "default";

/// A file and what reading it gave: its text, or why it could not be read.
#[derive(Debug, PartialEq, Eq)]
pub struct SourceText {
    pub path: String,
    pub text: Result<String, String>,
}

/// The model of a [`SourceText`].
pub struct SourceView {
    pub path: Seq<char>,
    pub text: Result<Seq<char>, Seq<char>>,
}

impl View for SourceText {
    type V = SourceView;

    open spec fn view(&self) -> SourceView {
        SourceView {
            path: self.path@,
            text: match self.text {
                Ok(t) => Ok(t@),
                Err(e) => Err(e@),
            },
        }
    }
}

/// The models of a sequence of files.
pub open spec fn source_views(v: Seq<SourceText>) -> Seq<SourceView> {
    v.map_values(|s: SourceText| s@)
}

// ---------------------------------------------------------------------------
// CloudFormation
// ---------------------------------------------------------------------------

/// Values for the parameters of a template, and the values that it imports.
#[derive(Debug, PartialEq, Eq)]
pub struct CfnInputs {
    pub parameters: StrMap<String>,
    pub imports: StrMap<String>,
}

impl CfnInputs {
    /// No values.
    pub fn new() -> (r: Self)
        ensures
            r.parameters@.len() == 0,
            r.imports@.len() == 0,
    {
        CfnInputs { parameters: StrMap::new(), imports: StrMap::new() }
    }
}

/// The model of a resolved template.
#[verifier::ext_equal]
pub struct ResolvedTemplateView {
    pub parameters: ParameterEntries,
    pub mappings: crate::cfn::intrinsic::TableView,
    pub conditions: Seq<(Seq<char>, YamlView)>,
    pub resources: ResolvedEntries,
}

/// The template with its resources resolved.
pub open spec fn with_resources(t: TemplateView, resources: ResolvedEntries) ->
    ResolvedTemplateView {
    ResolvedTemplateView {
        parameters: t.parameters,
        mappings: t.mappings,
        conditions: t.conditions,
        resources,
    }
}

/// The model of a resolved template.
pub open spec fn resolved_template_view(t: ResolvedTemplate) -> ResolvedTemplateView {
    ResolvedTemplateView {
        parameters: crate::strmap::mapped(
            t.parameters@,
            |p: crate::cfn::parser::ParameterDef| p@,
        ),
        mappings: crate::cfn::intrinsic::table_view(t.mappings),
        conditions: crate::strmap::mapped(t.conditions@, |y: Yaml| y@),
        resources: crate::cfn::parser::resolved_map(t.resources),
    }
}

/// What resolving a template gives, and what could not be resolved.
pub open spec fn resolved_template(
    t: TemplateView,
    inputs: CfnInputs,
    policy: ParsePolicy,
    file: Option<Seq<char>>,
) -> Result<(ResolvedTemplateView, Seq<DiagnosticView>), EngineErrorView> {
    match crate::cfn::parser::resolution(
        t,
        crate::strmap::text_entries(inputs.parameters@),
        crate::strmap::text_entries(inputs.imports@),
        policy,
        file,
    ) {
        Err(e) => Err(EngineErrorView::CfnResolve(e)),
        Ok(done) => Ok((with_resources(t, done.resources), done.diagnostics)),
    }
}

/// What reading and resolving a template gives.
pub open spec fn resolved_text(
    content: Seq<char>,
    inputs: CfnInputs,
    policy: ParsePolicy,
    file: Option<Seq<char>>,
) -> Result<(ResolvedTemplateView, Seq<DiagnosticView>), EngineErrorView> {
    match crate::yaml::yaml_document(content) {
        Err(e) => Err(EngineErrorView::CfnParse(CfnErrorView::Yaml(e))),
        Ok(root) => match crate::cfn::parser::template_of(root) {
            Err(e) => Err(EngineErrorView::CfnParse(e)),
            Ok(t) => resolved_template(t, inputs, policy, file),
        },
    }
}

/// What reading and resolving the template of a file gives.
pub open spec fn resolved_file(
    source: SourceView,
    inputs: CfnInputs,
    policy: ParsePolicy,
) -> Result<(ResolvedTemplateView, Seq<DiagnosticView>), EngineErrorView> {
    match source.text {
        Err(e) => Err(EngineErrorView::CfnParse(CfnErrorView::Io(e))),
        Ok(text) => resolved_text(text, inputs, policy, Some(source.path)),
    }
}

/// The model of what resolving a template gave.
pub open spec fn resolved_outcome(r: Result<ParseOutcome<ResolvedTemplate>, EngineError>) -> Result<
    (ResolvedTemplateView, Seq<DiagnosticView>),
    EngineErrorView,
> {
    match r {
        Ok(o) => Ok(
            (
                resolved_template_view(o.value),
                crate::policy::diagnostic_views(o.diagnostics@),
            ),
        ),
        Err(e) => Err(e@),
    }
}

/// The result without its diagnostics.
pub open spec fn value_of<T>(
    r: Result<(T, Seq<DiagnosticView>), EngineErrorView>,
) -> Result<T, EngineErrorView> {
    match r {
        Ok(v) => Ok(v.0),
        Err(e) => Err(e),
    }
}

/// The model of a resolved template or an error.
pub open spec fn template_result(r: Result<ResolvedTemplate, EngineError>) -> Result<
    ResolvedTemplateView,
    EngineErrorView,
> {
    match r {
        Ok(t) => Ok(resolved_template_view(t)),
        Err(e) => Err(e@),
    }
}

/// Resolves a template under a policy.
pub fn resolve_parsed_template_with_policy(
    template: CfnTemplate<Yaml>,
    inputs: &CfnInputs,
    policy: ParsePolicy,
    template_path: Option<&str>,
) -> (r: Result<ParseOutcome<ResolvedTemplate>, EngineError>)
    ensures
        resolved_outcome(r) == resolved_template(
            crate::cfn::parser::template_view(template),
            *inputs,
            policy,
            crate::cfn::parser::opt_str(template_path),
        ),
        r is Ok ==> r->Ok_0.had_errors == (r->Ok_0.diagnostics@.len() > 0),
{
    match resolve_template_with_policy(
        &template,
        &inputs.parameters,
        &inputs.imports,
        policy,
        template_path,
    ) {
        Err(e) => Err(EngineError::CfnResolve(e)),
        Ok(o) => Ok(
            ParseOutcome {
                value: CfnTemplate {
                    parameters: template.parameters,
                    mappings: template.mappings,
                    conditions: template.conditions,
                    resources: o.value,
                },
                diagnostics: o.diagnostics,
                had_errors: o.had_errors,
            },
        ),
    }
}

/// Resolves a template. What cannot be resolved is an error.
pub fn resolve_parsed_template(template: CfnTemplate<Yaml>, inputs: &CfnInputs) -> (r: Result<
    ResolvedTemplate,
    EngineError,
>)
    ensures
        template_result(r) == value_of(
            resolved_template(
                crate::cfn::parser::template_view(template),
                *inputs,
                ParsePolicy::Strict,
                None,
            ),
        ),
{
    match resolve_parsed_template_with_policy(template, inputs, ParsePolicy::Strict, None) {
        Ok(o) => Ok(o.value),
        Err(e) => Err(e),
    }
}

/// Reads and resolves the text of a template under a policy.
pub fn resolve_cfn_template_str_with_policy(
    template_src: &str,
    inputs: &CfnInputs,
    policy: ParsePolicy,
    template_path: Option<&str>,
) -> (r: Result<ParseOutcome<ResolvedTemplate>, EngineError>)
    ensures
        resolved_outcome(r) == resolved_text(
            template_src@,
            *inputs,
            policy,
            crate::cfn::parser::opt_str(template_path),
        ),
        r is Ok ==> r->Ok_0.had_errors == (r->Ok_0.diagnostics@.len() > 0),
{
    match parse_template_str(template_src) {
        Err(e) => Err(EngineError::CfnParse(e)),
        Ok(template) => resolve_parsed_template_with_policy(
            template,
            inputs,
            policy,
            template_path,
        ),
    }
}

/// Reads and resolves the text of a template. What cannot be resolved is an
/// error.
pub fn resolve_cfn_template_str(template_src: &str, inputs: &CfnInputs) -> (r: Result<
    ResolvedTemplate,
    EngineError,
>)
    ensures
        template_result(r) == value_of(
            resolved_text(template_src@, *inputs, ParsePolicy::Strict, None),
        ),
{
    match parse_template_str(template_src) {
        Err(e) => Err(EngineError::CfnParse(e)),
        Ok(template) => resolve_parsed_template(template, inputs),
    }
}

/// Resolves the template of a file under a policy.
pub fn resolve_cfn_template_with_policy(
    source: &SourceText,
    inputs: &CfnInputs,
    policy: ParsePolicy,
) -> (r: Result<ParseOutcome<ResolvedTemplate>, EngineError>)
    ensures
        resolved_outcome(r) == resolved_file(source@, *inputs, policy),
        r is Ok ==> r->Ok_0.had_errors == (r->Ok_0.diagnostics@.len() > 0),
{
    match &source.text {
        Err(e) => Err(EngineError::CfnParse(CfnError::Io(e.clone()))),
        Ok(text) => resolve_cfn_template_str_with_policy(
            text.as_str(),
            inputs,
            policy,
            Some(source.path.as_str()),
        ),
    }
}

/// Resolves the template of a file. What cannot be resolved is an error.
pub fn resolve_cfn_template(source: &SourceText, inputs: &CfnInputs) -> (r: Result<
    ResolvedTemplate,
    EngineError,
>)
    ensures
        template_result(r) == value_of(resolved_file(source@, *inputs, ParsePolicy::Strict)),
{
    match resolve_cfn_template_with_policy(source, inputs, ParsePolicy::Strict) {
        Ok(o) => Ok(o.value),
        Err(e) => Err(e),
    }
}

// ---------------------------------------------------------------------------
// Terraform
// ---------------------------------------------------------------------------

/// The directory of a configuration: the path itself, or the one that holds it.
pub open spec fn config_dir(path: Seq<char>, is_dir: bool) -> Option<Seq<char>> {
    if is_dir {
        Some(path)
    } else {
        crate::path::parent_of(path)
    }
}

/// The directory of the configuration at `path`.
pub fn terraform_config_dir(path: &str, is_dir: bool) -> (r: Result<String, EngineError>)
    ensures
        match r {
            Ok(d) => config_dir(path@, is_dir) == Some(d@),
            Err(e) => config_dir(path@, is_dir) is None && e@ == (EngineErrorView::TfConfigDir {
                path: path@,
            }),
        },
{
    if is_dir {
        return Ok(path.to_owned());
    }
    match parent(path) {
        Some(d) => Ok(d),
        None => Err(EngineError::TfConfigDir { path: path.to_owned() }),
    }
}

/// The names of files whose variables are loaded by themselves, in order.
pub open spec fn auto_names(names: Seq<Seq<char>>) -> Seq<(Seq<char>, ())>
    decreases names.len(),
{
    if names.len() == 0 {
        Seq::empty()
    } else if crate::text::has_suffix(names.last(), ".auto.tfvars"@) {
        crate::strmap::inserted(auto_names(names.drop_last()), names.last(), ())
    } else {
        auto_names(names.drop_last())
    }
}

/// The names of configuration files, in order.
pub open spec fn tf_names(names: Seq<Seq<char>>) -> Seq<(Seq<char>, ())>
    decreases names.len(),
{
    if names.len() == 0 {
        Seq::empty()
    } else if crate::engine::input::is_tf_name(names.last()) {
        crate::strmap::inserted(tf_names(names.drop_last()), names.last(), ())
    } else {
        tf_names(names.drop_last())
    }
}

/// The configuration files of a directory, in the order of their names.
pub fn tf_files(dir: &str, names: &Vec<String>) -> (r: Vec<String>)
    ensures
        crate::text::texts(r@) == tf_names(crate::text::texts(names@)).map_values(
            |e: (Seq<char>, ())| crate::path::joined_path(dir@, e.0),
        ),
{
    let mut found: StrMap<()> = StrMap::new();
    let ghost all = crate::text::texts(names@);
    assert(all.subrange(0, 0) =~= Seq::empty());
    for i in 0..names.len()
        invariant
            all == crate::text::texts(names@),
            found@ == tf_names(all.subrange(0, i as int)),
    {
        proof {
            let now = all.subrange(0, i + 1);
            assert(now.drop_last() =~= all.subrange(0, i as int));
            assert(now.last() == names@[i as int]@);
        }
        if let Some(x) = extension(names[i].as_str()) {
            if text_eq(x.as_str(), "tf") {
                found.insert(names[i].clone(), ());
            }
        }
    }
    assert(all.subrange(0, all.len() as int) =~= all);
    let ghost paths = found@.map_values(
        |e: (Seq<char>, ())| crate::path::joined_path(dir@, e.0),
    );
    let mut out: Vec<String> = Vec::new();
    assert(crate::text::texts(out@) =~= paths.subrange(0, 0));
    let n: usize = found.len();
    for i in 0..n
        invariant
            n == found@.len(),
            paths == found@.map_values(
                |e: (Seq<char>, ())| crate::path::joined_path(dir@, e.0),
            ),
            crate::text::texts(out@) == paths.subrange(0, i as int),
    {
        let ghost before = out@;
        out.push(join(dir, found.key_at(i).as_str()));
        assert(crate::text::texts(out@) =~= crate::text::texts(before).push(paths[i as int]));
        assert(paths.subrange(0, i + 1) =~= paths.subrange(0, i as int).push(paths[i as int]));
    }
    assert(paths.subrange(0, n as int) =~= paths);
    out
}

/// The files of variables of a directory: `terraform.tfvars` first, then those
/// that are loaded by themselves.
pub open spec fn directory_var_files(
    dir: Seq<char>,
    has_default: bool,
    names: Seq<Seq<char>>,
) -> Seq<Seq<char>> {
    (if has_default {
        seq![crate::path::joined_path(dir, "terraform.tfvars"@)]
    } else {
        Seq::empty()
    }) + auto_names(names).map_values(
        |e: (Seq<char>, ())| crate::path::joined_path(dir, e.0),
    )
}

/// The paths that are not the path `p`, in order.
pub open spec fn without_path(paths: Seq<Seq<char>>, p: Seq<char>) -> Seq<Seq<char>>
    decreases paths.len(),
{
    if paths.len() == 0 {
        Seq::empty()
    } else if crate::path::same_path(paths.last(), p) {
        without_path(paths.drop_last(), p)
    } else {
        without_path(paths.drop_last(), p).push(paths.last())
    }
}

/// The files of variables of a configuration, from the one that counts least to
/// the one that counts most: those of its directory, and the one that is the
/// input itself behind all others.
pub open spec fn var_files_of(
    dir: Seq<char>,
    has_default: bool,
    names: Seq<Seq<char>>,
    path: Seq<char>,
    path_is_file: bool,
) -> Seq<Seq<char>> {
    let found = directory_var_files(dir, has_default, names);
    if crate::path::has_extension(path, "tfvars"@) && path_is_file {
        without_path(found, path).push(path)
    } else {
        found
    }
}

/// The files of variables of a configuration, from the one that counts least to
/// the one that counts most.
pub fn tfvars_files(
    dir: &str,
    has_default: bool,
    names: &Vec<String>,
    path: &str,
    path_is_file: bool,
) -> (r: Vec<String>)
    ensures
        crate::text::texts(r@) == var_files_of(
            dir@,
            has_default,
            crate::text::texts(names@),
            path@,
            path_is_file,
        ),
{
    let mut autos: StrMap<()> = StrMap::new();
    let ghost all = crate::text::texts(names@);
    assert(all.subrange(0, 0) =~= Seq::empty());
    for i in 0..names.len()
        invariant
            all == crate::text::texts(names@),
            autos@ == auto_names(all.subrange(0, i as int)),
    {
        proof {
            let now = all.subrange(0, i + 1);
            assert(now.drop_last() =~= all.subrange(0, i as int));
            assert(now.last() == names@[i as int]@);
        }
        if ends_with(names[i].as_str(), ".auto.tfvars") {
            autos.insert(names[i].clone(), ());
        }
    }
    assert(all.subrange(0, all.len() as int) =~= all);
    let ghost found = directory_var_files(dir@, has_default, all);
    let mut out: Vec<String> = Vec::new();
    if has_default {
        out.push(join(dir, "terraform.tfvars"));
    }
    let start: usize = out.len();
    assert(crate::text::texts(out@) =~= found.subrange(0, start as int));
    let n: usize = autos.len();
    for i in 0..n
        invariant
            n == autos@.len(),
            autos@ == auto_names(all),
            found == directory_var_files(dir@, has_default, all),
            found.len() == start + n,
            start == (if has_default {
                1int
            } else {
                0int
            }),
            crate::text::texts(out@) == found.subrange(0, start + i),
    {
        let ghost before = out@;
        out.push(join(dir, autos.key_at(i).as_str()));
        proof {
            assert(crate::text::texts(out@) =~= crate::text::texts(before).push(
                found[start + i],
            ));
            assert(found.subrange(0, start + i + 1) =~= found.subrange(0, start + i).push(
                found[start + i],
            ));
        }
    }
    assert(found.subrange(0, start + n) =~= found);
    if !extension_is(path, "tfvars") || !path_is_file {
        return out;
    }
    let mut ordered: Vec<String> = Vec::new();
    assert(crate::text::texts(ordered@) =~= Seq::empty());
    assert(found.subrange(0, 0) =~= Seq::empty());
    for i in 0..out.len()
        invariant
            crate::text::texts(out@) == found,
            crate::text::texts(ordered@) == without_path(found.subrange(0, i as int), path@),
    {
        let ghost before = ordered@;
        proof {
            let now = found.subrange(0, i + 1);
            assert(now.drop_last() =~= found.subrange(0, i as int));
            assert(now.last() == out@[i as int]@);
        }
        if !paths_equal(out[i].as_str(), path) {
            ordered.push(out[i].clone());
            assert(crate::text::texts(ordered@) =~= crate::text::texts(before).push(
                out@[i as int]@,
            ));
        }
    }
    assert(found.subrange(0, found.len() as int) =~= found);
    let ghost before = ordered@;
    ordered.push(path.to_owned());
    assert(crate::text::texts(ordered@) =~= crate::text::texts(before).push(path@));
    ordered
}

/// The texts of the files before the first that could not be read.
pub open spec fn readable(sources: Seq<SourceView>) -> Seq<Seq<char>>
    decreases sources.len(),
{
    if sources.len() == 0 {
        Seq::empty()
    } else {
        match sources[0].text {
            Ok(t) => seq![t] + readable(sources.drop_first()),
            Err(_) => Seq::empty(),
        }
    }
}

/// Why the first file that could not be read could not.
pub open spec fn first_fault(sources: Seq<SourceView>) -> Option<Seq<char>>
    decreases sources.len(),
{
    if sources.len() == 0 {
        None
    } else {
        match sources[0].text {
            Ok(_) => first_fault(sources.drop_first()),
            Err(e) => Some(e),
        }
    }
}

/// The configuration that the files of a directory hold.
pub open spec fn directory_config(dir: Seq<char>, sources: Seq<SourceView>) -> Result<
    TfConfigView,
    EngineErrorView,
> {
    match crate::tf::parser::config_of(readable(sources)) {
        Err(e) => Err(EngineErrorView::TfParse { path: dir, source: e }),
        Ok(c) => match first_fault(sources) {
            Some(e) => Err(EngineErrorView::TfParse { path: dir, source: TfErrorView::Io(e) }),
            None => Ok(c),
        },
    }
}

/// The values that a file of variables holds.
pub open spec fn file_vars(source: SourceView) -> Result<TfEntries, TfErrorView> {
    match source.text {
        Err(e) => Err(TfErrorView::Io(e)),
        Ok(text) => match crate::tf::document::hcl_document(text) {
            Err(e) => Err(TfErrorView::ParseError(e)),
            Ok(body) => Ok(crate::tf::parser::with_attrs(body, Seq::empty())),
        },
    }
}

/// The values that files of variables hold, where later files count more.
pub open spec fn merged_vars(files: Seq<SourceView>) -> Result<TfEntries, EngineErrorView>
    decreases files.len(),
{
    if files.len() == 0 {
        Ok(Seq::empty())
    } else {
        match merged_vars(files.drop_last()) {
            Err(e) => Err(e),
            Ok(base) => match file_vars(files.last()) {
                Err(e) => Err(
                    EngineErrorView::TfVarsParse { path: files.last().path, source: e },
                ),
                Ok(over) => Ok(crate::tf::resolver::overridden(base, over)),
            },
        }
    }
}

/// Values are supplied only where there are any.
pub open spec fn supplied_vars(vars: TfEntries) -> Option<TfEntries> {
    if vars.len() == 0 {
        None
    } else {
        Some(vars)
    }
}

/// What reading and resolving a configuration gives.
pub open spec fn resolved_config(
    dir: Seq<char>,
    sources: Seq<SourceView>,
    var_files: Seq<SourceView>,
    policy: ParsePolicy,
) -> Result<ConfigOutcome, EngineErrorView> {
    match directory_config(dir, sources) {
        Err(e) => Err(e),
        Ok(config) => match merged_vars(var_files) {
            Err(e) => Err(e),
            Ok(vars) => match crate::tf::resolver::config_resolution(
                config,
                supplied_vars(vars),
                policy,
            ) {
                Err(e) => Err(EngineErrorView::TfResolve(e)),
                Ok(c) => Ok(c),
            },
        },
    }
}

/// The model of what resolving a configuration gave.
pub open spec fn resolved_config_outcome(
    r: Result<ParseOutcome<ResolvedConfig>, EngineError>,
) -> Result<ConfigOutcome, EngineErrorView> {
    match r {
        Ok(o) => Ok(
            ConfigOutcome {
                value: o.value@,
                diagnostics: crate::policy::diagnostic_views(o.diagnostics@),
            },
        ),
        Err(e) => Err(e@),
    }
}

/// The texts of the files before the first that could not be read, and why that
/// one could not.
fn split_readable(sources: &Vec<SourceText>) -> (r: (Vec<String>, Option<String>))
    ensures
        crate::text::texts(r.0@) == readable(source_views(sources@)),
        crate::tf::document::opt_view(r.1) == first_fault(source_views(sources@)),
{
    let ghost all = source_views(sources@);
    let mut out: Vec<String> = Vec::new();
    let mut i: usize = 0;
    assert(all.subrange(0, all.len() as int) =~= all);
    assert(crate::text::texts(out@) + readable(all) =~= readable(all));
    while i < sources.len()
        invariant
            i <= sources@.len(),
            all == source_views(sources@),
            crate::text::texts(out@) + readable(all.subrange(i as int, all.len() as int))
                == readable(all),
            first_fault(all.subrange(i as int, all.len() as int)) == first_fault(all),
        decreases sources@.len() - i,
    {
        let ghost rest = all.subrange(i as int, all.len() as int);
        let ghost before = out@;
        proof {
            assert(rest[0] == sources@[i as int]@);
            assert(rest.drop_first() =~= all.subrange(i + 1, all.len() as int));
        }
        match &sources[i].text {
            Ok(t) => {
                out.push(t.clone());
                proof {
                    let after = readable(all.subrange(i + 1, all.len() as int));
                    assert(crate::text::texts(out@) + after =~= crate::text::texts(before) + (
                    seq![t@] + after));
                }
            },
            Err(e) => {
                assert(crate::text::texts(out@) + Seq::<Seq<char>>::empty() =~= crate::text::texts(
                    out@,
                ));
                return (out, Some(e.clone()));
            },
        }
        i = i + 1;
    }
    assert(all.subrange(i as int, all.len() as int) =~= Seq::empty());
    assert(crate::text::texts(out@) + Seq::<Seq<char>>::empty() =~= crate::text::texts(out@));
    (out, None)
}

/// Stores the entries of `over`.
fn override_vars(base: &mut StrMap<TfValue>, over: StrMap<TfValue>)
    ensures
        crate::tf::parser::tf_entries(final(base)@) == crate::tf::resolver::overridden(
            crate::tf::parser::tf_entries(old(base)@),
            crate::tf::parser::tf_entries(over@),
        ),
{
    let ghost start = crate::tf::parser::tf_entries(base@);
    let ghost all = crate::tf::parser::tf_entries(over@);
    let n: usize = over.len();
    assert(all.subrange(0, 0) =~= Seq::empty());
    for i in 0..n
        invariant
            n == over@.len(),
            all == crate::tf::parser::tf_entries(over@),
            crate::tf::parser::tf_entries(base@) == crate::tf::resolver::overridden(
                start,
                all.subrange(0, i as int),
            ),
    {
        proof {
            let now = all.subrange(0, i + 1);
            assert(now.drop_last() =~= all.subrange(0, i as int));
            assert(now.last() == (over@[i as int].0, over@[i as int].1@));
        }
        tf_insert(base, over.key_at(i).clone(), over.value_at(i).clone());
    }
    assert(all.subrange(0, n as int) =~= all);
}

/// An error among the first files is the error of all of them.
proof fn lemma_first_bad_file(files: Seq<SourceView>, n: int)
    requires
        0 <= n <= files.len(),
        merged_vars(files.subrange(0, n)) is Err,
    ensures
        merged_vars(files) == merged_vars(files.subrange(0, n)),
    decreases files.len() - n,
{
    if n == files.len() {
        assert(files.subrange(0, n) =~= files);
    } else {
        assert(files.subrange(0, n + 1).drop_last() =~= files.subrange(0, n));
        lemma_first_bad_file(files, n + 1);
    }
}

/// The values that files of variables hold, where later files count more.
pub fn merge_tfvars(files: &Vec<SourceText>) -> (r: Result<StrMap<TfValue>, EngineError>)
    ensures
        match r {
            Ok(m) => merged_vars(source_views(files@)) == Ok::<TfEntries, EngineErrorView>(
                crate::tf::parser::tf_entries(m@),
            ),
            Err(e) => merged_vars(source_views(files@)) == Err::<TfEntries, EngineErrorView>(e@),
        },
{
    let mut merged = tf_empty();
    let ghost all = source_views(files@);
    assert(all.subrange(0, 0) =~= Seq::empty());
    for i in 0..files.len()
        invariant
            all == source_views(files@),
            merged_vars(all.subrange(0, i as int)) == Ok::<TfEntries, EngineErrorView>(
                crate::tf::parser::tf_entries(merged@),
            ),
    {
        proof {
            let now = all.subrange(0, i + 1);
            assert(now.drop_last() =~= all.subrange(0, i as int));
            assert(now.last() == files@[i as int]@);
        }
        let read = match &files[i].text {
            Ok(text) => parse_tfvars_str(text.as_str()),
            Err(e) => Err(TfError::Io(e.clone())),
        };
        match read {
            Ok(vars) => {
                override_vars(&mut merged, vars);
            },
            Err(e) => {
                proof {
                    lemma_first_bad_file(all, i + 1);
                }
                return Err(
                    EngineError::TfVarsParse { path: files[i].path.clone(), source: e },
                );
            },
        }
    }
    assert(all.subrange(0, all.len() as int) =~= all);
    Ok(merged)
}

/// Reads and resolves a configuration under a policy: the files of its
/// directory in order, and the files of variables from the one that counts
/// least to the one that counts most.
pub fn resolve_tf_input_with_policy(
    dir: &str,
    sources: &Vec<SourceText>,
    var_files: &Vec<SourceText>,
    policy: ParsePolicy,
) -> (r: Result<ParseOutcome<ResolvedConfig>, EngineError>)
    ensures
        resolved_config_outcome(r) == resolved_config(
            dir@,
            source_views(sources@),
            source_views(var_files@),
            policy,
        ),
        r is Ok ==> r->Ok_0.had_errors == (r->Ok_0.diagnostics@.len() > 0),
{
    let (texts, fault) = split_readable(sources);
    let config = match parse_tf_sources(&texts) {
        Ok(c) => c,
        Err(e) => {
            return Err(EngineError::TfParse { path: dir.to_owned(), source: e });
        },
    };
    if let Some(e) = fault {
        return Err(EngineError::TfParse { path: dir.to_owned(), source: TfError::Io(e) });
    }
    let vars = match merge_tfvars(var_files) {
        Ok(m) => m,
        Err(e) => {
            return Err(e);
        },
    };
    let tfvars = if vars.len() == 0 {
        None
    } else {
        Some(vars)
    };
    match resolve_config_with_policy(config, tfvars, policy) {
        Ok(o) => Ok(o),
        Err(e) => Err(EngineError::TfResolve(e)),
    }
}

/// Reads and resolves a configuration. References that lead nowhere stay.
pub fn resolve_tf_input(
    dir: &str,
    sources: &Vec<SourceText>,
    var_files: &Vec<SourceText>,
) -> (r: Result<ResolvedConfig, EngineError>)
    ensures
        match r {
            Ok(c) => resolved_config(
                dir@,
                source_views(sources@),
                source_views(var_files@),
                ParsePolicy::Lenient,
            ) matches Ok(o) && o.value == c@,
            Err(e) => resolved_config(
                dir@,
                source_views(sources@),
                source_views(var_files@),
                ParsePolicy::Lenient,
            ) == Err::<ConfigOutcome, EngineErrorView>(e@),
        },
{
    match resolve_tf_input_with_policy(dir, sources, var_files, ParsePolicy::Lenient) {
        Ok(o) => Ok(o.value),
        Err(e) => Err(e),
    }
}

/// Whose resources a configuration declares.
#[derive(Debug, Clone, Copy, PartialEq, Eq, Structural)]
pub enum TfProvider {
    Aws,
    Gcp,
    Mixed,
    Unknown,
}

/// Some resource's type starts with `prefix`.
pub open spec fn declares(rs: Seq<TfResourceView>, prefix: Seq<char>) -> bool {
    exists|i: int|
        0 <= i < rs.len() && #[trigger] crate::text::has_prefix(rs[i].resource_type, prefix)
}

/// Whose resources a configuration declares.
pub open spec fn provider_of(rs: Seq<TfResourceView>) -> TfProvider {
    match (declares(rs, "aws_"@), declares(rs, "google_"@)) {
        (true, true) => TfProvider::Mixed,
        (true, false) => TfProvider::Aws,
        (false, true) => TfProvider::Gcp,
        (false, false) => TfProvider::Unknown,
    }
}

/// Whose resources a configuration declares.
pub fn detect_tf_provider(resolved: &ResolvedConfig) -> (r: TfProvider)
    ensures
        r == provider_of(resolved@.resources),
{
    let mut has_aws: bool = false;
    let mut has_gcp: bool = false;
    let ghost rs = resolved@.resources;
    for i in 0..resolved.resources.len()
        invariant
            rs == resolved@.resources,
            has_aws == exists|j: int|
                0 <= j < i && #[trigger] crate::text::has_prefix(rs[j].resource_type, "aws_"@),
            has_gcp == exists|j: int|
                0 <= j < i && #[trigger] crate::text::has_prefix(rs[j].resource_type, "google_"@),
    {
        let t = resolved.resources[i].resource_type.as_str();
        assert(rs[i as int].resource_type == t@);
        if starts_with(t, "aws_") {
            assert(crate::text::has_prefix(rs[i as int].resource_type, "aws_"@));
            has_aws = true;
        }
        if starts_with(t, "google_") {
            assert(crate::text::has_prefix(rs[i as int].resource_type, "google_"@));
            has_gcp = true;
        }
    }
    if has_aws && has_gcp {
        TfProvider::Mixed
    } else if has_aws {
        TfProvider::Aws
    } else if has_gcp {
        TfProvider::Gcp
    } else {
        TfProvider::Unknown
    }
}

// ---------------------------------------------------------------------------
// Wrangler
// ---------------------------------------------------------------------------

/// The path of the configuration that an input stands for: the input itself, or
/// the one in the directory that it is.
pub open spec fn wrangler_path(path: Seq<char>, dir: Option<ListingView>) -> Result<
    Seq<char>,
    EngineErrorView,
> {
    match dir {
        Some(l) => match crate::engine::input::wrangler_config(
            path,
            l.wrangler_toml,
            l.wrangler_jsonc,
        ) {
            Some(p) => Ok(p),
            None => Err(EngineErrorView::WranglerConfigNotFound { path }),
        },
        None => Ok(path),
    }
}

/// The path of the configuration that an input stands for.
pub fn resolve_wrangler_input_path(path: &str, dir: Option<&DirectoryListing>) -> (r: Result<
    String,
    EngineError,
>)
    ensures
        match r {
            Ok(p) => wrangler_path(path@, crate::engine::input::listing_view(dir)) == Ok::<
                Seq<char>,
                EngineErrorView,
            >(p@),
            Err(e) => wrangler_path(path@, crate::engine::input::listing_view(dir)) == Err::<
                Seq<char>,
                EngineErrorView,
            >(e@),
        },
{
    match dir {
        Some(l) => match find_wrangler_config(path, l) {
            Some(p) => Ok(p),
            None => Err(EngineError::WranglerConfigNotFound { path: path.to_owned() }),
        },
        None => Ok(path.to_owned()),
    }
}

// ---------------------------------------------------------------------------
// Architectures
// ---------------------------------------------------------------------------

/// An input, with the files that it consists of.
pub enum InputText {
    /// A template.
    Cfn(SourceText),
    /// The directory of a configuration, its files in order, and the files of
    /// variables from the one that counts least to the one that counts most.
    Tf { dir: String, sources: Vec<SourceText>, var_files: Vec<SourceText> },
    /// What the Wrangler configuration at a path describes, or why it could not
    /// be read.
    Wrangler { path: String, architecture: Result<Architecture, WranglerError> },
}

/// The name of an architecture: the given one, or the default.
pub open spec fn name_or_default(name: Option<Seq<char>>) -> Seq<char> {
    match name {
        Some(n) => n,
        None => DEFAULT_ARCHITECTURE_NAME@,
    }
}

/// The name of a Wrangler architecture: a given name that is not the default
/// replaces its own.
pub open spec fn wrangler_name(own: Seq<char>, name: Option<Seq<char>>) -> Seq<char> {
    match name {
        Some(n) => if n != DEFAULT_ARCHITECTURE_NAME@ {
            n
        } else {
            own
        },
        None => own,
    }
}

/// The architecture that an input describes, and what could not be resolved.
pub open spec fn input_architecture(
    input: InputText,
    template_path: Seq<char>,
    inputs: CfnInputs,
    name: Option<Seq<char>>,
    region: Seq<char>,
    registries: Registries,
    policy: ParsePolicy,
) -> Result<(ArchitectureView, Seq<DiagnosticView>), EngineErrorView> {
    match input {
        InputText::Cfn(source) => match resolved_file(source@, inputs, policy) {
            Err(e) => Err(e),
            Ok(t) => Ok(
                (
                    crate::cfn::convert::architecture_of(
                        name_or_default(name),
                        region,
                        t.0.resources,
                        registries.cfn_adapters,
                    ),
                    t.1,
                ),
            ),
        },
        InputText::Tf { dir, sources, var_files } => match resolved_config(
            dir@,
            source_views(sources@),
            source_views(var_files@),
            policy,
        ) {
            Err(e) => Err(e),
            Ok(c) => if provider_of(c.value.resources) == TfProvider::Unknown {
                Err(EngineErrorView::UnknownTfProvider { path: template_path })
            } else {
                Ok(
                    (
                        crate::tf::convert::architecture_of(
                            name_or_default(name),
                            region,
                            c.value,
                            registries.tf_adapters,
                        ),
                        c.diagnostics,
                    ),
                )
            },
        },
        InputText::Wrangler { path, architecture } => match architecture {
            Err(e) => Err(EngineErrorView::WranglerParse { path: path@, source: e@ }),
            Ok(a) => Ok(
                (
                    ArchitectureView { name: wrangler_name(a@.name, name), ..a@ },
                    Seq::empty(),
                ),
            ),
        },
    }
}

/// The model of what building an architecture gave.
pub open spec fn architecture_outcome(r: Result<ParseOutcome<Architecture>, EngineError>) -> Result<
    (ArchitectureView, Seq<DiagnosticView>),
    EngineErrorView,
> {
    match r {
        Ok(o) => Ok((o.value@, crate::policy::diagnostic_views(o.diagnostics@))),
        Err(e) => Err(e@),
    }
}

/// The name of an architecture: the given one, or the default.
fn given_or_default<'a>(name: Option<&'a str>) -> (r: &'a str)
    ensures
        r@ == name_or_default(crate::cfn::parser::opt_str(name)),
{
    match name {
        Some(n) => n,
        None => DEFAULT_ARCHITECTURE_NAME,
    }
}

/// The architecture that an input describes, under a policy.
///
/// An architecture without a given name is called `default`. A Wrangler
/// configuration names its architecture itself, unless another name than the
/// default is given.
pub fn build_architecture_from_input_with_policy(
    input: InputText,
    template_path: &str,
    cfn_inputs: &CfnInputs,
    architecture_name: Option<&str>,
    region: &str,
    registries: &Registries,
    policy: ParsePolicy,
) -> (r: Result<ParseOutcome<Architecture>, EngineError>)
    ensures
        architecture_outcome(r) == input_architecture(
            input,
            template_path@,
            *cfn_inputs,
            crate::cfn::parser::opt_str(architecture_name),
            region@,
            *registries,
            policy,
        ),
        r is Ok ==> r->Ok_0.had_errors == (r->Ok_0.diagnostics@.len() > 0),
{
    match input {
        InputText::Cfn(source) => match resolve_cfn_template_with_policy(
            &source,
            cfn_inputs,
            policy,
        ) {
            Err(e) => Err(e),
            Ok(o) => {
                let value = crate::cfn::convert::build_architecture(
                    given_or_default(architecture_name),
                    region,
                    &o.value,
                    &registries.cfn_adapters,
                );
                Ok(
                    ParseOutcome { value, diagnostics: o.diagnostics, had_errors: o.had_errors },
                )
            },
        },
        InputText::Tf { dir, sources, var_files } => match resolve_tf_input_with_policy(
            dir.as_str(),
            &sources,
            &var_files,
            policy,
        ) {
            Err(e) => Err(e),
            Ok(o) => {
                if let TfProvider::Unknown = detect_tf_provider(&o.value) {
                    return Err(
                        EngineError::UnknownTfProvider { path: template_path.to_owned() },
                    );
                }
                let value = crate::tf::convert::build_architecture(
                    given_or_default(architecture_name),
                    region,
                    &o.value,
                    &registries.tf_adapters,
                );
                Ok(
                    ParseOutcome { value, diagnostics: o.diagnostics, had_errors: o.had_errors },
                )
            },
        },
        InputText::Wrangler { path, architecture } => match architecture {
            Err(e) => Err(EngineError::WranglerParse { path, source: e }),
            Ok(a) => {
                let Architecture { name, region: own_region, resources, connections } = a;
                let name = match architecture_name {
                    Some(n) => if text_eq(n, DEFAULT_ARCHITECTURE_NAME) {
                        name
                    } else {
                        n.to_owned()
                    },
                    None => name,
                };
                let r = ParseOutcome::ok(
                    Architecture { name, region: own_region, resources, connections },
                );
                assert(crate::policy::diagnostic_views(r.diagnostics@) =~= Seq::empty());
                Ok(r)
            },
        },
    }
}

/// How strictly the formats are read without a policy: a template has to
/// resolve, and the references of a configuration may lead nowhere.
pub open spec fn usual_policy(input: InputText) -> ParsePolicy {
    if input is Cfn {
        ParsePolicy::Strict
    } else {
        ParsePolicy::Lenient
    }
}

/// The architecture that an input describes.
pub fn build_architecture_from_input(
    input: InputText,
    template_path: &str,
    cfn_inputs: &CfnInputs,
    architecture_name: Option<&str>,
    region: &str,
    registries: &Registries,
) -> (r: Result<Architecture, EngineError>)
    ensures
        match r {
            Ok(a) => input_architecture(
                input,
                template_path@,
                *cfn_inputs,
                crate::cfn::parser::opt_str(architecture_name),
                region@,
                *registries,
                usual_policy(input),
            ) matches Ok(v) && v.0 == a@,
            Err(e) => input_architecture(
                input,
                template_path@,
                *cfn_inputs,
                crate::cfn::parser::opt_str(architecture_name),
                region@,
                *registries,
                usual_policy(input),
            ) == Err::<(ArchitectureView, Seq<DiagnosticView>), EngineErrorView>(e@),
        },
{
    let policy = match &input {
        InputText::Cfn(_) => ParsePolicy::Strict,
        _ => ParsePolicy::Lenient,
    };
    match build_architecture_from_input_with_policy(
        input,
        template_path,
        cfn_inputs,
        architecture_name,
        region,
        registries,
        policy,
    ) {
        Ok(o) => Ok(o.value),
        Err(e) => Err(e),
    }
}

// ---------------------------------------------------------------------------
// Laws
// ---------------------------------------------------------------------------

/// The entries of attributes stand in the order of their names.
proof fn lemma_attrs_rise(body: Seq<StructureView>, base: TfEntries)
    requires
        crate::strmap::keys_rise(base),
    ensures
        crate::strmap::keys_rise(crate::tf::parser::with_attrs(body, base)),
    decreases body.len(),
{
    if body.len() > 0 {
        lemma_attrs_rise(body.drop_last(), base);
        if let StructureView::Attribute { key, expr } = body.last() {
            crate::strmap::lemma_inserted_rises(
                crate::tf::parser::with_attrs(body.drop_last(), base),
                key,
                crate::tf::parser::expr_value(expr),
            );
        }
    }
}

/// A value of the last file of variables is the value that counts, and the
/// others are those of the files before.
pub proof fn law_later_file_counts_more(files: Seq<SourceView>, key: Seq<char>)
    requires
        files.len() > 0,
        merged_vars(files) is Ok,
    ensures
        merged_vars(files.drop_last()) is Ok,
        file_vars(files.last()) is Ok,
        crate::strmap::lookup(merged_vars(files)->Ok_0, key) == match crate::strmap::lookup(
            file_vars(files.last())->Ok_0,
            key,
        ) {
            Some(v) => Some(v),
            None => crate::strmap::lookup(merged_vars(files.drop_last())->Ok_0, key),
        },
{
    lemma_attrs_rise(
        crate::tf::document::hcl_document(files.last().text->Ok_0)->Ok_0,
        Seq::empty(),
    );
    crate::tf::resolver::law_supplied_value_wins(
        merged_vars(files.drop_last())->Ok_0,
        file_vars(files.last())->Ok_0,
        key,
    );
}

/// What is left without a path are the other paths, and all of them.
proof fn lemma_without_path(paths: Seq<Seq<char>>, p: Seq<char>)
    ensures
        forall|q: Seq<char>| #[trigger]
            without_path(paths, p).contains(q) <==> paths.contains(q) && !crate::path::same_path(
                q,
                p,
            ),
    decreases paths.len(),
{
    if paths.len() > 0 {
        let rest = paths.drop_last();
        lemma_without_path(rest, p);
        assert forall|q: Seq<char>| #[trigger]
            without_path(paths, p).contains(q) <==> paths.contains(q) && !crate::path::same_path(
                q,
                p,
            ) by {
            let w = without_path(rest, p);
            assert(paths =~= rest.push(paths.last()));
            assert(w.contains(q) <==> rest.contains(q) && !crate::path::same_path(q, p));
            if w.contains(q) {
                let i = choose|i: int| 0 <= i < w.len() && w[i] == q;
                assert(w.push(paths.last())[i] == q);
            }
            if rest.contains(q) {
                let i = choose|i: int| 0 <= i < rest.len() && rest[i] == q;
                assert(paths[i] == q);
            }
            if paths.contains(q) && q != paths.last() {
                let i = choose|i: int| 0 <= i < paths.len() && paths[i] == q;
                assert(rest[i] == q);
            }
            if q == paths.last() {
                assert(paths[paths.len() - 1] == q);
                assert(w.push(q)[w.len() as int] == q);
            }
        }
    }
}

/// An input that is a file of variables is read last, and once; before it come
/// the other files of its directory, and all of them.
pub proof fn law_explicit_var_file_is_read(
    dir: Seq<char>,
    has_default: bool,
    names: Seq<Seq<char>>,
    path: Seq<char>,
)
    requires
        crate::path::has_extension(path, "tfvars"@),
    ensures
        ({
            let files = var_files_of(dir, has_default, names, path, true);
            &&& files.len() > 0
            &&& files.last() == path
            &&& forall|q: Seq<char>| #[trigger]
                files.drop_last().contains(q) <==> directory_var_files(
                    dir,
                    has_default,
                    names,
                ).contains(q) && !crate::path::same_path(q, path)
        }),
{
    let found = directory_var_files(dir, has_default, names);
    lemma_without_path(found, path);
    assert(without_path(found, path).push(path).drop_last() =~= without_path(found, path));
}

/// The values of an input that is a file of variables win over those of every
/// other file.
pub proof fn law_explicit_var_file_wins(
    dir: Seq<char>,
    has_default: bool,
    names: Seq<Seq<char>>,
    path: Seq<char>,
    files: Seq<SourceView>,
    key: Seq<char>,
)
    requires
        crate::path::has_extension(path, "tfvars"@),
        files.map_values(|f: SourceView| f.path) == var_files_of(
            dir,
            has_default,
            names,
            path,
            true,
        ),
        merged_vars(files) is Ok,
    ensures
        files.len() > 0,
        files.last().path == path,
        file_vars(files.last()) is Ok,
        crate::strmap::lookup(file_vars(files.last())->Ok_0, key) matches Some(v)
            ==> crate::strmap::lookup(merged_vars(files)->Ok_0, key) == Some(v),
{
    let paths = files.map_values(|f: SourceView| f.path);
    law_explicit_var_file_is_read(dir, has_default, names, path);
    assert(paths.len() == files.len());
    assert(paths.last() == files.last().path);
    law_later_file_counts_more(files, key);
}

/// The configuration files of a directory are exactly those with the extension
/// of Terraform, each once and in the order of their names.
pub proof fn law_tf_files_are_sorted(names: Seq<Seq<char>>, name: Seq<char>)
    ensures
        crate::strmap::keys_rise(tf_names(names)),
        crate::strmap::lookup(tf_names(names), name) is Some <==> names.contains(name)
            && crate::engine::input::is_tf_name(name),
    decreases names.len(),
{
    if names.len() > 0 {
        let rest = names.drop_last();
        let last = names.last();
        law_tf_files_are_sorted(rest, name);
        assert(names.contains(name) <==> rest.contains(name) || name == last) by {
            if rest.contains(name) {
                let i = choose|i: int| 0 <= i < rest.len() && rest[i] == name;
                assert(names[i] == name);
            }
            if names.contains(name) && name != last {
                let i = choose|i: int| 0 <= i < names.len() && names[i] == name;
                assert(rest[i] == name);
            }
            assert(names[names.len() - 1] == last);
        }
        if crate::engine::input::is_tf_name(last) {
            crate::strmap::lemma_inserted_rises(tf_names(rest), last, ());
            crate::strmap::lemma_lookup_inserted(tf_names(rest), last, (), name);
        }
    }
}

/// Files whose variables are loaded by themselves come in the order of their
/// names.
pub proof fn law_auto_names_rise(names: Seq<Seq<char>>)
    ensures
        crate::strmap::keys_rise(auto_names(names)),
    decreases names.len(),
{
    if names.len() > 0 {
        law_auto_names_rise(names.drop_last());
        crate::strmap::lemma_inserted_rises(auto_names(names.drop_last()), names.last(), ());
    }
}

} // verus!
