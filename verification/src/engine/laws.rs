//! What holds of how inputs are told apart, read and priced.

use vstd::prelude::*;

use crate::arch::ArchitectureView;
use crate::arch::NodeView;
use crate::arch::PerProvider;
use crate::arch::Provider;
use crate::engine::architecture::auto_names;
use crate::engine::architecture::directory_config;
use crate::engine::architecture::directory_var_files;
use crate::engine::architecture::input_architecture;
use crate::engine::architecture::merged_vars;
use crate::engine::architecture::provider_of;
use crate::engine::architecture::resolved_config;
use crate::engine::architecture::resolved_file;
use crate::engine::architecture::source_views;
use crate::engine::architecture::usual_policy;
use crate::engine::architecture::wrangler_path;
use crate::engine::architecture::CfnInputs;
use crate::engine::architecture::InputText;
use crate::engine::architecture::SourceView;
use crate::engine::architecture::TfProvider;
use crate::engine::error::EngineErrorView;
use crate::engine::generate::generated;
use crate::engine::generate::GenerateRequest;
use crate::engine::input::detected_format;
use crate::engine::input::resolved_format;
use crate::engine::input::InputFormat;
use crate::engine::input::ListingView;
use crate::engine::registry::pricing_for;
use crate::engine::registry::Registries;
use crate::path::extension_of;
use crate::path::file_name_of;
use crate::path::parent_of;
use crate::policy::DiagnosticView;
use crate::policy::ParsePolicy;
use crate::service::plugin::PluginHandle;
use crate::service::plugin::ProviderPlugin;
use crate::service::resolver::PriceCatalogResolver;
use crate::tf::error::TfErrorView;
use crate::tf::parser::TfConfigView;
use crate::tf::resolver::ConfigOutcome;
use crate::tf::resolver::TfEntries;

verus! {

// ---------------------------------------------------------------------------
// Paths
// ---------------------------------------------------------------------------

/// The text has no slash.
pub open spec fn no_slash(s: Seq<char>) -> bool {
    forall|i: int| 0 <= i < s.len() ==> #[trigger] s[i] != '/'
}

/// The text has no dot.
pub open spec fn no_dot(s: Seq<char>) -> bool {
    forall|i: int| 0 <= i < s.len() ==> #[trigger] s[i] != '.'
}

/// The text is empty or ends with a slash, so that a name can follow it.
pub open spec fn leads_to_a_name(dir: Seq<char>) -> bool {
    dir.len() == 0 || dir.last() == '/'
}

proof fn lemma_name_start(s: Seq<char>, start: int, e: int)
    requires
        0 <= start <= e <= s.len(),
        start == 0 || s[start - 1] == '/',
        forall|i: int| start <= i < e ==> #[trigger] s[i] != '/',
    ensures
        crate::path::name_start(s, e) == start,
    decreases e,
{
    if e > start {
        lemma_name_start(s, start, e - 1);
    }
}

proof fn lemma_last_dot(s: Seq<char>, at: int, n: int)
    requires
        0 <= at < n <= s.len(),
        s[at] == '.',
        forall|i: int| at < i < n ==> #[trigger] s[i] != '.',
    ensures
        crate::path::last_dot(s, n) == Some(at),
    decreases n,
{
    if n - 1 > at {
        lemma_last_dot(s, at, n - 1);
    }
}

/// A file in a directory has the name that stands behind the last slash, and the
/// extension that stands behind the last dot.
pub proof fn law_names_and_extensions(dir: Seq<char>, stem: Seq<char>, ext: Seq<char>)
    requires
        leads_to_a_name(dir),
        stem.len() > 0,
        no_slash(stem),
        ext.len() > 0,
        no_slash(ext),
        no_dot(ext),
    ensures
        file_name_of(dir + stem + "."@ + ext) == Some(stem + "."@ + ext),
        extension_of(dir + stem + "."@ + ext) == Some(ext),
{
    reveal_strlit(".");
    reveal_strlit("..");
    let name = stem + "."@ + ext;
    let s = dir + stem + "."@ + ext;
    let n = s.len() as int;
    assert(s[n - 1] == ext.last());
    assert(ext[ext.len() - 1] == ext.last());
    assert(crate::path::path_end(s, n) == n);
    assert forall|i: int| dir.len() <= i < n implies #[trigger] s[i] != '/' by {
        let k = i - dir.len();
        if k < stem.len() {
            assert(s[i] == stem[k]);
        } else if k > stem.len() {
            assert(s[i] == ext[k - stem.len() - 1]);
        } else {
            assert(s[i] == "."@[0]);
        }
    }
    if dir.len() > 0 {
        assert(s[dir.len() - 1] == dir.last());
    }
    lemma_name_start(s, dir.len() as int, n);
    assert(crate::path::last_component(s) =~= name);
    assert(name.last() == ext.last());
    assert("."@.last() == '.');
    assert(".."@.last() == '.');
    let m = name.len() as int;
    assert(name[stem.len() as int] == "."@[0]);
    assert forall|i: int| stem.len() < i < m implies #[trigger] name[i] != '.' by {
        assert(name[i] == ext[i - stem.len() - 1]);
    }
    lemma_last_dot(name, stem.len() as int, m);
    assert(name.subrange(stem.len() as int + 1, m) =~= ext);
}

/// The directory of a file is the path without the name and the slash before it,
/// and empty for a name on its own.
pub proof fn law_parents(dir: Seq<char>, name: Seq<char>)
    requires
        name.len() > 0,
        no_slash(name),
        name.last() != '.',
        dir.len() > 0 ==> dir.last() != '/' && dir.last() != '.',
    ensures
        parent_of(name) == Some(Seq::<char>::empty()),
        dir.len() > 0 ==> parent_of(dir + "/"@ + name) == Some(dir),
{
    reveal_strlit("/");
    let n = name.len() as int;
    assert(name[n - 1] == name.last());
    assert(crate::path::path_end(name, n) == n);
    lemma_name_start(name, 0, n);
    assert(name.subrange(0, 0) =~= Seq::empty());
    if dir.len() > 0 {
        let s = dir + "/"@ + name;
        let m = s.len() as int;
        let d = dir.len() as int;
        assert(s[m - 1] == name.last());
        assert(crate::path::path_end(s, m) == m);
        assert(s[d] == "/"@[0]);
        assert forall|i: int| d + 1 <= i < m implies #[trigger] s[i] != '/' by {
            assert(s[i] == name[i - d - 1]);
        }
        lemma_name_start(s, d + 1, m);
        assert(s[d - 1] == dir.last());
        assert(crate::path::path_end(s, d) == d);
        assert(crate::path::path_end(s, d + 1) == d);
        assert(s.subrange(0, d) =~= dir);
    }
}

// ---------------------------------------------------------------------------
// Formats
// ---------------------------------------------------------------------------

/// A file goes by its extension, in any case of its letters: `yaml`, `yml` and
/// `json` are templates, `tf` and `tfvars` configurations of Terraform, and `toml`
/// is one of Wrangler. Any other file is one of Wrangler where its name starts with
/// `wrangler.`, and unknown where it does not.
pub proof fn law_files_go_by_their_extension(dir: Seq<char>, stem: Seq<char>, ext: Seq<char>)
    requires
        leads_to_a_name(dir),
        stem.len() > 0,
        no_slash(stem),
        ext.len() > 0,
        no_slash(ext),
        no_dot(ext),
    ensures
        ({
            let path = dir + stem + "."@ + ext;
            let lower = crate::text::ascii_lowered(ext);
            let found = detected_format(path, None);
            if lower == "yaml"@ || lower == "yml"@ || lower == "json"@ {
                found == Ok::<InputFormat, EngineErrorView>(InputFormat::Cfn)
            } else if lower == "tf"@ || lower == "tfvars"@ {
                found == Ok::<InputFormat, EngineErrorView>(InputFormat::Tf)
            } else if lower == "toml"@ || crate::text::has_prefix(
                crate::text::ascii_lowered(stem + "."@ + ext),
                "wrangler."@,
            ) {
                found == Ok::<InputFormat, EngineErrorView>(InputFormat::Wrangler)
            } else {
                found == Err::<InputFormat, EngineErrorView>(
                    EngineErrorView::UnknownInputFormat { path },
                )
            }
        }),
{
    reveal_strlit("yaml");
    reveal_strlit("yml");
    reveal_strlit("json");
    reveal_strlit("tf");
    reveal_strlit("tfvars");
    reveal_strlit("toml");
    assert("yaml"@.len() == 4);
    assert("yml"@.len() == 3);
    assert("json"@.len() == 4);
    assert("tf"@.len() == 2);
    assert("tfvars"@.len() == 6);
    assert("toml"@.len() == 4);
    assert("yaml"@[0] != "json"@[0]);
    assert("yaml"@[0] != "toml"@[0]);
    assert("json"@[0] != "toml"@[0]);
    law_names_and_extensions(dir, stem, ext);
}

/// A directory with a file `.tf` is one of Terraform, whatever else it holds. One
/// without, of which all entries could be read, is one of Wrangler where it holds a
/// configuration of Wrangler. One that could not be read is an error.
pub proof fn law_directories_go_by_their_files(
    path: Seq<char>,
    l: ListingView,
    i: int,
    stem: Seq<char>,
)
    ensures
        0 <= i < l.names.len() && stem.len() > 0 && no_slash(stem) && l.names[i] == stem + ".tf"@
            ==> detected_format(path, Some(l)) == Ok::<InputFormat, EngineErrorView>(
            InputFormat::Tf,
        ),
        (forall|k: int|
            0 <= k < l.names.len() ==> extension_of(#[trigger] l.names[k]) != Some("tf"@))
            ==> match l.fault {
            Some(e) => detected_format(path, Some(l)) == Err::<InputFormat, EngineErrorView>(
                EngineErrorView::ReadDir { path, source: e },
            ),
            None => if l.wrangler_toml || l.wrangler_jsonc {
                detected_format(path, Some(l)) == Ok::<InputFormat, EngineErrorView>(
                    InputFormat::Wrangler,
                )
            } else {
                detected_format(path, Some(l)) == detected_format(path, None)
            },
        },
{
    if 0 <= i < l.names.len() && stem.len() > 0 && no_slash(stem) && l.names[i] == stem + ".tf"@ {
        reveal_strlit(".tf");
        reveal_strlit(".");
        reveal_strlit("tf");
        law_names_and_extensions(Seq::empty(), stem, "tf"@);
        assert(Seq::<char>::empty() + stem + "."@ + "tf"@ =~= l.names[i]);
        assert(crate::engine::input::is_tf_name(l.names[i]));
    }
    if forall|k: int| 0 <= k < l.names.len() ==> extension_of(#[trigger] l.names[k]) != Some(
        "tf"@,
    ) {
        assert forall|k: int| 0 <= k < l.names.len() implies !#[trigger]
            crate::engine::input::is_tf_name(l.names[k]) by {
            assert(extension_of(l.names[k]) != Some("tf"@));
        }
    }
}

/// The format that is asked for wins over the one that is found.
pub proof fn law_requested_format_wins(
    path: Seq<char>,
    dir: Option<ListingView>,
    requested: Option<InputFormat>,
)
    ensures
        match requested {
            Some(f) => resolved_format(path, dir, requested) == Ok::<InputFormat, EngineErrorView>(f),
            None => resolved_format(path, dir, requested) == detected_format(path, dir),
        },
{
}

/// The Wrangler configuration of a directory is its `wrangler.toml`, or else its
/// `wrangler.jsonc`, and there is an error where it has neither. A file is its own
/// configuration.
pub proof fn law_wrangler_configuration(path: Seq<char>, l: ListingView)
    requires
        path.len() > 0,
        path.last() != '/',
    ensures
        wrangler_path(path, None) == Ok::<Seq<char>, EngineErrorView>(path),
        l.wrangler_toml ==> wrangler_path(path, Some(l)) == Ok::<Seq<char>, EngineErrorView>(
            path + "/wrangler.toml"@,
        ),
        !l.wrangler_toml && l.wrangler_jsonc ==> wrangler_path(path, Some(l)) == Ok::<
            Seq<char>,
            EngineErrorView,
        >(path + "/wrangler.jsonc"@),
        !l.wrangler_toml && !l.wrangler_jsonc ==> wrangler_path(path, Some(l)) == Err::<
            Seq<char>,
            EngineErrorView,
        >(EngineErrorView::WranglerConfigNotFound { path }),
{
    reveal_strlit("/");
    reveal_strlit("wrangler.toml");
    reveal_strlit("/wrangler.toml");
    reveal_strlit("wrangler.jsonc");
    reveal_strlit("/wrangler.jsonc");
    assert(path + "/"@ + "wrangler.toml"@ =~= path + "/wrangler.toml"@);
    assert(path + "/"@ + "wrangler.jsonc"@ =~= path + "/wrangler.jsonc"@);
}

// ---------------------------------------------------------------------------
// Terraform
// ---------------------------------------------------------------------------

proof fn lemma_auto_names(names: Seq<Seq<char>>, name: Seq<char>)
    ensures
        crate::strmap::lookup(auto_names(names), name) is Some <==> names.contains(name)
            && crate::text::has_suffix(name, ".auto.tfvars"@),
    decreases names.len(),
{
    if names.len() > 0 {
        let rest = names.drop_last();
        let last = names.last();
        lemma_auto_names(rest, name);
        assert(names.contains(name) <==> rest.contains(name) || name == last) by {
            if rest.contains(name) {
                let i = choose|i: int| 0 <= i < rest.len() && rest[i] == name;
                assert(names[i] == name);
            }
            if names.contains(name) && name != last {
                let i = choose|i: int| 0 <= i < names.len() && names[i] == name;
                assert(rest[i] == name);
            }
            assert(names[names.len() - 1] == last);
        }
        if crate::text::has_suffix(last, ".auto.tfvars"@) {
            crate::strmap::lemma_lookup_inserted(auto_names(rest), last, (), name);
        }
    }
}

/// A directory's file of variables is read first, and each file whose name ends with
/// `.auto.tfvars` is read behind it; no other file of variables is.
pub proof fn law_directory_var_files(
    dir: Seq<char>,
    has_default: bool,
    names: Seq<Seq<char>>,
    name: Seq<char>,
)
    requires
        dir.len() > 0,
        dir.last() != '/',
    ensures
        ({
            let files = directory_var_files(dir, has_default, names);
            let path = dir + "/"@ + name;
            &&& has_default ==> files.len() > 0 && files[0] == dir + "/terraform.tfvars"@
            &&& names.contains(name) && crate::text::has_suffix(name, ".auto.tfvars"@)
                ==> files.contains(path)
            &&& files.contains(path) ==> name == "terraform.tfvars"@ && has_default || (
            names.contains(name) && crate::text::has_suffix(name, ".auto.tfvars"@))
        }),
{
    reveal_strlit("/");
    reveal_strlit("terraform.tfvars");
    reveal_strlit("/terraform.tfvars");
    let files = directory_var_files(dir, has_default, names);
    let autos = auto_names(names);
    let path = dir + "/"@ + name;
    assert(dir + "/"@ + "terraform.tfvars"@ =~= dir + "/terraform.tfvars"@);
    lemma_auto_names(names, name);
    crate::strmap::lemma_lookup(autos, name);
    let start = if has_default {
        1int
    } else {
        0int
    };
    if names.contains(name) && crate::text::has_suffix(name, ".auto.tfvars"@) {
        let k = choose|k: int| 0 <= k < autos.len() && (#[trigger] autos[k]).0 == name;
        assert(files[start + k] == path);
    }
    if files.contains(path) {
        let i = choose|i: int| 0 <= i < files.len() && files[i] == path;
        if i >= start {
            let other = autos[i - start].0;
            assert(dir + "/"@ + other == path);
            assert(path.subrange(dir.len() as int + 1, path.len() as int) =~= name);
            assert((dir + "/"@ + other).subrange(dir.len() as int + 1, path.len() as int) =~= other);
            assert(autos[i - start].0 == name);
        } else {
            assert(dir + "/"@ + "terraform.tfvars"@ == path);
            assert(path.subrange(dir.len() as int + 1, path.len() as int) =~= name);
            assert((dir + "/"@ + "terraform.tfvars"@).subrange(dir.len() as int + 1, path.len() as int)
                =~= "terraform.tfvars"@);
        }
    }
}

proof fn lemma_readable(sources: Seq<SourceView>, texts: Seq<Seq<char>>)
    requires
        sources.len() == texts.len(),
        forall|i: int|
            0 <= i < sources.len() ==> (#[trigger] sources[i]).text == Ok::<Seq<char>, Seq<char>>(
                texts[i],
            ),
    ensures
        crate::engine::architecture::readable(sources) == texts,
        crate::engine::architecture::first_fault(sources) is None,
    decreases sources.len(),
{
    if sources.len() > 0 {
        let s = sources.drop_first();
        let t = texts.drop_first();
        assert forall|i: int| 0 <= i < s.len() implies (#[trigger] s[i]).text == Ok::<
            Seq<char>,
            Seq<char>,
        >(t[i]) by {
            assert(s[i] == sources[i + 1]);
        }
        lemma_readable(s, t);
        assert(sources[0].text == Ok::<Seq<char>, Seq<char>>(texts[0]));
        assert(seq![texts[0]] + t =~= texts);
    } else {
        assert(texts =~= Seq::empty());
    }
}

proof fn lemma_unreadable(sources: Seq<SourceView>, i: int)
    requires
        0 <= i < sources.len(),
        sources[i].text is Err,
    ensures
        crate::engine::architecture::first_fault(sources) is Some,
    decreases sources.len(),
{
    if sources[0].text is Ok {
        assert(sources.drop_first()[i - 1] == sources[i]);
        lemma_unreadable(sources.drop_first(), i - 1);
    }
}

/// A directory whose files can all be read holds the configuration of their texts
/// together. One file that cannot be read is an error of the directory.
pub proof fn law_directory_configuration(
    dir: Seq<char>,
    sources: Seq<SourceView>,
    texts: Seq<Seq<char>>,
    i: int,
)
    ensures
        sources.len() == texts.len() && (forall|k: int|
            0 <= k < sources.len() ==> (#[trigger] sources[k]).text == Ok::<Seq<char>, Seq<char>>(
                texts[k],
            )) ==> directory_config(dir, sources) == match crate::tf::parser::config_of(texts) {
            Ok(c) => Ok::<TfConfigView, EngineErrorView>(c),
            Err(e) => Err(EngineErrorView::TfParse { path: dir, source: e }),
        },
        0 <= i < sources.len() && sources[i].text is Err ==> directory_config(dir, sources) is Err,
{
    if sources.len() == texts.len() && (forall|k: int|
        0 <= k < sources.len() ==> (#[trigger] sources[k]).text == Ok::<Seq<char>, Seq<char>>(
            texts[k],
        )) {
        lemma_readable(sources, texts);
    }
    if 0 <= i < sources.len() && sources[i].text is Err {
        lemma_unreadable(sources, i);
    }
}

/// A file of variables that cannot be read, where those before it can, is an error
/// that names the file and the cause.
pub proof fn law_unreadable_var_file(files: Seq<SourceView>, source: SourceView, cause: Seq<char>)
    requires
        merged_vars(files) is Ok,
        source.text == Err::<Seq<char>, Seq<char>>(cause),
    ensures
        merged_vars(files.push(source)) == Err::<TfEntries, EngineErrorView>(
            EngineErrorView::TfVarsParse { path: source.path, source: TfErrorView::Io(cause) },
        ),
{
    let all = files.push(source);
    assert(all.drop_last() =~= files);
    assert(all.last() == source);
}

/// The directory of a configuration is the one that is given, or the one that a file
/// stands in.
pub proof fn law_configuration_directory(dir: Seq<char>, name: Seq<char>)
    requires
        name.len() > 0,
        no_slash(name),
        name.last() != '.',
        dir.len() > 0,
        dir.last() != '/' && dir.last() != '.',
    ensures
        crate::engine::architecture::config_dir(dir, true) == Some(dir),
        crate::engine::architecture::config_dir(dir + "/"@ + name, false) == Some(dir),
        crate::engine::architecture::config_dir(name, false) == Some(Seq::<char>::empty()),
{
    law_parents(dir, name);
}

/// A configuration is resolved with the values of its files of variables, where they
/// hold any. What cannot be resolved is an error of the input.
pub proof fn law_variables_are_supplied(
    dir: Seq<char>,
    sources: Seq<SourceView>,
    var_files: Seq<SourceView>,
    policy: ParsePolicy,
    c: TfConfigView,
    vars: TfEntries,
)
    requires
        directory_config(dir, sources) == Ok::<TfConfigView, EngineErrorView>(c),
        merged_vars(var_files) == Ok::<TfEntries, EngineErrorView>(vars),
    ensures
        ({
            let supplied = if vars.len() > 0 {
                Some(vars)
            } else {
                None
            };
            match (
                crate::tf::resolver::config_resolution(c, supplied, policy),
                resolved_config(dir, sources, var_files, policy),
            ) {
                (Ok(a), Ok(b)) => a == b,
                (Err(e), Err(f)) => f == EngineErrorView::TfResolve(e),
                _ => false,
            }
        }),
{
}

/// Whose resources a configuration declares goes by the prefixes of their types:
/// `aws_` and `google_`.
pub proof fn law_provider_goes_by_prefix(
    rs: Seq<crate::tf::parser::TfResourceView>,
    i: int,
    j: int,
)
    ensures
        0 <= i < rs.len() && crate::text::has_prefix(rs[i].resource_type, "aws_"@) ==> provider_of(
            rs,
        ) == TfProvider::Aws || provider_of(rs) == TfProvider::Mixed,
        0 <= j < rs.len() && crate::text::has_prefix(rs[j].resource_type, "google_"@)
            ==> provider_of(rs) == TfProvider::Gcp || provider_of(rs) == TfProvider::Mixed,
        (forall|k: int|
            0 <= k < rs.len() ==> !crate::text::has_prefix(
                #[trigger] rs[k].resource_type,
                "aws_"@,
            )) ==> provider_of(rs) == TfProvider::Gcp || provider_of(rs) == TfProvider::Unknown,
        (forall|k: int|
            0 <= k < rs.len() ==> !crate::text::has_prefix(
                #[trigger] rs[k].resource_type,
                "google_"@,
            )) ==> provider_of(rs) == TfProvider::Aws || provider_of(rs) == TfProvider::Unknown,
{
}

// ---------------------------------------------------------------------------
// Architectures
// ---------------------------------------------------------------------------

/// A template describes the architecture of its resolved resources, under the given
/// name or else `default`. Its errors are errors of the input.
pub proof fn law_template_input(
    input: InputText,
    source: crate::engine::architecture::SourceText,
    path: Seq<char>,
    inputs: CfnInputs,
    name: Option<Seq<char>>,
    region: Seq<char>,
    registries: Registries,
    policy: ParsePolicy,
)
    requires
        input == InputText::Cfn(source),
    ensures
        match (
            resolved_file(source@, inputs, policy),
            input_architecture(input, path, inputs, name, region, registries, policy),
        ) {
            (Ok(t), Ok(r)) => r.1 == t.1 && r.0.region == region && r.0.name == (
            if name is Some {
                name->Some_0
            } else {
                "default"@
            }) && r.0 == crate::cfn::convert::architecture_of(
                r.0.name,
                region,
                t.0.resources,
                registries.cfn_adapters,
            ),
            (Err(e), Err(f)) => e == f,
            _ => false,
        },
        usual_policy(input) == ParsePolicy::Strict,
{
}

/// A configuration of Terraform describes the architecture of its resolved
/// resources, under the given name or else `default`. Where no resource is one of
/// AWS or Google, the provider is unknown.
pub proof fn law_configuration_input(
    input: InputText,
    path: Seq<char>,
    inputs: CfnInputs,
    name: Option<Seq<char>>,
    region: Seq<char>,
    registries: Registries,
    policy: ParsePolicy,
)
    requires
        input is Tf,
    ensures
        match (
            resolved_config(
                input->dir@,
                source_views(input->sources@),
                source_views(input->var_files@),
                policy,
            ),
            input_architecture(input, path, inputs, name, region, registries, policy),
        ) {
            (Ok(c), Ok(r)) => {
                &&& exists|k: int|
                    0 <= k < c.value.resources.len() && (crate::text::has_prefix(
                        (#[trigger] c.value.resources[k]).resource_type,
                        "aws_"@,
                    ) || crate::text::has_prefix(c.value.resources[k].resource_type, "google_"@))
                &&& r.1 == c.diagnostics
                &&& r.0.region == region
                &&& r.0.name == (if name is Some {
                    name->Some_0
                } else {
                    "default"@
                })
                &&& r.0 == crate::tf::convert::architecture_of(
                    r.0.name,
                    region,
                    c.value,
                    registries.tf_adapters,
                )
            },
            (Ok(c), Err(e)) => {
                &&& e == (EngineErrorView::UnknownTfProvider { path })
                &&& forall|k: int|
                    0 <= k < c.value.resources.len() ==> !crate::text::has_prefix(
                        (#[trigger] c.value.resources[k]).resource_type,
                        "aws_"@,
                    ) && !crate::text::has_prefix(c.value.resources[k].resource_type, "google_"@)
            },
            (Err(e), Err(f)) => e == f,
            (Err(_), Ok(_)) => false,
        },
        usual_policy(input) == ParsePolicy::Lenient,
{
    if let Ok(c) = resolved_config(
        input->dir@,
        source_views(input->sources@),
        source_views(input->var_files@),
        policy,
    ) {
        let rs = c.value.resources;
        assert forall|k: int| 0 <= k < rs.len() implies (crate::text::has_prefix(
            (#[trigger] rs[k]).resource_type,
            "aws_"@,
        ) ==> crate::engine::architecture::declares(rs, "aws_"@)) && (crate::text::has_prefix(
            rs[k].resource_type,
            "google_"@,
        ) ==> crate::engine::architecture::declares(rs, "google_"@)) by {}
    }
}

/// A Wrangler configuration describes its own architecture, which takes a given name
/// other than `default`. One that could not be read is an error that names its path.
pub proof fn law_wrangler_input(
    input: InputText,
    path: Seq<char>,
    inputs: CfnInputs,
    name: Option<Seq<char>>,
    region: Seq<char>,
    registries: Registries,
    policy: ParsePolicy,
)
    requires
        input is Wrangler,
    ensures
        match (
            input->Wrangler_architecture,
            input_architecture(input, path, inputs, name, region, registries, policy),
        ) {
            (Ok(a), Ok(r)) => {
                &&& r.1.len() == 0
                &&& r.0.resources == a@.resources
                &&& r.0.connections == a@.connections
                &&& r.0.region == a@.region
                &&& name is None || name == Some("default"@) ==> r.0.name == a@.name
                &&& name is Some && name != Some("default"@) ==> r.0.name == name->Some_0
            },
            (Err(e), Err(f)) => f == (EngineErrorView::WranglerParse {
                path: input->Wrangler_path@,
                source: e@,
            }),
            _ => false,
        },
{
}

// ---------------------------------------------------------------------------
// Prices
// ---------------------------------------------------------------------------

proof fn lemma_brought_prices(
    plugins: Seq<PluginHandle>,
    provider: Provider,
    region: Seq<char>,
    list_price: bool,
    i: int,
)
    requires
        0 <= i < plugins.len(),
        plugins[i].brings() == provider,
        forall|k: int| i < k < plugins.len() ==> (#[trigger] plugins[k]).brings() != provider,
    ensures
        crate::engine::registry::brought_prices(plugins, provider, region, list_price) == Some(
            plugins[i].prices(region, list_price),
        ),
    decreases plugins.len(),
{
    if i < plugins.len() - 1 {
        assert(plugins[plugins.len() - 1] == plugins.last());
        let rest = plugins.drop_last();
        assert forall|k: int| i < k < rest.len() implies (#[trigger] rest[k]).brings()
            != provider by {
            assert(rest[k] == plugins[k]);
        }
        assert(rest[i] == plugins[i]);
        lemma_brought_prices(rest, provider, region, list_price, i);
    }
}

proof fn lemma_no_brought_prices(
    plugins: Seq<PluginHandle>,
    provider: Provider,
    region: Seq<char>,
    list_price: bool,
)
    requires
        forall|k: int| 0 <= k < plugins.len() ==> (#[trigger] plugins[k]).brings() != provider,
    ensures
        crate::engine::registry::brought_prices(plugins, provider, region, list_price) is None,
    decreases plugins.len(),
{
    if plugins.len() > 0 {
        assert(plugins[plugins.len() - 1] == plugins.last());
        let rest = plugins.drop_last();
        assert forall|k: int| 0 <= k < rest.len() implies (#[trigger] rest[k]).brings()
            != provider by {
            assert(rest[k] == plugins[k]);
        }
        lemma_no_brought_prices(rest, provider, region, list_price);
    }
}

/// A provider with resources is priced by the last plugin that brings it, in the
/// region that is set for it or else in the default region. Without a plugin, or
/// without resources, it has no prices.
pub proof fn law_prices_come_from_plugins(
    plugins: Seq<PluginHandle>,
    nodes: Seq<NodeView>,
    default_region: Seq<char>,
    regions: PerProvider<String>,
    list_price: bool,
    provider: Provider,
    n: int,
    i: int,
)
    requires
        provider != Provider::Other,
    ensures
        ({
            let found = pricing_for(
                plugins,
                nodes,
                default_region,
                regions,
                list_price,
            ).catalog_for(provider);
            let region = match regions.at(provider) {
                Some(r) => r@,
                None => default_region,
            };
            &&& 0 <= n < nodes.len() && nodes[n].shell.provider == provider && 0 <= i
                < plugins.len() && plugins[i].brings() == provider && (forall|k: int|
                i < k < plugins.len() ==> (#[trigger] plugins[k]).brings() != provider)
                ==> found == Some(plugins[i].prices(region, list_price))
            &&& (forall|k: int|
                0 <= k < plugins.len() ==> (#[trigger] plugins[k]).brings() != provider)
                ==> found is None
            &&& (forall|k: int|
                0 <= k < nodes.len() ==> (#[trigger] nodes[k]).shell.provider != provider)
                ==> found is None
        }),
{
    let region = crate::engine::registry::region_for(regions, provider, default_region);
    if 0 <= i < plugins.len() && plugins[i].brings() == provider && (forall|k: int|
        i < k < plugins.len() ==> (#[trigger] plugins[k]).brings() != provider) {
        lemma_brought_prices(plugins, provider, region, list_price, i);
    }
    if forall|k: int| 0 <= k < plugins.len() ==> (#[trigger] plugins[k]).brings() != provider {
        lemma_no_brought_prices(plugins, provider, region, list_price);
    }
}

/// A cost model is that of the architecture which the input describes, under its
/// name and region, with the prices of the plugins. Errors of either are its errors.
pub proof fn law_generated_cost_model(
    plugins: Seq<PluginHandle>,
    registries: Registries,
    request: GenerateRequest,
    input: InputText,
)
    ensures
        match (
            input_architecture(
                input,
                request.template_path@,
                request.cfn_inputs,
                Some(request.name@),
                request.region@,
                registries,
                request.policy,
            ),
            generated(plugins, registries, request, input),
        ) {
            (Err(e), Err(f)) => e == f,
            (Ok(a), Err(f)) => f is CostModel && request.strict,
            (Ok(a), Ok(g)) => {
                &&& g.0.name == a.0.name
                &&& g.0.region == a.0.region
                &&& g.1 == a.1
                &&& g.0.diagnostics == a.1
                &&& crate::service::catalog::costs_of(
                    registries.catalog,
                    pricing_for(
                        plugins,
                        a.0.resources,
                        request.region@,
                        *request.provider_regions,
                        request.list_price,
                    ),
                    a.0.resources,
                    request.strict,
                ) == Ok::<
                    Seq<crate::cost::ResourceCostView>,
                    crate::service::error::CostErrorView,
                >(g.0.resources)
            },
            (Err(_), Ok(_)) => false,
        },
{
    if let Ok(a) = input_architecture(
        input,
        request.template_path@,
        request.cfn_inputs,
        Some(request.name@),
        request.region@,
        registries,
        request.policy,
    ) {
        crate::service::catalog::law_strict_and_lenient_agree(
            registries.catalog,
            pricing_for(
                plugins,
                a.0.resources,
                request.region@,
                *request.provider_regions,
                request.list_price,
            ),
            a.0.resources,
        );
    }
}

} // verus!
