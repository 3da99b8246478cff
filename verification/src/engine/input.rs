//! Which format an input is in.

use vstd::prelude::*;

use crate::engine::error::EngineError;
use crate::engine::error::EngineErrorView;
use crate::path::extension;
use crate::path::file_name;
use crate::path::join;
use crate::text::ascii_lowercase;
use crate::text::starts_with;
use crate::text::text_eq;

verus! {

/// The formats in which infrastructure can be described.
#[derive(Debug, Clone, Copy, PartialEq, Eq, Structural)]
pub enum InputFormat {
    /// A `CloudFormation` template, in YAML or JSON.
    Cfn,
    /// A Terraform configuration, in a file or a directory.
    Tf,
    /// A Wrangler configuration.
    Wrangler,
}

/// What is known about a directory.
#[derive(Debug, PartialEq, Eq)]
pub struct DirectoryListing {
    /// The names of its entries, up to the first that could not be read.
    pub names: Vec<String>,
    /// Why not all entries could be read.
    pub fault: Option<String>,
    /// It holds a file `wrangler.toml`.
    pub wrangler_toml: bool,
    /// It holds a file `wrangler.jsonc`.
    pub wrangler_jsonc: bool,
}

/// The model of a [`DirectoryListing`].
#[verifier::ext_equal]
pub struct ListingView {
    pub names: Seq<Seq<char>>,
    pub fault: Option<Seq<char>>,
    pub wrangler_toml: bool,
    pub wrangler_jsonc: bool,
}

impl View for DirectoryListing {
    type V = ListingView;

    open spec fn view(&self) -> ListingView {
        ListingView {
            names: crate::text::texts(self.names@),
            fault: crate::tf::document::opt_view(self.fault),
            wrangler_toml: self.wrangler_toml,
            wrangler_jsonc: self.wrangler_jsonc,
        }
    }
}

/// The model of what is known about a path: a directory, or something else.
pub open spec fn listing_view(dir: Option<&DirectoryListing>) -> Option<ListingView> {
    match dir {
        Some(l) => Some(l@),
        None => None,
    }
}

/// The name is that of a Terraform file.
pub open spec fn is_tf_name(name: Seq<char>) -> bool {
    crate::path::extension_of(name) == Some("tf"@)
}

/// Some name is that of a Terraform file.
pub open spec fn has_tf_name(names: Seq<Seq<char>>) -> bool {
    exists|i: int| 0 <= i < names.len() && #[trigger] is_tf_name(names[i])
}

/// The extension of a path, in lower case.
pub open spec fn lower_extension(path: Seq<char>) -> Option<Seq<char>> {
    match crate::path::extension_of(path) {
        Some(x) => Some(crate::text::ascii_lowered(x)),
        None => None,
    }
}

/// The name of a path's last component starts with that of a Wrangler
/// configuration.
pub open spec fn is_wrangler_name(path: Seq<char>) -> bool {
    crate::path::file_name_of(path) matches Some(n) && crate::text::has_prefix(
        crate::text::ascii_lowered(n),
        "wrangler."@,
    )
}

/// The format that a name stands for.
pub open spec fn format_by_name(path: Seq<char>) -> Result<InputFormat, EngineErrorView> {
    let x = lower_extension(path);
    if x == Some("yaml"@) || x == Some("yml"@) || x == Some("json"@) {
        Ok(InputFormat::Cfn)
    } else if x == Some("tf"@) || x == Some("tfvars"@) {
        Ok(InputFormat::Tf)
    } else if x == Some("toml"@) || is_wrangler_name(path) {
        Ok(InputFormat::Wrangler)
    } else {
        Err(EngineErrorView::UnknownInputFormat { path })
    }
}

/// The format of an input. A directory is one of Terraform files, or one with a
/// Wrangler configuration, or goes by its name.
pub open spec fn detected_format(path: Seq<char>, dir: Option<ListingView>) -> Result<
    InputFormat,
    EngineErrorView,
> {
    match dir {
        Some(l) => if has_tf_name(l.names) {
            Ok(InputFormat::Tf)
        } else if l.fault is Some {
            Err(EngineErrorView::ReadDir { path, source: l.fault->Some_0 })
        } else if l.wrangler_toml || l.wrangler_jsonc {
            Ok(InputFormat::Wrangler)
        } else {
            format_by_name(path)
        },
        None => format_by_name(path),
    }
}

/// The model of a format or an error.
pub open spec fn format_outcome(r: Result<InputFormat, EngineError>) -> Result<
    InputFormat,
    EngineErrorView,
> {
    match r {
        Ok(f) => Ok(f),
        Err(e) => Err(e@),
    }
}

/// The format that was asked for, or else the one that the input is in.
pub open spec fn resolved_format(
    path: Seq<char>,
    dir: Option<ListingView>,
    requested: Option<InputFormat>,
) -> Result<InputFormat, EngineErrorView> {
    match requested {
        Some(f) => Ok(f),
        None => detected_format(path, dir),
    }
}

/// The format that was asked for, or else the one that the input is in.
pub fn resolve_input_format(
    template_path: &str,
    dir: Option<&DirectoryListing>,
    requested: Option<InputFormat>,
) -> (r: Result<InputFormat, EngineError>)
    ensures
        format_outcome(r) == resolved_format(template_path@, listing_view(dir), requested),
{
    match requested {
        Some(format) => Ok(format),
        None => detect_input_format(template_path, dir),
    }
}

/// Whether some name is that of a Terraform file.
pub fn directory_contains_tf_files(names: &Vec<String>) -> (r: bool)
    ensures
        r == has_tf_name(crate::text::texts(names@)),
{
    let ghost all = crate::text::texts(names@);
    for i in 0..names.len()
        invariant
            all == crate::text::texts(names@),
            forall|j: int| 0 <= j < i ==> !#[trigger] is_tf_name(all[j]),
    {
        if let Some(x) = extension(names[i].as_str()) {
            if text_eq(x.as_str(), "tf") {
                assert(is_tf_name(all[i as int]));
                return true;
            }
        }
    }
    false
}

/// The format that a name stands for.
fn detect_by_name(path: &str) -> (r: Result<InputFormat, EngineError>)
    ensures
        format_outcome(r) == format_by_name(path@),
{
    let wrangler: bool = match file_name(path) {
        Some(n) => starts_with(ascii_lowercase(n.as_str()).as_str(), "wrangler."),
        None => false,
    };
    if let Some(x) = extension(path) {
        let x = ascii_lowercase(x.as_str());
        let x = x.as_str();
        if text_eq(x, "yaml") || text_eq(x, "yml") || text_eq(x, "json") {
            return Ok(InputFormat::Cfn);
        }
        if text_eq(x, "tf") || text_eq(x, "tfvars") {
            return Ok(InputFormat::Tf);
        }
        if text_eq(x, "toml") {
            return Ok(InputFormat::Wrangler);
        }
    }
    if wrangler {
        Ok(InputFormat::Wrangler)
    } else {
        Err(EngineError::UnknownInputFormat { path: path.to_owned() })
    }
}

/// The format of the input at `path`.
///
/// A directory is looked through for Terraform files first, then for a Wrangler
/// configuration. Otherwise the name decides: `.yaml`, `.yml` and `.json` are
/// `CloudFormation`, `.tf` and `.tfvars` are Terraform, `.toml` and names that
/// start with `wrangler.` are Wrangler.
pub fn detect_input_format(path: &str, dir: Option<&DirectoryListing>) -> (r: Result<
    InputFormat,
    EngineError,
>)
    ensures
        format_outcome(r) == detected_format(path@, listing_view(dir)),
{
    if let Some(l) = dir {
        if directory_contains_tf_files(&l.names) {
            return Ok(InputFormat::Tf);
        }
        if let Some(e) = &l.fault {
            return Err(EngineError::ReadDir { path: path.to_owned(), source: e.clone() });
        }
        if l.wrangler_toml || l.wrangler_jsonc {
            return Ok(InputFormat::Wrangler);
        }
    }
    detect_by_name(path)
}

/// The path of the Wrangler configuration of a directory: `wrangler.toml`, or
/// else `wrangler.jsonc`.
pub open spec fn wrangler_config(path: Seq<char>, toml: bool, jsonc: bool) -> Option<Seq<char>> {
    if toml {
        Some(crate::path::joined_path(path, "wrangler.toml"@))
    } else if jsonc {
        Some(crate::path::joined_path(path, "wrangler.jsonc"@))
    } else {
        None
    }
}

/// The path of the Wrangler configuration of the directory at `path`.
pub fn find_wrangler_config(path: &str, dir: &DirectoryListing) -> (r: Option<String>)
    ensures
        crate::tf::document::opt_view(r) == wrangler_config(
            path@,
            dir.wrangler_toml,
            dir.wrangler_jsonc,
        ),
{
    if dir.wrangler_toml {
        Some(join(path, "wrangler.toml"))
    } else if dir.wrangler_jsonc {
        Some(join(path, "wrangler.jsonc"))
    } else {
        None
    }
}

// ---------------------------------------------------------------------------
// Laws
// ---------------------------------------------------------------------------

/// A directory in which a Wrangler configuration is found is one of that
/// format, unless it holds Terraform files or could not be read.
pub proof fn law_found_config_is_wrangler(path: Seq<char>, l: ListingView)
    requires
        wrangler_config(path, l.wrangler_toml, l.wrangler_jsonc) is Some,
        !has_tf_name(l.names),
        l.fault is None,
    ensures
        detected_format(path, Some(l)) == Ok::<InputFormat, EngineErrorView>(InputFormat::Wrangler),
{
}

} // verus!
