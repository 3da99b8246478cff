//! Errors on the way from an input to a cost model.

use vstd::prelude::*;

use crate::cfn::error::CfnError;
use crate::cfn::error::CfnErrorView;
use crate::service::error::CostError;
use crate::service::error::CostErrorView;
use crate::tf::error::TfError;
use crate::tf::error::TfErrorView;
use crate::wrangler::error::WranglerError;
use crate::wrangler::error::WranglerErrorView;

verus! {

/// Why there is no cost model.
#[derive(Debug, PartialEq, Eq)]
pub enum EngineError {
    /// The format of the input cannot be told from its path.
    UnknownInputFormat { path: String },
    /// A directory could not be read.
    ReadDir { path: String, source: String },
    /// The template could not be read.
    CfnParse(CfnError),
    /// The intrinsic functions of the template could not be resolved.
    CfnResolve(CfnError),
    /// The configuration could not be read.
    TfParse { path: String, source: TfError },
    /// A file of variables could not be read.
    TfVarsParse { path: String, source: TfError },
    /// The configuration could not be resolved.
    TfResolve(TfError),
    /// The configuration has no resources of a supported provider.
    UnknownTfProvider { path: String },
    /// The directory of the configuration cannot be told from the path.
    TfConfigDir { path: String },
    /// A directory holds no Wrangler configuration.
    WranglerConfigNotFound { path: String },
    /// The Wrangler configuration could not be read.
    WranglerParse { path: String, source: WranglerError },
    /// The costs could not be computed.
    CostModel(CostError),
}

/// The model of an [`EngineError`].
pub enum EngineErrorView {
    UnknownInputFormat { path: Seq<char> },
    ReadDir { path: Seq<char>, source: Seq<char> },
    CfnParse(CfnErrorView),
    CfnResolve(CfnErrorView),
    TfParse { path: Seq<char>, source: TfErrorView },
    TfVarsParse { path: Seq<char>, source: TfErrorView },
    TfResolve(TfErrorView),
    UnknownTfProvider { path: Seq<char> },
    TfConfigDir { path: Seq<char> },
    WranglerConfigNotFound { path: Seq<char> },
    WranglerParse { path: Seq<char>, source: WranglerErrorView },
    CostModel(CostErrorView),
}

impl View for EngineError {
    type V = EngineErrorView;

    open spec fn view(&self) -> EngineErrorView {
        match self {
            EngineError::UnknownInputFormat { path } => EngineErrorView::UnknownInputFormat {
                path: path@,
            },
            EngineError::ReadDir { path, source } => EngineErrorView::ReadDir {
                path: path@,
                source: source@,
            },
            EngineError::CfnParse(e) => EngineErrorView::CfnParse(e@),
            EngineError::CfnResolve(e) => EngineErrorView::CfnResolve(e@),
            EngineError::TfParse { path, source } => EngineErrorView::TfParse {
                path: path@,
                source: source@,
            },
            EngineError::TfVarsParse { path, source } => EngineErrorView::TfVarsParse {
                path: path@,
                source: source@,
            },
            EngineError::TfResolve(e) => EngineErrorView::TfResolve(e@),
            EngineError::UnknownTfProvider { path } => EngineErrorView::UnknownTfProvider {
                path: path@,
            },
            EngineError::TfConfigDir { path } => EngineErrorView::TfConfigDir { path: path@ },
            EngineError::WranglerConfigNotFound { path } =>
            EngineErrorView::WranglerConfigNotFound { path: path@ },
            EngineError::WranglerParse { path, source } => EngineErrorView::WranglerParse {
                path: path@,
                source: source@,
            },
            EngineError::CostModel(e) => EngineErrorView::CostModel(e@),
        }
    }
}

/// The message of an error.
pub open spec fn engine_error_message(e: EngineErrorView) -> Seq<char> {
    match e {
        EngineErrorView::UnknownInputFormat { path } => "could not detect input format for "@ + path
            + ": expected a CloudFormation template (.yaml/.yml/.json), Terraform input (.tf/.tfvars or a directory containing .tf files), or a Wrangler config (wrangler.toml/wrangler.jsonc)"@,
        EngineErrorView::ReadDir { path, .. } => "failed to read directory: "@ + path,
        EngineErrorView::CfnParse(_) => "failed to parse CloudFormation template"@,
        EngineErrorView::CfnResolve(_) => "failed to resolve template"@,
        EngineErrorView::TfParse { path, .. } => "failed to parse Terraform config: "@ + path,
        EngineErrorView::TfVarsParse { path, .. } => "failed to parse Terraform variables: "@
            + path,
        EngineErrorView::TfResolve(_) => "failed to resolve Terraform configuration"@,
        EngineErrorView::UnknownTfProvider { path } =>
        "unable to detect a supported Terraform provider from "@ + path
            + ". Expected resources with aws_ or google_ prefixes."@,
        EngineErrorView::TfConfigDir { path } =>
        "failed to determine Terraform configuration directory for "@ + path,
        EngineErrorView::WranglerConfigNotFound { path } =>
        "failed to locate wrangler.toml or wrangler.jsonc in "@ + path,
        EngineErrorView::WranglerParse { path, .. } => "failed to parse Wrangler config: "@ + path,
        EngineErrorView::CostModel(_) => "failed to build cost model"@,
    }
}

/// `a` followed by `b`.
fn pair(a: &str, b: &str) -> (r: String)
    ensures
        r@ == a@ + b@,
{
    let mut s = a.to_owned();
    s.append(b);
    s
}

impl EngineError {
    /// The message of the error.
    pub fn message(&self) -> (r: String)
        ensures
            r@ == engine_error_message(self@),
    {
        match self {
            EngineError::UnknownInputFormat { path } => {
                let mut m = pair("could not detect input format for ", path.as_str());
                m.append(
                    ": expected a CloudFormation template (.yaml/.yml/.json), Terraform input (.tf/.tfvars or a directory containing .tf files), or a Wrangler config (wrangler.toml/wrangler.jsonc)",
                );
                m
            },
            EngineError::ReadDir { path, .. } => pair("failed to read directory: ", path.as_str()),
            EngineError::CfnParse(_) => "failed to parse CloudFormation template".to_owned(),
            EngineError::CfnResolve(_) => "failed to resolve template".to_owned(),
            EngineError::TfParse { path, .. } => pair(
                "failed to parse Terraform config: ",
                path.as_str(),
            ),
            EngineError::TfVarsParse { path, .. } => pair(
                "failed to parse Terraform variables: ",
                path.as_str(),
            ),
            EngineError::TfResolve(_) => "failed to resolve Terraform configuration".to_owned(),
            EngineError::UnknownTfProvider { path } => {
                let mut m = pair(
                    "unable to detect a supported Terraform provider from ",
                    path.as_str(),
                );
                m.append(". Expected resources with aws_ or google_ prefixes.");
                m
            },
            EngineError::TfConfigDir { path } => pair(
                "failed to determine Terraform configuration directory for ",
                path.as_str(),
            ),
            EngineError::WranglerConfigNotFound { path } => pair(
                "failed to locate wrangler.toml or wrangler.jsonc in ",
                path.as_str(),
            ),
            EngineError::WranglerParse { path, .. } => pair(
                "failed to parse Wrangler config: ",
                path.as_str(),
            ),
            EngineError::CostModel(_) => "failed to build cost model".to_owned(),
        }
    }
}

} // verus!
