//! Errors of reading and resolving templates.

use vstd::prelude::*;

verus! {

/// Why a template could not be read or resolved.
#[derive(Debug, Clone, PartialEq, Eq)]
pub enum CfnError {
    ParseError(String),
    IntrinsicError(String),
    ParameterNotFound(String),
    ImportValueNotFound(String),
    MappingNotFound { map_name: String, first_key: String, second_key: String },
    ConditionNotFound(String),
    MissingParameters(String),
    UnsupportedResourceType(String),
    MissingProperty { resource_type: String, property: String },
    Io(String),
    Yaml(String),
}

/// The model of a [`CfnError`].
pub enum CfnErrorView {
    ParseError(Seq<char>),
    IntrinsicError(Seq<char>),
    ParameterNotFound(Seq<char>),
    ImportValueNotFound(Seq<char>),
    MappingNotFound { map_name: Seq<char>, first_key: Seq<char>, second_key: Seq<char> },
    ConditionNotFound(Seq<char>),
    MissingParameters(Seq<char>),
    UnsupportedResourceType(Seq<char>),
    MissingProperty { resource_type: Seq<char>, property: Seq<char> },
    Io(Seq<char>),
    Yaml(Seq<char>),
}

impl View for CfnError {
    type V = CfnErrorView;

    open spec fn view(&self) -> CfnErrorView {
        match self {
            CfnError::ParseError(s) => CfnErrorView::ParseError(s@),
            CfnError::IntrinsicError(s) => CfnErrorView::IntrinsicError(s@),
            CfnError::ParameterNotFound(s) => CfnErrorView::ParameterNotFound(s@),
            CfnError::ImportValueNotFound(s) => CfnErrorView::ImportValueNotFound(s@),
            CfnError::MappingNotFound { map_name, first_key, second_key } =>
            CfnErrorView::MappingNotFound {
                map_name: map_name@,
                first_key: first_key@,
                second_key: second_key@,
            },
            CfnError::ConditionNotFound(s) => CfnErrorView::ConditionNotFound(s@),
            CfnError::MissingParameters(s) => CfnErrorView::MissingParameters(s@),
            CfnError::UnsupportedResourceType(s) => CfnErrorView::UnsupportedResourceType(s@),
            CfnError::MissingProperty { resource_type, property } =>
            CfnErrorView::MissingProperty { resource_type: resource_type@, property: property@ },
            CfnError::Io(s) => CfnErrorView::Io(s@),
            CfnError::Yaml(s) => CfnErrorView::Yaml(s@),
        }
    }
}

/// The message of an error.
pub open spec fn error_message(e: CfnErrorView) -> Seq<char> {
    match e {
        CfnErrorView::ParseError(s) => "failed to parse CloudFormation template: "@ + s,
        CfnErrorView::IntrinsicError(s) => "failed to resolve intrinsic function: "@ + s,
        CfnErrorView::ParameterNotFound(s) => "parameter not found: "@ + s,
        CfnErrorView::ImportValueNotFound(s) => "import value not found: "@ + s,
        CfnErrorView::MappingNotFound { map_name, first_key, second_key } => "mapping not found: "@
            + map_name + "."@ + first_key + "."@ + second_key,
        CfnErrorView::ConditionNotFound(s) => "condition not found: "@ + s,
        CfnErrorView::MissingParameters(s) => "Parameters: ["@ + s + "] must have values"@,
        CfnErrorView::UnsupportedResourceType(s) => "unsupported resource type: "@ + s,
        CfnErrorView::MissingProperty { resource_type, property } => "missing required property "@
            + property + " for "@ + resource_type,
        CfnErrorView::Io(_) => "IO error"@,
        CfnErrorView::Yaml(_) => "YAML parse error"@,
    }
}

/// `a` followed by `b`.
fn pair(a: &str, b: &str) -> (r: String)
    ensures
        r@ == a@ + b@,
{
    let mut s = a.to_owned();
    s.append(b);
    s
}

impl CfnError {
    /// The message of the error.
    pub fn message(&self) -> (r: String)
        ensures
            r@ == error_message(self@),
    {
        match self {
            CfnError::ParseError(s) => pair("failed to parse CloudFormation template: ", s),
            CfnError::IntrinsicError(s) => pair("failed to resolve intrinsic function: ", s),
            CfnError::ParameterNotFound(s) => pair("parameter not found: ", s),
            CfnError::ImportValueNotFound(s) => pair("import value not found: ", s),
            CfnError::MappingNotFound { map_name, first_key, second_key } => {
                let mut s = pair("mapping not found: ", map_name);
                s.append(".");
                s.append(first_key);
                s.append(".");
                s.append(second_key);
                s
            },
            CfnError::ConditionNotFound(s) => pair("condition not found: ", s),
            CfnError::MissingParameters(s) => {
                let mut m = pair("Parameters: [", s);
                m.append("] must have values");
                m
            },
            CfnError::UnsupportedResourceType(s) => pair("unsupported resource type: ", s),
            CfnError::MissingProperty { resource_type, property } => {
                let mut m = pair("missing required property ", property);
                m.append(" for ");
                m.append(resource_type);
                m
            },
            CfnError::Io(_) => "IO error".to_owned(),
            CfnError::Yaml(_) => "YAML parse error".to_owned(),
        }
    }
}

} // verus!
