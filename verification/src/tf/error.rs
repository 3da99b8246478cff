//! Errors of reading and resolving Terraform configurations.

use vstd::prelude::*;

verus! {

/// What an unresolved reference refers to.
#[derive(Debug, Clone, Copy, PartialEq, Eq, Structural)]
pub enum UnresolvedSymbolKind {
    Variable,
    Local,
}

/// Why a configuration could not be read or resolved.
#[derive(Debug, PartialEq, Eq)]
pub enum TfError {
    ParseError(String),
    Io(String),
    MissingAttribute { resource: String, attr: String },
    UnresolvedSymbol { kind: UnresolvedSymbolKind, name: String, location: Option<String> },
}

/// The model of a [`TfError`].
pub enum TfErrorView {
    ParseError(Seq<char>),
    Io(Seq<char>),
    MissingAttribute { resource: Seq<char>, attr: Seq<char> },
    UnresolvedSymbol {
        kind: UnresolvedSymbolKind,
        name: Seq<char>,
        location: Option<Seq<char>>,
    },
}

impl View for TfError {
    type V = TfErrorView;

    open spec fn view(&self) -> TfErrorView {
        match self {
            TfError::ParseError(s) => TfErrorView::ParseError(s@),
            TfError::Io(s) => TfErrorView::Io(s@),
            TfError::MissingAttribute { resource, attr } => TfErrorView::MissingAttribute {
                resource: resource@,
                attr: attr@,
            },
            TfError::UnresolvedSymbol { kind, name, location } => TfErrorView::UnresolvedSymbol {
                kind: *kind,
                name: name@,
                location: crate::tf::document::opt_view(*location),
            },
        }
    }
}

/// How a reference to a symbol of the given kind begins.
pub open spec fn symbol_prefix(kind: UnresolvedSymbolKind) -> Seq<char> {
    match kind {
        UnresolvedSymbolKind::Variable => "var."@,
        UnresolvedSymbolKind::Local => "local."@,
    }
}

/// The message of an error.
pub open spec fn tf_error_message(e: TfErrorView) -> Seq<char> {
    match e {
        TfErrorView::ParseError(s) => "failed to parse Terraform config: "@ + s,
        TfErrorView::Io(_) => "IO error"@,
        TfErrorView::MissingAttribute { resource, attr } => "missing required attribute "@ + attr
            + " for resource "@ + resource,
        TfErrorView::UnresolvedSymbol { kind, name, .. } => "unresolved reference: "@
            + symbol_prefix(kind) + name,
    }
}

impl TfError {
    /// The message of the error.
    pub fn message(&self) -> (r: String)
        ensures
            r@ == tf_error_message(self@),
    {
        match self {
            TfError::ParseError(s) => {
                let mut m = "failed to parse Terraform config: ".to_owned();
                m.append(s.as_str());
                m
            },
            TfError::Io(_) => "IO error".to_owned(),
            TfError::MissingAttribute { resource, attr } => {
                let mut m = "missing required attribute ".to_owned();
                m.append(attr.as_str());
                m.append(" for resource ");
                m.append(resource.as_str());
                m
            },
            TfError::UnresolvedSymbol { kind, name, .. } => {
                let mut m = "unresolved reference: ".to_owned();
                match kind {
                    UnresolvedSymbolKind::Variable => {
                        m.append("var.");
                    },
                    UnresolvedSymbolKind::Local => {
                        m.append("local.");
                    },
                }
                m.append(name.as_str());
                m
            },
        }
    }
}

} // verus!
