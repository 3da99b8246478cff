//! Parse policies and diagnostics.

use vstd::prelude::*;

verus! {

/// How strictly unresolvable input is treated.
#[derive(Debug, Clone, Copy, PartialEq, Eq, Structural)]
pub enum ParsePolicy {
    /// What cannot be resolved is an error.
    Strict,
    /// What cannot be resolved is reported as a diagnostic, and reading goes on.
    Lenient,
}

/// The kind of document that a diagnostic is about.
#[derive(Debug, Clone, Copy, PartialEq, Eq, Structural)]
pub enum DiagnosticSource {
    Cfn,
    Tf,
    Wrangler,
}

/// Where in the input a diagnostic belongs.
#[derive(Debug, Clone, PartialEq, Eq)]
pub struct SourceLocation {
    pub file: String,
}

impl SourceLocation {
    /// A location that names a file and no place in it.
    pub fn file_only(file: &str) -> (r: SourceLocation)
        ensures
            r.file@ == file@,
    {
        SourceLocation { file: file.to_owned() }
    }
}

/// Something that could not be resolved.
#[derive(Debug, Clone, PartialEq, Eq)]
pub struct IacParseDiagnostic {
    pub source: DiagnosticSource,
    pub code: String,
    pub message: String,
    pub location: Option<SourceLocation>,
}

/// The model of an [`IacParseDiagnostic`].
pub struct DiagnosticView {
    pub source: DiagnosticSource,
    pub code: Seq<char>,
    pub message: Seq<char>,
    pub file: Option<Seq<char>>,
}

impl View for IacParseDiagnostic {
    type V = DiagnosticView;

    open spec fn view(&self) -> DiagnosticView {
        DiagnosticView {
            source: self.source,
            code: self.code@,
            message: self.message@,
            file: match self.location {
                Some(l) => Some(l.file@),
                None => None,
            },
        }
    }
}

/// The models of a sequence of diagnostics.
pub open spec fn diagnostic_views(v: Seq<IacParseDiagnostic>) -> Seq<DiagnosticView> {
    v.map_values(|d: IacParseDiagnostic| d@)
}

impl IacParseDiagnostic {
    /// A diagnostic without a location.
    pub fn error(source: DiagnosticSource, code: &str, message: String) -> (r: IacParseDiagnostic)
        ensures
            r@ == (DiagnosticView { source, code: code@, message: message@, file: None }),
    {
        IacParseDiagnostic { source, code: code.to_owned(), message, location: None }
    }

    /// The diagnostic with a location.
    pub fn with_location(self, location: SourceLocation) -> (r: IacParseDiagnostic)
        ensures
            r@ == (DiagnosticView { file: Some(location.file@), ..self@ }),
    {
        IacParseDiagnostic {
            source: self.source,
            code: self.code,
            message: self.message,
            location: Some(location),
        }
    }
}

/// Copies diagnostics.
pub fn clone_diagnostics(v: &Vec<IacParseDiagnostic>) -> (r: Vec<IacParseDiagnostic>)
    ensures
        diagnostic_views(r@) == diagnostic_views(v@),
{
    let mut out: Vec<IacParseDiagnostic> = Vec::new();
    for i in 0..v.len()
        invariant
            out@.len() == i,
            forall|j: int| 0 <= j < i ==> (#[trigger] out@[j])@ == v@[j]@,
    {
        let d = &v[i];
        let location = match &d.location {
            Some(l) => Some(SourceLocation { file: l.file.clone() }),
            None => None,
        };
        out.push(
            IacParseDiagnostic {
                source: d.source,
                code: d.code.clone(),
                message: d.message.clone(),
                location,
            },
        );
    }
    assert(diagnostic_views(out@) =~= diagnostic_views(v@));
    out
}

/// A value together with what could not be resolved on the way to it.
#[derive(Debug, PartialEq, Eq)]
pub struct ParseOutcome<T> {
    pub value: T,
    pub diagnostics: Vec<IacParseDiagnostic>,
    pub had_errors: bool,
}

impl<T> ParseOutcome<T> {
    /// An outcome that had errors exactly when there are diagnostics.
    pub fn with_diagnostics(value: T, diagnostics: Vec<IacParseDiagnostic>) -> (r: Self)
        ensures
            r.value == value,
            r.diagnostics == diagnostics,
            r.had_errors == (diagnostics@.len() > 0),
    {
        let had_errors: bool = diagnostics.len() > 0;
        ParseOutcome { value, diagnostics, had_errors }
    }

    /// An outcome without diagnostics.
    pub fn ok(value: T) -> (r: Self)
        ensures
            r.value == value,
            r.diagnostics@.len() == 0,
            !r.had_errors,
    {
        ParseOutcome { value, diagnostics: Vec::new(), had_errors: false }
    }
}

} // verus!
