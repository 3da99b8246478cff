//! Errors of reading Wrangler configurations.

use vstd::prelude::*;

verus! {

/// Why a configuration could not be read.
#[derive(Debug, PartialEq, Eq)]
pub enum WranglerError {
    ParseError(String),
    /// The file could not be read.
    Io(String),
    /// The file could not be read as a configuration file.
    IoRead(String),
}

/// The model of a [`WranglerError`].
pub enum WranglerErrorView {
    ParseError(Seq<char>),
    Io(Seq<char>),
    IoRead(Seq<char>),
}

impl View for WranglerError {
    type V = WranglerErrorView;

    open spec fn view(&self) -> WranglerErrorView {
        match self {
            WranglerError::ParseError(s) => WranglerErrorView::ParseError(s@),
            WranglerError::Io(s) => WranglerErrorView::Io(s@),
            WranglerError::IoRead(s) => WranglerErrorView::IoRead(s@),
        }
    }
}

/// The message of an error.
pub open spec fn wrangler_error_message(e: WranglerErrorView) -> Seq<char> {
    match e {
        WranglerErrorView::ParseError(s) => "failed to parse Wrangler config: "@ + s,
        WranglerErrorView::Io(_) => "IO error"@,
        WranglerErrorView::IoRead(s) => s,
    }
}

impl WranglerError {
    /// The message of the error.
    pub fn message(&self) -> (r: String)
        ensures
            r@ == wrangler_error_message(self@),
    {
        match self {
            WranglerError::ParseError(s) => {
                let mut m = "failed to parse Wrangler config: ".to_owned();
                m.append(s.as_str());
                m
            },
            WranglerError::Io(_) => "IO error".to_owned(),
            WranglerError::IoRead(s) => s.clone(),
        }
    }
}

} // verus!
