//! The engine's error taxonomy. Every failure is fatal to the expansion
//! call that met it; line numbers are 0-based and local to the document
//! being processed at that moment.

use vstd::prelude::*;

verus! {

/// Spec-level image of [`Error`], over character sequences.
pub enum ErrorView {
    /// A directive keyword other than the three known ones, with the line.
    InvalidMacro(Seq<char>, int),
    /// Trailing text after the bind name of a parameter directive.
    ExtraParamsInParamMacro(int),
    /// A parameter directive fired with the cursor already drained.
    NotEnoughParameters,
    /// Values left on the cursor after the document was processed.
    UnusedParameters,
    /// A call of the named function-like macro with too few arguments.
    NotEnoughParametersMacro(Seq<char>),
    /// A call of the named function-like macro with too many arguments.
    UnusedParametersMacro(Seq<char>),
    /// A malformed name in a parameter list, with the line.
    InvalidParameterName(Seq<char>, int),
    /// The path of a splice directive was not a double-quoted token.
    SplicePathNotQuoted(int),
    /// A spliced path absent from the file table.
    FileNotFound(Seq<char>),
    /// Splicing nested deeper than the engine's depth allowance.
    SpliceDepthExceeded,
}

/// What can go wrong while expanding a document.
#[derive(Debug, PartialEq, Eq)]
pub enum Error {
    /// A directive keyword other than the three known ones, with the line.
    InvalidMacro(String, usize),
    /// Trailing text after the bind name of a parameter directive.
    ExtraParamsInParamMacro(usize),
    /// A parameter directive fired with the cursor already drained.
    NotEnoughParameters,
    /// Values left on the cursor after the document was processed.
    UnusedParameters,
    /// A call of the named function-like macro with too few arguments.
    NotEnoughParametersMacro(String),
    /// A call of the named function-like macro with too many arguments.
    UnusedParametersMacro(String),
    /// A malformed name in a parameter list, with the line.
    InvalidParameterName(String, usize),
    /// The path of a splice directive was not a double-quoted token.
    SplicePathNotQuoted(usize),
    /// A spliced path absent from the file table.
    FileNotFound(String),
    /// Splicing nested deeper than the engine's depth allowance.
    SpliceDepthExceeded,
}

impl View for Error {
    type V = ErrorView;

    open spec fn view(&self) -> ErrorView {
        match self {
            Error::InvalidMacro(s, n) => ErrorView::InvalidMacro(s@, *n as int),
            Error::ExtraParamsInParamMacro(n) => ErrorView::ExtraParamsInParamMacro(*n as int),
            Error::NotEnoughParameters => ErrorView::NotEnoughParameters,
            Error::UnusedParameters => ErrorView::UnusedParameters,
            Error::NotEnoughParametersMacro(s) => ErrorView::NotEnoughParametersMacro(s@),
            Error::UnusedParametersMacro(s) => ErrorView::UnusedParametersMacro(s@),
            Error::InvalidParameterName(s, n) => ErrorView::InvalidParameterName(s@, *n as int),
            Error::SplicePathNotQuoted(n) => ErrorView::SplicePathNotQuoted(*n as int),
            Error::FileNotFound(s) => ErrorView::FileNotFound(s@),
            Error::SpliceDepthExceeded => ErrorView::SpliceDepthExceeded,
        }
    }
}

/// Whether an executable result over characters is the image of a spec
/// result.
pub open spec fn res_chars_match(r: Result<Vec<char>, Error>, m: Result<Seq<char>, ErrorView>) -> bool {
    match (r, m) {
        (Ok(v), Ok(t)) => v@ == t,
        (Err(e), Err(f)) => e@ == f,
        _ => false,
    }
}

/// Whether an executable result over strings is the image of a spec result.
pub open spec fn res_string_match(r: Result<String, Error>, m: Result<Seq<char>, ErrorView>) -> bool {
    match (r, m) {
        (Ok(v), Ok(t)) => v@ == t,
        (Err(e), Err(f)) => e@ == f,
        _ => false,
    }
}

} // verus!
