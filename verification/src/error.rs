//! The error taxonomy of the conversion: malformed identifier or date text,
//! malformed boolean text, an unrecognized synonym scope, and clauses that
//! are not valid for the kind of entity they were addressed to.
//!
//! Every conversion fails fast: the first error aborts the whole call and no
//! partial document or graph is produced.

use vstd::prelude::*;

verus! {

/// Spec-level shape of an error.
pub enum ErrorView {
    OboSyntax { msg: Seq<char> },
    InvalidBoolean { text: Seq<char> },
    InvalidSynonymType { pred: Seq<char> },
    InvalidTermClause { clause: Seq<char> },
    InvalidInstanceClause { clause: Seq<char> },
}

/// The error type for this crate.
#[derive(Debug)]
pub enum Error {
    /// Malformed identifier or date text; carries the parser's message.
    OboSyntaxError(String),
    /// Boolean text other than `true` or `false`; carries the source text.
    InvalidBoolean(String),
    /// A synonym property value whose predicate is not one of the four
    /// recognized scope keywords; carries the predicate text.
    InvalidSynonymType(String),
    /// A clause that cannot be attached to a term frame; carries the
    /// clause name.
    InvalidTermClause(String),
    /// A clause that cannot be attached to an instance frame; carries the
    /// clause name.
    InvalidInstanceClause(String),
}

impl View for Error {
    type V = ErrorView;

    open spec fn view(&self) -> ErrorView {
        match self {
            Error::OboSyntaxError(m) => ErrorView::OboSyntax { msg: m@ },
            Error::InvalidBoolean(t) => ErrorView::InvalidBoolean { text: t@ },
            Error::InvalidSynonymType(p) => ErrorView::InvalidSynonymType { pred: p@ },
            Error::InvalidTermClause(c) => ErrorView::InvalidTermClause { clause: c@ },
            Error::InvalidInstanceClause(c) => ErrorView::InvalidInstanceClause { clause: c@ },
        }
    }
}

/// The abstract shape of an error, used by the conversion's specification:
/// the syntax variant drops the external parser's message, every other
/// variant keeps its payload exactly.
pub enum SpecError {
    Syntax,
    InvalidBoolean { text: Seq<char> },
    InvalidSynonymType { pred: Seq<char> },
    InvalidTermClause { clause: Seq<char> },
    InvalidInstanceClause { clause: Seq<char> },
}

/// The abstract shape of a concrete error.
pub open spec fn error_of(e: ErrorView) -> SpecError {
    match e {
        ErrorView::OboSyntax { .. } => SpecError::Syntax,
        ErrorView::InvalidBoolean { text } => SpecError::InvalidBoolean { text },
        ErrorView::InvalidSynonymType { pred } => SpecError::InvalidSynonymType { pred },
        ErrorView::InvalidTermClause { clause } => SpecError::InvalidTermClause { clause },
        ErrorView::InvalidInstanceClause { clause } => SpecError::InvalidInstanceClause { clause },
    }
}

impl Error {
    /// Create a new `Error::InvalidInstanceClause` error variant.
    pub fn invalid_instance_clause(clause: &str) -> (r: Self)
        ensures
            r@ == (ErrorView::InvalidInstanceClause { clause: clause@ }),
    {
        Error::InvalidInstanceClause(clause.to_owned())
    }

    /// Create a new `Error::InvalidTermClause` error variant.
    pub fn invalid_term_clause(clause: &str) -> (r: Self)
        ensures
            r@ == (ErrorView::InvalidTermClause { clause: clause@ }),
    {
        Error::InvalidTermClause(clause.to_owned())
    }
}

} // verus!
