//! The errors of this library.

use vstd::prelude::*;
use vstd::string::StringExecFns;
use crate::node::Span;

verus! {

/// Why a rewriting pass gave up.
#[derive(Clone, Copy, Debug, PartialEq, Eq, Structural)]
pub enum ReducerErrorKind {
    /// The left side of a compound assignment is not something that can be assigned to.
    InvalidAssignmentTarget,
    /// A definition introduces a different number of names than its tuple has components.
    ArityMismatch,
    /// A group or address literal is not written as such a literal must be.
    MalformedLiteral,
    /// A new node was needed and every identity is taken.
    IdentitiesExhausted,
}

/// An error of a rewriting pass: what went wrong, and where in the source.
#[derive(Clone, Copy, Debug, PartialEq, Eq, Structural)]
pub struct ReducerError {
    pub kind: ReducerErrorKind,
    pub span: Span,
}

impl ReducerErrorKind {
    /// The words that [`ReducerErrorKind::description`] returns.
    pub open spec fn description_text(self) -> Seq<char> {
        match self {
            ReducerErrorKind::InvalidAssignmentTarget => "the left side of a compound assignment cannot be assigned to"@,
            ReducerErrorKind::ArityMismatch => "the number of names defined differs from the width of the tuple"@,
            ReducerErrorKind::MalformedLiteral => "malformed group or address literal"@,
            ReducerErrorKind::IdentitiesExhausted => "no node identity is left for a new node"@,
        }
    }

    /// A description of this kind of error for a human reader.
    pub fn description(&self) -> (r: String)
        ensures
            r@ == self.description_text(),
    {
        match self {
            ReducerErrorKind::InvalidAssignmentTarget => String::from_str(
                "the left side of a compound assignment cannot be assigned to",
            ),
            ReducerErrorKind::ArityMismatch => String::from_str(
                "the number of names defined differs from the width of the tuple",
            ),
            ReducerErrorKind::MalformedLiteral => String::from_str("malformed group or address literal"),
            ReducerErrorKind::IdentitiesExhausted => String::from_str(
                "no node identity is left for a new node",
            ),
        }
    }
}

impl ReducerError {
    /// The error of kind `kind` at `span`.
    pub fn new(kind: ReducerErrorKind, span: Span) -> (r: ReducerError)
        ensures
            r == (ReducerError { kind, span }),
    {
        ReducerError { kind, span }
    }
}

/// An error of the syntax tree's own operations.
#[derive(Debug, PartialEq, Eq)]
pub enum AstError {
    /// Canonicalization found a construct that breaks one of its rules.
    Canonicalization(ReducerError),
    /// The tree could not be written as a document.
    Encoding { message: String },
    /// The text is not a document at all.
    Syntax { message: String },
    /// The text is a document, but not one that describes a program.
    UnexpectedShape,
}

/// The view of a result whose success carries a value with a view.
pub open spec fn outcome_view<T: View>(r: Result<T, ReducerError>) -> Result<T::V, ReducerError> {
    match r {
        Ok(t) => Ok(t@),
        Err(e) => Err(e),
    }
}

} // verus!
