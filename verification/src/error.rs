//! Diagnostics: every handler collects these and the traversal always runs to
//! completion. Each record carries the offending token's coordinates.

use vstd::prelude::*;
use crate::token::Token;

verus! {

#[derive(Debug)]
pub enum AnalyzerError {
    /// `lsb` used outside the select of an expression identifier.
    InvalidLsb { token: Token },
    /// `msb` used outside the select of an expression identifier.
    InvalidMsb { token: Token },
    /// `msb` could not be matched to a declared dimension.
    UnknownMsb { token: Token },
    /// A type reference would close a dependency cycle.
    CyclicTypeDependency { start: String, end: String, token: Token },
    /// A name could not be resolved.
    UndefinedIdentifier { name: String, token: Token },
}

/// The mathematical content of a diagnostic: its rendered strings as
/// character sequences.
pub ghost enum DiagView {
    InvalidLsb { token: Token },
    InvalidMsb { token: Token },
    UnknownMsb { token: Token },
    Cyclic { start: Seq<char>, end: Seq<char>, token: Token },
    Undefined { name: Seq<char>, token: Token },
}

pub open spec fn diag_view(e: AnalyzerError) -> DiagView {
    match e {
        AnalyzerError::InvalidLsb { token } => DiagView::InvalidLsb { token },
        AnalyzerError::InvalidMsb { token } => DiagView::InvalidMsb { token },
        AnalyzerError::UnknownMsb { token } => DiagView::UnknownMsb { token },
        AnalyzerError::CyclicTypeDependency { start, end, token } => DiagView::Cyclic {
            start: start@,
            end: end@,
            token,
        },
        AnalyzerError::UndefinedIdentifier { name, token } => DiagView::Undefined {
            name: name@,
            token,
        },
    }
}

/// The views of a diagnostic list.
pub open spec fn diag_views(es: Seq<AnalyzerError>) -> Seq<DiagView> {
    es.map(|_i: int, e: AnalyzerError| diag_view(e))
}

} // verus!
