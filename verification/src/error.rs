use vstd::prelude::*;

use crate::QueryType;

verus! {

/// Ghost model of a `ParserError`: each carried string is represented by its
/// character sequence.
pub enum ParserErrorView {
    EmptySymbol,
    InvalidPairRule,
    InvalidComparison(Seq<char>),
    InvalidQuery(QueryType),
    InvalidConstraintArgs(Seq<char>, usize),
    LackOfField { ty: Seq<char>, field: Seq<char> },
}

/// Everything that can go wrong while building a comparison or a constraint,
/// or while parsing a query. An error is terminal for the failing call only;
/// the parser value stays usable.
#[derive(Debug, Clone, PartialEq, Eq)]
pub enum ParserError {
    /// A `Comparison` was constructed from an empty symbol list.
    EmptySymbol,
    /// The tree builder met a shape it cannot combine.
    InvalidPairRule,
    /// An operator symbol is malformed or unknown to the registry.
    InvalidComparison(String),
    /// The top-level parse produced no result.
    InvalidQuery(QueryType),
    /// Argument cardinality does not fit the comparison's `multi_values` flag:
    /// the expected count (as text) and the count found.
    InvalidConstraintArgs(String, usize),
    /// A constraint is missing one of its three parts.
    LackOfField { ty: String, field: String },
}

impl View for ParserError {
    type V = ParserErrorView;

    open spec fn view(&self) -> ParserErrorView {
        match self {
            ParserError::EmptySymbol => ParserErrorView::EmptySymbol,
            ParserError::InvalidPairRule => ParserErrorView::InvalidPairRule,
            ParserError::InvalidComparison(s) => ParserErrorView::InvalidComparison(s@),
            ParserError::InvalidQuery(q) => ParserErrorView::InvalidQuery(*q),
            ParserError::InvalidConstraintArgs(e, n) => ParserErrorView::InvalidConstraintArgs(
                e@,
                *n,
            ),
            ParserError::LackOfField { ty, field } => ParserErrorView::LackOfField {
                ty: ty@,
                field: field@,
            },
        }
    }
}

impl ParserError {
    /// The error the tree builder raises on an unexpected shape, wrapped as a
    /// failed result of any type.
    pub fn invalid_pair_rule<T>() -> (r: Result<T, ParserError>)
        ensures
            r matches Err(e) && e@ == ParserErrorView::InvalidPairRule,
    {
        Err(ParserError::InvalidPairRule)
    }
}

} // verus!
