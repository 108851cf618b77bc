//! Parsers for the FIQL and RSQL query dialects.
//!
//! A query string such as `name=="Kill Bill";year=gt=2003` is parsed into a
//! boolean expression tree of constraints, and such a tree renders back to a
//! canonical RSQL string.

use vstd::prelude::*;

pub mod comparison;
pub mod constraint;
pub mod error;
pub mod expr;
pub mod fiql;
pub mod grammar;
pub mod node;
pub mod parsing;
pub mod registry;
pub mod roundtrip;
pub mod rsql;
pub mod whitespace;

pub use comparison::Comparison;
pub use constraint::{Arguments, Constraint};
pub use error::ParserError;
pub use expr::{Expr, Operator};
pub use fiql::FiqlParser;
pub use rsql::RsqlParser;

verus! {

/// The two query dialects this crate parses.
///
/// RSQL is a superset of FIQL: it adds the keyword connectives `and` / `or`,
/// quoted argument values, and the multi-value operators `=in=` / `=out=`.
#[derive(Debug, Clone, Copy, PartialEq, Eq)]
pub enum QueryType {
    Fiql,
    Rsql,
}

} // verus!
