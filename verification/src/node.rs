use vstd::prelude::*;

use crate::constraint::Constraint;
use crate::expr::Operator;

verus! {

/// Marker for expression-tree node types.
pub trait Node {

}

/// A leaf node holding one constraint.
#[derive(Debug, PartialEq, Eq)]
pub struct Leaf(pub Constraint);

impl Node for Leaf {

}

/// An internal node pairing two optional children under one connective.
#[derive(Debug, PartialEq, Eq)]
pub struct Branch<T> where T: Node {
    pub operator: Operator,
    pub left: Option<T>,
    pub right: Option<T>,
}

impl<T> Branch<T> where T: Node {
    /// Pairs two optional children under one connective.
    pub fn new(operator: Operator, left: Option<T>, right: Option<T>) -> (r: Self)
        ensures
            r.operator == operator,
            r.left == left,
            r.right == right,
    {
        Branch { operator, left, right }
    }
}

impl<T: Node> Node for Branch<T> {

}

} // verus!
