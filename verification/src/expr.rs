use vstd::prelude::*;

use crate::comparison::Comparison;
use crate::constraint::{Constraint, ConstraintView};
use crate::error::{ParserError, ParserErrorView};
use vstd::string::StringExecFns;

verus! {

/// Logical connective of an expression node.
#[derive(Debug, PartialEq, Eq, Clone, Copy)]
pub enum Operator {
    And,
    Or,
}

/// The operator text used when rendering: `;` for And, `,` for Or.
pub open spec fn operator_char(op: Operator) -> char {
    match op {
        Operator::And => ';',
        Operator::Or => ',',
    }
}

/// Ghost model of an `Expr`.
pub enum ExprView {
    Item(ConstraintView),
    Node(Operator, Box<ExprView>, Box<ExprView>),
}

impl ExprView {
    /// Every constraint of the tree satisfies the constraint invariant.
    pub open spec fn wf(self) -> bool
        decreases self,
    {
        match self {
            ExprView::Item(c) => c.wf(),
            ExprView::Node(_, l, r) => (*l).wf() && (*r).wf(),
        }
    }

    /// Every comparison of the tree has a canonical symbol to render.
    pub open spec fn renderable(self) -> bool
        decreases self,
    {
        match self {
            ExprView::Item(c) => c.comparison.symbols.len() >= 1,
            ExprView::Node(_, l, r) => (*l).renderable() && (*r).renderable(),
        }
    }

    /// Canonical rendering `left OP right`: parentheses go around the right
    /// operand exactly when it is itself a node, never around the left.
    pub open spec fn rendered(self) -> Seq<char>
        decreases self,
    {
        match self {
            ExprView::Item(c) => c.rendered(),
            ExprView::Node(op, l, r) => (*l).rendered() + seq![operator_char(op)] + (match *r {
                ExprView::Item(_) => (*r).rendered(),
                ExprView::Node(_, _, _) => seq!['('] + (*r).rendered() + seq![')'],
            }),
        }
    }
}

/// A boolean expression tree: a constraint leaf, or a binary `And` / `Or`
/// node owning its two children. Trees are immutable once built.
#[derive(Debug, PartialEq, Eq)]
pub enum Expr {
    Item(Constraint),
    Node(Operator, Box<Expr>, Box<Expr>),
}

/// The ghost model of an expression tree.
pub open spec fn expr_view(e: Expr) -> ExprView
    decreases e,
{
    match e {
        Expr::Item(c) => ExprView::Item(c@),
        Expr::Node(op, l, r) => ExprView::Node(
            op,
            Box::new(expr_view(*l)),
            Box::new(expr_view(*r)),
        ),
    }
}

impl View for Expr {
    type V = ExprView;

    open spec fn view(&self) -> ExprView {
        expr_view(*self)
    }
}

impl Expr {
    /// Canonical RSQL rendering of the tree.
    pub fn to_string(&self) -> (r: String)
        requires
            self@.renderable(),
        ensures
            r@ == self@.rendered(),
        decreases *self,
    {
        match self {
            Expr::Item(cons) => cons.to_string(),
            Expr::Node(op, left, right) => {
                let op_str: &str = match op {
                    Operator::And => ";",
                    Operator::Or => ",",
                };
                proof {
                    reveal_strlit(";");
                    reveal_strlit(",");
                }
                let l = (**left).to_string();
                let rs = (**right).to_string();
                let needs_paren = matches!(**right, Expr::Node(_, _, _));
                if needs_paren {
                    proof {
                        reveal_strlit("(");
                        reveal_strlit(")");
                    }
                    let out = l.concat(op_str).concat("(").concat(rs.as_str()).concat(")");
                    proof {
                        assert(out@ =~= (**left)@.rendered() + seq![operator_char(*op)] + (seq![
                            '(',
                        ] + (**right)@.rendered() + seq![')']));
                    }
                    out
                } else {
                    let out = l.concat(op_str).concat(rs.as_str());
                    proof {
                        assert(out@ =~= (**left)@.rendered() + seq![operator_char(*op)]
                            + (**right)@.rendered());
                    }
                    out
                }
            },
        }
    }

    /// Builds a leaf expression around a freshly checked constraint,
    /// with the cardinality rule and errors of `Constraint::new`.
    pub fn boxed_item(selector: &str, comparison: Comparison, arguments: &[&str]) -> (r: Result<
        Box<Expr>,
        ParserError,
    >)
        ensures
            r is Ok <==> ((comparison@.multi && arguments@.len() >= 2) || (!comparison@.multi
                && arguments@.len() == 1)),
            r matches Ok(b) ==> (*b)@ == ExprView::Item(
                ConstraintView {
                    selector: selector@,
                    comparison: comparison@,
                    arguments: arguments@.map_values(|s: &str| s@),
                },
            ),
            r is Err && comparison@.multi ==> r->Err_0@ == ParserErrorView::InvalidConstraintArgs(
                seq!['>', ' ', '1'],
                arguments@.len() as usize,
            ),
            r is Err && !comparison@.multi ==> r->Err_0@ == ParserErrorView::InvalidConstraintArgs(
                seq!['=', '=', ' ', '1'],
                arguments@.len() as usize,
            ),
    {
        match Constraint::new(selector, comparison, arguments) {
            Ok(res) => Ok(Box::new(Expr::Item(res))),
            Err(e) => Err(e),
        }
    }
}

} // verus!
