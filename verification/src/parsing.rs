//! The parse engine shared by both dialects: recursive descent over the
//! grammar of `crate::grammar`, and the tree builder that folds parsed terms
//! and operators into one `Expr`.
//!
//! Each `sp_*` spec function is the definition of the parse; the executable
//! functions return exactly what it defines. The tree builder drains its
//! operator stack from the end, so operators of equal precedence combine
//! right-associatively; grouping is the only way to override that order.

use vstd::prelude::*;

use crate::comparison::CompView;
use crate::comparison::Comparison;
use crate::constraint::{Arguments, Constraint, ConstraintView};
use crate::error::{ParserError, ParserErrorView};
use crate::expr::{Expr, ExprView, Operator};
use crate::grammar::{
    parse_args, parse_comp_symbol, parse_operator, parse_selector, skip_ws, sp_args,
    sp_comp_symbol, sp_operator, sp_selector, sp_skip_ws,
};
use crate::registry::{
    lemma_resolve_valid, reg_view, reg_wf, resolve, resolve_symbol, user_lookup,
};
use crate::QueryType;
use vstd::string::{StrSliceExecFns, StringExecFns};

verus! {

/// One constraint at `i`: selector, comparison symbol and argument, with
/// whitespace allowed between the tokens. The symbol must resolve in the
/// registry, and the argument count must fit the comparison.
pub open spec fn sp_constraint(
    q: QueryType,
    reg: Seq<(Seq<char>, CompView)>,
    s: Seq<char>,
    i: int,
) -> Result<(ConstraintView, int), ParserErrorView> {
    match sp_selector(s, i) {
        None => Err(ParserErrorView::InvalidQuery(q)),
        Some((sel, j1)) => {
            let i2 = sp_skip_ws(s, j1);
            match sp_comp_symbol(s, i2) {
                None => Err(ParserErrorView::InvalidQuery(q)),
                Some((sym, j2)) => match resolve(q, reg, sym) {
                    None => Err(ParserErrorView::InvalidComparison(sym)),
                    Some(comp) => {
                        let i3 = sp_skip_ws(s, j2);
                        match sp_args(q, s, i3) {
                            None => Err(ParserErrorView::InvalidQuery(q)),
                            Some((vals, j3)) => {
                                if comp.multi && vals.len() < 2 {
                                    Err(
                                        ParserErrorView::InvalidConstraintArgs(
                                            seq!['>', ' ', '1'],
                                            vals.len() as usize,
                                        ),
                                    )
                                } else if !comp.multi && vals.len() != 1 {
                                    Err(
                                        ParserErrorView::InvalidConstraintArgs(
                                            seq!['=', '=', ' ', '1'],
                                            vals.len() as usize,
                                        ),
                                    )
                                } else {
                                    Ok(
                                        (
                                            ConstraintView {
                                                selector: sel,
                                                comparison: comp,
                                                arguments: vals,
                                            },
                                            j3,
                                        ),
                                    )
                                }
                            },
                        }
                    },
                },
            }
        },
    }
}

/// The tree builder's drain: pop operators from the end, each combining the
/// two topmost terms, so equal-precedence operators fold
/// right-associatively. Exactly one term must remain.
pub open spec fn sp_drain(terms: Seq<ExprView>, ops: Seq<Operator>) -> Result<
    ExprView,
    ParserErrorView,
>
    decreases ops.len(),
{
    if ops.len() == 0 {
        if terms.len() == 1 {
            Ok(terms[0])
        } else {
            Err(ParserErrorView::InvalidPairRule)
        }
    } else if terms.len() < 2 {
        Err(ParserErrorView::InvalidPairRule)
    } else {
        let combined = ExprView::Node(
            ops.last(),
            Box::new(terms[terms.len() - 2]),
            Box::new(terms.last()),
        );
        sp_drain(terms.drop_last().drop_last().push(combined), ops.drop_last())
    }
}

/// One term at `i`: a parenthesized expression, or a constraint.
pub open spec fn sp_term(q: QueryType, reg: Seq<(Seq<char>, CompView)>, s: Seq<char>, i: int) -> Result<
    (ExprView, int),
    ParserErrorView,
>
    decreases s.len() - i, 0int,
{
    if 0 <= i < s.len() && s[i] == '(' {
        let i1 = sp_skip_ws(s, i + 1);
        if i < i1 <= s.len() {
            match sp_expression(q, reg, s, i1) {
                Err(e) => Err(e),
                Ok((e, j)) => {
                    let i2 = sp_skip_ws(s, j);
                    if 0 <= i2 < s.len() && s[i2] == ')' {
                        Ok((e, i2 + 1))
                    } else {
                        Err(ParserErrorView::InvalidQuery(q))
                    }
                },
            }
        } else {
            Err(ParserErrorView::InvalidQuery(q))
        }
    } else {
        match sp_constraint(q, reg, s, i) {
            Ok((c, j)) => Ok((ExprView::Item(c), j)),
            Err(e) => Err(e),
        }
    }
}

/// An expression at `i`: a term followed by any run of `operator term`.
pub open spec fn sp_expression(
    q: QueryType,
    reg: Seq<(Seq<char>, CompView)>,
    s: Seq<char>,
    i: int,
) -> Result<(ExprView, int), ParserErrorView>
    decreases s.len() - i, 1int,
{
    match sp_term(q, reg, s, i) {
        Err(e) => Err(e),
        Ok((t, j)) => {
            if i < j <= s.len() {
                sp_expr_tail(q, reg, s, j, seq![t], Seq::<Operator>::empty())
            } else {
                Err(ParserErrorView::InvalidQuery(q))
            }
        },
    }
}

/// The `(operator term)*` run after a term, accumulating the two stacks of
/// the tree builder, then draining them once no operator follows.
pub open spec fn sp_expr_tail(
    q: QueryType,
    reg: Seq<(Seq<char>, CompView)>,
    s: Seq<char>,
    i: int,
    terms: Seq<ExprView>,
    ops: Seq<Operator>,
) -> Result<(ExprView, int), ParserErrorView>
    decreases s.len() - i, 2int,
{
    let i1 = sp_skip_ws(s, i);
    match sp_operator(q, s, i1) {
        None => match sp_drain(terms, ops) {
            Ok(e) => Ok((e, i)),
            Err(e) => Err(e),
        },
        Some((op, j1)) => {
            let i2 = sp_skip_ws(s, j1);
            if i <= i2 <= s.len() {
                match sp_term(q, reg, s, i2) {
                    Err(e) => Err(e),
                    Ok((t, j2)) => {
                        if i < j2 <= s.len() {
                            sp_expr_tail(q, reg, s, j2, terms.push(t), ops.push(op))
                        } else {
                            Err(ParserErrorView::InvalidQuery(q))
                        }
                    },
                }
            } else {
                Err(ParserErrorView::InvalidQuery(q))
            }
        },
    }
}

/// A whole query: leading whitespace, one expression, trailing whitespace,
/// and nothing else.
pub open spec fn sp_parse(q: QueryType, reg: Seq<(Seq<char>, CompView)>, s: Seq<char>) -> Result<
    ExprView,
    ParserErrorView,
> {
    let i0 = sp_skip_ws(s, 0);
    match sp_expression(q, reg, s, i0) {
        Err(e) => Err(e),
        Ok((e, j)) => {
            let j1 = sp_skip_ws(s, j);
            if j1 == s.len() {
                Ok(e)
            } else {
                Err(ParserErrorView::InvalidQuery(q))
            }
        },
    }
}

/// Reads one constraint at `i`, exactly as `sp_constraint` defines it.
fn parse_constraint_at(
    q: QueryType,
    entries: &Vec<(String, Comparison)>,
    s: &str,
    i: usize,
) -> (r: Result<(Constraint, usize), ParserError>)
    requires
        i <= s@.len(),
    ensures
        ({
            let sp = sp_constraint(q, reg_view(entries@), s@, i as int);
            match r {
                Ok((c, j)) => sp == Ok::<(ConstraintView, int), ParserErrorView>((c@, j as int))
                    && i < j <= s@.len(),
                Err(e) => sp == Err::<(ConstraintView, int), ParserErrorView>(e@),
            }
        }),
{
    match parse_selector(s, i) {
        None => Err(ParserError::InvalidQuery(q)),
        Some((sel, j1)) => {
            let i2 = skip_ws(s, j1);
            match parse_comp_symbol(s, i2) {
                None => Err(ParserError::InvalidQuery(q)),
                Some((sym, j2)) => {
                    match resolve_symbol(q, entries, sym.as_str()) {
                        None => Err(ParserError::InvalidComparison(sym)),
                        Some(comp) => {
                            let i3 = skip_ws(s, j2);
                            match parse_args(q, s, i3) {
                                None => Err(ParserError::InvalidQuery(q)),
                                Some((vals, j3)) => {
                                    if comp.is_multi() && vals.len() < 2 {
                                        let expect = String::from_str("> 1");
                                        proof {
                                            reveal_strlit("> 1");
                                            assert(expect@ =~= seq!['>', ' ', '1']);
                                        }
                                        Err(ParserError::InvalidConstraintArgs(expect, vals.len()))
                                    } else if !comp.is_multi() && vals.len() != 1 {
                                        let expect = String::from_str("== 1");
                                        proof {
                                            reveal_strlit("== 1");
                                            assert(expect@ =~= seq!['=', '=', ' ', '1']);
                                        }
                                        Err(ParserError::InvalidConstraintArgs(expect, vals.len()))
                                    } else {
                                        let c = Constraint {
                                            selector: sel,
                                            comparison: comp,
                                            arguments: Arguments(vals),
                                        };
                                        Ok((c, j3))
                                    }
                                },
                            }
                        },
                    }
                },
            }
        },
    }
}

/// Drains the two stacks of the tree builder, exactly as `sp_drain`
/// defines it.
fn drain_stacks(terms: Vec<Expr>, ops: Vec<Operator>) -> (r: Result<Expr, ParserError>)
    ensures
        ({
            let sp = sp_drain(terms@.map_values(|e: Expr| e@), ops@);
            match r {
                Ok(e) => sp == Ok::<ExprView, ParserErrorView>(e@),
                Err(er) => sp == Err::<ExprView, ParserErrorView>(er@),
            }
        }),
    decreases ops@.len(),
{
    let ghost terms0 = terms@.map_values(|e: Expr| e@);
    let ghost ops0 = ops@;
    let mut terms = terms;
    let mut ops = ops;
    if ops.len() == 0 {
        if terms.len() == 1 {
            match terms.pop() {
                Some(e) => {
                    proof {
                        assert(terms0[0] == e@);
                    }
                    Ok(e)
                },
                None => Err(ParserError::InvalidPairRule),
            }
        } else {
            Err(ParserError::InvalidPairRule)
        }
    } else if terms.len() < 2 {
        Err(ParserError::InvalidPairRule)
    } else {
        let right = terms.pop().unwrap();
        let left = terms.pop().unwrap();
        let op = ops.pop().unwrap();
        let ghost combined = ExprView::Node(
            ops0.last(),
            Box::new(terms0[terms0.len() - 2]),
            Box::new(terms0.last()),
        );
        terms.push(Expr::Node(op, Box::new(left), Box::new(right)));
        proof {
            assert(terms@.map_values(|e: Expr| e@) =~= terms0.drop_last().drop_last().push(
                combined,
            ));
            assert(ops@ =~= ops0.drop_last());
        }
        drain_stacks(terms, ops)
    }
}

/// Reads one term at `i`, exactly as `sp_term` defines it.
fn parse_term(q: QueryType, entries: &Vec<(String, Comparison)>, s: &str, i: usize) -> (r: Result<
    (Expr, usize),
    ParserError,
>)
    requires
        i <= s@.len(),
    ensures
        ({
            let sp = sp_term(q, reg_view(entries@), s@, i as int);
            match r {
                Ok((e, j)) => sp == Ok::<(ExprView, int), ParserErrorView>((e@, j as int)) && i < j
                    <= s@.len(),
                Err(er) => sp == Err::<(ExprView, int), ParserErrorView>(er@),
            }
        }),
    decreases s@.len() - i, 0int,
{
    let n = s.unicode_len();
    if i < n && s.get_char(i) == '(' {
        let i1 = skip_ws(s, i + 1);
        match parse_expression_at(q, entries, s, i1) {
            Err(e) => Err(e),
            Ok((e, j)) => {
                let i2 = skip_ws(s, j);
                if i2 < n && s.get_char(i2) == ')' {
                    Ok((e, i2 + 1))
                } else {
                    Err(ParserError::InvalidQuery(q))
                }
            },
        }
    } else {
        match parse_constraint_at(q, entries, s, i) {
            Ok((c, j)) => Ok((Expr::Item(c), j)),
            Err(e) => Err(e),
        }
    }
}

/// Reads one expression at `i`, exactly as `sp_expression` defines it.
fn parse_expression_at(
    q: QueryType,
    entries: &Vec<(String, Comparison)>,
    s: &str,
    i: usize,
) -> (r: Result<(Expr, usize), ParserError>)
    requires
        i <= s@.len(),
    ensures
        ({
            let sp = sp_expression(q, reg_view(entries@), s@, i as int);
            match r {
                Ok((e, j)) => sp == Ok::<(ExprView, int), ParserErrorView>((e@, j as int)) && i < j
                    <= s@.len(),
                Err(er) => sp == Err::<(ExprView, int), ParserErrorView>(er@),
            }
        }),
    decreases s@.len() - i, 1int,
{
    match parse_term(q, entries, s, i) {
        Err(e) => Err(e),
        Ok((t, j)) => {
            let ghost tv = t@;
            let mut terms: Vec<Expr> = Vec::new();
            terms.push(t);
            let ops: Vec<Operator> = Vec::new();
            proof {
                assert(terms@.map_values(|e: Expr| e@) =~= seq![tv]);
                assert(ops@ =~= Seq::<Operator>::empty());
            }
            parse_expr_tail(q, entries, s, j, terms, ops)
        },
    }
}

/// Reads the `(operator term)*` run after a term, exactly as `sp_expr_tail`
/// defines it.
fn parse_expr_tail(
    q: QueryType,
    entries: &Vec<(String, Comparison)>,
    s: &str,
    i: usize,
    terms: Vec<Expr>,
    ops: Vec<Operator>,
) -> (r: Result<(Expr, usize), ParserError>)
    requires
        i <= s@.len(),
    ensures
        ({
            let sp = sp_expr_tail(
                q,
                reg_view(entries@),
                s@,
                i as int,
                terms@.map_values(|e: Expr| e@),
                ops@,
            );
            match r {
                Ok((e, j)) => sp == Ok::<(ExprView, int), ParserErrorView>((e@, j as int)) && i <= j
                    <= s@.len(),
                Err(er) => sp == Err::<(ExprView, int), ParserErrorView>(er@),
            }
        }),
    decreases s@.len() - i, 2int,
{
    let ghost terms0 = terms@.map_values(|e: Expr| e@);
    let ghost ops0 = ops@;
    let i1 = skip_ws(s, i);
    match parse_operator(q, s, i1) {
        None => match drain_stacks(terms, ops) {
            Ok(e) => Ok((e, i)),
            Err(er) => Err(er),
        },
        Some((op, j1)) => {
            let i2 = skip_ws(s, j1);
            match parse_term(q, entries, s, i2) {
                Err(e) => Err(e),
                Ok((t, j2)) => {
                    let ghost tv = t@;
                    let mut terms2 = terms;
                    terms2.push(t);
                    let mut ops2 = ops;
                    ops2.push(op);
                    proof {
                        assert(terms2@.map_values(|e: Expr| e@) =~= terms0.push(tv));
                        assert(ops2@ =~= ops0.push(op));
                    }
                    parse_expr_tail(q, entries, s, j2, terms2, ops2)
                },
            }
        },
    }
}

/// Parses a whole query string, exactly as `sp_parse` defines it.
pub(crate) fn parse_query(q: QueryType, entries: &Vec<(String, Comparison)>, code: &str) -> (r:
    Result<Expr, ParserError>)
    ensures
        ({
            let sp = sp_parse(q, reg_view(entries@), code@);
            match r {
                Ok(e) => sp == Ok::<ExprView, ParserErrorView>(e@),
                Err(er) => sp == Err::<ExprView, ParserErrorView>(er@),
            }
        }),
{
    let i0 = skip_ws(code, 0);
    match parse_expression_at(q, entries, code, i0) {
        Err(e) => Err(e),
        Ok((e, j)) => {
            let j1 = skip_ws(code, j);
            let n = code.unicode_len();
            if j1 == n {
                Ok(e)
            } else {
                Err(ParserError::InvalidQuery(q))
            }
        },
    }
}

/// Every comparison of the tree came out of the registry's resolution.
pub open spec fn comps_resolved(
    q: QueryType,
    reg: Seq<(Seq<char>, CompView)>,
    e: ExprView,
) -> bool
    decreases e,
{
    match e {
        ExprView::Item(c) => exists|sym: Seq<char>| #[trigger] resolve(q, reg, sym) == Some(
            c.comparison,
        ),
        ExprView::Node(_, l, r) => comps_resolved(q, reg, *l) && comps_resolved(q, reg, *r),
    }
}

/// No comparison of the tree takes several values.
pub open spec fn expr_no_multi(e: ExprView) -> bool
    decreases e,
{
    match e {
        ExprView::Item(c) => !c.comparison.multi,
        ExprView::Node(_, l, r) => expr_no_multi(*l) && expr_no_multi(*r),
    }
}

proof fn lemma_constraint_wf(q: QueryType, reg: Seq<(Seq<char>, CompView)>, s: Seq<char>, i: int)
    requires
        reg_wf(reg),
    ensures
        sp_constraint(q, reg, s, i) matches Ok((c, j)) ==> c.wf() && (exists|sym: Seq<char>|
            #[trigger] resolve(q, reg, sym) == Some(c.comparison)),
{
    match sp_selector(s, i) {
        None => {},
        Some((sel, j1)) => {
            let i2 = sp_skip_ws(s, j1);
            match sp_comp_symbol(s, i2) {
                None => {},
                Some((sym, j2)) => {
                    lemma_resolve_valid(q, reg, sym);
                },
            }
        },
    }
}

proof fn lemma_drain_wf(
    q: QueryType,
    reg: Seq<(Seq<char>, CompView)>,
    terms: Seq<ExprView>,
    ops: Seq<Operator>,
)
    requires
        forall|k: int|
            0 <= k < terms.len() ==> (#[trigger] terms[k]).wf() && comps_resolved(q, reg, terms[k]),
    ensures
        sp_drain(terms, ops) matches Ok(e) ==> e.wf() && comps_resolved(q, reg, e),
    decreases ops.len(),
{
    if ops.len() == 0 {
    } else if terms.len() < 2 {
    } else {
        let combined = ExprView::Node(
            ops.last(),
            Box::new(terms[terms.len() - 2]),
            Box::new(terms.last()),
        );
        let rest = terms.drop_last().drop_last().push(combined);
        assert(combined.wf() && comps_resolved(q, reg, combined));
        assert forall|k: int|
            0 <= k < rest.len() implies (#[trigger] rest[k]).wf() && comps_resolved(
            q,
            reg,
            rest[k],
        ) by {
            if k < rest.len() - 1 {
                assert(rest[k] == terms[k]);
            } else {
                assert(rest[k] == combined);
            }
        }
        lemma_drain_wf(q, reg, rest, ops.drop_last());
    }
}

proof fn lemma_term_wf(q: QueryType, reg: Seq<(Seq<char>, CompView)>, s: Seq<char>, i: int)
    requires
        reg_wf(reg),
    ensures
        sp_term(q, reg, s, i) matches Ok((e, j)) ==> e.wf() && comps_resolved(q, reg, e),
    decreases s.len() - i, 0int,
{
    if 0 <= i < s.len() && s[i] == '(' {
        let i1 = sp_skip_ws(s, i + 1);
        if i < i1 <= s.len() {
            lemma_expression_wf(q, reg, s, i1);
        }
    } else {
        lemma_constraint_wf(q, reg, s, i);
    }
}

proof fn lemma_expression_wf(q: QueryType, reg: Seq<(Seq<char>, CompView)>, s: Seq<char>, i: int)
    requires
        reg_wf(reg),
    ensures
        sp_expression(q, reg, s, i) matches Ok((e, j)) ==> e.wf() && comps_resolved(q, reg, e),
    decreases s.len() - i, 1int,
{
    lemma_term_wf(q, reg, s, i);
    match sp_term(q, reg, s, i) {
        Err(_) => {},
        Ok((t, j)) => {
            if i < j <= s.len() {
                lemma_tail_wf(q, reg, s, j, seq![t], Seq::<Operator>::empty());
            }
        },
    }
}

proof fn lemma_tail_wf(
    q: QueryType,
    reg: Seq<(Seq<char>, CompView)>,
    s: Seq<char>,
    i: int,
    terms: Seq<ExprView>,
    ops: Seq<Operator>,
)
    requires
        reg_wf(reg),
        forall|k: int|
            0 <= k < terms.len() ==> (#[trigger] terms[k]).wf() && comps_resolved(q, reg, terms[k]),
    ensures
        sp_expr_tail(q, reg, s, i, terms, ops) matches Ok((e, j)) ==> e.wf() && comps_resolved(
            q,
            reg,
            e,
        ),
    decreases s.len() - i, 2int,
{
    let i1 = sp_skip_ws(s, i);
    match sp_operator(q, s, i1) {
        None => {
            lemma_drain_wf(q, reg, terms, ops);
        },
        Some((op, j1)) => {
            let i2 = sp_skip_ws(s, j1);
            if i <= i2 <= s.len() {
                lemma_term_wf(q, reg, s, i2);
                match sp_term(q, reg, s, i2) {
                    Err(_) => {},
                    Ok((t, j2)) => {
                        if i < j2 <= s.len() {
                            let terms2 = terms.push(t);
                            assert forall|k: int|
                                0 <= k < terms2.len() implies (#[trigger] terms2[k]).wf()
                                && comps_resolved(q, reg, terms2[k]) by {
                                if k < terms2.len() - 1 {
                                    assert(terms2[k] == terms[k]);
                                } else {
                                    assert(terms2[k] == t);
                                }
                            }
                            lemma_tail_wf(q, reg, s, j2, terms2, ops.push(op));
                        }
                    },
                }
            }
        },
    }
}

/// Whatever a successful parse returns is well formed: every constraint
/// satisfies the cardinality invariant and carries a comparison that the
/// registry resolves (hence a valid one).
pub proof fn lemma_parse_wf(q: QueryType, reg: Seq<(Seq<char>, CompView)>, s: Seq<char>)
    requires
        reg_wf(reg),
    ensures
        sp_parse(q, reg, s) matches Ok(e) ==> e.wf() && comps_resolved(q, reg, e),
{
    let i0 = sp_skip_ws(s, 0);
    lemma_expression_wf(q, reg, s, i0);
}

/// In FIQL with no user registrations, every resolvable comparison is one
/// of the six single-valued built-ins, so no parsed tree ever holds a
/// multi-value comparison: `=in=` and `=out=` are RSQL-only.
pub proof fn lemma_fiql_resolved_no_multi(
    reg: Seq<(Seq<char>, CompView)>,
    e: ExprView,
)
    requires
        forall|sym: Seq<char>| #![auto] user_lookup(reg, sym) is None,
        comps_resolved(QueryType::Fiql, reg, e),
    ensures
        expr_no_multi(e),
    decreases e,
{
    match e {
        ExprView::Item(c) => {
            let sym = choose|sym: Seq<char>| resolve(QueryType::Fiql, reg, sym) == Some(
                c.comparison,
            );
            assert(resolve(QueryType::Fiql, reg, sym) == Some(c.comparison));
        },
        ExprView::Node(_, l, r) => {
            lemma_fiql_resolved_no_multi(reg, *l);
            lemma_fiql_resolved_no_multi(reg, *r);
        },
    }
}

/// FIQL rejects `=in=` and `=out=`: whatever a FIQL parser without user
/// registrations parses successfully holds no multi-value comparison.
pub proof fn lemma_fiql_default_parse_no_multi(
    reg: Seq<(Seq<char>, CompView)>,
    s: Seq<char>,
    e: ExprView,
)
    requires
        forall|sym: Seq<char>| #![auto] user_lookup(reg, sym) is None,
        sp_parse(QueryType::Fiql, reg, s) == Ok::<ExprView, ParserErrorView>(e),
    ensures
        e.wf(),
        expr_no_multi(e),
{
    if reg.len() > 0 {
        assert(user_lookup(reg, reg.last().0) is Some);
    }
    assert(reg_wf(reg));
    lemma_parse_wf(QueryType::Fiql, reg, s);
    lemma_fiql_resolved_no_multi(reg, e);
}

} // verus!
