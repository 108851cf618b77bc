//! Whitespace padding in front of a query does not change what it parses
//! to.
//!
//! Every grammar function only reads the input at or after its position,
//! so parsing is invariant under shifting the whole input by a prefix; a
//! prefix of whitespace is then swallowed by the first skip. The `b_*`
//! lemmas bound the positions the grammar functions return; the
//! `lemma_shift_*` lemmas carry each function across the shift.

use vstd::prelude::*;

use crate::comparison::CompView;
use crate::constraint::ConstraintView;
use crate::error::ParserErrorView;
use crate::expr::{ExprView, Operator};
use crate::grammar::{
    is_ws, sp_args, sp_comp_symbol, sp_fiql_arg, sp_operator, sp_quote_end, sp_rsql_list_tail,
    sp_rsql_value, sp_scan_fiql_arg, sp_scan_letters, sp_scan_rsql_value, sp_scan_selector,
    sp_selector, sp_skip_ws,
};
use crate::parsing::{sp_constraint, sp_expr_tail, sp_expression, sp_parse, sp_term};
use crate::QueryType;

verus! {

/// A token result, its end position moved right by `d`.
spec fn shift_tok(r: Option<(Seq<char>, int)>, d: int) -> Option<(Seq<char>, int)> {
    match r {
        Some((v, j)) => Some((v, j + d)),
        None => None,
    }
}

/// A value-list result, its end position moved right by `d`.
spec fn shift_vals(r: Option<(Seq<Seq<char>>, int)>, d: int) -> Option<(Seq<Seq<char>>, int)> {
    match r {
        Some((v, j)) => Some((v, j + d)),
        None => None,
    }
}

/// An operator result, its end position moved right by `d`.
spec fn shift_op(r: Option<(Operator, int)>, d: int) -> Option<(Operator, int)> {
    match r {
        Some((op, j)) => Some((op, j + d)),
        None => None,
    }
}

/// A constraint result, its end position moved right by `d`.
spec fn shift_cons(r: Result<(ConstraintView, int), ParserErrorView>, d: int) -> Result<
    (ConstraintView, int),
    ParserErrorView,
> {
    match r {
        Ok((c, j)) => Ok((c, j + d)),
        Err(e) => Err(e),
    }
}

/// An expression result, its end position moved right by `d`.
spec fn shift_expr(r: Result<(ExprView, int), ParserErrorView>, d: int) -> Result<
    (ExprView, int),
    ParserErrorView,
> {
    match r {
        Ok((e, j)) => Ok((e, j + d)),
        Err(e) => Err(e),
    }
}

proof fn m_skip_ws(s: Seq<char>, i: int)
    requires
        0 <= i,
    ensures
        sp_skip_ws(s, i) >= i,
    decreases s.len() - i,
{
    if i < s.len() && is_ws(s[i]) {
        m_skip_ws(s, i + 1);
    }
}

proof fn b_skip_ws(s: Seq<char>, i: int)
    requires
        0 <= i <= s.len(),
    ensures
        i <= sp_skip_ws(s, i) <= s.len(),
    decreases s.len() - i,
{
    if i < s.len() && is_ws(s[i]) {
        b_skip_ws(s, i + 1);
    }
}

proof fn b_scan_selector(s: Seq<char>, i: int)
    requires
        0 <= i <= s.len(),
    ensures
        i <= sp_scan_selector(s, i) <= s.len(),
    decreases s.len() - i,
{
    if i < s.len() && crate::grammar::is_selector_char(s[i]) {
        b_scan_selector(s, i + 1);
    }
}

proof fn b_scan_letters(s: Seq<char>, i: int)
    requires
        0 <= i <= s.len(),
    ensures
        i <= sp_scan_letters(s, i) <= s.len(),
    decreases s.len() - i,
{
    if i < s.len() && crate::comparison::is_ascii_letter(s[i]) {
        b_scan_letters(s, i + 1);
    }
}

proof fn b_scan_fiql_arg(s: Seq<char>, i: int)
    requires
        0 <= i <= s.len(),
    ensures
        i <= sp_scan_fiql_arg(s, i) <= s.len(),
    decreases s.len() - i,
{
    if i < s.len() && crate::grammar::is_fiql_arg_char(s[i]) {
        b_scan_fiql_arg(s, i + 1);
    }
}

proof fn b_scan_rsql_value(s: Seq<char>, i: int)
    requires
        0 <= i <= s.len(),
    ensures
        i <= sp_scan_rsql_value(s, i) <= s.len(),
    decreases s.len() - i,
{
    if i < s.len() && crate::grammar::is_rsql_value_char(s[i]) {
        b_scan_rsql_value(s, i + 1);
    }
}

proof fn b_quote_end(s: Seq<char>, i: int, q: char)
    requires
        0 <= i,
    ensures
        sp_quote_end(s, i, q) matches Some(e) ==> i <= e < s.len(),
    decreases s.len() - i,
{
    if 0 <= i < s.len() {
        if s[i] == q {
        } else if s[i] == '\\' {
            if i + 1 < s.len() {
                b_quote_end(s, i + 2, q);
            }
        } else {
            b_quote_end(s, i + 1, q);
        }
    }
}

proof fn b_selector(s: Seq<char>, i: int)
    requires
        0 <= i,
    ensures
        sp_selector(s, i) matches Some((v, j)) ==> i < j <= s.len(),
{
    if 0 <= i < s.len() && crate::grammar::is_selector_start(s[i]) {
        b_scan_selector(s, i + 1);
    }
}

proof fn b_comp_symbol(s: Seq<char>, i: int)
    requires
        0 <= i,
    ensures
        sp_comp_symbol(s, i) matches Some((v, j)) ==> i < j <= s.len(),
{
    if 0 <= i < s.len() && s[i] == '=' {
        b_scan_letters(s, i + 1);
    }
}

proof fn b_rsql_value(s: Seq<char>, i: int)
    requires
        0 <= i,
    ensures
        sp_rsql_value(s, i) matches Some((v, j)) ==> i < j <= s.len(),
{
    if 0 <= i < s.len() {
        if s[i] == '"' {
            b_quote_end(s, i + 1, '"');
        } else if s[i] == '\'' {
            b_quote_end(s, i + 1, '\'');
        } else {
            b_scan_rsql_value(s, i);
        }
    }
}

proof fn b_list_tail(s: Seq<char>, i: int, acc: Seq<Seq<char>>)
    requires
        0 <= i <= s.len(),
    ensures
        sp_rsql_list_tail(s, i, acc) matches Some((v, j)) ==> i < j <= s.len(),
    decreases s.len() - i,
{
    b_skip_ws(s, i);
    let i1 = sp_skip_ws(s, i);
    if 0 <= i1 < s.len() && s[i1] == ',' {
        let i2 = sp_skip_ws(s, i1 + 1);
        match sp_rsql_value(s, i2) {
            Some((v, j)) => {
                if i < j <= s.len() {
                    b_list_tail(s, j, acc.push(v));
                }
            },
            None => {},
        }
    }
}

proof fn b_args(q: QueryType, s: Seq<char>, i: int)
    requires
        0 <= i,
    ensures
        sp_args(q, s, i) matches Some((v, j)) ==> i < j <= s.len(),
{
    match q {
        QueryType::Fiql => {
            if i <= s.len() {
                b_scan_fiql_arg(s, i);
            }
        },
        QueryType::Rsql => {
            if 0 <= i < s.len() && s[i] == '(' {
                b_skip_ws(s, i + 1);
                let i1 = sp_skip_ws(s, i + 1);
                b_rsql_value(s, i1);
                match sp_rsql_value(s, i1) {
                    Some((v, j)) => {
                        b_list_tail(s, j, seq![v]);
                    },
                    None => {},
                }
            } else {
                b_rsql_value(s, i);
            }
        },
    }
}

proof fn b_constraint(q: QueryType, reg: Seq<(Seq<char>, CompView)>, s: Seq<char>, i: int)
    requires
        0 <= i,
    ensures
        sp_constraint(q, reg, s, i) matches Ok((c, j)) ==> i < j <= s.len(),
{
    b_selector(s, i);
    match sp_selector(s, i) {
        None => {},
        Some((sel, j1)) => {
            b_skip_ws(s, j1);
            let i2 = sp_skip_ws(s, j1);
            b_comp_symbol(s, i2);
            match sp_comp_symbol(s, i2) {
                None => {},
                Some((sym, j2)) => {
                    b_skip_ws(s, j2);
                    let i3 = sp_skip_ws(s, j2);
                    b_args(q, s, i3);
                },
            }
        },
    }
}

proof fn lemma_shift_skip_ws(t: Seq<char>, s: Seq<char>, i: int)
    requires
        0 <= i,
    ensures
        sp_skip_ws(t + s, t.len() + i) == t.len() + sp_skip_ws(s, i),
    decreases s.len() - i,
{
    if i < s.len() {
        assert((t + s)[t.len() + i] == s[i]);
        if is_ws(s[i]) {
            lemma_shift_skip_ws(t, s, i + 1);
        }
    }
}

proof fn lemma_shift_scan_selector(t: Seq<char>, s: Seq<char>, i: int)
    requires
        0 <= i,
    ensures
        sp_scan_selector(t + s, t.len() + i) == t.len() + sp_scan_selector(s, i),
    decreases s.len() - i,
{
    if i < s.len() {
        assert((t + s)[t.len() + i] == s[i]);
        if crate::grammar::is_selector_char(s[i]) {
            lemma_shift_scan_selector(t, s, i + 1);
        }
    }
}

proof fn lemma_shift_scan_letters(t: Seq<char>, s: Seq<char>, i: int)
    requires
        0 <= i,
    ensures
        sp_scan_letters(t + s, t.len() + i) == t.len() + sp_scan_letters(s, i),
    decreases s.len() - i,
{
    if i < s.len() {
        assert((t + s)[t.len() + i] == s[i]);
        if crate::comparison::is_ascii_letter(s[i]) {
            lemma_shift_scan_letters(t, s, i + 1);
        }
    }
}

proof fn lemma_shift_scan_fiql_arg(t: Seq<char>, s: Seq<char>, i: int)
    requires
        0 <= i,
    ensures
        sp_scan_fiql_arg(t + s, t.len() + i) == t.len() + sp_scan_fiql_arg(s, i),
    decreases s.len() - i,
{
    if i < s.len() {
        assert((t + s)[t.len() + i] == s[i]);
        if crate::grammar::is_fiql_arg_char(s[i]) {
            lemma_shift_scan_fiql_arg(t, s, i + 1);
        }
    }
}

proof fn lemma_shift_scan_rsql_value(t: Seq<char>, s: Seq<char>, i: int)
    requires
        0 <= i,
    ensures
        sp_scan_rsql_value(t + s, t.len() + i) == t.len() + sp_scan_rsql_value(s, i),
    decreases s.len() - i,
{
    if i < s.len() {
        assert((t + s)[t.len() + i] == s[i]);
        if crate::grammar::is_rsql_value_char(s[i]) {
            lemma_shift_scan_rsql_value(t, s, i + 1);
        }
    }
}

proof fn lemma_shift_subrange(t: Seq<char>, s: Seq<char>, a: int, b: int)
    requires
        0 <= a <= b <= s.len(),
    ensures
        (t + s).subrange(t.len() + a, t.len() + b) == s.subrange(a, b),
{
    assert((t + s).subrange(t.len() + a, t.len() + b) =~= s.subrange(a, b));
}

proof fn lemma_shift_selector(t: Seq<char>, s: Seq<char>, i: int)
    requires
        0 <= i,
    ensures
        sp_selector(t + s, t.len() + i) == shift_tok(sp_selector(s, i), t.len() as int),
{
    if 0 <= i < s.len() {
        assert((t + s)[t.len() + i] == s[i]);
        if crate::grammar::is_selector_start(s[i]) {
            b_scan_selector(s, i + 1);
            lemma_shift_scan_selector(t, s, i + 1);
            let j = sp_scan_selector(s, i + 1);
            lemma_shift_subrange(t, s, i, j);
        }
    }
}

proof fn lemma_shift_comp_symbol(t: Seq<char>, s: Seq<char>, i: int)
    requires
        0 <= i,
    ensures
        sp_comp_symbol(t + s, t.len() + i) == shift_tok(sp_comp_symbol(s, i), t.len() as int),
{
    if 0 <= i < s.len() {
        assert((t + s)[t.len() + i] == s[i]);
        if i + 1 < s.len() {
            assert((t + s)[t.len() + i + 1] == s[i + 1]);
        }
        if s[i] == '!' || s[i] == '<' || s[i] == '>' {
            if i + 1 <= s.len() {
                lemma_shift_subrange(t, s, i, i + 1);
            }
            if i + 2 <= s.len() {
                lemma_shift_subrange(t, s, i, i + 2);
            }
        } else if s[i] == '=' {
            b_scan_letters(s, i + 1);
            lemma_shift_scan_letters(t, s, i + 1);
            let j = sp_scan_letters(s, i + 1);
            if j < s.len() {
                assert((t + s)[t.len() + j] == s[j]);
                lemma_shift_subrange(t, s, i, j + 1);
            }
        }
    }
}

proof fn lemma_shift_quote_end(t: Seq<char>, s: Seq<char>, i: int, q: char)
    requires
        0 <= i,
    ensures
        sp_quote_end(t + s, t.len() + i, q) == (match sp_quote_end(s, i, q) {
            Some(e) => Some(t.len() + e),
            None => None,
        }),
    decreases s.len() - i,
{
    if i < s.len() {
        assert((t + s)[t.len() + i] == s[i]);
        if s[i] == q {
        } else if s[i] == '\\' {
            if i + 1 < s.len() {
                lemma_shift_quote_end(t, s, i + 2, q);
            }
        } else {
            lemma_shift_quote_end(t, s, i + 1, q);
        }
    }
}

proof fn lemma_shift_rsql_value(t: Seq<char>, s: Seq<char>, i: int)
    requires
        0 <= i,
    ensures
        sp_rsql_value(t + s, t.len() + i) == shift_tok(sp_rsql_value(s, i), t.len() as int),
{
    if 0 <= i < s.len() {
        assert((t + s)[t.len() + i] == s[i]);
        if s[i] == '"' || s[i] == '\'' {
            let q = s[i];
            b_quote_end(s, i + 1, q);
            lemma_shift_quote_end(t, s, i + 1, q);
            match sp_quote_end(s, i + 1, q) {
                Some(e) => {
                    lemma_shift_subrange(t, s, i + 1, e);
                },
                None => {},
            }
        } else {
            b_scan_rsql_value(s, i);
            lemma_shift_scan_rsql_value(t, s, i);
            let j = sp_scan_rsql_value(s, i);
            lemma_shift_subrange(t, s, i, j);
        }
    }
}

proof fn lemma_shift_list_tail(t: Seq<char>, s: Seq<char>, i: int, acc: Seq<Seq<char>>)
    requires
        0 <= i,
    ensures
        sp_rsql_list_tail(t + s, t.len() + i, acc) == shift_vals(
            sp_rsql_list_tail(s, i, acc),
            t.len() as int,
        ),
    decreases s.len() - i,
{
    lemma_shift_skip_ws(t, s, i);
    m_skip_ws(s, i);
    let i1 = sp_skip_ws(s, i);
    if 0 <= i1 < s.len() {
        assert((t + s)[t.len() + i1] == s[i1]);
    }
    if 0 <= i1 < s.len() && s[i1] == ',' {
        lemma_shift_skip_ws(t, s, i1 + 1);
        b_skip_ws(s, i1 + 1);
        let i2 = sp_skip_ws(s, i1 + 1);
        lemma_shift_rsql_value(t, s, i2);
        match sp_rsql_value(s, i2) {
            Some((v, j)) => {
                if i < j <= s.len() {
                    lemma_shift_list_tail(t, s, j, acc.push(v));
                }
            },
            None => {},
        }
    }
}

proof fn lemma_shift_args(t: Seq<char>, s: Seq<char>, i: int, q: QueryType)
    requires
        0 <= i,
    ensures
        sp_args(q, t + s, t.len() + i) == shift_vals(sp_args(q, s, i), t.len() as int),
{
    match q {
        QueryType::Fiql => {
            lemma_shift_scan_fiql_arg(t, s, i);
            let j = sp_scan_fiql_arg(s, i);
            if i < j {
                if i <= s.len() {
                    b_scan_fiql_arg(s, i);
                    lemma_shift_subrange(t, s, i, j);
                }
            }
            assert(sp_fiql_arg(t + s, t.len() + i) == shift_tok(
                sp_fiql_arg(s, i),
                t.len() as int,
            ));
        },
        QueryType::Rsql => {
            if 0 <= i < s.len() {
                assert((t + s)[t.len() + i] == s[i]);
            }
            if 0 <= i < s.len() && s[i] == '(' {
                lemma_shift_skip_ws(t, s, i + 1);
                let i1 = sp_skip_ws(s, i + 1);
                b_skip_ws(s, i + 1);
                lemma_shift_rsql_value(t, s, i1);
                b_rsql_value(s, i1);
                match sp_rsql_value(s, i1) {
                    Some((v, j)) => {
                        lemma_shift_list_tail(t, s, j, seq![v]);
                    },
                    None => {},
                }
            } else {
                lemma_shift_rsql_value(t, s, i);
            }
        },
    }
}

proof fn lemma_shift_operator(t: Seq<char>, s: Seq<char>, i: int, q: QueryType)
    requires
        0 <= i,
    ensures
        sp_operator(q, t + s, t.len() + i) == shift_op(sp_operator(q, s, i), t.len() as int),
{
    if 0 <= i < s.len() {
        assert((t + s)[t.len() + i] == s[i]);
        if i + 1 < s.len() {
            assert((t + s)[t.len() + i + 1] == s[i + 1]);
        }
        if i + 2 < s.len() {
            assert((t + s)[t.len() + i + 2] == s[i + 2]);
        }
        if i + 3 < s.len() {
            assert((t + s)[t.len() + i + 3] == s[i + 3]);
        }
    }
}

proof fn lemma_shift_constraint(
    t: Seq<char>,
    s: Seq<char>,
    i: int,
    q: QueryType,
    reg: Seq<(Seq<char>, CompView)>,
)
    requires
        0 <= i,
    ensures
        sp_constraint(q, reg, t + s, t.len() + i) == shift_cons(
            sp_constraint(q, reg, s, i),
            t.len() as int,
        ),
{
    b_selector(s, i);
    lemma_shift_selector(t, s, i);
    match sp_selector(s, i) {
        None => {},
        Some((sel, j1)) => {
            b_skip_ws(s, j1);
            lemma_shift_skip_ws(t, s, j1);
            let i2 = sp_skip_ws(s, j1);
            b_comp_symbol(s, i2);
            lemma_shift_comp_symbol(t, s, i2);
            match sp_comp_symbol(s, i2) {
                None => {},
                Some((sym, j2)) => {
                    b_skip_ws(s, j2);
                    lemma_shift_skip_ws(t, s, j2);
                    let i3 = sp_skip_ws(s, j2);
                    lemma_shift_args(t, s, i3, q);
                },
            }
        },
    }
}

proof fn lemma_shift_term(
    t: Seq<char>,
    s: Seq<char>,
    i: int,
    q: QueryType,
    reg: Seq<(Seq<char>, CompView)>,
)
    requires
        0 <= i,
    ensures
        sp_term(q, reg, t + s, t.len() + i) == shift_expr(sp_term(q, reg, s, i), t.len() as int),
    decreases s.len() - i, 0int,
{
    if 0 <= i < s.len() {
        assert((t + s)[t.len() + i] == s[i]);
    }
    if 0 <= i < s.len() && s[i] == '(' {
        b_skip_ws(s, i + 1);
        lemma_shift_skip_ws(t, s, i + 1);
        let i1 = sp_skip_ws(s, i + 1);
        if i < i1 <= s.len() {
            lemma_shift_expression(t, s, i1, q, reg);
            b_expression(q, reg, s, i1);
            match sp_expression(q, reg, s, i1) {
                Err(_) => {},
                Ok((e, j)) => {
                    b_skip_ws(s, j);
                    lemma_shift_skip_ws(t, s, j);
                    let i2 = sp_skip_ws(s, j);
                    if 0 <= i2 < s.len() {
                        assert((t + s)[t.len() + i2] == s[i2]);
                    }
                },
            }
        }
    } else {
        lemma_shift_constraint(t, s, i, q, reg);
    }
}

proof fn lemma_shift_expression(
    t: Seq<char>,
    s: Seq<char>,
    i: int,
    q: QueryType,
    reg: Seq<(Seq<char>, CompView)>,
)
    requires
        0 <= i,
    ensures
        sp_expression(q, reg, t + s, t.len() + i) == shift_expr(
            sp_expression(q, reg, s, i),
            t.len() as int,
        ),
    decreases s.len() - i, 1int,
{
    lemma_shift_term(t, s, i, q, reg);
    match sp_term(q, reg, s, i) {
        Err(_) => {},
        Ok((tm, j)) => {
            if i < j <= s.len() {
                lemma_shift_expr_tail(t, s, j, q, reg, seq![tm], Seq::<Operator>::empty());
            }
        },
    }
}

proof fn lemma_shift_expr_tail(
    t: Seq<char>,
    s: Seq<char>,
    i: int,
    q: QueryType,
    reg: Seq<(Seq<char>, CompView)>,
    terms: Seq<ExprView>,
    ops: Seq<Operator>,
)
    requires
        0 <= i,
    ensures
        sp_expr_tail(q, reg, t + s, t.len() + i, terms, ops) == shift_expr(
            sp_expr_tail(q, reg, s, i, terms, ops),
            t.len() as int,
        ),
    decreases s.len() - i, 2int,
{
    lemma_shift_skip_ws(t, s, i);
    m_skip_ws(s, i);
    let i1 = sp_skip_ws(s, i);
    lemma_shift_operator(t, s, i1, q);
    match sp_operator(q, s, i1) {
        None => {},
        Some((op, j1)) => {
            lemma_shift_skip_ws(t, s, j1);
            let i2 = sp_skip_ws(s, j1);
            if i <= i2 <= s.len() {
                lemma_shift_term(t, s, i2, q, reg);
                match sp_term(q, reg, s, i2) {
                    Err(_) => {},
                    Ok((tm, j2)) => {
                        if i < j2 <= s.len() {
                            lemma_shift_expr_tail(t, s, j2, q, reg, terms.push(tm), ops.push(op));
                        }
                    },
                }
            }
        },
    }
}

proof fn b_expression(q: QueryType, reg: Seq<(Seq<char>, CompView)>, s: Seq<char>, i: int)
    requires
        0 <= i,
    ensures
        sp_expression(q, reg, s, i) matches Ok((e, j)) ==> i < j <= s.len(),
    decreases s.len() - i, 1int,
{
    b_term(q, reg, s, i);
    match sp_term(q, reg, s, i) {
        Err(_) => {},
        Ok((tm, j)) => {
            if i < j <= s.len() {
                b_expr_tail(q, reg, s, j, seq![tm], Seq::<Operator>::empty());
            }
        },
    }
}

proof fn b_term(q: QueryType, reg: Seq<(Seq<char>, CompView)>, s: Seq<char>, i: int)
    requires
        0 <= i,
    ensures
        sp_term(q, reg, s, i) matches Ok((e, j)) ==> i < j <= s.len(),
    decreases s.len() - i, 0int,
{
    if 0 <= i < s.len() && s[i] == '(' {
        b_skip_ws(s, i + 1);
        let i1 = sp_skip_ws(s, i + 1);
        if i < i1 <= s.len() {
            b_expression(q, reg, s, i1);
            match sp_expression(q, reg, s, i1) {
                Err(_) => {},
                Ok((e, j)) => {
                    b_skip_ws(s, j);
                },
            }
        }
    } else {
        b_constraint(q, reg, s, i);
    }
}

proof fn b_expr_tail(
    q: QueryType,
    reg: Seq<(Seq<char>, CompView)>,
    s: Seq<char>,
    i: int,
    terms: Seq<ExprView>,
    ops: Seq<Operator>,
)
    requires
        0 <= i <= s.len(),
    ensures
        sp_expr_tail(q, reg, s, i, terms, ops) matches Ok((e, j)) ==> i <= j <= s.len(),
    decreases s.len() - i, 2int,
{
    let i1 = sp_skip_ws(s, i);
    match sp_operator(q, s, i1) {
        None => {},
        Some((op, j1)) => {
            let i2 = sp_skip_ws(s, j1);
            if i <= i2 <= s.len() {
                b_term(q, reg, s, i2);
                match sp_term(q, reg, s, i2) {
                    Err(_) => {},
                    Ok((tm, j2)) => {
                        if i < j2 <= s.len() {
                            b_expr_tail(q, reg, s, j2, terms.push(tm), ops.push(op));
                        }
                    },
                }
            }
        },
    }
}

/// A whitespace run at a position is swallowed whole by the skip.
proof fn lemma_skip_ws_through(w: Seq<char>, s: Seq<char>, i: int)
    requires
        forall|k: int| 0 <= k < w.len() ==> is_ws(#[trigger] w[k]),
        0 <= i <= w.len(),
    ensures
        sp_skip_ws(w + s, i) == sp_skip_ws(w + s, w.len() as int),
    decreases w.len() - i,
{
    if i < w.len() {
        assert((w + s)[i] == w[i]);
        lemma_skip_ws_through(w, s, i + 1);
    }
}

/// Whitespace in front of a query does not change what it parses to: the
/// same tree comes back, or the same error.
pub proof fn lemma_leading_ws(
    q: QueryType,
    reg: Seq<(Seq<char>, CompView)>,
    w: Seq<char>,
    s: Seq<char>,
)
    requires
        forall|k: int| 0 <= k < w.len() ==> is_ws(#[trigger] w[k]),
    ensures
        sp_parse(q, reg, w + s) == sp_parse(q, reg, s),
{
    lemma_skip_ws_through(w, s, 0);
    lemma_shift_skip_ws(w, s, 0);
    b_skip_ws(s, 0);
    let i0 = sp_skip_ws(s, 0);
    assert(sp_skip_ws(w + s, 0) == w.len() + i0);
    lemma_shift_expression(w, s, i0, q, reg);
    match sp_expression(q, reg, s, i0) {
        Err(_) => {},
        Ok((e, j)) => {
            b_expression(q, reg, s, i0);
            lemma_shift_skip_ws(w, s, j);
            b_skip_ws(s, j);
        },
    }
}

} // verus!
