//! The round-trip law: rendering a tree and re-parsing it with RSQL gives
//! the same tree back.
//!
//! The law cannot hold of every tree the parser can produce, so it is
//! proved for the `round_trippable` ones: every internal node's left child
//! is a leaf (rendering adds no parentheses around a left operand, so a
//! grouped left operand re-parses right-leaning), every canonical operator
//! symbol resolves back to its own comparison, and every argument value
//! re-lexes to itself (a value holding whitespace outside the reserved set,
//! or an unescaped copy of the quote chosen for it, renders lossily).

use vstd::prelude::*;

use crate::comparison::{is_ascii_letter, valid_symbol, CompView};
use crate::constraint::{
    arguments_rendered, has_reserved, join_quoted, prefers_double_quote,
    quote_wrapped, ConstraintView,
};
use crate::error::ParserErrorView;
use crate::expr::{operator_char, ExprView, Operator};
use crate::grammar::{
    is_rsql_value_char, is_selector_char, is_selector_start, is_ws, sp_args, sp_comp_symbol,
    sp_operator, sp_quote_end, sp_rsql_list_tail, sp_rsql_value, sp_scan_letters,
    sp_scan_rsql_value, sp_scan_selector, sp_selector, sp_skip_ws,
};
use crate::parsing::{sp_constraint, sp_drain, sp_expr_tail, sp_expression, sp_parse, sp_term};
use crate::registry::resolve;
use crate::QueryType;

verus! {

/// The quote scan of a value's content runs past the whole content without
/// meeting an unescaped closing quote, and does not end mid-escape.
pub open spec fn scans_past(v: Seq<char>, q: char) -> bool
    decreases v.len(),
{
    if v.len() == 0 {
        true
    } else if v[0] == q {
        false
    } else if v[0] == '\\' {
        v.len() >= 2 && scans_past(v.subrange(2, v.len() as int), q)
    } else {
        scans_past(v.subrange(1, v.len() as int), q)
    }
}

/// The quote wrapper chosen for a value that needs quoting.
pub open spec fn chosen_quote(v: Seq<char>) -> char {
    if prefers_double_quote(v, false) {
        '"'
    } else {
        '\''
    }
}

/// A value whose rendering re-lexes to exactly the value: rendered raw, it
/// is a non-empty run of unquoted-value characters; rendered quoted, the
/// scan for the closing quote passes over the whole content.
pub open spec fn value_safe(v: Seq<char>) -> bool {
    if has_reserved(v) {
        scans_past(v, chosen_quote(v))
    } else {
        v.len() >= 1 && forall|k: int| 0 <= k < v.len() ==> is_rsql_value_char(#[trigger] v[k])
    }
}

/// A selector of the shape the grammar reads back.
pub open spec fn selector_shaped(sel: Seq<char>) -> bool {
    &&& sel.len() >= 1
    &&& is_selector_start(sel[0])
    &&& forall|k: int| 0 <= k < sel.len() ==> is_selector_char(#[trigger] sel[k])
}

/// A constraint whose rendering re-parses to itself under the given
/// registry: shaped selector, well-formed cardinality, a canonical symbol
/// that resolves back to this very comparison, and safe argument values.
pub open spec fn constraint_round_trippable(
    reg: Seq<(Seq<char>, CompView)>,
    c: ConstraintView,
) -> bool {
    &&& selector_shaped(c.selector)
    &&& valid_symbol(c.comparison.canon())
    &&& resolve(QueryType::Rsql, reg, c.comparison.canon()) == Some(c.comparison)
    &&& c.wf()
    &&& forall|k: int| 0 <= k < c.arguments.len() ==> value_safe(#[trigger] c.arguments[k])
}

proof fn lemma_scan_selector_run(s: Seq<char>, i: int, j: int)
    requires
        0 <= i <= j <= s.len(),
        forall|k: int| i <= k < j ==> is_selector_char(#[trigger] s[k]),
        j == s.len() || !is_selector_char(s[j]),
    ensures
        sp_scan_selector(s, i) == j,
    decreases j - i,
{
    if i < j {
        lemma_scan_selector_run(s, i + 1, j);
    }
}

proof fn lemma_scan_letters_run(s: Seq<char>, i: int, j: int)
    requires
        0 <= i <= j <= s.len(),
        forall|k: int| i <= k < j ==> is_ascii_letter(#[trigger] s[k]),
        j == s.len() || !is_ascii_letter(s[j]),
    ensures
        sp_scan_letters(s, i) == j,
    decreases j - i,
{
    if i < j {
        lemma_scan_letters_run(s, i + 1, j);
    }
}

proof fn lemma_scan_value_run(s: Seq<char>, i: int, j: int)
    requires
        0 <= i <= j <= s.len(),
        forall|k: int| i <= k < j ==> is_rsql_value_char(#[trigger] s[k]),
        j == s.len() || !is_rsql_value_char(s[j]),
    ensures
        sp_scan_rsql_value(s, i) == j,
    decreases j - i,
{
    if i < j {
        lemma_scan_value_run(s, i + 1, j);
    }
}

/// A position holding no whitespace is already past the whitespace skip.
proof fn lemma_skip_ws_none(s: Seq<char>, i: int)
    requires
        i == s.len() || !is_ws(s[i]),
    ensures
        sp_skip_ws(s, i) == i,
{
}

/// A shaped selector embedded at `i`, followed by a non-selector character,
/// reads back as exactly itself.
proof fn lemma_selector_at(s: Seq<char>, i: int, sel: Seq<char>)
    requires
        selector_shaped(sel),
        0 <= i,
        i + sel.len() <= s.len(),
        s.subrange(i, i + sel.len()) == sel,
        i + sel.len() == s.len() || !is_selector_char(s[i + sel.len()]),
    ensures
        sp_selector(s, i) == Some((sel, i + sel.len())),
{
    assert forall|k: int| 0 <= k < sel.len() implies s[i + k] == sel[k] by {
        assert(s.subrange(i, i + sel.len())[k] == s[i + k]);
    }
    assert forall|k: int| i + 1 <= k < i + sel.len() implies is_selector_char(
        #[trigger] s[k],
    ) by {
        assert(s[k] == sel[k - i]);
    }
    lemma_scan_selector_run(s, i + 1, i + sel.len());
    assert(is_selector_start(s[i]));
}

/// A well-formed comparison symbol embedded at `i` reads back as exactly
/// itself; a single `<` or `>` additionally needs no `=` right after it.
proof fn lemma_comp_symbol_at(s: Seq<char>, i: int, sym: Seq<char>)
    requires
        valid_symbol(sym),
        0 <= i,
        i + sym.len() <= s.len(),
        s.subrange(i, i + sym.len()) == sym,
        sym.len() == 1 ==> (i + 1 == s.len() || s[i + 1] != '='),
    ensures
        sp_comp_symbol(s, i) == Some((sym, i + sym.len())),
{
    assert forall|k: int| 0 <= k < sym.len() implies s[i + k] == sym[k] by {
        assert(s.subrange(i, i + sym.len())[k] == s[i + k]);
    }
    if sym[0] == '=' {
        assert(sym.len() >= 2 && sym[sym.len() - 1] == '=');
        assert forall|k: int| i + 1 <= k < i + sym.len() - 1 implies is_ascii_letter(
            #[trigger] s[k],
        ) by {
            assert(s[k] == sym[k - i]);
        }
        assert(!is_ascii_letter(s[i + sym.len() - 1]));
        lemma_scan_letters_run(s, i + 1, i + sym.len() - 1);
    }
}

/// A value content embedded at `i` whose scan passes, with its closing
/// quote right after it, puts the quote end exactly there.
proof fn lemma_quote_end_at(s: Seq<char>, i: int, v: Seq<char>, q: char)
    requires
        q == '"' || q == '\'',
        scans_past(v, q),
        0 <= i,
        i + v.len() < s.len(),
        s.subrange(i, i + v.len()) == v,
        s[i + v.len()] == q,
    ensures
        sp_quote_end(s, i, q) == Some(i + v.len()),
    decreases v.len(),
{
    assert forall|k: int| 0 <= k < v.len() implies s[i + k] == v[k] by {
        assert(s.subrange(i, i + v.len())[k] == s[i + k]);
    }
    if v.len() == 0 {
    } else if v[0] == '\\' {
        let rest = v.subrange(2, v.len() as int);
        assert(s.subrange(i + 2, i + v.len()) =~= rest);
        lemma_quote_end_at(s, i + 2, rest, q);
    } else {
        let rest = v.subrange(1, v.len() as int);
        assert(s.subrange(i + 1, i + v.len()) =~= rest);
        lemma_quote_end_at(s, i + 1, rest, q);
    }
}

/// A safe value's rendering embedded at `i` reads back as exactly the
/// value; when it renders raw, no value character may follow it.
proof fn lemma_value_at(s: Seq<char>, i: int, v: Seq<char>)
    requires
        value_safe(v),
        0 <= i,
        i + quote_wrapped(v).len() <= s.len(),
        s.subrange(i, i + quote_wrapped(v).len()) == quote_wrapped(v),
        i + quote_wrapped(v).len() == s.len() || !is_rsql_value_char(
            s[i + quote_wrapped(v).len()],
        ),
    ensures
        sp_rsql_value(s, i) == Some((v, i + quote_wrapped(v).len())),
{
    let w = quote_wrapped(v);
    assert forall|k: int| 0 <= k < w.len() implies s[i + k] == w[k] by {
        assert(s.subrange(i, i + w.len())[k] == s[i + k]);
    }
    if !has_reserved(v) {
        assert(w == v);
        assert forall|k: int| i <= k < i + v.len() implies is_rsql_value_char(
            #[trigger] s[k],
        ) by {
            assert(s[k] == v[k - i]);
        }
        lemma_scan_value_run(s, i, i + v.len());
        assert(s[i] == v[0]);
        assert(s.subrange(i, i + v.len()) == v);
    } else {
        let q = chosen_quote(v);
        assert(w =~= seq![q] + v + seq![q]);
        assert(w[0] == q);
        assert(s[i + 0] == w[0]);
        assert(s[i] == q);
        assert forall|k: int| 0 <= k < v.len() implies s.subrange(i + 1, i + 1 + v.len())[k]
            == v[k] by {
            assert(s[i + (1 + k)] == w[1 + k]);
            assert(w[1 + k] == v[k]);
            assert(s.subrange(i + 1, i + 1 + v.len())[k] == s[i + 1 + k]);
        }
        assert(s.subrange(i + 1, i + 1 + v.len()) =~= v);
        assert(w[v.len() as int + 1] == q);
        assert(s[i + v.len() + 1] == w[v.len() as int + 1]);
        lemma_quote_end_at(s, i + 1, v, q);
    }
}

/// What follows the first value of a parenthesized argument list: for each
/// further value a comma and the value, then the closing parenthesis.
spec fn rendered_list_tail(rest: Seq<Seq<char>>) -> Seq<char>
    decreases rest.len(),
{
    if rest.len() == 0 {
        seq![')']
    } else {
        seq![','] + quote_wrapped(rest[0]) + rendered_list_tail(rest.drop_first())
    }
}

/// The parenthesized rendering decomposes into the first value's rendering
/// followed by the rendered list tail.
proof fn lemma_join_decomposition(vals: Seq<Seq<char>>)
    requires
        vals.len() >= 1,
    ensures
        quote_wrapped(vals[0]) + rendered_list_tail(vals.drop_first()) == join_quoted(vals) + seq![
            ')',
        ],
    decreases vals.len(),
{
    if vals.len() == 1 {
        assert(quote_wrapped(vals[0]) + rendered_list_tail(vals.drop_first()) =~= join_quoted(vals)
            + seq![')']);
    } else {
        let v0 = vals[0];
        let rest = vals.drop_first();
        lemma_join_decomposition(rest);
        assert(rendered_list_tail(rest) =~= seq![','] + (quote_wrapped(rest[0])
            + rendered_list_tail(rest.drop_first())));
        assert(seq![','] + (quote_wrapped(rest[0]) + rendered_list_tail(rest.drop_first()))
            =~= seq![','] + (join_quoted(rest) + seq![')']));
        assert(quote_wrapped(v0) + rendered_list_tail(rest) =~= quote_wrapped(v0) + (seq![',']
            + (join_quoted(rest) + seq![')'])));
        assert(join_quoted(vals) =~= quote_wrapped(v0) + seq![','] + join_quoted(rest));
        assert(quote_wrapped(v0) + (seq![','] + (join_quoted(rest) + seq![')'])) =~= (quote_wrapped(
            v0,
        ) + seq![','] + join_quoted(rest)) + seq![')']);
        assert(quote_wrapped(vals[0]) + rendered_list_tail(vals.drop_first()) =~= join_quoted(vals)
            + seq![')']);
    }
}

/// The rest of a rendered value list embedded at `i` reads back as exactly
/// the remaining values, ending right after the closing parenthesis.
proof fn lemma_list_tail_at(s: Seq<char>, i: int, done: Seq<Seq<char>>, rest: Seq<Seq<char>>)
    requires
        forall|k: int| 0 <= k < rest.len() ==> value_safe(#[trigger] rest[k]),
        0 <= i,
        i + rendered_list_tail(rest).len() <= s.len(),
        s.subrange(i, i + rendered_list_tail(rest).len()) == rendered_list_tail(rest),
    ensures
        sp_rsql_list_tail(s, i, done) == Some((done + rest, i + rendered_list_tail(rest).len())),
    decreases rest.len(),
{
    let t = rendered_list_tail(rest);
    assert forall|k: int| 0 <= k < t.len() implies s[i + k] == t[k] by {
        assert(s.subrange(i, i + t.len())[k] == s[i + k]);
    }
    if rest.len() == 0 {
        assert(s[i + 0] == t[0]);
        assert(s[i] == ')');
        lemma_skip_ws_none(s, i);
        assert(done + rest =~= done);
    } else {
        let v = rest[0];
        let w = quote_wrapped(v);
        assert(s[i + 0] == t[0]);
        assert(s[i] == ',');
        lemma_skip_ws_none(s, i);
        assert(t =~= seq![','] + w + rendered_list_tail(rest.drop_first()));
        assert forall|k: int| 0 <= k < w.len() implies s.subrange(i + 1, i + 1 + w.len())[k]
            == w[k] by {
            assert(s[i + (1 + k)] == t[1 + k]);
            assert(t[1 + k] == w[k]);
            assert(s.subrange(i + 1, i + 1 + w.len())[k] == s[i + 1 + k]);
        }
        assert(s.subrange(i + 1, i + 1 + w.len()) =~= w);
        // What follows the value starts the next list tail: a comma or the
        // closing parenthesis, neither a value character nor whitespace.
        let t2 = rendered_list_tail(rest.drop_first());
        assert(t2.len() >= 1);
        assert(t2[0] == ',' || t2[0] == ')');
        assert(s[i + 1 + w.len()] == t[1 + w.len() as int]);
        assert(t[1 + w.len() as int] == t2[0]);
        assert(!is_rsql_value_char(s[i + 1 + w.len()]));
        assert(s[i + (1 + 0)] == t[1int + 0]);
        assert(t[1] == w[0]);
        assert(s[i + 1] == w[0]);
        assert(!is_ws(s[i + 1])) by {
            if has_reserved(v) {
                assert(w[0] == chosen_quote(v));
            } else {
                assert(w[0] == v[0]);
                assert(is_rsql_value_char(v[0]));
            }
        }
        lemma_skip_ws_none(s, i + 1);
        lemma_value_at(s, i + 1, v);
        let p = i + 1 + w.len();
        assert forall|k: int| 0 <= k < t2.len() implies s.subrange(p, p + t2.len())[k]
            == t2[k] by {
            assert(s[i + (1 + w.len() + k)] == t[1 + w.len() + k]);
            assert(t[1 + w.len() as int + k] == t2[k]);
            assert(s.subrange(p, p + t2.len())[k] == s[p + k]);
        }
        assert(s.subrange(p, p + t2.len()) =~= t2);
        lemma_list_tail_at(s, p, done.push(v), rest.drop_first());
        assert(done.push(v) + rest.drop_first() =~= done + rest);
    }
}

/// A rendered argument list embedded at `i` reads back as exactly its
/// values; a single raw value additionally needs no value character right
/// after it.
proof fn lemma_args_at(s: Seq<char>, i: int, vals: Seq<Seq<char>>)
    requires
        vals.len() >= 1,
        forall|k: int| 0 <= k < vals.len() ==> value_safe(#[trigger] vals[k]),
        0 <= i,
        i + arguments_rendered(vals).len() <= s.len(),
        s.subrange(i, i + arguments_rendered(vals).len()) == arguments_rendered(vals),
        i + arguments_rendered(vals).len() == s.len() || !is_rsql_value_char(
            s[i + arguments_rendered(vals).len()],
        ),
    ensures
        sp_args(QueryType::Rsql, s, i) == Some((vals, i + arguments_rendered(vals).len())),
{
    let a = arguments_rendered(vals);
    assert forall|k: int| 0 <= k < a.len() implies s[i + k] == a[k] by {
        assert(s.subrange(i, i + a.len())[k] == s[i + k]);
    }
    if vals.len() == 1 {
        let v = vals[0];
        assert(a == quote_wrapped(v));
        assert(s[i] == quote_wrapped(v)[0]);
        assert(s[i] != '(') by {
            if has_reserved(v) {
                assert(quote_wrapped(v)[0] == chosen_quote(v));
            } else {
                assert(quote_wrapped(v)[0] == v[0]);
                assert(is_rsql_value_char(v[0]));
            }
        }
        lemma_value_at(s, i, v);
        assert(seq![v] =~= vals);
    } else {
        let v = vals[0];
        let w = quote_wrapped(v);
        let t2 = rendered_list_tail(vals.drop_first());
        lemma_join_decomposition(vals);
        assert(a =~= seq!['('] + w + t2) by {
            assert(a =~= seq!['('] + (join_quoted(vals) + seq![')']));
            assert(seq!['('] + (w + t2) =~= seq!['('] + w + t2);
        }
        assert(s[i + 0] == a[0]);
        assert(s[i] == '(');
        assert forall|k: int| 0 <= k < w.len() implies s.subrange(i + 1, i + 1 + w.len())[k]
            == w[k] by {
            assert(s[i + (1 + k)] == a[1 + k]);
            assert(a[1 + k] == w[k]);
            assert(s.subrange(i + 1, i + 1 + w.len())[k] == s[i + 1 + k]);
        }
        assert(s.subrange(i + 1, i + 1 + w.len()) =~= w);
        assert(t2.len() >= 1);
        assert(t2[0] == ',' || t2[0] == ')');
        assert(s[i + 1 + w.len()] == a[1 + w.len() as int]);
        assert(a[1 + w.len() as int] == t2[0]);
        assert(!is_rsql_value_char(s[i + 1 + w.len()]));
        assert(s[i + (1 + 0)] == a[1int + 0]);
        assert(a[1] == w[0]);
        assert(s[i + 1] == w[0]);
        assert(!is_ws(s[i + 1])) by {
            if has_reserved(v) {
                assert(w[0] == chosen_quote(v));
            } else {
                assert(w[0] == v[0]);
                assert(is_rsql_value_char(v[0]));
            }
        }
        lemma_skip_ws_none(s, i + 1);
        lemma_value_at(s, i + 1, v);
        let p = i + 1 + w.len();
        assert forall|k: int| 0 <= k < t2.len() implies s.subrange(p, p + t2.len())[k]
            == t2[k] by {
            assert(s[i + (1 + w.len() + k)] == a[1 + w.len() + k]);
            assert(a[1 + w.len() as int + k] == t2[k]);
            assert(s.subrange(p, p + t2.len())[k] == s[p + k]);
        }
        assert(s.subrange(p, p + t2.len()) =~= t2);
        lemma_list_tail_at(s, p, seq![v], vals.drop_first());
        assert(seq![v] + vals.drop_first() =~= vals);
    }
}

/// A round-trippable constraint's rendering embedded at `i`, followed by a
/// connective, a closing parenthesis or the end, reads back as exactly that
/// constraint.
proof fn lemma_constraint_at(
    reg: Seq<(Seq<char>, CompView)>,
    s: Seq<char>,
    i: int,
    c: ConstraintView,
)
    requires
        constraint_round_trippable(reg, c),
        0 <= i,
        i + c.rendered().len() <= s.len(),
        s.subrange(i, i + c.rendered().len()) == c.rendered(),
        i + c.rendered().len() == s.len() || s[i + c.rendered().len()] == ';' || s[i
            + c.rendered().len()] == ',' || s[i + c.rendered().len()] == ')',
    ensures
        sp_constraint(QueryType::Rsql, reg, s, i) == Ok::<(ConstraintView, int), ParserErrorView>(
            (c, i + c.rendered().len()),
        ),
{
    let sel = c.selector;
    let sym = c.comparison.canon();
    let a = arguments_rendered(c.arguments);
    let rend = c.rendered();
    assert(rend =~= sel + sym + a);
    assert forall|k: int| 0 <= k < rend.len() implies s[i + k] == rend[k] by {
        assert(s.subrange(i, i + rend.len())[k] == s[i + k]);
    }
    // The argument part is never empty: one safe value renders to at least
    // one character, several render parenthesized.
    assert(a.len() >= 1) by {
        if c.comparison.multi {
            assert(c.arguments.len() >= 2);
        } else {
            assert(c.arguments.len() == 1);
            assert(value_safe(c.arguments[0]));
            if has_reserved(c.arguments[0]) {
                assert(quote_wrapped(c.arguments[0]).len() >= 2);
            }
        }
    }
    // The selector, followed by the symbol's first character.
    assert forall|k: int| 0 <= k < sel.len() implies s.subrange(i, i + sel.len())[k] == sel[k] by {
        assert(rend[k] == sel[k]);
        assert(s.subrange(i, i + sel.len())[k] == s[i + k]);
    }
    assert(s.subrange(i, i + sel.len()) =~= sel);
    let p1 = i + sel.len();
    assert(s[i + sel.len() as int] == rend[sel.len() as int]);
    assert(rend[sel.len() as int] == sym[0]);
    assert(sym[0] == '=' || sym[0] == '<' || sym[0] == '>' || sym[0] == '!');
    assert(!is_selector_char(sym[0]));
    lemma_selector_at(s, i, sel);
    lemma_skip_ws_none(s, p1);
    // The comparison symbol, followed by the first argument character.
    assert forall|k: int| 0 <= k < sym.len() implies s.subrange(p1, p1 + sym.len())[k]
        == sym[k] by {
        assert(s[i + (sel.len() + k)] == rend[sel.len() + k]);
        assert(rend[sel.len() + k] == sym[k]);
        assert(s.subrange(p1, p1 + sym.len())[k] == s[p1 + k]);
    }
    assert(s.subrange(p1, p1 + sym.len()) =~= sym);
    let p2 = p1 + sym.len();
    assert(s[i + (sel.len() + sym.len() + 0)] == rend[sel.len() + sym.len() as int + 0]);
    assert(rend[sel.len() + sym.len() as int] == a[0]);
    assert(s[p2] == a[0]);
    assert(a[0] != '=' && !is_ws(a[0])) by {
        if c.arguments.len() >= 2 {
            assert(a[0] == '(');
        } else {
            let v = c.arguments[0];
            assert(a == quote_wrapped(v));
            if has_reserved(v) {
                assert(a[0] == chosen_quote(v));
            } else {
                assert(a[0] == v[0]);
                assert(is_rsql_value_char(v[0]));
            }
        }
    }
    lemma_comp_symbol_at(s, p1, sym);
    lemma_skip_ws_none(s, p2);
    // The arguments, ending right at the rendered constraint's end.
    assert forall|k: int| 0 <= k < a.len() implies s.subrange(p2, p2 + a.len())[k] == a[k] by {
        assert(s[i + (sel.len() + sym.len() + k)] == rend[sel.len() + sym.len() + k]);
        assert(rend[sel.len() + sym.len() + k] == a[k]);
        assert(s.subrange(p2, p2 + a.len())[k] == s[p2 + k]);
    }
    assert(s.subrange(p2, p2 + a.len()) =~= a);
    assert(p2 + a.len() == i + rend.len());
    assert(p2 + a.len() == s.len() || !is_rsql_value_char(s[p2 + a.len()]));
    assert(c.arguments.len() >= 1);
    lemma_args_at(s, p2, c.arguments);
}

/// A tree whose rendering re-parses to itself: every internal node's left
/// child is a leaf, and every constraint is itself round-trippable.
pub open spec fn round_trippable(reg: Seq<(Seq<char>, CompView)>, e: ExprView) -> bool
    decreases e,
{
    match e {
        ExprView::Item(c) => constraint_round_trippable(reg, c),
        ExprView::Node(_, l, r) => {
            &&& (*l) matches ExprView::Item(_)
            &&& round_trippable(reg, *l)
            &&& round_trippable(reg, *r)
        },
    }
}

/// A round-trippable tree's rendering is non-empty and opens with a
/// selector character.
proof fn lemma_rendered_head(reg: Seq<(Seq<char>, CompView)>, e: ExprView)
    requires
        round_trippable(reg, e),
    ensures
        e.rendered().len() >= 1,
        is_selector_start(e.rendered()[0]),
    decreases e,
{
    match e {
        ExprView::Item(c) => {
            assert(e.rendered() =~= c.selector + c.comparison.canon() + arguments_rendered(
                c.arguments,
            ));
            assert(e.rendered()[0] == c.selector[0]);
        },
        ExprView::Node(op, l, r) => {
            lemma_rendered_head(reg, *l);
            assert(e.rendered()[0] == (*l).rendered()[0]);
        },
    }
}

/// A round-trippable tree's rendering embedded at `i`, followed by a
/// closing parenthesis or the end, reads back as exactly that tree.
#[verifier::rlimit(100)]
proof fn lemma_expression_at(
    reg: Seq<(Seq<char>, CompView)>,
    s: Seq<char>,
    i: int,
    e: ExprView,
)
    requires
        round_trippable(reg, e),
        0 <= i,
        i + e.rendered().len() <= s.len(),
        s.subrange(i, i + e.rendered().len()) == e.rendered(),
        i + e.rendered().len() == s.len() || s[i + e.rendered().len()] == ')',
    ensures
        sp_expression(QueryType::Rsql, reg, s, i) == Ok::<(ExprView, int), ParserErrorView>(
            (e, i + e.rendered().len()),
        ),
    decreases e,
{
    let q = QueryType::Rsql;
    let rend = e.rendered();
    let fin = i + rend.len();
    assert forall|k: int| 0 <= k < rend.len() implies s[i + k] == rend[k] by {
        assert(s.subrange(i, i + rend.len())[k] == s[i + k]);
    }
    lemma_rendered_head(reg, e);
    assert(s[i + 0] == rend[0]);
    assert(!is_selector_char('(') && !is_selector_char(')'));
    match e {
        ExprView::Item(c) => {
            assert(s[i] != '(');
            lemma_constraint_at(reg, s, i, c);
            assert(sp_term(q, reg, s, i) == Ok::<(ExprView, int), ParserErrorView>((e, fin)));
            lemma_skip_ws_none(s, fin);
            assert(sp_operator(q, s, fin) is None);
            assert(sp_drain(seq![e], Seq::<Operator>::empty()) == Ok::<
                ExprView,
                ParserErrorView,
            >(e));
            assert(sp_expr_tail(q, reg, s, fin, seq![e], Seq::<Operator>::empty()) == Ok::<
                (ExprView, int),
                ParserErrorView,
            >((e, fin)));
        },
        ExprView::Node(op, l, r) => {
            let lrend = (*l).rendered();
            let opc = operator_char(op);
            let rpart = match *r {
                ExprView::Item(_) => (*r).rendered(),
                ExprView::Node(_, _, _) => seq!['('] + (*r).rendered() + seq![')'],
            };
            assert(rend =~= lrend + seq![opc] + rpart);
            lemma_rendered_head(reg, *l);
            lemma_rendered_head(reg, *r);
            // The left leaf, followed by the connective.
            assert forall|k: int| 0 <= k < lrend.len() implies s.subrange(i, i + lrend.len())[k]
                == lrend[k] by {
                assert(rend[k] == lrend[k]);
                assert(s.subrange(i, i + lrend.len())[k] == s[i + k]);
            }
            assert(s.subrange(i, i + lrend.len()) =~= lrend);
            let p = i + lrend.len();
            assert(s[i + lrend.len() as int] == rend[lrend.len() as int]);
            assert(rend[lrend.len() as int] == opc);
            assert(s[p] == opc);
            assert(opc == ';' || opc == ',');
            let lc = (*l)->Item_0;
            assert(*l == ExprView::Item(lc));
            assert(round_trippable(reg, *l));
            assert(constraint_round_trippable(reg, lc));
            assert((*l).rendered() == lc.rendered());
            lemma_constraint_at(reg, s, i, lc);
            assert(sp_term(q, reg, s, i) == Ok::<(ExprView, int), ParserErrorView>((*l, p)));
            lemma_skip_ws_none(s, p);
            assert(sp_operator(q, s, p) == Some((op, p + 1)));
            // The right operand after the connective.
            assert forall|k: int| 0 <= k < rpart.len() implies s.subrange(
                p + 1,
                p + 1 + rpart.len(),
            )[k] == rpart[k] by {
                assert(s[i + (lrend.len() + 1 + k)] == rend[lrend.len() + 1 + k]);
                assert(rend[lrend.len() + 1 + k] == rpart[k]);
                assert(s.subrange(p + 1, p + 1 + rpart.len())[k] == s[p + 1 + k]);
            }
            assert(s.subrange(p + 1, p + 1 + rpart.len()) =~= rpart);
            assert(p + 1 + rpart.len() == fin);
            let j2 = fin;
            match *r {
                ExprView::Item(rc) => {
                    assert(*r == ExprView::Item(rc));
                    assert(round_trippable(reg, *r));
                    assert(constraint_round_trippable(reg, rc));
                    assert(s[p + 1 + 0] == rpart[0]);
                    assert(is_selector_start(s[p + 1]));
                    lemma_skip_ws_none(s, p + 1);
                    assert(s[p + 1] != '(');
                    lemma_constraint_at(reg, s, p + 1, rc);
                    assert(sp_term(q, reg, s, p + 1) == Ok::<(ExprView, int), ParserErrorView>(
                        (*r, j2),
                    ));
                },
                ExprView::Node(_, _, _) => {
                    let rrend = (*r).rendered();
                    assert(rpart[0] == '(');
                    assert(s[p + 1 + 0] == rpart[0]);
                    lemma_skip_ws_none(s, p + 1);
                    assert forall|k: int| 0 <= k < rrend.len() implies s.subrange(
                        p + 2,
                        p + 2 + rrend.len(),
                    )[k] == rrend[k] by {
                        assert(s[(p + 1) + (1 + k)] == rpart[1 + k]);
                        assert(rpart[1 + k] == rrend[k]);
                        assert(s.subrange(p + 2, p + 2 + rrend.len())[k] == s[p + 2 + k]);
                    }
                    assert(s.subrange(p + 2, p + 2 + rrend.len()) =~= rrend);
                    assert(s[(p + 1) + (1 + rrend.len())] == rpart[1 + rrend.len() as int]);
                    assert(rpart[1 + rrend.len() as int] == ')');
                    assert(s[p + 2 + rrend.len()] == ')');
                    assert(s[p + 2 + 0] == rrend[0]);
                    assert(is_selector_start(s[p + 2]));
                    lemma_skip_ws_none(s, p + 2);
                    lemma_expression_at(reg, s, p + 2, *r);
                    lemma_skip_ws_none(s, p + 2 + rrend.len());
                    assert(sp_term(q, reg, s, p + 1) == Ok::<(ExprView, int), ParserErrorView>(
                        (*r, j2),
                    ));
                },
            }
            // Both stacks drain into exactly this node.
            lemma_skip_ws_none(s, j2);
            assert(sp_operator(q, s, j2) is None);
            let terms2 = seq![*l].push(*r);
            let ops2 = Seq::<Operator>::empty().push(op);
            assert(terms2 =~= seq![*l, *r]);
            assert(ops2 =~= seq![op]);
            let combined = ExprView::Node(ops2.last(), Box::new(terms2[0]), Box::new(terms2[1]));
            assert(combined == e);
            assert(terms2.drop_last().drop_last().push(combined) =~= seq![combined]);
            assert(ops2.drop_last() =~= Seq::<Operator>::empty());
            assert(sp_drain(seq![combined], Seq::<Operator>::empty()) == Ok::<
                ExprView,
                ParserErrorView,
            >(combined));
            assert(sp_drain(terms2, ops2) == Ok::<ExprView, ParserErrorView>(e));
            assert(sp_expr_tail(q, reg, s, j2, terms2, ops2) == Ok::<
                (ExprView, int),
                ParserErrorView,
            >((e, j2)));
            assert(sp_expr_tail(q, reg, s, p + 1 + rpart.len(), seq![*l].push(*r), Seq::<
                Operator,
            >::empty().push(op)) == Ok::<(ExprView, int), ParserErrorView>((e, fin)));
        },
    }
}

/// The round-trip law: rendering a round-trippable tree and re-parsing the
/// text with RSQL gives the same tree back.
///
/// `round_trippable` carries the restrictions without which the law fails:
/// a node standing as a left child re-parses right-leaning (rendering puts
/// no parentheses around a left operand), a canonical symbol rebound in the
/// registry resolves to something else, and a value holding unquoted
/// whitespace outside the reserved set, or an unescaped copy of its chosen
/// quote, renders lossily.
pub proof fn lemma_rsql_round_trip(reg: Seq<(Seq<char>, CompView)>, e: ExprView)
    requires
        round_trippable(reg, e),
    ensures
        sp_parse(QueryType::Rsql, reg, e.rendered()) == Ok::<ExprView, ParserErrorView>(e),
{
    let s = e.rendered();
    lemma_rendered_head(reg, e);
    lemma_skip_ws_none(s, 0);
    assert(s.subrange(0, s.len() as int) =~= s);
    lemma_expression_at(reg, s, 0, e);
    lemma_skip_ws_none(s, s.len() as int);
}

} // verus!
