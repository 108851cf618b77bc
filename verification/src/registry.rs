//! The comparison registry a parser carries: user registrations layered
//! over the dialect's built-in operators.
//!
//! The store is an association list where the latest binding for a symbol
//! wins; its ghost model is the `user_lookup` resolution function.

use vstd::prelude::*;

use crate::comparison::{CompView, Comparison};
use crate::error::{ParserError, ParserErrorView};
use crate::QueryType;
use vstd::string::StrSliceExecFns;

verus! {

/// Ghost model of the user registrations: symbol text paired with the
/// comparison it binds, in registration order.
pub open spec fn reg_view(entries: Seq<(String, Comparison)>) -> Seq<(Seq<char>, CompView)> {
    entries.map_values(|p: (String, Comparison)| (p.0@, p.1@))
}

/// The user binding for a symbol: the latest registration wins.
pub open spec fn user_lookup(reg: Seq<(Seq<char>, CompView)>, sym: Seq<char>) -> Option<CompView>
    decreases reg.len(),
{
    if reg.len() == 0 {
        None
    } else if reg.last().0 == sym {
        Some(reg.last().1)
    } else {
        user_lookup(reg.drop_last(), sym)
    }
}

/// The built-in binding of the dialect for a symbol. FIQL resolves the six
/// single-valued operators; RSQL additionally resolves `=in=` and `=out=`.
pub open spec fn default_comp(q: QueryType, sym: Seq<char>) -> Option<CompView> {
    if sym == seq!['=', '='] {
        Some(CompView::equal())
    } else if sym == seq!['!', '='] {
        Some(CompView::not_equal())
    } else if sym == seq!['>'] || sym == seq!['=', 'g', 't', '='] {
        Some(CompView::greater_than())
    } else if sym == seq!['>', '='] || sym == seq!['=', 'g', 'e', '='] {
        Some(CompView::greater_than_or_equal())
    } else if sym == seq!['<'] || sym == seq!['=', 'l', 't', '='] {
        Some(CompView::less_than())
    } else if sym == seq!['<', '='] || sym == seq!['=', 'l', 'e', '='] {
        Some(CompView::less_than_or_equal())
    } else if q is Rsql && sym == seq!['=', 'i', 'n', '='] {
        Some(CompView::in_list())
    } else if q is Rsql && sym == seq!['=', 'o', 'u', 't', '='] {
        Some(CompView::out_list())
    } else {
        None
    }
}

/// Full resolution: the user binding if present, else the dialect default.
pub open spec fn resolve(q: QueryType, reg: Seq<(Seq<char>, CompView)>, sym: Seq<char>) -> Option<
    CompView,
> {
    match user_lookup(reg, sym) {
        Some(c) => Some(c),
        None => default_comp(q, sym),
    }
}

/// Every registered comparison is valid.
pub open spec fn reg_wf(reg: Seq<(Seq<char>, CompView)>) -> bool {
    forall|k: int| 0 <= k < reg.len() ==> (#[trigger] reg[k]).1.valid()
}

/// A valid registry only ever hands out valid comparisons.
pub proof fn lemma_user_lookup_valid(reg: Seq<(Seq<char>, CompView)>, sym: Seq<char>)
    requires
        reg_wf(reg),
    ensures
        user_lookup(reg, sym) matches Some(c) ==> c.valid(),
    decreases reg.len(),
{
    if reg.len() > 0 && !(reg.last().0 == sym) {
        assert(reg_wf(reg.drop_last()));
        lemma_user_lookup_valid(reg.drop_last(), sym);
    }
}

/// Resolution through a valid registry only hands out valid comparisons.
pub proof fn lemma_resolve_valid(q: QueryType, reg: Seq<(Seq<char>, CompView)>, sym: Seq<char>)
    requires
        reg_wf(reg),
    ensures
        resolve(q, reg, sym) matches Some(c) ==> c.valid(),
{
    lemma_user_lookup_valid(reg, sym);
}

/// Character-by-character string equality.
fn str_eq(a: &str, b: &str) -> (r: bool)
    ensures
        r == (a@ == b@),
{
    let na = a.unicode_len();
    let nb = b.unicode_len();
    if na != nb {
        return false;
    }
    let mut i: usize = 0;
    while i < na
        invariant
            na == a@.len(),
            na == b@.len(),
            0 <= i <= na,
            forall|j: int| 0 <= j < i ==> a@[j] == b@[j],
        decreases na - i,
    {
        if a.get_char(i) != b.get_char(i) {
            return false;
        }
        i = i + 1;
    }
    proof {
        assert(a@ =~= b@);
    }
    true
}

/// The user binding among the first `n` entries, latest first.
fn lookup_user_prefix(entries: &Vec<(String, Comparison)>, n: usize, sym: &str) -> (r: Option<
    Comparison,
>)
    requires
        n <= entries@.len(),
    ensures
        match r {
            Some(c) => user_lookup(reg_view(entries@).take(n as int), sym@) == Some(c@),
            None => user_lookup(reg_view(entries@).take(n as int), sym@) is None,
        },
    decreases n,
{
    let ghost reg = reg_view(entries@);
    if n == 0 {
        proof {
            assert(reg.take(0).len() == 0);
        }
        None
    } else {
        let p: &(String, Comparison) = &entries[n - 1];
        proof {
            assert(reg.take(n as int).last() == (entries@[n - 1].0@, entries@[n - 1].1@));
            assert(reg.take(n as int).drop_last() =~= reg.take(n as int - 1));
        }
        if str_eq(p.0.as_str(), sym) {
            Some(p.1.clone())
        } else {
            lookup_user_prefix(entries, n - 1, sym)
        }
    }
}

/// The user binding for a symbol, if any.
fn lookup_user(entries: &Vec<(String, Comparison)>, sym: &str) -> (r: Option<Comparison>)
    ensures
        match r {
            Some(c) => user_lookup(reg_view(entries@), sym@) == Some(c@),
            None => user_lookup(reg_view(entries@), sym@) is None,
        },
{
    let n = entries.len();
    let r = lookup_user_prefix(entries, n, sym);
    proof {
        assert(reg_view(entries@).take(n as int) =~= reg_view(entries@));
    }
    r
}

/// The built-in comparison of the dialect for a symbol, if any.
fn default_lookup(q: QueryType, symbol: &str) -> (r: Option<Comparison>)
    ensures
        match r {
            Some(c) => default_comp(q, symbol@) == Some(c@) && c@.valid(),
            None => default_comp(q, symbol@) is None,
        },
{
    proof {
        reveal_strlit("==");
        reveal_strlit("!=");
        reveal_strlit(">");
        reveal_strlit("=gt=");
        reveal_strlit(">=");
        reveal_strlit("=ge=");
        reveal_strlit("<");
        reveal_strlit("=lt=");
        reveal_strlit("<=");
        reveal_strlit("=le=");
        reveal_strlit("=in=");
        reveal_strlit("=out=");
        assert("=="@ =~= seq!['=', '=']);
        assert("!="@ =~= seq!['!', '=']);
        assert(">"@ =~= seq!['>']);
        assert("=gt="@ =~= seq!['=', 'g', 't', '=']);
        assert(">="@ =~= seq!['>', '=']);
        assert("=ge="@ =~= seq!['=', 'g', 'e', '=']);
        assert("<"@ =~= seq!['<']);
        assert("=lt="@ =~= seq!['=', 'l', 't', '=']);
        assert("<="@ =~= seq!['<', '=']);
        assert("=le="@ =~= seq!['=', 'l', 'e', '=']);
        assert("=in="@ =~= seq!['=', 'i', 'n', '=']);
        assert("=out="@ =~= seq!['=', 'o', 'u', 't', '=']);
    }
    if str_eq(symbol, "==") {
        Some(Comparison::EQUAL())
    } else if str_eq(symbol, "!=") {
        Some(Comparison::NOT_EQUAL())
    } else if str_eq(symbol, ">") || str_eq(symbol, "=gt=") {
        Some(Comparison::GREATER_THAN())
    } else if str_eq(symbol, ">=") || str_eq(symbol, "=ge=") {
        Some(Comparison::GREATER_THAN_OR_EQUAL())
    } else if str_eq(symbol, "<") || str_eq(symbol, "=lt=") {
        Some(Comparison::LESS_THAN())
    } else if str_eq(symbol, "<=") || str_eq(symbol, "=le=") {
        Some(Comparison::LESS_THAN_OR_EQUAL())
    } else if matches!(q, QueryType::Rsql) && str_eq(symbol, "=in=") {
        Some(Comparison::IN())
    } else if matches!(q, QueryType::Rsql) && str_eq(symbol, "=out=") {
        Some(Comparison::OUT())
    } else {
        None
    }
}

/// Resolves a symbol: the user binding if present, else the dialect default.
pub(crate) fn resolve_symbol(
    q: QueryType,
    entries: &Vec<(String, Comparison)>,
    symbol: &str,
) -> (r: Option<Comparison>)
    ensures
        match r {
            Some(c) => resolve(q, reg_view(entries@), symbol@) == Some(c@),
            None => resolve(q, reg_view(entries@), symbol@) is None,
        },
{
    match lookup_user(entries, symbol) {
        Some(c) => Some(c),
        None => default_lookup(q, symbol),
    }
}

/// Inserts every symbol of the comparison into the registry, overwriting
/// any previous binding for each symbol. A comparison holding a malformed
/// symbol is refused whole, with the same errors as `Comparison::new`.
pub(crate) fn register_into(entries: &mut Vec<(String, Comparison)>, comparison: &Comparison) -> (r:
    Result<(), ParserError>)
    ensures
        r is Ok <==> comparison@.valid(),
        r is Ok ==> forall|sym: Seq<char>|
            #![auto]
            user_lookup(reg_view(final(entries)@), sym) == (if comparison@.symbols.contains(sym) {
                Some(comparison@)
            } else {
                user_lookup(reg_view(old(entries)@), sym)
            }),
        r is Err ==> final(entries)@ == old(entries)@,
        r is Err && comparison@.symbols.len() == 0 ==> r->Err_0@ == ParserErrorView::EmptySymbol,
        r is Err && comparison@.symbols.len() >= 1 ==> exists|i: int|
            {
                &&& 0 <= i < comparison@.symbols.len()
                &&& !crate::comparison::valid_symbol(#[trigger] comparison@.symbols[i])
                &&& r->Err_0@ == ParserErrorView::InvalidComparison(comparison@.symbols[i])
            },
        reg_wf(reg_view(old(entries)@)) ==> reg_wf(reg_view(final(entries)@)),
    {
        let n = comparison.symbol_count();
        if n == 0 {
            return Err(ParserError::EmptySymbol);
        }
        let mut k: usize = 0;
        while k < n
            invariant
                n == comparison@.symbols.len(),
                0 <= k <= n,
                entries@ == old(entries)@,
                forall|j: int|
                    0 <= j < k ==> crate::comparison::valid_symbol(
                        #[trigger] comparison@.symbols[j],
                    ),
            decreases n - k,
        {
            match Comparison::is_valid_symbol(comparison.symbol_at(k).as_str()) {
                Ok(_) => {},
                Err(e) => {
                    return Err(e);
                },
            }
            k = k + 1;
        }
        assert(comparison@.valid());
        let ghost reg0 = reg_view(old(entries)@);
        let mut k: usize = 0;
        while k < n
            invariant
                n == comparison@.symbols.len(),
                0 <= k <= n,
                comparison@.valid(),
                reg0 == reg_view(old(entries)@),
                forall|sym: Seq<char>|
                    #![auto]
                    user_lookup(reg_view(entries@), sym) == (if exists|j: int|
                        0 <= j < k && comparison@.symbols[j] == sym {
                        Some(comparison@)
                    } else {
                        user_lookup(reg0, sym)
                    }),
                reg_wf(reg0) ==> reg_wf(reg_view(entries@)),
            decreases n - k,
        {
            let ghost pre = reg_view(entries@);
            let key = comparison.symbol_at(k).clone();
            let val = comparison.clone();
            entries.push((key, val));
            proof {
                assert(reg_view(entries@) =~= pre.push((comparison@.symbols[k as int], comparison@)));
                assert(reg_view(entries@).drop_last() =~= pre);
                assert forall|sym: Seq<char>|
                    user_lookup(reg_view(entries@), sym) == (if exists|j: int|
                        0 <= j < k + 1 && comparison@.symbols[j] == sym {
                        Some(comparison@)
                    } else {
                        user_lookup(reg0, sym)
                    }) by {
                    if comparison@.symbols[k as int] == sym {
                        assert(user_lookup(reg_view(entries@), sym) == Some(comparison@));
                    } else {
                        assert(user_lookup(reg_view(entries@), sym) == user_lookup(pre, sym));
                    }
                }
            }
            k = k + 1;
        }
        proof {
            assert forall|sym: Seq<char>| (exists|j: int|
                0 <= j < n && comparison@.symbols[j] == sym) == comparison@.symbols.contains(
                sym,
            ) by {}
        }
        Ok(())
    }

/// Removes the binding for one symbol; bindings of other symbols, including
/// other symbols of the same comparison, stay.
pub(crate) fn remove_from(entries: &mut Vec<(String, Comparison)>, symbol: &str)
    ensures
        forall|sym: Seq<char>|
            #![auto]
            user_lookup(reg_view(final(entries)@), sym) == (if sym == symbol@ {
                None::<CompView>
            } else {
                user_lookup(reg_view(old(entries)@), sym)
            }),
        reg_wf(reg_view(old(entries)@)) ==> reg_wf(reg_view(final(entries)@)),
{
    let n = entries.len();
    let mut out: Vec<(String, Comparison)> = Vec::new();
    let mut k: usize = 0;
    while k < n
        invariant
            n == entries@.len(),
            0 <= k <= n,
            forall|sym: Seq<char>|
                #![auto]
                user_lookup(reg_view(out@), sym) == (if sym == symbol@ {
                    None::<CompView>
                } else {
                    user_lookup(reg_view(entries@).take(k as int), sym)
                }),
            forall|m: int| 0 <= m < out@.len() ==> exists|j: int|
                0 <= j < n && (#[trigger] reg_view(out@)[m]) == reg_view(entries@)[j],
        decreases n - k,
    {
        let ghost pre = reg_view(out@);
        let p: &(String, Comparison) = &entries[k];
        let keep = !str_eq(p.0.as_str(), symbol);
        if keep {
            let cp = (p.0.clone(), p.1.clone());
            proof {
                assert(cp.0@ == entries@[k as int].0@);
                assert(cp.1@ == entries@[k as int].1@);
            }
            out.push(cp);
        }
        proof {
            assert(reg_view(entries@).take(k as int + 1).drop_last() =~= reg_view(entries@).take(
                k as int,
            ));
            assert(reg_view(entries@).take(k as int + 1).last() == (
                entries@[k as int].0@,
                entries@[k as int].1@,
            ));
            if keep {
                assert(reg_view(out@).drop_last() =~= pre);
                assert(reg_view(out@).last() == (entries@[k as int].0@, entries@[k as int].1@));
                assert(reg_view(entries@)[k as int] == (
                    entries@[k as int].0@,
                    entries@[k as int].1@,
                ));
                assert(reg_view(out@)[reg_view(out@).len() - 1] == reg_view(entries@)[k as int]);
            }
            assert forall|sym: Seq<char>|
                user_lookup(reg_view(out@), sym) == (if sym == symbol@ {
                    None::<CompView>
                } else {
                    user_lookup(reg_view(entries@).take(k as int + 1), sym)
                }) by {
                if keep {
                    if entries@[k as int].0@ == sym {
                    } else {
                        assert(user_lookup(reg_view(out@), sym) == user_lookup(pre, sym));
                    }
                } else {
                    assert(entries@[k as int].0@ == symbol@);
                }
            }
            assert forall|m: int| 0 <= m < out@.len() implies exists|j: int|
                0 <= j < n && (#[trigger] reg_view(out@)[m]) == reg_view(entries@)[j] by {
                if keep && m == out@.len() - 1 {
                    assert(reg_view(out@)[m] == reg_view(entries@)[k as int]);
                } else {
                    assert(reg_view(out@)[m] == pre[m]);
                    let j = choose|j: int| 0 <= j < n && pre[m] == reg_view(entries@)[j];
                    assert(reg_view(out@)[m] == reg_view(entries@)[j]);
                }
            }
        }
        k = k + 1;
    }
    proof {
        assert(reg_view(entries@).take(n as int) =~= reg_view(entries@));
        if reg_wf(reg_view(entries@)) {
            assert forall|m: int| 0 <= m < reg_view(out@).len() implies (#[trigger] reg_view(
                out@,
            )[m]).1.valid() by {
                let j = choose|j: int|
                    0 <= j < n && reg_view(out@)[m] == reg_view(entries@)[j];
                assert(reg_view(entries@)[j].1.valid());
            }
        }
    }
    *entries = out;
}

} // verus!
