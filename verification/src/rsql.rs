use vstd::prelude::*;

use crate::comparison::{CompView, Comparison};
use crate::error::{ParserError, ParserErrorView};
use crate::expr::{Expr, ExprView};
use crate::parsing::{comps_resolved, parse_query, sp_parse};
use crate::registry::{
    reg_view, reg_wf, register_into, remove_from, resolve, resolve_symbol, user_lookup,
};
use crate::QueryType;

verus! {

/// The RSQL parser: all eight built-in comparisons plus any
/// user registrations. RSQL resolves the multi-value operators `=in=` and
/// `=out=`, accepts quoted values and parenthesized value lists, and takes
/// the keywords `and` / `or` as connectives beside `;` and `,`.
pub struct RsqlParser {
    entries: Vec<(String, Comparison)>,
}

impl RsqlParser {
    /// The user registrations, as symbol / comparison models in
    /// registration order.
    pub closed spec fn registry(&self) -> Seq<(Seq<char>, CompView)> {
        reg_view(self.entries@)
    }

    /// Every registered comparison is valid.
    pub open spec fn wf(&self) -> bool {
        reg_wf(self.registry())
    }

    /// Inserts every symbol of the comparison, overwriting any previous
    /// binding for each symbol; a comparison holding a malformed symbol is
    /// refused whole.
    pub fn register_comparison(&mut self, comparison: &Comparison) -> (r: Result<(), ParserError>)
        ensures
            r is Ok <==> comparison@.valid(),
            r is Ok ==> forall|sym: Seq<char>|
                #![auto]
                user_lookup(final(self).registry(), sym) == (if comparison@.symbols.contains(sym) {
                    Some(comparison@)
                } else {
                    user_lookup(old(self).registry(), sym)
                }),
            r is Err ==> final(self).registry() == old(self).registry(),
            old(self).wf() ==> final(self).wf(),
    {
        register_into(&mut self.entries, comparison)
    }

    /// Removes the binding for one symbol; bindings of other symbols,
    /// including other symbols of the same comparison, stay.
    pub fn remove_comparison_by_symbol(&mut self, symbol: &str)
        ensures
            forall|sym: Seq<char>|
                #![auto]
                user_lookup(final(self).registry(), sym) == (if sym == symbol@ {
                    None::<CompView>
                } else {
                    user_lookup(old(self).registry(), sym)
                }),
            old(self).wf() ==> final(self).wf(),
    {
        remove_from(&mut self.entries, symbol)
    }

    /// Resolves a symbol: the user binding if present, else the RSQL
    /// built-in for that symbol.
    pub fn get_comparison(&self, symbol: &str) -> (r: Option<Comparison>)
        ensures
            match r {
                Some(c) => resolve(QueryType::Rsql, self.registry(), symbol@) == Some(c@),
                None => resolve(QueryType::Rsql, self.registry(), symbol@) is None,
            },
            self.wf() ==> (r matches Some(c) ==> c@.valid()),
    {
        proof {
            if self.wf() {
                crate::registry::lemma_resolve_valid(QueryType::Rsql, self.registry(), symbol@);
            }
        }
        resolve_symbol(QueryType::Rsql, &self.entries, symbol)
    }

    /// Parses an RSQL query into its expression tree, exactly as `sp_parse`
    /// defines it for this dialect. On a valid parser every tree handed
    /// back is well formed and only holds comparisons the registry
    /// resolves.
    pub fn parse_to_node(&self, code: &str) -> (r: Result<Expr, ParserError>)
        ensures
            ({
                let sp = sp_parse(QueryType::Rsql, self.registry(), code@);
                match r {
                    Ok(e) => sp == Ok::<ExprView, ParserErrorView>(e@),
                    Err(er) => sp == Err::<ExprView, ParserErrorView>(er@),
                }
            }),
            self.wf() ==> (r matches Ok(e) ==> e@.wf() && comps_resolved(
                QueryType::Rsql,
                self.registry(),
                e@,
            )),
    {
        proof {
            if self.wf() {
                crate::parsing::lemma_parse_wf(QueryType::Rsql, self.registry(), code@);
            }
        }
        parse_query(QueryType::Rsql, &self.entries, code)
    }
}

impl Default for RsqlParser {
    /// A parser with an empty user registry: only the dialect's built-in
    /// comparisons resolve.
    fn default() -> (r: Self)
        ensures
            r.registry() == Seq::<(Seq<char>, CompView)>::empty(),
            r.wf(),
    {
        let p = RsqlParser { entries: Vec::new() };
        proof {
            assert(p.registry() =~= Seq::<(Seq<char>, CompView)>::empty());
        }
        p
    }
}

} // verus!
