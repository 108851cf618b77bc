use vstd::prelude::*;

use crate::error::{ParserError, ParserErrorView};
use vstd::string::StrSliceExecFns;

verus! {

/// One character of the ASCII alphabet.
pub open spec fn is_ascii_letter(c: char) -> bool {
    ('a' <= c && c <= 'z') || ('A' <= c && c <= 'Z')
}

/// A well-formed comparison symbol: `=` letters `=` (which covers `==`),
/// `<`, `>`, `<=`, `>=`, or the single extra literal `!=`.
pub open spec fn valid_symbol(s: Seq<char>) -> bool {
    ||| (s.len() >= 2 && s[0] == '=' && s[s.len() - 1] == '=' && (forall|i: int|
        1 <= i < s.len() - 1 ==> is_ascii_letter(#[trigger] s[i])))
    ||| (s.len() == 1 && (s[0] == '<' || s[0] == '>'))
    ||| (s.len() == 2 && (s[0] == '<' || s[0] == '>') && s[1] == '=')
    ||| (s.len() == 2 && s[0] == '!' && s[1] == '=')
}

/// Ghost model of a `Comparison`: the ordered synonym list and the
/// multi-value flag.
pub struct CompView {
    pub symbols: Seq<Seq<char>>,
    pub multi: bool,
}

impl CompView {
    /// The invariant of every comparison built through the public API:
    /// at least one symbol, and every symbol well formed.
    pub open spec fn valid(self) -> bool {
        &&& self.symbols.len() >= 1
        &&& forall|i: int| 0 <= i < self.symbols.len() ==> valid_symbol(#[trigger] self.symbols[i])
    }

    /// The canonical symbol of the operator: the first of the synonym list.
    pub open spec fn canon(self) -> Seq<char> {
        self.symbols[0]
    }

    pub open spec fn equal() -> CompView {
        CompView { symbols: seq![seq!['=', '=']], multi: false }
    }

    pub open spec fn not_equal() -> CompView {
        CompView { symbols: seq![seq!['!', '=']], multi: false }
    }

    pub open spec fn greater_than() -> CompView {
        CompView { symbols: seq![seq!['=', 'g', 't', '='], seq!['>']], multi: false }
    }

    pub open spec fn greater_than_or_equal() -> CompView {
        CompView { symbols: seq![seq!['=', 'g', 'e', '='], seq!['>', '=']], multi: false }
    }

    pub open spec fn less_than() -> CompView {
        CompView { symbols: seq![seq!['=', 'l', 't', '='], seq!['<']], multi: false }
    }

    pub open spec fn less_than_or_equal() -> CompView {
        CompView { symbols: seq![seq!['=', 'l', 'e', '='], seq!['<', '=']], multi: false }
    }

    pub open spec fn in_list() -> CompView {
        CompView { symbols: seq![seq!['=', 'i', 'n', '=']], multi: true }
    }

    pub open spec fn out_list() -> CompView {
        CompView { symbols: seq![seq!['=', 'o', 'u', 't', '=']], multi: true }
    }
}

/// An operator description: an ordered non-empty list of synonym symbols
/// (for example `["=ge=", ">="]`) and a flag telling whether the operator
/// takes several argument values.
///
/// Comparisons are value-typed; equality is structural.
#[derive(Debug, PartialEq, Eq, Hash)]
pub struct Comparison {
    pub(crate) symbols: Vec<String>,
    pub(crate) multi_values: bool,
}

impl View for Comparison {
    type V = CompView;

    closed spec fn view(&self) -> CompView {
        CompView {
            symbols: self.symbols@.map_values(|s: String| s@),
            multi: self.multi_values,
        }
    }
}

impl Clone for Comparison {
    fn clone(&self) -> (r: Self)
        ensures
            r@ == self@,
    {
        Comparison { symbols: self.symbols.clone(), multi_values: self.multi_values }
    }
}

impl Comparison {
    /// Builds a comparison from its synonym symbols, validating each one.
    ///
    /// Succeeds exactly when the list is non-empty and every symbol is well
    /// formed; a malformed symbol is reported as `InvalidComparison` (the
    /// first one, in list order), an empty list as `EmptySymbol`.
    pub fn new(symbols: &[&str], multi_values: bool) -> (r: Result<Comparison, ParserError>)
        ensures
            r is Ok <==> (symbols@.len() >= 1 && (forall|i: int|
                0 <= i < symbols@.len() ==> valid_symbol(#[trigger] symbols@[i]@))),
            r matches Ok(c) ==> c@ == (CompView {
                symbols: symbols@.map_values(|s: &str| s@),
                multi: multi_values,
            }),
            r matches Ok(c) ==> c@.valid(),
            r is Err && symbols@.len() == 0 ==> r->Err_0@ == ParserErrorView::EmptySymbol,
            r is Err && symbols@.len() >= 1 ==> exists|i: int|
                {
                    &&& 0 <= i < symbols@.len()
                    &&& !valid_symbol(#[trigger] symbols@[i]@)
                    &&& r->Err_0@ == ParserErrorView::InvalidComparison(symbols@[i]@)
                    &&& forall|j: int| 0 <= j < i ==> valid_symbol(#[trigger] symbols@[j]@)
                },
    {
        let ghost target = symbols@.map_values(|s: &str| s@);
        let mut out: Vec<String> = Vec::new();
        let mut k: usize = 0;
        while k < symbols.len()
            invariant
                0 <= k <= symbols@.len(),
                out@.len() == k,
                forall|j: int| 0 <= j < k ==> valid_symbol(#[trigger] symbols@[j]@),
                forall|j: int| 0 <= j < k ==> #[trigger] out@[j]@ == symbols@[j]@,
            decreases symbols@.len() - k,
        {
            let sym: &str = symbols[k];
            match Comparison::is_valid_symbol(sym) {
                Ok(owned) => {
                    out.push(owned);
                },
                Err(e) => {
                    return Err(e);
                },
            }
            k = k + 1;
        }
        if out.len() == 0 {
            return Err(ParserError::EmptySymbol);
        }
        let c = Comparison { symbols: out, multi_values };
        proof {
            assert(c@.symbols =~~= symbols@.map_values(|s: &str| s@));
        }
        Ok(c)
    }

    /// Checks one symbol against the well-formedness rule, handing back an
    /// owned copy when it passes.
    pub fn is_valid_symbol(symbol: &str) -> (r: Result<String, ParserError>)
        ensures
            r is Ok <==> valid_symbol(symbol@),
            r matches Ok(s) ==> s@ == symbol@,
            r matches Err(e) ==> e@ == ParserErrorView::InvalidComparison(symbol@),
    {
        let n = symbol.unicode_len();
        let ok: bool = if n == 1 {
            let c = symbol.get_char(0);
            c == '<' || c == '>'
        } else if n >= 2 {
            let c0 = symbol.get_char(0);
            let cl = symbol.get_char(n - 1);
            if c0 == '=' && cl == '=' {
                let mut i: usize = 1;
                let mut all: bool = true;
                while i < n - 1
                    invariant
                        n == symbol@.len(),
                        n >= 2,
                        1 <= i <= n - 1,
                        all <==> (forall|j: int|
                            1 <= j < i ==> is_ascii_letter(#[trigger] symbol@[j])),
                    decreases n - 1 - i,
                {
                    let c = symbol.get_char(i);
                    if !(('a' <= c && c <= 'z') || ('A' <= c && c <= 'Z')) {
                        all = false;
                    }
                    i = i + 1;
                }
                all
            } else if n == 2 {
                (c0 == '<' || c0 == '>' || c0 == '!') && cl == '='
            } else {
                false
            }
        } else {
            false
        };
        if ok {
            Ok(symbol.to_owned())
        } else {
            Err(ParserError::InvalidComparison(symbol.to_owned()))
        }
    }

    /// Number of synonym symbols.
    pub(crate) fn symbol_count(&self) -> (n: usize)
        ensures
            n == self@.symbols.len(),
    {
        self.symbols.len()
    }

    /// The symbol at position `k`.
    pub(crate) fn symbol_at(&self, k: usize) -> (r: &String)
        requires
            k < self@.symbols.len(),
        ensures
            r@ == self@.symbols[k as int],
    {
        &self.symbols[k]
    }

    /// The synonym symbols, in registration order.
    pub fn get_symbols(&self) -> (r: &[String])
        ensures
            r@.map_values(|s: String| s@) == self@.symbols,
    {
        self.symbols.as_slice()
    }

    /// Whether this operator takes several argument values.
    pub fn is_multi(&self) -> (r: bool)
        ensures
            r == self@.multi,
    {
        self.multi_values
    }

    /// The canonical rendering of the operator: its first symbol.
    pub fn to_string(&self) -> (r: String)
        requires
            self@.symbols.len() >= 1,
        ensures
            r@ == self@.canon(),
    {
        self.symbols[0].clone()
    }

    #[allow(non_snake_case)]
    pub fn EQUAL() -> (r: Comparison)
        ensures
            r@ == CompView::equal(),
            r@.valid(),
    {
        proof {
            reveal_strlit("==");
        }
        Comparison::builtin_single("==", false, Ghost(CompView::equal()))
    }

    #[allow(non_snake_case)]
    pub fn NOT_EQUAL() -> (r: Comparison)
        ensures
            r@ == CompView::not_equal(),
            r@.valid(),
    {
        proof {
            reveal_strlit("!=");
        }
        Comparison::builtin_single("!=", false, Ghost(CompView::not_equal()))
    }

    #[allow(non_snake_case)]
    pub fn GREATER_THAN() -> (r: Comparison)
        ensures
            r@ == CompView::greater_than(),
            r@.valid(),
    {
        proof {
            reveal_strlit("=gt=");
            reveal_strlit(">");
        }
        Comparison::builtin_pair("=gt=", ">", false, Ghost(CompView::greater_than()))
    }

    #[allow(non_snake_case)]
    pub fn GREATER_THAN_OR_EQUAL() -> (r: Comparison)
        ensures
            r@ == CompView::greater_than_or_equal(),
            r@.valid(),
    {
        proof {
            reveal_strlit("=ge=");
            reveal_strlit(">=");
        }
        Comparison::builtin_pair("=ge=", ">=", false, Ghost(CompView::greater_than_or_equal()))
    }

    #[allow(non_snake_case)]
    pub fn LESS_THAN() -> (r: Comparison)
        ensures
            r@ == CompView::less_than(),
            r@.valid(),
    {
        proof {
            reveal_strlit("=lt=");
            reveal_strlit("<");
        }
        Comparison::builtin_pair("=lt=", "<", false, Ghost(CompView::less_than()))
    }

    #[allow(non_snake_case)]
    pub fn LESS_THAN_OR_EQUAL() -> (r: Comparison)
        ensures
            r@ == CompView::less_than_or_equal(),
            r@.valid(),
    {
        proof {
            reveal_strlit("=le=");
            reveal_strlit("<=");
        }
        Comparison::builtin_pair("=le=", "<=", false, Ghost(CompView::less_than_or_equal()))
    }

    #[allow(non_snake_case)]
    pub fn IN() -> (r: Comparison)
        ensures
            r@ == CompView::in_list(),
            r@.valid(),
    {
        proof {
            reveal_strlit("=in=");
        }
        Comparison::builtin_single("=in=", true, Ghost(CompView::in_list()))
    }

    #[allow(non_snake_case)]
    pub fn OUT() -> (r: Comparison)
        ensures
            r@ == CompView::out_list(),
            r@.valid(),
    {
        proof {
            reveal_strlit("=out=");
        }
        Comparison::builtin_single("=out=", true, Ghost(CompView::out_list()))
    }

    /// Builds a one-symbol comparison whose intended model is handed in as a
    /// ghost value.
    fn builtin_single(sym: &str, multi: bool, Ghost(target): Ghost<CompView>) -> (r: Comparison)
        requires
            target.symbols =~~= seq![sym@],
            target.multi == multi,
            target.valid(),
        ensures
            r@ == target,
            r@.valid(),
    {
        let mut syms: Vec<String> = Vec::new();
        syms.push(sym.to_owned());
        let c = Comparison { symbols: syms, multi_values: multi };
        proof {
            assert(c@.symbols =~~= seq![sym@]);
        }
        c
    }

    /// Builds a two-symbol comparison whose intended model is handed in as a
    /// ghost value.
    fn builtin_pair(
        sym0: &str,
        sym1: &str,
        multi: bool,
        Ghost(target): Ghost<CompView>,
    ) -> (r: Comparison)
        requires
            target.symbols =~~= seq![sym0@, sym1@],
            target.multi == multi,
            target.valid(),
        ensures
            r@ == target,
            r@.valid(),
    {
        let mut syms: Vec<String> = Vec::new();
        syms.push(sym0.to_owned());
        syms.push(sym1.to_owned());
        let c = Comparison { symbols: syms, multi_values: multi };
        proof {
            assert(c@.symbols =~~= seq![sym0@, sym1@]);
        }
        c
    }
}

} // verus!
