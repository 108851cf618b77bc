use vstd::prelude::*;

use crate::comparison::{CompView, Comparison};
use crate::error::{ParserError, ParserErrorView};
use vstd::string::{StrSliceExecFns, StringExecFns};

verus! {

/// A character that forces a rendered argument value into quotes.
pub open spec fn is_reserved_char(c: char) -> bool {
    ||| c == '"'
    ||| c == '\''
    ||| c == '('
    ||| c == ')'
    ||| c == ';'
    ||| c == ','
    ||| c == '='
    ||| c == '!'
    ||| c == '~'
    ||| c == '<'
    ||| c == '>'
    ||| c == ' '
}

pub open spec fn has_reserved(s: Seq<char>) -> bool {
    exists|i: int| 0 <= i < s.len() && is_reserved_char(#[trigger] s[i])
}

/// The quote-choice scan: walking left to right with a "previous character
/// was a backslash" flag, an unescaped single quote seen before any
/// unescaped double quote selects double-quote wrapping.
pub open spec fn prefers_double_quote(s: Seq<char>, escaped: bool) -> bool
    decreases s.len(),
{
    if s.len() == 0 {
        false
    } else if s[0] == '\\' {
        prefers_double_quote(s.drop_first(), true)
    } else if s[0] == '\'' && !escaped {
        true
    } else if s[0] == '"' && !escaped {
        false
    } else {
        prefers_double_quote(s.drop_first(), false)
    }
}

/// How one argument value renders: raw when it holds no reserved character,
/// otherwise wrapped in the quote kind the scan selects. Inner quotes are
/// not re-escaped.
pub open spec fn quote_wrapped(s: Seq<char>) -> Seq<char> {
    if !has_reserved(s) {
        s
    } else if prefers_double_quote(s, false) {
        seq!['"'] + s + seq!['"']
    } else {
        seq!['\''] + s + seq!['\'']
    }
}

/// The values of an argument list, each under the quoting rule, joined
/// with commas.
pub open spec fn join_quoted(vals: Seq<Seq<char>>) -> Seq<char>
    decreases vals.len(),
{
    if vals.len() == 0 {
        Seq::empty()
    } else if vals.len() == 1 {
        quote_wrapped(vals[0])
    } else {
        quote_wrapped(vals[0]) + seq![','] + join_quoted(vals.drop_first())
    }
}

/// Canonical rendering of an argument list: one value renders alone, two or
/// more render comma-joined inside parentheses, an empty list renders empty.
pub open spec fn arguments_rendered(vals: Seq<Seq<char>>) -> Seq<char> {
    if vals.len() > 1 {
        seq!['('] + join_quoted(vals) + seq![')']
    } else if vals.len() == 1 {
        quote_wrapped(vals[0])
    } else {
        Seq::empty()
    }
}

fn is_reserved(c: char) -> (r: bool)
    ensures
        r == is_reserved_char(c),
{
    c == '"' || c == '\'' || c == '(' || c == ')' || c == ';' || c == ',' || c == '=' || c == '!'
        || c == '~' || c == '<' || c == '>' || c == ' '
}

/// The quote-choice scan over the suffix of `arg` starting at `k`.
fn scan_prefers_double(arg: &str, k: usize, escaped: bool) -> (r: bool)
    requires
        k <= arg@.len(),
    ensures
        r == prefers_double_quote(arg@.subrange(k as int, arg@.len() as int), escaped),
    decreases arg@.len() - k,
{
    let n = arg.unicode_len();
    let ghost suffix = arg@.subrange(k as int, arg@.len() as int);
    if k >= n {
        return false;
    }
    let c = arg.get_char(k);
    proof {
        assert(suffix[0] == arg@[k as int]);
        assert(suffix.drop_first() =~= arg@.subrange(k as int + 1, arg@.len() as int));
    }
    if c == '\\' {
        scan_prefers_double(arg, k + 1, true)
    } else if c == '\'' && !escaped {
        true
    } else if c == '"' && !escaped {
        false
    } else {
        scan_prefers_double(arg, k + 1, false)
    }
}

/// Renders one argument value, wrapping it in quotes when it contains a
/// reserved character: double quotes when the scan finds an unescaped `'`
/// first, otherwise single quotes.
pub fn add_quote(arg: &str) -> (r: String)
    ensures
        r@ == quote_wrapped(arg@),
{
    let n = arg.unicode_len();
    let mut i: usize = 0;
    let mut found: bool = false;
    while i < n
        invariant
            n == arg@.len(),
            0 <= i <= n,
            found <==> (exists|j: int| 0 <= j < i && is_reserved_char(#[trigger] arg@[j])),
        decreases n - i,
    {
        if is_reserved(arg.get_char(i)) {
            found = true;
        }
        i = i + 1;
    }
    if !found {
        return arg.to_owned();
    }
    if scan_prefers_double(arg, 0, false) {
        proof {
            reveal_strlit("\"");
            assert(arg@.subrange(0, arg@.len() as int) =~= arg@);
        }
        let r = String::from_str("\"").concat(arg).concat("\"");
        proof {
            assert(r@ =~= seq!['"'] + arg@ + seq!['"']);
        }
        r
    } else {
        proof {
            reveal_strlit("'");
            assert(arg@.subrange(0, arg@.len() as int) =~= arg@);
        }
        let r = String::from_str("'").concat(arg).concat("'");
        proof {
            assert(r@ =~= seq!['\''] + arg@ + seq!['\'']);
        }
        r
    }
}

/// An ordered list of raw argument values, quote markers already stripped.
#[derive(Debug, PartialEq, Eq, Clone)]
pub struct Arguments(pub Vec<String>);

impl View for Arguments {
    type V = Seq<Seq<char>>;

    open spec fn view(&self) -> Seq<Seq<char>> {
        self.0@.map_values(|s: String| s@)
    }
}

/// Renders the comma-joined tail of `args` from index `i` on, each value
/// under the quoting rule.
fn render_values_from(args: &Vec<String>, i: usize) -> (r: String)
    requires
        i <= args@.len(),
    ensures
        r@ == join_quoted(args@.map_values(|s: String| s@).subrange(i as int, args@.len() as int)),
    decreases args@.len() - i,
{
    let ghost vals = args@.map_values(|s: String| s@);
    let ghost tail = vals.subrange(i as int, args@.len() as int);
    if i >= args.len() {
        let r = String::new();
        proof {
            assert(tail.len() == 0);
        }
        r
    } else if i == args.len() - 1 {
        let r = add_quote(args[i].as_str());
        proof {
            assert(tail.len() == 1);
            assert(tail[0] == vals[i as int]);
        }
        r
    } else {
        let head = add_quote(args[i].as_str());
        let rest = render_values_from(args, i + 1);
        let r = head.concat(",").concat(rest.as_str());
        proof {
            reveal_strlit(",");
            assert(tail[0] == vals[i as int]);
            assert(tail.drop_first() =~= vals.subrange(i as int + 1, args@.len() as int));
            assert(r@ =~= quote_wrapped(tail[0]) + seq![','] + join_quoted(tail.drop_first()));
        }
        r
    }
}

impl Arguments {
    /// Canonical rendering: a single value renders alone, several render
    /// comma-joined inside parentheses.
    pub fn to_string(&self) -> (r: String)
        ensures
            r@ == arguments_rendered(self@),
    {
        if self.0.len() > 1 {
            let inner = render_values_from(&self.0, 0);
            let r = String::from_str("(").concat(inner.as_str()).concat(")");
            proof {
                reveal_strlit("(");
                reveal_strlit(")");
                assert(self@.subrange(0, self.0@.len() as int) =~= self@);
                assert(r@ =~= seq!['('] + join_quoted(self@) + seq![')']);
            }
            r
        } else if self.0.len() == 1 {
            add_quote(self.0[0].as_str())
        } else {
            let r = String::new();
            proof {
                assert(r@ =~= Seq::<char>::empty());
            }
            r
        }
    }
}

/// Ghost model of a `Constraint`.
pub struct ConstraintView {
    pub selector: Seq<char>,
    pub comparison: CompView,
    pub arguments: Seq<Seq<char>>,
}

impl ConstraintView {
    /// The constraint invariant: a valid comparison, and argument
    /// cardinality matching its `multi_values` flag.
    pub open spec fn wf(self) -> bool {
        &&& self.comparison.valid()
        &&& (self.comparison.multi ==> self.arguments.len() >= 2)
        &&& (!self.comparison.multi ==> self.arguments.len() == 1)
    }

    /// Canonical rendering: selector, canonical operator symbol, arguments.
    pub open spec fn rendered(self) -> Seq<char> {
        self.selector + self.comparison.canon() + arguments_rendered(self.arguments)
    }
}

/// One `selector comparison arguments` triple.
#[derive(Debug, PartialEq, Eq, Clone)]
pub struct Constraint {
    pub selector: String,
    pub comparison: Comparison,
    pub arguments: Arguments,
}

impl View for Constraint {
    type V = ConstraintView;

    open spec fn view(&self) -> ConstraintView {
        ConstraintView {
            selector: self.selector@,
            comparison: self.comparison@,
            arguments: self.arguments@,
        }
    }
}

impl Constraint {
    /// Builds a constraint, enforcing the argument-cardinality invariant:
    /// a multi-value comparison needs at least two values, any other exactly
    /// one. A mismatch is reported as `InvalidConstraintArgs` carrying the
    /// expected count (as text) and the count found.
    pub fn new(selector: &str, comparison: Comparison, arguments: &[&str]) -> (r: Result<
        Constraint,
        ParserError,
    >)
        ensures
            r is Ok <==> ((comparison@.multi && arguments@.len() >= 2) || (!comparison@.multi
                && arguments@.len() == 1)),
            r matches Ok(c) ==> c@ == (ConstraintView {
                selector: selector@,
                comparison: comparison@,
                arguments: arguments@.map_values(|s: &str| s@),
            }),
            r is Err && comparison@.multi ==> r->Err_0@ == ParserErrorView::InvalidConstraintArgs(
                seq!['>', ' ', '1'],
                arguments@.len() as usize,
            ),
            r is Err && !comparison@.multi ==> r->Err_0@ == ParserErrorView::InvalidConstraintArgs(
                seq!['=', '=', ' ', '1'],
                arguments@.len() as usize,
            ),
    {
        if comparison.is_multi() {
            if arguments.len() <= 1 {
                let expect = String::from_str("> 1");
                proof {
                    reveal_strlit("> 1");
                    assert(expect@ =~= seq!['>', ' ', '1']);
                }
                return Err(ParserError::InvalidConstraintArgs(expect, arguments.len()));
            }
        } else {
            if arguments.len() != 1 {
                let expect = String::from_str("== 1");
                proof {
                    reveal_strlit("== 1");
                    assert(expect@ =~= seq!['=', '=', ' ', '1']);
                }
                return Err(ParserError::InvalidConstraintArgs(expect, arguments.len()));
            }
        }
        let mut vals: Vec<String> = Vec::new();
        let mut k: usize = 0;
        while k < arguments.len()
            invariant
                0 <= k <= arguments@.len(),
                vals@.len() == k,
                forall|j: int| 0 <= j < k ==> #[trigger] vals@[j]@ == arguments@[j]@,
            decreases arguments@.len() - k,
        {
            vals.push(arguments[k].to_owned());
            k = k + 1;
        }
        let c = Constraint {
            selector: selector.to_owned(),
            comparison,
            arguments: Arguments(vals),
        };
        proof {
            assert(c@.arguments =~~= arguments@.map_values(|s: &str| s@));
        }
        Ok(c)
    }

    /// Canonical rendering: selector, canonical operator symbol, arguments.
    pub fn to_string(&self) -> (r: String)
        requires
            self@.comparison.symbols.len() >= 1,
        ensures
            r@ == self@.rendered(),
    {
        let r = self.selector.clone().concat(self.comparison.to_string().as_str()).concat(
            self.arguments.to_string().as_str(),
        );
        r
    }
}

} // verus!
