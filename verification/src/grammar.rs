//! Token-level grammar shared by the FIQL and RSQL parsers.
//!
//! Each `sp_*` spec function defines exactly what a token is and where it
//! ends; each executable twin returns precisely that token. Positions are
//! character indices into the input.

use vstd::prelude::*;

use crate::comparison::is_ascii_letter;
use crate::constraint::is_reserved_char;
use crate::expr::Operator;
use crate::QueryType;
use vstd::string::StrSliceExecFns;

verus! {

/// Whitespace accepted silently between tokens.
pub open spec fn is_ws(c: char) -> bool {
    c == ' ' || c == '\t' || c == '\r' || c == '\n'
}

pub open spec fn is_ascii_digit(c: char) -> bool {
    '0' <= c && c <= '9'
}

pub open spec fn is_alnum(c: char) -> bool {
    is_ascii_letter(c) || is_ascii_digit(c)
}

/// A character a selector may start with.
pub open spec fn is_selector_start(c: char) -> bool {
    is_alnum(c) || c == '_'
}

/// A character a selector may continue with.
pub open spec fn is_selector_char(c: char) -> bool {
    is_selector_start(c) || c == '.' || c == ':' || c == '-'
}

/// A character of a FIQL argument token: URL-escape-safe text.
pub open spec fn is_fiql_arg_char(c: char) -> bool {
    is_alnum(c) || c == '-' || c == '_' || c == '.' || c == '~' || c == '%' || c == '*' || c == ':'
        || c == '/' || c == '+'
}

/// A character of an unquoted RSQL value: anything outside the reserved set
/// and not whitespace.
pub open spec fn is_rsql_value_char(c: char) -> bool {
    !is_reserved_char(c) && !is_ws(c)
}

/// First position at or after `i` holding no whitespace.
pub open spec fn sp_skip_ws(s: Seq<char>, i: int) -> int
    decreases s.len() - i,
{
    if 0 <= i < s.len() && is_ws(s[i]) {
        sp_skip_ws(s, i + 1)
    } else {
        i
    }
}

/// First position at or after `i` where the selector token ends.
pub open spec fn sp_scan_selector(s: Seq<char>, i: int) -> int
    decreases s.len() - i,
{
    if 0 <= i < s.len() && is_selector_char(s[i]) {
        sp_scan_selector(s, i + 1)
    } else {
        i
    }
}

/// First position at or after `i` holding no ASCII letter.
pub open spec fn sp_scan_letters(s: Seq<char>, i: int) -> int
    decreases s.len() - i,
{
    if 0 <= i < s.len() && is_ascii_letter(s[i]) {
        sp_scan_letters(s, i + 1)
    } else {
        i
    }
}

/// First position at or after `i` where a FIQL argument token ends.
pub open spec fn sp_scan_fiql_arg(s: Seq<char>, i: int) -> int
    decreases s.len() - i,
{
    if 0 <= i < s.len() && is_fiql_arg_char(s[i]) {
        sp_scan_fiql_arg(s, i + 1)
    } else {
        i
    }
}

/// First position at or after `i` where an unquoted RSQL value ends.
pub open spec fn sp_scan_rsql_value(s: Seq<char>, i: int) -> int
    decreases s.len() - i,
{
    if 0 <= i < s.len() && is_rsql_value_char(s[i]) {
        sp_scan_rsql_value(s, i + 1)
    } else {
        i
    }
}

/// The selector token at `i`: a selector-start character followed by any
/// run of selector characters.
pub open spec fn sp_selector(s: Seq<char>, i: int) -> Option<(Seq<char>, int)> {
    if 0 <= i < s.len() && is_selector_start(s[i]) {
        let j = sp_scan_selector(s, i + 1);
        Some((s.subrange(i, j), j))
    } else {
        None
    }
}

/// The comparison symbol token at `i`: `!=`, `<`, `<=`, `>`, `>=`, or
/// `=` letters `=` (the longer form wins where both could start).
pub open spec fn sp_comp_symbol(s: Seq<char>, i: int) -> Option<(Seq<char>, int)> {
    if !(0 <= i < s.len()) {
        None
    } else if s[i] == '!' {
        if i + 1 < s.len() && s[i + 1] == '=' {
            Some((s.subrange(i, i + 2), i + 2))
        } else {
            None
        }
    } else if s[i] == '<' || s[i] == '>' {
        if i + 1 < s.len() && s[i + 1] == '=' {
            Some((s.subrange(i, i + 2), i + 2))
        } else {
            Some((s.subrange(i, i + 1), i + 1))
        }
    } else if s[i] == '=' {
        let j = sp_scan_letters(s, i + 1);
        if j < s.len() && s[j] == '=' {
            Some((s.subrange(i, j + 1), j + 1))
        } else {
            None
        }
    } else {
        None
    }
}

/// Position of the closing quote `q` at or after `i`; a backslash always
/// escapes the character that follows it.
pub open spec fn sp_quote_end(s: Seq<char>, i: int, q: char) -> Option<int>
    decreases s.len() - i,
{
    if !(0 <= i < s.len()) {
        None
    } else if s[i] == q {
        Some(i)
    } else if s[i] == '\\' {
        if i + 1 < s.len() {
            sp_quote_end(s, i + 2, q)
        } else {
            None
        }
    } else {
        sp_quote_end(s, i + 1, q)
    }
}

/// The FIQL argument at `i`: one non-empty unquoted token.
pub open spec fn sp_fiql_arg(s: Seq<char>, i: int) -> Option<(Seq<char>, int)> {
    let j = sp_scan_fiql_arg(s, i);
    if 0 <= i < j {
        Some((s.subrange(i, j), j))
    } else {
        None
    }
}

/// One RSQL value at `i`: a double-quoted or single-quoted run (the stored
/// value is the inside text, quotes consumed), or a non-empty unquoted
/// token.
pub open spec fn sp_rsql_value(s: Seq<char>, i: int) -> Option<(Seq<char>, int)> {
    if !(0 <= i < s.len()) {
        None
    } else if s[i] == '"' {
        match sp_quote_end(s, i + 1, '"') {
            Some(e) => Some((s.subrange(i + 1, e), e + 1)),
            None => None,
        }
    } else if s[i] == '\'' {
        match sp_quote_end(s, i + 1, '\'') {
            Some(e) => Some((s.subrange(i + 1, e), e + 1)),
            None => None,
        }
    } else {
        let j = sp_scan_rsql_value(s, i);
        if j > i {
            Some((s.subrange(i, j), j))
        } else {
            None
        }
    }
}

/// The rest of a parenthesized RSQL value list, entered right after a
/// value: either `, value` repeats or `)` closes.
pub open spec fn sp_rsql_list_tail(s: Seq<char>, i: int, acc: Seq<Seq<char>>) -> Option<
    (Seq<Seq<char>>, int),
>
    decreases s.len() - i,
{
    let i1 = sp_skip_ws(s, i);
    if 0 <= i1 < s.len() && s[i1] == ',' {
        let i2 = sp_skip_ws(s, i1 + 1);
        match sp_rsql_value(s, i2) {
            Some((v, j)) => {
                if i < j <= s.len() {
                    sp_rsql_list_tail(s, j, acc.push(v))
                } else {
                    None
                }
            },
            None => None,
        }
    } else if 0 <= i1 < s.len() && s[i1] == ')' {
        Some((acc, i1 + 1))
    } else {
        None
    }
}

/// The RSQL argument at `i`: one value, or a parenthesized comma-separated
/// list of values.
pub open spec fn sp_rsql_args(s: Seq<char>, i: int) -> Option<(Seq<Seq<char>>, int)> {
    if 0 <= i < s.len() && s[i] == '(' {
        let i1 = sp_skip_ws(s, i + 1);
        match sp_rsql_value(s, i1) {
            Some((v, j)) => sp_rsql_list_tail(s, j, seq![v]),
            None => None,
        }
    } else {
        match sp_rsql_value(s, i) {
            Some((v, j)) => Some((seq![v], j)),
            None => None,
        }
    }
}

/// The argument production of the dialect: FIQL takes exactly one unquoted
/// token, RSQL takes a value or a parenthesized list.
pub open spec fn sp_args(q: QueryType, s: Seq<char>, i: int) -> Option<(Seq<Seq<char>>, int)> {
    match q {
        QueryType::Fiql => match sp_fiql_arg(s, i) {
            Some((v, j)) => Some((seq![v], j)),
            None => None,
        },
        QueryType::Rsql => sp_rsql_args(s, i),
    }
}

/// The logical connective at `i`: `;` / `,` in both dialects; RSQL also
/// accepts the keywords `and` / `or` when a whitespace character follows.
/// The position returned stands before that whitespace.
pub open spec fn sp_operator(q: QueryType, s: Seq<char>, i: int) -> Option<(Operator, int)> {
    if !(0 <= i < s.len()) {
        None
    } else if s[i] == ';' {
        Some((Operator::And, i + 1))
    } else if s[i] == ',' {
        Some((Operator::Or, i + 1))
    } else if q is Rsql && i + 3 < s.len() && s[i] == 'a' && s[i + 1] == 'n' && s[i + 2] == 'd'
        && is_ws(s[i + 3]) {
        Some((Operator::And, i + 3))
    } else if q is Rsql && i + 2 < s.len() && s[i] == 'o' && s[i + 1] == 'r' && is_ws(s[i + 2]) {
        Some((Operator::Or, i + 2))
    } else {
        None
    }
}

fn exec_is_ws(c: char) -> (r: bool)
    ensures
        r == is_ws(c),
{
    c == ' ' || c == '\t' || c == '\r' || c == '\n'
}

fn exec_is_selector_start(c: char) -> (r: bool)
    ensures
        r == is_selector_start(c),
{
    ('a' <= c && c <= 'z') || ('A' <= c && c <= 'Z') || ('0' <= c && c <= '9') || c == '_'
}

fn exec_is_selector_char(c: char) -> (r: bool)
    ensures
        r == is_selector_char(c),
{
    exec_is_selector_start(c) || c == '.' || c == ':' || c == '-'
}

fn exec_is_fiql_arg_char(c: char) -> (r: bool)
    ensures
        r == is_fiql_arg_char(c),
{
    ('a' <= c && c <= 'z') || ('A' <= c && c <= 'Z') || ('0' <= c && c <= '9') || c == '-' || c
        == '_' || c == '.' || c == '~' || c == '%' || c == '*' || c == ':' || c == '/' || c == '+'
}

fn exec_is_rsql_value_char(c: char) -> (r: bool)
    ensures
        r == is_rsql_value_char(c),
{
    !(c == '"' || c == '\'' || c == '(' || c == ')' || c == ';' || c == ',' || c == '=' || c == '!'
        || c == '~' || c == '<' || c == '>' || c == ' ' || c == '\t' || c == '\r' || c == '\n')
}

/// Skips whitespace from `i`.
pub(crate) fn skip_ws(s: &str, i: usize) -> (r: usize)
    requires
        i <= s@.len(),
    ensures
        r as int == sp_skip_ws(s@, i as int),
        i <= r <= s@.len(),
    decreases s@.len() - i,
{
    let n = s.unicode_len();
    if i < n && exec_is_ws(s.get_char(i)) {
        skip_ws(s, i + 1)
    } else {
        i
    }
}

fn scan_selector(s: &str, i: usize) -> (r: usize)
    requires
        i <= s@.len(),
    ensures
        r as int == sp_scan_selector(s@, i as int),
        i <= r <= s@.len(),
    decreases s@.len() - i,
{
    let n = s.unicode_len();
    if i < n && exec_is_selector_char(s.get_char(i)) {
        scan_selector(s, i + 1)
    } else {
        i
    }
}

fn scan_letters(s: &str, i: usize) -> (r: usize)
    requires
        i <= s@.len(),
    ensures
        r as int == sp_scan_letters(s@, i as int),
        i <= r <= s@.len(),
    decreases s@.len() - i,
{
    let n = s.unicode_len();
    if i < n {
        let c = s.get_char(i);
        if ('a' <= c && c <= 'z') || ('A' <= c && c <= 'Z') {
            return scan_letters(s, i + 1);
        }
    }
    i
}

fn scan_fiql_arg(s: &str, i: usize) -> (r: usize)
    requires
        i <= s@.len(),
    ensures
        r as int == sp_scan_fiql_arg(s@, i as int),
        i <= r <= s@.len(),
    decreases s@.len() - i,
{
    let n = s.unicode_len();
    if i < n && exec_is_fiql_arg_char(s.get_char(i)) {
        scan_fiql_arg(s, i + 1)
    } else {
        i
    }
}

fn scan_rsql_value(s: &str, i: usize) -> (r: usize)
    requires
        i <= s@.len(),
    ensures
        r as int == sp_scan_rsql_value(s@, i as int),
        i <= r <= s@.len(),
    decreases s@.len() - i,
{
    let n = s.unicode_len();
    if i < n && exec_is_rsql_value_char(s.get_char(i)) {
        scan_rsql_value(s, i + 1)
    } else {
        i
    }
}

/// Reads the selector token at `i`.
pub(crate) fn parse_selector(s: &str, i: usize) -> (r: Option<(String, usize)>)
    requires
        i <= s@.len(),
    ensures
        match r {
            Some((sel, j)) => {
                &&& sp_selector(s@, i as int) == Some((sel@, j as int))
                &&& i < j <= s@.len()
            },
            None => sp_selector(s@, i as int) is None,
        },
{
    let n = s.unicode_len();
    if i < n && exec_is_selector_start(s.get_char(i)) {
        let j = scan_selector(s, i + 1);
        let sel = s.substring_char(i, j).to_owned();
        Some((sel, j))
    } else {
        None
    }
}

/// Reads the comparison symbol token at `i`.
pub(crate) fn parse_comp_symbol(s: &str, i: usize) -> (r: Option<(String, usize)>)
    requires
        i <= s@.len(),
    ensures
        match r {
            Some((sym, j)) => {
                &&& sp_comp_symbol(s@, i as int) == Some((sym@, j as int))
                &&& i < j <= s@.len()
            },
            None => sp_comp_symbol(s@, i as int) is None,
        },
{
    let n = s.unicode_len();
    if i >= n {
        return None;
    }
    let c = s.get_char(i);
    if c == '!' {
        if i + 1 < n && s.get_char(i + 1) == '=' {
            Some((s.substring_char(i, i + 2).to_owned(), i + 2))
        } else {
            None
        }
    } else if c == '<' || c == '>' {
        if i + 1 < n && s.get_char(i + 1) == '=' {
            Some((s.substring_char(i, i + 2).to_owned(), i + 2))
        } else {
            Some((s.substring_char(i, i + 1).to_owned(), i + 1))
        }
    } else if c == '=' {
        let j = scan_letters(s, i + 1);
        if j < n && s.get_char(j) == '=' {
            Some((s.substring_char(i, j + 1).to_owned(), j + 1))
        } else {
            None
        }
    } else {
        None
    }
}

fn find_quote_end(s: &str, i: usize, q: char) -> (r: Option<usize>)
    requires
        i <= s@.len(),
    ensures
        match r {
            Some(e) => sp_quote_end(s@, i as int, q) == Some(e as int) && i <= e < s@.len(),
            None => sp_quote_end(s@, i as int, q) is None,
        },
    decreases s@.len() - i,
{
    let n = s.unicode_len();
    if i >= n {
        return None;
    }
    let c = s.get_char(i);
    if c == q {
        Some(i)
    } else if c == '\\' {
        if i + 1 < n {
            find_quote_end(s, i + 2, q)
        } else {
            None
        }
    } else {
        find_quote_end(s, i + 1, q)
    }
}

/// Reads one RSQL value at `i`: quoted (the quotes are consumed) or an
/// unquoted token.
pub(crate) fn parse_rsql_value(s: &str, i: usize) -> (r: Option<(String, usize)>)
    requires
        i <= s@.len(),
    ensures
        match r {
            Some((v, j)) => {
                &&& sp_rsql_value(s@, i as int) == Some((v@, j as int))
                &&& i < j <= s@.len()
            },
            None => sp_rsql_value(s@, i as int) is None,
        },
{
    let n = s.unicode_len();
    if i >= n {
        return None;
    }
    let c = s.get_char(i);
    if c == '"' {
        match find_quote_end(s, i + 1, '"') {
            Some(e) => Some((s.substring_char(i + 1, e).to_owned(), e + 1)),
            None => None,
        }
    } else if c == '\'' {
        match find_quote_end(s, i + 1, '\'') {
            Some(e) => Some((s.substring_char(i + 1, e).to_owned(), e + 1)),
            None => None,
        }
    } else {
        let j = scan_rsql_value(s, i);
        if j > i {
            Some((s.substring_char(i, j).to_owned(), j))
        } else {
            None
        }
    }
}

/// Reads the rest of a parenthesized RSQL value list, entered right after a
/// value; `acc` already holds the values read.
fn parse_rsql_list_tail(s: &str, i: usize, acc: Vec<String>) -> (r: Option<(Vec<String>, usize)>)
    requires
        i <= s@.len(),
    ensures
        match r {
            Some((vals, j)) => {
                &&& sp_rsql_list_tail(s@, i as int, acc@.map_values(|x: String| x@)) == Some(
                    (vals@.map_values(|x: String| x@), j as int),
                )
                &&& i < j <= s@.len()
            },
            None => sp_rsql_list_tail(s@, i as int, acc@.map_values(|x: String| x@)) is None,
        },
    decreases s@.len() - i,
{
    let ghost acc0 = acc@.map_values(|x: String| x@);
    let n = s.unicode_len();
    let i1 = skip_ws(s, i);
    if i1 < n && s.get_char(i1) == ',' {
        let i2 = skip_ws(s, i1 + 1);
        match parse_rsql_value(s, i2) {
            Some((v, j)) => {
                let ghost vv = v@;
                let mut acc2 = acc;
                acc2.push(v);
                proof {
                    assert(acc2@.map_values(|x: String| x@) =~= acc0.push(vv));
                }
                parse_rsql_list_tail(s, j, acc2)
            },
            None => None,
        }
    } else if i1 < n && s.get_char(i1) == ')' {
        Some((acc, i1 + 1))
    } else {
        None
    }
}

/// Reads the RSQL argument at `i`: one value or a parenthesized list.
pub(crate) fn parse_rsql_args(s: &str, i: usize) -> (r: Option<(Vec<String>, usize)>)
    requires
        i <= s@.len(),
    ensures
        match r {
            Some((vals, j)) => {
                &&& sp_rsql_args(s@, i as int) == Some((vals@.map_values(|x: String| x@), j as int))
                &&& i < j <= s@.len()
            },
            None => sp_rsql_args(s@, i as int) is None,
        },
{
    let n = s.unicode_len();
    if i < n && s.get_char(i) == '(' {
        let i1 = skip_ws(s, i + 1);
        match parse_rsql_value(s, i1) {
            Some((v, j)) => {
                let ghost v0 = v@;
                let mut acc: Vec<String> = Vec::new();
                acc.push(v);
                proof {
                    assert(acc@.map_values(|x: String| x@) =~= seq![v0]);
                }
                parse_rsql_list_tail(s, j, acc)
            },
            None => None,
        }
    } else {
        match parse_rsql_value(s, i) {
            Some((v, j)) => {
                let ghost v0 = v@;
                let mut vals: Vec<String> = Vec::new();
                vals.push(v);
                proof {
                    assert(vals@.map_values(|x: String| x@) =~= seq![v0]);
                }
                Some((vals, j))
            },
            None => None,
        }
    }
}

/// Reads the argument production of the dialect at `i`.
pub(crate) fn parse_args(q: QueryType, s: &str, i: usize) -> (r: Option<(Vec<String>, usize)>)
    requires
        i <= s@.len(),
    ensures
        match r {
            Some((vals, j)) => {
                &&& sp_args(q, s@, i as int) == Some((vals@.map_values(|x: String| x@), j as int))
                &&& i < j <= s@.len()
            },
            None => sp_args(q, s@, i as int) is None,
        },
{
    match q {
        QueryType::Fiql => {
            let j = scan_fiql_arg(s, i);
            if j > i {
                let tok = s.substring_char(i, j).to_owned();
                let ghost t0 = tok@;
                let mut vals: Vec<String> = Vec::new();
                vals.push(tok);
                proof {
                    assert(vals@.map_values(|x: String| x@) =~= seq![t0]);
                }
                Some((vals, j))
            } else {
                None
            }
        },
        QueryType::Rsql => parse_rsql_args(s, i),
    }
}

/// Reads the logical connective at `i`, if one stands there.
pub(crate) fn parse_operator(q: QueryType, s: &str, i: usize) -> (r: Option<(Operator, usize)>)
    requires
        i <= s@.len(),
    ensures
        match r {
            Some((op, j)) => {
                &&& sp_operator(q, s@, i as int) == Some((op, j as int))
                &&& i < j <= s@.len()
            },
            None => sp_operator(q, s@, i as int) is None,
        },
{
    let n = s.unicode_len();
    if i >= n {
        return None;
    }
    let c = s.get_char(i);
    if c == ';' {
        Some((Operator::And, i + 1))
    } else if c == ',' {
        Some((Operator::Or, i + 1))
    } else if matches!(q, QueryType::Rsql) && n - i > 3 && c == 'a' && s.get_char(i + 1) == 'n'
        && s.get_char(i + 2) == 'd' && exec_is_ws(s.get_char(i + 3)) {
        Some((Operator::And, i + 3))
    } else if matches!(q, QueryType::Rsql) && n - i > 2 && c == 'o' && s.get_char(i + 1) == 'r'
        && exec_is_ws(s.get_char(i + 2)) {
        Some((Operator::Or, i + 2))
    } else {
        None
    }
}

} // verus!
