//! The tokenizer and the expression parser.
//!
//! Tokens are parentheses and maximal runs of characters delimited by
//! whitespace or parentheses. The parser consumes tokens from the
//! front of the list: a parenthesized sequence becomes a list node, a
//! decimal numeral a number literal, and anything else a symbol.

use crate::ast::{deep_exprs, Expr, SpecExpr};
use crate::rat::Rat;
use vstd::prelude::*;
use vstd::string::StrSliceExecFns;

verus! {

/// Whitespace that separates tokens.
pub open spec fn is_space(c: char) -> bool {
    c == ' ' || c == '\t' || c == '\n' || c == '\r'
}

/// A character that ends a run token: whitespace or a parenthesis.
pub open spec fn is_delim(c: char) -> bool {
    is_space(c) || c == '(' || c == ')'
}

/// The position where the run token starting at `i` ends: the first
/// delimiter at or after `i`, or the end of the text.
pub open spec fn token_end(s: Seq<char>, i: int) -> int
    decreases s.len() - i,
{
    if i < 0 || i >= s.len() {
        s.len() as int
    } else if is_delim(s[i]) {
        i
    } else {
        token_end(s, i + 1)
    }
}

/// The tokens of the text from position `i` on.
pub open spec fn spec_tokenize_from(s: Seq<char>, i: int) -> Seq<Seq<char>>
    decreases s.len() - i,
{
    if i < 0 || i >= s.len() {
        Seq::empty()
    } else if is_space(s[i]) {
        spec_tokenize_from(s, i + 1)
    } else if s[i] == '(' || s[i] == ')' {
        seq![seq![s[i]]] + spec_tokenize_from(s, i + 1)
    } else {
        let j = token_end(s, i + 1);
        if j > i && j <= s.len() {
            seq![s.subrange(i, j)] + spec_tokenize_from(s, j)
        } else {
            Seq::empty()
        }
    }
}

/// The tokens of a text: parentheses stand alone, and whitespace
/// separates the rest.
pub open spec fn spec_tokenize(s: Seq<char>) -> Seq<Seq<char>> {
    spec_tokenize_from(s, 0)
}

/// `token_end` is the first delimiter at or after `i`.
proof fn lemma_token_end(s: Seq<char>, i: int, j: int)
    requires
        0 <= i <= j <= s.len(),
        forall|k: int| i <= k < j ==> !is_delim(#[trigger] s[k]),
        j == s.len() || is_delim(s[j]),
    ensures
        token_end(s, i) == j,
    decreases j - i,
{
    if i < j {
        lemma_token_end(s, i + 1, j);
    }
}

/// Whether a character is a token delimiter.
fn delim_char(c: char) -> (r: bool)
    ensures
        r == is_delim(c),
{
    c == ' ' || c == '\t' || c == '\n' || c == '\r' || c == '(' || c == ')'
}

/// Split source text into tokens: each parenthesis is its own token,
/// and whitespace separates the rest.
#[verifier::loop_isolation(false)]
pub fn tokenize(input: &str) -> (r: Vec<String>)
    ensures
        r.deep_view() == spec_tokenize(input@),
{
    let s = input;
    let n = s.unicode_len();
    let mut out: Vec<String> = Vec::new();
    let mut i: usize = 0;
    proof {
        assert(out.deep_view() + spec_tokenize_from(s@, 0) =~= spec_tokenize_from(s@, 0));
    }
    while i < n
        invariant
            i <= n,
            n == s@.len(),
            spec_tokenize(s@) == out.deep_view() + spec_tokenize_from(s@, i as int),
        decreases n - i,
    {
        let c = s.get_char(i);
        if c == ' ' || c == '\t' || c == '\n' || c == '\r' {
            i = i + 1;
        } else if c == '(' || c == ')' {
            let ghost old_out = out.deep_view();
            out.push(s.substring_char(i, i + 1).to_owned());
            proof {
                assert(s@.subrange(i as int, i as int + 1) =~= seq![s@[i as int]]);
                assert(out.deep_view() =~= old_out.push(seq![s@[i as int]]));
                assert(old_out + (seq![seq![s@[i as int]]] + spec_tokenize_from(s@, i as int + 1))
                    =~= out.deep_view() + spec_tokenize_from(s@, i as int + 1));
            }
            i = i + 1;
        } else {
            let mut j = i + 1;
            while j < n && !delim_char(s.get_char(j))
                invariant
                    i < j <= n,
                    forall|k: int| i as int <= k < j as int ==> !is_delim(#[trigger] s@[k]),
                decreases n - j,
            {
                j = j + 1;
            }
            proof {
                lemma_token_end(s@, i as int + 1, j as int);
            }
            let ghost old_out = out.deep_view();
            out.push(s.substring_char(i, j).to_owned());
            proof {
                assert(out.deep_view() =~= old_out.push(s@.subrange(i as int, j as int)));
                assert(old_out + (seq![s@.subrange(i as int, j as int)] + spec_tokenize_from(
                    s@,
                    j as int,
                )) =~= out.deep_view() + spec_tokenize_from(s@, j as int));
            }
            i = j;
        }
    }
    proof {
        assert(out.deep_view() + spec_tokenize_from(s@, i as int) =~= out.deep_view());
    }
    out
}

/// Whether a character is a decimal digit, and its value.
pub open spec fn is_digit(c: char) -> bool {
    '0' <= c <= '9'
}

/// The numeric value of a decimal digit.
pub open spec fn digit_val(c: char) -> int {
    c as int - '0' as int
}

/// Scan the characters of a numeral from position `i` on:
/// accumulating the digits into the numerator, scaling the
/// denominator once a decimal point was seen, and refusing a second
/// point, any other character, a numeral with no digits at all, and
/// any accumulator that leaves 64 bits.
pub open spec fn num_scan(
    t: Seq<char>,
    i: int,
    num: int,
    den: int,
    seen_dot: bool,
    seen_digit: bool,
) -> Option<(int, int)>
    decreases t.len() - i,
{
    if i < 0 || i >= t.len() {
        if seen_digit {
            Some((num, den))
        } else {
            None
        }
    } else if is_digit(t[i]) {
        let n2 = num * 10 + digit_val(t[i]);
        if n2 > i64::MAX {
            None
        } else if seen_dot {
            let d2 = den * 10;
            if d2 > i64::MAX {
                None
            } else {
                num_scan(t, i + 1, n2, d2, seen_dot, true)
            }
        } else {
            num_scan(t, i + 1, n2, den, seen_dot, true)
        }
    } else if t[i] == '.' && !seen_dot {
        num_scan(t, i + 1, num, den, true, seen_digit)
    } else {
        None
    }
}

/// What numeral a token denotes, if any: an optional sign, digits,
/// and at most one decimal point, denoting an exact rational whose
/// parts fit into 64 bits.
pub open spec fn spec_parse_number(t: Seq<char>) -> Option<(int, int)> {
    if t.len() == 0 {
        None
    } else {
        let neg = t[0] == '-';
        let start: int = if t[0] == '-' || t[0] == '+' {
            1
        } else {
            0
        };
        if start >= t.len() {
            None
        } else {
            match num_scan(t, start, 0, 1, false, false) {
                Some((n, d)) => Some(
                    (
                        if neg {
                            -n
                        } else {
                            n
                        },
                        d,
                    ),
                ),
                None => None,
            }
        }
    }
}

/// Read a token as a numeral, if it is one.
#[verifier::loop_isolation(false)]
fn parse_number(t: &str) -> (r: Option<Rat>)
    ensures
        match r {
            Some(c) => c.wf() && spec_parse_number(t@) == Some(c.model()),
            None => spec_parse_number(t@) is None,
        },
{
    let n = t.unicode_len();
    if n == 0 {
        return None;
    }
    let first = t.get_char(0);
    let neg = first == '-';
    let start: usize = if first == '-' || first == '+' {
        1
    } else {
        0
    };
    if start >= n {
        return None;
    }
    let mut num: i64 = 0;
    let mut den: i64 = 1;
    let mut seen_dot = false;
    let mut seen_digit = false;
    let mut i = start;
    while i < n
        invariant
            start <= i <= n,
            n == t@.len(),
            0 <= num,
            1 <= den,
            num_scan(t@, start as int, 0, 1, false, false) == num_scan(
                t@,
                i as int,
                num as int,
                den as int,
                seen_dot,
                seen_digit,
            ),
        decreases n - i,
    {
        let c = t.get_char(i);
        if c >= '0' && c <= '9' {
            let d = (c as u32 - '0' as u32) as i64;
            proof {
                assert(d == digit_val(t@[i as int]));
                assert(num * 10 + d <= 0x7fff_ffff_ffff_ffffi64 * 10 + 9);
            }
            let n2 = (num as i128) * 10 + (d as i128);
            if n2 > 0x7fff_ffff_ffff_ffffi128 {
                return None;
            }
            num = n2 as i64;
            if seen_dot {
                let d2 = (den as i128) * 10;
                if d2 > 0x7fff_ffff_ffff_ffffi128 {
                    return None;
                }
                den = d2 as i64;
            }
            seen_digit = true;
        } else if c == '.' && !seen_dot {
            seen_dot = true;
        } else {
            return None;
        }
        i = i + 1;
    }
    if !seen_digit {
        return None;
    }
    if neg {
        Some(Rat { num: -num, den })
    } else {
        Some(Rat { num, den })
    }
}

/// A failure of the parser: the tokens ran out inside a form, or a
/// stray closing parenthesis was found.
#[derive(Clone, Copy, Debug, PartialEq, Eq, Structural)]
pub enum ParseError {
    UnexpectedEof,
    UnexpectedClose,
}

/// What parsing one node from the front of the token list yields, and
/// which tokens remain: an opening parenthesis starts a list that
/// runs to its matching close, a stray close is refused and consumed
/// nothing, a numeral becomes a number literal, and any other token a
/// symbol.
pub open spec fn spec_parse(toks: Seq<Seq<char>>) -> (Result<SpecExpr, ParseError>, Seq<Seq<char>>)
    decreases toks.len(), 0int,
{
    if toks.len() == 0 {
        (Err(ParseError::UnexpectedEof), toks)
    } else {
        let t = toks[0];
        if t == ")"@ {
            (Err(ParseError::UnexpectedClose), toks)
        } else if t == "("@ {
            let (r, rem) = spec_parse_list(toks.drop_first());
            match r {
                Ok(items) => (Ok(SpecExpr::List(items)), rem),
                Err(e) => (Err(e), rem),
            }
        } else {
            match spec_parse_number(t) {
                Some((n, d)) => (Ok(SpecExpr::Number { num: n, den: d }), toks.drop_first()),
                None => (Ok(SpecExpr::Symbol(t)), toks.drop_first()),
            }
        }
    }
}

/// Parse nodes until the matching closing parenthesis, which is
/// consumed.
pub open spec fn spec_parse_list(toks: Seq<Seq<char>>) -> (
    Result<Seq<SpecExpr>, ParseError>,
    Seq<Seq<char>>,
)
    decreases toks.len(), 1int,
{
    if toks.len() == 0 {
        (Err(ParseError::UnexpectedEof), toks)
    } else if toks[0] == ")"@ {
        (Ok(Seq::empty()), toks.drop_first())
    } else {
        let (r, rem) = spec_parse(toks);
        match r {
            Err(e) => (Err(e), rem),
            Ok(head) => {
                if rem.len() < toks.len() {
                    let (r2, rem2) = spec_parse_list(rem);
                    match r2 {
                        Ok(tail) => (Ok(seq![head] + tail), rem2),
                        Err(e) => (Err(e), rem2),
                    }
                } else {
                    (Err(ParseError::UnexpectedEof), rem)
                }
            },
        }
    }
}

/// Parse one node from the front of the token list, removing the
/// tokens it covers. The node is well-formed, and parsing consumes at
/// least one token on success.
#[verifier::loop_isolation(false)]
pub fn parse(tokens: &mut Vec<String>) -> (r: Result<Expr, ParseError>)
    ensures
        ({
            let (sr, rem) = spec_parse(old(tokens).deep_view());
            &&& final(tokens).deep_view() == rem
            &&& match r {
                Ok(e) => sr == Ok::<_, ParseError>(e.deep()) && e.deep().wf(),
                Err(err) => sr == Err::<SpecExpr, _>(err),
            }
        }),
        final(tokens)@.len() <= old(tokens)@.len(),
        r is Ok ==> final(tokens)@.len() < old(tokens)@.len(),
    decreases tokens@.len(), 0int,
{
    let ghost toks0 = tokens.deep_view();
    if tokens.len() == 0 {
        return Err(ParseError::UnexpectedEof);
    }
    proof {
        assert(toks0[0] == tokens@[0]@);
    }
    let close: String = ")".to_owned();
    let open_tok: String = "(".to_owned();
    if tokens[0] == close {
        return Err(ParseError::UnexpectedClose);
    }
    if tokens[0] == open_tok {
        let _removed = tokens.remove(0);
        proof {
            assert(tokens.deep_view() =~= toks0.drop_first());
        }
        let ghost rem0 = tokens.deep_view();
        let mut items: Vec<Expr> = Vec::new();
        proof {
            crate::ast::lemma_exprs_wf_iff(deep_exprs(items@), 0);
        }
        loop
            invariant
                tokens@.len() <= rem0.len(),
                ({
                    let (sr, srem) = spec_parse_list(rem0);
                    let (cr, crem) = spec_parse_list(tokens.deep_view());
                    &&& srem == crem
                    &&& sr == match cr {
                        Ok(tail) => Ok::<_, ParseError>(deep_exprs(items@) + tail),
                        Err(e) => Err(e),
                    }
                }),
                forall|k: int|
                    0 <= k < items@.len() ==> (#[trigger] deep_exprs(items@)[k]).wf(),
            decreases tokens@.len(),
        {
            let ghost cur_toks = tokens.deep_view();
            if tokens.len() == 0 {
                return Err(ParseError::UnexpectedEof);
            }
            proof {
                assert(cur_toks[0] == tokens@[0]@);
            }
            if tokens[0] == close {
                tokens.remove(0);
                proof {
                    assert(tokens.deep_view() =~= cur_toks.drop_first());
                    crate::ast::lemma_exprs_wf_iff(deep_exprs(items@), 0);
                    assert(deep_exprs(items@) + Seq::<SpecExpr>::empty() =~= deep_exprs(
                        items@,
                    ));
                }
                let out = Expr::List(items);
                return Ok(out);
            }
            let item = match parse(tokens) {
                Ok(e) => e,
                Err(err) => {
                    return Err(err);
                },
            };
            let ghost old_items = deep_exprs(items@);
            items.push(item);
            proof {
                assert(deep_exprs(items@) =~= old_items.push(items@.last().deep()));
                let (cr2, crem2) = spec_parse_list(tokens.deep_view());
                if let Ok(tail) = cr2 {
                    assert(old_items + (seq![items@.last().deep()] + tail) =~= deep_exprs(
                        items@,
                    ) + tail);
                }
            }
        }
    } else {
        let t = tokens.remove(0);
        proof {
            assert(tokens.deep_view() =~= toks0.drop_first());
        }
        match parse_number(t.as_str()) {
            Some(x) => Ok(Expr::Number(x)),
            None => Ok(Expr::Symbol(t)),
        }
    }
}

} // verus!
