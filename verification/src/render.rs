//! Rendering of values and syntax trees to text, for any
//! read-eval-print shell built atop the evaluator.
//!
//! A number renders as its integer value when it is one, and as
//! `numerator/denominator` otherwise; booleans render as `true` and
//! `false`; nil as `nil`; a builtin as its registered name; a closure
//! as its declared name, or empty text when anonymous; a list node as
//! a space-separated parenthesized sequence, matching read syntax.

use crate::ast::{deep_exprs, Expr, SpecExpr};
use crate::value::{SpecVal, Value};
use vstd::prelude::*;
use vstd::string::StringExecFns;

verus! {

/// The character for one decimal digit.
pub open spec fn digit_char(d: int) -> char {
    if d == 0 {
        '0'
    } else if d == 1 {
        '1'
    } else if d == 2 {
        '2'
    } else if d == 3 {
        '3'
    } else if d == 4 {
        '4'
    } else if d == 5 {
        '5'
    } else if d == 6 {
        '6'
    } else if d == 7 {
        '7'
    } else if d == 8 {
        '8'
    } else {
        '9'
    }
}

/// The decimal digits of a natural number, most significant first.
pub open spec fn dec_digits(n: nat) -> Seq<char>
    decreases n,
{
    if n < 10 {
        seq![digit_char(n as int)]
    } else {
        dec_digits(n / 10).push(digit_char((n % 10) as int))
    }
}

/// The decimal rendering of an integer, with a leading minus sign
/// when negative.
pub open spec fn render_int(n: int) -> Seq<char> {
    if n < 0 {
        seq!['-'] + dec_digits((-n) as nat)
    } else {
        dec_digits(n as nat)
    }
}

/// Ten to the `k`-th power.
pub open spec fn pow10(k: nat) -> nat
    decreases k,
{
    if k == 0 {
        1
    } else {
        10 * pow10((k - 1) as nat)
    }
}

/// The smallest scale `k` (searching upward from the one given, to at
/// most eighteen) at which the fraction `a / den` becomes an integer
/// when multiplied by ten to the `k`-th: the number of decimal places
/// needed to write it exactly, if that many suffice.
pub open spec fn find_scale(a: nat, den: nat, k: nat) -> Option<nat>
    decreases 19 - k,
{
    if k > 18 {
        None
    } else if den != 0 && ((a * pow10(k)) as int) % (den as int) == 0 {
        Some(k)
    } else {
        find_scale(a, den, k + 1)
    }
}

/// Exactly `k` decimal digits of a number below ten to the `k`-th,
/// with leading zeros.
pub open spec fn dec_digits_pad(n: nat, k: nat) -> Seq<char>
    decreases k,
{
    if k <= 1 {
        seq![digit_char(n as int)]
    } else {
        dec_digits_pad(n / 10, (k - 1) as nat).push(digit_char((n % 10) as int))
    }
}

/// The rendering of a number: its integer value when the denominator
/// is one; its exact decimal value when at most eighteen decimal
/// places write it exactly; else `numerator/denominator`.
pub open spec fn render_rat(num: int, den: int) -> Seq<char> {
    if den == 1 {
        render_int(num)
    } else {
        let a = (if num < 0 {
            -num
        } else {
            num
        }) as nat;
        match find_scale(a, den as nat, 1) {
            Some(k) => {
                let scaled = (a * pow10(k)) as nat / (den as nat);
                (if num < 0 {
                    seq!['-']
                } else {
                    Seq::empty()
                }) + dec_digits(scaled / pow10(k)) + seq!['.'] + dec_digits_pad(
                    scaled % pow10(k),
                    k,
                )
            },
            None => render_int(num) + seq!['/'] + dec_digits(den as nat),
        }
    }
}

/// Powers of ten do not shrink as the exponent grows.
proof fn lemma_pow10_le(k: nat, m: nat)
    requires
        k <= m,
    ensures
        pow10(k) <= pow10(m),
        pow10(k) >= 1,
    decreases m,
{
    if k < m {
        lemma_pow10_le(k, (m - 1) as nat);
    } else if m > 0 {
        lemma_pow10_le((k - 1) as nat, (m - 1) as nat);
    }
}

/// The rendering of a runtime value.
pub open spec fn render_value(v: SpecVal) -> Seq<char> {
    match v {
        SpecVal::Num { num, den } => render_rat(num, den),
        SpecVal::Bool(b) => if b {
            "true"@
        } else {
            "false"@
        },
        SpecVal::Builtin { name, op } => name,
        SpecVal::Closure { params, body, env, name } => match name {
            Some(n) => n,
            None => Seq::empty(),
        },
        SpecVal::Nil => "nil"@,
    }
}

/// The rendering of the nodes from position `i` on, each preceded by
/// a space except the first of the list.
pub open spec fn render_exprs(l: Seq<SpecExpr>, i: int) -> Seq<char>
    decreases l, l.len() - i,
{
    if i < 0 || i >= l.len() {
        Seq::empty()
    } else {
        (if i == 0 {
            render_expr(l[i])
        } else {
            seq![' '] + render_expr(l[i])
        }) + render_exprs(l, i + 1)
    }
}

/// The rendering of a syntax tree node, matching read syntax.
pub open spec fn render_expr(e: SpecExpr) -> Seq<char>
    decreases e, 0int,
{
    match e {
        SpecExpr::Symbol(s) => s,
        SpecExpr::Number { num, den } => render_rat(num, den),
        SpecExpr::List(l) => seq!['('] + render_exprs(l, 0) + seq![')'],
    }
}

/// The text for one decimal digit.
fn digit_str(d: u64) -> (r: &'static str)
    requires
        d < 10,
    ensures
        r@ == seq![digit_char(d as int)],
{
    proof {
        reveal_strlit("0");
        reveal_strlit("1");
        reveal_strlit("2");
        reveal_strlit("3");
        reveal_strlit("4");
        reveal_strlit("5");
        reveal_strlit("6");
        reveal_strlit("7");
        reveal_strlit("8");
        reveal_strlit("9");
    }
    let r = if d == 0 {
        "0"
    } else if d == 1 {
        "1"
    } else if d == 2 {
        "2"
    } else if d == 3 {
        "3"
    } else if d == 4 {
        "4"
    } else if d == 5 {
        "5"
    } else if d == 6 {
        "6"
    } else if d == 7 {
        "7"
    } else if d == 8 {
        "8"
    } else {
        "9"
    };
    proof {
        assert(r@ =~= seq![digit_char(d as int)]);
    }
    r
}

/// The decimal text of a natural number.
fn render_nat(n: u64) -> (r: String)
    ensures
        r@ == dec_digits(n as nat),
    decreases n,
{
    if n < 10 {
        digit_str(n).to_owned()
    } else {
        let mut s = render_nat(n / 10);
        s.append(digit_str(n % 10));
        proof {
            assert(s@ =~= dec_digits(n as nat));
        }
        s
    }
}

/// The decimal text of a signed integer.
fn render_i64(n: i64) -> (r: String)
    ensures
        r@ == render_int(n as int),
{
    if n < 0 {
        let m = (-(n as i128)) as u64;
        let mut s = "-".to_owned();
        let ghost pre = s@;
        s.append(render_nat(m).as_str());
        proof {
            reveal_strlit("-");
            assert(pre =~= seq!['-']);
        }
        s
    } else {
        render_nat(n as u64)
    }
}

/// The text of a number value.
#[verifier::loop_isolation(false)]
fn render_rat_text(num: i64, den: i64) -> (r: String)
    requires
        den >= 1,
    ensures
        r@ == render_rat(num as int, den as int),
{
    if den == 1 {
        return render_i64(num);
    }
    let a: u64 = if num < 0 {
        (-(num as i128)) as u64
    } else {
        num as u64
    };
    let ghost an = a as nat;
    let ghost dn = den as nat;
    let mut k: u64 = 1;
    while k <= 18
        invariant
            1 <= k <= 19,
            find_scale(an, dn, 1) == find_scale(an, dn, k as nat),
        decreases 19 - k,
    {
        let p10 = pow10_u128(k);
        proof {
            assert((a as int) * (p10 as int) <= 0x8000_0000_0000_0000i128 as int
                * 1_000_000_000_000_000_000i128 as int) by (nonlinear_arith)
                requires
                    0 <= a as int <= 0x8000_0000_0000_0000i128 as int,
                    0 <= p10 as int <= 1_000_000_000_000_000_000i128 as int,
            ;
        }
        let acc = (a as u128) * p10;
        if acc % (den as u128) == 0 {
            let scaled = acc / (den as u128);
            let intpart = scaled / p10;
            let frac = scaled % p10;
            let mut s = if num < 0 {
                let mut t = "-".to_owned();
                proof {
                    reveal_strlit("-");
                    assert(t@ =~= seq!['-']);
                }
                t
            } else {
                String::new()
            };
            s.append(render_u128(intpart).as_str());
            s.append(".");
            s.append(render_pad(frac, k).as_str());
            proof {
                reveal_strlit(".");
                assert(s@ =~= render_rat(num as int, den as int));
            }
            return s;
        }
        k = k + 1;
    }
    let mut s = render_i64(num);
    s.append("/");
    s.append(render_nat(den as u64).as_str());
    proof {
        reveal_strlit("/");
        assert(find_scale(an, dn, k as nat) is None);
        assert(s@ =~= render_rat(num as int, den as int));
    }
    s
}

/// Ten to the `k`-th power, executable.
fn pow10_u128(k: u64) -> (r: u128)
    requires
        k <= 18,
    ensures
        r == pow10(k as nat),
        1 <= r <= 1_000_000_000_000_000_000,
    decreases k,
{
    proof {
        lemma_pow10_le(k as nat, 18);
        reveal_with_fuel(pow10, 20);
        assert(pow10(18) == 1_000_000_000_000_000_000);
    }
    if k == 0 {
        1
    } else {
        let r = 10 * pow10_u128(k - 1);
        r
    }
}

/// The decimal text of a wide natural number.
fn render_u128(n: u128) -> (r: String)
    ensures
        r@ == dec_digits(n as nat),
    decreases n,
{
    if n < 10 {
        digit_str(n as u64).to_owned()
    } else {
        let mut s = render_u128(n / 10);
        s.append(digit_str((n % 10) as u64));
        proof {
            assert(s@ =~= dec_digits(n as nat));
        }
        s
    }
}

/// Exactly `k` decimal digits, with leading zeros.
fn render_pad(n: u128, k: u64) -> (r: String)
    requires
        1 <= k <= 18,
        n < pow10(k as nat),
    ensures
        r@ == dec_digits_pad(n as nat, k as nat),
    decreases k,
{
    if k == 1 {
        proof {
            reveal_with_fuel(pow10, 3);
            assert(pow10(1) == 10);
        }
        digit_str(n as u64).to_owned()
    } else {
        proof {
            let kk = k as nat;
            assert(pow10(kk) == 10 * pow10((kk - 1) as nat));
            vstd::arithmetic::div_mod::lemma_fundamental_div_mod(n as int, 10);
            assert((n as int) / 10 < pow10((kk - 1) as nat)) by (nonlinear_arith)
                requires
                    (n as int) == 10 * ((n as int) / 10) + (n as int) % 10,
                    0 <= (n as int) % 10,
                    (n as int) < 10 * pow10((kk - 1) as nat),
            ;
        }
        let mut s = render_pad(n / 10, k - 1);
        s.append(digit_str((n % 10) as u64));
        proof {
            assert(s@ =~= dec_digits_pad(n as nat, k as nat));
        }
        s
    }
}

impl Value {
    /// The display text of this value: a number as its value,
    /// booleans as `true`/`false`, nil as `nil`, a builtin as its
    /// registered name, a closure as its declared name or empty text.
    pub fn display_text(&self) -> (r: String)
        requires
            match self.deep() {
                SpecVal::Num { num, den } => den >= 1,
                _ => true,
            },
        ensures
            r@ == render_value(self.deep()),
    {
        match self {
            Value::Number(x) => render_rat_text(x.num, x.den),
            Value::Bool(b) => {
                if *b {
                    "true".to_owned()
                } else {
                    "false".to_owned()
                }
            },
            Value::BuiltinFunction(bf) => bf.name.clone(),
            Value::Function(uf) => match &uf.name {
                Some(n) => n.clone(),
                None => String::new(),
            },
            Value::Nil => "nil".to_owned(),
        }
    }
}

impl Expr {
    /// The source text of this node: symbols and numbers as
    /// themselves, a list as its space-separated parenthesized
    /// members.
    #[verifier::loop_isolation(false)]
    pub fn display_text(&self) -> (r: String)
        requires
            self.deep().wf(),
        ensures
            r@ == render_expr(self.deep()),
        decreases self,
    {
        match self {
            Expr::Symbol(s) => s.clone(),
            Expr::Number(x) => render_rat_text(x.num, x.den),
            Expr::List(l) => {
                let ghost ls = deep_exprs(l@);
                proof {
                    crate::ast::lemma_exprs_wf_iff(ls, 0);
                }
                let mut s = "(".to_owned();
                proof {
                    reveal_strlit("(");
                    reveal_strlit(")");
                    reveal_strlit(" ");
                    assert(s@ =~= seq!['(']);
                }
                let mut i: usize = 0;
                while i < l.len()
                    invariant
                        i <= l@.len(),
                        s@ == seq!['('] + render_exprs(ls, 0).subrange(
                            0,
                            render_exprs(ls, 0).len() - render_exprs(ls, i as int).len(),
                        ),
                        render_exprs(ls, i as int).len() <= render_exprs(ls, 0).len(),
                        s@ + render_exprs(ls, i as int) == seq!['('] + render_exprs(ls, 0),
                    decreases l@.len() - i,
                {
                    proof {
                        assert(ls[i as int] == l@[i as int].deep());
                        assert(ls[i as int].wf());
                    }
                    if i > 0 {
                        s.append(" ");
                    }
                    let piece = l[i].display_text();
                    s.append(piece.as_str());
                    proof {
                        assert(s@ + render_exprs(ls, i as int + 1) =~= seq!['('] + render_exprs(
                            ls,
                            0,
                        ));
                        assert(s@ =~= (seq!['('] + render_exprs(ls, 0)).subrange(
                            0,
                            (seq!['('] + render_exprs(ls, 0)).len() - render_exprs(
                                ls,
                                i as int + 1,
                            ).len(),
                        ));
                        assert(s@ =~= seq!['('] + render_exprs(ls, 0).subrange(
                            0,
                            render_exprs(ls, 0).len() - render_exprs(ls, i as int + 1).len(),
                        ));
                    }
                    i = i + 1;
                }
                s.append(")");
                proof {
                    assert(render_exprs(ls, l@.len() as int) =~= Seq::<char>::empty());
                    assert(s@ =~= render_expr(self.deep()));
                }
                s
            },
        }
    }
}

} // verus!
