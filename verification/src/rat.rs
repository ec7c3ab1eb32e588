//! Exact rational arithmetic for the number values of the language.
//!
//! A number is the exact rational `num / den` with `den >= 1`. The
//! executable operations compute in 128-bit intermediates (products of
//! two 64-bit factors cannot overflow there), normalize the sign, and
//! reduce a quotient that is exactly an integer. A result whose parts
//! do not fit back into 64 bits is reported as an overflow rather than
//! silently wrapped.

use vstd::prelude::*;

verus! {

/// A numeric value: the exact rational `num / den`.
///
/// Numbers in this language are exact rationals rather than machine
/// floats, so that every arithmetic result can be stated and proved
/// exactly. The denominator is always at least 1; two numbers are
/// equal when they denote the same rational (cross multiplication),
/// so a value need not be in lowest terms.
#[derive(Clone, Copy, Debug)]
pub struct Rat {
    pub num: i64,
    pub den: i64,
}

impl Rat {
    /// Well-formedness: the denominator is positive.
    pub open spec fn wf(self) -> bool {
        self.den >= 1
    }

    /// The rational as a mathematical pair (numerator, denominator).
    pub open spec fn model(self) -> (int, int) {
        (self.num as int, self.den as int)
    }

    /// The rational denoting the given small integer.
    pub fn from_int(n: i64) -> (r: Rat)
        ensures
            r.wf(),
            r.model() == (n as int, 1int),
    {
        Rat { num: n, den: 1 }
    }
}

/// `n1/d1` and `n2/d2` denote the same rational (cross multiplication;
/// exact when both denominators are nonzero).
pub open spec fn rat_eq(n1: int, d1: int, n2: int, d2: int) -> bool {
    n1 * d2 == n2 * d1
}

/// `n1/d1 < n2/d2` (exact when both denominators are positive).
pub open spec fn rat_lt(n1: int, d1: int, n2: int, d2: int) -> bool {
    n1 * d2 < n2 * d1
}

/// `n1/d1 <= n2/d2` (exact when both denominators are positive).
pub open spec fn rat_le(n1: int, d1: int, n2: int, d2: int) -> bool {
    n1 * d2 <= n2 * d1
}

/// Whether a mathematical integer fits into an `i64`.
pub open spec fn fits_i64(x: int) -> bool {
    i64::MIN <= x <= i64::MAX
}

/// Sign-normalize a rational pair and reduce it to an integer when the
/// division is exact: the result denotes the same rational and has a
/// positive denominator.
pub open spec fn spec_norm(n: int, d: int) -> (int, int)
    recommends
        d != 0,
{
    let (n2, d2) = if d < 0 {
        (-n, -d)
    } else {
        (n, d)
    };
    if d2 != 0 && n2 % d2 == 0 {
        (n2 / d2, 1)
    } else {
        (n2, d2)
    }
}

/// Normalize, then demand that both parts fit into 64 bits; `None`
/// reports overflow.
pub open spec fn spec_fit(n: int, d: int) -> Option<(int, int)> {
    let (n2, d2) = spec_norm(n, d);
    if fits_i64(n2) && fits_i64(d2) {
        Some((n2, d2))
    } else {
        None
    }
}

/// The exact sum `n1/d1 + n2/d2`, normalized and bounds-checked.
pub open spec fn spec_add(n1: int, d1: int, n2: int, d2: int) -> Option<(int, int)> {
    spec_fit(n1 * d2 + n2 * d1, d1 * d2)
}

/// The exact difference `n1/d1 - n2/d2`, normalized and bounds-checked.
pub open spec fn spec_sub(n1: int, d1: int, n2: int, d2: int) -> Option<(int, int)> {
    spec_fit(n1 * d2 - n2 * d1, d1 * d2)
}

/// The exact product, normalized and bounds-checked.
pub open spec fn spec_mul(n1: int, d1: int, n2: int, d2: int) -> Option<(int, int)> {
    spec_fit(n1 * n2, d1 * d2)
}

/// The exact quotient (callers rule out a zero divisor), normalized
/// and bounds-checked.
pub open spec fn spec_div(n1: int, d1: int, n2: int, d2: int) -> Option<(int, int)> {
    spec_fit(n1 * d2, d1 * n2)
}

/// The exact negation, normalized and bounds-checked.
pub open spec fn spec_neg(n1: int, d1: int) -> Option<(int, int)> {
    spec_fit(-n1, d1)
}

/// The model of an optional rational result.
pub open spec fn opt_model(r: Option<Rat>) -> Option<(int, int)> {
    match r {
        Some(c) => Some(c.model()),
        None => None,
    }
}

/// All rationals an operation can hand back are well-formed.
pub open spec fn opt_wf(r: Option<Rat>) -> bool {
    match r {
        Some(c) => c.wf(),
        None => true,
    }
}

/// Product of a 64-bit numerator and a positive 64-bit denominator,
/// exact in 128 bits and clear of the 128-bit extremes.
fn mul_num_den(x: i64, y: i64) -> (r: i128)
    requires
        y >= 1,
    ensures
        r == x as int * y as int,
        -0x3fff_ffff_ffff_ffff_8000_0000_0000_0000 <= r
            <= 0x3fff_ffff_ffff_ffff_8000_0000_0000_0000,
{
    proof {
        assert(-0x3fff_ffff_ffff_ffff_8000_0000_0000_0000 <= x as int * y as int
            <= 0x3fff_ffff_ffff_ffff_8000_0000_0000_0000) by (nonlinear_arith)
            requires
                -0x8000_0000_0000_0000 <= x as int <= 0x7fff_ffff_ffff_ffff,
                1 <= y as int <= 0x7fff_ffff_ffff_ffff,
        ;
    }
    (x as i128) * (y as i128)
}

/// Product of two 64-bit factors, exact in 128 bits.
fn mul_any(x: i64, y: i64) -> (r: i128)
    ensures
        r == x as int * y as int,
        -0x4000_0000_0000_0000_0000_0000_0000_0000 <= r
            <= 0x4000_0000_0000_0000_0000_0000_0000_0000,
{
    proof {
        assert(-0x4000_0000_0000_0000_0000_0000_0000_0000 <= x as int * y as int
            <= 0x4000_0000_0000_0000_0000_0000_0000_0000) by (nonlinear_arith)
            requires
                -0x8000_0000_0000_0000 <= x as int <= 0x7fff_ffff_ffff_ffff,
                -0x8000_0000_0000_0000 <= y as int <= 0x7fff_ffff_ffff_ffff,
        ;
    }
    (x as i128) * (y as i128)
}

/// Truncating division that comes out exact agrees with Euclidean
/// division: the remainder is zero and the quotients coincide.
proof fn lemma_trunc_div_exact(n: int, d: int, q: int)
    requires
        d >= 1,
        q * d == n,
    ensures
        n % d == 0,
        n / d == q,
{
    vstd::arithmetic::div_mod::lemma_fundamental_div_mod_converse(n, d, q, 0);
}

/// A divisor that divides a number also divides its negation, with the
/// negated quotient.
proof fn lemma_div_neg_exact(n: int, d: int)
    requires
        d >= 1,
        n % d == 0,
    ensures
        (-n) % d == 0,
        (-n) / d == -(n / d),
{
    vstd::arithmetic::div_mod::lemma_fundamental_div_mod(n, d);
    let q = n / d;
    assert(n == d * q);
    assert(-n == (-q) * d + 0) by (nonlinear_arith)
        requires
            n == d * q,
    ;
    vstd::arithmetic::div_mod::lemma_fundamental_div_mod_converse(-n, d, -q, 0);
}

/// Normalize a 128-bit rational pair back into a [`Rat`]; `None`
/// reports overflow. The pair must come from products or sums of
/// 64-bit factors, which keeps it clear of the 128-bit extremes.
fn norm_fit(n: i128, d: i128) -> (r: Option<Rat>)
    requires
        d != 0,
        -0x7fff_ffff_ffff_ffff_ffff_ffff_ffff_ffff <= n,
        -0x7fff_ffff_ffff_ffff_ffff_ffff_ffff_ffff <= d,
    ensures
        opt_model(r) == spec_fit(n as int, d as int),
        opt_wf(r),
{
    let (n2, d2): (i128, i128) = if d < 0 {
        (-n, -d)
    } else {
        (n, d)
    };
    let q = n2 / d2;
    proof {
        let nn = n2 as int;
        let dd = d2 as int;
        vstd::arithmetic::div_mod::lemma_mod_bound(nn, dd);
        vstd::arithmetic::div_mod::lemma_mod_bound(-nn, dd);
        if nn >= 0 {
            vstd::arithmetic::div_mod::lemma_fundamental_div_mod(nn, dd);
            assert(q as int * dd == nn - nn % dd) by (nonlinear_arith)
                requires
                    nn == dd * (nn / dd) + nn % dd,
                    q as int == nn / dd,
            ;
        } else {
            vstd::arithmetic::div_mod::lemma_fundamental_div_mod(-nn, dd);
            assert(q as int * dd == nn + (-nn) % dd) by (nonlinear_arith)
                requires
                    -nn == dd * ((-nn) / dd) + (-nn) % dd,
                    q as int == -((-nn) / dd),
            ;
        }
    }
    let exact = q * d2;
    if exact == n2 {
        proof {
            lemma_trunc_div_exact(n2 as int, d2 as int, q as int);
        }
        if q >= -0x8000_0000_0000_0000i128 && q <= 0x7fff_ffff_ffff_ffffi128 {
            Some(Rat { num: q as i64, den: 1 })
        } else {
            None
        }
    } else {
        proof {
            let nn = n2 as int;
            let dd = d2 as int;
            if nn % dd == 0 {
                vstd::arithmetic::div_mod::lemma_fundamental_div_mod(nn, dd);
                if n2 < 0 {
                    lemma_div_neg_exact(nn, dd);
                    assert(q as int * dd == nn) by (nonlinear_arith)
                        requires
                            nn == dd * (nn / dd),
                            q as int == -((-nn) / dd),
                            (-nn) / dd == -(nn / dd),
                    ;
                } else {
                    assert(q as int * dd == nn) by (nonlinear_arith)
                        requires
                            nn == dd * (nn / dd),
                            q as int == nn / dd,
                    ;
                }
                assert(false);
            }
        }
        if n2 >= -0x8000_0000_0000_0000i128 && n2 <= 0x7fff_ffff_ffff_ffffi128 && d2
            <= 0x7fff_ffff_ffff_ffffi128 {
            Some(Rat { num: n2 as i64, den: d2 as i64 })
        } else {
            None
        }
    }
}

/// The checked sum of two numbers.
pub fn rat_add(a: Rat, b: Rat) -> (r: Option<Rat>)
    requires
        a.wf(),
        b.wf(),
    ensures
        opt_model(r) == spec_add(a.num as int, a.den as int, b.num as int, b.den as int),
        opt_wf(r),
{
    let p1 = mul_num_den(a.num, b.den);
    let p2 = mul_num_den(b.num, a.den);
    let dd = mul_num_den(a.den, b.den);
    proof {
        assert(a.den as int * b.den as int >= 1) by (nonlinear_arith)
            requires
                a.den as int >= 1,
                b.den as int >= 1,
        ;
    }
    norm_fit(p1 + p2, dd)
}

/// The checked difference of two numbers.
pub fn rat_sub(a: Rat, b: Rat) -> (r: Option<Rat>)
    requires
        a.wf(),
        b.wf(),
    ensures
        opt_model(r) == spec_sub(a.num as int, a.den as int, b.num as int, b.den as int),
        opt_wf(r),
{
    let p1 = mul_num_den(a.num, b.den);
    let p2 = mul_num_den(b.num, a.den);
    let dd = mul_num_den(a.den, b.den);
    proof {
        assert(a.den as int * b.den as int >= 1) by (nonlinear_arith)
            requires
                a.den as int >= 1,
                b.den as int >= 1,
        ;
    }
    norm_fit(p1 - p2, dd)
}

/// The checked product of two numbers.
pub fn rat_mul(a: Rat, b: Rat) -> (r: Option<Rat>)
    requires
        a.wf(),
        b.wf(),
    ensures
        opt_model(r) == spec_mul(a.num as int, a.den as int, b.num as int, b.den as int),
        opt_wf(r),
{
    let nn = mul_any(a.num, b.num);
    let dd = mul_num_den(a.den, b.den);
    proof {
        assert(a.den as int * b.den as int >= 1) by (nonlinear_arith)
            requires
                a.den as int >= 1,
                b.den as int >= 1,
        ;
    }
    norm_fit(nn, dd)
}

/// The checked quotient of two numbers; the divisor must not denote
/// zero.
pub fn rat_div(a: Rat, b: Rat) -> (r: Option<Rat>)
    requires
        a.wf(),
        b.wf(),
        b.num != 0,
    ensures
        opt_model(r) == spec_div(a.num as int, a.den as int, b.num as int, b.den as int),
        opt_wf(r),
{
    let nn = mul_num_den(a.num, b.den);
    let dd = mul_any(a.den, b.num);
    proof {
        assert(a.den as int * b.num as int != 0) by (nonlinear_arith)
            requires
                a.den as int >= 1,
                b.num as int != 0,
        ;
    }
    norm_fit(nn, dd)
}

/// The checked negation of a number.
pub fn rat_neg(a: Rat) -> (r: Option<Rat>)
    requires
        a.wf(),
    ensures
        opt_model(r) == spec_neg(a.num as int, a.den as int),
        opt_wf(r),
{
    norm_fit(-(a.num as i128), a.den as i128)
}

/// Whether two numbers denote the same rational.
pub fn rat_is_eq(a: Rat, b: Rat) -> (r: bool)
    requires
        a.wf(),
        b.wf(),
    ensures
        r == rat_eq(a.num as int, a.den as int, b.num as int, b.den as int),
{
    mul_num_den(a.num, b.den) == mul_num_den(b.num, a.den)
}

/// Whether the first number denotes a strictly smaller rational.
pub fn rat_is_lt(a: Rat, b: Rat) -> (r: bool)
    requires
        a.wf(),
        b.wf(),
    ensures
        r == rat_lt(a.num as int, a.den as int, b.num as int, b.den as int),
{
    mul_num_den(a.num, b.den) < mul_num_den(b.num, a.den)
}

/// Whether the first number denotes a smaller or equal rational.
pub fn rat_is_le(a: Rat, b: Rat) -> (r: bool)
    requires
        a.wf(),
        b.wf(),
    ensures
        r == rat_le(a.num as int, a.den as int, b.num as int, b.den as int),
{
    mul_num_den(a.num, b.den) <= mul_num_den(b.num, a.den)
}

/// Normalization preserves the denoted rational: whenever [`spec_fit`]
/// succeeds, its result equals the pair it was given, by cross
/// multiplication.
pub proof fn lemma_fit_preserves(n: int, d: int)
    requires
        d != 0,
        spec_fit(n, d) is Some,
    ensures
        ({
            let (n2, d2) = spec_fit(n, d).unwrap();
            &&& rat_eq(n2, d2, n, d)
            &&& d2 >= 1
        }),
{
    let na = if d < 0 {
        -n
    } else {
        n
    };
    let da = if d < 0 {
        -d
    } else {
        d
    };
    if d < 0 {
        assert((-n) * d == n * (-d)) by (nonlinear_arith);
    }
    assert(rat_eq(na, da, n, d));
    if da != 0 && na % da == 0 {
        vstd::arithmetic::div_mod::lemma_fundamental_div_mod(na, da);
        let q = na / da;
        assert(rat_eq(q, 1, n, d)) by (nonlinear_arith)
            requires
                na == da * q,
                na * d == n * da,
                da != 0,
        ;
    }
}

} // verus!
