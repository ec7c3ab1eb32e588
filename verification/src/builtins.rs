//! The native implementations of the builtin library: arithmetic over
//! exact rationals and the numeric comparisons.
//!
//! Each builtin takes the already-evaluated argument list plus the
//! originating call-site node, used only for error attribution. The
//! meaning of each is the specification function
//! [`spec_apply_builtin`]; the executable [`apply_builtin`] is proved
//! to return exactly that.

use crate::ast::{Expr, SpecExpr};
use crate::eval::{div_zero_error, overflow_error, EvalError, SpecError, SpecResult};
use crate::rat::{
    rat_add, rat_div, rat_eq, rat_is_eq, rat_is_le, rat_is_lt, rat_le, rat_lt, rat_mul, rat_neg,
    rat_sub, spec_add, spec_div, spec_mul, spec_neg, spec_sub, Rat,
};
use crate::value::{deep_vals, BuiltinOp, SpecVal, Value, ValueKind};
use vstd::prelude::*;

verus! {

/// The rationals a list of numbers denotes.
pub open spec fn rat_models(s: Seq<Rat>) -> Seq<(int, int)> {
    s.map_values(|r: Rat| (r.num as int, r.den as int))
}

/// Every number among the values is a well-formed 64-bit rational.
pub open spec fn vals_num_wf(s: Seq<SpecVal>) -> bool {
    forall|j: int|
        0 <= j < s.len() ==> match #[trigger] s[j] {
            SpecVal::Num { num, den } => den >= 1 && crate::rat::fits_i64(num)
                && crate::rat::fits_i64(den),
            _ => true,
        }
}

/// Read the arguments from position `i` on as numbers; the first
/// argument of any other kind is a type error attributed to the call
/// site.
pub open spec fn spec_nums(args: Seq<SpecVal>, i: int, site: SpecExpr) -> Result<
    Seq<(int, int)>,
    SpecError,
>
    decreases args.len() - i,
{
    if i < 0 || i >= args.len() {
        Ok(Seq::empty())
    } else {
        match args[i] {
            SpecVal::Num { num, den } => match spec_nums(args, i + 1, site) {
                Ok(rest) => Ok(seq![(num, den)] + rest),
                Err(e) => Err(e),
            },
            v => Err(
                SpecError::TypeError { expected: ValueKind::Number, found: v, in_expr: site },
            ),
        }
    }
}

/// Sum the numbers from position `i` on into the accumulator, failing
/// on the first step whose result does not fit.
pub open spec fn spec_fold_add(nums: Seq<(int, int)>, i: int, acc: (int, int)) -> Result<
    (int, int),
    SpecError,
>
    decreases nums.len() - i,
{
    if i < 0 || i >= nums.len() {
        Ok(acc)
    } else {
        match spec_add(acc.0, acc.1, nums[i].0, nums[i].1) {
            Some(p) => spec_fold_add(nums, i + 1, p),
            None => Err(overflow_error()),
        }
    }
}

/// Multiply the numbers from position `i` on into the accumulator,
/// failing on the first step whose result does not fit.
pub open spec fn spec_fold_mul(nums: Seq<(int, int)>, i: int, acc: (int, int)) -> Result<
    (int, int),
    SpecError,
>
    decreases nums.len() - i,
{
    if i < 0 || i >= nums.len() {
        Ok(acc)
    } else {
        match spec_mul(acc.0, acc.1, nums[i].0, nums[i].1) {
            Some(p) => spec_fold_mul(nums, i + 1, p),
            None => Err(overflow_error()),
        }
    }
}

/// What each comparison operator asks of two rationals.
pub open spec fn spec_cmp(op: BuiltinOp, n1: int, d1: int, n2: int, d2: int) -> bool {
    match op {
        BuiltinOp::Lt => rat_lt(n1, d1, n2, d2),
        BuiltinOp::Le => rat_le(n1, d1, n2, d2),
        BuiltinOp::Gt => rat_lt(n2, d2, n1, d1),
        BuiltinOp::Ge => rat_le(n2, d2, n1, d1),
        BuiltinOp::NumEq => rat_eq(n1, d1, n2, d2),
        BuiltinOp::NumNe => !rat_eq(n1, d1, n2, d2),
        _ => false,
    }
}

/// Whether the operator is one of the six comparisons.
pub open spec fn is_cmp(op: BuiltinOp) -> bool {
    match op {
        BuiltinOp::Lt | BuiltinOp::Le | BuiltinOp::Gt | BuiltinOp::Ge | BuiltinOp::NumEq
            | BuiltinOp::NumNe => true,
        _ => false,
    }
}

/// What a builtin procedure returns: the meaning of the builtin
/// library.
///
/// - `+` sums all arguments (none at all gives zero);
/// - `-` negates its single argument, or subtracts the sum of the
///   rest from the first;
/// - `*` multiplies its arguments and demands at least two;
/// - `/` takes the reciprocal of its single argument, or divides the
///   first by the product of the rest; a zero divisor is reported
///   rather than evaluated;
/// - the comparisons demand exactly two numbers and answer a boolean.
///
/// Arity failures are `ArityMismatch`, non-numeric operands are
/// `TypeError`, and results that leave 64-bit rationals are overflow
/// failures.
pub open spec fn spec_apply_builtin(op: BuiltinOp, args: Seq<SpecVal>, site: SpecExpr) -> SpecResult {
    if is_cmp(op) {
        if args.len() != 2 {
            Err(SpecError::ArityMismatch { expected: 2, found: args.len() as int, in_expr: site })
        } else {
            match args[0] {
                SpecVal::Num { num: n1, den: d1 } => match args[1] {
                    SpecVal::Num { num: n2, den: d2 } => Ok(
                        SpecVal::Bool(spec_cmp(op, n1, d1, n2, d2)),
                    ),
                    v => Err(
                        SpecError::TypeError {
                            expected: ValueKind::Number,
                            found: v,
                            in_expr: site,
                        },
                    ),
                },
                v => Err(
                    SpecError::TypeError { expected: ValueKind::Number, found: v, in_expr: site },
                ),
            }
        }
    } else {
        match op {
            BuiltinOp::Add => match spec_nums(args, 0, site) {
                Ok(ns) => match spec_fold_add(ns, 0, (0, 1)) {
                    Ok(p) => Ok(SpecVal::Num { num: p.0, den: p.1 }),
                    Err(e) => Err(e),
                },
                Err(e) => Err(e),
            },
            BuiltinOp::Sub => if args.len() == 0 {
                Err(SpecError::ArityMismatch { expected: 1, found: 0, in_expr: site })
            } else {
                match args[0] {
                    SpecVal::Num { num: n, den: d } => if args.len() == 1 {
                        match spec_neg(n, d) {
                            Some(p) => Ok(SpecVal::Num { num: p.0, den: p.1 }),
                            None => Err(overflow_error()),
                        }
                    } else {
                        match spec_nums(args, 1, site) {
                            Ok(ns) => match spec_fold_add(ns, 0, (0, 1)) {
                                Ok(s) => match spec_sub(n, d, s.0, s.1) {
                                    Some(p) => Ok(SpecVal::Num { num: p.0, den: p.1 }),
                                    None => Err(overflow_error()),
                                },
                                Err(e) => Err(e),
                            },
                            Err(e) => Err(e),
                        }
                    },
                    v => Err(
                        SpecError::TypeError {
                            expected: ValueKind::Number,
                            found: v,
                            in_expr: site,
                        },
                    ),
                }
            },
            BuiltinOp::Mul => if args.len() < 2 {
                Err(
                    SpecError::ArityMismatch {
                        expected: 2,
                        found: args.len() as int,
                        in_expr: site,
                    },
                )
            } else {
                match spec_nums(args, 0, site) {
                    Ok(ns) => match spec_fold_mul(ns, 0, (1, 1)) {
                        Ok(p) => Ok(SpecVal::Num { num: p.0, den: p.1 }),
                        Err(e) => Err(e),
                    },
                    Err(e) => Err(e),
                }
            },
            BuiltinOp::Div => if args.len() == 0 {
                Err(SpecError::ArityMismatch { expected: 1, found: 0, in_expr: site })
            } else {
                match args[0] {
                    SpecVal::Num { num: n, den: d } => if args.len() == 1 {
                        if n == 0 {
                            Err(div_zero_error())
                        } else {
                            match spec_div(1, 1, n, d) {
                                Some(p) => Ok(SpecVal::Num { num: p.0, den: p.1 }),
                                None => Err(overflow_error()),
                            }
                        }
                    } else {
                        match spec_nums(args, 1, site) {
                            Ok(ns) => match spec_fold_mul(ns, 0, (1, 1)) {
                                Ok(p) => if p.0 == 0 {
                                    Err(div_zero_error())
                                } else {
                                    match spec_div(n, d, p.0, p.1) {
                                        Some(q) => Ok(SpecVal::Num { num: q.0, den: q.1 }),
                                        None => Err(overflow_error()),
                                    }
                                },
                                Err(e) => Err(e),
                            },
                            Err(e) => Err(e),
                        }
                    },
                    v => Err(
                        SpecError::TypeError {
                            expected: ValueKind::Number,
                            found: v,
                            in_expr: site,
                        },
                    ),
                }
            },
            _ => Err(SpecError::OtherError(Seq::empty())),
        }
    }
}

/// Comparison totality: on any two numbers, each comparison builtin
/// answers, exactly one of `<`, `=`, `>` answers true, and `!=`
/// answers the negation of `=`.
pub proof fn lemma_comparison_totality(n1: int, d1: int, n2: int, d2: int, site: SpecExpr)
    requires
        d1 >= 1,
        d2 >= 1,
    ensures
        ({
            let args = seq![
                SpecVal::Num { num: n1, den: d1 },
                SpecVal::Num { num: n2, den: d2 },
            ];
            let lt = spec_apply_builtin(BuiltinOp::Lt, args, site);
            let eq = spec_apply_builtin(BuiltinOp::NumEq, args, site);
            let gt = spec_apply_builtin(BuiltinOp::Gt, args, site);
            let ne = spec_apply_builtin(BuiltinOp::NumNe, args, site);
            &&& lt == Ok::<_, SpecError>(SpecVal::Bool(rat_lt(n1, d1, n2, d2)))
            &&& eq == Ok::<_, SpecError>(SpecVal::Bool(rat_eq(n1, d1, n2, d2)))
            &&& gt == Ok::<_, SpecError>(SpecVal::Bool(rat_lt(n2, d2, n1, d1)))
            &&& (rat_lt(n1, d1, n2, d2) || rat_eq(n1, d1, n2, d2) || rat_lt(n2, d2, n1, d1))
            &&& !(rat_lt(n1, d1, n2, d2) && rat_eq(n1, d1, n2, d2))
            &&& !(rat_lt(n1, d1, n2, d2) && rat_lt(n2, d2, n1, d1))
            &&& !(rat_eq(n1, d1, n2, d2) && rat_lt(n2, d2, n1, d1))
            &&& ne == Ok::<_, SpecError>(SpecVal::Bool(!rat_eq(n1, d1, n2, d2)))
        }),
{
}

/// Read the arguments from `start` on as numbers, or report the first
/// one of another kind.
fn nums_of(args: &Vec<Value>, start: usize, site: &Expr) -> (r: Result<Vec<Rat>, EvalError>)
    requires
        vals_num_wf(deep_vals(args@)),
    ensures
        match r {
            Ok(rs) => Ok::<_, SpecError>(rat_models(rs@)) == spec_nums(
                deep_vals(args@),
                start as int,
                site.deep(),
            ) && (forall|k: int| 0 <= k < rs@.len() ==> (#[trigger] rs@[k]).wf()),
            Err(e) => spec_nums(deep_vals(args@), start as int, site.deep()) == Err::<
                Seq<(int, int)>,
                _,
            >(e.deep()) && !(e.deep() is InvalidSyntax),
        },
{
    let ghost sargs = deep_vals(args@);
    let ghost ssite = site.deep();
    let mut rs: Vec<Rat> = Vec::new();
    let mut j = start;
    if j > args.len() {
        j = args.len();
        proof {
            assert(spec_nums(sargs, start as int, ssite) == Ok::<_, SpecError>(
                Seq::<(int, int)>::empty(),
            ));
            assert(rat_models(rs@) =~= Seq::<(int, int)>::empty());
        }
        return Ok(rs);
    }
    while j < args.len()
        invariant
            start <= j <= args@.len(),
            vals_num_wf(sargs),
            sargs == deep_vals(args@),
            ssite == site.deep(),
            forall|k: int| 0 <= k < rs@.len() ==> (#[trigger] rs@[k]).wf(),
            spec_nums(sargs, start as int, ssite) == match spec_nums(sargs, j as int, ssite) {
                Ok(rest) => Ok::<_, SpecError>(rat_models(rs@) + rest),
                Err(e) => Err(e),
            },
        decreases args@.len() - j,
    {
        proof {
            assert(sargs[j as int] == args@[j as int].deep());
        }
        match &args[j] {
            Value::Number(x) => {
                let ghost old_rs = rs@;
                rs.push(*x);
                proof {
                    assert(rat_models(rs@) =~= rat_models(old_rs).push(
                        (x.num as int, x.den as int),
                    ));
                    if let Ok(rest) = spec_nums(sargs, j + 1, ssite) {
                        assert(rat_models(old_rs) + (seq![(x.num as int, x.den as int)] + rest)
                            =~= rat_models(rs@) + rest);
                    }
                }
            },
            other => {
                return Err(
                    EvalError::TypeError {
                        expected: ValueKind::Number,
                        found: other.clone(),
                        in_expr: site.clone(),
                    },
                );
            },
        }
        j = j + 1;
    }
    proof {
        assert(spec_nums(sargs, j as int, ssite) == Ok::<_, SpecError>(Seq::<(int, int)>::empty()));
        assert(rat_models(rs@) + Seq::<(int, int)>::empty() =~= rat_models(rs@));
    }
    Ok(rs)
}

/// Sum a list of numbers into the accumulator, reporting overflow.
fn fold_add(nums: &Vec<Rat>, acc0: Rat) -> (r: Result<Rat, EvalError>)
    requires
        acc0.wf(),
        forall|k: int| 0 <= k < nums@.len() ==> (#[trigger] nums@[k]).wf(),
    ensures
        match r {
            Ok(c) => c.wf() && Ok::<_, SpecError>(c.model()) == spec_fold_add(
                rat_models(nums@),
                0,
                acc0.model(),
            ),
            Err(e) => spec_fold_add(rat_models(nums@), 0, acc0.model()) == Err::<(int, int), _>(
                e.deep(),
            ) && !(e.deep() is InvalidSyntax),
        },
{
    let ghost ms = rat_models(nums@);
    let mut acc = acc0;
    let mut j: usize = 0;
    while j < nums.len()
        invariant
            j <= nums@.len(),
            ms == rat_models(nums@),
            forall|k: int| 0 <= k < nums@.len() ==> (#[trigger] nums@[k]).wf(),
            acc.wf(),
            spec_fold_add(ms, 0, acc0.model()) == spec_fold_add(ms, j as int, acc.model()),
        decreases nums@.len() - j,
    {
        match rat_add(acc, nums[j]) {
            Some(next) => {
                acc = next;
            },
            None => {
                return Err(EvalError::OtherError("numeric overflow".to_owned()));
            },
        }
        j = j + 1;
    }
    Ok(acc)
}

/// Multiply a list of numbers into the accumulator, reporting
/// overflow.
fn fold_mul(nums: &Vec<Rat>, acc0: Rat) -> (r: Result<Rat, EvalError>)
    requires
        acc0.wf(),
        forall|k: int| 0 <= k < nums@.len() ==> (#[trigger] nums@[k]).wf(),
    ensures
        match r {
            Ok(c) => c.wf() && Ok::<_, SpecError>(c.model()) == spec_fold_mul(
                rat_models(nums@),
                0,
                acc0.model(),
            ),
            Err(e) => spec_fold_mul(rat_models(nums@), 0, acc0.model()) == Err::<(int, int), _>(
                e.deep(),
            ) && !(e.deep() is InvalidSyntax),
        },
{
    let ghost ms = rat_models(nums@);
    let mut acc = acc0;
    let mut j: usize = 0;
    while j < nums.len()
        invariant
            j <= nums@.len(),
            ms == rat_models(nums@),
            forall|k: int| 0 <= k < nums@.len() ==> (#[trigger] nums@[k]).wf(),
            acc.wf(),
            spec_fold_mul(ms, 0, acc0.model()) == spec_fold_mul(ms, j as int, acc.model()),
        decreases nums@.len() - j,
    {
        match rat_mul(acc, nums[j]) {
            Some(next) => {
                acc = next;
            },
            None => {
                return Err(EvalError::OtherError("numeric overflow".to_owned()));
            },
        }
        j = j + 1;
    }
    Ok(acc)
}

/// Invoke a builtin procedure on the already-evaluated arguments,
/// attributing failures to the originating call-site node.
pub fn apply_builtin(op: BuiltinOp, args: &Vec<Value>, site: &Expr) -> (r: Result<Value, EvalError>)
    requires
        vals_num_wf(deep_vals(args@)),
    ensures
        match r {
            Ok(v) => Ok::<_, SpecError>(v.deep()) == spec_apply_builtin(
                op,
                deep_vals(args@),
                site.deep(),
            ) && v.deep().wf(0),
            Err(e) => spec_apply_builtin(op, deep_vals(args@), site.deep()) == Err::<SpecVal, _>(
                e.deep(),
            ) && !(e.deep() is InvalidSyntax),
        },
{
    let ghost sargs = deep_vals(args@);
    let is_comparison = match op {
        BuiltinOp::Lt | BuiltinOp::Le | BuiltinOp::Gt | BuiltinOp::Ge | BuiltinOp::NumEq
            | BuiltinOp::NumNe => true,
        _ => false,
    };
    if is_comparison {
        if args.len() != 2 {
            return Err(
                EvalError::ArityMismatch { expected: 2, found: args.len(), in_expr: site.clone() },
            );
        }
        proof {
            assert(sargs[0] == args@[0].deep());
            assert(sargs[1] == args@[1].deep());
        }
        let a = match &args[0] {
            Value::Number(x) => *x,
            other => {
                return Err(
                    EvalError::TypeError {
                        expected: ValueKind::Number,
                        found: other.clone(),
                        in_expr: site.clone(),
                    },
                );
            },
        };
        let b = match &args[1] {
            Value::Number(x) => *x,
            other => {
                return Err(
                    EvalError::TypeError {
                        expected: ValueKind::Number,
                        found: other.clone(),
                        in_expr: site.clone(),
                    },
                );
            },
        };
        let answer = match op {
            BuiltinOp::Lt => rat_is_lt(a, b),
            BuiltinOp::Le => rat_is_le(a, b),
            BuiltinOp::Gt => rat_is_lt(b, a),
            BuiltinOp::Ge => rat_is_le(b, a),
            BuiltinOp::NumEq => rat_is_eq(a, b),
            _ => !rat_is_eq(a, b),
        };
        return Ok(Value::Bool(answer));
    }
    match op {
        BuiltinOp::Add => {
            let ns = match nums_of(args, 0, site) {
                Ok(ns) => ns,
                Err(e) => {
                    return Err(e);
                },
            };
            match fold_add(&ns, Rat::from_int(0)) {
                Ok(c) => Ok(Value::Number(c)),
                Err(e) => Err(e),
            }
        },
        BuiltinOp::Sub => {
            if args.len() == 0 {
                return Err(
                    EvalError::ArityMismatch { expected: 1, found: 0, in_expr: site.clone() },
                );
            }
            proof {
                assert(sargs[0] == args@[0].deep());
            }
            let first = match &args[0] {
                Value::Number(x) => *x,
                other => {
                    return Err(
                        EvalError::TypeError {
                            expected: ValueKind::Number,
                            found: other.clone(),
                            in_expr: site.clone(),
                        },
                    );
                },
            };
            if args.len() == 1 {
                match rat_neg(first) {
                    Some(c) => Ok(Value::Number(c)),
                    None => Err(EvalError::OtherError("numeric overflow".to_owned())),
                }
            } else {
                let ns = match nums_of(args, 1, site) {
                    Ok(ns) => ns,
                    Err(e) => {
                        return Err(e);
                    },
                };
                let s = match fold_add(&ns, Rat::from_int(0)) {
                    Ok(s) => s,
                    Err(e) => {
                        return Err(e);
                    },
                };
                match rat_sub(first, s) {
                    Some(c) => Ok(Value::Number(c)),
                    None => Err(EvalError::OtherError("numeric overflow".to_owned())),
                }
            }
        },
        BuiltinOp::Mul => {
            if args.len() < 2 {
                return Err(
                    EvalError::ArityMismatch {
                        expected: 2,
                        found: args.len(),
                        in_expr: site.clone(),
                    },
                );
            }
            let ns = match nums_of(args, 0, site) {
                Ok(ns) => ns,
                Err(e) => {
                    return Err(e);
                },
            };
            match fold_mul(&ns, Rat::from_int(1)) {
                Ok(c) => Ok(Value::Number(c)),
                Err(e) => Err(e),
            }
        },
        BuiltinOp::Div => {
            if args.len() == 0 {
                return Err(
                    EvalError::ArityMismatch { expected: 1, found: 0, in_expr: site.clone() },
                );
            }
            proof {
                assert(sargs[0] == args@[0].deep());
            }
            let first = match &args[0] {
                Value::Number(x) => *x,
                other => {
                    return Err(
                        EvalError::TypeError {
                            expected: ValueKind::Number,
                            found: other.clone(),
                            in_expr: site.clone(),
                        },
                    );
                },
            };
            if args.len() == 1 {
                if first.num == 0 {
                    return Err(EvalError::OtherError("division by zero".to_owned()));
                }
                match rat_div(Rat::from_int(1), first) {
                    Some(c) => Ok(Value::Number(c)),
                    None => Err(EvalError::OtherError("numeric overflow".to_owned())),
                }
            } else {
                let ns = match nums_of(args, 1, site) {
                    Ok(ns) => ns,
                    Err(e) => {
                        return Err(e);
                    },
                };
                let p = match fold_mul(&ns, Rat::from_int(1)) {
                    Ok(p) => p,
                    Err(e) => {
                        return Err(e);
                    },
                };
                if p.num == 0 {
                    return Err(EvalError::OtherError("division by zero".to_owned()));
                }
                match rat_div(first, p) {
                    Some(c) => Ok(Value::Number(c)),
                    None => Err(EvalError::OtherError("numeric overflow".to_owned())),
                }
            }
        },
        _ => Err(EvalError::OtherError(String::new())),
    }
}

} // verus!
