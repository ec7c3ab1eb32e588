//! The evaluator: a recursive tree walk over the syntax tree,
//! dispatching on shape, implementing the special forms, and
//! performing function application.
//!
//! The meaning of every construct is written down once, as the
//! definitional interpreter [`spec_eval`]; the executable [`eval`] is
//! proved to return exactly what the definitional interpreter says,
//! and to touch no environment frame but the one it was given and the
//! ones it creates.

use crate::ast::{Expr, SpecExpr};
use crate::builtins::apply_builtin;
use crate::value::{SpecVal, UserFunction, Value, ValueKind};
use vstd::prelude::*;

verus! {

/// The precise way a special form was misshapen. The set is closed so
/// that every failure is distinguishable in contracts; [`SyntaxErrorDesc::text`]
/// renders the human-readable description.
#[derive(Clone, Copy, Debug, PartialEq, Eq, Structural)]
pub enum SyntaxErrorDesc {
    DefineArity,
    DefineFnName,
    DefineParamSymbol,
    DefineTarget,
    LambdaArity,
    LambdaParamSymbol,
    LambdaParamList,
    AndArity,
    AndOperand,
    OrArity,
    OrOperand,
    NotArity,
    NotOperand,
    IfArity,
    IfCondition,
    CondArity,
    CondPairShape,
    CondNoMatch,
}

impl SyntaxErrorDesc {
    /// The human-readable description of the misshapen form.
    pub fn text(self) -> String {
        match self {
            SyntaxErrorDesc::DefineArity => "define requires 2 arguments.".to_owned(),
            SyntaxErrorDesc::DefineFnName => "Function name must be a symbol.".to_owned(),
            SyntaxErrorDesc::DefineParamSymbol => "Function parameters must be symbols.".to_owned(),
            SyntaxErrorDesc::DefineTarget => "define requires a symbol or a list".to_owned(),
            SyntaxErrorDesc::LambdaArity => "lambda requires 2 arguments".to_owned(),
            SyntaxErrorDesc::LambdaParamSymbol => "lambda parameters must be symbols".to_owned(),
            SyntaxErrorDesc::LambdaParamList => "lambda parameters must be a list".to_owned(),
            SyntaxErrorDesc::AndArity => "and requires at least 2 arguments".to_owned(),
            SyntaxErrorDesc::AndOperand => "and requires boolean arguments".to_owned(),
            SyntaxErrorDesc::OrArity => "or requires at least 2 arguments".to_owned(),
            SyntaxErrorDesc::OrOperand => "or requires boolean arguments".to_owned(),
            SyntaxErrorDesc::NotArity => "not requires 1 argument".to_owned(),
            SyntaxErrorDesc::NotOperand => "not requires a boolean argument".to_owned(),
            SyntaxErrorDesc::IfArity => "if requires 3 arguments".to_owned(),
            SyntaxErrorDesc::IfCondition => "if condition must be a boolean".to_owned(),
            SyntaxErrorDesc::CondArity => "cond requires at least 2 arguments".to_owned(),
            SyntaxErrorDesc::CondPairShape => "cond requires a list of pairs".to_owned(),
            SyntaxErrorDesc::CondNoMatch => "no matching clause".to_owned(),
        }
    }
}

/// A typed evaluation failure. Every error is returned from the point
/// of failure, short-circuits the enclosing evaluation, and is carried
/// unchanged to the original caller.
#[derive(Debug)]
#[allow(inconsistent_fields)]
pub enum EvalError {
    /// Symbol lookup failed through the entire environment chain.
    UnboundSymbol(String),
    /// A special form was given the wrong shape, or no `cond` clause
    /// matched.
    InvalidSyntax { expr: Expr, desc: SyntaxErrorDesc },
    /// An operand or callable had the wrong runtime kind.
    TypeError { expected: ValueKind, found: Value, in_expr: Expr },
    /// A call supplied the wrong number of arguments.
    ArityMismatch { expected: usize, found: usize, in_expr: Expr },
    /// A machine limit was hit: numeric overflow, a zero divisor, or
    /// the recursion bound.
    OtherError(String),
}

/// The mathematical shape of an evaluation failure.
#[verifier::ext_equal]
#[allow(inconsistent_fields)]
pub enum SpecError {
    UnboundSymbol(Seq<char>),
    InvalidSyntax { expr: SpecExpr, desc: SyntaxErrorDesc },
    TypeError { expected: ValueKind, found: SpecVal, in_expr: SpecExpr },
    ArityMismatch { expected: int, found: int, in_expr: SpecExpr },
    OtherError(Seq<char>),
}

impl EvalError {
    /// The mathematical shape of this failure.
    pub open spec fn deep(&self) -> SpecError {
        match self {
            EvalError::UnboundSymbol(s) => SpecError::UnboundSymbol(s@),
            EvalError::InvalidSyntax { expr, desc } => SpecError::InvalidSyntax {
                expr: expr.deep(),
                desc: *desc,
            },
            EvalError::TypeError { expected, found, in_expr } => SpecError::TypeError {
                expected: *expected,
                found: found.deep(),
                in_expr: in_expr.deep(),
            },
            EvalError::ArityMismatch { expected, found, in_expr } => SpecError::ArityMismatch {
                expected: *expected as int,
                found: *found as int,
                in_expr: in_expr.deep(),
            },
            EvalError::OtherError(s) => SpecError::OtherError(s@),
        }
    }
}

/// The failure reported when an arithmetic result does not fit into
/// 64-bit rationals.
pub open spec fn overflow_error() -> SpecError {
    SpecError::OtherError("numeric overflow"@)
}

/// The failure reported for a division whose divisor denotes zero.
pub open spec fn div_zero_error() -> SpecError {
    SpecError::OtherError("division by zero"@)
}

/// The failure reported when the call-depth budget is exhausted.
pub open spec fn recursion_error() -> SpecError {
    SpecError::OtherError("recursion limit exceeded"@)
}

/// The result of evaluation, mathematically.
pub type SpecResult = Result<SpecVal, SpecError>;

/// Whether a node is exactly the given keyword symbol.
pub open spec fn sym_is(e: SpecExpr, w: Seq<char>) -> bool {
    match e {
        SpecExpr::Symbol(s) => s == w,
        _ => false,
    }
}

/// Read the nodes from position `i` on as parameter names; `None`
/// reports a non-symbol among them.
pub open spec fn spec_params(l: Seq<SpecExpr>, i: int) -> Option<Seq<Seq<char>>>
    decreases l.len() - i,
{
    if i < 0 || i >= l.len() {
        Some(Seq::empty())
    } else {
        match l[i] {
            SpecExpr::Symbol(s) => match spec_params(l, i + 1) {
                Some(rest) => Some(seq![s] + rest),
                None => None,
            },
            _ => None,
        }
    }
}

/// The bindings of a call frame: each parameter name bound to the
/// corresponding argument, position by position; on repeated names
/// the rightmost binding wins.
pub open spec fn bind_params(params: Seq<Seq<char>>, args: Seq<SpecVal>) -> Map<Seq<char>, SpecVal>
    decreases params.len(),
{
    if params.len() == 0 || args.len() == 0 {
        Map::empty()
    } else {
        bind_params(params.drop_last(), args.drop_last()).insert(params.last(), args.last())
    }
}

/// The definitional interpreter: what evaluating a node against a
/// frame store means, and how it changes the store.
///
/// - a number literal denotes itself;
/// - a symbol denotes what lookup finds along the parent chain, or an
///   unbound-symbol failure;
/// - the empty list denotes nil;
/// - a list headed by a special-form keyword follows that form's rule;
/// - any other list is a call: the head and then every argument are
///   evaluated left to right, and the callable is applied.
///
/// The `fuel` is the call-depth budget: it is spent only when a
/// user-defined procedure's body is entered, and exhausting it is the
/// recursion-limit failure.
pub open spec fn spec_eval(fuel: nat, e: SpecExpr, frames: Seq<crate::env::SpecFrame>, cur: int) -> (
    SpecResult,
    Seq<crate::env::SpecFrame>,
)
    decreases fuel, e, 0int,
{
    match e {
        SpecExpr::Number { num, den } => (Ok(SpecVal::Num { num, den }), frames),
        SpecExpr::Symbol(s) => match crate::env::spec_lookup(frames, cur, s) {
            Some(v) => (Ok(v), frames),
            None => (Err(SpecError::UnboundSymbol(s)), frames),
        },
        SpecExpr::List(l) => {
            if l.len() == 0 {
                (Ok(SpecVal::Nil), frames)
            } else if sym_is(l[0], "define"@) {
                if l.len() < 3 {
                    (
                        Err(
                            SpecError::InvalidSyntax {
                                expr: e,
                                desc: SyntaxErrorDesc::DefineArity,
                            },
                        ),
                        frames,
                    )
                } else {
                    match l[1] {
                        SpecExpr::Symbol(name) => {
                            if l.len() != 3 {
                                (
                                    Err(
                                        SpecError::InvalidSyntax {
                                            expr: e,
                                            desc: SyntaxErrorDesc::DefineArity,
                                        },
                                    ),
                                    frames,
                                )
                            } else {
                                let (r, f0) = spec_eval(fuel, l[2], frames, cur);
                                match r {
                                    Ok(v) => (Ok(v), crate::env::def_frame(f0, cur, name, v)),
                                    Err(err) => (Err(err), f0),
                                }
                            }
                        },
                        SpecExpr::List(fn_decl) => {
                            if fn_decl.len() >= 1 && fn_decl[0] is Symbol {
                                let fname = fn_decl[0]->Symbol_0;
                                match spec_params(fn_decl, 1) {
                                    Some(ps) => {
                                        let v = SpecVal::Closure {
                                            params: ps,
                                            body: l.subrange(2, l.len() as int),
                                            env: frames.len() as int,
                                            name: Some(fname),
                                        };
                                        let f2 = frames.push(
                                            crate::env::SpecFrame {
                                                vars: Map::empty().insert(fname, v),
                                                parent: Some(cur),
                                            },
                                        );
                                        (Ok(v), crate::env::def_frame(f2, cur, fname, v))
                                    },
                                    None => (
                                        Err(
                                            SpecError::InvalidSyntax {
                                                expr: e,
                                                desc: SyntaxErrorDesc::DefineParamSymbol,
                                            },
                                        ),
                                        frames,
                                    ),
                                }
                            } else {
                                (
                                    Err(
                                        SpecError::InvalidSyntax {
                                            expr: e,
                                            desc: SyntaxErrorDesc::DefineFnName,
                                        },
                                    ),
                                    frames,
                                )
                            }
                        },
                        _ => (
                            Err(
                                SpecError::InvalidSyntax {
                                    expr: e,
                                    desc: SyntaxErrorDesc::DefineTarget,
                                },
                            ),
                            frames,
                        ),
                    }
                }
            } else if sym_is(l[0], "lambda"@) {
                if l.len() != 3 {
                    (
                        Err(
                            SpecError::InvalidSyntax {
                                expr: e,
                                desc: SyntaxErrorDesc::LambdaArity,
                            },
                        ),
                        frames,
                    )
                } else {
                    match l[1] {
                        SpecExpr::List(ps_exprs) => match spec_params(ps_exprs, 0) {
                            Some(ps) => (
                                Ok(
                                    SpecVal::Closure {
                                        params: ps,
                                        body: seq![l[2]],
                                        env: cur,
                                        name: None,
                                    },
                                ),
                                frames,
                            ),
                            None => (
                                Err(
                                    SpecError::InvalidSyntax {
                                        expr: e,
                                        desc: SyntaxErrorDesc::LambdaParamSymbol,
                                    },
                                ),
                                frames,
                            ),
                        },
                        _ => (
                            Err(
                                SpecError::InvalidSyntax {
                                    expr: e,
                                    desc: SyntaxErrorDesc::LambdaParamList,
                                },
                            ),
                            frames,
                        ),
                    }
                }
            } else if sym_is(l[0], "and"@) {
                if l.len() < 3 {
                    (
                        Err(SpecError::InvalidSyntax { expr: e, desc: SyntaxErrorDesc::AndArity }),
                        frames,
                    )
                } else {
                    spec_eval_and(fuel, e, l, 1, frames, cur)
                }
            } else if sym_is(l[0], "or"@) {
                if l.len() < 3 {
                    (
                        Err(SpecError::InvalidSyntax { expr: e, desc: SyntaxErrorDesc::OrArity }),
                        frames,
                    )
                } else {
                    spec_eval_or(fuel, e, l, 1, frames, cur)
                }
            } else if sym_is(l[0], "not"@) {
                if l.len() != 2 {
                    (
                        Err(SpecError::InvalidSyntax { expr: e, desc: SyntaxErrorDesc::NotArity }),
                        frames,
                    )
                } else {
                    let (r, f0) = spec_eval(fuel, l[1], frames, cur);
                    match r {
                        Ok(SpecVal::Bool(b)) => (Ok(SpecVal::Bool(!b)), f0),
                        Ok(_) => (
                            Err(
                                SpecError::InvalidSyntax {
                                    expr: e,
                                    desc: SyntaxErrorDesc::NotOperand,
                                },
                            ),
                            f0,
                        ),
                        Err(err) => (Err(err), f0),
                    }
                }
            } else if sym_is(l[0], "if"@) {
                if l.len() != 4 {
                    (
                        Err(SpecError::InvalidSyntax { expr: e, desc: SyntaxErrorDesc::IfArity }),
                        frames,
                    )
                } else {
                    let (r, f0) = spec_eval(fuel, l[1], frames, cur);
                    match r {
                        Ok(SpecVal::Bool(true)) => spec_eval(fuel, l[2], f0, cur),
                        Ok(SpecVal::Bool(false)) => spec_eval(fuel, l[3], f0, cur),
                        Ok(_) => (
                            Err(
                                SpecError::InvalidSyntax {
                                    expr: e,
                                    desc: SyntaxErrorDesc::IfCondition,
                                },
                            ),
                            f0,
                        ),
                        Err(err) => (Err(err), f0),
                    }
                }
            } else if sym_is(l[0], "cond"@) {
                if l.len() < 3 {
                    (
                        Err(SpecError::InvalidSyntax { expr: e, desc: SyntaxErrorDesc::CondArity }),
                        frames,
                    )
                } else {
                    spec_eval_cond(fuel, e, l, 1, frames, cur)
                }
            } else {
                let (rf, f0) = spec_eval(fuel, l[0], frames, cur);
                match rf {
                    Err(err) => (Err(err), f0),
                    Ok(func) => {
                        let (ra, f1) = spec_eval_list(fuel, l, 1, f0, cur);
                        match ra {
                            Err(err) => (Err(err), f1),
                            Ok(args) => match func {
                                SpecVal::Builtin { name, op } => (
                                    crate::builtins::spec_apply_builtin(op, args, e),
                                    f1,
                                ),
                                SpecVal::Closure { params, body, env, name } => {
                                    if params.len() != args.len() {
                                        (
                                            Err(
                                                SpecError::ArityMismatch {
                                                    expected: params.len() as int,
                                                    found: args.len() as int,
                                                    in_expr: e,
                                                },
                                            ),
                                            f1,
                                        )
                                    } else if fuel == 0 {
                                        (Err(recursion_error()), f1)
                                    } else {
                                        let f2 = f1.push(
                                            crate::env::SpecFrame {
                                                vars: bind_params(params, args),
                                                parent: Some(env),
                                            },
                                        );
                                        let (rb, f3) = spec_eval_list(
                                            (fuel - 1) as nat,
                                            body,
                                            0,
                                            f2,
                                            f1.len() as int,
                                        );
                                        match rb {
                                            Ok(vs) => (
                                                Ok(
                                                    if vs.len() > 0 {
                                                        vs.last()
                                                    } else {
                                                        SpecVal::Nil
                                                    },
                                                ),
                                                f3,
                                            ),
                                            Err(err) => (Err(err), f3),
                                        }
                                    }
                                },
                                v => (
                                    Err(
                                        SpecError::TypeError {
                                            expected: ValueKind::Function,
                                            found: v,
                                            in_expr: l[0],
                                        },
                                    ),
                                    f1,
                                ),
                            },
                        }
                    },
                }
            }
        },
    }
}

/// Evaluate the nodes from position `i` on, left to right, threading
/// the store; the first failure wins.
pub open spec fn spec_eval_list(
    fuel: nat,
    l: Seq<SpecExpr>,
    i: int,
    frames: Seq<crate::env::SpecFrame>,
    cur: int,
) -> (Result<Seq<SpecVal>, SpecError>, Seq<crate::env::SpecFrame>)
    decreases fuel, l, l.len() - i,
{
    if i < 0 || i >= l.len() {
        (Ok(Seq::empty()), frames)
    } else {
        let (r0, f0) = spec_eval(fuel, l[i], frames, cur);
        match r0 {
            Err(err) => (Err(err), f0),
            Ok(v) => {
                let (r1, f1) = spec_eval_list(fuel, l, i + 1, f0, cur);
                match r1 {
                    Err(err) => (Err(err), f1),
                    Ok(vs) => (Ok(seq![v] + vs), f1),
                }
            },
        }
    }
}

/// Walk the operands of an `and` from position `i` on: evaluate left
/// to right, stop at the first `false`, demand booleans throughout.
pub open spec fn spec_eval_and(
    fuel: nat,
    site: SpecExpr,
    l: Seq<SpecExpr>,
    i: int,
    frames: Seq<crate::env::SpecFrame>,
    cur: int,
) -> (SpecResult, Seq<crate::env::SpecFrame>)
    decreases fuel, l, l.len() - i,
{
    if i < 0 || i >= l.len() {
        (Ok(SpecVal::Bool(true)), frames)
    } else {
        let (r0, f0) = spec_eval(fuel, l[i], frames, cur);
        match r0 {
            Ok(SpecVal::Bool(true)) => spec_eval_and(fuel, site, l, i + 1, f0, cur),
            Ok(SpecVal::Bool(false)) => (Ok(SpecVal::Bool(false)), f0),
            Ok(_) => (
                (
                    Err(
                        SpecError::InvalidSyntax { expr: site, desc: SyntaxErrorDesc::AndOperand },
                    ),
                    f0,
                )
            ),
            Err(err) => (Err(err), f0),
        }
    }
}

/// Walk the operands of an `or` from position `i` on: evaluate left
/// to right, stop at the first `true`, demand booleans throughout.
pub open spec fn spec_eval_or(
    fuel: nat,
    site: SpecExpr,
    l: Seq<SpecExpr>,
    i: int,
    frames: Seq<crate::env::SpecFrame>,
    cur: int,
) -> (SpecResult, Seq<crate::env::SpecFrame>)
    decreases fuel, l, l.len() - i,
{
    if i < 0 || i >= l.len() {
        (Ok(SpecVal::Bool(false)), frames)
    } else {
        let (r0, f0) = spec_eval(fuel, l[i], frames, cur);
        match r0 {
            Ok(SpecVal::Bool(true)) => (Ok(SpecVal::Bool(true)), f0),
            Ok(SpecVal::Bool(false)) => spec_eval_or(fuel, site, l, i + 1, f0, cur),
            Ok(_) => (
                (
                    Err(SpecError::InvalidSyntax { expr: site, desc: SyntaxErrorDesc::OrOperand }),
                    f0,
                )
            ),
            Err(err) => (Err(err), f0),
        }
    }
}

/// Walk the clauses of a `cond` from position `i` on: each clause
/// must be a two-node list; an `else` test selects its clause
/// unconditionally; otherwise the test must answer a boolean, and the
/// first true test selects its clause. Running out of clauses is the
/// no-matching-clause failure, attributed to the whole `cond` node.
pub open spec fn spec_eval_cond(
    fuel: nat,
    site: SpecExpr,
    l: Seq<SpecExpr>,
    i: int,
    frames: Seq<crate::env::SpecFrame>,
    cur: int,
) -> (SpecResult, Seq<crate::env::SpecFrame>)
    decreases fuel, l, l.len() - i,
{
    if i < 0 || i >= l.len() {
        (
            Err(SpecError::InvalidSyntax { expr: site, desc: SyntaxErrorDesc::CondNoMatch }),
            frames,
        )
    } else {
        match l[i] {
            SpecExpr::List(pair) => {
                if pair.len() != 2 {
                    (
                        Err(
                            SpecError::InvalidSyntax {
                                expr: site,
                                desc: SyntaxErrorDesc::CondPairShape,
                            },
                        ),
                        frames,
                    )
                } else if sym_is(pair[0], "else"@) {
                    spec_eval(fuel, pair[1], frames, cur)
                } else {
                    let (r0, f0) = spec_eval(fuel, pair[0], frames, cur);
                    match r0 {
                        Ok(SpecVal::Bool(true)) => spec_eval(fuel, pair[1], f0, cur),
                        Ok(SpecVal::Bool(false)) => spec_eval_cond(fuel, site, l, i + 1, f0, cur),
                        Ok(v) => (
                            Err(
                                SpecError::TypeError {
                                    expected: ValueKind::Bool,
                                    found: v,
                                    in_expr: pair[0],
                                },
                            ),
                            f0,
                        ),
                        Err(err) => (Err(err), f0),
                    }
                }
            },
            _ => (
                Err(SpecError::InvalidSyntax { expr: site, desc: SyntaxErrorDesc::CondPairShape }),
                frames,
            ),
        }
    }
}

/// A two-node clause whose test is literally the symbol `else`.
pub open spec fn is_else_clause(c: SpecExpr) -> bool {
    match c {
        SpecExpr::List(p) => p.len() == 2 && sym_is(p[0], "else"@),
        _ => false,
    }
}

/// The shape a no-matching-clause failure is attributed to: a `cond`
/// form none of whose clauses is an `else` clause.
pub open spec fn cond_without_else(x: SpecExpr) -> bool {
    match x {
        SpecExpr::List(l) => l.len() >= 3 && sym_is(l[0], "cond"@) && (forall|j: int|
            1 <= j < l.len() ==> !is_else_clause(#[trigger] l[j])),
        _ => false,
    }
}

/// An evaluation result never blames a no-matching-clause failure on
/// anything but an else-less `cond`: the formal content of "a `cond`
/// with an `else` clause never fails for that reason".
pub open spec fn no_match_blames_condonly(r: Result<Value, EvalError>) -> bool {
    match r {
        Err(e) => match e.deep() {
            SpecError::InvalidSyntax { expr: x, desc } => desc == SyntaxErrorDesc::CondNoMatch
                ==> cond_without_else(x),
            _ => true,
        },
        Ok(_) => true,
    }
}

/// The store only grew, no frame but `cur` changed, and `cur` kept
/// its parent link. This is the scoping-isolation discipline of the
/// evaluator: a `define` inside any evaluation can reach only the
/// frame the evaluation was started in or frames created by it.
pub open spec fn frames_extend(
    a: Seq<crate::env::SpecFrame>,
    b: Seq<crate::env::SpecFrame>,
    cur: int,
) -> bool {
    &&& b.len() >= a.len()
    &&& (forall|j: int| 0 <= j < a.len() && j != cur ==> a[j] == #[trigger] b[j])
    &&& (0 <= cur < a.len() ==> b[cur].parent == a[cur].parent)
}

/// Whether a node is exactly the given keyword symbol.
fn is_keyword(e: &Expr, w: &str) -> (r: bool)
    ensures
        r == sym_is(e.deep(), w@),
{
    match e {
        Expr::Symbol(s) => *s == w.to_owned(),
        _ => false,
    }
}

/// Read the nodes from position `start` on as parameter names, or
/// report a non-symbol among them.
fn collect_params(l: &Vec<Expr>, start: usize) -> (r: Option<Vec<String>>)
    ensures
        match r {
            Some(ps) => spec_params(crate::ast::deep_exprs(l@), start as int) == Some(
                ps.deep_view(),
            ),
            None => spec_params(crate::ast::deep_exprs(l@), start as int) is None,
        },
{
    let ghost ls = crate::ast::deep_exprs(l@);
    let mut ps: Vec<String> = Vec::new();
    if start >= l.len() {
        proof {
            assert(ps.deep_view() =~= Seq::<Seq<char>>::empty());
        }
        return Some(ps);
    }
    let mut j = start;
    while j < l.len()
        invariant
            start <= j <= l@.len(),
            ls == crate::ast::deep_exprs(l@),
            spec_params(ls, start as int) == match spec_params(ls, j as int) {
                Some(rest) => Some(ps.deep_view() + rest),
                None => None::<Seq<Seq<char>>>,
            },
        decreases l@.len() - j,
    {
        proof {
            assert(ls[j as int] == l@[j as int].deep());
        }
        match &l[j] {
            Expr::Symbol(s) => {
                let ghost old_ps = ps.deep_view();
                ps.push(s.clone());
                proof {
                    assert(ps.deep_view() =~= old_ps.push(s@));
                    if let Some(rest) = spec_params(ls, j + 1) {
                        assert(old_ps + (seq![s@] + rest) =~= ps.deep_view() + rest);
                    }
                }
            },
            _ => {
                return None;
            },
        }
        j = j + 1;
    }
    proof {
        assert(spec_params(ls, j as int) == Some(Seq::<Seq<char>>::empty()));
        assert(ps.deep_view() + Seq::<Seq<char>>::empty() =~= ps.deep_view());
    }
    Some(ps)
}

/// Evaluate one node against the store, starting from the given
/// frame.
///
/// Returns exactly what the definitional interpreter [`spec_eval`]
/// says, leaves the store well-formed, and obeys the frame
/// discipline [`frames_extend`]: no frame but `cur` and newly created
/// ones is touched, so bindings made inside a call can never leak
/// into an enclosing scope. A no-matching-clause failure is only ever
/// blamed on a `cond` that has no `else` clause
/// ([`no_match_blames_condonly`]): a `cond` with an `else` clause
/// never fails for that reason.
#[verifier::loop_isolation(false)]
#[verifier::rlimit(100)]
pub fn eval(expr: &Expr, env: &mut crate::env::Env, cur: usize, fuel: u64) -> (r: Result<
    Value,
    EvalError,
>)
    requires
        crate::env::env_wf(old(env).deep()),
        cur < old(env).deep().len(),
        expr.deep().wf(),
    ensures
        ({
            let (sr, sf) = spec_eval(fuel as nat, expr.deep(), old(env).deep(), cur as int);
            &&& final(env).deep() == sf
            &&& match r {
                Ok(v) => sr == Ok::<_, SpecError>(v.deep()) && v.deep().wf(
                    final(env).deep().len() as int,
                ),
                Err(e) => sr == Err::<SpecVal, _>(e.deep()),
            }
        }),
        crate::env::env_wf(final(env).deep()),
        frames_extend(old(env).deep(), final(env).deep(), cur as int),
        no_match_blames_condonly(r),
    decreases fuel, *expr, 0int,
{
    let ghost se = expr.deep();
    let ghost f_in = env.deep();
    match expr {
        Expr::Number(x) => Ok(Value::Number(*x)),
        Expr::Symbol(s) => match env.get(cur, s.as_str()) {
            Some(v) => {
                proof {
                    crate::env::lemma_lookup_wf(f_in, cur as int, s@);
                }
                Ok(v)
            },
            None => Err(EvalError::UnboundSymbol(s.clone())),
        },
        Expr::List(l) => {
            let ghost ls = crate::ast::deep_exprs(l@);
            proof {
                assert(se == SpecExpr::List(ls));
                crate::ast::lemma_exprs_wf_iff(ls, 0);
            }
            if l.len() == 0 {
                return Ok(Value::Nil);
            }
            if is_keyword(&l[0], "define") {
                if l.len() < 3 {
                    return Err(
                        EvalError::InvalidSyntax {
                            expr: expr.clone(),
                            desc: SyntaxErrorDesc::DefineArity,
                        },
                    );
                }
                match &l[1] {
                    Expr::Symbol(name) => {
                        if l.len() != 3 {
                            return Err(
                                EvalError::InvalidSyntax {
                                    expr: expr.clone(),
                                    desc: SyntaxErrorDesc::DefineArity,
                                },
                            );
                        }
                        let v = match eval(&l[2], env, cur, fuel) {
                            Ok(v) => v,
                            Err(e) => {
                                return Err(e);
                            },
                        };
                        env.define(cur, name.as_str(), v.clone());
                        proof {
                            let (r2, f0) = spec_eval(fuel as nat, ls[2], f_in, cur as int);
                            assert(env.deep() =~~= crate::env::def_frame(
                                f0,
                                cur as int,
                                name@,
                                v.deep(),
                            ));
                            crate::env::lemma_def_frame_wf(f0, cur as int, name@, v.deep());
                        }
                        Ok(v)
                    },
                    Expr::List(fn_decl) => {
                        let ghost fls = crate::ast::deep_exprs(fn_decl@);
                        if fn_decl.len() == 0 {
                            return Err(
                                EvalError::InvalidSyntax {
                                    expr: expr.clone(),
                                    desc: SyntaxErrorDesc::DefineFnName,
                                },
                            );
                        }
                        let fname = match &fn_decl[0] {
                            Expr::Symbol(s) => s,
                            _ => {
                                return Err(
                                    EvalError::InvalidSyntax {
                                        expr: expr.clone(),
                                        desc: SyntaxErrorDesc::DefineFnName,
                                    },
                                );
                            },
                        };
                        let params = match collect_params(fn_decl, 1) {
                            Some(ps) => ps,
                            None => {
                                return Err(
                                    EvalError::InvalidSyntax {
                                        expr: expr.clone(),
                                        desc: SyntaxErrorDesc::DefineParamSymbol,
                                    },
                                );
                            },
                        };
                        let cenv = env.frames.len();
                        let body = crate::ast::clone_exprs_from(l, 2);
                        proof {
                            assert forall|j: int|
                                0 <= j < body@.len() implies crate::ast::deep_exprs(body@)[j]
                                == ls.subrange(2, ls.len() as int)[j] by {
                                assert(body@[j].deep() == l@[j + 2].deep());
                                assert(ls[j + 2] == l@[j + 2].deep());
                            }
                            assert(crate::ast::deep_exprs(body@) =~= ls.subrange(
                                2,
                                ls.len() as int,
                            ));
                            crate::ast::lemma_exprs_wf_iff(crate::ast::deep_exprs(body@), 0);
                        }
                        let v = Value::Function(
                            UserFunction {
                                params,
                                body,
                                env: cenv,
                                name: Some(fname.clone()),
                            },
                        );
                        let child = env.new_child(cur);
                        proof {
                            crate::env::lemma_push_frame_wf(
                                f_in,
                                Map::empty(),
                                cur as int,
                            );
                        }
                        env.define(child, fname.as_str(), v.clone());
                        proof {
                            assert(v.deep().wf(env.deep().len() as int));
                            crate::env::lemma_def_frame_wf(
                                f_in.push(
                                    crate::env::SpecFrame {
                                        vars: Map::empty(),
                                        parent: Some(cur as int),
                                    },
                                ),
                                child as int,
                                fname@,
                                v.deep(),
                            );
                            assert(env.deep() =~~= f_in.push(
                                crate::env::SpecFrame {
                                    vars: Map::empty().insert(fname@, v.deep()),
                                    parent: Some(cur as int),
                                },
                            ));
                        }
                        let ghost f2 = env.deep();
                        env.define(cur, fname.as_str(), v.clone());
                        proof {
                            crate::env::lemma_def_frame_wf(f2, cur as int, fname@, v.deep());
                            assert(env.deep() =~~= crate::env::def_frame(
                                f2,
                                cur as int,
                                fname@,
                                v.deep(),
                            ));
                        }
                        Ok(v)
                    },
                    _ => Err(
                        EvalError::InvalidSyntax {
                            expr: expr.clone(),
                            desc: SyntaxErrorDesc::DefineTarget,
                        },
                    ),
                }
            } else if is_keyword(&l[0], "lambda") {
                if l.len() != 3 {
                    return Err(
                        EvalError::InvalidSyntax {
                            expr: expr.clone(),
                            desc: SyntaxErrorDesc::LambdaArity,
                        },
                    );
                }
                match &l[1] {
                    Expr::List(ps_exprs) => match collect_params(ps_exprs, 0) {
                        Some(ps) => {
                            let mut body: Vec<Expr> = Vec::new();
                            body.push(l[2].clone());
                            proof {
                                assert(crate::ast::deep_exprs(body@) =~= seq![ls[2]]);
                                crate::ast::lemma_exprs_wf_iff(crate::ast::deep_exprs(body@), 0);
                            }
                            Ok(
                                Value::Function(
                                    UserFunction { params: ps, body, env: cur, name: None },
                                ),
                            )
                        },
                        None => Err(
                            EvalError::InvalidSyntax {
                                expr: expr.clone(),
                                desc: SyntaxErrorDesc::LambdaParamSymbol,
                            },
                        ),
                    },
                    _ => Err(
                        EvalError::InvalidSyntax {
                            expr: expr.clone(),
                            desc: SyntaxErrorDesc::LambdaParamList,
                        },
                    ),
                }
            } else if is_keyword(&l[0], "and") {
                if l.len() < 3 {
                    return Err(
                        EvalError::InvalidSyntax {
                            expr: expr.clone(),
                            desc: SyntaxErrorDesc::AndArity,
                        },
                    );
                }
                eval_and(expr, l, 1, env, cur, fuel)
            } else if is_keyword(&l[0], "or") {
                if l.len() < 3 {
                    return Err(
                        EvalError::InvalidSyntax {
                            expr: expr.clone(),
                            desc: SyntaxErrorDesc::OrArity,
                        },
                    );
                }
                eval_or(expr, l, 1, env, cur, fuel)
            } else if is_keyword(&l[0], "not") {
                if l.len() != 2 {
                    return Err(
                        EvalError::InvalidSyntax {
                            expr: expr.clone(),
                            desc: SyntaxErrorDesc::NotArity,
                        },
                    );
                }
                match eval(&l[1], env, cur, fuel) {
                    Ok(Value::Bool(b)) => Ok(Value::Bool(!b)),
                    Ok(_) => Err(
                        EvalError::InvalidSyntax {
                            expr: expr.clone(),
                            desc: SyntaxErrorDesc::NotOperand,
                        },
                    ),
                    Err(e) => Err(e),
                }
            } else if is_keyword(&l[0], "if") {
                if l.len() != 4 {
                    return Err(
                        EvalError::InvalidSyntax {
                            expr: expr.clone(),
                            desc: SyntaxErrorDesc::IfArity,
                        },
                    );
                }
                match eval(&l[1], env, cur, fuel) {
                    Ok(Value::Bool(true)) => eval(&l[2], env, cur, fuel),
                    Ok(Value::Bool(false)) => eval(&l[3], env, cur, fuel),
                    Ok(_) => Err(
                        EvalError::InvalidSyntax {
                            expr: expr.clone(),
                            desc: SyntaxErrorDesc::IfCondition,
                        },
                    ),
                    Err(e) => Err(e),
                }
            } else if is_keyword(&l[0], "cond") {
                if l.len() < 3 {
                    return Err(
                        EvalError::InvalidSyntax {
                            expr: expr.clone(),
                            desc: SyntaxErrorDesc::CondArity,
                        },
                    );
                }
                eval_cond(expr, l, 1, env, cur, fuel)
            } else {
                let func = match eval(&l[0], env, cur, fuel) {
                    Ok(f) => f,
                    Err(e) => {
                        return Err(e);
                    },
                };
                let ghost f0 = env.deep();
                let args = match eval_args(l, 1, env, cur, fuel) {
                    Ok(a) => a,
                    Err(e) => {
                        return Err(e);
                    },
                };
                let ghost f1 = env.deep();
                match func {
                    Value::BuiltinFunction(bf) => {
                        proof {
                            assert(crate::builtins::vals_num_wf(
                                crate::value::deep_vals(args@),
                            )) by {
                                assert forall|j: int|
                                    0 <= j < args@.len() implies match #[trigger] crate::value::deep_vals(args@)[j] {
                                    SpecVal::Num { num, den } => den >= 1 && crate::rat::fits_i64(
                                        num,
                                    ) && crate::rat::fits_i64(den),
                                    _ => true,
                                } by {
                                    assert(args@[j].deep().wf(f1.len() as int));
                                }
                            }
                        }
                        let res = apply_builtin(bf.op, &args, expr);
                        proof {
                            if res is Ok {
                                crate::value::lemma_val_wf_monotone(
                                    res->Ok_0.deep(),
                                    0,
                                    f1.len() as int,
                                );
                            }
                        }
                        res
                    },
                    Value::Function(uf) => {
                        if uf.params.len() != args.len() {
                            return Err(
                                EvalError::ArityMismatch {
                                    expected: uf.params.len(),
                                    found: args.len(),
                                    in_expr: expr.clone(),
                                },
                            );
                        }
                        if fuel == 0 {
                            return Err(EvalError::OtherError("recursion limit exceeded".to_owned()));
                        }
                        let ghost ps = uf.params.deep_view();
                        let ghost avs = crate::value::deep_vals(args@);
                        let child = env.new_child(uf.env);
                        proof {
                            crate::env::lemma_push_frame_wf(f1, Map::empty(), uf.env as int);
                            assert(bind_params(ps.take(0), avs.take(0)) =~= Map::empty());
                        }
                        let mut k: usize = 0;
                        while k < uf.params.len()
                            invariant
                                k <= uf.params.len(),
                                uf.params.len() == args.len(),
                                child == f1.len(),
                                env.deep() =~~= f1.push(
                                    crate::env::SpecFrame {
                                        vars: bind_params(ps.take(k as int), avs.take(k as int)),
                                        parent: Some(uf.env as int),
                                    },
                                ),
                                crate::env::env_wf(env.deep()),
                            decreases uf.params.len() - k,
                        {
                            let ghost fpre = env.deep();
                            env.define(child, uf.params[k].as_str(), args[k].clone());
                            proof {
                                assert(ps.take(k as int + 1).drop_last() =~= ps.take(k as int));
                                assert(avs.take(k as int + 1).drop_last() =~= avs.take(k as int));
                                assert(ps.take(k as int + 1).last() == ps[k as int]);
                                assert(avs.take(k as int + 1).last() == avs[k as int]);
                                assert(args@[k as int].deep().wf(f1.len() as int));
                                crate::value::lemma_val_wf_monotone(
                                    args@[k as int].deep(),
                                    f1.len() as int,
                                    fpre.len() as int,
                                );
                                crate::env::lemma_def_frame_wf(
                                    fpre,
                                    child as int,
                                    ps[k as int],
                                    avs[k as int],
                                );
                                assert(env.deep() =~~= f1.push(
                                    crate::env::SpecFrame {
                                        vars: bind_params(
                                            ps.take(k as int + 1),
                                            avs.take(k as int + 1),
                                        ),
                                        parent: Some(uf.env as int),
                                    },
                                ));
                            }
                            k = k + 1;
                        }
                        proof {
                            assert(ps.take(ps.len() as int) =~= ps);
                            assert(avs.take(avs.len() as int) =~= avs);
                            assert(env.deep() =~~= f1.push(
                                crate::env::SpecFrame {
                                    vars: bind_params(ps, avs),
                                    parent: Some(uf.env as int),
                                },
                            ));
                        }
                        let mut results = match eval_args(&uf.body, 0, env, child, fuel - 1) {
                            Ok(vs) => vs,
                            Err(e) => {
                                proof {
                                    assert(frames_extend(f_in, env.deep(), cur as int));
                                }
                                return Err(e);
                            },
                        };
                        proof {
                            assert(frames_extend(f_in, env.deep(), cur as int));
                        }
                        match results.pop() {
                            Some(v) => Ok(v),
                            None => Ok(Value::Nil),
                        }
                    },
                    other => Err(
                        EvalError::TypeError {
                            expected: ValueKind::Function,
                            found: other,
                            in_expr: l[0].clone(),
                        },
                    ),
                }
            }
        },
    }
}

/// Evaluate the operands of an `and` from position `i` on, mirroring
/// [`spec_eval_and`].
#[verifier::loop_isolation(false)]
fn eval_and(
    site: &Expr,
    l: &Vec<Expr>,
    i: usize,
    env: &mut crate::env::Env,
    cur: usize,
    fuel: u64,
) -> (r: Result<Value, EvalError>)
    requires
        crate::env::env_wf(old(env).deep()),
        cur < old(env).deep().len(),
        SpecExpr::List(crate::ast::deep_exprs(l@)).wf(),
    ensures
        ({
            let (sr, sf) = spec_eval_and(
                fuel as nat,
                site.deep(),
                crate::ast::deep_exprs(l@),
                i as int,
                old(env).deep(),
                cur as int,
            );
            &&& final(env).deep() == sf
            &&& match r {
                Ok(v) => sr == Ok::<_, SpecError>(v.deep()) && v.deep().wf(
                    final(env).deep().len() as int,
                ),
                Err(e) => sr == Err::<SpecVal, _>(e.deep()),
            }
        }),
        crate::env::env_wf(final(env).deep()),
        frames_extend(old(env).deep(), final(env).deep(), cur as int),
        no_match_blames_condonly(r),
    decreases fuel, *l, l@.len() - i,
{
    let ghost ls = crate::ast::deep_exprs(l@);
    if i >= l.len() {
        return Ok(Value::Bool(true));
    }
    proof {
        crate::ast::lemma_exprs_wf_iff(ls, 0);
        assert(ls[i as int] == l@[i as int].deep());
        assert(ls[i as int].wf());
    }
    match eval(&l[i], env, cur, fuel) {
        Ok(Value::Bool(true)) => eval_and(site, l, i + 1, env, cur, fuel),
        Ok(Value::Bool(false)) => Ok(Value::Bool(false)),
        Ok(_) => Err(
            EvalError::InvalidSyntax { expr: site.clone(), desc: SyntaxErrorDesc::AndOperand },
        ),
        Err(e) => Err(e),
    }
}

/// Evaluate the operands of an `or` from position `i` on, mirroring
/// [`spec_eval_or`].
#[verifier::loop_isolation(false)]
fn eval_or(
    site: &Expr,
    l: &Vec<Expr>,
    i: usize,
    env: &mut crate::env::Env,
    cur: usize,
    fuel: u64,
) -> (r: Result<Value, EvalError>)
    requires
        crate::env::env_wf(old(env).deep()),
        cur < old(env).deep().len(),
        SpecExpr::List(crate::ast::deep_exprs(l@)).wf(),
    ensures
        ({
            let (sr, sf) = spec_eval_or(
                fuel as nat,
                site.deep(),
                crate::ast::deep_exprs(l@),
                i as int,
                old(env).deep(),
                cur as int,
            );
            &&& final(env).deep() == sf
            &&& match r {
                Ok(v) => sr == Ok::<_, SpecError>(v.deep()) && v.deep().wf(
                    final(env).deep().len() as int,
                ),
                Err(e) => sr == Err::<SpecVal, _>(e.deep()),
            }
        }),
        crate::env::env_wf(final(env).deep()),
        frames_extend(old(env).deep(), final(env).deep(), cur as int),
        no_match_blames_condonly(r),
    decreases fuel, *l, l@.len() - i,
{
    let ghost ls = crate::ast::deep_exprs(l@);
    if i >= l.len() {
        return Ok(Value::Bool(false));
    }
    proof {
        crate::ast::lemma_exprs_wf_iff(ls, 0);
        assert(ls[i as int] == l@[i as int].deep());
        assert(ls[i as int].wf());
    }
    match eval(&l[i], env, cur, fuel) {
        Ok(Value::Bool(true)) => Ok(Value::Bool(true)),
        Ok(Value::Bool(false)) => eval_or(site, l, i + 1, env, cur, fuel),
        Ok(_) => Err(
            EvalError::InvalidSyntax { expr: site.clone(), desc: SyntaxErrorDesc::OrOperand },
        ),
        Err(e) => Err(e),
    }
}

/// Walk the clauses of a `cond` from position `i` on, mirroring
/// [`spec_eval_cond`].
#[verifier::loop_isolation(false)]
fn eval_cond(
    site: &Expr,
    l: &Vec<Expr>,
    i: usize,
    env: &mut crate::env::Env,
    cur: usize,
    fuel: u64,
) -> (r: Result<Value, EvalError>)
    requires
        crate::env::env_wf(old(env).deep()),
        cur < old(env).deep().len(),
        SpecExpr::List(crate::ast::deep_exprs(l@)).wf(),
        site.deep() == SpecExpr::List(crate::ast::deep_exprs(l@)),
        sym_is(crate::ast::deep_exprs(l@)[0], "cond"@),
        l@.len() >= 3,
        1 <= i,
        forall|j: int|
            1 <= j < i as int ==> !is_else_clause(#[trigger] crate::ast::deep_exprs(l@)[j]),
    ensures
        ({
            let (sr, sf) = spec_eval_cond(
                fuel as nat,
                site.deep(),
                crate::ast::deep_exprs(l@),
                i as int,
                old(env).deep(),
                cur as int,
            );
            &&& final(env).deep() == sf
            &&& match r {
                Ok(v) => sr == Ok::<_, SpecError>(v.deep()) && v.deep().wf(
                    final(env).deep().len() as int,
                ),
                Err(e) => sr == Err::<SpecVal, _>(e.deep()),
            }
        }),
        crate::env::env_wf(final(env).deep()),
        frames_extend(old(env).deep(), final(env).deep(), cur as int),
        no_match_blames_condonly(r),
    decreases fuel, *l, l@.len() - i,
{
    let ghost ls = crate::ast::deep_exprs(l@);
    if i >= l.len() {
        proof {
            assert(cond_without_else(site.deep()));
        }
        return Err(
            EvalError::InvalidSyntax { expr: site.clone(), desc: SyntaxErrorDesc::CondNoMatch },
        );
    }
    proof {
        crate::ast::lemma_exprs_wf_iff(ls, 0);
        assert(ls[i as int] == l@[i as int].deep());
        assert(ls[i as int].wf());
    }
    match &l[i] {
        Expr::List(pair) => {
            let ghost pls = crate::ast::deep_exprs(pair@);
            if pair.len() != 2 {
                return Err(
                    EvalError::InvalidSyntax {
                        expr: site.clone(),
                        desc: SyntaxErrorDesc::CondPairShape,
                    },
                );
            }
            proof {
                assert(ls[i as int] == SpecExpr::List(pls));
                crate::ast::lemma_exprs_wf_iff(pls, 0);
                assert(pls[0] == pair@[0].deep());
                assert(pls[1] == pair@[1].deep());
                assert(pls[0].wf() && pls[1].wf());
            }
            if is_keyword(&pair[0], "else") {
                return eval(&pair[1], env, cur, fuel);
            }
            match eval(&pair[0], env, cur, fuel) {
                Ok(Value::Bool(true)) => eval(&pair[1], env, cur, fuel),
                Ok(Value::Bool(false)) => eval_cond(site, l, i + 1, env, cur, fuel),
                Ok(v) => Err(
                    EvalError::TypeError {
                        expected: ValueKind::Bool,
                        found: v,
                        in_expr: pair[0].clone(),
                    },
                ),
                Err(e) => Err(e),
            }
        },
        _ => Err(
            EvalError::InvalidSyntax { expr: site.clone(), desc: SyntaxErrorDesc::CondPairShape },
        ),
    }
}

/// Evaluate the nodes from position `i` on, left to right, mirroring
/// [`spec_eval_list`].
#[verifier::loop_isolation(false)]
fn eval_args(
    l: &Vec<Expr>,
    i: usize,
    env: &mut crate::env::Env,
    cur: usize,
    fuel: u64,
) -> (r: Result<Vec<Value>, EvalError>)
    requires
        crate::env::env_wf(old(env).deep()),
        cur < old(env).deep().len(),
        SpecExpr::List(crate::ast::deep_exprs(l@)).wf(),
    ensures
        ({
            let (sr, sf) = spec_eval_list(
                fuel as nat,
                crate::ast::deep_exprs(l@),
                i as int,
                old(env).deep(),
                cur as int,
            );
            &&& final(env).deep() == sf
            &&& match r {
                Ok(vs) => sr == Ok::<_, SpecError>(crate::value::deep_vals(vs@)) && (forall|
                    k: int,
                |
                    0 <= k < vs@.len() ==> (#[trigger] vs@[k].deep()).wf(
                        final(env).deep().len() as int,
                    )),
                Err(e) => sr == Err::<Seq<SpecVal>, _>(e.deep()),
            }
        }),
        crate::env::env_wf(final(env).deep()),
        frames_extend(old(env).deep(), final(env).deep(), cur as int),
        no_match_blames_condonly(match r {
            Ok(_) => Ok(Value::Nil),
            Err(e) => Err(e),
        }),
    decreases fuel, *l, l@.len() - i,
{
    let ghost ls = crate::ast::deep_exprs(l@);
    if i >= l.len() {
        let out: Vec<Value> = Vec::new();
        proof {
            assert(crate::value::deep_vals(out@) =~= Seq::<SpecVal>::empty());
        }
        return Ok(out);
    }
    proof {
        crate::ast::lemma_exprs_wf_iff(ls, 0);
        assert(ls[i as int] == l@[i as int].deep());
        assert(ls[i as int].wf());
    }
    let v = match eval(&l[i], env, cur, fuel) {
        Ok(v) => v,
        Err(e) => {
            return Err(e);
        },
    };
    let ghost fmid = env.deep();
    let mut rest = match eval_args(l, i + 1, env, cur, fuel) {
        Ok(vs) => vs,
        Err(e) => {
            return Err(e);
        },
    };
    let ghost rest_view = rest@;
    rest.insert(0, v);
    proof {
        assert(crate::value::deep_vals(rest@) =~= seq![rest@[0].deep()]
            + crate::value::deep_vals(rest_view));
        crate::value::lemma_val_wf_monotone(
            rest@[0].deep(),
            fmid.len() as int,
            env.deep().len() as int,
        );
    }
    Ok(rest)
}

/// Short-circuit evaluation of `and`: once the first operand
/// evaluates to false, the whole form evaluates to false and no later
/// operand is evaluated — the remaining operands may be anything at
/// all, even unbound symbols.
pub proof fn lemma_and_short_circuit(
    fuel: nat,
    first: SpecExpr,
    rest: Seq<SpecExpr>,
    frames: Seq<crate::env::SpecFrame>,
    cur: int,
)
    requires
        rest.len() >= 1,
        spec_eval(fuel, first, frames, cur).0 == Ok::<_, SpecError>(SpecVal::Bool(false)),
    ensures
        spec_eval(
            fuel,
            SpecExpr::List(seq![SpecExpr::Symbol("and"@), first] + rest),
            frames,
            cur,
        ) == (
            Ok::<_, SpecError>(SpecVal::Bool(false)),
            spec_eval(fuel, first, frames, cur).1,
        ),
{
    reveal_strlit("and");
    reveal_strlit("define");
    reveal_strlit("lambda");
    let l = seq![SpecExpr::Symbol("and"@), first] + rest;
    let e = SpecExpr::List(l);
    assert(l[0] == SpecExpr::Symbol("and"@));
    assert(l[1] == first);
    assert(l.len() >= 3);
    assert("and"@.len() == 3 && "define"@.len() == 6 && "lambda"@.len() == 6);
    assert(!sym_is(l[0], "define"@));
    assert(!sym_is(l[0], "lambda"@));
    assert(sym_is(l[0], "and"@));
    assert(spec_eval(fuel, e, frames, cur) == spec_eval_and(fuel, e, l, 1, frames, cur));
    assert(spec_eval_and(fuel, e, l, 1, frames, cur) == (
        Ok::<_, SpecError>(SpecVal::Bool(false)),
        spec_eval(fuel, first, frames, cur).1,
    ));
}

/// Short-circuit evaluation of `or`: once the first operand evaluates
/// to true, the whole form evaluates to true and no later operand is
/// evaluated — the remaining operands may be anything at all, even
/// unbound symbols.
pub proof fn lemma_or_short_circuit(
    fuel: nat,
    first: SpecExpr,
    rest: Seq<SpecExpr>,
    frames: Seq<crate::env::SpecFrame>,
    cur: int,
)
    requires
        rest.len() >= 1,
        spec_eval(fuel, first, frames, cur).0 == Ok::<_, SpecError>(SpecVal::Bool(true)),
    ensures
        spec_eval(
            fuel,
            SpecExpr::List(seq![SpecExpr::Symbol("or"@), first] + rest),
            frames,
            cur,
        ) == (
            Ok::<_, SpecError>(SpecVal::Bool(true)),
            spec_eval(fuel, first, frames, cur).1,
        ),
{
    reveal_strlit("or");
    reveal_strlit("and");
    reveal_strlit("define");
    reveal_strlit("lambda");
    let l = seq![SpecExpr::Symbol("or"@), first] + rest;
    let e = SpecExpr::List(l);
    assert(l[0] == SpecExpr::Symbol("or"@));
    assert(l[1] == first);
    assert(l.len() >= 3);
    assert("or"@.len() == 2 && "and"@.len() == 3 && "define"@.len() == 6 && "lambda"@.len() == 6);
    assert(!sym_is(l[0], "define"@));
    assert(!sym_is(l[0], "lambda"@));
    assert(!sym_is(l[0], "and"@));
    assert(sym_is(l[0], "or"@));
    assert(spec_eval(fuel, e, frames, cur) == spec_eval_or(fuel, e, l, 1, frames, cur));
    assert(spec_eval_or(fuel, e, l, 1, frames, cur) == (
        Ok::<_, SpecError>(SpecVal::Bool(true)),
        spec_eval(fuel, first, frames, cur).1,
    ));
}

} // verus!
