//! The runtime representation of every evaluation result.

use crate::ast::{clone_exprs_from, deep_exprs, exprs_wf, Expr, SpecExpr};
use crate::rat::{fits_i64, Rat};
use vstd::prelude::*;

verus! {

/// The primitive operation a builtin procedure performs. The builtin
/// library is a closed set, so the native implementations can be
/// dispatched over this tag.
#[derive(Clone, Copy, Debug, PartialEq, Eq, Structural)]
pub enum BuiltinOp {
    Add,
    Sub,
    Mul,
    Div,
    Lt,
    Le,
    Gt,
    Ge,
    NumEq,
    NumNe,
}

/// The kind of a runtime value, as named by type errors.
#[derive(Clone, Copy, Debug, PartialEq, Eq, Structural)]
pub enum ValueKind {
    Number,
    Bool,
    Function,
}

/// A user-defined procedure: parameter names, the body forms
/// (evaluated in order when the procedure is applied; the last one's
/// value is the call's value), and the frame (by index into the
/// environment store) captured at its definition site, plus the
/// declared name when the procedure was defined rather than written
/// as an anonymous lambda.
#[derive(Debug)]
pub struct UserFunction {
    pub params: Vec<String>,
    pub body: Vec<Expr>,
    pub env: usize,
    pub name: Option<String>,
}

/// A primitive procedure pre-registered in the root environment: its
/// display name and the operation it performs.
#[derive(Debug)]
pub struct BuiltinFunc {
    pub name: String,
    pub op: BuiltinOp,
}

/// A runtime value. Values are immutable; closures share their
/// captured environment frame with every later activation through the
/// frame index they carry.
#[derive(Debug)]
pub enum Value {
    Number(Rat),
    Bool(bool),
    BuiltinFunction(BuiltinFunc),
    Function(UserFunction),
    Nil,
}

/// The mathematical shape of a runtime value.
#[verifier::ext_equal]
#[allow(inconsistent_fields)]
pub enum SpecVal {
    Num { num: int, den: int },
    Bool(bool),
    Builtin { name: Seq<char>, op: BuiltinOp },
    Closure { params: Seq<Seq<char>>, body: Seq<SpecExpr>, env: int, name: Option<Seq<char>> },
    Nil,
}

impl SpecVal {
    /// Well-formedness against a store of `nframes` environment
    /// frames: numbers are 64-bit rationals with positive denominator,
    /// and a closure's captured frame exists in the store.
    pub open spec fn wf(self, nframes: int) -> bool {
        match self {
            SpecVal::Num { num, den } => den >= 1 && fits_i64(num) && fits_i64(den),
            SpecVal::Closure { params, body, env, name } => 0 <= env < nframes && exprs_wf(
                body,
                0,
            ),
            _ => true,
        }
    }
}

impl Value {
    /// The mathematical shape of this value.
    pub open spec fn deep(&self) -> SpecVal {
        match self {
            Value::Number(r) => SpecVal::Num { num: r.num as int, den: r.den as int },
            Value::Bool(b) => SpecVal::Bool(*b),
            Value::BuiltinFunction(bf) => SpecVal::Builtin { name: bf.name@, op: bf.op },
            Value::Function(uf) => SpecVal::Closure {
                params: uf.params.deep_view(),
                body: deep_exprs(uf.body@),
                env: uf.env as int,
                name: match uf.name {
                    Some(s) => Some(s@),
                    None => None,
                },
            },
            Value::Nil => SpecVal::Nil,
        }
    }
}

/// The mathematical shapes of a list of runtime values.
pub open spec fn deep_vals(s: Seq<Value>) -> Seq<SpecVal> {
    s.map_values(|v: Value| v.deep())
}

/// Value well-formedness only constrains a closure's captured frame
/// index from above, so it is kept by growing the store.
pub proof fn lemma_val_wf_monotone(v: SpecVal, n: int, m: int)
    requires
        v.wf(n),
        n <= m,
    ensures
        v.wf(m),
{
}

impl Clone for UserFunction {
    /// Duplicating a closure copies its parameter list and body and
    /// shares its captured environment frame.
    fn clone(&self) -> (res: Self)
        ensures
            res.params.deep_view() == self.params.deep_view(),
            deep_exprs(res.body@) == deep_exprs(self.body@),
            res.env == self.env,
            res.name == self.name,
    {
        let body = clone_exprs_from(&self.body, 0);
        proof {
            assert forall|j: int|
                0 <= j < body@.len() implies deep_exprs(body@)[j] == deep_exprs(self.body@)[j] by {
                assert(body@[j].deep() == self.body@[j].deep());
            }
            assert(deep_exprs(body@) =~= deep_exprs(self.body@));
        }
        UserFunction {
            params: self.params.clone(),
            body,
            env: self.env,
            name: match &self.name {
                Some(s) => Some(s.clone()),
                None => None,
            },
        }
    }
}

impl Clone for BuiltinFunc {
    /// Duplicating a builtin keeps its name and operation.
    fn clone(&self) -> (res: Self)
        ensures
            res.name == self.name,
            res.op == self.op,
    {
        BuiltinFunc { name: self.name.clone(), op: self.op }
    }
}

impl Clone for Value {
    /// Duplicating a value preserves its mathematical shape.
    fn clone(&self) -> (res: Self)
        ensures
            res.deep() == self.deep(),
    {
        match self {
            Value::Number(r) => Value::Number(*r),
            Value::Bool(b) => Value::Bool(*b),
            Value::BuiltinFunction(bf) => Value::BuiltinFunction(bf.clone()),
            Value::Function(uf) => Value::Function(uf.clone()),
            Value::Nil => Value::Nil,
        }
    }
}

} // verus!
