//! The syntax tree handed to the evaluator by the parser.

use crate::rat::{fits_i64, Rat};
use vstd::prelude::*;

verus! {

/// The mathematical shape of a syntax tree node.
#[verifier::ext_equal]
pub enum SpecExpr {
    Symbol(Seq<char>),
    Number { num: int, den: int },
    List(Seq<SpecExpr>),
}

impl SpecExpr {
    /// Every numeric literal in the tree is a well-formed 64-bit
    /// rational.
    pub open spec fn wf(self) -> bool
        decreases self, 0int,
    {
        match self {
            SpecExpr::Symbol(_) => true,
            SpecExpr::Number { num, den } => den >= 1 && fits_i64(num) && fits_i64(den),
            SpecExpr::List(l) => exprs_wf(l, 0),
        }
    }
}

/// Every node from position `i` on is well-formed.
pub open spec fn exprs_wf(s: Seq<SpecExpr>, i: int) -> bool
    decreases s, s.len() - i,
{
    if i < 0 || i >= s.len() {
        true
    } else {
        s[i].wf() && exprs_wf(s, i + 1)
    }
}

/// Walking the list checks exactly that every node from position `i`
/// on is well-formed.
pub proof fn lemma_exprs_wf_iff(s: Seq<SpecExpr>, i: int)
    requires
        0 <= i,
    ensures
        exprs_wf(s, i) <==> (forall|j: int| i <= j < s.len() ==> #[trigger] s[j].wf()),
    decreases s.len() - i,
{
    if i < s.len() {
        lemma_exprs_wf_iff(s, i + 1);
        if exprs_wf(s, i) {
            assert forall|j: int| i <= j < s.len() implies #[trigger] s[j].wf() by {
                if j == i {
                    assert(s[i].wf());
                }
            }
        }
        if forall|j: int| i <= j < s.len() ==> #[trigger] s[j].wf() {
            assert(s[i].wf());
            assert forall|j: int| i + 1 <= j < s.len() implies #[trigger] s[j].wf() by {}
            assert(exprs_wf(s, i + 1));
            assert(exprs_wf(s, i));
        }
    }
}

/// One parsed unit of source: an identifier, a numeric literal, or a
/// parenthesized list of nodes. Nodes are immutable once constructed.
#[derive(Debug)]
pub enum Expr {
    Symbol(String),
    Number(Rat),
    List(Vec<Expr>),
}

/// The mathematical shapes of a list of nodes.
pub open spec fn deep_exprs(s: Seq<Expr>) -> Seq<SpecExpr>
    decreases s,
{
    Seq::new(
        s.len(),
        |i: int|
            if 0 <= i < s.len() {
                s[i].deep()
            } else {
                SpecExpr::List(Seq::empty())
            },
    )
}

impl Expr {
    /// The mathematical shape this node denotes.
    pub open spec fn deep(&self) -> SpecExpr
        decreases self,
    {
        match self {
            Expr::Symbol(s) => SpecExpr::Symbol(s@),
            Expr::Number(r) => SpecExpr::Number { num: r.num as int, den: r.den as int },
            Expr::List(l) => SpecExpr::List(deep_exprs(l@)),
        }
    }

    /// Every numeric literal in the tree has a positive denominator.
    pub open spec fn wf(&self) -> bool {
        self.deep().wf()
    }
}

/// Duplicate the nodes of a list from position `start` on,
/// preserving their shapes.
pub fn clone_exprs_from(l: &Vec<Expr>, start: usize) -> (r: Vec<Expr>)
    requires
        start <= l@.len(),
    ensures
        r@.len() == l@.len() - start,
        forall|j: int|
            0 <= j < r@.len() ==> (#[trigger] r@[j].deep()) == l@[j + start].deep(),
    decreases *l,
{
    let mut copied: Vec<Expr> = Vec::new();
    let mut i: usize = start;
    while i < l.len()
        invariant
            start <= i <= l@.len(),
            copied@.len() == i - start,
            forall|j: int|
                0 <= j < copied@.len() ==> (#[trigger] copied@[j].deep()) == l@[j + start].deep(),
        decreases l@.len() - i,
    {
        copied.push(l[i].clone());
        i = i + 1;
    }
    copied
}

impl Clone for Expr {
    /// Duplicating a node preserves its shape; nodes never need
    /// identity, so a copy is as good as the original.
    #[verifier::loop_isolation(false)]
    fn clone(&self) -> (res: Self)
        ensures
            res.deep() == self.deep(),
        decreases self,
    {
        match self {
            Expr::Symbol(s) => Expr::Symbol(s.clone()),
            Expr::Number(r) => Expr::Number(*r),
            Expr::List(l) => {
                let copied = clone_exprs_from(l, 0);
                let res = Expr::List(copied);
                proof {
                    assert(res->List_0 == copied);
                    assert(res->List_0@.len() == l@.len());
                    assert(forall|j: int|
                        0 <= j < l@.len() ==> res->List_0@[j].deep() == l@[j].deep());
                    assert(res.deep() is List && self.deep() is List);
                    assert(res.deep()->List_0.len() == self.deep()->List_0.len());
                    assert(forall|j: int|
                        0 <= j < l@.len() ==> res.deep()->List_0[j] == res->List_0@[j].deep());
                    assert(forall|j: int|
                        0 <= j < l@.len() ==> self.deep()->List_0[j] == l@[j].deep());
                    assert(res.deep()->List_0 =~= self.deep()->List_0);
                    assert(res.deep() =~~= self.deep());
                }
                res
            },
        }
    }
}

} // verus!
