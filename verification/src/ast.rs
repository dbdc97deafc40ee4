//! The expression tree the parser produces, and its mathematical model.

use vstd::prelude::*;

verus! {

/// A binary operation: two child expressions joined by an operator,
/// carried as the operator character's code.
#[derive(Debug, PartialEq, Eq)]
pub struct BinExpr {
    pub lhs: Expr,
    pub op: i32,
    pub rhs: Expr,
}

/// A function call: a callee name and its arguments in positional order.
#[derive(Debug, PartialEq, Eq)]
pub struct CallExpr {
    pub name: String,
    pub args: Vec<Expr>,
}

/// One expression. `Null` is the sentinel for "no expression produced":
/// the primary dispatcher returns it, without consuming anything, for a
/// leading token that starts no expression, and leaves the decision of
/// whether that is an error to its caller.
#[derive(Debug, PartialEq, Eq)]
pub enum Expr {
    Str(String),
    Int(i32),
    Bool(bool),
    Var(String),
    Bin(Box<BinExpr>),
    Call(Box<CallExpr>),
    Null,
}

/// Mathematical model of an expression tree: text becomes character
/// sequences, argument vectors become sequences, and the operator code
/// widens to a mathematical integer.
pub ghost enum ExprV {
    Str(Seq<char>),
    Int(i32),
    Bool(bool),
    Var(Seq<char>),
    Bin(Box<ExprV>, int, Box<ExprV>),
    Call(Seq<char>, Seq<ExprV>),
    Null,
}

/// The model of an expression.
pub open spec fn expr_view(e: Expr) -> ExprV
    decreases e, 0int,
    via expr_view_decreases
{
    match e {
        Expr::Str(s) => ExprV::Str(s@),
        Expr::Int(v) => ExprV::Int(v),
        Expr::Bool(b) => ExprV::Bool(b),
        Expr::Var(s) => ExprV::Var(s@),
        Expr::Bin(b) => ExprV::Bin(
            Box::new(expr_view(b.lhs)),
            b.op as int,
            Box::new(expr_view(b.rhs)),
        ),
        Expr::Call(c) => ExprV::Call(c.name@, exprs_view(c.args@)),
        Expr::Null => ExprV::Null,
    }
}

/// The models of a sequence of expressions, in order.
pub open spec fn exprs_view(es: Seq<Expr>) -> Seq<ExprV>
    decreases es, 1int,
    via exprs_view_decreases
{
    if es.len() == 0 {
        Seq::empty()
    } else {
        seq![expr_view(es[0])] + exprs_view(es.subrange(1, es.len() as int))
    }
}

#[via_fn]
proof fn expr_view_decreases(e: Expr) {
    match e {
        Expr::Call(c) => {
            vstd::std_specs::vec::axiom_vec_decreases_to_view(c.args);
            assert(decreases_to!(e => c.args));
        },
        _ => {},
    }
}

#[via_fn]
proof fn exprs_view_decreases(es: Seq<Expr>) {
    if es.len() > 0 {
        vstd::seq::axiom_seq_index_decreases(es, 0);
        vstd::seq::axiom_seq_subrange_decreases(es, 1, es.len() as int);
    }
}

impl View for Expr {
    type V = ExprV;

    open spec fn view(&self) -> ExprV {
        expr_view(*self)
    }
}

/// A sequence of expressions and its model have the same length.
pub proof fn lemma_exprs_view_len(es: Seq<Expr>)
    ensures
        exprs_view(es).len() == es.len(),
    decreases es.len(),
{
    if es.len() > 0 {
        lemma_exprs_view_len(es.subrange(1, es.len() as int));
    }
}

/// The model of a sequence of expressions holds, at each index, the model
/// of the expression there.
pub proof fn lemma_exprs_view_index(es: Seq<Expr>, i: int)
    requires
        0 <= i < es.len(),
    ensures
        exprs_view(es).len() == es.len(),
        exprs_view(es)[i] == expr_view(es[i]),
    decreases i,
{
    lemma_exprs_view_len(es);
    if i > 0 {
        lemma_exprs_view_index(es.subrange(1, es.len() as int), i - 1);
    }
}

/// Appending an expression to a sequence appends its model to the
/// sequence's model.
pub proof fn lemma_exprs_view_push(es: Seq<Expr>, e: Expr)
    ensures
        exprs_view(es.push(e)) == exprs_view(es).push(expr_view(e)),
    decreases es.len(),
{
    let s2 = es.push(e);
    if es.len() == 0 {
        assert(s2.subrange(1, 1) =~= Seq::<Expr>::empty());
        assert(exprs_view(s2) =~= exprs_view(es).push(expr_view(e)));
    } else {
        assert(s2[0] == es[0]);
        assert(s2.subrange(1, s2.len() as int) =~= es.subrange(1, es.len() as int).push(e));
        lemma_exprs_view_push(es.subrange(1, es.len() as int), e);
        assert(exprs_view(s2) == seq![expr_view(s2[0])] + exprs_view(
            s2.subrange(1, s2.len() as int),
        ));
        assert(exprs_view(s2) =~= exprs_view(es).push(expr_view(e)));
    }
}

impl BinExpr {
    /// A binary node over the given children and operator code.
    pub fn new(lhs: Expr, op: i32, rhs: Expr) -> (r: Self)
        ensures
            r.lhs@ == lhs@,
            r.op == op,
            r.rhs@ == rhs@,
    {
        Self { lhs, op, rhs }
    }
}

impl CallExpr {
    /// A call node over the given callee name and arguments.
    pub fn new(name: String, args: Vec<Expr>) -> (r: Self)
        ensures
            r.name@ == name@,
            r.args@ == args@,
    {
        CallExpr { name, args }
    }
}

} // verus!
