//! The explicate pass: flattens the nested expression tree into a single
//! linear tail of assignments for the `start` label. It relies on
//! `arg_simplify` having made every operand of a negation or addition
//! atomic, so translating a compound expression needs no recursion on its
//! operands.

use crate::cir;
use crate::rir::{is_atomic, operands_atomic, Expr, ExprV, Lit, Program};
use vstd::prelude::*;

verus! {

/// The CIR operand for an atomic expression.
pub open spec fn to_cir_arg(e: ExprV) -> cir::ArgV {
    match e {
        ExprV::Int(i) => cir::ArgV::Int(i),
        ExprV::Var(s) => cir::ArgV::Var(s),
        _ => arbitrary(),
    }
}

/// The CIR right-hand side for a non-`let` expression whose operands are
/// atomic.
pub open spec fn to_cir_expr(e: ExprV) -> cir::ExprV {
    match e {
        ExprV::Read => cir::ExprV::Read,
        ExprV::Int(i) => cir::ExprV::Arg(cir::ArgV::Int(i)),
        ExprV::Neg(op) => cir::ExprV::Neg(to_cir_arg(*op)),
        ExprV::Add(op1, op2) => cir::ExprV::Add(to_cir_arg(*op1), to_cir_arg(*op2)),
        ExprV::Var(s) => cir::ExprV::Arg(cir::ArgV::Var(s)),
        ExprV::Let(_, _, _) => arbitrary(),
    }
}

/// Wraps a translated right-hand side in its continuation: return it, or
/// assign it and continue with the given tail.
pub open spec fn wrap_kont(ce: cir::ExprV, k: Option<(Seq<char>, cir::TailV)>) -> cir::TailV {
    match k {
        None => cir::TailV::Ret(ce),
        Some((s, t)) => cir::TailV::Chain(cir::StmtV::Assign(s, ce), Box::new(t)),
    }
}

/// The tail that assigns `e` to `s` and then continues with `t`.
pub open spec fn explicate_assign(s: Seq<char>, e: ExprV, t: cir::TailV) -> cir::TailV
    decreases e,
{
    match e {
        ExprV::Let(s2, assn, body) => explicate_assign(
            s2,
            *assn,
            explicate_body(*body, Some((s, t))),
        ),
        _ => cir::TailV::Chain(cir::StmtV::Assign(s, to_cir_expr(e)), Box::new(t)),
    }
}

/// The tail that evaluates `e` under the continuation `k`.
pub open spec fn explicate_body(e: ExprV, k: Option<(Seq<char>, cir::TailV)>) -> cir::TailV
    decreases e,
{
    match e {
        ExprV::Let(s2, assn, body) => explicate_assign(s2, *assn, explicate_body(*body, k)),
        _ => wrap_kont(to_cir_expr(e), k),
    }
}

/// The tail for a whole program: evaluate the root expression and return
/// its value.
pub open spec fn explicate_root(e: ExprV) -> cir::TailV {
    explicate_body(e, None)
}

/// How many statements a continuation contributes.
pub open spec fn kont_stmts(k: Option<(Seq<char>, cir::TailV)>) -> nat {
    match k {
        None => 0,
        Some((_, t)) => cir::tail_stmts(t),
    }
}

/// Explication adds at most one statement per node of the assigned
/// expression.
pub proof fn lemma_explicate_assign_stmts(s: Seq<char>, e: ExprV, t: cir::TailV)
    ensures
        cir::tail_stmts(explicate_assign(s, e, t)) <= crate::rir::expr_size(e) + cir::tail_stmts(
            t,
        ),
    decreases e,
{
    match e {
        ExprV::Let(s2, assn, body) => {
            lemma_explicate_body_stmts(*body, Some((s, t)));
            lemma_explicate_assign_stmts(s2, *assn, explicate_body(*body, Some((s, t))));
        },
        _ => {},
    }
}

/// Explication adds at most one statement per node of the expression.
pub proof fn lemma_explicate_body_stmts(e: ExprV, k: Option<(Seq<char>, cir::TailV)>)
    ensures
        cir::tail_stmts(explicate_body(e, k)) <= crate::rir::expr_size(e) + kont_stmts(k),
    decreases e,
{
    match e {
        ExprV::Let(s2, assn, body) => {
            lemma_explicate_body_stmts(*body, k);
            lemma_explicate_assign_stmts(s2, *assn, explicate_body(*body, k));
        },
        _ => {
            match k {
                None => {},
                Some((_, _)) => {},
            }
        },
    }
}

/// The ghost continuation an exec continuation stands for.
pub open spec fn kont_v(k: Option<(&str, Box<cir::Tail>)>) -> Option<(Seq<char>, cir::TailV)> {
    match k {
        None => None,
        Some((s, t)) => Some((s@, t@)),
    }
}

fn prepend_expr_to_tail(
    expr: Box<cir::Expr>,
    assign_to_with_tail: Option<(&str, Box<cir::Tail>)>,
) -> (r: Box<cir::Tail>)
    ensures
        r@ == wrap_kont(expr@, kont_v(assign_to_with_tail)),
{
    match assign_to_with_tail {
        None => cir::Tail::ret(expr),
        Some((assign_to, tail)) => cir::Tail::seq(cir::Stmt::assign(assign_to, expr), tail),
    }
}

fn fold_op(expr: Expr) -> (r: Box<cir::Arg>)
    requires
        is_atomic(expr@),
    ensures
        r@ == to_cir_arg(expr@),
{
    match expr {
        Expr::Lit(Lit::Int(i)) => cir::Arg::imm(i),
        Expr::Var(sym) => cir::Arg::var(sym.as_str()),
        _ => vstd::pervasive::unreached(),
    }
}

fn fold_let_assign(assign_to: &str, expr: Expr, tail: Box<cir::Tail>) -> (r: Box<cir::Tail>)
    requires
        operands_atomic(expr@),
    ensures
        r@ == explicate_assign(assign_to@, expr@, tail@),
    decreases expr,
{
    match expr {
        Expr::Read => {
            let assign_val = cir::Expr::read();
            cir::Tail::seq(cir::Stmt::assign(assign_to, assign_val), tail)
        },
        Expr::Lit(Lit::Int(i)) => {
            let assign_val = cir::Expr::arg(cir::Arg::imm(i));
            cir::Tail::seq(cir::Stmt::assign(assign_to, assign_val), tail)
        },
        Expr::Neg(op) => {
            let assign_val = cir::Expr::neg(fold_op(*op));
            cir::Tail::seq(cir::Stmt::assign(assign_to, assign_val), tail)
        },
        Expr::Add(op1, op2) => {
            let assign_val = cir::Expr::add(fold_op(*op1), fold_op(*op2));
            cir::Tail::seq(cir::Stmt::assign(assign_to, assign_val), tail)
        },
        Expr::Var(sym) => {
            let assign_val = cir::Expr::arg(cir::Arg::var(sym.as_str()));
            cir::Tail::seq(cir::Stmt::assign(assign_to, assign_val), tail)
        },
        Expr::Let(sym, assn, body) => {
            let tail_with_parent_assn = fold_let_body(*body, Some((assign_to, tail)));
            fold_let_assign(sym.as_str(), *assn, tail_with_parent_assn)
        },
    }
}

fn fold_let_body(expr: Expr, assign_to_with_tail: Option<(&str, Box<cir::Tail>)>) -> (r: Box<
    cir::Tail,
>)
    requires
        operands_atomic(expr@),
    ensures
        r@ == explicate_body(expr@, kont_v(assign_to_with_tail)),
    decreases expr,
{
    match expr {
        Expr::Read => {
            let c_expr = cir::Expr::read();
            prepend_expr_to_tail(c_expr, assign_to_with_tail)
        },
        Expr::Lit(Lit::Int(i)) => {
            let c_expr = cir::Expr::arg(cir::Arg::imm(i));
            prepend_expr_to_tail(c_expr, assign_to_with_tail)
        },
        Expr::Neg(op) => {
            let c_expr = cir::Expr::neg(fold_op(*op));
            prepend_expr_to_tail(c_expr, assign_to_with_tail)
        },
        Expr::Add(op1, op2) => {
            let c_expr = cir::Expr::add(fold_op(*op1), fold_op(*op2));
            prepend_expr_to_tail(c_expr, assign_to_with_tail)
        },
        Expr::Var(sym) => {
            let c_expr = cir::Expr::arg(cir::Arg::var(sym.as_str()));
            prepend_expr_to_tail(c_expr, assign_to_with_tail)
        },
        Expr::Let(sym, assn, body) => {
            let tail = fold_let_body(*body, assign_to_with_tail);
            fold_let_assign(sym.as_str(), *assn, tail)
        },
    }
}

/// Flattens a whole expression into the tail that computes it and returns
/// its value.
pub fn fold_root_expr(expr: Expr) -> (r: Box<cir::Tail>)
    requires
        operands_atomic(expr@),
    ensures
        r@ == explicate_root(expr@),
{
    fold_let_body(expr, None)
}

/// Flattens the program into a single tail bound to the `start` label.
pub fn fold_program(p: Program) -> (r: cir::Program)
    requires
        operands_atomic(p@),
    ensures
        r.tails_v() == seq![("start"@, explicate_root(p@))],
        r.info.symbols@ == Seq::<cir::Symbol>::empty(),
        r.labels_unique(),
{
    let start_proc = fold_root_expr(*p.expr);
    let mut tails: Vec<(cir::Label, cir::Tail)> = Vec::new();
    tails.push((cir::Label::new("start"), *start_proc));
    let r = cir::Program { info: cir::Info::new(), tails };
    proof {
        assert(r.tails_v() =~= seq![("start"@, explicate_root(p@))]);
        assert(r.labels() =~= seq!["start"@]);
    }
    r
}

} // verus!
