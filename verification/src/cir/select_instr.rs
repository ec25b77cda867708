//! The select-instructions pass: maps each CIR tail to pseudo-x86
//! instructions. A `Ret` becomes "assign to `%rax`, then jump to the
//! conclusion label". When an operand of an addition or negation is the
//! same variable as the destination, the move is elided and the operation
//! runs in place; equality is by symbol value.

use crate::cir;
use crate::pxir;
use vstd::prelude::*;

verus! {

/// A sequence of instructions, abstracted.
pub open spec fn instrs_v(s: Seq<pxir::Instr>) -> Seq<pxir::InstrV> {
    s.map_values(|i: pxir::Instr| i@)
}

/// The PXIR operand for a CIR operand.
pub open spec fn select_arg(a: cir::ArgV) -> pxir::ArgV {
    match a {
        cir::ArgV::Int(i) => pxir::ArgV::Int(i),
        cir::ArgV::Var(s) => pxir::ArgV::Var(s),
    }
}

/// Whether operand `a` is the same variable as the destination `d`.
pub open spec fn var_match(a: pxir::ArgV, d: pxir::ArgV) -> bool {
    match (a, d) {
        (pxir::ArgV::Var(x), pxir::ArgV::Var(y)) => x == y,
        _ => false,
    }
}

/// Instructions that read one input value into `dst`.
pub open spec fn select_read(dst: pxir::ArgV) -> Seq<pxir::InstrV> {
    seq![
        pxir::InstrV::Callq("read_int"@),
        pxir::InstrV::Movq(pxir::ArgV::Reg(pxir::Register::Rax), dst),
    ]
}

/// Instructions that negate `op` into `dst`, in place when `op` already
/// is `dst`.
pub open spec fn select_neg(op: pxir::ArgV, dst: pxir::ArgV) -> Seq<pxir::InstrV> {
    if var_match(op, dst) {
        seq![pxir::InstrV::Negq(dst)]
    } else {
        seq![pxir::InstrV::Movq(op, dst), pxir::InstrV::Negq(dst)]
    }
}

/// Instructions that add `op1` and `op2` into `dst`, in place when either
/// operand already is `dst`.
pub open spec fn select_add(op1: pxir::ArgV, op2: pxir::ArgV, dst: pxir::ArgV) -> Seq<
    pxir::InstrV,
> {
    if var_match(op1, dst) {
        seq![pxir::InstrV::Addq(op2, dst)]
    } else if var_match(op2, dst) {
        seq![pxir::InstrV::Addq(op1, dst)]
    } else {
        seq![pxir::InstrV::Movq(op1, dst), pxir::InstrV::Addq(op2, dst)]
    }
}

/// Instructions that evaluate a CIR right-hand side into `dst`.
pub open spec fn select_expr(e: cir::ExprV, dst: pxir::ArgV) -> Seq<pxir::InstrV> {
    match e {
        cir::ExprV::Read => select_read(dst),
        cir::ExprV::Arg(a) => seq![pxir::InstrV::Movq(select_arg(a), dst)],
        cir::ExprV::Neg(a) => select_neg(select_arg(a), dst),
        cir::ExprV::Add(a1, a2) => select_add(select_arg(a1), select_arg(a2), dst),
    }
}

/// Instructions for one statement: evaluate its right-hand side into the
/// assigned variable.
pub open spec fn select_stmt(s: cir::StmtV) -> Seq<pxir::InstrV> {
    match s {
        cir::StmtV::Assign(sym, e) => select_expr(e, pxir::ArgV::Var(sym)),
    }
}

/// Instructions for a whole tail, returning by a jump to `concl`.
pub open spec fn select_tail(t: cir::TailV, concl: Seq<char>) -> Seq<pxir::InstrV>
    decreases t,
{
    match t {
        cir::TailV::Chain(stmt, rest) => select_stmt(stmt) + select_tail(*rest, concl),
        cir::TailV::Ret(e) => select_expr(e, pxir::ArgV::Reg(pxir::Register::Rax)).push(
            pxir::InstrV::Jumpq(concl),
        ),
    }
}

/// Every block of the output: the selected instructions of its tail, with
/// no stack space assigned yet.
pub open spec fn select_blocks(ts: Seq<(Seq<char>, cir::TailV)>) -> Seq<
    (Seq<char>, (Seq<pxir::InstrV>, int)),
> {
    ts.map_values(|p: (Seq<char>, cir::TailV)| (p.0, (select_tail(p.1, "conclusion"@), 0int)))
}

/// A statement selects to at most two instructions, and the return to at
/// most three instructions: at most two for the expression, plus the jump.
pub proof fn lemma_select_tail_len(t: cir::TailV, concl: Seq<char>)
    ensures
        select_tail(t, concl).len() <= 2 * cir::tail_stmts(t) + 3,
    decreases t,
{
    match t {
        cir::TailV::Chain(stmt, rest) => {
            lemma_select_tail_len(*rest, concl);
        },
        cir::TailV::Ret(_) => {},
    }
}

/// The selector never writes a subtraction: the expression language has
/// none, so any `subq` of a finished program comes from its frame code.
pub proof fn lemma_select_tail_no_subq(t: cir::TailV, concl: Seq<char>)
    ensures
        pxir::instrs_subq_free(select_tail(t, concl)),
    decreases t,
{
    match t {
        cir::TailV::Chain(stmt, rest) => {
            lemma_select_tail_no_subq(*rest, concl);
            let pre = select_stmt(stmt);
            let post = select_tail(*rest, concl);
            assert(pxir::instrs_subq_free(pre));
            assert forall|j: int| 0 <= j < select_tail(t, concl).len() implies !pxir::is_subq(
                select_tail(t, concl)[j],
            ) by {
                if j < pre.len() {
                    assert(select_tail(t, concl)[j] == pre[j]);
                } else {
                    assert(select_tail(t, concl)[j] == post[j - pre.len()]);
                }
            }
        },
        cir::TailV::Ret(_) => {},
    }
}

/// Folds the CIR argument into a PXIR argument.
fn fold_arg(arg: cir::Arg) -> (r: Box<pxir::Arg>)
    ensures
        r@ == select_arg(arg@),
{
    match arg {
        cir::Arg::Int(i) => pxir::Arg::imm(i),
        cir::Arg::Var(sym) => pxir::Arg::var(sym.value.as_str()),
    }
}

/// Decides whether `a` is the same variable as the destination `dst`.
fn args_var_match(a: &pxir::Arg, dst: &pxir::Arg) -> (r: bool)
    ensures
        r == var_match(a@, dst@),
{
    if let pxir::Arg::Var(a_sym) = a {
        if let pxir::Arg::Var(dst_sym) = dst {
            return a_sym.value == dst_sym.value;
        }
    }
    false
}

/// Creates PXIR instructions that read and assign the parsed input to the
/// destination.
fn read_instrs(dst: Box<pxir::Arg>) -> (r: Vec<pxir::Instr>)
    ensures
        instrs_v(r@) == select_read(dst@),
{
    let r = vec![
        pxir::Instr::callq("read_int"),
        pxir::Instr::movq(pxir::Arg::reg(pxir::Register::Rax), dst),
    ];
    proof {
        assert(instrs_v(r@) =~= select_read(dst@));
    }
    r
}

/// Creates PXIR instructions that assign the source argument to the
/// destination.
fn arg_move_instrs(src: Box<pxir::Arg>, dst: Box<pxir::Arg>) -> (r: Vec<pxir::Instr>)
    ensures
        instrs_v(r@) == seq![pxir::InstrV::Movq(src@, dst@)],
{
    let r = vec![pxir::Instr::movq(src, dst)];
    proof {
        assert(instrs_v(r@) =~= seq![pxir::InstrV::Movq(src@, dst@)]);
    }
    r
}

/// Creates PXIR instructions that negate the given operand and assign the
/// result to the destination.
fn neg_instrs(op: Box<pxir::Arg>, dst: Box<pxir::Arg>) -> (r: Vec<pxir::Instr>)
    ensures
        instrs_v(r@) == select_neg(op@, dst@),
{
    if args_var_match(&op, &dst) {
        let r = vec![pxir::Instr::negq(dst)];
        proof {
            assert(instrs_v(r@) =~= select_neg(op@, dst@));
        }
        r
    } else {
        let r = vec![pxir::Instr::movq(op, dst.clone()), pxir::Instr::negq(dst)];
        proof {
            assert(instrs_v(r@) =~= select_neg(op@, dst@));
        }
        r
    }
}

/// Creates PXIR instructions that add the given operands and assign the
/// result to the destination.
fn add_instrs(op1: Box<pxir::Arg>, op2: Box<pxir::Arg>, dst: Box<pxir::Arg>) -> (r: Vec<
    pxir::Instr,
>)
    ensures
        instrs_v(r@) == select_add(op1@, op2@, dst@),
{
    if args_var_match(&op1, &dst) {
        let r = vec![pxir::Instr::addq(op2, dst)];
        proof {
            assert(instrs_v(r@) =~= select_add(op1@, op2@, dst@));
        }
        r
    } else if args_var_match(&op2, &dst) {
        let r = vec![pxir::Instr::addq(op1, dst)];
        proof {
            assert(instrs_v(r@) =~= select_add(op1@, op2@, dst@));
        }
        r
    } else {
        let r = vec![pxir::Instr::movq(op1, dst.clone()), pxir::Instr::addq(op2, dst)];
        proof {
            assert(instrs_v(r@) =~= select_add(op1@, op2@, dst@));
        }
        r
    }
}

/// Creates PXIR instructions that evaluate the given expression and assign
/// the result to the destination.
pub fn expr_instrs(expr: cir::Expr, dst: Box<pxir::Arg>) -> (r: Vec<pxir::Instr>)
    ensures
        instrs_v(r@) == select_expr(expr@, dst@),
{
    match expr {
        cir::Expr::Read => read_instrs(dst),
        cir::Expr::Arg(arg) => {
            let arg = fold_arg(*arg);
            arg_move_instrs(arg, dst)
        },
        cir::Expr::Neg(op) => {
            let op = fold_arg(*op);
            neg_instrs(op, dst)
        },
        cir::Expr::Add(op1, op2) => {
            let op1 = fold_arg(*op1);
            let op2 = fold_arg(*op2);
            add_instrs(op1, op2, dst)
        },
    }
}

/// Folds the CIR statement into PXIR instructions.
fn fold_stmt(stmt: cir::Stmt) -> (r: Vec<pxir::Instr>)
    ensures
        instrs_v(r@) == select_stmt(stmt@),
{
    match stmt {
        cir::Stmt::Assign(dst_sym, expr) => {
            let dst = pxir::Arg::var(dst_sym.value.as_str());
            expr_instrs(*expr, dst)
        },
    }
}

/// Folds the CIR tail into PXIR instructions that return by jumping to the
/// given conclusion label.
pub fn fold_tail(tail: cir::Tail, conclusion_label: &str) -> (r: Vec<pxir::Instr>)
    ensures
        instrs_v(r@) == select_tail(tail@, conclusion_label@),
    decreases tail,
{
    match tail {
        cir::Tail::Chain(stmt, tail2) => {
            let mut instrs = fold_stmt(*stmt);
            let mut rest = fold_tail(*tail2, conclusion_label);
            instrs.append(&mut rest);
            proof {
                assert(instrs_v(instrs@) =~= select_tail(tail@, conclusion_label@));
            }
            instrs
        },
        cir::Tail::Ret(expr) => {
            let mut instrs = expr_instrs(*expr, pxir::Arg::reg(pxir::Register::Rax));
            instrs.push(pxir::Instr::jumpq(conclusion_label));
            proof {
                assert(instrs_v(instrs@) =~= select_tail(tail@, conclusion_label@));
            }
            instrs
        },
    }
}

/// Folds the CIR program into a PXIR program: each labeled tail becomes a
/// block of selected instructions jumping to the `conclusion` label.
pub fn fold_program(program: cir::Program) -> (r: pxir::Program)
    ensures
        r.blocks_v() == select_blocks(program.tails_v()),
        r.labels() == program.labels(),
{
    let mut blocks: Vec<(pxir::Label, pxir::Block)> = Vec::new();
    let mut tails = program.tails;
    let ghost tails0 = tails@.map_values(|p: (cir::Label, cir::Tail)| (p.0@, p.1@));
    let n = tails.len();
    let mut i: usize = 0;
    while i < n
        invariant
            i <= n,
            n == tails@.len(),
            tails@.map_values(|p: (cir::Label, cir::Tail)| (p.0@, p.1@)) == tails0,
            blocks@.map_values(
                |p: (pxir::Label, pxir::Block)| (p.0@, (p.1.instrs_v(), p.1.info.stack_space as int)),
            ) == select_blocks(tails0.take(i as int)),
        decreases n - i,
    {
        let entry = &tails[i];
        let label = pxir::Label { value: entry.0.clone().value };
        let tail = entry.1.clone();
        let instrs = fold_tail(tail, "conclusion");
        let block = pxir::Block::new(instrs);
        blocks.push((label, block));
        proof {
            assert(label@ == tails0[i as int].0);
            assert(block.instrs_v() =~= select_tail(tails0[i as int].1, "conclusion"@));
            assert(select_blocks(tails0.take(i + 1)) =~= select_blocks(tails0.take(i as int)).push(
                (tails0[i as int].0, (select_tail(tails0[i as int].1, "conclusion"@), 0int)),
            ));
            assert(blocks@.map_values(
                |p: (pxir::Label, pxir::Block)| (p.0@, (p.1.instrs_v(), p.1.info.stack_space as int)),
            ) =~= select_blocks(tails0.take(i + 1)));
        }
        i = i + 1;
    }
    let r = pxir::Program { info: pxir::ProgramInfo {}, blocks };
    proof {
        assert(tails0.take(n as int) =~= tails0);
        assert(r.blocks_v() =~= select_blocks(tails0));
        assert(r.labels() =~= tails0.map_values(|p: (Seq<char>, cir::TailV)| p.0));
    }
    r
}

} // verus!
