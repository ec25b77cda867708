use eoc::cir::select_instr::fold_tail;
use eoc::cir::{Arg, Expr, Stmt, Tail};
use eoc::pxir;

#[test]
fn read() {
    let tail = Tail::seq(
        Stmt::assign("x", Expr::read()),
        Tail::ret(Expr::arg(Arg::var("x"))),
    );
    let expected = vec![
        pxir::Instr::callq("read_int"),
        pxir::Instr::movq(pxir::Arg::reg(pxir::Register::Rax), pxir::Arg::var("x")),
        pxir::Instr::movq(pxir::Arg::var("x"), pxir::Arg::reg(pxir::Register::Rax)),
        pxir::Instr::jumpq("read_conclusion"),
    ];
    let actual = fold_tail(*tail, "read_conclusion");
    assert_eq!(actual, expected);
}

#[test]
fn select_instr_basic_add_and_neg() {
    let tail = Tail::seq(
        Stmt::assign("v200000", Expr::neg(Arg::imm(10))),
        Tail::ret(Expr::add(Arg::imm(52), Arg::var("v200000"))),
    );
    let expected = vec![
        pxir::Instr::movq(pxir::Arg::imm(10), pxir::Arg::var("v200000")),
        pxir::Instr::negq(pxir::Arg::var("v200000")),
        pxir::Instr::movq(pxir::Arg::imm(52), pxir::Arg::reg(pxir::Register::Rax)),
        pxir::Instr::addq(
            pxir::Arg::var("v200000"),
            pxir::Arg::reg(pxir::Register::Rax),
        ),
        pxir::Instr::jumpq("basic_add_and_neg_conclusion"),
    ];
    let actual = fold_tail(*tail, "basic_add_and_neg_conclusion");
    assert_eq!(actual, expected);
}

#[test]
fn add() {
    let tail = Tail::seq(
        Stmt::assign("x.1", Expr::arg(Arg::imm(20))),
        Tail::seq(
            Stmt::assign("x.2", Expr::arg(Arg::imm(22))),
            Tail::seq(
                Stmt::assign("y", Expr::add(Arg::var("x.1"), Arg::var("x.2"))),
                Tail::ret(Expr::arg(Arg::var("y"))),
            ),
        ),
    );
    let expected = vec![
        pxir::Instr::movq(pxir::Arg::imm(20), pxir::Arg::var("x.1")),
        pxir::Instr::movq(pxir::Arg::imm(22), pxir::Arg::var("x.2")),
        pxir::Instr::movq(pxir::Arg::var("x.1"), pxir::Arg::var("y")),
        pxir::Instr::addq(pxir::Arg::var("x.2"), pxir::Arg::var("y")),
        pxir::Instr::movq(pxir::Arg::var("y"), pxir::Arg::reg(pxir::Register::Rax)),
        pxir::Instr::jumpq("add_conclusion"),
    ];
    let actual = fold_tail(*tail, "add_conclusion");
    assert_eq!(actual, expected);
}

#[test]
fn add_in_place_left_op() {
    let tail = Tail::seq(
        Stmt::assign("x", Expr::arg(Arg::imm(20))),
        Tail::seq(
            Stmt::assign("x", Expr::add(Arg::var("x"), Arg::imm(22))),
            Tail::ret(Expr::arg(Arg::var("x"))),
        ),
    );
    let expected = vec![
        pxir::Instr::movq(pxir::Arg::imm(20), pxir::Arg::var("x")),
        pxir::Instr::addq(pxir::Arg::imm(22), pxir::Arg::var("x")),
        pxir::Instr::movq(pxir::Arg::var("x"), pxir::Arg::reg(pxir::Register::Rax)),
        pxir::Instr::jumpq("add_in_place_left_op_conclusion"),
    ];
    let actual = fold_tail(*tail, "add_in_place_left_op_conclusion");
    assert_eq!(actual, expected);
}

#[test]
fn add_in_place_right_op() {
    let tail = Tail::seq(
        Stmt::assign("x", Expr::arg(Arg::imm(20))),
        Tail::seq(
            Stmt::assign("x", Expr::add(Arg::imm(22), Arg::var("x"))),
            Tail::ret(Expr::arg(Arg::var("x"))),
        ),
    );
    let expected = vec![
        pxir::Instr::movq(pxir::Arg::imm(20), pxir::Arg::var("x")),
        pxir::Instr::addq(pxir::Arg::imm(22), pxir::Arg::var("x")),
        pxir::Instr::movq(pxir::Arg::var("x"), pxir::Arg::reg(pxir::Register::Rax)),
        pxir::Instr::jumpq("add_in_place_right_op_conclusion"),
    ];
    let actual = fold_tail(*tail, "add_in_place_right_op_conclusion");
    assert_eq!(actual, expected);
}

#[test]
fn add_in_place_both_ops() {
    let tail = Tail::seq(
        Stmt::assign("x", Expr::arg(Arg::imm(20))),
        Tail::seq(
            Stmt::assign("x", Expr::add(Arg::var("x"), Arg::var("x"))),
            Tail::ret(Expr::arg(Arg::var("x"))),
        ),
    );
    let expected = vec![
        pxir::Instr::movq(pxir::Arg::imm(20), pxir::Arg::var("x")),
        pxir::Instr::addq(pxir::Arg::var("x"), pxir::Arg::var("x")),
        pxir::Instr::movq(pxir::Arg::var("x"), pxir::Arg::reg(pxir::Register::Rax)),
        pxir::Instr::jumpq("add_in_place_both_ops_conclusion"),
    ];
    let actual = fold_tail(*tail, "add_in_place_both_ops_conclusion");
    assert_eq!(actual, expected);
}

#[test]
fn neg() {
    let tail = Tail::seq(
        Stmt::assign("x", Expr::arg(Arg::imm(20))),
        Tail::seq(
            Stmt::assign("y", Expr::neg(Arg::var("x"))),
            Tail::ret(Expr::arg(Arg::var("y"))),
        ),
    );
    let expected = vec![
        pxir::Instr::movq(pxir::Arg::imm(20), pxir::Arg::var("x")),
        pxir::Instr::movq(pxir::Arg::var("x"), pxir::Arg::var("y")),
        pxir::Instr::negq(pxir::Arg::var("y")),
        pxir::Instr::movq(pxir::Arg::var("y"), pxir::Arg::reg(pxir::Register::Rax)),
        pxir::Instr::jumpq("neg_conclusion"),
    ];
    let actual = fold_tail(*tail, "neg_conclusion");
    assert_eq!(actual, expected);
}

#[test]
fn neg_in_place() {
    let tail = Tail::seq(
        Stmt::assign("x", Expr::arg(Arg::imm(20))),
        Tail::seq(
            Stmt::assign("x", Expr::neg(Arg::var("x"))),
            Tail::ret(Expr::arg(Arg::var("x"))),
        ),
    );
    let expected = vec![
        pxir::Instr::movq(pxir::Arg::imm(20), pxir::Arg::var("x")),
        pxir::Instr::negq(pxir::Arg::var("x")),
        pxir::Instr::movq(pxir::Arg::var("x"), pxir::Arg::reg(pxir::Register::Rax)),
        pxir::Instr::jumpq("neg_in_place_conclusion"),
    ];
    let actual = fold_tail(*tail, "neg_in_place_conclusion");
    assert_eq!(actual, expected);
}
