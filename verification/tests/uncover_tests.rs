use eoc::cir::uncover::fold_program;
use eoc::cir::{Arg, Expr, Info, Label, Program, Stmt, Symbol, Tail};

#[test]
fn uncover_basic_add_and_neg() {
    let expr = Tail::seq(
        Stmt::assign("v200000", Expr::neg(Arg::imm(10))),
        Tail::ret(Expr::add(Arg::imm(52), Arg::var("v200000"))),
    );
    let tails = vec![(Label::new("start"), *expr)];
    let program = Program { info: Info::new(), tails };
    let program = fold_program(program);

    let expected_symbols = vec![Symbol::new("v200000")];
    assert_eq!(program.info.symbols, expected_symbols);
}

#[test]
fn basic_add() {
    let expr = Tail::seq(
        Stmt::assign("x.1", Expr::arg(Arg::imm(20))),
        Tail::seq(
            Stmt::assign("x.2", Expr::arg(Arg::imm(22))),
            Tail::seq(
                Stmt::assign("y", Expr::add(Arg::var("x.1"), Arg::var("x.2"))),
                Tail::ret(Expr::arg(Arg::var("y"))),
            ),
        ),
    );
    let tails = vec![(Label::new("start"), *expr)];
    let program = Program { info: Info::new(), tails };
    let program = fold_program(program);

    let expected_symbols = vec![Symbol::new("x.1"), Symbol::new("x.2"), Symbol::new("y")];
    assert_eq!(program.info.symbols, expected_symbols);
}

#[test]
fn reassigned_symbol_collected_once() {
    let expr = Tail::seq(
        Stmt::assign("x", Expr::arg(Arg::imm(20))),
        Tail::seq(
            Stmt::assign("x", Expr::add(Arg::var("x"), Arg::imm(22))),
            Tail::ret(Expr::arg(Arg::var("x"))),
        ),
    );
    let tails = vec![(Label::new("start"), *expr)];
    let program = Program { info: Info::new(), tails };
    let program = fold_program(program);

    assert_eq!(program.info.symbols, vec![Symbol::new("x")]);
}
