use eoc::cir;
use eoc::rir::explicate::fold_root_expr;
use eoc::rir::Expr;

#[test]
fn explicate_basic_add_and_neg() {
    let expr = Expr::let_bind(
        "v200000",
        Expr::neg(Expr::lit(10)),
        Expr::add(Expr::lit(52), Expr::var("v200000")),
    );
    let expected = cir::Tail::seq(
        cir::Stmt::assign("v200000", cir::Expr::neg(cir::Arg::imm(10))),
        cir::Tail::ret(cir::Expr::add(cir::Arg::imm(52), cir::Arg::var("v200000"))),
    );

    let actual = fold_root_expr(*expr);
    assert_eq!(actual, expected);
}

#[test]
fn explicate_nested_let_assigns() {
    let expr = Expr::let_bind(
        "y",
        Expr::let_bind(
            "x.1",
            Expr::lit(20),
            Expr::let_bind(
                "x.2",
                Expr::lit(22),
                Expr::add(Expr::var("x.1"), Expr::var("x.2")),
            ),
        ),
        Expr::var("y"),
    );
    let expected = cir::Tail::seq(
        cir::Stmt::assign("x.1", cir::Expr::arg(cir::Arg::imm(20))),
        cir::Tail::seq(
            cir::Stmt::assign("x.2", cir::Expr::arg(cir::Arg::imm(22))),
            cir::Tail::seq(
                cir::Stmt::assign(
                    "y",
                    cir::Expr::add(cir::Arg::var("x.1"), cir::Arg::var("x.2")),
                ),
                cir::Tail::ret(cir::Expr::arg(cir::Arg::var("y"))),
            ),
        ),
    );

    let actual = fold_root_expr(*expr);
    assert_eq!(actual, expected);
}

#[test]
fn let_assign_and_body() {
    let expr = Expr::let_bind(
        "y",
        Expr::let_bind(
            "x.1",
            Expr::lit(20),
            Expr::let_bind(
                "x.2",
                Expr::lit(22),
                Expr::add(Expr::var("x.1"), Expr::var("x.2")),
            ),
        ),
        Expr::var("y"),
    );

    let expected = cir::Tail::seq(
        cir::Stmt::assign("x.1", cir::Expr::arg(cir::Arg::imm(20))),
        cir::Tail::seq(
            cir::Stmt::assign("x.2", cir::Expr::arg(cir::Arg::imm(22))),
            cir::Tail::seq(
                cir::Stmt::assign(
                    "y",
                    cir::Expr::add(cir::Arg::var("x.1"), cir::Arg::var("x.2")),
                ),
                cir::Tail::ret(cir::Expr::arg(cir::Arg::var("y"))),
            ),
        ),
    );

    let actual = fold_root_expr(*expr);
    assert_eq!(actual, expected);
}
