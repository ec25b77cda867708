use eoc::rir::arg_simplify::ExprArgSimplifier;
use eoc::rir::Expr;

#[test]
fn already_simplified() {
    let expr = Expr::let_bind(
        "foo",
        Expr::let_bind(
            "bar",
            Expr::lit(10),
            Expr::add(Expr::lit(20), Expr::var("bar")),
        ),
        Expr::neg(Expr::var("foo")),
    );

    let mut ctx = ExprArgSimplifier::new(200_000);
    let actual = ctx.fold(expr.clone());
    assert_eq!(actual, expr);
}

#[test]
fn simplify_neg_arg() {
    let expr = Expr::neg(Expr::read());
    let expected = Expr::let_bind("v200000", Expr::read(), Expr::neg(Expr::var("v200000")));

    let mut ctx = ExprArgSimplifier::new(200_000);
    let actual = ctx.fold(expr);
    assert_eq!(actual, expected);
}

#[test]
fn simplify_add_args() {
    let expr = Expr::add(
        Expr::add(Expr::lit(1), Expr::lit(2)),
        Expr::add(
            Expr::add(Expr::lit(3), Expr::read()),
            Expr::add(Expr::read(), Expr::lit(4)),
        ),
    );

    let expected = Expr::let_bind(
        "v200000",
        Expr::add(Expr::lit(1), Expr::lit(2)),
        Expr::let_bind(
            "v200001",
            Expr::let_bind(
                "v200002",
                Expr::let_bind(
                    "v200003",
                    Expr::read(),
                    Expr::add(Expr::lit(3), Expr::var("v200003")),
                ),
                Expr::let_bind(
                    "v200004",
                    Expr::let_bind(
                        "v200005",
                        Expr::read(),
                        Expr::add(Expr::var("v200005"), Expr::lit(4)),
                    ),
                    Expr::add(Expr::var("v200002"), Expr::var("v200004")),
                ),
            ),
            Expr::add(Expr::var("v200000"), Expr::var("v200001")),
        ),
    );

    let mut ctx = ExprArgSimplifier::new(200_000);
    let actual = ctx.fold(expr);
    assert_eq!(actual, expected);
}

#[test]
fn new_sym_name_counts_up() {
    let mut ctx = ExprArgSimplifier::new(200_000);
    let n1 = ctx.new_sym_name();
    let n2 = ctx.new_sym_name();
    assert_eq!(n1, "v200000".to_string());
    assert_eq!(n2, "v200001".to_string());
    assert_eq!(ctx.counter, 200_002);
}
