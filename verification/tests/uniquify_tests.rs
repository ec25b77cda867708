use eoc::rir::uniquify::ExprUniquifier;
use eoc::rir::Expr;

#[test]
fn uniquify() {
    let expr = Expr::let_bind(
        "my_var",
        Expr::lit(42),
        Expr::let_bind(
            "input",
            Expr::read(),
            Expr::let_bind(
                "my_var",
                Expr::add(Expr::var("my_var"), Expr::neg(Expr::var("input"))),
                Expr::var("my_var"),
            ),
        ),
    );
    let expected = Expr::let_bind(
        "v12345",
        Expr::lit(42),
        Expr::let_bind(
            "v12346",
            Expr::read(),
            Expr::let_bind(
                "v12347",
                Expr::add(Expr::var("v12345"), Expr::neg(Expr::var("v12346"))),
                Expr::var("v12347"),
            ),
        ),
    );
    let mut ctx = ExprUniquifier::new(12345);
    let actual = ctx.fold(expr);
    assert_eq!(actual, expected);
}

#[test]
fn uniquify_shadowed_vars() {
    let expr = Expr::let_bind(
        "my_var",
        Expr::lit(42),
        Expr::let_bind(
            "input",
            Expr::read(),
            Expr::let_bind(
                "my_var",
                Expr::add(Expr::var("my_var"), Expr::neg(Expr::var("input"))),
                Expr::var("my_var"),
            ),
        ),
    );
    let expected = Expr::let_bind(
        "v12345",
        Expr::lit(42),
        Expr::let_bind(
            "v12346",
            Expr::read(),
            Expr::let_bind(
                "v12347",
                Expr::add(Expr::var("v12345"), Expr::neg(Expr::var("v12346"))),
                Expr::var("v12347"),
            ),
        ),
    );
    let mut ctx = ExprUniquifier::new(12345);
    let actual = ctx.fold(expr);
    assert_eq!(actual, expected);
}

#[test]
fn no_vars() {
    let expr = Expr::add(Expr::lit(52), Expr::neg(Expr::lit(10)));
    let expected = expr.clone();
    let mut ctx = ExprUniquifier::new(12345);
    let actual = ctx.fold(expr);
    assert_eq!(actual, expected);
}

#[test]
fn uniquify_twice_is_once() {
    let expr = Expr::let_bind(
        "a",
        Expr::lit(1),
        Expr::let_bind("b", Expr::var("a"), Expr::add(Expr::var("a"), Expr::var("b"))),
    );
    let mut ctx1 = ExprUniquifier::new(12345);
    let once = ctx1.fold(expr);
    let mut ctx2 = ExprUniquifier::new(12345);
    let twice = ctx2.fold(once.clone());
    assert_eq!(twice, once);
    assert_eq!(ctx1.counter, ctx2.counter);
}

#[test]
fn new_sym_counts_up() {
    let mut ctx = ExprUniquifier::new(7);
    let s1 = ctx.new_sym();
    let s2 = ctx.new_sym();
    assert_eq!(*s1, eoc::rir::Symbol::new("v7"));
    assert_eq!(*s2, eoc::rir::Symbol::new("v8"));
    assert_eq!(ctx.counter, 9);
}
