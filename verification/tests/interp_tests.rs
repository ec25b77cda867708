use eoc::rir::interp::{interp_expr, Env};
use eoc::rir::{Expr, Lit, Symbol};

#[test]
fn interp_constant_fold() {
    let expr = Expr::add(Expr::lit(52), Expr::neg(Expr::lit(10)));
    let env = Env::new();
    let inputs: Vec<i64> = vec![];
    let mut next: usize = 0;
    let r = interp_expr(&expr, &env, &inputs, &mut next);
    assert_eq!(r, Lit::Int(42));
    assert_eq!(next, 0);
}

#[test]
fn interp_shadowing_with_read() {
    let expr = Expr::let_bind(
        "my_var",
        Expr::lit(42),
        Expr::let_bind(
            "input",
            Expr::read(),
            Expr::let_bind(
                "my_var",
                Expr::add(Expr::var("my_var"), Expr::neg(Expr::var("input"))),
                Expr::var("my_var"),
            ),
        ),
    );
    let env = Env::new();
    let inputs: Vec<i64> = vec![10];
    let mut next: usize = 0;
    let r = interp_expr(&expr, &env, &inputs, &mut next);
    assert_eq!(r, Lit::Int(32));
    assert_eq!(next, 1);
}

#[test]
fn interp_reads_in_order() {
    let expr = Expr::add(Expr::read(), Expr::add(Expr::read(), Expr::neg(Expr::read())));
    let env = Env::new();
    let inputs: Vec<i64> = vec![100, 20, 3];
    let mut next: usize = 0;
    let r = interp_expr(&expr, &env, &inputs, &mut next);
    assert_eq!(r, Lit::Int(117));
    assert_eq!(next, 3);
}

#[test]
fn env_get_unbound_is_none() {
    let env = Env::new();
    assert_eq!(env.get(&Symbol::new("missing")), None);
}

#[test]
fn env_set_shadows_and_clone_is_independent() {
    let mut env = Env::new();
    env.set(Box::new(Symbol::new("x")), Lit::Int(1));
    let snapshot = env.shallow_clone();
    env.set(Box::new(Symbol::new("x")), Lit::Int(2));
    assert_eq!(env.get(&Symbol::new("x")), Some(Lit::Int(2)));
    assert_eq!(snapshot.get(&Symbol::new("x")), Some(Lit::Int(1)));
}
