use eoc::driver::drive;
use eoc::rir::Expr;

#[test]
fn constant_fold_end_to_end() {
    let expr = Expr::add(Expr::lit(52), Expr::neg(Expr::lit(10)));
    let out = drive(*expr);
    let expected = "start:\n\tmovq $10, -8(%rbp)\n\tnegq -8(%rbp)\n\tmovq $52, %rax\n\taddq -8(%rbp), %rax\n\tjmp conclusion\n\n\t.globl main\nmain:\n\tpushq %rbp\n\tmovq %rsp, %rbp\n\tsubq $16, %rsp\n\tjmp start\nconclusion:\n\taddq $16, %rsp\n\tpopq %rbp\n\tretq\n";
    assert_eq!(out, expected);
}

#[test]
fn nested_lets_end_to_end() {
    let expr = Expr::let_bind(
        "y",
        Expr::let_bind(
            "x.1",
            Expr::lit(20),
            Expr::let_bind(
                "x.2",
                Expr::lit(22),
                Expr::add(Expr::var("x.1"), Expr::var("x.2")),
            ),
        ),
        Expr::var("y"),
    );
    let out = drive(*expr);
    let expected = "start:\n\tmovq $20, -8(%rbp)\n\tmovq $22, -16(%rbp)\n\tmovq -8(%rbp), %rax\n\tmovq %rax, -24(%rbp)\n\tmovq -16(%rbp), %rax\n\taddq %rax, -24(%rbp)\n\tmovq -24(%rbp), %rax\n\tjmp conclusion\n\n\t.globl main\nmain:\n\tpushq %rbp\n\tmovq %rsp, %rbp\n\tsubq $32, %rsp\n\tjmp start\nconclusion:\n\taddq $32, %rsp\n\tpopq %rbp\n\tretq\n";
    assert_eq!(out, expected);
}

#[test]
fn read_program_calls_runtime() {
    let expr = Expr::let_bind(
        "my_var",
        Expr::lit(42),
        Expr::let_bind(
            "input",
            Expr::read(),
            Expr::let_bind(
                "my_var",
                Expr::add(Expr::var("my_var"), Expr::neg(Expr::var("input"))),
                Expr::var("my_var"),
            ),
        ),
    );
    let out = drive(*expr);
    assert!(out.contains("callq read_int\n"));
    assert!(out.contains("\t.globl main\n"));
    assert!(out.contains("jmp conclusion\n"));
    assert!(out.starts_with("start:\n"));
}

#[test]
fn stack_space_is_16_byte_aligned() {
    let one_var = Expr::let_bind("x", Expr::lit(1), Expr::var("x"));
    let out = drive(*one_var);
    assert!(out.contains("subq $16, %rsp"));

    let two_vars = Expr::let_bind(
        "x",
        Expr::lit(1),
        Expr::let_bind("y", Expr::lit(2), Expr::add(Expr::var("x"), Expr::var("y"))),
    );
    let out = drive(*two_vars);
    assert!(out.contains("subq $16, %rsp"));

    let no_vars = Expr::lit(5);
    let out = drive(*no_vars);
    assert!(out.contains("subq $0, %rsp"));
}
