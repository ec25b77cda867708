use eoc::pxir::write::{arg_text, instr_text, write_block};
use eoc::pxir::{Arg, Block, BlockInfo, Instr, Label, Register};
use eoc::text::{i64_string, u64_string};

#[test]
fn decimal_rendering() {
    assert_eq!(u64_string(0), "0".to_string());
    assert_eq!(u64_string(42), "42".to_string());
    assert_eq!(u64_string(18446744073709551615), "18446744073709551615".to_string());
    assert_eq!(i64_string(0), "0".to_string());
    assert_eq!(i64_string(-8), "-8".to_string());
    assert_eq!(i64_string(-9223372036854775808), "-9223372036854775808".to_string());
    assert_eq!(i64_string(9223372036854775807), "9223372036854775807".to_string());
}

#[test]
fn operand_rendering() {
    assert_eq!(arg_text(&Arg::imm(42)), "$42".to_string());
    assert_eq!(arg_text(&Arg::reg(Register::Rax)), "%rax".to_string());
    assert_eq!(arg_text(&Arg::reg(Register::R13)), "%r13".to_string());
    assert_eq!(arg_text(&Arg::deref(Register::Rbp, -8)), "-8(%rbp)".to_string());
    assert_eq!(arg_text(&Arg::var("x.1")), "var<x.1>".to_string());
}

#[test]
fn instruction_rendering() {
    assert_eq!(
        instr_text(&Instr::movq(Arg::imm(10), Arg::deref(Register::Rbp, -8))),
        "movq $10, -8(%rbp)".to_string()
    );
    assert_eq!(
        instr_text(&Instr::addq(Arg::reg(Register::Rax), Arg::reg(Register::Rsp))),
        "addq %rax, %rsp".to_string()
    );
    assert_eq!(
        instr_text(&Instr::subq(Arg::imm(16), Arg::reg(Register::Rsp))),
        "subq $16, %rsp".to_string()
    );
    assert_eq!(instr_text(&Instr::negq(Arg::deref(Register::Rbp, -8))), "negq -8(%rbp)".to_string());
    assert_eq!(instr_text(&Instr::pushq(Arg::reg(Register::Rbp))), "pushq %rbp".to_string());
    assert_eq!(instr_text(&Instr::popq(Arg::reg(Register::Rbp))), "popq %rbp".to_string());
    assert_eq!(instr_text(&Instr::callq("read_int")), "callq read_int".to_string());
    assert_eq!(instr_text(&Instr::jumpq("conclusion")), "jmp conclusion".to_string());
    assert_eq!(instr_text(&Instr::retq()), "retq".to_string());
}

#[test]
fn write_block_layout() {
    let block = Block {
        info: BlockInfo { stack_space: 0 },
        instrs: vec![
            Instr::movq(Arg::imm(1), Arg::reg(Register::Rax)),
            Instr::retq(),
        ],
    };
    let label = Label::new("start");
    let mut out = String::new();
    write_block(&mut out, &label, &block);
    assert_eq!(out, "start:\n\tmovq $1, %rax\n\tretq\n".to_string());
}
