use eoc::pxir::assign_homes::fold_block;
use eoc::pxir::{Arg, Block, BlockInfo, Instr, Register};

#[test]
fn assign_homes_basic_add_and_neg() {
    let instrs = vec![
        Instr::movq(Arg::imm(10), Arg::var("v200000")),
        Instr::negq(Arg::var("v200000")),
        Instr::movq(Arg::imm(52), Arg::reg(Register::Rax)),
        Instr::addq(Arg::var("v200000"), Arg::reg(Register::Rax)),
        Instr::jumpq("basic_add_and_neg_conclusion"),
    ];
    let block = Block { info: BlockInfo::new(), instrs };
    let expected_instrs = vec![
        Instr::movq(Arg::imm(10), Arg::deref(Register::Rbp, -8)),
        Instr::negq(Arg::deref(Register::Rbp, -8)),
        Instr::movq(Arg::imm(52), Arg::reg(Register::Rax)),
        Instr::addq(Arg::deref(Register::Rbp, -8), Arg::reg(Register::Rax)),
        Instr::jumpq("basic_add_and_neg_conclusion"),
    ];
    let actual = fold_block(block);
    assert_eq!(actual.instrs, expected_instrs);
    assert_eq!(actual.info.stack_space, 8);
}

#[test]
fn push_and_pop_get_homes() {
    let instrs = vec![
        Instr::pushq(Arg::var("x")),
        Instr::popq(Arg::var("y")),
        Instr::pushq(Arg::reg(Register::Rbp)),
    ];
    let block = Block { info: BlockInfo::new(), instrs };
    let expected_instrs = vec![
        Instr::pushq(Arg::deref(Register::Rbp, -8)),
        Instr::popq(Arg::deref(Register::Rbp, -16)),
        Instr::pushq(Arg::reg(Register::Rbp)),
    ];
    let actual = fold_block(block);
    assert_eq!(actual.instrs, expected_instrs);
    assert_eq!(actual.info.stack_space, 16);
}

#[test]
fn moves_and_neg() {
    let instrs = vec![
        Instr::movq(Arg::imm(10), Arg::var("x.1")),
        Instr::negq(Arg::var("x.1")),
        Instr::movq(Arg::var("x.1"), Arg::var("x.2")),
        Instr::movq(Arg::imm(52), Arg::var("x.2")),
        Instr::movq(Arg::var("x.2"), Arg::reg(Register::Rax)),
    ];
    let block = Block { info: BlockInfo::new(), instrs };
    let expected_instrs = vec![
        Instr::movq(Arg::imm(10), Arg::deref(Register::Rbp, -8)),
        Instr::negq(Arg::deref(Register::Rbp, -8)),
        Instr::movq(
            Arg::deref(Register::Rbp, -8),
            Arg::deref(Register::Rbp, -16),
        ),
        Instr::movq(Arg::imm(52), Arg::deref(Register::Rbp, -16)),
        Instr::movq(Arg::deref(Register::Rbp, -16), Arg::reg(Register::Rax)),
    ];
    let actual = fold_block(block);
    assert_eq!(actual.instrs, expected_instrs);
    assert_eq!(actual.info.stack_space, 16);
}
