use eoc::pxir::patch::fold_block;
use eoc::pxir::{Arg, Block, BlockInfo, Instr, Register};

#[test]
fn patch_basic_add_and_neg() {
    let instrs = vec![
        Instr::movq(Arg::imm(10), Arg::deref(Register::Rbp, -8)),
        Instr::negq(Arg::deref(Register::Rbp, -8)),
        Instr::movq(Arg::imm(52), Arg::reg(Register::Rax)),
        Instr::addq(Arg::deref(Register::Rbp, -8), Arg::reg(Register::Rax)),
        Instr::jumpq("basic_add_and_neg_conclusion"),
    ];
    let block = Block {
        info: BlockInfo { stack_space: 8 },
        instrs: instrs.clone(),
    };
    let expected_instrs = instrs;
    let actual = fold_block(block);
    assert_eq!(actual.instrs, expected_instrs);
    assert_eq!(actual.info.stack_space, 8);
}

#[test]
fn multiple_mem_args() {
    let instrs = vec![
        Instr::movq(Arg::imm(42), Arg::deref(Register::Rbp, -8)),
        Instr::movq(
            Arg::deref(Register::Rbp, -8),
            Arg::deref(Register::Rbp, -16),
        ),
        Instr::movq(Arg::deref(Register::Rbp, -16), Arg::reg(Register::Rax)),
    ];
    let block = Block {
        info: BlockInfo { stack_space: 16 },
        instrs,
    };
    let expected_instrs = vec![
        Instr::movq(Arg::imm(42), Arg::deref(Register::Rbp, -8)),
        Instr::movq(Arg::deref(Register::Rbp, -8), Arg::reg(Register::Rax)),
        Instr::movq(Arg::reg(Register::Rax), Arg::deref(Register::Rbp, -16)),
        Instr::movq(Arg::deref(Register::Rbp, -16), Arg::reg(Register::Rax)),
    ];
    let actual = fold_block(block);
    assert_eq!(actual.instrs, expected_instrs);
}

#[test]
fn patched_addq_through_scratch() {
    let instrs = vec![Instr::addq(
        Arg::deref(Register::Rbp, -8),
        Arg::deref(Register::Rbp, -16),
    )];
    let block = Block {
        info: BlockInfo { stack_space: 16 },
        instrs,
    };
    let expected_instrs = vec![
        Instr::movq(Arg::deref(Register::Rbp, -8), Arg::reg(Register::Rax)),
        Instr::addq(Arg::reg(Register::Rax), Arg::deref(Register::Rbp, -16)),
    ];
    let actual = fold_block(block);
    assert_eq!(actual.instrs, expected_instrs);
}
