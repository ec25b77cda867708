use eoc::pxir::uncover_live::uncover_live;
use eoc::pxir::{Arg, Block, BlockInfo, Instr, Register, Symbol};
use std::collections::HashSet;

fn symbol_set(names: Vec<&str>) -> HashSet<Symbol> {
    names.iter().map(|s| Symbol::new(s)).collect()
}

fn as_sets(lists: Vec<Vec<Symbol>>) -> Vec<HashSet<Symbol>> {
    lists.into_iter().map(|v| v.into_iter().collect()).collect()
}

#[test]
fn simple() {
    let instrs = vec![
        Instr::movq(Arg::imm(1), Arg::var("v")),
        Instr::movq(Arg::imm(46), Arg::var("w")),
        Instr::movq(Arg::var("v"), Arg::var("x")),
        Instr::addq(Arg::imm(7), Arg::var("x")),
        Instr::movq(Arg::var("x"), Arg::var("y")),
        Instr::addq(Arg::imm(4), Arg::var("y")),
        Instr::movq(Arg::var("x"), Arg::var("z")),
        Instr::addq(Arg::var("w"), Arg::var("z")),
        Instr::movq(Arg::var("y"), Arg::var("t.1")),
        Instr::negq(Arg::var("t.1")),
        Instr::movq(Arg::var("z"), Arg::reg(Register::Rax)),
        Instr::addq(Arg::var("t.1"), Arg::reg(Register::Rax)),
        Instr::jumpq("conclusion"),
    ];
    let block = Block {
        info: BlockInfo { stack_space: 48 },
        instrs,
    };
    let expected = vec![
        symbol_set(vec![]),
        symbol_set(vec!["v"]),
        symbol_set(vec!["v", "w"]),
        symbol_set(vec!["w", "x"]),
        symbol_set(vec!["w", "x"]),
        symbol_set(vec!["w", "x", "y"]),
        symbol_set(vec!["w", "x", "y"]),
        symbol_set(vec!["w", "y", "z"]),
        symbol_set(vec!["y", "z"]),
        symbol_set(vec!["z", "t.1"]),
        symbol_set(vec!["z", "t.1"]),
        symbol_set(vec!["t.1"]),
        symbol_set(vec![]),
        symbol_set(vec![]),
    ];
    let actual = as_sets(uncover_live(&block));
    assert_eq!(actual, expected);
}
