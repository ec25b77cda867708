//! The patch pass: x86-64 forbids a two-operand instruction with both
//! operands in memory, so any such `movq`/`addq`/`subq` is expanded into
//! a pair routed through the scratch register `%rax`.

use crate::pxir::{
    instr_two_derefs, is_deref, Arg, Block, Instr, InstrV, Label, Program, Register,
};
use vstd::prelude::*;

verus! {

/// What one instruction becomes: a two-memory-operand `movq`, `addq` or
/// `subq` is routed through `%rax`; everything else passes through.
pub open spec fn patch_instr(i: InstrV) -> Seq<InstrV> {
    match i {
        InstrV::Movq(src, dst) => {
            if is_deref(src) && is_deref(dst) {
                seq![
                    InstrV::Movq(src, rax_arg()),
                    InstrV::Movq(rax_arg(), dst),
                ]
            } else {
                seq![i]
            }
        },
        InstrV::Addq(src, dst) => {
            if is_deref(src) && is_deref(dst) {
                seq![
                    InstrV::Movq(src, rax_arg()),
                    InstrV::Addq(rax_arg(), dst),
                ]
            } else {
                seq![i]
            }
        },
        InstrV::Subq(src, dst) => {
            if is_deref(src) && is_deref(dst) {
                seq![
                    InstrV::Movq(src, rax_arg()),
                    InstrV::Subq(rax_arg(), dst),
                ]
            } else {
                seq![i]
            }
        },
        _ => seq![i],
    }
}

/// The scratch register as an operand.
pub open spec fn rax_arg() -> crate::pxir::ArgV {
    crate::pxir::ArgV::Reg(Register::Rax)
}

/// A whole instruction sequence patched, in order.
pub open spec fn patch_instrs(s: Seq<InstrV>) -> Seq<InstrV>
    decreases s.len(),
{
    if s.len() == 0 {
        Seq::empty()
    } else {
        patch_instrs(s.drop_last()) + patch_instr(s.last())
    }
}

/// No instruction in a sequence has both operands in memory.
pub open spec fn no_two_derefs(s: Seq<InstrV>) -> bool {
    forall|j: int| 0 <= j < s.len() ==> !instr_two_derefs(#[trigger] s[j])
}

/// Law: after patch, no `addq`, `subq` or `movq` has two memory operands.
pub proof fn lemma_patch_no_two_derefs(s: Seq<InstrV>)
    ensures
        no_two_derefs(patch_instrs(s)),
    decreases s.len(),
{
    if s.len() > 0 {
        lemma_patch_no_two_derefs(s.drop_last());
        let pre = patch_instrs(s.drop_last());
        let post = patch_instr(s.last());
        assert(no_two_derefs(post));
        assert forall|j: int| 0 <= j < patch_instrs(s).len() implies !instr_two_derefs(
            patch_instrs(s)[j],
        ) by {
            if j < pre.len() {
                assert(patch_instrs(s)[j] == pre[j]);
            } else {
                assert(patch_instrs(s)[j] == post[j - pre.len()]);
            }
        }
    }
}

/// Patching writes no new variable operand: a variable-free sequence
/// stays variable-free.
pub proof fn lemma_patch_keeps_var_free(s: Seq<InstrV>)
    requires
        crate::pxir::assign_homes::instrs_var_free(s),
    ensures
        crate::pxir::assign_homes::instrs_var_free(patch_instrs(s)),
    decreases s.len(),
{
    if s.len() > 0 {
        assert(crate::pxir::assign_homes::instrs_var_free(s.drop_last())) by {
            assert(forall|j: int| 0 <= j < s.len() - 1 ==> s.drop_last()[j] == s[j]);
        }
        lemma_patch_keeps_var_free(s.drop_last());
        let pre = patch_instrs(s.drop_last());
        let post = patch_instr(s.last());
        assert(!crate::pxir::instr_mentions_var(s[s.len() - 1]));
        assert(crate::pxir::assign_homes::instrs_var_free(post));
        assert forall|j: int| 0 <= j < patch_instrs(s).len() implies !crate::pxir::instr_mentions_var(
            patch_instrs(s)[j],
        ) by {
            if j < pre.len() {
                assert(patch_instrs(s)[j] == pre[j]);
            } else {
                assert(patch_instrs(s)[j] == post[j - pre.len()]);
            }
        }
    }
}

/// Patching writes a subtraction only for a subtraction: a `subq`-free
/// sequence stays `subq`-free.
pub proof fn lemma_patch_keeps_subq_free(s: Seq<InstrV>)
    requires
        crate::pxir::instrs_subq_free(s),
    ensures
        crate::pxir::instrs_subq_free(patch_instrs(s)),
    decreases s.len(),
{
    if s.len() > 0 {
        assert(crate::pxir::instrs_subq_free(s.drop_last())) by {
            assert(forall|j: int| 0 <= j < s.len() - 1 ==> s.drop_last()[j] == s[j]);
        }
        lemma_patch_keeps_subq_free(s.drop_last());
        let pre = patch_instrs(s.drop_last());
        let post = patch_instr(s.last());
        assert(!crate::pxir::is_subq(s[s.len() - 1]));
        assert(crate::pxir::instrs_subq_free(post));
        assert forall|j: int| 0 <= j < patch_instrs(s).len() implies !crate::pxir::is_subq(
            patch_instrs(s)[j],
        ) by {
            if j < pre.len() {
                assert(patch_instrs(s)[j] == pre[j]);
            } else {
                assert(patch_instrs(s)[j] == post[j - pre.len()]);
            }
        }
    }
}

fn fold_instr(instr: Instr) -> (r: Vec<Instr>)
    ensures
        r@.map_values(|i: Instr| i@) == patch_instr(instr@),
{
    let ghost iv = instr@;
    let r = match instr {
        Instr::Movq { src, dst } => {
            if src.is_dref() && dst.is_dref() {
                vec![
                    Instr::movq(src, Arg::reg(Register::Rax)),
                    Instr::movq(Arg::reg(Register::Rax), dst),
                ]
            } else {
                vec![Instr::movq(src, dst)]
            }
        },
        Instr::Addq { src, dst } => {
            if src.is_dref() && dst.is_dref() {
                vec![
                    Instr::movq(src, Arg::reg(Register::Rax)),
                    Instr::addq(Arg::reg(Register::Rax), dst),
                ]
            } else {
                vec![Instr::addq(src, dst)]
            }
        },
        Instr::Subq { src, dst } => {
            if src.is_dref() && dst.is_dref() {
                vec![
                    Instr::movq(src, Arg::reg(Register::Rax)),
                    Instr::subq(Arg::reg(Register::Rax), dst),
                ]
            } else {
                vec![Instr::subq(src, dst)]
            }
        },
        _ => vec![instr],
    };
    proof {
        assert(r@.map_values(|i: Instr| i@) =~= patch_instr(iv));
    }
    r
}

/// Patches every instruction of the block; its recorded stack space is
/// kept.
pub fn fold_block(block: Block) -> (r: Block)
    ensures
        r.instrs_v() == patch_instrs(block.instrs_v()),
        r.info == block.info,
        no_two_derefs(r.instrs_v()),
{
    let ghost s = block.instrs_v();
    let mut instrs: Vec<Instr> = Vec::new();
    let mut rest = block.instrs;
    let n = rest.len();
    let mut i: usize = 0;
    proof {
        assert(s.take(0) =~= Seq::<InstrV>::empty());
        assert(instrs@.map_values(|ins: Instr| ins@) =~= patch_instrs(s.take(0)));
    }
    while i < n
        invariant
            i <= n,
            n == rest.len(),
            rest@.map_values(|ins: Instr| ins@) == s,
            instrs@.map_values(|ins: Instr| ins@) == patch_instrs(s.take(i as int)),
        decreases n - i,
    {
        let instr = rest[i].clone();
        let mut folded = fold_instr(instr);
        instrs.append(&mut folded);
        proof {
            assert(s.take(i + 1).drop_last() =~= s.take(i as int));
            assert(s.take(i + 1).last() == s[i as int]);
            assert(instrs@.map_values(|ins: Instr| ins@) =~= patch_instrs(s.take(i + 1)));
        }
        i = i + 1;
    }
    proof {
        assert(s.take(n as int) =~= s);
        lemma_patch_no_two_derefs(s);
    }
    Block { info: block.info, instrs }
}

/// Every block of the output: its instructions patched, its stack space
/// kept.
pub open spec fn patch_blocks(bs: Seq<(Seq<char>, (Seq<InstrV>, int))>) -> Seq<
    (Seq<char>, (Seq<InstrV>, int)),
> {
    bs.map_values(|p: (Seq<char>, (Seq<InstrV>, int))| (p.0, (patch_instrs(p.1.0), p.1.1)))
}

/// Patches every block of the program.
pub fn fold_program(program: Program) -> (r: Program)
    ensures
        r.blocks_v() == patch_blocks(program.blocks_v()),
        r.info == program.info,
        r.labels() == program.labels(),
{
    let ghost bs0 = program.blocks_v();
    let mut blocks: Vec<(Label, Block)> = Vec::new();
    let mut src_blocks = program.blocks;
    let n = src_blocks.len();
    let mut i: usize = 0;
    while i < n
        invariant
            i <= n,
            n == src_blocks.len(),
            src_blocks@.map_values(
                |p: (Label, Block)| (p.0@, (p.1.instrs_v(), p.1.info.stack_space as int)),
            ) == bs0,
            blocks@.map_values(
                |p: (Label, Block)| (p.0@, (p.1.instrs_v(), p.1.info.stack_space as int)),
            ) == patch_blocks(bs0.take(i as int)),
        decreases n - i,
    {
        let entry = &src_blocks[i];
        let label = entry.0.clone();
        let block = entry.1.clone();
        proof {
            assert(bs0[i as int].1.0 == block.instrs_v());
        }
        let block = fold_block(block);
        blocks.push((label, block));
        proof {
            assert(patch_blocks(bs0.take(i + 1)) =~= patch_blocks(bs0.take(i as int)).push(
                (bs0[i as int].0, (patch_instrs(bs0[i as int].1.0), bs0[i as int].1.1)),
            ));
            assert(blocks@.map_values(
                |p: (Label, Block)| (p.0@, (p.1.instrs_v(), p.1.info.stack_space as int)),
            ) =~= patch_blocks(bs0.take(i + 1)));
        }
        i = i + 1;
    }
    proof {
        assert(bs0.take(n as int) =~= bs0);
    }
    let r = Program { info: program.info, blocks };
    proof {
        assert(r.labels() =~= bs0.map_values(|p: (Seq<char>, (Seq<InstrV>, int))| p.0));
    }
    r
}

} // verus!
