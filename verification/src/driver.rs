//! The driver: threads a source expression through every pass and frames
//! the resulting `start` block with a `main` prologue and a `conclusion`
//! epilogue, yielding the final assembly text.

use crate::cir;
use crate::pxir;
use crate::pxir::assign_homes::{home_instrs, init_homes, lemma_home_instrs_stack};
use crate::pxir::patch::patch_instrs;
use crate::pxir::write::{block_str, write_block};
use crate::rir;
use crate::rir::arg_simplify::{
    lemma_mints_le_size, lemma_simplify_atomic, lemma_simplify_size, simplify_expr,
};
use crate::rir::explicate::{explicate_root, lemma_explicate_body_stmts};
use crate::rir::uniquify::{lemma_uniquify_counter, lemma_uniquify_size, uniquify_expr};
use crate::cir::select_instr::{lemma_select_tail_len, select_tail};
use crate::rir::{expr_size, lemma_n_lets_le_size, well_scoped};
use vstd::prelude::*;

verus! {

/// The largest source tree the driver accepts; it keeps the fresh-name
/// counter and the stack-space counter far from their machine limits.
pub open spec fn drive_max_size() -> int {
    0x1000_0000
}

/// The stack size rounded up to the next multiple of 16: the System-V ABI
/// requires 16-byte stack alignment at call sites.
pub open spec fn adjusted(stack: int) -> int {
    if stack % 16 == 0 {
        stack
    } else {
        stack + 8
    }
}

/// The instructions of the `main` prologue: save the frame pointer, set
/// up the frame, reserve the stack, and jump to the program's code.
pub open spec fn main_instrs(stack: i64, jump_to: Seq<char>) -> Seq<pxir::InstrV> {
    seq![
        pxir::InstrV::Pushq(pxir::ArgV::Reg(pxir::Register::Rbp)),
        pxir::InstrV::Movq(
            pxir::ArgV::Reg(pxir::Register::Rsp),
            pxir::ArgV::Reg(pxir::Register::Rbp),
        ),
        pxir::InstrV::Subq(pxir::ArgV::Int(stack), pxir::ArgV::Reg(pxir::Register::Rsp)),
        pxir::InstrV::Jumpq(jump_to),
    ]
}

/// The instructions of the `conclusion` epilogue: release the stack,
/// restore the frame pointer, and return.
pub open spec fn conclusion_instrs(stack: i64) -> Seq<pxir::InstrV> {
    seq![
        pxir::InstrV::Addq(pxir::ArgV::Int(stack), pxir::ArgV::Reg(pxir::Register::Rsp)),
        pxir::InstrV::Popq(pxir::ArgV::Reg(pxir::Register::Rbp)),
        pxir::InstrV::Retq,
    ]
}

/// The whole pipeline on one expression: the `start` block's final
/// instructions, and the raw stack space its variables need.
pub open spec fn drive_pipeline(e: rir::ExprV) -> (Seq<pxir::InstrV>, int) {
    let u = uniquify_expr(e, Map::empty(), 12345);
    let s = simplify_expr(u.0, u.1);
    let t = explicate_root(s.0);
    let sel = select_tail(t, "conclusion"@);
    let homed = home_instrs(sel, init_homes());
    (patch_instrs(homed.0), homed.1.stack_space as int)
}

/// The emitted text: the `start` block, then `main` (preceded by its
/// `.globl` line), then `conclusion`, with the adjusted stack size `N` in
/// `subq $N, %rsp` and `addq $N, %rsp`.
pub open spec fn drive_str(e: rir::ExprV) -> Seq<char> {
    let (start, raw) = drive_pipeline(e);
    let n = adjusted(raw) as i64;
    block_str("start"@, start) + "\n"@ + "\t.globl main\n"@ + block_str(
        "main"@,
        main_instrs(n, "start"@),
    ) + block_str("conclusion"@, conclusion_instrs(n))
}

/// Rounds the stack size up to the next multiple of 16. This is the `N`
/// that `main` subtracts from `%rsp`; the result is always 16-byte
/// aligned.
pub fn adjusted_stack_space(stack_size: i64) -> (r: i64)
    requires
        0 <= stack_size,
        stack_size % 8 == 0,
        stack_size + 8 <= i64::MAX,
    ensures
        r as int == adjusted(stack_size as int),
        r % 16 == 0,
        stack_size <= r,
{
    if stack_size % 16 == 0 {
        stack_size
    } else {
        stack_size + 8
    }
}

/// Builds the `main` prologue block.
pub fn build_main_block(stack_size: i64, jump_to: &pxir::Label) -> (r: pxir::Block)
    ensures
        r.instrs_v() == main_instrs(stack_size, jump_to@),
        r.info.stack_space == 0,
{
    let instrs = vec![
        pxir::Instr::pushq(pxir::Arg::reg(pxir::Register::Rbp)),
        pxir::Instr::movq(
            pxir::Arg::reg(pxir::Register::Rsp),
            pxir::Arg::reg(pxir::Register::Rbp),
        ),
        pxir::Instr::subq(pxir::Arg::imm(stack_size), pxir::Arg::reg(pxir::Register::Rsp)),
        pxir::Instr::jumpq(jump_to.value.as_str()),
    ];
    let r = pxir::Block::new(instrs);
    proof {
        assert(r.instrs_v() =~= main_instrs(stack_size, jump_to@));
    }
    r
}

/// Builds the `conclusion` epilogue block.
pub fn build_conclusion_block(stack_size: i64) -> (r: pxir::Block)
    ensures
        r.instrs_v() == conclusion_instrs(stack_size),
        r.info.stack_space == 0,
{
    let instrs = vec![
        pxir::Instr::addq(pxir::Arg::imm(stack_size), pxir::Arg::reg(pxir::Register::Rsp)),
        pxir::Instr::popq(pxir::Arg::reg(pxir::Register::Rbp)),
        pxir::Instr::retq(),
    ];
    let r = pxir::Block::new(instrs);
    proof {
        assert(r.instrs_v() =~= conclusion_instrs(stack_size));
    }
    r
}

/// Law (end-to-end equivalence, source level): the driver's two source
/// rewrites — uniquify and then arg-simplify, seeded as `drive` seeds
/// them — preserve the reference interpretation of a closed expression,
/// on every environment and every input stream.
pub proof fn lemma_rir_passes_preserve_eval(
    e: rir::ExprV,
    env: Map<Seq<char>, i64>,
    inputs: Seq<i64>,
    pos: int,
)
    requires
        well_scoped(e, Set::empty()),
    ensures
        ({
            let u = uniquify_expr(e, Map::empty(), 12345);
            let s = simplify_expr(u.0, u.1);
            crate::rir::interp::eval_expr(s.0, env, inputs, pos) == crate::rir::interp::eval_expr(
                e,
                env,
                inputs,
                pos,
            )
        }),
{
    let m0 = Map::<Seq<char>, Seq<char>>::empty();
    assert(m0.dom() =~= Set::<Seq<char>>::empty());
    crate::rir::uniquify::lemma_uniquify_preserves_eval(e, m0, 12345, env, env, inputs, pos);
    crate::rir::uniquify::lemma_uniquify_names_below(e, m0, 12345);
    let u = uniquify_expr(e, m0, 12345);
    crate::rir::arg_simplify::lemma_simplify_preserves_eval(u.0, u.1, env, inputs, pos);
}

/// Law: the stack size `N` that the emitted `main` subtracts from `%rsp`
/// is a multiple of 16; the pipeline's final `start` block mentions no
/// variable, holds no instruction with two memory operands, and holds no
/// subtraction at all — so the `subq $N, %rsp` of `main` (the third
/// instruction of the prologue) is the only `subq` the program emits, and
/// `conclusion` releases the same `N`.
pub proof fn lemma_drive_pipeline_clean(e: rir::ExprV)
    requires
        expr_size(e) <= drive_max_size(),
    ensures
        adjusted(drive_pipeline(e).1) % 16 == 0,
        0 <= adjusted(drive_pipeline(e).1) <= i64::MAX,
        crate::pxir::assign_homes::instrs_var_free(drive_pipeline(e).0),
        crate::pxir::patch::no_two_derefs(drive_pipeline(e).0),
        crate::pxir::instrs_subq_free(drive_pipeline(e).0),
        forall|n: i64, l: Seq<char>|
            #![trigger main_instrs(n, l)]
            main_instrs(n, l)[2] == pxir::InstrV::Subq(
                pxir::ArgV::Int(n),
                pxir::ArgV::Reg(pxir::Register::Rsp),
            ) && crate::pxir::instrs_subq_free(conclusion_instrs(n)),
{
    lemma_n_lets_le_size(e);
    lemma_uniquify_counter(e, Map::empty(), 12345);
    lemma_uniquify_size(e, Map::empty(), 12345);
    let u = uniquify_expr(e, Map::empty(), 12345);
    lemma_mints_le_size(u.0);
    lemma_simplify_size(u.0, u.1);
    let s = simplify_expr(u.0, u.1);
    let t = explicate_root(s.0);
    lemma_explicate_body_stmts(s.0, None);
    lemma_select_tail_len(t, "conclusion"@);
    let sel = select_tail(t, "conclusion"@);
    lemma_home_instrs_stack(sel, init_homes());
    crate::pxir::assign_homes::lemma_homes_no_var(sel, init_homes());
    crate::cir::select_instr::lemma_select_tail_no_subq(t, "conclusion"@);
    crate::pxir::assign_homes::lemma_homes_keeps_subq_free(sel, init_homes());
    let homed = home_instrs(sel, init_homes());
    crate::pxir::patch::lemma_patch_keeps_var_free(homed.0);
    crate::pxir::patch::lemma_patch_no_two_derefs(homed.0);
    crate::pxir::patch::lemma_patch_keeps_subq_free(homed.0);
    assert forall|n: i64, l: Seq<char>|
        #![trigger main_instrs(n, l)]
        main_instrs(n, l)[2] == pxir::InstrV::Subq(
            pxir::ArgV::Int(n),
            pxir::ArgV::Reg(pxir::Register::Rsp),
        ) && crate::pxir::instrs_subq_free(conclusion_instrs(n)) by {
        assert forall|j: int| 0 <= j < conclusion_instrs(n).len() implies !crate::pxir::is_subq(
            conclusion_instrs(n)[j],
        ) by {
            assert(conclusion_instrs(n).len() == 3);
        }
    }
}

/// Compiles one closed source expression to assembly text, running every
/// pass in order: uniquify, arg-simplify, explicate, uncover locals,
/// select instructions, assign homes, patch.
pub fn drive(expr: rir::Expr) -> (out: String)
    requires
        well_scoped(expr@, Set::empty()),
        expr_size(expr@) <= drive_max_size(),
    ensures
        out@ == drive_str(expr@),
{
    let ghost e0 = expr@;
    proof {
        lemma_n_lets_le_size(e0);
    }

    // RIR folds
    let mut uniquify_ctx = rir::uniquify::ExprUniquifier::new(12345);
    proof {
        assert(uniquify_ctx.scope_map() =~= Map::<Seq<char>, Seq<char>>::empty());
        assert(uniquify_ctx.scope_map().dom() =~= Set::<Seq<char>>::empty());
    }
    let expr = uniquify_ctx.fold(Box::new(expr));
    let ghost e1 = uniquify_expr(e0, Map::empty(), 12345).0;
    proof {
        lemma_uniquify_counter(e0, Map::empty(), 12345);
        lemma_uniquify_size(e0, Map::empty(), 12345);
        lemma_mints_le_size(e1);
    }
    let mut arg_simplify_ctx = rir::arg_simplify::ExprArgSimplifier::new(uniquify_ctx.counter);
    let ghost c1 = arg_simplify_ctx.counter as nat;
    let expr = arg_simplify_ctx.fold(expr);
    let ghost e2 = simplify_expr(e1, c1).0;
    proof {
        lemma_simplify_atomic(e1, c1);
        lemma_simplify_size(e1, c1);
    }
    let prog = rir::Program::new(expr);

    // CIR folds
    let prog = rir::explicate::fold_program(prog);
    let ghost t = explicate_root(e2);
    let prog = cir::uncover::fold_program(prog);
    proof {
        assert(prog.tails_v() == seq![("start"@, t)]);
    }

    // PXIR folds
    let prog = cir::select_instr::fold_program(prog);
    let ghost sel = select_tail(t, "conclusion"@);
    proof {
        assert(prog.blocks_v() =~= seq![("start"@, (sel, 0int))]);
        lemma_explicate_body_stmts(e2, None);
        lemma_select_tail_len(t, "conclusion"@);
        assert(crate::pxir::assign_homes::homes_input_ok(prog.blocks_v()));
    }
    let prog = pxir::assign_homes::fold_program(prog);
    let ghost homed = home_instrs(sel, init_homes());
    proof {
        lemma_home_instrs_stack(sel, init_homes());
        assert(prog.blocks_v() =~= seq![
            ("start"@, (homed.0, homed.1.stack_space as int)),
        ]);
    }
    let prog = pxir::patch::fold_program(prog);
    proof {
        assert(prog.blocks_v() =~= seq![
            ("start"@, (patch_instrs(homed.0), homed.1.stack_space as int)),
        ]);
        assert(prog.blocks@.len() == 1);
    }

    // Prepare to write.
    let start_label = pxir::Label::new("start");
    let start_block = &prog.blocks[0].1;
    proof {
        assert(prog.blocks_v()[0] == (prog.blocks@[0].0@, (
            prog.blocks@[0].1.instrs_v(),
            prog.blocks@[0].1.info.stack_space as int,
        )));
        assert(start_block.instrs_v() == patch_instrs(homed.0));
        assert(start_block.info.stack_space == homed.1.stack_space);
    }
    let start_stack_space = adjusted_stack_space(start_block.info.stack_space);
    let main_label = pxir::Label::new("main");
    let main_block = build_main_block(start_stack_space, &start_label);
    let conclusion_label = pxir::Label::new("conclusion");
    let conclusion_block = build_conclusion_block(start_stack_space);

    // Write x86
    let mut out = String::new();
    write_block(&mut out, &start_label, start_block);
    out.append("\n");
    out.append("\t.globl main\n");
    write_block(&mut out, &main_label, &main_block);
    write_block(&mut out, &conclusion_label, &conclusion_block);
    proof {
        assert(out@ =~= drive_str(e0));
    }
    out
}

} // verus!
