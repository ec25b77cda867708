//! The assign-homes pass: replaces every symbolic variable operand with a
//! memory reference at a frame-pointer offset. The first use of a
//! variable in a block allocates a fresh, negative, 8-byte-aligned offset;
//! later uses reuse it. The block records the total bytes consumed.

use crate::pxir::{
    instr_mentions_var, Arg, ArgV, Block, BlockInfo, Instr, InstrV, Label, Program,
    Register, Symbol,
};
use crate::table::{map_of, Table};
use vstd::prelude::*;

verus! {

/// Ghost state of the pass: the homes handed out so far, and the bytes of
/// stack consumed.
pub ghost struct HomesV {
    pub homes: Map<Seq<char>, i64>,
    pub stack_space: i64,
}

/// The initial state: no homes, no stack.
pub open spec fn init_homes() -> HomesV {
    HomesV { homes: Map::empty(), stack_space: 0 }
}

/// The largest block the pass accepts; it keeps the stack-space counter
/// far from overflowing.
pub open spec fn max_homes_instrs() -> int {
    0x0100_0000_0000_0000
}

/// The home of one operand: a variable is replaced by its stack slot,
/// allocating a new one on first use; everything else passes through.
pub open spec fn home_arg(a: ArgV, st: HomesV) -> (ArgV, HomesV) {
    match a {
        ArgV::Var(s) => {
            if st.homes.contains_key(s) {
                (ArgV::Deref(Register::Rbp, st.homes[s]), st)
            } else {
                let new_stack = (st.stack_space + 8) as i64;
                let off = (-(new_stack as int)) as i64;
                (
                    ArgV::Deref(Register::Rbp, off),
                    HomesV { homes: st.homes.insert(s, off), stack_space: new_stack },
                )
            }
        },
        _ => (a, st),
    }
}

/// One instruction with its operands homed: the source is folded before
/// the destination. Calls, jumps and returns carry no operand to fold.
pub open spec fn home_instr(i: InstrV, st: HomesV) -> (InstrV, HomesV) {
    match i {
        InstrV::Addq(src, dst) => {
            let (s1, st1) = home_arg(src, st);
            let (d1, st2) = home_arg(dst, st1);
            (InstrV::Addq(s1, d1), st2)
        },
        InstrV::Subq(src, dst) => {
            let (s1, st1) = home_arg(src, st);
            let (d1, st2) = home_arg(dst, st1);
            (InstrV::Subq(s1, d1), st2)
        },
        InstrV::Movq(src, dst) => {
            let (s1, st1) = home_arg(src, st);
            let (d1, st2) = home_arg(dst, st1);
            (InstrV::Movq(s1, d1), st2)
        },
        InstrV::Negq(dst) => {
            let (d1, st1) = home_arg(dst, st);
            (InstrV::Negq(d1), st1)
        },
        InstrV::Pushq(src) => {
            let (s1, st1) = home_arg(src, st);
            (InstrV::Pushq(s1), st1)
        },
        InstrV::Popq(dst) => {
            let (d1, st1) = home_arg(dst, st);
            (InstrV::Popq(d1), st1)
        },
        _ => (i, st),
    }
}

/// A whole instruction sequence with its operands homed, the state
/// threaded left to right.
pub open spec fn home_instrs(s: Seq<InstrV>, st: HomesV) -> (Seq<InstrV>, HomesV)
    decreases s.len(),
{
    if s.len() == 0 {
        (Seq::empty(), st)
    } else {
        let (pre, st1) = home_instrs(s.drop_last(), st);
        let (i1, st2) = home_instr(s.last(), st1);
        (pre.push(i1), st2)
    }
}

/// One homed instruction moves the stack-space counter up by at most 16
/// bytes and keeps it a nonnegative multiple of 8.
proof fn lemma_home_instr_stack(i: InstrV, st: HomesV)
    requires
        0 <= st.stack_space,
        st.stack_space % 8 == 0,
        st.stack_space + 16 <= i64::MAX,
    ensures
        st.stack_space <= home_instr(i, st).1.stack_space <= st.stack_space + 16,
        home_instr(i, st).1.stack_space % 8 == 0,
{
}

/// The homed sequence keeps the stack-space counter a nonnegative
/// multiple of 8 and grows it by at most 16 bytes per instruction.
pub proof fn lemma_home_instrs_stack(s: Seq<InstrV>, st: HomesV)
    requires
        0 <= st.stack_space,
        st.stack_space % 8 == 0,
        st.stack_space + 16 * s.len() <= i64::MAX,
    ensures
        st.stack_space <= home_instrs(s, st).1.stack_space <= st.stack_space + 16 * s.len(),
        home_instrs(s, st).1.stack_space % 8 == 0,
    decreases s.len(),
{
    if s.len() > 0 {
        lemma_home_instrs_stack(s.drop_last(), st);
        let st1 = home_instrs(s.drop_last(), st).1;
        lemma_home_instr_stack(s.last(), st1);
    }
}

/// No instruction in a sequence mentions a variable.
pub open spec fn instrs_var_free(s: Seq<InstrV>) -> bool {
    forall|j: int| 0 <= j < s.len() ==> !instr_mentions_var(#[trigger] s[j])
}

/// Law: after assign-homes, no symbolic variable is reachable from any
/// instruction: every variable operand becomes a memory reference.
pub proof fn lemma_homes_no_var(s: Seq<InstrV>, st: HomesV)
    ensures
        instrs_var_free(home_instrs(s, st).0),
    decreases s.len(),
{
    if s.len() > 0 {
        lemma_homes_no_var(s.drop_last(), st);
        let (pre, st1) = home_instrs(s.drop_last(), st);
        let (i1, st2) = home_instr(s.last(), st1);
        assert(!instr_mentions_var(i1));
        assert forall|j: int| 0 <= j < home_instrs(s, st).0.len() implies !instr_mentions_var(
            home_instrs(s, st).0[j],
        ) by {
            if j < pre.len() {
                assert(home_instrs(s, st).0[j] == pre[j]);
            } else {
                assert(home_instrs(s, st).0[j] == i1);
            }
        }
    }
}

/// Homing operands writes no subtraction: a `subq`-free sequence stays
/// `subq`-free.
pub proof fn lemma_homes_keeps_subq_free(s: Seq<InstrV>, st: HomesV)
    requires
        crate::pxir::instrs_subq_free(s),
    ensures
        crate::pxir::instrs_subq_free(home_instrs(s, st).0),
    decreases s.len(),
{
    if s.len() > 0 {
        assert(crate::pxir::instrs_subq_free(s.drop_last())) by {
            assert(forall|j: int| 0 <= j < s.len() - 1 ==> s.drop_last()[j] == s[j]);
        }
        lemma_homes_keeps_subq_free(s.drop_last(), st);
        let (pre, st1) = home_instrs(s.drop_last(), st);
        let (i1, st2) = home_instr(s.last(), st1);
        assert(!crate::pxir::is_subq(s[s.len() - 1]));
        assert(!crate::pxir::is_subq(i1));
        assert forall|j: int| 0 <= j < home_instrs(s, st).0.len() implies !crate::pxir::is_subq(
            home_instrs(s, st).0[j],
        ) by {
            if j < pre.len() {
                assert(home_instrs(s, st).0[j] == pre[j]);
            } else {
                assert(home_instrs(s, st).0[j] == i1);
            }
        }
    }
}

struct Ctx {
    /// Space needed for stack variables, in bytes.
    stack_space: i64,
    /// Maps each symbol to its storage location in the stack frame, as an
    /// offset in bytes from the base pointer.
    sym_to_home: Table<i64>,
}

impl Ctx {
    spec fn st_v(&self) -> HomesV {
        HomesV { homes: map_of(self.sym_to_home.entries()), stack_space: self.stack_space }
    }

    fn new() -> (r: Ctx)
        ensures
            r.st_v() == init_homes(),
            r.stack_space == 0,
    {
        let r = Ctx { stack_space: 0, sym_to_home: Table::new() };
        proof {
            assert(map_of(r.sym_to_home.entries()) =~= Map::<Seq<char>, i64>::empty());
        }
        r
    }

    fn get_home(&mut self, sym: &Symbol) -> (r: Box<Arg>)
        requires
            old(self).st_v().stack_space + 8 <= i64::MAX,
            old(self).st_v().stack_space >= 0,
        ensures
            ({
                let (a1, st1) = home_arg(ArgV::Var(sym@), old(self).st_v());
                r@ == a1 && final(self).st_v() == st1
            }),
    {
        if let Some(offset) = self.sym_to_home.lookup(&sym.value) {
            return Arg::deref(Register::Rbp, *offset);
        }
        self.stack_space = self.stack_space + 8;
        let offset = -self.stack_space;
        self.sym_to_home.push(sym.value.clone(), offset);
        Arg::deref(Register::Rbp, offset)
    }

    fn fold_arg(&mut self, arg: Box<Arg>) -> (r: Box<Arg>)
        requires
            old(self).st_v().stack_space + 8 <= i64::MAX,
            old(self).st_v().stack_space >= 0,
        ensures
            ({
                let (a1, st1) = home_arg(arg@, old(self).st_v());
                r@ == a1 && final(self).st_v() == st1
            }),
    {
        match *arg {
            Arg::Var(sym) => self.get_home(&sym),
            _ => arg,
        }
    }

    fn fold_instr(&mut self, instr: Instr) -> (r: Instr)
        requires
            old(self).st_v().stack_space + 16 <= i64::MAX,
            old(self).st_v().stack_space >= 0,
        ensures
            ({
                let (i1, st1) = home_instr(instr@, old(self).st_v());
                r@ == i1 && final(self).st_v() == st1
            }),
    {
        match instr {
            Instr::Addq { src, dst } => {
                let src = self.fold_arg(src);
                let dst = self.fold_arg(dst);
                Instr::addq(src, dst)
            },
            Instr::Subq { src, dst } => {
                let src = self.fold_arg(src);
                let dst = self.fold_arg(dst);
                Instr::subq(src, dst)
            },
            Instr::Movq { src, dst } => {
                let src = self.fold_arg(src);
                let dst = self.fold_arg(dst);
                Instr::movq(src, dst)
            },
            Instr::Negq(dst) => {
                let dst = self.fold_arg(dst);
                Instr::negq(dst)
            },
            Instr::Pushq(src) => {
                let src = self.fold_arg(src);
                Instr::pushq(src)
            },
            Instr::Popq(dst) => {
                let dst = self.fold_arg(dst);
                Instr::popq(dst)
            },
            _ => instr,
        }
    }
}

/// Replaces every variable operand of the block with its stack home and
/// records the bytes consumed.
pub fn fold_block(block: Block) -> (r: Block)
    requires
        block.instrs_v().len() <= max_homes_instrs(),
    ensures
        ({
            let (is2, st2) = home_instrs(block.instrs_v(), init_homes());
            r.instrs_v() == is2 && r.info.stack_space == st2.stack_space
        }),
        r.info.stack_space % 8 == 0,
        0 <= r.info.stack_space <= 16 * block.instrs_v().len(),
{
    let ghost s = block.instrs_v();
    let mut ctx = Ctx::new();
    let mut instrs: Vec<Instr> = Vec::new();
    let mut rest = block.instrs;
    let n = rest.len();
    let mut i: usize = 0;
    proof {
        assert(s.take(0) =~= Seq::<InstrV>::empty());
    }
    while i < n
        invariant
            i <= n,
            n == rest.len(),
            rest@.map_values(|ins: Instr| ins@) == s,
            n <= max_homes_instrs(),
            instrs@.map_values(|ins: Instr| ins@) == home_instrs(s.take(i as int), init_homes()).0,
            ctx.st_v() == home_instrs(s.take(i as int), init_homes()).1,
            ctx.st_v().stack_space == ctx.stack_space,
            0 <= ctx.stack_space <= 16 * i,
            ctx.stack_space % 8 == 0,
        decreases n - i,
    {
        proof {
            lemma_home_instr_stack(s[i as int], ctx.st_v());
        }
        let instr = rest[i].clone();
        let folded = ctx.fold_instr(instr);
        instrs.push(folded);
        proof {
            assert(s.take(i + 1).drop_last() =~= s.take(i as int));
            assert(s.take(i + 1).last() == s[i as int]);
            assert(instrs@.map_values(|ins: Instr| ins@) =~= home_instrs(
                s.take(i + 1),
                init_homes(),
            ).0);
        }
        i = i + 1;
    }
    proof {
        assert(s.take(n as int) =~= s);
    }
    Block { info: BlockInfo { stack_space: ctx.stack_space }, instrs }
}

/// Every block of the output: its instructions homed and its stack space
/// recorded, each block starting from a fresh state.
pub open spec fn homes_blocks(bs: Seq<(Seq<char>, (Seq<InstrV>, int))>) -> Seq<
    (Seq<char>, (Seq<InstrV>, int)),
> {
    bs.map_values(
        |p: (Seq<char>, (Seq<InstrV>, int))|
            (
                p.0,
                (
                    home_instrs(p.1.0, init_homes()).0,
                    home_instrs(p.1.0, init_homes()).1.stack_space as int,
                ),
            ),
    )
}

/// Every block is small enough for the pass.
pub open spec fn homes_input_ok(bs: Seq<(Seq<char>, (Seq<InstrV>, int))>) -> bool {
    forall|j: int| 0 <= j < bs.len() ==> (#[trigger] bs[j]).1.0.len() <= max_homes_instrs()
}

/// Replaces every variable operand of every block with a stack home.
pub fn fold_program(program: Program) -> (r: Program)
    requires
        homes_input_ok(program.blocks_v()),
    ensures
        r.blocks_v() == homes_blocks(program.blocks_v()),
        r.info == program.info,
        r.labels() == program.labels(),
{
    let ghost bs0 = program.blocks_v();
    let mut blocks: Vec<(Label, Block)> = Vec::new();
    let mut src_blocks = program.blocks;
    let n = src_blocks.len();
    let mut i: usize = 0;
    while i < n
        invariant
            i <= n,
            n == src_blocks.len(),
            src_blocks@.map_values(
                |p: (Label, Block)| (p.0@, (p.1.instrs_v(), p.1.info.stack_space as int)),
            ) == bs0,
            homes_input_ok(bs0),
            blocks@.map_values(
                |p: (Label, Block)| (p.0@, (p.1.instrs_v(), p.1.info.stack_space as int)),
            ) == homes_blocks(bs0.take(i as int)),
        decreases n - i,
    {
        let entry = &src_blocks[i];
        let label = entry.0.clone();
        let block = entry.1.clone();
        proof {
            assert(bs0[i as int].1.0 == block.instrs_v());
        }
        let block = fold_block(block);
        blocks.push((label, block));
        proof {
            assert(homes_blocks(bs0.take(i + 1)) =~= homes_blocks(bs0.take(i as int)).push(
                (
                    bs0[i as int].0,
                    (
                        home_instrs(bs0[i as int].1.0, init_homes()).0,
                        home_instrs(bs0[i as int].1.0, init_homes()).1.stack_space as int,
                    ),
                ),
            ));
            assert(blocks@.map_values(
                |p: (Label, Block)| (p.0@, (p.1.instrs_v(), p.1.info.stack_space as int)),
            ) =~= homes_blocks(bs0.take(i + 1)));
        }
        i = i + 1;
    }
    proof {
        assert(bs0.take(n as int) =~= bs0);
    }
    let r = Program { info: program.info, blocks };
    proof {
        assert(r.labels() =~= bs0.map_values(|p: (Seq<char>, (Seq<InstrV>, int))| p.0));
    }
    r
}

} // verus!
