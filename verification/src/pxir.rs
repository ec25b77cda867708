//! PXIR: the pseudo-x86 intermediate representation. Instructions are
//! x86-like, but operands may still be symbolic variables; `assign_homes`
//! eliminates those, and `patch` repairs two-memory-operand instructions.

pub mod assign_homes;
pub mod patch;
pub mod uncover_live;
pub mod write;

use vstd::prelude::*;

verus! {

/// The sixteen general-purpose x86-64 registers.
#[derive(Clone, Copy, Debug, PartialEq, Eq)]
pub enum Register {
    Rsp,
    Rbp,
    Rax,
    Rbx,
    Rcx,
    Rdx,
    Rsi,
    Rdi,
    R8,
    R9,
    R10,
    R11,
    R12,
    R13,
    R14,
    R15,
}

/// Symbol used for variable names.
#[derive(Debug, PartialEq, Eq, Hash)]
pub struct Symbol {
    pub value: String,
}

impl View for Symbol {
    type V = Seq<char>;

    open spec fn view(&self) -> Seq<char> {
        self.value@
    }
}

impl Symbol {
    pub fn new(value: &str) -> (r: Symbol)
        ensures
            r@ == value@,
    {
        Symbol { value: value.to_owned() }
    }
}

impl Clone for Symbol {
    fn clone(&self) -> (r: Symbol)
        ensures
            r == *self,
    {
        Symbol { value: self.value.clone() }
    }
}

/// Ghost mirror of an operand.
pub ghost enum ArgV {
    Int(i64),
    Reg(Register),
    Deref(Register, i64),
    Var(Seq<char>),
}

/// Whether an operand is a memory reference.
pub open spec fn is_deref(a: ArgV) -> bool {
    match a {
        ArgV::Deref(_, _) => true,
        _ => false,
    }
}

/// Whether an operand is still a symbolic variable.
pub open spec fn is_var_arg(a: ArgV) -> bool {
    match a {
        ArgV::Var(_) => true,
        _ => false,
    }
}

#[derive(Debug, PartialEq, Eq)]
pub enum Arg {
    Int(i64),
    Reg(Register),
    Deref(Register, i64),
    Var(Box<Symbol>),
}

pub open spec fn arg_v(a: Arg) -> ArgV {
    match a {
        Arg::Int(i) => ArgV::Int(i),
        Arg::Reg(r) => ArgV::Reg(r),
        Arg::Deref(r, off) => ArgV::Deref(r, off),
        Arg::Var(s) => ArgV::Var(s@),
    }
}

impl View for Arg {
    type V = ArgV;

    open spec fn view(&self) -> ArgV {
        arg_v(*self)
    }
}

impl Arg {
    pub fn imm(i: i64) -> (r: Box<Arg>)
        ensures
            r@ == ArgV::Int(i),
    {
        Box::new(Arg::Int(i))
    }

    pub fn reg(reg: Register) -> (r: Box<Arg>)
        ensures
            r@ == ArgV::Reg(reg),
    {
        Box::new(Arg::Reg(reg))
    }

    pub fn deref(reg: Register, offset: i64) -> (r: Box<Arg>)
        ensures
            r@ == ArgV::Deref(reg, offset),
    {
        Box::new(Arg::Deref(reg, offset))
    }

    pub fn var(s: &str) -> (r: Box<Arg>)
        ensures
            r@ == ArgV::Var(s@),
    {
        Box::new(Arg::Var(Box::new(Symbol::new(s))))
    }

    pub fn is_dref(&self) -> (r: bool)
        ensures
            r == is_deref(self@),
    {
        match self {
            Arg::Deref(_, _) => true,
            _ => false,
        }
    }
}

impl Clone for Arg {
    fn clone(&self) -> (r: Arg)
        ensures
            r == *self,
    {
        match self {
            Arg::Int(i) => Arg::Int(*i),
            Arg::Reg(r) => Arg::Reg(*r),
            Arg::Deref(r, off) => Arg::Deref(*r, *off),
            Arg::Var(s) => Arg::Var(Box::new((**s).clone())),
        }
    }
}

/// Label naming a block.
#[derive(Debug, PartialEq, Eq, Hash)]
pub struct Label {
    pub value: String,
}

impl View for Label {
    type V = Seq<char>;

    open spec fn view(&self) -> Seq<char> {
        self.value@
    }
}

impl Label {
    pub fn new(value: &str) -> (r: Box<Label>)
        ensures
            r@ == value@,
    {
        Box::new(Label { value: value.to_owned() })
    }
}

impl Clone for Label {
    fn clone(&self) -> (r: Label)
        ensures
            r == *self,
    {
        Label { value: self.value.clone() }
    }
}

/// Ghost mirror of an instruction.
pub ghost enum InstrV {
    Addq(ArgV, ArgV),
    Subq(ArgV, ArgV),
    Movq(ArgV, ArgV),
    Negq(ArgV),
    Pushq(ArgV),
    Popq(ArgV),
    Callq(Seq<char>),
    Jumpq(Seq<char>),
    Retq,
}

#[derive(Debug, PartialEq, Eq)]
pub enum Instr {
    Addq { src: Box<Arg>, dst: Box<Arg> },
    Subq { src: Box<Arg>, dst: Box<Arg> },
    Movq { src: Box<Arg>, dst: Box<Arg> },
    Negq(Box<Arg>),
    Pushq(Box<Arg>),
    Popq(Box<Arg>),
    Callq(Box<Label>),
    Jumpq(Box<Label>),
    Retq,
}

pub open spec fn instr_v(i: Instr) -> InstrV {
    match i {
        Instr::Addq { src, dst } => InstrV::Addq(src@, dst@),
        Instr::Subq { src, dst } => InstrV::Subq(src@, dst@),
        Instr::Movq { src, dst } => InstrV::Movq(src@, dst@),
        Instr::Negq(dst) => InstrV::Negq(dst@),
        Instr::Pushq(src) => InstrV::Pushq(src@),
        Instr::Popq(dst) => InstrV::Popq(dst@),
        Instr::Callq(label) => InstrV::Callq(label@),
        Instr::Jumpq(label) => InstrV::Jumpq(label@),
        Instr::Retq => InstrV::Retq,
    }
}

impl View for Instr {
    type V = InstrV;

    open spec fn view(&self) -> InstrV {
        instr_v(*self)
    }
}

impl Instr {
    pub fn addq(src: Box<Arg>, dst: Box<Arg>) -> (r: Instr)
        ensures
            r@ == InstrV::Addq(src@, dst@),
    {
        Instr::Addq { src, dst }
    }

    pub fn subq(src: Box<Arg>, dst: Box<Arg>) -> (r: Instr)
        ensures
            r@ == InstrV::Subq(src@, dst@),
    {
        Instr::Subq { src, dst }
    }

    pub fn movq(src: Box<Arg>, dst: Box<Arg>) -> (r: Instr)
        ensures
            r@ == InstrV::Movq(src@, dst@),
    {
        Instr::Movq { src, dst }
    }

    pub fn retq() -> (r: Instr)
        ensures
            r@ == InstrV::Retq,
    {
        Instr::Retq
    }

    pub fn negq(dst: Box<Arg>) -> (r: Instr)
        ensures
            r@ == InstrV::Negq(dst@),
    {
        Instr::Negq(dst)
    }

    pub fn callq(label: &str) -> (r: Instr)
        ensures
            r@ == InstrV::Callq(label@),
    {
        Instr::Callq(Label::new(label))
    }

    pub fn jumpq(label: &str) -> (r: Instr)
        ensures
            r@ == InstrV::Jumpq(label@),
    {
        Instr::Jumpq(Label::new(label))
    }

    pub fn pushq(src: Box<Arg>) -> (r: Instr)
        ensures
            r@ == InstrV::Pushq(src@),
    {
        Instr::Pushq(src)
    }

    pub fn popq(dst: Box<Arg>) -> (r: Instr)
        ensures
            r@ == InstrV::Popq(dst@),
    {
        Instr::Popq(dst)
    }
}

impl Clone for Instr {
    fn clone(&self) -> (r: Instr)
        ensures
            r == *self,
    {
        match self {
            Instr::Addq { src, dst } => Instr::Addq {
                src: Box::new((**src).clone()),
                dst: Box::new((**dst).clone()),
            },
            Instr::Subq { src, dst } => Instr::Subq {
                src: Box::new((**src).clone()),
                dst: Box::new((**dst).clone()),
            },
            Instr::Movq { src, dst } => Instr::Movq {
                src: Box::new((**src).clone()),
                dst: Box::new((**dst).clone()),
            },
            Instr::Negq(dst) => Instr::Negq(Box::new((**dst).clone())),
            Instr::Pushq(src) => Instr::Pushq(Box::new((**src).clone())),
            Instr::Popq(dst) => Instr::Popq(Box::new((**dst).clone())),
            Instr::Callq(label) => Instr::Callq(Box::new((**label).clone())),
            Instr::Jumpq(label) => Instr::Jumpq(Box::new((**label).clone())),
            Instr::Retq => Instr::Retq,
        }
    }
}

/// Whether an instruction still mentions a symbolic variable; after
/// `assign_homes`, none does.
pub open spec fn instr_mentions_var(i: InstrV) -> bool {
    match i {
        InstrV::Addq(src, dst) => is_var_arg(src) || is_var_arg(dst),
        InstrV::Subq(src, dst) => is_var_arg(src) || is_var_arg(dst),
        InstrV::Movq(src, dst) => is_var_arg(src) || is_var_arg(dst),
        InstrV::Negq(dst) => is_var_arg(dst),
        InstrV::Pushq(src) => is_var_arg(src),
        InstrV::Popq(dst) => is_var_arg(dst),
        InstrV::Callq(_) => false,
        InstrV::Jumpq(_) => false,
        InstrV::Retq => false,
    }
}

/// Whether an instruction is a subtraction. The instruction selector
/// never writes one; the only `subq` of a finished program is the stack
/// reservation in its `main` prologue.
pub open spec fn is_subq(i: InstrV) -> bool {
    match i {
        InstrV::Subq(_, _) => true,
        _ => false,
    }
}

/// No instruction in a sequence is a subtraction.
pub open spec fn instrs_subq_free(s: Seq<InstrV>) -> bool {
    forall|j: int| 0 <= j < s.len() ==> !is_subq(#[trigger] s[j])
}

/// Whether an instruction addresses memory in both operands; x86-64
/// forbids that encoding, and `patch` removes it.
pub open spec fn instr_two_derefs(i: InstrV) -> bool {
    match i {
        InstrV::Addq(src, dst) => is_deref(src) && is_deref(dst),
        InstrV::Subq(src, dst) => is_deref(src) && is_deref(dst),
        InstrV::Movq(src, dst) => is_deref(src) && is_deref(dst),
        _ => false,
    }
}

/// Per-block facts recorded by the passes.
#[derive(Clone, Copy, Debug, PartialEq, Eq)]
pub struct BlockInfo {
    /// Space needed for stack variables, in bytes.
    pub stack_space: i64,
}

impl BlockInfo {
    pub fn new() -> (r: BlockInfo)
        ensures
            r.stack_space == 0,
    {
        BlockInfo { stack_space: 0 }
    }
}

#[derive(Debug)]
pub struct Block {
    pub info: BlockInfo,
    pub instrs: Vec<Instr>,
}

impl Block {
    /// The block's instructions, abstracted.
    pub open spec fn instrs_v(&self) -> Seq<InstrV> {
        self.instrs@.map_values(|i: Instr| i@)
    }

    pub fn new(instrs: Vec<Instr>) -> (r: Block)
        ensures
            r.instrs == instrs,
            r.info.stack_space == 0,
    {
        Block { info: BlockInfo::new(), instrs }
    }
}

impl Clone for Block {
    fn clone(&self) -> (r: Block)
        ensures
            r.info == self.info,
            r.instrs@ == self.instrs@,
    {
        Block { info: self.info, instrs: self.instrs.clone() }
    }
}

#[derive(Debug, PartialEq, Eq)]
pub struct ProgramInfo {}

#[derive(Debug)]
pub struct Program {
    pub info: ProgramInfo,
    pub blocks: Vec<(Label, Block)>,
}

impl Program {
    /// The labeled blocks: each label with its instructions and stack
    /// space.
    pub open spec fn blocks_v(&self) -> Seq<(Seq<char>, (Seq<InstrV>, int))> {
        self.blocks@.map_values(
            |p: (Label, Block)| (p.0@, (p.1.instrs_v(), p.1.info.stack_space as int)),
        )
    }

    /// The blocks' labels, in order.
    pub open spec fn labels(&self) -> Seq<Seq<char>> {
        self.blocks_v().map_values(|p: (Seq<char>, (Seq<InstrV>, int))| p.0)
    }

    /// Each block is addressed by its own label: no two blocks share one.
    pub open spec fn labels_unique(&self) -> bool {
        self.labels().no_duplicates()
    }
}

} // verus!
