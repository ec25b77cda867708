//! The emitter: renders labels, operands, instructions and blocks as
//! AT&T-syntax assembly text. Integers print as `$n`, registers as
//! `%name`, dereferences as `off(%reg)`, labels bare; mnemonics are
//! lowercase with the `q` suffix, and a jump prints as `jmp`.

use crate::pxir::{Arg, ArgV, Block, Instr, InstrV, Label, Register};
use crate::text::int_str;
use vstd::prelude::*;

verus! {

/// The printed name of a register.
pub open spec fn reg_str(r: Register) -> Seq<char> {
    match r {
        Register::Rsp => "%rsp"@,
        Register::Rbp => "%rbp"@,
        Register::Rax => "%rax"@,
        Register::Rbx => "%rbx"@,
        Register::Rcx => "%rcx"@,
        Register::Rdx => "%rdx"@,
        Register::Rsi => "%rsi"@,
        Register::Rdi => "%rdi"@,
        Register::R8 => "%r8"@,
        Register::R9 => "%r9"@,
        Register::R10 => "%r10"@,
        Register::R11 => "%r11"@,
        Register::R12 => "%r12"@,
        Register::R13 => "%r13"@,
        Register::R14 => "%r14"@,
        Register::R15 => "%r15"@,
    }
}

/// The printed form of an operand.
pub open spec fn arg_str(a: ArgV) -> Seq<char> {
    match a {
        ArgV::Int(i) => "$"@ + int_str(i as int),
        ArgV::Reg(r) => reg_str(r),
        ArgV::Deref(r, off) => int_str(off as int) + "("@ + reg_str(r) + ")"@,
        ArgV::Var(s) => "var<"@ + s + ">"@,
    }
}

/// The printed form of an instruction, without indentation or newline.
pub open spec fn instr_str(i: InstrV) -> Seq<char> {
    match i {
        InstrV::Addq(src, dst) => "addq "@ + arg_str(src) + ", "@ + arg_str(dst),
        InstrV::Subq(src, dst) => "subq "@ + arg_str(src) + ", "@ + arg_str(dst),
        InstrV::Movq(src, dst) => "movq "@ + arg_str(src) + ", "@ + arg_str(dst),
        InstrV::Negq(dst) => "negq "@ + arg_str(dst),
        InstrV::Pushq(src) => "pushq "@ + arg_str(src),
        InstrV::Popq(dst) => "popq "@ + arg_str(dst),
        InstrV::Callq(label) => "callq "@ + label,
        InstrV::Jumpq(label) => "jmp "@ + label,
        InstrV::Retq => "retq"@,
    }
}

/// The printed lines of a block's instructions: each one indented by a
/// tab and closed by a newline.
pub open spec fn instr_lines(s: Seq<InstrV>) -> Seq<char>
    decreases s.len(),
{
    if s.len() == 0 {
        Seq::empty()
    } else {
        instr_lines(s.drop_last()) + "\t"@ + instr_str(s.last()) + "\n"@
    }
}

/// The printed form of a labeled block.
pub open spec fn block_str(label: Seq<char>, instrs: Seq<InstrV>) -> Seq<char> {
    label + ":\n"@ + instr_lines(instrs)
}

fn reg_text(r: &Register) -> (res: &'static str)
    ensures
        res@ == reg_str(*r),
{
    match r {
        Register::Rsp => "%rsp",
        Register::Rbp => "%rbp",
        Register::Rax => "%rax",
        Register::Rbx => "%rbx",
        Register::Rcx => "%rcx",
        Register::Rdx => "%rdx",
        Register::Rsi => "%rsi",
        Register::Rdi => "%rdi",
        Register::R8 => "%r8",
        Register::R9 => "%r9",
        Register::R10 => "%r10",
        Register::R11 => "%r11",
        Register::R12 => "%r12",
        Register::R13 => "%r13",
        Register::R14 => "%r14",
        Register::R15 => "%r15",
    }
}

/// Renders one operand.
pub fn arg_text(a: &Arg) -> (res: String)
    ensures
        res@ == arg_str(a@),
{
    match a {
        Arg::Int(i) => {
            let mut s = String::from_str("$");
            s.append(crate::text::i64_string(*i).as_str());
            proof {
                assert(s@ =~= arg_str(a@));
            }
            s
        },
        Arg::Reg(r) => String::from_str(reg_text(r)),
        Arg::Deref(r, off) => {
            let mut s = crate::text::i64_string(*off);
            s.append("(");
            s.append(reg_text(r));
            s.append(")");
            proof {
                assert(s@ =~= arg_str(a@));
            }
            s
        },
        Arg::Var(sym) => {
            let mut s = String::from_str("var<");
            s.append(sym.value.as_str());
            s.append(">");
            proof {
                assert(s@ =~= arg_str(a@));
            }
            s
        },
    }
}

/// Renders one instruction, without indentation or newline.
pub fn instr_text(i: &Instr) -> (res: String)
    ensures
        res@ == instr_str(i@),
{
    let res = match i {
        Instr::Addq { src, dst } => {
            let mut s = String::from_str("addq ");
            s.append(arg_text(src).as_str());
            s.append(", ");
            s.append(arg_text(dst).as_str());
            s
        },
        Instr::Subq { src, dst } => {
            let mut s = String::from_str("subq ");
            s.append(arg_text(src).as_str());
            s.append(", ");
            s.append(arg_text(dst).as_str());
            s
        },
        Instr::Movq { src, dst } => {
            let mut s = String::from_str("movq ");
            s.append(arg_text(src).as_str());
            s.append(", ");
            s.append(arg_text(dst).as_str());
            s
        },
        Instr::Negq(dst) => {
            let mut s = String::from_str("negq ");
            s.append(arg_text(dst).as_str());
            s
        },
        Instr::Pushq(src) => {
            let mut s = String::from_str("pushq ");
            s.append(arg_text(src).as_str());
            s
        },
        Instr::Popq(dst) => {
            let mut s = String::from_str("popq ");
            s.append(arg_text(dst).as_str());
            s
        },
        Instr::Callq(label) => {
            let mut s = String::from_str("callq ");
            s.append(label.value.as_str());
            s
        },
        Instr::Jumpq(label) => {
            let mut s = String::from_str("jmp ");
            s.append(label.value.as_str());
            s
        },
        Instr::Retq => String::from_str("retq"),
    };
    proof {
        assert(res@ =~= instr_str(i@));
    }
    res
}

/// Appends the block's printed form to `s`: the label line, then each
/// instruction indented by a tab on its own line.
pub fn write_block(s: &mut String, label: &Label, block: &Block)
    ensures
        final(s)@ == old(s)@ + block_str(label@, block.instrs_v()),
{
    let ghost iv = block.instrs_v();
    s.append(label.value.as_str());
    s.append(":\n");
    let n = block.instrs.len();
    let mut i: usize = 0;
    proof {
        assert(iv.take(0) =~= Seq::<InstrV>::empty());
        assert(s@ =~= old(s)@ + label@ + ":\n"@ + instr_lines(iv.take(0)));
    }
    while i < n
        invariant
            i <= n,
            n == block.instrs.len(),
            block.instrs_v() == iv,
            s@ == old(s)@ + label@ + ":\n"@ + instr_lines(iv.take(i as int)),
        decreases n - i,
    {
        s.append("\t");
        s.append(instr_text(&block.instrs[i]).as_str());
        s.append("\n");
        proof {
            assert(iv.take(i + 1).drop_last() =~= iv.take(i as int));
            assert(iv.take(i + 1).last() == iv[i as int]);
            assert(s@ =~= old(s)@ + label@ + ":\n"@ + instr_lines(iv.take(i + 1)));
        }
        i = i + 1;
    }
    proof {
        assert(iv.take(n as int) =~= iv);
        assert(s@ =~= old(s)@ + block_str(label@, iv));
    }
}

} // verus!
