//! The uncover-live pass: for each instruction of a block, the set of
//! variables that are live before it. The analysis walks the block
//! backwards: live-before is live-after minus the variables written, plus
//! the variables read.

use crate::pxir::{Arg, ArgV, Block, Instr, InstrV, Symbol};
use vstd::prelude::*;

verus! {

/// The set a list of symbols stands for.
pub open spec fn syms_set(v: Seq<Symbol>) -> Set<Seq<char>> {
    v.map_values(|s: Symbol| s@).to_set()
}

/// The variable a symbolic operand holds, if any.
pub open spec fn arg_var(a: ArgV) -> Set<Seq<char>> {
    match a {
        ArgV::Var(s) => Set::empty().insert(s),
        _ => Set::empty(),
    }
}

/// The variables an instruction reads.
pub open spec fn read_set(i: InstrV) -> Set<Seq<char>> {
    match i {
        InstrV::Addq(src, dst) => arg_var(src).union(arg_var(dst)),
        InstrV::Subq(src, dst) => arg_var(src).union(arg_var(dst)),
        InstrV::Movq(src, _) => arg_var(src),
        InstrV::Negq(dst) => arg_var(dst),
        InstrV::Pushq(src) => arg_var(src),
        _ => Set::empty(),
    }
}

/// The variables an instruction writes.
pub open spec fn write_set(i: InstrV) -> Set<Seq<char>> {
    match i {
        InstrV::Addq(_, dst) => arg_var(dst),
        InstrV::Subq(_, dst) => arg_var(dst),
        InstrV::Movq(_, dst) => arg_var(dst),
        InstrV::Negq(dst) => arg_var(dst),
        InstrV::Popq(dst) => arg_var(dst),
        _ => Set::empty(),
    }
}

/// The variables live before an instruction, given those live after it.
pub open spec fn live_before(i: InstrV, after: Set<Seq<char>>) -> Set<Seq<char>> {
    after.difference(write_set(i)).union(read_set(i))
}

/// The live sets of a straight-line block: entry `k` is the set live
/// before instruction `k`, and one final empty set closes the block.
pub open spec fn live_sets(s: Seq<InstrV>) -> Seq<Set<Seq<char>>>
    decreases s.len(),
{
    if s.len() == 0 {
        seq![Set::empty()]
    } else {
        let rest = live_sets(s.drop_first());
        seq![live_before(s.first(), rest.first())] + rest
    }
}

/// The sets a list of symbol lists stands for.
pub open spec fn live_v(r: Seq<Vec<Symbol>>) -> Seq<Set<Seq<char>>> {
    r.map_values(|v: Vec<Symbol>| syms_set(v@))
}

/// Every symbol list is free of duplicates.
pub open spec fn all_unique(r: Seq<Vec<Symbol>>) -> bool {
    forall|k: int|
        0 <= k < r.len() ==> (#[trigger] r[k])@.map_values(|s: Symbol| s@).no_duplicates()
}

fn contains_sym(v: &Vec<Symbol>, name: &Symbol) -> (r: bool)
    ensures
        r == syms_set(v@).contains(name@),
{
    let n = v.len();
    let mut i: usize = 0;
    while i < n
        invariant
            i <= n,
            n == v.len(),
            forall|j: int| 0 <= j < i ==> (#[trigger] v@[j])@ != name@,
        decreases n - i,
    {
        if v[i].value == name.value {
            proof {
                assert(v@.map_values(|s: Symbol| s@)[i as int] == name@);
            }
            return true;
        }
        i = i + 1;
    }
    proof {
        assert(!v@.map_values(|s: Symbol| s@).contains(name@));
    }
    false
}

fn push_unique(v: &mut Vec<Symbol>, s: Symbol)
    requires
        old(v)@.map_values(|x: Symbol| x@).no_duplicates(),
    ensures
        final(v)@.map_values(|x: Symbol| x@).no_duplicates(),
        syms_set(final(v)@) == syms_set(old(v)@).insert(s@),
{
    if !contains_sym(v, &s) {
        let ghost pre = v@.map_values(|x: Symbol| x@);
        v.push(s);
        proof {
            assert(v@.map_values(|x: Symbol| x@) =~= pre.push(s@));
            pre.lemma_push_to_set_commute(s@);
            assert(syms_set(v@) =~= syms_set(old(v)@).insert(s@));
        }
    } else {
        proof {
            assert(syms_set(v@) =~= syms_set(old(v)@).insert(s@));
        }
    }
}

/// The symbol inside a variable operand.
fn get_arg_var(arg: &Arg) -> (r: Option<&Symbol>)
    ensures
        match r {
            Some(s) => arg_var(arg@) == Set::<Seq<char>>::empty().insert(s@),
            None => arg_var(arg@) == Set::<Seq<char>>::empty(),
        },
{
    match arg {
        Arg::Var(sym) => Some(sym),
        _ => None,
    }
}

fn push_arg_var(v: &mut Vec<Symbol>, arg: &Arg)
    requires
        old(v)@.map_values(|x: Symbol| x@).no_duplicates(),
    ensures
        final(v)@.map_values(|x: Symbol| x@).no_duplicates(),
        syms_set(final(v)@) == syms_set(old(v)@).union(arg_var(arg@)),
{
    match get_arg_var(arg) {
        Some(sym) => {
            let s = sym.clone();
            push_unique(v, s);
            proof {
                assert(syms_set(v@) =~= syms_set(old(v)@).union(arg_var(arg@)));
            }
        },
        None => {
            proof {
                assert(syms_set(v@) =~= syms_set(old(v)@).union(arg_var(arg@)));
            }
        },
    }
}

fn vars_read(instr: &Instr) -> (r: Vec<Symbol>)
    ensures
        r@.map_values(|x: Symbol| x@).no_duplicates(),
        syms_set(r@) == read_set(instr@),
{
    let mut r: Vec<Symbol> = Vec::new();
    proof {
        assert(syms_set(r@) =~= Set::<Seq<char>>::empty());
    }
    match instr {
        Instr::Addq { src, dst } => {
            push_arg_var(&mut r, src);
            push_arg_var(&mut r, dst);
        },
        Instr::Subq { src, dst } => {
            push_arg_var(&mut r, src);
            push_arg_var(&mut r, dst);
        },
        Instr::Movq { src, .. } => {
            push_arg_var(&mut r, src);
        },
        Instr::Negq(dst) => {
            push_arg_var(&mut r, dst);
        },
        Instr::Pushq(src) => {
            push_arg_var(&mut r, src);
        },
        _ => {},
    }
    proof {
        assert(syms_set(r@) =~= read_set(instr@));
    }
    r
}

fn vars_written(instr: &Instr) -> (r: Vec<Symbol>)
    ensures
        r@.map_values(|x: Symbol| x@).no_duplicates(),
        syms_set(r@) == write_set(instr@),
{
    let mut r: Vec<Symbol> = Vec::new();
    proof {
        assert(syms_set(r@) =~= Set::<Seq<char>>::empty());
    }
    match instr {
        Instr::Addq { dst, .. } => {
            push_arg_var(&mut r, dst);
        },
        Instr::Subq { dst, .. } => {
            push_arg_var(&mut r, dst);
        },
        Instr::Movq { dst, .. } => {
            push_arg_var(&mut r, dst);
        },
        Instr::Negq(dst) => {
            push_arg_var(&mut r, dst);
        },
        Instr::Popq(dst) => {
            push_arg_var(&mut r, dst);
        },
        _ => {},
    }
    proof {
        assert(syms_set(r@) =~= write_set(instr@));
    }
    r
}

fn live_before_instr(instr: &Instr, live_after: &Vec<Symbol>) -> (r: Vec<Symbol>)
    requires
        live_after@.map_values(|x: Symbol| x@).no_duplicates(),
    ensures
        r@.map_values(|x: Symbol| x@).no_duplicates(),
        syms_set(r@) == live_before(instr@, syms_set(live_after@)),
{
    let written = vars_written(instr);
    let read = vars_read(instr);
    let mut r: Vec<Symbol> = Vec::new();
    proof {
        assert(syms_set(r@) =~= Set::<Seq<char>>::empty());
    }
    let n = live_after.len();
    let mut i: usize = 0;
    while i < n
        invariant
            i <= n,
            n == live_after.len(),
            live_after@.map_values(|x: Symbol| x@).no_duplicates(),
            written@.map_values(|x: Symbol| x@).no_duplicates(),
            syms_set(written@) == write_set(instr@),
            r@.map_values(|x: Symbol| x@).no_duplicates(),
            syms_set(r@) == syms_set(live_after@.take(i as int)).difference(write_set(instr@)),
        decreases n - i,
    {
        let s = live_after[i].clone();
        proof {
            assert(live_after@.take(i + 1).drop_last() =~= live_after@.take(i as int));
            assert(live_after@.take(i + 1).map_values(|x: Symbol| x@) =~= live_after@.take(
                i as int,
            ).map_values(|x: Symbol| x@).push(s@));
            live_after@.take(i as int).map_values(|x: Symbol| x@).lemma_push_to_set_commute(s@);
        }
        if !contains_sym(&written, &s) {
            push_unique(&mut r, s);
        }
        proof {
            assert(syms_set(r@) =~= syms_set(live_after@.take(i + 1)).difference(
                write_set(instr@),
            ));
        }
        i = i + 1;
    }
    proof {
        assert(live_after@.take(n as int) =~= live_after@);
    }
    let nr = read.len();
    let mut j: usize = 0;
    while j < nr
        invariant
            j <= nr,
            nr == read.len(),
            read@.map_values(|x: Symbol| x@).no_duplicates(),
            syms_set(read@) == read_set(instr@),
            r@.map_values(|x: Symbol| x@).no_duplicates(),
            syms_set(r@) == syms_set(live_after@).difference(write_set(instr@)).union(
                syms_set(read@.take(j as int)),
            ),
        decreases nr - j,
    {
        let s = read[j].clone();
        proof {
            assert(read@.take(j + 1).drop_last() =~= read@.take(j as int));
            assert(read@.take(j + 1).map_values(|x: Symbol| x@) =~= read@.take(j as int).map_values(
                |x: Symbol| x@,
            ).push(s@));
            read@.take(j as int).map_values(|x: Symbol| x@).lemma_push_to_set_commute(s@);
        }
        push_unique(&mut r, s);
        proof {
            assert(syms_set(r@) =~= syms_set(live_after@).difference(write_set(instr@)).union(
                syms_set(read@.take(j + 1)),
            ));
        }
        j = j + 1;
    }
    proof {
        assert(read@.take(nr as int) =~= read@);
        assert(syms_set(r@) =~= live_before(instr@, syms_set(live_after@)));
    }
    r
}

fn live_sets_from(instrs: &Vec<Instr>, k: usize) -> (r: Vec<Vec<Symbol>>)
    requires
        k <= instrs.len(),
    ensures
        live_v(r@) == live_sets(instrs@.map_values(|i: Instr| i@).skip(k as int)),
        all_unique(r@),
        r@.len() == instrs.len() - k + 1,
    decreases instrs.len() - k,
{
    let ghost s = instrs@.map_values(|i: Instr| i@);
    if k == instrs.len() {
        let mut r: Vec<Vec<Symbol>> = Vec::new();
        let empty: Vec<Symbol> = Vec::new();
        r.push(empty);
        proof {
            assert(s.skip(k as int) =~= Seq::<InstrV>::empty());
            assert(syms_set(Seq::<Symbol>::empty()) =~= Set::<Seq<char>>::empty());
            assert(live_v(r@) =~= live_sets(s.skip(k as int)));
        }
        r
    } else {
        let mut rest = live_sets_from(instrs, k + 1);
        let lb = live_before_instr(&instrs[k], &rest[0]);
        rest.insert(0, lb);
        proof {
            let tail = s.skip(k as int);
            assert(tail.drop_first() =~= s.skip(k + 1));
            assert(tail.first() == s[k as int]);
            assert(live_v(rest@) =~= live_sets(s.skip(k as int)));
        }
        rest
    }
}

/// For each instruction of the block, the variables live before it; a
/// final empty set closes the block. Each list is free of duplicates.
pub fn uncover_live(block: &Block) -> (r: Vec<Vec<Symbol>>)
    ensures
        live_v(r@) == live_sets(block.instrs_v()),
        all_unique(r@),
        r@.len() == block.instrs@.len() + 1,
{
    let ghost s = block.instrs_v();
    let r = live_sets_from(&block.instrs, 0);
    proof {
        assert(s.skip(0) =~= s);
    }
    r
}

} // verus!
