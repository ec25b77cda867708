//! The uncover-locals pass: collects into the program's info the set of
//! variable names assigned anywhere in any tail.

use crate::cir::{Info, Program, Stmt, StmtV, Symbol, Tail, TailV};
use vstd::prelude::*;

verus! {

/// The names assigned in one tail.
pub open spec fn tail_syms(t: TailV) -> Set<Seq<char>>
    decreases t,
{
    match t {
        TailV::Chain(stmt, rest) => match stmt {
            StmtV::Assign(s, _) => tail_syms(*rest).insert(s),
        },
        TailV::Ret(_) => Set::empty(),
    }
}

/// The names assigned across a sequence of labeled tails.
pub open spec fn tails_syms(ts: Seq<(Seq<char>, TailV)>) -> Set<Seq<char>>
    decreases ts.len(),
{
    if ts.len() == 0 {
        Set::empty()
    } else {
        tails_syms(ts.drop_last()).union(tail_syms(ts.last().1))
    }
}

struct Ctx {
    symbols: Vec<Symbol>,
}

impl Ctx {
    spec fn sym_seq(&self) -> Seq<Seq<char>> {
        self.symbols@.map_values(|s: Symbol| s@)
    }

    spec fn sym_set(&self) -> Set<Seq<char>> {
        self.sym_seq().to_set()
    }

    fn new() -> (r: Ctx)
        ensures
            r.symbols@ == Seq::<Symbol>::empty(),
    {
        Ctx { symbols: Vec::new() }
    }

    fn contains_sym(&self, sym: &Symbol) -> (r: bool)
        ensures
            r == self.sym_set().contains(sym@),
    {
        let n = self.symbols.len();
        let mut i: usize = 0;
        while i < n
            invariant
                i <= n,
                n == self.symbols.len(),
                forall|j: int| 0 <= j < i ==> #[trigger] self.sym_seq()[j] != sym@,
            decreases n - i,
        {
            if self.symbols[i].value == sym.value {
                proof {
                    assert(self.sym_seq()[i as int] == sym@);
                }
                return true;
            }
            i = i + 1;
        }
        proof {
            assert(!self.sym_seq().contains(sym@));
        }
        false
    }

    fn fold_stmt(&mut self, stmt: &Stmt)
        requires
            old(self).sym_seq().no_duplicates(),
        ensures
            final(self).sym_seq().no_duplicates(),
            final(self).sym_set() == old(self).sym_set().insert(
                match stmt@ {
                    StmtV::Assign(s, _) => s,
                },
            ),
    {
        match stmt {
            Stmt::Assign(sym, _) => {
                if !self.contains_sym(sym) {
                    self.symbols.push((**sym).clone());
                    proof {
                        assert(self.sym_seq() =~= old(self).sym_seq().push(sym@));
                        old(self).sym_seq().lemma_push_to_set_commute(sym@);
                        assert(self.sym_set() =~= old(self).sym_set().insert(sym@));
                    }
                } else {
                    proof {
                        assert(old(self).sym_set().contains(sym@));
                        assert(self.sym_set() =~~= old(self).sym_set().insert(sym@));
                    }
                }
            },
        }
    }

    fn fold_tail(&mut self, tail: &Tail)
        requires
            old(self).sym_seq().no_duplicates(),
        ensures
            final(self).sym_seq().no_duplicates(),
            final(self).sym_set() == old(self).sym_set().union(tail_syms(tail@)),
        decreases *tail,
    {
        if let Tail::Chain(stmt, t) = tail {
            self.fold_stmt(stmt);
            self.fold_tail(t);
            proof {
                assert(self.sym_set() =~= old(self).sym_set().union(tail_syms(tail@)));
            }
        } else {
            proof {
                assert(self.sym_set() =~= old(self).sym_set().union(tail_syms(tail@)));
            }
        }
    }
}

/// Collects every assigned name into the program's info. The tails are
/// kept unchanged; the collected names carry no duplicates.
pub fn fold_program(p: Program) -> (r: Program)
    ensures
        r.info.sym_set() == tails_syms(p.tails_v()),
        r.info.sym_seq().no_duplicates(),
        r.tails == p.tails,
        r.labels() == p.labels(),
{
    let mut ctx = Ctx::new();
    let n = p.tails.len();
    let mut i: usize = 0;
    proof {
        assert(ctx.sym_seq() =~= Seq::<Seq<char>>::empty());
        assert(ctx.sym_set() =~= tails_syms(p.tails_v().take(0)));
    }
    while i < n
        invariant
            i <= n,
            n == p.tails.len(),
            ctx.sym_seq().no_duplicates(),
            ctx.sym_set() == tails_syms(p.tails_v().take(i as int)),
        decreases n - i,
    {
        ctx.fold_tail(&p.tails[i].1);
        proof {
            let ts = p.tails_v();
            assert(ts.take(i + 1).drop_last() =~= ts.take(i as int));
            assert(ts.take(i + 1).last() == ts[i as int]);
            assert(ctx.sym_set() =~= tails_syms(ts.take(i + 1)));
        }
        i = i + 1;
    }
    proof {
        assert(p.tails_v().take(n as int) =~= p.tails_v());
    }
    Program { info: Info { symbols: ctx.symbols }, tails: p.tails }
}

} // verus!
