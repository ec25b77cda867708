//! The uniquify pass: renames every bound variable to a freshly minted
//! name while preserving meaning under lexical scoping and shadowing.

use crate::rir::{
    fresh_name, fresh_name_string, n_lets, well_scoped, Expr, ExprV, Program, Symbol,
};
use crate::table::{map_of, Table};
use vstd::prelude::*;

verus! {

/// What the pass computes on the tree `e`, with `m` mapping each source
/// name in scope to its minted replacement and `c` the next counter value:
/// the renamed tree, and the counter left for later passes.
pub open spec fn uniquify_expr(e: ExprV, m: Map<Seq<char>, Seq<char>>, c: nat) -> (ExprV, nat)
    decreases e,
{
    match e {
        ExprV::Read => (ExprV::Read, c),
        ExprV::Int(i) => (ExprV::Int(i), c),
        ExprV::Neg(e1) => {
            let (r1, c1) = uniquify_expr(*e1, m, c);
            (ExprV::Neg(Box::new(r1)), c1)
        },
        ExprV::Add(e1, e2) => {
            let (r1, c1) = uniquify_expr(*e1, m, c);
            let (r2, c2) = uniquify_expr(*e2, m, c1);
            (ExprV::Add(Box::new(r1), Box::new(r2)), c2)
        },
        ExprV::Var(s) => (ExprV::Var(m[s]), c),
        ExprV::Let(s, e1, body) => {
            let (r1, c1) = uniquify_expr(*e1, m, c);
            let g = fresh_name(c1);
            let (rb, c2) = uniquify_expr(*body, m.insert(s, g), c1 + 1);
            (ExprV::Let(g, Box::new(r1), Box::new(rb)), c2)
        },
    }
}

/// The pass advances the counter by exactly one per `let` binding.
pub proof fn lemma_uniquify_counter(e: ExprV, m: Map<Seq<char>, Seq<char>>, c: nat)
    ensures
        uniquify_expr(e, m, c).1 == c + n_lets(e),
    decreases e,
{
    match e {
        ExprV::Read => {},
        ExprV::Int(_) => {},
        ExprV::Neg(e1) => {
            lemma_uniquify_counter(*e1, m, c);
        },
        ExprV::Add(e1, e2) => {
            lemma_uniquify_counter(*e1, m, c);
            lemma_uniquify_counter(*e2, m, uniquify_expr(*e1, m, c).1);
        },
        ExprV::Var(_) => {},
        ExprV::Let(s, e1, body) => {
            lemma_uniquify_counter(*e1, m, c);
            let c1 = uniquify_expr(*e1, m, c).1;
            lemma_uniquify_counter(*body, m.insert(s, fresh_name(c1)), c1 + 1);
        },
    }
}

/// Renaming changes no node, so the tree's size is kept exactly.
pub proof fn lemma_uniquify_size(e: ExprV, m: Map<Seq<char>, Seq<char>>, c: nat)
    ensures
        crate::rir::expr_size(uniquify_expr(e, m, c).0) == crate::rir::expr_size(e),
    decreases e,
{
    match e {
        ExprV::Read => {},
        ExprV::Int(_) => {},
        ExprV::Neg(e1) => {
            lemma_uniquify_size(*e1, m, c);
        },
        ExprV::Add(e1, e2) => {
            lemma_uniquify_size(*e1, m, c);
            lemma_uniquify_size(*e2, m, uniquify_expr(*e1, m, c).1);
        },
        ExprV::Var(_) => {},
        ExprV::Let(s, e1, body) => {
            lemma_uniquify_size(*e1, m, c);
            let c1 = uniquify_expr(*e1, m, c).1;
            lemma_uniquify_size(*body, m.insert(s, fresh_name(c1)), c1 + 1);
        },
    }
}

/// Renaming changes no `read` action.
pub proof fn lemma_uniquify_read_count(e: ExprV, m: Map<Seq<char>, Seq<char>>, c: nat)
    ensures
        crate::rir::interp::read_count(uniquify_expr(e, m, c).0) == crate::rir::interp::read_count(
            e,
        ),
    decreases e,
{
    match e {
        ExprV::Read => {},
        ExprV::Int(_) => {},
        ExprV::Neg(e1) => {
            lemma_uniquify_read_count(*e1, m, c);
        },
        ExprV::Add(e1, e2) => {
            lemma_uniquify_read_count(*e1, m, c);
            lemma_uniquify_read_count(*e2, m, uniquify_expr(*e1, m, c).1);
        },
        ExprV::Var(_) => {},
        ExprV::Let(s, e1, body) => {
            lemma_uniquify_read_count(*e1, m, c);
            let c1 = uniquify_expr(*e1, m, c).1;
            lemma_uniquify_read_count(*body, m.insert(s, crate::rir::fresh_name(c1)), c1 + 1);
        },
    }
}

/// The scope map sends every name to one minted below `c`.
pub open spec fn scope_minted(m: Map<Seq<char>, Seq<char>>, c: nat) -> bool {
    forall|x: Seq<char>| #[trigger]
        m.dom().contains(x) ==> crate::rir::is_minted_below(m[x], c)
}

/// Every name in the renamed tree — reference or binder — is minted below
/// the counter the pass leaves behind.
pub proof fn lemma_uniquify_names_below(e: ExprV, m: Map<Seq<char>, Seq<char>>, c: nat)
    requires
        well_scoped(e, m.dom()),
        scope_minted(m, c),
    ensures
        crate::rir::names_below(uniquify_expr(e, m, c).0, uniquify_expr(e, m, c).1),
    decreases e,
{
    lemma_uniquify_counter(e, m, c);
    match e {
        ExprV::Read => {},
        ExprV::Int(_) => {},
        ExprV::Neg(e1) => {
            lemma_uniquify_names_below(*e1, m, c);
        },
        ExprV::Add(e1, e2) => {
            lemma_uniquify_names_below(*e1, m, c);
            let c1 = uniquify_expr(*e1, m, c).1;
            lemma_uniquify_counter(*e1, m, c);
            assert(scope_minted(m, c1)) by {
                assert forall|x: Seq<char>| #[trigger]
                    m.dom().contains(x) implies crate::rir::is_minted_below(m[x], c1) by {
                    crate::rir::lemma_minted_mono(m[x], c, c1);
                }
            }
            crate::rir::lemma_names_below_mono(uniquify_expr(*e1, m, c).0, c1, uniquify_expr(
                *e2,
                m,
                c1,
            ).1);
            lemma_uniquify_counter(*e2, m, c1);
            lemma_uniquify_names_below(*e2, m, c1);
        },
        ExprV::Var(s) => {
            assert(m.dom().contains(s));
        },
        ExprV::Let(s, e1, body) => {
            lemma_uniquify_names_below(*e1, m, c);
            let c1 = uniquify_expr(*e1, m, c).1;
            lemma_uniquify_counter(*e1, m, c);
            let g = crate::rir::fresh_name(c1);
            let m2 = m.insert(s, g);
            assert(scope_minted(m2, c1 + 1)) by {
                assert forall|x: Seq<char>| #[trigger]
                    m2.dom().contains(x) implies crate::rir::is_minted_below(m2[x], c1 + 1) by {
                    if x == s {
                        assert(c1 < c1 + 1 && g == crate::rir::fresh_name(c1));
                    } else {
                        crate::rir::lemma_minted_mono(m[x], c, c1 + 1);
                    }
                }
            }
            lemma_uniquify_names_below(*body, m2, c1 + 1);
            let c2 = uniquify_expr(*body, m2, c1 + 1).1;
            lemma_uniquify_counter(*body, m2, c1 + 1);
            crate::rir::lemma_names_below_mono(uniquify_expr(*e1, m, c).0, c1, c2);
            assert(crate::rir::is_minted_below(g, c2)) by {
                assert(c1 < c2 && g == crate::rir::fresh_name(c1));
            }
        },
    }
}

/// Law (toward end-to-end equivalence): renaming preserves the reference
/// interpretation. If the target environment gives each minted name the
/// value the source environment gives the name it replaced, the renamed
/// tree evaluates to the same value as the original.
pub proof fn lemma_uniquify_preserves_eval(
    e: ExprV,
    m: Map<Seq<char>, Seq<char>>,
    c: nat,
    es: Map<Seq<char>, i64>,
    et: Map<Seq<char>, i64>,
    inputs: Seq<i64>,
    pos: int,
)
    requires
        well_scoped(e, m.dom()),
        scope_minted(m, c),
        forall|x: Seq<char>| #[trigger] m.dom().contains(x) ==> et[m[x]] == es[x],
    ensures
        crate::rir::interp::eval_expr(uniquify_expr(e, m, c).0, et, inputs, pos)
            == crate::rir::interp::eval_expr(e, es, inputs, pos),
    decreases e,
{
    match e {
        ExprV::Read => {},
        ExprV::Int(_) => {},
        ExprV::Neg(e1) => {
            lemma_uniquify_preserves_eval(*e1, m, c, es, et, inputs, pos);
        },
        ExprV::Add(e1, e2) => {
            lemma_uniquify_preserves_eval(*e1, m, c, es, et, inputs, pos);
            let c1 = uniquify_expr(*e1, m, c).1;
            lemma_uniquify_counter(*e1, m, c);
            lemma_uniquify_read_count(*e1, m, c);
            assert(scope_minted(m, c1)) by {
                assert forall|x: Seq<char>| #[trigger]
                    m.dom().contains(x) implies crate::rir::is_minted_below(m[x], c1) by {
                    crate::rir::lemma_minted_mono(m[x], c, c1);
                }
            }
            lemma_uniquify_preserves_eval(
                *e2,
                m,
                c1,
                es,
                et,
                inputs,
                pos + crate::rir::interp::read_count(*e1),
            );
        },
        ExprV::Var(_) => {},
        ExprV::Let(s, e1, body) => {
            lemma_uniquify_preserves_eval(*e1, m, c, es, et, inputs, pos);
            let c1 = uniquify_expr(*e1, m, c).1;
            lemma_uniquify_counter(*e1, m, c);
            lemma_uniquify_read_count(*e1, m, c);
            let g = crate::rir::fresh_name(c1);
            let w = crate::rir::interp::eval_expr(*e1, es, inputs, pos);
            let m2 = m.insert(s, g);
            let es2 = es.insert(s, w);
            let et2 = et.insert(g, w);
            assert(scope_minted(m2, c1 + 1)) by {
                assert forall|x: Seq<char>| #[trigger]
                    m2.dom().contains(x) implies crate::rir::is_minted_below(m2[x], c1 + 1) by {
                    if x == s {
                        assert(c1 < c1 + 1 && g == crate::rir::fresh_name(c1));
                    } else {
                        crate::rir::lemma_minted_mono(m[x], c, c1 + 1);
                    }
                }
            }
            assert forall|x: Seq<char>| #[trigger] m2.dom().contains(x) implies et2[m2[x]]
                == es2[x] by {
                if x != s {
                    crate::rir::lemma_minted_ne_fresh(m[x], c, c1);
                }
            }
            lemma_uniquify_preserves_eval(
                *body,
                m2,
                c1 + 1,
                es2,
                et2,
                inputs,
                pos + crate::rir::interp::read_count(*e1),
            );
        },
    }
}

/// Maintains the state necessary for renaming the variables of a tree: the
/// counter that mints fresh names, and the scope map from source names to
/// their current minted replacements.
pub struct ExprUniquifier {
    pub counter: u64,
    pub sym_table: Table<Symbol>,
}

impl ExprUniquifier {
    /// The scope map's entries, most recent last.
    pub closed spec fn table_entries(&self) -> Seq<(Seq<char>, Seq<char>)> {
        self.sym_table.entries()
    }

    /// The names currently in scope, mapped to their minted replacements.
    pub open spec fn scope_map(&self) -> Map<Seq<char>, Seq<char>> {
        map_of(self.table_entries())
    }

    pub fn new(counter: u64) -> (r: ExprUniquifier)
        ensures
            r.counter == counter,
            r.table_entries() == Seq::<(Seq<char>, Seq<char>)>::empty(),
    {
        ExprUniquifier { counter, sym_table: Table::new() }
    }

    /// Mints the next fresh symbol.
    pub fn new_sym(&mut self) -> (r: Box<Symbol>)
        requires
            old(self).counter < u64::MAX,
        ensures
            r@ == fresh_name(old(self).counter as nat),
            final(self).counter == old(self).counter + 1,
            final(self).table_entries() == old(self).table_entries(),
    {
        let name = fresh_name_string(self.counter);
        let sym = Box::new(Symbol::new(name.as_str()));
        self.counter = self.counter + 1;
        sym
    }

    /// Renames every bound variable of `e` to a fresh name. Every free
    /// variable must be in scope, and the counter must have room for one
    /// mint per `let`.
    pub fn fold(&mut self, e: Box<Expr>) -> (r: Box<Expr>)
        requires
            well_scoped(e@, old(self).scope_map().dom()),
            old(self).counter + n_lets(e@) <= u64::MAX,
        ensures
            ({
                let (rv, c2) = uniquify_expr(e@, old(self).scope_map(), old(self).counter as nat);
                r@ == rv && final(self).counter as nat == c2
            }),
            final(self).table_entries() == old(self).table_entries(),
        decreases *e,
    {
        let ghost m = old(self).scope_map();
        let ghost c0 = old(self).counter as nat;
        match *e {
            Expr::Read => Box::new(Expr::Read),
            Expr::Lit(l) => Box::new(Expr::Lit(l)),
            Expr::Neg(e1) => {
                let r1 = self.fold(e1);
                Box::new(Expr::Neg(r1))
            },
            Expr::Add(e1, e2) => {
                proof {
                    lemma_uniquify_counter(e1@, m, c0);
                }
                let r1 = self.fold(e1);
                let r2 = self.fold(e2);
                Box::new(Expr::Add(r1, r2))
            },
            Expr::Var(s) => {
                let gen_sym = self.sym_table.lookup(&s.value).unwrap().clone();
                Box::new(Expr::Var(Box::new(gen_sym)))
            },
            Expr::Let(sym, e1, body) => {
                proof {
                    lemma_uniquify_counter(e1@, m, c0);
                }
                let folded_val = self.fold(e1);
                let gen_sym = self.new_sym();
                let key = sym.value.clone();
                self.sym_table.push(key, (*gen_sym).clone());
                let folded_body = self.fold(body);
                self.sym_table.pop_entry();
                proof {
                    assert(self.table_entries() =~= old(self).table_entries());
                }
                Box::new(Expr::Let(gen_sym, folded_val, folded_body))
            },
        }
    }
}

pub struct ProgramUniquifier {}

impl ProgramUniquifier {
    /// Renames every bound variable of the program, minting names from the
    /// conventional seed.
    pub fn fold(&mut self, p: Program) -> (r: Program)
        requires
            well_scoped(p@, Set::empty()),
            n_lets(p@) + 12345 <= u64::MAX,
        ensures
            r@ == uniquify_expr(p@, Map::empty(), 12345).0,
    {
        let mut ctx = ExprUniquifier::new(12345);
        proof {
            assert(ctx.scope_map() =~= Map::<Seq<char>, Seq<char>>::empty());
        }
        Program::new(ctx.fold(p.expr))
    }
}

/// Law: uniquify is idempotent. After one pass every binding carries a
/// minted name and every variable lookup resolves to itself, so running
/// the pass again from the same counter reproduces the tree and the
/// counter exactly.
pub proof fn lemma_uniquify_idempotent(e: ExprV, c: nat)
    requires
        well_scoped(e, Set::empty()),
    ensures
        uniquify_expr(uniquify_expr(e, Map::empty(), c).0, Map::empty(), c) == uniquify_expr(
            e,
            Map::empty(),
            c,
        ),
{
    lemma_uniquify_second_pass(e, Map::empty(), c, Map::empty());
    let (e1, c1) = uniquify_expr(e, Map::empty(), c);
    assert(uniquify_expr(e1, Map::empty(), c) == (e1, c1));
}

/// Running the pass on an already renamed tree, under a scope map that
/// sends every reachable minted name to itself, changes nothing.
proof fn lemma_uniquify_second_pass(
    e: ExprV,
    m: Map<Seq<char>, Seq<char>>,
    c: nat,
    idm: Map<Seq<char>, Seq<char>>,
)
    requires
        well_scoped(e, m.dom()),
        forall|s: Seq<char>| #[trigger]
            m.dom().contains(s) ==> idm.dom().contains(m[s]) && idm[m[s]] == m[s],
    ensures
        ({
            let (e1, c1) = uniquify_expr(e, m, c);
            uniquify_expr(e1, idm, c) == (e1, c1)
        }),
    decreases e,
{
    match e {
        ExprV::Read => {},
        ExprV::Int(_) => {},
        ExprV::Neg(e1) => {
            lemma_uniquify_second_pass(*e1, m, c, idm);
        },
        ExprV::Add(ea, eb) => {
            lemma_uniquify_second_pass(*ea, m, c, idm);
            let c1 = uniquify_expr(*ea, m, c).1;
            lemma_uniquify_second_pass(*eb, m, c1, idm);
        },
        ExprV::Var(_) => {},
        ExprV::Let(s, ea, body) => {
            lemma_uniquify_second_pass(*ea, m, c, idm);
            let c1 = uniquify_expr(*ea, m, c).1;
            let g = fresh_name(c1);
            let m2 = m.insert(s, g);
            let idm2 = idm.insert(g, g);
            assert forall|t: Seq<char>| #[trigger] m2.dom().contains(t) implies idm2.dom().contains(
                m2[t],
            ) && idm2[m2[t]] == m2[t] by {
                if t != s {
                    assert(m.dom().contains(t));
                    if m[t] != g {
                        assert(idm2.dom().contains(m[t]));
                    }
                }
            }
            lemma_uniquify_second_pass(*body, m2, c1 + 1, idm2);
        },
    }
}

} // verus!
