//! The reference tree-walking interpreter, used for sanity checks against
//! the compiled output. A `read` action consumes the next value from a
//! caller-supplied input list; arithmetic wraps at 64 bits, as the
//! compiled x86 does.

use crate::rir::{well_scoped, Expr, ExprV, Lit, Symbol};
use crate::table::{map_of, Table};
use vstd::prelude::*;

verus! {

impl View for Lit {
    type V = i64;

    open spec fn view(&self) -> i64 {
        match *self {
            Lit::Int(i) => i,
        }
    }
}

/// How many `read` actions an expression performs, in evaluation order.
pub open spec fn read_count(e: ExprV) -> nat
    decreases e,
{
    match e {
        ExprV::Read => 1,
        ExprV::Int(_) => 0,
        ExprV::Neg(e1) => read_count(*e1),
        ExprV::Add(e1, e2) => read_count(*e1) + read_count(*e2),
        ExprV::Var(_) => 0,
        ExprV::Let(_, e1, body) => read_count(*e1) + read_count(*body),
    }
}

/// Binding a name the tree never mentions does not change its value.
pub proof fn lemma_eval_insert_unused(
    e: ExprV,
    env: Map<Seq<char>, i64>,
    n: Seq<char>,
    v: i64,
    inputs: Seq<i64>,
    pos: int,
)
    requires
        !crate::rir::mentions_name(e, n),
    ensures
        eval_expr(e, env.insert(n, v), inputs, pos) == eval_expr(e, env, inputs, pos),
    decreases e,
{
    match e {
        ExprV::Read => {},
        ExprV::Int(_) => {},
        ExprV::Neg(e1) => {
            lemma_eval_insert_unused(*e1, env, n, v, inputs, pos);
        },
        ExprV::Add(e1, e2) => {
            lemma_eval_insert_unused(*e1, env, n, v, inputs, pos);
            lemma_eval_insert_unused(*e2, env, n, v, inputs, pos + read_count(*e1));
        },
        ExprV::Var(_) => {},
        ExprV::Let(s, e1, body) => {
            lemma_eval_insert_unused(*e1, env, n, v, inputs, pos);
            let w = eval_expr(*e1, env, inputs, pos);
            assert(env.insert(n, v).insert(s, w) =~= env.insert(s, w).insert(n, v));
            lemma_eval_insert_unused(*body, env.insert(s, w), n, v, inputs, pos + read_count(*e1));
        },
    }
}

/// An expression performs at most one `read` per node.
pub proof fn lemma_read_count_le_size(e: ExprV)
    ensures
        read_count(e) <= crate::rir::expr_size(e),
    decreases e,
{
    match e {
        ExprV::Read => {},
        ExprV::Int(_) => {},
        ExprV::Neg(e1) => {
            lemma_read_count_le_size(*e1);
        },
        ExprV::Add(e1, e2) => {
            lemma_read_count_le_size(*e1);
            lemma_read_count_le_size(*e2);
        },
        ExprV::Var(_) => {},
        ExprV::Let(_, e1, body) => {
            lemma_read_count_le_size(*e1);
            lemma_read_count_le_size(*body);
        },
    }
}

/// Counts the `read` actions of an expression: how many input values an
/// evaluation will consume.
pub fn count_reads(expr: &Expr) -> (r: usize)
    requires
        crate::rir::expr_size(expr@) <= usize::MAX,
    ensures
        r == read_count(expr@),
    decreases *expr,
{
    proof {
        lemma_read_count_le_size(expr@);
    }
    match expr {
        Expr::Read => 1,
        Expr::Lit(_) => 0,
        Expr::Neg(e) => count_reads(e),
        Expr::Add(e1, e2) => count_reads(e1) + count_reads(e2),
        Expr::Var(_) => 0,
        Expr::Let(_, e, body) => count_reads(e) + count_reads(body),
    }
}

/// The value of `e` under the environment `env`, with the values that
/// successive `read` actions return given by `inputs` from position `pos`
/// on. Negation and addition wrap at 64 bits.
pub open spec fn eval_expr(e: ExprV, env: Map<Seq<char>, i64>, inputs: Seq<i64>, pos: int) -> i64
    decreases e,
{
    match e {
        ExprV::Read => inputs[pos],
        ExprV::Int(i) => i,
        ExprV::Neg(e1) => vstd::wrapping::i64_specs::wrapping_sub(
            0,
            eval_expr(*e1, env, inputs, pos),
        ),
        ExprV::Add(e1, e2) => vstd::wrapping::i64_specs::wrapping_add(
            eval_expr(*e1, env, inputs, pos),
            eval_expr(*e2, env, inputs, pos + read_count(*e1)),
        ),
        ExprV::Var(s) => env[s],
        ExprV::Let(s, e1, body) => eval_expr(
            *body,
            env.insert(s, eval_expr(*e1, env, inputs, pos)),
            inputs,
            pos + read_count(*e1),
        ),
    }
}

/// The interpreter's environment: each name in scope bound to its value.
pub struct Env {
    pub bindings: Table<Lit>,
}

impl Env {
    /// The environment as a map from names to values.
    pub open spec fn as_map(&self) -> Map<Seq<char>, i64> {
        map_of(self.bindings.entries())
    }

    pub fn new() -> (r: Env)
        ensures
            r.as_map() == Map::<Seq<char>, i64>::empty(),
    {
        let r = Env { bindings: Table::new() };
        proof {
            assert(r.as_map() =~= Map::<Seq<char>, i64>::empty());
        }
        r
    }

    /// Binds `sym` to `val`, shadowing any earlier binding.
    pub fn set(&mut self, sym: Box<Symbol>, val: Lit)
        ensures
            final(self).as_map() == old(self).as_map().insert(sym@, val@),
    {
        let key = sym.as_str().to_owned();
        self.bindings.push(key, val);
    }

    /// The value bound to `sym`, if any.
    pub fn get(&self, sym: &Symbol) -> (r: Option<Lit>)
        ensures
            match r {
                Some(v) => self.as_map().contains_key(sym@) && v@ == self.as_map()[sym@],
                None => !self.as_map().contains_key(sym@),
            },
    {
        let key = sym.as_str().to_owned();
        match self.bindings.lookup(&key) {
            Some(v) => Some(*v),
            None => None,
        }
    }

    /// A copy with the same bindings.
    pub fn shallow_clone(&self) -> (r: Env)
        ensures
            r.as_map() == self.as_map(),
    {
        Env { bindings: self.bindings.duplicate() }
    }
}

/// Evaluates `e` under `env`, drawing the values of `read` actions from
/// `inputs` starting at `*next`, and advancing `*next` past the values
/// consumed. Every free variable must be bound and enough inputs must
/// remain.
pub fn interp_expr(expr: &Expr, env: &Env, inputs: &Vec<i64>, next: &mut usize) -> (r: Lit)
    requires
        well_scoped(expr@, env.as_map().dom()),
        *old(next) + read_count(expr@) <= inputs@.len(),
    ensures
        r@ == eval_expr(expr@, env.as_map(), inputs@, *old(next) as int),
        *final(next) == *old(next) + read_count(expr@),
    decreases *expr,
{
    match expr {
        Expr::Read => {
            let total = inputs.len();
            proof {
                assert(read_count(expr@) == 1);
                assert(*next < total);
            }
            let v = inputs[*next];
            *next = *next + 1;
            Lit::Int(v)
        },
        Expr::Lit(lit) => *lit,
        Expr::Neg(e) => {
            match interp_expr(e, env, inputs, next) {
                Lit::Int(i) => Lit::Int((0i64).wrapping_sub(i)),
            }
        },
        Expr::Add(e1, e2) => {
            let interpd1 = interp_expr(e1, env, inputs, next);
            let interpd2 = interp_expr(e2, env, inputs, next);
            match (interpd1, interpd2) {
                (Lit::Int(i1), Lit::Int(i2)) => Lit::Int(i1.wrapping_add(i2)),
            }
        },
        Expr::Var(sym) => env.get(sym).unwrap(),
        Expr::Let(sym, e, body) => {
            let val = interp_expr(e, env, inputs, next);
            let mut new_env = env.shallow_clone();
            new_env.set(Box::new((**sym).clone()), val);
            interp_expr(body, &new_env, inputs, next)
        },
    }
}

} // verus!
