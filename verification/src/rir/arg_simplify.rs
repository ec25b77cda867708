//! The arg-simplify pass: produces an equivalent tree in which every
//! operand of a negation or addition is atomic (a literal or a variable),
//! introducing `let` bindings to name the results of complex operands.

use crate::rir::{
    fresh_name, fresh_name_string, is_atomic, operands_atomic, Expr, ExprV, Lit,
};
use vstd::prelude::*;

verus! {

/// How many names the pass mints while simplifying `e`: one per complex
/// operand of a negation or addition.
pub open spec fn simplify_mints(e: ExprV) -> nat
    decreases e,
{
    match e {
        ExprV::Read => 0,
        ExprV::Int(_) => 0,
        ExprV::Neg(op) => if !is_atomic(*op) {
            1 + simplify_mints(*op)
        } else {
            0
        },
        ExprV::Add(op1, op2) => {
            let m1 = if !is_atomic(*op1) {
                1 + simplify_mints(*op1)
            } else {
                0
            };
            let m2 = if !is_atomic(*op2) {
                1 + simplify_mints(*op2)
            } else {
                0
            };
            m1 + m2
        },
        ExprV::Var(_) => 0,
        ExprV::Let(_, e1, body) => simplify_mints(*e1) + simplify_mints(*body),
    }
}

/// What the pass computes on the tree `e` with next counter value `c`: the
/// simplified tree and the counter left behind. A complex operand is
/// hoisted into a `let` binding a fresh name; when both operands of an
/// addition are complex, the binding for the left operand encloses the one
/// for the right, so the left is evaluated first.
pub open spec fn simplify_expr(e: ExprV, c: nat) -> (ExprV, nat)
    decreases e,
{
    match e {
        ExprV::Read => (ExprV::Read, c),
        ExprV::Int(i) => (ExprV::Int(i), c),
        ExprV::Neg(op) => {
            if !is_atomic(*op) {
                let v = fresh_name(c);
                let (r1, c1) = simplify_expr(*op, c + 1);
                (ExprV::Let(v, Box::new(r1), Box::new(ExprV::Neg(Box::new(ExprV::Var(v))))), c1)
            } else {
                (ExprV::Neg(op), c)
            }
        },
        ExprV::Add(op1, op2) => {
            if !is_atomic(*op1) && !is_atomic(*op2) {
                let v1 = fresh_name(c);
                let (r1, c1) = simplify_expr(*op1, c + 1);
                let v2 = fresh_name(c1);
                let (r2, c2) = simplify_expr(*op2, c1 + 1);
                (
                    ExprV::Let(
                        v1,
                        Box::new(r1),
                        Box::new(
                            ExprV::Let(
                                v2,
                                Box::new(r2),
                                Box::new(
                                    ExprV::Add(
                                        Box::new(ExprV::Var(v1)),
                                        Box::new(ExprV::Var(v2)),
                                    ),
                                ),
                            ),
                        ),
                    ),
                    c2,
                )
            } else if !is_atomic(*op1) {
                let v1 = fresh_name(c);
                let (r1, c1) = simplify_expr(*op1, c + 1);
                (
                    ExprV::Let(
                        v1,
                        Box::new(r1),
                        Box::new(ExprV::Add(Box::new(ExprV::Var(v1)), op2)),
                    ),
                    c1,
                )
            } else if !is_atomic(*op2) {
                let v2 = fresh_name(c);
                let (r2, c1) = simplify_expr(*op2, c + 1);
                (
                    ExprV::Let(
                        v2,
                        Box::new(r2),
                        Box::new(ExprV::Add(op1, Box::new(ExprV::Var(v2)))),
                    ),
                    c1,
                )
            } else {
                (ExprV::Add(op1, op2), c)
            }
        },
        ExprV::Var(s) => (ExprV::Var(s), c),
        ExprV::Let(s, e1, body) => {
            let (r1, c1) = simplify_expr(*e1, c);
            let (rb, c2) = simplify_expr(*body, c1);
            (ExprV::Let(s, Box::new(r1), Box::new(rb)), c2)
        },
    }
}

/// The pass advances the counter by exactly its number of mints.
pub proof fn lemma_simplify_counter(e: ExprV, c: nat)
    ensures
        simplify_expr(e, c).1 == c + simplify_mints(e),
    decreases e,
{
    match e {
        ExprV::Read => {},
        ExprV::Int(_) => {},
        ExprV::Neg(op) => {
            if !is_atomic(*op) {
                lemma_simplify_counter(*op, c + 1);
            }
        },
        ExprV::Add(op1, op2) => {
            if !is_atomic(*op1) && !is_atomic(*op2) {
                lemma_simplify_counter(*op1, c + 1);
                let c1 = simplify_expr(*op1, c + 1).1;
                lemma_simplify_counter(*op2, c1 + 1);
            } else if !is_atomic(*op1) {
                lemma_simplify_counter(*op1, c + 1);
            } else if !is_atomic(*op2) {
                lemma_simplify_counter(*op2, c + 1);
            }
        },
        ExprV::Var(_) => {},
        ExprV::Let(_, e1, body) => {
            lemma_simplify_counter(*e1, c);
            lemma_simplify_counter(*body, simplify_expr(*e1, c).1);
        },
    }
}

/// Law: after arg-simplify, every operand of a negation or addition is a
/// literal or a variable.
pub proof fn lemma_simplify_atomic(e: ExprV, c: nat)
    ensures
        operands_atomic(simplify_expr(e, c).0),
    decreases e,
{
    reveal_with_fuel(operands_atomic, 4);
    match e {
        ExprV::Read => {},
        ExprV::Int(_) => {},
        ExprV::Neg(op) => {
            if !is_atomic(*op) {
                lemma_simplify_atomic(*op, c + 1);
            }
        },
        ExprV::Add(op1, op2) => {
            if !is_atomic(*op1) && !is_atomic(*op2) {
                lemma_simplify_atomic(*op1, c + 1);
                let c1 = simplify_expr(*op1, c + 1).1;
                lemma_simplify_atomic(*op2, c1 + 1);
            } else if !is_atomic(*op1) {
                lemma_simplify_atomic(*op1, c + 1);
            } else if !is_atomic(*op2) {
                lemma_simplify_atomic(*op2, c + 1);
            }
        },
        ExprV::Var(_) => {},
        ExprV::Let(_, e1, body) => {
            lemma_simplify_atomic(*e1, c);
            lemma_simplify_atomic(*body, simplify_expr(*e1, c).1);
        },
    }
}

/// The pass mints at most two names per node.
pub proof fn lemma_mints_le_size(e: ExprV)
    ensures
        simplify_mints(e) <= 2 * crate::rir::expr_size(e),
    decreases e,
{
    reveal_with_fuel(crate::rir::expr_size, 6);
    match e {
        ExprV::Read => {},
        ExprV::Int(_) => {},
        ExprV::Neg(op) => {
            lemma_mints_le_size(*op);
        },
        ExprV::Add(op1, op2) => {
            lemma_mints_le_size(*op1);
            lemma_mints_le_size(*op2);
        },
        ExprV::Var(_) => {},
        ExprV::Let(_, e1, body) => {
            lemma_mints_le_size(*e1);
            lemma_mints_le_size(*body);
        },
    }
}

/// Hoisting a complex operand wraps it in a few fixed nodes, so the
/// output stays within a constant factor of the input's size.
pub proof fn lemma_simplify_size(e: ExprV, c: nat)
    ensures
        crate::rir::expr_size(simplify_expr(e, c).0) <= 7 * crate::rir::expr_size(e),
    decreases e,
{
    reveal_with_fuel(crate::rir::expr_size, 6);
    match e {
        ExprV::Read => {},
        ExprV::Int(_) => {},
        ExprV::Neg(op) => {
            if !is_atomic(*op) {
                lemma_simplify_size(*op, c + 1);
            }
        },
        ExprV::Add(op1, op2) => {
            if !is_atomic(*op1) && !is_atomic(*op2) {
                lemma_simplify_size(*op1, c + 1);
                let c1 = simplify_expr(*op1, c + 1).1;
                lemma_simplify_size(*op2, c1 + 1);
            } else if !is_atomic(*op1) {
                lemma_simplify_size(*op1, c + 1);
            } else if !is_atomic(*op2) {
                lemma_simplify_size(*op2, c + 1);
            }
        },
        ExprV::Var(_) => {},
        ExprV::Let(_, e1, body) => {
            lemma_simplify_size(*e1, c);
            lemma_simplify_size(*body, simplify_expr(*e1, c).1);
        },
    }
}

/// Hoisting changes no `read` action, nor the order they run in.
pub proof fn lemma_simplify_read_count(e: ExprV, c: nat)
    ensures
        crate::rir::interp::read_count(simplify_expr(e, c).0) == crate::rir::interp::read_count(e),
    decreases e,
{
    reveal_with_fuel(crate::rir::interp::read_count, 6);
    match e {
        ExprV::Read => {},
        ExprV::Int(_) => {},
        ExprV::Neg(op) => {
            if !is_atomic(*op) {
                lemma_simplify_read_count(*op, c + 1);
            }
        },
        ExprV::Add(op1, op2) => {
            if !is_atomic(*op1) && !is_atomic(*op2) {
                lemma_simplify_read_count(*op1, c + 1);
                let c1 = simplify_expr(*op1, c + 1).1;
                lemma_simplify_read_count(*op2, c1 + 1);
            } else if !is_atomic(*op1) {
                lemma_simplify_read_count(*op1, c + 1);
            } else if !is_atomic(*op2) {
                lemma_simplify_read_count(*op2, c + 1);
            }
        },
        ExprV::Var(_) => {},
        ExprV::Let(_, e1, body) => {
            lemma_simplify_read_count(*e1, c);
            lemma_simplify_read_count(*body, simplify_expr(*e1, c).1);
        },
    }
}

/// Law (toward end-to-end equivalence): hoisting complex operands into
/// `let` bindings preserves the reference interpretation, provided every
/// name in the tree was minted below the pass's starting counter — the
/// shape `uniquify` leaves behind — so the new bindings shadow nothing.
pub proof fn lemma_simplify_preserves_eval(
    e: ExprV,
    c: nat,
    env: Map<Seq<char>, i64>,
    inputs: Seq<i64>,
    pos: int,
)
    requires
        crate::rir::names_below(e, c),
    ensures
        crate::rir::interp::eval_expr(simplify_expr(e, c).0, env, inputs, pos)
            == crate::rir::interp::eval_expr(e, env, inputs, pos),
    decreases e,
{
    reveal_with_fuel(crate::rir::interp::eval_expr, 6);
    match e {
        ExprV::Read => {},
        ExprV::Int(_) => {},
        ExprV::Neg(op) => {
            if !is_atomic(*op) {
                crate::rir::lemma_names_below_mono(*op, c, c + 1);
                lemma_simplify_preserves_eval(*op, c + 1, env, inputs, pos);
            }
        },
        ExprV::Add(op1, op2) => {
            let p2 = pos + crate::rir::interp::read_count(*op1);
            if !is_atomic(*op1) && !is_atomic(*op2) {
                let v1 = fresh_name(c);
                crate::rir::lemma_names_below_mono(*op1, c, c + 1);
                lemma_simplify_preserves_eval(*op1, c + 1, env, inputs, pos);
                let r1 = simplify_expr(*op1, c + 1).0;
                let c1 = simplify_expr(*op1, c + 1).1;
                lemma_simplify_counter(*op1, c + 1);
                lemma_simplify_read_count(*op1, c + 1);
                let v2 = fresh_name(c1);
                let w1 = crate::rir::interp::eval_expr(r1, env, inputs, pos);
                let env1 = env.insert(v1, w1);
                crate::rir::lemma_names_below_mono(*op2, c, c1 + 1);
                lemma_simplify_preserves_eval(*op2, c1 + 1, env1, inputs, p2);
                crate::rir::lemma_names_below_not_mentioned(*op2, c, c);
                crate::rir::interp::lemma_eval_insert_unused(*op2, env, v1, w1, inputs, p2);
                if v1 == v2 {
                    crate::rir::lemma_fresh_name_injective(c, c1);
                }
                assert(v1 != v2);
            } else if !is_atomic(*op1) {
                let v1 = fresh_name(c);
                crate::rir::lemma_names_below_mono(*op1, c, c + 1);
                lemma_simplify_preserves_eval(*op1, c + 1, env, inputs, pos);
                lemma_simplify_read_count(*op1, c + 1);
                let r1 = simplify_expr(*op1, c + 1).0;
                let w1 = crate::rir::interp::eval_expr(r1, env, inputs, pos);
                crate::rir::lemma_names_below_not_mentioned(*op2, c, c);
                crate::rir::interp::lemma_eval_insert_unused(*op2, env, v1, w1, inputs, p2);
            } else if !is_atomic(*op2) {
                let v2 = fresh_name(c);
                crate::rir::lemma_names_below_mono(*op2, c, c + 1);
                lemma_simplify_preserves_eval(*op2, c + 1, env, inputs, pos);
                lemma_simplify_read_count(*op2, c + 1);
                let r2 = simplify_expr(*op2, c + 1).0;
                let w2 = crate::rir::interp::eval_expr(r2, env, inputs, pos);
                crate::rir::lemma_names_below_not_mentioned(*op1, c, c);
                crate::rir::interp::lemma_eval_insert_unused(*op1, env, v2, w2, inputs, pos);
            }
        },
        ExprV::Var(_) => {},
        ExprV::Let(s, e1, body) => {
            lemma_simplify_preserves_eval(*e1, c, env, inputs, pos);
            let c1 = simplify_expr(*e1, c).1;
            lemma_simplify_counter(*e1, c);
            lemma_simplify_read_count(*e1, c);
            let w = crate::rir::interp::eval_expr(*e1, env, inputs, pos);
            crate::rir::lemma_names_below_mono(*body, c, c1);
            lemma_simplify_preserves_eval(
                *body,
                c1,
                env.insert(s, w),
                inputs,
                pos + crate::rir::interp::read_count(*e1),
            );
        },
    }
}

/// Mints fresh names for the operands the pass hoists. The counter
/// continues from wherever `uniquify` left it, so the new names stay
/// globally unique.
pub struct ExprArgSimplifier {
    pub counter: u64,
}

impl ExprArgSimplifier {
    pub fn new(counter: u64) -> (r: ExprArgSimplifier)
        ensures
            r.counter == counter,
    {
        ExprArgSimplifier { counter }
    }

    /// Mints the next fresh name.
    pub fn new_sym_name(&mut self) -> (r: String)
        requires
            old(self).counter < u64::MAX,
        ensures
            r@ == fresh_name(old(self).counter as nat),
            final(self).counter == old(self).counter + 1,
    {
        let name = fresh_name_string(self.counter);
        self.counter = self.counter + 1;
        name
    }

    /// Rewrites `e` so that every operand of a negation or addition is
    /// atomic. The counter must have room for one mint per complex
    /// operand.
    pub fn fold(&mut self, e: Box<Expr>) -> (r: Box<Expr>)
        requires
            old(self).counter + simplify_mints(e@) <= u64::MAX,
        ensures
            ({
                let (rv, c2) = simplify_expr(e@, old(self).counter as nat);
                r@ == rv && final(self).counter as nat == c2
            }),
        decreases *e,
    {
        let ghost c0 = self.counter as nat;
        match *e {
            Expr::Read => Box::new(Expr::Read),
            Expr::Lit(l) => Box::new(Expr::Lit(l)),
            Expr::Neg(op) => {
                if is_complex_operand(&op) {
                    let new_sym_name = self.new_sym_name();
                    let folded_op = self.fold(op);
                    Expr::let_bind(
                        new_sym_name.as_str(),
                        folded_op,
                        Expr::neg(Expr::var(new_sym_name.as_str())),
                    )
                } else {
                    Expr::neg(op)
                }
            },
            Expr::Add(op1, op2) => {
                match (is_complex_operand(&op1), is_complex_operand(&op2)) {
                    (true, true) => {
                        proof {
                            lemma_simplify_counter(op1@, c0 + 1);
                        }
                        let new_sym_name1 = self.new_sym_name();
                        let folded_op1 = self.fold(op1);
                        let new_sym_name2 = self.new_sym_name();
                        let folded_op2 = self.fold(op2);
                        Expr::let_bind(
                            new_sym_name1.as_str(),
                            folded_op1,
                            Expr::let_bind(
                                new_sym_name2.as_str(),
                                folded_op2,
                                Expr::add(
                                    Expr::var(new_sym_name1.as_str()),
                                    Expr::var(new_sym_name2.as_str()),
                                ),
                            ),
                        )
                    },
                    (true, false) => {
                        let new_sym_name = self.new_sym_name();
                        let folded_op1 = self.fold(op1);
                        Expr::let_bind(
                            new_sym_name.as_str(),
                            folded_op1,
                            Expr::add(Expr::var(new_sym_name.as_str()), op2),
                        )
                    },
                    (false, true) => {
                        let new_sym_name = self.new_sym_name();
                        let folded_op2 = self.fold(op2);
                        Expr::let_bind(
                            new_sym_name.as_str(),
                            folded_op2,
                            Expr::add(op1, Expr::var(new_sym_name.as_str())),
                        )
                    },
                    (false, false) => Expr::add(op1, op2),
                }
            },
            Expr::Var(s) => Box::new(Expr::Var(s)),
            Expr::Let(sym, e1, body) => {
                proof {
                    lemma_simplify_counter(e1@, c0);
                }
                let r1 = self.fold(e1);
                let rb = self.fold(body);
                Box::new(Expr::Let(sym, r1, rb))
            },
        }
    }
}

/// An operand is complex when it is not a literal or variable reference.
pub fn is_complex_operand(op: &Expr) -> (r: bool)
    ensures
        r == !is_atomic(op@),
{
    match *op {
        Expr::Lit(_) => false,
        Expr::Var(_) => false,
        _ => true,
    }
}

} // verus!
