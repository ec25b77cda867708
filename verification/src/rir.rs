//! RIR: the source intermediate representation. It corresponds directly to
//! the abstract syntax tree of the source language.

pub mod arg_simplify;
pub mod explicate;
pub mod interp;
pub mod uniquify;

use vstd::prelude::*;

verus! {

/// Ghost mirror of an expression tree, used by every contract in this
/// module: a symbol is abstracted to its character sequence.
pub ghost enum ExprV {
    Read,
    Int(i64),
    Neg(Box<ExprV>),
    Add(Box<ExprV>, Box<ExprV>),
    Var(Seq<char>),
    Let(Seq<char>, Box<ExprV>, Box<ExprV>),
}

/// Symbol used for variable names.
#[derive(Debug, PartialEq, Eq, Hash)]
pub struct Symbol {
    value: String,
}

impl View for Symbol {
    type V = Seq<char>;

    closed spec fn view(&self) -> Seq<char> {
        self.value@
    }
}

impl Symbol {
    pub fn new(value: &str) -> (r: Symbol)
        ensures
            r@ == value@,
    {
        Symbol { value: value.to_owned() }
    }

    /// The symbol's name, for callers outside the expression tree.
    pub fn as_str(&self) -> (r: &str)
        ensures
            r@ == self@,
    {
        self.value.as_str()
    }
}

impl Clone for Symbol {
    fn clone(&self) -> (r: Symbol)
        ensures
            r == *self,
    {
        Symbol { value: self.value.clone() }
    }
}

/// Literal values; everything in the language is a 64-bit integer.
#[derive(Clone, Copy, Debug, PartialEq)]
pub enum Lit {
    Int(i64),
}

#[derive(Debug, PartialEq)]
pub enum Expr {
    Read,
    Lit(Lit),
    Neg(Box<Expr>),
    Add(Box<Expr>, Box<Expr>),
    Var(Box<Symbol>),
    Let(Box<Symbol>, Box<Expr>, Box<Expr>),
}

pub open spec fn expr_v(e: Expr) -> ExprV
    decreases e,
{
    match e {
        Expr::Read => ExprV::Read,
        Expr::Lit(Lit::Int(i)) => ExprV::Int(i),
        Expr::Neg(e1) => ExprV::Neg(Box::new(expr_v(*e1))),
        Expr::Add(e1, e2) => ExprV::Add(Box::new(expr_v(*e1)), Box::new(expr_v(*e2))),
        Expr::Var(s) => ExprV::Var(s@),
        Expr::Let(s, e1, body) => ExprV::Let(s@, Box::new(expr_v(*e1)), Box::new(expr_v(*body))),
    }
}

impl View for Expr {
    type V = ExprV;

    open spec fn view(&self) -> ExprV {
        expr_v(*self)
    }
}

impl Clone for Expr {
    fn clone(&self) -> (r: Expr)
        ensures
            r == *self,
        decreases self,
    {
        match self {
            Expr::Read => Expr::Read,
            Expr::Lit(l) => Expr::Lit(*l),
            Expr::Neg(e1) => Expr::Neg(Box::new((**e1).clone())),
            Expr::Add(e1, e2) => Expr::Add(Box::new((**e1).clone()), Box::new((**e2).clone())),
            Expr::Var(s) => Expr::Var(Box::new((**s).clone())),
            Expr::Let(s, e1, body) => Expr::Let(
                Box::new((**s).clone()),
                Box::new((**e1).clone()),
                Box::new((**body).clone()),
            ),
        }
    }
}

impl Expr {
    pub fn read() -> (r: Box<Expr>)
        ensures
            r@ == ExprV::Read,
    {
        Box::new(Expr::Read)
    }

    pub fn lit(i: i64) -> (r: Box<Expr>)
        ensures
            r@ == ExprV::Int(i),
    {
        Box::new(Expr::Lit(Lit::Int(i)))
    }

    pub fn neg(e: Box<Expr>) -> (r: Box<Expr>)
        ensures
            r@ == ExprV::Neg(Box::new(e@)),
    {
        Box::new(Expr::Neg(e))
    }

    pub fn add(e1: Box<Expr>, e2: Box<Expr>) -> (r: Box<Expr>)
        ensures
            r@ == ExprV::Add(Box::new(e1@), Box::new(e2@)),
    {
        Box::new(Expr::Add(e1, e2))
    }

    pub fn var(s: &str) -> (r: Box<Expr>)
        ensures
            r@ == ExprV::Var(s@),
    {
        Box::new(Expr::Var(Box::new(Symbol::new(s))))
    }

    pub fn let_bind(s: &str, e: Box<Expr>, body: Box<Expr>) -> (r: Box<Expr>)
        ensures
            r@ == ExprV::Let(s@, Box::new(e@), Box::new(body@)),
    {
        Box::new(Expr::Let(Box::new(Symbol::new(s)), e, body))
    }
}

#[derive(Debug, PartialEq)]
pub struct Program {
    pub expr: Box<Expr>,
}

impl View for Program {
    type V = ExprV;

    open spec fn view(&self) -> ExprV {
        self.expr@
    }
}

impl Program {
    pub fn new(e: Box<Expr>) -> (r: Program)
        ensures
            r@ == e@,
    {
        Program { expr: e }
    }
}

/// Number of nodes in an expression tree; passes state their size bounds
/// over it.
pub open spec fn expr_size(e: ExprV) -> nat
    decreases e,
{
    match e {
        ExprV::Read => 1,
        ExprV::Int(_) => 1,
        ExprV::Neg(e1) => 1 + expr_size(*e1),
        ExprV::Add(e1, e2) => 1 + expr_size(*e1) + expr_size(*e2),
        ExprV::Var(_) => 1,
        ExprV::Let(_, e1, body) => 1 + expr_size(*e1) + expr_size(*body),
    }
}

/// An expression is atomic when it is a literal or a variable reference;
/// every other expression is complex.
pub open spec fn is_atomic(e: ExprV) -> bool {
    match e {
        ExprV::Int(_) => true,
        ExprV::Var(_) => true,
        _ => false,
    }
}

/// Number of `let` bindings in an expression; each one costs the passes
/// one minted name.
pub open spec fn n_lets(e: ExprV) -> nat
    decreases e,
{
    match e {
        ExprV::Read => 0,
        ExprV::Int(_) => 0,
        ExprV::Neg(e1) => n_lets(*e1),
        ExprV::Add(e1, e2) => n_lets(*e1) + n_lets(*e2),
        ExprV::Var(_) => 0,
        ExprV::Let(_, e1, body) => 1 + n_lets(*e1) + n_lets(*body),
    }
}

/// A tree has at least one node, and at least as many nodes as `let`
/// bindings.
pub proof fn lemma_n_lets_le_size(e: ExprV)
    ensures
        n_lets(e) <= expr_size(e),
        1 <= expr_size(e),
    decreases e,
{
    match e {
        ExprV::Read => {},
        ExprV::Int(_) => {},
        ExprV::Neg(e1) => {
            lemma_n_lets_le_size(*e1);
        },
        ExprV::Add(e1, e2) => {
            lemma_n_lets_le_size(*e1);
            lemma_n_lets_le_size(*e2);
        },
        ExprV::Var(_) => {},
        ExprV::Let(_, e1, body) => {
            lemma_n_lets_le_size(*e1);
            lemma_n_lets_le_size(*body);
        },
    }
}

/// The name minted for counter value `c`: the letter `v` followed by the
/// decimal digits of `c`.
pub open spec fn fresh_name(c: nat) -> Seq<char> {
    seq!['v'].add(crate::text::dec_str(c))
}

/// Distinct counter values mint distinct names.
pub proof fn lemma_fresh_name_injective(a: nat, b: nat)
    requires
        fresh_name(a) == fresh_name(b),
    ensures
        a == b,
{
    assert(fresh_name(a).skip(1) =~= crate::text::dec_str(a));
    assert(fresh_name(b).skip(1) =~= crate::text::dec_str(b));
    crate::text::lemma_dec_str_injective(a, b);
}

/// Renders the minted name for counter value `c`.
pub fn fresh_name_string(c: u64) -> (r: String)
    ensures
        r@ == fresh_name(c as nat),
{
    proof {
        reveal_strlit("v");
    }
    let mut s = String::from_str("v");
    s.append(crate::text::u64_string(c).as_str());
    proof {
        assert(s@ =~= fresh_name(c as nat));
    }
    s
}

/// Whether `s` is a name the pipeline minted for some counter value below
/// `c`.
pub open spec fn is_minted_below(s: Seq<char>, c: nat) -> bool {
    exists|k: nat| k < c && s == fresh_name(k)
}

/// A minted name stays minted under any larger counter bound.
pub proof fn lemma_minted_mono(s: Seq<char>, c: nat, c2: nat)
    requires
        is_minted_below(s, c),
        c <= c2,
    ensures
        is_minted_below(s, c2),
{
    let k = choose|k: nat| k < c && s == fresh_name(k);
    assert(k < c2 && s == fresh_name(k));
}

/// A name minted below `c` differs from every name minted at `c2 >= c`.
pub proof fn lemma_minted_ne_fresh(s: Seq<char>, c: nat, c2: nat)
    requires
        is_minted_below(s, c),
        c <= c2,
    ensures
        s != fresh_name(c2),
{
    let k = choose|k: nat| k < c && s == fresh_name(k);
    if s == fresh_name(c2) {
        lemma_fresh_name_injective(k, c2);
    }
}

/// Every variable reference and every bound name in the tree is a name
/// minted below `c`. This is the shape `uniquify` leaves behind, and what
/// lets later passes mint names that cannot collide.
pub open spec fn names_below(e: ExprV, c: nat) -> bool
    decreases e,
{
    match e {
        ExprV::Read => true,
        ExprV::Int(_) => true,
        ExprV::Neg(e1) => names_below(*e1, c),
        ExprV::Add(e1, e2) => names_below(*e1, c) && names_below(*e2, c),
        ExprV::Var(s) => is_minted_below(s, c),
        ExprV::Let(s, e1, body) => is_minted_below(s, c) && names_below(*e1, c) && names_below(
            *body,
            c,
        ),
    }
}

/// `names_below` is monotone in the counter bound.
pub proof fn lemma_names_below_mono(e: ExprV, c: nat, c2: nat)
    requires
        names_below(e, c),
        c <= c2,
    ensures
        names_below(e, c2),
    decreases e,
{
    match e {
        ExprV::Read => {},
        ExprV::Int(_) => {},
        ExprV::Neg(e1) => {
            lemma_names_below_mono(*e1, c, c2);
        },
        ExprV::Add(e1, e2) => {
            lemma_names_below_mono(*e1, c, c2);
            lemma_names_below_mono(*e2, c, c2);
        },
        ExprV::Var(s) => {
            lemma_minted_mono(s, c, c2);
        },
        ExprV::Let(s, e1, body) => {
            lemma_minted_mono(s, c, c2);
            lemma_names_below_mono(*e1, c, c2);
            lemma_names_below_mono(*body, c, c2);
        },
    }
}

/// Whether the tree mentions the name `n` at all, as a variable reference
/// or as a bound name.
pub open spec fn mentions_name(e: ExprV, n: Seq<char>) -> bool
    decreases e,
{
    match e {
        ExprV::Read => false,
        ExprV::Int(_) => false,
        ExprV::Neg(e1) => mentions_name(*e1, n),
        ExprV::Add(e1, e2) => mentions_name(*e1, n) || mentions_name(*e2, n),
        ExprV::Var(s) => s == n,
        ExprV::Let(s, e1, body) => s == n || mentions_name(*e1, n) || mentions_name(*body, n),
    }
}

/// A tree whose names lie below `c` cannot mention a name minted at
/// `c2 >= c`.
pub proof fn lemma_names_below_not_mentioned(e: ExprV, c: nat, c2: nat)
    requires
        names_below(e, c),
        c <= c2,
    ensures
        !mentions_name(e, fresh_name(c2)),
    decreases e,
{
    match e {
        ExprV::Read => {},
        ExprV::Int(_) => {},
        ExprV::Neg(e1) => {
            lemma_names_below_not_mentioned(*e1, c, c2);
        },
        ExprV::Add(e1, e2) => {
            lemma_names_below_not_mentioned(*e1, c, c2);
            lemma_names_below_not_mentioned(*e2, c, c2);
        },
        ExprV::Var(s) => {
            lemma_minted_ne_fresh(s, c, c2);
        },
        ExprV::Let(s, e1, body) => {
            lemma_minted_ne_fresh(s, c, c2);
            lemma_names_below_not_mentioned(*e1, c, c2);
            lemma_names_below_not_mentioned(*body, c, c2);
        },
    }
}

/// Every direct operand of a negation or addition is atomic. This is the
/// shape `arg_simplify` establishes and `explicate` relies on.
pub open spec fn operands_atomic(e: ExprV) -> bool
    decreases e,
{
    match e {
        ExprV::Read => true,
        ExprV::Int(_) => true,
        ExprV::Neg(op) => is_atomic(*op),
        ExprV::Add(op1, op2) => is_atomic(*op1) && is_atomic(*op2),
        ExprV::Var(_) => true,
        ExprV::Let(_, e1, body) => operands_atomic(*e1) && operands_atomic(*body),
    }
}

/// Every variable reference resolves against `scope`: the bound names
/// currently visible.
pub open spec fn well_scoped(e: ExprV, scope: Set<Seq<char>>) -> bool
    decreases e,
{
    match e {
        ExprV::Read => true,
        ExprV::Int(_) => true,
        ExprV::Neg(e1) => well_scoped(*e1, scope),
        ExprV::Add(e1, e2) => well_scoped(*e1, scope) && well_scoped(*e2, scope),
        ExprV::Var(s) => scope.contains(s),
        ExprV::Let(s, e1, body) => well_scoped(*e1, scope) && well_scoped(
            *body,
            scope.insert(s),
        ),
    }
}

} // verus!
