//! CIR: the C-like intermediate representation. A program is a set of
//! labeled tails, each a linear chain of simple assignments ending in a
//! return; operands are atoms by construction.

pub mod select_instr;
pub mod uncover;

use vstd::prelude::*;

verus! {

/// Ghost mirror of an operand: a literal or a variable name.
pub ghost enum ArgV {
    Int(i64),
    Var(Seq<char>),
}

/// Ghost mirror of a right-hand side.
pub ghost enum ExprV {
    Read,
    Arg(ArgV),
    Neg(ArgV),
    Add(ArgV, ArgV),
}

/// Ghost mirror of a statement.
pub ghost enum StmtV {
    Assign(Seq<char>, ExprV),
}

/// Ghost mirror of a tail: a chain of statements ending in a return.
pub ghost enum TailV {
    Chain(StmtV, Box<TailV>),
    Ret(ExprV),
}

/// Symbol used for variable names.
#[derive(Debug, PartialEq, Eq, Hash)]
pub struct Symbol {
    pub value: String,
}

impl View for Symbol {
    type V = Seq<char>;

    open spec fn view(&self) -> Seq<char> {
        self.value@
    }
}

impl Symbol {
    pub fn new(value: &str) -> (r: Symbol)
        ensures
            r@ == value@,
    {
        Symbol { value: value.to_owned() }
    }
}

impl Clone for Symbol {
    fn clone(&self) -> (r: Symbol)
        ensures
            r == *self,
    {
        Symbol { value: self.value.clone() }
    }
}

#[derive(Debug, PartialEq)]
pub enum Arg {
    Int(i64),
    Var(Box<Symbol>),
}

pub open spec fn arg_v(a: Arg) -> ArgV {
    match a {
        Arg::Int(i) => ArgV::Int(i),
        Arg::Var(s) => ArgV::Var(s@),
    }
}

impl View for Arg {
    type V = ArgV;

    open spec fn view(&self) -> ArgV {
        arg_v(*self)
    }
}

impl Arg {
    pub fn imm(i: i64) -> (r: Box<Arg>)
        ensures
            r@ == ArgV::Int(i),
    {
        Box::new(Arg::Int(i))
    }

    pub fn var(s: &str) -> (r: Box<Arg>)
        ensures
            r@ == ArgV::Var(s@),
    {
        Box::new(Arg::Var(Box::new(Symbol::new(s))))
    }
}

impl Clone for Arg {
    fn clone(&self) -> (r: Arg)
        ensures
            r == *self,
    {
        match self {
            Arg::Int(i) => Arg::Int(*i),
            Arg::Var(s) => Arg::Var(Box::new((**s).clone())),
        }
    }
}

#[derive(Debug, PartialEq)]
pub enum Expr {
    Read,
    Arg(Box<Arg>),
    Neg(Box<Arg>),
    Add(Box<Arg>, Box<Arg>),
}

pub open spec fn expr_v(e: Expr) -> ExprV {
    match e {
        Expr::Read => ExprV::Read,
        Expr::Arg(a) => ExprV::Arg(a@),
        Expr::Neg(a) => ExprV::Neg(a@),
        Expr::Add(a1, a2) => ExprV::Add(a1@, a2@),
    }
}

impl View for Expr {
    type V = ExprV;

    open spec fn view(&self) -> ExprV {
        expr_v(*self)
    }
}

impl Expr {
    pub fn read() -> (r: Box<Expr>)
        ensures
            r@ == ExprV::Read,
    {
        Box::new(Expr::Read)
    }

    pub fn arg(arg: Box<Arg>) -> (r: Box<Expr>)
        ensures
            r@ == ExprV::Arg(arg@),
    {
        Box::new(Expr::Arg(arg))
    }

    pub fn neg(arg: Box<Arg>) -> (r: Box<Expr>)
        ensures
            r@ == ExprV::Neg(arg@),
    {
        Box::new(Expr::Neg(arg))
    }

    pub fn add(op1: Box<Arg>, op2: Box<Arg>) -> (r: Box<Expr>)
        ensures
            r@ == ExprV::Add(op1@, op2@),
    {
        Box::new(Expr::Add(op1, op2))
    }
}

impl Clone for Expr {
    fn clone(&self) -> (r: Expr)
        ensures
            r == *self,
    {
        match self {
            Expr::Read => Expr::Read,
            Expr::Arg(a) => Expr::Arg(Box::new((**a).clone())),
            Expr::Neg(a) => Expr::Neg(Box::new((**a).clone())),
            Expr::Add(a1, a2) => Expr::Add(Box::new((**a1).clone()), Box::new((**a2).clone())),
        }
    }
}

#[derive(Debug, PartialEq)]
pub enum Stmt {
    Assign(Box<Symbol>, Box<Expr>),
}

pub open spec fn stmt_v(s: Stmt) -> StmtV {
    match s {
        Stmt::Assign(sym, e) => StmtV::Assign(sym@, e@),
    }
}

impl View for Stmt {
    type V = StmtV;

    open spec fn view(&self) -> StmtV {
        stmt_v(*self)
    }
}

impl Stmt {
    pub fn assign(s: &str, expr: Box<Expr>) -> (r: Box<Stmt>)
        ensures
            r@ == StmtV::Assign(s@, expr@),
    {
        Box::new(Stmt::Assign(Box::new(Symbol::new(s)), expr))
    }
}

impl Clone for Stmt {
    fn clone(&self) -> (r: Stmt)
        ensures
            r == *self,
    {
        match self {
            Stmt::Assign(sym, e) => Stmt::Assign(
                Box::new((**sym).clone()),
                Box::new((**e).clone()),
            ),
        }
    }
}

/// A block of code: a right-nested chain of statements that ends in
/// exactly one return.
#[derive(Debug, PartialEq)]
pub enum Tail {
    Chain(Box<Stmt>, Box<Tail>),
    Ret(Box<Expr>),
}

pub open spec fn tail_v(t: Tail) -> TailV
    decreases t,
{
    match t {
        Tail::Chain(s, rest) => TailV::Chain(s@, Box::new(tail_v(*rest))),
        Tail::Ret(e) => TailV::Ret(e@),
    }
}

impl View for Tail {
    type V = TailV;

    open spec fn view(&self) -> TailV {
        tail_v(*self)
    }
}

impl Tail {
    pub fn seq(stmt: Box<Stmt>, tail: Box<Tail>) -> (r: Box<Tail>)
        ensures
            r@ == TailV::Chain(stmt@, Box::new(tail@)),
    {
        Box::new(Tail::Chain(stmt, tail))
    }

    pub fn ret(expr: Box<Expr>) -> (r: Box<Tail>)
        ensures
            r@ == TailV::Ret(expr@),
    {
        Box::new(Tail::Ret(expr))
    }
}

impl Clone for Tail {
    fn clone(&self) -> (r: Tail)
        ensures
            r == *self,
        decreases self,
    {
        match self {
            Tail::Chain(s, rest) => Tail::Chain(
                Box::new((**s).clone()),
                Box::new((**rest).clone()),
            ),
            Tail::Ret(e) => Tail::Ret(Box::new((**e).clone())),
        }
    }
}

/// How many statements a tail holds.
pub open spec fn tail_stmts(t: TailV) -> nat
    decreases t,
{
    match t {
        TailV::Chain(_, rest) => 1 + tail_stmts(*rest),
        TailV::Ret(_) => 0,
    }
}

/// How many returns a tail holds.
pub open spec fn ret_count(t: TailV) -> nat
    decreases t,
{
    match t {
        TailV::Chain(_, rest) => ret_count(*rest),
        TailV::Ret(_) => 1,
    }
}

/// Law: every tail's spine is a right-nested chain of statements that
/// terminates in exactly one return. The chain shape is forced by the
/// `Tail` datatype itself; this lemma records that the chain holds exactly
/// one return.
pub proof fn lemma_tail_single_ret(t: TailV)
    ensures
        ret_count(t) == 1,
    decreases t,
{
    match t {
        TailV::Chain(_, rest) => {
            lemma_tail_single_ret(*rest);
        },
        TailV::Ret(_) => {},
    }
}

/// Label for a tail definition.
#[derive(Debug, PartialEq, Eq, Hash)]
pub struct Label {
    value: String,
}

impl View for Label {
    type V = Seq<char>;

    closed spec fn view(&self) -> Seq<char> {
        self.value@
    }
}

impl Label {
    pub fn new(value: &str) -> (r: Label)
        ensures
            r@ == value@,
    {
        Label { value: value.to_owned() }
    }
}

impl Clone for Label {
    fn clone(&self) -> (r: Label)
        ensures
            r == *self,
    {
        Label { value: self.value.clone() }
    }
}

/// The names assigned anywhere in the program's tails, collected by
/// `uncover`.
#[derive(Debug, PartialEq)]
pub struct Info {
    pub symbols: Vec<Symbol>,
}

impl Info {
    /// The collected names, in insertion order.
    pub open spec fn sym_seq(&self) -> Seq<Seq<char>> {
        self.symbols@.map_values(|s: Symbol| s@)
    }

    /// The collected names as a set.
    pub open spec fn sym_set(&self) -> Set<Seq<char>> {
        self.sym_seq().to_set()
    }

    pub fn new() -> (r: Info)
        ensures
            r.symbols@ == Seq::<Symbol>::empty(),
    {
        Info { symbols: Vec::new() }
    }
}

pub struct Program {
    pub info: Info,
    pub tails: Vec<(Label, Tail)>,
}

impl Program {
    /// The labeled tails, names abstracted.
    pub open spec fn tails_v(&self) -> Seq<(Seq<char>, TailV)> {
        self.tails@.map_values(|p: (Label, Tail)| (p.0@, p.1@))
    }

    /// The tails' labels, in order.
    pub open spec fn labels(&self) -> Seq<Seq<char>> {
        self.tails_v().map_values(|p: (Seq<char>, TailV)| p.0)
    }

    /// Each tail is addressed by its own label: no two tails share one.
    pub open spec fn labels_unique(&self) -> bool {
        self.labels().no_duplicates()
    }
}

} // verus!
