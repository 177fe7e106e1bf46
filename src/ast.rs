//! The syntax tree of the source language, and a flat view of its expressions.
use vstd::prelude::*;
use crate::ir_text::BinaryOp;

verus! {

#[derive(Debug)]
pub struct CompUnit {
    pub func_def: FuncDef,
}

#[derive(Debug)]
pub struct FuncDef {
    pub func_type: FuncType,
    pub ident: String,
    pub block: Block,
}

#[derive(Debug, Clone, Copy, PartialEq, Eq, Structural)]
pub enum FuncType {
    Int,
    Void,
}

#[derive(Debug)]
pub struct Block {
    pub block_items: Vec<BlockItem>,
}

#[derive(Debug)]
pub enum BlockItem {
    Decl(Decl),
    Stmt(Stmt),
}

#[derive(Debug)]
pub enum NonIfStmt {
    Return(Exp),
    Assgn(LVal, Exp),
    Exp(Option<Exp>),
    Block(Block),
}

#[derive(Debug)]
pub enum Stmt {
    OpenStmt(OpenStmt),
    ClosedStmt(ClosedStmt),
}

/// An `if` whose last branch has no `else` of its own.
#[derive(Debug)]
pub enum OpenStmt {
    IfStmtNoElse(Exp, Box<Stmt>),
    IfStmtMitElse(Exp, ClosedStmt, Box<OpenStmt>),
}

/// A statement in which every `if` has its `else`.
#[derive(Debug)]
pub enum ClosedStmt {
    IfStmt(Exp, Box<ClosedStmt>, Box<ClosedStmt>),
    NonIfStmt(NonIfStmt),
}

#[derive(Debug)]
pub struct Exp {
    pub l_or_exp: LOrExp,
}

#[derive(Debug, Clone, Copy, PartialEq, Eq, Structural)]
pub enum UnaryOp {
    Add,
    Sub,
    Rev,
}

#[derive(Debug)]
pub enum UnaryExp {
    UnaryExp(UnaryOp, Box<UnaryExp>),
    PrimaryExp(Box<PrimaryExp>),
}

#[derive(Debug)]
pub enum PrimaryExp {
    Exp(Box<Exp>),
    LVal(LVal),
    Number(Number),
}

#[derive(Debug, Clone, Copy, PartialEq, Eq, Structural)]
pub enum MulOp {
    Mul,
    Div,
    Mod,
}

#[derive(Debug)]
pub enum MulExp {
    UnaryExp(UnaryExp),
    MulExp(Box<MulExp>, MulOp, UnaryExp),
}

#[derive(Debug, Clone, Copy, PartialEq, Eq, Structural)]
pub enum AddOp {
    Add,
    Sub,
}

#[derive(Debug)]
pub enum AddExp {
    MulExp(MulExp),
    AddExp(Box<AddExp>, AddOp, MulExp),
}

#[derive(Debug, Clone, Copy, PartialEq, Eq, Structural)]
pub enum Number {
    IntConst(i32),
}

#[derive(Debug, Clone, Copy, PartialEq, Eq, Structural)]
pub struct IntConst(pub i32);

#[derive(Debug, Clone, Copy, PartialEq, Eq, Structural)]
pub enum RelOp {
    Lt,
    Gt,
    Le,
    Ge,
}

#[derive(Debug, Clone, Copy, PartialEq, Eq, Structural)]
pub enum EqOp {
    Eq,
    Ne,
}

#[derive(Debug, Clone, Copy, PartialEq, Eq, Structural)]
pub enum LAndOp {
    And,
}

#[derive(Debug, Clone, Copy, PartialEq, Eq, Structural)]
pub enum LOrOp {
    Or,
}

#[derive(Debug)]
pub enum RelExp {
    AddExp(AddExp),
    RelExp(Box<RelExp>, RelOp, AddExp),
}

#[derive(Debug)]
pub enum EqExp {
    RelExp(RelExp),
    EqExp(Box<EqExp>, EqOp, RelExp),
}

#[derive(Debug)]
pub enum LAndExp {
    EqExp(EqExp),
    LAndExp(Box<LAndExp>, LAndOp, EqExp),
}

#[derive(Debug)]
pub enum LOrExp {
    LAndExp(LAndExp),
    LOrExp(Box<LOrExp>, LOrOp, LAndExp),
}

#[derive(Debug)]
pub enum Decl {
    ConstDecl(ConstDecl),
    VarDecl(VarDecl),
}

#[derive(Debug)]
pub struct ConstDecl {
    pub btype: BType,
    pub const_defs: Vec<ConstDef>,
}

#[derive(Debug)]
pub struct VarDecl {
    pub btype: BType,
    pub var_defs: Vec<VarDef>,
}

#[derive(Debug)]
pub enum VarDef {
    VarDefUninit(String),
    VarDefInit(String, InitVal),
}

#[derive(Debug, Clone, Copy, PartialEq, Eq, Structural)]
pub enum BType {
    Int,
}

#[derive(Debug)]
pub struct ConstDef {
    pub ident: String,
    pub const_init_val: ConstInitVal,
}

#[derive(Debug)]
pub struct ConstInitVal {
    pub const_exp: ConstExp,
}

#[derive(Debug)]
pub struct LVal {
    pub ident: String,
}

#[derive(Debug)]
pub struct ConstExp {
    pub exp: Exp,
}

#[derive(Debug)]
pub struct InitVal {
    pub exp: Exp,
}

/// An expression with its precedence levels flattened away: what every level
/// of the grammar denotes.  `&&` and `||` appear as `BinaryOp::And` / `Or`.
pub enum SExp {
    Num(i32),
    Var(Seq<char>),
    Unary(UnaryOp, Box<SExp>),
    Binary(BinaryOp, Box<SExp>, Box<SExp>),
}

pub open spec fn mul_op_spec(op: MulOp) -> BinaryOp {
    match op {
        MulOp::Mul => BinaryOp::Mul,
        MulOp::Div => BinaryOp::Div,
        MulOp::Mod => BinaryOp::Mod,
    }
}

pub open spec fn add_op_spec(op: AddOp) -> BinaryOp {
    match op {
        AddOp::Add => BinaryOp::Add,
        AddOp::Sub => BinaryOp::Sub,
    }
}

pub open spec fn rel_op_spec(op: RelOp) -> BinaryOp {
    match op {
        RelOp::Lt => BinaryOp::Lt,
        RelOp::Gt => BinaryOp::Gt,
        RelOp::Le => BinaryOp::Le,
        RelOp::Ge => BinaryOp::Ge,
    }
}

pub open spec fn eq_op_spec(op: EqOp) -> BinaryOp {
    match op {
        EqOp::Eq => BinaryOp::Eq,
        EqOp::Ne => BinaryOp::NotEq,
    }
}

impl MulOp {
    pub fn to_binary(&self) -> (r: BinaryOp)
        ensures
            r == mul_op_spec(*self),
    {
        match self {
            MulOp::Mul => BinaryOp::Mul,
            MulOp::Div => BinaryOp::Div,
            MulOp::Mod => BinaryOp::Mod,
        }
    }
}

impl AddOp {
    pub fn to_binary(&self) -> (r: BinaryOp)
        ensures
            r == add_op_spec(*self),
    {
        match self {
            AddOp::Add => BinaryOp::Add,
            AddOp::Sub => BinaryOp::Sub,
        }
    }
}

impl RelOp {
    pub fn to_binary(&self) -> (r: BinaryOp)
        ensures
            r == rel_op_spec(*self),
    {
        match self {
            RelOp::Lt => BinaryOp::Lt,
            RelOp::Gt => BinaryOp::Gt,
            RelOp::Le => BinaryOp::Le,
            RelOp::Ge => BinaryOp::Ge,
        }
    }
}

impl EqOp {
    pub fn to_binary(&self) -> (r: BinaryOp)
        ensures
            r == eq_op_spec(*self),
    {
        match self {
            EqOp::Eq => BinaryOp::Eq,
            EqOp::Ne => BinaryOp::NotEq,
        }
    }
}

impl Exp {
    pub open spec fn sexp(&self) -> SExp
        decreases self,
    {
        self.l_or_exp.sexp()
    }
}

impl LOrExp {
    pub open spec fn sexp(&self) -> SExp
        decreases self,
    {
        match self {
            LOrExp::LAndExp(a) => a.sexp(),
            LOrExp::LOrExp(l, _, r) => SExp::Binary(BinaryOp::Or, Box::new(l.sexp()), Box::new(r.sexp())),
        }
    }
}

impl LAndExp {
    pub open spec fn sexp(&self) -> SExp
        decreases self,
    {
        match self {
            LAndExp::EqExp(a) => a.sexp(),
            LAndExp::LAndExp(l, _, r) => SExp::Binary(BinaryOp::And, Box::new(l.sexp()), Box::new(r.sexp())),
        }
    }
}

impl EqExp {
    pub open spec fn sexp(&self) -> SExp
        decreases self,
    {
        match self {
            EqExp::RelExp(a) => a.sexp(),
            EqExp::EqExp(l, op, r) => SExp::Binary(eq_op_spec(*op), Box::new(l.sexp()), Box::new(r.sexp())),
        }
    }
}

impl RelExp {
    pub open spec fn sexp(&self) -> SExp
        decreases self,
    {
        match self {
            RelExp::AddExp(a) => a.sexp(),
            RelExp::RelExp(l, op, r) => SExp::Binary(rel_op_spec(*op), Box::new(l.sexp()), Box::new(r.sexp())),
        }
    }
}

impl AddExp {
    pub open spec fn sexp(&self) -> SExp
        decreases self,
    {
        match self {
            AddExp::MulExp(a) => a.sexp(),
            AddExp::AddExp(l, op, r) => SExp::Binary(add_op_spec(*op), Box::new(l.sexp()), Box::new(r.sexp())),
        }
    }
}

impl MulExp {
    pub open spec fn sexp(&self) -> SExp
        decreases self,
    {
        match self {
            MulExp::UnaryExp(a) => a.sexp(),
            MulExp::MulExp(l, op, r) => SExp::Binary(mul_op_spec(*op), Box::new(l.sexp()), Box::new(r.sexp())),
        }
    }
}

impl UnaryExp {
    pub open spec fn sexp(&self) -> SExp
        decreases self,
    {
        match self {
            UnaryExp::UnaryExp(op, a) => SExp::Unary(*op, Box::new(a.sexp())),
            UnaryExp::PrimaryExp(p) => p.sexp(),
        }
    }
}

impl PrimaryExp {
    pub open spec fn sexp(&self) -> SExp
        decreases self,
    {
        match self {
            PrimaryExp::Exp(e) => e.sexp(),
            PrimaryExp::LVal(l) => SExp::Var(l.ident@),
            PrimaryExp::Number(Number::IntConst(v)) => SExp::Num(*v),
        }
    }
}

} // verus!
