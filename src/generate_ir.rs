//! Lowering of the syntax tree to IR text: constant folding, scoped name
//! resolution with shadow indices, and control flow for `if`/`else`.
//!
//! Operands of a binary operator are lowered right operand first, then left
//! operand; this order fixes the numbering of temporaries.  `&&` and `||` are
//! not short-circuit: both operands are always lowered and combined with
//! `ne`/`ne`/`and|or`.
use vstd::prelude::*;
use crate::ast::{
    AddExp, Block, BlockItem, ClosedStmt, CompUnit, ConstDecl, ConstDef, ConstExp, ConstInitVal, Decl,
    EqExp, Exp, FuncDef, FuncType, InitVal, LAndExp, LOrExp, LVal, MulExp, NonIfStmt, Number, OpenStmt,
    PrimaryExp, RelExp, SExp, Stmt, UnaryExp, UnaryOp, VarDecl, VarDef,
};
use crate::ir_text::{
    BinaryOp, IrLine, Label, LabelKind, emit_alloc, emit_binary, emit_fun_header, emit_br, emit_close,
    emit_jump, emit_label_line, emit_load, emit_ret, emit_ret_undef, emit_store, emit_str,
    lemma_lines_text_append, lemma_lines_text_empty, lemma_lines_text_one, line_text, lines_text,
};
use crate::sym_table::{ScopesModel, SymTable, SymVal, scopes_insert, scopes_query};

verus! {

/// What lowering an expression yields: the temporary that holds its value
/// (`RegCount(n)` stands for `%{n-1}`) or a value known at compile time.
#[derive(Debug, Clone, Copy, PartialEq, Eq, Structural)]
pub enum ExpResult {
    RegCount(i32),
    IntResult(i32),
}

/// The errors that lowering reports.
#[derive(Debug, Clone, Copy, PartialEq, Eq, Structural)]
pub enum CompileError {
    /// The function is not `main`.
    UnsupportedFunction,
    /// A constant initializer reads a variable; folding goes on with 0.
    NonConstInInitializer,
    /// An assignment to a name bound to a constant.
    AssignToConst,
    /// A name with no binding in scope.
    UnboundName,
    /// Division or remainder by zero while folding.
    ArithDomain,
    /// A temporary, label or shadow counter would pass `i32::MAX`.
    CounterOverflow,
}

/// The state that lowering threads through a function.
pub struct GenerateIRParams {
    pub var_count: i32,
    pub func_returned: bool,
    pub sym_tab: SymTable,
    /// Highest shadow index handed out per source name (latest entry wins).
    pub cur_var_idx: Vec<(String, i32)>,
    pub else_idx: i32,
    pub then_idx: i32,
    pub end_idx: i32,
    /// Recoverable errors met so far, in order.
    pub diagnostics: Vec<CompileError>,
}

pub type ShadowModel = Seq<(Seq<char>, i32)>;

/// The model of `GenerateIRParams`.
pub struct IrState {
    pub var_count: int,
    pub then_idx: int,
    pub else_idx: int,
    pub end_idx: int,
    pub returned: bool,
    pub scopes: ScopesModel,
    pub shadow: ShadowModel,
    pub notes: Seq<CompileError>,
}

pub open spec fn shadow_model(v: Vec<(String, i32)>) -> ShadowModel {
    v@.map_values(|e: (String, i32)| (e.0@, e.1))
}

impl View for GenerateIRParams {
    type V = IrState;

    open spec fn view(&self) -> IrState {
        IrState {
            var_count: self.var_count as int,
            then_idx: self.then_idx as int,
            else_idx: self.else_idx as int,
            end_idx: self.end_idx as int,
            returned: self.func_returned,
            scopes: self.sym_tab@,
            shadow: shadow_model(self.cur_var_idx),
            notes: self.diagnostics@,
        }
    }
}

impl IrState {
    pub open spec fn with_var_count(self, n: int) -> IrState {
        IrState { var_count: n, ..self }
    }

    pub open spec fn with_returned(self, b: bool) -> IrState {
        IrState { returned: b, ..self }
    }

    pub open spec fn with_notes(self, notes: Seq<CompileError>) -> IrState {
        IrState { notes: notes, ..self }
    }

    pub open spec fn with_scopes(self, scopes: ScopesModel) -> IrState {
        IrState { scopes: scopes, ..self }
    }
}

/// The highest shadow index given to `name` so far, 0 if none.
pub open spec fn shadow_of(s: ShadowModel, name: Seq<char>) -> int
    decreases s.len(),
{
    if s.len() == 0 {
        0
    } else if s.last().0 == name {
        s.last().1 as int
    } else {
        shadow_of(s.drop_last(), name)
    }
}

/// Binding a new variable `name`: its shadow index is one above the highest
/// given to that name so far; the binding goes to the innermost frame.
pub open spec fn declare_var(st: IrState, name: Seq<char>) -> Result<(int, IrState), CompileError> {
    let k = shadow_of(st.shadow, name) + 1;
    if k > i32::MAX {
        Err(CompileError::CounterOverflow)
    } else {
        Ok((k, IrState {
            shadow: st.shadow.push((name, k as i32)),
            scopes: scopes_insert(st.scopes, name, SymVal::VarName(k as i32)),
            ..st
        }))
    }
}

// ---------------------------------------------------------------------------
// Expressions: specification

/// What lowering an expression emits and yields.
pub struct ExpOut {
    pub lines: Seq<IrLine>,
    pub res: ExpResult,
    pub st: IrState,
}

/// The tail of a unary expression, after its operand gave `o`.
pub open spec fn unary_tail(op: UnaryOp, o: ExpOut) -> Result<ExpOut, CompileError> {
    let c = o.st.var_count;
    match op {
        UnaryOp::Add => Ok(o),
        _ => if c + 1 > i32::MAX {
            Err(CompileError::CounterOverflow)
        } else {
            let line = match op {
                UnaryOp::Sub => IrLine::Binary(c, BinaryOp::Sub, ExpResult::IntResult(0), o.res),
                _ => IrLine::Binary(c, BinaryOp::Eq, o.res, ExpResult::IntResult(0)),
            };
            Ok(ExpOut {
                lines: o.lines.push(line),
                res: ExpResult::RegCount((c + 1) as i32),
                st: o.st.with_var_count(c + 1),
            })
        },
    }
}

/// The lines that combine the two lowered operands of a binary operator.
pub open spec fn binary_tail(op: BinaryOp, lhs: ExpResult, rhs: ExpResult, st: IrState) -> Result<
    ExpOut,
    CompileError,
> {
    let c = st.var_count;
    if op == BinaryOp::And || op == BinaryOp::Or {
        if c + 3 > i32::MAX {
            Err(CompileError::CounterOverflow)
        } else {
            Ok(ExpOut {
                lines: seq![
                    IrLine::Binary(c, BinaryOp::NotEq, lhs, ExpResult::IntResult(0)),
                    IrLine::Binary(c + 1, BinaryOp::NotEq, rhs, ExpResult::IntResult(0)),
                    IrLine::Binary(c + 2, op, ExpResult::RegCount((c + 1) as i32), ExpResult::RegCount((c + 2) as i32)),
                ],
                res: ExpResult::RegCount((c + 3) as i32),
                st: st.with_var_count(c + 3),
            })
        }
    } else {
        if c + 1 > i32::MAX {
            Err(CompileError::CounterOverflow)
        } else {
            Ok(ExpOut {
                lines: seq![IrLine::Binary(c, op, lhs, rhs)],
                res: ExpResult::RegCount((c + 1) as i32),
                st: st.with_var_count(c + 1),
            })
        }
    }
}

/// Lowering of an expression: the lines emitted, the result, and the state after.
#[verifier::opaque]
pub open spec fn lower_exp(e: SExp, st: IrState) -> Result<ExpOut, CompileError>
    decreases e,
{
    match e {
        SExp::Num(v) => Ok(ExpOut { lines: Seq::empty(), res: ExpResult::IntResult(v), st: st }),
        SExp::Var(n) => match scopes_query(st.scopes, n) {
            None => Err(CompileError::UnboundName),
            Some(SymVal::ConstVal(v)) => Ok(ExpOut { lines: Seq::empty(), res: ExpResult::IntResult(v), st: st }),
            Some(SymVal::VarName(k)) => if st.var_count + 1 > i32::MAX {
                Err(CompileError::CounterOverflow)
            } else {
                Ok(ExpOut {
                    lines: seq![IrLine::Load(st.var_count, n, k as int)],
                    res: ExpResult::RegCount((st.var_count + 1) as i32),
                    st: st.with_var_count(st.var_count + 1),
                })
            },
        },
        SExp::Unary(op, a) => match lower_exp(*a, st) {
            Err(err) => Err(err),
            Ok(o) => unary_tail(op, o),
        },
        SExp::Binary(op, l, r) => match lower_exp(*r, st) {
            Err(err) => Err(err),
            Ok(o1) => match lower_exp(*l, o1.st) {
                Err(err) => Err(err),
                Ok(o2) => match binary_tail(op, o2.res, o1.res, o2.st) {
                    Err(err) => Err(err),
                    Ok(o3) => Ok(ExpOut { lines: o1.lines + o2.lines + o3.lines, res: o3.res, st: o3.st }),
                },
            },
        },
    }
}

/// The relation between an expression, the state and buffer before and after
/// its lowering, and what the lowering returned.
pub open spec fn exp_lowered(
    e: SExp,
    st0: IrState,
    st1: IrState,
    b0: Seq<u8>,
    b1: Seq<u8>,
    r: Result<ExpResult, CompileError>,
) -> bool {
    match lower_exp(e, st0) {
        Ok(o) => r == Ok::<ExpResult, CompileError>(o.res) && st1 == o.st && b1 == b0 + lines_text(o.lines),
        Err(err) => r == Err::<ExpResult, CompileError>(err),
    }
}

pub open spec fn tail_lowered(
    t: Result<ExpOut, CompileError>,
    st1: IrState,
    b0: Seq<u8>,
    b1: Seq<u8>,
    r: Result<ExpResult, CompileError>,
) -> bool {
    match t {
        Ok(o) => r == Ok::<ExpResult, CompileError>(o.res) && st1 == o.st && b1 == b0 + lines_text(o.lines),
        Err(err) => r == Err::<ExpResult, CompileError>(err),
    }
}

// ---------------------------------------------------------------------------
// Constant folding: specification

/// The value of a binary operator on two 32-bit integers: `+ - *` wrap,
/// `/` and `%` truncate (`i32::MIN / -1` wraps to `i32::MIN`, its remainder
/// is 0), comparisons and logical operators give 0 or 1.  `None` on a zero
/// divisor.
pub open spec fn binop_value(op: BinaryOp, a: i32, b: i32) -> Option<i32> {
    match op {
        BinaryOp::Add => Some(a.wrapping_add(b)),
        BinaryOp::Sub => Some(a.wrapping_sub(b)),
        BinaryOp::Mul => Some(a.wrapping_mul(b)),
        BinaryOp::Div => if b == 0 {
            None
        } else {
            match a.checked_div(b) {
                Some(q) => Some(q),
                None => Some(i32::MIN),
            }
        },
        BinaryOp::Mod => if b == 0 {
            None
        } else {
            match a.checked_rem(b) {
                Some(q) => Some(q),
                None => Some(0i32),
            }
        },
        BinaryOp::Lt => Some(if a < b { 1i32 } else { 0i32 }),
        BinaryOp::Le => Some(if a <= b { 1i32 } else { 0i32 }),
        BinaryOp::Gt => Some(if a > b { 1i32 } else { 0i32 }),
        BinaryOp::Ge => Some(if a >= b { 1i32 } else { 0i32 }),
        BinaryOp::Eq => Some(if a == b { 1i32 } else { 0i32 }),
        BinaryOp::NotEq => Some(if a != b { 1i32 } else { 0i32 }),
        BinaryOp::And => Some(if a != 0 && b != 0 { 1i32 } else { 0i32 }),
        BinaryOp::Or => Some(if a != 0 || b != 0 { 1i32 } else { 0i32 }),
    }
}

pub open spec fn unary_value(op: UnaryOp, a: i32) -> i32 {
    match op {
        UnaryOp::Add => a,
        UnaryOp::Sub => 0i32.wrapping_sub(a),
        UnaryOp::Rev => if a == 0 { 1i32 } else { 0i32 },
    }
}

/// A folded value, with the recoverable errors met on the way.
pub struct Folded {
    pub value: i32,
    pub notes: Seq<CompileError>,
}

/// Constant folding, operands left to right.  A name bound to a variable
/// folds to 0 and notes `NonConstInInitializer`.
#[verifier::opaque]
pub open spec fn fold(e: SExp, scopes: ScopesModel) -> Result<Folded, CompileError>
    decreases e,
{
    match e {
        SExp::Num(v) => Ok(Folded { value: v, notes: Seq::empty() }),
        SExp::Var(n) => match scopes_query(scopes, n) {
            None => Err(CompileError::UnboundName),
            Some(SymVal::ConstVal(v)) => Ok(Folded { value: v, notes: Seq::empty() }),
            Some(SymVal::VarName(_)) => Ok(
                Folded { value: 0, notes: seq![CompileError::NonConstInInitializer] },
            ),
        },
        SExp::Unary(op, a) => match fold(*a, scopes) {
            Err(err) => Err(err),
            Ok(f) => Ok(Folded { value: unary_value(op, f.value), notes: f.notes }),
        },
        SExp::Binary(op, l, r) => match fold(*l, scopes) {
            Err(err) => Err(err),
            Ok(fl) => match fold(*r, scopes) {
                Err(err) => Err(err),
                Ok(fr) => match binop_value(op, fl.value, fr.value) {
                    None => Err(CompileError::ArithDomain),
                    Some(v) => Ok(Folded { value: v, notes: fl.notes + fr.notes }),
                },
            },
        },
    }
}

pub open spec fn folded(e: SExp, st0: IrState, st1: IrState, r: Result<i32, CompileError>) -> bool {
    match fold(e, st0.scopes) {
        Ok(f) => r == Ok::<i32, CompileError>(f.value) && st1 == st0.with_notes(st0.notes + f.notes),
        Err(err) => r == Err::<i32, CompileError>(err),
    }
}

// ---------------------------------------------------------------------------
// Expressions: executable

/// Evaluates a binary operator as the folder does.
pub fn eval_binop(op: BinaryOp, a: i32, b: i32) -> (r: Option<i32>)
    ensures
        r == binop_value(op, a, b),
{
    match op {
        BinaryOp::Add => Some(a.wrapping_add(b)),
        BinaryOp::Sub => Some(a.wrapping_sub(b)),
        BinaryOp::Mul => Some(a.wrapping_mul(b)),
        BinaryOp::Div => if b == 0 {
            None
        } else {
            match a.checked_div(b) {
                Some(q) => Some(q),
                None => Some(i32::MIN),
            }
        },
        BinaryOp::Mod => if b == 0 {
            None
        } else {
            match a.checked_rem(b) {
                Some(q) => Some(q),
                None => Some(0i32),
            }
        },
        BinaryOp::Lt => Some(if a < b { 1i32 } else { 0i32 }),
        BinaryOp::Le => Some(if a <= b { 1i32 } else { 0i32 }),
        BinaryOp::Gt => Some(if a > b { 1i32 } else { 0i32 }),
        BinaryOp::Ge => Some(if a >= b { 1i32 } else { 0i32 }),
        BinaryOp::Eq => Some(if a == b { 1i32 } else { 0i32 }),
        BinaryOp::NotEq => Some(if a != b { 1i32 } else { 0i32 }),
        BinaryOp::And => Some(if a != 0 && b != 0 { 1i32 } else { 0i32 }),
        BinaryOp::Or => Some(if a != 0 || b != 0 { 1i32 } else { 0i32 }),
    }
}

/// Evaluates a unary operator as the folder does.
pub fn eval_unary(op: UnaryOp, a: i32) -> (r: i32)
    ensures
        r == unary_value(op, a),
{
    match op {
        UnaryOp::Add => a,
        UnaryOp::Sub => 0i32.wrapping_sub(a),
        UnaryOp::Rev => if a == 0 { 1i32 } else { 0i32 },
    }
}

/// Emits the line of a unary operator applied to an operand already lowered.
pub fn emit_unary_tail(
    buf: &mut Vec<u8>,
    params: &mut GenerateIRParams,
    op: UnaryOp,
    a: ExpResult,
    Ghost(o): Ghost<ExpOut>,
) -> (r: Result<ExpResult, CompileError>)
    requires
        o.res == a,
        o.st == old(params)@,
    ensures
        match unary_tail(op, o) {
            Ok(t) => r == Ok::<ExpResult, CompileError>(t.res) && final(params)@ == t.st
                && final(buf)@ == old(buf)@ + lines_text(t.lines.subrange(o.lines.len() as int, t.lines.len() as int)),
            Err(err) => r == Err::<ExpResult, CompileError>(err),
        },
{
    match op {
        UnaryOp::Add => {
            assert(o.lines.subrange(o.lines.len() as int, o.lines.len() as int) =~= Seq::<IrLine>::empty());
            proof { lemma_lines_text_empty(); }
            assert(final(buf)@ =~= old(buf)@ + lines_text(Seq::<IrLine>::empty()));
            Ok(a)
        },
        _ => {
            if params.var_count == i32::MAX {
                return Err(CompileError::CounterOverflow);
            }
            let c = params.var_count;
            if op == UnaryOp::Sub {
                emit_binary(buf, c, BinaryOp::Sub, ExpResult::IntResult(0), a);
            } else {
                emit_binary(buf, c, BinaryOp::Eq, a, ExpResult::IntResult(0));
            }
            params.var_count = c + 1;
            proof {
                let t = unary_tail(op, o)->Ok_0;
                assert(t.lines.subrange(o.lines.len() as int, t.lines.len() as int) =~= seq![t.lines.last()]);
                lemma_lines_text_one(t.lines.last());
            }
            Ok(ExpResult::RegCount(c + 1))
        },
    }
}

/// Emits the lines that combine two lowered operands.
pub fn emit_binary_tail(
    buf: &mut Vec<u8>,
    params: &mut GenerateIRParams,
    op: BinaryOp,
    lhs: ExpResult,
    rhs: ExpResult,
) -> (r: Result<ExpResult, CompileError>)
    ensures
        tail_lowered(binary_tail(op, lhs, rhs, old(params)@), final(params)@, old(buf)@, final(buf)@, r),
{
    let c = params.var_count;
    if op == BinaryOp::And || op == BinaryOp::Or {
        if c > i32::MAX - 3 {
            return Err(CompileError::CounterOverflow);
        }
        emit_binary(buf, c, BinaryOp::NotEq, lhs, ExpResult::IntResult(0));
        emit_binary(buf, c + 1, BinaryOp::NotEq, rhs, ExpResult::IntResult(0));
        emit_binary(buf, c + 2, op, ExpResult::RegCount(c + 1), ExpResult::RegCount(c + 2));
        params.var_count = c + 3;
        proof {
            let t = binary_tail(op, lhs, rhs, old(params)@)->Ok_0;
            lemma_lines_text_one(t.lines[0]);
            lemma_lines_text_one(t.lines[1]);
            lemma_lines_text_one(t.lines[2]);
            lemma_lines_text_append(seq![t.lines[0]], seq![t.lines[1]]);
            lemma_lines_text_append(seq![t.lines[0], t.lines[1]], seq![t.lines[2]]);
            assert(seq![t.lines[0]] + seq![t.lines[1]] =~= seq![t.lines[0], t.lines[1]]);
            assert(seq![t.lines[0], t.lines[1]] + seq![t.lines[2]] =~= t.lines);
            assert(final(buf)@ =~= old(buf)@ + lines_text(t.lines));
            assert(final(params)@ == t.st);
        }
        Ok(ExpResult::RegCount(c + 3))
    } else {
        if c == i32::MAX {
            return Err(CompileError::CounterOverflow);
        }
        emit_binary(buf, c, op, lhs, rhs);
        params.var_count = c + 1;
        proof {
            let t = binary_tail(op, lhs, rhs, old(params)@)->Ok_0;
            lemma_lines_text_one(t.lines[0]);
            assert(t.lines =~= seq![t.lines[0]]);
            assert(final(buf)@ =~= old(buf)@ + lines_text(t.lines));
            assert(final(params)@ == t.st);
        }
        Ok(ExpResult::RegCount(c + 1))
    }
}

/// Composes the lowering of a binary expression from those of its parts.
pub proof fn lemma_binary_lowered(
    op: BinaryOp,
    l: SExp,
    r: SExp,
    st0: IrState,
    st1: IrState,
    st2: IrState,
    st3: IrState,
    b0: Seq<u8>,
    b1: Seq<u8>,
    b2: Seq<u8>,
    b3: Seq<u8>,
    rr: ExpResult,
    lr: ExpResult,
    res: Result<ExpResult, CompileError>,
)
    requires
        exp_lowered(r, st0, st1, b0, b1, Ok(rr)),
        exp_lowered(l, st1, st2, b1, b2, Ok(lr)),
        tail_lowered(binary_tail(op, lr, rr, st2), st3, b2, b3, res),
    ensures
        exp_lowered(SExp::Binary(op, Box::new(l), Box::new(r)), st0, st3, b0, b3, res),
{
    reveal(lower_exp);
    let o1 = lower_exp(r, st0)->Ok_0;
    let o2 = lower_exp(l, st1)->Ok_0;
    if let Ok(o3) = binary_tail(op, lr, rr, st2) {
        lemma_lines_text_append(o1.lines, o2.lines);
        lemma_lines_text_append(o1.lines + o2.lines, o3.lines);
        assert(b3 =~= b0 + lines_text(o1.lines + o2.lines + o3.lines));
    }
}

impl LVal {
    pub fn generate_koopa_ir(&self, buf: &mut Vec<u8>, params: &mut GenerateIRParams) -> (r: Result<
        ExpResult,
        CompileError,
    >)
        ensures
            exp_lowered(SExp::Var(self.ident@), old(params)@, final(params)@, old(buf)@, final(buf)@, r),
            scopes_query(old(params)@.scopes, self.ident@) is None ==> final(buf)@ == old(buf)@
                && final(params)@ == old(params)@,
    {
        proof {
            reveal(lower_exp);
        }
        match params.sym_tab.query(self.ident.clone()) {
            None => Err(CompileError::UnboundName),
            Some(SymVal::ConstVal(v)) => {
                proof { lemma_lines_text_empty(); }
                assert(final(buf)@ =~= old(buf)@ + lines_text(Seq::<IrLine>::empty()));
                Ok(ExpResult::IntResult(v))
            },
            Some(SymVal::VarName(k)) => {
                if params.var_count == i32::MAX {
                    return Err(CompileError::CounterOverflow);
                }
                emit_load(buf, params.var_count, &self.ident, k);
                params.var_count = params.var_count + 1;
                proof {
                    lemma_lines_text_one(IrLine::Load(old(params).var_count as int, self.ident@, k as int));
                }
                Ok(ExpResult::RegCount(params.var_count))
            },
        }
    }

    pub fn calc_const(&self, params: &mut GenerateIRParams) -> (r: Result<i32, CompileError>)
        ensures
            folded(SExp::Var(self.ident@), old(params)@, final(params)@, r),
            scopes_query(old(params)@.scopes, self.ident@) is None ==> final(params)@ == old(params)@,
    {
        proof {
            reveal(fold);
        }
        match params.sym_tab.query(self.ident.clone()) {
            None => Err(CompileError::UnboundName),
            Some(SymVal::ConstVal(v)) => {
                assert(old(params)@.notes + Seq::<CompileError>::empty() =~= old(params)@.notes);
                Ok(v)
            },
            Some(SymVal::VarName(_)) => {
                params.diagnostics.push(CompileError::NonConstInInitializer);
                assert(final(params)@.notes =~= old(params)@.notes + seq![CompileError::NonConstInInitializer]);
                Ok(0)
            },
        }
    }
}


/// The notes of a binary fold are those of its left operand, then its right.
pub proof fn lemma_fold_binary(op: BinaryOp, l: SExp, r: SExp, st0: IrState)
    ensures
        fold(l, st0.scopes) is Ok && fold(r, st0.scopes) is Ok ==> {
            let fl = fold(l, st0.scopes)->Ok_0;
            let fr = fold(r, st0.scopes)->Ok_0;
            st0.with_notes(st0.notes + fl.notes).with_notes(st0.notes + fl.notes + fr.notes)
                == st0.with_notes(st0.notes + (fl.notes + fr.notes))
        },
{
    reveal(fold);
    if fold(l, st0.scopes) is Ok && fold(r, st0.scopes) is Ok {
        let fl = fold(l, st0.scopes)->Ok_0;
        let fr = fold(r, st0.scopes)->Ok_0;
        assert(st0.notes + fl.notes + fr.notes =~= st0.notes + (fl.notes + fr.notes));
    }
}

impl UnaryExp {
    pub fn generate_koopa_ir(&self, buf: &mut Vec<u8>, params: &mut GenerateIRParams) -> (r: Result<
        ExpResult,
        CompileError,
    >)
        ensures
            exp_lowered(self.sexp(), old(params)@, final(params)@, old(buf)@, final(buf)@, r),
        decreases self,
    {
        proof {
            reveal(lower_exp);
        }
        match self {
            UnaryExp::PrimaryExp(p) => p.generate_koopa_ir(buf, params),
            UnaryExp::UnaryExp(op, a) => {
                let ghost st0 = params@;
                let ghost b0 = buf@;
                let ar = match a.generate_koopa_ir(buf, params) {
                    Ok(x) => x,
                    Err(e) => return Err(e),
                };
                let ghost o = lower_exp(a.sexp(), st0)->Ok_0;
                let ghost b1 = buf@;
                let res = emit_unary_tail(buf, params, *op, ar, Ghost(o));
                proof {
                    if let Ok(t) = unary_tail(*op, o) {
                        let tail = t.lines.subrange(o.lines.len() as int, t.lines.len() as int);
                        assert(o.lines + tail =~= t.lines);
                        lemma_lines_text_append(o.lines, tail);
                        assert(buf@ =~= b0 + lines_text(t.lines));
                    }
                }
                res
            },
        }
    }

    pub fn calc_const(&self, params: &mut GenerateIRParams) -> (r: Result<i32, CompileError>)
        ensures
            folded(self.sexp(), old(params)@, final(params)@, r),
        decreases self,
    {
        proof {
            reveal(fold);
        }
        match self {
            UnaryExp::PrimaryExp(p) => p.calc_const(params),
            UnaryExp::UnaryExp(op, a) => {
                let v = match a.calc_const(params) {
                    Ok(x) => x,
                    Err(e) => return Err(e),
                };
                Ok(eval_unary(*op, v))
            },
        }
    }
}

impl PrimaryExp {
    pub fn generate_koopa_ir(&self, buf: &mut Vec<u8>, params: &mut GenerateIRParams) -> (r: Result<
        ExpResult,
        CompileError,
    >)
        ensures
            exp_lowered(self.sexp(), old(params)@, final(params)@, old(buf)@, final(buf)@, r),
        decreases self,
    {
        proof {
            reveal(lower_exp);
        }
        match self {
            PrimaryExp::Exp(e) => e.generate_koopa_ir(buf, params),
            PrimaryExp::Number(Number::IntConst(v)) => {
                proof { lemma_lines_text_empty(); }
                assert(buf@ =~= old(buf)@ + lines_text(Seq::<IrLine>::empty()));
                Ok(ExpResult::IntResult(*v))
            },
            PrimaryExp::LVal(l) => l.generate_koopa_ir(buf, params),
        }
    }

    pub fn calc_const(&self, params: &mut GenerateIRParams) -> (r: Result<i32, CompileError>)
        ensures
            folded(self.sexp(), old(params)@, final(params)@, r),
        decreases self,
    {
        proof {
            reveal(fold);
        }
        match self {
            PrimaryExp::Exp(e) => e.calc_const(params),
            PrimaryExp::Number(Number::IntConst(v)) => {
                assert(params@.notes + Seq::<CompileError>::empty() =~= params@.notes);
                Ok(*v)
            },
            PrimaryExp::LVal(l) => l.calc_const(params),
        }
    }
}

impl Exp {
    pub fn generate_koopa_ir(&self, buf: &mut Vec<u8>, params: &mut GenerateIRParams) -> (r: Result<
        ExpResult,
        CompileError,
    >)
        ensures
            exp_lowered(self.sexp(), old(params)@, final(params)@, old(buf)@, final(buf)@, r),
        decreases self,
    {
        proof {
            reveal(lower_exp);
        }
        self.l_or_exp.generate_koopa_ir(buf, params)
    }

    pub fn calc_const(&self, params: &mut GenerateIRParams) -> (r: Result<i32, CompileError>)
        ensures
            folded(self.sexp(), old(params)@, final(params)@, r),
        decreases self,
    {
        proof {
            reveal(fold);
        }
        self.l_or_exp.calc_const(params)
    }
}

impl LOrExp {
    pub fn generate_koopa_ir(&self, buf: &mut Vec<u8>, params: &mut GenerateIRParams) -> (r: Result<
        ExpResult,
        CompileError,
    >)
        ensures
            exp_lowered(self.sexp(), old(params)@, final(params)@, old(buf)@, final(buf)@, r),
        decreases self,
    {
        proof {
            reveal(lower_exp);
        }
        match self {
            LOrExp::LAndExp(a) => a.generate_koopa_ir(buf, params),
            LOrExp::LOrExp(l, _, r) => {
                let bop = BinaryOp::Or;
                let ghost st0 = params@;
                let ghost b0 = buf@;
                let rr = match r.generate_koopa_ir(buf, params) {
                    Ok(x) => x,
                    Err(e) => return Err(e),
                };
                let ghost st1 = params@;
                let ghost b1 = buf@;
                let lr = match l.generate_koopa_ir(buf, params) {
                    Ok(x) => x,
                    Err(e) => return Err(e),
                };
                let ghost st2 = params@;
                let ghost b2 = buf@;
                let res = emit_binary_tail(buf, params, bop, lr, rr);
                proof {
                    lemma_binary_lowered(bop, l.sexp(), r.sexp(), st0, st1, st2, params@, b0, b1, b2, buf@, rr, lr, res);
                }
                res
            },
        }
    }

    pub fn calc_const(&self, params: &mut GenerateIRParams) -> (r: Result<i32, CompileError>)
        ensures
            folded(self.sexp(), old(params)@, final(params)@, r),
        decreases self,
    {
        proof {
            reveal(fold);
        }
        match self {
            LOrExp::LAndExp(a) => a.calc_const(params),
            LOrExp::LOrExp(l, _, r) => {
                let bop = BinaryOp::Or;
                let ghost st0 = params@;
                let a = match l.calc_const(params) {
                    Ok(x) => x,
                    Err(e) => return Err(e),
                };
                let b = match r.calc_const(params) {
                    Ok(x) => x,
                    Err(e) => return Err(e),
                };
                proof {
                    lemma_fold_binary(bop, l.sexp(), r.sexp(), st0);
                }
                match eval_binop(bop, a, b) {
                    Some(v) => Ok(v),
                    None => Err(CompileError::ArithDomain),
                }
            },
        }
    }
}

impl LAndExp {
    pub fn generate_koopa_ir(&self, buf: &mut Vec<u8>, params: &mut GenerateIRParams) -> (r: Result<
        ExpResult,
        CompileError,
    >)
        ensures
            exp_lowered(self.sexp(), old(params)@, final(params)@, old(buf)@, final(buf)@, r),
        decreases self,
    {
        proof {
            reveal(lower_exp);
        }
        match self {
            LAndExp::EqExp(a) => a.generate_koopa_ir(buf, params),
            LAndExp::LAndExp(l, _, r) => {
                let bop = BinaryOp::And;
                let ghost st0 = params@;
                let ghost b0 = buf@;
                let rr = match r.generate_koopa_ir(buf, params) {
                    Ok(x) => x,
                    Err(e) => return Err(e),
                };
                let ghost st1 = params@;
                let ghost b1 = buf@;
                let lr = match l.generate_koopa_ir(buf, params) {
                    Ok(x) => x,
                    Err(e) => return Err(e),
                };
                let ghost st2 = params@;
                let ghost b2 = buf@;
                let res = emit_binary_tail(buf, params, bop, lr, rr);
                proof {
                    lemma_binary_lowered(bop, l.sexp(), r.sexp(), st0, st1, st2, params@, b0, b1, b2, buf@, rr, lr, res);
                }
                res
            },
        }
    }

    pub fn calc_const(&self, params: &mut GenerateIRParams) -> (r: Result<i32, CompileError>)
        ensures
            folded(self.sexp(), old(params)@, final(params)@, r),
        decreases self,
    {
        proof {
            reveal(fold);
        }
        match self {
            LAndExp::EqExp(a) => a.calc_const(params),
            LAndExp::LAndExp(l, _, r) => {
                let bop = BinaryOp::And;
                let ghost st0 = params@;
                let a = match l.calc_const(params) {
                    Ok(x) => x,
                    Err(e) => return Err(e),
                };
                let b = match r.calc_const(params) {
                    Ok(x) => x,
                    Err(e) => return Err(e),
                };
                proof {
                    lemma_fold_binary(bop, l.sexp(), r.sexp(), st0);
                }
                match eval_binop(bop, a, b) {
                    Some(v) => Ok(v),
                    None => Err(CompileError::ArithDomain),
                }
            },
        }
    }
}

impl EqExp {
    pub fn generate_koopa_ir(&self, buf: &mut Vec<u8>, params: &mut GenerateIRParams) -> (r: Result<
        ExpResult,
        CompileError,
    >)
        ensures
            exp_lowered(self.sexp(), old(params)@, final(params)@, old(buf)@, final(buf)@, r),
        decreases self,
    {
        proof {
            reveal(lower_exp);
        }
        match self {
            EqExp::RelExp(a) => a.generate_koopa_ir(buf, params),
            EqExp::EqExp(l, op, r) => {
                let bop = op.to_binary();
                let ghost st0 = params@;
                let ghost b0 = buf@;
                let rr = match r.generate_koopa_ir(buf, params) {
                    Ok(x) => x,
                    Err(e) => return Err(e),
                };
                let ghost st1 = params@;
                let ghost b1 = buf@;
                let lr = match l.generate_koopa_ir(buf, params) {
                    Ok(x) => x,
                    Err(e) => return Err(e),
                };
                let ghost st2 = params@;
                let ghost b2 = buf@;
                let res = emit_binary_tail(buf, params, bop, lr, rr);
                proof {
                    lemma_binary_lowered(bop, l.sexp(), r.sexp(), st0, st1, st2, params@, b0, b1, b2, buf@, rr, lr, res);
                }
                res
            },
        }
    }

    pub fn calc_const(&self, params: &mut GenerateIRParams) -> (r: Result<i32, CompileError>)
        ensures
            folded(self.sexp(), old(params)@, final(params)@, r),
        decreases self,
    {
        proof {
            reveal(fold);
        }
        match self {
            EqExp::RelExp(a) => a.calc_const(params),
            EqExp::EqExp(l, op, r) => {
                let bop = op.to_binary();
                let ghost st0 = params@;
                let a = match l.calc_const(params) {
                    Ok(x) => x,
                    Err(e) => return Err(e),
                };
                let b = match r.calc_const(params) {
                    Ok(x) => x,
                    Err(e) => return Err(e),
                };
                proof {
                    lemma_fold_binary(bop, l.sexp(), r.sexp(), st0);
                }
                match eval_binop(bop, a, b) {
                    Some(v) => Ok(v),
                    None => Err(CompileError::ArithDomain),
                }
            },
        }
    }
}

impl RelExp {
    pub fn generate_koopa_ir(&self, buf: &mut Vec<u8>, params: &mut GenerateIRParams) -> (r: Result<
        ExpResult,
        CompileError,
    >)
        ensures
            exp_lowered(self.sexp(), old(params)@, final(params)@, old(buf)@, final(buf)@, r),
        decreases self,
    {
        proof {
            reveal(lower_exp);
        }
        match self {
            RelExp::AddExp(a) => a.generate_koopa_ir(buf, params),
            RelExp::RelExp(l, op, r) => {
                let bop = op.to_binary();
                let ghost st0 = params@;
                let ghost b0 = buf@;
                let rr = match r.generate_koopa_ir(buf, params) {
                    Ok(x) => x,
                    Err(e) => return Err(e),
                };
                let ghost st1 = params@;
                let ghost b1 = buf@;
                let lr = match l.generate_koopa_ir(buf, params) {
                    Ok(x) => x,
                    Err(e) => return Err(e),
                };
                let ghost st2 = params@;
                let ghost b2 = buf@;
                let res = emit_binary_tail(buf, params, bop, lr, rr);
                proof {
                    lemma_binary_lowered(bop, l.sexp(), r.sexp(), st0, st1, st2, params@, b0, b1, b2, buf@, rr, lr, res);
                }
                res
            },
        }
    }

    pub fn calc_const(&self, params: &mut GenerateIRParams) -> (r: Result<i32, CompileError>)
        ensures
            folded(self.sexp(), old(params)@, final(params)@, r),
        decreases self,
    {
        proof {
            reveal(fold);
        }
        match self {
            RelExp::AddExp(a) => a.calc_const(params),
            RelExp::RelExp(l, op, r) => {
                let bop = op.to_binary();
                let ghost st0 = params@;
                let a = match l.calc_const(params) {
                    Ok(x) => x,
                    Err(e) => return Err(e),
                };
                let b = match r.calc_const(params) {
                    Ok(x) => x,
                    Err(e) => return Err(e),
                };
                proof {
                    lemma_fold_binary(bop, l.sexp(), r.sexp(), st0);
                }
                match eval_binop(bop, a, b) {
                    Some(v) => Ok(v),
                    None => Err(CompileError::ArithDomain),
                }
            },
        }
    }
}

impl AddExp {
    pub fn generate_koopa_ir(&self, buf: &mut Vec<u8>, params: &mut GenerateIRParams) -> (r: Result<
        ExpResult,
        CompileError,
    >)
        ensures
            exp_lowered(self.sexp(), old(params)@, final(params)@, old(buf)@, final(buf)@, r),
        decreases self,
    {
        proof {
            reveal(lower_exp);
        }
        match self {
            AddExp::MulExp(a) => a.generate_koopa_ir(buf, params),
            AddExp::AddExp(l, op, r) => {
                let bop = op.to_binary();
                let ghost st0 = params@;
                let ghost b0 = buf@;
                let rr = match r.generate_koopa_ir(buf, params) {
                    Ok(x) => x,
                    Err(e) => return Err(e),
                };
                let ghost st1 = params@;
                let ghost b1 = buf@;
                let lr = match l.generate_koopa_ir(buf, params) {
                    Ok(x) => x,
                    Err(e) => return Err(e),
                };
                let ghost st2 = params@;
                let ghost b2 = buf@;
                let res = emit_binary_tail(buf, params, bop, lr, rr);
                proof {
                    lemma_binary_lowered(bop, l.sexp(), r.sexp(), st0, st1, st2, params@, b0, b1, b2, buf@, rr, lr, res);
                }
                res
            },
        }
    }

    pub fn calc_const(&self, params: &mut GenerateIRParams) -> (r: Result<i32, CompileError>)
        ensures
            folded(self.sexp(), old(params)@, final(params)@, r),
        decreases self,
    {
        proof {
            reveal(fold);
        }
        match self {
            AddExp::MulExp(a) => a.calc_const(params),
            AddExp::AddExp(l, op, r) => {
                let bop = op.to_binary();
                let ghost st0 = params@;
                let a = match l.calc_const(params) {
                    Ok(x) => x,
                    Err(e) => return Err(e),
                };
                let b = match r.calc_const(params) {
                    Ok(x) => x,
                    Err(e) => return Err(e),
                };
                proof {
                    lemma_fold_binary(bop, l.sexp(), r.sexp(), st0);
                }
                match eval_binop(bop, a, b) {
                    Some(v) => Ok(v),
                    None => Err(CompileError::ArithDomain),
                }
            },
        }
    }
}

impl MulExp {
    pub fn generate_koopa_ir(&self, buf: &mut Vec<u8>, params: &mut GenerateIRParams) -> (r: Result<
        ExpResult,
        CompileError,
    >)
        ensures
            exp_lowered(self.sexp(), old(params)@, final(params)@, old(buf)@, final(buf)@, r),
        decreases self,
    {
        proof {
            reveal(lower_exp);
        }
        match self {
            MulExp::UnaryExp(a) => a.generate_koopa_ir(buf, params),
            MulExp::MulExp(l, op, r) => {
                let bop = op.to_binary();
                let ghost st0 = params@;
                let ghost b0 = buf@;
                let rr = match r.generate_koopa_ir(buf, params) {
                    Ok(x) => x,
                    Err(e) => return Err(e),
                };
                let ghost st1 = params@;
                let ghost b1 = buf@;
                let lr = match l.generate_koopa_ir(buf, params) {
                    Ok(x) => x,
                    Err(e) => return Err(e),
                };
                let ghost st2 = params@;
                let ghost b2 = buf@;
                let res = emit_binary_tail(buf, params, bop, lr, rr);
                proof {
                    lemma_binary_lowered(bop, l.sexp(), r.sexp(), st0, st1, st2, params@, b0, b1, b2, buf@, rr, lr, res);
                }
                res
            },
        }
    }

    pub fn calc_const(&self, params: &mut GenerateIRParams) -> (r: Result<i32, CompileError>)
        ensures
            folded(self.sexp(), old(params)@, final(params)@, r),
        decreases self,
    {
        proof {
            reveal(fold);
        }
        match self {
            MulExp::UnaryExp(a) => a.calc_const(params),
            MulExp::MulExp(l, op, r) => {
                let bop = op.to_binary();
                let ghost st0 = params@;
                let a = match l.calc_const(params) {
                    Ok(x) => x,
                    Err(e) => return Err(e),
                };
                let b = match r.calc_const(params) {
                    Ok(x) => x,
                    Err(e) => return Err(e),
                };
                proof {
                    lemma_fold_binary(bop, l.sexp(), r.sexp(), st0);
                }
                match eval_binop(bop, a, b) {
                    Some(v) => Ok(v),
                    None => Err(CompileError::ArithDomain),
                }
            },
        }
    }
}


// ---------------------------------------------------------------------------
// Statements: specification

/// What lowering a statement emits, and the state after.
pub struct StmtOut {
    pub lines: Seq<IrLine>,
    pub st: IrState,
}

pub open spec fn stmt_lowered(
    t: Result<StmtOut, CompileError>,
    st1: IrState,
    b0: Seq<u8>,
    b1: Seq<u8>,
    r: Result<(), CompileError>,
) -> bool {
    match t {
        Ok(o) => r == Ok::<(), CompileError>(()) && st1 == o.st && b1 == b0 + lines_text(o.lines),
        Err(err) => r == Err::<(), CompileError>(err),
    }
}

#[verifier::opaque]
pub open spec fn prepend(lines: Seq<IrLine>, t: Result<StmtOut, CompileError>) -> Result<StmtOut, CompileError> {
    match t {
        Ok(o) => Ok(StmtOut { lines: lines + o.lines, st: o.st }),
        Err(err) => Err(err),
    }
}

pub open spec fn pop_scope(s: ScopesModel) -> ScopesModel {
    if s.len() == 0 {
        s
    } else {
        s.drop_last()
    }
}

/// The jump to the end label that closes a branch, unless the branch returned.
pub open spec fn jump_unless(returned: bool, end: int) -> Seq<IrLine> {
    if returned {
        Seq::empty()
    } else {
        seq![IrLine::Jump(Label::End(end))]
    }
}

/// Fresh `then`, `else` and `end` indices: each counter goes up by one.
pub open spec fn bump_labels(st: IrState) -> Result<IrState, CompileError> {
    if st.then_idx + 1 > i32::MAX || st.else_idx + 1 > i32::MAX || st.end_idx + 1 > i32::MAX {
        Err(CompileError::CounterOverflow)
    } else {
        Ok(IrState { then_idx: st.then_idx + 1, else_idx: st.else_idx + 1, end_idx: st.end_idx + 1, ..st })
    }
}

/// The lines of `if (c) s1 else s2`, from the parts lowered in order.
#[verifier::opaque]
pub open spec fn if_else_lines(st0: IrState, oc: ExpOut, o1: StmtOut, o2: StmtOut) -> Seq<IrLine> {
    oc.lines + seq![
        IrLine::Br(oc.res, Label::Then(st0.then_idx), Label::Else(st0.else_idx)),
        IrLine::Label(Label::Then(st0.then_idx)),
    ] + o1.lines + jump_unless(o1.st.returned, st0.end_idx) + seq![IrLine::Label(Label::Else(st0.else_idx))]
        + o2.lines + jump_unless(o2.st.returned, st0.end_idx) + seq![IrLine::Label(Label::End(st0.end_idx))]
}

/// The lines of `if (c) s`, from the parts lowered in order.
#[verifier::opaque]
pub open spec fn if_lines(st0: IrState, oc: ExpOut, o1: StmtOut) -> Seq<IrLine> {
    oc.lines + seq![
        IrLine::Br(oc.res, Label::Then(st0.then_idx), Label::End(st0.end_idx)),
        IrLine::Label(Label::Then(st0.then_idx)),
    ] + o1.lines + jump_unless(o1.st.returned, st0.end_idx) + seq![IrLine::Label(Label::End(st0.end_idx))]
}

/// Lowering of one variable definition: the initializer is lowered first,
/// then the name is bound, so the initializer sees the bindings in scope
/// before the definition.
#[verifier::opaque]
pub open spec fn lower_var_def(d: VarDef, st: IrState) -> Result<StmtOut, CompileError> {
    match d {
        VarDef::VarDefUninit(name) => match declare_var(st, name@) {
            Err(err) => Err(err),
            Ok((k, st1)) => Ok(StmtOut { lines: seq![IrLine::Alloc(name@, k)], st: st1 }),
        },
        VarDef::VarDefInit(name, init) => match lower_exp(init.exp.sexp(), st) {
            Err(err) => Err(err),
            Ok(o) => match declare_var(o.st, name@) {
                Err(err) => Err(err),
                Ok((k, st1)) => Ok(StmtOut {
                    lines: o.lines + seq![IrLine::Alloc(name@, k), IrLine::Store(o.res, name@, k)],
                    st: st1,
                }),
            },
        },
    }
}

pub open spec fn lower_var_defs(defs: Seq<VarDef>, i: int, st: IrState) -> Result<StmtOut, CompileError>
    decreases defs.len() - i,
{
    if i < 0 || i >= defs.len() {
        Ok(StmtOut { lines: Seq::empty(), st: st })
    } else {
        match lower_var_def(defs[i], st) {
            Err(err) => Err(err),
            Ok(o) => prepend(o.lines, lower_var_defs(defs, i + 1, o.st)),
        }
    }
}

/// Folding one constant definition and binding its value.
pub open spec fn const_def_step(d: ConstDef, st: IrState) -> Result<IrState, CompileError> {
    match fold(d.const_init_val.const_exp.exp.sexp(), st.scopes) {
        Err(err) => Err(err),
        Ok(f) => Ok(st.with_notes(st.notes + f.notes).with_scopes(
            scopes_insert(st.scopes, d.ident@, SymVal::ConstVal(f.value)),
        )),
    }
}

pub open spec fn const_defs_step(defs: Seq<ConstDef>, i: int, st: IrState) -> Result<IrState, CompileError>
    decreases defs.len() - i,
{
    if i < 0 || i >= defs.len() {
        Ok(st)
    } else {
        match const_def_step(defs[i], st) {
            Err(err) => Err(err),
            Ok(st1) => const_defs_step(defs, i + 1, st1),
        }
    }
}

pub open spec fn lower_decl(d: Decl, st: IrState) -> Result<StmtOut, CompileError> {
    match d {
        Decl::ConstDecl(c) => match const_defs_step(c.const_defs@, 0, st) {
            Err(err) => Err(err),
            Ok(st1) => Ok(StmtOut { lines: Seq::empty(), st: st1 }),
        },
        Decl::VarDecl(v) => lower_var_defs(v.var_defs@, 0, st),
    }
}

pub open spec fn lower_non_if(s: NonIfStmt, st: IrState) -> Result<StmtOut, CompileError>
    decreases s, 0int,
{
    match s {
        NonIfStmt::Return(e) => match lower_exp(e.sexp(), st) {
            Err(err) => Err(err),
            Ok(o) => Ok(StmtOut { lines: o.lines.push(IrLine::Ret(o.res)), st: o.st.with_returned(true) }),
        },
        NonIfStmt::Assgn(lv, e) => match scopes_query(st.scopes, lv.ident@) {
            None => Err(CompileError::UnboundName),
            Some(SymVal::ConstVal(_)) => Err(CompileError::AssignToConst),
            Some(SymVal::VarName(k)) => match lower_exp(e.sexp(), st) {
                Err(err) => Err(err),
                Ok(o) => Ok(StmtOut { lines: o.lines.push(IrLine::Store(o.res, lv.ident@, k as int)), st: o.st }),
            },
        },
        NonIfStmt::Exp(None) => Ok(StmtOut { lines: Seq::empty(), st: st }),
        NonIfStmt::Exp(Some(e)) => match lower_exp(e.sexp(), st) {
            Err(err) => Err(err),
            Ok(o) => Ok(StmtOut { lines: o.lines, st: o.st }),
        },
        NonIfStmt::Block(b) => lower_block(b, st),
    }
}

pub open spec fn lower_closed(s: ClosedStmt, st: IrState) -> Result<StmtOut, CompileError>
    decreases s, 0int,
{
    match s {
        ClosedStmt::NonIfStmt(n) => lower_non_if(n, st),
        ClosedStmt::IfStmt(e, s1, s2) => match bump_labels(st) {
            Err(err) => Err(err),
            Ok(st0) => match lower_exp(e.sexp(), st0) {
                Err(err) => Err(err),
                Ok(oc) => match lower_closed(*s1, oc.st.with_returned(false)) {
                    Err(err) => Err(err),
                    Ok(o1) => match lower_closed(*s2, o1.st.with_returned(false)) {
                        Err(err) => Err(err),
                        Ok(o2) => Ok(StmtOut {
                            lines: if_else_lines(st0, oc, o1, o2),
                            st: o2.st.with_returned(st.returned),
                        }),
                    },
                },
            },
        },
    }
}

pub open spec fn lower_open(s: OpenStmt, st: IrState) -> Result<StmtOut, CompileError>
    decreases s, 0int,
{
    match s {
        OpenStmt::IfStmtNoElse(e, s1) => match bump_labels(st) {
            Err(err) => Err(err),
            Ok(st0) => match lower_exp(e.sexp(), st0) {
                Err(err) => Err(err),
                Ok(oc) => match lower_stmt(*s1, oc.st.with_returned(false)) {
                    Err(err) => Err(err),
                    Ok(o1) => Ok(StmtOut { lines: if_lines(st0, oc, o1), st: o1.st.with_returned(st.returned) }),
                },
            },
        },
        OpenStmt::IfStmtMitElse(e, s1, s2) => match bump_labels(st) {
            Err(err) => Err(err),
            Ok(st0) => match lower_exp(e.sexp(), st0) {
                Err(err) => Err(err),
                Ok(oc) => match lower_closed(s1, oc.st.with_returned(false)) {
                    Err(err) => Err(err),
                    Ok(o1) => match lower_open(*s2, o1.st.with_returned(false)) {
                        Err(err) => Err(err),
                        Ok(o2) => Ok(StmtOut {
                            lines: if_else_lines(st0, oc, o1, o2),
                            st: o2.st.with_returned(st.returned),
                        }),
                    },
                },
            },
        },
    }
}

pub open spec fn lower_stmt(s: Stmt, st: IrState) -> Result<StmtOut, CompileError>
    decreases s, 0int,
{
    match s {
        Stmt::OpenStmt(o) => lower_open(o, st),
        Stmt::ClosedStmt(c) => lower_closed(c, st),
    }
}

pub open spec fn lower_item(it: BlockItem, st: IrState) -> Result<StmtOut, CompileError>
    decreases it, 0int,
{
    match it {
        BlockItem::Decl(d) => lower_decl(d, st),
        BlockItem::Stmt(s) => lower_stmt(s, st),
    }
}

/// Lowering the items of a block from index `i`, stopping after an item that returned.
pub open spec fn lower_items(items: Seq<BlockItem>, i: int, st: IrState) -> Result<StmtOut, CompileError>
    decreases items, items.len() - i,
{
    if i < 0 || i >= items.len() {
        Ok(StmtOut { lines: Seq::empty(), st: st })
    } else {
        match lower_item(items[i], st) {
            Err(err) => Err(err),
            Ok(o) => if o.st.returned {
                Ok(o)
            } else {
                prepend(o.lines, lower_items(items, i + 1, o.st))
            },
        }
    }
}

/// A block opens a frame, lowers its items, and closes the frame.
pub open spec fn lower_block(b: Block, st: IrState) -> Result<StmtOut, CompileError>
    decreases b, 0int,
{
    match lower_items(b.block_items@, 0, st.with_scopes(st.scopes.push(Seq::empty()))) {
        Err(err) => Err(err),
        Ok(o) => Ok(StmtOut { lines: o.lines, st: o.st.with_scopes(pop_scope(o.st.scopes)) }),
    }
}

pub open spec fn main_name() -> Seq<char> {
    seq!['m', 'a', 'i', 'n']
}

/// The opaque text of a lowered function body.
#[verifier::opaque]
pub open spec fn func_lines(name: Seq<char>, t: FuncType, o: StmtOut) -> Seq<IrLine> {
    seq![IrLine::FunHeader(name, t), IrLine::Label(Label::Entry)] + o.lines
        + (if o.st.returned { Seq::empty() } else { seq![IrLine::RetUndef] }) + seq![IrLine::Close]
}

/// Lowering of a function: header, `%entry`, the body, a `ret undef` when
/// the body's last path did not return, and the closing brace.
pub open spec fn lower_func(f: FuncDef, st: IrState) -> Result<StmtOut, CompileError> {
    if f.ident@ != main_name() {
        Err(CompileError::UnsupportedFunction)
    } else {
        match block_result(f.block, st) {
            Err(err) => Err(err),
            Ok(o) => Ok(StmtOut { lines: func_lines(f.ident@, f.func_type, o), st: o.st }),
        }
    }
}

/// `lower_block`, behind a name that does not unfold.
#[verifier::opaque]
pub open spec fn block_result(b: Block, st: IrState) -> Result<StmtOut, CompileError> {
    lower_block(b, st)
}

/// `lower_item`, behind a name that does not unfold.
#[verifier::opaque]
pub open spec fn item_result(it: BlockItem, st: IrState) -> Result<StmtOut, CompileError> {
    lower_item(it, st)
}

/// `lower_items`, behind a name that does not unfold.
#[verifier::opaque]
pub open spec fn items_result(items: Seq<BlockItem>, i: int, st: IrState) -> Result<StmtOut, CompileError> {
    lower_items(items, i, st)
}

pub proof fn lemma_block_result(b: Block, st: IrState)
    ensures
        block_result(b, st) == lower_block(b, st),
        block_result(b, st) == match items_result(b.block_items@, 0, st.with_scopes(st.scopes.push(Seq::empty()))) {
            Err(err) => Err(err),
            Ok(o) => Ok(StmtOut { lines: o.lines, st: o.st.with_scopes(pop_scope(o.st.scopes)) }),
        },
{
    reveal(block_result);
    reveal(items_result);
}

pub proof fn lemma_item_result(it: BlockItem, st: IrState)
    ensures
        item_result(it, st) == match it {
            BlockItem::Decl(d) => lower_decl(d, st),
            BlockItem::Stmt(s) => lower_stmt(s, st),
        },
{
    reveal(item_result);
}

pub proof fn lemma_var_def_unfold(d: VarDef, st: IrState)
    ensures
        lower_var_def(d, st) == match d {
            VarDef::VarDefUninit(name) => match declare_var(st, name@) {
                Err(err) => Err(err),
                Ok((k, st1)) => Ok(StmtOut { lines: seq![IrLine::Alloc(name@, k)], st: st1 }),
            },
            VarDef::VarDefInit(name, init) => match lower_exp(init.exp.sexp(), st) {
                Err(err) => Err(err),
                Ok(o) => match declare_var(o.st, name@) {
                    Err(err) => Err(err),
                    Ok((k, st1)) => Ok(StmtOut {
                        lines: o.lines + seq![IrLine::Alloc(name@, k), IrLine::Store(o.res, name@, k)],
                        st: st1,
                    }),
                },
            },
        },
{
    reveal(lower_var_def);
}

/// The state in which a translation unit starts: every counter 0, one global frame.
pub open spec fn initial_state() -> IrState {
    IrState {
        var_count: 0,
        then_idx: 0,
        else_idx: 0,
        end_idx: 0,
        returned: false,
        scopes: seq![Seq::empty()],
        shadow: Seq::empty(),
        notes: Seq::empty(),
    }
}

/// What lowering a translation unit leaves: on success the bytes of its
/// lines after the old buffer, and the recoverable errors met.
pub open spec fn ir_emitted(
    c: CompUnit,
    before: Seq<u8>,
    after: Seq<u8>,
    r: Result<Vec<CompileError>, CompileError>,
) -> bool {
    match comp_unit_ir(c) {
        Ok(o) => r is Ok && r->Ok_0@ == o.st.notes && after == before + lines_text(o.lines),
        Err(err) => r == Err::<Vec<CompileError>, CompileError>(err),
    }
}

/// The IR lines of a whole translation unit.
pub open spec fn comp_unit_ir(c: CompUnit) -> Result<StmtOut, CompileError> {
    lower_func(c.func_def, initial_state())
}

pub proof fn lemma_extend(b0: Seq<u8>, acc: Seq<IrLine>, part: Seq<IrLine>, b1: Seq<u8>, b2: Seq<u8>)
    requires
        b1 == b0 + lines_text(acc),
        b2 == b1 + lines_text(part),
    ensures
        b2 == b0 + lines_text(acc + part),
{
    lemma_lines_text_append(acc, part);
    assert(b2 =~= b0 + lines_text(acc + part));
}

pub proof fn lemma_extend_one(b0: Seq<u8>, acc: Seq<IrLine>, l: IrLine, b1: Seq<u8>, b2: Seq<u8>)
    requires
        b1 == b0 + lines_text(acc),
        b2 == b1 + line_text(l),
    ensures
        b2 == b0 + lines_text(acc.push(l)),
{
    lemma_lines_text_one(l);
    assert(acc.push(l) =~= acc + seq![l]);
    lemma_extend(b0, acc, seq![l], b1, b2);
}


// ---------------------------------------------------------------------------
// Declarations: executable

fn shadow_lookup(v: &Vec<(String, i32)>, name: &String) -> (r: i32)
    ensures
        r as int == shadow_of(shadow_model(*v), name@),
{
    let ghost m = shadow_model(*v);
    let mut j: usize = v.len();
    assert(m.subrange(0, j as int) =~= m);
    while j > 0
        invariant
            j <= v@.len(),
            m == shadow_model(*v),
            shadow_of(m, name@) == shadow_of(m.subrange(0, j as int), name@),
        decreases j,
    {
        let ghost sub = m.subrange(0, j as int);
        assert(sub.last() == (v@[j - 1].0@, v@[j - 1].1));
        if v[j - 1].0 == *name {
            return v[j - 1].1;
        }
        assert(sub.drop_last() =~= m.subrange(0, j - 1));
        j = j - 1;
    }
    0
}

pub proof fn lemma_shadow_range(s: ShadowModel, name: Seq<char>)
    ensures
        i32::MIN <= shadow_of(s, name) <= i32::MAX,
    decreases s.len(),
{
    if s.len() > 0 {
        lemma_shadow_range(s.drop_last(), name);
    }
}

/// Binds a new variable `var_name` in the innermost frame and returns its
/// shadow index, one above the highest given to that name so far.
pub fn load_var_to_sym_tab(var_name: String, params: &mut GenerateIRParams) -> (r: Result<i32, CompileError>)
    ensures
        match declare_var(old(params)@, var_name@) {
            Ok((k, st)) => r == Ok::<i32, CompileError>(k as i32) && k == r->Ok_0 as int && final(params)@ == st,
            Err(err) => r == Err::<i32, CompileError>(err),
        },
{
    proof {
        lemma_shadow_range(shadow_model(params.cur_var_idx), var_name@);
    }
    let prev = shadow_lookup(&params.cur_var_idx, &var_name);
    if prev == i32::MAX {
        return Err(CompileError::CounterOverflow);
    }
    let idx = prev + 1;
    let ghost n = var_name@;
    params.cur_var_idx.push((var_name.clone(), idx));
    params.sym_tab.insert(var_name, SymVal::VarName(idx));
    assert(shadow_model(params.cur_var_idx) =~= shadow_model(old(params).cur_var_idx).push((n, idx)));
    Ok(idx)
}

impl InitVal {
    pub fn generate_koopa_ir(&self, buf: &mut Vec<u8>, params: &mut GenerateIRParams) -> (r: Result<
        ExpResult,
        CompileError,
    >)
        ensures
            exp_lowered(self.exp.sexp(), old(params)@, final(params)@, old(buf)@, final(buf)@, r),
    {
        self.exp.generate_koopa_ir(buf, params)
    }
}

impl ConstExp {
    pub fn calc_const(&self, params: &mut GenerateIRParams) -> (r: Result<i32, CompileError>)
        ensures
            folded(self.exp.sexp(), old(params)@, final(params)@, r),
    {
        self.exp.calc_const(params)
    }
}

impl ConstInitVal {
    pub fn calc_const(&self, params: &mut GenerateIRParams) -> (r: Result<i32, CompileError>)
        ensures
            folded(self.const_exp.exp.sexp(), old(params)@, final(params)@, r),
    {
        self.const_exp.calc_const(params)
    }
}

impl ConstDef {
    /// Folds the initializer and binds the name to the constant.
    pub fn calc_const(&self, params: &mut GenerateIRParams) -> (r: Result<(), CompileError>)
        ensures
            match const_def_step(*self, old(params)@) {
                Ok(st) => r == Ok::<(), CompileError>(()) && final(params)@ == st,
                Err(err) => r == Err::<(), CompileError>(err),
            },
    {
        let v = match self.const_init_val.calc_const(params) {
            Ok(x) => x,
            Err(e) => return Err(e),
        };
        params.sym_tab.insert(self.ident.clone(), SymVal::ConstVal(v));
        Ok(())
    }
}

impl ConstDecl {
    pub fn calc_const(&self, params: &mut GenerateIRParams) -> (r: Result<(), CompileError>)
        ensures
            match const_defs_step(self.const_defs@, 0, old(params)@) {
                Ok(st) => r == Ok::<(), CompileError>(()) && final(params)@ == st,
                Err(err) => r == Err::<(), CompileError>(err),
            },
    {
        let mut i: usize = 0;
        while i < self.const_defs.len()
            invariant
                i <= self.const_defs@.len(),
                const_defs_step(self.const_defs@, 0, old(params)@) == const_defs_step(
                    self.const_defs@,
                    i as int,
                    params@,
                ),
            decreases self.const_defs@.len() - i,
        {
            match self.const_defs[i].calc_const(params) {
                Ok(()) => {},
                Err(e) => return Err(e),
            }
            i = i + 1;
        }
        Ok(())
    }
}

fn var_def_uninit(buf: &mut Vec<u8>, params: &mut GenerateIRParams, name: &String) -> (r: Result<
    (),
    CompileError,
>)
    ensures
        stmt_lowered(
            match declare_var(old(params)@, name@) {
                Err(err) => Err(err),
                Ok((k, st1)) => Ok(StmtOut { lines: seq![IrLine::Alloc(name@, k)], st: st1 }),
            },
            final(params)@,
            old(buf)@,
            final(buf)@,
            r,
        ),
{
    let k = match load_var_to_sym_tab(name.clone(), params) {
        Ok(k) => k,
        Err(e) => return Err(e),
    };
    emit_alloc(buf, name, k);
    proof {
        let d = declare_var(old(params)@, name@);
        assert(d is Ok);
        assert(d->Ok_0.0 == k as int);
        assert(d->Ok_0.1 == params@);
        lemma_lines_text_one(IrLine::Alloc(name@, k as int));
    }
    Ok(())
}

fn var_def_init_tail(buf: &mut Vec<u8>, params: &mut GenerateIRParams, name: &String, v: ExpResult) -> (r:
    Result<(), CompileError>)
    ensures
        stmt_lowered(
            match declare_var(old(params)@, name@) {
                Err(err) => Err(err),
                Ok((k, st1)) => Ok(
                    StmtOut { lines: seq![IrLine::Alloc(name@, k), IrLine::Store(v, name@, k)], st: st1 },
                ),
            },
            final(params)@,
            old(buf)@,
            final(buf)@,
            r,
        ),
{
    let k = match load_var_to_sym_tab(name.clone(), params) {
        Ok(k) => k,
        Err(e) => return Err(e),
    };
    let ghost b0 = old(buf)@;
    emit_alloc(buf, name, k);
    let ghost b1 = buf@;
    emit_store(buf, v, name, k);
    proof {
        let l1 = IrLine::Alloc(name@, k as int);
        let l2 = IrLine::Store(v, name@, k as int);
        lemma_lines_text_empty();
        assert(b0 =~= b0 + lines_text(Seq::<IrLine>::empty()));
        lemma_extend_one(b0, Seq::<IrLine>::empty(), l1, b0, b1);
        lemma_extend_one(b0, Seq::<IrLine>::empty().push(l1), l2, b1, buf@);
        assert(Seq::<IrLine>::empty().push(l1).push(l2) =~= seq![l1, l2]);
    }
    Ok(())
}

impl VarDef {
    pub fn generate_koopa_ir(&self, buf: &mut Vec<u8>, params: &mut GenerateIRParams) -> (r: Result<
        (),
        CompileError,
    >)
        ensures
            stmt_lowered(lower_var_def(*self, old(params)@), final(params)@, old(buf)@, final(buf)@, r),
    {
        proof {
            lemma_var_def_unfold(*self, old(params)@);
        }
        match self {
            VarDef::VarDefUninit(name) => var_def_uninit(buf, params, name),
            VarDef::VarDefInit(name, init) => {
                let ghost b0 = buf@;
                let v = match init.generate_koopa_ir(buf, params) {
                    Ok(x) => x,
                    Err(e) => return Err(e),
                };
                let ghost o = lower_exp(init.exp.sexp(), old(params)@)->Ok_0;
                let ghost b1 = buf@;
                let r = var_def_init_tail(buf, params, name, v);
                proof {
                    if let Ok((k, st1)) = declare_var(o.st, name@) {
                        let tail = seq![IrLine::Alloc(name@, k), IrLine::Store(v, name@, k)];
                        lemma_extend(b0, o.lines, tail, b1, buf@);
                    }
                }
                r
            },
        }
    }
}

impl VarDecl {
    pub fn generate_koopa_ir(&self, buf: &mut Vec<u8>, params: &mut GenerateIRParams) -> (r: Result<
        (),
        CompileError,
    >)
        ensures
            stmt_lowered(lower_var_defs(self.var_defs@, 0, old(params)@), final(params)@, old(buf)@, final(buf)@, r),
    {
        let ghost b0 = buf@;
        let ghost defs = self.var_defs@;
        let ghost mut acc: Seq<IrLine> = Seq::empty();
        let mut i: usize = 0;
        proof {
            lemma_lines_text_empty();
            assert(b0 =~= b0 + lines_text(acc));
            lemma_prepend_empty(lower_var_defs(defs, 0, old(params)@));
        }
        while i < self.var_defs.len()
            invariant
                i <= defs.len(),
                defs == self.var_defs@,
                buf@ == b0 + lines_text(acc),
                lower_var_defs(defs, 0, old(params)@) == prepend(acc, lower_var_defs(defs, i as int, params@)),
            decreases defs.len() - i,
        {
            let ghost st = params@;
            let ghost b1 = buf@;
            proof {
                lemma_var_defs_step(defs, i as int, st, acc);
            }
            match self.var_defs[i].generate_koopa_ir(buf, params) {
                Ok(()) => {},
                Err(e) => return Err(e),
            }
            proof {
                let o = lower_var_def(defs[i as int], st)->Ok_0;
                lemma_extend(b0, acc, o.lines, b1, buf@);
                acc = acc + o.lines;
            }
            i = i + 1;
        }
        proof {
            lemma_var_defs_end(defs, i as int, params@, acc);
        }
        Ok(())
    }
}

impl Decl {
    pub fn generate_koopa_ir(&self, buf: &mut Vec<u8>, params: &mut GenerateIRParams) -> (r: Result<
        (),
        CompileError,
    >)
        ensures
            stmt_lowered(lower_decl(*self, old(params)@), final(params)@, old(buf)@, final(buf)@, r),
    {
        match self {
            Decl::ConstDecl(c) => {
                let r = c.calc_const(params);
                proof { lemma_lines_text_empty(); }
                assert(buf@ =~= old(buf)@ + lines_text(Seq::<IrLine>::empty()));
                r
            },
            Decl::VarDecl(v) => v.generate_koopa_ir(buf, params),
        }
    }
}


// ---------------------------------------------------------------------------
// Statements: executable
pub proof fn lemma_func_text(
    name: Seq<char>,
    t: FuncType,
    o: StmtOut,
    b0: Seq<u8>,
    b1: Seq<u8>,
    b2: Seq<u8>,
    b3: Seq<u8>,
    b4: Seq<u8>,
    b5: Seq<u8>,
)
    requires
        b1 == b0 + line_text(IrLine::FunHeader(name, t)),
        b2 == b1 + line_text(IrLine::Label(Label::Entry)),
        b3 == b2 + lines_text(o.lines),
        b4 == b3 + (if o.st.returned { Seq::empty() } else { line_text(IrLine::RetUndef) }),
        b5 == b4 + line_text(IrLine::Close),
    ensures
        b5 == b0 + lines_text(func_lines(name, t, o)),
{
    let hd = IrLine::FunHeader(name, t);
    let en = IrLine::Label(Label::Entry);
    let tail: Seq<IrLine> = if o.st.returned { Seq::empty() } else { seq![IrLine::RetUndef] };
    lemma_lines_text_empty();
    assert(b0 =~= b0 + lines_text(Seq::<IrLine>::empty()));
    lemma_extend_one(b0, Seq::<IrLine>::empty(), hd, b0, b1);
    assert(Seq::<IrLine>::empty().push(hd) =~= seq![hd]);
    lemma_extend_one(b0, seq![hd], en, b1, b2);
    assert(seq![hd].push(en) =~= seq![hd, en]);
    lemma_extend(b0, seq![hd, en], o.lines, b2, b3);
    if o.st.returned {
        lemma_lines_text_empty();
        assert(b4 =~= b3 + lines_text(tail));
    } else {
        lemma_lines_text_one(IrLine::RetUndef);
    }
    lemma_extend(b0, seq![hd, en] + o.lines, tail, b3, b4);
    lemma_extend_one(b0, seq![hd, en] + o.lines + tail, IrLine::Close, b4, b5);
    reveal(func_lines);
    assert((seq![hd, en] + o.lines + tail).push(IrLine::Close) =~= func_lines(name, t, o));
}

pub proof fn lemma_if_else_text(
    st0: IrState,
    oc: ExpOut,
    o1: StmtOut,
    o2: StmtOut,
    b0: Seq<u8>,
    b1: Seq<u8>,
    b2: Seq<u8>,
    b3: Seq<u8>,
    b4: Seq<u8>,
    b5: Seq<u8>,
    b6: Seq<u8>,
    b7: Seq<u8>,
)
    requires
        b1 == b0 + lines_text(if_head_lines(st0, oc, true)),
        b2 == b1 + lines_text(o1.lines),
        b3 == b2 + lines_text(jump_unless(o1.st.returned, st0.end_idx)),
        b4 == b3 + line_text(IrLine::Label(Label::Else(st0.else_idx))),
        b5 == b4 + lines_text(o2.lines),
        b6 == b5 + lines_text(jump_unless(o2.st.returned, st0.end_idx)),
        b7 == b6 + line_text(IrLine::Label(Label::End(st0.end_idx))),
    ensures
        b7 == b0 + lines_text(if_else_lines(st0, oc, o1, o2)),
{
    reveal(if_else_lines);
    reveal(if_head_lines);
    let head = if_head_lines(st0, oc, true);
    let j1 = jump_unless(o1.st.returned, st0.end_idx);
    let j2 = jump_unless(o2.st.returned, st0.end_idx);
    let le = IrLine::Label(Label::Else(st0.else_idx));
    let lend = IrLine::Label(Label::End(st0.end_idx));
    lemma_extend(b0, head, o1.lines, b1, b2);
    lemma_extend(b0, head + o1.lines, j1, b2, b3);
    lemma_extend_one(b0, head + o1.lines + j1, le, b3, b4);
    lemma_extend(b0, (head + o1.lines + j1).push(le), o2.lines, b4, b5);
    lemma_extend(b0, (head + o1.lines + j1).push(le) + o2.lines, j2, b5, b6);
    lemma_extend_one(b0, (head + o1.lines + j1).push(le) + o2.lines + j2, lend, b6, b7);
    assert(((head + o1.lines + j1).push(le) + o2.lines + j2).push(lend) =~= if_else_lines(st0, oc, o1, o2));
}

pub proof fn lemma_if_text(st0: IrState, oc: ExpOut, o1: StmtOut, b0: Seq<u8>, b1: Seq<u8>, b2: Seq<u8>, b3: Seq<u8>, b4: Seq<u8>)
    requires
        b1 == b0 + lines_text(if_head_lines(st0, oc, false)),
        b2 == b1 + lines_text(o1.lines),
        b3 == b2 + lines_text(jump_unless(o1.st.returned, st0.end_idx)),
        b4 == b3 + line_text(IrLine::Label(Label::End(st0.end_idx))),
    ensures
        b4 == b0 + lines_text(if_lines(st0, oc, o1)),
{
    reveal(if_lines);
    reveal(if_head_lines);
    let head = if_head_lines(st0, oc, false);
    let j1 = jump_unless(o1.st.returned, st0.end_idx);
    let lend = IrLine::Label(Label::End(st0.end_idx));
    lemma_extend(b0, head, o1.lines, b1, b2);
    lemma_extend(b0, head + o1.lines, j1, b2, b3);
    lemma_extend_one(b0, head + o1.lines + j1, lend, b3, b4);
    assert((head + o1.lines + j1).push(lend) =~= if_lines(st0, oc, o1));
}

/// One step of lowering the items of a block.
pub proof fn lemma_items_step(items: Seq<BlockItem>, i: int, st: IrState, acc: Seq<IrLine>)
    requires
        0 <= i < items.len(),
    ensures
        match item_result(items[i], st) {
            Err(err) => prepend(acc, items_result(items, i, st)) == Err::<StmtOut, CompileError>(err),
            Ok(o) => if o.st.returned {
                prepend(acc, items_result(items, i, st)) == Ok::<StmtOut, CompileError>(
                    StmtOut { lines: acc + o.lines, st: o.st },
                )
            } else {
                prepend(acc, items_result(items, i, st)) == prepend(acc + o.lines, items_result(items, i + 1, o.st))
            },
        },
{
    reveal(prepend);
    reveal(items_result);
    reveal(item_result);
    assert(lower_items(items, i, st) == match lower_item(items[i], st) {
        Err(err) => Err(err),
        Ok(o) => if o.st.returned {
            Ok(o)
        } else {
            prepend(o.lines, lower_items(items, i + 1, o.st))
        },
    });
    if let Ok(o) = lower_item(items[i], st) {
        if !o.st.returned {
            if let Ok(ro) = lower_items(items, i + 1, o.st) {
                assert(acc + (o.lines + ro.lines) =~= (acc + o.lines) + ro.lines);
            }
        }
    }
}

pub proof fn lemma_items_end(items: Seq<BlockItem>, i: int, st: IrState, acc: Seq<IrLine>)
    requires
        i == items.len(),
    ensures
        prepend(acc, items_result(items, i, st)) == Ok::<StmtOut, CompileError>(StmtOut { lines: acc, st: st }),
{
    reveal(prepend);
    reveal(items_result);
    assert(acc + Seq::<IrLine>::empty() =~= acc);
}

pub proof fn lemma_prepend_empty(t: Result<StmtOut, CompileError>)
    ensures
        prepend(Seq::empty(), t) == t,
{
    reveal(prepend);
    if let Ok(o) = t {
        assert(Seq::<IrLine>::empty() + o.lines =~= o.lines);
    }
}

/// One step of lowering the definitions of a variable declaration.
pub proof fn lemma_var_defs_step(defs: Seq<VarDef>, i: int, st: IrState, acc: Seq<IrLine>)
    requires
        0 <= i < defs.len(),
    ensures
        match lower_var_def(defs[i], st) {
            Err(err) => prepend(acc, lower_var_defs(defs, i, st)) == Err::<StmtOut, CompileError>(err),
            Ok(o) => prepend(acc, lower_var_defs(defs, i, st)) == prepend(acc + o.lines, lower_var_defs(defs, i + 1, o.st)),
        },
{
    reveal(prepend);
    if let Ok(o) = lower_var_def(defs[i], st) {
        if let Ok(ro) = lower_var_defs(defs, i + 1, o.st) {
            assert(acc + (o.lines + ro.lines) =~= (acc + o.lines) + ro.lines);
        }
    }
}

pub proof fn lemma_var_defs_end(defs: Seq<VarDef>, i: int, st: IrState, acc: Seq<IrLine>)
    requires
        i == defs.len(),
    ensures
        prepend(acc, lower_var_defs(defs, i, st)) == Ok::<StmtOut, CompileError>(StmtOut { lines: acc, st: st }),
{
    reveal(prepend);
    assert(acc + Seq::<IrLine>::empty() =~= acc);
}

#[verifier::opaque]
pub open spec fn if_head_lines(st0: IrState, oc: ExpOut, with_else: bool) -> Seq<IrLine> {
    oc.lines + seq![
        IrLine::Br(
            oc.res,
            Label::Then(st0.then_idx),
            if with_else { Label::Else(st0.else_idx) } else { Label::End(st0.end_idx) },
        ),
        IrLine::Label(Label::Then(st0.then_idx)),
    ]
}

/// Takes fresh label indices, lowers the condition, and emits the branch and
/// the `then` label; the `then` branch starts with `func_returned` false.
#[verifier::rlimit(100)]
fn if_head(buf: &mut Vec<u8>, params: &mut GenerateIRParams, e: &Exp, with_else: bool) -> (r: Result<
    (i32, i32, i32),
    CompileError,
>)
    ensures
        match bump_labels(old(params)@) {
            Err(err) => r == Err::<(i32, i32, i32), CompileError>(err),
            Ok(st0) => match lower_exp(e.sexp(), st0) {
                Err(err) => r == Err::<(i32, i32, i32), CompileError>(err),
                Ok(oc) => r is Ok && r->Ok_0.0 as int == st0.then_idx && r->Ok_0.1 as int == st0.else_idx
                    && r->Ok_0.2 as int == st0.end_idx && final(params)@ == oc.st.with_returned(false)
                    && final(buf)@ == old(buf)@ + lines_text(if_head_lines(st0, oc, with_else)),
            },
        },
{
    if params.then_idx == i32::MAX || params.else_idx == i32::MAX || params.end_idx == i32::MAX {
        return Err(CompileError::CounterOverflow);
    }
    params.then_idx = params.then_idx + 1;
    params.else_idx = params.else_idx + 1;
    params.end_idx = params.end_idx + 1;
    let t = params.then_idx;
    let el = params.else_idx;
    let en = params.end_idx;
    let ghost st0 = params@;
    let ghost b0 = old(buf)@;
    let c = match e.generate_koopa_ir(buf, params) {
        Ok(x) => x,
        Err(err) => return Err(err),
    };
    let ghost oc = lower_exp(e.sexp(), st0)->Ok_0;
    let ghost b1 = buf@;
    if with_else {
        emit_br(buf, c, LabelKind::Then, t, LabelKind::Else, el);
    } else {
        emit_br(buf, c, LabelKind::Then, t, LabelKind::End, en);
    }
    let ghost b2 = buf@;
    params.func_returned = false;
    emit_label_line(buf, LabelKind::Then, t);
    proof {
        let br = IrLine::Br(
            oc.res,
            Label::Then(st0.then_idx),
            if with_else { Label::Else(st0.else_idx) } else { Label::End(st0.end_idx) },
        );
        lemma_extend_one(b0, oc.lines, br, b1, b2);
        lemma_extend_one(b0, oc.lines.push(br), IrLine::Label(Label::Then(st0.then_idx)), b2, buf@);
        reveal(if_head_lines);
        assert(oc.lines.push(br).push(IrLine::Label(Label::Then(st0.then_idx))) =~= if_head_lines(
            st0,
            oc,
            with_else,
        ));
    }
    Ok((t, el, en))
}

/// Ends a branch: a jump to the end label unless the branch returned.
fn close_branch(buf: &mut Vec<u8>, params: &GenerateIRParams, en: i32)
    ensures
        final(buf)@ == old(buf)@ + lines_text(jump_unless(params@.returned, en as int)),
{
    if !params.func_returned {
        emit_jump(buf, LabelKind::End, en);
        proof {
            lemma_lines_text_one(IrLine::Jump(Label::End(en as int)));
        }
    } else {
        proof { lemma_lines_text_empty(); }
        assert(buf@ =~= old(buf)@ + lines_text(Seq::<IrLine>::empty()));
    }
}

impl NonIfStmt {
    pub fn generate_koopa_ir(&self, buf: &mut Vec<u8>, params: &mut GenerateIRParams) -> (r: Result<
        (),
        CompileError,
    >)
        ensures
            stmt_lowered(lower_non_if(*self, old(params)@), final(params)@, old(buf)@, final(buf)@, r),
            self matches NonIfStmt::Assgn(lv, _) ==> (!(scopes_query(old(params)@.scopes, lv.ident@) matches Some(
                SymVal::VarName(_),
            )) ==> final(buf)@ == old(buf)@ && final(params)@ == old(params)@),
        decreases self,
    {
        match self {
            NonIfStmt::Return(e) => {
                let ghost b0 = buf@;
                let v = match e.generate_koopa_ir(buf, params) {
                    Ok(x) => x,
                    Err(err) => return Err(err),
                };
                let ghost o = lower_exp(e.sexp(), old(params)@)->Ok_0;
                let ghost b1 = buf@;
                emit_ret(buf, v);
                params.func_returned = true;
                proof {
                    lemma_extend_one(b0, o.lines, IrLine::Ret(v), b1, buf@);
                }
                Ok(())
            },
            NonIfStmt::Assgn(lv, e) => {
                match params.sym_tab.query(lv.ident.clone()) {
                    None => Err(CompileError::UnboundName),
                    Some(SymVal::ConstVal(_)) => Err(CompileError::AssignToConst),
                    Some(SymVal::VarName(k)) => {
                        let ghost b0 = buf@;
                        let v = match e.generate_koopa_ir(buf, params) {
                            Ok(x) => x,
                            Err(err) => return Err(err),
                        };
                        let ghost o = lower_exp(e.sexp(), old(params)@)->Ok_0;
                        let ghost b1 = buf@;
                        emit_store(buf, v, &lv.ident, k);
                        proof {
                            lemma_extend_one(b0, o.lines, IrLine::Store(v, lv.ident@, k as int), b1, buf@);
                        }
                        Ok(())
                    },
                }
            },
            NonIfStmt::Exp(None) => {
                proof { lemma_lines_text_empty(); }
                assert(buf@ =~= old(buf)@ + lines_text(Seq::<IrLine>::empty()));
                Ok(())
            },
            NonIfStmt::Exp(Some(e)) => {
                match e.generate_koopa_ir(buf, params) {
                    Ok(_) => Ok(()),
                    Err(err) => Err(err),
                }
            },
            NonIfStmt::Block(b) => {
                proof {
                    lemma_block_result(*b, old(params)@);
                }
                b.generate_koopa_ir(buf, params)
            },
        }
    }
}

impl ClosedStmt {
    pub fn generate_koopa_ir(&self, buf: &mut Vec<u8>, params: &mut GenerateIRParams) -> (r: Result<
        (),
        CompileError,
    >)
        ensures
            stmt_lowered(lower_closed(*self, old(params)@), final(params)@, old(buf)@, final(buf)@, r),
        decreases self,
    {
        match self {
            ClosedStmt::NonIfStmt(n) => n.generate_koopa_ir(buf, params),
            ClosedStmt::IfStmt(e, s1, s2) => {
                let saved = params.func_returned;
                let ghost st = params@;
                let ghost b0 = buf@;
                let (t, el, en) = match if_head(buf, params, e, true) {
                    Ok(x) => x,
                    Err(err) => return Err(err),
                };
                let ghost st0 = bump_labels(st)->Ok_0;
                let ghost oc = lower_exp(e.sexp(), st0)->Ok_0;
                let ghost head = if_head_lines(st0, oc, true);
                let ghost b1 = buf@;
                let ghost sa = params@;
                match s1.generate_koopa_ir(buf, params) {
                    Ok(()) => {},
                    Err(err) => return Err(err),
                }
                let ghost o1 = lower_closed(**s1, sa)->Ok_0;
                let ghost b2 = buf@;
                close_branch(buf, params, en);
                let ghost b3 = buf@;
                params.func_returned = false;
                emit_label_line(buf, LabelKind::Else, el);
                let ghost b4 = buf@;
                let ghost sb = params@;
                match s2.generate_koopa_ir(buf, params) {
                    Ok(()) => {},
                    Err(err) => return Err(err),
                }
                let ghost o2 = lower_closed(**s2, sb)->Ok_0;
                let ghost b5 = buf@;
                close_branch(buf, params, en);
                let ghost b6 = buf@;
                emit_label_line(buf, LabelKind::End, en);
                params.func_returned = saved;
                proof {
                    lemma_if_else_text(st0, oc, o1, o2, b0, b1, b2, b3, b4, b5, b6, buf@);
                }
                Ok(())
            },
        }
    }
}

impl OpenStmt {
    pub fn generate_koopa_ir(&self, buf: &mut Vec<u8>, params: &mut GenerateIRParams) -> (r: Result<
        (),
        CompileError,
    >)
        ensures
            stmt_lowered(lower_open(*self, old(params)@), final(params)@, old(buf)@, final(buf)@, r),
        decreases self,
    {
        match self {
            OpenStmt::IfStmtNoElse(e, s1) => {
                let saved = params.func_returned;
                let ghost st = params@;
                let ghost b0 = buf@;
                let (t, el, en) = match if_head(buf, params, e, false) {
                    Ok(x) => x,
                    Err(err) => return Err(err),
                };
                let ghost st0 = bump_labels(st)->Ok_0;
                let ghost oc = lower_exp(e.sexp(), st0)->Ok_0;
                let ghost head = if_head_lines(st0, oc, false);
                let ghost b1 = buf@;
                let ghost sa = params@;
                match s1.generate_koopa_ir(buf, params) {
                    Ok(()) => {},
                    Err(err) => return Err(err),
                }
                let ghost o1 = lower_stmt(**s1, sa)->Ok_0;
                let ghost b2 = buf@;
                close_branch(buf, params, en);
                let ghost b3 = buf@;
                params.func_returned = saved;
                emit_label_line(buf, LabelKind::End, en);
                proof {
                    lemma_if_text(st0, oc, o1, b0, b1, b2, b3, buf@);
                }
                Ok(())
            },
            OpenStmt::IfStmtMitElse(e, s1, s2) => {
                let saved = params.func_returned;
                let ghost st = params@;
                let ghost b0 = buf@;
                let (t, el, en) = match if_head(buf, params, e, true) {
                    Ok(x) => x,
                    Err(err) => return Err(err),
                };
                let ghost st0 = bump_labels(st)->Ok_0;
                let ghost oc = lower_exp(e.sexp(), st0)->Ok_0;
                let ghost head = if_head_lines(st0, oc, true);
                let ghost b1 = buf@;
                let ghost sa = params@;
                match s1.generate_koopa_ir(buf, params) {
                    Ok(()) => {},
                    Err(err) => return Err(err),
                }
                let ghost o1 = lower_closed(*s1, sa)->Ok_0;
                let ghost b2 = buf@;
                close_branch(buf, params, en);
                let ghost b3 = buf@;
                params.func_returned = false;
                emit_label_line(buf, LabelKind::Else, el);
                let ghost b4 = buf@;
                let ghost sb = params@;
                match s2.generate_koopa_ir(buf, params) {
                    Ok(()) => {},
                    Err(err) => return Err(err),
                }
                let ghost o2 = lower_open(**s2, sb)->Ok_0;
                let ghost b5 = buf@;
                close_branch(buf, params, en);
                let ghost b6 = buf@;
                emit_label_line(buf, LabelKind::End, en);
                params.func_returned = saved;
                proof {
                    lemma_if_else_text(st0, oc, o1, o2, b0, b1, b2, b3, b4, b5, b6, buf@);
                }
                Ok(())
            },
        }
    }
}

impl Stmt {
    pub fn generate_koopa_ir(&self, buf: &mut Vec<u8>, params: &mut GenerateIRParams) -> (r: Result<
        (),
        CompileError,
    >)
        ensures
            stmt_lowered(lower_stmt(*self, old(params)@), final(params)@, old(buf)@, final(buf)@, r),
        decreases self,
    {
        match self {
            Stmt::OpenStmt(o) => o.generate_koopa_ir(buf, params),
            Stmt::ClosedStmt(c) => c.generate_koopa_ir(buf, params),
        }
    }
}

impl BlockItem {
    pub fn generate_koopa_ir(&self, buf: &mut Vec<u8>, params: &mut GenerateIRParams) -> (r: Result<
        (),
        CompileError,
    >)
        ensures
            stmt_lowered(item_result(*self, old(params)@), final(params)@, old(buf)@, final(buf)@, r),
        decreases self,
    {
        proof {
            lemma_item_result(*self, old(params)@);
        }
        match self {
            BlockItem::Stmt(s) => s.generate_koopa_ir(buf, params),
            BlockItem::Decl(d) => d.generate_koopa_ir(buf, params),
        }
    }
}

impl Block {
    /// Lowers the items in a new frame, stopping after an item that returned.
        pub fn generate_koopa_ir(&self, buf: &mut Vec<u8>, params: &mut GenerateIRParams) -> (r: Result<
        (),
        CompileError,
    >)
        ensures
            stmt_lowered(block_result(*self, old(params)@), final(params)@, old(buf)@, final(buf)@, r),
        decreases self,
    {
        proof {
            lemma_block_result(*self, old(params)@);
        }
        params.sym_tab.insert_table();
        let ghost st1 = params@;
        let ghost b0 = buf@;
        let ghost items = self.block_items@;
        let ghost mut acc: Seq<IrLine> = Seq::empty();
        let mut i: usize = 0;
        let mut done = false;
        proof {
            lemma_lines_text_empty();
            assert(b0 =~= b0 + lines_text(acc));
            lemma_prepend_empty(items_result(items, 0, st1));
        }
        while i < self.block_items.len() && !done
            invariant
                i <= items.len(),
                items == self.block_items@,
                st1 == old(params)@.with_scopes(old(params)@.scopes.push(Seq::empty())),
                buf@ == b0 + lines_text(acc),
                done ==> items_result(items, 0, st1) == Ok::<StmtOut, CompileError>(
                    StmtOut { lines: acc, st: params@ },
                ),
                !done ==> items_result(items, 0, st1) == prepend(acc, items_result(items, i as int, params@)),
            decreases items.len() - i,
        {
            let ghost st = params@;
            let ghost b1 = buf@;
            proof {
                lemma_items_step(items, i as int, st, acc);
            }
            match self.block_items[i].generate_koopa_ir(buf, params) {
                Ok(()) => {},
                Err(err) => {
                    proof {
                        lemma_block_result(*self, old(params)@);
                    }
                    return Err(err);
                },
            }
            proof {
                let o = item_result(items[i as int], st)->Ok_0;
                lemma_extend(b0, acc, o.lines, b1, buf@);
                acc = acc + o.lines;
            }
            if params.func_returned {
                done = true;
            }
            i = i + 1;
        }
        proof {
            if !done {
                lemma_items_end(items, i as int, params@, acc);
            }
        }
        params.sym_tab.delete_table();
        Ok(())
    }
}

impl FuncType {
    pub fn generate_koopa_ir(&self, buf: &mut Vec<u8>)
        ensures
            final(buf)@ == old(buf)@ + crate::ir_text::func_type_text(*self),
    {
        match self {
            FuncType::Void => emit_str(buf, "void {\n"),
            FuncType::Int => emit_str(buf, "i32 {\n"),
        }
    }
}

fn is_main(s: &String) -> (r: bool)
    ensures
        r == (s@ == main_name()),
{
    let t = s.as_str();
    if t.unicode_len() != 4 {
        return false;
    }
    let r = t.get_char(0) == 'm' && t.get_char(1) == 'a' && t.get_char(2) == 'i' && t.get_char(3) == 'n';
    proof {
        if r {
            assert(s@ =~= main_name());
        }
    }
    r
}

impl FuncDef {
    /// Lowers the function; only `main` is supported.
    pub fn generate_koopa_ir(&self, buf: &mut Vec<u8>, params: &mut GenerateIRParams) -> (r: Result<
        (),
        CompileError,
    >)
        ensures
            stmt_lowered(lower_func(*self, old(params)@), final(params)@, old(buf)@, final(buf)@, r),
            self.ident@ != main_name() ==> final(buf)@ == old(buf)@ && final(params)@ == old(params)@,
    {
        if !is_main(&self.ident) {
            return Err(CompileError::UnsupportedFunction);
        }
        let ghost b0 = buf@;
        emit_fun_header(buf, &self.ident, self.func_type);
        let ghost b1 = buf@;
        emit_label_line(buf, LabelKind::Entry, 0);
        let ghost b2 = buf@;
        match self.block.generate_koopa_ir(buf, params) {
            Ok(()) => {},
            Err(err) => return Err(err),
        }
        let ghost o = block_result(self.block, old(params)@)->Ok_0;
        assert(params@ == o.st);
        let ghost b3 = buf@;
        if !params.func_returned {
            emit_ret_undef(buf);
        }
        let ghost b4 = buf@;
        emit_close(buf);
        proof {
            lemma_func_text(self.ident@, self.func_type, o, b0, b1, b2, b3, b4, buf@);
        }
        Ok(())
    }
}

impl GenerateIRParams {
    /// The state in which a translation unit starts.
    pub fn new() -> (r: GenerateIRParams)
        ensures
            r@ == initial_state(),
    {
        let r = GenerateIRParams {
            var_count: 0,
            func_returned: false,
            sym_tab: SymTable::new(),
            cur_var_idx: Vec::new(),
            else_idx: 0,
            then_idx: 0,
            end_idx: 0,
            diagnostics: Vec::new(),
        };
        assert(shadow_model(r.cur_var_idx) =~= Seq::empty());
        assert(r.diagnostics@ =~= Seq::empty());
        r
    }
}

impl CompUnit {
    /// Appends the IR text of the translation unit to `buf`.  On success the
    /// result holds the recoverable errors met while folding, in order.
    pub fn generate_koopa_ir(&self, buf: &mut Vec<u8>) -> (r: Result<Vec<CompileError>, CompileError>)
        ensures
            ir_emitted(*self, old(buf)@, final(buf)@, r),
    {
        let mut params = GenerateIRParams::new();
        match self.func_def.generate_koopa_ir(buf, &mut params) {
            Ok(()) => Ok(params.diagnostics),
            Err(err) => Err(err),
        }
    }
}

} // verus!
