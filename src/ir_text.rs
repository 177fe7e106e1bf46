//! The textual IR: an abstract line model, the bytes each line prints as,
//! and the executable writers that append those bytes to a buffer.
use vstd::prelude::*;
use vstd::string::*;
use vstd::utf8::encode_utf8;
use crate::ast::FuncType;
use crate::generate_ir::ExpResult;

verus! {

/// The binary operators of the IR.
#[derive(Debug, Clone, Copy, PartialEq, Eq, Structural)]
pub enum BinaryOp {
    Add,
    Sub,
    Mul,
    Div,
    Mod,
    Lt,
    Le,
    Gt,
    Ge,
    Eq,
    NotEq,
    And,
    Or,
}

/// A basic-block label of a lowered function.
pub enum Label {
    Entry,
    Then(int),
    Else(int),
    End(int),
}

/// One line of IR text.  Temporaries and shadow indices are plain numbers;
/// an operand is an `ExpResult` (`RegCount(n)` names the temporary `%{n-1}`).
pub enum IrLine {
    FunHeader(Seq<char>, FuncType),
    Label(Label),
    Alloc(Seq<char>, int),
    Store(ExpResult, Seq<char>, int),
    Load(int, Seq<char>, int),
    Binary(int, BinaryOp, ExpResult, ExpResult),
    Br(ExpResult, Label, Label),
    Jump(Label),
    Ret(ExpResult),
    RetUndef,
    Close,
}

pub open spec fn txt(s: &str) -> Seq<u8> {
    s.spec_bytes()
}

pub open spec fn ident_text(s: Seq<char>) -> Seq<u8> {
    encode_utf8(s)
}

/// Decimal digits of a natural number, most significant first.
pub open spec fn nat_text(n: nat) -> Seq<u8>
    decreases n,
{
    if n < 10 {
        seq![(48 + n) as u8]
    } else {
        nat_text(n / 10).push((48 + n % 10) as u8)
    }
}

/// Decimal text of an integer, with a leading `-` when negative.
pub open spec fn int_text(v: int) -> Seq<u8> {
    if v < 0 {
        seq![45u8] + nat_text((-v) as nat)
    } else {
        nat_text(v as nat)
    }
}

pub open spec fn operand_text(r: ExpResult) -> Seq<u8> {
    match r {
        ExpResult::RegCount(n) => seq![37u8] + int_text(n - 1),
        ExpResult::IntResult(v) => int_text(v as int),
    }
}

pub open spec fn op_text(op: BinaryOp) -> Seq<u8> {
    match op {
        BinaryOp::Add => txt("add"),
        BinaryOp::Sub => txt("sub"),
        BinaryOp::Mul => txt("mul"),
        BinaryOp::Div => txt("div"),
        BinaryOp::Mod => txt("mod"),
        BinaryOp::Lt => txt("lt"),
        BinaryOp::Le => txt("le"),
        BinaryOp::Gt => txt("gt"),
        BinaryOp::Ge => txt("ge"),
        BinaryOp::Eq => txt("eq"),
        BinaryOp::NotEq => txt("ne"),
        BinaryOp::And => txt("and"),
        BinaryOp::Or => txt("or"),
    }
}

pub open spec fn label_text(l: Label) -> Seq<u8> {
    match l {
        Label::Entry => txt("%entry"),
        Label::Then(n) => txt("%then") + int_text(n),
        Label::Else(n) => txt("%else") + int_text(n),
        Label::End(n) => txt("%end") + int_text(n),
    }
}

pub open spec fn func_type_text(t: FuncType) -> Seq<u8> {
    match t {
        FuncType::Int => txt("i32 {\n"),
        FuncType::Void => txt("void {\n"),
    }
}

pub open spec fn var_text(name: Seq<char>, k: int) -> Seq<u8> {
    ident_text(name) + txt("_") + int_text(k)
}

/// The bytes that one IR line prints as, newline included.
#[verifier::opaque]
pub open spec fn line_text(l: IrLine) -> Seq<u8> {
    match l {
        IrLine::FunHeader(name, t) => txt("fun @") + ident_text(name) + txt("(): ") + func_type_text(t),
        IrLine::Label(lb) => label_text(lb) + txt(":\n"),
        IrLine::Alloc(name, k) => txt("  @") + var_text(name, k) + txt(" = alloc i32\n"),
        IrLine::Store(v, name, k) => txt("  store ") + operand_text(v) + txt(", @") + var_text(name, k)
            + txt("\n"),
        IrLine::Load(d, name, k) => txt("  %") + int_text(d) + txt(" = load @") + var_text(name, k)
            + txt("\n"),
        IrLine::Binary(d, op, a, b) => txt("  %") + int_text(d) + txt(" = ") + op_text(op) + txt(" ")
            + operand_text(a) + txt(", ") + operand_text(b) + txt("\n"),
        IrLine::Br(c, t, f) => txt("  br ") + operand_text(c) + txt(", ") + label_text(t) + txt(", ")
            + label_text(f) + txt("\n"),
        IrLine::Jump(t) => txt("  jump ") + label_text(t) + txt("\n"),
        IrLine::Ret(v) => txt("  ret ") + operand_text(v) + txt("\n"),
        IrLine::RetUndef => txt("  ret undef\n"),
        IrLine::Close => txt("}\n"),
    }
}

/// The text of a sequence of lines, in order.
#[verifier::opaque]
pub open spec fn lines_text(ls: Seq<IrLine>) -> Seq<u8>
    decreases ls.len(),
{
    if ls.len() == 0 {
        Seq::empty()
    } else {
        lines_text(ls.drop_last()) + line_text(ls.last())
    }
}

pub proof fn lemma_lines_text_append(a: Seq<IrLine>, b: Seq<IrLine>)
    ensures
        lines_text(a + b) == lines_text(a) + lines_text(b),
    decreases b.len(),
{
    reveal(lines_text);
    if b.len() == 0 {
        assert(a + b =~= a);
        assert(lines_text(b) =~= Seq::<u8>::empty());
        assert(lines_text(a) + lines_text(b) =~= lines_text(a));
    } else {
        lemma_lines_text_append(a, b.drop_last());
        assert((a + b).drop_last() =~= a + b.drop_last());
        assert((a + b).last() == b.last());
        assert(lines_text(a + b) =~= lines_text(a) + lines_text(b));
    }
}

pub proof fn lemma_lines_text_empty()
    ensures
        lines_text(Seq::<IrLine>::empty()) == Seq::<u8>::empty(),
{
    reveal(lines_text);
}

pub proof fn lemma_lines_text_one(l: IrLine)
    ensures
        lines_text(seq![l]) == line_text(l),
{
    reveal(lines_text);
    assert(seq![l].drop_last() =~= Seq::<IrLine>::empty());
    assert(lines_text(Seq::<IrLine>::empty()) == Seq::<u8>::empty());
    assert(seq![l].last() == l);
    assert(Seq::<u8>::empty() + line_text(l) =~= line_text(l));
}

/// Appends the bytes of `s`.
pub fn emit_str(buf: &mut Vec<u8>, s: &str)
    ensures
        final(buf)@ == old(buf)@ + txt(s),
{
    let bytes = s.as_bytes();
    let ghost start = buf@;
    let mut i: usize = 0;
    while i < bytes.len()
        invariant
            i <= bytes@.len(),
            bytes@ == txt(s),
            buf@ == start + bytes@.subrange(0, i as int),
        decreases bytes@.len() - i,
    {
        buf.push(bytes[i]);
        i = i + 1;
        assert(bytes@.subrange(0, i as int) =~= bytes@.subrange(0, i - 1).push(bytes@[i - 1]));
    }
    assert(bytes@.subrange(0, i as int) =~= bytes@);
}

/// Appends the bytes of an identifier.
pub fn emit_ident(buf: &mut Vec<u8>, s: &String)
    ensures
        final(buf)@ == old(buf)@ + ident_text(s@),
{
    emit_str(buf, s.as_str());
}

pub fn emit_nat(buf: &mut Vec<u8>, n: u64)
    ensures
        final(buf)@ == old(buf)@ + nat_text(n as nat),
    decreases n,
{
    if n >= 10 {
        emit_nat(buf, n / 10);
    }
    buf.push((48 + n % 10) as u8);
    proof {
        if n >= 10 {
            assert(final(buf)@ =~= old(buf)@ + nat_text(n as nat));
        } else {
            assert(final(buf)@ =~= old(buf)@ + nat_text(n as nat));
        }
    }
}

pub fn emit_int(buf: &mut Vec<u8>, v: i64)
    requires
        v > i64::MIN,
    ensures
        final(buf)@ == old(buf)@ + int_text(v as int),
{
    if v < 0 {
        buf.push(45u8);
        emit_nat(buf, (-v) as u64);
        assert(final(buf)@ =~= old(buf)@ + int_text(v as int));
    } else {
        emit_nat(buf, v as u64);
    }
}


pub fn emit_operand(buf: &mut Vec<u8>, r: ExpResult)
    ensures
        final(buf)@ == old(buf)@ + operand_text(r),
{
    match r {
        ExpResult::RegCount(n) => {
            buf.push(37u8);
            emit_int(buf, n as i64 - 1);
            assert(final(buf)@ =~= old(buf)@ + operand_text(r));
        },
        ExpResult::IntResult(v) => {
            emit_int(buf, v as i64);
        },
    }
}

pub fn emit_op(buf: &mut Vec<u8>, op: BinaryOp)
    ensures
        final(buf)@ == old(buf)@ + op_text(op),
{
    match op {
        BinaryOp::Add => emit_str(buf, "add"),
        BinaryOp::Sub => emit_str(buf, "sub"),
        BinaryOp::Mul => emit_str(buf, "mul"),
        BinaryOp::Div => emit_str(buf, "div"),
        BinaryOp::Mod => emit_str(buf, "mod"),
        BinaryOp::Lt => emit_str(buf, "lt"),
        BinaryOp::Le => emit_str(buf, "le"),
        BinaryOp::Gt => emit_str(buf, "gt"),
        BinaryOp::Ge => emit_str(buf, "ge"),
        BinaryOp::Eq => emit_str(buf, "eq"),
        BinaryOp::NotEq => emit_str(buf, "ne"),
        BinaryOp::And => emit_str(buf, "and"),
        BinaryOp::Or => emit_str(buf, "or"),
    }
}

/// The kinds of block label that lowering creates, with their number.
#[derive(Debug, Clone, Copy, PartialEq, Eq, Structural)]
pub enum LabelKind {
    Entry,
    Then,
    Else,
    End,
}

pub open spec fn label_of(kind: LabelKind, n: i32) -> Label {
    match kind {
        LabelKind::Entry => Label::Entry,
        LabelKind::Then => Label::Then(n as int),
        LabelKind::Else => Label::Else(n as int),
        LabelKind::End => Label::End(n as int),
    }
}

pub fn emit_label(buf: &mut Vec<u8>, kind: LabelKind, n: i32)
    ensures
        final(buf)@ == old(buf)@ + label_text(label_of(kind, n)),
{
    match kind {
        LabelKind::Entry => emit_str(buf, "%entry"),
        LabelKind::Then => {
            emit_str(buf, "%then");
            emit_int(buf, n as i64);
            assert(final(buf)@ =~= old(buf)@ + label_text(label_of(kind, n)));
        },
        LabelKind::Else => {
            emit_str(buf, "%else");
            emit_int(buf, n as i64);
            assert(final(buf)@ =~= old(buf)@ + label_text(label_of(kind, n)));
        },
        LabelKind::End => {
            emit_str(buf, "%end");
            emit_int(buf, n as i64);
            assert(final(buf)@ =~= old(buf)@ + label_text(label_of(kind, n)));
        },
    }
}

pub fn emit_var(buf: &mut Vec<u8>, name: &String, k: i32)
    ensures
        final(buf)@ == old(buf)@ + var_text(name@, k as int),
{
    emit_ident(buf, name);
    emit_str(buf, "_");
    emit_int(buf, k as i64);
    assert(final(buf)@ =~= old(buf)@ + var_text(name@, k as int));
}

pub fn emit_label_line(buf: &mut Vec<u8>, kind: LabelKind, n: i32)
    ensures
        final(buf)@ == old(buf)@ + line_text(IrLine::Label(label_of(kind, n))),
{
    reveal(line_text);
    emit_label(buf, kind, n);
    emit_str(buf, ":\n");
    assert(final(buf)@ =~= old(buf)@ + line_text(IrLine::Label(label_of(kind, n))));
}

pub fn emit_alloc(buf: &mut Vec<u8>, name: &String, k: i32)
    ensures
        final(buf)@ == old(buf)@ + line_text(IrLine::Alloc(name@, k as int)),
{
    reveal(line_text);
    emit_str(buf, "  @");
    emit_var(buf, name, k);
    emit_str(buf, " = alloc i32\n");
    assert(final(buf)@ =~= old(buf)@ + line_text(IrLine::Alloc(name@, k as int)));
}

pub fn emit_store(buf: &mut Vec<u8>, v: ExpResult, name: &String, k: i32)
    ensures
        final(buf)@ == old(buf)@ + line_text(IrLine::Store(v, name@, k as int)),
{
    reveal(line_text);
    emit_str(buf, "  store ");
    emit_operand(buf, v);
    emit_str(buf, ", @");
    emit_var(buf, name, k);
    emit_str(buf, "\n");
    assert(final(buf)@ =~= old(buf)@ + line_text(IrLine::Store(v, name@, k as int)));
}

pub fn emit_load(buf: &mut Vec<u8>, d: i32, name: &String, k: i32)
    ensures
        final(buf)@ == old(buf)@ + line_text(IrLine::Load(d as int, name@, k as int)),
{
    reveal(line_text);
    emit_str(buf, "  %");
    emit_int(buf, d as i64);
    emit_str(buf, " = load @");
    emit_var(buf, name, k);
    emit_str(buf, "\n");
    assert(final(buf)@ =~= old(buf)@ + line_text(IrLine::Load(d as int, name@, k as int)));
}

pub fn emit_binary(buf: &mut Vec<u8>, d: i32, op: BinaryOp, a: ExpResult, b: ExpResult)
    ensures
        final(buf)@ == old(buf)@ + line_text(IrLine::Binary(d as int, op, a, b)),
{
    reveal(line_text);
    emit_str(buf, "  %");
    emit_int(buf, d as i64);
    emit_str(buf, " = ");
    emit_op(buf, op);
    emit_str(buf, " ");
    emit_operand(buf, a);
    emit_str(buf, ", ");
    emit_operand(buf, b);
    emit_str(buf, "\n");
    assert(final(buf)@ =~= old(buf)@ + line_text(IrLine::Binary(d as int, op, a, b)));
}

pub fn emit_br(buf: &mut Vec<u8>, c: ExpResult, tk: LabelKind, tn: i32, fk: LabelKind, fnum: i32)
    ensures
        final(buf)@ == old(buf)@ + line_text(IrLine::Br(c, label_of(tk, tn), label_of(fk, fnum))),
{
    reveal(line_text);
    emit_str(buf, "  br ");
    emit_operand(buf, c);
    emit_str(buf, ", ");
    emit_label(buf, tk, tn);
    emit_str(buf, ", ");
    emit_label(buf, fk, fnum);
    emit_str(buf, "\n");
    assert(final(buf)@ =~= old(buf)@ + line_text(
        IrLine::Br(c, label_of(tk, tn), label_of(fk, fnum)),
    ));
}

pub fn emit_jump(buf: &mut Vec<u8>, kind: LabelKind, n: i32)
    ensures
        final(buf)@ == old(buf)@ + line_text(IrLine::Jump(label_of(kind, n))),
{
    reveal(line_text);
    emit_str(buf, "  jump ");
    emit_label(buf, kind, n);
    emit_str(buf, "\n");
    assert(final(buf)@ =~= old(buf)@ + line_text(IrLine::Jump(label_of(kind, n))));
}

pub fn emit_ret(buf: &mut Vec<u8>, v: ExpResult)
    ensures
        final(buf)@ == old(buf)@ + line_text(IrLine::Ret(v)),
{
    reveal(line_text);
    emit_str(buf, "  ret ");
    emit_operand(buf, v);
    emit_str(buf, "\n");
    assert(final(buf)@ =~= old(buf)@ + line_text(IrLine::Ret(v)));
}

pub fn emit_ret_undef(buf: &mut Vec<u8>)
    ensures
        final(buf)@ == old(buf)@ + line_text(IrLine::RetUndef),
{
    reveal(line_text);
    emit_str(buf, "  ret undef\n");
}

pub fn emit_fun_header(buf: &mut Vec<u8>, name: &String, t: FuncType)
    ensures
        final(buf)@ == old(buf)@ + line_text(IrLine::FunHeader(name@, t)),
{
    reveal(line_text);
    emit_str(buf, "fun @");
    emit_ident(buf, name);
    emit_str(buf, "(): ");
    match t {
        FuncType::Void => emit_str(buf, "void {\n"),
        FuncType::Int => emit_str(buf, "i32 {\n"),
    }
    assert(final(buf)@ =~= old(buf)@ + line_text(IrLine::FunHeader(name@, t)));
}

pub fn emit_close(buf: &mut Vec<u8>)
    ensures
        final(buf)@ == old(buf)@ + line_text(IrLine::Close),
{
    reveal(line_text);
    emit_str(buf, "}\n");
}

} // verus!
