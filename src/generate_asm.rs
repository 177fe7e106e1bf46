//! Assembly generation from an IR function graph: a stack planner that gives
//! every value-producing instruction a 4-byte slot, and an emitter that
//! translates each instruction with `t0`/`t1` as scratch (`t2` for the
//! address of a slot whose offset does not fit an immediate).
use vstd::prelude::*;
use crate::ir_text::{BinaryOp, emit_int, emit_str, ident_text, int_text, txt};

verus! {

/// An operand of an instruction: an integer constant, the value of the
/// instruction at a position of the function's body, or `undef`.
#[derive(Debug, Clone, Copy, PartialEq, Eq, Structural)]
pub enum Operand {
    Integer(i32),
    Value(usize),
    Undef,
}

/// The kind of an instruction.  Branch and jump targets are positions of
/// block labels in the function's body.
#[derive(Debug, Clone, Copy, PartialEq, Eq, Structural)]
pub enum ValueKind {
    Integer(i32),
    Alloc,
    Store(Operand, Operand),
    Load(Operand),
    Binary(BinaryOp, Operand, Operand),
    Branch(Operand, usize, usize),
    Jump(usize),
    Return(Option<Operand>),
}

/// An entry of a function body in layout order: the label that starts a
/// basic block, or an instruction.
#[derive(Debug)]
pub enum BodyItem {
    Block(String),
    Inst(ValueKind),
}

/// A function: its name and its basic blocks with their instructions, in layout order.
#[derive(Debug)]
pub struct FunctionData {
    pub name: String,
    pub body: Vec<BodyItem>,
}

#[derive(Debug)]
pub struct Program {
    pub funcs: Vec<FunctionData>,
}

/// Scratch state of the emitter for the current function.
pub struct GenerateAsmParams {
    /// Bytes of the frame, a multiple of 16.
    pub stack_bytes: i32,
    /// The offset from `sp` of each body position's slot (meaningful where the
    /// instruction produces a value).
    pub stack_state: Vec<i32>,
}

/// Whether an instruction produces a value, and so needs a stack slot.
pub open spec fn has_slot(k: ValueKind) -> bool {
    k is Alloc || k is Load || k is Binary
}

pub open spec fn item_has_slot(it: BodyItem) -> bool {
    match it {
        BodyItem::Inst(k) => has_slot(k),
        BodyItem::Block(_) => false,
    }
}

/// The number of slotted instructions among the first `n` entries.
pub open spec fn slots_before(body: Seq<BodyItem>, n: int) -> nat
    decreases n,
{
    if n <= 0 {
        0
    } else {
        slots_before(body, n - 1) + if item_has_slot(body[n - 1]) { 1nat } else { 0nat }
    }
}

/// The offset of the slot of entry `k`.
pub open spec fn slot_offset(body: Seq<BodyItem>, k: int) -> int {
    (4 * slots_before(body, k)) as int
}

/// The frame: 4 bytes per slotted instruction, rounded up to a multiple of 16.
pub open spec fn frame_size(body: Seq<BodyItem>) -> int {
    let raw = (4 * slots_before(body, body.len() as int)) as int;
    if raw % 16 == 0 {
        raw
    } else {
        raw + (16 - raw % 16)
    }
}

/// A body the emitter can translate: operands name slotted instructions,
/// targets name block labels, and offsets fit in 32 bits.
pub open spec fn operand_ok(body: Seq<BodyItem>, o: Operand) -> bool {
    match o {
        Operand::Value(k) => k < body.len() && item_has_slot(body[k as int]),
        _ => true,
    }
}

pub open spec fn target_ok(body: Seq<BodyItem>, t: usize) -> bool {
    t < body.len() && body[t as int] is Block
}

pub open spec fn kind_ok(body: Seq<BodyItem>, k: ValueKind) -> bool {
    match k {
        ValueKind::Store(v, d) => operand_ok(body, v) && operand_ok(body, d) && d is Value,
        ValueKind::Load(s) => operand_ok(body, s) && s is Value,
        ValueKind::Binary(_, l, r) => operand_ok(body, l) && operand_ok(body, r),
        ValueKind::Branch(c, t, f) => operand_ok(body, c) && target_ok(body, t) && target_ok(body, f),
        ValueKind::Jump(t) => target_ok(body, t),
        ValueKind::Return(Some(v)) => operand_ok(body, v),
        _ => true,
    }
}

pub open spec fn body_ok(body: Seq<BodyItem>) -> bool {
    &&& body.len() < 0x1000_0000
    &&& forall|k: int| 0 <= k < body.len() ==> (#[trigger] body[k] matches BodyItem::Inst(kind) ==> kind_ok(body, kind))
}

// ---------------------------------------------------------------------------
// Text of the assembly

pub open spec fn reg_text(r: i32) -> Seq<u8> {
    if 0 <= r <= 6 {
        txt("t") + int_text(r as int)
    } else {
        txt("a") + int_text(r - 7)
    }
}

/// A load (`lw`) or store (`sw`) of register `r` at `sp + off`; offsets of
/// 2048 and more go through `t2`, so `r` must be another register.
pub open spec fn mem_text(store: bool, r: i32, off: int) -> Seq<u8> {
    let m = if store { txt("  sw ") } else { txt("  lw ") };
    if off >= 2048 {
        txt("  li t2, ") + int_text(off) + txt("\n  add t2, sp, t2\n") + m + reg_text(r) + txt(", 0(t2)\n")
    } else {
        m + reg_text(r) + txt(", ") + int_text(off) + txt("(sp)\n")
    }
}

/// Bringing an operand into register `r`.
pub open spec fn operand_asm(body: Seq<BodyItem>, r: i32, o: Operand) -> Seq<u8> {
    match o {
        Operand::Integer(i) => txt("  li ") + reg_text(r) + txt(", ") + int_text(i as int) + txt("\n"),
        Operand::Value(k) => mem_text(false, r, slot_offset(body, k as int)),
        Operand::Undef => txt("  li ") + reg_text(r) + txt(", 0\n"),
    }
}

/// The instructions that compute `t0 op t1` into `t1`.
pub open spec fn binop_asm(op: BinaryOp) -> Seq<u8> {
    match op {
        BinaryOp::Add => txt("  add t1, t0, t1\n"),
        BinaryOp::Sub => txt("  sub t1, t0, t1\n"),
        BinaryOp::Mul => txt("  mul t1, t0, t1\n"),
        BinaryOp::Div => txt("  div t1, t0, t1\n"),
        BinaryOp::Mod => txt("  rem t1, t0, t1\n"),
        BinaryOp::Lt => txt("  slt t1, t0, t1\n"),
        BinaryOp::Gt => txt("  sgt t1, t0, t1\n"),
        BinaryOp::Le => txt("  sgt t1, t0, t1\n  seqz t1, t1\n"),
        BinaryOp::Ge => txt("  slt t1, t0, t1\n  seqz t1, t1\n"),
        BinaryOp::Eq => txt("  sub t1, t0, t1\n  seqz t1, t1\n"),
        BinaryOp::NotEq => txt("  sub t1, t0, t1\n  snez t1, t1\n"),
        BinaryOp::And => txt("  snez t0, t0\n  snez t1, t1\n  and t1, t0, t1\n"),
        BinaryOp::Or => txt("  snez t0, t0\n  snez t1, t1\n  or t1, t0, t1\n"),
    }
}

/// A name without its leading `@` or `%`.
pub open spec fn strip_sigil(b: Seq<u8>) -> Seq<u8> {
    if b.len() > 0 && (b[0] == 64u8 || b[0] == 37u8) {
        b.subrange(1, b.len() as int)
    } else {
        b
    }
}

pub open spec fn name_text(s: String) -> Seq<u8> {
    strip_sigil(ident_text(s@))
}

pub open spec fn label_name(body: Seq<BodyItem>, t: usize) -> Seq<u8> {
    match body[t as int] {
        BodyItem::Block(n) => name_text(n),
        _ => Seq::empty(),
    }
}

/// Moves `sp` down by the frame.
pub open spec fn prologue_text(frame: int) -> Seq<u8> {
    if frame == 0 {
        Seq::empty()
    } else if frame <= 2048 {
        txt("  addi sp, sp, -") + int_text(frame) + txt("\n")
    } else {
        txt("  li t0, ") + int_text(frame) + txt("\n  sub sp, sp, t0\n")
    }
}

/// Moves `sp` back up by the frame.
pub open spec fn epilogue_text(frame: int) -> Seq<u8> {
    if frame == 0 {
        Seq::empty()
    } else if frame < 2048 {
        txt("  addi sp, sp, ") + int_text(frame) + txt("\n")
    } else {
        txt("  li t0, ") + int_text(frame) + txt("\n  add sp, sp, t0\n")
    }
}

/// The assembly of the body entry at position `k`.
#[verifier::opaque]
pub open spec fn item_asm(body: Seq<BodyItem>, k: int) -> Seq<u8> {
    let frame = frame_size(body);
    match body[k] {
        BodyItem::Block(n) => name_text(n) + txt(":\n"),
        BodyItem::Inst(kind) => match kind {
            ValueKind::Integer(_) => Seq::empty(),
            ValueKind::Alloc => Seq::empty(),
            ValueKind::Store(v, d) => operand_asm(body, 0, v) + mem_text(
                true,
                0,
                slot_offset(body, d->Value_0 as int),
            ),
            ValueKind::Load(s) => mem_text(false, 0, slot_offset(body, s->Value_0 as int)) + mem_text(
                true,
                0,
                slot_offset(body, k),
            ),
            ValueKind::Binary(op, l, r) => operand_asm(body, 0, l) + operand_asm(body, 1, r) + binop_asm(op)
                + mem_text(true, 1, slot_offset(body, k)),
            ValueKind::Branch(c, t, f) => match c {
                Operand::Integer(i) => txt("  j ") + label_name(body, if i != 0 { t } else { f }) + txt("\n"),
                _ => operand_asm(body, 0, c) + txt("  bnez t0, ") + label_name(body, t) + txt("\n  j ")
                    + label_name(body, f) + txt("\n"),
            },
            ValueKind::Jump(t) => txt("  j ") + label_name(body, t) + txt("\n"),
            ValueKind::Return(v) => (match v {
                Some(o) => operand_asm(body, 7, o),
                None => Seq::empty(),
            }) + epilogue_text(frame) + txt("  ret\n"),
        },
    }
}

/// The assembly of the first `n` body entries.
pub open spec fn items_asm(body: Seq<BodyItem>, n: int) -> Seq<u8>
    decreases n,
{
    if n <= 0 {
        Seq::empty()
    } else {
        items_asm(body, n - 1) + item_asm(body, n - 1)
    }
}

/// The assembly of a function: its symbol, label, prologue and body.
pub open spec fn function_asm(f: FunctionData) -> Seq<u8> {
    txt("  .globl ") + name_text(f.name) + txt("\n") + name_text(f.name) + txt(":\n") + prologue_text(
        frame_size(f.body@),
    ) + items_asm(f.body@, f.body@.len() as int)
}

/// What assembling a function leaves in a buffer that held `before`.
pub open spec fn asm_emitted(f: FunctionData, before: Seq<u8>, after: Seq<u8>) -> bool {
    after == before + function_asm(f)
}

pub open spec fn functions_asm(fs: Seq<FunctionData>, n: int) -> Seq<u8>
    decreases n,
{
    if n <= 0 {
        Seq::empty()
    } else {
        functions_asm(fs, n - 1) + function_asm(fs[n - 1])
    }
}

pub open spec fn program_asm(p: Program) -> Seq<u8> {
    txt("  .text\n") + functions_asm(p.funcs@, p.funcs@.len() as int)
}


// ---------------------------------------------------------------------------
// Executable

pub proof fn lemma_slots_bounded(body: Seq<BodyItem>, n: int)
    requires
        0 <= n <= body.len(),
    ensures
        slots_before(body, n) <= n,
    decreases n,
{
    if n > 0 {
        lemma_slots_bounded(body, n - 1);
    }
}

/// Appends the name of register `register_idx`: `t0`..`t6`, then `a0`, `a1`, ...
pub fn register_idx_to_name(buf: &mut Vec<u8>, register_idx: i32)
    requires
        0 <= register_idx <= 14,
    ensures
        final(buf)@ == old(buf)@ + reg_text(register_idx),
{
    if register_idx <= 6 {
        emit_str(buf, "t");
        emit_int(buf, register_idx as i64);
    } else {
        emit_str(buf, "a");
        emit_int(buf, register_idx as i64 - 7);
    }
    assert(final(buf)@ =~= old(buf)@ + reg_text(register_idx));
}

/// Appends a load (`store == false`) or store of a register at `sp + delta`.
/// The register is not `t2`, which holds the address of a far slot.
pub fn load_and_save(store: bool, target_reg: i32, delta: i32, buf: &mut Vec<u8>)
    requires
        0 <= target_reg <= 14,
        target_reg != 2,
    ensures
        final(buf)@ == old(buf)@ + mem_text(store, target_reg, delta as int),
{
    if delta >= 2048 {
        emit_str(buf, "  li t2, ");
        emit_int(buf, delta as i64);
        emit_str(buf, "\n  add t2, sp, t2\n");
        if store {
            emit_str(buf, "  sw ");
        } else {
            emit_str(buf, "  lw ");
        }
        register_idx_to_name(buf, target_reg);
        emit_str(buf, ", 0(t2)\n");
    } else {
        if store {
            emit_str(buf, "  sw ");
        } else {
            emit_str(buf, "  lw ");
        }
        register_idx_to_name(buf, target_reg);
        emit_str(buf, ", ");
        emit_int(buf, delta as i64);
        emit_str(buf, "(sp)\n");
    }
    assert(final(buf)@ =~= old(buf)@ + mem_text(store, target_reg, delta as int));
}

fn emit_name(buf: &mut Vec<u8>, s: &String)
    ensures
        final(buf)@ == old(buf)@ + name_text(*s),
{
    let b = s.as_str().as_bytes();
    let start: usize = if b.len() > 0 && (b[0] == 64u8 || b[0] == 37u8) {
        1
    } else {
        0
    };
    let ghost b0 = buf@;
    let mut i: usize = start;
    assert(b@.subrange(start as int, start as int) =~= Seq::<u8>::empty());
    while i < b.len()
        invariant
            start <= i <= b@.len(),
            buf@ == b0 + b@.subrange(start as int, i as int),
        decreases b@.len() - i,
    {
        buf.push(b[i]);
        i = i + 1;
        assert(b@.subrange(start as int, i as int) =~= b@.subrange(start as int, i - 1).push(b@[i - 1]));
    }
    assert(strip_sigil(b@) =~= b@.subrange(start as int, b@.len() as int));
}

fn emit_label_of(buf: &mut Vec<u8>, body: &Vec<BodyItem>, t: usize)
    requires
        target_ok(body@, t),
    ensures
        final(buf)@ == old(buf)@ + label_name(body@, t),
{
    match &body[t] {
        BodyItem::Block(n) => emit_name(buf, n),
        BodyItem::Inst(_) => {},
    }
}

pub open spec fn planned(params: GenerateAsmParams, body: Seq<BodyItem>) -> bool {
    &&& params.stack_state@.len() == body.len()
    &&& forall|k: int| 0 <= k < body.len() ==> #[trigger] params.stack_state@[k] == slot_offset(body, k)
    &&& params.stack_bytes == frame_size(body)
}

fn emit_operand_asm(buf: &mut Vec<u8>, body: &Vec<BodyItem>, params: &GenerateAsmParams, r: i32, o: Operand)
    requires
        0 <= r <= 14,
        r != 2,
        operand_ok(body@, o),
        planned(*params, body@),
    ensures
        final(buf)@ == old(buf)@ + operand_asm(body@, r, o),
{
    match o {
        Operand::Integer(i) => {
            emit_str(buf, "  li ");
            register_idx_to_name(buf, r);
            emit_str(buf, ", ");
            emit_int(buf, i as i64);
            emit_str(buf, "\n");
            assert(final(buf)@ =~= old(buf)@ + operand_asm(body@, r, o));
        },
        Operand::Value(k) => {
            load_and_save(false, r, params.stack_state[k], buf);
        },
        Operand::Undef => {
            emit_str(buf, "  li ");
            register_idx_to_name(buf, r);
            emit_str(buf, ", 0\n");
            assert(final(buf)@ =~= old(buf)@ + operand_asm(body@, r, o));
        },
    }
}

fn emit_binop_asm(buf: &mut Vec<u8>, op: BinaryOp)
    ensures
        final(buf)@ == old(buf)@ + binop_asm(op),
{
    match op {
        BinaryOp::Add => emit_str(buf, "  add t1, t0, t1\n"),
        BinaryOp::Sub => emit_str(buf, "  sub t1, t0, t1\n"),
        BinaryOp::Mul => emit_str(buf, "  mul t1, t0, t1\n"),
        BinaryOp::Div => emit_str(buf, "  div t1, t0, t1\n"),
        BinaryOp::Mod => emit_str(buf, "  rem t1, t0, t1\n"),
        BinaryOp::Lt => emit_str(buf, "  slt t1, t0, t1\n"),
        BinaryOp::Gt => emit_str(buf, "  sgt t1, t0, t1\n"),
        BinaryOp::Le => emit_str(buf, "  sgt t1, t0, t1\n  seqz t1, t1\n"),
        BinaryOp::Ge => emit_str(buf, "  slt t1, t0, t1\n  seqz t1, t1\n"),
        BinaryOp::Eq => emit_str(buf, "  sub t1, t0, t1\n  seqz t1, t1\n"),
        BinaryOp::NotEq => emit_str(buf, "  sub t1, t0, t1\n  snez t1, t1\n"),
        BinaryOp::And => emit_str(buf, "  snez t0, t0\n  snez t1, t1\n  and t1, t0, t1\n"),
        BinaryOp::Or => emit_str(buf, "  snez t0, t0\n  snez t1, t1\n  or t1, t0, t1\n"),
    }
}

fn emit_prologue(buf: &mut Vec<u8>, frame: i32)
    requires
        frame >= 0,
    ensures
        final(buf)@ == old(buf)@ + prologue_text(frame as int),
{
    if frame == 0 {
        assert(final(buf)@ =~= old(buf)@ + prologue_text(frame as int));
    } else if frame <= 2048 {
        emit_str(buf, "  addi sp, sp, -");
        emit_int(buf, frame as i64);
        emit_str(buf, "\n");
        assert(final(buf)@ =~= old(buf)@ + prologue_text(frame as int));
    } else {
        emit_str(buf, "  li t0, ");
        emit_int(buf, frame as i64);
        emit_str(buf, "\n  sub sp, sp, t0\n");
        assert(final(buf)@ =~= old(buf)@ + prologue_text(frame as int));
    }
}

fn emit_epilogue(buf: &mut Vec<u8>, frame: i32)
    requires
        frame >= 0,
    ensures
        final(buf)@ == old(buf)@ + epilogue_text(frame as int),
{
    if frame == 0 {
        assert(final(buf)@ =~= old(buf)@ + epilogue_text(frame as int));
    } else if frame < 2048 {
        emit_str(buf, "  addi sp, sp, ");
        emit_int(buf, frame as i64);
        emit_str(buf, "\n");
        assert(final(buf)@ =~= old(buf)@ + epilogue_text(frame as int));
    } else {
        emit_str(buf, "  li t0, ");
        emit_int(buf, frame as i64);
        emit_str(buf, "\n  add sp, sp, t0\n");
        assert(final(buf)@ =~= old(buf)@ + epilogue_text(frame as int));
    }
}

/// Appends the assembly of body entry `k`.
#[verifier::rlimit(60)]
fn emit_item(buf: &mut Vec<u8>, body: &Vec<BodyItem>, params: &GenerateAsmParams, k: usize)
    requires
        k < body@.len(),
        body_ok(body@),
        planned(*params, body@),
    ensures
        final(buf)@ == old(buf)@ + item_asm(body@, k as int),
{
    proof {
        reveal(item_asm);
        lemma_slots_bounded(body@, body@.len() as int);
    }
    let ghost b = body@;
    assert(b[k as int] matches BodyItem::Inst(kind) ==> kind_ok(b, kind));
    match &body[k] {
        BodyItem::Block(n) => {
            emit_name(buf, n);
            emit_str(buf, ":\n");
            assert(final(buf)@ =~= old(buf)@ + item_asm(b, k as int));
        },
        BodyItem::Inst(kind) => match *kind {
            ValueKind::Integer(_) => {
                assert(final(buf)@ =~= old(buf)@ + item_asm(b, k as int));
            },
            ValueKind::Alloc => {
                assert(final(buf)@ =~= old(buf)@ + item_asm(b, k as int));
            },
            ValueKind::Store(v, d) => {
                emit_operand_asm(buf, body, params, 0, v);
                if let Operand::Value(dk) = d {
                    load_and_save(true, 0, params.stack_state[dk], buf);
                }
                assert(final(buf)@ =~= old(buf)@ + item_asm(b, k as int));
            },
            ValueKind::Load(src) => {
                if let Operand::Value(sk) = src {
                    load_and_save(false, 0, params.stack_state[sk], buf);
                }
                load_and_save(true, 0, params.stack_state[k], buf);
                assert(final(buf)@ =~= old(buf)@ + item_asm(b, k as int));
            },
            ValueKind::Binary(op, l, r) => {
                emit_operand_asm(buf, body, params, 0, l);
                emit_operand_asm(buf, body, params, 1, r);
                emit_binop_asm(buf, op);
                load_and_save(true, 1, params.stack_state[k], buf);
                assert(final(buf)@ =~= old(buf)@ + item_asm(b, k as int));
            },
            ValueKind::Branch(c, t, f) => {
                match c {
                    Operand::Integer(i) => {
                        emit_str(buf, "  j ");
                        emit_label_of(buf, body, if i != 0 { t } else { f });
                        emit_str(buf, "\n");
                    },
                    _ => {
                        emit_operand_asm(buf, body, params, 0, c);
                        emit_str(buf, "  bnez t0, ");
                        emit_label_of(buf, body, t);
                        emit_str(buf, "\n  j ");
                        emit_label_of(buf, body, f);
                        emit_str(buf, "\n");
                    },
                }
                assert(final(buf)@ =~= old(buf)@ + item_asm(b, k as int));
            },
            ValueKind::Jump(t) => {
                emit_str(buf, "  j ");
                emit_label_of(buf, body, t);
                emit_str(buf, "\n");
                assert(final(buf)@ =~= old(buf)@ + item_asm(b, k as int));
            },
            ValueKind::Return(v) => {
                let ghost b1 = buf@;
                match v {
                    Some(o) => emit_operand_asm(buf, body, params, 7, o),
                    None => {},
                }
                let ghost b2 = buf@;
                emit_epilogue(buf, params.stack_bytes);
                emit_str(buf, "  ret\n");
                assert(final(buf)@ =~= old(buf)@ + item_asm(b, k as int));
            },
        },
    }
}

impl FunctionData {
    /// Whether every operand names a value-producing instruction and every
    /// target a block label, and the body is small enough for 32-bit offsets.
    pub fn is_well_formed(&self) -> (r: bool)
        ensures
            r == body_ok(self.body@),
    {
        let n = self.body.len();
        if n >= 0x1000_0000 {
            return false;
        }
        let mut k: usize = 0;
        while k < n
            invariant
                n == self.body@.len(),
                k <= n,
                forall|j: int| 0 <= j < k ==> (#[trigger] self.body@[j] matches BodyItem::Inst(kind) ==> kind_ok(
                    self.body@,
                    kind,
                )),
            decreases n - k,
        {
            if let BodyItem::Inst(kind) = &self.body[k] {
                if !self.kind_is_ok(*kind) {
                    return false;
                }
            }
            k = k + 1;
        }
        true
    }

    fn operand_is_ok(&self, o: Operand) -> (r: bool)
        ensures
            r == operand_ok(self.body@, o),
    {
        match o {
            Operand::Value(k) => k < self.body.len() && match &self.body[k] {
                BodyItem::Inst(kind) => match kind {
                    ValueKind::Alloc | ValueKind::Load(_) | ValueKind::Binary(..) => true,
                    _ => false,
                },
                BodyItem::Block(_) => false,
            },
            _ => true,
        }
    }

    fn target_is_ok(&self, t: usize) -> (r: bool)
        ensures
            r == target_ok(self.body@, t),
    {
        t < self.body.len() && match &self.body[t] {
            BodyItem::Block(_) => true,
            BodyItem::Inst(_) => false,
        }
    }

    fn kind_is_ok(&self, k: ValueKind) -> (r: bool)
        ensures
            r == kind_ok(self.body@, k),
    {
        match k {
            ValueKind::Store(v, d) => self.operand_is_ok(v) && self.operand_is_ok(d) && match d {
                Operand::Value(_) => true,
                _ => false,
            },
            ValueKind::Load(s) => self.operand_is_ok(s) && match s {
                Operand::Value(_) => true,
                _ => false,
            },
            ValueKind::Binary(_, l, r) => self.operand_is_ok(l) && self.operand_is_ok(r),
            ValueKind::Branch(c, t, f) => self.operand_is_ok(c) && self.target_is_ok(t) && self.target_is_ok(f),
            ValueKind::Jump(t) => self.target_is_ok(t),
            ValueKind::Return(Some(v)) => self.operand_is_ok(v),
            _ => true,
        }
    }

    /// Gives each value-producing instruction the next 4-byte slot from `sp`
    /// and rounds the frame up to a multiple of 16.
    pub fn plan_stack(&self, params: &mut GenerateAsmParams)
        requires
            self.body@.len() < 0x1000_0000,
        ensures
            planned(*final(params), self.body@),
    {
        let ghost body = self.body@;
        let mut offs: Vec<i32> = Vec::new();
        let mut bytes: i32 = 0;
        let mut k: usize = 0;
        while k < self.body.len()
            invariant
                body == self.body@,
                body.len() < 0x1000_0000,
                k <= body.len(),
                offs@.len() == k,
                bytes as int == 4 * slots_before(body, k as int),
                forall|j: int| 0 <= j < k ==> #[trigger] offs@[j] == slot_offset(body, j),
            decreases body.len() - k,
        {
            proof {
                lemma_slots_bounded(body, k as int);
            }
            offs.push(bytes);
            let slotted = match &self.body[k] {
                BodyItem::Inst(kind) => match kind {
                    ValueKind::Alloc | ValueKind::Load(_) | ValueKind::Binary(..) => true,
                    _ => false,
                },
                BodyItem::Block(_) => false,
            };
            if slotted {
                bytes = bytes + 4;
            }
            k = k + 1;
        }
        proof {
            lemma_slots_bounded(body, body.len() as int);
        }
        if bytes % 16 != 0 {
            bytes = bytes + (16 - bytes % 16);
        }
        params.stack_state = offs;
        params.stack_bytes = bytes;
    }

    /// Appends the assembly of the function; `params` is left holding its
    /// frame and slot offsets.
    pub fn generate_asm(&self, buf: &mut Vec<u8>, params: &mut GenerateAsmParams)
        requires
            body_ok(self.body@),
        ensures
            asm_emitted(*self, old(buf)@, final(buf)@),
            planned(*final(params), self.body@),
    {
        let ghost b0 = buf@;
        emit_str(buf, "  .globl ");
        emit_name(buf, &self.name);
        emit_str(buf, "\n");
        emit_name(buf, &self.name);
        emit_str(buf, ":\n");
        self.plan_stack(params);
        proof {
            lemma_slots_bounded(self.body@, self.body@.len() as int);
        }
        emit_prologue(buf, params.stack_bytes);
        let ghost b1 = buf@;
        let mut k: usize = 0;
        while k < self.body.len()
            invariant
                body_ok(self.body@),
                planned(*params, self.body@),
                k <= self.body@.len(),
                buf@ == b1 + items_asm(self.body@, k as int),
            decreases self.body@.len() - k,
        {
            emit_item(buf, &self.body, params, k);
            k = k + 1;
            assert(buf@ =~= b1 + items_asm(self.body@, k as int));
        }
        assert(buf@ =~= old(buf)@ + function_asm(*self));
    }
}

impl Program {
    /// Appends the assembly of every function, in layout order, after `.text`.
    pub fn generate_asm(&self, buf: &mut Vec<u8>, params: &mut GenerateAsmParams)
        requires
            forall|i: int| 0 <= i < self.funcs@.len() ==> body_ok(#[trigger] self.funcs@[i].body@),
        ensures
            final(buf)@ == old(buf)@ + program_asm(*self),
    {
        emit_str(buf, "  .text\n");
        let ghost b1 = buf@;
        let mut i: usize = 0;
        while i < self.funcs.len()
            invariant
                forall|j: int| 0 <= j < self.funcs@.len() ==> body_ok(#[trigger] self.funcs@[j].body@),
                i <= self.funcs@.len(),
                buf@ == b1 + functions_asm(self.funcs@, i as int),
            decreases self.funcs@.len() - i,
        {
            self.funcs[i].generate_asm(buf, params);
            i = i + 1;
            assert(buf@ =~= b1 + functions_asm(self.funcs@, i as int));
        }
        assert(buf@ =~= old(buf)@ + program_asm(*self));
    }
}

impl GenerateAsmParams {
    pub fn new() -> (r: GenerateAsmParams)
        ensures
            r.stack_bytes == 0,
            r.stack_state@.len() == 0,
    {
        GenerateAsmParams { stack_bytes: 0, stack_state: Vec::new() }
    }
}

} // verus!
