//! Laws relating the lowering, the IR text and the assembly.
use vstd::prelude::*;
use crate::ast::{CompUnit, InitVal, VarDef};
use crate::generate_asm::{
    BodyItem, FunctionData, Operand, ValueKind, asm_emitted, body_ok, epilogue_text, frame_size, function_asm, item_asm,
    label_name, operand_asm, slots_before, target_ok,
};
use crate::generate_ir::{
    CompileError, IrState, comp_unit_ir, declare_var, func_lines, ir_emitted, lower_exp, lower_var_def, shadow_of,
};
use crate::sym_table::{SymVal, lemma_query_after_insert, scopes_query};
use crate::folding::lemma_exp_moves_only_counter;
use crate::ir_text::{IrLine, Label, txt};

verus! {

/// Every lowered function starts with its header and the `%entry` label and
/// ends with the closing brace.
pub proof fn lemma_function_shape(c: CompUnit)
    ensures
        comp_unit_ir(c) matches Ok(o) ==> {
            &&& o.lines.len() >= 3
            &&& o.lines[0] == IrLine::FunHeader(c.func_def.ident@, c.func_def.func_type)
            &&& o.lines[1] == IrLine::Label(Label::Entry)
            &&& o.lines.last() == IrLine::Close
        },
{
    reveal(func_lines);
}

/// Lowering the same tree twice into two empty buffers gives the same
/// outcome: the same bytes and notes, or the same error.
pub proof fn lemma_lowering_deterministic(
    c: CompUnit,
    a1: Seq<u8>,
    a2: Seq<u8>,
    r1: Result<Vec<CompileError>, CompileError>,
    r2: Result<Vec<CompileError>, CompileError>,
)
    requires
        ir_emitted(c, Seq::empty(), a1, r1),
        ir_emitted(c, Seq::empty(), a2, r2),
    ensures
        r1 is Ok <==> r2 is Ok,
        r1 is Ok ==> a1 == a2 && r1->Ok_0@ == r2->Ok_0@,
        r1 is Err ==> r1 == r2,
{
}

/// Assembling the same function twice into two empty buffers gives the same bytes.
pub proof fn lemma_assembly_deterministic(f: FunctionData, a1: Seq<u8>, a2: Seq<u8>)
    requires
        asm_emitted(f, Seq::empty(), a1),
        asm_emitted(f, Seq::empty(), a2),
    ensures
        a1 == a2,
{
}

/// A variable's initializer is lowered in the scope before the definition:
/// its lines come first, from the state before the name is bound, and only
/// then is the name given a fresh shadow index, allocated and stored.
pub proof fn lemma_initializer_sees_outer_binding(name: String, init: InitVal, st: IrState)
    ensures
        lower_var_def(VarDef::VarDefInit(name, init), st) matches Ok(o) ==> {
            let oe = lower_exp(init.exp.sexp(), st)->Ok_0;
            let k = shadow_of(st.shadow, name@) + 1;
            &&& lower_exp(init.exp.sexp(), st) is Ok
            &&& o.lines == oe.lines + seq![IrLine::Alloc(name@, k), IrLine::Store(oe.res, name@, k)]
            &&& scopes_query(o.st.scopes, name@) == Some(SymVal::VarName(k as i32))
        },
{
    reveal(lower_var_def);
    if let Ok(o) = lower_exp(init.exp.sexp(), st) {
        lemma_exp_moves_only_counter(init.exp.sexp(), st);
        assert(o.st.shadow == st.shadow);
        if let Ok((k, st1)) = declare_var(o.st, name@) {
            lemma_query_after_insert(o.st.scopes, name@, SymVal::VarName(k as i32));
        }
    }
}

/// The frame is a multiple of 16: the 4-byte slots of the value-producing
/// instructions, rounded up by less than 16.
pub proof fn lemma_frame_aligned(body: Seq<BodyItem>)
    ensures
        frame_size(body) % 16 == 0,
        4 * slots_before(body, body.len() as int) <= frame_size(body) < 4 * slots_before(
            body,
            body.len() as int,
        ) + 16,
{
}

/// Every `ret` is directly preceded by the epilogue of the function's frame.
pub proof fn lemma_return_restores_sp(body: Seq<BodyItem>, k: int, v: Option<Operand>)
    requires
        0 <= k < body.len(),
        body[k] == BodyItem::Inst(ValueKind::Return(v)),
    ensures
        item_asm(body, k) == (match v {
            Some(o) => operand_asm(body, 7, o),
            None => Seq::empty(),
        }) + epilogue_text(frame_size(body)) + txt("  ret\n"),
{
    reveal(item_asm);
}

/// Every target of a jump or branch of a well-formed body is a block label of
/// the same function, printed as that label's line.
pub proof fn lemma_targets_are_labels(body: Seq<BodyItem>, k: int, t: usize)
    requires
        body_ok(body),
        0 <= k < body.len(),
        body[k] == BodyItem::Inst(ValueKind::Jump(t)) || exists|c: Operand, u: usize|
            body[k] == BodyItem::Inst(ValueKind::Branch(c, t, u)) || body[k] == BodyItem::Inst(
                ValueKind::Branch(c, u, t),
            ),
    ensures
        target_ok(body, t),
        item_asm(body, t as int) == label_name(body, t) + txt(":\n"),
{
    reveal(item_asm);
    assert(body[k] matches BodyItem::Inst(kind) ==> crate::generate_asm::kind_ok(body, kind));
}

} // verus!
